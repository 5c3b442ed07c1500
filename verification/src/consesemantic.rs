//! Scopes and symbols of conse script, and the walk over a syntax tree that
//! resolves them.
use vstd::prelude::*;
use std::collections::HashMap;
use crate::consesyntax::{AST_Node, AST_Node_Type, AstView, ast_view};

verus! {

/// The types a symbol can have.
#[derive(PartialEq, Eq, Structural, Clone, Copy, Debug)]
pub enum Symbol_Type {
    Int,
    dubbo,
    float,
    string,
    funtion,
    bool,
    undefine,
}

/// The type a type name stands for; names it does not know are undefined.
pub open spec fn spec_symbol_type_of(name: Seq<char>) -> Symbol_Type {
    if name == "int"@ {
        Symbol_Type::Int
    } else if name == "dubbo"@ {
        Symbol_Type::dubbo
    } else if name == "string"@ {
        Symbol_Type::string
    } else if name == "funtion"@ {
        Symbol_Type::funtion
    } else if name == "float"@ {
        Symbol_Type::float
    } else {
        Symbol_Type::undefine
    }
}

impl Symbol_Type {
    /// The type a type name stands for (see `spec_symbol_type_of`).
    pub fn fromStr(name: &str) -> (t: Symbol_Type)
        ensures
            t == spec_symbol_type_of(name@),
    {
        if crate::text::str_equal(name, "int") {
            return Symbol_Type::Int;
        }
        if crate::text::str_equal(name, "dubbo") {
            return Symbol_Type::dubbo;
        }
        if crate::text::str_equal(name, "string") {
            return Symbol_Type::string;
        }
        if crate::text::str_equal(name, "funtion") {
            return Symbol_Type::funtion;
        }
        if crate::text::str_equal(name, "float") {
            return Symbol_Type::float;
        }
        Symbol_Type::undefine
    }
}

/// A declared name, its type and the scope that declares it.
pub struct Symbol {
    pub name: String,
    pub stype: Symbol_Type,
    pub scope_index: usize,
}

impl Clone for Symbol {
    fn clone(&self) -> (r: Self)
        ensures
            r == *self,
    {
        Symbol { name: self.name.clone(), stype: self.stype, scope_index: self.scope_index }
    }
}

impl Symbol {
    pub fn new(_name: &str, _stype: Symbol_Type, _scope_index: usize) -> (symbol: Symbol)
        ensures
            symbol.name@ == _name@,
            symbol.stype == _stype,
            symbol.scope_index == _scope_index,
    {
        Symbol { name: _name.to_string(), stype: _stype, scope_index: _scope_index }
    }

    pub fn get_stype(&self) -> (t: Symbol_Type)
        ensures
            t == self.stype,
    {
        self.stype
    }
}

/// Whether some symbol of `symbols` is named `name`.
pub open spec fn spec_declares(symbols: Seq<Symbol>, name: Seq<char>) -> bool {
    exists|i: int| 0 <= i < symbols.len() && (#[trigger] symbols[i]).name@ == name
}

/// The type of the first symbol named `name` from index `i` on.
pub open spec fn spec_lookup_from(symbols: Seq<Symbol>, name: Seq<char>, i: int) -> Option<Symbol_Type>
    decreases symbols.len() - i,
{
    if i < 0 || i >= symbols.len() {
        None
    } else if symbols[i].name@ == name {
        Some(symbols[i].stype)
    } else {
        spec_lookup_from(symbols, name, i + 1)
    }
}

/// The type of the first symbol named `name`.
pub open spec fn spec_lookup(symbols: Seq<Symbol>, name: Seq<char>) -> Option<Symbol_Type> {
    spec_lookup_from(symbols, name, 0)
}

/// A scope: the symbols it declares and the scope that encloses it.
pub struct Block_Scope {
    symbol_list: Vec<Symbol>,
    parent_index: Option<usize>,
}

/// A scope as the contracts speak of it.
pub struct BlockScopeView {
    pub symbols: Seq<Symbol>,
    pub parent: Option<usize>,
}

impl View for Block_Scope {
    type V = BlockScopeView;

    closed spec fn view(&self) -> BlockScopeView {
        BlockScopeView { symbols: self.symbol_list@, parent: self.parent_index }
    }
}

impl Clone for Block_Scope {
    fn clone(&self) -> (r: Self)
        ensures
            r@ == self@,
    {
        let mut symbols: Vec<Symbol> = Vec::new();
        let mut i: usize = 0;
        while i < self.symbol_list.len()
            invariant
                i <= self.symbol_list@.len(),
                symbols@ == self.symbol_list@.take(i as int),
            decreases self.symbol_list@.len() - i,
        {
            symbols.push(self.symbol_list[i].clone());
            i += 1;
            assert(symbols@ =~= self.symbol_list@.take(i as int));
        }
        assert(self.symbol_list@.take(i as int) =~= self.symbol_list@);
        Block_Scope { symbol_list: symbols, parent_index: self.parent_index }
    }
}

impl Block_Scope {
    /// An empty scope inside the scope `_parent_index`, if any.
    pub fn new(_parent_index: Option<usize>) -> (scope: Block_Scope)
        ensures
            scope@.symbols == Seq::<Symbol>::empty(),
            scope@.parent == _parent_index,
    {
        Block_Scope { symbol_list: Vec::new(), parent_index: _parent_index }
    }

    pub fn get_parent_index(&self) -> (p: Option<usize>)
        ensures
            p == self@.parent,
    {
        self.parent_index
    }

    /// Whether this scope itself declares `name`.
    pub fn containCurrentScopeSymbol(&self, name: &str) -> (r: bool)
        ensures
            r == spec_declares(self@.symbols, name@),
    {
        let mut i: usize = 0;
        while i < self.symbol_list.len()
            invariant
                i <= self.symbol_list@.len(),
                forall|j: int| 0 <= j < i ==> (#[trigger] self.symbol_list@[j]).name@ != name@,
            decreases self.symbol_list@.len() - i,
        {
            if crate::text::str_equal(self.symbol_list[i].name.as_str(), name) {
                return true;
            }
            i += 1;
        }
        false
    }

    /// The type of the first symbol of this scope named `name`.
    pub fn findSymbol(&self, name: &str) -> (r: Option<Symbol_Type>)
        ensures
            r == spec_lookup(self@.symbols, name@),
    {
        let mut i: usize = 0;
        while i < self.symbol_list.len()
            invariant
                i <= self.symbol_list@.len(),
                spec_lookup(self.symbol_list@, name@) == spec_lookup_from(self.symbol_list@, name@, i as int),
            decreases self.symbol_list@.len() - i,
        {
            if crate::text::str_equal(self.symbol_list[i].name.as_str(), name) {
                return Some(self.symbol_list[i].stype);
            }
            i += 1;
        }
        None
    }

    /// Declares `name` in this scope; a name is declared once per scope.
    pub fn addSymbol(&mut self, name: &str, stype: Symbol_Type, scope_index: usize)
        requires
            !spec_declares(old(self)@.symbols, name@),
        ensures
            final(self)@.parent == old(self)@.parent,
            final(self)@.symbols.len() == old(self)@.symbols.len() + 1,
            final(self)@.symbols.drop_last() == old(self)@.symbols,
            final(self)@.symbols.last().name@ == name@,
            final(self)@.symbols.last().stype == stype,
            final(self)@.symbols.last().scope_index == scope_index,
    {
        let symbol = Symbol::new(name, stype, scope_index);
        self.symbol_list.push(symbol);
        assert(self@.symbols.drop_last() =~= old(self)@.symbols);
    }
}

/// The type that `name` has from scope `i`: that of the first symbol named
/// `name` in it, else in its enclosing scopes in turn, following at most
/// `steps` scopes.
pub open spec fn spec_find_available(scopes: Seq<BlockScopeView>, name: Seq<char>, i: int, steps: nat) -> Option<Symbol_Type>
    decreases steps,
{
    if steps == 0 || i < 0 || i >= scopes.len() {
        None
    } else {
        match spec_lookup(scopes[i].symbols, name) {
            Some(t) => Some(t),
            None => match scopes[i].parent {
                Some(p) => spec_find_available(scopes, name, p as int, (steps - 1) as nat),
                None => None,
            },
        }
    }
}

/// The views of a list of scopes.
pub open spec fn scopes_view(scopes: Seq<Block_Scope>) -> Seq<BlockScopeView> {
    scopes.map_values(|s: Block_Scope| s@)
}

/// The type that `_name` has in scope `scope_index`: declared there or in
/// an enclosing scope, the nearest first.
pub fn findSymbolFromAvaScope(scope_list: &Vec<Block_Scope>, _name: &str, scope_index: usize) -> (r: Option<Symbol_Type>)
    requires
        scope_index < scope_list.len(),
    ensures
        r == spec_find_available(scopes_view(scope_list@), _name@, scope_index as int, scope_list@.len()),
{
    let ghost scopes = scopes_view(scope_list@);
    let mut index = scope_index;
    let mut steps = scope_list.len();
    while steps > 0
        invariant
            scopes == scopes_view(scope_list@),
            scopes.len() == scope_list@.len(),
            index < scope_list@.len(),
            steps <= scope_list@.len(),
            spec_find_available(scopes, _name@, scope_index as int, scope_list@.len())
                == spec_find_available(scopes, _name@, index as int, steps as nat),
        decreases steps,
    {
        let scope = &scope_list[index];
        assert(scopes[index as int] == scope@);
        match scope.findSymbol(_name) {
            Some(t) => {
                return Some(t);
            },
            None => {},
        }
        match scope.get_parent_index() {
            Some(p) => {
                if p >= scope_list.len() {
                    assert(spec_find_available(scopes, _name@, p as int, (steps - 1) as nat) is None);
                    return None;
                }
                index = p;
            },
            None => {
                return None;
            },
        }
        steps -= 1;
    }
    None
}

} // verus!

verus! {

/// What the analysis of a tree has found: the symbols, the scopes, and per
/// node its scope, its symbol and its type.
pub struct Semantic_Context {
    pub symbol_list: Vec<Symbol>,
    pub scope_list: Vec<Block_Scope>,
    pub node_scope_map: HashMap<i32, usize>,
    pub node_symbol_map: HashMap<i32, usize>,
    pub node_primary_type_map: HashMap<i32, Symbol_Type>,
}

/// A symbol as the contracts speak of it: its name, type and scope.
pub open spec fn symbol_view(s: Symbol) -> (Seq<char>, Symbol_Type, usize) {
    (s.name@, s.stype, s.scope_index)
}

/// An analysis as the contracts speak of it.
pub struct ContextView {
    pub symbols: Seq<(Seq<char>, Symbol_Type, usize)>,
    pub scopes: Seq<BlockScopeView>,
    pub node_scope: Map<i32, usize>,
    pub node_symbol: Map<i32, usize>,
    pub node_type: Map<i32, Symbol_Type>,
}

impl View for Semantic_Context {
    type V = ContextView;

    open spec fn view(&self) -> ContextView {
        ContextView {
            symbols: self.symbol_list@.map_values(|s: Symbol| symbol_view(s)),
            scopes: scopes_view(self.scope_list@),
            node_scope: self.node_scope_map@,
            node_symbol: self.node_symbol_map@,
            node_type: self.node_primary_type_map@,
        }
    }
}

/// An analysis that has found nothing yet.
pub open spec fn empty_context() -> ContextView {
    ContextView {
        symbols: Seq::empty(),
        scopes: Seq::empty(),
        node_scope: Map::empty(),
        node_symbol: Map::empty(),
        node_type: Map::empty(),
    }
}

impl Semantic_Context {
    /// An analysis that has found nothing yet.
    pub fn new() -> (c: Semantic_Context)
        ensures
            c@ == empty_context(),
    {
        let c = Semantic_Context {
            symbol_list: Vec::new(),
            scope_list: Vec::new(),
            node_scope_map: HashMap::new(),
            node_symbol_map: HashMap::new(),
            node_primary_type_map: HashMap::new(),
        };
        assert(c@.symbols =~= Seq::<(Seq<char>, Symbol_Type, usize)>::empty());
        assert(c@.scopes =~= Seq::<BlockScopeView>::empty());
        c
    }
}

/// A pass over a syntax tree: it is told when the walk enters a node and
/// when it leaves it, after the node's children. `enter_ok` and `exit_ok`
/// say when the pass can take a node; `entered` and `exited` say what it
/// makes of its own state and of the analysis.
pub trait AST_Tree_Processor: View + Sized {
    spec fn enter_ok(state: Self::V, node: AstView, ctx: ContextView) -> bool;

    spec fn entered(state: Self::V, node: AstView, ctx: ContextView) -> (Self::V, ContextView);

    spec fn exit_ok(state: Self::V, node: AstView, ctx: ContextView) -> bool;

    spec fn exited(state: Self::V, node: AstView, ctx: ContextView) -> (Self::V, ContextView);

    fn process_enter_node(&mut self, node: &AST_Node, semantic_context: &mut Semantic_Context)
        requires
            Self::enter_ok(old(self)@, ast_view(*node), old(semantic_context)@),
        ensures
            (final(self)@, final(semantic_context)@) == Self::entered(old(self)@, ast_view(*node), old(semantic_context)@),
    ;

    fn process_exit_node(&mut self, node: &AST_Node, semantic_context: &mut Semantic_Context)
        requires
            Self::exit_ok(old(self)@, ast_view(*node), old(semantic_context)@),
        ensures
            (final(self)@, final(semantic_context)@) == Self::exited(old(self)@, ast_view(*node), old(semantic_context)@),
    ;
}

/// What a pass makes of its state and the analysis when it walks a tree:
/// it enters the node, walks the children in order, and leaves the node.
pub open spec fn walk_spec<P: AST_Tree_Processor>(s: P::V, n: AstView, c: ContextView) -> (P::V, ContextView)
    decreases n,
{
    let (s1, c1) = P::entered(s, n, c);
    let (s2, c2) = walk_children::<P>(s1, n.children, c1);
    P::exited(s2, n, c2)
}

/// What a pass makes of its state and the analysis when it walks trees in
/// order.
pub open spec fn walk_children<P: AST_Tree_Processor>(s: P::V, cs: Seq<AstView>, c: ContextView) -> (P::V, ContextView)
    decreases cs,
{
    if cs.len() == 0 {
        (s, c)
    } else {
        let (s1, c1) = walk_children::<P>(s, cs.drop_last(), c);
        walk_spec::<P>(s1, cs.last(), c1)
    }
}

/// Whether the pass can take every node of the walk of a tree.
pub open spec fn walk_ok<P: AST_Tree_Processor>(s: P::V, n: AstView, c: ContextView) -> bool
    decreases n,
{
    let (s1, c1) = P::entered(s, n, c);
    let (s2, c2) = walk_children::<P>(s1, n.children, c1);
    P::enter_ok(s, n, c) && children_ok::<P>(s1, n.children, c1) && P::exit_ok(s2, n, c2)
}

/// Whether the pass can take every node of the walk of trees in order.
pub open spec fn children_ok<P: AST_Tree_Processor>(s: P::V, cs: Seq<AstView>, c: ContextView) -> bool
    decreases cs,
{
    if cs.len() == 0 {
        true
    } else {
        let (s1, c1) = walk_children::<P>(s, cs.drop_last(), c);
        children_ok::<P>(s, cs.drop_last(), c) && walk_ok::<P>(s1, cs.last(), c1)
    }
}

/// A walk that the pass can take through all the trees it can take through
/// a prefix of them.
proof fn lemma_children_ok_prefix<P: AST_Tree_Processor>(s: P::V, cs: Seq<AstView>, c: ContextView, k: int)
    requires
        0 <= k <= cs.len(),
        children_ok::<P>(s, cs, c),
    ensures
        children_ok::<P>(s, cs.take(k), c),
    decreases cs.len(),
{
    if k == cs.len() {
        assert(cs.take(k) =~= cs);
    } else {
        assert(cs.drop_last().take(k) =~= cs.take(k));
        lemma_children_ok_prefix::<P>(s, cs.drop_last(), c, k);
    }
}

/// Walks a tree with a pass (see `walk_spec`).
pub fn walk_sigle_AST_node<P: AST_Tree_Processor>(node: &AST_Node, tree_process: &mut P, semantic_context: &mut Semantic_Context)
    requires
        walk_ok::<P>(old(tree_process)@, ast_view(*node), old(semantic_context)@),
    ensures
        (final(tree_process)@, final(semantic_context)@)
            == walk_spec::<P>(old(tree_process)@, ast_view(*node), old(semantic_context)@),
    decreases ast_view(*node),
{
    let ghost n = ast_view(*node);
    let ghost s0 = tree_process@;
    let ghost c0 = semantic_context@;
    tree_process.process_enter_node(node, semantic_context);
    let ghost s1 = tree_process@;
    let ghost c1 = semantic_context@;
    let len = node.children.len();
    let mut i: usize = 0;
    assert(n.children.take(0) =~= Seq::<AstView>::empty());
    while i < len
        invariant
            n == ast_view(*node),
            len == node.children@.len(),
            n.children.len() == len,
            i <= len,
            children_ok::<P>(s1, n.children, c1),
            (tree_process@, semantic_context@) == walk_children::<P>(s1, n.children.take(i as int), c1),
        decreases len - i,
    {
        proof {
            crate::consesyntax::lemma_child_view(*node, i as int);
            lemma_children_ok_prefix::<P>(s1, n.children, c1, i + 1);
            assert(n.children.take(i + 1).drop_last() =~= n.children.take(i as int));
        }
        walk_sigle_AST_node(&node.children[i], tree_process, semantic_context);
        i += 1;
    }
    assert(n.children.take(len as int) =~= n.children);
    tree_process.process_exit_node(node, semantic_context);
}

/// Walks a tree with a pass, from an analysis that has found nothing.
pub fn walk_AST_tree<P: AST_Tree_Processor>(root: &AST_Node, tree_process: &mut P)
    requires
        walk_ok::<P>(old(tree_process)@, ast_view(*root), empty_context()),
    ensures
        final(tree_process)@ == walk_spec::<P>(old(tree_process)@, ast_view(*root), empty_context()).0,
{
    let mut semantic_context = Semantic_Context::new();
    walk_sigle_AST_node(root, tree_process, &mut semantic_context);
}

} // verus!

verus! {

/// Whether a node of kind `t` opens a scope: a function, a condition
/// statement or a block.
pub open spec fn opens_scope(t: AST_Node_Type) -> bool {
    t == AST_Node_Type::Function || t == AST_Node_Type::ConditionBlockStmt || t == AST_Node_Type::StatementBlock
}

fn is_scope_node(t: AST_Node_Type) -> (r: bool)
    ensures
        r == opens_scope(t),
{
    t == AST_Node_Type::Function || t == AST_Node_Type::ConditionBlockStmt || t == AST_Node_Type::StatementBlock
}

/// A copy of a list of scopes.
fn copy_scopes(v: &Vec<Block_Scope>) -> (r: Vec<Block_Scope>)
    ensures
        scopes_view(r@) == scopes_view(v@),
{
    let mut r: Vec<Block_Scope> = Vec::new();
    let mut i: usize = 0;
    while i < v.len()
        invariant
            i <= v@.len(),
            r@.len() == i,
            forall|j: int| 0 <= j < i ==> (#[trigger] r@[j])@ == v@[j]@,
        decreases v@.len() - i,
    {
        let c = v[i].clone();
        r.push(c);
        i += 1;
    }
    assert(scopes_view(r@) =~= scopes_view(v@));
    r
}

/// The pass that finds the scopes: each function, condition statement and
/// block opens one inside the current scope.
pub struct Scope_Resolver {
    scope_list: Vec<Block_Scope>,
    current_index: usize,
}

/// The scope pass as the contracts speak of it: the scopes found and the
/// index of the current one (`usize::MAX` for none).
pub struct ScopeResolverView {
    pub scopes: Seq<BlockScopeView>,
    pub current: usize,
}

impl View for Scope_Resolver {
    type V = ScopeResolverView;

    closed spec fn view(&self) -> ScopeResolverView {
        ScopeResolverView { scopes: scopes_view(self.scope_list@), current: self.current_index }
    }
}

/// The index of the scope after `current` (the first where there is none).
pub open spec fn next_scope_index(current: usize) -> usize {
    if current == usize::MAX { 0 } else { (current + 1) as usize }
}

/// The scope that the current one is, as a parent.
pub open spec fn parent_of(current: usize) -> Option<usize> {
    if current == usize::MAX { None } else { Some(current) }
}

impl Scope_Resolver {
    /// A pass that has found no scope yet.
    pub fn new() -> (r: Scope_Resolver)
        ensures
            r@.scopes == Seq::<BlockScopeView>::empty(),
            r@.current == usize::MAX,
    {
        let r = Scope_Resolver { scope_list: Vec::new(), current_index: usize::MAX };
        assert(r@.scopes =~= Seq::<BlockScopeView>::empty());
        r
    }

    /// Adds a scope, which becomes the current one.
    pub fn pushScope(&mut self, scope: Block_Scope)
        ensures
            final(self)@.scopes == old(self)@.scopes.push(scope@),
            final(self)@.current == next_scope_index(old(self)@.current),
    {
        let ghost before = self.scope_list@;
        self.scope_list.push(scope);
        assert(scopes_view(self.scope_list@) =~= scopes_view(before).push(scope@));
        if self.current_index == usize::MAX {
            self.current_index = 0;
        } else {
            self.current_index += 1;
        }
    }

    /// Steps back from the current scope to the one before it, and gives
    /// the index it left; with no scope found, nothing.
    pub fn popScope(&mut self) -> (r: Option<usize>)
        requires
            !(old(self)@.scopes.len() > 0 && old(self)@.current == 0),
        ensures
            final(self)@.scopes == old(self)@.scopes,
            old(self)@.scopes.len() > 0 ==> r == Some(old(self)@.current)
                && final(self)@.current == old(self)@.current - 1,
            old(self)@.scopes.len() == 0 ==> r is None && final(self)@ == old(self)@,
    {
        if self.scope_list.len() > 0 {
            let left = self.current_index;
            self.current_index -= 1;
            Some(left)
        } else {
            None
        }
    }
}

impl AST_Tree_Processor for Scope_Resolver {
    open spec fn enter_ok(state: ScopeResolverView, node: AstView, ctx: ContextView) -> bool {
        true
    }

    /// A node that opens a scope records the index of its new scope, which
    /// lies inside the current one and becomes current.
    open spec fn entered(state: ScopeResolverView, node: AstView, ctx: ContextView) -> (ScopeResolverView, ContextView) {
        if !opens_scope(node.node_type) {
            (state, ctx)
        } else {
            (
                ScopeResolverView {
                    scopes: state.scopes.push(BlockScopeView { symbols: Seq::empty(), parent: parent_of(state.current) }),
                    current: next_scope_index(state.current),
                },
                ContextView { node_scope: ctx.node_scope.insert(node.id, state.scopes.len() as usize), ..ctx },
            )
        }
    }

    /// Leaving the node with id 0 hands the scopes to the analysis; leaving
    /// another node that opens a scope steps back from it.
    open spec fn exit_ok(state: ScopeResolverView, node: AstView, ctx: ContextView) -> bool {
        node.id == 0 || !opens_scope(node.node_type) || !(state.scopes.len() > 0 && state.current == 0)
    }

    open spec fn exited(state: ScopeResolverView, node: AstView, ctx: ContextView) -> (ScopeResolverView, ContextView) {
        if node.id == 0 {
            (state, ContextView { scopes: state.scopes, ..ctx })
        } else if !opens_scope(node.node_type) || state.scopes.len() == 0 {
            (state, ctx)
        } else {
            (ScopeResolverView { current: (state.current - 1) as usize, ..state }, ctx)
        }
    }

    fn process_enter_node(&mut self, node: &AST_Node, semantic_context: &mut Semantic_Context) {
        if !is_scope_node(node.get_type()) {
            return;
        }
        let parent = if self.current_index == usize::MAX { None } else { Some(self.current_index) };
        let scope = Block_Scope::new(parent);
        semantic_context.node_scope_map.insert(node.get_id(), self.scope_list.len());
        self.pushScope(scope);
    }

    fn process_exit_node(&mut self, node: &AST_Node, semantic_context: &mut Semantic_Context) {
        if node.get_id() == 0 {
            semantic_context.scope_list = copy_scopes(&self.scope_list);
            return;
        }
        if !is_scope_node(node.get_type()) {
            return;
        }
        let _ = self.popScope();
    }
}

/// The pass that finds the variables: each declaration declares the name of
/// its first child, in the scope recorded for it, with the type its text
/// names.
pub struct Variable_Resolver {
    symbol_list: Vec<Symbol>,
}

impl View for Variable_Resolver {
    type V = Seq<(Seq<char>, Symbol_Type, usize)>;

    closed spec fn view(&self) -> Seq<(Seq<char>, Symbol_Type, usize)> {
        self.symbol_list@.map_values(|s: Symbol| symbol_view(s))
    }
}

/// The type a declaration gives its symbol: the one its text names, or
/// undefined for no text.
pub open spec fn declared_type(node: AstView) -> Symbol_Type {
    if node.value.len() != 0 { spec_symbol_type_of(node.value) } else { Symbol_Type::undefine }
}

impl Variable_Resolver {
    /// A pass that has found no variable yet.
    pub fn new() -> (r: Variable_Resolver)
        ensures
            r@ == Seq::<(Seq<char>, Symbol_Type, usize)>::empty(),
    {
        let r = Variable_Resolver { symbol_list: Vec::new() };
        assert(r@ =~= Seq::<(Seq<char>, Symbol_Type, usize)>::empty());
        r
    }

    /// Adds a symbol and gives its index.
    pub fn addSymbol(&mut self, symbol: Symbol) -> (index: usize)
        ensures
            final(self)@ == old(self)@.push(symbol_view(symbol)),
            index == old(self)@.len(),
    {
        let ghost before = self.symbol_list@;
        self.symbol_list.push(symbol);
        assert(self@ =~= before.map_values(|s: Symbol| symbol_view(s)).push(symbol_view(symbol)));
        self.symbol_list.len() - 1
    }
}

impl AST_Tree_Processor for Variable_Resolver {
    /// A declaration needs a first child and a recorded scope.
    open spec fn enter_ok(state: Seq<(Seq<char>, Symbol_Type, usize)>, node: AstView, ctx: ContextView) -> bool {
        node.node_type == AST_Node_Type::Declaration ==> node.children.len() > 0 && ctx.node_scope.contains_key(node.id)
    }

    open spec fn entered(state: Seq<(Seq<char>, Symbol_Type, usize)>, node: AstView, ctx: ContextView) -> (Seq<(Seq<char>, Symbol_Type, usize)>, ContextView) {
        if node.node_type != AST_Node_Type::Declaration {
            (state, ctx)
        } else {
            (
                state.push((node.children[0].value, declared_type(node), ctx.node_scope[node.id])),
                ContextView {
                    node_symbol: ctx.node_symbol.insert(node.id, state.len() as usize),
                    node_type: ctx.node_type.insert(node.id, declared_type(node)),
                    ..ctx
                },
            )
        }
    }

    open spec fn exit_ok(state: Seq<(Seq<char>, Symbol_Type, usize)>, node: AstView, ctx: ContextView) -> bool {
        true
    }

    open spec fn exited(state: Seq<(Seq<char>, Symbol_Type, usize)>, node: AstView, ctx: ContextView) -> (Seq<(Seq<char>, Symbol_Type, usize)>, ContextView) {
        (state, ctx)
    }

    fn process_enter_node(&mut self, node: &AST_Node, semantic_context: &mut Semantic_Context) {
        if node.get_type() != AST_Node_Type::Declaration {
            return;
        }
        proof { crate::consesyntax::lemma_child_view(*node, 0); }
        let identifer_node = &node.children[0];
        let symbol_type = if node.value.as_str().unicode_len() != 0 {
            Symbol_Type::fromStr(node.get_value())
        } else {
            Symbol_Type::undefine
        };
        let scope_index = match semantic_context.node_scope_map.get(&node.get_id()) {
            Some(i) => *i,
            None => 0,
        };
        let symbol = Symbol::new(identifer_node.get_value(), symbol_type, scope_index);
        let symbol_index = self.addSymbol(symbol);
        semantic_context.node_symbol_map.insert(node.get_id(), symbol_index);
        semantic_context.node_primary_type_map.insert(node.get_id(), symbol_type);
    }

    fn process_exit_node(&mut self, node: &AST_Node, semantic_context: &mut Semantic_Context) {
    }
}

/// Whether a type is a number type.
pub open spec fn is_number(t: Symbol_Type) -> bool {
    t == Symbol_Type::Int || t == Symbol_Type::dubbo
}

/// The pass that finds the type of each expression node.
pub struct PrimaryType_Resolver {}

impl View for PrimaryType_Resolver {
    type V = ();

    open spec fn view(&self) -> () {
        ()
    }
}

/// The type the type pass gives a node that is no declaration: named by
/// the text of a type node, or of the first child of a primary or
/// parameter node; declared for an identifier in its recorded scope; fixed
/// for conditions and literals; otherwise undefined.
pub open spec fn primary_type(node: AstView, ctx: ContextView) -> Symbol_Type {
    match node.node_type {
        AST_Node_Type::TypeType => spec_symbol_type_of(node.value),
        AST_Node_Type::Primary | AST_Node_Type::ParameterDefine => spec_symbol_type_of(node.children[0].value),
        AST_Node_Type::Identifier => match spec_lookup(ctx.scopes[ctx.node_scope[node.id] as int].symbols, node.value) {
            Some(t) => t,
            None => Symbol_Type::undefine,
        },
        AST_Node_Type::ConditionExpression => Symbol_Type::bool,
        AST_Node_Type::StringLiteral => Symbol_Type::string,
        AST_Node_Type::DoubleLiteral => Symbol_Type::dubbo,
        AST_Node_Type::IntLiteral => Symbol_Type::Int,
        _ => Symbol_Type::undefine,
    }
}

/// Whether the type pass has given the node with id `id` a number type.
pub open spec fn typed_number(ctx: ContextView, id: i32) -> bool {
    ctx.node_type.contains_key(id) && is_number(ctx.node_type[id])
}

impl AST_Tree_Processor for PrimaryType_Resolver {
    /// A primary or parameter node needs a child; an identifier needs a
    /// recorded scope that exists.
    open spec fn enter_ok(state: (), node: AstView, ctx: ContextView) -> bool {
        &&& (node.node_type == AST_Node_Type::Primary || node.node_type == AST_Node_Type::ParameterDefine)
            ==> node.children.len() > 0
        &&& node.node_type == AST_Node_Type::Identifier ==> ctx.node_scope.contains_key(node.id)
            && ctx.node_scope[node.id] < ctx.scopes.len()
    }

    open spec fn entered(state: (), node: AstView, ctx: ContextView) -> ((), ContextView) {
        if node.node_type == AST_Node_Type::Declaration {
            (state, ctx)
        } else {
            (state, ContextView { node_type: ctx.node_type.insert(node.id, primary_type(node, ctx)), ..ctx })
        }
    }

    /// An arithmetic node must have two operands of number type.
    open spec fn exit_ok(state: (), node: AstView, ctx: ContextView) -> bool {
        (node.node_type == AST_Node_Type::Multiplicative || node.node_type == AST_Node_Type::Additive) ==> {
            &&& node.children.len() >= 2
            &&& typed_number(ctx, node.children[0].id)
            &&& typed_number(ctx, node.children[1].id)
        }
    }

    open spec fn exited(state: (), node: AstView, ctx: ContextView) -> ((), ContextView) {
        (state, ctx)
    }

    fn process_enter_node(&mut self, node: &AST_Node, semantic_context: &mut Semantic_Context) {
        let t = node.get_type();
        if t == AST_Node_Type::Declaration {
            return;
        }
        let mut symbol_type = Symbol_Type::undefine;
        if t == AST_Node_Type::TypeType {
            symbol_type = Symbol_Type::fromStr(node.get_value());
        }
        if t == AST_Node_Type::Primary || t == AST_Node_Type::ParameterDefine {
            proof { crate::consesyntax::lemma_child_view(*node, 0); }
            symbol_type = Symbol_Type::fromStr(node.children[0].get_value());
        }
        if t == AST_Node_Type::Identifier {
            let scope_index = match semantic_context.node_scope_map.get(&node.get_id()) {
                Some(i) => *i,
                None => 0,
            };
            let scope = &semantic_context.scope_list[scope_index];
            assert(semantic_context@.scopes[scope_index as int] == scope@);
            match scope.findSymbol(node.get_value()) {
                Some(found) => {
                    symbol_type = found;
                },
                None => {},
            }
        }
        if t == AST_Node_Type::ConditionExpression {
            symbol_type = Symbol_Type::bool;
        }
        if t == AST_Node_Type::StringLiteral {
            symbol_type = Symbol_Type::string;
        }
        if t == AST_Node_Type::DoubleLiteral {
            symbol_type = Symbol_Type::dubbo;
        }
        if t == AST_Node_Type::IntLiteral {
            symbol_type = Symbol_Type::Int;
        }
        semantic_context.node_primary_type_map.insert(node.get_id(), symbol_type);
    }

    fn process_exit_node(&mut self, node: &AST_Node, semantic_context: &mut Semantic_Context) {
    }
}

/// The analysis of a tree: the scopes that the scope pass finds, handed to
/// the analysis when the walk leaves a node with id 0, and the scope
/// recorded for each node that opens one.
pub fn semanticParse(root: AST_Node) -> (c: Semantic_Context)
    requires
        walk_ok::<Scope_Resolver>(
            ScopeResolverView { scopes: Seq::empty(), current: usize::MAX },
            ast_view(root),
            empty_context(),
        ),
    ensures
        c@ == walk_spec::<Scope_Resolver>(
            ScopeResolverView { scopes: Seq::empty(), current: usize::MAX },
            ast_view(root),
            empty_context(),
        ).1,
{
    let mut semantic_context = Semantic_Context::new();
    let mut resolver = Scope_Resolver::new();
    assert(resolver@ == ScopeResolverView { scopes: Seq::empty(), current: usize::MAX });
    walk_sigle_AST_node(&root, &mut resolver, &mut semantic_context);
    semantic_context
}

} // verus!

verus! {

/// Once a scope declares a name it did not declare before, looking the
/// name up in the scope finds the type it was declared with.
pub proof fn law_find_after_add(symbols: Seq<Symbol>, added: Symbol)
    requires
        !spec_declares(symbols, added.name@),
    ensures
        spec_lookup(symbols.push(added), added.name@) == Some(added.stype),
{
    lemma_lookup_pushed(symbols, added, 0);
}

proof fn lemma_lookup_pushed(symbols: Seq<Symbol>, added: Symbol, i: int)
    requires
        0 <= i <= symbols.len(),
        !spec_declares(symbols, added.name@),
    ensures
        spec_lookup_from(symbols.push(added), added.name@, i) == Some(added.stype),
    decreases symbols.len() - i,
{
    let all = symbols.push(added);
    if i < symbols.len() {
        assert(all[i] == symbols[i]);
        assert(symbols[i].name@ != added.name@);
        lemma_lookup_pushed(symbols, added, i + 1);
    } else {
        assert(all[i] == added);
    }
}

/// Stepping back after entering a scope from a current one makes that
/// scope current again and gives the index that was entered.
pub proof fn law_pop_after_push(r: ScopeResolverView, scope: BlockScopeView)
    requires
        r.current < usize::MAX,
    ensures
        ({
            let pushed = ScopeResolverView { scopes: r.scopes.push(scope), current: next_scope_index(r.current) };
            &&& !(pushed.scopes.len() > 0 && pushed.current == 0)
            &&& pushed.current - 1 == r.current
        }),
{
}

} // verus!
