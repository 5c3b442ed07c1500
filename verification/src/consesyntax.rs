//! The syntax tree of conse script, its parser and its evaluator.
use vstd::prelude::*;
use crate::conse_token::{Token, Token_Type, TokenList};

verus! {

/// The kinds of syntax tree node.
#[derive(PartialEq, Eq, Structural, Clone, Copy, Debug)]
pub enum AST_Node_Type {
    Programm,
    Statement,
    Function,
    FormalParameters,
    FunctionReturn,
    FunctionBody,
    Declaration,
    ExpressionStmt,
    AssignmentStmt,
    ConditionBlockStmt,
    StatementBlock,
    Multiplicative,
    Additive,
    Primary,
    Identifier,
    IntLiteral,
    DoubleLiteral,
    StringLiteral,
    ConditionExpression,
    ParameterDefine,
    TypeType,
}

/// A node of the syntax tree: its kind, its text and its children.
pub struct AST_Node {
    pub node_type: AST_Node_Type,
    pub children: Vec<AST_Node>,
    pub value: String,
    pub id: i32,
}

/// A syntax tree as the contracts speak of it.
pub struct AstView {
    pub node_type: AST_Node_Type,
    pub value: Seq<char>,
    pub children: Seq<AstView>,
    pub id: i32,
}

/// The tree of a node.
pub open spec fn ast_view(n: AST_Node) -> AstView
    decreases n,
{
    AstView {
        node_type: n.node_type,
        value: n.value@,
        children: Seq::new(
            n.children@.len(),
            |i: int| if 0 <= i < n.children@.len() { ast_view(n.children@[i]) } else { arbitrary() },
        ),
        id: n.id,
    }
}

} // verus!

verus! {

impl AST_Node {
    /// A leaf of kind `_node_type` with text `_value`.
    pub fn new(_node_type: AST_Node_Type, _value: &str) -> (node: AST_Node)
        ensures
            ast_view(node) == leaf(_node_type, _value@),
    {
        let node = AST_Node { node_type: _node_type, children: Vec::new(), value: _value.to_string(), id: 0 };
        assert(ast_view(node).children =~= Seq::<AstView>::empty());
        node
    }

    /// Appends a child.
    pub fn addChild(&mut self, _node: AST_Node)
        ensures
            ast_view(*final(self)) == with_child(ast_view(*old(self)), ast_view(_node)),
    {
        let ghost before = ast_view(*self);
        self.children.push(_node);
        assert(ast_view(*self).children =~= before.children.push(ast_view(_node)));
    }

    pub fn get_type(&self) -> (t: AST_Node_Type)
        ensures
            t == self.node_type,
    {
        self.node_type
    }

    pub fn getChildren(&self) -> (children: &Vec<AST_Node>)
        ensures
            *children == self.children,
    {
        &self.children
    }

    pub fn get_id(&self) -> (id: i32)
        ensures
            id == self.id,
    {
        self.id
    }

    pub fn get_value(&self) -> (value: &str)
        ensures
            value@ == self.value@,
    {
        self.value.as_str()
    }

    fn retype(&mut self, node_type: AST_Node_Type)
        ensures
            ast_view(*final(self)) == retyped(ast_view(*old(self)), node_type),
    {
        let ghost before = ast_view(*self);
        self.node_type = node_type;
        assert(ast_view(*self).children =~= before.children);
    }
}

/// A tree without children.
pub open spec fn leaf(t: AST_Node_Type, v: Seq<char>) -> AstView {
    AstView { node_type: t, value: v, children: Seq::empty(), id: 0 }
}

/// A tree with one more child.
pub open spec fn with_child(n: AstView, c: AstView) -> AstView {
    AstView { children: n.children.push(c), ..n }
}

/// A tree of another kind.
pub open spec fn retyped(n: AstView, t: AST_Node_Type) -> AstView {
    AstView { node_type: t, ..n }
}

/// A tree with two children.
pub open spec fn branch(t: AST_Node_Type, v: Seq<char>, a: AstView, b: AstView) -> AstView {
    with_child(with_child(leaf(t, v), a), b)
}

/// What a grammar rule does at a position: it matches a tree and moves the
/// cursor, it does not match and leaves the cursor, or the text is a syntax
/// error.
pub enum Parse_Result {
    Matched { node: AstView, pos: int },
    NoMatch,
    Failed,
}

/// Whether the token at `p` has kind `t`.
pub open spec fn tok_is(ts: Seq<Token>, p: int, t: Token_Type) -> bool {
    0 <= p < ts.len() && ts[p].token_type == t
}

/// Whether the token at `p` is the keyword `word`.
pub open spec fn keyword_is(ts: Seq<Token>, p: int, word: Seq<char>) -> bool {
    tok_is(ts, p, Token_Type::KeyWord) && ts[p].text@ == word
}

/// Whether a rule's cursor moved forward within the tokens.
pub open spec fn moved(p: int, q: int, len: int) -> bool {
    p < q <= len
}

/// primary: intLiteral | identifier | '(' additive ')'
pub open spec fn spec_primary(ts: Seq<Token>, p: int) -> Parse_Result
    decreases ts.len() - p, 0int,
{
    if p < 0 || p >= ts.len() {
        Parse_Result::NoMatch
    } else if tok_is(ts, p, Token_Type::IntLiteral) {
        Parse_Result::Matched { node: leaf(AST_Node_Type::IntLiteral, ts[p].text@), pos: p + 1 }
    } else if tok_is(ts, p, Token_Type::Identifier) {
        Parse_Result::Matched { node: leaf(AST_Node_Type::Identifier, ts[p].text@), pos: p + 1 }
    } else if !tok_is(ts, p, Token_Type::LeftParen) {
        Parse_Result::NoMatch
    } else {
        match spec_additive(ts, p + 1) {
            Parse_Result::Failed => Parse_Result::Failed,
            Parse_Result::NoMatch => Parse_Result::NoMatch,
            Parse_Result::Matched { node, pos } => if tok_is(ts, pos, Token_Type::RightParen) {
                Parse_Result::Matched { node, pos: pos + 1 }
            } else {
                Parse_Result::NoMatch
            },
        }
    }
}

/// multiplicative: primary (('*' | '/') multiplicative)?
pub open spec fn spec_multiplicative(ts: Seq<Token>, p: int) -> Parse_Result
    decreases ts.len() - p, 1int,
{
    match spec_primary(ts, p) {
        Parse_Result::Failed => Parse_Result::Failed,
        Parse_Result::NoMatch => Parse_Result::NoMatch,
        Parse_Result::Matched { node, pos: q } => if !moved(p, q, ts.len() as int) {
            Parse_Result::Failed
        } else if tok_is(ts, q, Token_Type::Star) || tok_is(ts, q, Token_Type::Slash) {
            match spec_multiplicative(ts, q + 1) {
                Parse_Result::Matched { node: m, pos: r } => Parse_Result::Matched {
                    node: branch(AST_Node_Type::Multiplicative, ts[q].text@, node, m),
                    pos: r,
                },
                _ => Parse_Result::Failed,
            }
        } else {
            Parse_Result::Matched { node, pos: q }
        },
    }
}

/// The `(('+' | '-') multiplicative)*` tail of an additive expression whose
/// left operand is `left`, from `q` on.
pub open spec fn spec_additive_rest(ts: Seq<Token>, left: AstView, q: int) -> Parse_Result
    decreases ts.len() - q, 2int,
{
    if q < 0 || q > ts.len() {
        Parse_Result::Failed
    } else if tok_is(ts, q, Token_Type::Plus) || tok_is(ts, q, Token_Type::Minus) {
        match spec_multiplicative(ts, q + 1) {
            Parse_Result::Matched { node: m, pos: r } => if !moved(q, r, ts.len() as int) {
                Parse_Result::Failed
            } else {
                spec_additive_rest(ts, branch(AST_Node_Type::Additive, ts[q].text@, left, m), r)
            },
            _ => Parse_Result::Failed,
        }
    } else {
        Parse_Result::Matched { node: left, pos: q }
    }
}

/// additive: multiplicative (('+' | '-') multiplicative)*, grouped to the left
pub open spec fn spec_additive(ts: Seq<Token>, p: int) -> Parse_Result
    decreases ts.len() - p, 3int,
{
    match spec_multiplicative(ts, p) {
        Parse_Result::Failed => Parse_Result::Failed,
        Parse_Result::NoMatch => Parse_Result::NoMatch,
        Parse_Result::Matched { node, pos: q } => if !moved(p, q, ts.len() as int) {
            Parse_Result::Failed
        } else {
            spec_additive_rest(ts, node, q)
        },
    }
}

} // verus!

verus! {

/// What a grammar rule did.
pub enum Parsed {
    Node(AST_Node),
    NoMatch,
    Failed,
}

/// Whether a rule's outcome `r`, leaving the cursor at `pos`, is the one
/// `s` states for a start at `p` among `len` tokens; a match moves the cursor
/// forward (or, unless `strict`, keeps it), no match leaves it.
pub open spec fn parsed_as(r: Parsed, pos: int, s: Parse_Result, p: int, len: int, strict: bool) -> bool {
    match s {
        Parse_Result::Matched { node, pos: q } => r matches Parsed::Node(n) && ast_view(n) == node && pos == q
            && (if strict { p < q } else { p <= q }) && q <= len,
        Parse_Result::NoMatch => r is NoMatch && pos == p,
        Parse_Result::Failed => r is Failed,
    }
}

/// The token under the cursor has kind `t`.
fn at(tokens: &TokenList, t: Token_Type) -> (r: bool)
    requires
        tokens.wf(),
    ensures
        r == tok_is(tokens@.tokens, tokens@.position, t),
{
    match tokens.preRead() {
        Some(token) => token.get_type() == t,
        None => false,
    }
}

/// The token under the cursor is the keyword `word`.
fn at_keyword(tokens: &TokenList, word: &str) -> (r: bool)
    requires
        tokens.wf(),
    ensures
        r == keyword_is(tokens@.tokens, tokens@.position, word@),
{
    match tokens.preRead() {
        Some(token) => token.get_type() == Token_Type::KeyWord && crate::text::str_equal(token.get_text(), word),
        None => false,
    }
}

/// A leaf of kind `t` whose text is that of the token under the cursor,
/// which moves past it.
fn take_leaf(tokens: &mut TokenList, t: AST_Node_Type) -> (node: AST_Node)
    requires
        old(tokens).wf(),
        old(tokens)@.position < old(tokens)@.tokens.len(),
    ensures
        final(tokens).wf(),
        final(tokens)@.tokens == old(tokens)@.tokens,
        final(tokens)@.position == old(tokens)@.position + 1,
        ast_view(node) == leaf(t, old(tokens)@.tokens[old(tokens)@.position].text@),
{
    match tokens.next() {
        Some(token) => AST_Node::new(t, token.get_text()),
        None => AST_Node::new(t, ""),
    }
}

/// identifier: an identifier token
fn identifier(tokens: &mut TokenList) -> (r: Option<AST_Node>)
    requires
        old(tokens).wf(),
    ensures
        final(tokens).wf(),
        final(tokens)@.tokens == old(tokens)@.tokens,
        tok_is(old(tokens)@.tokens, old(tokens)@.position, Token_Type::Identifier) ==> (r matches Some(n)
            && ast_view(n) == leaf(AST_Node_Type::Identifier, old(tokens)@.tokens[old(tokens)@.position].text@)
            && final(tokens)@.position == old(tokens)@.position + 1),
        !tok_is(old(tokens)@.tokens, old(tokens)@.position, Token_Type::Identifier) ==> r is None
            && final(tokens)@ == old(tokens)@,
{
    if at(tokens, Token_Type::Identifier) {
        Some(take_leaf(tokens, AST_Node_Type::Identifier))
    } else {
        None
    }
}

/// intLiteral: an integer literal token
fn intLiteral(tokens: &mut TokenList) -> (r: Option<AST_Node>)
    requires
        old(tokens).wf(),
    ensures
        final(tokens).wf(),
        final(tokens)@.tokens == old(tokens)@.tokens,
        tok_is(old(tokens)@.tokens, old(tokens)@.position, Token_Type::IntLiteral) ==> (r matches Some(n)
            && ast_view(n) == leaf(AST_Node_Type::IntLiteral, old(tokens)@.tokens[old(tokens)@.position].text@)
            && final(tokens)@.position == old(tokens)@.position + 1),
        !tok_is(old(tokens)@.tokens, old(tokens)@.position, Token_Type::IntLiteral) ==> r is None
            && final(tokens)@ == old(tokens)@,
{
    if at(tokens, Token_Type::IntLiteral) {
        Some(take_leaf(tokens, AST_Node_Type::IntLiteral))
    } else {
        None
    }
}

/// stringLiteral: a string literal token
fn stringLiteral(tokens: &mut TokenList) -> (r: Option<AST_Node>)
    requires
        old(tokens).wf(),
    ensures
        final(tokens).wf(),
        final(tokens)@.tokens == old(tokens)@.tokens,
        tok_is(old(tokens)@.tokens, old(tokens)@.position, Token_Type::StringLiteral) ==> (r matches Some(n)
            && ast_view(n) == leaf(AST_Node_Type::StringLiteral, old(tokens)@.tokens[old(tokens)@.position].text@)
            && final(tokens)@.position == old(tokens)@.position + 1),
        !tok_is(old(tokens)@.tokens, old(tokens)@.position, Token_Type::StringLiteral) ==> r is None
            && final(tokens)@ == old(tokens)@,
{
    if at(tokens, Token_Type::StringLiteral) {
        Some(take_leaf(tokens, AST_Node_Type::StringLiteral))
    } else {
        None
    }
}

/// Moves the cursor past one token.
fn skip(tokens: &mut TokenList)
    requires
        old(tokens).wf(),
        old(tokens)@.position < old(tokens)@.tokens.len(),
    ensures
        final(tokens).wf(),
        final(tokens)@.tokens == old(tokens)@.tokens,
        final(tokens)@.position == old(tokens)@.position + 1,
{
    let _ = tokens.next();
}

/// primary (see `spec_primary`).
fn primary(tokens: &mut TokenList) -> (r: Parsed)
    requires
        old(tokens).wf(),
    ensures
        final(tokens).wf(),
        final(tokens)@.tokens == old(tokens)@.tokens,
        parsed_as(r, final(tokens)@.position, spec_primary(old(tokens)@.tokens, old(tokens)@.position),
            old(tokens)@.position, old(tokens)@.tokens.len() as int, true),
    decreases old(tokens)@.tokens.len() - old(tokens)@.position, 0int,
{
    let position = tokens.getPosition();
    match intLiteral(tokens) {
        Some(n) => {
            return Parsed::Node(n);
        },
        None => {},
    }
    match identifier(tokens) {
        Some(n) => {
            return Parsed::Node(n);
        },
        None => {},
    }
    if !at(tokens, Token_Type::LeftParen) {
        return Parsed::NoMatch;
    }
    skip(tokens);
    match additive(tokens) {
        Parsed::Failed => Parsed::Failed,
        Parsed::NoMatch => {
            tokens.setPosition(position);
            Parsed::NoMatch
        },
        Parsed::Node(n) => {
            if at(tokens, Token_Type::RightParen) {
                skip(tokens);
                Parsed::Node(n)
            } else {
                tokens.setPosition(position);
                Parsed::NoMatch
            }
        },
    }
}

/// multiplicative (see `spec_multiplicative`).
fn multiplicative(tokens: &mut TokenList) -> (r: Parsed)
    requires
        old(tokens).wf(),
    ensures
        final(tokens).wf(),
        final(tokens)@.tokens == old(tokens)@.tokens,
        parsed_as(r, final(tokens)@.position, spec_multiplicative(old(tokens)@.tokens, old(tokens)@.position),
            old(tokens)@.position, old(tokens)@.tokens.len() as int, true),
    decreases old(tokens)@.tokens.len() - old(tokens)@.position, 1int,
{
    let node = match primary(tokens) {
        Parsed::Failed => {
            return Parsed::Failed;
        },
        Parsed::NoMatch => {
            return Parsed::NoMatch;
        },
        Parsed::Node(n) => n,
    };
    let op = match tokens.preRead() {
        None => {
            return Parsed::Node(node);
        },
        Some(t) => t,
    };
    if op.get_type() != Token_Type::Star && op.get_type() != Token_Type::Slash {
        return Parsed::Node(node);
    }
    skip(tokens);
    let mut multi_node = AST_Node::new(AST_Node_Type::Multiplicative, op.get_text());
    multi_node.addChild(node);
    match multiplicative(tokens) {
        Parsed::Node(m) => {
            multi_node.addChild(m);
            Parsed::Node(multi_node)
        },
        _ => Parsed::Failed,
    }
}

/// The tail of an additive expression (see `spec_additive_rest`).
fn additive_rest(tokens: &mut TokenList, left: AST_Node) -> (r: Parsed)
    requires
        old(tokens).wf(),
    ensures
        final(tokens).wf(),
        final(tokens)@.tokens == old(tokens)@.tokens,
        parsed_as(r, final(tokens)@.position, spec_additive_rest(old(tokens)@.tokens, ast_view(left), old(tokens)@.position),
            old(tokens)@.position, old(tokens)@.tokens.len() as int, false),
    decreases old(tokens)@.tokens.len() - old(tokens)@.position, 2int,
{
    proof { lemma_additive_rest_matches_or_fails(tokens@.tokens, ast_view(left), tokens@.position); }
    let op = match tokens.preRead() {
        None => {
            return Parsed::Node(left);
        },
        Some(t) => t,
    };
    if op.get_type() != Token_Type::Plus && op.get_type() != Token_Type::Minus {
        return Parsed::Node(left);
    }
    skip(tokens);
    match multiplicative(tokens) {
        Parsed::Node(m) => {
            let mut plus_node = AST_Node::new(AST_Node_Type::Additive, op.get_text());
            plus_node.addChild(left);
            plus_node.addChild(m);
            additive_rest(tokens, plus_node)
        },
        _ => Parsed::Failed,
    }
}

/// additive (see `spec_additive`).
fn additive(tokens: &mut TokenList) -> (r: Parsed)
    requires
        old(tokens).wf(),
    ensures
        final(tokens).wf(),
        final(tokens)@.tokens == old(tokens)@.tokens,
        parsed_as(r, final(tokens)@.position, spec_additive(old(tokens)@.tokens, old(tokens)@.position),
            old(tokens)@.position, old(tokens)@.tokens.len() as int, true),
    decreases old(tokens)@.tokens.len() - old(tokens)@.position, 3int,
{
    match multiplicative(tokens) {
        Parsed::Failed => Parsed::Failed,
        Parsed::NoMatch => Parsed::NoMatch,
        Parsed::Node(n) => {
            proof { lemma_additive_rest_matches_or_fails(tokens@.tokens, ast_view(n), tokens@.position); }
            additive_rest(tokens, n)
        },
    }
}

} // verus!

verus! {

/// The tail of an additive expression always matches, possibly nothing.
proof fn lemma_additive_rest_matches_or_fails(ts: Seq<Token>, left: AstView, q: int)
    ensures
        !(spec_additive_rest(ts, left, q) is NoMatch),
    decreases ts.len() - q,
{
    if 0 <= q <= ts.len() && (tok_is(ts, q, Token_Type::Plus) || tok_is(ts, q, Token_Type::Minus)) {
        match spec_multiplicative(ts, q + 1) {
            Parse_Result::Matched { node: m, pos: r } => if moved(q, r, ts.len() as int) {
                lemma_additive_rest_matches_or_fails(
                    ts, branch(AST_Node_Type::Additive, ts[q].text@, left, m), r);
            },
            _ => {},
        }
    }
}

} // verus!

verus! {

/// Whether the token at `p` ends a statement: `;` or a line end.
pub open spec fn ends_statement(ts: Seq<Token>, p: int) -> bool {
    tok_is(ts, p, Token_Type::SemiColon) || tok_is(ts, p, Token_Type::Enter)
}

/// Whether the token at `p` compares: `==`, `!=`, `>`, `<`, `>=`, `<=`.
pub open spec fn is_comparison(ts: Seq<Token>, p: int) -> bool {
    ||| tok_is(ts, p, Token_Type::EQ)
    ||| tok_is(ts, p, Token_Type::NOTEQ)
    ||| tok_is(ts, p, Token_Type::GT)
    ||| tok_is(ts, p, Token_Type::GE)
    ||| tok_is(ts, p, Token_Type::LT)
    ||| tok_is(ts, p, Token_Type::LE)
}

/// expressionStatement: additive (';' | newline)
pub open spec fn spec_expression_stmt(ts: Seq<Token>, p: int) -> Parse_Result {
    match spec_additive(ts, p) {
        Parse_Result::Matched { node, pos: q } => if ends_statement(ts, q) {
            Parse_Result::Matched { node, pos: q + 1 }
        } else {
            Parse_Result::Failed
        },
        other => other,
    }
}

/// conditionExpression: additive bop additive, bop one of == != > < >= <=;
/// anything else where a condition is due is a syntax error.
pub open spec fn spec_condition_expression(ts: Seq<Token>, p: int) -> Parse_Result {
    match spec_additive(ts, p) {
        Parse_Result::Matched { node: e1, pos: q } => if !is_comparison(ts, q) {
            Parse_Result::Failed
        } else {
            match spec_additive(ts, q + 1) {
                Parse_Result::Matched { node: e2, pos: r } => Parse_Result::Matched {
                    node: branch(AST_Node_Type::ConditionExpression, ts[q].text@, e1, e2),
                    pos: r,
                },
                _ => Parse_Result::Failed,
            }
        },
        _ => Parse_Result::Failed,
    }
}

/// declaration: 'let' identifier ('=' expressionStatement | ';' | newline)
pub open spec fn spec_declaration(ts: Seq<Token>, p: int) -> Parse_Result {
    if !keyword_is(ts, p, "let"@) {
        Parse_Result::NoMatch
    } else if !tok_is(ts, p + 1, Token_Type::Identifier) {
        Parse_Result::Failed
    } else {
        let node = leaf(AST_Node_Type::Declaration, ts[p + 1].text@);
        if tok_is(ts, p + 2, Token_Type::Assignment) {
            match spec_expression_stmt(ts, p + 3) {
                Parse_Result::Matched { node: e, pos: r } => Parse_Result::Matched { node: with_child(node, e), pos: r },
                _ => Parse_Result::Failed,
            }
        } else if ends_statement(ts, p + 2) {
            Parse_Result::Matched { node, pos: p + 3 }
        } else {
            Parse_Result::Failed
        }
    }
}

/// The value part of an assignment: an optional additive expression, then
/// an optional string literal; `None` when a syntax error arises.
pub open spec fn spec_assigned_value(ts: Seq<Token>, node: AstView, p: int) -> Option<(AstView, int, bool)> {
    let first = match spec_additive(ts, p) {
        Parse_Result::Failed => None,
        Parse_Result::NoMatch => Some((node, p, false)),
        Parse_Result::Matched { node: a, pos: q } => Some((with_child(node, a), q, true)),
    };
    match first {
        None => None,
        Some((n, q, found)) => if tok_is(ts, q, Token_Type::StringLiteral) {
            Some((with_child(n, leaf(AST_Node_Type::StringLiteral, ts[q].text@)), q + 1, true))
        } else {
            Some((n, q, found))
        },
    }
}

/// assignmentStatement: identifier '=' additive? stringLiteral? (';' | newline)?,
/// where at least one value must be present; the end mark may be left out at
/// the end of the text.
pub open spec fn spec_assignment(ts: Seq<Token>, p: int) -> Parse_Result {
    if !tok_is(ts, p, Token_Type::Identifier) || !tok_is(ts, p + 1, Token_Type::Assignment) {
        Parse_Result::NoMatch
    } else {
        match spec_assigned_value(ts, leaf(AST_Node_Type::AssignmentStmt, ts[p].text@), p + 2) {
            None => Parse_Result::Failed,
            Some((n, q, found)) => if !found {
                Parse_Result::Failed
            } else if q >= ts.len() {
                Parse_Result::Matched { node: n, pos: q }
            } else if ends_statement(ts, q) {
                Parse_Result::Matched { node: n, pos: q + 1 }
            } else {
                Parse_Result::Failed
            },
        }
    }
}

/// conditionBlockStmt: 'if' conditionExpression statement ('else' statement)?
pub open spec fn spec_condition_block(ts: Seq<Token>, p: int) -> Parse_Result
    decreases ts.len() - p, 0int,
{
    if !keyword_is(ts, p, "if"@) {
        Parse_Result::NoMatch
    } else {
        match spec_condition_expression(ts, p + 1) {
            Parse_Result::Matched { node: c, pos: q } => if !moved(p, q, ts.len() as int) {
                Parse_Result::Failed
            } else {
                match spec_statement(ts, q) {
                    Parse_Result::Matched { node: s1, pos: r } => if !moved(q, r, ts.len() as int) {
                        Parse_Result::Failed
                    } else {
                        let node = with_child(with_child(leaf(AST_Node_Type::ConditionBlockStmt, "if"@), c), s1);
                        if keyword_is(ts, r, "else"@) {
                            match spec_statement(ts, r + 1) {
                                Parse_Result::Matched { node: s2, pos: u } => Parse_Result::Matched {
                                    node: with_child(node, s2),
                                    pos: u,
                                },
                                _ => Parse_Result::Failed,
                            }
                        } else {
                            Parse_Result::Matched { node, pos: r }
                        }
                    },
                    _ => Parse_Result::Failed,
                }
            },
            _ => Parse_Result::Failed,
        }
    }
}

/// statement: conditionBlockStmt | declaration | assignmentStatement | expressionStatement
pub open spec fn spec_statement(ts: Seq<Token>, p: int) -> Parse_Result
    decreases ts.len() - p, 1int,
{
    if p < 0 || p >= ts.len() {
        Parse_Result::NoMatch
    } else {
        match spec_condition_block(ts, p) {
            Parse_Result::NoMatch => match spec_declaration(ts, p) {
                Parse_Result::NoMatch => match spec_assignment(ts, p) {
                    Parse_Result::NoMatch => spec_expression_stmt(ts, p),
                    other => other,
                },
                other => other,
            },
            other => other,
        }
    }
}

} // verus!

verus! {

fn is_comparison_type(t: Token_Type) -> (r: bool)
    ensures
        r == (t == Token_Type::EQ || t == Token_Type::NOTEQ || t == Token_Type::GT || t == Token_Type::GE
            || t == Token_Type::LT || t == Token_Type::LE),
{
    t == Token_Type::EQ || t == Token_Type::NOTEQ || t == Token_Type::GT || t == Token_Type::GE
        || t == Token_Type::LT || t == Token_Type::LE
}

fn is_statement_end(t: Token_Type) -> (r: bool)
    ensures
        r == (t == Token_Type::SemiColon || t == Token_Type::Enter),
{
    t == Token_Type::SemiColon || t == Token_Type::Enter
}

/// expressionStatement (see `spec_expression_stmt`).
fn expressionStmt(tokens: &mut TokenList) -> (r: Parsed)
    requires
        old(tokens).wf(),
    ensures
        final(tokens).wf(),
        final(tokens)@.tokens == old(tokens)@.tokens,
        parsed_as(r, final(tokens)@.position, spec_expression_stmt(old(tokens)@.tokens, old(tokens)@.position),
            old(tokens)@.position, old(tokens)@.tokens.len() as int, true),
{
    let node = match additive(tokens) {
        Parsed::Failed => {
            return Parsed::Failed;
        },
        Parsed::NoMatch => {
            return Parsed::NoMatch;
        },
        Parsed::Node(n) => n,
    };
    match tokens.next() {
        None => Parsed::Failed,
        Some(t) => if is_statement_end(t.get_type()) {
            Parsed::Node(node)
        } else {
            Parsed::Failed
        },
    }
}

/// conditionExpression (see `spec_condition_expression`).
fn conditionExpression(tokens: &mut TokenList) -> (r: Parsed)
    requires
        old(tokens).wf(),
    ensures
        final(tokens).wf(),
        final(tokens)@.tokens == old(tokens)@.tokens,
        parsed_as(r, final(tokens)@.position, spec_condition_expression(old(tokens)@.tokens, old(tokens)@.position),
            old(tokens)@.position, old(tokens)@.tokens.len() as int, true),
{
    let e1 = match additive(tokens) {
        Parsed::Node(n) => n,
        _ => {
            return Parsed::Failed;
        },
    };
    let op = match tokens.next() {
        None => {
            return Parsed::Failed;
        },
        Some(t) => t,
    };
    if !is_comparison_type(op.get_type()) {
        return Parsed::Failed;
    }
    let e2 = match additive(tokens) {
        Parsed::Node(n) => n,
        _ => {
            return Parsed::Failed;
        },
    };
    let mut node = AST_Node::new(AST_Node_Type::ConditionExpression, op.get_text());
    node.addChild(e1);
    node.addChild(e2);
    Parsed::Node(node)
}

/// declaration (see `spec_declaration`).
fn declaration(tokens: &mut TokenList) -> (r: Parsed)
    requires
        old(tokens).wf(),
    ensures
        final(tokens).wf(),
        final(tokens)@.tokens == old(tokens)@.tokens,
        parsed_as(r, final(tokens)@.position, spec_declaration(old(tokens)@.tokens, old(tokens)@.position),
            old(tokens)@.position, old(tokens)@.tokens.len() as int, true),
{
    if !at_keyword(tokens, "let") {
        return Parsed::NoMatch;
    }
    skip(tokens);
    let mut node = match identifier(tokens) {
        None => {
            return Parsed::Failed;
        },
        Some(n) => n,
    };
    node.retype(AST_Node_Type::Declaration);
    let t = match tokens.next() {
        None => {
            return Parsed::Failed;
        },
        Some(t) => t,
    };
    if t.get_type() != Token_Type::Assignment {
        if is_statement_end(t.get_type()) {
            return Parsed::Node(node);
        } else {
            return Parsed::Failed;
        }
    }
    match expressionStmt(tokens) {
        Parsed::Node(e) => {
            node.addChild(e);
            Parsed::Node(node)
        },
        _ => Parsed::Failed,
    }
}

/// assignmentStatement (see `spec_assignment`).
fn assignment(tokens: &mut TokenList) -> (r: Parsed)
    requires
        old(tokens).wf(),
    ensures
        final(tokens).wf(),
        final(tokens)@.tokens == old(tokens)@.tokens,
        parsed_as(r, final(tokens)@.position, spec_assignment(old(tokens)@.tokens, old(tokens)@.position),
            old(tokens)@.position, old(tokens)@.tokens.len() as int, true),
{
    let position = tokens.getPosition();
    let name = match tokens.preRead() {
        None => {
            return Parsed::NoMatch;
        },
        Some(t) => t,
    };
    if name.get_type() != Token_Type::Identifier {
        return Parsed::NoMatch;
    }
    skip(tokens);
    if !at(tokens, Token_Type::Assignment) {
        tokens.setPosition(position);
        return Parsed::NoMatch;
    }
    skip(tokens);
    let mut node = AST_Node::new(AST_Node_Type::AssignmentStmt, name.get_text());
    let mut found = false;
    match additive(tokens) {
        Parsed::Failed => {
            return Parsed::Failed;
        },
        Parsed::NoMatch => {},
        Parsed::Node(a) => {
            node.addChild(a);
            found = true;
        },
    }
    match stringLiteral(tokens) {
        Some(s) => {
            node.addChild(s);
            found = true;
        },
        None => {},
    }
    if !found {
        return Parsed::Failed;
    }
    match tokens.next() {
        None => Parsed::Node(node),
        Some(t) => if is_statement_end(t.get_type()) {
            Parsed::Node(node)
        } else {
            Parsed::Failed
        },
    }
}

/// conditionBlockStmt (see `spec_condition_block`).
fn condtionBlockStmt(tokens: &mut TokenList) -> (r: Parsed)
    requires
        old(tokens).wf(),
    ensures
        final(tokens).wf(),
        final(tokens)@.tokens == old(tokens)@.tokens,
        parsed_as(r, final(tokens)@.position, spec_condition_block(old(tokens)@.tokens, old(tokens)@.position),
            old(tokens)@.position, old(tokens)@.tokens.len() as int, true),
    decreases old(tokens)@.tokens.len() - old(tokens)@.position, 0int,
{
    if !at_keyword(tokens, "if") {
        return Parsed::NoMatch;
    }
    skip(tokens);
    let c = match conditionExpression(tokens) {
        Parsed::Node(n) => n,
        _ => {
            return Parsed::Failed;
        },
    };
    let s1 = match statement(tokens) {
        Parsed::Node(n) => n,
        _ => {
            return Parsed::Failed;
        },
    };
    let mut node = AST_Node::new(AST_Node_Type::ConditionBlockStmt, "if");
    node.addChild(c);
    node.addChild(s1);
    if at_keyword(tokens, "else") {
        skip(tokens);
        match statement(tokens) {
            Parsed::Node(s2) => {
                node.addChild(s2);
                Parsed::Node(node)
            },
            _ => Parsed::Failed,
        }
    } else {
        Parsed::Node(node)
    }
}

/// statement (see `spec_statement`).
fn statement(tokens: &mut TokenList) -> (r: Parsed)
    requires
        old(tokens).wf(),
    ensures
        final(tokens).wf(),
        final(tokens)@.tokens == old(tokens)@.tokens,
        parsed_as(r, final(tokens)@.position, spec_statement(old(tokens)@.tokens, old(tokens)@.position),
            old(tokens)@.position, old(tokens)@.tokens.len() as int, true),
    decreases old(tokens)@.tokens.len() - old(tokens)@.position, 1int,
{
    if tokens.preRead().is_none() {
        return Parsed::NoMatch;
    }
    match condtionBlockStmt(tokens) {
        Parsed::NoMatch => {},
        other => {
            return other;
        },
    }
    match declaration(tokens) {
        Parsed::NoMatch => {},
        other => {
            return other;
        },
    }
    match assignment(tokens) {
        Parsed::NoMatch => {},
        other => {
            return other;
        },
    }
    expressionStmt(tokens)
}

} // verus!

verus! {

/// The name of a type token: i32, i64, f32, f64, bool or string.
pub open spec fn spec_type_word(t: Token_Type) -> Option<Seq<char>> {
    match t {
        Token_Type::i32 => Some("i32"@),
        Token_Type::i64 => Some("i64"@),
        Token_Type::F32 => Some("f32"@),
        Token_Type::F64 => Some("f64"@),
        Token_Type::bool => Some("bool"@),
        Token_Type::string => Some("string"@),
        _ => None,
    }
}

/// typeType: i32 | i64 | f32 | f64 | bool | string; a type is due, so the
/// end of the text is a syntax error.
pub open spec fn spec_type_type(ts: Seq<Token>, p: int) -> Parse_Result {
    if p < 0 || p >= ts.len() {
        Parse_Result::Failed
    } else {
        match spec_type_word(ts[p].token_type) {
            Some(name) => Parse_Result::Matched { node: leaf(AST_Node_Type::TypeType, name), pos: p + 1 },
            None => Parse_Result::NoMatch,
        }
    }
}

/// parameterDefine: identifier typeType; the identifier's node, with the
/// type as its child.
pub open spec fn spec_parameter_define(ts: Seq<Token>, p: int) -> Parse_Result {
    if !tok_is(ts, p, Token_Type::Identifier) {
        Parse_Result::NoMatch
    } else {
        match spec_type_type(ts, p + 1) {
            Parse_Result::Matched { node: t, pos: q } => Parse_Result::Matched {
                node: with_child(leaf(AST_Node_Type::Identifier, ts[p].text@), t),
                pos: q,
            },
            _ => Parse_Result::Failed,
        }
    }
}

/// The parameters from `p` on, appended to `node`: parameters separated by
/// commas. Where no parameter starts at `p` the list ends there, unless a
/// comma came before (`after_comma`): a parameter is then due.
pub open spec fn spec_parameters(ts: Seq<Token>, node: AstView, p: int, after_comma: bool) -> Parse_Result
    decreases ts.len() - p,
{
    match spec_parameter_define(ts, p) {
        Parse_Result::Matched { node: d, pos: q } => if !moved(p, q, ts.len() as int) {
            Parse_Result::Failed
        } else if tok_is(ts, q, Token_Type::Comma) {
            spec_parameters(ts, with_child(node, d), q + 1, true)
        } else {
            Parse_Result::Matched { node: with_child(node, d), pos: q }
        },
        Parse_Result::NoMatch => if after_comma {
            Parse_Result::Failed
        } else {
            Parse_Result::Matched { node, pos: p }
        },
        Parse_Result::Failed => Parse_Result::Failed,
    }
}

/// formalParameters: '(' (parameterDefine (',' parameterDefine)*)? ')'
pub open spec fn spec_formal_parameters(ts: Seq<Token>, p: int) -> Parse_Result {
    if p < 0 || p >= ts.len() {
        Parse_Result::Failed
    } else if !tok_is(ts, p, Token_Type::LeftParen) {
        Parse_Result::NoMatch
    } else {
        match spec_parameters(ts, leaf(AST_Node_Type::FormalParameters, "()"@), p + 1, false) {
            Parse_Result::Matched { node, pos: q } => if tok_is(ts, q, Token_Type::RightParen) {
                Parse_Result::Matched { node, pos: q + 1 }
            } else {
                Parse_Result::NoMatch
            },
            _ => Parse_Result::Failed,
        }
    }
}

/// functionReturn: '->' typeType; the type's node, of kind FunctionReturn.
pub open spec fn spec_function_return(ts: Seq<Token>, p: int) -> Parse_Result {
    if !tok_is(ts, p, Token_Type::FuncationReturn) {
        Parse_Result::NoMatch
    } else {
        match spec_type_type(ts, p + 1) {
            Parse_Result::Matched { node, pos: q } => Parse_Result::Matched {
                node: retyped(node, AST_Node_Type::FunctionReturn),
                pos: q,
            },
            _ => Parse_Result::Failed,
        }
    }
}

/// The statements from `p` on, appended to `node`, up to the first token
/// that starts none.
pub open spec fn spec_statements(ts: Seq<Token>, node: AstView, p: int) -> Parse_Result
    decreases ts.len() - p,
{
    match spec_statement(ts, p) {
        Parse_Result::Matched { node: s, pos: q } => if !moved(p, q, ts.len() as int) {
            Parse_Result::Failed
        } else {
            spec_statements(ts, with_child(node, s), q)
        },
        Parse_Result::NoMatch => Parse_Result::Matched { node, pos: p },
        Parse_Result::Failed => Parse_Result::Failed,
    }
}

/// statementBlock: '{' statement* '}'
pub open spec fn spec_statement_block(ts: Seq<Token>, p: int) -> Parse_Result {
    if !tok_is(ts, p, Token_Type::LeftBrace) {
        Parse_Result::NoMatch
    } else {
        match spec_statements(ts, leaf(AST_Node_Type::StatementBlock, "block"@), p + 1) {
            Parse_Result::Matched { node, pos: q } => if tok_is(ts, q, Token_Type::RightBrace) {
                Parse_Result::Matched { node, pos: q + 1 }
            } else {
                Parse_Result::Failed
            },
            _ => Parse_Result::Failed,
        }
    }
}

/// functionBody: statementBlock; the block's node, of kind FunctionBody.
pub open spec fn spec_function_body(ts: Seq<Token>, p: int) -> Parse_Result {
    match spec_statement_block(ts, p) {
        Parse_Result::Matched { node, pos: q } => Parse_Result::Matched {
            node: retyped(node, AST_Node_Type::FunctionBody),
            pos: q,
        },
        other => other,
    }
}

/// The rest of a function from its return type on: `node` holds its name
/// and parameters.
pub open spec fn spec_function_tail(ts: Seq<Token>, node: AstView, p: int) -> Parse_Result {
    let (n, q) = match spec_function_return(ts, p) {
        Parse_Result::Matched { node: r, pos: q } => (Some(with_child(node, r)), q),
        Parse_Result::NoMatch => (Some(node), p),
        Parse_Result::Failed => (None, p),
    };
    match n {
        None => Parse_Result::Failed,
        Some(n) => match spec_function_body(ts, q) {
            Parse_Result::Matched { node: b, pos: r } => Parse_Result::Matched { node: with_child(n, b), pos: r },
            _ => Parse_Result::Failed,
        },
    }
}

/// functionDeclaration: 'fn' identifier formalParameters functionReturn? functionBody
pub open spec fn spec_function(ts: Seq<Token>, p: int) -> Parse_Result {
    if !tok_is(ts, p, Token_Type::Function) {
        Parse_Result::NoMatch
    } else if !tok_is(ts, p + 1, Token_Type::Identifier) {
        Parse_Result::Failed
    } else {
        match spec_formal_parameters(ts, p + 2) {
            Parse_Result::Matched { node: f, pos: q } => spec_function_tail(
                ts,
                with_child(leaf(AST_Node_Type::Function, ts[p + 1].text@), f),
                q,
            ),
            _ => Parse_Result::Failed,
        }
    }
}

/// The functions and statements from `p` on, appended to `node`, up to the
/// first token that starts neither.
pub open spec fn spec_program_from(ts: Seq<Token>, node: AstView, p: int) -> Parse_Result
    decreases ts.len() - p,
{
    let next = match spec_function(ts, p) {
        Parse_Result::NoMatch => spec_statement(ts, p),
        other => other,
    };
    match next {
        Parse_Result::Matched { node: c, pos: q } => if !moved(p, q, ts.len() as int) {
            Parse_Result::Failed
        } else {
            spec_program_from(ts, with_child(node, c), q)
        },
        Parse_Result::NoMatch => Parse_Result::Matched { node, pos: p },
        Parse_Result::Failed => Parse_Result::Failed,
    }
}

/// programm: (function | statement)*, under a root node.
pub open spec fn spec_program(ts: Seq<Token>, p: int) -> Parse_Result {
    spec_program_from(ts, leaf(AST_Node_Type::Programm, "conse_ast_root"@), p)
}

} // verus!

verus! {

/// Whether `r`, with the cursor left at `pos`, is what a rule that can
/// raise no syntax error gives for the outcome `s` from `p`: the tree and
/// the cursor after it, or nothing and the cursor where it was.
pub open spec fn found_as(r: Option<AST_Node>, pos: int, s: Parse_Result, p: int) -> bool {
    match s {
        Parse_Result::Matched { node, pos: q } => r matches Some(n) && ast_view(n) == node && pos == q,
        Parse_Result::NoMatch => r is None && pos == p,
        Parse_Result::Failed => false,
    }
}

/// The node of a rule's outcome that is not a syntax error.
fn found(r: Parsed) -> (o: Option<AST_Node>)
    requires
        !(r is Failed),
    ensures
        r is NoMatch ==> o is None,
        r matches Parsed::Node(n) ==> o == Some(n),
{
    match r {
        Parsed::Node(n) => Some(n),
        _ => None,
    }
}

/// typeType (see `spec_type_type`).
fn type_rule(tokens: &mut TokenList) -> (r: Parsed)
    requires
        old(tokens).wf(),
    ensures
        final(tokens).wf(),
        final(tokens)@.tokens == old(tokens)@.tokens,
        parsed_as(r, final(tokens)@.position, spec_type_type(old(tokens)@.tokens, old(tokens)@.position),
            old(tokens)@.position, old(tokens)@.tokens.len() as int, true),
{
    let t = match tokens.preRead() {
        None => {
            return Parsed::Failed;
        },
        Some(t) => t,
    };
    let name: &str = match t.get_type() {
        Token_Type::i32 => "i32",
        Token_Type::i64 => "i64",
        Token_Type::F32 => "f32",
        Token_Type::F64 => "f64",
        Token_Type::bool => "bool",
        Token_Type::string => "string",
        _ => {
            return Parsed::NoMatch;
        },
    };
    skip(tokens);
    Parsed::Node(AST_Node::new(AST_Node_Type::TypeType, name))
}

/// parameterDefine (see `spec_parameter_define`).
fn parameter_rule(tokens: &mut TokenList) -> (r: Parsed)
    requires
        old(tokens).wf(),
    ensures
        final(tokens).wf(),
        final(tokens)@.tokens == old(tokens)@.tokens,
        parsed_as(r, final(tokens)@.position, spec_parameter_define(old(tokens)@.tokens, old(tokens)@.position),
            old(tokens)@.position, old(tokens)@.tokens.len() as int, true),
{
    if !at(tokens, Token_Type::Identifier) {
        return Parsed::NoMatch;
    }
    let mut node = take_leaf(tokens, AST_Node_Type::Identifier);
    match type_rule(tokens) {
        Parsed::Node(t) => {
            node.addChild(t);
            Parsed::Node(node)
        },
        _ => Parsed::Failed,
    }
}

/// The parameters after `node` (see `spec_parameters`).
fn parameters_from(tokens: &mut TokenList, node: AST_Node, after_comma: bool) -> (r: Parsed)
    requires
        old(tokens).wf(),
    ensures
        final(tokens).wf(),
        final(tokens)@.tokens == old(tokens)@.tokens,
        parsed_as(r, final(tokens)@.position,
            spec_parameters(old(tokens)@.tokens, ast_view(node), old(tokens)@.position, after_comma),
            old(tokens)@.position, old(tokens)@.tokens.len() as int, false),
    decreases old(tokens)@.tokens.len() - old(tokens)@.position,
{
    proof { lemma_parameters_not_nomatch(tokens@.tokens, ast_view(node), tokens@.position, after_comma); }
    match parameter_rule(tokens) {
        Parsed::Node(d) => {
            let mut node = node;
            node.addChild(d);
            if at(tokens, Token_Type::Comma) {
                skip(tokens);
                parameters_from(tokens, node, true)
            } else {
                Parsed::Node(node)
            }
        },
        Parsed::NoMatch => if after_comma {
            Parsed::Failed
        } else {
            Parsed::Node(node)
        },
        Parsed::Failed => Parsed::Failed,
    }
}

/// formalParameters (see `spec_formal_parameters`).
fn formal_parameters_rule(tokens: &mut TokenList) -> (r: Parsed)
    requires
        old(tokens).wf(),
    ensures
        final(tokens).wf(),
        final(tokens)@.tokens == old(tokens)@.tokens,
        parsed_as(r, final(tokens)@.position, spec_formal_parameters(old(tokens)@.tokens, old(tokens)@.position),
            old(tokens)@.position, old(tokens)@.tokens.len() as int, true),
{
    let position = tokens.getPosition();
    let t = match tokens.preRead() {
        None => {
            return Parsed::Failed;
        },
        Some(t) => t,
    };
    if t.get_type() != Token_Type::LeftParen {
        return Parsed::NoMatch;
    }
    skip(tokens);
    match parameters_from(tokens, AST_Node::new(AST_Node_Type::FormalParameters, "()"), false) {
        Parsed::Node(n) => if at(tokens, Token_Type::RightParen) {
            skip(tokens);
            Parsed::Node(n)
        } else {
            tokens.setPosition(position);
            Parsed::NoMatch
        },
        _ => Parsed::Failed,
    }
}

/// functionReturn (see `spec_function_return`).
fn function_return_rule(tokens: &mut TokenList) -> (r: Parsed)
    requires
        old(tokens).wf(),
    ensures
        final(tokens).wf(),
        final(tokens)@.tokens == old(tokens)@.tokens,
        parsed_as(r, final(tokens)@.position, spec_function_return(old(tokens)@.tokens, old(tokens)@.position),
            old(tokens)@.position, old(tokens)@.tokens.len() as int, true),
{
    if !at(tokens, Token_Type::FuncationReturn) {
        return Parsed::NoMatch;
    }
    skip(tokens);
    match type_rule(tokens) {
        Parsed::Node(t) => {
            let mut t = t;
            t.retype(AST_Node_Type::FunctionReturn);
            Parsed::Node(t)
        },
        _ => Parsed::Failed,
    }
}

/// The statements after `node` (see `spec_statements`).
fn statements_from(tokens: &mut TokenList, node: AST_Node) -> (r: Parsed)
    requires
        old(tokens).wf(),
    ensures
        final(tokens).wf(),
        final(tokens)@.tokens == old(tokens)@.tokens,
        parsed_as(r, final(tokens)@.position, spec_statements(old(tokens)@.tokens, ast_view(node), old(tokens)@.position),
            old(tokens)@.position, old(tokens)@.tokens.len() as int, false),
    decreases old(tokens)@.tokens.len() - old(tokens)@.position,
{
    proof { lemma_statements_not_nomatch(tokens@.tokens, ast_view(node), tokens@.position); }
    match statement(tokens) {
        Parsed::Node(s) => {
            let mut node = node;
            node.addChild(s);
            statements_from(tokens, node)
        },
        Parsed::NoMatch => Parsed::Node(node),
        Parsed::Failed => Parsed::Failed,
    }
}

/// statementBlock (see `spec_statement_block`).
fn statement_block_rule(tokens: &mut TokenList) -> (r: Parsed)
    requires
        old(tokens).wf(),
    ensures
        final(tokens).wf(),
        final(tokens)@.tokens == old(tokens)@.tokens,
        parsed_as(r, final(tokens)@.position, spec_statement_block(old(tokens)@.tokens, old(tokens)@.position),
            old(tokens)@.position, old(tokens)@.tokens.len() as int, true),
{
    if !at(tokens, Token_Type::LeftBrace) {
        return Parsed::NoMatch;
    }
    skip(tokens);
    match statements_from(tokens, AST_Node::new(AST_Node_Type::StatementBlock, "block")) {
        Parsed::Node(n) => if at(tokens, Token_Type::RightBrace) {
            skip(tokens);
            Parsed::Node(n)
        } else {
            Parsed::Failed
        },
        _ => Parsed::Failed,
    }
}

/// functionBody (see `spec_function_body`).
fn function_body_rule(tokens: &mut TokenList) -> (r: Parsed)
    requires
        old(tokens).wf(),
    ensures
        final(tokens).wf(),
        final(tokens)@.tokens == old(tokens)@.tokens,
        parsed_as(r, final(tokens)@.position, spec_function_body(old(tokens)@.tokens, old(tokens)@.position),
            old(tokens)@.position, old(tokens)@.tokens.len() as int, true),
{
    match statement_block_rule(tokens) {
        Parsed::Node(b) => {
            let mut b = b;
            b.retype(AST_Node_Type::FunctionBody);
            Parsed::Node(b)
        },
        other => other,
    }
}

/// functionDeclaration (see `spec_function`).
fn function_rule(tokens: &mut TokenList) -> (r: Parsed)
    requires
        old(tokens).wf(),
    ensures
        final(tokens).wf(),
        final(tokens)@.tokens == old(tokens)@.tokens,
        parsed_as(r, final(tokens)@.position, spec_function(old(tokens)@.tokens, old(tokens)@.position),
            old(tokens)@.position, old(tokens)@.tokens.len() as int, true),
{
    if !at(tokens, Token_Type::Function) {
        return Parsed::NoMatch;
    }
    skip(tokens);
    let name = match identifier(tokens) {
        None => {
            return Parsed::Failed;
        },
        Some(n) => n,
    };
    let mut node = AST_Node::new(AST_Node_Type::Function, name.get_value());
    match formal_parameters_rule(tokens) {
        Parsed::Node(f) => node.addChild(f),
        _ => {
            return Parsed::Failed;
        },
    }
    match function_return_rule(tokens) {
        Parsed::Node(t) => node.addChild(t),
        Parsed::NoMatch => {},
        Parsed::Failed => {
            return Parsed::Failed;
        },
    }
    match function_body_rule(tokens) {
        Parsed::Node(b) => {
            node.addChild(b);
            Parsed::Node(node)
        },
        _ => Parsed::Failed,
    }
}

/// The functions and statements after `node` (see `spec_program_from`).
fn program_from(tokens: &mut TokenList, node: AST_Node) -> (r: Parsed)
    requires
        old(tokens).wf(),
    ensures
        final(tokens).wf(),
        final(tokens)@.tokens == old(tokens)@.tokens,
        parsed_as(r, final(tokens)@.position, spec_program_from(old(tokens)@.tokens, ast_view(node), old(tokens)@.position),
            old(tokens)@.position, old(tokens)@.tokens.len() as int, false),
    decreases old(tokens)@.tokens.len() - old(tokens)@.position,
{
    proof { lemma_program_not_nomatch(tokens@.tokens, ast_view(node), tokens@.position); }
    let next = match function_rule(tokens) {
        Parsed::NoMatch => statement(tokens),
        other => other,
    };
    match next {
        Parsed::Node(c) => {
            let mut node = node;
            node.addChild(c);
            program_from(tokens, node)
        },
        Parsed::NoMatch => Parsed::Node(node),
        Parsed::Failed => Parsed::Failed,
    }
}

} // verus!

verus! {

/// A run of parameters never fails to match: it may be empty.
proof fn lemma_parameters_not_nomatch(ts: Seq<Token>, node: AstView, p: int, after_comma: bool)
    ensures
        !(spec_parameters(ts, node, p, after_comma) is NoMatch),
    decreases ts.len() - p,
{
    match spec_parameter_define(ts, p) {
        Parse_Result::Matched { node: d, pos: q } => if moved(p, q, ts.len() as int) && tok_is(ts, q, Token_Type::Comma) {
            lemma_parameters_not_nomatch(ts, with_child(node, d), q + 1, true);
        },
        _ => {},
    }
}

/// A run of statements never fails to match: it may be empty.
proof fn lemma_statements_not_nomatch(ts: Seq<Token>, node: AstView, p: int)
    ensures
        !(spec_statements(ts, node, p) is NoMatch),
    decreases ts.len() - p,
{
    match spec_statement(ts, p) {
        Parse_Result::Matched { node: s, pos: q } => if moved(p, q, ts.len() as int) {
            lemma_statements_not_nomatch(ts, with_child(node, s), q);
        },
        _ => {},
    }
}

/// A program never fails to match: it may be empty.
proof fn lemma_program_not_nomatch(ts: Seq<Token>, node: AstView, p: int)
    ensures
        !(spec_program_from(ts, node, p) is NoMatch),
    decreases ts.len() - p,
{
    let next = match spec_function(ts, p) {
        Parse_Result::NoMatch => spec_statement(ts, p),
        other => other,
    };
    match next {
        Parse_Result::Matched { node: c, pos: q } => if moved(p, q, ts.len() as int) {
            lemma_program_not_nomatch(ts, with_child(node, c), q);
        },
        _ => {},
    }
}

} // verus!

verus! {

/// Parses a whole program from the cursor on: its functions and statements
/// under a root node, up to the first token that starts neither; `Failed`
/// where the text is a syntax error.
pub fn parse_program(tokens: &mut TokenList) -> (r: Parsed)
    requires
        old(tokens).wf(),
    ensures
        final(tokens).wf(),
        final(tokens)@.tokens == old(tokens)@.tokens,
        parsed_as(r, final(tokens)@.position, spec_program(old(tokens)@.tokens, old(tokens)@.position),
            old(tokens)@.position, old(tokens)@.tokens.len() as int, false),
        !(r is NoMatch),
{
    proof {
        lemma_program_not_nomatch(
            tokens@.tokens, leaf(AST_Node_Type::Programm, "conse_ast_root"@), tokens@.position);
    }
    program_from(tokens, AST_Node::new(AST_Node_Type::Programm, "conse_ast_root"))
}

/// programm: (function | statement)*; the root of the program's tree.
pub fn syntaxParse(tokens: &mut TokenList) -> (r: Option<AST_Node>)
    requires
        old(tokens).wf(),
        !(spec_program(old(tokens)@.tokens, old(tokens)@.position) is Failed),
    ensures
        final(tokens).wf(),
        final(tokens)@.tokens == old(tokens)@.tokens,
        found_as(r, final(tokens)@.position, spec_program(old(tokens)@.tokens, old(tokens)@.position),
            old(tokens)@.position),
        r is Some,
{
    found(parse_program(tokens))
}

/// functionDeclaration: 'fn' identifier formalParameters functionReturn? functionBody
pub fn funtions(tokens: &mut TokenList) -> (r: Option<AST_Node>)
    requires
        old(tokens).wf(),
        !(spec_function(old(tokens)@.tokens, old(tokens)@.position) is Failed),
    ensures
        final(tokens).wf(),
        final(tokens)@.tokens == old(tokens)@.tokens,
        found_as(r, final(tokens)@.position, spec_function(old(tokens)@.tokens, old(tokens)@.position),
            old(tokens)@.position),
{
    found(function_rule(tokens))
}

/// formalParameters: '(' (parameterDefine (',' parameterDefine)*)? ')'
pub fn formalParameters(tokens: &mut TokenList) -> (r: Option<AST_Node>)
    requires
        old(tokens).wf(),
        !(spec_formal_parameters(old(tokens)@.tokens, old(tokens)@.position) is Failed),
    ensures
        final(tokens).wf(),
        final(tokens)@.tokens == old(tokens)@.tokens,
        found_as(r, final(tokens)@.position, spec_formal_parameters(old(tokens)@.tokens, old(tokens)@.position),
            old(tokens)@.position),
{
    found(formal_parameters_rule(tokens))
}

/// parameterDefine: identifier typeType
pub fn parameterDefine(tokens: &mut TokenList) -> (r: Option<AST_Node>)
    requires
        old(tokens).wf(),
        !(spec_parameter_define(old(tokens)@.tokens, old(tokens)@.position) is Failed),
    ensures
        final(tokens).wf(),
        final(tokens)@.tokens == old(tokens)@.tokens,
        found_as(r, final(tokens)@.position, spec_parameter_define(old(tokens)@.tokens, old(tokens)@.position),
            old(tokens)@.position),
{
    found(parameter_rule(tokens))
}

/// functionReturn: '->' typeType
pub fn functionReturn(tokens: &mut TokenList) -> (r: Option<AST_Node>)
    requires
        old(tokens).wf(),
        !(spec_function_return(old(tokens)@.tokens, old(tokens)@.position) is Failed),
    ensures
        final(tokens).wf(),
        final(tokens)@.tokens == old(tokens)@.tokens,
        found_as(r, final(tokens)@.position, spec_function_return(old(tokens)@.tokens, old(tokens)@.position),
            old(tokens)@.position),
{
    found(function_return_rule(tokens))
}

/// functionBody: statementBlock
pub fn functionBody(tokens: &mut TokenList) -> (r: Option<AST_Node>)
    requires
        old(tokens).wf(),
        !(spec_function_body(old(tokens)@.tokens, old(tokens)@.position) is Failed),
    ensures
        final(tokens).wf(),
        final(tokens)@.tokens == old(tokens)@.tokens,
        found_as(r, final(tokens)@.position, spec_function_body(old(tokens)@.tokens, old(tokens)@.position),
            old(tokens)@.position),
{
    found(function_body_rule(tokens))
}

/// statementBlock: '{' statement* '}'
pub fn statementBlock(tokens: &mut TokenList) -> (r: Option<AST_Node>)
    requires
        old(tokens).wf(),
        !(spec_statement_block(old(tokens)@.tokens, old(tokens)@.position) is Failed),
    ensures
        final(tokens).wf(),
        final(tokens)@.tokens == old(tokens)@.tokens,
        found_as(r, final(tokens)@.position, spec_statement_block(old(tokens)@.tokens, old(tokens)@.position),
            old(tokens)@.position),
{
    found(statement_block_rule(tokens))
}

/// typeType: i32 | i64 | f32 | f64 | bool | string
pub fn typeType(tokens: &mut TokenList) -> (r: Option<AST_Node>)
    requires
        old(tokens).wf(),
        !(spec_type_type(old(tokens)@.tokens, old(tokens)@.position) is Failed),
    ensures
        final(tokens).wf(),
        final(tokens)@.tokens == old(tokens)@.tokens,
        found_as(r, final(tokens)@.position, spec_type_type(old(tokens)@.tokens, old(tokens)@.position),
            old(tokens)@.position),
{
    found(type_rule(tokens))
}

/// assignmentStatement: identifier '=' additive? stringLiteral? (';' | newline)?
pub fn assignmentStmt(tokens: &mut TokenList) -> (r: Option<AST_Node>)
    requires
        old(tokens).wf(),
        !(spec_assignment(old(tokens)@.tokens, old(tokens)@.position) is Failed),
    ensures
        final(tokens).wf(),
        final(tokens)@.tokens == old(tokens)@.tokens,
        found_as(r, final(tokens)@.position, spec_assignment(old(tokens)@.tokens, old(tokens)@.position),
            old(tokens)@.position),
{
    found(assignment(tokens))
}

} // verus!

verus! {

/// The variables of a running script, by name.
pub type Variables = vstd::hash_map::StringHashMap<i32>;

/// Rust's integer division, which rounds toward zero.
pub open spec fn spec_trunc_div(a: int, b: int) -> int {
    let q = (if a < 0 { -a } else { a }) / (if b < 0 { -b } else { b });
    if (a < 0) != (b < 0) { -q } else { q }
}

/// The value that a node of kind `t` with operator text `op` computes from
/// its operands, before it is stored in an `i32`; `None` where the
/// division has no value. An operator it does not know gives 0.
pub open spec fn spec_operation(t: AST_Node_Type, op: Seq<char>, a: i32, b: i32) -> Option<int> {
    if t == AST_Node_Type::Additive {
        if op == "+"@ { Some(a + b) } else if op == "-"@ { Some(a - b) } else { Some(0) }
    } else {
        if op == "*"@ {
            Some(a * b)
        } else if op == "/"@ {
            if b == 0 { None } else { Some(spec_trunc_div(a as int, b as int)) }
        } else {
            Some(0)
        }
    }
}

/// The `i32` that such a node gives; `None` where it overflows or divides
/// by zero.
pub open spec fn spec_combine(t: AST_Node_Type, op: Seq<char>, a: i32, b: i32) -> Option<i32> {
    match spec_operation(t, op, a, b) {
        Some(v) => if i32::MIN <= v <= i32::MAX { Some(v as i32) } else { None },
        None => None,
    }
}

/// How a condition compares its two values: `==`, `!=`, `>`, `<`, `>=`,
/// `<=`; any other text is false.
pub open spec fn spec_compare(op: Seq<char>, a: i32, b: i32) -> bool {
    if op == "=="@ {
        a == b
    } else if op == "!="@ {
        a != b
    } else if op == ">"@ {
        a > b
    } else if op == "<"@ {
        a < b
    } else if op == ">="@ {
        a >= b
    } else if op == "<="@ {
        a <= b
    } else {
        false
    }
}

/// What running a node does: the value it gives and the variables after
/// it, from the variables before it; `None` where running it stops the
/// program (a missing child, an integer text that does not parse, an
/// overflow, a division by zero).
pub open spec fn eval_node(n: AstView, vars: Map<Seq<char>, i32>) -> Option<(i32, Map<Seq<char>, i32>)>
    decreases n,
{
    let cs = n.children;
    match n.node_type {
        AST_Node_Type::Declaration => if cs.len() > 0 {
            match eval_node(cs[0], vars) {
                Some((v, m)) => Some((v, m.insert(n.value, v))),
                None => None,
            }
        } else {
            Some((0, vars.insert(n.value, 0)))
        },
        AST_Node_Type::ConditionBlockStmt => if cs.len() < 2 {
            None
        } else {
            match eval_condition(cs[0], vars) {
                None => None,
                Some((b, m)) => if b {
                    eval_node(cs[1], m)
                } else if cs.len() > 2 {
                    eval_node(cs[2], m)
                } else {
                    Some((0, m))
                },
            }
        },
        AST_Node_Type::AssignmentStmt => if cs.len() == 0 {
            None
        } else {
            match eval_node(cs[0], vars) {
                Some((v, m)) => Some((v, m.insert(n.value, v))),
                None => None,
            }
        },
        AST_Node_Type::Additive | AST_Node_Type::Multiplicative => if cs.len() == 1 {
            eval_node(cs[0], vars)
        } else if cs.len() == 2 {
            match eval_node(cs[0], vars) {
                None => None,
                Some((a, m1)) => match eval_node(cs[1], m1) {
                    None => None,
                    Some((b, m2)) => match spec_combine(n.node_type, n.value, a, b) {
                        Some(v) => Some((v, m2)),
                        None => None,
                    },
                },
            }
        } else {
            Some((0, vars))
        },
        AST_Node_Type::Identifier => Some(
            (if vars.contains_key(n.value) { vars[n.value] } else { 0 }, vars),
        ),
        AST_Node_Type::IntLiteral => match crate::text::spec_parse_i32(crate::text::spec_trim(n.value)) {
            Some(v) => Some((v, vars)),
            None => None,
        },
        _ => Some((0, vars)),
    }
}

/// What running a condition does: whether it holds and the variables after
/// it; `None` where the node is no comparison of two values or running
/// them stops the program.
pub open spec fn eval_condition(n: AstView, vars: Map<Seq<char>, i32>) -> Option<(bool, Map<Seq<char>, i32>)>
    decreases n,
{
    if n.node_type != AST_Node_Type::ConditionExpression || n.children.len() != 2 {
        None
    } else {
        match eval_node(n.children[0], vars) {
            None => None,
            Some((a, m1)) => match eval_node(n.children[1], m1) {
                None => None,
                Some((b, m2)) => Some((spec_compare(n.value, a, b), m2)),
            },
        }
    }
}

/// What running a program's top-level nodes in order does: the value of
/// each and the variables after the last.
pub open spec fn eval_all(cs: Seq<AstView>, vars: Map<Seq<char>, i32>) -> Option<(Seq<i32>, Map<Seq<char>, i32>)>
    decreases cs.len(),
{
    if cs.len() == 0 {
        Some((Seq::empty(), vars))
    } else {
        match eval_all(cs.drop_last(), vars) {
            None => None,
            Some((values, m)) => match eval_node(cs.last(), m) {
                None => None,
                Some((v, m2)) => Some((values.push(v), m2)),
            },
        }
    }
}

} // verus!

verus! {

/// The magnitude of an `i32`, without overflow.
fn magnitude(a: i32) -> (m: u64)
    ensures
        m == (if a < 0 { -a } else { a as int }),
{
    if a < 0 { (-(a as i64)) as u64 } else { a as u64 }
}

/// What a node of kind `t` with operator text `op` computes from its two
/// operands (see `spec_combine`).
fn combine(t: AST_Node_Type, op: &str, a: i32, b: i32) -> (r: Option<i32>)
    ensures
        r == spec_combine(t, op@, a, b),
{
    let wide: i64 = if t == AST_Node_Type::Additive {
        if crate::text::str_equal(op, "+") {
            a as i64 + b as i64
        } else if crate::text::str_equal(op, "-") {
            a as i64 - b as i64
        } else {
            0
        }
    } else if crate::text::str_equal(op, "*") {
        assert(-0x8000_0000 * 0x8000_0000 <= a * b <= 0x8000_0000 * 0x8000_0000) by (nonlinear_arith)
            requires
                -0x8000_0000 <= a <= 0x7fff_ffff,
                -0x8000_0000 <= b <= 0x7fff_ffff,
        ;
        a as i64 * b as i64
    } else if crate::text::str_equal(op, "/") {
        if b == 0 {
            return None;
        }
        let ma = magnitude(a);
        let mb = magnitude(b);
        let q = ma / mb;
        assert(q <= ma) by (nonlinear_arith)
            requires
                mb >= 1,
                q == ma / mb,
        ;
        if (a < 0) != (b < 0) { -(q as i64) } else { q as i64 }
    } else {
        0
    };
    if -0x8000_0000 <= wide && wide <= 0x7fff_ffff {
        Some(wide as i32)
    } else {
        None
    }
}

/// How a condition compares its two values (see `spec_compare`).
fn compare(op: &str, a: i32, b: i32) -> (r: bool)
    ensures
        r == spec_compare(op@, a, b),
{
    if crate::text::str_equal(op, "==") {
        a == b
    } else if crate::text::str_equal(op, "!=") {
        a != b
    } else if crate::text::str_equal(op, ">") {
        a > b
    } else if crate::text::str_equal(op, "<") {
        a < b
    } else if crate::text::str_equal(op, ">=") {
        a >= b
    } else if crate::text::str_equal(op, "<=") {
        a <= b
    } else {
        false
    }
}

/// The children of a node are the trees of its children.
pub proof fn lemma_child_view(node: AST_Node, i: int)
    requires
        0 <= i < node.children@.len(),
    ensures
        ast_view(node).children.len() == node.children@.len(),
        ast_view(node).children[i] == ast_view(node.children@[i]),
{
}

/// Runs a node (see `eval_node`): its value, or `None` where running it
/// stops the program.
pub fn executeNode(node: &AST_Node, vars: &mut Variables) -> (r: Option<i32>)
    ensures
        match eval_node(ast_view(*node), old(vars)@) {
            Some((v, m)) => r == Some(v) && final(vars)@ == m,
            None => r is None,
        },
    decreases ast_view(*node),
{
    let len = node.children.len();
    assert(ast_view(*node).children.len() == len);
    match node.node_type {
        AST_Node_Type::Declaration => {
            let value = if len > 0 {
                proof { lemma_child_view(*node, 0); }
                match executeNode(&node.children[0], vars) {
                    Some(v) => v,
                    None => {
                        return None;
                    },
                }
            } else {
                0
            };
            vars.insert(crate::text::copy_string(&node.value), value);
            Some(value)
        },
        AST_Node_Type::ConditionBlockStmt => {
            if len < 2 {
                return None;
            }
            proof { lemma_child_view(*node, 0); lemma_child_view(*node, 1); }
            match executeConditionNode(&node.children[0], vars) {
                None => None,
                Some(true) => executeNode(&node.children[1], vars),
                Some(false) => if len > 2 {
                    proof { lemma_child_view(*node, 2); }
                    executeNode(&node.children[2], vars)
                } else {
                    Some(0)
                },
            }
        },
        AST_Node_Type::AssignmentStmt => {
            if len == 0 {
                return None;
            }
            proof { lemma_child_view(*node, 0); }
            let value = match executeNode(&node.children[0], vars) {
                Some(v) => v,
                None => {
                    return None;
                },
            };
            vars.insert(crate::text::copy_string(&node.value), value);
            Some(value)
        },
        AST_Node_Type::Additive | AST_Node_Type::Multiplicative => {
            if len == 1 {
                proof { lemma_child_view(*node, 0); }
                executeNode(&node.children[0], vars)
            } else if len == 2 {
                proof { lemma_child_view(*node, 0); lemma_child_view(*node, 1); }
                let a = match executeNode(&node.children[0], vars) {
                    Some(v) => v,
                    None => {
                        return None;
                    },
                };
                let b = match executeNode(&node.children[1], vars) {
                    Some(v) => v,
                    None => {
                        return None;
                    },
                };
                combine(node.node_type, node.value.as_str(), a, b)
            } else {
                Some(0)
            }
        },
        AST_Node_Type::Identifier => match vars.get(node.value.as_str()) {
            Some(v) => Some(*v),
            None => Some(0),
        },
        AST_Node_Type::IntLiteral => {
            let chars = crate::text::str_chars(node.value.as_str());
            let (from, to) = crate::text::trim_bounds(&chars, 0, chars.len());
            assert(chars@.subrange(0, chars@.len() as int) =~= chars@);
            crate::text::parse_i32(&chars, from, to)
        },
        _ => Some(0),
    }
}

/// Runs a condition (see `eval_condition`): whether it holds, or `None`
/// where the node is no comparison of two values or running them stops the
/// program.
fn executeConditionNode(node: &AST_Node, vars: &mut Variables) -> (r: Option<bool>)
    ensures
        match eval_condition(ast_view(*node), old(vars)@) {
            Some((b, m)) => r == Some(b) && final(vars)@ == m,
            None => r is None,
        },
    decreases ast_view(*node),
{
    if node.node_type != AST_Node_Type::ConditionExpression || node.children.len() != 2 {
        return None;
    }
    proof { lemma_child_view(*node, 0); lemma_child_view(*node, 1); }
    let a = match executeNode(&node.children[0], vars) {
        Some(v) => v,
        None => {
            return None;
        },
    };
    let b = match executeNode(&node.children[1], vars) {
        Some(v) => v,
        None => {
            return None;
        },
    };
    Some(compare(node.value.as_str(), a, b))
}

/// Runs the top-level nodes of a program in order and gives the value of
/// each, as the interpreter prints them; the variables persist from one
/// run to the next.
pub fn executeSripte(node: &mut AST_Node, varMap: &mut Variables) -> (values: Vec<i32>)
    requires
        eval_all(ast_view(*old(node)).children, old(varMap)@) is Some,
    ensures
        *final(node) == *old(node),
        eval_all(ast_view(*old(node)).children, old(varMap)@) == Some((values@, final(varMap)@)),
{
    let ghost cs = ast_view(*node).children;
    let ghost vars0 = varMap@;
    let mut values: Vec<i32> = Vec::new();
    let n = node.children.len();
    let mut i: usize = 0;
    assert(cs.take(0) =~= Seq::<AstView>::empty());
    while i < n
        invariant
            n == node.children@.len(),
            cs == ast_view(*node).children,
            cs.len() == n,
            i <= n,
            eval_all(cs, vars0) is Some,
            eval_all(cs.take(i as int), vars0) == Some((values@, varMap@)),
        decreases n - i,
    {
        proof {
            lemma_child_view(*node, i as int);
            lemma_eval_all_prefix(cs, vars0, i as int + 1);
            assert(cs.take(i as int + 1).drop_last() =~= cs.take(i as int));
            assert(cs.take(i as int + 1).last() == cs[i as int]);
        }
        let v = match executeNode(&node.children[i], varMap) {
            Some(v) => v,
            None => 0,
        };
        values.push(v);
        i += 1;
    }
    assert(cs.take(n as int) =~= cs);
    values
}

/// A run that gets through all the nodes gets through each prefix of them.
proof fn lemma_eval_all_prefix(cs: Seq<AstView>, vars: Map<Seq<char>, i32>, k: int)
    requires
        0 <= k <= cs.len(),
        eval_all(cs, vars) is Some,
    ensures
        eval_all(cs.take(k), vars) is Some,
    decreases cs.len(),
{
    if k == cs.len() {
        assert(cs.take(k) =~= cs);
    } else {
        assert(cs.drop_last().take(k) =~= cs.take(k));
        lemma_eval_all_prefix(cs.drop_last(), vars, k);
    }
}

} // verus!

verus! {

/// Running two lists of nodes one after the other, the second from the
/// variables the first left, gives what running them as one list gives:
/// the values of both in order and the variables after the last.
pub proof fn law_run_in_parts(a: Seq<AstView>, b: Seq<AstView>, vars: Map<Seq<char>, i32>)
    ensures
        eval_all(a + b, vars) == match eval_all(a, vars) {
            None => None,
            Some((va, m)) => match eval_all(b, m) {
                None => None,
                Some((vb, m2)) => Some((va + vb, m2)),
            },
        },
    decreases b.len(),
{
    if b.len() == 0 {
        assert(a + b =~= a);
        match eval_all(a, vars) {
            Some((va, m)) => {
                assert(va + Seq::<i32>::empty() =~= va);
            },
            None => {},
        }
    } else {
        law_run_in_parts(a, b.drop_last(), vars);
        assert((a + b).drop_last() =~= a + b.drop_last());
        assert((a + b).last() == b.last());
        match eval_all(a, vars) {
            Some((va, m)) => match eval_all(b.drop_last(), m) {
                Some((vb, m2)) => match eval_node(b.last(), m2) {
                    Some((v, m3)) => {
                        assert((va + vb).push(v) =~= va + vb.push(v));
                    },
                    None => {},
                },
                None => {},
            },
            None => {},
        }
    }
}

} // verus!

verus! {

/// A function body is exactly a statement block: where the block matches,
/// the body matches the same tokens with the same tree, of kind
/// FunctionBody; where the block does not match or is a syntax error, so is
/// the body.
pub proof fn law_function_body_is_block(ts: Seq<Token>, p: int)
    ensures
        match spec_statement_block(ts, p) {
            Parse_Result::Matched { node, pos } => spec_function_body(ts, p) == (Parse_Result::Matched {
                node: retyped(node, AST_Node_Type::FunctionBody),
                pos,
            }),
            Parse_Result::NoMatch => spec_function_body(ts, p) is NoMatch,
            Parse_Result::Failed => spec_function_body(ts, p) is Failed,
        },
{
}

} // verus!

verus! {

/// The six comparison operators are six different texts.
proof fn lemma_comparison_words_differ()
    ensures
        "=="@ != "!="@, "=="@ != ">"@, "=="@ != "<"@, "=="@ != ">="@, "=="@ != "<="@,
        "!="@ != ">"@, "!="@ != "<"@, "!="@ != ">="@, "!="@ != "<="@,
        ">"@ != "<"@, ">"@ != ">="@, ">"@ != "<="@,
        "<"@ != ">="@, "<"@ != "<="@,
        ">="@ != "<="@,
{
    reveal_strlit("==");
    reveal_strlit("!=");
    reveal_strlit(">");
    reveal_strlit("<");
    reveal_strlit(">=");
    reveal_strlit("<=");
    assert("=="@[0] != "!="@[0]);
    assert("=="@[0] != ">="@[0]);
    assert("=="@[0] != "<="@[0]);
    assert("!="@[0] != ">="@[0]);
    assert("!="@[0] != "<="@[0]);
    assert(">"@[0] != "<"@[0]);
    assert(">="@[0] != "<="@[0]);
    assert("=="@.len() == 2 && "!="@.len() == 2 && ">="@.len() == 2 && "<="@.len() == 2);
    assert(">"@.len() == 1 && "<"@.len() == 1);
}

/// A condition compares the values of its two operands as integers: over
/// two variables `a` and `b`, `<` holds exactly when the value of `a` is
/// less than that of `b`, and likewise `<=`, `>`, `>=`, `==`, `!=`; the
/// variables are left as they were.
pub proof fn law_condition_compares_values(op: Seq<char>, a: Seq<char>, b: Seq<char>, vars: Map<Seq<char>, i32>)
    requires
        vars.contains_key(a),
        vars.contains_key(b),
    ensures
        ({
            let n = branch(AST_Node_Type::ConditionExpression, op, leaf(AST_Node_Type::Identifier, a),
                leaf(AST_Node_Type::Identifier, b));
            let x = vars[a] as int;
            let y = vars[b] as int;
            &&& op == "<"@ ==> eval_condition(n, vars) == Some((x < y, vars))
            &&& op == "<="@ ==> eval_condition(n, vars) == Some((x <= y, vars))
            &&& op == ">"@ ==> eval_condition(n, vars) == Some((x > y, vars))
            &&& op == ">="@ ==> eval_condition(n, vars) == Some((x >= y, vars))
            &&& op == "=="@ ==> eval_condition(n, vars) == Some((x == y, vars))
            &&& op == "!="@ ==> eval_condition(n, vars) == Some((x != y, vars))
        }),
{
    lemma_comparison_words_differ();
    let n = branch(AST_Node_Type::ConditionExpression, op, leaf(AST_Node_Type::Identifier, a),
        leaf(AST_Node_Type::Identifier, b));
    assert(n.children[0] == leaf(AST_Node_Type::Identifier, a));
    assert(n.children[1] == leaf(AST_Node_Type::Identifier, b));
    assert(eval_node(leaf(AST_Node_Type::Identifier, a), vars) == Some((vars[a], vars)));
    assert(eval_node(leaf(AST_Node_Type::Identifier, b), vars) == Some((vars[b], vars)));
}

/// An `if` statement runs its first branch exactly when its condition
/// holds, and its `else` branch, or nothing (value 0), when it does not.
pub proof fn law_if_runs_the_branch_its_condition_picks(
    cond: AstView,
    then_branch: AstView,
    else_branch: AstView,
    vars: Map<Seq<char>, i32>,
)
    requires
        eval_condition(cond, vars) is Some,
    ensures
        ({
            let holds = eval_condition(cond, vars).unwrap().0;
            let after = eval_condition(cond, vars).unwrap().1;
            let with_else = with_child(branch(AST_Node_Type::ConditionBlockStmt, "if"@, cond, then_branch), else_branch);
            let without_else = branch(AST_Node_Type::ConditionBlockStmt, "if"@, cond, then_branch);
            &&& eval_node(with_else, vars) == (if holds { eval_node(then_branch, after) } else { eval_node(else_branch, after) })
            &&& eval_node(without_else, vars) == (if holds { eval_node(then_branch, after) } else { Some((0i32, after)) })
        }),
{
    let with_else = with_child(branch(AST_Node_Type::ConditionBlockStmt, "if"@, cond, then_branch), else_branch);
    let without_else = branch(AST_Node_Type::ConditionBlockStmt, "if"@, cond, then_branch);
    assert(with_else.children[0] == cond && with_else.children[1] == then_branch && with_else.children[2] == else_branch);
    assert(without_else.children[0] == cond && without_else.children[1] == then_branch);
}

} // verus!
