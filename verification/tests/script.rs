use rust_demo::conse_token::{Token, TokenList, Token_Type};
use rust_demo::conselexer::lexerParse;
use rust_demo::consesemantic::{
    findSymbolFromAvaScope, semanticParse, walk_AST_tree, Block_Scope, PrimaryType_Resolver, Scope_Resolver,
    Semantic_Context, Symbol, Symbol_Type, Variable_Resolver,
};
use rust_demo::consesyntax::{
    assignmentStmt, executeSripte, formalParameters, functionBody, functionReturn, funtions, parameterDefine,
    parse_program, statementBlock, syntaxParse, typeType, AST_Node, AST_Node_Type, Parsed, Variables, executeNode,
};

fn tok(t: Token_Type, text: &str) -> Token {
    Token::new(t, text)
}

fn kw(text: &str) -> Token {
    tok(Token_Type::KeyWord, text)
}

fn id(text: &str) -> Token {
    tok(Token_Type::Identifier, text)
}

fn lit(text: &str) -> Token {
    tok(Token_Type::IntLiteral, text)
}

fn semi() -> Token {
    tok(Token_Type::SemiColon, ";")
}

fn assign() -> Token {
    tok(Token_Type::Assignment, "=")
}

fn plus() -> Token {
    tok(Token_Type::Plus, "+")
}

/// The tokens of "let a = 100; let b=101; if a>=100 a=a+1; else b=b+10; a+b*3;".
fn condition_program() -> Vec<Token> {
    vec![
        kw("let"), id("a"), assign(), lit("100"), semi(),
        kw("let"), id("b"), assign(), lit("101"), semi(),
        kw("if"), id("a"), tok(Token_Type::GE, ">="), lit("100"),
        id("a"), assign(), id("a"), plus(), lit("1"), semi(),
        kw("else"), id("b"), assign(), id("b"), plus(), lit("10"), semi(),
        id("a"), plus(), id("b"), tok(Token_Type::Star, "*"), lit("3"), semi(),
    ]
}

#[test]
fn test_cal_AST_node_condition() {
    let code = String::from("let a = 100; let b=101; if a>=100 a=a+1; else b=b+10; a+b*3;");
    let mut tokens = lexerParse(code.as_str()).unwrap();
    assert_eq!(tokens.len(), condition_program().len());
    let ast_node = syntaxParse(&mut tokens);
    assert!(ast_node.is_some());
    let mut node = ast_node.unwrap();
    assert_eq!(node.get_type(), AST_Node_Type::Programm);
    assert_eq!(node.getChildren().len(), 4);

    let mut var_map = Variables::new();
    let values = executeSripte(&mut node, &mut var_map);
    assert_eq!(values, vec![100, 101, 101, 404]);
    assert_eq!(var_map.get("a"), Some(&101));
    assert_eq!(var_map.get("b"), Some(&101));
}

#[test]
fn test_cal_AST_node() {
    let code = String::from("let a = 100; a=(a-1)*15*(a+1);a+10*3;");
    let mut tokens = lexerParse(code.as_str()).unwrap();
    let mut node = syntaxParse(&mut tokens).unwrap();
    let mut var_map = Variables::new();
    assert_eq!(executeSripte(&mut node, &mut var_map), vec![100, 149985, 150015]);
}

#[test]
fn script_hand_built_tokens_run_alike() {
    let mut tokens = TokenList::new(condition_program());
    let mut node = syntaxParse(&mut tokens).unwrap();
    let mut var_map = Variables::new();
    assert_eq!(executeSripte(&mut node, &mut var_map), vec![100, 101, 101, 404]);
}

#[test]
fn lexer_cuts_tokens() {
    let tokens = lexerParse("fn f(x i32) -> i64 { x >= 10; }\n\"hi\" != y").unwrap();
    assert_eq!(tokens.len(), 18);
    let mut list = tokens;
    let mut seen = Vec::new();
    while let Some(t) = list.next() {
        seen.push((t.get_type(), t.get_text().to_string()));
    }
    assert_eq!(seen[0], (Token_Type::Function, "fn".to_string()));
    assert_eq!(seen[1], (Token_Type::Identifier, "f".to_string()));
    assert_eq!(seen[4], (Token_Type::i32, "i32".to_string()));
    assert_eq!(seen[6], (Token_Type::FuncationReturn, "->".to_string()));
    assert_eq!(seen[10], (Token_Type::GE, ">=".to_string()));
    assert_eq!(seen[11], (Token_Type::IntLiteral, "10".to_string()));
    assert_eq!(seen[14], (Token_Type::Enter, "\n".to_string()));
    assert_eq!(seen[15], (Token_Type::StringLiteral, "hi".to_string()));
    assert_eq!(seen[16], (Token_Type::NOTEQ, "!=".to_string()));
    assert!(lexerParse("a # b").is_none());
    assert_eq!(lexerParse("").unwrap().len(), 0);
    assert_eq!(lexerParse("\"open").unwrap().next().unwrap().get_text(), "open");
}

#[test]
fn script_else_branch_runs_when_condition_fails() {
    let program = vec![
        kw("let"), id("a"), assign(), lit("5"), semi(),
        kw("if"), id("a"), tok(Token_Type::GT, ">"), lit("7"),
        id("a"), assign(), lit("1"), semi(),
        kw("else"), id("a"), assign(), id("a"), tok(Token_Type::Minus, "-"), lit("9"), semi(),
    ];
    let mut tokens = TokenList::new(program);
    let mut node = syntaxParse(&mut tokens).unwrap();
    let mut vars = Variables::new();
    assert_eq!(executeSripte(&mut node, &mut vars), vec![5, -4]);
    assert_eq!(vars.get("a"), Some(&-4));
}

#[test]
fn script_division_rounds_toward_zero() {
    let program = vec![
        kw("let"), id("q"), assign(), lit("-7"), tok(Token_Type::Slash, "/"), lit("2"), semi(),
        id("q"), tok(Token_Type::Star, "*"), tok(Token_Type::LeftParen, "("), lit("1"), plus(), lit("2"),
        tok(Token_Type::RightParen, ")"), semi(),
    ];
    let mut tokens = TokenList::new(program);
    let mut node = syntaxParse(&mut tokens).unwrap();
    let mut vars = Variables::new();
    assert_eq!(executeSripte(&mut node, &mut vars), vec![-3, -9]);
}

#[test]
fn script_unknown_variable_reads_zero_and_literal_is_trimmed() {
    let program = vec![id("x"), plus(), lit(" 12 "), semi()];
    let mut tokens = TokenList::new(program);
    let mut node = syntaxParse(&mut tokens).unwrap();
    let mut vars = Variables::new();
    assert_eq!(executeSripte(&mut node, &mut vars), vec![12]);
}

#[test]
fn script_additive_groups_to_the_left() {
    let program = vec![lit("10"), tok(Token_Type::Minus, "-"), lit("3"), tok(Token_Type::Minus, "-"), lit("2"), semi()];
    let mut tokens = TokenList::new(program);
    let mut node = syntaxParse(&mut tokens).unwrap();
    let first = &node.getChildren()[0];
    assert_eq!(first.get_type(), AST_Node_Type::Additive);
    assert_eq!(first.getChildren()[0].get_type(), AST_Node_Type::Additive);
    let mut vars = Variables::new();
    assert_eq!(executeSripte(&mut node, &mut vars), vec![5]);
}

#[test]
fn script_syntax_errors_are_reported() {
    let mut tokens = TokenList::new(vec![kw("let"), lit("3"), semi()]);
    assert!(matches!(parse_program(&mut tokens), Parsed::Failed));
    let mut tokens = TokenList::new(vec![lit("1"), plus(), lit("2")]);
    assert!(matches!(parse_program(&mut tokens), Parsed::Failed));
    let mut tokens = TokenList::new(vec![kw("if"), lit("1"), semi()]);
    assert!(matches!(parse_program(&mut tokens), Parsed::Failed));
}

#[test]
fn script_parse_stops_at_a_token_that_starts_nothing() {
    let mut tokens = TokenList::new(vec![lit("1"), semi(), tok(Token_Type::RightBrace, "}"), lit("2"), semi()]);
    match parse_program(&mut tokens) {
        Parsed::Node(n) => assert_eq!(n.getChildren().len(), 1),
        _ => panic!("the first statement parses"),
    }
    assert_eq!(tokens.getPosition(), 2);
}

#[test]
fn script_function_declaration() {
    let program = vec![
        tok(Token_Type::Function, "fn"), id("f"),
        tok(Token_Type::LeftParen, "("), id("x"), tok(Token_Type::i32, "i32"), tok(Token_Type::RightParen, ")"),
        tok(Token_Type::FuncationReturn, "->"), tok(Token_Type::i64, "i64"),
        tok(Token_Type::LeftBrace, "{"), id("x"), plus(), lit("1"), semi(), tok(Token_Type::RightBrace, "}"),
    ];
    let mut tokens = TokenList::new(program);
    let f = funtions(&mut tokens).unwrap();
    assert_eq!(f.get_type(), AST_Node_Type::Function);
    assert_eq!(f.get_value(), "f");
    let parts = f.getChildren();
    assert_eq!(parts.len(), 3);
    assert_eq!(parts[0].get_type(), AST_Node_Type::FormalParameters);
    assert_eq!(parts[0].getChildren().len(), 1);
    assert_eq!(parts[0].getChildren()[0].get_value(), "x");
    assert_eq!(parts[0].getChildren()[0].getChildren()[0].get_value(), "i32");
    assert_eq!(parts[1].get_type(), AST_Node_Type::FunctionReturn);
    assert_eq!(parts[1].get_value(), "i64");
    assert_eq!(parts[2].get_type(), AST_Node_Type::FunctionBody);
    assert_eq!(parts[2].getChildren().len(), 1);
    assert_eq!(tokens.getPosition(), 14);
}

#[test]
fn script_rules_leave_the_cursor_when_they_do_not_match() {
    let mut tokens = TokenList::new(vec![lit("1"), semi()]);
    assert!(funtions(&mut tokens).is_none());
    assert!(formalParameters(&mut tokens).is_none());
    assert!(parameterDefine(&mut tokens).is_none());
    assert!(functionReturn(&mut tokens).is_none());
    assert!(functionBody(&mut tokens).is_none());
    assert!(statementBlock(&mut tokens).is_none());
    assert!(typeType(&mut tokens).is_none());
    assert!(assignmentStmt(&mut tokens).is_none());
    assert_eq!(tokens.getPosition(), 0);
}

#[test]
fn script_type_and_assignment_rules() {
    let mut tokens = TokenList::new(vec![tok(Token_Type::string, "string")]);
    let t = typeType(&mut tokens).unwrap();
    assert_eq!(t.get_type(), AST_Node_Type::TypeType);
    assert_eq!(t.get_value(), "string");
    let mut tokens = TokenList::new(vec![id("s"), assign(), tok(Token_Type::StringLiteral, "hi")]);
    let a = assignmentStmt(&mut tokens).unwrap();
    assert_eq!(a.get_type(), AST_Node_Type::AssignmentStmt);
    assert_eq!(a.getChildren()[0].get_type(), AST_Node_Type::StringLiteral);
    assert_eq!(tokens.getPosition(), 3);
}

#[test]
fn ast_node_building() {
    let mut n = AST_Node::new(AST_Node_Type::Additive, "+");
    n.addChild(AST_Node::new(AST_Node_Type::IntLiteral, "1"));
    assert_eq!(n.get_value(), "+");
    assert_eq!(n.get_id(), 0);
    assert_eq!(n.getChildren().len(), 1);
    assert_eq!(n.getChildren()[0].get_value(), "1");
}

#[test]
fn token_list_cursor() {
    let mut tokens = TokenList::new(vec![lit("1"), semi()]);
    assert_eq!(tokens.len(), 2);
    assert_eq!(tokens.preRead().unwrap().get_text(), "1");
    assert_eq!(tokens.next().unwrap().to_string(), "1");
    assert_eq!(tokens.getPosition(), 1);
    tokens.setPosition(2);
    assert!(tokens.next().is_none());
    assert_eq!(tokens.getPosition(), 2);
}

#[test]
fn symbol_types_and_scopes() {
    assert_eq!(Symbol_Type::fromStr("int"), Symbol_Type::Int);
    assert_eq!(Symbol_Type::fromStr("dubbo"), Symbol_Type::dubbo);
    assert_eq!(Symbol_Type::fromStr("bool"), Symbol_Type::undefine);
    let s = Symbol::new("a", Symbol_Type::float, 3);
    assert_eq!(s.get_stype(), Symbol_Type::float);

    let mut outer = Block_Scope::new(None);
    outer.addSymbol("a", Symbol_Type::Int, 0);
    let mut inner = Block_Scope::new(Some(0));
    inner.addSymbol("b", Symbol_Type::string, 1);
    assert!(inner.containCurrentScopeSymbol("b"));
    assert!(!inner.containCurrentScopeSymbol("a"));
    assert_eq!(inner.get_parent_index(), Some(0));
    assert_eq!(inner.findSymbol("b"), Some(Symbol_Type::string));
    let scopes = vec![outer, inner];
    assert_eq!(findSymbolFromAvaScope(&scopes, "a", 1), Some(Symbol_Type::Int));
    assert_eq!(findSymbolFromAvaScope(&scopes, "b", 1), Some(Symbol_Type::string));
    assert_eq!(findSymbolFromAvaScope(&scopes, "b", 0), None);
    assert_eq!(findSymbolFromAvaScope(&scopes, "c", 1), None);
}

#[test]
fn scope_resolver_steps() {
    let mut r = Scope_Resolver::new();
    assert_eq!(r.popScope(), None);
    r.pushScope(Block_Scope::new(None));
    r.pushScope(Block_Scope::new(Some(0)));
    assert_eq!(r.popScope(), Some(1));
    let mut v = Variable_Resolver::new();
    assert_eq!(v.addSymbol(Symbol::new("a", Symbol_Type::Int, 0)), 0);
    assert_eq!(v.addSymbol(Symbol::new("b", Symbol_Type::Int, 0)), 1);
}

#[test]
fn semantic_scopes_of_a_block() {
    let program = vec![
        tok(Token_Type::Function, "fn"), id("f"),
        tok(Token_Type::LeftParen, "("), tok(Token_Type::RightParen, ")"),
        tok(Token_Type::LeftBrace, "{"),
        kw("if"), lit("1"), tok(Token_Type::GT, ">"), lit("0"), lit("2"), semi(),
        tok(Token_Type::RightBrace, "}"),
    ];
    let mut tokens = TokenList::new(program);
    let root = syntaxParse(&mut tokens).unwrap();
    let c: Semantic_Context = semanticParse(root);
    assert_eq!(c.scope_list.len(), 2);
    assert_eq!(c.scope_list[0].get_parent_index(), None);
    assert_eq!(c.scope_list[1].get_parent_index(), Some(0));

    let mut tokens = TokenList::new(vec![lit("1"), semi()]);
    let root = syntaxParse(&mut tokens).unwrap();
    let mut pass = PrimaryType_Resolver {};
    walk_AST_tree(&root, &mut pass);
}

#[test]
fn script_statements_that_stop_the_program() {
    let program = vec![
        lit("1"), tok(Token_Type::Slash, "/"), lit("0"), semi(),
        lit("2147483647"), plus(), lit("1"), semi(),
        lit("99999999999"), semi(),
        id("x"), assign(), lit("5"), semi(),
    ];
    let mut tokens = TokenList::new(program);
    let node = syntaxParse(&mut tokens).unwrap();
    let mut vars = Variables::new();
    let statements = node.getChildren();
    assert_eq!(executeNode(&statements[0], &mut vars), None);
    assert_eq!(executeNode(&statements[1], &mut vars), None);
    assert_eq!(executeNode(&statements[2], &mut vars), None);
    assert_eq!(executeNode(&statements[3], &mut vars), Some(5));
    assert_eq!(vars.get("x"), Some(&5));
}

#[test]
fn script_variables_persist_between_runs() {
    let mut vars = Variables::new();
    let mut first = lexerParse("let a = 5;").unwrap();
    let mut node = syntaxParse(&mut first).unwrap();
    assert_eq!(executeSripte(&mut node, &mut vars), vec![5]);
    let mut second = lexerParse("a + 1;").unwrap();
    let mut node = syntaxParse(&mut second).unwrap();
    assert_eq!(executeSripte(&mut node, &mut vars), vec![6]);
    let mut both = lexerParse("let a = 5; a + 1;").unwrap();
    let mut node = syntaxParse(&mut both).unwrap();
    let mut fresh = Variables::new();
    assert_eq!(executeSripte(&mut node, &mut fresh), vec![5, 6]);
}

#[test]
fn script_parameters_separated_by_commas() {
    let mut tokens = lexerParse("(a i32, b i32) x").unwrap();
    let n = formalParameters(&mut tokens).unwrap();
    assert_eq!(n.get_type(), AST_Node_Type::FormalParameters);
    assert_eq!(n.get_value(), "()");
    assert_eq!(n.getChildren().len(), 2);
    assert_eq!(n.getChildren()[0].get_value(), "a");
    assert_eq!(n.getChildren()[1].get_value(), "b");
    assert_eq!(tokens.getPosition(), 7);
    let mut empty = lexerParse("()").unwrap();
    assert_eq!(formalParameters(&mut empty).unwrap().getChildren().len(), 0);
    let mut f = lexerParse("fn f(a i32, b i64) { a + b; }").unwrap();
    assert!(matches!(parse_program(&mut f), Parsed::Node(_)));
    let mut trailing = lexerParse("fn f(a i32,) { }").unwrap();
    assert!(matches!(parse_program(&mut trailing), Parsed::Failed));
}

#[test]
fn script_function_body_is_a_block() {
    let mut t1 = lexerParse("{ 1; 2; }").unwrap();
    let mut t2 = lexerParse("{ 1; 2; }").unwrap();
    let body = functionBody(&mut t1).unwrap();
    let block = statementBlock(&mut t2).unwrap();
    assert_eq!(body.get_type(), AST_Node_Type::FunctionBody);
    assert_eq!(block.get_type(), AST_Node_Type::StatementBlock);
    assert_eq!(body.get_value(), block.get_value());
    assert_eq!(body.getChildren().len(), block.getChildren().len());
    assert_eq!(t1.getPosition(), t2.getPosition());
}
