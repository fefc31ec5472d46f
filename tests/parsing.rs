use frontend::ast::{AstNode, Crate, Generic, ItemKind, NumberType, StmtKind, TyKind};
use frontend::lexer::lex;
use frontend::parser::Parser;
use frontend::token::{BinOp, Token, TokenType};
use frontend::token_stream::TokenStream;

fn parse(src: &str) -> Crate {
    let tokens = lex(src.to_string()).unwrap();
    let mut parser = Parser::new(TokenStream::new(tokens));
    parser.parse_crate().unwrap()
}

fn bin(node: &AstNode) -> (&AstNode, &AstNode, BinOp) {
    match node {
        AstNode::BinaryExpr(b) => (&b.lhs, &b.rhs, b.op),
        other => panic!("not a binary expression: {:?}", other),
    }
}

fn ident(node: &AstNode) -> &str {
    match node {
        AstNode::Ident(name) => name.as_str(),
        other => panic!("not an identifier: {:?}", other),
    }
}

fn static_value(krate: &Crate) -> &AstNode {
    match &krate.items[0] {
        ItemKind::StaticVal(s) => &s.val,
        ItemKind::ConstVal(c) => &c.val,
        other => panic!("not a static: {:?}", other),
    }
}

#[test]
fn function_with_two_params_and_sum_body() {
    let krate = parse("fn add(a: i32, b: i32) -> i32 { a + b }");
    assert_eq!(krate.items.len(), 1);
    let func = match &krate.items[0] {
        ItemKind::FunctionDef(f) => f,
        other => panic!("not a function: {:?}", other),
    };
    assert_eq!(func.header.name, "add");
    assert_eq!(func.header.args.len(), 2);
    assert_eq!(func.header.args[0].0, "a");
    assert_eq!(func.header.args[1].0, "b");
    assert!(func.header.ret.is_some());
    let last = func.body.stmts.last().unwrap();
    let expr = match last {
        StmtKind::Expr(e) => e,
        other => panic!("not a trailing expression: {:?}", other),
    };
    let (lhs, rhs, op) = bin(expr);
    assert_eq!(op, BinOp::Add);
    assert_eq!(ident(lhs), "a");
    assert_eq!(ident(rhs), "b");
}

#[test]
fn multiplication_binds_tighter_than_addition() {
    // a + b * c groups as a + (b * c)
    let krate = parse("static S: i32 = a + b * c;");
    let (name, value, op) = bin(static_value(&krate));
    assert_eq!(op, BinOp::Eq);
    assert_eq!(ident(name), "S");
    let (a, bc, plus) = bin(value);
    assert_eq!(plus, BinOp::Add);
    assert_eq!(ident(a), "a");
    let (b, c, times) = bin(bc);
    assert_eq!(times, BinOp::Mul);
    assert_eq!(ident(b), "b");
    assert_eq!(ident(c), "c");
}

#[test]
fn tighter_operator_first_groups_left() {
    // a * b + c groups as (a * b) + c
    let krate = parse("static S: i32 = a * b + c;");
    let (_, value, _) = bin(static_value(&krate));
    let (ab, c, plus) = bin(value);
    assert_eq!(plus, BinOp::Add);
    assert_eq!(ident(c), "c");
    let (a, b, times) = bin(ab);
    assert_eq!(times, BinOp::Mul);
    assert_eq!(ident(a), "a");
    assert_eq!(ident(b), "b");
}

#[test]
fn equal_precedence_groups_left() {
    // a - b - c groups as (a - b) - c
    let krate = parse("static S: i32 = a - b - c;");
    let (_, value, _) = bin(static_value(&krate));
    let (ab, c, minus) = bin(value);
    assert_eq!(minus, BinOp::Sub);
    assert_eq!(ident(c), "c");
    let (a, b, inner) = bin(ab);
    assert_eq!(inner, BinOp::Sub);
    assert_eq!(ident(a), "a");
    assert_eq!(ident(b), "b");
}

#[test]
fn parenthesised_operand_stays_together() {
    let krate = parse("static S: i32 = (a + b) * c;");
    let (_, value, _) = bin(static_value(&krate));
    let (ab, c, times) = bin(value);
    assert_eq!(times, BinOp::Mul);
    assert_eq!(ident(c), "c");
    let (_, _, plus) = bin(ab);
    assert_eq!(plus, BinOp::Add);
}

#[test]
fn empty_generics_list_is_rejected() {
    let krate = parse("struct S<> { x: i32 }");
    assert_eq!(krate.items.len(), 0);
}

#[test]
fn generics_list_counts_each_entry() {
    let krate = parse("struct S<'a, T: Clone + Debug, const N: usize> { x: T }");
    assert_eq!(krate.items.len(), 1);
    let def = match &krate.items[0] {
        ItemKind::StructDef(d) => d,
        other => panic!("not a struct: {:?}", other),
    };
    assert_eq!(def.generics.len(), 3);
    assert!(matches!(def.generics[0], Generic::Lifetime(_)));
    match &def.generics[1] {
        Generic::Type(t) => {
            assert_eq!(t.name, "T");
            assert_eq!(t.required_traits.len(), 2);
        }
        other => panic!("not a type parameter: {:?}", other),
    }
    assert!(matches!(def.generics[2], Generic::Constant(_)));
}

#[test]
fn trailing_comma_does_not_add_a_parameter() {
    let krate = parse("struct S<T,> { x: T }");
    match &krate.items[0] {
        ItemKind::StructDef(d) => assert_eq!(d.generics.len(), 1),
        other => panic!("not a struct: {:?}", other),
    }
    let krate = parse("fn f<'a, 'static, '_, U>() { 1 }");
    match &krate.items[0] {
        ItemKind::FunctionDef(f) => assert_eq!(f.header.generics.len(), 4),
        other => panic!("not a function: {:?}", other),
    }
}

#[test]
fn single_generic_parameter() {
    let krate = parse("fn id<T>(x: T) -> T { x }");
    let func = match &krate.items[0] {
        ItemKind::FunctionDef(f) => f,
        other => panic!("not a function: {:?}", other),
    };
    assert_eq!(func.header.generics.len(), 1);
}

#[test]
fn trait_with_bounds_and_method_headers() {
    let krate = parse("pub trait Show: Debug + Clone { fn show(x: i32) -> i32; fn hide(); }");
    assert_eq!(krate.items.len(), 1);
    match &krate.items[0] {
        ItemKind::TraitDef(t) => {
            assert_eq!(t.name, "Show");
            assert_eq!(t.req_sub_traits.len(), 2);
            assert_eq!(t.methods.len(), 2);
        }
        other => panic!("not a trait: {:?}", other),
    }
}

#[test]
fn plain_trait_lists_its_headers() {
    let krate = parse("trait Shape { fn area(s: Self2) -> u64; fn name(); }");
    match &krate.items[0] {
        ItemKind::TraitDef(t) => {
            assert_eq!(t.methods.len(), 2);
            assert_eq!(t.methods[0].name, "area");
            assert_eq!(t.methods[0].args.len(), 1);
            assert!(t.methods[0].ret.is_some());
            assert!(t.methods[1].ret.is_none());
        }
        other => panic!("not a trait: {:?}", other),
    }
}

#[test]
fn impl_block_for_trait() {
    let krate = parse("impl Show for Point { pub fn show() { 1 } fn hide() { 2 } }");
    assert_eq!(krate.items.len(), 1);
    match &krate.items[0] {
        ItemKind::StructImpl(i) => {
            assert!(i.impl_trait.is_some());
            assert_eq!(i.methods.len(), 2);
            match &i.ty.kind {
                TyKind::Owned(o) => assert_eq!(o.name, "Point"),
                other => panic!("not a named type: {:?}", other),
            }
        }
        other => panic!("not an impl block: {:?}", other),
    }
}

#[test]
fn array_literals_and_struct_constructor() {
    let krate = parse("fn f() { let a = [1, 2, 3]; let b = [0; 5]; let p = Point { x: 1, y: 2 }; p }");
    let func = match &krate.items[0] {
        ItemKind::FunctionDef(f) => f,
        other => panic!("not a function: {:?}", other),
    };
    assert_eq!(func.body.stmts.len(), 4);
    assert!(matches!(func.body.stmts[3], StmtKind::Expr(AstNode::Ident(_))));
}

#[test]
fn number_literals_are_read() {
    let krate = parse("const X: i32 = 42;");
    let (_, value, _) = bin(static_value(&krate));
    assert_eq!(value, &AstNode::Number(NumberType::Int(42)));
    let krate = parse("const Y: f64 = 1.5;");
    let (_, value, _) = bin(static_value(&krate));
    assert_eq!(value, &AstNode::Number(NumberType::Decimal("1.5".to_string())));
}

#[test]
fn bad_item_is_skipped_and_parsing_goes_on() {
    let krate = parse("fn broken( { } fn ok() { 1 }");
    assert_eq!(krate.items.len(), 1);
}

#[test]
fn lexer_ends_with_eof_at_text_length() {
    let tokens = lex("fn f() {}".to_string()).unwrap();
    assert_eq!(tokens.len(), 7);
    match tokens.last().unwrap() {
        Token::EOF(sp) => assert_eq!(sp.0, 9),
        other => panic!("not the end of input: {:?}", other),
    }
    assert_eq!(tokens[0].to_type(), TokenType::Keyword);
    assert_eq!(tokens[1].to_type(), TokenType::Ident);
}

#[test]
fn lexer_reads_compound_operators_and_comments() {
    let tokens = lex("a += 1 // note\nb -> c".to_string()).unwrap();
    let kinds: Vec<TokenType> = tokens.iter().map(|t| t.to_type()).collect();
    assert_eq!(
        kinds,
        vec![
            TokenType::Ident,
            TokenType::BinOp,
            TokenType::NumLit,
            TokenType::Comment,
            TokenType::Ident,
            TokenType::Arrow,
            TokenType::Ident,
            TokenType::EOF
        ]
    );
    let stream = TokenStream::new(tokens);
    let mut parser_tokens = 0;
    while stream.look_ahead(parser_tokens + 1, |_| true) {
        parser_tokens += 1;
    }
    assert_eq!(parser_tokens, 7);
}

#[test]
fn short_input_gives_its_tokens() {
    let tokens = lex("a + 1".to_string()).unwrap();
    let kinds: Vec<TokenType> = tokens.iter().map(|t| t.to_type()).collect();
    assert_eq!(kinds, vec![TokenType::Ident, TokenType::BinOp, TokenType::NumLit, TokenType::EOF]);
}

#[test]
fn header_and_array_shapes() {
    let krate = parse("fn f(a: u8, b: Foo) -> bool { [x, 2, y] }");
    let func = match &krate.items[0] {
        ItemKind::FunctionDef(f) => f,
        other => panic!("not a function: {:?}", other),
    };
    assert_eq!(func.header.args.len(), 2);
    match func.body.stmts.last().unwrap() {
        StmtKind::Expr(AstNode::ArrayInst(frontend::ast::ArrayInst::List(l))) => assert_eq!(l.vals.len(), 3),
        other => panic!("not an array literal: {:?}", other),
    }
    let krate = parse("const A: i32 = [7; 4];");
    let (_, value, _) = bin(static_value(&krate));
    match value {
        AstNode::ArrayInst(frontend::ast::ArrayInst::Short(s)) => {
            assert_eq!(s.val, AstNode::Number(NumberType::Int(7)));
            assert_eq!(s.amount, AstNode::Number(NumberType::Int(4)));
        }
        other => panic!("not a repeat literal: {:?}", other),
    }
}

#[test]
fn huge_integer_literal_keeps_its_spelling() {
    let krate = parse("const Z: i32 = 999999999999999999999999999999999999999999;");
    let (_, value, _) = bin(static_value(&krate));
    assert_eq!(
        value,
        &AstNode::Number(NumberType::Decimal("999999999999999999999999999999999999999999".to_string()))
    );
}

#[test]
fn string_literal_is_one_token() {
    let tokens = lex("\"hi there\" x".to_string()).unwrap();
    assert_eq!(tokens.len(), 3);
    match &tokens[0] {
        Token::StrLit(_, s) => assert_eq!(s, "hi there"),
        other => panic!("not a string literal: {:?}", other),
    }
}
