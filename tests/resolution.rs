use frontend::ast::{
    ArrayInst, ArrayInstList, ArrayInstShort, AstNode, BinaryExprNode, Crate, ItemKind, NumberType,
    StmtKind,
};
use frontend::attrs::{Mutability, Visibility};
use frontend::lexer::lex;
use frontend::parser::Parser;
use frontend::token::BinOp;
use frontend::token_stream::TokenStream;
use frontend::tyck::{
    decimal_text, same_ty, tyck_item, tyck_node, Environment, Lifetime, MachineSizedIntTy,
    PrimitiveTy, RefTy, ResolutionFailure, SizedFloatTy, SizedIntTy, StructField, StructTy, Ty,
    TyCtx, UnresolvedTy,
};

fn parse(src: &str) -> Crate {
    let tokens = lex(src.to_string()).unwrap();
    let mut parser = Parser::new(TokenStream::new(tokens));
    parser.parse_crate().unwrap()
}

fn unsized_int() -> Ty {
    Ty::Primitive(PrimitiveTy::UnsizedInt)
}

fn named(name: &str) -> Ty {
    Ty::Unresolved(UnresolvedTy { name: name.to_string(), generics: vec![] })
}

fn num(n: u128) -> AstNode {
    AstNode::Number(NumberType::Int(n))
}

fn is_unsized_int(t: &Ty) -> bool {
    matches!(t, Ty::Primitive(PrimitiveTy::UnsizedInt))
}

#[test]
fn struct_registers_derived_type() {
    let krate = parse("struct Point { x: i32, y: i32 }");
    let ctx = krate.build_ctx();
    let ty = ctx.resolve_named_ty(&String::new(), &"Point".to_string()).unwrap();
    match ty {
        Ty::Struct(s) => {
            assert_eq!(s.name, "Point");
            assert_eq!(s.fields.len(), 2);
            assert_eq!(s.fields[0].name, "x");
            assert_eq!(s.fields[1].name, "y");
            for field in &s.fields {
                match &field.ty {
                    Ty::Primitive(p) => {
                        assert_eq!(*p, PrimitiveTy::SizedInt(SizedIntTy { unsigned: false, exp: 1 }));
                        assert_eq!(p.to_string(), "i32");
                    }
                    other => panic!("not a primitive type: {:?}", other),
                }
            }
        }
        other => panic!("not a struct type: {:?}", other),
    }
    assert!(ctx.resolve_named_ty(&String::new(), &"Line".to_string()).is_none());
}

#[test]
fn const_takes_type_of_number_literal() {
    let krate = parse("const X: i32 = 5;");
    let ctx = krate.build_ctx();
    let ty = ctx.env.resolve_var(&"X".to_string()).unwrap();
    assert!(is_unsized_int(ty));
}

#[test]
fn static_of_primitive_name_gets_primitive_type() {
    let krate = parse("static B: bool = 1; static U: u64 = 2;");
    let ctx = krate.build_ctx();
    assert!(matches!(ctx.env.resolve_var(&"B".to_string()), Some(Ty::Primitive(PrimitiveTy::Bool))));
    assert!(matches!(
        ctx.env.resolve_var(&"U".to_string()),
        Some(Ty::Primitive(PrimitiveTy::SizedInt(SizedIntTy { unsigned: true, exp: 2 })))
    ));
}

#[test]
fn static_keeps_declared_type() {
    let krate = parse("static S: Point = 5;");
    let ctx = krate.build_ctx();
    let ty = ctx.env.resolve_var(&"S".to_string()).unwrap();
    assert!(same_ty(ty, &named("Point")));
}

#[test]
fn array_literals_resolve_to_array_of_element_type() {
    let ctx = TyCtx::new();
    let list = AstNode::ArrayInst(ArrayInst::List(ArrayInstList { vals: vec![num(1), num(2), num(3)] }));
    match ctx.resolve_ty(&list).unwrap() {
        Ty::Array(a) => assert!(is_unsized_int(&a.elem_ty)),
        other => panic!("not an array: {:?}", other),
    }
    let short = AstNode::ArrayInst(ArrayInst::Short(Box::new(ArrayInstShort { val: num(1), amount: num(5) })));
    match ctx.resolve_ty(&short).unwrap() {
        Ty::Array(a) => assert!(is_unsized_int(&a.elem_ty)),
        other => panic!("not an array: {:?}", other),
    }
}

#[test]
fn array_takes_first_resolvable_element() {
    let ctx = TyCtx::new();
    let list = AstNode::ArrayInst(ArrayInst::List(ArrayInstList {
        vals: vec![AstNode::Ident("unknown".to_string()), num(2)],
    }));
    match ctx.resolve_ty(&list).unwrap() {
        Ty::Array(a) => assert!(is_unsized_int(&a.elem_ty)),
        other => panic!("not an array: {:?}", other),
    }
    let none = AstNode::ArrayInst(ArrayInst::List(ArrayInstList { vals: vec![AstNode::Ident("u".to_string())] }));
    assert!(ctx.resolve_ty(&none).is_none());
}

#[test]
fn binary_expression_checks_operands() {
    let mut ctx = TyCtx::new();
    ctx.env.define_var("n".to_string(), named("i32"));
    ctx.env.define_var("flag".to_string(), Ty::Primitive(PrimitiveTy::Bool));
    let ok = AstNode::BinaryExpr(Box::new(BinaryExprNode {
        lhs: AstNode::Ident("n".to_string()),
        rhs: num(1),
        op: BinOp::Add,
    }));
    assert!(same_ty(&ctx.resolve_ty(&ok).unwrap(), &named("i32")));
    let bad = AstNode::BinaryExpr(Box::new(BinaryExprNode {
        lhs: AstNode::Ident("flag".to_string()),
        rhs: num(1),
        op: BinOp::Add,
    }));
    assert!(ctx.resolve_ty(&bad).is_none());
    assert_eq!(tyck_node(&mut ctx, &bad).unwrap_err(), ResolutionFailure::Unresolvable);
    assert_eq!(
        tyck_node(&mut ctx, &AstNode::Ident("n".to_string())).unwrap_err(),
        ResolutionFailure::NotFullyResolved("i32".to_string())
    );
}

#[test]
fn call_takes_declared_return_type() {
    let krate = parse("fn one() -> u8 { 1 } fn two() { 2 }");
    let ctx = krate.build_ctx();
    let call = parse("static S: u8 = one();");
    let value = match &call.items[0] {
        ItemKind::StaticVal(s) => match &s.val {
            AstNode::BinaryExpr(b) => b.rhs.clone(),
            other => panic!("not an assignment: {:?}", other),
        },
        other => panic!("not a static: {:?}", other),
    };
    assert!(same_ty(&ctx.resolve_ty(&value).unwrap(), &named("u8")));
}

#[test]
fn shadowing_and_scope_pop() {
    let mut env = Environment::new();
    assert!(env.define_var("x".to_string(), unsized_int()));
    env.push_scope();
    assert!(env.define_var("x".to_string(), Ty::Primitive(PrimitiveTy::Bool)));
    assert!(matches!(env.resolve_var(&"x".to_string()), Some(Ty::Primitive(PrimitiveTy::Bool))));
    assert!(env.pop_scope());
    assert!(is_unsized_int(env.resolve_var(&"x".to_string()).unwrap()));
    assert!(!env.pop_scope());
}

#[test]
fn redefining_local_in_same_scope_shows_latest() {
    let mut env = Environment::new();
    env.push_scope();
    assert!(env.define_var("x".to_string(), unsized_int()));
    assert!(env.define_var("x".to_string(), Ty::Primitive(PrimitiveTy::Char)));
    assert!(matches!(env.resolve_var(&"x".to_string()), Some(Ty::Primitive(PrimitiveTy::Char))));
    assert!(env.resolve_var(&"y".to_string()).is_none());
}

#[test]
fn second_static_definition_fails() {
    let mut env = Environment::new();
    assert!(env.define_static_var("x".to_string(), unsized_int()));
    assert!(!env.define_static_var("x".to_string(), Ty::Primitive(PrimitiveTy::Bool)));
    assert!(is_unsized_int(env.resolve_var(&"x".to_string()).unwrap()));
    // a static cannot be shadowed by a local of the same frame
    assert!(!env.define_var("x".to_string(), Ty::Primitive(PrimitiveTy::Bool)));
}

#[test]
fn functions_and_adts_are_single_writer() {
    let krate = parse("fn f() { 1 } struct P { x: i32 }");
    let mut ctx = krate.build_ctx();
    assert!(ctx.env.resolve_func(&"f".to_string()).is_some());
    let again = parse("struct P { y: i32 }");
    if let ItemKind::StructDef(def) = &again.items[0] {
        assert!(!ctx.env.define_adt(String::new(), "P".to_string(), frontend::tyck::Adt::Struct(def.clone())));
    }
    assert!(ctx.env.resolve_adt(&String::new(), &"P".to_string()).is_some());
}

#[test]
fn item_checks_report_failures() {
    let krate = parse("struct Point { x: i32 } const C: i32 = 5; static S: i32 = missing; fn f() { 1 } struct Inner { a: i32 }");
    assert_eq!(krate.items.len(), 5);
    let mut ctx = krate.build_ctx();
    // a field name that names no registered type
    assert_eq!(tyck_item(&mut ctx, &krate.items[0]), Err(ResolutionFailure::UnknownNamedType { item: "Point".to_string(), name: "x".to_string() }));
    assert_eq!(tyck_item(&mut ctx, &krate.items[1]), Ok(()));
    assert_eq!(
        tyck_item(&mut ctx, &krate.items[2]),
        Err(ResolutionFailure::UnresolvableItem { item: "S".to_string() })
    );
    // a struct moved into a function body
    let mut func = match &krate.items[3] {
        ItemKind::FunctionDef(f) => f.clone(),
        other => panic!("not a function: {:?}", other),
    };
    func.body.stmts.insert(0, StmtKind::Item(krate.items[4].clone()));
    let nested = ItemKind::FunctionDef(func);
    assert_eq!(tyck_item(&mut ctx, &nested), Err(ResolutionFailure::StructInLocalScope("Inner".to_string())));
}

#[test]
fn static_of_struct_type_settles() {
    let krate = parse("struct Point { x: i32 } static P: Point = Point { x: 1 }; static Q: Line = 1;");
    let mut ctx = krate.build_ctx();
    assert_eq!(tyck_item(&mut ctx, &krate.items[1]), Ok(()));
    // `Line` is compared by name with the literal's type and differs
    assert_eq!(
        tyck_item(&mut ctx, &krate.items[2]),
        Err(ResolutionFailure::Mismatch { item: "Q".to_string(), expected: named("Line"), found: unsized_int() })
    );
}

#[test]
fn static_without_assignment_is_malformed() {
    let krate = parse("static S: i32;");
    assert_eq!(krate.items.len(), 1);
    let mut ctx = TyCtx::new();
    assert_eq!(ctx.insert_item_glob(&krate.items[0]), Err(ResolutionFailure::MalformedItem));
}

#[test]
fn function_body_is_checked_in_own_scope() {
    let krate = parse("fn f() { let a = 1; let b = a; b }");
    let mut ctx = krate.build_ctx();
    assert_eq!(tyck_item(&mut ctx, &krate.items[0]), Ok(()));
    assert!(ctx.env.resolve_var(&"a".to_string()).is_none());
}

#[test]
fn could_be_matches_names_and_references() {
    let i32_name = named("i32");
    assert!(i32_name.could_be(&unsized_int()));
    assert!(unsized_int().could_be(&i32_name));
    assert!(!named("u8").could_be(&unsized_int()));
    assert!(named("()").could_be(&Ty::Empty));
    let point = Ty::Struct(StructTy { vis: Visibility::Public, name: "Point".to_string(), fields: vec![] });
    assert!(named("Point").could_be(&point));
    let reference = Ty::Ref(RefTy { lt: Some(Lifetime::Static), mutability: Mutability::Immut, ty: Box::new(named("Foo")) });
    assert!(named("&Foo").could_be(&reference));
    assert!(!named("Foo").could_be(&reference));
    let ref_point = Ty::Ref(RefTy { lt: None, mutability: Mutability::Mut, ty: Box::new(point) });
    assert!(named("&Point").could_be(&ref_point));
    assert!(!named("A").could_be(&named("B")));
    assert!(named("A").could_be(&named("A")));
    let tuple = Ty::Tuple(frontend::tyck::TupleTy {
        fields: vec![
            StructField { vis: Visibility::Private, name: "a".to_string(), ty: Ty::Empty },
            StructField { vis: Visibility::Private, name: "b".to_string(), ty: Ty::Empty },
        ],
    });
    assert!(named("(a,b)").could_be(&tuple));
}

#[test]
fn primitive_spellings() {
    assert_eq!(PrimitiveTy::UnsizedInt.to_string(), "i32");
    assert_eq!(PrimitiveTy::Bool.to_string(), "bool");
    assert_eq!(PrimitiveTy::MachineSizedInt(MachineSizedIntTy { unsigned: true }).to_string(), "usize");
    assert_eq!(PrimitiveTy::SizedInt(SizedIntTy { unsigned: true, exp: 1 }).to_string(), "u32");
    assert_eq!(PrimitiveTy::SizedInt(SizedIntTy { unsigned: false, exp: 3 }).to_string(), "i128");
    assert_eq!(PrimitiveTy::SizedFloat(SizedFloatTy { unsigned: false, exp: 0 }).to_string(), "f64");
    assert_eq!(SizedIntTy { unsigned: true, exp: 0 }.bits(), 16);
    assert_eq!(SizedFloatTy { unsigned: false, exp: 1 }.bits(), 128);
    assert_eq!(decimal_text(1024), "1024");
    assert_eq!(SizedIntTy { unsigned: true, exp: 59 }.bits(), 16usize << 59);
    let big = PrimitiveTy::SizedInt(SizedIntTy { unsigned: true, exp: 30 });
    assert_eq!(big.to_string(), "u17179869184");
    assert!(named("u17179869184").could_be(&Ty::Primitive(big)));
    assert_eq!(decimal_text(0), "0");
}

#[test]
fn duplicate_keeps_the_type() {
    let t = Ty::Ref(RefTy { lt: Some(Lifetime::Custom("a".to_string())), mutability: Mutability::Mut, ty: Box::new(named("T")) });
    let copy = t.clone();
    assert!(same_ty(&t, &copy));
    assert!(!same_ty(&t, &named("T")));
}
