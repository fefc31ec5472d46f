use frontend::ast::{Lifetime, OwnedTy, RefTy, Ty, TyKind, TyOrConstVal};
use frontend::attrs::Mutability;
use frontend::keyword::Keyword;
use frontend::span::{FixedTokenSpan, GenericSpan, ShrinkHiError, ShrinkLoError, Span};
use frontend::token::BinOp;

#[test]
fn shrinking_spans() {
    let mut sp = Span::multi_token(2, 5);
    assert!(sp.shrink_hi().is_ok());
    assert_eq!((sp.start, sp.end), (2, 4));
    assert!(sp.shrink_lo().is_ok());
    assert_eq!((sp.start, sp.end), (3, 4));
    let mut empty = Span::multi_token(7, 7);
    assert_eq!(empty.shrink_hi(), Err(ShrinkHiError(7)));
    assert_eq!(empty.shrink_lo(), Err(ShrinkLoError(7)));
}

#[test]
fn span_kinds() {
    let one = Span::single_token(4);
    assert_eq!((one.start, one.end), (4, 5));
    assert!(Span::none().is_none());
    assert!(!one.is_none());
    let arrow: FixedTokenSpan<2> = FixedTokenSpan::new(3);
    let sp = arrow.to_unfixed_span();
    assert_eq!((sp.start, sp.end), (3, 5));
    assert_eq!(GenericSpan::end(&arrow), 5);
}

#[test]
fn keywords_and_precedence() {
    assert_eq!(Keyword::from_str("struct"), Some(Keyword::Struct));
    assert_eq!(Keyword::from_str("const"), Some(Keyword::Const));
    assert_eq!(Keyword::from_str("structs"), None);
    assert_eq!(BinOp::Mul.precedence(), 10);
    assert_eq!(BinOp::Sub.precedence(), 5);
    assert_eq!(BinOp::OrOr.precedence(), 2);
    assert_eq!(BinOp::AddEq.precedence(), 1);
    assert!(frontend::token::TokenType::NumLit.is_buffered_token());
    assert!(!frontend::token::TokenType::Comma.is_buffered_token());
}

#[test]
fn type_spellings() {
    let inner = Ty {
        kind: TyKind::Owned(Box::new(OwnedTy {
            name: "Vec".to_string(),
            generics: vec![
                TyOrConstVal::Ty(Ty { kind: TyKind::Owned(Box::new(OwnedTy { name: "u8".to_string(), generics: vec![] })) }),
                TyOrConstVal::Ty(Ty { kind: TyKind::Owned(Box::new(OwnedTy { name: "A".to_string(), generics: vec![] })) }),
            ],
        })),
    };
    assert_eq!(inner.to_string(), "Vec<u8, A>");
    let reference = Ty {
        kind: TyKind::Ref(Box::new(RefTy { lt: Some(Lifetime::Static), mutability: Mutability::Mut, ty: Box::new(inner) })),
    };
    assert_eq!(reference.kind.simple_ty_name(), "& 'static mutVec");
    assert_eq!(reference.kind.get_generics().len(), 2);
    assert!(reference.kind.get_owned().is_none());
    assert_eq!(Lifetime::Inferred.to_string(), "_");
}
