use frontend::diagnostics::{DiagnosticBuilder, DiagnosticItem, DiagnosticPart, DiagnosticSubBuilder};
use frontend::span::Span;

#[test]
fn rendering_points_at_the_span() {
    let mut sub = DiagnosticSubBuilder::new("let x = 1;".to_string());
    assert!(sub.is_empty());
    sub.error_spanned("bad name".to_string(), Span::multi_token(4, 5)).note("hint".to_string());
    assert!(!sub.is_empty());
    assert_eq!(sub.render(), "let x = 1;\n    ^\n    bad name\nnote: hint\n");
}

#[test]
fn unspanned_items_render_without_carets() {
    let mut sub = DiagnosticSubBuilder::new("a".to_string());
    sub.warn("careful".to_string());
    assert_eq!(sub.render(), "a\ncareful\n");
    let item = DiagnosticItem::Suggestion("try b".to_string(), Span::multi_token(0, 1));
    assert_eq!(item.to_string(&"a".to_string()), "a\n^\ntry b\n");
}

#[test]
fn built_diagnostic_becomes_a_part() {
    let mut builder = DiagnosticBuilder::new();
    assert!(builder.is_empty());
    let sub = DiagnosticSubBuilder::from_input_and_err("x".to_string(), "oops".to_string());
    let builder = sub.build(&mut builder);
    assert!(!builder.is_empty());
    let part = DiagnosticPart::new("y".to_string(), vec![DiagnosticItem::Note("n".to_string())]);
    assert_eq!(part.render(), "note: n\n");
    assert!(!part.is_empty());
}
