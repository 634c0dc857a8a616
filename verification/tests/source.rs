use handlematters::source::{extract_blocks, Source};
use handlematters::value::ContextValue;

#[test]
fn test_parse() {
    let (ctx, tpl) = extract_blocks(
        "this is comment\n--- context ---\nx: 42\n--- template ---\nhello\n",
    );

    assert_eq!(ctx.unwrap(), "x: 42\n");
    assert_eq!(tpl.unwrap(), "hello\n");
}

#[test]
fn source_test_empty() {
    let (ctx, tpl) = extract_blocks("");

    assert_eq!(ctx, None);
    assert_eq!(tpl, None);
}

#[test]
fn source_test_no_context() {
    let (ctx, tpl) = extract_blocks("--- template ---\nhello\n");

    assert_eq!(ctx, None);
    assert_eq!(tpl.unwrap(), "hello\n");
}

#[test]
fn source_test_no_template() {
    let (ctx, tpl) = extract_blocks("--- context ---\nx: 42\n");

    assert_eq!(ctx.unwrap(), "x: 42\n");
    assert_eq!(tpl, None);
}

#[test]
fn source_test_marker_in_template() {
    let (ctx, tpl) = extract_blocks(
        "--- template ---\nhello\n--- context ---\nx: 42\n--- template ---\nworld\n",
    );

    assert_eq!(ctx, None);

    assert_eq!(
        tpl.unwrap(),
        "hello\n--- context ---\nx: 42\n--- template ---\nworld\n"
    );
}

#[test]
fn test_no_marker() {
    let (ctx, tpl) = extract_blocks("hi");

    assert_eq!(ctx, None);
    assert_eq!(tpl, None);
}

#[test]
fn source_parse_reads_context_and_template() {
    let src = Source::parse("--- context ---\nx: 42\n--- template ---\nhello\n").unwrap();

    let expected = ContextValue::Mapping(vec![(
        ContextValue::Str("x".to_string()),
        ContextValue::Number(serde_yaml::Number::from(42)),
    )]);
    assert_eq!(src.context, expected);
}

#[test]
fn source_parse_without_context_is_null() {
    let src = Source::parse("--- template ---\nhello\n").unwrap();

    assert_eq!(src.context, ContextValue::Null);
}

#[test]
fn source_parse_demands_a_template() {
    let err = match Source::parse("--- context ---\ntrue\n") {
        Err(e) => e,
        Ok(_) => panic!("a document without a template block must not parse"),
    };

    assert!(err.message().starts_with("no template block found"));
}

#[test]
fn source_parse_rejects_bad_yaml() {
    let err = match Source::parse("--- context ---\n&\n--- template ---\nhello\n") {
        Err(e) => e,
        Ok(_) => panic!("an invalid context must not parse"),
    };

    assert_eq!(
        err.message(),
        "error while parsing context as YAML\n\n--- context ---\n&"
    );
    assert!(err.cause().is_some());
}

#[test]
fn source_parse_rejects_bad_template() {
    let err = match Source::parse("--- context ---\ntrue\n--- template ---\n{{\n") {
        Err(e) => e,
        Ok(_) => panic!("an invalid template must not compile"),
    };

    assert!(matches!(err, handlematters::error::Error::TemplateCompile { .. }));
}
