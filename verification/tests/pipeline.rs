use handlematters::chomp;
use handlematters::error::{decimal_string, Error};
use handlematters::evaluate_context::{evaluate_context, script_sources};
use handlematters::extract_blocks::LinesWithEndings;
use handlematters::value::ContextValue;
use handlematters::{parse_context, parse_template, prepare, render};

#[test]
fn prepare_lists_scripts_in_order() {
    let plan = prepare(
        "--- context ---\na: echo 1\nb:\n  - echo 2\n  - echo 3\n--- template ---\nt\n",
    )
    .unwrap();

    assert_eq!(plan.scripts(), &vec![
        "echo 1".to_string(),
        "echo 2".to_string(),
        "echo 3".to_string(),
    ]);
}

#[test]
fn render_substitutes_the_captured_output() {
    let plan = prepare("--- context ---\nx: echo 42\n--- template ---\nx = {{x}}\n").unwrap();

    assert_eq!(plan.scripts(), &vec!["echo 42".to_string()]);

    let out = render(plan, &vec!["42\n".to_string()]).unwrap();

    assert_eq!(out, "x = 42\n");
}

#[test]
fn rendering_twice_is_byte_identical() {
    let doc = "--- context ---\nx: echo 42\n--- template ---\nx = {{x}}\n";
    let outputs = vec!["42\n".to_string()];

    let first = render(prepare(doc).unwrap(), &outputs).unwrap();
    let second = render(prepare(doc).unwrap(), &outputs).unwrap();

    assert_eq!(first, second);
}

#[test]
fn absent_context_is_a_null_context() {
    let plan = prepare("--- template ---\nhey\n").unwrap();

    assert_eq!(plan.context(), &ContextValue::Null);
    assert_eq!(plan.scripts().len(), 0);

    let out = render(plan, &vec![]).unwrap();

    assert_eq!(out, "hey\n");
}

#[test]
fn missing_template_fails_with_context_present() {
    let plan = prepare("--- context ---\ntrue\n").unwrap();
    let err = match render(plan, &vec![]) {
        Err(e) => e,
        Ok(_) => panic!("rendering without a template block must fail"),
    };

    assert_eq!(
        err.message(),
        "no template block found\n\nExample:\n\n    --- context ---\n    to: echo world\n\n    --- template ---\n    hello, {{to}}"
    );
}

#[test]
fn missing_template_fails_with_context_absent() {
    let plan = prepare("").unwrap();
    let err = match render(plan, &vec![]) {
        Err(e) => e,
        Ok(_) => panic!("rendering an empty document must fail"),
    };

    assert!(matches!(err, Error::MissingTemplate));
}

#[test]
fn bad_yaml_fails_at_prepare() {
    let err = match prepare("--- context ---\n&\n--- template ---\nt\n") {
        Err(e) => e,
        Ok(_) => panic!("an invalid context must not prepare"),
    };

    assert_eq!(
        err.message(),
        "error while parsing context as YAML\n\n--- context ---\n&"
    );
    assert!(err.cause().is_some());
}

#[test]
fn bad_template_fails_at_render() {
    let plan = prepare("--- context ---\ntrue\n--- template ---\n{{\n").unwrap();
    let err = match render(plan, &vec![]) {
        Err(e) => e,
        Ok(_) => panic!("an invalid template must not render"),
    };

    assert!(matches!(err, Error::TemplateCompile { .. }));
}

#[test]
fn script_failure_message_embeds_script_and_streams() {
    let err = Error::ScriptFailure {
        script: "echo world\necho foo >&2\nexit 42\n".to_string(),
        stdout: "world\n".to_string(),
        stderr: "foo\n".to_string(),
        cause: "process exited unsuccessfully: exit status: 42".to_string(),
    };

    assert_eq!(
        err.message(),
        "failed to execute script\n\n---- script ----\necho world\necho foo >&2\nexit 42\n\n---- stdout ----\nworld\n\n---- stderr ----\nfoo"
    );
    assert_eq!(
        err.cause().unwrap(),
        "process exited unsuccessfully: exit status: 42"
    );
}

#[test]
fn evaluation_replaces_leaves_and_keeps_keys() {
    let ctx = ContextValue::Mapping(vec![
        (
            ContextValue::Str("k".to_string()),
            ContextValue::Sequence(vec![
                ContextValue::Str("a".to_string()),
                ContextValue::Str("b".to_string()),
            ]),
        ),
        (ContextValue::Str("k2".to_string()), ContextValue::Str("c".to_string())),
        (ContextValue::Str("k3".to_string()), ContextValue::Bool(true)),
    ]);

    assert_eq!(
        script_sources(&ctx),
        vec!["a".to_string(), "b".to_string(), "c".to_string()]
    );

    let outputs = vec!["1\n".to_string(), "2".to_string(), "3\n\n".to_string()];
    let evaluated = evaluate_context(ctx, &outputs);

    assert_eq!(
        evaluated,
        ContextValue::Mapping(vec![
            (
                ContextValue::Str("k".to_string()),
                ContextValue::Sequence(vec![
                    ContextValue::Str("1".to_string()),
                    ContextValue::Str("2".to_string()),
                ]),
            ),
            (ContextValue::Str("k2".to_string()), ContextValue::Str("3\n".to_string())),
            (ContextValue::Str("k3".to_string()), ContextValue::Bool(true)),
        ])
    );
}

#[test]
fn a_bare_string_context_is_one_script() {
    let ctx = ContextValue::Str("echo hi".to_string());

    assert_eq!(script_sources(&ctx), vec!["echo hi".to_string()]);

    let evaluated = evaluate_context(ctx, &vec!["hi\n".to_string()]);

    assert_eq!(evaluated, ContextValue::Str("hi".to_string()));
}

#[test]
fn numbers_pass_through_untouched() {
    let plan = prepare("--- context ---\nn: 42\ns: echo hi\n--- template ---\n{{n}} {{s}}\n")
        .unwrap();

    assert_eq!(plan.scripts(), &vec!["echo hi".to_string()]);

    let out = render(plan, &vec!["hi\n".to_string()]).unwrap();

    assert_eq!(out, "42 hi\n");
}

#[test]
fn tagged_values_are_not_scripts() {
    let plan = prepare("--- context ---\nx: !keep echo hi\n--- template ---\nt\n").unwrap();

    assert_eq!(plan.scripts().len(), 0);
}

#[test]
fn chomp_removes_at_most_one_newline() {
    assert_eq!(chomp("a\n"), "a");
    assert_eq!(chomp("a"), "a");
    assert_eq!(chomp("a\n\n"), "a\n");
    assert_eq!(chomp(""), "");
    assert_eq!(chomp("\n"), "");
}

#[test]
fn decimal_writes_the_usual_digits() {
    assert_eq!(decimal_string(0), "0");
    assert_eq!(decimal_string(7), "7");
    assert_eq!(decimal_string(42), "42");
    assert_eq!(decimal_string(1203), "1203");
}

#[test]
fn parse_context_of_nothing_is_null() {
    let v = parse_context(None).unwrap();

    assert_eq!(v, ContextValue::Null);
}

#[test]
fn parse_template_accepts_a_plain_template() {
    let tpl = "hello, {{to}}".to_string();

    assert!(parse_template(Some(&tpl)).is_ok());
}

#[test]
fn parse_template_of_nothing_fails() {
    let err = match parse_template(None) {
        Err(e) => e,
        Ok(_) => panic!("no template text must not compile"),
    };

    assert!(matches!(err, Error::MissingTemplate));
}

#[test]
fn lines_keep_their_endings() {
    let mut it = LinesWithEndings::from("a\nb");

    assert_eq!(it.next(), Some("a\n"));
    assert_eq!(it.next(), Some("b"));
    assert_eq!(it.next(), None);

    let mut empty = LinesWithEndings::from("");

    assert_eq!(empty.next(), None);
}
