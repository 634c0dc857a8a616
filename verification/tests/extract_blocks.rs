use handlematters::error::Error;
use handlematters::extract_blocks::{extract_blocks, BlockRegistry};

fn extract_blocks_from_str(s: &str) -> Result<BlockRegistry, Error> {
    extract_blocks(s)
}

#[test]
fn test_extract() {
    let map = extract_blocks_from_str(
        "this is comment\n--- context ---\nx: 42\n--- template ---\nhello\n",
    )
    .unwrap();

    assert_eq!(map.context().unwrap(), "x: 42\n");
    assert_eq!(map.template().unwrap(), "hello\n");
}

#[test]
fn extract_blocks_test_empty() {
    let map = extract_blocks_from_str("").unwrap();

    assert_eq!(map.context(), None);
    assert_eq!(map.template(), None);
}

#[test]
fn extract_blocks_test_no_context() {
    let map = extract_blocks_from_str("--- template ---\nhello\n").unwrap();

    assert_eq!(map.context(), None);
    assert_eq!(map.template().unwrap(), "hello\n");
}

#[test]
fn extract_blocks_test_no_template() {
    let map = extract_blocks_from_str("--- context ---\nx: 42\n").unwrap();

    assert_eq!(map.context().unwrap(), "x: 42\n");
    assert_eq!(map.template(), None);
}

#[test]
fn extract_blocks_test_marker_in_template() {
    let map = extract_blocks_from_str(
        "--- template ---\nhello\n--- context ---\nx: 42\n--- template ---\nworld\n",
    )
    .unwrap();

    assert_eq!(map.context(), None);

    assert_eq!(
        map.template().unwrap(),
        "hello\n--- context ---\nx: 42\n--- template ---\nworld\n"
    );
}

#[test]
fn test_eol() {
    let map = extract_blocks_from_str("--- template ---\nhello\n").unwrap();

    assert!(map.template().unwrap().ends_with("hello\n"));

    let map = extract_blocks_from_str("--- template ---\nhello").unwrap();

    assert!(map.template().unwrap().ends_with("hello"));
}

#[test]
fn test_no_block() {
    let map = extract_blocks_from_str("hi").unwrap();

    assert_eq!(map.context(), None);
    assert_eq!(map.template(), None);
}

#[test]
fn test_duplicate_block() {
    let map = extract_blocks_from_str("--- context ---\n--- context ---\n");

    assert_eq!(
        map.unwrap_err().message(),
        "duplicate block name `context` at line 2"
    );
}

#[test]
fn test_unknown_block() {
    let map = extract_blocks_from_str("--- foo ---\n");

    assert_eq!(map.unwrap_err().message(), "unknown block name `foo` at line 1");
}

#[test]
fn test_empty_block_name() {
    let map = extract_blocks_from_str("---  ---\n");

    assert_eq!(map.unwrap_err().message(), "unknown block name `` at line 1");
}

#[test]
fn two_blocks_come_back_verbatim() {
    let map = extract_blocks_from_str("--- context ---\nX\n--- template ---\nY\n").unwrap();

    assert_eq!(map.context().unwrap(), "X\n");
    assert_eq!(map.template().unwrap(), "Y\n");
}

#[test]
fn unknown_block_on_a_late_line() {
    let map = extract_blocks_from_str(
        "1\n2\n3\n4\n5\n6\n7\n8\n9\n10\n11\n--- foo ---\n",
    );

    assert_eq!(map.unwrap_err().message(), "unknown block name `foo` at line 12");
}

#[test]
fn marker_with_trailing_whitespace() {
    let map = extract_blocks_from_str("--- template --- \t\nhello\n").unwrap();

    assert_eq!(map.template().unwrap(), "hello\n");
}

#[test]
fn context_reopened_after_template_is_literal() {
    let map = extract_blocks_from_str(
        "--- context ---\nx: 1\n--- template ---\n--- context ---\n",
    )
    .unwrap();

    assert_eq!(map.context().unwrap(), "x: 1\n");
    assert_eq!(map.template().unwrap(), "--- context ---\n");
}

#[test]
fn registry_starts_empty() {
    let map = BlockRegistry::new();

    assert_eq!(map.context(), None);
    assert_eq!(map.template(), None);
}
