use gpt3_synth::escape::decode;
use gpt3_synth::escape::encode;
use gpt3_synth::escape::replace_all;
use gpt3_synth::extract::extract;
use gpt3_synth::prompt::build_prompt;
use gpt3_synth::prompt::build_stub;

#[test]
fn encode_escapes_all_three_characters() {
    let wire = encode("a\n\"b\"'c'");
    assert_eq!(wire, "a\\n\\\"b\\\"\\'c\\'");
}

#[test]
fn decode_unescapes_all_three_characters() {
    let text = decode("a\\n\\\"b\\\"\\'c\\'");
    assert_eq!(text, "a\n\"b\"'c'");
}

#[test]
fn round_trip_keeps_mixed_text() {
    let original = "fn greet() {\n    println!(\"it's me\");\n}\n";
    assert_eq!(decode(&encode(original)), original);
}

#[test]
fn round_trip_loses_backslash_n_pair() {
    // a literal backslash followed by the letter n is indistinguishable
    // from an escaped newline, so the round trip rewrites it
    let original = "a\\nb";
    assert_eq!(decode(&encode(original)), "a\nb");
}

#[test]
fn replace_all_scans_left_to_right() {
    assert_eq!(replace_all("aaa", "aa", "b"), "ba");
    assert_eq!(replace_all("- > - >", "- >", "->"), "-> ->");
    assert_eq!(replace_all("xyx", "y", "yy"), "xyyx");
}

#[test]
fn extract_stops_at_balanced_block() {
    let r = extract("int f(){return 1;} extra prose");
    assert_eq!(r.text, "int f(){return 1;}");
    assert!(r.closed);
}

#[test]
fn extract_handles_nested_braces() {
    let r = extract("{ if (x) { y(); } z(); }TAIL");
    assert_eq!(r.text, "{ if (x) { y(); } z(); }");
    assert!(r.closed);
}

#[test]
fn extract_returns_everything_without_braces() {
    let r = extract("return 1;");
    assert_eq!(r.text, "return 1;");
    assert!(!r.closed);
}

#[test]
fn extract_returns_everything_when_block_never_closes() {
    let r = extract("fn f() { loop {");
    assert_eq!(r.text, "fn f() { loop {");
    assert!(!r.closed);
}

#[test]
fn build_stub_separates_tokens_with_single_spaces() {
    let tokens = vec![
        "fn".to_string(),
        "f".to_string(),
        "(".to_string(),
        ")".to_string(),
    ];
    assert_eq!(build_stub(&tokens), "fn f ( )");
}

#[test]
fn build_stub_of_one_token_is_the_token() {
    let tokens = vec!["fn".to_string()];
    assert_eq!(build_stub(&tokens), "fn");
}

#[test]
fn build_stub_of_no_tokens_is_empty() {
    let tokens: Vec<String> = vec![];
    assert_eq!(build_stub(&tokens), "");
}

#[test]
fn prompt_normalizes_spaced_arrow() {
    let p = build_prompt("adds two numbers", "fn add(a: i32, b: i32) - > i32");
    assert_eq!(
        p,
        "// A rust function that adds two numbers\\nfn add(a: i32, b: i32) -> i32"
    );
    assert!(p.contains("-> i32"));
}
