use gpt3_synth::errors::SynthesisError;
use gpt3_synth::pipeline::begin_synthesis;
use gpt3_synth::pipeline::begin_tests_stage;
use gpt3_synth::pipeline::finish_stage;
use gpt3_synth::pipeline::HttpOutcome;
use gpt3_synth::request::build_request_body;
use gpt3_synth::request::endpoint_url;
use gpt3_synth::response::extract_choice_text;

fn signature_tokens() -> Vec<String> {
    [
        "fn", "add", "(", "a", ":", "i32", ",", "b", ":", "i32", ")", "-", ">", "i32",
    ]
    .iter()
    .map(|t| t.to_string())
    .collect()
}

#[test]
fn endpoint_is_the_completion_url() {
    assert_eq!(
        endpoint_url(),
        "https://api.openai.com/v1/engines/davinci-codex/completions"
    );
}

#[test]
fn request_body_embeds_prompt_and_fixed_parameters() {
    let body = build_request_body("P");
    assert_eq!(
        body,
        "{\"prompt\": \"P\", \"temperature\": 0, \"max_tokens\": 320, \"top_p\": 1, \"frequency_penalty\": 0, \"best_of\": 3, \"presence_penalty\": 0}"
    );
}

#[test]
fn missing_credential_short_circuits() {
    let r = begin_synthesis("adds two numbers", &signature_tokens(), None);
    assert!(matches!(r, Err(SynthesisError::MissingCredential)));
}

#[test]
fn present_credential_prepares_one_request() {
    let key = "test-credential".to_string();
    let req = begin_synthesis("adds two numbers", &signature_tokens(), Some(&key)).unwrap();
    assert_eq!(
        req.prompt,
        "// A rust function that adds two numbers\\nfn add ( a : i32 , b : i32 ) -> i32"
    );
    assert_eq!(req.body, build_request_body(&req.prompt));
    assert_eq!(req.bearer, key);
}

#[test]
fn status_failure_surfaces_code_and_text() {
    let r = finish_stage("p", HttpOutcome::Status(401, "Unauthorized".to_string()));
    match r {
        Err(SynthesisError::Status(code, text)) => {
            assert_eq!(code, 401);
            assert_eq!(text, "Unauthorized");
        }
        _ => panic!("expected a status error"),
    }
}

#[test]
fn transport_failure_surfaces_description() {
    let r = finish_stage("p", HttpOutcome::Transport("connection refused".to_string()));
    match r {
        Err(SynthesisError::Transport(message)) => {
            assert_eq!(message, "connection refused");
        }
        _ => panic!("expected a transport error"),
    }
}

#[test]
fn invalid_json_is_malformed() {
    let r = finish_stage("p", HttpOutcome::Success("not json".to_string()));
    assert!(matches!(r, Err(SynthesisError::MalformedResponse)));
}

#[test]
fn missing_choice_text_is_malformed() {
    let r = finish_stage("p", HttpOutcome::Success("{\"choices\":[]}".to_string()));
    assert!(matches!(r, Err(SynthesisError::MalformedResponse)));
}

#[test]
fn non_string_choice_text_is_malformed() {
    let r = finish_stage(
        "p",
        HttpOutcome::Success("{\"choices\":[{\"text\":5}]}".to_string()),
    );
    assert!(matches!(r, Err(SynthesisError::MalformedResponse)));
}

#[test]
fn choice_text_is_reserialized_and_stripped() {
    let t = extract_choice_text("{\"choices\":[{\"text\":\"a\\nb\"}]}").unwrap();
    // the field is taken in its serialized form: the real newline of
    // the parsed value is re-escaped, only the quotes are stripped
    assert_eq!(t, "a\\nb");
}

#[test]
fn successful_stage_synthesizes_source() {
    let key = "test-credential".to_string();
    let req = begin_synthesis("adds two numbers", &signature_tokens(), Some(&key)).unwrap();
    let response = "{\"choices\":[{\"text\":\" { a + b }\\nrest of the prose\"}]}";
    let s = finish_stage(&req.prompt, HttpOutcome::Success(response.to_string())).unwrap();
    assert_eq!(
        s.source,
        "// A rust function that adds two numbers\nfn add ( a : i32 , b : i32 ) -> i32 { a + b }"
    );
    assert!(s.closed);
}

#[test]
fn successful_stage_unescapes_quotes() {
    let key = "test-credential".to_string();
    let req = begin_synthesis("greets", &vec![], Some(&key)).unwrap();
    let response = "{\"choices\":[{\"text\":\"fn g() { print(\\\"hi\\\"); }\"}]}";
    let s = finish_stage(&req.prompt, HttpOutcome::Success(response.to_string())).unwrap();
    assert_eq!(
        s.source,
        "// A rust function that greets\nfn g() { print(\"hi\"); }"
    );
    assert!(s.closed);
}

#[test]
fn stage_without_braces_is_degenerate() {
    let key = "test-credential".to_string();
    let req = begin_synthesis("answers", &vec![], Some(&key)).unwrap();
    let response = "{\"choices\":[{\"text\":\"just prose, no code\"}]}";
    let s = finish_stage(&req.prompt, HttpOutcome::Success(response.to_string())).unwrap();
    assert_eq!(
        s.source,
        "// A rust function that answers\njust prose, no code"
    );
    assert!(!s.closed);
}

#[test]
fn chained_synthesis_prepares_two_requests_in_order() {
    let key = "test-credential".to_string();
    let first = begin_synthesis("adds two numbers", &signature_tokens(), Some(&key)).unwrap();
    let response1 = "{\"choices\":[{\"text\":\" { a + b }\\nrest\"}]}";
    let function = finish_stage(&first.prompt, HttpOutcome::Success(response1.to_string()))
        .unwrap();

    let second = begin_tests_stage(&function.source, &key);
    assert!(second.prompt.contains("tests for the function"));
    assert!(second.body.contains("tests for the function"));
    assert_eq!(
        second.prompt,
        "// A rust function that adds two numbers\\nfn add ( a : i32 , b : i32 ) -> i32 { a + b }\\n// 5 tests for the function"
    );
    assert_eq!(second.body, build_request_body(&second.prompt));
    assert_eq!(second.bearer, key);

    let response2 =
        "{\"choices\":[{\"text\":\"fn t1() { assert_eq(add(1, 2), 3); }\\nmore prose\"}]}";
    let tests = finish_stage(&second.prompt, HttpOutcome::Success(response2.to_string()))
        .unwrap();
    assert_eq!(
        tests.source,
        "// A rust function that adds two numbers\nfn add ( a : i32 , b : i32 ) -> i32 { a + b }\n// 5 tests for the functionfn t1() { assert_eq(add(1, 2), 3); }"
    );
    assert!(tests.closed);
}
