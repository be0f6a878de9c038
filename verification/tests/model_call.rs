use palmshell::error::ShellError;
use palmshell::model_call::{answer_from, interpret, payload, Config, Reply};

fn config() -> Config {
    Config::new(
        "https://api.example.test/v1/chat".to_string(),
        "sk-test".to_string(),
        "model-x".to_string(),
    )
}

fn llm_error(result: Result<String, ShellError>) -> String {
    match result {
        Err(ShellError::LLMError(message)) => message,
        other => panic!("unexpected: {:?}", other),
    }
}

#[test]
fn config_keeps_what_it_was_given() {
    let config = config();
    assert_eq!(config.api_url(), "https://api.example.test/v1/chat");
    assert_eq!(config.api_key(), "sk-test");
    assert_eq!(config.model_name(), "model-x");
}

#[test]
fn authorization_is_bearer_and_key() {
    assert_eq!(config().authorization(), "Bearer sk-test");
}

#[test]
fn payload_wraps_two_literals() {
    assert_eq!(
        payload("\"m\"", "\"hi\""),
        "{\"model\":\"m\",\"messages\":[{\"role\":\"user\",\"content\":\"hi\"}]}"
    );
}

#[test]
fn request_body_quotes_model_and_message() {
    assert_eq!(
        config().request_body("hello"),
        "{\"model\":\"model-x\",\"messages\":[{\"role\":\"user\",\"content\":\"hello\"}]}"
    );
}

#[test]
fn request_body_escapes_special_characters() {
    let body = config().request_body("say \"hi\"\n\\ then\ttab");
    assert_eq!(
        body,
        "{\"model\":\"model-x\",\"messages\":[{\"role\":\"user\",\"content\":\"say \\\"hi\\\"\\n\\\\ then\\ttab\"}]}"
    );
}

#[test]
fn request_body_is_json_that_reads_back() {
    let message = "quotes \" and \u{1F680} and \u{7} control";
    let body = config().request_body(message);
    let value: serde_json::Value = serde_json::from_str(&body).unwrap();
    assert_eq!(value["model"].as_str(), Some("model-x"));
    assert_eq!(value["messages"].as_array().map(|a| a.len()), Some(1));
    assert_eq!(value["messages"][0]["role"].as_str(), Some("user"));
    assert_eq!(value["messages"][0]["content"].as_str(), Some(message));
}

#[test]
fn answer_is_framed() {
    assert_eq!(answer_from(Some("42".to_string())).unwrap(), "\nAI: 42\n");
    assert_eq!(answer_from(Some(String::new())).unwrap(), "\nAI: \n");
}

#[test]
fn missing_answer_is_unknown_api_error() {
    assert_eq!(llm_error(answer_from(None)), "Unknown API Error");
}

#[test]
fn successful_reply_gives_the_first_choice() {
    let body = r#"{"id":"1","choices":[{"index":0,"message":{"role":"assistant","content":"Hello \"you\"\n"}},{"message":{"content":"second"}}]}"#;
    assert_eq!(interpret(Reply::Answered(body.to_string())).unwrap(), "\nAI: Hello \"you\"\n\n");
}

#[test]
fn successful_reply_without_answer_is_an_error() {
    let bodies = [
        r#"{}"#,
        r#"{"choices":[]}"#,
        r#"{"choices":[{"message":{}}]}"#,
        r#"{"choices":[{"message":{"content":null}}]}"#,
        r#"{"choices":[{"message":{"content":7}}]}"#,
        r#"{"choices":{"0":{"message":{"content":"x"}}}}"#,
        r#"[{"message":{"content":"x"}}]"#,
        r#""just a string""#,
    ];
    for body in bodies {
        assert_eq!(
            llm_error(interpret(Reply::Answered(body.to_string()))),
            "Unknown API Error",
            "{}",
            body
        );
    }
}

#[test]
fn successful_reply_that_is_no_json_is_an_error() {
    for body in ["", "not json", "{\"choices\":", "<html></html>"] {
        assert_eq!(
            llm_error(interpret(Reply::Answered(body.to_string()))),
            "Unknown API Error",
            "{:?}",
            body
        );
    }
}

#[test]
fn refused_reply_is_api_error() {
    let reply = Reply::Refused("Ok(\"{\\\"error\\\":\\\"bad key\\\"}\")".to_string());
    assert_eq!(llm_error(interpret(reply)), "API Error: Ok(\"{\\\"error\\\":\\\"bad key\\\"}\")");
}

#[test]
fn unreachable_backend_is_connection_error() {
    let reply = Reply::Unreachable("error sending request".to_string());
    assert_eq!(llm_error(interpret(reply)), "Connection Error: error sending request");
}

#[test]
fn llm_errors_render_with_their_category() {
    let error = interpret(Reply::Unreachable("down".to_string())).unwrap_err();
    assert_eq!(error.report(), "psh: LLM Error: Connection Error: down");
}

fn content_literal(message: &str) -> String {
    let body = config().request_body(message);
    let head = "{\"model\":\"model-x\",\"messages\":[{\"role\":\"user\",\"content\":";
    assert!(body.starts_with(head) && body.ends_with("}]}"), "{}", body);
    body[head.len()..body.len() - 3].to_string()
}

#[test]
fn every_character_is_escaped_by_the_stated_rule() {
    let mut code: u32 = 0;
    while code <= 0x2FFF {
        if let Some(c) = char::from_u32(code) {
            let expected = match c {
                '"' => "\\\"".to_string(),
                '\\' => "\\\\".to_string(),
                '\u{8}' => "\\b".to_string(),
                '\t' => "\\t".to_string(),
                '\n' => "\\n".to_string(),
                '\u{C}' => "\\f".to_string(),
                '\r' => "\\r".to_string(),
                c if c < ' ' => format!("\\u00{:x}{:x}", code / 16, code % 16),
                c => c.to_string(),
            };
            assert_eq!(content_literal(&c.to_string()), format!("\"{}\"", expected), "U+{:04X}", code);
        }
        code += 1;
    }
    assert_eq!(content_literal("\u{1F680}\u{7F}\u{10FFFF}"), "\"\u{1F680}\u{7F}\u{10FFFF}\"");
    assert_eq!(content_literal(""), "\"\"");
    assert_eq!(content_literal("a\"b\u{1}c"), "\"a\\\"b\\u0001c\"");
}
