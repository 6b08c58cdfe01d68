use llm_inference_service::template::{apply_chat_template, same_text};
use llm_inference_service::wire::{
    classify_event, StreamEvent,
    done_event, error_event, frame_stream_token, frame_text, model_event, text_event, StreamToken,
};

#[test]
fn llama3_template() {
    assert_eq!(
        apply_chat_template("llama3", "Hi", None),
        "<|begin_of_text|><|start_header_id|>user<|end_header_id|>\n\nHi<|eot_id|><|start_header_id|>assistant<|end_header_id|>\n\n"
    );
    assert_eq!(
        apply_chat_template("llama3", "Hi", Some("Be brief".to_string())),
        "<|begin_of_text|><|start_header_id|>system<|end_header_id|>\n\nBe brief<|eot_id|><|start_header_id|>user<|end_header_id|>\n\nHi<|eot_id|><|start_header_id|>assistant<|end_header_id|>\n\n"
    );
}

#[test]
fn mistral_and_phi_templates() {
    assert_eq!(apply_chat_template("mistral", "Hi", None), "<s>[INST] Hi [/INST]");
    assert_eq!(
        apply_chat_template("mistral", "Hi", Some("S".to_string())),
        "<s>[INST] System: S\n\nUser: Hi [/INST]"
    );
    assert_eq!(apply_chat_template("phi", "Hi", None), "Instruct: Hi\nOutput:");
    assert_eq!(apply_chat_template("phi", "Hi", Some("S".to_string())), "Instruct: S Hi\nOutput:");
    assert_eq!(apply_chat_template("phi", "Hi", Some(String::new())), "Instruct: Hi\nOutput:");
}

#[test]
fn unknown_model_gets_raw_prompt() {
    assert_eq!(apply_chat_template("gpt", "Hi", Some("S".to_string())), "Hi");
}

#[test]
fn stream_events() {
    assert_eq!(model_event("phi"), "[MODEL: phi]");
    assert_eq!(done_event(), "[DONE]");
    assert_eq!(error_event("boom"), "[ERROR] boom");
    assert_eq!(text_event("he said \"hi\"\n"), "{\"text\":\"he said \\\"hi\\\"\\n\"}");
    assert_eq!(frame_text("\"x\""), "{\"text\":\"x\"}");
    assert_eq!(text_event("\u{1}\u{1f}\t\u{8}\u{c}\r\\/\u{e9}"), "{\"text\":\"\\u0001\\u001f\\t\\b\\f\\r\\\\/\u{e9}\"}");
    assert_eq!(frame_stream_token(&StreamToken::Token("ok".to_string())), "{\"text\":\"ok\"}");
    assert_eq!(frame_stream_token(&StreamToken::Done), "[DONE]");
    assert_eq!(frame_stream_token(&StreamToken::Error("e".to_string())), "[ERROR] e");
}

#[test]
fn clients_tell_sentinels_from_content() {
    assert_eq!(classify_event("[DONE]"), StreamEvent::Done);
    assert_eq!(classify_event("[MODEL: phi]"), StreamEvent::Model("phi".to_string()));
    assert_eq!(classify_event("[ERROR] boom"), StreamEvent::Error("boom".to_string()));
    assert_eq!(classify_event(&model_event("llama3")), StreamEvent::Model("llama3".to_string()));
    assert_eq!(classify_event(&error_event("x")), StreamEvent::Error("x".to_string()));
    assert_eq!(classify_event(&done_event()), StreamEvent::Done);
    let content = text_event("[DONE]");
    assert_eq!(classify_event(&content), StreamEvent::Content(content.clone()));
    assert_eq!(classify_event("[MODEL: x"), StreamEvent::Content("[MODEL: x".to_string()));
    assert_eq!(classify_event("[ERROR]"), StreamEvent::Content("[ERROR]".to_string()));
    assert_eq!(classify_event("hello"), StreamEvent::Content("hello".to_string()));
}

#[test]
fn text_comparison() {
    assert!(same_text("abc", "abc"));
    assert!(!same_text("abc", "abd"));
    assert!(!same_text("abc", "ab"));
    assert!(same_text("", ""));
}
