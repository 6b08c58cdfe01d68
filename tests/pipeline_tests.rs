use llm_inference_service::pipeline::stop_token_ids;
use tokenizers::Tokenizer;

fn word_tokenizer(vocab: &str) -> Tokenizer {
    let json = format!(
        "{{\"version\":\"1.0\",\"truncation\":null,\"padding\":null,\"added_tokens\":[],\"normalizer\":null,\"pre_tokenizer\":{{\"type\":\"Whitespace\"}},\"post_processor\":null,\"decoder\":null,\"model\":{{\"type\":\"WordLevel\",\"vocab\":{},\"unk_token\":\"[UNK]\"}}}}",
        vocab
    );
    Tokenizer::from_bytes(json.as_bytes()).unwrap()
}

#[test]
fn stop_set_uses_the_tokenizer_end_of_sequence() {
    let t = word_tokenizer("{\"[UNK]\":0,\"a\":1,\"</s>\":7}");
    let stops = stop_token_ids(&t);
    assert_eq!(stops.eos, 7);
    assert!(stops.contains(7) && stops.contains(50256));
    assert!(!stops.contains(2));
}

#[test]
fn stop_set_falls_back_without_end_of_sequence() {
    let t = word_tokenizer("{\"[UNK]\":0,\"a\":1}");
    assert_eq!(stop_token_ids(&t).eos, 2);
}
