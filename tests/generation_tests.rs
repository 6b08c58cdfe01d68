use llm_inference_service::generation::{
    max_tokens_or_default, GenerationError, GenerationSession, Phase, StopTokens, DEFAULT_MAX_TOKENS,
};
use llm_inference_service::pipeline::{resolve_seed, response_of, seed_from_millis};
use llm_inference_service::stream::DeltaTracker;

fn stops() -> StopTokens {
    StopTokens::from_eos(Some(2))
}

#[test]
fn partial_decodes_emit_only_new_text() {
    let mut t = DeltaTracker::new("");
    assert_eq!(t.observe("hello wor"), Some("hello wor".to_string()));
    assert_eq!(t.observe("hello world"), Some("ld".to_string()));
    assert_eq!(t.observe("hello world"), None);
    assert_eq!(t.emitted_len(), 11);
}

#[test]
fn prompt_decode_is_never_emitted() {
    let mut t = DeltaTracker::new("Say hi:");
    assert_eq!(t.observe("Say hi:"), None);
    assert_eq!(t.observe("Say hi: h\u{e9}"), Some(" h\u{e9}".to_string()));
    assert_eq!(t.observe("Say hi: h\u{e9}llo"), Some("llo".to_string()));
}

#[test]
fn deltas_concatenate_to_final_suffix() {
    let decodes = ["ab", "abc", "abc", "abcdé", "abcdéf"];
    let mut t = DeltaTracker::new("a");
    let mut out = String::new();
    for d in decodes {
        if let Some(x) = t.observe(d) {
            out.push_str(&x);
        }
    }
    assert_eq!(out, "bcdéf");
}

fn run_steps(s: &mut GenerationSession, steps: &[(u32, &str)], fail_at: Option<usize>) -> Vec<String> {
    let mut sent = Vec::new();
    for (k, (tok, text)) in steps.iter().enumerate() {
        if !s.is_running() {
            break;
        }
        s.push_token(*tok);
        let delivered = match s.observe(text) {
            Some(d) => {
                if fail_at == Some(k) {
                    false
                } else {
                    sent.push(d);
                    true
                }
            }
            None => true,
        };
        s.settle(delivered);
    }
    sent
}

#[test]
fn stop_token_ends_generation_early() {
    let mut s = GenerationSession::new(vec![1, 5], "", 5, stops()).unwrap();
    let steps = [(10, "a"), (11, "ab"), (2, "ab"), (12, "abc"), (13, "abcd")];
    let sent = run_steps(&mut s, &steps, None);
    assert_eq!(s.phase_now(), Phase::StopToken);
    assert_eq!(s.tokens_generated(), 3);
    assert_eq!(sent, vec!["a".to_string(), "b".to_string()]);
    assert_eq!(s.text(), "ab");
    assert_eq!(s.token_ids(), &vec![1, 5, 10, 11, 2]);
}

#[test]
fn token_limit_ends_generation() {
    let mut s = GenerationSession::new(vec![1], "", 2, stops()).unwrap();
    run_steps(&mut s, &[(10, "a"), (11, "ab"), (12, "abc")], None);
    assert_eq!(s.phase_now(), Phase::TokenLimit);
    assert_eq!(s.tokens_generated(), 2);
}

#[test]
fn lost_consumer_cancels_within_one_step() {
    let mut s = GenerationSession::new(vec![1], "", 10, stops()).unwrap();
    let steps = [(10, "a"), (11, "ab"), (12, "abc"), (13, "abcd")];
    let sent = run_steps(&mut s, &steps, Some(2));
    assert_eq!(sent.len(), 2);
    assert_eq!(s.phase_now(), Phase::Cancelled);
    assert_eq!(s.tokens_generated(), 3);
    assert!(!s.is_running());
}

#[test]
fn first_step_gets_whole_prompt_then_one_token() {
    let mut s = GenerationSession::new(vec![7, 8, 9], "xyz", 4, stops()).unwrap();
    assert_eq!(s.context_start(), 0);
    s.push_token(20);
    assert_eq!(s.observe("xyz!"), Some("!".to_string()));
    s.settle(true);
    assert_eq!(s.context_start(), 3);
}

#[test]
fn zero_limit_and_empty_prompt() {
    let s = GenerationSession::new(vec![1], "", 0, stops()).unwrap();
    assert_eq!(s.phase_now(), Phase::TokenLimit);
    assert_eq!(s.tokens_generated(), 0);
    assert!(matches!(
        GenerationSession::new(vec![], "", 5, stops()),
        Err(GenerationError::Tokenization(_))
    ));
}

#[test]
fn stop_set_and_defaults() {
    let s = StopTokens::from_eos(None);
    assert_eq!(s.eos, 2);
    assert!(s.contains(2) && s.contains(50256) && s.contains(128001) && s.contains(128009));
    assert!(!s.contains(3));
    assert!(StopTokens::from_eos(Some(32000)).contains(32000));
    assert_eq!(max_tokens_or_default(None), DEFAULT_MAX_TOKENS);
    assert_eq!(DEFAULT_MAX_TOKENS, 1024);
    assert_eq!(max_tokens_or_default(Some(5)), 5);
    assert_eq!(resolve_seed(Some(42)), 42);
}

#[test]
fn response_holds_all_emitted_text() {
    let mut s = GenerationSession::new(vec![1], "P", 3, stops()).unwrap();
    run_steps(&mut s, &[(10, "Pa"), (11, "Pab"), (12, "Pabc")], None);
    assert_eq!(s.text(), "abc");
    let r = response_of(&s);
    assert_eq!(r.text, "abc");
    assert_eq!(r.tokens_generated, 3);
}

#[test]
fn clock_seed_keeps_low_bits() {
    assert_eq!(seed_from_millis(Some(1_700_000_000_123)), 1_700_000_000_123);
    assert_eq!(seed_from_millis(Some((5u128 << 64) + 9)), 9);
    assert_eq!(seed_from_millis(None), 0);
}
