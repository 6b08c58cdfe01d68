use llm_inference_service::device::{capacity_from_report, Architecture, DEFAULT_CAPACITY_MB};

#[test]
fn capacity_is_total_less_margin() {
    assert_eq!(capacity_from_report(Some(b"8192\n")), 7168);
    assert_eq!(capacity_from_report(Some(b"  24576 \r\n8192\n")), 23552);
}

#[test]
fn capacity_falls_back_when_query_fails() {
    assert_eq!(capacity_from_report(None), DEFAULT_CAPACITY_MB);
    assert_eq!(capacity_from_report(Some(b"")), 6976);
    assert_eq!(capacity_from_report(Some(b"N/A\n")), 6976);
    assert_eq!(capacity_from_report(Some(b"81 92\n")), 6976);
    assert_eq!(capacity_from_report(Some(b"99999999999999999999\n")), 6976);
}

#[test]
fn capacity_saturates_below_margin() {
    assert_eq!(capacity_from_report(Some(b"512")), 0);
    assert_eq!(capacity_from_report(Some(b"18446744073709551615")), 18446744073709551615 - 1024);
}

#[test]
fn architecture_tags() {
    assert_eq!(Architecture::parse("phi"), Some(Architecture::Phi));
    assert_eq!(Architecture::parse("mistral"), Some(Architecture::Mistral));
    assert_eq!(Architecture::parse("llama3"), Some(Architecture::Llama3));
    assert_eq!(Architecture::parse("llama"), None);
    assert_eq!(Architecture::parse(""), None);
}
