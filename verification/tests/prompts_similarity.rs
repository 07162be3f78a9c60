use anseo_api::prompts_similarity::{
    similarity_limit, similarity_text_ok, DEFAULT_LIMIT, DEFAULT_THRESHOLD_HUNDREDTHS, MAX_INPUT_CHARS, MAX_LIMIT,
};

#[test]
fn limit_default_is_under_cap() {
    assert!(DEFAULT_LIMIT <= MAX_LIMIT);
}

#[test]
fn threshold_default_in_unit_interval() {
    let threshold = DEFAULT_THRESHOLD_HUNDREDTHS as f64 / 100.0;
    assert!((0.0..=1.0).contains(&threshold));
}

#[test]
fn similarity_query_limits() {
    assert_eq!(similarity_limit(None), Some(10));
    assert_eq!(similarity_limit(Some(500)), Some(50));
    assert_eq!(similarity_limit(Some(0)), None);
    assert!(!similarity_text_ok(""));
    assert!(similarity_text_ok("hello"));
    assert!(!similarity_text_ok(&"x".repeat(MAX_INPUT_CHARS + 1)));
}
