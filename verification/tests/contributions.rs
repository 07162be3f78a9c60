use anseo_api::contributions::ResolutionDecision;

#[test]
fn decision_strings_are_stable() {
    assert_eq!(ResolutionDecision::KekMissing.as_str(), "kek_missing");
    assert_eq!(ResolutionDecision::SealRejected.as_str(), "seal_rejected");
    assert_eq!(ResolutionDecision::Unverified.as_str(), "unverified");
    assert_eq!(ResolutionDecision::UnknownToken.as_str(), "unknown_token");
    assert_eq!(ResolutionDecision::Resolved.as_str(), "resolved");
}
