use anseo_api::leaderboard::{
    category_clause, feature_disabled, feature_flag_on, leaderboard_days, LeaderboardQuery, VERIFIED_CHIP_TOOLTIP,
};

#[test]
fn flag_on_with_1() {
    let enabled = |val: &str| feature_flag_on(Some(val));
    assert!(enabled("1"));
    assert!(enabled("true"));
    assert!(enabled("yes"));
    assert!(!enabled("false"));
    assert!(!enabled(""));
}

#[test]
fn flag_off_then_on() {
    assert!(!feature_flag_on(None));
    assert!(feature_flag_on(Some("true")));
    assert!(feature_flag_on(Some("TRUE")));
}

#[test]
fn verified_chip_tooltip_exact_text() {
    assert_eq!(VERIFIED_CHIP_TOOLTIP, "Domain ownership verified — not a quality endorsement.");
}

#[test]
fn category_clause_doubles_quotes() {
    assert_eq!(category_clause(""), "TRUE");
    assert_eq!(category_clause("software"), "category = 'software'");
    assert_eq!(category_clause("o'reilly"), "category = 'o''reilly'");
}

#[test]
fn leaderboard_window_is_clamped() {
    assert_eq!(leaderboard_days(&LeaderboardQuery { category: None, days: None }), 30);
    assert_eq!(leaderboard_days(&LeaderboardQuery { category: None, days: Some(0) }), 1);
    assert_eq!(leaderboard_days(&LeaderboardQuery { category: None, days: Some(9999) }), 365);
    assert_eq!(feature_disabled().error, "feature_disabled");
}
