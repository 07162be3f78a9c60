use anseo_api::badge::{
    badge_base_url, build_embed_html, embed_snippet, is_badge_active, render_lapsed_svg, render_verified_svg,
    role_matches_variant, xml_escape, BadgeLicense, BadgeSize, BadgeVariant, BADGE_SCOPE_MICROCOPY,
};

#[test]
fn variant_parsing_is_case_insensitive_and_rejects_unknown() {
    assert_eq!(BadgeVariant::parse("brand"), Some(BadgeVariant::Brand));
    assert_eq!(BadgeVariant::parse("BRAND"), Some(BadgeVariant::Brand));
    assert_eq!(BadgeVariant::parse("source"), Some(BadgeVariant::Source));
    assert_eq!(BadgeVariant::parse("Source"), Some(BadgeVariant::Source));
    assert_eq!(BadgeVariant::parse("partner"), None);
    assert_eq!(BadgeVariant::parse(""), None);
}

#[test]
fn size_parsing_accepts_aliases_and_scales() {
    assert_eq!(BadgeSize::parse("1x"), Some(BadgeSize::Standard));
    assert_eq!(BadgeSize::parse(""), Some(BadgeSize::Standard));
    assert_eq!(BadgeSize::parse("2x"), Some(BadgeSize::Retina));
    assert_eq!(BadgeSize::parse("2"), Some(BadgeSize::Retina));
    assert_eq!(BadgeSize::parse("4x"), None);
    assert_eq!(BadgeSize::Standard.scale(), 1);
    assert_eq!(BadgeSize::Retina.scale(), 2);
}

#[test]
fn active_status_only_for_verified_or_claimed() {
    assert!(is_badge_active("verified"));
    assert!(is_badge_active("claimed"));
    assert!(!is_badge_active("revoked"));
    assert!(!is_badge_active("pending"));
    assert!(!is_badge_active("unclaimed"));
    assert!(!is_badge_active("conflict"));
    assert!(!is_badge_active("lapsed"));
}

#[test]
fn role_must_match_requested_variant() {
    assert!(
        is_badge_active("verified") && role_matches_variant("brand", BadgeVariant::Brand),
        "verified brand domain should serve a brand badge"
    );
    assert!(
        !(is_badge_active("verified") && role_matches_variant("source", BadgeVariant::Brand)),
        "verified source-only domain must NOT serve a brand badge"
    );
    assert!(is_badge_active("verified") && role_matches_variant("source", BadgeVariant::Source));
    assert!(is_badge_active("verified") && role_matches_variant("both", BadgeVariant::Brand));
    assert!(is_badge_active("verified") && role_matches_variant("both", BadgeVariant::Source));
    assert!(!(is_badge_active("revoked") && role_matches_variant("both", BadgeVariant::Brand)));
    assert!(!role_matches_variant("partner", BadgeVariant::Brand));
    assert!(!role_matches_variant("partner", BadgeVariant::Source));
}

#[test]
fn verified_svg_carries_scope_framing_and_no_quality_claim() {
    let svg = render_verified_svg("example.com", BadgeVariant::Brand, BadgeSize::Standard);
    assert!(svg.contains("not a product quality endorsement"));
    assert!(svg.contains("Domain-Verified Brand"));
    assert!(svg.contains("Anseo"));
    assert!(!svg.to_lowercase().contains("best"));
    assert!(!svg.to_lowercase().contains("rating"));
}

#[test]
fn svg_size_scales_pixel_dimensions_but_keeps_viewbox() {
    let one = render_verified_svg("example.com", BadgeVariant::Source, BadgeSize::Standard);
    let two = render_verified_svg("example.com", BadgeVariant::Source, BadgeSize::Retina);
    assert!(one.contains(r#"width="240" height="56""#));
    assert!(two.contains(r#"width="480" height="112""#));
    assert!(one.contains(r#"viewBox="0 0 240 56""#));
    assert!(two.contains(r#"viewBox="0 0 240 56""#));
}

#[test]
fn lapsed_svg_makes_no_verified_assertion() {
    let svg = render_lapsed_svg("example.com", BadgeSize::Standard);
    assert!(svg.contains("Verification lapsed"));
    assert!(svg.contains("no longer Domain-Verified"));
    assert!(!svg.contains("Domain-Verified Brand"));
    assert!(!svg.contains("Domain-Verified Source"));
}

#[test]
fn embed_html_has_anchor_img_alt_and_aria() {
    let html = build_embed_html(
        "https://benchmark.anseo.ai/v1/badge/example.com/brand",
        "https://benchmark.anseo.ai/brand/example.com",
        "Domain-Verified Brand — example.com — verified by Anseo",
        "Domain-Verified Brand verification on Anseo for example.com",
    );
    assert!(html.contains("<a href=\"https://benchmark.anseo.ai/brand/example.com\""));
    assert!(html.contains("aria-label=\""));
    assert!(html.contains("<img src=\"https://benchmark.anseo.ai/v1/badge/example.com/brand\""));
    assert!(html.contains("alt=\"Domain-Verified Brand — example.com — verified by Anseo\""));
    assert!(html.contains("rel=\"noopener\""));
}

#[test]
fn embed_html_escapes_injection_attempts() {
    let html = build_embed_html("https://x/v1/badge/a\"><script>/brand", "https://x/brand/a", "alt \"quote\"", "aria");
    assert!(!html.contains("<script>"));
    assert!(html.contains("&quot;"));
}

#[test]
fn license_terms_state_all_four_clauses_and_free() {
    let lic = BadgeLicense::default();
    assert!(lic.no_alteration.to_lowercase().contains("not be altered"));
    assert!(lic.mandatory_backlink.to_lowercase().contains("link back"));
    assert!(lic.validity.contains("12 months"));
    assert!(lic.revocable.to_lowercase().contains("revocable"));
    assert!(lic.price.to_lowercase().contains("free"));
}

#[test]
fn scope_microcopy_is_exact_nfr3_string() {
    assert_eq!(BADGE_SCOPE_MICROCOPY, "Verifies domain ownership — not a product quality endorsement.");
}

#[test]
fn badge_base_url_default_and_override() {
    assert_eq!(badge_base_url(None), "https://benchmark.anseo.ai");
    assert!(!badge_base_url(None).contains("opengeo.dev"));
    assert_eq!(badge_base_url(Some("https://staging.example.test/")), "https://staging.example.test");
    assert_eq!(badge_base_url(Some("   ")), "https://benchmark.anseo.ai");
}

#[test]
fn xml_escape_neutralises_markup() {
    assert_eq!(xml_escape("a<b>&\"'"), "a&lt;b&gt;&amp;&quot;&apos;");
    assert_eq!(xml_escape("plain"), "plain");
}

#[test]
fn embed_snippet_points_at_badge_and_verification_page() {
    let s = embed_snippet("https://benchmark.anseo.ai", "example.com", BadgeVariant::Brand, true);
    assert_eq!(s.badge_url, "https://benchmark.anseo.ai/v1/badge/example.com/brand");
    assert!(s.embed_html.contains("https://benchmark.anseo.ai/v1/badge/example.com/brand"));
    assert_eq!(s.verification_url, "https://benchmark.anseo.ai/brand/example.com");
}

#[test]
fn injected_text_adds_no_markup_characters() {
    let count = |s: &str, c: char| s.chars().filter(|x| *x == c).count();
    let plain = anseo_api::badge::build_embed_html("", "", "", "");
    let hostile = anseo_api::badge::build_embed_html("\"><script>", "x' onload='y", "<b>\"", "a>b<c");
    for c in ['<', '>', '"', '\''] {
        assert_eq!(count(&hostile, c), count(&plain, c), "{:?}", c);
    }
    assert_eq!((count(&plain, '<'), count(&plain, '>'), count(&plain, '"')), (3, 3, 16));
}
