//! The verified-badge program: `GET /v1/badge/:domain/:variant` (live SVG)
//! and `GET /v1/badge/:domain/:variant/embed` (embed snippet, license and
//! scope copy).
//!
//! The badge signals domain-ownership verification only, never a quality
//! endorsement; a verified SVG needs both an active claim and a role that
//! authorizes the requested variant, and anything else answers 410 with the
//! lapsed image. Rendering is pure string assembly; every value placed in
//! SVG or HTML is XML-escaped.

use vstd::prelude::*;

use crate::text::{
    ascii_lower, chars_of, dec, lower_chars, push_dec, push_str, push_vec, str_eq, string_of, trim, trimmed,
};

verus! {

/// Default public origin that serves badge images.
pub const DEFAULT_BADGE_BASE_URL: &'static str = "https://benchmark.anseo.ai";

/// Scope microcopy; it must appear adjacent to every badge instance.
pub const BADGE_SCOPE_MICROCOPY: &'static str = "Verifies domain ownership — not a product quality endorsement.";

/// Cache lifetime of served badge images, in seconds; bounds how long a
/// revoked badge can keep showing as verified.
pub const BADGE_CACHE_MAX_AGE_SECS: u64 = 300;

// ---------------------------------------------------------------------------
// XML escaping
// ---------------------------------------------------------------------------

/// The escaped form of one character.
pub open spec fn xml_entity(c: char) -> Seq<char> {
    if c == '&' {
        "&amp;"@
    } else if c == '<' {
        "&lt;"@
    } else if c == '>' {
        "&gt;"@
    } else if c == '"' {
        "&quot;"@
    } else if c == '\'' {
        "&apos;"@
    } else {
        seq![c]
    }
}

/// `s` with `&`, `<`, `>`, `"` and `'` replaced by their XML entities.
pub open spec fn xml_escaped(s: Seq<char>) -> Seq<char>
    decreases s.len(),
{
    if s.len() == 0 {
        Seq::empty()
    } else {
        xml_escaped(s.drop_last()) + xml_entity(s.last())
    }
}

/// A character that would end a text node or an attribute value.
pub open spec fn is_markup_char(c: char) -> bool {
    c == '<' || c == '>' || c == '"' || c == '\''
}

/// How many times `c` occurs in `s`.
pub open spec fn count_of(s: Seq<char>, c: char) -> nat
    decreases s.len(),
{
    if s.len() == 0 {
        0
    } else {
        count_of(s.drop_last(), c) + if s.last() == c { 1nat } else { 0nat }
    }
}

proof fn lemma_count_concat(x: Seq<char>, y: Seq<char>, c: char)
    ensures
        count_of(x + y, c) == count_of(x, c) + count_of(y, c),
    decreases y.len(),
{
    if y.len() == 0 {
        assert(x + y =~= x);
    } else {
        assert((x + y).drop_last() =~= x + y.drop_last());
        lemma_count_concat(x, y.drop_last(), c);
    }
}

proof fn lemma_count_absent(s: Seq<char>, c: char)
    requires
        forall|i: int| 0 <= i < s.len() ==> #[trigger] s[i] != c,
    ensures
        count_of(s, c) == 0,
    decreases s.len(),
{
    if s.len() > 0 {
        assert forall|i: int| 0 <= i < s.drop_last().len() implies #[trigger] s.drop_last()[i] != c by {
            assert(s.drop_last()[i] == s[i]);
        }
        lemma_count_absent(s.drop_last(), c);
        assert(s.last() == s[s.len() - 1]);
    }
}

/// Escaped text holds no markup character.
proof fn lemma_escaped_count(s: Seq<char>, c: char)
    requires
        is_markup_char(c),
    ensures
        count_of(xml_escaped(s), c) == 0,
{
    lemma_xml_escaped_is_inert(s);
    assert forall|i: int| 0 <= i < xml_escaped(s).len() implies #[trigger] xml_escaped(s)[i] != c by {
        assert(!is_markup_char(xml_escaped(s)[i]));
    }
    lemma_count_absent(xml_escaped(s), c);
}

/// XML-escapes a character vector.
pub fn xml_escape_chars(v: &Vec<char>) -> (r: Vec<char>)
    ensures
        r@ == xml_escaped(v@),
{
    let mut out: Vec<char> = Vec::new();
    let mut i: usize = 0;
    while i < v.len()
        invariant
            i <= v.len(),
            out@ == xml_escaped(v@.subrange(0, i as int)),
        decreases v.len() - i,
    {
        let c = v[i];
        assert(v@.subrange(0, i + 1).drop_last() =~= v@.subrange(0, i as int));
        if c == '&' {
            push_str(&mut out, "&amp;");
        } else if c == '<' {
            push_str(&mut out, "&lt;");
        } else if c == '>' {
            push_str(&mut out, "&gt;");
        } else if c == '"' {
            push_str(&mut out, "&quot;");
        } else if c == '\'' {
            push_str(&mut out, "&apos;");
        } else {
            out.push(c);
        }
        assert(out@ =~= xml_escaped(v@.subrange(0, i + 1)));
        i = i + 1;
    }
    assert(v@.subrange(0, v.len() as int) =~= v@);
    out
}

/// XML-escapes a string for safe inclusion in SVG text nodes and attributes.
pub fn xml_escape(s: &str) -> (r: String)
    ensures
        r@ == xml_escaped(s@),
{
    let v = chars_of(s);
    string_of(&xml_escape_chars(&v))
}

/// Law: escaped text holds no character that could close a text node or an
/// attribute value, so no markup can be injected through it.
pub proof fn lemma_xml_escaped_is_inert(s: Seq<char>)
    ensures
        forall|i: int| 0 <= i < xml_escaped(s).len() ==> !is_markup_char(#[trigger] xml_escaped(s)[i]),
    decreases s.len(),
{
    reveal_strlit("&amp;");
    reveal_strlit("&lt;");
    reveal_strlit("&gt;");
    reveal_strlit("&quot;");
    reveal_strlit("&apos;");
    if s.len() > 0 {
        lemma_xml_escaped_is_inert(s.drop_last());
        let a = xml_escaped(s.drop_last());
        let b = xml_entity(s.last());
        assert forall|i: int| 0 <= i < xml_escaped(s).len() implies !is_markup_char(#[trigger] xml_escaped(s)[i]) by {
            if i < a.len() {
                assert(xml_escaped(s)[i] == a[i]);
            } else {
                assert(xml_escaped(s)[i] == b[i - a.len()]);
            }
        }
    }
}

// ---------------------------------------------------------------------------
// Variants and sizes
// ---------------------------------------------------------------------------

/// The two badge variants.
#[derive(Debug, Clone, Copy, PartialEq, Eq, Structural)]
pub enum BadgeVariant {
    Brand,
    Source,
}

pub open spec fn variant_slug(v: BadgeVariant) -> Seq<char> {
    match v {
        BadgeVariant::Brand => "brand"@,
        BadgeVariant::Source => "source"@,
    }
}

pub open spec fn variant_label(v: BadgeVariant) -> Seq<char> {
    match v {
        BadgeVariant::Brand => "Domain-Verified Brand"@,
        BadgeVariant::Source => "Domain-Verified Source"@,
    }
}

/// The variant named by `s`, compared case-insensitively (ASCII).
pub open spec fn variant_of_name(s: Seq<char>) -> Option<BadgeVariant> {
    if ascii_lower(s) == "brand"@ {
        Some(BadgeVariant::Brand)
    } else if ascii_lower(s) == "source"@ {
        Some(BadgeVariant::Source)
    } else {
        None
    }
}

impl BadgeVariant {
    /// Case-insensitive (ASCII) parse of `brand` / `source`.
    pub fn parse(s: &str) -> (r: Option<BadgeVariant>)
        ensures
            r == variant_of_name(s@),
    {
        let l = lower_chars(&chars_of(s));
        let lower = string_of(&l);
        if str_eq(lower.as_str(), "brand") {
            Some(BadgeVariant::Brand)
        } else if str_eq(lower.as_str(), "source") {
            Some(BadgeVariant::Source)
        } else {
            None
        }
    }

    /// The variant's path segment.
    pub fn slug(self) -> (s: &'static str)
        ensures
            s@ == variant_slug(self),
    {
        match self {
            BadgeVariant::Brand => "brand",
            BadgeVariant::Source => "source",
        }
    }

    /// The label inside the badge lockup.
    pub fn label(self) -> (s: &'static str)
        ensures
            s@ == variant_label(self),
    {
        match self {
            BadgeVariant::Brand => "Domain-Verified Brand",
            BadgeVariant::Source => "Domain-Verified Source",
        }
    }
}

/// Badge render sizes.
#[derive(Debug, Clone, Copy, PartialEq, Eq, Structural)]
pub enum BadgeSize {
    /// 1×, the standard embed.
    Standard,
    /// 2×, for hi-dpi displays.
    Retina,
}

pub open spec fn scale_of(s: BadgeSize) -> nat {
    match s {
        BadgeSize::Standard => 1,
        BadgeSize::Retina => 2,
    }
}

pub open spec fn size_of_name(l: Seq<char>) -> Option<BadgeSize> {
    if l == "1x"@ || l == "1"@ || l == "standard"@ || l == ""@ {
        Some(BadgeSize::Standard)
    } else if l == "2x"@ || l == "2"@ || l == "retina"@ {
        Some(BadgeSize::Retina)
    } else {
        None
    }
}

impl BadgeSize {
    /// Case-insensitive (ASCII) parse of the size aliases.
    pub fn parse(s: &str) -> (r: Option<BadgeSize>)
        ensures
            r == size_of_name(ascii_lower(s@)),
    {
        let l = lower_chars(&chars_of(s));
        let lower = string_of(&l);
        let t = lower.as_str();
        if str_eq(t, "1x") || str_eq(t, "1") || str_eq(t, "standard") || str_eq(t, "") {
            Some(BadgeSize::Standard)
        } else if str_eq(t, "2x") || str_eq(t, "2") || str_eq(t, "retina") {
            Some(BadgeSize::Retina)
        } else {
            None
        }
    }

    /// The scale factor applied to the 1× geometry.
    pub fn scale(self) -> (k: u32)
        ensures
            k == scale_of(self),
    {
        match self {
            BadgeSize::Standard => 1,
            BadgeSize::Retina => 2,
        }
    }
}

/// Query of `GET /v1/badge/:domain/:variant`.
#[derive(Debug)]
pub struct BadgeQuery {
    pub size: Option<String>,
}

// ---------------------------------------------------------------------------
// SVG rendering
// ---------------------------------------------------------------------------

/// The verified badge: pixel size scaled, view box fixed, label and domain
/// escaped, the scope microcopy as the accessible description.
pub open spec fn verified_svg(domain: Seq<char>, variant: BadgeVariant, size: BadgeSize) -> Seq<char> {
    "<svg xmlns=\"http://www.w3.org/2000/svg\" width=\""@
        + dec(240 * scale_of(size))
        + "\" height=\""@
        + dec(56 * scale_of(size))
        + "\" viewBox=\"0 0 240 56\" role=\"img\" aria-label=\""@
        + xml_escaped(variant_label(variant))
        + " — "@
        + xml_escaped(domain)
        + " — verified by Anseo\">\n  <title>"@
        + xml_escaped(variant_label(variant))
        + " — Anseo</title>\n  <desc>"@
        + xml_escaped(BADGE_SCOPE_MICROCOPY@)
        + "</desc>\n  <rect width=\"240\" height=\"56\" rx=\"8\" fill=\"#0B1F3A\"/>\n  <g fill=\"#FFFFFF\" font-family=\"-apple-system, Segoe UI, Roboto, sans-serif\">\n    <circle cx=\"28\" cy=\"28\" r=\"12\" fill=\"#1FB873\"/>\n    <path d=\"M22 28 l4 4 l8 -9\" stroke=\"#FFFFFF\" stroke-width=\"2.5\" fill=\"none\" stroke-linecap=\"round\" stroke-linejoin=\"round\"/>\n    <text x=\"52\" y=\"24\" font-size=\"13\" font-weight=\"600\">"@
        + xml_escaped(variant_label(variant))
        + "</text>\n    <text x=\"52\" y=\"42\" font-size=\"11\" fill=\"#9FB3C8\">Anseo</text>\n  </g>\n</svg>"@
}

/// Whether `t` occurs in `s`.
pub open spec fn occurs_in(s: Seq<char>, t: Seq<char>) -> bool {
    exists|k: int| 0 <= k && k + t.len() <= s.len() && #[trigger] s.subrange(k, k + t.len()) == t
}

/// Law: a verified badge is titled with its own variant: a Source badge's
/// title reads `Domain-Verified Source`, a Brand badge's `Domain-Verified
/// Brand`, and its accessible label starts with that same name.
pub proof fn lemma_verified_svg_names_variant(domain: Seq<char>, variant: BadgeVariant, size: BadgeSize)
    ensures
        variant == BadgeVariant::Source ==> occurs_in(verified_svg(domain, variant, size),
            " — verified by Anseo\">\n  <title>"@ + xml_escaped("Domain-Verified Source"@) + " — Anseo</title>\n  <desc>"@),
        variant == BadgeVariant::Brand ==> occurs_in(verified_svg(domain, variant, size),
            " — verified by Anseo\">\n  <title>"@ + xml_escaped("Domain-Verified Brand"@) + " — Anseo</title>\n  <desc>"@),
        variant == BadgeVariant::Source ==> occurs_in(verified_svg(domain, variant, size),
            "\" viewBox=\"0 0 240 56\" role=\"img\" aria-label=\""@ + xml_escaped("Domain-Verified Source"@) + " — "@),
        variant == BadgeVariant::Brand ==> occurs_in(verified_svg(domain, variant, size),
            "\" viewBox=\"0 0 240 56\" role=\"img\" aria-label=\""@ + xml_escaped("Domain-Verified Brand"@) + " — "@),
{
    let svg = verified_svg(domain, variant, size);
    let label = xml_escaped(variant_label(variant));
    let p1 = "<svg xmlns=\"http://www.w3.org/2000/svg\" width=\""@ + dec(240 * scale_of(size)) + "\" height=\""@
        + dec(56 * scale_of(size));
    let t1 = "\" viewBox=\"0 0 240 56\" role=\"img\" aria-label=\""@ + label + " — "@;
    let p2 = p1 + t1 + xml_escaped(domain);
    let t2 = " — verified by Anseo\">\n  <title>"@ + label + " — Anseo</title>\n  <desc>"@;
    assert(svg.subrange(p1.len() as int, (p1.len() + t1.len()) as int) =~= t1);
    assert(svg.subrange(p2.len() as int, (p2.len() + t2.len()) as int) =~= t2);
}

/// The lapsed badge: muted, no check mark, no verified assertion.
pub open spec fn lapsed_svg(domain: Seq<char>, size: BadgeSize) -> Seq<char> {
    "<svg xmlns=\"http://www.w3.org/2000/svg\" width=\""@
        + dec(240 * scale_of(size))
        + "\" height=\""@
        + dec(56 * scale_of(size))
        + "\" viewBox=\"0 0 240 56\" role=\"img\" aria-label=\"Verification lapsed — "@
        + xml_escaped(domain)
        + "\">\n  <title>Verification lapsed — Anseo</title>\n  <desc>This domain is no longer Domain-Verified.</desc>\n  <rect width=\"240\" height=\"56\" rx=\"8\" fill=\"#2A2A2A\"/>\n  <g fill=\"#9A9A9A\" font-family=\"-apple-system, Segoe UI, Roboto, sans-serif\">\n    <circle cx=\"28\" cy=\"28\" r=\"12\" fill=\"#555555\"/>\n    <text x=\"52\" y=\"24\" font-size=\"13\" font-weight=\"600\">Verification lapsed</text>\n    <text x=\"52\" y=\"42\" font-size=\"11\" fill=\"#777777\">Anseo</text>\n  </g>\n</svg>"@
}

/// Renders the verified badge SVG for a variant at a given size.
pub fn render_verified_svg(domain: &str, variant: BadgeVariant, size: BadgeSize) -> (svg: String)
    ensures
        svg@ == verified_svg(domain@, variant, size),
        variant == BadgeVariant::Source ==> occurs_in(svg@,
            " — verified by Anseo\">\n  <title>"@ + xml_escaped("Domain-Verified Source"@) + " — Anseo</title>\n  <desc>"@),
        variant == BadgeVariant::Brand ==> occurs_in(svg@,
            " — verified by Anseo\">\n  <title>"@ + xml_escaped("Domain-Verified Brand"@) + " — Anseo</title>\n  <desc>"@),
{
    proof {
        lemma_verified_svg_names_variant(domain@, variant, size);
    }
    let scale = size.scale();
    let w: u32 = 240 * scale;
    let h: u32 = 56 * scale;
    let safe_label = xml_escape_chars(&chars_of(variant.label()));
    let safe_domain = xml_escape_chars(&chars_of(domain));
    let scope = xml_escape_chars(&chars_of(BADGE_SCOPE_MICROCOPY));
    let mut out: Vec<char> = Vec::new();
    push_str(&mut out, "<svg xmlns=\"http://www.w3.org/2000/svg\" width=\"");
    push_dec(&mut out, w as u64);
    push_str(&mut out, "\" height=\"");
    push_dec(&mut out, h as u64);
    push_str(&mut out, "\" viewBox=\"0 0 240 56\" role=\"img\" aria-label=\"");
    push_vec(&mut out, &safe_label);
    push_str(&mut out, " — ");
    push_vec(&mut out, &safe_domain);
    push_str(&mut out, " — verified by Anseo\">\n  <title>");
    push_vec(&mut out, &safe_label);
    push_str(&mut out, " — Anseo</title>\n  <desc>");
    push_vec(&mut out, &scope);
    push_str(&mut out, "</desc>\n  <rect width=\"240\" height=\"56\" rx=\"8\" fill=\"#0B1F3A\"/>\n  <g fill=\"#FFFFFF\" font-family=\"-apple-system, Segoe UI, Roboto, sans-serif\">\n    <circle cx=\"28\" cy=\"28\" r=\"12\" fill=\"#1FB873\"/>\n    <path d=\"M22 28 l4 4 l8 -9\" stroke=\"#FFFFFF\" stroke-width=\"2.5\" fill=\"none\" stroke-linecap=\"round\" stroke-linejoin=\"round\"/>\n    <text x=\"52\" y=\"24\" font-size=\"13\" font-weight=\"600\">");
    push_vec(&mut out, &safe_label);
    push_str(&mut out, "</text>\n    <text x=\"52\" y=\"42\" font-size=\"11\" fill=\"#9FB3C8\">Anseo</text>\n  </g>\n</svg>");
    assert(out@ =~= verified_svg(domain@, variant, size));
    string_of(&out)
}

/// Renders the lapsed (revoked) badge SVG.
pub fn render_lapsed_svg(domain: &str, size: BadgeSize) -> (svg: String)
    ensures
        svg@ == lapsed_svg(domain@, size),
{
    let scale = size.scale();
    let w: u32 = 240 * scale;
    let h: u32 = 56 * scale;
    let safe_domain = xml_escape_chars(&chars_of(domain));
    let mut out: Vec<char> = Vec::new();
    push_str(&mut out, "<svg xmlns=\"http://www.w3.org/2000/svg\" width=\"");
    push_dec(&mut out, w as u64);
    push_str(&mut out, "\" height=\"");
    push_dec(&mut out, h as u64);
    push_str(&mut out, "\" viewBox=\"0 0 240 56\" role=\"img\" aria-label=\"Verification lapsed — ");
    push_vec(&mut out, &safe_domain);
    push_str(&mut out, "\">\n  <title>Verification lapsed — Anseo</title>\n  <desc>This domain is no longer Domain-Verified.</desc>\n  <rect width=\"240\" height=\"56\" rx=\"8\" fill=\"#2A2A2A\"/>\n  <g fill=\"#9A9A9A\" font-family=\"-apple-system, Segoe UI, Roboto, sans-serif\">\n    <circle cx=\"28\" cy=\"28\" r=\"12\" fill=\"#555555\"/>\n    <text x=\"52\" y=\"24\" font-size=\"13\" font-weight=\"600\">Verification lapsed</text>\n    <text x=\"52\" y=\"42\" font-size=\"11\" fill=\"#777777\">Anseo</text>\n  </g>\n</svg>");
    assert(out@ =~= lapsed_svg(domain@, size));
    string_of(&out)
}

/// Only an actively verified (or claimed) domain licenses a verified badge.
pub fn is_badge_active(claim_status: &str) -> (r: bool)
    ensures
        r == (claim_status@ == "verified"@ || claim_status@ == "claimed"@),
{
    str_eq(claim_status, "verified") || str_eq(claim_status, "claimed")
}

/// Whether a domain's role (`brand`, `source` or `both`) authorizes the
/// requested variant.
pub fn role_matches_variant(role: &str, variant: BadgeVariant) -> (r: bool)
    ensures
        r == (role@ == "both"@ || (role@ == "brand"@ && variant == BadgeVariant::Brand) || (role@ == "source"@
            && variant == BadgeVariant::Source)),
{
    let both = str_eq(role, "both");
    let brand = str_eq(role, "brand");
    let source = str_eq(role, "source");
    let is_brand = match variant {
        BadgeVariant::Brand => true,
        BadgeVariant::Source => false,
    };
    both || (brand && is_brand) || (source && !is_brand)
}

/// Whether the entity (its claim status and role, when it exists) currently
/// licenses the requested badge.
pub open spec fn badge_licensed(entity: Option<(Seq<char>, Seq<char>)>, variant: BadgeVariant) -> bool {
    match entity {
        Some((status, role)) => (status == "verified"@ || status == "claimed"@) && (role == "both"@ || (role
            == "brand"@ && variant == BadgeVariant::Brand) || (role == "source"@ && variant == BadgeVariant::Source)),
        None => false,
    }
}

pub open spec fn entity_view(e: Option<(&str, &str)>) -> Option<(Seq<char>, Seq<char>)> {
    match e {
        Some((s, r)) => Some((s@, r@)),
        None => None,
    }
}

/// Whether the entity licenses the badge: both an active claim and a
/// matching role.
pub fn badge_active(entity: Option<(&str, &str)>, variant: BadgeVariant) -> (r: bool)
    ensures
        r == badge_licensed(entity_view(entity), variant),
{
    match entity {
        Some((status, role)) => is_badge_active(status) && role_matches_variant(role, variant),
        None => false,
    }
}

/// The answer to a badge request.
#[derive(Debug)]
pub enum BadgeResponse {
    /// 400 with the error code and the values allowed.
    BadRequest { error: &'static str, allowed: Vec<&'static str> },
    /// An SVG body with its status (200 verified, 410 lapsed).
    Svg { status: u16, body: String },
}

/// `GET /v1/badge/:domain/:variant`: the variant and size are checked first
/// (400 `invalid_variant` / `invalid_size`); then the verified SVG (200) when
/// the entity licenses it, else the lapsed SVG (410). `domain` is already
/// normalised; `entity` is the entity's claim status and role, if it exists.
pub fn badge_response(
    domain: &str,
    raw_variant: &str,
    size: Option<&str>,
    entity: Option<(&str, &str)>,
) -> (r: BadgeResponse)
    ensures
        variant_of_name(raw_variant@) is None ==> (r matches BadgeResponse::BadRequest { error, allowed }
            && error@ == "invalid_variant"@ && allowed@.len() == 2 && allowed@[0]@ == "brand"@ && allowed@[1]@ == "source"@),
        variant_of_name(raw_variant@) matches Some(v) ==> {
            let sz = size_of_name(ascii_lower(match size { Some(s) => s@, None => "1x"@ }));
            &&& sz is None ==> (r matches BadgeResponse::BadRequest { error, allowed } && error@ == "invalid_size"@
                && allowed@.len() == 2 && allowed@[0]@ == "1x"@ && allowed@[1]@ == "2x"@)
            &&& sz matches Some(s) ==> (r matches BadgeResponse::Svg { status, body } && (if badge_licensed(entity_view(entity), v) {
                status == 200 && body@ == verified_svg(domain@, v, s)
            } else {
                status == 410 && body@ == lapsed_svg(domain@, s)
            }))
        },
{
    let variant = match BadgeVariant::parse(raw_variant) {
        Some(v) => v,
        None => {
            return BadgeResponse::BadRequest { error: "invalid_variant", allowed: vec!["brand", "source"] };
        },
    };
    let size_raw: &str = match size {
        Some(s) => s,
        None => "1x",
    };
    let size = match BadgeSize::parse(size_raw) {
        Some(s) => s,
        None => {
            return BadgeResponse::BadRequest { error: "invalid_size", allowed: vec!["1x", "2x"] };
        },
    };
    if badge_active(entity, variant) {
        BadgeResponse::Svg { status: 200, body: render_verified_svg(domain, variant, size) }
    } else {
        BadgeResponse::Svg { status: 410, body: render_lapsed_svg(domain, size) }
    }
}

/// The `Cache-Control` value of served badges.
pub fn badge_cache_control() -> (s: String)
    ensures
        s@ == "public, max-age="@ + dec(BADGE_CACHE_MAX_AGE_SECS as nat),
{
    let mut v: Vec<char> = chars_of("public, max-age=");
    push_dec(&mut v, BADGE_CACHE_MAX_AGE_SECS);
    string_of(&v)
}


// ---------------------------------------------------------------------------
// Embed snippet
// ---------------------------------------------------------------------------

/// The badge license terms. The badge is free.
#[derive(Debug)]
pub struct BadgeLicense {
    pub no_alteration: &'static str,
    pub mandatory_backlink: &'static str,
    pub validity: &'static str,
    pub revocable: &'static str,
    pub price: &'static str,
}

impl Default for BadgeLicense {
    fn default() -> (l: BadgeLicense)
        ensures
            l.no_alteration@ == "The badge image must not be altered."@,
            l.mandatory_backlink@ == "The badge must link back to the Anseo verification page for this domain."@,
            l.validity@ == "Valid for 12 months from the verification date."@,
            l.revocable@ == "Revocable by Anseo at any time."@,
            l.price@ == "Free — no payment required."@,
    {
        BadgeLicense {
            no_alteration: "The badge image must not be altered.",
            mandatory_backlink: "The badge must link back to the Anseo verification page for this domain.",
            validity: "Valid for 12 months from the verification date.",
            revocable: "Revocable by Anseo at any time.",
            price: "Free — no payment required.",
        }
    }
}

/// Reply to `GET /v1/badge/:domain/:variant/embed`.
#[derive(Debug)]
pub struct EmbedSnippetResponse {
    pub domain: String,
    pub variant: &'static str,
    /// Ready-to-paste HTML: `<a href><img …></a>`.
    pub embed_html: String,
    /// Absolute badge image URL.
    pub badge_url: String,
    /// Absolute verification (profile) page the badge links to.
    pub verification_url: String,
    /// Img alt text.
    pub alt_text: String,
    /// aria-label on the anchor.
    pub aria_label: String,
    /// Must be shown adjacent to the badge.
    pub scope_microcopy: &'static str,
    pub license: BadgeLicense,
    /// Whether the domain currently licenses a verified badge.
    pub badge_active: bool,
}

/// The embed snippet: an anchor to the verification page around the badge
/// image, every attribute value XML-escaped.
pub open spec fn embed_html(badge_url: Seq<char>, verification_url: Seq<char>, alt_text: Seq<char>, aria_label: Seq<char>) -> Seq<char> {
    "<a href=\""@ + xml_escaped(verification_url) + "\" aria-label=\""@ + xml_escaped(aria_label)
        + "\" target=\"_blank\" rel=\"noopener\"><img src=\""@ + xml_escaped(badge_url) + "\" alt=\""@
        + xml_escaped(alt_text) + "\" width=\"240\" height=\"56\" /></a>"@
}

/// Builds the `<a href><img></a>` embed snippet.
pub fn build_embed_html(badge_url: &str, verification_url: &str, alt_text: &str, aria_label: &str) -> (html: String)
    ensures
        html@ == embed_html(badge_url@, verification_url@, alt_text@, aria_label@),
{
    let mut out: Vec<char> = Vec::new();
    push_str(&mut out, "<a href=\"");
    push_vec(&mut out, &xml_escape_chars(&chars_of(verification_url)));
    push_str(&mut out, "\" aria-label=\"");
    push_vec(&mut out, &xml_escape_chars(&chars_of(aria_label)));
    push_str(&mut out, "\" target=\"_blank\" rel=\"noopener\"><img src=\"");
    push_vec(&mut out, &xml_escape_chars(&chars_of(badge_url)));
    push_str(&mut out, "\" alt=\"");
    push_vec(&mut out, &xml_escape_chars(&chars_of(alt_text)));
    push_str(&mut out, "\" width=\"240\" height=\"56\" /></a>");
    assert(out@ =~= embed_html(badge_url@, verification_url@, alt_text@, aria_label@));
    string_of(&out)
}

/// Law: the text put into an embed snippet adds no markup character: the
/// snippet holds each of `<`, `>`, `"` and `'` exactly as often as the
/// snippet built from empty texts.
pub proof fn lemma_embed_markup_fixed(
    badge_url: Seq<char>,
    verification_url: Seq<char>,
    alt_text: Seq<char>,
    aria_label: Seq<char>,
    c: char,
)
    requires
        is_markup_char(c),
    ensures
        count_of(embed_html(badge_url, verification_url, alt_text, aria_label), c)
            == count_of(embed_html(Seq::empty(), Seq::empty(), Seq::empty(), Seq::empty()), c),
{
    lemma_embed_count(badge_url, verification_url, alt_text, aria_label, c);
    lemma_embed_count(Seq::empty(), Seq::empty(), Seq::empty(), Seq::empty(), c);
}

proof fn lemma_embed_count(b: Seq<char>, v: Seq<char>, a: Seq<char>, l: Seq<char>, c: char)
    requires
        is_markup_char(c),
    ensures
        count_of(embed_html(b, v, a, l), c) == count_of("<a href=\""@, c) + count_of("\" aria-label=\""@, c)
            + count_of("\" target=\"_blank\" rel=\"noopener\"><img src=\""@, c) + count_of("\" alt=\""@, c)
            + count_of("\" width=\"240\" height=\"56\" /></a>"@, c),
{
    let p1 = "<a href=\""@;
    let p2 = "\" aria-label=\""@;
    let p3 = "\" target=\"_blank\" rel=\"noopener\"><img src=\""@;
    let p4 = "\" alt=\""@;
    let p5 = "\" width=\"240\" height=\"56\" /></a>"@;
    let ev = xml_escaped(v);
    let el = xml_escaped(l);
    let eb = xml_escaped(b);
    let ea = xml_escaped(a);
    lemma_escaped_count(v, c);
    lemma_escaped_count(l, c);
    lemma_escaped_count(b, c);
    lemma_escaped_count(a, c);
    lemma_count_concat(p1, ev, c);
    lemma_count_concat(p1 + ev, p2, c);
    lemma_count_concat(p1 + ev + p2, el, c);
    lemma_count_concat(p1 + ev + p2 + el, p3, c);
    lemma_count_concat(p1 + ev + p2 + el + p3, eb, c);
    lemma_count_concat(p1 + ev + p2 + el + p3 + eb, p4, c);
    lemma_count_concat(p1 + ev + p2 + el + p3 + eb + p4, ea, c);
    lemma_count_concat(p1 + ev + p2 + el + p3 + eb + p4 + ea, p5, c);
}

/// Law: a domain shown on a verified badge adds no markup character: the
/// SVG holds each of `<`, `>`, `"` and `'` exactly as often as the SVG of
/// the same variant and size for an empty domain.
pub proof fn lemma_verified_svg_markup_fixed(domain: Seq<char>, variant: BadgeVariant, size: BadgeSize, c: char)
    requires
        is_markup_char(c),
    ensures
        count_of(verified_svg(domain, variant, size), c) == count_of(verified_svg(Seq::empty(), variant, size), c),
{
    let head = "<svg xmlns=\"http://www.w3.org/2000/svg\" width=\""@
        + dec(240 * scale_of(size))
        + "\" height=\""@
        + dec(56 * scale_of(size))
        + "\" viewBox=\"0 0 240 56\" role=\"img\" aria-label=\""@
        + xml_escaped(variant_label(variant))
        + " — "@;
    let tail = verified_svg(domain, variant, size).subrange((head.len() + xml_escaped(domain).len()) as int,
        verified_svg(domain, variant, size).len() as int);
    let tail0 = verified_svg(Seq::empty(), variant, size).subrange(head.len() as int,
        verified_svg(Seq::empty(), variant, size).len() as int);
    assert(verified_svg(domain, variant, size) =~= head + xml_escaped(domain) + tail);
    assert(xml_escaped(Seq::<char>::empty()) =~= Seq::<char>::empty());
    assert(verified_svg(Seq::empty(), variant, size) =~= head + tail0);
    assert(tail =~= tail0);
    lemma_escaped_count(domain, c);
    lemma_count_concat(head, xml_escaped(domain), c);
    lemma_count_concat(head + xml_escaped(domain), tail, c);
    lemma_count_concat(head, tail0, c);
}

/// `s` without its trailing `/` characters.
pub open spec fn strip_trailing_slashes(s: Seq<char>) -> Seq<char>
    decreases s.len(),
{
    if s.len() > 0 && s.last() == '/' {
        strip_trailing_slashes(s.drop_last())
    } else {
        s
    }
}

/// The public badge origin: the override (trimmed, trailing slashes
/// dropped) when it is not blank, else the default.
pub open spec fn base_url_of(raw: Option<Seq<char>>) -> Seq<char> {
    match raw {
        Some(v) => if strip_trailing_slashes(trim(v)).len() > 0 {
            strip_trailing_slashes(trim(v))
        } else {
            DEFAULT_BADGE_BASE_URL@
        },
        None => DEFAULT_BADGE_BASE_URL@,
    }
}

/// Resolves the public badge base URL from the raw value of the
/// `ANSEO_BADGE_BASE_URL` override.
pub fn badge_base_url(raw: Option<&str>) -> (url: String)
    ensures
        url@ == base_url_of(match raw { Some(v) => Some(v@), None => None }),
{
    match raw {
        Some(v) => {
            let t = trimmed(v);
            let mut j: usize = t.len();
            assert(t@.subrange(0, j as int) =~= t@);
            while j > 0 && t[j - 1] == '/'
                invariant
                    j <= t.len(),
                    strip_trailing_slashes(t@) == strip_trailing_slashes(t@.subrange(0, j as int)),
                decreases j,
            {
                assert(t@.subrange(0, j as int).drop_last() =~= t@.subrange(0, j - 1));
                j = j - 1;
            }
            let mut out: Vec<char> = Vec::new();
            let mut k: usize = 0;
            while k < j
                invariant
                    k <= j,
                    j <= t.len(),
                    out@ == t@.subrange(0, k as int),
                decreases j - k,
            {
                out.push(t[k]);
                assert(t@.subrange(0, k + 1) =~= t@.subrange(0, k as int).push(t@[k as int]));
                k = k + 1;
            }
            if out.len() > 0 {
                string_of(&out)
            } else {
                DEFAULT_BADGE_BASE_URL.to_owned()
            }
        },
        None => DEFAULT_BADGE_BASE_URL.to_owned(),
    }
}

/// The embed reply for a normalised `domain`: image and profile URLs under
/// `base`, neutral alt and aria text, the scope copy and the license.
pub fn embed_snippet(base: &str, domain: &str, variant: BadgeVariant, badge_active: bool) -> (r: EmbedSnippetResponse)
    ensures
        r.domain@ == domain@,
        r.variant@ == variant_slug(variant),
        r.badge_url@ == base@ + "/v1/badge/"@ + domain@ + "/"@ + variant_slug(variant),
        r.verification_url@ == base@ + "/brand/"@ + domain@,
        r.alt_text@ == variant_label(variant) + " badge for "@ + domain@ + " — Anseo"@,
        r.aria_label@ == "Anseo "@ + variant_label(variant) + " badge for "@ + domain@,
        r.embed_html@ == embed_html(r.badge_url@, r.verification_url@, r.alt_text@, r.aria_label@),
        r.scope_microcopy@ == BADGE_SCOPE_MICROCOPY@,
        r.license.price@ == "Free — no payment required."@,
        r.badge_active == badge_active,
{
    let mut b: Vec<char> = chars_of(base);
    push_str(&mut b, "/v1/badge/");
    push_str(&mut b, domain);
    push_str(&mut b, "/");
    push_str(&mut b, variant.slug());
    let badge_url = string_of(&b);
    let mut v: Vec<char> = chars_of(base);
    push_str(&mut v, "/brand/");
    push_str(&mut v, domain);
    let verification_url = string_of(&v);
    let mut a: Vec<char> = chars_of(variant.label());
    push_str(&mut a, " badge for ");
    push_str(&mut a, domain);
    push_str(&mut a, " — Anseo");
    let alt_text = string_of(&a);
    let mut l: Vec<char> = chars_of("Anseo ");
    push_str(&mut l, variant.label());
    push_str(&mut l, " badge for ");
    push_str(&mut l, domain);
    let aria_label = string_of(&l);
    let embed_html = build_embed_html(badge_url.as_str(), verification_url.as_str(), alt_text.as_str(), aria_label.as_str());
    EmbedSnippetResponse {
        domain: domain.to_owned(),
        variant: variant.slug(),
        embed_html,
        badge_url,
        verification_url,
        alt_text,
        aria_label,
        scope_microcopy: BADGE_SCOPE_MICROCOPY,
        license: BadgeLicense::default(),
        badge_active,
    }
}

} // verus!
