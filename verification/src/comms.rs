//! Communications preferences: the preference-center page, the preference
//! update a submitted form stands for, and the unsubscribe pages. These pages
//! need no login; the token in the link carries the authority.

use vstd::prelude::*;

use crate::text::{push_str, str_eq, string_of};

verus! {

/// The page for a link whose token resolves to no recipient.
pub const INVALID_LINK_PAGE: &'static str = "<h1>This link is no longer valid.</h1>";
/// The page for a recipient without stored preferences.
pub const NO_PREFERENCES_PAGE: &'static str = "<h1>No preferences found for this link.</h1>";
/// The page of a failed operation.
pub const FAILURE_PAGE: &'static str = "<h1>Something went wrong.</h1>";
/// The page once preferences were saved.
pub const SAVED_PAGE: &'static str = "<h1>Preferences saved.</h1><p><a href=\"\">Back</a></p>";
/// The page of an unknown or already-used unsubscribe link.
pub const UNSUBSCRIBED_PAGE: &'static str = "<h1>You are unsubscribed.</h1>";
/// The page once an unsubscribe was recorded.
pub const UNSUBSCRIBE_DONE_PAGE: &'static str = "<h1>You are unsubscribed.</h1><p>You will no longer receive marketing email.</p>";

/// `checked` when the box is ticked.
pub open spec fn checked_attr(on: bool) -> Seq<char> {
    if on {
        "checked"@
    } else {
        ""@
    }
}

/// `selected` for the option equal to the stored frequency.
pub open spec fn selected_attr(current: Seq<char>, option: Seq<char>) -> Seq<char> {
    if current == option {
        "selected"@
    } else {
        ""@
    }
}

fn checked(on: bool) -> (s: &'static str)
    ensures
        s@ == checked_attr(on),
{
    if on {
        "checked"
    } else {
        proof {
            reveal_strlit("");
        }
        ""
    }
}

fn selected(current: &str, option: &str) -> (s: &'static str)
    ensures
        s@ == selected_attr(current@, option@),
{
    if str_eq(current, option) {
        "selected"
    } else {
        proof {
            reveal_strlit("");
        }
        ""
    }
}

/// The preference-center page of a recipient: a form posting back to the
/// token, with the rank-change box, the digest frequency and the
/// marketing kill-switch set as stored, and the one-click unsubscribe link.
pub open spec fn preferences_page_text(
    token: Seq<char>,
    rank_change_enabled: bool,
    digest_frequency: Seq<char>,
    all_marketing_off: bool,
) -> Seq<char> {
    "<!doctype html>\n<html lang=\"en\">\n<head><meta charset=\"utf-8\"><title>Email preferences</title></head>\n<body>\n  <h1>Email preferences</h1>\n  <form method=\"post\" action=\"/preferences/"@ + token + "\">\n    <label>\n      <input type=\"checkbox\" name=\"rank_change_enabled\" value=\"true\" "@ + checked_attr(rank_change_enabled) + ">\n      Rank-change notifications\n    </label><br>\n    <label>\n      Digest frequency:\n      <select name=\"digest_frequency\">\n        <option value=\"off\" "@ + selected_attr(digest_frequency, "off"@) + ">Off</option>\n        <option value=\"daily\" "@ + selected_attr(digest_frequency, "daily"@) + ">Daily</option>\n        <option value=\"weekly\" "@ + selected_attr(digest_frequency, "weekly"@) + ">Weekly</option>\n        <option value=\"monthly\" "@ + selected_attr(digest_frequency, "monthly"@) + ">Monthly</option>\n      </select>\n    </label><br>\n    <label>\n      <input type=\"checkbox\" name=\"all_marketing_off\" value=\"true\" "@ + checked_attr(all_marketing_off) + ">\n      Turn off ALL marketing email\n    </label><br>\n    <button type=\"submit\">Save preferences</button>\n  </form>\n  <hr>\n  <p><a href=\"/u/"@ + token + "\">Unsubscribe from all marketing (one click)</a></p>\n</body>\n</html>"@
}

/// Renders the preference-center page.
pub fn preferences_page(token: &str, rank_change_enabled: bool, digest_frequency: &str, all_marketing_off: bool) -> (page: String)
    ensures
        page@ == preferences_page_text(token@, rank_change_enabled, digest_frequency@, all_marketing_off),
{
    let mut out: Vec<char> = Vec::new();
    push_str(&mut out, "<!doctype html>\n<html lang=\"en\">\n<head><meta charset=\"utf-8\"><title>Email preferences</title></head>\n<body>\n  <h1>Email preferences</h1>\n  <form method=\"post\" action=\"/preferences/");
    push_str(&mut out, token);
    push_str(&mut out, "\">\n    <label>\n      <input type=\"checkbox\" name=\"rank_change_enabled\" value=\"true\" ");
    push_str(&mut out, checked(rank_change_enabled));
    push_str(&mut out, ">\n      Rank-change notifications\n    </label><br>\n    <label>\n      Digest frequency:\n      <select name=\"digest_frequency\">\n        <option value=\"off\" ");
    push_str(&mut out, selected(digest_frequency, "off"));
    push_str(&mut out, ">Off</option>\n        <option value=\"daily\" ");
    push_str(&mut out, selected(digest_frequency, "daily"));
    push_str(&mut out, ">Daily</option>\n        <option value=\"weekly\" ");
    push_str(&mut out, selected(digest_frequency, "weekly"));
    push_str(&mut out, ">Weekly</option>\n        <option value=\"monthly\" ");
    push_str(&mut out, selected(digest_frequency, "monthly"));
    push_str(&mut out, ">Monthly</option>\n      </select>\n    </label><br>\n    <label>\n      <input type=\"checkbox\" name=\"all_marketing_off\" value=\"true\" ");
    push_str(&mut out, checked(all_marketing_off));
    push_str(&mut out, ">\n      Turn off ALL marketing email\n    </label><br>\n    <button type=\"submit\">Save preferences</button>\n  </form>\n  <hr>\n  <p><a href=\"/u/");
    push_str(&mut out, token);
    push_str(&mut out, "\">Unsubscribe from all marketing (one click)</a></p>\n</body>\n</html>");
    string_of(&out)
}

/// A submitted preference form: an unticked box is absent.
#[derive(Debug)]
pub struct PreferencesForm {
    pub rank_change_enabled: Option<String>,
    pub digest_frequency: Option<String>,
    pub all_marketing_off: Option<String>,
}

/// The preference change a form stands for.
#[derive(Debug)]
pub struct PreferenceUpdate {
    pub rank_change_enabled: Option<bool>,
    pub digest_frequency: Option<String>,
    pub all_marketing_off: Option<bool>,
    pub marketing_consent: Option<bool>,
}

/// A digest frequency the preferences accept.
pub open spec fn known_frequency(f: Seq<char>) -> bool {
    f == "off"@ || f == "daily"@ || f == "weekly"@ || f == "monthly"@
}

/// The update a form stands for. The form is the full desired state: each
/// box is set on when present and off when absent; an unknown digest
/// frequency leaves the frequency unchanged; consent is not touched.
pub fn preference_update(form: PreferencesForm) -> (u: PreferenceUpdate)
    ensures
        u.rank_change_enabled == Some(form.rank_change_enabled is Some),
        u.all_marketing_off == Some(form.all_marketing_off is Some),
        u.marketing_consent is None,
        match form.digest_frequency {
            Some(f) => if known_frequency(f@) {
                u.digest_frequency == Some(f)
            } else {
                u.digest_frequency is None
            },
            None => u.digest_frequency is None,
        },
{
    let digest = match form.digest_frequency {
        Some(f) => {
            if str_eq(f.as_str(), "off") || str_eq(f.as_str(), "daily") || str_eq(f.as_str(), "weekly") || str_eq(
                f.as_str(),
                "monthly",
            ) {
                Some(f)
            } else {
                None
            }
        },
        None => None,
    };
    PreferenceUpdate {
        rank_change_enabled: Some(form.rank_change_enabled.is_some()),
        digest_frequency: digest,
        all_marketing_off: Some(form.all_marketing_off.is_some()),
        marketing_consent: None,
    }
}

/// The update a one-click unsubscribe records: the marketing kill-switch on,
/// nothing else changed.
pub fn unsubscribe_update() -> (u: PreferenceUpdate)
    ensures
        u.rank_change_enabled is None,
        u.digest_frequency is None,
        u.all_marketing_off == Some(true),
        u.marketing_consent is None,
{
    PreferenceUpdate {
        rank_change_enabled: None,
        digest_frequency: None,
        all_marketing_off: Some(true),
        marketing_consent: None,
    }
}

/// The confirmation page of an unsubscribe link; it changes nothing. An
/// unknown token already reads as unsubscribed.
pub fn unsubscribe_confirm_page(token: &str, known: bool) -> (page: String)
    ensures
        !known ==> page@ == UNSUBSCRIBED_PAGE@,
        known ==> page@ == "<!doctype html><html><body><h1>Unsubscribe from marketing email?</h1><p>Click confirm to stop receiving marketing email. Transactional messages (e.g. verification links) are unaffected.</p><form method=\"post\" action=\"/u/"@ + token@ + "\"><button type=\"submit\">Confirm unsubscribe</button></form></body></html>"@,
{
    if !known {
        return UNSUBSCRIBED_PAGE.to_string();
    }
    let mut out: Vec<char> = Vec::new();
    push_str(&mut out, "<!doctype html><html><body><h1>Unsubscribe from marketing email?</h1><p>Click confirm to stop receiving marketing email. Transactional messages (e.g. verification links) are unaffected.</p><form method=\"post\" action=\"/u/");
    push_str(&mut out, token);
    push_str(&mut out, "\"><button type=\"submit\">Confirm unsubscribe</button></form></body></html>");
    string_of(&out)
}

} // verus!
