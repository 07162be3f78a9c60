//! The density gate of the public benchmark: four thresholds that must all
//! hold, together with the naming flag, before domains are shown by name.

use vstd::prelude::*;

use crate::leaderboard::{feature_flag_on, flag_on};
use crate::text::{chars_of, parse_i64, parse_i64_chars};

verus! {

/// Methodology version stamped on every evaluation.
pub const DENSITY_METHODOLOGY_VERSION: &'static str = "anseo-v1.0";

/// The four density thresholds.
#[derive(Debug, Clone, Copy)]
pub struct DensityThresholds {
    pub min_contributors: i64,
    pub min_categories: i64,
    pub min_domains_per_category: i64,
    pub min_runs_per_segment: i64,
}

impl Default for DensityThresholds {
    /// The thresholds without overrides: 20 contributors, 20 categories, 10
    /// domains per category, 100 runs per segment.
    fn default() -> (t: Self)
        ensures
            t.min_contributors == 20,
            t.min_categories == 20,
            t.min_domains_per_category == 10,
            t.min_runs_per_segment == 100,
    {
        DensityThresholds {
            min_contributors: 20,
            min_categories: 20,
            min_domains_per_category: 10,
            min_runs_per_segment: 100,
        }
    }
}

/// A threshold from its configured setting: the setting when it reads as an
/// `i64`, the default otherwise.
pub open spec fn setting_or(raw: Option<Seq<char>>, default: i64) -> i64 {
    match raw {
        Some(s) => match parse_i64(s) {
            Some(v) => v,
            None => default,
        },
        None => default,
    }
}

fn setting_value(raw: Option<&str>, default: i64) -> (v: i64)
    ensures
        v == setting_or(
            match raw {
                Some(s) => Some(s@),
                None => None,
            },
            default,
        ),
{
    match raw {
        Some(s) => {
            let c = chars_of(s);
            match parse_i64_chars(&c) {
                Some(v) => v,
                None => default,
            }
        },
        None => default,
    }
}

impl DensityThresholds {
    /// The thresholds from their configured settings (minimum contributors,
    /// categories, domains and runs), each falling back to its default.
    pub fn from_settings(
        contributors: Option<&str>,
        categories: Option<&str>,
        domains: Option<&str>,
        runs: Option<&str>,
    ) -> (t: Self)
        ensures
            t.min_contributors == setting_or(
                match contributors {
                    Some(s) => Some(s@),
                    None => None,
                },
                20,
            ),
            t.min_categories == setting_or(
                match categories {
                    Some(s) => Some(s@),
                    None => None,
                },
                20,
            ),
            t.min_domains_per_category == setting_or(
                match domains {
                    Some(s) => Some(s@),
                    None => None,
                },
                10,
            ),
            t.min_runs_per_segment == setting_or(
                match runs {
                    Some(s) => Some(s@),
                    None => None,
                },
                100,
            ),
    {
        DensityThresholds {
            min_contributors: setting_value(contributors, 20),
            min_categories: setting_value(categories, 20),
            min_domains_per_category: setting_value(domains, 10),
            min_runs_per_segment: setting_value(runs, 100),
        }
    }
}

/// Pass or fail of one threshold.
#[derive(Debug, Clone)]
pub struct ThresholdDetail {
    pub threshold_name: &'static str,
    pub required: i64,
    pub actual: i64,
    pub passed: bool,
}

/// The density check's answer.
#[derive(Debug, Clone)]
pub struct DensityCheckResponse {
    /// All four thresholds pass and the naming flag is on.
    pub named_mode_active: bool,
    pub g_name_enabled: bool,
    /// All four thresholds pass.
    pub density_thresholds_met: bool,
    pub thresholds: Vec<ThresholdDetail>,
    /// RFC 3339 time of the evaluation.
    pub evaluated_at: String,
    pub methodology_version: &'static str,
}

/// Whether the naming flag, set to `raw` (unset: `None`), is on.
pub fn g_name_enabled(raw: Option<&str>) -> (r: bool)
    ensures
        r == flag_on(
            match raw {
                Some(s) => Some(s@),
                None => None,
            },
        ),
{
    feature_flag_on(raw)
}

fn detail(name: &'static str, required: i64, actual: i64) -> (d: ThresholdDetail)
    ensures
        d.threshold_name == name,
        d.required == required,
        d.actual == actual,
        d.passed == (actual >= required),
{
    ThresholdDetail { threshold_name: name, required, actual, passed: actual >= required }
}

/// The four threshold results for the measured counts, in order: distinct
/// contributors, categories above the k=5 floor, ranked domains per
/// category, prompt runs per segment.
pub fn threshold_details(
    t: &DensityThresholds,
    contributors: i64,
    categories_above_floor: i64,
    min_domains_per_category: i64,
    min_runs_per_segment: i64,
) -> (d: Vec<ThresholdDetail>)
    ensures
        d@.len() == 4,
        d@[0].threshold_name@ == "distinct_contributors"@ && d@[0].required == t.min_contributors
            && d@[0].actual == contributors && d@[0].passed == (contributors >= t.min_contributors),
        d@[1].threshold_name@ == "categories_above_k5_floor"@ && d@[1].required == t.min_categories
            && d@[1].actual == categories_above_floor && d@[1].passed == (categories_above_floor >= t.min_categories),
        d@[2].threshold_name@ == "ranked_domains_per_category"@ && d@[2].required == t.min_domains_per_category
            && d@[2].actual == min_domains_per_category
            && d@[2].passed == (min_domains_per_category >= t.min_domains_per_category),
        d@[3].threshold_name@ == "prompt_runs_per_segment"@ && d@[3].required == t.min_runs_per_segment
            && d@[3].actual == min_runs_per_segment
            && d@[3].passed == (min_runs_per_segment >= t.min_runs_per_segment),
{
    let mut d: Vec<ThresholdDetail> = Vec::new();
    d.push(detail("distinct_contributors", t.min_contributors, contributors));
    d.push(detail("categories_above_k5_floor", t.min_categories, categories_above_floor));
    d.push(detail("ranked_domains_per_category", t.min_domains_per_category, min_domains_per_category));
    d.push(detail("prompt_runs_per_segment", t.min_runs_per_segment, min_runs_per_segment));
    d
}

/// The density check's answer: the thresholds are met when every one passes, and
/// named mode is active when they are met and the naming flag is on.
pub fn density_response(g_name: bool, thresholds: Vec<ThresholdDetail>, evaluated_at: String) -> (r: DensityCheckResponse)
    ensures
        r.density_thresholds_met == forall|i: int| 0 <= i < thresholds@.len() ==> (#[trigger] thresholds@[i]).passed,
        r.named_mode_active == (g_name && r.density_thresholds_met),
        r.g_name_enabled == g_name,
        r.thresholds@ == thresholds@,
        r.evaluated_at == evaluated_at,
        r.methodology_version@ == DENSITY_METHODOLOGY_VERSION@,
{
    let mut all_passed = true;
    let mut i: usize = 0;
    while i < thresholds.len()
        invariant
            i <= thresholds@.len(),
            all_passed == forall|j: int| 0 <= j < i ==> (#[trigger] thresholds@[j]).passed,
        decreases thresholds@.len() - i,
    {
        all_passed = all_passed && thresholds[i].passed;
        i = i + 1;
    }
    DensityCheckResponse {
        named_mode_active: g_name && all_passed,
        g_name_enabled: g_name,
        density_thresholds_met: all_passed,
        thresholds,
        evaluated_at,
        methodology_version: DENSITY_METHODOLOGY_VERSION,
    }
}

} // verus!
