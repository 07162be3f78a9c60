//! Brand-accuracy claims: evaluation is a paid feature in this build.

use vstd::prelude::*;

verus! {

/// The refusal of an evaluation without the entitlement (402).
#[derive(Debug)]
pub struct EntitlementRequired {
    pub status: u16,
    pub error: &'static str,
    pub feature: &'static str,
    pub message: &'static str,
}

/// Evaluating claims needs a Pro plan: 402 `entitlement_required` for the
/// `hallucination_evaluation` feature.
pub fn evaluation_refused() -> (r: EntitlementRequired)
    ensures
        r.status == 402,
        r.error@ == "entitlement_required"@,
        r.feature@ == "hallucination_evaluation"@,
        r.message@ == "Hallucination evaluation requires an Anseo Pro plan. Upgrade at https://anseo.io/pricing or contact support."@,
{
    EntitlementRequired {
        status: 402,
        error: "entitlement_required",
        feature: "hallucination_evaluation",
        message: "Hallucination evaluation requires an Anseo Pro plan. Upgrade at https://anseo.io/pricing or contact support.",
    }
}

} // verus!
