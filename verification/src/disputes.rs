//! Disputes: checking a public submission, the trimmed fields each operator
//! action stores, and the refusals of the dispute endpoints.

use vstd::prelude::*;

use crate::text::{string_of, trim, trimmed};

verus! {

/// A public dispute submission.
#[derive(Debug)]
pub struct SubmitRequest {
    pub domain: String,
    pub dispute_type: String,
    pub description: String,
    pub submitter_email: Option<String>,
    /// Correction requests: the proposed new display name.
    pub proposed_value: Option<String>,
}

/// Approval of a correction.
#[derive(Debug)]
pub struct ApproveRequest {
    pub operator: String,
    pub rationale: String,
}

/// Rejection, with plain-language grounds and the appeals path.
#[derive(Debug)]
pub struct RejectRequest {
    pub operator: String,
    pub grounds: String,
}

/// Adjudication of a claim conflict in favour of the party with the DNS proof.
#[derive(Debug)]
pub struct AdjudicateRequest {
    pub operator: String,
    pub winner_email: String,
    pub loser_email: Option<String>,
    pub rationale: String,
}

/// Change of control of a domain.
#[derive(Debug)]
pub struct TransferRequest {
    pub operator: String,
    pub new_owner_email: String,
    pub rationale: String,
}

/// Assessment of a GDPR objection.
#[derive(Debug)]
pub struct GdprAssessRequest {
    pub operator: String,
    /// The objection is honoured and processing stops.
    pub honored: bool,
    pub grounds: String,
}

/// Why a submission was refused (400).
#[derive(Debug, Clone, Copy, PartialEq, Eq, Structural)]
pub enum SubmissionRefusal {
    /// `empty_domain`.
    EmptyDomain,
    /// `invalid_dispute_type`, answered with the allowed types.
    InvalidDisputeType,
}

/// The fields a submission stores, trimmed.
#[derive(Debug)]
pub struct Submission {
    pub domain: String,
    pub dispute_type: String,
    pub description: String,
    pub submitter_email: Option<String>,
    pub proposed_value: Option<String>,
}

/// `s` trimmed.
pub fn trim_text(s: &str) -> (r: String)
    ensures
        r@ == trim(s@),
{
    string_of(&trimmed(s))
}

/// An optional text, trimmed when present.
pub open spec fn trim_opt(s: Option<String>) -> Option<Seq<char>> {
    match s {
        Some(v) => Some(trim(v@)),
        None => None,
    }
}

fn trim_option(s: &Option<String>) -> (r: Option<String>)
    ensures
        match r {
            Some(v) => trim_opt(*s) == Some(v@),
            None => s is None,
        },
{
    match s {
        Some(v) => Some(trim_text(v.as_str())),
        None => None,
    }
}

/// Checks a submission whose domain normalises to `domain` against the
/// `allowed` dispute types: the domain must not be empty, and the trimmed
/// type must be allowed.
pub fn check_submission(domain: String, body: &SubmitRequest, allowed: &Vec<String>) -> (r: Result<Submission, SubmissionRefusal>)
    ensures
        domain@.len() == 0 ==> r == Err::<Submission, SubmissionRefusal>(SubmissionRefusal::EmptyDomain),
        domain@.len() > 0 && !crate::text::strings_view(allowed@).contains(trim(body.dispute_type@))
            ==> r == Err::<Submission, SubmissionRefusal>(SubmissionRefusal::InvalidDisputeType),
        r matches Ok(s) ==> {
            &&& domain@.len() > 0
            &&& crate::text::strings_view(allowed@).contains(trim(body.dispute_type@))
            &&& s.domain == domain
            &&& s.dispute_type@ == trim(body.dispute_type@)
            &&& s.description@ == trim(body.description@)
            &&& (match s.submitter_email {
                Some(v) => trim_opt(body.submitter_email) == Some(v@),
                None => body.submitter_email is None,
            })
            &&& (match s.proposed_value {
                Some(v) => trim_opt(body.proposed_value) == Some(v@),
                None => body.proposed_value is None,
            })
        },
{
    if domain.as_str().unicode_len() == 0 {
        return Err(SubmissionRefusal::EmptyDomain);
    }
    let dispute_type = trim_text(body.dispute_type.as_str());
    let mut i: usize = 0;
    let mut found = false;
    while i < allowed.len()
        invariant
            i <= allowed@.len(),
            found ==> crate::text::strings_view(allowed@).contains(dispute_type@),
            !found ==> forall|j: int| 0 <= j < i ==> (#[trigger] allowed@[j])@ != dispute_type@,
        decreases allowed@.len() - i,
    {
        if allowed[i] == dispute_type {
            proof {
                assert(crate::text::strings_view(allowed@)[i as int] == dispute_type@);
            }
            found = true;
        }
        i = i + 1;
    }
    if !found {
        proof {
            if crate::text::strings_view(allowed@).contains(dispute_type@) {
                let j = choose|j: int| 0 <= j < allowed@.len() && crate::text::strings_view(allowed@)[j] == dispute_type@;
                assert(allowed@[j]@ == dispute_type@);
            }
        }
        return Err(SubmissionRefusal::InvalidDisputeType);
    }
    Ok(Submission {
        domain,
        dispute_type,
        description: trim_text(body.description.as_str()),
        submitter_email: trim_option(&body.submitter_email),
        proposed_value: trim_option(&body.proposed_value),
    })
}

/// The operator and rationale of an approval, trimmed.
pub fn approve_fields(body: &ApproveRequest) -> (r: (String, String))
    ensures
        r.0@ == trim(body.operator@),
        r.1@ == trim(body.rationale@),
{
    (trim_text(body.operator.as_str()), trim_text(body.rationale.as_str()))
}

/// The operator and grounds of a rejection, trimmed.
pub fn reject_fields(body: &RejectRequest) -> (r: (String, String))
    ensures
        r.0@ == trim(body.operator@),
        r.1@ == trim(body.grounds@),
{
    (trim_text(body.operator.as_str()), trim_text(body.grounds.as_str()))
}

/// The operator, winner, loser and rationale of an adjudication, trimmed.
pub fn adjudicate_fields(body: &AdjudicateRequest) -> (r: (String, String, Option<String>, String))
    ensures
        r.0@ == trim(body.operator@),
        r.1@ == trim(body.winner_email@),
        match r.2 {
            Some(v) => trim_opt(body.loser_email) == Some(v@),
            None => body.loser_email is None,
        },
        r.3@ == trim(body.rationale@),
{
    (
        trim_text(body.operator.as_str()),
        trim_text(body.winner_email.as_str()),
        trim_option(&body.loser_email),
        trim_text(body.rationale.as_str()),
    )
}

/// The operator, new owner and rationale of a transfer, trimmed.
pub fn transfer_fields(body: &TransferRequest) -> (r: (String, String, String))
    ensures
        r.0@ == trim(body.operator@),
        r.1@ == trim(body.new_owner_email@),
        r.2@ == trim(body.rationale@),
{
    (
        trim_text(body.operator.as_str()),
        trim_text(body.new_owner_email.as_str()),
        trim_text(body.rationale.as_str()),
    )
}

/// The operator, decision and grounds of a GDPR assessment, trimmed.
pub fn gdpr_fields(body: &GdprAssessRequest) -> (r: (String, bool, String))
    ensures
        r.0@ == trim(body.operator@),
        r.1 == body.honored,
        r.2@ == trim(body.grounds@),
{
    (trim_text(body.operator.as_str()), body.honored, trim_text(body.grounds.as_str()))
}

/// A failed dispute operation.
#[derive(Debug)]
pub enum DisputeFailure {
    /// 404 `dispute_not_found`, naming the dispute.
    NotFound { id: u128 },
    /// 500 `storage_error` with the failure.
    Storage { message: String },
}

/// The answer when the storage reports a failure on dispute `id`: 404 when it
/// reports the dispute missing, 500 otherwise.
pub fn dispute_failure(missing: bool, id: u128, message: String) -> (f: DisputeFailure)
    ensures
        missing ==> f == (DisputeFailure::NotFound { id }),
        !missing ==> f == (DisputeFailure::Storage { message }),
{
    if missing {
        DisputeFailure::NotFound { id }
    } else {
        DisputeFailure::Storage { message }
    }
}

} // verus!
