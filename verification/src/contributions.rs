//! `POST /v1/benchmark/contributions`: the identified-contribution gate.
//!
//! The handler alternates store and key-service work with decisions; the
//! decisions live here as one function from what just happened to what is
//! done next: load the KEK, open the sealed payload, resolve the
//! verification token, store the contribution, or refuse (with the audit
//! record of the refusal).

use vstd::prelude::*;

use crate::errors::{ApiError, api_error, api_error_msg, error_view};
use crate::text::concat3;

verus! {

/// Reply to a stored identified contribution.
#[derive(Debug)]
pub struct ContributionResponse {
    pub contribution_id: String,
    pub entity_domain: String,
    pub project_id: String,
}

/// The audit-ledger decision recorded for each token resolution.
#[derive(Debug, Clone, Copy, PartialEq, Eq, Structural)]
pub enum ResolutionDecision {
    KekMissing,
    SealRejected,
    Unverified,
    UnknownToken,
    Resolved,
}

impl ResolutionDecision {
    /// The ledger's name of the decision.
    pub fn as_str(&self) -> (s: &'static str)
        ensures
            *self == ResolutionDecision::KekMissing ==> s@ == "kek_missing"@,
            *self == ResolutionDecision::SealRejected ==> s@ == "seal_rejected"@,
            *self == ResolutionDecision::Unverified ==> s@ == "unverified"@,
            *self == ResolutionDecision::UnknownToken ==> s@ == "unknown_token"@,
            *self == ResolutionDecision::Resolved ==> s@ == "resolved"@,
    {
        match self {
            ResolutionDecision::KekMissing => "kek_missing",
            ResolutionDecision::SealRejected => "seal_rejected",
            ResolutionDecision::Unverified => "unverified",
            ResolutionDecision::UnknownToken => "unknown_token",
            ResolutionDecision::Resolved => "resolved",
        }
    }
}

/// What the token resolved to in the entity registry.
#[derive(Debug)]
pub enum ResolutionOutcome {
    Verified { domain: String },
    Unverified { domain: String, claim_status: String },
    UnknownToken,
}

/// How loading the project's KEK went.
#[derive(Debug, Clone, Copy, PartialEq, Eq, Structural)]
pub enum KekLoadResult {
    Loaded,
    Missing,
    Failed,
}

/// How storing the contribution went.
#[derive(Debug)]
pub enum InsertResult {
    Stored { contribution_id: String },
    /// A foreign key (consent record or entity) does not exist.
    MissingReference,
    Failed,
}

/// What just happened in the handler.
#[derive(Debug)]
pub enum ContributionEvent {
    /// The request arrived; whether its seal carries a verification token.
    Received { has_token: bool },
    KekLoaded(KekLoadResult),
    /// The sealed payload was opened; whether it authenticated.
    Opened { authentic: bool },
    Resolved(ResolutionOutcome),
    ResolutionFailed,
    /// The contribution was stored (or not) for `entity_domain`.
    Inserted { entity_domain: String, result: InsertResult },
}

/// An audit-ledger record.
#[derive(Debug)]
pub struct AuditEntry {
    pub decision: ResolutionDecision,
    pub resolved_domain: Option<String>,
    pub claim_status: Option<String>,
    pub reason: Option<String>,
    pub contribution_id: Option<String>,
}

/// What the handler does next.
#[derive(Debug)]
pub enum ContributionAction {
    LoadKek,
    OpenSealed,
    ResolveToken,
    Store { entity_domain: String },
    /// Answer with `error`, after recording `audit` when there is one.
    Refuse { audit: Option<AuditEntry>, error: ApiError },
    /// Record `audit` and answer 201 for the stored contribution.
    Accept { audit: AuditEntry, contribution_id: String, entity_domain: String },
}

pub open spec fn opt_view(v: Option<String>) -> Option<Seq<char>> {
    match v {
        Some(s) => Some(s@),
        None => None,
    }
}

/// A refusal with an audit record of `decision` (no contribution id).
pub open spec fn refused_with(
    a: ContributionAction,
    decision: ResolutionDecision,
    domain: Option<Seq<char>>,
    claim: Option<Seq<char>>,
    reason: Seq<char>,
    err: (u16, Seq<char>, Seq<char>),
) -> bool {
    a matches ContributionAction::Refuse { audit: Some(au), error } && au.decision == decision
        && opt_view(au.resolved_domain) == domain && opt_view(au.claim_status) == claim
        && opt_view(au.reason) == Some(reason) && au.contribution_id is None && error_view(error) == err
}

/// A refusal with no audit record.
pub open spec fn refused_plain(a: ContributionAction, err: (u16, Seq<char>, Seq<char>)) -> bool {
    a matches ContributionAction::Refuse { audit: None, error } && error_view(error) == err
}

pub open spec fn domain_not_verified_message(claim: Seq<char>) -> Seq<char> {
    "the verification token resolves to a domain whose claim is `"@ + claim
        + "`, not `verified`; identity is refused"@
}

fn audit(
    decision: ResolutionDecision,
    resolved_domain: Option<String>,
    claim_status: Option<String>,
    reason: &str,
) -> (a: AuditEntry)
    ensures
        a.decision == decision,
        a.resolved_domain == resolved_domain,
        a.claim_status == claim_status,
        opt_view(a.reason) == Some(reason@),
        a.contribution_id is None,
{
    AuditEntry { decision, resolved_domain, claim_status, reason: Some(reason.to_owned()), contribution_id: None }
}

/// The next step of the identified-contribution handler.
pub fn next_contribution_step(event: ContributionEvent) -> (a: ContributionAction)
    ensures
        match event {
            ContributionEvent::Received { has_token } => if has_token {
                a is LoadKek
            } else {
                refused_plain(a, (400u16, "missing_verification_token"@,
                    "identified contributions must carry a verification_token; anonymous-tier seals belong on the aggregate path"@))
            },
            ContributionEvent::KekLoaded(KekLoadResult::Loaded) => a is OpenSealed,
            ContributionEvent::KekLoaded(KekLoadResult::Missing) => refused_with(a, ResolutionDecision::KekMissing, None, None,
                "no per-project KEK available for identified write"@,
                (403u16, "kek_missing"@,
                "no per-project benchmark KEK is provisioned; an identified contribution cannot be written without the key that can later crypto-shred it"@)),
            ContributionEvent::KekLoaded(KekLoadResult::Failed) => refused_plain(a, (500u16, "internal_error"@, "failed to load project KEK"@)),
            ContributionEvent::Opened { authentic } => if authentic {
                a is ResolveToken
            } else {
                refused_with(a, ResolutionDecision::SealRejected, None, None,
                    "sealed payload failed AEAD authentication"@,
                    (403u16, "sealed_payload_rejected"@,
                    "the sealed contribution failed authentication (wrong KEK, corrupted ciphertext, or tampered verification token)"@))
            },
            ContributionEvent::Resolved(ResolutionOutcome::Verified { domain }) =>
                a matches ContributionAction::Store { entity_domain } && entity_domain@ == domain@,
            ContributionEvent::Resolved(ResolutionOutcome::Unverified { domain, claim_status }) =>
                refused_with(a, ResolutionDecision::Unverified, Some(domain@), Some(claim_status@),
                    "domain is not currently claim_status=verified"@,
                    (403u16, "domain_not_verified"@, domain_not_verified_message(claim_status@))),
            ContributionEvent::Resolved(ResolutionOutcome::UnknownToken) => refused_with(a, ResolutionDecision::UnknownToken, None, None,
                "token matches no verification attempt"@,
                (403u16, "unknown_verification_token"@, "the verification token does not resolve to any verified domain"@)),
            ContributionEvent::ResolutionFailed => refused_plain(a, (500u16, "internal_error"@, "failed to resolve verification token"@)),
            ContributionEvent::Inserted { entity_domain, result } => match result {
                InsertResult::Stored { contribution_id } => a matches ContributionAction::Accept { audit, contribution_id: cid, entity_domain: d }
                    && cid@ == contribution_id@ && d@ == entity_domain@
                    && audit.decision == ResolutionDecision::Resolved
                    && opt_view(audit.resolved_domain) == Some(entity_domain@)
                    && opt_view(audit.claim_status) == Some("verified"@)
                    && audit.reason is None
                    && opt_view(audit.contribution_id) == Some(contribution_id@),
                InsertResult::MissingReference => refused_plain(a, (400u16, "invalid_reference"@,
                    "consent_record_id or resolved entity does not exist"@)),
                InsertResult::Failed => refused_plain(a, (500u16, "persist_failed"@, "failed to persist identified contribution"@)),
            },
        },
{
    match event {
        ContributionEvent::Received { has_token } => if has_token {
            ContributionAction::LoadKek
        } else {
            ContributionAction::Refuse {
                audit: None,
                error: api_error(
                    400,
                    "missing_verification_token",
                    "identified contributions must carry a verification_token; anonymous-tier seals belong on the aggregate path",
                ),
            }
        },
        ContributionEvent::KekLoaded(KekLoadResult::Loaded) => ContributionAction::OpenSealed,
        ContributionEvent::KekLoaded(KekLoadResult::Missing) => ContributionAction::Refuse {
            audit: Some(audit(ResolutionDecision::KekMissing, None, None, "no per-project KEK available for identified write")),
            error: api_error(
                403,
                "kek_missing",
                "no per-project benchmark KEK is provisioned; an identified contribution cannot be written without the key that can later crypto-shred it",
            ),
        },
        ContributionEvent::KekLoaded(KekLoadResult::Failed) => ContributionAction::Refuse {
            audit: None,
            error: api_error(500, "internal_error", "failed to load project KEK"),
        },
        ContributionEvent::Opened { authentic } => if authentic {
            ContributionAction::ResolveToken
        } else {
            ContributionAction::Refuse {
                audit: Some(audit(ResolutionDecision::SealRejected, None, None, "sealed payload failed AEAD authentication")),
                error: api_error(
                    403,
                    "sealed_payload_rejected",
                    "the sealed contribution failed authentication (wrong KEK, corrupted ciphertext, or tampered verification token)",
                ),
            }
        },
        ContributionEvent::Resolved(ResolutionOutcome::Verified { domain }) => ContributionAction::Store { entity_domain: domain },
        ContributionEvent::Resolved(ResolutionOutcome::Unverified { domain, claim_status }) => {
            let msg = concat3(
                "the verification token resolves to a domain whose claim is `",
                claim_status.as_str(),
                "`, not `verified`; identity is refused",
            );
            ContributionAction::Refuse {
                audit: Some(audit(ResolutionDecision::Unverified, Some(domain), Some(claim_status), "domain is not currently claim_status=verified")),
                error: api_error_msg(403, "domain_not_verified", msg),
            }
        },
        ContributionEvent::Resolved(ResolutionOutcome::UnknownToken) => ContributionAction::Refuse {
            audit: Some(audit(ResolutionDecision::UnknownToken, None, None, "token matches no verification attempt")),
            error: api_error(403, "unknown_verification_token", "the verification token does not resolve to any verified domain"),
        },
        ContributionEvent::ResolutionFailed => ContributionAction::Refuse {
            audit: None,
            error: api_error(500, "internal_error", "failed to resolve verification token"),
        },
        ContributionEvent::Inserted { entity_domain, result } => match result {
            InsertResult::Stored { contribution_id } => {
                let entry = AuditEntry {
                    decision: ResolutionDecision::Resolved,
                    resolved_domain: Some(entity_domain.clone()),
                    claim_status: Some("verified".to_owned()),
                    reason: None,
                    contribution_id: Some(contribution_id.clone()),
                };
                ContributionAction::Accept { audit: entry, contribution_id, entity_domain }
            },
            InsertResult::MissingReference => ContributionAction::Refuse {
                audit: None,
                error: api_error(400, "invalid_reference", "consent_record_id or resolved entity does not exist"),
            },
            InsertResult::Failed => ContributionAction::Refuse {
                audit: None,
                error: api_error(500, "persist_failed", "failed to persist identified contribution"),
            },
        },
    }
}

} // verus!
