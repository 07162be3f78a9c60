//! Operator authentication: constant-time credential comparison and the
//! decision taken by the operator-key gate in front of `/v1/operator/*`.

use subtle::ConstantTimeEq;
use vstd::prelude::*;

use crate::text::{chars_of, string_of, trim, trim_chars};

verus! {

/// Header carrying the GitHub login of the operator performing the action.
pub const OPERATOR_ACTOR_HEADER: &'static str = "X-Anseo-Operator-Actor";

/// Env var carrying the single global operator-admin API key.
pub const OPERATOR_API_KEY_ENV: &'static str = "ANSEO_OPERATOR_API_KEY";

/// Marker inserted into request extensions once the operator key has been
/// verified, carrying the resolved actor login for the handlers.
#[derive(Debug, Clone)]
pub struct AuthenticatedOperator {
    /// Login of the operator, read from the actor header, or `None` when the
    /// header was absent or blank.
    pub actor: Option<String>,
}

/// `subtle::ConstantTimeEq::ct_eq` on two byte slices of equal length,
/// converted to `bool`: `true` exactly when the slices hold the same bytes.
#[verifier::external_body]
fn subtle_ct_eq(a: &[u8], b: &[u8]) -> (r: bool)
    requires
        a@.len() == b@.len(),
    ensures
        r == (a@ == b@),
{
    a.ct_eq(b).into()
}

/// Constant-time equality over two byte slices. A length mismatch is `false`
/// (the length is not secret; the contents are).
pub fn ct_eq(a: &[u8], b: &[u8]) -> (r: bool)
    ensures
        r == (a@ == b@),
{
    if a.len() != b.len() {
        return false;
    }
    subtle_ct_eq(a, b)
}

/// Constant-time string equality (over the UTF-8 bytes).
pub fn ct_eq_str(a: &str, b: &str) -> (r: bool)
    ensures
        r == (a@ == b@),
{
    let r = ct_eq(a.as_bytes(), b.as_bytes());
    proof {
        if vstd::utf8::encode_utf8(a@) == vstd::utf8::encode_utf8(b@) {
            vstd::utf8::encode_utf8_decode_utf8(a@);
            vstd::utf8::encode_utf8_decode_utf8(b@);
        }
    }
    r
}

/// Why the operator gate refused a request.
#[derive(Debug, Clone, Copy, PartialEq, Eq, Structural)]
pub enum OperatorAuthError {
    /// No operator key is configured: the surface is disabled (503).
    NotConfigured,
    /// No usable key was presented (401).
    MissingKey,
    /// A key was presented but it is not the operator key (403).
    WrongKey,
}

/// The optional, trimmed, non-empty value of a header or env var.
pub open spec fn present(v: Option<Seq<char>>) -> Option<Seq<char>> {
    match v {
        Some(s) => if trim(s).len() > 0 { Some(trim(s)) } else { None },
        None => None,
    }
}

pub open spec fn opt_view(v: Option<&str>) -> Option<Seq<char>> {
    match v {
        Some(s) => Some(s@),
        None => None,
    }
}

pub open spec fn opt_string_view(v: Option<String>) -> Option<Seq<char>> {
    match v {
        Some(s) => Some(s@),
        None => None,
    }
}

/// The operator check's decision: the configured key (trimmed) must exist, a token must
/// have been presented, and it must equal the configured key.
pub open spec fn operator_auth_spec(
    configured: Option<Seq<char>>,
    token: Option<Seq<char>>,
) -> Result<(), OperatorAuthError> {
    match present(configured) {
        None => Err(OperatorAuthError::NotConfigured),
        Some(key) => match token {
            None => Err(OperatorAuthError::MissingKey),
            Some(t) => if t == key {
                Ok(())
            } else {
                Err(OperatorAuthError::WrongKey)
            },
        },
    }
}

/// The status the operator gate answers for a refusal: 503 when no operator
/// key is configured, 401 when no key was presented, 403 for any other key
/// (a tenant project key among them).
pub fn operator_auth_status(e: OperatorAuthError) -> (status: u16)
    ensures
        status == match e {
            OperatorAuthError::NotConfigured => 503u16,
            OperatorAuthError::MissingKey => 401u16,
            OperatorAuthError::WrongKey => 403u16,
        },
{
    match e {
        OperatorAuthError::NotConfigured => 503,
        OperatorAuthError::MissingKey => 401,
        OperatorAuthError::WrongKey => 403,
    }
}

/// The trimmed, non-empty value of an optional string.
pub fn present_value(v: Option<&str>) -> (r: Option<String>)
    ensures
        opt_string_view(r) == present(opt_view(v)),
{
    match v {
        None => None,
        Some(s) => {
            let c = chars_of(s);
            let t = trim_chars(&c);
            if t.len() == 0 {
                None
            } else {
                Some(string_of(&t))
            }
        },
    }
}

/// Operator-key gate. `configured` is the raw value of the operator-key env
/// var; `token` is the API key extracted from the request headers (absent when
/// no usable key header was sent); `actor` is the raw actor header.
pub fn authorize_operator(
    configured: Option<&str>,
    token: Option<&str>,
    actor: Option<&str>,
) -> (res: Result<AuthenticatedOperator, OperatorAuthError>)
    ensures
        match operator_auth_spec(opt_view(configured), opt_view(token)) {
            Ok(()) => res matches Ok(op) && opt_string_view(op.actor) == present(opt_view(actor)),
            Err(e) => res == Err::<AuthenticatedOperator, OperatorAuthError>(e),
        },
{
    let key = match present_value(configured) {
        None => return Err(OperatorAuthError::NotConfigured),
        Some(k) => k,
    };
    let t = match token {
        None => return Err(OperatorAuthError::MissingKey),
        Some(t) => t,
    };
    if !ct_eq_str(t, key.as_str()) {
        return Err(OperatorAuthError::WrongKey);
    }
    Ok(AuthenticatedOperator { actor: present_value(actor) })
}

/// The value of the project API-key header a request carries: the
/// `X-Anseo-API-Key` header when it is present, else the older
/// `X-OpenGEO-API-Key`. Each argument is `None` when the header is absent and
/// `Some(None)` when it is present but not visible ASCII (which reads as no
/// value; the older header is then not consulted).
pub fn api_key_header_value<'a>(anseo: Option<Option<&'a str>>, legacy: Option<Option<&'a str>>) -> (r: Option<&'a str>)
    ensures
        r == match anseo {
            Some(v) => v,
            None => match legacy {
                Some(v) => v,
                None => None,
            },
        },
{
    match anseo {
        Some(v) => v,
        None => match legacy {
            Some(v) => v,
            None => None,
        },
    }
}

/// What the project API-key gate learned of a request.
#[derive(Debug)]
pub enum ApiKeyEvidence {
    /// No key was presented (no header, or a blank one).
    NoToken,
    /// The token is not shaped like an API key; it is never looked up.
    Malformed,
    /// The key's hash belongs to an active key of this project.
    Active(String),
    /// No active key has the key's hash.
    Unknown,
    /// The lookup failed.
    LookupFailed,
}

/// The project API-key gate: the authenticated project, or 401. A failed
/// lookup is answered like an unknown key, so an unauthenticated caller
/// learns nothing of the key store's health.
pub fn api_key_verdict(e: ApiKeyEvidence) -> (r: Result<String, u16>)
    ensures
        match e {
            ApiKeyEvidence::Active(p) => r matches Ok(q) && q@ == p@,
            _ => r == Err::<String, u16>(401),
        },
{
    match e {
        ApiKeyEvidence::Active(p) => Ok(p),
        _ => Err(401),
    }
}

} // verus!
