//! Fresh identifiers and timestamps.
//!
//! Ids are time-ordered UUIDs; timestamps are RFC 3339 UTC.  Both come
//! from outside crates through trusted wrappers: their values depend on
//! the clock (and on randomness), so the contracts state only what holds
//! of every outcome.

use vstd::prelude::*;

verus! {

use vstd::string::StringExecFns;

/// Relies on `uuid::Uuid::now_v7` and its `Display` form: a fresh
/// time-ordered id, rendered hyphenated, which is 36 characters.
#[verifier::external_body]
pub fn new_uuid() -> (r: String)
    ensures
        r@.len() == 36,
{
    uuid::Uuid::now_v7().to_string()
}

/// Relies on `time::OffsetDateTime::now_utc` and its `format` with the
/// well-known Rfc3339 description: the current instant in RFC 3339 UTC;
/// the epoch literal stands in where formatting fails.
#[verifier::external_body]
pub fn now_rfc3339() -> (r: String) {
    time::OffsetDateTime::now_utc()
        .format(&time::format_description::well_known::Rfc3339)
        .unwrap_or_else(|_| "1970-01-01T00:00:00Z".to_string())
}

/// A fresh idempotency key: `ik_` followed by a fresh id.
pub fn new_idempotency_key() -> (r: String)
    ensures
        r@.len() == 39,
        r@.subrange(0, 3) == "ik_"@,
{
    let mut s = String::from_str("ik_");
    let id = new_uuid();
    s.append(id.as_str());
    proof {
        reveal_strlit("ik_");
        assert(s@.subrange(0, 3) =~= "ik_"@);
    }
    s
}

/// A fresh trace id: `tr_` followed by a fresh id.
pub fn new_trace_id() -> (r: String)
    ensures
        r@.len() == 39,
        r@.subrange(0, 3) == "tr_"@,
{
    let mut s = String::from_str("tr_");
    let id = new_uuid();
    s.append(id.as_str());
    proof {
        reveal_strlit("tr_");
        assert(s@.subrange(0, 3) =~= "tr_"@);
    }
    s
}

/// A fresh stdio request id: `rq_` followed by a fresh id.
pub fn new_request_id() -> (r: String)
    ensures
        r@.len() == 39,
        r@.subrange(0, 3) == "rq_"@,
{
    let mut s = String::from_str("rq_");
    let id = new_uuid();
    s.append(id.as_str());
    proof {
        reveal_strlit("rq_");
        assert(s@.subrange(0, 3) =~= "rq_"@);
    }
    s
}

} // verus!
