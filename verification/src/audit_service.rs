//! Audit-trail entries: their ids, their timestamps and their contents.

use vstd::prelude::*;
use crate::models::{AuditLogEntry, AuditView};
use crate::text::{chars_of, hex_text, nat_text, owned, push_radix, push_str, string_of};

verus! {

/// The first `len` characters of the lower-case hex text of `nanos`
/// followed by that of `pid` (all of it when shorter).
pub open spec fn hex_id_text(len: nat, nanos: u32, pid: u32) -> Seq<char> {
    let t = hex_text(nanos as nat) + hex_text(pid as nat);
    if len <= t.len() {
        t.take(len as int)
    } else {
        t
    }
}

/// A short id made from a clock reading (`nanos`, the sub-second
/// nanoseconds) and a process id: the first `len` characters of their hex
/// texts run together.
pub fn generate_hex_id(len: usize, nanos: u32, pid: u32) -> (r: String)
    ensures
        r@ == hex_id_text(len as nat, nanos, pid),
{
    let mut full = String::new();
    push_radix(&mut full, nanos as u64, 16);
    push_radix(&mut full, pid as u64, 16);
    let cs = chars_of(full.as_str());
    if len <= cs.len() {
        let mut prefix: Vec<char> = Vec::new();
        let mut i: usize = 0;
        while i < len
            invariant
                i <= len <= cs@.len(),
                prefix@ == cs@.take(i as int),
            decreases len - i,
        {
            prefix.push(cs[i]);
            assert(cs@.take(i + 1) == cs@.take(i as int).push(cs@[i as int]));
            i = i + 1;
        }
        string_of(&prefix)
    } else {
        full
    }
}

/// The timestamp text of a moment: the year counted as whole 365-day years
/// since 1970, followed by "-01-01T00:00:00Z".
pub open spec fn iso_timestamp_text(now_secs: u64) -> Seq<char> {
    nat_text((1970 + now_secs / 31536000) as nat) + "-01-01T00:00:00Z"@
}

/// The timestamp text of the moment `now_secs` seconds after the Unix epoch.
pub fn get_iso_timestamp(now_secs: u64) -> (r: String)
    ensures
        r@ == iso_timestamp_text(now_secs),
{
    let mut r = String::new();
    push_radix(&mut r, 1970 + now_secs / 31536000, 10);
    push_str(&mut r, "-01-01T00:00:00Z");
    r
}

/// The audit entry for an event: id "log_" and six hex characters made from
/// the clock reading and process id, the timestamp of `now_secs`, and the
/// event's fields as given.
pub fn log_audit_event(
    mandate_id: &str,
    user_id: &str,
    merchant_id: &str,
    requested_amount: i64,
    decision: &str,
    reason: &str,
    details_json: &str,
    razorpay_order_id: Option<&str>,
    id_nanos: u32,
    id_pid: u32,
    now_secs: u64,
) -> (r: AuditLogEntry)
    ensures
        r@ == (AuditView {
            log_id: "log_"@ + hex_id_text(6, id_nanos, id_pid),
            timestamp: iso_timestamp_text(now_secs),
            mandate_id: mandate_id@,
            user_id: user_id@,
            merchant_id: merchant_id@,
            requested_amount: requested_amount,
            decision: decision@,
            reason: reason@,
            details_json: details_json@,
            razorpay_order_id: match razorpay_order_id {
                Some(s) => Some(s@),
                None => None,
            },
        }),
{
    let mut log_id = String::new();
    push_str(&mut log_id, "log_");
    let hex = generate_hex_id(6, id_nanos, id_pid);
    push_str(&mut log_id, hex.as_str());
    AuditLogEntry {
        log_id: log_id,
        timestamp: get_iso_timestamp(now_secs),
        mandate_id: owned(mandate_id),
        user_id: owned(user_id),
        merchant_id: owned(merchant_id),
        requested_amount: requested_amount,
        decision: owned(decision),
        reason: owned(reason),
        details_json: owned(details_json),
        razorpay_order_id: match razorpay_order_id {
            Some(s) => Some(owned(s)),
            None => None,
        },
    }
}

} // verus!
