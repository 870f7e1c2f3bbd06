//! The spend authorizer: the eight sequential checks that a request must pass
//! against its mandate, and the authorization protocol around them, written
//! as a step function from the current phase and the outcome of the last
//! piece of outside work to the next phase, the work to do next, and the
//! decision once there is one.

use vstd::prelude::*;
use crate::calendar::{date_of, date_of_day, date_text, format_date};
use crate::models::{
    copy_opt, opt_mandate, opt_text, AuthorizeRequest, DecisionView, GateDecision, MandateModel,
    MandateStatus, MandateView, RequestView,
};
use crate::razorpay_client::{RazorpayError, RazorpayErrorView, RazorpayOrder, RazorpayOrderView};
use crate::text::{
    all_digits, chars_eq, chars_of, digit_char, digits_value, int_text, is_before,
    lemma_digit_code, lemma_nat_text_digits, nat_text, owned, push_char, push_int,
    push_radix, push_str, text_before,
};

verus! {

// ----------------------------------------------------------------------
// Amounts
// ----------------------------------------------------------------------

/// The rupee text of an amount in paise: the rupee sign, a minus sign when
/// negative, the whole rupees, a point and exactly two digits of paise.
pub open spec fn inr_text(paise: int) -> Seq<char> {
    let a = if paise < 0 {
        -paise
    } else {
        paise
    };
    seq!['\u{20b9}'] + (if paise < 0 {
        seq!['-']
    } else {
        seq![]
    }) + nat_text((a / 100) as nat) + seq!['.', digit_char((a % 100) / 10), digit_char(a % 10)]
}

/// A rupee text reads back as its amount: after the rupee sign (and a minus
/// sign exactly when the amount is negative) come the whole rupees in digits,
/// a point and two digits of paise, and rupees times a hundred plus those
/// paise is the amount's size.
pub proof fn lemma_inr_reads_back(paise: int)
    ensures
        ({
            let t = inr_text(paise);
            let start: int = if paise < 0 {
                2
            } else {
                1
            };
            let size: int = if paise < 0 {
                -paise
            } else {
                paise
            };
            &&& t.len() >= start + 4
            &&& t[0] == '\u{20b9}'
            &&& (paise < 0 <==> t[1] == '-')
            &&& t[t.len() - 3] == '.'
            &&& all_digits(t.subrange(start, t.len() - 3))
            &&& all_digits(t.subrange(t.len() - 2, t.len() as int))
            &&& digits_value(t.subrange(start, t.len() - 3)) * 100 + digits_value(
                t.subrange(t.len() - 2, t.len() as int),
            ) == size
        }),
{
    let size: int = if paise < 0 {
        -paise
    } else {
        paise
    };
    let start: int = if paise < 0 {
        2
    } else {
        1
    };
    let w = nat_text((size / 100) as nat);
    lemma_nat_text_digits((size / 100) as nat);
    lemma_digit_code((size % 100) / 10);
    lemma_digit_code(size % 10);
    let c1 = digit_char((size % 100) / 10);
    let c2 = digit_char(size % 10);
    let t = inr_text(paise);
    let sign = if paise < 0 {
        seq!['-']
    } else {
        Seq::<char>::empty()
    };
    assert(t =~= seq!['\u{20b9}'] + sign + w + seq!['.', c1, c2]);
    assert(t.subrange(start, t.len() - 3) =~= w);
    let cents = t.subrange(t.len() - 2, t.len() as int);
    assert(cents =~= seq![c1, c2]);
    assert(cents.drop_last() =~= seq![c1]);
    assert(seq![c1].drop_last() =~= Seq::<char>::empty());
    assert(digits_value(Seq::<char>::empty()) == 0);
    assert(seq![c1].last() == c1 && cents.last() == c2);
    assert(digits_value(seq![c1]) == (size % 100) / 10);
    assert(digits_value(cents) == digits_value(seq![c1]) * 10 + (size % 10));
    if paise >= 0 {
        assert(t[1] == w[0]);
    }
}

/// Formats an amount in paise as rupees with two decimals, e.g. 40000 as
/// "₹400.00".
pub fn format_inr(paise: i64) -> (r: String)
    ensures
        r@ == inr_text(paise as int),
{
    let mut out = String::new();
    push_char(&mut out, '\u{20b9}');
    let a: u64 = if paise < 0 {
        push_char(&mut out, '-');
        (-(paise as i128)) as u64
    } else {
        paise as u64
    };
    push_radix(&mut out, a / 100, 10);
    push_char(&mut out, '.');
    let cents: u64 = a % 100;
    push_char(&mut out, digit_of(cents / 10));
    push_char(&mut out, digit_of(cents % 10));
    out
}

fn digit_of(d: u64) -> (c: char)
    requires
        d < 10,
    ensures
        c == digit_char(d as int),
{
    if d == 0 { '0' } else if d == 1 { '1' } else if d == 2 { '2' } else if d == 3 { '3' }
    else if d == 4 { '4' } else if d == 5 { '5' } else if d == 6 { '6' } else if d == 7 { '7' }
    else if d == 8 { '8' } else { '9' }
}

/// The date text "YYYY-MM-DD" of the day that holds the moment `now_secs`
/// seconds after the Unix epoch (UTC).
pub fn get_today_date_str(now_secs: u64) -> (r: String)
    ensures
        r@ == date_text(
            date_of((now_secs / 86400) as int).0 as nat,
            date_of((now_secs / 86400) as int).1 as nat,
            date_of((now_secs / 86400) as int).2 as nat,
        ),
{
    let (y, m, d) = date_of_day(now_secs / 86400);
    format_date(y, m, d)
}

/// `a - b` clamped to the range of `i64`.
pub open spec fn saturating_diff(a: i64, b: i64) -> i64 {
    let d = a - b;
    if d > i64::MAX {
        i64::MAX
    } else if d < i64::MIN {
        i64::MIN
    } else {
        d as i64
    }
}

fn saturating_sub(a: i64, b: i64) -> (r: i64)
    ensures
        r == saturating_diff(a, b),
{
    let d: i128 = a as i128 - b as i128;
    if d > i64::MAX as i128 {
        i64::MAX
    } else if d < i64::MIN as i128 {
        i64::MIN
    } else {
        d as i64
    }
}


// ----------------------------------------------------------------------
// The checks
// ----------------------------------------------------------------------

/// The first check that a request fails against the mandate it resolved to.
#[derive(Debug, Clone, Copy, PartialEq, Eq, Structural)]
pub enum CheckFailure {
    UserMismatch,
    MerchantMismatch,
    Revoked,
    Expired,
    PerTxnExceeded,
    PerDayExceeded,
    TotalExceeded,
}

/// A mandate has expired when its status says so or when its expiry stamp
/// comes before `now`, the moment of the request, both stamps being UTC
/// "YYYY-MM-DDTHH:MM:SSZ" texts compared character by character.
pub open spec fn mandate_expired(m: MandateView, now: Seq<char>) -> bool {
    ||| m.status == MandateStatus::Expired
    ||| text_before(m.expires_at, now)
}

/// What the mandate has spent today: its daily counter if it was last spent
/// today, otherwise nothing (the daily counter resets with the date).
pub open spec fn spent_today_now(m: MandateView, today: Seq<char>) -> i64 {
    if m.last_spent_date == today {
        m.spent_today
    } else {
        0
    }
}

/// The request passes the checks that come before the daily cap.
pub open spec fn reaches_daily_check(r: RequestView, m: MandateView, now: Seq<char>) -> bool {
    &&& m.user_id == r.user_id
    &&& m.merchant_id == r.merchant_id
    &&& m.status != MandateStatus::Revoked
    &&& !mandate_expired(m, now)
    &&& r.amount <= m.max_per_txn
}

/// The first check, in the authorizer's order, that the request fails against the
/// mandate on date `today` at moment `now`; `None` when it passes them all.
pub open spec fn first_failure(r: RequestView, m: MandateView, today: Seq<char>, now: Seq<char>) -> Option<
    CheckFailure,
> {
    if m.user_id != r.user_id {
        Some(CheckFailure::UserMismatch)
    } else if m.merchant_id != r.merchant_id {
        Some(CheckFailure::MerchantMismatch)
    } else if m.status == MandateStatus::Revoked {
        Some(CheckFailure::Revoked)
    } else if mandate_expired(m, now) {
        Some(CheckFailure::Expired)
    } else if r.amount > m.max_per_txn {
        Some(CheckFailure::PerTxnExceeded)
    } else if spent_today_now(m, today) + r.amount > m.max_per_day {
        Some(CheckFailure::PerDayExceeded)
    } else if m.spent_total + r.amount > m.max_total {
        Some(CheckFailure::TotalExceeded)
    } else {
        None
    }
}

/// The sums the authorizer forms stay within `i64` on this request: today's
/// spending plus the amount once the daily cap is checked, and the total
/// plus the amount once the total cap is checked.
pub open spec fn sums_in_range(r: RequestView, m: MandateView, today: Seq<char>, now: Seq<char>) -> bool {
    &&& reaches_daily_check(r, m, now) ==> i64::MIN <= spent_today_now(m, today) + r.amount <= i64::MAX
    &&& (reaches_daily_check(r, m, now) && spent_today_now(m, today) + r.amount <= m.max_per_day)
        ==> i64::MIN <= m.spent_total + r.amount <= i64::MAX
}

fn text_eq(a: &str, b: &str) -> (r: bool)
    ensures
        r == (a@ == b@),
{
    let x = chars_of(a);
    let y = chars_of(b);
    chars_eq(&x, &y)
}

/// Whether the mandate has expired at the moment `now` (see
/// `mandate_expired`).
pub fn is_expired(m: &MandateModel, now: &str) -> (r: bool)
    ensures
        r == mandate_expired(m@, now@),
{
    m.status == MandateStatus::Expired || is_before(m.expires_at.as_str(), now)
}

/// What the mandate has spent today.
pub fn current_spent_today(m: &MandateModel, today: &str) -> (r: i64)
    ensures
        r == spent_today_now(m@, today@),
{
    if text_eq(m.last_spent_date.as_str(), today) {
        m.spent_today
    } else {
        0
    }
}

/// Runs the authorizer's checks in order and names the first that fails.
pub fn check_mandate(req: &AuthorizeRequest, m: &MandateModel, today: &str, now: &str) -> (r: Option<
    CheckFailure,
>)
    ensures
        r == first_failure(req@, m@, today@, now@),
{
    if !text_eq(m.user_id.as_str(), req.user_id.as_str()) {
        Some(CheckFailure::UserMismatch)
    } else if !text_eq(m.merchant_id.as_str(), req.merchant_id.as_str()) {
        Some(CheckFailure::MerchantMismatch)
    } else if m.status == MandateStatus::Revoked {
        Some(CheckFailure::Revoked)
    } else if is_expired(m, now) {
        Some(CheckFailure::Expired)
    } else if req.amount > m.max_per_txn {
        Some(CheckFailure::PerTxnExceeded)
    } else if current_spent_today(m, today) as i128 + req.amount as i128 > m.max_per_day as i128 {
        Some(CheckFailure::PerDayExceeded)
    } else if m.spent_total as i128 + req.amount as i128 > m.max_total as i128 {
        Some(CheckFailure::TotalExceeded)
    } else {
        None
    }
}

/// Whether the sums the authorizer forms on this request stay within `i64`.
pub fn check_sums_in_range(req: &AuthorizeRequest, m: &MandateModel, today: &str, now: &str) -> (r: bool)
    ensures
        r == sums_in_range(req@, m@, today@, now@),
{
    let reaches = text_eq(m.user_id.as_str(), req.user_id.as_str()) && text_eq(
        m.merchant_id.as_str(),
        req.merchant_id.as_str(),
    ) && m.status != MandateStatus::Revoked && !is_expired(m, now) && req.amount <= m.max_per_txn;
    if !reaches {
        return true;
    }
    let day: i128 = current_spent_today(m, today) as i128 + req.amount as i128;
    if day < i64::MIN as i128 || day > i64::MAX as i128 {
        return false;
    }
    if day > m.max_per_day as i128 {
        return true;
    }
    let total: i128 = m.spent_total as i128 + req.amount as i128;
    i64::MIN as i128 <= total && total <= i64::MAX as i128
}


// ----------------------------------------------------------------------
// What a decision says
// ----------------------------------------------------------------------

/// The reason code of a failed check.
pub open spec fn failure_reason(f: CheckFailure) -> Seq<char> {
    match f {
        CheckFailure::UserMismatch => "user_mismatch"@,
        CheckFailure::MerchantMismatch => "merchant_mismatch"@,
        CheckFailure::Revoked => "mandate_revoked"@,
        CheckFailure::Expired => "mandate_expired"@,
        CheckFailure::PerTxnExceeded => "max_per_txn_exceeded"@,
        CheckFailure::PerDayExceeded => "max_per_day_exceeded"@,
        CheckFailure::TotalExceeded => "max_total_exceeded"@,
    }
}

/// The reason code of a failed check.
pub fn reason_of(f: CheckFailure) -> (r: &'static str)
    ensures
        r@ == failure_reason(f),
{
    match f {
        CheckFailure::UserMismatch => "user_mismatch",
        CheckFailure::MerchantMismatch => "merchant_mismatch",
        CheckFailure::Revoked => "mandate_revoked",
        CheckFailure::Expired => "mandate_expired",
        CheckFailure::PerTxnExceeded => "max_per_txn_exceeded",
        CheckFailure::PerDayExceeded => "max_per_day_exceeded",
        CheckFailure::TotalExceeded => "max_total_exceeded",
    }
}

/// The limit a denial reports: the cap that the amount broke.
pub open spec fn failure_limit(f: CheckFailure, m: MandateView) -> Option<i64> {
    match f {
        CheckFailure::PerTxnExceeded => Some(m.max_per_txn),
        CheckFailure::PerDayExceeded => Some(m.max_per_day),
        CheckFailure::TotalExceeded => Some(m.max_total),
        _ => None,
    }
}

/// What a denial reports as already spent against the cap it names.
pub open spec fn failure_spent(f: CheckFailure, m: MandateView, today: Seq<char>) -> Option<i64> {
    match f {
        CheckFailure::PerTxnExceeded => Some(0),
        CheckFailure::PerDayExceeded => Some(spent_today_now(m, today)),
        CheckFailure::TotalExceeded => Some(m.spent_total),
        _ => None,
    }
}

/// The human-readable message of a denial.
pub open spec fn failure_message(
    f: CheckFailure,
    r: RequestView,
    m: MandateView,
    today: Seq<char>,
) -> Seq<char> {
    let st = spent_today_now(m, today);
    match f {
        CheckFailure::UserMismatch => "Mandate '"@ + m.mandate_id + "' belongs to user '"@
            + m.user_id + "', but request was for user '"@ + r.user_id + "'."@,
        CheckFailure::MerchantMismatch => "Mandate '"@ + m.mandate_id
            + "' is scoped to merchant '"@ + m.merchant_id
            + "', but request attempted transaction at merchant '"@ + r.merchant_id + "'."@,
        CheckFailure::Revoked => "Mandate '"@ + m.mandate_id
            + "' has been revoked by the user."@,
        CheckFailure::Expired => "Mandate '"@ + m.mandate_id + "' expired at "@ + m.expires_at
            + "."@,
        CheckFailure::PerTxnExceeded => "Transaction denied: Requested amount "@ + inr_text(
            r.amount as int,
        ) + " exceeds single transaction limit "@ + inr_text(m.max_per_txn as int) + "."@,
        CheckFailure::PerDayExceeded => "Transaction denied: Requested "@ + inr_text(
            r.amount as int,
        ) + " exceeds remaining daily cap "@ + inr_text(saturating_diff(m.max_per_day, st) as int)
            + " (spent "@ + inr_text(st as int) + " / "@ + inr_text(m.max_per_day as int)
            + " today)."@,
        CheckFailure::TotalExceeded => "Transaction denied: Requested "@ + inr_text(
            r.amount as int,
        ) + " exceeds remaining total mandate cap "@ + inr_text(
            saturating_diff(m.max_total, m.spent_total) as int,
        ) + " (spent "@ + inr_text(m.spent_total as int) + " / "@ + inr_text(m.max_total as int)
            + " total)."@,
    }
}

/// The JSON details that the audit trail keeps for a denial.
pub open spec fn failure_details(
    f: CheckFailure,
    r: RequestView,
    m: MandateView,
    today: Seq<char>,
) -> Seq<char> {
    match f {
        CheckFailure::UserMismatch => "{\"mandate_user\":\""@ + m.user_id
            + "\",\"requested_user\":\""@ + r.user_id + "\"}"@,
        CheckFailure::MerchantMismatch => "{\"mandate_merchant\":\""@ + m.merchant_id
            + "\",\"requested_merchant\":\""@ + r.merchant_id + "\"}"@,
        CheckFailure::Revoked => "{\"status\":\"revoked\"}"@,
        CheckFailure::Expired => "{\"expires_at\":\""@ + m.expires_at + "\"}"@,
        CheckFailure::PerTxnExceeded => "{\"limit\":"@ + int_text(m.max_per_txn as int)
            + ",\"requested\":"@ + int_text(r.amount as int) + "}"@,
        CheckFailure::PerDayExceeded => "{\"limit\":"@ + int_text(m.max_per_day as int)
            + ",\"already_spent\":"@ + int_text(spent_today_now(m, today) as int)
            + ",\"requested\":"@ + int_text(r.amount as int) + "}"@,
        CheckFailure::TotalExceeded => "{\"limit\":"@ + int_text(m.max_total as int)
            + ",\"already_spent\":"@ + int_text(m.spent_total as int) + ",\"requested\":"@
            + int_text(r.amount as int) + "}"@,
    }
}

fn push_inr(out: &mut String, paise: i64)
    ensures
        final(out)@ == old(out)@ + inr_text(paise as int),
{
    let t = format_inr(paise);
    push_str(out, t.as_str());
}

/// The message of a denial.
pub fn denial_message(f: CheckFailure, req: &AuthorizeRequest, m: &MandateModel, today: &str) -> (r:
    String)
    ensures
        r@ == failure_message(f, req@, m@, today@),
{
    let mut out = String::new();
    match f {
        CheckFailure::UserMismatch => {
            push_str(&mut out, "Mandate '");
            push_str(&mut out, m.mandate_id.as_str());
            push_str(&mut out, "' belongs to user '");
            push_str(&mut out, m.user_id.as_str());
            push_str(&mut out, "', but request was for user '");
            push_str(&mut out, req.user_id.as_str());
            push_str(&mut out, "'.");
        },
        CheckFailure::MerchantMismatch => {
            push_str(&mut out, "Mandate '");
            push_str(&mut out, m.mandate_id.as_str());
            push_str(&mut out, "' is scoped to merchant '");
            push_str(&mut out, m.merchant_id.as_str());
            push_str(&mut out, "', but request attempted transaction at merchant '");
            push_str(&mut out, req.merchant_id.as_str());
            push_str(&mut out, "'.");
        },
        CheckFailure::Revoked => {
            push_str(&mut out, "Mandate '");
            push_str(&mut out, m.mandate_id.as_str());
            push_str(&mut out, "' has been revoked by the user.");
        },
        CheckFailure::Expired => {
            push_str(&mut out, "Mandate '");
            push_str(&mut out, m.mandate_id.as_str());
            push_str(&mut out, "' expired at ");
            push_str(&mut out, m.expires_at.as_str());
            push_str(&mut out, ".");
        },
        CheckFailure::PerTxnExceeded => {
            push_str(&mut out, "Transaction denied: Requested amount ");
            push_inr(&mut out, req.amount);
            push_str(&mut out, " exceeds single transaction limit ");
            push_inr(&mut out, m.max_per_txn);
            push_str(&mut out, ".");
        },
        CheckFailure::PerDayExceeded => {
            let st = current_spent_today(m, today);
            push_str(&mut out, "Transaction denied: Requested ");
            push_inr(&mut out, req.amount);
            push_str(&mut out, " exceeds remaining daily cap ");
            push_inr(&mut out, saturating_sub(m.max_per_day, st));
            push_str(&mut out, " (spent ");
            push_inr(&mut out, st);
            push_str(&mut out, " / ");
            push_inr(&mut out, m.max_per_day);
            push_str(&mut out, " today).");
        },
        CheckFailure::TotalExceeded => {
            push_str(&mut out, "Transaction denied: Requested ");
            push_inr(&mut out, req.amount);
            push_str(&mut out, " exceeds remaining total mandate cap ");
            push_inr(&mut out, saturating_sub(m.max_total, m.spent_total));
            push_str(&mut out, " (spent ");
            push_inr(&mut out, m.spent_total);
            push_str(&mut out, " / ");
            push_inr(&mut out, m.max_total);
            push_str(&mut out, " total).");
        },
    }
    out
}

/// The audit details of a denial.
pub fn denial_details(f: CheckFailure, req: &AuthorizeRequest, m: &MandateModel, today: &str) -> (r:
    String)
    ensures
        r@ == failure_details(f, req@, m@, today@),
{
    let mut out = String::new();
    match f {
        CheckFailure::UserMismatch => {
            push_str(&mut out, "{\"mandate_user\":\"");
            push_str(&mut out, m.user_id.as_str());
            push_str(&mut out, "\",\"requested_user\":\"");
            push_str(&mut out, req.user_id.as_str());
            push_str(&mut out, "\"}");
        },
        CheckFailure::MerchantMismatch => {
            push_str(&mut out, "{\"mandate_merchant\":\"");
            push_str(&mut out, m.merchant_id.as_str());
            push_str(&mut out, "\",\"requested_merchant\":\"");
            push_str(&mut out, req.merchant_id.as_str());
            push_str(&mut out, "\"}");
        },
        CheckFailure::Revoked => {
            push_str(&mut out, "{\"status\":\"revoked\"}");
        },
        CheckFailure::Expired => {
            push_str(&mut out, "{\"expires_at\":\"");
            push_str(&mut out, m.expires_at.as_str());
            push_str(&mut out, "\"}");
        },
        CheckFailure::PerTxnExceeded => {
            push_str(&mut out, "{\"limit\":");
            push_int(&mut out, m.max_per_txn);
            push_str(&mut out, ",\"requested\":");
            push_int(&mut out, req.amount);
            push_str(&mut out, "}");
        },
        CheckFailure::PerDayExceeded => {
            push_str(&mut out, "{\"limit\":");
            push_int(&mut out, m.max_per_day);
            push_str(&mut out, ",\"already_spent\":");
            push_int(&mut out, current_spent_today(m, today));
            push_str(&mut out, ",\"requested\":");
            push_int(&mut out, req.amount);
            push_str(&mut out, "}");
        },
        CheckFailure::TotalExceeded => {
            push_str(&mut out, "{\"limit\":");
            push_int(&mut out, m.max_total);
            push_str(&mut out, ",\"already_spent\":");
            push_int(&mut out, m.spent_total);
            push_str(&mut out, ",\"requested\":");
            push_int(&mut out, req.amount);
            push_str(&mut out, "}");
        },
    }
    out
}


// ----------------------------------------------------------------------
// The authorization protocol
// ----------------------------------------------------------------------

/// An entry that the authorizer asks to be written to the audit trail.
#[derive(Debug, Clone)]
pub struct AuditEvent {
    pub mandate_id: String,
    pub user_id: String,
    pub merchant_id: String,
    pub requested_amount: i64,
    pub decision: String,
    pub reason: String,
    pub details_json: String,
    pub razorpay_order_id: Option<String>,
}

/// An audit request as mathematical values.
pub struct AuditEventView {
    pub mandate_id: Seq<char>,
    pub user_id: Seq<char>,
    pub merchant_id: Seq<char>,
    pub requested_amount: i64,
    pub decision: Seq<char>,
    pub reason: Seq<char>,
    pub details_json: Seq<char>,
    pub razorpay_order_id: Option<Seq<char>>,
}

impl View for AuditEvent {
    type V = AuditEventView;

    open spec fn view(&self) -> AuditEventView {
        AuditEventView {
            mandate_id: self.mandate_id@,
            user_id: self.user_id@,
            merchant_id: self.merchant_id@,
            requested_amount: self.requested_amount,
            decision: self.decision@,
            reason: self.reason@,
            details_json: self.details_json@,
            razorpay_order_id: opt_text(self.razorpay_order_id),
        }
    }
}

/// The order that the authorizer asks Razorpay for once every check has passed.
#[derive(Debug, Clone)]
pub struct OrderRequest {
    pub amount: i64,
    pub user_id: String,
    pub merchant_id: String,
    pub mandate_id: String,
}

/// An order request as mathematical values.
pub struct OrderRequestView {
    pub amount: i64,
    pub user_id: Seq<char>,
    pub merchant_id: Seq<char>,
    pub mandate_id: Seq<char>,
}

impl View for OrderRequest {
    type V = OrderRequestView;

    open spec fn view(&self) -> OrderRequestView {
        OrderRequestView {
            amount: self.amount,
            user_id: self.user_id@,
            merchant_id: self.merchant_id@,
            mandate_id: self.mandate_id@,
        }
    }
}

/// A piece of outside work that the authorizer asks for, in the order given.
#[derive(Debug, Clone)]
pub enum GateEffect {
    /// Open an immediate (write-locking) transaction.
    BeginImmediate,
    /// Look up a mandate by its id.
    QueryMandateById(String),
    /// Look up the newest active mandate of a user at a merchant.
    QueryActiveMandate(String, String),
    /// Set the status of a mandate.
    UpdateMandateStatus(String, String),
    /// Set a mandate's daily and total spending and the date of the last spend.
    UpdateMandateSpend(String, i64, i64, String),
    /// Write an entry to the audit trail.
    LogAudit(AuditEvent),
    /// Commit the transaction.
    Commit,
    /// Roll the transaction back.
    Rollback,
    /// Ask Razorpay for an order.
    CreateOrder(OrderRequest),
}

/// A piece of outside work as mathematical values.
pub enum EffectView {
    BeginImmediate,
    QueryMandateById(Seq<char>),
    QueryActiveMandate(Seq<char>, Seq<char>),
    UpdateMandateStatus(Seq<char>, Seq<char>),
    UpdateMandateSpend(Seq<char>, i64, i64, Seq<char>),
    LogAudit(AuditEventView),
    Commit,
    Rollback,
    CreateOrder(OrderRequestView),
}

impl View for GateEffect {
    type V = EffectView;

    open spec fn view(&self) -> EffectView {
        match self {
            GateEffect::BeginImmediate => EffectView::BeginImmediate,
            GateEffect::QueryMandateById(id) => EffectView::QueryMandateById(id@),
            GateEffect::QueryActiveMandate(u, m) => EffectView::QueryActiveMandate(u@, m@),
            GateEffect::UpdateMandateStatus(id, st) => EffectView::UpdateMandateStatus(id@, st@),
            GateEffect::UpdateMandateSpend(id, d, t, date) => EffectView::UpdateMandateSpend(
                id@,
                *d,
                *t,
                date@,
            ),
            GateEffect::LogAudit(e) => EffectView::LogAudit(e@),
            GateEffect::Commit => EffectView::Commit,
            GateEffect::Rollback => EffectView::Rollback,
            GateEffect::CreateOrder(o) => EffectView::CreateOrder(o@),
        }
    }
}

/// A request that passed every check: its mandate and what the mandate had
/// spent today before it.
#[derive(Debug, Clone)]
pub struct Approval {
    pub mandate: MandateModel,
    pub spent_today: i64,
}

/// An approval as mathematical values.
pub struct ApprovalView {
    pub mandate: MandateView,
    pub spent_today: i64,
}

impl View for Approval {
    type V = ApprovalView;

    open spec fn view(&self) -> ApprovalView {
        ApprovalView { mandate: self.mandate@, spent_today: self.spent_today }
    }
}

/// Where an authorization stands.
#[derive(Debug, Clone)]
pub enum GatePhase {
    /// Nothing has been done yet.
    Start,
    /// The transaction has been asked for.
    Locking,
    /// The mandate has been asked for.
    Loading,
    /// Every check passed and the order has been asked for.
    AwaitingOrder(Approval),
    /// The decision has been given.
    Finished,
}

/// A phase as mathematical values.
pub enum PhaseView {
    Start,
    Locking,
    Loading,
    AwaitingOrder(ApprovalView),
    Finished,
}

impl View for GatePhase {
    type V = PhaseView;

    open spec fn view(&self) -> PhaseView {
        match self {
            GatePhase::Start => PhaseView::Start,
            GatePhase::Locking => PhaseView::Locking,
            GatePhase::Loading => PhaseView::Loading,
            GatePhase::AwaitingOrder(a) => PhaseView::AwaitingOrder(a@),
            GatePhase::Finished => PhaseView::Finished,
        }
    }
}

/// The outcome of the last piece of outside work.
#[derive(Debug)]
pub enum GateEvent {
    /// The authorization is to start.
    Begin,
    /// The transaction was opened, or why not.
    LockResult(Result<(), String>),
    /// The mandate that the lookup found, none, or a database error.
    MandateLoaded(Result<Option<MandateModel>, String>),
    /// The order that Razorpay created, or why not.
    OrderResult(Result<RazorpayOrder, RazorpayError>),
}

/// An outcome as mathematical values.
pub enum EventView {
    Begin,
    LockResult(Result<(), Seq<char>>),
    MandateLoaded(Result<Option<MandateView>, Seq<char>>),
    OrderResult(Result<RazorpayOrderView, RazorpayErrorView>),
}

impl View for GateEvent {
    type V = EventView;

    open spec fn view(&self) -> EventView {
        match self {
            GateEvent::Begin => EventView::Begin,
            GateEvent::LockResult(Ok(())) => EventView::LockResult(Ok(())),
            GateEvent::LockResult(Err(e)) => EventView::LockResult(Err(e@)),
            GateEvent::MandateLoaded(Ok(m)) => EventView::MandateLoaded(Ok(opt_mandate(*m))),
            GateEvent::MandateLoaded(Err(e)) => EventView::MandateLoaded(Err(e@)),
            GateEvent::OrderResult(Ok(o)) => EventView::OrderResult(Ok(o@)),
            GateEvent::OrderResult(Err(e)) => EventView::OrderResult(Err(e@)),
        }
    }
}

/// One step of the protocol: the next phase, the outside work to do in
/// order, and the decision once it is given.
#[derive(Debug, Clone)]
pub struct GateStep {
    pub phase: GatePhase,
    pub effects: Vec<GateEffect>,
    pub decision: Option<GateDecision>,
}

/// A step as mathematical values.
pub struct StepView {
    pub phase: PhaseView,
    pub effects: Seq<EffectView>,
    pub decision: Option<DecisionView>,
}

/// The views of a sequence of effects.
pub open spec fn effects_view(v: Seq<GateEffect>) -> Seq<EffectView> {
    v.map_values(|e: GateEffect| e@)
}

/// The view of an optional decision.
pub open spec fn opt_decision(o: Option<GateDecision>) -> Option<DecisionView> {
    match o {
        Some(d) => Some(d@),
        None => None,
    }
}

impl View for GateStep {
    type V = StepView;

    open spec fn view(&self) -> StepView {
        StepView {
            phase: self.phase@,
            effects: effects_view(self.effects@),
            decision: opt_decision(self.decision),
        }
    }
}


// ----------------------------------------------------------------------
// The protocol, stated
// ----------------------------------------------------------------------

/// A decision with no limit, spending figures, order or updated mandate.
pub open spec fn plain_decision(
    kind: Seq<char>,
    reason: Seq<char>,
    mandate_id: Option<Seq<char>>,
    r: RequestView,
    message: Seq<char>,
) -> DecisionView {
    DecisionView {
        decision: kind,
        reason: reason,
        mandate_id: mandate_id,
        user_id: r.user_id,
        merchant_id: r.merchant_id,
        requested_amount: r.amount,
        limit: None,
        already_spent: None,
        razorpay_order_id: None,
        updated_mandate: None,
        message: Some(message),
    }
}

/// The decision when the transaction could not be opened.
pub open spec fn lock_error_decision(r: RequestView, e: Seq<char>) -> DecisionView {
    plain_decision("error"@, "database_lock_error"@, r.mandate_id, r, "Database lock error: "@ + e)
}

/// The decision when the mandate lookup failed.
pub open spec fn db_error_decision(r: RequestView, e: Seq<char>) -> DecisionView {
    plain_decision("error"@, "db_error"@, r.mandate_id, r, e)
}

/// The message when no mandate was found.
pub open spec fn not_found_message(r: RequestView) -> Seq<char> {
    match r.mandate_id {
        Some(id) => "Mandate '"@ + id + "' was not found in the database."@,
        None => "No active mandate found for user '"@ + r.user_id + "' at merchant '"@
            + r.merchant_id + "'."@,
    }
}

/// The decision when no mandate was found.
pub open spec fn not_found_decision(r: RequestView) -> DecisionView {
    plain_decision("denied"@, "mandate_not_found"@, r.mandate_id, r, not_found_message(r))
}

/// The audit entry when no mandate was found.
pub open spec fn not_found_audit(r: RequestView) -> AuditEventView {
    AuditEventView {
        mandate_id: match r.mandate_id {
            Some(id) => id,
            None => "none"@,
        },
        user_id: r.user_id,
        merchant_id: r.merchant_id,
        requested_amount: r.amount,
        decision: "denied"@,
        reason: "mandate_not_found"@,
        details_json: "{\"message\":\""@ + not_found_message(r) + "\"}"@,
        razorpay_order_id: None,
    }
}

/// The decision when a check fails.
pub open spec fn denial_decision(
    f: CheckFailure,
    r: RequestView,
    m: MandateView,
    today: Seq<char>,
) -> DecisionView {
    DecisionView {
        limit: failure_limit(f, m),
        already_spent: failure_spent(f, m, today),
        ..plain_decision(
            "denied"@,
            failure_reason(f),
            Some(m.mandate_id),
            r,
            failure_message(f, r, m, today),
        )
    }
}

/// The audit entry when a check fails.
pub open spec fn denial_audit(
    f: CheckFailure,
    r: RequestView,
    m: MandateView,
    today: Seq<char>,
) -> AuditEventView {
    AuditEventView {
        mandate_id: m.mandate_id,
        user_id: r.user_id,
        merchant_id: r.merchant_id,
        requested_amount: r.amount,
        decision: "denied"@,
        reason: failure_reason(f),
        details_json: failure_details(f, r, m, today),
        razorpay_order_id: None,
    }
}

/// The work done when a check fails: an expired mandate is marked expired,
/// the denial is logged and the transaction committed.
pub open spec fn denial_effects(
    f: CheckFailure,
    r: RequestView,
    m: MandateView,
    today: Seq<char>,
) -> Seq<EffectView> {
    (if f == CheckFailure::Expired {
        seq![EffectView::UpdateMandateStatus(m.mandate_id, "expired"@)]
    } else {
        seq![]
    }) + seq![EffectView::LogAudit(denial_audit(f, r, m, today)), EffectView::Commit]
}

/// The order asked for once every check has passed.
pub open spec fn order_request(r: RequestView, m: MandateView) -> OrderRequestView {
    OrderRequestView {
        amount: r.amount,
        user_id: r.user_id,
        merchant_id: r.merchant_id,
        mandate_id: m.mandate_id,
    }
}

/// The lookup that a request asks for: by id when it names a mandate,
/// otherwise the active mandate of its user at its merchant.
pub open spec fn lookup_effect(r: RequestView) -> EffectView {
    match r.mandate_id {
        Some(id) => EffectView::QueryMandateById(id),
        None => EffectView::QueryActiveMandate(r.user_id, r.merchant_id),
    }
}

/// The mandate after an approved charge: both counters raised by the
/// amount, the last spend dated today.
pub open spec fn charged_mandate(r: RequestView, a: ApprovalView, today: Seq<char>) -> MandateView {
    MandateView {
        mandate_id: a.mandate.mandate_id,
        user_id: r.user_id,
        merchant_id: r.merchant_id,
        max_per_txn: a.mandate.max_per_txn,
        max_per_day: a.mandate.max_per_day,
        max_total: a.mandate.max_total,
        spent_today: (a.spent_today + r.amount) as i64,
        spent_total: (a.mandate.spent_total + r.amount) as i64,
        last_spent_date: today,
        expires_at: a.mandate.expires_at,
        created_at: a.mandate.created_at,
        status: a.mandate.status,
    }
}

/// The message of an approval.
pub open spec fn approval_message(r: RequestView, a: ApprovalView, o: RazorpayOrderView) -> Seq<
    char,
> {
    "Transaction approved: "@ + inr_text(r.amount as int) + " charged under mandate '"@
        + a.mandate.mandate_id + "'. Razorpay Order ID: "@ + o.id + "."@
}

/// The audit details of an approval: the caps and the new counters.
pub open spec fn approval_details(r: RequestView, a: ApprovalView, today: Seq<char>) -> Seq<char> {
    let c = charged_mandate(r, a, today);
    "{\"max_per_txn\":"@ + int_text(c.max_per_txn as int) + ",\"max_per_day\":"@ + int_text(
        c.max_per_day as int,
    ) + ",\"spent_today\":"@ + int_text(c.spent_today as int) + ",\"spent_total\":"@ + int_text(
        c.spent_total as int,
    ) + "}"@
}

/// The decision of an approval.
pub open spec fn approval_decision(
    r: RequestView,
    a: ApprovalView,
    o: RazorpayOrderView,
    today: Seq<char>,
) -> DecisionView {
    DecisionView {
        razorpay_order_id: Some(o.id),
        updated_mandate: Some(charged_mandate(r, a, today)),
        ..plain_decision(
            "approved"@,
            "passed_all_checks"@,
            Some(a.mandate.mandate_id),
            r,
            approval_message(r, a, o),
        )
    }
}

/// The work done on an approval: the counters are written, the approval
/// is logged with its order id, and the transaction committed.
pub open spec fn approval_effects(
    r: RequestView,
    a: ApprovalView,
    o: RazorpayOrderView,
    today: Seq<char>,
) -> Seq<EffectView> {
    let c = charged_mandate(r, a, today);
    seq![
        EffectView::UpdateMandateSpend(c.mandate_id, c.spent_today, c.spent_total, today),
        EffectView::LogAudit(
            AuditEventView {
                mandate_id: c.mandate_id,
                user_id: r.user_id,
                merchant_id: r.merchant_id,
                requested_amount: r.amount,
                decision: "approved"@,
                reason: "passed_all_checks"@,
                details_json: approval_details(r, a, today),
                razorpay_order_id: Some(o.id),
            },
        ),
        EffectView::Commit,
    ]
}

/// The decision when Razorpay refused the order.
pub open spec fn order_error_decision(r: RequestView, a: ApprovalView, e: RazorpayErrorView) -> DecisionView {
    plain_decision(
        "error"@,
        "razorpay_api_error"@,
        Some(a.mandate.mandate_id),
        r,
        "Razorpay API Error: "@ + e.message,
    )
}

/// The work done when Razorpay refused the order: the transaction is rolled
/// back and the error is logged.
pub open spec fn order_error_effects(r: RequestView, a: ApprovalView, e: RazorpayErrorView) -> Seq<
    EffectView,
> {
    seq![
        EffectView::Rollback,
        EffectView::LogAudit(
            AuditEventView {
                mandate_id: a.mandate.mandate_id,
                user_id: r.user_id,
                merchant_id: r.merchant_id,
                requested_amount: r.amount,
                decision: "error"@,
                reason: "razorpay_api_error"@,
                details_json: "{\"error_code\":"@ + nat_text(e.status_code as nat)
                    + ",\"message\":\""@ + e.message + "\"}"@,
                razorpay_order_id: None,
            },
        ),
    ]
}

/// A step that gives a decision and ends the protocol.
pub open spec fn finish(effects: Seq<EffectView>, d: DecisionView) -> StepView {
    StepView { phase: PhaseView::Finished, effects: effects, decision: Some(d) }
}

/// One step of the authorizer: from the phase and the outcome of the last piece
/// of outside work to the next phase, the work to do, and the decision.
/// An outcome that does not belong to the phase ends the protocol with
/// nothing done and no decision.
pub open spec fn gate_transition(
    r: RequestView,
    today: Seq<char>,
    now: Seq<char>,
    phase: PhaseView,
    event: EventView,
) -> StepView {
    match phase {
        PhaseView::Start => match event {
            EventView::Begin => StepView {
                phase: PhaseView::Locking,
                effects: seq![EffectView::BeginImmediate],
                decision: None,
            },
            _ => StepView { phase: PhaseView::Finished, effects: seq![], decision: None },
        },
        PhaseView::Locking => match event {
            EventView::LockResult(Ok(())) => StepView {
                phase: PhaseView::Loading,
                effects: seq![lookup_effect(r)],
                decision: None,
            },
            EventView::LockResult(Err(e)) => finish(seq![], lock_error_decision(r, e)),
            _ => StepView { phase: PhaseView::Finished, effects: seq![], decision: None },
        },
        PhaseView::Loading => match event {
            EventView::MandateLoaded(Err(e)) => finish(
                seq![EffectView::Rollback],
                db_error_decision(r, e),
            ),
            EventView::MandateLoaded(Ok(None)) => finish(
                seq![EffectView::LogAudit(not_found_audit(r)), EffectView::Commit],
                not_found_decision(r),
            ),
            EventView::MandateLoaded(Ok(Some(m))) => match first_failure(r, m, today, now) {
                Some(f) => finish(denial_effects(f, r, m, today), denial_decision(f, r, m, today)),
                None => StepView {
                    phase: PhaseView::AwaitingOrder(
                        ApprovalView { mandate: m, spent_today: spent_today_now(m, today) },
                    ),
                    effects: seq![EffectView::CreateOrder(order_request(r, m))],
                    decision: None,
                },
            },
            _ => StepView { phase: PhaseView::Finished, effects: seq![], decision: None },
        },
        PhaseView::AwaitingOrder(a) => match event {
            EventView::OrderResult(Ok(o)) => finish(
                approval_effects(r, a, o, today),
                approval_decision(r, a, o, today),
            ),
            EventView::OrderResult(Err(e)) => finish(
                order_error_effects(r, a, e),
                order_error_decision(r, a, e),
            ),
            _ => StepView { phase: PhaseView::Finished, effects: seq![], decision: None },
        },
        PhaseView::Finished => StepView {
            phase: PhaseView::Finished,
            effects: seq![],
            decision: None,
        },
    }
}

/// An approval that the authorizer itself could have produced for this request
/// today: its mandate passes every check, it carries the mandate's spending
/// of today, and the new counters fit in `i64`.
pub open spec fn approval_valid(r: RequestView, a: ApprovalView, today: Seq<char>, now: Seq<char>) -> bool {
    &&& first_failure(r, a.mandate, today, now) is None
    &&& a.spent_today == spent_today_now(a.mandate, today)
    &&& sums_in_range(r, a.mandate, today, now)
}

/// The inputs on which a step is defined: a loaded mandate on which the
/// authorizer's sums stay in range, and an approval phase the authorizer could have
/// produced.
pub open spec fn step_defined(
    r: RequestView,
    today: Seq<char>,
    now: Seq<char>,
    phase: PhaseView,
    event: EventView,
) -> bool {
    match phase {
        PhaseView::Loading => match event {
            EventView::MandateLoaded(Ok(Some(m))) => sums_in_range(r, m, today, now),
            _ => true,
        },
        PhaseView::AwaitingOrder(a) => approval_valid(r, a, today, now),
        _ => true,
    }
}


// ----------------------------------------------------------------------
// The protocol, computed
// ----------------------------------------------------------------------

fn make_decision(
    kind: &str,
    reason: &str,
    mandate_id: Option<String>,
    req: &AuthorizeRequest,
    message: String,
) -> (d: GateDecision)
    ensures
        d@ == plain_decision(kind@, reason@, opt_text(mandate_id), req@, message@),
{
    GateDecision {
        decision: owned(kind),
        reason: owned(reason),
        mandate_id: mandate_id,
        user_id: req.user_id.clone(),
        merchant_id: req.merchant_id.clone(),
        requested_amount: req.amount,
        limit: None,
        already_spent: None,
        razorpay_order_id: None,
        updated_mandate: None,
        message: Some(message),
    }
}

fn idle() -> (s: GateStep)
    ensures
        s@ == (StepView { phase: PhaseView::Finished, effects: seq![], decision: None }),
{
    let effects: Vec<GateEffect> = Vec::new();
    let s = GateStep { phase: GatePhase::Finished, effects: effects, decision: None };
    assert(effects_view(s.effects@) =~= seq![]);
    s
}

fn step_lock(req: &AuthorizeRequest, res: Result<(), String>) -> (s: GateStep)
    ensures
        s@ == gate_transition(
            req@,
            seq![],
            seq![],
            PhaseView::Locking,
            EventView::LockResult(
                match res {
                    Ok(()) => Ok(()),
                    Err(e) => Err(e@),
                },
            ),
        ),
{
    match res {
        Ok(()) => {
            let mut effects: Vec<GateEffect> = Vec::new();
            match &req.mandate_id {
                Some(id) => effects.push(GateEffect::QueryMandateById(id.clone())),
                None => effects.push(
                    GateEffect::QueryActiveMandate(req.user_id.clone(), req.merchant_id.clone()),
                ),
            }
            let s = GateStep { phase: GatePhase::Loading, effects: effects, decision: None };
            assert(effects_view(s.effects@) =~= seq![lookup_effect(req@)]);
            s
        },
        Err(e) => {
            let mut msg = owned("Database lock error: ");
            push_str(&mut msg, e.as_str());
            let d = make_decision(
                "error",
                "database_lock_error",
                copy_opt(&req.mandate_id),
                req,
                msg,
            );
            let effects: Vec<GateEffect> = Vec::new();
            let s = GateStep { phase: GatePhase::Finished, effects: effects, decision: Some(d) };
            assert(effects_view(s.effects@) =~= seq![]);
            s
        },
    }
}

fn not_found_message_of(req: &AuthorizeRequest) -> (r: String)
    ensures
        r@ == not_found_message(req@),
{
    match &req.mandate_id {
        Some(id) => {
            let mut m = owned("Mandate '");
            push_str(&mut m, id.as_str());
            push_str(&mut m, "' was not found in the database.");
            m
        },
        None => {
            let mut m = owned("No active mandate found for user '");
            push_str(&mut m, req.user_id.as_str());
            push_str(&mut m, "' at merchant '");
            push_str(&mut m, req.merchant_id.as_str());
            push_str(&mut m, "'.");
            m
        },
    }
}

fn step_not_found(req: &AuthorizeRequest) -> (s: GateStep)
    ensures
        s@ == finish(
            seq![EffectView::LogAudit(not_found_audit(req@)), EffectView::Commit],
            not_found_decision(req@),
        ),
{
    let msg = not_found_message_of(req);
    let mut details = owned("{\"message\":\"");
    push_str(&mut details, msg.as_str());
    push_str(&mut details, "\"}");
    let log_mandate = match &req.mandate_id {
        Some(id) => id.clone(),
        None => owned("none"),
    };
    let ev = AuditEvent {
        mandate_id: log_mandate,
        user_id: req.user_id.clone(),
        merchant_id: req.merchant_id.clone(),
        requested_amount: req.amount,
        decision: owned("denied"),
        reason: owned("mandate_not_found"),
        details_json: details,
        razorpay_order_id: None,
    };
    let mut effects: Vec<GateEffect> = Vec::new();
    effects.push(GateEffect::LogAudit(ev));
    effects.push(GateEffect::Commit);
    let d = make_decision("denied", "mandate_not_found", copy_opt(&req.mandate_id), req, msg);
    let s = GateStep { phase: GatePhase::Finished, effects: effects, decision: Some(d) };
    assert(effects_view(s.effects@) =~= seq![
        EffectView::LogAudit(not_found_audit(req@)),
        EffectView::Commit,
    ]);
    s
}

fn step_denied(f: CheckFailure, req: &AuthorizeRequest, m: &MandateModel, today: &str) -> (s:
    GateStep)
    ensures
        s@ == finish(denial_effects(f, req@, m@, today@), denial_decision(f, req@, m@, today@)),
{
    let mut effects: Vec<GateEffect> = Vec::new();
    if f == CheckFailure::Expired {
        effects.push(GateEffect::UpdateMandateStatus(m.mandate_id.clone(), owned("expired")));
    }
    let ghost before = effects_view(effects@);
    let ev = AuditEvent {
        mandate_id: m.mandate_id.clone(),
        user_id: req.user_id.clone(),
        merchant_id: req.merchant_id.clone(),
        requested_amount: req.amount,
        decision: owned("denied"),
        reason: owned(reason_of(f)),
        details_json: denial_details(f, req, m, today),
        razorpay_order_id: None,
    };
    effects.push(GateEffect::LogAudit(ev));
    effects.push(GateEffect::Commit);
    let mut d = make_decision(
        "denied",
        reason_of(f),
        Some(m.mandate_id.clone()),
        req,
        denial_message(f, req, m, today),
    );
    d.limit = match f {
        CheckFailure::PerTxnExceeded => Some(m.max_per_txn),
        CheckFailure::PerDayExceeded => Some(m.max_per_day),
        CheckFailure::TotalExceeded => Some(m.max_total),
        _ => None,
    };
    d.already_spent = match f {
        CheckFailure::PerTxnExceeded => Some(0),
        CheckFailure::PerDayExceeded => Some(current_spent_today(m, today)),
        CheckFailure::TotalExceeded => Some(m.spent_total),
        _ => None,
    };
    let s = GateStep { phase: GatePhase::Finished, effects: effects, decision: Some(d) };
    assert(effects_view(s.effects@) =~= denial_effects(f, req@, m@, today@));
    s
}

fn step_loaded(req: &AuthorizeRequest, today: &str, now: &str, res: Result<Option<MandateModel>, String>) -> (s:
    GateStep)
    requires
        match res {
            Ok(Some(m)) => sums_in_range(req@, m@, today@, now@),
            _ => true,
        },
    ensures
        s@ == gate_transition(
            req@,
            today@,
            now@,
            PhaseView::Loading,
            EventView::MandateLoaded(
                match res {
                    Ok(m) => Ok(opt_mandate(m)),
                    Err(e) => Err(e@),
                },
            ),
        ),
{
    match res {
        Err(e) => {
            let d = make_decision("error", "db_error", copy_opt(&req.mandate_id), req, e);
            let mut effects: Vec<GateEffect> = Vec::new();
            effects.push(GateEffect::Rollback);
            let s = GateStep { phase: GatePhase::Finished, effects: effects, decision: Some(d) };
            assert(effects_view(s.effects@) =~= seq![EffectView::Rollback]);
            s
        },
        Ok(None) => step_not_found(req),
        Ok(Some(m)) => {
            match check_mandate(req, &m, today, now) {
                Some(f) => step_denied(f, req, &m, today),
                None => {
                    let spent = current_spent_today(&m, today);
                    let order = OrderRequest {
                        amount: req.amount,
                        user_id: req.user_id.clone(),
                        merchant_id: req.merchant_id.clone(),
                        mandate_id: m.mandate_id.clone(),
                    };
                    let mut effects: Vec<GateEffect> = Vec::new();
                    effects.push(GateEffect::CreateOrder(order));
                    let s = GateStep {
                        phase: GatePhase::AwaitingOrder(Approval { mandate: m, spent_today: spent }),
                        effects: effects,
                        decision: None,
                    };
                    assert(effects_view(s.effects@) =~= seq![
                        EffectView::CreateOrder(order_request(req@, m@)),
                    ]);
                    s
                },
            }
        },
    }
}


fn step_order(
    req: &AuthorizeRequest,
    today: &str,
    now: &str,
    a: Approval,
    res: Result<RazorpayOrder, RazorpayError>,
) -> (s: GateStep)
    requires
        approval_valid(req@, a@, today@, now@),
    ensures
        s@ == gate_transition(
            req@,
            today@,
            now@,
            PhaseView::AwaitingOrder(a@),
            EventView::OrderResult(
                match res {
                    Ok(o) => Ok(o@),
                    Err(e) => Err(e@),
                },
            ),
        ),
{
    match res {
        Err(e) => {
            let mut msg = owned("Razorpay API Error: ");
            push_str(&mut msg, e.message.as_str());
            let mut details = owned("{\"error_code\":");
            push_radix(&mut details, e.status_code as u64, 10);
            push_str(&mut details, ",\"message\":\"");
            push_str(&mut details, e.message.as_str());
            push_str(&mut details, "\"}");
            let ev = AuditEvent {
                mandate_id: a.mandate.mandate_id.clone(),
                user_id: req.user_id.clone(),
                merchant_id: req.merchant_id.clone(),
                requested_amount: req.amount,
                decision: owned("error"),
                reason: owned("razorpay_api_error"),
                details_json: details,
                razorpay_order_id: None,
            };
            let mut effects: Vec<GateEffect> = Vec::new();
            effects.push(GateEffect::Rollback);
            effects.push(GateEffect::LogAudit(ev));
            let d = make_decision(
                "error",
                "razorpay_api_error",
                Some(a.mandate.mandate_id.clone()),
                req,
                msg,
            );
            let s = GateStep { phase: GatePhase::Finished, effects: effects, decision: Some(d) };
            assert(effects_view(s.effects@) =~= order_error_effects(req@, a@, e@));
            s
        },
        Ok(o) => {
            let m = &a.mandate;
            let new_today: i64 = a.spent_today + req.amount;
            let new_total: i64 = m.spent_total + req.amount;
            let mut details = owned("{\"max_per_txn\":");
            push_int(&mut details, m.max_per_txn);
            push_str(&mut details, ",\"max_per_day\":");
            push_int(&mut details, m.max_per_day);
            push_str(&mut details, ",\"spent_today\":");
            push_int(&mut details, new_today);
            push_str(&mut details, ",\"spent_total\":");
            push_int(&mut details, new_total);
            push_str(&mut details, "}");
            let mut msg = owned("Transaction approved: ");
            push_inr(&mut msg, req.amount);
            push_str(&mut msg, " charged under mandate '");
            push_str(&mut msg, m.mandate_id.as_str());
            push_str(&mut msg, "'. Razorpay Order ID: ");
            push_str(&mut msg, o.id.as_str());
            push_str(&mut msg, ".");
            let updated = MandateModel {
                mandate_id: m.mandate_id.clone(),
                user_id: req.user_id.clone(),
                merchant_id: req.merchant_id.clone(),
                max_per_txn: m.max_per_txn,
                max_per_day: m.max_per_day,
                max_total: m.max_total,
                spent_today: new_today,
                spent_total: new_total,
                last_spent_date: owned(today),
                expires_at: m.expires_at.clone(),
                created_at: m.created_at.clone(),
                status: m.status,
            };
            let ev = AuditEvent {
                mandate_id: m.mandate_id.clone(),
                user_id: req.user_id.clone(),
                merchant_id: req.merchant_id.clone(),
                requested_amount: req.amount,
                decision: owned("approved"),
                reason: owned("passed_all_checks"),
                details_json: details,
                razorpay_order_id: Some(o.id.clone()),
            };
            let mut effects: Vec<GateEffect> = Vec::new();
            effects.push(
                GateEffect::UpdateMandateSpend(
                    m.mandate_id.clone(),
                    new_today,
                    new_total,
                    owned(today),
                ),
            );
            effects.push(GateEffect::LogAudit(ev));
            effects.push(GateEffect::Commit);
            let mut d = make_decision(
                "approved",
                "passed_all_checks",
                Some(m.mandate_id.clone()),
                req,
                msg,
            );
            d.razorpay_order_id = Some(o.id.clone());
            d.updated_mandate = Some(updated);
            let s = GateStep { phase: GatePhase::Finished, effects: effects, decision: Some(d) };
            assert(effects_view(s.effects@) =~= approval_effects(req@, a@, o@, today@));
            s
        },
    }
}

/// One step of the authorization protocol. `today` is the date of the
/// request ("YYYY-MM-DD") and `now` its moment (UTC, "YYYY-MM-DDTHH:MM:SSZ");
/// `phase` is where the protocol stands and `event` the outcome of
/// the last piece of outside work (`Begin` to start). The result names the
/// work to do next, in order, and carries the decision once there is one.
pub fn gate_step(req: &AuthorizeRequest, today: &str, now: &str, phase: GatePhase, event: GateEvent) -> (s:
    GateStep)
    requires
        step_defined(req@, today@, now@, phase@, event@),
    ensures
        s@ == gate_transition(req@, today@, now@, phase@, event@),
{
    match phase {
        GatePhase::Start => match event {
            GateEvent::Begin => {
                let mut effects: Vec<GateEffect> = Vec::new();
                effects.push(GateEffect::BeginImmediate);
                let s = GateStep { phase: GatePhase::Locking, effects: effects, decision: None };
                assert(effects_view(s.effects@) =~= seq![EffectView::BeginImmediate]);
                s
            },
            _ => idle(),
        },
        GatePhase::Locking => match event {
            GateEvent::LockResult(res) => step_lock(req, res),
            _ => idle(),
        },
        GatePhase::Loading => match event {
            GateEvent::MandateLoaded(res) => step_loaded(req, today, now, res),
            _ => idle(),
        },
        GatePhase::AwaitingOrder(a) => match event {
            GateEvent::OrderResult(res) => step_order(req, today, now, a, res),
            _ => idle(),
        },
        GatePhase::Finished => idle(),
    }
}

/// Whether a step is defined on these inputs (see `step_defined`); the
/// caller of `gate_step` tests this first.
pub fn gate_step_defined(req: &AuthorizeRequest, today: &str, now: &str, phase: &GatePhase, event: &GateEvent) -> (r: bool)
    ensures
        r == step_defined(req@, today@, now@, phase@, event@),
{
    match phase {
        GatePhase::Loading => match event {
            GateEvent::MandateLoaded(Ok(Some(m))) => check_sums_in_range(req, m, today, now),
            _ => true,
        },
        GatePhase::AwaitingOrder(a) => {
            check_mandate(req, &a.mandate, today, now).is_none() && a.spent_today
                == current_spent_today(&a.mandate, today) && check_sums_in_range(
                req,
                &a.mandate,
                today,
                now,
            )
        },
        _ => true,
    }
}


// ----------------------------------------------------------------------
// Laws
// ----------------------------------------------------------------------

/// The audit entries that a list of effects writes, in order.
pub open spec fn audit_entries(effects: Seq<EffectView>) -> Seq<AuditEventView>
    decreases effects.len(),
{
    if effects.len() == 0 {
        seq![]
    } else {
        audit_entries(effects.drop_last()) + match effects.last() {
            EffectView::LogAudit(e) => seq![e],
            _ => seq![],
        }
    }
}

/// The spending updates that a list of effects writes, in order: mandate,
/// new daily counter, new total, date.
pub open spec fn spend_updates(effects: Seq<EffectView>) -> Seq<(Seq<char>, i64, i64, Seq<char>)>
    decreases effects.len(),
{
    if effects.len() == 0 {
        seq![]
    } else {
        spend_updates(effects.drop_last()) + match effects.last() {
            EffectView::UpdateMandateSpend(id, d, t, date) => seq![(id, d, t, date)],
            _ => seq![],
        }
    }
}

/// How many of the effects end the transaction (commit or roll back).
pub open spec fn transaction_ends(effects: Seq<EffectView>) -> nat
    decreases effects.len(),
{
    if effects.len() == 0 {
        0
    } else {
        transaction_ends(effects.drop_last()) + match effects.last() {
            EffectView::Commit => 1nat,
            EffectView::Rollback => 1nat,
            _ => 0nat,
        }
    }
}

proof fn lemma_decision_words_differ()
    ensures
        "approved"@ != "denied"@,
        "approved"@ != "error"@,
        "denied"@ != "error"@,
{
    reveal_strlit("approved");
    reveal_strlit("denied");
    reveal_strlit("error");
    assert("approved"@[0] != "denied"@[0]);
    assert("approved"@[0] != "error"@[0]);
    assert("denied"@[0] != "error"@[0]);
}

proof fn lemma_effect_lists(f: CheckFailure, r: RequestView, m: MandateView, today: Seq<char>)
    ensures
        audit_entries(denial_effects(f, r, m, today)) == seq![denial_audit(f, r, m, today)],
        spend_updates(denial_effects(f, r, m, today)) == Seq::<
            (Seq<char>, i64, i64, Seq<char>),
        >::empty(),
        transaction_ends(denial_effects(f, r, m, today)) == 1,
{
    reveal_with_fuel(audit_entries, 4);
    reveal_with_fuel(spend_updates, 4);
    reveal_with_fuel(transaction_ends, 4);
    let e = denial_effects(f, r, m, today);
    if f == CheckFailure::Expired {
        assert(e.drop_last().drop_last().drop_last() =~= seq![]);
        assert(e.drop_last().drop_last() =~= seq![
            EffectView::UpdateMandateStatus(m.mandate_id, "expired"@),
        ]);
        assert(e.drop_last() =~= seq![
            EffectView::UpdateMandateStatus(m.mandate_id, "expired"@),
            EffectView::LogAudit(denial_audit(f, r, m, today)),
        ]);
    } else {
        assert(e.drop_last().drop_last() =~= seq![]);
        assert(e.drop_last() =~= seq![EffectView::LogAudit(denial_audit(f, r, m, today))]);
    }
}

/// No approval breaks its mandate: when a step approves, it is the step
/// after every check passed, and the charged mandate it reports has the
/// amount within the per-transaction cap, the new daily counter within the
/// daily cap and the new total within the total cap, each counter raised by
/// exactly the amount.
pub proof fn lemma_approval_within_limits(
    r: RequestView,
    today: Seq<char>,
    now: Seq<char>,
    phase: PhaseView,
    event: EventView,
)
    requires
        step_defined(r, today, now, phase, event),
        gate_transition(r, today, now, phase, event).decision matches Some(d) && d.decision
            == "approved"@,
    ensures
        phase matches PhaseView::AwaitingOrder(a) && ({
            let c = gate_transition(r, today, now, phase, event).decision->0.updated_mandate->0;
            &&& gate_transition(r, today, now, phase, event).decision->0.updated_mandate is Some
            &&& first_failure(r, a.mandate, today, now) is None
            &&& r.amount <= c.max_per_txn
            &&& c.spent_today == spent_today_now(a.mandate, today) + r.amount
            &&& c.spent_today <= c.max_per_day
            &&& c.spent_total == a.mandate.spent_total + r.amount
            &&& c.spent_total <= c.max_total
        }),
{
    lemma_decision_words_differ();
}

/// Every approval and every denial is written to the audit trail, once,
/// with the decision, reason, user, merchant and amount it reports.
pub proof fn lemma_decisions_are_logged(
    r: RequestView,
    today: Seq<char>,
    now: Seq<char>,
    phase: PhaseView,
    event: EventView,
)
    requires
        step_defined(r, today, now, phase, event),
        gate_transition(r, today, now, phase, event).decision matches Some(d) && (d.decision
            == "approved"@ || d.decision == "denied"@),
    ensures
        ({
            let s = gate_transition(r, today, now, phase, event);
            let d = s.decision->0;
            &&& audit_entries(s.effects).len() == 1
            &&& audit_entries(s.effects)[0].decision == d.decision
            &&& audit_entries(s.effects)[0].reason == d.reason
            &&& audit_entries(s.effects)[0].user_id == d.user_id
            &&& audit_entries(s.effects)[0].merchant_id == d.merchant_id
            &&& audit_entries(s.effects)[0].requested_amount == d.requested_amount
        }),
{
    lemma_decision_words_differ();
    reveal_with_fuel(audit_entries, 4);
    let s = gate_transition(r, today, now, phase, event);
    match phase {
        PhaseView::Loading => match event {
            EventView::MandateLoaded(Ok(Some(m))) => match first_failure(r, m, today, now) {
                Some(f) => {
                    lemma_effect_lists(f, r, m, today);
                },
                None => {},
            },
            EventView::MandateLoaded(Ok(None)) => {
                assert(s.effects.drop_last().drop_last() =~= seq![]);
                assert(s.effects.drop_last() =~= seq![EffectView::LogAudit(not_found_audit(r))]);
            },
            _ => {},
        },
        PhaseView::AwaitingOrder(a) => match event {
            EventView::OrderResult(Ok(o)) => {
                assert(s.effects.drop_last().drop_last().drop_last() =~= seq![]);
                assert(s.effects.drop_last().drop_last() =~= seq![s.effects[0]]);
                assert(s.effects.drop_last() =~= seq![s.effects[0], s.effects[1]]);
            },
            _ => {},
        },
        _ => {},
    }
}

/// Only an approval spends: a step writes a spending update exactly when
/// it approves, and then exactly one, which raises today's counter (reset
/// if the last spend was on another day) and the total by the amount and
/// dates the spend today.
pub proof fn lemma_only_approvals_spend(
    r: RequestView,
    today: Seq<char>,
    now: Seq<char>,
    phase: PhaseView,
    event: EventView,
)
    requires
        step_defined(r, today, now, phase, event),
    ensures
        ({
            let s = gate_transition(r, today, now, phase, event);
            let approved = s.decision matches Some(d) && d.decision == "approved"@;
            &&& !approved ==> spend_updates(s.effects).len() == 0
            &&& approved ==> (phase matches PhaseView::AwaitingOrder(a) && spend_updates(
                s.effects,
            ) == seq![
                (
                    a.mandate.mandate_id,
                    (spent_today_now(a.mandate, today) + r.amount) as i64,
                    (a.mandate.spent_total + r.amount) as i64,
                    today,
                ),
            ])
        }),
{
    lemma_decision_words_differ();
    reveal_with_fuel(spend_updates, 4);
    let s = gate_transition(r, today, now, phase, event);
    match phase {
        PhaseView::Loading => match event {
            EventView::MandateLoaded(Ok(Some(m))) => match first_failure(r, m, today, now) {
                Some(f) => {
                    lemma_effect_lists(f, r, m, today);
                },
                None => {},
            },
            EventView::MandateLoaded(Ok(None)) => {
                assert(s.effects.drop_last().drop_last() =~= seq![]);
                assert(s.effects.drop_last() =~= seq![EffectView::LogAudit(not_found_audit(r))]);
            },
            EventView::MandateLoaded(Err(_)) => {
                assert(s.effects.drop_last() =~= seq![]);
            },
            _ => {},
        },
        PhaseView::AwaitingOrder(a) => match event {
            EventView::OrderResult(Ok(o)) => {
                assert(s.effects.drop_last().drop_last().drop_last() =~= seq![]);
                assert(s.effects.drop_last().drop_last() =~= seq![s.effects[0]]);
                assert(s.effects.drop_last() =~= seq![s.effects[0], s.effects[1]]);
            },
            EventView::OrderResult(Err(e)) => {
                assert(s.effects.drop_last().drop_last() =~= seq![]);
                assert(s.effects.drop_last() =~= seq![EffectView::Rollback]);
            },
            _ => {},
        },
        PhaseView::Start => match event {
            EventView::Begin => {
                assert(s.effects.drop_last() =~= seq![]);
            },
            _ => {},
        },
        PhaseView::Locking => match event {
            EventView::LockResult(Ok(())) => {
                assert(s.effects.drop_last() =~= seq![]);
            },
            _ => {},
        },
        _ => {},
    }
}

/// Once the transaction is open, the step that gives the decision ends it
/// exactly once, by a commit or a roll-back; a failure to open it gives a
/// decision and ends nothing.
pub proof fn lemma_transaction_ends_once(
    r: RequestView,
    today: Seq<char>,
    now: Seq<char>,
    phase: PhaseView,
    event: EventView,
)
    requires
        step_defined(r, today, now, phase, event),
        gate_transition(r, today, now, phase, event).decision is Some,
    ensures
        (phase is Loading || phase is AwaitingOrder) ==> transaction_ends(
            gate_transition(r, today, now, phase, event).effects,
        ) == 1,
        phase is Locking ==> transaction_ends(gate_transition(r, today, now, phase, event).effects)
            == 0,
{
    reveal_with_fuel(transaction_ends, 4);
    let s = gate_transition(r, today, now, phase, event);
    match phase {
        PhaseView::Loading => match event {
            EventView::MandateLoaded(Ok(Some(m))) => match first_failure(r, m, today, now) {
                Some(f) => {
                    lemma_effect_lists(f, r, m, today);
                },
                None => {},
            },
            EventView::MandateLoaded(Ok(None)) => {
                assert(s.effects.drop_last().drop_last() =~= seq![]);
                assert(s.effects.drop_last() =~= seq![EffectView::LogAudit(not_found_audit(r))]);
            },
            EventView::MandateLoaded(Err(_)) => {
                assert(s.effects.drop_last() =~= seq![]);
            },
            _ => {},
        },
        PhaseView::AwaitingOrder(a) => match event {
            EventView::OrderResult(Ok(o)) => {
                assert(s.effects.drop_last().drop_last().drop_last() =~= seq![]);
                assert(s.effects.drop_last().drop_last() =~= seq![s.effects[0]]);
                assert(s.effects.drop_last() =~= seq![s.effects[0], s.effects[1]]);
            },
            EventView::OrderResult(Err(e)) => {
                assert(s.effects.drop_last().drop_last() =~= seq![]);
                assert(s.effects.drop_last() =~= seq![EffectView::Rollback]);
            },
            _ => {},
        },
        _ => {},
    }
}

/// The authorizer's own approvals are sound inputs for the next step: when a step
/// moves to awaiting an order, the approval it carries is valid.
pub proof fn lemma_step_keeps_phase_valid(
    r: RequestView,
    today: Seq<char>,
    now: Seq<char>,
    phase: PhaseView,
    event: EventView,
)
    requires
        step_defined(r, today, now, phase, event),
    ensures
        gate_transition(r, today, now, phase, event).phase matches PhaseView::AwaitingOrder(a)
            ==> approval_valid(r, a, today, now),
{
}

/// The eight checks, in order, as the authorizer runs them on a request
/// against its mandate on date `today` at moment `now`, where what the mandate
/// has spent today is its daily counter if it was last spent today and
/// nothing otherwise: the request fails a check exactly when every earlier
/// check passes and that one does not, and it fails none (and goes on to be
/// charged) exactly when the user and merchant are the mandate's, the mandate
/// is active and not past its expiry stamp, the amount is at most the
/// per-transaction cap, and today's spending and the total, each with the
/// amount added, are at most the daily and the total cap.
pub proof fn lemma_checks_in_order(r: RequestView, m: MandateView, today: Seq<char>, now: Seq<char>)
    ensures
        ({
            let spent: int = if m.last_spent_date == today {
                m.spent_today as int
            } else {
                0
            };
            let owner = m.user_id == r.user_id;
            let scope = owner && m.merchant_id == r.merchant_id;
            let live = scope && m.status != MandateStatus::Revoked;
            let current = live && m.status != MandateStatus::Expired && !text_before(
                m.expires_at,
                now,
            );
            let in_txn = current && r.amount <= m.max_per_txn;
            let in_day = in_txn && spent + r.amount <= m.max_per_day;
            let f = first_failure(r, m, today, now);
            &&& (f == Some(CheckFailure::UserMismatch) <==> !owner)
            &&& (f == Some(CheckFailure::MerchantMismatch) <==> owner && m.merchant_id
                != r.merchant_id)
            &&& (f == Some(CheckFailure::Revoked) <==> scope && m.status == MandateStatus::Revoked)
            &&& (f == Some(CheckFailure::Expired) <==> live && (m.status == MandateStatus::Expired
                || text_before(m.expires_at, now)))
            &&& (f == Some(CheckFailure::PerTxnExceeded) <==> current && r.amount > m.max_per_txn)
            &&& (f == Some(CheckFailure::PerDayExceeded) <==> in_txn && spent + r.amount
                > m.max_per_day)
            &&& (f == Some(CheckFailure::TotalExceeded) <==> in_day && m.spent_total + r.amount
                > m.max_total)
            &&& (f is None <==> in_day && m.spent_total + r.amount <= m.max_total)
            &&& (f is None <==> m.user_id == r.user_id && m.merchant_id == r.merchant_id
                && m.status == MandateStatus::Active && !text_before(m.expires_at, now)
                && r.amount <= m.max_per_txn && spent + r.amount <= m.max_per_day
                && m.spent_total + r.amount <= m.max_total)
        }),
{
}

/// The daily counter resets with the date: against a mandate last spent on
/// another day, the checks come out as if nothing had been spent today.
pub proof fn lemma_daily_reset(r: RequestView, m: MandateView, today: Seq<char>, now: Seq<char>)
    requires
        m.last_spent_date != today,
    ensures
        first_failure(r, m, today, now) == first_failure(r, MandateView { spent_today: 0, ..m }, today, now),
{
}

/// Approvals add up: if a request is approved against a mandate and a
/// second request is then approved against the charged mandate on the same
/// day, the two amounts together stay within the daily and the total cap.
pub proof fn lemma_successive_approvals(
    r1: RequestView,
    r2: RequestView,
    m: MandateView,
    today: Seq<char>,
    now: Seq<char>,
)
    requires
        first_failure(r1, m, today, now) is None,
        sums_in_range(r1, m, today, now),
        first_failure(
            r2,
            charged_mandate(
                r1,
                ApprovalView { mandate: m, spent_today: spent_today_now(m, today) },
                today,
            ),
            today,
            now,
        ) is None,
    ensures
        spent_today_now(m, today) + r1.amount + r2.amount <= m.max_per_day,
        m.spent_total + r1.amount + r2.amount <= m.max_total,
{
}

} // verus!
