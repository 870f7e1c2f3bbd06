//! The data the authorizer works on: mandates, requests, decisions and audit
//! entries, each with a mathematical view over character sequences.

use vstd::prelude::*;
use crate::text::{
    all_ascii, ascii_lower, chars_eq, chars_of, int_text, lower_text, push_char, push_int, push_str,
    to_lowercase,
};

verus! {

/// The lifecycle state of a mandate.
#[derive(Debug, Clone, Copy, PartialEq, Eq, Structural)]
pub enum MandateStatus {
    Active,
    Expired,
    Revoked,
}

/// The text under which a status is stored and shown.
pub open spec fn status_text(s: MandateStatus) -> Seq<char> {
    match s {
        MandateStatus::Active => "active"@,
        MandateStatus::Expired => "expired"@,
        MandateStatus::Revoked => "revoked"@,
    }
}

/// The status that a lower-cased stored text denotes: "expired" and
/// "revoked", anything else is active.
pub open spec fn status_of_lower(l: Seq<char>) -> MandateStatus {
    if l == "expired"@ {
        MandateStatus::Expired
    } else if l == "revoked"@ {
        MandateStatus::Revoked
    } else {
        MandateStatus::Active
    }
}

impl MandateStatus {
    /// The text of this status.
    pub fn as_str(&self) -> (r: &'static str)
        ensures
            r@ == status_text(*self),
    {
        match self {
            MandateStatus::Active => "active",
            MandateStatus::Expired => "expired",
            MandateStatus::Revoked => "revoked",
        }
    }

    /// The status that a stored text denotes, ignoring letter case; an
    /// unknown text reads as active.
    pub fn from_str(s: &str) -> (r: MandateStatus)
        ensures
            r == status_of_lower(lower_text(s@)),
            all_ascii(s@) ==> r == status_of_lower(ascii_lower(s@)),
    {
        let lower = to_lowercase(s);
        let l = chars_of(lower.as_str());
        let expired = chars_of("expired");
        let revoked = chars_of("revoked");
        if chars_eq(&l, &expired) {
            MandateStatus::Expired
        } else if chars_eq(&l, &revoked) {
            MandateStatus::Revoked
        } else {
            MandateStatus::Active
        }
    }
}

/// Reading back the text of a status gives the status: the text is ASCII
/// and already lower-case, so `MandateStatus::from_str(s.as_str()) == s`.
pub proof fn lemma_status_text_round_trip(s: MandateStatus)
    ensures
        all_ascii(status_text(s)),
        status_of_lower(ascii_lower(status_text(s))) == s,
{
    reveal_strlit("active");
    reveal_strlit("expired");
    reveal_strlit("revoked");
    let t = status_text(s);
    assert(ascii_lower(t) =~= t);
    assert("active"@ != "expired"@ && "active"@ != "revoked"@ && "expired"@ != "revoked"@) by {
        assert("active"@[0] != "expired"@[0]);
        assert("active"@[0] != "revoked"@[0]);
        assert("expired"@[0] != "revoked"@[0]);
    }
}


/// The JSON escape of one character: backslash, double quote, newline,
/// carriage return and tab get a backslash form, everything else stays.
pub open spec fn escape_char(c: char) -> Seq<char> {
    if c == '\\' {
        seq!['\\', '\\']
    } else if c == '"' {
        seq!['\\', '"']
    } else if c == '\n' {
        seq!['\\', 'n']
    } else if c == '\r' {
        seq!['\\', 'r']
    } else if c == '\t' {
        seq!['\\', 't']
    } else {
        seq![c]
    }
}

/// A text with every character replaced by its JSON escape.
pub open spec fn escaped(s: Seq<char>) -> Seq<char>
    decreases s.len(),
{
    if s.len() == 0 {
        seq![]
    } else {
        escaped(s.drop_last()) + escape_char(s.last())
    }
}

/// The character a JSON string escape `\\c` stands for, when `c` makes
/// one of the two-character escapes (`\\"`, `\\\\`, `\\/`, `\\b`,
/// `\\f`, `\\n`, `\\r`, `\\t`).
pub open spec fn unescape_char(c: char) -> Option<char> {
    if c == '"' || c == '\\' || c == '/' {
        Some(c)
    } else if c == 'b' {
        Some('\u{8}')
    } else if c == 'f' {
        Some('\u{c}')
    } else if c == 'n' {
        Some('\n')
    } else if c == 'r' {
        Some('\r')
    } else if c == 't' {
        Some('\t')
    } else {
        None
    }
}

/// The decoding of the inside of a JSON string: each two-character escape
/// becomes the character it stands for, every other character stays
/// (`\\u` escapes are not decoded).
pub open spec fn json_unescape(t: Seq<char>) -> Seq<char>
    decreases t.len(),
{
    if t.len() == 0 {
        seq![]
    } else if t.len() >= 2 && t[0] == '\\' && unescape_char(t[1]) is Some {
        seq![unescape_char(t[1])->0] + json_unescape(t.subrange(2, t.len() as int))
    } else {
        seq![t[0]] + json_unescape(t.drop_first())
    }
}

proof fn lemma_escaped_append(a: Seq<char>, b: Seq<char>)
    ensures
        escaped(a + b) == escaped(a) + escaped(b),
    decreases b.len(),
{
    if b.len() == 0 {
        assert(a + b =~= a);
        assert(escaped(a) + escaped(b) =~= escaped(a));
    } else {
        lemma_escaped_append(a, b.drop_last());
        assert((a + b).drop_last() =~= a + b.drop_last());
        assert((a + b).last() == b.last());
        assert(escaped(a) + escaped(b) =~= escaped(a) + escaped(b.drop_last()) + escape_char(
            b.last(),
        ));
    }
}

/// Escaping round-trips: decoding the JSON escape of any text as the inside
/// of a JSON string gives the text back.
pub proof fn lemma_escape_round_trip(s: Seq<char>)
    ensures
        json_unescape(escaped(s)) == s,
    decreases s.len(),
{
    if s.len() == 0 {
        assert(escaped(s) =~= seq![]);
    } else {
        let c = s[0];
        let rest = s.drop_first();
        lemma_escaped_append(seq![c], rest);
        assert(seq![c] + rest =~= s);
        assert(seq![c].drop_last() =~= Seq::<char>::empty());
        assert(escaped(Seq::<char>::empty()) =~= Seq::<char>::empty());
        assert(seq![c].last() == c);
        assert(escaped(seq![c]) =~= escape_char(c));
        lemma_escape_round_trip(rest);
        let t = escaped(s);
        assert(t =~= escape_char(c) + escaped(rest));
        if escape_char(c).len() == 2 {
            assert(t.subrange(2, t.len() as int) =~= escaped(rest));
        } else {
            assert(t.drop_first() =~= escaped(rest));
        }
        assert(json_unescape(t) =~= seq![c] + rest);
    }
}

/// Appends the JSON escape of `t`.
pub fn push_escaped(out: &mut String, t: &str)
    ensures
        final(out)@ == old(out)@ + escaped(t@),
{
    let cs = chars_of(t);
    let ghost o0 = out@;
    let mut i: usize = 0;
    while i < cs.len()
        invariant
            cs@ == t@,
            i <= cs@.len(),
            out@ == o0 + escaped(cs@.take(i as int)),
        decreases cs@.len() - i,
    {
        let c = cs[i];
        if c == '\\' {
            push_char(out, '\\');
            push_char(out, '\\');
        } else if c == '"' {
            push_char(out, '\\');
            push_char(out, '"');
        } else if c == '\n' {
            push_char(out, '\\');
            push_char(out, 'n');
        } else if c == '\r' {
            push_char(out, '\\');
            push_char(out, 'r');
        } else if c == '\t' {
            push_char(out, '\\');
            push_char(out, 't');
        } else {
            push_char(out, c);
        }
        assert(cs@.take(i + 1).drop_last() == cs@.take(i as int));
        i = i + 1;
    }
    assert(cs@.take(cs@.len() as int) == cs@);
}

/// Escapes backslashes, double quotes, newlines, carriage returns and tabs
/// so that the text can stand inside a JSON string.
pub fn escape_json(s: &str) -> (r: String)
    ensures
        r@ == escaped(s@),
{
    let mut r = String::new();
    push_escaped(&mut r, s);
    r
}


/// A spending mandate: who may spend, where, and how much.
#[derive(Debug, Clone)]
pub struct MandateModel {
    pub mandate_id: String,
    pub user_id: String,
    pub merchant_id: String,
    pub max_per_txn: i64,
    pub max_per_day: i64,
    pub max_total: i64,
    pub spent_today: i64,
    pub spent_total: i64,
    pub last_spent_date: String,
    pub expires_at: String,
    pub created_at: String,
    pub status: MandateStatus,
}

/// A mandate as mathematical values.
pub struct MandateView {
    pub mandate_id: Seq<char>,
    pub user_id: Seq<char>,
    pub merchant_id: Seq<char>,
    pub max_per_txn: i64,
    pub max_per_day: i64,
    pub max_total: i64,
    pub spent_today: i64,
    pub spent_total: i64,
    pub last_spent_date: Seq<char>,
    pub expires_at: Seq<char>,
    pub created_at: Seq<char>,
    pub status: MandateStatus,
}

impl View for MandateModel {
    type V = MandateView;

    open spec fn view(&self) -> MandateView {
        MandateView {
            mandate_id: self.mandate_id@,
            user_id: self.user_id@,
            merchant_id: self.merchant_id@,
            max_per_txn: self.max_per_txn,
            max_per_day: self.max_per_day,
            max_total: self.max_total,
            spent_today: self.spent_today,
            spent_total: self.spent_total,
            last_spent_date: self.last_spent_date@,
            expires_at: self.expires_at@,
            created_at: self.created_at@,
            status: self.status,
        }
    }
}

/// A request to charge `amount` paise for `user_id` at `merchant_id`,
/// optionally naming the mandate to charge it under.
#[derive(Debug, Clone)]
pub struct AuthorizeRequest {
    pub user_id: String,
    pub merchant_id: String,
    pub amount: i64,
    pub mandate_id: Option<String>,
}

/// A request as mathematical values.
pub struct RequestView {
    pub user_id: Seq<char>,
    pub merchant_id: Seq<char>,
    pub amount: i64,
    pub mandate_id: Option<Seq<char>>,
}

impl View for AuthorizeRequest {
    type V = RequestView;

    open spec fn view(&self) -> RequestView {
        RequestView {
            user_id: self.user_id@,
            merchant_id: self.merchant_id@,
            amount: self.amount,
            mandate_id: opt_text(self.mandate_id),
        }
    }
}

/// The view of an optional string.
pub open spec fn opt_text(o: Option<String>) -> Option<Seq<char>> {
    match o {
        Some(s) => Some(s@),
        None => None,
    }
}

/// The authorizer's answer to a request.
#[derive(Debug, Clone)]
pub struct GateDecision {
    pub decision: String,
    pub reason: String,
    pub mandate_id: Option<String>,
    pub user_id: String,
    pub merchant_id: String,
    pub requested_amount: i64,
    pub limit: Option<i64>,
    pub already_spent: Option<i64>,
    pub razorpay_order_id: Option<String>,
    pub updated_mandate: Option<MandateModel>,
    pub message: Option<String>,
}

/// A decision as mathematical values.
pub struct DecisionView {
    pub decision: Seq<char>,
    pub reason: Seq<char>,
    pub mandate_id: Option<Seq<char>>,
    pub user_id: Seq<char>,
    pub merchant_id: Seq<char>,
    pub requested_amount: i64,
    pub limit: Option<i64>,
    pub already_spent: Option<i64>,
    pub razorpay_order_id: Option<Seq<char>>,
    pub updated_mandate: Option<MandateView>,
    pub message: Option<Seq<char>>,
}

/// The view of an optional mandate.
pub open spec fn opt_mandate(o: Option<MandateModel>) -> Option<MandateView> {
    match o {
        Some(m) => Some(m@),
        None => None,
    }
}

impl View for GateDecision {
    type V = DecisionView;

    open spec fn view(&self) -> DecisionView {
        DecisionView {
            decision: self.decision@,
            reason: self.reason@,
            mandate_id: opt_text(self.mandate_id),
            user_id: self.user_id@,
            merchant_id: self.merchant_id@,
            requested_amount: self.requested_amount,
            limit: self.limit,
            already_spent: self.already_spent,
            razorpay_order_id: opt_text(self.razorpay_order_id),
            updated_mandate: opt_mandate(self.updated_mandate),
            message: opt_text(self.message),
        }
    }
}

/// One entry of the audit trail.
#[derive(Debug, Clone)]
pub struct AuditLogEntry {
    pub log_id: String,
    pub timestamp: String,
    pub mandate_id: String,
    pub user_id: String,
    pub merchant_id: String,
    pub requested_amount: i64,
    pub decision: String,
    pub reason: String,
    pub details_json: String,
    pub razorpay_order_id: Option<String>,
}

/// An audit entry as mathematical values.
pub struct AuditView {
    pub log_id: Seq<char>,
    pub timestamp: Seq<char>,
    pub mandate_id: Seq<char>,
    pub user_id: Seq<char>,
    pub merchant_id: Seq<char>,
    pub requested_amount: i64,
    pub decision: Seq<char>,
    pub reason: Seq<char>,
    pub details_json: Seq<char>,
    pub razorpay_order_id: Option<Seq<char>>,
}

impl View for AuditLogEntry {
    type V = AuditView;

    open spec fn view(&self) -> AuditView {
        AuditView {
            log_id: self.log_id@,
            timestamp: self.timestamp@,
            mandate_id: self.mandate_id@,
            user_id: self.user_id@,
            merchant_id: self.merchant_id@,
            requested_amount: self.requested_amount,
            decision: self.decision@,
            reason: self.reason@,
            details_json: self.details_json@,
            razorpay_order_id: opt_text(self.razorpay_order_id),
        }
    }
}

/// A copy of an optional string.
pub fn copy_opt(o: &Option<String>) -> (r: Option<String>)
    ensures
        opt_text(r) == opt_text(*o),
{
    match o {
        Some(s) => Some(s.clone()),
        None => None,
    }
}

/// The JSON object of a mandate, with `current` as the spent-today figure
/// that holds now and the two utilization percentages as given texts.
pub open spec fn mandate_json(
    m: MandateView,
    current: i64,
    daily_pct: Seq<char>,
    total_pct: Seq<char>,
) -> Seq<char> {
    "{\"mandate_id\":\""@ + escaped(m.mandate_id) + "\",\"user_id\":\""@ + escaped(m.user_id)
        + "\",\"merchant_id\":\""@ + escaped(m.merchant_id) + "\",\"max_per_txn\":"@ + int_text(
        m.max_per_txn as int,
    ) + ",\"max_per_day\":"@ + int_text(m.max_per_day as int) + ",\"max_total\":"@ + int_text(
        m.max_total as int,
    ) + ",\"spent_today\":"@ + int_text(m.spent_today as int) + ",\"spent_total\":"@ + int_text(
        m.spent_total as int,
    ) + ",\"spent_today_current\":"@ + int_text(current as int) + ",\"daily_utilization_pct\":"@
        + daily_pct + ",\"total_utilization_pct\":"@ + total_pct + ",\"last_spent_date\":\""@
        + escaped(m.last_spent_date) + "\",\"expires_at\":\""@ + escaped(m.expires_at)
        + "\",\"created_at\":\""@ + escaped(m.created_at) + "\",\"status\":\""@ + status_text(
        m.status,
    ) + "\"}"@
}

impl MandateModel {
    /// The JSON object of this mandate. `spent_today_current` replaces the
    /// stored spent-today figure in the `spent_today_current` field when
    /// given; the utilization percentages come as ready texts (one decimal
    /// place), since they are computed in floating point.
    pub fn to_json(&self, spent_today_current: Option<i64>, daily_pct: &str, total_pct: &str) -> (r:
        String)
        ensures
            r@ == mandate_json(
                self@,
                match spent_today_current {
                    Some(c) => c,
                    None => self.spent_today,
                },
                daily_pct@,
                total_pct@,
            ),
    {
        let current = match spent_today_current {
            Some(c) => c,
            None => self.spent_today,
        };
        let mut out = String::new();
        push_str(&mut out, "{\"mandate_id\":\"");
        push_escaped(&mut out, self.mandate_id.as_str());
        push_str(&mut out, "\",\"user_id\":\"");
        push_escaped(&mut out, self.user_id.as_str());
        push_str(&mut out, "\",\"merchant_id\":\"");
        push_escaped(&mut out, self.merchant_id.as_str());
        push_str(&mut out, "\",\"max_per_txn\":");
        push_int(&mut out, self.max_per_txn);
        push_str(&mut out, ",\"max_per_day\":");
        push_int(&mut out, self.max_per_day);
        push_str(&mut out, ",\"max_total\":");
        push_int(&mut out, self.max_total);
        push_str(&mut out, ",\"spent_today\":");
        push_int(&mut out, self.spent_today);
        push_str(&mut out, ",\"spent_total\":");
        push_int(&mut out, self.spent_total);
        push_str(&mut out, ",\"spent_today_current\":");
        push_int(&mut out, current);
        push_str(&mut out, ",\"daily_utilization_pct\":");
        push_str(&mut out, daily_pct);
        push_str(&mut out, ",\"total_utilization_pct\":");
        push_str(&mut out, total_pct);
        push_str(&mut out, ",\"last_spent_date\":\"");
        push_escaped(&mut out, self.last_spent_date.as_str());
        push_str(&mut out, "\",\"expires_at\":\"");
        push_escaped(&mut out, self.expires_at.as_str());
        push_str(&mut out, "\",\"created_at\":\"");
        push_escaped(&mut out, self.created_at.as_str());
        push_str(&mut out, "\",\"status\":\"");
        push_str(&mut out, self.status.as_str());
        push_str(&mut out, "\"}");
        out
    }
}

/// A JSON string value, quoted and escaped, or `null`.
pub open spec fn opt_json_text(o: Option<Seq<char>>) -> Seq<char> {
    match o {
        Some(t) => "\""@ + escaped(t) + "\""@,
        None => "null"@,
    }
}

/// The fixed leading fields of a decision's JSON object.
pub open spec fn decision_head(d: DecisionView) -> Seq<char> {
    "{\"decision\":\""@ + escaped(d.decision) + "\",\"reason\":\""@ + escaped(d.reason)
        + "\",\"mandate_id\":"@ + opt_json_text(d.mandate_id) + ",\"user_id\":\""@ + escaped(
        d.user_id,
    ) + "\",\"merchant_id\":\""@ + escaped(d.merchant_id) + "\",\"requested_amount\":"@
        + int_text(d.requested_amount as int)
}

/// An optional numeric field: `key` then the number, or nothing.
pub open spec fn opt_int_part(key: Seq<char>, o: Option<i64>) -> Seq<char> {
    match o {
        Some(v) => key + int_text(v as int),
        None => seq![],
    }
}

/// An optional text field: `key` then the quoted, escaped text, or nothing.
pub open spec fn opt_text_part(key: Seq<char>, o: Option<Seq<char>>) -> Seq<char> {
    match o {
        Some(t) => key + escaped(t) + "\""@,
        None => seq![],
    }
}

/// The optional updated-mandate field of a decision.
pub open spec fn opt_mandate_part(
    o: Option<MandateView>,
    daily_pct: Seq<char>,
    total_pct: Seq<char>,
) -> Seq<char> {
    match o {
        Some(m) => ",\"updated_mandate\":"@ + mandate_json(m, m.spent_today, daily_pct, total_pct),
        None => seq![],
    }
}

/// The JSON object of a decision: the fixed fields, then each optional
/// field that is present, in order. An updated mandate is written with its
/// stored spent-today figure and the given utilization texts.
pub open spec fn decision_json(d: DecisionView, daily_pct: Seq<char>, total_pct: Seq<char>) -> Seq<
    char,
> {
    decision_head(d) + opt_int_part(",\"limit\":"@, d.limit) + opt_int_part(
        ",\"already_spent\":"@,
        d.already_spent,
    ) + opt_text_part(",\"razorpay_order_id\":\""@, d.razorpay_order_id) + opt_mandate_part(
        d.updated_mandate,
        daily_pct,
        total_pct,
    ) + opt_text_part(",\"message\":\""@, d.message) + "}"@
}

fn push_opt_json_text(out: &mut String, o: &Option<String>)
    ensures
        final(out)@ == old(out)@ + opt_json_text(opt_text(*o)),
{
    match o {
        Some(t) => {
            push_str(out, "\"");
            push_escaped(out, t.as_str());
            push_str(out, "\"");
        },
        None => {
            push_str(out, "null");
        },
    }
}

fn push_opt_int_part(out: &mut String, key: &str, o: Option<i64>)
    ensures
        final(out)@ == old(out)@ + opt_int_part(key@, o),
{
    match o {
        Some(v) => {
            push_str(out, key);
            push_int(out, v);
        },
        None => {
            assert(old(out)@ + seq![] =~= old(out)@);
        },
    }
}

fn push_opt_text_part(out: &mut String, key: &str, o: &Option<String>)
    ensures
        final(out)@ == old(out)@ + opt_text_part(key@, opt_text(*o)),
{
    match o {
        Some(t) => {
            push_str(out, key);
            push_escaped(out, t.as_str());
            push_str(out, "\"");
        },
        None => {
            assert(old(out)@ + seq![] =~= old(out)@);
        },
    }
}

impl GateDecision {
    fn push_head(&self, out: &mut String)
        ensures
            final(out)@ == old(out)@ + decision_head(self@),
    {
        push_str(out, "{\"decision\":\"");
        push_escaped(out, self.decision.as_str());
        push_str(out, "\",\"reason\":\"");
        push_escaped(out, self.reason.as_str());
        push_str(out, "\",\"mandate_id\":");
        push_opt_json_text(out, &self.mandate_id);
        push_str(out, ",\"user_id\":\"");
        push_escaped(out, self.user_id.as_str());
        push_str(out, "\",\"merchant_id\":\"");
        push_escaped(out, self.merchant_id.as_str());
        push_str(out, "\",\"requested_amount\":");
        push_int(out, self.requested_amount);
    }

    /// The JSON object of this decision. The utilization texts are those of
    /// the updated mandate, if there is one.
    pub fn to_json(&self, daily_pct: &str, total_pct: &str) -> (r: String)
        ensures
            r@ == decision_json(self@, daily_pct@, total_pct@),
    {
        let mut out = String::new();
        self.push_head(&mut out);
        push_opt_int_part(&mut out, ",\"limit\":", self.limit);
        push_opt_int_part(&mut out, ",\"already_spent\":", self.already_spent);
        push_opt_text_part(&mut out, ",\"razorpay_order_id\":\"", &self.razorpay_order_id);
        let ghost before = out@;
        match &self.updated_mandate {
            Some(m) => {
                push_str(&mut out, ",\"updated_mandate\":");
                let mj = m.to_json(None, daily_pct, total_pct);
                push_str(&mut out, mj.as_str());
            },
            None => {},
        }
        assert(out@ =~= before + opt_mandate_part(opt_mandate(self.updated_mandate), daily_pct@, total_pct@));
        push_opt_text_part(&mut out, ",\"message\":\"", &self.message);
        push_str(&mut out, "}");
        out
    }
}

/// The JSON object of an audit entry; empty details read as `{}`.
pub open spec fn audit_json(e: AuditView) -> Seq<char> {
    "{\"log_id\":\""@ + escaped(e.log_id) + "\",\"timestamp\":\""@ + escaped(e.timestamp)
        + "\",\"mandate_id\":\""@ + escaped(e.mandate_id) + "\",\"user_id\":\""@ + escaped(
        e.user_id,
    ) + "\",\"merchant_id\":\""@ + escaped(e.merchant_id) + "\",\"requested_amount\":"@
        + int_text(e.requested_amount as int) + ",\"decision\":\""@ + escaped(e.decision)
        + "\",\"reason\":\""@ + escaped(e.reason) + "\",\"details\":"@ + (if e.details_json.len()
        == 0 {
        "{}"@
    } else {
        e.details_json
    }) + ",\"razorpay_order_id\":"@ + opt_json_text(e.razorpay_order_id) + "}"@
}

impl AuditLogEntry {
    /// The JSON object of this entry.
    pub fn to_json(&self) -> (r: String)
        ensures
            r@ == audit_json(self@),
    {
        let mut out = String::new();
        push_str(&mut out, "{\"log_id\":\"");
        push_escaped(&mut out, self.log_id.as_str());
        push_str(&mut out, "\",\"timestamp\":\"");
        push_escaped(&mut out, self.timestamp.as_str());
        push_str(&mut out, "\",\"mandate_id\":\"");
        push_escaped(&mut out, self.mandate_id.as_str());
        push_str(&mut out, "\",\"user_id\":\"");
        push_escaped(&mut out, self.user_id.as_str());
        push_str(&mut out, "\",\"merchant_id\":\"");
        push_escaped(&mut out, self.merchant_id.as_str());
        push_str(&mut out, "\",\"requested_amount\":");
        push_int(&mut out, self.requested_amount);
        push_str(&mut out, ",\"decision\":\"");
        push_escaped(&mut out, self.decision.as_str());
        push_str(&mut out, "\",\"reason\":\"");
        push_escaped(&mut out, self.reason.as_str());
        push_str(&mut out, "\",\"details\":");
        if self.details_json.as_str().is_empty() {
            push_str(&mut out, "{}");
        } else {
            push_str(&mut out, self.details_json.as_str());
        }
        push_str(&mut out, ",\"razorpay_order_id\":");
        push_opt_json_text(&mut out, &self.razorpay_order_id);
        push_str(&mut out, "}");
        out
    }
}

} // verus!
