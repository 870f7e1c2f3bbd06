//! Razorpay orders: what the authorizer asks for, what comes back, and how a
//! reply from the Razorpay API is read.

use vstd::prelude::*;
use crate::audit_service::{generate_hex_id, hex_id_text};
use crate::text::{
    chars_of, contains, contains_text, find, find_text, has_prefix, int_text, lemma_find_from, owned,
    push_int, push_str, starts_with, string_of, sub_chars,
};

verus! {

/// A failed order request: an HTTP-like status code and a message.
#[derive(Debug, Clone)]
pub struct RazorpayError {
    pub status_code: u16,
    pub message: String,
}

/// A failed order request as mathematical values.
pub struct RazorpayErrorView {
    pub status_code: u16,
    pub message: Seq<char>,
}

impl View for RazorpayError {
    type V = RazorpayErrorView;

    open spec fn view(&self) -> RazorpayErrorView {
        RazorpayErrorView { status_code: self.status_code, message: self.message@ }
    }
}

/// A created order.
#[derive(Debug, Clone)]
pub struct RazorpayOrder {
    pub id: String,
    pub amount: i64,
    pub currency: String,
    pub status: String,
}

/// A created order as mathematical values.
pub struct RazorpayOrderView {
    pub id: Seq<char>,
    pub amount: i64,
    pub currency: Seq<char>,
    pub status: Seq<char>,
}

impl View for RazorpayOrder {
    type V = RazorpayOrderView;

    open spec fn view(&self) -> RazorpayOrderView {
        RazorpayOrderView {
            id: self.id@,
            amount: self.amount,
            currency: self.currency@,
            status: self.status@,
        }
    }
}

} // verus!

verus! {

/// The string value that follows the first `"key":` in a JSON text, when
/// a double quote comes right after it: the characters up to the next
/// double quote.
pub open spec fn json_string_value(json: Seq<char>, key: Seq<char>) -> Option<Seq<char>> {
    let pat = seq!['"'] + key + "\":"@;
    match find_text(json, pat) {
        Some(pos) => {
            let rest = json.subrange(pos + pat.len(), json.len() as int);
            if rest.len() > 0 && rest[0] == '"' {
                let inner = rest.drop_first();
                match find_text(inner, seq!['"']) {
                    Some(end) => Some(inner.take(end)),
                    None => None,
                }
            } else {
                None
            }
        },
        None => None,
    }
}

/// Reads the string value of `key` in a JSON text (see `json_string_value`).
pub fn extract_json_string(json: &str, key: &str) -> (r: Option<String>)
    ensures
        match r {
            Some(v) => json_string_value(json@, key@) == Some(v@),
            None => json_string_value(json@, key@) is None,
        },
{
    let js = chars_of(json);
    let mut pat: Vec<char> = Vec::new();
    pat.push('"');
    let kc = chars_of(key);
    let mut i: usize = 0;
    while i < kc.len()
        invariant
            i <= kc@.len(),
            pat@ == seq!['"'] + kc@.take(i as int),
        decreases kc@.len() - i,
    {
        pat.push(kc[i]);
        assert(kc@.take(i + 1) =~= kc@.take(i as int).push(kc@[i as int]));
        i = i + 1;
    }
    pat.push('"');
    pat.push(':');
    proof {
        reveal_strlit("\":");
    }
    assert(kc@.take(kc@.len() as int) =~= kc@);
    assert(pat@ =~= seq!['"'] + key@ + "\":"@);
    match find(&js, &pat) {
        Some(pos) => {
            proof {
                lemma_find_from(js@, pat@, 0);
            }
            assert(pos + pat@.len() <= js@.len());
            let total = js.len();
            assert(total == js@.len());
            let start = pos + pat.len();
            let rest = sub_chars(&js, start, js.len());
            if rest.len() > 0 && rest[0] == '"' {
                let inner = sub_chars(&rest, 1, rest.len());
                assert(inner@ =~= rest@.drop_first());
                let mut quote: Vec<char> = Vec::new();
                quote.push('"');
                assert(quote@ =~= seq!['"']);
                match find(&inner, &quote) {
                    Some(end) => {
                        proof {
                            lemma_find_from(inner@, quote@, 0);
                        }
                        let v = sub_chars(&inner, 0, end);
                        assert(v@ =~= inner@.take(end as int));
                        Some(string_of(&v))
                    },
                    None => None,
                }
            } else {
                None
            }
        },
        None => None,
    }
}

} // verus!

verus! {

/// Live credentials: both present and neither the placeholder of the
/// example configuration.
pub open spec fn real_key(key_id: Seq<char>, key_secret: Seq<char>) -> bool {
    &&& key_id.len() > 0
    &&& key_secret.len() > 0
    &&& !starts_with(key_id, "rzp_test_your_"@)
    &&& !starts_with(key_secret, "your_test_"@)
}

/// Orders are simulated exactly when a key is missing or still the
/// placeholder of the example configuration ("rzp_test_your_..." for the
/// id, "your_test_..." for the secret); only live credentials reach
/// Razorpay.
pub proof fn lemma_simulated_without_live_keys(key_id: Seq<char>, key_secret: Seq<char>)
    ensures
        !real_key(key_id, key_secret) <==> (key_id.len() == 0 || key_secret.len() == 0
            || starts_with(key_id, "rzp_test_your_"@) || starts_with(key_secret, "your_test_"@)),
{
}

/// Whether the credentials are live (see `real_key`); with others the authorizer
/// runs in simulated mode.
pub fn is_real_key(key_id: &str, key_secret: &str) -> (r: bool)
    ensures
        r == real_key(key_id@, key_secret@),
{
    let k = chars_of(key_id);
    let s = chars_of(key_secret);
    let kp = chars_of("rzp_test_your_");
    let sp = chars_of("your_test_");
    k.len() > 0 && s.len() > 0 && !has_prefix(&k, &kp) && !has_prefix(&s, &sp)
}

/// The JSON body of an order request to Razorpay.
pub open spec fn order_payload(
    amount: i64,
    receipt_hex: Seq<char>,
    mandate_id: Seq<char>,
    user_id: Seq<char>,
    merchant_id: Seq<char>,
) -> Seq<char> {
    "{\"amount\":"@ + int_text(amount as int) + ",\"currency\":\"INR\",\"receipt\":\"rcpt_gate_"@
        + receipt_hex + "\",\"notes\":{\"mandate_id\":\""@ + mandate_id + "\",\"user_id\":\""@
        + user_id + "\",\"merchant_id\":\""@ + merchant_id + "\"}}"@
}

/// How an order is to be had.
#[derive(Debug, Clone)]
pub enum OrderPlan {
    /// No live credentials: this simulated order stands.
    Simulated(RazorpayOrder),
    /// Post this JSON body to Razorpay's orders endpoint, authenticated as
    /// `key_id:key_secret`.
    Remote(String, String),
}

/// A simulated order: id "order_test_" and seven hex characters made from
/// the clock reading and process id, the amount, in rupees, created.
pub open spec fn simulated_order(amount: i64, nanos: u32, pid: u32) -> RazorpayOrderView {
    RazorpayOrderView {
        id: "order_test_"@ + hex_id_text(7, nanos, pid),
        amount: amount,
        currency: "INR"@,
        status: "created"@,
    }
}

/// Plans an order for a charge: with live credentials a request to
/// Razorpay whose receipt carries six hex characters of the clock reading
/// and process id; otherwise a simulated order.
pub fn create_razorpay_order(
    amount: i64,
    user_id: &str,
    merchant_id: &str,
    mandate_id: &str,
    key_id: &str,
    key_secret: &str,
    nanos: u32,
    pid: u32,
) -> (r: OrderPlan)
    ensures
        real_key(key_id@, key_secret@) ==> (r matches OrderPlan::Remote(auth, payload) && auth@
            == key_id@ + ":"@ + key_secret@ && payload@ == order_payload(
            amount,
            hex_id_text(6, nanos, pid),
            mandate_id@,
            user_id@,
            merchant_id@,
        )),
        !real_key(key_id@, key_secret@) ==> (r matches OrderPlan::Simulated(o) && o@
            == simulated_order(amount, nanos, pid)),
{
    if is_real_key(key_id, key_secret) {
        let mut auth = owned(key_id);
        push_str(&mut auth, ":");
        push_str(&mut auth, key_secret);
        let hex = generate_hex_id(6, nanos, pid);
        let mut payload = owned("{\"amount\":");
        push_int(&mut payload, amount);
        push_str(&mut payload, ",\"currency\":\"INR\",\"receipt\":\"rcpt_gate_");
        push_str(&mut payload, hex.as_str());
        push_str(&mut payload, "\",\"notes\":{\"mandate_id\":\"");
        push_str(&mut payload, mandate_id);
        push_str(&mut payload, "\",\"user_id\":\"");
        push_str(&mut payload, user_id);
        push_str(&mut payload, "\",\"merchant_id\":\"");
        push_str(&mut payload, merchant_id);
        push_str(&mut payload, "\"}}");
        OrderPlan::Remote(auth, payload)
    } else {
        let hex = generate_hex_id(7, nanos, pid);
        let mut id = owned("order_test_");
        push_str(&mut id, hex.as_str());
        OrderPlan::Simulated(
            RazorpayOrder { id: id, amount: amount, currency: owned("INR"), status: owned("created") },
        )
    }
}

/// What Razorpay's reply to an order request means: an order when the reply
/// holds an order id, otherwise an error (400) carrying the reply's
/// description, or the whole reply when it has none.
pub open spec fn order_reply(resp: Seq<char>, amount: i64) -> Result<RazorpayOrderView, RazorpayErrorView> {
    if contains_text(resp, "\"id\":\"order_"@) && json_string_value(resp, "id"@) is Some {
        Ok(
            RazorpayOrderView {
                id: json_string_value(resp, "id"@)->0,
                amount: amount,
                currency: "INR"@,
                status: "created"@,
            },
        )
    } else {
        Err(
            RazorpayErrorView {
                status_code: 400,
                message: match json_string_value(resp, "description"@) {
                    Some(d) => d,
                    None => resp,
                },
            },
        )
    }
}

/// Reads Razorpay's reply to an order request (see `order_reply`).
pub fn order_from_response(resp: &str, amount: i64) -> (r: Result<RazorpayOrder, RazorpayError>)
    ensures
        match r {
            Ok(o) => order_reply(resp@, amount) == Ok::<RazorpayOrderView, RazorpayErrorView>(o@),
            Err(e) => order_reply(resp@, amount) == Err::<RazorpayOrderView, RazorpayErrorView>(e@),
        },
{
    let rc = chars_of(resp);
    let marker = chars_of("\"id\":\"order_");
    if contains(&rc, &marker) {
        match extract_json_string(resp, "id") {
            Some(id) => {
                return Ok(
                    RazorpayOrder {
                        id: id,
                        amount: amount,
                        currency: owned("INR"),
                        status: owned("created"),
                    },
                );
            },
            None => {},
        }
    }
    let message = match extract_json_string(resp, "description") {
        Some(d) => d,
        None => owned(resp),
    };
    Err(RazorpayError { status_code: 400, message: message })
}

/// The error when Razorpay could not be reached (503).
pub fn network_error(detail: &str) -> (r: RazorpayError)
    ensures
        r@ == (RazorpayErrorView {
            status_code: 503,
            message: "Network error reaching Razorpay: "@ + detail@,
        }),
{
    let mut m = owned("Network error reaching Razorpay: ");
    push_str(&mut m, detail);
    RazorpayError { status_code: 503, message: m }
}

} // verus!
