//! The HTTP side of the authorizer: reading a request into a route, reading the
//! fields of a small JSON body or a query string, and writing responses.

use vstd::prelude::*;
use vstd::utf8::encode_utf8;
use crate::gate_service::{current_spent_today, format_inr, inr_text, spent_today_now};
use crate::models::{
    audit_json, decision_json, escaped, mandate_json, opt_text, push_escaped, AuditLogEntry,
    AuthorizeRequest, DecisionView, GateDecision, MandateModel, RequestView,
};
use crate::nlu_parser::{split_words, words, words_from};
use crate::text::{
    chars_eq, chars_of, find, find_text, i64_text_value, int_text, lemma_find_from, nat_text, owned,
    parse_i64, parse_unsigned, push_int, push_radix, push_str, skip_white, string_of, sub_chars,
    trim_start_chars, unsigned_text_value, white_space,
};

verus! {

/// The pattern `"key":` that introduces a field of a JSON object.
pub open spec fn key_pattern(key: Seq<char>) -> Seq<char> {
    seq!['"'] + key + seq!['"', ':']
}

fn key_pattern_chars(key: &str) -> (r: Vec<char>)
    ensures
        r@ == key_pattern(key@),
{
    let kc = chars_of(key);
    let mut pat: Vec<char> = Vec::new();
    pat.push('"');
    let mut i: usize = 0;
    while i < kc.len()
        invariant
            i <= kc@.len(),
            pat@ == seq!['"'] + kc@.take(i as int),
        decreases kc@.len() - i,
    {
        pat.push(kc[i]);
        assert(kc@.take(i + 1) =~= kc@.take(i as int).push(kc@[i as int]));
        i = i + 1;
    }
    pat.push('"');
    pat.push(':');
    assert(kc@.take(kc@.len() as int) =~= kc@);
    assert(pat@ =~= key_pattern(key@));
    pat
}

/// What follows the first `"key":` of a JSON text, without leading
/// whitespace; `None` when the key does not occur.
pub open spec fn after_key(json: Seq<char>, key: Seq<char>) -> Option<Seq<char>> {
    match find_text(json, key_pattern(key)) {
        Some(pos) => Some(
            skip_white(json.subrange(pos + key_pattern(key).len(), json.len() as int)),
        ),
        None => None,
    }
}

fn after_key_chars(json: &Vec<char>, key: &str) -> (r: Option<Vec<char>>)
    ensures
        match r {
            Some(v) => after_key(json@, key@) == Some(v@),
            None => after_key(json@, key@) is None,
        },
{
    let pat = key_pattern_chars(key);
    match find(json, &pat) {
        Some(pos) => {
            proof {
                lemma_find_from(json@, pat@, 0);
            }
            let total = json.len();
            assert(pos + pat@.len() <= json@.len());
            let rest = sub_chars(json, pos + pat.len(), total);
            Some(trim_start_chars(&rest))
        },
        None => None,
    }
}

/// The string value of the first `"key":` of a JSON text: after optional
/// whitespace, the characters between a double quote and the next one.
pub open spec fn json_field_value(json: Seq<char>, key: Seq<char>) -> Option<Seq<char>> {
    match after_key(json, key) {
        Some(rest) => if rest.len() > 0 && rest[0] == '"' {
            match find_text(rest.drop_first(), seq!['"']) {
                Some(end) => Some(rest.drop_first().take(end)),
                None => None,
            }
        } else {
            None
        },
        None => None,
    }
}

/// Reads the string value of a field of a small JSON body (see
/// `json_field_value`); no unescaping is done.
pub fn extract_json_field(json: &str, key: &str) -> (r: Option<String>)
    ensures
        match r {
            Some(v) => json_field_value(json@, key@) == Some(v@),
            None => json_field_value(json@, key@) is None,
        },
{
    let js = chars_of(json);
    match after_key_chars(&js, key) {
        Some(rest) => {
            if rest.len() > 0 && rest[0] == '"' {
                let inner = sub_chars(&rest, 1, rest.len());
                assert(inner@ =~= rest@.drop_first());
                let mut quote: Vec<char> = Vec::new();
                quote.push('"');
                assert(quote@ =~= seq!['"']);
                match find(&inner, &quote) {
                    Some(end) => {
                        proof {
                            lemma_find_from(inner@, quote@, 0);
                        }
                        let v = sub_chars(&inner, 0, end);
                        assert(v@ =~= inner@.take(end as int));
                        Some(string_of(&v))
                    },
                    None => None,
                }
            } else {
                None
            }
        },
        None => None,
    }
}

/// The leading run of ASCII digits and minus signs of a text.
pub open spec fn number_prefix(t: Seq<char>) -> Seq<char>
    decreases t.len(),
{
    if t.len() > 0 && (('0' <= t[0] && t[0] <= '9') || t[0] == '-') {
        seq![t[0]] + number_prefix(t.drop_first())
    } else {
        seq![]
    }
}

/// The number value of the first `"key":` of a JSON text: the leading run
/// of digits and minus signs after optional whitespace, read as an `i64`.
pub open spec fn json_number_value(json: Seq<char>, key: Seq<char>) -> Option<i64> {
    match after_key(json, key) {
        Some(rest) => i64_text_value(number_prefix(rest)),
        None => None,
    }
}

fn number_prefix_chars(t: &Vec<char>) -> (r: Vec<char>)
    ensures
        r@ == number_prefix(t@),
{
    let mut i: usize = 0;
    assert(t@.skip(0) =~= t@);
    assert(t@.take(0) + number_prefix(t@) =~= number_prefix(t@));
    while i < t.len() && (('0' <= t[i] && t[i] <= '9') || t[i] == '-')
        invariant
            i <= t@.len(),
            number_prefix(t@) == t@.take(i as int) + number_prefix(t@.skip(i as int)),
        decreases t@.len() - i,
    {
        assert(t@.skip(i as int).drop_first() =~= t@.skip(i + 1));
        assert(t@.take(i + 1) =~= t@.take(i as int) + seq![t@[i as int]]);
        i = i + 1;
    }
    assert(number_prefix(t@.skip(i as int)) =~= seq![]);
    let r = sub_chars(t, 0, i);
    assert(r@ =~= t@.take(i as int));
    r
}

/// Reads the number value of a field of a small JSON body (see
/// `json_number_value`).
pub fn extract_json_num(json: &str, key: &str) -> (r: Option<i64>)
    ensures
        r == json_number_value(json@, key@),
{
    let js = chars_of(json);
    match after_key_chars(&js, key) {
        Some(rest) => {
            let num = number_prefix_chars(&rest);
            parse_i64(&num)
        },
        None => None,
    }
}


/// The pieces of a text between separators from position `i` on, `cur`
/// being the piece already read: every separator ends a piece, so empty
/// pieces count too.
pub open spec fn pieces_from(s: Seq<char>, sep: char, i: int, cur: Seq<char>) -> Seq<Seq<char>>
    decreases s.len() - i,
{
    if i >= s.len() || i < 0 {
        seq![cur]
    } else if s[i] == sep {
        seq![cur] + pieces_from(s, sep, i + 1, seq![])
    } else {
        pieces_from(s, sep, i + 1, cur.push(s[i]))
    }
}

/// The pieces of a text between separators (std's `str::split` on a char).
pub open spec fn pieces(s: Seq<char>, sep: char) -> Seq<Seq<char>> {
    pieces_from(s, sep, 0, seq![])
}

/// Splitting always gives at least one piece.
pub proof fn lemma_pieces_nonempty(s: Seq<char>, sep: char, i: int, cur: Seq<char>)
    ensures
        pieces_from(s, sep, i, cur).len() >= 1,
    decreases s.len() - i,
{
    if i >= s.len() || i < 0 {
    } else if s[i] == sep {
        lemma_pieces_nonempty(s, sep, i + 1, seq![]);
    } else {
        lemma_pieces_nonempty(s, sep, i + 1, cur.push(s[i]));
    }
}

/// Splits a text at every occurrence of a separator.
pub fn split_chars(s: &[char], sep: char) -> (r: Vec<Vec<char>>)
    ensures
        r@.map_values(|w: Vec<char>| w@) == pieces(s@, sep),
{
    let mut out: Vec<Vec<char>> = Vec::new();
    let mut cur: Vec<char> = Vec::new();
    let mut i: usize = 0;
    while i < s.len()
        invariant
            i <= s@.len(),
            out@.map_values(|w: Vec<char>| w@) + pieces_from(s@, sep, i as int, cur@) == pieces(
                s@,
                sep,
            ),
        decreases s@.len() - i,
    {
        let ghost before = out@.map_values(|w: Vec<char>| w@);
        let ghost cur0 = cur@;
        let c = s[i];
        if c == sep {
            let done = cur;
            out.push(done);
            cur = Vec::new();
            assert(out@.map_values(|w: Vec<char>| w@) =~= before.push(cur0));
            assert(pieces_from(s@, sep, i as int, cur0) == seq![cur0] + pieces_from(
                s@,
                sep,
                i + 1,
                seq![],
            ));
            assert(before.push(cur0) + pieces_from(s@, sep, i + 1, seq![]) =~= before + (seq![cur0]
                + pieces_from(s@, sep, i + 1, seq![])));
            assert(cur@ =~= seq![]);
        } else {
            cur.push(c);
            assert(pieces_from(s@, sep, i as int, cur0) == pieces_from(s@, sep, i + 1, cur0.push(c)));
        }
        i = i + 1;
    }
    let ghost before = out@.map_values(|w: Vec<char>| w@);
    let done = cur;
    out.push(done);
    assert(out@.map_values(|w: Vec<char>| w@) =~= before.push(done@));
    assert(out@.map_values(|w: Vec<char>| w@) =~= pieces(s@, sep));
    out
}

/// The value of the first `key=value` pair, among the pieces from `i` on,
/// whose key (the part before its first '=') is `key`.
pub open spec fn pair_value(ps: Seq<Seq<char>>, key: Seq<char>, i: int) -> Option<Seq<char>>
    decreases ps.len() - i,
{
    if i >= ps.len() || i < 0 {
        None
    } else {
        match find_text(ps[i], seq!['=']) {
            Some(k) => if ps[i].take(k) == key {
                Some(ps[i].skip(k + 1))
            } else {
                pair_value(ps, key, i + 1)
            },
            None => pair_value(ps, key, i + 1),
        }
    }
}

/// The value of a parameter in a query string: of the `&`-separated pairs,
/// the first whose key is `key`; no decoding is done.
pub open spec fn query_value(query: Seq<char>, key: Seq<char>) -> Option<Seq<char>> {
    pair_value(pieces(query, '&'), key, 0)
}

/// Reads a parameter of a query string (see `query_value`).
pub fn extract_query_param(query: &str, key: &str) -> (r: Option<String>)
    ensures
        match r {
            Some(v) => query_value(query@, key@) == Some(v@),
            None => query_value(query@, key@) is None,
        },
{
    let qc = chars_of(query);
    let kc = chars_of(key);
    let ps = split_chars(&qc, '&');
    let ghost pv = ps@.map_values(|w: Vec<char>| w@);
    let mut eq: Vec<char> = Vec::new();
    eq.push('=');
    assert(eq@ =~= seq!['=']);
    let mut i: usize = 0;
    while i < ps.len()
        invariant
            i <= ps@.len(),
            pv == ps@.map_values(|w: Vec<char>| w@),
            pv == pieces(qc@, '&'),
            qc@ == query@,
            kc@ == key@,
            eq@ == seq!['='],
            pair_value(pv, key@, 0) == pair_value(pv, key@, i as int),
        decreases ps@.len() - i,
    {
        let p = &ps[i];
        assert(p@ == pv[i as int]);
        match find(p, &eq) {
            Some(k) => {
                proof {
                    lemma_find_from(p@, eq@, 0);
                }
                let plen = p.len();
                assert(k + 1 <= p@.len());
                let name = sub_chars(p, 0, k);
                assert(name@ =~= p@.take(k as int));
                if crate::text::chars_eq(&name, &kc) {
                    let v = sub_chars(p, k + 1, plen);
                    assert(v@ =~= p@.skip(k + 1));
                    return Some(string_of(&v));
                }
            },
            None => {},
        }
        i = i + 1;
    }
    None
}


/// The first line of a request (std's `lines().next()`): none for an empty
/// text; otherwise the text up to the first line feed, without a carriage
/// return just before it.
pub open spec fn first_line(s: Seq<char>) -> Option<Seq<char>> {
    if s.len() == 0 {
        None
    } else {
        match find_text(s, seq!['\n']) {
            Some(k) => Some(
                if k > 0 && s[k - 1] == '\r' {
                    s.take(k - 1)
                } else {
                    s.take(k)
                },
            ),
            None => Some(s),
        }
    }
}

/// The body of a request: what follows the first blank line ("\r\n\r\n"),
/// or nothing.
pub open spec fn request_body(s: Seq<char>) -> Seq<char> {
    match find_text(s, seq!['\r', '\n', '\r', '\n']) {
        Some(p) => s.skip(p + 4),
        None => seq![],
    }
}

/// A request target split at its first '?' into path and query.
pub open spec fn split_target(t: Seq<char>) -> (Seq<char>, Seq<char>) {
    match find_text(t, seq!['?']) {
        Some(k) => (t.take(k), t.skip(k + 1)),
        None => (t, seq![]),
    }
}

/// A mandate to be created through the API.
#[derive(Debug, Clone)]
pub struct NewMandate {
    pub mandate_id: String,
    pub user_id: String,
    pub merchant_id: String,
    pub max_per_txn: i64,
    pub max_per_day: i64,
    pub max_total: i64,
}

/// A new mandate as mathematical values.
pub struct NewMandateView {
    pub mandate_id: Seq<char>,
    pub user_id: Seq<char>,
    pub merchant_id: Seq<char>,
    pub max_per_txn: i64,
    pub max_per_day: i64,
    pub max_total: i64,
}

impl View for NewMandate {
    type V = NewMandateView;

    open spec fn view(&self) -> NewMandateView {
        NewMandateView {
            mandate_id: self.mandate_id@,
            user_id: self.user_id@,
            merchant_id: self.merchant_id@,
            max_per_txn: self.max_per_txn,
            max_per_day: self.max_per_day,
            max_total: self.max_total,
        }
    }
}

/// What the server does with a request.
#[derive(Debug, Clone)]
pub enum Route {
    /// Send nothing and close.
    Ignore,
    /// Answer a CORS pre-flight: 200, text/plain "OK".
    Options,
    /// Serve a static file: its path and content type.
    StaticFile(String, String),
    /// List the mandates.
    ListMandates,
    /// List audit entries: mandate filter, decision filter, most entries.
    AuditLogs(Option<String>, Option<String>, usize),
    /// Put a request to the authorizer.
    Authorize(AuthorizeRequest),
    /// Create a mandate.
    CreateMandate(NewMandate),
    /// Run the agent on a prompt, with an optional user override.
    AgentChat(String, Option<String>),
    /// Answer 400 with this JSON body.
    BadRequest(String),
    /// Answer 404 with a JSON error.
    NotFound,
}

/// A route as mathematical values.
pub enum RouteView {
    Ignore,
    Options,
    StaticFile(Seq<char>, Seq<char>),
    ListMandates,
    AuditLogs(Option<Seq<char>>, Option<Seq<char>>, usize),
    Authorize(RequestView),
    CreateMandate(NewMandateView),
    AgentChat(Seq<char>, Option<Seq<char>>),
    BadRequest(Seq<char>),
    NotFound,
}

impl View for Route {
    type V = RouteView;

    open spec fn view(&self) -> RouteView {
        match self {
            Route::Ignore => RouteView::Ignore,
            Route::Options => RouteView::Options,
            Route::StaticFile(p, c) => RouteView::StaticFile(p@, c@),
            Route::ListMandates => RouteView::ListMandates,
            Route::AuditLogs(m, d, l) => RouteView::AuditLogs(opt_text(*m), opt_text(*d), *l),
            Route::Authorize(r) => RouteView::Authorize(r@),
            Route::CreateMandate(n) => RouteView::CreateMandate(n@),
            Route::AgentChat(p, u) => RouteView::AgentChat(p@, opt_text(*u)),
            Route::BadRequest(b) => RouteView::BadRequest(b@),
            Route::NotFound => RouteView::NotFound,
        }
    }
}

/// An optional text, or the empty text.
pub open spec fn or_empty(o: Option<Seq<char>>) -> Seq<char> {
    match o {
        Some(t) => t,
        None => seq![],
    }
}

/// The most audit entries a query asks for: its `limit` read as an
/// unsigned number, 50 when absent or unreadable.
pub open spec fn audit_limit(query: Seq<char>) -> usize {
    match query_value(query, "limit"@) {
        Some(l) => match unsigned_text_value(l, usize::MAX as u64) {
            Some(v) => v as usize,
            None => 50,
        },
        None => 50,
    }
}

/// Where a GET request goes.
pub open spec fn get_route(path: Seq<char>, query: Seq<char>) -> RouteView {
    if path == "/"@ || path == "/index.html"@ {
        RouteView::StaticFile("static/index.html"@, "text/html"@)
    } else if path == "/style.css"@ {
        RouteView::StaticFile("static/style.css"@, "text/css"@)
    } else if path == "/app.js"@ {
        RouteView::StaticFile("static/app.js"@, "application/javascript"@)
    } else if path == "/gate/mandates"@ {
        RouteView::ListMandates
    } else if path == "/gate/audit"@ {
        RouteView::AuditLogs(
            query_value(query, "mandate_id"@),
            query_value(query, "decision"@),
            audit_limit(query),
        )
    } else {
        RouteView::NotFound
    }
}

/// A number field of a body, 0 when absent or unreadable.
pub open spec fn body_number(body: Seq<char>, key: Seq<char>) -> i64 {
    match json_number_value(body, key) {
        Some(v) => v,
        None => 0,
    }
}

/// Where a POST request goes; requests missing what they need get a 400.
pub open spec fn post_route(path: Seq<char>, body: Seq<char>) -> RouteView {
    if path == "/gate/authorize"@ {
        let user = or_empty(json_field_value(body, "user_id"@));
        let merchant = or_empty(json_field_value(body, "merchant_id"@));
        let amount = body_number(body, "amount"@);
        if user.len() == 0 || merchant.len() == 0 || amount <= 0 {
            RouteView::BadRequest("{\"error\":\"Missing user_id, merchant_id, or amount\"}"@)
        } else {
            RouteView::Authorize(
                RequestView {
                    user_id: user,
                    merchant_id: merchant,
                    amount: amount,
                    mandate_id: json_field_value(body, "mandate_id"@),
                },
            )
        }
    } else if path == "/gate/mandates"@ {
        let id = or_empty(json_field_value(body, "mandate_id"@));
        let user = or_empty(json_field_value(body, "user_id"@));
        let merchant = or_empty(json_field_value(body, "merchant_id"@));
        if id.len() == 0 || user.len() == 0 || merchant.len() == 0 {
            RouteView::BadRequest("{\"error\":\"Missing mandate configuration fields\"}"@)
        } else {
            RouteView::CreateMandate(
                NewMandateView {
                    mandate_id: id,
                    user_id: user,
                    merchant_id: merchant,
                    max_per_txn: body_number(body, "max_per_txn"@),
                    max_per_day: body_number(body, "max_per_day"@),
                    max_total: body_number(body, "max_total"@),
                },
            )
        }
    } else if path == "/agent/chat"@ || path == "/agent/process"@ {
        let prompt = or_empty(json_field_value(body, "prompt"@));
        if prompt.len() == 0 {
            RouteView::BadRequest("{\"error\":\"Missing prompt\"}"@)
        } else {
            RouteView::AgentChat(prompt, json_field_value(body, "user_id"@))
        }
    } else {
        RouteView::NotFound
    }
}

proof fn lemma_words_run(s: Seq<char>, i: int, k: int, cur: Seq<char>)
    requires
        0 <= i <= k <= s.len(),
        forall|j: int| i <= j < k ==> !white_space(#[trigger] s[j]),
    ensures
        words_from(s, i, cur) == words_from(s, k, cur + s.subrange(i, k)),
    decreases k - i,
{
    if i == k {
        assert(cur + s.subrange(i, k) =~= cur);
    } else {
        lemma_words_run(s, i + 1, k, cur.push(s[i]));
        assert(cur.push(s[i]) + s.subrange(i + 1, k) =~= cur + s.subrange(i, k));
    }
}

/// A line of three non-empty parts without whitespace, joined by single
/// spaces, has exactly those parts as its words, in order.
pub proof fn lemma_three_words(a: Seq<char>, b: Seq<char>, c: Seq<char>)
    requires
        a.len() > 0,
        b.len() > 0,
        c.len() > 0,
        forall|j: int| 0 <= j < a.len() ==> !white_space(#[trigger] a[j]),
        forall|j: int| 0 <= j < b.len() ==> !white_space(#[trigger] b[j]),
        forall|j: int| 0 <= j < c.len() ==> !white_space(#[trigger] c[j]),
    ensures
        words(a + seq![' '] + b + seq![' '] + c) == seq![a, b, c],
{
    let s = a + seq![' '] + b + seq![' '] + c;
    let la = a.len() as int;
    let lb = b.len() as int;
    let lc = c.len() as int;
    assert forall|j: int| 0 <= j < la implies !white_space(#[trigger] s[j]) by {
        assert(s[j] == a[j]);
    }
    assert forall|j: int| la + 1 <= j < la + 1 + lb implies !white_space(#[trigger] s[j]) by {
        assert(s[j] == b[j - la - 1]);
    }
    assert forall|j: int| la + lb + 2 <= j < s.len() implies !white_space(#[trigger] s[j]) by {
        assert(s[j] == c[j - la - lb - 2]);
    }
    lemma_words_run(s, 0, la, seq![]);
    assert(seq![] + s.subrange(0, la) =~= a);
    assert(s[la] == ' ');
    lemma_words_run(s, la + 1, la + 1 + lb, seq![]);
    assert(seq![] + s.subrange(la + 1, la + 1 + lb) =~= b);
    assert(s[la + 1 + lb] == ' ');
    lemma_words_run(s, la + lb + 2, s.len() as int, seq![]);
    assert(seq![] + s.subrange(la + lb + 2, s.len() as int) =~= c);
    assert(words_from(s, s.len() as int, c) == seq![c]);
    assert(words_from(s, la + lb + 1, b) == seq![b] + seq![c]);
    assert(words_from(s, la, a) == seq![a] + (seq![b] + seq![c]));
    assert(seq![a] + (seq![b] + seq![c]) =~= seq![a, b, c]);
}

/// A request whose first line is a method, a target and a version (each
/// without whitespace, separated by single spaces) is dispatched by its
/// method: OPTIONS is a pre-flight, GET goes by the target's path and query,
/// POST by the target's path and the request's body, and any other method
/// is ignored.
pub proof fn lemma_request_dispatch(
    raw: Seq<char>,
    method: Seq<char>,
    target: Seq<char>,
    version: Seq<char>,
)
    requires
        first_line(raw) == Some(method + seq![' '] + target + seq![' '] + version),
        method.len() > 0,
        target.len() > 0,
        version.len() > 0,
        forall|j: int| 0 <= j < method.len() ==> !white_space(#[trigger] method[j]),
        forall|j: int| 0 <= j < target.len() ==> !white_space(#[trigger] target[j]),
        forall|j: int| 0 <= j < version.len() ==> !white_space(#[trigger] version[j]),
    ensures
        method == "OPTIONS"@ ==> route_of(raw) == RouteView::Options,
        method == "GET"@ ==> route_of(raw) == get_route(split_target(target).0, split_target(target).1),
        method == "POST"@ ==> route_of(raw) == post_route(split_target(target).0, request_body(raw)),
        !(method == "OPTIONS"@ || method == "GET"@ || method == "POST"@) ==> route_of(raw)
            == RouteView::Ignore,
{
    lemma_three_words(method, target, version);
    reveal_strlit("OPTIONS");
    reveal_strlit("GET");
    reveal_strlit("POST");
    assert("OPTIONS"@.len() == 7 && "GET"@.len() == 3 && "POST"@.len() == 4);
}

/// GET routing, for every query: "/" and "/index.html" serve the dashboard
/// page (static/index.html, text/html), "/style.css" and "/app.js" their
/// static files, "/gate/mandates" lists the mandates, "/gate/audit" lists
/// audit entries filtered by the query's `mandate_id` and `decision` and at
/// most its `limit` (50 when absent or not a number), and every other path
/// is not found.
pub proof fn lemma_get_routes(path: Seq<char>, query: Seq<char>)
    ensures
        (path == "/"@ || path == "/index.html"@) ==> get_route(path, query)
            == RouteView::StaticFile("static/index.html"@, "text/html"@),
        path == "/style.css"@ ==> get_route(path, query) == RouteView::StaticFile(
            "static/style.css"@,
            "text/css"@,
        ),
        path == "/app.js"@ ==> get_route(path, query) == RouteView::StaticFile(
            "static/app.js"@,
            "application/javascript"@,
        ),
        path == "/gate/mandates"@ ==> get_route(path, query) == RouteView::ListMandates,
        path == "/gate/audit"@ ==> get_route(path, query) == RouteView::AuditLogs(
            query_value(query, "mandate_id"@),
            query_value(query, "decision"@),
            match query_value(query, "limit"@) {
                Some(l) => match unsigned_text_value(l, usize::MAX as u64) {
                    Some(v) => v as usize,
                    None => 50usize,
                },
                None => 50usize,
            },
        ),
        !(path == "/"@ || path == "/index.html"@ || path == "/style.css"@ || path == "/app.js"@
            || path == "/gate/mandates"@ || path == "/gate/audit"@) ==> get_route(path, query)
            == RouteView::NotFound,
{
    reveal_strlit("/");
    reveal_strlit("/index.html");
    reveal_strlit("/style.css");
    reveal_strlit("/app.js");
    reveal_strlit("/gate/mandates");
    reveal_strlit("/gate/audit");
    assert("/style.css"@.len() == 10 && "/"@.len() == 1 && "/index.html"@.len() == 11);
    assert("/app.js"@.len() == 7 && "/gate/mandates"@.len() == 14 && "/gate/audit"@.len() == 11);
    assert("/gate/audit"@[1] != "/index.html"@[1]);
}

/// POST routing, for every body: "/gate/authorize" puts to the authorizer
/// the body's user, merchant, amount and optional mandate when the user and
/// merchant are non-empty strings and the amount a number above zero, and
/// answers 400 otherwise; "/gate/mandates" creates the mandate with the
/// body's id, user and merchant and each cap read from the key of its own
/// name (0 when absent), and answers 400 when an id is missing or empty;
/// "/agent/chat" and "/agent/process" run the agent on a non-empty prompt,
/// with the body's user as override, and answer 400 without one; every
/// other path is not found.
pub proof fn lemma_post_routes(path: Seq<char>, body: Seq<char>)
    ensures
        ({
            let num = |k: Seq<char>|
                match json_number_value(body, k) {
                    Some(v) => v,
                    None => 0i64,
                };
            let text = |k: Seq<char>|
                match json_field_value(body, k) {
                    Some(t) => t,
                    None => Seq::<char>::empty(),
                };
            &&& path == "/gate/authorize"@ ==> post_route(path, body) == if text("user_id"@).len()
                == 0 || text("merchant_id"@).len() == 0 || num("amount"@) <= 0 {
                RouteView::BadRequest("{\"error\":\"Missing user_id, merchant_id, or amount\"}"@)
            } else {
                RouteView::Authorize(
                    RequestView {
                        user_id: text("user_id"@),
                        merchant_id: text("merchant_id"@),
                        amount: num("amount"@),
                        mandate_id: json_field_value(body, "mandate_id"@),
                    },
                )
            }
            &&& path == "/gate/mandates"@ ==> post_route(path, body) == if text("mandate_id"@).len()
                == 0 || text("user_id"@).len() == 0 || text("merchant_id"@).len() == 0 {
                RouteView::BadRequest("{\"error\":\"Missing mandate configuration fields\"}"@)
            } else {
                RouteView::CreateMandate(
                    NewMandateView {
                        mandate_id: text("mandate_id"@),
                        user_id: text("user_id"@),
                        merchant_id: text("merchant_id"@),
                        max_per_txn: num("max_per_txn"@),
                        max_per_day: num("max_per_day"@),
                        max_total: num("max_total"@),
                    },
                )
            }
            &&& (path == "/agent/chat"@ || path == "/agent/process"@) ==> post_route(path, body)
                == if text("prompt"@).len() == 0 {
                RouteView::BadRequest("{\"error\":\"Missing prompt\"}"@)
            } else {
                RouteView::AgentChat(text("prompt"@), json_field_value(body, "user_id"@))
            }
            &&& !(path == "/gate/authorize"@ || path == "/gate/mandates"@ || path
                == "/agent/chat"@ || path == "/agent/process"@) ==> post_route(path, body)
                == RouteView::NotFound
        }),
{
    reveal_strlit("/gate/authorize");
    reveal_strlit("/gate/mandates");
    reveal_strlit("/agent/chat");
    reveal_strlit("/agent/process");
    assert("/gate/authorize"@.len() == 15 && "/gate/mandates"@.len() == 14);
    assert("/agent/chat"@.len() == 11 && "/agent/process"@.len() == 14);
    assert("/agent/process"@[1] != "/gate/mandates"@[1]);
}

/// Where a raw request goes: by the method and target of its first line,
/// with the query and body it carries.
pub open spec fn route_of(raw: Seq<char>) -> RouteView {
    match first_line(raw) {
        None => RouteView::Ignore,
        Some(line) => {
            let parts = words(line);
            if parts.len() < 2 {
                RouteView::Ignore
            } else {
                let method = parts[0];
                let target = split_target(parts[1]);
                if method == "OPTIONS"@ {
                    RouteView::Options
                } else if method == "GET"@ {
                    get_route(target.0, target.1)
                } else if method == "POST"@ {
                    post_route(target.0, request_body(raw))
                } else {
                    RouteView::Ignore
                }
            }
        },
    }
}


fn is_text(cs: &[char], lit: &str) -> (r: bool)
    ensures
        r == (cs@ == lit@),
{
    let l = chars_of(lit);
    chars_eq(cs, &l)
}

fn first_line_chars(raw: &Vec<char>) -> (r: Option<Vec<char>>)
    ensures
        match r {
            Some(l) => first_line(raw@) == Some(l@),
            None => first_line(raw@) is None,
        },
{
    if raw.len() == 0 {
        return None;
    }
    let mut nl: Vec<char> = Vec::new();
    nl.push('\n');
    assert(nl@ =~= seq!['\n']);
    match find(raw, &nl) {
        Some(k) => {
            proof {
                lemma_find_from(raw@, nl@, 0);
            }
            if k > 0 && raw[k - 1] == '\r' {
                let l = sub_chars(raw, 0, k - 1);
                assert(l@ =~= raw@.take(k - 1));
                Some(l)
            } else {
                let l = sub_chars(raw, 0, k);
                assert(l@ =~= raw@.take(k as int));
                Some(l)
            }
        },
        None => {
            let l = sub_chars(raw, 0, raw.len());
            assert(l@ =~= raw@);
            Some(l)
        },
    }
}

fn body_chars(raw: &Vec<char>) -> (r: Vec<char>)
    ensures
        r@ == request_body(raw@),
{
    let mut sep: Vec<char> = Vec::new();
    sep.push('\r');
    sep.push('\n');
    sep.push('\r');
    sep.push('\n');
    assert(sep@ =~= seq!['\r', '\n', '\r', '\n']);
    match find(raw, &sep) {
        Some(p) => {
            proof {
                lemma_find_from(raw@, sep@, 0);
            }
            let total = raw.len();
            assert(p + 4 <= raw@.len());
            let b = sub_chars(raw, p + 4, total);
            assert(b@ =~= raw@.skip(p + 4));
            b
        },
        None => {
            let b: Vec<char> = Vec::new();
            assert(b@ =~= seq![]);
            b
        },
    }
}

fn split_target_chars(t: &Vec<char>) -> (r: (Vec<char>, Vec<char>))
    ensures
        (r.0@, r.1@) == split_target(t@),
{
    let mut q: Vec<char> = Vec::new();
    q.push('?');
    assert(q@ =~= seq!['?']);
    match find(t, &q) {
        Some(k) => {
            proof {
                lemma_find_from(t@, q@, 0);
            }
            let total = t.len();
            assert(k + 1 <= t@.len());
            let path = sub_chars(t, 0, k);
            let query = sub_chars(t, k + 1, total);
            assert(path@ =~= t@.take(k as int));
            assert(query@ =~= t@.skip(k + 1));
            (path, query)
        },
        None => {
            let path = sub_chars(t, 0, t.len());
            assert(path@ =~= t@);
            let query: Vec<char> = Vec::new();
            assert(query@ =~= seq![]);
            (path, query)
        },
    }
}

fn field_or_empty(body: &str, key: &str) -> (r: String)
    ensures
        r@ == or_empty(json_field_value(body@, key@)),
{
    match extract_json_field(body, key) {
        Some(v) => v,
        None => String::new(),
    }
}

fn number_or_zero(body: &str, key: &str) -> (r: i64)
    ensures
        r == body_number(body@, key@),
{
    match extract_json_num(body, key) {
        Some(v) => v,
        None => 0,
    }
}

fn get_route_of(path: &Vec<char>, query: &str) -> (r: Route)
    ensures
        r@ == get_route(path@, query@),
{
    if is_text(path, "/") || is_text(path, "/index.html") {
        Route::StaticFile(owned("static/index.html"), owned("text/html"))
    } else if is_text(path, "/style.css") {
        Route::StaticFile(owned("static/style.css"), owned("text/css"))
    } else if is_text(path, "/app.js") {
        Route::StaticFile(owned("static/app.js"), owned("application/javascript"))
    } else if is_text(path, "/gate/mandates") {
        Route::ListMandates
    } else if is_text(path, "/gate/audit") {
        let limit: usize = match extract_query_param(query, "limit") {
            Some(l) => {
                let lc = chars_of(l.as_str());
                match parse_unsigned(&lc, usize::MAX as u64) {
                    Some(v) => v as usize,
                    None => 50,
                }
            },
            None => 50,
        };
        Route::AuditLogs(
            extract_query_param(query, "mandate_id"),
            extract_query_param(query, "decision"),
            limit,
        )
    } else {
        Route::NotFound
    }
}

fn post_route_of(path: &Vec<char>, body: &str) -> (r: Route)
    ensures
        r@ == post_route(path@, body@),
{
    if is_text(path, "/gate/authorize") {
        let user = field_or_empty(body, "user_id");
        let merchant = field_or_empty(body, "merchant_id");
        let amount = number_or_zero(body, "amount");
        if user.as_str().is_empty() || merchant.as_str().is_empty() || amount <= 0 {
            Route::BadRequest(owned("{\"error\":\"Missing user_id, merchant_id, or amount\"}"))
        } else {
            Route::Authorize(
                AuthorizeRequest {
                    user_id: user,
                    merchant_id: merchant,
                    amount: amount,
                    mandate_id: extract_json_field(body, "mandate_id"),
                },
            )
        }
    } else if is_text(path, "/gate/mandates") {
        let id = field_or_empty(body, "mandate_id");
        let user = field_or_empty(body, "user_id");
        let merchant = field_or_empty(body, "merchant_id");
        if id.as_str().is_empty() || user.as_str().is_empty() || merchant.as_str().is_empty() {
            Route::BadRequest(owned("{\"error\":\"Missing mandate configuration fields\"}"))
        } else {
            Route::CreateMandate(
                NewMandate {
                    mandate_id: id,
                    user_id: user,
                    merchant_id: merchant,
                    max_per_txn: number_or_zero(body, "max_per_txn"),
                    max_per_day: number_or_zero(body, "max_per_day"),
                    max_total: number_or_zero(body, "max_total"),
                },
            )
        }
    } else if is_text(path, "/agent/chat") || is_text(path, "/agent/process") {
        let prompt = field_or_empty(body, "prompt");
        if prompt.as_str().is_empty() {
            Route::BadRequest(owned("{\"error\":\"Missing prompt\"}"))
        } else {
            Route::AgentChat(prompt, extract_json_field(body, "user_id"))
        }
    } else {
        Route::NotFound
    }
}

/// Reads a raw HTTP request into what the server does with it (see
/// `route_of`).
pub fn route_request(raw: &str) -> (r: Route)
    ensures
        r@ == route_of(raw@),
{
    let rc = chars_of(raw);
    match first_line_chars(&rc) {
        None => Route::Ignore,
        Some(line) => {
            let parts = split_words(&line);
            let ghost pv = parts@.map_values(|w: Vec<char>| w@);
            assert(pv.len() == parts@.len());
            if parts.len() < 2 {
                return Route::Ignore;
            }
            assert(parts[0]@ == pv[0]);
            assert(parts[1]@ == pv[1]);
            let (path, query) = split_target_chars(&parts[1]);
            let method = &parts[0];
            if is_text(method, "OPTIONS") {
                Route::Options
            } else if is_text(method, "GET") {
                let q = string_of(&query);
                get_route_of(&path, q.as_str())
            } else if is_text(method, "POST") {
                let b = body_chars(&rc);
                let bs = string_of(&b);
                post_route_of(&path, bs.as_str())
            } else {
                Route::Ignore
            }
        },
    }
}


// ----------------------------------------------------------------------
// Responses
// ----------------------------------------------------------------------

/// The reason phrase sent with a status code.
pub open spec fn status_reason(code: u16) -> Seq<char> {
    if code == 200 {
        "OK"@
    } else if code == 201 {
        "Created"@
    } else if code == 400 {
        "Bad Request"@
    } else if code == 404 {
        "Not Found"@
    } else if code == 500 {
        "Internal Server Error"@
    } else {
        "OK"@
    }
}

fn reason_phrase(code: u16) -> (r: &'static str)
    ensures
        r@ == status_reason(code),
{
    if code == 200 {
        "OK"
    } else if code == 201 {
        "Created"
    } else if code == 400 {
        "Bad Request"
    } else if code == 404 {
        "Not Found"
    } else if code == 500 {
        "Internal Server Error"
    } else {
        "OK"
    }
}

/// The byte length of a text in UTF-8.
pub open spec fn byte_len(s: Seq<char>) -> usize {
    encode_utf8(s).len() as usize
}

/// A whole HTTP/1.1 response: status line, content type, content length in
/// bytes, `Connection: close`, the CORS headers when asked for, a blank
/// line, and the body.
pub open spec fn response_text(code: u16, content_type: Seq<char>, body: Seq<char>, cors: bool) -> Seq<char> {
    "HTTP/1.1 "@ + nat_text(code as nat) + " "@ + status_reason(code) + "\r\nContent-Type: "@
        + content_type + "\r\nContent-Length: "@ + nat_text(byte_len(body) as nat)
        + "\r\nConnection: close\r\n"@ + (if cors {
        "Access-Control-Allow-Origin: *\r\nAccess-Control-Allow-Methods: GET, POST, OPTIONS\r\nAccess-Control-Allow-Headers: Content-Type\r\n"@
    } else {
        seq![]
    }) + "\r\n"@ + body
}

/// Writes an HTTP response (see `response_text`).
pub fn http_response(status_code: u16, content_type: &str, body: &str, cors: bool) -> (r: String)
    ensures
        r@ == response_text(status_code, content_type@, body@, cors),
{
    let mut out = owned("HTTP/1.1 ");
    push_radix(&mut out, status_code as u64, 10);
    push_str(&mut out, " ");
    push_str(&mut out, reason_phrase(status_code));
    push_str(&mut out, "\r\nContent-Type: ");
    push_str(&mut out, content_type);
    push_str(&mut out, "\r\nContent-Length: ");
    let n: usize = body.len();
    push_radix(&mut out, n as u64, 10);
    push_str(&mut out, "\r\nConnection: close\r\n");
    let ghost before = out@;
    if cors {
        push_str(
            &mut out,
            "Access-Control-Allow-Origin: *\r\nAccess-Control-Allow-Methods: GET, POST, OPTIONS\r\nAccess-Control-Allow-Headers: Content-Type\r\n",
        );
    }
    assert(out@ =~= before + (if cors {
        "Access-Control-Allow-Origin: *\r\nAccess-Control-Allow-Methods: GET, POST, OPTIONS\r\nAccess-Control-Allow-Headers: Content-Type\r\n"@
    } else {
        seq![]
    }));
    push_str(&mut out, "\r\n");
    push_str(&mut out, body);
    out
}

/// Texts joined with a separator between each two.
pub open spec fn joined(items: Seq<Seq<char>>, sep: Seq<char>) -> Seq<char>
    decreases items.len(),
{
    if items.len() == 0 {
        seq![]
    } else if items.len() == 1 {
        items[0]
    } else {
        joined(items.drop_last(), sep) + sep + items.last()
    }
}

/// Joining one more text adds the separator and the text.
pub proof fn lemma_joined_step(items: Seq<Seq<char>>, sep: Seq<char>, i: int)
    requires
        0 <= i < items.len(),
    ensures
        joined(items.take(i + 1), sep) == if i == 0 {
            items[0]
        } else {
            joined(items.take(i), sep) + sep + items[i]
        },
{
    assert(items.take(i + 1).drop_last() =~= items.take(i));
    assert(items.take(i + 1).last() == items[i]);
}

fn push_item(out: &mut String, first: bool, item: &str)
    ensures
        final(out)@ == old(out)@ + (if first {
            seq![]
        } else {
            seq![',']
        }) + item@,
{
    let ghost o = out@;
    if !first {
        push_str(out, ",");
        proof {
            reveal_strlit(",");
        }
        assert(out@ =~= o + seq![',']);
    } else {
        assert(out@ =~= o + seq![]);
    }
    push_str(out, item);
}

/// The JSON texts of mandates, each with the spending of `today` and its
/// utilization texts.
pub open spec fn mandate_items(
    ms: Seq<MandateModel>,
    today: Seq<char>,
    daily: Seq<String>,
    total: Seq<String>,
) -> Seq<Seq<char>> {
    Seq::new(
        ms.len(),
        |i: int| mandate_json(ms[i]@, spent_today_now(ms[i]@, today), daily[i]@, total[i]@),
    )
}

/// The body listing mandates.
pub open spec fn mandates_body(items: Seq<Seq<char>>) -> Seq<char> {
    "{\"status\":\"success\",\"mandates\":["@ + joined(items, seq![',']) + "]}"@
}

/// The body listing mandates: each with what it has spent today (nothing
/// when it was last spent on another day) and the utilization texts given
/// for it, in the order given.
pub fn list_mandates_body(
    mandates: &Vec<MandateModel>,
    today: &str,
    daily_pcts: &Vec<String>,
    total_pcts: &Vec<String>,
) -> (r: String)
    requires
        daily_pcts@.len() == mandates@.len(),
        total_pcts@.len() == mandates@.len(),
    ensures
        r@ == mandates_body(mandate_items(mandates@, today@, daily_pcts@, total_pcts@)),
{
    let ghost items = mandate_items(mandates@, today@, daily_pcts@, total_pcts@);
    let mut out = owned("{\"status\":\"success\",\"mandates\":[");
    let ghost head = out@;
    let mut i: usize = 0;
    while i < mandates.len()
        invariant
            i <= mandates@.len(),
            daily_pcts@.len() == mandates@.len(),
            total_pcts@.len() == mandates@.len(),
            items == mandate_items(mandates@, today@, daily_pcts@, total_pcts@),
            out@ == head + joined(items.take(i as int), seq![',']),
        decreases mandates@.len() - i,
    {
        let m = &mandates[i];
        let cur = current_spent_today(m, today);
        let j = m.to_json(Some(cur), daily_pcts[i].as_str(), total_pcts[i].as_str());
        assert(j@ == items[i as int]);
        let ghost o = out@;
        push_item(&mut out, i == 0, j.as_str());
        proof {
            lemma_joined_step(items, seq![','], i as int);
            if i == 0 {
                assert(items.take(0) =~= seq![]);
            }
        }
        assert(out@ =~= head + joined(items.take(i + 1), seq![',']));
        i = i + 1;
    }
    assert(items.take(mandates@.len() as int) =~= items);
    push_str(&mut out, "]}");
    out
}

/// The JSON texts of audit entries.
pub open spec fn audit_items(logs: Seq<AuditLogEntry>) -> Seq<Seq<char>> {
    Seq::new(logs.len(), |i: int| audit_json(logs[i]@))
}

/// The body listing audit entries with their count.
pub open spec fn audit_body(logs: Seq<AuditLogEntry>) -> Seq<char> {
    "{\"status\":\"success\",\"count\":"@ + nat_text(logs.len()) + ",\"logs\":["@ + joined(
        audit_items(logs),
        seq![','],
    ) + "]}"@
}

/// The body listing audit entries, in the order given, with their count.
#[verifier::spinoff_prover]
pub fn audit_logs_body(logs: &Vec<AuditLogEntry>) -> (r: String)
    ensures
        r@ == audit_body(logs@),
{
    let ghost items = audit_items(logs@);
    let mut out = owned("{\"status\":\"success\",\"count\":");
    push_radix(&mut out, logs.len() as u64, 10);
    push_str(&mut out, ",\"logs\":[");
    let ghost head = out@;
    let mut i: usize = 0;
    while i < logs.len()
        invariant
            i <= logs@.len(),
            items == audit_items(logs@),
            out@ == head + joined(items.take(i as int), seq![',']),
        decreases logs@.len() - i,
    {
        let j = logs[i].to_json();
        assert(j@ == items[i as int]);
        push_item(&mut out, i == 0, j.as_str());
        proof {
            lemma_joined_step(items, seq![','], i as int);
            if i == 0 {
                assert(items.take(0) =~= seq![]);
            }
        }
        assert(out@ =~= head + joined(items.take(i + 1), seq![',']));
        i = i + 1;
    }
    assert(items.take(logs@.len() as int) =~= items);
    push_str(&mut out, "]}");
    out
}


/// The body answering an agent chat: the prompt and the agent's message
/// (escaped), the intent the decision was made on, and the decision.
pub open spec fn agent_chat_text(
    prompt: Seq<char>,
    agent_message: Seq<char>,
    d: crate::models::DecisionView,
    daily_pct: Seq<char>,
    total_pct: Seq<char>,
) -> Seq<char> {
    "{\"status\":\"completed\",\"prompt\":\""@ + escaped(prompt) + "\",\"agent_message\":\""@
        + escaped(agent_message) + "\",\"parsed_intent\":{\"user_id\":\""@ + escaped(d.user_id)
        + "\",\"merchant_id\":\""@ + escaped(d.merchant_id) + "\",\"amount_paise\":"@ + int_text(
        d.requested_amount as int,
    ) + ",\"amount_formatted\":\""@ + inr_text(d.requested_amount as int)
        + "\"},\"gate_decision\":"@ + decision_json(d, daily_pct, total_pct) + "}"@
}

/// Writes the body answering an agent chat (see `agent_chat_text`); the
/// utilization texts are those of the decision's updated mandate.
pub fn agent_chat_body(
    prompt: &str,
    agent_message: &str,
    decision: &GateDecision,
    daily_pct: &str,
    total_pct: &str,
) -> (r: String)
    ensures
        r@ == agent_chat_text(prompt@, agent_message@, decision@, daily_pct@, total_pct@),
{
    let mut out = owned("{\"status\":\"completed\",\"prompt\":\"");
    push_escaped(&mut out, prompt);
    push_str(&mut out, "\",\"agent_message\":\"");
    push_escaped(&mut out, agent_message);
    push_str(&mut out, "\",\"parsed_intent\":{\"user_id\":\"");
    push_escaped(&mut out, decision.user_id.as_str());
    push_str(&mut out, "\",\"merchant_id\":\"");
    push_escaped(&mut out, decision.merchant_id.as_str());
    push_str(&mut out, "\",\"amount_paise\":");
    push_int(&mut out, decision.requested_amount);
    push_str(&mut out, ",\"amount_formatted\":\"");
    let amount = format_inr(decision.requested_amount);
    push_str(&mut out, amount.as_str());
    push_str(&mut out, "\"},\"gate_decision\":");
    let dj = decision.to_json(daily_pct, total_pct);
    push_str(&mut out, dj.as_str());
    push_str(&mut out, "}");
    out
}

/// The body confirming a created mandate.
pub open spec fn created_text(mandate_id: Seq<char>) -> Seq<char> {
    "{\"status\":\"success\",\"mandate_id\":\""@ + mandate_id + "\"}"@
}

/// Writes the body confirming a created mandate; the id is not escaped.
pub fn created_body(mandate_id: &str) -> (r: String)
    ensures
        r@ == created_text(mandate_id@),
{
    let mut out = owned("{\"status\":\"success\",\"mandate_id\":\"");
    push_str(&mut out, mandate_id);
    push_str(&mut out, "\"}");
    out
}

/// The body reporting an error message.
pub open spec fn error_text(message: Seq<char>) -> Seq<char> {
    "{\"error\":\""@ + escaped(message) + "\"}"@
}

/// Writes the body reporting an error message (escaped).
pub fn error_body(message: &str) -> (r: String)
    ensures
        r@ == error_text(message@),
{
    let mut out = owned("{\"error\":\"");
    push_escaped(&mut out, message);
    push_str(&mut out, "\"}");
    out
}

/// The answer to a decided authorization: 200 when it was approved and 400
/// otherwise, with the decision's JSON object as the body, and CORS headers.
pub open spec fn authorization_answer(d: DecisionView, daily_pct: Seq<char>, total_pct: Seq<char>) -> Seq<char> {
    response_text(
        if d.decision == "approved"@ {
            200
        } else {
            400
        },
        "application/json"@,
        decision_json(d, daily_pct, total_pct),
        true,
    )
}

/// Writes the answer to a decided authorization (see `authorization_answer`);
/// the utilization texts are those of the decision's updated mandate.
pub fn authorization_response(decision: &GateDecision, daily_pct: &str, total_pct: &str) -> (r: String)
    ensures
        r@ == authorization_answer(decision@, daily_pct@, total_pct@),
{
    let body = decision.to_json(daily_pct, total_pct);
    let x = chars_of(decision.decision.as_str());
    let y = chars_of("approved");
    let code: u16 = if chars_eq(&x, &y) {
        200
    } else {
        400
    };
    http_response(code, "application/json", body.as_str(), true)
}

/// The answer to a route that needs no outside work: a CORS pre-flight gets
/// 200 "OK" as text, a bad request 400 with its JSON body, an unknown
/// target 404 with a JSON error; every other route needs work first.
pub open spec fn immediate_answer(r: RouteView) -> Option<Seq<char>> {
    match r {
        RouteView::Options => Some(response_text(200, "text/plain"@, "OK"@, true)),
        RouteView::BadRequest(b) => Some(response_text(400, "application/json"@, b, true)),
        RouteView::NotFound => Some(
            response_text(404, "application/json"@, "{\"error\":\"Not Found\"}"@, true),
        ),
        _ => None,
    }
}

/// Writes the answer to a route that needs no outside work, if it is one
/// (see `immediate_answer`).
pub fn immediate_response(route: &Route) -> (r: Option<String>)
    ensures
        opt_text(r) == immediate_answer(route@),
{
    match route {
        Route::Options => Some(http_response(200, "text/plain", "OK", true)),
        Route::BadRequest(b) => Some(http_response(400, "application/json", b.as_str(), true)),
        Route::NotFound => Some(
            http_response(404, "application/json", "{\"error\":\"Not Found\"}", true),
        ),
        _ => None,
    }
}

/// The answer to a mandate creation once the insert has run: 201 with the
/// confirmation when it succeeded, 400 with the database's error otherwise.
pub open spec fn creation_answer(mandate_id: Seq<char>, outcome: Result<(), Seq<char>>) -> Seq<char> {
    match outcome {
        Ok(()) => response_text(201, "application/json"@, created_text(mandate_id), true),
        Err(e) => response_text(400, "application/json"@, error_text(e), true),
    }
}

/// Writes the answer to a mandate creation given the insert's outcome (see
/// `creation_answer`).
pub fn creation_response(mandate_id: &str, outcome: &Result<(), String>) -> (r: String)
    ensures
        r@ == creation_answer(
            mandate_id@,
            match outcome {
                Ok(()) => Ok(()),
                Err(e) => Err(e@),
            },
        ),
{
    match outcome {
        Ok(()) => {
            let body = created_body(mandate_id);
            http_response(201, "application/json", body.as_str(), true)
        },
        Err(e) => {
            let body = error_body(e.as_str());
            http_response(400, "application/json", body.as_str(), true)
        },
    }
}

/// The statement inserting a new mandate: its ids (JSON-escaped) and caps,
/// nothing spent, last spent today, active, with the fixed expiry and
/// creation stamps of mandates made through the API.
pub open spec fn insert_mandate_text(n: NewMandateView, today: Seq<char>) -> Seq<char> {
    "INSERT INTO mandates (mandate_id, user_id, merchant_id, max_per_txn, max_per_day, max_total, spent_today, spent_total, last_spent_date, expires_at, created_at, status) VALUES ('"@
        + escaped(n.mandate_id) + "', '"@ + escaped(n.user_id) + "', '"@ + escaped(n.merchant_id)
        + "', "@ + int_text(n.max_per_txn as int) + ", "@ + int_text(n.max_per_day as int)
        + ", "@ + int_text(n.max_total as int) + ", 0, 0, '"@ + today
        + "', '2027-12-31T23:59:59Z', '2026-08-30T00:00:00Z', 'active');"@
}

/// Writes the statement inserting a new mandate (see
/// `insert_mandate_text`).
pub fn insert_mandate_sql(n: &NewMandate, today: &str) -> (r: String)
    ensures
        r@ == insert_mandate_text(n@, today@),
{
    let mut out = owned(
        "INSERT INTO mandates (mandate_id, user_id, merchant_id, max_per_txn, max_per_day, max_total, spent_today, spent_total, last_spent_date, expires_at, created_at, status) VALUES ('",
    );
    push_escaped(&mut out, n.mandate_id.as_str());
    push_str(&mut out, "', '");
    push_escaped(&mut out, n.user_id.as_str());
    push_str(&mut out, "', '");
    push_escaped(&mut out, n.merchant_id.as_str());
    push_str(&mut out, "', ");
    push_int(&mut out, n.max_per_txn);
    push_str(&mut out, ", ");
    push_int(&mut out, n.max_per_day);
    push_str(&mut out, ", ");
    push_int(&mut out, n.max_total);
    push_str(&mut out, ", 0, 0, '");
    push_str(&mut out, today);
    push_str(&mut out, "', '2027-12-31T23:59:59Z', '2026-08-30T00:00:00Z', 'active');");
    out
}

} // verus!
