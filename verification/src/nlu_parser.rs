//! The deterministic reader of spend prompts: who is buying, where, and
//! which words of the prompt may carry the amount.

use vstd::prelude::*;
use crate::text::{
    ascii_digit, chars_of, contains, contains_text, digits_to_u64, digits_value, has_prefix,
    is_whitespace, lower_text, owned, starts_with, string_of, to_lowercase, white_space,
};

verus! {

/// What std's `char::is_alphanumeric` says of a character (Unicode
/// Alphabetic or Numeric).
pub uninterp spec fn alphanumeric(c: char) -> bool;

/// std's `char::is_alphanumeric`. Trusted: the result is `alphanumeric` of
/// the character; which characters those are is left to Unicode and unsaid.
#[verifier::external_body]
fn is_alphanumeric(c: char) -> (r: bool)
    ensures
        r == alphanumeric(c),
{
    c.is_alphanumeric()
}

/// The words of a text from position `i` on, `cur` being the part of a word
/// already read: the maximal runs of non-whitespace characters.
pub open spec fn words_from(s: Seq<char>, i: int, cur: Seq<char>) -> Seq<Seq<char>>
    decreases s.len() - i,
{
    if i >= s.len() || i < 0 {
        if cur.len() > 0 {
            seq![cur]
        } else {
            seq![]
        }
    } else if white_space(s[i]) {
        (if cur.len() > 0 {
            seq![cur]
        } else {
            seq![]
        }) + words_from(s, i + 1, seq![])
    } else {
        words_from(s, i + 1, cur.push(s[i]))
    }
}

/// The whitespace-separated words of a text, in order.
pub open spec fn words(s: Seq<char>) -> Seq<Seq<char>> {
    words_from(s, 0, seq![])
}

/// The whitespace-separated words of a text.
pub fn split_words(s: &[char]) -> (r: Vec<Vec<char>>)
    ensures
        r@.map_values(|w: Vec<char>| w@) == words(s@),
{
    let mut out: Vec<Vec<char>> = Vec::new();
    let mut cur: Vec<char> = Vec::new();
    let mut i: usize = 0;
    while i < s.len()
        invariant
            i <= s@.len(),
            out@.map_values(|w: Vec<char>| w@) + words_from(s@, i as int, cur@) == words(s@),
        decreases s@.len() - i,
    {
        let ghost before = out@.map_values(|w: Vec<char>| w@);
        let ghost cur0 = cur@;
        let c = s[i];
        if is_whitespace(c) {
            if cur.len() > 0 {
                let done = cur;
                out.push(done);
                cur = Vec::new();
                assert(out@.map_values(|w: Vec<char>| w@) =~= before.push(done@));
                assert(words_from(s@, i as int, cur0) == seq![cur0] + words_from(
                    s@,
                    i + 1,
                    seq![],
                ));
                assert(before.push(cur0) + words_from(s@, i + 1, seq![]) =~= before + (seq![cur0]
                    + words_from(s@, i + 1, seq![])));
            } else {
                assert(out@.map_values(|w: Vec<char>| w@) =~= before);
                assert(words_from(s@, i as int, cur0) =~= words_from(s@, i + 1, seq![]));
                assert(cur@ =~= seq![]);
            }
        } else {
            cur.push(c);
            assert(words_from(s@, i as int, cur0) == words_from(s@, i + 1, cur0.push(c)));
        }
        i = i + 1;
    }
    if cur.len() > 0 {
        let ghost before = out@.map_values(|w: Vec<char>| w@);
        let done = cur;
        out.push(done);
        assert(out@.map_values(|w: Vec<char>| w@) =~= before.push(done@));
    }
    assert(out@.map_values(|w: Vec<char>| w@) =~= words(s@));
    out
}


/// The characters that trimming strips from the ends of a word: neither
/// alphanumeric nor a point.
pub open spec fn trimmed_char(c: char) -> bool {
    !alphanumeric(c) && c != '.'
}

/// A word without its leading stripped characters.
pub open spec fn strip_front(w: Seq<char>) -> Seq<char>
    decreases w.len(),
{
    if w.len() > 0 && trimmed_char(w[0]) {
        strip_front(w.drop_first())
    } else {
        w
    }
}

/// A word without its trailing stripped characters.
pub open spec fn strip_back(w: Seq<char>) -> Seq<char>
    decreases w.len(),
{
    if w.len() > 0 && trimmed_char(w.last()) {
        strip_back(w.drop_last())
    } else {
        w
    }
}

/// A word with the stripped characters removed from both ends.
pub open spec fn trim_word(w: Seq<char>) -> Seq<char> {
    strip_back(strip_front(w))
}

/// Removes, from both ends of a word, every character that is neither
/// alphanumeric nor a point.
pub fn trim_word_chars(w: &[char]) -> (r: Vec<char>)
    ensures
        r@ == trim_word(w@),
{
    let n = w.len();
    let mut i: usize = 0;
    assert(w@.subrange(0, n as int) =~= w@);
    while i < n && !is_alphanumeric(w[i]) && w[i] != '.'
        invariant
            n == w@.len(),
            i <= n,
            strip_front(w@) == strip_front(w@.subrange(i as int, n as int)),
        decreases n - i,
    {
        assert(w@.subrange(i as int, n as int).drop_first() =~= w@.subrange(i + 1, n as int));
        i = i + 1;
    }
    assert(strip_front(w@) == w@.subrange(i as int, n as int)) by {
        if i == n {
            assert(w@.subrange(i as int, n as int) =~= seq![]);
        }
    }
    let mut j: usize = n;
    while j > i && !is_alphanumeric(w[j - 1]) && w[j - 1] != '.'
        invariant
            n == w@.len(),
            i <= j <= n,
            trim_word(w@) == strip_back(w@.subrange(i as int, j as int)),
        decreases j - i,
    {
        assert(w@.subrange(i as int, j as int).drop_last() =~= w@.subrange(i as int, j - 1));
        j = j - 1;
    }
    let mut r: Vec<char> = Vec::new();
    let mut k: usize = i;
    while k < j
        invariant
            i <= k <= j <= n,
            n == w@.len(),
            r@ == w@.subrange(i as int, k as int),
        decreases j - k,
    {
        r.push(w[k]);
        assert(w@.subrange(i as int, k + 1) =~= w@.subrange(i as int, k as int).push(w@[k as int]));
        k = k + 1;
    }
    assert(trim_word(w@) == w@.subrange(i as int, j as int)) by {
        if j == i {
            assert(w@.subrange(i as int, j as int) =~= seq![]);
        }
    }
    r
}

/// The ASCII digits and points of a word, in order.
pub open spec fn digits_and_points(w: Seq<char>) -> Seq<char>
    decreases w.len(),
{
    if w.len() == 0 {
        seq![]
    } else {
        digits_and_points(w.drop_last()) + if ascii_digit(w.last()) || w.last() == '.' {
            seq![w.last()]
        } else {
            seq![]
        }
    }
}

fn keep_digits_and_points(w: &[char]) -> (r: Vec<char>)
    ensures
        r@ == digits_and_points(w@),
{
    let mut r: Vec<char> = Vec::new();
    let mut i: usize = 0;
    while i < w.len()
        invariant
            i <= w@.len(),
            r@ == digits_and_points(w@.take(i as int)),
        decreases w@.len() - i,
    {
        let c = w[i];
        let ghost r0 = r@;
        if ('0' <= c && c <= '9') || c == '.' {
            r.push(c);
        }
        assert(w@.take(i + 1).drop_last() =~= w@.take(i as int));
        assert(r@ =~= digits_and_points(w@.take(i + 1)));
        i = i + 1;
    }
    assert(w@.take(w@.len() as int) =~= w@);
    r
}

/// A word that names the currency in front of the number: it begins with
/// the rupee sign, "rs" or "inr".
pub open spec fn currency_prefixed(w: Seq<char>) -> bool {
    ||| starts_with(w, seq!['\u{20b9}'])
    ||| starts_with(w, "rs"@)
    ||| starts_with(w, "inr"@)
}

/// The word before word `i` names the amount: it holds the rupee sign, "rs",
/// "under", "for" or "worth".
pub open spec fn context_before(ws: Seq<Seq<char>>, i: int) -> bool {
    i > 0 && {
        let p = ws[i - 1];
        ||| contains_text(p, seq!['\u{20b9}'])
        ||| contains_text(p, "rs"@)
        ||| contains_text(p, "under"@)
        ||| contains_text(p, "for"@)
        ||| contains_text(p, "worth"@)
    }
}

/// The word after word `i` names the currency: it holds "rupees", "inr" or
/// "rs".
pub open spec fn context_after(ws: Seq<Seq<char>>, i: int) -> bool {
    i + 1 < ws.len() && {
        let n = ws[i + 1];
        ||| contains_text(n, "rupees"@)
        ||| contains_text(n, "inr"@)
        ||| contains_text(n, "rs"@)
    }
}

/// A place in a prompt where the amount may stand.
#[derive(Debug, Clone)]
pub enum AmountProbe {
    /// The digits and points of a word that begins with a currency name;
    /// the amount if they read as a number.
    Currency(String),
    /// A whole (trimmed) word, and whether a neighbouring word names the
    /// amount; the amount if the word reads as a number above zero and
    /// below one million and the neighbour names it.
    Word(String, bool),
}

/// A probe as mathematical values.
pub enum ProbeView {
    Currency(Seq<char>),
    Word(Seq<char>, bool),
}

impl View for AmountProbe {
    type V = ProbeView;

    open spec fn view(&self) -> ProbeView {
        match self {
            AmountProbe::Currency(t) => ProbeView::Currency(t@),
            AmountProbe::Word(t, c) => ProbeView::Word(t@, *c),
        }
    }
}

/// The probes of word `i`: its currency digits when it begins with a
/// currency name, then the word itself.
pub open spec fn word_probes(ws: Seq<Seq<char>>, i: int) -> Seq<ProbeView> {
    let w = trim_word(ws[i]);
    (if currency_prefixed(w) {
        seq![ProbeView::Currency(digits_and_points(w))]
    } else {
        seq![]
    }) + seq![ProbeView::Word(w, context_before(ws, i) || context_after(ws, i))]
}

/// The probes of the first `n` words, in order.
pub open spec fn probes_upto(ws: Seq<Seq<char>>, n: int) -> Seq<ProbeView>
    decreases n,
{
    if n <= 0 {
        seq![]
    } else {
        probes_upto(ws, n - 1) + word_probes(ws, n - 1)
    }
}

/// The places, in the order they are tried, where the amount of a
/// lower-cased prompt may stand.
pub open spec fn amount_probes_of(lower: Seq<char>) -> Seq<ProbeView> {
    probes_upto(words(lower), words(lower).len() as int)
}

proof fn lemma_probes_flatten(ws: Seq<Seq<char>>, n: int)
    requires
        0 <= n <= ws.len(),
    ensures
        probes_upto(ws, n) == Seq::new(n as nat, |i: int| word_probes(ws, i)).flatten(),
    decreases n,
{
    let f = |i: int| word_probes(ws, i);
    if n == 0 {
        assert(Seq::new(0, f) =~= Seq::<Seq<ProbeView>>::empty());
    } else {
        lemma_probes_flatten(ws, n - 1);
        assert(Seq::new(n as nat, f) =~= Seq::new((n - 1) as nat, f).push(f(n - 1)));
        Seq::new((n - 1) as nat, f).lemma_flatten_push(f(n - 1));
    }
}

/// Where the amount of a lower-cased prompt is looked for: word by word in
/// order, each word giving its probes; a word (trimmed of the punctuation
/// around it) that begins with the rupee sign, "rs" or "inr" first gives its
/// digits and points, and every word then gives itself, marked as naming the
/// amount exactly when the word before it holds the rupee sign, "rs",
/// "under", "for" or "worth", or the word after it holds "rupees", "inr" or
/// "rs".
pub proof fn lemma_amount_probes_by_word(lower: Seq<char>)
    ensures
        ({
            let ws = words(lower);
            &&& amount_probes_of(lower) == Seq::new(ws.len(), |i: int| word_probes(ws, i)).flatten()
            &&& forall|i: int|
                0 <= i < ws.len() ==> {
                    let w = trim_word(ws[i]);
                    let named_before = i > 0 && (contains_text(ws[i - 1], seq!['\u{20b9}'])
                        || contains_text(ws[i - 1], "rs"@) || contains_text(ws[i - 1], "under"@)
                        || contains_text(ws[i - 1], "for"@) || contains_text(ws[i - 1], "worth"@));
                    let named_after = i + 1 < ws.len() && (contains_text(ws[i + 1], "rupees"@)
                        || contains_text(ws[i + 1], "inr"@) || contains_text(ws[i + 1], "rs"@));
                    let currency = starts_with(w, seq!['\u{20b9}']) || starts_with(w, "rs"@)
                        || starts_with(w, "inr"@);
                    let p = #[trigger] word_probes(ws, i);
                    &&& p.last() == ProbeView::Word(w, named_before || named_after)
                    &&& currency ==> p == seq![
                        ProbeView::Currency(digits_and_points(w)),
                        ProbeView::Word(w, named_before || named_after),
                    ]
                    &&& !currency ==> p == seq![ProbeView::Word(w, named_before || named_after)]
                }
        }),
{
    let ws = words(lower);
    lemma_probes_flatten(ws, ws.len() as int);
    assert forall|i: int| 0 <= i < ws.len() implies {
        let w = trim_word(ws[i]);
        let named_before = i > 0 && (contains_text(ws[i - 1], seq!['\u{20b9}'])
            || contains_text(ws[i - 1], "rs"@) || contains_text(ws[i - 1], "under"@)
            || contains_text(ws[i - 1], "for"@) || contains_text(ws[i - 1], "worth"@));
        let named_after = i + 1 < ws.len() && (contains_text(ws[i + 1], "rupees"@)
            || contains_text(ws[i + 1], "inr"@) || contains_text(ws[i + 1], "rs"@));
        let currency = starts_with(w, seq!['\u{20b9}']) || starts_with(w, "rs"@)
            || starts_with(w, "inr"@);
        let p = #[trigger] word_probes(ws, i);
        &&& p.last() == ProbeView::Word(w, named_before || named_after)
        &&& currency ==> p == seq![
            ProbeView::Currency(digits_and_points(w)),
            ProbeView::Word(w, named_before || named_after),
        ]
        &&& !currency ==> p == seq![ProbeView::Word(w, named_before || named_after)]
    } by {
        let w = trim_word(ws[i]);
        if currency_prefixed(w) {
            assert(word_probes(ws, i) =~= seq![
                ProbeView::Currency(digits_and_points(w)),
                ProbeView::Word(w, context_before(ws, i) || context_after(ws, i)),
            ]);
        } else {
            assert(word_probes(ws, i) =~= seq![
                ProbeView::Word(w, context_before(ws, i) || context_after(ws, i)),
            ]);
        }
    }
}

fn contains_str(w: &Vec<char>, p: &str) -> (r: bool)
    ensures
        r == contains_text(w@, p@),
{
    let pc = chars_of(p);
    contains(w, &pc)
}

fn starts_with_str(w: &Vec<char>, p: &str) -> (r: bool)
    ensures
        r == starts_with(w@, p@),
{
    let pc = chars_of(p);
    has_prefix(w, &pc)
}

/// The places where the amount of a lower-cased prompt may stand, in the
/// order they are tried: for each word, its currency digits when it begins
/// with a currency name, then the word itself with whether a neighbour
/// names the amount.
pub fn amount_probes(lower: &str) -> (r: Vec<AmountProbe>)
    ensures
        r@.map_values(|p: AmountProbe| p@) == amount_probes_of(lower@),
{
    let cs = chars_of(lower);
    let ws = split_words(&cs);
    let ghost wv = ws@.map_values(|w: Vec<char>| w@);
    assert(wv == words(lower@));
    let mut out: Vec<AmountProbe> = Vec::new();
    let mut i: usize = 0;
    while i < ws.len()
        invariant
            i <= ws@.len(),
            wv == ws@.map_values(|w: Vec<char>| w@),
            wv == words(lower@),
            out@.map_values(|p: AmountProbe| p@) == probes_upto(wv, i as int),
        decreases ws@.len() - i,
    {
        let ghost before = out@.map_values(|p: AmountProbe| p@);
        let w = trim_word_chars(&ws[i]);
        assert(w@ == trim_word(wv[i as int]));
        let mut rupee: Vec<char> = Vec::new();
        rupee.push('\u{20b9}');
        assert(rupee@ =~= seq!['\u{20b9}']);
        assert(wv.len() == ws@.len());
        let currency = has_prefix(&w, &rupee) || starts_with_str(&w, "rs") || starts_with_str(
            &w,
            "inr",
        );
        if currency {
            let digits = keep_digits_and_points(&w);
            out.push(AmountProbe::Currency(string_of(&digits)));
        }
        let mut ctx = false;
        if i > 0 {
            let p = &ws[i - 1];
            assert(p@ == wv[i - 1]);
            ctx = contains(p, &rupee) || contains_str(p, "rs") || contains_str(p, "under")
                || contains_str(p, "for") || contains_str(p, "worth");
        }
        if !ctx && i + 1 < ws.len() {
            let n = &ws[i + 1];
            assert(n@ == wv[i + 1]);
            ctx = contains_str(n, "rupees") || contains_str(n, "inr") || contains_str(n, "rs");
        }
        assert(ctx == (context_before(wv, i as int) || context_after(wv, i as int)));
        out.push(AmountProbe::Word(string_of(&w), ctx));
        assert(out@.map_values(|p: AmountProbe| p@) =~= before + word_probes(wv, i as int));
        i = i + 1;
    }
    out
}


/// The first run of ASCII digits at or after `i`, `acc` being the part of
/// it already read.
pub open spec fn digit_run_from(s: Seq<char>, i: int, acc: Seq<char>) -> Seq<char>
    decreases s.len() - i,
{
    if i >= s.len() || i < 0 {
        acc
    } else if ascii_digit(s[i]) {
        digit_run_from(s, i + 1, acc.push(s[i]))
    } else if acc.len() > 0 {
        acc
    } else {
        digit_run_from(s, i + 1, acc)
    }
}

/// The first run of ASCII digits in a text (empty when it has none).
pub open spec fn first_digit_run(s: Seq<char>) -> Seq<char> {
    digit_run_from(s, 0, seq![])
}

/// The amount in paise that a prompt's first run of digits gives as
/// rupees: nothing when there is no run or it is too large for `i64`.
pub open spec fn digit_run_amount(lower: Seq<char>) -> int {
    let run = first_digit_run(lower);
    if run.len() == 0 || digits_value(run) > i64::MAX {
        0
    } else {
        (digits_value(run) * 100) as int
    }
}

/// The digit-run amount fits in `i64` (the multiplication by 100 does not
/// overflow).
pub open spec fn digit_run_amount_in_range(lower: Seq<char>) -> bool {
    digit_run_amount(lower) <= i64::MAX
}

proof fn lemma_digit_run_is_digits(s: Seq<char>, i: int, acc: Seq<char>)
    requires
        forall|j: int| 0 <= j < acc.len() ==> ascii_digit(#[trigger] acc[j]),
    ensures
        forall|j: int|
            0 <= j < digit_run_from(s, i, acc).len() ==> ascii_digit(
                #[trigger] digit_run_from(s, i, acc)[j],
            ),
    decreases s.len() - i,
{
    if i >= s.len() || i < 0 {
        assert(digit_run_from(s, i, acc) == acc);
    } else if ascii_digit(s[i]) {
        assert forall|j: int| 0 <= j < acc.push(s[i]).len() implies ascii_digit(
            #[trigger] acc.push(s[i])[j],
        ) by {
            if j < acc.len() {
                assert(acc.push(s[i])[j] == acc[j]);
            }
        }
        lemma_digit_run_is_digits(s, i + 1, acc.push(s[i]));
        assert(digit_run_from(s, i, acc) == digit_run_from(s, i + 1, acc.push(s[i])));
    } else if acc.len() > 0 {
        assert(digit_run_from(s, i, acc) == acc);
    } else {
        lemma_digit_run_is_digits(s, i + 1, acc);
        assert(digit_run_from(s, i, acc) == digit_run_from(s, i + 1, acc));
    }
}

fn first_digit_run_chars(s: &[char]) -> (r: Vec<char>)
    ensures
        r@ == first_digit_run(s@),
{
    let mut acc: Vec<char> = Vec::new();
    let mut i: usize = 0;
    while i < s.len()
        invariant
            i <= s@.len(),
            digit_run_from(s@, i as int, acc@) == first_digit_run(s@),
        decreases s@.len() - i,
    {
        let c = s[i];
        if '0' <= c && c <= '9' {
            acc.push(c);
        } else if acc.len() > 0 {
            return acc;
        }
        i = i + 1;
    }
    acc
}

/// Whether the digit-run amount of a lower-cased prompt fits in `i64`.
pub fn digit_run_amount_fits(lower: &str) -> (r: bool)
    ensures
        r == digit_run_amount_in_range(lower@),
{
    let cs = chars_of(lower);
    let run = first_digit_run_chars(&cs);
    proof {
        lemma_digit_run_is_digits(cs@, 0, seq![]);
    }
    if run.len() == 0 {
        return true;
    }
    match digits_to_u64(&run) {
        Some(v) => v > i64::MAX as u64 || v <= (i64::MAX / 100) as u64,
        None => true,
    }
}

/// The amount in paise of the first run of ASCII digits in a lower-cased
/// prompt, read as rupees; 0 when there is none or it does not fit `i64`.
/// This is the reading of last resort, when no probe gave an amount.
pub fn fallback_amount_paise(lower: &str) -> (r: i64)
    requires
        digit_run_amount_in_range(lower@),
    ensures
        r == digit_run_amount(lower@),
{
    let cs = chars_of(lower);
    let run = first_digit_run_chars(&cs);
    proof {
        lemma_digit_run_is_digits(cs@, 0, seq![]);
    }
    if run.len() == 0 {
        return 0;
    }
    match digits_to_u64(&run) {
        Some(v) => {
            if v > i64::MAX as u64 {
                0
            } else {
                (v as i64) * 100
            }
        },
        None => 0,
    }
}


/// What a prompt asks for.
#[derive(Debug, Clone)]
pub struct ParsedIntent {
    pub user_id: String,
    pub merchant_id: String,
    pub amount_paise: i64,
    pub original_prompt: String,
    pub parser_used: String,
}

/// An intent as mathematical values.
pub struct IntentView {
    pub user_id: Seq<char>,
    pub merchant_id: Seq<char>,
    pub amount_paise: i64,
    pub original_prompt: Seq<char>,
    pub parser_used: Seq<char>,
}

impl View for ParsedIntent {
    type V = IntentView;

    open spec fn view(&self) -> IntentView {
        IntentView {
            user_id: self.user_id@,
            merchant_id: self.merchant_id@,
            amount_paise: self.amount_paise,
            original_prompt: self.original_prompt@,
            parser_used: self.parser_used@,
        }
    }
}

/// The user a lower-cased prompt speaks for: Priya when it mentions her,
/// otherwise Rahul.
pub open spec fn intent_user(lower: Seq<char>) -> Seq<char> {
    if contains_text(lower, "user_priya"@) || contains_text(lower, "priya"@) {
        "user_priya"@
    } else {
        "user_rahul"@
    }
}

/// The merchant a lower-cased prompt names: the first of the known
/// merchants, in the list's order, that occurs in it; Zepto when none does.
pub open spec fn intent_merchant(lower: Seq<char>) -> Seq<char> {
    if contains_text(lower, "zepto"@) {
        "zepto"@
    } else if contains_text(lower, "swiggy"@) {
        "swiggy"@
    } else if contains_text(lower, "amazon"@) {
        "amazon"@
    } else if contains_text(lower, "blinkit"@) {
        "blinkit"@
    } else if contains_text(lower, "zomato"@) {
        "zomato"@
    } else if contains_text(lower, "bigbasket"@) {
        "bigbasket"@
    } else if contains_text(lower, "uber"@) {
        "uber"@
    } else if contains_text(lower, "flipkart"@) {
        "flipkart"@
    } else {
        "zepto"@
    }
}

/// A prompt is always read as one of the known merchants and one of the
/// two known users, whatever it says.
pub proof fn lemma_intent_is_known(lower: Seq<char>)
    ensures
        intent_user(lower) == "user_priya"@ || intent_user(lower) == "user_rahul"@,
        seq![
            "zepto"@,
            "swiggy"@,
            "amazon"@,
            "blinkit"@,
            "zomato"@,
            "bigbasket"@,
            "uber"@,
            "flipkart"@,
        ].contains(intent_merchant(lower)),
{
    let known = seq![
        "zepto"@,
        "swiggy"@,
        "amazon"@,
        "blinkit"@,
        "zomato"@,
        "bigbasket"@,
        "uber"@,
        "flipkart"@,
    ];
    let m = intent_merchant(lower);
    if m == "zepto"@ {
        assert(known[0] == m);
    } else if m == "swiggy"@ {
        assert(known[1] == m);
    } else if m == "amazon"@ {
        assert(known[2] == m);
    } else if m == "blinkit"@ {
        assert(known[3] == m);
    } else if m == "zomato"@ {
        assert(known[4] == m);
    } else if m == "bigbasket"@ {
        assert(known[5] == m);
    } else if m == "uber"@ {
        assert(known[6] == m);
    } else {
        assert(known[7] == m);
    }
}

/// The merchants the agent knows, in the order they are looked for.
pub open spec fn known_merchants() -> Seq<Seq<char>> {
    seq![
        "zepto"@,
        "swiggy"@,
        "amazon"@,
        "blinkit"@,
        "zomato"@,
        "bigbasket"@,
        "uber"@,
        "flipkart"@,
    ]
}

/// The merchant a prompt names is the first known merchant, in the list's
/// order, that its lower-cased text contains: whichever known merchant `k`
/// it contains while containing none listed before `k` is the one read; only
/// a prompt that names no known merchant is read as Zepto. The user is Priya
/// exactly when the text mentions "priya" (or "user_priya"), else Rahul.
pub proof fn lemma_merchant_is_first_named(lower: Seq<char>)
    ensures
        forall|j: int|
            0 <= j < known_merchants().len() && contains_text(lower, #[trigger] known_merchants()[j])
                && (forall|k: int| 0 <= k < j ==> !contains_text(lower, known_merchants()[k]))
                ==> intent_merchant(lower) == known_merchants()[j],
        (forall|k: int| 0 <= k < known_merchants().len() ==> !contains_text(lower, known_merchants()[k]))
            ==> intent_merchant(lower) == "zepto"@,
        intent_user(lower) == "user_priya"@ <==> (contains_text(lower, "user_priya"@)
            || contains_text(lower, "priya"@)),
        intent_user(lower) != "user_priya"@ ==> intent_user(lower) == "user_rahul"@,
{
    let km = known_merchants();
    assert(km[0] == "zepto"@ && km[1] == "swiggy"@ && km[2] == "amazon"@ && km[3] == "blinkit"@);
    assert(km[4] == "zomato"@ && km[5] == "bigbasket"@ && km[6] == "uber"@ && km[7] == "flipkart"@);
    assert forall|j: int|
        0 <= j < km.len() && contains_text(lower, #[trigger] km[j]) && (forall|k: int|
            0 <= k < j ==> !contains_text(lower, km[k])) implies intent_merchant(lower) == km[j] by {
        if j >= 1 {
            assert(!contains_text(lower, km[0]));
        }
        if j >= 2 {
            assert(!contains_text(lower, km[1]));
        }
        if j >= 3 {
            assert(!contains_text(lower, km[2]));
        }
        if j >= 4 {
            assert(!contains_text(lower, km[3]));
        }
        if j >= 5 {
            assert(!contains_text(lower, km[4]));
        }
        if j >= 6 {
            assert(!contains_text(lower, km[5]));
        }
        if j >= 7 {
            assert(!contains_text(lower, km[6]));
        }
    }
    if forall|k: int| 0 <= k < km.len() ==> !contains_text(lower, km[k]) {
        assert(!contains_text(lower, km[0]) && !contains_text(lower, km[1]));
        assert(!contains_text(lower, km[2]) && !contains_text(lower, km[3]));
        assert(!contains_text(lower, km[4]) && !contains_text(lower, km[5]));
        assert(!contains_text(lower, km[6]) && !contains_text(lower, km[7]));
    }
    assert("user_rahul"@ != "user_priya"@) by {
        reveal_strlit("user_rahul");
        reveal_strlit("user_priya");
        assert("user_rahul"@[5] != "user_priya"@[5]);
    }
}

fn merchant_of(lower: &Vec<char>) -> (r: &'static str)
    ensures
        r@ == intent_merchant(lower@),
{
    if contains_str(lower, "zepto") {
        "zepto"
    } else if contains_str(lower, "swiggy") {
        "swiggy"
    } else if contains_str(lower, "amazon") {
        "amazon"
    } else if contains_str(lower, "blinkit") {
        "blinkit"
    } else if contains_str(lower, "zomato") {
        "zomato"
    } else if contains_str(lower, "bigbasket") {
        "bigbasket"
    } else if contains_str(lower, "uber") {
        "uber"
    } else if contains_str(lower, "flipkart") {
        "flipkart"
    } else {
        "zepto"
    }
}

/// Reads a spend prompt: the user and merchant come from its lower-cased
/// text by keyword, the amount in paise is the one read from it (see
/// `amount_probes` and `fallback_amount_paise`), and the prompt is kept as
/// given.
pub fn parse_intent_fallback(text: &str, amount_paise: i64) -> (r: ParsedIntent)
    ensures
        r@ == (IntentView {
            user_id: intent_user(lower_text(text@)),
            merchant_id: intent_merchant(lower_text(text@)),
            amount_paise: amount_paise,
            original_prompt: text@,
            parser_used: "deterministic_regex"@,
        }),
{
    let lowered = to_lowercase(text);
    let lower = chars_of(lowered.as_str());
    let user = if contains_str(&lower, "user_priya") || contains_str(&lower, "priya") {
        "user_priya"
    } else {
        "user_rahul"
    };
    ParsedIntent {
        user_id: owned(user),
        merchant_id: owned(merchant_of(&lower)),
        amount_paise: amount_paise,
        original_prompt: owned(text),
        parser_used: owned("deterministic_regex"),
    }
}

} // verus!
