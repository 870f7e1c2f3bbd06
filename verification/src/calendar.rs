//! The proleptic Gregorian calendar, counted in days from 1970-01-01.

use vstd::prelude::*;
use crate::text::{digit_char, lemma_digit_code, nat_text, push_char, push_radix, radix_text, text_before};

verus! {

/// A leap year: divisible by 4, and by 400 if by 100.
pub open spec fn is_leap(y: int) -> bool {
    (y % 4 == 0 && y % 100 != 0) || y % 400 == 0
}

/// The number of days in year `y`.
pub open spec fn year_length(y: int) -> int {
    if is_leap(y) {
        366
    } else {
        365
    }
}

/// The number of days in month `m` (1 to 12) of year `y`.
pub open spec fn month_length(y: int, m: int) -> int {
    if m == 2 {
        if is_leap(y) {
            29
        } else {
            28
        }
    } else if m == 4 || m == 6 || m == 9 || m == 11 {
        30
    } else {
        31
    }
}

/// The days from 1970-01-01 to the first of January of year `y` (from 1970 on).
pub open spec fn days_before_year(y: int) -> int
    decreases y - 1970,
{
    if y <= 1970 {
        0
    } else {
        days_before_year(y - 1) + year_length(y - 1)
    }
}

/// The days from the first of January of year `y` to the first of month `m`.
pub open spec fn days_before_month(y: int, m: int) -> int
    decreases m,
{
    if m <= 1 {
        0
    } else {
        days_before_month(y, m - 1) + month_length(y, m - 1)
    }
}

/// A real date: month 1 to 12, day 1 to the month's length.
pub open spec fn valid_date(y: int, m: int, d: int) -> bool {
    1 <= m <= 12 && 1 <= d <= month_length(y, m)
}

/// The number of the day `y-m-d`, counting 1970-01-01 as day 0.
pub open spec fn day_number(y: int, m: int, d: int) -> int {
    days_before_year(y) + days_before_month(y, m) + d - 1
}

/// The leap years before year `y`, counted from year 1.
pub open spec fn leaps_before(y: int) -> int {
    (y - 1) / 4 - (y - 1) / 100 + (y - 1) / 400
}

#[verifier::spinoff_prover]
proof fn lemma_leaps_step(y: int)
    requires
        y >= 1,
    ensures
        leaps_before(y + 1) - leaps_before(y) == if is_leap(y) {
            1int
        } else {
            0int
        },
{
}

/// The days before a year, in closed form.
pub proof fn lemma_days_before_year_closed(y: int)
    requires
        y >= 1970,
    ensures
        days_before_year(y) == 365 * (y - 1970) + leaps_before(y) - leaps_before(1970),
    decreases y - 1970,
{
    if y > 1970 {
        lemma_days_before_year_closed(y - 1);
        lemma_leaps_step(y - 1);
    }
}

/// Every 400 years hold 146097 days.
pub proof fn lemma_four_centuries(k: int)
    requires
        k >= 0,
    ensures
        days_before_year(1970 + 400 * k) == 146097 * k,
{
    lemma_days_before_year_closed(1970 + 400 * k);
    assert(leaps_before(1970 + 400 * k) == leaps_before(1970) + 97 * k);
}

/// The twelve months fill the year.
pub proof fn lemma_months_fill_year(y: int)
    ensures
        days_before_month(y, 13) == year_length(y),
{
    reveal_with_fuel(days_before_month, 13);
}


fn leap(y: u64) -> (r: bool)
    ensures
        r == is_leap(y as int),
{
    (y % 4 == 0 && y % 100 != 0) || y % 400 == 0
}

fn year_len(y: u64) -> (r: u64)
    ensures
        r == year_length(y as int),
{
    if leap(y) {
        366
    } else {
        365
    }
}

fn month_len(y: u64, m: u64) -> (r: u64)
    ensures
        r == month_length(y as int, m as int),
{
    if m == 2 {
        if leap(y) {
            29
        } else {
            28
        }
    } else if m == 4 || m == 6 || m == 9 || m == 11 {
        30
    } else {
        31
    }
}

/// The date of day number `days` (1970-01-01 being day 0): year, month and
/// day of month.
pub fn civil_from_days(days: u64) -> (r: (u64, u64, u64))
    ensures
        r.0 >= 1970,
        valid_date(r.0 as int, r.1 as int, r.2 as int),
        day_number(r.0 as int, r.1 as int, r.2 as int) == days,
{
    let cycles: u64 = days / 146097;
    let rem0: u64 = days % 146097;
    let y0: u64 = 1970 + 400 * cycles;
    proof {
        lemma_four_centuries(cycles as int);
    }
    let mut y: u64 = y0;
    let mut rem: u64 = rem0;
    while rem >= year_len(y)
        invariant
            y0 == 1970 + 400 * cycles,
            cycles <= u64::MAX / 146097,
            rem0 < 146097,
            y0 <= y,
            (y - y0) * 365 + rem <= rem0,
            days == days_before_year(y as int) + rem,
        decreases rem,
    {
        let l = year_len(y);
        rem = rem - l;
        y = y + 1;
    }
    let ghost rem_y = rem;
    let mut m: u64 = 1;
    while rem >= month_len(y, m)
        invariant
            1 <= m <= 12,
            y >= 1970,
            rem_y < year_length(y as int),
            rem_y == days_before_month(y as int, m as int) + rem,
        decreases rem,
    {
        proof {
            if m == 12 {
                lemma_months_fill_year(y as int);
                assert(days_before_month(y as int, 13) == days_before_month(y as int, 12)
                    + month_length(y as int, 12));
            }
        }
        let l = month_len(y, m);
        rem = rem - l;
        m = m + 1;
    }
    (y, m, rem + 1)
}

proof fn lemma_months_grow(y: int, a: int, b: int)
    requires
        1 <= a <= b,
    ensures
        days_before_month(y, a) <= days_before_month(y, b),
    decreases b - a,
{
    if a < b {
        lemma_months_grow(y, a, b - 1);
    }
}

proof fn lemma_years_grow(a: int, b: int)
    requires
        1970 <= a <= b,
    ensures
        days_before_year(a) <= days_before_year(b),
    decreases b - a,
{
    if a < b {
        lemma_years_grow(a, b - 1);
    }
}

proof fn lemma_day_within_year(y: int, m: int, d: int)
    requires
        y >= 1970,
        valid_date(y, m, d),
    ensures
        days_before_year(y) <= day_number(y, m, d) < days_before_year(y + 1),
        days_before_month(y, m) + d - 1 < days_before_month(y, m + 1),
{
    lemma_months_grow(y, m + 1, 13);
    lemma_months_grow(y, 1, m);
    lemma_months_fill_year(y);
    assert(days_before_month(y, m + 1) == days_before_month(y, m) + month_length(y, m));
    assert(days_before_year(y + 1) == days_before_year(y) + year_length(y));
}

/// Day numbers name dates one to one: two dates from 1970 on with the same
/// day number are the same date.
pub proof fn lemma_day_number_unique(y1: int, m1: int, d1: int, y2: int, m2: int, d2: int)
    requires
        y1 >= 1970,
        y2 >= 1970,
        valid_date(y1, m1, d1),
        valid_date(y2, m2, d2),
        day_number(y1, m1, d1) == day_number(y2, m2, d2),
    ensures
        y1 == y2 && m1 == m2 && d1 == d2,
{
    lemma_day_within_year(y1, m1, d1);
    lemma_day_within_year(y2, m2, d2);
    if y1 < y2 {
        lemma_years_grow(y1 + 1, y2);
    } else if y2 < y1 {
        lemma_years_grow(y2 + 1, y1);
    } else {
        if m1 < m2 {
            lemma_months_grow(y1, m1 + 1, m2);
        } else if m2 < m1 {
            lemma_months_grow(y1, m2 + 1, m1);
        }
    }
}

/// `(y, m, d)` is the date of day number `n`, from 1970 on.
pub open spec fn is_date_of(n: int, y: int, m: int, d: int) -> bool {
    y >= 1970 && valid_date(y, m, d) && day_number(y, m, d) == n
}

/// The date of day number `n` (1970-01-01 being day 0).
pub open spec fn date_of(n: int) -> (int, int, int) {
    choose|t: (int, int, int)| is_date_of(n, t.0, t.1, t.2)
}

/// The date of day number `n`, in the form of `date_of`.
pub fn date_of_day(n: u64) -> (r: (u64, u64, u64))
    ensures
        (r.0 as int, r.1 as int, r.2 as int) == date_of(n as int),
        is_date_of(n as int, r.0 as int, r.1 as int, r.2 as int),
{
    let r = civil_from_days(n);
    proof {
        assert(is_date_of(n as int, r.0 as int, r.1 as int, r.2 as int));
        let t = date_of(n as int);
        assert(is_date_of(n as int, t.0, t.1, t.2));
        lemma_day_number_unique(r.0 as int, r.1 as int, r.2 as int, t.0, t.1, t.2);
    }
    r
}

/// A number zero-padded on the left to at least `w` characters.
pub open spec fn padded(t: Seq<char>, w: nat) -> Seq<char>
    decreases w - t.len(),
{
    if t.len() >= w {
        t
    } else {
        padded(seq!['0'] + t, w)
    }
}

/// The text "YYYY-MM-DD" of a date (each part zero-padded).
pub open spec fn date_text(y: nat, m: nat, d: nat) -> Seq<char> {
    padded(nat_text(y), 4) + seq!['-'] + padded(nat_text(m), 2) + seq!['-'] + padded(
        nat_text(d),
        2,
    )
}

proof fn lemma_nat_text_len(n: nat)
    ensures
        n >= 10 ==> nat_text(n).len() == nat_text(n / 10).len() + 1,
        n < 10 ==> nat_text(n).len() == 1,
{
}

pub(crate) fn push_padded2(out: &mut String, n: u64)
    requires
        n < 100,
    ensures
        final(out)@ == old(out)@ + padded(nat_text(n as nat), 2),
{
    proof {
        lemma_nat_text_len(n as nat);
        lemma_nat_text_len((n / 10) as nat);
    }
    if n < 10 {
        push_char(out, '0');
        let ghost o = out@;
        push_radix(out, n, 10);
        assert(padded(nat_text(n as nat), 2) == padded(seq!['0'] + nat_text(n as nat), 2));
        assert((seq!['0'] + nat_text(n as nat)).len() == 2);
        assert(out@ =~= old(out)@ + (seq!['0'] + nat_text(n as nat)));
    } else {
        push_radix(out, n, 10);
    }
}

/// The text "YYYY-MM-DD" of a valid date from 1970 on.
pub fn format_date(y: u64, m: u64, d: u64) -> (r: String)
    requires
        y >= 1970,
        valid_date(y as int, m as int, d as int),
    ensures
        r@ == date_text(y as nat, m as nat, d as nat),
{
    proof {
        lemma_nat_text_len(y as nat);
        lemma_nat_text_len((y / 10) as nat);
        lemma_nat_text_len((y / 100) as nat);
        assert(nat_text(y as nat).len() >= 4);
    }
    let mut out = String::new();
    push_radix(&mut out, y, 10);
    push_char(&mut out, '-');
    push_padded2(&mut out, m);
    push_char(&mut out, '-');
    push_padded2(&mut out, d);
    out
}

/// The time of day "HH:MM:SS" of second `s` of a day.
pub open spec fn clock_text(s: nat) -> Seq<char> {
    padded(nat_text(s / 3600), 2) + seq![':'] + padded(nat_text((s % 3600) / 60), 2) + seq![':']
        + padded(nat_text(s % 60), 2)
}

/// The UTC stamp "YYYY-MM-DDTHH:MM:SSZ" of the moment `secs` seconds after
/// the Unix epoch.
pub open spec fn utc_stamp_text(secs: nat) -> Seq<char> {
    date_text(
        date_of((secs / 86400) as int).0 as nat,
        date_of((secs / 86400) as int).1 as nat,
        date_of((secs / 86400) as int).2 as nat,
    ) + seq!['T'] + clock_text(secs % 86400) + seq!['Z']
}

/// Writes the UTC stamp of a moment (see `utc_stamp_text`).
pub fn format_stamp(now_secs: u64) -> (r: String)
    ensures
        r@ == utc_stamp_text(now_secs as nat),
{
    let (y, m, d) = date_of_day(now_secs / 86400);
    let mut out = format_date(y, m, d);
    let secs: u64 = now_secs % 86400;
    push_char(&mut out, 'T');
    push_padded2(&mut out, secs / 3600);
    push_char(&mut out, ':');
    push_padded2(&mut out, (secs % 3600) / 60);
    push_char(&mut out, ':');
    push_padded2(&mut out, secs % 60);
    push_char(&mut out, 'Z');
    out
}

// ----------------------------------------------------------------------
// The order of dates and stamps
// ----------------------------------------------------------------------

/// Ten to the power `w`.
pub open spec fn ten_pow(w: nat) -> nat
    decreases w,
{
    if w == 0 {
        1
    } else {
        10 * ten_pow((w - 1) as nat)
    }
}

/// The last `w` decimal digits of `n`, most significant first.
pub open spec fn fixed_digits(n: nat, w: nat) -> Seq<char>
    decreases w,
{
    if w == 0 {
        seq![]
    } else {
        fixed_digits(n / 10, (w - 1) as nat) + seq![digit_char((n % 10) as int)]
    }
}

proof fn lemma_fixed_len(n: nat, w: nat)
    ensures
        fixed_digits(n, w).len() == w,
    decreases w,
{
    if w > 0 {
        lemma_fixed_len(n / 10, (w - 1) as nat);
    }
}

proof fn lemma_fixed_zero(w: nat)
    ensures
        fixed_digits(0, w) =~= Seq::new(w, |i: int| '0'),
    decreases w,
{
    if w > 0 {
        lemma_fixed_zero((w - 1) as nat);
        assert(digit_char(0) == '0');
    }
}

proof fn lemma_padded_zeros(t: Seq<char>, w: nat)
    ensures
        padded(t, w) =~= Seq::new(if w > t.len() { (w - t.len()) as nat } else { 0 }, |i: int| '0')
            + t,
    decreases w - t.len(),
{
    if t.len() < w {
        lemma_padded_zeros(seq!['0'] + t, w);
    }
}

proof fn lemma_nat_text_step(n: nat)
    ensures
        n < 10 ==> nat_text(n) == seq![digit_char(n as int)],
        n >= 10 ==> nat_text(n) == nat_text(n / 10) + seq![digit_char((n % 10) as int)],
{
    assert(nat_text(n) == radix_text(n, 10));
}

proof fn lemma_nat_text_fits(n: nat, w: nat)
    requires
        1 <= w,
        n < ten_pow(w),
    ensures
        nat_text(n).len() <= w,
    decreases w,
{
    lemma_nat_text_step(n);
    if n >= 10 {
        if w == 1 {
            assert(ten_pow(1) == 10) by {
                reveal_with_fuel(ten_pow, 2);
            }
        }
        lemma_nat_text_fits(n / 10, (w - 1) as nat);
    }
}

/// A number below `10^w`, zero-padded to `w` characters, is its last `w`
/// digits.
proof fn lemma_padded_digits(n: nat, w: nat)
    requires
        1 <= w,
        n < ten_pow(w),
    ensures
        padded(nat_text(n), w) == fixed_digits(n, w),
    decreases w,
{
    lemma_nat_text_step(n);
    lemma_padded_zeros(nat_text(n), w);
    if n < 10 {
        lemma_fixed_zero((w - 1) as nat);
        assert(n / 10 == 0 && n % 10 == n);
        assert(padded(nat_text(n), w) =~= fixed_digits(n, w));
    } else {
        if w == 1 {
            assert(ten_pow(1) == 10) by {
                reveal_with_fuel(ten_pow, 2);
            }
        }
        lemma_nat_text_fits(n, w);
        lemma_padded_digits(n / 10, (w - 1) as nat);
        lemma_padded_zeros(nat_text(n / 10), (w - 1) as nat);
        assert(padded(nat_text(n), w) =~= fixed_digits(n, w));
    }
}

/// No text comes before itself.
proof fn lemma_before_irreflexive(a: Seq<char>)
    ensures
        !text_before(a, a),
    decreases a.len(),
{
    if a.len() > 0 {
        lemma_before_irreflexive(a.drop_first());
    }
}

/// Texts with heads of one length compare by their heads when these differ,
/// and by what follows otherwise.
proof fn lemma_before_concat(a1: Seq<char>, b1: Seq<char>, a2: Seq<char>, b2: Seq<char>)
    requires
        a1.len() == a2.len(),
    ensures
        text_before(a1 + b1, a2 + b2) == if a1 == a2 {
            text_before(b1, b2)
        } else {
            text_before(a1, a2)
        },
    decreases a1.len(),
{
    if a1.len() == 0 {
        assert(a1 + b1 =~= b1);
        assert(a2 + b2 =~= b2);
        assert(a1 =~= a2);
    } else {
        assert((a1 + b1).drop_first() =~= a1.drop_first() + b1);
        assert((a2 + b2).drop_first() =~= a2.drop_first() + b2);
        assert((a1 + b1)[0] == a1[0]);
        assert((a2 + b2)[0] == a2[0]);
        lemma_before_concat(a1.drop_first(), b1, a2.drop_first(), b2);
        if a1[0] == a2[0] && a1.drop_first() == a2.drop_first() {
            assert forall|i: int| 0 <= i < a1.len() implies a1[i] == a2[i] by {
                if i > 0 {
                    assert(a1[i] == a1.drop_first()[i - 1]);
                    assert(a2[i] == a2.drop_first()[i - 1]);
                }
            }
            assert(a1 =~= a2);
        }
    }
}

/// Fixed-width digit texts keep the order of numbers.
proof fn lemma_fixed_order(n1: nat, n2: nat, w: nat)
    requires
        n1 < n2 < ten_pow(w),
    ensures
        text_before(fixed_digits(n1, w), fixed_digits(n2, w)),
    decreases w,
{
    let a1 = fixed_digits(n1 / 10, (w - 1) as nat);
    let a2 = fixed_digits(n2 / 10, (w - 1) as nat);
    lemma_fixed_len(n1 / 10, (w - 1) as nat);
    lemma_fixed_len(n2 / 10, (w - 1) as nat);
    let d1 = seq![digit_char((n1 % 10) as int)];
    let d2 = seq![digit_char((n2 % 10) as int)];
    lemma_before_concat(a1, d1, a2, d2);
    if n1 / 10 < n2 / 10 {
        lemma_fixed_order(n1 / 10, n2 / 10, (w - 1) as nat);
        lemma_before_irreflexive(a1);
    } else {
        lemma_digit_code((n1 % 10) as int);
        lemma_digit_code((n2 % 10) as int);
        assert(d1.drop_first() =~= Seq::<char>::empty());
    }
}

/// Every day from 1970-01-01 on has a date.
proof fn lemma_date_exists(n: nat)
    ensures
        exists|y: int, m: int, d: int| #[trigger] is_date_of(n as int, y, m, d),
    decreases n,
{
    if n == 0 {
        assert(is_date_of(0, 1970, 1, 1));
    } else {
        lemma_date_exists((n - 1) as nat);
        let k: int = n - 1;
        let (y, m, d) = choose|y: int, m: int, d: int| #[trigger] is_date_of(k, y, m, d);
        lemma_day_within_year(y, m, d);
        if d < month_length(y, m) {
            assert(is_date_of(n as int, y, m, d + 1));
        } else if m < 12 {
            assert(days_before_month(y, m + 1) == days_before_month(y, m) + month_length(y, m));
            assert(is_date_of(n as int, y, m + 1, 1));
        } else {
            lemma_months_fill_year(y);
            assert(days_before_month(y, 13) == days_before_month(y, 12) + month_length(y, 12));
            assert(days_before_year(y + 1) == days_before_year(y) + year_length(y));
            assert(is_date_of(n as int, y + 1, 1, 1));
        }
    }
}

/// `date_of` gives the date of every day from 1970-01-01 on.
proof fn lemma_date_of_valid(n: nat)
    ensures
        is_date_of(n as int, date_of(n as int).0, date_of(n as int).1, date_of(n as int).2),
{
    lemma_date_exists(n);
    let (y, m, d) = choose|y: int, m: int, d: int| #[trigger] is_date_of(n as int, y, m, d);
    let t = (y, m, d);
    assert(is_date_of(n as int, t.0, t.1, t.2));
}

/// The date of a later day comes later: by year, then month, then day.
proof fn lemma_date_of_order(n1: nat, n2: nat)
    requires
        n1 < n2,
    ensures
        ({
            let t1 = date_of(n1 as int);
            let t2 = date_of(n2 as int);
            &&& is_date_of(n1 as int, t1.0, t1.1, t1.2)
            &&& is_date_of(n2 as int, t2.0, t2.1, t2.2)
            &&& (t1.0 < t2.0 || (t1.0 == t2.0 && t1.1 < t2.1) || (t1.0 == t2.0 && t1.1 == t2.1
                && t1.2 < t2.2))
        }),
{
    lemma_date_of_valid(n1);
    lemma_date_of_valid(n2);
    let t1 = date_of(n1 as int);
    let t2 = date_of(n2 as int);
    lemma_day_within_year(t1.0, t1.1, t1.2);
    lemma_day_within_year(t2.0, t2.1, t2.2);
    if t2.0 < t1.0 {
        lemma_years_grow(t2.0 + 1, t1.0);
    } else if t1.0 == t2.0 {
        if t2.1 < t1.1 {
            lemma_months_grow(t1.0, t2.1 + 1, t1.1);
        } else if t1.1 < t2.1 {
        }
    } else {
    }
}

/// Two texts that agree on a head of one length compare by what follows.
proof fn lemma_before_same_head(a: Seq<char>, b1: Seq<char>, b2: Seq<char>)
    ensures
        text_before(a + b1, a + b2) == text_before(b1, b2),
{
    lemma_before_concat(a, b1, a, b2);
}

/// Three-part fixed-width texts `x-y-z` keep the order of their parts.
proof fn lemma_triple_order(
    sep: char,
    w: nat,
    x1: nat,
    y1: nat,
    z1: nat,
    x2: nat,
    y2: nat,
    z2: nat,
    tail1: Seq<char>,
    tail2: Seq<char>,
)
    requires
        1 <= w,
        x1 < ten_pow(w),
        x2 < ten_pow(w),
        y1 < 100,
        y2 < 100,
        z1 < 100,
        z2 < 100,
        x1 < x2 || (x1 == x2 && y1 < y2) || (x1 == x2 && y1 == y2 && z1 < z2),
    ensures
        text_before(
            fixed_digits(x1, w) + seq![sep] + fixed_digits(y1, 2) + seq![sep] + fixed_digits(z1, 2)
                + tail1,
            fixed_digits(x2, w) + seq![sep] + fixed_digits(y2, 2) + seq![sep] + fixed_digits(z2, 2)
                + tail2,
        ),
{
    assert(ten_pow(2) == 100) by {
        reveal_with_fuel(ten_pow, 3);
    }
    let fx1 = fixed_digits(x1, w);
    let fx2 = fixed_digits(x2, w);
    let fy1 = fixed_digits(y1, 2);
    let fy2 = fixed_digits(y2, 2);
    let fz1 = fixed_digits(z1, 2);
    let fz2 = fixed_digits(z2, 2);
    lemma_fixed_len(x1, w);
    lemma_fixed_len(x2, w);
    lemma_fixed_len(y1, 2);
    lemma_fixed_len(y2, 2);
    lemma_fixed_len(z1, 2);
    lemma_fixed_len(z2, 2);
    let r1 = seq![sep] + fy1 + seq![sep] + fz1 + tail1;
    let r2 = seq![sep] + fy2 + seq![sep] + fz2 + tail2;
    assert(fx1 + seq![sep] + fy1 + seq![sep] + fz1 + tail1 =~= fx1 + r1);
    assert(fx2 + seq![sep] + fy2 + seq![sep] + fz2 + tail2 =~= fx2 + r2);
    lemma_before_concat(fx1, r1, fx2, r2);
    if x1 < x2 {
        lemma_fixed_order(x1, x2, w);
        lemma_before_irreflexive(fx1);
    } else {
        let s1 = fy1 + seq![sep] + fz1 + tail1;
        let s2 = fy2 + seq![sep] + fz2 + tail2;
        assert(r1 =~= seq![sep] + s1);
        assert(r2 =~= seq![sep] + s2);
        lemma_before_same_head(seq![sep], s1, s2);
        let u1 = seq![sep] + fz1 + tail1;
        let u2 = seq![sep] + fz2 + tail2;
        assert(s1 =~= fy1 + u1);
        assert(s2 =~= fy2 + u2);
        lemma_before_concat(fy1, u1, fy2, u2);
        if y1 < y2 {
            lemma_fixed_order(y1, y2, 2);
            lemma_before_irreflexive(fy1);
        } else {
            assert(u1 =~= seq![sep] + (fz1 + tail1));
            assert(u2 =~= seq![sep] + (fz2 + tail2));
            lemma_before_same_head(seq![sep], fz1 + tail1, fz2 + tail2);
            lemma_before_concat(fz1, tail1, fz2, tail2);
            lemma_fixed_order(z1, z2, 2);
            lemma_before_irreflexive(fz1);
        }
    }
}

/// A date text in fixed-width digit form, followed by `tail`.
proof fn lemma_date_text_digits(y: nat, m: nat, d: nat, tail: Seq<char>)
    requires
        y < 10000,
        m < 100,
        d < 100,
    ensures
        date_text(y, m, d) + tail == fixed_digits(y, 4) + seq!['-'] + fixed_digits(m, 2) + seq!['-']
            + fixed_digits(d, 2) + tail,
{
    assert(ten_pow(4) == 10000 && ten_pow(2) == 100) by {
        reveal_with_fuel(ten_pow, 5);
    }
    lemma_padded_digits(y, 4);
    lemma_padded_digits(m, 2);
    lemma_padded_digits(d, 2);
}

/// Later days have later date texts: the "YYYY-MM-DD" text of day `n1`
/// comes before that of a later day `n2`, character by character, as long
/// as the later year has at most four digits.
pub proof fn lemma_dates_keep_time_order(n1: nat, n2: nat)
    requires
        n1 < n2,
        date_of(n2 as int).0 < 10000,
    ensures
        text_before(
            date_text(
                date_of(n1 as int).0 as nat,
                date_of(n1 as int).1 as nat,
                date_of(n1 as int).2 as nat,
            ),
            date_text(
                date_of(n2 as int).0 as nat,
                date_of(n2 as int).1 as nat,
                date_of(n2 as int).2 as nat,
            ),
        ),
{
    lemma_date_of_order(n1, n2);
    let t1 = date_of(n1 as int);
    let t2 = date_of(n2 as int);
    let e = Seq::<char>::empty();
    lemma_date_text_digits(t1.0 as nat, t1.1 as nat, t1.2 as nat, e);
    lemma_date_text_digits(t2.0 as nat, t2.1 as nat, t2.2 as nat, e);
    assert(date_text(t1.0 as nat, t1.1 as nat, t1.2 as nat) + e =~= date_text(
        t1.0 as nat,
        t1.1 as nat,
        t1.2 as nat,
    ));
    assert(date_text(t2.0 as nat, t2.1 as nat, t2.2 as nat) + e =~= date_text(
        t2.0 as nat,
        t2.1 as nat,
        t2.2 as nat,
    ));
    assert(ten_pow(4) == 10000) by {
        reveal_with_fuel(ten_pow, 5);
    }
    lemma_triple_order(
        '-',
        4,
        t1.0 as nat,
        t1.1 as nat,
        t1.2 as nat,
        t2.0 as nat,
        t2.1 as nat,
        t2.2 as nat,
        e,
        e,
    );
}

proof fn lemma_clock_order(c1: nat, c2: nat)
    requires
        c1 < c2 < 86400,
    ensures
        c2 / 3600 < 24,
        c1 / 3600 < c2 / 3600 || (c1 / 3600 == c2 / 3600 && (c1 % 3600) / 60 < (c2 % 3600) / 60)
            || (c1 / 3600 == c2 / 3600 && (c1 % 3600) / 60 == (c2 % 3600) / 60 && c1 % 60 < c2
            % 60),
        (c1 % 3600) / 60 < 60,
        (c2 % 3600) / 60 < 60,
{
    assert(c1 == 3600 * (c1 / 3600) + 60 * ((c1 % 3600) / 60) + c1 % 60);
    assert(c2 == 3600 * (c2 / 3600) + 60 * ((c2 % 3600) / 60) + c2 % 60);
}

/// Later moments have later stamps: the UTC stamp "YYYY-MM-DDTHH:MM:SSZ" of
/// a moment comes before that of any later moment, character by character,
/// as long as the later year has at most four digits. Comparing two such
/// stamps as texts is comparing the moments.
pub proof fn lemma_stamps_keep_time_order(s1: nat, s2: nat)
    requires
        s1 < s2,
        date_of((s2 / 86400) as int).0 < 10000,
    ensures
        text_before(utc_stamp_text(s1), utc_stamp_text(s2)),
{
    let n1 = s1 / 86400;
    let n2 = s2 / 86400;
    let c1 = s1 % 86400;
    let c2 = s2 % 86400;
    lemma_date_of_valid(n1);
    lemma_date_of_valid(n2);
    let t1 = date_of(n1 as int);
    let t2 = date_of(n2 as int);
    let dt1 = date_text(t1.0 as nat, t1.1 as nat, t1.2 as nat);
    let dt2 = date_text(t2.0 as nat, t2.1 as nat, t2.2 as nat);
    let tail1 = seq!['T'] + clock_text(c1) + seq!['Z'];
    let tail2 = seq!['T'] + clock_text(c2) + seq!['Z'];
    assert(utc_stamp_text(s1) =~= dt1 + tail1);
    assert(utc_stamp_text(s2) =~= dt2 + tail2);
    if n1 < n2 {
        lemma_date_of_order(n1, n2);
        lemma_date_text_digits(t1.0 as nat, t1.1 as nat, t1.2 as nat, tail1);
        lemma_date_text_digits(t2.0 as nat, t2.1 as nat, t2.2 as nat, tail2);
        assert(ten_pow(4) == 10000) by {
            reveal_with_fuel(ten_pow, 5);
        }
        lemma_triple_order(
            '-',
            4,
            t1.0 as nat,
            t1.1 as nat,
            t1.2 as nat,
            t2.0 as nat,
            t2.1 as nat,
            t2.2 as nat,
            tail1,
            tail2,
        );
    } else {
        assert(n1 == n2 && c1 < c2);
        lemma_clock_order(c1, c2);
        let h1 = c1 / 3600;
        let h2 = c2 / 3600;
        let m1 = (c1 % 3600) / 60;
        let m2 = (c2 % 3600) / 60;
        let z1 = c1 % 60;
        let z2 = c2 % 60;
        assert(ten_pow(2) == 100) by {
            reveal_with_fuel(ten_pow, 3);
        }
        lemma_padded_digits(h1, 2);
        lemma_padded_digits(h2, 2);
        lemma_padded_digits(m1, 2);
        lemma_padded_digits(m2, 2);
        lemma_padded_digits(z1, 2);
        lemma_padded_digits(z2, 2);
        let k1 = clock_text(c1) + seq!['Z'];
        let k2 = clock_text(c2) + seq!['Z'];
        assert(k1 =~= fixed_digits(h1, 2) + seq![':'] + fixed_digits(m1, 2) + seq![':']
            + fixed_digits(z1, 2) + seq!['Z']);
        assert(k2 =~= fixed_digits(h2, 2) + seq![':'] + fixed_digits(m2, 2) + seq![':']
            + fixed_digits(z2, 2) + seq!['Z']);
        lemma_triple_order(':', 2, h1, m1, z1, h2, m2, z2, seq!['Z'], seq!['Z']);
        let head = dt1 + seq!['T'];
        assert(dt1 + tail1 =~= head + k1);
        assert(dt2 + tail2 =~= head + k2);
        lemma_before_same_head(head, k1, k2);
    }
}

} // verus!
