//! The coarse `YYYY-MM-DD HH:MM` timestamps stored with saved sessions.
//!
//! The calendar is deliberately simple: every year has 365 days; the first
//! eleven months have 30 days each and December takes the remaining 35
//! (December 31 to 35 stand for the last days of the year), so that the
//! stamps of later times never sort before those of earlier ones.
use vstd::prelude::*;
use crate::text::{decimal, pad_start, decimal_chars, padded_start, string_from_chars};
use crate::listing::{text_less, lemma_text_less_irreflexive};
use std::time::{Duration, SystemTime, SystemTimeError};

verus! {

#[verifier::external_type_specification]
#[verifier::external_body]
pub struct ExSystemTime(SystemTime);

#[verifier::external_type_specification]
#[verifier::external_body]
pub struct ExSystemTimeError(SystemTimeError);

/// The calendar fields of a count of seconds since the Unix epoch:
/// `(year, month, day, hour, minute)`.
pub open spec fn calendar_fields(secs: nat) -> (nat, nat, nat, nat, nat) {
    let days = secs / 86400;
    let rem = secs % 86400;
    let day_of_year = days % 365;
    (
        1970 + days / 365,
        if day_of_year < 330 { day_of_year / 30 + 1 } else { 12 },
        if day_of_year < 330 { day_of_year % 30 + 1 } else { (day_of_year - 329) as nat },
        rem / 3600,
        rem % 3600 / 60,
    )
}

/// The text `YYYY-MM-DD HH:MM` for `secs` seconds after the Unix epoch; each
/// field is zero-padded to its width and the year may grow beyond four digits.
pub open spec fn timestamp_text(secs: nat) -> Seq<char> {
    let f = calendar_fields(secs);
    pad_start(decimal(f.0), 4, '0') + seq!['-'] + pad_start(decimal(f.1), 2, '0') + seq!['-']
        + pad_start(decimal(f.2), 2, '0') + seq![' '] + pad_start(decimal(f.3), 2, '0') + seq![':']
        + pad_start(decimal(f.4), 2, '0')
}

/// Formats `secs` seconds after the Unix epoch as `YYYY-MM-DD HH:MM`.
pub fn format_timestamp(secs: u64) -> (res: String)
    ensures
        res@ == timestamp_text(secs as nat),
{
    let days = secs / 86400;
    let rem = secs % 86400;
    let day_of_year = days % 365;
    let years = 1970 + days / 365;
    let month = if day_of_year < 330 { day_of_year / 30 + 1 } else { 12 };
    let day = if day_of_year < 330 { day_of_year % 30 + 1 } else { day_of_year - 329 };
    let hours = rem / 3600;
    let minutes = rem % 3600 / 60;
    let mut out: Vec<char> = padded_start(decimal_chars(years), 4, '0');
    out.push('-');
    let mut part = padded_start(decimal_chars(month), 2, '0');
    out.append(&mut part);
    out.push('-');
    let mut part = padded_start(decimal_chars(day), 2, '0');
    out.append(&mut part);
    out.push(' ');
    let mut part = padded_start(decimal_chars(hours), 2, '0');
    out.append(&mut part);
    out.push(':');
    let mut part = padded_start(decimal_chars(minutes), 2, '0');
    out.append(&mut part);
    proof {
        assert(out@ =~= timestamp_text(secs as nat));
    }
    string_from_chars(out.as_slice())
}

/// Calls `SystemTime::now`.  The reading of the clock is not described.
#[verifier::external_body]
fn clock_now() -> SystemTime {
    SystemTime::now()
}

/// Calls `SystemTime::duration_since` with `UNIX_EPOCH`.  Nothing is claimed
/// of the result: it depends on the clock.
#[verifier::external_body]
fn since_unix_epoch(t: &SystemTime) -> Result<Duration, SystemTimeError> {
    t.duration_since(std::time::UNIX_EPOCH)
}

/// Calls `Duration::as_secs`.  Nothing is claimed of the result.
#[verifier::external_body]
fn whole_seconds(d: &Duration) -> u64 {
    d.as_secs()
}

/// The current time as `YYYY-MM-DD HH:MM` (a clock set before 1970 reads as
/// the epoch itself).
pub fn chrono_now() -> (res: String)
    ensures
        exists|secs: u64| res@ == timestamp_text(secs as nat),
{
    let now = clock_now();
    let secs = match since_unix_epoch(&now) {
        Ok(d) => whole_seconds(&d),
        Err(_) => 0,
    };
    format_timestamp(secs)
}

/// Every timestamp has the shape `Y-MM-DD HH:MM`: the separators stand
/// where they belong, counted from the end, the month lies in 1..=12 and
/// the day in 1..=35.
pub proof fn lemma_timestamp_shape(secs: nat)
    ensures
        timestamp_text(secs).len() >= 16,
        ({
            let t = timestamp_text(secs);
            let n = t.len();
            &&& t[n - 12] == '-'
            &&& t[n - 9] == '-'
            &&& t[n - 6] == ' '
            &&& t[n - 3] == ':'
        }),
        1 <= calendar_fields(secs).1 <= 12,
        1 <= calendar_fields(secs).2 <= 35,
        calendar_fields(secs).3 < 24,
        calendar_fields(secs).4 < 60,
{
    let f = calendar_fields(secs);
    lemma_calendar_ranges(secs);
    lemma_two_digits(f.1);
    lemma_two_digits(f.2);
    lemma_two_digits(f.3);
    lemma_two_digits(f.4);
    lemma_decimal_nonempty(f.0);
}

proof fn lemma_decimal_nonempty(n: nat)
    ensures
        decimal(n).len() >= 1,
    decreases n,
{
    if n >= 10 {
        lemma_decimal_nonempty(n / 10);
    }
}

proof fn lemma_two_digits(n: nat)
    requires
        n < 100,
    ensures
        pad_start(decimal(n), 2, '0').len() == 2,
{
    if n >= 10 {
        assert(decimal(n / 10).len() == 1);
    }
}

/// A timestamp is made of ASCII digits and the separators `-`, space and `:`.
pub proof fn lemma_timestamp_chars(secs: nat)
    ensures
        forall|i: int|
            0 <= i < timestamp_text(secs).len() ==> ({
                let c = #[trigger] timestamp_text(secs)[i];
                ('0' <= c && c <= '9') || c == '-' || c == ' ' || c == ':'
            }),
{
    let f = calendar_fields(secs);
    lemma_padded_digits(f.0, 4);
    lemma_padded_digits(f.1, 2);
    lemma_padded_digits(f.2, 2);
    lemma_padded_digits(f.3, 2);
    lemma_padded_digits(f.4, 2);
    let t = timestamp_text(secs);
    assert forall|i: int| 0 <= i < t.len() implies ({
        let c = #[trigger] t[i];
        ('0' <= c && c <= '9') || c == '-' || c == ' ' || c == ':'
    }) by {
        let a = pad_start(decimal(f.0), 4, '0');
        let b = pad_start(decimal(f.1), 2, '0');
        let d = pad_start(decimal(f.2), 2, '0');
        let e = pad_start(decimal(f.3), 2, '0');
        let g = pad_start(decimal(f.4), 2, '0');
        assert(t =~= a + seq!['-'] + b + seq!['-'] + d + seq![' '] + e + seq![':'] + g);
        let n1 = a.len() as int;
        let n2 = n1 + 1 + b.len();
        let n3 = n2 + 1 + d.len();
        let n4 = n3 + 1 + e.len();
        if i < n1 {
            assert(t[i] == a[i]);
        } else if i == n1 {
        } else if i < n1 + 1 + b.len() {
            assert(t[i] == b[i - n1 - 1]);
        } else if i == n2 {
        } else if i < n2 + 1 + d.len() {
            assert(t[i] == d[i - n2 - 1]);
        } else if i == n3 {
        } else if i < n3 + 1 + e.len() {
            assert(t[i] == e[i - n3 - 1]);
        } else if i == n4 {
        } else {
            assert(t[i] == g[i - n4 - 1]);
        }
    }
}

proof fn lemma_decimal_digits(n: nat)
    ensures
        forall|i: int| 0 <= i < decimal(n).len() ==> '0' <= #[trigger] decimal(n)[i] && decimal(n)[i] <= '9',
    decreases n,
{
    if n >= 10 {
        lemma_decimal_digits(n / 10);
        let d = decimal(n);
        assert forall|i: int| 0 <= i < d.len() implies '0' <= #[trigger] d[i] && d[i] <= '9' by {
            if i < d.len() - 1 {
                assert(d[i] == decimal(n / 10)[i]);
            }
        }
    }
}

proof fn lemma_padded_digits(n: nat, w: nat)
    ensures
        forall|i: int| 0 <= i < pad_start(decimal(n), w, '0').len() ==> '0' <= #[trigger] pad_start(decimal(n), w, '0')[i] && pad_start(decimal(n), w, '0')[i] <= '9',
{
    lemma_decimal_digits(n);
    let s = decimal(n);
    let p = pad_start(s, w, '0');
    if s.len() < w {
        assert forall|i: int| 0 <= i < p.len() implies '0' <= #[trigger] p[i] && p[i] <= '9' by {
            let fill = (w - s.len()) as int;
            if i >= fill {
                assert(p[i] == s[i - fill]);
            }
        }
    }
}

proof fn lemma_calendar_ranges(secs: nat)
    ensures
        1 <= calendar_fields(secs).1 <= 12,
        1 <= calendar_fields(secs).2 <= 35,
        calendar_fields(secs).3 < 24,
        calendar_fields(secs).4 < 60,
{
    let days = secs / 86400;
    let rem = secs % 86400;
    let doy = days % 365;
    assert(rem < 86400);
    assert(rem / 3600 < 24) by (nonlinear_arith)
        requires
            rem < 86400,
    ;
    assert(rem % 3600 / 60 < 60) by (nonlinear_arith)
        requires
            rem % 3600 < 3600,
    ;
    assert(doy < 330 ==> doy / 30 + 1 <= 11) by (nonlinear_arith);
}

// ---------------------------------------------------------------------------
// Timestamps sort in time order
// ---------------------------------------------------------------------------

/// `10` to the power `w`.
pub open spec fn pow10(w: nat) -> nat
    decreases w,
{
    if w == 0 {
        1
    } else {
        10 * pow10((w - 1) as nat)
    }
}

/// The last `w` decimal digits of `x`, most significant first.
pub open spec fn digits(x: nat, w: nat) -> Seq<char>
    decreases w,
{
    if w == 0 {
        seq![]
    } else {
        digits(x / 10, (w - 1) as nat).push(crate::text::digit_char(x % 10))
    }
}

/// The order of two calendar field tuples: by year, then month, day, hour
/// and minute.
pub open spec fn fields_less(f: (nat, nat, nat, nat, nat), g: (nat, nat, nat, nat, nat)) -> bool {
    ||| f.0 < g.0
    ||| f.0 == g.0 && f.1 < g.1
    ||| f.0 == g.0 && f.1 == g.1 && f.2 < g.2
    ||| f.0 == g.0 && f.1 == g.1 && f.2 == g.2 && f.3 < g.3
    ||| f.0 == g.0 && f.1 == g.1 && f.2 == g.2 && f.3 == g.3 && f.4 < g.4
}

proof fn lemma_divmod_order(a: nat, b: nat, n: nat)
    requires
        a <= b,
        n > 0,
    ensures
        a / n <= b / n,
        a / n == b / n ==> a % n <= b % n,
        a / n == b / n && a % n == b % n ==> a == b,
{
    vstd::arithmetic::div_mod::lemma_div_is_ordered(a as int, b as int, n as int);
    vstd::arithmetic::div_mod::lemma_fundamental_div_mod(a as int, n as int);
    vstd::arithmetic::div_mod::lemma_fundamental_div_mod(b as int, n as int);
}

proof fn lemma_month_day_order(a: nat, b: nat)
    requires
        a < b < 365,
    ensures
        ({
            let ma = if a < 330 { a / 30 + 1 } else { 12 };
            let da: nat = if a < 330 { a % 30 + 1 } else { (a - 329) as nat };
            let mb = if b < 330 { b / 30 + 1 } else { 12 };
            let db: nat = if b < 330 { b % 30 + 1 } else { (b - 329) as nat };
            ma < mb || (ma == mb && da < db)
        }),
{
    lemma_divmod_order(a, b, 30);
    assert(a < 330 ==> a / 30 + 1 <= 11) by (nonlinear_arith);
}

proof fn lemma_fields_monotone(s1: nat, s2: nat)
    requires
        s1 <= s2,
    ensures
        !fields_less(calendar_fields(s2), calendar_fields(s1)),
        calendar_fields(s1).0 <= calendar_fields(s2).0,
{
    lemma_divmod_order(s1, s2, 86400);
    let d1 = s1 / 86400;
    let d2 = s2 / 86400;
    lemma_divmod_order(d1, d2, 365);
    if d1 < d2 {
        if d1 / 365 == d2 / 365 {
            lemma_month_day_order(d1 % 365, d2 % 365);
        }
    } else {
        let r1 = s1 % 86400;
        let r2 = s2 % 86400;
        lemma_divmod_order(r1, r2, 3600);
        if r1 / 3600 == r2 / 3600 {
            lemma_divmod_order(r1 % 3600, r2 % 3600, 60);
        }
    }
}

proof fn lemma_digits_zero(k: nat)
    ensures
        digits(0, k) == Seq::new(k, |i: int| '0'),
    decreases k,
{
    if k > 0 {
        lemma_digits_zero((k - 1) as nat);
        assert(digits(0, k) =~= Seq::new(k, |i: int| '0'));
    } else {
        assert(digits(0, k) =~= Seq::new(k, |i: int| '0'));
    }
}

proof fn lemma_pad_decimal(x: nat, w: nat)
    requires
        x < pow10(w),
        w >= 1,
    ensures
        pad_start(decimal(x), w, '0') == digits(x, w),
    decreases x,
{
    if x >= 10 {
        assert(x / 10 < pow10((w - 1) as nat) && w >= 2) by (nonlinear_arith)
            requires
                x < pow10(w),
                x >= 10,
                w >= 1,
                pow10(w) == 10 * pow10((w - 1) as nat),
                w == 1 ==> pow10((w - 1) as nat) == 1,
        ;
        lemma_pad_decimal(x / 10, (w - 1) as nat);
        let s = decimal(x / 10);
        let c = crate::text::digit_char(x % 10);
        assert(decimal(x) == s.push(c));
        if s.len() + 1 < w {
            assert(pad_start(s.push(c), w, '0') =~= pad_start(s, (w - 1) as nat, '0').push(c));
        } else {
            assert(pad_start(s.push(c), w, '0') =~= pad_start(s, (w - 1) as nat, '0').push(c));
        }
    } else {
        lemma_digits_zero((w - 1) as nat);
        assert(x / 10 == 0 && x % 10 == x);
        assert(pad_start(decimal(x), w, '0') =~= digits(x, w));
    }
}

/// Comparing texts made of two parts whose first parts have equal lengths
/// compares the first parts, then the second.
pub proof fn lemma_text_less_concat(a: Seq<char>, x: Seq<char>, b: Seq<char>, y: Seq<char>)
    requires
        a.len() == b.len(),
    ensures
        text_less(a + x, b + y) == (text_less(a, b) || (a == b && text_less(x, y))),
    decreases a.len(),
{
    if a.len() == 0 {
        assert(a + x =~= x);
        assert(b + y =~= y);
        assert(a =~= b);
    } else {
        assert((a + x).drop_first() =~= a.drop_first() + x);
        assert((b + y).drop_first() =~= b.drop_first() + y);
        lemma_text_less_concat(a.drop_first(), x, b.drop_first(), y);
        if a[0] == b[0] && a.drop_first() == b.drop_first() {
            assert forall|i: int| 0 <= i < a.len() implies a[i] == b[i] by {
                if i > 0 {
                    assert(a[i] == a.drop_first()[i - 1]);
                    assert(b[i] == b.drop_first()[i - 1]);
                }
            }
            assert(a =~= b);
        }
        if a == b {
            assert(a.drop_first() == b.drop_first());
        }
    }
}

proof fn lemma_digit_char_order(d1: nat, d2: nat)
    requires
        d1 < 10,
        d2 < 10,
    ensures
        (crate::text::digit_char(d1) < crate::text::digit_char(d2)) == (d1 < d2),
        (crate::text::digit_char(d1) == crate::text::digit_char(d2)) == (d1 == d2),
{
}

proof fn lemma_digits_order(x: nat, y: nat, w: nat)
    requires
        x < pow10(w),
        y < pow10(w),
    ensures
        digits(x, w).len() == w,
        digits(y, w).len() == w,
        text_less(digits(x, w), digits(y, w)) == (x < y),
        (digits(x, w) == digits(y, w)) == (x == y),
    decreases w,
{
    if w == 0 {
        assert(digits(x, w) =~= digits(y, w));
    } else {
        let v = (w - 1) as nat;
        assert(x / 10 < pow10(v) && y / 10 < pow10(v)) by (nonlinear_arith)
            requires
                x < pow10(w),
                y < pow10(w),
                pow10(w) == 10 * pow10(v),
        ;
        lemma_digits_order(x / 10, y / 10, v);
        let cx = crate::text::digit_char(x % 10);
        let cy = crate::text::digit_char(y % 10);
        lemma_digit_char_order(x % 10, y % 10);
        assert(digits(x, w) =~= digits(x / 10, v) + seq![cx]);
        assert(digits(y, w) =~= digits(y / 10, v) + seq![cy]);
        lemma_text_less_concat(digits(x / 10, v), seq![cx], digits(y / 10, v), seq![cy]);
        assert(seq![cx].drop_first() =~= Seq::<char>::empty());
        assert(seq![cy].drop_first() =~= Seq::<char>::empty());
        assert(seq![cx][0] == cx && seq![cy][0] == cy);
        assert(!text_less(Seq::<char>::empty(), Seq::<char>::empty()));
        assert(text_less(seq![cx], seq![cy]) == (cx < cy));
        if x <= y {
            lemma_divmod_order(x, y, 10);
        } else {
            lemma_divmod_order(y, x, 10);
        }
        if digits(x, w) == digits(y, w) {
            assert(digits(x, w).drop_last() =~= digits(x / 10, v));
            assert(digits(y, w).drop_last() =~= digits(y / 10, v));
            assert(digits(x, w).last() == cx);
            assert(digits(y, w).last() == cy);
            assert(x / 10 == y / 10 && x % 10 == y % 10);
        }
    }
}

proof fn lemma_field_text(n: nat, w: nat)
    requires
        n < pow10(w),
        w >= 1,
    ensures
        pad_start(decimal(n), w, '0') == digits(n, w),
        digits(n, w).len() == w,
{
    lemma_pad_decimal(n, w);
    lemma_digits_order(n, n, w);
}

proof fn lemma_small_powers()
    ensures
        pow10(2) == 100,
        pow10(4) == 10000,
{
    assert(pow10(0) == 1);
    assert(pow10(1) == 10);
    assert(pow10(2) == 100);
    assert(pow10(3) == 1000);
    assert(pow10(4) == 10000);
}

proof fn lemma_text_order(s1: nat, s2: nat)
    requires
        calendar_fields(s1).0 <= 9999,
        calendar_fields(s2).0 <= 9999,
    ensures
        text_less(timestamp_text(s1), timestamp_text(s2)) == fields_less(calendar_fields(s1), calendar_fields(s2)),
{
    let f = calendar_fields(s1);
    let g = calendar_fields(s2);
    lemma_calendar_ranges(s1);
    lemma_calendar_ranges(s2);
    lemma_small_powers();
    lemma_field_text(f.0, 4);
    lemma_field_text(g.0, 4);
    lemma_field_text(f.1, 2);
    lemma_field_text(g.1, 2);
    lemma_field_text(f.2, 2);
    lemma_field_text(g.2, 2);
    lemma_field_text(f.3, 2);
    lemma_field_text(g.3, 2);
    lemma_field_text(f.4, 2);
    lemma_field_text(g.4, 2);
    lemma_digits_order(f.0, g.0, 4);
    lemma_digits_order(f.1, g.1, 2);
    lemma_digits_order(f.2, g.2, 2);
    lemma_digits_order(f.3, g.3, 2);
    lemma_digits_order(f.4, g.4, 2);
    let (y1, m1, d1, h1, n1) = (digits(f.0, 4), digits(f.1, 2), digits(f.2, 2), digits(f.3, 2), digits(f.4, 2));
    let (y2, m2, d2, h2, n2) = (digits(g.0, 4), digits(g.1, 2), digits(g.2, 2), digits(g.3, 2), digits(g.4, 2));
    let t5a = seq![':'] + n1;
    let t5b = seq![':'] + n2;
    let t4a = h1 + t5a;
    let t4b = h2 + t5b;
    let t3a = seq![' '] + t4a;
    let t3b = seq![' '] + t4b;
    let t2a = d1 + t3a;
    let t2b = d2 + t3b;
    let u2a = seq!['-'] + t2a;
    let u2b = seq!['-'] + t2b;
    let t1a = m1 + u2a;
    let t1b = m2 + u2b;
    let u1a = seq!['-'] + t1a;
    let u1b = seq!['-'] + t1b;
    assert(timestamp_text(s1) =~= y1 + u1a);
    assert(timestamp_text(s2) =~= y2 + u1b);
    lemma_text_less_concat(y1, u1a, y2, u1b);
    lemma_text_less_concat(seq!['-'], t1a, seq!['-'], t1b);
    lemma_text_less_concat(m1, u2a, m2, u2b);
    lemma_text_less_concat(seq!['-'], t2a, seq!['-'], t2b);
    lemma_text_less_concat(d1, t3a, d2, t3b);
    lemma_text_less_concat(seq![' '], t4a, seq![' '], t4b);
    lemma_text_less_concat(h1, t5a, h2, t5b);
    lemma_text_less_concat(seq![':'], n1, seq![':'], n2);
    lemma_text_less_irreflexive(seq!['-']);
    lemma_text_less_irreflexive(seq![' ']);
    lemma_text_less_irreflexive(seq![':']);
}

/// Stamps sort in time order: the stamp of a later time never sorts before
/// that of an earlier one (while years have four digits).
pub proof fn lemma_timestamp_order(s1: nat, s2: nat)
    requires
        s1 <= s2,
        calendar_fields(s2).0 <= 9999,
    ensures
        !text_less(timestamp_text(s2), timestamp_text(s1)),
{
    lemma_fields_monotone(s1, s2);
    lemma_text_order(s2, s1);
}

} // verus!
