//! Numeric text of the API's responses.
//!
//! Every number in a response is a JSON string. Volumes are unsigned integers
//! (the language of `u64::from_str`); prices, rates and scores are floating-point
//! literals (the language of `f64::from_str`). Prices are kept as their validated
//! text, which converts to `f64` without failure.
use vstd::prelude::*;

verus! {

pub open spec fn is_digit(c: char) -> bool {
    '0' <= c && c <= '9'
}

pub open spec fn digit_value(c: char) -> int {
    (c as int) - ('0' as int)
}

pub open spec fn all_digits(s: Seq<char>) -> bool {
    forall|i: int| 0 <= i < s.len() ==> is_digit(#[trigger] s[i])
}

/// The number that a string of decimal digits denotes.
pub open spec fn digits_value(s: Seq<char>) -> int
    decreases s.len(),
{
    if s.len() == 0 {
        0
    } else {
        digits_value(s.drop_last()) * 10 + digit_value(s.last())
    }
}

pub open spec fn pow10(n: nat) -> int
    decreases n,
{
    if n == 0 {
        1
    } else {
        10 * pow10((n - 1) as nat)
    }
}

/// `s` without one leading `+` or `-`.
pub open spec fn without_sign(s: Seq<char>) -> Seq<char> {
    if s.len() > 0 && (s[0] == '+' || s[0] == '-') {
        s.skip(1)
    } else {
        s
    }
}

/// The value of an unsigned integer literal: an optional `+`, then one or more
/// digits, with a value that fits in 64 bits.
pub open spec fn unsigned_value(s: Seq<char>) -> Option<u64> {
    let t = if s.len() > 0 && s[0] == '+' {
        s.skip(1)
    } else {
        s
    };
    if t.len() > 0 && all_digits(t) && digits_value(t) <= u64::MAX {
        Some(digits_value(t) as u64)
    } else {
        None
    }
}

/// `t` is `lower` or `upper` letter by letter, in any mix of the two.
pub open spec fn matches_word(t: Seq<char>, lower: Seq<char>, upper: Seq<char>) -> bool {
    &&& t.len() == lower.len()
    &&& t.len() == upper.len()
    &&& forall|i: int| 0 <= i < t.len() ==> (#[trigger] t[i] == lower[i] || t[i] == upper[i])
}

pub open spec fn is_exponent_mark(c: char) -> bool {
    c == 'e' || c == 'E'
}

/// The index of the first character of `t` that satisfies `is_mark`, or the
/// length of `t` where there is none.
pub open spec fn first_index(t: Seq<char>, is_mark: spec_fn(char) -> bool) -> nat
    decreases t.len(),
{
    if t.len() == 0 {
        0
    } else if is_mark(t[0]) {
        0
    } else {
        1 + first_index(t.drop_first(), is_mark)
    }
}

pub open spec fn count_dots(s: Seq<char>) -> nat
    decreases s.len(),
{
    if s.len() == 0 {
        0
    } else {
        count_dots(s.drop_last()) + if s.last() == '.' {
            1nat
        } else {
            0nat
        }
    }
}

pub open spec fn count_digits(s: Seq<char>) -> nat
    decreases s.len(),
{
    if s.len() == 0 {
        0
    } else {
        count_digits(s.drop_last()) + if is_digit(s.last()) {
            1nat
        } else {
            0nat
        }
    }
}

/// Digits with at most one point among them, and at least one digit:
/// `Digit+ | Digit+ '.' Digit* | Digit* '.' Digit+`.
pub open spec fn is_mantissa(m: Seq<char>) -> bool {
    &&& forall|i: int| 0 <= i < m.len() ==> (is_digit(#[trigger] m[i]) || m[i] == '.')
    &&& count_dots(m) <= 1
    &&& count_digits(m) >= 1
}

/// An optional sign, then one or more digits.
pub open spec fn is_exponent(x: Seq<char>) -> bool {
    without_sign(x).len() > 0 && all_digits(without_sign(x))
}

/// A mantissa, then optionally `e` or `E` and an exponent.
pub open spec fn is_number(t: Seq<char>) -> bool {
    let i = first_index(t, |c: char| is_exponent_mark(c)) as int;
    &&& is_mantissa(t.take(i))
    &&& (i == t.len() || is_exponent(t.skip(i + 1)))
}

/// The language of `f64::from_str`, as std documents it: an optional sign, then
/// `inf`, `infinity`, `nan` (in any case) or a decimal number with an optional
/// exponent. Nothing else, surrounding whitespace included.
pub open spec fn is_float_literal(s: Seq<char>) -> bool {
    let t = without_sign(s);
    ||| matches_word(t, "inf"@, "INF"@)
    ||| matches_word(t, "infinity"@, "INFINITY"@)
    ||| matches_word(t, "nan"@, "NAN"@)
    ||| is_number(t)
}

/// Whole minutes of a fraction of an hour `frac / 10^len`, rounded half away from
/// zero.
pub open spec fn rounded_minutes(frac: int, len: nat) -> int {
    (frac * 120 + pow10(len)) / (2 * pow10(len))
}

/// The length of an hour count in seconds: `Digit+ | Digit+ '.' Digit* | Digit* '.'
/// Digit+` read as hours, whole hours and the fraction rounded to whole minutes.
pub open spec fn hours_seconds(t: Seq<char>) -> Option<int> {
    let i = first_index(t, |c: char| c == '.') as int;
    let whole = t.take(i);
    let frac = if i < t.len() {
        t.skip(i + 1)
    } else {
        Seq::<char>::empty()
    };
    if all_digits(whole) && all_digits(frac) && whole.len() + frac.len() >= 1 {
        Some(digits_value(whole) * 3600 + rounded_minutes(digits_value(frac), frac.len()) * 60)
    } else {
        None
    }
}

pub proof fn lemma_digits_value_bounds(s: Seq<char>)
    requires
        all_digits(s),
    ensures
        0 <= digits_value(s) < pow10(s.len()),
    decreases s.len(),
{
    if s.len() > 0 {
        let p = s.drop_last();
        assert(all_digits(p)) by {
            assert forall|i: int| 0 <= i < p.len() implies is_digit(#[trigger] p[i]) by {
                assert(p[i] == s[i]);
            }
        }
        lemma_digits_value_bounds(p);
        assert(is_digit(s[s.len() - 1]));
        let v = digits_value(p);
        let q = pow10(p.len());
        assert(pow10(s.len()) == 10 * q);
        assert(v * 10 + digit_value(s.last()) < 10 * q) by (nonlinear_arith)
            requires
                0 <= v < q,
                0 <= digit_value(s.last()) <= 9,
        ;
    }
}

proof fn lemma_first_index(t: Seq<char>, is_mark: spec_fn(char) -> bool, i: int)
    requires
        0 <= i <= t.len(),
        forall|k: int| 0 <= k < i ==> !is_mark(#[trigger] t[k]),
        i == t.len() || is_mark(t[i]),
    ensures
        first_index(t, is_mark) == i,
    decreases i,
{
    if i > 0 {
        let d = t.drop_first();
        assert forall|k: int| 0 <= k < i - 1 implies !is_mark(#[trigger] d[k]) by {
            assert(d[k] == t[k + 1]);
        }
        if i < t.len() {
            assert(d[i - 1] == t[i]);
        }
        lemma_first_index(d, is_mark, i - 1);
    }
}

/// The index of the first character of `s` that is `mark`, or its length.
fn find_char(s: &str, n: usize, mark: char) -> (r: usize)
    requires
        n == s@.len(),
    ensures
        r <= n,
        forall|k: int| 0 <= k < r ==> s@[k] != mark,
        r < n ==> s@[r as int] == mark,
{
    let mut i: usize = 0;
    while i < n
        invariant
            i <= n,
            n == s@.len(),
            forall|k: int| 0 <= k < i ==> s@[k] != mark,
        decreases n - i,
    {
        if s.get_char(i) == mark {
            return i;
        }
        i = i + 1;
    }
    i
}

/// The value of a string of decimal digits, where it is one and fits in 64 bits.
pub fn parse_digits(s: &str) -> (r: Option<u64>)
    ensures
        r is Some <==> (all_digits(s@) && digits_value(s@) <= u64::MAX),
        r matches Some(v) ==> v == digits_value(s@),
{
    let n = s.unicode_len();
    let mut i: usize = 0;
    let mut acc: u64 = 0;
    let mut overflow = false;
    let ghost mut exact: int = 0;
    while i < n
        invariant
            i <= n,
            n == s@.len(),
            all_digits(s@.take(i as int)),
            exact == digits_value(s@.take(i as int)),
            exact >= 0,
            !overflow ==> acc == exact,
            overflow ==> exact > u64::MAX,
        decreases n - i,
    {
        let c = s.get_char(i);
        if !('0' <= c && c <= '9') {
            assert(!all_digits(s@)) by {
                assert(!is_digit(s@[i as int]));
            }
            return None;
        }
        let d = (c as u32 - '0' as u32) as u64;
        proof {
            let next = s@.take(i + 1);
            assert(next.drop_last() == s@.take(i as int));
            assert(next.last() == c);
            assert(all_digits(next)) by {
                assert forall|k: int| 0 <= k < next.len() implies is_digit(#[trigger] next[k]) by {
                    if k < i {
                        assert(next[k] == s@.take(i as int)[k]);
                    }
                }
            }
            exact = exact * 10 + d;
        }
        if !overflow {
            if acc > (u64::MAX - d) / 10 {
                overflow = true;
            } else {
                acc = acc * 10 + d;
            }
        }
        i = i + 1;
    }
    assert(s@.take(n as int) == s@);
    if overflow {
        None
    } else {
        Some(acc)
    }
}

/// Reads an unsigned integer the way `u64::from_str` does.
pub fn parse_u64(s: &str) -> (r: Option<u64>)
    ensures
        r == unsigned_value(s@),
{
    let n = s.unicode_len();
    if n > 0 && s.get_char(0) == '+' {
        let t = s.substring_char(1, n);
        assert(t@ == s@.skip(1));
        if n == 1 {
            return None;
        }
        parse_digits(t)
    } else {
        if n == 0 {
            return None;
        }
        parse_digits(s)
    }
}

/// Whether `t` is `lower` or `upper` letter by letter.
fn word_matches(t: &str, lower: &str, upper: &str) -> (r: bool)
    ensures
        r == matches_word(t@, lower@, upper@),
{
    let n = t.unicode_len();
    if n != lower.unicode_len() || n != upper.unicode_len() {
        return false;
    }
    let mut i: usize = 0;
    while i < n
        invariant
            i <= n,
            n == t@.len(),
            n == lower@.len(),
            n == upper@.len(),
            forall|k: int| 0 <= k < i ==> (#[trigger] t@[k] == lower@[k] || t@[k] == upper@[k]),
        decreases n - i,
    {
        let c = t.get_char(i);
        if c != lower.get_char(i) && c != upper.get_char(i) {
            return false;
        }
        i = i + 1;
    }
    true
}

/// Whether the first `len` characters of `m` form a mantissa.
fn mantissa_ok(m: &str, len: usize) -> (r: bool)
    requires
        len <= m@.len(),
    ensures
        r == is_mantissa(m@.take(len as int)),
{
    let ghost p = m@.take(len as int);
    let mut i: usize = 0;
    let mut dots: usize = 0;
    let mut digits: usize = 0;
    while i < len
        invariant
            i <= len,
            len <= m@.len(),
            p == m@.take(len as int),
            forall|k: int| 0 <= k < i ==> (is_digit(#[trigger] p[k]) || p[k] == '.'),
            dots == count_dots(p.take(i as int)),
            digits == count_digits(p.take(i as int)),
            dots <= i,
            digits <= i,
        decreases len - i,
    {
        let c = m.get_char(i);
        assert(p[i as int] == c);
        assert(p.take(i + 1).drop_last() == p.take(i as int));
        if '0' <= c && c <= '9' {
            digits = digits + 1;
        } else if c == '.' {
            dots = dots + 1;
        } else {
            return false;
        }
        i = i + 1;
    }
    assert(p.take(len as int) == p);
    dots <= 1 && digits >= 1
}

/// Whether `x` is an optional sign followed by one or more digits.
fn exponent_ok(x: &str) -> (r: bool)
    ensures
        r == is_exponent(x@),
{
    let n = x.unicode_len();
    let y = if n > 0 && (x.get_char(0) == '+' || x.get_char(0) == '-') {
        x.substring_char(1, n)
    } else {
        x
    };
    assert(y@ == without_sign(x@));
    if y.unicode_len() == 0 {
        return false;
    }
    all_digits_text(y)
}

/// Whether every character of `s` is a decimal digit.
fn all_digits_text(s: &str) -> (r: bool)
    ensures
        r == all_digits(s@),
{
    let n = s.unicode_len();
    let mut i: usize = 0;
    while i < n
        invariant
            i <= n,
            n == s@.len(),
            forall|k: int| 0 <= k < i ==> is_digit(#[trigger] s@[k]),
        decreases n - i,
    {
        let c = s.get_char(i);
        if !('0' <= c && c <= '9') {
            return false;
        }
        i = i + 1;
    }
    true
}

/// Whether `s` is text that `f64::from_str` accepts.
pub fn is_float_text(s: &str) -> (r: bool)
    ensures
        r == is_float_literal(s@),
{
    let n = s.unicode_len();
    let t = if n > 0 && (s.get_char(0) == '+' || s.get_char(0) == '-') {
        s.substring_char(1, n)
    } else {
        s
    };
    assert(t@ == without_sign(s@));
    if word_matches(t, "inf", "INF") || word_matches(t, "infinity", "INFINITY") || word_matches(
        t,
        "nan",
        "NAN",
    ) {
        return true;
    }
    let len = t.unicode_len();
    let e1 = find_char(t, len, 'e');
    let e2 = find_char(t, len, 'E');
    let i = if e1 < e2 {
        e1
    } else {
        e2
    };
    proof {
        lemma_first_index(t@, |c: char| is_exponent_mark(c), i as int);
    }
    if !mantissa_ok(t, i) {
        return false;
    }
    if i == len {
        return true;
    }
    let x = t.substring_char(i + 1, len);
    assert(x@ == t@.skip(i + 1));
    exponent_ok(x)
}

/// Reads an hour count as seconds, as [`hours_seconds`] states; `None` also where
/// the count is 24 hours or more.
pub fn parse_hours(t: &str) -> (r: Option<u32>)
    ensures
        r is Some <==> (hours_seconds(t@) matches Some(x) && x < 86400),
        r matches Some(x) ==> hours_seconds(t@) == Some(x as int),
{
    let len = t.unicode_len();
    let i = find_char(t, len, '.');
    proof {
        lemma_first_index(t@, |c: char| c == '.', i as int);
    }
    let whole = t.substring_char(0, i);
    let frac = if i < len {
        t.substring_char(i + 1, len)
    } else {
        t.substring_char(len, len)
    };
    assert(whole@ == t@.take(i as int));
    assert(frac@ == if i < len {
        t@.skip(i + 1)
    } else {
        Seq::<char>::empty()
    });
    let flen = frac.unicode_len();
    if i + flen == 0 {
        return None;
    }
    let w = match parse_digits(whole) {
        Some(w) => w,
        None => {
            proof {
                if all_digits(whole@) {
                    lemma_hours_large(whole@, frac@);
                }
            }
            return None;
        },
    };
    if w >= 24 {
        proof {
            if all_digits(frac@) {
                lemma_digits_value_bounds(frac@);
                lemma_minutes_nonneg(digits_value(frac@), frac@.len());
            }
        }
        return None;
    }
    let minutes = match rounded_fraction(frac) {
        Some(m) => m,
        None => return None,
    };
    let secs: u32 = (w as u32) * 3600 + minutes * 60;
    if secs >= 86400 {
        return None;
    }
    Some(secs)
}

/// The minutes of the fraction of an hour `0.f`, rounded half away from zero,
/// where `f` is all digits. Any number of digits is read exactly: the product by
/// 120 is carried in from the last digit.
fn rounded_fraction(f: &str) -> (r: Option<u32>)
    ensures
        r is Some <==> all_digits(f@),
        r matches Some(m) ==> m == rounded_minutes(digits_value(f@), f@.len()) && m <= 60,
{
    let n = f.unicode_len();
    let mut i = n;
    let mut c: u32 = 0;
    proof {
        assert(f@.skip(n as int) =~= Seq::<char>::empty());
        assert(digits_value(Seq::<char>::empty()) == 0);
        lemma_pow_pos(0);
    }
    while i > 0
        invariant
            i <= n,
            n == f@.len(),
            all_digits(f@.skip(i as int)),
            c as int == (120 * digits_value(f@.skip(i as int))) / pow10((n - i) as nat),
            c < 120,
        decreases i,
    {
        let ch = f.get_char(i - 1);
        if !('0' <= ch && ch <= '9') {
            assert(!is_digit(f@[i - 1]));
            return None;
        }
        let d = ch as u32 - '0' as u32;
        proof {
            lemma_carry_step(f@, i as int, c as int);
        }
        c = (120 * d + c) / 10;
        i = i - 1;
    }
    assert(f@.skip(0) =~= f@);
    proof {
        lemma_digits_value_bounds(f@);
        lemma_round_from_carry(digits_value(f@), n as nat);
    }
    Some((c + 1) / 2)
}

/// The digits of `seq![c] + r` are worth `c` in the place before those of `r`.
proof fn lemma_digits_prepend(c: char, r: Seq<char>)
    ensures
        digits_value(seq![c] + r) == digit_value(c) * pow10(r.len()) + digits_value(r),
    decreases r.len(),
{
    let t = seq![c] + r;
    if r.len() == 0 {
        assert(t.drop_last() =~= Seq::<char>::empty());
        assert(t.last() == c);
        assert(digits_value(Seq::<char>::empty()) == 0);
        assert(digits_value(t) == digits_value(t.drop_last()) * 10 + digit_value(t.last()));
        assert(pow10(0) == 1);
    } else {
        assert(t.drop_last() =~= seq![c] + r.drop_last());
        assert(t.last() == r.last());
        lemma_digits_prepend(c, r.drop_last());
        let q = pow10((r.len() - 1) as nat);
        assert(pow10(r.len()) == 10 * q);
        let d = digit_value(c);
        let x = digits_value(r.drop_last());
        let y = digit_value(r.last());
        assert(digits_value(t) == digits_value(t.drop_last()) * 10 + digit_value(t.last()));
        assert(digits_value(r) == x * 10 + y);
        assert((d * q + x) * 10 + y == d * (10 * q) + (x * 10 + y)) by (nonlinear_arith);
    }
}

/// One step of the carry: the digit before a suffix joins it.
proof fn lemma_carry_step(f: Seq<char>, i: int, c: int)
    requires
        0 < i <= f.len(),
        all_digits(f.skip(i)),
        is_digit(f[i - 1]),
        c == (120 * digits_value(f.skip(i))) / pow10((f.len() - i) as nat),
    ensures
        all_digits(f.skip(i - 1)),
        (120 * digit_value(f[i - 1]) + c) / 10 == (120 * digits_value(f.skip(i - 1))) / pow10(
            (f.len() - i + 1) as nat,
        ),
        (120 * digit_value(f[i - 1]) + c) / 10 < 120,
{
    let s = f.skip(i);
    let t = f.skip(i - 1);
    assert(t =~= seq![f[i - 1]] + s);
    assert forall|k: int| 0 <= k < t.len() implies is_digit(#[trigger] t[k]) by {
        if k > 0 {
            assert(t[k] == s[k - 1]);
        }
    }
    let m = s.len();
    let p = pow10(m);
    let d = digit_value(f[i - 1]);
    let big_r = digits_value(s);
    lemma_digits_prepend(f[i - 1], s);
    lemma_digits_value_bounds(s);
    lemma_digits_value_bounds(t);
    lemma_pow_pos(m);
    assert(pow10((m + 1) as nat) == 10 * p);
    assert(m == f.len() - i);
    let x = 120 * d * p + 120 * big_r;
    assert(120 * digits_value(t) == x) by (nonlinear_arith)
        requires
            digits_value(t) == d * p + big_r,
            x == 120 * d * p + 120 * big_r,
    ;
    vstd::arithmetic::div_mod::lemma_div_denominator(x, p, 10);
    let q = (120 * big_r) / p;
    let rem = (120 * big_r) % p;
    vstd::arithmetic::div_mod::lemma_fundamental_div_mod(120 * big_r, p);
    assert(0 <= rem < p) by {
        vstd::arithmetic::div_mod::lemma_mod_bound(120 * big_r, p);
    }
    assert(x == p * (120 * d + q) + rem) by (nonlinear_arith)
        requires
            x == 120 * d * p + 120 * big_r,
            120 * big_r == p * q + rem,
    ;
    vstd::arithmetic::div_mod::lemma_div_multiples_vanish_fancy(120 * d + q, rem, p);
    assert(x / p == 120 * d + c);
    assert(p * 10 == 10 * p);
    assert(x / (10 * p) < 120) by (nonlinear_arith)
        requires
            0 <= x < 120 * (10 * p),
            p > 0,
    ;
}

/// Rounding half up is halving the carried product, plus one.
proof fn lemma_round_from_carry(big_d: int, n: nat)
    requires
        big_d >= 0,
    ensures
        rounded_minutes(big_d, n) == ((120 * big_d) / pow10(n) + 1) / 2,
{
    let p = pow10(n);
    lemma_pow_pos(n);
    vstd::arithmetic::div_mod::lemma_div_plus_one(120 * big_d, p);
    vstd::arithmetic::div_mod::lemma_div_denominator(120 * big_d + p, p, 2);
    assert(big_d * 120 + p == 120 * big_d + p);
    assert(2 * p == p * 2);
}

proof fn lemma_minutes_nonneg(frac: int, len: nat)
    requires
        frac >= 0,
    ensures
        rounded_minutes(frac, len) >= 0,
{
    lemma_pow_pos(len);
    let p = pow10(len);
    assert((frac * 120 + p) / (2 * p) >= 0) by (nonlinear_arith)
        requires
            frac >= 0,
            p >= 1,
    ;
}

proof fn lemma_pow_pos(n: nat)
    ensures
        pow10(n) >= 1,
    decreases n,
{
    if n > 0 {
        lemma_pow_pos((n - 1) as nat);
    }
}

/// A whole part too large for 64 bits is also too large for an offset.
proof fn lemma_hours_large(whole: Seq<char>, frac: Seq<char>)
    requires
        all_digits(whole),
        digits_value(whole) > u64::MAX,
    ensures
        !all_digits(frac) || digits_value(whole) * 3600 + rounded_minutes(
            digits_value(frac),
            frac.len(),
        ) * 60 >= 86400,
{
    if all_digits(frac) {
        lemma_digits_value_bounds(frac);
        lemma_minutes_nonneg(digits_value(frac), frac.len());
    }
}

} // verus!
