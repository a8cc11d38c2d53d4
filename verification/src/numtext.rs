//! The numeric side of quantity text: whitespace trimming, digit sequences,
//! signed integer text, and decimal text scaled by a unit multiplier with
//! round-to-nearest (ties away from zero) semantics.
//!
//! All values are computed exactly over the decimal digits; no floating
//! point is involved.  A decimal whose fraction still has more than
//! [`MAX_FRAC_DIGITS`] digits after trailing zeros are removed is treated as
//! unparseable, and a result that does not fit in `i64` yields no value.

use vstd::prelude::*;
use vstd::arithmetic::div_mod::lemma_div_pos_is_pos;
use vstd::arithmetic::div_mod::lemma_fundamental_div_mod;
use vstd::arithmetic::mul::lemma_mul_inequality;
use vstd::arithmetic::mul::lemma_mul_nonnegative;
use vstd::arithmetic::mul::lemma_mul_upper_bound;

verus! {

/// Number of fractional digits honored after trailing zeros are removed.
pub const MAX_FRAC_DIGITS: usize = 15;

/// Largest unit multiplier in use (the exbi prefix, 1024^6).
pub const MAX_UNIT_MULTIPLIER: u64 = 1152921504606846976;

// ---------------------------------------------------------------------------
// whitespace trimming
// ---------------------------------------------------------------------------

pub open spec fn is_ws_char(c: char) -> bool {
    c == ' ' || c == '\t' || c == '\n' || c == '\r' || c == '\u{b}' || c == '\u{c}'
}

pub open spec fn trim_front(s: Seq<char>) -> Seq<char>
    decreases s.len(),
{
    if s.len() > 0 && is_ws_char(s[0]) {
        trim_front(s.drop_first())
    } else {
        s
    }
}

pub open spec fn trim_back(s: Seq<char>) -> Seq<char>
    decreases s.len(),
{
    if s.len() > 0 && is_ws_char(s[s.len() - 1]) {
        trim_back(s.drop_last())
    } else {
        s
    }
}

/// The text with leading and trailing whitespace removed.
pub open spec fn trimmed(s: Seq<char>) -> Seq<char> {
    trim_back(trim_front(s))
}

proof fn lemma_trim_front_at(s: Seq<char>, k: int)
    requires
        0 <= k <= s.len(),
        forall|j: int| 0 <= j < k ==> is_ws_char(s[j]),
        k < s.len() ==> !is_ws_char(s[k]),
    ensures
        trim_front(s) == s.subrange(k, s.len() as int),
    decreases k,
{
    if k == 0 {
        assert(s.subrange(0, s.len() as int) =~= s);
    } else {
        let t = s.drop_first();
        lemma_trim_front_at(t, k - 1);
        assert(t.subrange(k - 1, t.len() as int) =~= s.subrange(k, s.len() as int));
    }
}

proof fn lemma_trim_back_at(s: Seq<char>, k: int)
    requires
        0 <= k <= s.len(),
        forall|j: int| k <= j < s.len() ==> is_ws_char(s[j]),
        k > 0 ==> !is_ws_char(s[k - 1]),
    ensures
        trim_back(s) == s.subrange(0, k),
    decreases s.len() - k,
{
    if k == s.len() {
        if s.len() > 0 && is_ws_char(s[s.len() - 1]) {
            assert(false);
        }
        assert(s.subrange(0, k) =~= s);
    } else {
        let t = s.drop_last();
        lemma_trim_back_at(t, k);
        assert(t.subrange(0, k) =~= s.subrange(0, k));
    }
}

/// Locates the trimmed part of `v[lo..hi]` as an index range.
pub fn trim_subrange(v: &Vec<char>, lo: usize, hi: usize) -> (r: (usize, usize))
    requires
        lo <= hi <= v@.len(),
    ensures
        lo <= r.0 <= r.1 <= hi,
        v@.subrange(r.0 as int, r.1 as int) == trimmed(v@.subrange(lo as int, hi as int)),
{
    let ghost s = v@.subrange(lo as int, hi as int);
    let mut a: usize = lo;
    while a < hi && is_ws(v[a])
        invariant
            lo <= a <= hi <= v@.len(),
            s == v@.subrange(lo as int, hi as int),
            forall|j: int| 0 <= j < a - lo ==> is_ws_char(s[j]),
        decreases hi - a,
    {
        a = a + 1;
    }
    if a == hi {
        proof {
            lemma_trim_front_at(s, s.len() as int);
            lemma_trim_back_at(Seq::<char>::empty(), 0);
            assert(s.subrange(s.len() as int, s.len() as int) =~= Seq::<char>::empty());
            assert(trimmed(s) =~= Seq::<char>::empty());
            assert(v@.subrange(hi as int, hi as int) =~= Seq::<char>::empty());
        }
        return (hi, hi);
    }
    let mut b: usize = hi;
    while b > a && is_ws(v[b - 1])
        invariant
            lo <= a <= b <= hi <= v@.len(),
            s == v@.subrange(lo as int, hi as int),
            a < hi,
            !is_ws_char(s[a - lo]),
            forall|j: int| b - lo <= j < s.len() ==> is_ws_char(s[j]),
        decreases b,
    {
        b = b - 1;
    }
    proof {
        lemma_trim_front_at(s, a - lo);
        let f = s.subrange(a - lo, s.len() as int);
        lemma_trim_back_at(f, b - a);
        assert(f.subrange(0, b - a) =~= v@.subrange(a as int, b as int));
    }
    (a, b)
}

/// Locates the trimmed part of `v` as an index range.
pub fn trim_range(v: &Vec<char>) -> (r: (usize, usize))
    ensures
        r.0 <= r.1 <= v@.len(),
        v@.subrange(r.0 as int, r.1 as int) == trimmed(v@),
{
    let n = v.len();
    let mut lo: usize = 0;
    while lo < n && is_ws(v[lo])
        invariant
            lo <= n,
            n == v@.len(),
            forall|j: int| 0 <= j < lo ==> is_ws_char(v@[j]),
        decreases n - lo,
    {
        lo = lo + 1;
    }
    if lo == n {
        proof {
            lemma_trim_front_at(v@, n as int);
            lemma_trim_back_at(Seq::<char>::empty(), 0);
            assert(v@.subrange(n as int, n as int) =~= Seq::<char>::empty());
            assert(trimmed(v@) =~= Seq::<char>::empty());
        }
        return (n, n);
    }
    let mut hi: usize = n;
    while hi > lo && is_ws(v[hi - 1])
        invariant
            lo <= hi <= n,
            n == v@.len(),
            lo < n,
            !is_ws_char(v@[lo as int]),
            forall|j: int| hi <= j < n ==> is_ws_char(v@[j]),
        decreases hi,
    {
        hi = hi - 1;
    }
    proof {
        lemma_trim_front_at(v@, lo as int);
        let f = v@.subrange(lo as int, n as int);
        lemma_trim_back_at(f, hi - lo);
        assert(f.subrange(0, hi - lo) =~= v@.subrange(lo as int, hi as int));
    }
    (lo, hi)
}

fn is_ws(c: char) -> (r: bool)
    ensures
        r == is_ws_char(c),
{
    c == ' ' || c == '\t' || c == '\n' || c == '\r' || c == '\u{b}' || c == '\u{c}'
}

// ---------------------------------------------------------------------------
// digit sequences
// ---------------------------------------------------------------------------

pub open spec fn is_digit_char(c: char) -> bool {
    48 <= c as u32 && c as u32 <= 57
}

pub open spec fn digit_val(c: char) -> int {
    c as u32 - 48
}

pub open spec fn all_digits(s: Seq<char>) -> bool {
    forall|i: int| 0 <= i < s.len() ==> is_digit_char(#[trigger] s[i])
}

/// The value of a digit sequence read as a base-10 numeral.
pub open spec fn digits_val(s: Seq<char>) -> int
    decreases s.len(),
{
    if s.len() == 0 {
        0
    } else {
        digits_val(s.drop_last()) * 10 + digit_val(s[s.len() - 1])
    }
}

pub proof fn lemma_digits_val_nonneg(s: Seq<char>)
    requires
        all_digits(s),
    ensures
        digits_val(s) >= 0,
    decreases s.len(),
{
    if s.len() > 0 {
        lemma_digits_val_nonneg(s.drop_last());
    }
}

pub open spec fn pow10(n: nat) -> int
    decreases n,
{
    if n == 0 {
        1
    } else {
        10 * pow10((n - 1) as nat)
    }
}

pub proof fn lemma_digits_val_upper(s: Seq<char>)
    requires
        all_digits(s),
    ensures
        digits_val(s) < pow10(s.len()),
    decreases s.len(),
{
    if s.len() > 0 {
        lemma_digits_val_upper(s.drop_last());
    }
}

proof fn lemma_pow10_table()
    ensures
        pow10(0) == 1,
        pow10(1) == 10,
        pow10(2) == 100,
        pow10(3) == 1000,
        pow10(4) == 10000,
        pow10(5) == 100000,
        pow10(6) == 1000000,
        pow10(7) == 10000000,
        pow10(8) == 100000000,
        pow10(9) == 1000000000,
        pow10(10) == 10000000000,
        pow10(11) == 100000000000,
        pow10(12) == 1000000000000,
        pow10(13) == 10000000000000,
        pow10(14) == 100000000000000,
        pow10(15) == 1000000000000000,
{
    reveal_with_fuel(pow10, 17);
}

/// Computes a small power of ten.
pub fn pow10_u64(k: usize) -> (r: u64)
    requires
        k <= 15,
    ensures
        r as int == pow10(k as nat),
{
    proof {
        lemma_pow10_table();
    }
    let mut r: u64 = 1;
    let mut i: usize = 0;
    while i < k
        invariant
            i <= k <= 15,
            r as int == pow10(i as nat),
        decreases k - i,
    {
        proof {
            lemma_pow10_table();
            lemma_pow10_increases(i as nat, 14);
        }
        r = r * 10;
        i = i + 1;
    }
    r
}

proof fn lemma_pow10_increases(a: nat, b: nat)
    requires
        a <= b,
    ensures
        pow10(a) <= pow10(b),
    decreases b,
{
    if a < b {
        lemma_pow10_increases(a, (b - 1) as nat);
        lemma_pow10_positive((b - 1) as nat);
    }
}

proof fn lemma_pow10_positive(n: nat)
    ensures
        pow10(n) >= 1,
    decreases n,
{
    if n > 0 {
        lemma_pow10_positive((n - 1) as nat);
    }
}

/// Scans `v[lo..hi]` as a digit sequence.  Returns whether every character
/// is a digit, whether the value exceeds `u128::MAX`, and the value when it
/// does not.
pub fn scan_digits(v: &Vec<char>, lo: usize, hi: usize) -> (r: (bool, bool, u128))
    requires
        lo <= hi <= v@.len(),
    ensures
        r.0 == all_digits(v@.subrange(lo as int, hi as int)),
        r.0 ==> (r.1 <==> digits_val(v@.subrange(lo as int, hi as int)) > u128::MAX as int),
        r.0 && !r.1 ==> r.2 as int == digits_val(v@.subrange(lo as int, hi as int)),
    decreases hi - lo,
{
    let ghost whole = v@.subrange(lo as int, hi as int);
    let mut acc: u128 = 0;
    let mut over: bool = false;
    let mut i: usize = lo;
    while i < hi
        invariant
            lo <= i <= hi <= v@.len(),
            whole == v@.subrange(lo as int, hi as int),
            all_digits(v@.subrange(lo as int, i as int)),
            over <==> digits_val(v@.subrange(lo as int, i as int)) > u128::MAX as int,
            !over ==> acc as int == digits_val(v@.subrange(lo as int, i as int)),
        decreases hi - i,
    {
        let c = v[i];
        let cu = c as u32;
        let ghost pre = v@.subrange(lo as int, i as int);
        let ghost cur = v@.subrange(lo as int, i + 1 as int);
        proof {
            assert(cur.drop_last() =~= pre);
            assert(cur[cur.len() - 1] == v@[i as int]);
        }
        if cu < 48 || cu > 57 {
            assert(!all_digits(cur));
            assert(!all_digits(whole)) by {
                assert(whole[i - lo] == v@[i as int]);
            }
            return (false, false, 0);
        }
        let d = (cu - 48) as u128;
        proof {
            lemma_digits_val_nonneg(pre);
        }
        if over {
            proof {
                assert(digits_val(cur) == digits_val(pre) * 10 + digit_val(v@[i as int]));
                assert(digits_val(pre) * 10 >= digits_val(pre)) by {
                    lemma_mul_inequality(1, 10, digits_val(pre));
                }
            }
        } else {
            if acc > (u128::MAX - d) / 10 {
                proof {
                    // acc >= (MAX - d) / 10 + 1, so 10 * acc + d > MAX
                    lemma_fundamental_div_mod(u128::MAX - d, 10);
                }
                over = true;
            } else {
                proof {
                    lemma_fundamental_div_mod(u128::MAX - d, 10);
                    lemma_mul_inequality(acc as int, (u128::MAX - d) as int / 10, 10);
                }
                acc = acc * 10 + d;
            }
        }
        i = i + 1;
    }
    assert(v@.subrange(lo as int, hi as int) =~= whole);
    (true, over, acc)
}

// ---------------------------------------------------------------------------
// signed integer text
// ---------------------------------------------------------------------------

pub open spec fn has_sign(s: Seq<char>) -> bool {
    s.len() > 0 && (s[0] == '+' || s[0] == '-')
}

pub open spec fn is_neg_text(s: Seq<char>) -> bool {
    s.len() > 0 && s[0] == '-'
}

/// The text with a leading sign removed.
pub open spec fn sign_body(s: Seq<char>) -> Seq<char> {
    if has_sign(s) {
        s.drop_first()
    } else {
        s
    }
}

/// An optional sign followed by at least one digit.
pub open spec fn valid_int_text(s: Seq<char>) -> bool {
    sign_body(s).len() > 0 && all_digits(sign_body(s))
}

/// The signed value of integer text.
pub open spec fn int_text_val(s: Seq<char>) -> int {
    if is_neg_text(s) {
        -digits_val(sign_body(s))
    } else {
        digits_val(sign_body(s))
    }
}

/// Division truncating toward zero, for a positive divisor.
pub open spec fn trunc_div(a: int, b: int) -> int {
    if a >= 0 {
        a / b
    } else {
        -((-a) / b)
    }
}

/// Integer text read into an `i64`; text outside the `i64` range yields no
/// value.
pub open spec fn spec_parse_i64_text(s: Seq<char>) -> Option<i64> {
    if valid_int_text(s) && i64::MIN <= int_text_val(s) <= i64::MAX {
        Some(int_text_val(s) as i64)
    } else {
        None
    }
}

/// Integer text read into an `i32`; text outside the `i32` range yields no
/// value.
pub open spec fn spec_parse_i32_text(s: Seq<char>) -> Option<i32> {
    if valid_int_text(s) && i32::MIN <= int_text_val(s) <= i32::MAX {
        Some(int_text_val(s) as i32)
    } else {
        None
    }
}

/// Integer text read at `i128` precision and divided by `d`, truncating
/// toward zero; a quotient outside the `i64` range yields no value.
pub open spec fn spec_parse_int_div(s: Seq<char>, d: int) -> Option<i64> {
    if !valid_int_text(s) {
        None
    } else if !(i128::MIN <= int_text_val(s) <= i128::MAX) {
        None
    } else {
        let q = trunc_div(int_text_val(s), d);
        if i64::MIN <= q <= i64::MAX {
            Some(q as i64)
        } else {
            None
        }
    }
}

/// Scans `v[lo..hi]` as signed integer text.  Returns validity, the sign,
/// whether the magnitude exceeds `u128::MAX`, and the magnitude when it does
/// not.
pub fn scan_int(v: &Vec<char>, lo: usize, hi: usize) -> (r: (bool, bool, bool, u128))
    requires
        lo <= hi <= v@.len(),
    ensures
        ({
            let s = v@.subrange(lo as int, hi as int);
            &&& r.0 == valid_int_text(s)
            &&& r.0 ==> r.1 == is_neg_text(s)
            &&& r.0 ==> (r.2 <==> digits_val(sign_body(s)) > u128::MAX as int)
            &&& (r.0 && !r.2) ==> r.3 as int == digits_val(sign_body(s))
        }),
{
    let ghost s = v@.subrange(lo as int, hi as int);
    let mut neg: bool = false;
    let mut blo: usize = lo;
    if lo < hi && (v[lo] == '+' || v[lo] == '-') {
        neg = v[lo] == '-';
        blo = lo + 1;
    }
    proof {
        assert(sign_body(s) =~= v@.subrange(blo as int, hi as int));
    }
    if blo == hi {
        return (false, false, false, 0);
    }
    let (ok, over, mag) = scan_digits(v, blo, hi);
    (ok, neg, over, mag)
}

/// Parses `v[lo..hi]` as an `i64`.
pub fn parse_i64_range(v: &Vec<char>, lo: usize, hi: usize) -> (r: Option<i64>)
    requires
        lo <= hi <= v@.len(),
    ensures
        r == spec_parse_i64_text(v@.subrange(lo as int, hi as int)),
{
    let ghost s = v@.subrange(lo as int, hi as int);
    let (valid, neg, over, mag) = scan_int(v, lo, hi);
    if !valid {
        return None;
    }
    proof {
        lemma_digits_val_nonneg(sign_body(s));
    }
    if over {
        return None;
    }
    if neg {
        if mag > 9223372036854775808u128 {
            None
        } else {
            Some((-(mag as i128)) as i64)
        }
    } else {
        if mag > i64::MAX as u128 {
            None
        } else {
            Some(mag as i64)
        }
    }
}

/// Parses `v[lo..hi]` as an `i32`.
pub fn parse_i32_range(v: &Vec<char>, lo: usize, hi: usize) -> (r: Option<i32>)
    requires
        lo <= hi <= v@.len(),
    ensures
        r == spec_parse_i32_text(v@.subrange(lo as int, hi as int)),
{
    let ghost s = v@.subrange(lo as int, hi as int);
    let (valid, neg, over, mag) = scan_int(v, lo, hi);
    if !valid {
        return None;
    }
    proof {
        lemma_digits_val_nonneg(sign_body(s));
    }
    if over {
        return None;
    }
    if neg {
        if mag > 2147483648u128 {
            None
        } else {
            Some((-(mag as i128)) as i32)
        }
    } else {
        if mag > i32::MAX as u128 {
            None
        } else {
            Some(mag as i32)
        }
    }
}

/// Parses `v[lo..hi]` as an integer at `i128` precision and divides it by
/// `d`, truncating toward zero.
pub fn parse_int_div_range(v: &Vec<char>, lo: usize, hi: usize, d: u64) -> (r: Option<i64>)
    requires
        lo <= hi <= v@.len(),
        d >= 1,
    ensures
        r == spec_parse_int_div(v@.subrange(lo as int, hi as int), d as int),
{
    let ghost s = v@.subrange(lo as int, hi as int);
    let (valid, neg, over, mag) = scan_int(v, lo, hi);
    if !valid {
        return None;
    }
    proof {
        lemma_digits_val_nonneg(sign_body(s));
    }
    if over {
        return None;
    }
    // in-range check for the i128 read
    if neg {
        if mag > 170141183460469231731687303715884105728u128 {
            return None;
        }
    } else {
        if mag > i128::MAX as u128 {
            return None;
        }
    }
    let q = mag / (d as u128);
    proof {
        lemma_div_pos_is_pos(mag as int, d as int);
        vstd::arithmetic::div_mod::lemma_div_nonincreasing(mag as int, d as int);
    }
    if neg {
        if q > 9223372036854775808u128 {
            None
        } else {
            Some((-(q as i128)) as i64)
        }
    } else {
        if q > i64::MAX as u128 {
            None
        } else {
            Some(q as i64)
        }
    }
}

// ---------------------------------------------------------------------------
// saturating addition
// ---------------------------------------------------------------------------

/// Addition clamped to the `i64` range.
pub open spec fn sat_add_i64(a: i64, b: i64) -> i64 {
    if a + b > i64::MAX {
        i64::MAX
    } else if a + b < i64::MIN {
        i64::MIN
    } else {
        (a + b) as i64
    }
}

/// Adds two counters, clamping at the `i64` bounds instead of overflowing.
pub fn sat_add(a: i64, b: i64) -> (r: i64)
    ensures
        r == sat_add_i64(a, b),
{
    if b >= 0 {
        if a > i64::MAX - b {
            i64::MAX
        } else {
            a + b
        }
    } else {
        if a < i64::MIN - b {
            i64::MIN
        } else {
            a + b
        }
    }
}

// ---------------------------------------------------------------------------
// rendering integers as digit text
// ---------------------------------------------------------------------------

/// The digit character for a value in `0..10`.
pub open spec fn digit_char(d: int) -> char {
    if d == 0 {
        '0'
    } else if d == 1 {
        '1'
    } else if d == 2 {
        '2'
    } else if d == 3 {
        '3'
    } else if d == 4 {
        '4'
    } else if d == 5 {
        '5'
    } else if d == 6 {
        '6'
    } else if d == 7 {
        '7'
    } else if d == 8 {
        '8'
    } else {
        '9'
    }
}

/// The base-10 numeral of `n`, most significant digit first.
pub open spec fn dec_digits_of(n: nat) -> Seq<char>
    decreases n,
{
    if n < 10 {
        seq![digit_char(n as int)]
    } else {
        dec_digits_of(n / 10).push(digit_char((n % 10) as int))
    }
}

pub proof fn lemma_dec_digits_of_correct(n: nat)
    ensures
        all_digits(dec_digits_of(n)),
        digits_val(dec_digits_of(n)) == n,
        dec_digits_of(n).len() >= 1,
    decreases n,
{
    if n < 10 {
        let s = dec_digits_of(n);
        let e = s.drop_last();
        assert(e =~= Seq::<char>::empty());
        assert(digits_val(e) == 0);
        assert(s[s.len() - 1] == digit_char(n as int));
        assert(digits_val(s) == digits_val(e) * 10 + digit_val(digit_char(n as int)));
        assert(digit_val(digit_char(n as int)) == n);
    } else {
        lemma_dec_digits_of_correct(n / 10);
        let p = dec_digits_of(n / 10);
        let c = digit_char((n % 10) as int);
        let s = p.push(c);
        assert(s.drop_last() =~= p);
        assert(s[s.len() - 1] == c);
        lemma_fundamental_div_mod(n as int, 10);
        assert(digits_val(s) == digits_val(p) * 10 + digit_val(c));
    }
}

// ---------------------------------------------------------------------------
// decimal text scaled by a unit multiplier
// ---------------------------------------------------------------------------

/// Index of the first `'.'`, or the length when there is none.
pub open spec fn first_dot(b: Seq<char>) -> int
    decreases b.len(),
{
    if b.len() == 0 {
        0
    } else if b[0] == '.' {
        0
    } else {
        1 + first_dot(b.drop_first())
    }
}

proof fn lemma_first_dot_at(b: Seq<char>, k: int)
    requires
        0 <= k <= b.len(),
        forall|j: int| 0 <= j < k ==> b[j] != '.',
        k < b.len() ==> b[k] == '.',
    ensures
        first_dot(b) == k,
    decreases k,
{
    if k == 0 {
    } else {
        lemma_first_dot_at(b.drop_first(), k - 1);
    }
}

/// Digits before the dot.
pub open spec fn dec_int_part(b: Seq<char>) -> Seq<char> {
    b.subrange(0, first_dot(b))
}

/// Digits after the dot (empty when there is no dot).
pub open spec fn dec_frac_raw(b: Seq<char>) -> Seq<char> {
    if first_dot(b) < b.len() {
        b.subrange(first_dot(b) + 1, b.len() as int)
    } else {
        Seq::empty()
    }
}

/// The sequence with trailing `'0'` characters removed.
pub open spec fn strip_tz(s: Seq<char>) -> Seq<char>
    decreases s.len(),
{
    if s.len() > 0 && s[s.len() - 1] == '0' {
        strip_tz(s.drop_last())
    } else {
        s
    }
}

proof fn lemma_strip_tz_at(s: Seq<char>, k: int)
    requires
        0 <= k <= s.len(),
        forall|j: int| k <= j < s.len() ==> s[j] == '0',
        k > 0 ==> s[k - 1] != '0',
    ensures
        strip_tz(s) == s.subrange(0, k),
    decreases s.len() - k,
{
    if k == s.len() {
        assert(s.subrange(0, k) =~= s);
    } else {
        let t = s.drop_last();
        lemma_strip_tz_at(t, k);
        assert(t.subrange(0, k) =~= s.subrange(0, k));
    }
}

/// A decimal body: digits with at most one dot, at least one digit in all,
/// and a fraction that is in precision range once trailing zeros are
/// removed.
pub open spec fn valid_decimal_body(b: Seq<char>) -> bool {
    &&& all_digits(dec_int_part(b))
    &&& all_digits(dec_frac_raw(b))
    &&& dec_int_part(b).len() + dec_frac_raw(b).len() > 0
    &&& strip_tz(dec_frac_raw(b)).len() <= MAX_FRAC_DIGITS as int
}

/// The magnitude of `(iv + fv/den) * m`, rounded to the nearest integer
/// with ties away from zero (all arguments nonnegative, `den > 0`).
pub open spec fn round_scaled_mag(iv: int, fv: int, den: int, m: int) -> int {
    iv * m + (2 * (fv * m) + den) / (2 * den)
}

/// Decimal text multiplied by the unit multiplier `m` and rounded to the
/// nearest integer, ties away from zero.  Text that is not a plain decimal
/// numeral, or a result outside the `i64` range, yields no value.
pub open spec fn spec_dec_scaled(s: Seq<char>, m: int) -> Option<i64> {
    let b = sign_body(s);
    if !valid_decimal_body(b) {
        None
    } else {
        let fr = strip_tz(dec_frac_raw(b));
        let mag = round_scaled_mag(
            digits_val(dec_int_part(b)),
            digits_val(fr),
            pow10(fr.len()),
            m,
        );
        let val = if is_neg_text(s) {
            -mag
        } else {
            mag
        };
        if i64::MIN <= val <= i64::MAX {
            Some(val as i64)
        } else {
            None
        }
    }
}

proof fn lemma_mul_exceeds(iv: int, mm: int, mx: int)
    requires
        mm >= 1,
        mx >= 0,
        iv > mx / mm,
    ensures
        iv * mm > mx,
{
    lemma_fundamental_div_mod(mx, mm);
    lemma_div_pos_is_pos(mx, mm);
    let q0 = mx / mm;
    let r0 = mx % mm;
    assert(iv * mm > mx) by (nonlinear_arith)
        requires
            iv >= q0 + 1,
            mx == mm * q0 + r0,
            0 <= r0 < mm,
            mm >= 1,
    ;
}

proof fn lemma_round_scaled_mag_bounds(iv: int, fv: int, den: int, m: int)
    requires
        iv >= 0,
        fv >= 0,
        den >= 1,
        m >= 1,
    ensures
        round_scaled_mag(iv, fv, den, m) >= iv * m,
        round_scaled_mag(iv, fv, den, m) >= iv,
        round_scaled_mag(iv, fv, den, m) >= 0,
{
    lemma_mul_nonnegative(fv, m);
    lemma_div_pos_is_pos(2 * (fv * m) + den, 2 * den);
    lemma_mul_nonnegative(iv, m);
    assert(iv * m >= iv) by (nonlinear_arith)
        requires
            iv >= 0,
            m >= 1,
    ;
}

/// Parses `v[lo..hi]` as a decimal numeral scaled by `m`.
#[verifier::rlimit(100)]
pub fn parse_dec_scaled_range(v: &Vec<char>, lo: usize, hi: usize, m: u64) -> (r: Option<i64>)
    requires
        lo <= hi <= v@.len(),
        1 <= m <= MAX_UNIT_MULTIPLIER,
    ensures
        r == spec_dec_scaled(v@.subrange(lo as int, hi as int), m as int),
    decreases hi - lo,
{
    let ghost s = v@.subrange(lo as int, hi as int);
    let mut neg: bool = false;
    let mut blo: usize = lo;
    if lo < hi && (v[lo] == '+' || v[lo] == '-') {
        neg = v[lo] == '-';
        blo = lo + 1;
    }
    let ghost b = sign_body(s);
    proof {
        assert(b =~= v@.subrange(blo as int, hi as int));
        assert(neg == is_neg_text(s));
    }

    // find the first dot
    let mut di: usize = blo;
    while di < hi && v[di] != '.'
        invariant
            blo <= di <= hi <= v@.len(),
            forall|j: int| blo <= j < di ==> v@[j] != '.',
        decreases hi - di,
    {
        di = di + 1;
    }
    proof {
        lemma_first_dot_at(b, di - blo);
        assert(dec_int_part(b) =~= v@.subrange(blo as int, di as int));
    }

    // integer part
    let (iok, iover, ival) = scan_digits(v, blo, di);
    if !iok {
        return None;
    }

    // fraction part
    let flo: usize = if di < hi {
        di + 1
    } else {
        di
    };
    proof {
        assert(dec_frac_raw(b) =~= v@.subrange(flo as int, hi as int));
    }
    let (fok, _fover, _fv0) = scan_digits(v, flo, hi);
    if !fok {
        return None;
    }
    if di - blo == 0 && hi - flo == 0 {
        return None;
    }

    // strip trailing zeros from the fraction
    let mut fhi: usize = hi;
    while fhi > flo && v[fhi - 1] == '0'
        invariant
            flo <= fhi <= hi <= v@.len(),
            forall|j: int| fhi <= j < hi ==> v@[j] == '0',
        decreases fhi,
    {
        fhi = fhi - 1;
    }
    let ghost fraw = v@.subrange(flo as int, hi as int);
    let ghost fr = v@.subrange(flo as int, fhi as int);
    proof {
        lemma_strip_tz_at(fraw, fhi - flo);
        assert(fraw.subrange(0, fhi - flo) =~= fr);
        assert(strip_tz(dec_frac_raw(b)) == fr);
        assert(all_digits(fr)) by {
            assert(forall|j: int| 0 <= j < fr.len() ==> fr[j] == fraw[j]);
        }
    }
    if fhi - flo > MAX_FRAC_DIGITS {
        return None;
    }
    assert(valid_decimal_body(b));

    let (_f_ok, fover, fval) = scan_digits(v, flo, fhi);
    proof {
        lemma_digits_val_upper(fr);
        lemma_pow10_increases(fr.len(), 15);
        lemma_pow10_table();
        assert(!fover);
    }

    let den: u64 = pow10_u64(fhi - flo);
    let ghost ivs = digits_val(dec_int_part(b));
    let ghost mag = round_scaled_mag(ivs, fval as int, den as int, m as int);
    proof {
        lemma_digits_val_nonneg(dec_int_part(b));
        lemma_digits_val_nonneg(fr);
        lemma_round_scaled_mag_bounds(ivs, fval as int, den as int, m as int);
    }

    // the value `ival` overflowed: the result magnitude exceeds u128::MAX
    if iover {
        proof {
            assert(ivs * (m as int) >= ivs) by (nonlinear_arith)
                requires
                    ivs >= 0,
                    m >= 1,
            ;
        }
        return None;
    }

    // rounded fraction contribution
    proof {
        lemma_mul_upper_bound(fval as int, 1000000000000000, m as int, MAX_UNIT_MULTIPLIER as int);
    }
    let fm: u128 = (fval as u128) * (m as u128);
    let rn: u128 = 2 * fm + (den as u128);
    let q: u128 = rn / (2 * (den as u128));
    proof {
        lemma_div_pos_is_pos(rn as int, 2 * (den as int));
        vstd::arithmetic::div_mod::lemma_div_nonincreasing(rn as int, 2 * (den as int));
    }

    // integer contribution
    if ival > u128::MAX / (m as u128) {
        proof {
            lemma_mul_exceeds(ival as int, m as int, u128::MAX as int);
        }
        return None;
    }
    proof {
        lemma_fundamental_div_mod(u128::MAX as int, m as int);
        lemma_mul_inequality(ival as int, (u128::MAX / (m as u128)) as int, m as int);
        assert((u128::MAX / (m as u128)) as int * (m as int) <= u128::MAX as int) by (nonlinear_arith)
            requires
                u128::MAX as int == (m as int) * ((u128::MAX / (m as u128)) as int) + (
                u128::MAX as int) % (m as int),
                (u128::MAX as int) % (m as int) >= 0,
        ;
    }
    let im: u128 = ival * (m as u128);
    if im > u128::MAX - q {
        return None;
    }
    let total: u128 = im + q;
    assert(total as int == mag);

    if neg {
        if total > 9223372036854775808u128 {
            None
        } else {
            Some((-(total as i128)) as i64)
        }
    } else {
        if total > i64::MAX as u128 {
            None
        } else {
            Some(total as i64)
        }
    }
}

} // verus!
