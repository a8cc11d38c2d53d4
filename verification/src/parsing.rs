//! Quantity parsing: textual CPU and memory quantities converted into
//! normalized integer units (millicores and bytes).
//!
//! CPU text accepts a nanocore suffix (`n`, divided by 1,000,000 truncating),
//! a microcore suffix (`u`, divided by 1,000 truncating), a millicore suffix
//! (`m`, taken as-is), or no suffix (a decimal number of whole cores,
//! multiplied by 1000 and rounded to nearest, ties away from zero).
//!
//! Memory text accepts binary-prefix suffixes (`Ki` through `Ei`, powers of
//! 1024) checked before decimal-prefix suffixes (`K` through `E` and a
//! lowercase `k`, powers of 1000), or a bare byte count.  Binary suffixes
//! are checked first so that text ending in `Ki` is never read by the `K`
//! rule.
//!
//! Values are read as plain decimal numerals (an optional sign, digits, at
//! most one dot); exponent notation is not recognized.  Unparseable or empty
//! input yields no value, never an error: callers treat absence as
//! "unknown", not zero.

use vstd::prelude::*;

use vstd::string::StringExecFns;

use crate::numtext::all_digits;
use crate::numtext::dec_digits_of;
use crate::numtext::digit_char;
use crate::numtext::digits_val;
use crate::numtext::int_text_val;
use crate::numtext::is_ws_char;
use crate::numtext::lemma_dec_digits_of_correct;
use crate::numtext::sign_body;
use crate::numtext::spec_dec_scaled;
use crate::numtext::spec_parse_i64_text;
use crate::numtext::spec_parse_int_div;
use crate::numtext::trimmed;
use crate::numtext::valid_int_text;
use crate::numtext::parse_dec_scaled_range;
use crate::numtext::parse_i64_range;
use crate::numtext::parse_int_div_range;
use crate::numtext::trim_range;
use crate::text::to_char_vec;
use crate::types::Percentage;
use crate::types::PodRequestTotals;
use crate::types::PodUsageTotals;
use crate::types::Threshold;

verus! {

/// The text ends with the single character `c`.
pub open spec fn ends1(t: Seq<char>, c: char) -> bool {
    t.len() >= 1 && t[t.len() - 1] == c
}

/// The text ends with the two characters `c0 c1`.
pub open spec fn ends2(t: Seq<char>, c0: char, c1: char) -> bool {
    t.len() >= 2 && t[t.len() - 2] == c0 && t[t.len() - 1] == c1
}

/// What `parse_cpu_to_millicores` returns, over the character sequence.
pub open spec fn spec_parse_cpu(s: Seq<char>) -> Option<i64> {
    let t = trimmed(s);
    if t.len() == 0 {
        None
    } else if ends1(t, 'n') {
        spec_parse_int_div(t.drop_last(), 1000000)
    } else if ends1(t, 'u') {
        spec_parse_int_div(t.drop_last(), 1000)
    } else if ends1(t, 'm') {
        spec_parse_i64_text(t.drop_last())
    } else {
        spec_dec_scaled(t, 1000)
    }
}

/// What `parse_memory_to_bytes` returns, over the character sequence.
pub open spec fn spec_parse_memory(s: Seq<char>) -> Option<i64> {
    let t = trimmed(s);
    if t.len() == 0 {
        None
    } else if ends2(t, 'K', 'i') {
        spec_dec_scaled(t.subrange(0, t.len() - 2), 1024)
    } else if ends2(t, 'M', 'i') {
        spec_dec_scaled(t.subrange(0, t.len() - 2), 1048576)
    } else if ends2(t, 'G', 'i') {
        spec_dec_scaled(t.subrange(0, t.len() - 2), 1073741824)
    } else if ends2(t, 'T', 'i') {
        spec_dec_scaled(t.subrange(0, t.len() - 2), 1099511627776)
    } else if ends2(t, 'P', 'i') {
        spec_dec_scaled(t.subrange(0, t.len() - 2), 1125899906842624)
    } else if ends2(t, 'E', 'i') {
        spec_dec_scaled(t.subrange(0, t.len() - 2), 1152921504606846976)
    } else if ends1(t, 'K') {
        spec_dec_scaled(t.drop_last(), 1000)
    } else if ends1(t, 'M') {
        spec_dec_scaled(t.drop_last(), 1000000)
    } else if ends1(t, 'G') {
        spec_dec_scaled(t.drop_last(), 1000000000)
    } else if ends1(t, 'T') {
        spec_dec_scaled(t.drop_last(), 1000000000000)
    } else if ends1(t, 'P') {
        spec_dec_scaled(t.drop_last(), 1000000000000000)
    } else if ends1(t, 'E') {
        spec_dec_scaled(t.drop_last(), 1000000000000000000)
    } else if ends1(t, 'k') {
        spec_dec_scaled(t.drop_last(), 1000)
    } else {
        spec_parse_i64_text(t)
    }
}

/// Converts a textual CPU quantity into millicores.
pub fn parse_cpu_to_millicores(q: &str) -> (r: Option<i64>)
    ensures
        r == spec_parse_cpu(q@),
{
    let v = to_char_vec(q);
    let (lo, hi) = trim_range(&v);
    let ghost t = trimmed(q@);
    if lo == hi {
        return None;
    }
    proof {
        assert(t.drop_last() =~= v@.subrange(lo as int, hi - 1));
    }
    let last = v[hi - 1];
    if last == 'n' {
        parse_int_div_range(&v, lo, hi - 1, 1000000)
    } else if last == 'u' {
        parse_int_div_range(&v, lo, hi - 1, 1000)
    } else if last == 'm' {
        parse_i64_range(&v, lo, hi - 1)
    } else {
        parse_dec_scaled_range(&v, lo, hi, 1000)
    }
}

/// Converts a textual memory quantity into bytes.
pub fn parse_memory_to_bytes(q: &str) -> (r: Option<i64>)
    ensures
        r == spec_parse_memory(q@),
{
    let v = to_char_vec(q);
    let (lo, hi) = trim_range(&v);
    let ghost t = trimmed(q@);
    if lo == hi {
        return None;
    }
    proof {
        assert(t.drop_last() =~= v@.subrange(lo as int, hi - 1));
        if t.len() >= 2 {
            assert(t.subrange(0, t.len() - 2) =~= v@.subrange(lo as int, hi - 2));
        }
    }
    let last = v[hi - 1];
    let two = hi - lo >= 2;
    if two && last == 'i' && v[hi - 2] == 'K' {
        parse_dec_scaled_range(&v, lo, hi - 2, 1024)
    } else if two && last == 'i' && v[hi - 2] == 'M' {
        parse_dec_scaled_range(&v, lo, hi - 2, 1048576)
    } else if two && last == 'i' && v[hi - 2] == 'G' {
        parse_dec_scaled_range(&v, lo, hi - 2, 1073741824)
    } else if two && last == 'i' && v[hi - 2] == 'T' {
        parse_dec_scaled_range(&v, lo, hi - 2, 1099511627776)
    } else if two && last == 'i' && v[hi - 2] == 'P' {
        parse_dec_scaled_range(&v, lo, hi - 2, 1125899906842624)
    } else if two && last == 'i' && v[hi - 2] == 'E' {
        parse_dec_scaled_range(&v, lo, hi - 2, 1152921504606846976)
    } else if last == 'K' {
        parse_dec_scaled_range(&v, lo, hi - 1, 1000)
    } else if last == 'M' {
        parse_dec_scaled_range(&v, lo, hi - 1, 1000000)
    } else if last == 'G' {
        parse_dec_scaled_range(&v, lo, hi - 1, 1000000000)
    } else if last == 'T' {
        parse_dec_scaled_range(&v, lo, hi - 1, 1000000000000)
    } else if last == 'P' {
        parse_dec_scaled_range(&v, lo, hi - 1, 1000000000000000)
    } else if last == 'E' {
        parse_dec_scaled_range(&v, lo, hi - 1, 1000000000000000000)
    } else if last == 'k' {
        parse_dec_scaled_range(&v, lo, hi - 1, 1000)
    } else {
        parse_i64_range(&v, lo, hi)
    }
}

fn append_digit(out: &mut String, d: u64)
    requires
        d < 10,
    ensures
        final(out)@ == old(out)@ + seq![digit_char(d as int)],
{
    match d {
        0 => {
            proof {
                reveal_strlit("0");
            }
            out.append("0");
        },
        1 => {
            proof {
                reveal_strlit("1");
            }
            out.append("1");
        },
        2 => {
            proof {
                reveal_strlit("2");
            }
            out.append("2");
        },
        3 => {
            proof {
                reveal_strlit("3");
            }
            out.append("3");
        },
        4 => {
            proof {
                reveal_strlit("4");
            }
            out.append("4");
        },
        5 => {
            proof {
                reveal_strlit("5");
            }
            out.append("5");
        },
        6 => {
            proof {
                reveal_strlit("6");
            }
            out.append("6");
        },
        7 => {
            proof {
                reveal_strlit("7");
            }
            out.append("7");
        },
        8 => {
            proof {
                reveal_strlit("8");
            }
            out.append("8");
        },
        _ => {
            proof {
                reveal_strlit("9");
            }
            out.append("9");
        },
    }
    assert(final(out)@ =~= old(out)@ + seq![digit_char(d as int)]);
}

fn push_digits(out: &mut String, n: u64)
    ensures
        final(out)@ == old(out)@ + dec_digits_of(n as nat),
    decreases n,
{
    if n < 10 {
        append_digit(out, n);
    } else {
        push_digits(out, n / 10);
        append_digit(out, n % 10);
        assert(final(out)@ =~= old(out)@ + dec_digits_of(n as nat));
    }
}

/// The canonical millicore rendering of `v`: its decimal numeral followed by
/// the `m` suffix.
pub open spec fn spec_millicore_text(v: i64) -> Seq<char> {
    if v < 0 {
        seq!['-'] + dec_digits_of((-(v as int)) as nat) + seq!['m']
    } else {
        dec_digits_of(v as nat) + seq!['m']
    }
}

/// Renders a millicore count as quantity text with the `m` suffix.
pub fn format_as_millicore(v: i64) -> (r: String)
    ensures
        r@ == spec_millicore_text(v),
{
    let mut out = String::new();
    if v < 0 {
        proof {
            reveal_strlit("-");
        }
        out.append("-");
        assert(out@ =~= seq!['-']);
    }
    let mag: u64 = if v < 0 {
        (-(v as i128)) as u64
    } else {
        v as u64
    };
    push_digits(&mut out, mag);
    proof {
        reveal_strlit("m");
    }
    out.append("m");
    assert(out@ =~= spec_millicore_text(v));
    out
}

/// Parsing is the inverse of millicore rendering: for every millicore count
/// `v`, the rendered text parses back to exactly `v`.
pub proof fn lemma_parse_cpu_round_trip(v: i64)
    ensures
        spec_parse_cpu(spec_millicore_text(v)) == Some(v),
{
    let mag = if v < 0 {
        (-(v as int)) as nat
    } else {
        v as nat
    };
    lemma_dec_digits_of_correct(mag);
    let d = dec_digits_of(mag);
    let t = spec_millicore_text(v);
    assert(forall|i: int| 0 <= i < d.len() ==> !is_ws_char(#[trigger] d[i]) && d[i] != '.');
    assert(t[0] == if v < 0 {
        '-'
    } else {
        d[0]
    });
    assert(!is_ws_char(t[0]));
    assert(t[t.len() - 1] == 'm');
    assert(trimmed(t) == t);
    let b = t.drop_last();
    if v < 0 {
        assert(b =~= seq!['-'] + d);
        assert(sign_body(b) =~= d);
        assert(valid_int_text(b));
        assert(int_text_val(b) == v);
    } else {
        assert(b =~= d);
        assert(b[0] == d[0]);
        assert(sign_body(b) =~= d);
        assert(valid_int_text(b));
        assert(int_text_val(b) == v);
    }
    assert(spec_parse_i64_text(b) == Some(v));
}

/// Binary prefixes are matched before decimal prefixes: for any value text
/// (one that does not begin with whitespace), appending `Ki` applies the
/// 1024 multiplier and appending `K` the 1000 multiplier — the `K` rule
/// never captures `Ki` text, nor the reverse.
pub proof fn lemma_memory_unit_precedence(t: Seq<char>)
    requires
        t.len() > 0,
        !is_ws_char(t[0]),
    ensures
        spec_parse_memory(t + "Ki"@) == spec_dec_scaled(t, 1024),
        spec_parse_memory(t + "K"@) == spec_dec_scaled(t, 1000),
{
    reveal_strlit("Ki");
    reveal_strlit("K");
    let tki = t + "Ki"@;
    let tk = t + "K"@;
    assert(tki.len() == t.len() + 2);
    assert(tki[0] == t[0]);
    assert(tki[tki.len() - 2] == 'K');
    assert(tki[tki.len() - 1] == 'i');
    assert(trimmed(tki) == tki);
    assert(tki.subrange(0, tki.len() - 2) =~= t);
    assert(tk.len() == t.len() + 1);
    assert(tk[0] == t[0]);
    assert(tk[tk.len() - 1] == 'K');
    assert(trimmed(tk) == tk);
    assert(tk.drop_last() =~= t);
}

/// CPU utilization of a usage/request pair: defined only when the request is
/// present and strictly positive.
pub open spec fn spec_cpu_utilization(u: PodUsageTotals, rq: PodRequestTotals) -> Option<
    Percentage,
> {
    match rq.cpu_millicores {
        Some(c) => if c > 0 {
            Some(Percentage { used: u.cpu_millicores, capacity: c })
        } else {
            None
        },
        None => None,
    }
}

/// Memory utilization of a usage/request pair: defined only when the request
/// is present and strictly positive.
pub open spec fn spec_mem_utilization(u: PodUsageTotals, rq: PodRequestTotals) -> Option<
    Percentage,
> {
    match rq.memory_bytes {
        Some(b) => if b > 0 {
            Some(Percentage { used: u.memory_bytes, capacity: b })
        } else {
            None
        },
        None => None,
    }
}

/// Derives CPU and memory utilization percentages from a usage/request pair.
/// A resource whose request is absent or non-positive is undefined (`None`),
/// not zero: absence of a declared request must never read as zero demand.
pub fn compute_utilization_percentages(usage: &PodUsageTotals, req: &PodRequestTotals) -> (r: (
    Option<Percentage>,
    Option<Percentage>,
))
    ensures
        r.0 == spec_cpu_utilization(*usage, *req),
        r.1 == spec_mem_utilization(*usage, *req),
        r.0 matches Some(p) ==> p.is_valid(),
        r.1 matches Some(p) ==> p.is_valid(),
{
    let cpu_pct = match req.cpu_millicores {
        Some(c) => if c > 0 {
            Some(Percentage::new(usage.cpu_millicores, c))
        } else {
            None
        },
        None => None,
    };
    let mem_pct = match req.memory_bytes {
        Some(b) => if b > 0 {
            Some(Percentage::new(usage.memory_bytes, b))
        } else {
            None
        },
        None => None,
    };
    (cpu_pct, mem_pct)
}

/// Whether any defined percentage strictly exceeds the threshold; undefined
/// only when both are undefined.  An undefined component contributes `false`
/// to the disjunction, and equality with the threshold does not count.
pub open spec fn spec_any_exceeds(
    cpu: Option<Percentage>,
    mem: Option<Percentage>,
    t: Threshold,
) -> Option<bool> {
    if cpu is None && mem is None {
        None
    } else {
        Some(
            (cpu matches Some(p) && p.exceeds_spec(t)) || (mem matches Some(p)
                && p.exceeds_spec(t)),
        )
    }
}

/// The threshold boundary is exclusive: a percentage exactly equal to the
/// threshold never counts as exceeding, whichever side it stands on.
pub proof fn lemma_threshold_boundary_exclusive(p: Percentage, t: Threshold)
    requires
        p.is_valid(),
        100000000 * p.used == t.micro_percent * p.capacity,
    ensures
        spec_any_exceeds(Some(p), None, t) == Some(false),
        spec_any_exceeds(None, Some(p), t) == Some(false),
{
}

/// Absence propagates and never reads as zero: when no request is declared,
/// both utilizations are undefined, and a threshold check over two undefined
/// percentages is itself undefined, whatever the usage and the threshold.
pub proof fn lemma_undefined_propagation(u: PodUsageTotals, t: Threshold)
    ensures
        spec_cpu_utilization(u, PodRequestTotals { cpu_millicores: None, memory_bytes: None })
            is None,
        spec_mem_utilization(u, PodRequestTotals { cpu_millicores: None, memory_bytes: None })
            is None,
        spec_any_exceeds(None, None, t) is None,
{
}

/// Threshold check over the two optional percentages.
pub fn any_exceeds(cpu: Option<Percentage>, mem: Option<Percentage>, threshold: Threshold) -> (r:
    Option<bool>)
    requires
        cpu matches Some(p) ==> p.is_valid(),
        mem matches Some(p) ==> p.is_valid(),
    ensures
        r == spec_any_exceeds(cpu, mem, threshold),
{
    match (cpu, mem) {
        (None, None) => None,
        (c, m) => {
            let ce = match c {
                Some(p) => p.exceeds(threshold),
                None => false,
            };
            let me = match m {
                Some(p) => p.exceeds(threshold),
                None => false,
            };
            Some(ce || me)
        },
    }
}

} // verus!
