//! Executable scanning primitives, each proved to compute exactly the
//! corresponding spec-level run, search or value from [`crate::grammar`].

use vstd::prelude::*;

use crate::grammar::alpha_run_end;
use crate::grammar::digit_run_end;
use crate::grammar::exponent_end;
use crate::grammar::find_byte;
use crate::grammar::find_byte_before;
use crate::grammar::find_sep2;
use crate::grammar::find_split;
use crate::grammar::grouped_run_end;
use crate::grammar::hspace_run_end;
use crate::grammar::is_alpha;
use crate::grammar::is_date_sep;
use crate::grammar::is_digit;
use crate::grammar::is_exp_mark;
use crate::grammar::is_grouped_digit;
use crate::grammar::is_hspace;
use crate::grammar::is_line_break;
use crate::grammar::is_sign;
use crate::grammar::line_end;
use crate::grammar::span_digit_count;
use crate::grammar::span_digits_value;
use crate::grammar::span_has_exp;
use crate::grammar::spec_decimal_of;
use crate::types::dec_wf;
use crate::types::lemma_dec_normalize;
use crate::types::normalize_parts;
use crate::types::DecimalValue;
use crate::types::MANTISSA_LIMIT;
use crate::types::MAX_SCALE;

verus! {

pub(crate) fn is_digit_byte(c: u8) -> (r: bool)
    ensures
        r == is_digit(c),
{
    0x30 <= c && c <= 0x39
}

pub(crate) fn is_alpha_byte(c: u8) -> (r: bool)
    ensures
        r == is_alpha(c),
{
    (0x41 <= c && c <= 0x5a) || (0x61 <= c && c <= 0x7a)
}

pub(crate) fn is_hspace_byte(c: u8) -> (r: bool)
    ensures
        r == is_hspace(c),
{
    c == 0x20 || c == 0x09
}

pub(crate) fn is_grouped_byte(c: u8) -> (r: bool)
    ensures
        r == is_grouped_digit(c),
{
    (0x30 <= c && c <= 0x39) || c == 0x5f
}

pub(crate) fn is_date_sep_byte(c: u8) -> (r: bool)
    ensures
        r == is_date_sep(c),
{
    c == 0x2d || c == 0x2f
}

pub(crate) fn is_line_break_byte(c: u8) -> (r: bool)
    ensures
        r == is_line_break(c),
{
    c == 0x0a || c == 0x0d
}

pub(crate) fn is_exp_byte(c: u8) -> (r: bool)
    ensures
        r == is_exp_mark(c),
{
    c == 0x65 || c == 0x45
}

pub(crate) fn is_sign_byte(c: u8) -> (r: bool)
    ensures
        r == is_sign(c),
{
    c == 0x2b || c == 0x2d
}

/// Scans the maximal digit run starting at `i`.
pub(crate) fn scan_digits(s: &[u8], i: usize) -> (r: usize)
    requires
        i <= s@.len(),
    ensures
        r as int == digit_run_end(s@, i as int),
        i <= r <= s@.len(),
{
    let mut j: usize = i;
    while j < s.len() && is_digit_byte(s[j])
        invariant
            i <= j <= s@.len(),
            digit_run_end(s@, i as int) == digit_run_end(s@, j as int),
        decreases s@.len() - j,
    {
        j = j + 1;
    }
    j
}

/// Scans the maximal run of digits and grouping separators starting at `i`.
pub(crate) fn scan_grouped(s: &[u8], i: usize) -> (r: usize)
    requires
        i <= s@.len(),
    ensures
        r as int == grouped_run_end(s@, i as int),
        i <= r <= s@.len(),
{
    let mut j: usize = i;
    while j < s.len() && is_grouped_byte(s[j])
        invariant
            i <= j <= s@.len(),
            grouped_run_end(s@, i as int) == grouped_run_end(s@, j as int),
        decreases s@.len() - j,
    {
        j = j + 1;
    }
    j
}

/// Scans the maximal alphabetic run starting at `i`.
pub(crate) fn scan_alpha(s: &[u8], i: usize) -> (r: usize)
    requires
        i <= s@.len(),
    ensures
        r as int == alpha_run_end(s@, i as int),
        i <= r <= s@.len(),
{
    let mut j: usize = i;
    while j < s.len() && is_alpha_byte(s[j])
        invariant
            i <= j <= s@.len(),
            alpha_run_end(s@, i as int) == alpha_run_end(s@, j as int),
        decreases s@.len() - j,
    {
        j = j + 1;
    }
    j
}

/// Scans the maximal horizontal-whitespace run starting at `i`.
pub(crate) fn scan_hspace(s: &[u8], i: usize) -> (r: usize)
    requires
        i <= s@.len(),
    ensures
        r as int == hspace_run_end(s@, i as int),
        i <= r <= s@.len(),
{
    let mut j: usize = i;
    while j < s.len() && is_hspace_byte(s[j])
        invariant
            i <= j <= s@.len(),
            hspace_run_end(s@, i as int) == hspace_run_end(s@, j as int),
        decreases s@.len() - j,
    {
        j = j + 1;
    }
    j
}

/// Scans to the end of the line containing `i`.
pub(crate) fn scan_line(s: &[u8], i: usize) -> (r: usize)
    requires
        i <= s@.len(),
    ensures
        r as int == line_end(s@, i as int),
        i <= r <= s@.len(),
{
    let mut j: usize = i;
    while j < s.len() && !is_line_break_byte(s[j])
        invariant
            i <= j <= s@.len(),
            line_end(s@, i as int) == line_end(s@, j as int),
        decreases s@.len() - j,
    {
        j = j + 1;
    }
    j
}

/// Finds the first occurrence of `b` at or after `i`, or the end of input.
pub(crate) fn find_byte_at(s: &[u8], i: usize, b: u8) -> (r: usize)
    requires
        i <= s@.len(),
    ensures
        r as int == find_byte(s@, i as int, b),
        i <= r <= s@.len(),
{
    let mut j: usize = i;
    while j < s.len()
        invariant
            i <= j <= s@.len(),
            find_byte(s@, i as int, b) == find_byte(s@, j as int, b),
        decreases s@.len() - j,
    {
        if s[j] == b {
            return j;
        }
        j = j + 1;
    }
    j
}

/// Finds the first occurrence of `b` in `[i, j)`, or `j`.
pub(crate) fn find_byte_in(s: &[u8], i: usize, j: usize, b: u8) -> (r: usize)
    requires
        i <= j <= s@.len(),
    ensures
        r as int == find_byte_before(s@, i as int, j as int, b),
        i <= r <= j,
{
    let mut k: usize = i;
    while k < j
        invariant
            i <= k <= j <= s@.len(),
            find_byte_before(s@, i as int, j as int, b) == find_byte_before(
                s@,
                k as int,
                j as int,
                b,
            ),
        decreases j - k,
    {
        if s[k] == b {
            return k;
        }
        k = k + 1;
    }
    k
}

/// Finds where the posting separator — a space followed by further
/// horizontal whitespace — first begins in `[i, le)`, or yields `le`.
pub(crate) fn find_sep2_at(s: &[u8], i: usize, le: usize) -> (r: usize)
    requires
        i <= le <= s@.len(),
    ensures
        r as int == find_sep2(s@, i as int, le as int),
        i <= r <= le,
{
    let mut k: usize = i;
    while le - k >= 2
        invariant
            i <= k <= le <= s@.len(),
            find_sep2(s@, i as int, le as int) == find_sep2(s@, k as int, le as int),
        decreases le - k,
    {
        if s[k] == 0x20 && is_hspace_byte(s[k + 1]) {
            return k;
        }
        k = k + 1;
    }
    le
}

/// Finds where the three-byte description delimiter first begins in
/// `[i, le)`, or yields `le`.
pub(crate) fn find_split_at(s: &[u8], i: usize, le: usize) -> (r: usize)
    requires
        i <= le <= s@.len(),
    ensures
        r as int == find_split(s@, i as int, le as int),
        i <= r <= le,
        r < le ==> r + 3 <= le,
{
    let mut k: usize = i;
    while le - k >= 3
        invariant
            i <= k <= le <= s@.len(),
            find_split(s@, i as int, le as int) == find_split(s@, k as int, le as int),
        decreases le - k,
    {
        if s[k] == 0x20 && s[k + 1] == 0x7c && s[k + 2] == 0x20 {
            return k;
        }
        k = k + 1;
    }
    le
}

/// Copies the bytes of `[i, j)` into an owned vector.
pub(crate) fn sub_vec(s: &[u8], i: usize, j: usize) -> (v: Vec<u8>)
    requires
        i <= j <= s@.len(),
    ensures
        v@ == s@.subrange(i as int, j as int),
{
    let mut v: Vec<u8> = Vec::new();
    let mut k: usize = i;
    while k < j
        invariant
            i <= k <= j <= s@.len(),
            v@ == s@.subrange(i as int, k as int),
        decreases j - k,
    {
        v.push(s[k]);
        proof {
            assert(s@.subrange(i as int, k + 1 as int) =~= s@.subrange(i as int, k as int).push(
                s@[k as int],
            ));
        }
        k = k + 1;
    }
    v
}

/// The base-10 value of the digit run `[i, j)`, or `None` when it is over
/// `u32::MAX`.
pub(crate) fn span_value_u32(s: &[u8], i: usize, j: usize) -> (r: Option<u32>)
    requires
        i <= j <= s@.len(),
    ensures
        (match r {
            Some(v) => v as nat == span_digits_value(s@, i as int, j as int),
            None => span_digits_value(s@, i as int, j as int) > u32::MAX,
        }),
{
    let mut acc: u64 = 0;
    let mut over: bool = false;
    let mut k: usize = i;
    while k < j
        invariant
            i <= k <= j <= s@.len(),
            !over ==> acc as nat == span_digits_value(s@, i as int, k as int) && acc <= u32::MAX,
            over ==> span_digits_value(s@, i as int, k as int) > u32::MAX,
        decreases j - k,
    {
        let c = s[k];
        if is_digit_byte(c) {
            if !over {
                let nv: u64 = acc * 10 + ((c - 0x30) as u64);
                if nv > (u32::MAX as u64) {
                    over = true;
                } else {
                    acc = nv;
                }
            }
        }
        k = k + 1;
    }
    if over {
        None
    } else {
        Some(acc as u32)
    }
}

/// The mantissa of the span `[i, j)`: its digits read in order, other bytes
/// skipped. `None` when the mantissa reaches the precision bound.
pub(crate) fn span_mantissa(s: &[u8], i: usize, j: usize) -> (r: Option<u128>)
    requires
        i <= j <= s@.len(),
    ensures
        (match r {
            Some(m) => m as nat == span_digits_value(s@, i as int, j as int) && m
                < MANTISSA_LIMIT,
            None => span_digits_value(s@, i as int, j as int) >= MANTISSA_LIMIT,
        }),
{
    let mut acc: u128 = 0;
    let mut over: bool = false;
    let mut k: usize = i;
    while k < j
        invariant
            i <= k <= j <= s@.len(),
            !over ==> acc as nat == span_digits_value(s@, i as int, k as int) && acc
                < MANTISSA_LIMIT,
            over ==> span_digits_value(s@, i as int, k as int) >= MANTISSA_LIMIT,
        decreases j - k,
    {
        let c = s[k];
        if is_digit_byte(c) {
            if !over {
                let nv: u128 = acc * 10 + ((c - 0x30) as u128);
                if nv >= MANTISSA_LIMIT {
                    over = true;
                } else {
                    acc = nv;
                }
            }
        }
        k = k + 1;
    }
    if over {
        None
    } else {
        Some(acc)
    }
}

/// How many digits `[i, j)` holds.
pub(crate) fn count_digits(s: &[u8], i: usize, j: usize) -> (r: usize)
    requires
        i <= j <= s@.len(),
    ensures
        r as nat == span_digit_count(s@, i as int, j as int),
{
    let mut cnt: usize = 0;
    let mut k: usize = i;
    while k < j
        invariant
            i <= k <= j <= s@.len(),
            cnt as nat == span_digit_count(s@, i as int, k as int),
            cnt <= k - i,
        decreases j - k,
    {
        if is_digit_byte(s[k]) {
            cnt = cnt + 1;
        }
        k = k + 1;
    }
    cnt
}

/// Whether `[i, j)` holds an exponent marker.
pub(crate) fn span_exp(s: &[u8], i: usize, j: usize) -> (r: bool)
    requires
        i <= j <= s@.len(),
    ensures
        r == span_has_exp(s@, i as int, j as int),
{
    let mut k: usize = i;
    while k < j
        invariant
            i <= k <= j <= s@.len(),
            forall|t: int| i <= t < k ==> !is_exp_mark(#[trigger] s@[t]),
        decreases j - k,
    {
        if is_exp_byte(s[k]) {
            assert(span_has_exp(s@, i as int, j as int));
            return true;
        }
        k = k + 1;
    }
    false
}

/// Scans an exponent part at `j`: marker, optional sign, mandatory digit
/// run.
pub(crate) fn exponent_at(s: &[u8], j: usize) -> (r: Option<usize>)
    requires
        j <= s@.len(),
    ensures
        (match r {
            Some(k) => exponent_end(s@, j as int) == Some(k as int) && j <= k <= s@.len(),
            None => exponent_end(s@, j as int).is_none(),
        }),
{
    if j < s.len() && is_exp_byte(s[j]) {
        let k: usize = if j + 1 < s.len() && is_sign_byte(s[j + 1]) {
            j + 2
        } else {
            j + 1
        };
        if k < s.len() && is_digit_byte(s[k]) {
            Some(scan_grouped(s, k))
        } else {
            None
        }
    } else {
        None
    }
}

/// Converts a matched numeric span to its canonical exact decimal value, as
/// [`spec_decimal_of`] defines; `None` is a conversion failure.
pub(crate) fn decimal_of(s: &[u8], i: usize, j: usize) -> (r: Option<DecimalValue>)
    requires
        i <= j <= s@.len(),
    ensures
        r == spec_decimal_of(s@, i as int, j as int),
        (match r {
            Some(v) => dec_wf(v),
            None => true,
        }),
{
    if span_exp(s, i, j) {
        return None;
    }
    let m: u128 = match span_mantissa(s, i, j) {
        Some(m) => m,
        None => {
            return None;
        },
    };
    let dot = find_byte_in(s, i, j, 0x2e);
    let sc: usize = if dot < j {
        count_digits(s, dot + 1, j)
    } else {
        0
    };
    if sc > MAX_SCALE as usize {
        return None;
    }
    let parts = normalize_parts(m, sc as u32);
    proof {
        lemma_dec_normalize(m as nat, sc as nat);
    }
    Some(DecimalValue { mantissa: parts.0, scale: parts.1 })
}

} // verus!
