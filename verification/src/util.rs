//! The lexical sub-grammar: numeric literal shapes, digit runs with
//! grouping separators, and the two-or-more-space separator.

use vstd::prelude::*;

use crate::grammar::digit_run_at;
use crate::grammar::float_end;
use crate::grammar::grouped_run_end;
use crate::grammar::spec_space2;
use crate::scan::exponent_at;
use crate::scan::is_digit_byte;
use crate::scan::is_hspace_byte;
use crate::scan::scan_grouped;
use crate::scan::scan_hspace;
use crate::types::ParseError;

verus! {

/// Recognizes one numeric literal at `i`, without evaluating it, and
/// returns where it ends; the matched span is `[i, end)` and keeps any `_`
/// grouping separators. Exactly the three shapes of [`float_end`] are
/// accepted: `.42`-like, `42E42`/`42.42E42`-like, and `42.`/`42.42`-like.
/// Plain integers do not match.
pub fn float(s: &[u8], i: usize) -> (r: Result<usize, ParseError>)
    requires
        i <= s@.len(),
    ensures
        (match r {
            Ok(j) => float_end(s@, i as int) == Some(j as int) && i <= j <= s@.len(),
            Err(e) => float_end(s@, i as int).is_none() && e == ParseError::TokenMismatch,
        }),
{
    if i < s.len() && s[i] == 0x2e && i + 1 < s.len() && is_digit_byte(s[i + 1]) {
        // Leading-dot shape.
        let j = scan_grouped(s, i + 1);
        match exponent_at(s, j) {
            Some(k) => Ok(k),
            None => Ok(j),
        }
    } else if i < s.len() && is_digit_byte(s[i]) {
        let j = scan_grouped(s, i);
        // Exponent shape, with its optional fraction.
        let j2: usize = if j < s.len() && s[j] == 0x2e && j + 1 < s.len() && is_digit_byte(
            s[j + 1],
        ) {
            scan_grouped(s, j + 1)
        } else {
            j
        };
        match exponent_at(s, j2) {
            Some(k) => Ok(k),
            None => {
                // Dot shape.
                if j < s.len() && s[j] == 0x2e {
                    if j + 1 < s.len() && is_digit_byte(s[j + 1]) {
                        Ok(scan_grouped(s, j + 1))
                    } else {
                        Ok(j + 1)
                    }
                } else {
                    Err(ParseError::TokenMismatch)
                }
            },
        }
    } else {
        Err(ParseError::TokenMismatch)
    }
}

/// Recognizes a digit run at `i` — one or more decimal digits, each
/// optionally followed by `_` grouping separators, which the matched span
/// keeps — and returns where it ends.
pub fn decimal(s: &[u8], i: usize) -> (r: Result<usize, ParseError>)
    requires
        i <= s@.len(),
    ensures
        (match r {
            Ok(j) => digit_run_at(s@, i as int) && j as int == grouped_run_end(s@, i as int) && i
                <= j <= s@.len(),
            Err(e) => !digit_run_at(s@, i as int) && e == ParseError::TokenMismatch,
        }),
{
    if i < s.len() && is_digit_byte(s[i]) {
        Ok(scan_grouped(s, i))
    } else {
        Err(ParseError::TokenMismatch)
    }
}

/// Recognizes the posting separator: a space followed by at least one more
/// space or tab; the whole horizontal-whitespace run is consumed and its
/// end returned.
pub fn space2(s: &[u8], i: usize) -> (r: Result<usize, ParseError>)
    requires
        i <= s@.len(),
    ensures
        (match r {
            Ok(j) => spec_space2(s@, i as int) == Ok::<int, ParseError>(j as int) && i <= j
                <= s@.len(),
            Err(e) => spec_space2(s@, i as int) == Err::<int, ParseError>(e),
        }),
{
    if i < s.len() && s[i] == 0x20 && i + 1 < s.len() && is_hspace_byte(s[i + 1]) {
        Ok(scan_hspace(s, i))
    } else {
        Err(ParseError::TokenMismatch)
    }
}

} // verus!
