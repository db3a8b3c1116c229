//! Laws of the grammar, proved once and for all inputs: acceptance of every
//! valid calendar date, rejection of every invalid one, that the
//! description delimiter never stands inside a parsed merchant, and that an
//! empty remainder yields no further transaction.

use vstd::prelude::*;

use crate::grammar::find_split;
use crate::grammar::is_date_sep;
use crate::grammar::is_digit;
use crate::grammar::lemma_digit_run_is;
use crate::grammar::lemma_find_split_first;
use crate::grammar::lemma_line_end;
use crate::grammar::line_end;
use crate::grammar::span_digits_value;
use crate::grammar::spec_date;
use crate::grammar::spec_description;
use crate::grammar::spec_transaction;
use crate::types::valid_date;
use crate::types::CalendarDate;
use crate::types::ParseError;
use crate::types::TransactionView;

verus! {

/// Date acceptance: every input that starts with three digit runs joined by
/// two separators, each drawn independently from `-` and `/`, whose values
/// form a valid calendar date (with the year within `u32`), is accepted by
/// the date rule and yields exactly that calendar date, whatever the digit
/// widths and whether or not the two separators match.
pub proof fn lemma_date_acceptance(
    s: Seq<u8>,
    i: int,
    ye: int,
    me: int,
    de: int,
    y: int,
    m: int,
    d: int,
)
    requires
        0 <= i < ye,
        ye + 1 < me,
        me + 1 < de,
        de <= s.len(),
        forall|k: int| i <= k < ye ==> is_digit(#[trigger] s[k]),
        is_date_sep(s[ye]),
        forall|k: int| ye + 1 <= k < me ==> is_digit(#[trigger] s[k]),
        is_date_sep(s[me]),
        forall|k: int| me + 1 <= k < de ==> is_digit(#[trigger] s[k]),
        de == s.len() || !is_digit(s[de]),
        span_digits_value(s, i, ye) == y,
        span_digits_value(s, ye + 1, me) == m,
        span_digits_value(s, me + 1, de) == d,
        y <= u32::MAX,
        valid_date(y, m, d),
    ensures
        spec_date(s, i) == Ok::<(int, CalendarDate), ParseError>(
            ((de, CalendarDate { year: y as u32, month: m as u32, day: d as u32 })),
        ),
{
    lemma_digit_run_is(s, i, ye);
    lemma_digit_run_is(s, ye + 1, me);
    lemma_digit_run_is(s, me + 1, de);
}

/// Invalid date rejection: an input of the same syntactic shape whose
/// values do not form a real calendar date is rejected with the
/// invalid-calendar-date failure — an ordinary failure value, never a
/// crash.
pub proof fn lemma_invalid_date_rejection(
    s: Seq<u8>,
    i: int,
    ye: int,
    me: int,
    de: int,
    y: int,
    m: int,
    d: int,
)
    requires
        0 <= i < ye,
        ye + 1 < me,
        me + 1 < de,
        de <= s.len(),
        forall|k: int| i <= k < ye ==> is_digit(#[trigger] s[k]),
        is_date_sep(s[ye]),
        forall|k: int| ye + 1 <= k < me ==> is_digit(#[trigger] s[k]),
        is_date_sep(s[me]),
        forall|k: int| me + 1 <= k < de ==> is_digit(#[trigger] s[k]),
        de == s.len() || !is_digit(s[de]),
        span_digits_value(s, i, ye) == y,
        span_digits_value(s, ye + 1, me) == m,
        span_digits_value(s, me + 1, de) == d,
        y <= u32::MAX,
        m <= u32::MAX,
        d <= u32::MAX,
        !valid_date(y, m, d),
    ensures
        spec_date(s, i) == Err::<(int, CalendarDate), ParseError>(ParseError::InvalidCalendarDate),
{
    lemma_digit_run_is(s, i, ye);
    lemma_digit_run_is(s, ye + 1, me);
    lemma_digit_run_is(s, me + 1, de);
}

/// The description split is at the first occurrence of the three-byte
/// delimiter, space `|` space, so the delimiter can never appear as literal
/// content inside a parsed merchant — an inherent limit of this grammar.
pub proof fn lemma_merchant_holds_no_delimiter(s: Seq<u8>, i: int)
    requires
        0 <= i <= s.len(),
        spec_description(s, i).1 is Some,
    ensures
        (forall|t: int|
            0 <= t && t + 3 <= spec_description(s, i).1->Some_0.len() ==> !(#[trigger] spec_description(
                s,
                i,
            ).1->Some_0[t] == 0x20 && spec_description(s, i).1->Some_0[t + 1] == 0x7c
                && spec_description(s, i).1->Some_0[t + 2] == 0x20)),
{
    lemma_line_end(s, i);
    let le = line_end(s, i);
    lemma_find_split_first(s, i, le);
    let j = find_split(s, i, le);
    let m = spec_description(s, i).1->Some_0;
    assert(m == s.subrange(i, j));
    assert forall|t: int| 0 <= t && t + 3 <= m.len() implies !(#[trigger] m[t] == 0x20 && m[t + 1]
        == 0x7c && m[t + 2] == 0x20) by {
        assert(m[t] == s[i + t]);
        assert(m[t + 1] == s[i + t + 1]);
        assert(m[t + 2] == s[i + t + 2]);
        assert(i <= i + t < j && (i + t) + 3 <= le);
    }
}

/// Idempotence at the end of input: when a successful parse leaves an empty
/// remainder, re-parsing that remainder yields no further transaction — it
/// fails with a token mismatch, and parsing is deterministic, so nothing
/// ever resolves differently on a second try.
pub proof fn lemma_empty_remainder_no_transaction(s: Seq<u8>, i: int)
    requires
        0 <= i,
        i == s.len(),
    ensures
        spec_transaction(s, i) == Err::<(int, TransactionView), ParseError>(
            ParseError::TokenMismatch,
        ),
{
}

} // verus!
