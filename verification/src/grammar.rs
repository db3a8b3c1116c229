//! The grammar itself, as spec functions over byte sequences.
//!
//! Every rule is a total function from an input and a position to either the
//! position of the unconsumed remainder plus the parsed value, or a failure;
//! a rule that fails consumes nothing. The executable parsers are proved to
//! return exactly what these functions say.

use vstd::prelude::*;

use crate::types::dec_normalize;
use crate::types::dec_wf;
use crate::types::valid_date;
use crate::types::AmountView;
use crate::types::CalendarDate;
use crate::types::DecimalValue;
use crate::types::ParseError;
use crate::types::PostingView;
use crate::types::TransactionState;
use crate::types::TransactionView;
use crate::types::MANTISSA_LIMIT;
use crate::types::MAX_SCALE;

verus! {

// ---------------------------------------------------------------------------
// Byte classes
// ---------------------------------------------------------------------------
/// An ASCII decimal digit.
pub open spec fn is_digit(c: u8) -> bool {
    0x30 <= c <= 0x39
}

/// An ASCII letter; currency symbols are runs of these.
pub open spec fn is_alpha(c: u8) -> bool {
    (0x41 <= c <= 0x5a) || (0x61 <= c <= 0x7a)
}

/// Horizontal whitespace: a space or a tab.
pub open spec fn is_hspace(c: u8) -> bool {
    c == 0x20 || c == 0x09
}

/// A digit or a `_` grouping separator; numeric-literal digit runs are made
/// of these.
pub open spec fn is_grouped_digit(c: u8) -> bool {
    is_digit(c) || c == 0x5f
}

/// A date separator: `-` or `/`. The two separators of one date need not
/// match each other; that quirk is part of the grammar.
pub open spec fn is_date_sep(c: u8) -> bool {
    c == 0x2d || c == 0x2f
}

/// A byte that ends a line's content: `\r` or `\n`.
pub open spec fn is_line_break(c: u8) -> bool {
    c == 0x0a || c == 0x0d
}

/// An exponent marker: `e` or `E`.
pub open spec fn is_exp_mark(c: u8) -> bool {
    c == 0x65 || c == 0x45
}

/// An exponent sign: `+` or `-`.
pub open spec fn is_sign(c: u8) -> bool {
    c == 0x2b || c == 0x2d
}

// ---------------------------------------------------------------------------
// Maximal runs and searches
// ---------------------------------------------------------------------------
/// The end of the maximal run of bytes satisfying `p`, starting at `i`.
pub open spec fn run_end(s: Seq<u8>, i: int, p: spec_fn(u8) -> bool) -> int
    decreases s.len() - i,
        when 0 <= i <= s.len()
{
    if i < s.len() && p(s[i]) {
        run_end(s, i + 1, p)
    } else {
        i
    }
}

/// The end of the maximal run of digits starting at `i`.
pub open spec fn digit_run_end(s: Seq<u8>, i: int) -> int {
    run_end(s, i, |c: u8| is_digit(c))
}

/// A (non-empty) digit run begins at `i`.
pub open spec fn digit_run_at(s: Seq<u8>, i: int) -> bool {
    0 <= i < s.len() && is_digit(s[i])
}

/// The end of the maximal run of digits and grouping separators at `i`.
pub open spec fn grouped_run_end(s: Seq<u8>, i: int) -> int {
    run_end(s, i, |c: u8| is_grouped_digit(c))
}

/// The end of the maximal alphabetic run at `i`.
pub open spec fn alpha_run_end(s: Seq<u8>, i: int) -> int {
    run_end(s, i, |c: u8| is_alpha(c))
}

/// A (non-empty) alphabetic run begins at `i`.
pub open spec fn alpha_run_at(s: Seq<u8>, i: int) -> bool {
    0 <= i < s.len() && is_alpha(s[i])
}

/// The end of the maximal horizontal-whitespace run at `i`.
pub open spec fn hspace_run_end(s: Seq<u8>, i: int) -> int {
    run_end(s, i, |c: u8| is_hspace(c))
}

/// Where the line containing position `i` ends: the first `\r` or `\n` at or
/// after `i`, or the end of input.
pub open spec fn line_end(s: Seq<u8>, i: int) -> int {
    run_end(s, i, |c: u8| !is_line_break(c))
}

/// A digit span that a non-digit (or the end of input) follows is exactly
/// the maximal digit run.
pub proof fn lemma_digit_run_is(s: Seq<u8>, i: int, j: int)
    requires
        0 <= i <= j <= s.len(),
        forall|k: int| i <= k < j ==> is_digit(#[trigger] s[k]),
        j == s.len() || !is_digit(s[j]),
    ensures
        digit_run_end(s, i) == j,
    decreases j - i,
{
    if i < j {
        lemma_digit_run_is(s, i + 1, j);
    }
}

/// A maximal alphabetic run lies within the input, holds only letters, and
/// is non-empty wherever a letter stands at its start.
pub proof fn lemma_alpha_run(s: Seq<u8>, i: int)
    requires
        0 <= i <= s.len(),
    ensures
        i <= alpha_run_end(s, i) <= s.len(),
        forall|k: int| i <= k < alpha_run_end(s, i) ==> is_alpha(#[trigger] s[k]),
        alpha_run_at(s, i) ==> alpha_run_end(s, i) > i,
    decreases s.len() - i,
{
    if i < s.len() && is_alpha(s[i]) {
        lemma_alpha_run(s, i + 1);
    }
}

/// As [`lemma_alpha_run`], for horizontal-whitespace runs, with the byte
/// after the run known not to be whitespace.
pub proof fn lemma_hspace_run(s: Seq<u8>, i: int)
    requires
        0 <= i <= s.len(),
    ensures
        i <= hspace_run_end(s, i) <= s.len(),
        forall|k: int| i <= k < hspace_run_end(s, i) ==> is_hspace(#[trigger] s[k]),
        hspace_run_end(s, i) < s.len() ==> !is_hspace(s[hspace_run_end(s, i)]),
    decreases s.len() - i,
{
    if i < s.len() && is_hspace(s[i]) {
        lemma_hspace_run(s, i + 1);
    }
}

/// A line's content lies within the input, holds no line break, and what
/// follows it (if anything) is one.
pub proof fn lemma_line_end(s: Seq<u8>, i: int)
    requires
        0 <= i <= s.len(),
    ensures
        i <= line_end(s, i) <= s.len(),
        forall|k: int| i <= k < line_end(s, i) ==> !is_line_break(#[trigger] s[k]),
        line_end(s, i) < s.len() ==> is_line_break(s[line_end(s, i)]),
    decreases s.len() - i,
{
    if i < s.len() && !is_line_break(s[i]) {
        lemma_line_end(s, i + 1);
    }
}

/// A horizontal-whitespace run never crosses the end of its line.
pub proof fn lemma_hspace_within_line(s: Seq<u8>, i: int)
    requires
        0 <= i <= s.len(),
    ensures
        hspace_run_end(s, i) <= line_end(s, i),
{
    lemma_hspace_run(s, i);
    lemma_line_end(s, i);
}

/// The first position in `[i, s.len())` holding byte `b`, or `s.len()`.
pub open spec fn find_byte(s: Seq<u8>, i: int, b: u8) -> int
    decreases s.len() - i,
        when 0 <= i <= s.len()
{
    if i >= s.len() {
        i
    } else if s[i] == b {
        i
    } else {
        find_byte(s, i + 1, b)
    }
}

/// The first position in `[i, j)` holding byte `b`, or `j`.
pub open spec fn find_byte_before(s: Seq<u8>, i: int, j: int, b: u8) -> int
    decreases j - i,
        when 0 <= i <= j <= s.len()
{
    if i >= j {
        j
    } else if s[i] == b {
        i
    } else {
        find_byte_before(s, i + 1, j, b)
    }
}

/// The first position in `[i, le)` where a posting's account/amount
/// separator begins: a space followed by further horizontal whitespace.
/// Yields `le` when there is none.
pub open spec fn find_sep2(s: Seq<u8>, i: int, le: int) -> int
    decreases le - i,
        when 0 <= i <= le <= s.len()
{
    if i + 1 >= le {
        le
    } else if s[i] == 0x20 && is_hspace(s[i + 1]) {
        i
    } else {
        find_sep2(s, i + 1, le)
    }
}

/// The first position in `[i, le)` where the three-byte description
/// delimiter, space `|` space, begins. Yields `le` when there is none.
pub open spec fn find_split(s: Seq<u8>, i: int, le: int) -> int
    decreases le - i,
        when 0 <= i <= le <= s.len()
{
    if i + 3 > le {
        le
    } else if s[i] == 0x20 && s[i + 1] == 0x7c && s[i + 2] == 0x20 {
        i
    } else {
        find_split(s, i + 1, le)
    }
}

/// The split search stays in `[i, le]` and skips no earlier occurrence of
/// the delimiter.
pub proof fn lemma_find_split_first(s: Seq<u8>, i: int, le: int)
    requires
        0 <= i <= le <= s.len(),
    ensures
        i <= find_split(s, i, le) <= le,
        forall|k: int|
            i <= k < find_split(s, i, le) && k + 3 <= le ==> !(#[trigger] s[k] == 0x20 && s[k + 1]
                == 0x7c && s[k + 2] == 0x20),
    decreases le - i,
{
    if i + 3 <= le && !(s[i] == 0x20 && s[i + 1] == 0x7c && s[i + 2] == 0x20) {
        lemma_find_split_first(s, i + 1, le);
    }
}

// ---------------------------------------------------------------------------
// Digit spans and their values
// ---------------------------------------------------------------------------
/// The base-10 value of the digits in `[i, j)`, read left to right; bytes
/// that are not digits (grouping separators, a decimal point) are skipped.
pub open spec fn span_digits_value(s: Seq<u8>, i: int, j: int) -> nat
    decreases j - i,
        when i <= j
{
    if j <= i {
        0
    } else if is_digit(s[j - 1]) {
        span_digits_value(s, i, j - 1) * 10 + (s[j - 1] - 0x30) as nat
    } else {
        span_digits_value(s, i, j - 1)
    }
}

/// How many digits `[i, j)` holds.
pub open spec fn span_digit_count(s: Seq<u8>, i: int, j: int) -> nat
    decreases j - i,
        when i <= j
{
    if j <= i {
        0
    } else if is_digit(s[j - 1]) {
        span_digit_count(s, i, j - 1) + 1
    } else {
        span_digit_count(s, i, j - 1)
    }
}

/// Some byte of `[i, j)` is an exponent marker.
pub open spec fn span_has_exp(s: Seq<u8>, i: int, j: int) -> bool {
    exists|k: int| i <= k < j && is_exp_mark(#[trigger] s[k])
}

/// Converts a matched numeric span to an exact decimal value: the digits,
/// with grouping separators stripped, form the mantissa, and the digits
/// after the decimal point (if one is present) set the scale; the result is
/// canonicalized. Yields `None` — a conversion failure — when the span
/// carries an exponent marker or is over the precision bounds.
pub open spec fn spec_decimal_of(s: Seq<u8>, i: int, j: int) -> Option<DecimalValue> {
    if span_has_exp(s, i, j) {
        None
    } else {
        let m = span_digits_value(s, i, j);
        let dot = find_byte_before(s, i, j, 0x2e);
        let sc = if dot < j {
            span_digit_count(s, dot + 1, j)
        } else {
            0
        };
        if m >= MANTISSA_LIMIT || sc > MAX_SCALE {
            None
        } else {
            let p = dec_normalize(m, sc);
            Some(DecimalValue { mantissa: p.0 as u128, scale: p.1 as u32 })
        }
    }
}

/// The invariant of every parsed amount: a non-empty, purely alphabetic
/// currency symbol, and a well-formed exact decimal value.
pub open spec fn amount_wf(a: AmountView) -> bool {
    a.currency.len() > 0 && (forall|k: int|
        0 <= k < a.currency.len() ==> is_alpha(#[trigger] a.currency[k])) && dec_wf(a.amount)
}

// ---------------------------------------------------------------------------
// The numeric literal lexer
// ---------------------------------------------------------------------------
/// The end of an exponent part at `j`: a marker, an optional sign, then a
/// mandatory digit run. `None` when no well-formed exponent starts at `j`.
pub open spec fn exponent_end(s: Seq<u8>, j: int) -> Option<int> {
    if 0 <= j < s.len() && is_exp_mark(s[j]) {
        let k = if j + 1 < s.len() && is_sign(s[j + 1]) {
            j + 2
        } else {
            j + 1
        };
        if digit_run_at(s, k) {
            Some(grouped_run_end(s, k))
        } else {
            None
        }
    } else {
        None
    }
}

/// Leading-dot shape: `.` digit-run, then an optional exponent.
pub open spec fn float_leading_dot_end(s: Seq<u8>, i: int) -> Option<int> {
    if 0 <= i < s.len() && s[i] == 0x2e && digit_run_at(s, i + 1) {
        let j = grouped_run_end(s, i + 1);
        match exponent_end(s, j) {
            Some(k) => Some(k),
            None => Some(j),
        }
    } else {
        None
    }
}

/// Exponent shape: digit-run, optional `.` digit-run, then a mandatory
/// exponent.
pub open spec fn float_exponent_form_end(s: Seq<u8>, i: int) -> Option<int> {
    if digit_run_at(s, i) {
        let j = grouped_run_end(s, i);
        let j2 = if j < s.len() && s[j] == 0x2e && digit_run_at(s, j + 1) {
            grouped_run_end(s, j + 1)
        } else {
            j
        };
        exponent_end(s, j2)
    } else {
        None
    }
}

/// Dot shape: digit-run, `.`, then an optional further digit-run. A bare
/// trailing dot (`42.`) is a valid literal under this grammar.
pub open spec fn float_dot_form_end(s: Seq<u8>, i: int) -> Option<int> {
    if digit_run_at(s, i) {
        let j = grouped_run_end(s, i);
        if j < s.len() && s[j] == 0x2e {
            if digit_run_at(s, j + 1) {
                Some(grouped_run_end(s, j + 1))
            } else {
                Some(j + 1)
            }
        } else {
            None
        }
    } else {
        None
    }
}

/// Where the numeric literal starting at `i` ends, or `None` when none of
/// the three shapes matches. The shapes are tried in order and the first
/// match wins; digit runs may carry `_` grouping separators, which the
/// matched span keeps. Plain integers (no dot, no exponent) do not match.
pub open spec fn float_end(s: Seq<u8>, i: int) -> Option<int> {
    if float_leading_dot_end(s, i).is_some() {
        float_leading_dot_end(s, i)
    } else if float_exponent_form_end(s, i).is_some() {
        float_exponent_form_end(s, i)
    } else {
        float_dot_form_end(s, i)
    }
}

// ---------------------------------------------------------------------------
// The component rules
// ---------------------------------------------------------------------------
/// `space2`: a space followed by at least one further space or tab; the
/// whole horizontal-whitespace run is consumed.
pub open spec fn spec_space2(s: Seq<u8>, i: int) -> Result<int, ParseError> {
    if 0 <= i && i + 1 < s.len() && s[i] == 0x20 && is_hspace(s[i + 1]) {
        Ok(hspace_run_end(s, i))
    } else {
        Err(ParseError::TokenMismatch)
    }
}

/// The clearance-state rule: `*` is Cleared, `!` is Pending, anything else
/// (or the end of input) consumes nothing and is Uncleared. It never fails.
pub open spec fn spec_state(s: Seq<u8>, i: int) -> (int, TransactionState) {
    if 0 <= i < s.len() && s[i] == 0x2a {
        (i + 1, TransactionState::Cleared)
    } else if 0 <= i < s.len() && s[i] == 0x21 {
        (i + 1, TransactionState::Pending)
    } else {
        (i, TransactionState::Uncleared)
    }
}

/// The date rule: digit-run, separator, digit-run, separator, digit-run,
/// the runs giving year, month and day. A run whose value is over `u32` is
/// a numeric conversion failure; a triple that is not a real calendar date
/// is an invalid-calendar-date failure, not a crash.
pub open spec fn spec_date(s: Seq<u8>, i: int) -> Result<(int, CalendarDate), ParseError> {
    if !digit_run_at(s, i) {
        Err(ParseError::TokenMismatch)
    } else {
        let ye = digit_run_end(s, i);
        if !(ye < s.len() && is_date_sep(s[ye])) {
            Err(ParseError::TokenMismatch)
        } else if !digit_run_at(s, ye + 1) {
            Err(ParseError::TokenMismatch)
        } else {
            let me = digit_run_end(s, ye + 1);
            if !(me < s.len() && is_date_sep(s[me])) {
                Err(ParseError::TokenMismatch)
            } else if !digit_run_at(s, me + 1) {
                Err(ParseError::TokenMismatch)
            } else {
                let de = digit_run_end(s, me + 1);
                let y = span_digits_value(s, i, ye);
                let m = span_digits_value(s, ye + 1, me);
                let d = span_digits_value(s, me + 1, de);
                if y > u32::MAX || m > u32::MAX || d > u32::MAX {
                    Err(ParseError::NumericConversionFailure)
                } else if !valid_date(y as int, m as int, d as int) {
                    Err(ParseError::InvalidCalendarDate)
                } else {
                    Ok((de, CalendarDate { year: y as u32, month: m as u32, day: d as u32 }))
                }
            }
        }
    }
}

/// The auxiliary-date rule: a literal `=`, then a date, directly appended.
pub open spec fn spec_aux_date(s: Seq<u8>, i: int) -> Result<(int, CalendarDate), ParseError> {
    if 0 <= i < s.len() && s[i] == 0x3d {
        spec_date(s, i + 1)
    } else {
        Err(ParseError::TokenMismatch)
    }
}

/// The code rule: `(`, any content up to the first `)`, then the `)`. It
/// fails when it is not opened, or opened but never closed.
pub open spec fn spec_code(s: Seq<u8>, i: int) -> Result<(int, Seq<u8>), ParseError> {
    if !(0 <= i < s.len() && s[i] == 0x28) {
        Err(ParseError::TokenMismatch)
    } else {
        let j = find_byte(s, i + 1, 0x29);
        if j < s.len() {
            Ok((j + 1, s.subrange(i + 1, j)))
        } else {
            Err(ParseError::TokenMismatch)
        }
    }
}

/// The description rule: the rest of the line, split at the first
/// three-byte delimiter, space `|` space, into an optional merchant and the
/// memo. Without the delimiter the whole rest of the line is the memo. It
/// never fails; the delimiter can therefore never appear as literal content
/// inside a merchant.
pub open spec fn spec_description(s: Seq<u8>, i: int) -> (int, Option<Seq<u8>>, Seq<u8>) {
    let le = line_end(s, i);
    let j = find_split(s, i, le);
    if j < le {
        (le, Some(s.subrange(i, j)), s.subrange(j + 3, le))
    } else {
        (le, None, s.subrange(i, le))
    }
}

/// Packs a matched currency span and numeric span into an amount, or fails
/// when the numeric span does not convert to an exact decimal.
pub open spec fn amount_of_spans(s: Seq<u8>, ci: int, ce: int, ni: int, ne: int, end: int) -> Result<
    (int, AmountView),
    ParseError,
> {
    match spec_decimal_of(s, ni, ne) {
        Some(v) => Ok((end, AmountView { currency: s.subrange(ci, ce), amount: v })),
        None => Err(ParseError::NumericConversionFailure),
    }
}

/// The amount rule. Exactly four orderings are accepted, tried in this
/// order, the first match winning: currency then float literal, currency
/// then plain digits, float literal then currency, plain digits then
/// currency — in each case with optional horizontal whitespace between the
/// two tokens. The currency is a maximal alphabetic run. A matched ordering
/// whose numeric span fails decimal conversion is a hard failure.
pub open spec fn spec_amount(s: Seq<u8>, i: int) -> Result<(int, AmountView), ParseError> {
    if alpha_run_at(s, i) {
        let ce = alpha_run_end(s, i);
        let k = hspace_run_end(s, ce);
        match float_end(s, k) {
            Some(ne) => amount_of_spans(s, i, ce, k, ne, ne),
            None => {
                if digit_run_at(s, k) {
                    let ne = digit_run_end(s, k);
                    amount_of_spans(s, i, ce, k, ne, ne)
                } else {
                    Err(ParseError::TokenMismatch)
                }
            },
        }
    } else {
        match float_end(s, i) {
            Some(ne) => {
                let k = hspace_run_end(s, ne);
                if alpha_run_at(s, k) {
                    amount_of_spans(s, k, alpha_run_end(s, k), i, ne, alpha_run_end(s, k))
                } else {
                    amount_no_float(s, i)
                }
            },
            None => amount_no_float(s, i),
        }
    }
}

/// The last amount ordering: plain digits, optional whitespace, currency.
pub open spec fn amount_no_float(s: Seq<u8>, i: int) -> Result<(int, AmountView), ParseError> {
    if digit_run_at(s, i) {
        let ne = digit_run_end(s, i);
        let k = hspace_run_end(s, ne);
        if alpha_run_at(s, k) {
            amount_of_spans(s, k, alpha_run_end(s, k), i, ne, alpha_run_end(s, k))
        } else {
            Err(ParseError::TokenMismatch)
        }
    } else {
        Err(ParseError::TokenMismatch)
    }
}

/// The posting rule, over the line containing `i`: optional indentation,
/// then the account path, up to — not including — the first run of two or
/// more horizontal whitespace bytes beginning with a space; that run is a
/// mandatory separator; then an optional amount. It fails when the
/// separator is never found on the line (it is then ambiguous where the
/// account name ends); an amount whose ordering matches but whose numeric
/// span does not convert fails hard; any other non-match of the amount
/// leaves the posting elided.
pub open spec fn spec_posting(s: Seq<u8>, i: int) -> Result<(int, PostingView), ParseError> {
    let le = line_end(s, i);
    let a0 = hspace_run_end(s, i);
    let j = find_sep2(s, a0, le);
    if j < le {
        let k = hspace_run_end(s, j);
        match spec_amount(s, k) {
            Ok((e, av)) => Ok((e, PostingView { account: s.subrange(a0, j), amount: Some(av) })),
            Err(ParseError::NumericConversionFailure) => Err(ParseError::NumericConversionFailure),
            Err(_) => Ok((k, PostingView { account: s.subrange(a0, j), amount: None })),
        }
    } else {
        Err(ParseError::TokenMismatch)
    }
}

/// The length of a line break at `i`: 2 for `\r\n`, 1 for `\n`, else 0.
pub open spec fn line_break_len(s: Seq<u8>, i: int) -> int {
    if 0 <= i && i + 1 < s.len() && s[i] == 0x0d && s[i + 1] == 0x0a {
        2
    } else if 0 <= i < s.len() && s[i] == 0x0a {
        1
    } else {
        0
    }
}

/// Zero or more posting lines, each preceded by a line break, accumulated
/// until the input is exhausted or a line fails to be one whole posting; the
/// first line that is not is left unconsumed, line break included.
pub open spec fn spec_postings(s: Seq<u8>, i: int) -> (int, Seq<PostingView>)
    decreases s.len() - i,
        when 0 <= i <= s.len()
{
    let lb = line_break_len(s, i);
    if lb > 0 {
        let q = i + lb;
        match spec_posting(s, q) {
            Ok((e, pv)) => {
                if i < e <= s.len() && e == line_end(s, q) {
                    let rest = spec_postings(s, e);
                    (rest.0, seq![pv] + rest.1)
                } else {
                    (i, Seq::empty())
                }
            },
            Err(_) => (i, Seq::empty()),
        }
    } else {
        (i, Seq::empty())
    }
}

/// The top-level transaction rule: primary date; optional auxiliary date,
/// introduced by `=` directly after the primary date; the clearance state;
/// an optional code; the merchant/memo description; then zero or more
/// posting lines. Horizontal whitespace may stand between the header
/// fields. A failed code (no `(`, or one never closed) leaves the code
/// absent, and the text joins the description; a failed auxiliary date
/// after a present `=` fails the transaction, so an invalid calendar date
/// is reported rather than swallowed.
pub open spec fn spec_transaction(s: Seq<u8>, i: int) -> Result<(int, TransactionView), ParseError> {
    match spec_date(s, i) {
        Err(e) => Err(e),
        Ok((p1, date)) => {
            let aux: Result<(int, Option<CalendarDate>), ParseError> = if p1 < s.len() && s[p1]
                == 0x3d {
                match spec_date(s, p1 + 1) {
                    Ok((p2, ad)) => Ok((p2, Some(ad))),
                    Err(e) => Err(e),
                }
            } else {
                Ok((p1, None))
            };
            match aux {
                Err(e) => Err(e),
                Ok((p2, auxillary_date)) => {
                    let p3 = hspace_run_end(s, p2);
                    let st = spec_state(s, p3);
                    let p5 = hspace_run_end(s, st.0);
                    let code: (int, Option<Seq<u8>>) = match spec_code(s, p5) {
                        Ok((p6, c)) => (p6, Some(c)),
                        Err(_) => (p5, None),
                    };
                    let p7 = hspace_run_end(s, code.0);
                    let desc = spec_description(s, p7);
                    let posts = spec_postings(s, desc.0);
                    Ok(
                        (
                            posts.0,
                            TransactionView {
                                date,
                                auxillary_date,
                                state: st.1,
                                code: code.1,
                                merchant: desc.1,
                                memo: desc.2,
                                postings: posts.1,
                            },
                        ),
                    )
                },
            }
        },
    }
}

} // verus!
