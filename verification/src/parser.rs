//! The component parsers and the top-level transaction parser. Each one is
//! proved to return exactly what the corresponding rule in
//! [`crate::grammar`] says, for every input and position.

use vstd::prelude::*;

use crate::grammar::alpha_run_at;
use crate::grammar::alpha_run_end;
use crate::grammar::amount_no_float;
use crate::grammar::amount_of_spans;
use crate::grammar::amount_wf;
use crate::grammar::is_alpha;
use crate::grammar::lemma_alpha_run;
use crate::grammar::lemma_hspace_within_line;
use crate::grammar::line_break_len;
use crate::grammar::spec_amount;
use crate::grammar::spec_aux_date;
use crate::grammar::spec_code;
use crate::grammar::spec_date;
use crate::grammar::spec_description;
use crate::grammar::spec_posting;
use crate::grammar::spec_postings;
use crate::grammar::spec_state;
use crate::grammar::spec_transaction;
use crate::scan::decimal_of;
use crate::scan::find_byte_at;
use crate::scan::find_sep2_at;
use crate::scan::find_split_at;
use crate::scan::is_alpha_byte;
use crate::scan::is_date_sep_byte;
use crate::scan::is_digit_byte;
use crate::scan::scan_alpha;
use crate::scan::scan_digits;
use crate::scan::scan_hspace;
use crate::scan::scan_line;
use crate::scan::span_value_u32;
use crate::scan::sub_vec;
use crate::types::dec_wf;
use crate::types::postings_view;
use crate::types::Account;
use crate::types::Amount;
use crate::types::AmountView;
use crate::types::CalendarDate;
use crate::types::ParseError;
use crate::types::Posting;
use crate::types::PostingView;
use crate::types::Transaction;
use crate::types::TransactionState;
use crate::types::TransactionView;
use crate::util::float;

verus! {

/// Parses the optional clearance marker: `*` is Cleared, `!` is Pending,
/// anything else (or the end of input) consumes nothing and is the default,
/// Uncleared. This rule never fails.
pub fn transaction_state(s: &[u8], i: usize) -> (r: (usize, TransactionState))
    requires
        i <= s@.len(),
    ensures
        r.0 as int == spec_state(s@, i as int).0,
        r.1 == spec_state(s@, i as int).1,
        i <= r.0 <= s@.len(),
{
    if i < s.len() && s[i] == 0x2a {
        (i + 1, TransactionState::Cleared)
    } else if i < s.len() && s[i] == 0x21 {
        (i + 1, TransactionState::Pending)
    } else {
        (i, TransactionState::Uncleared)
    }
}

/// Parses a calendar date: digit-run, `-` or `/`, digit-run, `-` or `/`,
/// digit-run, the runs giving year, month and day; the two separators need
/// not match each other. A field over `u32` is a numeric conversion
/// failure; a triple that is no real calendar date is an ordinary
/// invalid-calendar-date failure, never a panic.
pub fn date(s: &[u8], i: usize) -> (r: Result<(usize, CalendarDate), ParseError>)
    requires
        i <= s@.len(),
    ensures
        (match r {
            Ok((j, d)) => spec_date(s@, i as int) == Ok::<(int, CalendarDate), ParseError>(
                ((j as int, d)),
            ) && i <= j <= s@.len() && d.wf(),
            Err(e) => spec_date(s@, i as int) == Err::<(int, CalendarDate), ParseError>(e),
        }),
{
    if !(i < s.len() && is_digit_byte(s[i])) {
        return Err(ParseError::TokenMismatch);
    }
    let ye = scan_digits(s, i);
    if !(ye < s.len() && is_date_sep_byte(s[ye])) {
        return Err(ParseError::TokenMismatch);
    }
    if !(ye + 1 < s.len() && is_digit_byte(s[ye + 1])) {
        return Err(ParseError::TokenMismatch);
    }
    let me = scan_digits(s, ye + 1);
    if !(me < s.len() && is_date_sep_byte(s[me])) {
        return Err(ParseError::TokenMismatch);
    }
    if !(me + 1 < s.len() && is_digit_byte(s[me + 1])) {
        return Err(ParseError::TokenMismatch);
    }
    let de = scan_digits(s, me + 1);
    let y = match span_value_u32(s, i, ye) {
        Some(v) => v,
        None => {
            return Err(ParseError::NumericConversionFailure);
        },
    };
    let m = match span_value_u32(s, ye + 1, me) {
        Some(v) => v,
        None => {
            return Err(ParseError::NumericConversionFailure);
        },
    };
    let d = match span_value_u32(s, me + 1, de) {
        Some(v) => v,
        None => {
            return Err(ParseError::NumericConversionFailure);
        },
    };
    match CalendarDate::from_ymd(y, m, d) {
        Some(c) => Ok((de, c)),
        None => Err(ParseError::InvalidCalendarDate),
    }
}

/// Parses the optional auxiliary (effective) date: a literal `=`, then a
/// date, directly appended to the primary date.
pub fn auxillary_date(s: &[u8], i: usize) -> (r: Result<(usize, CalendarDate), ParseError>)
    requires
        i <= s@.len(),
    ensures
        (match r {
            Ok((j, d)) => spec_aux_date(s@, i as int) == Ok::<(int, CalendarDate), ParseError>(
                ((j as int, d)),
            ) && i <= j <= s@.len() && d.wf(),
            Err(e) => spec_aux_date(s@, i as int) == Err::<(int, CalendarDate), ParseError>(e),
        }),
{
    if i < s.len() && s[i] == 0x3d {
        date(s, i + 1)
    } else {
        Err(ParseError::TokenMismatch)
    }
}

/// Parses a parenthesized code: `(`, the content up to the first `)`, then
/// the `)`. It fails when it is not opened here, or opened but never
/// closed.
pub fn code(s: &[u8], i: usize) -> (r: Result<(usize, Vec<u8>), ParseError>)
    requires
        i <= s@.len(),
    ensures
        (match r {
            Ok((j, c)) => spec_code(s@, i as int) == Ok::<(int, Seq<u8>), ParseError>(
                ((j as int, c@)),
            ) && i <= j <= s@.len(),
            Err(e) => spec_code(s@, i as int) == Err::<(int, Seq<u8>), ParseError>(e),
        }),
{
    if !(i < s.len() && s[i] == 0x28) {
        return Err(ParseError::TokenMismatch);
    }
    let j = find_byte_at(s, i + 1, 0x29);
    if j < s.len() {
        Ok((j + 1, sub_vec(s, i + 1, j)))
    } else {
        Err(ParseError::TokenMismatch)
    }
}

/// Splits the rest of the line at the first ` | ` delimiter into an
/// optional merchant and the memo; without the delimiter the whole rest of
/// the line is the memo. This rule never fails, and the delimiter can never
/// appear as literal content inside a merchant.
pub fn description(s: &[u8], i: usize) -> (r: (usize, Option<Vec<u8>>, Vec<u8>))
    requires
        i <= s@.len(),
    ensures
        r.0 as int == spec_description(s@, i as int).0,
        (match r.1 {
            Some(v) => spec_description(s@, i as int).1 == Some(v@),
            None => spec_description(s@, i as int).1.is_none(),
        }),
        r.2@ == spec_description(s@, i as int).2,
        i <= r.0 <= s@.len(),
{
    let le = scan_line(s, i);
    let j = find_split_at(s, i, le);
    if j < le {
        (le, Some(sub_vec(s, i, j)), sub_vec(s, j + 3, le))
    } else {
        (le, None, sub_vec(s, i, le))
    }
}

/// Packs a matched currency span and numeric span into an amount; a
/// numeric span that does not convert to an exact decimal is a hard
/// failure.
fn build_amount(s: &[u8], ci: usize, ce: usize, ni: usize, ne: usize, end: usize) -> (r: Result<
    (usize, Amount),
    ParseError,
>)
    requires
        ci <= ce <= s@.len(),
        ni <= ne <= s@.len(),
        end <= s@.len(),
    ensures
        (match r {
            Ok((j, a)) => amount_of_spans(
                s@,
                ci as int,
                ce as int,
                ni as int,
                ne as int,
                end as int,
            ) == Ok::<(int, AmountView), ParseError>(((j as int, a@))) && j == end && dec_wf(
                a.amount,
            ) && a.currency@ == s@.subrange(ci as int, ce as int),
            Err(e) => amount_of_spans(s@, ci as int, ce as int, ni as int, ne as int, end as int)
                == Err::<(int, AmountView), ParseError>(e),
        }),
{
    match decimal_of(s, ni, ne) {
        Some(v) => Ok((end, Amount { currency: sub_vec(s, ci, ce), amount: v })),
        None => Err(ParseError::NumericConversionFailure),
    }
}

/// A currency span that is a whole alphabetic run makes a parsed amount
/// well-formed.
proof fn lemma_currency_span_wf(s: Seq<u8>, ci: int, ce: int, a: AmountView)
    requires
        0 <= ci <= s.len(),
        alpha_run_at(s, ci),
        ce == alpha_run_end(s, ci),
        a.currency == s.subrange(ci, ce),
        dec_wf(a.amount),
    ensures
        amount_wf(a),
{
    lemma_alpha_run(s, ci);
    assert forall|t: int| 0 <= t < a.currency.len() implies is_alpha(#[trigger] a.currency[t]) by {
        assert(a.currency[t] == s[ci + t]);
    }
}

/// The two amount orderings that do not begin with a float literal, tried
/// after it: plain digits, optional whitespace, currency.
fn amount_tail(s: &[u8], i: usize) -> (r: Result<(usize, Amount), ParseError>)
    requires
        i <= s@.len(),
    ensures
        (match r {
            Ok((j, a)) => amount_no_float(s@, i as int) == Ok::<(int, AmountView), ParseError>(
                ((j as int, a@)),
            ) && i <= j <= s@.len() && amount_wf(a@),
            Err(e) => amount_no_float(s@, i as int) == Err::<(int, AmountView), ParseError>(e),
        }),
{
    if i < s.len() && is_digit_byte(s[i]) {
        let ne = scan_digits(s, i);
        let k = scan_hspace(s, ne);
        if k < s.len() && is_alpha_byte(s[k]) {
            let ce = scan_alpha(s, k);
            let r = build_amount(s, k, ce, i, ne, ce);
            proof {
                if r is Ok {
                    let a = r->Ok_0.1;
                    lemma_currency_span_wf(s@, k as int, ce as int, a@);
                }
            }
            r
        } else {
            Err(ParseError::TokenMismatch)
        }
    } else {
        Err(ParseError::TokenMismatch)
    }
}

/// Parses a currency-tagged exact decimal amount. Exactly four orderings
/// are accepted, tried in this order with the first match winning:
/// currency then float literal; currency then plain digits; float literal
/// then currency; plain digits then currency — each with optional
/// horizontal whitespace between the two tokens. The numeric span is
/// converted with grouping separators stripped; a span that matched but
/// does not convert is a hard numeric-conversion failure.
pub fn amount(s: &[u8], i: usize) -> (r: Result<(usize, Amount), ParseError>)
    requires
        i <= s@.len(),
    ensures
        (match r {
            Ok((j, a)) => spec_amount(s@, i as int) == Ok::<(int, AmountView), ParseError>(
                ((j as int, a@)),
            ) && i <= j <= s@.len() && amount_wf(a@),
            Err(e) => spec_amount(s@, i as int) == Err::<(int, AmountView), ParseError>(e),
        }),
{
    if i < s.len() && is_alpha_byte(s[i]) {
        let ce = scan_alpha(s, i);
        let k = scan_hspace(s, ce);
        let r = match float(s, k) {
            Ok(ne) => build_amount(s, i, ce, k, ne, ne),
            Err(_) => {
                if k < s.len() && is_digit_byte(s[k]) {
                    let ne = scan_digits(s, k);
                    build_amount(s, i, ce, k, ne, ne)
                } else {
                    Err(ParseError::TokenMismatch)
                }
            },
        };
        proof {
            if r is Ok {
                let a = r->Ok_0.1;
                lemma_currency_span_wf(s@, i as int, ce as int, a@);
            }
        }
        r
    } else {
        match float(s, i) {
            Ok(ne) => {
                let k = scan_hspace(s, ne);
                if k < s.len() && is_alpha_byte(s[k]) {
                    let ce = scan_alpha(s, k);
                    let r = build_amount(s, k, ce, i, ne, ce);
                    proof {
                        if r is Ok {
                            let a = r->Ok_0.1;
                            lemma_currency_span_wf(s@, k as int, ce as int, a@);
                        }
                    }
                    r
                } else {
                    amount_tail(s, i)
                }
            },
            Err(_) => amount_tail(s, i),
        }
    }
}

/// Parses one posting from the line containing `i`: optional indentation,
/// the account path up to — not including — the first separator run (a
/// space followed by further horizontal whitespace), the separator run
/// itself, then an optional amount. It fails when no separator stands on
/// the line; an amount whose ordering matched but whose numeric span does
/// not convert fails hard; any other non-match of the amount leaves the
/// posting elided (no amount).
pub fn posting(s: &[u8], i: usize) -> (r: Result<(usize, Posting), ParseError>)
    requires
        i <= s@.len(),
    ensures
        (match r {
            Ok((j, p)) => spec_posting(s@, i as int) == Ok::<(int, PostingView), ParseError>(
                ((j as int, p@)),
            ) && i <= j <= s@.len() && (match p.amount {
                Some(a) => amount_wf(a@),
                None => true,
            }),
            Err(e) => spec_posting(s@, i as int) == Err::<(int, PostingView), ParseError>(e),
        }),
{
    let le = scan_line(s, i);
    let a0 = scan_hspace(s, i);
    proof {
        lemma_hspace_within_line(s@, i as int);
    }
    let j = find_sep2_at(s, a0, le);
    if j < le {
        let k = scan_hspace(s, j);
        match amount(s, k) {
            Ok((e, av)) => Ok((e, Posting { account: Account { name: sub_vec(s, a0, j) }, amount: Some(av) })),
            Err(ParseError::NumericConversionFailure) => Err(ParseError::NumericConversionFailure),
            Err(_) => Ok((k, Posting { account: Account { name: sub_vec(s, a0, j) }, amount: None })),
        }
    } else {
        Err(ParseError::TokenMismatch)
    }
}

/// Parses one whole transaction: the primary date; an optional auxiliary
/// date introduced by `=` directly after it; the clearance state; an
/// optional parenthesized code; the merchant/memo description to the end
/// of the line; then zero or more posting lines, each preceded by a line
/// break, until the input is exhausted or a line is not one whole posting
/// — that line is left unconsumed, line break included. Horizontal
/// whitespace may separate the header fields. A present `=` whose date
/// fails (an invalid calendar date among them) fails the transaction, so
/// the failure is reported rather than swallowed; a code that fails to
/// parse is treated as absent and its text joins the description.
pub fn transaction(s: &[u8], i: usize) -> (r: Result<(usize, Transaction), ParseError>)
    requires
        i <= s@.len(),
    ensures
        (match r {
            Ok((j, t)) => spec_transaction(s@, i as int) == Ok::<
                (int, TransactionView),
                ParseError,
            >(((j as int, t@))) && i <= j <= s@.len(),
            Err(e) => spec_transaction(s@, i as int) == Err::<(int, TransactionView), ParseError>(
                e,
            ),
        }),
{
    let (p1, d) = match date(s, i) {
        Ok(v) => v,
        Err(e) => {
            return Err(e);
        },
    };
    let (p2, aux): (usize, Option<CalendarDate>) = if p1 < s.len() && s[p1] == 0x3d {
        match date(s, p1 + 1) {
            Ok((q, ad)) => (q, Some(ad)),
            Err(e) => {
                return Err(e);
            },
        }
    } else {
        (p1, None)
    };
    let p3 = scan_hspace(s, p2);
    let (p4, st) = transaction_state(s, p3);
    let p5 = scan_hspace(s, p4);
    let (p6, cd): (usize, Option<Vec<u8>>) = match code(s, p5) {
        Ok((q, cv)) => (q, Some(cv)),
        Err(_) => (p5, None),
    };
    let p7 = scan_hspace(s, p6);
    let (p8, merchant, memo) = description(s, p7);
    let ghost start = p8 as int;
    let mut postings: Vec<Posting> = Vec::new();
    let mut p: usize = p8;
    loop
        invariant
            start <= p as int <= s@.len(),
            spec_postings(s@, start).0 == spec_postings(s@, p as int).0,
            spec_postings(s@, start).1 == postings_view(postings@) + spec_postings(
                s@,
                p as int,
            ).1,
        ensures
            spec_postings(s@, start).0 == p as int,
            spec_postings(s@, start).1 == postings_view(postings@),
        decreases s@.len() - p,
    {
        let lb: usize = if p < s.len() && s[p] == 0x0a {
            1
        } else if p < s.len() && s[p] == 0x0d && p + 1 < s.len() && s[p + 1] == 0x0a {
            2
        } else {
            0
        };
        if lb == 0 {
            proof {
                assert(line_break_len(s@, p as int) == 0);
                assert(spec_postings(s@, p as int).1 =~= Seq::<PostingView>::empty());
                assert(postings_view(postings@) + Seq::<PostingView>::empty() =~= postings_view(
                    postings@,
                ));
            }
            break;
        }
        let q = p + lb;
        match posting(s, q) {
            Ok((e, post)) => {
                let le2 = scan_line(s, q);
                if e == le2 {
                    proof {
                        let rest = spec_postings(s@, e as int);
                        assert(spec_postings(s@, p as int) == (rest.0, seq![post@] + rest.1));
                        assert(postings_view(postings@.push(post)) =~= postings_view(postings@)
                            + seq![post@]);
                        assert(postings_view(postings@) + (seq![post@] + rest.1)
                            =~= (postings_view(postings@) + seq![post@]) + rest.1);
                    }
                    postings.push(post);
                    p = e;
                } else {
                    proof {
                        assert(spec_postings(s@, p as int) == (p as int, Seq::<
                            PostingView,
                        >::empty()));
                        assert(postings_view(postings@) + Seq::<PostingView>::empty()
                            =~= postings_view(postings@));
                    }
                    break;
                }
            },
            Err(_) => {
                proof {
                    assert(spec_postings(s@, p as int) == (p as int, Seq::<PostingView>::empty()));
                    assert(postings_view(postings@) + Seq::<PostingView>::empty()
                        =~= postings_view(postings@));
                }
                break;
            },
        }
    }
    let t = Transaction {
        date: d,
        auxillary_date: aux,
        state: st,
        code: cd,
        merchant,
        memo,
        postings,
    };
    proof {
        let sp = spec_transaction(s@, i as int);
        assert(sp is Ok);
        assert(t@ =~= sp->Ok_0.1);
        assert(sp->Ok_0.0 == p as int);
    }
    Ok((p, t))
}

} // verus!
