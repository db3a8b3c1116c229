use plain_text_accounting::amount;
use plain_text_accounting::code;
use plain_text_accounting::date;
use plain_text_accounting::posting;
use plain_text_accounting::transaction;
use plain_text_accounting::Account;
use plain_text_accounting::Amount;
use plain_text_accounting::CalendarDate;
use plain_text_accounting::DecimalValue;
use plain_text_accounting::ParseError;
use plain_text_accounting::Posting;
use plain_text_accounting::TransactionState;

#[test]
fn invalid_date_is_reported() {
    assert_eq!(Err(ParseError::InvalidCalendarDate), date(b"2024-13-40", 0));
    assert_eq!(Err(ParseError::InvalidCalendarDate), date(b"2024-2-30", 0));
}

#[test]
fn leap_year_days() {
    assert_eq!(
        CalendarDate { year: 2024, month: 2, day: 29 },
        date(b"2024-2-29", 0).unwrap().1
    );
    assert_eq!(Err(ParseError::InvalidCalendarDate), date(b"2023-2-29", 0));
    assert_eq!(Err(ParseError::InvalidCalendarDate), date(b"1900-2-29", 0));
    assert_eq!(
        CalendarDate { year: 2000, month: 2, day: 29 },
        date(b"2000-2-29", 0).unwrap().1
    );
}

#[test]
fn mixed_date_separators_accepted() {
    let expected = CalendarDate { year: 2024, month: 1, day: 1 };
    assert_eq!(expected, date(b"2024-01/01", 0).unwrap().1);
    assert_eq!(expected, date(b"2024/01-01", 0).unwrap().1);
}

#[test]
fn oversized_date_field_is_conversion_failure() {
    assert_eq!(Err(ParseError::NumericConversionFailure), date(b"99999999999-1-1", 0));
}

#[test]
fn date_needs_three_runs() {
    assert_eq!(Err(ParseError::TokenMismatch), date(b"2024", 0));
    assert_eq!(Err(ParseError::TokenMismatch), date(b"2024-01", 0));
    assert_eq!(Err(ParseError::TokenMismatch), date(b"2024-01-", 0));
    assert_eq!(Err(ParseError::TokenMismatch), date(b"", 0));
}

#[test]
fn code_is_delimited() {
    let (end, c) = code(b"(#100) rest", 0).unwrap();
    assert_eq!(end, 6);
    assert_eq!(c, b"#100".to_vec());
    assert_eq!(Err(ParseError::TokenMismatch), code(b"(never closed", 0));
    assert_eq!(Err(ParseError::TokenMismatch), code(b"no code", 0));
}

#[test]
fn amount_strips_grouping_separators() {
    let (_, a) = amount(b"USD 1_000.50", 0).unwrap();
    assert_eq!(
        Amount { currency: b"USD".to_vec(), amount: DecimalValue::new(100050, 2).unwrap() },
        a
    );
}

#[test]
fn amount_exponent_does_not_convert() {
    assert_eq!(Err(ParseError::NumericConversionFailure), amount(b"USD 42E42", 0));
}

#[test]
fn amount_value_is_exact() {
    let (_, a) = amount(b"USD 0.10", 0).unwrap();
    assert_eq!(DecimalValue::new(1, 1).unwrap(), a.amount);
    let (_, a) = amount(b"EUR .42", 0).unwrap();
    assert_eq!(DecimalValue::new(42, 2).unwrap(), a.amount);
}

#[test]
fn amount_needs_currency_and_number() {
    assert_eq!(Err(ParseError::TokenMismatch), amount(b"$ 20", 0));
    assert_eq!(Err(ParseError::TokenMismatch), amount(b"USD ", 0));
    assert_eq!(Err(ParseError::TokenMismatch), amount(b"", 0));
}

#[test]
fn posting_amount_may_be_elided() {
    let line = b"Expenses:Food  ";
    let (end, p) = posting(line, 0).unwrap();
    assert_eq!(end, line.len());
    assert_eq!(
        Posting { account: Account { name: b"Expenses:Food".to_vec() }, amount: None },
        p
    );
}

#[test]
fn posting_needs_wide_separator() {
    assert_eq!(Err(ParseError::TokenMismatch), posting(b"Expenses:Food USD20", 0));
    assert_eq!(Err(ParseError::TokenMismatch), posting(b"Expenses:Food", 0));
}

#[test]
fn posting_consumes_indentation() {
    let (_, p) = posting(b"\tExpenses:Food  USD20.00", 0).unwrap();
    assert_eq!(p.account, Account { name: b"Expenses:Food".to_vec() });
}

#[test]
fn auxillary_date_needs_equals_sign() {
    let (end, d) = plain_text_accounting::auxillary_date(b"=2024/03/03", 0).unwrap();
    assert_eq!(end, 11);
    assert_eq!(d, CalendarDate { year: 2024, month: 3, day: 3 });
    assert_eq!(
        Err(ParseError::TokenMismatch),
        plain_text_accounting::auxillary_date(b"2024/03/03", 0)
    );
}

#[test]
fn space2_needs_two_spaces() {
    assert_eq!(
        Err(ParseError::TokenMismatch),
        plain_text_accounting::util::space2(b" x", 0)
    );
    assert_eq!(Ok(3), plain_text_accounting::util::space2(b" \t ", 0));
}

#[test]
fn empty_input_yields_no_transaction() {
    assert_eq!(Err(ParseError::TokenMismatch), transaction(b"", 0));
}

#[test]
fn reparsing_empty_remainder_yields_nothing() {
    let t = b"2024-3-2=2024/03/03 * (#100) Merchant | Memo\n\tExpenses:Food  USD20.00";
    let (rest, _) = transaction(t, 0).unwrap();
    assert_eq!(rest, t.len());
    assert_eq!(Err(ParseError::TokenMismatch), transaction(t, rest));
}

#[test]
fn transaction_leaves_bad_posting_line_unconsumed() {
    let t = b"2024-1-1 Memo\nnot a posting";
    let (rest, parsed) = transaction(t, 0).unwrap();
    assert_eq!(rest, 13);
    assert_eq!(parsed.state, TransactionState::Uncleared);
    assert_eq!(parsed.merchant, None);
    assert_eq!(parsed.memo, b"Memo".to_vec());
    assert_eq!(parsed.postings, Vec::new());
}

#[test]
fn transaction_pending_state_and_no_code() {
    let t = b"2024-1-1 ! Lunch | Sandwich";
    let (_, parsed) = transaction(t, 0).unwrap();
    assert_eq!(parsed.state, TransactionState::Pending);
    assert_eq!(parsed.auxillary_date, None);
    assert_eq!(parsed.code, None);
    assert_eq!(parsed.merchant, Some(b"Lunch".to_vec()));
    assert_eq!(parsed.memo, b"Sandwich".to_vec());
}

#[test]
fn transaction_aux_date_must_be_valid() {
    assert_eq!(
        Err(ParseError::InvalidCalendarDate),
        transaction(b"2024-3-2=2024/13/03 * Memo", 0)
    );
}

#[test]
fn description_splits_at_first_delimiter() {
    let (_, merchant, memo) = plain_text_accounting::description(b"a | b | c", 0);
    assert_eq!(merchant, Some(b"a".to_vec()));
    assert_eq!(memo, b"b | c".to_vec());
}

#[test]
fn transaction_accepts_crlf_line_breaks() {
    let t = b"2024-1-1 Memo\r\n\tExpenses:Food  USD 1.";
    let (rest, parsed) = transaction(t, 0).unwrap();
    assert_eq!(rest, t.len());
    assert_eq!(parsed.postings.len(), 1);
    assert_eq!(
        parsed.postings[0].amount,
        Some(Amount { currency: b"USD".to_vec(), amount: DecimalValue::new(1, 0).unwrap() })
    );
}

#[test]
fn transaction_collects_postings_in_order() {
    let t = b"2024-1-1 Memo\n\tExpenses:Food  USD20.00\n\tAssets:Cash  ";
    let (rest, parsed) = transaction(t, 0).unwrap();
    assert_eq!(rest, t.len());
    assert_eq!(parsed.postings.len(), 2);
    assert_eq!(parsed.postings[0].account, Account { name: b"Expenses:Food".to_vec() });
    assert_eq!(parsed.postings[1].account, Account { name: b"Assets:Cash".to_vec() });
    assert_eq!(parsed.postings[1].amount, None);
}
