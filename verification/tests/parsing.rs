use plain_text_accounting::amount;
use plain_text_accounting::date;
use plain_text_accounting::description;
use plain_text_accounting::transaction;
use plain_text_accounting::transaction_state;
use plain_text_accounting::util::decimal;
use plain_text_accounting::util::float;
use plain_text_accounting::util::space2;
use plain_text_accounting::Account;
use plain_text_accounting::Amount;
use plain_text_accounting::CalendarDate;
use plain_text_accounting::DecimalValue;
use plain_text_accounting::Posting;
use plain_text_accounting::TransactionState;

#[test]
fn parse_amount() {
    let expected = Amount {
        currency: b"USD".to_vec(),
        amount: DecimalValue::new(2000, 2).unwrap(),
    };
    let (_, a) = amount(b"USD 20", 0).unwrap();
    assert_eq!(expected, a);
    let (_, a) = amount(b"20.00 USD", 0).unwrap();
    assert_eq!(expected, a);
    let (_, a) = amount(b"USD20.00", 0).unwrap();
    assert_eq!(expected, a);
    let (_, a) = amount(b"20USD", 0).unwrap();
    assert_eq!(expected, a);
}

#[test]
fn parse_transaction_state() {
    assert_eq!(TransactionState::Cleared, transaction_state(b"*", 0).1);
    assert_eq!(TransactionState::Pending, transaction_state(b"!", 0).1);
    assert_eq!(TransactionState::Uncleared, transaction_state(b"", 0).1);
}

#[test]
fn parse_date() {
    let expected = CalendarDate { year: 2024, month: 1, day: 1 };
    assert_eq!(expected, date(b"2024-1-1", 0).unwrap().1);
    assert_eq!(expected, date(b"2024-01-01", 0).unwrap().1);
    assert_eq!(expected, date(b"2024/1/1", 0).unwrap().1);
    assert_eq!(expected, date(b"2024/01/01", 0).unwrap().1);
}

#[test]
fn parse_description() {
    let (_, merchant, memo) = description(b"foo", 0);
    assert_eq!(None, merchant);
    assert_eq!(b"foo".to_vec(), memo);
    let (_, merchant, memo) = description(b"foo | bar", 0);
    assert_eq!(Some(b"foo".to_vec()), merchant);
    assert_eq!(b"bar".to_vec(), memo);
}

#[test]
fn parse_transaction() {
    let t = b"2024-3-2=2024/03/03 * (#100) Merchant | Memo\n\tExpenses:Food  USD20.00";
    let (rest, parsed) = transaction(t, 0).unwrap();
    assert_eq!(rest, t.len());
    assert_eq!(parsed.date, CalendarDate { year: 2024, month: 3, day: 2 });
    assert_eq!(parsed.auxillary_date, Some(CalendarDate { year: 2024, month: 3, day: 3 }));
    assert_eq!(parsed.state, TransactionState::Cleared);
    assert_eq!(parsed.code, Some(b"#100".to_vec()));
    assert_eq!(parsed.merchant, Some(b"Merchant".to_vec()));
    assert_eq!(parsed.memo, b"Memo".to_vec());
    assert_eq!(
        parsed.postings,
        vec![Posting {
            account: Account { name: b"Expenses:Food".to_vec() },
            amount: Some(Amount {
                currency: b"USD".to_vec(),
                amount: DecimalValue::new(2000, 2).unwrap(),
            }),
        }]
    );
}

#[test]
fn parse_float() {
    assert_eq!(Ok(b".42".len()), float(b".42", 0));
    assert_eq!(Ok(b"42E42".len()), float(b"42E42", 0));
    assert_eq!(Ok(b"42.42E42".len()), float(b"42.42E42", 0));
    assert_eq!(Ok(b"42.".len()), float(b"42.", 0));
    assert_eq!(Ok(b"42.42".len()), float(b"42.42", 0));
}

#[test]
fn parse_decimal() {
    assert_eq!(Ok(b"123".len()), decimal(b"123", 0));
    assert_eq!(Ok(b"123_456".len()), decimal(b"123_456", 0));
}

#[test]
fn parse_space2() {
    assert_eq!(Ok(2), space2(b"  ", 0));
    assert_eq!(Ok(9), space2(b"         ", 0));
}
