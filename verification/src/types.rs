//! The data model: calendar dates, exact decimal values, clearance states,
//! accounts, amounts, postings and transactions, together with their
//! invariants and their spec-level views.

use vstd::prelude::*;

verus! {

/// Why a parse failed: an expected token was not found, a numeric span could
/// not be converted to an exact decimal, or a syntactically well-formed date
/// is not a real calendar date.
#[derive(Debug, Clone, Copy, PartialEq, Eq, Structural)]
pub enum ParseError {
    TokenMismatch,
    NumericConversionFailure,
    InvalidCalendarDate,
}

/// Whether a transaction has been reconciled. `Uncleared` is an explicit
/// default value, not the absence of a state.
#[derive(Debug, Clone, Copy, PartialEq, Eq, Structural)]
pub enum TransactionState {
    Cleared,
    Pending,
    Uncleared,
}

/// A year is a leap year under the Gregorian rule.
pub open spec fn is_leap_year(y: int) -> bool {
    (y % 4 == 0 && y % 100 != 0) || y % 400 == 0
}

/// The number of days of month `m` of year `y` in the Gregorian calendar.
pub open spec fn days_in_month(y: int, m: int) -> int {
    if m == 2 {
        if is_leap_year(y) {
            29
        } else {
            28
        }
    } else if m == 4 || m == 6 || m == 9 || m == 11 {
        30
    } else {
        31
    }
}

/// The triple forms a real Gregorian calendar date.
pub open spec fn valid_date(y: int, m: int, d: int) -> bool {
    1 <= m <= 12 && 1 <= d <= days_in_month(y, m)
}

/// A validated Gregorian calendar date. Values are only constructed through
/// [`CalendarDate::from_ymd`], which enforces [`valid_date`].
#[derive(Debug, Clone, Copy, PartialEq, Eq, Structural)]
pub struct CalendarDate {
    pub year: u32,
    pub month: u32,
    pub day: u32,
}

impl CalendarDate {
    /// The date is a real Gregorian calendar date.
    pub open spec fn wf(self) -> bool {
        valid_date(self.year as int, self.month as int, self.day as int)
    }

    /// Builds a date, or yields `None` when the triple is not a real
    /// calendar date (month 13, February 30, and the like).
    pub fn from_ymd(year: u32, month: u32, day: u32) -> (r: Option<CalendarDate>)
        ensures
            (match r {
                Some(c) => valid_date(year as int, month as int, day as int) && c
                    == (CalendarDate { year, month, day }),
                None => !valid_date(year as int, month as int, day as int),
            }),
    {
        if month < 1 || month > 12 {
            return None;
        }
        let leap: bool = (year % 4 == 0 && year % 100 != 0) || year % 400 == 0;
        let max_day: u32 = if month == 2 {
            if leap {
                29
            } else {
                28
            }
        } else if month == 4 || month == 6 || month == 9 || month == 11 {
            30
        } else {
            31
        };
        if day < 1 || day > max_day {
            return None;
        }
        Some(CalendarDate { year, month, day })
    }
}

/// Exact decimal values carry at most this many fractional digits.
pub const MAX_SCALE: u32 = 28;

/// Exact decimal mantissas are kept below 2^96.
pub const MANTISSA_LIMIT: u128 = 0x1_0000_0000_0000_0000_0000_0000;

/// Strips trailing zero digits from a mantissa/scale pair: the canonical form
/// of an exact decimal value, so that structural equality is numeric
/// equality (`20`, `20.0` and `20.00` are all `(20, 0)`).
pub open spec fn dec_normalize(m: nat, sc: nat) -> (nat, nat)
    decreases sc,
{
    if sc > 0 && m % 10 == 0 {
        dec_normalize(m / 10, (sc - 1) as nat)
    } else {
        (m, sc)
    }
}

/// An exact, non-negative decimal value `mantissa / 10^scale` in canonical
/// form: never a binary floating-point approximation.
#[derive(Debug, Clone, Copy, PartialEq, Eq, Structural)]
pub struct DecimalValue {
    pub mantissa: u128,
    pub scale: u32,
}

/// The value is bounded and in canonical form.
pub open spec fn dec_wf(d: DecimalValue) -> bool {
    d.mantissa < MANTISSA_LIMIT && d.scale <= MAX_SCALE && (d.scale > 0 ==> d.mantissa % 10 != 0)
}

/// Normalization never grows the mantissa or the scale, and its result is
/// canonical.
pub proof fn lemma_dec_normalize(m: nat, sc: nat)
    ensures
        dec_normalize(m, sc).0 <= m,
        dec_normalize(m, sc).1 <= sc,
        dec_normalize(m, sc).1 > 0 ==> dec_normalize(m, sc).0 % 10 != 0,
    decreases sc,
{
    if sc > 0 && m % 10 == 0 {
        assert(m / 10 <= m) by (nonlinear_arith);
        lemma_dec_normalize(m / 10, (sc - 1) as nat);
    }
}

/// Strips trailing zero digits, as [`dec_normalize`] does.
pub(crate) fn normalize_parts(m0: u128, s0: u32) -> (r: (u128, u32))
    ensures
        r.0 as nat == dec_normalize(m0 as nat, s0 as nat).0,
        r.1 as nat == dec_normalize(m0 as nat, s0 as nat).1,
        r.0 <= m0,
        r.1 <= s0,
{
    let mut m: u128 = m0;
    let mut sc: u32 = s0;
    while sc > 0 && m % 10 == 0
        invariant
            dec_normalize(m0 as nat, s0 as nat) == dec_normalize(m as nat, sc as nat),
            m <= m0,
            sc <= s0,
        decreases sc,
    {
        m = m / 10;
        sc = sc - 1;
    }
    (m, sc)
}

impl DecimalValue {
    /// Builds the canonical exact decimal `mantissa / 10^scale`, or yields
    /// `None` when either part is over the precision bounds.
    pub fn new(mantissa: u128, scale: u32) -> (r: Option<DecimalValue>)
        ensures
            (match r {
                Some(d) => mantissa < MANTISSA_LIMIT && scale <= MAX_SCALE && d.mantissa as nat
                    == dec_normalize(mantissa as nat, scale as nat).0 && d.scale as nat
                    == dec_normalize(mantissa as nat, scale as nat).1 && dec_wf(d),
                None => mantissa >= MANTISSA_LIMIT || scale > MAX_SCALE,
            }),
    {
        if mantissa >= MANTISSA_LIMIT || scale > MAX_SCALE {
            return None;
        }
        let (m, sc) = normalize_parts(mantissa, scale);
        proof {
            lemma_dec_normalize(mantissa as nat, scale as nat);
        }
        Some(DecimalValue { mantissa: m, scale: sc })
    }
}

/// A hierarchical colon-delimited account path, kept as the literal path
/// text; the grammar does not decompose it into segments.
#[derive(Debug, Clone, PartialEq, Eq)]
pub struct Account {
    pub name: Vec<u8>,
}

impl View for Account {
    type V = Seq<u8>;

    open spec fn view(&self) -> Seq<u8> {
        self.name@
    }
}

/// A currency symbol paired with an exact decimal value.
#[derive(Debug, Clone, PartialEq, Eq)]
pub struct Amount {
    pub currency: Vec<u8>,
    pub amount: DecimalValue,
}

/// The spec-level image of an [`Amount`].
#[verifier::ext_equal]
pub ghost struct AmountView {
    pub currency: Seq<u8>,
    pub amount: DecimalValue,
}

impl View for Amount {
    type V = AmountView;

    open spec fn view(&self) -> AmountView {
        AmountView { currency: self.currency@, amount: self.amount }
    }
}

/// One line within a transaction assigning an amount to an account; an
/// absent amount denotes an elided, balancing posting.
#[derive(Debug, Clone, PartialEq, Eq)]
pub struct Posting {
    pub account: Account,
    pub amount: Option<Amount>,
}

/// The spec-level image of a [`Posting`].
#[verifier::ext_equal]
pub ghost struct PostingView {
    pub account: Seq<u8>,
    pub amount: Option<AmountView>,
}

impl View for Posting {
    type V = PostingView;

    open spec fn view(&self) -> PostingView {
        PostingView {
            account: self.account@,
            amount: match self.amount {
                Some(a) => Some(a@),
                None => None,
            },
        }
    }
}

/// The spec-level image of a posting list, in declared order.
pub open spec fn postings_view(ps: Seq<Posting>) -> Seq<PostingView> {
    ps.map_values(|p: Posting| p@)
}

/// One parsed transaction: a primary date, an optional auxiliary
/// (effective) date, a clearance state, an optional code, an optional
/// merchant, a memo, and the postings in their declared order.
#[derive(Debug, Clone, PartialEq, Eq)]
pub struct Transaction {
    pub date: CalendarDate,
    pub auxillary_date: Option<CalendarDate>,
    pub state: TransactionState,
    pub code: Option<Vec<u8>>,
    pub merchant: Option<Vec<u8>>,
    pub memo: Vec<u8>,
    pub postings: Vec<Posting>,
}

/// The spec-level image of a [`Transaction`].
#[verifier::ext_equal]
pub ghost struct TransactionView {
    pub date: CalendarDate,
    pub auxillary_date: Option<CalendarDate>,
    pub state: TransactionState,
    pub code: Option<Seq<u8>>,
    pub merchant: Option<Seq<u8>>,
    pub memo: Seq<u8>,
    pub postings: Seq<PostingView>,
}

impl View for Transaction {
    type V = TransactionView;

    open spec fn view(&self) -> TransactionView {
        TransactionView {
            date: self.date,
            auxillary_date: self.auxillary_date,
            state: self.state,
            code: (match self.code {
                Some(c) => Some(c@),
                None => None,
            }),
            merchant: (match self.merchant {
                Some(m) => Some(m@),
                None => None,
            }),
            memo: self.memo@,
            postings: postings_view(self.postings@),
        }
    }
}

} // verus!
