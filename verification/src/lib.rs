//! A verified parser for a plain-text, double-entry accounting journal
//! dialect: one transaction block of text becomes a structured record with a
//! date, a clearance state, an optional code, a merchant/memo description,
//! and a list of account postings with optional currency amounts.
//!
//! The grammar is specified by the spec functions in [`grammar`]; every
//! executable parser is proved to agree with them exactly, on every input.

pub mod grammar;
pub mod laws;
pub mod parser;
mod scan;
pub mod types;
pub mod util;

pub use parser::amount;
pub use parser::auxillary_date;
pub use parser::code;
pub use parser::date;
pub use parser::description;
pub use parser::posting;
pub use parser::transaction;
pub use parser::transaction_state;

pub use types::Account;
pub use types::Amount;
pub use types::CalendarDate;
pub use types::DecimalValue;
pub use types::ParseError;
pub use types::Posting;
pub use types::Transaction;
pub use types::TransactionState;
