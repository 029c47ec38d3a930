//! Double-entry bookkeeping for a household or a small business: a chart
//! of accounts, a journal of balanced entries, the ledger that follows from
//! the journal, and the reports that show them.
//!
//! Amounts are whole cents, so that "debit equals credit" is an exact test
//! and a balance is an exact sum.
//!
//! - [`cuadro_contable`]: accounts, movements, entries, the chart that owns
//!   them, the journal, the classification of account codes, and budgets.
//! - [`lectura`]: the flat files that the accounts, the entries and the
//!   opening balance are read from.
//! - [`elementos`] and [`cuenta`]: a simpler ledger in which accounts go by
//!   name and each movement debits one account and credits another.
//! - [`fecha`], [`importe`], [`blancos`], [`texto`] and [`patrones`]: dates,
//!   amounts, white space, report text and regular expressions.

pub mod patrones;
pub mod texto;
pub mod fecha;
pub mod importe;
pub mod blancos;
pub mod cuenta;
pub mod elementos;
pub mod cuadro_contable;
pub mod lectura;
