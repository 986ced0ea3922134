//! Rule-based categorization of ledger transactions: which rules apply to
//! a transaction, how each uncategorized transaction is classified, and the
//! preview, apply and resolve steps built on that classification.
pub mod model;
pub mod records;
pub mod pattern;
pub mod matcher;
pub mod planner;
pub mod preview;
pub mod apply;
pub mod resolve;
pub mod registry;
pub mod forms;
