//! The rules that every member applies to a transaction.

pub mod transaction;
