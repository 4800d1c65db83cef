//! Signed hand-off chains for chip tags and the authority's mirror ledger.

pub mod builder;
pub mod bytes;
pub mod canon;
pub mod central_record;
pub mod chain;
pub mod chip_data;
pub mod database;
pub mod error;
pub mod import_config;
pub mod key;
pub mod requests;
pub mod rfid;
pub mod signature;
pub mod supply_chain;
