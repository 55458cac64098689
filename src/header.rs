//! Header records of a variant call file.

pub mod filter;
pub mod record;

pub use self::filter::Filter;
pub use self::record::Record;
