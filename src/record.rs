//! Fields of a variant call record.

pub mod allele;
pub mod alternate_bases;

pub use self::allele::{Allele, Base};
pub use self::alternate_bases::AlternateBases;
