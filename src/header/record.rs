//! A generic header record: a key and a value.

use vstd::prelude::*;

verus! {

/// The key of a header record.
#[derive(Clone, Copy, Debug, PartialEq, Eq, Structural)]
pub enum Key {
    /// `fileformat`
    FileFormat,
    /// `INFO`
    Info,
    /// `FILTER`
    Filter,
    /// `FORMAT`
    Format,
    /// `ALT`
    AlternativeAllele,
    /// `contig`
    Contig,
}

/// The value of a header record.
#[derive(Clone, Debug, PartialEq, Eq)]
pub enum Value {
    /// A plain string.
    String(String),
    /// A list of key-value fields.
    Struct(Vec<(String, String)>),
}

/// A generic header record.
#[derive(Clone, Debug, PartialEq, Eq)]
pub struct Record {
    key: Key,
    value: Value,
}

impl Record {
    /// The key of the record.
    pub closed spec fn spec_key(&self) -> Key {
        self.key
    }

    /// The value of the record.
    pub closed spec fn spec_value(&self) -> Value {
        self.value
    }

    /// Creates a header record.
    pub fn new(key: Key, value: Value) -> (r: Self)
        ensures
            r.spec_key() == key,
            r.spec_value() == value,
    {
        Record { key, value }
    }

    /// Splits the record into its key and its value.
    pub fn into_parts(self) -> (r: (Key, Value))
        ensures
            r == (self.spec_key(), self.spec_value()),
    {
        (self.key, self.value)
    }
}

} // verus!
