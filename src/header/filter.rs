//! The filter header record (`FILTER`).

use vstd::prelude::*;

use super::record::{self, Record};

verus! {

/// A field of a filter header record.
#[derive(Clone, Copy, Debug, PartialEq, Eq, Structural)]
pub enum Key {
    /// `ID`
    Id,
    /// `Description`
    Description,
}

impl Key {
    /// The name of the field.
    pub open spec fn spec_name(self) -> Seq<char> {
        match self {
            Key::Id => "ID"@,
            Key::Description => "Description"@,
        }
    }

    /// Returns the name of the field.
    pub fn as_str(&self) -> (r: &'static str)
        ensures
            r@ == self.spec_name(),
    {
        match self {
            Key::Id => "ID",
            Key::Description => "Description",
        }
    }
}

/// An error returned when a generic header record fails to convert to a filter
/// header record.
#[derive(Clone, Copy, Debug, PartialEq, Eq, Structural)]
pub enum TryFromRecordError {
    /// The record is not a filter record with a list of fields.
    InvalidRecord,
    /// A field is missing.
    MissingField(Key),
}

impl TryFromRecordError {
    /// A message that describes the error.
    pub fn to_string(&self) -> (r: String)
        ensures
            r@ == match self {
                TryFromRecordError::InvalidRecord => "invalid record"@,
                TryFromRecordError::MissingField(key) => "missing "@ + key.spec_name()
                    + " field"@,
            },
    {
        match self {
            TryFromRecordError::InvalidRecord => String::from_str("invalid record"),
            TryFromRecordError::MissingField(key) => {
                let mut s = String::from_str("missing ");
                s.append(key.as_str());
                s.append(" field");
                s
            },
        }
    }
}

/// The ID and the description that a filter record's fields give: the first
/// field must be `ID`, the second `Description`; later fields are ignored.
pub open spec fn filter_fields(fields: Seq<(String, String)>) -> Result<
    (Seq<char>, Seq<char>),
    TryFromRecordError,
> {
    if fields.len() == 0 || fields[0].0@ != "ID"@ {
        Err(TryFromRecordError::MissingField(Key::Id))
    } else if fields.len() < 2 || fields[1].0@ != "Description"@ {
        Err(TryFromRecordError::MissingField(Key::Description))
    } else {
        Ok((fields[0].1@, fields[1].1@))
    }
}

/// What converting a generic header record gives.
pub open spec fn filter_of_record(record: Record) -> Result<
    (Seq<char>, Seq<char>),
    TryFromRecordError,
> {
    match record.spec_value() {
        record::Value::Struct(fields) => if record.spec_key() == record::Key::Filter {
            filter_fields(fields@)
        } else {
            Err(TryFromRecordError::InvalidRecord)
        },
        _ => Err(TryFromRecordError::InvalidRecord),
    }
}

/// The view of a conversion result: the filter's ID and description, or the error.
pub open spec fn result_view(r: Result<Filter, TryFromRecordError>) -> Result<
    (Seq<char>, Seq<char>),
    TryFromRecordError,
> {
    match r {
        Ok(f) => Ok(f@),
        Err(e) => Err(e),
    }
}

/// A filter header record (`FILTER`).
#[derive(Clone, Debug, PartialEq, Eq)]
pub struct Filter {
    id: String,
    description: String,
}

impl View for Filter {
    type V = (Seq<char>, Seq<char>);

    /// The ID and the description.
    closed spec fn view(&self) -> (Seq<char>, Seq<char>) {
        (self.id@, self.description@)
    }
}

fn parse_struct(fields: Vec<(String, String)>) -> (r: Result<Filter, TryFromRecordError>)
    ensures
        result_view(r) == filter_fields(fields@),
{
    let mut fields = fields;
    if fields.len() == 0 || fields[0].0 != String::from_str("ID") {
        return Err(TryFromRecordError::MissingField(Key::Id));
    }
    if fields.len() < 2 || fields[1].0 != String::from_str("Description") {
        return Err(TryFromRecordError::MissingField(Key::Description));
    }
    let ghost start = fields@;
    let (_, id) = fields.remove(0);
    let (_, description) = fields.remove(0);
    assert(start.remove(0)[0] == start[1]);
    Ok(Filter { id, description })
}

impl Filter {
    /// Creates the filter record for `PASS`.
    pub fn pass() -> (r: Self)
        ensures
            r@ == ("PASS"@, "All filters passed"@),
    {
        Self::new(String::from_str("PASS"), String::from_str("All filters passed"))
    }

    /// Creates a filter header record.
    pub fn new(id: String, description: String) -> (r: Self)
        ensures
            r@ == (id@, description@),
    {
        Self { id, description }
    }

    /// Returns the ID of the filter.
    pub fn id(&self) -> (r: &str)
        ensures
            r@ == self@.0,
    {
        self.id.as_str()
    }

    /// Returns the description of the filter.
    pub fn description(&self) -> (r: &str)
        ensures
            r@ == self@.1,
    {
        self.description.as_str()
    }

    /// Converts a generic header record: a `FILTER` record whose value is a list
    /// of fields, `ID` first and `Description` second.
    pub fn try_from(record: Record) -> (r: Result<Filter, TryFromRecordError>)
        ensures
            result_view(r) == filter_of_record(record),
    {
        match record.into_parts() {
            (record::Key::Filter, record::Value::Struct(fields)) => parse_struct(fields),
            _ => Err(TryFromRecordError::InvalidRecord),
        }
    }

    /// The header line of the record:
    /// `##FILTER=<ID=<id>,Description="<description>">`.
    pub fn to_string(&self) -> (r: String)
        ensures
            r@ == "##FILTER=<ID="@ + self@.0 + ",Description=\""@ + self@.1 + "\">"@,
    {
        let mut s = String::from_str("##FILTER=<ID=");
        s.append(self.id.as_str());
        s.append(",Description=\"");
        s.append(self.description.as_str());
        s.append("\">");
        s
    }
}

} // verus!
