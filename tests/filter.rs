use noodles_core::header::filter::{Key, TryFromRecordError};
use noodles_core::header::record::{self, Record};
use noodles_core::header::Filter;

fn build_record() -> Record {
    Record::new(
        record::Key::Filter,
        record::Value::Struct(vec![
            (String::from("ID"), String::from("q10")),
            (
                String::from("Description"),
                String::from("Quality below 10"),
            ),
        ]),
    )
}

#[test]
fn test_fmt() -> Result<(), TryFromRecordError> {
    let record = build_record();
    let filter = Filter::try_from(record)?;

    let expected = r#"##FILTER=<ID=q10,Description="Quality below 10">"#;
    assert_eq!(filter.to_string(), expected);

    Ok(())
}

#[test]
fn test_try_from_record_for_filter() {
    let record = build_record();

    assert_eq!(
        Filter::try_from(record),
        Ok(Filter::new(
            String::from("q10"),
            String::from("Quality below 10"),
        ))
    );
}

#[test]
fn test_try_from_record_for_filter_with_an_invalid_record_key() {
    let record = Record::new(
        record::Key::FileFormat,
        record::Value::Struct(vec![
            (String::from("ID"), String::from("q10")),
            (
                String::from("Description"),
                String::from("Quality below 10"),
            ),
        ]),
    );

    assert_eq!(
        Filter::try_from(record),
        Err(TryFromRecordError::InvalidRecord)
    );
}

#[test]
fn test_try_from_record_for_filter_with_an_invalid_record_value() {
    let record = Record::new(
        record::Key::Filter,
        record::Value::String(String::from("VCFv4.3")),
    );

    assert_eq!(
        Filter::try_from(record),
        Err(TryFromRecordError::InvalidRecord)
    );
}

#[test]
fn test_try_from_record_for_filter_with_a_missing_field() {
    let record = Record::new(
        record::Key::Filter,
        record::Value::Struct(vec![(String::from("ID"), String::from("q10"))]),
    );

    assert!(matches!(
        Filter::try_from(record),
        Err(TryFromRecordError::MissingField(_))
    ));
}

#[test]
fn missing_field_names_the_field() {
    let only_id = Record::new(
        record::Key::Filter,
        record::Value::Struct(vec![(String::from("ID"), String::from("q10"))]),
    );
    assert_eq!(
        Filter::try_from(only_id),
        Err(TryFromRecordError::MissingField(Key::Description))
    );

    let empty = Record::new(record::Key::Filter, record::Value::Struct(Vec::new()));
    assert_eq!(
        Filter::try_from(empty),
        Err(TryFromRecordError::MissingField(Key::Id))
    );

    let swapped = Record::new(
        record::Key::Filter,
        record::Value::Struct(vec![
            (String::from("Description"), String::from("Quality below 10")),
            (String::from("ID"), String::from("q10")),
        ]),
    );
    assert_eq!(
        Filter::try_from(swapped),
        Err(TryFromRecordError::MissingField(Key::Id))
    );
}

#[test]
fn pass_filter() {
    let filter = Filter::pass();
    assert_eq!(
        filter,
        Filter::new(String::from("PASS"), String::from("All filters passed"))
    );
    assert_eq!(filter.id(), "PASS");
    assert_eq!(filter.description(), "All filters passed");
    assert_eq!(
        filter.to_string(),
        r#"##FILTER=<ID=PASS,Description="All filters passed">"#
    );
}

#[test]
fn error_messages() {
    assert_eq!(TryFromRecordError::InvalidRecord.to_string(), "invalid record");
    assert_eq!(
        TryFromRecordError::MissingField(Key::Id).to_string(),
        "missing ID field"
    );
    assert_eq!(
        TryFromRecordError::MissingField(Key::Description).to_string(),
        "missing Description field"
    );
    assert_eq!(Key::Description.as_str(), "Description");
}
