use noodles_core::record::alternate_bases::ParseError;
use noodles_core::record::{Allele, AlternateBases, Base};

#[test]
fn test_from_str() -> Result<(), ParseError> {
    assert!(".".parse::<AlternateBases>()?.is_empty());

    let alternate_baes = "G".parse::<AlternateBases>()?;
    assert_eq!(alternate_baes.len(), 1);

    let alternate_baes = "G,T".parse::<AlternateBases>()?;
    assert_eq!(alternate_baes.len(), 2);

    assert!("".parse::<AlternateBases>().is_err());

    Ok(())
}

#[test]
fn alleles_of_each_kind() {
    let alternate_bases = AlternateBases::parse("AC,<DEL>,*,G]17:198982],N").unwrap();
    assert_eq!(
        alternate_bases.as_slice(),
        &[
            Allele::Bases(vec![Base::A, Base::C]),
            Allele::Symbol(String::from("DEL")),
            Allele::OverlappingDeletion,
            Allele::Breakend(String::from("G]17:198982]")),
            Allele::Bases(vec![Base::N]),
        ][..]
    );
}

#[test]
fn first_bad_allele_is_reported() {
    let err = AlternateBases::parse("A,X,<DEL").unwrap_err();
    assert_eq!(format!("{:?}", err), "ParseError(\"X\")");

    let err = AlternateBases::parse("A,,T").unwrap_err();
    assert_eq!(format!("{:?}", err), "ParseError(\"\")");

    let err = AlternateBases::parse("A,<DEL").unwrap_err();
    assert_eq!(format!("{:?}", err), "ParseError(\"<DEL\")");

    let err = AlternateBases::parse("").unwrap_err();
    assert_eq!(format!("{:?}", err), "ParseError(\"\")");

    assert!(AlternateBases::parse("A,.").is_err());
}

#[test]
fn single_allele_parse() {
    assert_eq!(Allele::parse("*"), Some(Allele::OverlappingDeletion));
    assert_eq!(Allele::parse("<INS:ME>"), Some(Allele::Symbol(String::from("INS:ME"))));
    assert_eq!(Allele::parse("<>"), None);
    assert_eq!(Allele::parse("[chr1:5[T"), Some(Allele::Breakend(String::from("[chr1:5[T"))));
    assert_eq!(Allele::parse("TTG"), Some(Allele::Bases(vec![Base::T, Base::T, Base::G])));
    assert_eq!(Allele::parse("acg"), None);
    assert_eq!(Allele::parse(""), None);
    assert_eq!(Base::from_char('C'), Some(Base::C));
    assert_eq!(Base::from_char('U'), None);
}

#[test]
fn default_is_empty() {
    assert!(AlternateBases::default().is_empty());
    assert_eq!(AlternateBases::default(), AlternateBases::parse(".").unwrap());
}

#[test]
fn parse_error_message() {
    let err = "A,Z".parse::<AlternateBases>().unwrap_err();
    assert_eq!(err.to_string(), "invalid alternate bases: Z");
}
