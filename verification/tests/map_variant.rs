use spyparty::Error;
use spyparty::TeienVariant;

#[test]
fn known_teien_variant() {
    let result: TeienVariant = TeienVariant::try_from(3).unwrap();
    assert_eq!(result, TeienVariant::StatuesStatuesBooks);
}

#[test]
fn unknown_teien_variant() {
    let result: Result<TeienVariant, Error> = TeienVariant::try_from(8);

    match result {
        Err(Error::UnknownMapVariant(variant)) => assert!(variant == 8),
        _ => assert!(false),
    }
}
