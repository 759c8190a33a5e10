use spyparty::ByteReader;
use spyparty::Error;
use spyparty::Mission;
use spyparty::missions_from_mask;
use spyparty::read_u128;
use spyparty::read_u16;
use spyparty::read_u32;
use spyparty::read_u8;
use spyparty::string_eq_ignore_case;

#[test]
fn reads_are_little_endian() {
    let data: Vec<u8> = vec![
        0x01, 0x02, 0x03, 0x04, 0x05, 0x06, 0x07, 0x08, 0x09, 0x0a, 0x0b, 0x0c, 0x0d, 0x0e, 0x0f,
        0x10, 0x11, 0x12, 0x13, 0x14, 0x15, 0x16, 0x17,
    ];
    let mut reader = ByteReader::new(data);

    assert_eq!(read_u8(&mut reader).unwrap(), 0x01);
    assert_eq!(read_u16(&mut reader).unwrap(), 0x0302);
    assert_eq!(read_u32(&mut reader).unwrap(), 0x07060504);
    assert_eq!(
        read_u128(&mut reader).unwrap(),
        0x17161514131211100f0e0d0c0b0a0908u128
    );
}

#[test]
fn read_past_end_fails_without_consuming() {
    let mut reader = ByteReader::new(vec![0x2a]);

    match read_u32(&mut reader) {
        Err(Error::Truncated) => {}
        _ => assert!(false),
    }
    // The failed read consumed nothing: the single byte is still there.
    assert_eq!(read_u8(&mut reader).unwrap(), 0x2a);
    match read_u8(&mut reader) {
        Err(Error::Truncated) => {}
        _ => assert!(false),
    }
}

#[test]
fn string_eq_ignore_case_matches() {
    assert!(string_eq_ignore_case("test", "test"));
    assert!(string_eq_ignore_case("TeSt", "tEst"));
    assert!(string_eq_ignore_case("GRÜN", "grün"));
    assert!(!string_eq_ignore_case("test", "text"));
}

#[test]
fn missions_from_empty_mask() {
    assert_eq!(missions_from_mask(0), Vec::<Mission>::new());
}

#[test]
fn missions_from_full_mask() {
    assert_eq!(
        missions_from_mask(0xff),
        vec![
            Mission::BugAmbassador,
            Mission::ContactDoubleAgent,
            Mission::TransferMicrofilm,
            Mission::SwapStatue,
            Mission::InspectStatues,
            Mission::SeduceTarget,
            Mission::PurloinGuestList,
            Mission::FingerprintAmbassador
        ]
    );
}

#[test]
fn missions_are_ascending_from_scattered_mask() {
    assert_eq!(
        missions_from_mask(0b0100_0101),
        vec![Mission::BugAmbassador, Mission::TransferMicrofilm, Mission::PurloinGuestList]
    );
}

#[test]
fn mission_bits_above_the_table_add_nothing() {
    assert_eq!(missions_from_mask(0xffff_ff00), Vec::<Mission>::new());
    assert_eq!(missions_from_mask(0x0000_0101), vec![Mission::BugAmbassador]);
}
