use spyparty::Error;
use spyparty::GameMap;

#[test]
fn known_map() {
    let result: GameMap = 0x1dbd8e41u32.into();
    assert_eq!(result, GameMap::Balcony);
}

#[test]
fn unknown_map() {
    let result: GameMap = 1u32.into();
    assert_eq!(result, GameMap::Unknown(1));
}

#[test]
fn string_into_known_map() {
    let result: GameMap = GameMap::try_from("pub").unwrap();
    assert_eq!(result, GameMap::Pub);
}

#[test]
fn string_into_known_map_ci() {
    let result: GameMap = GameMap::try_from("BallRoom").unwrap();
    assert_eq!(result, GameMap::Ballroom);
}

#[test]
fn string_into_unknown_map() {
    let result: Result<GameMap, Error> = GameMap::try_from("unknown");

    match result {
        Err(Error::UnknownMap(map)) => assert!(map == "unknown"),
        _ => assert!(false),
    }
}

#[test]
fn string_with_spaces_into_map() {
    let result: GameMap = GameMap::try_from("Old Courtyard 2").unwrap();
    assert_eq!(result, GameMap::OldCourtyard2);
}

#[test]
fn both_high_rise_codes_agree() {
    let a: GameMap = 0x1a56c5a1u32.into();
    let b: GameMap = 0x3a30c326u32.into();
    assert_eq!(a, GameMap::HighRise);
    assert_eq!(b, GameMap::HighRise);
}

#[test]
fn map_names() {
    assert_eq!(GameMap::HighRise.name(), "High-Rise");
    assert_eq!(GameMap::OldCourtyard1.name(), "Old Courtyard 1");
    assert_eq!(GameMap::Unknown(7).name(), "Unknown");
}
