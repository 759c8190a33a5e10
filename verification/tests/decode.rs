use spyparty::ByteReader;
use spyparty::Error;
use spyparty::GameMap;
use spyparty::GameMode;
use spyparty::GameResult;
use spyparty::Mission;
use spyparty::Replay;

/// A version-6 header (two-byte protocol field, four-byte flags field)
/// followed by a version-3 result block, with the given name fields; a
/// zero-length display name is absent.
fn v6_bytes_with_names(
    spy_user: &[u8],
    sniper_user: &[u8],
    spy_display: &[u8],
    sniper_display: &[u8],
) -> Vec<u8> {
    let mut b: Vec<u8> = Vec::new();
    b.extend_from_slice(&6u16.to_le_bytes()); // replay version
    b.extend_from_slice(&24u16.to_le_bytes()); // protocol version
    b.extend_from_slice(&6263u16.to_le_bytes()); // build
    b.extend_from_slice(&0u32.to_le_bytes()); // flags
    b.extend_from_slice(&6.434123f32.to_bits().to_le_bytes()); // duration
    b.extend_from_slice(&0x65d17046449f88954f7ba11f6ffa3f1fu128.to_le_bytes()); // game id
    b.extend_from_slice(&1540275833u32.to_le_bytes()); // start time
    b.extend_from_slice(&1u32.to_le_bytes()); // play id
    b.extend_from_slice(&(spy_user.len() as u16).to_le_bytes());
    b.extend_from_slice(&(sniper_user.len() as u16).to_le_bytes());
    b.extend_from_slice(&(spy_display.len() as u16).to_le_bytes());
    b.extend_from_slice(&(sniper_display.len() as u16).to_le_bytes());
    b.extend_from_slice(&0.75f32.to_bits().to_le_bytes()); // latency
    b.extend_from_slice(&7304u32.to_le_bytes()); // data size
    b.extend_from_slice(spy_user);
    b.extend_from_slice(sniper_user);
    b.extend_from_slice(spy_display);
    b.extend_from_slice(sniper_display);
    b.push(3); // result block version
    b.push(0); // simple rules: false
    b.push(3); // outcome: civilian shot
    b.extend_from_slice(&((2u32 << 28) | (4 << 14) | 8).to_le_bytes()); // any 4 of 8
    b.extend_from_slice(&0x79dfa0cfu32.to_le_bytes()); // map: Teien
    b.extend_from_slice(&4u32.to_le_bytes()); // map variant
    b.extend_from_slice(&0xffu32.to_le_bytes()); // selected missions
    b.extend_from_slice(&0xffu32.to_le_bytes()); // picked missions
    b.extend_from_slice(&0u32.to_le_bytes()); // completed missions
    b.push(14); // guests
    b.extend_from_slice(&210u32.to_le_bytes()); // clock start
    b
}

fn v6_bytes() -> Vec<u8> {
    v6_bytes_with_names(b"practice", b"practice", b"", b"")
}

/// A version-3 header (one-byte protocol field, one-byte flags field)
/// followed by a version-0 result block.
fn v3_bytes() -> Vec<u8> {
    let mut b: Vec<u8> = Vec::new();
    b.extend_from_slice(&3u16.to_le_bytes()); // replay version
    b.push(20); // protocol version
    b.extend_from_slice(&5138u16.to_le_bytes()); // build
    b.push(0); // flags
    b.extend_from_slice(&192.375f32.to_bits().to_le_bytes()); // duration
    b.extend_from_slice(&0x6739d1d6709b81a2d44e20785467d360u128.to_le_bytes()); // game id
    b.extend_from_slice(&1497124602u32.to_le_bytes()); // start time
    b.extend_from_slice(&2u32.to_le_bytes()); // play id
    b.extend_from_slice(&13u16.to_le_bytes()); // spy user len
    b.extend_from_slice(&10u16.to_le_bytes()); // sniper user len
    b.extend_from_slice(&0u16.to_le_bytes()); // spy display len
    b.extend_from_slice(&0u16.to_le_bytes()); // sniper display len
    b.extend_from_slice(&0.75f32.to_bits().to_le_bytes()); // latency
    b.extend_from_slice(&132918u32.to_le_bytes()); // data size
    b.extend_from_slice(b"canadianbacon");
    b.extend_from_slice(b"krazycaley");
    b.push(0); // result block version: no ruleset flag, no tail fields
    b.push(2); // outcome: spy shot
    b.extend_from_slice(&((2u32 << 28) | (5 << 14) | 8).to_le_bytes()); // any 5 of 8
    b.extend_from_slice(&0x6f81a558u32.to_le_bytes()); // map: Veranda
    b.extend_from_slice(&0u32.to_le_bytes()); // map variant
    b.extend_from_slice(&0xffu32.to_le_bytes()); // selected missions
    b.extend_from_slice(&0xffu32.to_le_bytes()); // picked missions
    b.extend_from_slice(&0b0101_1000u32.to_le_bytes()); // completed missions
    b
}

/// A version-4 header (two-byte protocol field, four-byte flags field)
/// followed by a version-1 result block: the ruleset flag is present, the
/// guest count and clock start are not.
fn v4_bytes() -> Vec<u8> {
    let mut b: Vec<u8> = Vec::new();
    b.extend_from_slice(&4u16.to_le_bytes()); // replay version
    b.extend_from_slice(&23u16.to_le_bytes()); // protocol version
    b.extend_from_slice(&6015u16.to_le_bytes()); // build
    b.extend_from_slice(&0u32.to_le_bytes()); // flags
    b.extend_from_slice(&155.875f32.to_bits().to_le_bytes()); // duration
    b.extend_from_slice(&0x034bef9023a8ae82934b2e4cf8d97854u128.to_le_bytes()); // game id
    b.extend_from_slice(&1523357331u32.to_le_bytes()); // start time
    b.extend_from_slice(&2u32.to_le_bytes()); // play id
    b.extend_from_slice(&11u16.to_le_bytes()); // spy user len
    b.extend_from_slice(&9u16.to_le_bytes()); // sniper user len
    b.extend_from_slice(&0u16.to_le_bytes()); // spy display len
    b.extend_from_slice(&0u16.to_le_bytes()); // sniper display len
    b.extend_from_slice(&0.75f32.to_bits().to_le_bytes()); // latency
    b.extend_from_slice(&125564u32.to_le_bytes()); // data size
    b.extend_from_slice(b"adamintokyo");
    b.extend_from_slice(b"plastikqs");
    b.push(1); // result block version: ruleset flag, no tail fields
    b.push(1); // simple rules: true
    b.push(2); // outcome: spy shot
    b.extend_from_slice(&4u32.to_le_bytes()); // known preset 4
    b.extend_from_slice(&0x5b121925u32.to_le_bytes()); // map: Ballroom
    b.extend_from_slice(&0u32.to_le_bytes()); // map variant
    b.extend_from_slice(&0b0010_1011u32.to_le_bytes()); // selected missions
    b.extend_from_slice(&0b0010_1011u32.to_le_bytes()); // picked missions
    b.extend_from_slice(&0b0000_0001u32.to_le_bytes()); // completed missions
    b
}

#[test]
fn decode_v6_header() {
    let mut reader = ByteReader::new(v6_bytes());
    let replay = Replay::from_reader(&mut reader).unwrap();

    assert_eq!(replay.header.replay_version, 6);
    assert_eq!(replay.header.protocol_version, 24);
    assert_eq!(replay.header.spyparty_version, 6263);
    assert_eq!(replay.header.flags, 0);
    assert_eq!(replay.header.duration_bits, 6.434123f32.to_bits());
    assert_eq!(replay.header.game_id, 0x65d17046449f88954f7ba11f6ffa3f1f);
    assert_eq!(replay.header.start_time, 1540275833);
    assert_eq!(replay.header.play_id, 1);
    assert_eq!(replay.header.spy_user_len, 8);
    assert_eq!(replay.header.sniper_user_len, 8);
    assert_eq!(replay.header.spy_display_len, 0);
    assert_eq!(replay.header.sniper_display_len, 0);
    assert_eq!(replay.header.latency_bits, 0.75f32.to_bits());
    assert_eq!(replay.header.data_size, 7304);
    assert_eq!(replay.header.spy_user_name, "practice");
    assert_eq!(replay.header.sniper_user_name, "practice");
    assert_eq!(replay.header.spy_display_name, None);
    assert_eq!(replay.header.sniper_display_name, None);
    assert_eq!(replay.header.result_data.version, 3);
    assert_eq!(replay.header.result_data.simple_rules, Some(false));
    assert_eq!(replay.header.result_data.game_result, GameResult::CivilianShot);
    assert_eq!(replay.header.result_data.game_mode, GameMode::Any(4, 8));
    assert_eq!(replay.header.result_data.map, GameMap::Teien);
    assert_eq!(replay.header.result_data.map_variant, 4);
    assert_eq!(
        replay.header.result_data.selected_missions,
        vec![
            Mission::BugAmbassador,
            Mission::ContactDoubleAgent,
            Mission::TransferMicrofilm,
            Mission::SwapStatue,
            Mission::InspectStatues,
            Mission::SeduceTarget,
            Mission::PurloinGuestList,
            Mission::FingerprintAmbassador
        ]
    );
    assert_eq!(
        replay.header.result_data.picked_missions,
        vec![
            Mission::BugAmbassador,
            Mission::ContactDoubleAgent,
            Mission::TransferMicrofilm,
            Mission::SwapStatue,
            Mission::InspectStatues,
            Mission::SeduceTarget,
            Mission::PurloinGuestList,
            Mission::FingerprintAmbassador
        ]
    );
    assert_eq!(replay.header.result_data.completed_missions, Vec::<Mission>::new());
    assert_eq!(replay.header.result_data.guests, Some(14));
    assert_eq!(replay.header.result_data.clock_start, Some(210));
}

#[test]
fn decode_v3_header() {
    let mut reader = ByteReader::new(v3_bytes());
    let replay = Replay::from_reader(&mut reader).unwrap();

    assert_eq!(replay.header.replay_version, 3);
    assert_eq!(replay.header.protocol_version, 20);
    assert_eq!(replay.header.spyparty_version, 5138);
    assert_eq!(replay.header.flags, 0);
    assert_eq!(replay.header.duration_bits, 192.375f32.to_bits());
    assert_eq!(replay.header.game_id, 0x6739d1d6709b81a2d44e20785467d360);
    assert_eq!(replay.header.start_time, 1497124602);
    assert_eq!(replay.header.play_id, 2);
    assert_eq!(replay.header.spy_user_name, "canadianbacon");
    assert_eq!(replay.header.sniper_user_name, "krazycaley");
    assert_eq!(replay.header.spy_display_name, None);
    assert_eq!(replay.header.sniper_display_name, None);
    assert_eq!(replay.header.data_size, 132918);
    assert_eq!(replay.header.result_data.version, 0);
    assert_eq!(replay.header.result_data.simple_rules, None);
    assert_eq!(replay.header.result_data.game_result, GameResult::SpyShot);
    assert_eq!(replay.header.result_data.game_mode, GameMode::Any(5, 8));
    assert_eq!(replay.header.result_data.map, GameMap::Veranda);
    assert_eq!(
        replay.header.result_data.completed_missions,
        vec![Mission::SwapStatue, Mission::InspectStatues, Mission::PurloinGuestList]
    );
    assert_eq!(replay.header.result_data.guests, None);
    assert_eq!(replay.header.result_data.clock_start, None);
}

#[test]
fn decode_v4_header() {
    let mut reader = ByteReader::new(v4_bytes());
    let replay = Replay::from_reader(&mut reader).unwrap();

    assert_eq!(replay.header.replay_version, 4);
    assert_eq!(replay.header.protocol_version, 23);
    assert_eq!(replay.header.spyparty_version, 6015);
    assert_eq!(replay.header.duration_bits, 155.875f32.to_bits());
    assert_eq!(replay.header.game_id, 0x034bef9023a8ae82934b2e4cf8d97854);
    assert_eq!(replay.header.start_time, 1523357331);
    assert_eq!(replay.header.play_id, 2);
    assert_eq!(replay.header.spy_user_name, "adamintokyo");
    assert_eq!(replay.header.sniper_user_name, "plastikqs");
    assert_eq!(replay.header.data_size, 125564);
    assert_eq!(replay.header.result_data.version, 1);
    assert_eq!(replay.header.result_data.simple_rules, Some(true));
    assert_eq!(replay.header.result_data.game_result, GameResult::SpyShot);
    assert_eq!(replay.header.result_data.game_mode, GameMode::Known(4));
    assert_eq!(replay.header.result_data.map, GameMap::Ballroom);
    assert_eq!(
        replay.header.result_data.selected_missions,
        vec![
            Mission::BugAmbassador,
            Mission::ContactDoubleAgent,
            Mission::SwapStatue,
            Mission::SeduceTarget
        ]
    );
    assert_eq!(replay.header.result_data.completed_missions, vec![Mission::BugAmbassador]);
    assert_eq!(replay.header.result_data.guests, None);
    assert_eq!(replay.header.result_data.clock_start, None);
}

#[test]
fn decode_result_version_two_has_tail_fields() {
    let mut bytes = v6_bytes();
    // Lower the result-block version from 3 to 2: the ruleset flag, guest
    // count and clock start must all still be present.
    bytes[70] = 2;
    let mut reader = ByteReader::new(bytes);
    let replay = Replay::from_reader(&mut reader).unwrap();

    assert_eq!(replay.header.result_data.version, 2);
    assert_eq!(replay.header.result_data.simple_rules, Some(false));
    assert_eq!(replay.header.result_data.guests, Some(14));
    assert_eq!(replay.header.result_data.clock_start, Some(210));
}

#[test]
fn decode_display_names() {
    let mut reader = ByteReader::new(v6_bytes_with_names(b"spyacct", b"snipacct", b"Spy Star", b"Sharp Eye"));
    let replay = Replay::from_reader(&mut reader).unwrap();

    assert_eq!(replay.header.spy_user_name, "spyacct");
    assert_eq!(replay.header.sniper_user_name, "snipacct");
    assert_eq!(replay.header.spy_display_name, Some("Spy Star".to_string()));
    assert_eq!(replay.header.sniper_display_name, Some("Sharp Eye".to_string()));
    assert_eq!(replay.spy_name(), "Spy Star");
    assert_eq!(replay.sniper_name(), "Sharp Eye");
}

#[test]
fn malformed_text_is_replaced() {
    let mut reader = ByteReader::new(v6_bytes_with_names(&[0x66, 0xff, 0x6f], b"ok", b"", b""));
    let replay = Replay::from_reader(&mut reader).unwrap();

    assert_eq!(replay.header.spy_user_name, "f\u{fffd}o");
    assert_eq!(replay.header.sniper_user_name, "ok");
}

#[test]
fn decode_is_deterministic() {
    let mut r1 = ByteReader::new(v6_bytes());
    let mut r2 = ByteReader::new(v6_bytes());
    let a = Replay::from_reader(&mut r1).unwrap();
    let b = Replay::from_reader(&mut r2).unwrap();

    assert_eq!(a.header.replay_version, b.header.replay_version);
    assert_eq!(a.header.protocol_version, b.header.protocol_version);
    assert_eq!(a.header.spyparty_version, b.header.spyparty_version);
    assert_eq!(a.header.flags, b.header.flags);
    assert_eq!(a.header.duration_bits, b.header.duration_bits);
    assert_eq!(a.header.game_id, b.header.game_id);
    assert_eq!(a.header.start_time, b.header.start_time);
    assert_eq!(a.header.play_id, b.header.play_id);
    assert_eq!(a.header.spy_user_name, b.header.spy_user_name);
    assert_eq!(a.header.sniper_user_name, b.header.sniper_user_name);
    assert_eq!(a.header.spy_display_name, b.header.spy_display_name);
    assert_eq!(a.header.sniper_display_name, b.header.sniper_display_name);
    assert_eq!(a.header.result_data.version, b.header.result_data.version);
    assert_eq!(a.header.result_data.simple_rules, b.header.result_data.simple_rules);
    assert_eq!(a.header.result_data.game_result, b.header.result_data.game_result);
    assert_eq!(a.header.result_data.game_mode, b.header.result_data.game_mode);
    assert_eq!(a.header.result_data.map, b.header.result_data.map);
    assert_eq!(a.header.result_data.map_variant, b.header.result_data.map_variant);
    assert_eq!(a.header.result_data.selected_missions, b.header.result_data.selected_missions);
    assert_eq!(a.header.result_data.picked_missions, b.header.result_data.picked_missions);
    assert_eq!(a.header.result_data.completed_missions, b.header.result_data.completed_missions);
    assert_eq!(a.header.result_data.guests, b.header.result_data.guests);
    assert_eq!(a.header.result_data.clock_start, b.header.result_data.clock_start);
}

#[test]
fn truncated_spy_user_name() {
    let mut bytes = v6_bytes();
    // Cut the stream three bytes into the spy's account name, which starts
    // right after the 54-byte fixed preamble of a version-6 header.
    bytes.truncate(57);
    let mut reader = ByteReader::new(bytes);

    match Replay::from_reader(&mut reader) {
        Err(Error::Truncated) => {}
        _ => assert!(false),
    }
}

#[test]
fn unsupported_version_fails_fast() {
    // Two bytes only: the decoder must reject the version before asking for
    // any further field.
    let mut reader = ByteReader::new(vec![99, 0]);

    match Replay::from_reader(&mut reader) {
        Err(Error::UnsupportedReplayVersion(99)) => {}
        _ => assert!(false),
    }
}

#[test]
fn unsupported_result_version() {
    let mut bytes = v6_bytes();
    // The result block starts right after the preamble and the two eight-byte
    // account names; overwrite its version byte.
    bytes[70] = 9;
    let mut reader = ByteReader::new(bytes);

    match Replay::from_reader(&mut reader) {
        Err(Error::UnsupportedResultVersion(9)) => {}
        _ => assert!(false),
    }
}

#[test]
fn unknown_game_mode() {
    let mut bytes = v6_bytes();
    // Overwrite the packed game-mode value with one whose tag bits match no
    // known interpretation.
    let bad = (7u32 << 28).to_le_bytes();
    bytes[73] = bad[0];
    bytes[74] = bad[1];
    bytes[75] = bad[2];
    bytes[76] = bad[3];
    let mut reader = ByteReader::new(bytes);

    match Replay::from_reader(&mut reader) {
        Err(Error::UnknownGameMode(m)) => assert_eq!(m, 7u32 << 28),
        _ => assert!(false),
    }
}

#[test]
fn decode_v2_header_at_lower_bound() {
    // Version 2 is the oldest supported layout; it reads like version 3.
    let mut bytes = v3_bytes();
    bytes[0] = 2;
    let mut reader = ByteReader::new(bytes);
    let replay = Replay::from_reader(&mut reader).unwrap();

    assert_eq!(replay.header.replay_version, 2);
    assert_eq!(replay.header.protocol_version, 20);
    assert_eq!(replay.header.spy_user_name, "canadianbacon");
    assert_eq!(replay.header.result_data.map, GameMap::Veranda);
}

#[test]
fn version_above_range_fails() {
    let mut bytes = v6_bytes();
    bytes[0] = 7;

    let mut reader = ByteReader::new(bytes);
    match Replay::from_reader(&mut reader) {
        Err(Error::UnsupportedReplayVersion(7)) => {}
        _ => assert!(false),
    }
}

#[test]
fn version_below_range_fails() {
    let mut bytes = v3_bytes();
    bytes[0] = 1;

    let mut reader = ByteReader::new(bytes);
    match Replay::from_reader(&mut reader) {
        Err(Error::UnsupportedReplayVersion(1)) => {}
        _ => assert!(false),
    }
}

#[test]
fn empty_input_is_truncated() {
    let mut reader = ByteReader::new(Vec::new());

    match Replay::from_reader(&mut reader) {
        Err(Error::Truncated) => {}
        _ => assert!(false),
    }
}
