use ggst_api::messagepack::{Player as PlayerRecord, Replay};
use ggst_api::text::{
    decimal_bytes, escape_bytes, from_hex, parse_u64, push_hex, short_hex_bytes, to_hex_bytes,
};
use ggst_api::{
    id_from_bytes, match_from_replay, show_buf, Character, Error, Floor, Match, MatchSet, Player,
    Timestamp, Winner,
};

#[test]
fn hexadecimal_digits() {
    assert_eq!(to_hex_bytes(&[0x00, 0x9a, 0xff, 0x7f], true), b"009AFF7F");
    assert_eq!(to_hex_bytes(&[0x00, 0x9a, 0xff, 0x7f], false), b"009aff7f");
    assert_eq!(to_hex_bytes(&[], true), b"");
    let mut out = b"x".to_vec();
    push_hex(&mut out, 0x0a, false);
    push_hex(&mut out, 0x0a, true);
    assert_eq!(out, b"x0a0A");
    assert_eq!(short_hex_bytes(0x00), b"0");
    assert_eq!(short_hex_bytes(0x0f), b"f");
    assert_eq!(short_hex_bytes(0x10), b"10");
    assert_eq!(short_hex_bytes(0xff), b"ff");
    for byte in 0u8..=255 {
        assert_eq!(String::from_utf8(short_hex_bytes(byte)).unwrap(), format!("{:x}", byte));
        assert_eq!(String::from_utf8(to_hex_bytes(&[byte], true)).unwrap(), format!("{:02X}", byte));
    }
}

#[test]
fn bytes_are_read_from_hexadecimal_digits() {
    assert_eq!(from_hex(b"9295b2"), Some(vec![0x92, 0x95, 0xb2]));
    assert_eq!(from_hex(b"9295B2"), Some(vec![0x92, 0x95, 0xb2]));
    assert_eq!(from_hex(b"00ff"), Some(vec![0x00, 0xff]));
    assert_eq!(from_hex(b""), Some(vec![]));
    assert_eq!(from_hex(b"929"), None);
    assert_eq!(from_hex(b"9g"), None);
    assert_eq!(from_hex(b"+9"), None);
    assert_eq!(from_hex(b" 9"), None);
    let all: Vec<u8> = (0u8..=255).collect();
    assert_eq!(from_hex(&to_hex_bytes(&all, true)), Some(all.clone()));
    assert_eq!(from_hex(&to_hex_bytes(&all, false)), Some(all));
}

#[test]
fn decimal_digits() {
    assert_eq!(decimal_bytes(0), b"0");
    assert_eq!(decimal_bytes(9), b"9");
    assert_eq!(decimal_bytes(10), b"10");
    assert_eq!(decimal_bytes(101), b"101");
    assert_eq!(decimal_bytes(u64::MAX), b"18446744073709551615");
}

#[test]
fn numbers_are_read_from_decimal_digits() {
    assert_eq!(parse_u64(b"0"), Some(0));
    assert_eq!(parse_u64(b"007"), Some(7));
    assert_eq!(parse_u64(b"+15"), Some(15));
    assert_eq!(parse_u64(b"210611232517053199"), Some(210611232517053199));
    assert_eq!(parse_u64(b"18446744073709551615"), Some(u64::MAX));
    assert_eq!(parse_u64(b"18446744073709551616"), None);
    assert_eq!(parse_u64(b"99999999999999999999999"), None);
    assert_eq!(parse_u64(b""), None);
    assert_eq!(parse_u64(b"+"), None);
    assert_eq!(parse_u64(b"-1"), None);
    assert_eq!(parse_u64(b"12a"), None);
    assert_eq!(parse_u64(b" 12"), None);
    assert_eq!(parse_u64(b"1_000"), None);
    for text in ["0", "+0", "42", "+42", "", "+", "++1", "1+", "18446744073709551615", "18446744073709551616", "x"] {
        assert_eq!(parse_u64(text.as_bytes()), text.parse::<u64>().ok(), "{:?}", text);
    }
}

#[test]
fn a_dump_escapes_what_cannot_be_printed() {
    assert_eq!(escape_bytes(b"a b~"), b"a b~");
    assert_eq!(escape_bytes(b"\t\r\n"), b"\\t\\r\\n");
    assert_eq!(escape_bytes(b"'\"\\"), b"\\'\\\"\\\\");
    assert_eq!(escape_bytes(&[0x00, 0x1f, 0x7f, 0x9d, 0xff]), b"\\x00\\x1f\\x7f\\x9d\\xff");
    assert_eq!(show_buf(&[0x92, b'o', b'k', 0x0a]), "\\x92ok\\n");
    let all: Vec<u8> = (0u8..=255).collect();
    let expected: Vec<u8> = all.iter().flat_map(|b| std::ascii::escape_default(*b)).collect();
    assert_eq!(escape_bytes(&all), expected);
}

#[test]
fn player_ids() {
    assert_eq!(id_from_bytes(b"210611232517053199").unwrap(), 210611232517053199);
    assert!(matches!(
        id_from_bytes(b"21061123251705319x"),
        Err(Error::ParsingBytesError("could not parse userid from String"))
    ));
    assert!(matches!(
        id_from_bytes(b""),
        Err(Error::ParsingBytesError("could not parse userid from String"))
    ));
    assert!(matches!(
        id_from_bytes(&[b'1', 0xff]),
        Err(Error::ParsingBytesError("could not parse userid"))
    ));
}

#[test]
fn characters_have_short_codes() {
    assert_eq!(Character::Sol.to_code(), "SOL");
    assert_eq!(Character::HappyChaos.to_code(), "COS");
    assert_eq!(Character::from_code("KYK").unwrap(), Character::Ky);
    let all = [
        Character::Sol, Character::Ky, Character::May, Character::Axl, Character::Chipp,
        Character::Potemkin, Character::Faust, Character::Millia, Character::Zato,
        Character::Ramlethal, Character::Leo, Character::Nagoriyuki, Character::Giovanna,
        Character::Anji, Character::Ino, Character::Goldlewis, Character::Jacko,
        Character::HappyChaos,
    ];
    for (code, character) in all.iter().enumerate() {
        assert_eq!(character.to_u8() as usize, code);
        assert_eq!(Character::from_code(character.to_code()).unwrap(), *character);
    }
    for text in ["", "SO", "SOLL", "sol", "QQQ", "S\u{d6}L"] {
        match Character::from_code(text) {
            Err(Error::InvalidCharacterCode(code)) => assert_eq!(code, text),
            other => panic!("{:?}", other),
        }
    }
    assert_eq!(Character::Sol.name(), "Sol Badguy");
    assert_eq!(Character::Zato.name(), "Zato=1");
    assert_eq!(Character::Jacko.name(), "Jack-o");
}

#[test]
fn floors_have_bytes_and_an_order() {
    let all = [
        (Floor::F1, 0x01), (Floor::F2, 0x02), (Floor::F3, 0x03), (Floor::F4, 0x04),
        (Floor::F5, 0x05), (Floor::F6, 0x06), (Floor::F7, 0x07), (Floor::F8, 0x08),
        (Floor::F9, 0x09), (Floor::F10, 0x0a), (Floor::Celestial, 0x63),
    ];
    for (rank, (floor, code)) in all.iter().enumerate() {
        assert_eq!(floor.to_u8(), *code);
        assert_eq!(Floor::from_u8(*code).unwrap(), *floor);
        assert_eq!(floor.index() as usize, rank);
    }
    for pair in all.windows(2) {
        assert!(pair[0].0 < pair[1].0);
        assert!(pair[0].0.partial_cmp(&pair[1].0) == Some(std::cmp::Ordering::Less));
        assert!(pair[0].0.cmp(&pair[1].0) == std::cmp::Ordering::Less);
    }
    assert!(Floor::F10 < Floor::Celestial);
    assert!(Floor::Celestial > Floor::F1);
    assert!(Floor::F3 <= Floor::F3);
    for code in 0u8..=255 {
        if all.iter().all(|(_, c)| *c != code) {
            match Floor::from_u8(code) {
                Err(Error::InvalidArgument(text)) => {
                    assert_eq!(text, format!("{:x} is not a valid floor code", code))
                }
                other => panic!("{:?}", other),
            }
        }
    }
    assert_eq!(Floor::F10.name(), "F10");
    assert_eq!(Floor::Celestial.name(), "Celestial");
}

fn record(id_1: &str, name_1: &str, id_2: &str, name_2: &str, winner: u8, date: &str) -> Replay {
    let player = |id: &str, name: &str| PlayerRecord {
        id: id.to_string(),
        name: name.to_string(),
        string1: "76561198082398187".to_string(),
        string2: "1100001074797eb".to_string(),
        int1: 6,
    };
    Replay {
        int1: 220205230800597951,
        int2: 9,
        floor: 0x63,
        player1_character: 0x00,
        player2_character: 0x08,
        player1: player(id_1, name_1),
        player2: player(id_2, name_2),
        winner,
        date: date.to_string(),
        int7: 1,
        views: 0,
        int8: 0,
        likes: 0,
    }
}

fn played(id_1: &str, name_1: &str, winner: u8, date: &str) -> Match {
    match_from_replay(&record(id_1, name_1, "2", "second", winner, date)).unwrap()
}

#[test]
fn a_record_becomes_a_match() {
    let m = match_from_replay(&record("17", "first", "+18", "second", 2, "2022-02-06 04:07:59")).unwrap();
    assert_eq!(*m.timestamp(), Timestamp { secs: 1644120479, nanos: 0 });
    assert_eq!(m.floor(), Floor::Celestial);
    assert_eq!(m.outcome(), Winner::Player2);
    assert_eq!(m.players().0.id, 17);
    assert_eq!(m.players().0.name, "first");
    assert_eq!(m.players().0.character, Character::Sol);
    assert_eq!(m.players().1.id, 18);
    assert_eq!(m.players().1.character, Character::Zato);
    assert_eq!(m.winner().name, "second");
    assert_eq!(m.loser().name, "first");
    let m = match_from_replay(&record("17", "first", "18", "second", 1, "2016-12-31 23:59:60")).unwrap();
    assert_eq!(*m.timestamp(), Timestamp { secs: 1483228799, nanos: 1_000_000_000 });
    assert_eq!(m.winner().name, "first");
    assert_eq!(m.loser().name, "second");
}

#[test]
fn the_first_fault_of_a_record_is_reported() {
    let good = || record("17", "first", "18", "second", 1, "2022-02-06 04:07:59");
    assert!(match_from_replay(&good()).is_ok());

    let mut all_wrong = record("x", "first", "y", "second", 0, "yesterday");
    all_wrong.floor = 0;
    all_wrong.player1_character = 0x12;
    all_wrong.player2_character = 0xff;
    assert!(matches!(
        match_from_replay(&all_wrong),
        Err(Error::InvalidArgument(text)) if text == "0 is not a valid floor code"
    ));
    all_wrong.floor = 0x0a;
    assert!(matches!(
        match_from_replay(&all_wrong),
        Err(Error::InvalidCharacterCode(text)) if text == "12"
    ));
    all_wrong.player1_character = 0x11;
    assert!(matches!(
        match_from_replay(&all_wrong),
        Err(Error::InvalidCharacterCode(text)) if text == "ff"
    ));
    all_wrong.player2_character = 0x00;
    assert!(matches!(
        match_from_replay(&all_wrong),
        Err(Error::ParsingBytesError("could not parse userid from String"))
    ));
    all_wrong.player1.id = "1".to_string();
    assert!(matches!(
        match_from_replay(&all_wrong),
        Err(Error::ParsingBytesError("could not parse userid from String"))
    ));
    all_wrong.player2.id = "2".to_string();
    assert!(matches!(
        match_from_replay(&all_wrong),
        Err(Error::ParsingBytesError("Could not parse winner"))
    ));
    all_wrong.winner = 2;
    assert!(matches!(match_from_replay(&all_wrong), Err(Error::ChronoParseError(_))));
    all_wrong.date = "2022-02-06 04:07:59".to_string();
    assert!(match_from_replay(&all_wrong).is_ok());
}

#[test]
fn players_are_compared_by_id_and_character() {
    let player = |id: u64, character: Character, name: &str| Player { id, character, name: name.to_string() };
    assert_eq!(player(1, Character::Sol, "a"), player(1, Character::Sol, "b"));
    assert_ne!(player(1, Character::Sol, "a"), player(2, Character::Sol, "a"));
    assert_ne!(player(1, Character::Sol, "a"), player(1, Character::Ky, "a"));
    assert!(player(1, Character::Ky, "z").is_before(&player(2, Character::Sol, "a")));
    assert!(player(1, Character::Sol, "z").is_before(&player(1, Character::Ky, "a")));
    assert!(!player(1, Character::Sol, "a").is_before(&player(1, Character::Sol, "b")));
}

#[test]
fn matches_are_ordered_by_time_first() {
    let early = played("1", "a", 1, "2022-02-06 04:07:58");
    let late = played("1", "a", 1, "2022-02-06 04:07:59");
    let late_other = played("3", "a", 1, "2022-02-06 04:07:59");
    let late_lost = played("1", "a", 2, "2022-02-06 04:07:59");
    assert!(early < late);
    assert!(late > early);
    assert!(late < late_other);
    assert!(late < late_lost);
    assert!(early.is_before(&late));
    assert!(!late.is_before(&early));
    assert!(!late.is_before(&late));
    assert!(late == late);
    assert!(late != late_lost);
    assert_eq!(late.partial_cmp(&late), Some(std::cmp::Ordering::Equal));
}

#[test]
fn a_set_keeps_its_matches_in_order_and_once() {
    let mut set = MatchSet::new();
    assert!(set.is_empty());
    assert!(set.insert(played("1", "a", 1, "2022-02-06 04:07:59")));
    assert!(set.insert(played("1", "a", 1, "2022-02-06 04:07:57")));
    assert!(set.insert(played("1", "a", 1, "2022-02-06 04:07:58")));
    assert!(!set.insert(played("1", "a", 1, "2022-02-06 04:07:58")));
    assert!(set.insert(played("1", "a", 2, "2022-02-06 04:07:58")));
    assert_eq!(set.len(), 4);
    assert!(set.contains(&played("1", "a", 1, "2022-02-06 04:07:57")));
    assert!(!set.contains(&played("1", "a", 1, "2022-02-06 04:07:56")));
    let seconds: Vec<(i64, Winner)> =
        set.as_slice().iter().map(|m| (m.timestamp().secs, m.outcome())).collect();
    assert_eq!(
        seconds,
        vec![
            (1644120477, Winner::Player1),
            (1644120478, Winner::Player1),
            (1644120478, Winner::Player2),
            (1644120479, Winner::Player1),
        ]
    );
}

#[test]
fn a_match_under_another_name_is_the_same_match() {
    let mut set = MatchSet::new();
    assert!(set.insert(played("1", "old name", 1, "2022-02-06 04:07:59")));
    assert!(!set.insert(played("1", "new name", 1, "2022-02-06 04:07:59")));
    assert!(set.contains(&played("1", "any name", 1, "2022-02-06 04:07:59")));
    assert_eq!(set.len(), 1);
    // The match that came first stays.
    assert_eq!(set.as_slice()[0].winner().name, "old name");

    let mut set = MatchSet::new();
    set.extend(vec![
        played("1", "b", 1, "2022-02-06 04:07:59"),
        played("1", "a", 1, "2022-02-06 04:07:58"),
        played("1", "c", 1, "2022-02-06 04:07:59"),
    ]);
    let names: Vec<String> = set.into_vec().iter().map(|m| m.winner().name.clone()).collect();
    assert_eq!(names, vec!["a", "b"]);
}

#[test]
fn bytes_are_read_as_text() {
    assert_eq!(ggst_api::text::read_text(b"210611232517053199"), "210611232517053199");
    assert_eq!(ggst_api::text::read_text("\u{306b}\u{3057}".as_bytes()), "\u{306b}\u{3057}");
    assert_eq!(ggst_api::text::read_text(&[b'a', 0xff, b'b']), "a\u{fffd}b");
    assert_eq!(ggst_api::text::read_text(b""), "");
}

#[test]
fn a_user_has_counts_for_each_character() {
    let mut char_stats = std::collections::HashMap::new();
    char_stats.insert(Character::Sol.to_u8(), ggst_api::Stats { level: 40, wins: 310 });
    let user = ggst_api::User {
        user_id: "210611232517053199".to_string(),
        name: "limon".to_string(),
        comment: String::new(),
        floor: Floor::F8,
        stats: ggst_api::MatchStats { total: 900, wins: 500 },
        celestial_stats: ggst_api::MatchStats { total: 0, wins: 0 },
        char_stats,
    };
    assert_eq!(user.char_stats[&0x00].wins, 310);
    assert!(user.char_stats.get(&Character::Ky.to_u8()).is_none());
    assert_eq!(user.clone().floor, Floor::F8);
}
