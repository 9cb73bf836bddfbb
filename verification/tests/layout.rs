use ggst_api::legacy::{
    decode_legacy, decode_with_fallback, find_from, outcome_of_response, read_chunk,
    replay_from_chunk, DecodeOutcome,
};
use ggst_api::messagepack::ReplayResponse;
use ggst_api::{decode, Character, Error, Floor, Timestamp};

const REPLY_30: &[u8] = b"\x92\x98\xad61ff0796545a9\0\xb32022/02/05 23:26:14\xa50.1.0\xa50.0.2\xa50.0.2\xa0\xa0\x94\0\0\x1e\xdc\0\x1e\x9d\xcf\x03\x0eS}\x9f\x8ds\xbf\t\x08\x0c\x0b\x95\xb2210611232517053199\xa5limon\xb176561198082398187\xaf1100001074797eb\x06\x95\xb2210818223745601103\xafSamuraiPizzaCat\xb176561199149925226\xaf110000146e8c36a\x07\x02\xb32022-02-06 04:07:59\x01\0\0\0\x9d\xcf\x03\x0eS|v\xbc6N\t\x08\x11\x0c\x95\xb2210905181006143473\xa8Haratura\xb176561198148293594\xaf11000010b3513da\x07\x95\xb2210611232517053199\xa5limon\xb176561198082398187\xaf1100001074797eb\x06\x01\xb32022-02-06 03:58:19\x01\0\0\0\x9d\xcf\x03\x0eS|lr}\xc1\t\x08\x11\x0c\x95\xb2210905181006143473\xa8Haratura\xb176561198148293594\xaf11000010b3513da\x07\x95\xb2210611232517053199\xa5limon\xb176561198082398187\xaf1100001074797eb\x06\x01\xb32022-02-06 03:56:46\x01\0\0\0\x9d\xcf\x03\x0eS|du\xac>\t\x08\x11\x0c\x95\xb2210905181006143473\xa8Haratura\xb176561198148293594\xaf11000010b3513da\x07\x95\xb2210611232517053199\xa5limon\xb176561198082398187\xaf1100001074797eb\x06\x01\xb32022-02-06 03:55:12\x01\0\0\0\x9d\xcf\x03\x0eSy?\x93\x83\x86\t\x06\x04\0\x95\xb2210825010040078270\xacKenoMcsteamo\xb176561198354688358\xaf110000117826966\x05\x95\xb2211128031436376804\xa9BundleBox\xb176561198103224698\xaf11000010885617a\x05\x01\xb32022-02-06 03:29:31\x01\0\0\0\x9d\xcf\x03\x0eSy/\xfbL\xaa\t\x06\x04\0\x95\xb2210825010040078270\xacKenoMcsteamo\xb176561198354688358\xaf110000117826966\x05\x95\xb2211128031436376804\xa9BundleBox\xb176561198103224698\xaf11000010885617a\x05\x01\xb32022-02-06 03:27:10\x01\0\0\0\x9d\xcf\x03\x0eSy\"\xfc\x1d\x85\t\x06\x04\0\x95\xb2210825010040078270\xacKenoMcsteamo\xb176561198354688358\xaf110000117826966\x05\x95\xb2211128031436376804\xa9BundleBox\xb176561198103224698\xaf11000010885617a\x05\x02\xb32022-02-06 03:24:52\x01\0\0\0\x9d\xcf\x03\x0eSx\xf9\x8c\xd2\r\t\x06\x04\x12\x95\xb2210825010040078270\xacKenoMcsteamo\xb176561198354688358\xaf110000117826966\x05\x95\xb2210719021019879063\xa9Sebastard\xb176561198354593280\xaf11000011780f600\x05\x01\xb32022-02-06 03:17:56\x01\0\0\0\x9d\xcf\x03\x0eSx\xedf\x1f\xf4\t\x06\x04\x12\x95\xb2210825010040078270\xacKenoMcsteamo\xb176561198354688358\xaf110000117826966\x05\x95\xb2210719021019879063\xa9Sebastard\xb176561198354593280\xaf11000011780f600\x05\x01\xb32022-02-06 03:15:53\x01\0\0\0\x9d\xcf\x03\x0eS{q&\x8d\x92\t\x07\x05\x0c\x95\xb2220117205818084945\xa8Bugabalu\xb176561198136737187\xaf11000010a84bda3\x05\x95\xb2210611232517053199\xa5limon\xb176561198082398187\xaf1100001074797eb\x06\x02\xb32022-02-06 03:14:30\x01\0\0\0\x9d\xcf\x03\x0eSx\xe0+\xf8\xf7\t\x06\x04\x12\x95\xb2210825010040078270\xacKenoMcsteamo\xb176561198354688358\xaf110000117826966\x05\x95\xb2210719021019879063\xa9Sebastard\xb176561198354593280\xaf11000011780f600\x05\x02\xb32022-02-06 03:13:31\x01\0\0\0\x9d\xcf\x03\x0eS{c\xba\xc9z\t\x07\x05\x0c\x95\xb2220117205818084945\xa8Bugabalu\xb176561198136737187\xaf11000010a84bda3\x05\x95\xb2210611232517053199\xa5limon\xb176561198082398187\xaf1100001074797eb\x06\x01\xb32022-02-06 03:12:05\x01\0\0\0\x9d\xcf\x03\x0eS{T\xd4\\\x90\t\x07\x05\x0c\x95\xb2220117205818084945\xa8Bugabalu\xb176561198136737187\xaf11000010a84bda3\x05\x95\xb2210611232517053199\xa5limon\xb176561198082398187\xaf1100001074797eb\x06\x02\xb32022-02-06 03:09:55\x01\0\0\0\x9d\xcf\x03\x0eS{Ab\xacm\t\x07\x0c\t\x95\xb2210611232517053199\xa5limon\xb176561198082398187\xaf1100001074797eb\x06\x95\xb2210811193631829778\xaeF4ulty_R4ilgun\xb176561198351152593\xaf1100001174c75d1\x06\x02\xb32022-02-06 03:06:29\x01\0\0\0\x9d\xcf\x03\x0eS{3\xde\xb6\xa2\t\x07\x0c\t\x95\xb2210611232517053199\xa5limon\xb176561198082398187\xaf1100001074797eb\x06\x95\xb2210811193631829778\xaeF4ulty_R4ilgun\xb176561198351152593\xaf1100001174c75d1\x06\x01\xb32022-02-06 03:04:02\x01\0\0\0\x9d\xcf\x03\x0eS{)\x03G\xe2\t\x07\x0c\t\x95\xb2210611232517053199\xa5limon\xb176561198082398187\xaf1100001074797eb\x06\x95\xb2210811193631829778\xaeF4ulty_R4ilgun\xb176561198351152593\xaf1100001174c75d1\x06\x02\xb32022-02-06 03:02:20\x01\0\0\0\x9d\xcf\x03\x0eS}\xfct\x97\x16\t\x08\0\x12\x95\xb2210615035914519825\xa5BL4DE\xb176561199083465035\xaf110000142f2a94b\x07\x95\xb2210612062056984376\xb0TwitchTV/VRDante\xb176561198067414364\xaf11000010662f55c\x07\x01\xb32022-02-06 02:24:18\x01\0\0\0\x9d\xcf\x03\x0eS}\xf3\xeb\x0c\x8a\t\x08\0\x12\x95\xb2210615035914519825\xa5BL4DE\xb176561199083465035\xaf110000142f2a94b\x07\x95\xb2210612062056984376\xb0TwitchTV/VRDante\xb176561198067414364\xaf11000010662f55c\x07\x02\xb32022-02-06 02:22:34\x01\0\0\0\x9d\xcf\x03\x0eS}\xdb{XM\tc\0\x0e\x95\xb2210611113829735658\xa3Eli\xb176561198449379262\xaf11000011d2747be\t\x95\xb2210612045332227791\xa8R34 I-NO\xb176561198046971684\xaf1100001052b0724\t\x02\xb32022-02-06 02:22:08\x01\0\0\0\x9d\xcf\x03\x0eSy?\xd2\x135\tc\0\x07\x95\xb2210611092701986372\xa3tms\xb176561198223056552\xaf11000010fa9dea8\t\x95\xb2210611184101935607\xb0Shaco Arrombardo\xb176561198019472843\xaf110000103876dcb\t\x02\xb32022-02-06 02:19:53\x01\0\0\0\x9d\xcf\x03\x0eS}\xca\xaeev\tc\0\x0e\x95\xb2210611113829735658\xa3Eli\xb176561198449379262\xaf11000011d2747be\t\x95\xb2210612045332227791\xa8R34 I-NO\xb176561198046971684\xaf1100001052b0724\t\x02\xb32022-02-06 02:19:26\x01\0\0\0\x9d\xcf\x03\x0eSy0\x12\xfd\x84\tc\0\x07\x95\xb2210611092701986372\xa3tms\xb176561198223056552\xaf11000010fa9dea8\t\x95\xb2210611184101935607\xb0Shaco Arrombardo\xb176561198019472843\xaf110000103876dcb\t\x01\xb32022-02-06 02:17:29\x01\0\0\0\x9d\xcf\x03\x0eSy$#\xb0\xfc\tc\0\x07\x95\xb2210611092701986372\xa3tms\xb176561198223056552\xaf11000010fa9dea8\t\x95\xb2210611184101935607\xb0Shaco Arrombardo\xb176561198019472843\xaf110000103876dcb\t\x01\xb32022-02-06 02:15:28\x01\0\0\0\x9d\xcf\x03\x0eS}\xc5\x15\xcf\xf1\t\x08\x12\x12\x95\xb2210612062056984376\xb0TwitchTV/VRDante\xb176561198067414364\xaf11000010662f55c\x07\x95\xb2210611172901281375\xa4g5h3\xb176561198066767737\xaf110000106591779\x07\x02\xb32022-02-06 02:14:49\x01\0\0\0\x9d\xcf\x03\x0eS}\xb9w\xc3_\t\x08\x12\x12\x95\xb2210612062056984376\xb0TwitchTV/VRDante\xb176561198067414364\xaf11000010662f55c\x07\x95\xb2210611172901281375\xa4g5h3\xb176561198066767737\xaf110000106591779\x07\x01\xb32022-02-06 02:12:53\x01\0\0\0\x9d\xcf\x03\x0eS}\x95\x1a\x14\xd0\tc\r\0\x95\xb2210611163406897038\xabKidSusSauce\xb176561198796113273\xaf110000131d20579\t\x95\xb2210611113829735658\xa3Eli\xb176561198449379262\xaf11000011d2747be\t\x01\xb32022-02-06 02:10:27\x01\0\0\0\x9d\xcf\x03\x0eS}\xa7$\x04\x91\t\x08\x12\x12\x95\xb2210612062056984376\xb0TwitchTV/VRDante\xb176561198067414364\xaf11000010662f55c\x07\x95\xb2210611172901281375\xa4g5h3\xb176561198066767737\xaf110000106591779\x07\x01\xb32022-02-06 02:09:46\x01\0\0\0\x9d\xcf\x03\x0eS|x.;\xd4\tc\x01\0\x95\xb2210612195532158554\xa7Nowhere\xb176561198108655731\xaf110000108d84073\t\x95\xb2210611113829735658\xa3Eli\xb176561198449379262\xaf11000011d2747be\t\x02\xb32022-02-06 02:02:47\x01\0\0\0\x9d\xcf\x03\x0eS}re;\xfc\t\x08\x12\x07\x95\xb2210612062056984376\xb0TwitchTV/VRDante\xb176561198067414364\xaf11000010662f55c\x07\x95\xb2211222194227494329\xacEpicKittyCat\xb176561198040006360\xaf110000104c0bed8\x07\x01\xb32022-02-06 02:01:01\x01\0\0\0\x9d\xcf\x03\x0eS|d\xdd\x9d\x8c\t\x08\x02\x12\x95\xb2211224234141126253\xa6Fakuto\xb176561198387121965\xaf110000119714f2d\x07\x95\xb2210612062056984376\xb0TwitchTV/VRDante\xb176561198067414364\xaf11000010662f55c\x07\x02\xb32022-02-06 01:55:39\x01\0\0\0";

const REPLY_10_OLD: &[u8] = b"\x92\x98\xad61ffa1560e387\0\xb32022/02/06 10:22:14\xa50.1.0\xa50.0.2\xa50.0.2\xa0\xa0\x94\0\x04\n\x9a\x9d\xcf\x03\x0e\n\xb0\x95(\xcd2\x07c\x06\x07\x95\xb2210611073056107537\xa3Mar\xb176561197993198569\xaf110000101f683e9\t\x95\xb2210611121603560347\xadLuna Goodgirl\xb176561197977446342\xaf1100001010627c6\t\x01\xb32022-01-25 18:53:19\x01\x01\x01\x01\x9d\xcf\x03\r\xfb5{F6\"\x07c\x06\x07\x95\xb2210611073056107537\xa3Mar\xb176561197993198569\xaf110000101f683e9\t\x95\xb2210611162113864298\xa8Lizardos\xb176561197994492361\xaf1100001020a41c9\t\x01\xb32022-01-08 16:39:30\x01\x03\x01\x01\x9d\xcf\x02\xed\xbb\xb9\x7f\xdd?!\x06c\x06\x05\x95\xb2210611073056107537\xa3Mar\xb176561197993198569\xaf110000101f683e9\t\x95\xb2210611095248078392\xa9MOMO MODY\xb176561198156904572\xaf11000010bb8787c\t\x02\xb32021-10-31 16:29:42\x01\x03\x02\0\x9d\xcf\x02\xed\xa2D\x07\x98m\x1a\x05\n\x06\x0b\x95\xb2210611073056107537\xa3Mar\xb176561197993198569\xaf110000101f683e9\t\x95\xb2210611083023337322\xadPunishedVenom\xb176561198043848438\xaf110000104fb5ef6\t\x02\xb32021-10-03 17:06:24\x01\0\x02\0\x9d\xcf\x02\xec\xef\x05\xe7\xe6\xf1\x88\x04\n\x08\x07\x95\xb2210611073056107537\xa3Mar\xb176561197993198569\xaf110000101f683e9\t\x95\xb2210611072758921052\xaageorgekupo\xb176561198054369781\xaf1100001059be9f5\t\x02\xb32021-08-06 09:12:22\x01\0\x02\0\x9d\xcf\x02\xec\xed6\xf1\xea8\xbe\x04\n\x08\x0b\x95\xb2210611073056107537\xa3Mar\xb176561197993198569\xaf110000101f683e9\x08\x95\xb2210618173410867109\xabDominimator\xb176561197994451661\xaf11000010209a2cd\t\x02\xb32021-08-04 10:28:20\x01\0\x02\0\x9d\xcf\x02\xecG\xc9\xde*\x8e\xd6\x03\x07\x08\x01\x95\xb2210611073056107537\xa3Mar\xb176561197993198569\xaf110000101f683e9\x06\x95\xb2210614203011010057\xa5Hydro\xb176561198077327061\xaf110000106fa36d5\x06\x02\xb32021-06-22 21:49:19\x01\0\x02\0\x9d\xcf\x03\x0eSo\xd3qzH\tc\r\x06\x95\xb2210611114424649707\xa9Pistachio\xb176561198074756096\xaf110000106d2fc00\t\x95\xb2210611073056107537\xa3Mar\xb176561197993198569\xaf110000101f683e9\t\x02\xb32022-02-05 17:15:39\x01\0\0\0\x9d\xcf\x03\x0eSo\xbc\x9cz\x82\tc\x02\x06\x95\xb2210611151221285918\xa7Rikkumi\xb176561198117246557\xaf1100001095b565d\t\x95\xb2210611073056107537\xa3Mar\xb176561197993198569\xaf110000101f683e9\t\x02\xb32022-02-05 17:11:56\x01\0\0\0\x9d\xcf\x03\x0eSo\xae.\x18\xcc\tc\x02\x06\x95\xb2210611151221285918\xa7Rikkumi\xb176561198117246557\xaf1100001095b565d\t\x95\xb2210611073056107537\xa3Mar\xb176561197993198569\xaf110000101f683e9\t\x02\xb32022-02-05 17:09:14\x01\0\0\0";

/// One record as the older replies hold it, without the bytes that end it.
fn chunk(floor: u8, characters: (u8, u8), names: (&str, &str), winner: u8, date: &str) -> Vec<u8> {
    let mut bytes = vec![0x9d, 0xcf, 3, 14, 83, 125, 159, 141, 115, 191, 9, floor, characters.0, characters.1];
    for (id, name) in [("210611232517053199", names.0), ("210818223745601103", names.1)] {
        bytes.extend_from_slice(&[0x95, 0xb2]);
        bytes.extend_from_slice(id.as_bytes());
        bytes.push(0xa0 + name.len() as u8);
        bytes.extend_from_slice(name.as_bytes());
        bytes.push(0xb1);
        bytes.extend_from_slice(b"76561198082398187");
        bytes.push(0xaf);
        bytes.extend_from_slice(b"1100001074797eb");
        bytes.push(6);
    }
    bytes.push(winner);
    bytes.push(0xb3);
    bytes.extend_from_slice(date.as_bytes());
    bytes
}

#[test]
fn find_from_gives_the_first_occurrence() {
    let s = [1u8, 0, 0, 1, 0, 0, 0, 7, 1, 0, 0, 0];
    assert_eq!(find_from(&s, &[1, 0, 0, 0], 0), 3);
    assert_eq!(find_from(&s, &[1, 0, 0, 0], 3), 3);
    assert_eq!(find_from(&s, &[1, 0, 0, 0], 4), 8);
    assert_eq!(find_from(&s, &[1, 0, 0, 0], 9), 12);
    assert_eq!(find_from(&s, &[9], 0), 12);
    assert_eq!(find_from(&s, &[], 0), 12);
    assert_eq!(find_from(&s, &[1, 0, 0, 0], 40), 12);
}

#[test]
fn a_chunk_is_read_by_its_layout() {
    let bytes = chunk(0x08, (0x0c, 0x0b), ("limon", "SamuraiPizzaCat"), 2, "2022-02-06 04:07:59");
    let replay = replay_from_chunk(&bytes).unwrap();
    assert_eq!(replay.floor, 0x08);
    assert_eq!(replay.player1_character, 0x0c);
    assert_eq!(replay.player2_character, 0x0b);
    assert_eq!(replay.player1.id, "210611232517053199");
    assert_eq!(replay.player1.name, "limon");
    assert_eq!(replay.player2.id, "210818223745601103");
    assert_eq!(replay.player2.name, "SamuraiPizzaCat");
    assert_eq!(replay.winner, 2);
    assert_eq!(replay.date, "2022-02-06 04:07:59");

    let m = read_chunk(&bytes).unwrap().unwrap();
    assert_eq!(m.floor(), Floor::F8);
    assert_eq!(*m.timestamp(), Timestamp { secs: 1644120479, nanos: 0 });
    assert_eq!(m.winner().name, "SamuraiPizzaCat");
    assert_eq!(m.winner().character, Character::Nagoriyuki);
    assert_eq!(m.loser().id, 210611232517053199);
}

#[test]
fn an_empty_chunk_gives_nothing() {
    assert!(read_chunk(&[]).is_none());
}

#[test]
fn a_chunk_without_players_is_refused() {
    let error = read_chunk(&[0x9d, 0xcf, 1, 2, 3]).unwrap().unwrap_err();
    assert!(matches!(error.inner(), Error::UnexpectedResponse("record does not hold two players")));
    assert_eq!(error.reply_content(), "\\x9d\\xcf\\x01\\x02\\x03");

    let mut one_player = vec![9, 8, 7, 0x95, 0xb2];
    one_player.extend_from_slice(&[b'1'; 40]);
    assert!(matches!(
        replay_from_chunk(&one_player),
        Err(Error::UnexpectedResponse("record does not hold two players"))
    ));
}

#[test]
fn the_parts_of_a_chunk_have_least_lengths() {
    let good = chunk(0x08, (0x0c, 0x0b), ("limon", "SamuraiPizzaCat"), 2, "2022-02-06 04:07:59");
    // Less than three bytes before the first player.
    let short_head = &good[12..];
    assert!(matches!(
        replay_from_chunk(short_head),
        Err(Error::UnexpectedResponse("record is too short for floor and characters"))
    ));
    // A first player of nineteen bytes.
    let mut short_first = vec![8, 12, 11, 0x95, 0xb2];
    short_first.extend_from_slice(&[b'1'; 19]);
    short_first.extend_from_slice(&[0x95, 0xb2]);
    short_first.extend_from_slice(&[b'1'; 80]);
    assert!(matches!(
        replay_from_chunk(&short_first),
        Err(Error::UnexpectedResponse("first player is too short"))
    ));
    // A second player of seventy bytes.
    let mut short_second = vec![8, 12, 11, 0x95, 0xb2];
    short_second.extend_from_slice(&[b'1'; 20]);
    short_second.extend_from_slice(&[0x95, 0xb2]);
    short_second.extend_from_slice(&[b'1'; 70]);
    assert!(matches!(
        replay_from_chunk(&short_second),
        Err(Error::UnexpectedResponse("second player is too short"))
    ));
    // Long enough, but the byte after the id does not give the length of a name.
    let mut no_name = vec![8, 12, 11, 0x95, 0xb2];
    no_name.extend_from_slice(&[b'1'; 20]);
    no_name.extend_from_slice(&[0x95, 0xb2]);
    no_name.extend_from_slice(&[b'1'; 71]);
    assert!(matches!(
        replay_from_chunk(&no_name),
        Err(Error::UnexpectedResponse("player has no name"))
    ));
}

#[test]
fn a_chunk_with_a_bad_field_gives_a_parse_error() {
    let bad_winner = chunk(0x08, (0x0c, 0x0b), ("limon", "SamuraiPizzaCat"), 3, "2022-02-06 04:07:59");
    let error = read_chunk(&bad_winner).unwrap().unwrap_err();
    assert!(matches!(error.inner(), Error::ParsingBytesError("Could not parse winner")));

    let bad_date = chunk(0x08, (0x0c, 0x0b), ("limon", "SamuraiPizzaCat"), 1, "2022-02-30 04:07:59");
    let error = read_chunk(&bad_date).unwrap().unwrap_err();
    assert!(matches!(error.inner(), Error::ChronoParseError(_)));

    let bad_floor = chunk(0x0b, (0x0c, 0x0b), ("limon", "SamuraiPizzaCat"), 1, "2022-02-06 04:07:59");
    let error = read_chunk(&bad_floor).unwrap().unwrap_err();
    assert!(matches!(error.inner(), Error::InvalidArgument(text) if text == "b is not a valid floor code"));

    let bad_character = chunk(0x08, (0x0c, 0x12), ("limon", "SamuraiPizzaCat"), 1, "2022-02-06 04:07:59");
    let error = read_chunk(&bad_character).unwrap().unwrap_err();
    assert!(matches!(error.inner(), Error::InvalidCharacterCode(text) if text == "12"));
}

#[test]
fn a_name_that_is_not_utf8_is_kept_with_replacements() {
    let mut bytes = chunk(0x08, (0x0c, 0x0b), ("li\u{0}on", "SamuraiPizzaCat"), 2, "2022-02-06 04:07:59");
    let at = bytes.iter().position(|b| *b == 0).unwrap();
    bytes[at] = 0xff;
    let replay = replay_from_chunk(&bytes).unwrap();
    assert_eq!(replay.player1.name, "li\u{fffd}on");
}

#[test]
fn a_reply_shorter_than_its_header_is_refused() {
    let (matches, errors) = decode_legacy(&[0x92; 60]);
    assert!(matches.is_empty());
    assert_eq!(errors.len(), 1);
    assert!(matches!(errors[0].inner(), Error::UnexpectedResponse("reply is shorter than its header")));
}

#[test]
fn a_header_alone_gives_nothing() {
    let (matches, errors) = decode_legacy(&[0x92; 61]);
    assert!(matches.is_empty());
    assert!(errors.is_empty());
}

#[test]
fn the_layout_finds_the_records_of_a_reply() {
    let (matches, errors) = decode_legacy(REPLY_30);
    let (typed, typed_errors) = decode(REPLY_30);
    assert_eq!(matches.len(), 20);
    assert_eq!(errors.len(), 10);
    assert_eq!(typed_errors.len(), 10);
    assert_eq!(matches, typed);
    for (a, b) in matches.iter().zip(typed.iter()) {
        assert_eq!(a.winner().name, b.winner().name);
        assert_eq!(a.loser().name, b.loser().name);
    }
    assert!(errors.iter().all(|e| matches!(e.inner(), Error::InvalidCharacterCode(text) if text == "12")));
}

#[test]
fn the_layout_is_used_only_for_what_is_no_messagepack() {
    match decode_with_fallback(REPLY_10_OLD) {
        DecodeOutcome::Typed { matches, errors } => {
            assert_eq!(matches.len(), 10);
            assert!(errors.is_empty());
        }
        other => panic!("{:?}", other),
    }
    // Without its first byte the reply is no MessagePack of a page, but its
    // records are where they were, one byte earlier than the layout expects.
    let mut damaged = vec![0xc1];
    damaged.extend_from_slice(REPLY_30);
    damaged.remove(1);
    match decode_with_fallback(&damaged) {
        DecodeOutcome::Legacy { matches, errors } => {
            assert_eq!(matches.len(), 20);
            assert_eq!(errors.len(), 10);
        }
        other => panic!("{:?}", other),
    }
    let (matches, errors) = decode(&damaged);
    assert!(matches.is_empty());
    assert_eq!(errors.len(), 1);
    assert!(matches!(errors[0].inner(), Error::DecodeError(_)));
}

#[test]
fn the_way_of_reading_follows_the_reading_of_the_envelope() {
    let page = ReplayResponse::from_bytes(REPLY_10_OLD);
    match outcome_of_response(REPLY_10_OLD, page) {
        DecodeOutcome::Typed { matches, errors } => {
            assert_eq!(matches.len(), 10);
            assert!(errors.is_empty());
        }
        other => panic!("{:?}", other),
    }
    let no_page = ReplayResponse::from_bytes(b"\xc1");
    let outcome = outcome_of_response(REPLY_30, no_page);
    assert!(outcome.is_legacy());
    let (matches, errors) = outcome.into_parts();
    assert_eq!(matches.len(), 20);
    assert_eq!(errors.len(), 10);
}
