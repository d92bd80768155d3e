use a2s_metrics::source_query::CHALLENGE_REPLY;
use a2s_metrics::{
    handle_a2s_response, info_request, is_info_reply, read_byte, read_long, read_short,
    read_string, QueryError, QueryStage, QueryStep, SourceQuery,
};

fn info_reply(name: &[u8], map: &[u8], folder: &[u8], game: &[u8], id: u16, players: u8, max: u8, bots: u8) -> Vec<u8> {
    let mut b = vec![0xFF, 0xFF, 0xFF, 0xFF, 0x49];
    for part in [name, map, folder, game] {
        b.extend_from_slice(part);
        b.push(0);
    }
    b.extend_from_slice(&id.to_le_bytes());
    b.push(players);
    b.push(max);
    b.push(bots);
    b
}

fn target() -> SourceQuery {
    SourceQuery::new("127.0.0.1".to_string(), 27015, "eu".to_string())
}

#[test]
fn request_datagram_bytes() {
    assert_eq!(info_request(), b"\xFF\xFF\xFF\xFF\x54Source Engine Query\x00".to_vec());
}

#[test]
fn target_identity_is_host_and_port() {
    let t = SourceQuery::new("10.0.0.5".to_string(), 27016, "community".to_string());
    assert_eq!(t.full_host, "10.0.0.5:27016");
    assert_eq!(t.community, "community");
    assert_eq!(t.host, "10.0.0.5");
    assert_eq!(t.port, 27016);
    let z = SourceQuery::new("h".to_string(), 0, String::new());
    assert_eq!(z.full_host, "h:0");
}

#[test]
fn readers_decode_little_endian() {
    let b = [0x34u8, 0x12, 0xFF, 0xFF, 0xFF, 0xFF, 0x02, 0x00, 0x00, 0x80];
    assert_eq!(read_byte(&b, 0), Some((0x34, 1)));
    assert_eq!(read_byte(&b, 10), None);
    assert_eq!(read_short(&b, 0), Some((0x1234, 2)));
    assert_eq!(read_short(&b, 9), None);
    assert_eq!(read_long(&b, 2), Some((-1, 6)));
    assert_eq!(read_long(&b, 6), Some((i32::MIN + 2, 10)));
    assert_eq!(read_long(&b, 7), None);
}

#[test]
fn read_string_stops_at_terminator() {
    let b = b"abc\0de\0f";
    assert_eq!(read_string(b, 0), Some(("abc".to_string(), 4)));
    assert_eq!(read_string(b, 4), Some(("de".to_string(), 7)));
    assert_eq!(read_string(b, 3), Some((String::new(), 4)));
    assert_eq!(read_string(b, 7), None);
    assert_eq!(read_string(b, 20), None);
}

#[test]
fn read_string_replaces_invalid_utf8() {
    let b = [b'a', 0xFF, b'b', 0];
    assert_eq!(read_string(&b, 0), Some(("a\u{FFFD}b".to_string(), 4)));
}

#[test]
fn parse_reproduces_fields() {
    let b = info_reply(b"My Server", b"de_dust2", b"cstrike", b"Counter-Strike", 240, 10, 32, 2);
    let r = handle_a2s_response(&b, 42).unwrap();
    assert_eq!(r.ping, 42);
    assert_eq!(r.server_name, "My Server");
    assert_eq!(r.map, "de_dust2");
    assert_eq!(r.folder, "cstrike");
    assert_eq!(r.game, "Counter-Strike");
    assert_eq!(r.game_id, 240);
    assert_eq!(r.num_players, 8);
    assert_eq!(r.num_bots, 2);
    assert_eq!(r.max_players, 32);
}

#[test]
fn parse_ignores_trailing_bytes() {
    let mut b = info_reply(b"", b"m", b"f", b"g", 0xABCD, 0, 0, 0);
    b.extend_from_slice(&[1, 2, 3, 0]);
    let r = handle_a2s_response(&b, 0).unwrap();
    assert_eq!(r.server_name, "");
    assert_eq!(r.game_id, 0xABCD);
}

#[test]
fn more_bots_than_players_keeps_raw_count() {
    let b = info_reply(b"n", b"m", b"f", b"g", 1, 3, 16, 5);
    let r = handle_a2s_response(&b, 1).unwrap();
    assert_eq!(r.num_players, 3);
    assert_eq!(r.num_bots, 5);
}

#[test]
fn equal_bots_and_players_gives_zero() {
    let b = info_reply(b"n", b"m", b"f", b"g", 1, 255, 255, 255);
    let r = handle_a2s_response(&b, 1).unwrap();
    assert_eq!(r.num_players, 0);
}

#[test]
fn truncated_reply_is_rejected() {
    let b = info_reply(b"n", b"m", b"f", b"g", 1, 3, 16, 5);
    assert!(handle_a2s_response(&b[..b.len() - 1], 0).is_none());
    assert!(handle_a2s_response(&b[..8], 0).is_none());
    assert!(handle_a2s_response(&b[..4], 0).is_none());
}

#[test]
fn info_marker_is_recognised() {
    assert!(is_info_reply(&[0xFF, 0xFF, 0xFF, 0xFF, 0x49]));
    assert!(!is_info_reply(&[0xFF, 0xFF, 0xFF, 0xFF, 0x41]));
    assert!(!is_info_reply(&[0xFF, 0xFF, 0xFF, 0xFF]));
}

#[test]
fn reply_from_other_address_is_rejected() {
    let t = target();
    let b = info_reply(b"n", b"m", b"f", b"g", 1, 3, 16, 1);
    let step = t.on_reply(QueryStage::Initial, &"127.0.0.2:27015".to_string(), &b, 5);
    assert!(matches!(step, QueryStep::Failed(QueryError::SpoofedSource)));
    let step = t.on_reply(QueryStage::Challenged, &"127.0.0.1:27016".to_string(), &b, 5);
    assert!(matches!(step, QueryStep::Failed(QueryError::SpoofedSource)));
}

#[test]
fn reply_with_bad_header_is_rejected() {
    let t = target();
    let mut b = info_reply(b"n", b"m", b"f", b"g", 1, 3, 16, 1);
    b[2] = 0xFE;
    let step = t.on_reply(QueryStage::Initial, &"127.0.0.1:27015".to_string(), &b, 5);
    assert!(matches!(step, QueryStep::Failed(QueryError::MalformedHeader)));
    let step = t.on_reply(QueryStage::Initial, &"127.0.0.1:27015".to_string(), &[0xFF, 0xFF], 5);
    assert!(matches!(step, QueryStep::Failed(QueryError::MalformedHeader)));
}

#[test]
fn challenge_reply_asks_for_echo() {
    let t = target();
    let b = [0xFF, 0xFF, 0xFF, 0xFF, CHALLENGE_REPLY, 0xDE, 0xAD, 0xBE, 0xEF];
    match t.on_reply(QueryStage::Initial, &"127.0.0.1:27015".to_string(), &b, 5) {
        QueryStep::Challenge(packet) => {
            let mut expected = info_request();
            expected.extend_from_slice(&[0xDE, 0xAD, 0xBE, 0xEF]);
            assert_eq!(packet, expected);
        }
        _ => panic!("expected a challenge"),
    }
    let short = [0xFF, 0xFF, 0xFF, 0xFF, CHALLENGE_REPLY, 0xDE];
    let step = t.on_reply(QueryStage::Initial, &"127.0.0.1:27015".to_string(), &short, 5);
    assert!(matches!(step, QueryStep::Failed(QueryError::Truncated)));
}

#[test]
fn reply_after_challenge_is_parsed() {
    let t = target();
    let b = info_reply(b"Srv", b"m", b"f", b"g", 1, 10, 32, 2);
    match t.on_reply(QueryStage::Challenged, &"127.0.0.1:27015".to_string(), &b, 17) {
        QueryStep::Done(r) => {
            assert_eq!(r.server_name, "Srv");
            assert_eq!(r.ping, 17);
            assert_eq!(r.num_players, 8);
        }
        _ => panic!("expected a result"),
    }
    let again = [0xFF, 0xFF, 0xFF, 0xFF, CHALLENGE_REPLY, 1, 2, 3, 4];
    let step = t.on_reply(QueryStage::Challenged, &"127.0.0.1:27015".to_string(), &again, 5);
    assert!(matches!(step, QueryStep::Failed(QueryError::Truncated)));
}

#[test]
fn plain_reply_is_parsed() {
    let t = target();
    let b = info_reply(b"Srv", b"de_nuke", b"cstrike", b"CS", 10, 4, 20, 0);
    match t.on_reply(QueryStage::Initial, &"127.0.0.1:27015".to_string(), &b, 3) {
        QueryStep::Done(r) => {
            assert_eq!(r.map, "de_nuke");
            assert_eq!(r.num_players, 4);
            assert_eq!(r.max_players, 20);
        }
        _ => panic!("expected a result"),
    }
}
