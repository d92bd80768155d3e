//! The info query exchange with one game server.
//!
//! The socket work is the caller's: it sends [`info_request`], hands each
//! reply to [`SourceQuery::on_reply`] and follows the step that comes back.

use vstd::prelude::*;
use crate::text::{chars_of, decimal, push_decimal, text_of};
use crate::wire::{ascii_decodes_to, cstr_at, lemma_cstr_at_concat, le_i32, le_u16, read_byte, read_long, read_short, read_string, utf8_lossy};

verus! {

/// Reply-type marker of an info reply.
pub const INFO_REPLY: u8 = 0x49;

/// Reply-type marker of a challenge reply.
pub const CHALLENGE_REPLY: u8 = 0x41;

/// The port a target is queried on when none is given.
pub const DEFAULT_PORT: u16 = 27015;

/// One server to poll.
pub struct SourceQuery {
    pub host: String,
    pub port: u16,
    /// `host:port`, the identity of the target.
    pub full_host: String,
    /// Free-text grouping label.
    pub community: String,
}

/// One successful parse of a server's info reply.
pub struct A2SInfoResult {
    pub ping: u128,
    pub server_name: String,
    pub map: String,
    pub folder: String,
    pub game: String,
    pub game_id: u16,
    pub num_players: u8,
    pub num_bots: u8,
    pub max_players: u8,
}

/// The mathematical value of an [`A2SInfoResult`].
pub struct A2SInfoView {
    pub ping: u128,
    pub server_name: Seq<char>,
    pub map: Seq<char>,
    pub folder: Seq<char>,
    pub game: Seq<char>,
    pub game_id: u16,
    pub num_players: u8,
    pub num_bots: u8,
    pub max_players: u8,
}

impl View for A2SInfoResult {
    type V = A2SInfoView;

    open spec fn view(&self) -> A2SInfoView {
        A2SInfoView {
            ping: self.ping,
            server_name: self.server_name@,
            map: self.map@,
            folder: self.folder@,
            game: self.game@,
            game_id: self.game_id,
            num_players: self.num_players,
            num_bots: self.num_bots,
            max_players: self.max_players,
        }
    }
}

impl A2SInfoResult {
    /// A copy of this result.
    pub fn duplicate(&self) -> (r: A2SInfoResult)
        ensures
            r@ == self@,
    {
        A2SInfoResult {
            ping: self.ping,
            server_name: self.server_name.clone(),
            map: self.map.clone(),
            folder: self.folder.clone(),
            game: self.game.clone(),
            game_id: self.game_id,
            num_players: self.num_players,
            num_bots: self.num_bots,
            max_players: self.max_players,
        }
    }
}

/// Why a query of one target failed.
pub enum QueryError {
    /// No reply came within the time allowed.
    Timeout,
    /// The reply came from another address than the one queried.
    SpoofedSource,
    /// The reply does not start with the packet header.
    MalformedHeader,
    /// The reply ends before the fields it must hold.
    Truncated,
    /// The socket could not be bound, or a send or receive failed.
    Io(String),
}

/// Which reply of the exchange is being handled.
pub enum QueryStage {
    /// The reply to the plain info request.
    Initial,
    /// The reply to the request that echoed a challenge.
    Challenged,
}

/// What to do after a reply.
pub enum QueryStep {
    /// Send these bytes to the target and wait for a further reply.
    Challenge(Vec<u8>),
    /// The exchange is over with this result.
    Done(A2SInfoResult),
    /// The exchange failed.
    Failed(QueryError),
}

/// The fields of an info reply as they stand on the wire.
pub struct InfoFields {
    pub marker: u8,
    pub name: Seq<u8>,
    pub map: Seq<u8>,
    pub folder: Seq<u8>,
    pub game: Seq<u8>,
    pub game_id: u16,
    pub players: u8,
    pub max_players: u8,
    pub bots: u8,
}

/// The info request datagram: the header, `T`, "Source Engine Query" and a zero byte.
pub open spec fn info_request_bytes() -> Seq<u8> {
    seq![0xFFu8, 0xFF, 0xFF, 0xFF, 0x54]
        + seq![0x53u8, 0x6f, 0x75, 0x72, 0x63, 0x65, 0x20]
        + seq![0x45u8, 0x6e, 0x67, 0x69, 0x6e, 0x65, 0x20]
        + seq![0x51u8, 0x75, 0x65, 0x72, 0x79, 0x00]
}

/// The reply starts with the header, `-1` as a little-endian 32-bit integer.
pub open spec fn valid_header(b: Seq<u8>) -> bool {
    b.len() >= 4 && le_i32(b[0], b[1], b[2], b[3]) == -1
}

/// The info reply fields read from offset 4 on, if the reply holds them all.
pub open spec fn parse_info(b: Seq<u8>) -> Option<InfoFields> {
    if b.len() < 5 {
        None
    } else {
        match cstr_at(b, 5) {
            None => None,
            Some((name, p1)) => match cstr_at(b, p1) {
                None => None,
                Some((map, p2)) => match cstr_at(b, p2) {
                    None => None,
                    Some((folder, p3)) => match cstr_at(b, p3) {
                        None => None,
                        Some((game, p4)) => if p4 + 5 <= b.len() {
                            Some(
                                InfoFields {
                                    marker: b[4],
                                    name,
                                    map,
                                    folder,
                                    game,
                                    game_id: le_u16(b[p4], b[p4 + 1]) as u16,
                                    players: b[p4 + 2],
                                    max_players: b[p4 + 3],
                                    bots: b[p4 + 4],
                                },
                            )
                        } else {
                            None
                        },
                    },
                },
            },
        }
    }
}

/// The four strings of the reply decode from their bytes.
pub open spec fn strings_decoded(f: InfoFields, x: A2SInfoView) -> bool {
    &&& ascii_decodes_to(f.name, x.server_name)
    &&& ascii_decodes_to(f.map, x.map)
    &&& ascii_decodes_to(f.folder, x.folder)
    &&& ascii_decodes_to(f.game, x.game)
}

/// No byte of `s` is zero.
pub open spec fn zero_free(s: Seq<u8>) -> bool {
    forall|k: int| 0 <= k < s.len() ==> s[k] != 0
}

/// An info reply that carries the fields `f`, header included.
pub open spec fn info_reply_bytes(f: InfoFields) -> Seq<u8> {
    seq![0xFFu8, 0xFF, 0xFF, 0xFF, f.marker] + f.name + seq![0u8] + f.map + seq![0u8] + f.folder
        + seq![0u8] + f.game + seq![0u8] + seq![
        (f.game_id % 256) as u8,
        (f.game_id / 256) as u8,
        f.players,
        f.max_players,
        f.bots,
    ]
}

/// Parsing a well-formed info reply gives back exactly the fields it was
/// built from, whatever bytes follow it.
pub proof fn lemma_parse_round_trip(f: InfoFields, rest: Seq<u8>)
    requires
        zero_free(f.name),
        zero_free(f.map),
        zero_free(f.folder),
        zero_free(f.game),
    ensures
        valid_header(info_reply_bytes(f) + rest),
        parse_info(info_reply_bytes(f) + rest) == Some(f),
{
    let b = info_reply_bytes(f) + rest;
    let h = seq![0xFFu8, 0xFF, 0xFF, 0xFF, f.marker];
    let z = seq![0u8];
    let tail = seq![
        (f.game_id % 256) as u8,
        (f.game_id / 256) as u8,
        f.players,
        f.max_players,
        f.bots,
    ];
    let p1 = h + f.name + z;
    let p2 = p1 + f.map + z;
    let p3 = p2 + f.folder + z;
    let p4 = p3 + f.game + z;
    assert(b == h + f.name + z + (f.map + z + f.folder + z + f.game + z + tail + rest));
    lemma_cstr_at_concat(h, f.name, f.map + z + f.folder + z + f.game + z + tail + rest);
    assert(b == p1 + f.map + z + (f.folder + z + f.game + z + tail + rest));
    lemma_cstr_at_concat(p1, f.map, f.folder + z + f.game + z + tail + rest);
    assert(b == p2 + f.folder + z + (f.game + z + tail + rest));
    lemma_cstr_at_concat(p2, f.folder, f.game + z + tail + rest);
    assert(b == p3 + f.game + z + (tail + rest));
    lemma_cstr_at_concat(p3, f.game, tail + rest);
    assert(b == p4 + tail + rest);
    let q = p4.len() as int;
    assert(b[q] == (f.game_id % 256) as u8);
    assert(b[q + 1] == (f.game_id / 256) as u8);
    assert(b[q + 2] == f.players);
    assert(b[q + 3] == f.max_players);
    assert(b[q + 4] == f.bots);
    assert(le_u16(b[q], b[q + 1]) == f.game_id);
    assert(b[4] == f.marker);
    assert(b[0] == 0xFF && b[1] == 0xFF && b[2] == 0xFF && b[3] == 0xFF);
}

/// Player count without bots, or the raw count when the reply claims more
/// bots than players.
pub open spec fn derived_players(players: u8, bots: u8) -> u8 {
    if bots <= players {
        (players - bots) as u8
    } else {
        players
    }
}

/// The result made of parsed reply fields and the measured ping.
pub open spec fn result_of(f: InfoFields, ping: u128) -> A2SInfoView {
    A2SInfoView {
        ping,
        server_name: utf8_lossy(f.name),
        map: utf8_lossy(f.map),
        folder: utf8_lossy(f.folder),
        game: utf8_lossy(f.game),
        game_id: f.game_id,
        num_players: derived_players(f.players, f.bots),
        num_bots: f.bots,
        max_players: f.max_players,
    }
}

/// Identity of a target: host, a colon and the port in decimal.
pub open spec fn target_key(host: Seq<char>, port: u16) -> Seq<char> {
    host + seq![':'] + decimal(port as nat)
}

/// The info request datagram.
pub fn info_request() -> (r: Vec<u8>)
    ensures
        r@ == info_request_bytes(),
{
    let r = vec![
        0xFFu8, 0xFF, 0xFF, 0xFF, 0x54, 0x53, 0x6f, 0x75, 0x72, 0x63, 0x65, 0x20, 0x45, 0x6e,
        0x67, 0x69, 0x6e, 0x65, 0x20, 0x51, 0x75, 0x65, 0x72, 0x79, 0x00,
    ];
    assert(r@ == info_request_bytes());
    r
}

/// The reply's type marker is that of an info reply. Another marker is an
/// anomaly worth reporting, not a failure: the reply is parsed anyway.
pub fn is_info_reply(reply: &[u8]) -> (r: bool)
    ensures
        r == (reply@.len() >= 5 && reply@[4] == INFO_REPLY),
{
    match read_byte(reply, 4) {
        Some((m, _)) => m == INFO_REPLY,
        None => false,
    }
}

/// Parses an info reply, with `ping` as the measured round trip.
/// `None` when the reply ends before all of its fields.
pub fn handle_a2s_response(buf: &[u8], ping: u128) -> (r: Option<A2SInfoResult>)
    ensures
        match parse_info(buf@) {
            Some(f) => r matches Some(x) && x@ == result_of(f, ping) && strings_decoded(f, x@),
            None => r is None,
        },
{
    let (_marker, p0) = match read_byte(buf, 4) {
        Some(v) => v,
        None => return None,
    };
    let (server_name, p1) = match read_string(buf, p0) {
        Some(v) => v,
        None => return None,
    };
    let (map, p2) = match read_string(buf, p1) {
        Some(v) => v,
        None => return None,
    };
    let (folder, p3) = match read_string(buf, p2) {
        Some(v) => v,
        None => return None,
    };
    let (game, p4) = match read_string(buf, p3) {
        Some(v) => v,
        None => return None,
    };
    let (game_id, p5) = match read_short(buf, p4) {
        Some(v) => v,
        None => return None,
    };
    let (raw_players, p6) = match read_byte(buf, p5) {
        Some(v) => v,
        None => return None,
    };
    let (max_players, p7) = match read_byte(buf, p6) {
        Some(v) => v,
        None => return None,
    };
    let (num_bots, _) = match read_byte(buf, p7) {
        Some(v) => v,
        None => return None,
    };
    let num_players = if num_bots <= raw_players {
        raw_players - num_bots
    } else {
        raw_players
    };
    Some(
        A2SInfoResult {
            ping,
            server_name,
            map,
            folder,
            game,
            game_id,
            num_players,
            num_bots,
            max_players,
        },
    )
}

impl SourceQuery {
    /// A target at `host:port` under the label `community`.
    pub fn new(host: String, port: u16, community: String) -> (r: SourceQuery)
        ensures
            r.full_host@ == target_key(host@, port),
            r.community@ == community@,
            r.host@ == host@,
            r.port == port,
    {
        let mut key = chars_of(&host);
        key.push(':');
        push_decimal(&mut key, port as u128);
        let full_host = text_of(&key);
        SourceQuery { host, port, full_host, community }
    }

    /// Decides what follows a reply that came from `sender` (an address in
    /// `host:port` form) in the given stage of the exchange.
    pub fn on_reply(&self, stage: QueryStage, sender: &String, reply: &[u8], ping: u128) -> (r:
        QueryStep)
        ensures
            sender@ != self.full_host@ ==> r matches QueryStep::Failed(QueryError::SpoofedSource),
            sender@ == self.full_host@ && !valid_header(reply@) ==> r matches QueryStep::Failed(
                QueryError::MalformedHeader,
            ),
            sender@ == self.full_host@ && valid_header(reply@) && stage is Initial
                && reply@.len() >= 5 && reply@[4] == CHALLENGE_REPLY ==> if reply@.len() >= 9 {
                r matches QueryStep::Challenge(v) && v@ == info_request_bytes() + reply@.subrange(
                    5,
                    9,
                )
            } else {
                r matches QueryStep::Failed(QueryError::Truncated)
            },
            sender@ == self.full_host@ && valid_header(reply@) && !(stage is Initial
                && reply@.len() >= 5 && reply@[4] == CHALLENGE_REPLY) ==> match parse_info(
                reply@,
            ) {
                Some(f) => r matches QueryStep::Done(x) && x@ == result_of(f, ping),
                None => r matches QueryStep::Failed(QueryError::Truncated),
            },
    {
        if *sender != self.full_host {
            return QueryStep::Failed(QueryError::SpoofedSource);
        }
        match read_long(reply, 0) {
            Some((h, _)) => {
                if h != -1 {
                    return QueryStep::Failed(QueryError::MalformedHeader);
                }
            },
            None => return QueryStep::Failed(QueryError::MalformedHeader),
        }
        let challenged = match stage {
            QueryStage::Initial => reply.len() >= 5 && reply[4] == CHALLENGE_REPLY,
            QueryStage::Challenged => false,
        };
        if challenged {
            if reply.len() < 9 {
                return QueryStep::Failed(QueryError::Truncated);
            }
            let mut packet = info_request();
            let mut i: usize = 5;
            while i < 9
                invariant
                    5 <= i <= 9 <= reply@.len(),
                    packet@ == info_request_bytes() + reply@.subrange(5, i as int),
                decreases 9 - i,
            {
                packet.push(reply[i]);
                i = i + 1;
                assert(packet@ == info_request_bytes() + reply@.subrange(5, i as int));
            }
            return QueryStep::Challenge(packet);
        }
        match handle_a2s_response(reply, ping) {
            Some(result) => QueryStep::Done(result),
            None => QueryStep::Failed(QueryError::Truncated),
        }
    }
}

} // verus!
