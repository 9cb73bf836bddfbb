//! The records of the wire format, as MessagePack carries them.
//!
//! On the wire a record is an array of its fields in the order in which
//! they are declared here, so a record is written and read as a tuple of
//! plain values.

use crate::error::{Error, ErrorView};
use crate::floor::Floor;
use crate::matches::Winner;
use crate::query::{Query, QueryParameters};
use crate::text::{ascii_text, hex_text, string_from_ascii, to_hex_bytes};
use crate::vecs::reversed;
use rmp_serde::decode::Error as UnpackFault;
use rmp_serde::encode::Error as PackFault;
use vstd::prelude::*;

verus! {

/// An integer whose purpose in the format is not known.  Signed and large
/// so that unexpectedly large values cause no errors.
pub type UnknownInteger = i64;

/// A request with its header.
#[derive(Debug, Clone)]
pub struct Request<T> {
    pub header: RequestHeader,
    pub body: T,
}

/// A reply with its header.
#[derive(Debug, Clone)]
pub struct Response<T> {
    pub header: ResponseHeader,
    pub body: T,
}

pub type ReplayRequest = Request<RequestBody>;

pub type ReplayResponse = Response<ResponseBody>;

/// Who asks, and with which version of the protocol.
#[derive(Debug, Clone)]
pub struct RequestHeader {
    /// The id of the player making the request.
    pub player_id: String,
    pub string2: String,
    pub int1: UnknownInteger,
    pub version: String,
    /// The platform: 3 on a PC.
    pub int2: UnknownInteger,
}

/// What a [`RequestHeader`] holds.
pub struct RequestHeaderView {
    pub player_id: Seq<char>,
    pub string2: Seq<char>,
    pub int1: UnknownInteger,
    pub version: Seq<char>,
    pub int2: UnknownInteger,
}

impl View for RequestHeader {
    type V = RequestHeaderView;

    open spec fn view(&self) -> RequestHeaderView {
        RequestHeaderView {
            player_id: self.player_id@,
            string2: self.string2@,
            int1: self.int1,
            version: self.version@,
            int2: self.int2,
        }
    }
}

/// Whose replays to search.
#[derive(Debug, PartialEq, Eq, Structural, Clone, Copy)]
pub enum PlayerSearch {
    All,
    Self_,
    Follow,
    Rival,
    Favorite,
}

impl PlayerSearch {
    /// The name that stands for the scope on the wire.
    pub open spec fn wire_name(self) -> Seq<char> {
        match self {
            PlayerSearch::All => "All"@,
            PlayerSearch::Self_ => "Self_"@,
            PlayerSearch::Follow => "Follow"@,
            PlayerSearch::Rival => "Rival"@,
            PlayerSearch::Favorite => "Favorite"@,
        }
    }

    /// The name that stands for the scope on the wire.
    pub fn name(&self) -> (name: &'static str)
        ensures
            name@ == self.wire_name(),
    {
        match self {
            PlayerSearch::All => "All",
            PlayerSearch::Self_ => "Self_",
            PlayerSearch::Follow => "Follow",
            PlayerSearch::Rival => "Rival",
            PlayerSearch::Favorite => "Favorite",
        }
    }
}

/// Which winner a request asks for.
#[derive(Debug, PartialEq, Eq, Structural, Clone, Copy)]
pub enum RequestWinner {
    Undesignated,
    PlayerOne,
}

impl RequestWinner {
    /// The number that stands for the choice: -1 for no choice, 0 for the
    /// first player.
    pub open spec fn code(self) -> i8 {
        match self {
            RequestWinner::Undesignated => -1i8,
            RequestWinner::PlayerOne => 0i8,
        }
    }

    /// The number that stands for the choice.
    pub fn to_i8(&self) -> (code: i8)
        ensures
            code == self.code(),
    {
        match self {
            RequestWinner::Undesignated => -1,
            RequestWinner::PlayerOne => 0,
        }
    }
}

/// The filters of a request.
#[derive(Debug, Clone)]
pub struct RequestQuery {
    pub int1: UnknownInteger,
    pub player_search: PlayerSearch,
    pub min_floor: Floor,
    pub max_floor: Floor,
    pub seq: Vec<()>,
    /// The character of the first player, or -1 for any.
    pub char_1: i8,
    /// The character of the second player, or -1 for any.
    pub char_2: i8,
    /// 0 for either player, 1 for the first, 2 for the second.
    pub winner: u8,
    /// 0 or 1.
    pub prioritize_best_bout: u8,
    pub int9: UnknownInteger,
}

/// What a [`RequestQuery`] holds.
pub struct RequestQueryView {
    pub int1: UnknownInteger,
    pub player_search: PlayerSearch,
    pub min_floor: Floor,
    pub max_floor: Floor,
    pub seq: nat,
    pub char_1: i8,
    pub char_2: i8,
    pub winner: u8,
    pub prioritize_best_bout: u8,
    pub int9: UnknownInteger,
}

impl View for RequestQuery {
    type V = RequestQueryView;

    open spec fn view(&self) -> RequestQueryView {
        RequestQueryView {
            int1: self.int1,
            player_search: self.player_search,
            min_floor: self.min_floor,
            max_floor: self.max_floor,
            seq: self.seq@.len(),
            char_1: self.char_1,
            char_2: self.char_2,
            winner: self.winner,
            prioritize_best_bout: self.prioritize_best_bout,
            int9: self.int9,
        }
    }
}

impl RequestQueryView {
    /// The signed byte that stands for a character filter: the character's
    /// code, or -1 where none is set.
    pub open spec fn character_byte(filter: Option<crate::character::Character>) -> i8 {
        match filter {
            Some(character) => character.code() as i8,
            None => -1i8,
        }
    }

    /// The filters of a request for the matches that `query` describes.
    pub open spec fn of_query(query: Query) -> RequestQueryView {
        RequestQueryView {
            int1: -1i64,
            player_search: PlayerSearch::All,
            min_floor: query.min_floor,
            max_floor: query.max_floor,
            seq: 0,
            char_1: RequestQueryView::character_byte(query.char_1),
            char_2: RequestQueryView::character_byte(query.char_2),
            winner: Query::winner_byte(query.winner),
            prioritize_best_bout: 0,
            int9: 1,
        }
    }
}

impl RequestQuery {
    /// The filters of a request for the matches that `query` describes.
    pub fn from<A, B, C, D, E>(query: &QueryParameters<A, B, C, D, E>) -> (r: RequestQuery)
        ensures
            r@ == RequestQueryView::of_query(query@),
    {
        RequestQuery::of(&query.filters())
    }

    /// The filters of a request for the matches that `query` describes.
    pub fn of(query: &Query) -> (r: RequestQuery)
        ensures
            r@ == RequestQueryView::of_query(*query),
    {
        let char_1: i8 = match query.char_1 {
            Some(character) => character.to_u8() as i8,
            None => -1,
        };
        let char_2: i8 = match query.char_2 {
            Some(character) => character.to_u8() as i8,
            None => -1,
        };
        let winner: u8 = match query.winner {
            None => 0x00,
            Some(Winner::Player1) => 0x01,
            Some(Winner::Player2) => 0x02,
        };
        RequestQuery {
            int1: -1,
            player_search: PlayerSearch::All,
            min_floor: query.min_floor,
            max_floor: query.max_floor,
            seq: Vec::new(),
            char_1,
            char_2,
            winner,
            prioritize_best_bout: 0,
            int9: 1,
        }
    }
}

/// Which page is asked for, and with which filters.
#[derive(Debug, Clone)]
pub struct RequestBody {
    pub int1: UnknownInteger,
    /// The page, counted from zero.
    pub index: usize,
    pub replays_per_page: usize,
    pub query: RequestQuery,
}

/// What a [`RequestBody`] holds.
pub struct RequestBodyView {
    pub int1: UnknownInteger,
    pub index: usize,
    pub replays_per_page: usize,
    pub query: RequestQueryView,
}

impl View for RequestBody {
    type V = RequestBodyView;

    open spec fn view(&self) -> RequestBodyView {
        RequestBodyView {
            int1: self.int1,
            index: self.index,
            replays_per_page: self.replays_per_page,
            query: self.query@,
        }
    }
}

/// What a request for replays holds.
pub struct ReplayRequestView {
    pub header: RequestHeaderView,
    pub body: RequestBodyView,
}

impl View for Request<RequestBody> {
    type V = ReplayRequestView;

    open spec fn view(&self) -> ReplayRequestView {
        ReplayRequestView { header: self.header@, body: self.body@ }
    }
}

/// The MessagePack bytes of a request for replays, given by its fields in
/// their order on the wire: the header, the first three fields of the body,
/// and the filters.  The search scope is given by its name, the reserved
/// list by its length.  `None` for a request that cannot be written.
pub uninterp spec fn packed_request(
    header: (Seq<char>, Seq<char>, i64, Seq<char>, i64),
    body: (i64, usize, usize),
    query: (i64, Seq<char>, u8, u8, nat, i8, i8, u8, u8, i64),
) -> Option<Seq<u8>>;

/// `rmp_serde::encode::to_vec` on the pair of header and body, each a tuple
/// of its fields in their order on the wire, the filters being the last
/// field of the body.  The call succeeds exactly on the requests for which
/// `packed_request` names bytes, and hands out those bytes.  That memory
/// for the bytes can be had is taken for granted.
#[verifier::external_body]
fn pack_request(
    header: (&str, &str, i64, &str, i64),
    body: (i64, usize, usize),
    query: (i64, &str, u8, u8, &Vec<()>, i8, i8, u8, u8, i64),
) -> (r: Result<Vec<u8>, PackFault>)
    ensures
        r is Ok <==> packed_request(
            (header.0@, header.1@, header.2, header.3@, header.4),
            body,
            (
                query.0,
                query.1@,
                query.2,
                query.3,
                query.4@.len(),
                query.5,
                query.6,
                query.7,
                query.8,
                query.9,
            ),
        ) is Some,
        r matches Ok(bytes) ==> packed_request(
            (header.0@, header.1@, header.2, header.3@, header.4),
            body,
            (
                query.0,
                query.1@,
                query.2,
                query.3,
                query.4@.len(),
                query.5,
                query.6,
                query.7,
                query.8,
                query.9,
            ),
        ) == Some(bytes@),
{
    rmp_serde::encode::to_vec(&(header, (body.0, body.1, body.2, query)))
}

impl ReplayRequestView {
    /// The MessagePack bytes of the request, if it can be written.
    pub open spec fn bytes(self) -> Option<Seq<u8>> {
        packed_request(
            (
                self.header.player_id,
                self.header.string2,
                self.header.int1,
                self.header.version,
                self.header.int2,
            ),
            (self.body.int1, self.body.index, self.body.replays_per_page),
            (
                self.body.query.int1,
                self.body.query.player_search.wire_name(),
                self.body.query.min_floor.code(),
                self.body.query.max_floor.code(),
                self.body.query.seq,
                self.body.query.char_1,
                self.body.query.char_2,
                self.body.query.winner,
                self.body.query.prioritize_best_bout,
                self.body.query.int9,
            ),
        )
    }

    /// The upper-case hexadecimal text in which the request is sent, if
    /// the request can be written.
    pub open spec fn hex(self) -> Option<Seq<char>> {
        match self.bytes() {
            Some(bytes) => Some(ascii_text(hex_text(bytes, true))),
            None => None,
        }
    }
}

impl RequestHeaderView {
    /// The header by which this library makes itself known to the service.
    pub open spec fn library() -> RequestHeaderView {
        RequestHeaderView {
            player_id: "211027113123008384"@,
            string2: "61a5ed4f461c2"@,
            int1: 2,
            version: "0.1.0"@,
            int2: 3,
        }
    }
}

impl RequestHeader {
    /// The header by which this library makes itself known to the service.
    pub fn library() -> (header: RequestHeader)
        ensures
            header@ == RequestHeaderView::library(),
    {
        RequestHeader {
            player_id: "211027113123008384".to_owned(),
            string2: "61a5ed4f461c2".to_owned(),
            int1: 2,
            version: "0.1.0".to_owned(),
            int2: 3,
        }
    }
}

/// The hexadecimal text of a request whose bytes were written, or the
/// error for one whose bytes could not be written.
pub fn hex_of_packed(packed: Result<Vec<u8>, PackFault>) -> (r: Result<String, Error>)
    ensures
        match packed {
            Ok(bytes) => r matches Ok(text) && text@ == ascii_text(hex_text(bytes@, true)),
            Err(_) => r matches Err(e) && e@ == ErrorView::EncodeError,
        },
{
    match packed {
        Ok(bytes) => Ok(string_from_ascii(to_hex_bytes(bytes.as_slice(), true))),
        Err(e) => Err(Error::from(e)),
    }
}

impl Request<RequestBody> {
    /// The request in upper-case hexadecimal digits, as it is sent.  It
    /// fails exactly for a request that cannot be written.
    pub fn to_hex(&self) -> (r: Result<String, Error>)
        ensures
            r is Ok <==> self@.bytes() is Some,
            match r {
                Ok(text) => self@.hex() == Some(text@),
                Err(e) => e@ == ErrorView::EncodeError,
            },
    {
        hex_of_packed(self.to_bytes())
    }

    /// The MessagePack bytes of the request.  It fails exactly for a
    /// request that cannot be written.
    pub fn to_bytes(&self) -> (r: Result<Vec<u8>, PackFault>)
        ensures
            r is Ok <==> self@.bytes() is Some,
            r matches Ok(bytes) ==> self@.bytes() == Some(bytes@),
    {
        pack_request(
            (
                self.header.player_id.as_str(),
                self.header.string2.as_str(),
                self.header.int1,
                self.header.version.as_str(),
                self.header.int2,
            ),
            (self.body.int1, self.body.index, self.body.replays_per_page),
            (
                self.body.query.int1,
                self.body.query.player_search.name(),
                self.body.query.min_floor.to_u8(),
                self.body.query.max_floor.to_u8(),
                &self.body.query.seq,
                self.body.query.char_1,
                self.body.query.char_2,
                self.body.query.winner,
                self.body.query.prioritize_best_bout,
                self.body.query.int9,
            ),
        )
    }
}

/// The header of a reply.
#[derive(Debug, Clone)]
pub struct ResponseHeader {
    pub id: String,
    pub int1: UnknownInteger,
    pub date: String,
    pub version1: String,
    pub version2: String,
    pub version3: String,
    pub string1: String,
    pub string2: String,
}

/// What a [`ResponseHeader`] holds.
pub struct ResponseHeaderView {
    pub id: Seq<char>,
    pub int1: UnknownInteger,
    pub date: Seq<char>,
    pub version1: Seq<char>,
    pub version2: Seq<char>,
    pub version3: Seq<char>,
    pub string1: Seq<char>,
    pub string2: Seq<char>,
}

impl View for ResponseHeader {
    type V = ResponseHeaderView;

    open spec fn view(&self) -> ResponseHeaderView {
        ResponseHeaderView {
            id: self.id@,
            int1: self.int1,
            date: self.date@,
            version1: self.version1@,
            version2: self.version2@,
            version3: self.version3@,
            string1: self.string1@,
            string2: self.string2@,
        }
    }
}

/// A player as a replay record names them.
#[derive(Debug, Clone)]
pub struct Player {
    /// The player's id in decimal digits.
    pub id: String,
    pub name: String,
    pub string1: String,
    pub string2: String,
    pub int1: UnknownInteger,
}

/// What a [`Player`] record holds.
pub struct PlayerView {
    pub id: Seq<char>,
    pub name: Seq<char>,
    pub string1: Seq<char>,
    pub string2: Seq<char>,
    pub int1: UnknownInteger,
}

impl View for Player {
    type V = PlayerView;

    open spec fn view(&self) -> PlayerView {
        PlayerView {
            id: self.id@,
            name: self.name@,
            string1: self.string1@,
            string2: self.string2@,
            int1: self.int1,
        }
    }
}

/// One replay as the service reports it.
#[derive(Debug, Clone)]
pub struct Replay {
    pub int1: u64,
    pub int2: UnknownInteger,
    /// The byte of the floor.
    pub floor: u8,
    /// The byte of the first player's character.
    pub player1_character: u8,
    /// The byte of the second player's character.
    pub player2_character: u8,
    pub player1: Player,
    pub player2: Player,
    /// 1 where the first player won, 2 where the second did.
    pub winner: u8,
    /// The time of the match, as `YYYY-MM-DD HH:MM:SS` in UTC.
    pub date: String,
    pub int7: UnknownInteger,
    pub views: u64,
    pub int8: UnknownInteger,
    pub likes: u64,
}

/// What a [`Replay`] record holds.
pub struct ReplayView {
    pub int1: u64,
    pub int2: UnknownInteger,
    pub floor: u8,
    pub player1_character: u8,
    pub player2_character: u8,
    pub player1: PlayerView,
    pub player2: PlayerView,
    pub winner: u8,
    pub date: Seq<char>,
    pub int7: UnknownInteger,
    pub views: u64,
    pub int8: UnknownInteger,
    pub likes: u64,
}

impl View for Replay {
    type V = ReplayView;

    open spec fn view(&self) -> ReplayView {
        ReplayView {
            int1: self.int1,
            int2: self.int2,
            floor: self.floor,
            player1_character: self.player1_character,
            player2_character: self.player2_character,
            player1: self.player1@,
            player2: self.player2@,
            winner: self.winner,
            date: self.date@,
            int7: self.int7,
            views: self.views,
            int8: self.int8,
            likes: self.likes,
        }
    }
}

/// The body of a reply: a page of replays.
#[derive(Debug, Clone)]
pub struct ResponseBody {
    pub int1: UnknownInteger,
    pub int2: UnknownInteger,
    pub int3: UnknownInteger,
    pub replays: Vec<Replay>,
}

/// What a [`ResponseBody`] holds.
pub struct ResponseBodyView {
    pub int1: UnknownInteger,
    pub int2: UnknownInteger,
    pub int3: UnknownInteger,
    pub replays: Seq<ReplayView>,
}

/// The views of a sequence of replay records.
pub open spec fn replay_views(replays: Seq<Replay>) -> Seq<ReplayView> {
    replays.map_values(|r: Replay| r@)
}

impl View for ResponseBody {
    type V = ResponseBodyView;

    open spec fn view(&self) -> ResponseBodyView {
        ResponseBodyView {
            int1: self.int1,
            int2: self.int2,
            int3: self.int3,
            replays: replay_views(self.replays@),
        }
    }
}

/// What a reply with a page of replays holds.
pub struct ReplayResponseView {
    pub header: ResponseHeaderView,
    pub body: ResponseBodyView,
}

impl View for Response<ResponseBody> {
    type V = ReplayResponseView;

    open spec fn view(&self) -> ReplayResponseView {
        ReplayResponseView { header: self.header@, body: self.body@ }
    }
}

/// The fields of a player record in their order on the wire.
pub type PlayerFields = (String, String, String, String, i64);

/// The fields of a replay record in their order on the wire.
pub type ReplayFields = (
    u64,
    i64,
    u8,
    u8,
    u8,
    PlayerFields,
    PlayerFields,
    u8,
    String,
    i64,
    u64,
    i64,
    u64,
);

/// The fields of a reply's header in their order on the wire.
pub type HeaderFields = (String, i64, String, String, String, String, String, String);

/// The fields of a reply in their order on the wire.
pub type ResponseFields = (HeaderFields, (i64, i64, i64, Vec<ReplayFields>));

/// The player record with the given fields.
pub open spec fn player_of_fields(fields: PlayerFields) -> PlayerView {
    PlayerView {
        id: fields.0@,
        name: fields.1@,
        string1: fields.2@,
        string2: fields.3@,
        int1: fields.4,
    }
}

/// The replay record with the given fields.
pub open spec fn replay_of_fields(fields: ReplayFields) -> ReplayView {
    ReplayView {
        int1: fields.0,
        int2: fields.1,
        floor: fields.2,
        player1_character: fields.3,
        player2_character: fields.4,
        player1: player_of_fields(fields.5),
        player2: player_of_fields(fields.6),
        winner: fields.7,
        date: fields.8@,
        int7: fields.9,
        views: fields.10,
        int8: fields.11,
        likes: fields.12,
    }
}

/// The reply with the given fields.
pub open spec fn response_of_fields(fields: ResponseFields) -> ReplayResponseView {
    ReplayResponseView {
        header: ResponseHeaderView {
            id: fields.0.0@,
            int1: fields.0.1,
            date: fields.0.2@,
            version1: fields.0.3@,
            version2: fields.0.4@,
            version3: fields.0.5@,
            string1: fields.0.6@,
            string2: fields.0.7@,
        },
        body: ResponseBodyView {
            int1: fields.1.0,
            int2: fields.1.1,
            int3: fields.1.2,
            replays: fields.1.3@.map_values(|f: ReplayFields| replay_of_fields(f)),
        },
    }
}

/// The reply that the bytes are the MessagePack form of, if they are one:
/// a pair of header and body, each an array of its fields.
pub uninterp spec fn unpacked_response(bytes: Seq<u8>) -> Option<ReplayResponseView>;

/// `rmp_serde::decode::from_slice` for the pair of header and body, each a
/// tuple of its fields.  The call succeeds exactly on the bytes that
/// `unpacked_response` takes for a reply, and hands out that reply's fields.
#[verifier::external_body]
fn unpack_response(bytes: &[u8]) -> (r: Result<ResponseFields, UnpackFault>)
    ensures
        r is Ok <==> unpacked_response(bytes@) is Some,
        r matches Ok(fields) ==> unpacked_response(bytes@) == Some(response_of_fields(fields)),
{
    rmp_serde::decode::from_slice::<ResponseFields>(bytes)
}

impl Player {
    /// The record with the given fields.
    pub fn from_fields(fields: PlayerFields) -> (player: Player)
        ensures
            player@ == player_of_fields(fields),
    {
        let (id, name, string1, string2, int1) = fields;
        Player { id, name, string1, string2, int1 }
    }
}

impl Replay {
    /// The record with the given fields.
    pub fn from_fields(fields: ReplayFields) -> (replay: Replay)
        ensures
            replay@ == replay_of_fields(fields),
    {
        let (
            int1,
            int2,
            floor,
            player1_character,
            player2_character,
            player1,
            player2,
            winner,
            date,
            int7,
            views,
            int8,
            likes,
        ) = fields;
        Replay {
            int1,
            int2,
            floor,
            player1_character,
            player2_character,
            player1: Player::from_fields(player1),
            player2: Player::from_fields(player2),
            winner,
            date,
            int7,
            views,
            int8,
            likes,
        }
    }
}

impl Response<ResponseBody> {
    /// The reply with the given fields.
    pub fn from_fields(fields: ResponseFields) -> (response: Response<ResponseBody>)
        ensures
            response@ == response_of_fields(fields),
    {
        let (header, body) = fields;
        let (id, int1, date, version1, version2, version3, string1, string2) = header;
        let (body_int1, body_int2, body_int3, records) = body;
        let ghost all = records@;
        let mut replays: Vec<Replay> = Vec::new();
        let mut rest = reversed(records);
        while rest.len() > 0
            invariant
                replays@.len() + rest@.len() == all.len(),
                forall|k: int| 0 <= k < rest@.len() ==> rest@[k] == all[all.len() - 1 - k],
                forall|k: int| 0 <= k < replays@.len() ==> replays@[k]@ == replay_of_fields(all[k]),
            decreases rest.len(),
        {
            let record = rest.pop().unwrap();
            replays.push(Replay::from_fields(record));
        }
        assert(replay_views(replays@) =~= all.map_values(|f: ReplayFields| replay_of_fields(f)));
        Response {
            header: ResponseHeader {
                id,
                int1,
                date,
                version1,
                version2,
                version3,
                string1,
                string2,
            },
            body: ResponseBody { int1: body_int1, int2: body_int2, int3: body_int3, replays },
        }
    }

    /// Reads a reply from its MessagePack bytes.
    pub fn from_bytes(bytes: &[u8]) -> (r: Result<Response<ResponseBody>, UnpackFault>)
        ensures
            r is Ok <==> unpacked_response(bytes@) is Some,
            r matches Ok(response) ==> unpacked_response(bytes@) == Some(response@),
    {
        match unpack_response(bytes) {
            Ok(fields) => Ok(Response::<ResponseBody>::from_fields(fields)),
            Err(e) => Err(e),
        }
    }
}

/// The body of a request for the ranking.
#[derive(Debug, Clone, Copy)]
pub struct VipRequest {
    pub int1: UnknownInteger,
    pub int2: UnknownInteger,
    pub int3: UnknownInteger,
    pub int4: UnknownInteger,
}

/// The body of a reply with the ranking.
#[derive(Debug, Clone)]
pub struct VipResponse {
    pub int1: UnknownInteger,
    pub int2: UnknownInteger,
    pub int3: UnknownInteger,
    pub int4: UnknownInteger,
    pub ranking: Vec<VipPlayer>,
    pub struct1: VipStruct1,
    pub int5: UnknownInteger,
}

/// A player in the ranking.
#[derive(Debug, Clone)]
pub struct VipPlayer {
    pub int1: UnknownInteger,
    pub int2: UnknownInteger,
    pub int3: UnknownInteger,
    pub id: String,
    pub name: String,
    pub string1: String,
    pub string2: String,
}

/// Three numbers at the end of the ranking.
#[derive(Debug, Clone, Copy)]
pub struct VipStruct1 {
    pub int1: UnknownInteger,
    pub int2: UnknownInteger,
    pub int3: UnknownInteger,
}

/// The body of a request for a player's statistics.
#[derive(Debug, Clone)]
pub struct StatisticsRequest {
    pub id: String,
    /// 1: match statistics; 2: the diagram after a match; 3 and 4: attack
    /// statistics; 5: match statistics; 6: progress in challenges; 7:
    /// character badges and experience; 8: some numbers; 9: news.
    pub statistics_type: UnknownInteger,
    pub int2: UnknownInteger,
    pub int3: UnknownInteger,
    pub int4: UnknownInteger,
    pub int5: UnknownInteger,
}

/// The body of a reply with a player's statistics.
#[derive(Debug, Clone)]
pub struct StatisticsResponse {
    pub int1: UnknownInteger,
    /// The statistics as a JSON text.
    pub json: String,
}

/// What the service answers to a request that it does not accept.
#[derive(Debug, Clone)]
pub struct ApiError {
    pub int1: UnknownInteger,
    pub string1: String,
}

} // verus!
