//! Reading a page of replays, and the course of a query over many pages.

use crate::character::Character;
use crate::error::{Error, ErrorView, ParseError, ParseErrorView};
use crate::floor::Floor;
use crate::legacy::{
    decode_with_fallback, fallback_errors, fallback_matches, HEADER_LEN,
};
use crate::match_set::{
    distinct_events, holds, lemma_insert_twice, lemma_merged_len, lemma_merged_ordered,
    match_views, merged, ordered_insert, strictly_ordered, MatchSet,
};
use crate::matches::{Match, MatchView, Player, PlayerView, Winner};
use crate::messagepack;
use crate::messagepack::{
    unpacked_response, Replay, ReplayRequest, ReplayRequestView, ReplayResponse, ReplayView,
    Request, RequestBody, RequestBodyView, RequestHeader, RequestHeaderView, RequestQuery,
    RequestQueryView,
};
use crate::query::{Query, QueryParameters};
use crate::text::{
    ascii_text, decimal_bytes, decimal_text, escape_bytes, escaped_text, is_utf8, parse_u64,
    parsed_u64, string_from_ascii,
};
use crate::time::Timestamp;
use chrono::format::ParseError as DateFault;
use vstd::prelude::*;
use vstd::string::StringExecFns;
use vstd::utf8::{encode_utf8, valid_utf8};

verus! {

/// The views of a sequence of parse errors.
pub open spec fn error_views(errors: Seq<ParseError>) -> Seq<ParseErrorView> {
    errors.map_values(|e: ParseError| e@)
}

/// The dump of a reply that is shown with a parse error.
pub fn show_buf(buf: &[u8]) -> (text: String)
    ensures
        text@ == ascii_text(escaped_text(buf@)),
{
    string_from_ascii(escape_bytes(buf))
}

/// The player id that the bytes write in decimal digits, or why they
/// write none.
pub open spec fn id_of_bytes(bytes: Seq<u8>) -> Result<u64, ErrorView> {
    if !valid_utf8(bytes) {
        Err(ErrorView::ParsingBytesError("could not parse userid"@))
    } else {
        match parsed_u64(bytes) {
            Some(id) => Ok(id),
            None => Err(ErrorView::ParsingBytesError("could not parse userid from String"@)),
        }
    }
}

/// Reads a player id from its decimal digits.
pub fn id_from_bytes(bytes: &[u8]) -> (r: Result<u64, Error>)
    ensures
        match r {
            Ok(id) => id_of_bytes(bytes@) == Ok::<u64, ErrorView>(id),
            Err(e) => id_of_bytes(bytes@) == Err::<u64, ErrorView>(e@),
        },
{
    if !is_utf8(bytes) {
        return Err(Error::ParsingBytesError("could not parse userid"));
    }
    match parse_u64(bytes) {
        Some(id) => Ok(id),
        None => Err(Error::ParsingBytesError("could not parse userid from String")),
    }
}

/// The player that a record names, playing `character`.
pub open spec fn player_of(character: Character, record: messagepack::PlayerView) -> Result<
    PlayerView,
    ErrorView,
> {
    match id_of_bytes(encode_utf8(record.id)) {
        Ok(id) => Ok(PlayerView { id, character, name: record.name }),
        Err(e) => Err(e),
    }
}

impl Player {
    /// The player that a record names, playing the given character.
    pub fn try_from(pair: (Character, &messagepack::Player)) -> (r: Result<Player, Error>)
        ensures
            match r {
                Ok(player) => player_of(pair.0, pair.1@) == Ok::<PlayerView, ErrorView>(player@),
                Err(e) => player_of(pair.0, pair.1@) == Err::<PlayerView, ErrorView>(e@),
            },
    {
        let (character, record) = pair;
        match id_from_bytes(record.id.as_str().as_bytes()) {
            Ok(id) => Ok(Player { id, character, name: record.name.clone() }),
            Err(e) => Err(e),
        }
    }
}

/// The winner that a byte of a record stands for.
pub open spec fn winner_of(byte: u8) -> Option<Winner> {
    if byte == 1 {
        Some(Winner::Player1)
    } else if byte == 2 {
        Some(Winner::Player2)
    } else {
        None
    }
}

/// The match that a record reports, given the instant that its date was
/// read as; or the first thing that is wrong with the record.  The fields
/// are looked at in their order on the wire: floor, characters, player
/// ids, winner, date.
pub open spec fn match_of_parts(replay: ReplayView, instant: Option<Timestamp>) -> Result<
    MatchView,
    ErrorView,
> {
    match Floor::of_code(replay.floor) {
        None => Err(ErrorView::InvalidArgument(Floor::invalid_code_text(replay.floor))),
        Some(floor) => match Character::of_code(replay.player1_character) {
            None => Err(
                ErrorView::InvalidCharacterCode(
                    Character::invalid_code_text(replay.player1_character),
                ),
            ),
            Some(character_1) => match Character::of_code(replay.player2_character) {
                None => Err(
                    ErrorView::InvalidCharacterCode(
                        Character::invalid_code_text(replay.player2_character),
                    ),
                ),
                Some(character_2) => match player_of(character_1, replay.player1) {
                    Err(e) => Err(e),
                    Ok(player_1) => match player_of(character_2, replay.player2) {
                        Err(e) => Err(e),
                        Ok(player_2) => match winner_of(replay.winner) {
                            None => Err(ErrorView::ParsingBytesError("Could not parse winner"@)),
                            Some(winner) => match instant {
                                None => Err(ErrorView::ChronoParseError),
                                Some(timestamp) => Ok(
                                    MatchView {
                                        timestamp,
                                        floor,
                                        players: (player_1, player_2),
                                        winner,
                                    },
                                ),
                            },
                        },
                    },
                },
            },
        },
    }
}

/// The match that a record reports, or the first thing that is wrong with
/// the record.
pub open spec fn match_of(replay: ReplayView) -> Result<MatchView, ErrorView> {
    match_of_parts(replay, Timestamp::of_date(replay.date))
}

/// Converts a record whose date has been read already: `instant` is what
/// reading the date gave.
pub fn match_from_parts(replay: &Replay, instant: Result<Timestamp, DateFault>) -> (r: Result<
    Match,
    Error,
>)
    ensures
        match r {
            Ok(m) => match_of_parts(
                replay@,
                match instant {
                    Ok(t) => Some(t),
                    Err(_) => None,
                },
            ) == Ok::<MatchView, ErrorView>(m@),
            Err(e) => match_of_parts(
                replay@,
                match instant {
                    Ok(t) => Some(t),
                    Err(_) => None,
                },
            ) == Err::<MatchView, ErrorView>(e@),
        },
{
    let floor = match Floor::from_u8(replay.floor) {
        Ok(floor) => floor,
        Err(e) => {
            return Err(e);
        },
    };
    let character_1 = match Character::from_u8(replay.player1_character) {
        Ok(character) => character,
        Err(e) => {
            return Err(e);
        },
    };
    let character_2 = match Character::from_u8(replay.player2_character) {
        Ok(character) => character,
        Err(e) => {
            return Err(e);
        },
    };
    let player_1 = match Player::try_from((character_1, &replay.player1)) {
        Ok(player) => player,
        Err(e) => {
            return Err(e);
        },
    };
    let player_2 = match Player::try_from((character_2, &replay.player2)) {
        Ok(player) => player,
        Err(e) => {
            return Err(e);
        },
    };
    let winner = match replay.winner {
        1 => Winner::Player1,
        2 => Winner::Player2,
        _ => {
            return Err(Error::ParsingBytesError("Could not parse winner"));
        },
    };
    match instant {
        Ok(timestamp) => Ok(Match::new(timestamp, floor, (player_1, player_2), winner)),
        Err(e) => Err(Error::from(e)),
    }
}

/// Converts a record into the match that it reports.
pub fn match_from_replay(replay: &Replay) -> (r: Result<Match, Error>)
    ensures
        match r {
            Ok(m) => match_of(replay@) == Ok::<MatchView, ErrorView>(m@),
            Err(e) => match_of(replay@) == Err::<MatchView, ErrorView>(e@),
        },
{
    match_from_parts(replay, Timestamp::parse(replay.date.as_str()))
}

/// The text by which a parse error shows the record that it is about:
/// the record's fields as `{:#?}` prints them.
pub uninterp spec fn replay_debug_text(replay: ReplayView) -> Seq<char>;

/// `format!("{:#?}", ..)` on a record: the text that `replay_debug_text`
/// names.
#[verifier::external_body]
fn debug_text(replay: &Replay) -> (text: String)
    ensures
        text@ == replay_debug_text(replay@),
{
    format!("{:#?}", replay)
}

/// The matches that the records report, in the order of the records that
/// could be converted.
pub open spec fn matches_of(replays: Seq<ReplayView>) -> Seq<MatchView>
    decreases replays.len(),
{
    if replays.len() == 0 {
        Seq::empty()
    } else {
        match match_of(replays.last()) {
            Ok(m) => matches_of(replays.drop_last()).push(m),
            Err(_) => matches_of(replays.drop_last()),
        }
    }
}

/// One parse error for every record that could not be converted, in the
/// order of the records: the record's text, and what is wrong with it.
pub open spec fn errors_of(replays: Seq<ReplayView>) -> Seq<ParseErrorView>
    decreases replays.len(),
{
    if replays.len() == 0 {
        Seq::empty()
    } else {
        match match_of(replays.last()) {
            Ok(_) => errors_of(replays.drop_last()),
            Err(e) => errors_of(replays.drop_last()).push(
                ParseErrorView { reply_content: replay_debug_text(replays.last()), inner: e },
            ),
        }
    }
}

/// What happens to a record does not depend on the records around it: the
/// matches and the parse errors of two runs of records are those of the
/// first run followed by those of the second.
pub proof fn lemma_records_are_independent(a: Seq<ReplayView>, b: Seq<ReplayView>)
    ensures
        matches_of(a + b) == matches_of(a) + matches_of(b),
        errors_of(a + b) == errors_of(a) + errors_of(b),
    decreases b.len(),
{
    if b.len() == 0 {
        assert(a + b =~= a);
        assert(matches_of(a) + matches_of(b) =~= matches_of(a));
        assert(errors_of(a) + errors_of(b) =~= errors_of(a));
    } else {
        lemma_records_are_independent(a, b.drop_last());
        assert((a + b).drop_last() =~= a + b.drop_last());
        assert((a + b).last() == b.last());
        assert(matches_of(a + b) =~= matches_of(a) + matches_of(b));
        assert(errors_of(a + b) =~= errors_of(a) + errors_of(b));
    }
}

/// Every record gives either a match or a parse error.
pub proof fn lemma_every_record_counts(replays: Seq<ReplayView>)
    ensures
        matches_of(replays).len() + errors_of(replays).len() == replays.len(),
    decreases replays.len(),
{
    if replays.len() > 0 {
        lemma_every_record_counts(replays.drop_last());
    }
}

/// A page whose records can all be converted gives a match for every
/// record, in the order of the records, and no parse error.
pub proof fn lemma_well_formed_page(replays: Seq<ReplayView>)
    requires
        forall|i: int| 0 <= i < replays.len() ==> match_of(#[trigger] replays[i]) is Ok,
    ensures
        errors_of(replays) == Seq::<ParseErrorView>::empty(),
        matches_of(replays).len() == replays.len(),
        forall|i: int|
            0 <= i < replays.len() ==> match_of(#[trigger] replays[i]) == Ok::<
                MatchView,
                ErrorView,
            >(matches_of(replays)[i]),
    decreases replays.len(),
{
    if replays.len() > 0 {
        let rest = replays.drop_last();
        assert forall|i: int| 0 <= i < rest.len() implies match_of(#[trigger] rest[i]) is Ok by {
            assert(rest[i] == replays[i]);
        }
        lemma_well_formed_page(rest);
        assert(match_of(replays.last()) is Ok);
        assert forall|i: int| 0 <= i < replays.len() implies match_of(#[trigger] replays[i]) == Ok::<
            MatchView,
            ErrorView,
        >(matches_of(replays)[i]) by {
            if i < rest.len() {
                assert(rest[i] == replays[i]);
            }
        }
    }
}

/// A page with one record that cannot be converted gives one parse error,
/// which shows that record and says what is wrong with it, and a match for
/// every other record.
pub proof fn lemma_one_bad_record(replays: Seq<ReplayView>, bad: int)
    requires
        0 <= bad < replays.len(),
        match_of(replays[bad]) is Err,
        forall|i: int| 0 <= i < replays.len() && i != bad ==> match_of(#[trigger] replays[i]) is Ok,
    ensures
        errors_of(replays) == seq![
            ParseErrorView {
                reply_content: replay_debug_text(replays[bad]),
                inner: match_of(replays[bad])->Err_0,
            },
        ],
        matches_of(replays) == matches_of(replays.take(bad)) + matches_of(replays.skip(bad + 1)),
        matches_of(replays).len() == replays.len() - 1,
{
    let before = replays.take(bad);
    let one = seq![replays[bad]];
    let after = replays.skip(bad + 1);
    assert(replays =~= before + one + after);
    lemma_records_are_independent(before + one, after);
    lemma_records_are_independent(before, one);
    lemma_well_formed_page(before);
    lemma_well_formed_page(after);
    assert(one.last() == replays[bad]);
    assert(matches_of(one.drop_last()) =~= Seq::<MatchView>::empty());
    assert(errors_of(one.drop_last()) =~= Seq::<ParseErrorView>::empty());
    assert(matches_of(one) =~= Seq::<MatchView>::empty());
    assert(errors_of(one) =~= seq![
        ParseErrorView {
            reply_content: replay_debug_text(replays[bad]),
            inner: match_of(replays[bad])->Err_0,
        },
    ]);
    assert(errors_of(replays) =~= errors_of(one));
    assert(matches_of(replays) =~= matches_of(before) + matches_of(after));
}

/// A page whose records can all be converted, and report events that
/// differ from each other and from all that a set holds, adds a match to
/// the set for every record.
pub proof fn lemma_well_formed_page_accumulates(set: Seq<MatchView>, replays: Seq<ReplayView>)
    requires
        strictly_ordered(set),
        forall|i: int| 0 <= i < replays.len() ==> match_of(#[trigger] replays[i]) is Ok,
        distinct_events(matches_of(replays)),
        forall|i: int|
            0 <= i < matches_of(replays).len() ==> !holds(set, #[trigger] matches_of(replays)[i]),
    ensures
        errors_of(replays) == Seq::<ParseErrorView>::empty(),
        merged(set, matches_of(replays)).len() == set.len() + replays.len(),
{
    lemma_well_formed_page(replays);
    lemma_merged_len(set, matches_of(replays));
}

/// Converts the records one by one.  A record that cannot be converted
/// gives a parse error and does not keep the others from being converted.
pub fn convert_replays(replays: &Vec<Replay>) -> (r: (Vec<Match>, Vec<ParseError>))
    ensures
        match_views(r.0@) == matches_of(messagepack::replay_views(replays@)),
        error_views(r.1@) == errors_of(messagepack::replay_views(replays@)),
{
    let ghost all = messagepack::replay_views(replays@);
    let mut matches: Vec<Match> = Vec::new();
    let mut errors: Vec<ParseError> = Vec::new();
    let mut i: usize = 0;
    assert(all.take(0) =~= Seq::<ReplayView>::empty());
    assert(match_views(matches@) =~= Seq::<MatchView>::empty());
    assert(error_views(errors@) =~= Seq::<ParseErrorView>::empty());
    while i < replays.len()
        invariant
            i <= replays.len(),
            all == messagepack::replay_views(replays@),
            match_views(matches@) == matches_of(all.take(i as int)),
            error_views(errors@) == errors_of(all.take(i as int)),
        decreases replays.len() - i,
    {
        let replay = &replays[i];
        assert(all.take(i + 1).drop_last() =~= all.take(i as int));
        assert(all.take(i + 1).last() == replay@);
        match match_from_replay(replay) {
            Ok(m) => {
                let ghost before = matches@;
                matches.push(m);
                assert(match_views(matches@) =~= match_views(before).push(m@));
            },
            Err(e) => {
                let ghost before = errors@;
                let error = ParseError::new(debug_text(replay), e);
                errors.push(error);
                assert(error_views(errors@) =~= error_views(before).push(error@));
            },
        }
        i = i + 1;
    }
    assert(all.take(i as int) =~= all);
    (matches, errors)
}

/// Adds what a page reports to what has been gathered: its matches to the
/// set, its parse errors to the list.
pub fn parse_response(
    matches: &mut MatchSet,
    errors: &mut Vec<ParseError>,
    response: ReplayResponse,
)
    ensures
        final(matches)@ == merged(old(matches)@, matches_of(response@.body.replays)),
        strictly_ordered(final(matches)@),
        error_views(final(errors)@) == error_views(old(errors)@) + errors_of(
            response@.body.replays,
        ),
{
    let (found, mut failed) = convert_replays(&response.body.replays);
    matches.extend(found);
    errors.append(&mut failed);
    assert(error_views(final(errors)@) =~= error_views(old(errors)@) + errors_of(
        response@.body.replays,
    ));
}

/// The matches that a reply reports.  A reply that is no page of replays
/// reports none.
pub open spec fn decoded_matches(bytes: Seq<u8>) -> Seq<MatchView> {
    match unpacked_response(bytes) {
        Some(reply) => matches_of(reply.body.replays),
        None => Seq::empty(),
    }
}

/// The parse errors that a reply gives: one for every record that cannot
/// be converted; or, for a reply that is no page of replays, one that
/// shows the whole reply.
pub open spec fn decoded_errors(bytes: Seq<u8>) -> Seq<ParseErrorView> {
    match unpacked_response(bytes) {
        Some(reply) => errors_of(reply.body.replays),
        None => seq![
            ParseErrorView {
                reply_content: ascii_text(escaped_text(bytes)),
                inner: ErrorView::DecodeError,
            },
        ],
    }
}

/// Reads a reply: the matches of its records, and a parse error for every
/// record that cannot be converted.  A reply that is no page of replays
/// gives no match and one parse error.
pub fn decode(bytes: &[u8]) -> (r: (Vec<Match>, Vec<ParseError>))
    ensures
        match_views(r.0@) == decoded_matches(bytes@),
        error_views(r.1@) == decoded_errors(bytes@),
{
    match ReplayResponse::from_bytes(bytes) {
        Ok(response) => convert_replays(&response.body.replays),
        Err(e) => {
            let matches: Vec<Match> = Vec::new();
            let mut errors: Vec<ParseError> = Vec::new();
            let error = ParseError::new(show_buf(bytes), Error::from(e));
            errors.push(error);
            assert(match_views(matches@) =~= decoded_matches(bytes@));
            assert(error_views(errors@) =~= decoded_errors(bytes@));
            (matches, errors)
        },
    }
}

/// Where the service is reached unless a [`Context`] says otherwise.
pub const DEFAULT_BASE_URL: &'static str = "https://ggst-game.guiltygear.com";

/// The path below the base url to which requests for replays are posted.
pub const REPLAY_PATH: &'static str = "/api/catalog/get_replay";

/// Where the service is reached.
#[derive(Debug, Clone)]
pub struct Context {
    base_url: String,
}

impl View for Context {
    type V = Seq<char>;

    /// The base url.
    closed spec fn view(&self) -> Seq<char> {
        self.base_url@
    }
}

impl Default for Context {
    fn default() -> (context: Context)
        ensures
            context@ == DEFAULT_BASE_URL@,
    {
        Context { base_url: DEFAULT_BASE_URL.to_owned() }
    }
}

impl Context {
    /// Overwrite the url used for requests.  The default is
    /// <https://ggst-game.guiltygear.com>; a proxy nearby may answer faster.
    pub fn new(base_url: String) -> (context: Context)
        ensures
            context@ == base_url@,
    {
        Context { base_url }
    }

    /// The url that requests for replays are posted to.
    pub fn replay_url(&self) -> (url: String)
        ensures
            url@ == self@ + REPLAY_PATH@,
    {
        self.base_url.clone().concat(REPLAY_PATH)
    }
}

/// The most pages that one query may ask for.
pub const MAX_PAGES: usize = 100;

/// The most replays that one page may hold.
pub const MAX_REPLAYS_PER_PAGE: usize = 127;

/// A reply shorter than this holds no page: the service has no more
/// replays.
pub const MIN_REPLY_LEN: usize = HEADER_LEN;

/// What is wrong with the arguments of a query, if anything is.
pub open spec fn argument_fault(pages: usize, replays_per_page: usize, query: Query) -> Option<
    Seq<char>,
> {
    if pages > MAX_PAGES {
        Some(
            "cannot query more than 100 pages, queried "@ + ascii_text(decimal_text(pages as nat)),
        )
    } else if replays_per_page > MAX_REPLAYS_PER_PAGE {
        Some(
            "cannot query more than 127 replays per page, queried "@ + ascii_text(
                decimal_text(replays_per_page as nat),
            ),
        )
    } else if query.max_floor.below(query.min_floor) {
        Some(
            "min_floor "@ + query.min_floor.tier_name() + " is larger than max_floor "@
                + query.max_floor.tier_name(),
        )
    } else {
        None
    }
}

/// The request for one page of the replays that `query` describes.
pub open spec fn request_for(
    header: RequestHeaderView,
    page_index: usize,
    replays_per_page: usize,
    query: Query,
) -> ReplayRequestView {
    ReplayRequestView {
        header,
        body: RequestBodyView {
            int1: 1,
            index: page_index,
            replays_per_page,
            query: RequestQueryView::of_query(query),
        },
    }
}

/// The request for one page of the replays that `query` describes.
pub fn request_page(
    header: RequestHeader,
    page_index: usize,
    replays_per_page: usize,
    query: &Query,
) -> (request: ReplayRequest)
    ensures
        request@ == request_for(header@, page_index, replays_per_page, *query),
{
    Request {
        header,
        body: RequestBody {
            int1: 1,
            index: page_index,
            replays_per_page,
            query: RequestQuery::of(query),
        },
    }
}

/// The request for one page in upper-case hexadecimal digits, as it is
/// sent: the MessagePack bytes of the header by which this library makes
/// itself known, and of the page, the size of a page and the filters.  It
/// fails exactly for a request that cannot be written.
pub fn encode<A, B, C, D, E>(
    page_index: usize,
    replays_per_page: usize,
    request_parameters: &QueryParameters<A, B, C, D, E>,
) -> (r: Result<String, Error>)
    ensures
        r is Ok <==> request_for(
            RequestHeaderView::library(),
            page_index,
            replays_per_page,
            request_parameters@,
        ).bytes() is Some,
        match r {
            Ok(text) => request_for(
                RequestHeaderView::library(),
                page_index,
                replays_per_page,
                request_parameters@,
            ).hex() == Some(text@),
            Err(e) => e@ == ErrorView::EncodeError,
        },
{
    request_page(
        RequestHeader::library(),
        page_index,
        replays_per_page,
        &request_parameters.filters(),
    ).to_hex()
}

/// What a query in progress has to do next.
#[derive(Debug)]
pub enum Step {
    /// Post `data` as the form field `data` to `url` and hand the reply to
    /// [`ReplayQuery::receive`].
    Send { page: usize, url: String, data: String },
    /// Nothing is left to ask for: take the results with
    /// [`ReplayQuery::finish`].
    Done,
}

/// A query for replays in progress: which page comes next, and what the
/// pages so far have given.
#[derive(Debug)]
pub struct ReplayQuery {
    url: String,
    header: RequestHeader,
    pages: usize,
    replays_per_page: usize,
    query: Query,
    fallback: bool,
    next_page: usize,
    ended: bool,
    matches: MatchSet,
    errors: Vec<ParseError>,
    legacy_pages: Vec<usize>,
}

/// What a [`ReplayQuery`] holds.
pub struct ReplayQueryView {
    pub url: Seq<char>,
    /// By whom the requests say they are made.
    pub header: RequestHeaderView,
    pub pages: usize,
    pub replays_per_page: usize,
    pub query: Query,
    /// A reply that cannot be read as MessagePack is read by its layout.
    pub fallback: bool,
    /// The page to ask for next, counted from zero.
    pub next_page: usize,
    /// A reply was too short to hold a page.
    pub ended: bool,
    pub matches: Seq<MatchView>,
    pub errors: Seq<ParseErrorView>,
    /// The pages that were read by their layout.
    pub legacy_pages: Seq<usize>,
}

impl ReplayQueryView {
    /// The query before its first page.
    pub open spec fn start(
        url: Seq<char>,
        pages: usize,
        replays_per_page: usize,
        query: Query,
    ) -> ReplayQueryView {
        ReplayQueryView {
            url,
            header: RequestHeaderView::library(),
            pages,
            replays_per_page,
            query,
            fallback: false,
            next_page: 0,
            ended: false,
            matches: Seq::empty(),
            errors: Seq::empty(),
            legacy_pages: Seq::empty(),
        }
    }

    /// The reply is read by its layout.
    pub open spec fn reads_by_layout(self, reply: Seq<u8>) -> bool {
        self.fallback && unpacked_response(reply) is None
    }

    /// The matches that a reply gives to this query.
    pub open spec fn page_matches(self, reply: Seq<u8>) -> Seq<MatchView> {
        if self.fallback {
            fallback_matches(reply)
        } else {
            decoded_matches(reply)
        }
    }

    /// The parse errors that a reply gives to this query.
    pub open spec fn page_errors(self, reply: Seq<u8>) -> Seq<ParseErrorView> {
        if self.fallback {
            fallback_errors(reply)
        } else {
            decoded_errors(reply)
        }
    }

    /// No page is left to ask for.
    pub open spec fn done(self) -> bool {
        self.ended || self.next_page >= self.pages
    }

    /// The request for the next page.
    pub open spec fn request(self) -> ReplayRequestView {
        request_for(self.header, self.next_page, self.replays_per_page, self.query)
    }

    /// The query after the reply to its request has come.  A reply that is
    /// too short to hold a page ends the query and changes nothing else.
    /// Any other reply gives its matches to the set and its parse errors
    /// to the list, and the next page is due.
    pub open spec fn received(self, reply: Seq<u8>) -> ReplayQueryView {
        if self.done() {
            self
        } else if reply.len() < MIN_REPLY_LEN {
            ReplayQueryView { ended: true, ..self }
        } else {
            ReplayQueryView {
                next_page: (self.next_page + 1) as usize,
                matches: merged(self.matches, self.page_matches(reply)),
                errors: self.errors + self.page_errors(reply),
                legacy_pages: if self.reads_by_layout(reply) {
                    self.legacy_pages.push(self.next_page)
                } else {
                    self.legacy_pages
                },
                ..self
            }
        }
    }

    /// The query after the replies have come one after the other.
    pub open spec fn after(self, replies: Seq<Seq<u8>>) -> ReplayQueryView
        decreases replies.len(),
    {
        if replies.len() == 0 {
            self
        } else {
            self.after(replies.drop_last()).received(replies.last())
        }
    }
}

/// A query asks for no more pages than it was begun with, takes its pages
/// in turn, keeps its matches in order, and is done when it has had a
/// reply for every page.
pub proof fn lemma_query_keeps_its_bounds(query: ReplayQueryView, replies: Seq<Seq<u8>>)
    requires
        query.next_page <= query.pages,
        strictly_ordered(query.matches),
    ensures
        query.after(replies).next_page <= query.pages,
        query.next_page <= query.after(replies).next_page <= query.next_page + replies.len(),
        query.after(replies).pages == query.pages,
        query.after(replies).replays_per_page == query.replays_per_page,
        query.after(replies).query == query.query,
        strictly_ordered(query.after(replies).matches),
        query.done() ==> query.after(replies) == query,
        !query.after(replies).done() ==> query.after(replies).next_page == query.next_page
            + replies.len(),
        replies.len() >= query.pages - query.next_page ==> query.after(replies).done(),
    decreases replies.len(),
{
    if replies.len() > 0 {
        lemma_query_keeps_its_bounds(query, replies.drop_last());
        let before = query.after(replies.drop_last());
        lemma_merged_ordered(before.matches, before.page_matches(replies.last()));
    }
}

impl View for ReplayQuery {
    type V = ReplayQueryView;

    closed spec fn view(&self) -> ReplayQueryView {
        ReplayQueryView {
            url: self.url@,
            header: self.header@,
            pages: self.pages,
            replays_per_page: self.replays_per_page,
            query: self.query,
            fallback: self.fallback,
            next_page: self.next_page,
            ended: self.ended,
            matches: self.matches@,
            errors: error_views(self.errors@),
            legacy_pages: self.legacy_pages@,
        }
    }
}

/// Begins a query for the latest replays.  A page holds about ten replays
/// by default, but this is not guaranteed.  No more than 100 pages can be
/// queried at a time, and no more than 127 replays per page.
///
/// Nothing is sent here: the query that comes back says with
/// [`ReplayQuery::next`] what to send.  Arguments out of range are refused
/// before anything could be sent.
pub fn get_replays<A, B, C, D, E>(
    context: &Context,
    pages: usize,
    replays_per_page: usize,
    request_parameters: QueryParameters<A, B, C, D, E>,
) -> (r: Result<ReplayQuery, Error>)
    ensures
        match r {
            Ok(query) => argument_fault(pages, replays_per_page, request_parameters@) is None
                && query@ == ReplayQueryView::start(
                context@ + REPLAY_PATH@,
                pages,
                replays_per_page,
                request_parameters@,
            ),
            Err(e) => argument_fault(pages, replays_per_page, request_parameters@) == Some(
                e@->InvalidArgument_0,
            ) && e@ is InvalidArgument,
        },
{
    if pages > MAX_PAGES {
        let text = String::from_str("cannot query more than 100 pages, queried ").concat(
            string_from_ascii(decimal_bytes(pages as u64)).as_str(),
        );
        return Err(Error::InvalidArgument(text));
    }
    if replays_per_page > MAX_REPLAYS_PER_PAGE {
        let text = String::from_str("cannot query more than 127 replays per page, queried ").concat(
            string_from_ascii(decimal_bytes(replays_per_page as u64)).as_str(),
        );
        return Err(Error::InvalidArgument(text));
    }
    let query = request_parameters.filters();
    if query.min_floor > query.max_floor {
        let text = String::from_str("min_floor ").concat(query.min_floor.name()).concat(
            " is larger than max_floor ",
        ).concat(query.max_floor.name());
        return Err(Error::InvalidArgument(text));
    }
    let started = ReplayQuery {
        url: context.replay_url(),
        header: RequestHeader::library(),
        pages,
        replays_per_page,
        query,
        fallback: false,
        next_page: 0,
        ended: false,
        matches: MatchSet::new(),
        errors: Vec::new(),
        legacy_pages: Vec::new(),
    };
    assert(started@.errors =~= Seq::<ParseErrorView>::empty());
    Ok(started)
}

impl ReplayQuery {
    /// The same query, but a reply that cannot be read as MessagePack is
    /// read by its layout, as older replies have to be.
    pub fn with_fallback(self) -> (query: ReplayQuery)
        ensures
            query@ == (ReplayQueryView { fallback: true, ..self@ }),
    {
        ReplayQuery {
            url: self.url,
            header: self.header,
            pages: self.pages,
            replays_per_page: self.replays_per_page,
            query: self.query,
            fallback: true,
            next_page: self.next_page,
            ended: self.ended,
            matches: self.matches,
            errors: self.errors,
            legacy_pages: self.legacy_pages,
        }
    }

    /// The same query, but its requests say that they are made by the
    /// player and the version of the protocol that `header` names.
    pub fn with_header(self, header: RequestHeader) -> (query: ReplayQuery)
        ensures
            query@ == (ReplayQueryView { header: header@, ..self@ }),
    {
        ReplayQuery {
            url: self.url,
            header,
            pages: self.pages,
            replays_per_page: self.replays_per_page,
            query: self.query,
            fallback: self.fallback,
            next_page: self.next_page,
            ended: self.ended,
            matches: self.matches,
            errors: self.errors,
            legacy_pages: self.legacy_pages,
        }
    }

    /// Whether no page is left to ask for.
    pub fn is_done(&self) -> (done: bool)
        ensures
            done == self@.done(),
    {
        self.ended || self.next_page >= self.pages
    }

    /// The request for the next page.
    pub fn request(&self) -> (request: ReplayRequest)
        ensures
            request@ == self@.request(),
    {
        request_page(
            RequestHeader {
                player_id: self.header.player_id.clone(),
                string2: self.header.string2.clone(),
                int1: self.header.int1,
                version: self.header.version.clone(),
                int2: self.header.int2,
            },
            self.next_page,
            self.replays_per_page,
            &self.query,
        )
    }

    /// What to do next: send the request for the next page, or stop.  It
    /// fails exactly when a page is due whose request cannot be written.
    pub fn next(&self) -> (r: Result<Step, Error>)
        ensures
            r is Ok <==> self@.done() || self@.request().bytes() is Some,
            match r {
                Ok(Step::Done) => self@.done(),
                Ok(Step::Send { page, url, data }) => {
                    &&& !self@.done()
                    &&& page == self@.next_page
                    &&& url@ == self@.url
                    &&& self@.request().hex() == Some(data@)
                },
                Err(e) => {
                    &&& !self@.done()
                    &&& self@.request().bytes() is None
                    &&& e@ == ErrorView::EncodeError
                },
            },
    {
        if self.is_done() {
            return Ok(Step::Done);
        }
        match self.request().to_hex() {
            Ok(data) => Ok(Step::Send { page: self.next_page, url: self.url.clone(), data }),
            Err(e) => Err(e),
        }
    }

    /// Takes the reply to the request for the next page.
    pub fn receive(&mut self, reply: &[u8])
        ensures
            final(self)@ == old(self)@.received(reply@),
    {
        if self.is_done() {
            return ;
        }
        if reply.len() < MIN_REPLY_LEN {
            self.ended = true;
            return ;
        }
        let (found, mut failed) = if self.fallback {
            let outcome = decode_with_fallback(reply);
            if outcome.is_legacy() {
                self.legacy_pages.push(self.next_page);
            }
            outcome.into_parts()
        } else {
            decode(reply)
        };
        self.matches.extend(found);
        self.errors.append(&mut failed);
        self.next_page = self.next_page + 1;
        assert(final(self)@.errors =~= old(self)@.errors + old(self)@.page_errors(reply@));
    }

    /// The pages that were read by their layout, counted from zero.
    pub fn legacy_pages(&self) -> (pages: &Vec<usize>)
        ensures
            pages@ == self@.legacy_pages,
    {
        &self.legacy_pages
    }

    /// The report of a transport that could not deliver a page, as the
    /// error with which the query fails.  The query is given up: what it
    /// had gathered is dropped and no further page can be asked for.
    pub fn transport_failed(self, report: String) -> (e: Error)
        ensures
            e@ == ErrorView::ReqwestError(report@),
    {
        Error::ReqwestError(report)
    }

    /// The matches gathered, in their order and each event once, and the
    /// parse errors in the order in which they were met.
    pub fn finish(self) -> (r: (Vec<Match>, Vec<ParseError>))
        ensures
            match_views(r.0@) == self@.matches,
            strictly_ordered(self@.matches),
            error_views(r.1@) == self@.errors,
    {
        (self.matches.into_vec(), self.errors)
    }
}

/// The two records report the same match: they agree in floor, characters,
/// player ids, winner and date.  The names of the players may differ.
pub open spec fn same_report(a: ReplayView, b: ReplayView) -> bool {
    &&& a.floor == b.floor
    &&& a.player1_character == b.player1_character
    &&& a.player2_character == b.player2_character
    &&& a.player1.id == b.player1.id
    &&& a.player2.id == b.player2.id
    &&& a.winner == b.winner
    &&& a.date == b.date
}

/// Two records that report the same match give the same event, whatever
/// names they give the players, and a set that takes both holds one.
pub proof fn lemma_renamed_players_collapse(set: Seq<MatchView>, a: ReplayView, b: ReplayView)
    requires
        strictly_ordered(set),
        same_report(a, b),
        match_of(a) is Ok,
    ensures
        match_of(b) is Ok,
        match_of(a)->Ok_0.same_event(match_of(b)->Ok_0),
        merged(set, seq![match_of(a)->Ok_0, match_of(b)->Ok_0]) == ordered_insert(
            set,
            match_of(a)->Ok_0,
        ),
{
    let first = match_of(a)->Ok_0;
    let second = match_of(b)->Ok_0;
    let both = seq![first, second];
    let one = both.drop_last();
    assert(one.len() == 1 && one.last() == first);
    assert(merged(set, one.drop_last()) == set);
    assert(merged(set, one) == ordered_insert(set, first));
    lemma_insert_twice(set, first, second);
}

/// A reply too short to hold a page ends the query and leaves what was
/// gathered as it is.
pub proof fn lemma_short_reply_ends_query(query: ReplayQueryView, reply: Seq<u8>)
    requires
        reply.len() < MIN_REPLY_LEN,
    ensures
        query.received(reply).done(),
        query.received(reply).matches == query.matches,
        query.received(reply).errors == query.errors,
        query.received(reply).next_page == query.next_page,
        query.received(reply).legacy_pages == query.legacy_pages,
{
}

/// A query whose arguments are out of range is refused: more than 100
/// pages, more than 127 replays per page, or a lowest floor above the
/// highest.
pub proof fn lemma_arguments_in_range(pages: usize, replays_per_page: usize, query: Query)
    ensures
        argument_fault(pages, replays_per_page, query) is None <==> pages <= 100
            && replays_per_page <= 127 && !query.max_floor.below(query.min_floor),
{
}

/// Reading the same reply twice gives the same matches and the same parse
/// errors: whatever two calls of [`decode`] on the same bytes hand out,
/// their views are equal.
pub proof fn lemma_decode_is_a_function(
    bytes: &[u8],
    first: (Vec<Match>, Vec<ParseError>),
    second: (Vec<Match>, Vec<ParseError>),
)
    requires
        call_ensures(decode, (bytes,), first),
        call_ensures(decode, (bytes,), second),
    ensures
        match_views(first.0@) == match_views(second.0@),
        error_views(first.1@) == error_views(second.1@),
{
}

} // verus!
