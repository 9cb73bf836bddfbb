//! Reading a reply by the place of its bytes.
//!
//! Older replies cannot always be read as MessagePack.  Their records can
//! still be found by the bytes that end every record and the bytes that
//! begin every player, and their fields by where they lie between those.
//! This guesses from the layout and is meant for replies that cannot be
//! read otherwise.

use crate::error::{Error, ErrorView, ParseError, ParseErrorView};
use crate::character::Character;
use crate::match_set::match_views;
use crate::matches::{Match, MatchView};
use crate::messagepack::{
    unpacked_response, Player, PlayerView, Replay, ReplayResponse, ReplayView,
};
use crate::requests::{
    convert_replays, player_of, decoded_errors, decoded_matches, error_views, errors_of, match_from_replay,
    match_of, matches_of, show_buf,
};
use rmp_serde::decode::Error as UnpackFault;
use crate::text::{ascii_text, escaped_text, parsed_u64, read_text, same_bytes, text_of};
use vstd::utf8::{decode_utf8_encode_utf8, valid_utf8};
use vstd::prelude::*;
use vstd::slice::slice_subrange;

verus! {

/// The length of the fixed part with which every reply begins.  A reply
/// shorter than this holds no page.
pub const HEADER_LEN: usize = 61;

/// The length of a player's id.
pub const ID_LEN: usize = 18;

/// The bytes after the second player's name: the winner, the mark of the
/// date, and the nineteen bytes of the date.
pub const TAIL_LEN: usize = 21;

/// The bytes that end every record.
pub open spec fn record_end() -> Seq<u8> {
    seq![0x01u8, 0x00u8, 0x00u8, 0x00u8]
}

/// The bytes that begin every player.
pub open spec fn player_start() -> Seq<u8> {
    seq![0x95u8, 0xb2u8]
}

/// `pattern` lies in `s` at index `at`.
pub open spec fn occurs_at(s: Seq<u8>, pattern: Seq<u8>, at: int) -> bool {
    0 <= at && at + pattern.len() <= s.len() && s.subrange(at, at + pattern.len()) == pattern
}

/// The first index from `from` on at which `pattern` lies in `s`, or the
/// length of `s` if there is none.
pub open spec fn find(s: Seq<u8>, pattern: Seq<u8>, from: int) -> int
    decreases s.len() - from,
{
    if from < 0 || pattern.len() == 0 || from + pattern.len() > s.len() {
        s.len() as int
    } else if occurs_at(s, pattern, from) {
        from
    } else {
        find(s, pattern, from + 1)
    }
}

/// `find` gives the first occurrence from `from` on, if there is one.
pub proof fn lemma_find(s: Seq<u8>, pattern: Seq<u8>, from: int)
    requires
        0 <= from,
    ensures
        find(s, pattern, from) <= s.len(),
        find(s, pattern, from) < s.len() ==> from <= find(s, pattern, from) && occurs_at(
            s,
            pattern,
            find(s, pattern, from),
        ),
        pattern.len() > 0 ==> forall|k: int|
            from <= k < find(s, pattern, from) ==> !occurs_at(s, pattern, k),
    decreases s.len() - from,
{
    if pattern.len() > 0 && from + pattern.len() <= s.len() && !occurs_at(s, pattern, from) {
        lemma_find(s, pattern, from + 1);
    }
}

/// Whether `pattern` lies in `s` at index `at`.
fn is_at(s: &[u8], pattern: &[u8], at: usize) -> (r: bool)
    requires
        at + pattern.len() <= s.len(),
    ensures
        r == occurs_at(s@, pattern@, at as int),
{
    same_bytes(slice_subrange(s, at, at + pattern.len()), pattern)
}

/// The first index from `from` on at which `pattern` lies in `s`, or the
/// length of `s` if there is none.
pub fn find_from(s: &[u8], pattern: &[u8], from: usize) -> (at: usize)
    ensures
        at == find(s@, pattern@, from as int),
        at <= s.len(),
{
    if pattern.len() == 0 {
        return s.len();
    }
    let mut i: usize = from;
    while i <= s.len() && pattern.len() <= s.len() - i
        invariant
            from <= i,
            pattern.len() > 0,
            find(s@, pattern@, from as int) == find(s@, pattern@, i as int),
        decreases s.len() + 1 - i,
    {
        if is_at(s, pattern, i) {
            return i;
        }
        i = i + 1;
    }
    s.len()
}

/// The three parts of a record: what comes before the first player, the
/// first player, and the second player with what follows.
pub struct Sections {
    pub head: Seq<u8>,
    pub first: Seq<u8>,
    pub second: Seq<u8>,
}

/// The parts into which the first two player marks cut a record, if it
/// has two.
pub open spec fn sections_of(chunk: Seq<u8>) -> Option<Sections> {
    let i = find(chunk, player_start(), 0);
    let j = find(chunk, player_start(), i + 2);
    if i < chunk.len() && j < chunk.len() {
        Some(
            Sections {
                head: chunk.subrange(0, i),
                first: chunk.subrange(i + 2, j),
                second: chunk.subrange(j + 2, chunk.len() as int),
            },
        )
    } else {
        None
    }
}

/// Cuts a record at its first two player marks.
fn split_sections(chunk: &[u8]) -> (r: Option<(&[u8], &[u8], &[u8])>)
    ensures
        match r {
            Some(parts) => sections_of(chunk@) == Some(
                Sections { head: parts.0@, first: parts.1@, second: parts.2@ },
            ),
            None => sections_of(chunk@) is None,
        },
{
    let mark: [u8; 2] = [0x95, 0xb2];
    assert(mark@ =~= player_start());
    let i = find_from(chunk, mark.as_slice(), 0);
    if i >= chunk.len() {
        return None;
    }
    proof {
        lemma_find(chunk@, player_start(), 0);
    }
    let j = find_from(chunk, mark.as_slice(), i + 2);
    if j >= chunk.len() {
        return None;
    }
    proof {
        lemma_find(chunk@, player_start(), i + 2);
    }
    Some(
        (
            slice_subrange(chunk, 0, i),
            slice_subrange(chunk, i + 2, j),
            slice_subrange(chunk, j + 2, chunk.len()),
        ),
    )
}

/// The bytes of the name in a player's part: the byte after the id says
/// how long the name is, and the name follows it.  `tail` bytes at the end
/// of the part belong to other fields.
pub open spec fn name_of(part: Seq<u8>, tail: int) -> Option<Seq<u8>> {
    if part.len() >= ID_LEN + 1 + tail && 0xa0 <= part[ID_LEN as int] <= 0xbf && ID_LEN + 1 + (
    part[ID_LEN as int] - 0xa0) <= part.len() - tail {
        Some(part.subrange(ID_LEN + 1, ID_LEN + 1 + (part[ID_LEN as int] - 0xa0)))
    } else {
        None
    }
}

/// The bytes of the name in a player's part.
fn player_name(part: &[u8], tail: usize) -> (r: Option<&[u8]>)
    requires
        tail <= TAIL_LEN,
    ensures
        match r {
            Some(name) => name_of(part@, tail as int) == Some(name@),
            None => name_of(part@, tail as int) is None,
        },
{
    if part.len() < ID_LEN + 1 + tail {
        return None;
    }
    let mark = part[ID_LEN];
    if mark < 0xa0 || mark > 0xbf {
        return None;
    }
    let len: usize = (mark - 0xa0) as usize;
    if ID_LEN + 1 + len > part.len() - tail {
        return None;
    }
    Some(slice_subrange(part, ID_LEN + 1, ID_LEN + 1 + len))
}

/// The player with the given id and name; the fields that the layout does
/// not reach are empty.
pub open spec fn player_record(id: Seq<u8>, name: Seq<u8>) -> PlayerView {
    PlayerView {
        id: text_of(id),
        name: text_of(name),
        string1: Seq::empty(),
        string2: Seq::empty(),
        int1: 0,
    }
}

/// A player whose id is written in UTF-8 is the player with the number
/// that the id writes in decimal digits, if it writes one.
pub proof fn lemma_player_of_record(character: Character, id: Seq<u8>, name: Seq<u8>)
    requires
        valid_utf8(id),
    ensures
        player_of(character, player_record(id, name)) == match parsed_u64(id) {
            Some(number) => Ok::<crate::matches::PlayerView, ErrorView>(
                crate::matches::PlayerView { id: number, character, name: text_of(name) },
            ),
            None => Err::<crate::matches::PlayerView, ErrorView>(
                ErrorView::ParsingBytesError("could not parse userid from String"@),
            ),
        },
{
    decode_utf8_encode_utf8(id);
}

/// The record that the bytes between two record ends hold, or what is
/// wrong with their layout.  The floor and the two characters are the
/// last three bytes before the first player; a player begins with an id
/// of eighteen bytes and a name; the winner and the date are the last
/// twenty-one bytes.
pub open spec fn legacy_record(chunk: Seq<u8>) -> Result<ReplayView, ErrorView> {
    match sections_of(chunk) {
        None => Err(ErrorView::UnexpectedResponse("record does not hold two players"@)),
        Some(parts) => if parts.head.len() < 3 {
            Err(ErrorView::UnexpectedResponse("record is too short for floor and characters"@))
        } else if parts.first.len() < 20 {
            Err(ErrorView::UnexpectedResponse("first player is too short"@))
        } else if parts.second.len() < 71 {
            Err(ErrorView::UnexpectedResponse("second player is too short"@))
        } else {
            match (name_of(parts.first, 0), name_of(parts.second, TAIL_LEN as int)) {
                (Some(name_1), Some(name_2)) => Ok(
                    ReplayView {
                        int1: 0,
                        int2: 0,
                        floor: parts.head[parts.head.len() - 3],
                        player1_character: parts.head[parts.head.len() - 2],
                        player2_character: parts.head[parts.head.len() - 1],
                        player1: player_record(parts.first.subrange(0, ID_LEN as int), name_1),
                        player2: player_record(parts.second.subrange(0, ID_LEN as int), name_2),
                        winner: parts.second[parts.second.len() - TAIL_LEN],
                        date: text_of(
                            parts.second.subrange(
                                parts.second.len() - 19,
                                parts.second.len() as int,
                            ),
                        ),
                        int7: 0,
                        views: 0,
                        int8: 0,
                        likes: 0,
                    },
                ),
                _ => Err(ErrorView::UnexpectedResponse("player has no name"@)),
            }
        },
    }
}

/// The player with the given id and name.
fn player_from(id: &[u8], name: &[u8]) -> (player: Player)
    ensures
        player@ == player_record(id@, name@),
{
    Player {
        id: read_text(id),
        name: read_text(name),
        string1: String::new(),
        string2: String::new(),
        int1: 0,
    }
}

/// Reads the record that lies between two record ends.
pub fn replay_from_chunk(chunk: &[u8]) -> (r: Result<Replay, Error>)
    ensures
        match r {
            Ok(replay) => legacy_record(chunk@) == Ok::<ReplayView, ErrorView>(replay@),
            Err(e) => legacy_record(chunk@) == Err::<ReplayView, ErrorView>(e@),
        },
{
    let (head, first, second) = match split_sections(chunk) {
        Some(parts) => parts,
        None => {
            return Err(Error::UnexpectedResponse("record does not hold two players"));
        },
    };
    if head.len() < 3 {
        return Err(Error::UnexpectedResponse("record is too short for floor and characters"));
    }
    if first.len() < 20 {
        return Err(Error::UnexpectedResponse("first player is too short"));
    }
    if second.len() < 71 {
        return Err(Error::UnexpectedResponse("second player is too short"));
    }
    let (name_1, name_2) = match (player_name(first, 0), player_name(second, TAIL_LEN)) {
        (Some(name_1), Some(name_2)) => (name_1, name_2),
        _ => {
            return Err(Error::UnexpectedResponse("player has no name"));
        },
    };
    Ok(
        Replay {
            int1: 0,
            int2: 0,
            floor: head[head.len() - 3],
            player1_character: head[head.len() - 2],
            player2_character: head[head.len() - 1],
            player1: player_from(slice_subrange(first, 0, ID_LEN), name_1),
            player2: player_from(slice_subrange(second, 0, ID_LEN), name_2),
            winner: second[second.len() - TAIL_LEN],
            date: read_text(slice_subrange(second, second.len() - 19, second.len())),
            int7: 0,
            views: 0,
            int8: 0,
            likes: 0,
        },
    )
}

/// What the bytes between two record ends give: nothing where there are no
/// bytes; else the match of the record that they hold, or a parse error
/// that shows the bytes.
pub open spec fn legacy_outcome(chunk: Seq<u8>) -> Option<Result<MatchView, ParseErrorView>> {
    if chunk.len() == 0 {
        None
    } else {
        let shown = ascii_text(escaped_text(chunk));
        Some(
            match legacy_record(chunk) {
                Err(e) => Err(ParseErrorView { reply_content: shown, inner: e }),
                Ok(replay) => match match_of(replay) {
                    Ok(m) => Ok(m),
                    Err(e) => Err(ParseErrorView { reply_content: shown, inner: e }),
                },
            },
        )
    }
}

/// Reads what lies between two record ends.
pub fn read_chunk(chunk: &[u8]) -> (r: Option<Result<Match, ParseError>>)
    ensures
        match r {
            None => legacy_outcome(chunk@) is None,
            Some(Ok(m)) => legacy_outcome(chunk@) == Some(Ok::<MatchView, ParseErrorView>(m@)),
            Some(Err(e)) => legacy_outcome(chunk@) == Some(Err::<MatchView, ParseErrorView>(e@)),
        },
{
    if chunk.len() == 0 {
        return None;
    }
    let converted = match replay_from_chunk(chunk) {
        Ok(replay) => match_from_replay(&replay),
        Err(e) => Err(e),
    };
    match converted {
        Ok(m) => Some(Ok(m)),
        Err(e) => Some(Err(ParseError::new(show_buf(chunk), e))),
    }
}

/// The matches that the records from index `from` on give.  A record
/// reaches to the next record end, or to the end of `body`.
pub open spec fn legacy_matches_from(body: Seq<u8>, from: int) -> Seq<MatchView>
    decreases body.len() - from,
{
    let end = find(body, record_end(), from);
    if from < 0 || end < from {
        Seq::empty()
    } else {
        let here = match legacy_outcome(body.subrange(from, end)) {
            Some(Ok(m)) => seq![m],
            _ => Seq::empty(),
        };
        if end + 4 > body.len() {
            here
        } else {
            here + legacy_matches_from(body, end + 4)
        }
    }
}

/// The parse errors that the records from index `from` on give.
pub open spec fn legacy_errors_from(body: Seq<u8>, from: int) -> Seq<ParseErrorView>
    decreases body.len() - from,
{
    let end = find(body, record_end(), from);
    if from < 0 || end < from {
        Seq::empty()
    } else {
        let here = match legacy_outcome(body.subrange(from, end)) {
            Some(Err(e)) => seq![e],
            _ => Seq::empty(),
        };
        if end + 4 > body.len() {
            here
        } else {
            here + legacy_errors_from(body, end + 4)
        }
    }
}

/// The matches that a reply gives when read by its layout: those of the
/// records after the header.
pub open spec fn legacy_matches(bytes: Seq<u8>) -> Seq<MatchView> {
    if bytes.len() < HEADER_LEN {
        Seq::empty()
    } else {
        legacy_matches_from(bytes.subrange(HEADER_LEN as int, bytes.len() as int), 0)
    }
}

/// The parse errors that a reply gives when read by its layout: one that
/// shows the reply where it is shorter than a header, else those of the
/// records after the header.
pub open spec fn legacy_errors(bytes: Seq<u8>) -> Seq<ParseErrorView> {
    if bytes.len() < HEADER_LEN {
        seq![
            ParseErrorView {
                reply_content: ascii_text(escaped_text(bytes)),
                inner: ErrorView::UnexpectedResponse("reply is shorter than its header"@),
            },
        ]
    } else {
        legacy_errors_from(bytes.subrange(HEADER_LEN as int, bytes.len() as int), 0)
    }
}

/// Reads a reply by its layout: the header is skipped, the rest is cut at
/// every record end, and every piece that is not empty is read as a
/// record.
pub fn decode_legacy(bytes: &[u8]) -> (r: (Vec<Match>, Vec<ParseError>))
    ensures
        match_views(r.0@) == legacy_matches(bytes@),
        error_views(r.1@) == legacy_errors(bytes@),
{
    let mut matches: Vec<Match> = Vec::new();
    let mut errors: Vec<ParseError> = Vec::new();
    if bytes.len() < HEADER_LEN {
        let error = ParseError::new(
            show_buf(bytes),
            Error::UnexpectedResponse("reply is shorter than its header"),
        );
        errors.push(error);
        assert(match_views(matches@) =~= legacy_matches(bytes@));
        assert(error_views(errors@) =~= legacy_errors(bytes@));
        return (matches, errors);
    }
    let body = slice_subrange(bytes, HEADER_LEN, bytes.len());
    let mark: [u8; 4] = [0x01, 0x00, 0x00, 0x00];
    assert(mark@ =~= record_end());
    let mut from: usize = 0;
    assert(match_views(matches@) =~= Seq::<MatchView>::empty());
    assert(error_views(errors@) =~= Seq::<ParseErrorView>::empty());
    loop
        invariant_except_break
            from <= body.len(),
            mark@ == record_end(),
            match_views(matches@) + legacy_matches_from(body@, from as int) == legacy_matches_from(
                body@,
                0,
            ),
            error_views(errors@) + legacy_errors_from(body@, from as int) == legacy_errors_from(
                body@,
                0,
            ),
        ensures
            match_views(matches@) == legacy_matches_from(body@, 0),
            error_views(errors@) == legacy_errors_from(body@, 0),
        decreases body.len() - from,
    {
        let end = find_from(body, mark.as_slice(), from);
        proof {
            lemma_find(body@, record_end(), from as int);
        }
        let ghost matches_before = match_views(matches@);
        let ghost errors_before = error_views(errors@);
        match read_chunk(slice_subrange(body, from, end)) {
            None => {},
            Some(Ok(m)) => {
                matches.push(m);
                assert(match_views(matches@) =~= matches_before + seq![m@]);
            },
            Some(Err(e)) => {
                let ghost view = e@;
                errors.push(e);
                assert(error_views(errors@) =~= errors_before + seq![view]);
            },
        }
        if end >= body.len() {
            assert(match_views(matches@) =~= matches_before + legacy_matches_from(
                body@,
                from as int,
            ));
            assert(error_views(errors@) =~= errors_before + legacy_errors_from(body@, from as int));
            break ;
        }
        assert(match_views(matches@) + legacy_matches_from(body@, end + 4) =~= matches_before
            + legacy_matches_from(body@, from as int));
        assert(error_views(errors@) + legacy_errors_from(body@, end + 4) =~= errors_before
            + legacy_errors_from(body@, from as int));
        from = end + 4;
    }
    (matches, errors)
}

/// The matches and parse errors of a reply, and the way in which they
/// were read.
#[derive(Debug)]
pub enum DecodeOutcome {
    /// The reply was read as MessagePack.
    Typed { matches: Vec<Match>, errors: Vec<ParseError> },
    /// The reply could not be read as MessagePack and was read by its
    /// layout.
    Legacy { matches: Vec<Match>, errors: Vec<ParseError> },
}

/// The matches that a reply gives when it is read as MessagePack where
/// that is possible, and by its layout where it is not.
pub open spec fn fallback_matches(bytes: Seq<u8>) -> Seq<MatchView> {
    if unpacked_response(bytes) is Some {
        decoded_matches(bytes)
    } else {
        legacy_matches(bytes)
    }
}

/// The parse errors that a reply gives when it is read as MessagePack
/// where that is possible, and by its layout where it is not.
pub open spec fn fallback_errors(bytes: Seq<u8>) -> Seq<ParseErrorView> {
    if unpacked_response(bytes) is Some {
        decoded_errors(bytes)
    } else {
        legacy_errors(bytes)
    }
}

/// A reply that can be read as MessagePack is never read by its layout:
/// it gives what reading it as MessagePack gives.
pub proof fn lemma_layout_only_when_needed(bytes: Seq<u8>)
    requires
        unpacked_response(bytes) is Some,
    ensures
        fallback_matches(bytes) == decoded_matches(bytes),
        fallback_errors(bytes) == decoded_errors(bytes),
{
}

/// Reads the records of a reply that was read as MessagePack, or reads by
/// its layout a reply that could not be.
pub fn outcome_of_response(
    bytes: &[u8],
    response: Result<ReplayResponse, UnpackFault>,
) -> (r: DecodeOutcome)
    ensures
        match response {
            Ok(page) => r matches DecodeOutcome::Typed { matches, errors } && match_views(matches@)
                == matches_of(page@.body.replays) && error_views(errors@) == errors_of(
                page@.body.replays,
            ),
            Err(_) => r matches DecodeOutcome::Legacy { matches, errors } && match_views(matches@)
                == legacy_matches(bytes@) && error_views(errors@) == legacy_errors(bytes@),
        },
{
    match response {
        Ok(page) => {
            let (matches, errors) = convert_replays(&page.body.replays);
            DecodeOutcome::Typed { matches, errors }
        },
        Err(_) => {
            let (matches, errors) = decode_legacy(bytes);
            DecodeOutcome::Legacy { matches, errors }
        },
    }
}

/// Reads a reply as MessagePack, and by its layout if that fails.
pub fn decode_with_fallback(bytes: &[u8]) -> (r: DecodeOutcome)
    ensures
        r is Typed <==> unpacked_response(bytes@) is Some,
        match r {
            DecodeOutcome::Typed { matches, errors } => match_views(matches@) == fallback_matches(
                bytes@,
            ) && error_views(errors@) == fallback_errors(bytes@),
            DecodeOutcome::Legacy { matches, errors } => match_views(matches@) == fallback_matches(
                bytes@,
            ) && error_views(errors@) == fallback_errors(bytes@),
        },
{
    outcome_of_response(bytes, ReplayResponse::from_bytes(bytes))
}

impl DecodeOutcome {
    /// Whether the reply was read by its layout.
    pub fn is_legacy(&self) -> (r: bool)
        ensures
            r == (self is Legacy),
    {
        match self {
            DecodeOutcome::Typed { .. } => false,
            DecodeOutcome::Legacy { .. } => true,
        }
    }

    /// The matches and the parse errors, whichever way they were read.
    pub fn into_parts(self) -> (r: (Vec<Match>, Vec<ParseError>))
        ensures
            match self {
                DecodeOutcome::Typed { matches, errors } => r == (matches, errors),
                DecodeOutcome::Legacy { matches, errors } => r == (matches, errors),
            },
    {
        match self {
            DecodeOutcome::Typed { matches, errors } => (matches, errors),
            DecodeOutcome::Legacy { matches, errors } => (matches, errors),
        }
    }
}

} // verus!
