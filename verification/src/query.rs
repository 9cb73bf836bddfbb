//! The filters of a query for replays, built step by step.
//!
//! Each filter can be set once.  The type of the builder records which
//! filters have been set, so that setting one twice, setting a third
//! character, or setting the winner before the first character does not
//! compile.

use crate::character::Character;
use crate::floor::Floor;
use crate::matches::Winner;
use crate::text::{ascii_text, hex_text, push_hex, string_from_ascii};
use std::marker::PhantomData;
use vstd::prelude::*;

verus! {

/// The first character has not been chosen.
pub struct NoChar1Set;

/// The second character has not been chosen.
pub struct NoChar2Set;

/// The first character has been chosen.
pub struct Char1Set;

/// The second character has been chosen.
pub struct Char2Set;

/// The winner has not been chosen.
pub struct NoWinnerSet;

/// The winner has been chosen.
pub struct WinnerSet;

/// The lowest floor has not been chosen.
pub struct NoMinFloorSet;

/// The lowest floor has been chosen.
pub struct MinFloorSet;

/// The highest floor has not been chosen.
pub struct NoMaxFloorSet;

/// The highest floor has been chosen.
pub struct MaxFloorSet;

/// The filters of a query.  The default query searches for all matches
/// between floor 1 and celestial.
///
/// To find matches between floor 10 and celestial between Sol and Zato
/// where Sol wins:
///
/// ```ignore
/// QueryParameters::new()
///     .min_floor(Floor::F10)
///     .max_floor(Floor::Celestial)
///     .character(Character::Sol)
///     .character(Character::Zato)
///     .winner(Winner::Player1)
/// ```
#[verifier::reject_recursive_types(Char1Status)]
#[verifier::reject_recursive_types(Char2Status)]
#[verifier::reject_recursive_types(WinnerStatus)]
#[verifier::reject_recursive_types(MinFloorStatus)]
#[verifier::reject_recursive_types(MaxFloorStatus)]
pub struct QueryParameters<Char1Status, Char2Status, WinnerStatus, MinFloorStatus, MaxFloorStatus> {
    min_floor: Floor,
    max_floor: Floor,
    char_1: Option<Character>,
    char_2: Option<Character>,
    winner: Option<Winner>,
    phantom1: PhantomData<Char1Status>,
    phantom2: PhantomData<Char2Status>,
    phantom3: PhantomData<WinnerStatus>,
    phantom4: PhantomData<MinFloorStatus>,
    phantom5: PhantomData<MaxFloorStatus>,
}

/// The filters that a [`QueryParameters`] holds.
#[derive(Debug, PartialEq, Eq, Structural, Clone, Copy)]
pub struct Query {
    pub min_floor: Floor,
    pub max_floor: Floor,
    pub char_1: Option<Character>,
    pub char_2: Option<Character>,
    pub winner: Option<Winner>,
}

impl Query {
    /// The query for all matches between floor 1 and celestial.
    pub open spec fn all() -> Query {
        Query {
            min_floor: Floor::F1,
            max_floor: Floor::Celestial,
            char_1: None,
            char_2: None,
            winner: None,
        }
    }

    /// The byte that stands for a character filter: the character's code,
    /// or 0xFF where none is set.
    pub open spec fn character_byte(filter: Option<Character>) -> u8 {
        match filter {
            Some(character) => character.code(),
            None => 0xff,
        }
    }

    /// The byte that stands for the winner filter: 0 where none is set, 1
    /// for the first player, 2 for the second.
    pub open spec fn winner_byte(filter: Option<Winner>) -> u8 {
        match filter {
            None => 0,
            Some(Winner::Player1) => 1,
            Some(Winner::Player2) => 2,
        }
    }

    /// The eight bytes that end a request: the two floors, an empty list,
    /// the two characters, the winner, and two fixed bytes.
    pub open spec fn tail_bytes(self) -> Seq<u8> {
        seq![
            self.min_floor.code(),
            self.max_floor.code(),
            0x90u8,
            Query::character_byte(self.char_1),
            Query::character_byte(self.char_2),
            Query::winner_byte(self.winner),
            0x00u8,
            0x01u8,
        ]
    }

    /// [`Query::tail_bytes`] in hexadecimal digits: the floors in lower
    /// case, the rest in upper case.
    pub open spec fn tail_hex(self) -> Seq<u8> {
        hex_text(self.tail_bytes().take(2), false) + hex_text(self.tail_bytes().skip(2), true)
    }
}

impl<A, B, C, D, E> View for QueryParameters<A, B, C, D, E> {
    type V = Query;

    closed spec fn view(&self) -> Query {
        Query {
            min_floor: self.min_floor,
            max_floor: self.max_floor,
            char_1: self.char_1,
            char_2: self.char_2,
            winner: self.winner,
        }
    }
}

impl Default for QueryParameters<NoChar1Set, NoChar2Set, NoWinnerSet, NoMinFloorSet, NoMaxFloorSet> {
    fn default() -> (q: Self)
        ensures
            q@ == Query::all(),
    {
        QueryParameters {
            min_floor: Floor::F1,
            max_floor: Floor::Celestial,
            char_1: None,
            char_2: None,
            winner: None,
            phantom1: PhantomData,
            phantom2: PhantomData,
            phantom3: PhantomData,
            phantom4: PhantomData,
            phantom5: PhantomData,
        }
    }
}

impl QueryParameters<NoChar1Set, NoChar2Set, NoWinnerSet, NoMinFloorSet, NoMaxFloorSet> {
    /// The query for all matches between floor 1 and celestial.
    pub fn new() -> (q: Self)
        ensures
            q@ == Query::all(),
    {
        QueryParameters {
            min_floor: Floor::F1,
            max_floor: Floor::Celestial,
            char_1: None,
            char_2: None,
            winner: None,
            phantom1: PhantomData,
            phantom2: PhantomData,
            phantom3: PhantomData,
            phantom4: PhantomData,
            phantom5: PhantomData,
        }
    }
}

impl<A, B, C, D, E> QueryParameters<A, B, C, D, E> {
    /// The filters as a plain record.
    pub fn filters(&self) -> (query: Query)
        ensures
            query == self@,
    {
        Query {
            min_floor: self.min_floor,
            max_floor: self.max_floor,
            char_1: self.char_1,
            char_2: self.char_2,
            winner: self.winner,
        }
    }

    /// The lowest floor to query for.
    pub fn lowest_floor(&self) -> (floor: Floor)
        ensures
            floor == self@.min_floor,
    {
        self.min_floor
    }

    /// The highest floor to query for.
    pub fn highest_floor(&self) -> (floor: Floor)
        ensures
            floor == self@.max_floor,
    {
        self.max_floor
    }

    /// The character of the first player, if one is asked for.
    pub fn first_character(&self) -> (character: Option<Character>)
        ensures
            character == self@.char_1,
    {
        self.char_1
    }

    /// The character of the second player, if one is asked for.
    pub fn second_character(&self) -> (character: Option<Character>)
        ensures
            character == self@.char_2,
    {
        self.char_2
    }

    /// The winner, if one is asked for.
    pub fn chosen_winner(&self) -> (winner: Option<Winner>)
        ensures
            winner == self@.winner,
    {
        self.winner
    }

    /// The byte for the first character filter.
    pub fn char_1_byte(&self) -> (byte: u8)
        ensures
            byte == Query::character_byte(self@.char_1),
    {
        match self.char_1 {
            Some(character) => character.to_u8(),
            None => 0xff,
        }
    }

    /// The byte for the second character filter.
    pub fn char_2_byte(&self) -> (byte: u8)
        ensures
            byte == Query::character_byte(self@.char_2),
    {
        match self.char_2 {
            Some(character) => character.to_u8(),
            None => 0xff,
        }
    }

    /// The byte for the winner filter.
    pub fn winner_byte(&self) -> (byte: u8)
        ensures
            byte == Query::winner_byte(self@.winner),
    {
        match self.winner {
            None => 0x00,
            Some(Winner::Player1) => 0x01,
            Some(Winner::Player2) => 0x02,
        }
    }

    /// The end of a request in hexadecimal digits.
    pub fn build_aob(&self) -> (text: String)
        ensures
            text@ == ascii_text(self@.tail_hex()),
    {
        let mut out: Vec<u8> = Vec::new();
        push_hex(&mut out, self.min_floor.to_u8(), false);
        push_hex(&mut out, self.max_floor.to_u8(), false);
        push_hex(&mut out, 0x90, true);
        push_hex(&mut out, self.char_1_byte(), true);
        push_hex(&mut out, self.char_2_byte(), true);
        push_hex(&mut out, self.winner_byte(), true);
        push_hex(&mut out, 0x00, true);
        push_hex(&mut out, 0x01, true);
        assert(out@ =~= self@.tail_hex());
        string_from_ascii(out)
    }
}

impl<A, B, C, E> QueryParameters<A, B, C, NoMinFloorSet, E> {
    /// Set the minimum floor to query for.
    pub fn min_floor(self, floor: Floor) -> (q: QueryParameters<A, B, C, MinFloorSet, E>)
        ensures
            q@ == (Query { min_floor: floor, ..self@ }),
    {
        QueryParameters {
            min_floor: floor,
            max_floor: self.max_floor,
            char_1: self.char_1,
            char_2: self.char_2,
            winner: self.winner,
            phantom1: PhantomData,
            phantom2: PhantomData,
            phantom3: PhantomData,
            phantom4: PhantomData,
            phantom5: PhantomData,
        }
    }
}

impl<A, B, C, D> QueryParameters<A, B, C, D, NoMaxFloorSet> {
    /// Set the maximum floor to query for.
    pub fn max_floor(self, floor: Floor) -> (q: QueryParameters<A, B, C, D, MaxFloorSet>)
        ensures
            q@ == (Query { max_floor: floor, ..self@ }),
    {
        QueryParameters {
            min_floor: self.min_floor,
            max_floor: floor,
            char_1: self.char_1,
            char_2: self.char_2,
            winner: self.winner,
            phantom1: PhantomData,
            phantom2: PhantomData,
            phantom3: PhantomData,
            phantom4: PhantomData,
            phantom5: PhantomData,
        }
    }
}

impl<B, C, D, E> QueryParameters<NoChar1Set, B, C, D, E> {
    /// Set the character of the first player.
    pub fn character(self, character: Character) -> (q: QueryParameters<Char1Set, B, C, D, E>)
        ensures
            q@ == (Query { char_1: Some(character), ..self@ }),
    {
        QueryParameters {
            min_floor: self.min_floor,
            max_floor: self.max_floor,
            char_1: Some(character),
            char_2: self.char_2,
            winner: self.winner,
            phantom1: PhantomData,
            phantom2: PhantomData,
            phantom3: PhantomData,
            phantom4: PhantomData,
            phantom5: PhantomData,
        }
    }
}

impl<C, D, E> QueryParameters<Char1Set, NoChar2Set, C, D, E> {
    /// Set the character of the second player.
    pub fn character(self, character: Character) -> (q: QueryParameters<Char1Set, Char2Set, C, D, E>)
        ensures
            q@ == (Query { char_2: Some(character), ..self@ }),
    {
        QueryParameters {
            min_floor: self.min_floor,
            max_floor: self.max_floor,
            char_1: self.char_1,
            char_2: Some(character),
            winner: self.winner,
            phantom1: PhantomData,
            phantom2: PhantomData,
            phantom3: PhantomData,
            phantom4: PhantomData,
            phantom5: PhantomData,
        }
    }
}

impl<B, D, E> QueryParameters<Char1Set, B, NoWinnerSet, D, E> {
    /// Set the winner of the match.  The service is not known to honour
    /// this filter.
    pub fn winner(self, winner: Winner) -> (q: QueryParameters<Char1Set, B, WinnerSet, D, E>)
        ensures
            q@ == (Query { winner: Some(winner), ..self@ }),
    {
        QueryParameters {
            min_floor: self.min_floor,
            max_floor: self.max_floor,
            char_1: self.char_1,
            char_2: self.char_2,
            winner: Some(winner),
            phantom1: PhantomData,
            phantom2: PhantomData,
            phantom3: PhantomData,
            phantom4: PhantomData,
            phantom5: PhantomData,
        }
    }
}

} // verus!
