//! Matches and the players in them.

use crate::character::Character;
use crate::floor::Floor;
use crate::time::Timestamp;
use std::cmp::Ordering;
use std::hash::{Hash, Hasher};
use vstd::prelude::*;
use vstd::std_specs::cmp::{PartialEqSpecImpl, PartialOrdSpecImpl};

verus! {

/// Indicates which player won a match.
#[derive(Debug, PartialEq, Eq, Structural, Clone, Copy, Hash, PartialOrd, Ord)]
pub enum Winner {
    Player1,
    Player2,
}

impl Winner {
    /// Zero for the first player, one for the second.
    pub open spec fn rank(self) -> nat {
        match self {
            Winner::Player1 => 0,
            Winner::Player2 => 1,
        }
    }
}

/// Player information associated with a match.
///
/// Two players are the same when their `id` and `character` agree; the
/// `name` is what the service showed at the time and takes no part in
/// comparing or hashing.
#[derive(Debug, Clone)]
pub struct Player {
    pub id: u64,
    pub character: Character,
    pub name: String,
}

/// What a [`Player`] holds.
pub struct PlayerView {
    pub id: u64,
    pub character: Character,
    pub name: Seq<char>,
}

impl View for Player {
    type V = PlayerView;

    open spec fn view(&self) -> PlayerView {
        PlayerView { id: self.id, character: self.character, name: self.name@ }
    }
}

impl PlayerView {
    /// Same `id` and same `character`.
    pub open spec fn same_identity(self, other: PlayerView) -> bool {
        self.id == other.id && self.character == other.character
    }

    /// `self` comes first: by `id`, then by `character`.
    pub open spec fn before(self, other: PlayerView) -> bool {
        self.id < other.id || (self.id == other.id && self.character.code()
            < other.character.code())
    }
}

impl Player {
    /// Whether `self` comes before `other`: by `id`, then by `character`.
    pub fn is_before(&self, other: &Player) -> (r: bool)
        ensures
            r == self@.before(other@),
    {
        self.id < other.id || (self.id == other.id && self.character.to_u8()
            < other.character.to_u8())
    }
}

impl PartialEq for Player {
    fn eq(&self, other: &Player) -> (r: bool) {
        self.id == other.id && self.character == other.character
    }
}

impl PartialEqSpecImpl for Player {
    open spec fn obeys_eq_spec() -> bool {
        true
    }

    open spec fn eq_spec(&self, other: &Player) -> bool {
        self@.same_identity(other@)
    }
}

impl Eq for Player {

}

impl PartialOrd for Player {
    fn partial_cmp(&self, other: &Player) -> (r: Option<Ordering>) {
        if self.is_before(other) {
            Some(Ordering::Less)
        } else if other.is_before(self) {
            Some(Ordering::Greater)
        } else {
            Some(Ordering::Equal)
        }
    }
}

impl PartialOrdSpecImpl for Player {
    open spec fn obeys_partial_cmp_spec() -> bool {
        true
    }

    open spec fn partial_cmp_spec(&self, other: &Player) -> Option<Ordering> {
        if self@.before(other@) {
            Some(Ordering::Less)
        } else if other@.before(self@) {
            Some(Ordering::Greater)
        } else {
            Some(Ordering::Equal)
        }
    }
}

impl Hash for Player {
    /// `Hash::hash` of the pair of `id` and `character`: the name is not
    /// fed to the hasher.
    #[verifier::external_body]
    fn hash<H: Hasher>(&self, state: &mut H) {
        (self.id, self.character).hash(state)
    }
}

/// A match reported by the service.
#[derive(Debug, Clone, Hash)]
pub struct Match {
    timestamp: Timestamp,
    floor: Floor,
    player_1: Player,
    player_2: Player,
    winner: Winner,
}

/// What a [`Match`] holds.
pub struct MatchView {
    pub timestamp: Timestamp,
    pub floor: Floor,
    pub players: (PlayerView, PlayerView),
    pub winner: Winner,
}

impl View for Match {
    type V = MatchView;

    closed spec fn view(&self) -> MatchView {
        MatchView {
            timestamp: self.timestamp,
            floor: self.floor,
            players: (self.player_1@, self.player_2@),
            winner: self.winner,
        }
    }
}

impl MatchView {
    /// The player who won.
    pub open spec fn winner_player(self) -> PlayerView {
        match self.winner {
            Winner::Player1 => self.players.0,
            Winner::Player2 => self.players.1,
        }
    }

    /// The player who lost.
    pub open spec fn loser_player(self) -> PlayerView {
        match self.winner {
            Winner::Player1 => self.players.1,
            Winner::Player2 => self.players.0,
        }
    }

    /// The two matches are the same event: same time, floor, players and
    /// winner, whatever the players' names.
    pub open spec fn same_event(self, other: MatchView) -> bool {
        &&& self.timestamp == other.timestamp
        &&& self.floor == other.floor
        &&& self.players.0.same_identity(other.players.0)
        &&& self.players.1.same_identity(other.players.1)
        &&& self.winner == other.winner
    }

    /// `self` comes first: by time, then by floor, then by the first player,
    /// then by the second player, then by the winner.
    pub open spec fn precedes(self, other: MatchView) -> bool {
        if self.timestamp != other.timestamp {
            self.timestamp.before(other.timestamp)
        } else if self.floor != other.floor {
            self.floor.below(other.floor)
        } else if !self.players.0.same_identity(other.players.0) {
            self.players.0.before(other.players.0)
        } else if !self.players.1.same_identity(other.players.1) {
            self.players.1.before(other.players.1)
        } else {
            self.winner.rank() < other.winner.rank()
        }
    }
}

impl Match {
    /// The match with these fields.
    pub fn new(timestamp: Timestamp, floor: Floor, players: (Player, Player), winner: Winner) -> (m:
        Match)
        ensures
            m@ == (MatchView {
                timestamp,
                floor,
                players: (players.0@, players.1@),
                winner,
            }),
    {
        Match { timestamp, floor, player_1: players.0, player_2: players.1, winner }
    }

    pub fn floor(&self) -> (floor: Floor)
        ensures
            floor == self@.floor,
    {
        self.floor
    }

    pub fn timestamp(&self) -> (timestamp: &Timestamp)
        ensures
            *timestamp == self@.timestamp,
    {
        &self.timestamp
    }

    pub fn players(&self) -> (players: (&Player, &Player))
        ensures
            players.0@ == self@.players.0,
            players.1@ == self@.players.1,
    {
        (&self.player_1, &self.player_2)
    }

    /// Get the player information about the winner.
    pub fn winner(&self) -> (player: &Player)
        ensures
            player@ == self@.winner_player(),
    {
        match self.winner {
            Winner::Player1 => &self.player_1,
            Winner::Player2 => &self.player_2,
        }
    }

    /// Get the player information about the loser.
    pub fn loser(&self) -> (player: &Player)
        ensures
            player@ == self@.loser_player(),
    {
        match self.winner {
            Winner::Player1 => &self.player_2,
            Winner::Player2 => &self.player_1,
        }
    }

    /// Which of the two players won.
    pub fn outcome(&self) -> (winner: Winner)
        ensures
            winner == self@.winner,
    {
        self.winner
    }

    /// Whether the two matches are the same event.
    pub fn is_same_event(&self, other: &Match) -> (r: bool)
        ensures
            r == self@.same_event(other@),
    {
        self.timestamp == other.timestamp && self.floor == other.floor && self.player_1
            == other.player_1 && self.player_2 == other.player_2 && self.winner == other.winner
    }

    /// Whether `self` comes before `other` in the order of matches.
    pub fn is_before(&self, other: &Match) -> (r: bool)
        ensures
            r == self@.precedes(other@),
    {
        if self.timestamp != other.timestamp {
            self.timestamp.is_before(&other.timestamp)
        } else if self.floor != other.floor {
            self.floor.index() < other.floor.index()
        } else if self.player_1 != other.player_1 {
            self.player_1.is_before(&other.player_1)
        } else if self.player_2 != other.player_2 {
            self.player_2.is_before(&other.player_2)
        } else {
            self.winner == Winner::Player1 && other.winner == Winner::Player2
        }
    }
}

impl PartialEq for Match {
    fn eq(&self, other: &Match) -> (r: bool) {
        self.is_same_event(other)
    }
}

impl PartialEqSpecImpl for Match {
    open spec fn obeys_eq_spec() -> bool {
        true
    }

    open spec fn eq_spec(&self, other: &Match) -> bool {
        self@.same_event(other@)
    }
}

impl Eq for Match {

}

impl PartialOrd for Match {
    fn partial_cmp(&self, other: &Match) -> (r: Option<Ordering>) {
        if self.is_before(other) {
            Some(Ordering::Less)
        } else if other.is_before(self) {
            Some(Ordering::Greater)
        } else {
            Some(Ordering::Equal)
        }
    }
}

impl PartialOrdSpecImpl for Match {
    open spec fn obeys_partial_cmp_spec() -> bool {
        true
    }

    open spec fn partial_cmp_spec(&self, other: &Match) -> Option<Ordering> {
        if self@.precedes(other@) {
            Some(Ordering::Less)
        } else if other@.precedes(self@) {
            Some(Ordering::Greater)
        } else {
            Some(Ordering::Equal)
        }
    }
}

/// The order of matches is a strict total order up to "same event": a match
/// does not precede itself, of two matches exactly one of "precedes", "same
/// event" and "follows" holds, and "precedes" is transitive.
pub proof fn lemma_match_order(a: MatchView, b: MatchView, c: MatchView)
    ensures
        !a.precedes(a),
        a.same_event(a),
        a.precedes(b) || a.same_event(b) || b.precedes(a),
        !(a.precedes(b) && b.precedes(a)),
        !(a.precedes(b) && a.same_event(b)),
        a.same_event(b) ==> b.same_event(a),
        a.same_event(b) && b.same_event(c) ==> a.same_event(c),
        a.precedes(b) && b.precedes(c) ==> a.precedes(c),
        a.same_event(b) ==> (a.precedes(c) <==> b.precedes(c)),
        a.same_event(b) ==> (c.precedes(a) <==> c.precedes(b)),
{
}

/// The names of the players take no part in the order of matches.
pub proof fn lemma_names_do_not_order(a: MatchView, b: MatchView, name_0: Seq<char>, name_1: Seq<char>)
    ensures
        ({
            let renamed = MatchView {
                players: (
                    PlayerView { name: name_0, ..a.players.0 },
                    PlayerView { name: name_1, ..a.players.1 },
                ),
                ..a
            };
            &&& renamed.same_event(a)
            &&& renamed.precedes(b) <==> a.precedes(b)
            &&& b.precedes(renamed) <==> b.precedes(a)
        }),
{
}

} // verus!
