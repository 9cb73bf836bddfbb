//! The tiers of the tower, lowest first.

use crate::error::{Error, ErrorView};
use crate::text::{ascii_text, hex_text, short_hex, short_hex_bytes, string_from_ascii, to_hex_bytes};
use std::cmp::Ordering;
use vstd::prelude::*;
use vstd::std_specs::cmp::{PartialOrdIs, PartialOrdSpecImpl};

verus! {

/// A tier of the tower.  The tiers are ordered from `F1` up to `Celestial`.
#[derive(Debug, PartialEq, Eq, Structural, Clone, Copy, Hash, Ord)]
pub enum Floor {
    F1,
    F2,
    F3,
    F4,
    F5,
    F6,
    F7,
    F8,
    F9,
    F10,
    Celestial,
}

impl Floor {
    /// The place of the tier in the tower, counted from zero.
    pub open spec fn rank(self) -> nat {
        match self {
            Floor::F1 => 0,
            Floor::F2 => 1,
            Floor::F3 => 2,
            Floor::F4 => 3,
            Floor::F5 => 4,
            Floor::F6 => 5,
            Floor::F7 => 6,
            Floor::F8 => 7,
            Floor::F9 => 8,
            Floor::F10 => 9,
            Floor::Celestial => 10,
        }
    }

    /// The byte that stands for the tier on the wire.
    pub open spec fn code(self) -> u8 {
        match self {
            Floor::F1 => 0x01,
            Floor::F2 => 0x02,
            Floor::F3 => 0x03,
            Floor::F4 => 0x04,
            Floor::F5 => 0x05,
            Floor::F6 => 0x06,
            Floor::F7 => 0x07,
            Floor::F8 => 0x08,
            Floor::F9 => 0x09,
            Floor::F10 => 0x0a,
            Floor::Celestial => 0x63,
        }
    }

    /// The tier that a byte stands for, if any.
    pub open spec fn of_code(code: u8) -> Option<Floor> {
        if code == 0x01 {
            Some(Floor::F1)
        } else if code == 0x02 {
            Some(Floor::F2)
        } else if code == 0x03 {
            Some(Floor::F3)
        } else if code == 0x04 {
            Some(Floor::F4)
        } else if code == 0x05 {
            Some(Floor::F5)
        } else if code == 0x06 {
            Some(Floor::F6)
        } else if code == 0x07 {
            Some(Floor::F7)
        } else if code == 0x08 {
            Some(Floor::F8)
        } else if code == 0x09 {
            Some(Floor::F9)
        } else if code == 0x0a {
            Some(Floor::F10)
        } else if code == 0x63 {
            Some(Floor::Celestial)
        } else {
            None
        }
    }

    /// The name of the tier.
    pub open spec fn tier_name(self) -> Seq<char> {
        match self {
            Floor::F1 => "F1"@,
            Floor::F2 => "F2"@,
            Floor::F3 => "F3"@,
            Floor::F4 => "F4"@,
            Floor::F5 => "F5"@,
            Floor::F6 => "F6"@,
            Floor::F7 => "F7"@,
            Floor::F8 => "F8"@,
            Floor::F9 => "F9"@,
            Floor::F10 => "F10"@,
            Floor::Celestial => "Celestial"@,
        }
    }

    /// What [`Floor::from_u8`] reports for a byte that is no tier.
    pub open spec fn invalid_code_text(code: u8) -> Seq<char> {
        ascii_text(short_hex(code)) + " is not a valid floor code"@
    }

    /// `self` is a lower tier than `other`.
    pub open spec fn below(self, other: Floor) -> bool {
        self.rank() < other.rank()
    }

    /// Convert a floor to its byte on the wire.
    pub fn to_u8(&self) -> (code: u8)
        ensures
            code == self.code(),
    {
        match self {
            Floor::F1 => 0x01,
            Floor::F2 => 0x02,
            Floor::F3 => 0x03,
            Floor::F4 => 0x04,
            Floor::F5 => 0x05,
            Floor::F6 => 0x06,
            Floor::F7 => 0x07,
            Floor::F8 => 0x08,
            Floor::F9 => 0x09,
            Floor::F10 => 0x0a,
            Floor::Celestial => 0x63,
        }
    }

    /// Create a floor from its byte on the wire.
    pub fn from_u8(c: u8) -> (r: Result<Floor, Error>)
        ensures
            match r {
                Ok(floor) => Floor::of_code(c) == Some(floor),
                Err(e) => Floor::of_code(c) is None && e@ == ErrorView::InvalidArgument(
                    Floor::invalid_code_text(c),
                ),
            },
    {
        match c {
            0x01 => Ok(Floor::F1),
            0x02 => Ok(Floor::F2),
            0x03 => Ok(Floor::F3),
            0x04 => Ok(Floor::F4),
            0x05 => Ok(Floor::F5),
            0x06 => Ok(Floor::F6),
            0x07 => Ok(Floor::F7),
            0x08 => Ok(Floor::F8),
            0x09 => Ok(Floor::F9),
            0x0a => Ok(Floor::F10),
            0x63 => Ok(Floor::Celestial),
            _ => {
                let text = string_from_ascii(short_hex_bytes(c)).concat(" is not a valid floor code");
                Err(Error::InvalidArgument(text))
            },
        }
    }

    /// The two lower-case hexadecimal digits of the floor's byte.
    pub fn to_hex(&self) -> (text: String)
        ensures
            text@ == ascii_text(hex_text(seq![self.code()], false)),
    {
        let code = [self.to_u8()];
        assert(code@ =~= seq![self.code()]);
        string_from_ascii(to_hex_bytes(code.as_slice(), false))
    }

    /// The name of the tier.
    pub fn name(&self) -> (name: &'static str)
        ensures
            name@ == self.tier_name(),
    {
        match self {
            Floor::F1 => "F1",
            Floor::F2 => "F2",
            Floor::F3 => "F3",
            Floor::F4 => "F4",
            Floor::F5 => "F5",
            Floor::F6 => "F6",
            Floor::F7 => "F7",
            Floor::F8 => "F8",
            Floor::F9 => "F9",
            Floor::F10 => "F10",
            Floor::Celestial => "Celestial",
        }
    }

    /// The place of the tier in the tower, counted from zero.
    pub fn index(&self) -> (rank: u8)
        ensures
            rank == self.rank(),
    {
        match self {
            Floor::F1 => 0,
            Floor::F2 => 1,
            Floor::F3 => 2,
            Floor::F4 => 3,
            Floor::F5 => 4,
            Floor::F6 => 5,
            Floor::F7 => 6,
            Floor::F8 => 7,
            Floor::F9 => 8,
            Floor::F10 => 9,
            Floor::Celestial => 10,
        }
    }
}

impl PartialOrd for Floor {
    fn partial_cmp(&self, other: &Floor) -> (r: Option<Ordering>) {
        let a = self.index();
        let b = other.index();
        if a < b {
            Some(Ordering::Less)
        } else if a == b {
            Some(Ordering::Equal)
        } else {
            Some(Ordering::Greater)
        }
    }
}

impl PartialOrdSpecImpl for Floor {
    open spec fn obeys_partial_cmp_spec() -> bool {
        true
    }

    open spec fn partial_cmp_spec(&self, other: &Floor) -> Option<Ordering> {
        if self.rank() < other.rank() {
            Some(Ordering::Less)
        } else if self.rank() == other.rank() {
            Some(Ordering::Equal)
        } else {
            Some(Ordering::Greater)
        }
    }
}

/// Every floor comes back from its own byte.
pub proof fn lemma_floor_round_trip(floor: Floor)
    ensures
        Floor::of_code(floor.code()) == Some(floor),
{
}

/// A byte that stands for a floor is that floor's byte.
pub proof fn lemma_floor_code_unique(code: u8, floor: Floor)
    requires
        Floor::of_code(code) == Some(floor),
    ensures
        floor.code() == code,
{
}

/// The floors are totally ordered: of two floors exactly one of "below",
/// "equal" and "above" holds, and "below" is transitive.  Comparing two
/// floors with `<` asks whether the first is below the second.
pub proof fn lemma_floor_order_total(a: Floor, b: Floor, c: Floor)
    ensures
        a.below(b) || a == b || b.below(a),
        !(a.below(b) && b.below(a)),
        !(a.below(b) && a == b),
        a.below(b) && b.below(c) ==> a.below(c),
        a.rank() == b.rank() ==> a == b,
        a.is_lt(&b) <==> a.below(b),
        a.is_gt(&b) <==> b.below(a),
        a.is_le(&b) <==> !b.below(a),
{
}

/// The tower from bottom to top.
pub proof fn lemma_floor_chain()
    ensures
        Floor::F1.below(Floor::F2),
        Floor::F2.below(Floor::F3),
        Floor::F3.below(Floor::F4),
        Floor::F4.below(Floor::F5),
        Floor::F5.below(Floor::F6),
        Floor::F6.below(Floor::F7),
        Floor::F7.below(Floor::F8),
        Floor::F8.below(Floor::F9),
        Floor::F9.below(Floor::F10),
        Floor::F10.below(Floor::Celestial),
{
}

} // verus!
