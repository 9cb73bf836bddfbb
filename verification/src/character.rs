//! The playable characters.

use crate::error::{Error, ErrorView};
use crate::text::{ascii_text, same_bytes, short_hex, short_hex_bytes, string_from_ascii};
use vstd::prelude::*;
use vstd::utf8::encode_utf8_decode_utf8;

verus! {

/// A playable character.
#[derive(Debug, PartialEq, Eq, Structural, Clone, Copy, Hash, PartialOrd, Ord)]
pub enum Character {
    Sol,
    Ky,
    May,
    Axl,
    Chipp,
    Potemkin,
    Faust,
    Millia,
    Zato,
    Ramlethal,
    Leo,
    Nagoriyuki,
    Giovanna,
    Anji,
    Ino,
    Goldlewis,
    Jacko,
    HappyChaos,
}

/// The number of characters.
pub const CHARACTERS: u8 = 18;

impl Character {
    /// The byte that stands for the character on the wire.
    pub open spec fn code(self) -> u8 {
        match self {
            Character::Sol => 0x00,
            Character::Ky => 0x01,
            Character::May => 0x02,
            Character::Axl => 0x03,
            Character::Chipp => 0x04,
            Character::Potemkin => 0x05,
            Character::Faust => 0x06,
            Character::Millia => 0x07,
            Character::Zato => 0x08,
            Character::Ramlethal => 0x09,
            Character::Leo => 0x0a,
            Character::Nagoriyuki => 0x0b,
            Character::Giovanna => 0x0c,
            Character::Anji => 0x0d,
            Character::Ino => 0x0e,
            Character::Goldlewis => 0x0f,
            Character::Jacko => 0x10,
            Character::HappyChaos => 0x11,
        }
    }

    /// The character that a byte stands for, if any.
    pub open spec fn of_code(code: u8) -> Option<Character> {
        if code == 0x00 {
            Some(Character::Sol)
        } else if code == 0x01 {
            Some(Character::Ky)
        } else if code == 0x02 {
            Some(Character::May)
        } else if code == 0x03 {
            Some(Character::Axl)
        } else if code == 0x04 {
            Some(Character::Chipp)
        } else if code == 0x05 {
            Some(Character::Potemkin)
        } else if code == 0x06 {
            Some(Character::Faust)
        } else if code == 0x07 {
            Some(Character::Millia)
        } else if code == 0x08 {
            Some(Character::Zato)
        } else if code == 0x09 {
            Some(Character::Ramlethal)
        } else if code == 0x0a {
            Some(Character::Leo)
        } else if code == 0x0b {
            Some(Character::Nagoriyuki)
        } else if code == 0x0c {
            Some(Character::Giovanna)
        } else if code == 0x0d {
            Some(Character::Anji)
        } else if code == 0x0e {
            Some(Character::Ino)
        } else if code == 0x0f {
            Some(Character::Goldlewis)
        } else if code == 0x10 {
            Some(Character::Jacko)
        } else if code == 0x11 {
            Some(Character::HappyChaos)
        } else {
            None
        }
    }

    /// The three capital letters by which the text protocol names the
    /// character.
    pub open spec fn short_code(self) -> Seq<char> {
        match self {
            Character::Sol => "SOL"@,
            Character::Ky => "KYK"@,
            Character::May => "MAY"@,
            Character::Axl => "AXL"@,
            Character::Chipp => "CHP"@,
            Character::Potemkin => "POT"@,
            Character::Faust => "FAU"@,
            Character::Millia => "MLL"@,
            Character::Zato => "ZAT"@,
            Character::Ramlethal => "RAM"@,
            Character::Leo => "LEO"@,
            Character::Nagoriyuki => "NAG"@,
            Character::Giovanna => "GIO"@,
            Character::Anji => "ANJ"@,
            Character::Ino => "INO"@,
            Character::Goldlewis => "GLD"@,
            Character::Jacko => "JKO"@,
            Character::HappyChaos => "COS"@,
        }
    }

    /// The character that a short code names, if any.
    pub open spec fn of_short_code(text: Seq<char>) -> Option<Character> {
        if text == Character::Sol.short_code() {
            Some(Character::Sol)
        } else if text == Character::Ky.short_code() {
            Some(Character::Ky)
        } else if text == Character::May.short_code() {
            Some(Character::May)
        } else if text == Character::Axl.short_code() {
            Some(Character::Axl)
        } else if text == Character::Chipp.short_code() {
            Some(Character::Chipp)
        } else if text == Character::Potemkin.short_code() {
            Some(Character::Potemkin)
        } else if text == Character::Faust.short_code() {
            Some(Character::Faust)
        } else if text == Character::Millia.short_code() {
            Some(Character::Millia)
        } else if text == Character::Zato.short_code() {
            Some(Character::Zato)
        } else if text == Character::Ramlethal.short_code() {
            Some(Character::Ramlethal)
        } else if text == Character::Leo.short_code() {
            Some(Character::Leo)
        } else if text == Character::Nagoriyuki.short_code() {
            Some(Character::Nagoriyuki)
        } else if text == Character::Giovanna.short_code() {
            Some(Character::Giovanna)
        } else if text == Character::Anji.short_code() {
            Some(Character::Anji)
        } else if text == Character::Ino.short_code() {
            Some(Character::Ino)
        } else if text == Character::Goldlewis.short_code() {
            Some(Character::Goldlewis)
        } else if text == Character::Jacko.short_code() {
            Some(Character::Jacko)
        } else if text == Character::HappyChaos.short_code() {
            Some(Character::HappyChaos)
        } else {
            None
        }
    }

    /// The character's full name.
    pub open spec fn full_name(self) -> Seq<char> {
        match self {
            Character::Sol => "Sol Badguy"@,
            Character::Ky => "Ky Kiske"@,
            Character::May => "May"@,
            Character::Axl => "Axl Low"@,
            Character::Chipp => "Chipp Zanuff"@,
            Character::Potemkin => "Potemkin"@,
            Character::Faust => "Faust"@,
            Character::Millia => "Millia Rage"@,
            Character::Zato => "Zato=1"@,
            Character::Ramlethal => "Ramlethal Valentine"@,
            Character::Leo => "Leo Whitefang"@,
            Character::Nagoriyuki => "Nagoriyuki"@,
            Character::Giovanna => "Giovanna"@,
            Character::Anji => "Anji Mito"@,
            Character::Ino => "I-no"@,
            Character::Goldlewis => "Goldlewis Dickinson"@,
            Character::Jacko => "Jack-o"@,
            Character::HappyChaos => "Happy Chaos"@,
        }
    }

    /// What [`Character::from_u8`] reports for a byte that is no character:
    /// the byte in lower-case hexadecimal digits.
    pub open spec fn invalid_code_text(code: u8) -> Seq<char> {
        ascii_text(short_hex(code))
    }

    /// Convert a byte into a character.
    pub fn from_u8(c: u8) -> (r: Result<Character, Error>)
        ensures
            match r {
                Ok(character) => Character::of_code(c) == Some(character),
                Err(e) => Character::of_code(c) is None && e@ == ErrorView::InvalidCharacterCode(
                    Character::invalid_code_text(c),
                ),
            },
    {
        match c {
            0x00 => Ok(Character::Sol),
            0x01 => Ok(Character::Ky),
            0x02 => Ok(Character::May),
            0x03 => Ok(Character::Axl),
            0x04 => Ok(Character::Chipp),
            0x05 => Ok(Character::Potemkin),
            0x06 => Ok(Character::Faust),
            0x07 => Ok(Character::Millia),
            0x08 => Ok(Character::Zato),
            0x09 => Ok(Character::Ramlethal),
            0x0a => Ok(Character::Leo),
            0x0b => Ok(Character::Nagoriyuki),
            0x0c => Ok(Character::Giovanna),
            0x0d => Ok(Character::Anji),
            0x0e => Ok(Character::Ino),
            0x0f => Ok(Character::Goldlewis),
            0x10 => Ok(Character::Jacko),
            0x11 => Ok(Character::HappyChaos),
            _ => Err(Error::InvalidCharacterCode(string_from_ascii(short_hex_bytes(c)))),
        }
    }

    /// Convert a character back to its byte.
    pub fn to_u8(&self) -> (code: u8)
        ensures
            code == self.code(),
    {
        match self {
            Character::Sol => 0x00,
            Character::Ky => 0x01,
            Character::May => 0x02,
            Character::Axl => 0x03,
            Character::Chipp => 0x04,
            Character::Potemkin => 0x05,
            Character::Faust => 0x06,
            Character::Millia => 0x07,
            Character::Zato => 0x08,
            Character::Ramlethal => 0x09,
            Character::Leo => 0x0a,
            Character::Nagoriyuki => 0x0b,
            Character::Giovanna => 0x0c,
            Character::Anji => 0x0d,
            Character::Ino => 0x0e,
            Character::Goldlewis => 0x0f,
            Character::Jacko => 0x10,
            Character::HappyChaos => 0x11,
        }
    }

    /// The character's short code.
    pub fn to_code(&self) -> (code: &'static str)
        ensures
            code@ == self.short_code(),
    {
        match self {
            Character::Sol => "SOL",
            Character::Ky => "KYK",
            Character::May => "MAY",
            Character::Axl => "AXL",
            Character::Chipp => "CHP",
            Character::Potemkin => "POT",
            Character::Faust => "FAU",
            Character::Millia => "MLL",
            Character::Zato => "ZAT",
            Character::Ramlethal => "RAM",
            Character::Leo => "LEO",
            Character::Nagoriyuki => "NAG",
            Character::Giovanna => "GIO",
            Character::Anji => "ANJ",
            Character::Ino => "INO",
            Character::Goldlewis => "GLD",
            Character::Jacko => "JKO",
            Character::HappyChaos => "COS",
        }
    }

    /// The character that a short code names.
    pub fn from_code(code: &str) -> (r: Result<Character, Error>)
        ensures
            match r {
                Ok(character) => Character::of_short_code(code@) == Some(character),
                Err(e) => Character::of_short_code(code@) is None && e@
                    == ErrorView::InvalidCharacterCode(code@),
            },
    {
        let mut next: u8 = 0;
        while next < CHARACTERS
            invariant
                next <= CHARACTERS,
                forall|c: Character| c.code() < next ==> code@ != #[trigger] c.short_code(),
            decreases CHARACTERS - next,
        {
            match Character::from_u8(next) {
                Ok(candidate) => {
                    let name = candidate.to_code();
                    proof {
                        encode_utf8_decode_utf8(code@);
                        encode_utf8_decode_utf8(name@);
                    }
                    if same_bytes(code.as_bytes(), name.as_bytes()) {
                        return Ok(candidate);
                    }
                },
                Err(_) => {},
            }
            next = next + 1;
        }
        Err(Error::InvalidCharacterCode(code.to_owned()))
    }

    /// The character's full name.
    pub fn name(&self) -> (name: &'static str)
        ensures
            name@ == self.full_name(),
    {
        match self {
            Character::Sol => "Sol Badguy",
            Character::Ky => "Ky Kiske",
            Character::May => "May",
            Character::Axl => "Axl Low",
            Character::Chipp => "Chipp Zanuff",
            Character::Potemkin => "Potemkin",
            Character::Faust => "Faust",
            Character::Millia => "Millia Rage",
            Character::Zato => "Zato=1",
            Character::Ramlethal => "Ramlethal Valentine",
            Character::Leo => "Leo Whitefang",
            Character::Nagoriyuki => "Nagoriyuki",
            Character::Giovanna => "Giovanna",
            Character::Anji => "Anji Mito",
            Character::Ino => "I-no",
            Character::Goldlewis => "Goldlewis Dickinson",
            Character::Jacko => "Jack-o",
            Character::HappyChaos => "Happy Chaos",
        }
    }
}

/// Every character comes back from its own byte.
pub proof fn lemma_character_round_trip(character: Character)
    ensures
        Character::of_code(character.code()) == Some(character),
{
}

/// A byte stands for a character exactly when it is at most 0x11, and it
/// is then that character's own byte.
pub proof fn lemma_character_codes(code: u8)
    ensures
        Character::of_code(code) is Some <==> code <= 0x11,
        Character::of_code(code) matches Some(character) ==> character.code() == code,
{
}

/// No two characters have the same short code.
pub proof fn lemma_short_codes_differ(a: Character, b: Character)
    requires
        a != b,
    ensures
        a.short_code() != b.short_code(),
{
    reveal_strlit("SOL");
    reveal_strlit("KYK");
    reveal_strlit("MAY");
    reveal_strlit("AXL");
    reveal_strlit("CHP");
    reveal_strlit("POT");
    reveal_strlit("FAU");
    reveal_strlit("MLL");
    reveal_strlit("ZAT");
    reveal_strlit("RAM");
    reveal_strlit("LEO");
    reveal_strlit("NAG");
    reveal_strlit("GIO");
    reveal_strlit("ANJ");
    reveal_strlit("INO");
    reveal_strlit("GLD");
    reveal_strlit("JKO");
    reveal_strlit("COS");
    assert(a.short_code().len() == 3 && b.short_code().len() == 3);
    assert(a.short_code()[0] != b.short_code()[0] || a.short_code()[1] != b.short_code()[1]
        || a.short_code()[2] != b.short_code()[2]);
}

/// Every character comes back from its own short code, and a text that
/// names a character is that character's short code.
pub proof fn lemma_short_code_round_trip(character: Character, text: Seq<char>)
    ensures
        Character::of_short_code(character.short_code()) == Some(character),
        Character::of_short_code(text) == Some(character) ==> text == character.short_code(),
{
    assert forall|other: Character| other != character implies other.short_code()
        != character.short_code() by {
        lemma_short_codes_differ(other, character);
    }
}

} // verus!
