//! Reading a task id from a command token.
//!
//! An id is written as decimal digits, with one optional `+` in front. The
//! token is read from left to right and the first thing that goes wrong
//! decides the failure.

use vstd::prelude::*;
use vstd::std_specs::iter::IteratorSpec;

verus! {

/// Why a token is not an id.
#[derive(Clone, Copy, Debug, PartialEq, Eq)]
pub enum ParseFailure {
    /// The token holds no character at all.
    Empty,
    /// The token holds something other than a digit, or only a sign.
    InvalidDigit,
    /// The digits name a number above `u64::MAX`.
    PosOverflow,
}

impl ParseFailure {
    /// The text shown for the failure.
    pub open spec fn message_text(self) -> Seq<char> {
        match self {
            ParseFailure::Empty => "cannot parse integer from empty string"@,
            ParseFailure::InvalidDigit => "invalid digit found in string"@,
            ParseFailure::PosOverflow => "number too large to fit in target type"@,
        }
    }

    /// The text shown for the failure.
    pub fn message(&self) -> (text: &'static str)
        ensures
            text@ == self.message_text(),
    {
        match self {
            ParseFailure::Empty => "cannot parse integer from empty string",
            ParseFailure::InvalidDigit => "invalid digit found in string",
            ParseFailure::PosOverflow => "number too large to fit in target type",
        }
    }
}

/// The value of a decimal digit, if the character is one.
pub open spec fn digit_value(c: char) -> Option<nat> {
    if c == '0' {
        Some(0)
    } else if c == '1' {
        Some(1)
    } else if c == '2' {
        Some(2)
    } else if c == '3' {
        Some(3)
    } else if c == '4' {
        Some(4)
    } else if c == '5' {
        Some(5)
    } else if c == '6' {
        Some(6)
    } else if c == '7' {
        Some(7)
    } else if c == '8' {
        Some(8)
    } else if c == '9' {
        Some(9)
    } else {
        None
    }
}

/// Reads `digits` from left to right on top of the value `so_far` of what was
/// read before them.
pub open spec fn read_digits(digits: Seq<char>, so_far: nat) -> Result<nat, ParseFailure>
    decreases digits.len(),
{
    if digits.len() == 0 {
        Ok(so_far)
    } else {
        match digit_value(digits[0]) {
            None => Err(ParseFailure::InvalidDigit),
            Some(d) => if so_far * 10 + d > u64::MAX {
                Err(ParseFailure::PosOverflow)
            } else {
                read_digits(digits.drop_first(), so_far * 10 + d)
            },
        }
    }
}

/// The id that a token names, or why it names none.
pub open spec fn id_of(token: Seq<char>) -> Result<nat, ParseFailure> {
    if token.len() == 0 {
        Err(ParseFailure::Empty)
    } else if token[0] == '+' {
        if token.len() == 1 {
            Err(ParseFailure::InvalidDigit)
        } else {
            read_digits(token.drop_first(), 0)
        }
    } else {
        read_digits(token, 0)
    }
}

/// The value of a decimal digit, if the character is one.
pub fn digit_of(c: char) -> (d: Option<u64>)
    ensures
        match d {
            Some(v) => v < 10 && digit_value(c) == Some(v as nat),
            None => digit_value(c) is None,
        },
{
    match c {
        '0' => Some(0),
        '1' => Some(1),
        '2' => Some(2),
        '3' => Some(3),
        '4' => Some(4),
        '5' => Some(5),
        '6' => Some(6),
        '7' => Some(7),
        '8' => Some(8),
        '9' => Some(9),
        _ => None,
    }
}

/// Reads a task id from a token.
pub fn parse_id(token: &str) -> (id: Result<u64, ParseFailure>)
    ensures
        match id {
            Ok(v) => id_of(token@) == Ok::<nat, ParseFailure>(v as nat),
            Err(e) => id_of(token@) == Err::<nat, ParseFailure>(e),
        },
{
    broadcast use vstd::string::group_string_axioms;

    let mut rest = token.chars();
    let mut current: char = match rest.next() {
        None => {
            return Err(ParseFailure::Empty);
        },
        Some(c) => c,
    };
    let ghost mut at: int = 0;
    if current == '+' {
        match rest.next() {
            None => {
                return Err(ParseFailure::InvalidDigit);
            },
            Some(c) => {
                current = c;
            },
        }
        proof {
            at = 1;
            assert(token@.skip(0).drop_first() == token@.skip(1));
            assert(token@.drop_first() == token@.skip(1));
        }
    } else {
        proof {
            assert(token@.skip(0) == token@);
        }
    }
    let mut value: u64 = 0;
    loop
        invariant
            0 <= at < token@.len(),
            current == token@[at],
            rest.obeys_prophetic_iter_laws(),
            rest.remaining() == token@.skip(at + 1),
            id_of(token@) == read_digits(token@.skip(at), value as nat),
        decreases token@.len() - at,
    {
        proof {
            assert(token@.skip(at).drop_first() == token@.skip(at + 1));
        }
        let d: u64 = match digit_of(current) {
            None => {
                return Err(ParseFailure::InvalidDigit);
            },
            Some(d) => d,
        };
        if value > (u64::MAX - d) / 10 {
            return Err(ParseFailure::PosOverflow);
        }
        value = value * 10 + d;
        match rest.next() {
            None => {
                assert(read_digits(token@.skip(at + 1), value as nat) == Ok::<nat, ParseFailure>(
                    value as nat,
                ));
                return Ok(value);
            },
            Some(c) => {
                current = c;
            },
        }
        proof {
            assert(token@.skip(at + 1).drop_first() == token@.skip(at + 2));
            at = at + 1;
        }
    }
}

} // verus!
