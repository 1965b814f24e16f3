//! The two characters that a text uses for its dead and its alive cells.

use crate::text::{chars_of, trim, trimmed};
use vstd::prelude::*;

verus! {

#[derive(Debug, Clone, Copy, PartialEq, Eq, Structural)]
pub enum InvalidCharCell {
    /// The text for the dead cell is not one character.
    TooLongForDead,
    /// The text for the alive cell is not one character.
    TooLongForAlive,
}

pub struct DeadAliveCharCell {
    alive: char,
    dead: char,
}

/// The character that `input` comes down to once the white space around it is gone, if
/// it is exactly one.
pub open spec fn only_char(input: Seq<char>) -> Option<char> {
    if trimmed(input).len() == 1 {
        Some(trimmed(input)[0])
    } else {
        None
    }
}

pub fn get_only_first_char(input: &str) -> (found: Option<char>)
    ensures
        found == only_char(input@),
{
    let chars = chars_of(input);
    let (start, end) = trim(&chars);
    if end - start == 1 {
        Some(chars[start])
    } else {
        None
    }
}

impl DeadAliveCharCell {
    pub closed spec fn spec_alive(&self) -> char {
        self.alive
    }

    pub closed spec fn spec_dead(&self) -> char {
        self.dead
    }

    /// Succeeds exactly when each text is one character with white space around it at
    /// most; where both are not, the dead one is reported.
    pub fn new(dead: &str, alive: &str) -> (result: Result<Self, InvalidCharCell>)
        ensures
            match result {
                Ok(cells) => only_char(dead@) == Some(cells.spec_dead()) && only_char(alive@)
                    == Some(cells.spec_alive()),
                Err(InvalidCharCell::TooLongForDead) => only_char(dead@) is None,
                Err(InvalidCharCell::TooLongForAlive) => only_char(dead@) is Some && only_char(
                    alive@,
                ) is None,
            },
    {
        let dead = match get_only_first_char(dead) {
            Some(dead) => dead,
            None => return Err(InvalidCharCell::TooLongForDead),
        };
        let alive = match get_only_first_char(alive) {
            Some(alive) => alive,
            None => return Err(InvalidCharCell::TooLongForAlive),
        };
        Ok(Self { dead, alive })
    }

    pub fn alive(&self) -> (alive: char)
        ensures
            alive == self.spec_alive(),
    {
        self.alive
    }

    pub fn dead(&self) -> (dead: char)
        ensures
            dead == self.spec_dead(),
    {
        self.dead
    }
}

} // verus!
