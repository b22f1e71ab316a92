//! The eight general registers and their names.
use crate::text::chars_of;
use crate::text::upper;
use crate::text::upper_exec;
use vstd::prelude::*;

verus! {

/// A general register.
#[derive(Clone, Copy, Debug, PartialEq, Eq, Structural)]
pub enum Register {
    A,
    B,
    C,
    X,
    Y,
    Z,
    I,
    J,
}

impl Register {
    /// The register's index in the register file.
    pub open spec fn number(self) -> u16 {
        match self {
            Register::A => 0,
            Register::B => 1,
            Register::C => 2,
            Register::X => 3,
            Register::Y => 4,
            Register::Z => 5,
            Register::I => 6,
            Register::J => 7,
        }
    }

    /// The register's index in the register file.
    pub fn index(&self) -> (i: u16)
        ensures
            i == self.number(),
            i < 8,
    {
        match *self {
            Register::A => 0,
            Register::B => 1,
            Register::C => 2,
            Register::X => 3,
            Register::Y => 4,
            Register::Z => 5,
            Register::I => 6,
            Register::J => 7,
        }
    }

    /// Finds the register that a token names.
    pub fn from_name(token: &[char]) -> (res: Option<Register>)
        ensures
            res == register_of(token@),
    {
        if token.len() != 1 {
            return None;
        }
        let c = upper_exec(token[0]);
        if c == 'A' {
            Some(Register::A)
        } else if c == 'B' {
            Some(Register::B)
        } else if c == 'C' {
            Some(Register::C)
        } else if c == 'X' {
            Some(Register::X)
        } else if c == 'Y' {
            Some(Register::Y)
        } else if c == 'Z' {
            Some(Register::Z)
        } else if c == 'I' {
            Some(Register::I)
        } else if c == 'J' {
            Some(Register::J)
        } else {
            None
        }
    }
}

/// The register that a token names: one of the letters A, B, C, X, Y,
/// Z, I, J, in either case.
pub open spec fn register_of(token: Seq<char>) -> Option<Register> {
    if token.len() != 1 {
        None
    } else if upper(token[0]) == 'A' {
        Some(Register::A)
    } else if upper(token[0]) == 'B' {
        Some(Register::B)
    } else if upper(token[0]) == 'C' {
        Some(Register::C)
    } else if upper(token[0]) == 'X' {
        Some(Register::X)
    } else if upper(token[0]) == 'Y' {
        Some(Register::Y)
    } else if upper(token[0]) == 'Z' {
        Some(Register::Z)
    } else if upper(token[0]) == 'I' {
        Some(Register::I)
    } else if upper(token[0]) == 'J' {
        Some(Register::J)
    } else {
        None
    }
}

/// Finds the register that a token names.
pub fn try_from(token: &str) -> (res: Option<Register>)
    ensures
        res == register_of(token@),
{
    let chars = chars_of(token);
    Register::from_name(chars.as_slice())
}

} // verus!
