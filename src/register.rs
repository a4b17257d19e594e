use vstd::prelude::*;

use crate::Word;

verus! {

/// Identifier for one of the eight general-purpose registers.
#[derive(Debug, Copy, Clone, PartialEq, Eq, Structural, Hash)]
pub enum Register {
    A,
    B,
    C,
    X,
    Y,
    Z,
    I,
    J,
}

impl Register {
    /// The register's ordinal, `A` = 0 up to `J` = 7.
    pub open spec fn index(self) -> int {
        match self {
            Register::A => 0,
            Register::B => 1,
            Register::C => 2,
            Register::X => 3,
            Register::Y => 4,
            Register::Z => 5,
            Register::I => 6,
            Register::J => 7,
        }
    }

    /// The register with ordinal `i`, for `i` in `0..8`.
    pub open spec fn from_index(i: int) -> Register {
        if i == 0 {
            Register::A
        } else if i == 1 {
            Register::B
        } else if i == 2 {
            Register::C
        } else if i == 3 {
            Register::X
        } else if i == 4 {
            Register::Y
        } else if i == 5 {
            Register::Z
        } else if i == 6 {
            Register::I
        } else {
            Register::J
        }
    }

    /// The ordinal as an index into the register file.
    pub fn ordinal(self) -> (r: usize)
        ensures
            r == self.index(),
            r < 8,
    {
        match self {
            Register::A => 0,
            Register::B => 1,
            Register::C => 2,
            Register::X => 3,
            Register::Y => 4,
            Register::Z => 5,
            Register::I => 6,
            Register::J => 7,
        }
    }

    /// The register with ordinal `i`.
    pub fn with_ordinal(i: u16) -> (r: Register)
        requires
            i < 8,
        ensures
            r == Register::from_index(i as int),
            r.index() == i,
    {
        if i == 0 {
            Register::A
        } else if i == 1 {
            Register::B
        } else if i == 2 {
            Register::C
        } else if i == 3 {
            Register::X
        } else if i == 4 {
            Register::Y
        } else if i == 5 {
            Register::Z
        } else if i == 6 {
            Register::I
        } else {
            Register::J
        }
    }
}

/// The ordinals and the registers correspond one to one.
pub proof fn lemma_register_ordinals(r: Register, i: int)
    ensures
        0 <= r.index() < 8,
        Register::from_index(r.index()) == r,
        0 <= i < 8 ==> Register::from_index(i).index() == i,
{
}

impl From<Word> for Register {
    /// The register whose ordinal is `v` taken modulo eight: the low three bits
    /// of a register field.
    fn from(v: Word) -> (r: Register) {
        Register::with_ordinal(v % 8)
    }
}

impl vstd::std_specs::convert::FromSpecImpl<Word> for Register {
    open spec fn obeys_from_spec() -> bool {
        true
    }

    open spec fn from_spec(v: Word) -> Register {
        Register::from_index((v % 8) as int)
    }
}

} // verus!
