use vstd::prelude::*;

verus! {

/// One of the sixteen 8-bit general purpose registers V0..VF.
#[derive(Debug, Clone, Copy, PartialEq, Eq, Structural)]
pub enum Register {
    V0,
    V1,
    V2,
    V3,
    V4,
    V5,
    V6,
    V7,
    V8,
    V9,
    VA,
    VB,
    VC,
    VD,
    VE,
    /// Also used as the flag register.
    VF,
}

impl Register {
    /// The 4-bit index of the register.
    pub open spec fn spec_index(self) -> u8 {
        match self {
            Register::V0 => 0,
            Register::V1 => 1,
            Register::V2 => 2,
            Register::V3 => 3,
            Register::V4 => 4,
            Register::V5 => 5,
            Register::V6 => 6,
            Register::V7 => 7,
            Register::V8 => 8,
            Register::V9 => 9,
            Register::VA => 0xA,
            Register::VB => 0xB,
            Register::VC => 0xC,
            Register::VD => 0xD,
            Register::VE => 0xE,
            Register::VF => 0xF,
        }
    }

    /// The register whose index is the low nibble of `i`.
    pub open spec fn spec_from_index(i: u8) -> Register {
        let n = i % 16;
        if n == 0 {
            Register::V0
        } else if n == 1 {
            Register::V1
        } else if n == 2 {
            Register::V2
        } else if n == 3 {
            Register::V3
        } else if n == 4 {
            Register::V4
        } else if n == 5 {
            Register::V5
        } else if n == 6 {
            Register::V6
        } else if n == 7 {
            Register::V7
        } else if n == 8 {
            Register::V8
        } else if n == 9 {
            Register::V9
        } else if n == 0xA {
            Register::VA
        } else if n == 0xB {
            Register::VB
        } else if n == 0xC {
            Register::VC
        } else if n == 0xD {
            Register::VD
        } else if n == 0xE {
            Register::VE
        } else {
            Register::VF
        }
    }

    pub fn index(self) -> (r: u8)
        ensures
            r == self.spec_index(),
            r < 16,
    {
        match self {
            Register::V0 => 0,
            Register::V1 => 1,
            Register::V2 => 2,
            Register::V3 => 3,
            Register::V4 => 4,
            Register::V5 => 5,
            Register::V6 => 6,
            Register::V7 => 7,
            Register::V8 => 8,
            Register::V9 => 9,
            Register::VA => 0xA,
            Register::VB => 0xB,
            Register::VC => 0xC,
            Register::VD => 0xD,
            Register::VE => 0xE,
            Register::VF => 0xF,
        }
    }

    /// The register with the given 4-bit index.
    pub fn from_index(i: u8) -> (r: Register)
        requires
            i < 16,
        ensures
            r == Register::spec_from_index(i),
            r.spec_index() == i,
    {
        match i {
            0 => Register::V0,
            1 => Register::V1,
            2 => Register::V2,
            3 => Register::V3,
            4 => Register::V4,
            5 => Register::V5,
            6 => Register::V6,
            7 => Register::V7,
            8 => Register::V8,
            9 => Register::V9,
            0xA => Register::VA,
            0xB => Register::VB,
            0xC => Register::VC,
            0xD => Register::VD,
            0xE => Register::VE,
            _ => Register::VF,
        }
    }
}

/// Every register's index is a nibble, and the index determines the register.
pub proof fn lemma_register_index(r: Register)
    ensures
        r.spec_index() < 16,
        Register::spec_from_index(r.spec_index()) == r,
{
}

/// Reading a nibble as a register and back gives the nibble.
pub proof fn lemma_register_from_index(i: u8)
    requires
        i < 16,
    ensures
        Register::spec_from_index(i).spec_index() == i,
{
}

impl From<Register> for u8 {
    fn from(value: Register) -> (r: u8) {
        value.index()
    }
}

impl vstd::std_specs::convert::FromSpecImpl<Register> for u8 {
    open spec fn obeys_from_spec() -> bool {
        true
    }

    open spec fn from_spec(v: Register) -> u8 {
        v.spec_index()
    }
}

} // verus!
