use vstd::prelude::*;

verus! {

/// One of the three named machine registers.
///
/// The register set is closed: every consumer matches on it exhaustively,
/// so there is no dynamic register allocation anywhere in the machine.
#[derive(Debug, Clone, Copy, PartialEq, Eq, Structural)]
pub enum Register {
    Rax,
    Rbx,
    Rcx,
}

/// The register's name as it is written in source programs.
pub open spec fn spec_register_name(r: Register) -> Seq<char> {
    match r {
        Register::Rax => "rax"@,
        Register::Rbx => "rbx"@,
        Register::Rcx => "rcx"@,
    }
}

impl Register {
    /// The source-form name of the register.
    pub fn name(&self) -> (s: &'static str)
        ensures
            s@ == spec_register_name(*self),
    {
        match self {
            Register::Rax => "rax",
            Register::Rbx => "rbx",
            Register::Rcx => "rcx",
        }
    }
}

} // verus!
