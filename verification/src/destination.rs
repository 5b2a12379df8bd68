//! A write-target form of location used on its own: a register or a stack
//! slot, parsed directly from a token.

use vstd::prelude::*;
use vstd::string::{StrSliceExecFns, StringExecFns};
use crate::program_error::ParseError;
use crate::register::{spec_register_name, Register};
use crate::text::{dec_of, dec_val, parse_usize, str_eq, usize_numeral, usize_to_dec};

verus! {

/// A directly addressable cell: a register or a stack slot.
#[derive(Debug, Clone, Copy, PartialEq, Eq, Structural)]
pub enum Destination {
    Register(Register),
    StackPointer(usize),
}

/// The printed form: the register name, or `Stack[i]`.
pub open spec fn spec_destination_display(d: Destination) -> Seq<char> {
    match d {
        Destination::Register(r) => spec_register_name(r),
        Destination::StackPointer(s) => "Stack["@ + dec_of(s as nat) + "]"@,
    }
}

/// The cell denoted by the token `t`: `sp[N]` or a register name.
pub open spec fn spec_parse_destination(t: Seq<char>) -> Option<Destination> {
    if t.len() >= 4 && t[0] == 's' && t[1] == 'p' && t[2] == '[' && t[t.len() - 1] == ']' {
        let digits = t.subrange(3, t.len() - 1);
        if usize_numeral(digits) {
            Some(Destination::StackPointer(dec_val(digits) as usize))
        } else {
            None
        }
    } else if t == "rax"@ {
        Some(Destination::Register(Register::Rax))
    } else if t == "rbx"@ {
        Some(Destination::Register(Register::Rbx))
    } else if t == "rcx"@ {
        Some(Destination::Register(Register::Rcx))
    } else {
        None
    }
}

impl Destination {
    /// Renders the cell in its printed form.
    pub fn to_display_string(&self) -> (s: String)
        ensures
            s@ == spec_destination_display(*self),
    {
        match self {
            Destination::Register(r) => String::from_str(r.name()),
            Destination::StackPointer(i) => {
                let digits = usize_to_dec(*i);
                let s = String::from_str("Stack[").concat(digits.as_str()).concat("]");
                proof {
                    assert(s@ =~= spec_destination_display(*self));
                }
                s
            },
        }
    }

    /// Parses one token as a directly addressable cell.
    pub fn parse(s: &str) -> (r: Result<Destination, ParseError>)
        ensures
            r is Ok <==> spec_parse_destination(s@) is Some,
            r matches Ok(d) ==> spec_parse_destination(s@) == Some(d),
    {
        let n = s.unicode_len();
        if n >= 4 && s.get_char(0) == 's' && s.get_char(1) == 'p' && s.get_char(2) == '['
            && s.get_char(n - 1) == ']' {
            let digits = s.substring_char(3, n - 1);
            proof {
                assert(digits@ =~= s@.subrange(3, s@.len() - 1));
            }
            return match parse_usize(digits) {
                Some(v) => Ok(Destination::StackPointer(v)),
                None => Err(ParseError::new("Cannot parse value: invalid stack slot index")),
            };
        }
        if str_eq(s, "rax") {
            return Ok(Destination::Register(Register::Rax));
        }
        if str_eq(s, "rbx") {
            return Ok(Destination::Register(Register::Rbx));
        }
        if str_eq(s, "rcx") {
            return Ok(Destination::Register(Register::Rcx));
        }
        Err(ParseError::new("Destination unknown"))
    }
}

} // verus!
