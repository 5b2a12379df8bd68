//! Storage locations: registers, stack slots, and one-level references.

use vstd::prelude::*;
use vstd::string::{StrSliceExecFns, StringExecFns};
use crate::program_error::ParseError;
use crate::register::{spec_register_name, Register};
use crate::text::{dec_of, dec_of_int, dec_val, isize_to_dec, parse_usize, str_eq,
    usize_numeral, usize_to_dec};

verus! {

/// Where a value lives or is read from: a register, a stack slot, or a
/// one-level reference to another location.
#[derive(Debug, Clone, Copy, PartialEq, Eq, Structural)]
pub enum Address {
    Register(Register),
    StackPointer(usize),
    Reference(Destination),
}

/// The target of a reference: registers and stack slots only, so that
/// indirection is exactly one level deep by construction.
#[derive(Debug, Clone, Copy, PartialEq, Eq, Structural)]
pub enum Destination {
    Register(Register),
    StackPointer(usize),
}

/// The printed form of a reference target: the register name, or the slot
/// index in `0x`-prefixed decimal.
pub open spec fn spec_dest_raw(d: Destination) -> Seq<char> {
    match d {
        Destination::Register(r) => spec_register_name(r),
        Destination::StackPointer(s) => "0x"@ + dec_of(s as nat),
    }
}

/// The printed form of an address.  It deliberately differs from the source
/// syntax: a stack slot prints as `0x` followed by a decimal index.
pub open spec fn spec_address_raw(a: Address) -> Seq<char> {
    match a {
        Address::Register(r) => spec_register_name(r),
        Address::StackPointer(s) => "0x"@ + dec_of(s as nat),
        Address::Reference(d) => spec_dest_raw(d),
    }
}

impl Destination {
    /// Renders the reference target in its printed form.
    pub fn to_string_raw(&self) -> (s: String)
        ensures
            s@ == spec_dest_raw(*self),
    {
        match self {
            Destination::Register(r) => String::from_str(r.name()),
            Destination::StackPointer(i) => {
                let digits = usize_to_dec(*i);
                let s = String::from_str("0x").concat(digits.as_str());
                proof {
                    assert(s@ =~= spec_dest_raw(*self));
                }
                s
            },
        }
    }
}

/// Collapses a parsed address into a reference target: wrapping an already
/// indirect address keeps a single level of indirection.
pub open spec fn spec_as_reference(a: Address) -> Destination {
    match a {
        Address::Register(r) => Destination::Register(r),
        Address::StackPointer(s) => Destination::StackPointer(s),
        Address::Reference(d) => d,
    }
}

/// The address denoted by the token `t`, if any.
///
/// The grammar: `sp` is stack slot 0; `sp[N]` with a decimal `N` is a stack
/// slot; `[X]` is a one-level reference to the address `X`; `rax`, `rbx`
/// and `rcx` are the registers.
pub open spec fn spec_parse_address(t: Seq<char>) -> Option<Address>
    decreases t.len(),
{
    if t == "sp"@ {
        Some(Address::StackPointer(0))
    } else if t.len() >= 2 && t[0] == '[' && t[t.len() - 1] == ']' {
        match spec_parse_address(t.subrange(1, t.len() - 1)) {
            Some(a) => Some(Address::Reference(spec_as_reference(a))),
            None => None,
        }
    } else if t.len() >= 4 && t[0] == 's' && t[1] == 'p' && t[2] == '[' && t[t.len() - 1] == ']' {
        let digits = t.subrange(3, t.len() - 1);
        if usize_numeral(digits) {
            Some(Address::StackPointer(dec_val(digits) as usize))
        } else {
            None
        }
    } else if t == "rax"@ {
        Some(Address::Register(Register::Rax))
    } else if t == "rbx"@ {
        Some(Address::Register(Register::Rbx))
    } else if t == "rcx"@ {
        Some(Address::Register(Register::Rcx))
    } else {
        None
    }
}

impl Address {
    /// Renders the address in its printed form.
    pub fn to_string_raw(&self) -> (s: String)
        ensures
            s@ == spec_address_raw(*self),
    {
        match self {
            Address::Register(r) => String::from_str(r.name()),
            Address::StackPointer(i) => {
                let digits = usize_to_dec(*i);
                let s = String::from_str("0x").concat(digits.as_str());
                proof {
                    assert(s@ =~= spec_address_raw(*self));
                }
                s
            },
            Address::Reference(d) => d.to_string_raw(),
        }
    }

    /// Parses one token as an address.
    pub fn parse(s: &str) -> (r: Result<Address, ParseError>)
        ensures
            r is Ok <==> spec_parse_address(s@) is Some,
            r matches Ok(a) ==> spec_parse_address(s@) == Some(a),
        decreases s@.len(),
    {
        let n = s.unicode_len();
        if str_eq(s, "sp") {
            return Ok(Address::StackPointer(0));
        }
        if n >= 2 && s.get_char(0) == '[' && s.get_char(n - 1) == ']' {
            let inner = s.substring_char(1, n - 1);
            proof {
                assert(inner@ =~= s@.subrange(1, s@.len() - 1));
            }
            return match Self::parse(inner) {
                Ok(a) => Ok(Address::Reference(a.as_reference())),
                Err(e) => Err(e),
            };
        }
        if n >= 4 && s.get_char(0) == 's' && s.get_char(1) == 'p' && s.get_char(2) == '['
            && s.get_char(n - 1) == ']' {
            let digits = s.substring_char(3, n - 1);
            proof {
                assert(digits@ =~= s@.subrange(3, s@.len() - 1));
            }
            return match parse_usize(digits) {
                Some(v) => Ok(Address::StackPointer(v)),
                None => Err(ParseError::new("Cannot parse value: invalid stack slot index")),
            };
        }
        if str_eq(s, "rax") {
            return Ok(Address::Register(Register::Rax));
        }
        if str_eq(s, "rbx") {
            return Ok(Address::Register(Register::Rbx));
        }
        if str_eq(s, "rcx") {
            return Ok(Address::Register(Register::Rcx));
        }
        Err(ParseError::new("Address unknown"))
    }

    /// Collapses this address into a reference target.
    pub fn as_reference(&self) -> (d: Destination)
        ensures
            d == spec_as_reference(*self),
    {
        match self {
            Address::Register(r) => Destination::Register(*r),
            Address::StackPointer(s) => Destination::StackPointer(*s),
            Address::Reference(d) => *d,
        }
    }
}

/// The printed form of an address is not address syntax: a parsed stack
/// slot prints as `0x`-prefixed decimal, which the grammar rejects, so no
/// round trip between a parsed address and its printed form is promised.
/// Slot 3 is a witness.
pub proof fn lemma_printed_form_not_reparseable()
    ensures
        spec_parse_address(spec_address_raw(Address::StackPointer(3))) is None,
{
    reveal_strlit("0x");
    reveal_strlit("sp");
    reveal_strlit("rax");
    reveal_strlit("rbx");
    reveal_strlit("rcx");
    let printed = spec_address_raw(Address::StackPointer(3));
    assert(printed =~= seq!['0', 'x', '3']);
    assert(printed != "sp"@);
    assert(printed[0] != '[');
    assert(printed != "rax"@);
    assert(printed != "rbx"@);
    assert(printed != "rcx"@);
}

/// Failure of an address-level arithmetic operation, carrying the printed
/// forms of the two operands.
#[derive(Debug)]
pub enum TryOperateTypes {
    IncompatibleTypes(String, String),
}

impl Clone for TryOperateTypes {
    fn clone(&self) -> (r: Self)
        ensures
            r@ == self@,
    {
        match self {
            TryOperateTypes::IncompatibleTypes(a, b) => TryOperateTypes::IncompatibleTypes(
                a.clone(),
                b.clone(),
            ),
        }
    }
}

impl View for TryOperateTypes {
    type V = (Seq<char>, Seq<char>);

    closed spec fn view(&self) -> (Seq<char>, Seq<char>) {
        match self {
            TryOperateTypes::IncompatibleTypes(a, b) => (a@, b@),
        }
    }
}

impl TryOperateTypes {
    /// The diagnostic: the two operands' printed forms in parentheses.
    pub fn message(&self) -> (m: String)
        ensures
            m@ == "("@ + self@.0 + ", "@ + self@.1 + ")"@,
    {
        match self {
            TryOperateTypes::IncompatibleTypes(a, b) => {
                let m = String::from_str("(").concat(a.as_str()).concat(", ").concat(
                    b.as_str(),
                ).concat(")");
                proof {
                    assert(m@ =~= "("@ + self@.0 + ", "@ + self@.1 + ")"@);
                }
                m
            },
        }
    }
}

/// Fallible addition, for operand pairs that are only sometimes compatible.
pub trait TryAdd<T> {
    type Output;

    type Error;

    /// What `try_add` promises of its result.
    spec fn try_add_ens(&self, other: &T, r: Result<Self::Output, Self::Error>) -> bool;

    /// Adds `other` to `self`, when the two operands are compatible.
    fn try_add(&self, other: &T) -> (r: Result<Self::Output, Self::Error>)
        ensures
            self.try_add_ens(other, r),
    ;
}

impl TryAdd<Address> for Address {
    type Output = Address;

    type Error = TryOperateTypes;

    /// Two stack slots add index-wise (wrapping); every other combination
    /// fails, reporting both printed forms.
    open spec fn try_add_ens(&self, other: &Address, r: Result<Address, TryOperateTypes>) -> bool {
        match (*self, *other) {
            (Address::StackPointer(i), Address::StackPointer(j)) => (r matches Ok(a)
                && a == Address::StackPointer(i.wrapping_add(j))),
            _ => (r matches Err(e) && e@ == (spec_address_raw(*self), spec_address_raw(*other))),
        }
    }

    fn try_add(&self, other: &Address) -> (r: Result<Address, TryOperateTypes>) {
        match (self, other) {
            (Address::StackPointer(i), Address::StackPointer(j)) => Ok(
                Address::StackPointer(i.wrapping_add(*j)),
            ),
            _ => Err(
                TryOperateTypes::IncompatibleTypes(self.to_string_raw(), other.to_string_raw()),
            ),
        }
    }
}

impl TryAdd<isize> for Address {
    type Output = Address;

    type Error = TryOperateTypes;

    /// A stack slot shifts by a signed offset (wrapping); adding an integer
    /// to a register or reference fails.
    open spec fn try_add_ens(&self, other: &isize, r: Result<Address, TryOperateTypes>) -> bool {
        match *self {
            Address::StackPointer(i) => (r matches Ok(a)
                && a == Address::StackPointer(i.wrapping_add_signed(*other))),
            _ => (r matches Err(e) && e@ == (
                spec_address_raw(*self),
                dec_of_int(*other as int),
            )),
        }
    }

    fn try_add(&self, other: &isize) -> (r: Result<Address, TryOperateTypes>) {
        match self {
            Address::StackPointer(i) => Ok(Address::StackPointer(i.wrapping_add_signed(*other))),
            _ => Err(TryOperateTypes::IncompatibleTypes(self.to_string_raw(), isize_to_dec(*other))),
        }
    }
}

} // verus!
