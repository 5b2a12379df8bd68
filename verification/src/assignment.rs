//! Runtime values and operand sources, with the machine's arithmetic.

use vstd::prelude::*;
use vstd::string::{StrSliceExecFns, StringExecFns};
use crate::address::{spec_address_raw, spec_parse_address, Address, TryAdd, TryOperateTypes};
use crate::address::Destination;
use crate::program_error::ParseError;
use crate::text::{dec_of_int, isize_to_dec, parse_isize, spec_parse_isize};

verus! {

/// A runtime value: text, a signed integer, a pointer to a location, or
/// the untyped default every cell starts with.
#[derive(Debug, PartialEq)]
pub enum Type {
    String(String),
    Integer(isize),
    Address(Address),
    Untyped,
}

/// The mathematical shape of a [`Type`]: text as a character sequence.
pub enum TypeView {
    String(Seq<char>),
    Integer(isize),
    Address(Address),
    Untyped,
}

impl View for Type {
    type V = TypeView;

    open spec fn view(&self) -> TypeView {
        match self {
            Type::String(s) => TypeView::String(s@),
            Type::Integer(i) => TypeView::Integer(*i),
            Type::Address(a) => TypeView::Address(*a),
            Type::Untyped => TypeView::Untyped,
        }
    }
}

impl DeepView for Type {
    type V = TypeView;

    open spec fn deep_view(&self) -> TypeView {
        self@
    }
}

impl Clone for Type {
    fn clone(&self) -> (r: Self)
        ensures
            r@ == self@,
    {
        match self {
            Type::String(s) => Type::String(s.clone()),
            Type::Integer(i) => Type::Integer(*i),
            Type::Address(a) => Type::Address(*a),
            Type::Untyped => Type::Untyped,
        }
    }
}

/// The raw textual form of a value: the text itself, a decimal integer,
/// an address's printed form, or empty text for the untyped default.
pub open spec fn spec_raw(t: TypeView) -> Seq<char> {
    match t {
        TypeView::String(s) => s,
        TypeView::Integer(i) => dec_of_int(i as int),
        TypeView::Address(a) => spec_address_raw(a),
        TypeView::Untyped => Seq::empty(),
    }
}

/// The descriptive form of a value, naming its kind.
pub open spec fn spec_display(t: TypeView) -> Seq<char> {
    match t {
        TypeView::String(s) => "String '"@ + s + "'"@,
        TypeView::Integer(i) => "Integer '"@ + dec_of_int(i as int) + "'"@,
        TypeView::Address(a) => "Address '["@ + spec_address_raw(a) + "]'"@,
        TypeView::Untyped => "Untyped"@,
    }
}

/// Failure of a value-level operation.
#[derive(Debug)]
pub enum OperationError {
    /// The two operand values could not be subtracted.
    Subtraction(Type, Type),
    /// Address-level addition failed.
    TryAdd(TryOperateTypes),
    /// A value of the wrong kind was handed to an operation that names
    /// what it expected.
    WrongType { expected: String, actual: String },
}

/// The mathematical shape of an [`OperationError`].
pub enum OperationErrorView {
    Subtraction(TypeView, TypeView),
    TryAdd((Seq<char>, Seq<char>)),
    WrongType { expected: Seq<char>, actual: Seq<char> },
}

impl View for OperationError {
    type V = OperationErrorView;

    open spec fn view(&self) -> OperationErrorView {
        match self {
            OperationError::Subtraction(a, b) => OperationErrorView::Subtraction(a@, b@),
            OperationError::TryAdd(e) => OperationErrorView::TryAdd(e@),
            OperationError::WrongType { expected, actual } => (OperationErrorView::WrongType {
                expected: expected@,
                actual: actual@,
            }),
        }
    }
}

impl Clone for OperationError {
    fn clone(&self) -> (r: Self)
        ensures
            r@ == self@,
    {
        match self {
            OperationError::Subtraction(a, b) => OperationError::Subtraction(a.clone(), b.clone()),
            OperationError::TryAdd(e) => OperationError::TryAdd(e.clone()),
            OperationError::WrongType { expected, actual } => (OperationError::WrongType {
                expected: expected.clone(),
                actual: actual.clone(),
            }),
        }
    }
}

/// The description of a value-level failure.
pub open spec fn spec_operation_error_message(e: OperationErrorView) -> Seq<char> {
    match e {
        OperationErrorView::Subtraction(t1, t2) => "Attempted subtracting two incompatible types: ["@
            + spec_display(t1) + "] - ["@ + spec_display(t2) + "]"@,
        OperationErrorView::TryAdd(p) => "Attempting adding two incompatible types: "@ + "("@ + p.0
            + ", "@ + p.1 + ")"@,
        OperationErrorView::WrongType { expected, actual } => "Type "@ + expected
            + " is expected but the actual value was "@ + actual,
    }
}

impl OperationError {
    /// The human-readable description of the failure.
    pub fn message(&self) -> (m: String)
        ensures
            m@ == spec_operation_error_message(self@),
    {
        match self {
            OperationError::Subtraction(t1, t2) => {
                let d1 = t1.to_display_string();
                let d2 = t2.to_display_string();
                let m = String::from_str("Attempted subtracting two incompatible types: [")
                    .concat(d1.as_str()).concat("] - [").concat(d2.as_str()).concat("]");
                proof {
                    assert(m@ =~= spec_operation_error_message(self@));
                }
                m
            },
            OperationError::TryAdd(e) => {
                let inner = e.message();
                let m = String::from_str("Attempting adding two incompatible types: ").concat(
                    inner.as_str(),
                );
                proof {
                    assert(m@ =~= spec_operation_error_message(self@));
                }
                m
            },
            OperationError::WrongType { expected, actual } => {
                let m = String::from_str("Type ").concat(expected.as_str()).concat(
                    " is expected but the actual value was ",
                ).concat(actual.as_str());
                proof {
                    assert(m@ =~= spec_operation_error_message(self@));
                }
                m
            },
        }
    }
}

/// What adding `a` and `b` yields.
///
/// Integers add with wrapping; a stack slot shifts by an integer or by
/// another stack slot (also wrapping); any other pair of addresses is
/// incompatible; every remaining combination falls back to concatenating
/// the operands' raw textual forms, the untyped default contributing
/// empty text.
pub open spec fn spec_add(a: TypeView, b: TypeView) -> Result<TypeView, OperationErrorView> {
    match (a, b) {
        (TypeView::Integer(o1), TypeView::Integer(o2)) => Ok(
            TypeView::Integer(o1.wrapping_add(o2)),
        ),
        (TypeView::Address(addr), TypeView::Integer(i)) => match addr {
            Address::StackPointer(s) => Ok(
                TypeView::Address(Address::StackPointer(s.wrapping_add_signed(i))),
            ),
            _ => Err(OperationErrorView::TryAdd((spec_address_raw(addr), dec_of_int(i as int)))),
        },
        (TypeView::Address(a1), TypeView::Address(a2)) => match (a1, a2) {
            (Address::StackPointer(i), Address::StackPointer(j)) => Ok(
                TypeView::Address(Address::StackPointer(i.wrapping_add(j))),
            ),
            _ => Err(OperationErrorView::TryAdd((spec_address_raw(a1), spec_address_raw(a2)))),
        },
        _ => Ok(TypeView::String(spec_raw(a) + spec_raw(b))),
    }
}

/// What subtracting `b` from `a` yields: integers and stack slots
/// subtract with wrapping; everything else is rejected with both values.
pub open spec fn spec_sub(a: TypeView, b: TypeView) -> Result<TypeView, OperationErrorView> {
    match (a, b) {
        (TypeView::Integer(o1), TypeView::Integer(o2)) => Ok(
            TypeView::Integer(o1.wrapping_sub(o2)),
        ),
        (
            TypeView::Address(Address::StackPointer(i)),
            TypeView::Address(Address::StackPointer(j)),
        ) => Ok(TypeView::Address(Address::StackPointer(i.wrapping_sub(j)))),
        _ => Err(OperationErrorView::Subtraction(a, b)),
    }
}

impl Type {
    /// Subtracts `other` from `self` per [`spec_sub`].
    pub fn sub(&self, other: &Type) -> (r: Result<Type, OperationError>)
        ensures
            crate::res_view(r) == spec_sub(self@, other@),
    {
        if let (Type::Integer(a), Type::Integer(b)) = (self, other) {
            return Ok(Type::Integer(a.wrapping_sub(*b)));
        }
        if let (
            Type::Address(Address::StackPointer(i)),
            Type::Address(Address::StackPointer(j)),
        ) = (self, other) {
            return Ok(Type::Address(Address::StackPointer(i.wrapping_sub(*j))));
        }
        Err(OperationError::Subtraction(self.clone(), other.clone()))
    }

    /// Adds `other` to `self` per [`spec_add`].
    pub fn add(&self, other: &Type) -> (r: Result<Type, OperationError>)
        ensures
            crate::res_view(r) == spec_add(self@, other@),
    {
        match (self, other) {
            (Type::Integer(o1), Type::Integer(o2)) => Ok(Type::Integer(o1.wrapping_add(*o2))),
            (Type::Address(addr), Type::Integer(i)) => match addr.try_add(i) {
                Ok(a) => Ok(Type::Address(a)),
                Err(e) => Err(OperationError::TryAdd(e)),
            },
            (Type::Address(addr1), Type::Address(addr2)) => match addr1.try_add(addr2) {
                Ok(a) => Ok(Type::Address(a)),
                Err(e) => Err(OperationError::TryAdd(e)),
            },
            _ => {
                let joined = self.to_string_raw().concat(other.to_string_raw().as_str());
                Ok(Type::String(joined))
            },
        }
    }

    /// Renders the value's raw textual form per [`spec_raw`].
    pub fn to_string_raw(&self) -> (s: String)
        ensures
            s@ == spec_raw(self@),
    {
        match self {
            Type::String(a) => a.clone(),
            Type::Integer(a) => isize_to_dec(*a),
            Type::Address(a) => a.to_string_raw(),
            Type::Untyped => String::new(),
        }
    }

    /// Renders the value's descriptive form per [`spec_display`].
    pub fn to_display_string(&self) -> (s: String)
        ensures
            s@ == spec_display(self@),
    {
        match self {
            Type::String(a) => {
                let s = String::from_str("String '").concat(a.as_str()).concat("'");
                proof {
                    assert(s@ =~= spec_display(self@));
                }
                s
            },
            Type::Integer(a) => {
                let digits = isize_to_dec(*a);
                let s = String::from_str("Integer '").concat(digits.as_str()).concat("'");
                proof {
                    assert(s@ =~= spec_display(self@));
                }
                s
            },
            Type::Address(a) => {
                let inner = a.to_string_raw();
                let s = String::from_str("Address '[").concat(inner.as_str()).concat("]'");
                proof {
                    assert(s@ =~= spec_display(self@));
                }
                s
            },
            Type::Untyped => String::from_str("Untyped"),
        }
    }
}

/// The source of an operand value: a literal, or a location to read.
#[derive(Debug, PartialEq)]
pub enum Assignment {
    Value(Type),
    Address(Address),
}

/// The mathematical shape of an [`Assignment`].
pub enum AssignmentView {
    Value(TypeView),
    Address(Address),
}

impl View for Assignment {
    type V = AssignmentView;

    open spec fn view(&self) -> AssignmentView {
        match self {
            Assignment::Value(t) => AssignmentView::Value(t@),
            Assignment::Address(a) => AssignmentView::Address(*a),
        }
    }
}

impl Clone for Assignment {
    fn clone(&self) -> (r: Self)
        ensures
            r@ == self@,
    {
        match self {
            Assignment::Value(t) => Assignment::Value(t.clone()),
            Assignment::Address(a) => Assignment::Address(*a),
        }
    }
}

/// The operand that reads directly from a reference target.
pub open spec fn spec_assignment_of_destination(d: Destination) -> Assignment {
    match d {
        Destination::Register(r) => Assignment::Address(Address::Register(r)),
        Destination::StackPointer(s) => Assignment::Address(Address::StackPointer(s)),
    }
}

impl From<Destination> for Assignment {
    fn from(destination: Destination) -> Self {
        match destination {
            Destination::Register(register) => Assignment::Address(Address::Register(register)),
            Destination::StackPointer(s) => Assignment::Address(Address::StackPointer(s)),
        }
    }
}

impl vstd::std_specs::convert::FromSpecImpl<Destination> for Assignment {
    open spec fn obeys_from_spec() -> bool {
        true
    }

    open spec fn from_spec(d: Destination) -> Assignment {
        spec_assignment_of_destination(d)
    }
}

/// The descriptive form of an operand: its value's descriptive form, or
/// an address's printed form.
pub open spec fn spec_assignment_display(a: AssignmentView) -> Seq<char> {
    match a {
        AssignmentView::Value(t) => spec_display(t),
        AssignmentView::Address(ad) => spec_address_raw(ad),
    }
}

/// The operand denoted by the token `t`: an address, a signed decimal
/// integer literal, or double-quoted text.
pub open spec fn spec_parse_assignment(t: Seq<char>) -> Option<AssignmentView> {
    if spec_parse_address(t) is Some {
        Some(AssignmentView::Address(spec_parse_address(t)->Some_0))
    } else if spec_parse_isize(t) is Some {
        Some(AssignmentView::Value(TypeView::Integer(spec_parse_isize(t)->Some_0)))
    } else if t.len() >= 2 && t[0] == '"' && t[t.len() - 1] == '"' && (forall|i: int|
        1 <= i < t.len() - 1 ==> t[i] != '"') {
        Some(AssignmentView::Value(TypeView::String(t.subrange(1, t.len() - 1))))
    } else {
        None
    }
}

impl Assignment {
    /// Renders the operand in its descriptive form.
    pub fn to_display_string(&self) -> (s: String)
        ensures
            s@ == spec_assignment_display(self@),
    {
        match self {
            Assignment::Value(t) => t.to_display_string(),
            Assignment::Address(a) => a.to_string_raw(),
        }
    }

    /// Parses one token as an operand.
    pub fn parse(s: &str) -> (r: Result<Assignment, ParseError>)
        ensures
            r is Ok <==> spec_parse_assignment(s@) is Some,
            r matches Ok(a) ==> Some(a@) == spec_parse_assignment(s@),
    {
        if let Ok(destination) = Address::parse(s) {
            return Ok(Assignment::Address(destination));
        }
        if let Some(value) = parse_isize(s) {
            return Ok(Assignment::Value(Type::Integer(value)));
        }
        let n = s.unicode_len();
        if n >= 2 && s.get_char(0) == '"' && s.get_char(n - 1) == '"' {
            let mut i: usize = 1;
            let mut clean = true;
            while i < n - 1
                invariant
                    1 <= i <= n - 1,
                    2 <= n == s@.len(),
                    clean <==> (forall|j: int| 1 <= j < i ==> s@[j] != '"'),
                decreases n - 1 - i,
            {
                if s.get_char(i) == '"' {
                    clean = false;
                }
                i = i + 1;
            }
            if clean {
                let inner = s.substring_char(1, n - 1);
                proof {
                    assert(inner@ =~= s@.subrange(1, s@.len() - 1));
                }
                return Ok(Assignment::Value(Type::String(String::from_str(inner))));
            }
        }
        Err(ParseError::new("cannot be parsed as an assignment"))
    }
}

} // verus!
