//! The machine state: three registers, a fixed-length stack of values,
//! and the stack of call frames, with bounds-checked typed access.

use vstd::prelude::*;
use vstd::string::StringExecFns;
use crate::address::{Address, Destination};
use crate::assignment::{
    spec_assignment_display, Assignment, AssignmentView, OperationError, OperationErrorView, Type,
    TypeView,
};
use crate::interpreter::{RegisterMemory, StackFrame};
use crate::register::Register;

verus! {

/// The live machine state.
#[derive(Debug)]
pub struct Memory {
    pub rax: Type,
    pub rbx: Type,
    pub rcx: Type,
    /// The call frames, innermost last.
    pub stack_frame: Vec<StackFrame>,
    /// The fixed-length addressable stack.
    pub stack: Vec<Type>,
}

/// The mathematical shape of the machine state.
#[verifier::ext_equal]
pub struct MemoryView {
    pub rax: TypeView,
    pub rbx: TypeView,
    pub rcx: TypeView,
    pub stack_frame: Seq<crate::interpreter::StackFrameView>,
    pub stack: Seq<TypeView>,
}

impl View for Memory {
    type V = MemoryView;

    open spec fn view(&self) -> MemoryView {
        MemoryView {
            rax: self.rax@,
            rbx: self.rbx@,
            rcx: self.rcx@,
            stack_frame: self.stack_frame.deep_view(),
            stack: self.stack.deep_view(),
        }
    }
}

/// A fault raised by reading, writing, or operating on values.
#[derive(Debug)]
pub enum MemoryError {
    /// The destination cannot be written (out-of-bounds slot).
    Write(Address),
    /// The operand cannot be read (out-of-bounds slot, or a value unfit
    /// to serve as an indirect target).
    Read(Assignment),
    /// An indirect target went through a register or a second reference.
    SegmentationFault(String),
    /// A value-level operation failed.
    OperationError(OperationError),
}

/// The mathematical shape of a [`MemoryError`].
pub enum MemoryErrorView {
    Write(Address),
    Read(AssignmentView),
    SegmentationFault(Seq<char>),
    OperationError(OperationErrorView),
}

impl View for MemoryError {
    type V = MemoryErrorView;

    open spec fn view(&self) -> MemoryErrorView {
        match self {
            MemoryError::Write(d) => MemoryErrorView::Write(*d),
            MemoryError::Read(a) => MemoryErrorView::Read(a@),
            MemoryError::SegmentationFault(m) => MemoryErrorView::SegmentationFault(m@),
            MemoryError::OperationError(o) => MemoryErrorView::OperationError(o@),
        }
    }
}

/// The value a register holds in `m`.
pub open spec fn spec_reg(m: MemoryView, r: Register) -> TypeView {
    match r {
        Register::Rax => m.rax,
        Register::Rbx => m.rbx,
        Register::Rcx => m.rcx,
    }
}

/// `m` with register `r` set to `v`.
pub open spec fn spec_with_reg(m: MemoryView, r: Register, v: TypeView) -> MemoryView {
    match r {
        Register::Rax => MemoryView { rax: v, ..m },
        Register::Rbx => MemoryView { rbx: v, ..m },
        Register::Rcx => MemoryView { rcx: v, ..m },
    }
}

/// Depth of indirection of an address: a reference counts one level.
pub open spec fn spec_addr_depth(a: Address) -> nat {
    match a {
        Address::Reference(_) => 1,
        _ => 0,
    }
}

/// The address a reference target stands for.
pub open spec fn spec_dest_address(d: Destination) -> Address {
    match d {
        Destination::Register(r) => Address::Register(r),
        Destination::StackPointer(s) => Address::StackPointer(s),
    }
}

/// The value stored at location `a` in `m`: registers read directly,
/// stack slots are bounds-checked, and a reference reads the value at its
/// target location and uses it as a slot index for a second lookup.
pub open spec fn spec_read_location(m: MemoryView, a: Address) -> Result<
    TypeView,
    MemoryErrorView,
>
    decreases spec_addr_depth(a),
{
    match a {
        Address::Register(r) => Ok(spec_reg(m, r)),
        Address::StackPointer(i) => if i < m.stack.len() {
            Ok(m.stack[i as int])
        } else {
            Err(MemoryErrorView::Read(AssignmentView::Address(Address::StackPointer(i))))
        },
        Address::Reference(d) => match spec_read_location(m, spec_dest_address(d)) {
            Ok(pointed) => match spec_resolve_slot(m, pointed) {
                Ok(idx) => if idx < m.stack.len() {
                    Ok(m.stack[idx as int])
                } else {
                    Err(
                        MemoryErrorView::Read(
                            AssignmentView::Address(Address::StackPointer(idx)),
                        ),
                    )
                },
                Err(e) => Err(e),
            },
            Err(e) => Err(e),
        },
    }
}

/// Coerces a value to a stack-slot index for indirect access: a positive
/// in-range integer, or a stack-slot address.  Registers and nested
/// references are addressing faults; text and the untyped default cannot
/// name a slot.
pub open spec fn spec_resolve_slot(m: MemoryView, v: TypeView) -> Result<
    usize,
    MemoryErrorView,
> {
    match v {
        TypeView::Integer(i) => if 0 < i && i < m.stack.len() {
            Ok(i as usize)
        } else {
            Err(MemoryErrorView::Read(AssignmentView::Value(TypeView::Integer(i))))
        },
        TypeView::Address(a) => match a {
            Address::StackPointer(s) => Ok(s),
            Address::Register(_) => Err(
                MemoryErrorView::SegmentationFault("Cannot read a registers position"@),
            ),
            Address::Reference(_) => Err(
                MemoryErrorView::SegmentationFault("Only single pointers supported"@),
            ),
        },
        TypeView::String(t) => Err(MemoryErrorView::Read(AssignmentView::Value(TypeView::String(t)))),
        TypeView::Untyped => Err(MemoryErrorView::Read(AssignmentView::Value(TypeView::Untyped))),
    }
}

/// The value an operand denotes in `m`: literals are themselves,
/// locations are read per [`spec_read_location`].
pub open spec fn spec_get(m: MemoryView, a: AssignmentView) -> Result<TypeView, MemoryErrorView> {
    match a {
        AssignmentView::Value(v) => Ok(v),
        AssignmentView::Address(ad) => spec_read_location(m, ad),
    }
}

/// The machine state after writing `v` to `d` in `m`: registers assign
/// directly, stack slots are bounds-checked, and a reference writes
/// through to the slot its target's value names.  On a fault the state is
/// unchanged.
pub open spec fn spec_set(m: MemoryView, d: Address, v: TypeView) -> Result<
    MemoryView,
    MemoryErrorView,
> {
    match d {
        Address::Register(r) => Ok(spec_with_reg(m, r, v)),
        Address::StackPointer(i) => if i < m.stack.len() {
            Ok(MemoryView { stack: m.stack.update(i as int, v), ..m })
        } else {
            Err(MemoryErrorView::Write(d))
        },
        Address::Reference(dest) => match spec_read_location(m, spec_dest_address(dest)) {
            Ok(pointed) => match spec_resolve_slot(m, pointed) {
                Ok(idx) => if idx < m.stack.len() {
                    Ok(MemoryView { stack: m.stack.update(idx as int, v), ..m })
                } else {
                    Err(MemoryErrorView::Write(Address::StackPointer(idx)))
                },
                Err(e) => Err(e),
            },
            Err(e) => Err(e),
        },
    }
}

/// Coerces `ty` to a stack-slot index per [`spec_resolve_slot`].
fn resolve_slot(memory: &Memory, ty: &Type) -> (r: Result<usize, MemoryError>)
    ensures
        crate::res_view(r) == spec_resolve_slot(memory@, ty@),
{
    match ty {
        Type::Integer(integer_value) => {
            if *integer_value > 0 && (*integer_value as usize) < memory.stack.len() {
                Ok(*integer_value as usize)
            } else {
                Err(MemoryError::Read(Assignment::Value(Type::Integer(*integer_value))))
            }
        },
        Type::Address(a) => match a {
            Address::StackPointer(i) => Ok(*i),
            Address::Register(_) => Err(
                MemoryError::SegmentationFault(
                    String::from_str("Cannot read a registers position"),
                ),
            ),
            Address::Reference(_) => Err(
                MemoryError::SegmentationFault(String::from_str("Only single pointers supported")),
            ),
        },
        Type::String(t) => Err(MemoryError::Read(Assignment::Value(Type::String(t.clone())))),
        Type::Untyped => Err(MemoryError::Read(Assignment::Value(Type::Untyped))),
    }
}

impl Memory {
    /// Reads the value an operand denotes, per [`spec_get`].
    pub fn get(&self, assignment: &Assignment) -> (r: Result<Type, MemoryError>)
        ensures
            crate::res_view(r) == spec_get(self@, assignment@),
    {
        match assignment {
            Assignment::Value(value) => Ok(value.clone()),
            Assignment::Address(address) => self.read_location(address),
        }
    }

    /// Reads the value stored at a location, per [`spec_read_location`].
    fn read_location(&self, address: &Address) -> (r: Result<Type, MemoryError>)
        ensures
            crate::res_view(r) == spec_read_location(self@, *address),
        decreases spec_addr_depth(*address),
    {
        match address {
            Address::Register(register) => match register {
                Register::Rax => Ok(self.rax.clone()),
                Register::Rbx => Ok(self.rbx.clone()),
                Register::Rcx => Ok(self.rcx.clone()),
            },
            Address::StackPointer(index) => {
                if *index >= self.stack.len() {
                    return Err(
                        MemoryError::Read(Assignment::Address(Address::StackPointer(*index))),
                    );
                }
                Ok(self.stack[*index].clone())
            },
            Address::Reference(reference) => {
                let direct = match reference {
                    Destination::Register(r) => Address::Register(*r),
                    Destination::StackPointer(s) => Address::StackPointer(*s),
                };
                let pointed = match self.read_location(&direct) {
                    Ok(v) => v,
                    Err(e) => {
                        return Err(e);
                    },
                };
                let idx = match resolve_slot(self, &pointed) {
                    Ok(i) => i,
                    Err(e) => {
                        return Err(e);
                    },
                };
                if idx >= self.stack.len() {
                    return Err(
                        MemoryError::Read(Assignment::Address(Address::StackPointer(idx))),
                    );
                }
                Ok(self.stack[idx].clone())
            },
        }
    }

    /// Writes `value` to `destination`, per [`spec_set`]: on success the
    /// state is the updated one; on a fault it is unchanged.
    pub fn set(&mut self, destination: &Address, value: Type) -> (r: Result<(), MemoryError>)
        ensures
            match spec_set(old(self)@, *destination, value@) {
                Ok(m) => r is Ok && final(self)@ == m,
                Err(e) => (r matches Err(a) && a@ == e) && final(self)@ == old(self)@,
            },
    {
        match destination {
            Address::Register(register) => {
                match register {
                    Register::Rax => self.rax = value,
                    Register::Rbx => self.rbx = value,
                    Register::Rcx => self.rcx = value,
                }
                Ok(())
            },
            Address::StackPointer(index) => {
                if *index >= self.stack.len() {
                    return Err(MemoryError::Write(Address::StackPointer(*index)));
                }
                self.stack[*index] = value;
                proof {
                    assert(self@.stack =~= old(self)@.stack.update(*index as int, value@));
                }
                Ok(())
            },
            Address::Reference(reference) => {
                let direct = match reference {
                    Destination::Register(r) => Address::Register(*r),
                    Destination::StackPointer(s) => Address::StackPointer(*s),
                };
                let pointed = match self.read_location(&direct) {
                    Ok(v) => v,
                    Err(e) => {
                        return Err(e);
                    },
                };
                let idx = match resolve_slot(self, &pointed) {
                    Ok(i) => i,
                    Err(e) => {
                        return Err(e);
                    },
                };
                if idx >= self.stack.len() {
                    return Err(MemoryError::Write(Address::StackPointer(idx)));
                }
                self.stack[idx] = value;
                proof {
                    assert(self@.stack =~= old(self)@.stack.update(idx as int, value@));
                }
                Ok(())
            },
        }
    }

    /// Snapshots the three registers, for saving in a call frame.
    pub fn register_state(&self) -> (r: RegisterMemory)
        ensures
            r.0@ == self@.rax,
            r.1@ == self@.rbx,
            r.2@ == self@.rcx,
    {
        (self.rax.clone(), self.rbx.clone(), self.rcx.clone())
    }
}

/// A stack of `n` untyped cells, the state every program starts from.
pub fn untyped_stack(n: usize) -> (v: Vec<Type>)
    ensures
        v.deep_view().len() == n,
        forall|i: int| 0 <= i < n ==> v.deep_view()[i] == TypeView::Untyped,
{
    let mut v: Vec<Type> = Vec::new();
    let mut k: usize = 0;
    while k < n
        invariant
            0 <= k <= n,
            v.deep_view().len() == k,
            forall|i: int| 0 <= i < k ==> v.deep_view()[i] == TypeView::Untyped,
        decreases n - k,
    {
        let ghost prev = v;
        v.push(Type::Untyped);
        proof {
            assert(v@ == prev@.push(Type::Untyped));
            assert forall|i: int| 0 <= i < k + 1 implies v.deep_view()[i] == TypeView::Untyped by {
                assert(v.deep_view()[i] == v@[i].deep_view());
                if i < k {
                    assert(prev.deep_view()[i] == prev@[i].deep_view());
                    assert(v@[i] == prev@[i]);
                } else {
                    assert(v@[i] == Type::Untyped);
                }
            }
        }
        k = k + 1;
    }
    v
}

/// A bounds fault is exactly an out-of-range slot index: with a stack of
/// `len` cells, writing slot `i` succeeds when `i < len` and fails with a
/// write-bounds error naming the slot when `i >= len`, whatever the value
/// and the rest of the state.
pub proof fn lemma_stack_write_bounds(m: MemoryView, i: usize, v: TypeView)
    ensures
        i < m.stack.len() ==> spec_set(m, Address::StackPointer(i), v) is Ok,
        i >= m.stack.len() ==> spec_set(m, Address::StackPointer(i), v) == Err::<
            MemoryView,
            MemoryErrorView,
        >(MemoryErrorView::Write(Address::StackPointer(i))),
{
}

impl MemoryError {
    /// The human-readable description of the fault.
    pub fn message(&self) -> (m: String)
        ensures
            m@ == spec_memory_error_message(self@),
    {
        match self {
            MemoryError::Write(d) => {
                let inner = d.to_string_raw();
                let m = String::from_str("Cannot write at: ").concat(inner.as_str());
                proof {
                    assert(m@ =~= spec_memory_error_message(self@));
                }
                m
            },
            MemoryError::Read(a) => {
                let inner = a.to_display_string();
                let m = String::from_str("Cannot not read at: ").concat(inner.as_str());
                proof {
                    assert(m@ =~= spec_memory_error_message(self@));
                }
                m
            },
            MemoryError::SegmentationFault(fault_message) => {
                let m = String::from_str("Segentation fault: ").concat(fault_message.as_str());
                proof {
                    assert(m@ =~= spec_memory_error_message(self@));
                }
                m
            },
            MemoryError::OperationError(o) => {
                let inner = o.message();
                let m = String::from_str("Cannot operate: ").concat(inner.as_str());
                proof {
                    assert(m@ =~= spec_memory_error_message(self@));
                }
                m
            },
        }
    }
}

/// The description of a memory fault.
pub open spec fn spec_memory_error_message(e: MemoryErrorView) -> Seq<char> {
    match e {
        MemoryErrorView::Write(d) => "Cannot write at: "@ + crate::address::spec_address_raw(d),
        MemoryErrorView::Read(a) => "Cannot not read at: "@ + spec_assignment_display(a),
        MemoryErrorView::SegmentationFault(f) => "Segentation fault: "@ + f,
        MemoryErrorView::OperationError(o) => "Cannot operate: "@
            + crate::assignment::spec_operation_error_message(o),
    }
}

} // verus!
