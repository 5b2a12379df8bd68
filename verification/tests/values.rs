use asmvm::address::{Address, Destination, TryAdd, TryOperateTypes};
use asmvm::assignment::{Assignment, OperationError, Type};
use asmvm::interpreter::pretty_print_stack;
use asmvm::memory::{untyped_stack, Memory, MemoryError};
use asmvm::program_error::ParseError;
use asmvm::register::Register;
use asmvm::text::{isize_to_dec, usize_to_dec};

fn fresh_memory() -> Memory {
    Memory {
        rax: Type::Untyped,
        rbx: Type::Untyped,
        rcx: Type::Untyped,
        stack_frame: Vec::new(),
        stack: untyped_stack(64),
    }
}

#[test]
fn integers_add_and_subtract() {
    assert_eq!(
        Type::Integer(3).add(&Type::Integer(4)).unwrap(),
        Type::Integer(7)
    );
    assert_eq!(
        Type::Integer(3).sub(&Type::Integer(10)).unwrap(),
        Type::Integer(-7)
    );
}

#[test]
fn integer_arithmetic_wraps() {
    assert_eq!(
        Type::Integer(isize::MAX).add(&Type::Integer(1)).unwrap(),
        Type::Integer(isize::MIN)
    );
    assert_eq!(
        Type::Integer(isize::MIN).sub(&Type::Integer(1)).unwrap(),
        Type::Integer(isize::MAX)
    );
}

#[test]
fn stack_slots_add_and_subtract() {
    let a = Type::Address(Address::StackPointer(5));
    let b = Type::Address(Address::StackPointer(3));
    assert_eq!(
        a.add(&b).unwrap(),
        Type::Address(Address::StackPointer(8))
    );
    assert_eq!(
        a.sub(&b).unwrap(),
        Type::Address(Address::StackPointer(2))
    );
}

#[test]
fn stack_slot_shifts_by_integer() {
    let a = Type::Address(Address::StackPointer(5));
    assert_eq!(
        a.add(&Type::Integer(-2)).unwrap(),
        Type::Address(Address::StackPointer(3))
    );
}

#[test]
fn register_address_addition_fails() {
    let a = Type::Address(Address::Register(Register::Rax));
    let e = a.add(&Type::Integer(1)).unwrap_err();
    assert!(matches!(e, OperationError::TryAdd(_)));
    assert_eq!(
        e.message(),
        "Attempting adding two incompatible types: (rax, 1)"
    );
}

#[test]
fn mixed_addition_concatenates_text() {
    assert_eq!(
        Type::String("a".to_string()).add(&Type::Integer(1)).unwrap(),
        Type::String("a1".to_string())
    );
    assert_eq!(
        Type::Integer(2).add(&Type::String("nd".to_string())).unwrap(),
        Type::String("2nd".to_string())
    );
    assert_eq!(
        Type::String("a".to_string()).add(&Type::String("b".to_string())).unwrap(),
        Type::String("ab".to_string())
    );
    // The untyped default contributes empty text.
    assert_eq!(
        Type::Untyped.add(&Type::Integer(1)).unwrap(),
        Type::String("1".to_string())
    );
}

#[test]
fn incompatible_subtraction_reports_both_values() {
    let e = Type::String("a".to_string()).sub(&Type::Integer(1)).unwrap_err();
    assert!(matches!(e, OperationError::Subtraction(_, _)));
    assert_eq!(
        e.message(),
        "Attempted subtracting two incompatible types: [String 'a'] - [Integer '1']"
    );
}

#[test]
fn try_add_on_addresses() {
    let sp2 = Address::StackPointer(2);
    let sp3 = Address::StackPointer(3);
    assert_eq!(sp2.try_add(&sp3).unwrap(), Address::StackPointer(5));
    assert_eq!(sp2.try_add(&7isize).unwrap(), Address::StackPointer(9));
    let e = Address::Register(Register::Rbx).try_add(&sp3).unwrap_err();
    let TryOperateTypes::IncompatibleTypes(a, b) = e;
    assert_eq!(a, "rbx");
    assert_eq!(b, "0x3");
}

#[test]
fn raw_text_forms() {
    assert_eq!(Type::String("x y".to_string()).to_string_raw(), "x y");
    assert_eq!(Type::Integer(-5).to_string_raw(), "-5");
    assert_eq!(Type::Integer(0).to_string_raw(), "0");
    assert_eq!(Type::Address(Address::StackPointer(3)).to_string_raw(), "0x3");
    assert_eq!(Type::Address(Address::Register(Register::Rcx)).to_string_raw(), "rcx");
    assert_eq!(
        Type::Address(Address::Reference(Destination::StackPointer(7))).to_string_raw(),
        "0x7"
    );
    assert_eq!(Type::Untyped.to_string_raw(), "");
}

#[test]
fn display_forms_name_the_kind() {
    assert_eq!(Type::String("a".to_string()).to_display_string(), "String 'a'");
    assert_eq!(Type::Integer(-3).to_display_string(), "Integer '-3'");
    assert_eq!(
        Type::Address(Address::StackPointer(1)).to_display_string(),
        "Address '[0x1]'"
    );
    assert_eq!(Type::Untyped.to_display_string(), "Untyped");
}

#[test]
fn decimal_rendering() {
    assert_eq!(usize_to_dec(0), "0");
    assert_eq!(usize_to_dec(907), "907");
    assert_eq!(usize_to_dec(usize::MAX), "18446744073709551615");
    assert_eq!(isize_to_dec(isize::MIN), "-9223372036854775808");
    assert_eq!(isize_to_dec(-1), "-1");
}

#[test]
fn memory_reads_registers_and_literals() {
    let mut m = fresh_memory();
    m.rax = Type::Integer(5);
    assert_eq!(
        m.get(&Assignment::Address(Address::Register(Register::Rax))).unwrap(),
        Type::Integer(5)
    );
    assert_eq!(
        m.get(&Assignment::Value(Type::Integer(9))).unwrap(),
        Type::Integer(9)
    );
}

#[test]
fn stack_write_bounds() {
    // With a 64-slot stack, slots 0 through 63 always accept a write and
    // slot 64 always fails with a write-bounds error.
    for i in 0..64usize {
        let mut m = fresh_memory();
        assert!(m.set(&Address::StackPointer(i), Type::Integer(1)).is_ok());
        assert_eq!(m.stack[i], Type::Integer(1));
    }
    let mut m = fresh_memory();
    let e = m.set(&Address::StackPointer(64), Type::Integer(1)).unwrap_err();
    assert!(matches!(e, MemoryError::Write(Address::StackPointer(64))));
    assert_eq!(e.message(), "Cannot write at: 0x64");
}

#[test]
fn stack_read_bounds() {
    let m = fresh_memory();
    assert_eq!(m.get(&Assignment::Address(Address::StackPointer(63))).unwrap(), Type::Untyped);
    let e = m.get(&Assignment::Address(Address::StackPointer(64))).unwrap_err();
    assert!(matches!(e, MemoryError::Read(_)));
}

#[test]
fn reference_write_goes_through_pointed_slot() {
    let mut m = fresh_memory();
    m.set(&Address::StackPointer(1), Type::Integer(3)).unwrap();
    m.set(&Address::Reference(Destination::StackPointer(1)), Type::Integer(42)).unwrap();
    assert_eq!(m.stack[3], Type::Integer(42));
}

#[test]
fn reference_read_performs_second_lookup() {
    let mut m = fresh_memory();
    m.set(&Address::StackPointer(1), Type::Integer(3)).unwrap();
    m.set(&Address::StackPointer(3), Type::Integer(9)).unwrap();
    assert_eq!(
        m.get(&Assignment::Address(Address::Reference(Destination::StackPointer(1)))).unwrap(),
        Type::Integer(9)
    );
}

#[test]
fn reference_through_register_value_is_rejected() {
    let mut m = fresh_memory();
    // The pointed-to value names a register, which cannot be a slot.
    m.rax = Type::Address(Address::Register(Register::Rbx));
    let e = m.set(&Address::Reference(Destination::Register(Register::Rax)), Type::Integer(1))
        .unwrap_err();
    assert!(matches!(e, MemoryError::SegmentationFault(_)));
    assert_eq!(e.message(), "Segentation fault: Cannot read a registers position");
}

#[test]
fn reference_through_text_or_untyped_is_rejected() {
    let mut m = fresh_memory();
    m.rax = Type::String("3".to_string());
    assert!(m.set(&Address::Reference(Destination::Register(Register::Rax)), Type::Untyped)
        .is_err());
    let mut m2 = fresh_memory();
    assert!(m2.set(&Address::Reference(Destination::Register(Register::Rax)), Type::Untyped)
        .is_err());
}

#[test]
fn reference_through_nonpositive_or_outsized_integer_is_rejected() {
    let mut m = fresh_memory();
    m.rax = Type::Integer(0);
    assert!(m.set(&Address::Reference(Destination::Register(Register::Rax)), Type::Untyped)
        .is_err());
    m.rax = Type::Integer(64);
    assert!(m.set(&Address::Reference(Destination::Register(Register::Rax)), Type::Untyped)
        .is_err());
}

#[test]
fn stack_dump_compresses_untyped_runs() {
    let mut m = fresh_memory();
    m.set(&Address::StackPointer(2), Type::Integer(5)).unwrap();
    m.set(&Address::StackPointer(3), Type::String("x".to_string())).unwrap();
    let lines = pretty_print_stack(0, &m.stack);
    assert_eq!(
        lines,
        vec![
            "0..1: Untyped".to_string(),
            "2: Integer '5'".to_string(),
            "3: String 'x'".to_string(),
            "4..64: Untyped".to_string(),
        ]
    );
    let empty = pretty_print_stack(0, &untyped_stack(4));
    assert_eq!(empty, vec!["0..4: Untyped".to_string()]);
}

#[test]
fn parse_error_carries_its_message() {
    let e = ParseError::new("some diagnostic");
    assert_eq!(e.message(), "some diagnostic");
}
