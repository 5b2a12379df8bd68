use asmvm::address::Address;
use asmvm::assignment::Type;
use asmvm::interpreter::{Interpreter, SemanticError};
use asmvm::memory::MemoryError;
use asmvm::program_error::ProgramError;

const BUDGET: usize = 100_000;

fn run_program(src: &str) -> (Interpreter, Vec<String>, Result<Option<isize>, ProgramError>) {
    let mut interpreter = Interpreter::parse(src).expect("program should parse");
    let mut outputs = Vec::new();
    let result = interpreter.run(&mut outputs, BUDGET);
    (interpreter, outputs, result)
}

#[test]
fn straight_line_program_advances_counter_per_step() {
    // Three data instructions, no calls or jumps: the counter ends exactly
    // three past its start.
    let src = "mov rax 1\nmov rbx 2\nmov rcx 3";
    let (interpreter, outputs, result) = run_program(src);
    assert_eq!(result.unwrap(), Some(0));
    assert_eq!(interpreter.program_pointer, 3);
    assert!(outputs.is_empty());
}

#[test]
fn mov_mov_add_doubles_the_value() {
    let src = "mov rax 5\nmov rbx rax\nadd rax rax rbx\nleave";
    let (interpreter, _outputs, result) = run_program(src);
    assert_eq!(result.unwrap(), Some(0));
    assert_eq!(interpreter.memory.rax, Type::Integer(10));
}

#[test]
fn missing_return_fails_before_any_instruction_executes() {
    let src = "call rax foo\nfoo:\nmov rax 1";
    let mut interpreter = Interpreter::parse(src).expect("program should parse");
    let check = interpreter.semantic_check().unwrap_err();
    match &check {
        ProgramError::Semantic(SemanticError::ReturnMissing { label }) => {
            assert_eq!(label, "foo");
        },
        other => panic!("unexpected error: {:?}", other),
    }
    // Running reports the same rejection and executes nothing: the machine
    // state is untouched.
    let mut outputs = Vec::new();
    let result = interpreter.run(&mut outputs, BUDGET);
    assert!(matches!(
        result,
        Err(ProgramError::Semantic(SemanticError::ReturnMissing { .. }))
    ));
    assert_eq!(interpreter.memory.rax, Type::Untyped);
    assert_eq!(interpreter.program_pointer, 0);
    assert!(outputs.is_empty());
}

#[test]
fn void_block_missing_leave_is_rejected() {
    let src = "call foo\nfoo:\nmov rax 1\nbar:\nleave";
    let mut interpreter = Interpreter::parse(src).expect("program should parse");
    let check = interpreter.semantic_check().unwrap_err();
    assert!(matches!(
        check,
        ProgramError::Semantic(SemanticError::LeaveMissing { .. })
    ));
}

#[test]
fn nested_calls_restore_registers_and_write_return_slots() {
    // A stores B's result plus one; the caller stores A's result in rax.
    // Saved registers must come back on each unwind, so rcx survives both
    // calls, and each return value lands in its recorded destination.
    let src = "mov rcx 7\ncall rax A\nadd rax rax rcx\nret rax\nA:\ncall rbx B\nadd rbx rbx 1\nret rbx\nB:\nret 1";
    let (interpreter, _outputs, result) = run_program(src);
    // B returns 1; A computes 1+1 = 2 into rbx and returns it into rax;
    // the top level adds the restored rcx (7) and returns 9.
    assert_eq!(result.unwrap(), Some(9));
    assert_eq!(interpreter.memory.rcx, Type::Integer(7));
    assert_eq!(interpreter.memory.rax, Type::Integer(9));
}

#[test]
fn jump_entry_does_not_restore_registers() {
    // After the block entered via jmp returns, rax keeps the incremented
    // value; were registers restored, the final result would be 6.
    let src = "mov rax 5\njmp end\nend:\nadd rax rax 1\nret rax";
    let (_interpreter, _outputs, result) = run_program(src);
    assert_eq!(result.unwrap(), Some(7));
}

#[test]
fn call_entry_restores_registers() {
    let src = "mov rax 5\ncall sub1\nret rax\nsub1:\nmov rax 99\nleave";
    let (interpreter, _outputs, result) = run_program(src);
    assert_eq!(result.unwrap(), Some(5));
    assert_eq!(interpreter.memory.rax, Type::Integer(5));
}

#[test]
fn stack_slot_63_writes_and_64_faults() {
    let ok_src = "mov sp[63] 1\nleave";
    let (interpreter, _outputs, result) = run_program(ok_src);
    assert_eq!(result.unwrap(), Some(0));
    assert_eq!(interpreter.memory.stack[63], Type::Integer(1));

    let bad_src = "mov sp[64] 1\nleave";
    let (_interpreter, _outputs, result) = run_program(bad_src);
    match result.unwrap_err() {
        ProgramError::Memory(MemoryError::Write(Address::StackPointer(64))) => {},
        other => panic!("unexpected error: {:?}", other),
    }
}

#[test]
fn printf_substitutes_the_marker() {
    let src = "mov rax \"{} items\"\nmov rbx 3\nsyscall printf\nleave";
    let (_interpreter, outputs, result) = run_program(src);
    assert_eq!(result.unwrap(), Some(0));
    assert_eq!(outputs, vec!["3 items".to_string()]);
}

#[test]
fn printf_without_marker_prints_the_template() {
    let src = "mov rax \"plain text\"\nsyscall printf\nleave";
    let (_interpreter, outputs, result) = run_program(src);
    assert_eq!(result.unwrap(), Some(0));
    assert_eq!(outputs, vec!["plain text".to_string()]);
}

#[test]
fn printf_requires_text_in_rax() {
    let src = "mov rax 3\nsyscall printf\nleave";
    let (_interpreter, outputs, result) = run_program(src);
    assert!(matches!(
        result,
        Err(ProgramError::Memory(MemoryError::OperationError(_)))
    ));
    assert!(outputs.is_empty());
}

#[test]
fn unknown_syscall_is_a_quiet_no_op() {
    let src = "syscall nothing\nleave";
    let (_interpreter, outputs, result) = run_program(src);
    assert_eq!(result.unwrap(), Some(0));
    assert!(outputs.is_empty());
}

#[test]
fn top_level_return_value_is_the_exit_code() {
    let (_interpreter, _outputs, result) = run_program("ret 42");
    assert_eq!(result.unwrap(), Some(42));
}

#[test]
fn top_level_text_return_maps_to_sentinel_exit_code() {
    let (_interpreter, _outputs, result) = run_program("ret \"oops\"");
    assert_eq!(result.unwrap(), Some(1));
}

#[test]
fn top_level_leave_exits_zero() {
    let (_interpreter, _outputs, result) = run_program("mov rax 9\nleave");
    assert_eq!(result.unwrap(), Some(0));
}

#[test]
fn leave_with_pending_return_destination_is_rejected() {
    let src = "call rax A\nA:\nleave\nret 0";
    let (_interpreter, _outputs, result) = run_program(src);
    assert!(matches!(
        result,
        Err(ProgramError::Memory(MemoryError::SegmentationFault(_)))
    ));
}

#[test]
fn jump_to_undefined_label_is_rejected_statically() {
    let src = "jmp nowhere\nleave";
    let mut interpreter = Interpreter::parse(src).expect("program should parse");
    match interpreter.semantic_check().unwrap_err() {
        ProgramError::LabelNotFound(l) => assert_eq!(l, "nowhere"),
        other => panic!("unexpected error: {:?}", other),
    }
}

#[test]
fn lea_stores_the_address_itself() {
    let src = "lea rax sp[5]\nleave";
    let (interpreter, _outputs, result) = run_program(src);
    assert_eq!(result.unwrap(), Some(0));
    assert_eq!(
        interpreter.memory.rax,
        Type::Address(Address::StackPointer(5))
    );
}

#[test]
fn reference_write_lands_in_the_named_slot() {
    let src = "mov sp[1] 3\nmov [sp[1]] 42\nmov rbx sp[3]\nleave";
    let (interpreter, _outputs, result) = run_program(src);
    assert_eq!(result.unwrap(), Some(0));
    assert_eq!(interpreter.memory.rbx, Type::Integer(42));
}

#[test]
fn reference_read_follows_the_named_slot() {
    let src = "mov sp[1] 3\nmov sp[3] 9\nmov rax [sp[1]]\nleave";
    let (interpreter, _outputs, result) = run_program(src);
    assert_eq!(result.unwrap(), Some(0));
    assert_eq!(interpreter.memory.rax, Type::Integer(9));
}

#[test]
fn comments_and_blank_lines_are_skipped() {
    let src = "; a full comment line\n\n   \nmov rax 1 ; trailing words\n\t; indented comment\nleave";
    let (interpreter, _outputs, result) = run_program(src);
    assert_eq!(result.unwrap(), Some(0));
    assert_eq!(interpreter.memory.rax, Type::Integer(1));
}

#[test]
fn crlf_line_endings_load() {
    let src = "mov rax 4\r\nleave\r\n";
    let (interpreter, _outputs, result) = run_program(src);
    assert_eq!(result.unwrap(), Some(0));
    assert_eq!(interpreter.memory.rax, Type::Integer(4));
}

#[test]
fn bad_line_fails_the_load() {
    assert!(Interpreter::parse("mov rax 1\nnot an instruction at all\nleave").is_err());
}

#[test]
fn exhausted_step_budget_reports_still_running() {
    // The block ends with leave, so the static check passes, but the jmp
    // re-enters forever.
    let src = "loop_start:\nmov rax 1\njmp loop_start\nleave";
    let mut interpreter = Interpreter::parse(src).expect("program should parse");
    let mut outputs = Vec::new();
    let result = interpreter.run(&mut outputs, 50);
    assert_eq!(result.unwrap(), None);
}

#[test]
fn run_reports_runtime_fault_and_keeps_prior_output() {
    let src = "mov rax \"first\"\nsyscall printf\nmov sp[99] 1\nleave";
    let (_interpreter, outputs, result) = run_program(src);
    assert!(matches!(result, Err(ProgramError::Memory(_))));
    assert_eq!(outputs, vec!["first".to_string()]);
}

#[test]
fn error_messages_read_as_documented() {
    let src = "jmp nowhere\nleave";
    let mut interpreter = Interpreter::parse(src).expect("program should parse");
    let e = interpreter.semantic_check().unwrap_err();
    assert_eq!(e.message(), "Cannot find jmp destination nowhere");

    let (_i, _o, result) = run_program("mov sp[64] 1\nleave");
    assert_eq!(result.unwrap_err().message(), "Cannot write at: 0x64");
}
