//! The instruction set: one parsed command per source line, the tokenizer
//! that splits a line (keeping quoted spans whole), the line grammar, and
//! each command's data effect on the machine state.

use vstd::prelude::*;
use vstd::string::{StrSliceExecFns, StringExecFns};
use crate::address::{spec_parse_address, Address};
use crate::assignment::{
    spec_display, spec_parse_assignment, spec_raw, Assignment, AssignmentView, OperationError,
    OperationErrorView, TypeView,
};
use crate::assignment::Type;
use crate::interpreter::{StackFrame, StackFrameView};
use crate::jump::JumpDestination;
use crate::memory::{spec_get, spec_set, Memory, MemoryError, MemoryErrorView, MemoryView};
use crate::program_error::ParseError;
use crate::text::{spec_substitute, str_eq, substitute_marker};

verus! {

/// All commands the assembly language supports.
#[derive(Debug, PartialEq)]
pub enum Command {
    /// Copies the operand's value to the address: `mov D S`.
    Mov(Address, Assignment),
    /// Adds the two operands and stores the result: `add D S1 S2`.
    Add(Address, Assignment, Assignment),
    /// Subtracts the second operand from the first: `sub D S1 S2`.
    Sub(Address, Assignment, Assignment),
    /// Stores the *address* of the source, as a pointer value: `lea D A`.
    LoadEffectiveAddress(Address, Address),
    /// Calls a label and stores the returned value: `call D L`.
    CallRet(Address, JumpDestination),
    /// Calls a label for its effect alone: `call L`.
    CallVoid(JumpDestination),
    /// Jumps to a label without restoring registers on unwind: `jmp L`.
    Jmp(JumpDestination),
    /// Marks a position callable or jumpable: `NAME:`.
    Label(String),
    /// Returns a value to the innermost frame: `ret S`.
    Return(Assignment),
    /// Invokes a kernel-provided routine, `printf` being the one known:
    /// `syscall NAME`.
    Syscall(JumpDestination),
    /// Unwinds a void frame, or ends the program at top level: `leave`.
    Leave,
}

/// The mathematical shape of a [`Command`].
pub enum CommandView {
    Mov(Address, AssignmentView),
    Add(Address, AssignmentView, AssignmentView),
    Sub(Address, AssignmentView, AssignmentView),
    LoadEffectiveAddress(Address, Address),
    CallRet(Address, Seq<char>),
    CallVoid(Seq<char>),
    Jmp(Seq<char>),
    Label(Seq<char>),
    Return(AssignmentView),
    Syscall(Seq<char>),
    Leave,
}

impl View for Command {
    type V = CommandView;

    open spec fn view(&self) -> CommandView {
        match self {
            Command::Mov(d, a) => CommandView::Mov(*d, a@),
            Command::Add(d, a, b) => CommandView::Add(*d, a@, b@),
            Command::Sub(d, a, b) => CommandView::Sub(*d, a@, b@),
            Command::LoadEffectiveAddress(d, s) => CommandView::LoadEffectiveAddress(*d, *s),
            Command::CallRet(d, l) => CommandView::CallRet(*d, l@),
            Command::CallVoid(l) => CommandView::CallVoid(l@),
            Command::Jmp(l) => CommandView::Jmp(l@),
            Command::Label(l) => CommandView::Label(l@),
            Command::Return(a) => CommandView::Return(a@),
            Command::Syscall(l) => CommandView::Syscall(l@),
            Command::Leave => CommandView::Leave,
        }
    }
}

impl DeepView for Command {
    type V = CommandView;

    open spec fn deep_view(&self) -> CommandView {
        self@
    }
}

impl Clone for Command {
    fn clone(&self) -> (r: Self)
        ensures
            r@ == self@,
    {
        match self {
            Command::Mov(d, a) => Command::Mov(*d, a.clone()),
            Command::Add(d, a, b) => Command::Add(*d, a.clone(), b.clone()),
            Command::Sub(d, a, b) => Command::Sub(*d, a.clone(), b.clone()),
            Command::LoadEffectiveAddress(d, s) => Command::LoadEffectiveAddress(*d, *s),
            Command::CallRet(d, l) => Command::CallRet(*d, l.clone()),
            Command::CallVoid(l) => Command::CallVoid(l.clone()),
            Command::Jmp(l) => Command::Jmp(l.clone()),
            Command::Label(l) => Command::Label(l.clone()),
            Command::Return(a) => Command::Return(a.clone()),
            Command::Syscall(l) => Command::Syscall(l.clone()),
            Command::Leave => Command::Leave,
        }
    }
}

/// The tokens of the rest of the line, given the word collected so far and
/// whether a quoted span is open.  A `;` ends the line (even inside
/// quotes); spaces split words unless quoted; quotes stay part of their
/// word; empty words are dropped.
pub open spec fn spec_tokenize_rec(s: Seq<char>, cur: Seq<char>, in_quotes: bool) -> Seq<Seq<char>>
    decreases s.len(),
{
    if s.len() == 0 {
        if cur.len() == 0 {
            Seq::empty()
        } else {
            seq![cur]
        }
    } else {
        let c = s[0];
        if c == ';' {
            if cur.len() == 0 {
                Seq::empty()
            } else {
                seq![cur]
            }
        } else if c == ' ' && !in_quotes {
            (if cur.len() == 0 {
                Seq::<Seq<char>>::empty()
            } else {
                seq![cur]
            }) + spec_tokenize_rec(s.skip(1), Seq::empty(), in_quotes)
        } else if c == '"' {
            spec_tokenize_rec(s.skip(1), cur.push(c), !in_quotes)
        } else {
            spec_tokenize_rec(s.skip(1), cur.push(c), in_quotes)
        }
    }
}

/// The tokens of one source line.
pub open spec fn spec_tokenize(s: Seq<char>) -> Seq<Seq<char>> {
    spec_tokenize_rec(s, Seq::empty(), false)
}

/// Splits a line into tokens, treating a double-quoted span as part of a
/// single token and cutting the line at the first `;`.
pub fn merge_quotes(target: &str) -> (tokens: Vec<String>)
    ensures
        tokens.deep_view() == spec_tokenize(target@),
{
    let n = target.unicode_len();
    let mut result: Vec<String> = Vec::new();
    let mut start: usize = 0;
    let mut open_quote = false;
    let mut i: usize = 0;
    proof {
        assert(result.deep_view() =~~= Seq::<Seq<char>>::empty());
        assert(target@.skip(0) =~= target@);
        assert(target@.subrange(0, 0) =~= Seq::<char>::empty());
        assert(result.deep_view() + spec_tokenize_rec(
            target@.skip(0),
            target@.subrange(0, 0),
            false,
        ) =~~= spec_tokenize(target@));
    }
    while i < n
        invariant
            0 <= start <= i <= n,
            n == target@.len(),
            spec_tokenize(target@) =~~= result.deep_view() + spec_tokenize_rec(
                target@.skip(i as int),
                target@.subrange(start as int, i as int),
                open_quote,
            ),
        decreases n - i,
    {
        let ghost s = target@;
        let ghost cur = s.subrange(start as int, i as int);
        proof {
            assert(s.skip(i as int)[0] == s[i as int]);
            assert(s.skip(i as int).skip(1) =~= s.skip(i as int + 1));
        }
        let c = target.get_char(i);
        if c == ';' {
            if i > start {
                let word = String::from_str(target.substring_char(start, i));
                let ghost prev = result;
                result.push(word);
                proof {
                    crate::lemma_deep_view_push(prev, result, word);
                }
            }
            proof {
                assert(spec_tokenize(target@) =~~= result.deep_view());
            }
            return result;
        } else if c == ' ' && !open_quote {
            if i > start {
                let word = String::from_str(target.substring_char(start, i));
                let ghost prev = result;
                result.push(word);
                proof {
                    crate::lemma_deep_view_push(prev, result, word);
                }
            }
            start = i + 1;
            proof {
                assert(s.subrange(start as int, i as int + 1) =~= Seq::<char>::empty());
            }
        } else if c == '"' {
            open_quote = !open_quote;
            proof {
                assert(s.subrange(start as int, i as int + 1) =~= cur.push(c));
            }
        } else {
            proof {
                assert(s.subrange(start as int, i as int + 1) =~= cur.push(c));
            }
        }
        i = i + 1;
    }
    proof {
        assert(target@.skip(n as int) =~= Seq::<char>::empty());
    }
    if i > start {
        let word = String::from_str(target.substring_char(start, i));
        let ghost prev = result;
        result.push(word);
        proof {
            crate::lemma_deep_view_push(prev, result, word);
        }
    }
    proof {
        assert(spec_tokenize(target@) =~~= result.deep_view());
    }
    result
}

/// The command denoted by one source line, if any.  The token count picks
/// the production; the mnemonic picks the command.
pub open spec fn spec_parse_command(line: Seq<char>) -> Option<CommandView> {
    let toks = spec_tokenize(line);
    if toks.len() == 1 {
        let t = toks[0];
        if t == "leave"@ {
            Some(CommandView::Leave)
        } else if t.len() >= 1 && t[t.len() - 1] == ':' {
            Some(CommandView::Label(t.take(t.len() - 1)))
        } else {
            None
        }
    } else if toks.len() == 2 {
        let t0 = toks[0];
        let t1 = toks[1];
        if t0 == "syscall"@ {
            Some(CommandView::Syscall(t1))
        } else if t0 == "jmp"@ {
            Some(CommandView::Jmp(t1))
        } else if t0 == "ret"@ {
            match spec_parse_assignment(t1) {
                Some(a) => Some(CommandView::Return(a)),
                None => None,
            }
        } else if t0 == "call"@ {
            Some(CommandView::CallVoid(t1))
        } else {
            None
        }
    } else if toks.len() == 3 {
        let t0 = toks[0];
        let t1 = toks[1];
        let t2 = toks[2];
        if t0 == "lea"@ {
            match (spec_parse_address(t1), spec_parse_address(t2)) {
                (Some(d), Some(a)) => Some(CommandView::LoadEffectiveAddress(d, a)),
                _ => None,
            }
        } else if t0 == "mov"@ {
            match (spec_parse_address(t1), spec_parse_assignment(t2)) {
                (Some(d), Some(a)) => Some(CommandView::Mov(d, a)),
                _ => None,
            }
        } else if t0 == "call"@ {
            match spec_parse_address(t1) {
                Some(d) => Some(CommandView::CallRet(d, t2)),
                None => None,
            }
        } else {
            None
        }
    } else if toks.len() == 4 {
        let t0 = toks[0];
        let t1 = toks[1];
        let t2 = toks[2];
        let t3 = toks[3];
        if t0 == "add"@ {
            match (spec_parse_address(t1), spec_parse_assignment(t2), spec_parse_assignment(t3)) {
                (Some(d), Some(a), Some(b)) => Some(CommandView::Add(d, a, b)),
                _ => None,
            }
        } else if t0 == "sub"@ {
            match (spec_parse_address(t1), spec_parse_assignment(t2), spec_parse_assignment(t3)) {
                (Some(d), Some(a), Some(b)) => Some(CommandView::Sub(d, a, b)),
                _ => None,
            }
        } else {
            None
        }
    } else {
        None
    }
}

/// `m` with a new innermost call frame capturing the current registers.
pub open spec fn spec_push_frame(
    m: MemoryView,
    return_address: usize,
    entered_with_jmp: bool,
    destination: Option<Address>,
) -> MemoryView {
    MemoryView {
        stack_frame: m.stack_frame.push(
            StackFrameView {
                return_address,
                entered_with_jmp,
                destination,
                register_state: (m.rax, m.rbx, m.rcx),
            },
        ),
        ..m
    }
}

/// The data effect of one command on the machine state: the new state and
/// the line printed (for the printf syscall), or the fault.  Control flow
/// is not applied here; call, jump and return leave the program counter to
/// the control-flow step.
pub open spec fn spec_execute(m: MemoryView, c: CommandView, pp: usize) -> Result<
    (MemoryView, Option<Seq<char>>),
    MemoryErrorView,
> {
    match c {
        CommandView::Mov(d, a) => match spec_get(m, a) {
            Ok(v) => match spec_set(m, d, v) {
                Ok(m2) => Ok((m2, None)),
                Err(e) => Err(e),
            },
            Err(e) => Err(e),
        },
        CommandView::Add(d, o1, o2) => match spec_get(m, o1) {
            Ok(v1) => match spec_get(m, o2) {
                Ok(v2) => match crate::assignment::spec_add(v1, v2) {
                    Ok(v) => match spec_set(m, d, v) {
                        Ok(m2) => Ok((m2, None)),
                        Err(e) => Err(e),
                    },
                    Err(e) => Err(MemoryErrorView::OperationError(e)),
                },
                Err(e) => Err(e),
            },
            Err(e) => Err(e),
        },
        CommandView::Sub(d, o1, o2) => match spec_get(m, o1) {
            Ok(v1) => match spec_get(m, o2) {
                Ok(v2) => match crate::assignment::spec_sub(v1, v2) {
                    Ok(v) => match spec_set(m, d, v) {
                        Ok(m2) => Ok((m2, None)),
                        Err(e) => Err(e),
                    },
                    Err(e) => Err(MemoryErrorView::OperationError(e)),
                },
                Err(e) => Err(e),
            },
            Err(e) => Err(e),
        },
        CommandView::LoadEffectiveAddress(d, src) => match spec_set(
            m,
            d,
            TypeView::Address(src),
        ) {
            Ok(m2) => Ok((m2, None)),
            Err(e) => Err(e),
        },
        CommandView::CallRet(d, _l) => Ok((spec_push_frame(m, pp, false, Some(d)), None)),
        CommandView::CallVoid(_l) => Ok((spec_push_frame(m, pp, false, None), None)),
        CommandView::Jmp(_l) => Ok((spec_push_frame(m, pp, true, None), None)),
        CommandView::Syscall(l) => if l == "printf"@ {
            match m.rax {
                TypeView::String(fmt) => Ok((m, Some(spec_substitute(fmt, spec_raw(m.rbx))))),
                _ => Err(
                    MemoryErrorView::OperationError(
                        OperationErrorView::WrongType {
                            expected: "String"@,
                            actual: spec_display(m.rax),
                        },
                    ),
                ),
            }
        } else {
            Ok((m, None))
        },
        CommandView::Label(_) | CommandView::Return(_) | CommandView::Leave => Ok((m, None)),
    }
}

impl Command {
    /// Applies the command's data effect per [`spec_execute`]: on success
    /// the state is updated and the printf line (if any) is returned; on a
    /// fault the state is unchanged.
    pub fn execute(&self, memory: &mut Memory, program_pointer: usize) -> (r: Result<
        Option<String>,
        MemoryError,
    >)
        ensures
            match spec_execute(old(memory)@, self@, program_pointer) {
                Ok(p) => (r matches Ok(o) && o.deep_view() == p.1) && final(memory)@ == p.0,
                Err(e) => (r matches Err(a) && a@ == e) && final(memory)@ == old(memory)@,
            },
    {
        match self {
            Command::Mov(destination, assignment) => {
                let value = match memory.get(assignment) {
                    Ok(v) => v,
                    Err(e) => {
                        return Err(e);
                    },
                };
                match memory.set(destination, value) {
                    Ok(_) => Ok(None),
                    Err(e) => Err(e),
                }
            },
            Command::Add(destination, operand1, operand2) => {
                let v1 = match memory.get(operand1) {
                    Ok(v) => v,
                    Err(e) => {
                        return Err(e);
                    },
                };
                let v2 = match memory.get(operand2) {
                    Ok(v) => v,
                    Err(e) => {
                        return Err(e);
                    },
                };
                let result = match v1.add(&v2) {
                    Ok(v) => v,
                    Err(e) => {
                        return Err(MemoryError::OperationError(e));
                    },
                };
                match memory.set(destination, result) {
                    Ok(_) => Ok(None),
                    Err(e) => Err(e),
                }
            },
            Command::Sub(destination, operand1, operand2) => {
                let v1 = match memory.get(operand1) {
                    Ok(v) => v,
                    Err(e) => {
                        return Err(e);
                    },
                };
                let v2 = match memory.get(operand2) {
                    Ok(v) => v,
                    Err(e) => {
                        return Err(e);
                    },
                };
                let result = match v1.sub(&v2) {
                    Ok(v) => v,
                    Err(e) => {
                        return Err(MemoryError::OperationError(e));
                    },
                };
                match memory.set(destination, result) {
                    Ok(_) => Ok(None),
                    Err(e) => Err(e),
                }
            },
            Command::LoadEffectiveAddress(destination, source) => {
                match memory.set(destination, Type::Address(*source)) {
                    Ok(_) => Ok(None),
                    Err(e) => Err(e),
                }
            },
            Command::CallRet(destination, JumpDestination::Label(_)) => {
                let stack_frame = StackFrame {
                    return_address: program_pointer,
                    entered_with_jmp: false,
                    destination: Some(*destination),
                    register_state: memory.register_state(),
                };
                let ghost prev = memory.stack_frame;
                memory.stack_frame.push(stack_frame);
                proof {
                    crate::lemma_deep_view_push(prev, memory.stack_frame, stack_frame);
                    assert(memory@ =~= spec_push_frame(
                        old(memory)@,
                        program_pointer,
                        false,
                        Some(*destination),
                    ));
                }
                Ok(None)
            },
            Command::CallVoid(JumpDestination::Label(_)) => {
                let stack_frame = StackFrame {
                    return_address: program_pointer,
                    entered_with_jmp: false,
                    destination: None,
                    register_state: memory.register_state(),
                };
                let ghost prev = memory.stack_frame;
                memory.stack_frame.push(stack_frame);
                proof {
                    crate::lemma_deep_view_push(prev, memory.stack_frame, stack_frame);
                    assert(memory@ =~= spec_push_frame(old(memory)@, program_pointer, false, None));
                }
                Ok(None)
            },
            Command::Jmp(JumpDestination::Label(_)) => {
                let stack_frame = StackFrame {
                    return_address: program_pointer,
                    entered_with_jmp: true,
                    destination: None,
                    register_state: memory.register_state(),
                };
                let ghost prev = memory.stack_frame;
                memory.stack_frame.push(stack_frame);
                proof {
                    crate::lemma_deep_view_push(prev, memory.stack_frame, stack_frame);
                    assert(memory@ =~= spec_push_frame(old(memory)@, program_pointer, true, None));
                }
                Ok(None)
            },
            Command::Syscall(JumpDestination::Label(label)) => {
                if str_eq(label.as_str(), "printf") {
                    match &memory.rax {
                        Type::String(format) => {
                            let raw = memory.rbx.to_string_raw();
                            let line = substitute_marker(format.as_str(), raw.as_str());
                            Ok(Some(line))
                        },
                        rest => Err(
                            MemoryError::OperationError(
                                OperationError::WrongType {
                                    expected: String::from_str("String"),
                                    actual: rest.to_display_string(),
                                },
                            ),
                        ),
                    }
                } else {
                    Ok(None)
                }
            },
            Command::Label(_) | Command::Return(_) | Command::Leave => Ok(None),
        }
    }

    /// Parses one source line as a command.
    pub fn parse(s: &str) -> (r: Result<Command, ParseError>)
        ensures
            r is Ok <==> spec_parse_command(s@) is Some,
            r matches Ok(c) ==> Some(c@) == spec_parse_command(s@),
    {
        let split = merge_quotes(s);
        proof {
            assert(forall|i: int| 0 <= i < split@.len() ==> split.deep_view()[i] == #[trigger] split@[i]@);
        }
        if split.len() == 1 {
            let instruction = split[0].as_str();
            if str_eq(instruction, "leave") {
                return Ok(Command::Leave);
            }
            let ln = instruction.unicode_len();
            if ln >= 1 && instruction.get_char(ln - 1) == ':' {
                let name = instruction.substring_char(0, ln - 1);
                proof {
                    assert(name@ =~= instruction@.take(instruction@.len() - 1));
                }
                return Ok(Command::Label(String::from_str(name)));
            }
            Err(ParseError::new("Unknown instruction"))
        } else if split.len() == 2 {
            let instruction = split[0].as_str();
            let operand = split[1].as_str();
            if str_eq(instruction, "syscall") {
                return match JumpDestination::parse(operand) {
                    Ok(d) => Ok(Command::Syscall(d)),
                    Err(e) => Err(e),
                };
            }
            if str_eq(instruction, "jmp") {
                return match JumpDestination::parse(operand) {
                    Ok(d) => Ok(Command::Jmp(d)),
                    Err(e) => Err(e),
                };
            }
            if str_eq(instruction, "ret") {
                return match Assignment::parse(operand) {
                    Ok(a) => Ok(Command::Return(a)),
                    Err(e) => Err(e),
                };
            }
            if str_eq(instruction, "call") {
                return match JumpDestination::parse(operand) {
                    Ok(d) => Ok(Command::CallVoid(d)),
                    Err(e) => Err(e),
                };
            }
            Err(ParseError::new("Unknown instruction"))
        } else if split.len() == 3 {
            let instruction = split[0].as_str();
            let destination = split[1].as_str();
            let operand = split[2].as_str();
            if str_eq(instruction, "lea") {
                let d = match Address::parse(destination) {
                    Ok(d) => d,
                    Err(e) => {
                        return Err(e);
                    },
                };
                return match Address::parse(operand) {
                    Ok(a) => Ok(Command::LoadEffectiveAddress(d, a)),
                    Err(e) => Err(e),
                };
            }
            if str_eq(instruction, "mov") {
                let d = match Address::parse(destination) {
                    Ok(d) => d,
                    Err(e) => {
                        return Err(e);
                    },
                };
                return match Assignment::parse(operand) {
                    Ok(a) => Ok(Command::Mov(d, a)),
                    Err(e) => Err(e),
                };
            }
            if str_eq(instruction, "call") {
                let d = match Address::parse(destination) {
                    Ok(d) => d,
                    Err(e) => {
                        return Err(e);
                    },
                };
                return match JumpDestination::parse(operand) {
                    Ok(l) => Ok(Command::CallRet(d, l)),
                    Err(e) => Err(e),
                };
            }
            Err(ParseError::new("Unknown instruction"))
        } else if split.len() == 4 {
            let instruction = split[0].as_str();
            let destination = split[1].as_str();
            let operand1 = split[2].as_str();
            let operand2 = split[3].as_str();
            let is_add = str_eq(instruction, "add");
            let is_sub = str_eq(instruction, "sub");
            if is_add || is_sub {
                let d = match Address::parse(destination) {
                    Ok(d) => d,
                    Err(e) => {
                        return Err(e);
                    },
                };
                let a = match Assignment::parse(operand1) {
                    Ok(a) => a,
                    Err(e) => {
                        return Err(e);
                    },
                };
                let b = match Assignment::parse(operand2) {
                    Ok(b) => b,
                    Err(e) => {
                        return Err(e);
                    },
                };
                if is_add {
                    return Ok(Command::Add(d, a, b));
                }
                return Ok(Command::Sub(d, a, b));
            }
            Err(ParseError::new("Unknown instruction"))
        } else {
            Err(ParseError::new("Unknown size of instructions"))
        }
    }
}

} // verus!
