//! The interpreter: program text loading, the static semantic check, and
//! the control-flow transitions of each command.

use vstd::prelude::*;
use vstd::string::{StrSliceExecFns, StringExecFns};
use crate::address::Address;
use crate::assignment::{Type, TypeView};
use crate::command::{spec_execute, spec_parse_command, Command, CommandView};
use crate::jump::{
    find_label, spec_find_label, spec_target_check, JumpDestination, TerminatorKind,
};
use crate::memory::{spec_get, spec_set, untyped_stack, Memory, MemoryError, MemoryView};
use crate::program_error::{ParseError, ProgramError, ProgramErrorView};

verus! {

/// The registers captured when a frame is created.
pub type RegisterMemory = (Type, Type, Type);

/// The mathematical shape of a captured register file.
pub type RegisterMemoryView = (TypeView, TypeView, TypeView);

/// The context saved when a label is entered via call or jump, restored
/// when the matching return or leave unwinds it.
#[derive(Debug)]
pub struct StackFrame {
    /// The index of the call/jump command to resume after.
    pub return_address: usize,
    /// True when the frame was created by an unconditional jump, in which
    /// case the registers are not restored on unwind.
    pub entered_with_jmp: bool,
    /// Where a returned value is stored in the caller, for value-returning
    /// calls only.
    pub destination: Option<Address>,
    /// The caller's registers at frame creation.
    pub register_state: RegisterMemory,
}

/// The mathematical shape of a [`StackFrame`].
#[verifier::ext_equal]
pub struct StackFrameView {
    pub return_address: usize,
    pub entered_with_jmp: bool,
    pub destination: Option<Address>,
    pub register_state: RegisterMemoryView,
}

impl View for StackFrame {
    type V = StackFrameView;

    open spec fn view(&self) -> StackFrameView {
        StackFrameView {
            return_address: self.return_address,
            entered_with_jmp: self.entered_with_jmp,
            destination: self.destination,
            register_state: (self.register_state.0@, self.register_state.1@, self.register_state.2@),
        }
    }
}

impl DeepView for StackFrame {
    type V = StackFrameView;

    open spec fn deep_view(&self) -> StackFrameView {
        self@
    }
}

/// A block statically rejected because some code path misses its
/// terminator.
#[derive(Debug)]
pub enum SemanticError {
    /// A value-returning call's target never reaches `ret`.
    ReturnMissing { label: String },
    /// A void call's or jump's target never reaches `ret` or `leave`.
    LeaveMissing { label: String },
}

/// The mathematical shape of a [`SemanticError`].
pub enum SemanticErrorView {
    ReturnMissing { label: Seq<char> },
    LeaveMissing { label: Seq<char> },
}

impl View for SemanticError {
    type V = SemanticErrorView;

    open spec fn view(&self) -> SemanticErrorView {
        match self {
            SemanticError::ReturnMissing { label } => (SemanticErrorView::ReturnMissing {
                label: label@,
            }),
            SemanticError::LeaveMissing { label } => (SemanticErrorView::LeaveMissing {
                label: label@,
            }),
        }
    }
}

/// The description of a static rejection.
pub open spec fn spec_semantic_error_message(e: SemanticErrorView) -> Seq<char> {
    match e {
        SemanticErrorView::ReturnMissing { label } => "The label '"@ + label
            + "' is used with an expected return value, but no `ret ASSIGNMENT` is provided for all code paths"@,
        SemanticErrorView::LeaveMissing { label } => "The label '"@ + label
            + "' is used with a leave command, but no leave command is provided in all code paths"@,
    }
}

impl SemanticError {
    /// The human-readable description of the rejection.
    pub fn message(&self) -> (m: String)
        ensures
            m@ == spec_semantic_error_message(self@),
    {
        match self {
            SemanticError::ReturnMissing { label } => {
                let m = String::from_str("The label '").concat(label.as_str()).concat(
                    "' is used with an expected return value, but no `ret ASSIGNMENT` is provided for all code paths",
                );
                proof {
                    assert(m@ =~= spec_semantic_error_message(self@));
                }
                m
            },
            SemanticError::LeaveMissing { label } => {
                let m = String::from_str("The label '").concat(label.as_str()).concat(
                    "' is used with a leave command, but no leave command is provided in all code paths",
                );
                proof {
                    assert(m@ =~= spec_semantic_error_message(self@));
                }
                m
            },
        }
    }
}

/// The program being run: the parsed commands, the program counter, and
/// the live machine state.  The command sequence is built once by
/// [`Interpreter::parse`] and never changed afterwards.
#[derive(Debug)]
pub struct Interpreter {
    pub program_pointer: usize,
    pub memory: Memory,
    pub source_code: Vec<Command>,
}

/// The mathematical shape of an [`Interpreter`].
#[verifier::ext_equal]
pub struct InterpreterView {
    pub program_pointer: usize,
    pub memory: MemoryView,
    pub source_code: Seq<CommandView>,
}

impl View for Interpreter {
    type V = InterpreterView;

    open spec fn view(&self) -> InterpreterView {
        InterpreterView {
            program_pointer: self.program_pointer,
            memory: self.memory@,
            source_code: self.source_code.deep_view(),
        }
    }
}

/// The number of cells in every program's stack.
pub const STACK_SIZE: usize = 64;

/// Whether the loader skips this line: blank, or its first non-blank
/// character starts a comment.
pub open spec fn spec_skipped_line(line: Seq<char>, i: nat) -> bool
    decreases line.len() - i,
{
    if i >= line.len() {
        true
    } else if line[i as int] == ' ' || line[i as int] == '\t' {
        spec_skipped_line(line, i + 1)
    } else {
        line[i as int] == ';'
    }
}

/// What one source line contributes to the program: nothing when skipped,
/// one command when it parses, and failure otherwise.
pub open spec fn spec_load_line(line: Seq<char>) -> Option<Seq<CommandView>> {
    if spec_skipped_line(line, 0) {
        Some(Seq::empty())
    } else {
        match spec_parse_command(line) {
            Some(c) => Some(seq![c]),
            None => None,
        }
    }
}

/// A carriage return left by a `\r\n` line ending is stripped.
pub open spec fn spec_strip_cr(line: Seq<char>) -> Seq<char> {
    if line.len() > 0 && line.last() == '\r' {
        line.drop_last()
    } else {
        line
    }
}

/// The commands of the remaining source text, given the line collected so
/// far.  Lines split at `\n` (a preceding `\r` is dropped); the loader
/// fails on the first line that neither parses nor is skipped.
pub open spec fn spec_load_rec(s: Seq<char>, cur: Seq<char>) -> Option<Seq<CommandView>>
    decreases s.len(),
{
    if s.len() == 0 {
        spec_load_line(cur)
    } else if s[0] == '\n' {
        match spec_load_line(spec_strip_cr(cur)) {
            None => None,
            Some(cs) => match spec_load_rec(s.skip(1), Seq::empty()) {
                None => None,
                Some(rest) => Some(cs + rest),
            },
        }
    } else {
        spec_load_rec(s.skip(1), cur.push(s[0]))
    }
}

/// The commands of a whole source text.
pub open spec fn spec_load_source(s: Seq<char>) -> Option<Seq<CommandView>> {
    spec_load_rec(s, Seq::empty())
}

/// Whether the loader skips this line.
fn line_skipped(line: &str) -> (b: bool)
    ensures
        b == spec_skipped_line(line@, 0),
{
    let n = line.unicode_len();
    let mut i: usize = 0;
    while i < n
        invariant
            0 <= i <= n,
            n == line@.len(),
            spec_skipped_line(line@, 0) == spec_skipped_line(line@, i as nat),
        decreases n - i,
    {
        let c = line.get_char(i);
        if c == ' ' || c == '\t' {
            i = i + 1;
        } else {
            return c == ';';
        }
    }
    true
}

impl Interpreter {
    /// Parses a whole program text into a ready-to-run interpreter: the
    /// commands of every non-skipped line, the program counter at zero,
    /// and an all-untyped machine state with an empty frame stack and a
    /// stack of [`STACK_SIZE`] cells.
    pub fn parse(s: &str) -> (r: Result<Interpreter, ParseError>)
        ensures
            r is Ok <==> spec_load_source(s@) is Some,
            r matches Ok(it) ==> {
                &&& Some(it@.source_code) == spec_load_source(s@)
                &&& it@.program_pointer == 0
                &&& it@.memory.rax == TypeView::Untyped
                &&& it@.memory.rbx == TypeView::Untyped
                &&& it@.memory.rcx == TypeView::Untyped
                &&& it@.memory.stack_frame == Seq::<StackFrameView>::empty()
                &&& it@.memory.stack.len() == STACK_SIZE
                &&& forall|i: int|
                    0 <= i < STACK_SIZE ==> it@.memory.stack[i] == TypeView::Untyped
            },
    {
        let n = s.unicode_len();
        let mut commands: Vec<Command> = Vec::new();
        let mut ls: usize = 0;
        let mut i: usize = 0;
        proof {
            assert(s@.skip(0) =~= s@);
            assert(s@.subrange(0, 0) =~= Seq::<char>::empty());
        }
        while i < n
            invariant
                0 <= ls <= i <= n,
                n == s@.len(),
                match spec_load_rec(s@.skip(i as int), s@.subrange(ls as int, i as int)) {
                    Some(rest) => spec_load_source(s@) == Some(commands.deep_view() + rest),
                    None => spec_load_source(s@) is None,
                },
            decreases n - i,
        {
            let ghost sv = s@;
            let ghost cur = sv.subrange(ls as int, i as int);
            proof {
                assert(sv.skip(i as int)[0] == sv[i as int]);
                assert(sv.skip(i as int).skip(1) =~= sv.skip(i as int + 1));
            }
            let c = s.get_char(i);
            if c == '\n' {
                let line_end = if i > ls && s.get_char(i - 1) == '\r' {
                    i - 1
                } else {
                    i
                };
                let line = s.substring_char(ls, line_end);
                proof {
                    assert(line@ =~= spec_strip_cr(cur));
                }
                if !line_skipped(line) {
                    match Command::parse(line) {
                        Ok(cmd) => {
                            let ghost prev = commands;
                            commands.push(cmd);
                            proof {
                                crate::lemma_deep_view_push(prev, commands, cmd);
                                assert(spec_load_line(line@) =~~= Some(seq![cmd@]));
                            }
                        },
                        Err(e) => {
                            return Err(e);
                        },
                    }
                }
                ls = i + 1;
                proof {
                    assert(sv.subrange(ls as int, i as int + 1) =~= Seq::<char>::empty());
                }
            } else {
                proof {
                    assert(sv.subrange(ls as int, i as int + 1) =~= cur.push(c));
                }
            }
            i = i + 1;
        }
        let line = s.substring_char(ls, n);
        proof {
            assert(s@.skip(n as int) =~= Seq::<char>::empty());
            assert(line@ =~= s@.subrange(ls as int, n as int));
        }
        if !line_skipped(line) {
            match Command::parse(line) {
                Ok(cmd) => {
                    let ghost prev = commands;
                    commands.push(cmd);
                    proof {
                        crate::lemma_deep_view_push(prev, commands, cmd);
                        assert(spec_load_line(line@) =~~= Some(seq![cmd@]));
                    }
                },
                Err(e) => {
                    return Err(e);
                },
            }
        }
        let interpreter = Interpreter {
            memory: Memory {
                rax: Type::Untyped,
                rbx: Type::Untyped,
                rcx: Type::Untyped,
                stack_frame: Vec::new(),
                stack: untyped_stack(STACK_SIZE),
            },
            program_pointer: 0,
            source_code: commands,
        };
        proof {
            assert(interpreter@.memory.stack_frame =~= Seq::<StackFrameView>::empty());
            assert(Some(interpreter@.source_code) =~~= spec_load_source(s@));
        }
        Ok(interpreter)
    }
}

/// What the static check requires of one command: call and jump targets
/// must reach their terminator; every other command passes.
pub open spec fn spec_command_check(code: Seq<CommandView>, c: CommandView) -> Result<
    (),
    ProgramErrorView,
> {
    match c {
        CommandView::CallRet(_, l) => spec_target_check(code, l, TerminatorKind::ReturnOnly),
        CommandView::CallVoid(l) => spec_target_check(code, l, TerminatorKind::ReturnOrLeave),
        CommandView::Jmp(l) => spec_target_check(code, l, TerminatorKind::ReturnOrLeave),
        _ => Ok(()),
    }
}

/// The static check of the whole program from command `i` on: the first
/// failing target's rejection, or success.
pub open spec fn spec_semantic_check_from(code: Seq<CommandView>, i: nat) -> Result<
    (),
    ProgramErrorView,
>
    decreases code.len() - i,
{
    if i >= code.len() {
        Ok(())
    } else {
        match spec_command_check(code, code[i as int]) {
            Err(e) => Err(e),
            Ok(_) => spec_semantic_check_from(code, i + 1),
        }
    }
}

/// `m` with the registers of `f` restored, unless the frame was entered
/// via an unconditional jump.
pub open spec fn spec_restore_registers(m: MemoryView, f: StackFrameView) -> MemoryView {
    if !f.entered_with_jmp {
        MemoryView {
            rax: f.register_state.0,
            rbx: f.register_state.1,
            rcx: f.register_state.2,
            ..m
        }
    } else {
        m
    }
}

/// The control effect of a call or jump: the program counter moves to the
/// first definition of the label, or the run fails label-not-found.
pub open spec fn spec_jump_to(i: InterpreterView, l: Seq<char>) -> (
    InterpreterView,
    Result<Option<TypeView>, ProgramErrorView>,
) {
    match spec_find_label(i.source_code, l, 0) {
        Some(idx) => (
            InterpreterView { program_pointer: idx as usize, ..i },
            Ok(None),
        ),
        None => (i, Err(ProgramErrorView::LabelNotFound(l))),
    }
}

/// The control effect of one command: the new interpreter state, and
/// either the terminal value (for a return or leave that empties the
/// frame stack) or the fault.
///
/// A `ret` pops the innermost frame, restores its registers unless it was
/// entered via jump, writes the value to the frame's destination if one
/// was recorded, and resumes after the call.  With no frame the value is
/// the program's result.  A `leave` does the same without a value and is
/// rejected if the innermost frame expects one; at top level it ends the
/// program with the integer zero.
pub open spec fn spec_mutate(i: InterpreterView, c: CommandView) -> (
    InterpreterView,
    Result<Option<TypeView>, ProgramErrorView>,
) {
    match c {
        CommandView::CallVoid(l) => spec_jump_to(i, l),
        CommandView::CallRet(_, l) => spec_jump_to(i, l),
        CommandView::Jmp(l) => spec_jump_to(i, l),
        CommandView::Return(a) => match spec_get(i.memory, a) {
            Err(e) => (i, Err(ProgramErrorView::Memory(e))),
            Ok(v) => if i.memory.stack_frame.len() == 0 {
                (i, Ok(Some(v)))
            } else {
                let f = i.memory.stack_frame.last();
                let m1 = MemoryView { stack_frame: i.memory.stack_frame.drop_last(), ..i.memory };
                let m2 = spec_restore_registers(m1, f);
                match f.destination {
                    Some(d) => match spec_set(m2, d, v) {
                        Ok(m3) => (
                            InterpreterView {
                                program_pointer: f.return_address,
                                memory: m3,
                                ..i
                            },
                            Ok(None),
                        ),
                        Err(e) => (
                            InterpreterView { memory: m2, ..i },
                            Err(ProgramErrorView::Memory(e)),
                        ),
                    },
                    None => (
                        InterpreterView { program_pointer: f.return_address, memory: m2, ..i },
                        Ok(None),
                    ),
                }
            },
        },
        CommandView::Leave => if i.memory.stack_frame.len() == 0 {
            (i, Ok(Some(TypeView::Integer(0))))
        } else {
            let f = i.memory.stack_frame.last();
            if f.destination is Some {
                (
                    i,
                    Err(
                        ProgramErrorView::Memory(
                            crate::memory::MemoryErrorView::SegmentationFault(
                                "Cannot leave a call that expects a return value"@,
                            ),
                        ),
                    ),
                )
            } else {
                let m1 = MemoryView { stack_frame: i.memory.stack_frame.drop_last(), ..i.memory };
                let m2 = spec_restore_registers(m1, f);
                (
                    InterpreterView { program_pointer: f.return_address, memory: m2, ..i },
                    Ok(None),
                )
            }
        },
        _ => (i, Ok(None)),
    }
}

impl Interpreter {
    /// Statically checks every call and jump of the program, before any
    /// instruction runs, per [`spec_semantic_check_from`].
    pub fn semantic_check(&self) -> (r: Result<(), ProgramError>)
        ensures
            match spec_semantic_check_from(self@.source_code, 0) {
                Ok(_) => r is Ok,
                Err(e) => r matches Err(a) && a@ == e,
            },
    {
        let ghost code = self@.source_code;
        let n = self.source_code.len();
        let mut k: usize = 0;
        while k < n
            invariant
                0 <= k <= n,
                n == code.len(),
                code == self@.source_code,
                spec_semantic_check_from(code, 0) == spec_semantic_check_from(code, k as nat),
            decreases n - k,
        {
            proof {
                assert(code[k as int] == self.source_code@[k as int]@);
            }
            let command = &self.source_code[k];
            match command {
                Command::CallRet(_, jump_destination) => {
                    match jump_destination.ends_with(self, TerminatorKind::ReturnOnly) {
                        Ok(_) => {},
                        Err(e) => {
                            return Err(e);
                        },
                    }
                },
                Command::CallVoid(jump_destination) => {
                    match jump_destination.ends_with(self, TerminatorKind::ReturnOrLeave) {
                        Ok(_) => {},
                        Err(e) => {
                            return Err(e);
                        },
                    }
                },
                Command::Jmp(jump_destination) => {
                    match jump_destination.ends_with(self, TerminatorKind::ReturnOrLeave) {
                        Ok(_) => {},
                        Err(e) => {
                            return Err(e);
                        },
                    }
                },
                _ => {},
            }
            k = k + 1;
        }
        Ok(())
    }

    /// Moves the program counter to the first definition of the label.
    fn search_label_jump(&mut self, target_label: &str) -> (r: Result<(), ProgramError>)
        ensures
            match spec_find_label(old(self)@.source_code, target_label@, 0) {
                Some(idx) => r is Ok && final(self)@ == (InterpreterView {
                    program_pointer: idx as usize,
                    ..old(self)@
                }),
                None => (r matches Err(e) && e@ == ProgramErrorView::LabelNotFound(target_label@))
                    && final(self)@ == old(self)@,
            },
    {
        match find_label(&self.source_code, target_label) {
            Some(index) => {
                self.program_pointer = index;
                Ok(())
            },
            None => Err(ProgramError::LabelNotFound(String::from_str(target_label))),
        }
    }

    /// Applies the command's control effect per [`spec_mutate`]: the
    /// terminal value when the program ends here, `None` while it runs on.
    pub fn mutate(&mut self, command: &Command) -> (r: Result<Option<Type>, ProgramError>)
        ensures
            final(self)@ == spec_mutate(old(self)@, command@).0,
            match spec_mutate(old(self)@, command@).1 {
                Ok(v) => r matches Ok(o) && o.deep_view() == v,
                Err(e) => r matches Err(a) && a@ == e,
            },
    {
        match command {
            Command::CallVoid(JumpDestination::Label(target_label))
            | Command::CallRet(_, JumpDestination::Label(target_label))
            | Command::Jmp(JumpDestination::Label(target_label)) => {
                match self.search_label_jump(target_label.as_str()) {
                    Ok(_) => Ok(None),
                    Err(e) => Err(e),
                }
            },
            Command::Return(assignment) => {
                let value = match self.memory.get(assignment) {
                    Ok(v) => v,
                    Err(e) => {
                        return Err(ProgramError::Memory(e));
                    },
                };
                if self.memory.stack_frame.len() == 0 {
                    return Ok(Some(value));
                }
                let ghost prev_frames = self.memory.stack_frame;
                let stack_frame = match self.memory.stack_frame.pop() {
                    Some(f) => f,
                    None => {
                        proof {
                            assert(false);
                        }
                        return Ok(None);
                    },
                };
                proof {
                    crate::lemma_deep_view_drop_last(prev_frames, self.memory.stack_frame);
                    assert(stack_frame@ == old(self)@.memory.stack_frame.last());
                }
                if !stack_frame.entered_with_jmp {
                    let (ra, rb, rc) = stack_frame.register_state;
                    self.memory.rax = ra;
                    self.memory.rbx = rb;
                    self.memory.rcx = rc;
                }
                match stack_frame.destination {
                    Some(destination) => {
                        match self.memory.set(&destination, value) {
                            Ok(_) => {
                                self.program_pointer = stack_frame.return_address;
                                proof {
                                    assert(self@ =~= spec_mutate(old(self)@, command@).0);
                                }
                                Ok(None)
                            },
                            Err(e) => {
                                proof {
                                    assert(self@ =~= spec_mutate(old(self)@, command@).0);
                                }
                                Err(ProgramError::Memory(e))
                            },
                        }
                    },
                    None => {
                        self.program_pointer = stack_frame.return_address;
                        proof {
                            assert(self@ =~= spec_mutate(old(self)@, command@).0);
                        }
                        Ok(None)
                    },
                }
            },
            Command::Leave => {
                let frames = self.memory.stack_frame.len();
                if frames == 0 {
                    return Ok(Some(Type::Integer(0)));
                }
                proof {
                    assert(self.memory.stack_frame@[frames - 1]@ == old(
                        self,
                    )@.memory.stack_frame.last());
                }
                let expects_value = self.memory.stack_frame[frames - 1].destination.is_some();
                if expects_value {
                    return Err(
                        ProgramError::Memory(
                            MemoryError::SegmentationFault(
                                String::from_str("Cannot leave a call that expects a return value"),
                            ),
                        ),
                    );
                }
                let ghost prev_frames = self.memory.stack_frame;
                let stack_frame = match self.memory.stack_frame.pop() {
                    Some(f) => f,
                    None => {
                        proof {
                            assert(false);
                        }
                        return Ok(None);
                    },
                };
                proof {
                    crate::lemma_deep_view_drop_last(prev_frames, self.memory.stack_frame);
                    assert(stack_frame@ == old(self)@.memory.stack_frame.last());
                }
                if !stack_frame.entered_with_jmp {
                    let (ra, rb, rc) = stack_frame.register_state;
                    self.memory.rax = ra;
                    self.memory.rbx = rb;
                    self.memory.rcx = rc;
                }
                self.program_pointer = stack_frame.return_address;
                proof {
                    assert(self@ =~= spec_mutate(old(self)@, command@).0);
                }
                Ok(None)
            },
            Command::LoadEffectiveAddress(_, _)
            | Command::Mov(_, _)
            | Command::Add(_, _, _)
            | Command::Sub(_, _, _)
            | Command::Label(_)
            | Command::Syscall(_) => Ok(None),
        }
    }
}

/// The outcome of one fetch-execute-control step.
pub enum StepView {
    /// The program goes on, possibly having printed a line.
    Running(InterpreterView, Option<Seq<char>>),
    /// The program ended with a terminal value.
    Done(InterpreterView, TypeView),
    /// The step faulted; the state is as it stood at the fault.
    Fault(InterpreterView, ProgramErrorView),
}

/// One step of the driver loop at a valid program counter: the data
/// effect, then the control effect, then the advance by one.
pub open spec fn spec_step(i: InterpreterView) -> StepView
    recommends
        i.program_pointer < i.source_code.len(),
{
    let c = i.source_code[i.program_pointer as int];
    match spec_execute(i.memory, c, i.program_pointer) {
        Err(e) => StepView::Fault(i, ProgramErrorView::Memory(e)),
        Ok(p) => {
            let i2 = InterpreterView { memory: p.0, ..i };
            match spec_mutate(i2, c) {
                (i3, Err(e)) => StepView::Fault(i3, e),
                (i3, Ok(Some(v))) => StepView::Done(i3, v),
                (i3, Ok(None)) => StepView::Running(
                    InterpreterView { program_pointer: i3.program_pointer.wrapping_add(1), ..i3 },
                    p.1,
                ),
            }
        },
    }
}

/// A run in progress or finished, with the lines printed so far.
pub enum RunView {
    Running(InterpreterView, Seq<Seq<char>>),
    /// Ended with a terminal value from a top-level return or leave.
    Done(InterpreterView, TypeView, Seq<Seq<char>>),
    /// The program counter ran past the last command.
    OffEnd(InterpreterView, Seq<Seq<char>>),
    Fault(InterpreterView, ProgramErrorView, Seq<Seq<char>>),
}

/// The printed lines one step contributes.
pub open spec fn spec_out_seq(out: Option<Seq<char>>) -> Seq<Seq<char>> {
    match out {
        Some(l) => seq![l],
        None => Seq::empty(),
    }
}

/// One transition of a run: a finished run stays as it is.
pub open spec fn spec_run_step(r: RunView) -> RunView {
    match r {
        RunView::Running(i, outs) => if i.program_pointer >= i.source_code.len() {
            RunView::OffEnd(i, outs)
        } else {
            match spec_step(i) {
                StepView::Running(i2, out) => RunView::Running(i2, outs + spec_out_seq(out)),
                StepView::Done(i2, v) => RunView::Done(i2, v, outs),
                StepView::Fault(i2, e) => RunView::Fault(i2, e, outs),
            }
        },
        _ => r,
    }
}

/// The run after `n` driver steps from state `i`.
pub open spec fn spec_run_n(i: InterpreterView, n: nat) -> RunView
    decreases n,
{
    if n == 0 {
        RunView::Running(i, Seq::empty())
    } else {
        spec_run_step(spec_run_n(i, (n - 1) as nat))
    }
}

/// The process exit code of a terminal value: an integer is itself, any
/// other kind is the fixed non-zero sentinel.
pub open spec fn spec_exit_code(v: TypeView) -> isize {
    match v {
        TypeView::Integer(a) => a,
        _ => 1,
    }
}

impl Interpreter {
    /// Runs the program: first the static semantic check (before any
    /// instruction executes), then the fetch-execute-advance loop until a
    /// terminal value, the end of the program, a fault, or `max_steps`
    /// driver steps.  Printed lines are appended to `outputs`.  The result
    /// is the exit code of the terminal value per [`spec_exit_code`],
    /// zero when the counter runs off the end, and `None` when the budget
    /// ran out with the program still going.
    ///
    /// The contract ties the outcome to the step semantics: some step
    /// count `n` reaches exactly this state, result, and output.  When
    /// the semantic check rejects the program, nothing has executed and
    /// nothing was printed.
    pub fn run(&mut self, outputs: &mut Vec<String>, max_steps: usize) -> (r: Result<
        Option<isize>,
        ProgramError,
    >)
        ensures
            match spec_semantic_check_from(old(self)@.source_code, 0) {
                Err(e) => (r matches Err(a) && a@ == e) && final(self)@ == old(self)@
                    && final(outputs)@ == old(outputs)@,
                Ok(_) => exists|n: nat|
                    #![trigger spec_run_n(old(self)@, n)]
                    n <= max_steps && match spec_run_n(old(self)@, n) {
                        RunView::Done(i2, v, outs) => final(self)@ == i2 && (r matches Ok(c)
                            && c == Some(spec_exit_code(v))) && final(outputs).deep_view()
                            == old(outputs).deep_view() + outs,
                        RunView::OffEnd(i2, outs) => final(self)@ == i2 && (r matches Ok(c) && c
                            == Some(0isize)) && final(outputs).deep_view()
                            == old(outputs).deep_view() + outs,
                        RunView::Fault(i2, e, outs) => final(self)@ == i2 && (r matches Err(a)
                            && a@ == e) && final(outputs).deep_view() == old(outputs).deep_view()
                            + outs,
                        RunView::Running(i2, outs) => n == max_steps && final(self)@ == i2 && (
                        r matches Ok(c) && c is None) && final(outputs).deep_view()
                            == old(outputs).deep_view() + outs,
                    },
            },
    {
        match self.semantic_check() {
            Ok(_) => {},
            Err(e) => {
                return Err(e);
            },
        }
        let ghost init = self@;
        let ghost out_base = outputs.deep_view();
        let ghost mut outs: Seq<Seq<char>> = Seq::empty();
        let mut steps: usize = 0;
        proof {
            assert(outputs.deep_view() =~~= out_base + outs);
        }
        while steps < max_steps
            invariant
                0 <= steps <= max_steps,
                init == old(self)@,
                out_base == old(outputs).deep_view(),
                spec_semantic_check_from(old(self)@.source_code, 0) is Ok,
                spec_run_n(init, steps as nat) == RunView::Running(self@, outs),
                outputs.deep_view() == out_base + outs,
            decreases max_steps - steps,
        {
            let ghost pre = self@;
            if self.program_pointer >= self.source_code.len() {
                proof {
                    assert(spec_run_n(init, steps as nat + 1) == RunView::OffEnd(self@, outs));
                }
                return Ok(Some(0));
            }
            let pp = self.program_pointer;
            proof {
                assert(self@.source_code[pp as int] == self.source_code@[pp as int]@);
            }
            let command = self.source_code[pp].clone();
            let out_line = match command.execute(&mut self.memory, pp) {
                Ok(o) => o,
                Err(e) => {
                    proof {
                        assert(spec_step(pre) == StepView::Fault(
                            pre,
                            ProgramErrorView::Memory(e@),
                        )) by {
                            assert(self@ =~= pre);
                        }
                        assert(spec_run_n(init, steps as nat + 1) == RunView::Fault(
                            pre,
                            ProgramErrorView::Memory(e@),
                            outs,
                        ));
                        assert(self@ =~= pre);
                    }
                    return Err(ProgramError::Memory(e));
                },
            };
            let ghost mid = self@;
            proof {
                assert(spec_execute(pre.memory, command@, pp) matches Ok(p) && mid
                    == (InterpreterView { memory: p.0, ..pre }) && out_line.deep_view() == p.1)
                    by {
                    assert(mid =~= (InterpreterView {
                        memory: spec_execute(pre.memory, command@, pp)->Ok_0.0,
                        ..pre
                    }));
                }
            }
            match self.mutate(&command) {
                Err(e) => {
                    proof {
                        assert(spec_step(pre) == StepView::Fault(self@, e@));
                        assert(spec_run_n(init, steps as nat + 1) == RunView::Fault(self@, e@, outs));
                    }
                    return Err(e);
                },
                Ok(Some(holding_value)) => {
                    proof {
                        assert(spec_step(pre) == StepView::Done(self@, holding_value@));
                        assert(spec_run_n(init, steps as nat + 1) == RunView::Done(
                            self@,
                            holding_value@,
                            outs,
                        ));
                    }
                    let exit_code: isize = match holding_value {
                        Type::String(_) => 1,
                        Type::Integer(a) => a,
                        Type::Address(_) => 1,
                        Type::Untyped => 1,
                    };
                    return Ok(Some(exit_code));
                },
                Ok(None) => {
                    self.program_pointer = self.program_pointer.wrapping_add(1);
                    let ghost out_v = out_line.deep_view();
                    let ghost prev_outs = outs;
                    proof {
                        assert(spec_step(pre) matches StepView::Running(i2, o) && i2 == self@
                            && o == out_v) by {
                            assert(self@ =~= (InterpreterView {
                                program_pointer: spec_mutate(
                                    mid,
                                    command@,
                                ).0.program_pointer.wrapping_add(1),
                                ..spec_mutate(mid, command@).0
                            }));
                        }
                    }
                    match out_line {
                        Some(line) => {
                            proof {
                                outs = outs + seq![line@];
                                assert(outs =~~= prev_outs + spec_out_seq(out_v));
                            }
                            let ghost prev_out = *outputs;
                            outputs.push(line);
                            proof {
                                crate::lemma_deep_view_push(prev_out, *outputs, line);
                                assert(outputs.deep_view() =~~= out_base + outs);
                            }
                        },
                        None => {
                            proof {
                                assert(outs =~~= prev_outs + spec_out_seq(out_v));
                            }
                        },
                    }
                    proof {
                        assert(spec_run_n(init, steps as nat + 1) == RunView::Running(self@, outs));
                    }
                    steps = steps + 1;
                },
            }
        }
        Ok(None)
    }
}

/// The first index at or after `min` holding a typed (non-default) value.
pub open spec fn spec_first_typed(stack: Seq<TypeView>, min: nat) -> Option<nat>
    decreases stack.len() - min,
{
    if min >= stack.len() {
        None
    } else if !(stack[min as int] is Untyped) {
        Some(min)
    } else {
        spec_first_typed(stack, min + 1)
    }
}

proof fn lemma_first_typed_ge(stack: Seq<TypeView>, min: nat)
    ensures
        spec_first_typed(stack, min) matches Some(p) ==> min <= p < stack.len(),
    decreases stack.len() - min,
{
    if min < stack.len() && stack[min as int] is Untyped {
        lemma_first_typed_ge(stack, min + 1);
    }
}

/// One dump line for a run of untyped cells from `from` to `to`.
pub open spec fn spec_untyped_line(from: nat, to: nat) -> Seq<char> {
    crate::text::dec_of(from) + ".."@ + crate::text::dec_of(to) + ": "@ + "Untyped"@
}

/// One dump line for the typed value at index `p`.
pub open spec fn spec_entry_line(p: nat, t: TypeView) -> Seq<char> {
    crate::text::dec_of(p) + ": "@ + crate::assignment::spec_display(t)
}

/// The dump lines of the stack from index `min` on: each typed cell on a
/// line of its own, each run of untyped cells compressed into a range,
/// and a final range up to the stack's length.
pub open spec fn spec_stack_lines(stack: Seq<TypeView>, min: nat) -> Seq<Seq<char>>
    decreases stack.len() - min,
    via spec_stack_lines_decreases
{
    match spec_first_typed(stack, min) {
        Some(p) => {
            let head = if p != min {
                seq![spec_untyped_line(min, (p - 1) as nat)]
            } else {
                Seq::empty()
            };
            head + seq![spec_entry_line(p, stack[p as int])] + spec_stack_lines(stack, p + 1)
        },
        None => seq![spec_untyped_line(min, stack.len())],
    }
}

#[via_fn]
proof fn spec_stack_lines_decreases(stack: Seq<TypeView>, min: nat) {
    lemma_first_typed_ge(stack, min);
}

/// Renders the stack for the final state dump, per [`spec_stack_lines`].
pub fn pretty_print_stack(min: usize, stack: &Vec<Type>) -> (lines: Vec<String>)
    ensures
        lines.deep_view() == spec_stack_lines(stack.deep_view(), min as nat),
{
    let mut printing_stack: Vec<String> = Vec::new();
    pretty_print_stack_helper(min, stack, &mut printing_stack);
    proof {
        assert(printing_stack.deep_view() =~~= spec_stack_lines(stack.deep_view(), min as nat));
    }
    printing_stack
}

/// Finds the first typed cell at or after `min`.
fn first_typed(stack: &Vec<Type>, min: usize) -> (r: Option<usize>)
    ensures
        (match r {
            Some(p) => Some(p as nat),
            None => None::<nat>,
        }) == spec_first_typed(stack.deep_view(), min as nat),
        r matches Some(p) ==> min <= p < stack@.len(),
{
    let ghost sv = stack.deep_view();
    let n = stack.len();
    let mut idx: usize = min;
    while idx < n
        invariant
            min <= idx,
            n == sv.len(),
            sv == stack.deep_view(),
            spec_first_typed(sv, min as nat) == if idx < n || n <= min {
                spec_first_typed(sv, idx as nat)
            } else {
                None::<nat>
            },
        decreases n - idx,
    {
        proof {
            assert(sv[idx as int] == stack@[idx as int]@);
        }
        let is_typed = match &stack[idx] {
            Type::Untyped => false,
            _ => true,
        };
        if is_typed {
            return Some(idx);
        }
        idx = idx + 1;
    }
    None
}

/// Builds the `from..to: Untyped` range line.
fn untyped_line(from: usize, to: usize) -> (s: String)
    ensures
        s@ == spec_untyped_line(from as nat, to as nat),
{
    let a = crate::text::usize_to_dec(from);
    let b = crate::text::usize_to_dec(to);
    let s = a.concat("..").concat(b.as_str()).concat(": ").concat("Untyped");
    proof {
        assert(s@ =~= spec_untyped_line(from as nat, to as nat));
    }
    s
}

/// Appends the dump lines of the stack from `min` on.
pub fn pretty_print_stack_helper(min: usize, stack: &Vec<Type>, printing_stack: &mut Vec<String>)
    ensures
        final(printing_stack).deep_view() == old(printing_stack).deep_view() + spec_stack_lines(
            stack.deep_view(),
            min as nat,
        ),
    decreases stack@.len() - min,
{
    let ghost sv = stack.deep_view();
    let n = stack.len();
    let found = first_typed(stack, min);
    match found {
        Some(typed_position) => {
            let ghost base = printing_stack.deep_view();
            if typed_position != min {
                let line = untyped_line(min, typed_position - 1);
                let ghost prev = *printing_stack;
                printing_stack.push(line);
                proof {
                    crate::lemma_deep_view_push(prev, *printing_stack, line);
                }
            }
            proof {
                assert(sv[typed_position as int] == stack@[typed_position as int]@);
            }
            let shown = stack[typed_position].to_display_string();
            let num = crate::text::usize_to_dec(typed_position);
            let entry = num.concat(": ").concat(shown.as_str());
            proof {
                assert(entry@ =~= spec_entry_line(
                    typed_position as nat,
                    sv[typed_position as int],
                ));
            }
            let ghost prev = *printing_stack;
            printing_stack.push(entry);
            proof {
                crate::lemma_deep_view_push(prev, *printing_stack, entry);
            }
            pretty_print_stack_helper(typed_position + 1, stack, printing_stack);
            proof {
                assert(printing_stack.deep_view() =~~= base + spec_stack_lines(sv, min as nat));
            }
        },
        None => {
            let line = untyped_line(min, n);
            let ghost prev = *printing_stack;
            printing_stack.push(line);
            proof {
                crate::lemma_deep_view_push(prev, *printing_stack, line);
                assert(printing_stack.deep_view() =~~= old(printing_stack).deep_view()
                    + spec_stack_lines(sv, min as nat));
            }
        },
    }
}

/// Whether a command is pure straight-line data flow: no call, jump,
/// return or leave.
pub open spec fn spec_is_straight(c: CommandView) -> bool {
    match c {
        CommandView::CallRet(_, _) => false,
        CommandView::CallVoid(_) => false,
        CommandView::Jmp(_) => false,
        CommandView::Return(_) => false,
        CommandView::Leave => false,
        _ => true,
    }
}

/// In a straight-line program — one whose commands make no calls, jumps,
/// returns or leaves — executing `n` instructions advances the program
/// counter by exactly `n`, and the program itself never changes.
pub proof fn lemma_straight_line_pc(i: InterpreterView, n: nat)
    requires
        forall|k: int| 0 <= k < i.source_code.len() ==> spec_is_straight(#[trigger] i.source_code[k]),
        i.source_code.len() <= usize::MAX,
    ensures
        spec_run_n(i, n) matches RunView::Running(j, outs) ==> j.program_pointer
            == i.program_pointer + n && j.source_code == i.source_code,
    decreases n,
{
    if n > 0 {
        lemma_straight_line_pc(i, (n - 1) as nat);
        match spec_run_n(i, (n - 1) as nat) {
            RunView::Running(j, outs) => {
                if j.program_pointer < j.source_code.len() {
                    let c = j.source_code[j.program_pointer as int];
                    assert(spec_is_straight(c));
                    match spec_execute(j.memory, c, j.program_pointer) {
                        Ok(p) => {
                            let j2 = InterpreterView { memory: p.0, ..j };
                            assert(spec_mutate(j2, c) == (j2, Ok::<
                                Option<TypeView>,
                                ProgramErrorView,
                            >(None)));
                        },
                        Err(_) => {},
                    }
                }
            },
            _ => {},
        }
    }
}

proof fn lemma_semantic_check_covers(code: Seq<CommandView>, j: nat, k: int)
    requires
        spec_semantic_check_from(code, j) is Ok,
        j <= k < code.len(),
    ensures
        spec_command_check(code, code[k]) is Ok,
    decreases code.len() - j,
{
    if j < code.len() && k != j {
        lemma_semantic_check_covers(code, j + 1, k);
    }
}

/// A value-returning call to a label whose block never reaches `ret` is
/// rejected by the static check of the whole program; when the label is
/// defined, the rejection for that call is the missing-return diagnostic
/// naming the label.  (The check runs before any instruction executes:
/// [`Interpreter::run`] promises an untouched state in that case.)
pub proof fn lemma_missing_return_rejected(
    code: Seq<CommandView>,
    k: int,
    d: Address,
    label: Seq<char>,
)
    requires
        0 <= k < code.len(),
        code[k] == CommandView::CallRet(d, label),
        spec_target_check(code, label, TerminatorKind::ReturnOnly) is Err,
    ensures
        spec_semantic_check_from(code, 0) is Err,
        spec_find_label(code, label, 0) is Some ==> spec_target_check(
            code,
            label,
            TerminatorKind::ReturnOnly,
        ) == Err::<(), ProgramErrorView>(
            ProgramErrorView::Semantic(SemanticErrorView::ReturnMissing { label }),
        ),
{
    if spec_semantic_check_from(code, 0) is Ok {
        lemma_semantic_check_covers(code, 0, k);
        assert(false);
    }
}

} // verus!
