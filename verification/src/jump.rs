//! Call/jump targets: a label name, and the static scan that checks a
//! label's block reaches its required terminator.

use vstd::prelude::*;
use vstd::string::StringExecFns;
use crate::command::{Command, CommandView};
use crate::interpreter::{Interpreter, SemanticError, SemanticErrorView};
use crate::program_error::{ParseError, ProgramError, ProgramErrorView};
use crate::text::str_eq;

verus! {

/// The target of a call, jump or syscall: a label name.
#[derive(Debug, PartialEq)]
pub enum JumpDestination {
    Label(String),
}

impl View for JumpDestination {
    type V = Seq<char>;

    open spec fn view(&self) -> Seq<char> {
        match self {
            JumpDestination::Label(l) => l@,
        }
    }
}

impl Clone for JumpDestination {
    fn clone(&self) -> (r: Self)
        ensures
            r@ == self@,
    {
        match self {
            JumpDestination::Label(l) => JumpDestination::Label(l.clone()),
        }
    }
}

impl JumpDestination {
    /// Every token is a valid label name.
    pub fn parse(s: &str) -> (r: Result<JumpDestination, ParseError>)
        ensures
            r matches Ok(d) && d@ == s@,
    {
        Ok(JumpDestination::Label(String::from_str(s)))
    }

    /// The label name.
    pub fn label(&self) -> (l: &String)
        ensures
            l@ == self@,
    {
        match self {
            JumpDestination::Label(l) => l,
        }
    }
}

/// Which terminator a block must reach: `ret` for value-returning calls,
/// `ret` or `leave` for void calls and jumps.
#[derive(Debug, Clone, Copy, PartialEq, Eq, Structural)]
pub enum TerminatorKind {
    ReturnOnly,
    ReturnOrLeave,
}

/// Whether `c` closes a block of the given kind.
pub open spec fn spec_is_terminator(c: CommandView, kind: TerminatorKind) -> bool {
    match kind {
        TerminatorKind::ReturnOnly => c is Return,
        TerminatorKind::ReturnOrLeave => c is Return || c is Leave,
    }
}

/// The index of the first definition of `label` at or after `i`.
pub open spec fn spec_find_label(code: Seq<CommandView>, label: Seq<char>, i: nat) -> Option<nat>
    decreases code.len() - i,
{
    if i >= code.len() {
        None
    } else if code[i as int] matches CommandView::Label(x) && x == label {
        Some(i)
    } else {
        spec_find_label(code, label, i + 1)
    }
}

/// Whether the straight-line scan from `i` reaches a terminator of the
/// given kind before a different label definition or the end of the
/// program.  Calls and jumps inside the block are stepped over, not
/// followed.
pub open spec fn spec_block_ends(
    code: Seq<CommandView>,
    label: Seq<char>,
    kind: TerminatorKind,
    i: nat,
) -> bool
    decreases code.len() - i,
{
    if i >= code.len() {
        false
    } else if code[i as int] matches CommandView::Label(x) && x != label {
        false
    } else if spec_is_terminator(code[i as int], kind) {
        true
    } else {
        spec_block_ends(code, label, kind, i + 1)
    }
}

/// The rejection reported when a block of the given kind does not end.
pub open spec fn spec_missing_terminator(kind: TerminatorKind, label: Seq<char>) -> SemanticErrorView {
    match kind {
        TerminatorKind::ReturnOnly => SemanticErrorView::ReturnMissing { label },
        TerminatorKind::ReturnOrLeave => SemanticErrorView::LeaveMissing { label },
    }
}

/// What the static check of one call/jump target yields: success when the
/// label exists and its block terminates; the missing-terminator rejection
/// when it does not; label-not-found when the label is undefined.
pub open spec fn spec_target_check(
    code: Seq<CommandView>,
    label: Seq<char>,
    kind: TerminatorKind,
) -> Result<(), ProgramErrorView> {
    match spec_find_label(code, label, 0) {
        None => Err(ProgramErrorView::LabelNotFound(label)),
        Some(idx) => if spec_block_ends(code, label, kind, idx) {
            Ok(())
        } else {
            Err(ProgramErrorView::Semantic(spec_missing_terminator(kind, label)))
        },
    }
}

/// Finds the first definition of `label` in the program.
pub fn find_label(code: &Vec<Command>, label: &str) -> (r: Option<usize>)
    ensures
        r is Some <==> spec_find_label(code.deep_view(), label@, 0) is Some,
        r matches Some(i) ==> spec_find_label(code.deep_view(), label@, 0) == Some(i as nat)
            && i < code.deep_view().len(),
{
    let n = code.len();
    let mut j: usize = 0;
    while j < n
        invariant
            0 <= j <= n,
            n == code.deep_view().len(),
            n == code@.len(),
            spec_find_label(code.deep_view(), label@, 0) == spec_find_label(
                code.deep_view(),
                label@,
                j as nat,
            ),
        decreases n - j,
    {
        proof {
            assert(code.deep_view()[j as int] == code@[j as int]@);
        }
        match &code[j] {
            Command::Label(source_label) => {
                if str_eq(source_label.as_str(), label) {
                    return Some(j);
                }
            },
            _ => {},
        }
        j = j + 1;
    }
    None
}

impl JumpDestination {
    /// Statically checks that this target's block reaches a terminator of
    /// the given kind, per [`spec_target_check`].
    pub fn ends_with(&self, interpreter: &Interpreter, kind: TerminatorKind) -> (r: Result<
        (),
        ProgramError,
    >)
        ensures
            match spec_target_check(interpreter@.source_code, self@, kind) {
                Ok(_) => r is Ok,
                Err(e) => r matches Err(a) && a@ == e,
            },
    {
        let target_label = self.label();
        let ghost code = interpreter@.source_code;
        let idx = match find_label(&interpreter.source_code, target_label.as_str()) {
            Some(i) => i,
            None => {
                return Err(ProgramError::LabelNotFound(target_label.clone()));
            },
        };
        let n = interpreter.source_code.len();
        let mut j: usize = idx;
        while j < n
            invariant
                idx <= j <= n,
                n == code.len(),
                code == interpreter@.source_code,
                spec_block_ends(code, self@, kind, idx as nat) == spec_block_ends(
                    code,
                    self@,
                    kind,
                    j as nat,
                ),
                spec_find_label(code, self@, 0) == Some(idx as nat),
                target_label@ == self@,
            decreases n - j,
        {
            proof {
                assert(code[j as int] == interpreter.source_code@[j as int]@);
            }
            let command = &interpreter.source_code[j];
            match command {
                Command::Label(label) => {
                    if !str_eq(label.as_str(), target_label.as_str()) {
                        return Err(
                            ProgramError::Semantic(self.missing_terminator_error(kind)),
                        );
                    }
                },
                _ => {},
            }
            let is_end = match kind {
                TerminatorKind::ReturnOnly => (match command {
                    Command::Return(_) => true,
                    _ => false,
                }),
                TerminatorKind::ReturnOrLeave => (match command {
                    Command::Return(_) => true,
                    Command::Leave => true,
                    _ => false,
                }),
            };
            if is_end {
                return Ok(());
            }
            j = j + 1;
        }
        Err(ProgramError::Semantic(self.missing_terminator_error(kind)))
    }

    /// The rejection for this target, per [`spec_missing_terminator`].
    fn missing_terminator_error(&self, kind: TerminatorKind) -> (e: SemanticError)
        ensures
            e@ == spec_missing_terminator(kind, self@),
    {
        let label = self.label().clone();
        match kind {
            TerminatorKind::ReturnOnly => SemanticError::ReturnMissing { label },
            TerminatorKind::ReturnOrLeave => SemanticError::LeaveMissing { label },
        }
    }
}

} // verus!
