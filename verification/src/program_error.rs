use vstd::prelude::*;
use vstd::string::StringExecFns;
use crate::interpreter::{spec_semantic_error_message, SemanticError, SemanticErrorView};
use crate::memory::{spec_memory_error_message, MemoryError, MemoryErrorView};

verus! {

/// A diagnostic produced while turning source text into commands.
#[derive(Debug)]
pub struct ParseError {
    message: String,
}

impl View for ParseError {
    type V = Seq<char>;

    closed spec fn view(&self) -> Seq<char> {
        self.message@
    }
}

impl ParseError {
    /// Wraps a diagnostic message.
    pub fn new(message: &str) -> (e: Self)
        ensures
            e@ == message@,
    {
        Self { message: String::from_str(message) }
    }

    /// The diagnostic message carried by this error.
    pub fn message(&self) -> (m: &str)
        ensures
            m@ == self@,
    {
        self.message.as_str()
    }
}

/// Any failure a program can report: a bad line, a runtime memory fault,
/// a statically rejected block, or a missing call/jump target.
#[derive(Debug)]
pub enum ProgramError {
    Parse(ParseError),
    Memory(MemoryError),
    Semantic(SemanticError),
    LabelNotFound(String),
}

/// The mathematical shape of a [`ProgramError`].
pub enum ProgramErrorView {
    Parse(Seq<char>),
    Memory(MemoryErrorView),
    Semantic(SemanticErrorView),
    LabelNotFound(Seq<char>),
}

impl View for ProgramError {
    type V = ProgramErrorView;

    open spec fn view(&self) -> ProgramErrorView {
        match self {
            ProgramError::Parse(p) => ProgramErrorView::Parse(p@),
            ProgramError::Memory(m) => ProgramErrorView::Memory(m@),
            ProgramError::Semantic(s) => ProgramErrorView::Semantic(s@),
            ProgramError::LabelNotFound(l) => ProgramErrorView::LabelNotFound(l@),
        }
    }
}

/// The description of a program failure.
pub open spec fn spec_program_error_message(e: ProgramErrorView) -> Seq<char> {
    match e {
        ProgramErrorView::Parse(p) => "Failed parsing the string: "@ + p,
        ProgramErrorView::Memory(m) => spec_memory_error_message(m),
        ProgramErrorView::Semantic(s) => spec_semantic_error_message(s),
        ProgramErrorView::LabelNotFound(l) => "Cannot find jmp destination "@ + l,
    }
}

impl ProgramError {
    /// The human-readable description of the failure.
    pub fn message(&self) -> (m: String)
        ensures
            m@ == spec_program_error_message(self@),
    {
        match self {
            ProgramError::Parse(p) => {
                let m = String::from_str("Failed parsing the string: ").concat(p.message());
                proof {
                    assert(m@ =~= spec_program_error_message(self@));
                }
                m
            },
            ProgramError::Memory(e) => e.message(),
            ProgramError::Semantic(s) => s.message(),
            ProgramError::LabelNotFound(l) => {
                let m = String::from_str("Cannot find jmp destination ").concat(l.as_str());
                proof {
                    assert(m@ =~= spec_program_error_message(self@));
                }
                m
            },
        }
    }
}

} // verus!
