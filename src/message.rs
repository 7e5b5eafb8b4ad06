use crate::lexer::Span;
use crate::semantics::{DataType, TypeView};
use vstd::prelude::*;

verus! {

/// What a diagnostic renderer needs to show a message against the source.
pub struct Context {
    pub filename: String,
    pub source: String,
}

#[derive(Clone, Copy, Debug, PartialEq, Eq, Structural)]
pub enum Severity {
    Error,
    Warning,
    Hint,
}

/// Every message the front end can report, with the names and types it cites.
#[derive(Debug)]
pub enum Message {
    UnexpectedCharacter,
    NestedFunction,
    FunctionRedeclared(String),
    UnknownReturnType(String),
    MainHasParameters,
    MainReturnsValue,
    MainNotGlobal,
    MightNotReturn(String, String),
    VariableRedeclared(String),
    InvalidDeducedType(String, DataType),
    UnknownDataType(String),
    IncompatibleDeclaration(String, DataType, String),
    ReturnOutsideFunction,
    ReturnMissingValue,
    ReturnHasValue,
    NoValue,
    IntegerTooLarge,
    IntegerTooSmall,
    ArithmeticTypes(DataType, DataType),
    NegateType(DataType),
    DivisionByZero,
    UndeclaredFunction(String),
    UndeclaredVariable(String),
    /// Callee name, expected and given argument counts.
    ArgumentCount(String, usize, usize),
    NotAFunction(String),
    CompositeCallee,
    AssignTypes(DataType, DataType),
    ImmutableAssign(String),
    IndirectAssign,
    BreakOutsideLoop,
    ContinueOutsideLoop,
    UnusedVariable(String),
    NeedlessMutability(String),
    DeclaredAgain(String),
    FunctionSignature(String, DataType),
    DeclaredAsType(String, DataType),
    DeclaredImmutable(String),
    RequiresReturnValue(String, String),
    ReturnsNothing(String),
}

/// The mathematical value of a `Message`: strings as character sequences.
pub enum MessageView {
    UnexpectedCharacter,
    NestedFunction,
    FunctionRedeclared(Seq<char>),
    UnknownReturnType(Seq<char>),
    MainHasParameters,
    MainReturnsValue,
    MainNotGlobal,
    MightNotReturn(Seq<char>, Seq<char>),
    VariableRedeclared(Seq<char>),
    InvalidDeducedType(Seq<char>, TypeView),
    UnknownDataType(Seq<char>),
    IncompatibleDeclaration(Seq<char>, TypeView, Seq<char>),
    ReturnOutsideFunction,
    ReturnMissingValue,
    ReturnHasValue,
    NoValue,
    IntegerTooLarge,
    IntegerTooSmall,
    ArithmeticTypes(TypeView, TypeView),
    NegateType(TypeView),
    DivisionByZero,
    UndeclaredFunction(Seq<char>),
    UndeclaredVariable(Seq<char>),
    ArgumentCount(Seq<char>, nat, nat),
    NotAFunction(Seq<char>),
    CompositeCallee,
    AssignTypes(TypeView, TypeView),
    ImmutableAssign(Seq<char>),
    IndirectAssign,
    BreakOutsideLoop,
    ContinueOutsideLoop,
    UnusedVariable(Seq<char>),
    NeedlessMutability(Seq<char>),
    DeclaredAgain(Seq<char>),
    FunctionSignature(Seq<char>, TypeView),
    DeclaredAsType(Seq<char>, TypeView),
    DeclaredImmutable(Seq<char>),
    RequiresReturnValue(Seq<char>, Seq<char>),
    ReturnsNothing(Seq<char>),
}

impl View for Message {
    type V = MessageView;

    open spec fn view(&self) -> MessageView {
        match self {
            Message::UnexpectedCharacter => MessageView::UnexpectedCharacter,
            Message::NestedFunction => MessageView::NestedFunction,
            Message::FunctionRedeclared(s) => MessageView::FunctionRedeclared(s@),
            Message::UnknownReturnType(s) => MessageView::UnknownReturnType(s@),
            Message::MainHasParameters => MessageView::MainHasParameters,
            Message::MainReturnsValue => MessageView::MainReturnsValue,
            Message::MainNotGlobal => MessageView::MainNotGlobal,
            Message::MightNotReturn(s, t) => MessageView::MightNotReturn(s@, t@),
            Message::VariableRedeclared(s) => MessageView::VariableRedeclared(s@),
            Message::InvalidDeducedType(s, t) => MessageView::InvalidDeducedType(s@, t@),
            Message::UnknownDataType(s) => MessageView::UnknownDataType(s@),
            Message::IncompatibleDeclaration(s, t, d) => MessageView::IncompatibleDeclaration(
                s@,
                t@,
                d@,
            ),
            Message::ReturnOutsideFunction => MessageView::ReturnOutsideFunction,
            Message::ReturnMissingValue => MessageView::ReturnMissingValue,
            Message::ReturnHasValue => MessageView::ReturnHasValue,
            Message::NoValue => MessageView::NoValue,
            Message::IntegerTooLarge => MessageView::IntegerTooLarge,
            Message::IntegerTooSmall => MessageView::IntegerTooSmall,
            Message::ArithmeticTypes(a, b) => MessageView::ArithmeticTypes(a@, b@),
            Message::NegateType(a) => MessageView::NegateType(a@),
            Message::DivisionByZero => MessageView::DivisionByZero,
            Message::UndeclaredFunction(s) => MessageView::UndeclaredFunction(s@),
            Message::UndeclaredVariable(s) => MessageView::UndeclaredVariable(s@),
            Message::ArgumentCount(s, e, g) => MessageView::ArgumentCount(s@, *e as nat, *g as nat),
            Message::NotAFunction(s) => MessageView::NotAFunction(s@),
            Message::CompositeCallee => MessageView::CompositeCallee,
            Message::AssignTypes(a, b) => MessageView::AssignTypes(a@, b@),
            Message::ImmutableAssign(s) => MessageView::ImmutableAssign(s@),
            Message::IndirectAssign => MessageView::IndirectAssign,
            Message::BreakOutsideLoop => MessageView::BreakOutsideLoop,
            Message::ContinueOutsideLoop => MessageView::ContinueOutsideLoop,
            Message::UnusedVariable(s) => MessageView::UnusedVariable(s@),
            Message::NeedlessMutability(s) => MessageView::NeedlessMutability(s@),
            Message::DeclaredAgain(s) => MessageView::DeclaredAgain(s@),
            Message::FunctionSignature(s, t) => MessageView::FunctionSignature(s@, t@),
            Message::DeclaredAsType(s, t) => MessageView::DeclaredAsType(s@, t@),
            Message::DeclaredImmutable(s) => MessageView::DeclaredImmutable(s@),
            Message::RequiresReturnValue(s, t) => MessageView::RequiresReturnValue(s@, t@),
            Message::ReturnsNothing(s) => MessageView::ReturnsNothing(s@),
        }
    }
}

/// One reported message: its severity, what it says and where it points.
#[derive(Debug)]
pub struct Diagnostic {
    pub severity: Severity,
    pub message: Message,
    pub span: Option<Span>,
}

pub struct DiagView {
    pub severity: Severity,
    pub message: MessageView,
    pub span: Option<Span>,
}

impl View for Diagnostic {
    type V = DiagView;

    open spec fn view(&self) -> DiagView {
        DiagView { severity: self.severity, message: self.message@, span: self.span }
    }
}

/// The contents of a diagnostic log.
pub open spec fn log_view(log: Seq<Diagnostic>) -> Seq<DiagView> {
    log.map_values(|d: Diagnostic| d@)
}

/// Whether a log holds an error-level diagnostic.
pub open spec fn has_error(log: Seq<DiagView>) -> bool {
    exists|i: int| 0 <= i < log.len() && (#[trigger] log[i]).severity == Severity::Error
}

/// Appends a diagnostic of the given severity to the log.
fn report(log: &mut Vec<Diagnostic>, severity: Severity, message: Message, span: Option<Span>)
    ensures
        log_view(final(log)@) == log_view(old(log)@).push(
            DiagView { severity, message: message@, span },
        ),
{
    let d = Diagnostic { severity, message, span };
    let ghost dv = d@;
    log.push(d);
    proof {
        assert(log_view(log@) =~= log_view(old(log)@).push(dv));
    }
}

/// Records an error; any error makes the compilation fail.
pub fn error(log: &mut Vec<Diagnostic>, message: Message, span: Option<Span>)
    ensures
        log_view(final(log)@) == log_view(old(log)@).push(
            DiagView { severity: Severity::Error, message: message@, span },
        ),
{
    report(log, Severity::Error, message, span)
}

/// Records a warning, which does not affect the verdict.
pub fn warning(log: &mut Vec<Diagnostic>, message: Message, span: Option<Span>)
    ensures
        log_view(final(log)@) == log_view(old(log)@).push(
            DiagView { severity: Severity::Warning, message: message@, span },
        ),
{
    report(log, Severity::Warning, message, span)
}

/// Records a hint that explains the diagnostic before it.
pub fn hint(log: &mut Vec<Diagnostic>, message: Message, span: Option<Span>)
    ensures
        log_view(final(log)@) == log_view(old(log)@).push(
            DiagView { severity: Severity::Hint, message: message@, span },
        ),
{
    report(log, Severity::Hint, message, span)
}

/// Whether the log holds at least one error.
pub fn errored(log: &Vec<Diagnostic>) -> (r: bool)
    ensures
        r == has_error(log_view(log@)),
{
    let mut i: usize = 0;
    while i < log.len()
        invariant
            i <= log.len(),
            forall|k: int| 0 <= k < i ==> log@[k].severity != Severity::Error,
        decreases log.len() - i,
    {
        if log[i].severity == Severity::Error {
            assert(log_view(log@)[i as int].severity == Severity::Error);
            return true;
        }
        i = i + 1;
    }
    proof {
        assert forall|k: int| 0 <= k < log_view(log@).len() implies (#[trigger] log_view(
            log@,
        )[k]).severity != Severity::Error by {
            assert(log@[k].severity != Severity::Error);
        }
    }
    false
}

} // verus!
