//! The errors of the machine and of the parser.
use vstd::prelude::*;

use crate::text::{chars_of, int_text, string_of, usize_text};
use crate::value::{Value, ValueView};

verus! {

/// Why the machine stopped; `ip` is the index of the instruction that failed.
#[derive(Clone, Debug)]
pub enum VmError {
    StackUnderflow { ip: usize },
    TypeMismatch { operation: String, left: Value, right: Value, ip: usize },
    UndefinedVariable { name: String, ip: usize },
    DivisionByZero { ip: usize },
    InvalidInput { input: String, ip: usize },
    InvalidPath { path: String, ip: usize },
    ConversionError { from: Value, to: String, ip: usize },
}

/// The mathematical model of a [`VmError`].
pub enum VmErrorView {
    StackUnderflow { ip: usize },
    TypeMismatch { operation: Seq<char>, left: ValueView, right: ValueView, ip: usize },
    UndefinedVariable { name: Seq<char>, ip: usize },
    DivisionByZero { ip: usize },
    InvalidInput { input: Seq<char>, ip: usize },
    InvalidPath { path: Seq<char>, ip: usize },
    ConversionError { from: ValueView, to: Seq<char>, ip: usize },
}

impl View for VmError {
    type V = VmErrorView;

    open spec fn view(&self) -> VmErrorView {
        match self {
            VmError::StackUnderflow { ip } => VmErrorView::StackUnderflow { ip: *ip },
            VmError::TypeMismatch { operation, left, right, ip } => VmErrorView::TypeMismatch {
                operation: operation@,
                left: left@,
                right: right@,
                ip: *ip,
            },
            VmError::UndefinedVariable { name, ip } => VmErrorView::UndefinedVariable {
                name: name@,
                ip: *ip,
            },
            VmError::DivisionByZero { ip } => VmErrorView::DivisionByZero { ip: *ip },
            VmError::InvalidInput { input, ip } => VmErrorView::InvalidInput {
                input: input@,
                ip: *ip,
            },
            VmError::InvalidPath { path, ip } => VmErrorView::InvalidPath { path: path@, ip: *ip },
            VmError::ConversionError { from, to, ip } => VmErrorView::ConversionError {
                from: from@,
                to: to@,
                ip: *ip,
            },
        }
    }
}

impl VmErrorView {
    /// The index of the instruction that failed.
    pub open spec fn ip(self) -> usize {
        match self {
            VmErrorView::StackUnderflow { ip } => ip,
            VmErrorView::TypeMismatch { ip, .. } => ip,
            VmErrorView::UndefinedVariable { ip, .. } => ip,
            VmErrorView::DivisionByZero { ip } => ip,
            VmErrorView::InvalidInput { ip, .. } => ip,
            VmErrorView::InvalidPath { ip, .. } => ip,
            VmErrorView::ConversionError { ip, .. } => ip,
        }
    }
}

impl VmErrorView {
    /// The message that describes the error; `left` and `right` are the
    /// printed texts of the operands of a type mismatch (`left` that of
    /// the value of a conversion error).
    pub open spec fn message(self, left: Seq<char>, right: Seq<char>) -> Seq<char> {
        match self {
            VmErrorView::StackUnderflow { ip } => "stack underflow at instruction "@ + int_text(
                ip as int,
            ),
            VmErrorView::TypeMismatch { operation, ip, .. } => "type mismatch at instruction "@
                + int_text(ip as int) + ": cannot "@ + operation + " "@ + left + " and "@ + right,
            VmErrorView::UndefinedVariable { name, ip } => "undefined variable at instruction "@
                + int_text(ip as int) + ": "@ + name,
            VmErrorView::DivisionByZero { ip } => "division by zero at instruction "@ + int_text(
                ip as int,
            ),
            VmErrorView::InvalidInput { input, ip } => "invalid input at instruction "@ + int_text(
                ip as int,
            ) + ": "@ + input,
            VmErrorView::InvalidPath { path, ip } => "invalid path at instruction "@ + int_text(
                ip as int,
            ) + ": "@ + path,
            VmErrorView::ConversionError { to, ip, .. } => "conversion error at instruction "@
                + int_text(ip as int) + ": cannot convert "@ + left + " to "@ + to,
        }
    }
}

/// Appends the characters of `s` to `out`.
fn append_text(out: &mut Vec<char>, s: &str)
    ensures
        final(out)@ == old(out)@ + s@,
{
    let mut part = chars_of(s);
    out.append(&mut part);
}

impl VmError {
    /// The message that describes the error, such as
    /// `stack underflow at instruction 4`. `left` and `right` are the
    /// printed texts of the operands of a type mismatch (`left` that of
    /// the value of a conversion error); the host writes them, since a
    /// float's decimal text is its work.
    pub fn message(&self, left: &str, right: &str) -> (r: String)
        ensures
            r@ == self@.message(left@, right@),
    {
        let mut out: Vec<char> = Vec::new();
        match self {
            VmError::StackUnderflow { ip } => {
                append_text(&mut out, "stack underflow at instruction ");
                let mut n = usize_text(*ip);
                out.append(&mut n);
            },
            VmError::TypeMismatch { operation, ip, .. } => {
                append_text(&mut out, "type mismatch at instruction ");
                let mut n = usize_text(*ip);
                out.append(&mut n);
                append_text(&mut out, ": cannot ");
                append_text(&mut out, operation.as_str());
                append_text(&mut out, " ");
                append_text(&mut out, left);
                append_text(&mut out, " and ");
                append_text(&mut out, right);
            },
            VmError::UndefinedVariable { name, ip } => {
                append_text(&mut out, "undefined variable at instruction ");
                let mut n = usize_text(*ip);
                out.append(&mut n);
                append_text(&mut out, ": ");
                append_text(&mut out, name.as_str());
            },
            VmError::DivisionByZero { ip } => {
                append_text(&mut out, "division by zero at instruction ");
                let mut n = usize_text(*ip);
                out.append(&mut n);
            },
            VmError::InvalidInput { input, ip } => {
                append_text(&mut out, "invalid input at instruction ");
                let mut n = usize_text(*ip);
                out.append(&mut n);
                append_text(&mut out, ": ");
                append_text(&mut out, input.as_str());
            },
            VmError::InvalidPath { path, ip } => {
                append_text(&mut out, "invalid path at instruction ");
                let mut n = usize_text(*ip);
                out.append(&mut n);
                append_text(&mut out, ": ");
                append_text(&mut out, path.as_str());
            },
            VmError::ConversionError { to, ip, .. } => {
                append_text(&mut out, "conversion error at instruction ");
                let mut n = usize_text(*ip);
                out.append(&mut n);
                append_text(&mut out, ": cannot convert ");
                append_text(&mut out, left);
                append_text(&mut out, " to ");
                append_text(&mut out, to.as_str());
            },
        }
        assert(out@ =~= self@.message(left@, right@));
        string_of(out.as_slice())
    }
}

/// Why a program text was rejected; `line` counts from 1.
#[derive(Clone, Debug)]
pub enum ParseError {
    UnknownInstruction { instruction: String, line: usize },
    MissingArgument { instruction: String, line: usize },
    UnexpectedArgument { instruction: String, line: usize },
    InvalidReadType { value: String, line: usize },
    InvalidNumber { value: String, line: usize },
    InvalidBool { value: String, line: usize },
}

/// The mathematical model of a [`ParseError`].
pub enum ParseErrorView {
    UnknownInstruction { instruction: Seq<char>, line: usize },
    MissingArgument { instruction: Seq<char>, line: usize },
    UnexpectedArgument { instruction: Seq<char>, line: usize },
    InvalidReadType { value: Seq<char>, line: usize },
    InvalidNumber { value: Seq<char>, line: usize },
    InvalidBool { value: Seq<char>, line: usize },
}

impl View for ParseError {
    type V = ParseErrorView;

    open spec fn view(&self) -> ParseErrorView {
        match self {
            ParseError::UnknownInstruction { instruction, line } =>
                ParseErrorView::UnknownInstruction { instruction: instruction@, line: *line },
            ParseError::MissingArgument { instruction, line } => ParseErrorView::MissingArgument {
                instruction: instruction@,
                line: *line,
            },
            ParseError::UnexpectedArgument { instruction, line } =>
                ParseErrorView::UnexpectedArgument { instruction: instruction@, line: *line },
            ParseError::InvalidReadType { value, line } => ParseErrorView::InvalidReadType {
                value: value@,
                line: *line,
            },
            ParseError::InvalidNumber { value, line } => ParseErrorView::InvalidNumber {
                value: value@,
                line: *line,
            },
            ParseError::InvalidBool { value, line } => ParseErrorView::InvalidBool {
                value: value@,
                line: *line,
            },
        }
    }
}

impl ParseErrorView {
    /// The line the error is about.
    pub open spec fn line(self) -> usize {
        match self {
            ParseErrorView::UnknownInstruction { line, .. } => line,
            ParseErrorView::MissingArgument { line, .. } => line,
            ParseErrorView::UnexpectedArgument { line, .. } => line,
            ParseErrorView::InvalidReadType { line, .. } => line,
            ParseErrorView::InvalidNumber { line, .. } => line,
            ParseErrorView::InvalidBool { line, .. } => line,
        }
    }

    /// The same error, said of another line.
    pub open spec fn with_line(self, line: usize) -> ParseErrorView {
        match self {
            ParseErrorView::UnknownInstruction { instruction, .. } =>
                ParseErrorView::UnknownInstruction { instruction, line },
            ParseErrorView::MissingArgument { instruction, .. } => ParseErrorView::MissingArgument {
                instruction,
                line,
            },
            ParseErrorView::UnexpectedArgument { instruction, .. } =>
                ParseErrorView::UnexpectedArgument { instruction, line },
            ParseErrorView::InvalidReadType { value, .. } => ParseErrorView::InvalidReadType {
                value,
                line,
            },
            ParseErrorView::InvalidNumber { value, .. } => ParseErrorView::InvalidNumber {
                value,
                line,
            },
            ParseErrorView::InvalidBool { value, .. } => ParseErrorView::InvalidBool { value, line },
        }
    }

    /// The words that describe the error.
    pub open spec fn headline(self) -> Seq<char> {
        match self {
            ParseErrorView::UnknownInstruction { .. } => "unknown instruction"@,
            ParseErrorView::MissingArgument { .. } => "missing argument"@,
            ParseErrorView::UnexpectedArgument { .. } => "unexpected argument"@,
            ParseErrorView::InvalidReadType { .. } => "invalid read type"@,
            ParseErrorView::InvalidNumber { .. } => "invalid number"@,
            ParseErrorView::InvalidBool { .. } => "invalid bool"@,
        }
    }

    /// The offending text.
    pub open spec fn subject(self) -> Seq<char> {
        match self {
            ParseErrorView::UnknownInstruction { instruction, .. } => instruction,
            ParseErrorView::MissingArgument { instruction, .. } => instruction,
            ParseErrorView::UnexpectedArgument { instruction, .. } => instruction,
            ParseErrorView::InvalidReadType { value, .. } => value,
            ParseErrorView::InvalidNumber { value, .. } => value,
            ParseErrorView::InvalidBool { value, .. } => value,
        }
    }

    /// The message that describes the error, such as
    /// `unknown instruction at line 3: foo`.
    pub open spec fn message(self) -> Seq<char> {
        self.headline() + " at line "@ + int_text(self.line() as int) + ": "@ + self.subject()
    }
}

impl ParseError {
    /// The message that describes the error, such as
    /// `unknown instruction at line 3: foo`.
    pub fn message(&self) -> (r: String)
        ensures
            r@ == self@.message(),
    {
        let (headline, line, subject) = match self {
            ParseError::UnknownInstruction { instruction, line } => (
                "unknown instruction",
                *line,
                instruction,
            ),
            ParseError::MissingArgument { instruction, line } => (
                "missing argument",
                *line,
                instruction,
            ),
            ParseError::UnexpectedArgument { instruction, line } => (
                "unexpected argument",
                *line,
                instruction,
            ),
            ParseError::InvalidReadType { value, line } => ("invalid read type", *line, value),
            ParseError::InvalidNumber { value, line } => ("invalid number", *line, value),
            ParseError::InvalidBool { value, line } => ("invalid bool", *line, value),
        };
        let mut out = chars_of(headline);
        let mut part = chars_of(" at line ");
        out.append(&mut part);
        let mut number = usize_text(line);
        out.append(&mut number);
        let mut colon = chars_of(": ");
        out.append(&mut colon);
        let mut rest = chars_of(subject.as_str());
        out.append(&mut rest);
        string_of(out.as_slice())
    }
}

/// A parse error is reported as what went wrong, the line (counted from
/// 1) and the word at fault: `unknown instruction at line 3: foo`.
pub proof fn law_parse_error_messages(w: Seq<char>, line: usize)
    ensures
        (ParseErrorView::UnknownInstruction { instruction: w, line }).message() == "unknown instruction"@
            + " at line "@ + int_text(line as int) + ": "@ + w,
        (ParseErrorView::MissingArgument { instruction: w, line }).message() == "missing argument"@
            + " at line "@ + int_text(line as int) + ": "@ + w,
        (ParseErrorView::UnexpectedArgument { instruction: w, line }).message() == "unexpected argument"@
            + " at line "@ + int_text(line as int) + ": "@ + w,
        (ParseErrorView::InvalidReadType { value: w, line }).message() == "invalid read type"@
            + " at line "@ + int_text(line as int) + ": "@ + w,
        (ParseErrorView::InvalidNumber { value: w, line }).message() == "invalid number"@
            + " at line "@ + int_text(line as int) + ": "@ + w,
        (ParseErrorView::InvalidBool { value: w, line }).message() == "invalid bool"@
            + " at line "@ + int_text(line as int) + ": "@ + w,
{
}

/// A machine error is reported as what went wrong and the index of the
/// instruction, then what it is about: the operation and the printed
/// operands of a type mismatch, the variable, the input, the path, or
/// the printed value and the kind it could not be converted to.
pub proof fn law_vm_error_messages(
    ip: usize,
    t: Seq<char>,
    u: Seq<char>,
    left: Seq<char>,
    right: Seq<char>,
    a: ValueView,
    b: ValueView,
)
    ensures
        (VmErrorView::StackUnderflow { ip }).message(left, right)
            == "stack underflow at instruction "@ + int_text(ip as int),
        (VmErrorView::TypeMismatch { operation: t, left: a, right: b, ip }).message(left, right)
            == "type mismatch at instruction "@ + int_text(ip as int) + ": cannot "@ + t + " "@
            + left + " and "@ + right,
        (VmErrorView::UndefinedVariable { name: t, ip }).message(left, right)
            == "undefined variable at instruction "@ + int_text(ip as int) + ": "@ + t,
        (VmErrorView::DivisionByZero { ip }).message(left, right)
            == "division by zero at instruction "@ + int_text(ip as int),
        (VmErrorView::InvalidInput { input: t, ip }).message(left, right)
            == "invalid input at instruction "@ + int_text(ip as int) + ": "@ + t,
        (VmErrorView::InvalidPath { path: t, ip }).message(left, right)
            == "invalid path at instruction "@ + int_text(ip as int) + ": "@ + t,
        (VmErrorView::ConversionError { from: a, to: u, ip }).message(left, right)
            == "conversion error at instruction "@ + int_text(ip as int) + ": cannot convert "@
            + left + " to "@ + u,
{
}

} // verus!
