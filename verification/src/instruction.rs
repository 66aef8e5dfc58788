//! The instructions of the machine.
use vstd::prelude::*;

use crate::value::{Value, ValueView};

verus! {

/// One instruction of a program. Operations on two values take the
/// upper one as their right operand.
#[derive(Clone, Debug)]
pub enum Instruction {
    /// Pushes the value.
    Push(Value),
    /// Pushes the string.
    PushStr(String),
    /// Pushes the boolean.
    PushBool(bool),
    /// Pushes the string `" "`.
    PushSpace,
    /// Drops the top value.
    Pop,
    /// Pushes a copy of the top value.
    Dup,
    /// Adds two numbers, or joins two strings.
    Add,
    /// Subtracts two numbers, or removes from a string every occurrence of another.
    Sub,
    /// Multiplies two numbers.
    Mul,
    /// Divides two numbers (integers rounding toward zero).
    Div,
    /// Adds one to an integer.
    Inc,
    /// Subtracts one from an integer.
    Dec,
    /// Takes the top value into the variable.
    Store(String),
    /// Pushes the value of the variable.
    Load(String),
    /// Removes the variable.
    Drop(String),
    /// Goes to the instruction at the index.
    Jump(usize),
    /// Takes the top value and prints it.
    Print,
    /// Prints a line break.
    Println,
    /// Prints the stack.
    Debug,
    /// Pushes a line of input, without surrounding whitespace.
    Read,
    /// Goes to the instruction at the index when the top value (which stays) equals the value.
    JumpIf(Value, usize),
    /// Takes a path and pushes the content of that file.
    ReadF,
    /// Takes a text and, below it, a path, and writes the text to that file.
    WriteF,
    /// Takes a path and removes that file.
    RemoveF,
    /// Takes a path and creates that directory.
    CreateDir,
    /// Takes a path and removes that directory.
    RemoveDir,
    /// Reads a string as an integer.
    StoI,
    /// Reads a string as a float.
    StoF,
    /// Reads a string as a boolean.
    StoB,
    /// Converts an integer to a float.
    ItoF,
    /// Writes an integer as a string.
    ItoS,
    /// Converts an integer to a boolean (`true` unless zero).
    ItoB,
    /// Converts a float to an integer (as `f as i32`).
    FtoI,
    /// Writes a float as a string.
    FtoS,
    /// Converts a float to a boolean (`true` unless zero).
    FtoB,
    /// Converts a boolean to `1` or `0`.
    BtoI,
    /// Converts a boolean to `1.0` or `0.0`.
    BtoF,
    /// Writes a boolean as a string.
    BtoS,
    /// `==`
    Eq,
    /// `!=`
    Ne,
    /// `>`
    Gt,
    /// `<`
    Lt,
    /// `>=`
    Ge,
    /// `<=`
    Le,
    /// Logical and of two booleans.
    And,
    /// Logical or of two booleans.
    Or,
    /// Logical negation of a boolean.
    Not,
    /// Ends the program.
    Exit,
}

/// The mathematical model of an [`Instruction`].
pub enum InstrView {
    Push(ValueView),
    PushStr(Seq<char>),
    PushBool(bool),
    PushSpace,
    Pop,
    Dup,
    Add,
    Sub,
    Mul,
    Div,
    Inc,
    Dec,
    Store(Seq<char>),
    Load(Seq<char>),
    Drop(Seq<char>),
    Jump(usize),
    Print,
    Println,
    Debug,
    Read,
    JumpIf(ValueView, usize),
    ReadF,
    WriteF,
    RemoveF,
    CreateDir,
    RemoveDir,
    StoI,
    StoF,
    StoB,
    ItoF,
    ItoS,
    ItoB,
    FtoI,
    FtoS,
    FtoB,
    BtoI,
    BtoF,
    BtoS,
    Eq,
    Ne,
    Gt,
    Lt,
    Ge,
    Le,
    And,
    Or,
    Not,
    Exit,
}

impl View for Instruction {
    type V = InstrView;

    open spec fn view(&self) -> InstrView {
        match self {
            Instruction::Push(v) => InstrView::Push(v@),
            Instruction::PushStr(s) => InstrView::PushStr(s@),
            Instruction::PushBool(b) => InstrView::PushBool(*b),
            Instruction::PushSpace => InstrView::PushSpace,
            Instruction::Pop => InstrView::Pop,
            Instruction::Dup => InstrView::Dup,
            Instruction::Add => InstrView::Add,
            Instruction::Sub => InstrView::Sub,
            Instruction::Mul => InstrView::Mul,
            Instruction::Div => InstrView::Div,
            Instruction::Inc => InstrView::Inc,
            Instruction::Dec => InstrView::Dec,
            Instruction::Store(s) => InstrView::Store(s@),
            Instruction::Load(s) => InstrView::Load(s@),
            Instruction::Drop(s) => InstrView::Drop(s@),
            Instruction::Jump(a) => InstrView::Jump(*a),
            Instruction::Print => InstrView::Print,
            Instruction::Println => InstrView::Println,
            Instruction::Debug => InstrView::Debug,
            Instruction::Read => InstrView::Read,
            Instruction::JumpIf(v, a) => InstrView::JumpIf(v@, *a),
            Instruction::ReadF => InstrView::ReadF,
            Instruction::WriteF => InstrView::WriteF,
            Instruction::RemoveF => InstrView::RemoveF,
            Instruction::CreateDir => InstrView::CreateDir,
            Instruction::RemoveDir => InstrView::RemoveDir,
            Instruction::StoI => InstrView::StoI,
            Instruction::StoF => InstrView::StoF,
            Instruction::StoB => InstrView::StoB,
            Instruction::ItoF => InstrView::ItoF,
            Instruction::ItoS => InstrView::ItoS,
            Instruction::ItoB => InstrView::ItoB,
            Instruction::FtoI => InstrView::FtoI,
            Instruction::FtoS => InstrView::FtoS,
            Instruction::FtoB => InstrView::FtoB,
            Instruction::BtoI => InstrView::BtoI,
            Instruction::BtoF => InstrView::BtoF,
            Instruction::BtoS => InstrView::BtoS,
            Instruction::Eq => InstrView::Eq,
            Instruction::Ne => InstrView::Ne,
            Instruction::Gt => InstrView::Gt,
            Instruction::Lt => InstrView::Lt,
            Instruction::Ge => InstrView::Ge,
            Instruction::Le => InstrView::Le,
            Instruction::And => InstrView::And,
            Instruction::Or => InstrView::Or,
            Instruction::Not => InstrView::Not,
            Instruction::Exit => InstrView::Exit,
        }
    }
}

/// The views of a program's instructions.
pub open spec fn program_view(p: Seq<Instruction>) -> Seq<InstrView> {
    p.map_values(|i: Instruction| i@)
}

/// The word that names the instruction: its keyword in program text, and
/// the operation named in its type errors.
pub open spec fn keyword(i: InstrView) -> Seq<char> {
    match i {
        InstrView::Push(_) => "push"@,
        InstrView::PushStr(_) => "pushstr"@,
        InstrView::PushBool(_) => "pushbool"@,
        InstrView::PushSpace => "pushspace"@,
        InstrView::Pop => "pop"@,
        InstrView::Dup => "dup"@,
        InstrView::Add => "add"@,
        InstrView::Sub => "sub"@,
        InstrView::Mul => "mul"@,
        InstrView::Div => "div"@,
        InstrView::Inc => "inc"@,
        InstrView::Dec => "dec"@,
        InstrView::Store(_) => "store"@,
        InstrView::Load(_) => "load"@,
        InstrView::Drop(_) => "drop"@,
        InstrView::Jump(_) => "jump"@,
        InstrView::Print => "print"@,
        InstrView::Println => "println"@,
        InstrView::Debug => "debug"@,
        InstrView::Read => "read"@,
        InstrView::JumpIf(_, _) => "jumpif"@,
        InstrView::ReadF => "readf"@,
        InstrView::WriteF => "writef"@,
        InstrView::RemoveF => "removef"@,
        InstrView::CreateDir => "createdir"@,
        InstrView::RemoveDir => "removedir"@,
        InstrView::StoI => "stoi"@,
        InstrView::StoF => "stof"@,
        InstrView::StoB => "stob"@,
        InstrView::ItoF => "itof"@,
        InstrView::ItoS => "itos"@,
        InstrView::ItoB => "itob"@,
        InstrView::FtoI => "ftoi"@,
        InstrView::FtoS => "ftos"@,
        InstrView::FtoB => "ftob"@,
        InstrView::BtoI => "btoi"@,
        InstrView::BtoF => "btof"@,
        InstrView::BtoS => "btos"@,
        InstrView::Eq => "eq"@,
        InstrView::Ne => "ne"@,
        InstrView::Gt => "gt"@,
        InstrView::Lt => "lt"@,
        InstrView::Ge => "ge"@,
        InstrView::Le => "le"@,
        InstrView::And => "and"@,
        InstrView::Or => "or"@,
        InstrView::Not => "not"@,
        InstrView::Exit => "exit"@,
    }
}

/// Whether the instruction is written as its keyword alone, with no
/// argument. `inc` and `dec` are not: the language has no word for them.
pub open spec fn is_plain(i: InstrView) -> bool {
    !(i is Push || i is PushStr || i is PushBool || i is Store || i is Load || i is Drop
        || i is Jump || i is JumpIf || i is Inc || i is Dec)
}

} // verus!
