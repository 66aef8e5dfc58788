//! The parser: from program text to instructions.
//!
//! A program is read line by line. A `'#'` starts a comment that runs to
//! the end of its line. The words of what is left (separated by
//! whitespace) form one instruction: a keyword and its arguments. Lines
//! without words are skipped.
//!
//! Reading a decimal fraction (a number with a `'.'`) into an `f64` is the
//! host's work: [`float_literals`] lists the texts that need it, in the
//! order they appear, and [`parse`] takes the host's readings of them
//! (the bits of the number, or `None` when the text is not a number).
use vstd::prelude::*;

use crate::error::{ParseError, ParseErrorView};
use crate::instruction::{InstrView, Instruction, program_view};
use crate::text::{
    has_char, lines, parse_bool, parse_bool_spec, parse_i32, parse_i32_spec, parse_usize,
    parse_usize_spec, same_text, slice_chars, string_of, texts, words, code_of, split_lines,
    split_words, strip_comment, chars_of,
};
use crate::value::{Value, ValueView};

verus! {

/// The instruction that a keyword without arguments stands for.
pub open spec fn plain_instruction(w: Seq<char>) -> Option<InstrView> {
    if w == "pushspace"@ {
        Some(InstrView::PushSpace)
    } else if w == "pop"@ {
        Some(InstrView::Pop)
    } else if w == "dup"@ {
        Some(InstrView::Dup)
    } else if w == "add"@ {
        Some(InstrView::Add)
    } else if w == "sub"@ {
        Some(InstrView::Sub)
    } else if w == "mul"@ {
        Some(InstrView::Mul)
    } else if w == "div"@ {
        Some(InstrView::Div)
    } else if w == "print"@ {
        Some(InstrView::Print)
    } else if w == "println"@ {
        Some(InstrView::Println)
    } else if w == "debug"@ {
        Some(InstrView::Debug)
    } else if w == "read"@ {
        Some(InstrView::Read)
    } else if w == "readf"@ {
        Some(InstrView::ReadF)
    } else if w == "writef"@ {
        Some(InstrView::WriteF)
    } else if w == "removef"@ {
        Some(InstrView::RemoveF)
    } else if w == "createdir"@ {
        Some(InstrView::CreateDir)
    } else if w == "removedir"@ {
        Some(InstrView::RemoveDir)
    } else if w == "stoi"@ {
        Some(InstrView::StoI)
    } else if w == "stof"@ {
        Some(InstrView::StoF)
    } else if w == "stob"@ {
        Some(InstrView::StoB)
    } else if w == "itof"@ {
        Some(InstrView::ItoF)
    } else if w == "itos"@ {
        Some(InstrView::ItoS)
    } else if w == "itob"@ {
        Some(InstrView::ItoB)
    } else if w == "ftoi"@ {
        Some(InstrView::FtoI)
    } else if w == "ftos"@ {
        Some(InstrView::FtoS)
    } else if w == "ftob"@ {
        Some(InstrView::FtoB)
    } else if w == "btoi"@ {
        Some(InstrView::BtoI)
    } else if w == "btof"@ {
        Some(InstrView::BtoF)
    } else if w == "btos"@ {
        Some(InstrView::BtoS)
    } else if w == "eq"@ {
        Some(InstrView::Eq)
    } else if w == "ne"@ {
        Some(InstrView::Ne)
    } else if w == "gt"@ {
        Some(InstrView::Gt)
    } else if w == "lt"@ {
        Some(InstrView::Lt)
    } else if w == "ge"@ {
        Some(InstrView::Ge)
    } else if w == "le"@ {
        Some(InstrView::Le)
    } else if w == "and"@ {
        Some(InstrView::And)
    } else if w == "or"@ {
        Some(InstrView::Or)
    } else if w == "not"@ {
        Some(InstrView::Not)
    } else if w == "exit"@ {
        Some(InstrView::Exit)
    } else {
        None
    }
}

/// The instruction that a keyword without arguments stands for.
fn plain_keyword(w: &[char]) -> (r: Option<Instruction>)
    ensures
        match r {
            Some(i) => plain_instruction(w@) == Some(i@),
            None => plain_instruction(w@) is None,
        },
{
    if same_text(w, "pushspace") {
        Some(Instruction::PushSpace)
    } else if same_text(w, "pop") {
        Some(Instruction::Pop)
    } else if same_text(w, "dup") {
        Some(Instruction::Dup)
    } else if same_text(w, "add") {
        Some(Instruction::Add)
    } else if same_text(w, "sub") {
        Some(Instruction::Sub)
    } else if same_text(w, "mul") {
        Some(Instruction::Mul)
    } else if same_text(w, "div") {
        Some(Instruction::Div)
    } else if same_text(w, "print") {
        Some(Instruction::Print)
    } else if same_text(w, "println") {
        Some(Instruction::Println)
    } else if same_text(w, "debug") {
        Some(Instruction::Debug)
    } else if same_text(w, "read") {
        Some(Instruction::Read)
    } else if same_text(w, "readf") {
        Some(Instruction::ReadF)
    } else if same_text(w, "writef") {
        Some(Instruction::WriteF)
    } else if same_text(w, "removef") {
        Some(Instruction::RemoveF)
    } else if same_text(w, "createdir") {
        Some(Instruction::CreateDir)
    } else if same_text(w, "removedir") {
        Some(Instruction::RemoveDir)
    } else if same_text(w, "stoi") {
        Some(Instruction::StoI)
    } else if same_text(w, "stof") {
        Some(Instruction::StoF)
    } else if same_text(w, "stob") {
        Some(Instruction::StoB)
    } else if same_text(w, "itof") {
        Some(Instruction::ItoF)
    } else if same_text(w, "itos") {
        Some(Instruction::ItoS)
    } else if same_text(w, "itob") {
        Some(Instruction::ItoB)
    } else if same_text(w, "ftoi") {
        Some(Instruction::FtoI)
    } else if same_text(w, "ftos") {
        Some(Instruction::FtoS)
    } else if same_text(w, "ftob") {
        Some(Instruction::FtoB)
    } else if same_text(w, "btoi") {
        Some(Instruction::BtoI)
    } else if same_text(w, "btof") {
        Some(Instruction::BtoF)
    } else if same_text(w, "btos") {
        Some(Instruction::BtoS)
    } else if same_text(w, "eq") {
        Some(Instruction::Eq)
    } else if same_text(w, "ne") {
        Some(Instruction::Ne)
    } else if same_text(w, "gt") {
        Some(Instruction::Gt)
    } else if same_text(w, "lt") {
        Some(Instruction::Lt)
    } else if same_text(w, "ge") {
        Some(Instruction::Ge)
    } else if same_text(w, "le") {
        Some(Instruction::Le)
    } else if same_text(w, "and") {
        Some(Instruction::And)
    } else if same_text(w, "or") {
        Some(Instruction::Or)
    } else if same_text(w, "not") {
        Some(Instruction::Not)
    } else if same_text(w, "exit") {
        Some(Instruction::Exit)
    } else {
        None
    }
}


/// The words of the code of a line.
pub open spec fn line_words(line: Seq<char>) -> Seq<Seq<char>> {
    words(code_of(line))
}

/// The argument-count error of an instruction whose words are `ws`
/// and that takes `expected` arguments, if any.
pub open spec fn arity_error(ws: Seq<Seq<char>>, expected: nat, name: Seq<char>, line: usize) -> Option<
    ParseErrorView,
> {
    let args: int = if ws.len() == 0 {
        0
    } else {
        ws.len() - 1
    };
    if args < expected {
        Some(ParseErrorView::MissingArgument { instruction: name, line })
    } else if args > expected {
        Some(ParseErrorView::UnexpectedArgument { instruction: name, line })
    } else {
        None
    }
}

/// The text that the line with words `ws` hands to the host to be read as
/// an `f64`, if any: the argument of `push`, or the value of `jumpif`
/// when it is not a boolean, that holds a `'.'`.
pub open spec fn float_literal_of(ws: Seq<Seq<char>>) -> Option<Seq<char>> {
    if ws.len() == 2 && ws[0] == "push"@ && ws[1].contains('.') {
        Some(ws[1])
    } else if ws.len() == 3 && ws[0] == "jumpif"@ && parse_bool_spec(ws[1]) is None
        && ws[1].contains('.') {
        Some(ws[1])
    } else {
        None
    }
}

/// The number that `push` reads from `tok`: a float (as the host read it)
/// when `tok` holds a `'.'`, else an `i32`.
pub open spec fn number_value(tok: Seq<char>, line: usize, float: Option<u64>) -> Result<
    ValueView,
    ParseErrorView,
> {
    if tok.contains('.') {
        match float {
            Some(b) => Ok(ValueView::Float(b)),
            None => Err(ParseErrorView::InvalidNumber { value: tok, line }),
        }
    } else {
        match parse_i32_spec(tok) {
            Some(i) => Ok(ValueView::Int(i)),
            None => Err(ParseErrorView::InvalidNumber { value: tok, line }),
        }
    }
}

/// The value that `jumpif` compares with: a boolean, a float (as the host
/// read it) when the text holds a `'.'`, an `i32`, or else the text itself.
pub open spec fn jump_value(tok: Seq<char>, line: usize, float: Option<u64>) -> Result<
    ValueView,
    ParseErrorView,
> {
    match parse_bool_spec(tok) {
        Some(b) => Ok(ValueView::Bool(b)),
        None => if tok.contains('.') {
            match float {
                Some(b) => Ok(ValueView::Float(b)),
                None => Err(ParseErrorView::InvalidNumber { value: tok, line }),
            }
        } else {
            match parse_i32_spec(tok) {
                Some(i) => Ok(ValueView::Int(i)),
                None => Ok(ValueView::Str(tok)),
            }
        },
    }
}

/// The address of a jump.
pub open spec fn address_value(tok: Seq<char>, line: usize) -> Result<usize, ParseErrorView> {
    match parse_usize_spec(tok) {
        Some(a) => Ok(a),
        None => Err(ParseErrorView::InvalidNumber { value: tok, line }),
    }
}

/// The instruction written by the words `ws` (at least one) on line
/// `line`; `float` is the host's reading of the line's float text.
pub open spec fn line_instruction(ws: Seq<Seq<char>>, line: usize, float: Option<u64>) -> Result<
    InstrView,
    ParseErrorView,
> {
    let name = ws[0];
    if name == "push"@ {
        match arity_error(ws, 1, name, line) {
            Some(e) => Err(e),
            None => match number_value(ws[1], line, float) {
                Ok(v) => Ok(InstrView::Push(v)),
                Err(e) => Err(e),
            },
        }
    } else if name == "pushstr"@ {
        match arity_error(ws, 1, name, line) {
            Some(e) => Err(e),
            None => Ok(InstrView::PushStr(ws[1])),
        }
    } else if name == "pushbool"@ {
        match arity_error(ws, 1, name, line) {
            Some(e) => Err(e),
            None => match parse_bool_spec(ws[1]) {
                Some(b) => Ok(InstrView::PushBool(b)),
                None => Err(ParseErrorView::InvalidBool { value: ws[1], line }),
            },
        }
    } else if name == "store"@ {
        match arity_error(ws, 1, name, line) {
            Some(e) => Err(e),
            None => Ok(InstrView::Store(ws[1])),
        }
    } else if name == "load"@ {
        match arity_error(ws, 1, name, line) {
            Some(e) => Err(e),
            None => Ok(InstrView::Load(ws[1])),
        }
    } else if name == "drop"@ {
        match arity_error(ws, 1, name, line) {
            Some(e) => Err(e),
            None => Ok(InstrView::Drop(ws[1])),
        }
    } else if name == "jump"@ {
        match arity_error(ws, 1, name, line) {
            Some(e) => Err(e),
            None => match address_value(ws[1], line) {
                Ok(a) => Ok(InstrView::Jump(a)),
                Err(e) => Err(e),
            },
        }
    } else if name == "jumpif"@ {
        match arity_error(ws, 2, name, line) {
            Some(e) => Err(e),
            None => match jump_value(ws[1], line, float) {
                Err(e) => Err(e),
                Ok(v) => match address_value(ws[2], line) {
                    Ok(a) => Ok(InstrView::JumpIf(v, a)),
                    Err(e) => Err(e),
                },
            },
        }
    } else {
        match plain_instruction(name) {
            Some(i) => match arity_error(ws, 0, name, line) {
                Some(e) => Err(e),
                None => Ok(i),
            },
            None => Err(ParseErrorView::UnknownInstruction { instruction: name, line }),
        }
    }
}

/// The error of a line is about that line.
pub proof fn lemma_line_error_line(ws: Seq<Seq<char>>, line: usize, float: Option<u64>)
    requires
        ws.len() > 0,
    ensures
        line_instruction(ws, line, float) matches Err(e) ==> e.line() == line,
{
}

/// The instruction of a line does not depend on its number, and its
/// error depends on it only through the line it names.
pub proof fn lemma_line_number_irrelevant(
    ws: Seq<Seq<char>>,
    l1: usize,
    l2: usize,
    float: Option<u64>,
)
    requires
        ws.len() > 0,
    ensures
        line_instruction(ws, l2, float) == match line_instruction(ws, l1, float) {
            Ok(i) => Ok::<InstrView, ParseErrorView>(i),
            Err(e) => Err::<InstrView, ParseErrorView>(e.with_line(l2)),
        },
{
}

/// The host's reading matters only to a line that has a float text.
pub proof fn lemma_float_irrelevant(
    ws: Seq<Seq<char>>,
    line: usize,
    f1: Option<u64>,
    f2: Option<u64>,
)
    requires
        ws.len() > 0,
        float_literal_of(ws) is None,
    ensures
        line_instruction(ws, line, f1) == line_instruction(ws, line, f2),
{
}

/// The float texts of the first `k` lines of `ls`, in order.
pub open spec fn literals_upto(ls: Seq<Seq<char>>, k: int) -> Seq<Seq<char>>
    decreases k,
{
    if k <= 0 {
        Seq::empty()
    } else {
        let prev = literals_upto(ls, k - 1);
        match float_literal_of(line_words(ls[k - 1])) {
            Some(t) => prev.push(t),
            None => prev,
        }
    }
}

/// The float texts of a program, in order.
pub open spec fn float_literals_spec(source: Seq<char>) -> Seq<Seq<char>> {
    literals_upto(lines(source), lines(source).len() as int)
}

/// The host's reading of the `k`-th float text (`None` when there is none).
pub open spec fn float_at(floats: Seq<Option<u64>>, k: int) -> Option<u64> {
    if 0 <= k < floats.len() {
        floats[k]
    } else {
        None
    }
}

/// The instructions of the first `k` lines of `ls`, or the error of the
/// first line among them that is wrong. Line `j` (from 0) is line `j + 1`
/// in errors.
pub open spec fn parse_upto(ls: Seq<Seq<char>>, k: int, floats: Seq<Option<u64>>) -> Result<
    Seq<InstrView>,
    ParseErrorView,
>
    decreases k,
{
    if k <= 0 {
        Ok(Seq::empty())
    } else {
        match parse_upto(ls, k - 1, floats) {
            Err(e) => Err(e),
            Ok(acc) => {
                let ws = line_words(ls[k - 1]);
                if ws.len() == 0 {
                    Ok(acc)
                } else {
                    let f = float_at(floats, literals_upto(ls, k - 1).len() as int);
                    match line_instruction(ws, k as usize, f) {
                        Ok(i) => Ok(acc.push(i)),
                        Err(e) => Err(e),
                    }
                }
            },
        }
    }
}

/// The instructions of a program text, or the error of its first wrong
/// line, given the host's readings of its float texts.
pub open spec fn parse_spec(source: Seq<char>, floats: Seq<Option<u64>>) -> Result<
    Seq<InstrView>,
    ParseErrorView,
> {
    parse_upto(lines(source), lines(source).len() as int, floats)
}

/// Checks that an instruction (whose words are `parts`, keyword first)
/// has `expected` arguments.
pub fn check_args(parts: &[Vec<char>], expected: usize, instruction: &[char], line: usize) -> (r:
    Result<(), ParseError>)
    ensures
        match r {
            Ok(()) => arity_error(texts(parts@), expected as nat, instruction@, line) is None,
            Err(e) => arity_error(texts(parts@), expected as nat, instruction@, line) == Some(e@),
        },
{
    let args = if parts.len() == 0 {
        0
    } else {
        parts.len() - 1
    };
    if args < expected {
        return Err(
            ParseError::MissingArgument { instruction: string_of(instruction), line: line },
        );
    }
    if args > expected {
        return Err(
            ParseError::UnexpectedArgument { instruction: string_of(instruction), line: line },
        );
    }
    Ok(())
}

/// The float text of a line, if any.
fn float_literal(ws: &Vec<Vec<char>>) -> (r: Option<Vec<char>>)
    ensures
        match r {
            Some(t) => float_literal_of(texts(ws@)) == Some(t@),
            None => float_literal_of(texts(ws@)) is None,
        },
{
    let ghost w = texts(ws@);
    if ws.len() == 2 && same_text(ws[0].as_slice(), "push") && has_char(ws[1].as_slice(), '.') {
        assert(w[0] == ws@[0]@ && w[1] == ws@[1]@);
        Some(slice_chars(ws[1].as_slice(), 0, ws[1].len()))
    } else if ws.len() == 3 && same_text(ws[0].as_slice(), "jumpif") && parse_bool(
        ws[1].as_slice(),
    ).is_none() && has_char(ws[1].as_slice(), '.') {
        assert(w[0] == ws@[0]@ && w[1] == ws@[1]@);
        assert(ws@[1]@.subrange(0, ws@[1]@.len() as int) =~= ws@[1]@);
        Some(slice_chars(ws[1].as_slice(), 0, ws[1].len()))
    } else {
        proof {
            if ws.len() == 2 {
                assert(w[0] == ws@[0]@ && w[1] == ws@[1]@);
            }
            if ws.len() == 3 {
                assert(w[0] == ws@[0]@ && w[1] == ws@[1]@);
            }
        }
        None
    }
}


fn invalid_number(tok: &[char], line: usize) -> (e: ParseError)
    ensures
        e@ == (ParseErrorView::InvalidNumber { value: tok@, line }),
{
    ParseError::InvalidNumber { value: string_of(tok), line: line }
}

/// The number that `push` reads from `tok`.
fn read_number(tok: &[char], line: usize, float: Option<u64>) -> (r: Result<Value, ParseError>)
    ensures
        match r {
            Ok(v) => number_value(tok@, line, float) == Ok::<ValueView, ParseErrorView>(v@),
            Err(e) => number_value(tok@, line, float) == Err::<ValueView, ParseErrorView>(e@),
        },
{
    if has_char(tok, '.') {
        match float {
            Some(b) => Ok(Value::Float(b)),
            None => Err(invalid_number(tok, line)),
        }
    } else {
        match parse_i32(tok) {
            Some(i) => Ok(Value::Int(i)),
            None => Err(invalid_number(tok, line)),
        }
    }
}

/// The value that `jumpif` compares with.
fn read_jump_value(tok: &[char], line: usize, float: Option<u64>) -> (r: Result<Value, ParseError>)
    ensures
        match r {
            Ok(v) => jump_value(tok@, line, float) == Ok::<ValueView, ParseErrorView>(v@),
            Err(e) => jump_value(tok@, line, float) == Err::<ValueView, ParseErrorView>(e@),
        },
{
    match parse_bool(tok) {
        Some(b) => Ok(Value::Bool(b)),
        None => {
            if has_char(tok, '.') {
                match float {
                    Some(b) => Ok(Value::Float(b)),
                    None => Err(invalid_number(tok, line)),
                }
            } else {
                match parse_i32(tok) {
                    Some(i) => Ok(Value::Int(i)),
                    None => Ok(Value::String(string_of(tok))),
                }
            }
        },
    }
}

/// The address of a jump.
fn read_address(tok: &[char], line: usize) -> (r: Result<usize, ParseError>)
    ensures
        match r {
            Ok(a) => address_value(tok@, line) == Ok::<usize, ParseErrorView>(a),
            Err(e) => address_value(tok@, line) == Err::<usize, ParseErrorView>(e@),
        },
{
    match parse_usize(tok) {
        Some(a) => Ok(a),
        None => Err(invalid_number(tok, line)),
    }
}

/// The instruction written by the words `ws` on line `line`.
fn parse_line(ws: &Vec<Vec<char>>, line: usize, float: Option<u64>) -> (r: Result<
    Instruction,
    ParseError,
>)
    requires
        ws@.len() > 0,
    ensures
        match r {
            Ok(i) => line_instruction(texts(ws@), line, float) == Ok::<
                InstrView,
                ParseErrorView,
            >(i@),
            Err(e) => line_instruction(texts(ws@), line, float) == Err::<
                InstrView,
                ParseErrorView,
            >(e@),
        },
{
    let ghost w = texts(ws@);
    let name = ws[0].as_slice();
    assert(w[0] == name@);
    if ws.len() >= 2 {
        assert(w[1] == ws@[1]@);
    }
    if ws.len() >= 3 {
        assert(w[2] == ws@[2]@);
    }
    if same_text(name, "push") {
        check_args(ws.as_slice(), 1, name, line)?;
        let v = read_number(ws[1].as_slice(), line, float)?;
        Ok(Instruction::Push(v))
    } else if same_text(name, "pushstr") {
        check_args(ws.as_slice(), 1, name, line)?;
        Ok(Instruction::PushStr(string_of(ws[1].as_slice())))
    } else if same_text(name, "pushbool") {
        check_args(ws.as_slice(), 1, name, line)?;
        match parse_bool(ws[1].as_slice()) {
            Some(b) => Ok(Instruction::PushBool(b)),
            None => Err(
                ParseError::InvalidBool { value: string_of(ws[1].as_slice()), line: line },
            ),
        }
    } else if same_text(name, "store") {
        check_args(ws.as_slice(), 1, name, line)?;
        Ok(Instruction::Store(string_of(ws[1].as_slice())))
    } else if same_text(name, "load") {
        check_args(ws.as_slice(), 1, name, line)?;
        Ok(Instruction::Load(string_of(ws[1].as_slice())))
    } else if same_text(name, "drop") {
        check_args(ws.as_slice(), 1, name, line)?;
        Ok(Instruction::Drop(string_of(ws[1].as_slice())))
    } else if same_text(name, "jump") {
        check_args(ws.as_slice(), 1, name, line)?;
        let a = read_address(ws[1].as_slice(), line)?;
        Ok(Instruction::Jump(a))
    } else if same_text(name, "jumpif") {
        check_args(ws.as_slice(), 2, name, line)?;
        let v = read_jump_value(ws[1].as_slice(), line, float)?;
        let a = read_address(ws[2].as_slice(), line)?;
        Ok(Instruction::JumpIf(v, a))
    } else {
        match plain_keyword(name) {
            Some(i) => {
                check_args(ws.as_slice(), 0, name, line)?;
                Ok(i)
            },
            None => Err(
                ParseError::UnknownInstruction { instruction: string_of(name), line: line },
            ),
        }
    }
}


/// Once a line is wrong, the result of parsing is its error, whatever
/// follows.
proof fn lemma_error_persists(ls: Seq<Seq<char>>, j: int, k: int, floats: Seq<Option<u64>>)
    requires
        0 <= j <= k,
        parse_upto(ls, j, floats) is Err,
    ensures
        parse_upto(ls, k, floats) == parse_upto(ls, j, floats),
    decreases k - j,
{
    if k > j {
        lemma_error_persists(ls, j, k - 1, floats);
    }
}

/// The words of the code of each line of `source`.
fn code_words(source: &str) -> (r: Vec<Vec<Vec<char>>>)
    ensures
        r@.len() == lines(source@).len(),
        forall|j: int| 0 <= j < r@.len() ==> texts(#[trigger] r@[j]@) == line_words(lines(source@)[j]),
{
    let chars = chars_of(source);
    let ls = split_lines(&chars);
    let mut out: Vec<Vec<Vec<char>>> = Vec::new();
    let mut i: usize = 0;
    while i < ls.len()
        invariant
            i <= ls@.len(),
            texts(ls@) == lines(source@),
            out@.len() == i,
            forall|j: int| 0 <= j < i ==> texts(#[trigger] out@[j]@) == line_words(lines(source@)[j]),
        decreases ls@.len() - i,
    {
        assert(texts(ls@)[i as int] == ls@[i as int]@);
        let code = strip_comment(&ls[i]);
        let ws = split_words(&code);
        out.push(ws);
        i = i + 1;
    }
    out
}

/// The texts of `source` that the host must read as `f64` values for
/// [`parse`], in order of appearance.
pub fn float_literals(source: &str) -> (r: Vec<String>)
    ensures
        r@.map_values(|t: String| t@) == float_literals_spec(source@),
{
    let lws = code_words(source);
    let ghost ls = lines(source@);
    let mut out: Vec<String> = Vec::new();
    let mut i: usize = 0;
    while i < lws.len()
        invariant
            i <= lws@.len() == ls.len(),
            ls == lines(source@),
            forall|j: int| 0 <= j < lws@.len() ==> texts(#[trigger] lws@[j]@) == line_words(ls[j]),
            out@.map_values(|t: String| t@) == literals_upto(ls, i as int),
        decreases lws@.len() - i,
    {
        assert(texts(lws@[i as int]@) == line_words(ls[i as int]));
        let ghost before = out@;
        match float_literal(&lws[i]) {
            Some(t) => {
                out.push(string_of(t.as_slice()));
                assert(out@.map_values(|t: String| t@) =~= before.map_values(|t: String| t@).push(
                    t@,
                ));
            },
            None => {},
        }
        i = i + 1;
    }
    out
}

/// Reads a program text into instructions. `floats` holds the host's
/// readings (the bits of the `f64`, or `None` when the text is not a
/// number) of the texts that [`float_literals`] lists, in the same order.
/// The result is the instructions of the lines with words, in order, or
/// the error of the first wrong line.
pub fn parse(source: &str, floats: &[Option<u64>]) -> (r: Result<Vec<Instruction>, ParseError>)
    ensures
        match r {
            Ok(v) => parse_spec(source@, floats@) == Ok::<Seq<InstrView>, ParseErrorView>(
                program_view(v@),
            ),
            Err(e) => parse_spec(source@, floats@) == Err::<Seq<InstrView>, ParseErrorView>(e@),
        },
{
    let lws = code_words(source);
    let ghost ls = lines(source@);
    let mut instructions: Vec<Instruction> = Vec::new();
    let mut seen: usize = 0;
    let mut i: usize = 0;
    assert(program_view(instructions@) =~= Seq::<InstrView>::empty());
    while i < lws.len()
        invariant
            i <= lws@.len() == ls.len(),
            ls == lines(source@),
            forall|j: int| 0 <= j < lws@.len() ==> texts(#[trigger] lws@[j]@) == line_words(ls[j]),
            parse_upto(ls, i as int, floats@) == Ok::<Seq<InstrView>, ParseErrorView>(
                program_view(instructions@),
            ),
            seen == literals_upto(ls, i as int).len(),
            seen <= i,
        decreases lws@.len() - i,
    {
        let ws = &lws[i];
        assert(texts(ws@) == line_words(ls[i as int]));
        let ghost before = instructions@;
        if ws.len() > 0 {
            let float = if seen < floats.len() {
                floats[seen]
            } else {
                None
            };
            let instruction = match parse_line(ws, i + 1, float) {
                Ok(instruction) => instruction,
                Err(e) => {
                    proof {
                        lemma_error_persists(ls, i + 1, ls.len() as int, floats@);
                    }
                    return Err(e);
                },
            };
            instructions.push(instruction);
            assert(program_view(instructions@) =~= program_view(before).push(instruction@));
        }
        match float_literal(ws) {
            Some(_) => {
                seen = seen + 1;
            },
            None => {},
        }
        i = i + 1;
    }
    Ok(instructions)
}

} // verus!
