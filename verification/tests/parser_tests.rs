use terbium::error::ParseError;
use terbium::instruction::Instruction;
use terbium::parser::{float_literals, parse};
use terbium::value::Value;

fn parse_text(source: &str) -> Result<Vec<Instruction>, ParseError> {
    let floats: Vec<Option<u64>> = float_literals(source)
        .iter()
        .map(|t| t.parse::<f64>().ok().map(f64::to_bits))
        .collect();
    parse(source, &floats)
}

#[test]
fn parses_a_small_program() {
    let program = parse_text("push 1\npush 2\nadd\nprint\n").unwrap();
    assert_eq!(program.len(), 4);
    assert!(matches!(program[0], Instruction::Push(Value::Int(1))));
    assert!(matches!(program[1], Instruction::Push(Value::Int(2))));
    assert!(matches!(program[2], Instruction::Add));
    assert!(matches!(program[3], Instruction::Print));
}

#[test]
fn skips_comments_and_blank_lines() {
    let source = "# a comment\n\n   \npush 7 # seven\r\n  pop\t# done\n#\n";
    let program = parse_text(source).unwrap();
    assert_eq!(program.len(), 2);
    assert!(matches!(program[0], Instruction::Push(Value::Int(7))));
    assert!(matches!(program[1], Instruction::Pop));
}

#[test]
fn empty_text_is_an_empty_program() {
    assert_eq!(parse_text("").unwrap().len(), 0);
}

#[test]
fn reads_arguments() {
    let program =
        parse_text("pushstr hello\npushbool false\nstore x\nload x\ndrop x\njump 12\npushspace")
            .unwrap();
    assert!(matches!(&program[0], Instruction::PushStr(s) if s == "hello"));
    assert!(matches!(program[1], Instruction::PushBool(false)));
    assert!(matches!(&program[2], Instruction::Store(s) if s == "x"));
    assert!(matches!(&program[3], Instruction::Load(s) if s == "x"));
    assert!(matches!(&program[4], Instruction::Drop(s) if s == "x"));
    assert!(matches!(program[5], Instruction::Jump(12)));
    assert!(matches!(program[6], Instruction::PushSpace));
}

#[test]
fn reads_numbers_like_rust() {
    let program = parse_text("push +5\npush -0\npush -2147483648\npush 007").unwrap();
    assert!(matches!(program[0], Instruction::Push(Value::Int(5))));
    assert!(matches!(program[1], Instruction::Push(Value::Int(0))));
    assert!(matches!(program[2], Instruction::Push(Value::Int(i32::MIN))));
    assert!(matches!(program[3], Instruction::Push(Value::Int(7))));
}

#[test]
fn reads_floats_through_the_host() {
    let source = "push 1.5\njumpif 2.25 0\njumpif true 1";
    let literals = float_literals(source);
    assert_eq!(literals, vec!["1.5".to_string(), "2.25".to_string()]);
    let program = parse_text(source).unwrap();
    assert!(matches!(program[0], Instruction::Push(Value::Float(b)) if b == 1.5f64.to_bits()));
    assert!(
        matches!(program[1], Instruction::JumpIf(Value::Float(b), 0) if b == 2.25f64.to_bits())
    );
    assert!(matches!(program[2], Instruction::JumpIf(Value::Bool(true), 1)));
}

#[test]
fn jumpif_values() {
    let program = parse_text("jumpif 3 4\njumpif abc 5\njumpif -7 0").unwrap();
    assert!(matches!(program[0], Instruction::JumpIf(Value::Int(3), 4)));
    assert!(matches!(&program[1], Instruction::JumpIf(Value::String(s), 5) if s == "abc"));
    assert!(matches!(program[2], Instruction::JumpIf(Value::Int(-7), 0)));
}

#[test]
fn unknown_instruction_names_its_line() {
    let e = parse_text("push 1\n\nfrobnicate\npush 2").unwrap_err();
    assert!(matches!(&e, ParseError::UnknownInstruction { instruction, line: 3 } if instruction == "frobnicate"));
    assert_eq!(e.message(), "unknown instruction at line 3: frobnicate");
}

#[test]
fn argument_counts_are_checked() {
    let e = parse_text("push").unwrap_err();
    assert!(matches!(&e, ParseError::MissingArgument { instruction, line: 1 } if instruction == "push"));
    assert_eq!(e.message(), "missing argument at line 1: push");
    let e = parse_text("pop\nadd 1").unwrap_err();
    assert!(matches!(&e, ParseError::UnexpectedArgument { instruction, line: 2 } if instruction == "add"));
    let e = parse_text("jumpif 1").unwrap_err();
    assert!(matches!(&e, ParseError::MissingArgument { instruction, line: 1 } if instruction == "jumpif"));
}

#[test]
fn bad_values_are_rejected() {
    let e = parse_text("push 12x").unwrap_err();
    assert!(matches!(&e, ParseError::InvalidNumber { value, line: 1 } if value == "12x"));
    let e = parse_text("push 2147483648").unwrap_err();
    assert!(matches!(&e, ParseError::InvalidNumber { .. }));
    let e = parse_text("push 1.2.3").unwrap_err();
    assert!(matches!(&e, ParseError::InvalidNumber { value, .. } if value == "1.2.3"));
    let e = parse_text("pushbool yes").unwrap_err();
    assert!(matches!(&e, ParseError::InvalidBool { value, line: 1 } if value == "yes"));
    let e = parse_text("jump -1").unwrap_err();
    assert!(matches!(&e, ParseError::InvalidNumber { value, .. } if value == "-1"));
    let e = parse_text("jumpif 1 x").unwrap_err();
    assert!(matches!(&e, ParseError::InvalidNumber { value, .. } if value == "x"));
    assert_eq!(e.message(), "invalid number at line 1: x");
}

#[test]
fn the_first_wrong_line_is_reported() {
    let e = parse_text("push 1\nbad one\nworse").unwrap_err();
    assert!(matches!(e, ParseError::UnknownInstruction { line: 2, .. }));
}

#[test]
fn joining_texts_joins_programs() {
    let a = "push 1.5\npushstr x";
    let b = "jumpif 2.5 0\nadd";
    let joined = format!("{}\n{}", a, b);
    let x = parse_text(a).unwrap();
    let y = parse_text(b).unwrap();
    let z = parse_text(&joined).unwrap();
    assert_eq!(z.len(), x.len() + y.len());
    assert_eq!(float_literals(&joined), vec!["1.5".to_string(), "2.5".to_string()]);
    assert!(matches!(z[0], Instruction::Push(Value::Float(b)) if b == 1.5f64.to_bits()));
    assert!(matches!(z[2], Instruction::JumpIf(Value::Float(b), 0) if b == 2.5f64.to_bits()));
    assert!(matches!(z[3], Instruction::Add));
}

#[test]
fn a_wrong_line_alone_gives_the_same_error() {
    let e = parse_text("push 1\n# note\npushbool maybe\npop").unwrap_err();
    assert!(matches!(&e, ParseError::InvalidBool { value, line: 3 } if value == "maybe"));
    let alone = parse_text("pushbool maybe").unwrap_err();
    assert!(matches!(&alone, ParseError::InvalidBool { value, line: 1 } if value == "maybe"));
}
