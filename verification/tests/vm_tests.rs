use terbium::error::VmError;
use terbium::instruction::Instruction;
use terbium::parser::{float_literals, parse};
use terbium::value::Value;
use terbium::vm::{Action, ArithOp, Reply, VM};

fn program(source: &str) -> Vec<Instruction> {
    let floats: Vec<Option<u64>> = float_literals(source)
        .iter()
        .map(|t| t.parse::<f64>().ok().map(f64::to_bits))
        .collect();
    parse(source, &floats).unwrap()
}

fn show(v: &Value) -> String {
    match v {
        Value::Int(i) => i.to_string(),
        Value::Float(b) => f64::from_bits(*b).to_string(),
        Value::String(s) => s.clone(),
        Value::Bool(b) => b.to_string(),
    }
}

/// Answers an action as a host that has no files.
fn answer(action: &Action, input: &mut Vec<String>) -> Option<Reply> {
    match action {
        Action::ReadLine => Some(Reply::Line(input.remove(0))),
        Action::ReadFile(_) => Some(Reply::Content(None)),
        Action::WriteFile(_, _) | Action::RemoveFile(_) | Action::CreateDir(_)
        | Action::RemoveDir(_) => Some(Reply::Done(false)),
        Action::Arith(op, a, b) => {
            let (x, y) = (f64::from_bits(*a), f64::from_bits(*b));
            let r = match op {
                ArithOp::Add => x + y,
                ArithOp::Sub => x - y,
                ArithOp::Mul => x * y,
                ArithOp::Div => x / y,
            };
            Some(Reply::Value(Value::Float(r.to_bits())))
        }
        Action::FloatToText(b) => {
            Some(Reply::Value(Value::String(f64::from_bits(*b).to_string())))
        }
        Action::TextToFloat(t) => Some(Reply::Float(t.parse::<f64>().ok().map(f64::to_bits))),
        _ => None,
    }
}

fn run_with(source: &str, input: &[&str]) -> (VM, Vec<String>, Result<(), VmError>) {
    let prog = program(source);
    let mut vm = VM::new();
    let mut out = Vec::new();
    let mut input: Vec<String> = input.iter().map(|s| s.to_string()).collect();
    for _ in 0..10_000 {
        assert!(!vm.overflows_here(&prog));
        match vm.step(&prog) {
            Err(e) => return (vm, out, Err(e)),
            Ok(Action::Halt) => return (vm, out, Ok(())),
            Ok(Action::Continue) => {}
            Ok(Action::Print(v)) => out.push(show(&v)),
            Ok(Action::Newline) => out.push("\n".to_string()),
            Ok(Action::ShowStack) => out.push(format!("{}", vm.stack().len())),
            Ok(action) => {
                let reply = answer(&action, &mut input).unwrap();
                assert!(action.accepts(&reply));
                assert!(vm.awaits_reply(&prog, &reply));
                if let Err(e) = vm.resume(&prog, reply) {
                    return (vm, out, Err(e));
                }
            }
        }
    }
    panic!("program did not stop");
}

fn run(source: &str) -> (VM, Vec<String>, Result<(), VmError>) {
    run_with(source, &[])
}

fn top(vm: &VM) -> &Value {
    vm.stack().last().unwrap()
}

#[test]
fn integer_arithmetic() {
    let (_, out, r) = run("push 6\npush 7\nmul\npush 2\nsub\nprint\npush -7\npush 2\ndiv\nprint");
    assert!(r.is_ok());
    assert_eq!(out, vec!["40", "-3"]);
}

#[test]
fn increment_and_decrement() {
    let mut vm = VM::new();
    let prog = vec![
        Instruction::Push(Value::Int(5)),
        Instruction::Inc,
        Instruction::Inc,
        Instruction::Dec,
    ];
    for _ in 0..4 {
        assert!(matches!(vm.step(&prog), Ok(Action::Continue)));
    }
    assert!(matches!(top(&vm), Value::Int(6)));
}

#[test]
fn string_operations() {
    let (_, out, r) = run("pushstr foo\npushspace\nadd\npushstr bar\nadd\nprint\npushstr banana\npushstr an\nsub\nprint");
    assert!(r.is_ok());
    assert_eq!(out, vec!["foo bar", "ba"]);
}

#[test]
fn removing_an_empty_pattern_changes_nothing() {
    let mut vm = VM::new();
    let prog = vec![
        Instruction::PushStr("abc".to_string()),
        Instruction::PushStr(String::new()),
        Instruction::Sub,
    ];
    for _ in 0..3 {
        vm.step(&prog).unwrap();
    }
    assert!(matches!(top(&vm), Value::String(s) if s == "abc"));
}

#[test]
fn division_by_zero() {
    let (vm, _, r) = run("push 1\npush 0\ndiv");
    assert!(matches!(r, Err(VmError::DivisionByZero { ip: 2 })));
    assert_eq!(vm.stack().len(), 0);
    let (_, _, r) = run("push 1.5\npush -0.0\ndiv");
    assert!(matches!(r, Err(VmError::DivisionByZero { ip: 2 })));
    let (_, _, r) = run("push 3\npush 0.0\ndiv");
    assert!(matches!(r, Err(VmError::DivisionByZero { ip: 2 })));
}

#[test]
fn type_mismatch() {
    let (_, _, r) = run("pushstr a\npush 1\nadd");
    match r {
        Err(VmError::TypeMismatch { operation, left, right, ip }) => {
            assert_eq!(operation, "add");
            assert!(matches!(left, Value::String(s) if s == "a"));
            assert!(matches!(right, Value::Int(1)));
            assert_eq!(ip, 2);
        }
        _ => panic!("expected a type mismatch"),
    }
    let (_, _, r) = run("pushbool true\nitos");
    assert!(matches!(r, Err(VmError::TypeMismatch { ref operation, ip: 1, .. }) if operation == "itos"));
    let (_, _, r) = run("pushbool true\npushbool false\ngt");
    assert!(matches!(r, Err(VmError::TypeMismatch { ref operation, .. }) if operation == "gt"));
}

#[test]
fn stack_underflow() {
    let (_, _, r) = run("pop");
    assert!(matches!(r, Err(VmError::StackUnderflow { ip: 0 })));
    let (vm, _, r) = run("push 1\nadd");
    assert!(matches!(r, Err(VmError::StackUnderflow { ip: 1 })));
    assert_eq!(vm.stack().len(), 0);
    let (_, _, r) = run("jumpif 1 0");
    assert!(matches!(r, Err(VmError::StackUnderflow { ip: 0 })));
}

#[test]
fn variables() {
    let (vm, out, r) = run("push 5\nstore x\npush 6\nstore x\nload x\nprint\nload x");
    assert!(r.is_ok());
    assert_eq!(out, vec!["6"]);
    assert!(matches!(top(&vm), Value::Int(6)));
    let (_, _, r) = run("push 5\nstore x\ndrop x\nload x");
    assert!(matches!(r, Err(VmError::UndefinedVariable { ref name, ip: 3 }) if name == "x"));
}

#[test]
fn loops_with_jumpif() {
    let source =
        "push 0\nstore i\nload i\njumpif 3 10\npop\nload i\npush 1\nadd\nstore i\njump 2\nprint";
    let (_, out, r) = run(source);
    assert!(r.is_ok());
    assert_eq!(out, vec!["3"]);
}

#[test]
fn exit_halts_and_stays_halted() {
    let prog = program("push 1\nexit\npush 2");
    let mut vm = VM::new();
    vm.step(&prog).unwrap();
    assert!(matches!(vm.step(&prog), Ok(Action::Halt)));
    assert_eq!(vm.ip(), 1);
    assert!(matches!(vm.step(&prog), Ok(Action::Halt)));
    assert_eq!(vm.stack().len(), 1);
}

#[test]
fn conversions() {
    let (vm, _, r) = run("push -123\nitos\nstoi");
    assert!(r.is_ok());
    assert!(matches!(top(&vm), Value::Int(-123)));
    let (vm, _, _) = run("pushstr  42\t\nstoi");
    assert!(matches!(top(&vm), Value::Int(42)));
    let (_, _, r) = run("pushstr x4\nstoi");
    assert!(matches!(r, Err(VmError::ConversionError { ref to, ip: 1, .. }) if to == "int"));
    let (vm, _, _) = run("pushbool true\nbtos\nstob");
    assert!(matches!(top(&vm), Value::Bool(true)));
    let (vm, _, _) = run("pushbool true\nbtoi");
    assert!(matches!(top(&vm), Value::Int(1)));
    let (vm, _, _) = run("pushbool true\nbtof");
    assert!(matches!(top(&vm), Value::Float(b) if f64::from_bits(*b) == 1.0));
    let (vm, _, _) = run("push 0\nitob");
    assert!(matches!(top(&vm), Value::Bool(false)));
    let (vm, _, _) = run("push -0.0\nftob");
    assert!(matches!(top(&vm), Value::Bool(false)));
    let (vm, _, _) = run("push 0.5\nftob");
    assert!(matches!(top(&vm), Value::Bool(true)));
}

#[test]
fn conversions_through_the_host() {
    let (vm, _, _) = run("push 3\nitof\npush 0.5\nadd");
    assert!(matches!(top(&vm), Value::Float(b) if f64::from_bits(*b) == 3.5));
    let (vm, _, _) = run("push 2.75\nftoi");
    assert!(matches!(top(&vm), Value::Int(2)));
    let (vm, _, _) = run("push 2.5\nftos");
    assert!(matches!(top(&vm), Value::String(s) if s == "2.5"));
    let (vm, _, _) = run("pushstr 1e3\nstof");
    assert!(matches!(top(&vm), Value::Float(b) if f64::from_bits(*b) == 1000.0));
    let (_, _, r) = run("pushstr one\nstof");
    assert!(matches!(r, Err(VmError::ConversionError { ref to, .. }) if to == "float"));
}

#[test]
fn comparisons() {
    let (_, out, _) = run(
        "push 1\npush 2\nlt\nprint\npushstr b\npushstr a\ngt\nprint\npushstr a\npushstr ab\nge\nprint\npush 2\npush 2.0\neq\nprint",
    );
    assert_eq!(out, vec!["true", "true", "false", "true"]);
}

#[test]
fn float_comparisons_in_the_machine() {
    let nan = f64::NAN.to_bits();
    let one = 1.0f64.to_bits();
    let zero = 0.0f64.to_bits();
    let neg_zero = (-0.0f64).to_bits();
    let cases = [
        (nan, nan, Instruction::Eq, false),
        (nan, nan, Instruction::Ne, true),
        (zero, neg_zero, Instruction::Eq, true),
        (neg_zero, one, Instruction::Lt, true),
        (one, nan, Instruction::Ge, false),
        ((-2.0f64).to_bits(), (-1.0f64).to_bits(), Instruction::Lt, true),
        (f64::INFINITY.to_bits(), one, Instruction::Gt, true),
    ];
    for (a, b, op, expected) in cases {
        let prog = vec![Instruction::Push(Value::Float(a)), Instruction::Push(Value::Float(b)), op];
        let mut vm = VM::new();
        for _ in 0..3 {
            assert!(matches!(vm.step(&prog), Ok(Action::Continue)));
        }
        assert!(matches!(top(&vm), Value::Bool(x) if *x == expected));
    }
}

#[test]
fn boolean_logic() {
    let (_, out, _) = run("pushbool true\npushbool false\nand\nprint\npushbool true\npushbool false\nor\nprint\npushbool false\nnot\nprint");
    assert_eq!(out, vec!["false", "true", "true"]);
}

#[test]
fn reading_input_trims_it() {
    let (vm, _, r) = run_with("read", &["  hello world \n"]);
    assert!(r.is_ok());
    assert!(matches!(top(&vm), Value::String(s) if s == "hello world"));
}

#[test]
fn failed_file_operations_name_the_path() {
    let (vm, _, r) = run("pushstr /no/such/file\nreadf");
    assert!(matches!(r, Err(VmError::InvalidPath { ref path, ip: 1 }) if path == "/no/such/file"));
    assert_eq!(vm.stack().len(), 0);
    let (_, _, r) = run("pushstr p\npushstr text\nwritef");
    assert!(matches!(r, Err(VmError::InvalidPath { ref path, ip: 2 }) if path == "p"));
    let (_, _, r) = run("push 1\nremovef");
    assert!(matches!(r, Err(VmError::TypeMismatch { ref operation, .. }) if operation == "removef"));
}

#[test]
fn output_instructions() {
    let (_, out, r) = run("push 1\npush 2\ndebug\nprintln\nprint");
    assert!(r.is_ok());
    assert_eq!(out, vec!["2", "\n", "2"]);
}

#[test]
fn overflow_is_detected_before_the_step() {
    let prog = program("push 2147483647\npush 1\nadd");
    let mut vm = VM::new();
    vm.step(&prog).unwrap();
    vm.step(&prog).unwrap();
    assert!(vm.overflows_here(&prog));
    let prog = program("push -2147483648\npush -1\ndiv");
    let mut vm = VM::new();
    vm.step(&prog).unwrap();
    vm.step(&prog).unwrap();
    assert!(vm.overflows_here(&prog));
}

#[test]
fn pop_takes_the_top() {
    let mut vm = VM::new();
    assert!(matches!(vm.pop(), Err(VmError::StackUnderflow { ip: 0 })));
    let prog = program("push 4");
    vm.step(&prog).unwrap();
    assert!(matches!(vm.pop(), Ok(Value::Int(4))));
    assert_eq!(vm.stack().len(), 0);
}

#[test]
fn push_then_pop_restores_the_stack() {
    let prog = program("push 1\npushstr x\npop\npush 3\npop");
    let mut vm = VM::new();
    vm.step(&prog).unwrap();
    let depth = vm.stack().len();
    for _ in 0..4 {
        assert!(matches!(vm.step(&prog), Ok(Action::Continue)));
    }
    assert_eq!(vm.stack().len(), depth);
    assert!(matches!(top(&vm), Value::Int(1)));
    assert_eq!(vm.ip(), 5);
}

#[test]
fn asking_leaves_the_machine_and_the_answer_moves_on() {
    let prog = program("push 1\npush 2.5\nadd");
    let mut vm = VM::new();
    vm.step(&prog).unwrap();
    vm.step(&prog).unwrap();
    let action = vm.step(&prog).unwrap();
    assert!(matches!(action, Action::Arith(ArithOp::Add, a, b) if a == 1.0f64.to_bits() && b == 2.5f64.to_bits()));
    assert_eq!(vm.ip(), 2);
    assert_eq!(vm.stack().len(), 2);
    let reply = Reply::Value(Value::Float(3.5f64.to_bits()));
    assert!(!vm.awaits_reply(&prog, &Reply::Done(true)));
    assert!(vm.awaits_reply(&prog, &reply));
    vm.resume(&prog, reply).unwrap();
    assert_eq!(vm.ip(), 3);
    assert_eq!(vm.stack().len(), 1);
}

#[test]
fn jumpif_keeps_the_top() {
    let prog = program("push 5\njumpif 5 7");
    let mut vm = VM::new();
    vm.step(&prog).unwrap();
    vm.step(&prog).unwrap();
    assert_eq!(vm.ip(), 7);
    assert!(matches!(top(&vm), Value::Int(5)));
    assert!(matches!(vm.step(&prog), Ok(Action::Halt)));
}

#[test]
fn mixed_comparisons_follow_f64() {
    let cases: [(i32, f64); 8] = [
        (2, 2.0),
        (2, 2.5),
        (-3, -3.5),
        (0, -0.0),
        (7, f64::NAN),
        (i32::MAX, 2147483647.5),
        (i32::MIN, -2147483648.0),
        (1, f64::INFINITY),
    ];
    let ops = [Instruction::Eq, Instruction::Ne, Instruction::Gt, Instruction::Lt, Instruction::Ge, Instruction::Le];
    for (x, y) in cases {
        for (k, op) in ops.iter().enumerate() {
            for swap in [false, true] {
                let (a, b) = if swap {
                    (Value::Float(y.to_bits()), Value::Int(x))
                } else {
                    (Value::Int(x), Value::Float(y.to_bits()))
                };
                let (p, q) = if swap { (y, x as f64) } else { (x as f64, y) };
                let expected = match k {
                    0 => p == q,
                    1 => p != q,
                    2 => p > q,
                    3 => p < q,
                    4 => p >= q,
                    _ => p <= q,
                };
                let prog = vec![Instruction::Push(a), Instruction::Push(b), op.clone()];
                let mut vm = VM::new();
                for _ in 0..3 {
                    assert!(matches!(vm.step(&prog), Ok(Action::Continue)));
                }
                assert!(matches!(top(&vm), Value::Bool(r) if *r == expected), "{x} {y} {k} {swap}");
            }
        }
    }
}

#[test]
fn machine_error_messages() {
    let (_, _, r) = run("pop");
    assert_eq!(r.unwrap_err().message("", ""), "stack underflow at instruction 0");
    let (_, _, r) = run("pushstr a\npush 1\nadd");
    assert_eq!(
        r.unwrap_err().message("a", "1"),
        "type mismatch at instruction 2: cannot add a and 1"
    );
    let (_, _, r) = run("push 1\nload x");
    assert_eq!(r.unwrap_err().message("", ""), "undefined variable at instruction 1: x");
    let (_, _, r) = run("push 1\npush 0\ndiv");
    assert_eq!(r.unwrap_err().message("", ""), "division by zero at instruction 2");
    let (_, _, r) = run("pushstr /x\nreadf");
    assert_eq!(r.unwrap_err().message("", ""), "invalid path at instruction 1: /x");
    let (_, _, r) = run("pushstr q\nstoi");
    assert_eq!(
        r.unwrap_err().message("q", ""),
        "conversion error at instruction 1: cannot convert q to int"
    );
}

#[test]
fn printed_texts_of_values() {
    assert_eq!(Value::Int(-42).text_of(), Some("-42".to_string()));
    assert_eq!(Value::Bool(true).text_of(), Some("true".to_string()));
    assert_eq!(Value::String("hi".to_string()).text_of(), Some("hi".to_string()));
    assert_eq!(Value::Float(1.5f64.to_bits()).text_of(), None);
}

#[test]
fn answers_must_have_the_asked_kind() {
    let prog = program("push 1.5\npush 2.5\nadd\nftos");
    let mut vm = VM::new();
    vm.step(&prog).unwrap();
    vm.step(&prog).unwrap();
    let action = vm.step(&prog).unwrap();
    let text = Reply::Value(Value::String("4".to_string()));
    let float = Reply::Value(Value::Float(4.0f64.to_bits()));
    assert!(!action.accepts(&text));
    assert!(!vm.awaits_reply(&prog, &text));
    assert!(action.accepts(&float));
    vm.resume(&prog, float).unwrap();
    let action = vm.step(&prog).unwrap();
    assert!(matches!(action, Action::FloatToText(_)));
    assert!(!vm.awaits_reply(&prog, &Reply::Value(Value::Float(0))));
    assert!(vm.awaits_reply(&prog, &Reply::Value(Value::String("4".to_string()))));
}
