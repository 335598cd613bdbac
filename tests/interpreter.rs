use rustlox::compiler::{number_lexemes, ErrorLocation};
use rustlox::values::Value;
use rustlox::vm::{InterpretResult, Operation, Progress, VM};

fn arith(op: Operation, a: u64, b: u64) -> u64 {
    let x = f64::from_bits(a);
    let y = f64::from_bits(b);
    let r = match op {
        Operation::Plus => x + y,
        Operation::Minus => x - y,
        Operation::Star => x * y,
        Operation::Div => x / y,
        Operation::Greater | Operation::Less => unreachable!(),
    };
    r.to_bits()
}

fn run(vm: &mut VM, source: &str) -> Progress {
    let numbers: Vec<u64> = number_lexemes(source.to_string())
        .iter()
        .map(|t| t.parse::<f64>().unwrap().to_bits())
        .collect();
    let mut p = vm.interpret(source.to_string(), numbers);
    loop {
        match p {
            Progress::Compute(op, a, b) => p = vm.resume(arith(op, a, b)),
            other => return other,
        }
    }
}

fn eval(source: &str) -> Progress {
    let mut vm = VM::init();
    run(&mut vm, source)
}

fn number(source: &str) -> f64 {
    match eval(source) {
        Progress::Returned(Value::Number(n)) => f64::from_bits(n),
        other => panic!("{source}: expected a number, got {other:?}"),
    }
}

fn boolean(source: &str) -> bool {
    match eval(source) {
        Progress::Returned(Value::Bool(b)) => b,
        other => panic!("{source}: expected a boolean, got {other:?}"),
    }
}

fn text(source: &str) -> String {
    match eval(source) {
        Progress::Returned(v) if v.is_string() => v.as_string().content,
        other => panic!("{source}: expected a string, got {other:?}"),
    }
}

fn runtime_error(source: &str) -> (String, i32) {
    match eval(source) {
        Progress::RuntimeError(message, line) => (message, line),
        other => panic!("{source}: expected a runtime error, got {other:?}"),
    }
}

fn syntax_error(source: &str) -> (i32, ErrorLocation, String) {
    match eval(source) {
        Progress::CompileError(Some(d)) => (d.line, d.location, d.message),
        other => panic!("{source}: expected a compile error, got {other:?}"),
    }
}

#[test]
fn precedence_and_left_associativity() {
    assert_eq!(number("1 - 2 - 3"), -4.0);
    assert_eq!(number("2 + 3 * 4"), 14.0);
    assert_eq!(number("(2 + 3) * 4"), 20.0);
    assert_eq!(number("8 / 4 / 2"), 1.0);
}

#[test]
fn unary_minus_binds_tighter_than_plus() {
    assert_eq!(number("-1 + 2"), 1.0);
    assert_eq!(number("--3"), 3.0);
}

#[test]
fn division_by_zero_follows_floating_point() {
    let inf = number("1/0");
    assert!(inf.is_infinite() && inf > 0.0);
    assert!(number("0/0").is_nan());
    assert_eq!(eval("1/0").result(), Some(InterpretResult::InterpretOk));
}

#[test]
fn comparison_rewrites_agree() {
    let pairs = [("1", "2"), ("2", "1"), ("3", "3"), ("0/0", "1"), ("1", "0/0")];
    for (a, b) in pairs {
        assert_eq!(boolean(&format!("{a} >= {b}")), boolean(&format!("!({a} < {b})")));
        assert_eq!(boolean(&format!("{a} <= {b}")), boolean(&format!("!({a} > {b})")));
        assert_eq!(boolean(&format!("{a} != {b}")), boolean(&format!("!({a} == {b})")));
    }
    assert!(boolean("(0/0) >= 1"));
    assert!(!boolean("(0/0) > 1"));
    assert!(boolean("2 >= 1"));
    assert!(!boolean("1 >= 2"));
}

#[test]
fn falsey_set_is_nil_and_false() {
    assert!(!boolean("!0"));
    assert!(boolean("!nil"));
    assert!(boolean("!false"));
    assert!(!boolean("!true"));
    assert!(!boolean("!\"\""));
}

#[test]
fn equality_has_no_coercion() {
    assert!(boolean("nil == nil"));
    assert!(!boolean("0 == nil"));
    assert!(!boolean("true == 1"));
    assert!(boolean("\"ab\" == \"ab\""));
    assert!(!boolean("\"1\" == 1"));
    assert!(!boolean("(0/0) == (0/0)"));
    assert!(boolean("0 == -0"));
}

#[test]
fn number_plus_string_is_a_runtime_error() {
    let (message, line) = runtime_error("1 + \"a\"");
    assert_eq!(message, "Operands must be two numbers or two strings.");
    assert_eq!(line, 1);
    assert_eq!(eval("1 + \"a\"").result(), Some(InterpretResult::InterpretRuntimeError));
}

#[test]
fn arithmetic_on_non_numbers_is_a_runtime_error() {
    assert_eq!(runtime_error("-\"a\"").0, "Operands must be numbers.");
    assert_eq!(runtime_error("true * 2").0, "Operands must be numbers.");
    assert_eq!(runtime_error("\"a\" < \"b\"").0, "Operands must be numbers.");
    assert_eq!(runtime_error("nil - 1").0, "Operands must be numbers.");
    assert_eq!(runtime_error("1 +\n\n true").1, 3);
}

#[test]
fn unterminated_grouping_is_a_syntax_error() {
    let (line, location, message) = syntax_error("(1 + 2");
    assert_eq!(line, 1);
    assert!(matches!(location, ErrorLocation::AtEnd));
    assert_eq!(message, "Expect ')' after expression");
    assert_eq!(eval("(1 + 2").result(), Some(InterpretResult::InterpretCompileError));
}

#[test]
fn unterminated_string_is_a_syntax_error() {
    let (line, location, message) = syntax_error("\"abc\n");
    assert_eq!(line, 2);
    assert!(matches!(location, ErrorLocation::Scanner));
    assert_eq!(message, "Unterminated string.");
}

#[test]
fn other_syntax_errors() {
    let (_, location, message) = syntax_error("+");
    assert!(matches!(location, ErrorLocation::At(ref t) if t == "+"));
    assert_eq!(message, "Expect expression");
    let (_, location, message) = syntax_error("1 2");
    assert!(matches!(location, ErrorLocation::At(ref t) if t == "2"));
    assert_eq!(message, "Expect end of expression.");
    let (_, location, message) = syntax_error("1 # 2");
    assert!(matches!(location, ErrorLocation::Scanner));
    assert_eq!(message, "Unexpected character.");
    let (_, location, _) = syntax_error("");
    assert!(matches!(location, ErrorLocation::AtEnd));
}

#[test]
fn only_the_first_syntax_error_is_reported() {
    let (_, _, message) = syntax_error("(# 1");
    assert_eq!(message, "Unexpected character.");
}

#[test]
fn runtime_error_leaves_the_machine_clean() {
    let mut vm = VM::init();
    match run(&mut vm, "1 + (2 * -\"x\")") {
        Progress::RuntimeError(message, _) => assert_eq!(message, "Operands must be numbers."),
        other => panic!("expected a runtime error, got {other:?}"),
    }
    assert!(vm.stack_values().is_empty());
    match run(&mut vm, "1 + 2") {
        Progress::Returned(Value::Number(n)) => assert_eq!(f64::from_bits(n), 3.0),
        other => panic!("expected 3, got {other:?}"),
    }
    assert!(vm.stack_values().is_empty());
}

#[test]
fn compile_error_runs_nothing() {
    let mut vm = VM::init();
    assert!(matches!(run(&mut vm, "1 +"), Progress::CompileError(Some(_))));
    assert!(vm.stack_values().is_empty());
    assert!(matches!(run(&mut vm, "true"), Progress::Returned(Value::Bool(true))));
}

#[test]
fn string_concatenation_is_associative() {
    assert_eq!(text("(\"a\" + \"b\") + \"c\""), "abc");
    assert_eq!(text("\"a\" + (\"b\" + \"c\")"), "abc");
    assert_eq!(text("\"left\" + \"right\""), "leftright");
    assert_eq!(text("\"\" + \"\""), "");
}

#[test]
fn literals_and_comments() {
    assert!(matches!(eval("nil"), Progress::Returned(Value::Nil)));
    assert!(matches!(eval("false // a comment"), Progress::Returned(Value::Bool(false))));
    assert_eq!(number("// first\n  12.5\n"), 12.5);
    assert_eq!(text("\"multi\nline\""), "multi\nline");
}

#[test]
fn comparisons() {
    assert!(boolean("1 < 2"));
    assert!(!boolean("2 < 1"));
    assert!(boolean("2 > 1"));
    assert!(boolean("-1 < 0"));
    assert!(!boolean("0 < -0"));
    assert!(boolean("1 + 1 == 2"));
    assert!(boolean("1 < 2 == true"));
}

#[test]
fn number_lexemes_in_order() {
    let lexemes = number_lexemes("1 + 2.5 * (30) - \"4\" // 5".to_string());
    assert_eq!(lexemes, vec!["1".to_string(), "2.5".to_string(), "30".to_string()]);
    assert!(number_lexemes("".to_string()).is_empty());
}

#[test]
fn stepping_one_instruction_at_a_time() {
    let mut vm = VM::init();
    vm.set_debug();
    assert!(vm.debug_enabled());
    let source = "2 * 3 > 5";
    let numbers: Vec<u64> = vec![2.0f64.to_bits(), 3.0f64.to_bits(), 5.0f64.to_bits()];
    assert!(vm.load(source.to_string(), numbers).is_none());
    assert_eq!(vm.position(), 0);
    assert!(matches!(vm.step(), Progress::Next));
    assert!(matches!(vm.step(), Progress::Next));
    assert_eq!(vm.stack_values().len(), 2);
    match vm.step() {
        Progress::Compute(Operation::Star, a, b) => {
            assert_eq!((f64::from_bits(a), f64::from_bits(b)), (2.0, 3.0));
            assert!(vm.stack_values().is_empty());
            vm.provide(6.0f64.to_bits());
        }
        other => panic!("expected a multiplication, got {other:?}"),
    }
    assert!(matches!(vm.step(), Progress::Next));
    assert!(matches!(vm.step(), Progress::Next));
    assert!(matches!(vm.step(), Progress::Returned(Value::Bool(true))));
    assert!(matches!(vm.step(), Progress::Finished));
    assert_eq!(vm.step().result(), Some(InterpretResult::InterpretOk));
}

#[test]
fn load_reports_syntax_errors() {
    let mut vm = VM::init();
    match vm.load(")".to_string(), Vec::new()) {
        Some(Progress::CompileError(Some(d))) => assert_eq!(d.message, "Expect expression"),
        other => panic!("expected a syntax error, got {other:?}"),
    }
}
