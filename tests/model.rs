use rustlox::chunk::{Chunk, OpCode};
use rustlox::compiler::{compile, get_rule, number_lexemes, Precedence, ParseRule};
use rustlox::scanner::TokenType;
use rustlox::values::{number_equal, number_less, number_negate, Value, ValueArray};

fn bits(x: f64) -> u64 {
    x.to_bits()
}

fn compiled(source: &str) -> Chunk {
    let numbers: Vec<u64> = number_lexemes(source.to_string())
        .iter()
        .map(|t| t.parse::<f64>().unwrap().to_bits())
        .collect();
    let mut chunk = Chunk::init();
    assert!(compile(source.to_string(), numbers, &mut chunk).is_ok());
    chunk
}

#[test]
fn falsey_values() {
    assert!(Value::from_nil().is_falsey());
    assert!(Value::from_bool(false).is_falsey());
    assert!(!Value::from_bool(true).is_falsey());
    assert!(!Value::from_number(bits(0.0)).is_falsey());
    assert!(!Value::from_string(String::new()).is_falsey());
}

#[test]
fn value_equality() {
    assert!(Value::from_nil().equals(&Value::from_nil()));
    assert!(!Value::from_number(bits(0.0)).equals(&Value::from_nil()));
    assert!(!Value::from_bool(true).equals(&Value::from_number(bits(1.0))));
    assert!(Value::from_string("a".to_string()).equals(&Value::from_string("a".to_string())));
    assert!(!Value::from_string("a".to_string()).equals(&Value::from_string("b".to_string())));
    assert!(Value::from_number(bits(0.0)).equals(&Value::from_number(bits(-0.0))));
    assert!(!Value::from_number(bits(f64::NAN)).equals(&Value::from_number(bits(f64::NAN))));
}

#[test]
fn number_order_matches_floating_point() {
    let samples = [
        f64::NEG_INFINITY,
        -2.5,
        -1.0,
        -0.0,
        0.0,
        1e-300,
        1.0,
        3.75,
        f64::MAX,
        f64::INFINITY,
        f64::NAN,
    ];
    for a in samples {
        for b in samples {
            assert_eq!(number_less(bits(a), bits(b)), a < b, "{a} < {b}");
            assert_eq!(number_equal(bits(a), bits(b)), a == b, "{a} == {b}");
        }
        assert_eq!(number_negate(bits(a)), bits(-a));
    }
}

#[test]
fn chunk_appends_in_lockstep() {
    let mut chunk = Chunk::init();
    let i = chunk.add_constant(Value::from_number(bits(1.5)));
    let j = chunk.add_constant(Value::from_nil());
    assert_eq!((i, j), (0, 1));
    chunk.write(OpCode::OpConstant(i), 7);
    chunk.write(OpCode::OpReturn, 8);
    assert_eq!(chunk.code, vec![OpCode::OpConstant(0), OpCode::OpReturn]);
    assert_eq!(chunk.lines, vec![7, 8]);
    assert_eq!(chunk.constants.values.len(), 2);
}

#[test]
fn comparison_operators_compile_to_negations() {
    assert_eq!(
        compiled("1 >= 2").code,
        vec![OpCode::OpConstant(0), OpCode::OpConstant(1), OpCode::OpLess, OpCode::OpNot, OpCode::OpReturn]
    );
    assert_eq!(
        compiled("1 <= 2").code,
        vec![OpCode::OpConstant(0), OpCode::OpConstant(1), OpCode::OpGreater, OpCode::OpNot, OpCode::OpReturn]
    );
    assert_eq!(
        compiled("1 != 2").code,
        vec![OpCode::OpConstant(0), OpCode::OpConstant(1), OpCode::OpEqual, OpCode::OpNot, OpCode::OpReturn]
    );
}

#[test]
fn literals_need_no_constants() {
    let chunk = compiled("!true == nil");
    assert_eq!(
        chunk.code,
        vec![OpCode::OpTrue, OpCode::OpNot, OpCode::OpNil, OpCode::OpEqual, OpCode::OpReturn]
    );
    assert!(chunk.constants.values.is_empty());
}

#[test]
fn constants_are_pooled_in_order() {
    let chunk = compiled("(1 - 2) * \"s\"");
    assert_eq!(
        chunk.code,
        vec![
            OpCode::OpConstant(0),
            OpCode::OpConstant(1),
            OpCode::OpSubtract,
            OpCode::OpConstant(2),
            OpCode::OpMultiply,
            OpCode::OpReturn,
        ]
    );
    assert!(matches!(chunk.constants.values[0], Value::Number(n) if n == bits(1.0)));
    assert!(matches!(chunk.constants.values[1], Value::Number(n) if n == bits(2.0)));
    assert_eq!(chunk.constants.values[2].as_string().content, "s");
    assert_eq!(chunk.lines.len(), chunk.code.len());
}

#[test]
fn parse_table_entries() {
    let minus: ParseRule = get_rule(&TokenType::Minus);
    assert_eq!(minus.precedence, Precedence::Term);
    assert!(minus.prefix.is_some() && minus.infix.is_some());
    assert_eq!(get_rule(&TokenType::Star).precedence, Precedence::Factor);
    assert_eq!(get_rule(&TokenType::EqualEqual).precedence, Precedence::Equality);
    assert_eq!(get_rule(&TokenType::Less).precedence, Precedence::Comparison);
    assert!(get_rule(&TokenType::Plus).prefix.is_none());
    assert_eq!(get_rule(&TokenType::Eof).precedence, Precedence::Lowest);
    assert_eq!(Precedence::Term.next(), Precedence::Factor);
    assert_eq!(Precedence::Primary.next(), Precedence::Lowest);
    assert!(Precedence::Unary.level() > Precedence::Factor.level());
}

#[test]
fn value_array_get_and_take() {
    let mut array = ValueArray::init();
    array.write(Value::from_number(bits(1.0)));
    array.write(Value::from_bool(true));
    array.write(Value::from_string("z".to_string()));
    assert!(matches!(array.get(&1), Value::Bool(true)));
    assert!(matches!(array.get(&9), Value::Nil));
    assert!(matches!(array.take(&0), Value::Number(n) if n == bits(1.0)));
    assert_eq!(array.values.len(), 2);
    assert_eq!(array.values[0].as_string().content, "z");
    assert!(matches!(array.take(&5), Value::Number(n) if n == bits(-1.0)));
    assert_eq!(array.values.len(), 2);
}

#[test]
fn accessors_and_predicates() {
    let s = Value::from_string("txt".to_string());
    assert!(s.is_string() && !s.is_number() && !s.is_nil() && !s.is_bool());
    assert_eq!(s.as_object().print(), "txt");
    assert_eq!(Value::from_number(bits(2.5)).as_number(), bits(2.5));
    assert!(Value::from_bool(true).as_bool());
    assert!(Value::from_nil().is_nil());
}
