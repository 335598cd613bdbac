use vstd::prelude::*;
use crate::chunk::{Chunk, OpCode};
use crate::scanner::{char_at, literals_from, number_literals, scan_from, Scanner, Token, TokenModel, TokenType};
use crate::values::{Value, ValueModel};

verus! {

/// Where in the source a syntax error was found.
#[derive(Debug, Clone)]
pub enum ErrorLocation {
    /// At the end of the input.
    AtEnd,
    /// At a token with this text.
    At(String),
    /// At a token the scanner rejected; its message says what was wrong.
    Scanner,
}

/// A syntax error: the line, where on it, and what was expected or wrong.
#[derive(Debug, Clone)]
pub struct Diagnostic {
    pub line: i32,
    pub location: ErrorLocation,
    pub message: String,
}

/// Binding strength of an operator, weakest first.
#[derive(Debug, PartialEq, Eq, Structural, Clone, Copy)]
pub enum Precedence {
    Lowest,
    Assignment,
    Or,
    And,
    Equality,
    Comparison,
    Term,
    Factor,
    Unary,
    Call,
    Primary,
}

impl Precedence {
    /// The position of the level in the order from weakest to strongest.
    pub open spec fn rank(self) -> int {
        match self {
            Precedence::Lowest => 0,
            Precedence::Assignment => 1,
            Precedence::Or => 2,
            Precedence::And => 3,
            Precedence::Equality => 4,
            Precedence::Comparison => 5,
            Precedence::Term => 6,
            Precedence::Factor => 7,
            Precedence::Unary => 8,
            Precedence::Call => 9,
            Precedence::Primary => 10,
        }
    }

    pub fn level(&self) -> (r: u8)
        ensures
            r == self.rank(),
    {
        match self {
            Precedence::Lowest => 0,
            Precedence::Assignment => 1,
            Precedence::Or => 2,
            Precedence::And => 3,
            Precedence::Equality => 4,
            Precedence::Comparison => 5,
            Precedence::Term => 6,
            Precedence::Factor => 7,
            Precedence::Unary => 8,
            Precedence::Call => 9,
            Precedence::Primary => 10,
        }
    }

    /// The next stronger level; the strongest wraps round to the weakest.
    pub fn next(&self) -> (r: Precedence)
        ensures
            r == next_level(*self),
            self.rank() < 10 ==> r.rank() == self.rank() + 1,
            self.rank() == 10 ==> r == Precedence::Lowest,
    {
        match self {
            Precedence::Lowest => Precedence::Assignment,
            Precedence::Assignment => Precedence::Or,
            Precedence::Or => Precedence::And,
            Precedence::And => Precedence::Equality,
            Precedence::Equality => Precedence::Comparison,
            Precedence::Comparison => Precedence::Term,
            Precedence::Term => Precedence::Factor,
            Precedence::Factor => Precedence::Unary,
            Precedence::Unary => Precedence::Call,
            Precedence::Call => Precedence::Primary,
            Precedence::Primary => Precedence::Lowest,
        }
    }
}

/// How a token starts an expression.
#[derive(Debug, PartialEq, Eq, Structural, Clone, Copy)]
pub enum PrefixRule {
    Grouping,
    Unary,
    Number,
    String,
    Literal,
}

/// How a token continues an expression.
#[derive(Debug, PartialEq, Eq, Structural, Clone, Copy)]
pub enum InfixRule {
    Binary,
}

/// The parse table's entry for a token kind.
#[derive(Debug, PartialEq, Eq, Structural, Clone, Copy)]
pub struct ParseRule {
    pub prefix: Option<PrefixRule>,
    pub infix: Option<InfixRule>,
    pub precedence: Precedence,
}

/// The parse table.
pub open spec fn rule_of(kind: TokenType) -> ParseRule {
    let none = Option::<InfixRule>::None;
    match kind {
        TokenType::LeftParen => ParseRule { prefix: Some(PrefixRule::Grouping), infix: none, precedence: Precedence::Lowest },
        TokenType::Minus => ParseRule { prefix: Some(PrefixRule::Unary), infix: Some(InfixRule::Binary), precedence: Precedence::Term },
        TokenType::Plus => ParseRule { prefix: None, infix: Some(InfixRule::Binary), precedence: Precedence::Term },
        TokenType::Slash => ParseRule { prefix: None, infix: Some(InfixRule::Binary), precedence: Precedence::Factor },
        TokenType::Star => ParseRule { prefix: None, infix: Some(InfixRule::Binary), precedence: Precedence::Factor },
        TokenType::Number => ParseRule { prefix: Some(PrefixRule::Number), infix: none, precedence: Precedence::Lowest },
        TokenType::Bang => ParseRule { prefix: Some(PrefixRule::Unary), infix: none, precedence: Precedence::Lowest },
        TokenType::BangEqual => ParseRule { prefix: None, infix: Some(InfixRule::Binary), precedence: Precedence::Equality },
        TokenType::EqualEqual => ParseRule { prefix: None, infix: Some(InfixRule::Binary), precedence: Precedence::Equality },
        TokenType::Greater => ParseRule { prefix: None, infix: Some(InfixRule::Binary), precedence: Precedence::Comparison },
        TokenType::GreaterEqual => ParseRule { prefix: None, infix: Some(InfixRule::Binary), precedence: Precedence::Comparison },
        TokenType::Less => ParseRule { prefix: None, infix: Some(InfixRule::Binary), precedence: Precedence::Comparison },
        TokenType::LessEqual => ParseRule { prefix: None, infix: Some(InfixRule::Binary), precedence: Precedence::Comparison },
        TokenType::True | TokenType::Nil | TokenType::False => ParseRule { prefix: Some(PrefixRule::Literal), infix: none, precedence: Precedence::Lowest },
        TokenType::String => ParseRule { prefix: Some(PrefixRule::String), infix: none, precedence: Precedence::Lowest },
        _ => ParseRule { prefix: None, infix: none, precedence: Precedence::Lowest },
    }
}

pub fn get_rule(operator_type: &TokenType) -> (r: ParseRule)
    ensures
        r == rule_of(*operator_type),
{
    match operator_type {
        TokenType::LeftParen => ParseRule { prefix: Some(PrefixRule::Grouping), infix: None, precedence: Precedence::Lowest },
        TokenType::Minus => ParseRule { prefix: Some(PrefixRule::Unary), infix: Some(InfixRule::Binary), precedence: Precedence::Term },
        TokenType::Plus => ParseRule { prefix: None, infix: Some(InfixRule::Binary), precedence: Precedence::Term },
        TokenType::Slash => ParseRule { prefix: None, infix: Some(InfixRule::Binary), precedence: Precedence::Factor },
        TokenType::Star => ParseRule { prefix: None, infix: Some(InfixRule::Binary), precedence: Precedence::Factor },
        TokenType::Number => ParseRule { prefix: Some(PrefixRule::Number), infix: None, precedence: Precedence::Lowest },
        TokenType::Bang => ParseRule { prefix: Some(PrefixRule::Unary), infix: None, precedence: Precedence::Lowest },
        TokenType::BangEqual => ParseRule { prefix: None, infix: Some(InfixRule::Binary), precedence: Precedence::Equality },
        TokenType::EqualEqual => ParseRule { prefix: None, infix: Some(InfixRule::Binary), precedence: Precedence::Equality },
        TokenType::Greater => ParseRule { prefix: None, infix: Some(InfixRule::Binary), precedence: Precedence::Comparison },
        TokenType::GreaterEqual => ParseRule { prefix: None, infix: Some(InfixRule::Binary), precedence: Precedence::Comparison },
        TokenType::Less => ParseRule { prefix: None, infix: Some(InfixRule::Binary), precedence: Precedence::Comparison },
        TokenType::LessEqual => ParseRule { prefix: None, infix: Some(InfixRule::Binary), precedence: Precedence::Comparison },
        TokenType::True | TokenType::Nil | TokenType::False => ParseRule { prefix: Some(PrefixRule::Literal), infix: None, precedence: Precedence::Lowest },
        TokenType::String => ParseRule { prefix: Some(PrefixRule::String), infix: None, precedence: Precedence::Lowest },
        _ => ParseRule { prefix: None, infix: None, precedence: Precedence::Lowest },
    }
}

/// The instructions that a binary operator compiles to, after both operands.
pub open spec fn binary_code(kind: TokenType) -> Seq<OpCode> {
    match kind {
        TokenType::BangEqual => seq![OpCode::OpEqual, OpCode::OpNot],
        TokenType::EqualEqual => seq![OpCode::OpEqual],
        TokenType::Greater => seq![OpCode::OpGreater],
        TokenType::GreaterEqual => seq![OpCode::OpLess, OpCode::OpNot],
        TokenType::Less => seq![OpCode::OpLess],
        TokenType::LessEqual => seq![OpCode::OpGreater, OpCode::OpNot],
        TokenType::Plus => seq![OpCode::OpAdd],
        TokenType::Minus => seq![OpCode::OpSubtract],
        TokenType::Star => seq![OpCode::OpMultiply],
        TokenType::Slash => seq![OpCode::OpDivide],
        _ => seq![],
    }
}

/// The instructions that a prefix operator compiles to, after its operand.
pub open spec fn unary_code(kind: TokenType) -> Seq<OpCode> {
    match kind {
        TokenType::Bang => seq![OpCode::OpNot],
        TokenType::Minus => seq![OpCode::OpNegate],
        _ => seq![],
    }
}

/// A view of `ErrorLocation`.
pub enum LocationModel {
    AtEnd,
    At(Seq<char>),
    Scanner,
}

/// A view of `Diagnostic`.
pub struct DiagnosticModel {
    pub line: int,
    pub location: LocationModel,
    pub message: Seq<char>,
}

impl View for Diagnostic {
    type V = DiagnosticModel;

    open spec fn view(&self) -> DiagnosticModel {
        DiagnosticModel {
            line: self.line as int,
            location: match &self.location {
                ErrorLocation::AtEnd => LocationModel::AtEnd,
                ErrorLocation::At(t) => LocationModel::At(t@),
                ErrorLocation::Scanner => LocationModel::Scanner,
            },
            message: self.message@,
        }
    }
}

/// Everything a compilation has read and written so far: the scanner's
/// position and line, the lookahead and the token just consumed, the first
/// syntax error and whether the parser is in panic mode, how many number
/// literals it consumed, and the chunk it has written.
pub struct ParseState {
    pub pos: int,
    pub line: int,
    pub current: TokenModel,
    pub previous: TokenModel,
    pub error: Option<DiagnosticModel>,
    pub panic: bool,
    pub next_number: int,
    pub code: Seq<OpCode>,
    pub lines: Seq<i32>,
    pub consts: Seq<ValueModel>,
}

/// What is left to parse: the characters after the scanner, and the lookahead.
pub open spec fn rem(s: Seq<char>, st: ParseState) -> int {
    (s.len() - st.pos) + if st.current.kind == TokenType::Eof { 0int } else { 1int }
}

/// Records a syntax error at the lookahead or at the token just consumed,
/// unless the parser is in panic mode; then it is in panic mode.
pub open spec fn report(st: ParseState, at_current: bool, message: Seq<char>) -> ParseState {
    if st.panic {
        st
    } else {
        let tok = if at_current { st.current } else { st.previous };
        let location = if tok.kind == TokenType::Eof {
            LocationModel::AtEnd
        } else if tok.kind == TokenType::Error {
            LocationModel::Scanner
        } else {
            LocationModel::At(tok.content)
        };
        ParseState {
            panic: true,
            error: Some(DiagnosticModel { line: tok.line, location, message }),
            ..st
        }
    }
}

/// Reads tokens into the lookahead until one is not an error token,
/// reporting each error token with its message.
pub open spec fn skip_errors(s: Seq<char>, st: ParseState) -> ParseState
    decreases s.len() - st.pos,
{
    let (t, p, l) = scan_from(s, st.pos, st.line);
    let next = ParseState { pos: p, line: l, current: t, ..st };
    if t.kind != TokenType::Error || p <= st.pos || p > s.len() {
        next
    } else {
        skip_errors(s, report(next, true, t.content))
    }
}

/// Consumes the lookahead and reads the next one.
pub open spec fn advance_spec(s: Seq<char>, st: ParseState) -> ParseState {
    skip_errors(
        s,
        ParseState {
            previous: st.current,
            next_number: st.next_number + if st.current.kind == TokenType::Number { 1int } else { 0int },
            ..st
        },
    )
}

/// Consumes the lookahead if it has kind `kind`; else reports `message` at it.
pub open spec fn consume_spec(s: Seq<char>, st: ParseState, kind: TokenType, message: Seq<char>) -> ParseState {
    if st.current.kind == kind {
        advance_spec(s, st)
    } else {
        report(st, true, message)
    }
}

/// Appends an instruction, on the line of the token just consumed.
pub open spec fn emit(st: ParseState, op: OpCode) -> ParseState {
    ParseState { code: st.code.push(op), lines: st.lines.push(st.previous.line as i32), ..st }
}

/// Appends instructions one by one.
pub open spec fn emit_all(st: ParseState, ops: Seq<OpCode>) -> ParseState
    decreases ops.len(),
{
    if ops.len() == 0 {
        st
    } else {
        emit_all(emit(st, ops[0]), ops.drop_first())
    }
}

/// Appends a constant and an instruction that loads it.
pub open spec fn emit_constant_spec(st: ParseState, v: ValueModel) -> ParseState {
    emit(ParseState { consts: st.consts.push(v), ..st }, OpCode::OpConstant(st.consts.len() as usize))
}

/// The literal `true`, `false` or `nil` just consumed.
pub open spec fn literal_spec(st: ParseState) -> ParseState {
    match st.previous.kind {
        TokenType::False => emit(st, OpCode::OpFalse),
        TokenType::Nil => emit(st, OpCode::OpNil),
        TokenType::True => emit(st, OpCode::OpTrue),
        _ => st,
    }
}

/// The next stronger precedence level.
pub open spec fn next_level(p: Precedence) -> Precedence {
    match p {
        Precedence::Lowest => Precedence::Assignment,
        Precedence::Assignment => Precedence::Or,
        Precedence::Or => Precedence::And,
        Precedence::And => Precedence::Equality,
        Precedence::Equality => Precedence::Comparison,
        Precedence::Comparison => Precedence::Term,
        Precedence::Term => Precedence::Factor,
        Precedence::Factor => Precedence::Unary,
        Precedence::Unary => Precedence::Call,
        Precedence::Call => Precedence::Primary,
        Precedence::Primary => Precedence::Lowest,
    }
}

/// Parses an expression whose operators bind at least as strongly as `prec`:
/// one prefix expression, then infix operators while they bind strongly enough.
pub open spec fn parse_spec(s: Seq<char>, nums: Seq<u64>, st: ParseState, prec: Precedence) -> ParseState
    decreases rem(s, st), 1int,
{
    let st1 = advance_spec(s, st);
    let st2 = match rule_of(st1.previous.kind).prefix {
        Some(rule) => if 0 <= rem(s, st1) < rem(s, st) {
            prefix_spec(s, nums, st1, rule)
        } else {
            st1
        },
        None => report(st1, false, "Expect expression"@),
    };
    if 0 <= rem(s, st2) <= rem(s, st) {
        infix_spec(s, nums, st2, prec)
    } else {
        st2
    }
}

/// Applies infix operators to the expression parsed so far while the
/// lookahead binds at least as strongly as `prec`.
pub open spec fn infix_spec(s: Seq<char>, nums: Seq<u64>, st: ParseState, prec: Precedence) -> ParseState
    decreases rem(s, st), 0int,
{
    if prec.rank() <= rule_of(st.current.kind).precedence.rank() {
        let st1 = advance_spec(s, st);
        let st2 = if rule_of(st1.previous.kind).infix is Some && 0 <= rem(s, st1) < rem(s, st) {
            binary_spec(s, nums, st1)
        } else {
            st1
        };
        if 0 <= rem(s, st2) < rem(s, st) {
            infix_spec(s, nums, st2, prec)
        } else {
            st2
        }
    } else {
        st
    }
}

/// The prefix expression that starts with the token just consumed.
pub open spec fn prefix_spec(s: Seq<char>, nums: Seq<u64>, st: ParseState, rule: PrefixRule) -> ParseState
    decreases rem(s, st), 4int,
{
    match rule {
        PrefixRule::Grouping => grouping_spec(s, nums, st),
        PrefixRule::Unary => unary_spec(s, nums, st),
        PrefixRule::Number => emit_constant_spec(st, ValueModel::Number(nums[st.next_number - 1])),
        PrefixRule::String => emit_constant_spec(st, ValueModel::Str(string_value(st.previous.content))),
        PrefixRule::Literal => literal_spec(st),
    }
}

/// A whole expression.
pub open spec fn expression_spec(s: Seq<char>, nums: Seq<u64>, st: ParseState) -> ParseState
    decreases rem(s, st), 2int,
{
    parse_spec(s, nums, st, Precedence::Assignment)
}

/// A parenthesized expression, after its `(`.
pub open spec fn grouping_spec(s: Seq<char>, nums: Seq<u64>, st: ParseState) -> ParseState
    decreases rem(s, st), 3int,
{
    consume_spec(s, expression_spec(s, nums, st), TokenType::RightParen, "Expect ')' after expression"@)
}

/// The operand of the prefix operator just consumed, then the operator.
pub open spec fn unary_spec(s: Seq<char>, nums: Seq<u64>, st: ParseState) -> ParseState
    decreases rem(s, st), 3int,
{
    emit_all(parse_spec(s, nums, st, Precedence::Unary), unary_code(st.previous.kind))
}

/// The right operand of the binary operator just consumed, one level
/// stronger than the operator, then the operator.
pub open spec fn binary_spec(s: Seq<char>, nums: Seq<u64>, st: ParseState) -> ParseState
    decreases rem(s, st), 3int,
{
    emit_all(
        parse_spec(s, nums, st, next_level(rule_of(st.previous.kind).precedence)),
        binary_code(st.previous.kind),
    )
}

/// Compiling `s`, whose number literals have the values `nums`, into a new chunk.
pub open spec fn compiled(s: Seq<char>, nums: Seq<u64>) -> ParseState {
    compile_spec(s, nums, seq![], seq![], seq![])
}

/// The empty token in the parser's slots before the first token is read.
pub open spec fn placeholder_model() -> TokenModel {
    TokenModel { kind: TokenType::Identifier, start: 0, content: seq![], length: 0, line: 0 }
}

/// Compiling `s`, whose number literals have the values `nums`, onto a chunk
/// that holds `code`, `lines` and `consts`: one expression, the end of the
/// input, and a return.
pub open spec fn compile_spec(
    s: Seq<char>,
    nums: Seq<u64>,
    code: Seq<OpCode>,
    lines: Seq<i32>,
    consts: Seq<ValueModel>,
) -> ParseState {
    let st0 = ParseState {
        pos: 0,
        line: 1,
        current: placeholder_model(),
        previous: placeholder_model(),
        error: None,
        panic: false,
        next_number: 0,
        code,
        lines,
        consts,
    };
    let st1 = advance_spec(s, st0);
    let st2 = expression_spec(s, nums, st1);
    let st3 = consume_spec(s, st2, TokenType::Eof, "Expect end of expression."@);
    emit(st3, OpCode::OpReturn)
}

/// Every constant load of the chunk names a constant of its pool.
pub open spec fn code_ok(chunk: &Chunk) -> bool {
    &&& chunk.wf()
    &&& forall|i: int|
        0 <= i < chunk.code@.len() ==> (#[trigger] chunk.code@[i] is OpConstant
            ==> chunk.code@[i]->OpConstant_0 < chunk.constants.values@.len())
}

/// `new` holds `old`'s instructions, lines and constants, and perhaps more after them.
pub open spec fn extends(old: &Chunk, new: &Chunk) -> bool {
    &&& old.code@.len() <= new.code@.len()
    &&& new.code@.subrange(0, old.code@.len() as int) == old.code@
    &&& old.constants.values@.len() <= new.constants.values@.len()
    &&& new.constants.values@.subrange(0, old.constants.values@.len() as int) == old.constants.values@
}

proof fn lemma_extends_refl(c: &Chunk)
    ensures
        extends(c, c),
{
    assert(c.code@.subrange(0, c.code@.len() as int) =~= c.code@);
    assert(c.constants.values@.subrange(0, c.constants.values@.len() as int) =~= c.constants.values@);
}

proof fn lemma_extends_trans(a: &Chunk, b: &Chunk, c: &Chunk)
    requires
        extends(a, b),
        extends(b, c),
    ensures
        extends(a, c),
{
    assert(c.code@.subrange(0, a.code@.len() as int) =~= c.code@.subrange(0, b.code@.len() as int).subrange(0, a.code@.len() as int));
    assert(c.constants.values@.subrange(0, a.constants.values@.len() as int) =~= c.constants.values@.subrange(0, b.constants.values@.len() as int).subrange(0, a.constants.values@.len() as int));
}

/// Appending instructions, with the same constants, extends a chunk.
proof fn lemma_extends_code(a: &Chunk, b: &Chunk)
    requires
        a.code@.len() <= b.code@.len(),
        b.code@.subrange(0, a.code@.len() as int) == a.code@,
        b.constants == a.constants,
    ensures
        extends(a, b),
{
    assert(b.constants.values@.subrange(0, a.constants.values@.len() as int) =~= a.constants.values@);
}

/// Appending none, one or two instructions.
proof fn lemma_emit_all_short(st: ParseState, ops: Seq<OpCode>)
    ensures
        ops.len() == 0 ==> emit_all(st, ops) == st,
        ops.len() == 1 ==> emit_all(st, ops) == emit(st, ops[0]),
        ops.len() == 2 ==> emit_all(st, ops) == emit(emit(st, ops[0]), ops[1]),
{
    reveal_with_fuel(emit_all, 3);
    if ops.len() >= 1 {
        assert(ops.drop_first().len() == ops.len() - 1);
        if ops.len() == 2 {
            assert(ops.drop_first()[0] == ops[1]);
            assert(ops.drop_first().drop_first().len() == 0);
        }
    }
}

struct Parser {
    current: Token,
    previous: Token,
    had_error: bool,
    panic_mode: bool,
    first_error: Option<Diagnostic>,
    numbers: Vec<u64>,
    next_number: usize,
}

/// What is left to parse: the characters after the scanner, and the lookahead token.
spec fn remaining(scanner: &Scanner, parser: &Parser) -> int {
    (scanner.chars().len() - scanner.pos()) + if parser.current.t_type == TokenType::Eof { 0int } else { 1int }
}

/// The parser's bookkeeping agrees with the scanner: the lookahead is no
/// error token, and each number literal not yet consumed has its value.
spec fn parser_inv(scanner: &Scanner, parser: &Parser) -> bool {
    let s = scanner.chars();
    &&& scanner.wf()
    &&& 0 <= scanner.pos() <= s.len()
    &&& parser.current.t_type != TokenType::Error
    &&& (parser.current.t_type == TokenType::Eof ==> char_at(s, scanner.pos()) == '\0')
    &&& parser.previous.t_type == TokenType::Number ==> parser.next_number >= 1
    &&& parser.next_number + (if parser.current.t_type == TokenType::Number { 1int } else { 0int })
        + literals_from(s, scanner.pos(), scanner.line_no()).len() == parser.numbers@.len()
    &&& parser.had_error == parser.first_error is Some
    &&& parser.had_error ==> parser.panic_mode
}

/// The compilation state that the scanner, the parser and the chunk hold.
spec fn state_of(sc: &Scanner, p: &Parser, c: &Chunk) -> ParseState {
    ParseState {
        pos: sc.pos(),
        line: sc.line_no(),
        current: p.current@,
        previous: p.previous@,
        error: match p.first_error {
            Some(d) => Some(d@),
            None => None,
        },
        panic: p.panic_mode,
        next_number: p.next_number as int,
        code: c.code@,
        lines: c.lines@,
        consts: c.consts(),
    }
}

/// The lookahead is the end token.
spec fn at_eof(parser: &Parser) -> bool {
    parser.current.t_type == TokenType::Eof
}

impl Parser {
    fn error_at_current(&mut self, message: String)
        requires
            old(self).had_error == old(self).first_error is Some,
            old(self).had_error ==> old(self).panic_mode,
        ensures
            forall|sc: Scanner, c: Chunk| #[trigger] state_of(&sc, final(self), &c) == report(
                state_of(&sc, old(self), &c),
                true,
                message@,
            ),
            final(self).current == old(self).current,
            final(self).previous == old(self).previous,
            final(self).numbers == old(self).numbers,
            final(self).next_number == old(self).next_number,
            final(self).had_error == final(self).first_error is Some,
            final(self).had_error ==> final(self).panic_mode,
    {
        self.error_at(true, message);
    }

    fn error(&mut self, message: String)
        requires
            old(self).had_error == old(self).first_error is Some,
            old(self).had_error ==> old(self).panic_mode,
        ensures
            forall|sc: Scanner, c: Chunk| #[trigger] state_of(&sc, final(self), &c) == report(
                state_of(&sc, old(self), &c),
                false,
                message@,
            ),
            final(self).current == old(self).current,
            final(self).previous == old(self).previous,
            final(self).numbers == old(self).numbers,
            final(self).next_number == old(self).next_number,
            final(self).had_error == final(self).first_error is Some,
            final(self).had_error ==> final(self).panic_mode,
    {
        self.error_at(false, message);
    }

    /// Records a syntax error at the lookahead (`current`) or at the token
    /// just consumed, unless an earlier error put the parser in panic mode.
    fn error_at(&mut self, current: bool, message: String)
        requires
            old(self).had_error == old(self).first_error is Some,
            old(self).had_error ==> old(self).panic_mode,
        ensures
            final(self).current == old(self).current,
            final(self).previous == old(self).previous,
            final(self).numbers == old(self).numbers,
            final(self).next_number == old(self).next_number,
            final(self).had_error == final(self).first_error is Some,
            final(self).had_error ==> final(self).panic_mode,
            final(self).panic_mode,
            old(self).panic_mode ==> final(self).first_error == old(self).first_error,
            forall|sc: Scanner, c: Chunk| #[trigger] state_of(&sc, final(self), &c) == report(
                state_of(&sc, old(self), &c),
                current,
                message@,
            ),
    {
        if self.panic_mode {
            return;
        }
        let token = if current {
            &self.current
        } else {
            &self.previous
        };
        let location = if token.t_type == TokenType::Eof {
            ErrorLocation::AtEnd
        } else if token.t_type == TokenType::Error {
            ErrorLocation::Scanner
        } else {
            ErrorLocation::At(token.content.clone())
        };
        let line = token.line;
        self.panic_mode = true;
        self.first_error = Some(Diagnostic { line, location, message });
        self.had_error = true;
    }
}

/// Reads the next token that is not an error token into `current`, and
/// moves the old lookahead to `previous`. Each error token on the way is
/// reported, at the token, with its message.
fn advance(scanner: &mut Scanner, parser: &mut Parser)
    requires
        parser_inv(old(scanner), old(parser)),
    ensures
        parser_inv(final(scanner), final(parser)),
        final(scanner).chars() == old(scanner).chars(),
        final(parser).previous@ == old(parser).current@,
        final(parser).numbers == old(parser).numbers,
        remaining(final(scanner), final(parser)) <= remaining(old(scanner), old(parser)),
        !at_eof(old(parser)) ==> remaining(final(scanner), final(parser)) < remaining(
            old(scanner),
            old(parser),
        ),
        forall|c: Chunk| #[trigger] state_of(final(scanner), final(parser), &c) == advance_spec(
            old(scanner).chars(),
            state_of(old(scanner), old(parser), &c),
        ),
{
    let ghost s = scanner.chars();
    let ghost pos0 = scanner.pos();
    if parser.current.t_type == TokenType::Number {
        let _ = parser.numbers.len();
        parser.next_number = parser.next_number + 1;
    }
    parser.previous = parser.current.copy();
    loop
        invariant_except_break
            parser.next_number + literals_from(s, scanner.pos(), scanner.line_no()).len()
                == parser.numbers@.len(),
            forall|c: Chunk| #[trigger] skip_errors(s, state_of(scanner, parser, &c)) == advance_spec(
                s,
                state_of(old(scanner), old(parser), &c),
            ),
        invariant
            scanner.wf(),
            scanner.chars() == s,
            pos0 <= scanner.pos() <= s.len(),
            parser.previous@ == old(parser).current@,
            parser.numbers == old(parser).numbers,
            parser.previous.t_type == TokenType::Number ==> parser.next_number >= 1,
            parser.had_error == parser.first_error is Some,
            parser.had_error ==> parser.panic_mode,
            old(parser).current.t_type == TokenType::Eof ==> scanner.pos() == pos0 && char_at(s, pos0) == '\0',
        ensures
            parser_inv(scanner, parser),
            forall|c: Chunk| #[trigger] state_of(scanner, parser, &c) == advance_spec(
                s,
                state_of(old(scanner), old(parser), &c),
            ),
            parser.current.t_type != TokenType::Eof ==> scanner.pos() > pos0,
        decreases s.len() - scanner.pos(),
    {
        let ghost pos1 = scanner.pos();
        let ghost line1 = scanner.line_no();
        let ghost sc1 = *scanner;
        let current = scanner.scan_token();
        proof {
            if current.t_type == TokenType::Eof {
                assert(literals_from(s, pos1, line1) == Seq::<Seq<char>>::empty());
                assert(literals_from(s, scanner.pos(), scanner.line_no()) == Seq::<Seq<char>>::empty());
            } else {
                assert(literals_from(s, pos1, line1) == if current.t_type == TokenType::Number {
                    seq![current.content@] + literals_from(s, scanner.pos(), scanner.line_no())
                } else {
                    literals_from(s, scanner.pos(), scanner.line_no())
                });
            }
        }
        let ghost p1 = *parser;
        if current.t_type != TokenType::Error {
            parser.current = current;
            assert forall|c: Chunk| #[trigger] state_of(scanner, parser, &c) == advance_spec(
                s,
                state_of(old(scanner), old(parser), &c),
            ) by {
                assert(skip_errors(s, state_of(&sc1, &p1, &c)) == state_of(scanner, parser, &c));
            }
            break;
        }
        let current_content = current.content.clone();
        parser.current = current;
        let ghost p2 = *parser;
        parser.error_at_current(current_content);
        assert forall|c: Chunk| #[trigger] skip_errors(s, state_of(scanner, parser, &c)) == advance_spec(
            s,
            state_of(old(scanner), old(parser), &c),
        ) by {
            assert(state_of(scanner, parser, &c) == report(state_of(scanner, &p2, &c), true, current_content@));
            assert(skip_errors(s, state_of(&sc1, &p1, &c)) == skip_errors(s, state_of(scanner, parser, &c)));
        }
    }
}

/// Consumes the lookahead if it has kind `t_type`; else reports `message` at it.
fn consume(t_type: TokenType, message: String, scanner: &mut Scanner, parser: &mut Parser)
    requires
        parser_inv(old(scanner), old(parser)),
    ensures
        parser_inv(final(scanner), final(parser)),
        final(scanner).chars() == old(scanner).chars(),
        final(parser).numbers == old(parser).numbers,
        remaining(final(scanner), final(parser)) <= remaining(old(scanner), old(parser)),
        forall|c: Chunk| #[trigger] state_of(final(scanner), final(parser), &c) == consume_spec(
            old(scanner).chars(),
            state_of(old(scanner), old(parser), &c),
            t_type,
            message@,
        ),
{
    if parser.current.t_type == t_type {
        advance(scanner, parser);
        return;
    }
    parser.error_at_current(message);
}

fn emit_byte(parser: &Parser, chunk: &mut Chunk, byte: OpCode)
    requires
        code_ok(old(chunk)),
        byte is OpConstant ==> byte->OpConstant_0 < old(chunk).constants.values@.len(),
    ensures
        code_ok(final(chunk)),
        final(chunk).code@ == old(chunk).code@.push(byte),
        final(chunk).lines@ == old(chunk).lines@.push(parser.previous.line),
        final(chunk).constants == old(chunk).constants,
        forall|sc: Scanner| #[trigger] state_of(&sc, parser, final(chunk)) == emit(
            state_of(&sc, parser, old(chunk)),
            byte,
        ),
{
    let line = parser.previous.line;
    chunk.write(byte, line);
    assert forall|i: int| 0 <= i < chunk.code@.len() implies (#[trigger] chunk.code@[i] is OpConstant
        ==> chunk.code@[i]->OpConstant_0 < chunk.constants.values@.len()) by {
        if i < old(chunk).code@.len() {
            assert(chunk.code@[i] == old(chunk).code@[i]);
        }
    }
}

fn emit_bytes(parser: &Parser, chunk: &mut Chunk, byte1: OpCode, byte2: OpCode)
    requires
        code_ok(old(chunk)),
        !(byte1 is OpConstant),
        !(byte2 is OpConstant),
    ensures
        code_ok(final(chunk)),
        final(chunk).code@ == old(chunk).code@.push(byte1).push(byte2),
        final(chunk).constants == old(chunk).constants,
        forall|sc: Scanner| #[trigger] state_of(&sc, parser, final(chunk)) == emit(
            emit(state_of(&sc, parser, old(chunk)), byte1),
            byte2,
        ),
{
    let ghost c0 = *chunk;
    emit_byte(parser, chunk, byte1);
    let ghost c1 = *chunk;
    emit_byte(parser, chunk, byte2);
    assert forall|sc: Scanner| #[trigger] state_of(&sc, parser, chunk) == emit(
        emit(state_of(&sc, parser, &c0), byte1),
        byte2,
    ) by {
        assert(state_of(&sc, parser, &c1) == emit(state_of(&sc, parser, &c0), byte1));
    }
}

fn emit_return(parser: &Parser, chunk: &mut Chunk)
    requires
        code_ok(old(chunk)),
    ensures
        code_ok(final(chunk)),
        final(chunk).code@ == old(chunk).code@.push(OpCode::OpReturn),
        final(chunk).constants == old(chunk).constants,
        forall|sc: Scanner| #[trigger] state_of(&sc, parser, final(chunk)) == emit(
            state_of(&sc, parser, old(chunk)),
            OpCode::OpReturn,
        ),
{
    emit_byte(parser, chunk, OpCode::OpReturn);
}

fn make_constant(value: Value, chunk: &mut Chunk) -> (r: usize)
    requires
        code_ok(old(chunk)),
    ensures
        code_ok(final(chunk)),
        final(chunk).code == old(chunk).code,
        final(chunk).constants.values@ == old(chunk).constants.values@.push(value),
        final(chunk).consts() == old(chunk).consts().push(value@),
        final(chunk).lines == old(chunk).lines,
        r == old(chunk).constants.values@.len(),
{
    chunk.add_constant(value)
}

fn emit_constant(parser: &Parser, value: Value, chunk: &mut Chunk)
    requires
        code_ok(old(chunk)),
    ensures
        code_ok(final(chunk)),
        extends(old(chunk), final(chunk)),
        final(chunk).code@ == old(chunk).code@.push(OpCode::OpConstant(old(chunk).constants.values@.len() as usize)),
        final(chunk).constants.values@ == old(chunk).constants.values@.push(value),
        forall|sc: Scanner| #[trigger] state_of(&sc, parser, final(chunk)) == emit_constant_spec(
            state_of(&sc, parser, old(chunk)),
            value@,
        ),
{
    let ghost c0 = *chunk;
    let constant = make_constant(value, chunk);
    let ghost c1 = *chunk;
    emit_byte(parser, chunk, OpCode::OpConstant(constant));
    assert(chunk.constants.values@.subrange(0, old(chunk).constants.values@.len() as int)
        =~= old(chunk).constants.values@);
    assert(chunk.code@.subrange(0, old(chunk).code@.len() as int) =~= old(chunk).code@);
    assert forall|sc: Scanner| #[trigger] state_of(&sc, parser, chunk) == emit_constant_spec(
        state_of(&sc, parser, &c0),
        value@,
    ) by {
        assert(state_of(&sc, parser, chunk) == emit(state_of(&sc, parser, &c1), OpCode::OpConstant(constant)));
    }
}

fn end_compiler(parser: &Parser, chunk: &mut Chunk)
    requires
        code_ok(old(chunk)),
    ensures
        code_ok(final(chunk)),
        final(chunk).code@ == old(chunk).code@.push(OpCode::OpReturn),
        final(chunk).constants == old(chunk).constants,
        forall|sc: Scanner| #[trigger] state_of(&sc, parser, final(chunk)) == emit(
            state_of(&sc, parser, old(chunk)),
            OpCode::OpReturn,
        ),
{
    emit_return(parser, chunk);
}

/// One parsing step kept the parser's bookkeeping, appended to the chunk,
/// and consumed input rather than giving any back.
spec fn parsed(
    sc0: &Scanner,
    p0: &Parser,
    c0: &Chunk,
    sc1: &Scanner,
    p1: &Parser,
    c1: &Chunk,
) -> bool {
    &&& parser_inv(sc1, p1)
    &&& sc1.chars() == sc0.chars()
    &&& p1.numbers == p0.numbers
    &&& code_ok(c1)
    &&& extends(c0, c1)
    &&& remaining(sc1, p1) <= remaining(sc0, p0)
}

/// Parses an expression whose operators bind at least as strongly as `precedence`.
fn parse_precedence(scanner: &mut Scanner, parser: &mut Parser, precedence: Precedence, chunk: &mut Chunk)
    requires
        parser_inv(old(scanner), old(parser)),
        code_ok(old(chunk)),
        precedence.rank() >= 1,
    ensures
        parsed(old(scanner), old(parser), old(chunk), final(scanner), final(parser), final(chunk)),
        state_of(final(scanner), final(parser), final(chunk)) == parse_spec(old(scanner).chars(), old(parser).numbers@, state_of(old(scanner), old(parser), old(chunk)), precedence),
    decreases remaining(scanner, parser), 0int,
{
    let ghost r0 = remaining(scanner, parser);
    let ghost c0 = *chunk;
    let ghost s = scanner.chars();
    let ghost nums = parser.numbers@;
    let ghost st = state_of(scanner, parser, chunk);
    advance(scanner, parser);
    let ghost st1 = state_of(scanner, parser, chunk);
    let prefix_rule = get_rule(&parser.previous.t_type).prefix;
    match prefix_rule {
        Some(rule) => apply_prefix(rule, parser, scanner, chunk),
        None => parser.error("Expect expression".to_owned()),
    }
    let level = precedence.level();
    proof {
        if prefix_rule is None {
            lemma_extends_refl(chunk);
        }
        assert(parse_spec(s, nums, st, precedence) == infix_spec(s, nums, state_of(scanner, parser, chunk), precedence));
    }
    while level <= get_rule(&parser.current.t_type).precedence.level()
        invariant
            s == old(scanner).chars(),
            nums == old(parser).numbers@,
            st == state_of(old(scanner), old(parser), old(chunk)),
            infix_spec(s, nums, state_of(scanner, parser, chunk), precedence) == parse_spec(s, nums, st, precedence),
            parsed(old(scanner), old(parser), &c0, scanner, parser, chunk),
            c0 == *old(chunk),
            remaining(scanner, parser) <= r0,
            r0 == remaining(old(scanner), old(parser)),
            level == precedence.rank(),
            level >= 1,
        decreases remaining(scanner, parser),
    {
        let ghost c1 = *chunk;
        let ghost st_now = state_of(scanner, parser, chunk);
        advance(scanner, parser);
        let infix_rule = get_rule(&parser.previous.t_type).infix;
        match infix_rule {
            Some(InfixRule::Binary) => binary(parser, scanner, chunk),
            None => {},
        }
        proof {
            if infix_rule is None {
                lemma_extends_refl(chunk);
            }
            lemma_extends_trans(&c0, &c1, chunk);
            assert(infix_spec(s, nums, st_now, precedence) == infix_spec(s, nums, state_of(scanner, parser, chunk), precedence));
        }
    }
}

fn apply_prefix(rule: PrefixRule, parser: &mut Parser, scanner: &mut Scanner, chunk: &mut Chunk)
    requires
        parser_inv(old(scanner), old(parser)),
        code_ok(old(chunk)),
        rule_of(old(parser).previous.t_type).prefix == Some(rule),
    ensures
        parsed(old(scanner), old(parser), old(chunk), final(scanner), final(parser), final(chunk)),
        state_of(final(scanner), final(parser), final(chunk)) == prefix_spec(old(scanner).chars(), old(parser).numbers@, state_of(old(scanner), old(parser), old(chunk)), rule),
    decreases remaining(scanner, parser), 3int,
{
    match rule {
        PrefixRule::Grouping => grouping(parser, scanner, chunk),
        PrefixRule::Unary => unary(parser, scanner, chunk),
        PrefixRule::Number => number(parser, scanner, chunk),
        PrefixRule::String => string(parser, scanner, chunk),
        PrefixRule::Literal => literal(parser, scanner, chunk),
    }
}

fn expression(scanner: &mut Scanner, parser: &mut Parser, chunk: &mut Chunk)
    requires
        parser_inv(old(scanner), old(parser)),
        code_ok(old(chunk)),
    ensures
        parsed(old(scanner), old(parser), old(chunk), final(scanner), final(parser), final(chunk)),
        state_of(final(scanner), final(parser), final(chunk)) == expression_spec(old(scanner).chars(), old(parser).numbers@, state_of(old(scanner), old(parser), old(chunk))),
    decreases remaining(scanner, parser), 1int,
{
    parse_precedence(scanner, parser, Precedence::Assignment, chunk);
}

/// A number literal: the value that the host computed for it becomes a constant.
fn number(parser: &mut Parser, scanner: &mut Scanner, chunk: &mut Chunk)
    requires
        parser_inv(old(scanner), old(parser)),
        code_ok(old(chunk)),
        old(parser).previous.t_type == TokenType::Number,
    ensures
        parsed(old(scanner), old(parser), old(chunk), final(scanner), final(parser), final(chunk)),
        *final(parser) == *old(parser),
        state_of(final(scanner), final(parser), final(chunk)) == emit_constant_spec(state_of(old(scanner), old(parser), old(chunk)), ValueModel::Number(old(parser).numbers@[old(parser).next_number - 1])),
        *final(scanner) == *old(scanner),
    decreases remaining(scanner, parser), 2int,
{
    let value = parser.numbers[parser.next_number - 1];
    emit_constant(parser, Value::from_number(value), chunk);
}

/// The text between the quotes of a string literal token.
pub open spec fn string_value(lexeme: Seq<char>) -> Seq<char> {
    if lexeme.len() >= 2 {
        lexeme.subrange(1, lexeme.len() - 1)
    } else {
        lexeme
    }
}

/// A string literal: the text between its quotes becomes a constant.
fn string(parser: &mut Parser, scanner: &mut Scanner, chunk: &mut Chunk)
    requires
        parser_inv(old(scanner), old(parser)),
        code_ok(old(chunk)),
        old(parser).previous.t_type == TokenType::String,
    ensures
        parsed(old(scanner), old(parser), old(chunk), final(scanner), final(parser), final(chunk)),
        *final(parser) == *old(parser),
        state_of(final(scanner), final(parser), final(chunk)) == emit_constant_spec(state_of(old(scanner), old(parser), old(chunk)), ValueModel::Str(string_value(old(parser).previous.content@))),
        *final(scanner) == *old(scanner),
    decreases remaining(scanner, parser), 2int,
{
    let lexeme = parser.previous.content.as_str();
    let n = lexeme.unicode_len();
    let text = if n >= 2 {
        lexeme.substring_char(1, n - 1).to_owned()
    } else {
        lexeme.to_owned()
    };
    emit_constant(parser, Value::from_string(text), chunk);
}

fn grouping(parser: &mut Parser, scanner: &mut Scanner, chunk: &mut Chunk)
    requires
        parser_inv(old(scanner), old(parser)),
        code_ok(old(chunk)),
    ensures
        parsed(old(scanner), old(parser), old(chunk), final(scanner), final(parser), final(chunk)),
        state_of(final(scanner), final(parser), final(chunk)) == grouping_spec(old(scanner).chars(), old(parser).numbers@, state_of(old(scanner), old(parser), old(chunk))),
    decreases remaining(scanner, parser), 2int,
{
    expression(scanner, parser, chunk);
    consume(TokenType::RightParen, "Expect ')' after expression".to_owned(), scanner, parser);
}

fn unary(parser: &mut Parser, scanner: &mut Scanner, chunk: &mut Chunk)
    requires
        parser_inv(old(scanner), old(parser)),
        code_ok(old(chunk)),
    ensures
        parsed(old(scanner), old(parser), old(chunk), final(scanner), final(parser), final(chunk)),
        state_of(final(scanner), final(parser), final(chunk)) == unary_spec(old(scanner).chars(), old(parser).numbers@, state_of(old(scanner), old(parser), old(chunk))),
    decreases remaining(scanner, parser), 2int,
{
    let operator_type = parser.previous.t_type;
    parse_precedence(scanner, parser, Precedence::Unary, chunk);
    let ghost c1 = *chunk;
    let ghost st1 = state_of(scanner, parser, &c1);
    match operator_type {
        TokenType::Bang => emit_byte(parser, chunk, OpCode::OpNot),
        TokenType::Minus => emit_byte(parser, chunk, OpCode::OpNegate),
        _ => {},
    }
    proof {
        lemma_emit_all_short(st1, unary_code(operator_type));
        assert(state_of(scanner, parser, chunk) == emit_all(st1, unary_code(operator_type)));
        assert(chunk.code@.subrange(0, c1.code@.len() as int) =~= c1.code@);
        lemma_extends_code(&c1, chunk);
        lemma_extends_trans(old(chunk), &c1, chunk);
    }
}

fn binary(parser: &mut Parser, scanner: &mut Scanner, chunk: &mut Chunk)
    requires
        parser_inv(old(scanner), old(parser)),
        code_ok(old(chunk)),
        rule_of(old(parser).previous.t_type).infix is Some,
    ensures
        parsed(old(scanner), old(parser), old(chunk), final(scanner), final(parser), final(chunk)),
        state_of(final(scanner), final(parser), final(chunk)) == binary_spec(old(scanner).chars(), old(parser).numbers@, state_of(old(scanner), old(parser), old(chunk))),
    decreases remaining(scanner, parser), 2int,
{
    let operator_type = parser.previous.t_type;
    let rule = get_rule(&operator_type);
    parse_precedence(scanner, parser, rule.precedence.next(), chunk);
    let ghost c1 = *chunk;
    let ghost st1 = state_of(scanner, parser, &c1);
    match operator_type {
        TokenType::BangEqual => emit_bytes(parser, chunk, OpCode::OpEqual, OpCode::OpNot),
        TokenType::EqualEqual => emit_byte(parser, chunk, OpCode::OpEqual),
        TokenType::Greater => emit_byte(parser, chunk, OpCode::OpGreater),
        TokenType::GreaterEqual => emit_bytes(parser, chunk, OpCode::OpLess, OpCode::OpNot),
        TokenType::Less => emit_byte(parser, chunk, OpCode::OpLess),
        TokenType::LessEqual => emit_bytes(parser, chunk, OpCode::OpGreater, OpCode::OpNot),
        TokenType::Plus => emit_byte(parser, chunk, OpCode::OpAdd),
        TokenType::Minus => emit_byte(parser, chunk, OpCode::OpSubtract),
        TokenType::Star => emit_byte(parser, chunk, OpCode::OpMultiply),
        TokenType::Slash => emit_byte(parser, chunk, OpCode::OpDivide),
        _ => {},
    }
    proof {
        lemma_emit_all_short(st1, binary_code(operator_type));
        assert(state_of(scanner, parser, chunk) == emit_all(st1, binary_code(operator_type)));
        assert(chunk.code@.subrange(0, c1.code@.len() as int) =~= c1.code@);
        lemma_extends_code(&c1, chunk);
        lemma_extends_trans(old(chunk), &c1, chunk);
    }
}

fn literal(parser: &mut Parser, scanner: &mut Scanner, chunk: &mut Chunk)
    requires
        parser_inv(old(scanner), old(parser)),
        code_ok(old(chunk)),
    ensures
        parsed(old(scanner), old(parser), old(chunk), final(scanner), final(parser), final(chunk)),
        *final(parser) == *old(parser),
        state_of(final(scanner), final(parser), final(chunk)) == literal_spec(state_of(old(scanner), old(parser), old(chunk))),
        *final(scanner) == *old(scanner),
    decreases remaining(scanner, parser), 2int,
{
    match parser.previous.t_type {
        TokenType::False => emit_byte(parser, chunk, OpCode::OpFalse),
        TokenType::Nil => emit_byte(parser, chunk, OpCode::OpNil),
        TokenType::True => emit_byte(parser, chunk, OpCode::OpTrue),
        _ => {},
    }
    proof {
        assert(chunk.code@.subrange(0, old(chunk).code@.len() as int) =~= old(chunk).code@);
        lemma_extends_code(old(chunk), chunk);
    }
}

/// The token that fills the parser's slots before the first token is read.
fn placeholder() -> (t: Token)
    ensures
        t.t_type == TokenType::Identifier,
        t@ == placeholder_model(),
{
    Token { t_type: TokenType::Identifier, start: 0, content: String::new(), length: 0, line: 0 }
}

/// Compiles one expression into `chunk`, followed by a return. `numbers`
/// holds the binary64 value of each number literal of `source`, in order
/// (see `number_lexemes`). The result is the first syntax error, if any: after
/// it the parser reports nothing more, and the chunk must not be run.
pub fn compile(source: String, numbers: Vec<u64>, chunk: &mut Chunk) -> (r: Result<(), Diagnostic>)
    requires
        source@.len() < i32::MAX,
        numbers@.len() == number_literals(source@).len(),
        code_ok(old(chunk)),
    ensures
        code_ok(final(chunk)),
        extends(old(chunk), final(chunk)),
        final(chunk).code@.len() > old(chunk).code@.len(),
        final(chunk).code@.last() == OpCode::OpReturn,
        ({
            let st = compile_spec(source@, numbers@, old(chunk).code@, old(chunk).lines@, old(chunk).consts());
            &&& final(chunk).code@ == st.code
            &&& final(chunk).lines@ == st.lines
            &&& final(chunk).consts() == st.consts
            &&& (r is Ok <==> st.error is None)
            &&& (r is Err ==> r->Err_0@ == st.error->Some_0)
        }),
{
    let mut parser = Parser {
        current: placeholder(),
        previous: placeholder(),
        had_error: false,
        panic_mode: false,
        first_error: None,
        numbers,
        next_number: 0,
    };
    let ghost s = source@;
    let ghost nums = numbers@;
    let mut scanner = Scanner::init(source);
    assert(state_of(&scanner, &parser, chunk) == (ParseState {
        pos: 0,
        line: 1,
        current: placeholder_model(),
        previous: placeholder_model(),
        error: None,
        panic: false,
        next_number: 0,
        code: old(chunk).code@,
        lines: old(chunk).lines@,
        consts: old(chunk).consts(),
    }));
    advance(&mut scanner, &mut parser);
    expression(&mut scanner, &mut parser, chunk);
    consume(TokenType::Eof, "Expect end of expression.".to_owned(), &mut scanner, &mut parser);
    let ghost c1 = *chunk;
    end_compiler(&parser, chunk);
    assert(state_of(&scanner, &parser, chunk) == compile_spec(s, nums, old(chunk).code@, old(chunk).lines@, old(chunk).consts()));
    proof {
        assert(chunk.code@.subrange(0, c1.code@.len() as int) =~= c1.code@);
        lemma_extends_code(&c1, chunk);
        lemma_extends_trans(old(chunk), &c1, chunk);
    }
    match parser.first_error {
        Some(d) => Err(d),
        None => Ok(()),
    }
}

/// The characters of each string.
pub open spec fn texts(v: Seq<String>) -> Seq<Seq<char>> {
    v.map_values(|t: String| t@)
}

/// The texts of the number literals of `source`, in order.
pub fn number_lexemes(source: String) -> (r: Vec<String>)
    requires
        source@.len() < i32::MAX,
    ensures
        texts(r@) == number_literals(source@),
{
    let ghost s = source@;
    let mut scanner = Scanner::init(source);
    let mut r: Vec<String> = Vec::new();
    loop
        invariant
            scanner.wf(),
            scanner.chars() == s,
            s == source@,
            0 <= scanner.pos() <= s.len(),
            texts(r@) + literals_from(s, scanner.pos(), scanner.line_no())
                == number_literals(s),
        decreases s.len() - scanner.pos(),
    {
        let ghost pos1 = scanner.pos();
        let ghost line1 = scanner.line_no();
        let ghost before = texts(r@);
        let t = scanner.scan_token();
        if t.t_type == TokenType::Eof {
            assert(literals_from(s, pos1, line1) == Seq::<Seq<char>>::empty());
            assert(before + literals_from(s, pos1, line1) =~= before);
            return r;
        }
        assert(literals_from(s, pos1, line1) == if t.t_type == TokenType::Number {
            seq![t.content@] + literals_from(s, scanner.pos(), scanner.line_no())
        } else {
            literals_from(s, scanner.pos(), scanner.line_no())
        });
        if t.t_type == TokenType::Number {
            let ghost text = t.content@;
            r.push(t.content);
            assert(texts(r@) =~= before.push(text));
            assert(before.push(text) + literals_from(s, scanner.pos(), scanner.line_no())
                =~= before + (seq![text] + literals_from(s, scanner.pos(), scanner.line_no())));
        }
    }
}

} // verus!
