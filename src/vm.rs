use vstd::prelude::*;
use crate::chunk::{Chunk, OpCode};
use crate::compiler::{binary_code, code_ok, compile, compiled, unary_code, Diagnostic};
use crate::scanner::TokenType;
use crate::scanner::number_literals;
use crate::values::{
    falsey, num_eq, num_lt, num_neg, number_less, number_negate, values_equal, ObjString, ObjectType, Value,
    ValueModel,
};

verus! {

/// The three outcomes of running a program.
#[derive(Debug, PartialEq, Eq, Structural, Clone, Copy)]
pub enum InterpretResult {
    InterpretOk,
    InterpretCompileError,
    InterpretRuntimeError,
}

/// A binary operation on two numbers.
#[derive(Debug, PartialEq, Eq, Structural, Clone, Copy)]
pub enum Operation {
    Greater,
    Less,
    Plus,
    Minus,
    Star,
    Div,
}

/// What the machine did, or what it needs from its host to go on.
#[derive(Debug)]
pub enum Progress {
    /// One instruction was executed; the program goes on.
    Next,
    /// The machine needs `a op b` of two binary64 numbers, given as bit
    /// patterns; the host computes it and hands it to `resume`.
    Compute(Operation, u64, u64),
    /// The program returned this value.
    Returned(Value),
    /// The program ran out of instructions without returning.
    Finished,
    /// The program stopped on a runtime error: the message and the line of
    /// the last instruction of the chunk.
    RuntimeError(String, i32),
    /// The source did not compile (with the first syntax error), or the code
    /// was malformed (without one).
    CompileError(Option<Diagnostic>),
}

impl Progress {
    /// The outcome that a finished run reports, or `None` while it goes on.
    pub fn result(&self) -> (r: Option<InterpretResult>)
        ensures
            (self@ is Next || self@ is Compute) <==> r is None,
            (self@ is Returned || self@ is Finished) <==> r == Some(InterpretResult::InterpretOk),
            self@ is RuntimeError <==> r == Some(InterpretResult::InterpretRuntimeError),
            self@ is CompileError <==> r == Some(InterpretResult::InterpretCompileError),
    {
        match self {
            Progress::Next => None,
            Progress::Compute(..) => None,
            Progress::Returned(_) => Some(InterpretResult::InterpretOk),
            Progress::Finished => Some(InterpretResult::InterpretOk),
            Progress::RuntimeError(..) => Some(InterpretResult::InterpretRuntimeError),
            Progress::CompileError(_) => Some(InterpretResult::InterpretCompileError),
        }
    }
}

/// What a step of the machine does to the operand stack.
pub enum Effect {
    Next(Seq<ValueModel>),
    Compute(Operation, u64, u64, Seq<ValueModel>),
    Return(ValueModel),
    Fault(Seq<char>),
    Defect,
}

pub open spec fn numbers_message() -> Seq<char> {
    "Operands must be numbers."@
}

pub open spec fn add_message() -> Seq<char> {
    "Operands must be two numbers or two strings."@
}

/// The two topmost values of `st` are both numbers.
pub open spec fn two_numbers(st: Seq<ValueModel>) -> bool {
    st.len() >= 2 && st[st.len() - 2] is Number && st[st.len() - 1] is Number
}

/// The two topmost values of `st` are both strings.
pub open spec fn two_strings(st: Seq<ValueModel>) -> bool {
    st.len() >= 2 && st[st.len() - 2] is Str && st[st.len() - 1] is Str
}

/// `st` without its two topmost values.
pub open spec fn below_two(st: Seq<ValueModel>) -> Seq<ValueModel> {
    st.subrange(0, st.len() - 2)
}

/// What instruction `op` does on the operand stack `st`.
pub open spec fn op_effect(op: OpCode, consts: Seq<ValueModel>, st: Seq<ValueModel>) -> Effect {
    let n = st.len();
    match op {
        OpCode::OpConstant(i) => Effect::Next(
            st.push(if i < consts.len() { consts[i as int] } else { ValueModel::Nil }),
        ),
        OpCode::OpNil => Effect::Next(st.push(ValueModel::Nil)),
        OpCode::OpTrue => Effect::Next(st.push(ValueModel::Bool(true))),
        OpCode::OpFalse => Effect::Next(st.push(ValueModel::Bool(false))),
        OpCode::OpNegate => if n >= 1 && st.last() is Number {
            Effect::Next(st.drop_last().push(ValueModel::Number(num_neg(st.last()->Number_0))))
        } else {
            Effect::Fault(numbers_message())
        },
        OpCode::OpNot => if n >= 1 {
            Effect::Next(st.drop_last().push(ValueModel::Bool(falsey(st.last()))))
        } else {
            Effect::Defect
        },
        OpCode::OpEqual => if n >= 2 {
            Effect::Next(below_two(st).push(ValueModel::Bool(values_equal(st[n - 2], st[n - 1]))))
        } else {
            Effect::Defect
        },
        OpCode::OpAdd => if two_strings(st) {
            Effect::Next(below_two(st).push(ValueModel::Str(st[n - 2]->Str_0 + st[n - 1]->Str_0)))
        } else if two_numbers(st) {
            Effect::Compute(Operation::Plus, st[n - 2]->Number_0, st[n - 1]->Number_0, below_two(st))
        } else {
            Effect::Fault(add_message())
        },
        OpCode::OpSubtract => arith_effect(Operation::Minus, st),
        OpCode::OpMultiply => arith_effect(Operation::Star, st),
        OpCode::OpDivide => arith_effect(Operation::Div, st),
        OpCode::OpGreater => if two_numbers(st) {
            Effect::Next(below_two(st).push(ValueModel::Bool(num_lt(st[n - 1]->Number_0, st[n - 2]->Number_0))))
        } else {
            Effect::Fault(numbers_message())
        },
        OpCode::OpLess => if two_numbers(st) {
            Effect::Next(below_two(st).push(ValueModel::Bool(num_lt(st[n - 2]->Number_0, st[n - 1]->Number_0))))
        } else {
            Effect::Fault(numbers_message())
        },
        OpCode::OpReturn => if n >= 1 {
            Effect::Return(st.last())
        } else {
            Effect::Defect
        },
    }
}

/// A numeric operation that the host computes.
pub open spec fn arith_effect(op: Operation, st: Seq<ValueModel>) -> Effect {
    if two_numbers(st) {
        Effect::Compute(op, st[st.len() - 2]->Number_0, st[st.len() - 1]->Number_0, below_two(st))
    } else {
        Effect::Fault(numbers_message())
    }
}

/// A view of `Progress`, with values as models.
pub enum ProgressModel {
    Next,
    Compute(Operation, u64, u64),
    Returned(ValueModel),
    Finished,
    RuntimeError(Seq<char>, int),
    /// A compile error; `true` when it carries a syntax error.
    CompileError(bool),
}

impl View for Progress {
    type V = ProgressModel;

    open spec fn view(&self) -> ProgressModel {
        match self {
            Progress::Next => ProgressModel::Next,
            Progress::Compute(op, a, b) => ProgressModel::Compute(*op, *a, *b),
            Progress::Returned(v) => ProgressModel::Returned(v@),
            Progress::Finished => ProgressModel::Finished,
            Progress::RuntimeError(m, l) => ProgressModel::RuntimeError(m@, *l as int),
            Progress::CompileError(d) => ProgressModel::CompileError(d is Some),
        }
    }
}

/// The state of the machine: its operand stack, the index of the next
/// instruction, and whether it waits for the host to compute a number.
pub struct VmModel {
    pub stack: Seq<ValueModel>,
    pub ip: int,
    pub awaiting: bool,
}

/// The state after a run ends: nothing left on the stack, no instruction left.
pub open spec fn halted(code: Seq<OpCode>) -> VmModel {
    VmModel { stack: seq![], ip: code.len() as int, awaiting: false }
}

/// One step of the machine on a chunk.
pub open spec fn step_spec(
    code: Seq<OpCode>,
    consts: Seq<ValueModel>,
    lines: Seq<i32>,
    m: VmModel,
) -> (ProgressModel, VmModel) {
    if m.ip < 0 || m.ip >= code.len() {
        (ProgressModel::Finished, halted(code))
    } else {
        match op_effect(code[m.ip], consts, m.stack) {
            Effect::Next(st) => (ProgressModel::Next, VmModel { stack: st, ip: m.ip + 1, awaiting: false }),
            Effect::Compute(op, a, b, st) => (
                ProgressModel::Compute(op, a, b),
                VmModel { stack: st, ip: m.ip + 1, awaiting: true },
            ),
            Effect::Return(v) => (ProgressModel::Returned(v), halted(code)),
            Effect::Fault(msg) => (ProgressModel::RuntimeError(msg, lines.last() as int), halted(code)),
            Effect::Defect => (ProgressModel::CompileError(false), halted(code)),
        }
    }
}

/// Steps of the machine until one does more than execute an instruction.
pub open spec fn run_spec(
    code: Seq<OpCode>,
    consts: Seq<ValueModel>,
    lines: Seq<i32>,
    m: VmModel,
) -> (ProgressModel, VmModel)
    decreases code.len() - m.ip,
{
    let (p, m2) = step_spec(code, consts, lines, m);
    if p is Next && 0 <= m.ip < m2.ip {
        run_spec(code, consts, lines, m2)
    } else {
        (p, m2)
    }
}

/// A run never reports a compile error that carries a syntax error.
proof fn lemma_compile_error_only_with_diagnostic(chunk: &Chunk, m: VmModel)
    ensures
        run_spec(chunk.code@, chunk.consts(), chunk.lines@, m).0 != ProgressModel::CompileError(true),
    decreases chunk.code@.len() - m.ip,
{
    let (p, m2) = step_spec(chunk.code@, chunk.consts(), chunk.lines@, m);
    if p is Next && 0 <= m.ip < m2.ip {
        lemma_compile_error_only_with_diagnostic(chunk, m2);
    }
}

/// The stack after straight-line instructions that each only push and pop,
/// or `None` when one of them does anything else.
pub open spec fn run_ops(consts: Seq<ValueModel>, st: Seq<ValueModel>, ops: Seq<OpCode>) -> Option<Seq<ValueModel>>
    decreases ops.len(),
{
    if ops.len() == 0 {
        Some(st)
    } else {
        match op_effect(ops[0], consts, st) {
            Effect::Next(next) => run_ops(consts, next, ops.drop_first()),
            _ => None,
        }
    }
}

/// `a >= b` compiles to the code of `a < b` followed by a negation, `a <= b`
/// to that of `a > b`, and `a != b` to that of `a == b`; so on any two
/// numbers `a >= b` is `!(a < b)`, `a <= b` is `!(a > b)` and `a != b` is
/// `!(a == b)`.
pub proof fn lemma_comparison_rewrites(consts: Seq<ValueModel>, a: u64, b: u64)
    ensures
        binary_code(TokenType::GreaterEqual) == binary_code(TokenType::Less) + unary_code(TokenType::Bang),
        binary_code(TokenType::LessEqual) == binary_code(TokenType::Greater) + unary_code(TokenType::Bang),
        binary_code(TokenType::BangEqual) == binary_code(TokenType::EqualEqual) + unary_code(TokenType::Bang),
        ({
            let st = seq![ValueModel::Number(a), ValueModel::Number(b)];
            &&& run_ops(consts, st, binary_code(TokenType::Less)) == Some(seq![ValueModel::Bool(num_lt(a, b))])
            &&& run_ops(consts, st, binary_code(TokenType::GreaterEqual)) == Some(seq![ValueModel::Bool(!num_lt(a, b))])
            &&& run_ops(consts, st, binary_code(TokenType::Greater)) == Some(seq![ValueModel::Bool(num_lt(b, a))])
            &&& run_ops(consts, st, binary_code(TokenType::LessEqual)) == Some(seq![ValueModel::Bool(!num_lt(b, a))])
            &&& run_ops(consts, st, binary_code(TokenType::EqualEqual)) == Some(seq![ValueModel::Bool(num_eq(a, b))])
            &&& run_ops(consts, st, binary_code(TokenType::BangEqual)) == Some(seq![ValueModel::Bool(!num_eq(a, b))])
        }),
{
    assert(binary_code(TokenType::GreaterEqual) =~= binary_code(TokenType::Less) + unary_code(TokenType::Bang));
    assert(binary_code(TokenType::LessEqual) =~= binary_code(TokenType::Greater) + unary_code(TokenType::Bang));
    assert(binary_code(TokenType::BangEqual) =~= binary_code(TokenType::EqualEqual) + unary_code(TokenType::Bang));
    let st = seq![ValueModel::Number(a), ValueModel::Number(b)];
    assert(below_two(st) =~= seq![]);
    assert(seq![OpCode::OpLess, OpCode::OpNot].drop_first() =~= seq![OpCode::OpNot]);
    assert(seq![OpCode::OpGreater, OpCode::OpNot].drop_first() =~= seq![OpCode::OpNot]);
    assert(seq![OpCode::OpEqual, OpCode::OpNot].drop_first() =~= seq![OpCode::OpNot]);
    assert(seq![OpCode::OpNot].drop_first() =~= seq![]);
    assert(seq![OpCode::OpLess].drop_first() =~= seq![]);
    assert(seq![OpCode::OpGreater].drop_first() =~= seq![]);
    assert(seq![OpCode::OpEqual].drop_first() =~= seq![]);
    let one = seq![ValueModel::Bool(true)];
    assert(one.drop_last() =~= seq![]);
    let zero = seq![ValueModel::Bool(false)];
    assert(zero.drop_last() =~= seq![]);
    reveal_with_fuel(run_ops, 3);
}

/// Concatenating three strings gives the same string whichever pair is
/// joined first: `(a + b) + c` and `a + (b + c)` both leave `abc`.
pub proof fn lemma_concatenation_associative(a: Seq<char>, b: Seq<char>, c: Seq<char>)
    ensures
        ({
            let consts = seq![ValueModel::Str(a), ValueModel::Str(b), ValueModel::Str(c)];
            let left = seq![OpCode::OpConstant(0), OpCode::OpConstant(1), OpCode::OpAdd, OpCode::OpConstant(2), OpCode::OpAdd];
            let right = seq![OpCode::OpConstant(0), OpCode::OpConstant(1), OpCode::OpConstant(2), OpCode::OpAdd, OpCode::OpAdd];
            &&& run_ops(consts, seq![], left) == Some(seq![ValueModel::Str(a + b + c)])
            &&& run_ops(consts, seq![], right) == Some(seq![ValueModel::Str(a + b + c)])
        }),
{
    let consts = seq![ValueModel::Str(a), ValueModel::Str(b), ValueModel::Str(c)];
    let left = seq![OpCode::OpConstant(0), OpCode::OpConstant(1), OpCode::OpAdd, OpCode::OpConstant(2), OpCode::OpAdd];
    let right = seq![OpCode::OpConstant(0), OpCode::OpConstant(1), OpCode::OpConstant(2), OpCode::OpAdd, OpCode::OpAdd];
    let sa = ValueModel::Str(a);
    let sb = ValueModel::Str(b);
    let sc = ValueModel::Str(c);
    let e = Seq::<ValueModel>::empty();
    reveal_with_fuel(run_ops, 2);
    // (a + b) + c
    assert(left.drop_first() =~= left.subrange(1, 5));
    assert(left.subrange(1, 5).drop_first() =~= left.subrange(2, 5));
    assert(left.subrange(2, 5).drop_first() =~= left.subrange(3, 5));
    assert(left.subrange(3, 5).drop_first() =~= left.subrange(4, 5));
    assert(left.subrange(4, 5).drop_first() =~= seq![]);
    assert(below_two(e.push(sa).push(sb)) =~= e);
    let ab = ValueModel::Str(a + b);
    assert(below_two(e.push(ab).push(sc)) =~= e);
    assert(run_ops(consts, e.push(ab).push(sc), left.subrange(4, 5)) == Some(e.push(ValueModel::Str((a + b) + c))));
    assert(run_ops(consts, e.push(ab), left.subrange(3, 5)) == Some(e.push(ValueModel::Str((a + b) + c))));
    assert(run_ops(consts, e.push(sa).push(sb), left.subrange(2, 5)) == Some(e.push(ValueModel::Str((a + b) + c))));
    assert(run_ops(consts, e.push(sa), left.subrange(1, 5)) == Some(e.push(ValueModel::Str((a + b) + c))));
    // a + (b + c)
    assert(right.drop_first() =~= right.subrange(1, 5));
    assert(right.subrange(1, 5).drop_first() =~= right.subrange(2, 5));
    assert(right.subrange(2, 5).drop_first() =~= right.subrange(3, 5));
    assert(right.subrange(3, 5).drop_first() =~= right.subrange(4, 5));
    assert(right.subrange(4, 5).drop_first() =~= seq![]);
    assert(below_two(e.push(sa).push(sb).push(sc)) =~= e.push(sa));
    let bc = ValueModel::Str(b + c);
    assert(below_two(e.push(sa).push(bc)) =~= e);
    assert(run_ops(consts, e.push(sa).push(bc), right.subrange(4, 5)) == Some(e.push(ValueModel::Str(a + (b + c)))));
    assert(run_ops(consts, e.push(sa).push(sb).push(sc), right.subrange(3, 5)) == Some(e.push(ValueModel::Str(a + (b + c)))));
    assert(run_ops(consts, e.push(sa).push(sb), right.subrange(2, 5)) == Some(e.push(ValueModel::Str(a + (b + c)))));
    assert(run_ops(consts, e.push(sa), right.subrange(1, 5)) == Some(e.push(ValueModel::Str(a + (b + c)))));
    assert((a + b) + c =~= a + (b + c));
    assert(e.push(ValueModel::Str(a + b + c)) =~= seq![ValueModel::Str(a + b + c)]);
}

/// A run that has ended, with a value, an error, or off the end of the
/// code, leaves nothing on the operand stack and no instruction to run.
pub proof fn lemma_ended_run_is_clean(code: Seq<OpCode>, consts: Seq<ValueModel>, lines: Seq<i32>, m: VmModel)
    ensures
        !(run_spec(code, consts, lines, m).0 is Compute) ==> run_spec(code, consts, lines, m).1 == halted(code),
    decreases code.len() - m.ip,
{
    let (p, m2) = step_spec(code, consts, lines, m);
    if p is Next && 0 <= m.ip < m2.ip {
        lemma_ended_run_is_clean(code, consts, lines, m2);
    }
}

pub struct VM {
    pub chunk: Chunk,
    debug: bool,
    stack: Vec<Value>,
    ip: usize,
    awaiting: bool,
}

impl VM {
    /// The chunk being run.
    pub closed spec fn program(&self) -> Chunk {
        self.chunk
    }

    pub closed spec fn model(&self) -> VmModel {
        VmModel { stack: self.stack@.map_values(|v: Value| v@), ip: self.ip as int, awaiting: self.awaiting }
    }

    pub closed spec fn wf(&self) -> bool {
        self.chunk.wf() && self.ip <= self.chunk.code@.len()
    }

    /// The run that the machine is in, if it goes on without a host result.
    pub closed spec fn run_from(&self, m: VmModel) -> (ProgressModel, VmModel) {
        run_spec(self.chunk.code@, self.chunk.consts(), self.chunk.lines@, m)
    }

    pub fn init() -> (r: Self)
        ensures
            r.wf(),
            !r.tracing(),
            r.model() == halted(r.program().code@),
    {
        let r = VM { chunk: Chunk::init(), debug: false, stack: Vec::new(), ip: 0, awaiting: false };
        assert(r.model().stack =~= seq![]);
        r
    }

    /// Whether the host should trace each instruction before it runs.
    pub closed spec fn tracing(&self) -> bool {
        self.debug
    }

    pub fn set_debug(&mut self)
        ensures
            final(self).tracing(),
            final(self).model() == old(self).model(),
            final(self).program() == old(self).program(),
            final(self).wf() == old(self).wf(),
    {
        self.debug = true;
    }

    /// Whether each instruction should be traced before it runs.
    pub fn debug_enabled(&self) -> (r: bool)
        ensures
            r == self.tracing(),
    {
        self.debug
    }

    /// The operand stack, bottom first.
    pub fn stack_values(&self) -> (r: &Vec<Value>)
        ensures
            r@.map_values(|v: Value| v@) == self.model().stack,
    {
        &self.stack
    }

    /// The index of the next instruction.
    pub fn position(&self) -> (r: usize)
        ensures
            r == self.model().ip,
    {
        self.ip
    }

    fn push(&mut self, v: Value)
        ensures
            final(self).model() == (VmModel { stack: old(self).model().stack.push(v@), ..old(self).model() }),
            final(self).program() == old(self).program(),
            final(self).wf() == old(self).wf(),
    {
        self.stack.push(v);
        assert(self.model().stack =~= old(self).model().stack.push(v@));
    }

    fn pop(&mut self) -> (v: Value)
        requires
            old(self).model().stack.len() >= 1,
        ensures
            v@ == old(self).model().stack.last(),
            final(self).model() == (VmModel { stack: old(self).model().stack.drop_last(), ..old(self).model() }),
            final(self).program() == old(self).program(),
            final(self).wf() == old(self).wf(),
    {
        let v = self.stack.pop().unwrap();
        assert(self.model().stack =~= old(self).model().stack.drop_last());
        v
    }

    fn peak(&self, distance: usize) -> (r: Option<&Value>)
        ensures
            distance < self.stack@.len() ==> r == Some(&self.stack@[self.stack@.len() - 1 - distance]),
            distance >= self.stack@.len() ==> r is None,
    {
        if distance < self.stack.len() {
            Some(&self.stack[self.stack.len() - 1 - distance])
        } else {
            None
        }
    }

    /// Ends the run: empties the stack and passes the last instruction.
    fn halt(&mut self)
        ensures
            final(self).model() == halted(old(self).program().code@),
            final(self).program() == old(self).program(),
            old(self).program().wf() ==> final(self).wf(),
    {
        self.stack = Vec::new();
        self.ip = self.chunk.code.len();
        self.awaiting = false;
        assert(self.model().stack =~= seq![]);
    }

    fn runtime_error(&mut self, format: &str) -> (p: Progress)
        requires
            old(self).program().wf(),
            old(self).program().code@.len() >= 1,
        ensures
            p@ == ProgressModel::RuntimeError(format@, old(self).program().lines@.last() as int),
            final(self).model() == halted(old(self).program().code@),
            final(self).program() == old(self).program(),
            final(self).wf(),
    {
        let index = self.chunk.code.len() - 1;
        let line = self.chunk.lines[index];
        self.halt();
        Progress::RuntimeError(format.to_owned(), line)
    }

    fn binary_op(&mut self, operation: Operation) -> (p: Progress)
        requires
            old(self).wf(),
            old(self).program().code@.len() >= 1,
            !old(self).awaiting,
        ensures
            final(self).program() == old(self).program(),
            final(self).wf(),
            two_numbers(old(self).model().stack) && operation == Operation::Greater ==> (
                p@ == ProgressModel::Next && final(self).model() == VmModel {
                    stack: below_two(old(self).model().stack).push(ValueModel::Bool(num_lt(
                        old(self).model().stack.last()->Number_0,
                        old(self).model().stack[old(self).model().stack.len() - 2]->Number_0,
                    ))),
                    ..old(self).model()
                }),
            two_numbers(old(self).model().stack) && operation == Operation::Less ==> (
                p@ == ProgressModel::Next && final(self).model() == VmModel {
                    stack: below_two(old(self).model().stack).push(ValueModel::Bool(num_lt(
                        old(self).model().stack[old(self).model().stack.len() - 2]->Number_0,
                        old(self).model().stack.last()->Number_0,
                    ))),
                    ..old(self).model()
                }),
            two_numbers(old(self).model().stack) && operation != Operation::Greater && operation
                != Operation::Less ==> (p@ == ProgressModel::Compute(
                operation,
                old(self).model().stack[old(self).model().stack.len() - 2]->Number_0,
                old(self).model().stack.last()->Number_0,
            ) && final(self).model() == VmModel {
                stack: below_two(old(self).model().stack),
                awaiting: true,
                ..old(self).model()
            }),
            !two_numbers(old(self).model().stack) ==> (p@ == ProgressModel::RuntimeError(
                numbers_message(),
                old(self).program().lines@.last() as int,
            ) && final(self).model() == halted(old(self).program().code@)),
    {
        let n = self.stack.len();
        if !(n >= 2 && self.stack[n - 1].is_number() && self.stack[n - 2].is_number()) {
            return self.runtime_error("Operands must be numbers.");
        }
        let ghost st = self.model().stack;
        let b = self.pop().as_number();
        let a = self.pop().as_number();
        assert(self.model().stack =~= below_two(st));
        match operation {
            Operation::Greater => {
                self.push(Value::from_bool(number_less(b, a)));
                Progress::Next
            },
            Operation::Less => {
                self.push(Value::from_bool(number_less(a, b)));
                Progress::Next
            },
            _ => {
                self.awaiting = true;
                Progress::Compute(operation, a, b)
            },
        }
    }

    fn allocate_object(&mut self, object_type: ObjectType)
        ensures
            final(self).model() == (VmModel {
                stack: old(self).model().stack.push(ValueModel::Str(object_type.text())),
                ..old(self).model()
            }),
            final(self).program() == old(self).program(),
            final(self).wf() == old(self).wf(),
    {
        self.push(Value::Object(object_type));
    }

    fn concatenate(&mut self) -> (p: Progress)
        requires
            two_strings(old(self).model().stack),
        ensures
            p@ == ProgressModel::Next,
            final(self).model() == (VmModel {
                stack: below_two(old(self).model().stack).push(ValueModel::Str(
                    old(self).model().stack[old(self).model().stack.len() - 2]->Str_0
                        + old(self).model().stack.last()->Str_0,
                )),
                ..old(self).model()
            }),
            final(self).program() == old(self).program(),
            final(self).wf() == old(self).wf(),
    {
        let ghost st = self.model().stack;
        let b = self.pop().as_string();
        let a = self.pop().as_string();
        assert(self.model().stack =~= below_two(st));
        let joined = a.content.concat(b.content.as_str());
        self.allocate_object(ObjectType::String(ObjString::allocate(joined)));
        Progress::Next
    }
    /// Executes the next instruction. Past the last instruction the run is
    /// finished. Every step that ends the run leaves the stack empty.
    pub fn step(&mut self) -> (p: Progress)
        requires
            old(self).wf(),
            !old(self).model().awaiting,
        ensures
            final(self).wf(),
            final(self).program() == old(self).program(),
            (p@, final(self).model()) == step_spec(
                old(self).program().code@,
                old(self).program().consts(),
                old(self).program().lines@,
                old(self).model(),
            ),
    {
        if self.ip >= self.chunk.code.len() {
            self.halt();
            return Progress::Finished;
        }
        let instruction = self.chunk.code[self.ip];
        self.ip = self.ip + 1;
        match instruction {
            OpCode::OpReturn => {
                if self.stack.len() == 0 {
                    self.halt();
                    return Progress::CompileError(None);
                }
                let v = self.pop();
                self.halt();
                Progress::Returned(v)
            },
            OpCode::OpNegate => {
                match self.peak(0) {
                    Some(v) => {
                        if !v.is_number() {
                            return self.runtime_error("Operands must be numbers.");
                        }
                    },
                    None => {
                        return self.runtime_error("Operands must be numbers.");
                    },
                }
                let v = self.pop();
                self.push(Value::from_number(number_negate(v.as_number())));
                Progress::Next
            },
            OpCode::OpConstant(index) => {
                let v = if index < self.chunk.constants.values.len() {
                    self.chunk.constants.values[index].copy()
                } else {
                    Value::from_nil()
                };
                self.push(v);
                Progress::Next
            },
            OpCode::OpGreater => self.binary_op(Operation::Greater),
            OpCode::OpLess => self.binary_op(Operation::Less),
            OpCode::OpDivide => self.binary_op(Operation::Div),
            OpCode::OpMultiply => self.binary_op(Operation::Star),
            OpCode::OpSubtract => self.binary_op(Operation::Minus),
            OpCode::OpAdd => {
                let peak_0 = self.peak(0);
                let peak_1 = self.peak(1);
                if let (Some(value_0), Some(value_1)) = (peak_0, peak_1) {
                    if value_0.is_string() && value_1.is_string() {
                        return self.concatenate();
                    } else if value_0.is_number() && value_1.is_number() {
                        return self.binary_op(Operation::Plus);
                    }
                }
                self.runtime_error("Operands must be two numbers or two strings.")
            },
            OpCode::OpNil => {
                self.push(Value::from_nil());
                Progress::Next
            },
            OpCode::OpTrue => {
                self.push(Value::from_bool(true));
                Progress::Next
            },
            OpCode::OpFalse => {
                self.push(Value::from_bool(false));
                Progress::Next
            },
            OpCode::OpNot => {
                if self.stack.len() == 0 {
                    self.halt();
                    return Progress::CompileError(None);
                }
                let v = self.pop();
                self.push(Value::from_bool(v.is_falsey()));
                Progress::Next
            },
            OpCode::OpEqual => {
                if self.stack.len() < 2 {
                    self.halt();
                    return Progress::CompileError(None);
                }
                let ghost st = self.model().stack;
                let b = self.pop();
                let a = self.pop();
                assert(self.model().stack =~= below_two(st));
                self.push(Value::from_bool(a.equals(&b)));
                Progress::Next
            },
        }
    }

    /// Executes instructions until the run ends or the host must compute a number.
    pub fn run(&mut self) -> (p: Progress)
        requires
            old(self).wf(),
            !old(self).model().awaiting,
        ensures
            final(self).wf(),
            final(self).program() == old(self).program(),
            (p@, final(self).model()) == old(self).run_from(old(self).model()),
            !(p is Next),
    {
        let ghost target = self.run_from(self.model());
        loop
            invariant
                target == old(self).run_from(old(self).model()),
                self.wf(),
                self.program() == old(self).program(),
                !self.model().awaiting,
                self.run_from(self.model()) == target,
            decreases self.chunk.code@.len() - self.ip,
        {
            let ghost m = self.model();
            let p = self.step();
            proof {
                let code = self.chunk.code@;
                let consts = self.chunk.consts();
                let lines = self.chunk.lines@;
                assert(step_spec(code, consts, lines, m) == (p@, self.model()));
                assert(run_spec(code, consts, lines, m) == if p@ is Next {
                    run_spec(code, consts, lines, self.model())
                } else {
                    (p@, self.model())
                });
            }
            match p {
                Progress::Next => {},
                _ => {
                    return p;
                },
            }
        }
    }

    /// Hands the machine the number it asked for, without running on.
    pub fn provide(&mut self, result: u64)
        requires
            old(self).wf(),
            old(self).model().awaiting,
        ensures
            final(self).wf(),
            final(self).program() == old(self).program(),
            final(self).model() == (VmModel {
                stack: old(self).model().stack.push(ValueModel::Number(result)),
                ip: old(self).model().ip,
                awaiting: false,
            }),
    {
        self.push(Value::from_number(result));
        self.awaiting = false;
    }

    /// Hands the machine the number it asked for, and runs on.
    pub fn resume(&mut self, result: u64) -> (p: Progress)
        requires
            old(self).wf(),
            old(self).model().awaiting,
        ensures
            final(self).wf(),
            final(self).program() == old(self).program(),
            (p@, final(self).model()) == old(self).run_from(
                VmModel {
                    stack: old(self).model().stack.push(ValueModel::Number(result)),
                    ip: old(self).model().ip,
                    awaiting: false,
                },
            ),
            !(p is Next),
    {
        self.provide(result);
        self.run()
    }

    /// Compiles `source` into a new chunk and installs it, ready to run from
    /// an empty stack. `numbers` holds the binary64 value of each number
    /// literal of `source`, in order. When compilation fails, the result is
    /// the first syntax error, the old chunk stays, and the stack is empty.
    pub fn load(&mut self, source: String, numbers: Vec<u64>) -> (r: Option<Progress>)
        requires
            old(self).wf(),
            source@.len() < i32::MAX,
            numbers@.len() == number_literals(source@).len(),
        ensures
            final(self).wf(),
            r is Some <==> compiled(source@, numbers@).error is Some,
            r is Some ==> r->0@ == ProgressModel::CompileError(true) && final(self).model() == halted(
                final(self).program().code@,
            ),
            r is None ==> {
                &&& final(self).program().code@ == compiled(source@, numbers@).code
                &&& final(self).program().lines@ == compiled(source@, numbers@).lines
                &&& final(self).program().consts() == compiled(source@, numbers@).consts
                &&& code_ok(&final(self).program())
                &&& final(self).program().code@.last() == OpCode::OpReturn
                &&& final(self).model() == (VmModel { stack: seq![], ip: 0, awaiting: false })
            },
    {
        let mut chunk = Chunk::init();
        assert(code_ok(&chunk));
        assert(chunk.consts() =~= seq![]);
        assert(chunk.code@ =~= seq![]);
        assert(chunk.lines@ =~= seq![]);
        match compile(source, numbers, &mut chunk) {
            Err(d) => {
                self.halt();
                return Some(Progress::CompileError(Some(d)));
            },
            Ok(()) => {},
        }
        self.chunk = chunk;
        self.stack = Vec::new();
        self.ip = 0;
        self.awaiting = false;
        assert(self.model().stack =~= seq![]);
        None
    }

    /// Compiles `source` into a new chunk and, if that succeeds, runs it from
    /// an empty stack. `numbers` holds the binary64 value of each number
    /// literal of `source`, in order. When compilation fails, the result is
    /// the first syntax error and nothing runs.
    pub fn interpret(&mut self, source: String, numbers: Vec<u64>) -> (p: Progress)
        requires
            old(self).wf(),
            source@.len() < i32::MAX,
            numbers@.len() == number_literals(source@).len(),
        ensures
            final(self).wf(),
            p@ == ProgressModel::CompileError(true) <==> compiled(source@, numbers@).error is Some,
            p@ == ProgressModel::CompileError(true) ==> final(self).model() == halted(
                final(self).program().code@,
            ),
            p@ != ProgressModel::CompileError(true) ==> {
                let c = compiled(source@, numbers@);
                &&& final(self).program().code@ == c.code
                &&& final(self).program().lines@ == c.lines
                &&& final(self).program().consts() == c.consts
                &&& (p@, final(self).model()) == run_spec(
                    c.code,
                    c.consts,
                    c.lines,
                    VmModel { stack: seq![], ip: 0, awaiting: false },
                )
            },
            !(p is Next),
    {
        if let Some(p) = self.load(source, numbers) {
            return p;
        }
        let ghost start = self.model();
        let p = self.run();
        proof {
            lemma_compile_error_only_with_diagnostic(&self.chunk, start);
        }
        p
    }
}

} // verus!
