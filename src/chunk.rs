use vstd::prelude::*;
use crate::values::{Value, ValueArray, ValueModel};

verus! {

/// One instruction. A constant load carries its constant-pool index inline.
#[derive(Debug, PartialEq, Eq, Structural, Clone, Copy)]
pub enum OpCode {
    OpReturn,
    OpNegate,
    OpNot,
    OpAdd,
    OpSubtract,
    OpMultiply,
    OpDivide,
    OpEqual,
    OpGreater,
    OpLess,
    OpNil,
    OpTrue,
    OpFalse,
    OpConstant(usize),
}

/// A compiled unit: instructions, the source line of each, and a constant pool.
pub struct Chunk {
    pub lines: Vec<i32>,
    pub code: Vec<OpCode>,
    pub constants: ValueArray,
}

impl Chunk {
    /// The constant pool, as values.
    pub open spec fn consts(&self) -> Seq<ValueModel> {
        self.constants.values@.map_values(|v: Value| v@)
    }

    /// Instructions and lines correspond one to one.
    pub open spec fn wf(&self) -> bool {
        self.code@.len() == self.lines@.len()
    }

    pub fn init() -> (r: Self)
        ensures
            r.wf(),
            r.code@.len() == 0,
            r.constants.values@.len() == 0,
    {
        Chunk { lines: Vec::new(), code: Vec::new(), constants: ValueArray::init() }
    }

    /// Appends an instruction and its source line.
    pub fn write(&mut self, byte: OpCode, line_num: i32)
        ensures
            final(self).code@ == old(self).code@.push(byte),
            final(self).lines@ == old(self).lines@.push(line_num),
            final(self).constants == old(self).constants,
    {
        self.code.push(byte);
        self.lines.push(line_num);
    }

    /// Appends a constant and returns its index.
    pub fn add_constant(&mut self, value: Value) -> (r: usize)
        ensures
            final(self).constants.values@ == old(self).constants.values@.push(value),
            final(self).consts() == old(self).consts().push(value@),
            final(self).code == old(self).code,
            final(self).lines == old(self).lines,
            r == old(self).constants.values@.len(),
    {
        self.constants.write(value);
        assert(self.consts() =~= old(self).consts().push(value@));
        self.constants.values.len() - 1
    }
}

} // verus!
