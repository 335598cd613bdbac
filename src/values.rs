use vstd::prelude::*;

verus! {

/// Mask of the sign bit of a binary64 bit pattern.
pub const SIGN_BIT: u64 = 0x8000_0000_0000_0000;

/// Mask of the exponent and fraction bits of a binary64 bit pattern.
pub const MAGNITUDE_BITS: u64 = 0x7fff_ffff_ffff_ffff;

/// The bit pattern of the binary64 value minus one.
pub const MINUS_ONE: u64 = 0xbff0_0000_0000_0000;

/// Mask of the fraction bits of a binary64 bit pattern.
pub const FRACTION_BITS: u64 = 0x000f_ffff_ffff_ffff;

/// A binary64 bit pattern is a NaN when its exponent is all ones and its
/// fraction is not zero.
pub open spec fn is_nan(b: u64) -> bool {
    (b >> 52u64) & 0x7ffu64 == 0x7ffu64 && b & FRACTION_BITS != 0
}

/// The position of a non-NaN binary64 value on the number line, as an integer
/// that orders exactly as the values do (both zeros map to 0).
pub open spec fn order_key(b: u64) -> int {
    if b & SIGN_BIT == 0 {
        (b & MAGNITUDE_BITS) as int
    } else {
        -((b & MAGNITUDE_BITS) as int)
    }
}

/// Numeric equality of binary64 values: NaN equals nothing, the zeros are equal.
pub open spec fn num_eq(a: u64, b: u64) -> bool {
    !is_nan(a) && !is_nan(b) && order_key(a) == order_key(b)
}

/// Numeric `<` of binary64 values: false whenever either side is NaN.
pub open spec fn num_lt(a: u64, b: u64) -> bool {
    !is_nan(a) && !is_nan(b) && order_key(a) < order_key(b)
}

/// Numeric negation of a binary64 value: the sign bit flips.
pub open spec fn num_neg(a: u64) -> u64 {
    a ^ SIGN_BIT
}

#[derive(Debug, Clone)]
pub struct ObjString {
    pub content: String,
}

impl ObjString {
    pub fn allocate(chars: String) -> (r: Self)
        ensures
            r.content@ == chars@,
    {
        ObjString { content: chars }
    }
}

#[derive(Debug, Clone)]
pub enum ObjectType {
    String(ObjString),
}

impl ObjectType {
    pub open spec fn text(&self) -> Seq<char> {
        match self {
            ObjectType::String(s) => s.content@,
        }
    }

    /// The text of the object, as it is shown to a user.
    pub fn print(&self) -> (r: String)
        ensures
            r@ == self.text(),
    {
        match self {
            ObjectType::String(s) => s.content.clone(),
        }
    }
}

/// A runtime value. A number is held as the bit pattern of a binary64 value.
#[derive(Debug, Clone)]
pub enum Value {
    Bool(bool),
    Nil,
    Number(u64),
    Object(ObjectType),
}

/// What a value is, with strings seen as their characters.
pub enum ValueModel {
    Bool(bool),
    Nil,
    Number(u64),
    Str(Seq<char>),
}

impl View for Value {
    type V = ValueModel;

    open spec fn view(&self) -> ValueModel {
        match self {
            Value::Bool(b) => ValueModel::Bool(*b),
            Value::Nil => ValueModel::Nil,
            Value::Number(n) => ValueModel::Number(*n),
            Value::Object(o) => ValueModel::Str(o.text()),
        }
    }
}

/// Exactly nil and false are falsey.
pub open spec fn falsey(v: ValueModel) -> bool {
    v == ValueModel::Nil || v == ValueModel::Bool(false)
}

/// Structural equality without coercion: values of different variants are
/// never equal; numbers compare numerically.
pub open spec fn values_equal(a: ValueModel, b: ValueModel) -> bool {
    match (a, b) {
        (ValueModel::Bool(x), ValueModel::Bool(y)) => x == y,
        (ValueModel::Nil, ValueModel::Nil) => true,
        (ValueModel::Number(x), ValueModel::Number(y)) => num_eq(x, y),
        (ValueModel::Str(x), ValueModel::Str(y)) => x == y,
        _ => false,
    }
}

pub fn number_is_nan(b: u64) -> (r: bool)
    ensures
        r == is_nan(b),
{
    (b >> 52u64) & 0x7ffu64 == 0x7ffu64 && b & FRACTION_BITS != 0
}

/// Numeric equality on binary64 bit patterns.
pub fn number_equal(a: u64, b: u64) -> (r: bool)
    ensures
        r == num_eq(a, b),
{
    if number_is_nan(a) || number_is_nan(b) {
        return false;
    }
    let ma = a & MAGNITUDE_BITS;
    let mb = b & MAGNITUDE_BITS;
    let na = a & SIGN_BIT != 0;
    let nb = b & SIGN_BIT != 0;
    if na == nb {
        ma == mb
    } else {
        ma == 0 && mb == 0
    }
}

/// Numeric `<` on binary64 bit patterns.
pub fn number_less(a: u64, b: u64) -> (r: bool)
    ensures
        r == num_lt(a, b),
{
    if number_is_nan(a) || number_is_nan(b) {
        return false;
    }
    let ma = a & MAGNITUDE_BITS;
    let mb = b & MAGNITUDE_BITS;
    let na = a & SIGN_BIT != 0;
    let nb = b & SIGN_BIT != 0;
    if !na && !nb {
        ma < mb
    } else if na && nb {
        mb < ma
    } else if na {
        !(ma == 0 && mb == 0)
    } else {
        false
    }
}

/// Numeric negation on a binary64 bit pattern.
pub fn number_negate(a: u64) -> (r: u64)
    ensures
        r == num_neg(a),
{
    a ^ SIGN_BIT
}

impl Value {
    pub fn from_bool(b: bool) -> (r: Self)
        ensures
            r@ == ValueModel::Bool(b),
    {
        Value::Bool(b)
    }

    pub fn from_number(n: u64) -> (r: Self)
        ensures
            r@ == ValueModel::Number(n),
    {
        Value::Number(n)
    }

    pub fn from_string(a: String) -> (r: Self)
        ensures
            r@ == ValueModel::Str(a@),
    {
        Value::Object(ObjectType::String(ObjString::allocate(a)))
    }

    pub fn from_nil() -> (r: Self)
        ensures
            r@ == ValueModel::Nil,
    {
        Value::Nil
    }

    pub fn as_number(&self) -> (r: u64)
        requires
            self is Number,
        ensures
            self@ == ValueModel::Number(r),
    {
        match self {
            Value::Number(n) => *n,
            _ => 0,
        }
    }

    pub fn as_bool(&self) -> (r: bool)
        requires
            self is Bool,
        ensures
            self@ == ValueModel::Bool(r),
    {
        match self {
            Value::Bool(b) => *b,
            _ => false,
        }
    }

    pub fn as_object(&self) -> (r: ObjectType)
        requires
            self is Object,
        ensures
            self@ == ValueModel::Str(r.text()),
    {
        match self {
            Value::Object(ObjectType::String(s)) => ObjectType::String(
                ObjString::allocate(s.content.clone()),
            ),
            _ => ObjectType::String(ObjString::allocate(String::new())),
        }
    }

    pub fn as_string(&self) -> (r: ObjString)
        requires
            self is Object,
        ensures
            self@ == ValueModel::Str(r.content@),
    {
        match self {
            Value::Object(ObjectType::String(s)) => ObjString::allocate(s.content.clone()),
            _ => ObjString::allocate(String::new()),
        }
    }

    pub fn is_bool(&self) -> (r: bool)
        ensures
            r == self@ is Bool,
    {
        match self {
            Value::Bool(_) => true,
            _ => false,
        }
    }

    pub fn is_string(&self) -> (r: bool)
        ensures
            r == self@ is Str,
    {
        match self {
            Value::Object(ObjectType::String(_)) => true,
            _ => false,
        }
    }

    pub fn is_number(&self) -> (r: bool)
        ensures
            r == self@ is Number,
    {
        match self {
            Value::Number(_) => true,
            _ => false,
        }
    }

    pub fn is_nil(&self) -> (r: bool)
        ensures
            r == self@ is Nil,
    {
        match self {
            Value::Nil => true,
            _ => false,
        }
    }

    pub fn is_falsey(&self) -> (r: bool)
        ensures
            r == falsey(self@),
    {
        self.is_nil() || (self.is_bool() && !self.as_bool())
    }

    /// A copy of the value.
    pub fn copy(&self) -> (r: Value)
        ensures
            r@ == self@,
    {
        match self {
            Value::Bool(b) => Value::Bool(*b),
            Value::Nil => Value::Nil,
            Value::Number(n) => Value::Number(*n),
            Value::Object(ObjectType::String(s)) => Value::from_string(s.content.clone()),
        }
    }

    /// Structural equality, as the `==` operator of the language has it.
    pub fn equals(&self, other: &Value) -> (r: bool)
        ensures
            r == values_equal(self@, other@),
    {
        match (self, other) {
            (Value::Bool(x), Value::Bool(y)) => *x == *y,
            (Value::Nil, Value::Nil) => true,
            (Value::Number(x), Value::Number(y)) => number_equal(*x, *y),
            (Value::Object(ObjectType::String(x)), Value::Object(ObjectType::String(y))) => {
                x.content == y.content
            },
            _ => false,
        }
    }
}

pub struct ValueArray {
    pub values: Vec<Value>,
}

impl ValueArray {
    pub fn init() -> (r: Self)
        ensures
            r.values@.len() == 0,
    {
        ValueArray { values: Vec::new() }
    }

    pub fn write(&mut self, value: Value)
        ensures
            final(self).values@ == old(self).values@.push(value),
    {
        self.values.push(value);
    }

    /// The value at `index`, or nil when there is none.
    pub fn get(&self, index: &usize) -> (r: Value)
        ensures
            *index < self.values@.len() ==> r@ == self.values@[*index as int]@,
            *index >= self.values@.len() ==> r@ == ValueModel::Nil,
    {
        if *index < self.values.len() {
            self.values[*index].copy()
        } else {
            Value::Nil
        }
    }

    /// Removes the value at `index`, moving the last value into its place;
    /// when there is none, the array stays as it is and the result is the
    /// number minus one.
    pub fn take(&mut self, index: &usize) -> (r: Value)
        ensures
            *index < old(self).values@.len() ==> {
                &&& r == old(self).values@[*index as int]
                &&& final(self).values@ == old(self).values@.update(
                    *index as int,
                    old(self).values@.last(),
                ).drop_last()
            },
            *index >= old(self).values@.len() ==> {
                &&& r@ == ValueModel::Number(MINUS_ONE)
                &&& final(self).values@ == old(self).values@
            },
    {
        if *index >= self.values.len() {
            return Value::from_number(MINUS_ONE);
        }
        self.values.swap_remove(*index)
    }
}

} // verus!
