use vstd::prelude::*;

use crate::bytes::{le_bytes, le_value};

verus! {

/// A wire shape that the format has no way to represent.
#[derive(Clone, Copy, Debug, PartialEq, Eq, Structural)]
pub enum UnsupportedKind {
    Optional,
    Dictionary,
    Enum,
    Bytes,
    Char,
    Any,
}

impl UnsupportedKind {
    /// The name under which the shape is reported.
    pub fn name(&self) -> &'static str {
        match self {
            UnsupportedKind::Optional => "option",
            UnsupportedKind::Dictionary => "map",
            UnsupportedKind::Enum => "enum",
            UnsupportedKind::Bytes => "bytes",
            UnsupportedKind::Char => "char",
            UnsupportedKind::Any => "any",
        }
    }
}

/// The wire encoding of one field: primitives, fixed arrays, counted sequences,
/// strings and ordered composites. Nothing on the wire names the shape; the
/// reader and the writer must agree on it.
#[derive(Debug)]
pub enum Shape {
    /// Nothing on the wire.
    Unit,
    /// One byte; any nonzero value reads as `true`.
    Bool,
    I8,
    I16,
    I32,
    I64,
    U8,
    U16,
    U32,
    U64,
    /// Four bytes holding an IEEE-754 single by its bit pattern.
    F32,
    /// Eight bytes holding an IEEE-754 double by its bit pattern.
    F64,
    /// A `u32` byte length (counting a trailing NUL, 0 for the empty string),
    /// then that many bytes.
    Str,
    /// Exactly `n` elements and no length on the wire.
    Array(usize, Box<Shape>),
    /// A `u32` element count, then that many elements.
    Sequence(Box<Shape>),
    /// Fields in declaration order, with no names and no tags.
    Composite(Vec<Shape>),
    /// A shape the format cannot carry; reading or writing it fails at once.
    Unsupported(UnsupportedKind),
}

/// A decoded field, as data.
#[derive(Debug)]
pub enum Value {
    Unit,
    Bool(bool),
    I8(i8),
    I16(i16),
    I32(i32),
    I64(i64),
    U8(u8),
    U16(u16),
    U32(u32),
    U64(u64),
    /// The bit pattern of an IEEE-754 single.
    F32(u32),
    /// The bit pattern of an IEEE-754 double.
    F64(u64),
    Str(String),
    /// The elements of an array or sequence, or the fields of a composite.
    List(Vec<Value>),
}

/// The mathematical content of a `Value`.
pub enum Datum {
    Unit,
    Bool(bool),
    I8(i8),
    I16(i16),
    I32(i32),
    I64(i64),
    U8(u8),
    U16(u16),
    U32(u32),
    U64(u64),
    F32(u32),
    F64(u64),
    Str(Seq<char>),
    List(Seq<Datum>),
}

pub open spec fn value_view(v: Value) -> Datum
    decreases v,
{
    match v {
        Value::Unit => Datum::Unit,
        Value::Bool(b) => Datum::Bool(b),
        Value::I8(x) => Datum::I8(x),
        Value::I16(x) => Datum::I16(x),
        Value::I32(x) => Datum::I32(x),
        Value::I64(x) => Datum::I64(x),
        Value::U8(x) => Datum::U8(x),
        Value::U16(x) => Datum::U16(x),
        Value::U32(x) => Datum::U32(x),
        Value::U64(x) => Datum::U64(x),
        Value::F32(x) => Datum::F32(x),
        Value::F64(x) => Datum::F64(x),
        Value::Str(s) => Datum::Str(s@),
        Value::List(vs) => Datum::List(values_view(vs@)),
    }
}

pub open spec fn values_view(vs: Seq<Value>) -> Seq<Datum>
    decreases vs,
{
    if vs.len() == 0 {
        Seq::empty()
    } else {
        values_view(vs.drop_last()).push(value_view(vs.last()))
    }
}

impl View for Value {
    type V = Datum;

    open spec fn view(&self) -> Datum {
        value_view(*self)
    }
}

pub proof fn lemma_values_view_len(vs: Seq<Value>)
    ensures
        values_view(vs).len() == vs.len(),
    decreases vs.len(),
{
    if vs.len() > 0 {
        lemma_values_view_len(vs.drop_last());
    }
}

pub proof fn lemma_values_view_push(vs: Seq<Value>, v: Value)
    ensures
        values_view(vs.push(v)) == values_view(vs).push(value_view(v)),
{
    assert(vs.push(v).drop_last() =~= vs);
}

pub proof fn lemma_values_view_all(vs: Seq<Value>)
    ensures
        values_view(vs).len() == vs.len(),
        forall|i: int| 0 <= i < vs.len() ==> #[trigger] values_view(vs)[i] == value_view(vs[i]),
    decreases vs.len(),
{
    lemma_values_view_len(vs);
    if vs.len() > 0 {
        lemma_values_view_all(vs.drop_last());
    }
}

/// Bytes a primitive shape occupies; zero for every other shape.
pub open spec fn prim_width(s: Shape) -> nat {
    match s {
        Shape::Bool | Shape::I8 | Shape::U8 => 1,
        Shape::I16 | Shape::U16 => 2,
        Shape::I32 | Shape::U32 | Shape::F32 => 4,
        Shape::I64 | Shape::U64 | Shape::F64 => 8,
        _ => 0,
    }
}

/// The value a primitive shape holds when its bytes read `raw` (little-endian, unsigned).
pub open spec fn prim_datum(s: Shape, raw: nat) -> Datum {
    match s {
        Shape::Bool => Datum::Bool(raw != 0),
        Shape::I8 => Datum::I8((raw as u8) as i8),
        Shape::I16 => Datum::I16((raw as u16) as i16),
        Shape::I32 => Datum::I32((raw as u32) as i32),
        Shape::I64 => Datum::I64((raw as u64) as i64),
        Shape::U8 => Datum::U8(raw as u8),
        Shape::U16 => Datum::U16(raw as u16),
        Shape::U32 => Datum::U32(raw as u32),
        Shape::U64 => Datum::U64(raw as u64),
        Shape::F32 => Datum::F32(raw as u32),
        Shape::F64 => Datum::F64(raw as u64),
        _ => Datum::Unit,
    }
}

/// The unsigned number whose little-endian bytes encode `d` under the primitive
/// shape `s`; `None` where `d` is not a value of `s`.
pub open spec fn prim_raw(s: Shape, d: Datum) -> Option<nat> {
    match (s, d) {
        (Shape::Bool, Datum::Bool(b)) => Some(
            if b {
                1nat
            } else {
                0nat
            },
        ),
        (Shape::I8, Datum::I8(x)) => Some((x as u8) as nat),
        (Shape::I16, Datum::I16(x)) => Some((x as u16) as nat),
        (Shape::I32, Datum::I32(x)) => Some((x as u32) as nat),
        (Shape::I64, Datum::I64(x)) => Some((x as u64) as nat),
        (Shape::U8, Datum::U8(x)) => Some(x as nat),
        (Shape::U16, Datum::U16(x)) => Some(x as nat),
        (Shape::U32, Datum::U32(x)) => Some(x as nat),
        (Shape::U64, Datum::U64(x)) => Some(x as nat),
        (Shape::F32, Datum::F32(x)) => Some(x as nat),
        (Shape::F64, Datum::F64(x)) => Some(x as nat),
        _ => None,
    }
}

/// The bytes of a string field holding `chars`: a zero length for the empty
/// string, else the length of the UTF-8 bytes plus one, the bytes, and a NUL.
pub open spec fn str_field_bytes(chars: Seq<char>) -> Seq<u8> {
    let b = vstd::utf8::encode_utf8(chars);
    if b.len() == 0 {
        le_bytes(0, 4)
    } else {
        le_bytes(b.len() + 1, 4) + b + seq![0u8]
    }
}

/// The `u32` read from the first four bytes of `b`.
pub open spec fn count_at(b: Seq<u8>) -> nat {
    le_value(b.take(4))
}

} // verus!
