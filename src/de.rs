use vstd::prelude::*;
use vstd::string::StringSliceAdditionalSpecFns;
use vstd::utf8::{decode_utf8, encode_utf8_decode_utf8, valid_utf8};

use crate::bytes::{le_value, lemma_le_value_bound, lemma_pow256_values, pow256, read_le};
use crate::shape::{
    count_at, lemma_values_view_push, prim_datum, prim_width, values_view, Datum, Shape,
    UnsupportedKind, Value,
};

verus! {

/// Why a decode failed.
#[derive(Clone, Copy, Debug, PartialEq, Eq, Structural)]
pub enum DeserializerError {
    /// The shape cannot be carried by the format.
    UnsupportedType(UnsupportedKind),
    /// A string field does not end in a NUL byte.
    CStrParseError,
    /// A string field's bytes are not UTF-8.
    Utf8Error,
    /// The input ends before the shape does.
    UnexpectedEof,
}

/// Decoding a string field at the start of `b`: the value and the bytes consumed.
pub open spec fn spec_decode_str(b: Seq<u8>) -> Result<(Datum, nat), DeserializerError> {
    if b.len() < 4 {
        Err(DeserializerError::UnexpectedEof)
    } else {
        let l = count_at(b);
        if l == 0 {
            Ok((Datum::Str(Seq::empty()), 4nat))
        } else if b.len() < 4 + l {
            Err(DeserializerError::UnexpectedEof)
        } else if b[4 + l - 1] != 0 {
            Err(DeserializerError::CStrParseError)
        } else if !valid_utf8(b.subrange(4, 4 + l - 1)) {
            Err(DeserializerError::Utf8Error)
        } else {
            Ok((Datum::Str(decode_utf8(b.subrange(4, 4 + l - 1))), 4 + l))
        }
    }
}

/// Decoding shape `s` at the start of `b`: the value and the number of bytes it
/// occupies, or the first failure met in wire order.
pub open spec fn spec_decode(s: Shape, b: Seq<u8>) -> Result<(Datum, nat), DeserializerError>
    decreases s, 0nat,
{
    match s {
        Shape::Unit => Ok((Datum::Unit, 0nat)),
        Shape::Str => spec_decode_str(b),
        Shape::Array(n, e) => match spec_decode_repeat(*e, n as nat, b) {
            Ok((ds, k)) => Ok((Datum::List(ds), k)),
            Err(x) => Err(x),
        },
        Shape::Sequence(e) => if b.len() < 4 {
            Err(DeserializerError::UnexpectedEof)
        } else {
            match spec_decode_repeat(*e, count_at(b), b.skip(4)) {
                Ok((ds, k)) => Ok((Datum::List(ds), k + 4)),
                Err(x) => Err(x),
            }
        },
        Shape::Composite(fs) => match spec_decode_fields(fs@, b) {
            Ok((ds, k)) => Ok((Datum::List(ds), k)),
            Err(x) => Err(x),
        },
        Shape::Unsupported(k) => Err(DeserializerError::UnsupportedType(k)),
        _ => if b.len() < prim_width(s) {
            Err(DeserializerError::UnexpectedEof)
        } else {
            Ok((prim_datum(s, le_value(b.take(prim_width(s) as int))), prim_width(s)))
        },
    }
}

/// Decoding `count` elements of shape `e` one after the other from the start of `b`.
pub open spec fn spec_decode_repeat(e: Shape, count: nat, b: Seq<u8>) -> Result<
    (Seq<Datum>, nat),
    DeserializerError,
>
    decreases e, count,
{
    if count == 0 {
        Ok((Seq::empty(), 0nat))
    } else {
        match spec_decode_repeat(e, (count - 1) as nat, b) {
            Ok((ds, k)) => match spec_decode(e, b.skip(k as int)) {
                Ok((d, m)) => Ok((ds.push(d), k + m)),
                Err(x) => Err(x),
            },
            Err(x) => Err(x),
        }
    }
}

/// Decoding fields of shapes `fs`, in order, from the start of `b`.
pub open spec fn spec_decode_fields(fs: Seq<Shape>, b: Seq<u8>) -> Result<
    (Seq<Datum>, nat),
    DeserializerError,
>
    decreases fs, 0nat,
{
    if fs.len() == 0 {
        Ok((Seq::empty(), 0nat))
    } else {
        match spec_decode_fields(fs.drop_last(), b) {
            Ok((ds, k)) => match spec_decode(fs.last(), b.skip(k as int)) {
                Ok((d, m)) => Ok((ds.push(d), k + m)),
                Err(x) => Err(x),
            },
            Err(x) => Err(x),
        }
    }
}

/// A decode never consumes more bytes than it is given.
pub proof fn lemma_decode_within(s: Shape, b: Seq<u8>)
    ensures
        spec_decode(s, b) matches Ok((d, n)) ==> n <= b.len(),
    decreases s, 0nat,
{
    match s {
        Shape::Array(n, e) => lemma_repeat_within(*e, n as nat, b),
        Shape::Sequence(e) => if b.len() >= 4 {
            lemma_repeat_within(*e, count_at(b), b.skip(4));
        },
        Shape::Composite(fs) => lemma_fields_within(fs@, b),
        _ => {},
    }
}

pub proof fn lemma_repeat_within(e: Shape, count: nat, b: Seq<u8>)
    ensures
        spec_decode_repeat(e, count, b) matches Ok((ds, n)) ==> n <= b.len() && ds.len()
            == count,
    decreases e, count,
{
    if count > 0 {
        lemma_repeat_within(e, (count - 1) as nat, b);
        if let Ok((ds, k)) = spec_decode_repeat(e, (count - 1) as nat, b) {
            lemma_decode_within(e, b.skip(k as int));
        }
    }
}

pub proof fn lemma_fields_within(fs: Seq<Shape>, b: Seq<u8>)
    ensures
        spec_decode_fields(fs, b) matches Ok((ds, n)) ==> n <= b.len() && ds.len() == fs.len(),
    decreases fs, 0nat,
{
    if fs.len() > 0 {
        lemma_fields_within(fs.drop_last(), b);
        if let Ok((ds, k)) = spec_decode_fields(fs.drop_last(), b) {
            lemma_decode_within(fs.last(), b.skip(k as int));
        }
    }
}

/// Once an element fails, decoding more elements fails the same way.
pub proof fn lemma_repeat_err(e: Shape, i: nat, count: nat, b: Seq<u8>)
    requires
        i <= count,
        spec_decode_repeat(e, i, b) is Err,
    ensures
        spec_decode_repeat(e, count, b) == spec_decode_repeat(e, i, b),
    decreases count,
{
    if i < count {
        lemma_repeat_err(e, i, (count - 1) as nat, b);
    }
}

/// Once a field fails, the whole list of fields fails the same way.
pub proof fn lemma_fields_err(fs: Seq<Shape>, i: int, b: Seq<u8>)
    requires
        0 <= i <= fs.len(),
        spec_decode_fields(fs.take(i), b) is Err,
    ensures
        spec_decode_fields(fs, b) == spec_decode_fields(fs.take(i), b),
    decreases fs.len(),
{
    if i < fs.len() {
        assert(fs.drop_last().take(i) =~= fs.take(i));
        lemma_fields_err(fs.drop_last(), i, b);
    } else {
        assert(fs.take(i) =~= fs);
    }
}

/// Relies on std::str::from_utf8: it accepts exactly the valid UTF-8 byte
/// strings, and the str it hands back is made of those bytes.
#[verifier::external_body]
pub(crate) fn utf8_str(b: &[u8]) -> (r: Option<&str>)
    ensures
        r is Some <==> valid_utf8(b@),
        r matches Some(s) ==> s.spec_bytes() == b@,
{
    std::str::from_utf8(b).ok()
}

/// A forward-only read position over a byte buffer. Nested decodes share it, so
/// each field starts where the one before it ended.
pub struct Deserializer<'a> {
    pub buf: &'a [u8],
    pub pos: usize,
}

impl<'a> Deserializer<'a> {
    pub open spec fn wf(&self) -> bool {
        self.pos <= self.buf@.len()
    }

    /// The bytes not read yet.
    pub open spec fn remaining(&self) -> Seq<u8> {
        self.buf@.subrange(self.pos as int, self.buf@.len() as int)
    }

    /// A cursor at the start of `buf`.
    pub fn new(buf: &'a [u8]) -> (r: Self)
        ensures
            r.buf@ == buf@,
            r.pos == 0,
            r.wf(),
    {
        Deserializer { buf, pos: 0 }
    }

    /// How many bytes have been read.
    pub fn position(&self) -> (r: usize)
        ensures
            r == self.pos,
    {
        self.pos
    }

    /// Decodes one value of `shape` and moves past it.
    pub fn decode(&mut self, shape: &Shape) -> (r: Result<Value, DeserializerError>)
        requires
            old(self).wf(),
        ensures
            final(self).buf@ == old(self).buf@,
            final(self).wf(),
            match spec_decode(*shape, old(self).remaining()) {
                Ok((d, n)) => r matches Ok(v) && v@ == d && final(self).pos == old(self).pos + n,
                Err(x) => r == Err::<Value, DeserializerError>(x),
            },
        decreases shape, 0nat,
    {
        let ghost b = self.remaining();
        match shape {
            Shape::Unit => Ok(Value::Unit),
            Shape::Str => self.decode_str(),
            Shape::Array(n, e) => {
                match self.decode_repeat(e, *n) {
                    Ok(items) => Ok(Value::List(items)),
                    Err(x) => Err(x),
                }
            },
            Shape::Sequence(e) => {
                if self.buf.len() - self.pos < 4 {
                    return Err(DeserializerError::UnexpectedEof);
                }
                let count = read_le(self.buf, self.pos, 4);
                proof {
                    lemma_le_value_bound(self.buf@.subrange(self.pos as int, self.pos + 4));
                    lemma_pow256_values();
                    assert(self.buf@.subrange(self.pos as int, self.pos + 4) =~= b.take(4));
                }
                self.pos = self.pos + 4;
                assert(self.remaining() =~= b.skip(4));
                match self.decode_repeat(e, count as usize) {
                    Ok(items) => Ok(Value::List(items)),
                    Err(x) => Err(x),
                }
            },
            Shape::Composite(fs) => {
                match self.decode_fields(fs) {
                    Ok(items) => Ok(Value::List(items)),
                    Err(x) => Err(x),
                }
            },
            Shape::Unsupported(k) => Err(DeserializerError::UnsupportedType(*k)),
            _ => {
                let width = width_of(shape);
                if self.buf.len() - self.pos < width {
                    return Err(DeserializerError::UnexpectedEof);
                }
                let raw = read_le(self.buf, self.pos, width);
                proof {
                    lemma_le_value_bound(self.buf@.subrange(self.pos as int, self.pos + width));
                    assert(self.buf@.subrange(self.pos as int, self.pos + width) =~= b.take(
                        width as int,
                    ));
                }
                self.pos = self.pos + width;
                Ok(prim_value(shape, raw))
            },
        }
    }

    fn decode_str(&mut self) -> (r: Result<Value, DeserializerError>)
        requires
            old(self).wf(),
        ensures
            final(self).buf@ == old(self).buf@,
            final(self).wf(),
            match spec_decode_str(old(self).remaining()) {
                Ok((d, n)) => r matches Ok(v) && v@ == d && final(self).pos == old(self).pos + n,
                Err(x) => r == Err::<Value, DeserializerError>(x),
            },
    {
        let ghost b = self.remaining();
        if self.buf.len() - self.pos < 4 {
            return Err(DeserializerError::UnexpectedEof);
        }
        let len = read_le(self.buf, self.pos, 4);
        proof {
            lemma_le_value_bound(self.buf@.subrange(self.pos as int, self.pos + 4));
            lemma_pow256_values();
            assert(self.buf@.subrange(self.pos as int, self.pos + 4) =~= b.take(4));
        }
        let start = self.pos + 4;
        if len == 0 {
            self.pos = start;
            return Ok(Value::Str(String::new()));
        }
        let len = len as usize;
        if self.buf.len() - start < len {
            return Err(DeserializerError::UnexpectedEof);
        }
        if self.buf[start + len - 1] != 0 {
            return Err(DeserializerError::CStrParseError);
        }
        let text = &self.buf[start..start + len - 1];
        assert(text@ =~= b.subrange(4, 4 + len - 1));
        match utf8_str(text) {
            None => Err(DeserializerError::Utf8Error),
            Some(s) => {
                proof {
                    encode_utf8_decode_utf8(s@);
                }
                self.pos = start + len;
                Ok(Value::Str(s.to_owned()))
            },
        }
    }

    fn decode_repeat(&mut self, e: &Shape, count: usize) -> (r: Result<
        Vec<Value>,
        DeserializerError,
    >)
        requires
            old(self).wf(),
        ensures
            final(self).buf@ == old(self).buf@,
            final(self).wf(),
            match spec_decode_repeat(*e, count as nat, old(self).remaining()) {
                Ok((ds, n)) => r matches Ok(vs) && values_view(vs@) == ds && final(self).pos
                    == old(self).pos + n,
                Err(x) => r == Err::<Vec<Value>, DeserializerError>(x),
            },
        decreases e, 1nat,
    {
        let ghost b = self.remaining();
        let ghost start_pos = self.pos;
        let mut items: Vec<Value> = Vec::new();
        let mut i: usize = 0;
        while i < count
            invariant
                i <= count,
                self.wf(),
                self.buf@ == old(self).buf@,
                start_pos == old(self).pos,
                b == old(self).remaining(),
                start_pos <= self.pos,
                self.remaining() == b.skip(self.pos - start_pos),
                spec_decode_repeat(*e, i as nat, b) == Ok::<(Seq<Datum>, nat), DeserializerError>(
                    (values_view(items@), (self.pos - start_pos) as nat),
                ),
            decreases count - i,
        {
            let ghost items0 = items@;
            let ghost pos0 = self.pos;
            match self.decode(e) {
                Ok(v) => {
                    items.push(v);
                    proof {
                        lemma_values_view_push(items0, v);
                        lemma_decode_within(*e, b.skip(pos0 - start_pos));
                    }
                },
                Err(x) => {
                    proof {
                        lemma_repeat_err(*e, (i + 1) as nat, count as nat, b);
                    }
                    return Err(x);
                },
            }
            i = i + 1;
            assert(self.remaining() =~= b.skip(self.pos - start_pos));
        }
        Ok(items)
    }

    fn decode_fields(&mut self, fs: &Vec<Shape>) -> (r: Result<Vec<Value>, DeserializerError>)
        requires
            old(self).wf(),
        ensures
            final(self).buf@ == old(self).buf@,
            final(self).wf(),
            match spec_decode_fields(fs@, old(self).remaining()) {
                Ok((ds, n)) => r matches Ok(vs) && values_view(vs@) == ds && final(self).pos
                    == old(self).pos + n,
                Err(x) => r == Err::<Vec<Value>, DeserializerError>(x),
            },
        decreases fs, 1nat,
    {
        let ghost b = self.remaining();
        let ghost start_pos = self.pos;
        let mut items: Vec<Value> = Vec::new();
        let mut i: usize = 0;
        while i < fs.len()
            invariant
                i <= fs@.len(),
                self.wf(),
                self.buf@ == old(self).buf@,
                start_pos == old(self).pos,
                b == old(self).remaining(),
                start_pos <= self.pos,
                self.remaining() == b.skip(self.pos - start_pos),
                spec_decode_fields(fs@.take(i as int), b) == Ok::<
                    (Seq<Datum>, nat),
                    DeserializerError,
                >((values_view(items@), (self.pos - start_pos) as nat)),
            decreases fs@.len() - i,
        {
            let ghost items0 = items@;
            let ghost pos0 = self.pos;
            assert(fs@.take(i + 1).drop_last() =~= fs@.take(i as int));
            assert(fs@.take(i + 1).last() == fs@[i as int]);
            match self.decode(&fs[i]) {
                Ok(v) => {
                    items.push(v);
                    proof {
                        lemma_values_view_push(items0, v);
                        lemma_decode_within(fs@[i as int], b.skip(pos0 - start_pos));
                    }
                },
                Err(x) => {
                    proof {
                        lemma_fields_err(fs@, i + 1, b);
                    }
                    return Err(x);
                },
            }
            i = i + 1;
            assert(self.remaining() =~= b.skip(self.pos - start_pos));
        }
        assert(fs@.take(fs@.len() as int) =~= fs@);
        Ok(items)
    }
}

/// The width of a primitive shape.
fn width_of(s: &Shape) -> (r: usize)
    ensures
        r == prim_width(*s),
{
    match s {
        Shape::Bool | Shape::I8 | Shape::U8 => 1,
        Shape::I16 | Shape::U16 => 2,
        Shape::I32 | Shape::U32 | Shape::F32 => 4,
        Shape::I64 | Shape::U64 | Shape::F64 => 8,
        _ => 0,
    }
}

/// The value of primitive shape `s` whose bytes read `raw`.
fn prim_value(s: &Shape, raw: u64) -> (r: Value)
    requires
        raw < pow256(prim_width(*s)),
    ensures
        r@ == prim_datum(*s, raw as nat),
{
    match s {
        Shape::Bool => Value::Bool(raw != 0),
        Shape::I8 => Value::I8((raw as u8) as i8),
        Shape::I16 => Value::I16((raw as u16) as i16),
        Shape::I32 => Value::I32((raw as u32) as i32),
        Shape::I64 => Value::I64(raw as i64),
        Shape::U8 => Value::U8(raw as u8),
        Shape::U16 => Value::U16(raw as u16),
        Shape::U32 => Value::U32(raw as u32),
        Shape::U64 => Value::U64(raw),
        Shape::F32 => Value::F32(raw as u32),
        Shape::F64 => Value::F64(raw),
        _ => Value::Unit,
    }
}

} // verus!
