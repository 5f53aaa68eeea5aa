use vstd::prelude::*;
use vstd::utf8::encode_utf8;

use crate::bytes::{le_bytes, write_le};
use crate::shape::{
    lemma_values_view_len, prim_raw, prim_width, str_field_bytes, values_view, Datum, Shape,
    UnsupportedKind, Value,
};

verus! {

/// Why an encode failed.
#[derive(Clone, Copy, Debug, PartialEq, Eq, Structural)]
pub enum SerializerError {
    /// The shape cannot be carried by the format.
    UnsupportedType(UnsupportedKind),
    /// The value is not one of the shape: another primitive, or a list of
    /// another length than the shape fixes.
    ShapeMismatch,
    /// A length or count does not fit in its `u32` on the wire.
    TooLarge,
}

/// The largest number a `u32` on the wire holds.
pub open spec fn u32_max() -> nat {
    0xffff_ffff
}

/// Encoding `d` under shape `s`: the bytes, or the first failure in wire order.
pub open spec fn spec_encode(s: Shape, d: Datum) -> Result<Seq<u8>, SerializerError>
    decreases s, 0nat,
{
    match s {
        Shape::Unsupported(k) => Err(SerializerError::UnsupportedType(k)),
        Shape::Unit => match d {
            Datum::Unit => Ok(Seq::empty()),
            _ => Err(SerializerError::ShapeMismatch),
        },
        Shape::Str => match d {
            Datum::Str(cs) => if encode_utf8(cs).len() + 1 > u32_max() {
                Err(SerializerError::TooLarge)
            } else {
                Ok(str_field_bytes(cs))
            },
            _ => Err(SerializerError::ShapeMismatch),
        },
        Shape::Array(n, e) => match d {
            Datum::List(ds) => if ds.len() != n {
                Err(SerializerError::ShapeMismatch)
            } else {
                spec_encode_repeat(*e, ds)
            },
            _ => Err(SerializerError::ShapeMismatch),
        },
        Shape::Sequence(e) => match d {
            Datum::List(ds) => if ds.len() > u32_max() {
                Err(SerializerError::TooLarge)
            } else {
                match spec_encode_repeat(*e, ds) {
                    Ok(bs) => Ok(le_bytes(ds.len(), 4) + bs),
                    Err(x) => Err(x),
                }
            },
            _ => Err(SerializerError::ShapeMismatch),
        },
        Shape::Composite(fs) => match d {
            Datum::List(ds) => if ds.len() != fs.len() {
                Err(SerializerError::ShapeMismatch)
            } else {
                spec_encode_fields(fs@, ds)
            },
            _ => Err(SerializerError::ShapeMismatch),
        },
        _ => match prim_raw(s, d) {
            Some(raw) => Ok(le_bytes(raw, prim_width(s))),
            None => Err(SerializerError::ShapeMismatch),
        },
    }
}

/// Encoding each of `ds` under shape `e`, one after the other.
pub open spec fn spec_encode_repeat(e: Shape, ds: Seq<Datum>) -> Result<Seq<u8>, SerializerError>
    decreases e, ds.len(),
{
    if ds.len() == 0 {
        Ok(Seq::empty())
    } else {
        match spec_encode_repeat(e, ds.drop_last()) {
            Ok(bs) => match spec_encode(e, ds.last()) {
                Ok(cs) => Ok(bs + cs),
                Err(x) => Err(x),
            },
            Err(x) => Err(x),
        }
    }
}

/// Encoding `ds[i]` under `fs[i]` for each field in order; the two have one length.
pub open spec fn spec_encode_fields(fs: Seq<Shape>, ds: Seq<Datum>) -> Result<
    Seq<u8>,
    SerializerError,
>
    decreases fs, 0nat,
{
    if fs.len() == 0 || ds.len() == 0 {
        Ok(Seq::empty())
    } else {
        match spec_encode_fields(fs.drop_last(), ds.drop_last()) {
            Ok(bs) => match spec_encode(fs.last(), ds.last()) {
                Ok(cs) => Ok(bs + cs),
                Err(x) => Err(x),
            },
            Err(x) => Err(x),
        }
    }
}

pub proof fn lemma_encode_repeat_err(e: Shape, ds: Seq<Datum>, i: int)
    requires
        0 <= i <= ds.len(),
        spec_encode_repeat(e, ds.take(i)) is Err,
    ensures
        spec_encode_repeat(e, ds) == spec_encode_repeat(e, ds.take(i)),
    decreases ds.len(),
{
    if i < ds.len() {
        assert(ds.drop_last().take(i) =~= ds.take(i));
        lemma_encode_repeat_err(e, ds.drop_last(), i);
    } else {
        assert(ds.take(i) =~= ds);
    }
}

pub proof fn lemma_encode_fields_err(fs: Seq<Shape>, ds: Seq<Datum>, i: int)
    requires
        fs.len() == ds.len(),
        0 <= i <= ds.len(),
        spec_encode_fields(fs.take(i), ds.take(i)) is Err,
    ensures
        spec_encode_fields(fs, ds) == spec_encode_fields(fs.take(i), ds.take(i)),
    decreases ds.len(),
{
    if i < ds.len() {
        assert(ds.drop_last().take(i) =~= ds.take(i));
        assert(fs.drop_last().take(i) =~= fs.take(i));
        lemma_encode_fields_err(fs.drop_last(), ds.drop_last(), i);
    } else {
        assert(ds.take(i) =~= ds);
        assert(fs.take(i) =~= fs);
    }
}

/// Writes values into a growing byte buffer, in the layout `Deserializer` reads.
pub struct Serializer {
    pub w: Vec<u8>,
}

impl Serializer {
    /// A serializer with an empty buffer.
    pub fn new() -> (r: Self)
        ensures
            r.w@ == Seq::<u8>::empty(),
    {
        Serializer { w: Vec::new() }
    }

    /// Appends the encoding of `value` under `shape`. On failure the buffer may
    /// hold part of it.
    pub fn encode(&mut self, shape: &Shape, value: &Value) -> (r: Result<(), SerializerError>)
        ensures
            match spec_encode(*shape, value@) {
                Ok(bs) => r is Ok && final(self).w@ == old(self).w@ + bs,
                Err(x) => r == Err::<(), SerializerError>(x),
            },
        decreases shape, 0nat,
    {
        match shape {
            Shape::Unsupported(k) => Err(SerializerError::UnsupportedType(*k)),
            Shape::Unit => match value {
                Value::Unit => {
                    assert(self.w@ + Seq::<u8>::empty() =~= self.w@);
                    Ok(())
                },
                _ => Err(SerializerError::ShapeMismatch),
            },
            Shape::Str => match value {
                Value::Str(s) => self.encode_str(s),
                _ => Err(SerializerError::ShapeMismatch),
            },
            Shape::Array(n, e) => match value {
                Value::List(vs) => {
                    proof {
                        lemma_values_view_len(vs@);
                    }
                    if vs.len() != *n {
                        return Err(SerializerError::ShapeMismatch);
                    }
                    self.encode_repeat(e, vs)
                },
                _ => Err(SerializerError::ShapeMismatch),
            },
            Shape::Sequence(e) => match value {
                Value::List(vs) => {
                    proof {
                        lemma_values_view_len(vs@);
                    }
                    if vs.len() > 0xffff_ffff {
                        return Err(SerializerError::TooLarge);
                    }
                    let ghost w0 = self.w@;
                    write_le(&mut self.w, vs.len() as u64, 4);
                    let ghost w1 = self.w@;
                    let r = self.encode_repeat(e, vs);
                    proof {
                        if let Ok(bs) = spec_encode_repeat(**e, values_view(vs@)) {
                            assert(self.w@ =~= w0 + (le_bytes(vs@.len() as nat, 4) + bs));
                        }
                    }
                    r
                },
                _ => Err(SerializerError::ShapeMismatch),
            },
            Shape::Composite(fs) => match value {
                Value::List(vs) => {
                    proof {
                        lemma_values_view_len(vs@);
                    }
                    if vs.len() != fs.len() {
                        return Err(SerializerError::ShapeMismatch);
                    }
                    self.encode_fields(fs, vs)
                },
                _ => Err(SerializerError::ShapeMismatch),
            },
            _ => self.encode_prim(shape, value),
        }
    }

    fn encode_prim(&mut self, shape: &Shape, value: &Value) -> (r: Result<(), SerializerError>)
        requires
            prim_width(*shape) > 0,
        ensures
            match prim_raw(*shape, value@) {
                Some(raw) => r is Ok && final(self).w@ == old(self).w@ + le_bytes(
                    raw,
                    prim_width(*shape),
                ),
                None => r == Err::<(), SerializerError>(SerializerError::ShapeMismatch),
            },
    {
        match (shape, value) {
            (Shape::Bool, Value::Bool(b)) => {
                write_le(&mut self.w, if *b { 1 } else { 0 }, 1);
                Ok(())
            },
            (Shape::I8, Value::I8(x)) => {
                write_le(&mut self.w, (*x as u8) as u64, 1);
                Ok(())
            },
            (Shape::I16, Value::I16(x)) => {
                write_le(&mut self.w, (*x as u16) as u64, 2);
                Ok(())
            },
            (Shape::I32, Value::I32(x)) => {
                write_le(&mut self.w, (*x as u32) as u64, 4);
                Ok(())
            },
            (Shape::I64, Value::I64(x)) => {
                write_le(&mut self.w, *x as u64, 8);
                Ok(())
            },
            (Shape::U8, Value::U8(x)) => {
                write_le(&mut self.w, *x as u64, 1);
                Ok(())
            },
            (Shape::U16, Value::U16(x)) => {
                write_le(&mut self.w, *x as u64, 2);
                Ok(())
            },
            (Shape::U32, Value::U32(x)) => {
                write_le(&mut self.w, *x as u64, 4);
                Ok(())
            },
            (Shape::U64, Value::U64(x)) => {
                write_le(&mut self.w, *x, 8);
                Ok(())
            },
            (Shape::F32, Value::F32(x)) => {
                write_le(&mut self.w, *x as u64, 4);
                Ok(())
            },
            (Shape::F64, Value::F64(x)) => {
                write_le(&mut self.w, *x, 8);
                Ok(())
            },
            _ => Err(SerializerError::ShapeMismatch),
        }
    }

    fn encode_str(&mut self, s: &String) -> (r: Result<(), SerializerError>)
        ensures
            if encode_utf8(s@).len() + 1 > u32_max() {
                r == Err::<(), SerializerError>(SerializerError::TooLarge)
            } else {
                r is Ok && final(self).w@ == old(self).w@ + str_field_bytes(s@)
            },
    {
        let bytes = s.as_str().as_bytes();
        if bytes.len() >= 0xffff_ffff {
            return Err(SerializerError::TooLarge);
        }
        let ghost w0 = self.w@;
        if bytes.len() == 0 {
            write_le(&mut self.w, 0, 4);
            return Ok(());
        }
        write_le(&mut self.w, (bytes.len() + 1) as u64, 4);
        let ghost w1 = self.w@;
        let mut i: usize = 0;
        while i < bytes.len()
            invariant
                i <= bytes@.len(),
                self.w@ == w1 + bytes@.take(i as int),
            decreases bytes@.len() - i,
        {
            self.w.push(bytes[i]);
            assert(bytes@.take(i + 1) =~= bytes@.take(i as int).push(bytes@[i as int]));
            assert(self.w@ =~= w1 + bytes@.take(i + 1));
            i = i + 1;
        }
        self.w.push(0);
        assert(bytes@.take(bytes@.len() as int) =~= bytes@);
        assert(self.w@ =~= w0 + str_field_bytes(s@));
        Ok(())
    }

    fn encode_repeat(&mut self, e: &Shape, vs: &Vec<Value>) -> (r: Result<(), SerializerError>)
        ensures
            match spec_encode_repeat(*e, values_view(vs@)) {
                Ok(bs) => r is Ok && final(self).w@ == old(self).w@ + bs,
                Err(x) => r == Err::<(), SerializerError>(x),
            },
        decreases e, 1nat,
    {
        let ghost w0 = self.w@;
        let ghost ds = values_view(vs@);
        proof {
            lemma_values_view_len(vs@);
        }
        let mut i: usize = 0;
        while i < vs.len()
            invariant
                i <= vs@.len(),
                ds == values_view(vs@),
                ds.len() == vs@.len(),
                spec_encode_repeat(*e, ds.take(i as int)) matches Ok(bs) && self.w@ == w0 + bs,
            decreases vs@.len() - i,
        {
            let ghost before = self.w@;
            proof {
                assert(ds.take(i + 1).drop_last() =~= ds.take(i as int));
                lemma_view_at(vs@, i as int);
            }
            match self.encode(e, &vs[i]) {
                Ok(()) => {
                    proof {
                        let bs = spec_encode_repeat(*e, ds.take(i as int)).unwrap();
                        let cs = spec_encode(*e, ds[i as int]).unwrap();
                        assert(self.w@ =~= w0 + (bs + cs));
                    }
                },
                Err(x) => {
                    proof {
                        lemma_encode_repeat_err(*e, ds, i + 1);
                    }
                    return Err(x);
                },
            }
            i = i + 1;
        }
        assert(ds.take(ds.len() as int) =~= ds);
        Ok(())
    }

    fn encode_fields(&mut self, fs: &Vec<Shape>, vs: &Vec<Value>) -> (r: Result<
        (),
        SerializerError,
    >)
        requires
            fs@.len() == vs@.len(),
        ensures
            match spec_encode_fields(fs@, values_view(vs@)) {
                Ok(bs) => r is Ok && final(self).w@ == old(self).w@ + bs,
                Err(x) => r == Err::<(), SerializerError>(x),
            },
        decreases fs, 1nat,
    {
        let ghost w0 = self.w@;
        let ghost ds = values_view(vs@);
        proof {
            lemma_values_view_len(vs@);
        }
        let mut i: usize = 0;
        while i < vs.len()
            invariant
                i <= vs@.len(),
                fs@.len() == vs@.len(),
                ds == values_view(vs@),
                ds.len() == vs@.len(),
                spec_encode_fields(fs@.take(i as int), ds.take(i as int)) matches Ok(bs)
                    && self.w@ == w0 + bs,
            decreases vs@.len() - i,
        {
            proof {
                assert(ds.take(i + 1).drop_last() =~= ds.take(i as int));
                assert(fs@.take(i + 1).drop_last() =~= fs@.take(i as int));
                lemma_view_at(vs@, i as int);
            }
            match self.encode(&fs[i], &vs[i]) {
                Ok(()) => {
                    proof {
                        let bs = spec_encode_fields(fs@.take(i as int), ds.take(i as int)).unwrap();
                        let cs = spec_encode(fs@[i as int], ds[i as int]).unwrap();
                        assert(self.w@ =~= w0 + (bs + cs));
                    }
                },
                Err(x) => {
                    proof {
                        lemma_encode_fields_err(fs@, ds, i + 1);
                    }
                    return Err(x);
                },
            }
            i = i + 1;
        }
        assert(ds.take(ds.len() as int) =~= ds);
        assert(fs@.take(fs@.len() as int) =~= fs@);
        Ok(())
    }
}

/// The view of a list holds the view of each element at its index.
pub proof fn lemma_view_at(vs: Seq<Value>, i: int)
    requires
        0 <= i < vs.len(),
    ensures
        values_view(vs).len() == vs.len(),
        values_view(vs)[i] == vs[i]@,
    decreases vs.len(),
{
    lemma_values_view_len(vs);
    if i < vs.len() - 1 {
        lemma_view_at(vs.drop_last(), i);
    }
}

} // verus!
