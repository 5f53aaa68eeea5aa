//! Properties that tie the decoder, the encoder and the record-set framing together.
use vstd::prelude::*;
use vstd::utf8::{
    decode_utf8, decode_utf8_encode_utf8, encode_utf8, encode_utf8_decode_utf8,
    encode_utf8_valid_utf8,
};

use crate::bytes::{
    le_bytes, le_value, lemma_le_bytes_len, lemma_le_bytes_of_value, lemma_le_value_bound,
    lemma_le_value_of_bytes, lemma_pow256_values, pow256,
};
use crate::database::{
    spec_decode_database, spec_decode_records, spec_encode_database, spec_encode_records,
};
use crate::de::{
    lemma_decode_within, lemma_fields_within, lemma_repeat_within, spec_decode,
    spec_decode_fields, spec_decode_repeat, spec_decode_str,
};
use crate::ser::{spec_encode, spec_encode_fields, spec_encode_repeat, u32_max};
use crate::dsarcfl::{
    archive_bytes, entry_at, fits, small_magic, table_bytes, table_record, EntryInfo, FileRecord,
    WriterView,
};
use crate::shape::{count_at, prim_datum, prim_raw, prim_width, str_field_bytes, Datum, Shape};

verus! {

/// Bytes that a re-encode reproduces: every bool byte is 0 or 1, and no string
/// field spells the empty string as a lone NUL (length 1).
pub open spec fn canonical(s: Shape, b: Seq<u8>) -> bool
    decreases s, 0nat,
{
    match s {
        Shape::Bool => b.len() >= 1 ==> b[0] <= 1,
        Shape::Str => b.len() >= 4 ==> count_at(b) != 1,
        Shape::Array(n, e) => canonical_repeat(*e, n as nat, b),
        Shape::Sequence(e) => b.len() >= 4 ==> canonical_repeat(*e, count_at(b), b.skip(4)),
        Shape::Composite(fs) => canonical_fields(fs@, b),
        _ => true,
    }
}

pub open spec fn canonical_repeat(e: Shape, count: nat, b: Seq<u8>) -> bool
    decreases e, count,
{
    count == 0 || (canonical_repeat(e, (count - 1) as nat, b) && match spec_decode_repeat(
        e,
        (count - 1) as nat,
        b,
    ) {
        Ok((_, k)) => canonical(e, b.skip(k as int)),
        Err(_) => true,
    })
}

pub open spec fn canonical_fields(fs: Seq<Shape>, b: Seq<u8>) -> bool
    decreases fs, 0nat,
{
    fs.len() == 0 || (canonical_fields(fs.drop_last(), b) && match spec_decode_fields(
        fs.drop_last(),
        b,
    ) {
        Ok((_, k)) => canonical(fs.last(), b.skip(k as int)),
        Err(_) => true,
    })
}

/// The bytes every value of `s` occupies, where that does not depend on the value.
pub open spec fn fixed_size(s: Shape) -> Option<nat>
    decreases s, 0nat,
{
    match s {
        Shape::Unit => Some(0nat),
        Shape::Str | Shape::Sequence(_) | Shape::Unsupported(_) => None,
        Shape::Array(n, e) => match fixed_size(*e) {
            Some(k) => Some(n as nat * k),
            None => None,
        },
        Shape::Composite(fs) => fixed_size_fields(fs@),
        _ => Some(prim_width(s)),
    }
}

pub open spec fn fixed_size_fields(fs: Seq<Shape>) -> Option<nat>
    decreases fs, 0nat,
{
    if fs.len() == 0 {
        Some(0nat)
    } else {
        match (fixed_size_fields(fs.drop_last()), fixed_size(fs.last())) {
            (Some(a), Some(c)) => Some(a + c),
            _ => None,
        }
    }
}

proof fn lemma_prim_encode_decode(s: Shape, d: Datum)
    requires
        prim_width(s) > 0,
        prim_raw(s, d) is Some,
    ensures
        prim_raw(s, d).unwrap() < pow256(prim_width(s)),
        prim_datum(s, prim_raw(s, d).unwrap()) == d,
{
    lemma_pow256_values();
    match d {
        Datum::I8(x) => {
            assert(((x as u8) as i8) == x) by (bit_vector);
        },
        Datum::I16(x) => {
            assert(((x as u16) as i16) == x) by (bit_vector);
        },
        Datum::I32(x) => {
            assert(((x as u32) as i32) == x) by (bit_vector);
        },
        Datum::I64(x) => {
            assert(((x as u64) as i64) == x) by (bit_vector);
        },
        _ => {},
    }
}

proof fn lemma_prim_decode_encode(s: Shape, raw: nat)
    requires
        prim_width(s) > 0,
        raw < pow256(prim_width(s)),
        s is Bool ==> raw <= 1,
    ensures
        prim_raw(s, prim_datum(s, raw)) == Some(raw),
{
    lemma_pow256_values();
    match s {
        Shape::I8 => {
            let y = raw as u8;
            assert(((y as i8) as u8) == y) by (bit_vector);
        },
        Shape::I16 => {
            let y = raw as u16;
            assert(((y as i16) as u16) == y) by (bit_vector);
        },
        Shape::I32 => {
            let y = raw as u32;
            assert(((y as i32) as u32) == y) by (bit_vector);
        },
        Shape::I64 => {
            let y = raw as u64;
            assert(((y as i64) as u64) == y) by (bit_vector);
        },
        _ => {},
    }
}

proof fn lemma_str_encode_decode(cs: Seq<char>, rest: Seq<u8>)
    requires
        encode_utf8(cs).len() + 1 <= u32_max(),
    ensures
        spec_decode_str(str_field_bytes(cs) + rest) == Ok::<(Datum, nat), crate::de::DeserializerError>(
            (Datum::Str(cs), str_field_bytes(cs).len()),
        ),
{
    let u = encode_utf8(cs);
    let all = str_field_bytes(cs) + rest;
    lemma_pow256_values();
    encode_utf8_decode_utf8(cs);
    encode_utf8_valid_utf8(cs);
    if u.len() == 0 {
        lemma_le_bytes_len(0, 4);
        lemma_le_value_of_bytes(0, 4);
        assert(all.take(4) =~= le_bytes(0, 4));
        assert(decode_utf8(Seq::<u8>::empty()) =~= Seq::<char>::empty()) by {
            assert(u =~= Seq::<u8>::empty());
        }
        assert(cs =~= Seq::<char>::empty());
    } else {
        let l = u.len() + 1;
        lemma_le_bytes_len(l, 4);
        lemma_le_value_of_bytes(l, 4);
        assert(all.take(4) =~= le_bytes(l, 4));
        assert(all[4 + l - 1] == 0u8);
        assert(all.subrange(4, 4 + l - 1) =~= u);
    }
}

/// Encoding then decoding gives back the value, and consumes exactly the bytes
/// written, whatever follows them.
pub proof fn lemma_encode_then_decode(s: Shape, d: Datum, rest: Seq<u8>)
    requires
        spec_encode(s, d) is Ok,
    ensures
        spec_decode(s, spec_encode(s, d).unwrap() + rest) == Ok::<
            (Datum, nat),
            crate::de::DeserializerError,
        >((d, spec_encode(s, d).unwrap().len())),
    decreases s, 0nat,
{
    let bs = spec_encode(s, d).unwrap();
    match s {
        Shape::Unit => {
            assert(bs + rest =~= rest);
        },
        Shape::Str => {
            if let Datum::Str(cs) = d {
                lemma_str_encode_decode(cs, rest);
            }
        },
        Shape::Array(n, e) => {
            if let Datum::List(ds) = d {
                lemma_repeat_encode_then_decode(*e, ds, rest);
            }
        },
        Shape::Sequence(e) => {
            if let Datum::List(ds) = d {
                let body = spec_encode_repeat(*e, ds).unwrap();
                lemma_pow256_values();
                lemma_le_bytes_len(ds.len(), 4);
                lemma_le_value_of_bytes(ds.len(), 4);
                assert((bs + rest).take(4) =~= le_bytes(ds.len(), 4));
                assert((bs + rest).skip(4) =~= body + rest);
                lemma_repeat_encode_then_decode(*e, ds, rest);
            }
        },
        Shape::Composite(fs) => {
            if let Datum::List(ds) = d {
                lemma_fields_encode_then_decode(fs@, ds, rest);
            }
        },
        Shape::Unsupported(_) => {},
        _ => {
            lemma_prim_encode_decode(s, d);
            let raw = prim_raw(s, d).unwrap();
            lemma_le_bytes_len(raw, prim_width(s));
            lemma_le_value_of_bytes(raw, prim_width(s));
            assert((bs + rest).take(prim_width(s) as int) =~= bs);
        },
    }
}

pub proof fn lemma_repeat_encode_then_decode(e: Shape, ds: Seq<Datum>, rest: Seq<u8>)
    requires
        spec_encode_repeat(e, ds) is Ok,
    ensures
        spec_decode_repeat(e, ds.len(), spec_encode_repeat(e, ds).unwrap() + rest) == Ok::<
            (Seq<Datum>, nat),
            crate::de::DeserializerError,
        >((ds, spec_encode_repeat(e, ds).unwrap().len())),
    decreases e, ds.len(),
{
    if ds.len() == 0 {
        assert(ds =~= Seq::<Datum>::empty());
    } else {
        let front = spec_encode_repeat(e, ds.drop_last()).unwrap();
        let cs = spec_encode(e, ds.last()).unwrap();
        let all = front + cs + rest;
        assert(spec_encode_repeat(e, ds).unwrap() + rest =~= front + (cs + rest));
        lemma_repeat_encode_then_decode(e, ds.drop_last(), cs + rest);
        assert(all.skip(front.len() as int) =~= cs + rest);
        lemma_encode_then_decode(e, ds.last(), rest);
        assert(ds.drop_last().push(ds.last()) =~= ds);
    }
}

pub proof fn lemma_fields_encode_then_decode(fs: Seq<Shape>, ds: Seq<Datum>, rest: Seq<u8>)
    requires
        fs.len() == ds.len(),
        spec_encode_fields(fs, ds) is Ok,
    ensures
        spec_decode_fields(fs, spec_encode_fields(fs, ds).unwrap() + rest) == Ok::<
            (Seq<Datum>, nat),
            crate::de::DeserializerError,
        >((ds, spec_encode_fields(fs, ds).unwrap().len())),
    decreases fs, 0nat,
{
    if ds.len() == 0 {
        assert(ds =~= Seq::<Datum>::empty());
    } else {
        let front = spec_encode_fields(fs.drop_last(), ds.drop_last()).unwrap();
        let cs = spec_encode(fs.last(), ds.last()).unwrap();
        let all = front + cs + rest;
        assert(spec_encode_fields(fs, ds).unwrap() + rest =~= front + (cs + rest));
        lemma_fields_encode_then_decode(fs.drop_last(), ds.drop_last(), cs + rest);
        assert(all.skip(front.len() as int) =~= cs + rest);
        lemma_encode_then_decode(fs.last(), ds.last(), rest);
        assert(ds.drop_last().push(ds.last()) =~= ds);
    }
}

/// A string written as a field reads back as the same string, the empty one
/// included (which is written as four zero bytes and nothing else).
pub proof fn lemma_string_round_trip(cs: Seq<char>)
    requires
        encode_utf8(cs).len() + 1 <= u32_max(),
    ensures
        spec_encode(Shape::Str, Datum::Str(cs)) == Ok::<Seq<u8>, crate::ser::SerializerError>(
            str_field_bytes(cs),
        ),
        spec_decode(Shape::Str, str_field_bytes(cs)) == Ok::<
            (Datum, nat),
            crate::de::DeserializerError,
        >((Datum::Str(cs), str_field_bytes(cs).len())),
        cs.len() == 0 ==> str_field_bytes(cs) == seq![0u8, 0u8, 0u8, 0u8],
{
    lemma_encode_then_decode(Shape::Str, Datum::Str(cs), Seq::empty());
    assert(str_field_bytes(cs) + Seq::<u8>::empty() =~= str_field_bytes(cs));
    if cs.len() == 0 {
        assert(encode_utf8(cs) =~= Seq::<u8>::empty());
        reveal_with_fuel(le_bytes, 5);
        assert(le_bytes(0, 4) =~= seq![0u8, 0u8, 0u8, 0u8]);
    }
}

/// Re-encoding what was decoded from canonical bytes gives exactly the bytes
/// that the decode consumed.
pub proof fn lemma_decode_then_encode(s: Shape, b: Seq<u8>)
    requires
        spec_decode(s, b) is Ok,
        canonical(s, b),
    ensures
        spec_encode(s, spec_decode(s, b).unwrap().0) == Ok::<
            Seq<u8>,
            crate::ser::SerializerError,
        >(b.take(spec_decode(s, b).unwrap().1 as int)),
    decreases s, 0nat,
{
    let (d, n) = spec_decode(s, b).unwrap();
    lemma_decode_within(s, b);
    match s {
        Shape::Unit => {
            assert(b.take(0) =~= Seq::<u8>::empty());
        },
        Shape::Str => {
            let l = count_at(b);
            lemma_le_bytes_of_value(b.take(4));
            lemma_le_value_bound(b.take(4));
            lemma_pow256_values();
            if l == 0 {
                assert(encode_utf8(Seq::<char>::empty()) =~= Seq::<u8>::empty());
                assert(b.take(4) =~= le_bytes(0, 4));
            } else {
                let u = b.subrange(4, 4 + l - 1);
                decode_utf8_encode_utf8(u);
                assert(encode_utf8(decode_utf8(u)) == u);
                assert(u.len() > 0);
                assert(b.take(4int + l) =~= b.take(4) + u + seq![0u8]);
            }
        },
        Shape::Array(cnt, e) => {
            lemma_repeat_within(*e, cnt as nat, b);
            lemma_repeat_decode_then_encode(*e, cnt as nat, b);
        },
        Shape::Sequence(e) => {
            let c = count_at(b);
            let rb = b.skip(4);
            lemma_repeat_within(*e, c, rb);
            lemma_repeat_decode_then_encode(*e, c, rb);
            lemma_le_bytes_of_value(b.take(4));
            lemma_le_value_bound(b.take(4));
            lemma_pow256_values();
            let k = spec_decode_repeat(*e, c, rb).unwrap().1;
            assert(b.take(n as int) =~= b.take(4) + rb.take(k as int));
        },
        Shape::Composite(fs) => {
            lemma_fields_within(fs@, b);
            lemma_fields_decode_then_encode(fs@, b);
        },
        Shape::Unsupported(_) => {},
        _ => {
            let w = prim_width(s);
            let raw = le_value(b.take(w as int));
            lemma_le_value_bound(b.take(w as int));
            if s is Bool {
                reveal_with_fuel(le_value, 2);
                assert(b.take(1).drop_first() =~= Seq::<u8>::empty());
            }
            lemma_prim_decode_encode(s, raw);
            lemma_le_bytes_of_value(b.take(w as int));
        },
    }
}

pub proof fn lemma_repeat_decode_then_encode(e: Shape, count: nat, b: Seq<u8>)
    requires
        spec_decode_repeat(e, count, b) is Ok,
        canonical_repeat(e, count, b),
    ensures
        spec_encode_repeat(e, spec_decode_repeat(e, count, b).unwrap().0) == Ok::<
            Seq<u8>,
            crate::ser::SerializerError,
        >(b.take(spec_decode_repeat(e, count, b).unwrap().1 as int)),
    decreases e, count,
{
    let (ds, n) = spec_decode_repeat(e, count, b).unwrap();
    if count == 0 {
        assert(b.take(0) =~= Seq::<u8>::empty());
    } else {
        let (ds0, k) = spec_decode_repeat(e, (count - 1) as nat, b).unwrap();
        lemma_repeat_within(e, (count - 1) as nat, b);
        lemma_repeat_decode_then_encode(e, (count - 1) as nat, b);
        let tail = b.skip(k as int);
        lemma_decode_within(e, tail);
        lemma_decode_then_encode(e, tail);
        let m = spec_decode(e, tail).unwrap().1;
        assert(ds.drop_last() =~= ds0);
        assert(b.take(n as int) =~= b.take(k as int) + tail.take(m as int));
    }
}

pub proof fn lemma_fields_decode_then_encode(fs: Seq<Shape>, b: Seq<u8>)
    requires
        spec_decode_fields(fs, b) is Ok,
        canonical_fields(fs, b),
    ensures
        spec_encode_fields(fs, spec_decode_fields(fs, b).unwrap().0) == Ok::<
            Seq<u8>,
            crate::ser::SerializerError,
        >(b.take(spec_decode_fields(fs, b).unwrap().1 as int)),
    decreases fs, 0nat,
{
    let (ds, n) = spec_decode_fields(fs, b).unwrap();
    lemma_fields_within(fs, b);
    if fs.len() == 0 {
        assert(b.take(0) =~= Seq::<u8>::empty());
    } else {
        let (ds0, k) = spec_decode_fields(fs.drop_last(), b).unwrap();
        lemma_fields_within(fs.drop_last(), b);
        lemma_fields_decode_then_encode(fs.drop_last(), b);
        let tail = b.skip(k as int);
        lemma_decode_within(fs.last(), tail);
        lemma_decode_then_encode(fs.last(), tail);
        let m = spec_decode(fs.last(), tail).unwrap().1;
        assert(ds.drop_last() =~= ds0);
        assert(b.take(n as int) =~= b.take(k as int) + tail.take(m as int));
    }
}


pub proof fn lemma_records_round_trip(s: Shape, ds: Seq<Datum>, rest: Seq<u8>)
    requires
        spec_encode_records(s, ds) is Ok,
    ensures
        spec_decode_records(s, spec_encode_records(s, ds).unwrap() + rest, ds.len()) == Ok::<
            (Seq<Datum>, nat),
            crate::de::DeserializerError,
        >((ds, spec_encode_records(s, ds).unwrap().len())),
    decreases ds.len(),
{
    if ds.len() == 0 {
        assert(ds =~= Seq::<Datum>::empty());
    } else {
        let front = spec_encode_records(s, ds.drop_last()).unwrap();
        let cs = spec_encode(s, ds.last()).unwrap();
        let frame = le_bytes(cs.len(), 4) + cs;
        let all = front + frame + rest;
        let k = front.len();
        assert(spec_encode_records(s, ds).unwrap() + rest =~= front + (frame + rest));
        lemma_records_round_trip(s, ds.drop_last(), frame + rest);
        lemma_pow256_values();
        lemma_le_bytes_len(cs.len(), 4);
        lemma_le_value_of_bytes(cs.len(), 4);
        assert(all.subrange(k as int, k + 4int) =~= le_bytes(cs.len(), 4));
        assert(all.subrange(k + 4int, k + 4int + cs.len()) =~= cs + Seq::<u8>::empty());
        lemma_encode_then_decode(s, ds.last(), Seq::empty());
        assert(ds.drop_last().push(ds.last()) =~= ds);
        assert(spec_encode_records(s, ds).unwrap() =~= front + frame);
    }
}

/// Decoding an encoded record set gives back the same records, and the count at
/// its head is the number of records that were written.
pub proof fn lemma_database_round_trip(s: Shape, ds: Seq<Datum>)
    requires
        spec_encode_database(s, ds) is Ok,
    ensures
        spec_decode_database(s, spec_encode_database(s, ds).unwrap()) == Ok::<
            Seq<Datum>,
            crate::de::DeserializerError,
        >(ds),
        count_at(spec_encode_database(s, ds).unwrap()) == ds.len(),
{
    let bs = spec_encode_database(s, ds).unwrap();
    let body = spec_encode_records(s, ds).unwrap();
    lemma_pow256_values();
    lemma_le_bytes_len(ds.len(), 4);
    lemma_le_value_of_bytes(ds.len(), 4);
    assert(bs.take(4) =~= le_bytes(ds.len(), 4));
    assert(bs.skip(4) =~= body + Seq::<u8>::empty());
    lemma_records_round_trip(s, ds, Seq::empty());
}

/// A shape of fixed size consumes exactly that many bytes, whatever they hold.
pub proof fn lemma_fixed_size_consumed(s: Shape, b: Seq<u8>)
    requires
        fixed_size(s) is Some,
        spec_decode(s, b) is Ok,
    ensures
        spec_decode(s, b).unwrap().1 == fixed_size(s).unwrap(),
    decreases s, 0nat,
{
    match s {
        Shape::Array(n, e) => lemma_repeat_fixed_size(*e, n as nat, b),
        Shape::Composite(fs) => lemma_fields_fixed_size(fs@, b),
        _ => {},
    }
}

pub proof fn lemma_repeat_fixed_size(e: Shape, count: nat, b: Seq<u8>)
    requires
        fixed_size(e) is Some,
        spec_decode_repeat(e, count, b) is Ok,
    ensures
        spec_decode_repeat(e, count, b).unwrap().1 == count * fixed_size(e).unwrap(),
    decreases e, count,
{
    if count > 0 {
        lemma_repeat_fixed_size(e, (count - 1) as nat, b);
        let k = spec_decode_repeat(e, (count - 1) as nat, b).unwrap().1;
        lemma_fixed_size_consumed(e, b.skip(k as int));
        let z = fixed_size(e).unwrap();
        assert(((count - 1) as nat) * z + z == count * z) by (nonlinear_arith)
            requires
                count > 0,
        ;
    } else {
        assert(0 * fixed_size(e).unwrap() == 0);
    }
}

pub proof fn lemma_fields_fixed_size(fs: Seq<Shape>, b: Seq<u8>)
    requires
        fixed_size_fields(fs) is Some,
        spec_decode_fields(fs, b) is Ok,
    ensures
        spec_decode_fields(fs, b).unwrap().1 == fixed_size_fields(fs).unwrap(),
    decreases fs, 0nat,
{
    if fs.len() > 0 {
        lemma_fields_fixed_size(fs.drop_last(), b);
        let k = spec_decode_fields(fs.drop_last(), b).unwrap().1;
        lemma_fixed_size_consumed(fs.last(), b.skip(k as int));
    }
}

/// A fixed array of `n` elements of fixed size `k` consumes `n * k` bytes,
/// whatever they hold.
pub proof fn lemma_array_consumes(n: usize, e: Box<Shape>, b: Seq<u8>)
    requires
        fixed_size(*e) is Some,
        spec_decode(Shape::Array(n, e), b) is Ok,
    ensures
        spec_decode(Shape::Array(n, e), b).unwrap().1 == n * fixed_size(*e).unwrap(),
{
    lemma_repeat_fixed_size(*e, n as nat, b);
}

/// A sequence of elements of fixed size `k` consumes its four-byte count plus
/// `count * k` bytes.
pub proof fn lemma_sequence_consumes(e: Box<Shape>, b: Seq<u8>)
    requires
        fixed_size(*e) is Some,
        spec_decode(Shape::Sequence(e), b) is Ok,
    ensures
        b.len() >= 4,
        spec_decode(Shape::Sequence(e), b).unwrap().1 == 4 + count_at(b) * fixed_size(
            *e,
        ).unwrap(),
{
    lemma_repeat_fixed_size(*e, count_at(b), b.skip(4));
}

proof fn lemma_table_layout(files: Seq<FileRecord>, base: nat)
    requires
        forall|i: int| 0 <= i < files.len() ==> (#[trigger] files[i]).name_field.len() == 0x74,
    ensures
        table_bytes(files, base).len() == files.len() * 0x80,
        forall|i: int|
            0 <= i < files.len() ==> #[trigger] table_bytes(files, base).subrange(
                i * 0x80,
                i * 0x80 + 0x80,
            ) == table_record(files[i], base),
    decreases files.len(),
{
    if files.len() > 0 {
        let front = files.drop_last();
        lemma_table_layout(front, base);
        let last = files.last();
        lemma_le_bytes_len(last.len, 4);
        lemma_le_bytes_len(last.off + base, 4);
        lemma_le_bytes_len(0, 4);
        let t = table_bytes(files, base);
        let tf = table_bytes(front, base);
        assert(t == tf + table_record(last, base));
        assert(table_record(last, base).len() == 0x80);
        assert forall|i: int| 0 <= i < files.len() implies #[trigger] t.subrange(
            i * 0x80,
            i * 0x80 + 0x80,
        ) == table_record(files[i], base) by {
            if i < front.len() {
                assert(tf.subrange(i * 0x80, i * 0x80 + 0x80) == table_record(front[i], base));
                assert(i * 0x80 + 0x80 <= front.len() * 0x80) by (nonlinear_arith)
                    requires
                        i < front.len(),
                ;
                assert(t.subrange(i * 0x80, i * 0x80 + 0x80) =~= tf.subrange(
                    i * 0x80,
                    i * 0x80 + 0x80,
                ));
            } else {
                assert(i * 0x80 == front.len() * 0x80);
                assert(t.subrange(i * 0x80, i * 0x80 + 0x80) =~= table_record(last, base));
            }
        }
    }
}

/// An archive the writer produces opens: it starts with the magic and the
/// entry count, holds the whole table, and table record `i` gives back entry
/// `i` as it was added, with its offset counted from the archive's start.
pub proof fn lemma_written_archive_opens(v: WriterView)
    requires
        fits(v),
        forall|i: int| 0 <= i < v.files.len() ==> (#[trigger] v.files[i]).name_field.len() == 0x74,
    ensures
        archive_bytes(v).take(8) == small_magic(),
        le_value(archive_bytes(v).subrange(8, 12)) == v.files.len(),
        archive_bytes(v).len() >= 16 + v.files.len() * 0x80,
        forall|i: int|
            0 <= i < v.files.len() ==> #[trigger] entry_at(archive_bytes(v), i) == (EntryInfo {
                name_buf: v.files[i].name_field,
                size: v.files[i].len,
                offset: v.files[i].off + 16 + v.files.len() * 0x80,
            }),
{
    let n = v.files.len();
    let base = (16 + n * 0x80) as nat;
    let b = archive_bytes(v);
    let t = table_bytes(v.files, base);
    lemma_pow256_values();
    lemma_le_bytes_len(n, 4);
    lemma_le_bytes_len(0, 4);
    lemma_table_layout(v.files, base);
    let head = small_magic() + le_bytes(n, 4) + le_bytes(0, 4);
    assert(head.len() == 16);
    assert(b == head + t + v.buf);
    assert(b.take(8) =~= small_magic());
    assert(b.subrange(8, 12) =~= le_bytes(n, 4));
    lemma_le_value_of_bytes(n, 4);
    assert forall|i: int| 0 <= i < n implies #[trigger] entry_at(b, i) == (EntryInfo {
        name_buf: v.files[i].name_field,
        size: v.files[i].len,
        offset: v.files[i].off + 16 + n * 0x80,
    }) by {
        let f = v.files[i];
        let at = 16 + i * 0x80;
        assert(i * 0x80 + 0x80 <= n * 0x80) by (nonlinear_arith)
            requires
                i < n,
        ;
        let rec = table_record(f, base);
        assert(t.subrange(i * 0x80, i * 0x80 + 0x80) == rec);
        assert(b.subrange(at, at + 0x80) =~= rec);
        lemma_le_bytes_len(f.len, 4);
        lemma_le_bytes_len(f.off + base, 4);
        assert(rec.subrange(0, 0x74) =~= f.name_field);
        assert(rec.subrange(0x74, 0x78) =~= le_bytes(f.len, 4));
        assert(rec.subrange(0x78, 0x7c) =~= le_bytes(f.off + base, 4));
        assert(b.subrange(at, at + 0x74) =~= rec.subrange(0, 0x74));
        assert(b.subrange(at + 0x74, at + 0x78) =~= rec.subrange(0x74, 0x78));
        assert(b.subrange(at + 0x78, at + 0x7c) =~= rec.subrange(0x78, 0x7c));
        lemma_le_value_of_bytes(f.len, 4);
        lemma_le_value_of_bytes(f.off + base, 4);
    }
}

} // verus!
