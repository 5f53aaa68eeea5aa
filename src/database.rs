use vstd::prelude::*;

use crate::bytes::{
    le_bytes, le_value, lemma_le_bytes_len, lemma_le_value_bound, lemma_pow256_values, read_le,
    write_le,
};
use crate::de::{spec_decode, DeserializerError, Deserializer};
use crate::ser::{spec_encode, u32_max, SerializerError, Serializer};
use crate::utf8_eq::same_text;
use crate::shape::{
    count_at, lemma_values_view_len, lemma_values_view_push, values_view, Datum, Shape, Value,
};

verus! {

/// What every record kind exposes besides its fields.
pub trait DatabaseRecord {
    spec fn spec_id(&self) -> i32;

    spec fn spec_enum_name(&self) -> Seq<char>;

    /// The record's numeric identifier.
    fn database_id(&self) -> (r: i32)
        ensures
            r == self.spec_id(),
    ;

    /// The record's symbolic name; empty where the kind has none.
    fn database_enum_name(&self) -> (r: &str)
        ensures
            r@ == self.spec_enum_name(),
    ;
}

/// Decoding `count` framed records from the start of `b`: each is a `u32` size
/// and that many bytes, and the record is decoded from those bytes alone.
pub open spec fn spec_decode_records(s: Shape, b: Seq<u8>, count: nat) -> Result<
    (Seq<Datum>, nat),
    DeserializerError,
>
    decreases count,
{
    if count == 0 {
        Ok((Seq::empty(), 0nat))
    } else {
        match spec_decode_records(s, b, (count - 1) as nat) {
            Ok((ds, k)) => if b.len() < k + 4 {
                Err(DeserializerError::UnexpectedEof)
            } else {
                let size = le_value(b.subrange(k as int, k + 4int));
                if b.len() < k + 4 + size {
                    Err(DeserializerError::UnexpectedEof)
                } else {
                    match spec_decode(s, b.subrange(k + 4int, k + 4int + size)) {
                        Ok((d, _)) => Ok((ds.push(d), k + 4 + size)),
                        Err(x) => Err(x),
                    }
                }
            },
            Err(x) => Err(x),
        }
    }
}

/// Decoding a record set: a `u32` count, then that many framed records.
pub open spec fn spec_decode_database(s: Shape, b: Seq<u8>) -> Result<
    Seq<Datum>,
    DeserializerError,
> {
    if b.len() < 4 {
        Err(DeserializerError::UnexpectedEof)
    } else {
        match spec_decode_records(s, b.skip(4), count_at(b)) {
            Ok((ds, _)) => Ok(ds),
            Err(x) => Err(x),
        }
    }
}

/// The framed records of `ds`, each a `u32` size and its encoding.
pub open spec fn spec_encode_records(s: Shape, ds: Seq<Datum>) -> Result<Seq<u8>, SerializerError>
    decreases ds.len(),
{
    if ds.len() == 0 {
        Ok(Seq::empty())
    } else {
        match spec_encode_records(s, ds.drop_last()) {
            Ok(bs) => match spec_encode(s, ds.last()) {
                Ok(cs) => if cs.len() > u32_max() {
                    Err(SerializerError::TooLarge)
                } else {
                    Ok(bs + le_bytes(cs.len(), 4) + cs)
                },
                Err(x) => Err(x),
            },
            Err(x) => Err(x),
        }
    }
}

/// Encoding a record set: the number of records, then each framed record.
pub open spec fn spec_encode_database(s: Shape, ds: Seq<Datum>) -> Result<
    Seq<u8>,
    SerializerError,
> {
    if ds.len() > u32_max() {
        Err(SerializerError::TooLarge)
    } else {
        match spec_encode_records(s, ds) {
            Ok(bs) => Ok(le_bytes(ds.len(), 4) + bs),
            Err(x) => Err(x),
        }
    }
}

pub proof fn lemma_records_err(s: Shape, b: Seq<u8>, i: nat, count: nat)
    requires
        i <= count,
        spec_decode_records(s, b, i) is Err,
    ensures
        spec_decode_records(s, b, count) == spec_decode_records(s, b, i),
    decreases count,
{
    if i < count {
        lemma_records_err(s, b, i, (count - 1) as nat);
    }
}

pub proof fn lemma_records_within(s: Shape, b: Seq<u8>, count: nat)
    ensures
        spec_decode_records(s, b, count) matches Ok((ds, k)) ==> k <= b.len() && ds.len()
            == count,
    decreases count,
{
    if count > 0 {
        lemma_records_within(s, b, (count - 1) as nat);
    }
}

pub proof fn lemma_encode_records_err(s: Shape, ds: Seq<Datum>, i: int)
    requires
        0 <= i <= ds.len(),
        spec_encode_records(s, ds.take(i)) is Err,
    ensures
        spec_encode_records(s, ds) == spec_encode_records(s, ds.take(i)),
    decreases ds.len(),
{
    if i < ds.len() {
        assert(ds.drop_last().take(i) =~= ds.take(i));
        lemma_encode_records_err(s, ds.drop_last(), i);
    } else {
        assert(ds.take(i) =~= ds);
    }
}

/// Decodes a record set: a `u32` count, then per record a `u32` size and that
/// many bytes, which are decoded under `shape`. The first failure ends the whole
/// decode, and no record is returned with it.
pub fn decode_database(data: &[u8], shape: &Shape) -> (r: Result<Vec<Value>, DeserializerError>)
    ensures
        match spec_decode_database(*shape, data@) {
            Ok(ds) => r matches Ok(vs) && values_view(vs@) == ds,
            Err(x) => r == Err::<Vec<Value>, DeserializerError>(x),
        },
{
    let n = data.len();
    if n < 4 {
        return Err(DeserializerError::UnexpectedEof);
    }
    let count = read_le(data, 0, 4);
    assert(data@.subrange(0, 4) =~= data@.take(4));
    let ghost b = data@.skip(4);
    let mut pos: usize = 4;
    let mut records: Vec<Value> = Vec::new();
    let mut i: u64 = 0;
    while i < count
        invariant
            n == data@.len(),
            4 <= pos <= n,
            b == data@.skip(4),
            i <= count,
            count == count_at(data@),
            spec_decode_records(*shape, b, i as nat) == Ok::<(Seq<Datum>, nat), DeserializerError>(
                (values_view(records@), (pos - 4) as nat),
            ),
        decreases count - i,
    {
        let ghost k = (pos - 4) as nat;
        let ghost rs0 = records@;
        if n - pos < 4 {
            proof {
                lemma_records_err(*shape, b, (i + 1) as nat, count as nat);
            }
            return Err(DeserializerError::UnexpectedEof);
        }
        let size = read_le(data, pos, 4);
        proof {
            assert(data@.subrange(pos as int, pos + 4) =~= b.subrange(k as int, k + 4int));
            lemma_le_value_bound(data@.subrange(pos as int, pos + 4));
            lemma_pow256_values();
        }
        let size = size as usize;
        if n - pos - 4 < size {
            proof {
                lemma_records_err(*shape, b, (i + 1) as nat, count as nat);
            }
            return Err(DeserializerError::UnexpectedEof);
        }
        let window = &data[pos + 4..pos + 4 + size];
        assert(window@ =~= b.subrange(k + 4int, k + 4int + size));
        let mut cursor = Deserializer::new(window);
        assert(cursor.remaining() =~= window@);
        match cursor.decode(shape) {
            Ok(v) => {
                records.push(v);
                proof {
                    lemma_values_view_push(rs0, v);
                }
            },
            Err(x) => {
                proof {
                    lemma_records_err(*shape, b, (i + 1) as nat, count as nat);
                }
                return Err(x);
            },
        }
        pos = pos + 4 + size;
        i = i + 1;
    }
    Ok(records)
}

/// Encodes a record set: the number of records, then each record framed by its
/// `u32` byte size. The count is written last, over a zero placeholder, once
/// every record has been written and counted.
pub fn encode_database(records: &Vec<Value>, shape: &Shape) -> (r: Result<
    Vec<u8>,
    SerializerError,
>)
    ensures
        match spec_encode_database(*shape, values_view(records@)) {
            Ok(bs) => r matches Ok(out) && out@ == bs,
            Err(x) => r == Err::<Vec<u8>, SerializerError>(x),
        },
{
    let ghost ds = values_view(records@);
    proof {
        lemma_values_view_len(records@);
    }
    if records.len() > 0xffff_ffff {
        return Err(SerializerError::TooLarge);
    }
    let mut out: Vec<u8> = Vec::new();
    write_le(&mut out, 0, 4);
    proof {
        lemma_le_bytes_len(0, 4);
    }
    let mut count: u32 = 0;
    let mut i: usize = 0;
    while i < records.len()
        invariant
            i <= records@.len() <= u32_max(),
            ds == values_view(records@),
            ds.len() == records@.len(),
            count as nat == i,
            out@.len() >= 4,
            spec_encode_records(*shape, ds.take(i as int)) matches Ok(bs) && out@.skip(4) == bs,
        decreases records@.len() - i,
    {
        let ghost before = out@;
        proof {
            assert(ds.take(i + 1).drop_last() =~= ds.take(i as int));
            crate::ser::lemma_view_at(records@, i as int);
        }
        let mut ser = Serializer::new();
        match ser.encode(shape, &records[i]) {
            Ok(()) => {},
            Err(x) => {
                proof {
                    lemma_encode_records_err(*shape, ds, i + 1);
                }
                return Err(x);
            },
        }
        if ser.w.len() > 0xffff_ffff {
            proof {
                lemma_encode_records_err(*shape, ds, i + 1);
            }
            return Err(SerializerError::TooLarge);
        }
        let ghost cs = ser.w@;
        write_le(&mut out, ser.w.len() as u64, 4);
        out.append(&mut ser.w);
        proof {
            let bs = spec_encode_records(*shape, ds.take(i as int)).unwrap();
            assert(out@.skip(4) =~= bs + le_bytes(cs.len(), 4) + cs);
        }
        count = count + 1;
        i = i + 1;
    }
    assert(ds.take(ds.len() as int) =~= ds);
    let mut head: Vec<u8> = Vec::new();
    write_le(&mut head, count as u64, 4);
    proof {
        lemma_le_bytes_len(count as nat, 4);
    }
    let ghost body = out@.skip(4);
    let mut j: usize = 0;
    while j < 4
        invariant
            j <= 4,
            head@.len() == 4,
            out@.len() >= 4,
            out@.skip(4) == body,
            out@.take(j as int) == head@.take(j as int),
        decreases 4 - j,
    {
        out.set(j, head[j]);
        assert(out@.skip(4) =~= body);
        assert(out@.take(j + 1) =~= head@.take(j + 1));
        j = j + 1;
    }
    assert(head@.take(4) =~= head@);
    assert(out@ =~= out@.take(4) + out@.skip(4));
    assert(out@ =~= head@ + body);
    Ok(out)
}

/// Whether no two records of `s` share an identifier.
pub open spec fn ids_unique<T: DatabaseRecord>(s: Seq<T>) -> bool {
    forall|i: int, j: int|
        0 <= i < j < s.len() ==> (#[trigger] s[i]).spec_id() != (#[trigger] s[j]).spec_id()
}

/// Where a record with identifier `id` stands in `s`, if one does.
pub open spec fn index_of_id<T: DatabaseRecord>(s: Seq<T>, id: i32) -> Option<int> {
    if exists|i: int| 0 <= i < s.len() && (#[trigger] s[i]).spec_id() == id {
        Some(choose|i: int| 0 <= i < s.len() && (#[trigger] s[i]).spec_id() == id)
    } else {
        None
    }
}

/// `s` with `r` in place of the record that has its identifier, or with `r`
/// added at the end where none has.
pub open spec fn upserted<T: DatabaseRecord>(s: Seq<T>, r: T) -> Seq<T> {
    match index_of_id(s, r.spec_id()) {
        Some(i) => s.update(i, r),
        None => s.push(r),
    }
}

/// `s` after each of `rs` is added in order.
pub open spec fn upsert_all<T: DatabaseRecord>(s: Seq<T>, rs: Seq<T>) -> Seq<T>
    decreases rs.len(),
{
    if rs.len() == 0 {
        s
    } else {
        upserted(upsert_all(s, rs.drop_last()), rs.last())
    }
}

/// Records of one kind keyed by identifier, in the order each identifier was
/// first added. A record with an identifier already present replaces the old one.
pub struct RecordTable<T> {
    records: Vec<T>,
}

impl<T: DatabaseRecord> RecordTable<T> {
    pub closed spec fn spec_records(&self) -> Seq<T> {
        self.records@
    }

    pub open spec fn wf(&self) -> bool {
        ids_unique(self.spec_records())
    }

    /// An empty table.
    pub fn new() -> (r: Self)
        ensures
            r.spec_records() == Seq::<T>::empty(),
            r.wf(),
    {
        RecordTable { records: Vec::new() }
    }

    /// The number of records.
    pub fn len(&self) -> (r: usize)
        ensures
            r == self.spec_records().len(),
    {
        self.records.len()
    }

    /// Where the record with identifier `id` stands, if there is one.
    fn find_id(&self, id: i32) -> (r: Option<usize>)
        requires
            self.wf(),
        ensures
            match r {
                Some(i) => index_of_id(self.spec_records(), id) == Some(i as int),
                None => index_of_id(self.spec_records(), id) is None,
            },
    {
        let mut i: usize = 0;
        while i < self.records.len()
            invariant
                i <= self.records@.len(),
                ids_unique(self.records@),
                forall|j: int| 0 <= j < i ==> (#[trigger] self.records@[j]).spec_id() != id,
            decreases self.records@.len() - i,
        {
            if self.records[i].database_id() == id {
                proof {
                    let s = self.records@;
                    let c = choose|k: int| 0 <= k < s.len() && (#[trigger] s[k]).spec_id() == id;
                    assert(c == i) by {
                        if c < i {
                        } else if c > i {
                            assert(s[i as int].spec_id() == s[c].spec_id());
                        }
                    }
                }
                return Some(i);
            }
            i = i + 1;
        }
        None
    }

    /// Adds `record`, replacing the record with the same identifier if there is one.
    pub fn upsert(&mut self, record: T)
        requires
            old(self).wf(),
        ensures
            final(self).wf(),
            final(self).spec_records() == upserted(old(self).spec_records(), record),
    {
        let ghost s = self.records@;
        let id = record.database_id();
        match self.find_id(id) {
            Some(i) => {
                self.records.set(i, record);
                assert forall|a: int, b: int|
                    0 <= a < b < self.records@.len() implies (#[trigger] self.records@[a]).spec_id()
                    != (#[trigger] self.records@[b]).spec_id() by {
                    if a != i && b != i {
                        assert(s[a].spec_id() != s[b].spec_id());
                    }
                }
            },
            None => {
                self.records.push(record);
                assert forall|a: int, b: int|
                    0 <= a < b < self.records@.len() implies (#[trigger] self.records@[a]).spec_id()
                    != (#[trigger] self.records@[b]).spec_id() by {
                    if b < s.len() {
                        assert(s[a].spec_id() != s[b].spec_id());
                    } else {
                        assert(s[a].spec_id() != id);
                    }
                }
            },
        }
    }

    /// A table of `records`, added in order.
    pub fn from_records(records: Vec<T>) -> (r: Self)
        ensures
            r.wf(),
            r.spec_records() == upsert_all(Seq::empty(), records@),
    {
        let ghost all = records@;
        let mut table = RecordTable::new();
        let mut rest = records;
        let ghost mut done: nat = 0;
        while rest.len() > 0
            invariant
                table.wf(),
                done <= all.len(),
                rest@ == all.skip(done as int),
                table.spec_records() == upsert_all(Seq::empty(), all.take(done as int)),
            decreases rest@.len(),
        {
            let record = rest.remove(0);
            assert(all.take(done + 1int).drop_last() =~= all.take(done as int));
            table.upsert(record);
            proof {
                done = done + 1;
            }
            assert(rest@ =~= all.skip(done as int));
        }
        assert(all.take(done as int) =~= all);
        table
    }

    /// The record with identifier `id`.
    pub fn get(&self, id: i32) -> (r: Option<&T>)
        requires
            self.wf(),
        ensures
            match index_of_id(self.spec_records(), id) {
                Some(i) => r == Some(&self.spec_records()[i]),
                None => r is None,
            },
    {
        match self.find_id(id) {
            Some(i) => Some(&self.records[i]),
            None => None,
        }
    }

    /// The first record whose symbolic name is `name`.
    pub fn find_by_enum_name(&self, name: &str) -> (r: Option<&T>)
        ensures
            match r {
                Some(x) => exists|i: int|
                    0 <= i < self.spec_records().len() && self.spec_records()[i] == *x && x.spec_enum_name() == name@
                        && forall|j: int|
                        0 <= j < i ==> (#[trigger] self.spec_records()[j]).spec_enum_name() != name@,
                None => forall|j: int|
                    0 <= j < self.spec_records().len() ==> (#[trigger] self.spec_records()[j]).spec_enum_name()
                        != name@,
            },
    {
        let mut i: usize = 0;
        while i < self.records.len()
            invariant
                i <= self.records@.len(),
                forall|j: int| 0 <= j < i ==> (#[trigger] self.records@[j]).spec_enum_name() != name@,
            decreases self.records@.len() - i,
        {
            if same_text(self.records[i].database_enum_name(), name) {
                let found = &self.records[i];
                assert(self.spec_records()[i as int] == *found);
                return Some(found);
            }
            i = i + 1;
        }
        None
    }

    /// The records, in table order.
    pub fn into_records(self) -> (r: Vec<T>)
        ensures
            r@ == self.spec_records(),
    {
        self.records
    }
}

} // verus!
