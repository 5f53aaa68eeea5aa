//! The small archive: a 16-byte header, then one 0x80-byte record per entry
//! (a NUL-terminated name in 0x74 bytes, a `u32` size, a `u32` offset).
use vstd::prelude::*;

use crate::bytes::{
    le_bytes, le_value, lemma_le_value_bound, lemma_pow256_values, read_le,
    write_le,
};

verus! {

/// Why an archive could not be opened or an entry could not be reached.
#[derive(Clone, Copy, Debug, PartialEq, Eq, Structural)]
pub enum ReadError {
    /// The header does not start with `DSARC FL`.
    InvalidMagic,
    /// The entry table cannot be addressed in memory.
    TooLarge,
    /// An entry's name is empty or has no NUL terminator.
    InvalidName,
    /// The data ends inside the header or the entry table.
    UnexpectedEof,
}

/// The eight bytes every small archive starts with.
pub open spec fn small_magic() -> Seq<u8> {
    seq![0x44u8, 0x53, 0x41, 0x52, 0x43, 0x20, 0x46, 0x4c]
}

/// Bytes in the header, and in each entry record.
pub open spec fn header_len() -> nat {
    16
}

pub open spec fn record_len() -> nat {
    0x80
}

/// One entry as the table records it.
pub struct EntryInfo {
    pub name_buf: Seq<u8>,
    pub size: nat,
    pub offset: nat,
}

/// The entry described by record `i` of the table in `data`.
pub open spec fn entry_at(data: Seq<u8>, i: int) -> EntryInfo {
    let base = 16 + i * 0x80;
    EntryInfo {
        name_buf: data.subrange(base, base + 0x74),
        size: le_value(data.subrange(base + 0x74, base + 0x78)),
        offset: le_value(data.subrange(base + 0x78, base + 0x7c)),
    }
}

/// `i` is where the first NUL of `b` stands.
pub open spec fn is_first_nul(b: Seq<u8>, i: int) -> bool {
    0 <= i < b.len() && b[i] == 0 && forall|j: int| 0 <= j < i ==> b[j] != 0
}

/// An entry name is valid when a NUL ends it and it is not empty.
pub open spec fn valid_name(b: Seq<u8>) -> bool {
    exists|i: int| is_first_nul(b, i) && i > 0
}

/// The name: the bytes before the first NUL.
pub open spec fn name_of(b: Seq<u8>) -> Seq<u8> {
    b.take(choose|i: int| is_first_nul(b, i))
}

/// What an opened archive holds: its backing bytes and its entry table.
pub struct ArchiveView {
    pub data: Seq<u8>,
    pub entries: Seq<EntryInfo>,
}

struct ArchiveEntry {
    name_buf: Vec<u8>,
    size: u32,
    offset: u32,
}

/// A small archive opened over its bytes. The table is read once; entry
/// contents are read from the bytes only when an entry is reached.
pub struct Archive {
    inner: Vec<u8>,
    files: Vec<ArchiveEntry>,
}

impl View for Archive {
    type V = ArchiveView;

    closed spec fn view(&self) -> ArchiveView {
        ArchiveView {
            data: self.inner@,
            entries: Seq::new(
                self.files@.len(),
                |i: int|
                    EntryInfo {
                        name_buf: self.files@[i].name_buf@,
                        size: self.files@[i].size as nat,
                        offset: self.files@[i].offset as nat,
                    },
            ),
        }
    }
}

/// What an entry reader holds: the entry's name, size and offset, the bytes
/// behind it, and how far into the entry it has read.
pub struct AccessView {
    pub name: Seq<u8>,
    pub size: nat,
    pub offset: nat,
    pub data: Seq<u8>,
    pub pos: nat,
}

/// A reader over one entry's bytes. It borrows the archive, so no second entry
/// can be reached while it lives.
pub struct ArchiveFileAccess<'a> {
    name: Vec<u8>,
    size: u32,
    offset: u32,
    inner: &'a [u8],
    reader_offset: u64,
}

impl<'a> View for ArchiveFileAccess<'a> {
    type V = AccessView;

    closed spec fn view(&self) -> AccessView {
        AccessView {
            name: self.name@,
            size: self.size as nat,
            offset: self.offset as nat,
            data: self.inner@,
            pos: self.reader_offset as nat,
        }
    }
}

/// How many bytes a read of `want` bytes hands back: no more than the entry
/// has left, and no more than its bytes hold past the position.
pub open spec fn read_amount(v: AccessView, want: nat) -> nat {
    let at = v.offset + v.pos;
    let in_entry = if v.pos <= v.size {
        (v.size - v.pos) as nat
    } else {
        0nat
    };
    let in_data = if at <= v.data.len() {
        (v.data.len() - at) as nat
    } else {
        0nat
    };
    vstd::math::min(vstd::math::min(want as int, in_entry as int), in_data as int) as nat
}

/// The bytes still to be read from an entry: from the position to the end of
/// the entry, clipped to the bytes that exist.
pub open spec fn rest_of(v: AccessView) -> Seq<u8> {
    let start = v.offset + v.pos;
    let end = vstd::math::min((v.offset + v.size) as int, v.data.len() as int);
    if start < end {
        v.data.subrange(start as int, end)
    } else {
        Seq::empty()
    }
}

impl Archive {
    /// Reads the header and the entry table of a small archive.
    pub fn open(inner: Vec<u8>) -> (r: Result<Archive, ReadError>)
        ensures
            inner@.len() < header_len() ==> r == Err::<Archive, ReadError>(
                ReadError::UnexpectedEof,
            ),
            inner@.len() >= header_len() && inner@.take(8) != small_magic() ==> r == Err::<
                Archive,
                ReadError,
            >(ReadError::InvalidMagic),
            inner@.len() >= header_len() && inner@.take(8) == small_magic() ==> {
                let count = le_value(inner@.subrange(8, 12));
                if header_len() + count * record_len() > usize::MAX {
                    r == Err::<Archive, ReadError>(ReadError::TooLarge)
                } else if inner@.len() < header_len() + count * record_len() {
                    r == Err::<Archive, ReadError>(ReadError::UnexpectedEof)
                } else {
                    r matches Ok(a) && a@.data == inner@ && a@.entries.len() == count && forall|
                        i: int,
                    |
                        0 <= i < count ==> #[trigger] a@.entries[i] == entry_at(inner@, i)
                }
            },
    {
        let n = inner.len();
        if n < 16 {
            return Err(ReadError::UnexpectedEof);
        }
        let magic: [u8; 8] = [0x44, 0x53, 0x41, 0x52, 0x43, 0x20, 0x46, 0x4c];
        let mut k: usize = 0;
        while k < 8
            invariant
                k <= 8,
                n == inner@.len() >= 16,
                magic@ == small_magic(),
                forall|j: int| 0 <= j < k ==> inner@[j] == small_magic()[j],
            decreases 8 - k,
        {
            if inner[k] != magic[k] {
                assert(inner@.take(8)[k as int] != small_magic()[k as int]);
                return Err(ReadError::InvalidMagic);
            }
            k = k + 1;
        }
        assert(inner@.take(8) =~= small_magic());
        let count = read_le(inner.as_slice(), 8, 4);
        proof {
            lemma_le_value_bound(inner@.subrange(8, 12));
            lemma_pow256_values();
        }
        if count > ((usize::MAX - 16) / 0x80) as u64 {
            assert(16 + count * 0x80 > usize::MAX) by (nonlinear_arith)
                requires
                    count > (usize::MAX - 16) / 0x80,
            ;
            return Err(ReadError::TooLarge);
        }
        assert(16 + count * 0x80 <= usize::MAX) by (nonlinear_arith)
            requires
                count <= (usize::MAX - 16) / 0x80,
        ;
        let count = count as usize;
        if n < 16 + count * 0x80 {
            return Err(ReadError::UnexpectedEof);
        }
        let mut files: Vec<ArchiveEntry> = Vec::new();
        let mut i: usize = 0;
        while i < count
            invariant
                i <= count,
                n == inner@.len(),
                16 + count * 0x80 <= n,
                files@.len() == i,
                forall|j: int|
                    0 <= j < i ==> {
                        let e = entry_at(inner@, j);
                        &&& (#[trigger] files@[j]).name_buf@ == e.name_buf
                        &&& files@[j].size as nat == e.size
                        &&& files@[j].offset as nat == e.offset
                    },
            decreases count - i,
        {
            assert(16 + i * 0x80 + 0x80 <= 16 + count * 0x80) by (nonlinear_arith)
                requires
                    i < count,
            ;
            let base = 16 + i * 0x80;
            let mut name_buf: Vec<u8> = Vec::new();
            let mut j: usize = 0;
            while j < 0x74
                invariant
                    j <= 0x74,
                    base + 0x80 <= n == inner@.len(),
                    name_buf@ == inner@.subrange(base as int, base + j),
                decreases 0x74 - j,
            {
                name_buf.push(inner[base + j]);
                assert(name_buf@ =~= inner@.subrange(base as int, base + j + 1));
                j = j + 1;
            }
            let size = read_le(inner.as_slice(), base + 0x74, 4);
            let offset = read_le(inner.as_slice(), base + 0x78, 4);
            proof {
                lemma_le_value_bound(inner@.subrange(base + 0x74, base + 0x78));
                lemma_le_value_bound(inner@.subrange(base + 0x78, base + 0x7c));
                lemma_pow256_values();
            }
            files.push(ArchiveEntry { name_buf, size: size as u32, offset: offset as u32 });
            i = i + 1;
        }
        let a = Archive { inner, files };
        assert forall|j: int| 0 <= j < count implies #[trigger] a@.entries[j] == entry_at(
            a@.data,
            j,
        ) by {
            assert(a@.entries[j].name_buf == entry_at(a@.data, j).name_buf);
        }
        Ok(a)
    }

    /// The number of entries.
    pub fn len(&self) -> (r: usize)
        ensures
            r == self@.entries.len(),
    {
        self.files.len()
    }

    /// A reader over entry `index`, positioned at its start; `None` past the last
    /// entry, `InvalidName` where its name is empty or unterminated.
    pub fn get_file(&mut self, index: usize) -> (r: Option<Result<ArchiveFileAccess<'_>, ReadError>>)
        ensures
            final(self)@ == old(self)@,
            index >= old(self)@.entries.len() ==> r is None,
            index < old(self)@.entries.len() ==> {
                let e = old(self)@.entries[index as int];
                if !valid_name(e.name_buf) {
                    r == Some(Err::<ArchiveFileAccess<'_>, ReadError>(ReadError::InvalidName))
                } else {
                    r matches Some(Ok(acc)) && acc@.name == name_of(e.name_buf) && acc@.size
                        == e.size && acc@.offset == e.offset && acc@.data == old(self)@.data
                        && acc@.pos == 0
                }
            },
    {
        if index >= self.files.len() {
            return None;
        }
        let file = &self.files[index];
        let ghost nb = file.name_buf@;
        let mut i: usize = 0;
        while i < file.name_buf.len() && file.name_buf[i] != 0
            invariant
                i <= nb.len(),
                nb == file.name_buf@,
                forall|j: int| 0 <= j < i ==> nb[j] != 0,
            decreases nb.len() - i,
        {
            i = i + 1;
        }
        if i == file.name_buf.len() {
            assert(!valid_name(nb));
            return Some(Err(ReadError::InvalidName));
        }
        assert(is_first_nul(nb, i as int));
        proof {
            let c = choose|k: int| is_first_nul(nb, k);
            assert(c == i) by {
                if c < i {
                    assert(nb[c] != 0);
                } else if c > i {
                    assert(nb[i as int] != 0);
                }
            }
        }
        if i == 0 {
            assert(!valid_name(nb)) by {
                if exists|k: int| is_first_nul(nb, k) && k > 0 {
                    let k = choose|k: int| is_first_nul(nb, k) && k > 0;
                    assert(nb[0] != 0);
                }
            }
            return Some(Err(ReadError::InvalidName));
        }
        let mut name: Vec<u8> = Vec::new();
        let mut j: usize = 0;
        while j < i
            invariant
                j <= i <= nb.len(),
                nb == file.name_buf@,
                name@ == nb.take(j as int),
            decreases i - j,
        {
            name.push(file.name_buf[j]);
            assert(name@ =~= nb.take(j + 1));
            j = j + 1;
        }
        Some(
            Ok(
                ArchiveFileAccess {
                    name,
                    size: file.size,
                    offset: file.offset,
                    inner: self.inner.as_slice(),
                    reader_offset: 0,
                },
            ),
        )
    }
}

impl<'a> ArchiveFileAccess<'a> {
    /// The entry's name, without its NUL.
    pub fn name(&self) -> (r: &[u8])
        ensures
            r@ == self@.name,
    {
        self.name.as_slice()
    }

    /// The entry's size in bytes.
    pub fn size(&self) -> (r: u64)
        ensures
            r == self@.size,
    {
        self.size as u64
    }

    /// Reads the rest of the entry.
    pub fn read_to_end(&mut self) -> (r: Vec<u8>)
        ensures
            r@ == rest_of(old(self)@),
            final(self)@ == (AccessView { pos: (old(self)@.pos + r@.len()) as nat, ..old(self)@ }),
    {
        let mut out: Vec<u8> = Vec::new();
        if self.reader_offset > self.size as u64 {
            return out;
        }
        let n = self.inner.len();
        let start = self.offset as u64 + self.reader_offset;
        let end_entry = self.offset as u64 + self.size as u64;
        let end = if end_entry < n as u64 {
            end_entry
        } else {
            n as u64
        };
        if start >= end {
            return out;
        }
        let start = start as usize;
        let end = end as usize;
        let mut i: usize = start;
        while i < end
            invariant
                start <= i <= end <= n == self.inner@.len(),
                out@ == self.inner@.subrange(start as int, i as int),
            decreases end - i,
        {
            out.push(self.inner[i]);
            assert(out@ =~= self.inner@.subrange(start as int, i + 1));
            i = i + 1;
        }
        self.reader_offset = self.reader_offset + (end - start) as u64;
        out
    }

    /// Copies the next bytes of the entry into the front of `buf` and returns how
    /// many. A read never crosses the end of the entry; once it is reached, reads
    /// return 0.
    pub fn read(&mut self, buf: &mut [u8]) -> (r: usize)
        ensures
            r == read_amount(old(self)@, old(buf)@.len()),
            final(self)@ == (AccessView { pos: (old(self)@.pos + r) as nat, ..old(self)@ }),
            final(buf)@.len() == old(buf)@.len(),
            forall|j: int|
                0 <= j < r ==> #[trigger] final(buf)@[j] == old(self)@.data[old(self)@.offset
                    + old(self)@.pos + j],
            forall|j: int| r <= j < old(buf)@.len() ==> #[trigger] final(buf)@[j] == old(buf)@[j],
    {
        if self.reader_offset >= self.size as u64 {
            return 0;
        }
        let want = buf.len() as u64;
        let at = self.offset as u64 + self.reader_offset;
        let in_entry = if self.reader_offset <= self.size as u64 {
            self.size as u64 - self.reader_offset
        } else {
            0
        };
        let n = self.inner.len() as u64;
        let in_data = if at <= n {
            n - at
        } else {
            0
        };
        let mut amount = want;
        if in_entry < amount {
            amount = in_entry;
        }
        if in_data < amount {
            amount = in_data;
        }
        if amount == 0 {
            return 0;
        }
        let len = self.inner.len();
        let amount = amount as usize;
        let start = at as usize;
        let ghost old_buf = buf@;
        let mut i: usize = 0;
        while i < amount
            invariant
                i <= amount <= buf@.len(),
                start + amount <= self.inner@.len() == len,
                buf@.len() == old_buf.len(),
                forall|j: int| 0 <= j < i ==> buf@[j] == self.inner@[start + j],
                forall|j: int| i <= j < buf@.len() ==> buf@[j] == old_buf[j],
            decreases amount - i,
        {
            buf[i] = self.inner[start + i];
            i = i + 1;
        }
        self.reader_offset = self.reader_offset + amount as u64;
        amount
    }
}

/// Why an archive could not be written.
#[derive(Clone, Copy, Debug, PartialEq, Eq, Structural)]
pub enum WriteError {
    /// The name, with its NUL, does not fit the 0x74-byte name field.
    NameTooLong,
    /// The name holds a NUL byte.
    InvalidName,
    /// A count, size or offset does not fit its `u32` field.
    TooLarge,
}

/// One entry as the writer will record it: its name field, and where its bytes
/// stand in the data area and how many there are.
pub struct FileRecord {
    pub name_field: Seq<u8>,
    pub off: nat,
    pub len: nat,
}

/// The writer's entries so far and its data area.
pub struct WriterView {
    pub files: Seq<FileRecord>,
    pub buf: Seq<u8>,
}

/// The 0x74-byte name field holding `name`: the name, then NUL bytes.
pub open spec fn name_field(name: Seq<u8>) -> Seq<u8> {
    name + Seq::new((0x74 - name.len()) as nat, |i: int| 0u8)
}

/// The table record of `f`, whose data starts `base` bytes into the archive:
/// the name field, the size, the offset, and four reserved zero bytes.
pub open spec fn table_record(f: FileRecord, base: nat) -> Seq<u8> {
    f.name_field + le_bytes(f.len, 4) + le_bytes(f.off + base, 4) + le_bytes(0, 4)
}

pub open spec fn table_bytes(files: Seq<FileRecord>, base: nat) -> Seq<u8>
    decreases files.len(),
{
    if files.len() == 0 {
        Seq::empty()
    } else {
        table_bytes(files.drop_last(), base) + table_record(files.last(), base)
    }
}

/// The archive a writer produces: magic, count, four reserved zero bytes, the
/// table, then the data area. Offsets in the table count from the archive's start.
pub open spec fn archive_bytes(v: WriterView) -> Seq<u8> {
    let base = 16 + v.files.len() * 0x80;
    small_magic() + le_bytes(v.files.len(), 4) + le_bytes(0, 4) + table_bytes(v.files, base as nat)
        + v.buf
}

/// The data area once `data` is appended and padded with zeros to a multiple of 16.
pub open spec fn padded(buf: Seq<u8>, data: Seq<u8>) -> Seq<u8> {
    let end = buf.len() + data.len();
    let pad = if end % 16 == 0 {
        0
    } else {
        16 - end % 16
    };
    buf + data + Seq::new(pad as nat, |i: int| 0u8)
}

/// Whether the table and every offset in it fit their `u32` fields.
pub open spec fn fits(v: WriterView) -> bool {
    let base = 16 + v.files.len() * 0x80;
    &&& v.files.len() <= 0xffff_ffff
    &&& base + v.buf.len() <= 0xffff_ffff + 1
    &&& forall|i: int|
        0 <= i < v.files.len() ==> #[trigger] v.files[i].len <= 0xffff_ffff && base
            + v.files[i].off <= 0xffff_ffff
}

/// An entry on the way into an archive: its name and the bytes written so far.
pub struct ArchiveFileWriter {
    name: Vec<u8>,
    data: Vec<u8>,
}

pub struct ArchiveFile {
    name: Vec<u8>,
    off: usize,
    len: usize,
}

/// Builds a small archive in memory.
pub struct ArchiveWriter {
    files: Vec<ArchiveFile>,
    buf: Vec<u8>,
}

impl View for ArchiveWriter {
    type V = WriterView;

    closed spec fn view(&self) -> WriterView {
        WriterView {
            files: Seq::new(
                self.files@.len(),
                |i: int|
                    FileRecord {
                        name_field: self.files@[i].name@,
                        off: self.files@[i].off as nat,
                        len: self.files@[i].len as nat,
                    },
            ),
            buf: self.buf@,
        }
    }
}

impl ArchiveFileWriter {
    /// The entry's name.
    pub closed spec fn spec_name(&self) -> Seq<u8> {
        self.name@
    }

    /// The bytes written to the entry so far.
    pub closed spec fn spec_data(&self) -> Seq<u8> {
        self.data@
    }

    /// Appends all of `buf` to the entry and returns its length.
    pub fn write(&mut self, buf: &[u8]) -> (r: usize)
        ensures
            r == buf@.len(),
            final(self).spec_name() == old(self).spec_name(),
            final(self).spec_data() == old(self).spec_data() + buf@,
    {
        let mut i: usize = 0;
        let ghost d0 = self.data@;
        while i < buf.len()
            invariant
                i <= buf@.len(),
                self.data@ == d0 + buf@.take(i as int),
                self.spec_name() == old(self).spec_name(),
            decreases buf@.len() - i,
        {
            self.data.push(buf[i]);
            assert(self.data@ =~= d0 + buf@.take(i + 1));
            i = i + 1;
        }
        assert(buf@.take(buf@.len() as int) =~= buf@);
        buf.len()
    }

    /// Nothing is buffered outside the entry, so there is nothing to flush.
    pub fn flush(&mut self)
        ensures
            final(self).spec_name() == old(self).spec_name(),
            final(self).spec_data() == old(self).spec_data(),
    {
    }
}

impl ArchiveWriter {
    /// A writer with no entries.
    pub fn new() -> (r: Self)
        ensures
            r@.files.len() == 0,
            r@.buf.len() == 0,
    {
        ArchiveWriter { buf: Vec::new(), files: Vec::new() }
    }

    /// A writer with no entries whose data area has room for `capacity` bytes.
    pub fn with_capacity(capacity: usize) -> (r: Self)
        ensures
            r@.files.len() == 0,
            r@.buf.len() == 0,
    {
        ArchiveWriter { buf: Vec::with_capacity(capacity), files: Vec::new() }
    }

    /// Starts an entry named `name` (the bytes of the name, without a NUL).
    pub fn file(&self, name: &[u8]) -> (r: Result<ArchiveFileWriter, WriteError>)
        ensures
            name@.len() >= 0x74 ==> r == Err::<ArchiveFileWriter, WriteError>(
                WriteError::NameTooLong,
            ),
            name@.len() < 0x74 && (exists|i: int| 0 <= i < name@.len() && name@[i] == 0) ==> r
                == Err::<ArchiveFileWriter, WriteError>(WriteError::InvalidName),
            name@.len() < 0x74 && (forall|i: int| 0 <= i < name@.len() ==> name@[i] != 0) ==> (r
                matches Ok(f) && f.spec_name() == name@ && f.spec_data().len() == 0),
    {
        if name.len() >= 0x74 {
            return Err(WriteError::NameTooLong);
        }
        let mut copy: Vec<u8> = Vec::new();
        let mut i: usize = 0;
        while i < name.len()
            invariant
                i <= name@.len() < 0x74,
                copy@ == name@.take(i as int),
                forall|j: int| 0 <= j < i ==> name@[j] != 0,
            decreases name@.len() - i,
        {
            if name[i] == 0 {
                return Err(WriteError::InvalidName);
            }
            copy.push(name[i]);
            assert(copy@ =~= name@.take(i + 1));
            i = i + 1;
        }
        assert(copy@ =~= name@);
        Ok(ArchiveFileWriter { name: copy, data: Vec::new() })
    }

    /// Ends an entry: its bytes join the data area, which is then padded with
    /// zeros to a multiple of 16, and the entry is recorded.
    pub fn add(&mut self, file: ArchiveFileWriter)
        requires
            file.spec_name().len() < 0x74,
        ensures
            final(self)@.buf == padded(old(self)@.buf, file.spec_data()),
            final(self)@.files == old(self)@.files.push(
                FileRecord {
                    name_field: name_field(file.spec_name()),
                    off: old(self)@.buf.len(),
                    len: file.spec_data().len(),
                },
            ),
    {
        let ghost file_name = file.spec_name();
        let ghost file_data = file.spec_data();
        let ArchiveFileWriter { name, data } = file;
        assert(name@ == file_name && data@ == file_data);
        let start = self.buf.len();
        let len = data.len();
        let mut field = name;
        let ghost nm = field@;
        while field.len() < 0x74
            invariant
                field@.len() <= 0x74,
                self.files@ == old(self).files@,
                self.buf@ == old(self).buf@,
                nm.len() <= field@.len(),
                field@ == nm + Seq::new((field@.len() - nm.len()) as nat, |i: int| 0u8),
            decreases 0x74 - field@.len(),
        {
            field.push(0);
            assert(field@ =~= nm + Seq::new((field@.len() - nm.len()) as nat, |i: int| 0u8));
        }
        let ghost b0 = self.buf@;
        let mut i: usize = 0;
        while i < data.len()
            invariant
                i <= data@.len() == len,
                self.files@ == old(self).files@,
                self.buf@ == b0 + data@.take(i as int),
                start == b0.len(),
            decreases data@.len() - i,
        {
            self.buf.push(data[i]);
            assert(self.buf@ =~= b0 + data@.take(i + 1));
            i = i + 1;
        }
        assert(data@.take(len as int) =~= data@);
        let ghost b1 = self.buf@;
        let rem = self.buf.len() % 16;
        let pad: usize = if rem == 0 {
            0
        } else {
            16 - rem
        };
        let mut p: usize = 0;
        while p < pad
            invariant
                p <= pad <= 16,
                self.files@ == old(self).files@,
                self.buf@ == b1 + Seq::new(p as nat, |i: int| 0u8),
            decreases pad - p,
        {
            self.buf.push(0);
            assert(self.buf@ =~= b1 + Seq::new((p + 1) as nat, |i: int| 0u8));
            p = p + 1;
        }
        assert(self.buf@ =~= padded(b0, data@));
        let ghost f0 = self@.files;
        self.files.push(ArchiveFile { name: field, off: start, len });
        assert(self@.files =~= f0.push(
            FileRecord { name_field: name_field(nm), off: start as nat, len: len as nat },
        ));
    }

    /// The archive's bytes. Fails where a count, size or offset does not fit
    /// its `u32` field.
    pub fn finish(self) -> (r: Result<Vec<u8>, WriteError>)
        ensures
            fits(self@) ==> (r matches Ok(out) && out@ == archive_bytes(self@)),
            !fits(self@) ==> r == Err::<Vec<u8>, WriteError>(WriteError::TooLarge),
    {
        let ghost v = self@;
        let count = self.files.len();
        if count > 0xffff_ffff {
            return Err(WriteError::TooLarge);
        }
        let base: u64 = 16 + count as u64 * 0x80;
        if base > 0x1_0000_0000 || self.buf.len() as u64 > 0x1_0000_0000 - base {
            return Err(WriteError::TooLarge);
        }
        let mut k: usize = 0;
        while k < count
            invariant
                k <= count == self.files@.len() == v.files.len(),
                v == self@,
                base == 16 + count * 0x80,
                base <= 0x1_0000_0000,
                forall|i: int|
                    0 <= i < k ==> #[trigger] v.files[i].len <= 0xffff_ffff && base
                        + v.files[i].off <= 0xffff_ffff,
            decreases count - k,
        {
            let f = &self.files[k];
            if f.len as u64 > 0xffff_ffff || f.off as u64 > 0xffff_ffff || f.off as u64 + base
                > 0xffff_ffff {
                assert(!fits(v)) by {
                    assert(v.files[k as int].len == f.len);
                }
                return Err(WriteError::TooLarge);
            }
            k = k + 1;
        }
        assert(fits(v));
        let mut out: Vec<u8> = Vec::new();
        let magic: [u8; 8] = [0x44, 0x53, 0x41, 0x52, 0x43, 0x20, 0x46, 0x4c];
        let mut m: usize = 0;
        while m < 8
            invariant
                m <= 8,
                magic@ == small_magic(),
                out@ == small_magic().take(m as int),
            decreases 8 - m,
        {
            out.push(magic[m]);
            assert(out@ =~= small_magic().take(m + 1));
            m = m + 1;
        }
        assert(small_magic().take(8) =~= small_magic());
        write_le(&mut out, count as u64, 4);
        write_le(&mut out, 0, 4);
        let ghost head = out@;
        let mut i: usize = 0;
        while i < count
            invariant
                i <= count == self.files@.len() == v.files.len(),
                v == self@,
                base == 16 + count * 0x80,
                fits(v),
                out@ == head + table_bytes(v.files.take(i as int), base as nat),
            decreases count - i,
        {
            let f = &self.files[i];
            let ghost before = out@;
            assert(v.files[i as int].len <= 0xffff_ffff);
            let mut j: usize = 0;
            while j < f.name.len()
                invariant
                    j <= f.name@.len(),
                    out@ == before + f.name@.take(j as int),
                decreases f.name@.len() - j,
            {
                out.push(f.name[j]);
                assert(out@ =~= before + f.name@.take(j + 1));
                j = j + 1;
            }
            assert(f.name@.take(f.name@.len() as int) =~= f.name@);
            write_le(&mut out, f.len as u64, 4);
            write_le(&mut out, f.off as u64 + base, 4);
            write_le(&mut out, 0, 4);
            assert(v.files.take(i + 1).drop_last() =~= v.files.take(i as int));
            assert(out@ =~= head + table_bytes(v.files.take(i + 1), base as nat));
            i = i + 1;
        }
        assert(v.files.take(count as int) =~= v.files);
        let ghost table = out@;
        let mut j: usize = 0;
        while j < self.buf.len()
            invariant
                j <= self.buf@.len(),
                v == self@,
                out@ == table + self.buf@.take(j as int),
            decreases self.buf@.len() - j,
        {
            out.push(self.buf[j]);
            assert(out@ =~= table + self.buf@.take(j + 1));
            j = j + 1;
        }
        assert(self.buf@.take(self.buf@.len() as int) =~= self.buf@);
        Ok(out)
    }
}

} // verus!
