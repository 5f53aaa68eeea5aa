//! The large archive: a 40-byte header, a pool of NUL-terminated paths, and a
//! table of 48-byte entry records, each found by offset.
use vstd::prelude::*;

use crate::bytes::{le_value, lemma_le_value_bound, lemma_pow256_values, read_le};
use crate::dsarcfl::{is_first_nul, name_of, read_amount, valid_name, AccessView};

verus! {

/// Why an archive could not be opened or an entry could not be reached.
#[derive(Clone, Copy, Debug, PartialEq, Eq, Structural)]
pub enum Error {
    /// The header does not start with `FAFULLFS`.
    InvalidMagic,
    /// The path pool cannot be addressed in memory.
    TooLarge,
    /// An entry's path is empty, unterminated, or outside the pool.
    InvalidName,
    /// The data ends inside the header, the path pool or the entry table.
    UnexpectedEof,
}

/// The eight bytes every large archive starts with.
pub open spec fn large_magic() -> Seq<u8> {
    seq![0x46u8, 0x41, 0x46, 0x55, 0x4c, 0x4c, 0x46, 0x53]
}

/// One entry as the table records it.
pub struct EntryInfo {
    pub checksum: nat,
    pub path_off: nat,
    pub reserved: nat,
    pub size: nat,
    pub offset: nat,
    pub timestamp: nat,
}

/// The `u64` at `at` in `data`.
pub open spec fn u64_at(data: Seq<u8>, at: int) -> nat {
    le_value(data.subrange(at, at + 8))
}

/// The entry whose 48-byte record starts at `at` in `data`.
pub open spec fn entry_at(data: Seq<u8>, at: int) -> EntryInfo {
    EntryInfo {
        checksum: u64_at(data, at),
        path_off: u64_at(data, at + 8),
        reserved: u64_at(data, at + 16),
        size: u64_at(data, at + 24),
        offset: u64_at(data, at + 32),
        timestamp: u64_at(data, at + 40),
    }
}

/// What an opened archive holds: its bytes, its path pool and its entry table.
pub struct ArchiveView {
    pub data: Seq<u8>,
    pub paths: Seq<u8>,
    pub entries: Seq<EntryInfo>,
}

struct ArchiveEntry {
    path_off: u64,
    checksum: u64,
    unk: u64,
    size: u64,
    offset: u64,
    timestamp: u64,
}

/// A large archive opened over its bytes. The path pool and the table are read
/// once; entry contents are read only when an entry is reached.
pub struct Archive {
    inner: Vec<u8>,
    paths: Vec<u8>,
    files: Vec<ArchiveEntry>,
}

impl View for Archive {
    type V = ArchiveView;

    closed spec fn view(&self) -> ArchiveView {
        ArchiveView {
            data: self.inner@,
            paths: self.paths@,
            entries: Seq::new(
                self.files@.len(),
                |i: int|
                    EntryInfo {
                        checksum: self.files@[i].checksum as nat,
                        path_off: self.files@[i].path_off as nat,
                        reserved: self.files@[i].unk as nat,
                        size: self.files@[i].size as nat,
                        offset: self.files@[i].offset as nat,
                        timestamp: self.files@[i].timestamp as nat,
                    },
            ),
        }
    }
}

/// The path of an entry whose path starts at `off` in `paths`, where it is valid.
pub open spec fn path_valid(paths: Seq<u8>, off: nat) -> bool {
    off <= paths.len() && valid_name(paths.skip(off as int))
}

/// A reader over one entry's bytes. It borrows the archive, so no second entry
/// can be reached while it lives.
pub struct ArchiveFileAccess<'a> {
    path: Vec<u8>,
    checksum: u64,
    offset: u64,
    size: u64,
    timestamp: u64,
    inner: &'a [u8],
    reader_offset: u64,
}

impl<'a> View for ArchiveFileAccess<'a> {
    type V = AccessView;

    closed spec fn view(&self) -> AccessView {
        AccessView {
            name: self.path@,
            size: self.size as nat,
            offset: self.offset as nat,
            data: self.inner@,
            pos: self.reader_offset as nat,
        }
    }
}

impl<'a> ArchiveFileAccess<'a> {
    pub closed spec fn spec_checksum(&self) -> nat {
        self.checksum as nat
    }

    pub closed spec fn spec_timestamp(&self) -> nat {
        self.timestamp as nat
    }
}

impl Archive {
    /// Reads the header, the path pool and the entry table of a large archive.
    pub fn open(inner: Vec<u8>) -> (r: Result<Archive, Error>)
        ensures
            inner@.len() < 40 ==> r == Err::<Archive, Error>(Error::UnexpectedEof),
            inner@.len() >= 40 && inner@.take(8) != large_magic() ==> r == Err::<Archive, Error>(
                Error::InvalidMagic,
            ),
            inner@.len() >= 40 && inner@.take(8) == large_magic() ==> {
                let count = le_value(inner@.subrange(8, 12));
                let paths_off = u64_at(inner@, 16);
                let paths_len = u64_at(inner@, 24);
                let info_off = u64_at(inner@, 32);
                if paths_len > usize::MAX {
                    r == Err::<Archive, Error>(Error::TooLarge)
                } else if inner@.len() < paths_off + paths_len || inner@.len() < info_off + count
                    * 48 {
                    r == Err::<Archive, Error>(Error::UnexpectedEof)
                } else {
                    r matches Ok(a) && a@.data == inner@ && a@.paths == inner@.subrange(
                        paths_off as int,
                        (paths_off + paths_len) as int,
                    ) && a@.entries.len() == count && forall|i: int|
                        0 <= i < count ==> #[trigger] a@.entries[i] == entry_at(
                            inner@,
                            info_off + i * 48,
                        )
                }
            },
    {
        let n = inner.len();
        if n < 40 {
            return Err(Error::UnexpectedEof);
        }
        let magic: [u8; 8] = [0x46, 0x41, 0x46, 0x55, 0x4c, 0x4c, 0x46, 0x53];
        let mut k: usize = 0;
        while k < 8
            invariant
                k <= 8,
                n == inner@.len() >= 40,
                magic@ == large_magic(),
                forall|j: int| 0 <= j < k ==> inner@[j] == large_magic()[j],
            decreases 8 - k,
        {
            if inner[k] != magic[k] {
                assert(inner@.take(8)[k as int] != large_magic()[k as int]);
                return Err(Error::InvalidMagic);
            }
            k = k + 1;
        }
        assert(inner@.take(8) =~= large_magic());
        let count = read_le(inner.as_slice(), 8, 4);
        let paths_off = read_le(inner.as_slice(), 16, 8);
        let paths_len = read_le(inner.as_slice(), 24, 8);
        let info_off = read_le(inner.as_slice(), 32, 8);
        proof {
            lemma_le_value_bound(inner@.subrange(8, 12));
            lemma_pow256_values();
        }
        if paths_len > usize::MAX as u64 {
            return Err(Error::TooLarge);
        }
        let n64 = n as u64;
        if paths_off > n64 || paths_len > n64 - paths_off {
            return Err(Error::UnexpectedEof);
        }
        if info_off > n64 || count * 48 > n64 - info_off {
            return Err(Error::UnexpectedEof);
        }
        let mut paths: Vec<u8> = Vec::new();
        let start = paths_off as usize;
        let plen = paths_len as usize;
        let mut j: usize = 0;
        while j < plen
            invariant
                j <= plen,
                start + plen <= n == inner@.len(),
                paths@ == inner@.subrange(start as int, start + j),
            decreases plen - j,
        {
            paths.push(inner[start + j]);
            assert(paths@ =~= inner@.subrange(start as int, start + j + 1));
            j = j + 1;
        }
        let count = count as usize;
        let info = info_off as usize;
        let mut files: Vec<ArchiveEntry> = Vec::new();
        let mut i: usize = 0;
        while i < count
            invariant
                i <= count,
                n == inner@.len(),
                info + count * 48 <= n,
                files@.len() == i,
                forall|j: int|
                    0 <= j < i ==> {
                        let e = entry_at(inner@, info + j * 48);
                        &&& (#[trigger] files@[j]).checksum as nat == e.checksum
                        &&& files@[j].path_off as nat == e.path_off
                        &&& files@[j].unk as nat == e.reserved
                        &&& files@[j].size as nat == e.size
                        &&& files@[j].offset as nat == e.offset
                        &&& files@[j].timestamp as nat == e.timestamp
                    },
            decreases count - i,
        {
            assert(info + i * 48 + 48 <= info + count * 48) by (nonlinear_arith)
                requires
                    i < count,
            ;
            let at = info + i * 48;
            let checksum = read_le(inner.as_slice(), at, 8);
            let path_off = read_le(inner.as_slice(), at + 8, 8);
            let unk = read_le(inner.as_slice(), at + 16, 8);
            let size = read_le(inner.as_slice(), at + 24, 8);
            let offset = read_le(inner.as_slice(), at + 32, 8);
            let timestamp = read_le(inner.as_slice(), at + 40, 8);
            files.push(ArchiveEntry { checksum, path_off, unk, size, offset, timestamp });
            i = i + 1;
        }
        let a = Archive { inner, paths, files };
        assert forall|j: int| 0 <= j < count implies #[trigger] a@.entries[j] == entry_at(
            a@.data,
            info + j * 48,
        ) by {}
        Ok(a)
    }

    /// Whether entry `i` has a valid path equal to `path`.
    pub open spec fn has_path(&self, i: int, path: Seq<u8>) -> bool {
        let e = self@.entries[i];
        path_valid(self@.paths, e.path_off) && name_of(self@.paths.skip(e.path_off as int)) == path
    }

    /// The index of the first entry whose path is `path` (without its NUL).
    pub fn position(&self, path: &[u8]) -> (r: Option<usize>)
        ensures
            match r {
                Some(i) => i < self@.entries.len() && self.has_path(i as int, path@) && forall|
                    j: int,
                | 0 <= j < i ==> !#[trigger] self.has_path(j, path@),
                None => forall|j: int|
                    0 <= j < self@.entries.len() ==> !#[trigger] self.has_path(j, path@),
            },
    {
        let plen = self.paths.len();
        let mut i: usize = 0;
        while i < self.files.len()
            invariant
                i <= self.files@.len(),
                plen == self.paths@.len(),
                forall|j: int| 0 <= j < i ==> !#[trigger] self.has_path(j, path@),
            decreases self.files@.len() - i,
        {
            let off = self.files[i].path_off;
            if off < plen as u64 && plen - (off as usize) > path.len() {
                let start = off as usize;
                let ghost nb = self.paths@.skip(start as int);
                let mut k: usize = 0;
                while k < path.len() && self.paths[start + k] == path[k] && path[k] != 0
                    invariant
                        k <= path@.len(),
                        start + path@.len() < plen == self.paths@.len(),
                        nb == self.paths@.skip(start as int),
                        forall|j: int| 0 <= j < k ==> nb[j] == path@[j] && path@[j] != 0,
                    decreases path@.len() - k,
                {
                    k = k + 1;
                }
                if k == path.len() && self.paths[start + k] == 0 && k > 0 {
                    assert(is_first_nul(nb, k as int));
                    proof {
                        let c = choose|m: int| is_first_nul(nb, m);
                        assert(c == k) by {
                            if c < k {
                                assert(nb[c] != 0);
                            } else if c > k {
                                assert(nb[k as int] != 0);
                            }
                        }
                        assert(nb.take(k as int) =~= path@);
                    }
                    return Some(i);
                }
                proof {
                    if self.has_path(i as int, path@) {
                        let c = choose|m: int| is_first_nul(nb, m);
                        assert(nb.take(c) == path@);
                        assert(c == path@.len());
                        if k < path@.len() {
                            assert(nb[k as int] == path@[k as int]);
                            assert(path@[k as int] != 0);
                        }
                    }
                }
            } else {
                proof {
                    if self.has_path(i as int, path@) {
                        let nb = self.paths@.skip(off as int);
                        let c = choose|m: int| is_first_nul(nb, m);
                        assert(nb.take(c) == path@);
                    }
                }
            }
            i = i + 1;
        }
        None
    }

    /// The number of entries.
    pub fn len(&self) -> (r: usize)
        ensures
            r == self@.entries.len(),
    {
        self.files.len()
    }

    /// A reader over entry `index`, positioned at its start; `None` past the last
    /// entry, `InvalidName` where its path is empty, unterminated or outside the pool.
    pub fn get_file(&mut self, index: usize) -> (r: Option<Result<ArchiveFileAccess<'_>, Error>>)
        ensures
            final(self)@ == old(self)@,
            index >= old(self)@.entries.len() ==> r is None,
            index < old(self)@.entries.len() ==> {
                let e = old(self)@.entries[index as int];
                if !path_valid(old(self)@.paths, e.path_off) {
                    r == Some(Err::<ArchiveFileAccess<'_>, Error>(Error::InvalidName))
                } else {
                    r matches Some(Ok(acc)) && acc@.name == name_of(
                        old(self)@.paths.skip(e.path_off as int),
                    ) && acc@.size == e.size && acc@.offset == e.offset && acc@.data == old(
                        self,
                    )@.data && acc@.pos == 0 && acc.spec_checksum() == e.checksum
                        && acc.spec_timestamp() == e.timestamp
                }
            },
    {
        if index >= self.files.len() {
            return None;
        }
        let file = &self.files[index];
        let plen = self.paths.len();
        if file.path_off > plen as u64 {
            return Some(Err(Error::InvalidName));
        }
        let start = file.path_off as usize;
        let ghost nb = self.paths@.skip(start as int);
        let mut i: usize = start;
        while i < plen && self.paths[i] != 0
            invariant
                start <= i <= plen == self.paths@.len(),
                nb == self.paths@.skip(start as int),
                forall|j: int| 0 <= j < i - start ==> nb[j] != 0,
            decreases plen - i,
        {
            i = i + 1;
        }
        if i == plen {
            assert(!valid_name(nb));
            return Some(Err(Error::InvalidName));
        }
        let ghost c0 = i - start;
        assert(is_first_nul(nb, c0));
        proof {
            let c = choose|k: int| is_first_nul(nb, k);
            assert(c == c0) by {
                if c < c0 {
                    assert(nb[c] != 0);
                } else if c > c0 {
                    assert(nb[c0] != 0);
                }
            }
        }
        if i == start {
            assert(!valid_name(nb)) by {
                if exists|k: int| is_first_nul(nb, k) && k > 0 {
                    assert(nb[0] != 0);
                }
            }
            return Some(Err(Error::InvalidName));
        }
        let mut path: Vec<u8> = Vec::new();
        let mut j: usize = start;
        while j < i
            invariant
                start <= j <= i < plen == self.paths@.len(),
                nb == self.paths@.skip(start as int),
                path@ == nb.take(j - start),
            decreases i - j,
        {
            path.push(self.paths[j]);
            assert(path@ =~= nb.take(j + 1 - start));
            j = j + 1;
        }
        Some(
            Ok(
                ArchiveFileAccess {
                    path,
                    checksum: file.checksum,
                    offset: file.offset,
                    size: file.size,
                    timestamp: file.timestamp,
                    inner: self.inner.as_slice(),
                    reader_offset: 0,
                },
            ),
        )
    }
}

impl<'a> ArchiveFileAccess<'a> {
    /// The entry's path, without its NUL.
    pub fn path(&self) -> (r: &[u8])
        ensures
            r@ == self@.name,
    {
        self.path.as_slice()
    }

    /// The timestamp the table records for the entry.
    pub fn timestamp(&self) -> (r: u64)
        ensures
            r == self.spec_timestamp(),
    {
        self.timestamp
    }

    /// The checksum the table records for the entry.
    pub fn checksum(&self) -> (r: u64)
        ensures
            r == self.spec_checksum(),
    {
        self.checksum
    }

    /// The entry's size in bytes.
    pub fn size(&self) -> (r: u64)
        ensures
            r == self@.size,
    {
        self.size
    }

    /// Copies the next bytes of the entry into the front of `buf` and returns how
    /// many. A read never crosses the end of the entry; once it is reached, reads
    /// return 0.
    pub fn read(&mut self, buf: &mut [u8]) -> (r: usize)
        ensures
            r == read_amount(old(self)@, old(buf)@.len()),
            final(self)@ == (AccessView { pos: (old(self)@.pos + r) as nat, ..old(self)@ }),
            final(self).spec_checksum() == old(self).spec_checksum(),
            final(self).spec_timestamp() == old(self).spec_timestamp(),
            final(buf)@.len() == old(buf)@.len(),
            forall|j: int|
                0 <= j < r ==> #[trigger] final(buf)@[j] == old(self)@.data[old(self)@.offset
                    + old(self)@.pos + j],
            forall|j: int| r <= j < old(buf)@.len() ==> #[trigger] final(buf)@[j] == old(buf)@[j],
    {
        if self.reader_offset >= self.size {
            return 0;
        }
        let n = self.inner.len() as u64;
        if self.offset > n || self.reader_offset > n - self.offset {
            return 0;
        }
        let want = buf.len() as u64;
        let at = self.offset + self.reader_offset;
        let in_entry = self.size - self.reader_offset;
        let in_data = n - at;
        let mut amount = want;
        if in_entry < amount {
            amount = in_entry;
        }
        if in_data < amount {
            amount = in_data;
        }
        if amount == 0 {
            return 0;
        }
        let len = self.inner.len();
        let amount = amount as usize;
        let start = at as usize;
        let ghost old_buf = buf@;
        let mut i: usize = 0;
        while i < amount
            invariant
                i <= amount <= buf@.len(),
                start + amount <= self.inner@.len() == len,
                buf@.len() == old_buf.len(),
                forall|j: int| 0 <= j < i ==> buf@[j] == self.inner@[start + j],
                forall|j: int| i <= j < buf@.len() ==> buf@[j] == old_buf[j],
            decreases amount - i,
        {
            buf[i] = self.inner[start + i];
            i = i + 1;
        }
        self.reader_offset = self.reader_offset + amount as u64;
        amount
    }
}

} // verus!
