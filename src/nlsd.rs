//! The audio container: a 24-byte header, then up to three sections (a lead-in,
//! the looping middle, and a tail).
use vstd::prelude::*;

use crate::bytes::{le_value, lemma_le_value_bound, lemma_pow256_values, read_le};

verus! {

/// A header field that can hold an unrecognized value.
#[derive(Clone, Copy, Debug, PartialEq, Eq, Structural)]
pub enum HeaderField {
    Format,
    Stereo,
    UnusedByte,
    EndOffset,
    TotalSize,
}

impl HeaderField {
    /// The field's name.
    pub fn name(&self) -> &'static str {
        match self {
            HeaderField::Format => "format",
            HeaderField::Stereo => "stereo",
            HeaderField::UnusedByte => "unused_byte",
            HeaderField::EndOffset => "end_ofs",
            HeaderField::TotalSize => "total_size",
        }
    }
}

/// Why a container could not be read.
#[derive(Clone, Copy, Debug, PartialEq, Eq, Structural)]
pub enum ReadError {
    /// A header field holds a value the format does not define.
    UnrecognizedValue(HeaderField, u32),
    /// The data ends inside the header.
    UnexpectedEof,
}

/// The header fields, as read.
pub struct Header {
    pub format: u32,
    pub total_size: u32,
    pub sample_rate: u16,
    pub stereo: bool,
    pub samples: u32,
    pub middle_ofs: u32,
    pub end_ofs: u32,
}

/// Reading the header at the start of `b`, field by field; the first field that
/// is missing or unrecognized ends the read.
pub open spec fn spec_header(b: Seq<u8>) -> Result<Header, ReadError> {
    let format = le_value(b.subrange(0, 4)) as u32;
    let stereo = b[10];
    if b.len() < 4 {
        Err(ReadError::UnexpectedEof)
    } else if format != 5 && format != 7 {
        Err(ReadError::UnrecognizedValue(HeaderField::Format, format))
    } else if b.len() < 11 {
        Err(ReadError::UnexpectedEof)
    } else if stereo > 1 {
        Err(ReadError::UnrecognizedValue(HeaderField::Stereo, stereo as u32))
    } else if b.len() < 12 {
        Err(ReadError::UnexpectedEof)
    } else if b[11] != 0 {
        Err(ReadError::UnrecognizedValue(HeaderField::UnusedByte, b[11] as u32))
    } else if b.len() < 24 {
        Err(ReadError::UnexpectedEof)
    } else {
        Ok(
            Header {
                format,
                total_size: le_value(b.subrange(4, 8)) as u32,
                sample_rate: le_value(b.subrange(8, 10)) as u16,
                stereo: stereo == 1,
                samples: le_value(b.subrange(12, 16)) as u32,
                middle_ofs: le_value(b.subrange(16, 20)) as u32,
                end_ofs: le_value(b.subrange(20, 24)) as u32,
            },
        )
    }
}

/// An opened container: its header and its bytes.
pub struct NlsdRead {
    format: u32,
    total_size: u32,
    sample_rate: u16,
    stereo: bool,
    samples: u32,
    middle_ofs: u32,
    end_ofs: u32,
    read: Vec<u8>,
}

/// A reader over one section's bytes.
pub struct NlsdSectionRead<'a> {
    data: &'a [u8],
    start: u64,
    len: usize,
    pos: usize,
}

impl NlsdRead {
    pub closed spec fn header(&self) -> Header {
        Header {
            format: self.format,
            total_size: self.total_size,
            sample_rate: self.sample_rate,
            stereo: self.stereo,
            samples: self.samples,
            middle_ofs: self.middle_ofs,
            end_ofs: self.end_ofs,
        }
    }

    pub closed spec fn data(&self) -> Seq<u8> {
        self.read@
    }

    /// Reads the header of a container held in `data`.
    pub fn open(data: Vec<u8>) -> (r: Result<NlsdRead, ReadError>)
        ensures
            match spec_header(data@) {
                Ok(h) => r matches Ok(n) && n.header() == h && n.data() == data@,
                Err(x) => r == Err::<NlsdRead, ReadError>(x),
            },
    {
        let n = data.len();
        proof {
            lemma_pow256_values();
        }
        if n < 4 {
            return Err(ReadError::UnexpectedEof);
        }
        let format = read_le(data.as_slice(), 0, 4);
        proof {
            lemma_le_value_bound(data@.subrange(0, 4));
        }
        let format = format as u32;
        if format != 5 && format != 7 {
            return Err(ReadError::UnrecognizedValue(HeaderField::Format, format));
        }
        if n < 11 {
            return Err(ReadError::UnexpectedEof);
        }
        let stereo = data[10];
        if stereo > 1 {
            return Err(ReadError::UnrecognizedValue(HeaderField::Stereo, stereo as u32));
        }
        if n < 12 {
            return Err(ReadError::UnexpectedEof);
        }
        if data[11] != 0 {
            return Err(ReadError::UnrecognizedValue(HeaderField::UnusedByte, data[11] as u32));
        }
        if n < 24 {
            return Err(ReadError::UnexpectedEof);
        }
        let total_size = read_le(data.as_slice(), 4, 4) as u32;
        let sample_rate = read_le(data.as_slice(), 8, 2) as u16;
        let samples = read_le(data.as_slice(), 12, 4) as u32;
        let middle_ofs = read_le(data.as_slice(), 16, 4) as u32;
        let end_ofs = read_le(data.as_slice(), 20, 4) as u32;
        Ok(
            NlsdRead {
                format,
                total_size,
                sample_rate,
                stereo: stereo == 1,
                samples,
                middle_ofs,
                end_ofs,
                read: data,
            },
        )
    }

    /// Whether there is a lead-in before the looping middle.
    pub fn has_start(&self) -> (r: bool)
        ensures
            r == (self.header().middle_ofs != 0),
    {
        self.middle_ofs != 0
    }

    /// Whether there is a tail after the looping middle.
    pub fn has_end(&self) -> (r: bool)
        ensures
            r == (self.header().end_ofs + self.header().middle_ofs != self.header().total_size),
    {
        self.end_ofs as u64 + self.middle_ofs as u64 != self.total_size as u64
    }

    /// The format code: 5 or 7.
    pub fn format(&self) -> (r: u32)
        ensures
            r == self.header().format,
    {
        self.format
    }

    /// Samples per second.
    pub fn sample_rate(&self) -> (r: u16)
        ensures
            r == self.header().sample_rate,
    {
        self.sample_rate
    }

    /// Whether the audio has two channels.
    pub fn stereo(&self) -> (r: bool)
        ensures
            r == self.header().stereo,
    {
        self.stereo
    }

    /// The lead-in, where there is one: `middle_ofs` bytes after the header.
    pub fn section_begin(&self) -> (r: Option<NlsdSectionRead<'_>>)
        ensures
            self.header().middle_ofs == 0 ==> r is None,
            self.header().middle_ofs != 0 ==> (r matches Some(s) && s.spec_start() == 0x18
                && s.spec_len() == self.header().middle_ofs && s.spec_pos() == 0 && s.spec_data()
                == self.data()),
    {
        if !self.has_start() {
            return None;
        }
        Some(
            NlsdSectionRead {
                data: self.read.as_slice(),
                start: 0x18,
                len: self.middle_ofs as usize,
                pos: 0,
            },
        )
    }

    /// The looping middle: from `middle_ofs` to `end_ofs`, counted after the header.
    pub fn section_middle(&self) -> (r: Result<NlsdSectionRead<'_>, ReadError>)
        ensures
            self.header().end_ofs < self.header().middle_ofs ==> r == Err::<
                NlsdSectionRead<'_>,
                ReadError,
            >(ReadError::UnrecognizedValue(HeaderField::EndOffset, self.header().end_ofs)),
            self.header().end_ofs >= self.header().middle_ofs ==> (r matches Ok(s)
                && s.spec_start() == 0x18 + self.header().middle_ofs && s.spec_len()
                == self.header().end_ofs - self.header().middle_ofs && s.spec_pos() == 0
                && s.spec_data() == self.data()),
    {
        if self.end_ofs < self.middle_ofs {
            return Err(ReadError::UnrecognizedValue(HeaderField::EndOffset, self.end_ofs));
        }
        Ok(
            NlsdSectionRead {
                data: self.read.as_slice(),
                start: 0x18 + self.middle_ofs as u64,
                len: (self.end_ofs - self.middle_ofs) as usize,
                pos: 0,
            },
        )
    }

    /// The tail, where there is one: from `end_ofs` to `total_size`, counted after
    /// the header.
    pub fn section_end(&self) -> (r: Result<Option<NlsdSectionRead<'_>>, ReadError>)
        ensures
            self.header().end_ofs + self.header().middle_ofs == self.header().total_size ==> r
                == Ok::<Option<NlsdSectionRead<'_>>, ReadError>(None),
            self.header().end_ofs + self.header().middle_ofs != self.header().total_size
                && self.header().total_size < self.header().end_ofs ==> r == Err::<
                Option<NlsdSectionRead<'_>>,
                ReadError,
            >(ReadError::UnrecognizedValue(HeaderField::TotalSize, self.header().total_size)),
            self.header().end_ofs + self.header().middle_ofs != self.header().total_size
                && self.header().total_size >= self.header().end_ofs ==> (r matches Ok(Some(s))
                && s.spec_start() == 0x18 + self.header().end_ofs && s.spec_len()
                == self.header().total_size - self.header().end_ofs && s.spec_pos() == 0
                && s.spec_data() == self.data()),
    {
        if !self.has_end() {
            return Ok(None);
        }
        if self.total_size < self.end_ofs {
            return Err(ReadError::UnrecognizedValue(HeaderField::TotalSize, self.total_size));
        }
        Ok(
            Some(
                NlsdSectionRead {
                    data: self.read.as_slice(),
                    start: 0x18 + self.end_ofs as u64,
                    len: (self.total_size - self.end_ofs) as usize,
                    pos: 0,
                },
            ),
        )
    }
}

impl<'a> NlsdSectionRead<'a> {
    pub closed spec fn spec_data(&self) -> Seq<u8> {
        self.data@
    }

    pub closed spec fn spec_start(&self) -> nat {
        self.start as nat
    }

    pub closed spec fn spec_len(&self) -> nat {
        self.len as nat
    }

    pub closed spec fn spec_pos(&self) -> nat {
        self.pos as nat
    }

    /// How many bytes a read of `want` bytes hands back.
    pub open spec fn spec_amount(&self, want: nat) -> nat {
        let at = self.spec_start() + self.spec_pos();
        let in_section = if self.spec_pos() <= self.spec_len() {
            (self.spec_len() - self.spec_pos()) as nat
        } else {
            0nat
        };
        let in_data = if at <= self.spec_data().len() {
            (self.spec_data().len() - at) as nat
        } else {
            0nat
        };
        vstd::math::min(vstd::math::min(want as int, in_section as int), in_data as int) as nat
    }

    /// Copies the next bytes of the section into the front of `buf` and returns
    /// how many; 0 once the section or the data is exhausted.
    pub fn read(&mut self, buf: &mut [u8]) -> (r: usize)
        ensures
            r == old(self).spec_amount(old(buf)@.len()),
            final(self).spec_pos() == old(self).spec_pos() + r,
            final(self).spec_start() == old(self).spec_start(),
            final(self).spec_len() == old(self).spec_len(),
            final(self).spec_data() == old(self).spec_data(),
            final(buf)@.len() == old(buf)@.len(),
            forall|j: int|
                0 <= j < r ==> #[trigger] final(buf)@[j] == old(self).spec_data()[old(
                    self,
                ).spec_start() + old(self).spec_pos() + j],
            forall|j: int| r <= j < old(buf)@.len() ==> #[trigger] final(buf)@[j] == old(buf)@[j],
    {
        let n = self.data.len();
        if self.pos >= self.len || self.start > n as u64 || self.pos as u64 > n as u64 - self.start {
            return 0;
        }
        let at = (self.start + self.pos as u64) as usize;
        let mut amount = buf.len();
        if self.len - self.pos < amount {
            amount = self.len - self.pos;
        }
        if n - at < amount {
            amount = n - at;
        }
        let ghost old_buf = buf@;
        let mut i: usize = 0;
        while i < amount
            invariant
                i <= amount <= buf@.len(),
                at + amount <= self.data@.len() == n,
                buf@.len() == old_buf.len(),
                forall|j: int| 0 <= j < i ==> buf@[j] == self.data@[at + j],
                forall|j: int| i <= j < buf@.len() ==> buf@[j] == old_buf[j],
            decreases amount - i,
        {
            buf[i] = self.data[at + i];
            i = i + 1;
        }
        self.pos = self.pos + amount;
        amount
    }
}

} // verus!
