//! The compressed-file wrapper: an 8-byte magic, then the encoding, the
//! compressed length and the decompressed length, each a `u32`, then the payload.
use vstd::prelude::*;

use crate::bytes::{le_value, lemma_le_value_bound, lemma_pow256_values, read_le};

verus! {

#[verifier::external_type_specification]
#[verifier::external_body]
pub struct ExDecompressError(lz4_flex::block::DecompressError);

/// What LZ4 block decompression of `input` gives, with room for `size` bytes:
/// the bytes, or `None` where the input is not a valid block for that room.
pub uninterp spec fn lz4_block(input: Seq<u8>, size: nat) -> Option<Seq<u8>>;

/// Relies on lz4_flex::block::decompress: it decompresses one LZ4 block into a
/// buffer of `size` bytes, and hands back the bytes it produced, never more than
/// `size`; the outcome depends on the input and `size` alone.
#[verifier::external_body]
fn lz4_decompress(input: &[u8], size: usize) -> (r: Result<
    Vec<u8>,
    lz4_flex::block::DecompressError,
>)
    ensures
        r is Ok <==> lz4_block(input@, size as nat) is Some,
        r matches Ok(v) ==> v@ == lz4_block(input@, size as nat).unwrap() && v@.len() <= size,
{
    lz4_flex::block::decompress(input, size)
}

/// Why a compressed file could not be opened.
#[derive(Debug)]
pub enum DecodeError {
    /// The file does not start with `YKCMP_V1`.
    InvalidMagic,
    /// The encoding field names no encoding this reader knows.
    UnsupportedEncoding(u32),
    /// The data ends inside the header or the payload.
    UnexpectedEof,
    /// The LZ4 payload is not a valid block.
    Lz4DecompressError(lz4_flex::block::DecompressError),
}

/// The eight bytes every compressed file starts with.
pub open spec fn ykcmp_magic() -> Seq<u8> {
    seq![0x59u8, 0x4b, 0x43, 0x4d, 0x50, 0x5f, 0x56, 0x31]
}

/// The encoding, compressed length and decompressed length in the header.
pub open spec fn header_field(b: Seq<u8>, i: int) -> nat {
    le_value(b.subrange(8 + 4 * i, 12 + 4 * i))
}

/// A reader over the decompressed bytes of a compressed file.
pub struct Decoder {
    out: Vec<u8>,
    pos: usize,
    decomp_len: u64,
}

impl Decoder {
    pub closed spec fn output(&self) -> Seq<u8> {
        self.out@
    }

    pub closed spec fn position(&self) -> nat {
        self.pos as nat
    }

    /// Reads the header and decompresses the payload. Encodings 8 and 9 are LZ4
    /// blocks; any other encoding is refused.
    pub fn new(data: &[u8]) -> (r: Result<Decoder, DecodeError>)
        ensures
            data@.len() < 20 ==> r matches Err(DecodeError::UnexpectedEof),
            data@.len() >= 20 && data@.take(8) != ykcmp_magic() ==> r matches Err(
                DecodeError::InvalidMagic,
            ),
            data@.len() >= 20 && data@.take(8) == ykcmp_magic() ==> {
                let encoding = header_field(data@, 0);
                let comp_len = header_field(data@, 1);
                let decomp_len = header_field(data@, 2);
                if encoding != 8 && encoding != 9 {
                    r matches Err(DecodeError::UnsupportedEncoding(e)) && e == encoding
                } else if data@.len() < 20 + comp_len {
                    r matches Err(DecodeError::UnexpectedEof)
                } else {
                    match lz4_block(data@.subrange(20, 20int + comp_len), decomp_len) {
                        Some(out) => r matches Ok(d) && d.output() == out && d.position() == 0,
                        None => r matches Err(DecodeError::Lz4DecompressError(_)),
                    }
                }
            },
    {
        let n = data.len();
        if n < 20 {
            return Err(DecodeError::UnexpectedEof);
        }
        let magic: [u8; 8] = [0x59, 0x4b, 0x43, 0x4d, 0x50, 0x5f, 0x56, 0x31];
        let mut k: usize = 0;
        while k < 8
            invariant
                k <= 8,
                n == data@.len() >= 20,
                magic@ == ykcmp_magic(),
                forall|j: int| 0 <= j < k ==> data@[j] == ykcmp_magic()[j],
            decreases 8 - k,
        {
            if data[k] != magic[k] {
                assert(data@.take(8)[k as int] != ykcmp_magic()[k as int]);
                return Err(DecodeError::InvalidMagic);
            }
            k = k + 1;
        }
        assert(data@.take(8) =~= ykcmp_magic());
        let encoding = read_le(data, 8, 4);
        let comp_len = read_le(data, 12, 4);
        let decomp_len = read_le(data, 16, 4);
        proof {
            lemma_pow256_values();
            lemma_le_value_bound(data@.subrange(8, 12));
            lemma_le_value_bound(data@.subrange(12, 16));
            lemma_le_value_bound(data@.subrange(16, 20));
        }
        if encoding != 8 && encoding != 9 {
            return Err(DecodeError::UnsupportedEncoding(encoding as u32));
        }
        if comp_len > (n - 20) as u64 {
            return Err(DecodeError::UnexpectedEof);
        }
        let payload = &data[20..20 + comp_len as usize];
        match lz4_decompress(payload, decomp_len as usize) {
            Ok(out) => Ok(Decoder { out, pos: 0, decomp_len }),
            Err(e) => Err(DecodeError::Lz4DecompressError(e)),
        }
    }

    /// Copies the next decompressed bytes into the front of `buf` and returns how
    /// many; 0 once all have been read.
    pub fn read(&mut self, buf: &mut [u8]) -> (r: usize)
        ensures
            r == vstd::math::min(
                old(buf)@.len() as int,
                if old(self).position() <= old(self).output().len() {
                    old(self).output().len() - old(self).position()
                } else {
                    0
                },
            ),
            final(self).output() == old(self).output(),
            final(self).position() == old(self).position() + r,
            final(buf)@.len() == old(buf)@.len(),
            forall|j: int|
                0 <= j < r ==> #[trigger] final(buf)@[j] == old(self).output()[old(
                    self,
                ).position() + j],
            forall|j: int| r <= j < old(buf)@.len() ==> #[trigger] final(buf)@[j] == old(buf)@[j],
    {
        let n = self.out.len();
        if self.pos >= n {
            return 0;
        }
        let mut amount = buf.len();
        if n - self.pos < amount {
            amount = n - self.pos;
        }
        let start = self.pos;
        let ghost old_buf = buf@;
        let mut i: usize = 0;
        while i < amount
            invariant
                i <= amount <= buf@.len(),
                start + amount <= self.out@.len() == n,
                start == self.pos,
                buf@.len() == old_buf.len(),
                forall|j: int| 0 <= j < i ==> buf@[j] == self.out@[start + j],
                forall|j: int| i <= j < buf@.len() ==> buf@[j] == old_buf[j],
            decreases amount - i,
        {
            buf[i] = self.out[start + i];
            i = i + 1;
        }
        self.pos = self.pos + amount;
        amount
    }
}

} // verus!
