//! Naming of edited record files: a file stem names a record by its numeric
//! identifier (`<id>_<anything>`) or by its symbolic name.
use vstd::prelude::*;
use vstd::string::StringSliceAdditionalSpecFns;
use vstd::utf8::{encode_utf8_valid_utf8, is_char_boundary_iff_not_is_continuation_byte};

verus! {

/// The record a file names.
#[derive(Debug)]
pub enum RecordIdentifier {
    Id(i32),
    EnumName(String),
}

/// The value of a run of ASCII decimal digits.
pub open spec fn digits_value(b: Seq<u8>) -> int
    decreases b.len(),
{
    if b.len() == 0 {
        0
    } else {
        digits_value(b.drop_last()) * 10 + (b.last() - 0x30)
    }
}

pub open spec fn all_digits(b: Seq<u8>) -> bool {
    b.len() > 0 && forall|i: int| 0 <= i < b.len() ==> 0x30 <= #[trigger] b[i] <= 0x39
}

/// A decimal `i32`: an optional `+` or `-`, then one or more ASCII digits, of a
/// value that fits.
pub open spec fn parsed_i32(b: Seq<u8>) -> Option<i32> {
    let neg = b.len() > 0 && b[0] == 0x2d;
    let body = if b.len() > 0 && (b[0] == 0x2d || b[0] == 0x2b) {
        b.drop_first()
    } else {
        b
    };
    let v = if neg {
        -digits_value(body)
    } else {
        digits_value(body)
    };
    if all_digits(body) && i32::MIN <= v <= i32::MAX {
        Some(v as i32)
    } else {
        None
    }
}

/// Relies on `<i32 as FromStr>::from_str`: it accepts an optional sign and one
/// or more decimal digits whose value fits an `i32`, and nothing else.
#[verifier::external_body]
fn parse_i32(s: &str) -> (r: Option<i32>)
    ensures
        r == parsed_i32(s.spec_bytes()),
{
    <i32 as std::str::FromStr>::from_str(s).ok()
}

/// `k` is where the first `_` of `b` stands.
pub open spec fn first_underscore(b: Seq<u8>, k: int) -> bool {
    0 <= k < b.len() && b[k] == 0x5f && forall|j: int| 0 <= j < k ==> b[j] != 0x5f
}

/// The record a file stem names: `None` for an empty stem; the identifier when
/// the text before the first `_` is a decimal `i32`; otherwise the whole stem as
/// a symbolic name.
pub fn parse_file_stem(base: &str) -> (r: Option<RecordIdentifier>)
    ensures
        base@.len() == 0 ==> r is None,
        base@.len() > 0 && (forall|k: int|
            0 <= k < base.spec_bytes().len() ==> base.spec_bytes()[k] != 0x5f) ==> (r matches Some(
            RecordIdentifier::EnumName(n),
        ) && n@ == base@),
        forall|k: int|
            first_underscore(base.spec_bytes(), k) ==> match parsed_i32(
                base.spec_bytes().take(k),
            ) {
                Some(v) => r matches Some(RecordIdentifier::Id(x)) && x == v,
                None => r matches Some(RecordIdentifier::EnumName(n)) && n@ == base@,
            },
{
    if base.is_empty() {
        return None;
    }
    let bytes = base.as_bytes();
    let ghost b = base.spec_bytes();
    let mut k: usize = 0;
    while k < bytes.len() && bytes[k] != 0x5f
        invariant
            k <= b.len(),
            bytes@ == b,
            forall|j: int| 0 <= j < k ==> b[j] != 0x5f,
        decreases b.len() - k,
    {
        k = k + 1;
    }
    if k == bytes.len() {
        return Some(RecordIdentifier::EnumName(base.to_owned()));
    }
    assert(first_underscore(b, k as int));
    assert forall|j: int| first_underscore(b, j) implies j == k by {
        if j < k {
            assert(b[j] != 0x5f);
        } else if j > k {
            assert(b[k as int] != 0x5f);
        }
    }
    proof {
        encode_utf8_valid_utf8(base@);
        is_char_boundary_iff_not_is_continuation_byte(b, k as int);
    }
    let (prefix, _) = base.split_at(k);
    assert(prefix.spec_bytes() =~= b.take(k as int));
    match parse_i32(prefix) {
        Some(v) => Some(RecordIdentifier::Id(v)),
        None => Some(RecordIdentifier::EnumName(base.to_owned())),
    }
}

} // verus!
