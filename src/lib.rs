//! Readers and writers for a family of game data formats: a schema-driven codec
//! for tag-free, length-prefixed binary records and the record sets that frame
//! them; the two archive containers that hold those record sets; the script
//! archive writer; the audio container; and the compressed-file wrapper.
//!
//! Every format is described by spec functions over bytes, and each reader and
//! writer is proved to follow its description.
use vstd::prelude::*;

pub mod bytes;
pub mod database;
pub mod de;
pub mod dsarcfl;
pub mod fafullfs;
pub mod laws;
pub mod modding;
pub mod nlsd;
pub mod records;
pub mod scripts;
pub mod ser;
pub mod shape;
mod utf8_eq;
pub mod ykcmp;

verus! {

} // verus!
