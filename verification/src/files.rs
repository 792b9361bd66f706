//! The files around Live sets: decompressing a set, hashing it, and picking
//! Live's newest plugin database. Reading files and listing directories is
//! left to callers, which hand in bytes and directory entries.
use vstd::prelude::*;
use std::io::Read;
use crate::errors::FileError;
use crate::numbers::{format_hex8, hex8};
use crate::text::str_eq;

verus! {

/// What a gzip decoder (`flate2::read::GzDecoder`, read to the end) makes of
/// `bytes`: the data of the first gzip member, or `None` where it fails.
pub uninterp spec fn gunzipped(bytes: Seq<u8>) -> Option<Seq<u8>>;

/// Decompresses gzip data with `flate2::read::GzDecoder::read_to_end`.
/// Claimed: the result is `gunzipped` of the bytes.
#[verifier::external_body]
fn gunzip(data: &[u8]) -> (res: Option<Vec<u8>>)
    ensures
        match res {
            Some(v) => gunzipped(data@) == Some(v@),
            None => gunzipped(data@) is None,
        },
{
    let mut out = Vec::new();
    match flate2::read::GzDecoder::new(data).read_to_end(&mut out) {
        Ok(_) => Some(out),
        Err(_) => None,
    }
}

/// Decompresses the bytes of a Live set read from `path`; a failure is
/// `GzipDecompressionError` naming the path.
pub fn decompress_gzip_data(data: &[u8], path: &str) -> (res: Result<Vec<u8>, FileError>)
    ensures
        match (res, gunzipped(data@)) {
            (Ok(v), Some(w)) => v@ == w,
            (Err(FileError::GzipDecompressionError(p)), None) => p@ == path@,
            _ => false,
        },
{
    match gunzip(data) {
        Some(v) => Ok(v),
        None => Err(FileError::GzipDecompressionError(path.to_string())),
    }
}

/// The CRC-32 (IEEE) checksum that `crc32fast::hash` computes for `bytes`.
pub uninterp spec fn crc32_of(bytes: Seq<u8>) -> u32;

/// `crc32fast::hash` computes the CRC-32 (IEEE) checksum of a byte slice.
/// Claimed: the result is `crc32_of` of the bytes.
pub assume_specification[ crc32fast::hash ](buf: &[u8]) -> (res: u32)
    ensures
        res == crc32_of(buf@),
;

/// The hash of a file's content: its CRC-32 as eight lower-case hexadecimal digits.
pub fn file_hash(data: &[u8]) -> (res: String)
    ensures
        res@ == hex8(crc32_of(data@)),
{
    format_hex8(crc32fast::hash(data))
}

/// An entry of Live's database directory: its path, its extension (`None`
/// when it has none or it is not UTF-8), and its modification time in
/// nanoseconds from the Unix epoch (`None` when it cannot be read).
#[derive(Debug)]
pub struct DbFileCandidate {
    pub path: String,
    pub extension: Option<String>,
    pub modified: Option<i128>,
}

/// An entry that counts: a `.db` file whose modification time is known.
pub open spec fn eligible(c: DbFileCandidate) -> bool {
    &&& c.extension matches Some(e) && e@ == "db"@
    &&& c.modified is Some
}

/// `i` is the most recently modified eligible entry, the last one among equals.
pub open spec fn is_most_recent(cs: Seq<DbFileCandidate>, i: int) -> bool {
    &&& 0 <= i < cs.len()
    &&& eligible(cs[i])
    &&& forall|j: int| 0 <= j < cs.len() && eligible(#[trigger] cs[j]) ==> cs[j].modified.unwrap() <= cs[i].modified.unwrap()
    &&& forall|j: int| i < j < cs.len() && eligible(#[trigger] cs[j]) ==> cs[j].modified.unwrap() < cs[i].modified.unwrap()
}

/// The position of the most recently modified `.db` entry (the last one
/// among equally recent ones); `None` when there is no eligible entry.
pub fn most_recent_db_file(candidates: &Vec<DbFileCandidate>) -> (res: Option<usize>)
    ensures
        match res {
            Some(i) => is_most_recent(candidates@, i as int),
            None => forall|j: int| 0 <= j < candidates@.len() ==> !eligible(#[trigger] candidates@[j]),
        },
{
    proof {
        reveal_strlit("db");
    }
    let mut best: Option<usize> = None;
    let mut best_time: i128 = 0;
    let mut j: usize = 0;
    while j < candidates.len()
        invariant
            j <= candidates.len(),
            match best {
                Some(i) => {
                    &&& i < j
                    &&& eligible(candidates@[i as int])
                    &&& candidates@[i as int].modified == Some(best_time)
                    &&& forall|k: int| 0 <= k < j && eligible(#[trigger] candidates@[k]) ==> candidates@[k].modified.unwrap() <= best_time
                    &&& forall|k: int| i < k < j && eligible(#[trigger] candidates@[k]) ==> candidates@[k].modified.unwrap() < best_time
                },
                None => forall|k: int| 0 <= k < j ==> !eligible(#[trigger] candidates@[k]),
            },
        decreases candidates.len() - j,
    {
        let c = &candidates[j];
        let is_db = match &c.extension {
            Some(e) => str_eq(e.as_str(), "db"),
            None => false,
        };
        if is_db {
            match c.modified {
                Some(t) => {
                    let newer = match best {
                        None => true,
                        Some(_) => t >= best_time,
                    };
                    if newer {
                        best = Some(j);
                        best_time = t;
                    }
                },
                None => {},
            }
        }
        j = j + 1;
    }
    best
}

} // verus!
