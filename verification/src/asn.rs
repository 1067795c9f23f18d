//! Decisions around the IP-to-AS-number database: which answers are
//! routed, when the cached copy is refreshed, what a download must look
//! like.

use vstd::prelude::*;

use crate::text::bytes_start_with;

verus! {

/// Where the database is downloaded from.
pub const ASN_DB_URL: &'static str = "https://iptoasn.com/data/ip2asn-combined.tsv.gz";

/// The largest download accepted, in bytes.
pub const MAX_DOWNLOAD_SIZE: u64 = 268435456;

/// The age, in seconds, after which the cached copy is stale.
pub const MAX_AGE_SECS: u64 = 86400;

/// The AS number of a lookup, unless it is 0 (unrouted).
pub fn routed_asn(as_number: u32) -> (r: Option<i64>)
    ensures
        r == if as_number == 0 {
            None
        } else {
            Some(as_number as i64)
        },
{
    if as_number != 0 {
        Some(as_number as i64)
    } else {
        None
    }
}

/// How old the cached copy of the database is.
#[derive(Clone, Copy, Debug, PartialEq, Eq, Structural)]
pub enum FileAge {
    /// Its modification time cannot be read (no file, say).
    Unknown,
    /// It was modified after the current time.
    Ahead,
    /// It was modified this long ago.
    Elapsed { secs: u64, nanos: u32 },
}

/// Whether the cached copy is stale: unreadable, or older than a day.
pub fn is_stale(age: FileAge) -> (r: bool)
    ensures
        r == match age {
            FileAge::Unknown => true,
            FileAge::Ahead => false,
            FileAge::Elapsed { secs, nanos } => secs > MAX_AGE_SECS || (secs == MAX_AGE_SECS && nanos > 0),
        },
{
    match age {
        FileAge::Unknown => true,
        FileAge::Ahead => false,
        FileAge::Elapsed { secs, nanos } => secs > MAX_AGE_SECS || (secs == MAX_AGE_SECS && nanos > 0),
    }
}

/// Whether a refresh downloads the database again: when the cached copy is
/// stale or none is loaded.
pub fn needs_download(stale: bool, loaded: bool) -> (r: bool)
    ensures
        r == (stale || !loaded),
{
    stale || !loaded
}

/// The two bytes that start every gzip stream.
pub open spec fn gzip_magic() -> Seq<u8> {
    seq![0x1fu8, 0x8bu8]
}

/// Whether downloaded bytes start like a gzip stream; other downloads are
/// refused and never replace the cached copy.
pub fn is_gzip(bytes: &[u8]) -> (r: bool)
    ensures
        r == (bytes@.len() >= 2 && bytes@[0] == 0x1f && bytes@[1] == 0x8b),
{
    let magic: [u8; 2] = [0x1f, 0x8b];
    let r = bytes_start_with(bytes, magic.as_slice());
    proof {
        if bytes@.len() >= 2 {
            assert(magic@ =~= seq![0x1fu8, 0x8bu8]);
            assert(bytes@.take(2)[0] == bytes@[0]);
            assert(bytes@.take(2)[1] == bytes@[1]);
            if bytes@[0] == 0x1f && bytes@[1] == 0x8b {
                assert(bytes@.take(2) =~= magic@);
            }
        }
    }
    r
}

} // verus!
