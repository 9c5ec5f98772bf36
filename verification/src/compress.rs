//! zstd compression of file bodies.
use vstd::prelude::*;

verus! {

/// The zstd frame that `zstd::stream::encode_all` produces for `data` at `level`.
pub uninterp spec fn zstd_frame(data: Seq<u8>, level: int) -> Seq<u8>;

/// `zstd::stream::encode_all(data, level)`. Claimed: it succeeds, with the frame named
/// [`zstd_frame`] of the input and level. It reads from a slice and writes to a vector,
/// neither of which fails, and zstd clamps any level into its range; only running out
/// of memory, which aborts, is left.
#[verifier::external_body]
pub(crate) fn zstd_compress(data: &[u8], level: i32) -> (r: Option<Vec<u8>>)
    ensures
        r is Some,
        r matches Some(v) ==> v@ == zstd_frame(data@, level as int),
{
    match zstd::stream::encode_all(data, level) {
        Ok(v) => Some(v),
        Err(_) => None,
    }
}

/// `zstd::stream::decode_all(data)`. Claimed: zstd is lossless, so a complete frame
/// made by `encode_all` decodes to the data it was made from. What it returns on any
/// other input is left open.
#[verifier::external_body]
pub(crate) fn zstd_decompress(data: &[u8]) -> (r: Option<Vec<u8>>)
    ensures
        forall|d: Seq<u8>, level: int| data@ == #[trigger] zstd_frame(d, level) ==> r is Some,
        forall|d: Seq<u8>, level: int|
            data@ == #[trigger] zstd_frame(d, level) ==> (r matches Some(v) ==> v@ == d),
{
    match zstd::stream::decode_all(data) {
        Ok(v) => Some(v),
        Err(_) => None,
    }
}

} // verus!
