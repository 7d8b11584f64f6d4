//! The lossless general-purpose compressor (zstd) behind the depth payloads
//! and the outer wrap of the combined message.
use vstd::prelude::*;

verus! {

#[verifier::external_type_specification]
#[verifier::external_body]
pub struct ExIoError(std::io::Error);

/// The zstd frame that the encoder writes for `input` at compression `level`.
pub uninterp spec fn zstd_frame(input: Seq<u8>, level: i32) -> Seq<u8>;

/// What the zstd decoder makes of `input`: the decompressed bytes, or `None`
/// where it reports an error.
pub uninterp spec fn zstd_decoded(input: Seq<u8>) -> Option<Seq<u8>>;

/// Relies on zstd::stream::encode_all: writing into a `Vec` does not fail,
/// the level is clamped to the supported range rather than refused, and a
/// context that cannot be allocated panics rather than returning an error,
/// so the call succeeds. The result is the zstd frame of `input` at
/// `level`, which depends on those two alone; every frame starts with the
/// 4-byte magic number; and zstd is lossless, so that frame decodes to
/// `input` exactly.
#[verifier::external_body]
pub(crate) fn zstd_compress(input: &[u8], level: i32) -> (r: Result<Vec<u8>, std::io::Error>)
    ensures
        r is Ok,
        r matches Ok(v) ==> v@.len() >= 4,
        r matches Ok(v) ==> v@ == zstd_frame(input@, level),
        r matches Ok(v) ==> zstd_decoded(v@) == Some(input@),
{
    zstd::stream::encode_all(input, level)
}

/// Relies on zstd::stream::decode_all: whether it succeeds, and what it
/// returns, depend on the input alone.
#[verifier::external_body]
pub(crate) fn zstd_decompress(input: &[u8]) -> (r: Result<Vec<u8>, std::io::Error>)
    ensures
        r is Ok <==> zstd_decoded(input@) is Some,
        r matches Ok(v) ==> zstd_decoded(input@) == Some(v@),
{
    zstd::stream::decode_all(input)
}

} // verus!
