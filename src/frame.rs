//! A color record and a depth record kept whole, with one timestamp for the
//! pair, in one zstd frame.
use vstd::prelude::*;
use crate::color::{
    color_layout, color_wf, lemma_color_round_trip, parse_color, parse_color_at,
    ColorFrameSerializable, ColorRecord,
};
use vstd::pervasive::unreached;
use crate::compress::{zstd_compress, zstd_decompress, zstd_decoded, zstd_frame};
use crate::depth::{
    depth_layout, depth_wf, lemma_depth_round_trip, parse_depth, parse_depth_at,
    DepthFrameSerializable, DepthRecord,
};
use crate::error::CodecError;
use crate::layout::{
    le_bytes, lemma_fixed8_round_trip, lemma_holds_at_split, push_bytes, push_le, read_fixed8,
    read_fixed8_at,
};

verus! {

/// Compression level of a whole pair.
pub const FRAME_LEVEL: i32 = 6;

/// What a pair holds.
pub ghost struct FrameRecord {
    pub rgb: ColorRecord,
    pub depth: DepthRecord,
    pub timestamp_bits: u64,
}

/// A color record and a depth record kept whole, with the timestamp of the
/// pair (the bit pattern of a 64-bit float, in seconds).
#[derive(Debug)]
pub struct CombinedFrame {
    pub rgb: ColorFrameSerializable,
    pub depth: DepthFrameSerializable,
    pub timestamp_bits: u64,
}

impl View for CombinedFrame {
    type V = FrameRecord;

    open spec fn view(&self) -> FrameRecord {
        FrameRecord { rgb: self.rgb@, depth: self.depth@, timestamp_bits: self.timestamp_bits }
    }
}

/// Both records are well formed.
pub open spec fn frame_wf(f: FrameRecord) -> bool {
    color_wf(f.rgb) && depth_wf(f.depth)
}

/// The color record, the depth record, then the timestamp.
pub open spec fn frame_layout(f: FrameRecord) -> Seq<u8> {
    color_layout(f.rgb) + depth_layout(f.depth) + le_bytes(f.timestamp_bits, 8)
}

/// What decoding `encoded` gives: a function of the bytes alone.
pub open spec fn frame_decoded(encoded: Seq<u8>) -> Result<FrameRecord, CodecError> {
    match zstd_decoded(encoded) {
        None => Err(CodecError::Decompression),
        Some(raw) => match parse_color(raw, 0) {
            None => Err(CodecError::Malformed),
            Some((rgb, pos1)) => match parse_depth(raw, pos1) {
                None => Err(CodecError::Malformed),
                Some((depth, pos2)) => match read_fixed8(raw, pos2) {
                    None => Err(CodecError::Malformed),
                    Some((ts, _)) => Ok(FrameRecord { rgb, depth, timestamp_bits: ts }),
                },
            },
        },
    }
}

/// Bytes that decompress to the layout of a well-formed pair (as the
/// encoder's output does) decode to that pair exactly.
pub proof fn lemma_frame_round_trip(f: FrameRecord, encoded: Seq<u8>)
    requires
        frame_wf(f),
        f.rgb.data.len() <= u64::MAX,
        f.depth.data.len() <= usize::MAX,
        zstd_decoded(encoded) == Some(frame_layout(f)),
    ensures
        frame_decoded(encoded) == Ok::<FrameRecord, CodecError>(f),
{
    let b = frame_layout(f);
    let c = color_layout(f.rgb);
    let d = depth_layout(f.depth);
    assert(b.subrange(0, b.len() as int) =~= b);
    lemma_holds_at_split(b, 0, c + d, le_bytes(f.timestamp_bits, 8));
    lemma_holds_at_split(b, 0, c, d);
    lemma_color_round_trip(b, 0, f.rgb);
    lemma_depth_round_trip(b, c.len() as int, f.depth);
    lemma_fixed8_round_trip(b, (c.len() + d.len()) as int, f.timestamp_bits);
}

impl CombinedFrame {
    pub fn new(rgb: ColorFrameSerializable, depth: DepthFrameSerializable, timestamp_bits: u64) -> (r:
        Self)
        ensures
            r@ == (FrameRecord { rgb: rgb@, depth: depth@, timestamp_bits }),
    {
        CombinedFrame { rgb, depth, timestamp_bits }
    }

    /// The pair in the deterministic layout, compressed at [`FRAME_LEVEL`].
    #[allow(non_snake_case)]
    pub fn encodeAndCompress(&self) -> (r: Result<Vec<u8>, CodecError>)
        ensures
            !frame_wf(self@) ==> r == Err::<Vec<u8>, CodecError>(CodecError::InvalidRecord),
            frame_wf(self@) ==> (r matches Ok(v) && v@ == zstd_frame(frame_layout(self@), FRAME_LEVEL)
                && zstd_decoded(v@) == Some(frame_layout(self@)) && frame_decoded(v@) == Ok::<
                FrameRecord,
                CodecError,
            >(self@)),
    {
        if !self.rgb.is_well_formed() || !self.depth.is_well_formed() {
            return Err(CodecError::InvalidRecord);
        }
        let mut bytes = self.rgb.to_layout();
        let depth_bytes = self.depth.to_layout();
        push_bytes(&mut bytes, depth_bytes.as_slice());
        push_le(&mut bytes, self.timestamp_bits, 8);
        assert(bytes@ =~= frame_layout(self@));
        let n1 = self.rgb.data.len();
        let n2 = self.depth.data.len();
        match zstd_compress(bytes.as_slice(), FRAME_LEVEL) {
            Ok(v) => {
                proof {
                    assert(self.rgb.data@.len() == n1 && self.depth.data@.len() == n2);
                    lemma_frame_round_trip(self@, v@);
                }
                Ok(v)
            },
            Err(_) => unreached(),
        }
    }

    /// Decompresses `encoded` and reads the pair it holds.
    #[allow(non_snake_case)]
    pub fn decodeAndDecompress(encoded: Vec<u8>) -> (r: Result<Self, CodecError>)
        ensures
            match frame_decoded(encoded@) {
                Ok(f) => r matches Ok(v) && v@ == f,
                Err(e) => r == Err::<Self, CodecError>(e),
            },
    {
        let raw = match zstd_decompress(encoded.as_slice()) {
            Ok(raw) => raw,
            Err(_) => return Err(CodecError::Decompression),
        };
        let b = raw.as_slice();
        let (rgb, pos1) = match parse_color_at(b, 0) {
            Some(x) => x,
            None => return Err(CodecError::Malformed),
        };
        let (depth, pos2) = match parse_depth_at(b, pos1) {
            Some(x) => x,
            None => return Err(CodecError::Malformed),
        };
        let (timestamp_bits, _) = match read_fixed8_at(b, pos2) {
            Some(x) => x,
            None => return Err(CodecError::Malformed),
        };
        Ok(CombinedFrame { rgb, depth, timestamp_bits })
    }
}

} // verus!
