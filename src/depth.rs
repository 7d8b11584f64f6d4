//! Depth frame records: quantized distance codes, row-major.
use vstd::prelude::*;
use vstd::pervasive::unreached;
use crate::compress::{zstd_compress, zstd_decompress, zstd_decoded, zstd_frame};
use crate::error::CodecError;
use crate::layout::{
    holds_at, le_bytes, lemma_fixed8_round_trip, lemma_holds_at_split, lemma_holds_whole,
    lemma_u16s_round_trip, lemma_varint_round_trip, push_le, push_u16s, push_varint, read_fixed8,
    read_fixed8_at, read_u16s, read_u16s_at, read_varint, read_varint_at, u16s_layout, varint,
    wide_mul,
};

verus! {

/// Compression level of the standalone depth payload.
pub const DEPTH_LEVEL: i32 = 6;

/// What a depth record holds.
pub ghost struct DepthRecord {
    pub width: usize,
    pub height: usize,
    pub timestamp_bits: u64,
    pub data: Seq<u16>,
}

/// One depth frame: `width * height` distance codes in row-major order, so
/// that the code of pixel (`row`, `col`) stands at `row * width + col`. The
/// capture time is kept as the bit pattern of a 64-bit float, in seconds.
#[derive(Debug)]
pub struct DepthFrameSerializable {
    pub width: usize,
    pub height: usize,
    pub timestamp_bits: u64,
    pub data: Vec<u16>,
}

impl View for DepthFrameSerializable {
    type V = DepthRecord;

    open spec fn view(&self) -> DepthRecord {
        DepthRecord {
            width: self.width,
            height: self.height,
            timestamp_bits: self.timestamp_bits,
            data: self.data@,
        }
    }
}

/// The record holds one code per pixel.
pub open spec fn depth_wf(d: DepthRecord) -> bool {
    d.data.len() == d.width * d.height
}

/// Width, height, timestamp, then the codes with their count in front.
pub open spec fn depth_layout(d: DepthRecord) -> Seq<u8> {
    varint(d.width as u64) + varint(d.height as u64) + le_bytes(d.timestamp_bits, 8) + varint(
        d.data.len() as u64,
    ) + u16s_layout(d.data)
}

/// Reads a well-formed depth record at `at`: the record and the position after it.
pub open spec fn parse_depth(b: Seq<u8>, at: int) -> Option<(DepthRecord, int)> {
    match read_varint(b, at) {
        None => None,
        Some((w, pos1)) => match read_varint(b, pos1) {
            None => None,
            Some((h, pos2)) => match read_fixed8(b, pos2) {
                None => None,
                Some((ts, pos3)) => match read_varint(b, pos3) {
                    None => None,
                    Some((n, pos4)) => match read_u16s(b, pos4, n as nat) {
                        None => None,
                        Some((data, pos5)) => if w <= usize::MAX && h <= usize::MAX && data.len()
                            == w * h {
                            Some(
                                (
                                    DepthRecord {
                                        width: w as usize,
                                        height: h as usize,
                                        timestamp_bits: ts,
                                        data,
                                    },
                                    pos5,
                                ),
                            )
                        } else {
                            None
                        },
                    },
                },
            },
        },
    }
}

/// A well-formed depth record read back from its layout is the record itself.
pub proof fn lemma_depth_round_trip(b: Seq<u8>, at: int, d: DepthRecord)
    requires
        holds_at(b, at, depth_layout(d)),
        depth_wf(d),
        d.data.len() <= usize::MAX,
    ensures
        parse_depth(b, at) == Some((d, at + depth_layout(d).len())),
{
    let s1 = varint(d.width as u64);
    let s2 = varint(d.height as u64);
    let s3 = le_bytes(d.timestamp_bits, 8);
    let s4 = varint(d.data.len() as u64);
    let s5 = u16s_layout(d.data);
    lemma_holds_at_split(b, at, s1 + s2 + s3 + s4, s5);
    lemma_holds_at_split(b, at, s1 + s2 + s3, s4);
    lemma_holds_at_split(b, at, s1 + s2, s3);
    lemma_holds_at_split(b, at, s1, s2);
    lemma_varint_round_trip(b, at, d.width as u64);
    lemma_varint_round_trip(b, at + s1.len(), d.height as u64);
    lemma_fixed8_round_trip(b, at + s1.len() + s2.len(), d.timestamp_bits);
    lemma_varint_round_trip(b, at + s1.len() + s2.len() + 8, d.data.len() as u64);
    lemma_u16s_round_trip(b, at + s1.len() + s2.len() + 8 + s4.len(), d.data);
}

/// Reads a well-formed depth record at `at`.
pub fn parse_depth_at(b: &[u8], at: usize) -> (r: Option<(DepthFrameSerializable, usize)>)
    ensures
        match r {
            Some((d, next)) => parse_depth(b@, at as int) == Some((d@, next as int)),
            None => parse_depth(b@, at as int) is None,
        },
{
    let (w, pos1) = match read_varint_at(b, at) {
        Some(x) => x,
        None => return None,
    };
    let (h, pos2) = match read_varint_at(b, pos1) {
        Some(x) => x,
        None => return None,
    };
    let (ts, pos3) = match read_fixed8_at(b, pos2) {
        Some(x) => x,
        None => return None,
    };
    let (n, pos4) = match read_varint_at(b, pos3) {
        Some(x) => x,
        None => return None,
    };
    let (data, pos5) = match read_u16s_at(b, pos4, n) {
        Some(x) => x,
        None => return None,
    };
    if w > usize::MAX as u64 || h > usize::MAX as u64 || data.len() as u128 != wide_mul(w, h) {
        return None;
    }
    Some(
        (DepthFrameSerializable { width: w as usize, height: h as usize, timestamp_bits: ts, data }, pos5),
    )
}

impl DepthFrameSerializable {
    /// A record from codes already quantized in row-major order; `None`
    /// where their number is not `width * height`.
    pub fn new(width: usize, height: usize, data: Vec<u16>, timestamp_bits: u64) -> (r: Option<Self>)
        ensures
            r matches Some(d) ==> d@ == (DepthRecord { width, height, timestamp_bits, data: data@ }),
            r is Some <==> data@.len() == width * height,
    {
        if data.len() as u128 == wide_mul(width as u64, height as u64) {
            Some(DepthFrameSerializable { width, height, timestamp_bits, data })
        } else {
            None
        }
    }

    /// The record holds one code per pixel.
    pub fn is_well_formed(&self) -> (r: bool)
        ensures
            r == depth_wf(self@),
    {
        self.data.len() as u128 == wide_mul(self.width as u64, self.height as u64)
    }

    /// The record in the deterministic layout.
    pub fn to_layout(&self) -> (r: Vec<u8>)
        ensures
            r@ == depth_layout(self@),
    {
        let mut out: Vec<u8> = Vec::new();
        push_varint(&mut out, self.width as u64);
        push_varint(&mut out, self.height as u64);
        push_le(&mut out, self.timestamp_bits, 8);
        push_varint(&mut out, self.data.len() as u64);
        push_u16s(&mut out, &self.data);
        assert(out@ =~= depth_layout(self@));
        out
    }

    /// Reads a well-formed record from the start of `bytes`; what follows it is ignored.
    pub fn from_layout(bytes: &[u8]) -> (r: Result<Self, CodecError>)
        ensures
            match parse_depth(bytes@, 0) {
                Some((d, _)) => r matches Ok(v) && v@ == d,
                None => r == Err::<Self, CodecError>(CodecError::Malformed),
            },
    {
        match parse_depth_at(bytes, 0) {
            Some((d, _)) => Ok(d),
            None => Err(CodecError::Malformed),
        }
    }

    /// The layout, compressed with zstd at [`DEPTH_LEVEL`].
    #[allow(non_snake_case)]
    pub fn encodeAndCompress(&self) -> (r: Result<Vec<u8>, CodecError>)
        ensures
            !depth_wf(self@) ==> r == Err::<Vec<u8>, CodecError>(CodecError::InvalidRecord),
            depth_wf(self@) ==> (r matches Ok(v) && v@ == zstd_frame(depth_layout(self@), DEPTH_LEVEL)
                && zstd_decoded(v@) == Some(depth_layout(self@)) && depth_decoded(v@) == Ok::<
                DepthRecord,
                CodecError,
            >(self@)),
    {
        if !self.is_well_formed() {
            return Err(CodecError::InvalidRecord);
        }
        let n = self.data.len();
        let bytes = self.to_layout();
        match zstd_compress(bytes.as_slice(), DEPTH_LEVEL) {
            Ok(v) => {
                proof {
                    assert(self.data@.len() == n);
                    lemma_depth_lossless(self@, v@);
                }
                Ok(v)
            },
            Err(_) => unreached(),
        }
    }

    /// Decompresses `encoded` and reads the record it holds.
    #[allow(non_snake_case)]
    pub fn decodeAndDecompress(encoded: Vec<u8>) -> (r: Result<Self, CodecError>)
        ensures
            match depth_decoded(encoded@) {
                Ok(d) => r matches Ok(v) && v@ == d,
                Err(e) => r == Err::<Self, CodecError>(e),
            },
    {
        match zstd_decompress(encoded.as_slice()) {
            Ok(raw) => Self::from_layout(raw.as_slice()),
            Err(_) => Err(CodecError::Decompression),
        }
    }
}

/// What decoding `encoded` gives: a function of the bytes alone.
pub open spec fn depth_decoded(encoded: Seq<u8>) -> Result<DepthRecord, CodecError> {
    match zstd_decoded(encoded) {
        None => Err(CodecError::Decompression),
        Some(raw) => match parse_depth(raw, 0) {
            Some((d, _)) => Ok(d),
            None => Err(CodecError::Malformed),
        },
    }
}

/// Lossless depth path: bytes that decompress to the layout of a
/// well-formed record (as the encoder's output does) decode to that record,
/// code for code, with `width * height` codes.
pub proof fn lemma_depth_lossless(d: DepthRecord, encoded: Seq<u8>)
    requires
        depth_wf(d),
        d.data.len() <= usize::MAX,
        zstd_decoded(encoded) == Some(depth_layout(d)),
    ensures
        depth_decoded(encoded) == Ok::<DepthRecord, CodecError>(d),
        d.data.len() == d.width * d.height,
{
    lemma_holds_whole(depth_layout(d));
    lemma_depth_round_trip(depth_layout(d), 0, d);
}

} // verus!
