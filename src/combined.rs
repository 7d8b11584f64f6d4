//! The combined message: one color and one depth frame of the same instant,
//! sharing dimensions and timestamp, behind one outer compression pass.
use vstd::prelude::*;
use crate::color::{
    color_wf, has_jpeg_magic, starts_with_jpeg_magic, ColorFrameSerializable, ColorRecord,
    JPEG_MAGIC_0, JPEG_MAGIC_1,
};
use vstd::pervasive::unreached;
use crate::compress::{zstd_compress, zstd_decompress, zstd_decoded, zstd_frame};
use crate::depth::{
    depth_decoded, depth_layout, depth_wf, lemma_depth_lossless, DepthFrameSerializable,
    DepthRecord,
};
use crate::error::CodecError;
use crate::layout::{
    bytes_layout, le_bytes, lemma_bytes_round_trip, lemma_fixed8_round_trip,
    lemma_holds_at_split, lemma_varint_round_trip, push_bytes_field, push_le, push_varint,
    read_bytes, read_bytes_at, read_fixed8, read_fixed8_at, read_varint, read_varint_at, varint,
};

verus! {

/// Compression level of the depth payload inside the combined message.
pub const PAIR_DEPTH_LEVEL: i32 = 3;

/// Compression level of the outer wrap: low, for latency.
pub const OUTER_LEVEL: i32 = 1;

/// What a combined message holds.
pub ghost struct WireRecord {
    pub rgb_jpeg: Seq<u8>,
    pub depth_zstd: Seq<u8>,
    pub width: u16,
    pub height: u16,
    pub timestamp_bits: u64,
}

/// One color and one depth frame captured for the same instant: the color
/// frame as a JPEG image, the depth record in its layout compressed with
/// zstd, the dimensions they share, and the depth frame's timestamp (the bit
/// pattern of a 64-bit float, in seconds).
#[derive(Debug)]
pub struct CombinedFrameWire {
    pub rgb_jpeg: Vec<u8>,
    pub depth_zstd: Vec<u8>,
    pub width: u16,
    pub height: u16,
    pub timestamp_bits: u64,
}

impl View for CombinedFrameWire {
    type V = WireRecord;

    open spec fn view(&self) -> WireRecord {
        WireRecord {
            rgb_jpeg: self.rgb_jpeg@,
            depth_zstd: self.depth_zstd@,
            width: self.width,
            height: self.height,
            timestamp_bits: self.timestamp_bits,
        }
    }
}

/// The two payloads with their lengths in front, width, height, timestamp.
pub open spec fn wire_layout(m: WireRecord) -> Seq<u8> {
    bytes_layout(m.rgb_jpeg) + bytes_layout(m.depth_zstd) + varint(m.width as u64) + varint(
        m.height as u64,
    ) + le_bytes(m.timestamp_bits, 8)
}

/// Reads a combined message from the start of `b`.
pub open spec fn parse_wire(b: Seq<u8>) -> Option<WireRecord> {
    match read_bytes(b, 0) {
        None => None,
        Some((rgb, pos1)) => match read_bytes(b, pos1) {
            None => None,
            Some((depth, pos2)) => match read_varint(b, pos2) {
                None => None,
                Some((w, pos3)) => match read_varint(b, pos3) {
                    None => None,
                    Some((h, pos4)) => match read_fixed8(b, pos4) {
                        None => None,
                        Some((ts, _)) => if w <= 0xffff && h <= 0xffff {
                            Some(
                                WireRecord {
                                    rgb_jpeg: rgb,
                                    depth_zstd: depth,
                                    width: w as u16,
                                    height: h as u16,
                                    timestamp_bits: ts,
                                },
                            )
                        } else {
                            None
                        },
                    },
                },
            },
        },
    }
}

/// What decoding `encoded` gives: a function of the bytes alone.
pub open spec fn wire_decoded(encoded: Seq<u8>) -> Result<WireRecord, CodecError> {
    match zstd_decoded(encoded) {
        None => Err(CodecError::Decompression),
        Some(raw) => match parse_wire(raw) {
            Some(m) => Ok(m),
            None => Err(CodecError::Malformed),
        },
    }
}

/// What unpacking a message gives: its JPEG image, the depth codes, width,
/// height and timestamp.
pub open spec fn unpacked(m: WireRecord) -> Result<(Seq<u8>, Seq<u16>, u16, u16, u64), CodecError> {
    if !has_jpeg_magic(m.rgb_jpeg) {
        Err(CodecError::BadMagic)
    } else {
        match depth_decoded(m.depth_zstd) {
            Err(e) => Err(e),
            Ok(d) => if d.width == m.width as usize && d.height == m.height as usize {
                Ok((m.rgb_jpeg, d.data, m.width, m.height, m.timestamp_bits))
            } else {
                Err(CodecError::Malformed)
            },
        }
    }
}

/// Why a depth record, a color record and a JPEG image cannot be packed
/// together, if they cannot.
pub open spec fn pack_refusal(d: DepthRecord, c: ColorRecord, jpeg: Seq<u8>) -> Option<CodecError> {
    if !depth_wf(d) || !color_wf(c) {
        Some(CodecError::InvalidRecord)
    } else if d.width != c.width || d.height != c.height {
        Some(CodecError::DimensionMismatch)
    } else if c.width > 0xffff || c.height > 0xffff {
        Some(CodecError::DimensionTooLarge)
    } else if !has_jpeg_magic(jpeg) {
        Some(CodecError::BadMagic)
    } else {
        None
    }
}

/// `m` is the message packed from `d`, `c` and the JPEG image of `c`.
pub open spec fn packed_from(d: DepthRecord, c: ColorRecord, jpeg: Seq<u8>, m: WireRecord) -> bool {
    &&& m.rgb_jpeg == jpeg
    &&& m.depth_zstd == zstd_frame(depth_layout(d), PAIR_DEPTH_LEVEL)
    &&& zstd_decoded(m.depth_zstd) == Some(depth_layout(d))
    &&& m.width as usize == c.width
    &&& m.height as usize == c.height
    &&& m.timestamp_bits == d.timestamp_bits
}

/// Bytes that decompress to the layout of a message decode to that message.
pub proof fn lemma_wire_round_trip(m: WireRecord, encoded: Seq<u8>)
    requires
        m.rgb_jpeg.len() <= u64::MAX,
        m.depth_zstd.len() <= u64::MAX,
        zstd_decoded(encoded) == Some(wire_layout(m)),
    ensures
        wire_decoded(encoded) == Ok::<WireRecord, CodecError>(m),
{
    let b = wire_layout(m);
    let s1 = bytes_layout(m.rgb_jpeg);
    let s2 = bytes_layout(m.depth_zstd);
    let s3 = varint(m.width as u64);
    let s4 = varint(m.height as u64);
    let s5 = le_bytes(m.timestamp_bits, 8);
    assert(b.subrange(0, b.len() as int) =~= b);
    lemma_holds_at_split(b, 0, s1 + s2 + s3 + s4, s5);
    lemma_holds_at_split(b, 0, s1 + s2 + s3, s4);
    lemma_holds_at_split(b, 0, s1 + s2, s3);
    lemma_holds_at_split(b, 0, s1, s2);
    lemma_bytes_round_trip(b, 0, m.rgb_jpeg);
    lemma_bytes_round_trip(b, s1.len() as int, m.depth_zstd);
    lemma_varint_round_trip(b, (s1.len() + s2.len()) as int, m.width as u64);
    lemma_varint_round_trip(b, (s1.len() + s2.len() + s3.len()) as int, m.height as u64);
    lemma_fixed8_round_trip(b, (s1.len() + s2.len() + s3.len() + s4.len()) as int, m.timestamp_bits);
}

/// Unpacking inverts packing: a message packed from `d` and `c` unpacks to
/// the JPEG image it was given, `d`'s codes exactly, `c`'s width and height,
/// and `d`'s timestamp.
pub proof fn lemma_unpack_inverts_pack(d: DepthRecord, c: ColorRecord, jpeg: Seq<u8>, m: WireRecord)
    requires
        pack_refusal(d, c, jpeg) is None,
        packed_from(d, c, jpeg, m),
    ensures
        unpacked(m) == Ok::<(Seq<u8>, Seq<u16>, u16, u16, u64), CodecError>(
            (jpeg, d.data, c.width as u16, c.height as u16, d.timestamp_bits),
        ),
        d.data.len() == (m.width as int) * (m.height as int),
{
    assert(d.width * d.height <= 0xffff * 0xffff) by (nonlinear_arith)
        requires
            d.width <= 0xffff,
            d.height <= 0xffff,
    ;
    lemma_depth_lossless(d, m.depth_zstd);
}

/// Corruption is caught: a message whose image's first two bytes are not the
/// JPEG marker (say, after they were overwritten) fails to unpack with
/// `BadMagic`, and never yields data.
pub proof fn lemma_unpack_rejects_bad_magic(m: WireRecord, b0: u8, b1: u8)
    requires
        m.rgb_jpeg.len() >= 2,
        !(b0 == JPEG_MAGIC_0 && b1 == JPEG_MAGIC_1),
    ensures
        unpacked(WireRecord { rgb_jpeg: m.rgb_jpeg.update(0, b0).update(1, b1), ..m })
            == Err::<(Seq<u8>, Seq<u16>, u16, u16, u64), CodecError>(CodecError::BadMagic),
{
}

impl CombinedFrameWire {
    /// Packs a depth record and a color record of the same instant, given
    /// with the JPEG image of the color record: the depth record's layout
    /// is compressed at [`PAIR_DEPTH_LEVEL`], the dimensions are the color
    /// record's, the timestamp is the depth record's.
    pub fn from_frames(
        depth: &DepthFrameSerializable,
        color: &ColorFrameSerializable,
        rgb_jpeg: Vec<u8>,
    ) -> (r: Result<Self, CodecError>)
        ensures
            match pack_refusal(depth@, color@, rgb_jpeg@) {
                Some(e) => r == Err::<Self, CodecError>(e),
                None => r matches Ok(m) && packed_from(depth@, color@, rgb_jpeg@, m@),
            },
    {
        if !depth.is_well_formed() || !color.is_well_formed() {
            return Err(CodecError::InvalidRecord);
        }
        if depth.width != color.width || depth.height != color.height {
            return Err(CodecError::DimensionMismatch);
        }
        if color.width > 0xffff || color.height > 0xffff {
            return Err(CodecError::DimensionTooLarge);
        }
        if !starts_with_jpeg_magic(rgb_jpeg.as_slice()) {
            return Err(CodecError::BadMagic);
        }
        let depth_bytes = depth.to_layout();
        let depth_zstd = match zstd_compress(depth_bytes.as_slice(), PAIR_DEPTH_LEVEL) {
            Ok(v) => v,
            Err(_) => return unreached(),
        };
        Ok(
            CombinedFrameWire {
                rgb_jpeg,
                depth_zstd,
                width: color.width as u16,
                height: color.height as u16,
                timestamp_bits: depth.timestamp_bits,
            },
        )
    }

    /// The message in the deterministic layout.
    pub fn to_layout(&self) -> (r: Vec<u8>)
        ensures
            r@ == wire_layout(self@),
    {
        let mut out: Vec<u8> = Vec::new();
        push_bytes_field(&mut out, self.rgb_jpeg.as_slice());
        push_bytes_field(&mut out, self.depth_zstd.as_slice());
        push_varint(&mut out, self.width as u64);
        push_varint(&mut out, self.height as u64);
        push_le(&mut out, self.timestamp_bits, 8);
        assert(out@ =~= wire_layout(self@));
        out
    }

    /// Final packing for the wire: the layout, compressed at [`OUTER_LEVEL`].
    pub fn encode(&self) -> (r: Vec<u8>)
        ensures
            r@ == zstd_frame(wire_layout(self@), OUTER_LEVEL),
            zstd_decoded(r@) == Some(wire_layout(self@)),
            wire_decoded(r@) == Ok::<WireRecord, CodecError>(self@),
            r@.len() > 0,
    {
        let n1 = self.rgb_jpeg.len();
        let n2 = self.depth_zstd.len();
        let payload = self.to_layout();
        match zstd_compress(payload.as_slice(), OUTER_LEVEL) {
            Ok(v) => {
                proof {
                    assert(self.rgb_jpeg@.len() == n1 && self.depth_zstd@.len() == n2);
                    lemma_wire_round_trip(self@, v@);
                }
                v
            },
            Err(_) => unreached(),
        }
    }

    /// Decompresses `buf` and reads the message it holds.
    pub fn decode(buf: &[u8]) -> (r: Result<Self, CodecError>)
        ensures
            match wire_decoded(buf@) {
                Ok(m) => r matches Ok(v) && v@ == m,
                Err(e) => r == Err::<Self, CodecError>(e),
            },
    {
        let raw = match zstd_decompress(buf) {
            Ok(raw) => raw,
            Err(_) => return Err(CodecError::Decompression),
        };
        let b = raw.as_slice();
        let (rgb_jpeg, pos1) = match read_bytes_at(b, 0) {
            Some(x) => x,
            None => return Err(CodecError::Malformed),
        };
        let (depth_zstd, pos2) = match read_bytes_at(b, pos1) {
            Some(x) => x,
            None => return Err(CodecError::Malformed),
        };
        let (w, pos3) = match read_varint_at(b, pos2) {
            Some(x) => x,
            None => return Err(CodecError::Malformed),
        };
        let (h, pos4) = match read_varint_at(b, pos3) {
            Some(x) => x,
            None => return Err(CodecError::Malformed),
        };
        let (ts, _) = match read_fixed8_at(b, pos4) {
            Some(x) => x,
            None => return Err(CodecError::Malformed),
        };
        if w > 0xffff || h > 0xffff {
            return Err(CodecError::Malformed);
        }
        Ok(
            CombinedFrameWire {
                rgb_jpeg,
                depth_zstd,
                width: w as u16,
                height: h as u16,
                timestamp_bits: ts,
            },
        )
    }

    /// Takes the message apart: the JPEG image (checked for its marker), the
    /// depth codes (decompressed and read back, with the message's
    /// dimensions), width, height and timestamp bits.
    pub fn unpack(self) -> (r: Result<(Vec<u8>, Vec<u16>, u16, u16, u64), CodecError>)
        ensures
            match unpacked(self@) {
                Ok((rgb, data, w, h, ts)) => r matches Ok(v) && v.0@ == rgb && v.1@ == data && v.2
                    == w && v.3 == h && v.4 == ts,
                Err(e) => r == Err::<(Vec<u8>, Vec<u16>, u16, u16, u64), CodecError>(e),
            },
    {
        if !starts_with_jpeg_magic(self.rgb_jpeg.as_slice()) {
            return Err(CodecError::BadMagic);
        }
        let depth = match DepthFrameSerializable::decodeAndDecompress(self.depth_zstd) {
            Ok(d) => d,
            Err(e) => return Err(e),
        };
        if depth.width != self.width as usize || depth.height != self.height as usize {
            return Err(CodecError::Malformed);
        }
        Ok((self.rgb_jpeg, depth.data, self.width, self.height, self.timestamp_bits))
    }
}

} // verus!
