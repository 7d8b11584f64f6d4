//! Color frame records, the pixel extractor, and the envelope that carries
//! a JPEG image with its timestamp.
use vstd::prelude::*;
use crate::error::CodecError;
use crate::layout::{
    bytes_layout, holds_at, le_bytes, lemma_bytes_round_trip, lemma_fixed8_round_trip,
    lemma_holds_at_split, lemma_varint_round_trip, push_bytes_field, push_le, push_varint,
    read_bytes, read_bytes_at, read_fixed8, read_fixed8_at, read_varint, read_varint_at, varint,
    wide_mul,
};

verus! {

/// First byte of the JPEG start-of-image marker.
pub const JPEG_MAGIC_0: u8 = 0xFF;

/// Second byte of the JPEG start-of-image marker.
pub const JPEG_MAGIC_1: u8 = 0xD8;

/// Pixel encodings of the streams that the camera is configured with.
#[derive(Debug, Clone, Copy, PartialEq, Eq, Structural)]
pub enum ImageEncoding {
    RGB8,
    Z16,
}

/// One color sample.
#[derive(Debug, Clone, Copy, PartialEq, Eq, Structural)]
pub struct RGB8Local {
    pub b: u8,
    pub g: u8,
    pub r: u8,
}

/// A pixel as the capture source hands it over: the one supported layout,
/// blue-green-red bytes, or any other.
#[derive(Debug, Clone, Copy, PartialEq, Eq, Structural)]
pub enum PixelKind {
    Bgr8 { b: u8, g: u8, r: u8 },
    Other,
}

/// The canonical triplet of a source pixel; an unsupported layout is a
/// configuration error.
pub fn get_data_from_pixel(pixel: PixelKind) -> (r: Result<RGB8Local, CodecError>)
    ensures
        match pixel {
            PixelKind::Bgr8 { b, g, r: red } => r == Ok::<RGB8Local, CodecError>(
                RGB8Local { b, g, r: red },
            ),
            PixelKind::Other => r == Err::<RGB8Local, CodecError>(CodecError::UnsupportedPixel),
        },
{
    match pixel {
        PixelKind::Bgr8 { b, g, r } => Ok(RGB8Local { b, g, r }),
        PixelKind::Other => Err(CodecError::UnsupportedPixel),
    }
}

/// The red, green and blue bytes of each pixel in turn.
pub open spec fn rgb_of(pixels: Seq<PixelKind>) -> Seq<u8>
    decreases pixels.len(),
{
    if pixels.len() == 0 {
        seq![]
    } else {
        let rest = rgb_of(pixels.drop_last());
        match pixels.last() {
            PixelKind::Bgr8 { b, g, r } => rest + seq![r, g, b],
            PixelKind::Other => rest,
        }
    }
}

/// Every pixel is in the supported layout.
pub open spec fn all_supported(pixels: Seq<PixelKind>) -> bool {
    forall|i: int| 0 <= i < pixels.len() ==> pixels[i] is Bgr8
}

/// What a color record holds.
pub ghost struct ColorRecord {
    pub width: usize,
    pub height: usize,
    pub timestamp_bits: u64,
    pub data: Seq<u8>,
}

/// One color frame: three bytes (red, green, blue) per pixel, row-major.
/// The capture time is kept as the bit pattern of a 64-bit float, in seconds.
#[derive(Debug)]
pub struct ColorFrameSerializable {
    pub width: usize,
    pub height: usize,
    pub timestamp_bits: u64,
    pub data: Vec<u8>,
}

impl View for ColorFrameSerializable {
    type V = ColorRecord;

    open spec fn view(&self) -> ColorRecord {
        ColorRecord {
            width: self.width,
            height: self.height,
            timestamp_bits: self.timestamp_bits,
            data: self.data@,
        }
    }
}

/// The record holds three bytes per pixel.
pub open spec fn color_wf(c: ColorRecord) -> bool {
    c.data.len() == c.width * c.height * 3
}

impl ColorFrameSerializable {
    /// Expands `width * height` source pixels, given row-major, into three
    /// bytes each.
    pub fn new(width: usize, height: usize, pixels: &Vec<PixelKind>, timestamp_bits: u64) -> (r:
        Result<Self, CodecError>)
        ensures
            pixels@.len() != width * height ==> r == Err::<Self, CodecError>(
                CodecError::InvalidRecord,
            ),
            pixels@.len() == width * height && !all_supported(pixels@) ==> r == Err::<
                Self,
                CodecError,
            >(CodecError::UnsupportedPixel),
            pixels@.len() == width * height && all_supported(pixels@) ==> (r matches Ok(c) && c@
                == (ColorRecord { width, height, timestamp_bits, data: rgb_of(pixels@) })),
    {
        if pixels.len() as u128 != wide_mul(width as u64, height as u64) {
            return Err(CodecError::InvalidRecord);
        }
        let mut data: Vec<u8> = Vec::new();
        let mut i: usize = 0;
        while i < pixels.len()
            invariant
                i <= pixels@.len(),
                pixels@.len() == width * height,
                all_supported(pixels@.subrange(0, i as int)),
                data@ == rgb_of(pixels@.subrange(0, i as int)),
            decreases pixels@.len() - i,
        {
            let px = match get_data_from_pixel(pixels[i]) {
                Ok(px) => px,
                Err(e) => {
                    assert(!(pixels@[i as int] is Bgr8));
                    return Err(e);
                },
            };
            data.push(px.r);
            data.push(px.g);
            data.push(px.b);
            assert(pixels@.subrange(0, i + 1).drop_last() =~= pixels@.subrange(0, i as int));
            i = i + 1;
            assert(data@ =~= rgb_of(pixels@.subrange(0, i as int)));
            assert(all_supported(pixels@.subrange(0, i as int)));
        }
        assert(pixels@.subrange(0, pixels@.len() as int) =~= pixels@);
        Ok(ColorFrameSerializable { width, height, timestamp_bits, data })
    }

    /// The record holds three bytes per pixel.
    pub fn is_well_formed(&self) -> (r: bool)
        ensures
            r == color_wf(self@),
    {
        let len = self.data.len();
        let pixels = wide_mul(self.width as u64, self.height as u64);
        if pixels > u64::MAX as u128 {
            assert(self.data@.len() < self.width * self.height * 3);
            return false;
        }
        len as u128 == wide_mul(pixels as u64, 3)
    }
}

/// Width, height, timestamp, then the bytes with their count in front.
pub open spec fn color_layout(c: ColorRecord) -> Seq<u8> {
    varint(c.width as u64) + varint(c.height as u64) + le_bytes(c.timestamp_bits, 8)
        + bytes_layout(c.data)
}

/// Reads a well-formed color record at `at`: the record and the position after it.
pub open spec fn parse_color(b: Seq<u8>, at: int) -> Option<(ColorRecord, int)> {
    match read_varint(b, at) {
        None => None,
        Some((w, pos1)) => match read_varint(b, pos1) {
            None => None,
            Some((h, pos2)) => match read_fixed8(b, pos2) {
                None => None,
                Some((ts, pos3)) => match read_bytes(b, pos3) {
                    None => None,
                    Some((data, pos4)) => if w <= usize::MAX && h <= usize::MAX && data.len()
                        == w * h * 3 {
                        Some(
                            (
                                ColorRecord {
                                    width: w as usize,
                                    height: h as usize,
                                    timestamp_bits: ts,
                                    data,
                                },
                                pos4,
                            ),
                        )
                    } else {
                        None
                    },
                },
            },
        },
    }
}

/// A well-formed color record read back from its layout is the record itself.
pub proof fn lemma_color_round_trip(b: Seq<u8>, at: int, c: ColorRecord)
    requires
        holds_at(b, at, color_layout(c)),
        color_wf(c),
        c.data.len() <= u64::MAX,
    ensures
        parse_color(b, at) == Some((c, at + color_layout(c).len())),
{
    let s1 = varint(c.width as u64);
    let s2 = varint(c.height as u64);
    let s3 = le_bytes(c.timestamp_bits, 8);
    let s4 = bytes_layout(c.data);
    lemma_holds_at_split(b, at, s1 + s2 + s3, s4);
    lemma_holds_at_split(b, at, s1 + s2, s3);
    lemma_holds_at_split(b, at, s1, s2);
    lemma_varint_round_trip(b, at, c.width as u64);
    lemma_varint_round_trip(b, at + s1.len(), c.height as u64);
    lemma_fixed8_round_trip(b, at + s1.len() + s2.len(), c.timestamp_bits);
    lemma_bytes_round_trip(b, at + s1.len() + s2.len() + 8, c.data);
}

/// Reads a well-formed color record at `at`.
pub fn parse_color_at(b: &[u8], at: usize) -> (r: Option<(ColorFrameSerializable, usize)>)
    ensures
        match r {
            Some((c, next)) => parse_color(b@, at as int) == Some((c@, next as int)),
            None => parse_color(b@, at as int) is None,
        },
{
    let (w, pos1) = match read_varint_at(b, at) {
        Some(x) => x,
        None => return None,
    };
    let (h, pos2) = match read_varint_at(b, pos1) {
        Some(x) => x,
        None => return None,
    };
    let (ts, pos3) = match read_fixed8_at(b, pos2) {
        Some(x) => x,
        None => return None,
    };
    let (data, pos4) = match read_bytes_at(b, pos3) {
        Some(x) => x,
        None => return None,
    };
    if w > usize::MAX as u64 || h > usize::MAX as u64 {
        return None;
    }
    let c = ColorFrameSerializable { width: w as usize, height: h as usize, timestamp_bits: ts, data };
    if !c.is_well_formed() {
        return None;
    }
    Some((c, pos4))
}

impl ColorFrameSerializable {
    /// The record in the deterministic layout.
    pub fn to_layout(&self) -> (r: Vec<u8>)
        ensures
            r@ == color_layout(self@),
    {
        let mut out: Vec<u8> = Vec::new();
        push_varint(&mut out, self.width as u64);
        push_varint(&mut out, self.height as u64);
        push_le(&mut out, self.timestamp_bits, 8);
        push_bytes_field(&mut out, self.data.as_slice());
        assert(out@ =~= color_layout(self@));
        out
    }
}

/// The payload starts with the JPEG start-of-image marker.
pub open spec fn has_jpeg_magic(s: Seq<u8>) -> bool {
    s.len() >= 2 && s[0] == JPEG_MAGIC_0 && s[1] == JPEG_MAGIC_1
}

/// Tests for the JPEG start-of-image marker.
pub fn starts_with_jpeg_magic(s: &[u8]) -> (r: bool)
    ensures
        r == has_jpeg_magic(s@),
{
    s.len() >= 2 && s[0] == JPEG_MAGIC_0 && s[1] == JPEG_MAGIC_1
}

/// What an envelope holds.
pub ghost struct EnvelopeRecord {
    pub image: Seq<u8>,
    pub timestamp_bits: u64,
}

/// A compressed image paired with its capture time (the bit pattern of a
/// 64-bit float, in seconds).
#[derive(Debug)]
pub struct ImageForWire {
    pub image: Vec<u8>,
    pub timestamp_bits: u64,
}

impl View for ImageForWire {
    type V = EnvelopeRecord;

    open spec fn view(&self) -> EnvelopeRecord {
        EnvelopeRecord { image: self.image@, timestamp_bits: self.timestamp_bits }
    }
}

/// The image with its length in front, then the timestamp.
pub open spec fn envelope_layout(e: EnvelopeRecord) -> Seq<u8> {
    bytes_layout(e.image) + le_bytes(e.timestamp_bits, 8)
}

/// What decoding an envelope from `b` gives: a function of the bytes alone.
pub open spec fn envelope_decoded(b: Seq<u8>) -> Result<EnvelopeRecord, CodecError> {
    match read_bytes(b, 0) {
        None => Err(CodecError::Malformed),
        Some((image, p)) => match read_fixed8(b, p) {
            None => Err(CodecError::Malformed),
            Some((ts, _)) => if has_jpeg_magic(image) {
                Ok(EnvelopeRecord { image, timestamp_bits: ts })
            } else {
                Err(CodecError::BadMagic)
            },
        },
    }
}

/// Reading an envelope back from its layout gives its image and timestamp,
/// or `BadMagic` where the image lacks the JPEG marker.
pub proof fn lemma_envelope_round_trip(e: EnvelopeRecord)
    requires
        e.image.len() <= u64::MAX,
    ensures
        envelope_decoded(envelope_layout(e)) == (if has_jpeg_magic(e.image) {
            Ok::<EnvelopeRecord, CodecError>(e)
        } else {
            Err::<EnvelopeRecord, CodecError>(CodecError::BadMagic)
        }),
{
    let b = envelope_layout(e);
    assert(b.subrange(0, b.len() as int) =~= b);
    lemma_holds_at_split(b, 0, bytes_layout(e.image), le_bytes(e.timestamp_bits, 8));
    lemma_bytes_round_trip(b, 0, e.image);
    lemma_fixed8_round_trip(b, bytes_layout(e.image).len() as int, e.timestamp_bits);
}

/// Corruption is caught: an envelope whose first two image bytes are not
/// the JPEG marker (say, after they were overwritten) fails to decode with
/// `BadMagic`, and never yields an image.
pub proof fn lemma_envelope_rejects_bad_magic(image: Seq<u8>, timestamp_bits: u64, b0: u8, b1: u8)
    requires
        image.len() >= 2,
        image.len() <= u64::MAX,
        !(b0 == JPEG_MAGIC_0 && b1 == JPEG_MAGIC_1),
    ensures
        envelope_decoded(
            envelope_layout(
                EnvelopeRecord { image: image.update(0, b0).update(1, b1), timestamp_bits },
            ),
        ) == Err::<EnvelopeRecord, CodecError>(CodecError::BadMagic),
{
    lemma_envelope_round_trip(
        EnvelopeRecord { image: image.update(0, b0).update(1, b1), timestamp_bits },
    );
}

impl ColorFrameSerializable {
    /// The envelope of the record's JPEG image `jpeg` (made by the image
    /// codec from `data`, `width` and `height`) and the record's timestamp,
    /// in the deterministic layout.
    #[allow(non_snake_case)]
    pub fn encodeAndCompress(&self, jpeg: Vec<u8>) -> (r: Result<Vec<u8>, CodecError>)
        ensures
            !color_wf(self@) ==> r == Err::<Vec<u8>, CodecError>(CodecError::InvalidRecord),
            color_wf(self@) && !has_jpeg_magic(jpeg@) ==> r == Err::<Vec<u8>, CodecError>(
                CodecError::BadMagic,
            ),
            color_wf(self@) && has_jpeg_magic(jpeg@) ==> (r matches Ok(v) && v@ == envelope_layout(
                EnvelopeRecord { image: jpeg@, timestamp_bits: self.timestamp_bits },
            )),
    {
        if !self.is_well_formed() {
            return Err(CodecError::InvalidRecord);
        }
        if !starts_with_jpeg_magic(jpeg.as_slice()) {
            return Err(CodecError::BadMagic);
        }
        let envelope = ImageForWire { image: jpeg, timestamp_bits: self.timestamp_bits };
        Ok(envelope.encode())
    }

    /// Reads an envelope: the JPEG image, checked for its marker, and the
    /// timestamp bits.
    #[allow(non_snake_case)]
    pub fn decodeAndDecompress(encoded: Vec<u8>) -> (r: Result<(Vec<u8>, u64), CodecError>)
        ensures
            match envelope_decoded(encoded@) {
                Ok(e) => r matches Ok(v) && v.0@ == e.image && v.1 == e.timestamp_bits,
                Err(e) => r == Err::<(Vec<u8>, u64), CodecError>(e),
            },
    {
        match ImageForWire::decode(encoded.as_slice()) {
            Ok(envelope) => Ok((envelope.image, envelope.timestamp_bits)),
            Err(e) => Err(e),
        }
    }
}

impl ImageForWire {
    /// The envelope in the deterministic layout.
    pub fn encode(&self) -> (r: Vec<u8>)
        ensures
            r@ == envelope_layout(self@),
    {
        let mut out: Vec<u8> = Vec::new();
        push_bytes_field(&mut out, self.image.as_slice());
        push_le(&mut out, self.timestamp_bits, 8);
        assert(out@ =~= envelope_layout(self@));
        out
    }

    /// Reads an envelope from the start of `bytes` and checks that its image
    /// starts with the JPEG marker.
    pub fn decode(bytes: &[u8]) -> (r: Result<Self, CodecError>)
        ensures
            match envelope_decoded(bytes@) {
                Ok(e) => r matches Ok(v) && v@ == e,
                Err(e) => r == Err::<Self, CodecError>(e),
            },
    {
        let (image, p) = match read_bytes_at(bytes, 0) {
            Some(x) => x,
            None => return Err(CodecError::Malformed),
        };
        let (ts, _) = match read_fixed8_at(bytes, p) {
            Some(x) => x,
            None => return Err(CodecError::Malformed),
        };
        if !starts_with_jpeg_magic(image.as_slice()) {
            return Err(CodecError::BadMagic);
        }
        Ok(ImageForWire { image, timestamp_bits: ts })
    }
}

} // verus!
