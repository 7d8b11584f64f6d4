//! Inertial samples: gyroscope and accelerometer vectors with a timestamp.
use vstd::prelude::*;
use crate::error::CodecError;
use crate::layout::{
    holds_at, le_bytes, lemma_fixed4_round_trip, lemma_fixed8_round_trip, lemma_holds_at_split,
    push_le, read_fixed4, read_fixed4_at, read_fixed8, read_fixed8_at,
};

verus! {

/// What a motion sample holds.
pub ghost struct MotionRecord {
    pub gyro_bits: Seq<u32>,
    pub accel_bits: Seq<u32>,
    pub timestamp_bits: u64,
}

/// One inertial sample. Each vector component is the bit pattern of a
/// 32-bit float (rad/s for the gyroscope, m/s² for the accelerometer); the
/// timestamp is the bit pattern of a 64-bit float, in seconds, on a clock of
/// its own.
#[derive(Debug, Clone, Copy)]
pub struct MotionFrameData {
    pub gyro_bits: [u32; 3],
    pub accel_bits: [u32; 3],
    pub timestamp_bits: u64,
}

impl View for MotionFrameData {
    type V = MotionRecord;

    open spec fn view(&self) -> MotionRecord {
        MotionRecord {
            gyro_bits: self.gyro_bits@,
            accel_bits: self.accel_bits@,
            timestamp_bits: self.timestamp_bits,
        }
    }
}

/// Three components, four bytes each.
pub open spec fn vector_layout(v: Seq<u32>) -> Seq<u8> {
    le_bytes(v[0] as u64, 4) + le_bytes(v[1] as u64, 4) + le_bytes(v[2] as u64, 4)
}

/// Gyroscope, accelerometer, then timestamp, all fixed-width.
pub open spec fn motion_layout(m: MotionRecord) -> Seq<u8> {
    vector_layout(m.gyro_bits) + vector_layout(m.accel_bits) + le_bytes(m.timestamp_bits, 8)
}

/// Reads a three-component vector at `at`.
pub open spec fn read_vector(b: Seq<u8>, at: int) -> Option<(Seq<u32>, int)> {
    match read_fixed4(b, at) {
        None => None,
        Some((x, pos1)) => match read_fixed4(b, pos1) {
            None => None,
            Some((y, pos2)) => match read_fixed4(b, pos2) {
                None => None,
                Some((z, pos3)) => Some((seq![x, y, z], pos3)),
            },
        },
    }
}

/// What decoding a motion sample from `b` gives: a function of the bytes alone.
pub open spec fn motion_decoded(b: Seq<u8>) -> Result<MotionRecord, CodecError> {
    match read_vector(b, 0) {
        None => Err(CodecError::Malformed),
        Some((gyro, pos1)) => match read_vector(b, pos1) {
            None => Err(CodecError::Malformed),
            Some((accel, pos2)) => match read_fixed8(b, pos2) {
                None => Err(CodecError::Malformed),
                Some((ts, _)) => Ok(
                    MotionRecord { gyro_bits: gyro, accel_bits: accel, timestamp_bits: ts },
                ),
            },
        },
    }
}

proof fn lemma_vector_round_trip(b: Seq<u8>, at: int, v: Seq<u32>)
    requires
        v.len() == 3,
        holds_at(b, at, vector_layout(v)),
    ensures
        read_vector(b, at) == Some((v, at + 12)),
{
    let s0 = le_bytes(v[0] as u64, 4);
    let s1 = le_bytes(v[1] as u64, 4);
    let s2 = le_bytes(v[2] as u64, 4);
    lemma_holds_at_split(b, at, s0 + s1, s2);
    lemma_holds_at_split(b, at, s0, s1);
    lemma_fixed4_round_trip(b, at, v[0]);
    lemma_fixed4_round_trip(b, at + 4, v[1]);
    lemma_fixed4_round_trip(b, at + 8, v[2]);
    assert(seq![v[0], v[1], v[2]] =~= v);
}

/// A motion sample decoded from its encoding is the sample itself, bit for bit.
pub proof fn lemma_motion_round_trip(m: MotionRecord)
    requires
        m.gyro_bits.len() == 3,
        m.accel_bits.len() == 3,
    ensures
        motion_decoded(motion_layout(m)) == Ok::<MotionRecord, CodecError>(m),
{
    let b = motion_layout(m);
    assert(b.subrange(0, b.len() as int) =~= b);
    let g = vector_layout(m.gyro_bits);
    let a = vector_layout(m.accel_bits);
    lemma_holds_at_split(b, 0, g + a, le_bytes(m.timestamp_bits, 8));
    lemma_holds_at_split(b, 0, g, a);
    lemma_vector_round_trip(b, 0, m.gyro_bits);
    lemma_vector_round_trip(b, 12, m.accel_bits);
    lemma_fixed8_round_trip(b, 24, m.timestamp_bits);
}

fn push_vector(out: &mut Vec<u8>, v: &[u32; 3])
    ensures
        final(out)@ == old(out)@ + vector_layout(v@),
{
    let ghost start = out@;
    push_le(out, v[0] as u64, 4);
    push_le(out, v[1] as u64, 4);
    push_le(out, v[2] as u64, 4);
    assert(out@ =~= start + vector_layout(v@));
}

fn read_vector_at(b: &[u8], at: usize) -> (r: Option<([u32; 3], usize)>)
    ensures
        match r {
            Some((v, next)) => read_vector(b@, at as int) == Some((v@, next as int)),
            None => read_vector(b@, at as int) is None,
        },
{
    let (x, pos1) = match read_fixed4_at(b, at) {
        Some(t) => t,
        None => return None,
    };
    let (y, pos2) = match read_fixed4_at(b, pos1) {
        Some(t) => t,
        None => return None,
    };
    let (z, pos3) = match read_fixed4_at(b, pos2) {
        Some(t) => t,
        None => return None,
    };
    let v: [u32; 3] = [x, y, z];
    assert(v@ =~= seq![x, y, z]);
    Some((v, pos3))
}

impl MotionFrameData {
    pub fn new(gyro_bits: [u32; 3], accel_bits: [u32; 3], timestamp_bits: u64) -> (r: Self)
        ensures
            r == (MotionFrameData { gyro_bits, accel_bits, timestamp_bits }),
    {
        MotionFrameData { gyro_bits, accel_bits, timestamp_bits }
    }

    /// The sample in its fixed-width layout (it is too small to gain from
    /// compression).
    #[allow(non_snake_case)]
    pub fn encodeAndCompress(&self) -> (r: Vec<u8>)
        ensures
            r@ == motion_layout(self@),
    {
        let mut out: Vec<u8> = Vec::new();
        push_vector(&mut out, &self.gyro_bits);
        push_vector(&mut out, &self.accel_bits);
        push_le(&mut out, self.timestamp_bits, 8);
        assert(out@ =~= motion_layout(self@));
        out
    }

    /// Reads a sample from the start of `encoded`.
    #[allow(non_snake_case)]
    pub fn decodeAndDecompress(encoded: Vec<u8>) -> (r: Result<Self, CodecError>)
        ensures
            match motion_decoded(encoded@) {
                Ok(m) => r matches Ok(v) && v@ == m,
                Err(e) => r == Err::<Self, CodecError>(e),
            },
    {
        let b = encoded.as_slice();
        let (gyro_bits, pos1) = match read_vector_at(b, 0) {
            Some(t) => t,
            None => return Err(CodecError::Malformed),
        };
        let (accel_bits, pos2) = match read_vector_at(b, pos1) {
            Some(t) => t,
            None => return Err(CodecError::Malformed),
        };
        let (timestamp_bits, _) = match read_fixed8_at(b, pos2) {
            Some(t) => t,
            None => return Err(CodecError::Malformed),
        };
        Ok(MotionFrameData { gyro_bits, accel_bits, timestamp_bits })
    }
}

} // verus!
