use frame_wire::layout::push_varint;
use frame_wire::{
    get_data_from_pixel, CodecError, ColorFrameSerializable, CombinedFrame, CombinedFrameWire,
    DepthFrameSerializable, ImageForWire, MotionFrameData, PixelKind, RGB8Local,
};

fn depth(width: usize, height: usize, ts: f64, data: Vec<u16>) -> DepthFrameSerializable {
    DepthFrameSerializable { width, height, timestamp_bits: ts.to_bits(), data }
}

fn color(width: usize, height: usize, ts: f64, data: Vec<u8>) -> ColorFrameSerializable {
    ColorFrameSerializable { width, height, timestamp_bits: ts.to_bits(), data }
}

fn fake_jpeg() -> Vec<u8> {
    vec![0xFF, 0xD8, 0xFF, 0xE0, 0x00, 0x10, 0x4A, 0x46, 0x49, 0x46, 0xFF, 0xD9]
}

fn varint_bytes(v: u64) -> Vec<u8> {
    let mut out = Vec::new();
    push_varint(&mut out, v);
    out
}

#[test]
fn varint_thresholds() {
    assert_eq!(varint_bytes(0), vec![0]);
    assert_eq!(varint_bytes(250), vec![250]);
    assert_eq!(varint_bytes(251), vec![251, 251, 0]);
    assert_eq!(varint_bytes(0xffff), vec![251, 0xff, 0xff]);
    assert_eq!(varint_bytes(0x10000), vec![252, 0, 0, 1, 0]);
    assert_eq!(varint_bytes(0x1_0000_0000), vec![253, 0, 0, 0, 0, 1, 0, 0, 0]);
}

#[test]
fn depth_layout_matches_bincode_standard() {
    let d = depth(2, 1, 1.0, vec![100, 200]);
    let expected = bincode::encode_to_vec(
        (2u64, 1u64, 1.0f64, vec![100u16, 200u16]),
        bincode::config::standard(),
    )
    .unwrap();
    assert_eq!(d.to_layout(), expected);
}

#[test]
fn envelope_layout_matches_bincode_standard() {
    let e = ImageForWire { image: fake_jpeg(), timestamp_bits: 2.5f64.to_bits() };
    let expected = bincode::encode_to_vec((fake_jpeg(), 2.5f64), bincode::config::standard()).unwrap();
    assert_eq!(e.encode(), expected);
}

#[test]
fn motion_layout_matches_bincode_standard() {
    let gyro = [0.5f32, -1.25, 3.0];
    let accel = [9.81f32, 0.0, -0.1];
    let m = MotionFrameData::new(gyro.map(f32::to_bits), accel.map(f32::to_bits), 7.5f64.to_bits());
    let expected = bincode::encode_to_vec((gyro, accel, 7.5f64), bincode::config::standard()).unwrap();
    assert_eq!(m.encodeAndCompress(), expected);
}

#[test]
fn depth_round_trip_is_exact() {
    let data: Vec<u16> = vec![0, 1, 250, 251, 4000, 65535, 300, 7, 12, 60000, 2, 9];
    let d = depth(4, 3, 12.75, data.clone());
    let encoded = d.encodeAndCompress().unwrap();
    assert_ne!(encoded, d.to_layout());
    let back = DepthFrameSerializable::decodeAndDecompress(encoded).unwrap();
    assert_eq!(back.data, data);
    assert_eq!(back.width, 4);
    assert_eq!(back.height, 3);
    assert_eq!(back.width * back.height, back.data.len());
    assert_eq!(f64::from_bits(back.timestamp_bits), 12.75);
}

#[test]
fn depth_encoding_is_a_zstd_frame_of_the_layout() {
    let d = depth(3, 1, 0.25, vec![9, 900, 9000]);
    let encoded = d.encodeAndCompress().unwrap();
    assert_eq!(zstd::stream::decode_all(&encoded[..]).unwrap(), d.to_layout());
}

#[test]
fn empty_depth_frame_round_trips() {
    let d = depth(0, 0, 0.0, vec![]);
    let back = DepthFrameSerializable::decodeAndDecompress(d.encodeAndCompress().unwrap()).unwrap();
    assert!(back.data.is_empty());
    assert_eq!((back.width, back.height), (0, 0));
}

#[test]
fn depth_with_wrong_length_is_refused() {
    let d = depth(2, 2, 1.0, vec![1, 2, 3]);
    assert_eq!(d.encodeAndCompress(), Err(CodecError::InvalidRecord));
    assert!(DepthFrameSerializable::new(2, 2, vec![1, 2, 3], 0).is_none());
    assert!(DepthFrameSerializable::new(3, 1, vec![1, 2, 3], 0).is_some());
}

#[test]
fn garbage_does_not_decompress() {
    let r = DepthFrameSerializable::decodeAndDecompress(vec![1, 2, 3, 4, 5]);
    assert_eq!(r.err(), Some(CodecError::Decompression));
    assert_eq!(CombinedFrameWire::decode(&[9, 9, 9]).err(), Some(CodecError::Decompression));
}

#[test]
fn truncated_record_is_malformed() {
    let d = depth(2, 1, 1.0, vec![100, 200]);
    let mut layout = d.to_layout();
    layout.pop();
    let compressed = zstd::stream::encode_all(&layout[..], 3).unwrap();
    let r = DepthFrameSerializable::decodeAndDecompress(compressed);
    assert_eq!(r.err(), Some(CodecError::Malformed));
}

#[test]
fn decoding_twice_gives_identical_records() {
    let d = depth(3, 2, 4.0, vec![5, 6, 7, 8, 9, 10]);
    let encoded = d.encodeAndCompress().unwrap();
    let a = DepthFrameSerializable::decodeAndDecompress(encoded.clone()).unwrap();
    let b = DepthFrameSerializable::decodeAndDecompress(encoded).unwrap();
    assert_eq!(a.data, b.data);
    assert_eq!((a.width, a.height, a.timestamp_bits), (b.width, b.height, b.timestamp_bits));
}

#[test]
fn pixel_extractor_keeps_channels() {
    let px = get_data_from_pixel(PixelKind::Bgr8 { b: 1, g: 2, r: 3 }).unwrap();
    assert_eq!(px, RGB8Local { b: 1, g: 2, r: 3 });
    assert_eq!(get_data_from_pixel(PixelKind::Other), Err(CodecError::UnsupportedPixel));
}

#[test]
fn color_record_is_red_green_blue_row_major() {
    let pixels = vec![
        PixelKind::Bgr8 { b: 30, g: 20, r: 10 },
        PixelKind::Bgr8 { b: 60, g: 50, r: 40 },
    ];
    let c = ColorFrameSerializable::new(2, 1, &pixels, 1.0f64.to_bits()).unwrap();
    assert_eq!(c.data, vec![10, 20, 30, 40, 50, 60]);
    assert_eq!((c.width, c.height), (2, 1));
}

#[test]
fn color_record_errors() {
    let one = vec![PixelKind::Bgr8 { b: 0, g: 0, r: 0 }];
    assert_eq!(ColorFrameSerializable::new(2, 1, &one, 0).err(), Some(CodecError::InvalidRecord));
    let mixed = vec![PixelKind::Bgr8 { b: 0, g: 0, r: 0 }, PixelKind::Other];
    assert_eq!(ColorFrameSerializable::new(2, 1, &mixed, 0).err(), Some(CodecError::UnsupportedPixel));
}

#[test]
fn envelope_round_trip() {
    let e = ImageForWire { image: fake_jpeg(), timestamp_bits: 3.5f64.to_bits() };
    let back = ImageForWire::decode(&e.encode()).unwrap();
    assert_eq!(back.image, fake_jpeg());
    assert_eq!(f64::from_bits(back.timestamp_bits), 3.5);
}

#[test]
fn envelope_with_broken_magic_fails() {
    let mut image = fake_jpeg();
    image[0] = !image[0];
    image[1] = !image[1];
    let e = ImageForWire { image, timestamp_bits: 0 };
    assert_eq!(ImageForWire::decode(&e.encode()).err(), Some(CodecError::BadMagic));
    assert_eq!(ImageForWire::decode(&[]).err(), Some(CodecError::Malformed));
}

#[test]
fn motion_round_trip() {
    let m = MotionFrameData::new([1, 2, 3], [4, 5, 0xffff_ffff], 1.5f64.to_bits());
    let back = MotionFrameData::decodeAndDecompress(m.encodeAndCompress()).unwrap();
    assert_eq!(back.gyro_bits, [1, 2, 3]);
    assert_eq!(back.accel_bits, [4, 5, 0xffff_ffff]);
    assert_eq!(back.timestamp_bits, 1.5f64.to_bits());
    assert_eq!(MotionFrameData::decodeAndDecompress(vec![0; 31]).err(), Some(CodecError::Malformed));
}

#[test]
fn end_to_end_pair() {
    let d = depth(2, 1, 1.0, vec![100, 200]);
    let c = color(2, 1, 1.0, vec![10, 20, 30, 40, 50, 60]);
    let msg = CombinedFrameWire::from_frames(&d, &c, fake_jpeg()).unwrap();
    let bytes = msg.encode();
    assert!(!bytes.is_empty());
    let (rgb_jpeg, depth_codes, w, h, ts) = CombinedFrameWire::decode(&bytes).unwrap().unpack().unwrap();
    assert_eq!(depth_codes, vec![100, 200]);
    assert_eq!((w, h), (2, 1));
    assert_eq!(f64::from_bits(ts), 1.0);
    assert_eq!(rgb_jpeg, fake_jpeg());
}

#[test]
fn wire_layout_matches_bincode_standard() {
    let msg = CombinedFrameWire {
        rgb_jpeg: fake_jpeg(),
        depth_zstd: vec![1, 2, 3],
        width: 640,
        height: 480,
        timestamp_bits: 99.0f64.to_bits(),
    };
    let expected = bincode::encode_to_vec(
        (fake_jpeg(), vec![1u8, 2, 3], 640u16, 480u16, 99.0f64),
        bincode::config::standard(),
    )
    .unwrap();
    assert_eq!(msg.to_layout(), expected);
    let outer = msg.encode();
    assert_eq!(zstd::stream::decode_all(&outer[..]).unwrap(), expected);
}

#[test]
fn pack_refusals() {
    let d = depth(2, 1, 1.0, vec![100, 200]);
    let c = color(2, 1, 1.0, vec![10, 20, 30, 40, 50, 60]);
    let bad = depth(2, 1, 1.0, vec![100]);
    assert_eq!(CombinedFrameWire::from_frames(&bad, &c, fake_jpeg()).err(), Some(CodecError::InvalidRecord));
    let other = depth(1, 2, 1.0, vec![100, 200]);
    assert_eq!(CombinedFrameWire::from_frames(&other, &c, fake_jpeg()).err(), Some(CodecError::DimensionMismatch));
    let wide_d = depth(70000, 0, 1.0, vec![]);
    let wide_c = color(70000, 0, 1.0, vec![]);
    assert_eq!(CombinedFrameWire::from_frames(&wide_d, &wide_c, fake_jpeg()).err(), Some(CodecError::DimensionTooLarge));
    assert_eq!(CombinedFrameWire::from_frames(&d, &c, vec![1, 2, 3]).err(), Some(CodecError::BadMagic));
}

#[test]
fn unpack_with_broken_magic_fails() {
    let d = depth(2, 1, 1.0, vec![100, 200]);
    let c = color(2, 1, 1.0, vec![10, 20, 30, 40, 50, 60]);
    let mut msg = CombinedFrameWire::from_frames(&d, &c, fake_jpeg()).unwrap();
    msg.rgb_jpeg[0] ^= 0xFF;
    msg.rgb_jpeg[1] ^= 0xFF;
    let decoded = CombinedFrameWire::decode(&msg.encode()).unwrap();
    assert_eq!(decoded.unpack().err(), Some(CodecError::BadMagic));
}

#[test]
fn combined_frame_round_trip() {
    let d = depth(2, 1, 1.0, vec![100, 200]);
    let c = color(2, 1, 1.0, vec![10, 20, 30, 40, 50, 60]);
    let f = CombinedFrame::new(c, d, 1.0f64.to_bits());
    let back = CombinedFrame::decodeAndDecompress(f.encodeAndCompress().unwrap()).unwrap();
    assert_eq!(back.rgb.data, vec![10, 20, 30, 40, 50, 60]);
    assert_eq!(back.depth.data, vec![100, 200]);
    assert_eq!(back.timestamp_bits, 1.0f64.to_bits());
    let broken = CombinedFrame::new(color(2, 1, 0.0, vec![1]), depth(0, 0, 0.0, vec![]), 0);
    assert_eq!(broken.encodeAndCompress().err(), Some(CodecError::InvalidRecord));
}

#[test]
fn color_envelope_round_trip() {
    let c = color(2, 1, 6.25, vec![10, 20, 30, 40, 50, 60]);
    let encoded = c.encodeAndCompress(fake_jpeg()).unwrap();
    let (jpeg, ts) = ColorFrameSerializable::decodeAndDecompress(encoded).unwrap();
    assert_eq!(jpeg, fake_jpeg());
    assert_eq!(f64::from_bits(ts), 6.25);
    assert_eq!(c.encodeAndCompress(vec![0, 0, 1]).err(), Some(CodecError::BadMagic));
    let short = color(2, 1, 0.0, vec![1, 2, 3]);
    assert_eq!(short.encodeAndCompress(fake_jpeg()).err(), Some(CodecError::InvalidRecord));
}

#[test]
fn encoding_is_deterministic() {
    let d1 = depth(3, 1, 2.0, vec![1, 300, 65535]);
    let d2 = depth(3, 1, 2.0, vec![1, 300, 65535]);
    assert_eq!(d1.encodeAndCompress().unwrap(), d2.encodeAndCompress().unwrap());
    let c = color(3, 1, 2.0, vec![0; 9]);
    let m1 = CombinedFrameWire::from_frames(&d1, &c, fake_jpeg()).unwrap();
    let m2 = CombinedFrameWire::from_frames(&d2, &c, fake_jpeg()).unwrap();
    assert_eq!(m1.depth_zstd, m2.depth_zstd);
    assert_eq!(m1.encode(), m2.encode());
}
