//! Wire codec for depth, color and motion frames of a depth camera.
//!
//! Records are laid out as bytes in a fixed, deterministic order (see
//! [`layout`]), depth payloads are wrapped in zstd frames (see [`compress`])
//! and color payloads are carried as JPEG images.
pub mod color;
pub mod combined;
pub mod compress;
pub mod depth;
pub mod error;
pub mod frame;
pub mod layout;
pub mod motion;

pub use color::{
    get_data_from_pixel, ColorFrameSerializable, ImageEncoding, ImageForWire, PixelKind, RGB8Local,
};
pub use combined::CombinedFrameWire;
pub use depth::DepthFrameSerializable;
pub use error::CodecError;
pub use frame::CombinedFrame;
pub use motion::MotionFrameData;
