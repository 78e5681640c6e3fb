//! Caching engine for an image-serving proxy: a least-frequently-used
//! policy over pluggable storage backends, with the naming of files for a
//! filesystem store and helpers for cached images.

pub mod backend;
pub mod bin;
pub mod bounds;
pub mod coding;
pub mod error;
pub mod filesystem;
pub mod image;
pub mod lfu;
pub mod memory;
pub mod msgpack;

pub use backend::Backend;
pub use bounds::{Bounds, ScalingMode, Size};
pub use coding::ContentCoding;
pub use error::Error;
pub use filesystem::Filesystem;
pub use image::{mime_of_format, ByteReader, ImageCache, ImageFormat, InMemoryImage};
pub use lfu::{PutResult, LFU};
pub use memory::Memory;
pub use msgpack::MessagePack;
