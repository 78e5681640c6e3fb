//! The metadata record stored beside each cached file: the image's format
//! code, encoded as MessagePack.
use crate::image::{format_code, ImageFormat};
use vstd::prelude::*;

verus! {

/// Relies on `rmp_serde::to_vec` on a `u8`: a value below 128 is written as
/// the single byte of a positive fixint (`rmp::encode::write_uint8`), and
/// writing into a `Vec` does not fail.
#[verifier::external_body]
fn msgpack_encode_u8(v: u8) -> (r: Option<Vec<u8>>)
    ensures
        r is Some || v >= 128,
        v < 128 ==> r->Some_0@ == seq![v],
{
    rmp_serde::to_vec(&v).ok()
}

/// Relies on `rmp_serde::from_slice::<u8>`: a single byte below 128 is a
/// positive fixint, read back as that value (`any_num`, `Marker::FixPos`).
#[verifier::external_body]
fn msgpack_decode_u8(b: &[u8]) -> (r: Option<u8>)
    ensures
        b@.len() == 1 && b@[0] < 128 ==> r == Some(b@[0]),
{
    rmp_serde::from_slice::<u8>(b).ok()
}

/// The format a metadata code stands for.
pub open spec fn format_of_code(c: u8) -> Option<ImageFormat> {
    if c == 0 {
        Some(ImageFormat::Png)
    } else if c == 1 {
        Some(ImageFormat::Jpeg)
    } else if c == 2 {
        Some(ImageFormat::Gif)
    } else if c == 3 {
        Some(ImageFormat::WebP)
    } else if c == 4 {
        Some(ImageFormat::Pnm)
    } else if c == 5 {
        Some(ImageFormat::Tiff)
    } else if c == 6 {
        Some(ImageFormat::Tga)
    } else if c == 7 {
        Some(ImageFormat::Dds)
    } else if c == 8 {
        Some(ImageFormat::Bmp)
    } else if c == 9 {
        Some(ImageFormat::Ico)
    } else if c == 10 {
        Some(ImageFormat::Hdr)
    } else if c == 11 {
        Some(ImageFormat::OpenExr)
    } else if c == 12 {
        Some(ImageFormat::Farbfeld)
    } else if c == 13 {
        Some(ImageFormat::Avif)
    } else if c == 14 {
        Some(ImageFormat::Qoi)
    } else {
        None
    }
}

/// The MessagePack codec for metadata records.
#[derive(Debug, Default, Clone, Copy)]
pub struct MessagePack {}

impl MessagePack {
    /// The record of `format`: its code as one MessagePack integer.
    pub fn encode_format(&self, format: ImageFormat) -> (r: Vec<u8>)
        ensures
            r@ == seq![format_code(format)],
    {
        let c = format.code();
        match msgpack_encode_u8(c) {
            Some(b) => b,
            None => Vec::new(),
        }
    }

    /// The format a record names. A record of one byte is read exactly;
    /// anything else is left to the MessagePack decoder.
    pub fn decode_format(&self, record: &[u8]) -> (r: Option<ImageFormat>)
        ensures
            record@.len() == 1 && record@[0] < 128 ==> r == format_of_code(record@[0]),
    {
        match msgpack_decode_u8(record) {
            Some(c) => {
                let r = ImageFormat::from_code(c);
                proof {
                    if record@.len() == 1 && record@[0] < 128 {
                        assert(c == record@[0]);
                    }
                }
                r
            },
            None => None,
        }
    }
}

/// A record written for a format reads back as that format.
pub proof fn lemma_metadata_round_trip(f: ImageFormat, record: Seq<u8>)
    requires
        record == seq![format_code(f)],
    ensures
        record.len() == 1,
        record[0] < 128,
        format_of_code(record[0]) == Some(f),
{
}

} // verus!
