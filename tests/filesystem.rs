use imop::{Filesystem, ImageFormat, MessagePack};
use std::hash::Hasher;

#[test]
fn key_hash_is_sixteen_hex_digits() {
    let h = Filesystem::key_hash(10);
    assert_eq!(h.len(), 16);
    assert!(h.chars().all(|c| c.is_ascii_digit() || ('A'..='F').contains(&c)));
    assert_eq!(Filesystem::key_hash(10), h);
    assert_ne!(Filesystem::key_hash(11), h);
}

#[test]
fn key_hash_matches_default_hasher() {
    let mut hasher = std::collections::hash_map::DefaultHasher::new();
    hasher.write(&42u64.to_le_bytes());
    assert_eq!(Filesystem::key_hash(42), format!("{:016X}", hasher.finish()));
}

#[test]
fn paths_of_a_key() {
    let fs = Filesystem::new("/tmp/cache", MessagePack {});
    let h = Filesystem::key_hash(7);
    assert_eq!(fs.value_path(7), format!("/tmp/cache/{}.value", h));
    assert_eq!(fs.key_path(7), format!("/tmp/cache/{}.key", h));
    assert_eq!(fs.dir_path(), "/tmp/cache");
}

#[test]
fn metadata_record_round_trip() {
    let codec = MessagePack {};
    let record = codec.encode_format(ImageFormat::Tiff);
    assert_eq!(record, vec![5u8]);
    assert_eq!(codec.decode_format(&record), Some(ImageFormat::Tiff));
    assert_eq!(codec.decode_format(&codec.encode_format(ImageFormat::Png)), Some(ImageFormat::Png));
    assert_eq!(codec.decode_format(&[100u8]), None);
    assert_eq!(codec.decode_format(&[]), None);
}
