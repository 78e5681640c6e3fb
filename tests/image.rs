use imop::{mime_of_format, ByteReader, ImageCache, ImageFormat, InMemoryImage, Memory, PutResult};

#[test]
fn round_trip_through_image_cache() {
    let content: Vec<u8> = vec![0x89, b'P', b'N', b'G', 1, 2, 3, 4, 5];
    let mut cache = ImageCache::new(Memory::new()).with_capacity(4);
    let mut source = ByteReader::new(content.clone());
    assert_eq!(cache.put(1, &mut source, ImageFormat::Png), Ok(PutResult::Put));
    // the source was drained
    assert_eq!(source.position(), content.len());
    assert!(source.read(10).is_empty());

    let img = cache.get(&1).unwrap();
    assert_eq!(img.format(), Some(ImageFormat::Png));
    assert_eq!(img.content_length(), content.len());
    let mut reader = img.data();
    assert_eq!(reader.read_to_end(), content);
}

#[test]
fn data_gives_independent_readers() {
    let img = InMemoryImage::new(vec![1, 2, 3, 4, 5, 6], Some(ImageFormat::Gif));
    let mut a = img.data();
    let mut b = img.data();
    assert_eq!(a.read(4), vec![1, 2, 3, 4]);
    assert_eq!(b.read(2), vec![1, 2]);
    assert_eq!(a.read(4), vec![5, 6]);
    assert_eq!(b.read_to_end(), vec![3, 4, 5, 6]);
    let mut c = img.data();
    assert_eq!(c.position(), 0);
    assert_eq!(c.read_to_end(), vec![1, 2, 3, 4, 5, 6]);
}

#[test]
fn reader_seek_and_partial_put() {
    let mut r = ByteReader::new(vec![9, 8, 7, 6]);
    r.seek(10);
    assert_eq!(r.position(), 4);
    r.seek(1);
    assert_eq!(r.read(2), vec![8, 7]);
    let mut cache = ImageCache::new(Memory::new());
    cache.put(5, &mut r, ImageFormat::Bmp).unwrap();
    assert_eq!(cache.get(&5).unwrap().as_bytes(), &[6u8][..]);
}

#[test]
fn image_cache_evicts_and_removes() {
    let mut cache = ImageCache::new(Memory::new()).with_capacity(1);
    cache.put(1, &mut ByteReader::new(vec![1]), ImageFormat::Jpeg).unwrap();
    cache.put(2, &mut ByteReader::new(vec![2]), ImageFormat::WebP).unwrap();
    assert_eq!(cache.len(), 1);
    assert!(cache.peek(&1).is_none());
    assert_eq!(cache.peek(&2).unwrap().format(), Some(ImageFormat::WebP));
    let removed = cache.remove(&2).unwrap();
    assert_eq!(removed.as_bytes(), &[2u8][..]);
    assert_eq!(cache.len(), 0);
    cache.put(3, &mut ByteReader::new(vec![3]), ImageFormat::Ico).unwrap();
    cache.purge();
    assert_eq!(cache.len(), 0);
    assert!(cache.get(&3).is_none());
}

#[test]
fn mime_types_of_formats() {
    assert_eq!(mime_of_format(ImageFormat::Png), Some("image/png"));
    assert_eq!(mime_of_format(ImageFormat::Jpeg), Some("image/jpeg"));
    assert_eq!(mime_of_format(ImageFormat::Pnm), Some("image/x-portable-bitmap"));
    assert_eq!(mime_of_format(ImageFormat::Avif), Some("image/avif"));
    assert_eq!(mime_of_format(ImageFormat::Qoi), None);
    assert_eq!(mime_of_format(ImageFormat::OpenExr), None);
}

#[test]
fn format_codes_round_trip() {
    for c in 0u8..20 {
        match ImageFormat::from_code(c) {
            Some(f) => assert_eq!(f.code(), c),
            None => assert!(c >= 15),
        }
    }
}
