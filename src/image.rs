//! Cached images: a content blob with its format tag, readable again and
//! again from the start, and a cache that stores them.
use crate::backend::Backend;
use crate::error::Error;
use crate::lfu::{PutResult, LFU};
use vstd::pervasive::cloned;
use vstd::prelude::*;

verus! {

/// The encodings an image can be stored in.
#[derive(Debug, Clone, Copy, PartialEq, Eq, Hash, Structural)]
pub enum ImageFormat {
    Png,
    Jpeg,
    Gif,
    WebP,
    Pnm,
    Tiff,
    Tga,
    Dds,
    Bmp,
    Ico,
    Hdr,
    OpenExr,
    Farbfeld,
    Avif,
    Qoi,
}

/// The number that stands for a format in a metadata record.
pub open spec fn format_code(f: ImageFormat) -> u8 {
    match f {
        ImageFormat::Png => 0,
        ImageFormat::Jpeg => 1,
        ImageFormat::Gif => 2,
        ImageFormat::WebP => 3,
        ImageFormat::Pnm => 4,
        ImageFormat::Tiff => 5,
        ImageFormat::Tga => 6,
        ImageFormat::Dds => 7,
        ImageFormat::Bmp => 8,
        ImageFormat::Ico => 9,
        ImageFormat::Hdr => 10,
        ImageFormat::OpenExr => 11,
        ImageFormat::Farbfeld => 12,
        ImageFormat::Avif => 13,
        ImageFormat::Qoi => 14,
    }
}

/// The number of formats; codes run from 0 below it.
pub const FORMAT_COUNT: u8 = 15;

impl ImageFormat {
    /// The code of this format.
    pub fn code(&self) -> (r: u8)
        ensures
            r == format_code(*self),
            r < FORMAT_COUNT,
    {
        match self {
            ImageFormat::Png => 0,
            ImageFormat::Jpeg => 1,
            ImageFormat::Gif => 2,
            ImageFormat::WebP => 3,
            ImageFormat::Pnm => 4,
            ImageFormat::Tiff => 5,
            ImageFormat::Tga => 6,
            ImageFormat::Dds => 7,
            ImageFormat::Bmp => 8,
            ImageFormat::Ico => 9,
            ImageFormat::Hdr => 10,
            ImageFormat::OpenExr => 11,
            ImageFormat::Farbfeld => 12,
            ImageFormat::Avif => 13,
            ImageFormat::Qoi => 14,
        }
    }

    /// The format with code `c`, if there is one.
    pub fn from_code(c: u8) -> (r: Option<ImageFormat>)
        ensures
            match r {
                Some(f) => format_code(f) == c,
                None => c >= FORMAT_COUNT,
            },
    {
        match c {
            0 => Some(ImageFormat::Png),
            1 => Some(ImageFormat::Jpeg),
            2 => Some(ImageFormat::Gif),
            3 => Some(ImageFormat::WebP),
            4 => Some(ImageFormat::Pnm),
            5 => Some(ImageFormat::Tiff),
            6 => Some(ImageFormat::Tga),
            7 => Some(ImageFormat::Dds),
            8 => Some(ImageFormat::Bmp),
            9 => Some(ImageFormat::Ico),
            10 => Some(ImageFormat::Hdr),
            11 => Some(ImageFormat::OpenExr),
            12 => Some(ImageFormat::Farbfeld),
            13 => Some(ImageFormat::Avif),
            14 => Some(ImageFormat::Qoi),
            _ => None,
        }
    }
}

/// Distinct formats have distinct codes.
pub proof fn lemma_format_code_injective(a: ImageFormat, b: ImageFormat)
    requires
        format_code(a) == format_code(b),
    ensures
        a == b,
{
}

/// The media type under which a format is served, if it has one.
pub open spec fn mime_of(f: ImageFormat) -> Option<Seq<char>> {
    match f {
        ImageFormat::Png => Some("image/png"@),
        ImageFormat::Jpeg => Some("image/jpeg"@),
        ImageFormat::Gif => Some("image/gif"@),
        ImageFormat::WebP => Some("image/webp"@),
        ImageFormat::Pnm => Some("image/x-portable-bitmap"@),
        ImageFormat::Tiff => Some("image/tiff"@),
        ImageFormat::Tga => Some("image/x-tga"@),
        ImageFormat::Dds => Some("image/vnd-ms.dds"@),
        ImageFormat::Bmp => Some("image/bmp"@),
        ImageFormat::Ico => Some("image/x-icon"@),
        ImageFormat::Hdr => Some("image/vnd.radiance"@),
        ImageFormat::Avif => Some("image/avif"@),
        _ => None,
    }
}

/// The media type of `format`, if it has one.
pub fn mime_of_format(format: ImageFormat) -> (r: Option<&'static str>)
    ensures
        match r {
            Some(s) => mime_of(format) == Some(s@),
            None => mime_of(format) is None,
        },
{
    match format {
        ImageFormat::Png => Some("image/png"),
        ImageFormat::Jpeg => Some("image/jpeg"),
        ImageFormat::Gif => Some("image/gif"),
        ImageFormat::WebP => Some("image/webp"),
        ImageFormat::Pnm => Some("image/x-portable-bitmap"),
        ImageFormat::Tiff => Some("image/tiff"),
        ImageFormat::Tga => Some("image/x-tga"),
        ImageFormat::Dds => Some("image/vnd-ms.dds"),
        ImageFormat::Bmp => Some("image/bmp"),
        ImageFormat::Ico => Some("image/x-icon"),
        ImageFormat::Hdr => Some("image/vnd.radiance"),
        ImageFormat::Avif => Some("image/avif"),
        _ => None,
    }
}

/// A reader over bytes, with a position that starts at 0.
#[derive(Debug)]
pub struct ByteReader {
    bytes: Vec<u8>,
    pos: usize,
}

impl ByteReader {
    /// All the bytes the reader goes over.
    pub closed spec fn content(&self) -> Seq<u8> {
        self.bytes@
    }

    /// How many bytes were read or skipped so far.
    pub closed spec fn offset(&self) -> nat {
        self.pos as nat
    }

    /// The bytes not read yet.
    pub open spec fn rest(&self) -> Seq<u8> {
        self.content().subrange(self.offset() as int, self.content().len() as int)
    }

    pub closed spec fn wf(&self) -> bool {
        self.pos <= self.bytes@.len()
    }

    /// A reader at the start of `bytes`.
    pub fn new(bytes: Vec<u8>) -> (r: Self)
        ensures
            r.wf(),
            r.content() == bytes@,
            r.offset() == 0,
    {
        ByteReader { bytes, pos: 0 }
    }

    /// The current offset.
    pub fn position(&self) -> (r: usize)
        ensures
            r == self.offset(),
    {
        self.pos
    }

    /// Moves to offset `pos`; an offset past the end stops at the end.
    pub fn seek(&mut self, pos: usize)
        ensures
            final(self).wf(),
            final(self).content() == old(self).content(),
            final(self).offset() == if pos <= old(self).content().len() {
                pos as nat
            } else {
                old(self).content().len()
            },
    {
        if pos <= self.bytes.len() {
            self.pos = pos;
        } else {
            self.pos = self.bytes.len();
        }
    }

    /// Reads up to `max` bytes from the current offset and moves past them.
    pub fn read(&mut self, max: usize) -> (r: Vec<u8>)
        requires
            old(self).wf(),
        ensures
            final(self).wf(),
            final(self).content() == old(self).content(),
            r@ == old(self).rest().take(
                if max <= old(self).rest().len() {
                    max as int
                } else {
                    old(self).rest().len() as int
                },
            ),
            final(self).offset() == old(self).offset() + r@.len(),
    {
        let ghost start = self.pos as int;
        let mut out: Vec<u8> = Vec::new();
        while out.len() < max && self.pos < self.bytes.len()
            invariant
                self.pos <= self.bytes@.len(),
                self.bytes@ == old(self).bytes@,
                start == old(self).pos,
                self.pos == start + out@.len(),
                out@.len() <= max,
                out@ == self.bytes@.subrange(start, self.pos as int),
            decreases self.bytes@.len() - self.pos,
        {
            out.push(self.bytes[self.pos]);
            self.pos = self.pos + 1;
            assert(out@ =~= self.bytes@.subrange(start, self.pos as int));
        }
        assert(out@ =~= old(self).rest().take(out@.len() as int));
        out
    }

    /// Reads everything from the current offset to the end.
    pub fn read_to_end(&mut self) -> (r: Vec<u8>)
        requires
            old(self).wf(),
        ensures
            final(self).wf(),
            final(self).content() == old(self).content(),
            r@ == old(self).rest(),
            final(self).offset() == old(self).content().len(),
    {
        let n = self.bytes.len() - self.pos;
        let r = self.read(n);
        assert(old(self).rest().take(n as int) =~= old(self).rest());
        r
    }
}

/// An image held in memory: its encoded bytes and format tag.
#[derive(Debug)]
pub struct InMemoryImage {
    data: Vec<u8>,
    format: Option<ImageFormat>,
}

impl Clone for InMemoryImage {
    fn clone(&self) -> (r: Self)
        ensures
            r.content() == self.content(),
            r.format_tag() == self.format_tag(),
    {
        InMemoryImage { data: self.data.clone(), format: self.format }
    }
}

impl InMemoryImage {
    /// The encoded bytes.
    pub closed spec fn content(&self) -> Seq<u8> {
        self.data@
    }

    /// The format tag, when known.
    pub closed spec fn format_tag(&self) -> Option<ImageFormat> {
        self.format
    }

    /// An image of `data` in `format`.
    pub fn new(data: Vec<u8>, format: Option<ImageFormat>) -> (r: Self)
        ensures
            r.content() == data@,
            r.format_tag() == format,
    {
        InMemoryImage { data, format }
    }

    /// The format tag, when known.
    pub fn format(&self) -> (r: Option<ImageFormat>)
        ensures
            r == self.format_tag(),
    {
        self.format
    }

    /// The number of encoded bytes.
    pub fn content_length(&self) -> (r: usize)
        ensures
            r == self.content().len(),
    {
        self.data.len()
    }

    /// A new reader over the bytes, at offset 0, independent of any other.
    pub fn data(&self) -> (r: ByteReader)
        ensures
            r.wf(),
            r.content() == self.content(),
            r.offset() == 0,
    {
        let bytes = self.data.clone();
        assert(bytes@ =~= self.data@);
        ByteReader::new(bytes)
    }

    /// The encoded bytes, as a slice.
    pub fn as_bytes(&self) -> (r: &[u8])
        ensures
            r@ == self.content(),
    {
        self.data.as_slice()
    }
}

/// A copy of a cached image has the same bytes and tag.
pub proof fn lemma_clone_keeps_image(a: InMemoryImage, b: InMemoryImage)
    requires
        cloned(a, b),
    ensures
        b.content() == a.content(),
        b.format_tag() == a.format_tag(),
{
}

/// A cache of images over a storage backend, under the frequency policy.
pub struct ImageCache<B: Backend<Value = InMemoryImage>> {
    inner: LFU<B>,
}

impl<B: Backend<Value = InMemoryImage>> ImageCache<B> {
    /// The policy state under the images.
    pub closed spec fn cache(&self) -> LFU<B> {
        self.inner
    }

    pub open spec fn wf(&self) -> bool {
        self.cache().wf()
    }

    /// An unbounded image cache over `backend`, with nothing indexed.
    pub fn new(backend: B) -> (r: Self)
        requires
            backend.inv(),
            backend.contents().dom().finite(),
        ensures
            r.wf(),
            r.cache().entries() == backend.contents(),
            r.cache().counts() == Map::<u64, usize>::empty(),
            r.cache().capacity() is None,
    {
        ImageCache { inner: LFU::new(backend) }
    }

    /// The same cache, bounded to `capacity` images.
    pub fn with_capacity(self, capacity: usize) -> (r: Self)
        requires
            self.wf(),
        ensures
            r.wf(),
            r.cache().entries() == self.cache().entries(),
            r.cache().counts() == self.cache().counts(),
            r.cache().capacity() == Some(capacity),
    {
        ImageCache { inner: self.inner.with_capacity(capacity) }
    }

    /// Drains `source` and stores what it held, tagged with `format`, under `k`.
    pub fn put(&mut self, k: u64, source: &mut ByteReader, format: ImageFormat) -> (r: Result<
        PutResult,
        Error,
    >)
        requires
            old(self).wf(),
            old(source).wf(),
        ensures
            final(self).wf(),
            final(source).wf(),
            final(source).content() == old(source).content(),
            final(source).offset() == old(source).content().len(),
            exists|img: InMemoryImage|
                {
                    &&& #[trigger] img.content() == old(source).rest()
                    &&& img.format_tag() == Some(format)
                    &&& old(self).cache().put_post(&final(self).cache(), k, img, r)
                },
    {
        let bytes = source.read_to_end();
        let img = InMemoryImage::new(bytes, Some(format));
        let ghost stored = img;
        let r = self.inner.put(k, img);
        assert(stored.content() == old(source).rest());
        r
    }

    /// The image stored under `k`, counting one access to it.
    pub fn get(&mut self, k: &u64) -> (r: Option<InMemoryImage>)
        requires
            old(self).wf(),
        ensures
            final(self).wf(),
            old(self).cache().get_post(&final(self).cache(), *k, r),
            r matches Some(v) ==> {
                &&& v.content() == old(self).cache().entries()[*k].content()
                &&& v.format_tag() == old(self).cache().entries()[*k].format_tag()
            },
    {
        let r = self.inner.get(k);
        proof {
            if r is Some {
                lemma_clone_keeps_image(old(self).cache().entries()[*k], r->Some_0);
            }
        }
        r
    }

    /// The image stored under `k`, leaving the counts as they are.
    pub fn peek(&self, k: &u64) -> (r: Option<InMemoryImage>)
        requires
            self.wf(),
        ensures
            match r {
                Some(v) => {
                    &&& self.cache().entries().contains_key(*k)
                    &&& v.content() == self.cache().entries()[*k].content()
                    &&& v.format_tag() == self.cache().entries()[*k].format_tag()
                },
                None => !self.cache().entries().contains_key(*k),
            },
    {
        let r = self.inner.peek(k);
        proof {
            if r is Some {
                lemma_clone_keeps_image(self.cache().entries()[*k], r->Some_0);
            }
        }
        r
    }

    /// Takes the image of `k` out of the cache.
    pub fn remove(&mut self, k: &u64) -> (r: Option<InMemoryImage>)
        requires
            old(self).wf(),
        ensures
            final(self).wf(),
            final(self).cache().entries() == old(self).cache().entries().remove(*k),
            old(self).cache().unindexed(&final(self).cache(), *k),
            match r {
                Some(v) => old(self).cache().entries().contains_key(*k) && v == old(
                    self,
                ).cache().entries()[*k],
                None => !old(self).cache().entries().contains_key(*k),
            },
    {
        self.inner.remove(k)
    }

    /// Removes every image.
    pub fn purge(&mut self)
        requires
            old(self).wf(),
        ensures
            final(self).wf(),
            old(self).cache().purge_post(&final(self).cache()),
    {
        self.inner.purge()
    }

    /// How many images the cache holds.
    pub fn len(&self) -> (r: usize)
        requires
            self.wf(),
        ensures
            r == self.cache().entries().len(),
    {
        self.inner.len()
    }
}

/// Storing an image under `k` and then reading `k` gives back the same bytes
/// and format.
pub proof fn lemma_round_trip<B: Backend<Value = InMemoryImage>>(
    a: LFU<B>,
    b: LFU<B>,
    c: LFU<B>,
    k: u64,
    img: InMemoryImage,
    stored: Result<PutResult, Error>,
    got: Option<InMemoryImage>,
)
    requires
        a.wf(),
        a.put_post(&b, k, img, stored),
        stored is Ok,
        b.get_post(&c, k, got),
    ensures
        got is Some,
        got->Some_0.content() == img.content(),
        got->Some_0.format_tag() == img.format_tag(),
{
    assert(b.entries().contains_key(k) && b.entries()[k] == img);
    lemma_clone_keeps_image(img, got->Some_0);
}

} // verus!
