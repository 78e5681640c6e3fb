//! Content codings named in `Content-Encoding` and `Accept-Encoding` headers.
use vstd::prelude::*;
use vstd::string::{StrSliceExecFns, StringExecFns};

verus! {

/// A content coding.
#[allow(non_camel_case_types)]
#[derive(Debug, Clone, Copy, PartialEq, Eq, Structural)]
pub enum ContentCoding {
    /// br
    BROTLI,
    /// compress
    COMPRESS,
    /// deflate
    DEFLATE,
    /// gzip
    GZIP,
    /// identity
    IDENTITY,
}

/// A name that is no known content coding.
#[derive(Debug, Clone, Copy, PartialEq, Eq, Structural)]
pub struct InvalidCoding;

/// The token of a coding, as it stands in a header.
pub open spec fn token_of(c: ContentCoding) -> Seq<char> {
    match c {
        ContentCoding::BROTLI => "br"@,
        ContentCoding::COMPRESS => "compress"@,
        ContentCoding::DEFLATE => "deflate"@,
        ContentCoding::GZIP => "gzip"@,
        ContentCoding::IDENTITY => "identity"@,
    }
}

/// The coding that a name stands for: its token or its variant's name.
pub open spec fn coding_named(s: Seq<char>) -> Option<ContentCoding> {
    if s == "BROTLI"@ || s == "br"@ {
        Some(ContentCoding::BROTLI)
    } else if s == "COMPRESS"@ || s == "compress"@ {
        Some(ContentCoding::COMPRESS)
    } else if s == "DEFLATE"@ || s == "deflate"@ {
        Some(ContentCoding::DEFLATE)
    } else if s == "GZIP"@ || s == "gzip"@ {
        Some(ContentCoding::GZIP)
    } else if s == "IDENTITY"@ || s == "identity"@ {
        Some(ContentCoding::IDENTITY)
    } else {
        None
    }
}

/// Whether two strings hold the same characters.
fn same_text(a: &str, b: &str) -> (r: bool)
    ensures
        r == (a@ == b@),
{
    let n = a.unicode_len();
    if n != b.unicode_len() {
        return false;
    }
    let mut i: usize = 0;
    while i < n
        invariant
            n == a@.len(),
            n == b@.len(),
            i <= n,
            a@.take(i as int) == b@.take(i as int),
        decreases n - i,
    {
        if a.get_char(i) != b.get_char(i) {
            assert(a@[i as int] != b@[i as int]);
            return false;
        }
        assert(a@.take(i as int + 1) =~= a@.take(i as int).push(a@[i as int]));
        assert(b@.take(i as int + 1) =~= b@.take(i as int).push(b@[i as int]));
        i = i + 1;
    }
    assert(a@ =~= a@.take(n as int));
    assert(b@ =~= b@.take(n as int));
    true
}

impl ContentCoding {
    /// The token of this coding.
    pub fn to_static(&self) -> (r: &'static str)
        ensures
            r@ == token_of(*self),
    {
        match self {
            ContentCoding::BROTLI => "br",
            ContentCoding::COMPRESS => "compress",
            ContentCoding::DEFLATE => "deflate",
            ContentCoding::GZIP => "gzip",
            ContentCoding::IDENTITY => "identity",
        }
    }

    /// The token of this coding, as an owned string.
    pub fn to_string(&self) -> (r: String)
        ensures
            r@ == token_of(*self),
    {
        String::from_str(self.to_static())
    }

    /// The coding named by `s`, or `IDENTITY`, which is always acceptable,
    /// when `s` names none.
    pub fn from_name(s: &str) -> (r: Self)
        ensures
            r == match coding_named(s@) {
                Some(c) => c,
                None => ContentCoding::IDENTITY,
            },
    {
        match ContentCoding::try_from_name(s) {
            Ok(c) => c,
            Err(_) => ContentCoding::IDENTITY,
        }
    }

    /// The coding named by `s`: its token or its variant's name.
    pub fn try_from_name(s: &str) -> (r: Result<Self, InvalidCoding>)
        ensures
            match coding_named(s@) {
                Some(c) => r == Ok::<ContentCoding, InvalidCoding>(c),
                None => r is Err,
            },
    {
        if same_text(s, "BROTLI") || same_text(s, "br") {
            Ok(ContentCoding::BROTLI)
        } else if same_text(s, "COMPRESS") || same_text(s, "compress") {
            Ok(ContentCoding::COMPRESS)
        } else if same_text(s, "DEFLATE") || same_text(s, "deflate") {
            Ok(ContentCoding::DEFLATE)
        } else if same_text(s, "GZIP") || same_text(s, "gzip") {
            Ok(ContentCoding::GZIP)
        } else if same_text(s, "IDENTITY") || same_text(s, "identity") {
            Ok(ContentCoding::IDENTITY)
        } else {
            Err(InvalidCoding)
        }
    }
}

} // verus!
