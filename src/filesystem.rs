//! Naming for the filesystem backend: each key is stored under a fixed-width
//! hexadecimal name derived from its hash, as a content file and a metadata
//! file in one directory.
use crate::msgpack::MessagePack;
use std::collections::hash_map::DefaultHasher;
use std::hash::Hasher;
use vstd::bytes::{spec_u64_to_le_bytes, u64_to_le_bytes};
use vstd::prelude::*;
use vstd::std_specs::hash::DefaultHasherAdditionalSpecFns;
use vstd::string::StringExecFns;

verus! {

/// The uppercase hexadecimal digit of `d` (below 16).
pub open spec fn hex_char(d: u64) -> char {
    if d < 10 {
        (('0' as u8) + d) as char
    } else {
        (('A' as u8) + (d - 10)) as char
    }
}

/// The digit of `x` that stands `i` places from the left in a 16-digit
/// hexadecimal numeral.
pub open spec fn hex_digit_at(x: u64, i: int) -> u64 {
    (x >> ((60 - 4 * i) as u64)) & 0xf
}

/// `x` written as 16 uppercase hexadecimal digits, most significant first.
pub open spec fn hex16(x: u64) -> Seq<char> {
    Seq::new(16, |i: int| hex_char(hex_digit_at(x, i)))
}

/// The hash of a key: `DefaultHasher` fed the key's 8 little-endian bytes.
pub open spec fn key_hash_of(key: u64) -> u64 {
    DefaultHasher::spec_finish(seq![spec_u64_to_le_bytes(key)])
}

/// The one-character text of the hexadecimal digit `d`.
fn hex_str(d: u64) -> (r: &'static str)
    requires
        d < 16,
    ensures
        r@ == seq![hex_char(d)],
{
    proof {
        reveal_strlit("0");
        reveal_strlit("1");
        reveal_strlit("2");
        reveal_strlit("3");
        reveal_strlit("4");
        reveal_strlit("5");
        reveal_strlit("6");
        reveal_strlit("7");
        reveal_strlit("8");
        reveal_strlit("9");
        reveal_strlit("A");
        reveal_strlit("B");
        reveal_strlit("C");
        reveal_strlit("D");
        reveal_strlit("E");
        reveal_strlit("F");
    }
    let r = if d == 0 {
        "0"
    } else if d == 1 {
        "1"
    } else if d == 2 {
        "2"
    } else if d == 3 {
        "3"
    } else if d == 4 {
        "4"
    } else if d == 5 {
        "5"
    } else if d == 6 {
        "6"
    } else if d == 7 {
        "7"
    } else if d == 8 {
        "8"
    } else if d == 9 {
        "9"
    } else if d == 10 {
        "A"
    } else if d == 11 {
        "B"
    } else if d == 12 {
        "C"
    } else if d == 13 {
        "D"
    } else if d == 14 {
        "E"
    } else {
        "F"
    };
    assert(r@ =~= seq![hex_char(d)]);
    r
}

/// `x` as 16 uppercase hexadecimal digits.
pub fn hex_name(x: u64) -> (r: String)
    ensures
        r@ == hex16(x),
{
    let mut s = String::new();
    let mut i: u64 = 0;
    while i < 16
        invariant
            i <= 16,
            s@ == hex16(x).take(i as int),
        decreases 16 - i,
    {
        let sh: u64 = 60 - 4 * i;
        let d = (x >> sh) & 0xf;
        assert(d < 16) by (bit_vector)
            requires
                d == (x >> sh) & 0xf,
        ;
        assert(d == hex_digit_at(x, i as int));
        s.append(hex_str(d));
        assert(s@ =~= hex16(x).take(i as int + 1));
        i = i + 1;
    }
    assert(s@ =~= hex16(x));
    s
}

/// A name is 16 characters, each a decimal digit or an uppercase letter
/// from A to F, so it is a legal file name everywhere.
pub proof fn lemma_hex16_legal(x: u64)
    ensures
        hex16(x).len() == 16,
        forall|i: int|
            0 <= i < 16 ==> {
                let ch = #[trigger] hex16(x)[i];
                ('0' <= ch && ch <= '9') || ('A' <= ch && ch <= 'F')
            },
{
    assert forall|i: int| 0 <= i < 16 implies {
        let ch = #[trigger] hex16(x)[i];
        ('0' <= ch && ch <= '9') || ('A' <= ch && ch <= 'F')
    } by {
        let sh = (60 - 4 * i) as u64;
        let d = hex_digit_at(x, i);
        assert(d < 16) by (bit_vector)
            requires
                d == (x >> sh) & 0xf,
        ;
    }
}

/// Distinct digits are written differently.
proof fn lemma_hex_char_injective(a: u64, b: u64)
    requires
        a < 16,
        b < 16,
        hex_char(a) == hex_char(b),
    ensures
        a == b,
{
    assert(hex_char(a) as u32 == if a < 10 { 48 + a } else { 55 + a });
    assert(hex_char(b) as u32 == if b < 10 { 48 + b } else { 55 + b });
}

/// Distinct hashes get distinct names.
pub proof fn lemma_hex16_injective(x: u64, y: u64)
    requires
        hex16(x) == hex16(y),
    ensures
        x == y,
{
    assert forall|i: int| 0 <= i < 16 implies hex_digit_at(x, i) == hex_digit_at(y, i) by {
        let sh = (60 - 4 * i) as u64;
        let dx = hex_digit_at(x, i);
        let dy = hex_digit_at(y, i);
        assert(dx < 16) by (bit_vector)
            requires
                dx == (x >> sh) & 0xf,
        ;
        assert(dy < 16) by (bit_vector)
            requires
                dy == (y >> sh) & 0xf,
        ;
        assert(hex16(x)[i] == hex16(y)[i]);
        assert(hex16(x)[i] == hex_char(dx));
        assert(hex16(y)[i] == hex_char(dy));
        lemma_hex_char_injective(dx, dy);
    }
    assert(hex_digit_at(x, 0) == hex_digit_at(y, 0));
    assert(hex_digit_at(x, 1) == hex_digit_at(y, 1));
    assert(hex_digit_at(x, 2) == hex_digit_at(y, 2));
    assert(hex_digit_at(x, 3) == hex_digit_at(y, 3));
    assert(hex_digit_at(x, 4) == hex_digit_at(y, 4));
    assert(hex_digit_at(x, 5) == hex_digit_at(y, 5));
    assert(hex_digit_at(x, 6) == hex_digit_at(y, 6));
    assert(hex_digit_at(x, 7) == hex_digit_at(y, 7));
    assert(hex_digit_at(x, 8) == hex_digit_at(y, 8));
    assert(hex_digit_at(x, 9) == hex_digit_at(y, 9));
    assert(hex_digit_at(x, 10) == hex_digit_at(y, 10));
    assert(hex_digit_at(x, 11) == hex_digit_at(y, 11));
    assert(hex_digit_at(x, 12) == hex_digit_at(y, 12));
    assert(hex_digit_at(x, 13) == hex_digit_at(y, 13));
    assert(hex_digit_at(x, 14) == hex_digit_at(y, 14));
    assert(hex_digit_at(x, 15) == hex_digit_at(y, 15));
    assert(x == y) by (bit_vector)
        requires
            (x >> 60u64) & 0xf == (y >> 60u64) & 0xf,
            (x >> 56u64) & 0xf == (y >> 56u64) & 0xf,
            (x >> 52u64) & 0xf == (y >> 52u64) & 0xf,
            (x >> 48u64) & 0xf == (y >> 48u64) & 0xf,
            (x >> 44u64) & 0xf == (y >> 44u64) & 0xf,
            (x >> 40u64) & 0xf == (y >> 40u64) & 0xf,
            (x >> 36u64) & 0xf == (y >> 36u64) & 0xf,
            (x >> 32u64) & 0xf == (y >> 32u64) & 0xf,
            (x >> 28u64) & 0xf == (y >> 28u64) & 0xf,
            (x >> 24u64) & 0xf == (y >> 24u64) & 0xf,
            (x >> 20u64) & 0xf == (y >> 20u64) & 0xf,
            (x >> 16u64) & 0xf == (y >> 16u64) & 0xf,
            (x >> 12u64) & 0xf == (y >> 12u64) & 0xf,
            (x >> 8u64) & 0xf == (y >> 8u64) & 0xf,
            (x >> 4u64) & 0xf == (y >> 4u64) & 0xf,
            (x >> 0u64) & 0xf == (y >> 0u64) & 0xf,
    ;
}

/// The filesystem store's layout: a directory and a codec for metadata.
#[derive(Debug, Default)]
pub struct Filesystem {
    path: String,
    deser: MessagePack,
}

impl Filesystem {
    /// The directory the files go to.
    pub closed spec fn dir(&self) -> Seq<char> {
        self.path@
    }

    /// A layout rooted at the directory `path`.
    pub fn new(path: &str, deser: MessagePack) -> (r: Self)
        ensures
            r.dir() == path@,
    {
        Filesystem { path: String::from_str(path), deser }
    }

    /// The directory the files go to.
    pub fn dir_path(&self) -> (r: &str)
        ensures
            r@ == self.dir(),
    {
        self.path.as_str()
    }

    /// The codec of metadata records.
    pub fn codec(&self) -> (r: &MessagePack) {
        &self.deser
    }

    /// The file name stem of `key`: its hash in 16 hexadecimal digits.
    pub fn key_hash(key: u64) -> (r: String)
        ensures
            r@ == hex16(key_hash_of(key)),
    {
        let bytes = u64_to_le_bytes(key);
        let mut hasher = DefaultHasher::new();
        hasher.write(bytes.as_slice());
        let h = hasher.finish();
        assert(hasher@ =~= seq![spec_u64_to_le_bytes(key)]);
        hex_name(h)
    }

    /// The path of the file that holds the content stored under `key`.
    pub fn value_path(&self, key: u64) -> (r: String)
        ensures
            r@ == self.dir() + "/"@ + hex16(key_hash_of(key)) + ".value"@,
    {
        let mut p = self.path.clone();
        p.append("/");
        let h = Filesystem::key_hash(key);
        p.append(h.as_str());
        p.append(".value");
        p
    }

    /// The path of the metadata record that goes with the content of `key`.
    pub fn key_path(&self, key: u64) -> (r: String)
        ensures
            r@ == self.dir() + "/"@ + hex16(key_hash_of(key)) + ".key"@,
    {
        let mut p = self.path.clone();
        p.append("/");
        let h = Filesystem::key_hash(key);
        p.append(h.as_str());
        p.append(".key");
        p
    }
}

} // verus!
