//! Digest computation over in-memory bytes.
//!
//! The cryptographic primitives are external collaborators: each digest is
//! named as an uninterpreted function of the input bytes, computed by the
//! corresponding RustCrypto hasher. Hex rendering is the library's own,
//! proved against its specification.

use vstd::prelude::*;

verus! {

use md5::Digest;

pub uninterp spec fn md5_of(data: Seq<u8>) -> Seq<u8>;

pub uninterp spec fn sha1_of(data: Seq<u8>) -> Seq<u8>;

pub uninterp spec fn sha224_of(data: Seq<u8>) -> Seq<u8>;

pub uninterp spec fn sha256_of(data: Seq<u8>) -> Seq<u8>;

pub uninterp spec fn sha384_of(data: Seq<u8>) -> Seq<u8>;

pub uninterp spec fn sha512_of(data: Seq<u8>) -> Seq<u8>;

pub uninterp spec fn blake2b512_of(data: Seq<u8>) -> Seq<u8>;

/// The character for one hex digit value, lowercase.
pub open spec fn hex_digit_char(v: int) -> char {
    if v == 0 {
        '0'
    } else if v == 1 {
        '1'
    } else if v == 2 {
        '2'
    } else if v == 3 {
        '3'
    } else if v == 4 {
        '4'
    } else if v == 5 {
        '5'
    } else if v == 6 {
        '6'
    } else if v == 7 {
        '7'
    } else if v == 8 {
        '8'
    } else if v == 9 {
        '9'
    } else if v == 10 {
        'a'
    } else if v == 11 {
        'b'
    } else if v == 12 {
        'c'
    } else if v == 13 {
        'd'
    } else if v == 14 {
        'e'
    } else {
        'f'
    }
}

/// The lowercase hex rendering of a byte sequence, two digits per byte.
pub open spec fn hex_of(data: Seq<u8>) -> Seq<char>
    decreases data.len(),
{
    if data.len() == 0 {
        Seq::empty()
    } else {
        hex_of(data.drop_last()) + seq![
            hex_digit_char(data.last() as int / 16),
            hex_digit_char(data.last() as int % 16),
        ]
    }
}

/// Relies on md5::Md5 through the `Digest` trait: a 16-byte digest that is a
/// pure function of the input bytes.
#[verifier::external_body]
pub(crate) fn md5_digest(data: &[u8]) -> (r: Vec<u8>)
    ensures
        r@ == md5_of(data@),
        r@.len() == 16,
{
    md5::Md5::digest(data).to_vec()
}

/// Relies on sha1::Sha1 through the `Digest` trait: a 20-byte digest that is a
/// pure function of the input bytes.
#[verifier::external_body]
pub(crate) fn sha1_digest(data: &[u8]) -> (r: Vec<u8>)
    ensures
        r@ == sha1_of(data@),
        r@.len() == 20,
{
    sha1::Sha1::digest(data).to_vec()
}

/// Relies on sha2::Sha224 through the `Digest` trait: a 28-byte digest that is
/// a pure function of the input bytes.
#[verifier::external_body]
pub(crate) fn sha224_digest(data: &[u8]) -> (r: Vec<u8>)
    ensures
        r@ == sha224_of(data@),
        r@.len() == 28,
{
    sha2::Sha224::digest(data).to_vec()
}

/// Relies on sha2::Sha256 through the `Digest` trait: a 32-byte digest that is
/// a pure function of the input bytes.
#[verifier::external_body]
pub(crate) fn sha256_digest(data: &[u8]) -> (r: Vec<u8>)
    ensures
        r@ == sha256_of(data@),
        r@.len() == 32,
{
    sha2::Sha256::digest(data).to_vec()
}

/// Relies on sha2::Sha384 through the `Digest` trait: a 48-byte digest that is
/// a pure function of the input bytes.
#[verifier::external_body]
pub(crate) fn sha384_digest(data: &[u8]) -> (r: Vec<u8>)
    ensures
        r@ == sha384_of(data@),
        r@.len() == 48,
{
    sha2::Sha384::digest(data).to_vec()
}

/// Relies on sha2::Sha512 through the `Digest` trait: a 64-byte digest that is
/// a pure function of the input bytes.
#[verifier::external_body]
pub(crate) fn sha512_digest(data: &[u8]) -> (r: Vec<u8>)
    ensures
        r@ == sha512_of(data@),
        r@.len() == 64,
{
    sha2::Sha512::digest(data).to_vec()
}

/// Relies on blake2::Blake2b512 through the `Digest` trait: a 64-byte digest
/// that is a pure function of the input bytes.
#[verifier::external_body]
pub(crate) fn blake2b512_digest(data: &[u8]) -> (r: Vec<u8>)
    ensures
        r@ == blake2b512_of(data@),
        r@.len() == 64,
{
    blake2::Blake2b512::digest(data).to_vec()
}

fn hex_digit_str(v: u8) -> (r: &'static str)
    requires
        v < 16,
    ensures
        r@ == seq![hex_digit_char(v as int)],
{
    if v == 0 {
        let s = "0";
        proof {
            reveal_strlit("0");
            assert(s@ =~= seq![hex_digit_char(0)]);
        }
        s
    } else if v == 1 {
        let s = "1";
        proof {
            reveal_strlit("1");
            assert(s@ =~= seq![hex_digit_char(1)]);
        }
        s
    } else if v == 2 {
        let s = "2";
        proof {
            reveal_strlit("2");
            assert(s@ =~= seq![hex_digit_char(2)]);
        }
        s
    } else if v == 3 {
        let s = "3";
        proof {
            reveal_strlit("3");
            assert(s@ =~= seq![hex_digit_char(3)]);
        }
        s
    } else if v == 4 {
        let s = "4";
        proof {
            reveal_strlit("4");
            assert(s@ =~= seq![hex_digit_char(4)]);
        }
        s
    } else if v == 5 {
        let s = "5";
        proof {
            reveal_strlit("5");
            assert(s@ =~= seq![hex_digit_char(5)]);
        }
        s
    } else if v == 6 {
        let s = "6";
        proof {
            reveal_strlit("6");
            assert(s@ =~= seq![hex_digit_char(6)]);
        }
        s
    } else if v == 7 {
        let s = "7";
        proof {
            reveal_strlit("7");
            assert(s@ =~= seq![hex_digit_char(7)]);
        }
        s
    } else if v == 8 {
        let s = "8";
        proof {
            reveal_strlit("8");
            assert(s@ =~= seq![hex_digit_char(8)]);
        }
        s
    } else if v == 9 {
        let s = "9";
        proof {
            reveal_strlit("9");
            assert(s@ =~= seq![hex_digit_char(9)]);
        }
        s
    } else if v == 10 {
        let s = "a";
        proof {
            reveal_strlit("a");
            assert(s@ =~= seq![hex_digit_char(10)]);
        }
        s
    } else if v == 11 {
        let s = "b";
        proof {
            reveal_strlit("b");
            assert(s@ =~= seq![hex_digit_char(11)]);
        }
        s
    } else if v == 12 {
        let s = "c";
        proof {
            reveal_strlit("c");
            assert(s@ =~= seq![hex_digit_char(12)]);
        }
        s
    } else if v == 13 {
        let s = "d";
        proof {
            reveal_strlit("d");
            assert(s@ =~= seq![hex_digit_char(13)]);
        }
        s
    } else if v == 14 {
        let s = "e";
        proof {
            reveal_strlit("e");
            assert(s@ =~= seq![hex_digit_char(14)]);
        }
        s
    } else {
        let s = "f";
        proof {
            reveal_strlit("f");
            assert(s@ =~= seq![hex_digit_char(15)]);
        }
        s
    }
}

/// The lowercase hex rendering of the bytes, two digits per byte, most
/// significant digit of each byte first.
pub(crate) fn hex_encode(data: &[u8]) -> (r: String)
    ensures
        r@ == hex_of(data@),
{
    let mut s = String::new();
    let mut i: usize = 0;
    proof {
        assert(data@.subrange(0, 0) =~= Seq::<u8>::empty());
    }
    while i < data.len()
        invariant
            0 <= i <= data@.len(),
            s@ == hex_of(data@.subrange(0, i as int)),
        decreases data@.len() - i,
    {
        let b = data[i];
        s.append(hex_digit_str(b / 16));
        s.append(hex_digit_str(b % 16));
        i = i + 1;
        proof {
            let pre = data@.subrange(0, i - 1);
            let cur = data@.subrange(0, i as int);
            assert(cur.drop_last() =~= pre);
            assert(cur.last() == data@[i - 1]);
            assert((b / 16) as int == cur.last() as int / 16);
            assert((b % 16) as int == cur.last() as int % 16);
            assert(s@ =~= hex_of(cur));
        }
    }
    proof {
        assert(data@.subrange(0, data@.len() as int) =~= data@);
    }
    s
}

/// The lowercase hex MD5 digest of the data.
pub fn md5_hash(data: &[u8]) -> (r: String)
    ensures
        r@ == hex_of(md5_of(data@)),
{
    hex_encode(md5_digest(data).as_slice())
}

/// The lowercase hex SHA-1 digest of the data.
pub fn sha1_hash(data: &[u8]) -> (r: String)
    ensures
        r@ == hex_of(sha1_of(data@)),
{
    hex_encode(sha1_digest(data).as_slice())
}

/// The lowercase hex SHA-224 digest of the data.
pub fn sha224_hash(data: &[u8]) -> (r: String)
    ensures
        r@ == hex_of(sha224_of(data@)),
{
    hex_encode(sha224_digest(data).as_slice())
}

/// The lowercase hex SHA-256 digest of the data.
pub fn sha256_hash(data: &[u8]) -> (r: String)
    ensures
        r@ == hex_of(sha256_of(data@)),
{
    hex_encode(sha256_digest(data).as_slice())
}

/// The lowercase hex SHA-384 digest of the data.
pub fn sha384_hash(data: &[u8]) -> (r: String)
    ensures
        r@ == hex_of(sha384_of(data@)),
{
    hex_encode(sha384_digest(data).as_slice())
}

/// The lowercase hex SHA-512 digest of the data.
pub fn sha512_hash(data: &[u8]) -> (r: String)
    ensures
        r@ == hex_of(sha512_of(data@)),
{
    hex_encode(sha512_digest(data).as_slice())
}

/// The lowercase hex BLAKE2b-512 digest of the data.
pub fn blake2b512_hash(data: &[u8]) -> (r: String)
    ensures
        r@ == hex_of(blake2b512_of(data@)),
{
    hex_encode(blake2b512_digest(data).as_slice())
}

} // verus!
