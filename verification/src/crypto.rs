//! The digests, MACs and encodings that webhook signatures are checked with: ring
//! computes them, base64 encodes, subtle compares in constant time.
use vstd::prelude::*;
use base64::Engine;
use subtle::ConstantTimeEq;

verus! {

/// The SHA-1 digest of `data`, as ring computes it.
pub uninterp spec fn sha1(data: Seq<u8>) -> Seq<u8>;

/// `ring::digest::digest(&SHA1_FOR_LEGACY_USE_ONLY, data)`. The contract claims
/// that the result is the named function of the data and, as the algorithm fixes,
/// 20 bytes long.
#[verifier::external_body]
pub fn sha1_digest(data: &[u8]) -> (r: Vec<u8>)
    ensures
        r@ == sha1(data@),
        r@.len() == 20,
{
    ring::digest::digest(&ring::digest::SHA1_FOR_LEGACY_USE_ONLY, data).as_ref().to_vec()
}

/// The HMAC-SHA256 tag of `data` under `key`, as ring computes it.
pub uninterp spec fn hmac_sha256(key: Seq<u8>, data: Seq<u8>) -> Seq<u8>;

/// `ring::hmac::sign` with a `HMAC_SHA256` key made from `key`. The contract claims
/// that the result is the named function of key and data and, as the algorithm
/// fixes, 32 bytes long.
#[verifier::external_body]
pub fn hmac_sha256_tag(key: &[u8], data: &[u8]) -> (r: Vec<u8>)
    ensures
        r@ == hmac_sha256(key@, data@),
        r@.len() == 32,
{
    let k = ring::hmac::Key::new(ring::hmac::HMAC_SHA256, key);
    ring::hmac::sign(&k, data).as_ref().to_vec()
}

/// The character of the standard base64 alphabet for `v < 64`.
pub open spec fn b64_char(v: int) -> char {
    if v < 26 {
        ((65 + v) as u32) as char
    } else if v < 52 {
        ((97 + v - 26) as u32) as char
    } else if v < 62 {
        ((48 + v - 52) as u32) as char
    } else if v == 62 {
        '+'
    } else {
        '/'
    }
}

/// Standard base64 with padding (RFC 4648 section 4).
pub open spec fn base64(b: Seq<u8>) -> Seq<char>
    decreases b.len(),
{
    if b.len() == 0 {
        Seq::empty()
    } else {
        let x: int = b[0] as int;
        let y: int = if b.len() > 1 { b[1] as int } else { 0 };
        let z: int = if b.len() > 2 { b[2] as int } else { 0 };
        if b.len() == 1 {
            seq![b64_char(x / 4), b64_char((x % 4) * 16), '=', '=']
        } else if b.len() == 2 {
            seq![b64_char(x / 4), b64_char((x % 4) * 16 + y / 16), b64_char((y % 16) * 4), '=']
        } else {
            seq![b64_char(x / 4), b64_char((x % 4) * 16 + y / 16), b64_char((y % 16) * 4 + z / 64), b64_char(z % 64)]
                + base64(b.skip(3))
        }
    }
}

/// `base64::engine::general_purpose::STANDARD.encode(bytes)`: standard base64 with
/// padding, as the crate documents.
#[verifier::external_body]
pub fn base64_encode(bytes: &[u8]) -> (r: String)
    ensures
        r@ == base64(bytes@),
{
    base64::engine::general_purpose::STANDARD.encode(bytes)
}

/// What `URL_SAFE_NO_PAD.decode` gives for `text`: the bytes, or its error's message.
pub uninterp spec fn base64url(text: Seq<char>) -> Result<Seq<u8>, Seq<char>>;

/// `base64::engine::general_purpose::URL_SAFE_NO_PAD.decode(text)`. The contract
/// claims only that the outcome (bytes, or the error's message) is the named
/// function of the text.
#[verifier::external_body]
pub fn base64url_decode(text: &str) -> (r: Result<Vec<u8>, String>)
    ensures
        match r {
            Ok(b) => base64url(text@) == Ok::<Seq<u8>, Seq<char>>(b@),
            Err(e) => base64url(text@) == Err::<Seq<u8>, Seq<char>>(e@),
        },
{
    base64::engine::general_purpose::URL_SAFE_NO_PAD.decode(text).map_err(|e| e.to_string())
}


/// `subtle::ConstantTimeEq::ct_eq` on byte slices: whether they are equal (the
/// comparison takes time independent of the contents when the lengths agree).
#[verifier::external_body]
pub fn constant_time_eq(a: &[u8], b: &[u8]) -> (r: bool)
    ensures
        r == (a@ == b@),
{
    a.ct_eq(b).into()
}

/// The lower-case hexadecimal digit for `v < 16`.
pub open spec fn hex_digit(v: int) -> char {
    if v < 10 {
        ((48 + v) as u32) as char
    } else {
        ((97 + v - 10) as u32) as char
    }
}

/// Lower-case hexadecimal of bytes, two digits each.
pub open spec fn hex(b: Seq<u8>) -> Seq<char>
    decreases b.len(),
{
    if b.len() == 0 {
        Seq::empty()
    } else {
        hex(b.drop_last()) + seq![hex_digit(b.last() as int / 16), hex_digit(b.last() as int % 16)]
    }
}

fn hex_digit_exec(v: u8) -> (c: char)
    requires
        v < 16,
    ensures
        c == hex_digit(v as int),
{
    match v {
        0 => '0',
        1 => '1',
        2 => '2',
        3 => '3',
        4 => '4',
        5 => '5',
        6 => '6',
        7 => '7',
        8 => '8',
        9 => '9',
        10 => 'a',
        11 => 'b',
        12 => 'c',
        13 => 'd',
        14 => 'e',
        _ => 'f',
    }
}

/// Lower-case hexadecimal of bytes (`{b:02x}` for each byte).
pub fn to_hex(b: &Vec<u8>) -> (r: String)
    ensures
        r@ == hex(b@),
{
    let mut r = String::new();
    let mut i: usize = 0;
    while i < b.len()
        invariant
            i <= b@.len(),
            r@ == hex(b@.take(i as int)),
        decreases b@.len() - i,
    {
        proof {
            assert(b@.take(i + 1).drop_last() =~= b@.take(i as int));
        }
        crate::text::push_char(&mut r, hex_digit_exec(b[i] / 16));
        crate::text::push_char(&mut r, hex_digit_exec(b[i] % 16));
        i += 1;
        assert(r@ =~= hex(b@.take(i as int)));
    }
    assert(b@.take(i as int) =~= b@);
    r
}

} // verus!
