use vstd::prelude::*;

use md5::Digest;

verus! {

/// The lowercase hexadecimal digit of `n < 16`.
pub open spec fn hex_digit(n: nat) -> char {
    "0123456789abcdef"@[n as int]
}

/// Lowercase hexadecimal text of `b`: two digits per byte, high nibble first.
pub open spec fn hex_lower(b: Seq<u8>) -> Seq<char>
    decreases b.len(),
{
    if b.len() == 0 {
        Seq::empty()
    } else {
        seq![hex_digit((b[0] / 16) as nat), hex_digit((b[0] % 16) as nat)] + hex_lower(
            b.drop_first(),
        )
    }
}

/// The character of the standard base64 alphabet for `n < 64`.
pub open spec fn base64_digit(n: nat) -> char {
    "ABCDEFGHIJKLMNOPQRSTUVWXYZabcdefghijklmnopqrstuvwxyz0123456789+/"@[n as int]
}

/// Standard base64 text of `b`, padded with `=` to a multiple of four.
pub open spec fn base64_std(b: Seq<u8>) -> Seq<char>
    decreases b.len(),
{
    if b.len() == 0 {
        Seq::empty()
    } else if b.len() == 1 {
        seq![base64_digit((b[0] / 4) as nat), base64_digit(((b[0] % 4) * 16) as nat), '=', '=']
    } else if b.len() == 2 {
        seq![
            base64_digit((b[0] / 4) as nat),
            base64_digit(((b[0] % 4) * 16 + b[1] / 16) as nat),
            base64_digit(((b[1] % 16) * 4) as nat),
            '=',
        ]
    } else {
        seq![
            base64_digit((b[0] / 4) as nat),
            base64_digit(((b[0] % 4) * 16 + b[1] / 16) as nat),
            base64_digit(((b[1] % 16) * 4 + b[2] / 64) as nat),
            base64_digit((b[2] % 64) as nat),
        ] + base64_std(b.skip(3))
    }
}

/// The MD5 digest of `b`.
pub uninterp spec fn md5_of(b: Seq<u8>) -> Seq<u8>;

/// Relies on hex_simd::encode_to_string with `AsciiCase::Lower`: two
/// lowercase digits per byte, in order.
#[verifier::external_body]
pub fn hex(input: &[u8]) -> (r: String)
    ensures
        r@ == hex_lower(input@),
{
    hex_simd::encode_to_string(input, hex_simd::AsciiCase::Lower)
}

/// Relies on base64_simd::STANDARD's encode_to_string: the standard
/// alphabet, padded.
#[verifier::external_body]
pub fn base64(input: &[u8]) -> (r: String)
    ensures
        r@ == base64_std(input@),
{
    base64_simd::STANDARD.encode_to_string(input)
}

/// Relies on md5::Md5::digest (RustCrypto): the 16-byte digest of the input.
#[verifier::external_body]
pub fn md5_digest(input: &[u8]) -> (r: Vec<u8>)
    ensures
        r@ == md5_of(input@),
        r@.len() == 16,
{
    md5::Md5::digest(input).to_vec()
}

/// `count` SQL placeholders separated by commas.
pub open spec fn placeholders(count: nat) -> Seq<char>
    decreases count,
{
    if count <= 1 {
        "?"@
    } else {
        placeholders((count - 1) as nat) + ",?"@
    }
}

/// A comma-separated list of `count` placeholders: `?`, `?,?`, `?,?,?`, ...
pub fn repeat_vars(count: usize) -> (r: String)
    requires
        count != 0,
    ensures
        r@ == placeholders(count as nat),
{
    let mut s = String::from_str("?");
    let mut i: usize = 1;
    while i < count
        invariant
            1 <= i <= count,
            s@ == placeholders(i as nat),
        decreases count - i,
    {
        s.append(",?");
        i = i + 1;
    }
    s
}

} // verus!
