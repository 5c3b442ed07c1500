//! Message digests: MD5 from the `crypto` crate, written out in lower-case
//! hexadecimal by the `rustc_hex` crate.
use vstd::prelude::*;
use crypto::digest::Digest;
use rustc_hex::ToHex;

verus! {

/// The MD5 digest of a byte sequence (sixteen bytes).
pub uninterp spec fn spec_md5(data: Seq<u8>) -> Seq<u8>;

/// The lower-case hexadecimal character of a value below sixteen.
pub open spec fn spec_hex_char(d: int) -> char {
    if d < 10 {
        crate::text::spec_digit_char(d)
    } else if d == 10 { 'a' }
    else if d == 11 { 'b' }
    else if d == 12 { 'c' }
    else if d == 13 { 'd' }
    else if d == 14 { 'e' }
    else { 'f' }
}

/// Lower-case hexadecimal text of a byte sequence, two characters per byte,
/// the high half of each byte first.
pub open spec fn spec_hex(data: Seq<u8>) -> Seq<char>
    decreases data.len(),
{
    if data.len() == 0 {
        seq![]
    } else {
        spec_hex(data.drop_last()) + seq![
            spec_hex_char(data.last() as int / 16),
            spec_hex_char(data.last() as int % 16),
        ]
    }
}

/// Runs `crypto::md5::Md5` over `data` (`Md5::new`, `Digest::input`,
/// `Digest::result` into a sixteen byte buffer). The contract names the
/// digest `spec_md5` of the input bytes and states its length, sixteen bytes,
/// which `output_bits` (128) documents; the MD5 algorithm itself is not stated.
#[verifier::external_body]
fn md5_digest(data: &[u8]) -> (digest: Vec<u8>)
    ensures
        digest@ == spec_md5(data@),
        digest@.len() == 16,
{
    let mut hasher = crypto::md5::Md5::new();
    hasher.input(data);
    let mut out = [0u8; 16];
    hasher.result(&mut out);
    out.to_vec()
}

/// Calls `rustc_hex::ToHex::to_hex` on a byte slice, collected into a
/// `String`. Its source maps each byte to two characters of
/// "0123456789abcdef", the high four bits first, which `spec_hex` states.
#[verifier::external_body]
fn hex_string(data: &[u8]) -> (text: String)
    ensures
        text@ == spec_hex(data@),
{
    data.to_hex()
}

/// The MD5 digest of `data`, in lower-case hexadecimal.
pub fn md5_hex(data: &[u8]) -> (text: String)
    ensures
        text@ == spec_hex(spec_md5(data@)),
        text@.len() == 32,
{
    let digest = md5_digest(data);
    proof { lemma_hex_len(digest@); }
    hex_string(digest.as_slice())
}

/// Hexadecimal text has two characters per byte.
pub proof fn lemma_hex_len(data: Seq<u8>)
    ensures
        spec_hex(data).len() == 2 * data.len(),
    decreases data.len(),
{
    if data.len() > 0 {
        lemma_hex_len(data.drop_last());
    }
}

} // verus!
