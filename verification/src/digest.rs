//! SHA-256 digests, and their hexadecimal form.

use vstd::prelude::*;
use vstd::string::*;

verus! {

/// The SHA-256 digest of bytes.
pub uninterp spec fn sha256_of(data: Seq<u8>) -> Seq<u8>;

/// The digest of bytes by `sha2::Sha256::digest`. Claims that it depends on the bytes alone and has
/// thirty-two bytes.
#[verifier::external_body]
pub(crate) fn sha256(data: &[u8]) -> (r: Vec<u8>)
    ensures
        r@ == sha256_of(data@),
        r@.len() == 32,
{
    <sha2::Sha256 as sha2::Digest>::digest(data).to_vec()
}

/// The hexadecimal digit of a number below sixteen.
pub open spec fn hex_digit(n: nat) -> char {
    if n < 10 {
        (('0' as u8) + n) as char
    } else {
        (('a' as u8) + (n - 10)) as char
    }
}

/// Bytes in hexadecimal form: two lower-case digits for each, the higher first.
pub open spec fn hex_of(data: Seq<u8>) -> Seq<char>
    decreases data.len(),
{
    if data.len() == 0 {
        Seq::empty()
    } else {
        hex_of(data.drop_last()).push(hex_digit((data.last() / 16) as nat)).push(
            hex_digit((data.last() % 16) as nat),
        )
    }
}

/// Bytes in hexadecimal form by `hex::encode`. Claims that each byte becomes its two lower-case digits.
#[verifier::external_body]
pub(crate) fn encode_hex(data: &[u8]) -> (r: String)
    ensures
        r@ == hex_of(data@),
{
    hex::encode(data)
}

/// The SHA-256 digest of bytes, in hexadecimal form.
pub fn sha256_hex(data: &[u8]) -> (r: String)
    ensures
        r@ == hex_of(sha256_of(data@)),
        r@.len() == 64,
{
    let digest = sha256(data);
    proof {
        law_hex_doubles(digest@);
    }
    encode_hex(digest.as_slice())
}

/// The hexadecimal form has two characters for each byte.
pub proof fn law_hex_doubles(data: Seq<u8>)
    ensures
        hex_of(data).len() == 2 * data.len(),
    decreases data.len(),
{
    if data.len() > 0 {
        law_hex_doubles(data.drop_last());
    }
}

/// Two lower-case digits stand for each byte, the higher first.
pub proof fn law_digits_stand_for_bytes(data: Seq<u8>, b: u8)
    ensures
        hex_of(data.push(b)) == hex_of(data).push(hex_digit((b / 16) as nat)).push(
            hex_digit((b % 16) as nat),
        ),
        hex_of(Seq::empty()) == Seq::<char>::empty(),
        hex_digit(0) == '0',
        hex_digit(9) == '9',
        hex_digit(10) == 'a',
        hex_digit(15) == 'f',
{
    assert(data.push(b).drop_last() =~= data);
}

} // verus!
