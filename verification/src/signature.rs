//! Signatures of what the forge sends: a keyed SHA-256 digest of the body.

use crate::digest::{encode_hex, hex_digit, hex_of, sha256, sha256_of};
use crate::text::{
    after_prefix, lower, opt_view, str_eq, str_lower, str_strip_prefix, str_trim, trim,
};
use vstd::prelude::*;
use vstd::string::*;

verus! {

/// The secret as one block of the digest: a longer one by its digest, a shorter one with zeros behind.
pub open spec fn block_key(secret: Seq<u8>) -> Seq<u8> {
    let key = if secret.len() > 64 {
        sha256_of(secret)
    } else {
        secret
    };
    Seq::new(
        64,
        |i: int|
            if i < key.len() {
                key[i]
            } else {
                0u8
            },
    )
}

/// A block under a mask.
pub open spec fn masked(block: Seq<u8>, mask: u8) -> Seq<u8> {
    Seq::new(block.len(), |i: int| block[i] ^ mask)
}

/// The keyed digest of a body.
pub open spec fn keyed_digest(secret: Seq<u8>, body: Seq<u8>) -> Seq<u8> {
    let key = block_key(secret);
    sha256_of(masked(key, 0x5c) + sha256_of(masked(key, 0x36) + body))
}

/// The block of a secret under a mask, with bytes behind it.
fn masked_block(secret: &[u8], mask: u8, rest: &[u8]) -> (r: Vec<u8>)
    ensures
        r@ == masked(block_key(secret@), mask) + rest@,
{
    let digest: Vec<u8>;
    let key: &[u8] = if secret.len() > 64 {
        digest = sha256(secret);
        digest.as_slice()
    } else {
        secret
    };
    let mut out: Vec<u8> = Vec::new();
    let mut i: usize = 0;
    while i < 64
        invariant
            i <= 64,
            key@ == (if secret@.len() > 64 {
                sha256_of(secret@)
            } else {
                secret@
            }),
            out@ == masked(block_key(secret@), mask).take(i as int),
        decreases 64 - i,
    {
        let byte: u8 = if i < key.len() {
            key[i]
        } else {
            0
        };
        out.push(byte ^ mask);
        proof {
            let all = masked(block_key(secret@), mask);
            assert(block_key(secret@)[i as int] == byte);
            assert(all.take(i + 1) =~= all.take(i as int).push(all[i as int]));
        }
        i = i + 1;
    }
    let mut j: usize = 0;
    proof {
        let all = masked(block_key(secret@), mask);
        assert(all.take(64) =~= all);
        assert(out@ =~= all + rest@.take(0));
    }
    while j < rest.len()
        invariant
            j <= rest@.len(),
            out@ == masked(block_key(secret@), mask) + rest@.take(j as int),
        decreases rest.len() - j,
    {
        out.push(rest[j]);
        proof {
            assert(rest@.take(j + 1) =~= rest@.take(j as int).push(rest@[j as int]));
        }
        j = j + 1;
    }
    proof {
        assert(rest@.take(rest@.len() as int) =~= rest@);
    }
    out
}

/// The signature of a body under a secret, in hexadecimal form.
pub fn signature_of(secret: &[u8], body: &[u8]) -> (r: String)
    ensures
        r@ == hex_of(keyed_digest(secret@, body@)),
{
    let inner = masked_block(secret, 0x36, body);
    let digest = sha256(inner.as_slice());
    let outer = masked_block(secret, 0x5c, digest.as_slice());
    let signature = sha256(outer.as_slice());
    encode_hex(signature.as_slice())
}

/// The signature that a header holds, which may name its kind.
pub open spec fn given_signature(header: Seq<char>) -> Seq<char> {
    lower(
        match after_prefix(trim(header), "sha256="@) {
            Some(rest) => rest,
            None => trim(header),
        },
    )
}

/// A body is genuine: there is no secret to sign it with, or it is signed with that secret.
pub open spec fn genuine(
    secret: Option<Seq<u8>>,
    header: Option<Seq<char>>,
    body: Seq<u8>,
) -> bool {
    match secret {
        None => true,
        Some(s) => header is Some && given_signature(header->0) == hex_of(keyed_digest(s, body)),
    }
}

/// Holds a body to its signature.
pub fn verify_signature(secret: &Option<Vec<u8>>, header: &Option<String>, body: &[u8]) -> (r:
    Result<(), String>)
    ensures
        ({
            let key = match *secret {
                Some(s) => Some(s@),
                None => None,
            };
            if genuine(key, opt_view(*header), body@) {
                r is Ok
            } else if header is None {
                r matches Err(e) && e@ == "missing webhook signature"@
            } else {
                r matches Err(e) && e@ == "invalid webhook signature"@
            }
        }),
{
    match secret {
        None => Ok(()),
        Some(s) => match header {
            None => Err("missing webhook signature".to_owned()),
            Some(h) => {
                let trimmed = str_trim(h.as_str());
                let hex = match str_strip_prefix(trimmed, "sha256=") {
                    Some(rest) => rest,
                    None => trimmed,
                };
                let given = str_lower(hex);
                let wanted = signature_of(s.as_slice(), body);
                if str_eq(given.as_str(), wanted.as_str()) {
                    Ok(())
                } else {
                    Err("invalid webhook signature".to_owned())
                }
            },
        },
    }
}

/// A character of the hexadecimal form.
spec fn is_hex(c: char) -> bool {
    '0' <= c <= '9' || 'a' <= c <= 'f'
}

proof fn lemma_hex_characters(data: Seq<u8>)
    ensures
        forall|i: int| 0 <= i < hex_of(data).len() ==> is_hex(#[trigger] hex_of(data)[i]),
    decreases data.len(),
{
    if data.len() > 0 {
        lemma_hex_characters(data.drop_last());
        assert(is_hex(hex_digit((data.last() / 16) as nat)));
        assert(is_hex(hex_digit((data.last() % 16) as nat)));
        let front = hex_of(data.drop_last());
        assert forall|i: int| 0 <= i < hex_of(data).len() implies is_hex(#[trigger] hex_of(data)[i]) by {
            if i < front.len() {
                assert(hex_of(data)[i] == front[i]);
            }
        }
    }
}

/// A signed body is accepted: the signature that a sender makes with the secret is the one that a receiver
/// with the same secret asks for.
pub proof fn law_signed_bodies_are_genuine(secret: Seq<u8>, body: Seq<u8>)
    ensures
        genuine(Some(secret), Some(hex_of(keyed_digest(secret, body))), body),
{
    let hex = hex_of(keyed_digest(secret, body));
    lemma_hex_characters(keyed_digest(secret, body));
    assert(trim(hex) == hex);
    assert(!"sha256="@.is_prefix_of(hex)) by {
        reveal_strlit("sha256=");
        if "sha256="@.is_prefix_of(hex) {
            assert(hex[0] == "sha256="@[0]);
            assert(is_hex(hex[0]));
        }
    }
    assert(lower(hex) =~= hex) by {
        assert forall|i: int| 0 <= i < hex.len() implies lower(hex)[i] == hex[i] by {
            assert(is_hex(hex[i]));
        }
    }
}

/// Zeros behind a short secret do not change a signature.
pub proof fn law_short_secrets_are_filled_with_zeros(secret: Seq<u8>, body: Seq<u8>)
    requires
        secret.len() < 64,
    ensures
        keyed_digest(secret.push(0), body) == keyed_digest(secret, body),
        block_key(secret).len() == 64,
        block_key(secret).take(secret.len() as int) == secret,
        forall|i: int| secret.len() <= i < 64 ==> #[trigger] block_key(secret)[i] == 0,
{
    assert(block_key(secret.push(0)) =~= block_key(secret));
    assert(block_key(secret).take(secret.len() as int) =~= secret);
}

/// A long secret signs as its digest does, and the digest is of the masked secret and the digest of the
/// body behind the secret under the other mask.
pub proof fn law_signatures_are_nested_digests(secret: Seq<u8>, body: Seq<u8>, i: int)
    requires
        0 <= i < 64,
    ensures
        secret.len() > 64 && sha256_of(secret).len() == 32 ==> keyed_digest(secret, body)
            == keyed_digest(sha256_of(secret), body),
        keyed_digest(secret, body) == sha256_of(
            masked(block_key(secret), 0x5c) + sha256_of(masked(block_key(secret), 0x36) + body),
        ),
        masked(block_key(secret), 0x5c)[i] == block_key(secret)[i] ^ 0x5c,
        masked(block_key(secret), 0x36)[i] == block_key(secret)[i] ^ 0x36,
{
    if secret.len() > 64 && sha256_of(secret).len() == 32 {
        assert(block_key(sha256_of(secret)) =~= block_key(secret));
    }
}

/// A header may name the kind of its signature; case and blanks around it do not matter.
pub proof fn law_headers_may_name_their_kind(header: Seq<char>, sig: Seq<char>)
    ensures
        trim(header) == "sha256="@ + sig ==> given_signature(header) == lower(sig),
        !"sha256="@.is_prefix_of(trim(header)) ==> given_signature(header) == lower(trim(header)),
{
    crate::text::law_prefixes_come_off("sha256="@, sig);
}

/// A body is held to its signature wherever there is a secret.
pub proof fn law_unsigned_bodies_are_refused(secret: Seq<u8>, header: Seq<char>, body: Seq<u8>)
    ensures
        !genuine(Some(secret), None, body),
        genuine(None, None, body),
        genuine(None, Some(header), body),
        genuine(Some(secret), Some(header), body) <==> given_signature(header) == hex_of(
            keyed_digest(secret, body),
        ),
{
}

} // verus!
