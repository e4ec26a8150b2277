//! Short content hashes: the first four bytes of a SHA-1 digest in lowercase hex.
use sha1::Digest;
use sha1::Sha1;
use vstd::prelude::*;
use vstd::string::StringSliceAdditionalSpecFns;
use vstd::utf8::encode_utf8;

use crate::text::push_char;

verus! {

/// The SHA-1 digest of a byte sequence.
pub uninterp spec fn sha1_digest_of(data: Seq<u8>) -> Seq<u8>;

/// `sha1::Sha1::digest`: the SHA-1 digest of `data`, which is 20 bytes long
/// (160 bits), and a function of `data` alone.
#[verifier::external_body]
fn sha1_digest(data: &[u8]) -> (digest: Vec<u8>)
    ensures
        digest@ == sha1_digest_of(data@),
        digest@.len() == 20,
{
    Sha1::digest(data).to_vec()
}

/// The lowercase hexadecimal digit for `d < 16`.
pub open spec fn hex_digit(d: nat) -> char {
    if d < 10 {
        ((48 + d) as u8) as char
    } else {
        ((87 + d) as u8) as char
    }
}

/// A byte as two lowercase hexadecimal digits (`format!("{:02x}")`).
pub open spec fn hex_byte(b: u8) -> Seq<char> {
    seq![hex_digit((b / 16) as nat), hex_digit((b % 16) as nat)]
}

/// Bytes as lowercase hexadecimal, two digits per byte.
pub open spec fn hex_lower(bytes: Seq<u8>) -> Seq<char>
    decreases bytes.len(),
{
    if bytes.len() == 0 {
        Seq::empty()
    } else {
        hex_lower(bytes.drop_last()) + hex_byte(bytes.last())
    }
}

/// The short hash of a text: the first four bytes of the SHA-1 digest of its
/// UTF-8 encoding, in lowercase hexadecimal.
pub open spec fn stable_hash_of(text: Seq<char>) -> Seq<char> {
    hex_lower(sha1_digest_of(encode_utf8(text)).take(4))
}

fn hex_digit_char(d: u8) -> (c: char)
    requires
        d < 16,
    ensures
        c == hex_digit(d as nat),
{
    if d < 10 {
        ((48 + d) as u8) as char
    } else {
        ((87 + d) as u8) as char
    }
}

proof fn lemma_hex_lower_len(bytes: Seq<u8>)
    ensures
        hex_lower(bytes).len() == 2 * bytes.len(),
    decreases bytes.len(),
{
    if bytes.len() > 0 {
        lemma_hex_lower_len(bytes.drop_last());
    }
}

/// A short, stable identifier of a text's content.
pub fn stable_hash(value: &str) -> (hash: String)
    ensures
        hash@ == stable_hash_of(value@),
        hash@.len() == 8,
        forall|i: int| 0 <= i < 8 ==> is_hex_digit(#[trigger] hash@[i]),
{
    let digest = sha1_digest(value.as_bytes());
    let ghost prefix = digest@.take(4);
    let mut hash = String::new();
    let mut i: usize = 0;
    while i < 4
        invariant
            i <= 4,
            digest@.len() == 20,
            prefix == digest@.take(4),
            hash@ == hex_lower(prefix.take(i as int)),
        decreases 4 - i,
    {
        let b = digest[i];
        push_char(&mut hash, hex_digit_char(b / 16));
        push_char(&mut hash, hex_digit_char(b % 16));
        assert(prefix.take(i + 1).drop_last() == prefix.take(i as int));
        assert(hash@ =~= hex_lower(prefix.take(i + 1)));
        i += 1;
    }
    assert(prefix.take(4) == prefix);
    proof {
        lemma_hex_lower_len(prefix);
        lemma_hex_lower_digits(prefix);
    }
    hash
}

/// A lowercase hexadecimal digit.
pub open spec fn is_hex_digit(c: char) -> bool {
    ('0' <= c && c <= '9') || ('a' <= c && c <= 'f')
}

proof fn lemma_hex_lower_digits(bytes: Seq<u8>)
    ensures
        forall|i: int| 0 <= i < hex_lower(bytes).len() ==> is_hex_digit(#[trigger] hex_lower(bytes)[i]),
    decreases bytes.len(),
{
    if bytes.len() > 0 {
        let rest = bytes.drop_last();
        lemma_hex_lower_digits(rest);
        let b = bytes.last();
        let pair = hex_byte(b);
        assert(is_hex_digit(pair[0]));
        assert(is_hex_digit(pair[1]));
        let all = hex_lower(bytes);
        assert(all == hex_lower(rest) + pair);
        assert forall|i: int| 0 <= i < all.len() implies is_hex_digit(#[trigger] all[i]) by {
            if i < hex_lower(rest).len() {
                assert(all[i] == hex_lower(rest)[i]);
            } else {
                assert(all[i] == pair[i - hex_lower(rest).len()]);
            }
        }
    }
}

} // verus!
