//! Object ids: the lowercase hex SHA-1 of an object's framed bytes.
use sha1::Digest;
use vstd::prelude::*;

use crate::object::{frame, object_header, ObjectKind};

verus! {

/// The SHA-1 digest of a byte string.
pub uninterp spec fn sha1_of(data: Seq<u8>) -> Seq<u8>;

/// Relies on sha1::Sha1 (through digest::Digest's new, update, finalize):
/// the 20-byte SHA-1 digest of `head` followed by `body`, fed in two parts
/// so that `body` is not copied.
#[verifier::external_body]
fn sha1_digest(head: &[u8], body: &[u8]) -> (r: Vec<u8>)
    ensures
        r@ == sha1_of(head@ + body@),
        r@.len() == 20,
{
    let mut hasher = sha1::Sha1::new();
    hasher.update(head);
    hasher.update(body);
    hasher.finalize().to_vec()
}

/// The lowercase hex digit of a value below 16.
pub open spec fn hex_char(v: int) -> char {
    seq!['0', '1', '2', '3', '4', '5', '6', '7', '8', '9', 'a', 'b', 'c', 'd', 'e', 'f'][v]
}

/// Two lowercase hex digits per byte, high nibble first.
pub open spec fn hex_lower(b: Seq<u8>) -> Seq<char>
    decreases b.len(),
{
    if b.len() == 0 {
        Seq::empty()
    } else {
        hex_lower(b.drop_last()) + seq![hex_char(b.last() as int / 16), hex_char(b.last() as int % 16)]
    }
}

/// Relies on hex::encode: lowercase hex, two digits per byte, high nibble first.
#[verifier::external_body]
fn hex_encode(b: &[u8]) -> (r: String)
    ensures
        r@ == hex_lower(b@),
{
    hex::encode(b)
}

pub open spec fn is_hex_char(c: char) -> bool {
    ('0' <= c <= '9') || ('a' <= c <= 'f') || ('A' <= c <= 'F')
}

/// A well-formed object id: exactly 40 ASCII hex digits.
pub open spec fn valid_id(s: Seq<char>) -> bool {
    s.len() == 40 && forall|k: int| 0 <= k < s.len() ==> is_hex_char(#[trigger] s[k])
}

proof fn lemma_hex_lower(b: Seq<u8>)
    ensures
        hex_lower(b).len() == 2 * b.len(),
        forall|k: int| 0 <= k < hex_lower(b).len() ==> 'a' <= #[trigger] hex_lower(b)[k] <= 'f'
            || '0' <= hex_lower(b)[k] <= '9',
    decreases b.len(),
{
    if b.len() > 0 {
        lemma_hex_lower(b.drop_last());
        let h = hex_lower(b);
        let p = hex_lower(b.drop_last());
        assert forall|k: int| 0 <= k < h.len() implies 'a' <= #[trigger] h[k] <= 'f' || '0' <= h[k] <= '9' by {
            if k < p.len() {
                assert(h[k] == p[k]);
            }
        }
    }
}

/// The id of an object: hex of the SHA-1 of its framed bytes.
pub open spec fn object_id(kind: ObjectKind, content: Seq<u8>) -> Seq<char> {
    hex_lower(sha1_of(frame(kind, content)))
}

/// Computes the id of an object of the given kind and content.
pub fn compute_id(kind: ObjectKind, content: &[u8]) -> (r: String)
    ensures
        r@ == object_id(kind, content@),
        valid_id(r@),
{
    let h = object_header(kind, content.len());
    let digest = sha1_digest(h.as_slice(), content);
    proof {
        assert(h@ + content@ == frame(kind, content@));
        lemma_hex_lower(digest@);
    }
    hex_encode(digest.as_slice())
}

/// The id in text form of a binary 20-byte id.
pub fn id_to_hex(sha: &[u8]) -> (r: String)
    ensures
        r@ == hex_lower(sha@),
{
    hex_encode(sha)
}

} // verus!
