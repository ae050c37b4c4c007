//! Calls into the hashing, MAC and random-number crates, and the
//! hexadecimal rendering of their bytes.

use vstd::prelude::*;
use crate::sessions::{base36_digit, digit_char};
use crate::text::push_char;
use hmac::Mac;
use sha2::Digest;
use rand::RngCore;

verus! {

/// The SHA-256 digest of `data` (computed by the `sha2` crate).
pub uninterp spec fn spec_sha256(data: Seq<u8>) -> Seq<u8>;

/// The HMAC-SHA256 tag of `msg` under `key` (computed by the `hmac` crate).
pub uninterp spec fn spec_hmac_sha256(key: Seq<u8>, msg: Seq<u8>) -> Seq<u8>;

/// Lowercase hexadecimal rendering of bytes, two characters per byte.
pub open spec fn spec_hex_lower(data: Seq<u8>) -> Seq<char>
    decreases data.len(),
{
    if data.len() == 0 {
        Seq::empty()
    } else {
        spec_hex_lower(data.drop_last()) + seq![
            digit_char((data.last() as nat) / 16),
            digit_char((data.last() as nat) % 16),
        ]
    }
}

/// A lowercase hexadecimal digit.
pub open spec fn is_lower_hex(c: char) -> bool {
    ('0' <= c && c <= '9') || ('a' <= c && c <= 'f')
}

/// `sha256:` followed by 64 lowercase hexadecimal digits.
pub open spec fn is_sha256_text(t: Seq<char>) -> bool {
    &&& t.len() == 71
    &&& t.take(7) == seq!['s', 'h', 'a', '2', '5', '6', ':']
    &&& forall|i: int| 7 <= i < 71 ==> is_lower_hex(#[trigger] t[i])
}

/// The hex rendering has two lowercase digits per byte.
pub proof fn lemma_hex_lower_shape(data: Seq<u8>)
    ensures
        spec_hex_lower(data).len() == 2 * data.len(),
        forall|i: int| 0 <= i < spec_hex_lower(data).len() ==> is_lower_hex(#[trigger] spec_hex_lower(data)[i]),
    decreases data.len(),
{
    if data.len() > 0 {
        lemma_hex_lower_shape(data.drop_last());
        let hi = (data.last() as nat) / 16;
        let lo = (data.last() as nat) % 16;
        assert(is_lower_hex(digit_char(hi)));
        assert(is_lower_hex(digit_char(lo)));
        let p = spec_hex_lower(data.drop_last());
        assert forall|i: int| 0 <= i < spec_hex_lower(data).len() implies is_lower_hex(#[trigger] spec_hex_lower(data)[i]) by {
            if i < p.len() {
                assert(spec_hex_lower(data)[i] == p[i]);
            }
        }
    }
}

/// `sha256:` and the hex of a 32-byte digest form a hash text.
pub proof fn lemma_sha256_text(digest: Seq<u8>)
    requires
        digest.len() == 32,
    ensures
        is_sha256_text(seq!['s', 'h', 'a', '2', '5', '6', ':'] + spec_hex_lower(digest)),
{
    lemma_hex_lower_shape(digest);
    let t = seq!['s', 'h', 'a', '2', '5', '6', ':'] + spec_hex_lower(digest);
    assert(t.take(7) =~= seq!['s', 'h', 'a', '2', '5', '6', ':']);
    assert forall|i: int| 7 <= i < 71 implies is_lower_hex(#[trigger] t[i]) by {
        assert(t[i] == spec_hex_lower(digest)[i - 7]);
    }
}

/// `sha2::Sha256::digest`: the 32-byte SHA-256 digest of `data`.
/// Trusted: the result is the named digest of the input, 32 bytes long.
#[verifier::external_body]
pub(crate) fn sha256(data: &[u8]) -> (res: Vec<u8>)
    ensures
        res@ == spec_sha256(data@),
        res@.len() == 32,
{
    sha2::Sha256::digest(data).to_vec()
}

/// Lowercase hexadecimal, two characters per byte.
pub fn hex_encode(data: &[u8]) -> (res: String)
    ensures
        res@ == spec_hex_lower(data@),
{
    let mut out = String::new();
    let mut i: usize = 0;
    while i < data.len()
        invariant
            i <= data@.len(),
            out@ == spec_hex_lower(data@.take(i as int)),
        decreases data@.len() - i,
    {
        let b = data[i];
        push_char(&mut out, base36_digit((b / 16) as u64));
        push_char(&mut out, base36_digit((b % 16) as u64));
        proof {
            let t = data@.take(i as int + 1);
            assert(t.drop_last() =~= data@.take(i as int));
            assert(t.last() == b);
            assert(out@ =~= spec_hex_lower(t));
        }
        i = i + 1;
    }
    proof {
        assert(data@.take(data@.len() as int) =~= data@);
    }
    out
}

/// `Hmac::<Sha256>::new_from_slice` + `update` + `finalize`: the tag of `msg`.
/// Trusted: `new_from_slice` accepts a key of any length (the source shows
/// no failing path for HMAC), and the tag is the named 32-byte HMAC.
#[verifier::external_body]
pub(crate) fn hmac_sha256(key: &[u8], msg: &[u8]) -> (res: Result<Vec<u8>, ()>)
    ensures
        res is Ok,
        res->Ok_0@ == spec_hmac_sha256(key@, msg@),
        res->Ok_0@.len() == 32,
{
    let mut m = match hmac::Hmac::<sha2::Sha256>::new_from_slice(key) {
        Ok(m) => m,
        Err(_) => return Err(()),
    };
    m.update(msg);
    Ok(m.finalize().into_bytes().to_vec())
}

/// `Hmac::<Sha256>::verify_slice` after `update(msg)`: accepts `tag` exactly
/// when it has the MAC's length and equals the computed tag (the source
/// compares `finalize_fixed()` with the tag in constant time).
/// Trusted: `Ok` iff `tag` is the named HMAC of `msg` under `key`.
#[verifier::external_body]
pub(crate) fn hmac_sha256_verify(key: &[u8], msg: &[u8], tag: &[u8]) -> (res: Result<(), ()>)
    ensures
        res is Ok <==> tag@ == spec_hmac_sha256(key@, msg@),
{
    let mut m = match hmac::Hmac::<sha2::Sha256>::new_from_slice(key) {
        Ok(m) => m,
        Err(_) => return Err(()),
    };
    m.update(msg);
    match m.verify_slice(tag) {
        Ok(()) => Ok(()),
        Err(_) => Err(()),
    }
}

/// `rand::thread_rng().fill_bytes`: eight random bytes. Nothing is stated
/// of their values.
#[verifier::external_body]
pub(crate) fn random_bytes8() -> (res: Vec<u8>)
    ensures
        res@.len() == 8,
{
    let mut b = [0u8; 8];
    rand::thread_rng().fill_bytes(&mut b);
    b.to_vec()
}

} // verus!
