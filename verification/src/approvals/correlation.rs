//! Idempotence key for `approval_request`: the same `(session, action, args)`
//! gives the same key. The canonical args hash feeds a second SHA-256 with
//! NUL-separated components so that distinct `(session, action)` pairs
//! cannot run together.

use vstd::prelude::*;
use vstd::utf8::encode_utf8;
use crate::approvals::canonical::{CanonicalError, canonical_hash, canonical_hash_spec, float_path};
use crate::digest::{sha256, hex_encode, spec_sha256, spec_hex_lower, is_sha256_text, lemma_sha256_text};
use crate::json::{JsonValue, JsonView};
use crate::sessions::SessionId;
use crate::text::{push_char, StrSliceExecFns};

verus! {

/// The hashed message: session id, NUL, action kind, NUL, args hash.
pub open spec fn correlation_input(session: Seq<char>, action_kind: Seq<char>, args_hash: Seq<char>) -> Seq<u8> {
    encode_utf8(session) + seq![0u8] + encode_utf8(action_kind) + seq![0u8] + encode_utf8(args_hash)
}

/// The correlation key, `None` when the arguments hold a number with a
/// fraction or exponent.
pub open spec fn correlation_key_spec(session: Seq<char>, action_kind: Seq<char>, args: JsonView) -> Option<Seq<char>> {
    match canonical_hash_spec(args) {
        Some(h) => Some(
            seq!['s', 'h', 'a', '2', '5', '6', ':'] + spec_hex_lower(spec_sha256(correlation_input(session, action_kind, h))),
        ),
        None => None,
    }
}

pub fn correlation_key(session: &SessionId, action_kind: &str, args: &JsonValue) -> (res: Result<String, CanonicalError>)
    ensures
        match res {
            Ok(k) => correlation_key_spec(session@, action_kind@, args@) == Some(k@) && is_sha256_text(k@),
            Err(CanonicalError::FloatNotAllowed { path }) => float_path(args@, Seq::empty()) == Some(path@),
            Err(CanonicalError::Jcs(_)) => false,
        },
{
    let args_h = match canonical_hash(args) {
        Ok(h) => h,
        Err(e) => {
            return Err(e);
        },
    };
    let mut msg = session.as_str().as_bytes_vec();
    msg.push(0u8);
    let mut a = action_kind.as_bytes_vec();
    msg.append(&mut a);
    msg.push(0u8);
    let mut h = args_h.as_str().as_bytes_vec();
    msg.append(&mut h);
    proof {
        assert(msg@ =~= correlation_input(session@, action_kind@, args_h@));
    }
    let digest = sha256(msg.as_slice());
    let hex = hex_encode(digest.as_slice());
    let mut out = String::new();
    push_char(&mut out, 's');
    push_char(&mut out, 'h');
    push_char(&mut out, 'a');
    push_char(&mut out, '2');
    push_char(&mut out, '5');
    push_char(&mut out, '6');
    push_char(&mut out, ':');
    out.append(hex.as_str());
    proof {
        assert(out@ =~= correlation_key_spec(session@, action_kind@, args@)->Some_0);
        lemma_sha256_text(digest@);
        assert(out@ =~= seq!['s', 'h', 'a', '2', '5', '6', ':'] + spec_hex_lower(digest@));
    }
    Ok(out)
}

} // verus!
