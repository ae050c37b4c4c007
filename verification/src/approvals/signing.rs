//! HMAC-SHA256 binding of `(ticket_id, args_hash, decision)`. The local
//! approver path signs with the runtime's key; a remote approver supplies a
//! pre-signed value.

use vstd::prelude::*;
use vstd::utf8::encode_utf8;
use crate::approvals::outcome::ApprovalOutcome;
use crate::approvals::types::TicketId;
use crate::digest::{hmac_sha256, hmac_sha256_verify, spec_hmac_sha256};
use crate::text::StrSliceExecFns;

verus! {

/// Why signing or verification failed.
#[derive(Debug)]
pub enum SignError {
    KeyLen,
    VerifyFailed,
}

/// One byte per decision kind.
pub open spec fn decision_byte_spec(o: ApprovalOutcome) -> u8 {
    match o {
        ApprovalOutcome::Approved => 1,
        ApprovalOutcome::Denied { .. } => 2,
        ApprovalOutcome::Expired => 3,
    }
}

/// The signed message: ticket id bytes, a NUL, the args hash bytes, then the
/// decision byte.
pub open spec fn mac_input_spec(id: Seq<char>, args_hash: Seq<char>, o: ApprovalOutcome) -> Seq<u8> {
    encode_utf8(id) + seq![0u8] + encode_utf8(args_hash) + seq![decision_byte_spec(o)]
}

/// The signature over a decision.
pub open spec fn signature_spec(key: Seq<u8>, id: Seq<char>, args_hash: Seq<char>, o: ApprovalOutcome) -> Seq<u8> {
    spec_hmac_sha256(key, mac_input_spec(id, args_hash, o))
}

/// `verify` accepts `sig` for this key, ticket, hash and decision.
pub open spec fn verify_accepts(key: Seq<u8>, id: Seq<char>, args_hash: Seq<char>, o: ApprovalOutcome, sig: Seq<u8>) -> bool {
    sig == signature_spec(key, id, args_hash, o)
}

pub fn decision_byte(o: &ApprovalOutcome) -> (b: u8)
    ensures
        b == decision_byte_spec(*o),
{
    match o {
        ApprovalOutcome::Approved => 1,
        ApprovalOutcome::Denied { .. } => 2,
        ApprovalOutcome::Expired => 3,
    }
}

pub fn mac_input(id: &TicketId, args_hash: &str, outcome: &ApprovalOutcome) -> (v: Vec<u8>)
    ensures
        v@ == mac_input_spec(id@, args_hash@, *outcome),
{
    let mut v = id.0.as_str().as_bytes_vec();
    v.push(0u8);
    let mut h = args_hash.as_bytes_vec();
    v.append(&mut h);
    v.push(decision_byte(outcome));
    proof {
        assert(v@ =~= mac_input_spec(id@, args_hash@, *outcome));
    }
    v
}

/// Signs a decision on a ticket. Always succeeds: HMAC accepts keys of
/// any length.
pub fn sign(key: &[u8], id: &TicketId, args_hash: &str, outcome: &ApprovalOutcome) -> (res: Result<Vec<u8>, SignError>)
    ensures
        res is Ok,
        res->Ok_0@ == signature_spec(key@, id@, args_hash@, *outcome),
        res->Ok_0@.len() == 32,
{
    let msg = mac_input(id, args_hash, outcome);
    match hmac_sha256(key, msg.as_slice()) {
        Ok(tag) => Ok(tag),
        Err(()) => Err(SignError::KeyLen),
    }
}

/// Verifies a signature over a decision on a ticket.
pub fn verify(key: &[u8], id: &TicketId, args_hash: &str, outcome: &ApprovalOutcome, sig: &[u8]) -> (res: Result<(), SignError>)
    ensures
        res is Ok <==> verify_accepts(key@, id@, args_hash@, *outcome, sig@),
        res matches Err(e) ==> e is VerifyFailed,
{
    let msg = mac_input(id, args_hash, outcome);
    match hmac_sha256_verify(key, msg.as_slice(), sig) {
        Ok(()) => Ok(()),
        Err(()) => Err(SignError::VerifyFailed),
    }
}

/// A signature produced by `sign` is accepted by `verify` for the same key,
/// ticket, hash and decision.
pub proof fn lemma_sign_then_verify(key: Seq<u8>, id: Seq<char>, args_hash: Seq<char>, o: ApprovalOutcome)
    ensures
        verify_accepts(key, id, args_hash, o, signature_spec(key, id, args_hash, o)),
{
}

/// The signed message determines the decision kind: messages for different
/// decision kinds differ (in their last byte).
pub proof fn lemma_decision_kind_bound(id: Seq<char>, args_hash: Seq<char>, a: ApprovalOutcome, b: ApprovalOutcome)
    requires
        decision_byte_spec(a) != decision_byte_spec(b),
    ensures
        mac_input_spec(id, args_hash, a) != mac_input_spec(id, args_hash, b),
{
    let ma = mac_input_spec(id, args_hash, a);
    let mb = mac_input_spec(id, args_hash, b);
    assert(ma.last() == decision_byte_spec(a));
    assert(mb.last() == decision_byte_spec(b));
}

} // verus!
