//! Byte codecs for the wire messages themselves: votes, proposals and
//! the tagged message sum, built on the field codecs.  Decoding an
//! encoded message returns the message unchanged: the wire format
//! round-trips.

use vstd::prelude::*;

use crate::certificate::{
    spec_assembled_pairs, spec_serialize_signature, spec_view_sync_cert_bytes, serialize_signature,
};
use crate::codec::{
    dec_lp_bytes, dec_u64, decode_payload_list, decode_quorum_certificate, decode_view_sync_certificate,
    decode_vote_data, lemma_dec_lp_bytes, lemma_dec_payload_list, lemma_dec_qc, lemma_dec_u64,
    lemma_dec_view_sync_cert, lemma_dec_vote_data, lemma_subrange_split, push_payload_list,
    spec_dec_lp_bytes, spec_dec_payload_list, spec_dec_qc, spec_dec_u64, spec_dec_view_sync_cert,
    spec_dec_vote_data, spec_lp_bytes, spec_pairs_lens_ok, spec_payload_lens_ok,
    spec_payload_list_bytes, spec_qc_bytes, spec_dec_assembled, lemma_dec_assembled, dec_assembled, encode_quorum_certificate,
};
use crate::commitment::Commitment;
use crate::election::{
    spec_vote_data_bytes, spec_vote_data_commit, spec_vote_data_inner, spec_vote_data_phase_byte,
    VoteData,
};
use crate::signature::{EncodedPublicKey, EncodedSignature};
use crate::wire::{push_bytes, push_u64_be, spec_u64_to_be_bytes};

verus! {

/// The canonical bytes of a vote token: signer, view, weight.
pub open spec fn spec_token_bytes(t: crate::election::StaticVoteToken) -> Seq<u8> {
    spec_u64_to_be_bytes(t.key_id) + spec_u64_to_be_bytes(t.view_number) + spec_u64_to_be_bytes(
        t.count,
    )
}

/// Read a vote token at `pos`.
pub open spec fn spec_dec_token(s: Seq<u8>, pos: int) -> Option<
    (crate::election::StaticVoteToken, int),
> {
    match spec_dec_u64(s, pos) {
        None => None,
        Some((key_id, p1)) => match spec_dec_u64(s, p1) {
            None => None,
            Some((view_number, p2)) => match spec_dec_u64(s, p2) {
                None => None,
                Some((count, p3)) => Some(
                    (crate::election::StaticVoteToken { key_id, view_number, count }, p3),
                ),
            },
        },
    }
}

/// A vote token encoded into a larger buffer reads back unchanged.
pub proof fn lemma_dec_token(s: Seq<u8>, pos: int, t: crate::election::StaticVoteToken)
    requires
        0 <= pos,
        pos + spec_token_bytes(t).len() <= s.len(),
        s.subrange(pos, pos + spec_token_bytes(t).len()) == spec_token_bytes(t),
    ensures
        spec_dec_token(s, pos) == Some((t, pos + spec_token_bytes(t).len())),
{
    let e1 = spec_u64_to_be_bytes(t.key_id);
    let e2 = spec_u64_to_be_bytes(t.view_number);
    let e3 = spec_u64_to_be_bytes(t.count);
    assert(spec_token_bytes(t) =~= e1 + (e2 + e3));
    lemma_subrange_split(s, pos, e1, e2 + e3);
    lemma_dec_u64(s, pos, t.key_id);
    lemma_subrange_split(s, pos + 8, e2, e3);
    lemma_dec_u64(s, pos + 8, t.view_number);
    lemma_dec_u64(s, pos + 16, t.count);
}

/// Append a vote token to `out`.
pub fn push_token(out: &mut Vec<u8>, t: &crate::election::StaticVoteToken)
    ensures
        final(out)@ == old(out)@ + spec_token_bytes(*t),
{
    push_u64_be(out, t.key_id);
    push_u64_be(out, t.view_number);
    push_u64_be(out, t.count);
    assert(out@ =~= old(out)@ + spec_token_bytes(*t));
}

/// Read a vote token at `pos` from the buffer.
pub fn decode_token(bytes: &Vec<u8>, pos: usize) -> (r: Option<
    (crate::election::StaticVoteToken, usize),
>)
    ensures
        match r {
            Some((t, p)) => spec_dec_token(bytes@, pos as int) == Some((t, p as int)),
            None => spec_dec_token(bytes@, pos as int) is None,
        },
{
    let (key_id, p1) = match dec_u64(bytes, pos) {
        Some(x) => x,
        None => {
            return None;
        },
    };
    let (view_number, p2) = match dec_u64(bytes, p1) {
        Some(x) => x,
        None => {
            return None;
        },
    };
    let (count, p3) = match dec_u64(bytes, p2) {
        Some(x) => x,
        None => {
            return None;
        },
    };
    Some((crate::election::StaticVoteToken { key_id, view_number, count }, p3))
}

/// The canonical bytes of a DA vote: key, signature, block commitment,
/// view, token, vote data.
pub open spec fn spec_da_vote_bytes(v: crate::message::DAVoteView, data: VoteData) -> Seq<u8> {
    spec_lp_bytes(v.key) + spec_lp_bytes(v.signature) + spec_lp_bytes(v.block_commitment)
        + spec_u64_to_be_bytes(v.current_view) + spec_token_bytes(v.vote_token)
        + spec_vote_data_bytes(data)
}

/// Serialize a DA vote into its canonical bytes.
pub fn encode_da_vote(v: &crate::message::DAVote) -> (r: Vec<u8>)
    ensures
        r@ == spec_da_vote_bytes(v@, v.vote_data),
{
    let mut out: Vec<u8> = Vec::new();
    push_u64_be(&mut out, v.signature.0.bytes.len() as u64);
    push_bytes(&mut out, &v.signature.0.bytes);
    push_u64_be(&mut out, v.signature.1.bytes.len() as u64);
    push_bytes(&mut out, &v.signature.1.bytes);
    push_u64_be(&mut out, v.block_commitment.bytes.len() as u64);
    push_bytes(&mut out, &v.block_commitment.bytes);
    push_u64_be(&mut out, v.current_view);
    push_token(&mut out, &v.vote_token);
    let data_bytes = v.vote_data.as_bytes();
    push_bytes(&mut out, &data_bytes);
    assert(out@ =~= spec_da_vote_bytes(v@, v.vote_data));
    out
}

/// Read a DA vote at `pos`; the result names the vote's view-level
/// fields and the phase of its vote data.
pub open spec fn spec_dec_da_vote(s: Seq<u8>, pos: int) -> Option<
    (crate::message::DAVoteView, u8, int),
> {
    match spec_dec_lp_bytes(s, pos) {
        None => None,
        Some((key, p1)) => match spec_dec_lp_bytes(s, p1) {
            None => None,
            Some((signature, p2)) => match spec_dec_lp_bytes(s, p2) {
                None => None,
                Some((block_commitment, p3)) => match spec_dec_u64(s, p3) {
                    None => None,
                    Some((current_view, p4)) => match spec_dec_token(s, p4) {
                        None => None,
                        Some((vote_token, p5)) => match spec_dec_vote_data(s, p5) {
                            None => None,
                            Some(((phase, inner), p6)) => Some(
                                (
                                    crate::message::DAVoteView {
                                        key,
                                        signature,
                                        block_commitment,
                                        current_view,
                                        vote_token,
                                        vote_commit: crate::accumulator::spec_phase_commit(
                                            phase,
                                            inner,
                                        ),
                                        vote_inner: inner,
                                    },
                                    phase,
                                    p6,
                                ),
                            ),
                        },
                    },
                },
            },
        },
    }
}

/// A DA vote encoded into a larger buffer reads back unchanged.
#[verifier::rlimit(60)]
#[verifier::spinoff_prover]
pub proof fn lemma_dec_da_vote(s: Seq<u8>, pos: int, v: crate::message::DAVoteView, data: VoteData)
    requires
        0 <= pos,
        v.key.len() <= u64::MAX,
        v.signature.len() <= u64::MAX,
        v.block_commitment.len() <= u64::MAX,
        spec_vote_data_inner(data).len() <= u64::MAX,
        v.vote_commit == spec_vote_data_commit(data),
        v.vote_inner == spec_vote_data_inner(data),
        pos + spec_da_vote_bytes(v, data).len() <= s.len(),
        s.subrange(pos, pos + spec_da_vote_bytes(v, data).len()) == spec_da_vote_bytes(v, data),
    ensures
        spec_dec_da_vote(s, pos) == Some(
            (v, spec_vote_data_phase_byte(data), pos + spec_da_vote_bytes(v, data).len()),
        ),
{
    let e1 = spec_lp_bytes(v.key);
    let e2 = spec_lp_bytes(v.signature);
    let e3 = spec_lp_bytes(v.block_commitment);
    let e4 = spec_u64_to_be_bytes(v.current_view);
    let e5 = spec_token_bytes(v.vote_token);
    let e6 = spec_vote_data_bytes(data);
    let r2 = e2 + e3 + e4 + e5 + e6;
    let r3 = e3 + e4 + e5 + e6;
    let r4 = e4 + e5 + e6;
    let r5 = e5 + e6;
    assert(spec_da_vote_bytes(v, data) =~= e1 + r2);
    lemma_subrange_split(s, pos, e1, r2);
    lemma_dec_lp_bytes(s, pos, v.key);
    let p1 = pos + e1.len();
    assert(r2 =~= e2 + r3);
    lemma_subrange_split(s, p1, e2, r3);
    lemma_dec_lp_bytes(s, p1, v.signature);
    let p2 = p1 + e2.len();
    assert(r3 =~= e3 + r4);
    lemma_subrange_split(s, p2, e3, r4);
    lemma_dec_lp_bytes(s, p2, v.block_commitment);
    let p3 = p2 + e3.len();
    assert(r4 =~= e4 + r5);
    lemma_subrange_split(s, p3, e4, r5);
    lemma_dec_u64(s, p3, v.current_view);
    let p4 = p3 + 8;
    assert(r5 =~= e5 + e6);
    lemma_subrange_split(s, p4, e5, e6);
    lemma_dec_token(s, p4, v.vote_token);
    let p5 = p4 + e5.len();
    lemma_dec_vote_data(s, p5, data);
}

/// Read a DA vote at `pos` from the buffer.
pub fn decode_da_vote(bytes: &Vec<u8>, pos: usize) -> (r: Option<(crate::message::DAVote, usize)>)
    ensures
        match r {
            Some((v, p)) => spec_dec_da_vote(bytes@, pos as int) == Some(
                (v@, spec_vote_data_phase_byte(v.vote_data), p as int),
            ),
            None => spec_dec_da_vote(bytes@, pos as int) is None,
        },
{
    let (key, p1) = match dec_lp_bytes(bytes, pos) {
        Some(x) => x,
        None => {
            return None;
        },
    };
    let (signature, p2) = match dec_lp_bytes(bytes, p1) {
        Some(x) => x,
        None => {
            return None;
        },
    };
    let (block_commitment, p3) = match dec_lp_bytes(bytes, p2) {
        Some(x) => x,
        None => {
            return None;
        },
    };
    let (current_view, p4) = match dec_u64(bytes, p3) {
        Some(x) => x,
        None => {
            return None;
        },
    };
    let (vote_token, p5) = match decode_token(bytes, p4) {
        Some(x) => x,
        None => {
            return None;
        },
    };
    let (vote_data, p6) = match decode_vote_data(bytes, p5) {
        Some(x) => x,
        None => {
            return None;
        },
    };
    Some(
        (
            crate::message::DAVote {
                signature: (
                    EncodedPublicKey { bytes: key },
                    EncodedSignature { bytes: signature },
                ),
                block_commitment: Commitment { bytes: block_commitment },
                current_view,
                vote_token,
                vote_data,
            },
            p6,
        ),
    )
}

/// The canonical bytes of a quorum Yes/No vote.
pub open spec fn spec_yes_no_vote_bytes(v: crate::message::YesOrNoVoteView, data: VoteData) -> Seq<
    u8,
> {
    spec_lp_bytes(v.justify_qc_commitment) + spec_lp_bytes(v.key) + spec_lp_bytes(v.signature)
        + spec_lp_bytes(v.leaf_commitment) + spec_u64_to_be_bytes(v.current_view)
        + spec_token_bytes(v.vote_token) + spec_vote_data_bytes(data)
}

/// Serialize a quorum Yes/No vote into its canonical bytes.
pub fn encode_yes_no_vote(v: &crate::message::YesOrNoVote) -> (r: Vec<u8>)
    ensures
        r@ == spec_yes_no_vote_bytes(v@, v.vote_data),
{
    let mut out: Vec<u8> = Vec::new();
    push_u64_be(&mut out, v.justify_qc_commitment.bytes.len() as u64);
    push_bytes(&mut out, &v.justify_qc_commitment.bytes);
    push_u64_be(&mut out, v.signature.0.bytes.len() as u64);
    push_bytes(&mut out, &v.signature.0.bytes);
    push_u64_be(&mut out, v.signature.1.bytes.len() as u64);
    push_bytes(&mut out, &v.signature.1.bytes);
    push_u64_be(&mut out, v.leaf_commitment.bytes.len() as u64);
    push_bytes(&mut out, &v.leaf_commitment.bytes);
    push_u64_be(&mut out, v.current_view);
    push_token(&mut out, &v.vote_token);
    let data_bytes = v.vote_data.as_bytes();
    push_bytes(&mut out, &data_bytes);
    assert(out@ =~= spec_yes_no_vote_bytes(v@, v.vote_data));
    out
}

/// Read a quorum Yes/No vote at `pos`.
pub open spec fn spec_dec_yes_no_vote(s: Seq<u8>, pos: int) -> Option<
    (crate::message::YesOrNoVoteView, u8, int),
> {
    match spec_dec_lp_bytes(s, pos) {
        None => None,
        Some((justify_qc_commitment, p0)) => match spec_dec_lp_bytes(s, p0) {
            None => None,
            Some((key, p1)) => match spec_dec_lp_bytes(s, p1) {
                None => None,
                Some((signature, p2)) => match spec_dec_lp_bytes(s, p2) {
                    None => None,
                    Some((leaf_commitment, p3)) => match spec_dec_u64(s, p3) {
                        None => None,
                        Some((current_view, p4)) => match spec_dec_token(s, p4) {
                            None => None,
                            Some((vote_token, p5)) => match spec_dec_vote_data(s, p5) {
                                None => None,
                                Some(((phase, inner), p6)) => Some(
                                    (
                                        crate::message::YesOrNoVoteView {
                                            justify_qc_commitment,
                                            key,
                                            signature,
                                            leaf_commitment,
                                            current_view,
                                            vote_token,
                                            vote_commit: crate::accumulator::spec_phase_commit(
                                                phase,
                                                inner,
                                            ),
                                        },
                                        phase,
                                        p6,
                                    ),
                                ),
                            },
                        },
                    },
                },
            },
        },
    }
}

/// A quorum Yes/No vote encoded into a larger buffer reads back
/// unchanged.
#[verifier::rlimit(60)]
#[verifier::spinoff_prover]
pub proof fn lemma_dec_yes_no_vote(
    s: Seq<u8>,
    pos: int,
    v: crate::message::YesOrNoVoteView,
    data: VoteData,
)
    requires
        0 <= pos,
        v.justify_qc_commitment.len() <= u64::MAX,
        v.key.len() <= u64::MAX,
        v.signature.len() <= u64::MAX,
        v.leaf_commitment.len() <= u64::MAX,
        spec_vote_data_inner(data).len() <= u64::MAX,
        v.vote_commit == spec_vote_data_commit(data),
        pos + spec_yes_no_vote_bytes(v, data).len() <= s.len(),
        s.subrange(pos, pos + spec_yes_no_vote_bytes(v, data).len()) == spec_yes_no_vote_bytes(
            v,
            data,
        ),
    ensures
        spec_dec_yes_no_vote(s, pos) == Some(
            (v, spec_vote_data_phase_byte(data), pos + spec_yes_no_vote_bytes(v, data).len()),
        ),
{
    let e0 = spec_lp_bytes(v.justify_qc_commitment);
    let e1 = spec_lp_bytes(v.key);
    let e2 = spec_lp_bytes(v.signature);
    let e3 = spec_lp_bytes(v.leaf_commitment);
    let e4 = spec_u64_to_be_bytes(v.current_view);
    let e5 = spec_token_bytes(v.vote_token);
    let e6 = spec_vote_data_bytes(data);
    let r1 = e1 + e2 + e3 + e4 + e5 + e6;
    let r2 = e2 + e3 + e4 + e5 + e6;
    let r3 = e3 + e4 + e5 + e6;
    let r4 = e4 + e5 + e6;
    let r5 = e5 + e6;
    assert(spec_yes_no_vote_bytes(v, data) =~= e0 + r1);
    lemma_subrange_split(s, pos, e0, r1);
    lemma_dec_lp_bytes(s, pos, v.justify_qc_commitment);
    let p0 = pos + e0.len();
    assert(r1 =~= e1 + r2);
    lemma_subrange_split(s, p0, e1, r2);
    lemma_dec_lp_bytes(s, p0, v.key);
    let p1 = p0 + e1.len();
    assert(r2 =~= e2 + r3);
    lemma_subrange_split(s, p1, e2, r3);
    lemma_dec_lp_bytes(s, p1, v.signature);
    let p2 = p1 + e2.len();
    assert(r3 =~= e3 + r4);
    lemma_subrange_split(s, p2, e3, r4);
    lemma_dec_lp_bytes(s, p2, v.leaf_commitment);
    let p3 = p2 + e3.len();
    assert(r4 =~= e4 + r5);
    lemma_subrange_split(s, p3, e4, r5);
    lemma_dec_u64(s, p3, v.current_view);
    let p4 = p3 + 8;
    assert(r5 =~= e5 + e6);
    lemma_subrange_split(s, p4, e5, e6);
    lemma_dec_token(s, p4, v.vote_token);
    let p5 = p4 + e5.len();
    lemma_dec_vote_data(s, p5, data);
}

/// Read a quorum Yes/No vote at `pos` from the buffer.
pub fn decode_yes_no_vote(bytes: &Vec<u8>, pos: usize) -> (r: Option<
    (crate::message::YesOrNoVote, usize),
>)
    ensures
        match r {
            Some((v, p)) => spec_dec_yes_no_vote(bytes@, pos as int) == Some(
                (v@, spec_vote_data_phase_byte(v.vote_data), p as int),
            ),
            None => spec_dec_yes_no_vote(bytes@, pos as int) is None,
        },
{
    let (justify, p0) = match dec_lp_bytes(bytes, pos) {
        Some(x) => x,
        None => {
            return None;
        },
    };
    let (key, p1) = match dec_lp_bytes(bytes, p0) {
        Some(x) => x,
        None => {
            return None;
        },
    };
    let (signature, p2) = match dec_lp_bytes(bytes, p1) {
        Some(x) => x,
        None => {
            return None;
        },
    };
    let (leaf_commitment, p3) = match dec_lp_bytes(bytes, p2) {
        Some(x) => x,
        None => {
            return None;
        },
    };
    let (current_view, p4) = match dec_u64(bytes, p3) {
        Some(x) => x,
        None => {
            return None;
        },
    };
    let (vote_token, p5) = match decode_token(bytes, p4) {
        Some(x) => x,
        None => {
            return None;
        },
    };
    let (vote_data, p6) = match decode_vote_data(bytes, p5) {
        Some(x) => x,
        None => {
            return None;
        },
    };
    Some(
        (
            crate::message::YesOrNoVote {
                justify_qc_commitment: Commitment { bytes: justify },
                signature: (
                    EncodedPublicKey { bytes: key },
                    EncodedSignature { bytes: signature },
                ),
                leaf_commitment: Commitment { bytes: leaf_commitment },
                current_view,
                vote_token,
                vote_data,
            },
            p6,
        ),
    )
}

/// The canonical bytes of a timeout vote.
pub open spec fn spec_timeout_vote_bytes(v: crate::message::TimeoutVoteView, data: VoteData) -> Seq<
    u8,
> {
    spec_qc_bytes(v.justify_qc) + spec_lp_bytes(v.key) + spec_lp_bytes(v.signature)
        + spec_u64_to_be_bytes(v.current_view) + spec_token_bytes(v.vote_token)
        + spec_vote_data_bytes(data)
}

/// Serialize a timeout vote into its canonical bytes.
pub fn encode_timeout_vote(v: &crate::message::TimeoutVote) -> (r: Vec<u8>)
    ensures
        r@ == spec_timeout_vote_bytes(v@, v.vote_data),
{
    let mut out: Vec<u8> = Vec::new();
    let qc_bytes = encode_quorum_certificate(&v.justify_qc);
    push_bytes(&mut out, &qc_bytes);
    push_u64_be(&mut out, v.signature.0.bytes.len() as u64);
    push_bytes(&mut out, &v.signature.0.bytes);
    push_u64_be(&mut out, v.signature.1.bytes.len() as u64);
    push_bytes(&mut out, &v.signature.1.bytes);
    push_u64_be(&mut out, v.current_view);
    push_token(&mut out, &v.vote_token);
    let data_bytes = v.vote_data.as_bytes();
    push_bytes(&mut out, &data_bytes);
    assert(out@ =~= spec_timeout_vote_bytes(v@, v.vote_data));
    out
}

/// Read a timeout vote at `pos`.
pub open spec fn spec_dec_timeout_vote(s: Seq<u8>, pos: int) -> Option<
    (crate::message::TimeoutVoteView, u8, int),
> {
    match spec_dec_qc(s, pos) {
        None => None,
        Some((justify_qc, p0)) => match spec_dec_lp_bytes(s, p0) {
            None => None,
            Some((key, p1)) => match spec_dec_lp_bytes(s, p1) {
                None => None,
                Some((signature, p2)) => match spec_dec_u64(s, p2) {
                    None => None,
                    Some((current_view, p3)) => match spec_dec_token(s, p3) {
                        None => None,
                        Some((vote_token, p4)) => match spec_dec_vote_data(s, p4) {
                            None => None,
                            Some(((phase, inner), p5)) => Some(
                                (
                                    crate::message::TimeoutVoteView {
                                        justify_qc,
                                        key,
                                        signature,
                                        current_view,
                                        vote_token,
                                        vote_commit: crate::accumulator::spec_phase_commit(
                                            phase,
                                            inner,
                                        ),
                                    },
                                    phase,
                                    p5,
                                ),
                            ),
                        },
                    },
                },
            },
        },
    }
}

/// A timeout vote encoded into a larger buffer reads back unchanged.
#[verifier::rlimit(60)]
#[verifier::spinoff_prover]
pub proof fn lemma_dec_timeout_vote(
    s: Seq<u8>,
    pos: int,
    v: crate::message::TimeoutVoteView,
    data: VoteData,
)
    requires
        0 <= pos,
        v.justify_qc.leaf_commitment.len() <= u64::MAX,
        spec_pairs_lens_ok(spec_assembled_pairs(v.justify_qc.signatures)),
        v.key.len() <= u64::MAX,
        v.signature.len() <= u64::MAX,
        spec_vote_data_inner(data).len() <= u64::MAX,
        v.vote_commit == spec_vote_data_commit(data),
        pos + spec_timeout_vote_bytes(v, data).len() <= s.len(),
        s.subrange(pos, pos + spec_timeout_vote_bytes(v, data).len()) == spec_timeout_vote_bytes(
            v,
            data,
        ),
    ensures
        spec_dec_timeout_vote(s, pos) == Some(
            (v, spec_vote_data_phase_byte(data), pos + spec_timeout_vote_bytes(v, data).len()),
        ),
{
    let e0 = spec_qc_bytes(v.justify_qc);
    let e1 = spec_lp_bytes(v.key);
    let e2 = spec_lp_bytes(v.signature);
    let e3 = spec_u64_to_be_bytes(v.current_view);
    let e4 = spec_token_bytes(v.vote_token);
    let e5 = spec_vote_data_bytes(data);
    let r1 = e1 + e2 + e3 + e4 + e5;
    let r2 = e2 + e3 + e4 + e5;
    let r3 = e3 + e4 + e5;
    let r4 = e4 + e5;
    assert(spec_timeout_vote_bytes(v, data) =~= e0 + r1);
    lemma_subrange_split(s, pos, e0, r1);
    lemma_dec_qc(s, pos, v.justify_qc);
    let p0 = pos + e0.len();
    assert(r1 =~= e1 + r2);
    lemma_subrange_split(s, p0, e1, r2);
    lemma_dec_lp_bytes(s, p0, v.key);
    let p1 = p0 + e1.len();
    assert(r2 =~= e2 + r3);
    lemma_subrange_split(s, p1, e2, r3);
    lemma_dec_lp_bytes(s, p1, v.signature);
    let p2 = p1 + e2.len();
    assert(r3 =~= e3 + r4);
    lemma_subrange_split(s, p2, e3, r4);
    lemma_dec_u64(s, p2, v.current_view);
    let p3 = p2 + 8;
    assert(r4 =~= e4 + e5);
    lemma_subrange_split(s, p3, e4, e5);
    lemma_dec_token(s, p3, v.vote_token);
    let p4 = p3 + e4.len();
    lemma_dec_vote_data(s, p4, data);
}

/// Read a timeout vote at `pos` from the buffer.
pub fn decode_timeout_vote(bytes: &Vec<u8>, pos: usize) -> (r: Option<
    (crate::message::TimeoutVote, usize),
>)
    ensures
        match r {
            Some((v, p)) => spec_dec_timeout_vote(bytes@, pos as int) == Some(
                (v@, spec_vote_data_phase_byte(v.vote_data), p as int),
            ),
            None => spec_dec_timeout_vote(bytes@, pos as int) is None,
        },
{
    let (justify_qc, p0) = match decode_quorum_certificate(bytes, pos) {
        Some(x) => x,
        None => {
            return None;
        },
    };
    let (key, p1) = match dec_lp_bytes(bytes, p0) {
        Some(x) => x,
        None => {
            return None;
        },
    };
    let (signature, p2) = match dec_lp_bytes(bytes, p1) {
        Some(x) => x,
        None => {
            return None;
        },
    };
    let (current_view, p3) = match dec_u64(bytes, p2) {
        Some(x) => x,
        None => {
            return None;
        },
    };
    let (vote_token, p4) = match decode_token(bytes, p3) {
        Some(x) => x,
        None => {
            return None;
        },
    };
    let (vote_data, p5) = match decode_vote_data(bytes, p4) {
        Some(x) => x,
        None => {
            return None;
        },
    };
    Some(
        (
            crate::message::TimeoutVote {
                justify_qc,
                signature: (
                    EncodedPublicKey { bytes: key },
                    EncodedSignature { bytes: signature },
                ),
                current_view,
                vote_token,
                vote_data,
            },
            p5,
        ),
    )
}

/// The canonical bytes of a quorum vote: a variant byte, then the vote.
pub open spec fn spec_quorum_vote_bytes(v: crate::message::QuorumVote) -> Seq<u8> {
    match v {
        crate::message::QuorumVote::Yes(inner) => seq![0u8] + spec_yes_no_vote_bytes(
            inner@,
            inner.vote_data,
        ),
        crate::message::QuorumVote::No(inner) => seq![1u8] + spec_yes_no_vote_bytes(
            inner@,
            inner.vote_data,
        ),
        crate::message::QuorumVote::Timeout(inner) => seq![2u8] + spec_timeout_vote_bytes(
            inner@,
            inner.vote_data,
        ),
    }
}

/// Read a quorum vote at `pos`.
pub open spec fn spec_dec_quorum_vote(s: Seq<u8>, pos: int) -> Option<
    (crate::message::QuorumVoteView, int),
> {
    if 0 <= pos < s.len() {
        if s[pos] == 0 {
            match spec_dec_yes_no_vote(s, pos + 1) {
                None => None,
                Some((v, _, p)) => Some((crate::message::QuorumVoteView::Yes(v), p)),
            }
        } else if s[pos] == 1 {
            match spec_dec_yes_no_vote(s, pos + 1) {
                None => None,
                Some((v, _, p)) => Some((crate::message::QuorumVoteView::No(v), p)),
            }
        } else if s[pos] == 2 {
            match spec_dec_timeout_vote(s, pos + 1) {
                None => None,
                Some((v, _, p)) => Some((crate::message::QuorumVoteView::Timeout(v), p)),
            }
        } else {
            None
        }
    } else {
        None
    }
}

/// Decoder-friendly lengths throughout a quorum vote.
pub open spec fn spec_quorum_vote_lens_ok(v: crate::message::QuorumVote) -> bool {
    match v {
        crate::message::QuorumVote::Yes(inner) => {
            &&& inner@.justify_qc_commitment.len() <= u64::MAX
            &&& inner@.key.len() <= u64::MAX
            &&& inner@.signature.len() <= u64::MAX
            &&& inner@.leaf_commitment.len() <= u64::MAX
            &&& spec_vote_data_inner(inner.vote_data).len() <= u64::MAX
        },
        crate::message::QuorumVote::No(inner) => {
            &&& inner@.justify_qc_commitment.len() <= u64::MAX
            &&& inner@.key.len() <= u64::MAX
            &&& inner@.signature.len() <= u64::MAX
            &&& inner@.leaf_commitment.len() <= u64::MAX
            &&& spec_vote_data_inner(inner.vote_data).len() <= u64::MAX
        },
        crate::message::QuorumVote::Timeout(inner) => {
            &&& inner@.justify_qc.leaf_commitment.len() <= u64::MAX
            &&& spec_pairs_lens_ok(spec_assembled_pairs(inner@.justify_qc.signatures))
            &&& inner@.key.len() <= u64::MAX
            &&& inner@.signature.len() <= u64::MAX
            &&& spec_vote_data_inner(inner.vote_data).len() <= u64::MAX
        },
    }
}

/// A quorum vote encoded into a larger buffer reads back unchanged.
#[verifier::rlimit(80)]
#[verifier::spinoff_prover]
pub proof fn lemma_dec_quorum_vote(s: Seq<u8>, pos: int, v: crate::message::QuorumVote)
    requires
        0 <= pos,
        spec_quorum_vote_lens_ok(v),
        pos + spec_quorum_vote_bytes(v).len() <= s.len(),
        s.subrange(pos, pos + spec_quorum_vote_bytes(v).len()) == spec_quorum_vote_bytes(v),
    ensures
        spec_dec_quorum_vote(s, pos) == Some((v@, pos + spec_quorum_vote_bytes(v).len())),
{
    let e = spec_quorum_vote_bytes(v);
    assert(s[pos] == e[0]) by {
        assert(s.subrange(pos, pos + e.len() as int)[0] == e[0]);
    }
    match v {
        crate::message::QuorumVote::Yes(inner) => {
            let e1 = spec_yes_no_vote_bytes(inner@, inner.vote_data);
            assert(e =~= seq![0u8] + e1);
            assert(s.subrange(pos + 1, pos + 1 + e1.len() as int) =~= e1) by {
                assert forall|i: int| 0 <= i < e1.len() implies #[trigger] s.subrange(
                    pos + 1,
                    pos + 1 + e1.len() as int,
                )[i] == e1[i] by {
                    assert(s.subrange(pos, pos + e.len() as int)[1 + i] == e[1 + i]);
                }
            }
            lemma_dec_yes_no_vote(s, pos + 1, inner@, inner.vote_data);
        },
        crate::message::QuorumVote::No(inner) => {
            let e1 = spec_yes_no_vote_bytes(inner@, inner.vote_data);
            assert(e =~= seq![1u8] + e1);
            assert(s.subrange(pos + 1, pos + 1 + e1.len() as int) =~= e1) by {
                assert forall|i: int| 0 <= i < e1.len() implies #[trigger] s.subrange(
                    pos + 1,
                    pos + 1 + e1.len() as int,
                )[i] == e1[i] by {
                    assert(s.subrange(pos, pos + e.len() as int)[1 + i] == e[1 + i]);
                }
            }
            lemma_dec_yes_no_vote(s, pos + 1, inner@, inner.vote_data);
        },
        crate::message::QuorumVote::Timeout(inner) => {
            let e1 = spec_timeout_vote_bytes(inner@, inner.vote_data);
            assert(e =~= seq![2u8] + e1);
            assert(s.subrange(pos + 1, pos + 1 + e1.len() as int) =~= e1) by {
                assert forall|i: int| 0 <= i < e1.len() implies #[trigger] s.subrange(
                    pos + 1,
                    pos + 1 + e1.len() as int,
                )[i] == e1[i] by {
                    assert(s.subrange(pos, pos + e.len() as int)[1 + i] == e[1 + i]);
                }
            }
            lemma_dec_timeout_vote(s, pos + 1, inner@, inner.vote_data);
        },
    }
}

/// Serialize a quorum vote into its canonical bytes.
pub fn encode_quorum_vote(v: &crate::message::QuorumVote) -> (r: Vec<u8>)
    ensures
        r@ == spec_quorum_vote_bytes(*v),
{
    let mut out: Vec<u8> = Vec::new();
    match v {
        crate::message::QuorumVote::Yes(inner) => {
            out.push(0);
            let b = encode_yes_no_vote(inner);
            push_bytes(&mut out, &b);
        },
        crate::message::QuorumVote::No(inner) => {
            out.push(1);
            let b = encode_yes_no_vote(inner);
            push_bytes(&mut out, &b);
        },
        crate::message::QuorumVote::Timeout(inner) => {
            out.push(2);
            let b = encode_timeout_vote(inner);
            push_bytes(&mut out, &b);
        },
    }
    assert(out@ =~= spec_quorum_vote_bytes(*v));
    out
}

/// Read a quorum vote at `pos` from the buffer.
pub fn decode_quorum_vote(bytes: &Vec<u8>, pos: usize) -> (r: Option<
    (crate::message::QuorumVote, usize),
>)
    ensures
        match r {
            Some((v, p)) => spec_dec_quorum_vote(bytes@, pos as int) == Some((v@, p as int)),
            None => spec_dec_quorum_vote(bytes@, pos as int) is None,
        },
{
    if pos >= bytes.len() {
        return None;
    }
    let tag = bytes[pos];
    if tag == 0 {
        match decode_yes_no_vote(bytes, pos + 1) {
            Some((v, p)) => Some((crate::message::QuorumVote::Yes(v), p)),
            None => None,
        }
    } else if tag == 1 {
        match decode_yes_no_vote(bytes, pos + 1) {
            Some((v, p)) => Some((crate::message::QuorumVote::No(v), p)),
            None => None,
        }
    } else if tag == 2 {
        match decode_timeout_vote(bytes, pos + 1) {
            Some((v, p)) => Some((crate::message::QuorumVote::Timeout(v), p)),
            None => None,
        }
    } else {
        None
    }
}

/// The canonical bytes of a DA certificate: view, block commitment,
/// signatures.
pub open spec fn spec_da_cert_bytes(c: crate::certificate::DACertificateView) -> Seq<u8> {
    spec_u64_to_be_bytes(c.view_number) + spec_lp_bytes(c.block_commitment)
        + spec_serialize_signature(c.signatures)
}

/// Serialize a DA certificate into its canonical bytes.
pub fn encode_da_certificate(c: &crate::certificate::DACertificate) -> (r: Vec<u8>)
    ensures
        r@ == spec_da_cert_bytes(c@),
{
    let mut out: Vec<u8> = Vec::new();
    push_u64_be(&mut out, c.view_number);
    push_u64_be(&mut out, c.block_commitment.bytes.len() as u64);
    push_bytes(&mut out, &c.block_commitment.bytes);
    let signature_bytes = serialize_signature(&c.signatures);
    push_bytes(&mut out, &signature_bytes);
    assert(out@ =~= spec_da_cert_bytes(c@));
    out
}

/// Read a DA certificate at `pos`.
pub open spec fn spec_dec_da_cert(s: Seq<u8>, pos: int) -> Option<
    (crate::certificate::DACertificateView, int),
> {
    match spec_dec_u64(s, pos) {
        None => None,
        Some((view_number, p1)) => match spec_dec_lp_bytes(s, p1) {
            None => None,
            Some((block_commitment, p2)) => match spec_dec_assembled(s, p2) {
                None => None,
                Some((signatures, p3)) => Some(
                    (
                        crate::certificate::DACertificateView {
                            view_number,
                            block_commitment,
                            signatures,
                        },
                        p3,
                    ),
                ),
            },
        },
    }
}

/// A DA certificate encoded into a larger buffer reads back unchanged.
pub proof fn lemma_dec_da_cert(s: Seq<u8>, pos: int, c: crate::certificate::DACertificateView)
    requires
        0 <= pos,
        c.block_commitment.len() <= u64::MAX,
        spec_pairs_lens_ok(spec_assembled_pairs(c.signatures)),
        pos + spec_da_cert_bytes(c).len() <= s.len(),
        s.subrange(pos, pos + spec_da_cert_bytes(c).len()) == spec_da_cert_bytes(c),
    ensures
        spec_dec_da_cert(s, pos) == Some((c, pos + spec_da_cert_bytes(c).len())),
{
    let e1 = spec_u64_to_be_bytes(c.view_number);
    let e2 = spec_lp_bytes(c.block_commitment);
    let e3 = spec_serialize_signature(c.signatures);
    assert(spec_da_cert_bytes(c) =~= e1 + (e2 + e3));
    lemma_subrange_split(s, pos, e1, e2 + e3);
    lemma_dec_u64(s, pos, c.view_number);
    lemma_subrange_split(s, pos + 8, e2, e3);
    lemma_dec_lp_bytes(s, pos + 8, c.block_commitment);
    lemma_dec_assembled(s, pos + 8 + e2.len(), c.signatures);
}

/// Read a DA certificate at `pos` from the buffer.
pub fn decode_da_certificate(bytes: &Vec<u8>, pos: usize) -> (r: Option<
    (crate::certificate::DACertificate, usize),
>)
    ensures
        match r {
            Some((c, p)) => spec_dec_da_cert(bytes@, pos as int) == Some((c@, p as int)),
            None => spec_dec_da_cert(bytes@, pos as int) is None,
        },
{
    let (view_number, p1) = match dec_u64(bytes, pos) {
        Some(x) => x,
        None => {
            return None;
        },
    };
    let (block_commitment, p2) = match dec_lp_bytes(bytes, p1) {
        Some(x) => x,
        None => {
            return None;
        },
    };
    let (signatures, p3) = match dec_assembled(bytes, p2) {
        Some(x) => x,
        None => {
            return None;
        },
    };
    Some(
        (
            crate::certificate::DACertificate {
                view_number,
                block_commitment: Commitment { bytes: block_commitment },
                signatures,
            },
            p3,
        ),
    )
}

/// The canonical bytes of one phase's view-sync vote.
pub open spec fn spec_vs_vote_internal_bytes(
    v: crate::message::ViewSyncVoteInternalView,
    data: VoteData,
) -> Seq<u8> {
    spec_lp_bytes(v.relay_pub_key) + spec_u64_to_be_bytes(v.relay) + spec_u64_to_be_bytes(v.round)
        + spec_lp_bytes(v.key) + spec_lp_bytes(v.signature) + spec_token_bytes(v.vote_token)
        + spec_vote_data_bytes(data)
}

/// Serialize one phase's view-sync vote into its canonical bytes.
pub fn encode_vs_vote_internal(v: &crate::message::ViewSyncVoteInternal) -> (r: Vec<u8>)
    ensures
        r@ == spec_vs_vote_internal_bytes(v@, v.vote_data),
{
    let mut out: Vec<u8> = Vec::new();
    push_u64_be(&mut out, v.relay_pub_key.bytes.len() as u64);
    push_bytes(&mut out, &v.relay_pub_key.bytes);
    push_u64_be(&mut out, v.relay);
    push_u64_be(&mut out, v.round);
    push_u64_be(&mut out, v.signature.0.bytes.len() as u64);
    push_bytes(&mut out, &v.signature.0.bytes);
    push_u64_be(&mut out, v.signature.1.bytes.len() as u64);
    push_bytes(&mut out, &v.signature.1.bytes);
    push_token(&mut out, &v.vote_token);
    let data_bytes = v.vote_data.as_bytes();
    push_bytes(&mut out, &data_bytes);
    assert(out@ =~= spec_vs_vote_internal_bytes(v@, v.vote_data));
    out
}

/// Read one phase's view-sync vote at `pos`.
pub open spec fn spec_dec_vs_vote_internal(s: Seq<u8>, pos: int) -> Option<
    (crate::message::ViewSyncVoteInternalView, u8, int),
> {
    match spec_dec_lp_bytes(s, pos) {
        None => None,
        Some((relay_pub_key, p0)) => match spec_dec_u64(s, p0) {
            None => None,
            Some((relay, p1)) => match spec_dec_u64(s, p1) {
                None => None,
                Some((round, p2)) => match spec_dec_lp_bytes(s, p2) {
                    None => None,
                    Some((key, p3)) => match spec_dec_lp_bytes(s, p3) {
                        None => None,
                        Some((signature, p4)) => match spec_dec_token(s, p4) {
                            None => None,
                            Some((vote_token, p5)) => match spec_dec_vote_data(s, p5) {
                                None => None,
                                Some(((phase, inner), p6)) => Some(
                                    (
                                        crate::message::ViewSyncVoteInternalView {
                                            relay_pub_key,
                                            relay,
                                            round,
                                            key,
                                            signature,
                                            vote_token,
                                            vote_commit: crate::accumulator::spec_phase_commit(
                                                phase,
                                                inner,
                                            ),
                                        },
                                        phase,
                                        p6,
                                    ),
                                ),
                            },
                        },
                    },
                },
            },
        },
    }
}

/// A view-sync vote phase encoded into a larger buffer reads back
/// unchanged.
#[verifier::rlimit(80)]
#[verifier::spinoff_prover]
pub proof fn lemma_dec_vs_vote_internal(
    s: Seq<u8>,
    pos: int,
    v: crate::message::ViewSyncVoteInternalView,
    data: VoteData,
)
    requires
        0 <= pos,
        v.relay_pub_key.len() <= u64::MAX,
        v.key.len() <= u64::MAX,
        v.signature.len() <= u64::MAX,
        spec_vote_data_inner(data).len() <= u64::MAX,
        v.vote_commit == spec_vote_data_commit(data),
        pos + spec_vs_vote_internal_bytes(v, data).len() <= s.len(),
        s.subrange(pos, pos + spec_vs_vote_internal_bytes(v, data).len())
            == spec_vs_vote_internal_bytes(v, data),
    ensures
        spec_dec_vs_vote_internal(s, pos) == Some(
            (v, spec_vote_data_phase_byte(data), pos + spec_vs_vote_internal_bytes(v, data).len()),
        ),
{
    let e0 = spec_lp_bytes(v.relay_pub_key);
    let e1 = spec_u64_to_be_bytes(v.relay);
    let e2 = spec_u64_to_be_bytes(v.round);
    let e3 = spec_lp_bytes(v.key);
    let e4 = spec_lp_bytes(v.signature);
    let e5 = spec_token_bytes(v.vote_token);
    let e6 = spec_vote_data_bytes(data);
    let r1 = e1 + e2 + e3 + e4 + e5 + e6;
    let r2 = e2 + e3 + e4 + e5 + e6;
    let r3 = e3 + e4 + e5 + e6;
    let r4 = e4 + e5 + e6;
    let r5 = e5 + e6;
    assert(spec_vs_vote_internal_bytes(v, data) =~= e0 + r1);
    lemma_subrange_split(s, pos, e0, r1);
    lemma_dec_lp_bytes(s, pos, v.relay_pub_key);
    let p0 = pos + e0.len();
    assert(r1 =~= e1 + r2);
    lemma_subrange_split(s, p0, e1, r2);
    lemma_dec_u64(s, p0, v.relay);
    let p1 = p0 + 8;
    assert(r2 =~= e2 + r3);
    lemma_subrange_split(s, p1, e2, r3);
    lemma_dec_u64(s, p1, v.round);
    let p2 = p1 + 8;
    assert(r3 =~= e3 + r4);
    lemma_subrange_split(s, p2, e3, r4);
    lemma_dec_lp_bytes(s, p2, v.key);
    let p3 = p2 + e3.len();
    assert(r4 =~= e4 + r5);
    lemma_subrange_split(s, p3, e4, r5);
    lemma_dec_lp_bytes(s, p3, v.signature);
    let p4 = p3 + e4.len();
    assert(r5 =~= e5 + e6);
    lemma_subrange_split(s, p4, e5, e6);
    lemma_dec_token(s, p4, v.vote_token);
    let p5 = p4 + e5.len();
    lemma_dec_vote_data(s, p5, data);
}

/// Read one phase's view-sync vote at `pos` from the buffer.
pub fn decode_vs_vote_internal(bytes: &Vec<u8>, pos: usize) -> (r: Option<
    (crate::message::ViewSyncVoteInternal, usize),
>)
    ensures
        match r {
            Some((v, p)) => spec_dec_vs_vote_internal(bytes@, pos as int) == Some(
                (v@, spec_vote_data_phase_byte(v.vote_data), p as int),
            ),
            None => spec_dec_vs_vote_internal(bytes@, pos as int) is None,
        },
{
    let (relay_pub_key, p0) = match dec_lp_bytes(bytes, pos) {
        Some(x) => x,
        None => {
            return None;
        },
    };
    let (relay, p1) = match dec_u64(bytes, p0) {
        Some(x) => x,
        None => {
            return None;
        },
    };
    let (round, p2) = match dec_u64(bytes, p1) {
        Some(x) => x,
        None => {
            return None;
        },
    };
    let (key, p3) = match dec_lp_bytes(bytes, p2) {
        Some(x) => x,
        None => {
            return None;
        },
    };
    let (signature, p4) = match dec_lp_bytes(bytes, p3) {
        Some(x) => x,
        None => {
            return None;
        },
    };
    let (vote_token, p5) = match decode_token(bytes, p4) {
        Some(x) => x,
        None => {
            return None;
        },
    };
    let (vote_data, p6) = match decode_vote_data(bytes, p5) {
        Some(x) => x,
        None => {
            return None;
        },
    };
    Some(
        (
            crate::message::ViewSyncVoteInternal {
                relay_pub_key: EncodedPublicKey { bytes: relay_pub_key },
                relay,
                round,
                signature: (
                    EncodedPublicKey { bytes: key },
                    EncodedSignature { bytes: signature },
                ),
                vote_token,
                vote_data,
            },
            p6,
        ),
    )
}

/// The canonical bytes of a view-sync vote: a phase byte, then the vote.
pub open spec fn spec_vs_vote_bytes(v: crate::message::ViewSyncVote) -> Seq<u8> {
    match v {
        crate::message::ViewSyncVote::PreCommit(inner) => seq![0u8] + spec_vs_vote_internal_bytes(
            inner@,
            inner.vote_data,
        ),
        crate::message::ViewSyncVote::Commit(inner) => seq![1u8] + spec_vs_vote_internal_bytes(
            inner@,
            inner.vote_data,
        ),
        crate::message::ViewSyncVote::Finalize(inner) => seq![2u8] + spec_vs_vote_internal_bytes(
            inner@,
            inner.vote_data,
        ),
    }
}

/// Read a view-sync vote at `pos`.
pub open spec fn spec_dec_vs_vote(s: Seq<u8>, pos: int) -> Option<
    (crate::message::ViewSyncVoteView, int),
> {
    if 0 <= pos < s.len() {
        if s[pos] <= 2 {
            match spec_dec_vs_vote_internal(s, pos + 1) {
                None => None,
                Some((v, _, p)) => Some(
                    (
                        if s[pos] == 0 {
                            crate::message::ViewSyncVoteView::PreCommit(v)
                        } else if s[pos] == 1 {
                            crate::message::ViewSyncVoteView::Commit(v)
                        } else {
                            crate::message::ViewSyncVoteView::Finalize(v)
                        },
                        p,
                    ),
                ),
            }
        } else {
            None
        }
    } else {
        None
    }
}

/// Decoder-friendly lengths throughout a view-sync vote.
pub open spec fn spec_vs_vote_lens_ok(v: crate::message::ViewSyncVote) -> bool {
    let inner = match v {
        crate::message::ViewSyncVote::PreCommit(inner) => inner,
        crate::message::ViewSyncVote::Commit(inner) => inner,
        crate::message::ViewSyncVote::Finalize(inner) => inner,
    };
    &&& inner@.relay_pub_key.len() <= u64::MAX
    &&& inner@.key.len() <= u64::MAX
    &&& inner@.signature.len() <= u64::MAX
    &&& spec_vote_data_inner(inner.vote_data).len() <= u64::MAX
}

/// A view-sync vote encoded into a larger buffer reads back unchanged.
#[verifier::rlimit(80)]
#[verifier::spinoff_prover]
pub proof fn lemma_dec_vs_vote(s: Seq<u8>, pos: int, v: crate::message::ViewSyncVote)
    requires
        0 <= pos,
        spec_vs_vote_lens_ok(v),
        pos + spec_vs_vote_bytes(v).len() <= s.len(),
        s.subrange(pos, pos + spec_vs_vote_bytes(v).len()) == spec_vs_vote_bytes(v),
    ensures
        spec_dec_vs_vote(s, pos) == Some((v@, pos + spec_vs_vote_bytes(v).len())),
{
    let e = spec_vs_vote_bytes(v);
    assert(s[pos] == e[0]) by {
        assert(s.subrange(pos, pos + e.len() as int)[0] == e[0]);
    }
    let inner = match v {
        crate::message::ViewSyncVote::PreCommit(inner) => inner,
        crate::message::ViewSyncVote::Commit(inner) => inner,
        crate::message::ViewSyncVote::Finalize(inner) => inner,
    };
    let e1 = spec_vs_vote_internal_bytes(inner@, inner.vote_data);
    assert(e =~= seq![e[0]] + e1);
    assert(s.subrange(pos + 1, pos + 1 + e1.len() as int) =~= e1) by {
        assert forall|i: int| 0 <= i < e1.len() implies #[trigger] s.subrange(
            pos + 1,
            pos + 1 + e1.len() as int,
        )[i] == e1[i] by {
            assert(s.subrange(pos, pos + e.len() as int)[1 + i] == e[1 + i]);
        }
    }
    lemma_dec_vs_vote_internal(s, pos + 1, inner@, inner.vote_data);
}

/// Serialize a view-sync vote into its canonical bytes.
pub fn encode_vs_vote(v: &crate::message::ViewSyncVote) -> (r: Vec<u8>)
    ensures
        r@ == spec_vs_vote_bytes(*v),
{
    let mut out: Vec<u8> = Vec::new();
    match v {
        crate::message::ViewSyncVote::PreCommit(inner) => {
            out.push(0);
            let b = encode_vs_vote_internal(inner);
            push_bytes(&mut out, &b);
        },
        crate::message::ViewSyncVote::Commit(inner) => {
            out.push(1);
            let b = encode_vs_vote_internal(inner);
            push_bytes(&mut out, &b);
        },
        crate::message::ViewSyncVote::Finalize(inner) => {
            out.push(2);
            let b = encode_vs_vote_internal(inner);
            push_bytes(&mut out, &b);
        },
    }
    assert(out@ =~= spec_vs_vote_bytes(*v));
    out
}

/// Read a view-sync vote at `pos` from the buffer.
pub fn decode_vs_vote(bytes: &Vec<u8>, pos: usize) -> (r: Option<
    (crate::message::ViewSyncVote, usize),
>)
    ensures
        match r {
            Some((v, p)) => spec_dec_vs_vote(bytes@, pos as int) == Some((v@, p as int)),
            None => spec_dec_vs_vote(bytes@, pos as int) is None,
        },
{
    if pos >= bytes.len() {
        return None;
    }
    let tag = bytes[pos];
    if tag > 2 {
        return None;
    }
    let (inner, p) = match decode_vs_vote_internal(bytes, pos + 1) {
        Some(x) => x,
        None => {
            return None;
        },
    };
    let v = if tag == 0 {
        crate::message::ViewSyncVote::PreCommit(inner)
    } else if tag == 1 {
        crate::message::ViewSyncVote::Commit(inner)
    } else {
        crate::message::ViewSyncVote::Finalize(inner)
    };
    Some((v, p))
}

/// The canonical bytes of a DA proposal: the block's payloads and the
/// view.
pub open spec fn spec_da_proposal_bytes(p: crate::message::DAProposalView) -> Seq<u8> {
    spec_payload_list_bytes(p.deltas) + spec_u64_to_be_bytes(p.view_number)
}

/// Serialize a DA proposal into its canonical bytes.
pub fn encode_da_proposal(p: &crate::message::DAProposal) -> (r: Vec<u8>)
    ensures
        r@ == spec_da_proposal_bytes(p@),
{
    let mut out: Vec<u8> = Vec::new();
    push_payload_list(&mut out, &p.deltas.transactions);
    push_u64_be(&mut out, p.view_number);
    assert(out@ =~= spec_da_proposal_bytes(p@));
    out
}

/// Read a DA proposal at `pos`.
pub open spec fn spec_dec_da_proposal(s: Seq<u8>, pos: int) -> Option<
    (crate::message::DAProposalView, int),
> {
    match spec_dec_payload_list(s, pos) {
        None => None,
        Some((deltas, p1)) => match spec_dec_u64(s, p1) {
            None => None,
            Some((view_number, p2)) => Some(
                (crate::message::DAProposalView { deltas, view_number }, p2),
            ),
        },
    }
}

/// A DA proposal encoded into a larger buffer reads back unchanged.
pub proof fn lemma_dec_da_proposal(s: Seq<u8>, pos: int, p: crate::message::DAProposalView)
    requires
        0 <= pos,
        spec_payload_lens_ok(p.deltas),
        pos + spec_da_proposal_bytes(p).len() <= s.len(),
        s.subrange(pos, pos + spec_da_proposal_bytes(p).len()) == spec_da_proposal_bytes(p),
    ensures
        spec_dec_da_proposal(s, pos) == Some((p, pos + spec_da_proposal_bytes(p).len())),
{
    let e1 = spec_payload_list_bytes(p.deltas);
    let e2 = spec_u64_to_be_bytes(p.view_number);
    assert(spec_da_proposal_bytes(p) =~= e1 + e2);
    lemma_subrange_split(s, pos, e1, e2);
    lemma_dec_payload_list(s, pos, p.deltas);
    lemma_dec_u64(s, pos + e1.len(), p.view_number);
}

/// Read a DA proposal at `pos` from the buffer.
pub fn decode_da_proposal(bytes: &Vec<u8>, pos: usize) -> (r: Option<
    (crate::message::DAProposal, usize),
>)
    ensures
        match r {
            Some((p, q)) => spec_dec_da_proposal(bytes@, pos as int) == Some((p@, q as int)),
            None => spec_dec_da_proposal(bytes@, pos as int) is None,
        },
{
    let (transactions, p1) = match decode_payload_list(bytes, pos) {
        Some(x) => x,
        None => {
            return None;
        },
    };
    let (view_number, p2) = match dec_u64(bytes, p1) {
        Some(x) => x,
        None => {
            return None;
        },
    };
    Some(
        (
            crate::message::DAProposal {
                deltas: crate::data::Block { transactions },
                view_number,
            },
            p2,
        ),
    )
}

/// The canonical bytes of a commitment proposal.
pub open spec fn spec_commitment_proposal_bytes(p: crate::message::CommitmentProposalView) -> Seq<
    u8,
> {
    spec_lp_bytes(p.block_commitment) + spec_u64_to_be_bytes(p.view_number) + spec_qc_bytes(
        p.justify_qc,
    ) + spec_da_cert_bytes(p.dac) + spec_lp_bytes(p.state_commitment) + spec_lp_bytes(
        p.proposer_id,
    )
}

/// Serialize a commitment proposal into its canonical bytes.
pub fn encode_commitment_proposal(p: &crate::message::CommitmentProposal) -> (r: Vec<u8>)
    ensures
        r@ == spec_commitment_proposal_bytes(p@),
{
    let mut out: Vec<u8> = Vec::new();
    push_u64_be(&mut out, p.block_commitment.bytes.len() as u64);
    push_bytes(&mut out, &p.block_commitment.bytes);
    push_u64_be(&mut out, p.view_number);
    let qc_bytes = encode_quorum_certificate(&p.justify_qc);
    push_bytes(&mut out, &qc_bytes);
    let dac_bytes = encode_da_certificate(&p.dac);
    push_bytes(&mut out, &dac_bytes);
    push_u64_be(&mut out, p.state_commitment.bytes.len() as u64);
    push_bytes(&mut out, &p.state_commitment.bytes);
    push_u64_be(&mut out, p.proposer_id.bytes.len() as u64);
    push_bytes(&mut out, &p.proposer_id.bytes);
    assert(out@ =~= spec_commitment_proposal_bytes(p@));
    out
}

/// Read a commitment proposal at `pos`.
pub open spec fn spec_dec_commitment_proposal(s: Seq<u8>, pos: int) -> Option<
    (crate::message::CommitmentProposalView, int),
> {
    match spec_dec_lp_bytes(s, pos) {
        None => None,
        Some((block_commitment, p1)) => match spec_dec_u64(s, p1) {
            None => None,
            Some((view_number, p2)) => match spec_dec_qc(s, p2) {
                None => None,
                Some((justify_qc, p3)) => match spec_dec_da_cert(s, p3) {
                    None => None,
                    Some((dac, p4)) => match spec_dec_lp_bytes(s, p4) {
                        None => None,
                        Some((state_commitment, p5)) => match spec_dec_lp_bytes(s, p5) {
                            None => None,
                            Some((proposer_id, p6)) => Some(
                                (
                                    crate::message::CommitmentProposalView {
                                        block_commitment,
                                        view_number,
                                        justify_qc,
                                        dac,
                                        state_commitment,
                                        proposer_id,
                                    },
                                    p6,
                                ),
                            ),
                        },
                    },
                },
            },
        },
    }
}

/// Decoder-friendly lengths throughout a commitment proposal.
pub open spec fn spec_commitment_proposal_lens_ok(
    p: crate::message::CommitmentProposalView,
) -> bool {
    &&& p.block_commitment.len() <= u64::MAX
    &&& p.justify_qc.leaf_commitment.len() <= u64::MAX
    &&& spec_pairs_lens_ok(spec_assembled_pairs(p.justify_qc.signatures))
    &&& p.dac.block_commitment.len() <= u64::MAX
    &&& spec_pairs_lens_ok(spec_assembled_pairs(p.dac.signatures))
    &&& p.state_commitment.len() <= u64::MAX
    &&& p.proposer_id.len() <= u64::MAX
}

/// A commitment proposal encoded into a larger buffer reads back
/// unchanged.
#[verifier::rlimit(80)]
#[verifier::spinoff_prover]
pub proof fn lemma_dec_commitment_proposal(
    s: Seq<u8>,
    pos: int,
    p: crate::message::CommitmentProposalView,
)
    requires
        0 <= pos,
        spec_commitment_proposal_lens_ok(p),
        pos + spec_commitment_proposal_bytes(p).len() <= s.len(),
        s.subrange(pos, pos + spec_commitment_proposal_bytes(p).len())
            == spec_commitment_proposal_bytes(p),
    ensures
        spec_dec_commitment_proposal(s, pos) == Some(
            (p, pos + spec_commitment_proposal_bytes(p).len()),
        ),
{
    let e1 = spec_lp_bytes(p.block_commitment);
    let e2 = spec_u64_to_be_bytes(p.view_number);
    let e3 = spec_qc_bytes(p.justify_qc);
    let e4 = spec_da_cert_bytes(p.dac);
    let e5 = spec_lp_bytes(p.state_commitment);
    let e6 = spec_lp_bytes(p.proposer_id);
    let r2 = e2 + e3 + e4 + e5 + e6;
    let r3 = e3 + e4 + e5 + e6;
    let r4 = e4 + e5 + e6;
    let r5 = e5 + e6;
    assert(spec_commitment_proposal_bytes(p) =~= e1 + r2);
    lemma_subrange_split(s, pos, e1, r2);
    lemma_dec_lp_bytes(s, pos, p.block_commitment);
    let p1 = pos + e1.len();
    assert(r2 =~= e2 + r3);
    lemma_subrange_split(s, p1, e2, r3);
    lemma_dec_u64(s, p1, p.view_number);
    let p2 = p1 + 8;
    assert(r3 =~= e3 + r4);
    lemma_subrange_split(s, p2, e3, r4);
    lemma_dec_qc(s, p2, p.justify_qc);
    let p3 = p2 + e3.len();
    assert(r4 =~= e4 + r5);
    lemma_subrange_split(s, p3, e4, r5);
    lemma_dec_da_cert(s, p3, p.dac);
    let p4 = p3 + e4.len();
    assert(r5 =~= e5 + e6);
    lemma_subrange_split(s, p4, e5, e6);
    lemma_dec_lp_bytes(s, p4, p.state_commitment);
    let p5 = p4 + e5.len();
    lemma_dec_lp_bytes(s, p5, p.proposer_id);
}

/// Read a commitment proposal at `pos` from the buffer.
pub fn decode_commitment_proposal(bytes: &Vec<u8>, pos: usize) -> (r: Option<
    (crate::message::CommitmentProposal, usize),
>)
    ensures
        match r {
            Some((p, q)) => spec_dec_commitment_proposal(bytes@, pos as int) == Some(
                (p@, q as int),
            ),
            None => spec_dec_commitment_proposal(bytes@, pos as int) is None,
        },
{
    let (block_commitment, p1) = match dec_lp_bytes(bytes, pos) {
        Some(x) => x,
        None => {
            return None;
        },
    };
    let (view_number, p2) = match dec_u64(bytes, p1) {
        Some(x) => x,
        None => {
            return None;
        },
    };
    let (justify_qc, p3) = match decode_quorum_certificate(bytes, p2) {
        Some(x) => x,
        None => {
            return None;
        },
    };
    let (dac, p4) = match decode_da_certificate(bytes, p3) {
        Some(x) => x,
        None => {
            return None;
        },
    };
    let (state_commitment, p5) = match dec_lp_bytes(bytes, p4) {
        Some(x) => x,
        None => {
            return None;
        },
    };
    let (proposer_id, p6) = match dec_lp_bytes(bytes, p5) {
        Some(x) => x,
        None => {
            return None;
        },
    };
    Some(
        (
            crate::message::CommitmentProposal {
                block_commitment: Commitment { bytes: block_commitment },
                view_number,
                justify_qc,
                dac,
                state_commitment: Commitment { bytes: state_commitment },
                proposer_id: EncodedPublicKey { bytes: proposer_id },
            },
            p6,
        ),
    )
}

/// The canonical bytes of a wire message: two variant bytes naming the
/// family and the kind, then the payload.
pub open spec fn spec_consensus_message_bytes(m: crate::message::ConsensusMessage) -> Seq<u8> {
    match m {
        crate::message::ConsensusMessage::General(g) => seq![0u8] + match g {
            crate::message::GeneralConsensusMessage::Proposal(p, sig) => seq![0u8]
                + spec_commitment_proposal_bytes(p@) + spec_lp_bytes(sig@),
            crate::message::GeneralConsensusMessage::Vote(v) => seq![1u8] + spec_quorum_vote_bytes(
                v,
            ),
            crate::message::GeneralConsensusMessage::ViewSyncVote(v) => seq![2u8]
                + spec_vs_vote_bytes(v),
            crate::message::GeneralConsensusMessage::ViewSyncCertificate(c, sig) => seq![3u8]
                + spec_view_sync_cert_bytes(c@) + spec_lp_bytes(sig@),
        },
        crate::message::ConsensusMessage::Committee(c) => seq![1u8] + match c {
            crate::message::CommitteeConsensusMessage::DAProposal(p, sig) => seq![0u8]
                + spec_da_proposal_bytes(p@) + spec_lp_bytes(sig@),
            crate::message::CommitteeConsensusMessage::DAVote(v) => seq![1u8]
                + spec_da_vote_bytes(v@, v.vote_data),
            crate::message::CommitteeConsensusMessage::DACertificate(cert) => seq![2u8]
                + spec_da_cert_bytes(cert@),
        },
        crate::message::ConsensusMessage::Data(d) => seq![2u8] + match d {
            crate::message::DataMessage::SubmitTransaction(tx, view) => seq![0u8] + spec_lp_bytes(
                tx@,
            ) + spec_u64_to_be_bytes(view),
        },
    }
}

/// Read a wire message at `pos`.
pub open spec fn spec_dec_consensus_message(s: Seq<u8>, pos: int) -> Option<
    (crate::message::ConsensusMessageView, int),
> {
    if 0 <= pos && pos + 2 <= s.len() {
        let family = s[pos];
        let kind = s[pos + 1];
        if family == 0 {
            if kind == 0 {
                match spec_dec_commitment_proposal(s, pos + 2) {
                    None => None,
                    Some((p, p1)) => match spec_dec_lp_bytes(s, p1) {
                        None => None,
                        Some((sig, p2)) => Some(
                            (
                                crate::message::ConsensusMessageView::General(
                                    crate::message::GeneralConsensusMessageView::Proposal(p, sig),
                                ),
                                p2,
                            ),
                        ),
                    },
                }
            } else if kind == 1 {
                match spec_dec_quorum_vote(s, pos + 2) {
                    None => None,
                    Some((v, p1)) => Some(
                        (
                            crate::message::ConsensusMessageView::General(
                                crate::message::GeneralConsensusMessageView::Vote(v),
                            ),
                            p1,
                        ),
                    ),
                }
            } else if kind == 2 {
                match spec_dec_vs_vote(s, pos + 2) {
                    None => None,
                    Some((v, p1)) => Some(
                        (
                            crate::message::ConsensusMessageView::General(
                                crate::message::GeneralConsensusMessageView::ViewSyncVote(v),
                            ),
                            p1,
                        ),
                    ),
                }
            } else if kind == 3 {
                match spec_dec_view_sync_cert(s, pos + 2) {
                    None => None,
                    Some((c, p1)) => match spec_dec_lp_bytes(s, p1) {
                        None => None,
                        Some((sig, p2)) => Some(
                            (
                                crate::message::ConsensusMessageView::General(
                                    crate::message::GeneralConsensusMessageView::ViewSyncCertificate(
                                        c,
                                        sig,
                                    ),
                                ),
                                p2,
                            ),
                        ),
                    },
                }
            } else {
                None
            }
        } else if family == 1 {
            if kind == 0 {
                match spec_dec_da_proposal(s, pos + 2) {
                    None => None,
                    Some((p, p1)) => match spec_dec_lp_bytes(s, p1) {
                        None => None,
                        Some((sig, p2)) => Some(
                            (
                                crate::message::ConsensusMessageView::Committee(
                                    crate::message::CommitteeConsensusMessageView::DAProposal(
                                        p,
                                        sig,
                                    ),
                                ),
                                p2,
                            ),
                        ),
                    },
                }
            } else if kind == 1 {
                match spec_dec_da_vote(s, pos + 2) {
                    None => None,
                    Some((v, _, p1)) => Some(
                        (
                            crate::message::ConsensusMessageView::Committee(
                                crate::message::CommitteeConsensusMessageView::DAVote(v),
                            ),
                            p1,
                        ),
                    ),
                }
            } else if kind == 2 {
                match spec_dec_da_cert(s, pos + 2) {
                    None => None,
                    Some((c, p1)) => Some(
                        (
                            crate::message::ConsensusMessageView::Committee(
                                crate::message::CommitteeConsensusMessageView::DACertificate(c),
                            ),
                            p1,
                        ),
                    ),
                }
            } else {
                None
            }
        } else if family == 2 && kind == 0 {
            match spec_dec_lp_bytes(s, pos + 2) {
                None => None,
                Some((tx, p1)) => match spec_dec_u64(s, p1) {
                    None => None,
                    Some((view, p2)) => Some(
                        (
                            crate::message::ConsensusMessageView::Data(
                                crate::message::DataMessageView::SubmitTransaction(tx, view),
                            ),
                            p2,
                        ),
                    ),
                },
            }
        } else {
            None
        }
    } else {
        None
    }
}

/// Decoder-friendly lengths throughout a wire message.
pub open spec fn spec_consensus_message_lens_ok(m: crate::message::ConsensusMessage) -> bool {
    match m {
        crate::message::ConsensusMessage::General(g) => match g {
            crate::message::GeneralConsensusMessage::Proposal(p, sig) => {
                &&& spec_commitment_proposal_lens_ok(p@)
                &&& sig@.len() <= u64::MAX
            },
            crate::message::GeneralConsensusMessage::Vote(v) => spec_quorum_vote_lens_ok(v),
            crate::message::GeneralConsensusMessage::ViewSyncVote(v) => spec_vs_vote_lens_ok(v),
            crate::message::GeneralConsensusMessage::ViewSyncCertificate(c, sig) => {
                &&& spec_pairs_lens_ok(
                    spec_assembled_pairs(
                        crate::certificate::spec_view_sync_cert_internal(c@).signatures,
                    ),
                )
                &&& sig@.len() <= u64::MAX
            },
        },
        crate::message::ConsensusMessage::Committee(c) => match c {
            crate::message::CommitteeConsensusMessage::DAProposal(p, sig) => {
                &&& spec_payload_lens_ok(p@.deltas)
                &&& sig@.len() <= u64::MAX
            },
            crate::message::CommitteeConsensusMessage::DAVote(v) => {
                &&& v@.key.len() <= u64::MAX
                &&& v@.signature.len() <= u64::MAX
                &&& v@.block_commitment.len() <= u64::MAX
                &&& spec_vote_data_inner(v.vote_data).len() <= u64::MAX
            },
            crate::message::CommitteeConsensusMessage::DACertificate(cert) => {
                &&& cert@.block_commitment.len() <= u64::MAX
                &&& spec_pairs_lens_ok(spec_assembled_pairs(cert@.signatures))
            },
        },
        crate::message::ConsensusMessage::Data(d) => match d {
            crate::message::DataMessage::SubmitTransaction(tx, _) => tx@.len() <= u64::MAX,
        },
    }
}


/// Data-family helper for the wire-format round trip.
#[verifier::rlimit(100)]
#[verifier::spinoff_prover]
proof fn lemma_dec_consensus_message_data(
    s: Seq<u8>,
    pos: int,
    m: crate::message::ConsensusMessage,
)
    requires
        0 <= pos,
        spec_consensus_message_lens_ok(m),
        pos + spec_consensus_message_bytes(m).len() <= s.len(),
        s.subrange(pos, pos + spec_consensus_message_bytes(m).len())
            == spec_consensus_message_bytes(m),
        m is Data,
    ensures
        spec_dec_consensus_message(s, pos) == Some(
            (m@, pos + spec_consensus_message_bytes(m).len()),
        ),
{
    let e = spec_consensus_message_bytes(m);
    assert(s[pos] == e[0] && s[pos + 1] == e[1]) by {
        assert(s.subrange(pos, pos + e.len() as int)[0] == e[0]);
        assert(s.subrange(pos, pos + e.len() as int)[1] == e[1]);
    }
    let p0 = pos + 2;
    match m {
        crate::message::ConsensusMessage::General(_) => {
        },
        crate::message::ConsensusMessage::Committee(_) => {
        },
        crate::message::ConsensusMessage::Data(d) => match d {
            crate::message::DataMessage::SubmitTransaction(tx, view) => {
                let e1 = spec_lp_bytes(tx@);
                let e2 = spec_u64_to_be_bytes(view);
                assert(e =~= seq![2u8, 0u8] + (e1 + e2));
                assert(s.subrange(p0, p0 + (e1 + e2).len() as int) =~= e1 + e2) by {
                    assert forall|i: int| 0 <= i < (e1 + e2).len() implies #[trigger] s.subrange(
                        p0,
                        p0 + (e1 + e2).len() as int,
                    )[i] == (e1 + e2)[i] by {
                        assert(s.subrange(pos, pos + e.len() as int)[2 + i] == e[2 + i]);
                    }
                }
                lemma_subrange_split(s, p0, e1, e2);
                lemma_dec_lp_bytes(s, p0, tx@);
                lemma_dec_u64(s, p0 + e1.len(), view);
            },
        },
    }
}

/// The round trip of the wire format: a message encoded into a buffer
/// reads back as the same message.  Equality is preserved for every wire
/// message.
/// One variant of the general-family round trip.
#[verifier::rlimit(100)]
#[verifier::spinoff_prover]
proof fn lemma_dec_cm_general_proposal(s: Seq<u8>, pos: int, m: crate::message::ConsensusMessage)
    requires
        0 <= pos,
        spec_consensus_message_lens_ok(m),
        pos + spec_consensus_message_bytes(m).len() <= s.len(),
        s.subrange(pos, pos + spec_consensus_message_bytes(m).len())
            == spec_consensus_message_bytes(m),
        m matches crate::message::ConsensusMessage::General(g) && g is Proposal,
    ensures
        spec_dec_consensus_message(s, pos) == Some(
            (m@, pos + spec_consensus_message_bytes(m).len()),
        ),
{
    let e = spec_consensus_message_bytes(m);
    assert(s[pos] == e[0] && s[pos + 1] == e[1]) by {
        assert(s.subrange(pos, pos + e.len() as int)[0] == e[0]);
        assert(s.subrange(pos, pos + e.len() as int)[1] == e[1]);
    }
    let p0 = pos + 2;
    match m {
        crate::message::ConsensusMessage::General(g) => match g {
            crate::message::GeneralConsensusMessage::Proposal(p, sig) => {
                let e1 = spec_commitment_proposal_bytes(p@);
                let e2 = spec_lp_bytes(sig@);
                assert(e =~= seq![0u8, 0u8] + (e1 + e2));
                assert(s.subrange(p0, p0 + (e1 + e2).len() as int) =~= e1 + e2) by {
                    assert forall|i: int| 0 <= i < (e1 + e2).len() implies #[trigger] s.subrange(
                        p0,
                        p0 + (e1 + e2).len() as int,
                    )[i] == (e1 + e2)[i] by {
                        assert(s.subrange(pos, pos + e.len() as int)[2 + i] == e[2 + i]);
                    }
                }
                lemma_subrange_split(s, p0, e1, e2);
                lemma_dec_commitment_proposal(s, p0, p@);
                lemma_dec_lp_bytes(s, p0 + e1.len(), sig@);
            },
            _ => {
            },
        },
        _ => {
        },
    }
}

/// One variant of the general-family round trip.
#[verifier::rlimit(100)]
#[verifier::spinoff_prover]
proof fn lemma_dec_cm_general_vote(s: Seq<u8>, pos: int, m: crate::message::ConsensusMessage)
    requires
        0 <= pos,
        spec_consensus_message_lens_ok(m),
        pos + spec_consensus_message_bytes(m).len() <= s.len(),
        s.subrange(pos, pos + spec_consensus_message_bytes(m).len())
            == spec_consensus_message_bytes(m),
        m matches crate::message::ConsensusMessage::General(g) && g is Vote,
    ensures
        spec_dec_consensus_message(s, pos) == Some(
            (m@, pos + spec_consensus_message_bytes(m).len()),
        ),
{
    let e = spec_consensus_message_bytes(m);
    assert(s[pos] == e[0] && s[pos + 1] == e[1]) by {
        assert(s.subrange(pos, pos + e.len() as int)[0] == e[0]);
        assert(s.subrange(pos, pos + e.len() as int)[1] == e[1]);
    }
    let p0 = pos + 2;
    match m {
        crate::message::ConsensusMessage::General(g) => match g {
            crate::message::GeneralConsensusMessage::Vote(v) => {
                let e1 = spec_quorum_vote_bytes(v);
                assert(e =~= seq![0u8, 1u8] + e1);
                assert(s.subrange(p0, p0 + e1.len() as int) =~= e1) by {
                    assert forall|i: int| 0 <= i < e1.len() implies #[trigger] s.subrange(
                        p0,
                        p0 + e1.len() as int,
                    )[i] == e1[i] by {
                        assert(s.subrange(pos, pos + e.len() as int)[2 + i] == e[2 + i]);
                    }
                }
                lemma_dec_quorum_vote(s, p0, v);
            },
            _ => {
            },
        },
        _ => {
        },
    }
}

/// One variant of the general-family round trip.
#[verifier::rlimit(100)]
#[verifier::spinoff_prover]
proof fn lemma_dec_cm_general_vs_vote(s: Seq<u8>, pos: int, m: crate::message::ConsensusMessage)
    requires
        0 <= pos,
        spec_consensus_message_lens_ok(m),
        pos + spec_consensus_message_bytes(m).len() <= s.len(),
        s.subrange(pos, pos + spec_consensus_message_bytes(m).len())
            == spec_consensus_message_bytes(m),
        m matches crate::message::ConsensusMessage::General(g) && g is ViewSyncVote,
    ensures
        spec_dec_consensus_message(s, pos) == Some(
            (m@, pos + spec_consensus_message_bytes(m).len()),
        ),
{
    let e = spec_consensus_message_bytes(m);
    assert(s[pos] == e[0] && s[pos + 1] == e[1]) by {
        assert(s.subrange(pos, pos + e.len() as int)[0] == e[0]);
        assert(s.subrange(pos, pos + e.len() as int)[1] == e[1]);
    }
    let p0 = pos + 2;
    match m {
        crate::message::ConsensusMessage::General(g) => match g {
            crate::message::GeneralConsensusMessage::ViewSyncVote(v) => {
                let e1 = spec_vs_vote_bytes(v);
                assert(e =~= seq![0u8, 2u8] + e1);
                assert(s.subrange(p0, p0 + e1.len() as int) =~= e1) by {
                    assert forall|i: int| 0 <= i < e1.len() implies #[trigger] s.subrange(
                        p0,
                        p0 + e1.len() as int,
                    )[i] == e1[i] by {
                        assert(s.subrange(pos, pos + e.len() as int)[2 + i] == e[2 + i]);
                    }
                }
                lemma_dec_vs_vote(s, p0, v);
            },
            _ => {
            },
        },
        _ => {
        },
    }
}

/// One variant of the general-family round trip.
#[verifier::rlimit(100)]
#[verifier::spinoff_prover]
proof fn lemma_dec_cm_general_vs_cert(s: Seq<u8>, pos: int, m: crate::message::ConsensusMessage)
    requires
        0 <= pos,
        spec_consensus_message_lens_ok(m),
        pos + spec_consensus_message_bytes(m).len() <= s.len(),
        s.subrange(pos, pos + spec_consensus_message_bytes(m).len())
            == spec_consensus_message_bytes(m),
        m matches crate::message::ConsensusMessage::General(g) && g is ViewSyncCertificate,
    ensures
        spec_dec_consensus_message(s, pos) == Some(
            (m@, pos + spec_consensus_message_bytes(m).len()),
        ),
{
    let e = spec_consensus_message_bytes(m);
    assert(s[pos] == e[0] && s[pos + 1] == e[1]) by {
        assert(s.subrange(pos, pos + e.len() as int)[0] == e[0]);
        assert(s.subrange(pos, pos + e.len() as int)[1] == e[1]);
    }
    let p0 = pos + 2;
    match m {
        crate::message::ConsensusMessage::General(g) => match g {
            crate::message::GeneralConsensusMessage::ViewSyncCertificate(c, sig) => {
                let e1 = spec_view_sync_cert_bytes(c@);
                let e2 = spec_lp_bytes(sig@);
                assert(e =~= seq![0u8, 3u8] + (e1 + e2));
                assert(s.subrange(p0, p0 + (e1 + e2).len() as int) =~= e1 + e2) by {
                    assert forall|i: int| 0 <= i < (e1 + e2).len() implies #[trigger] s.subrange(
                        p0,
                        p0 + (e1 + e2).len() as int,
                    )[i] == (e1 + e2)[i] by {
                        assert(s.subrange(pos, pos + e.len() as int)[2 + i] == e[2 + i]);
                    }
                }
                lemma_subrange_split(s, p0, e1, e2);
                lemma_dec_view_sync_cert(s, p0, c@);
                lemma_dec_lp_bytes(s, p0 + e1.len(), sig@);
            },
            _ => {
            },
        },
        _ => {
        },
    }
}

proof fn lemma_dec_consensus_message_body(s: Seq<u8>, pos: int, m: crate::message::ConsensusMessage)
    requires
        0 <= pos,
        spec_consensus_message_lens_ok(m),
        pos + spec_consensus_message_bytes(m).len() <= s.len(),
        s.subrange(pos, pos + spec_consensus_message_bytes(m).len())
            == spec_consensus_message_bytes(m),
        m is General,
    ensures
        spec_dec_consensus_message(s, pos) == Some(
            (m@, pos + spec_consensus_message_bytes(m).len()),
        ),
{
    match m {
        crate::message::ConsensusMessage::General(g) => match g {
            crate::message::GeneralConsensusMessage::Proposal(_, _) => {
                lemma_dec_cm_general_proposal(s, pos, m);
            },
            crate::message::GeneralConsensusMessage::Vote(_) => {
                lemma_dec_cm_general_vote(s, pos, m);
            },
            crate::message::GeneralConsensusMessage::ViewSyncVote(_) => {
                lemma_dec_cm_general_vs_vote(s, pos, m);
            },
            crate::message::GeneralConsensusMessage::ViewSyncCertificate(_, _) => {
                lemma_dec_cm_general_vs_cert(s, pos, m);
            },
        },
        _ => {
        },
    }
}


/// One variant of the committee-family round trip.
#[verifier::rlimit(100)]
#[verifier::spinoff_prover]
proof fn lemma_dec_cm_committee_da_proposal(s: Seq<u8>, pos: int, m: crate::message::ConsensusMessage)
    requires
        0 <= pos,
        spec_consensus_message_lens_ok(m),
        pos + spec_consensus_message_bytes(m).len() <= s.len(),
        s.subrange(pos, pos + spec_consensus_message_bytes(m).len())
            == spec_consensus_message_bytes(m),
        m matches crate::message::ConsensusMessage::Committee(c) && c is DAProposal,
    ensures
        spec_dec_consensus_message(s, pos) == Some(
            (m@, pos + spec_consensus_message_bytes(m).len()),
        ),
{
    let e = spec_consensus_message_bytes(m);
    assert(s[pos] == e[0] && s[pos + 1] == e[1]) by {
        assert(s.subrange(pos, pos + e.len() as int)[0] == e[0]);
        assert(s.subrange(pos, pos + e.len() as int)[1] == e[1]);
    }
    let p0 = pos + 2;
    match m {
        crate::message::ConsensusMessage::Committee(c) => match c {
            crate::message::CommitteeConsensusMessage::DAProposal(p, sig) => {
                let e1 = spec_da_proposal_bytes(p@);
                let e2 = spec_lp_bytes(sig@);
                assert(e =~= seq![1u8, 0u8] + (e1 + e2));
                assert(s.subrange(p0, p0 + (e1 + e2).len() as int) =~= e1 + e2) by {
                    assert forall|i: int| 0 <= i < (e1 + e2).len() implies #[trigger] s.subrange(
                        p0,
                        p0 + (e1 + e2).len() as int,
                    )[i] == (e1 + e2)[i] by {
                        assert(s.subrange(pos, pos + e.len() as int)[2 + i] == e[2 + i]);
                    }
                }
                lemma_subrange_split(s, p0, e1, e2);
                lemma_dec_da_proposal(s, p0, p@);
                lemma_dec_lp_bytes(s, p0 + e1.len(), sig@);
            },
            _ => {
            },
        },
        _ => {
        },
    }
}

/// One variant of the committee-family round trip.
#[verifier::rlimit(100)]
#[verifier::spinoff_prover]
proof fn lemma_dec_cm_committee_da_vote(s: Seq<u8>, pos: int, m: crate::message::ConsensusMessage)
    requires
        0 <= pos,
        spec_consensus_message_lens_ok(m),
        pos + spec_consensus_message_bytes(m).len() <= s.len(),
        s.subrange(pos, pos + spec_consensus_message_bytes(m).len())
            == spec_consensus_message_bytes(m),
        m matches crate::message::ConsensusMessage::Committee(c) && c is DAVote,
    ensures
        spec_dec_consensus_message(s, pos) == Some(
            (m@, pos + spec_consensus_message_bytes(m).len()),
        ),
{
    let e = spec_consensus_message_bytes(m);
    assert(s[pos] == e[0] && s[pos + 1] == e[1]) by {
        assert(s.subrange(pos, pos + e.len() as int)[0] == e[0]);
        assert(s.subrange(pos, pos + e.len() as int)[1] == e[1]);
    }
    let p0 = pos + 2;
    match m {
        crate::message::ConsensusMessage::Committee(c) => match c {
            crate::message::CommitteeConsensusMessage::DAVote(v) => {
                let e1 = spec_da_vote_bytes(v@, v.vote_data);
                assert(e =~= seq![1u8, 1u8] + e1);
                assert(s.subrange(p0, p0 + e1.len() as int) =~= e1) by {
                    assert forall|i: int| 0 <= i < e1.len() implies #[trigger] s.subrange(
                        p0,
                        p0 + e1.len() as int,
                    )[i] == e1[i] by {
                        assert(s.subrange(pos, pos + e.len() as int)[2 + i] == e[2 + i]);
                    }
                }
                lemma_dec_da_vote(s, p0, v@, v.vote_data);
            },
            _ => {
            },
        },
        _ => {
        },
    }
}

/// One variant of the committee-family round trip.
#[verifier::rlimit(100)]
#[verifier::spinoff_prover]
proof fn lemma_dec_cm_committee_da_cert(s: Seq<u8>, pos: int, m: crate::message::ConsensusMessage)
    requires
        0 <= pos,
        spec_consensus_message_lens_ok(m),
        pos + spec_consensus_message_bytes(m).len() <= s.len(),
        s.subrange(pos, pos + spec_consensus_message_bytes(m).len())
            == spec_consensus_message_bytes(m),
        m matches crate::message::ConsensusMessage::Committee(c) && c is DACertificate,
    ensures
        spec_dec_consensus_message(s, pos) == Some(
            (m@, pos + spec_consensus_message_bytes(m).len()),
        ),
{
    let e = spec_consensus_message_bytes(m);
    assert(s[pos] == e[0] && s[pos + 1] == e[1]) by {
        assert(s.subrange(pos, pos + e.len() as int)[0] == e[0]);
        assert(s.subrange(pos, pos + e.len() as int)[1] == e[1]);
    }
    let p0 = pos + 2;
    match m {
        crate::message::ConsensusMessage::Committee(c) => match c {
            crate::message::CommitteeConsensusMessage::DACertificate(cert) => {
                let e1 = spec_da_cert_bytes(cert@);
                assert(e =~= seq![1u8, 2u8] + e1);
                assert(s.subrange(p0, p0 + e1.len() as int) =~= e1) by {
                    assert forall|i: int| 0 <= i < e1.len() implies #[trigger] s.subrange(
                        p0,
                        p0 + e1.len() as int,
                    )[i] == e1[i] by {
                        assert(s.subrange(pos, pos + e.len() as int)[2 + i] == e[2 + i]);
                    }
                }
                lemma_dec_da_cert(s, p0, cert@);
            },
            _ => {
            },
        },
        _ => {
        },
    }
}

/// Committee-family helper for the wire-format round trip.
proof fn lemma_dec_consensus_message_committee(
    s: Seq<u8>,
    pos: int,
    m: crate::message::ConsensusMessage,
)
    requires
        0 <= pos,
        spec_consensus_message_lens_ok(m),
        pos + spec_consensus_message_bytes(m).len() <= s.len(),
        s.subrange(pos, pos + spec_consensus_message_bytes(m).len())
            == spec_consensus_message_bytes(m),
        m is Committee,
    ensures
        spec_dec_consensus_message(s, pos) == Some(
            (m@, pos + spec_consensus_message_bytes(m).len()),
        ),
{
    match m {
        crate::message::ConsensusMessage::Committee(c) => match c {
            crate::message::CommitteeConsensusMessage::DAProposal(_, _) => {
                lemma_dec_cm_committee_da_proposal(s, pos, m);
            },
            crate::message::CommitteeConsensusMessage::DAVote(_) => {
                lemma_dec_cm_committee_da_vote(s, pos, m);
            },
            crate::message::CommitteeConsensusMessage::DACertificate(_) => {
                lemma_dec_cm_committee_da_cert(s, pos, m);
            },
        },
        _ => {
        },
    }
}

/// The round trip of the wire format: a message encoded into a buffer
/// reads back as the same message.  Equality is preserved for every wire
/// message.
pub proof fn lemma_dec_consensus_message(s: Seq<u8>, pos: int, m: crate::message::ConsensusMessage)
    requires
        0 <= pos,
        spec_consensus_message_lens_ok(m),
        pos + spec_consensus_message_bytes(m).len() <= s.len(),
        s.subrange(pos, pos + spec_consensus_message_bytes(m).len())
            == spec_consensus_message_bytes(m),
    ensures
        spec_dec_consensus_message(s, pos) == Some(
            (m@, pos + spec_consensus_message_bytes(m).len()),
        ),
{
    match m {
        crate::message::ConsensusMessage::General(_) => {
            lemma_dec_consensus_message_body(s, pos, m);
        },
        crate::message::ConsensusMessage::Committee(_) => {
            lemma_dec_consensus_message_committee(s, pos, m);
        },
        crate::message::ConsensusMessage::Data(_) => {
            lemma_dec_consensus_message_data(s, pos, m);
        },
    }
}

/// Serialize a wire message into its canonical bytes.
pub fn encode_consensus_message(m: &crate::message::ConsensusMessage) -> (r: Vec<u8>)
    ensures
        r@ == spec_consensus_message_bytes(*m),
{
    let mut out: Vec<u8> = Vec::new();
    match m {
        crate::message::ConsensusMessage::General(g) => {
            out.push(0);
            match g {
                crate::message::GeneralConsensusMessage::Proposal(p, sig) => {
                    out.push(0);
                    let b = encode_commitment_proposal(p);
                    push_bytes(&mut out, &b);
                    push_u64_be(&mut out, sig.bytes.len() as u64);
                    push_bytes(&mut out, &sig.bytes);
                },
                crate::message::GeneralConsensusMessage::Vote(v) => {
                    out.push(1);
                    let b = encode_quorum_vote(v);
                    push_bytes(&mut out, &b);
                },
                crate::message::GeneralConsensusMessage::ViewSyncVote(v) => {
                    out.push(2);
                    let b = encode_vs_vote(v);
                    push_bytes(&mut out, &b);
                },
                crate::message::GeneralConsensusMessage::ViewSyncCertificate(c, sig) => {
                    out.push(3);
                    let b = c.as_bytes();
                    push_bytes(&mut out, &b);
                    push_u64_be(&mut out, sig.bytes.len() as u64);
                    push_bytes(&mut out, &sig.bytes);
                },
            }
        },
        crate::message::ConsensusMessage::Committee(c) => {
            out.push(1);
            match c {
                crate::message::CommitteeConsensusMessage::DAProposal(p, sig) => {
                    out.push(0);
                    let b = encode_da_proposal(p);
                    push_bytes(&mut out, &b);
                    push_u64_be(&mut out, sig.bytes.len() as u64);
                    push_bytes(&mut out, &sig.bytes);
                },
                crate::message::CommitteeConsensusMessage::DAVote(v) => {
                    out.push(1);
                    let b = encode_da_vote(v);
                    push_bytes(&mut out, &b);
                },
                crate::message::CommitteeConsensusMessage::DACertificate(cert) => {
                    out.push(2);
                    let b = encode_da_certificate(cert);
                    push_bytes(&mut out, &b);
                },
            }
        },
        crate::message::ConsensusMessage::Data(d) => {
            out.push(2);
            match d {
                crate::message::DataMessage::SubmitTransaction(tx, view) => {
                    out.push(0);
                    push_u64_be(&mut out, tx.payload.len() as u64);
                    push_bytes(&mut out, &tx.payload);
                    push_u64_be(&mut out, *view);
                },
            }
        },
    }
    assert(out@ =~= spec_consensus_message_bytes(*m));
    out
}

/// Read a wire message at `pos` from the buffer.
pub fn decode_consensus_message(bytes: &Vec<u8>, pos: usize) -> (r: Option<
    (crate::message::ConsensusMessage, usize),
>)
    ensures
        match r {
            Some((m, p)) => spec_dec_consensus_message(bytes@, pos as int) == Some(
                (m@, p as int),
            ),
            None => spec_dec_consensus_message(bytes@, pos as int) is None,
        },
{
    if pos >= bytes.len() || bytes.len() - pos < 2 {
        return None;
    }
    let family = bytes[pos];
    let kind = bytes[pos + 1];
    let p0 = pos + 2;
    if family == 0 {
        if kind == 0 {
            let (p, p1) = match decode_commitment_proposal(bytes, p0) {
                Some(x) => x,
                None => {
                    return None;
                },
            };
            let (sig, p2) = match dec_lp_bytes(bytes, p1) {
                Some(x) => x,
                None => {
                    return None;
                },
            };
            Some(
                (
                    crate::message::ConsensusMessage::General(
                        crate::message::GeneralConsensusMessage::Proposal(
                            p,
                            EncodedSignature { bytes: sig },
                        ),
                    ),
                    p2,
                ),
            )
        } else if kind == 1 {
            match decode_quorum_vote(bytes, p0) {
                Some((v, p1)) => Some(
                    (
                        crate::message::ConsensusMessage::General(
                            crate::message::GeneralConsensusMessage::Vote(v),
                        ),
                        p1,
                    ),
                ),
                None => None,
            }
        } else if kind == 2 {
            match decode_vs_vote(bytes, p0) {
                Some((v, p1)) => Some(
                    (
                        crate::message::ConsensusMessage::General(
                            crate::message::GeneralConsensusMessage::ViewSyncVote(v),
                        ),
                        p1,
                    ),
                ),
                None => None,
            }
        } else if kind == 3 {
            let (c, p1) = match decode_view_sync_certificate(bytes, p0) {
                Some(x) => x,
                None => {
                    return None;
                },
            };
            let (sig, p2) = match dec_lp_bytes(bytes, p1) {
                Some(x) => x,
                None => {
                    return None;
                },
            };
            Some(
                (
                    crate::message::ConsensusMessage::General(
                        crate::message::GeneralConsensusMessage::ViewSyncCertificate(
                            c,
                            EncodedSignature { bytes: sig },
                        ),
                    ),
                    p2,
                ),
            )
        } else {
            None
        }
    } else if family == 1 {
        if kind == 0 {
            let (p, p1) = match decode_da_proposal(bytes, p0) {
                Some(x) => x,
                None => {
                    return None;
                },
            };
            let (sig, p2) = match dec_lp_bytes(bytes, p1) {
                Some(x) => x,
                None => {
                    return None;
                },
            };
            Some(
                (
                    crate::message::ConsensusMessage::Committee(
                        crate::message::CommitteeConsensusMessage::DAProposal(
                            p,
                            EncodedSignature { bytes: sig },
                        ),
                    ),
                    p2,
                ),
            )
        } else if kind == 1 {
            match decode_da_vote(bytes, p0) {
                Some((v, p1)) => Some(
                    (
                        crate::message::ConsensusMessage::Committee(
                            crate::message::CommitteeConsensusMessage::DAVote(v),
                        ),
                        p1,
                    ),
                ),
                None => None,
            }
        } else if kind == 2 {
            match decode_da_certificate(bytes, p0) {
                Some((c, p1)) => Some(
                    (
                        crate::message::ConsensusMessage::Committee(
                            crate::message::CommitteeConsensusMessage::DACertificate(c),
                        ),
                        p1,
                    ),
                ),
                None => None,
            }
        } else {
            None
        }
    } else if family == 2 && kind == 0 {
        let (tx, p1) = match dec_lp_bytes(bytes, p0) {
            Some(x) => x,
            None => {
                return None;
            },
        };
        let (view, p2) = match dec_u64(bytes, p1) {
            Some(x) => x,
            None => {
                return None;
            },
        };
        Some(
            (
                crate::message::ConsensusMessage::Data(
                    crate::message::DataMessage::SubmitTransaction(
                        crate::data::Transaction { payload: tx },
                        view,
                    ),
                ),
                p2,
            ),
        )
    } else {
        None
    }
}

} // verus!
