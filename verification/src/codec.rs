//! Canonical byte codecs for what travels or is hashed: length-prefixed
//! fields, aggregate and assembled signatures, vote data, certificates,
//! blocks and leaves.  Every decoder is exact — it returns precisely the
//! value whose encoding starts at the given offset — and decoding an
//! encoding returns the value unchanged.

use vstd::prelude::*;

use crate::certificate::{
    spec_aggregate_bytes, spec_assembled_kind_byte, spec_assembled_pairs, spec_pair_bytes,
    spec_pairs_bytes, spec_serialize_signature, spec_view_sync_cert_bytes, AssembledSignature,
    AssembledSignatureView, QuorumCertificate, QuorumCertificateView, ViewSyncCertificate,
    ViewSyncCertificateInternal, ViewSyncCertificateInternalView, ViewSyncCertificateView,
    serialize_signature,
};
use crate::commitment::Commitment;
use crate::election::{
    spec_vote_data_bytes, spec_vote_data_inner, spec_vote_data_phase_byte, VoteData,
};
use crate::signature::{
    AggregateSignature, EncodedPublicKey, EncodedSignature, SignaturePair, SignaturePairView,
};
use crate::wire::{
    lemma_u64_be_bytes_roundtrip, push_bytes, push_u64_be, read_u64_be, spec_u64_from_be_bytes,
    spec_u64_to_be_bytes,
};

verus! {

/// A length-prefixed byte field: the length, then the bytes.
pub open spec fn spec_lp_bytes(b: Seq<u8>) -> Seq<u8> {
    spec_u64_to_be_bytes(b.len() as u64) + b
}

/// Read a 64-bit integer at `pos`; `None` past the end.
pub open spec fn spec_dec_u64(s: Seq<u8>, pos: int) -> Option<(u64, int)> {
    if 0 <= pos && pos + 8 <= s.len() {
        Some((spec_u64_from_be_bytes(s.subrange(pos, pos + 8)), pos + 8))
    } else {
        None
    }
}

/// Read a length-prefixed byte field at `pos`.
pub open spec fn spec_dec_lp_bytes(s: Seq<u8>, pos: int) -> Option<(Seq<u8>, int)> {
    match spec_dec_u64(s, pos) {
        None => None,
        Some((n, p)) => {
            if p + n <= s.len() {
                Some((s.subrange(p, p + n), p + n))
            } else {
                None
            }
        },
    }
}

/// An integer encoded into a larger buffer reads back unchanged.
pub proof fn lemma_dec_u64(s: Seq<u8>, pos: int, x: u64)
    requires
        0 <= pos,
        pos + 8 <= s.len(),
        s.subrange(pos, pos + 8) == spec_u64_to_be_bytes(x),
    ensures
        spec_dec_u64(s, pos) == Some((x, pos + 8)),
{
    lemma_u64_be_bytes_roundtrip(x);
}

/// A length-prefixed field encoded into a larger buffer reads back
/// unchanged.
pub proof fn lemma_dec_lp_bytes(s: Seq<u8>, pos: int, b: Seq<u8>)
    requires
        0 <= pos,
        b.len() <= u64::MAX,
        pos + spec_lp_bytes(b).len() <= s.len(),
        s.subrange(pos, pos + spec_lp_bytes(b).len()) == spec_lp_bytes(b),
    ensures
        spec_dec_lp_bytes(s, pos) == Some((b, pos + spec_lp_bytes(b).len())),
{
    let e = spec_lp_bytes(b);
    assert(s.subrange(pos, pos + 8) =~= spec_u64_to_be_bytes(b.len() as u64)) by {
        assert forall|i: int| 0 <= i < 8 implies #[trigger] s.subrange(pos, pos + 8)[i]
            == spec_u64_to_be_bytes(b.len() as u64)[i] by {
            assert(s.subrange(pos, pos + e.len() as int)[i] == e[i]);
        }
    }
    lemma_dec_u64(s, pos, b.len() as u64);
    assert(s.subrange(pos + 8, pos + 8 + b.len()) =~= b) by {
        assert forall|i: int| 0 <= i < b.len() implies #[trigger] s.subrange(
            pos + 8,
            pos + 8 + b.len() as int,
        )[i] == b[i] by {
            assert(s.subrange(pos, pos + e.len() as int)[8 + i] == e[8 + i]);
        }
    }
}

/// Read a 64-bit integer at `pos` from the buffer.
pub fn dec_u64(bytes: &Vec<u8>, pos: usize) -> (r: Option<(u64, usize)>)
    ensures
        match r {
            Some((x, p)) => spec_dec_u64(bytes@, pos as int) == Some((x, p as int)),
            None => spec_dec_u64(bytes@, pos as int) is None,
        },
{
    if pos < bytes.len() && bytes.len() - pos >= 8 {
        let x = read_u64_be(bytes, pos);
        Some((x, pos + 8))
    } else if pos == bytes.len() {
        None
    } else {
        None
    }
}

/// Read a length-prefixed byte field at `pos` from the buffer.
pub fn dec_lp_bytes(bytes: &Vec<u8>, pos: usize) -> (r: Option<(Vec<u8>, usize)>)
    ensures
        match r {
            Some((b, p)) => spec_dec_lp_bytes(bytes@, pos as int) == Some((b@, p as int)),
            None => spec_dec_lp_bytes(bytes@, pos as int) is None,
        },
{
    let (n, p) = match dec_u64(bytes, pos) {
        Some(pair) => pair,
        None => {
            return None;
        },
    };
    if n > (bytes.len() - p) as u64 {
        return None;
    }
    let count = n as usize;
    let total = bytes.len();
    let mut out: Vec<u8> = Vec::new();
    let mut i: usize = 0;
    while i < count
        invariant
            total == bytes@.len(),
            p + count <= total,
            i <= count,
            out@ =~= bytes@.subrange(p as int, p + i),
        decreases count - i,
    {
        out.push(bytes[p + i]);
        i = i + 1;
        assert(out@ =~= bytes@.subrange(p as int, p + i));
    }
    Some((out, p + count))
}

/// Decoder-friendly lengths: every key and signature fits the length
/// prefix.
pub open spec fn spec_pairs_lens_ok(pairs: Seq<SignaturePairView>) -> bool {
    &&& pairs.len() <= u64::MAX
    &&& forall|i: int|
        0 <= i < pairs.len() ==> (#[trigger] pairs[i]).key.len() <= u64::MAX
            && pairs[i].signature.len() <= u64::MAX
}

/// Read one signer's contribution at `pos`.
pub open spec fn spec_dec_pair(s: Seq<u8>, pos: int) -> Option<(SignaturePairView, int)> {
    match spec_dec_lp_bytes(s, pos) {
        None => None,
        Some((key, p1)) => match spec_dec_lp_bytes(s, p1) {
            None => None,
            Some((signature, p2)) => Some((SignaturePairView { key, signature }, p2)),
        },
    }
}

/// Read `count` contributions at `pos`.
pub open spec fn spec_dec_pairs(s: Seq<u8>, pos: int, count: int) -> Option<
    (Seq<SignaturePairView>, int),
>
    decreases count,
{
    if count <= 0 {
        Some((Seq::<SignaturePairView>::empty(), pos))
    } else {
        match spec_dec_pair(s, pos) {
            None => None,
            Some((pair, p1)) => match spec_dec_pairs(s, p1, count - 1) {
                None => None,
                Some((rest, p2)) => Some((seq![pair] + rest, p2)),
            },
        }
    }
}

/// Read an aggregate signature — the signer count then the
/// contributions — at `pos`.
pub open spec fn spec_dec_aggregate(s: Seq<u8>, pos: int) -> Option<(Seq<SignaturePairView>, int)> {
    match spec_dec_u64(s, pos) {
        None => None,
        Some((count, p)) => spec_dec_pairs(s, p, count as int),
    }
}

/// Read an assembled signature — the kind byte, then, for the signed
/// kinds, the aggregate — at `pos`.
pub open spec fn spec_dec_assembled(s: Seq<u8>, pos: int) -> Option<(AssembledSignatureView, int)> {
    if 0 <= pos < s.len() {
        let kind = s[pos];
        if kind == 3 {
            Some((AssembledSignatureView::Genesis, pos + 1))
        } else if kind <= 6 {
            match spec_dec_aggregate(s, pos + 1) {
                None => None,
                Some((pairs, p)) => Some(
                    (
                        if kind == 0 {
                            AssembledSignatureView::Yes(pairs)
                        } else if kind == 1 {
                            AssembledSignatureView::No(pairs)
                        } else if kind == 2 {
                            AssembledSignatureView::DA(pairs)
                        } else if kind == 4 {
                            AssembledSignatureView::ViewSyncPreCommit(pairs)
                        } else if kind == 5 {
                            AssembledSignatureView::ViewSyncCommit(pairs)
                        } else {
                            AssembledSignatureView::ViewSyncFinalize(pairs)
                        },
                        p,
                    ),
                ),
            }
        } else {
            None
        }
    } else {
        None
    }
}

/// The byte list of contributions decodes in order from the front.
pub proof fn lemma_pairs_bytes_head(pairs: Seq<SignaturePairView>)
    requires
        pairs.len() > 0,
    ensures
        spec_pairs_bytes(pairs) == spec_pair_bytes(pairs.first()) + spec_pairs_bytes(
            pairs.drop_first(),
        ),
    decreases pairs.len(),
{
    if pairs.len() == 1 {
        assert(pairs.drop_last() =~= Seq::<SignaturePairView>::empty());
        assert(pairs.drop_first() =~= Seq::<SignaturePairView>::empty());
        assert(spec_pairs_bytes(pairs) =~= spec_pair_bytes(pairs.first()) + spec_pairs_bytes(
            pairs.drop_first(),
        ));
    } else {
        lemma_pairs_bytes_head(pairs.drop_last());
        assert(pairs.drop_last().first() == pairs.first());
        assert(pairs.drop_last().drop_first() =~= pairs.drop_first().drop_last());
        assert(pairs.drop_first().last() == pairs.last());
        assert(spec_pairs_bytes(pairs) =~= spec_pair_bytes(pairs.first()) + spec_pairs_bytes(
            pairs.drop_first(),
        ));
    }
}

/// One contribution encoded into a larger buffer reads back unchanged.
pub proof fn lemma_dec_pair(s: Seq<u8>, pos: int, pair: SignaturePairView)
    requires
        0 <= pos,
        pair.key.len() <= u64::MAX,
        pair.signature.len() <= u64::MAX,
        pos + spec_pair_bytes(pair).len() <= s.len(),
        s.subrange(pos, pos + spec_pair_bytes(pair).len()) == spec_pair_bytes(pair),
    ensures
        spec_dec_pair(s, pos) == Some((pair, pos + spec_pair_bytes(pair).len())),
{
    let e = spec_pair_bytes(pair);
    let e1 = spec_lp_bytes(pair.key);
    let e2 = spec_lp_bytes(pair.signature);
    assert(e =~= e1 + e2);
    assert(s.subrange(pos, pos + e1.len() as int) =~= e1) by {
        assert forall|i: int| 0 <= i < e1.len() implies #[trigger] s.subrange(
            pos,
            pos + e1.len() as int,
        )[i] == e1[i] by {
            assert(s.subrange(pos, pos + e.len() as int)[i] == e[i]);
        }
    }
    lemma_dec_lp_bytes(s, pos, pair.key);
    let p1 = pos + e1.len();
    assert(s.subrange(p1, p1 + e2.len() as int) =~= e2) by {
        assert forall|i: int| 0 <= i < e2.len() implies #[trigger] s.subrange(
            p1,
            p1 + e2.len() as int,
        )[i] == e2[i] by {
            assert(s.subrange(pos, pos + e.len() as int)[e1.len() + i] == e[e1.len() + i]);
        }
    }
    lemma_dec_lp_bytes(s, p1, pair.signature);
}

/// A list of contributions encoded into a larger buffer reads back
/// unchanged.
pub proof fn lemma_dec_pairs(s: Seq<u8>, pos: int, pairs: Seq<SignaturePairView>)
    requires
        0 <= pos,
        spec_pairs_lens_ok(pairs),
        pos + spec_pairs_bytes(pairs).len() <= s.len(),
        s.subrange(pos, pos + spec_pairs_bytes(pairs).len()) == spec_pairs_bytes(pairs),
    ensures
        spec_dec_pairs(s, pos, pairs.len() as int) == Some(
            (pairs, pos + spec_pairs_bytes(pairs).len()),
        ),
    decreases pairs.len(),
{
    if pairs.len() == 0 {
        assert(spec_dec_pairs(s, pos, 0) == Some((Seq::<SignaturePairView>::empty(), pos)));
        assert(pairs =~= Seq::<SignaturePairView>::empty());
    } else {
        lemma_pairs_bytes_head(pairs);
        let e = spec_pairs_bytes(pairs);
        let e1 = spec_pair_bytes(pairs.first());
        let e2 = spec_pairs_bytes(pairs.drop_first());
        assert(e == e1 + e2);
        assert(s.subrange(pos, pos + e1.len() as int) =~= e1) by {
            assert forall|i: int| 0 <= i < e1.len() implies #[trigger] s.subrange(
                pos,
                pos + e1.len() as int,
            )[i] == e1[i] by {
                assert(s.subrange(pos, pos + e.len() as int)[i] == e[i]);
            }
        }
        assert(pairs.first().key.len() <= u64::MAX && pairs.first().signature.len() <= u64::MAX)
            by {
            assert(pairs[0] == pairs.first());
        }
        lemma_dec_pair(s, pos, pairs.first());
        let p1 = pos + e1.len();
        assert(s.subrange(p1, p1 + e2.len() as int) =~= e2) by {
            assert forall|i: int| 0 <= i < e2.len() implies #[trigger] s.subrange(
                p1,
                p1 + e2.len() as int,
            )[i] == e2[i] by {
                assert(s.subrange(pos, pos + e.len() as int)[e1.len() + i] == e[e1.len() + i]);
            }
        }
        assert(spec_pairs_lens_ok(pairs.drop_first())) by {
            assert forall|i: int| 0 <= i < pairs.drop_first().len() implies (
            #[trigger] pairs.drop_first()[i]).key.len() <= u64::MAX
                && pairs.drop_first()[i].signature.len() <= u64::MAX by {
                assert(pairs.drop_first()[i] == pairs[i + 1]);
            }
        }
        lemma_dec_pairs(s, p1, pairs.drop_first());
        assert(seq![pairs.first()] + pairs.drop_first() =~= pairs);
    }
}

/// An aggregate encoded into a larger buffer reads back unchanged.
pub proof fn lemma_dec_aggregate(s: Seq<u8>, pos: int, pairs: Seq<SignaturePairView>)
    requires
        0 <= pos,
        spec_pairs_lens_ok(pairs),
        pos + spec_aggregate_bytes(pairs).len() <= s.len(),
        s.subrange(pos, pos + spec_aggregate_bytes(pairs).len()) == spec_aggregate_bytes(pairs),
    ensures
        spec_dec_aggregate(s, pos) == Some((pairs, pos + spec_aggregate_bytes(pairs).len())),
{
    let e = spec_aggregate_bytes(pairs);
    let e1 = spec_u64_to_be_bytes(pairs.len() as u64);
    let e2 = spec_pairs_bytes(pairs);
    assert(e == e1 + e2);
    assert(s.subrange(pos, pos + 8) =~= e1) by {
        assert forall|i: int| 0 <= i < 8 implies #[trigger] s.subrange(pos, pos + 8)[i]
            == e1[i] by {
            assert(s.subrange(pos, pos + e.len() as int)[i] == e[i]);
        }
    }
    lemma_dec_u64(s, pos, pairs.len() as u64);
    let p1 = pos + 8;
    assert(s.subrange(p1, p1 + e2.len() as int) =~= e2) by {
        assert forall|i: int| 0 <= i < e2.len() implies #[trigger] s.subrange(
            p1,
            p1 + e2.len() as int,
        )[i] == e2[i] by {
            assert(s.subrange(pos, pos + e.len() as int)[8 + i] == e[8 + i]);
        }
    }
    lemma_dec_pairs(s, p1, pairs);
}

/// An assembled signature encoded into a larger buffer reads back
/// unchanged.
pub proof fn lemma_dec_assembled(s: Seq<u8>, pos: int, a: AssembledSignatureView)
    requires
        0 <= pos,
        spec_pairs_lens_ok(spec_assembled_pairs(a)),
        pos + spec_serialize_signature(a).len() <= s.len(),
        s.subrange(pos, pos + spec_serialize_signature(a).len()) == spec_serialize_signature(a),
    ensures
        spec_dec_assembled(s, pos) == Some((a, pos + spec_serialize_signature(a).len())),
{
    let e = spec_serialize_signature(a);
    assert(s[pos] == e[0]) by {
        assert(s.subrange(pos, pos + e.len() as int)[0] == e[0]);
    }
    assert(s[pos] == spec_assembled_kind_byte(a));
    if a is Genesis {
    } else {
        let pairs = spec_assembled_pairs(a);
        let e2 = spec_aggregate_bytes(pairs);
        assert(e == seq![spec_assembled_kind_byte(a)] + e2);
        let p1 = pos + 1;
        assert(s.subrange(p1, p1 + e2.len() as int) =~= e2) by {
            assert forall|i: int| 0 <= i < e2.len() implies #[trigger] s.subrange(
                p1,
                p1 + e2.len() as int,
            )[i] == e2[i] by {
                assert(s.subrange(pos, pos + e.len() as int)[1 + i] == e[1 + i]);
            }
        }
        lemma_dec_aggregate(s, p1, pairs);
    }
}

/// Read one signer's contribution at `pos` from the buffer.
pub fn dec_pair(bytes: &Vec<u8>, pos: usize) -> (r: Option<(SignaturePair, usize)>)
    ensures
        match r {
            Some((pair, p)) => spec_dec_pair(bytes@, pos as int) == Some((pair@, p as int)),
            None => spec_dec_pair(bytes@, pos as int) is None,
        },
{
    let (key, p1) = match dec_lp_bytes(bytes, pos) {
        Some(pair) => pair,
        None => {
            return None;
        },
    };
    let (signature, p2) = match dec_lp_bytes(bytes, p1) {
        Some(pair) => pair,
        None => {
            return None;
        },
    };
    Some(
        (
            SignaturePair {
                key: EncodedPublicKey { bytes: key },
                signature: EncodedSignature { bytes: signature },
            },
            p2,
        ),
    )
}

/// Read `count` contributions at `pos` from the buffer.
pub fn dec_pairs(bytes: &Vec<u8>, pos: usize, count: u64) -> (r: Option<(Vec<SignaturePair>, usize)>)
    ensures
        match r {
            Some((pairs, p)) => spec_dec_pairs(bytes@, pos as int, count as int) == Some(
                (pairs@.map_values(|q: SignaturePair| q@), p as int),
            ),
            None => spec_dec_pairs(bytes@, pos as int, count as int) is None,
        },
    decreases count,
{
    if count == 0 {
        let out: Vec<SignaturePair> = Vec::new();
        assert(out@.map_values(|q: SignaturePair| q@) =~= Seq::<SignaturePairView>::empty());
        return Some((out, pos));
    }
    let (pair, p1) = match dec_pair(bytes, pos) {
        Some(x) => x,
        None => {
            return None;
        },
    };
    let (mut rest, p2) = match dec_pairs(bytes, p1, count - 1) {
        Some(x) => x,
        None => {
            return None;
        },
    };
    let ghost pair_view = pair@;
    let ghost rest_views = rest@.map_values(|q: SignaturePair| q@);
    rest.insert(0, pair);
    proof {
        assert(rest@.map_values(|q: SignaturePair| q@) =~= seq![pair_view] + rest_views);
    }
    Some((rest, p2))
}

/// Read an aggregate signature at `pos` from the buffer.
pub fn dec_aggregate(bytes: &Vec<u8>, pos: usize) -> (r: Option<(AggregateSignature, usize)>)
    ensures
        match r {
            Some((agg, p)) => spec_dec_aggregate(bytes@, pos as int) == Some((agg@, p as int)),
            None => spec_dec_aggregate(bytes@, pos as int) is None,
        },
{
    let (count, p1) = match dec_u64(bytes, pos) {
        Some(x) => x,
        None => {
            return None;
        },
    };
    match dec_pairs(bytes, p1, count) {
        Some((entries, p2)) => Some((AggregateSignature { entries }, p2)),
        None => None,
    }
}

/// Read an assembled signature at `pos` from the buffer.
pub fn dec_assembled(bytes: &Vec<u8>, pos: usize) -> (r: Option<(AssembledSignature, usize)>)
    ensures
        match r {
            Some((a, p)) => spec_dec_assembled(bytes@, pos as int) == Some((a@, p as int)),
            None => spec_dec_assembled(bytes@, pos as int) is None,
        },
{
    if pos >= bytes.len() {
        return None;
    }
    let kind = bytes[pos];
    if kind == 3 {
        return Some((AssembledSignature::Genesis(), pos + 1));
    }
    if kind > 6 {
        return None;
    }
    let (agg, p) = match dec_aggregate(bytes, pos + 1) {
        Some(x) => x,
        None => {
            return None;
        },
    };
    let a = if kind == 0 {
        AssembledSignature::Yes(agg)
    } else if kind == 1 {
        AssembledSignature::No(agg)
    } else if kind == 2 {
        AssembledSignature::DA(agg)
    } else if kind == 4 {
        AssembledSignature::ViewSyncPreCommit(agg)
    } else if kind == 5 {
        AssembledSignature::ViewSyncCommit(agg)
    } else {
        AssembledSignature::ViewSyncFinalize(agg)
    };
    Some((a, p))
}

/// Read vote data — the phase byte and the inner commitment — at `pos`.
pub open spec fn spec_dec_vote_data(s: Seq<u8>, pos: int) -> Option<((u8, Seq<u8>), int)> {
    if 0 <= pos < s.len() {
        let phase = s[pos];
        if phase <= 6 {
            match spec_dec_lp_bytes(s, pos + 1) {
                None => None,
                Some((inner, p)) => Some(((phase, inner), p)),
            }
        } else {
            None
        }
    } else {
        None
    }
}

/// Vote data encoded into a larger buffer reads back unchanged: the
/// canonical bytes pin the phase and the inner commitment.
pub proof fn lemma_dec_vote_data(s: Seq<u8>, pos: int, v: VoteData)
    requires
        0 <= pos,
        spec_vote_data_inner(v).len() <= u64::MAX,
        pos + spec_vote_data_bytes(v).len() <= s.len(),
        s.subrange(pos, pos + spec_vote_data_bytes(v).len()) == spec_vote_data_bytes(v),
    ensures
        spec_dec_vote_data(s, pos) == Some(
            ((spec_vote_data_phase_byte(v), spec_vote_data_inner(v)), pos + spec_vote_data_bytes(
                v,
            ).len()),
        ),
{
    let e = spec_vote_data_bytes(v);
    let inner = spec_vote_data_inner(v);
    assert(s[pos] == e[0]) by {
        assert(s.subrange(pos, pos + e.len() as int)[0] == e[0]);
    }
    let e2 = spec_lp_bytes(inner);
    assert(e =~= seq![spec_vote_data_phase_byte(v)] + e2);
    let p1 = pos + 1;
    assert(s.subrange(p1, p1 + e2.len() as int) =~= e2) by {
        assert forall|i: int| 0 <= i < e2.len() implies #[trigger] s.subrange(
            p1,
            p1 + e2.len() as int,
        )[i] == e2[i] by {
            assert(s.subrange(pos, pos + e.len() as int)[1 + i] == e[1 + i]);
        }
    }
    lemma_dec_lp_bytes(s, p1, inner);
}

/// Read vote data at `pos` from the buffer.
pub fn decode_vote_data(bytes: &Vec<u8>, pos: usize) -> (r: Option<(VoteData, usize)>)
    ensures
        match r {
            Some((v, p)) => spec_dec_vote_data(bytes@, pos as int) == Some(
                ((spec_vote_data_phase_byte(v), spec_vote_data_inner(v)), p as int),
            ),
            None => spec_dec_vote_data(bytes@, pos as int) is None,
        },
{
    if pos >= bytes.len() {
        return None;
    }
    let phase = bytes[pos];
    if phase > 6 {
        return None;
    }
    let (inner, p) = match dec_lp_bytes(bytes, pos + 1) {
        Some(x) => x,
        None => {
            return None;
        },
    };
    let commitment = Commitment { bytes: inner };
    let v = if phase == 0 {
        VoteData::DA(commitment)
    } else if phase == 1 {
        VoteData::Yes(commitment)
    } else if phase == 2 {
        VoteData::No(commitment)
    } else if phase == 3 {
        VoteData::Timeout(commitment)
    } else if phase == 4 {
        VoteData::ViewSyncPreCommit(commitment)
    } else if phase == 5 {
        VoteData::ViewSyncCommit(commitment)
    } else {
        VoteData::ViewSyncFinalize(commitment)
    };
    Some((v, p))
}

/// Read a view-sync certificate — phase, relay, round, signatures — at
/// `pos`.
pub open spec fn spec_dec_view_sync_cert(s: Seq<u8>, pos: int) -> Option<
    (ViewSyncCertificateView, int),
> {
    if 0 <= pos < s.len() {
        let phase = s[pos];
        if phase <= 2 {
            match spec_dec_u64(s, pos + 1) {
                None => None,
                Some((relay, p1)) => match spec_dec_u64(s, p1) {
                    None => None,
                    Some((round, p2)) => match spec_dec_assembled(s, p2) {
                        None => None,
                        Some((signatures, p3)) => {
                            let internal = ViewSyncCertificateInternalView {
                                relay,
                                round,
                                signatures,
                            };
                            Some(
                                (
                                    if phase == 0 {
                                        ViewSyncCertificateView::PreCommit(internal)
                                    } else if phase == 1 {
                                        ViewSyncCertificateView::Commit(internal)
                                    } else {
                                        ViewSyncCertificateView::Finalize(internal)
                                    },
                                    p3,
                                ),
                            )
                        },
                    },
                },
            }
        } else {
            None
        }
    } else {
        None
    }
}

/// A view-sync certificate encoded into a larger buffer reads back
/// unchanged.
pub proof fn lemma_dec_view_sync_cert(s: Seq<u8>, pos: int, c: ViewSyncCertificateView)
    requires
        0 <= pos,
        spec_pairs_lens_ok(
            spec_assembled_pairs(crate::certificate::spec_view_sync_cert_internal(c).signatures),
        ),
        pos + spec_view_sync_cert_bytes(c).len() <= s.len(),
        s.subrange(pos, pos + spec_view_sync_cert_bytes(c).len()) == spec_view_sync_cert_bytes(c),
    ensures
        spec_dec_view_sync_cert(s, pos) == Some((c, pos + spec_view_sync_cert_bytes(c).len())),
{
    let e = spec_view_sync_cert_bytes(c);
    let internal = crate::certificate::spec_view_sync_cert_internal(c);
    let e1 = spec_u64_to_be_bytes(internal.relay);
    let e2 = spec_u64_to_be_bytes(internal.round);
    let e3 = spec_serialize_signature(internal.signatures);
    assert(s[pos] == e[0]) by {
        assert(s.subrange(pos, pos + e.len() as int)[0] == e[0]);
    }
    assert(e =~= seq![crate::certificate::spec_view_sync_phase_byte(c)] + e1 + e2 + e3);
    let p1 = pos + 1;
    assert(s.subrange(p1, p1 + 8) =~= e1) by {
        assert forall|i: int| 0 <= i < 8 implies #[trigger] s.subrange(p1, p1 + 8)[i]
            == e1[i] by {
            assert(s.subrange(pos, pos + e.len() as int)[1 + i] == e[1 + i]);
        }
    }
    lemma_dec_u64(s, p1, internal.relay);
    let p2 = p1 + 8;
    assert(s.subrange(p2, p2 + 8) =~= e2) by {
        assert forall|i: int| 0 <= i < 8 implies #[trigger] s.subrange(p2, p2 + 8)[i]
            == e2[i] by {
            assert(s.subrange(pos, pos + e.len() as int)[9 + i] == e[9 + i]);
        }
    }
    lemma_dec_u64(s, p2, internal.round);
    let p3 = p2 + 8;
    assert(s.subrange(p3, p3 + e3.len() as int) =~= e3) by {
        assert forall|i: int| 0 <= i < e3.len() implies #[trigger] s.subrange(
            p3,
            p3 + e3.len() as int,
        )[i] == e3[i] by {
            assert(s.subrange(pos, pos + e.len() as int)[17 + i] == e[17 + i]);
        }
    }
    lemma_dec_assembled(s, p3, internal.signatures);
}

/// Read a view-sync certificate at `pos` from the buffer.
pub fn decode_view_sync_certificate(bytes: &Vec<u8>, pos: usize) -> (r: Option<
    (ViewSyncCertificate, usize),
>)
    ensures
        match r {
            Some((c, p)) => spec_dec_view_sync_cert(bytes@, pos as int) == Some((c@, p as int)),
            None => spec_dec_view_sync_cert(bytes@, pos as int) is None,
        },
{
    if pos >= bytes.len() {
        return None;
    }
    let phase = bytes[pos];
    if phase > 2 {
        return None;
    }
    let (relay, p1) = match dec_u64(bytes, pos + 1) {
        Some(x) => x,
        None => {
            return None;
        },
    };
    let (round, p2) = match dec_u64(bytes, p1) {
        Some(x) => x,
        None => {
            return None;
        },
    };
    let (signatures, p3) = match dec_assembled(bytes, p2) {
        Some(x) => x,
        None => {
            return None;
        },
    };
    let internal = ViewSyncCertificateInternal { relay, round, signatures };
    let c = if phase == 0 {
        ViewSyncCertificate::PreCommit(internal)
    } else if phase == 1 {
        ViewSyncCertificate::Commit(internal)
    } else {
        ViewSyncCertificate::Finalize(internal)
    };
    Some((c, p3))
}

/// The canonical bytes of a quorum certificate: the leaf commitment
/// length-prefixed, the view, the serialised signatures, and the genesis
/// flag.
pub open spec fn spec_qc_bytes(qc: QuorumCertificateView) -> Seq<u8> {
    spec_lp_bytes(qc.leaf_commitment) + spec_u64_to_be_bytes(qc.view_number)
        + spec_serialize_signature(qc.signatures) + seq![
        if qc.is_genesis {
            1u8
        } else {
            0u8
        },
    ]
}

/// Serialize a quorum certificate into its canonical bytes.
pub fn encode_quorum_certificate(qc: &QuorumCertificate) -> (r: Vec<u8>)
    ensures
        r@ == spec_qc_bytes(qc@),
{
    let mut out: Vec<u8> = Vec::new();
    push_u64_be(&mut out, qc.leaf_commitment.bytes.len() as u64);
    push_bytes(&mut out, &qc.leaf_commitment.bytes);
    push_u64_be(&mut out, qc.view_number);
    let signature_bytes = serialize_signature(&qc.signatures);
    push_bytes(&mut out, &signature_bytes);
    out.push(if qc.is_genesis {
        1
    } else {
        0
    });
    assert(out@ =~= spec_qc_bytes(qc@));
    out
}

/// Read a quorum certificate at `pos`.
pub open spec fn spec_dec_qc(s: Seq<u8>, pos: int) -> Option<(QuorumCertificateView, int)> {
    match spec_dec_lp_bytes(s, pos) {
        None => None,
        Some((leaf_commitment, p1)) => match spec_dec_u64(s, p1) {
            None => None,
            Some((view_number, p2)) => match spec_dec_assembled(s, p2) {
                None => None,
                Some((signatures, p3)) => {
                    if p3 < s.len() && (s[p3] == 0 || s[p3] == 1) {
                        Some(
                            (
                                QuorumCertificateView {
                                    leaf_commitment,
                                    view_number,
                                    signatures,
                                    is_genesis: s[p3] == 1,
                                },
                                p3 + 1,
                            ),
                        )
                    } else {
                        None
                    }
                },
            },
        },
    }
}

/// A quorum certificate encoded into a larger buffer reads back
/// unchanged.
pub proof fn lemma_dec_qc(s: Seq<u8>, pos: int, qc: QuorumCertificateView)
    requires
        0 <= pos,
        qc.leaf_commitment.len() <= u64::MAX,
        spec_pairs_lens_ok(spec_assembled_pairs(qc.signatures)),
        pos + spec_qc_bytes(qc).len() <= s.len(),
        s.subrange(pos, pos + spec_qc_bytes(qc).len()) == spec_qc_bytes(qc),
    ensures
        spec_dec_qc(s, pos) == Some((qc, pos + spec_qc_bytes(qc).len())),
{
    let e = spec_qc_bytes(qc);
    let e1 = spec_lp_bytes(qc.leaf_commitment);
    let e2 = spec_u64_to_be_bytes(qc.view_number);
    let e3 = spec_serialize_signature(qc.signatures);
    assert(s.subrange(pos, pos + e1.len() as int) =~= e1) by {
        assert forall|i: int| 0 <= i < e1.len() implies #[trigger] s.subrange(
            pos,
            pos + e1.len() as int,
        )[i] == e1[i] by {
            assert(s.subrange(pos, pos + e.len() as int)[i] == e[i]);
        }
    }
    lemma_dec_lp_bytes(s, pos, qc.leaf_commitment);
    let p1 = pos + e1.len();
    assert(s.subrange(p1, p1 + 8) =~= e2) by {
        assert forall|i: int| 0 <= i < 8 implies #[trigger] s.subrange(p1, p1 + 8)[i]
            == e2[i] by {
            assert(s.subrange(pos, pos + e.len() as int)[e1.len() + i] == e[e1.len() + i]);
        }
    }
    lemma_dec_u64(s, p1, qc.view_number);
    let p2 = p1 + 8;
    assert(s.subrange(p2, p2 + e3.len() as int) =~= e3) by {
        assert forall|i: int| 0 <= i < e3.len() implies #[trigger] s.subrange(
            p2,
            p2 + e3.len() as int,
        )[i] == e3[i] by {
            assert(s.subrange(pos, pos + e.len() as int)[e1.len() + 8 + i] == e[e1.len() + 8
                + i]);
        }
    }
    lemma_dec_assembled(s, p2, qc.signatures);
    let p3 = p2 + e3.len();
    assert(s[p3] == e[e.len() - 1]) by {
        assert(s.subrange(pos, pos + e.len() as int)[e.len() - 1] == e[e.len() - 1]);
    }
}

/// Read a quorum certificate at `pos` from the buffer.
pub fn decode_quorum_certificate(bytes: &Vec<u8>, pos: usize) -> (r: Option<
    (QuorumCertificate, usize),
>)
    ensures
        match r {
            Some((qc, p)) => spec_dec_qc(bytes@, pos as int) == Some((qc@, p as int)),
            None => spec_dec_qc(bytes@, pos as int) is None,
        },
{
    let (leaf, p1) = match dec_lp_bytes(bytes, pos) {
        Some(x) => x,
        None => {
            return None;
        },
    };
    let (view_number, p2) = match dec_u64(bytes, p1) {
        Some(x) => x,
        None => {
            return None;
        },
    };
    let (signatures, p3) = match dec_assembled(bytes, p2) {
        Some(x) => x,
        None => {
            return None;
        },
    };
    if p3 >= bytes.len() {
        return None;
    }
    let flag = bytes[p3];
    if flag > 1 {
        return None;
    }
    Some(
        (
            QuorumCertificate {
                leaf_commitment: Commitment { bytes: leaf },
                view_number,
                signatures,
                is_genesis: flag == 1,
            },
            p3 + 1,
        ),
    )
}

/// A buffer slice equal to a concatenation splits into slices equal to
/// the parts.
pub proof fn lemma_subrange_split(s: Seq<u8>, pos: int, a: Seq<u8>, b: Seq<u8>)
    requires
        0 <= pos,
        pos + a.len() + b.len() <= s.len(),
        s.subrange(pos, pos + a.len() + b.len()) == a + b,
    ensures
        s.subrange(pos, pos + a.len() as int) == a,
        s.subrange(pos + a.len(), pos + a.len() + b.len()) == b,
{
    assert(s.subrange(pos, pos + a.len() as int) =~= a) by {
        assert forall|i: int| 0 <= i < a.len() implies #[trigger] s.subrange(
            pos,
            pos + a.len() as int,
        )[i] == a[i] by {
            assert(s.subrange(pos, pos + a.len() + b.len())[i] == (a + b)[i]);
        }
    }
    assert(s.subrange(pos + a.len(), pos + a.len() + b.len()) =~= b) by {
        assert forall|i: int| 0 <= i < b.len() implies #[trigger] s.subrange(
            pos + a.len(),
            pos + a.len() + b.len(),
        )[i] == b[i] by {
            assert(s.subrange(pos, pos + a.len() + b.len())[a.len() + i] == (a + b)[a.len() + i]);
            assert(s.subrange(pos, pos + a.len() + b.len())[a.len() + i] == s[pos + a.len() + i]);
            assert(s.subrange(pos + a.len(), pos + a.len() + b.len())[i] == s[pos + a.len() + i]);
        }
    }
}

/// The byte list of length-prefixed payloads, in order.
pub open spec fn spec_payloads_bytes(payloads: Seq<Seq<u8>>) -> Seq<u8>
    decreases payloads.len(),
{
    if payloads.len() == 0 {
        Seq::<u8>::empty()
    } else {
        spec_payloads_bytes(payloads.drop_last()) + spec_lp_bytes(payloads.last())
    }
}

/// A payload list: the count, then each payload length-prefixed.
pub open spec fn spec_payload_list_bytes(payloads: Seq<Seq<u8>>) -> Seq<u8> {
    spec_u64_to_be_bytes(payloads.len() as u64) + spec_payloads_bytes(payloads)
}

/// Decoder-friendly payload lengths.
pub open spec fn spec_payload_lens_ok(payloads: Seq<Seq<u8>>) -> bool {
    &&& payloads.len() <= u64::MAX
    &&& forall|i: int| 0 <= i < payloads.len() ==> (#[trigger] payloads[i]).len() <= u64::MAX
}

/// The payload list bytes decode in order from the front.
pub proof fn lemma_payloads_bytes_head(payloads: Seq<Seq<u8>>)
    requires
        payloads.len() > 0,
    ensures
        spec_payloads_bytes(payloads) == spec_lp_bytes(payloads.first()) + spec_payloads_bytes(
            payloads.drop_first(),
        ),
    decreases payloads.len(),
{
    if payloads.len() == 1 {
        assert(payloads.drop_last() =~= Seq::<Seq<u8>>::empty());
        assert(payloads.drop_first() =~= Seq::<Seq<u8>>::empty());
        assert(spec_payloads_bytes(payloads) =~= spec_lp_bytes(payloads.first())
            + spec_payloads_bytes(payloads.drop_first()));
    } else {
        lemma_payloads_bytes_head(payloads.drop_last());
        assert(payloads.drop_last().first() == payloads.first());
        assert(payloads.drop_last().drop_first() =~= payloads.drop_first().drop_last());
        assert(payloads.drop_first().last() == payloads.last());
        assert(spec_payloads_bytes(payloads) =~= spec_lp_bytes(payloads.first())
            + spec_payloads_bytes(payloads.drop_first()));
    }
}

/// Read `count` length-prefixed payloads at `pos`.
pub open spec fn spec_dec_payloads(s: Seq<u8>, pos: int, count: int) -> Option<(Seq<Seq<u8>>, int)>
    decreases count,
{
    if count <= 0 {
        Some((Seq::<Seq<u8>>::empty(), pos))
    } else {
        match spec_dec_lp_bytes(s, pos) {
            None => None,
            Some((payload, p1)) => match spec_dec_payloads(s, p1, count - 1) {
                None => None,
                Some((rest, p2)) => Some((seq![payload] + rest, p2)),
            },
        }
    }
}

/// Read a payload list — the count then the payloads — at `pos`.
pub open spec fn spec_dec_payload_list(s: Seq<u8>, pos: int) -> Option<(Seq<Seq<u8>>, int)> {
    match spec_dec_u64(s, pos) {
        None => None,
        Some((count, p)) => spec_dec_payloads(s, p, count as int),
    }
}

/// Payloads encoded into a larger buffer read back unchanged.
pub proof fn lemma_dec_payloads(s: Seq<u8>, pos: int, payloads: Seq<Seq<u8>>)
    requires
        0 <= pos,
        spec_payload_lens_ok(payloads),
        pos + spec_payloads_bytes(payloads).len() <= s.len(),
        s.subrange(pos, pos + spec_payloads_bytes(payloads).len()) == spec_payloads_bytes(
            payloads,
        ),
    ensures
        spec_dec_payloads(s, pos, payloads.len() as int) == Some(
            (payloads, pos + spec_payloads_bytes(payloads).len()),
        ),
    decreases payloads.len(),
{
    if payloads.len() == 0 {
        assert(payloads =~= Seq::<Seq<u8>>::empty());
    } else {
        lemma_payloads_bytes_head(payloads);
        let e1 = spec_lp_bytes(payloads.first());
        let e2 = spec_payloads_bytes(payloads.drop_first());
        lemma_subrange_split(s, pos, e1, e2);
        assert(payloads[0] == payloads.first());
        lemma_dec_lp_bytes(s, pos, payloads.first());
        assert(spec_payload_lens_ok(payloads.drop_first())) by {
            assert forall|i: int| 0 <= i < payloads.drop_first().len() implies (
            #[trigger] payloads.drop_first()[i]).len() <= u64::MAX by {
                assert(payloads.drop_first()[i] == payloads[i + 1]);
            }
        }
        lemma_dec_payloads(s, pos + e1.len(), payloads.drop_first());
        assert(seq![payloads.first()] + payloads.drop_first() =~= payloads);
    }
}

/// A payload list encoded into a larger buffer reads back unchanged.
pub proof fn lemma_dec_payload_list(s: Seq<u8>, pos: int, payloads: Seq<Seq<u8>>)
    requires
        0 <= pos,
        spec_payload_lens_ok(payloads),
        pos + spec_payload_list_bytes(payloads).len() <= s.len(),
        s.subrange(pos, pos + spec_payload_list_bytes(payloads).len()) == spec_payload_list_bytes(
            payloads,
        ),
    ensures
        spec_dec_payload_list(s, pos) == Some(
            (payloads, pos + spec_payload_list_bytes(payloads).len()),
        ),
{
    let e1 = spec_u64_to_be_bytes(payloads.len() as u64);
    let e2 = spec_payloads_bytes(payloads);
    lemma_subrange_split(s, pos, e1, e2);
    lemma_dec_u64(s, pos, payloads.len() as u64);
    lemma_dec_payloads(s, pos + 8, payloads);
}

/// Append a payload list — transactions as their payloads — to `out`.
pub fn push_payload_list(out: &mut Vec<u8>, transactions: &Vec<crate::data::Transaction>)
    ensures
        final(out)@ == old(out)@ + spec_payload_list_bytes(
            transactions@.map_values(|t: crate::data::Transaction| t@),
        ),
{
    let ghost payloads = transactions@.map_values(|t: crate::data::Transaction| t@);
    push_u64_be(out, transactions.len() as u64);
    let ghost base = out@;
    let mut i: usize = 0;
    while i < transactions.len()
        invariant
            payloads == transactions@.map_values(|t: crate::data::Transaction| t@),
            i <= payloads.len(),
            out@ == base + spec_payloads_bytes(payloads.take(i as int)),
        decreases payloads.len() - i,
    {
        proof {
            assert(payloads[i as int] == transactions@[i as int]@);
        }
        push_u64_be(out, transactions[i].payload.len() as u64);
        push_bytes(out, &transactions[i].payload);
        i = i + 1;
        proof {
            let taken = payloads.take(i as int);
            assert(taken.drop_last() =~= payloads.take(i - 1));
            assert(taken.last() == payloads[i - 1]);
            assert(out@ =~= base + spec_payloads_bytes(taken));
        }
    }
    proof {
        assert(payloads.take(payloads.len() as int) =~= payloads);
        assert(out@ =~= old(out)@ + spec_payload_list_bytes(payloads));
    }
}

/// Read a payload list at `pos` from the buffer, as transactions.
pub fn decode_payload_list(bytes: &Vec<u8>, pos: usize) -> (r: Option<
    (Vec<crate::data::Transaction>, usize),
>)
    ensures
        match r {
            Some((txns, p)) => spec_dec_payload_list(bytes@, pos as int) == Some(
                (txns@.map_values(|t: crate::data::Transaction| t@), p as int),
            ),
            None => spec_dec_payload_list(bytes@, pos as int) is None,
        },
{
    let (count, p1) = match dec_u64(bytes, pos) {
        Some(x) => x,
        None => {
            return None;
        },
    };
    match decode_payloads(bytes, p1, count) {
        Some((txns, p2)) => Some((txns, p2)),
        None => None,
    }
}

/// Read `count` payloads at `pos` from the buffer, as transactions.
fn decode_payloads(bytes: &Vec<u8>, pos: usize, count: u64) -> (r: Option<
    (Vec<crate::data::Transaction>, usize),
>)
    ensures
        match r {
            Some((txns, p)) => spec_dec_payloads(bytes@, pos as int, count as int) == Some(
                (txns@.map_values(|t: crate::data::Transaction| t@), p as int),
            ),
            None => spec_dec_payloads(bytes@, pos as int, count as int) is None,
        },
    decreases count,
{
    if count == 0 {
        let out: Vec<crate::data::Transaction> = Vec::new();
        assert(out@.map_values(|t: crate::data::Transaction| t@) =~= Seq::<Seq<u8>>::empty());
        return Some((out, pos));
    }
    let (payload, p1) = match dec_lp_bytes(bytes, pos) {
        Some(x) => x,
        None => {
            return None;
        },
    };
    let (mut rest, p2) = match decode_payloads(bytes, p1, count - 1) {
        Some(x) => x,
        None => {
            return None;
        },
    };
    let ghost head = payload@;
    let ghost rest_views = rest@.map_values(|t: crate::data::Transaction| t@);
    rest.insert(0, crate::data::Transaction { payload });
    proof {
        assert(rest@.map_values(|t: crate::data::Transaction| t@) =~= seq![head] + rest_views);
    }
    Some((rest, p2))
}

/// The canonical bytes of a leaf's state field: materialised state or
/// sealed commitment, tagged apart.
pub open spec fn spec_leaf_state_bytes(state: crate::data::LeafStateView) -> Seq<u8> {
    match state {
        crate::data::LeafStateView::Full(s) => seq![0u8] + spec_u64_to_be_bytes(s.height)
            + spec_lp_bytes(s.last_block_commitment),
        crate::data::LeafStateView::Sealed(c) => seq![1u8] + spec_lp_bytes(c),
    }
}

/// The canonical bytes of a leaf: view, height, the justifying
/// certificate, the parent commitment, the block, the state, the
/// rejected transactions, the timestamp, and the proposer.
pub open spec fn spec_leaf_bytes(l: crate::data::LeafView) -> Seq<u8> {
    spec_u64_to_be_bytes(l.view_number) + (spec_u64_to_be_bytes(l.height) + (spec_qc_bytes(
        l.justify_qc,
    ) + (spec_lp_bytes(l.parent_commitment) + (spec_payload_list_bytes(l.deltas)
        + (spec_leaf_state_bytes(l.state) + (spec_payload_list_bytes(l.rejected)
        + (spec_u64_to_be_bytes(l.timestamp) + spec_lp_bytes(l.proposer_id))))))))
}

/// Decoder-friendly lengths throughout a leaf.
pub open spec fn spec_leaf_lens_ok(l: crate::data::LeafView) -> bool {
    &&& l.justify_qc.leaf_commitment.len() <= u64::MAX
    &&& spec_pairs_lens_ok(spec_assembled_pairs(l.justify_qc.signatures))
    &&& l.parent_commitment.len() <= u64::MAX
    &&& spec_payload_lens_ok(l.deltas)
    &&& spec_payload_lens_ok(l.rejected)
    &&& l.proposer_id.len() <= u64::MAX
    &&& match l.state {
        crate::data::LeafStateView::Full(s) => s.last_block_commitment.len() <= u64::MAX,
        crate::data::LeafStateView::Sealed(c) => c.len() <= u64::MAX,
    }
}

/// Read a leaf's state field at `pos`.
pub open spec fn spec_dec_leaf_state(s: Seq<u8>, pos: int) -> Option<
    (crate::data::LeafStateView, int),
> {
    if 0 <= pos < s.len() {
        if s[pos] == 0 {
            match spec_dec_u64(s, pos + 1) {
                None => None,
                Some((height, p1)) => match spec_dec_lp_bytes(s, p1) {
                    None => None,
                    Some((last, p2)) => Some(
                        (
                            crate::data::LeafStateView::Full(
                                crate::data::StateView { height, last_block_commitment: last },
                            ),
                            p2,
                        ),
                    ),
                },
            }
        } else if s[pos] == 1 {
            match spec_dec_lp_bytes(s, pos + 1) {
                None => None,
                Some((c, p1)) => Some((crate::data::LeafStateView::Sealed(c), p1)),
            }
        } else {
            None
        }
    } else {
        None
    }
}

/// A leaf state encoded into a larger buffer reads back unchanged.
pub proof fn lemma_dec_leaf_state(s: Seq<u8>, pos: int, state: crate::data::LeafStateView)
    requires
        0 <= pos,
        match state {
            crate::data::LeafStateView::Full(sv) => sv.last_block_commitment.len() <= u64::MAX,
            crate::data::LeafStateView::Sealed(c) => c.len() <= u64::MAX,
        },
        pos + spec_leaf_state_bytes(state).len() <= s.len(),
        s.subrange(pos, pos + spec_leaf_state_bytes(state).len()) == spec_leaf_state_bytes(state),
    ensures
        spec_dec_leaf_state(s, pos) == Some((state, pos + spec_leaf_state_bytes(state).len())),
{
    let e = spec_leaf_state_bytes(state);
    assert(s[pos] == e[0]) by {
        assert(s.subrange(pos, pos + e.len() as int)[0] == e[0]);
    }
    match state {
        crate::data::LeafStateView::Full(sv) => {
            let e1 = spec_u64_to_be_bytes(sv.height);
            let e2 = spec_lp_bytes(sv.last_block_commitment);
            assert(s.subrange(pos + 1, pos + e.len() as int) =~= e1 + e2) by {
                assert forall|i: int| 0 <= i < (e1 + e2).len() implies #[trigger] s.subrange(
                    pos + 1,
                    pos + e.len() as int,
                )[i] == (e1 + e2)[i] by {
                    assert(s.subrange(pos, pos + e.len() as int)[1 + i] == e[1 + i]);
                }
            }
            lemma_subrange_split(s, pos + 1, e1, e2);
            lemma_dec_u64(s, pos + 1, sv.height);
            lemma_dec_lp_bytes(s, pos + 1 + 8, sv.last_block_commitment);
        },
        crate::data::LeafStateView::Sealed(c) => {
            let e1 = spec_lp_bytes(c);
            assert(s.subrange(pos + 1, pos + e.len() as int) =~= e1) by {
                assert forall|i: int| 0 <= i < e1.len() implies #[trigger] s.subrange(
                    pos + 1,
                    pos + e.len() as int,
                )[i] == e1[i] by {
                    assert(s.subrange(pos, pos + e.len() as int)[1 + i] == e[1 + i]);
                }
            }
            lemma_dec_lp_bytes(s, pos + 1, c);
        },
    }
}

/// Read a leaf at `pos`.
pub open spec fn spec_dec_leaf(s: Seq<u8>, pos: int) -> Option<(crate::data::LeafView, int)> {
    match spec_dec_u64(s, pos) {
        None => None,
        Some((view_number, p1)) => match spec_dec_u64(s, p1) {
            None => None,
            Some((height, p2)) => match spec_dec_qc(s, p2) {
                None => None,
                Some((justify_qc, p3)) => match spec_dec_lp_bytes(s, p3) {
                    None => None,
                    Some((parent_commitment, p4)) => match spec_dec_payload_list(s, p4) {
                        None => None,
                        Some((deltas, p5)) => match spec_dec_leaf_state(s, p5) {
                            None => None,
                            Some((state, p6)) => match spec_dec_payload_list(s, p6) {
                                None => None,
                                Some((rejected, p7)) => match spec_dec_u64(s, p7) {
                                    None => None,
                                    Some((timestamp, p8)) => match spec_dec_lp_bytes(s, p8) {
                                        None => None,
                                        Some((proposer_id, p9)) => Some(
                                            (
                                                crate::data::LeafView {
                                                    view_number,
                                                    height,
                                                    justify_qc,
                                                    parent_commitment,
                                                    deltas,
                                                    state,
                                                    rejected,
                                                    timestamp,
                                                    proposer_id,
                                                },
                                                p9,
                                            ),
                                        ),
                                    },
                                },
                            },
                        },
                    },
                },
            },
        },
    }
}

/// A leaf encoded into a larger buffer reads back unchanged — so in
/// particular the commitment of a leaf is stable under encoding and
/// decoding.
#[verifier::rlimit(100)]
#[verifier::spinoff_prover]
pub proof fn lemma_dec_leaf(s: Seq<u8>, pos: int, l: crate::data::LeafView)
    requires
        0 <= pos,
        spec_leaf_lens_ok(l),
        pos + spec_leaf_bytes(l).len() <= s.len(),
        s.subrange(pos, pos + spec_leaf_bytes(l).len()) == spec_leaf_bytes(l),
    ensures
        spec_dec_leaf(s, pos) == Some((l, pos + spec_leaf_bytes(l).len())),
{
    let e1 = spec_u64_to_be_bytes(l.view_number);
    let e2 = spec_u64_to_be_bytes(l.height);
    let e3 = spec_qc_bytes(l.justify_qc);
    let e4 = spec_lp_bytes(l.parent_commitment);
    let e5 = spec_payload_list_bytes(l.deltas);
    let e6 = spec_leaf_state_bytes(l.state);
    let e7 = spec_payload_list_bytes(l.rejected);
    let e8 = spec_u64_to_be_bytes(l.timestamp);
    let e9 = spec_lp_bytes(l.proposer_id);
    let r9 = e9;
    let r8 = e8 + r9;
    let r7 = e7 + r8;
    let r6 = e6 + r7;
    let r5 = e5 + r6;
    let r4 = e4 + r5;
    let r3 = e3 + r4;
    let r2 = e2 + r3;
    assert(spec_leaf_bytes(l) == e1 + r2);
    lemma_subrange_split(s, pos, e1, r2);
    lemma_dec_u64(s, pos, l.view_number);
    let p1 = pos + e1.len();
    lemma_subrange_split(s, p1, e2, r3);
    lemma_dec_u64(s, p1, l.height);
    let p2 = p1 + e2.len();
    lemma_subrange_split(s, p2, e3, r4);
    lemma_dec_qc(s, p2, l.justify_qc);
    let p3 = p2 + e3.len();
    lemma_subrange_split(s, p3, e4, r5);
    lemma_dec_lp_bytes(s, p3, l.parent_commitment);
    let p4 = p3 + e4.len();
    lemma_subrange_split(s, p4, e5, r6);
    lemma_dec_payload_list(s, p4, l.deltas);
    let p5 = p4 + e5.len();
    lemma_subrange_split(s, p5, e6, r7);
    lemma_dec_leaf_state(s, p5, l.state);
    let p6 = p5 + e6.len();
    lemma_subrange_split(s, p6, e7, r8);
    lemma_dec_payload_list(s, p6, l.rejected);
    let p7 = p6 + e7.len();
    lemma_subrange_split(s, p7, e8, r9);
    lemma_dec_u64(s, p7, l.timestamp);
    let p8 = p7 + 8;
    lemma_dec_lp_bytes(s, p8, l.proposer_id);
}

/// Serialize a leaf into its canonical bytes.
#[verifier::rlimit(100)]
#[verifier::spinoff_prover]
pub fn encode_leaf(leaf: &crate::data::Leaf) -> (r: Vec<u8>)
    ensures
        r@ == spec_leaf_bytes(leaf@),
{
    let mut out: Vec<u8> = Vec::new();
    push_u64_be(&mut out, leaf.view_number);
    push_u64_be(&mut out, leaf.height);
    let qc_bytes = encode_quorum_certificate(&leaf.justify_qc);
    push_bytes(&mut out, &qc_bytes);
    push_u64_be(&mut out, leaf.parent_commitment.bytes.len() as u64);
    push_bytes(&mut out, &leaf.parent_commitment.bytes);
    push_payload_list(&mut out, &leaf.deltas.transactions);
    match &leaf.state {
        crate::Either::Left(state) => {
            out.push(0);
            push_u64_be(&mut out, state.height);
            push_u64_be(&mut out, state.last_block_commitment.bytes.len() as u64);
            push_bytes(&mut out, &state.last_block_commitment.bytes);
        },
        crate::Either::Right(c) => {
            out.push(1);
            push_u64_be(&mut out, c.bytes.len() as u64);
            push_bytes(&mut out, &c.bytes);
        },
    }
    push_payload_list(&mut out, &leaf.rejected);
    push_u64_be(&mut out, leaf.timestamp);
    push_u64_be(&mut out, leaf.proposer_id.bytes.len() as u64);
    push_bytes(&mut out, &leaf.proposer_id.bytes);
    assert(out@ =~= spec_leaf_bytes(leaf@));
    out
}

/// Read a leaf at `pos` from the buffer.
pub fn decode_leaf(bytes: &Vec<u8>, pos: usize) -> (r: Option<(crate::data::Leaf, usize)>)
    ensures
        match r {
            Some((l, p)) => spec_dec_leaf(bytes@, pos as int) == Some((l@, p as int)),
            None => spec_dec_leaf(bytes@, pos as int) is None,
        },
{
    let (view_number, p1) = match dec_u64(bytes, pos) {
        Some(x) => x,
        None => {
            return None;
        },
    };
    let (height, p2) = match dec_u64(bytes, p1) {
        Some(x) => x,
        None => {
            return None;
        },
    };
    let (justify_qc, p3) = match decode_quorum_certificate(bytes, p2) {
        Some(x) => x,
        None => {
            return None;
        },
    };
    let (parent, p4) = match dec_lp_bytes(bytes, p3) {
        Some(x) => x,
        None => {
            return None;
        },
    };
    let (transactions, p5) = match decode_payload_list(bytes, p4) {
        Some(x) => x,
        None => {
            return None;
        },
    };
    if p5 >= bytes.len() {
        return None;
    }
    let state_tag = bytes[p5];
    let (state, p6): (crate::Either<crate::data::State, Commitment>, usize) = if state_tag == 0 {
        let (state_height, q1) = match dec_u64(bytes, p5 + 1) {
            Some(x) => x,
            None => {
                return None;
            },
        };
        let (last, q2) = match dec_lp_bytes(bytes, q1) {
            Some(x) => x,
            None => {
                return None;
            },
        };
        (
            crate::Either::Left(
                crate::data::State {
                    height: state_height,
                    last_block_commitment: Commitment { bytes: last },
                },
            ),
            q2,
        )
    } else if state_tag == 1 {
        let (c, q1) = match dec_lp_bytes(bytes, p5 + 1) {
            Some(x) => x,
            None => {
                return None;
            },
        };
        (crate::Either::Right(Commitment { bytes: c }), q1)
    } else {
        return None;
    };
    let (rejected, p7) = match decode_payload_list(bytes, p6) {
        Some(x) => x,
        None => {
            return None;
        },
    };
    let (timestamp, p8) = match dec_u64(bytes, p7) {
        Some(x) => x,
        None => {
            return None;
        },
    };
    let (proposer, p9) = match dec_lp_bytes(bytes, p8) {
        Some(x) => x,
        None => {
            return None;
        },
    };
    let leaf = crate::data::Leaf {
        view_number,
        height,
        justify_qc,
        parent_commitment: Commitment { bytes: parent },
        deltas: crate::data::Block { transactions },
        state,
        rejected,
        timestamp,
        proposer_id: EncodedPublicKey { bytes: proposer },
    };
    Some((leaf, p9))
}

} // verus!
