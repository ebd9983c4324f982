//! The per-view vote accumulator: folds individual signatures with their
//! stake, keyed by the commitment each vote names, and emits an assembled
//! signature once a commitment's stake reaches the threshold.
//!
//! Votes for different commitments (an equivocating leader) are tracked
//! separately and never combined.  Within one commitment the votes are
//! kept sorted by signer, so the assembled signature depends only on the
//! set of votes that arrived, not on their order.

use vstd::prelude::*;
use vstd::seq_lib::group_to_multiset_ensures;

use crate::certificate::{AssembledSignature, AssembledSignatureView};
use crate::Either;
use crate::commitment::{
    spec_tag_da_block, spec_tag_no_vote, spec_tag_timeout_vote, spec_tag_view_sync_commit,
    spec_tag_view_sync_finalize, spec_tag_view_sync_precommit, spec_tag_yes_vote, Commitment,
};
use crate::election::{
    spec_vote_data_commit, spec_vote_data_phase_byte, StaticVoteToken, VoteData,
};
use crate::signature::{
    spec_check, spec_check_aggregate, spec_encoded_key, spec_has_signer_bytes, spec_pairs_valid,
    spec_signed_stake, spec_stake_of, spec_table_wf, AggregateSignature, EncodedPublicKey,
    EncodedSignature, SignaturePair, SignaturePairView, StakeTableEntry,
};
use crate::signature::lemma_signed_stake_le_total;
use crate::wire::lemma_u64_be_bytes_roundtrip;

verus! {

broadcast use group_to_multiset_ensures, vstd::multiset::group_multiset_axioms;

/// One vote as the accumulator takes it: already validated by the
/// exchange, with the signer's decoded key number alongside the encoded
/// key.
pub struct AccumulatorVote {
    /// The commitment this vote is keyed on.
    pub commitment: Commitment,
    /// The signer's key number, as decoded from `key`.
    pub signer_id: u64,
    /// The signer's encoded public key.
    pub key: EncodedPublicKey,
    /// The signature over the vote data's tagged commitment.
    pub signature: EncodedSignature,
    /// The vote token proving the signer's weight.
    pub token: StaticVoteToken,
    /// What was voted on, tagged by phase.
    pub data: VoteData,
}

/// The mathematical value of an [`AccumulatorVote`].
pub struct AccumulatorVoteView {
    /// The commitment this vote is keyed on.
    pub commitment: Seq<u8>,
    /// The signer's key number.
    pub signer_id: u64,
    /// The signer's encoded public key.
    pub key: Seq<u8>,
    /// The signature over the vote data's tagged commitment.
    pub signature: Seq<u8>,
    /// The vote token proving the signer's weight.
    pub token: StaticVoteToken,
    /// The phase byte of the vote data.
    pub phase: u8,
    /// The tagged commitment the signature covers.
    pub vote_commit: Seq<u8>,
}

impl View for AccumulatorVote {
    type V = AccumulatorVoteView;

    open spec fn view(&self) -> AccumulatorVoteView {
        AccumulatorVoteView {
            commitment: self.commitment@,
            signer_id: self.signer_id,
            key: self.key@,
            signature: self.signature@,
            token: self.token,
            phase: spec_vote_data_phase_byte(self.data),
            vote_commit: spec_vote_data_commit(self.data),
        }
    }
}

/// The tagged commitment signed for phase byte `phase` over commitment
/// bytes `c`: the matching domain tag followed by `c`.
pub open spec fn spec_phase_commit(phase: u8, c: Seq<u8>) -> Seq<u8> {
    if phase == 0 {
        spec_tag_da_block() + c
    } else if phase == 1 {
        spec_tag_yes_vote() + c
    } else if phase == 2 {
        spec_tag_no_vote() + c
    } else if phase == 3 {
        spec_tag_timeout_vote() + c
    } else if phase == 4 {
        spec_tag_view_sync_precommit() + c
    } else if phase == 5 {
        spec_tag_view_sync_commit() + c
    } else {
        spec_tag_view_sync_finalize() + c
    }
}

/// A vote the accumulator may take: the encoded key matches the signer
/// number, the signature checks over the vote's own tagged commitment,
/// and the token carries exactly the signer's table stake.
pub open spec fn spec_vote_admissible(table: Seq<StakeTableEntry>, v: AccumulatorVoteView) -> bool {
    &&& v.key == spec_encoded_key(v.signer_id)
    &&& v.vote_commit == spec_phase_commit(v.phase, v.commitment)
    &&& spec_check(v.signer_id, v.vote_commit, v.signature)
    &&& v.token.count == spec_stake_of(table, v.signer_id)
    &&& v.token.count >= 1
    &&& v.phase <= 6
}

/// The views of a list of votes.
pub open spec fn spec_votes_views(votes: Seq<AccumulatorVote>) -> Seq<AccumulatorVoteView> {
    votes.map_values(|v: AccumulatorVote| v@)
}

/// The signature pairs of a list of vote views, in the same order.
pub open spec fn spec_pairs_of(views: Seq<AccumulatorVoteView>) -> Seq<SignaturePairView> {
    views.map_values(|v: AccumulatorVoteView| SignaturePairView { key: v.key, signature: v.signature })
}

/// Whether the views are strictly ascending by signer number.
pub open spec fn spec_strictly_sorted(views: Seq<AccumulatorVoteView>) -> bool {
    forall|i: int, j: int|
        0 <= i < j < views.len() ==> (#[trigger] views[i]).signer_id < (#[trigger] views[j]).signer_id
}

/// Whether some view in `views` is signed by `id`.
pub open spec fn spec_votes_have_signer(views: Seq<AccumulatorVoteView>, id: u64) -> bool {
    exists|i: int| 0 <= i < views.len() && (#[trigger] views[i]).signer_id == id
}

/// The votes collected so far for one commitment.
pub struct CommitmentVotes {
    /// The commitment these votes name.
    pub commitment: Commitment,
    /// The phase byte all these votes share.
    pub phase: u8,
    /// The votes, strictly ascending by signer number.
    pub votes: Vec<AccumulatorVote>,
    /// The stake cast on this commitment so far.
    pub stake_casted: u64,
}

/// The mathematical value of a [`CommitmentVotes`].
pub struct CommitmentVotesView {
    /// The commitment these votes name.
    pub commitment: Seq<u8>,
    /// The phase byte all these votes share.
    pub phase: u8,
    /// The votes, strictly ascending by signer number.
    pub votes: Seq<AccumulatorVoteView>,
    /// The stake cast on this commitment so far.
    pub stake_casted: u64,
}

impl View for CommitmentVotes {
    type V = CommitmentVotesView;

    open spec fn view(&self) -> CommitmentVotesView {
        CommitmentVotesView {
            commitment: self.commitment@,
            phase: self.phase,
            votes: spec_votes_views(self.votes@),
            stake_casted: self.stake_casted,
        }
    }
}

/// Well-formedness of one commitment's votes against a stake table: every
/// vote is admissible, names this commitment in this phase, the list is
/// strictly sorted by signer, and the cast stake is exactly the signers'
/// stake in the table.
pub open spec fn spec_entry_wf(table: Seq<StakeTableEntry>, e: CommitmentVotesView) -> bool {
    &&& forall|i: int|
        0 <= i < e.votes.len() ==> {
            &&& spec_vote_admissible(table, #[trigger] e.votes[i])
            &&& e.votes[i].commitment == e.commitment
            &&& e.votes[i].phase == e.phase
        }
    &&& spec_strictly_sorted(e.votes)
    &&& e.stake_casted == spec_signed_stake(table, spec_pairs_of(e.votes))
}

/// Votes accumulated so far and the same multiset of votes accumulated in
/// any other order end in the same entry: strict sortedness by signer
/// leaves only one arrangement, so the assembled signature a certificate
/// is built from does not depend on arrival order.
pub proof fn lemma_accumulator_order_independent(
    table: Seq<StakeTableEntry>,
    e1: CommitmentVotesView,
    e2: CommitmentVotesView,
)
    requires
        spec_entry_wf(table, e1),
        spec_entry_wf(table, e2),
        e1.votes.to_multiset() == e2.votes.to_multiset(),
    ensures
        e1.votes == e2.votes,
        e1.stake_casted == e2.stake_casted,
        spec_pairs_of(e1.votes) == spec_pairs_of(e2.votes),
{
    lemma_strictly_sorted_multiset_unique(e1.votes, e2.votes);
}

/// Two strictly sorted vote lists with the same multiset are the same
/// list.
pub proof fn lemma_strictly_sorted_multiset_unique(
    s1: Seq<AccumulatorVoteView>,
    s2: Seq<AccumulatorVoteView>,
)
    requires
        spec_strictly_sorted(s1),
        spec_strictly_sorted(s2),
        s1.to_multiset() == s2.to_multiset(),
    ensures
        s1 == s2,
    decreases s1.len(),
{
    s1.to_multiset_ensures();
    s2.to_multiset_ensures();
    if s1.len() == 0 {
        assert(s2.to_multiset().len() == 0);
        assert(s1 =~= s2);
    } else {
        assert(s1.to_multiset().len() == s2.to_multiset().len());
        assert(s2.len() == s1.len());
        let a = s1.last();
        let b = s2.last();
        // The last element of each list is the unique vote with the
        // largest signer number, so the lists agree on it.
        assert(s1.contains(a)) by {
            assert(s1[s1.len() - 1] == a);
        }
        assert(s2.contains(b)) by {
            assert(s2[s2.len() - 1] == b);
        }
        assert(s1.to_multiset().count(a) > 0);
        assert(s2.to_multiset().count(b) > 0);
        assert(s2.to_multiset().count(a) > 0);
        assert(s1.to_multiset().count(b) > 0);
        assert(s2.contains(a));
        assert(s1.contains(b));
        let ia = choose|i: int| 0 <= i < s2.len() && s2[i] == a;
        let ib = choose|i: int| 0 <= i < s1.len() && s1[i] == b;
        if ia < s2.len() - 1 {
            assert(a.signer_id < b.signer_id);
        }
        if ib < s1.len() - 1 {
            assert(b.signer_id < a.signer_id);
        }
        assert(a == b);
        // Dropping the shared last element preserves the premises.
        assert(s1 =~= s1.drop_last().push(a));
        assert(s2 =~= s2.drop_last().push(a));
        assert(s1.drop_last().push(a).to_multiset() == s1.drop_last().to_multiset().insert(a));
        assert(s2.drop_last().push(a).to_multiset() == s2.drop_last().to_multiset().insert(a));
        assert forall|x: AccumulatorVoteView|
            s1.drop_last().to_multiset().count(x) == s2.drop_last().to_multiset().count(
                x,
            ) by {
            assert(s1.drop_last().to_multiset().insert(a).count(x) == s2.drop_last().to_multiset()
                .insert(a).count(x));
        }
        assert(s1.drop_last().to_multiset() =~= s2.drop_last().to_multiset());
        assert(spec_strictly_sorted(s1.drop_last()));
        assert(spec_strictly_sorted(s2.drop_last()));
        lemma_strictly_sorted_multiset_unique(s1.drop_last(), s2.drop_last());
        assert(s1 =~= s2);
    }
}

/// A table credits no stake to an empty list of signers.
pub proof fn lemma_signed_stake_empty(table: Seq<StakeTableEntry>)
    ensures
        spec_signed_stake(table, Seq::<SignaturePairView>::empty()) == 0,
    decreases table.len(),
{
    if table.len() > 0 {
        lemma_signed_stake_empty(table.drop_first());
    }
}

/// Two signer lists carrying the same keys are credited the same stake.
pub proof fn lemma_signed_stake_same_signers(
    table: Seq<StakeTableEntry>,
    p1: Seq<SignaturePairView>,
    p2: Seq<SignaturePairView>,
)
    requires
        forall|k: Seq<u8>| spec_has_signer_bytes(p1, k) <==> spec_has_signer_bytes(p2, k),
    ensures
        spec_signed_stake(table, p1) == spec_signed_stake(table, p2),
    decreases table.len(),
{
    if table.len() > 0 {
        lemma_signed_stake_same_signers(table.drop_first(), p1, p2);
    }
}

/// Adding a pair for a key that has not signed yet adds exactly that
/// key's table stake to the credited sum.
pub proof fn lemma_signed_stake_push_fresh(
    table: Seq<StakeTableEntry>,
    pairs: Seq<SignaturePairView>,
    pair: SignaturePairView,
    signer_id: u64,
)
    requires
        pair.key == spec_encoded_key(signer_id),
        !spec_has_signer_bytes(pairs, pair.key),
    ensures
        spec_signed_stake(table, pairs.push(pair)) == spec_signed_stake(table, pairs)
            + spec_stake_of(table, signer_id),
    decreases table.len(),
{
    if table.len() > 0 {
        lemma_signed_stake_push_fresh(table.drop_first(), pairs, pair, signer_id);
        let row = table[0];
        lemma_u64_be_bytes_roundtrip(row.key_id);
        lemma_u64_be_bytes_roundtrip(signer_id);
        let pushed = pairs.push(pair);
        if row.key_id == signer_id {
            assert(pushed[pairs.len() as int].key == spec_encoded_key(row.key_id));
            assert(spec_has_signer_bytes(pushed, spec_encoded_key(row.key_id)));
        } else {
            assert(spec_encoded_key(row.key_id) != spec_encoded_key(signer_id));
            if spec_has_signer_bytes(pushed, spec_encoded_key(row.key_id)) {
                let j = choose|j: int|
                    0 <= j < pushed.len() && (#[trigger] pushed[j]).key == spec_encoded_key(
                        row.key_id,
                    );
                assert(j < pairs.len());
                assert(pairs[j].key == spec_encoded_key(row.key_id));
                assert(spec_has_signer_bytes(pairs, spec_encoded_key(row.key_id)));
            }
            if spec_has_signer_bytes(pairs, spec_encoded_key(row.key_id)) {
                let j = choose|j: int|
                    0 <= j < pairs.len() && (#[trigger] pairs[j]).key == spec_encoded_key(
                        row.key_id,
                    );
                assert(pushed[j].key == spec_encoded_key(row.key_id));
                assert(spec_has_signer_bytes(pushed, spec_encoded_key(row.key_id)));
            }
        }
    }
}

/// The signature pair a vote contributes to an assembled signature.
pub open spec fn spec_pair_of_vote(v: AccumulatorVoteView) -> SignaturePairView {
    SignaturePairView { key: v.key, signature: v.signature }
}

/// The assembled-signature variant a phase's votes combine into.
pub open spec fn spec_phase_signatures(phase: u8, pairs: Seq<SignaturePairView>)
    -> AssembledSignatureView {
    if phase == 0 {
        AssembledSignatureView::DA(pairs)
    } else if phase == 1 {
        AssembledSignatureView::Yes(pairs)
    } else if phase == 2 {
        AssembledSignatureView::No(pairs)
    } else if phase == 4 {
        AssembledSignatureView::ViewSyncPreCommit(pairs)
    } else if phase == 5 {
        AssembledSignatureView::ViewSyncCommit(pairs)
    } else {
        AssembledSignatureView::ViewSyncFinalize(pairs)
    }
}

/// The views of a list of commitment entries.
pub open spec fn spec_outcome_views(s: Seq<CommitmentVotes>) -> Seq<CommitmentVotesView> {
    s.map_values(|e: CommitmentVotes| e@)
}

/// Whether some entry is keyed on commitment bytes `c`.
pub open spec fn spec_has_entry(s: Seq<CommitmentVotesView>, c: Seq<u8>) -> bool {
    exists|i: int| 0 <= i < s.len() && (#[trigger] s[i]).commitment == c
}

/// The index of the entry keyed on `c`, if one exists.
fn find_entry(outcomes: &Vec<CommitmentVotes>, c: &Commitment) -> (r: Option<usize>)
    ensures
        match r {
            Some(i) => 0 <= i < outcomes@.len() && spec_outcome_views(outcomes@)[i as int].commitment
                == c@,
            None => !spec_has_entry(spec_outcome_views(outcomes@), c@),
        },
{
    let mut i: usize = 0;
    while i < outcomes.len()
        invariant
            i <= outcomes@.len(),
            forall|j: int|
                0 <= j < i ==> (#[trigger] spec_outcome_views(outcomes@)[j]).commitment != c@,
        decreases outcomes@.len() - i,
    {
        proof {
            assert(spec_outcome_views(outcomes@)[i as int] == outcomes@[i as int]@);
        }
        if outcomes[i].commitment.same(c) {
            return Some(i);
        }
        i = i + 1;
    }
    None
}

/// The signature pairs of a list of votes, in order.
fn assemble_aggregate(votes: &Vec<AccumulatorVote>) -> (r: AggregateSignature)
    ensures
        r@ == spec_pairs_of(spec_votes_views(votes@)),
{
    let mut entries: Vec<SignaturePair> = Vec::new();
    let mut i: usize = 0;
    while i < votes.len()
        invariant
            i <= votes@.len(),
            entries@.len() == i,
            forall|j: int|
                0 <= j < i ==> (#[trigger] entries@[j])@ == spec_pair_of_vote(votes@[j]@),
        decreases votes@.len() - i,
    {
        entries.push(
            SignaturePair { key: votes[i].key.clone(), signature: votes[i].signature.clone() },
        );
        i = i + 1;
    }
    let agg = AggregateSignature { entries };
    assert forall|j: int| 0 <= j < agg@.len() implies agg@[j] == spec_pairs_of(
        spec_votes_views(votes@),
    )[j] by {
        assert(agg@[j] == agg.entries@[j]@);
        assert(spec_votes_views(votes@)[j] == votes@[j]@);
    }
    assert(agg@ =~= spec_pairs_of(spec_votes_views(votes@)));
    agg
}

/// Combine a list of votes into the assembled-signature variant of their
/// phase.
fn make_assembled(phase: u8, votes: &Vec<AccumulatorVote>) -> (r: AssembledSignature)
    requires
        phase <= 6,
        phase != 3,
    ensures
        r@ == spec_phase_signatures(phase, spec_pairs_of(spec_votes_views(votes@))),
{
    let agg = assemble_aggregate(votes);
    if phase == 0 {
        AssembledSignature::DA(agg)
    } else if phase == 1 {
        AssembledSignature::Yes(agg)
    } else if phase == 2 {
        AssembledSignature::No(agg)
    } else if phase == 4 {
        AssembledSignature::ViewSyncPreCommit(agg)
    } else if phase == 5 {
        AssembledSignature::ViewSyncCommit(agg)
    } else {
        AssembledSignature::ViewSyncFinalize(agg)
    }
}

/// Inserting a vote at its sorted position keeps the list strictly
/// sorted and adds the vote to the multiset.
pub proof fn lemma_insert_sorted_views(olds: Seq<AccumulatorVoteView>, v: AccumulatorVoteView, pos: int)
    requires
        0 <= pos <= olds.len(),
        spec_strictly_sorted(olds),
        forall|k: int| 0 <= k < pos ==> (#[trigger] olds[k]).signer_id < v.signer_id,
        pos < olds.len() ==> olds[pos].signer_id > v.signer_id,
    ensures
        spec_strictly_sorted(olds.insert(pos, v)),
        olds.insert(pos, v).to_multiset() == olds.to_multiset().insert(v),
{
    let news = olds.insert(pos, v);
    assert forall|a: int, b: int| 0 <= a < b < news.len() implies (#[trigger] news[a]).signer_id
        < (#[trigger] news[b]).signer_id by {
        if a < pos {
            assert(news[a] == olds[a]);
        } else if a > pos {
            assert(news[a] == olds[a - 1]);
        }
        if b < pos {
            assert(news[b] == olds[b]);
        } else if b > pos {
            assert(news[b] == olds[b - 1]);
        }
    }
    assert(news.remove(pos) =~= olds);
    assert(news.remove(pos).to_multiset() == news.to_multiset().remove(news[pos]));
    assert(news[pos] == v);
    assert(news.contains(v)) by {
        assert(news[pos] == v);
    }
    assert(news.to_multiset().count(v) > 0);
    assert forall|x: AccumulatorVoteView| news.to_multiset().count(x) == olds.to_multiset().insert(
        v,
    ).count(x) by {
        assert(olds.to_multiset().count(x) == news.to_multiset().remove(v).count(x));
    }
    assert(news.to_multiset() =~= olds.to_multiset().insert(v));
}

/// Inserting a vote by a signer who has not voted yet raises the credited
/// stake by exactly that signer's table stake.
pub proof fn lemma_stake_after_insert(
    table: Seq<StakeTableEntry>,
    olds: Seq<AccumulatorVoteView>,
    v: AccumulatorVoteView,
    pos: int,
)
    requires
        0 <= pos <= olds.len(),
        forall|k: int|
            0 <= k < olds.len() ==> (#[trigger] olds[k]).key == spec_encoded_key(olds[k].signer_id),
        !spec_votes_have_signer(olds, v.signer_id),
        v.key == spec_encoded_key(v.signer_id),
    ensures
        spec_signed_stake(table, spec_pairs_of(olds.insert(pos, v))) == spec_signed_stake(
            table,
            spec_pairs_of(olds),
        ) + spec_stake_of(table, v.signer_id),
{
    let old_pairs = spec_pairs_of(olds);
    let new_pairs = spec_pairs_of(olds.insert(pos, v));
    let pair = spec_pair_of_vote(v);
    assert(!spec_has_signer_bytes(old_pairs, pair.key)) by {
        if spec_has_signer_bytes(old_pairs, pair.key) {
            let j = choose|j: int|
                0 <= j < old_pairs.len() && (#[trigger] old_pairs[j]).key == pair.key;
            assert(old_pairs[j] == spec_pair_of_vote(olds[j]));
            lemma_u64_be_bytes_roundtrip(olds[j].signer_id);
            lemma_u64_be_bytes_roundtrip(v.signer_id);
            assert(olds[j].signer_id == v.signer_id);
        }
    }
    lemma_signed_stake_push_fresh(table, old_pairs, pair, v.signer_id);
    assert forall|k: Seq<u8>|
        spec_has_signer_bytes(new_pairs, k) <==> spec_has_signer_bytes(
            old_pairs.push(pair),
            k,
        ) by {
        if spec_has_signer_bytes(new_pairs, k) {
            let j = choose|j: int| 0 <= j < new_pairs.len() && (#[trigger] new_pairs[j]).key == k;
            assert(new_pairs[j] == spec_pair_of_vote(olds.insert(pos, v)[j]));
            if j == pos {
                assert(old_pairs.push(pair)[old_pairs.len() as int].key == k);
            } else if j < pos {
                assert(old_pairs.push(pair)[j] == spec_pair_of_vote(olds[j]));
                assert(old_pairs.push(pair)[j].key == k);
            } else {
                assert(old_pairs.push(pair)[j - 1] == spec_pair_of_vote(olds[j - 1]));
                assert(old_pairs.push(pair)[j - 1].key == k);
            }
            assert(spec_has_signer_bytes(old_pairs.push(pair), k));
        }
        if spec_has_signer_bytes(old_pairs.push(pair), k) {
            let j = choose|j: int|
                0 <= j < old_pairs.push(pair).len() && (#[trigger] old_pairs.push(pair)[j]).key
                    == k;
            if j == old_pairs.len() {
                assert(new_pairs[pos].key == k);
            } else if j < pos {
                assert(new_pairs[j] == spec_pair_of_vote(olds.insert(pos, v)[j]));
                assert(new_pairs[j].key == k);
            } else {
                assert(new_pairs[j + 1] == spec_pair_of_vote(olds.insert(pos, v)[j + 1]));
                assert(new_pairs[j + 1].key == k);
            }
            assert(spec_has_signer_bytes(new_pairs, k));
        }
    }
    lemma_signed_stake_same_signers(table, new_pairs, old_pairs.push(pair));
}

/// A single vote whose token already reaches the threshold forms a
/// checking aggregate on its own.
pub proof fn lemma_single_vote_aggregate_checks(
    table: Seq<StakeTableEntry>,
    threshold: u64,
    v: AccumulatorVoteView,
)
    requires
        spec_vote_admissible(table, v),
        v.token.count >= threshold,
    ensures
        spec_check_aggregate(
            table,
            threshold,
            spec_phase_commit(v.phase, v.commitment),
            spec_pairs_of(seq![v]),
        ),
{
    let pairs = spec_pairs_of(seq![v]);
    let message = spec_phase_commit(v.phase, v.commitment);
    assert(pairs[0] == spec_pair_of_vote(v));
    assert(pairs.len() == 1);
    lemma_u64_be_bytes_roundtrip(v.signer_id);
    assert(spec_pairs_valid(pairs, message));
    lemma_signed_stake_empty(table);
    lemma_signed_stake_push_fresh(table, Seq::<SignaturePairView>::empty(), spec_pair_of_vote(v), v.signer_id);
    assert(pairs =~= Seq::<SignaturePairView>::empty().push(spec_pair_of_vote(v)));
}

/// A well-formed entry whose cast stake reaches the threshold yields a
/// checking aggregate over its phase's tagged commitment.
pub proof fn lemma_entry_aggregate_checks(
    table: Seq<StakeTableEntry>,
    threshold: u64,
    e: CommitmentVotesView,
)
    requires
        spec_entry_wf(table, e),
        e.stake_casted >= threshold,
    ensures
        spec_check_aggregate(
            table,
            threshold,
            spec_phase_commit(e.phase, e.commitment),
            spec_pairs_of(e.votes),
        ),
{
    let pairs = spec_pairs_of(e.votes);
    let message = spec_phase_commit(e.phase, e.commitment);
    assert forall|j: int| 0 <= j < pairs.len() implies {
        &&& (#[trigger] pairs[j]).key.len() == 8
        &&& spec_check(
            crate::wire::spec_u64_from_be_bytes(pairs[j].key),
            message,
            pairs[j].signature,
        )
    } by {
        assert(pairs[j] == spec_pair_of_vote(e.votes[j]));
        lemma_u64_be_bytes_roundtrip(e.votes[j].signer_id);
    }
    assert(spec_pairs_valid(pairs, message));
}

/// Per-(view, role) vote accumulator: one signature set per commitment,
/// emitting an assembled signature when a commitment's stake reaches the
/// threshold.
pub struct VoteAccumulator {
    /// The stake table votes are weighed against.
    pub table: Vec<StakeTableEntry>,
    /// The stake at which a certificate forms.
    pub threshold: u64,
    /// The signature sets, one per commitment voted on.
    pub vote_outcomes: Vec<CommitmentVotes>,
}

impl VoteAccumulator {
    /// Well-formedness: a sound stake table, a positive threshold, one
    /// well-formed entry per distinct commitment.
    pub open spec fn wf(&self) -> bool {
        &&& spec_table_wf(self.table@)
        &&& self.threshold >= 1
        &&& forall|i: int|
            0 <= i < self.vote_outcomes@.len() ==> spec_entry_wf(
                self.table@,
                #[trigger] spec_outcome_views(self.vote_outcomes@)[i],
            )
        &&& forall|i: int, j: int|
            0 <= i < j < self.vote_outcomes@.len() ==> (#[trigger] spec_outcome_views(
                self.vote_outcomes@,
            )[i]).commitment != (#[trigger] spec_outcome_views(self.vote_outcomes@)[j]).commitment
    }

    /// Whether this accumulator turns such a vote away without change:
    /// some entry already keys the vote's commitment and either that
    /// signer already voted there or the entry collects a different
    /// phase.
    pub open spec fn spec_rejects(&self, commitment: Seq<u8>, phase: u8, signer_id: u64) -> bool {
        exists|i: int|
            {
                &&& 0 <= i < self.vote_outcomes@.len()
                &&& (#[trigger] spec_outcome_views(self.vote_outcomes@)[i]).commitment
                    == commitment
                &&& (spec_outcome_views(self.vote_outcomes@)[i].phase != phase
                    || spec_votes_have_signer(
                    spec_outcome_views(self.vote_outcomes@)[i].votes,
                    signer_id,
                ))
            }
    }

    /// Append one validated vote, per the accumulation rule: reject a
    /// duplicate signer for the same commitment (and a phase mismatch)
    /// without change; otherwise record the vote under its commitment and
    /// add its stake; once that commitment's stake reaches the threshold,
    /// combine its signatures and emit them.  A duplicate never increases
    /// the accumulated stake.
    pub fn append(self, vote: AccumulatorVote) -> (r: Either<VoteAccumulator, AssembledSignature>)
        requires
            self.wf(),
            spec_vote_admissible(self.table@, vote@),
            vote@.phase != 3,
        ensures
            ({
                let v = vote@;
                let olds = spec_outcome_views(self.vote_outcomes@);
                match r {
                    Either::Left(acc) => {
                        let news = spec_outcome_views(acc.vote_outcomes@);
                        &&& acc.wf()
                        &&& acc.table@ == self.table@
                        &&& acc.threshold == self.threshold
                        &&& (self.spec_rejects(vote@.commitment, vote@.phase, vote@.signer_id) ==> news == olds)
                        &&& ((!self.spec_rejects(vote@.commitment, vote@.phase, vote@.signer_id) && !spec_has_entry(olds, v.commitment))
                            ==> {
                            &&& v.token.count < self.threshold
                            &&& news.len() == olds.len() + 1
                            &&& news == olds.push(news.last())
                            &&& news.last().commitment == v.commitment
                            &&& news.last().phase == v.phase
                            &&& news.last().votes == seq![v]
                            &&& news.last().stake_casted == v.token.count
                        })
                        &&& ((!self.spec_rejects(vote@.commitment, vote@.phase, vote@.signer_id) && spec_has_entry(olds, v.commitment))
                            ==> exists|i: int|
                            {
                                &&& 0 <= i < olds.len()
                                &&& (#[trigger] olds[i]).commitment == v.commitment
                                &&& news == olds.update(i, news[i])
                                &&& news[i].commitment == v.commitment
                                &&& news[i].phase == v.phase
                                &&& news[i].votes.to_multiset() == olds[i].votes.to_multiset()
                                    .insert(v)
                                &&& news[i].stake_casted == olds[i].stake_casted + v.token.count
                                &&& news[i].stake_casted < self.threshold
                            })
                    },
                    Either::Right(sig) => {
                        let pairs = crate::certificate::spec_assembled_pairs(sig@);
                        &&& !self.spec_rejects(vote@.commitment, vote@.phase, vote@.signer_id)
                        &&& sig@ == spec_phase_signatures(v.phase, pairs)
                        &&& spec_check_aggregate(
                            self.table@,
                            self.threshold,
                            spec_phase_commit(v.phase, v.commitment),
                            pairs,
                        )
                        &&& exists|w: Seq<AccumulatorVoteView>|
                            {
                                &&& spec_strictly_sorted(w)
                                &&& pairs == #[trigger] spec_pairs_of(w)
                                &&& (if spec_has_entry(olds, v.commitment) {
                                    exists|i: int|
                                        {
                                            &&& 0 <= i < olds.len()
                                            &&& (#[trigger] olds[i]).commitment == v.commitment
                                            &&& w.to_multiset() == olds[i].votes.to_multiset()
                                                .insert(v)
                                        }
                                } else {
                                    w == seq![v]
                                })
                            }
                    },
                }
            }),
    {
        let ghost v = vote@;
        let ghost olds = spec_outcome_views(self.vote_outcomes@);
        let mut acc = self;
        let phase = vote.data.phase_byte();
        let index_found = find_entry(&acc.vote_outcomes, &vote.commitment);
        match index_found {
            None => {
                proof {
                    assert(!spec_has_entry(olds, v.commitment));
                    assert(!acc.spec_rejects(vote@.commitment, vote@.phase, vote@.signer_id));
                    lemma_signed_stake_empty(acc.table@);
                    lemma_signed_stake_push_fresh(
                        acc.table@,
                        Seq::<SignaturePairView>::empty(),
                        spec_pair_of_vote(v),
                        v.signer_id,
                    );
                    assert(spec_pairs_of(seq![v]) =~= Seq::<SignaturePairView>::empty().push(
                        spec_pair_of_vote(v),
                    ));
                    assert(spec_signed_stake(acc.table@, spec_pairs_of(seq![v]))
                        == v.token.count);
                }
                let stake = vote.token.count;
                let commitment = vote.commitment.clone();
                let mut votes: Vec<AccumulatorVote> = Vec::new();
                votes.push(vote);
                proof {
                    assert(spec_votes_views(votes@) =~= seq![v]);
                }
                if stake >= acc.threshold {
                    let sig = make_assembled(phase, &votes);
                    proof {
                        lemma_single_vote_aggregate_checks(acc.table@, acc.threshold, v);
                        assert(spec_strictly_sorted(seq![v]));
                    }
                    return Either::Right(sig);
                }
                let entry = CommitmentVotes { commitment, phase, votes, stake_casted: stake };
                proof {
                    assert(spec_entry_wf(acc.table@, entry@));
                }
                acc.vote_outcomes.push(entry);
                proof {
                    let news = spec_outcome_views(acc.vote_outcomes@);
                    assert(news =~= olds.push(entry@));
                    assert(news.last() == entry@);
                    assert forall|i: int| 0 <= i < news.len() implies spec_entry_wf(
                        acc.table@,
                        #[trigger] news[i],
                    ) by {
                        if i < olds.len() {
                            assert(news[i] == olds[i]);
                        }
                    }
                    assert forall|i: int, j: int| 0 <= i < j < news.len() implies (
                    #[trigger] news[i]).commitment != (#[trigger] news[j]).commitment by {
                        if j == news.len() - 1 {
                            assert(news[i] == olds[i]);
                            assert(!spec_has_entry(olds, v.commitment));
                        }
                    }
                }
                Either::Left(acc)
            },
            Some(i) => {
                proof {
                    assert(spec_outcome_views(acc.vote_outcomes@)[i as int]
                        == acc.vote_outcomes@[i as int]@);
                    assert(spec_has_entry(olds, v.commitment));
                }
                if acc.vote_outcomes[i].phase != phase {
                    proof {
                        assert(acc.spec_rejects(vote@.commitment, vote@.phase, vote@.signer_id));
                    }
                    return Either::Left(acc);
                }
                // Scan for the insertion point; a signer found with the
                // same number is a duplicate and is dropped.
                let ghost entry_views = spec_votes_views(acc.vote_outcomes@[i as int].votes@);
                let votes_len = acc.vote_outcomes[i].votes.len();
                let mut pos: usize = 0;
                while pos < votes_len && acc.vote_outcomes[i].votes[pos].signer_id
                    < vote.signer_id
                    invariant
                        votes_len == acc.vote_outcomes@[i as int].votes@.len(),
                        0 <= i < acc.vote_outcomes@.len(),
                        entry_views == spec_votes_views(acc.vote_outcomes@[i as int].votes@),
                        pos <= votes_len,
                        forall|k: int|
                            0 <= k < pos ==> (#[trigger] entry_views[k]).signer_id
                                < vote@.signer_id,
                    decreases votes_len - pos,
                {
                    proof {
                        assert(entry_views[pos as int]
                            == acc.vote_outcomes@[i as int].votes@[pos as int]@);
                    }
                    pos = pos + 1;
                }
                proof {
                    assert(pos < votes_len ==> entry_views[pos as int]
                        == acc.vote_outcomes@[i as int].votes@[pos as int]@);
                }
                if pos < votes_len && acc.vote_outcomes[i].votes[pos].signer_id == vote.signer_id {
                    proof {
                        assert(spec_votes_have_signer(entry_views, v.signer_id));
                        assert(acc.spec_rejects(vote@.commitment, vote@.phase, vote@.signer_id));
                    }
                    return Either::Left(acc);
                }
                proof {
                    assert(forall|k: int|
                        0 <= k < pos ==> (#[trigger] entry_views[k]).signer_id < v.signer_id);
                    assert(pos < votes_len ==> entry_views[pos as int].signer_id > v.signer_id);
                    assert(!spec_votes_have_signer(entry_views, v.signer_id)) by {
                        if spec_votes_have_signer(entry_views, v.signer_id) {
                            let k = choose|k: int|
                                0 <= k < entry_views.len() && (#[trigger] entry_views[k]).signer_id
                                    == v.signer_id;
                            if k < pos {
                            } else if pos < votes_len {
                                assert(entry_views[pos as int].signer_id
                                    <= entry_views[k].signer_id);
                            }
                        }
                    }
                    assert(!acc.spec_rejects(vote@.commitment, vote@.phase, vote@.signer_id)) by {
                        if acc.spec_rejects(vote@.commitment, vote@.phase, vote@.signer_id) {
                            let j = choose|j: int|
                                {
                                    &&& 0 <= j < acc.vote_outcomes@.len()
                                    &&& (#[trigger] spec_outcome_views(
                                        acc.vote_outcomes@,
                                    )[j]).commitment == vote@.commitment
                                    &&& (spec_outcome_views(acc.vote_outcomes@)[j].phase
                                        != vote@.phase || spec_votes_have_signer(
                                        spec_outcome_views(acc.vote_outcomes@)[j].votes,
                                        vote@.signer_id,
                                    ))
                                };
                            assert(spec_outcome_views(acc.vote_outcomes@)[j]
                                == acc.vote_outcomes@[j]@);
                            if j != i {
                                assert((#[trigger] spec_outcome_views(
                                    acc.vote_outcomes@,
                                )[j]).commitment != spec_outcome_views(
                                    acc.vote_outcomes@,
                                )[i as int].commitment);
                            }
                        }
                    }
                }
                let mut entry = acc.vote_outcomes.remove(i);
                let ghost old_entry = entry@;
                let ghost old_votes_vec = entry.votes@;
                let ghost old_views = spec_votes_views(entry.votes@);
                let token_count = vote.token.count;
                entry.votes.insert(pos, vote);
                let ghost new_views = spec_votes_views(entry.votes@);
                proof {
                    assert(old_views == entry_views);
                    assert(new_views =~= old_views.insert(pos as int, v)) by {
                        assert forall|k: int| 0 <= k < new_views.len() implies new_views[k]
                            == old_views.insert(pos as int, v)[k] by {
                            assert(new_views[k] == entry.votes@[k]@);
                            if k < pos {
                                assert(entry.votes@[k] == old_votes_vec[k]);
                                assert(old_views[k] == old_votes_vec[k]@);
                            } else if k > pos {
                                assert(entry.votes@[k] == old_votes_vec[k - 1]);
                                assert(old_views[k - 1] == old_votes_vec[k - 1]@);
                            }
                        }
                    }
                    lemma_insert_sorted_views(old_views, v, pos as int);
                    assert(entry@.commitment == old_entry.commitment);
                    lemma_stake_after_insert(acc.table@, old_views, v, pos as int);
                    assert(spec_signed_stake(acc.table@, spec_pairs_of(new_views))
                        == old_entry.stake_casted + v.token.count);
                    lemma_signed_stake_le_total(acc.table@, spec_pairs_of(new_views));
                }
                let new_stake = entry.stake_casted + token_count;
                entry.stake_casted = new_stake;
                proof {
                    assert forall|k: int| 0 <= k < entry@.votes.len() implies {
                        &&& spec_vote_admissible(acc.table@, #[trigger] entry@.votes[k])
                        &&& entry@.votes[k].commitment == entry@.commitment
                        &&& entry@.votes[k].phase == entry@.phase
                    } by {
                        if k != pos {
                            let k0 = if k < pos {
                                k
                            } else {
                                k - 1
                            };
                            assert(entry@.votes[k] == old_views[k0]);
                        }
                    }
                    assert(spec_entry_wf(acc.table@, entry@));
                }
                if new_stake >= acc.threshold {
                    let sig = make_assembled(phase, &entry.votes);
                    proof {
                        lemma_entry_aggregate_checks(acc.table@, acc.threshold, entry@);
                        assert(olds[i as int] == old_entry);
                        assert(spec_strictly_sorted(new_views));
                        assert(crate::certificate::spec_assembled_pairs(sig@) == spec_pairs_of(
                            new_views,
                        ));
                        assert(new_views.to_multiset() == old_entry.votes.to_multiset().insert(v));
                    }
                    return Either::Right(sig);
                }
                acc.vote_outcomes.insert(i, entry);
                proof {
                    let news = spec_outcome_views(acc.vote_outcomes@);
                    assert(news =~= olds.update(i as int, entry@));
                    assert(news[i as int] == entry@);
                    assert(olds[i as int] == old_entry);
                    assert(news[i as int].votes.to_multiset() == olds[i as int].votes.to_multiset()
                        .insert(v));
                    assert(news[i as int].stake_casted == olds[i as int].stake_casted
                        + v.token.count);
                    assert(news == olds.update(i as int, news[i as int]));
                    assert forall|k: int| 0 <= k < news.len() implies spec_entry_wf(
                        acc.table@,
                        #[trigger] news[k],
                    ) by {
                        if k != i {
                            assert(news[k] == olds[k]);
                        }
                    }
                    assert forall|a: int, b: int| 0 <= a < b < news.len() implies (
                    #[trigger] news[a]).commitment != (#[trigger] news[b]).commitment by {
                        assert(olds[a].commitment != olds[b].commitment);
                        if a != i {
                            assert(news[a] == olds[a]);
                        }
                        if b != i {
                            assert(news[b] == olds[b]);
                        }
                        assert(news[i as int].commitment == olds[i as int].commitment);
                    }
                }
                Either::Left(acc)
            },
        }
    }

    /// An empty accumulator over a stake table and a threshold.
    pub fn new(table: Vec<StakeTableEntry>, threshold: u64) -> (r: VoteAccumulator)
        requires
            spec_table_wf(table@),
            threshold >= 1,
        ensures
            r.wf(),
            r.table@ == table@,
            r.threshold == threshold,
            r.vote_outcomes@.len() == 0,
    {
        VoteAccumulator { table, threshold, vote_outcomes: Vec::new() }
    }
}

} // verus!
