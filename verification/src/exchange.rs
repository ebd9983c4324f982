//! The three exchange roles: the DA committee, the quorum, and view
//! sync.  An exchange bundles a committee with one participant's key
//! pair; it signs proposals and votes, validates incoming votes and
//! certificates, and folds votes into the accumulator.

use vstd::prelude::*;

use crate::accumulator::{
    spec_has_entry, spec_outcome_views, spec_phase_signatures, spec_vote_admissible,
    AccumulatorVote, AccumulatorVoteView, VoteAccumulator,
};
use crate::certificate::{
    spec_assembled_pairs, AssembledSignature, AssembledSignatureView, DACertificate,
    QuorumCertificate, VoteMetaData, ViewSyncCertificate,
};
use crate::commitment::{
    spec_tag_da_block, spec_tag_no_vote, spec_tag_yes_vote, view_number_commit, Commitment,
    spec_view_number_commit,
};
use crate::election::{
    spec_checked_token, spec_vote_data_commit, spec_vote_data_inner, spec_vote_data_phase_byte,
    Checked, ElectionError, Membership, StaticCommittee, StaticElectionConfig, StaticVoteToken,
    VoteData,
};
use crate::message::{
    CommitteeConsensusMessage, DAVote, GeneralConsensusMessage, QuorumVote, TimeoutVote,
    ViewSyncData, ViewSyncVote, ViewSyncVoteInternal, YesOrNoVote, spec_view_sync_data_commit,
    ViewSyncDataView,
};
use crate::signature::{
    sign, spec_check, spec_check_aggregate, spec_encoded_key, spec_signature_bytes,
    spec_signed_stake, spec_stake_of, EncodedPublicKey, EncodedSignature, PrivateKey, PublicKey,
    StakeTableEntry, check_aggregate,
};
use crate::wire::{lemma_u64_be_bytes_inverse, spec_u64_from_be_bytes};
use crate::Either;

verus! {

/// A valid vote: the key decodes, the signature covers the vote data's
/// tagged commitment under that key, and the token carries exactly the
/// signer's stake.
pub open spec fn spec_valid_vote(
    table: Seq<StakeTableEntry>,
    key: Seq<u8>,
    signature: Seq<u8>,
    vote_commit: Seq<u8>,
    token: StaticVoteToken,
) -> bool {
    &&& key.len() == 8
    &&& spec_check(spec_u64_from_be_bytes(key), vote_commit, signature)
    &&& token.key_id == spec_u64_from_be_bytes(key)
    &&& token.count == spec_stake_of(table, token.key_id)
    &&& token.count >= 1
}

/// A valid certificate over commitment `expected`: the genesis
/// certificate of the genesis view, or an aggregate of the certificate's
/// own kind whose signers' stake reaches the threshold over the tagged
/// commitment.
pub open spec fn spec_valid_plain_cert(
    table: Seq<StakeTableEntry>,
    threshold: u64,
    leaf_commitment: Seq<u8>,
    view_number: u64,
    is_genesis: bool,
    signatures: AssembledSignatureView,
    expected: Seq<u8>,
) -> bool {
    if is_genesis && view_number == 0 {
        true
    } else if leaf_commitment != expected {
        false
    } else {
        match signatures {
            AssembledSignatureView::DA(pairs) => spec_check_aggregate(
                table,
                threshold,
                spec_tag_da_block() + leaf_commitment,
                pairs,
            ),
            AssembledSignatureView::Yes(pairs) => spec_check_aggregate(
                table,
                threshold,
                spec_tag_yes_vote() + leaf_commitment,
                pairs,
            ),
            AssembledSignatureView::No(pairs) => spec_check_aggregate(
                table,
                threshold,
                spec_tag_no_vote() + leaf_commitment,
                pairs,
            ),
            _ => false,
        }
    }
}

/// A certificate that verifies, other than the genesis sentinel, carries
/// signers whose stake reaches the threshold of its kind.
pub proof fn lemma_valid_cert_threshold(
    table: Seq<StakeTableEntry>,
    threshold: u64,
    leaf_commitment: Seq<u8>,
    view_number: u64,
    is_genesis: bool,
    signatures: AssembledSignatureView,
    expected: Seq<u8>,
)
    requires
        spec_valid_plain_cert(
            table,
            threshold,
            leaf_commitment,
            view_number,
            is_genesis,
            signatures,
            expected,
        ),
        !(is_genesis && view_number == 0),
    ensures
        spec_signed_stake(table, spec_assembled_pairs(signatures)) >= threshold,
{
}

/// Check a certificate's assembled signatures over the commitment it
/// claims: the shared rule of the committee and quorum verifiers.
fn valid_plain_cert(
    membership: &StaticCommittee,
    threshold: u64,
    leaf_commitment: &Commitment,
    view_number: u64,
    is_genesis: bool,
    signatures: &AssembledSignature,
    expected: &Commitment,
) -> (r: bool)
    requires
        membership.wf(),
    ensures
        r == spec_valid_plain_cert(
            membership.spec_table(),
            threshold,
            leaf_commitment@,
            view_number,
            is_genesis,
            signatures@,
            expected@,
        ),
{
    if is_genesis && view_number == 0 {
        return true;
    }
    if !leaf_commitment.same(expected) {
        return false;
    }
    let table = membership.get_committee_qc_stake_table();
    match signatures {
        AssembledSignature::DA(aggregate) => {
            let message = VoteData::DA(leaf_commitment.clone()).commit();
            check_aggregate(&table, threshold, &message.bytes, aggregate)
        },
        AssembledSignature::Yes(aggregate) => {
            let message = VoteData::Yes(leaf_commitment.clone()).commit();
            check_aggregate(&table, threshold, &message.bytes, aggregate)
        },
        AssembledSignature::No(aggregate) => {
            let message = VoteData::No(leaf_commitment.clone()).commit();
            check_aggregate(&table, threshold, &message.bytes, aggregate)
        },
        _ => false,
    }
}

/// Validate a vote by checking its signature and token.
fn valid_vote(
    membership: &StaticCommittee,
    encoded_key: &EncodedPublicKey,
    encoded_signature: &EncodedSignature,
    data: &VoteData,
    vote_token: Checked<StaticVoteToken>,
) -> (r: bool)
    requires
        membership.wf(),
    ensures
        r == spec_valid_vote(
            membership.spec_table(),
            encoded_key@,
            encoded_signature@,
            spec_vote_data_commit(*data),
            spec_checked_token(vote_token),
        ),
{
    match PublicKey::from_bytes(encoded_key) {
        None => false,
        Some(key) => {
            let vote_commit = data.commit();
            let signature_ok = key.validate(encoded_signature, &vote_commit.bytes);
            let token_ok = match membership.validate_vote_token(&key, vote_token) {
                Ok(Checked::Valid(_)) => true,
                _ => false,
            };
            signature_ok && token_ok
        },
    }
}

/// A vote the accumulator may take, stated over its components: valid,
/// keyed on its own vote data's commitment, and not a timeout (timeouts
/// are collected by the next leader, not accumulated).
pub open spec fn spec_vote_admissible_parts(
    table: Seq<StakeTableEntry>,
    key: Seq<u8>,
    signature: Seq<u8>,
    commitment: Seq<u8>,
    data: VoteData,
    token: StaticVoteToken,
) -> bool {
    &&& spec_valid_vote(table, key, signature, spec_vote_data_commit(data), token)
    &&& spec_vote_data_inner(data) == commitment
    &&& spec_vote_data_phase_byte(data) != 3
}

/// The accumulator-vote value a vote's components fold in as.
pub open spec fn spec_vote_view(
    key: Seq<u8>,
    signature: Seq<u8>,
    commitment: Seq<u8>,
    data: VoteData,
    token: StaticVoteToken,
) -> AccumulatorVoteView {
    AccumulatorVoteView {
        commitment,
        signer_id: spec_u64_from_be_bytes(key),
        key,
        signature,
        token,
        phase: spec_vote_data_phase_byte(data),
        vote_commit: spec_vote_data_commit(data),
    }
}

/// A vote's metadata the accumulator may take.
pub open spec fn spec_meta_admissible(table: Seq<StakeTableEntry>, m: VoteMetaData) -> bool {
    spec_vote_admissible_parts(
        table,
        m.encoded_key@,
        m.encoded_signature@,
        m.commitment@,
        m.data,
        m.vote_token,
    )
}

/// The accumulator-vote value a vote's metadata folds in as.
pub open spec fn spec_meta_vote_view(m: VoteMetaData) -> AccumulatorVoteView {
    spec_vote_view(m.encoded_key@, m.encoded_signature@, m.commitment@, m.data, m.vote_token)
}

/// The signatures a certificate may be assembled from, once a vote by
/// `v` crossed the threshold over the entries `olds`: the pairs check at
/// the threshold over the vote's tagged commitment, and they are exactly
/// the signer-sorted accumulated votes of that one commitment together
/// with `v` — no other vote, and no duplicate, contributes.
pub open spec fn spec_emitted_signatures(
    table: Seq<StakeTableEntry>,
    threshold: u64,
    v: AccumulatorVoteView,
    olds: Seq<crate::accumulator::CommitmentVotesView>,
    sigs: AssembledSignatureView,
) -> bool {
    let pairs = spec_assembled_pairs(sigs);
    &&& sigs == spec_phase_signatures(v.phase, pairs)
    &&& spec_check_aggregate(
        table,
        threshold,
        crate::accumulator::spec_phase_commit(v.phase, v.commitment),
        pairs,
    )
    &&& exists|w: Seq<AccumulatorVoteView>|
        {
            &&& crate::accumulator::spec_strictly_sorted(w)
            &&& pairs == #[trigger] crate::accumulator::spec_pairs_of(w)
            &&& (if spec_has_entry(olds, v.commitment) {
                exists|i: int|
                    {
                        &&& 0 <= i < olds.len()
                        &&& (#[trigger] olds[i]).commitment == v.commitment
                        &&& w.to_multiset() == olds[i].votes.to_multiset().insert(v)
                    }
            } else {
                w == seq![v]
            })
        }
}

/// What folding one vote into an accumulator may yield, stated over the
/// accumulator's entry views.  Shared by the three exchanges and the
/// leader collectors.  A `Left` pins the whole state change — rejected
/// or inadmissible votes change nothing, a fresh vote lands in its
/// commitment's entry with its stake still below the threshold — so a
/// vote that crosses the threshold can only yield `Right`, whose
/// signatures are tied to exactly the accumulated votes.
pub open spec fn spec_accumulate_step(
    table: Seq<StakeTableEntry>,
    admissible: bool,
    v: AccumulatorVoteView,
    accumulator: VoteAccumulator,
    r: Either<VoteAccumulator, AssembledSignatureView>,
) -> bool {
    let olds = spec_outcome_views(accumulator.vote_outcomes@);
    match r {
        Either::Left(acc) => {
            &&& acc.wf()
            &&& acc.table@ == accumulator.table@
            &&& acc.threshold == accumulator.threshold
            &&& (!admissible ==> spec_outcome_views(acc.vote_outcomes@) == olds)
            &&& ((admissible && accumulator.spec_rejects(v.commitment, v.phase, v.signer_id))
                ==> spec_outcome_views(acc.vote_outcomes@) == olds)
            &&& ((admissible && !accumulator.spec_rejects(v.commitment, v.phase, v.signer_id)
                && !spec_has_entry(olds, v.commitment)) ==> {
                let news = spec_outcome_views(acc.vote_outcomes@);
                &&& news.len() == olds.len() + 1
                &&& news == olds.push(news.last())
                &&& news.last().commitment == v.commitment
                &&& news.last().phase == v.phase
                &&& news.last().votes == seq![v]
                &&& news.last().stake_casted == v.token.count
                &&& news.last().stake_casted < accumulator.threshold
            })
            &&& ((admissible && !accumulator.spec_rejects(v.commitment, v.phase, v.signer_id)
                && spec_has_entry(olds, v.commitment)) ==> exists|i: int|
                {
                    let news = spec_outcome_views(acc.vote_outcomes@);
                    &&& 0 <= i < olds.len()
                    &&& (#[trigger] olds[i]).commitment == v.commitment
                    &&& news == olds.update(i, news[i])
                    &&& news[i].commitment == v.commitment
                    &&& news[i].phase == v.phase
                    &&& news[i].votes.to_multiset() == olds[i].votes.to_multiset().insert(v)
                    &&& news[i].stake_casted == olds[i].stake_casted + v.token.count
                    &&& news[i].stake_casted < accumulator.threshold
                })
        },
        Either::Right(sigs) => {
            &&& admissible
            &&& !accumulator.spec_rejects(v.commitment, v.phase, v.signer_id)
            &&& spec_emitted_signatures(
                table,
                accumulator.threshold,
                v,
                spec_outcome_views(accumulator.vote_outcomes@),
                sigs,
            )
        },
    }
}

/// [`spec_accumulate_step`] for a vote given as metadata.
pub open spec fn spec_accumulate_outcome(
    table: Seq<StakeTableEntry>,
    m: VoteMetaData,
    accumulator: VoteAccumulator,
    r: Either<VoteAccumulator, AssembledSignature>,
) -> bool {
    spec_accumulate_step(
        table,
        spec_meta_admissible(table, m),
        spec_meta_vote_view(m),
        accumulator,
        match r {
            Either::Left(acc) => Either::Left(acc),
            Either::Right(sig) => Either::Right(sig@),
        },
    )
}

/// Validate a vote's metadata and fold it into the accumulator,
/// returning the assembled signatures once the threshold is reached.
fn accumulate_checked(
    membership: &StaticCommittee,
    vota_meta: VoteMetaData,
    accumulator: VoteAccumulator,
) -> (r: Either<VoteAccumulator, AssembledSignature>)
    requires
        membership.wf(),
        accumulator.wf(),
        accumulator.table@ == membership.spec_table(),
    ensures
        spec_accumulate_outcome(membership.spec_table(), vota_meta, accumulator, r),
{
    let ghost table = membership.spec_table();
    let ghost m = vota_meta;
    if !valid_vote(
        membership,
        &vota_meta.encoded_key,
        &vota_meta.encoded_signature,
        &vota_meta.data,
        Checked::Unchecked(vota_meta.vote_token),
    ) {
        return Either::Left(accumulator);
    }
    if !vota_meta.data.commitment().same(&vota_meta.commitment) {
        return Either::Left(accumulator);
    }
    let phase = vota_meta.data.phase_byte();
    if phase == 3 {
        return Either::Left(accumulator);
    }
    let key = match PublicKey::from_bytes(&vota_meta.encoded_key) {
        Some(k) => k,
        None => {
            return Either::Left(accumulator);
        },
    };
    proof {
        lemma_u64_be_bytes_inverse(vota_meta.encoded_key@);
    }
    let vote = AccumulatorVote {
        commitment: vota_meta.commitment,
        signer_id: key.id,
        key: vota_meta.encoded_key,
        signature: vota_meta.encoded_signature,
        token: vota_meta.vote_token,
        data: vota_meta.data,
    };
    proof {
        assert(vote@ == spec_meta_vote_view(m));
        assert(spec_vote_admissible(table, vote@));
        assert(spec_meta_admissible(table, m));
    }
    accumulator.append(vote)
}

/// The DA-committee exchange: participants vote to attest availability
/// of proposed blocks.
pub struct CommitteeExchange {
    /// The committee which votes on proposals.
    pub membership: StaticCommittee,
    /// This participant's public key.
    pub public_key: PublicKey,
    /// Entry with public key and staking value for certificate
    /// aggregation.
    pub entry: StakeTableEntry,
    /// This participant's private key.
    pub private_key: PrivateKey,
}

impl CommitteeExchange {
    /// A sound exchange: a sound committee and a matched key pair.
    pub open spec fn wf(&self) -> bool {
        &&& self.membership.wf()
        &&& self.public_key.id == self.private_key.id
    }

    /// Join an exchange with the given identity.
    pub fn create(
        entries: Vec<StakeTableEntry>,
        keys: Vec<PublicKey>,
        config: StaticElectionConfig,
        pk: PublicKey,
        entry: StakeTableEntry,
        sk: PrivateKey,
    ) -> (r: CommitteeExchange)
        ensures
            r.membership.entries@ == entries@,
            r.membership.keys@ == keys@,
            r.membership.config == config,
            r.public_key.id == pk.id,
            r.private_key.id == sk.id,
            r.entry == entry,
    {
        let membership = StaticCommittee::create_election(entries, keys, config);
        CommitteeExchange { membership, public_key: pk, entry, private_key: sk }
    }

    /// The committee which votes on proposals.
    pub fn membership(&self) -> (r: &StaticCommittee)
        ensures
            r == &self.membership,
    {
        &self.membership
    }

    /// This participant's public key.
    pub fn public_key(&self) -> (r: &PublicKey)
        ensures
            r.id == self.public_key.id,
    {
        &self.public_key
    }

    /// This participant's private key.
    pub fn private_key(&self) -> (r: &PrivateKey)
        ensures
            r.id == self.private_key.id,
    {
        &self.private_key
    }

    /// The leader of the committee at a view.
    pub fn get_leader(&self, view_number: u64) -> (r: PublicKey)
        requires
            self.wf(),
        ensures
            r.id == self.membership.spec_leader(view_number),
    {
        self.membership.get_leader(view_number)
    }

    /// Whether this participant leads at a view.
    pub fn is_leader(&self, view_number: u64) -> (r: bool)
        requires
            self.wf(),
        ensures
            r == (self.membership.spec_leader(view_number) == self.public_key.id),
    {
        let leader = self.membership.get_leader(view_number);
        leader.id == self.public_key.id
    }

    /// The stake at which a certificate forms.
    pub fn success_threshold(&self) -> (r: u64)
        requires
            self.wf(),
        ensures
            r == self.membership.spec_success_threshold(),
    {
        self.membership.success_threshold()
    }

    /// The stake at which failure of the view is provable.
    pub fn failure_threshold(&self) -> (r: u64)
        requires
            self.wf(),
        ensures
            r == self.membership.spec_failure_threshold(),
    {
        self.membership.failure_threshold()
    }

    /// The number of nodes in the committee.
    pub fn total_nodes(&self) -> (r: usize)
        requires
            self.wf(),
        ensures
            r == self.membership.spec_keys().len(),
    {
        self.membership.total_nodes()
    }

    /// Attempt to generate a vote token for a view.
    pub fn make_vote_token(&self, view_number: u64) -> (r: Result<
        Option<StaticVoteToken>,
        ElectionError,
    >)
        requires
            self.wf(),
        ensures
            match r {
                Ok(Some(token)) => self.membership.spec_token_valid(self.private_key.id, token)
                    && token.view_number == view_number,
                Ok(None) => spec_stake_of(self.membership.spec_table(), self.private_key.id) == 0,
                Err(_) => false,
            },
    {
        self.membership.make_vote_token(view_number, &self.private_key)
    }

    /// The contents of a vote on `commit`: a DA vote.
    pub fn vote_data(&self, commit: Commitment) -> (r: VoteData)
        ensures
            r == VoteData::DA(commit),
    {
        VoteData::DA(commit)
    }

    /// Sign a DA proposal's block commitment.
    pub fn sign_da_proposal(&self, block_commitment: &Commitment) -> (r: EncodedSignature)
        ensures
            r@ == spec_signature_bytes(self.private_key.id, block_commitment@),
    {
        sign(&self.private_key, &block_commitment.bytes)
    }

    /// Sign a vote on a DA proposal: the block commitment and the DA
    /// phase are signed.
    pub fn sign_da_vote(&self, block_commitment: Commitment) -> (r: (
        EncodedPublicKey,
        EncodedSignature,
    ))
        ensures
            r.0@ == spec_encoded_key(self.public_key.id),
            r.1@ == spec_signature_bytes(
                self.private_key.id,
                spec_vote_data_commit(VoteData::DA(block_commitment)),
            ),
    {
        let data = VoteData::DA(block_commitment);
        let commit = data.commit();
        let signature = sign(&self.private_key, &commit.bytes);
        (self.public_key.to_bytes(), signature)
    }

    /// Create a message carrying a vote on a DA proposal.
    pub fn create_da_message(
        &self,
        block_commitment: Commitment,
        current_view: u64,
        vote_token: StaticVoteToken,
    ) -> (r: CommitteeConsensusMessage)
        ensures
            ({
                &&& r matches CommitteeConsensusMessage::DAVote(v)
                &&& v@.key == spec_encoded_key(self.public_key.id)
                &&& v@.signature == spec_signature_bytes(
                    self.private_key.id,
                    spec_vote_data_commit(VoteData::DA(block_commitment)),
                )
                &&& v@.block_commitment == block_commitment@
                &&& v@.current_view == current_view
                &&& v@.vote_token == vote_token
                &&& v@.vote_commit == spec_vote_data_commit(VoteData::DA(block_commitment))
            }),
    {
        let signature = self.sign_da_vote(block_commitment.clone());
        CommitteeConsensusMessage::DAVote(
            DAVote {
                signature,
                block_commitment: block_commitment.clone(),
                current_view,
                vote_token,
                vote_data: VoteData::DA(block_commitment),
            },
        )
    }

    /// Validate a vote by checking its signature and token.
    pub fn is_valid_vote(
        &self,
        encoded_key: &EncodedPublicKey,
        encoded_signature: &EncodedSignature,
        data: &VoteData,
        vote_token: Checked<StaticVoteToken>,
    ) -> (r: bool)
        requires
            self.wf(),
        ensures
            r == spec_valid_vote(
                self.membership.spec_table(),
                encoded_key@,
                encoded_signature@,
                spec_vote_data_commit(*data),
                spec_checked_token(vote_token),
            ),
    {
        valid_vote(&self.membership, encoded_key, encoded_signature, data, vote_token)
    }

    /// Validate a DA certificate over the block commitment it should
    /// cover.
    pub fn is_valid_cert(&self, qc: &DACertificate, commit: &Commitment) -> (r: bool)
        requires
            self.wf(),
        ensures
            r == spec_valid_plain_cert(
                self.membership.spec_table(),
                self.membership.spec_success_threshold(),
                qc@.block_commitment,
                qc@.view_number,
                false,
                qc@.signatures,
                commit@,
            ),
    {
        let threshold = self.membership.success_threshold();
        valid_plain_cert(
            &self.membership,
            threshold,
            &qc.block_commitment,
            qc.view_number,
            false,
            &qc.signatures,
            commit,
        )
    }

    /// Fold a validated vote into the accumulator; emit the DA
    /// certificate once the threshold is reached.
    pub fn accumulate_internal(
        &self,
        vota_meta: VoteMetaData,
        accumulator: VoteAccumulator,
    ) -> (r: Either<VoteAccumulator, DACertificate>)
        requires
            self.wf(),
            accumulator.wf(),
            accumulator.table@ == self.membership.spec_table(),
        ensures
            match r {
                Either::Left(acc) => spec_accumulate_outcome(
                    self.membership.spec_table(),
                    vota_meta,
                    accumulator,
                    Either::Left(acc),
                ),
                Either::Right(cert) => {
                    let v = spec_meta_vote_view(vota_meta);
                    &&& spec_meta_admissible(self.membership.spec_table(), vota_meta)
                    &&& !accumulator.spec_rejects(v.commitment, v.phase, v.signer_id)
                    &&& cert@.view_number == vota_meta.view_number
                    &&& cert@.block_commitment == vota_meta.commitment@
                    &&& spec_emitted_signatures(
                        self.membership.spec_table(),
                        accumulator.threshold,
                        v,
                        spec_outcome_views(accumulator.vote_outcomes@),
                        cert@.signatures,
                    )
                },
            },
    {
        let view_number = vota_meta.view_number;
        let relay = vota_meta.relay;
        let commitment = vota_meta.commitment.clone();
        match accumulate_checked(&self.membership, vota_meta, accumulator) {
            Either::Left(acc) => Either::Left(acc),
            Either::Right(signatures) => Either::Right(
                DACertificate::from_signatures_and_commitment(
                    view_number,
                    signatures,
                    commitment,
                    relay,
                ),
            ),
        }
    }

    /// Add a vote to the accumulating signature; return the certificate
    /// if the vote brings the commitment over the threshold, else the
    /// updated accumulator.
    pub fn accumulate_vote(
        &self,
        encoded_key: &EncodedPublicKey,
        encoded_signature: &EncodedSignature,
        leaf_commitment: Commitment,
        vote_data: VoteData,
        vote_token: StaticVoteToken,
        view_number: u64,
        accumulator: VoteAccumulator,
        relay: Option<u64>,
    ) -> (r: Either<VoteAccumulator, DACertificate>)
        requires
            self.wf(),
            accumulator.wf(),
            accumulator.table@ == self.membership.spec_table(),
        ensures
            ({
                let table = self.membership.spec_table();
                let adm = spec_vote_admissible_parts(
                    table,
                    encoded_key@,
                    encoded_signature@,
                    leaf_commitment@,
                    vote_data,
                    vote_token,
                );
                let v = spec_vote_view(
                    encoded_key@,
                    encoded_signature@,
                    leaf_commitment@,
                    vote_data,
                    vote_token,
                );
                match r {
                    Either::Left(acc) => spec_accumulate_step(
                        table,
                        adm,
                        v,
                        accumulator,
                        Either::Left(acc),
                    ),
                    Either::Right(cert) => {
                        &&& adm
                        &&& !accumulator.spec_rejects(v.commitment, v.phase, v.signer_id)
                        &&& cert@.view_number == view_number
                        &&& cert@.block_commitment == leaf_commitment@
                        &&& spec_emitted_signatures(
                            table,
                            accumulator.threshold,
                            v,
                            spec_outcome_views(accumulator.vote_outcomes@),
                            cert@.signatures,
                        )
                    },
                }
            }),
    {
        let meta = VoteMetaData {
            encoded_key: encoded_key.clone(),
            encoded_signature: encoded_signature.clone(),
            commitment: leaf_commitment,
            data: vote_data,
            vote_token,
            view_number,
            relay: None,
        };
        self.accumulate_internal(meta, accumulator)
    }
}

/// The quorum exchange: participants vote to append leaves to the log.
pub struct QuorumExchange {
    /// The committee which votes on proposals.
    pub membership: StaticCommittee,
    /// This participant's public key.
    pub public_key: PublicKey,
    /// Entry with public key and staking value for certificate
    /// aggregation.
    pub entry: StakeTableEntry,
    /// This participant's private key.
    pub private_key: PrivateKey,
}

impl QuorumExchange {
    /// A sound exchange: a sound committee and a matched key pair.
    pub open spec fn wf(&self) -> bool {
        &&& self.membership.wf()
        &&& self.public_key.id == self.private_key.id
    }

    /// Join an exchange with the given identity.
    pub fn create(
        entries: Vec<StakeTableEntry>,
        keys: Vec<PublicKey>,
        config: StaticElectionConfig,
        pk: PublicKey,
        entry: StakeTableEntry,
        sk: PrivateKey,
    ) -> (r: QuorumExchange)
        ensures
            r.membership.entries@ == entries@,
            r.membership.keys@ == keys@,
            r.membership.config == config,
            r.public_key.id == pk.id,
            r.private_key.id == sk.id,
            r.entry == entry,
    {
        let membership = StaticCommittee::create_election(entries, keys, config);
        QuorumExchange { membership, public_key: pk, entry, private_key: sk }
    }

    /// The committee which votes on proposals.
    pub fn membership(&self) -> (r: &StaticCommittee)
        ensures
            r == &self.membership,
    {
        &self.membership
    }

    /// This participant's public key.
    pub fn public_key(&self) -> (r: &PublicKey)
        ensures
            r.id == self.public_key.id,
    {
        &self.public_key
    }

    /// This participant's private key.
    pub fn private_key(&self) -> (r: &PrivateKey)
        ensures
            r.id == self.private_key.id,
    {
        &self.private_key
    }

    /// The leader of the committee at a view.
    pub fn get_leader(&self, view_number: u64) -> (r: PublicKey)
        requires
            self.wf(),
        ensures
            r.id == self.membership.spec_leader(view_number),
    {
        self.membership.get_leader(view_number)
    }

    /// Whether this participant leads at a view.
    pub fn is_leader(&self, view_number: u64) -> (r: bool)
        requires
            self.wf(),
        ensures
            r == (self.membership.spec_leader(view_number) == self.public_key.id),
    {
        let leader = self.membership.get_leader(view_number);
        leader.id == self.public_key.id
    }

    /// The stake at which a certificate forms.
    pub fn success_threshold(&self) -> (r: u64)
        requires
            self.wf(),
        ensures
            r == self.membership.spec_success_threshold(),
    {
        self.membership.success_threshold()
    }

    /// The stake at which failure of the view is provable.
    pub fn failure_threshold(&self) -> (r: u64)
        requires
            self.wf(),
        ensures
            r == self.membership.spec_failure_threshold(),
    {
        self.membership.failure_threshold()
    }

    /// The number of nodes in the committee.
    pub fn total_nodes(&self) -> (r: usize)
        requires
            self.wf(),
        ensures
            r == self.membership.spec_keys().len(),
    {
        self.membership.total_nodes()
    }

    /// Attempt to generate a vote token for a view.
    pub fn make_vote_token(&self, view_number: u64) -> (r: Result<
        Option<StaticVoteToken>,
        ElectionError,
    >)
        requires
            self.wf(),
        ensures
            match r {
                Ok(Some(token)) => self.membership.spec_token_valid(self.private_key.id, token)
                    && token.view_number == view_number,
                Ok(None) => spec_stake_of(self.membership.spec_table(), self.private_key.id) == 0,
                Err(_) => false,
            },
    {
        self.membership.make_vote_token(view_number, &self.private_key)
    }

    /// The contents of a vote on `commit`: a Yes vote.
    pub fn vote_data(&self, commit: Commitment) -> (r: VoteData)
        ensures
            r == VoteData::Yes(commit),
    {
        VoteData::Yes(commit)
    }

    /// Sign a commitment proposal: the bare leaf commitment is signed.
    pub fn sign_validating_or_commitment_proposal(&self, leaf_commitment: &Commitment) -> (r:
        EncodedSignature)
        ensures
            r@ == spec_signature_bytes(self.private_key.id, leaf_commitment@),
    {
        sign(&self.private_key, &leaf_commitment.bytes)
    }

    /// Sign a positive vote: the leaf commitment and the Yes phase are
    /// signed.
    pub fn sign_yes_vote(&self, leaf_commitment: Commitment) -> (r: (
        EncodedPublicKey,
        EncodedSignature,
    ))
        ensures
            r.0@ == spec_encoded_key(self.public_key.id),
            r.1@ == spec_signature_bytes(
                self.private_key.id,
                spec_vote_data_commit(VoteData::Yes(leaf_commitment)),
            ),
    {
        let data = VoteData::Yes(leaf_commitment);
        let commit = data.commit();
        let signature = sign(&self.private_key, &commit.bytes);
        (self.public_key.to_bytes(), signature)
    }

    /// Sign a negative vote: the leaf commitment and the No phase are
    /// signed.
    pub fn sign_no_vote(&self, leaf_commitment: Commitment) -> (r: (
        EncodedPublicKey,
        EncodedSignature,
    ))
        ensures
            r.0@ == spec_encoded_key(self.public_key.id),
            r.1@ == spec_signature_bytes(
                self.private_key.id,
                spec_vote_data_commit(VoteData::No(leaf_commitment)),
            ),
    {
        let data = VoteData::No(leaf_commitment);
        let commit = data.commit();
        let signature = sign(&self.private_key, &commit.bytes);
        (self.public_key.to_bytes(), signature)
    }

    /// Sign a timeout vote: only the view number, under the Timeout
    /// phase, is signed.
    pub fn sign_timeout_vote(&self, view_number: u64) -> (r: (
        EncodedPublicKey,
        EncodedSignature,
    ))
        ensures
            r.0@ == spec_encoded_key(self.public_key.id),
            r.1@ == spec_signature_bytes(
                self.private_key.id,
                crate::commitment::spec_tag_timeout_vote() + spec_view_number_commit(view_number),
            ),
    {
        let data = VoteData::Timeout(view_number_commit(view_number));
        let commit = data.commit();
        let signature = sign(&self.private_key, &commit.bytes);
        (self.public_key.to_bytes(), signature)
    }

    /// Create a message with a positive vote on a commitment proposal.
    pub fn create_yes_message(
        &self,
        justify_qc_commitment: Commitment,
        leaf_commitment: Commitment,
        current_view: u64,
        vote_token: StaticVoteToken,
    ) -> (r: GeneralConsensusMessage)
        ensures
            ({
                &&& r matches GeneralConsensusMessage::Vote(QuorumVote::Yes(v))
                &&& v@.justify_qc_commitment == justify_qc_commitment@
                &&& v@.key == spec_encoded_key(self.public_key.id)
                &&& v@.signature == spec_signature_bytes(
                    self.private_key.id,
                    spec_vote_data_commit(VoteData::Yes(leaf_commitment)),
                )
                &&& v@.leaf_commitment == leaf_commitment@
                &&& v@.current_view == current_view
                &&& v@.vote_token == vote_token
                &&& v@.vote_commit == spec_vote_data_commit(VoteData::Yes(leaf_commitment))
            }),
    {
        let signature = self.sign_yes_vote(leaf_commitment.clone());
        GeneralConsensusMessage::Vote(
            QuorumVote::Yes(
                YesOrNoVote {
                    justify_qc_commitment,
                    signature,
                    leaf_commitment: leaf_commitment.clone(),
                    current_view,
                    vote_token,
                    vote_data: VoteData::Yes(leaf_commitment),
                },
            ),
        )
    }

    /// Create a message with a negative vote on a commitment proposal.
    pub fn create_no_message(
        &self,
        justify_qc_commitment: Commitment,
        leaf_commitment: Commitment,
        current_view: u64,
        vote_token: StaticVoteToken,
    ) -> (r: GeneralConsensusMessage)
        ensures
            ({
                &&& r matches GeneralConsensusMessage::Vote(QuorumVote::No(v))
                &&& v@.justify_qc_commitment == justify_qc_commitment@
                &&& v@.key == spec_encoded_key(self.public_key.id)
                &&& v@.signature == spec_signature_bytes(
                    self.private_key.id,
                    spec_vote_data_commit(VoteData::No(leaf_commitment)),
                )
                &&& v@.leaf_commitment == leaf_commitment@
                &&& v@.current_view == current_view
                &&& v@.vote_token == vote_token
                &&& v@.vote_commit == spec_vote_data_commit(VoteData::No(leaf_commitment))
            }),
    {
        let signature = self.sign_no_vote(leaf_commitment.clone());
        GeneralConsensusMessage::Vote(
            QuorumVote::No(
                YesOrNoVote {
                    justify_qc_commitment,
                    signature,
                    leaf_commitment: leaf_commitment.clone(),
                    current_view,
                    vote_token,
                    vote_data: VoteData::No(leaf_commitment),
                },
            ),
        )
    }

    /// Create a message with a timeout vote, carrying the highest
    /// justifying certificate this participant knows.
    pub fn create_timeout_message(
        &self,
        justify_qc: QuorumCertificate,
        current_view: u64,
        vote_token: StaticVoteToken,
    ) -> (r: GeneralConsensusMessage)
        ensures
            ({
                &&& r matches GeneralConsensusMessage::Vote(QuorumVote::Timeout(v))
                &&& v@.justify_qc == justify_qc@
                &&& v@.key == spec_encoded_key(self.public_key.id)
                &&& v@.current_view == current_view
                &&& v@.vote_token == vote_token
                &&& v@.vote_commit == crate::commitment::spec_tag_timeout_vote()
                    + spec_view_number_commit(current_view)
                &&& v@.signature == spec_signature_bytes(self.private_key.id, v@.vote_commit)
            }),
    {
        let signature = self.sign_timeout_vote(current_view);
        let vote_data = VoteData::Timeout(view_number_commit(current_view));
        GeneralConsensusMessage::Vote(
            QuorumVote::Timeout(
                TimeoutVote { justify_qc, signature, current_view, vote_token, vote_data },
            ),
        )
    }

    /// Validate a vote by checking its signature and token.
    pub fn is_valid_vote(
        &self,
        encoded_key: &EncodedPublicKey,
        encoded_signature: &EncodedSignature,
        data: &VoteData,
        vote_token: Checked<StaticVoteToken>,
    ) -> (r: bool)
        requires
            self.wf(),
        ensures
            r == spec_valid_vote(
                self.membership.spec_table(),
                encoded_key@,
                encoded_signature@,
                spec_vote_data_commit(*data),
                spec_checked_token(vote_token),
            ),
    {
        valid_vote(&self.membership, encoded_key, encoded_signature, data, vote_token)
    }

    /// Validate a quorum certificate over the leaf commitment it should
    /// cover.  The genesis certificate of the genesis view is valid by
    /// itself.
    pub fn is_valid_cert(&self, qc: &QuorumCertificate, commit: &Commitment) -> (r: bool)
        requires
            self.wf(),
        ensures
            r == spec_valid_plain_cert(
                self.membership.spec_table(),
                self.membership.spec_success_threshold(),
                qc@.leaf_commitment,
                qc@.view_number,
                qc@.is_genesis,
                qc@.signatures,
                commit@,
            ),
    {
        let threshold = self.membership.success_threshold();
        valid_plain_cert(
            &self.membership,
            threshold,
            &qc.leaf_commitment,
            qc.view_number,
            qc.is_genesis,
            &qc.signatures,
            commit,
        )
    }

    /// Fold a validated vote into the accumulator; emit the quorum
    /// certificate once the threshold is reached.
    pub fn accumulate_internal(
        &self,
        vota_meta: VoteMetaData,
        accumulator: VoteAccumulator,
    ) -> (r: Either<VoteAccumulator, QuorumCertificate>)
        requires
            self.wf(),
            accumulator.wf(),
            accumulator.table@ == self.membership.spec_table(),
        ensures
            match r {
                Either::Left(acc) => spec_accumulate_outcome(
                    self.membership.spec_table(),
                    vota_meta,
                    accumulator,
                    Either::Left(acc),
                ),
                Either::Right(cert) => {
                    let v = spec_meta_vote_view(vota_meta);
                    &&& spec_meta_admissible(self.membership.spec_table(), vota_meta)
                    &&& !accumulator.spec_rejects(v.commitment, v.phase, v.signer_id)
                    &&& cert@.view_number == vota_meta.view_number
                    &&& cert@.leaf_commitment == vota_meta.commitment@
                    &&& !cert@.is_genesis
                    &&& spec_emitted_signatures(
                        self.membership.spec_table(),
                        accumulator.threshold,
                        v,
                        spec_outcome_views(accumulator.vote_outcomes@),
                        cert@.signatures,
                    )
                },
            },
    {
        let view_number = vota_meta.view_number;
        let relay = vota_meta.relay;
        let commitment = vota_meta.commitment.clone();
        match accumulate_checked(&self.membership, vota_meta, accumulator) {
            Either::Left(acc) => Either::Left(acc),
            Either::Right(signatures) => Either::Right(
                QuorumCertificate::from_signatures_and_commitment(
                    view_number,
                    signatures,
                    commitment,
                    relay,
                ),
            ),
        }
    }

    /// Add a vote to the accumulating signature; return the certificate
    /// if the vote brings the commitment over the threshold, else the
    /// updated accumulator.
    pub fn accumulate_vote(
        &self,
        encoded_key: &EncodedPublicKey,
        encoded_signature: &EncodedSignature,
        leaf_commitment: Commitment,
        vote_data: VoteData,
        vote_token: StaticVoteToken,
        view_number: u64,
        accumulator: VoteAccumulator,
        relay: Option<u64>,
    ) -> (r: Either<VoteAccumulator, QuorumCertificate>)
        requires
            self.wf(),
            accumulator.wf(),
            accumulator.table@ == self.membership.spec_table(),
        ensures
            ({
                let table = self.membership.spec_table();
                let adm = spec_vote_admissible_parts(
                    table,
                    encoded_key@,
                    encoded_signature@,
                    leaf_commitment@,
                    vote_data,
                    vote_token,
                );
                let v = spec_vote_view(
                    encoded_key@,
                    encoded_signature@,
                    leaf_commitment@,
                    vote_data,
                    vote_token,
                );
                match r {
                    Either::Left(acc) => spec_accumulate_step(
                        table,
                        adm,
                        v,
                        accumulator,
                        Either::Left(acc),
                    ),
                    Either::Right(cert) => {
                        &&& adm
                        &&& !accumulator.spec_rejects(v.commitment, v.phase, v.signer_id)
                        &&& cert@.view_number == view_number
                        &&& cert@.leaf_commitment == leaf_commitment@
                        &&& !cert@.is_genesis
                        &&& spec_emitted_signatures(
                            table,
                            accumulator.threshold,
                            v,
                            spec_outcome_views(accumulator.vote_outcomes@),
                            cert@.signatures,
                        )
                    },
                }
            }),
    {
        let meta = VoteMetaData {
            encoded_key: encoded_key.clone(),
            encoded_signature: encoded_signature.clone(),
            commitment: leaf_commitment,
            data: vote_data,
            vote_token,
            view_number,
            relay: None,
        };
        self.accumulate_internal(meta, accumulator)
    }
}

/// A valid view-sync certificate for a round: the aggregate of the
/// certificate's own phase, checked over the view-sync data derived from
/// the relay's key, at the failure threshold for the pre-commit phase
/// and the success threshold beyond it.
pub open spec fn spec_valid_view_sync_cert(
    membership: StaticCommittee,
    cert: crate::certificate::ViewSyncCertificateView,
    round: u64,
) -> bool {
    let internal = crate::certificate::spec_view_sync_cert_internal(cert);
    if round + internal.relay > u64::MAX {
        false
    } else {
        let relay_key = spec_encoded_key(
            membership.spec_leader((round + internal.relay) as u64),
        );
        let data_commit = spec_view_sync_data_commit(
            ViewSyncDataView { relay: relay_key, round },
        );
        match cert {
            crate::certificate::ViewSyncCertificateView::PreCommit(i) => match i.signatures {
                AssembledSignatureView::ViewSyncPreCommit(pairs) => spec_check_aggregate(
                    membership.spec_table(),
                    membership.spec_failure_threshold(),
                    crate::commitment::spec_tag_view_sync_precommit() + data_commit,
                    pairs,
                ),
                _ => false,
            },
            crate::certificate::ViewSyncCertificateView::Commit(i) => match i.signatures {
                AssembledSignatureView::ViewSyncCommit(pairs) => spec_check_aggregate(
                    membership.spec_table(),
                    membership.spec_success_threshold(),
                    crate::commitment::spec_tag_view_sync_commit() + data_commit,
                    pairs,
                ),
                _ => false,
            },
            crate::certificate::ViewSyncCertificateView::Finalize(i) => match i.signatures {
                AssembledSignatureView::ViewSyncFinalize(pairs) => spec_check_aggregate(
                    membership.spec_table(),
                    membership.spec_success_threshold(),
                    crate::commitment::spec_tag_view_sync_finalize() + data_commit,
                    pairs,
                ),
                _ => false,
            },
        }
    }
}

/// A view-sync certificate that verifies carries signers whose stake
/// reaches the threshold of its phase.
pub proof fn lemma_valid_view_sync_cert_threshold(
    membership: StaticCommittee,
    cert: crate::certificate::ViewSyncCertificateView,
    round: u64,
)
    requires
        spec_valid_view_sync_cert(membership, cert, round),
    ensures
        spec_signed_stake(
            membership.spec_table(),
            spec_assembled_pairs(crate::certificate::spec_view_sync_cert_internal(cert).signatures),
        ) >= (if cert matches crate::certificate::ViewSyncCertificateView::PreCommit(_) {
            membership.spec_failure_threshold()
        } else {
            membership.spec_success_threshold()
        }),
{
}

/// The view-sync exchange: participants vote to re-align the network on
/// a common view.
pub struct ViewSyncExchange {
    /// The committee which votes on proposals.
    pub membership: StaticCommittee,
    /// This participant's public key.
    pub public_key: PublicKey,
    /// Entry with public key and staking value for certificate
    /// aggregation.
    pub entry: StakeTableEntry,
    /// This participant's private key.
    pub private_key: PrivateKey,
}

impl ViewSyncExchange {
    /// A sound exchange: a sound committee and a matched key pair.
    pub open spec fn wf(&self) -> bool {
        &&& self.membership.wf()
        &&& self.public_key.id == self.private_key.id
    }

    /// Join an exchange with the given identity.
    pub fn create(
        entries: Vec<StakeTableEntry>,
        keys: Vec<PublicKey>,
        config: StaticElectionConfig,
        pk: PublicKey,
        entry: StakeTableEntry,
        sk: PrivateKey,
    ) -> (r: ViewSyncExchange)
        ensures
            r.membership.entries@ == entries@,
            r.membership.keys@ == keys@,
            r.membership.config == config,
            r.public_key.id == pk.id,
            r.private_key.id == sk.id,
            r.entry == entry,
    {
        let membership = StaticCommittee::create_election(entries, keys, config);
        ViewSyncExchange { membership, public_key: pk, entry, private_key: sk }
    }

    /// The committee which votes on proposals.
    pub fn membership(&self) -> (r: &StaticCommittee)
        ensures
            r == &self.membership,
    {
        &self.membership
    }

    /// This participant's public key.
    pub fn public_key(&self) -> (r: &PublicKey)
        ensures
            r.id == self.public_key.id,
    {
        &self.public_key
    }

    /// This participant's private key.
    pub fn private_key(&self) -> (r: &PrivateKey)
        ensures
            r.id == self.private_key.id,
    {
        &self.private_key
    }

    /// The leader of the committee at a view.
    pub fn get_leader(&self, view_number: u64) -> (r: PublicKey)
        requires
            self.wf(),
        ensures
            r.id == self.membership.spec_leader(view_number),
    {
        self.membership.get_leader(view_number)
    }

    /// The stake at which a certificate forms.
    pub fn success_threshold(&self) -> (r: u64)
        requires
            self.wf(),
        ensures
            r == self.membership.spec_success_threshold(),
    {
        self.membership.success_threshold()
    }

    /// The stake at which failure of the view is provable.
    pub fn failure_threshold(&self) -> (r: u64)
        requires
            self.wf(),
        ensures
            r == self.membership.spec_failure_threshold(),
    {
        self.membership.failure_threshold()
    }

    /// Attempt to generate a vote token for a view.
    pub fn make_vote_token(&self, view_number: u64) -> (r: Result<
        Option<StaticVoteToken>,
        ElectionError,
    >)
        requires
            self.wf(),
        ensures
            match r {
                Ok(Some(token)) => self.membership.spec_token_valid(self.private_key.id, token)
                    && token.view_number == view_number,
                Ok(None) => spec_stake_of(self.membership.spec_table(), self.private_key.id) == 0,
                Err(_) => false,
            },
    {
        self.membership.make_vote_token(view_number, &self.private_key)
    }

    /// Sign a pre-commit vote over a view-sync data commitment.
    pub fn sign_precommit_message(&self, commitment: Commitment) -> (r: (
        EncodedPublicKey,
        EncodedSignature,
    ))
        ensures
            r.0@ == spec_encoded_key(self.public_key.id),
            r.1@ == spec_signature_bytes(
                self.private_key.id,
                spec_vote_data_commit(VoteData::ViewSyncPreCommit(commitment)),
            ),
    {
        let data = VoteData::ViewSyncPreCommit(commitment);
        let commit = data.commit();
        let signature = sign(&self.private_key, &commit.bytes);
        (self.public_key.to_bytes(), signature)
    }

    /// Sign a commit vote over a view-sync data commitment.
    pub fn sign_commit_message(&self, commitment: Commitment) -> (r: (
        EncodedPublicKey,
        EncodedSignature,
    ))
        ensures
            r.0@ == spec_encoded_key(self.public_key.id),
            r.1@ == spec_signature_bytes(
                self.private_key.id,
                spec_vote_data_commit(VoteData::ViewSyncCommit(commitment)),
            ),
    {
        let data = VoteData::ViewSyncCommit(commitment);
        let commit = data.commit();
        let signature = sign(&self.private_key, &commit.bytes);
        (self.public_key.to_bytes(), signature)
    }

    /// Sign a finalize vote over a view-sync data commitment.
    pub fn sign_finalize_message(&self, commitment: Commitment) -> (r: (
        EncodedPublicKey,
        EncodedSignature,
    ))
        ensures
            r.0@ == spec_encoded_key(self.public_key.id),
            r.1@ == spec_signature_bytes(
                self.private_key.id,
                spec_vote_data_commit(VoteData::ViewSyncFinalize(commitment)),
            ),
    {
        let data = VoteData::ViewSyncFinalize(commitment);
        let commit = data.commit();
        let signature = sign(&self.private_key, &commit.bytes);
        (self.public_key.to_bytes(), signature)
    }

    /// Create a pre-commit vote addressed through the relay.
    pub fn create_precommit_message(&self, round: u64, relay: u64, vote_token: StaticVoteToken)
        -> (r: GeneralConsensusMessage)
        requires
            self.wf(),
            round + relay <= u64::MAX,
        ensures
            ({
                let relay_key = spec_encoded_key(
                    self.membership.spec_leader((round + relay) as u64),
                );
                let data_commit = spec_view_sync_data_commit(
                    ViewSyncDataView { relay: relay_key, round },
                );
                &&& r matches GeneralConsensusMessage::ViewSyncVote(ViewSyncVote::PreCommit(v))
                &&& v@.relay_pub_key == relay_key
                &&& v@.relay == relay
                &&& v@.round == round
                &&& v@.key == spec_encoded_key(self.public_key.id)
                &&& v@.vote_commit == crate::commitment::spec_tag_view_sync_precommit()
                    + data_commit
                &&& v@.signature == spec_signature_bytes(self.private_key.id, v@.vote_commit)
                &&& v@.vote_token == vote_token
            }),
    {
        let relay_pub_key = self.get_leader(round + relay).to_bytes();
        let vote_data_internal = ViewSyncData { relay: relay_pub_key.clone(), round };
        let vote_data_internal_commitment = vote_data_internal.commit();
        let signature = self.sign_precommit_message(vote_data_internal_commitment.clone());
        GeneralConsensusMessage::ViewSyncVote(
            ViewSyncVote::PreCommit(
                ViewSyncVoteInternal {
                    relay_pub_key,
                    relay,
                    round,
                    signature,
                    vote_token,
                    vote_data: VoteData::ViewSyncPreCommit(vote_data_internal_commitment),
                },
            ),
        )
    }

    /// Create a commit vote addressed through the relay.
    pub fn create_commit_message(&self, round: u64, relay: u64, vote_token: StaticVoteToken) -> (r:
        GeneralConsensusMessage)
        requires
            self.wf(),
            round + relay <= u64::MAX,
        ensures
            ({
                let relay_key = spec_encoded_key(
                    self.membership.spec_leader((round + relay) as u64),
                );
                let data_commit = spec_view_sync_data_commit(
                    ViewSyncDataView { relay: relay_key, round },
                );
                &&& r matches GeneralConsensusMessage::ViewSyncVote(ViewSyncVote::Commit(v))
                &&& v@.relay_pub_key == relay_key
                &&& v@.relay == relay
                &&& v@.round == round
                &&& v@.key == spec_encoded_key(self.public_key.id)
                &&& v@.vote_commit == crate::commitment::spec_tag_view_sync_commit() + data_commit
                &&& v@.signature == spec_signature_bytes(self.private_key.id, v@.vote_commit)
                &&& v@.vote_token == vote_token
            }),
    {
        let relay_pub_key = self.get_leader(round + relay).to_bytes();
        let vote_data_internal = ViewSyncData { relay: relay_pub_key.clone(), round };
        let vote_data_internal_commitment = vote_data_internal.commit();
        let signature = self.sign_commit_message(vote_data_internal_commitment.clone());
        GeneralConsensusMessage::ViewSyncVote(
            ViewSyncVote::Commit(
                ViewSyncVoteInternal {
                    relay_pub_key,
                    relay,
                    round,
                    signature,
                    vote_token,
                    vote_data: VoteData::ViewSyncCommit(vote_data_internal_commitment),
                },
            ),
        )
    }

    /// Create a finalize vote addressed through the relay.
    pub fn create_finalize_message(&self, round: u64, relay: u64, vote_token: StaticVoteToken)
        -> (r: GeneralConsensusMessage)
        requires
            self.wf(),
            round + relay <= u64::MAX,
        ensures
            ({
                let relay_key = spec_encoded_key(
                    self.membership.spec_leader((round + relay) as u64),
                );
                let data_commit = spec_view_sync_data_commit(
                    ViewSyncDataView { relay: relay_key, round },
                );
                &&& r matches GeneralConsensusMessage::ViewSyncVote(ViewSyncVote::Finalize(v))
                &&& v@.relay_pub_key == relay_key
                &&& v@.relay == relay
                &&& v@.round == round
                &&& v@.key == spec_encoded_key(self.public_key.id)
                &&& v@.vote_commit == crate::commitment::spec_tag_view_sync_finalize()
                    + data_commit
                &&& v@.signature == spec_signature_bytes(self.private_key.id, v@.vote_commit)
                &&& v@.vote_token == vote_token
            }),
    {
        let relay_pub_key = self.get_leader(round + relay).to_bytes();
        let vote_data_internal = ViewSyncData { relay: relay_pub_key.clone(), round };
        let vote_data_internal_commitment = vote_data_internal.commit();
        let signature = self.sign_finalize_message(vote_data_internal_commitment.clone());
        GeneralConsensusMessage::ViewSyncVote(
            ViewSyncVote::Finalize(
                ViewSyncVoteInternal {
                    relay_pub_key,
                    relay,
                    round,
                    signature,
                    vote_token,
                    vote_data: VoteData::ViewSyncFinalize(vote_data_internal_commitment),
                },
            ),
        )
    }

    /// Validate a view-sync certificate for a round.
    pub fn is_valid_view_sync_cert(&self, certificate: &ViewSyncCertificate, round: u64) -> (r:
        bool)
        requires
            self.wf(),
        ensures
            r == spec_valid_view_sync_cert(self.membership, certificate@, round),
    {
        let internal = certificate.internal();
        let relay = internal.relay;
        if relay > u64::MAX - round {
            return false;
        }
        let relay_key = self.get_leader(round + relay).to_bytes();
        let vote_data = ViewSyncData { relay: relay_key, round };
        let data_commitment = vote_data.commit();
        let table = self.membership.get_committee_qc_stake_table();
        match certificate {
            ViewSyncCertificate::PreCommit(c) => match &c.signatures {
                AssembledSignature::ViewSyncPreCommit(aggregate) => {
                    let message = VoteData::ViewSyncPreCommit(data_commitment).commit();
                    let threshold = self.membership.failure_threshold();
                    check_aggregate(&table, threshold, &message.bytes, aggregate)
                },
                _ => false,
            },
            ViewSyncCertificate::Commit(c) => match &c.signatures {
                AssembledSignature::ViewSyncCommit(aggregate) => {
                    let message = VoteData::ViewSyncCommit(data_commitment).commit();
                    let threshold = self.membership.success_threshold();
                    check_aggregate(&table, threshold, &message.bytes, aggregate)
                },
                _ => false,
            },
            ViewSyncCertificate::Finalize(c) => match &c.signatures {
                AssembledSignature::ViewSyncFinalize(aggregate) => {
                    let message = VoteData::ViewSyncFinalize(data_commitment).commit();
                    let threshold = self.membership.success_threshold();
                    check_aggregate(&table, threshold, &message.bytes, aggregate)
                },
                _ => false,
            },
        }
    }

    /// Sign a view-sync certificate's commitment for relaying.
    pub fn sign_certificate_proposal(&self, certificate: &ViewSyncCertificate) -> (r:
        EncodedSignature)
        ensures
            r@ == spec_signature_bytes(
                self.private_key.id,
                crate::certificate::spec_view_sync_cert_commit(certificate@),
            ),
    {
        let commit = certificate.commit();
        sign(&self.private_key, &commit.bytes)
    }

    /// Fold a validated view-sync vote into the accumulator; emit the
    /// phase's certificate once the threshold is reached.  The vote must
    /// name a relay and a view-sync phase.
    pub fn accumulate_internal(
        &self,
        vota_meta: VoteMetaData,
        accumulator: VoteAccumulator,
    ) -> (r: Either<VoteAccumulator, ViewSyncCertificate>)
        requires
            self.wf(),
            accumulator.wf(),
            accumulator.table@ == self.membership.spec_table(),
        ensures
            ({
                let phase = spec_vote_data_phase_byte(vota_meta.data);
                let vs_ok = vota_meta.relay is Some && 4 <= phase <= 6;
                match r {
                    Either::Left(acc) => {
                        &&& acc.wf()
                        &&& acc.table@ == accumulator.table@
                        &&& acc.threshold == accumulator.threshold
                        &&& (!vs_ok ==> spec_outcome_views(acc.vote_outcomes@)
                            == spec_outcome_views(accumulator.vote_outcomes@))
                        &&& (vs_ok ==> spec_accumulate_outcome(
                            self.membership.spec_table(),
                            vota_meta,
                            accumulator,
                            Either::Left(acc),
                        ))
                    },
                    Either::Right(cert) => {
                        let internal = crate::certificate::spec_view_sync_cert_internal(cert@);
                        let v = spec_meta_vote_view(vota_meta);
                        &&& vs_ok
                        &&& spec_meta_admissible(self.membership.spec_table(), vota_meta)
                        &&& !accumulator.spec_rejects(v.commitment, v.phase, v.signer_id)
                        &&& internal.round == vota_meta.view_number
                        &&& internal.relay == vota_meta.relay.unwrap()
                        &&& spec_emitted_signatures(
                            self.membership.spec_table(),
                            accumulator.threshold,
                            v,
                            spec_outcome_views(accumulator.vote_outcomes@),
                            internal.signatures,
                        )
                    },
                }
            }),
    {
        let view_number = vota_meta.view_number;
        let relay = match vota_meta.relay {
            Some(relay_index) => relay_index,
            None => {
                return Either::Left(accumulator);
            },
        };
        let phase = vota_meta.data.phase_byte();
        if phase < 4 {
            return Either::Left(accumulator);
        }
        let commitment = vota_meta.commitment.clone();
        match accumulate_checked(&self.membership, vota_meta, accumulator) {
            Either::Left(acc) => Either::Left(acc),
            Either::Right(signatures) => {
                proof {
                    assert(signatures@ matches AssembledSignatureView::ViewSyncPreCommit(_)
                        || signatures@ matches AssembledSignatureView::ViewSyncCommit(_)
                        || signatures@ matches AssembledSignatureView::ViewSyncFinalize(_));
                }
                Either::Right(
                    ViewSyncCertificate::from_signatures_and_commitment(
                        view_number,
                        signatures,
                        commitment,
                        Some(relay),
                    ),
                )
            },
        }
    }

    /// Add a view-sync vote to the accumulating signature; return the
    /// certificate if the vote brings the commitment over the threshold,
    /// else the updated accumulator.
    pub fn accumulate_vote(
        &self,
        encoded_key: &EncodedPublicKey,
        encoded_signature: &EncodedSignature,
        leaf_commitment: Commitment,
        vote_data: VoteData,
        vote_token: StaticVoteToken,
        view_number: u64,
        accumulator: VoteAccumulator,
        relay: Option<u64>,
    ) -> (r: Either<VoteAccumulator, ViewSyncCertificate>)
        requires
            self.wf(),
            accumulator.wf(),
            accumulator.table@ == self.membership.spec_table(),
        ensures
            ({
                let table = self.membership.spec_table();
                let phase = spec_vote_data_phase_byte(vote_data);
                let vs_ok = relay is Some && 4 <= phase <= 6;
                let adm = spec_vote_admissible_parts(
                    table,
                    encoded_key@,
                    encoded_signature@,
                    leaf_commitment@,
                    vote_data,
                    vote_token,
                );
                let v = spec_vote_view(
                    encoded_key@,
                    encoded_signature@,
                    leaf_commitment@,
                    vote_data,
                    vote_token,
                );
                match r {
                    Either::Left(acc) => {
                        &&& acc.wf()
                        &&& acc.table@ == accumulator.table@
                        &&& acc.threshold == accumulator.threshold
                        &&& (!vs_ok ==> spec_outcome_views(acc.vote_outcomes@)
                            == spec_outcome_views(accumulator.vote_outcomes@))
                        &&& (vs_ok ==> spec_accumulate_step(
                            table,
                            adm,
                            v,
                            accumulator,
                            Either::Left(acc),
                        ))
                    },
                    Either::Right(cert) => {
                        let internal = crate::certificate::spec_view_sync_cert_internal(cert@);
                        &&& vs_ok
                        &&& adm
                        &&& !accumulator.spec_rejects(v.commitment, v.phase, v.signer_id)
                        &&& internal.round == view_number
                        &&& internal.relay == relay.unwrap()
                        &&& spec_emitted_signatures(
                            table,
                            accumulator.threshold,
                            v,
                            spec_outcome_views(accumulator.vote_outcomes@),
                            internal.signatures,
                        )
                    },
                }
            }),
    {
        let meta = VoteMetaData {
            encoded_key: encoded_key.clone(),
            encoded_signature: encoded_signature.clone(),
            commitment: leaf_commitment,
            data: vote_data,
            vote_token,
            view_number,
            relay,
        };
        self.accumulate_internal(meta, accumulator)
    }
}

} // verus!
