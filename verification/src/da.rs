//! The leader tasks that drive one view: the DA leader that proposes a
//! block and collects availability votes, the consensus leader that
//! chains the block into a leaf and proposes it, and the next leader
//! that collects quorum votes at the view boundary.
//!
//! Waiting — on the mempool, the vote channel and timers — belongs to
//! the host; each task here is the decision core the host drives: pure
//! steps from state and message to next state and action.

use vstd::prelude::*;

use crate::accumulator::{spec_outcome_views, VoteAccumulator};
use crate::certificate::{DACertificate, QuorumCertificate};
use crate::commitment::Commitment;
use crate::consensus::{spec_view_lookup, Consensus, ViewInner, ViewInnerView};
use crate::data::{
    spec_block_commit, spec_block_contains, spec_block_tx_commits, spec_leaf_commit, spec_leaf_wf,
    spec_state_commit, spec_transaction_commit, Block, Leaf, LeafView, State, Transaction,
};
use crate::election::Membership;
use crate::exchange::{
    spec_accumulate_step, spec_emitted_signatures, spec_vote_admissible_parts, spec_vote_view,
    CommitteeExchange, QuorumExchange,
};
use crate::message::{
    CommitmentProposal, CommitteeConsensusMessage, DAProposal, DAVote, GeneralConsensusMessage,
    TimeoutVote, YesOrNoVote,
};
use crate::certificate::VoteMetaData;
use crate::signature::{spec_encoded_key, spec_signature_bytes, EncodedPublicKey};
use crate::wire::bytes_eq;
use crate::Either;

verus! {

/// Why a leader aborts its view.
#[derive(Clone, Copy, Debug, PartialEq, Eq, Structural)]
pub enum LeaderError {
    /// The high certificate's view is not settled to a known leaf.
    ParentMissing,
    /// The parent leaf stores only a state commitment.
    NoParentState,
    /// The state refuses to append the block.
    CannotAppend,
}

/// A vote as it arrives on a leader's channel.
pub enum Vote {
    /// An availability vote.
    DA(DAVote),
    /// A positive quorum vote.
    Yes(YesOrNoVote),
    /// A negative quorum vote.
    No(YesOrNoVote),
    /// A timeout vote.
    Timeout(TimeoutVote),
}

/// What a leader reads from its channel: a vote with its sender, a
/// proposal it does not expect, or the view-change interrupt.
pub enum ProcessedConsensusMessage {
    /// A proposal, with the proposer's signature and the sender.
    Proposal(CommitmentProposal, EncodedPublicKey),
    /// A vote, with the sender.
    Vote(Vote, EncodedPublicKey),
    /// The view timer fired for the given view.
    NextViewInterrupt(u64),
}

/// The view number a channel message belongs to.
pub open spec fn spec_processed_view_number(m: ProcessedConsensusMessage) -> u64 {
    match m {
        ProcessedConsensusMessage::Proposal(p, _) => p.view_number,
        ProcessedConsensusMessage::Vote(v, _) => match v {
            Vote::DA(vote) => vote.current_view,
            Vote::Yes(vote) => vote.current_view,
            Vote::No(vote) => vote.current_view,
            Vote::Timeout(vote) => vote.current_view,
        },
        ProcessedConsensusMessage::NextViewInterrupt(view_number) => view_number,
    }
}

impl ProcessedConsensusMessage {
    /// The view number this message belongs to.
    pub fn view_number(&self) -> (r: u64)
        ensures
            r == spec_processed_view_number(*self),
    {
        match self {
            ProcessedConsensusMessage::Proposal(p, _) => p.view_number,
            ProcessedConsensusMessage::Vote(v, _) => match v {
                Vote::DA(vote) => vote.current_view,
                Vote::Yes(vote) => vote.current_view,
                Vote::No(vote) => vote.current_view,
                Vote::Timeout(vote) => vote.current_view,
            },
            ProcessedConsensusMessage::NextViewInterrupt(view_number) => *view_number,
        }
    }
}

/// Whether the consensus state resolves `view_number` to exactly the
/// saved leaf `l`.
pub open spec fn spec_resolved_leaf(consensus: Consensus, view_number: u64, l: LeafView) -> bool {
    &&& spec_view_lookup(consensus.spec_map(), view_number) == Some(
        ViewInnerView::Leaf(spec_leaf_commit(l)),
    )
    &&& consensus.spec_leaves().contains(l)
}

/// Whether the consensus state resolves `view_number` to a saved leaf.
pub open spec fn spec_parent_resolvable(consensus: Consensus, view_number: u64) -> bool {
    exists|c: Seq<u8>|
        {
            &&& #[trigger] spec_view_lookup(consensus.spec_map(), view_number) == Some(
                ViewInnerView::Leaf(c),
            )
            &&& exists|i: int|
                0 <= i < consensus.spec_leaves().len() && spec_leaf_commit(
                    #[trigger] consensus.spec_leaves()[i],
                ) == c
        }
}

/// Resolve the leaf a settled view decided: the leaf whose commitment
/// the view's entry names.
pub fn resolve_parent_leaf(consensus: &Consensus, view_number: u64) -> (r: Option<Leaf>)
    requires
        consensus.wf(),
    ensures
        match r {
            Some(l) => {
                &&& spec_view_lookup(consensus.spec_map(), view_number) == Some(
                    ViewInnerView::Leaf(spec_leaf_commit(l@)),
                )
                &&& consensus.spec_leaves().contains(l@)
                &&& spec_leaf_wf(l@)
            },
            None => !spec_parent_resolvable(*consensus, view_number),
        },
{
    let inner = match consensus.view_inner(view_number) {
        Some(vi) => vi,
        None => {
            return None;
        },
    };
    let commitment = match inner {
        ViewInner::Leaf { leaf } => leaf,
        ViewInner::Failed => {
            return None;
        },
    };
    match consensus.get_leaf(commitment) {
        Some(l) => {
            let leaf = l.clone();
            proof {
                let i = choose|i: int|
                    0 <= i < consensus.spec_leaves().len() && #[trigger] consensus.spec_leaves()[i]
                        == leaf@;
                assert(consensus.spec_leaves().contains(leaf@));
            }
            Some(leaf)
        },
        None => None,
    }
}

/// This view's DA committee leader: waits for transactions, proposes a
/// block, collects availability votes into a DA certificate.
pub struct DALeader {
    /// This node's number.
    pub id: u64,
    /// A read snapshot of the consensus state.
    pub consensus: Consensus,
    /// The highest quorum certificate this node has seen.
    pub high_qc: QuorumCertificate,
    /// The view this leader runs.
    pub cur_view: u64,
    /// The committee exchange this leader signs and validates with.
    pub exchange: CommitteeExchange,
    /// The number of transactions worth proposing without waiting
    /// further.
    pub min_transactions: usize,
}

/// One step of DA vote collection.
pub enum DaCollectStep {
    /// Keep collecting with the updated accumulator.
    Continue(VoteAccumulator),
    /// The threshold was reached: the DA certificate is assembled.
    Complete(DACertificate),
    /// The view changed; the host signals the next leader and stops.
    Interrupted,
}

impl DALeader {
    /// A sound leader: a sound consensus snapshot and exchange.
    pub open spec fn wf(&self) -> bool {
        &&& self.consensus.wf()
        &&& self.exchange.wf()
    }

    /// The parent leaf of the proposal being built: the leaf the high
    /// certificate's view decided.
    pub fn parent_leaf(&self) -> (r: Option<Leaf>)
        requires
            self.wf(),
        ensures
            match r {
                Some(l) => {
                    &&& spec_view_lookup(self.consensus.spec_map(), self.high_qc.view_number)
                        == Some(ViewInnerView::Leaf(spec_leaf_commit(l@)))
                    &&& self.consensus.spec_leaves().contains(l@)
                    &&& spec_leaf_wf(l@)
                },
                None => !spec_parent_resolvable(self.consensus, self.high_qc.view_number),
            },
    {
        resolve_parent_leaf(&self.consensus, self.high_qc.view_number)
    }

    /// The pending transactions not already used by the parent's block,
    /// in mempool order.
    pub fn unclaimed_transactions(&self, parent: &Leaf) -> (r: Vec<Transaction>)
        requires
            self.wf(),
        ensures
            r@.map_values(|t: Transaction| t@) == spec_unclaimed_transactions(
                self.consensus.spec_mempool(),
                parent@.deltas,
            ),
    {
        let used = parent.deltas.contained_transactions();
        let ghost pool = self.consensus.spec_mempool();
        let mut out: Vec<Transaction> = Vec::new();
        let mut i: usize = 0;
        while i < self.consensus.transactions.len()
            invariant
                self.wf(),
                pool == self.consensus.spec_mempool(),
                used@.map_values(|c: Commitment| c@) == spec_block_tx_commits(parent@.deltas),
                i <= pool.len(),
                out@.map_values(|t: Transaction| t@) == spec_unclaimed_transactions(
                    pool.take(i as int),
                    parent@.deltas,
                ),
            decreases pool.len() - i,
        {
            let tx = &self.consensus.transactions[i];
            proof {
                assert(pool[i as int] == self.consensus.transactions@[i as int]@);
            }
            let tx_commit = tx.commit();
            let mut is_used = false;
            let mut j: usize = 0;
            while j < used.len()
                invariant
                    0 <= i < self.consensus.transactions@.len(),
                    used@.map_values(|c: Commitment| c@) == spec_block_tx_commits(parent@.deltas),
                    tx_commit@ == spec_transaction_commit(
                        self.consensus.transactions@[i as int]@,
                    ),
                    j <= used@.len(),
                    is_used == exists|k: int|
                        0 <= k < j && (#[trigger] used@[k])@ == tx_commit@,
                decreases used@.len() - j,
            {
                if bytes_eq(&used[j].bytes, &tx_commit.bytes) {
                    is_used = true;
                }
                j = j + 1;
            }
            proof {
                let commits = spec_block_tx_commits(parent@.deltas);
                if is_used {
                    let k = choose|k: int| 0 <= k < used@.len() && (#[trigger] used@[k])@
                        == tx_commit@;
                    assert(commits[k] == used@.map_values(|c: Commitment| c@)[k]);
                    assert(commits.contains(tx_commit@));
                } else {
                    if commits.contains(tx_commit@) {
                        let k = choose|k: int|
                            0 <= k < commits.len() && #[trigger] commits[k] == tx_commit@;
                        assert(used@.map_values(|c: Commitment| c@)[k] == commits[k]);
                        assert((used@[k])@ == tx_commit@);
                    }
                }
                assert(is_used == spec_block_tx_commits(parent@.deltas).contains(
                    spec_transaction_commit(pool[i as int]),
                ));
            }
            let ghost previous = out@.map_values(|t: Transaction| t@);
            if !is_used {
                out.push(tx.clone());
                proof {
                    assert(out@.map_values(|t: Transaction| t@) =~= previous.push(
                        pool[i as int],
                    ));
                }
            }
            i = i + 1;
            proof {
                let taken = pool.take(i as int);
                assert(taken.drop_last() =~= pool.take(i - 1));
                assert(taken.last() == pool[i - 1]);
                assert(out@.map_values(|t: Transaction| t@) =~= spec_unclaimed_transactions(
                    taken,
                    parent@.deltas,
                ));
            }
        }
        proof {
            assert(pool.take(pool.len() as int) =~= pool);
        }
        out
    }

    /// Whether enough transactions have gathered to propose without
    /// waiting for the round timer.
    pub fn enough_transactions(&self, candidate_count: usize) -> (r: bool)
        ensures
            r == (candidate_count >= self.min_transactions),
    {
        candidate_count >= self.min_transactions
    }

    /// Pack candidate transactions into a block on the parent state:
    /// each candidate is appended unless the block already contains it
    /// or the grown block stops validating; such candidates are silently
    /// dropped.
    pub fn pack_block(&self, starting_state: &State, transactions: &Vec<Transaction>) -> (r: Block)
        ensures
            r@ == spec_pack_block(transactions@.map_values(|t: Transaction| t@)),
            crate::data::spec_block_distinct(r@),
    {
        let ghost payloads = transactions@.map_values(|t: Transaction| t@);
        let mut block = starting_state.next_block();
        let mut i: usize = 0;
        while i < transactions.len()
            invariant
                payloads == transactions@.map_values(|t: Transaction| t@),
                i <= payloads.len(),
                block@ == spec_pack_block(payloads.take(i as int)),
                crate::data::spec_block_distinct(block@),
            decreases payloads.len() - i,
        {
            proof {
                assert(payloads[i as int] == transactions@[i as int]@);
            }
            match block.add_transaction_raw(&transactions[i]) {
                Ok(new_block) => {
                    if starting_state.validate_block(&new_block, self.cur_view) {
                        block = new_block;
                    }
                },
                Err(_) => {},
            }
            i = i + 1;
            proof {
                let taken = payloads.take(i as int);
                assert(taken.drop_last() =~= payloads.take(i - 1));
                assert(taken.last() == payloads[i - 1]);
            }
        }
        proof {
            assert(payloads.take(payloads.len() as int) =~= payloads);
        }
        block
    }

    /// Prepare this view's DA proposal from the gathered candidates:
    /// resolve the parent, require its materialised state, pack the
    /// block, require that the state appends it, and sign the block
    /// commitment.
    pub fn prepare_proposal(&self, transactions: &Vec<Transaction>) -> (r: Result<
        (CommitteeConsensusMessage, Block),
        LeaderError,
    >)
        requires
            self.wf(),
        ensures
            match r {
                Ok((message, block)) => {
                    &&& block@ == spec_pack_block(transactions@.map_values(|t: Transaction| t@))
                    &&& crate::data::spec_block_distinct(block@)
                    &&& exists|p: LeafView|
                        {
                            &&& #[trigger] spec_resolved_leaf(
                                self.consensus,
                                self.high_qc.view_number,
                                p,
                            )
                            &&& p.state matches crate::data::LeafStateView::Full(s) && s.height
                                < u64::MAX
                        }
                    &&& message matches CommitteeConsensusMessage::DAProposal(p, signature)
                        && p.deltas@ == block@ && p.view_number == self.cur_view && signature@
                        == spec_signature_bytes(
                        self.exchange.private_key.id,
                        spec_block_commit(block@),
                    )
                },
                Err(LeaderError::ParentMissing) => !spec_parent_resolvable(
                    self.consensus,
                    self.high_qc.view_number,
                ),
                Err(LeaderError::NoParentState) => exists|l: LeafView|
                    {
                        &&& #[trigger] spec_resolved_leaf(
                            self.consensus,
                            self.high_qc.view_number,
                            l,
                        )
                        &&& l.state matches crate::data::LeafStateView::Sealed(_)
                    },
                Err(LeaderError::CannotAppend) => exists|l: LeafView|
                    {
                        &&& #[trigger] spec_resolved_leaf(
                            self.consensus,
                            self.high_qc.view_number,
                            l,
                        )
                        &&& l.state matches crate::data::LeafStateView::Full(s) && s.height
                            == u64::MAX
                    },
            },
    {
        let parent_leaf = match self.parent_leaf() {
            Some(parent) => parent,
            None => {
                return Err(LeaderError::ParentMissing);
            },
        };
        proof {
            assert(spec_resolved_leaf(self.consensus, self.high_qc.view_number, parent_leaf@));
        }
        let starting_state = match &parent_leaf.state {
            Either::Left(state) => state,
            Either::Right(_) => {
                return Err(LeaderError::NoParentState);
            },
        };
        let block = self.pack_block(starting_state, transactions);
        match starting_state.append(&block, self.cur_view) {
            Ok(_new_state) => {},
            Err(_) => {
                return Err(LeaderError::CannotAppend);
            },
        }
        let block_commitment = block.commit();
        let signature = self.exchange.sign_da_proposal(&block_commitment);
        let proposal = DAProposal { deltas: block.clone(), view_number: self.cur_view };
        Ok((CommitteeConsensusMessage::DAProposal(proposal, signature), block))
    }

    /// A fresh accumulator for this view's availability votes, at the
    /// committee's success threshold.
    pub fn new_accumulator(&self) -> (r: VoteAccumulator)
        requires
            self.wf(),
            self.exchange.membership.spec_success_threshold() >= 1,
        ensures
            r.wf(),
            r.table@ == self.exchange.membership.spec_table(),
            r.threshold == self.exchange.membership.spec_success_threshold(),
            r.vote_outcomes@.len() == 0,
    {
        let table = self.exchange.membership.get_committee_qc_stake_table();
        let threshold = self.exchange.membership.success_threshold();
        VoteAccumulator::new(table, threshold)
    }

    /// Handle one channel message while collecting availability votes.
    /// Messages of other views, votes whose key is not the sender's, and
    /// unexpected kinds are dropped; a DA vote is folded in; the
    /// interrupt stops collection.
    pub fn handle_message(
        &self,
        message: ProcessedConsensusMessage,
        accumulator: VoteAccumulator,
    ) -> (r: DaCollectStep)
        requires
            self.wf(),
            accumulator.wf(),
            accumulator.table@ == self.exchange.membership.spec_table(),
        ensures
            ({
                let table = self.exchange.membership.spec_table();
                let olds = spec_outcome_views(accumulator.vote_outcomes@);
                match r {
                    DaCollectStep::Continue(acc) => {
                        &&& acc.wf()
                        &&& acc.table@ == accumulator.table@
                        &&& acc.threshold == accumulator.threshold
                        &&& match message {
                            ProcessedConsensusMessage::Vote(Vote::DA(vote), sender) => {
                                if vote.current_view == self.cur_view && vote@.key == sender@ {
                                    spec_accumulate_step(
                                        table,
                                        spec_vote_admissible_parts(
                                            table,
                                            vote@.key,
                                            vote@.signature,
                                            vote@.block_commitment,
                                            vote.vote_data,
                                            vote.vote_token,
                                        ),
                                        spec_vote_view(
                                            vote@.key,
                                            vote@.signature,
                                            vote@.block_commitment,
                                            vote.vote_data,
                                            vote.vote_token,
                                        ),
                                        accumulator,
                                        Either::Left(acc),
                                    )
                                } else {
                                    spec_outcome_views(acc.vote_outcomes@) == olds
                                }
                            },
                            ProcessedConsensusMessage::NextViewInterrupt(interrupt_view) => {
                                &&& interrupt_view != self.cur_view
                                &&& spec_outcome_views(acc.vote_outcomes@) == olds
                            },
                            _ => spec_outcome_views(acc.vote_outcomes@) == olds,
                        }
                    },
                    DaCollectStep::Complete(cert) => match message {
                        ProcessedConsensusMessage::Vote(Vote::DA(vote), sender) => {
                            let v = spec_vote_view(
                                vote@.key,
                                vote@.signature,
                                vote@.block_commitment,
                                vote.vote_data,
                                vote.vote_token,
                            );
                            &&& vote.current_view == self.cur_view
                            &&& vote@.key == sender@
                            &&& spec_vote_admissible_parts(
                                table,
                                vote@.key,
                                vote@.signature,
                                vote@.block_commitment,
                                vote.vote_data,
                                vote.vote_token,
                            )
                            &&& !accumulator.spec_rejects(v.commitment, v.phase, v.signer_id)
                            &&& cert@.view_number == self.cur_view
                            &&& cert@.block_commitment == vote@.block_commitment
                            &&& spec_emitted_signatures(
                                table,
                                accumulator.threshold,
                                v,
                                olds,
                                cert@.signatures,
                            )
                        },
                        _ => false,
                    },
                    DaCollectStep::Interrupted => message matches
                        ProcessedConsensusMessage::NextViewInterrupt(interrupt_view)
                        && interrupt_view == self.cur_view,
                }
            }),
    {
        if message.view_number() != self.cur_view {
            return DaCollectStep::Continue(accumulator);
        }
        match message {
            ProcessedConsensusMessage::Vote(Vote::DA(vote), sender) => {
                if !bytes_eq(&vote.signature.0.bytes, &sender.bytes) {
                    return DaCollectStep::Continue(accumulator);
                }
                let meta = VoteMetaData {
                    encoded_key: vote.signature.0,
                    encoded_signature: vote.signature.1,
                    commitment: vote.block_commitment,
                    data: vote.vote_data,
                    vote_token: vote.vote_token,
                    view_number: vote.current_view,
                    relay: None,
                };
                match self.exchange.accumulate_internal(meta, accumulator) {
                    Either::Left(acc) => DaCollectStep::Continue(acc),
                    Either::Right(cert) => DaCollectStep::Complete(cert),
                }
            },
            ProcessedConsensusMessage::Vote(_, _) => DaCollectStep::Continue(accumulator),
            ProcessedConsensusMessage::Proposal(_, _) => DaCollectStep::Continue(accumulator),
            ProcessedConsensusMessage::NextViewInterrupt(_) => DaCollectStep::Interrupted,
        }
    }
}

/// This view's consensus leader: given the DA certificate and the block
/// it covers, appends the state, chains a new leaf to the parent, and
/// proposes its commitment to the quorum.
pub struct DAConsensusLeader {
    /// This node's number.
    pub id: u64,
    /// A read snapshot of the consensus state.
    pub consensus: Consensus,
    /// The highest quorum certificate this node has seen.
    pub high_qc: QuorumCertificate,
    /// The view this leader runs.
    pub cur_view: u64,
    /// The DA certificate covering the block.
    pub cert: DACertificate,
    /// The block to chain into the log.
    pub block: Block,
    /// The quorum exchange this leader signs with.
    pub exchange: QuorumExchange,
}

impl DAConsensusLeader {
    /// A sound leader: a sound consensus snapshot and exchange.
    pub open spec fn wf(&self) -> bool {
        &&& self.consensus.wf()
        &&& self.exchange.wf()
    }

    /// The high certificate agrees with the view map: if it is not the
    /// genesis certificate, the leaf its view settled is the leaf it
    /// certifies.  The commit path maintains this.
    pub open spec fn spec_high_qc_consistent(&self) -> bool {
        !self.high_qc@.is_genesis ==> forall|c: Seq<u8>|
            #[trigger] spec_view_lookup(self.consensus.spec_map(), self.high_qc.view_number)
                == Some(ViewInnerView::Leaf(c)) ==> c == self.high_qc@.leaf_commitment
    }

    /// The parent leaf of the proposal being built: the leaf the high
    /// certificate's view decided.
    pub fn parent_leaf(&self) -> (r: Option<Leaf>)
        requires
            self.wf(),
        ensures
            match r {
                Some(l) => {
                    &&& spec_view_lookup(self.consensus.spec_map(), self.high_qc.view_number)
                        == Some(ViewInnerView::Leaf(spec_leaf_commit(l@)))
                    &&& self.consensus.spec_leaves().contains(l@)
                    &&& spec_leaf_wf(l@)
                },
                None => !spec_parent_resolvable(self.consensus, self.high_qc.view_number),
            },
    {
        resolve_parent_leaf(&self.consensus, self.high_qc.view_number)
    }

    /// Run the proposing step of this view: append the block to the
    /// parent's state, build the leaf justified by the high certificate,
    /// and sign its commitment into a proposal.  The host broadcasts the
    /// message and, on success, keeps its high certificate unchanged —
    /// the new leaf reaches the replica again only through the broadcast
    /// path.
    pub fn propose(&self, timestamp: u64) -> (r: Result<
        (GeneralConsensusMessage, Leaf),
        LeaderError,
    >)
        requires
            self.wf(),
            self.spec_high_qc_consistent(),
        ensures
            match r {
                Ok((message, leaf)) => {
                    &&& spec_leaf_wf(leaf@)
                    &&& leaf@.view_number == self.cur_view
                    &&& leaf@.justify_qc == self.high_qc@
                    &&& leaf@.deltas == self.block@
                    &&& leaf@.timestamp == timestamp
                    &&& leaf@.proposer_id == spec_encoded_key(self.exchange.public_key.id)
                    &&& exists|p: LeafView|
                        {
                            &&& #[trigger] spec_resolved_leaf(
                                self.consensus,
                                self.high_qc.view_number,
                                p,
                            )
                            &&& leaf@.parent_commitment == spec_leaf_commit(p)
                            &&& leaf@.height == p.height + 1
                            &&& p.state matches crate::data::LeafStateView::Full(parent_state)
                                && leaf@.state == crate::data::LeafStateView::Full(
                                crate::data::StateView {
                                    height: (parent_state.height + 1) as u64,
                                    last_block_commitment: spec_block_commit(self.block@),
                                },
                            )
                        }
                    &&& message matches GeneralConsensusMessage::Proposal(proposal, signature)
                        && proposal@.block_commitment == spec_block_commit(self.block@)
                        && proposal@.view_number == self.cur_view && proposal@.justify_qc
                        == self.high_qc@ && proposal@.dac == self.cert@ && (leaf@.state matches
                    crate::data::LeafStateView::Full(s) && proposal@.state_commitment
                        == spec_state_commit(s)) && proposal@.proposer_id == spec_encoded_key(
                        self.exchange.public_key.id,
                    ) && signature@ == spec_signature_bytes(
                        self.exchange.private_key.id,
                        spec_leaf_commit(leaf@),
                    )
                },
                Err(LeaderError::ParentMissing) => !spec_parent_resolvable(
                    self.consensus,
                    self.high_qc.view_number,
                ),
                Err(LeaderError::NoParentState) => exists|p: LeafView|
                    {
                        &&& #[trigger] spec_resolved_leaf(
                            self.consensus,
                            self.high_qc.view_number,
                            p,
                        )
                        &&& p.state matches crate::data::LeafStateView::Sealed(_)
                    },
                Err(LeaderError::CannotAppend) => exists|p: LeafView|
                    {
                        &&& #[trigger] spec_resolved_leaf(
                            self.consensus,
                            self.high_qc.view_number,
                            p,
                        )
                        &&& (p.height == u64::MAX || !crate::data::spec_block_distinct(
                            self.block@,
                        ) || (p.state matches crate::data::LeafStateView::Full(s) && s.height
                            == u64::MAX))
                    },
            },
    {
        let parent_leaf = match self.parent_leaf() {
            Some(parent) => parent,
            None => {
                return Err(LeaderError::ParentMissing);
            },
        };
        proof {
            assert(spec_resolved_leaf(self.consensus, self.high_qc.view_number, parent_leaf@));
        }
        let starting_state = match &parent_leaf.state {
            Either::Left(state) => state,
            Either::Right(_) => {
                return Err(LeaderError::NoParentState);
            },
        };
        let new_state = match starting_state.append(&self.block, self.cur_view) {
            Ok(s) => s,
            Err(_) => {
                return Err(LeaderError::CannotAppend);
            },
        };
        if parent_leaf.height == u64::MAX {
            return Err(LeaderError::CannotAppend);
        }
        let parent_commitment = parent_leaf.commit();
        let proposer_id = self.exchange.public_key().to_bytes();
        let state_commitment = new_state.commit();
        let leaf = Leaf {
            view_number: self.cur_view,
            height: parent_leaf.height + 1,
            justify_qc: self.high_qc.clone(),
            parent_commitment,
            deltas: self.block.clone(),
            state: Either::Left(new_state),
            rejected: Vec::new(),
            timestamp,
            proposer_id,
        };
        proof {
            assert(leaf@.rejected =~= Seq::<Seq<u8>>::empty());
            assert(spec_leaf_wf(leaf@));
        }
        let leaf_commitment = leaf.commit();
        let signature = self.exchange.sign_validating_or_commitment_proposal(&leaf_commitment);
        let proposal = CommitmentProposal {
            block_commitment: self.block.commit(),
            view_number: self.cur_view,
            justify_qc: self.high_qc.clone(),
            dac: self.cert.clone(),
            state_commitment,
            proposer_id: leaf.proposer_id.clone(),
        };
        Ok((GeneralConsensusMessage::Proposal(proposal, signature), leaf))
    }
}

/// The next leader at the view boundary: collects positive votes into a
/// quorum certificate, or falls back to the best justifying certificate
/// the timeout voters offered.
pub struct DANextLeader {
    /// This node's number.
    pub id: u64,
    /// The view whose votes this leader collects.
    pub cur_view: u64,
    /// The quorum exchange this leader validates with.
    pub exchange: QuorumExchange,
    /// The generic certificate collection starts from.
    pub generic_qc: QuorumCertificate,
}

/// What the next leader holds while collecting: the justifying
/// certificates offered so far and the per-leaf vote accumulator.
pub struct NextLeaderState {
    /// The justifying certificates seen, the generic one first.
    pub qcs: Vec<QuorumCertificate>,
    /// The per-leaf-commitment vote accumulator.
    pub accumulator: VoteAccumulator,
}

/// The views of the collected certificates.
pub open spec fn spec_qcs_views(qcs: Seq<QuorumCertificate>) -> Seq<
    crate::certificate::QuorumCertificateView,
> {
    qcs.map_values(|q: QuorumCertificate| q@)
}

/// One step of next-leader vote collection.
pub enum NextLeaderStep {
    /// Keep collecting with the updated state.
    Continue(NextLeaderState),
    /// A leaf reached the threshold: the quorum certificate is built.
    Complete(QuorumCertificate),
    /// The view changed; the host signals the timeout and finishes.
    Interrupted(NextLeaderState),
}

impl DANextLeader {
    /// A sound leader: a sound exchange.
    pub open spec fn wf(&self) -> bool {
        self.exchange.wf()
    }

    /// A sound collection state for this leader.
    pub open spec fn spec_state_wf(&self, state: NextLeaderState) -> bool {
        &&& state.qcs@.len() >= 1
        &&& state.accumulator.wf()
        &&& state.accumulator.table@ == self.exchange.membership.spec_table()
    }

    /// Begin collecting: the generic certificate seeds the fallback set,
    /// and the accumulator starts empty at the success threshold.
    pub fn start(&self) -> (r: NextLeaderState)
        requires
            self.wf(),
            self.exchange.membership.spec_success_threshold() >= 1,
        ensures
            self.spec_state_wf(r),
            spec_qcs_views(r.qcs@) == seq![self.generic_qc@],
            r.accumulator.vote_outcomes@.len() == 0,
            r.accumulator.threshold == self.exchange.membership.spec_success_threshold(),
    {
        let mut qcs: Vec<QuorumCertificate> = Vec::new();
        qcs.push(self.generic_qc.clone());
        let table = self.exchange.membership.get_committee_qc_stake_table();
        let threshold = self.exchange.membership.success_threshold();
        let accumulator = VoteAccumulator::new(table, threshold);
        proof {
            assert(spec_qcs_views(qcs@) =~= seq![self.generic_qc@]);
        }
        NextLeaderState { qcs, accumulator }
    }

    /// Handle one channel message at the view boundary.  Messages of
    /// other views are dropped; a positive vote from its own sender is
    /// folded in; a timeout vote offers its justifying certificate; the
    /// interrupt stops collection.
    pub fn handle_message(&self, message: ProcessedConsensusMessage, state: NextLeaderState) -> (r:
        NextLeaderStep)
        requires
            self.wf(),
            self.spec_state_wf(state),
        ensures
            ({
                let table = self.exchange.membership.spec_table();
                let olds = spec_outcome_views(state.accumulator.vote_outcomes@);
                match r {
                    NextLeaderStep::Continue(s2) => {
                        &&& self.spec_state_wf(s2)
                        &&& s2.accumulator.table@ == state.accumulator.table@
                        &&& s2.accumulator.threshold == state.accumulator.threshold
                        &&& match message {
                            ProcessedConsensusMessage::Vote(Vote::Yes(vote), sender) => {
                                &&& spec_qcs_views(s2.qcs@) == spec_qcs_views(state.qcs@)
                                &&& if vote.current_view == self.cur_view && vote@.key
                                    == sender@ {
                                    spec_accumulate_step(
                                        table,
                                        spec_vote_admissible_parts(
                                            table,
                                            vote@.key,
                                            vote@.signature,
                                            vote@.leaf_commitment,
                                            vote.vote_data,
                                            vote.vote_token,
                                        ),
                                        spec_vote_view(
                                            vote@.key,
                                            vote@.signature,
                                            vote@.leaf_commitment,
                                            vote.vote_data,
                                            vote.vote_token,
                                        ),
                                        state.accumulator,
                                        Either::Left(s2.accumulator),
                                    )
                                } else {
                                    spec_outcome_views(s2.accumulator.vote_outcomes@) == olds
                                }
                            },
                            ProcessedConsensusMessage::Vote(Vote::Timeout(vote), _) => {
                                &&& spec_outcome_views(s2.accumulator.vote_outcomes@) == olds
                                &&& if vote.current_view == self.cur_view {
                                    spec_qcs_views(s2.qcs@) == spec_qcs_views(state.qcs@).push(
                                        vote.justify_qc@,
                                    )
                                } else {
                                    spec_qcs_views(s2.qcs@) == spec_qcs_views(state.qcs@)
                                }
                            },
                            ProcessedConsensusMessage::NextViewInterrupt(interrupt_view) => {
                                &&& interrupt_view != self.cur_view
                                &&& spec_qcs_views(s2.qcs@) == spec_qcs_views(state.qcs@)
                                &&& spec_outcome_views(s2.accumulator.vote_outcomes@) == olds
                            },
                            _ => {
                                &&& spec_qcs_views(s2.qcs@) == spec_qcs_views(state.qcs@)
                                &&& spec_outcome_views(s2.accumulator.vote_outcomes@) == olds
                            },
                        }
                    },
                    NextLeaderStep::Complete(qc) => match message {
                        ProcessedConsensusMessage::Vote(Vote::Yes(vote), sender) => {
                            let v = spec_vote_view(
                                vote@.key,
                                vote@.signature,
                                vote@.leaf_commitment,
                                vote.vote_data,
                                vote.vote_token,
                            );
                            &&& vote.current_view == self.cur_view
                            &&& vote@.key == sender@
                            &&& spec_vote_admissible_parts(
                                table,
                                vote@.key,
                                vote@.signature,
                                vote@.leaf_commitment,
                                vote.vote_data,
                                vote.vote_token,
                            )
                            &&& !state.accumulator.spec_rejects(
                                v.commitment,
                                v.phase,
                                v.signer_id,
                            )
                            &&& qc@.view_number == self.cur_view
                            &&& !qc@.is_genesis
                            &&& qc@.leaf_commitment == vote@.leaf_commitment
                            &&& spec_emitted_signatures(
                                table,
                                state.accumulator.threshold,
                                v,
                                olds,
                                qc@.signatures,
                            )
                        },
                        _ => false,
                    },
                    NextLeaderStep::Interrupted(s2) => {
                        &&& message matches ProcessedConsensusMessage::NextViewInterrupt(
                            interrupt_view,
                        ) && interrupt_view == self.cur_view
                        &&& self.spec_state_wf(s2)
                        &&& spec_qcs_views(s2.qcs@) == spec_qcs_views(state.qcs@)
                        &&& spec_outcome_views(s2.accumulator.vote_outcomes@) == olds
                    },
                }
            }),
    {
        if message.view_number() != self.cur_view {
            return NextLeaderStep::Continue(state);
        }
        match message {
            ProcessedConsensusMessage::Vote(Vote::Yes(vote), sender) => {
                if !bytes_eq(&vote.signature.0.bytes, &sender.bytes) {
                    return NextLeaderStep::Continue(state);
                }
                let NextLeaderState { qcs, accumulator } = state;
                let meta = VoteMetaData {
                    encoded_key: vote.signature.0,
                    encoded_signature: vote.signature.1,
                    commitment: vote.leaf_commitment,
                    data: vote.vote_data,
                    vote_token: vote.vote_token,
                    view_number: self.cur_view,
                    relay: None,
                };
                match self.exchange.accumulate_internal(meta, accumulator) {
                    Either::Left(acc) => {
                        let s2 = NextLeaderState { qcs, accumulator: acc };
                        NextLeaderStep::Continue(s2)
                    },
                    Either::Right(qc) => NextLeaderStep::Complete(qc),
                }
            },
            ProcessedConsensusMessage::Vote(Vote::Timeout(vote), _) => {
                let NextLeaderState { mut qcs, accumulator } = state;
                let ghost old_qcs = qcs@;
                qcs.push(vote.justify_qc);
                proof {
                    assert(spec_qcs_views(qcs@) =~= spec_qcs_views(old_qcs).push(
                        qcs@[qcs@.len() - 1]@,
                    ));
                }
                NextLeaderStep::Continue(NextLeaderState { qcs, accumulator })
            },
            ProcessedConsensusMessage::Vote(_, _) => NextLeaderStep::Continue(state),
            ProcessedConsensusMessage::Proposal(_, _) => NextLeaderStep::Continue(state),
            ProcessedConsensusMessage::NextViewInterrupt(_) => NextLeaderStep::Interrupted(state),
        }
    }

    /// Collection ended without a quorum: fall back to the certificate
    /// with the highest view among those offered, so the new high
    /// certificate is at least as recent as the best justification any
    /// honest timeout voter observed.
    pub fn finish(&self, state: NextLeaderState) -> (r: QuorumCertificate)
        requires
            self.wf(),
            self.spec_state_wf(state),
        ensures
            spec_qcs_views(state.qcs@).contains(r@),
            forall|j: int|
                0 <= j < state.qcs@.len() ==> (#[trigger] spec_qcs_views(state.qcs@)[j]).view_number
                    <= r@.view_number,
    {
        let ghost views = spec_qcs_views(state.qcs@);
        let mut best: usize = 0;
        let mut i: usize = 1;
        while i < state.qcs.len()
            invariant
                views == spec_qcs_views(state.qcs@),
                1 <= state.qcs@.len(),
                best < i <= state.qcs@.len(),
                forall|j: int|
                    0 <= j < i ==> (#[trigger] views[j]).view_number
                        <= views[best as int].view_number,
            decreases state.qcs@.len() - i,
        {
            proof {
                assert(views[i as int] == state.qcs@[i as int]@);
                assert(views[best as int] == state.qcs@[best as int]@);
            }
            if state.qcs[i].view_number > state.qcs[best].view_number {
                best = i;
            }
            i = i + 1;
        }
        proof {
            assert(views[best as int] == state.qcs@[best as int]@);
        }
        let r = state.qcs[best].clone();
        proof {
            assert(views.contains(r@)) by {
                assert(views[best as int] == r@);
            }
        }
        r
    }
}

/// The mempool payloads whose transaction commitment the parent's block
/// does not already contain, in mempool order.
pub open spec fn spec_unclaimed_transactions(pool: Seq<Seq<u8>>, deltas: Seq<Seq<u8>>) -> Seq<
    Seq<u8>,
>
    decreases pool.len(),
{
    if pool.len() == 0 {
        Seq::<Seq<u8>>::empty()
    } else {
        let previous = spec_unclaimed_transactions(pool.drop_last(), deltas);
        if spec_block_tx_commits(deltas).contains(spec_transaction_commit(pool.last())) {
            previous
        } else {
            previous.push(pool.last())
        }
    }
}

/// What packing puts into the block: each candidate in order, unless its
/// payload is already contained.
pub open spec fn spec_pack_block(payloads: Seq<Seq<u8>>) -> Seq<Seq<u8>>
    decreases payloads.len(),
{
    if payloads.len() == 0 {
        Seq::<Seq<u8>>::empty()
    } else {
        let packed = spec_pack_block(payloads.drop_last());
        if spec_block_contains(packed, payloads.last()) {
            packed
        } else {
            packed.push(payloads.last())
        }
    }
}

} // verus!
