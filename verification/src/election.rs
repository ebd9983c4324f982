//! Vote data, vote tokens, and committee membership: who may vote in a
//! view, with what weight, and over which tagged commitment.

use vstd::prelude::*;

use crate::commitment::{
    spec_tag_da_block, spec_tag_no_vote, spec_tag_timeout_vote, spec_tag_view_sync_commit,
    spec_tag_view_sync_finalize, spec_tag_view_sync_precommit, spec_tag_yes_vote, tag_da_block,
    tag_no_vote, tag_timeout_vote, tag_view_sync_commit, tag_view_sync_finalize,
    tag_view_sync_precommit, tag_yes_vote, Commitment,
};
use crate::signature::{
    lemma_check_binds_message, spec_check, spec_stake_of, spec_table_wf, stake_of, PrivateKey,
    PublicKey, StakeTableEntry,
};
use crate::wire::{push_bytes, push_u64_be, spec_u64_to_be_bytes};

verus! {

/// Errors the election layer can surface.
#[derive(Clone, Copy, Debug, PartialEq, Eq, Structural)]
pub enum ElectionError {
    /// Stub error to be filled in.
    StubError,
    /// Arithmetic error while computing membership.
    MathError,
}

/// An item whose validity check is expensive enough to cache: checked and
/// valid, checked and invalid, or not checked yet.
pub enum Checked<T> {
    /// This item has been checked, and is valid.
    Valid(T),
    /// This item has been checked, and is not valid.
    Inval(T),
    /// This item has not been checked.
    Unchecked(T),
}

/// What a vote is about, tagged by the phase that asks for it.  Signers
/// and verifiers only ever sign or check the commitment derived from this
/// value, never the bare inner commitment, so a signature for one phase
/// cannot be replayed in another.
pub enum VoteData {
    /// Vote to provide availability for a block.
    DA(Commitment),
    /// Vote to append a leaf to the log.
    Yes(Commitment),
    /// Vote to reject a leaf from the log.
    No(Commitment),
    /// Vote to time out and proceed to the next view.
    Timeout(Commitment),
    /// Vote to pre-commit the view sync.
    ViewSyncPreCommit(Commitment),
    /// Vote to commit the view sync.
    ViewSyncCommit(Commitment),
    /// Vote to finalize the view sync.
    ViewSyncFinalize(Commitment),
}

/// The commitment of a [`VoteData`] value: the phase tag followed by the
/// inner commitment's bytes.
pub open spec fn spec_vote_data_commit(v: VoteData) -> Seq<u8> {
    match v {
        VoteData::DA(c) => spec_tag_da_block() + c@,
        VoteData::Yes(c) => spec_tag_yes_vote() + c@,
        VoteData::No(c) => spec_tag_no_vote() + c@,
        VoteData::Timeout(c) => spec_tag_timeout_vote() + c@,
        VoteData::ViewSyncPreCommit(c) => spec_tag_view_sync_precommit() + c@,
        VoteData::ViewSyncCommit(c) => spec_tag_view_sync_commit() + c@,
        VoteData::ViewSyncFinalize(c) => spec_tag_view_sync_finalize() + c@,
    }
}

/// The inner commitment a [`VoteData`] value is about.
pub open spec fn spec_vote_data_inner(v: VoteData) -> Seq<u8> {
    match v {
        VoteData::DA(c) => c@,
        VoteData::Yes(c) => c@,
        VoteData::No(c) => c@,
        VoteData::Timeout(c) => c@,
        VoteData::ViewSyncPreCommit(c) => c@,
        VoteData::ViewSyncCommit(c) => c@,
        VoteData::ViewSyncFinalize(c) => c@,
    }
}

impl VoteData {
    /// The inner commitment this vote is about.
    pub fn commitment(&self) -> (r: &Commitment)
        ensures
            r@ == spec_vote_data_inner(*self),
    {
        match self {
            VoteData::DA(c) => c,
            VoteData::Yes(c) => c,
            VoteData::No(c) => c,
            VoteData::Timeout(c) => c,
            VoteData::ViewSyncPreCommit(c) => c,
            VoteData::ViewSyncCommit(c) => c,
            VoteData::ViewSyncFinalize(c) => c,
        }
    }

    /// The tagged commitment of this vote data: what gets signed.
    pub fn commit(&self) -> (r: Commitment)
        ensures
            r@ == spec_vote_data_commit(*self),
    {
        let mut bytes: Vec<u8> = match self {
            VoteData::DA(_) => tag_da_block(),
            VoteData::Yes(_) => tag_yes_vote(),
            VoteData::No(_) => tag_no_vote(),
            VoteData::Timeout(_) => tag_timeout_vote(),
            VoteData::ViewSyncPreCommit(_) => tag_view_sync_precommit(),
            VoteData::ViewSyncCommit(_) => tag_view_sync_commit(),
            VoteData::ViewSyncFinalize(_) => tag_view_sync_finalize(),
        };
        push_bytes(&mut bytes, &self.commitment().bytes);
        Commitment { bytes }
    }

    /// The canonical bytes of this vote data: a phase byte, the inner
    /// commitment's length, then its bytes.
    pub fn as_bytes(&self) -> (r: Vec<u8>)
        ensures
            r@ == spec_vote_data_bytes(*self),
    {
        let mut bytes: Vec<u8> = Vec::new();
        bytes.push(self.phase_byte());
        let inner = self.commitment();
        push_u64_be(&mut bytes, inner.bytes.len() as u64);
        push_bytes(&mut bytes, &inner.bytes);
        assert(bytes@ =~= spec_vote_data_bytes(*self));
        bytes
    }

    /// The byte that names this vote's phase on the wire.
    pub fn phase_byte(&self) -> (r: u8)
        ensures
            r == spec_vote_data_phase_byte(*self),
    {
        match self {
            VoteData::DA(_) => 0,
            VoteData::Yes(_) => 1,
            VoteData::No(_) => 2,
            VoteData::Timeout(_) => 3,
            VoteData::ViewSyncPreCommit(_) => 4,
            VoteData::ViewSyncCommit(_) => 5,
            VoteData::ViewSyncFinalize(_) => 6,
        }
    }

    /// The tag under which vote data commitments are displayed.
    pub fn tag() -> (r: String)
        ensures
            r@ == "VOTE_DATA_COMMIT"@,
    {
        "VOTE_DATA_COMMIT".to_owned()
    }
}

impl Clone for VoteData {
    fn clone(&self) -> (r: Self)
        ensures
            spec_vote_data_commit(r) == spec_vote_data_commit(*self),
            spec_vote_data_inner(r) == spec_vote_data_inner(*self),
            spec_vote_data_phase_byte(r) == spec_vote_data_phase_byte(*self),
    {
        match self {
            VoteData::DA(c) => VoteData::DA(c.clone()),
            VoteData::Yes(c) => VoteData::Yes(c.clone()),
            VoteData::No(c) => VoteData::No(c.clone()),
            VoteData::Timeout(c) => VoteData::Timeout(c.clone()),
            VoteData::ViewSyncPreCommit(c) => VoteData::ViewSyncPreCommit(c.clone()),
            VoteData::ViewSyncCommit(c) => VoteData::ViewSyncCommit(c.clone()),
            VoteData::ViewSyncFinalize(c) => VoteData::ViewSyncFinalize(c.clone()),
        }
    }
}

/// The wire phase byte of a [`VoteData`] value.
pub open spec fn spec_vote_data_phase_byte(v: VoteData) -> u8 {
    match v {
        VoteData::DA(_) => 0,
        VoteData::Yes(_) => 1,
        VoteData::No(_) => 2,
        VoteData::Timeout(_) => 3,
        VoteData::ViewSyncPreCommit(_) => 4,
        VoteData::ViewSyncCommit(_) => 5,
        VoteData::ViewSyncFinalize(_) => 6,
    }
}

/// The canonical bytes of a [`VoteData`] value.
pub open spec fn spec_vote_data_bytes(v: VoteData) -> Seq<u8> {
    seq![spec_vote_data_phase_byte(v)] + spec_u64_to_be_bytes(
        spec_vote_data_inner(v).len() as u64,
    ) + spec_vote_data_inner(v)
}

/// Domain separation of the commit rule itself: the commitment derived for
/// a DA vote and the one derived for a Yes vote differ for every inner
/// commitment.
pub proof fn lemma_da_yes_commits_differ(c1: Commitment, c2: Commitment)
    ensures
        spec_vote_data_commit(VoteData::DA(c1)) != spec_vote_data_commit(VoteData::Yes(c2)),
{
    let da = spec_vote_data_commit(VoteData::DA(c1));
    let yes = spec_vote_data_commit(VoteData::Yes(c2));
    assert(da[0] == 68u8);
    assert(yes[0] == 89u8);
}

/// Domain-separated signatures: one signature cannot check both as a DA
/// vote and as a Yes vote over the same commitment, for any key.
pub proof fn lemma_domain_separated_signature(
    id: u64,
    c: Commitment,
    signature: Seq<u8>,
)
    ensures
        !(spec_check(id, spec_vote_data_commit(VoteData::DA(c)), signature) && spec_check(
            id,
            spec_vote_data_commit(VoteData::Yes(c)),
            signature,
        )),
{
    if spec_check(id, spec_vote_data_commit(VoteData::DA(c)), signature) && spec_check(
        id,
        spec_vote_data_commit(VoteData::Yes(c)),
        signature,
    ) {
        lemma_check_binds_message(
            id,
            spec_vote_data_commit(VoteData::DA(c)),
            spec_vote_data_commit(VoteData::Yes(c)),
            signature,
        );
        lemma_da_yes_commits_differ(c, c);
    }
}

/// The token inside a [`Checked`] wrapper, whatever its check state.
pub open spec fn spec_checked_token(c: Checked<StaticVoteToken>) -> StaticVoteToken {
    match c {
        Checked::Valid(t) => t,
        Checked::Inval(t) => t,
        Checked::Unchecked(t) => t,
    }
}

/// Proof of the right to vote in a view, carrying the voter's weight.
#[derive(Clone, Copy, Debug, PartialEq, Eq, Structural)]
pub struct StaticVoteToken {
    /// The key-pair number of the voter.
    pub key_id: u64,
    /// The view this token was issued for.
    pub view_number: u64,
    /// The weight of this voter's votes.
    pub count: u64,
}

/// Proof of the right to vote, and of the weight of those votes.
pub trait VoteToken: Sized {
    /// The weight this token claims.
    spec fn spec_count(&self) -> u64;

    /// The count, which validation will confirm.
    fn vote_count(&self) -> (r: u64)
        ensures
            r == self.spec_count(),
    ;
}

impl VoteToken for StaticVoteToken {
    open spec fn spec_count(&self) -> u64 {
        self.count
    }

    fn vote_count(&self) -> (r: u64)
        ensures
            r == self.spec_count(),
    {
        self.count
    }
}

/// Parameters an election is created from.
pub trait ElectionConfig: Sized {

}

/// Static election parameters: a fixed committee with fixed thresholds.
#[derive(Clone, Copy, Debug, PartialEq, Eq, Structural)]
pub struct StaticElectionConfig {
    /// Number of nodes in the committee.
    pub num_nodes: u64,
    /// Stake at which a certificate forms.
    pub success_threshold: u64,
    /// Stake at which failure of the view is provable.
    pub failure_threshold: u64,
}

impl ElectionConfig for StaticElectionConfig {

}

/// A protocol for determining membership in, and participating in, a
/// committee.
pub trait Membership: Sized {
    /// The stake table backing this committee.
    spec fn spec_table(&self) -> Seq<StakeTableEntry>;

    /// The committee's keys in leader-rotation order.
    spec fn spec_keys(&self) -> Seq<u64>;

    /// The stake at which a certificate forms.
    spec fn spec_success_threshold(&self) -> u64;

    /// The stake at which failure of the view is provable.
    spec fn spec_failure_threshold(&self) -> u64;

    /// Well-formedness of the committee.
    spec fn wf(&self) -> bool;

    /// The leader's key number for a view.
    spec fn spec_leader(&self, view_number: u64) -> u64;

    /// Whether `token` proves that the holder of `key_id` may vote with
    /// the weight the token claims.
    open spec fn spec_token_valid(&self, key_id: u64, token: StaticVoteToken) -> bool {
        &&& token.key_id == key_id
        &&& token.count == spec_stake_of(self.spec_table(), key_id)
        &&& token.count >= 1
    }

    /// Clone the stake table of the elected committee.
    fn get_committee_qc_stake_table(&self) -> (r: Vec<StakeTableEntry>)
        requires
            self.wf(),
        ensures
            r@ == self.spec_table(),
    ;

    /// The leader of the committee for a view.
    fn get_leader(&self, view_number: u64) -> (r: PublicKey)
        requires
            self.wf(),
        ensures
            r.id == self.spec_leader(view_number),
    ;

    /// The members of the committee for a view.
    fn get_committee(&self, view_number: u64) -> (r: Vec<PublicKey>)
        requires
            self.wf(),
        ensures
            r@.map_values(|k: PublicKey| k.id) == self.spec_keys(),
    ;

    /// Attempt to generate a vote token for a view; `None` when this node
    /// holds no stake.
    fn make_vote_token(&self, view_number: u64, private_key: &PrivateKey) -> (r: Result<
        Option<StaticVoteToken>,
        ElectionError,
    >)
        requires
            self.wf(),
        ensures
            match r {
                Ok(Some(token)) => {
                    &&& self.spec_token_valid(private_key.id, token)
                    &&& token.view_number == view_number
                    &&& spec_stake_of(self.spec_table(), private_key.id) >= 1
                },
                Ok(None) => spec_stake_of(self.spec_table(), private_key.id) == 0,
                Err(_) => false,
            },
    ;

    /// Check the claims of a received vote token.  An already-checked
    /// token is passed through; an unchecked one is resolved to `Valid`
    /// or `Inval`.
    fn validate_vote_token(&self, pub_key: &PublicKey, token: Checked<StaticVoteToken>) -> (r:
        Result<Checked<StaticVoteToken>, ElectionError>)
        requires
            self.wf(),
        ensures
            match r {
                Ok(Checked::Valid(t)) => t == spec_checked_token(token) && self.spec_token_valid(
                    pub_key.id,
                    t,
                ),
                Ok(Checked::Inval(t)) => t == spec_checked_token(token) && !self.spec_token_valid(
                    pub_key.id,
                    t,
                ),
                Ok(Checked::Unchecked(_)) => false,
                Err(_) => false,
            },
    ;

    /// The number of nodes in the committee.
    fn total_nodes(&self) -> (r: usize)
        requires
            self.wf(),
        ensures
            r == self.spec_keys().len(),
    ;

    /// The stake at which a certificate forms.
    fn success_threshold(&self) -> (r: u64)
        requires
            self.wf(),
        ensures
            r == self.spec_success_threshold(),
    ;

    /// The stake at which failure of the view is provable.
    fn failure_threshold(&self) -> (r: u64)
        requires
            self.wf(),
        ensures
            r == self.spec_failure_threshold(),
    ;
}

/// A fixed committee whose leader rotates round-robin over its keys.
pub struct StaticCommittee {
    /// The stake table, one row per committee key.
    pub entries: Vec<StakeTableEntry>,
    /// The committee's keys, aligned with `entries`.
    pub keys: Vec<PublicKey>,
    /// The election parameters.
    pub config: StaticElectionConfig,
}

impl StaticCommittee {
    /// Generate a default election configuration obeying the BFT
    /// arithmetic: success above two thirds, failure above one third.
    pub fn default_election_config(num_nodes: u64) -> (r: StaticElectionConfig)
        requires
            num_nodes < u64::MAX - 3,
        ensures
            r.num_nodes == num_nodes,
            r.success_threshold == (2 * num_nodes) / 3 + 1,
            r.failure_threshold == num_nodes / 3 + 1,
            3 * r.success_threshold > 2 * num_nodes,
            r.failure_threshold >= 1,
    {
        let quotient: u64 = num_nodes / 3;
        let remainder: u64 = num_nodes % 3;
        let success: u64 = quotient * 2 + remainder * 2 / 3 + 1;
        assert(quotient * 2 + remainder * 2 / 3 + 1 == (2 * num_nodes) / 3 + 1 && 2 * num_nodes < 3
            * ((2 * num_nodes) / 3 + 1)) by (nonlinear_arith)
            requires
                quotient == num_nodes / 3,
                remainder == num_nodes % 3,
                num_nodes <= u64::MAX,
        ;
        StaticElectionConfig {
            num_nodes,
            success_threshold: success,
            failure_threshold: num_nodes / 3 + 1,
        }
    }

    /// Decide well-formedness at run time, so a host holding a committee
    /// from outside can establish what the verified methods require.
    pub fn check_wf(&self) -> (r: bool)
        ensures
            r == self.wf(),
    {
        if !crate::signature::check_table_wf(&self.entries) {
            return false;
        }
        if self.keys.len() != self.entries.len() || self.keys.len() < 1 {
            return false;
        }
        if self.config.success_threshold < 1 || self.config.failure_threshold < 1 {
            return false;
        }
        let mut i: usize = 0;
        while i < self.keys.len()
            invariant
                i <= self.keys@.len(),
                self.keys@.len() == self.entries@.len(),
                forall|j: int|
                    0 <= j < i ==> (#[trigger] self.keys@[j]).id == self.entries@[j].key_id,
            decreases self.keys@.len() - i,
        {
            if self.keys[i].id != self.entries[i].key_id {
                return false;
            }
            i = i + 1;
        }
        true
    }

    /// Create an election from a stake table, its keys, and a config.
    pub fn create_election(
        entries: Vec<StakeTableEntry>,
        keys: Vec<PublicKey>,
        config: StaticElectionConfig,
    ) -> (r: StaticCommittee)
        ensures
            r.entries@ == entries@,
            r.keys@ == keys@,
            r.config == config,
    {
        StaticCommittee { entries, keys, config }
    }
}

impl Membership for StaticCommittee {
    open spec fn spec_table(&self) -> Seq<StakeTableEntry> {
        self.entries@
    }

    open spec fn spec_keys(&self) -> Seq<u64> {
        self.keys@.map_values(|k: PublicKey| k.id)
    }

    open spec fn spec_success_threshold(&self) -> u64 {
        self.config.success_threshold
    }

    open spec fn spec_failure_threshold(&self) -> u64 {
        self.config.failure_threshold
    }

    open spec fn wf(&self) -> bool {
        &&& spec_table_wf(self.entries@)
        &&& self.keys@.len() == self.entries@.len()
        &&& self.keys@.len() >= 1
        &&& forall|i: int|
            0 <= i < self.keys@.len() ==> (#[trigger] self.keys@[i]).id == self.entries@[i].key_id
        &&& self.config.success_threshold >= 1
        &&& self.config.failure_threshold >= 1
    }

    open spec fn spec_leader(&self, view_number: u64) -> u64 {
        self.spec_keys()[(view_number as int) % (self.spec_keys().len() as int)]
    }

    fn get_committee_qc_stake_table(&self) -> (r: Vec<StakeTableEntry>) {
        let mut out: Vec<StakeTableEntry> = Vec::new();
        let mut i: usize = 0;
        while i < self.entries.len()
            invariant
                i <= self.entries@.len(),
                out@ =~= self.entries@.subrange(0, i as int),
            decreases self.entries@.len() - i,
        {
            out.push(self.entries[i]);
            i = i + 1;
        }
        assert(out@ =~= self.entries@);
        out
    }

    fn get_leader(&self, view_number: u64) -> (r: PublicKey) {
        let n = self.keys.len();
        let idx = (view_number % (n as u64)) as usize;
        assert(idx == (view_number as int) % (self.spec_keys().len() as int)) by (nonlinear_arith)
            requires
                n >= 1,
                idx == view_number as int % (n as int),
                self.spec_keys().len() == n,
        ;
        self.keys[idx].clone()
    }

    fn get_committee(&self, _view_number: u64) -> (r: Vec<PublicKey>) {
        let mut out: Vec<PublicKey> = Vec::new();
        let mut i: usize = 0;
        while i < self.keys.len()
            invariant
                i <= self.keys@.len(),
                out@.len() == i,
                forall|j: int| 0 <= j < i ==> (#[trigger] out@[j]).id == self.keys@[j].id,
            decreases self.keys@.len() - i,
        {
            out.push(self.keys[i].clone());
            i = i + 1;
        }
        assert(out@.map_values(|k: PublicKey| k.id) =~= self.spec_keys());
        out
    }

    fn make_vote_token(&self, view_number: u64, private_key: &PrivateKey) -> (r: Result<
        Option<StaticVoteToken>,
        ElectionError,
    >) {
        let stake = stake_of(&self.entries, private_key.id);
        if stake == 0 {
            Ok(None)
        } else {
            Ok(
                Some(
                    StaticVoteToken { key_id: private_key.id, view_number, count: stake },
                ),
            )
        }
    }

    fn validate_vote_token(&self, pub_key: &PublicKey, token: Checked<StaticVoteToken>) -> (r:
        Result<Checked<StaticVoteToken>, ElectionError>) {
        let t = match token {
            Checked::Valid(t) => t,
            Checked::Inval(t) => t,
            Checked::Unchecked(t) => t,
        };
        let stake = stake_of(&self.entries, pub_key.id);
        if t.key_id == pub_key.id && t.count == stake && t.count >= 1 {
            Ok(Checked::Valid(t))
        } else {
            Ok(Checked::Inval(t))
        }
    }

    fn total_nodes(&self) -> (r: usize) {
        assert(self.spec_keys().len() == self.keys@.len());
        self.keys.len()
    }

    fn success_threshold(&self) -> (r: u64) {
        self.config.success_threshold
    }

    fn failure_threshold(&self) -> (r: u64) {
        self.config.failure_threshold
    }
}

/// A membership that can mint a token for tests.
pub trait TestableElection: Membership {
    /// Generate a vote token used for testing.
    fn generate_test_vote_token() -> StaticVoteToken;
}

impl TestableElection for StaticCommittee {
    fn generate_test_vote_token() -> StaticVoteToken {
        StaticVoteToken { key_id: 0, view_number: 0, count: 1 }
    }
}

} // verus!
