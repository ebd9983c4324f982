//! The replica's consensus state: the per-view outcome map, the
//! content-addressed store of leaves, the mempool, and the highest
//! quorum certificate seen.
//!
//! The view map is append-only: each view settles at most once, to
//! either a leaf or a failure, and a settled view never changes.

use vstd::prelude::*;

use crate::certificate::QuorumCertificate;
use crate::commitment::Commitment;
use crate::data::{spec_leaf_commit, spec_leaf_wf, Leaf, LeafView, Transaction};
use crate::wire::bytes_eq;

verus! {

/// What a settled view holds: the commitment of its decided leaf, or the
/// mark that the view failed.
pub enum ViewInner {
    /// The view decided the leaf with this commitment.
    Leaf {
        /// The decided leaf's commitment.
        leaf: Commitment,
    },
    /// The view timed out.
    Failed,
}

/// The mathematical value of a [`ViewInner`].
pub enum ViewInnerView {
    /// The view decided the leaf with this commitment.
    Leaf(Seq<u8>),
    /// The view timed out.
    Failed,
}

impl View for ViewInner {
    type V = ViewInnerView;

    open spec fn view(&self) -> ViewInnerView {
        match self {
            ViewInner::Leaf { leaf } => ViewInnerView::Leaf(leaf@),
            ViewInner::Failed => ViewInnerView::Failed,
        }
    }
}

impl Clone for ViewInner {
    fn clone(&self) -> (r: Self)
        ensures
            r@ == self@,
    {
        match self {
            ViewInner::Leaf { leaf } => ViewInner::Leaf { leaf: leaf.clone() },
            ViewInner::Failed => ViewInner::Failed,
        }
    }
}

/// The views of the entries of a view map.
pub open spec fn spec_state_map_views(m: Seq<(u64, ViewInner)>) -> Seq<(u64, ViewInnerView)> {
    m.map_values(|e: (u64, ViewInner)| (e.0, e.1@))
}

/// The outcome recorded for view `v`: the first entry keyed `v`, if any.
pub open spec fn spec_view_lookup(m: Seq<(u64, ViewInnerView)>, v: u64) -> Option<ViewInnerView>
    decreases m.len(),
{
    if m.len() == 0 {
        None
    } else if m[0].0 == v {
        Some(m[0].1)
    } else {
        spec_view_lookup(m.drop_first(), v)
    }
}

/// A map whose keys strictly ascend.
pub open spec fn spec_state_map_sorted(m: Seq<(u64, ViewInnerView)>) -> bool {
    forall|i: int, j: int| 0 <= i < j < m.len() ==> (#[trigger] m[i]).0 < (#[trigger] m[j]).0
}

/// In a distinct-keyed map, an entry decides the lookup.
proof fn lemma_lookup_present(m: Seq<(u64, ViewInnerView)>, v: u64, i: int)
    requires
        0 <= i < m.len(),
        m[i].0 == v,
        forall|a: int, b: int| 0 <= a < b < m.len() ==> (#[trigger] m[a]).0 != (#[trigger] m[b]).0,
    ensures
        spec_view_lookup(m, v) == Some(m[i].1),
    decreases m.len(),
{
    if i > 0 {
        assert(m[0].0 != v);
        lemma_lookup_present(m.drop_first(), v, i - 1);
    }
}

/// A key no entry carries looks up to nothing.
proof fn lemma_lookup_absent(m: Seq<(u64, ViewInnerView)>, v: u64)
    requires
        forall|i: int| 0 <= i < m.len() ==> (#[trigger] m[i]).0 != v,
    ensures
        spec_view_lookup(m, v) == None::<ViewInnerView>,
    decreases m.len(),
{
    if m.len() > 0 {
        lemma_lookup_absent(m.drop_first(), v);
    }
}

/// A sound leaf store: distinct commitments, every leaf justified by its
/// parent's certificate.
pub open spec fn spec_leaves_wf(leaves: Seq<LeafView>) -> bool {
    &&& forall|i: int, j: int|
        0 <= i < j < leaves.len() ==> spec_leaf_commit(#[trigger] leaves[i]) != spec_leaf_commit(
            #[trigger] leaves[j],
        )
    &&& forall|i: int| 0 <= i < leaves.len() ==> spec_leaf_wf(#[trigger] leaves[i])
}

/// A sound mempool: pairwise distinct payloads.
pub open spec fn spec_mempool_wf(pool: Seq<Seq<u8>>) -> bool {
    forall|i: int, j: int| 0 <= i < j < pool.len() ==> (#[trigger] pool[i]) != (#[trigger] pool[j])
}

/// A map whose adjacent keys ascend has ascending keys throughout.
proof fn lemma_adjacent_keys_ascend(m: Seq<(u64, ViewInnerView)>, i: int, j: int)
    requires
        forall|k: int| 0 <= k < m.len() - 1 ==> (#[trigger] m[k]).0 < m[k + 1].0,
        0 <= i < j < m.len(),
    ensures
        m[i].0 < m[j].0,
    decreases j - i,
{
    if j > i + 1 {
        lemma_adjacent_keys_ascend(m, i, j - 1);
    }
}

/// The whole consensus state of one replica.
pub struct Consensus {
    /// Per view, the settled outcome, keyed by ascending view number.
    pub state_map: Vec<(u64, ViewInner)>,
    /// The known leaves, addressed by their commitment.
    pub saved_leaves: Vec<Leaf>,
    /// The pending transactions, distinct by payload.
    pub transactions: Vec<Transaction>,
    /// The highest quorum certificate observed.
    pub high_qc: QuorumCertificate,
}

impl Consensus {
    /// The view of the state map.
    pub open spec fn spec_map(&self) -> Seq<(u64, ViewInnerView)> {
        spec_state_map_views(self.state_map@)
    }

    /// The views of the saved leaves.
    pub open spec fn spec_leaves(&self) -> Seq<LeafView> {
        self.saved_leaves@.map_values(|l: Leaf| l@)
    }

    /// The payloads of the pending transactions.
    pub open spec fn spec_mempool(&self) -> Seq<Seq<u8>> {
        self.transactions@.map_values(|t: Transaction| t@)
    }

    /// Well-formedness: ascending views, distinct well-formed leaves,
    /// distinct pending payloads.
    pub open spec fn wf(&self) -> bool {
        &&& spec_state_map_sorted(self.spec_map())
        &&& spec_leaves_wf(self.spec_leaves())
        &&& spec_mempool_wf(self.spec_mempool())
    }

    /// Decide well-formedness at run time, so a host holding a consensus
    /// state from outside can establish what the verified methods
    /// require: ascending views, distinct well-formed leaves, distinct
    /// pending payloads.
    pub fn check_wf(&self) -> (r: bool)
        ensures
            r == self.wf(),
    {
        let ghost m = self.spec_map();
        // The view map's keys must strictly ascend.
        let mut i: usize = 0;
        while self.state_map.len() >= 1 && i < self.state_map.len() - 1
            invariant
                m == self.spec_map(),
                i <= m.len(),
                forall|k: int| 0 <= k < i ==> (#[trigger] m[k]).0 < m[k + 1].0,
            decreases m.len() - i,
        {
            proof {
                assert(m[i as int].0 == self.state_map@[i as int].0);
                assert(m[i + 1].0 == self.state_map@[i + 1].0);
            }
            if self.state_map[i].0 >= self.state_map[i + 1].0 {
                proof {
                    assert(!spec_state_map_sorted(m)) by {
                        assert(m[i as int].0 >= m[i + 1].0);
                    }
                }
                return false;
            }
            i = i + 1;
        }
        proof {
            assert forall|a: int, b: int| 0 <= a < b < m.len() implies (#[trigger] m[a]).0 < (
            #[trigger] m[b]).0 by {
                lemma_adjacent_keys_ascend(m, a, b);
            }
        }
        // The saved leaves must be well formed with distinct commitments.
        let ghost leaves = self.spec_leaves();
        let mut a: usize = 0;
        while a < self.saved_leaves.len()
            invariant
                leaves == self.spec_leaves(),
                a <= leaves.len(),
                forall|x: int| 0 <= x < a ==> spec_leaf_wf(#[trigger] leaves[x]),
                forall|x: int, y: int|
                    0 <= x < y < a ==> spec_leaf_commit(#[trigger] leaves[x]) != spec_leaf_commit(
                        #[trigger] leaves[y],
                    ),
            decreases leaves.len() - a,
        {
            proof {
                assert(leaves[a as int] == self.saved_leaves@[a as int]@);
            }
            if !self.saved_leaves[a].is_well_formed() {
                return false;
            }
            let commitment = self.saved_leaves[a].commit();
            let mut b: usize = 0;
            while b < a
                invariant
                    leaves == self.spec_leaves(),
                    b <= a < leaves.len(),
                    commitment@ == spec_leaf_commit(leaves[a as int]),
                    forall|x: int|
                        0 <= x < b ==> spec_leaf_commit(#[trigger] leaves[x]) != spec_leaf_commit(
                            leaves[a as int],
                        ),
                decreases a - b,
            {
                proof {
                    assert(leaves[b as int] == self.saved_leaves@[b as int]@);
                }
                let other = self.saved_leaves[b].commit();
                if bytes_eq(&other.bytes, &commitment.bytes) {
                    return false;
                }
                b = b + 1;
            }
            a = a + 1;
        }
        // The pending payloads must be pairwise distinct.
        let ghost pool = self.spec_mempool();
        let mut p: usize = 0;
        while p < self.transactions.len()
            invariant
                pool == self.spec_mempool(),
                p <= pool.len(),
                forall|x: int, y: int|
                    0 <= x < y < p ==> (#[trigger] pool[x]) != (#[trigger] pool[y]),
            decreases pool.len() - p,
        {
            proof {
                assert(pool[p as int] == self.transactions@[p as int]@);
            }
            let mut q: usize = 0;
            while q < p
                invariant
                    pool == self.spec_mempool(),
                    q <= p < pool.len(),
                    forall|x: int| 0 <= x < q ==> (#[trigger] pool[x]) != pool[p as int],
                decreases p - q,
            {
                proof {
                    assert(pool[q as int] == self.transactions@[q as int]@);
                    assert(pool[p as int] == self.transactions@[p as int]@);
                }
                if bytes_eq(&self.transactions[q].payload, &self.transactions[p].payload) {
                    return false;
                }
                q = q + 1;
            }
            p = p + 1;
        }
        true
    }

    /// Record the outcome of a view.  The map is append-only: recording
    /// a view that already settled changes nothing and reports `false`;
    /// a fresh view is recorded exactly once.  This is the immutability
    /// of the view map: at most one outcome ever holds for a view, and
    /// once set it never changes.
    pub fn insert_view(&mut self, view_number: u64, inner: ViewInner) -> (r: bool)
        requires
            old(self).wf(),
        ensures
            final(self).wf(),
            r == spec_view_lookup(old(self).spec_map(), view_number).is_none(),
            forall|v2: u64|
                #[trigger] spec_view_lookup(final(self).spec_map(), v2) == (if r && v2
                    == view_number {
                    Some(inner@)
                } else {
                    spec_view_lookup(old(self).spec_map(), v2)
                }),
            final(self).spec_leaves() == old(self).spec_leaves(),
            final(self).spec_mempool() == old(self).spec_mempool(),
            final(self).high_qc@ == old(self).high_qc@,
    {
        let ghost olds = self.spec_map();
        let n = self.state_map.len();
        let mut pos: usize = 0;
        while pos < n && self.state_map[pos].0 < view_number
            invariant
                n == self.state_map@.len(),
                olds == self.spec_map(),
                pos <= n,
                forall|k: int| 0 <= k < pos ==> (#[trigger] olds[k]).0 < view_number,
            decreases n - pos,
        {
            proof {
                assert(olds[pos as int].0 == self.state_map@[pos as int].0);
            }
            pos = pos + 1;
        }
        proof {
            assert(pos < n ==> olds[pos as int].0 == self.state_map@[pos as int].0);
        }
        if pos < n && self.state_map[pos].0 == view_number {
            proof {
                assert(forall|a: int, b: int|
                    0 <= a < b < olds.len() ==> (#[trigger] olds[a]).0 != (#[trigger] olds[b]).0);
                lemma_lookup_present(olds, view_number, pos as int);
            }
            return false;
        }
        proof {
            assert forall|i: int| 0 <= i < olds.len() implies (#[trigger] olds[i]).0
                != view_number by {
                if i >= pos {
                    if pos < n {
                        assert(olds[pos as int].0 > view_number || olds[pos as int].0
                            < view_number);
                    }
                }
            }
            lemma_lookup_absent(olds, view_number);
        }
        self.state_map.insert(pos, (view_number, inner));
        proof {
            let news = self.spec_map();
            assert(news =~= olds.insert(pos as int, (view_number, inner@)));
            assert forall|a: int, b: int| 0 <= a < b < news.len() implies (#[trigger] news[a]).0
                < (#[trigger] news[b]).0 by {
                if a < pos {
                    assert(news[a] == olds[a]);
                } else if a > pos {
                    assert(news[a] == olds[a - 1]);
                }
                if b < pos {
                    assert(news[b] == olds[b]);
                } else if b > pos {
                    assert(news[b] == olds[b - 1]);
                }
                if b == pos && a < pos {
                    assert(olds[a].0 < view_number);
                }
                if a == pos && b > pos {
                    assert(olds[b - 1].0 >= view_number);
                }
            }
            assert forall|v2: u64|
                #[trigger] spec_view_lookup(news, v2) == (if v2 == view_number {
                    Some(inner@)
                } else {
                    spec_view_lookup(olds, v2)
                }) by {
                if v2 == view_number {
                    lemma_lookup_present(news, v2, pos as int);
                } else {
                    if exists|i: int| 0 <= i < olds.len() && (#[trigger] olds[i]).0 == v2 {
                        let i = choose|i: int| 0 <= i < olds.len() && (#[trigger] olds[i]).0 == v2;
                        lemma_lookup_present(olds, v2, i);
                        if i < pos {
                            lemma_lookup_present(news, v2, i);
                        } else {
                            assert(news[i + 1] == olds[i]);
                            lemma_lookup_present(news, v2, i + 1);
                        }
                    } else {
                        lemma_lookup_absent(olds, v2);
                        assert forall|i: int| 0 <= i < news.len() implies (#[trigger] news[i]).0
                            != v2 by {
                            if i < pos {
                                assert(news[i] == olds[i]);
                            } else if i > pos {
                                assert(news[i] == olds[i - 1]);
                            }
                        }
                        lemma_lookup_absent(news, v2);
                    }
                }
            }
        }
        true
    }

    /// The outcome settled for a view, if any.
    pub fn view_inner(&self, view_number: u64) -> (r: Option<&ViewInner>)
        requires
            self.wf(),
        ensures
            match r {
                Some(vi) => spec_view_lookup(self.spec_map(), view_number) == Some(vi@),
                None => spec_view_lookup(self.spec_map(), view_number) is None,
            },
    {
        let ghost m = self.spec_map();
        let mut i: usize = 0;
        while i < self.state_map.len()
            invariant
                self.wf(),
                m == self.spec_map(),
                i <= m.len(),
                forall|k: int| 0 <= k < i ==> (#[trigger] m[k]).0 != view_number,
            decreases m.len() - i,
        {
            proof {
                assert(m[i as int].0 == self.state_map@[i as int].0);
            }
            if self.state_map[i].0 == view_number {
                proof {
                    assert forall|a: int, b: int| 0 <= a < b < m.len() implies (
                    #[trigger] m[a]).0 != (#[trigger] m[b]).0 by {}
                    lemma_lookup_present(m, view_number, i as int);
                }
                return Some(&self.state_map[i].1);
            }
            i = i + 1;
        }
        proof {
            lemma_lookup_absent(m, view_number);
        }
        None
    }

    /// Save a leaf under its commitment.  A leaf whose commitment is
    /// already present changes nothing and reports `false`.
    pub fn save_leaf(&mut self, leaf: Leaf) -> (r: bool)
        requires
            old(self).wf(),
            spec_leaf_wf(leaf@),
        ensures
            final(self).wf(),
            r == !(exists|i: int|
                0 <= i < old(self).spec_leaves().len() && spec_leaf_commit(
                    #[trigger] old(self).spec_leaves()[i],
                ) == spec_leaf_commit(leaf@)),
            final(self).spec_leaves() == (if r {
                old(self).spec_leaves().push(leaf@)
            } else {
                old(self).spec_leaves()
            }),
            final(self).spec_map() == old(self).spec_map(),
            final(self).spec_mempool() == old(self).spec_mempool(),
            final(self).high_qc@ == old(self).high_qc@,
    {
        let ghost olds = self.spec_leaves();
        let commitment = leaf.commit();
        let mut i: usize = 0;
        while i < self.saved_leaves.len()
            invariant
                self.wf(),
                self == old(self),
                olds == self.spec_leaves(),
                i <= olds.len(),
                commitment@ == spec_leaf_commit(leaf@),
                forall|k: int|
                    0 <= k < i ==> spec_leaf_commit(#[trigger] olds[k]) != spec_leaf_commit(leaf@),
            decreases olds.len() - i,
        {
            proof {
                assert(olds[i as int] == self.saved_leaves@[i as int]@);
            }
            let c = self.saved_leaves[i].commit();
            if bytes_eq(&c.bytes, &commitment.bytes) {
                proof {
                    assert(spec_leaf_commit(olds[i as int]) == spec_leaf_commit(leaf@));
                }
                return false;
            }
            i = i + 1;
        }
        self.saved_leaves.push(leaf);
        proof {
            let news = self.spec_leaves();
            assert(news =~= olds.push(leaf@));
            assert forall|a: int, b: int| 0 <= a < b < news.len() implies spec_leaf_commit(
                #[trigger] news[a],
            ) != spec_leaf_commit(#[trigger] news[b]) by {
                if b == news.len() - 1 {
                    assert(news[a] == olds[a]);
                } else {
                    assert(news[a] == olds[a]);
                    assert(news[b] == olds[b]);
                }
            }
            assert forall|k: int| 0 <= k < news.len() implies spec_leaf_wf(
                #[trigger] news[k],
            ) by {
                if k < news.len() - 1 {
                    assert(news[k] == olds[k]);
                }
            }
        }
        true
    }

    /// The saved leaf with the given commitment, if any.
    pub fn get_leaf(&self, commitment: &Commitment) -> (r: Option<&Leaf>)
        requires
            self.wf(),
        ensures
            match r {
                Some(l) => spec_leaf_commit(l@) == commitment@ && (exists|i: int|
                    0 <= i < self.spec_leaves().len() && #[trigger] self.spec_leaves()[i] == l@),
                None => forall|i: int|
                    0 <= i < self.spec_leaves().len() ==> spec_leaf_commit(
                        #[trigger] self.spec_leaves()[i],
                    ) != commitment@,
            },
    {
        let ghost leaves = self.spec_leaves();
        let mut i: usize = 0;
        while i < self.saved_leaves.len()
            invariant
                leaves == self.spec_leaves(),
                i <= leaves.len(),
                forall|k: int|
                    0 <= k < i ==> spec_leaf_commit(#[trigger] leaves[k]) != commitment@,
            decreases leaves.len() - i,
        {
            proof {
                assert(leaves[i as int] == self.saved_leaves@[i as int]@);
            }
            let c = self.saved_leaves[i].commit();
            if bytes_eq(&c.bytes, &commitment.bytes) {
                return Some(&self.saved_leaves[i]);
            }
            i = i + 1;
        }
        None
    }

    /// Add a pending transaction.  One with a payload already pending
    /// changes nothing and reports `false`.
    pub fn add_transaction(&mut self, tx: Transaction) -> (r: bool)
        requires
            old(self).wf(),
        ensures
            final(self).wf(),
            r == !old(self).spec_mempool().contains(tx@),
            final(self).spec_mempool() == (if r {
                old(self).spec_mempool().push(tx@)
            } else {
                old(self).spec_mempool()
            }),
            final(self).spec_map() == old(self).spec_map(),
            final(self).spec_leaves() == old(self).spec_leaves(),
            final(self).high_qc@ == old(self).high_qc@,
    {
        let ghost olds = self.spec_mempool();
        let mut i: usize = 0;
        while i < self.transactions.len()
            invariant
                self.wf(),
                self == old(self),
                olds == self.spec_mempool(),
                i <= olds.len(),
                forall|k: int| 0 <= k < i ==> (#[trigger] olds[k]) != tx@,
            decreases olds.len() - i,
        {
            proof {
                assert(olds[i as int] == self.transactions@[i as int]@);
            }
            if bytes_eq(&self.transactions[i].payload, &tx.payload) {
                proof {
                    assert(olds[i as int] == tx@);
                    assert(olds.contains(tx@));
                }
                return false;
            }
            i = i + 1;
        }
        proof {
            assert(!olds.contains(tx@));
        }
        self.transactions.push(tx);
        proof {
            let news = self.spec_mempool();
            assert(news =~= olds.push(tx@));
            assert forall|a: int, b: int| 0 <= a < b < news.len() implies (#[trigger] news[a]) != (
            #[trigger] news[b]) by {
                if b == news.len() - 1 {
                    assert(news[a] == olds[a]);
                    assert(!olds.contains(tx@));
                } else {
                    assert(news[a] == olds[a]);
                    assert(news[b] == olds[b]);
                }
            }
        }
        true
    }

    /// A copy of the pending transactions.
    pub fn cloned_transactions(&self) -> (r: Vec<Transaction>)
        ensures
            r@.map_values(|t: Transaction| t@) == self.spec_mempool(),
    {
        let mut out: Vec<Transaction> = Vec::new();
        let mut i: usize = 0;
        while i < self.transactions.len()
            invariant
                i <= self.transactions@.len(),
                out@.len() == i,
                forall|j: int| 0 <= j < i ==> (#[trigger] out@[j])@ == self.transactions@[j]@,
            decreases self.transactions@.len() - i,
        {
            out.push(self.transactions[i].clone());
            i = i + 1;
        }
        assert forall|j: int| 0 <= j < out@.len() implies out@.map_values(|t: Transaction| t@)[j]
            == self.spec_mempool()[j] by {
            assert(self.spec_mempool()[j] == self.transactions@[j]@);
        }
        assert(out@.map_values(|t: Transaction| t@) =~= self.spec_mempool());
        out
    }

    /// The consensus state a replica starts from: the genesis leaf saved
    /// and settled in the genesis view, the genesis certificate as the
    /// highest, and an empty mempool.
    pub fn genesis() -> (r: Consensus)
        ensures
            r.wf(),
            r.high_qc@.is_genesis,
            r.high_qc@.view_number == 0,
            spec_view_lookup(r.spec_map(), 0) matches Some(v) && v matches ViewInnerView::Leaf(_),
            r.spec_leaves().len() == 1,
            r.spec_mempool().len() == 0,
    {
        let genesis_state = crate::data::State::genesis();
        let genesis_leaf = Leaf {
            view_number: 0,
            height: 0,
            justify_qc: QuorumCertificate::genesis(),
            parent_commitment: crate::commitment::fake_commitment(),
            deltas: crate::data::Block::new(),
            state: crate::Either::Left(genesis_state),
            rejected: Vec::new(),
            timestamp: 0,
            proposer_id: crate::signature::EncodedPublicKey { bytes: Vec::new() },
        };
        let commitment = genesis_leaf.commit();
        let mut state_map: Vec<(u64, ViewInner)> = Vec::new();
        state_map.push((0, ViewInner::Leaf { leaf: commitment }));
        let mut saved_leaves: Vec<Leaf> = Vec::new();
        saved_leaves.push(genesis_leaf);
        let r = Consensus {
            state_map,
            saved_leaves,
            transactions: Vec::new(),
            high_qc: QuorumCertificate::genesis(),
        };
        proof {
            assert(r.spec_map().len() == 1);
            assert(r.spec_map()[0].0 == 0);
            assert(r.spec_leaves().len() == 1);
            assert(spec_leaf_wf(r.spec_leaves()[0]));
            assert(r.spec_mempool() =~= Seq::<Seq<u8>>::empty());
        }
        r
    }
}

} // verus!
