//! Certificates: assembled threshold signatures over a commitment and a
//! view, one shape per vote kind, together with their canonical byte
//! encodings and tagged commitments.

use vstd::prelude::*;

use crate::commitment::{
    fake_commitment, spec_fake_commitment, spec_tag_justify_qc_signatures, spec_tag_qc_commitment,
    spec_tag_view_sync_cert_commitment, tag_justify_qc_signatures, tag_qc_commitment,
    tag_view_sync_cert_commitment, Commitment,
};
use crate::election::{StaticVoteToken, VoteData};
use crate::signature::{
    AggregateSignature, EncodedPublicKey, EncodedSignature, SignaturePairView,
};
use crate::wire::{push_bytes, push_u64_be, spec_u64_to_be_bytes};

verus! {

/// The assembled signatures of a certificate, tagged by the vote kind
/// they were collected for (or `Genesis` for the sentinel certificate).
pub enum AssembledSignature {
    /// Signatures of a `Yes` certificate.
    Yes(AggregateSignature),
    /// Signatures of a `No` certificate.
    No(AggregateSignature),
    /// Signatures of a `DA` certificate.
    DA(AggregateSignature),
    /// The genesis certificate carries no signatures.
    Genesis(),
    /// Signatures of a view-sync pre-commit certificate.
    ViewSyncPreCommit(AggregateSignature),
    /// Signatures of a view-sync commit certificate.
    ViewSyncCommit(AggregateSignature),
    /// Signatures of a view-sync finalize certificate.
    ViewSyncFinalize(AggregateSignature),
}

/// The mathematical value of an [`AssembledSignature`].
pub enum AssembledSignatureView {
    /// Signatures of a `Yes` certificate.
    Yes(Seq<SignaturePairView>),
    /// Signatures of a `No` certificate.
    No(Seq<SignaturePairView>),
    /// Signatures of a `DA` certificate.
    DA(Seq<SignaturePairView>),
    /// The genesis certificate carries no signatures.
    Genesis,
    /// Signatures of a view-sync pre-commit certificate.
    ViewSyncPreCommit(Seq<SignaturePairView>),
    /// Signatures of a view-sync commit certificate.
    ViewSyncCommit(Seq<SignaturePairView>),
    /// Signatures of a view-sync finalize certificate.
    ViewSyncFinalize(Seq<SignaturePairView>),
}

impl View for AssembledSignature {
    type V = AssembledSignatureView;

    open spec fn view(&self) -> AssembledSignatureView {
        match self {
            AssembledSignature::Yes(s) => AssembledSignatureView::Yes(s@),
            AssembledSignature::No(s) => AssembledSignatureView::No(s@),
            AssembledSignature::DA(s) => AssembledSignatureView::DA(s@),
            AssembledSignature::Genesis() => AssembledSignatureView::Genesis,
            AssembledSignature::ViewSyncPreCommit(s) => AssembledSignatureView::ViewSyncPreCommit(
                s@,
            ),
            AssembledSignature::ViewSyncCommit(s) => AssembledSignatureView::ViewSyncCommit(s@),
            AssembledSignature::ViewSyncFinalize(s) => AssembledSignatureView::ViewSyncFinalize(
                s@,
            ),
        }
    }
}

impl Clone for AssembledSignature {
    fn clone(&self) -> (r: Self)
        ensures
            r@ == self@,
    {
        match self {
            AssembledSignature::Yes(s) => AssembledSignature::Yes(s.clone()),
            AssembledSignature::No(s) => AssembledSignature::No(s.clone()),
            AssembledSignature::DA(s) => AssembledSignature::DA(s.clone()),
            AssembledSignature::Genesis() => AssembledSignature::Genesis(),
            AssembledSignature::ViewSyncPreCommit(s) => AssembledSignature::ViewSyncPreCommit(
                s.clone(),
            ),
            AssembledSignature::ViewSyncCommit(s) => AssembledSignature::ViewSyncCommit(s.clone()),
            AssembledSignature::ViewSyncFinalize(s) => AssembledSignature::ViewSyncFinalize(
                s.clone(),
            ),
        }
    }
}

/// The canonical bytes of one signer's contribution: length-prefixed key,
/// then length-prefixed signature.
pub open spec fn spec_pair_bytes(pair: SignaturePairView) -> Seq<u8> {
    spec_u64_to_be_bytes(pair.key.len() as u64) + pair.key + spec_u64_to_be_bytes(
        pair.signature.len() as u64,
    ) + pair.signature
}

/// The canonical bytes of a list of contributions, in order.
pub open spec fn spec_pairs_bytes(pairs: Seq<SignaturePairView>) -> Seq<u8>
    decreases pairs.len(),
{
    if pairs.len() == 0 {
        Seq::<u8>::empty()
    } else {
        spec_pairs_bytes(pairs.drop_last()) + spec_pair_bytes(pairs.last())
    }
}

/// The canonical bytes of an aggregate signature: the signer count, then
/// each contribution.
pub open spec fn spec_aggregate_bytes(pairs: Seq<SignaturePairView>) -> Seq<u8> {
    spec_u64_to_be_bytes(pairs.len() as u64) + spec_pairs_bytes(pairs)
}

/// The wire byte naming each [`AssembledSignature`] variant.
pub open spec fn spec_assembled_kind_byte(s: AssembledSignatureView) -> u8 {
    match s {
        AssembledSignatureView::Yes(_) => 0,
        AssembledSignatureView::No(_) => 1,
        AssembledSignatureView::DA(_) => 2,
        AssembledSignatureView::Genesis => 3,
        AssembledSignatureView::ViewSyncPreCommit(_) => 4,
        AssembledSignatureView::ViewSyncCommit(_) => 5,
        AssembledSignatureView::ViewSyncFinalize(_) => 6,
    }
}

/// The aggregate inside an [`AssembledSignatureView`]; the genesis variant
/// holds the empty list.
pub open spec fn spec_assembled_pairs(s: AssembledSignatureView) -> Seq<SignaturePairView> {
    match s {
        AssembledSignatureView::Yes(p) => p,
        AssembledSignatureView::No(p) => p,
        AssembledSignatureView::DA(p) => p,
        AssembledSignatureView::Genesis => Seq::<SignaturePairView>::empty(),
        AssembledSignatureView::ViewSyncPreCommit(p) => p,
        AssembledSignatureView::ViewSyncCommit(p) => p,
        AssembledSignatureView::ViewSyncFinalize(p) => p,
    }
}

/// The canonical bytes of an assembled signature: its kind byte, then,
/// for the signed kinds, the aggregate.
pub open spec fn spec_serialize_signature(s: AssembledSignatureView) -> Seq<u8> {
    match s {
        AssembledSignatureView::Genesis => seq![spec_assembled_kind_byte(s)],
        _ => seq![spec_assembled_kind_byte(s)] + spec_aggregate_bytes(spec_assembled_pairs(s)),
    }
}

/// Append the canonical bytes of `aggregate` to `out`.
fn push_aggregate_bytes(out: &mut Vec<u8>, aggregate: &AggregateSignature)
    ensures
        final(out)@ == old(out)@ + spec_aggregate_bytes(aggregate@),
{
    push_u64_be(out, aggregate.entries.len() as u64);
    let ghost base = out@;
    let mut i: usize = 0;
    while i < aggregate.entries.len()
        invariant
            i <= aggregate.entries@.len(),
            out@ == base + spec_pairs_bytes(aggregate@.take(i as int)),
        decreases aggregate.entries@.len() - i,
    {
        let pair = &aggregate.entries[i];
        assert(aggregate@[i as int] == aggregate.entries@[i as int]@);
        push_u64_be(out, pair.key.bytes.len() as u64);
        push_bytes(out, &pair.key.bytes);
        push_u64_be(out, pair.signature.bytes.len() as u64);
        push_bytes(out, &pair.signature.bytes);
        i = i + 1;
        proof {
            let taken = aggregate@.take(i as int);
            assert(taken.drop_last() =~= aggregate@.take(i - 1));
            assert(taken.last() == aggregate@[i - 1]);
            assert(out@ =~= base + spec_pairs_bytes(taken));
        }
    }
    assert(aggregate@.take(aggregate.entries@.len() as int) =~= aggregate@);
    assert(out@ =~= old(out)@ + spec_aggregate_bytes(aggregate@));
}

/// The canonical bytes of an assembled signature, as hashed into the
/// commitment of the certificate that carries it.
pub fn serialize_signature(signatures: &AssembledSignature) -> (r: Vec<u8>)
    ensures
        r@ == spec_serialize_signature(signatures@),
{
    let mut out: Vec<u8> = Vec::new();
    match signatures {
        AssembledSignature::Yes(s) => {
            out.push(0);
            push_aggregate_bytes(&mut out, s);
        },
        AssembledSignature::No(s) => {
            out.push(1);
            push_aggregate_bytes(&mut out, s);
        },
        AssembledSignature::DA(s) => {
            out.push(2);
            push_aggregate_bytes(&mut out, s);
        },
        AssembledSignature::Genesis() => {
            out.push(3);
        },
        AssembledSignature::ViewSyncPreCommit(s) => {
            out.push(4);
            push_aggregate_bytes(&mut out, s);
        },
        AssembledSignature::ViewSyncCommit(s) => {
            out.push(5);
            push_aggregate_bytes(&mut out, s);
        },
        AssembledSignature::ViewSyncFinalize(s) => {
            out.push(6);
            push_aggregate_bytes(&mut out, s);
        },
    }
    assert(out@ =~= spec_serialize_signature(signatures@));
    out
}

/// A threshold signature by the DA committee that a block's payload is
/// retrievable.
pub struct DACertificate {
    /// The view this certificate was generated during.
    pub view_number: u64,
    /// Commitment to the block.
    pub block_commitment: Commitment,
    /// Assembled signature for certificate aggregation.
    pub signatures: AssembledSignature,
}

/// The mathematical value of a [`DACertificate`].
pub struct DACertificateView {
    /// The view this certificate was generated during.
    pub view_number: u64,
    /// Commitment to the block.
    pub block_commitment: Seq<u8>,
    /// Assembled signature for certificate aggregation.
    pub signatures: AssembledSignatureView,
}

impl View for DACertificate {
    type V = DACertificateView;

    open spec fn view(&self) -> DACertificateView {
        DACertificateView {
            view_number: self.view_number,
            block_commitment: self.block_commitment@,
            signatures: self.signatures@,
        }
    }
}

impl Clone for DACertificate {
    fn clone(&self) -> (r: Self)
        ensures
            r@ == self@,
    {
        DACertificate {
            view_number: self.view_number,
            block_commitment: self.block_commitment.clone(),
            signatures: self.signatures.clone(),
        }
    }
}

impl DACertificate {
    /// Build a DA certificate from the assembled signatures and the block
    /// commitment they cover.
    pub fn from_signatures_and_commitment(
        view_number: u64,
        signatures: AssembledSignature,
        commit: Commitment,
        _relay: Option<u64>,
    ) -> (r: DACertificate)
        ensures
            r@ == (DACertificateView {
                view_number,
                block_commitment: commit@,
                signatures: signatures@,
            }),
    {
        DACertificate { view_number, signatures, block_commitment: commit }
    }

    /// The view this certificate was generated during.
    pub fn view_number(&self) -> (r: u64)
        ensures
            r == self.view_number,
    {
        self.view_number
    }

    /// The assembled signatures.
    pub fn signatures(&self) -> (r: AssembledSignature)
        ensures
            r@ == self.signatures@,
    {
        self.signatures.clone()
    }

    /// The commitment this certificate covers.
    pub fn leaf_commitment(&self) -> (r: Commitment)
        ensures
            r@ == self.block_commitment@,
    {
        self.block_commitment.clone()
    }

    /// A DA certificate's commitment is fixed at assembly; this does
    /// nothing.
    pub fn set_leaf_commitment(&mut self, _commitment: &Commitment)
        ensures
            final(self)@ == old(self)@,
    {
    }

    /// A DA certificate is never the genesis certificate.
    pub fn is_genesis(&self) -> (r: bool)
        ensures
            r == false,
    {
        false
    }
}

/// A threshold signature of a proposed leaf: proof that a quorum accepted
/// the leaf it names.
pub struct QuorumCertificate {
    /// Commitment to the accepted leaf.
    pub leaf_commitment: Commitment,
    /// The view this certificate relates to.
    pub view_number: u64,
    /// Assembled signature for certificate aggregation.
    pub signatures: AssembledSignature,
    /// Whether this is the sentinel certificate of the genesis leaf.
    pub is_genesis: bool,
}

/// The mathematical value of a [`QuorumCertificate`].
pub struct QuorumCertificateView {
    /// Commitment to the accepted leaf.
    pub leaf_commitment: Seq<u8>,
    /// The view this certificate relates to.
    pub view_number: u64,
    /// Assembled signature for certificate aggregation.
    pub signatures: AssembledSignatureView,
    /// Whether this is the sentinel certificate of the genesis leaf.
    pub is_genesis: bool,
}

impl View for QuorumCertificate {
    type V = QuorumCertificateView;

    open spec fn view(&self) -> QuorumCertificateView {
        QuorumCertificateView {
            leaf_commitment: self.leaf_commitment@,
            view_number: self.view_number,
            signatures: self.signatures@,
            is_genesis: self.is_genesis,
        }
    }
}

impl Clone for QuorumCertificate {
    fn clone(&self) -> (r: Self)
        ensures
            r@ == self@,
    {
        QuorumCertificate {
            leaf_commitment: self.leaf_commitment.clone(),
            view_number: self.view_number,
            signatures: self.signatures.clone(),
            is_genesis: self.is_genesis,
        }
    }
}

/// The commitment of a quorum certificate: the certificate tag, the leaf
/// commitment, the view, and the serialised signatures under their label.
pub open spec fn spec_qc_commit(qc: QuorumCertificateView) -> Seq<u8> {
    spec_tag_qc_commitment() + qc.leaf_commitment + spec_u64_to_be_bytes(qc.view_number)
        + spec_tag_justify_qc_signatures() + spec_serialize_signature(qc.signatures)
}

impl QuorumCertificate {
    /// Build a quorum certificate from the assembled signatures and the
    /// leaf commitment they cover.  Certificates built this way are never
    /// the genesis certificate.
    pub fn from_signatures_and_commitment(
        view_number: u64,
        signatures: AssembledSignature,
        commit: Commitment,
        _relay: Option<u64>,
    ) -> (r: QuorumCertificate)
        ensures
            r@ == (QuorumCertificateView {
                leaf_commitment: commit@,
                view_number,
                signatures: signatures@,
                is_genesis: false,
            }),
    {
        QuorumCertificate { leaf_commitment: commit, view_number, signatures, is_genesis: false }
    }

    /// The view this certificate relates to.
    pub fn view_number(&self) -> (r: u64)
        ensures
            r == self.view_number,
    {
        self.view_number
    }

    /// The assembled signatures.
    pub fn signatures(&self) -> (r: AssembledSignature)
        ensures
            r@ == self.signatures@,
    {
        self.signatures.clone()
    }

    /// The leaf commitment this certificate covers.
    pub fn leaf_commitment(&self) -> (r: Commitment)
        ensures
            r@ == self.leaf_commitment@,
    {
        self.leaf_commitment.clone()
    }

    /// Replace the leaf commitment.
    pub fn set_leaf_commitment(&mut self, commitment: Commitment)
        ensures
            final(self)@ == (QuorumCertificateView { leaf_commitment: commitment@, ..old(self)@ }),
    {
        self.leaf_commitment = commitment;
    }

    /// Whether this is the sentinel certificate of the genesis leaf.
    pub fn is_genesis(&self) -> (r: bool)
        ensures
            r == self.is_genesis,
    {
        self.is_genesis
    }

    /// The sentinel certificate the chain starts from: genesis view, a
    /// fake commitment, and no signatures.
    pub fn genesis() -> (r: QuorumCertificate)
        ensures
            r@ == (QuorumCertificateView {
                leaf_commitment: spec_fake_commitment(),
                view_number: 0,
                signatures: AssembledSignatureView::Genesis,
                is_genesis: true,
            }),
    {
        QuorumCertificate {
            leaf_commitment: fake_commitment(),
            view_number: 0,
            signatures: AssembledSignature::Genesis(),
            is_genesis: true,
        }
    }

    /// The tagged commitment of this certificate.
    pub fn commit(&self) -> (r: Commitment)
        ensures
            r@ == spec_qc_commit(self@),
    {
        let mut bytes = tag_qc_commitment();
        push_bytes(&mut bytes, &self.leaf_commitment.bytes);
        push_u64_be(&mut bytes, self.view_number);
        let label = tag_justify_qc_signatures();
        push_bytes(&mut bytes, &label);
        let signature_bytes = serialize_signature(&self.signatures);
        push_bytes(&mut bytes, &signature_bytes);
        assert(bytes@ =~= spec_qc_commit(self@));
        Commitment { bytes }
    }

    /// The tag under which quorum certificates are displayed.
    pub fn tag() -> (r: String)
        ensures
            r@ == "QC"@,
    {
        "QC".to_owned()
    }
}

/// Proof that a quorum saw a view time out.
pub struct TimeoutCertificate {
    /// View that timed out.
    pub view_number: u64,
    /// Assembled signature for certificate aggregation.
    pub signatures: AssembledSignature,
}

impl Clone for TimeoutCertificate {
    fn clone(&self) -> (r: Self)
        ensures
            r.view_number == self.view_number,
            r.signatures@ == self.signatures@,
    {
        TimeoutCertificate {
            view_number: self.view_number,
            signatures: self.signatures.clone(),
        }
    }
}

/// One phase of a view-sync certificate: a quorum of votes to synchronise
/// on a round, addressed through a relay.
pub struct ViewSyncCertificateInternal {
    /// Relay the votes are intended for.
    pub relay: u64,
    /// View number the network is attempting to synchronize on.
    pub round: u64,
    /// Aggregated signatures.
    pub signatures: AssembledSignature,
}

/// The mathematical value of a [`ViewSyncCertificateInternal`].
pub struct ViewSyncCertificateInternalView {
    /// Relay the votes are intended for.
    pub relay: u64,
    /// View number the network is attempting to synchronize on.
    pub round: u64,
    /// Aggregated signatures.
    pub signatures: AssembledSignatureView,
}

impl View for ViewSyncCertificateInternal {
    type V = ViewSyncCertificateInternalView;

    open spec fn view(&self) -> ViewSyncCertificateInternalView {
        ViewSyncCertificateInternalView {
            relay: self.relay,
            round: self.round,
            signatures: self.signatures@,
        }
    }
}

impl Clone for ViewSyncCertificateInternal {
    fn clone(&self) -> (r: Self)
        ensures
            r@ == self@,
    {
        ViewSyncCertificateInternal {
            relay: self.relay,
            round: self.round,
            signatures: self.signatures.clone(),
        }
    }
}

/// Certificate for view sync, one variant per phase.
pub enum ViewSyncCertificate {
    /// Pre-commit phase.
    PreCommit(ViewSyncCertificateInternal),
    /// Commit phase.
    Commit(ViewSyncCertificateInternal),
    /// Finalize phase.
    Finalize(ViewSyncCertificateInternal),
}

/// The mathematical value of a [`ViewSyncCertificate`].
pub enum ViewSyncCertificateView {
    /// Pre-commit phase.
    PreCommit(ViewSyncCertificateInternalView),
    /// Commit phase.
    Commit(ViewSyncCertificateInternalView),
    /// Finalize phase.
    Finalize(ViewSyncCertificateInternalView),
}

impl View for ViewSyncCertificate {
    type V = ViewSyncCertificateView;

    open spec fn view(&self) -> ViewSyncCertificateView {
        match self {
            ViewSyncCertificate::PreCommit(c) => ViewSyncCertificateView::PreCommit(c@),
            ViewSyncCertificate::Commit(c) => ViewSyncCertificateView::Commit(c@),
            ViewSyncCertificate::Finalize(c) => ViewSyncCertificateView::Finalize(c@),
        }
    }
}

impl Clone for ViewSyncCertificate {
    fn clone(&self) -> (r: Self)
        ensures
            r@ == self@,
    {
        match self {
            ViewSyncCertificate::PreCommit(c) => ViewSyncCertificate::PreCommit(c.clone()),
            ViewSyncCertificate::Commit(c) => ViewSyncCertificate::Commit(c.clone()),
            ViewSyncCertificate::Finalize(c) => ViewSyncCertificate::Finalize(c.clone()),
        }
    }
}

/// The phase inside a [`ViewSyncCertificateView`].
pub open spec fn spec_view_sync_cert_internal(c: ViewSyncCertificateView)
    -> ViewSyncCertificateInternalView {
    match c {
        ViewSyncCertificateView::PreCommit(i) => i,
        ViewSyncCertificateView::Commit(i) => i,
        ViewSyncCertificateView::Finalize(i) => i,
    }
}

/// The wire byte naming each view-sync phase.
pub open spec fn spec_view_sync_phase_byte(c: ViewSyncCertificateView) -> u8 {
    match c {
        ViewSyncCertificateView::PreCommit(_) => 0,
        ViewSyncCertificateView::Commit(_) => 1,
        ViewSyncCertificateView::Finalize(_) => 2,
    }
}

/// The canonical bytes of a view-sync certificate: phase byte, relay,
/// round, then the serialised signatures.
pub open spec fn spec_view_sync_cert_bytes(c: ViewSyncCertificateView) -> Seq<u8> {
    seq![spec_view_sync_phase_byte(c)] + spec_u64_to_be_bytes(spec_view_sync_cert_internal(c).relay)
        + spec_u64_to_be_bytes(spec_view_sync_cert_internal(c).round) + spec_serialize_signature(
        spec_view_sync_cert_internal(c).signatures,
    )
}

/// The commitment of a view-sync certificate: the certificate tag, the
/// signature label and serialised signatures, then phase, relay and round.
pub open spec fn spec_view_sync_cert_commit(c: ViewSyncCertificateView) -> Seq<u8> {
    spec_tag_view_sync_cert_commitment() + spec_tag_justify_qc_signatures()
        + spec_serialize_signature(spec_view_sync_cert_internal(c).signatures) + seq![
        spec_view_sync_phase_byte(c),
    ] + spec_u64_to_be_bytes(spec_view_sync_cert_internal(c).relay) + spec_u64_to_be_bytes(
        spec_view_sync_cert_internal(c).round,
    )
}

impl ViewSyncCertificate {
    /// The phase contents of this certificate.
    pub fn internal(&self) -> (r: &ViewSyncCertificateInternal)
        ensures
            r@ == spec_view_sync_cert_internal(self@),
    {
        match self {
            ViewSyncCertificate::PreCommit(c) => c,
            ViewSyncCertificate::Commit(c) => c,
            ViewSyncCertificate::Finalize(c) => c,
        }
    }

    /// The byte naming this certificate's phase on the wire.
    pub fn phase_byte(&self) -> (r: u8)
        ensures
            r == spec_view_sync_phase_byte(self@),
    {
        match self {
            ViewSyncCertificate::PreCommit(_) => 0,
            ViewSyncCertificate::Commit(_) => 1,
            ViewSyncCertificate::Finalize(_) => 2,
        }
    }

    /// Serialize the certificate into its canonical bytes.
    pub fn as_bytes(&self) -> (r: Vec<u8>)
        ensures
            r@ == spec_view_sync_cert_bytes(self@),
    {
        let mut bytes: Vec<u8> = Vec::new();
        bytes.push(self.phase_byte());
        let internal = self.internal();
        push_u64_be(&mut bytes, internal.relay);
        push_u64_be(&mut bytes, internal.round);
        let signature_bytes = serialize_signature(&internal.signatures);
        push_bytes(&mut bytes, &signature_bytes);
        assert(bytes@ =~= spec_view_sync_cert_bytes(self@));
        bytes
    }

    /// Build a view-sync certificate for the phase named by the assembled
    /// signature.  The relay must be present and the signature must be one
    /// of the view-sync kinds.
    pub fn from_signatures_and_commitment(
        view_number: u64,
        signatures: AssembledSignature,
        _commit: Commitment,
        relay: Option<u64>,
    ) -> (r: ViewSyncCertificate)
        requires
            relay.is_some(),
            signatures@ matches AssembledSignatureView::ViewSyncPreCommit(_) || signatures@
                matches AssembledSignatureView::ViewSyncCommit(_) || signatures@ matches
                AssembledSignatureView::ViewSyncFinalize(_),
        ensures
            spec_view_sync_cert_internal(r@) == (ViewSyncCertificateInternalView {
                relay: relay.unwrap(),
                round: view_number,
                signatures: signatures@,
            }),
            r@ matches ViewSyncCertificateView::PreCommit(_) <==> signatures@ matches
                AssembledSignatureView::ViewSyncPreCommit(_),
            r@ matches ViewSyncCertificateView::Commit(_) <==> signatures@ matches
                AssembledSignatureView::ViewSyncCommit(_),
            r@ matches ViewSyncCertificateView::Finalize(_) <==> signatures@ matches
                AssembledSignatureView::ViewSyncFinalize(_),
    {
        let relay_index = match relay {
            Some(r) => r,
            None => 0,
        };
        let certificate_internal = ViewSyncCertificateInternal {
            round: view_number,
            relay: relay_index,
            signatures: signatures.clone(),
        };
        match signatures {
            AssembledSignature::ViewSyncPreCommit(_) => ViewSyncCertificate::PreCommit(
                certificate_internal,
            ),
            AssembledSignature::ViewSyncCommit(_) => ViewSyncCertificate::Commit(
                certificate_internal,
            ),
            AssembledSignature::ViewSyncFinalize(_) => ViewSyncCertificate::Finalize(
                certificate_internal,
            ),
            _ => ViewSyncCertificate::PreCommit(certificate_internal),
        }
    }

    /// The round this certificate synchronises on.
    pub fn view_number(&self) -> (r: u64)
        ensures
            r == spec_view_sync_cert_internal(self@).round,
    {
        self.internal().round
    }

    /// The assembled signatures.
    pub fn signatures(&self) -> (r: AssembledSignature)
        ensures
            r@ == spec_view_sync_cert_internal(self@).signatures,
    {
        self.internal().signatures.clone()
    }

    /// The tagged commitment of this certificate.
    pub fn commit(&self) -> (r: Commitment)
        ensures
            r@ == spec_view_sync_cert_commit(self@),
    {
        let mut bytes = tag_view_sync_cert_commitment();
        let label = tag_justify_qc_signatures();
        push_bytes(&mut bytes, &label);
        let internal = self.internal();
        let signature_bytes = serialize_signature(&internal.signatures);
        push_bytes(&mut bytes, &signature_bytes);
        bytes.push(self.phase_byte());
        push_u64_be(&mut bytes, internal.relay);
        push_u64_be(&mut bytes, internal.round);
        assert(bytes@ =~= spec_view_sync_cert_commit(self@));
        Commitment { bytes }
    }

    /// The tag under which view-sync certificates are displayed.
    pub fn tag() -> (r: String)
        ensures
            r@ == "QC"@,
    {
        "QC".to_owned()
    }
}

/// Data from a vote needed to accumulate into a certificate.
pub struct VoteMetaData {
    /// Voter's public key.
    pub encoded_key: EncodedPublicKey,
    /// Vote's signature.
    pub encoded_signature: EncodedSignature,
    /// Commitment to what's voted on.
    pub commitment: Commitment,
    /// Data of the vote: yes, no, timeout, DA or view sync.
    pub data: VoteData,
    /// The vote's token.
    pub vote_token: StaticVoteToken,
    /// View number for the vote.
    pub view_number: u64,
    /// The relay index, for view sync only.
    pub relay: Option<u64>,
}

} // verus!
