//! Commitments and the domain-separation tags.
//!
//! A commitment is the canonical byte string of what was voted on.  The
//! protocol derives every signed byte string by prefixing a distinct UTF-8
//! tag, so that a signature produced for one phase can never check in
//! another.  The model keeps the tagged preimage itself as the commitment:
//! the derivation is injective by construction, which is exactly the
//! property the protocol asks of its (collision-resistant) digest.

use vstd::prelude::*;

use crate::wire::{bytes_eq, copy_bytes};

verus! {

/// A fixed byte string naming a block, a leaf, a view, or vote data.
#[derive(Debug)]
pub struct Commitment {
    pub bytes: Vec<u8>,
}

impl View for Commitment {
    type V = Seq<u8>;

    open spec fn view(&self) -> Seq<u8> {
        self.bytes@
    }
}

impl Clone for Commitment {
    fn clone(&self) -> (r: Self)
        ensures
            r@ == self@,
    {
        Commitment { bytes: copy_bytes(&self.bytes) }
    }
}

impl Commitment {
    /// Whether two commitments name the same bytes.
    pub fn same(&self, other: &Commitment) -> (r: bool)
        ensures
            r == (self@ =~= other@),
    {
        bytes_eq(&self.bytes, &other.bytes)
    }
}

/// The sentinel commitment carried by the genesis certificate; it names
/// nothing.
pub open spec fn spec_fake_commitment() -> Seq<u8> {
    Seq::<u8>::empty()
}

/// Build the sentinel commitment of the genesis certificate.
pub fn fake_commitment() -> (r: Commitment)
    ensures
        r@ == spec_fake_commitment(),
{
    Commitment { bytes: Vec::new() }
}

/// The bytes of the model tag `VIEW`.
pub open spec fn spec_tag_view_number() -> Seq<u8> {
    seq![86u8, 73, 69, 87]
}

/// The commitment of a bare view number: the tag and the number.
pub open spec fn spec_view_number_commit(v: u64) -> Seq<u8> {
    spec_tag_view_number() + crate::wire::spec_u64_to_be_bytes(v)
}

/// Build the commitment of a bare view number.
pub fn view_number_commit(view_number: u64) -> (r: Commitment)
    ensures
        r@ == spec_view_number_commit(view_number),
{
    let mut bytes: Vec<u8> = vec![86u8, 73, 69, 87];
    assert(bytes@ =~= spec_tag_view_number());
    crate::wire::push_u64_be(&mut bytes, view_number);
    assert(bytes@ =~= spec_view_number_commit(view_number));
    Commitment { bytes }
}

/// The bytes of the UTF-8 tag `DA Block Commit`.
pub open spec fn spec_tag_da_block() -> Seq<u8> {
    seq![68u8, 65, 32, 66, 108, 111, 99, 107, 32, 67, 111, 109, 109, 105, 116]
}

/// The bytes of the UTF-8 tag `Yes Vote Commit`.
pub open spec fn spec_tag_yes_vote() -> Seq<u8> {
    seq![89u8, 101, 115, 32, 86, 111, 116, 101, 32, 67, 111, 109, 109, 105, 116]
}

/// The bytes of the UTF-8 tag `No Vote Commit`.
pub open spec fn spec_tag_no_vote() -> Seq<u8> {
    seq![78u8, 111, 32, 86, 111, 116, 101, 32, 67, 111, 109, 109, 105, 116]
}

/// The bytes of the UTF-8 tag `Timeout View Number Commit`.
pub open spec fn spec_tag_timeout_vote() -> Seq<u8> {
    seq![
        84u8,
        105,
        109,
        101,
        111,
        117,
        116,
        32,
        86,
        105,
        101,
        119,
        32,
        78,
        117,
        109,
        98,
        101,
        114,
        32,
        67,
        111,
        109,
        109,
        105,
        116,
    ]
}

/// The bytes of the UTF-8 tag `ViewSyncPreCommit`.
pub open spec fn spec_tag_view_sync_precommit() -> Seq<u8> {
    seq![86u8, 105, 101, 119, 83, 121, 110, 99, 80, 114, 101, 67, 111, 109, 109, 105, 116]
}

/// The bytes of the UTF-8 tag `ViewSyncCommit`.
pub open spec fn spec_tag_view_sync_commit() -> Seq<u8> {
    seq![86u8, 105, 101, 119, 83, 121, 110, 99, 67, 111, 109, 109, 105, 116]
}

/// The bytes of the UTF-8 tag `ViewSyncFinalize`.
pub open spec fn spec_tag_view_sync_finalize() -> Seq<u8> {
    seq![86u8, 105, 101, 119, 83, 121, 110, 99, 70, 105, 110, 97, 108, 105, 122, 101]
}

/// The bytes of the UTF-8 tag `Quorum Certificate Commitment`.
pub open spec fn spec_tag_qc_commitment() -> Seq<u8> {
    seq![
        81u8,
        117,
        111,
        114,
        117,
        109,
        32,
        67,
        101,
        114,
        116,
        105,
        102,
        105,
        99,
        97,
        116,
        101,
        32,
        67,
        111,
        109,
        109,
        105,
        116,
        109,
        101,
        110,
        116,
    ]
}

/// The bytes of the UTF-8 tag `View Sync Certificate Commitment`.
pub open spec fn spec_tag_view_sync_cert_commitment() -> Seq<u8> {
    seq![
        86u8,
        105,
        101,
        119,
        32,
        83,
        121,
        110,
        99,
        32,
        67,
        101,
        114,
        116,
        105,
        102,
        105,
        99,
        97,
        116,
        101,
        32,
        67,
        111,
        109,
        109,
        105,
        116,
        109,
        101,
        110,
        116,
    ]
}

/// The bytes of the UTF-8 field label `justify_qc signatures`.
pub open spec fn spec_tag_justify_qc_signatures() -> Seq<u8> {
    seq![
        106u8,
        117,
        115,
        116,
        105,
        102,
        121,
        95,
        113,
        99,
        32,
        115,
        105,
        103,
        110,
        97,
        116,
        117,
        114,
        101,
        115,
    ]
}

/// Build the tag `DA Block Commit`.
pub fn tag_da_block() -> (r: Vec<u8>)
    ensures
        r@ == spec_tag_da_block(),
{
    let r: Vec<u8> = vec![68u8, 65, 32, 66, 108, 111, 99, 107, 32, 67, 111, 109, 109, 105, 116];
    assert(r@ =~= spec_tag_da_block());
    r
}

/// Build the tag `Yes Vote Commit`.
pub fn tag_yes_vote() -> (r: Vec<u8>)
    ensures
        r@ == spec_tag_yes_vote(),
{
    let r: Vec<u8> = vec![89u8, 101, 115, 32, 86, 111, 116, 101, 32, 67, 111, 109, 109, 105, 116];
    assert(r@ =~= spec_tag_yes_vote());
    r
}

/// Build the tag `No Vote Commit`.
pub fn tag_no_vote() -> (r: Vec<u8>)
    ensures
        r@ == spec_tag_no_vote(),
{
    let r: Vec<u8> = vec![78u8, 111, 32, 86, 111, 116, 101, 32, 67, 111, 109, 109, 105, 116];
    assert(r@ =~= spec_tag_no_vote());
    r
}

/// Build the tag `Timeout View Number Commit`.
pub fn tag_timeout_vote() -> (r: Vec<u8>)
    ensures
        r@ == spec_tag_timeout_vote(),
{
    let r: Vec<u8> = vec![84u8, 105, 109, 101, 111, 117, 116, 32, 86, 105, 101, 119, 32, 78, 117, 109, 98, 101, 114, 32, 67, 111, 109, 109, 105, 116];
    assert(r@ =~= spec_tag_timeout_vote());
    r
}

/// Build the tag `ViewSyncPreCommit`.
pub fn tag_view_sync_precommit() -> (r: Vec<u8>)
    ensures
        r@ == spec_tag_view_sync_precommit(),
{
    let r: Vec<u8> = vec![86u8, 105, 101, 119, 83, 121, 110, 99, 80, 114, 101, 67, 111, 109, 109, 105, 116];
    assert(r@ =~= spec_tag_view_sync_precommit());
    r
}

/// Build the tag `ViewSyncCommit`.
pub fn tag_view_sync_commit() -> (r: Vec<u8>)
    ensures
        r@ == spec_tag_view_sync_commit(),
{
    let r: Vec<u8> = vec![86u8, 105, 101, 119, 83, 121, 110, 99, 67, 111, 109, 109, 105, 116];
    assert(r@ =~= spec_tag_view_sync_commit());
    r
}

/// Build the tag `ViewSyncFinalize`.
pub fn tag_view_sync_finalize() -> (r: Vec<u8>)
    ensures
        r@ == spec_tag_view_sync_finalize(),
{
    let r: Vec<u8> = vec![86u8, 105, 101, 119, 83, 121, 110, 99, 70, 105, 110, 97, 108, 105, 122, 101];
    assert(r@ =~= spec_tag_view_sync_finalize());
    r
}

/// Build the tag `Quorum Certificate Commitment`.
pub fn tag_qc_commitment() -> (r: Vec<u8>)
    ensures
        r@ == spec_tag_qc_commitment(),
{
    let r: Vec<u8> = vec![81u8, 117, 111, 114, 117, 109, 32, 67, 101, 114, 116, 105, 102, 105, 99, 97, 116, 101, 32, 67, 111, 109, 109, 105, 116, 109, 101, 110, 116];
    assert(r@ =~= spec_tag_qc_commitment());
    r
}

/// Build the tag `View Sync Certificate Commitment`.
pub fn tag_view_sync_cert_commitment() -> (r: Vec<u8>)
    ensures
        r@ == spec_tag_view_sync_cert_commitment(),
{
    let r: Vec<u8> = vec![86u8, 105, 101, 119, 32, 83, 121, 110, 99, 32, 67, 101, 114, 116, 105, 102, 105, 99, 97, 116, 101, 32, 67, 111, 109, 109, 105, 116, 109, 101, 110, 116];
    assert(r@ =~= spec_tag_view_sync_cert_commitment());
    r
}

/// Build the field label `justify_qc signatures`.
pub fn tag_justify_qc_signatures() -> (r: Vec<u8>)
    ensures
        r@ == spec_tag_justify_qc_signatures(),
{
    let r: Vec<u8> = vec![106u8, 117, 115, 116, 105, 102, 121, 95, 113, 99, 32, 115, 105, 103, 110, 97, 116, 117, 114, 101, 115];
    assert(r@ =~= spec_tag_justify_qc_signatures());
    r
}

} // verus!
