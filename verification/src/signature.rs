//! Model of the signature collaborator: key pairs, encoded keys and
//! signatures, stake-table entries, and stake-weighted aggregate checking.
//!
//! The protocol does not mandate a particular scheme; it only needs
//! signatures over a fixed commitment that can be combined and checked
//! against a weighted stake table.  The model here is the idealised scheme:
//! a signature is the signer's encoded key followed by the signed message,
//! and checking recomputes exactly those bytes.  Every guarantee the kernel
//! proves about certificates is relative to this scheme.

use vstd::prelude::*;

use crate::wire::{
    bytes_eq, copy_bytes, push_bytes, push_u64_be, read_u64_be, spec_u64_from_be_bytes,
    spec_u64_to_be_bytes,
};

verus! {

/// A private signing key, identified by the key-pair number.
pub struct PrivateKey {
    pub id: u64,
}

/// A public verification key, identified by the key-pair number.
pub struct PublicKey {
    pub id: u64,
}

/// A public key in transport form: the eight big-endian bytes of its number.
pub struct EncodedPublicKey {
    pub bytes: Vec<u8>,
}

/// A signature in transport form.
pub struct EncodedSignature {
    pub bytes: Vec<u8>,
}

/// One row of the stake table: a key and the weight of its votes.
#[derive(Clone, Copy)]
pub struct StakeTableEntry {
    pub key_id: u64,
    pub stake: u64,
}

impl View for EncodedPublicKey {
    type V = Seq<u8>;

    open spec fn view(&self) -> Seq<u8> {
        self.bytes@
    }
}

impl View for EncodedSignature {
    type V = Seq<u8>;

    open spec fn view(&self) -> Seq<u8> {
        self.bytes@
    }
}

impl Clone for EncodedPublicKey {
    fn clone(&self) -> (r: Self)
        ensures
            r@ == self@,
    {
        EncodedPublicKey { bytes: copy_bytes(&self.bytes) }
    }
}

impl Clone for EncodedSignature {
    fn clone(&self) -> (r: Self)
        ensures
            r@ == self@,
    {
        EncodedSignature { bytes: copy_bytes(&self.bytes) }
    }
}

impl Clone for PublicKey {
    fn clone(&self) -> (r: Self)
        ensures
            r.id == self.id,
    {
        PublicKey { id: self.id }
    }
}

/// The transport bytes of the public key with number `id`.
pub open spec fn spec_encoded_key(id: u64) -> Seq<u8> {
    spec_u64_to_be_bytes(id)
}

/// The bytes of the model signature of `message` by key pair `id`.
pub open spec fn spec_signature_bytes(id: u64, message: Seq<u8>) -> Seq<u8> {
    spec_u64_to_be_bytes(id) + message
}

/// Whether `signature` is the valid signature of `message` under key `id`.
pub open spec fn spec_check(id: u64, message: Seq<u8>, signature: Seq<u8>) -> bool {
    signature == spec_signature_bytes(id, message)
}

/// A signature checks against exactly one message per key: the scheme
/// binds the signed bytes.
pub proof fn lemma_check_binds_message(id: u64, m1: Seq<u8>, m2: Seq<u8>, signature: Seq<u8>)
    requires
        spec_check(id, m1, signature),
        spec_check(id, m2, signature),
    ensures
        m1 == m2,
{
    let s1 = spec_signature_bytes(id, m1);
    let s2 = spec_signature_bytes(id, m2);
    assert(s1 == s2);
    assert(m1.len() == m2.len());
    assert forall|i: int| 0 <= i < m1.len() implies m1[i] == m2[i] by {
        assert(s1[8 + i] == m1[i]);
        assert(s2[8 + i] == m2[i]);
    }
    assert(m1 =~= m2);
}

impl PublicKey {
    /// The transport form of this key.
    pub fn to_bytes(&self) -> (r: EncodedPublicKey)
        ensures
            r@ == spec_encoded_key(self.id),
    {
        let mut bytes: Vec<u8> = Vec::new();
        push_u64_be(&mut bytes, self.id);
        EncodedPublicKey { bytes }
    }

    /// The key read back from transport form; `None` unless the bytes have
    /// the encoded length.
    pub fn from_bytes(encoded: &EncodedPublicKey) -> (r: Option<PublicKey>)
        ensures
            match r {
                Some(k) => encoded@.len() == 8 && k.id == spec_u64_from_be_bytes(encoded@),
                None => encoded@.len() != 8,
            },
    {
        if encoded.bytes.len() == 8 {
            let id = read_u64_be(&encoded.bytes, 0);
            assert(encoded@.subrange(0, 8) =~= encoded@);
            Some(PublicKey { id })
        } else {
            None
        }
    }

    /// Whether `signature` is this key's signature of `message`.
    pub fn validate(&self, signature: &EncodedSignature, message: &Vec<u8>) -> (r: bool)
        ensures
            r == spec_check(self.id, message@, signature@),
    {
        let mut expected: Vec<u8> = Vec::new();
        push_u64_be(&mut expected, self.id);
        push_bytes(&mut expected, message);
        bytes_eq(&signature.bytes, &expected)
    }
}

/// Sign `message` with `private_key` under the model scheme.
pub fn sign(private_key: &PrivateKey, message: &Vec<u8>) -> (r: EncodedSignature)
    ensures
        r@ == spec_signature_bytes(private_key.id, message@),
{
    let mut bytes: Vec<u8> = Vec::new();
    push_u64_be(&mut bytes, private_key.id);
    push_bytes(&mut bytes, message);
    EncodedSignature { bytes }
}

/// One signer's contribution to an aggregate signature.
pub struct SignaturePair {
    pub key: EncodedPublicKey,
    pub signature: EncodedSignature,
}

/// The mathematical value of a [`SignaturePair`].
pub struct SignaturePairView {
    pub key: Seq<u8>,
    pub signature: Seq<u8>,
}

impl View for SignaturePair {
    type V = SignaturePairView;

    open spec fn view(&self) -> SignaturePairView {
        SignaturePairView { key: self.key@, signature: self.signature@ }
    }
}

impl Clone for SignaturePair {
    fn clone(&self) -> (r: Self)
        ensures
            r@ == self@,
    {
        SignaturePair { key: self.key.clone(), signature: self.signature.clone() }
    }
}

/// The combined signatures of a certificate, one entry per signer.
pub struct AggregateSignature {
    pub entries: Vec<SignaturePair>,
}

impl View for AggregateSignature {
    type V = Seq<SignaturePairView>;

    open spec fn view(&self) -> Seq<SignaturePairView> {
        self.entries@.map_values(|p: SignaturePair| p@)
    }
}

impl Clone for AggregateSignature {
    fn clone(&self) -> (r: Self)
        ensures
            r@ == self@,
    {
        let mut entries: Vec<SignaturePair> = Vec::new();
        let mut i: usize = 0;
        while i < self.entries.len()
            invariant
                i <= self.entries@.len(),
                entries@.len() == i,
                forall|j: int| 0 <= j < i ==> (#[trigger] entries@[j])@ == self.entries@[j]@,
            decreases self.entries@.len() - i,
        {
            entries.push(self.entries[i].clone());
            i = i + 1;
        }
        assert forall|j: int| 0 <= j < entries@.len() implies entries@.map_values(
            |p: SignaturePair| p@,
        )[j] == self@[j] by {
            assert(entries@.map_values(|p: SignaturePair| p@)[j] == entries@[j]@);
            assert(self@[j] == self.entries@[j]@);
        }
        assert(entries@.map_values(|p: SignaturePair| p@) =~= self@);
        AggregateSignature { entries }
    }
}

/// Whether some pair in `pairs` carries `key` as its encoded key.
pub open spec fn spec_has_signer_bytes(pairs: Seq<SignaturePairView>, key: Seq<u8>) -> bool {
    exists|j: int| 0 <= j < pairs.len() && (#[trigger] pairs[j]).key == key
}

/// Whether some pair in `pairs` carries the encoded key of `id`.
pub open spec fn spec_has_signer(pairs: Seq<SignaturePairView>, id: u64) -> bool {
    spec_has_signer_bytes(pairs, spec_encoded_key(id))
}

/// Whether every pair is a valid signature of `message` by the key the
/// pair itself names.
pub open spec fn spec_pairs_valid(pairs: Seq<SignaturePairView>, message: Seq<u8>) -> bool {
    forall|j: int|
        0 <= j < pairs.len() ==> {
            &&& (#[trigger] pairs[j]).key.len() == 8
            &&& spec_check(spec_u64_from_be_bytes(pairs[j].key), message, pairs[j].signature)
        }
}

/// The stake of the signers of `pairs`: the sum, over the stake table, of
/// each row whose key some pair carries.  Summing over the table counts
/// every signer once, whatever the pairs repeat.
pub open spec fn spec_signed_stake(table: Seq<StakeTableEntry>, pairs: Seq<SignaturePairView>)
    -> int
    decreases table.len(),
{
    if table.len() == 0 {
        0
    } else {
        (if spec_has_signer(pairs, table[0].key_id) {
            table[0].stake as int
        } else {
            0
        }) + spec_signed_stake(table.drop_first(), pairs)
    }
}

/// The total stake of the table.
pub open spec fn spec_total_stake(table: Seq<StakeTableEntry>) -> int
    decreases table.len(),
{
    if table.len() == 0 {
        0
    } else {
        table[0].stake as int + spec_total_stake(table.drop_first())
    }
}

/// A well-formed stake table: distinct keys, positive weights, and a total
/// that fits the accumulating machine word.
pub open spec fn spec_table_wf(table: Seq<StakeTableEntry>) -> bool {
    &&& forall|i: int, j: int|
        0 <= i < j < table.len() ==> (#[trigger] table[i]).key_id != (#[trigger] table[j]).key_id
    &&& forall|i: int| 0 <= i < table.len() ==> (#[trigger] table[i]).stake >= 1
    &&& spec_total_stake(table) <= u64::MAX
}

/// The signers' stake never exceeds the table's total.
pub proof fn lemma_signed_stake_le_total(table: Seq<StakeTableEntry>, pairs: Seq<SignaturePairView>)
    ensures
        0 <= spec_signed_stake(table, pairs) <= spec_total_stake(table),
    decreases table.len(),
{
    if table.len() > 0 {
        lemma_signed_stake_le_total(table.drop_first(), pairs);
    }
}

/// Whether `aggregate` certifies `message` against `table` at `threshold`:
/// every entry is a valid signature of `message`, and the signers' stake
/// reaches the threshold.
pub open spec fn spec_check_aggregate(
    table: Seq<StakeTableEntry>,
    threshold: u64,
    message: Seq<u8>,
    pairs: Seq<SignaturePairView>,
) -> bool {
    &&& spec_pairs_valid(pairs, message)
    &&& spec_signed_stake(table, pairs) >= threshold
}

/// Whether some pair of `pairs` carries `key` as its encoded key.
fn has_signer(pairs: &Vec<SignaturePair>, key: &Vec<u8>) -> (r: bool)
    ensures
        r == spec_has_signer_bytes(pairs@.map_values(|p: SignaturePair| p@), key@),
{
    let ghost views = pairs@.map_values(|p: SignaturePair| p@);
    let mut i: usize = 0;
    while i < pairs.len()
        invariant
            i <= pairs@.len(),
            views == pairs@.map_values(|p: SignaturePair| p@),
            forall|j: int| 0 <= j < i ==> (#[trigger] views[j]).key != key@,
        decreases pairs@.len() - i,
    {
        assert(views[i as int] == pairs@[i as int]@);
        if bytes_eq(&pairs[i].key.bytes, key) {
            return true;
        }
        i = i + 1;
    }
    false
}

/// Check an aggregate signature against the stake table: each entry must be
/// a valid signature of `message`, and the stake of the signing keys must
/// reach `threshold`.
pub fn check_aggregate(
    table: &Vec<StakeTableEntry>,
    threshold: u64,
    message: &Vec<u8>,
    aggregate: &AggregateSignature,
) -> (r: bool)
    requires
        spec_table_wf(table@),
    ensures
        r == spec_check_aggregate(table@, threshold, message@, aggregate@),
{
    let ghost pairs = aggregate@;
    // Every entry must sign the message under the key it names.
    let mut i: usize = 0;
    while i < aggregate.entries.len()
        invariant
            i <= pairs.len(),
            pairs == aggregate@,
            forall|j: int|
                0 <= j < i ==> {
                    &&& (#[trigger] pairs[j]).key.len() == 8
                    &&& spec_check(spec_u64_from_be_bytes(pairs[j].key), message@,
                    pairs[j].signature)
                },
        decreases pairs.len() - i,
    {
        let pair = &aggregate.entries[i];
        assert(pairs[i as int] == aggregate.entries@[i as int]@);
        match PublicKey::from_bytes(&pair.key) {
            Some(key) => {
                if !key.validate(&pair.signature, message) {
                    assert(!spec_pairs_valid(pairs, message@));
                    return false;
                }
            },
            None => {
                assert(!spec_pairs_valid(pairs, message@));
                return false;
            },
        }
        i = i + 1;
    }
    assert(spec_pairs_valid(pairs, message@));
    // Sum, over the table, the stake of every row whose key signed.
    let mut stake: u64 = 0;
    let mut k: usize = 0;
    proof {
        lemma_signed_stake_le_total(table@, pairs);
        assert(table@.subrange(0, 0) =~= Seq::<StakeTableEntry>::empty());
        assert(table@.subrange(0, table@.len() as int) =~= table@);
    }
    while k < table.len()
        invariant
            k <= table@.len(),
            pairs == aggregate@,
            spec_table_wf(table@),
            stake == spec_signed_stake(table@.subrange(0, k as int), pairs),
            spec_signed_stake(table@.subrange(0, k as int), pairs) + spec_signed_stake(
                table@.subrange(k as int, table@.len() as int),
                pairs,
            ) == spec_signed_stake(table@, pairs),
            spec_signed_stake(table@, pairs) <= u64::MAX,
        decreases table@.len() - k,
    {
        let ghost pre = table@.subrange(0, k as int);
        let ghost rest = table@.subrange(k as int, table@.len() as int);
        let entry = table[k];
        let key_bytes = {
            let mut b: Vec<u8> = Vec::new();
            push_u64_be(&mut b, entry.key_id);
            b
        };
        proof {
            assert(rest[0] == table@[k as int]);
            assert(rest.drop_first() =~= table@.subrange(k + 1, table@.len() as int));
            lemma_signed_stake_snoc(pre, table@[k as int], pairs);
            assert(pre.push(table@[k as int]) =~= table@.subrange(0, k + 1));
            lemma_signed_stake_le_total(table@.subrange(k + 1, table@.len() as int), pairs);
            lemma_signed_stake_le_total(table@.subrange(0, k + 1), pairs);
        }
        assert(key_bytes@ =~= spec_encoded_key(entry.key_id));
        if has_signer(&aggregate.entries, &key_bytes) {
            assert(spec_has_signer(pairs, entry.key_id));
            stake = stake + entry.stake;
        } else {
            assert(!spec_has_signer(pairs, entry.key_id));
        }
        k = k + 1;
    }
    assert(table@.subrange(0, table@.len() as int) =~= table@);
    stake >= threshold
}

/// Appending one row to a table adds that row's contribution to the sum.
pub proof fn lemma_signed_stake_snoc(
    table: Seq<StakeTableEntry>,
    entry: StakeTableEntry,
    pairs: Seq<SignaturePairView>,
)
    ensures
        spec_signed_stake(table.push(entry), pairs) == spec_signed_stake(table, pairs) + (
        if spec_has_signer(pairs, entry.key_id) {
            entry.stake as int
        } else {
            0
        }),
    decreases table.len(),
{
    if table.len() == 0 {
        assert(table.push(entry).drop_first() =~= table);
    } else {
        assert(table.push(entry).drop_first() =~= table.drop_first().push(entry));
        lemma_signed_stake_snoc(table.drop_first(), entry, pairs);
    }
}

/// The stake a single key holds in the table: the summed weight of its rows.
pub open spec fn spec_stake_of(table: Seq<StakeTableEntry>, id: u64) -> int
    decreases table.len(),
{
    if table.len() == 0 {
        0
    } else {
        (if table[0].key_id == id {
            table[0].stake as int
        } else {
            0
        }) + spec_stake_of(table.drop_first(), id)
    }
}

/// Look up the stake of `id` in the table.
pub fn stake_of(table: &Vec<StakeTableEntry>, id: u64) -> (r: u64)
    requires
        spec_table_wf(table@),
    ensures
        r == spec_stake_of(table@, id),
{
    proof {
        lemma_stake_of_le_total(table@, id);
        assert(table@.subrange(0, 0) =~= Seq::<StakeTableEntry>::empty());
        assert(table@.subrange(0, table@.len() as int) =~= table@);
    }
    let mut total: u64 = 0;
    let mut k: usize = 0;
    while k < table.len()
        invariant
            k <= table@.len(),
            spec_table_wf(table@),
            total == spec_stake_of(table@.subrange(0, k as int), id),
            spec_stake_of(table@.subrange(0, k as int), id) + spec_stake_of(
                table@.subrange(k as int, table@.len() as int),
                id,
            ) == spec_stake_of(table@, id),
            spec_stake_of(table@, id) <= u64::MAX,
        decreases table@.len() - k,
    {
        let ghost pre = table@.subrange(0, k as int);
        let ghost rest = table@.subrange(k as int, table@.len() as int);
        let entry = table[k];
        proof {
            assert(rest[0] == table@[k as int]);
            assert(rest.drop_first() =~= table@.subrange(k + 1, table@.len() as int));
            lemma_stake_of_snoc(pre, table@[k as int], id);
            assert(pre.push(table@[k as int]) =~= table@.subrange(0, k + 1));
            lemma_stake_of_le_total(table@.subrange(k + 1, table@.len() as int), id);
            lemma_stake_of_le_total(table@.subrange(0, k + 1), id);
        }
        if entry.key_id == id {
            total = total + entry.stake;
        }
        k = k + 1;
    }
    assert(table@.subrange(0, table@.len() as int) =~= table@);
    total
}

/// The total stake is never negative.
pub proof fn lemma_total_stake_nonneg(table: Seq<StakeTableEntry>)
    ensures
        0 <= spec_total_stake(table),
    decreases table.len(),
{
    if table.len() > 0 {
        lemma_total_stake_nonneg(table.drop_first());
    }
}

/// Appending one row adds that row's stake to the total.
pub proof fn lemma_total_stake_snoc(table: Seq<StakeTableEntry>, entry: StakeTableEntry)
    ensures
        spec_total_stake(table.push(entry)) == spec_total_stake(table) + entry.stake,
    decreases table.len(),
{
    if table.len() == 0 {
        assert(table.push(entry).drop_first() =~= table);
    } else {
        assert(table.push(entry).drop_first() =~= table.drop_first().push(entry));
        lemma_total_stake_snoc(table.drop_first(), entry);
    }
}

/// Decide well-formedness of a stake table at run time: distinct keys,
/// positive weights, and a total that fits the accumulating word.
pub fn check_table_wf(table: &Vec<StakeTableEntry>) -> (r: bool)
    ensures
        r == spec_table_wf(table@),
{
    // Distinct keys and positive weights.
    let mut i: usize = 0;
    while i < table.len()
        invariant
            i <= table@.len(),
            forall|a: int, b: int|
                0 <= a < b < i ==> (#[trigger] table@[a]).key_id != (#[trigger] table@[b]).key_id,
            forall|a: int| 0 <= a < i ==> (#[trigger] table@[a]).stake >= 1,
        decreases table@.len() - i,
    {
        if table[i].stake < 1 {
            return false;
        }
        let mut j: usize = 0;
        while j < i
            invariant
                j <= i < table@.len(),
                forall|a: int| 0 <= a < j ==> (#[trigger] table@[a]).key_id
                    != table@[i as int].key_id,
            decreases i - j,
        {
            if table[j].key_id == table[i].key_id {
                return false;
            }
            j = j + 1;
        }
        i = i + 1;
    }
    // The total stake must fit the accumulating word.
    proof {
        assert(table@.subrange(0, 0) =~= Seq::<StakeTableEntry>::empty());
        assert(table@.subrange(0, table@.len() as int) =~= table@);
    }
    let mut total: u64 = 0;
    let mut k: usize = 0;
    while k < table.len()
        invariant
            k <= table@.len(),
            total == spec_total_stake(table@.subrange(0, k as int)),
            spec_total_stake(table@.subrange(0, k as int)) + spec_total_stake(
                table@.subrange(k as int, table@.len() as int),
            ) == spec_total_stake(table@),
            forall|a: int, b: int|
                0 <= a < b < table@.len() ==> (#[trigger] table@[a]).key_id != (
                #[trigger] table@[b]).key_id,
            forall|a: int| 0 <= a < table@.len() ==> (#[trigger] table@[a]).stake >= 1,
        decreases table@.len() - k,
    {
        let ghost pre = table@.subrange(0, k as int);
        let ghost rest = table@.subrange(k as int, table@.len() as int);
        let entry = table[k];
        proof {
            assert(rest[0] == table@[k as int]);
            assert(rest.drop_first() =~= table@.subrange(k + 1, table@.len() as int));
            lemma_total_stake_snoc(pre, table@[k as int]);
            assert(pre.push(table@[k as int]) =~= table@.subrange(0, k + 1));
            lemma_total_stake_nonneg(table@.subrange(k + 1, table@.len() as int));
        }
        if entry.stake > u64::MAX - total {
            proof {
                assert(spec_total_stake(table@) > u64::MAX);
            }
            return false;
        }
        total = total + entry.stake;
        k = k + 1;
    }
    true
}

/// A key's stake never exceeds the table's total.
pub proof fn lemma_stake_of_le_total(table: Seq<StakeTableEntry>, id: u64)
    ensures
        0 <= spec_stake_of(table, id) <= spec_total_stake(table),
    decreases table.len(),
{
    if table.len() > 0 {
        lemma_stake_of_le_total(table.drop_first(), id);
    }
}

/// Appending one row to a table adds that row's contribution to a key's stake.
pub proof fn lemma_stake_of_snoc(table: Seq<StakeTableEntry>, entry: StakeTableEntry, id: u64)
    ensures
        spec_stake_of(table.push(entry), id) == spec_stake_of(table, id) + (
        if entry.key_id == id {
            entry.stake as int
        } else {
            0
        }),
    decreases table.len(),
{
    if table.len() == 0 {
        assert(table.push(entry).drop_first() =~= table);
    } else {
        assert(table.push(entry).drop_first() =~= table.drop_first().push(entry));
        lemma_stake_of_snoc(table.drop_first(), entry, id);
    }
}

} // verus!
