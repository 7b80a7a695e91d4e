//! The part of a light client's store that the benchmark reports on, and its hash tree roots.

use vstd::arithmetic::div_mod::lemma_div_denominator;
use vstd::arithmetic::power::{lemma_pow0, lemma_pow_positive, pow};
use vstd::prelude::*;

use crate::text::lemma_pow_step;

verus! {

/// The root that `tree_hash::merkle_root` computes for some bytes and a minimum number of leaves.
pub uninterp spec fn merkle_root_of(bytes: Seq<u8>, minimum_leaf_count: nat) -> Seq<u8>;

/// Calls `tree_hash::merkle_root`, which splits the bytes into leaves of 32 bytes, adds zero leaves
/// up to a power of two that is no less than `minimum_leaf_count`, and hashes the leaves pairwise
/// with SHA-256 up to a root. Believed of it: the root depends on the bytes and on the minimum
/// number of leaves alone. It panics on trees of more than 2^48 leaves: the bytes of so many leaves
/// fit into no memory, and only small numbers are taken as the minimum.
#[verifier::external_body]
fn merkle_root(bytes: &[u8], minimum_leaf_count: usize) -> (root: [u8; 32])
    requires
        minimum_leaf_count <= 8,
    ensures
        root@ == merkle_root_of(bytes@, minimum_leaf_count as nat),
{
    tree_hash::merkle_root(bytes, minimum_leaf_count).0
}

/// Calls `alloy_primitives::B256::repeat_byte`: a root made of one byte throughout.
#[verifier::external_body]
pub(crate) fn repeat_byte(byte: u8) -> (root: [u8; 32])
    ensures
        root@ == Seq::new(32, |i: int| byte),
{
    alloy_primitives::B256::repeat_byte(byte).0
}

/// The low `n` bytes of a number, least significant byte first.
pub open spec fn le_bytes(x: nat, n: nat) -> Seq<u8>
    decreases n,
{
    if n == 0 {
        Seq::empty()
    } else {
        seq![(x % 256) as u8] + le_bytes(x / 256, (n - 1) as nat)
    }
}

/// Appends the leaf of a 64-bit number: its bytes, least significant first, padded with zeros.
fn push_u64_leaf(leaves: &mut Vec<u8>, x: u64)
    ensures
        final(leaves)@ == old(leaves)@ + le_bytes(x as nat, 32),
{
    let mut rest: u64 = x;
    let mut i: usize = 0;
    while i < 32
        invariant
            i <= 32,
            leaves@ + le_bytes(rest as nat, (32 - i) as nat) == old(leaves)@ + le_bytes(
                x as nat,
                32,
            ),
        decreases 32 - i,
    {
        let byte: u8 = (rest % 256) as u8;
        let ghost before = leaves@;
        leaves.push(byte);
        assert(leaves@ + le_bytes((rest / 256) as nat, (32 - i - 1) as nat) =~= before + le_bytes(
            rest as nat,
            (32 - i) as nat,
        ));
        rest = rest / 256;
        i += 1;
    }
    assert(leaves@ + le_bytes(rest as nat, 0) =~= leaves@);
}

/// Appends the bytes of a root.
fn push_root_leaf(leaves: &mut Vec<u8>, root: &[u8; 32])
    ensures
        final(leaves)@ == old(leaves)@ + root@,
{
    let mut i: usize = 0;
    while i < 32
        invariant
            i <= 32,
            leaves@ == old(leaves)@ + root@.take(i as int),
        decreases 32 - i,
    {
        leaves.push(root[i]);
        i += 1;
        assert(root@.take(i as int) =~= root@.take(i - 1).push(root@[i - 1]));
    }
    assert(root@.take(32) =~= root@);
}

/// A beacon block header.
#[derive(Clone, Copy, Debug, PartialEq, Eq)]
pub struct BeaconBlockHeader {
    pub slot: u64,
    pub proposer_index: u64,
    pub parent_root: [u8; 32],
    pub state_root: [u8; 32],
    pub body_root: [u8; 32],
}

impl BeaconBlockHeader {
    /// The leaves of a header's hash tree, one per field.
    pub open spec fn leaves(self) -> Seq<u8> {
        le_bytes(self.slot as nat, 32) + le_bytes(self.proposer_index as nat, 32)
            + self.parent_root@ + self.state_root@ + self.body_root@
    }

    /// The hash tree root of a header.
    pub open spec fn root(self) -> Seq<u8> {
        merkle_root_of(self.leaves(), 5)
    }

    /// Computes the hash tree root.
    pub fn tree_hash_root(&self) -> (root: [u8; 32])
        ensures
            root@ == self.root(),
    {
        let mut leaves: Vec<u8> = Vec::new();
        push_u64_leaf(&mut leaves, self.slot);
        push_u64_leaf(&mut leaves, self.proposer_index);
        push_root_leaf(&mut leaves, &self.parent_root);
        push_root_leaf(&mut leaves, &self.state_root);
        push_root_leaf(&mut leaves, &self.body_root);
        proof {
            lemma_le_bytes_len(self.slot as nat, 32);
            lemma_le_bytes_len(self.proposer_index as nat, 32);
        }
        assert(leaves@ =~= self.leaves());
        merkle_root(leaves.as_slice(), 5)
    }
}

/// The low `n` bytes of a number are `n` bytes.
proof fn lemma_le_bytes_len(x: nat, n: nat)
    ensures
        le_bytes(x, n).len() == n,
    decreases n,
{
    if n > 0 {
        lemma_le_bytes_len(x / 256, (n - 1) as nat);
    }
}

/// The hash tree root of a public key, which fills two leaves.
pub open spec fn pubkey_root(pubkey: Seq<u8>) -> Seq<u8> {
    merkle_root_of(pubkey, 2)
}

/// The roots of some public keys, one after the other.
pub open spec fn pubkey_leaves(pubkeys: Seq<[u8; 48]>) -> Seq<u8>
    decreases pubkeys.len(),
{
    if pubkeys.len() == 0 {
        Seq::empty()
    } else {
        pubkey_leaves(pubkeys.drop_last()) + pubkey_root(pubkeys.last()@)
    }
}

/// A sync committee: the public keys of its members and their aggregate.
#[derive(Clone, Debug, PartialEq, Eq)]
pub struct SyncCommittee {
    pub pubkeys: Vec<[u8; 48]>,
    pub aggregate_pubkey: [u8; 48],
}

/// What a sync committee holds.
#[verifier::ext_equal]
pub struct SyncCommitteeView {
    pub pubkeys: Seq<[u8; 48]>,
    pub aggregate_pubkey: [u8; 48],
}

impl SyncCommitteeView {
    /// The hash tree root of a committee: the root over the keys' roots, then that of the
    /// aggregate. There are as many leaves as keys, so that no minimum is needed for the first.
    pub open spec fn root(self) -> Seq<u8> {
        let keys = merkle_root_of(pubkey_leaves(self.pubkeys), 0);
        merkle_root_of(keys + pubkey_root(self.aggregate_pubkey@), 2)
    }
}

impl View for SyncCommittee {
    type V = SyncCommitteeView;

    open spec fn view(&self) -> SyncCommitteeView {
        SyncCommitteeView { pubkeys: self.pubkeys@, aggregate_pubkey: self.aggregate_pubkey }
    }
}

impl SyncCommittee {
    /// Computes the hash tree root.
    pub fn tree_hash_root(&self) -> (root: [u8; 32])
        ensures
            root@ == self@.root(),
            root@ == merkle_root_of(
                merkle_root_of(
                    Seq::new(
                        32 * self.pubkeys@.len(),
                        |j: int| merkle_root_of(self.pubkeys@[j / 32]@, 2)[j % 32],
                    ),
                    0,
                ) + merkle_root_of(self.aggregate_pubkey@, 2),
                2,
            ),
            forall|i: int|
                0 <= i < self.pubkeys@.len() ==> merkle_root_of(
                    (#[trigger] self.pubkeys@[i])@,
                    2,
                ).len() == 32,
    {
        let mut leaves: Vec<u8> = Vec::new();
        let mut i: usize = 0;
        while i < self.pubkeys.len()
            invariant
                i <= self.pubkeys@.len(),
                leaves@ == pubkey_leaves(self.pubkeys@.take(i as int)),
                forall|k: int|
                    0 <= k < i ==> merkle_root_of((#[trigger] self.pubkeys@[k])@, 2).len() == 32,
            decreases self.pubkeys@.len() - i,
        {
            let key_root: [u8; 32] = merkle_root(self.pubkeys[i].as_slice(), 2);
            push_root_leaf(&mut leaves, &key_root);
            i += 1;
            assert(self.pubkeys@.take(i as int).drop_last() =~= self.pubkeys@.take(i - 1));
        }
        assert(self.pubkeys@.take(i as int) =~= self.pubkeys@);
        proof {
            law_leaves_are_the_roots_of_the_keys(self.pubkeys@);
            lemma_leaves_by_byte(self.pubkeys@);
        }
        let keys_root: [u8; 32] = merkle_root(leaves.as_slice(), 0);
        let aggregate_root: [u8; 32] = merkle_root(self.aggregate_pubkey.as_slice(), 2);
        let mut fields: Vec<u8> = Vec::new();
        push_root_leaf(&mut fields, &keys_root);
        push_root_leaf(&mut fields, &aggregate_root);
        assert(fields@ =~= keys_root@ + aggregate_root@);
        merkle_root(fields.as_slice(), 2)
    }
}

/// The store of a light client. The benchmark reads the finalized header and the sync committees;
/// `rest` is what it carries along unread.
#[derive(Clone, Debug, PartialEq, Eq)]
pub struct LightClientStore<X> {
    pub finalized_header: BeaconBlockHeader,
    pub current_sync_committee: SyncCommittee,
    pub next_sync_committee: Option<SyncCommittee>,
    pub rest: X,
}

/// The head of a light client and the roots that commit to its state.
#[derive(Clone, Copy, Debug, PartialEq, Eq)]
pub struct StoreRoots {
    pub head: u64,
    pub header: [u8; 32],
    pub sync_committee: [u8; 32],
    pub next_sync_committee: Option<[u8; 32]>,
}

/// The head and the roots as sequences of bytes.
#[verifier::ext_equal]
pub struct StoreRootsView {
    pub head: u64,
    pub header: Seq<u8>,
    pub sync_committee: Seq<u8>,
    pub next_sync_committee: Option<Seq<u8>>,
}

impl View for StoreRoots {
    type V = StoreRootsView;

    open spec fn view(&self) -> StoreRootsView {
        StoreRootsView {
            head: self.head,
            header: self.header@,
            sync_committee: self.sync_committee@,
            next_sync_committee: match self.next_sync_committee {
                Some(root) => Some(root@),
                None => None,
            },
        }
    }
}

impl<X> LightClientStore<X> {
    /// The head of a store and the roots of its finalized header and committees.
    pub open spec fn committed(self) -> StoreRootsView {
        StoreRootsView {
            head: self.finalized_header.slot,
            header: self.finalized_header.root(),
            sync_committee: self.current_sync_committee@.root(),
            next_sync_committee: match self.next_sync_committee {
                Some(committee) => Some(committee@.root()),
                None => None,
            },
        }
    }

    /// Computes the head and the roots of this store.
    pub fn roots(&self) -> (roots: StoreRoots)
        ensures
            roots@ == self.committed(),
            roots.head == self.finalized_header.slot,
            roots.header@ == self.finalized_header.root(),
            roots.sync_committee@ == self.current_sync_committee@.root(),
            match self.next_sync_committee {
                Some(committee) => roots.next_sync_committee matches Some(root) && root@
                    == committee@.root(),
                None => roots.next_sync_committee is None,
            },
    {
        let next_sync_committee: Option<[u8; 32]> = match &self.next_sync_committee {
            Some(committee) => Some(committee.tree_hash_root()),
            None => None,
        };
        StoreRoots {
            head: self.finalized_header.slot,
            header: self.finalized_header.tree_hash_root(),
            sync_committee: self.current_sync_committee.tree_hash_root(),
            next_sync_committee,
        }
    }
}

/// The low bytes of a number are its digits to the base 256, the least significant first.
pub proof fn law_bytes_by_place(x: nat, n: nat, i: int)
    requires
        0 <= i < n,
    ensures
        le_bytes(x, n).len() == n,
        le_bytes(x, n)[i] as int == (x as int / pow(256, i as nat)) % 256,
    decreases n,
{
    lemma_le_bytes_len(x, n);
    lemma_pow0(256);
    if i == 0 {
        assert(x as int / 1 == x);
    } else {
        law_bytes_by_place(x / 256, (n - 1) as nat, i - 1);
        let e = (i - 1) as nat;
        lemma_pow_positive(256, e);
        lemma_pow_step(256, e);
        lemma_div_denominator(x as int, 256, pow(256, e));
        assert(le_bytes(x, n)[i] == le_bytes(x / 256, (n - 1) as nat)[i - 1]);
    }
}

/// The hash tree root of a header is that over its five fields, one leaf of 32 bytes for each: the
/// slot and the proposer's index with the least significant byte first, and the three roots.
pub proof fn law_header_root_covers_its_fields(header: BeaconBlockHeader, leaves: Seq<u8>)
    requires
        leaves.len() == 160,
        forall|j: int|
            0 <= j < 32 ==> (#[trigger] leaves[j]) as int == (header.slot as int / pow(
                256,
                j as nat,
            )) % 256,
        forall|j: int|
            32 <= j < 64 ==> (#[trigger] leaves[j]) as int == (header.proposer_index as int / pow(
                256,
                (j - 32) as nat,
            )) % 256,
        forall|j: int| 64 <= j < 96 ==> #[trigger] leaves[j] == header.parent_root@[j - 64],
        forall|j: int| 96 <= j < 128 ==> #[trigger] leaves[j] == header.state_root@[j - 96],
        forall|j: int| 128 <= j < 160 ==> #[trigger] leaves[j] == header.body_root@[j - 128],
    ensures
        header.root() == merkle_root_of(leaves, 5),
{
    lemma_le_bytes_len(header.slot as nat, 32);
    lemma_le_bytes_len(header.proposer_index as nat, 32);
    assert forall|j: int| 0 <= j < 160 implies leaves[j] == #[trigger] header.leaves()[j] by {
        if j < 32 {
            law_bytes_by_place(header.slot as nat, 32, j);
        } else if j < 64 {
            law_bytes_by_place(header.proposer_index as nat, 32, j - 32);
        }
    }
    assert(leaves =~= header.leaves());
}

/// The leaves of some keys and then some others are those of the ones and then those of the others,
/// and a single key has its own root as its leaves. So every key adds its root, whatever keys stand
/// before and behind it.
pub proof fn law_leaves_of_keys_in_a_row(a: Seq<[u8; 48]>, b: Seq<[u8; 48]>, key: [u8; 48])
    ensures
        pubkey_leaves(a + b) == pubkey_leaves(a) + pubkey_leaves(b),
        pubkey_leaves(seq![key]) == merkle_root_of(key@, 2),
        pubkey_leaves(Seq::empty()).len() == 0,
    decreases b.len(),
{
    assert(seq![key].drop_last() =~= Seq::<[u8; 48]>::empty());
    assert(pubkey_leaves(seq![key].drop_last()) =~= Seq::<u8>::empty());
    assert(Seq::<u8>::empty() + pubkey_root(key@) =~= pubkey_root(key@));
    if b.len() == 0 {
        assert(a + b =~= a);
        assert(pubkey_leaves(a) + Seq::<u8>::empty() =~= pubkey_leaves(a));
    } else {
        law_leaves_of_keys_in_a_row(a, b.drop_last(), key);
        assert((a + b).drop_last() =~= a + b.drop_last());
        assert(pubkey_leaves(a + b) =~= pubkey_leaves(a) + pubkey_leaves(b));
    }
}

/// Leaf `i` is the root of key `i`: roots have 32 bytes, and the leaves of some keys are 32 bytes for
/// each key, in the order of the keys.
pub proof fn law_leaves_are_the_roots_of_the_keys(pubkeys: Seq<[u8; 48]>)
    requires
        forall|i: int|
            0 <= i < pubkeys.len() ==> merkle_root_of((#[trigger] pubkeys[i])@, 2).len() == 32,
    ensures
        pubkey_leaves(pubkeys).len() == 32 * pubkeys.len(),
        forall|i: int|
            0 <= i < pubkeys.len() ==> pubkey_leaves(pubkeys).subrange(32 * i, 32 * i + 32)
                == merkle_root_of((#[trigger] pubkeys[i])@, 2),
    decreases pubkeys.len(),
{
    if pubkeys.len() > 0 {
        let rest = pubkeys.drop_last();
        let n = rest.len() as int;
        assert forall|i: int| 0 <= i < rest.len() implies merkle_root_of(
            (#[trigger] rest[i])@,
            2,
        ).len() == 32 by {
            assert(rest[i] == pubkeys[i]);
        }
        law_leaves_are_the_roots_of_the_keys(rest);
        assert(merkle_root_of(pubkeys[n]@, 2).len() == 32);
        assert forall|i: int| 0 <= i < pubkeys.len() implies pubkey_leaves(pubkeys).subrange(
            32 * i,
            32 * i + 32,
        ) == merkle_root_of((#[trigger] pubkeys[i])@, 2) by {
            if i < n {
                assert(rest[i] == pubkeys[i]);
                assert(pubkey_leaves(pubkeys).subrange(32 * i, 32 * i + 32) =~= pubkey_leaves(
                    rest,
                ).subrange(32 * i, 32 * i + 32));
            } else {
                assert(pubkey_leaves(pubkeys).subrange(32 * i, 32 * i + 32) =~= merkle_root_of(
                    pubkeys[n]@,
                    2,
                ));
            }
        }
    }
}

/// The leaves of some keys byte by byte.
proof fn lemma_leaves_by_byte(pubkeys: Seq<[u8; 48]>)
    requires
        forall|i: int|
            0 <= i < pubkeys.len() ==> merkle_root_of((#[trigger] pubkeys[i])@, 2).len() == 32,
    ensures
        pubkey_leaves(pubkeys) == Seq::new(
            32 * pubkeys.len(),
            |j: int| merkle_root_of(pubkeys[j / 32]@, 2)[j % 32],
        ),
{
    law_leaves_are_the_roots_of_the_keys(pubkeys);
    let leaves = pubkey_leaves(pubkeys);
    let by_byte = Seq::new(
        32 * pubkeys.len(),
        |j: int| merkle_root_of(pubkeys[j / 32]@, 2)[j % 32],
    );
    assert forall|j: int| 0 <= j < leaves.len() implies leaves[j] == #[trigger] by_byte[j] by {
        let i = j / 32;
        assert(0 <= i < pubkeys.len());
        let root = merkle_root_of(pubkeys[i]@, 2);
        assert(leaves.subrange(32 * i, 32 * i + 32) == root);
        assert(leaves.subrange(32 * i, 32 * i + 32)[j % 32] == leaves[j]);
    }
    assert(leaves =~= by_byte);
}

/// The hash tree root of a committee is that over two fields: the root over one leaf for each key,
/// which is the root of the key in its place, and the root of the aggregate key.
pub proof fn law_committee_root_covers_all_keys(committee: SyncCommitteeView, leaves: Seq<u8>)
    requires
        leaves.len() == 32 * committee.pubkeys.len(),
        forall|i: int|
            0 <= i < committee.pubkeys.len() ==> leaves.subrange(32 * i, 32 * i + 32)
                == merkle_root_of((#[trigger] committee.pubkeys[i])@, 2),
    ensures
        committee.root() == merkle_root_of(
            merkle_root_of(leaves, 0) + merkle_root_of(committee.aggregate_pubkey@, 2),
            2,
        ),
{
    let keys = committee.pubkeys;
    assert forall|i: int| 0 <= i < keys.len() implies merkle_root_of(
        (#[trigger] keys[i])@,
        2,
    ).len() == 32 by {
        assert(leaves.subrange(32 * i, 32 * i + 32).len() == 32);
    }
    law_leaves_are_the_roots_of_the_keys(keys);
    assert forall|j: int| 0 <= j < leaves.len() implies leaves[j] == #[trigger] pubkey_leaves(
        keys,
    )[j] by {
        let i = j / 32;
        assert(0 <= i < keys.len());
        let root = merkle_root_of(keys[i]@, 2);
        assert(leaves.subrange(32 * i, 32 * i + 32) == root);
        assert(pubkey_leaves(keys).subrange(32 * i, 32 * i + 32) == root);
        assert(leaves.subrange(32 * i, 32 * i + 32)[j % 32] == leaves[j]);
        assert(pubkey_leaves(keys).subrange(32 * i, 32 * i + 32)[j % 32] == pubkey_leaves(keys)[j]);
    }
    assert(leaves =~= pubkey_leaves(keys));
}

/// What is committed of a store: the slot and the root of its finalized header, the root of its
/// current committee, and that of its next committee exactly if it knows one.
pub proof fn law_committed_of_a_store<X>(store: LightClientStore<X>)
    ensures
        store.committed().head == store.finalized_header.slot,
        store.committed().header == store.finalized_header.root(),
        store.committed().sync_committee == store.current_sync_committee@.root(),
        store.next_sync_committee matches Some(committee)
            ==> store.committed().next_sync_committee == Some(committee@.root()),
        store.next_sync_committee is None ==> store.committed().next_sync_committee is None,
{
}

} // verus!
