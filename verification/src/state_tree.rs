//! The account state tree: a sparse Merkle tree from 32-byte keys to account
//! records, kept by the `sparse_merkle_tree` crate.
//!
//! The tree is modelled by the map of the accounts it stores. An account whose
//! leaf digest is all zeros is never stored: writing one deletes the key. The
//! root is a function of the stored leaf digests alone.

use crate::bytes::push_u64_le;
use crate::bytes::u64_le_bytes;
use crate::hash::keccak256;
use crate::hash::keccak256_digest;
use crate::hash::sha256;
use crate::hash::sha256_digest;
use crate::hexstr::bytes_to_hex;
use crate::hexstr::hex_text;
use crate::hexstr::prefix_0x;
use sparse_merkle_tree::blake2b::Blake2bHasher;
use sparse_merkle_tree::default_store::DefaultStore;
use sparse_merkle_tree::traits::Value;
use sparse_merkle_tree::SparseMerkleTree;
use sparse_merkle_tree::H256;
use vstd::prelude::*;

verus! {

#[verifier::external_type_specification]
#[verifier::external_body]
pub struct ExH256(H256);

#[verifier::external_type_specification]
#[verifier::external_body]
pub struct ExBlake2bHasher(Blake2bHasher);

#[verifier::external_type_specification]
#[verifier::external_body]
#[verifier::reject_recursive_types(V)]
pub struct ExDefaultStore<V>(DefaultStore<V>);

#[verifier::external_type_specification]
#[verifier::external_body]
#[verifier::reject_recursive_types(H)]
#[verifier::reject_recursive_types(V)]
#[verifier::reject_recursive_types(S)]
pub struct ExSparseMerkleTree<H, V, S>(SparseMerkleTree<H, V, S>);

/// The outside tree as this library instantiates it: Blake2b for the inner
/// nodes, account records as values, the in-memory store.
pub type AccountTree = SparseMerkleTree<Blake2bHasher, AccountData, DefaultStore<AccountData>>;

/// The state of one account.
#[derive(Clone, Copy, Debug, Default)]
pub struct AccountData {
    pub balance: u64,
    pub nonce: u64,
}

/// Thirty-two zero bytes: the digest of the empty leaf and the root of the
/// empty tree.
pub open spec fn zero_digest() -> Seq<u8> {
    Seq::new(32, |i: int| 0u8)
}

/// What is hashed for a non-empty account: balance, then nonce, each as eight
/// little-endian bytes.
pub open spec fn leaf_preimage(balance: u64, nonce: u64) -> Seq<u8> {
    u64_le_bytes(balance) + u64_le_bytes(nonce)
}

/// The leaf digest of an account: all zeros for the empty account, else the
/// SHA-256 digest of its sixteen bytes.
pub open spec fn leaf_digest_of(balance: u64, nonce: u64) -> Seq<u8> {
    if balance == 0 && nonce == 0 {
        zero_digest()
    } else {
        sha256_digest(leaf_preimage(balance, nonce))
    }
}

impl AccountData {
    /// The account as a pair, the form in which the tree's model holds it.
    pub open spec fn pair(&self) -> (u64, u64) {
        (self.balance, self.nonce)
    }

    /// Computes the leaf digest of the account.
    pub fn leaf_digest(&self) -> (out: [u8; 32])
        ensures
            out@ == leaf_digest_of(self.balance, self.nonce),
    {
        if self.balance == 0 && self.nonce == 0 {
            let out = [0u8; 32];
            assert(out@ =~= zero_digest());
            return out;
        }
        let mut data: Vec<u8> = Vec::new();
        push_u64_le(&mut data, self.balance);
        push_u64_le(&mut data, self.nonce);
        assert(data@ =~= leaf_preimage(self.balance, self.nonce));
        sha256(data.as_slice())
    }
}

/// The 32 bytes that a digest of the outside crate holds.
pub uninterp spec fn h256_bytes(digest: H256) -> Seq<u8>;

/// Calls `H256::from` on an array of 32 bytes, which wraps the array as it is.
#[verifier::external_body]
fn digest_to_h256(digest: [u8; 32]) -> (out: H256)
    ensures
        h256_bytes(out) == digest@,
{
    H256::from(digest)
}

/// What the tree asks of its values: their leaf digest and the empty value.
impl Value for AccountData {
    fn to_h256(&self) -> (out: H256)
        ensures
            h256_bytes(out) == leaf_digest_of(self.balance, self.nonce),
    {
        digest_to_h256(self.leaf_digest())
    }

    fn zero() -> (out: Self)
        ensures
            out.balance == 0,
            out.nonce == 0,
    {
        AccountData { balance: 0, nonce: 0 }
    }
}

/// The accounts that the outside tree's store holds, by key.
pub uninterp spec fn tree_leaves(tree: AccountTree) -> Map<Seq<u8>, (u64, u64)>;

/// The outside tree was made empty and changed by `update` alone, so that its
/// inner nodes and its root belong to the leaves it stores.
pub uninterp spec fn tree_is_sound(tree: AccountTree) -> bool;

/// The root that the outside tree computes over a set of leaf digests, none of
/// them all zeros.
pub uninterp spec fn merkle_root(digests: Map<Seq<u8>, Seq<u8>>) -> Seq<u8>;

/// The tree without any account.
pub open spec fn no_leaves() -> Map<Seq<u8>, (u64, u64)> {
    Map::empty()
}

/// The leaf digests of the stored accounts.
pub open spec fn leaf_digests(leaves: Map<Seq<u8>, (u64, u64)>) -> Map<Seq<u8>, Seq<u8>> {
    leaves.map_values(|v: (u64, u64)| leaf_digest_of(v.0, v.1))
}

/// The root of the tree that stores `leaves`.
pub open spec fn root_of(leaves: Map<Seq<u8>, (u64, u64)>) -> Seq<u8> {
    merkle_root(leaf_digests(leaves))
}

/// The stored accounts after `key` is set to an account: an account whose
/// digest is all zeros removes the key, any other is stored under it.
pub open spec fn leaves_after_update(
    leaves: Map<Seq<u8>, (u64, u64)>,
    key: Seq<u8>,
    balance: u64,
    nonce: u64,
) -> Map<Seq<u8>, (u64, u64)> {
    if leaf_digest_of(balance, nonce) == zero_digest() {
        leaves.remove(key)
    } else {
        leaves.insert(key, (balance, nonce))
    }
}

/// What a lookup of `key` gives: the stored account, or the empty account for
/// a key that is not stored. A tree whose root is all zeros answers every
/// lookup with the empty account.
pub open spec fn stored_account(leaves: Map<Seq<u8>, (u64, u64)>, key: Seq<u8>) -> (u64, u64) {
    if root_of(leaves) == zero_digest() {
        (0, 0)
    } else if leaves.dom().contains(key) {
        leaves[key]
    } else {
        (0, 0)
    }
}

/// Calls `SparseMerkleTree::default`, whose store is empty and whose root is
/// all zeros.
#[verifier::external_body]
fn empty_tree() -> (tree: AccountTree)
    ensures
        tree_is_sound(tree),
        tree_leaves(tree) == no_leaves(),
{
    Default::default()
}

/// Calls `SparseMerkleTree::update`. It asks the value for its digest, stores
/// the value under the key if the digest is not all zeros and removes the key
/// otherwise, then recomputes the path to the root. With the in-memory store
/// no step of it can fail.
#[verifier::external_body]
fn tree_update(tree: &mut AccountTree, key: [u8; 32], value: AccountData)
    requires
        tree_is_sound(*old(tree)),
    ensures
        tree_is_sound(*final(tree)),
        tree_leaves(*final(tree)) == leaves_after_update(
            tree_leaves(*old(tree)),
            key@,
            value.balance,
            value.nonce,
        ),
    no_unwind
{
    tree.update(H256::from(key), value).expect("SMT update failed");
}

/// Calls `SparseMerkleTree::root`. The root of a tree that stores nothing is
/// all zeros; otherwise it is determined by the stored leaf digests.
#[verifier::external_body]
fn tree_root(tree: &AccountTree) -> (out: [u8; 32])
    requires
        tree_is_sound(*tree),
    ensures
        out@ == merkle_root(leaf_digests(tree_leaves(*tree))),
        tree_leaves(*tree) == no_leaves() ==> out@ == zero_digest(),
{
    (*tree.root()).into()
}

/// Calls `SparseMerkleTree::get`, which answers with the empty value when the
/// root is all zeros or the key is not stored, and with a copy of the stored
/// value otherwise. With the in-memory store it cannot fail.
#[verifier::external_body]
fn tree_get(tree: &AccountTree, key: [u8; 32]) -> (found: Option<AccountData>)
    requires
        tree_is_sound(*tree),
    ensures
        found is Some,
        found.unwrap().pair() == stored_account(tree_leaves(*tree), key@),
{
    tree.get(&H256::from(key)).ok()
}

/// A sparse Merkle tree over account records.
pub struct SMT {
    inner: AccountTree,
}

impl SMT {
    #[verifier::type_invariant]
    spec fn sound(&self) -> bool {
        tree_is_sound(self.inner)
    }

    /// The accounts that the tree stores, by key.
    pub closed spec fn leaves(&self) -> Map<Seq<u8>, (u64, u64)> {
        tree_leaves(self.inner)
    }
}

/// Makes a tree that stores nothing.
pub fn new_smt() -> (tree: SMT)
    ensures
        tree.leaves() == no_leaves(),
{
    SMT { inner: empty_tree() }
}

/// Reads the root of the tree.
pub fn root(tree: &SMT) -> (out: [u8; 32])
    ensures
        out@ == root_of(tree.leaves()),
        tree.leaves() == no_leaves() ==> out@ == zero_digest(),
{
    proof {
        use_type_invariant(tree);
    }
    tree_root(&tree.inner)
}

/// Sets the account under `key`. Setting the empty account deletes the key.
pub fn update(tree: &mut SMT, key: [u8; 32], value: AccountData)
    ensures
        final(tree).leaves() == leaves_after_update(
            old(tree).leaves(),
            key@,
            value.balance,
            value.nonce,
        ),
{
    proof {
        use_type_invariant(&*tree);
    }
    tree_update(&mut tree.inner, key, value);
}

/// The tree key of an address: its Keccak-256 digest.
pub fn address_to_tree_key(address: &[u8; 20]) -> (key: [u8; 32])
    ensures
        key@ == keccak256_digest(address@),
{
    keccak256(address.as_slice())
}

/// Writes a 32-byte digest as lowercase hex behind `0x`.
pub fn h256_to_hex(hash: &[u8; 32]) -> (out: String)
    ensures
        out@ == prefix_0x() + hex_text(hash@),
{
    bytes_to_hex(hash.as_slice())
}

/// Looks up the account under `key`; a key that is not stored has the empty
/// account.
pub fn get_simple_proof(tree: &SMT, key: [u8; 32]) -> (found: Option<AccountData>)
    ensures
        found is Some,
        found.unwrap().pair() == stored_account(tree.leaves(), key@),
{
    proof {
        use_type_invariant(tree);
    }
    tree_get(&tree.inner, key)
}

/// Whether the tree has exactly `expected_value` under `key`.
pub fn verify_inclusion(tree: &SMT, key: [u8; 32], expected_value: &AccountData) -> (ok: bool)
    ensures
        ok == (stored_account(tree.leaves(), key@) == expected_value.pair()),
{
    match get_simple_proof(tree, key) {
        Some(value) => value.balance == expected_value.balance && value.nonce
            == expected_value.nonce,
        None => false,
    }
}

/// One write to the tree.
pub struct LeafUpdate {
    pub key: Seq<u8>,
    pub balance: u64,
    pub nonce: u64,
}

/// The stored accounts after a sequence of writes, first to last.
pub open spec fn leaves_after_updates(
    leaves: Map<Seq<u8>, (u64, u64)>,
    updates: Seq<LeafUpdate>,
) -> Map<Seq<u8>, (u64, u64)>
    decreases updates.len(),
{
    if updates.len() == 0 {
        leaves
    } else {
        let last = updates.last();
        leaves_after_update(
            leaves_after_updates(leaves, updates.drop_last()),
            last.key,
            last.balance,
            last.nonce,
        )
    }
}

/// No key is written with two different accounts.
pub open spec fn updates_agree(updates: Seq<LeafUpdate>) -> bool {
    forall|i: int, j: int|
        0 <= i < updates.len() && 0 <= j < updates.len() && updates[i].key == updates[j].key
            ==> updates[i] == updates[j]
}

/// Writing the empty account under a key deletes the key.
pub proof fn lemma_empty_account_deletes(leaves: Map<Seq<u8>, (u64, u64)>, key: Seq<u8>)
    ensures
        leaves_after_update(leaves, key, 0, 0) == leaves.remove(key),
{
}

/// Writing an account under a fresh key and then the empty account under the
/// same key gives the tree, and so the root, that was there before.
pub proof fn lemma_zero_leaf_idempotence(
    leaves: Map<Seq<u8>, (u64, u64)>,
    key: Seq<u8>,
    balance: u64,
    nonce: u64,
)
    requires
        !leaves.dom().contains(key),
    ensures
        leaves_after_update(leaves_after_update(leaves, key, balance, nonce), key, 0, 0) == leaves,
        root_of(leaves_after_update(leaves_after_update(leaves, key, balance, nonce), key, 0, 0))
            == root_of(leaves),
{
    let once = leaves_after_update(leaves, key, balance, nonce);
    assert(leaves_after_update(once, key, 0, 0) =~= leaves);
}

/// No stored account has a leaf digest of all zeros.
pub open spec fn only_nonzero_leaves(leaves: Map<Seq<u8>, (u64, u64)>) -> bool {
    forall|key: Seq<u8>| #[trigger]
        leaves.dom().contains(key) ==> leaf_digest_of(leaves[key].0, leaves[key].1)
            != zero_digest()
}

/// A tree that was made empty and written to holds no account whose leaf
/// digest is all zeros; the empty account in particular is never stored.
pub proof fn lemma_stored_leaves_are_nonzero(updates: Seq<LeafUpdate>)
    ensures
        only_nonzero_leaves(leaves_after_updates(no_leaves(), updates)),
        forall|key: Seq<u8>| #[trigger]
            leaves_after_updates(no_leaves(), updates).dom().contains(key)
                ==> leaves_after_updates(no_leaves(), updates)[key] != (0u64, 0u64),
    decreases updates.len(),
{
    if updates.len() > 0 {
        lemma_stored_leaves_are_nonzero(updates.drop_last());
    }
}

/// The writes that do not name `key`, in their order.
pub open spec fn updates_without(updates: Seq<LeafUpdate>, key: Seq<u8>) -> Seq<LeafUpdate> {
    updates.filter(|u: LeafUpdate| u.key != key)
}

/// Writing the empty account under a key leaves the tree, and so the root, as
/// if the key had never been written: as if the tree had been made by the
/// writes that name other keys alone.
pub proof fn lemma_zero_leaf_as_if_never_written(
    leaves: Map<Seq<u8>, (u64, u64)>,
    updates: Seq<LeafUpdate>,
    key: Seq<u8>,
)
    requires
        !leaves.dom().contains(key),
    ensures
        leaves_after_update(leaves_after_updates(leaves, updates), key, 0, 0)
            == leaves_after_updates(leaves, updates_without(updates, key)),
        root_of(leaves_after_update(leaves_after_updates(leaves, updates), key, 0, 0)) == root_of(
            leaves_after_updates(leaves, updates_without(updates, key)),
        ),
    decreases updates.len(),
{
    reveal(Seq::filter);
    let keep = |u: LeafUpdate| u.key != key;
    if updates.len() == 0 {
        assert(leaves.remove(key) =~= leaves);
    } else {
        let init = updates.drop_last();
        let last = updates.last();
        lemma_zero_leaf_as_if_never_written(leaves, init, key);
        let before = leaves_after_updates(leaves, init);
        if last.key == key {
            assert(updates.filter(keep) == init.filter(keep));
            assert(leaves_after_update(before, last.key, last.balance, last.nonce).remove(key)
                =~= before.remove(key));
        } else {
            let kept = init.filter(keep);
            assert(updates.filter(keep) == kept.push(last));
            assert(kept.push(last).drop_last() =~= kept);
            assert(leaves_after_update(before, last.key, last.balance, last.nonce).remove(key)
                =~= leaves_after_update(before.remove(key), last.key, last.balance, last.nonce));
        }
    }
}

/// What a sequence of agreeing writes leaves under one key: the account of any
/// write to that key, or what was there before if no write names it.
proof fn lemma_updates_at_key(
    leaves: Map<Seq<u8>, (u64, u64)>,
    updates: Seq<LeafUpdate>,
    key: Seq<u8>,
)
    requires
        updates_agree(updates),
    ensures
        (forall|i: int| 0 <= i < updates.len() ==> updates[i].key != key) ==> {
            let after = leaves_after_updates(leaves, updates);
            &&& after.dom().contains(key) == leaves.dom().contains(key)
            &&& leaves.dom().contains(key) ==> after[key] == leaves[key]
        },
        forall|i: int|
            0 <= i < updates.len() && (#[trigger] updates[i]).key == key ==> {
                let after = leaves_after_updates(leaves, updates);
                let stays = leaf_digest_of(updates[i].balance, updates[i].nonce) != zero_digest();
                &&& after.dom().contains(key) == stays
                &&& stays ==> after[key] == (updates[i].balance, updates[i].nonce)
            },
    decreases updates.len(),
{
    if updates.len() > 0 {
        let init = updates.drop_last();
        let last = updates.last();
        assert(updates_agree(init)) by {
            assert forall|i: int, j: int|
                0 <= i < init.len() && 0 <= j < init.len() && init[i].key == init[j].key implies init[i]
                == init[j] by {
                assert(init[i] == updates[i] && init[j] == updates[j]);
            }
        }
        lemma_updates_at_key(leaves, init, key);
        if last.key == key {
            assert forall|i: int| 0 <= i < updates.len() && (#[trigger] updates[i]).key == key implies updates[i]
                == last by {
                assert(updates[updates.len() - 1] == last);
            }
        } else {
            assert forall|i: int| 0 <= i < updates.len() && (#[trigger] updates[i]).key == key implies i
                < init.len() && init[i] == updates[i] by {}
            assert((forall|i: int| 0 <= i < updates.len() ==> updates[i].key != key) ==> (forall|
                i: int,
            | 0 <= i < init.len() ==> init[i].key != key)) by {
                if forall|i: int| 0 <= i < updates.len() ==> updates[i].key != key {
                    assert forall|i: int| 0 <= i < init.len() implies init[i].key != key by {
                        assert(init[i] == updates[i]);
                    }
                }
            }
        }
    }
}

/// The tree after a set of writes does not depend on their order: two
/// sequences that hold the same writes, each as often, and in which no key is
/// written with two different accounts, leave the same accounts and the same
/// root.
pub proof fn lemma_update_order_irrelevant(
    leaves: Map<Seq<u8>, (u64, u64)>,
    first: Seq<LeafUpdate>,
    second: Seq<LeafUpdate>,
)
    requires
        first.to_multiset() == second.to_multiset(),
        updates_agree(first),
    ensures
        leaves_after_updates(leaves, first) == leaves_after_updates(leaves, second),
        root_of(leaves_after_updates(leaves, first)) == root_of(
            leaves_after_updates(leaves, second),
        ),
{
    first.to_multiset_ensures();
    second.to_multiset_ensures();
    assert forall|x: LeafUpdate| first.contains(x) == second.contains(x) by {
        assert(first.to_multiset().count(x) == second.to_multiset().count(x));
        assert(first.contains(x) <==> first.to_multiset().count(x) > 0);
        assert(second.contains(x) <==> second.to_multiset().count(x) > 0);
    }
    assert(updates_agree(second)) by {
        assert forall|i: int, j: int|
            0 <= i < second.len() && 0 <= j < second.len() && second[i].key
                == second[j].key implies second[i] == second[j] by {
            assert(second.contains(second[i]) && second.contains(second[j]));
            assert(first.contains(second[i]) && first.contains(second[j]));
        }
    }
    let a = leaves_after_updates(leaves, first);
    let b = leaves_after_updates(leaves, second);
    assert forall|key: Seq<u8>|
        #![trigger a.dom().contains(key)]
        #![trigger b.dom().contains(key)]
        a.dom().contains(key) == b.dom().contains(key) && (a.dom().contains(key) ==> a[key]
            == b[key]) by {
        lemma_updates_at_key(leaves, first, key);
        lemma_updates_at_key(leaves, second, key);
        if exists|i: int| 0 <= i < first.len() && first[i].key == key {
            let i = choose|i: int| 0 <= i < first.len() && first[i].key == key;
            assert(first.contains(first[i]));
            assert(second.contains(first[i]));
            let j = choose|j: int| 0 <= j < second.len() && second[j] == first[i];
            assert(second[j].key == key);
        } else {
            assert forall|j: int| 0 <= j < second.len() implies second[j].key != key by {
                assert(second.contains(second[j]));
                assert(first.contains(second[j]));
            }
        }
    }
    assert(a.dom() =~= b.dom());
    assert(a =~= b);
}

} // verus!
