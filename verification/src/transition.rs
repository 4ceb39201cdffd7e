//! The state transition of a batch: the tree is built from the batch's
//! accounts, signatures are checked, deposits and then transfers are applied,
//! and the outcome is bound to the roots before and after.

use crate::accounts::account_index;
use crate::accounts::accounts_after_deposit;
use crate::accounts::accounts_after_transfer;
use crate::accounts::apply_deposit;
use crate::accounts::apply_transfer;
use crate::accounts::deposit_overflows;
use crate::accounts::find_account_index;
use crate::accounts::lemma_account_index_from;
use crate::accounts::transfer_overflows;
use crate::accounts::transfer_valid;
use crate::accounts::StfError;
use crate::batch::Batch;
use crate::batch::DepositInfo;
use crate::batch::LeafData;
use crate::batch::Transaction;
use crate::eth_sign::signature_binds_sender;
use crate::eth_sign::verify_metamask_signature;
use crate::hash::keccak256_digest;
use crate::hexstr::all_hex_digits;
use crate::hexstr::hex_pairs_value;
use crate::hexstr::hex_text;
use crate::hexstr::hex_to_address;
use crate::hexstr::hex_to_bytes;
use crate::hexstr::is_hex_pairs;
use crate::hexstr::lemma_prefixed_hex_round_trip;
use crate::hexstr::prefix_0x;
use crate::hexstr::strip_0x;
use crate::state_tree::address_to_tree_key;
use crate::state_tree::h256_to_hex;
use crate::state_tree::leaves_after_update;
use crate::state_tree::new_smt;
use crate::state_tree::no_leaves;
use crate::state_tree::root;
use crate::state_tree::root_of;
use crate::state_tree::update;
use crate::state_tree::AccountData;
use crate::state_tree::SMT;
use crate::text::eq_ignoring_case;
use crate::text::same_ignoring_case;
use vstd::prelude::*;
use vstd::string::StringSliceAdditionalSpecFns;
use vstd::utf8::encode_utf8;

verus! {

/// The public outcome of a batch.
#[derive(Clone, Debug)]
pub struct Commit {
    pub success: bool,
    pub old_root: [u8; 32],
    pub new_root: [u8; 32],
    pub badge_id: u32,
    pub transactions_processed: u32,
    pub processed_deposit_ids: Vec<u64>,
}

/// The public outcome of a batch, as mathematics sees it.
pub struct CommitModel {
    pub success: bool,
    pub old_root: Seq<u8>,
    pub new_root: Seq<u8>,
    pub badge_id: u32,
    pub transactions_processed: u32,
    pub processed_deposit_ids: Seq<u64>,
}

impl View for Commit {
    type V = CommitModel;

    open spec fn view(&self) -> CommitModel {
        CommitModel {
            success: self.success,
            old_root: self.old_root@,
            new_root: self.new_root@,
            badge_id: self.badge_id,
            transactions_processed: self.transactions_processed,
            processed_deposit_ids: self.processed_deposit_ids@,
        }
    }
}

/// The accounts of a batch by index, and what the tree stores of them by key.
pub struct Ledger {
    pub accounts: Seq<LeafData>,
    pub leaves: Map<Seq<u8>, (u64, u64)>,
}

/// How far the deposits got.
pub struct DepositRun {
    pub ledger: Ledger,
    /// The ids of the deposits that were credited, in order.
    pub ids: Seq<u64>,
    /// No deposit so far named an address that the batch does not have.
    pub complete: bool,
    /// A credit would have overflowed a balance.
    pub overflow: bool,
}

/// How far the transfers got.
pub struct TransferRun {
    pub ledger: Ledger,
    /// How many transfers were applied.
    pub processed: nat,
    /// A transfer was not applied: an address is missing, the balance does
    /// not suffice or the nonce is not the sender's.
    pub stopped: bool,
    /// A nonce or a balance would have overflowed.
    pub overflow: bool,
}

/// The tree key of an address given as hex: the Keccak-256 digest of its 20
/// bytes. `None` for text that is not 40 hex digits behind an optional `0x`.
pub open spec fn address_key(address: Seq<char>) -> Option<Seq<u8>> {
    let digits = strip_0x(encode_utf8(address));
    if digits.len() == 40 && all_hex_digits(digits) {
        Some(keccak256_digest(hex_pairs_value(digits)))
    } else {
        None
    }
}

/// Every address of the list has a tree key.
pub open spec fn addresses_valid(addresses: Seq<String>) -> bool {
    forall|i: int| 0 <= i < addresses.len() ==> (#[trigger] address_key(addresses[i]@)) is Some
}

/// The tree keys of the addresses, by index.
pub open spec fn address_keys(addresses: Seq<String>) -> Seq<Seq<u8>> {
    Seq::new(addresses.len(), |i: int| address_key(addresses[i]@).unwrap())
}

/// What the tree stores after the first `n` accounts were written to it, each
/// under the key of its address.
pub open spec fn bootstrap_leaves(keys: Seq<Seq<u8>>, leaf_data: Seq<LeafData>, n: nat) -> Map<
    Seq<u8>,
    (u64, u64),
>
    decreases n,
{
    if n == 0 {
        no_leaves()
    } else {
        leaves_after_update(
            bootstrap_leaves(keys, leaf_data, (n - 1) as nat),
            keys[n - 1],
            leaf_data[n - 1].balance,
            leaf_data[n - 1].nonce,
        )
    }
}

/// The ledger after a deposit to the account at `idx`.
pub open spec fn ledger_after_deposit(
    ledger: Ledger,
    keys: Seq<Seq<u8>>,
    idx: int,
    amount: u64,
) -> Ledger {
    let accounts = accounts_after_deposit(ledger.accounts, idx, amount);
    Ledger {
        accounts,
        leaves: leaves_after_update(
            ledger.leaves,
            keys[idx],
            accounts[idx].balance,
            accounts[idx].nonce,
        ),
    }
}

/// The ledger after a transfer: the sender's leaf is written, then, if it is
/// another account, the receiver's.
pub open spec fn ledger_after_transfer(
    ledger: Ledger,
    keys: Seq<Seq<u8>>,
    from: int,
    to: int,
    amount: u64,
) -> Ledger {
    let accounts = accounts_after_transfer(ledger.accounts, from, to, amount);
    let sender_written = leaves_after_update(
        ledger.leaves,
        keys[from],
        accounts[from].balance,
        accounts[from].nonce,
    );
    Ledger {
        accounts,
        leaves: if from == to {
            sender_written
        } else {
            leaves_after_update(sender_written, keys[to], accounts[to].balance, accounts[to].nonce)
        },
    }
}

/// The deposits before any was looked at.
pub open spec fn deposits_not_begun(start: Ledger) -> DepositRun {
    DepositRun { ledger: start, ids: Seq::empty(), complete: true, overflow: false }
}

/// The state after the first `n` deposits, in order. A deposit to an address
/// that the batch does not have ends the run; so does a credit that would
/// overflow. Every other deposit is credited and its id recorded.
pub open spec fn deposit_run(
    addresses: Seq<String>,
    keys: Seq<Seq<u8>>,
    start: Ledger,
    deposits: Seq<DepositInfo>,
    n: nat,
) -> DepositRun
    decreases n,
{
    if n == 0 {
        deposits_not_begun(start)
    } else {
        let prev = deposit_run(addresses, keys, start, deposits, (n - 1) as nat);
        let deposit = deposits[n - 1];
        if !prev.complete || prev.overflow {
            prev
        } else {
            match account_index(addresses, deposit.user@) {
                None => DepositRun {
                    ledger: prev.ledger,
                    ids: prev.ids,
                    complete: false,
                    overflow: false,
                },
                Some(idx) => if deposit_overflows(prev.ledger.accounts, idx, deposit.amount) {
                    DepositRun {
                        ledger: prev.ledger,
                        ids: prev.ids,
                        complete: true,
                        overflow: true,
                    }
                } else {
                    DepositRun {
                        ledger: ledger_after_deposit(prev.ledger, keys, idx, deposit.amount),
                        ids: prev.ids.push(deposit.deposit_id),
                        complete: true,
                        overflow: false,
                    }
                },
            }
        }
    }
}

/// The transfers before any was looked at.
pub open spec fn transfers_not_begun(start: Ledger) -> TransferRun {
    TransferRun { ledger: start, processed: 0, stopped: false, overflow: false }
}

/// The state after the first `n` transfers, in order. A transfer whose sender
/// or receiver the batch does not have, or that is not valid for the sender's
/// account as it then is, ends the run; so does one that would overflow.
/// Every other transfer is applied and counted.
pub open spec fn transfer_run(
    addresses: Seq<String>,
    keys: Seq<Seq<u8>>,
    start: Ledger,
    transactions: Seq<Transaction>,
    n: nat,
) -> TransferRun
    decreases n,
{
    if n == 0 {
        transfers_not_begun(start)
    } else {
        let prev = transfer_run(addresses, keys, start, transactions, (n - 1) as nat);
        let tx = transactions[n - 1];
        if prev.stopped || prev.overflow {
            prev
        } else {
            match (account_index(addresses, tx.from@), account_index(addresses, tx.to@)) {
                (Some(from), Some(to)) => if !transfer_valid(
                    prev.ledger.accounts,
                    from,
                    tx.amount,
                    tx.nonce,
                ) {
                    TransferRun {
                        ledger: prev.ledger,
                        processed: prev.processed,
                        stopped: true,
                        overflow: false,
                    }
                } else if transfer_overflows(prev.ledger.accounts, from, to, tx.amount) {
                    TransferRun {
                        ledger: prev.ledger,
                        processed: prev.processed,
                        stopped: false,
                        overflow: true,
                    }
                } else {
                    TransferRun {
                        ledger: ledger_after_transfer(prev.ledger, keys, from, to, tx.amount),
                        processed: prev.processed + 1,
                        stopped: false,
                        overflow: false,
                    }
                },
                _ => TransferRun {
                    ledger: prev.ledger,
                    processed: prev.processed,
                    stopped: true,
                    overflow: false,
                },
            }
        }
    }
}

/// The transfer is signed by its sender: the signature recovers to `from`,
/// and the signer's address that it names is `from` too, case aside.
pub open spec fn transaction_authorized(tx: Transaction) -> bool {
    signature_binds_sender(tx) && same_ignoring_case(tx.signature.pub_key@, tx.from@)
}

/// Every transfer of the list is signed by its sender.
pub open spec fn all_authorized(transactions: Seq<Transaction>) -> bool {
    forall|i: int| 0 <= i < transactions.len() ==> transaction_authorized(#[trigger] transactions[i])
}

/// A root as the batch declares it: `0x` and 64 lowercase hex digits.
pub open spec fn root_text(root: Seq<u8>) -> Seq<char> {
    prefix_0x() + hex_text(root)
}

/// The first 32 of the bytes or, of fewer, the bytes behind as many zeros as
/// make 32.
pub open spec fn left_padded_32(bytes: Seq<u8>) -> Seq<u8> {
    if bytes.len() >= 32 {
        bytes.subrange(0, 32)
    } else {
        Seq::new((32 - bytes.len()) as nat, |i: int| 0u8) + bytes
    }
}

/// The ledger that a batch starts from: its accounts, and the tree built of
/// them.
pub open spec fn batch_start(batch: Batch) -> Ledger {
    Ledger {
        accounts: batch.leaf_data@,
        leaves: bootstrap_leaves(
            address_keys(batch.addresses@),
            batch.leaf_data@,
            batch.addresses@.len(),
        ),
    }
}

/// How far the deposits of a batch get. They are not begun unless every
/// transfer is signed by its sender.
pub open spec fn batch_deposits(batch: Batch) -> DepositRun {
    if all_authorized(batch.transactions@) {
        deposit_run(
            batch.addresses@,
            address_keys(batch.addresses@),
            batch_start(batch),
            batch.deposits@,
            batch.deposits@.len(),
        )
    } else {
        deposits_not_begun(batch_start(batch))
    }
}

/// How far the transfers of a batch get. They are not begun unless every
/// transfer is signed by its sender and every deposit found its account.
pub open spec fn batch_transfers(batch: Batch) -> TransferRun {
    if all_authorized(batch.transactions@) && batch_deposits(batch).complete {
        transfer_run(
            batch.addresses@,
            address_keys(batch.addresses@),
            batch_deposits(batch).ledger,
            batch.transactions@,
            batch.transactions@.len(),
        )
    } else {
        transfers_not_begun(batch_deposits(batch).ledger)
    }
}

/// Whether the outcome of a batch counts as a success: both roots are the
/// declared ones, every transfer is signed by its sender, every deposit found
/// its account and every transfer was applied.
pub open spec fn batch_succeeds(batch: Batch) -> bool {
    &&& root_text(root_of(batch_start(batch).leaves)) == batch.old_merkle_root@
    &&& root_text(root_of(batch_transfers(batch).ledger.leaves)) == batch.new_merkle_root@
    &&& all_authorized(batch.transactions@)
    &&& batch_deposits(batch).complete
    &&& batch_transfers(batch).processed == batch.transactions@.len()
}

/// The outcome of a batch, or why there is none.
///
/// The batch must have one account per address, and addresses of 40 hex
/// digits. An overflow of a balance or a nonce ends the transition without an
/// outcome. Otherwise the outcome holds the roots before and after, the count
/// of the transfers that were applied and the ids of the deposits that were
/// credited.
pub open spec fn batch_outcome(batch: Batch) -> Result<CommitModel, StfError> {
    if batch.leaf_data@.len() != batch.addresses@.len() {
        Err(StfError::LengthMismatch)
    } else if !addresses_valid(batch.addresses@) {
        Err(StfError::InvalidAddress)
    } else if batch_deposits(batch).overflow || batch_transfers(batch).overflow {
        Err(StfError::Overflow)
    } else {
        Ok(
            CommitModel {
                success: batch_succeeds(batch),
                old_root: root_of(batch_start(batch).leaves),
                new_root: root_of(batch_transfers(batch).ledger.leaves),
                badge_id: batch.badge_id,
                transactions_processed: batch_transfers(batch).processed as u32,
                processed_deposit_ids: batch_deposits(batch).ids,
            },
        )
    }
}

/// The keys as byte strings, by index.
pub open spec fn key_views(keys: Seq<[u8; 32]>) -> Seq<Seq<u8>> {
    Seq::new(keys.len(), |i: int| keys[i]@)
}

/// Once the deposits have ended early, later deposits change nothing.
pub proof fn lemma_deposit_run_stays(
    addresses: Seq<String>,
    keys: Seq<Seq<u8>>,
    start: Ledger,
    deposits: Seq<DepositInfo>,
    i: nat,
    n: nat,
)
    requires
        i <= n,
        !deposit_run(addresses, keys, start, deposits, i).complete || deposit_run(
            addresses,
            keys,
            start,
            deposits,
            i,
        ).overflow,
    ensures
        deposit_run(addresses, keys, start, deposits, n) == deposit_run(
            addresses,
            keys,
            start,
            deposits,
            i,
        ),
    decreases n,
{
    if i < n {
        lemma_deposit_run_stays(addresses, keys, start, deposits, i, (n - 1) as nat);
    }
}

/// Once the transfers have ended early, later transfers change nothing.
pub proof fn lemma_transfer_run_stays(
    addresses: Seq<String>,
    keys: Seq<Seq<u8>>,
    start: Ledger,
    transactions: Seq<Transaction>,
    i: nat,
    n: nat,
)
    requires
        i <= n,
        transfer_run(addresses, keys, start, transactions, i).stopped || transfer_run(
            addresses,
            keys,
            start,
            transactions,
            i,
        ).overflow,
    ensures
        transfer_run(addresses, keys, start, transactions, n) == transfer_run(
            addresses,
            keys,
            start,
            transactions,
            i,
        ),
    decreases n,
{
    if i < n {
        lemma_transfer_run_stays(addresses, keys, start, transactions, i, (n - 1) as nat);
    }
}

/// Reads up to 32 bytes of hex into an array of 32: longer input is cut
/// after 32 bytes, shorter input is padded with zeros on the left.
pub fn hex_to_bytes32_array(hex_str: &str) -> (out: [u8; 32])
    requires
        is_hex_pairs(strip_0x(hex_str.spec_bytes())),
    ensures
        out@ == left_padded_32(hex_pairs_value(strip_0x(hex_str.spec_bytes()))),
{
    let bytes = hex_to_bytes(hex_str).unwrap();
    let mut result = [0u8; 32];
    let len = bytes.len();
    let skip: usize = if len >= 32 {
        0
    } else {
        32 - len
    };
    let mut i: usize = skip;
    while i < 32
        invariant
            skip <= i <= 32,
            len == bytes@.len(),
            skip == (if len >= 32 {
                0
            } else {
                32 - len
            }),
            forall|k: int| 0 <= k < skip ==> result@[k] == 0u8,
            forall|k: int| skip <= k < i ==> result@[k] == bytes@[k - skip],
        decreases 32 - i,
    {
        result[i] = bytes[i - skip];
        i += 1;
    }
    assert(result@ =~= left_padded_32(bytes@));
    result
}

/// Builds the tree of a batch: one leaf per address, under the key of the
/// address, from the account at the same index.
pub fn bootstrap_tree(addresses: &Vec<String>, leaf_data: &Vec<LeafData>) -> (r: Result<
    (SMT, Vec<[u8; 32]>),
    StfError,
>)
    ensures
        match r {
            Ok((tree, keys)) => {
                &&& leaf_data@.len() == addresses@.len()
                &&& addresses_valid(addresses@)
                &&& keys@.len() == addresses@.len()
                &&& key_views(keys@) == address_keys(addresses@)
                &&& tree.leaves() == bootstrap_leaves(
                    address_keys(addresses@),
                    leaf_data@,
                    addresses@.len(),
                )
            },
            Err(e) => if leaf_data@.len() != addresses@.len() {
                e == StfError::LengthMismatch
            } else {
                e == StfError::InvalidAddress && !addresses_valid(addresses@)
            },
        },
{
    if leaf_data.len() != addresses.len() {
        return Err(StfError::LengthMismatch);
    }
    let mut tree = new_smt();
    let mut keys: Vec<[u8; 32]> = Vec::new();
    let mut i: usize = 0;
    while i < addresses.len()
        invariant
            i <= addresses@.len(),
            leaf_data@.len() == addresses@.len(),
            keys@.len() == i,
            forall|k: int| 0 <= k < i ==> (#[trigger] address_key(addresses@[k]@)) is Some,
            forall|k: int| 0 <= k < i ==> (#[trigger] keys@[k])@ == address_key(addresses@[k]@).unwrap(),
            tree.leaves() == bootstrap_leaves(address_keys(addresses@), leaf_data@, i as nat),
        decreases addresses@.len() - i,
    {
        let address_bytes = match hex_to_address(addresses[i].as_str()) {
            Ok(bytes) => bytes,
            Err(_) => {
                assert(address_key(addresses@[i as int]@) is None);
                return Err(StfError::InvalidAddress);
            },
        };
        let key = address_to_tree_key(&address_bytes);
        assert(key@ == address_key(addresses@[i as int]@).unwrap());
        let account = leaf_data[i];
        update(&mut tree, key, AccountData { balance: account.balance, nonce: account.nonce });
        keys.push(key);
        i += 1;
    }
    assert(key_views(keys@) =~= address_keys(addresses@));
    Ok((tree, keys))
}

/// Checks that every transfer is signed by its sender; the first one that is
/// not settles the answer.
pub fn verify_signatures(transactions: &Vec<Transaction>) -> (ok: bool)
    ensures
        ok == all_authorized(transactions@),
{
    let mut i: usize = 0;
    while i < transactions.len()
        invariant
            i <= transactions@.len(),
            forall|k: int| 0 <= k < i ==> transaction_authorized(#[trigger] transactions@[k]),
        decreases transactions@.len() - i,
    {
        let tx = &transactions[i];
        if !verify_metamask_signature(tx) {
            return false;
        }
        if !eq_ignoring_case(tx.signature.pub_key.as_str(), tx.from.as_str()) {
            return false;
        }
        i += 1;
    }
    true
}

/// Applies the deposits in order, to the accounts and to the tree.
///
/// Gives whether every deposit found its account, and the ids of those that
/// were credited. The first deposit to a missing address ends the run. A
/// credit that would overflow gives the overflow error.
pub fn process_deposits(
    tree: &mut SMT,
    accounts: &mut Vec<LeafData>,
    keys: &Vec<[u8; 32]>,
    addresses: &Vec<String>,
    deposits: &Vec<DepositInfo>,
) -> (r: Result<(bool, Vec<u64>), StfError>)
    requires
        old(accounts)@.len() == addresses@.len(),
        keys@.len() == addresses@.len(),
    ensures
        final(accounts)@.len() == addresses@.len(),
        ({
            let run = deposit_run(
                addresses@,
                key_views(keys@),
                Ledger { accounts: old(accounts)@, leaves: old(tree).leaves() },
                deposits@,
                deposits@.len(),
            );
            match r {
                Ok((complete, ids)) => {
                    &&& !run.overflow
                    &&& complete == run.complete
                    &&& ids@ == run.ids
                    &&& final(accounts)@ == run.ledger.accounts
                    &&& final(tree).leaves() == run.ledger.leaves
                },
                Err(e) => e == StfError::Overflow && run.overflow,
            }
        }),
{
    let ghost start = Ledger { accounts: accounts@, leaves: tree.leaves() };
    let ghost key_seq = key_views(keys@);
    let mut ids: Vec<u64> = Vec::new();
    let mut i: usize = 0;
    while i < deposits.len()
        invariant
            i <= deposits@.len(),
            accounts@.len() == addresses@.len(),
            keys@.len() == addresses@.len(),
            key_seq == key_views(keys@),
            start == (Ledger { accounts: old(accounts)@, leaves: old(tree).leaves() }),
            deposit_run(addresses@, key_seq, start, deposits@, i as nat).complete,
            !deposit_run(addresses@, key_seq, start, deposits@, i as nat).overflow,
            deposit_run(addresses@, key_seq, start, deposits@, i as nat).ids == ids@,
            deposit_run(addresses@, key_seq, start, deposits@, i as nat).ledger.accounts
                == accounts@,
            deposit_run(addresses@, key_seq, start, deposits@, i as nat).ledger.leaves
                == tree.leaves(),
        decreases deposits@.len() - i,
    {
        let deposit = &deposits[i];
        let ghost next = deposit_run(addresses@, key_seq, start, deposits@, (i + 1) as nat);
        proof {
            lemma_account_index_from(addresses@, deposit.user@, 0);
        }
        match find_account_index(addresses.as_slice(), deposit.user.as_str()) {
            None => {
                proof {
                    lemma_deposit_run_stays(
                        addresses@,
                        key_seq,
                        start,
                        deposits@,
                        (i + 1) as nat,
                        deposits@.len(),
                    );
                }
                return Ok((false, ids));
            },
            Some(idx) => {
                match apply_deposit(accounts, idx, deposit.amount) {
                    Err(e) => {
                        proof {
                            lemma_deposit_run_stays(
                                addresses@,
                                key_seq,
                                start,
                                deposits@,
                                (i + 1) as nat,
                                deposits@.len(),
                            );
                        }
                        return Err(e);
                    },
                    Ok(_) => {
                        let account = accounts[idx];
                        update(
                            tree,
                            keys[idx],
                            AccountData { balance: account.balance, nonce: account.nonce },
                        );
                        ids.push(deposit.deposit_id);
                    },
                }
            },
        }
        i += 1;
    }
    Ok((true, ids))
}

/// Applies the transfers in order, to the accounts and to the tree, and
/// counts them.
///
/// The first transfer that names a missing address, that the sender cannot
/// pay or that does not carry the sender's nonce ends the run. A transfer
/// that would overflow a nonce or a balance gives the overflow error.
pub fn process_transfers(
    tree: &mut SMT,
    accounts: &mut Vec<LeafData>,
    keys: &Vec<[u8; 32]>,
    addresses: &Vec<String>,
    transactions: &Vec<Transaction>,
) -> (r: Result<usize, StfError>)
    requires
        old(accounts)@.len() == addresses@.len(),
        keys@.len() == addresses@.len(),
    ensures
        final(accounts)@.len() == addresses@.len(),
        ({
            let run = transfer_run(
                addresses@,
                key_views(keys@),
                Ledger { accounts: old(accounts)@, leaves: old(tree).leaves() },
                transactions@,
                transactions@.len(),
            );
            match r {
                Ok(processed) => {
                    &&& !run.overflow
                    &&& processed == run.processed
                    &&& final(accounts)@ == run.ledger.accounts
                    &&& final(tree).leaves() == run.ledger.leaves
                },
                Err(e) => e == StfError::Overflow && run.overflow,
            }
        }),
{
    let ghost start = Ledger { accounts: accounts@, leaves: tree.leaves() };
    let ghost key_seq = key_views(keys@);
    let mut i: usize = 0;
    while i < transactions.len()
        invariant
            i <= transactions@.len(),
            accounts@.len() == addresses@.len(),
            keys@.len() == addresses@.len(),
            key_seq == key_views(keys@),
            start == (Ledger { accounts: old(accounts)@, leaves: old(tree).leaves() }),
            !transfer_run(addresses@, key_seq, start, transactions@, i as nat).stopped,
            !transfer_run(addresses@, key_seq, start, transactions@, i as nat).overflow,
            transfer_run(addresses@, key_seq, start, transactions@, i as nat).processed == i,
            transfer_run(addresses@, key_seq, start, transactions@, i as nat).ledger.accounts
                == accounts@,
            transfer_run(addresses@, key_seq, start, transactions@, i as nat).ledger.leaves
                == tree.leaves(),
        decreases transactions@.len() - i,
    {
        let tx = &transactions[i];
        proof {
            lemma_account_index_from(addresses@, tx.from@, 0);
            lemma_account_index_from(addresses@, tx.to@, 0);
        }
        let from_idx = find_account_index(addresses.as_slice(), tx.from.as_str());
        let to_idx = find_account_index(addresses.as_slice(), tx.to.as_str());
        let applied = match (from_idx, to_idx) {
            (Some(from_idx), Some(to_idx)) => {
                match apply_transfer(accounts, from_idx, to_idx, tx.amount, tx.nonce) {
                    Err(e) => {
                        proof {
                            lemma_transfer_run_stays(
                                addresses@,
                                key_seq,
                                start,
                                transactions@,
                                (i + 1) as nat,
                                transactions@.len(),
                            );
                        }
                        return Err(e);
                    },
                    Ok(false) => false,
                    Ok(true) => {
                        let sender = accounts[from_idx];
                        update(
                            tree,
                            keys[from_idx],
                            AccountData { balance: sender.balance, nonce: sender.nonce },
                        );
                        if from_idx != to_idx {
                            let receiver = accounts[to_idx];
                            update(
                                tree,
                                keys[to_idx],
                                AccountData { balance: receiver.balance, nonce: receiver.nonce },
                            );
                        }
                        true
                    },
                }
            },
            _ => false,
        };
        if !applied {
            proof {
                lemma_transfer_run_stays(
                    addresses@,
                    key_seq,
                    start,
                    transactions@,
                    (i + 1) as nat,
                    transactions@.len(),
                );
            }
            return Ok(i);
        }
        i += 1;
    }
    Ok(i)
}

/// What the transition leaves behind: the outcome, and the tree and the
/// accounts that it ended with.
pub struct Execution {
    pub commit: Commit,
    pub tree: SMT,
    pub accounts: Vec<LeafData>,
    pub signatures_verified: bool,
    pub deposits_processed: bool,
}

/// Runs the state transition of a batch.
///
/// The declared roots are not trusted: they are compared with what the tree
/// gives before and after. A batch without one account per address, or with
/// an address that is not 40 hex digits, is refused; an overflow of a balance
/// or a nonce ends the transition with an error.
pub fn execute_batch(batch: &Batch) -> (r: Result<Execution, StfError>)
    ensures
        match r {
            Ok(done) => {
                &&& batch_outcome(*batch) == Ok::<CommitModel, StfError>(done.commit@)
                &&& done.signatures_verified == all_authorized(batch.transactions@)
                &&& done.deposits_processed == batch_deposits(*batch).complete
                &&& done.accounts@ == batch_transfers(*batch).ledger.accounts
                &&& done.tree.leaves() == batch_transfers(*batch).ledger.leaves
            },
            Err(e) => batch_outcome(*batch) == Err::<CommitModel, StfError>(e),
        },
{
    let (mut tree, keys) = match bootstrap_tree(&batch.addresses, &batch.leaf_data) {
        Ok(built) => built,
        Err(e) => {
            return Err(e);
        },
    };
    let old_root = root(&tree);
    let computed_old_root = h256_to_hex(&old_root);
    let old_root_verified = computed_old_root == batch.old_merkle_root;

    let signatures_verified = verify_signatures(&batch.transactions);

    let mut accounts = batch.leaf_data.clone();
    assert(accounts@ =~= batch.leaf_data@);
    let mut deposits_processed = true;
    let mut processed_deposit_ids: Vec<u64> = Vec::new();
    if signatures_verified {
        match process_deposits(&mut tree, &mut accounts, &keys, &batch.addresses, &batch.deposits) {
            Ok((complete, ids)) => {
                deposits_processed = complete;
                processed_deposit_ids = ids;
            },
            Err(e) => {
                return Err(e);
            },
        }
    }
    let mut transactions_processed: usize = 0;
    if signatures_verified && deposits_processed {
        match process_transfers(
            &mut tree,
            &mut accounts,
            &keys,
            &batch.addresses,
            &batch.transactions,
        ) {
            Ok(count) => {
                transactions_processed = count;
            },
            Err(e) => {
                return Err(e);
            },
        }
    }
    let new_root = root(&tree);
    let computed_new_root = h256_to_hex(&new_root);
    let new_root_verified = computed_new_root == batch.new_merkle_root;

    let success = old_root_verified && new_root_verified && signatures_verified
        && deposits_processed && transactions_processed == batch.transactions.len();

    proof {
        lemma_prefixed_hex_round_trip(old_root@);
        lemma_prefixed_hex_round_trip(new_root@);
    }
    let old_root_bytes = hex_to_bytes32_array(computed_old_root.as_str());
    let new_root_bytes = hex_to_bytes32_array(computed_new_root.as_str());
    assert(old_root_bytes@ =~= old_root@);
    assert(new_root_bytes@ =~= new_root@);

    let commit = Commit {
        success,
        old_root: old_root_bytes,
        new_root: new_root_bytes,
        badge_id: batch.badge_id,
        transactions_processed: #[verifier::truncate]
        (transactions_processed as u32),
        processed_deposit_ids,
    };
    Ok(Execution { commit, tree, accounts, signatures_verified, deposits_processed })
}

} // verus!
