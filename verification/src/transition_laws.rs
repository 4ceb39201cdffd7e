//! What holds of every batch: which transfers are applied, and what deposits
//! and transfers do to the sum of all balances.

use crate::accounts::account_index;
use crate::accounts::lemma_account_index_from;
use crate::accounts::lemma_deposit_adds_amount;
use crate::accounts::lemma_transfer_conserves_total;
use crate::accounts::total_balance;
use crate::accounts::transfer_overflows;
use crate::accounts::transfer_valid;
use crate::batch::Batch;
use crate::batch::DepositInfo;
use crate::batch::Transaction;
use crate::batch::LeafData;
use crate::state_tree::leaf_digest_of;
use crate::state_tree::leaves_after_update;
use crate::state_tree::root_of;
use crate::state_tree::zero_digest;
use crate::transition::address_keys;
use crate::transition::all_authorized;
use crate::transition::batch_deposits;
use crate::transition::batch_outcome;
use crate::transition::batch_start;
use crate::transition::batch_succeeds;
use crate::transition::batch_transfers;
use crate::transition::bootstrap_leaves;
use crate::transition::deposit_run;
use crate::transition::lemma_transfer_run_stays;
use crate::transition::root_text;
use crate::transition::transfer_run;
use crate::transition::Ledger;
use vstd::prelude::*;

verus! {

/// The sum of the amounts of the first `n` deposits.
pub open spec fn deposited_amount(deposits: Seq<DepositInfo>, n: nat) -> int
    decreases n,
{
    if n == 0 {
        0
    } else {
        deposited_amount(deposits, (n - 1) as nat) + deposits[n - 1].amount
    }
}

/// Sender and receiver of transfer `k` are addresses of the list.
pub open spec fn transfer_resolves(addresses: Seq<String>, transactions: Seq<Transaction>, k: int) -> bool {
    account_index(addresses, transactions[k].from@) is Some && account_index(
        addresses,
        transactions[k].to@,
    ) is Some
}

/// Transfer `k` is valid for its sender's account as the transfers before it
/// have left it: the balance suffices and the nonce is the sender's.
pub open spec fn transfer_valid_in_turn(
    addresses: Seq<String>,
    keys: Seq<Seq<u8>>,
    start: Ledger,
    transactions: Seq<Transaction>,
    k: int,
) -> bool {
    transfer_valid(
        transfer_run(addresses, keys, start, transactions, k as nat).ledger.accounts,
        account_index(addresses, transactions[k].from@)->Some_0,
        transactions[k].amount,
        transactions[k].nonce,
    )
}

/// The accounts stay as many as they were while deposits are applied.
pub proof fn lemma_deposit_run_keeps_length(
    addresses: Seq<String>,
    keys: Seq<Seq<u8>>,
    start: Ledger,
    deposits: Seq<DepositInfo>,
    n: nat,
)
    requires
        start.accounts.len() == addresses.len(),
    ensures
        deposit_run(addresses, keys, start, deposits, n).ledger.accounts.len()
            == start.accounts.len(),
    decreases n,
{
    if n > 0 {
        lemma_deposit_run_keeps_length(addresses, keys, start, deposits, (n - 1) as nat);
        lemma_account_index_from(addresses, deposits[n - 1].user@, 0);
    }
}

/// The accounts stay as many as they were while transfers are applied, and
/// the sum of their balances stays what it was: no transfer makes or loses
/// value.
pub proof fn lemma_transfers_conserve_total(
    addresses: Seq<String>,
    keys: Seq<Seq<u8>>,
    start: Ledger,
    transactions: Seq<Transaction>,
    n: nat,
)
    requires
        start.accounts.len() == addresses.len(),
    ensures
        transfer_run(addresses, keys, start, transactions, n).ledger.accounts.len()
            == start.accounts.len(),
        total_balance(transfer_run(addresses, keys, start, transactions, n).ledger.accounts)
            == total_balance(start.accounts),
    decreases n,
{
    if n > 0 {
        let prev = transfer_run(addresses, keys, start, transactions, (n - 1) as nat);
        let tx = transactions[n - 1];
        lemma_transfers_conserve_total(addresses, keys, start, transactions, (n - 1) as nat);
        lemma_account_index_from(addresses, tx.from@, 0);
        lemma_account_index_from(addresses, tx.to@, 0);
        if !prev.stopped && !prev.overflow && account_index(addresses, tx.from@) is Some
            && account_index(addresses, tx.to@) is Some {
            let from = account_index(addresses, tx.from@)->Some_0;
            let to = account_index(addresses, tx.to@)->Some_0;
            if transfer_valid(prev.ledger.accounts, from, tx.amount, tx.nonce)
                && !transfer_overflows(prev.ledger.accounts, from, to, tx.amount) {
                lemma_transfer_conserves_total(prev.ledger.accounts, from, to, tx.amount, tx.nonce);
            }
        }
    }
}

/// Deposits that were all credited raise the sum of all balances by exactly
/// the sum of their amounts.
pub proof fn lemma_deposits_raise_total(
    addresses: Seq<String>,
    keys: Seq<Seq<u8>>,
    start: Ledger,
    deposits: Seq<DepositInfo>,
    n: nat,
)
    requires
        start.accounts.len() == addresses.len(),
        deposit_run(addresses, keys, start, deposits, n).complete,
        !deposit_run(addresses, keys, start, deposits, n).overflow,
    ensures
        total_balance(deposit_run(addresses, keys, start, deposits, n).ledger.accounts)
            == total_balance(start.accounts) + deposited_amount(deposits, n),
        deposit_run(addresses, keys, start, deposits, n).ids.len() == n,
    decreases n,
{
    if n > 0 {
        let prev = deposit_run(addresses, keys, start, deposits, (n - 1) as nat);
        let deposit = deposits[n - 1];
        lemma_deposit_run_keeps_length(addresses, keys, start, deposits, (n - 1) as nat);
        lemma_account_index_from(addresses, deposit.user@, 0);
        lemma_deposits_raise_total(addresses, keys, start, deposits, (n - 1) as nat);
        let idx = account_index(addresses, deposit.user@)->Some_0;
        lemma_deposit_adds_amount(prev.ledger.accounts, idx, deposit.amount);
    }
}

/// Deposits whose addresses are all in the list are all credited, unless a
/// balance overflows.
pub proof fn lemma_resolving_deposits_complete(
    addresses: Seq<String>,
    keys: Seq<Seq<u8>>,
    start: Ledger,
    deposits: Seq<DepositInfo>,
    n: nat,
)
    requires
        n <= deposits.len(),
        forall|i: int|
            0 <= i < deposits.len() ==> account_index(addresses, (#[trigger] deposits[i]).user@) is Some,
    ensures
        deposit_run(addresses, keys, start, deposits, n).complete,
    decreases n,
{
    if n > 0 {
        lemma_resolving_deposits_complete(addresses, keys, start, deposits, (n - 1) as nat);
        assert(account_index(addresses, deposits[n - 1].user@) is Some);
    }
}

/// Transfers that all name addresses of the list and are each valid in their
/// turn are all applied, unless a nonce or a balance overflows.
pub proof fn lemma_valid_transfers_all_applied(
    addresses: Seq<String>,
    keys: Seq<Seq<u8>>,
    start: Ledger,
    transactions: Seq<Transaction>,
    n: nat,
)
    requires
        n <= transactions.len(),
        forall|k: int|
            0 <= k < transactions.len() ==> #[trigger] transfer_resolves(addresses, transactions, k),
        forall|k: int|
            0 <= k < transactions.len() ==> #[trigger] transfer_valid_in_turn(
                addresses,
                keys,
                start,
                transactions,
                k,
            ),
        !transfer_run(addresses, keys, start, transactions, transactions.len()).overflow,
    ensures
        !transfer_run(addresses, keys, start, transactions, n).stopped,
        !transfer_run(addresses, keys, start, transactions, n).overflow,
        transfer_run(addresses, keys, start, transactions, n).processed == n,
    decreases n,
{
    if n > 0 {
        lemma_valid_transfers_all_applied(addresses, keys, start, transactions, (n - 1) as nat);
        assert(transfer_resolves(addresses, transactions, n - 1));
        assert(transfer_valid_in_turn(addresses, keys, start, transactions, n - 1));
        if transfer_run(addresses, keys, start, transactions, n).overflow {
            lemma_transfer_run_stays(addresses, keys, start, transactions, n, transactions.len());
        }
    }
}

/// If the transition of a batch has an outcome, every transfer is signed by
/// its sender, every address of a deposit or a transfer is one of the batch,
/// and every transfer is valid in its turn, then every transfer is counted as
/// applied.
pub proof fn lemma_valid_batch_applies_every_transfer(batch: Batch)
    requires
        batch_outcome(batch) is Ok,
        all_authorized(batch.transactions@),
        forall|i: int|
            0 <= i < batch.deposits@.len() ==> account_index(
                batch.addresses@,
                (#[trigger] batch.deposits@[i]).user@,
            ) is Some,
        forall|k: int|
            0 <= k < batch.transactions@.len() ==> #[trigger] transfer_resolves(
                batch.addresses@,
                batch.transactions@,
                k,
            ),
        forall|k: int|
            0 <= k < batch.transactions@.len() ==> #[trigger] transfer_valid_in_turn(
                batch.addresses@,
                address_keys(batch.addresses@),
                batch_deposits(batch).ledger,
                batch.transactions@,
                k,
            ),
    ensures
        batch_transfers(batch).processed == batch.transactions@.len(),
        batch_outcome(batch)->Ok_0.transactions_processed == batch.transactions@.len() as u32,
{
    lemma_resolving_deposits_complete(
        batch.addresses@,
        address_keys(batch.addresses@),
        batch_start(batch),
        batch.deposits@,
        batch.deposits@.len(),
    );
    lemma_valid_transfers_all_applied(
        batch.addresses@,
        address_keys(batch.addresses@),
        batch_deposits(batch).ledger,
        batch.transactions@,
        batch.transactions@.len(),
    );
}

/// Over a whole batch that has an outcome and whose deposits were all
/// credited, the sum of all balances ends as the sum it began with and the
/// sum of the deposits' amounts: transfers add nothing to it.
pub proof fn lemma_batch_total(batch: Batch)
    requires
        batch_outcome(batch) is Ok,
        all_authorized(batch.transactions@),
        batch_deposits(batch).complete,
    ensures
        total_balance(batch_transfers(batch).ledger.accounts) == total_balance(batch.leaf_data@)
            + deposited_amount(batch.deposits@, batch.deposits@.len()),
        batch_outcome(batch)->Ok_0.processed_deposit_ids.len() == batch.deposits@.len(),
{
    let addresses = batch.addresses@;
    let keys = address_keys(addresses);
    lemma_deposits_raise_total(
        addresses,
        keys,
        batch_start(batch),
        batch.deposits@,
        batch.deposits@.len(),
    );
    lemma_deposit_run_keeps_length(
        addresses,
        keys,
        batch_start(batch),
        batch.deposits@,
        batch.deposits@.len(),
    );
    lemma_transfers_conserve_total(
        addresses,
        keys,
        batch_deposits(batch).ledger,
        batch.transactions@,
        batch.transactions@.len(),
    );
}

/// A batch without transfers needs no signature: its outcome succeeds as soon
/// as both roots are the declared ones and every deposit found its account.
pub proof fn lemma_batch_without_transfers(batch: Batch)
    requires
        batch.transactions@.len() == 0,
    ensures
        all_authorized(batch.transactions@),
        batch_transfers(batch).processed == 0,
        batch_transfers(batch).ledger == batch_deposits(batch).ledger,
        batch_succeeds(batch) == (root_text(root_of(batch_start(batch).leaves))
            == batch.old_merkle_root@ && root_text(root_of(batch_deposits(batch).ledger.leaves))
            == batch.new_merkle_root@ && batch_deposits(batch).complete),
{
}

/// Transfers are judged on the accounts as the deposits have left them: the
/// first transfer of a batch is applied exactly if its sender, with every
/// deposit credited, can pay it and it carries the sender's nonce.
pub proof fn lemma_first_transfer_sees_deposits(batch: Batch)
    requires
        batch_outcome(batch) is Ok,
        all_authorized(batch.transactions@),
        batch_deposits(batch).complete,
        batch.transactions@.len() > 0,
        transfer_resolves(batch.addresses@, batch.transactions@, 0),
    ensures
        batch_transfers(batch).processed >= 1 <==> transfer_valid(
            batch_deposits(batch).ledger.accounts,
            account_index(batch.addresses@, batch.transactions@[0].from@)->Some_0,
            batch.transactions@[0].amount,
            batch.transactions@[0].nonce,
        ),
{
    let addresses = batch.addresses@;
    let keys = address_keys(addresses);
    let start = batch_deposits(batch).ledger;
    let txs = batch.transactions@;
    let first = transfer_run(addresses, keys, start, txs, 1);
    assert(transfer_run(addresses, keys, start, txs, 0).processed == 0);
    if first.stopped || first.overflow {
        lemma_transfer_run_stays(addresses, keys, start, txs, 1, txs.len());
    } else {
        lemma_processed_grows(addresses, keys, start, txs, 1, txs.len());
    }
}

/// The count of applied transfers never goes down.
pub proof fn lemma_processed_grows(
    addresses: Seq<String>,
    keys: Seq<Seq<u8>>,
    start: Ledger,
    transactions: Seq<Transaction>,
    i: nat,
    n: nat,
)
    requires
        i <= n,
    ensures
        transfer_run(addresses, keys, start, transactions, i).processed <= transfer_run(
            addresses,
            keys,
            start,
            transactions,
            n,
        ).processed,
    decreases n,
{
    if i < n {
        lemma_processed_grows(addresses, keys, start, transactions, i, (n - 1) as nat);
    }
}

/// No two indices have the same key.
pub open spec fn keys_distinct(keys: Seq<Seq<u8>>) -> bool {
    forall|i: int, j: int| 0 <= i < j < keys.len() ==> keys[i] != keys[j]
}

/// The tree stores exactly what a tree built anew from the accounts would
/// store.
pub open spec fn tree_mirrors_accounts(ledger: Ledger, keys: Seq<Seq<u8>>) -> bool {
    ledger.accounts.len() == keys.len() && ledger.leaves == bootstrap_leaves(
        keys,
        ledger.accounts,
        keys.len(),
    )
}

/// What a tree built from the first `n` accounts stores under one key, when
/// the keys are distinct: the account of that key, unless its digest is all
/// zeros, and nothing under a key that no account has.
proof fn lemma_bootstrap_at(keys: Seq<Seq<u8>>, accounts: Seq<LeafData>, n: nat, key: Seq<u8>)
    requires
        keys_distinct(keys),
        n <= keys.len(),
    ensures
        (forall|i: int| 0 <= i < n ==> keys[i] != key) ==> !bootstrap_leaves(
            keys,
            accounts,
            n,
        ).dom().contains(key),
        forall|i: int|
            0 <= i < n && #[trigger] keys[i] == key ==> {
                let built = bootstrap_leaves(keys, accounts, n);
                let stays = leaf_digest_of(accounts[i].balance, accounts[i].nonce) != zero_digest();
                &&& built.dom().contains(key) == stays
                &&& stays ==> built[key] == (accounts[i].balance, accounts[i].nonce)
            },
    decreases n,
{
    if n > 0 {
        lemma_bootstrap_at(keys, accounts, (n - 1) as nat, key);
    }
}

/// Writing one account to the list and to the tree keeps the tree the mirror
/// of the list.
proof fn lemma_mirror_after_write(
    keys: Seq<Seq<u8>>,
    accounts: Seq<LeafData>,
    idx: int,
    account: LeafData,
)
    requires
        keys_distinct(keys),
        accounts.len() == keys.len(),
        0 <= idx < keys.len(),
    ensures
        leaves_after_update(
            bootstrap_leaves(keys, accounts, keys.len()),
            keys[idx],
            account.balance,
            account.nonce,
        ) == bootstrap_leaves(keys, accounts.update(idx, account), keys.len()),
{
    let before = bootstrap_leaves(keys, accounts, keys.len());
    let written = leaves_after_update(before, keys[idx], account.balance, account.nonce);
    let rebuilt = bootstrap_leaves(keys, accounts.update(idx, account), keys.len());
    assert forall|key: Seq<u8>|
        #![trigger written.dom().contains(key)]
        #![trigger rebuilt.dom().contains(key)]
        written.dom().contains(key) == rebuilt.dom().contains(key) && (written.dom().contains(key)
            ==> written[key] == rebuilt[key]) by {
        lemma_bootstrap_at(keys, accounts, keys.len(), key);
        lemma_bootstrap_at(keys, accounts.update(idx, account), keys.len(), key);
        if exists|i: int| 0 <= i < keys.len() && keys[i] == key {
            let i = choose|i: int| 0 <= i < keys.len() && keys[i] == key;
            assert(keys[i] == key);
            if i != idx {
                assert(keys[idx] != key);
            }
        }
    }
    assert(written.dom() =~= rebuilt.dom());
    assert(written =~= rebuilt);
}

/// With distinct keys the tree stays the mirror of the accounts through every
/// deposit.
pub proof fn lemma_deposits_keep_mirror(
    addresses: Seq<String>,
    keys: Seq<Seq<u8>>,
    start: Ledger,
    deposits: Seq<DepositInfo>,
    n: nat,
)
    requires
        keys_distinct(keys),
        keys.len() == addresses.len(),
        tree_mirrors_accounts(start, keys),
    ensures
        tree_mirrors_accounts(deposit_run(addresses, keys, start, deposits, n).ledger, keys),
    decreases n,
{
    if n > 0 {
        let prev = deposit_run(addresses, keys, start, deposits, (n - 1) as nat);
        let deposit = deposits[n - 1];
        lemma_deposits_keep_mirror(addresses, keys, start, deposits, (n - 1) as nat);
        lemma_account_index_from(addresses, deposit.user@, 0);
        if prev.complete && !prev.overflow && account_index(addresses, deposit.user@) is Some {
            let idx = account_index(addresses, deposit.user@)->Some_0;
            let credited = LeafData {
                balance: (prev.ledger.accounts[idx].balance + deposit.amount) as u64,
                nonce: prev.ledger.accounts[idx].nonce,
            };
            lemma_mirror_after_write(keys, prev.ledger.accounts, idx, credited);
        }
    }
}

/// With distinct keys the tree stays the mirror of the accounts through every
/// transfer.
pub proof fn lemma_transfers_keep_mirror(
    addresses: Seq<String>,
    keys: Seq<Seq<u8>>,
    start: Ledger,
    transactions: Seq<Transaction>,
    n: nat,
)
    requires
        keys_distinct(keys),
        keys.len() == addresses.len(),
        tree_mirrors_accounts(start, keys),
    ensures
        tree_mirrors_accounts(transfer_run(addresses, keys, start, transactions, n).ledger, keys),
    decreases n,
{
    if n > 0 {
        let prev = transfer_run(addresses, keys, start, transactions, (n - 1) as nat);
        let tx = transactions[n - 1];
        lemma_transfers_keep_mirror(addresses, keys, start, transactions, (n - 1) as nat);
        lemma_account_index_from(addresses, tx.from@, 0);
        lemma_account_index_from(addresses, tx.to@, 0);
        if !prev.stopped && !prev.overflow && account_index(addresses, tx.from@) is Some
            && account_index(addresses, tx.to@) is Some {
            let from = account_index(addresses, tx.from@)->Some_0;
            let to = account_index(addresses, tx.to@)->Some_0;
            let accounts = prev.ledger.accounts;
            if from == to {
                let bumped = LeafData {
                    balance: accounts[from].balance,
                    nonce: (accounts[from].nonce + 1) as u64,
                };
                lemma_mirror_after_write(keys, accounts, from, bumped);
            } else {
                let sender = LeafData {
                    balance: (accounts[from].balance - tx.amount) as u64,
                    nonce: (accounts[from].nonce + 1) as u64,
                };
                let receiver = LeafData {
                    balance: (accounts[to].balance + tx.amount) as u64,
                    nonce: accounts[to].nonce,
                };
                lemma_mirror_after_write(keys, accounts, from, sender);
                lemma_mirror_after_write(keys, accounts.update(from, sender), to, receiver);
            }
        }
    }
}

/// For a batch whose addresses have distinct tree keys, the tree that the
/// transition ends with is the tree built anew from the accounts it ends
/// with: the root after is the root of the final accounts.
pub proof fn lemma_final_tree_is_tree_of_final_accounts(batch: Batch)
    requires
        batch.leaf_data@.len() == batch.addresses@.len(),
        keys_distinct(address_keys(batch.addresses@)),
    ensures
        batch_transfers(batch).ledger.leaves == bootstrap_leaves(
            address_keys(batch.addresses@),
            batch_transfers(batch).ledger.accounts,
            batch.addresses@.len(),
        ),
        root_of(batch_transfers(batch).ledger.leaves) == root_of(
            bootstrap_leaves(
                address_keys(batch.addresses@),
                batch_transfers(batch).ledger.accounts,
                batch.addresses@.len(),
            ),
        ),
{
    let addresses = batch.addresses@;
    let keys = address_keys(addresses);
    lemma_deposits_keep_mirror(
        addresses,
        keys,
        batch_start(batch),
        batch.deposits@,
        batch.deposits@.len(),
    );
    lemma_transfers_keep_mirror(
        addresses,
        keys,
        batch_deposits(batch).ledger,
        batch.transactions@,
        batch.transactions@.len(),
    );
}

} // verus!
