//! The rules by which deposits and transfers change account records, and the
//! lookup of an account by its address.

use crate::batch::LeafData;
use crate::text::eq_ignoring_case;
use crate::text::same_ignoring_case;
use vstd::prelude::*;

verus! {

/// Why the state transition gives up without an outcome.
#[derive(Clone, Copy, Debug, PartialEq, Eq, Structural)]
pub enum StfError {
    /// The batch has not one account record per address.
    LengthMismatch,
    /// An address of the batch is not 40 hex digits.
    InvalidAddress,
    /// A balance or a nonce would pass the largest 64-bit number.
    Overflow,
}

/// The first index from `start` on whose address equals `target`, case aside.
pub open spec fn account_index_from(
    addresses: Seq<String>,
    target: Seq<char>,
    start: int,
) -> Option<int>
    decreases addresses.len() - start,
{
    if start < 0 || start >= addresses.len() {
        None
    } else if same_ignoring_case(addresses[start]@, target) {
        Some(start)
    } else {
        account_index_from(addresses, target, start + 1)
    }
}

/// The first index whose address equals `target`, case aside.
pub open spec fn account_index(addresses: Seq<String>, target: Seq<char>) -> Option<int> {
    account_index_from(addresses, target, 0)
}

/// What `account_index_from` finds is the first match at or after `start`.
pub proof fn lemma_account_index_from(addresses: Seq<String>, target: Seq<char>, start: int)
    requires
        0 <= start,
    ensures
        match account_index_from(addresses, target, start) {
            Some(i) => {
                &&& start <= i < addresses.len()
                &&& same_ignoring_case(addresses[i]@, target)
                &&& forall|j: int| start <= j < i ==> !same_ignoring_case(addresses[j]@, target)
            },
            None => forall|j: int|
                start <= j < addresses.len() ==> !same_ignoring_case(addresses[j]@, target),
        },
    decreases addresses.len() - start,
{
    if start < addresses.len() && !same_ignoring_case(addresses[start]@, target) {
        lemma_account_index_from(addresses, target, start + 1);
    }
}

/// Finds the account of an address: the first index whose address equals it,
/// case aside.
pub fn find_account_index(addresses: &[String], target_address: &str) -> (found: Option<usize>)
    ensures
        match found {
            Some(i) => account_index(addresses@, target_address@) == Some(i as int),
            None => account_index(addresses@, target_address@) is None,
        },
{
    let mut i: usize = 0;
    while i < addresses.len()
        invariant
            i <= addresses@.len(),
            account_index(addresses@, target_address@) == account_index_from(
                addresses@,
                target_address@,
                i as int,
            ),
        decreases addresses@.len() - i,
    {
        if eq_ignoring_case(addresses[i].as_str(), target_address) {
            return Some(i);
        }
        i += 1;
    }
    None
}

/// The sum of all balances.
pub open spec fn total_balance(accounts: Seq<LeafData>) -> int
    decreases accounts.len(),
{
    if accounts.len() == 0 {
        0
    } else {
        total_balance(accounts.drop_last()) + accounts.last().balance
    }
}

/// The credit would pass the largest balance.
pub open spec fn deposit_overflows(accounts: Seq<LeafData>, idx: int, amount: u64) -> bool {
    accounts[idx].balance + amount > u64::MAX
}

/// The accounts after `amount` is credited to the account at `idx`.
pub open spec fn accounts_after_deposit(accounts: Seq<LeafData>, idx: int, amount: u64) -> Seq<
    LeafData,
> {
    accounts.update(
        idx,
        LeafData { balance: (accounts[idx].balance + amount) as u64, nonce: accounts[idx].nonce },
    )
}

/// The sender can pay the amount and the transfer carries the sender's nonce.
pub open spec fn transfer_valid(accounts: Seq<LeafData>, from: int, amount: u64, nonce: u64) -> bool {
    accounts[from].balance >= amount && accounts[from].nonce == nonce
}

/// The sender's nonce or the receiver's balance would pass the largest number.
pub open spec fn transfer_overflows(accounts: Seq<LeafData>, from: int, to: int, amount: u64) -> bool {
    accounts[from].nonce == u64::MAX || (from != to && accounts[to].balance + amount > u64::MAX)
}

/// The accounts after a transfer. The sender's nonce goes up by one. Between
/// two accounts the amount moves from the sender to the receiver; a transfer
/// to oneself leaves the balance as it is.
pub open spec fn accounts_after_transfer(
    accounts: Seq<LeafData>,
    from: int,
    to: int,
    amount: u64,
) -> Seq<LeafData> {
    if from == to {
        accounts.update(
            from,
            LeafData { balance: accounts[from].balance, nonce: (accounts[from].nonce + 1) as u64 },
        )
    } else {
        accounts.update(
            from,
            LeafData {
                balance: (accounts[from].balance - amount) as u64,
                nonce: (accounts[from].nonce + 1) as u64,
            },
        ).update(
            to,
            LeafData {
                balance: (accounts[to].balance + amount) as u64,
                nonce: accounts[to].nonce,
            },
        )
    }
}

/// Replacing one account changes the sum by the difference of the balances.
pub proof fn lemma_total_balance_update(accounts: Seq<LeafData>, idx: int, account: LeafData)
    requires
        0 <= idx < accounts.len(),
    ensures
        total_balance(accounts.update(idx, account)) == total_balance(accounts)
            - accounts[idx].balance + account.balance,
    decreases accounts.len(),
{
    let updated = accounts.update(idx, account);
    if idx == accounts.len() - 1 {
        assert(updated.drop_last() =~= accounts.drop_last());
    } else {
        assert(updated.drop_last() =~= accounts.drop_last().update(idx, account));
        lemma_total_balance_update(accounts.drop_last(), idx, account);
    }
}

/// A deposit raises the sum of all balances by exactly its amount.
pub proof fn lemma_deposit_adds_amount(accounts: Seq<LeafData>, idx: int, amount: u64)
    requires
        0 <= idx < accounts.len(),
        !deposit_overflows(accounts, idx, amount),
    ensures
        total_balance(accounts_after_deposit(accounts, idx, amount)) == total_balance(accounts)
            + amount,
{
    lemma_total_balance_update(
        accounts,
        idx,
        LeafData { balance: (accounts[idx].balance + amount) as u64, nonce: accounts[idx].nonce },
    );
}

/// A transfer leaves the sum of all balances as it was: what the sender loses
/// the receiver gains.
pub proof fn lemma_transfer_conserves_total(
    accounts: Seq<LeafData>,
    from: int,
    to: int,
    amount: u64,
    nonce: u64,
)
    requires
        0 <= from < accounts.len(),
        0 <= to < accounts.len(),
        transfer_valid(accounts, from, amount, nonce),
        !transfer_overflows(accounts, from, to, amount),
    ensures
        total_balance(accounts_after_transfer(accounts, from, to, amount)) == total_balance(
            accounts,
        ),
        from != to ==> accounts[from].balance - accounts_after_transfer(
            accounts,
            from,
            to,
            amount,
        )[from].balance == accounts_after_transfer(accounts, from, to, amount)[to].balance
            - accounts[to].balance,
{
    if from == to {
        lemma_total_balance_update(
            accounts,
            from,
            LeafData { balance: accounts[from].balance, nonce: (accounts[from].nonce + 1) as u64 },
        );
    } else {
        let sender = LeafData {
            balance: (accounts[from].balance - amount) as u64,
            nonce: (accounts[from].nonce + 1) as u64,
        };
        let receiver = LeafData {
            balance: (accounts[to].balance + amount) as u64,
            nonce: accounts[to].nonce,
        };
        lemma_total_balance_update(accounts, from, sender);
        lemma_total_balance_update(accounts.update(from, sender), to, receiver);
    }
}

/// A transfer raises the sender's nonce by exactly one, also when sender and
/// receiver are the same account, and changes no other account's nonce.
pub proof fn lemma_transfer_bumps_sender_nonce(
    accounts: Seq<LeafData>,
    from: int,
    to: int,
    amount: u64,
    nonce: u64,
)
    requires
        0 <= from < accounts.len(),
        0 <= to < accounts.len(),
        transfer_valid(accounts, from, amount, nonce),
        !transfer_overflows(accounts, from, to, amount),
    ensures
        accounts_after_transfer(accounts, from, to, amount).len() == accounts.len(),
        accounts_after_transfer(accounts, from, to, amount)[from].nonce == accounts[from].nonce + 1,
        forall|k: int|
            0 <= k < accounts.len() && k != from ==> (#[trigger] accounts_after_transfer(
                accounts,
                from,
                to,
                amount,
            )[k]).nonce == accounts[k].nonce,
{
}

/// A transfer to oneself that is valid changes nothing but the nonce: the
/// balance stays, whatever amount the transfer names.
pub proof fn lemma_self_transfer_keeps_balance(
    accounts: Seq<LeafData>,
    idx: int,
    amount: u64,
    nonce: u64,
)
    requires
        0 <= idx < accounts.len(),
        transfer_valid(accounts, idx, amount, nonce),
        !transfer_overflows(accounts, idx, idx, amount),
    ensures
        accounts_after_transfer(accounts, idx, idx, amount) == accounts.update(
            idx,
            LeafData { balance: accounts[idx].balance, nonce: (nonce + 1) as u64 },
        ),
{
}

/// A transfer of nothing to oneself is valid whenever it carries the
/// account's nonce, whatever the balance is.
pub proof fn lemma_zero_self_transfer_valid(accounts: Seq<LeafData>, idx: int)
    requires
        0 <= idx < accounts.len(),
    ensures
        transfer_valid(accounts, idx, 0, accounts[idx].nonce),
{
}

/// Credits `amount` to the account at `idx`, or reports that the balance
/// would overflow and changes nothing.
pub fn apply_deposit(accounts: &mut Vec<LeafData>, idx: usize, amount: u64) -> (r: Result<
    (),
    StfError,
>)
    requires
        idx < old(accounts)@.len(),
    ensures
        match r {
            Ok(_) => !deposit_overflows(old(accounts)@, idx as int, amount) && final(accounts)@
                == accounts_after_deposit(old(accounts)@, idx as int, amount),
            Err(e) => e == StfError::Overflow && deposit_overflows(
                old(accounts)@,
                idx as int,
                amount,
            ) && final(accounts)@ == old(accounts)@,
        },
{
    let account = accounts[idx];
    match account.balance.checked_add(amount) {
        Some(balance) => {
            accounts[idx] = LeafData { balance, nonce: account.nonce };
            Ok(())
        },
        None => Err(StfError::Overflow),
    }
}

/// Applies a transfer if the sender can pay and the nonce is the sender's.
///
/// Gives `Ok(true)` when the transfer was applied, `Ok(false)` when it is
/// not valid, and the overflow error when it is valid but a nonce or a balance
/// would overflow. Only an applied transfer changes the accounts.
pub fn apply_transfer(
    accounts: &mut Vec<LeafData>,
    from_idx: usize,
    to_idx: usize,
    amount: u64,
    nonce: u64,
) -> (r: Result<bool, StfError>)
    requires
        from_idx < old(accounts)@.len(),
        to_idx < old(accounts)@.len(),
    ensures
        final(accounts)@.len() == old(accounts)@.len(),
        total_balance(final(accounts)@) == total_balance(old(accounts)@),
        match r {
            Ok(applied) => {
                &&& applied == transfer_valid(old(accounts)@, from_idx as int, amount, nonce)
                &&& applied ==> !transfer_overflows(
                    old(accounts)@,
                    from_idx as int,
                    to_idx as int,
                    amount,
                )
                &&& final(accounts)@ == if applied {
                    accounts_after_transfer(old(accounts)@, from_idx as int, to_idx as int, amount)
                } else {
                    old(accounts)@
                }
            },
            Err(e) => {
                &&& e == StfError::Overflow
                &&& transfer_valid(old(accounts)@, from_idx as int, amount, nonce)
                &&& transfer_overflows(old(accounts)@, from_idx as int, to_idx as int, amount)
                &&& final(accounts)@ == old(accounts)@
            },
        },
{
    let sender = accounts[from_idx];
    if !(sender.balance >= amount && sender.nonce == nonce) {
        return Ok(false);
    }
    let next_nonce = match sender.nonce.checked_add(1) {
        Some(n) => n,
        None => {
            return Err(StfError::Overflow);
        },
    };
    proof {
        if !transfer_overflows(old(accounts)@, from_idx as int, to_idx as int, amount) {
            lemma_transfer_conserves_total(
                old(accounts)@,
                from_idx as int,
                to_idx as int,
                amount,
                nonce,
            );
        }
    }
    if from_idx == to_idx {
        accounts[from_idx] = LeafData { balance: sender.balance, nonce: next_nonce };
    } else {
        let receiver = accounts[to_idx];
        let credited = match receiver.balance.checked_add(amount) {
            Some(b) => b,
            None => {
                return Err(StfError::Overflow);
            },
        };
        accounts[from_idx] = LeafData { balance: sender.balance - amount, nonce: next_nonce };
        accounts[to_idx] = LeafData { balance: credited, nonce: receiver.nonce };
    }
    Ok(true)
}

} // verus!
