use k256::ecdsa::SigningKey;
use sha3::Digest;
use zk_rollup::accounts::apply_deposit;
use zk_rollup::accounts::apply_transfer;
use zk_rollup::accounts::find_account_index;
use zk_rollup::accounts::StfError;
use zk_rollup::batch::Batch;
use zk_rollup::batch::DepositInfo;
use zk_rollup::batch::LeafData;
use zk_rollup::batch::SignatureInfo;
use zk_rollup::batch::Transaction;
use zk_rollup::eth_sign::create_transaction_message;
use zk_rollup::eth_sign::hash_ethereum_message;
use zk_rollup::hexstr::bytes_to_hex;
use zk_rollup::hexstr::hex_to_address;
use zk_rollup::hexstr::hex_to_bytes;
use zk_rollup::state_tree::address_to_tree_key;
use zk_rollup::state_tree::get_simple_proof;
use zk_rollup::state_tree::h256_to_hex;
use zk_rollup::state_tree::new_smt;
use zk_rollup::state_tree::root;
use zk_rollup::state_tree::update;
use zk_rollup::state_tree::AccountData;
use zk_rollup::state_tree::SMT;
use zk_rollup::transition::bootstrap_tree;
use zk_rollup::transition::execute_batch;
use zk_rollup::transition::hex_to_bytes32_array;
use zk_rollup::transition::process_deposits;
use zk_rollup::transition::process_transfers;
use zk_rollup::transition::verify_signatures;
use zk_rollup::transition::Execution;

fn key_a() -> SigningKey {
    SigningKey::from_slice(&[0x11; 32]).unwrap()
}

fn key_b() -> SigningKey {
    SigningKey::from_slice(&[0x22; 32]).unwrap()
}

fn address_of(key: &SigningKey) -> String {
    let point = key.verifying_key().to_encoded_point(false);
    let digest = sha3::Keccak256::digest(&point.as_bytes()[1..]);
    bytes_to_hex(&digest[12..])
}

fn signed_transfer(key: &SigningKey, from: &str, to: &str, amount: u64, nonce: u64) -> Transaction {
    let message = create_transaction_message(from, to, amount, nonce);
    let digest = hash_ethereum_message(&message);
    let (signature, recovery_id) = key.sign_prehash_recoverable(&digest).unwrap();
    let mut bytes = signature.to_bytes().to_vec();
    bytes.push(27 + recovery_id.to_byte());
    Transaction {
        from: from.to_string(),
        to: to.to_string(),
        amount,
        nonce,
        signature: SignatureInfo { pub_key: from.to_string(), signature: bytes_to_hex(&bytes) },
    }
}

fn leaf(balance: u64, nonce: u64) -> LeafData {
    LeafData { balance, nonce }
}

fn tree_key(address: &str) -> [u8; 32] {
    address_to_tree_key(&hex_to_address(address).unwrap())
}

fn root_text_of(addresses: &[String], accounts: &[(u64, u64)]) -> String {
    let mut tree = new_smt();
    for (address, (balance, nonce)) in addresses.iter().zip(accounts.iter()) {
        update(&mut tree, tree_key(address), AccountData { balance: *balance, nonce: *nonce });
    }
    h256_to_hex(&root(&tree))
}

fn two_accounts() -> Vec<String> {
    vec![address_of(&key_a()), address_of(&key_b())]
}

/// A batch over A and B with 1000 each; `after` is what the declared new root
/// is computed from.
fn batch_of(
    transactions: Vec<Transaction>,
    deposits: Vec<DepositInfo>,
    after: [(u64, u64); 2],
) -> Batch {
    let addresses = two_accounts();
    Batch {
        old_merkle_root: root_text_of(&addresses, &[(1000, 0), (1000, 0)]),
        new_merkle_root: root_text_of(&addresses, &after),
        leaf_data: vec![leaf(1000, 0), leaf(1000, 0)],
        transactions,
        deposits,
        badge_id: 42,
        addresses,
    }
}

fn stored(tree: &SMT, address: &str) -> (u64, u64) {
    let found = get_simple_proof(tree, tree_key(address)).unwrap();
    (found.balance, found.nonce)
}

fn pairs(done: &Execution) -> Vec<(u64, u64)> {
    done.accounts.iter().map(|a| (a.balance, a.nonce)).collect()
}

#[test]
fn scenario_empty_batch() {
    let batch = batch_of(vec![], vec![], [(1000, 0), (1000, 0)]);
    let done = execute_batch(&batch).unwrap();
    assert!(done.commit.success);
    assert_eq!(done.commit.transactions_processed, 0);
    assert_eq!(done.commit.processed_deposit_ids, Vec::<u64>::new());
    assert_eq!(done.commit.old_root, done.commit.new_root);
    assert_eq!(done.commit.badge_id, 42);
    assert_eq!(h256_to_hex(&done.commit.old_root), batch.old_merkle_root);
    assert!(done.signatures_verified);
    assert!(done.deposits_processed);
}

#[test]
fn scenario_single_deposit() {
    let a = address_of(&key_a());
    let b = address_of(&key_b());
    let deposits = vec![DepositInfo { deposit_id: 7, user: a.clone(), amount: 500 }];
    let batch = batch_of(vec![], deposits, [(1500, 0), (1000, 0)]);
    let done = execute_batch(&batch).unwrap();
    assert_eq!(done.commit.transactions_processed, 0);
    assert_eq!(done.commit.processed_deposit_ids, vec![7]);
    assert_eq!(stored(&done.tree, &a), (1500, 0));
    assert_eq!(stored(&done.tree, &b), (1000, 0));
    assert_eq!(pairs(&done), vec![(1500, 0), (1000, 0)]);
    // No transfers and a deposit: the outcome is still a success.
    assert!(done.commit.success);
    assert_eq!(h256_to_hex(&done.commit.new_root), batch.new_merkle_root);
    assert_ne!(done.commit.old_root, done.commit.new_root);
}

#[test]
fn scenario_single_valid_transfer() {
    let a = address_of(&key_a());
    let b = address_of(&key_b());
    let tx = signed_transfer(&key_a(), &a, &b, 10, 0);
    let batch = batch_of(vec![tx], vec![], [(990, 1), (1010, 0)]);
    let done = execute_batch(&batch).unwrap();
    assert_eq!(done.commit.transactions_processed, 1);
    assert_eq!(stored(&done.tree, &a), (990, 1));
    assert_eq!(stored(&done.tree, &b), (1010, 0));
    assert_eq!(pairs(&done), vec![(990, 1), (1010, 0)]);
    assert!(done.commit.success);
    assert_eq!(done.commit.processed_deposit_ids, Vec::<u64>::new());
}

#[test]
fn scenario_self_transfer() {
    let a = address_of(&key_a());
    let tx = signed_transfer(&key_a(), &a, &a, 1, 0);
    let batch = batch_of(vec![tx], vec![], [(1000, 1), (1000, 0)]);
    let done = execute_batch(&batch).unwrap();
    assert_eq!(done.commit.transactions_processed, 1);
    assert_eq!(stored(&done.tree, &a), (1000, 1));
    assert_eq!(pairs(&done), vec![(1000, 1), (1000, 0)]);
    assert!(done.commit.success);
}

#[test]
fn scenario_bad_signature() {
    let a = address_of(&key_a());
    let b = address_of(&key_b());
    let mut tx = signed_transfer(&key_a(), &a, &b, 10, 0);
    let mut bytes = hex_to_bytes(&tx.signature.signature).unwrap();
    bytes[0] ^= 0x01;
    tx.signature.signature = bytes_to_hex(&bytes);
    let batch = batch_of(vec![tx], vec![], [(990, 1), (1010, 0)]);
    let done = execute_batch(&batch).unwrap();
    assert!(!done.commit.success);
    assert!(!done.signatures_verified);
    assert_eq!(done.commit.transactions_processed, 0);
    assert_eq!(done.commit.new_root, done.commit.old_root);
    assert_eq!(stored(&done.tree, &a), (1000, 0));
    assert_eq!(stored(&done.tree, &b), (1000, 0));
}

#[test]
fn scenario_nonce_mismatch() {
    let a = address_of(&key_a());
    let b = address_of(&key_b());
    let tx = signed_transfer(&key_a(), &a, &b, 10, 5);
    let batch = batch_of(vec![tx], vec![], [(990, 1), (1010, 0)]);
    let done = execute_batch(&batch).unwrap();
    assert_eq!(done.commit.transactions_processed, 0);
    assert_ne!(h256_to_hex(&done.commit.new_root), batch.new_merkle_root);
    assert!(!done.commit.success);
    assert!(done.signatures_verified);
    assert_eq!(pairs(&done), vec![(1000, 0), (1000, 0)]);
}

#[test]
fn self_transfer_of_nothing_only_bumps_nonce() {
    let a = address_of(&key_a());
    let tx = signed_transfer(&key_a(), &a, &a, 0, 0);
    let batch = batch_of(vec![tx], vec![], [(1000, 1), (1000, 0)]);
    let done = execute_batch(&batch).unwrap();
    assert!(done.commit.success);
    assert_eq!(done.commit.transactions_processed, 1);
    assert_eq!(pairs(&done), vec![(1000, 1), (1000, 0)]);
}

#[test]
fn self_transfer_needs_balance_and_nonce() {
    let a = address_of(&key_a());
    // The whole balance: accepted, balance unchanged.
    let all = signed_transfer(&key_a(), &a, &a, 1000, 0);
    let done = execute_batch(&batch_of(vec![all], vec![], [(1000, 1), (1000, 0)])).unwrap();
    assert!(done.commit.success);
    assert_eq!(pairs(&done), vec![(1000, 1), (1000, 0)]);
    // More than the balance: not applied.
    let too_much = signed_transfer(&key_a(), &a, &a, 1001, 0);
    let done = execute_batch(&batch_of(vec![too_much], vec![], [(1000, 1), (1000, 0)])).unwrap();
    assert!(!done.commit.success);
    assert_eq!(done.commit.transactions_processed, 0);
    assert_eq!(pairs(&done), vec![(1000, 0), (1000, 0)]);
    // A wrong nonce: not applied.
    let wrong_nonce = signed_transfer(&key_a(), &a, &a, 1, 1);
    let done = execute_batch(&batch_of(vec![wrong_nonce], vec![], [(1000, 1), (1000, 0)])).unwrap();
    assert_eq!(done.commit.transactions_processed, 0);
}

#[test]
fn deposits_come_before_transfers() {
    let a = address_of(&key_a());
    let b = address_of(&key_b());
    // A has 1000 and spends 1200, which only the deposit of 500 allows.
    let tx = signed_transfer(&key_a(), &a, &b, 1200, 0);
    let deposits = vec![DepositInfo { deposit_id: 1, user: a.clone(), amount: 500 }];
    let batch = batch_of(vec![tx], deposits, [(300, 1), (2200, 0)]);
    let done = execute_batch(&batch).unwrap();
    assert!(done.commit.success);
    assert_eq!(done.commit.transactions_processed, 1);
    assert_eq!(done.commit.processed_deposit_ids, vec![1]);
    assert_eq!(stored(&done.tree, &a), (300, 1));
    assert_eq!(stored(&done.tree, &b), (2200, 0));
}

#[test]
fn transfers_apply_in_order_and_stop_at_the_first_invalid() {
    let a = address_of(&key_a());
    let b = address_of(&key_b());
    let txs = vec![
        signed_transfer(&key_a(), &a, &b, 100, 0),
        signed_transfer(&key_b(), &b, &a, 1100, 0),
        signed_transfer(&key_a(), &a, &b, 5000, 1),
        signed_transfer(&key_a(), &a, &b, 1, 1),
    ];
    let batch = batch_of(txs, vec![], [(2000, 1), (0, 1)]);
    let done = execute_batch(&batch).unwrap();
    assert_eq!(done.commit.transactions_processed, 2);
    assert_eq!(pairs(&done), vec![(2000, 1), (0, 1)]);
    assert_eq!(stored(&done.tree, &a), (2000, 1));
    assert_eq!(stored(&done.tree, &b), (0, 1));
    // The roots are the declared ones, but not every transfer was applied.
    assert_eq!(h256_to_hex(&done.commit.new_root), batch.new_merkle_root);
    assert!(!done.commit.success);
}

#[test]
fn total_balance_is_conserved_by_transfers_and_raised_by_deposits() {
    let a = address_of(&key_a());
    let b = address_of(&key_b());
    let txs = vec![
        signed_transfer(&key_a(), &a, &b, 100, 0),
        signed_transfer(&key_b(), &b, &b, 7, 0),
        signed_transfer(&key_b(), &b, &a, 350, 1),
    ];
    let deposits = vec![
        DepositInfo { deposit_id: 1, user: a.clone(), amount: 5 },
        DepositInfo { deposit_id: 2, user: b.clone(), amount: 6 },
    ];
    let done = execute_batch(&batch_of(txs, deposits, [(0, 0), (0, 0)])).unwrap();
    let total: u64 = done.accounts.iter().map(|x| x.balance).sum();
    assert_eq!(total, 2000 + 5 + 6);
    assert_eq!(pairs(&done), vec![(1255, 1), (756, 2)]);
    assert_eq!(done.commit.transactions_processed, 3);
}

#[test]
fn deposit_to_missing_address_stops_the_deposits() {
    let a = address_of(&key_a());
    let b = address_of(&key_b());
    let stranger = "0x00000000000000000000000000000000000000ff".to_string();
    let tx = signed_transfer(&key_a(), &a, &b, 10, 0);
    let deposits = vec![
        DepositInfo { deposit_id: 1, user: a.clone(), amount: 5 },
        DepositInfo { deposit_id: 2, user: stranger, amount: 5 },
        DepositInfo { deposit_id: 3, user: b.clone(), amount: 5 },
    ];
    let done = execute_batch(&batch_of(vec![tx], deposits, [(1005, 0), (1000, 0)])).unwrap();
    assert!(!done.deposits_processed);
    assert!(!done.commit.success);
    assert_eq!(done.commit.processed_deposit_ids, vec![1]);
    assert_eq!(done.commit.transactions_processed, 0);
    assert_eq!(pairs(&done), vec![(1005, 0), (1000, 0)]);
    assert_eq!(stored(&done.tree, &a), (1005, 0));
}

#[test]
fn transfer_to_missing_address_stops_the_transfers() {
    let a = address_of(&key_a());
    let stranger = "0x00000000000000000000000000000000000000ff";
    let tx = signed_transfer(&key_a(), &a, stranger, 10, 0);
    let done = execute_batch(&batch_of(vec![tx], vec![], [(1000, 0), (1000, 0)])).unwrap();
    assert!(done.signatures_verified);
    assert_eq!(done.commit.transactions_processed, 0);
    assert!(!done.commit.success);
    assert_eq!(done.commit.old_root, done.commit.new_root);
}

#[test]
fn failed_signatures_leave_deposits_unapplied() {
    let a = address_of(&key_a());
    let b = address_of(&key_b());
    let forged = signed_transfer(&key_b(), &a, &b, 10, 0);
    let deposits = vec![DepositInfo { deposit_id: 9, user: a.clone(), amount: 5 }];
    let done = execute_batch(&batch_of(vec![forged], deposits, [(1005, 0), (1000, 0)])).unwrap();
    assert!(!done.signatures_verified);
    assert!(!done.commit.success);
    assert_eq!(done.commit.processed_deposit_ids, Vec::<u64>::new());
    assert_eq!(done.commit.new_root, done.commit.old_root);
    assert_eq!(pairs(&done), vec![(1000, 0), (1000, 0)]);
}

#[test]
fn signer_address_must_name_the_sender() {
    let a = address_of(&key_a());
    let b = address_of(&key_b());
    let mut tx = signed_transfer(&key_a(), &a, &b, 10, 0);
    assert!(verify_signatures(&vec![tx.clone()]));
    tx.signature.pub_key = a.to_uppercase();
    assert!(verify_signatures(&vec![tx.clone()]));
    tx.signature.pub_key = b.clone();
    assert!(!verify_signatures(&vec![tx.clone()]));
    assert!(verify_signatures(&vec![]));
    let good = signed_transfer(&key_a(), &a, &b, 10, 0);
    assert!(!verify_signatures(&vec![good, tx]));
}

#[test]
fn addresses_are_found_without_regard_to_case() {
    let a = address_of(&key_a());
    let deposits = vec![DepositInfo {
        deposit_id: 3,
        user: a.to_uppercase(),
        amount: 1,
    }];
    let done = execute_batch(&batch_of(vec![], deposits, [(1001, 0), (1000, 0)])).unwrap();
    assert!(done.commit.success);
    assert_eq!(done.commit.processed_deposit_ids, vec![3]);

    let list = vec!["0xAbCd".to_string(), "0xabcd".to_string(), "0xEF01".to_string()];
    assert_eq!(find_account_index(&list, "0xABCD"), Some(0));
    assert_eq!(find_account_index(&list, "0xef01"), Some(2));
    assert_eq!(find_account_index(&list, "0xef02"), None);
    assert_eq!(find_account_index(&[], "0xef02"), None);
}

#[test]
fn wrong_declared_roots_fail_the_outcome() {
    let mut batch = batch_of(vec![], vec![], [(1000, 0), (1000, 0)]);
    batch.old_merkle_root = h256_to_hex(&[0u8; 32]);
    let done = execute_batch(&batch).unwrap();
    assert!(!done.commit.success);
    assert_ne!(h256_to_hex(&done.commit.old_root), batch.old_merkle_root);

    let mut batch = batch_of(vec![], vec![], [(1000, 0), (1000, 0)]);
    batch.new_merkle_root = batch.new_merkle_root.to_uppercase();
    let done = execute_batch(&batch).unwrap();
    assert!(!done.commit.success);
}

#[test]
fn batch_shape_is_checked() {
    let mut batch = batch_of(vec![], vec![], [(1000, 0), (1000, 0)]);
    batch.leaf_data.pop();
    assert_eq!(execute_batch(&batch).err(), Some(StfError::LengthMismatch));

    let mut batch = batch_of(vec![], vec![], [(1000, 0), (1000, 0)]);
    batch.leaf_data.push(leaf(1, 1));
    assert_eq!(execute_batch(&batch).err(), Some(StfError::LengthMismatch));

    let mut batch = batch_of(vec![], vec![], [(1000, 0), (1000, 0)]);
    batch.addresses[1] = "0x1234".to_string();
    assert_eq!(execute_batch(&batch).err(), Some(StfError::InvalidAddress));

    let mut batch = batch_of(vec![], vec![], [(1000, 0), (1000, 0)]);
    batch.addresses[0] = "0xzz00000000000000000000000000000000000000".to_string();
    assert_eq!(execute_batch(&batch).err(), Some(StfError::InvalidAddress));
    assert_eq!(
        bootstrap_tree(&batch.addresses, &batch.leaf_data).err(),
        Some(StfError::InvalidAddress)
    );
}

#[test]
fn overflow_ends_the_transition() {
    let a = address_of(&key_a());
    let b = address_of(&key_b());

    let mut batch = batch_of(
        vec![],
        vec![DepositInfo { deposit_id: 1, user: a.clone(), amount: 1 }],
        [(0, 0), (0, 0)],
    );
    batch.leaf_data[0].balance = u64::MAX;
    assert_eq!(execute_batch(&batch).err(), Some(StfError::Overflow));

    let mut batch =
        batch_of(vec![signed_transfer(&key_a(), &a, &b, 1, 0)], vec![], [(0, 0), (0, 0)]);
    batch.leaf_data[1].balance = u64::MAX;
    assert_eq!(execute_batch(&batch).err(), Some(StfError::Overflow));

    let mut batch = batch_of(
        vec![signed_transfer(&key_a(), &a, &a, 0, u64::MAX)],
        vec![],
        [(0, 0), (0, 0)],
    );
    batch.leaf_data[0].nonce = u64::MAX;
    assert_eq!(execute_batch(&batch).err(), Some(StfError::Overflow));
}

#[test]
fn apply_deposit_credits_or_reports_overflow() {
    let mut accounts = vec![leaf(1, 2), leaf(u64::MAX - 1, 0)];
    assert_eq!(apply_deposit(&mut accounts, 0, 41), Ok(()));
    assert_eq!((accounts[0].balance, accounts[0].nonce), (42, 2));
    assert_eq!(apply_deposit(&mut accounts, 1, 1), Ok(()));
    assert_eq!(accounts[1].balance, u64::MAX);
    assert_eq!(apply_deposit(&mut accounts, 1, 1), Err(StfError::Overflow));
    assert_eq!(accounts[1].balance, u64::MAX);
    assert_eq!(apply_deposit(&mut accounts, 0, 0), Ok(()));
    assert_eq!(accounts[0].balance, 42);
}

#[test]
fn apply_transfer_rules() {
    let mut accounts = vec![leaf(1000, 0), leaf(1000, 0), leaf(u64::MAX, u64::MAX)];
    assert_eq!(apply_transfer(&mut accounts, 0, 1, 10, 0), Ok(true));
    assert_eq!((accounts[0].balance, accounts[0].nonce), (990, 1));
    assert_eq!((accounts[1].balance, accounts[1].nonce), (1010, 0));
    // Wrong nonce, then too much.
    assert_eq!(apply_transfer(&mut accounts, 0, 1, 10, 0), Ok(false));
    assert_eq!(apply_transfer(&mut accounts, 0, 1, 991, 1), Ok(false));
    assert_eq!((accounts[0].balance, accounts[0].nonce), (990, 1));
    // Exactly the balance.
    assert_eq!(apply_transfer(&mut accounts, 0, 1, 990, 1), Ok(true));
    assert_eq!((accounts[0].balance, accounts[0].nonce), (0, 2));
    assert_eq!((accounts[1].balance, accounts[1].nonce), (2000, 0));
    // To oneself.
    assert_eq!(apply_transfer(&mut accounts, 1, 1, 2000, 0), Ok(true));
    assert_eq!((accounts[1].balance, accounts[1].nonce), (2000, 1));
    assert_eq!(apply_transfer(&mut accounts, 1, 1, 0, 1), Ok(true));
    assert_eq!((accounts[1].balance, accounts[1].nonce), (2000, 2));
    // Overflow of the receiver's balance and of the sender's nonce.
    assert_eq!(apply_transfer(&mut accounts, 1, 2, 1, 2), Err(StfError::Overflow));
    assert_eq!(apply_transfer(&mut accounts, 2, 1, 1, u64::MAX), Err(StfError::Overflow));
    assert_eq!(apply_transfer(&mut accounts, 2, 2, 0, u64::MAX), Err(StfError::Overflow));
    assert_eq!((accounts[1].balance, accounts[1].nonce), (2000, 2));
    assert_eq!((accounts[2].balance, accounts[2].nonce), (u64::MAX, u64::MAX));
}

#[test]
fn phases_can_be_run_one_by_one() {
    let a = address_of(&key_a());
    let b = address_of(&key_b());
    let addresses = two_accounts();
    let leaf_data = vec![leaf(1000, 0), leaf(1000, 0)];
    let (mut tree, keys) = bootstrap_tree(&addresses, &leaf_data).unwrap();
    assert_eq!(keys, vec![tree_key(&a), tree_key(&b)]);
    assert_eq!(h256_to_hex(&root(&tree)), root_text_of(&addresses, &[(1000, 0), (1000, 0)]));

    let mut accounts = leaf_data.clone();
    let deposits = vec![
        DepositInfo { deposit_id: 4, user: b.clone(), amount: 1 },
        DepositInfo { deposit_id: 5, user: b.clone(), amount: 2 },
    ];
    let (complete, ids) =
        process_deposits(&mut tree, &mut accounts, &keys, &addresses, &deposits).unwrap();
    assert!(complete);
    assert_eq!(ids, vec![4, 5]);
    assert_eq!(stored(&tree, &b), (1003, 0));

    let txs = vec![signed_transfer(&key_b(), &b, &a, 3, 0)];
    let count = process_transfers(&mut tree, &mut accounts, &keys, &addresses, &txs).unwrap();
    assert_eq!(count, 1);
    assert_eq!(stored(&tree, &a), (1003, 0));
    assert_eq!(stored(&tree, &b), (1000, 1));
    assert_eq!(h256_to_hex(&root(&tree)), root_text_of(&addresses, &[(1003, 0), (1000, 1)]));
}

#[test]
fn bytes32_array_pads_on_the_left_and_cuts_on_the_right() {
    let mut expected = [0u8; 32];
    expected[30] = 0x12;
    expected[31] = 0x34;
    assert_eq!(hex_to_bytes32_array("0x1234"), expected);
    assert_eq!(hex_to_bytes32_array(""), [0u8; 32]);
    let full: Vec<u8> = (1u8..=32).collect();
    let mut full_array = [0u8; 32];
    full_array.copy_from_slice(&full);
    assert_eq!(hex_to_bytes32_array(&bytes_to_hex(&full)), full_array);
    let longer: Vec<u8> = (1u8..=40).collect();
    assert_eq!(hex_to_bytes32_array(&bytes_to_hex(&longer)), full_array);
}

#[test]
fn transfer_touches_no_other_nonce() {
    let mut accounts = vec![leaf(10, 4), leaf(20, 5), leaf(30, 6), leaf(40, 7)];
    assert_eq!(apply_transfer(&mut accounts, 2, 0, 30, 6), Ok(true));
    let nonces: Vec<u64> = accounts.iter().map(|a| a.nonce).collect();
    assert_eq!(nonces, vec![4, 5, 7, 7]);
    let balances: Vec<u64> = accounts.iter().map(|a| a.balance).collect();
    assert_eq!(balances, vec![40, 20, 0, 40]);
    assert_eq!(apply_transfer(&mut accounts, 1, 1, 20, 5), Ok(true));
    let nonces: Vec<u64> = accounts.iter().map(|a| a.nonce).collect();
    assert_eq!(nonces, vec![4, 6, 7, 7]);
}

#[test]
fn every_valid_transfer_is_counted() {
    let a = address_of(&key_a());
    let b = address_of(&key_b());
    let txs = vec![
        signed_transfer(&key_a(), &a, &b, 1, 0),
        signed_transfer(&key_a(), &a, &b, 2, 1),
        signed_transfer(&key_b(), &b, &a, 1003, 0),
        signed_transfer(&key_a(), &a, &a, 2000, 2),
        signed_transfer(&key_b(), &b, &a, 0, 1),
    ];
    let batch = batch_of(txs, vec![], [(2000, 3), (0, 2)]);
    let done = execute_batch(&batch).unwrap();
    assert_eq!(done.commit.transactions_processed, 5);
    assert!(done.commit.success);
    assert_eq!(pairs(&done), vec![(2000, 3), (0, 2)]);
}
