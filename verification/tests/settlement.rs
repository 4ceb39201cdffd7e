use sha2::Digest;
use zk_rollup::batch::Batch;
use zk_rollup::batch::DepositInfo;
use zk_rollup::batch::LeafData;
use zk_rollup::batch::SignatureInfo;
use zk_rollup::batch::Transaction;
use zk_rollup::hexstr::bytes_to_hex;
use zk_rollup::settlement::check_commit;
use zk_rollup::settlement::create_transaction_calldata;
use zk_rollup::settlement::decode_transaction_calldata;
use zk_rollup::settlement::hex_to_bytes;
use zk_rollup::settlement::journal_hash;
use zk_rollup::settlement::prepare_settlement;
use zk_rollup::settlement::to_wire;
use zk_rollup::settlement::CommitMismatch;
use zk_rollup::settlement::HostError;
use zk_rollup::settlement::ShapeError;
use zk_rollup::state_tree::h256_to_hex;
use zk_rollup::transition::Commit;

fn transfer(from: u8, to: u8, amount: u64, nonce: u64, sig: u8) -> Transaction {
    Transaction {
        from: bytes_to_hex(&[from; 20]),
        to: bytes_to_hex(&[to; 20]),
        amount,
        nonce,
        signature: SignatureInfo {
            pub_key: bytes_to_hex(&[from; 20]),
            signature: bytes_to_hex(&[sig; 65]),
        },
    }
}

fn batch_with(transactions: Vec<Transaction>, deposits: usize) -> Batch {
    Batch {
        old_merkle_root: h256_to_hex(&[1u8; 32]),
        new_merkle_root: h256_to_hex(&[2u8; 32]),
        leaf_data: vec![LeafData { balance: 1, nonce: 0 }],
        transactions,
        deposits: (0..deposits)
            .map(|i| DepositInfo { deposit_id: i as u64, user: bytes_to_hex(&[0xaa; 20]), amount: 1 })
            .collect(),
        badge_id: 7,
        addresses: vec![bytes_to_hex(&[0xaa; 20])],
    }
}

fn commit_for(batch: &Batch) -> Commit {
    Commit {
        success: true,
        old_root: [1u8; 32],
        new_root: [2u8; 32],
        badge_id: batch.badge_id,
        transactions_processed: batch.transactions.len() as u32,
        processed_deposit_ids: (0..batch.deposits.len() as u64).collect(),
    }
}

#[test]
fn host_hex_decoding() {
    assert_eq!(hex_to_bytes("0x0aFF"), Some(vec![0x0a, 0xff]));
    assert_eq!(hex_to_bytes("0aff"), Some(vec![0x0a, 0xff]));
    assert_eq!(hex_to_bytes("0x"), Some(vec![]));
    assert_eq!(hex_to_bytes("0xabc"), None);
    assert_eq!(hex_to_bytes("0xgg"), None);
    assert_eq!(hex_to_bytes("0X00"), None);
}

#[test]
fn calldata_of_no_transfers_is_the_count() {
    assert_eq!(create_transaction_calldata(&[]), Ok(vec![0, 0, 0, 0]));
}

#[test]
fn calldata_layout_is_exact() {
    let tx = transfer(0xaa, 0xbb, 0x0102030405060708, 9, 0xcc);
    let data = create_transaction_calldata(&[tx]).unwrap();
    let mut expected = vec![0u8, 0, 0, 1];
    expected.extend_from_slice(&[0xaa; 20]);
    expected.extend_from_slice(&[0xbb; 20]);
    expected.extend_from_slice(&[1, 2, 3, 4, 5, 6, 7, 8]);
    expected.extend_from_slice(&[0, 0, 0, 0, 0, 0, 0, 9]);
    expected.extend_from_slice(&[0xcc; 65]);
    expected.extend_from_slice(&[0xaa; 20]);
    assert_eq!(data.len(), 4 + 141);
    assert_eq!(data, expected);
}

#[test]
fn calldata_holds_transfers_in_order() {
    let txs = vec![transfer(1, 2, 3, 4, 5), transfer(6, 7, 8, 9, 10), transfer(11, 12, 13, 14, 15)];
    let data = create_transaction_calldata(&txs).unwrap();
    assert_eq!(data.len(), 4 + 3 * 141);
    assert_eq!(&data[0..4], &[0, 0, 0, 3]);
    assert_eq!(data[4], 1);
    assert_eq!(data[4 + 141], 6);
    assert_eq!(data[4 + 2 * 141], 11);
    assert_eq!(data[4 + 3 * 141 - 1], 11);
}

#[test]
fn calldata_round_trip() {
    let txs = vec![transfer(1, 2, u64::MAX, 0, 5), transfer(6, 7, 0, u64::MAX, 10)];
    let data = create_transaction_calldata(&txs).unwrap();
    let back = decode_transaction_calldata(&data).unwrap();
    assert_eq!(back.len(), 2);
    for (wire, tx) in back.iter().zip(txs.iter()) {
        let direct = to_wire(tx).unwrap();
        assert_eq!(wire.from, direct.from);
        assert_eq!(wire.to, direct.to);
        assert_eq!(wire.amount, tx.amount);
        assert_eq!(wire.nonce, tx.nonce);
        assert_eq!(wire.signature, direct.signature);
        assert_eq!(wire.pub_key, direct.pub_key);
        assert_eq!(bytes_to_hex(&wire.from), tx.from);
        assert_eq!(bytes_to_hex(&wire.signature), tx.signature.signature);
    }
    assert_eq!(back[0].amount, u64::MAX);
    assert_eq!(back[1].nonce, u64::MAX);

    // Written again, the transfers give the same bytes.
    let again: Vec<Transaction> = back
        .iter()
        .map(|w| Transaction {
            from: bytes_to_hex(&w.from),
            to: bytes_to_hex(&w.to),
            amount: w.amount,
            nonce: w.nonce,
            signature: SignatureInfo {
                pub_key: bytes_to_hex(&w.pub_key),
                signature: bytes_to_hex(&w.signature),
            },
        })
        .collect();
    assert_eq!(create_transaction_calldata(&again), Ok(data));
}

#[test]
fn decoding_rejects_bytes_of_the_wrong_length() {
    assert!(decode_transaction_calldata(&[]).is_none());
    assert!(decode_transaction_calldata(&[0, 0, 0]).is_none());
    assert_eq!(decode_transaction_calldata(&[0, 0, 0, 0]).map(|v| v.len()), Some(0));
    assert!(decode_transaction_calldata(&[0, 0, 0, 1]).is_none());
    assert!(decode_transaction_calldata(&[0, 0, 0, 0, 0]).is_none());
    let mut one = vec![0u8, 0, 0, 1];
    one.extend_from_slice(&[9u8; 141]);
    assert_eq!(decode_transaction_calldata(&one).map(|v| v.len()), Some(1));
    one.push(0);
    assert!(decode_transaction_calldata(&one).is_none());
    one.pop();
    one[3] = 2;
    assert!(decode_transaction_calldata(&one).is_none());
}

#[test]
fn calldata_refuses_fields_of_the_wrong_shape() {
    let good = transfer(1, 2, 3, 4, 5);

    let mut bad = good.clone();
    bad.from = "0xnothex".to_string();
    assert_eq!(create_transaction_calldata(&[bad]), Err(ShapeError::MalformedHex));

    let mut bad = good.clone();
    bad.to = bytes_to_hex(&[2u8; 21]);
    assert_eq!(create_transaction_calldata(&[bad]), Err(ShapeError::WrongLength));

    let mut bad = good.clone();
    bad.from = bytes_to_hex(&[2u8; 19]);
    assert_eq!(create_transaction_calldata(&[bad]), Err(ShapeError::WrongLength));

    let mut bad = good.clone();
    bad.signature.signature = bytes_to_hex(&[5u8; 64]);
    assert_eq!(create_transaction_calldata(&[bad]), Err(ShapeError::WrongLength));

    let mut bad = good.clone();
    bad.signature.pub_key = "0xabc".to_string();
    assert_eq!(create_transaction_calldata(&[good.clone(), bad]), Err(ShapeError::MalformedHex));

    // The first field that fails, of the first transfer that fails, decides.
    let mut first = good.clone();
    first.to = bytes_to_hex(&[2u8; 1]);
    first.signature.signature = "zz".to_string();
    let mut second = good.clone();
    second.from = "zz".to_string();
    assert_eq!(create_transaction_calldata(&[first, second]), Err(ShapeError::WrongLength));
}

#[test]
fn commit_is_held_against_the_batch() {
    let batch = batch_with(vec![transfer(1, 2, 3, 4, 5)], 2);
    let good = commit_for(&batch);
    assert_eq!(check_commit(&batch, &good), Ok(()));

    let mut c = good.clone();
    c.success = false;
    c.transactions_processed = 0;
    assert_eq!(check_commit(&batch, &c), Err(CommitMismatch::ProofFailed));

    let mut c = good.clone();
    c.transactions_processed = 0;
    c.processed_deposit_ids.clear();
    assert_eq!(check_commit(&batch, &c), Err(CommitMismatch::TransactionsMissing));

    let mut c = good.clone();
    c.processed_deposit_ids.pop();
    c.old_root = [9u8; 32];
    assert_eq!(check_commit(&batch, &c), Err(CommitMismatch::DepositsMissing));

    let mut c = good.clone();
    c.old_root = [9u8; 32];
    c.new_root = [9u8; 32];
    assert_eq!(check_commit(&batch, &c), Err(CommitMismatch::OldRootMismatch));

    let mut c = good.clone();
    c.new_root = [9u8; 32];
    assert_eq!(check_commit(&batch, &c), Err(CommitMismatch::NewRootMismatch));

    // A declared root in upper case is not the committed root's text.
    let mut upper = batch.clone();
    upper.old_merkle_root = "0x".to_string() + &batch.old_merkle_root[2..].to_uppercase();
    assert_eq!(check_commit(&upper, &good), Ok(()));
    upper.old_merkle_root = h256_to_hex(&[0xab; 32]).to_uppercase().replace("0X", "0x");
    let mut c = good.clone();
    c.old_root = [0xab; 32];
    assert_eq!(check_commit(&upper, &c), Err(CommitMismatch::OldRootMismatch));
}

#[test]
fn journal_hash_is_sha256() {
    let journal = b"journal bytes";
    let expected: [u8; 32] = sha2::Sha256::digest(journal).into();
    assert_eq!(journal_hash(journal), expected);
    // SHA-256 of the empty string.
    assert_eq!(
        bytes_to_hex(&journal_hash(&[])),
        "0xe3b0c44298fc1c149afbf4c8996fb92427ae41e4649b934ca495991b7852b855"
    );
}

#[test]
fn settlement_is_prepared_for_a_matching_commit() {
    let batch = batch_with(vec![transfer(1, 2, 3, 4, 5)], 1);
    let commit = commit_for(&batch);
    let journal = [1u8, 2, 3];
    let settlement = prepare_settlement(&batch, &commit, &journal).unwrap();
    assert_eq!(settlement.badge_id, 7);
    assert_eq!(settlement.journal_hash, journal_hash(&journal));
    assert_eq!(Ok(settlement.tx_data), create_transaction_calldata(&batch.transactions));

    let mut failed = commit.clone();
    failed.success = false;
    assert_eq!(
        prepare_settlement(&batch, &failed, &journal).err(),
        Some(HostError::Commit(CommitMismatch::ProofFailed))
    );

    let mut malformed = batch.clone();
    malformed.transactions[0].to = "0x12".to_string();
    assert_eq!(
        prepare_settlement(&malformed, &commit, &journal).err(),
        Some(HostError::Shape(ShapeError::WrongLength))
    );
}

#[test]
fn a_passed_check_means_the_declared_roots() {
    let batch = batch_with(vec![], 0);
    let commit = commit_for(&batch);
    assert_eq!(check_commit(&batch, &commit), Ok(()));
    assert_eq!(h256_to_hex(&commit.old_root), batch.old_merkle_root);
    assert_eq!(h256_to_hex(&commit.new_root), batch.new_merkle_root);
}
