use k256::ecdsa::SigningKey;
use sha3::Digest;
use zk_rollup::batch::SignatureInfo;
use zk_rollup::batch::Transaction;
use zk_rollup::eth_sign::create_transaction_message;
use zk_rollup::eth_sign::hash_ethereum_message;
use zk_rollup::eth_sign::public_key_to_ethereum_address;
use zk_rollup::eth_sign::recover_and_verify_signature;
use zk_rollup::eth_sign::verify_metamask_signature;
use zk_rollup::hexstr::bytes_to_hex;
use zk_rollup::hexstr::hex_to_bytes;
use zk_rollup::signature::bytes_to_public_key;
use zk_rollup::signature::bytes_to_signature;
use zk_rollup::signature::public_key_to_bytes;
use zk_rollup::signature::public_key_uncompressed;
use zk_rollup::signature::recover_public_key;

fn signing_key(byte: u8) -> SigningKey {
    SigningKey::from_slice(&[byte; 32]).unwrap()
}

fn compressed(key: &SigningKey) -> [u8; 33] {
    let point = key.verifying_key().to_encoded_point(true);
    let mut out = [0u8; 33];
    out.copy_from_slice(point.as_bytes());
    out
}

fn address_of(key: &SigningKey) -> String {
    let point = key.verifying_key().to_encoded_point(false);
    let digest = sha3::Keccak256::digest(&point.as_bytes()[1..]);
    bytes_to_hex(&digest[12..])
}

fn sign_digest(key: &SigningKey, digest: &[u8; 32]) -> ([u8; 64], u8) {
    let (signature, recovery_id) = key.sign_prehash_recoverable(digest).unwrap();
    let mut rs = [0u8; 64];
    rs.copy_from_slice(&signature.to_bytes());
    (rs, recovery_id.to_byte())
}

fn signed_transfer(key: &SigningKey, from: &str, to: &str, amount: u64, nonce: u64) -> Transaction {
    let message = create_transaction_message(from, to, amount, nonce);
    let digest = hash_ethereum_message(&message);
    let (rs, v) = sign_digest(key, &digest);
    let mut bytes = rs.to_vec();
    bytes.push(27 + v);
    Transaction {
        from: from.to_string(),
        to: to.to_string(),
        amount,
        nonce,
        signature: SignatureInfo { pub_key: from.to_string(), signature: bytes_to_hex(&bytes) },
    }
}

#[test]
fn message_text_is_exact() {
    assert_eq!(
        create_transaction_message("0xAbC", "0xdef", 10, 0),
        "{\"sender\":\"0xAbC\",\"receiver\":\"0xdef\",\"amount\":\"10\",\"nonce\":\"0\"}"
    );
    assert_eq!(
        create_transaction_message("", "", u64::MAX, 1234567890),
        "{\"sender\":\"\",\"receiver\":\"\",\"amount\":\"18446744073709551615\",\"nonce\":\"1234567890\"}"
    );
    assert_eq!(
        create_transaction_message("a", "b", 100, 9),
        "{\"sender\":\"a\",\"receiver\":\"b\",\"amount\":\"100\",\"nonce\":\"9\"}"
    );
}

#[test]
fn message_digest_uses_personal_sign_prefix() {
    let expected = hex_to_bytes("0xa1de988600a42c4b4ab089b619297c17d53cffae5d5120d82d8a92d0bb3b78f2")
        .unwrap();
    assert_eq!(hash_ethereum_message("Hello World").to_vec(), expected);

    let message = "0123456789";
    let mut bytes = b"\x19Ethereum Signed Message:\n10".to_vec();
    bytes.extend_from_slice(message.as_bytes());
    let direct: [u8; 32] = sha3::Keccak256::digest(&bytes).into();
    assert_eq!(hash_ethereum_message(message), direct);
}

#[test]
fn message_length_counts_bytes() {
    // Two characters, three bytes.
    let message = "a\u{e9}";
    let mut bytes = b"\x19Ethereum Signed Message:\n3".to_vec();
    bytes.extend_from_slice(message.as_bytes());
    let direct: [u8; 32] = sha3::Keccak256::digest(&bytes).into();
    assert_eq!(hash_ethereum_message(message), direct);

    let empty: [u8; 32] = sha3::Keccak256::digest(b"\x19Ethereum Signed Message:\n0").into();
    assert_eq!(hash_ethereum_message(""), empty);
}

#[test]
fn address_of_scalar_one() {
    let mut one = [0u8; 32];
    one[31] = 1;
    let key = SigningKey::from_slice(&one).unwrap();
    let public_key = bytes_to_public_key(&compressed(&key)).unwrap();
    assert_eq!(
        public_key_to_ethereum_address(&public_key),
        Ok("0x7e5f4552091a69125d5dfcb7b8c2659029395bdf".to_string())
    );
}

#[test]
fn address_matches_direct_derivation() {
    for byte in [0x11u8, 0x22, 0x7f] {
        let key = signing_key(byte);
        let public_key = bytes_to_public_key(&compressed(&key)).unwrap();
        assert_eq!(public_key_to_ethereum_address(&public_key), Ok(address_of(&key)));
        let uncompressed = public_key_uncompressed(&public_key).unwrap();
        assert_eq!(uncompressed.len(), 65);
        assert_eq!(uncompressed[0], 4);
        assert_eq!(uncompressed, key.verifying_key().to_encoded_point(false).as_bytes().to_vec());
    }
}

#[test]
fn recovery_gives_the_signer() {
    let key = signing_key(0x11);
    let digest = hash_ethereum_message("some message");
    let (rs, v) = sign_digest(&key, &digest);
    let signature = bytes_to_signature(&rs).unwrap();
    let recovered = recover_public_key(&digest, &signature, v).unwrap();
    assert_eq!(public_key_to_bytes(&recovered), compressed(&key));
    // The other recovery id gives another key, or none.
    match recover_public_key(&digest, &signature, 1 - v) {
        Some(other) => assert_ne!(public_key_to_bytes(&other), compressed(&key)),
        None => {},
    }
    assert!(recover_public_key(&digest, &signature, 4).is_none());
}

#[test]
fn signature_recovers_to_signer_address() {
    let key = signing_key(0x11);
    let address = address_of(&key);
    let message = create_transaction_message(&address, "0xbb", 10, 0);
    let digest = hash_ethereum_message(&message);
    let (rs, v) = sign_digest(&key, &digest);
    let signature = bytes_to_signature(&rs).unwrap();

    assert!(recover_and_verify_signature(&digest, &signature, v, &address));
    assert!(recover_and_verify_signature(&digest, &signature, v + 27, &address));
    assert!(recover_and_verify_signature(&digest, &signature, v, &address.to_uppercase()));
    assert!(!recover_and_verify_signature(&digest, &signature, 1 - v, &address));
    assert!(!recover_and_verify_signature(&digest, &signature, 2, &address));
    assert!(!recover_and_verify_signature(&digest, &signature, 29, &address));
    assert!(!recover_and_verify_signature(&digest, &signature, 26, &address));
    assert!(!recover_and_verify_signature(&digest, &signature, v, &address_of(&signing_key(0x22))));
    assert!(!recover_and_verify_signature(&[0u8; 32], &signature, v, &address));
}

#[test]
fn transfer_signature_verifies() {
    let key = signing_key(0x11);
    let from = address_of(&key);
    let to = address_of(&signing_key(0x22));
    let tx = signed_transfer(&key, &from, &to, 10, 0);
    assert!(verify_metamask_signature(&tx));

    // The recovery byte may also be 0 or 1.
    let mut bytes = hex_to_bytes(&tx.signature.signature).unwrap();
    bytes[64] -= 27;
    let mut plain_v = tx.clone();
    plain_v.signature.signature = bytes_to_hex(&bytes);
    assert!(verify_metamask_signature(&plain_v));

    // Without the prefix the hex is read just the same.
    let mut no_prefix = tx.clone();
    no_prefix.signature.signature = tx.signature.signature[2..].to_string();
    assert!(verify_metamask_signature(&no_prefix));
}

#[test]
fn transfer_signature_binds_every_field() {
    let key = signing_key(0x11);
    let from = address_of(&key);
    let to = address_of(&signing_key(0x22));
    let tx = signed_transfer(&key, &from, &to, 10, 0);

    let mut other_amount = tx.clone();
    other_amount.amount = 11;
    assert!(!verify_metamask_signature(&other_amount));

    let mut other_nonce = tx.clone();
    other_nonce.nonce = 1;
    assert!(!verify_metamask_signature(&other_nonce));

    let mut other_receiver = tx.clone();
    other_receiver.to = from.clone();
    assert!(!verify_metamask_signature(&other_receiver));

    // The sender stands in the message as it is written: another case is
    // another message.
    let mut other_case = tx.clone();
    other_case.from = from.to_uppercase().replace("0X", "0x");
    assert!(!verify_metamask_signature(&other_case));

    // Signed by someone else.
    let forged = signed_transfer(&signing_key(0x33), &from, &to, 10, 0);
    assert!(!verify_metamask_signature(&forged));
}

#[test]
fn malformed_signatures_are_rejected() {
    let key = signing_key(0x11);
    let from = address_of(&key);
    let tx = signed_transfer(&key, &from, &from, 1, 0);

    let mut flipped = tx.clone();
    let mut bytes = hex_to_bytes(&tx.signature.signature).unwrap();
    bytes[0] ^= 0x01;
    flipped.signature.signature = bytes_to_hex(&bytes);
    assert!(!verify_metamask_signature(&flipped));

    let mut short = tx.clone();
    short.signature.signature = bytes_to_hex(&bytes[..64]);
    assert!(!verify_metamask_signature(&short));

    let mut long = tx.clone();
    let mut more = bytes.clone();
    more.push(0);
    long.signature.signature = bytes_to_hex(&more);
    assert!(!verify_metamask_signature(&long));

    let mut not_hex = tx.clone();
    not_hex.signature.signature = "0xnothex".to_string();
    assert!(!verify_metamask_signature(&not_hex));

    let mut odd = tx.clone();
    odd.signature.signature = "0xabc".to_string();
    assert!(!verify_metamask_signature(&odd));

    let mut zeros = tx.clone();
    zeros.signature.signature = bytes_to_hex(&[0u8; 65]);
    assert!(!verify_metamask_signature(&zeros));

    let mut bad_v = tx.clone();
    let mut with_v = hex_to_bytes(&tx.signature.signature).unwrap();
    with_v[64] = 30;
    bad_v.signature.signature = bytes_to_hex(&with_v);
    assert!(!verify_metamask_signature(&bad_v));
}
