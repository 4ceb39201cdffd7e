//! Personal-sign verification: the message that a transfer's sender signs,
//! its digest, and the check that the signature recovers to the sender.

use crate::batch::Transaction;
use crate::bytes::append_bytes;
use crate::bytes::take_array;
use crate::hash::keccak256;
use crate::hash::keccak256_digest;
use crate::hexstr::bytes_to_hex;
use crate::hexstr::hex_pairs_value;
use crate::hexstr::hex_text;
use crate::hexstr::hex_to_bytes;
use crate::hexstr::is_hex_pairs;
use crate::hexstr::prefix_0x;
use crate::hexstr::strip_0x;
use crate::signature::bytes_to_signature;
use crate::signature::public_key_uncompressed;
use crate::signature::recover_public_key;
use crate::signature::recovered_key;
use crate::signature::signature_in_range;
use crate::signature::uncompressed_encoding;
use crate::signature::EcdsaSignature;
use crate::signature::PublicKey;
use crate::text::append_decimal;
use crate::text::decimal_digits;
use crate::text::eq_ignoring_case;
use crate::text::same_ignoring_case;
use vstd::prelude::*;
use vstd::string::StringExecFns;
use vstd::string::StringSliceAdditionalSpecFns;
use vstd::utf8::encode_utf8;

verus! {

/// The text that the sender of a transfer signs. Sender and receiver stand in
/// it as they are given, amount and nonce in decimal.
pub open spec fn transaction_message(
    from: Seq<char>,
    to: Seq<char>,
    amount: u64,
    nonce: u64,
) -> Seq<char> {
    "{\"sender\":\""@ + from + "\",\"receiver\":\""@ + to + "\",\"amount\":\""@ + decimal_digits(
        amount as nat,
    ) + "\",\"nonce\":\""@ + decimal_digits(nonce as nat) + "\"}"@
}

/// The bytes that are hashed for a signed message: the personal-sign prefix,
/// the length of the message in bytes, in decimal, and the message.
pub open spec fn ethereum_signed_bytes(message: Seq<char>) -> Seq<u8> {
    encode_utf8("\x19Ethereum Signed Message:\n"@ + decimal_digits(encode_utf8(message).len()))
        + encode_utf8(message)
}

/// The digest that is signed for a message.
pub open spec fn ethereum_message_digest(message: Seq<char>) -> Seq<u8> {
    keccak256_digest(ethereum_signed_bytes(message))
}

/// The address of a public key, from its uncompressed encoding: `0x` and the
/// hex of the last 20 bytes of the Keccak-256 digest of the 64 coordinate
/// bytes.
pub open spec fn ethereum_address_text(uncompressed: Seq<u8>) -> Seq<char> {
    prefix_0x() + hex_text(keccak256_digest(uncompressed.subrange(1, 65)).subrange(12, 32))
}

/// The address of a public key given in compressed form; `None` for a key
/// whose uncompressed encoding `k256` does not give in full.
pub open spec fn key_address(key: Seq<u8>) -> Option<Seq<char>> {
    match uncompressed_encoding(key) {
        Some(uncompressed) => if uncompressed.len() >= 65 {
            Some(ethereum_address_text(uncompressed))
        } else {
            None
        },
        None => None,
    }
}

/// The recovery id of a signature's last byte: 27 and 28 stand for 0 and 1.
pub open spec fn normalized_recovery_id(v: u8) -> u8 {
    if v >= 27 {
        (v - 27) as u8
    } else {
        v
    }
}

/// The signature over the digest, with the recovery byte `v`, recovers to a
/// key whose address is `expected`, case aside.
pub open spec fn recovers_to(
    digest: Seq<u8>,
    signature: Seq<u8>,
    v: u8,
    expected: Seq<char>,
) -> bool {
    let id = normalized_recovery_id(v);
    &&& id <= 1
    &&& recovered_key(digest, signature, id) is Some
    &&& key_address(recovered_key(digest, signature, id).unwrap()) is Some
    &&& same_ignoring_case(
        key_address(recovered_key(digest, signature, id).unwrap()).unwrap(),
        expected,
    )
}

/// The transfer carries 65 bytes of signature in hex, `r ‖ s` in range, that
/// recover to its sender over the digest of its message.
pub open spec fn signature_binds_sender(tx: Transaction) -> bool {
    let digits = strip_0x(encode_utf8(tx.signature.signature@));
    &&& is_hex_pairs(digits)
    &&& digits.len() == 130
    &&& signature_in_range(hex_pairs_value(digits).subrange(0, 64))
    &&& recovers_to(
        ethereum_message_digest(transaction_message(tx.from@, tx.to@, tx.amount, tx.nonce)),
        hex_pairs_value(digits).subrange(0, 64),
        hex_pairs_value(digits)[64],
        tx.from@,
    )
}

/// Writes the text that the sender of a transfer signs.
pub fn create_transaction_message(from: &str, to: &str, amount: u64, nonce: u64) -> (message:
    String)
    ensures
        message@ == transaction_message(from@, to@, amount, nonce),
{
    let mut message = String::from_str("{\"sender\":\"");
    message.append(from);
    message.append("\",\"receiver\":\"");
    message.append(to);
    message.append("\",\"amount\":\"");
    append_decimal(&mut message, amount);
    message.append("\",\"nonce\":\"");
    append_decimal(&mut message, nonce);
    message.append("\"}");
    message
}

/// The digest that is signed for a message: Keccak-256 over the prefix, the
/// message's length and the message.
pub fn hash_ethereum_message(message: &str) -> (digest: [u8; 32])
    ensures
        digest@ == ethereum_message_digest(message@),
{
    let message_bytes = message.as_bytes();
    let mut prefix = String::from_str("\x19Ethereum Signed Message:\n");
    append_decimal(&mut prefix, message_bytes.len() as u64);
    let mut full_message: Vec<u8> = Vec::new();
    append_bytes(&mut full_message, prefix.as_str().as_bytes());
    append_bytes(&mut full_message, message_bytes);
    keccak256(full_message.as_slice())
}

/// The address of a public key as `0x` and 40 lowercase hex digits.
pub fn public_key_to_ethereum_address(verifying_key: &PublicKey) -> (r: Result<
    String,
    &'static str,
>)
    ensures
        match r {
            Ok(address) => key_address(verifying_key@) == Some(address@),
            Err(msg) => key_address(verifying_key@) is None && msg@
                == "Invalid public key format"@,
        },
{
    let public_key_bytes = match public_key_uncompressed(verifying_key) {
        Some(bytes) => bytes,
        None => {
            return Err("Invalid public key format");
        },
    };
    if public_key_bytes.len() < 65 {
        return Err("Invalid public key format");
    }
    let public_key_64 = vstd::slice::slice_subrange(public_key_bytes.as_slice(), 1, 65);
    let hash = keccak256(public_key_64);
    let address_bytes = vstd::slice::slice_subrange(hash.as_slice(), 12, 32);
    Ok(bytes_to_hex(address_bytes))
}

/// Recovers the signer of a digest and compares its address with the one
/// expected, case aside. A recovery byte other than 0, 1, 27 or 28, a failed
/// recovery and a key without an address all give `false`.
pub fn recover_and_verify_signature(
    message_hash: &[u8; 32],
    signature: &EcdsaSignature,
    recovery_id: u8,
    expected_address: &str,
) -> (ok: bool)
    ensures
        ok == recovers_to(message_hash@, signature@, recovery_id, expected_address@),
{
    let recovery_id = if recovery_id >= 27 {
        recovery_id - 27
    } else {
        recovery_id
    };
    if recovery_id > 1 {
        return false;
    }
    let verifying_key = match recover_public_key(message_hash, signature, recovery_id) {
        Some(key) => key,
        None => {
            return false;
        },
    };
    let recovered_address = match public_key_to_ethereum_address(&verifying_key) {
        Ok(addr) => addr,
        Err(_) => {
            return false;
        },
    };
    eq_ignoring_case(recovered_address.as_str(), expected_address)
}

/// Checks that a transfer's signature is 65 bytes `r ‖ s ‖ v` that recover to
/// its sender over the digest of its message.
pub fn verify_metamask_signature(tx: &Transaction) -> (ok: bool)
    ensures
        ok == signature_binds_sender(*tx),
{
    let signature_bytes = match hex_to_bytes(tx.signature.signature.as_str()) {
        Ok(bytes) => bytes,
        Err(_) => {
            return false;
        },
    };
    if signature_bytes.len() != 65 {
        return false;
    }
    let sig_bytes: [u8; 64] = take_array(signature_bytes.as_slice(), 0);
    let recovery_id = signature_bytes[64];
    let signature = match bytes_to_signature(&sig_bytes) {
        Ok(sig) => sig,
        Err(_) => {
            return false;
        },
    };
    let message = create_transaction_message(
        tx.from.as_str(),
        tx.to.as_str(),
        tx.amount,
        tx.nonce,
    );
    let message_hash = hash_ethereum_message(message.as_str());
    recover_and_verify_signature(&message_hash, &signature, recovery_id, tx.from.as_str())
}

} // verus!
