//! Keys and signatures over secp256k1, held as the byte strings that the
//! `k256` crate reads and writes, and the transfer record that is signed.

use crate::bytes::append_bytes;
use crate::bytes::push_u64_le;
use crate::bytes::u64_le_bytes;
use crate::hash::sha256;
use crate::hash::sha256_digest;
use k256::ecdsa::signature::Signer;
use k256::ecdsa::signature::Verifier;
use k256::elliptic_curve::rand_core::OsRng;
use vstd::prelude::*;

verus! {

/// The number that a byte string denotes, most significant byte first.
pub open spec fn be_nat(b: Seq<u8>) -> nat
    decreases b.len(),
{
    if b.len() == 0 {
        0
    } else {
        be_nat(b.drop_last()) * 256 + b.last() as nat
    }
}

/// The order of the secp256k1 group.
pub open spec fn secp256k1_order() -> nat {
    0xFFFFFFFF_FFFFFFFF_FFFFFFFF_FFFFFFFE_BAAEDCE6_AF48A03B_BFD25E8C_D0364141nat
}

/// Thirty-two bytes that denote a scalar from 1 to the group order less one.
pub open spec fn scalar_in_range(b: Seq<u8>) -> bool {
    b.len() == 32 && 0 < be_nat(b) < secp256k1_order()
}

/// Sixty-four bytes `r ‖ s` with both halves in range.
pub open spec fn signature_in_range(rs: Seq<u8>) -> bool {
    rs.len() == 64 && scalar_in_range(rs.subrange(0, 32)) && scalar_in_range(rs.subrange(32, 64))
}

/// The public key, in compressed form, that 33 bytes in a compressed or
/// compact encoding stand for; `None` where they stand for no point.
pub uninterp spec fn sec1_decoded(bytes: Seq<u8>) -> Option<Seq<u8>>;

/// The public key of a secret scalar, in compressed form.
pub uninterp spec fn public_key_of(secret: Seq<u8>) -> Seq<u8>;

/// The signature `r ‖ s` that `k256` makes over a message with a secret
/// scalar, the nonce chosen as RFC 6979 says; `None` where it makes none.
pub uninterp spec fn ecdsa_signature(secret: Seq<u8>, message: Seq<u8>) -> Option<Seq<u8>>;

/// Whether `k256` accepts a signature `r ‖ s` over a message under the public
/// key that 33 bytes stand for.
pub uninterp spec fn ecdsa_verifies(message: Seq<u8>, signature: Seq<u8>, key: Seq<u8>) -> bool;

/// Calls `Signature::from_bytes`, which accepts exactly the byte strings whose
/// halves are both in range.
#[verifier::external_body]
fn signature_parses(bytes: &[u8; 64]) -> (ok: bool)
    ensures
        ok == signature_in_range(bytes@),
{
    k256::ecdsa::Signature::from_bytes(bytes.into()).is_ok()
}

/// Calls `EncodedPoint::from_bytes`, which looks at the tag byte and the
/// length alone: of 33 bytes it accepts those that start with 2, 3 or 5.
#[verifier::external_body]
fn encoded_point_parses(bytes: &[u8; 33]) -> (ok: bool)
    ensures
        ok == (bytes@[0] == 2 || bytes@[0] == 3 || bytes@[0] == 5),
{
    k256::EncodedPoint::from_bytes(bytes).is_ok()
}

/// Calls `VerifyingKey::from_sec1_bytes` and writes the key back in compressed
/// form with `to_encoded_point`.
#[verifier::external_body]
fn decode_public_key(bytes: &[u8; 33]) -> (key: Option<[u8; 33]>)
    ensures
        key is Some == sec1_decoded(bytes@) is Some,
        key is Some ==> key.unwrap()@ == sec1_decoded(bytes@).unwrap(),
{
    let key = k256::ecdsa::VerifyingKey::from_sec1_bytes(bytes).ok()?;
    key.to_encoded_point(true).as_bytes().try_into().ok()
}

/// The public key, in compressed form, that `k256` recovers from a message
/// digest, a signature `r ‖ s` and a recovery id; `None` where it recovers
/// none.
pub uninterp spec fn recovered_key(prehash: Seq<u8>, signature: Seq<u8>, recovery_id: u8) -> Option<
    Seq<u8>,
>;

/// The uncompressed encoding, as `k256` writes it, of the public key that 33
/// bytes stand for; `None` where they stand for no point.
pub uninterp spec fn uncompressed_encoding(key: Seq<u8>) -> Option<Seq<u8>>;

/// Calls `VerifyingKey::recover_from_prehash` with the recovery id that
/// `RecoveryId::from_byte` makes of the byte, and writes the key in compressed
/// form.
#[verifier::external_body]
fn recover_key(prehash: &[u8; 32], signature: &[u8; 64], recovery_id: u8) -> (key: Option<[u8; 33]>)
    ensures
        key is Some == recovered_key(prehash@, signature@, recovery_id) is Some,
        key is Some ==> key.unwrap()@ == recovered_key(prehash@, signature@, recovery_id).unwrap(),
{
    let signature = k256::ecdsa::Signature::from_bytes(signature.into()).ok()?;
    let id = k256::ecdsa::RecoveryId::from_byte(recovery_id)?;
    let key = k256::ecdsa::VerifyingKey::recover_from_prehash(prehash, &signature, id).ok()?;
    key.to_encoded_point(true).as_bytes().try_into().ok()
}

/// Calls `VerifyingKey::to_encoded_point` without compression, on the key
/// that `VerifyingKey::from_sec1_bytes` reads.
#[verifier::external_body]
fn uncompressed_point(key: &[u8; 33]) -> (out: Option<Vec<u8>>)
    ensures
        out is Some == uncompressed_encoding(key@) is Some,
        out is Some ==> out.unwrap()@ == uncompressed_encoding(key@).unwrap(),
{
    let key = k256::ecdsa::VerifyingKey::from_sec1_bytes(key).ok()?;
    Some(key.to_encoded_point(false).as_bytes().to_vec())
}

/// Calls `SigningKey::random` with the operating system's generator and takes
/// the scalar's bytes. Nothing is said of which scalar comes out, but that it
/// is in range.
#[verifier::external_body]
fn random_scalar() -> (secret: [u8; 32])
    ensures
        scalar_in_range(secret@),
{
    k256::ecdsa::SigningKey::random(&mut OsRng).to_bytes().into()
}

/// Calls `SigningKey::verifying_key` on the key that the scalar makes, and
/// writes the result in compressed form.
#[verifier::external_body]
fn derive_public_key(secret: &[u8; 32]) -> (key: [u8; 33])
    requires
        scalar_in_range(secret@),
    ensures
        key@ == public_key_of(secret@),
{
    let signing = k256::ecdsa::SigningKey::from_bytes(secret.into()).expect("scalar in range");
    signing.verifying_key().to_encoded_point(true).as_bytes().try_into().expect("33 bytes")
}

/// Calls `Signer::try_sign`, which hashes the message with SHA-256 and signs
/// the digest.
#[verifier::external_body]
fn sign_message(secret: &[u8; 32], message: &[u8]) -> (signature: Option<[u8; 64]>)
    requires
        scalar_in_range(secret@),
    ensures
        signature is Some == ecdsa_signature(secret@, message@) is Some,
        signature is Some ==> signature.unwrap()@ == ecdsa_signature(secret@, message@).unwrap(),
        signature is Some ==> signature_in_range(signature.unwrap()@),
{
    let signing = k256::ecdsa::SigningKey::from_bytes(secret.into()).expect("scalar in range");
    let signature: k256::ecdsa::Signature = signing.try_sign(message).ok()?;
    Some(signature.to_bytes().into())
}

/// Calls `Verifier::verify`, which hashes the message with SHA-256 and checks
/// the signature over the digest. Bytes that `k256` does not read as a
/// signature or as a key verify nothing.
#[verifier::external_body]
fn verify_message(message: &[u8], signature: &[u8; 64], key: &[u8; 33]) -> (ok: bool)
    ensures
        ok == ecdsa_verifies(message@, signature@, key@),
{
    let signature = k256::ecdsa::Signature::from_bytes(signature.into());
    let key = k256::ecdsa::VerifyingKey::from_sec1_bytes(key);
    match (signature, key) {
        (Ok(signature), Ok(key)) => key.verify(message, &signature).is_ok(),
        _ => false,
    }
}

/// A secret scalar.
pub struct PrivateKey {
    bytes: [u8; 32],
}

/// A public key in compressed form.
#[derive(Clone, Copy, Debug)]
pub struct PublicKey {
    sec1: [u8; 33],
}

/// A signature `r ‖ s`.
#[derive(Clone, Copy, Debug)]
pub struct EcdsaSignature {
    bytes: [u8; 64],
}

impl View for PrivateKey {
    type V = Seq<u8>;

    closed spec fn view(&self) -> Seq<u8> {
        self.bytes@
    }
}

impl View for PublicKey {
    type V = Seq<u8>;

    closed spec fn view(&self) -> Seq<u8> {
        self.sec1@
    }
}

impl View for EcdsaSignature {
    type V = Seq<u8>;

    closed spec fn view(&self) -> Seq<u8> {
        self.bytes@
    }
}

impl PrivateKey {
    #[verifier::type_invariant]
    spec fn in_range(&self) -> bool {
        scalar_in_range(self.bytes@)
    }
}

impl EcdsaSignature {
    #[verifier::type_invariant]
    spec fn in_range(&self) -> bool {
        signature_in_range(self.bytes@)
    }
}

/// The record of a transfer that is signed.
#[derive(Clone, Debug)]
pub struct TransactionData {
    pub from: [u8; 20],
    pub to: [u8; 20],
    pub amount: u64,
    pub nonce: u64,
}

impl TransactionData {
    /// The bytes that are hashed: sender, receiver, then amount and nonce as
    /// eight little-endian bytes each.
    pub open spec fn wire(&self) -> Seq<u8> {
        self.from@ + self.to@ + u64_le_bytes(self.amount) + u64_le_bytes(self.nonce)
    }

    /// Makes a transfer record.
    pub fn new(from: [u8; 20], to: [u8; 20], amount: u64, nonce: u64) -> (tx: Self)
        ensures
            tx.from == from,
            tx.to == to,
            tx.amount == amount,
            tx.nonce == nonce,
    {
        Self { from, to, amount, nonce }
    }

    /// Writes the record as the 56 bytes that are hashed.
    pub fn to_bytes(&self) -> (bytes: Vec<u8>)
        ensures
            bytes@ == self.wire(),
            bytes@.len() == 56,
    {
        let mut bytes: Vec<u8> = Vec::new();
        append_bytes(&mut bytes, self.from.as_slice());
        append_bytes(&mut bytes, self.to.as_slice());
        push_u64_le(&mut bytes, self.amount);
        push_u64_le(&mut bytes, self.nonce);
        bytes
    }

    /// The SHA-256 digest of the record.
    pub fn hash(&self) -> (digest: [u8; 32])
        ensures
            digest@ == sha256_digest(self.wire()),
    {
        let bytes = self.to_bytes();
        sha256(bytes.as_slice())
    }
}

/// Makes a secret key from the operating system's random numbers.
pub fn generate_private_key() -> (key: PrivateKey)
    ensures
        scalar_in_range(key@),
{
    PrivateKey { bytes: random_scalar() }
}

/// The public key that belongs to a secret key.
pub fn get_public_key(private_key: &PrivateKey) -> (key: PublicKey)
    ensures
        key@ == public_key_of(private_key@),
{
    proof {
        use_type_invariant(private_key);
    }
    PublicKey { sec1: derive_public_key(&private_key.bytes) }
}

/// The compressed form of a public key: 33 bytes.
pub fn public_key_to_bytes(public_key: &PublicKey) -> (bytes: [u8; 33])
    ensures
        bytes@ == public_key@,
{
    public_key.sec1
}

/// Reads a public key from 33 bytes.
///
/// Bytes that do not start with the tag of a compressed or compact point are
/// no encoded point; bytes that do, but stand for no point of the curve, are
/// no public key.
pub fn bytes_to_public_key(bytes: &[u8; 33]) -> (r: Result<PublicKey, &'static str>)
    ensures
        match r {
            Ok(key) => (bytes@[0] == 2 || bytes@[0] == 3 || bytes@[0] == 5) && sec1_decoded(bytes@)
                == Some(key@),
            Err(msg) => if !(bytes@[0] == 2 || bytes@[0] == 3 || bytes@[0] == 5) {
                msg@ == "Invalid encoded point"@
            } else {
                sec1_decoded(bytes@) is None && msg@ == "Invalid public key"@
            },
        },
{
    if !encoded_point_parses(bytes) {
        return Err("Invalid encoded point");
    }
    match decode_public_key(bytes) {
        Some(sec1) => Ok(PublicKey { sec1 }),
        None => Err("Invalid public key"),
    }
}

/// The 64 bytes `r ‖ s` of a signature.
pub fn signature_to_bytes(signature: &EcdsaSignature) -> (bytes: [u8; 64])
    ensures
        bytes@ == signature@,
        signature_in_range(bytes@),
{
    proof {
        use_type_invariant(signature);
    }
    signature.bytes
}

/// Reads a signature from 64 bytes; both halves must be in range.
pub fn bytes_to_signature(bytes: &[u8; 64]) -> (r: Result<EcdsaSignature, &'static str>)
    ensures
        match r {
            Ok(signature) => signature_in_range(bytes@) && signature@ == bytes@,
            Err(msg) => !signature_in_range(bytes@) && msg@ == "Invalid signature format"@,
        },
{
    if signature_parses(bytes) {
        Ok(EcdsaSignature { bytes: *bytes })
    } else {
        Err("Invalid signature format")
    }
}

/// Signs a message digest with a secret key; `None` where `k256` makes no
/// signature.
pub fn sign_hash(message_hash: &[u8; 32], private_key: &PrivateKey) -> (r: Option<EcdsaSignature>)
    ensures
        match r {
            Some(signature) => ecdsa_signature(private_key@, message_hash@) == Some(signature@),
            None => ecdsa_signature(private_key@, message_hash@) is None,
        },
{
    proof {
        use_type_invariant(private_key);
    }
    match sign_message(&private_key.bytes, message_hash.as_slice()) {
        Some(bytes) => Some(EcdsaSignature { bytes }),
        None => None,
    }
}

/// Signs the digest of a transfer record with a secret key.
pub fn sign_tx(tx_data: &TransactionData, private_key: &PrivateKey) -> (r: Option<EcdsaSignature>)
    ensures
        match r {
            Some(signature) => ecdsa_signature(private_key@, sha256_digest(tx_data.wire()))
                == Some(signature@),
            None => ecdsa_signature(private_key@, sha256_digest(tx_data.wire())) is None,
        },
{
    let tx_hash = tx_data.hash();
    sign_hash(&tx_hash, private_key)
}

/// Checks a signature over a message digest under a public key.
pub fn verify_signature(
    message_hash: &[u8; 32],
    signature: &EcdsaSignature,
    public_key: &PublicKey,
) -> (ok: bool)
    ensures
        ok == ecdsa_verifies(message_hash@, signature@, public_key@),
{
    verify_message(message_hash.as_slice(), &signature.bytes, &public_key.sec1)
}

/// Checks a signature over the digest of a transfer record under a public key.
pub fn verify_tx_signature(
    tx_data: &TransactionData,
    signature: &EcdsaSignature,
    public_key: &PublicKey,
) -> (ok: bool)
    ensures
        ok == ecdsa_verifies(sha256_digest(tx_data.wire()), signature@, public_key@),
{
    let tx_hash = tx_data.hash();
    verify_signature(&tx_hash, signature, public_key)
}

/// Recovers the public key under which a signature over a message digest
/// verifies, for a recovery id.
pub fn recover_public_key(
    message_hash: &[u8; 32],
    signature: &EcdsaSignature,
    recovery_id: u8,
) -> (r: Option<PublicKey>)
    ensures
        match r {
            Some(key) => recovered_key(message_hash@, signature@, recovery_id) == Some(key@),
            None => recovered_key(message_hash@, signature@, recovery_id) is None,
        },
{
    match recover_key(message_hash, &signature.bytes, recovery_id) {
        Some(sec1) => Some(PublicKey { sec1 }),
        None => None,
    }
}

/// The uncompressed encoding of a public key; `None` for bytes that stand
/// for no point of the curve.
pub fn public_key_uncompressed(public_key: &PublicKey) -> (out: Option<Vec<u8>>)
    ensures
        match out {
            Some(bytes) => uncompressed_encoding(public_key@) == Some(bytes@),
            None => uncompressed_encoding(public_key@) is None,
        },
{
    uncompressed_point(&public_key.sec1)
}

/// A signature and the public key it is checked under, as plain bytes.
#[derive(Clone, Debug)]
pub struct TransactionSignature {
    pub signature: [u8; 64],
    pub public_key: [u8; 33],
}

impl TransactionSignature {
    /// What `verify` answers for a record whose hashed bytes are `wire`.
    pub open spec fn accepts(&self, wire: Seq<u8>) -> bool {
        &&& signature_in_range(self.signature@)
        &&& self.public_key@[0] == 2 || self.public_key@[0] == 3 || self.public_key@[0] == 5
        &&& sec1_decoded(self.public_key@) is Some
        &&& ecdsa_verifies(
            sha256_digest(wire),
            self.signature@,
            sec1_decoded(self.public_key@).unwrap(),
        )
    }

    /// Puts a signature and a public key together.
    pub fn new(signature: EcdsaSignature, public_key: PublicKey) -> (out: Self)
        ensures
            out.signature@ == signature@,
            out.public_key@ == public_key@,
    {
        Self {
            signature: signature_to_bytes(&signature),
            public_key: public_key_to_bytes(&public_key),
        }
    }

    /// Checks the signature against a transfer record. Bytes that are no
    /// signature or no public key make the answer `false`.
    pub fn verify(&self, tx_data: &TransactionData) -> (ok: bool)
        ensures
            ok == self.accepts(tx_data.wire()),
    {
        let signature = match bytes_to_signature(&self.signature) {
            Ok(sig) => sig,
            Err(_) => {
                return false;
            },
        };
        let public_key = match bytes_to_public_key(&self.public_key) {
            Ok(pk) => pk,
            Err(_) => {
                return false;
            },
        };
        verify_tx_signature(tx_data, &signature, &public_key)
    }
}

} // verus!
