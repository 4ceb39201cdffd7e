//! What the host does with a proved batch: it holds the committed outcome
//! against the batch, hashes the journal, and writes the transfers in the
//! byte layout that the settlement contract reads.

use crate::batch::Batch;
use crate::batch::Transaction;
use crate::bytes::append_bytes;
use crate::bytes::lemma_u32_be_bytes_of_value;
use crate::bytes::lemma_u32_be_round_trip;
use crate::bytes::lemma_u64_be_bytes_of_value;
use crate::bytes::lemma_u64_be_round_trip;
use crate::bytes::push_u32_be;
use crate::bytes::push_u64_be;
use crate::bytes::read_u32_be;
use crate::bytes::read_u64_be;
use crate::bytes::take_array;
use crate::bytes::u32_be_bytes;
use crate::bytes::u32_from_be;
use crate::bytes::u64_be_bytes;
use crate::bytes::u64_from_be;
use crate::hash::sha256;
use crate::hash::sha256_digest;
use crate::hexstr::digits_start;
use crate::hexstr::hex_pairs_value;
use crate::hexstr::is_hex_pairs;
use crate::hexstr::strip_0x;
use crate::state_tree::h256_to_hex;
use crate::transition::root_text;
use crate::transition::Commit;
use vstd::prelude::*;
use vstd::string::StringSliceAdditionalSpecFns;
use vstd::utf8::encode_utf8;

verus! {

/// Why a transfer cannot be written in the wire layout.
#[derive(Clone, Copy, Debug, PartialEq, Eq, Structural)]
pub enum ShapeError {
    /// A field is not hex: an odd number of digits, or a byte that is no hex
    /// digit.
    MalformedHex,
    /// An address is not 20 bytes, or a signature not 65.
    WrongLength,
    /// More transfers than the 32-bit count can hold.
    TooManyTransactions,
}

/// Why a committed outcome is not the one the batch declares.
#[derive(Clone, Copy, Debug, PartialEq, Eq, Structural)]
pub enum CommitMismatch {
    /// The outcome does not report success.
    ProofFailed,
    /// Not every transfer of the batch was applied.
    TransactionsMissing,
    /// Not every deposit of the batch was credited.
    DepositsMissing,
    /// The root before is not the declared one.
    OldRootMismatch,
    /// The root after is not the declared one.
    NewRootMismatch,
}

/// Why the host refuses to settle.
#[derive(Clone, Copy, Debug, PartialEq, Eq, Structural)]
pub enum HostError {
    Commit(CommitMismatch),
    Shape(ShapeError),
}

/// Calls `hex::decode`, which accepts an even number of hex digits, upper or
/// lower case, and gives the byte of each pair.
#[verifier::external_body]
fn hex_decode(data: &[u8]) -> (r: Option<Vec<u8>>)
    ensures
        r is Some == is_hex_pairs(data@),
        r is Some ==> r.unwrap()@ == hex_pairs_value(data@),
{
    hex::decode(data).ok()
}

/// Decodes a hex string, with or without a leading `0x`; `None` for text that
/// is not hex.
pub fn hex_to_bytes(hex_str: &str) -> (r: Option<Vec<u8>>)
    ensures
        match r {
            Some(bytes) => is_hex_pairs(strip_0x(hex_str.spec_bytes())) && bytes@
                == hex_pairs_value(strip_0x(hex_str.spec_bytes())),
            None => !is_hex_pairs(strip_0x(hex_str.spec_bytes())),
        },
{
    let raw = hex_str.as_bytes();
    let start = digits_start(raw);
    let clean = vstd::slice::slice_subrange(raw, start, raw.len());
    hex_decode(clean)
}

/// A transfer as the settlement contract reads it.
#[derive(Clone, Copy, Debug)]
pub struct WireTransaction {
    pub from: [u8; 20],
    pub to: [u8; 20],
    pub amount: u64,
    pub nonce: u64,
    pub signature: [u8; 65],
    pub pub_key: [u8; 20],
}

/// A transfer of the wire layout, its fields as byte strings.
pub struct WireModel {
    pub from: Seq<u8>,
    pub to: Seq<u8>,
    pub amount: u64,
    pub nonce: u64,
    pub signature: Seq<u8>,
    pub pub_key: Seq<u8>,
}

impl View for WireTransaction {
    type V = WireModel;

    open spec fn view(&self) -> WireModel {
        WireModel {
            from: self.from@,
            to: self.to@,
            amount: self.amount,
            nonce: self.nonce,
            signature: self.signature@,
            pub_key: self.pub_key@,
        }
    }
}

impl WireModel {
    /// The fields have the lengths of the wire layout.
    pub open spec fn well_formed(self) -> bool {
        &&& self.from.len() == 20
        &&& self.to.len() == 20
        &&& self.signature.len() == 65
        &&& self.pub_key.len() == 20
    }

    /// The 141 bytes of the transfer: sender, receiver, amount and nonce as
    /// eight big-endian bytes each, signature, signer's address.
    pub open spec fn bytes(self) -> Seq<u8> {
        self.from + self.to + u64_be_bytes(self.amount) + u64_be_bytes(self.nonce)
            + self.signature + self.pub_key
    }
}

/// The views of the transfers, by index.
pub open spec fn wire_views(txs: Seq<WireTransaction>) -> Seq<WireModel> {
    Seq::new(txs.len(), |i: int| txs[i]@)
}

/// Every transfer of the list has fields of the wire layout's lengths.
pub open spec fn all_well_formed(txs: Seq<WireModel>) -> bool {
    forall|i: int| 0 <= i < txs.len() ==> (#[trigger] txs[i]).well_formed()
}

/// The transfers one after the other.
pub open spec fn wire_concat(txs: Seq<WireModel>) -> Seq<u8>
    decreases txs.len(),
{
    if txs.len() == 0 {
        Seq::empty()
    } else {
        wire_concat(txs.drop_last()) + txs.last().bytes()
    }
}

/// The call data of a list of transfers: their count as four big-endian
/// bytes, then the transfers.
pub open spec fn calldata_of(txs: Seq<WireModel>) -> Seq<u8> {
    u32_be_bytes(txs.len() as u32) + wire_concat(txs)
}

/// The transfer that the 141 bytes from `at` on hold.
pub open spec fn wire_at(data: Seq<u8>, at: int) -> WireModel {
    WireModel {
        from: data.subrange(at, at + 20),
        to: data.subrange(at + 20, at + 40),
        amount: u64_from_be(data.subrange(at + 40, at + 48)),
        nonce: u64_from_be(data.subrange(at + 48, at + 56)),
        signature: data.subrange(at + 56, at + 121),
        pub_key: data.subrange(at + 121, at + 141),
    }
}

/// The transfers that call data holds: the data must be exactly as long as
/// its count says. `None` for any other byte string.
pub open spec fn parse_calldata(data: Seq<u8>) -> Option<Seq<WireModel>> {
    if data.len() >= 4 && data.len() == 4 + 141 * (u32_from_be(data.subrange(0, 4)) as int) {
        Some(
            Seq::new(
                u32_from_be(data.subrange(0, 4)) as nat,
                |i: int| wire_at(data, 4 + 141 * i),
            ),
        )
    } else {
        None
    }
}

/// The bytes of a hex field that must have a given length.
pub open spec fn field_bytes(text: Seq<char>, len: nat) -> Result<Seq<u8>, ShapeError> {
    let digits = strip_0x(encode_utf8(text));
    if !is_hex_pairs(digits) {
        Err(ShapeError::MalformedHex)
    } else if hex_pairs_value(digits).len() != len {
        Err(ShapeError::WrongLength)
    } else {
        Ok(hex_pairs_value(digits))
    }
}

/// The wire form of a transfer: its addresses must be 20 bytes of hex, its
/// signature 65. The fields are looked at in the order sender, receiver,
/// signature, signer's address, and the first that fails gives the error.
pub open spec fn wire_of(tx: Transaction) -> Result<WireModel, ShapeError> {
    let from = field_bytes(tx.from@, 20);
    let to = field_bytes(tx.to@, 20);
    let signature = field_bytes(tx.signature.signature@, 65);
    let pub_key = field_bytes(tx.signature.pub_key@, 20);
    if from is Err {
        Err(from->Err_0)
    } else if to is Err {
        Err(to->Err_0)
    } else if signature is Err {
        Err(signature->Err_0)
    } else if pub_key is Err {
        Err(pub_key->Err_0)
    } else {
        Ok(
            WireModel {
                from: from->Ok_0,
                to: to->Ok_0,
                amount: tx.amount,
                nonce: tx.nonce,
                signature: signature->Ok_0,
                pub_key: pub_key->Ok_0,
            },
        )
    }
}

/// The wire forms of the first `n` transfers, or the error of the first
/// transfer that has none.
pub open spec fn wire_list(txs: Seq<Transaction>, n: nat) -> Result<Seq<WireModel>, ShapeError>
    decreases n,
{
    if n == 0 {
        Ok(Seq::empty())
    } else {
        let before = wire_list(txs, (n - 1) as nat);
        let this = wire_of(txs[n - 1]);
        if before is Err {
            before
        } else if this is Err {
            Err(this->Err_0)
        } else {
            Ok(before->Ok_0.push(this->Ok_0))
        }
    }
}

/// The call data of a batch's transfers, or why there is none.
pub open spec fn transaction_calldata(txs: Seq<Transaction>) -> Result<Seq<u8>, ShapeError> {
    if txs.len() > u32::MAX {
        Err(ShapeError::TooManyTransactions)
    } else if wire_list(txs, txs.len()) is Err {
        Err(wire_list(txs, txs.len())->Err_0)
    } else {
        Ok(calldata_of(wire_list(txs, txs.len())->Ok_0))
    }
}

/// Once a transfer has no wire form, the list has none.
pub proof fn lemma_wire_list_stays(txs: Seq<Transaction>, i: nat, n: nat)
    requires
        i <= n,
        wire_list(txs, i) is Err,
    ensures
        wire_list(txs, n) == wire_list(txs, i),
    decreases n,
{
    if i < n {
        lemma_wire_list_stays(txs, i, (n - 1) as nat);
    }
}

/// The wire forms of transfers are as many as the transfers, each with fields
/// of the layout's lengths.
pub proof fn lemma_wire_list_well_formed(txs: Seq<Transaction>, n: nat)
    requires
        wire_list(txs, n) is Ok,
    ensures
        wire_list(txs, n)->Ok_0.len() == n,
        all_well_formed(wire_list(txs, n)->Ok_0),
    decreases n,
{
    if n > 0 {
        lemma_wire_list_well_formed(txs, (n - 1) as nat);
    }
}

/// Each transfer takes 141 bytes.
pub proof fn lemma_wire_concat_len(txs: Seq<WireModel>)
    requires
        all_well_formed(txs),
    ensures
        wire_concat(txs).len() == 141 * txs.len(),
    decreases txs.len(),
{
    if txs.len() > 0 {
        assert(all_well_formed(txs.drop_last())) by {
            assert forall|i: int| 0 <= i < txs.drop_last().len() implies (
            #[trigger] txs.drop_last()[i]).well_formed() by {
                assert(txs.drop_last()[i] == txs[i]);
            }
        }
        lemma_wire_concat_len(txs.drop_last());
    }
}

/// Reading a well-formed transfer back from its bytes gives the transfer.
pub proof fn lemma_wire_at_bytes(before: Seq<u8>, w: WireModel, after: Seq<u8>)
    requires
        w.well_formed(),
    ensures
        wire_at(before + w.bytes() + after, before.len() as int) == w,
{
    let data = before + w.bytes() + after;
    let at = before.len() as int;
    assert(data.subrange(at, at + 20) =~= w.from);
    assert(data.subrange(at + 20, at + 40) =~= w.to);
    assert(data.subrange(at + 40, at + 48) =~= u64_be_bytes(w.amount));
    assert(data.subrange(at + 48, at + 56) =~= u64_be_bytes(w.nonce));
    assert(data.subrange(at + 56, at + 121) =~= w.signature);
    assert(data.subrange(at + 121, at + 141) =~= w.pub_key);
    lemma_u64_be_round_trip(w.amount);
    lemma_u64_be_round_trip(w.nonce);
}

/// Writing out the transfer that 141 bytes hold gives the bytes.
pub proof fn lemma_bytes_of_wire_at(data: Seq<u8>, at: int)
    requires
        0 <= at,
        at + 141 <= data.len(),
    ensures
        wire_at(data, at).well_formed(),
        wire_at(data, at).bytes() == data.subrange(at, at + 141),
{
    lemma_u64_be_bytes_of_value(data.subrange(at + 40, at + 48));
    lemma_u64_be_bytes_of_value(data.subrange(at + 48, at + 56));
    assert(wire_at(data, at).bytes() =~= data.subrange(at, at + 141));
}

/// In the run of transfers, transfer `i` stands at byte `141 * i`.
proof fn lemma_wire_concat_at(txs: Seq<WireModel>, i: int)
    requires
        all_well_formed(txs),
        0 <= i < txs.len(),
    ensures
        wire_concat(txs).len() == 141 * txs.len(),
        wire_concat(txs).subrange(141 * i, 141 * i + 141) == txs[i].bytes(),
    decreases txs.len(),
{
    lemma_wire_concat_len(txs);
    let init = txs.drop_last();
    assert(all_well_formed(init)) by {
        assert forall|k: int| 0 <= k < init.len() implies (#[trigger] init[k]).well_formed() by {
            assert(init[k] == txs[k]);
        }
    }
    lemma_wire_concat_len(init);
    if i == txs.len() - 1 {
        assert(wire_concat(txs).subrange(141 * i, 141 * i + 141) =~= txs[i].bytes());
    } else {
        lemma_wire_concat_at(init, i);
        assert(wire_concat(txs).subrange(141 * i, 141 * i + 141) =~= wire_concat(init).subrange(
            141 * i,
            141 * i + 141,
        ));
    }
}

/// Call data that is read back gives the transfers it was written from:
/// writing and reading are inverse on lists of well-formed transfers that the
/// count can hold.
pub proof fn lemma_calldata_reads_back(txs: Seq<WireModel>)
    requires
        all_well_formed(txs),
        txs.len() <= u32::MAX,
    ensures
        parse_calldata(calldata_of(txs)) == Some(txs),
{
    let data = calldata_of(txs);
    let head = u32_be_bytes(txs.len() as u32);
    lemma_wire_concat_len(txs);
    lemma_u32_be_round_trip(txs.len() as u32);
    assert(data.subrange(0, 4) =~= head);
    let parsed = parse_calldata(data)->Some_0;
    assert forall|i: int| 0 <= i < txs.len() implies parsed[i] == txs[i] by {
        lemma_wire_concat_at(txs, i);
        let body = wire_concat(txs);
        let before = head + body.subrange(0, 141 * i);
        let after = body.subrange(141 * i + 141, body.len() as int);
        assert(body.subrange(141 * i, 141 * i + 141) == txs[i].bytes());
        assert(data =~= before + txs[i].bytes() + after);
        lemma_wire_at_bytes(before, txs[i], after);
    }
    assert(parsed =~= txs);
}

/// The first `n` transfers that call data holds, written out, are the bytes
/// that hold them.
proof fn lemma_prefix_writes_back(data: Seq<u8>, n: nat)
    requires
        4 + 141 * n <= data.len(),
    ensures
        wire_concat(Seq::new(n, |i: int| wire_at(data, 4 + 141 * i))) == data.subrange(
            4,
            4 + 141 * (n as int),
        ),
    decreases n,
{
    let txs = Seq::new(n, |i: int| wire_at(data, 4 + 141 * i));
    if n == 0 {
        assert(wire_concat(txs) =~= data.subrange(4, 4));
    } else {
        let init = Seq::new((n - 1) as nat, |i: int| wire_at(data, 4 + 141 * i));
        assert(txs.drop_last() =~= init);
        lemma_prefix_writes_back(data, (n - 1) as nat);
        lemma_bytes_of_wire_at(data, 4 + 141 * (n - 1));
        assert(txs.last() == wire_at(data, 4 + 141 * (n - 1)));
        assert(wire_concat(txs) =~= data.subrange(4, 4 + 141 * (n as int)));
    }
}

/// Transfers that were read from call data give the same call data when they
/// are written: there is one byte string for each list of transfers.
pub proof fn lemma_calldata_writes_back(data: Seq<u8>)
    requires
        parse_calldata(data) is Some,
    ensures
        all_well_formed(parse_calldata(data)->Some_0),
        parse_calldata(data)->Some_0.len() <= u32::MAX,
        calldata_of(parse_calldata(data)->Some_0) == data,
{
    let count = u32_from_be(data.subrange(0, 4));
    let txs = parse_calldata(data)->Some_0;
    assert forall|i: int| 0 <= i < txs.len() implies (#[trigger] txs[i]).well_formed() by {
        lemma_bytes_of_wire_at(data, 4 + 141 * i);
    }
    lemma_prefix_writes_back(data, count as nat);
    lemma_u32_be_bytes_of_value(data.subrange(0, 4));
    assert(calldata_of(txs) =~= data);
}

/// The call data of a batch's transfers, read back, gives their wire forms.
pub proof fn lemma_transaction_calldata_reads_back(txs: Seq<Transaction>)
    requires
        transaction_calldata(txs) is Ok,
    ensures
        parse_calldata(transaction_calldata(txs)->Ok_0) == Some(wire_list(txs, txs.len())->Ok_0),
{
    lemma_wire_list_well_formed(txs, txs.len());
    lemma_calldata_reads_back(wire_list(txs, txs.len())->Ok_0);
}

/// Reads a hex field that must be `N` bytes long.
pub fn decode_field<const N: usize>(text: &str) -> (r: Result<[u8; N], ShapeError>)
    ensures
        match r {
            Ok(bytes) => field_bytes(text@, N as nat) == Ok::<Seq<u8>, ShapeError>(bytes@),
            Err(e) => field_bytes(text@, N as nat) == Err::<Seq<u8>, ShapeError>(e),
        },
{
    match hex_to_bytes(text) {
        None => Err(ShapeError::MalformedHex),
        Some(bytes) => {
            if bytes.len() != N {
                Err(ShapeError::WrongLength)
            } else {
                let out: [u8; N] = take_array(bytes.as_slice(), 0);
                assert(out@ =~= bytes@);
                Ok(out)
            }
        },
    }
}

/// Brings a transfer into its wire form.
pub fn to_wire(tx: &Transaction) -> (r: Result<WireTransaction, ShapeError>)
    ensures
        match r {
            Ok(wire) => wire_of(*tx) == Ok::<WireModel, ShapeError>(wire@),
            Err(e) => wire_of(*tx) == Err::<WireModel, ShapeError>(e),
        },
{
    let from: [u8; 20] = match decode_field(tx.from.as_str()) {
        Ok(bytes) => bytes,
        Err(e) => {
            return Err(e);
        },
    };
    let to: [u8; 20] = match decode_field(tx.to.as_str()) {
        Ok(bytes) => bytes,
        Err(e) => {
            return Err(e);
        },
    };
    let signature: [u8; 65] = match decode_field(tx.signature.signature.as_str()) {
        Ok(bytes) => bytes,
        Err(e) => {
            return Err(e);
        },
    };
    let pub_key: [u8; 20] = match decode_field(tx.signature.pub_key.as_str()) {
        Ok(bytes) => bytes,
        Err(e) => {
            return Err(e);
        },
    };
    Ok(WireTransaction { from, to, amount: tx.amount, nonce: tx.nonce, signature, pub_key })
}

/// Appends the 141 bytes of a transfer.
pub fn push_wire(out: &mut Vec<u8>, wire: &WireTransaction)
    ensures
        final(out)@ == old(out)@ + wire@.bytes(),
{
    append_bytes(out, wire.from.as_slice());
    append_bytes(out, wire.to.as_slice());
    push_u64_be(out, wire.amount);
    push_u64_be(out, wire.nonce);
    append_bytes(out, wire.signature.as_slice());
    append_bytes(out, wire.pub_key.as_slice());
    assert(out@ =~= old(out)@ + wire@.bytes());
}

/// Writes the transfers of a batch as call data for the settlement contract.
///
/// A transfer whose addresses are not 20 bytes of hex, or whose signature is
/// not 65, has no place in the layout and is refused, as is a list longer
/// than the count can hold.
pub fn create_transaction_calldata(transactions: &[Transaction]) -> (r: Result<
    Vec<u8>,
    ShapeError,
>)
    ensures
        match r {
            Ok(calldata) => transaction_calldata(transactions@) == Ok::<Seq<u8>, ShapeError>(
                calldata@,
            ),
            Err(e) => transaction_calldata(transactions@) == Err::<Seq<u8>, ShapeError>(e),
        },
{
    let count = transactions.len();
    if count > u32::MAX as usize {
        return Err(ShapeError::TooManyTransactions);
    }
    let mut calldata: Vec<u8> = Vec::new();
    push_u32_be(&mut calldata, count as u32);
    let ghost head = calldata@;
    let mut i: usize = 0;
    while i < count
        invariant
            i <= count,
            count == transactions@.len(),
            count <= u32::MAX,
            head == u32_be_bytes(count as u32),
            wire_list(transactions@, i as nat) is Ok,
            calldata@ == head + wire_concat(wire_list(transactions@, i as nat)->Ok_0),
        decreases count - i,
    {
        match to_wire(&transactions[i]) {
            Err(e) => {
                proof {
                    lemma_wire_list_stays(transactions@, (i + 1) as nat, count as nat);
                }
                return Err(e);
            },
            Ok(wire) => {
                push_wire(&mut calldata, &wire);
                proof {
                    let before = wire_list(transactions@, i as nat)->Ok_0;
                    let now = wire_list(transactions@, (i + 1) as nat)->Ok_0;
                    assert(now == before.push(wire@));
                    assert(now.drop_last() =~= before);
                    assert(calldata@ =~= head + wire_concat(now));
                }
            },
        }
        i += 1;
    }
    proof {
        lemma_wire_list_well_formed(transactions@, count as nat);
    }
    Ok(calldata)
}

/// Reads the transfer that the 141 bytes from `at` on hold.
pub fn read_wire(data: &[u8], at: usize) -> (wire: WireTransaction)
    requires
        at + 141 <= data@.len(),
    ensures
        wire@ == wire_at(data@, at as int),
{
    let len = data.len();
    assert(at + 141 <= len);
    let from: [u8; 20] = take_array(data, at);
    let to: [u8; 20] = take_array(data, at + 20);
    let amount = read_u64_be(data, at + 40);
    let nonce = read_u64_be(data, at + 48);
    let signature: [u8; 65] = take_array(data, at + 56);
    let pub_key: [u8; 20] = take_array(data, at + 121);
    WireTransaction { from, to, amount, nonce, signature, pub_key }
}

/// Reads call data back into transfers; `None` for bytes that are not the
/// call data of any list of transfers.
pub fn decode_transaction_calldata(data: &[u8]) -> (r: Option<Vec<WireTransaction>>)
    ensures
        match r {
            Some(txs) => parse_calldata(data@) == Some(wire_views(txs@)),
            None => parse_calldata(data@) is None,
        },
{
    let len = data.len();
    if len < 4 {
        return None;
    }
    let count = read_u32_be(data, 0) as usize;
    if (len - 4) % 141 != 0 || (len - 4) / 141 != count {
        return None;
    }
    let mut txs: Vec<WireTransaction> = Vec::new();
    let mut i: usize = 0;
    while i < count
        invariant
            i <= count,
            len == data@.len(),
            len == 4 + 141 * count,
            txs@.len() == i,
            forall|k: int| 0 <= k < i ==> (#[trigger] txs@[k])@ == wire_at(data@, 4 + 141 * k),
        decreases count - i,
    {
        let wire = read_wire(data, 4 + 141 * i);
        txs.push(wire);
        i += 1;
    }
    assert(wire_views(txs@) =~= parse_calldata(data@)->Some_0);
    Some(txs)
}

/// Whether a committed outcome is the one that the batch declares: it
/// reports success, counts every transfer and every deposit, and names both
/// declared roots. The first of these that fails gives the error.
pub open spec fn commit_mismatch(batch: Batch, commit: Commit) -> Option<CommitMismatch> {
    if !commit.success {
        Some(CommitMismatch::ProofFailed)
    } else if commit.transactions_processed != batch.transactions@.len() as u32 {
        Some(CommitMismatch::TransactionsMissing)
    } else if commit.processed_deposit_ids@.len() != batch.deposits@.len() {
        Some(CommitMismatch::DepositsMissing)
    } else if root_text(commit.old_root@) != batch.old_merkle_root@ {
        Some(CommitMismatch::OldRootMismatch)
    } else if root_text(commit.new_root@) != batch.new_merkle_root@ {
        Some(CommitMismatch::NewRootMismatch)
    } else {
        None
    }
}

/// Holds a committed outcome against the batch it was proved for.
///
/// When the check passes, both committed roots are the ones that the batch
/// declares.
pub fn check_commit(batch: &Batch, commit: &Commit) -> (r: Result<(), CommitMismatch>)
    ensures
        match r {
            Ok(_) => commit_mismatch(*batch, *commit) is None,
            Err(e) => commit_mismatch(*batch, *commit) == Some(e),
        },
        r is Ok ==> root_text(commit.old_root@) == batch.old_merkle_root@ && root_text(
            commit.new_root@,
        ) == batch.new_merkle_root@,
{
    if !commit.success {
        return Err(CommitMismatch::ProofFailed);
    }
    if commit.transactions_processed != #[verifier::truncate]
    (batch.transactions.len() as u32) {
        return Err(CommitMismatch::TransactionsMissing);
    }
    if commit.processed_deposit_ids.len() != batch.deposits.len() {
        return Err(CommitMismatch::DepositsMissing);
    }
    let computed_old_root = h256_to_hex(&commit.old_root);
    let computed_new_root = h256_to_hex(&commit.new_root);
    if computed_old_root != batch.old_merkle_root {
        return Err(CommitMismatch::OldRootMismatch);
    }
    if computed_new_root != batch.new_merkle_root {
        return Err(CommitMismatch::NewRootMismatch);
    }
    Ok(())
}

/// The hash of the journal that the settlement contract checks: the SHA-256
/// digest of its bytes.
pub fn journal_hash(journal: &[u8]) -> (digest: [u8; 32])
    ensures
        digest@ == sha256_digest(journal@),
{
    sha256(journal)
}

/// What the host submits besides the seal.
#[derive(Clone, Debug)]
pub struct Settlement {
    pub badge_id: u32,
    pub tx_data: Vec<u8>,
    pub journal_hash: [u8; 32],
}

/// What is submitted for a batch, its committed outcome and its journal, or
/// why nothing is.
pub open spec fn settlement_of(batch: Batch, commit: Commit, journal: Seq<u8>) -> Result<
    (u32, Seq<u8>, Seq<u8>),
    HostError,
> {
    if commit_mismatch(batch, commit) is Some {
        Err(HostError::Commit(commit_mismatch(batch, commit)->Some_0))
    } else if transaction_calldata(batch.transactions@) is Err {
        Err(HostError::Shape(transaction_calldata(batch.transactions@)->Err_0))
    } else {
        Ok((commit.badge_id, transaction_calldata(batch.transactions@)->Ok_0, sha256_digest(journal)))
    }
}

/// Decides whether a proved batch is settled, and with what: the committed
/// outcome must be the declared one; then the journal is hashed and the
/// transfers are written as call data.
pub fn prepare_settlement(batch: &Batch, commit: &Commit, journal: &[u8]) -> (r: Result<
    Settlement,
    HostError,
>)
    ensures
        match r {
            Ok(s) => settlement_of(*batch, *commit, journal@) == Ok::<
                (u32, Seq<u8>, Seq<u8>),
                HostError,
            >((s.badge_id, s.tx_data@, s.journal_hash@)),
            Err(e) => settlement_of(*batch, *commit, journal@) == Err::<
                (u32, Seq<u8>, Seq<u8>),
                HostError,
            >(e),
        },
{
    match check_commit(batch, commit) {
        Err(e) => {
            return Err(HostError::Commit(e));
        },
        Ok(_) => {},
    }
    let digest = journal_hash(journal);
    match create_transaction_calldata(batch.transactions.as_slice()) {
        Err(e) => Err(HostError::Shape(e)),
        Ok(tx_data) => Ok(Settlement { badge_id: commit.badge_id, tx_data, journal_hash: digest }),
    }
}

} // verus!
