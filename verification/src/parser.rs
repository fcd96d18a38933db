use vstd::prelude::*;
use crate::encoding::{decode_hex, hex_bytes, is_hex_text, strip_prefix};
use crate::error::{ErrorKind, Failure};
use crate::json::{items_view, Json, JsonValue};

verus! {

/// The number of bytes in a transaction hash.
pub const HASH_WIDTH: usize = 32;

/// The hash that identifies a transaction.
#[derive(Clone, Copy, Debug, PartialEq, Eq)]
pub struct TransactionHash {
    pub bytes: [u8; HASH_WIDTH],
}

impl View for TransactionHash {
    type V = Seq<u8>;

    open spec fn view(&self) -> Seq<u8> {
        self.bytes@
    }
}

/// The ledger network whose rules a caller selects.
#[derive(Clone, Copy, Debug, PartialEq, Eq, Structural)]
pub enum NetworkId {
    Undeployed,
    DevNet,
    TestNet,
    MainNet,
}

/// A transaction as the ledger crate decodes it.
///
/// The value is carried, never inspected: its type is built from the
/// ledger's signature, commitment and storage types, none of which this
/// library reads.
#[verifier::external_body]
#[derive(Debug)]
pub struct DecodedTransaction {
    pub inner: midnight_ledger::structure::Transaction<
        midnight_base_crypto::signatures::Signature,
        (),
        midnight_transient_crypto::commitment::PureGeneratorPedersen,
        midnight_storage::DefaultDB,
    >,
}

/// The decoder's error, carried as it comes.
#[verifier::external_type_specification]
#[verifier::external_body]
pub struct ExIoError(std::io::Error);

/// What the ledger's decoder makes of `bytes`: `None` where it reports an
/// error, `Some(None)` where the bytes encode the marker for "no
/// transaction", `Some(Some(t))` where they encode the transaction `t`.
pub uninterp spec fn transaction_decoding(bytes: Seq<u8>) -> Option<Option<DecodedTransaction>>;

/// Decodes an optional transaction with `midnight_serialize::tagged_deserialize`.
///
/// The contract gives the outcome a name and claims only that the decoder is
/// a function of the bytes it reads.
#[verifier::external_body]
pub(crate) fn decode_transaction(bytes: &[u8]) -> (decoded: Result<
    Option<DecodedTransaction>,
    std::io::Error,
>)
    ensures
        decoded matches Ok(transaction) ==> transaction_decoding(bytes@) == Some(transaction),
        decoded is Err ==> transaction_decoding(bytes@) is None,
{
    midnight_serialize::tagged_deserialize(bytes).map(
        |transaction: Option<_>| transaction.map(|inner| DecodedTransaction { inner }),
    )
}

/// What the two texts of an index entry hold before any transaction is
/// decoded: the hash's bytes and, unless the payload is empty, the
/// payload's bytes; or the reason for which the entry is rejected.
pub open spec fn prepared(hash: Seq<char>, payload: Seq<char>) -> Result<
    (Seq<u8>, Option<Seq<u8>>),
    ErrorKind,
> {
    if hash.len() < 2 || payload.len() < 2 {
        Err(ErrorKind::InvalidPrefix)
    } else if !is_hex_text(hash.skip(2)) {
        Err(ErrorKind::HashDecodeError)
    } else if hex_bytes(hash.skip(2)).len() != HASH_WIDTH {
        Err(
            ErrorKind::InvalidHashLength {
                actual: hex_bytes(hash.skip(2)).len() as usize,
                expected: HASH_WIDTH,
            },
        )
    } else if payload.len() == 2 {
        Ok((hex_bytes(hash.skip(2)), None))
    } else if !is_hex_text(payload.skip(2)) {
        Err(ErrorKind::PayloadDecodeError)
    } else {
        Ok((hex_bytes(hash.skip(2)), Some(hex_bytes(payload.skip(2)))))
    }
}

/// The hash and payload of a prepared entry as mathematical values.
pub open spec fn prepared_view(r: Result<(TransactionHash, Option<Vec<u8>>), Failure>) -> Result<
    (Seq<u8>, Option<Seq<u8>>),
    ErrorKind,
> {
    match r {
        Ok((hash, Some(payload))) => Ok((hash@, Some(payload@))),
        Ok((hash, None)) => Ok((hash@, None)),
        Err(e) => Err(e.kind),
    }
}

fn hash_from_bytes(bytes: &Vec<u8>) -> (hash: TransactionHash)
    requires
        bytes@.len() == HASH_WIDTH,
    ensures
        hash@ == bytes@,
{
    let mut out = [0u8; 32];
    let mut i: usize = 0;
    while i < 32
        invariant
            i <= 32,
            bytes@.len() == 32,
            forall|k: int| 0 <= k < i ==> out@[k] == bytes@[k],
        decreases 32 - i,
    {
        out[i] = bytes[i];
        i += 1;
    }
    assert(out@ =~= bytes@);
    TransactionHash { bytes: out }
}

/// Strips the prefixes, decodes the hash and the payload from hexadecimal
/// and checks the hash's width, in that order; an empty payload is left
/// undecoded and reported as `None`.
pub fn prepare_item(hash_with_prefix: &str, raw_tx_data_with_prefix: &str) -> (r: Result<
    (TransactionHash, Option<Vec<u8>>),
    Failure,
>)
    ensures
        prepared_view(r) == prepared(hash_with_prefix@, raw_tx_data_with_prefix@),
{
    let hash_text = match strip_prefix(hash_with_prefix) {
        Some(rest) => rest,
        None => { return Err(Failure::new(ErrorKind::InvalidPrefix)); },
    };
    let payload_text = match strip_prefix(raw_tx_data_with_prefix) {
        Some(rest) => rest,
        None => { return Err(Failure::new(ErrorKind::InvalidPrefix)); },
    };
    let hash_bytes = match decode_hex(hash_text) {
        Ok(bytes) => bytes,
        Err(e) => { return Err(Failure::with_detail(ErrorKind::HashDecodeError, e.to_string())); },
    };
    if hash_bytes.len() != HASH_WIDTH {
        return Err(
            Failure::new(
                ErrorKind::InvalidHashLength { actual: hash_bytes.len(), expected: HASH_WIDTH },
            ),
        );
    }
    let hash = hash_from_bytes(&hash_bytes);
    if payload_text.unicode_len() == 0 {
        return Ok((hash, None));
    }
    match decode_hex(payload_text) {
        Ok(payload) => Ok((hash, Some(payload))),
        Err(e) => Err(Failure::with_detail(ErrorKind::PayloadDecodeError, e.to_string())),
    }
}


/// The result of reading one index entry, given what the decoder makes of
/// the payload's bytes.
///
/// An empty payload stands for an entry without a body: its transaction is
/// absent and `decoding` is not consulted. A payload that decodes to the
/// marker for "no transaction" is an error, `TransactionDataAbsent`.
pub open spec fn item_outcome(
    hash: Seq<char>,
    payload: Seq<char>,
    decoding: Option<Option<DecodedTransaction>>,
) -> Result<(Seq<u8>, Option<DecodedTransaction>), ErrorKind> {
    match prepared(hash, payload) {
        Err(kind) => Err(kind),
        Ok((bytes, None)) => Ok((bytes, None)),
        Ok((bytes, Some(_))) => match decoding {
            None => Err(ErrorKind::TransactionDecodeError),
            Some(None) => Err(ErrorKind::TransactionDataAbsent),
            Some(Some(transaction)) => Ok((bytes, Some(transaction))),
        },
    }
}

/// The result of reading one index entry.
pub open spec fn parsed_item(hash: Seq<char>, payload: Seq<char>) -> Result<
    (Seq<u8>, Option<DecodedTransaction>),
    ErrorKind,
> {
    item_outcome(hash, payload, transaction_decoding(hex_bytes(payload.skip(2))))
}

/// A read entry as mathematical values.
pub open spec fn item_view(r: Result<(TransactionHash, Option<DecodedTransaction>), Failure>)
    -> Result<(Seq<u8>, Option<DecodedTransaction>), ErrorKind> {
    match r {
        Ok((hash, transaction)) => Ok((hash@, transaction)),
        Err(e) => Err(e.kind),
    }
}

/// Pairs a validated hash with what the decoder returned for its payload.
///
/// A decoded transaction is passed on; the marker for "no transaction" is
/// `TransactionDataAbsent`; a decoder error is `TransactionDecodeError`,
/// with the decoder's words as detail.
pub fn conclude_item(
    hash: TransactionHash,
    decoded: Result<Option<DecodedTransaction>, std::io::Error>,
) -> (r: Result<(TransactionHash, Option<DecodedTransaction>), Failure>)
    ensures
        match decoded {
            Ok(Some(transaction)) => r == Ok::<_, Failure>((hash, Some(transaction))),
            Ok(None) => r is Err && r->Err_0.kind == ErrorKind::TransactionDataAbsent
                && r->Err_0.detail@.len() == 0,
            Err(e) => r is Err && r->Err_0.kind == ErrorKind::TransactionDecodeError
                && vstd::string::to_string_from_display_ensures::<std::io::Error>(
                &e,
                r->Err_0.detail,
            ),
        },
{
    match decoded {
        Ok(Some(transaction)) => Ok((hash, Some(transaction))),
        Ok(None) => Err(Failure::new(ErrorKind::TransactionDataAbsent)),
        Err(e) => Err(Failure::with_detail(ErrorKind::TransactionDecodeError, e.to_string())),
    }
}

/// Reads one entry of a block's transaction index: the hash and the payload
/// as the node sends them, each behind a two-character prefix.
///
/// The decoder takes its network from the payload itself, so the network
/// that the caller names does not enter the result.
pub fn parse_tx_index_item(
    hash_with_prefix: &str,
    raw_tx_data_with_prefix: &str,
    _network_id: NetworkId,
) -> (r: Result<(TransactionHash, Option<DecodedTransaction>), Failure>)
    ensures
        item_view(r) == parsed_item(hash_with_prefix@, raw_tx_data_with_prefix@),
{
    match prepare_item(hash_with_prefix, raw_tx_data_with_prefix) {
        Err(e) => Err(e),
        Ok((hash, None)) => Ok((hash, None)),
        Ok((hash, Some(payload))) => {
            let decoded = decode_transaction(payload.as_slice());
            conclude_item(hash, decoded)
        },
    }
}


/// The hash and payload texts of a well-formed index entry: an array of
/// exactly two strings. Anything else is no entry.
pub open spec fn index_entry(item: JsonValue) -> Option<(Seq<char>, Seq<char>)> {
    match item {
        JsonValue::Array(pair) => if pair.len() == 2 {
            match (pair[0], pair[1]) {
                (JsonValue::Text(hash), JsonValue::Text(payload)) => Some((hash, payload)),
                _ => None,
            }
        } else {
            None
        },
        _ => None,
    }
}

/// The well-formed entries among `items`, in the order of `items`.
pub open spec fn index_entries(items: Seq<JsonValue>) -> Seq<(Seq<char>, Seq<char>)>
    decreases items.len(),
{
    if items.len() == 0 {
        Seq::empty()
    } else {
        let before = index_entries(items.drop_last());
        match index_entry(items.last()) {
            Some(entry) => before.push(entry),
            None => before,
        }
    }
}

/// The well-formed entries of a block's `transactions_index`; none where
/// the block has no such member or it is not an array.
pub open spec fn transactions_index(block: JsonValue) -> Seq<(Seq<char>, Seq<char>)> {
    match block.field("transactions_index"@) {
        Some(JsonValue::Array(items)) => index_entries(items),
        _ => Seq::empty(),
    }
}

/// The result of reading `entries` one after another: every entry's result
/// in order, or the failure of the first entry that fails.
pub open spec fn extraction(entries: Seq<(Seq<char>, Seq<char>)>) -> Result<
    Seq<(Seq<u8>, Option<DecodedTransaction>)>,
    ErrorKind,
>
    decreases entries.len(),
{
    if entries.len() == 0 {
        Ok(Seq::empty())
    } else {
        match extraction(entries.drop_last()) {
            Err(kind) => Err(kind),
            Ok(before) => match parsed_item(entries.last().0, entries.last().1) {
                Err(kind) => Err(kind),
                Ok(pair) => Ok(before.push(pair)),
            },
        }
    }
}

/// Read entries as mathematical values.
pub open spec fn pairs_view(pairs: Seq<(TransactionHash, Option<DecodedTransaction>)>) -> Seq<
    (Seq<u8>, Option<DecodedTransaction>),
> {
    Seq::new(pairs.len(), |i: int| (pairs[i].0@, pairs[i].1))
}

/// The result of an extraction as mathematical values.
pub open spec fn extraction_view(
    r: Result<Vec<(TransactionHash, Option<DecodedTransaction>)>, Failure>,
) -> Result<Seq<(Seq<u8>, Option<DecodedTransaction>)>, ErrorKind> {
    match r {
        Ok(pairs) => Ok(pairs_view(pairs@)),
        Err(e) => Err(e.kind),
    }
}

/// Tells a well-formed index entry from anything else, and hands out its
/// two texts.
pub fn read_index_entry(item: &Json) -> (entry: Option<(&str, &str)>)
    ensures
        match entry {
            Some((hash, payload)) => index_entry(item@) == Some((hash@, payload@)),
            None => index_entry(item@) is None,
        },
{
    match item.as_array() {
        Some(pair) => {
            if pair.len() == 2 {
                match (pair[0].as_str(), pair[1].as_str()) {
                    (Some(hash), Some(payload)) => Some((hash, payload)),
                    _ => None,
                }
            } else {
                None
            }
        },
        None => None,
    }
}

proof fn lemma_failure_persists(items: Seq<JsonValue>, from: int, kind: ErrorKind)
    requires
        0 <= from <= items.len(),
        extraction(index_entries(items.take(from))) == Err::<
            Seq<(Seq<u8>, Option<DecodedTransaction>)>,
            ErrorKind,
        >(kind),
    ensures
        extraction(index_entries(items)) == Err::<
            Seq<(Seq<u8>, Option<DecodedTransaction>)>,
            ErrorKind,
        >(kind),
    decreases items.len() - from,
{
    if from == items.len() {
        assert(items.take(from) =~= items);
    } else {
        let next = items.take(from + 1);
        assert(next.drop_last() =~= items.take(from));
        assert(next.last() == items[from]);
        match index_entry(items[from]) {
            Some(entry) => {
                let before = index_entries(items.take(from));
                assert(index_entries(next) == before.push(entry));
                assert(before.push(entry).drop_last() =~= before);
            },
            None => {},
        }
        lemma_failure_persists(items, from + 1, kind);
    }
}

/// Reads every well-formed entry of a block's transaction index, in order.
///
/// A block without a `transactions_index` array has no transactions; an
/// element of the array that is not an array of exactly two strings is
/// passed over. The first entry that fails ends the extraction with its
/// failure.
pub fn deserialize_transactions(block_value: Json) -> (r: Result<
    Vec<(TransactionHash, Option<DecodedTransaction>)>,
    Failure,
>)
    ensures
        extraction_view(r) == extraction(transactions_index(block_value@)),
{
    let mut txs: Vec<(TransactionHash, Option<DecodedTransaction>)> = Vec::new();
    assert(pairs_view(txs@) =~= Seq::empty());
    let items = match block_value.get("transactions_index") {
        Some(index) => match index.as_array() {
            Some(items) => items,
            None => { return Ok(txs); },
        },
        None => { return Ok(txs); },
    };
    let ghost all = items_view(items@);
    assert(all.take(0) =~= Seq::<JsonValue>::empty());
    let mut i: usize = 0;
    while i < items.len()
        invariant
            i <= items.len(),
            all == items_view(items@),
            transactions_index(block_value@) == index_entries(all),
            extraction(index_entries(all.take(i as int))) == Ok::<_, ErrorKind>(pairs_view(txs@)),
        decreases items.len() - i,
    {
        let ghost before = index_entries(all.take(i as int));
        let ghost next = all.take(i as int + 1);
        proof {
            assert(next.drop_last() =~= all.take(i as int));
            assert(next.last() == items@[i as int]@);
        }
        match read_index_entry(&items[i]) {
            Some((hash, payload)) => {
                proof {
                    assert(index_entries(next) == before.push((hash@, payload@)));
                    assert(before.push((hash@, payload@)).drop_last() =~= before);
                }
                match parse_tx_index_item(hash, payload, NetworkId::TestNet) {
                    Ok(pair) => {
                        let ghost old_view = pairs_view(txs@);
                        txs.push(pair);
                        assert(pairs_view(txs@) =~= old_view.push((pair.0@, pair.1)));
                    },
                    Err(e) => {
                        proof {
                            lemma_failure_persists(all, i as int + 1, e.kind);
                        }
                        return Err(e);
                    },
                }
            },
            None => {},
        }
        i += 1;
    }
    assert(all.take(i as int) =~= all);
    Ok(txs)
}


/// Reading the same entry twice gives the same hash and the same
/// transaction, or the same kind of failure.
pub proof fn lemma_parse_repeatable(
    hash: Seq<char>,
    payload: Seq<char>,
    first: Result<(TransactionHash, Option<DecodedTransaction>), Failure>,
    second: Result<(TransactionHash, Option<DecodedTransaction>), Failure>,
)
    requires
        item_view(first) == parsed_item(hash, payload),
        item_view(second) == parsed_item(hash, payload),
    ensures
        item_view(first) == item_view(second),
{
}

/// A payload that is empty behind its prefix never reaches the decoder:
/// whatever the decoder would make of it, the entry's result is the same,
/// and with a hash of the right width it is that hash without a
/// transaction.
pub proof fn lemma_empty_payload_absent(
    hash: Seq<char>,
    payload: Seq<char>,
    decoding: Option<Option<DecodedTransaction>>,
)
    requires
        payload.len() == 2,
    ensures
        item_outcome(hash, payload, decoding) == item_outcome(hash, payload, None),
        parsed_item(hash, payload) == item_outcome(hash, payload, None),
        hash.len() >= 2 && is_hex_text(hash.skip(2)) && hex_bytes(hash.skip(2)).len() == HASH_WIDTH
            ==> parsed_item(hash, payload) == Ok::<_, ErrorKind>(
            (hex_bytes(hash.skip(2)), None::<DecodedTransaction>),
        ),
{
}

/// A hash that decodes to another number of bytes than the hash width is
/// rejected with both numbers, whatever the payload holds.
pub proof fn lemma_wrong_hash_width_rejected(
    hash: Seq<char>,
    payload: Seq<char>,
    decoding: Option<Option<DecodedTransaction>>,
)
    requires
        hash.len() >= 2,
        payload.len() >= 2,
        is_hex_text(hash.skip(2)),
        hex_bytes(hash.skip(2)).len() != HASH_WIDTH,
    ensures
        item_outcome(hash, payload, decoding) == Err::<
            (Seq<u8>, Option<DecodedTransaction>),
            ErrorKind,
        >(
            ErrorKind::InvalidHashLength {
                actual: hex_bytes(hash.skip(2)).len() as usize,
                expected: HASH_WIDTH,
            },
        ),
{
}

/// Where every element of an index is a well-formed entry, the entries are
/// the elements, one for one and in the same order.
pub proof fn lemma_well_formed_entries_kept(items: Seq<JsonValue>)
    requires
        forall|i: int| 0 <= i < items.len() ==> (#[trigger] index_entry(items[i])) is Some,
    ensures
        index_entries(items).len() == items.len(),
        forall|i: int|
            0 <= i < items.len() ==> Some(#[trigger] index_entries(items)[i]) == index_entry(
                items[i],
            ),
    decreases items.len(),
{
    if items.len() > 0 {
        let front = items.drop_last();
        assert forall|i: int| 0 <= i < front.len() implies (#[trigger] index_entry(
            front[i],
        )) is Some by {
            assert(front[i] == items[i]);
        }
        lemma_well_formed_entries_kept(front);
        assert(index_entry(items[items.len() - 1]) is Some);
        assert forall|i: int| 0 <= i < items.len() implies Some(
            #[trigger] index_entries(items)[i],
        ) == index_entry(items[i]) by {
            if i < front.len() {
                assert(front[i] == items[i]);
                assert(index_entries(items)[i] == index_entries(front)[i]);
            }
        }
    }
}

/// Where every element of an index is a well-formed entry, an extraction
/// that succeeds has one result for each element, at the element's own
/// position: the result of reading that element's two texts.
pub proof fn lemma_extraction_follows_index(
    items: Seq<JsonValue>,
    out: Seq<(Seq<u8>, Option<DecodedTransaction>)>,
)
    requires
        forall|i: int| 0 <= i < items.len() ==> (#[trigger] index_entry(items[i])) is Some,
        extraction(index_entries(items)) == Ok::<_, ErrorKind>(out),
    ensures
        out.len() == items.len(),
        forall|i: int|
            0 <= i < items.len() ==> parsed_item(
                index_entry(items[i])->Some_0.0,
                index_entry(items[i])->Some_0.1,
            ) == Ok::<_, ErrorKind>(#[trigger] out[i]),
{
    lemma_well_formed_entries_kept(items);
    lemma_extraction_keeps_order(index_entries(items), out);
    assert forall|i: int| 0 <= i < items.len() implies parsed_item(
        index_entry(items[i])->Some_0.0,
        index_entry(items[i])->Some_0.1,
    ) == Ok::<_, ErrorKind>(#[trigger] out[i]) by {
        assert(Some(index_entries(items)[i]) == index_entry(items[i]));
    }
}

/// An extraction that succeeds has one result for each entry, at the
/// entry's own position: the result of reading that entry, under the hash
/// that the entry's text encodes.
pub proof fn lemma_extraction_keeps_order(
    entries: Seq<(Seq<char>, Seq<char>)>,
    out: Seq<(Seq<u8>, Option<DecodedTransaction>)>,
)
    requires
        extraction(entries) == Ok::<_, ErrorKind>(out),
    ensures
        out.len() == entries.len(),
        forall|i: int|
            0 <= i < entries.len() ==> parsed_item(entries[i].0, entries[i].1) == Ok::<
                _,
                ErrorKind,
            >(#[trigger] out[i]),
        forall|i: int|
            0 <= i < entries.len() ==> (#[trigger] out[i]).0 == hex_bytes(entries[i].0.skip(2)),
    decreases entries.len(),
{
    if entries.len() > 0 {
        let front = entries.drop_last();
        let before = extraction(front)->Ok_0;
        lemma_extraction_keeps_order(front, before);
        let pair = parsed_item(entries.last().0, entries.last().1)->Ok_0;
        assert(out == before.push(pair));
        assert forall|i: int| 0 <= i < entries.len() implies parsed_item(
            entries[i].0,
            entries[i].1,
        ) == Ok::<_, ErrorKind>(#[trigger] out[i]) && out[i].0 == hex_bytes(
            entries[i].0.skip(2),
        ) by {
            if i < front.len() {
                assert(front[i] == entries[i]);
                assert(out[i] == before[i]);
            } else {
                assert(out[i] == pair);
            }
        }
    }
}

} // verus!
