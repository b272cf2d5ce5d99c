//! The listener on the events of one contract.
//!
//! A listener subscribes to the logs of a contract that carry a given event,
//! looks up the transaction of each log, and has it delivered to a webhook.
//! Subscribing, looking up and delivering are the caller's work. This module
//! decides what is subscribed to and what is done with each log.

use vstd::prelude::*;
use vstd::string::StringSliceAdditionalSpecFns;
use std::sync::Arc;
use crate::json::{JsonValue, JsonView};
use crate::registry::EthersRepository;
use crate::text::{hex_char, hex_of, hex_with_prefix};

verus! {

/// The Keccak-256 digest of `input`.
pub uninterp spec fn keccak256(input: Seq<u8>) -> Seq<u8>;

/// Whether `c` is a character that may stand between the digits of an
/// address: a blank, a tab or a line end.
pub open spec fn is_blank(c: char) -> bool {
    c == ' ' || c == '\r' || c == '\n' || c == '\t'
}

/// The value of the hex digit `c`, of either case; none for any other
/// character.
pub open spec fn hex_value(c: char) -> Option<nat> {
    if '0' <= c && c <= '9' {
        Some((c as int - '0' as int) as nat)
    } else if 'a' <= c && c <= 'f' {
        Some((c as int - 'a' as int + 10) as nat)
    } else if 'A' <= c && c <= 'F' {
        Some((c as int - 'A' as int + 10) as nat)
    } else {
        None
    }
}

/// `text` without `0x` at its start, where it starts so.
pub open spec fn without_prefix(text: Seq<char>) -> Seq<char> {
    if text.len() >= 2 && text[0] == '0' && text[1] == 'x' {
        text.skip(2)
    } else {
        text
    }
}

/// `text` without its blanks, tabs and line ends.
pub open spec fn without_blanks(text: Seq<char>) -> Seq<char>
    decreases text.len(),
{
    if text.len() == 0 {
        Seq::empty()
    } else if is_blank(text.last()) {
        without_blanks(text.drop_last())
    } else {
        without_blanks(text.drop_last()).push(text.last())
    }
}

/// The address that `text` writes, if it writes one: after `0x` at its start,
/// if it starts so, and apart from blanks, tabs and line ends, the text must
/// hold exactly forty hex digits; each pair of them is one byte, the high
/// digit first.
pub open spec fn address_of_text(text: Seq<char>) -> Option<Seq<u8>> {
    let digits = without_blanks(without_prefix(text));
    if digits.len() == 40 && (forall|i: int| 0 <= i < 40 ==> hex_value(#[trigger] digits[i]) is Some) {
        Some(
            Seq::new(
                20,
                |i: int| (16 * hex_value(digits[2 * i])->0 + hex_value(digits[2 * i + 1])->0) as u8,
            ),
        )
    } else {
        None
    }
}

/// The Keccak-256 digest of the bytes of `text`.
///
/// Calls `ethers::utils::keccak256`, which hashes the UTF-8 bytes of a string
/// and returns the 32 bytes of the digest. The digest depends on the bytes
/// alone; the contract gives it the name [`keccak256`].
#[verifier::external_body]
fn text_digest(text: &str) -> (digest: [u8; 32])
    ensures
        digest@ == keccak256(text.spec_bytes()),
{
    ethers::utils::keccak256(text)
}

/// Reads an address from its hex text.
///
/// Calls `str::parse` for `ethers::types::H160`, which drops `0x` at the
/// start of the text, reads hex digits of either case in pairs, passes over
/// blanks, tabs and line ends, and fails on any other character, on a digit
/// left over, and unless exactly twenty bytes come out. The contract states
/// this as [`address_of_text`].
#[verifier::external_body]
fn parse_address(text: &str) -> (address: Option<[u8; 20]>)
    ensures
        address_view(address) == address_of_text(text@),
{
    match text.parse::<ethers::types::H160>() {
        Ok(address) => Some(address.0),
        Err(_) => None,
    }
}

/// The bytes of an optional address.
pub open spec fn address_view(address: Option<[u8; 20]>) -> Option<Seq<u8>> {
    match address {
        Some(bytes) => Some(bytes@),
        None => None,
    }
}

/// What a listener subscribes to: the logs of one contract whose first topic
/// is the hash of one event signature.
#[derive(Clone, Copy, Debug, PartialEq, Eq)]
pub struct EventFilter {
    /// The address of the contract.
    pub address: [u8; 20],
    /// The first topic: the Keccak-256 digest of the event's signature.
    pub topic0: [u8; 32],
}

impl EventFilter {
    /// The filter on the logs of the contract at `address` whose first topic
    /// is `topic0`.
    pub fn new(address: [u8; 20], topic0: [u8; 32]) -> (filter: EventFilter)
        ensures
            filter.address == address,
            filter.topic0 == topic0,
    {
        EventFilter { address, topic0 }
    }
}

/// Why a listener could not start.
#[derive(PartialEq, Eq, Structural, Clone, Copy, Debug)]
pub enum ListenError {
    /// No connection is registered for the tenant.
    ConnectionNotFound,
    /// The text given as the contract's address writes no address.
    InvalidAddress,
}

/// Why a log led to no delivery.
#[derive(PartialEq, Eq, Structural, Clone, Copy, Debug)]
pub enum SkipReason {
    /// The log names no transaction.
    NoTransactionHash,
    /// The node knows no transaction with the hash that the log names.
    TransactionNotFound,
    /// The node failed to answer the lookup.
    LookupFailed,
}

/// The answer of the node to the lookup of a transaction.
#[derive(Debug, PartialEq, Eq)]
pub enum TransactionLookup<T> {
    /// The node knows the transaction.
    Found(T),
    /// The node knows no such transaction.
    NotFound,
    /// The lookup failed.
    Failed,
}

/// What is done with a log once its transaction was looked up.
#[derive(Debug, PartialEq, Eq)]
pub enum EventAction<T> {
    /// Deliver the transaction to the webhook, under the contract's address.
    Deliver { address: [u8; 20], transaction: T },
    /// Deliver nothing, and go on with the next log.
    Skip(SkipReason),
}

/// The filter for the event with signature `event_signature` on the contract
/// at `contract_address`: its first topic is the Keccak-256 digest of the
/// signature's bytes.
pub fn create_event_filter(contract_address: [u8; 20], event_signature: &str) -> (filter:
    EventFilter)
    ensures
        filter.address == contract_address,
        filter.topic0@ == keccak256(event_signature.spec_bytes()),
{
    EventFilter::new(contract_address, text_digest(event_signature))
}

/// Sets a listener up from what was resolved for it: the tenant's connection,
/// the contract's address and the event's topic. A missing connection is
/// reported before an address that could not be read.
pub fn listener_setup<C>(
    connection: Option<Arc<C>>,
    address: Option<[u8; 20]>,
    topic0: [u8; 32],
) -> (setup: Result<(Arc<C>, EventFilter), ListenError>)
    ensures
        match setup {
            Ok((shared, filter)) => connection == Some(shared) && address == Some(filter.address)
                && filter.topic0 == topic0,
            Err(ListenError::ConnectionNotFound) => connection is None,
            Err(ListenError::InvalidAddress) => connection is Some && address is None,
        },
{
    match connection {
        None => Err(ListenError::ConnectionNotFound),
        Some(shared) => match address {
            None => Err(ListenError::InvalidAddress),
            Some(bytes) => Ok((shared, EventFilter::new(bytes, topic0))),
        },
    }
}

/// Sets up the listener of the tenant `user_id` on the event with signature
/// `event_signature` of the contract whose address `contract_address` writes.
///
/// Fails with `ConnectionNotFound` where no connection is registered for the
/// tenant, and with `InvalidAddress` where one is and the text writes no
/// address. Else the result is a share of the tenant's connection and the
/// filter to subscribe with.
pub fn start_listener<C, R: Clone>(
    registry: &EthersRepository<C, R>,
    user_id: i32,
    contract_address: &str,
    event_signature: &str,
) -> (setup: Result<(Arc<C>, EventFilter), ListenError>)
    ensures
        match setup {
            Ok((shared, filter)) => {
                &&& registry.connection(user_id) == Some(*shared)
                &&& address_of_text(contract_address@) == Some(filter.address@)
                &&& filter.topic0@ == keccak256(event_signature.spec_bytes())
            },
            Err(ListenError::ConnectionNotFound) => registry.connection(user_id) is None,
            Err(ListenError::InvalidAddress) => registry.connection(user_id) is Some
                && address_of_text(contract_address@) is None,
        },
{
    let connection = registry.get_connection(user_id);
    let address = parse_address(contract_address);
    let topic0 = text_digest(event_signature);
    listener_setup(connection, address, topic0)
}

/// The hash of the transaction to look up for a log, or the reason to skip
/// the log where it names none.
pub fn transaction_of_log(transaction_hash: Option<[u8; 32]>) -> (wanted: Result<
    [u8; 32],
    SkipReason,
>)
    ensures
        match wanted {
            Ok(hash) => transaction_hash == Some(hash),
            Err(reason) => transaction_hash is None && reason == SkipReason::NoTransactionHash,
        },
{
    match transaction_hash {
        Some(hash) => Ok(hash),
        None => Err(SkipReason::NoTransactionHash),
    }
}

/// Decides what is done with a log of the contract at `address` once the node
/// has answered the lookup of its transaction: a transaction that was found
/// is delivered under the contract's address; where none was found or the
/// lookup failed, nothing is delivered and nothing is tried again.
pub fn process_event<T>(lookup: TransactionLookup<T>, address: [u8; 20]) -> (action: EventAction<T>)
    ensures
        match lookup {
            TransactionLookup::Found(transaction) => action == (EventAction::Deliver {
                address,
                transaction,
            }),
            TransactionLookup::NotFound => action == EventAction::<T>::Skip(
                SkipReason::TransactionNotFound,
            ),
            TransactionLookup::Failed => action == EventAction::<T>::Skip(SkipReason::LookupFailed),
        },
{
    match lookup {
        TransactionLookup::Found(transaction) => EventAction::Deliver { address, transaction },
        TransactionLookup::NotFound => EventAction::Skip(SkipReason::TransactionNotFound),
        TransactionLookup::Failed => EventAction::Skip(SkipReason::LookupFailed),
    }
}

/// The text that writes `address`: `0x`, then its twenty bytes as hex.
pub open spec fn address_text(address: Seq<u8>) -> Seq<char> {
    "0x"@ + hex_of(address)
}

/// Writes `address` as text: `0x`, then its twenty bytes as hex.
pub fn address_to_text(address: &[u8; 20]) -> (text: String)
    ensures
        text@ == address_text(address@),
{
    hex_with_prefix("0x", address.as_slice())
}

proof fn lemma_hex_of(bytes: Seq<u8>)
    ensures
        hex_of(bytes).len() == 2 * bytes.len(),
        forall|i: int|
            0 <= i < bytes.len() ==> hex_of(bytes)[2 * i] == hex_char((#[trigger] bytes[i] / 16) as nat)
                && hex_of(bytes)[2 * i + 1] == hex_char((bytes[i] % 16) as nat),
    decreases bytes.len(),
{
    if bytes.len() > 0 {
        let rest = bytes.drop_last();
        lemma_hex_of(rest);
        assert forall|i: int| 0 <= i < bytes.len() implies hex_of(bytes)[2 * i] == hex_char(
            (#[trigger] bytes[i] / 16) as nat,
        ) && hex_of(bytes)[2 * i + 1] == hex_char((bytes[i] % 16) as nat) by {
            if i < rest.len() {
                assert(rest[i] == bytes[i]);
                assert(hex_of(bytes)[2 * i] == hex_of(rest)[2 * i]);
                assert(hex_of(bytes)[2 * i + 1] == hex_of(rest)[2 * i + 1]);
            }
        }
    }
}

proof fn lemma_hex_char_is_digit(d: nat)
    requires
        d < 16,
    ensures
        !is_blank(hex_char(d)),
        hex_value(hex_char(d)) == Some(d),
{
}

proof fn lemma_without_blanks_keeps(text: Seq<char>)
    requires
        forall|i: int| 0 <= i < text.len() ==> !is_blank(#[trigger] text[i]),
    ensures
        without_blanks(text) == text,
    decreases text.len(),
{
    if text.len() > 0 {
        assert forall|i: int| 0 <= i < text.drop_last().len() implies !is_blank(
            #[trigger] text.drop_last()[i],
        ) by {
            assert(text.drop_last()[i] == text[i]);
        }
        lemma_without_blanks_keeps(text.drop_last());
        assert(text.drop_last().push(text.last()) =~= text);
        assert(!is_blank(text[text.len() - 1]));
    } else {
        assert(text =~= Seq::empty());
    }
}

/// An address that was written as text is read back as the same address.
pub proof fn lemma_address_text_reads_back(address: Seq<u8>)
    requires
        address.len() == 20,
    ensures
        address_of_text(address_text(address)) == Some(address),
{
    reveal_strlit("0x");
    let hex = hex_of(address);
    let text = address_text(address);
    lemma_hex_of(address);
    assert(text.len() == 42);
    assert(text[0] == '0' && text[1] == 'x');
    assert(text.skip(2) =~= hex);
    assert forall|i: int| 0 <= i < hex.len() implies !is_blank(#[trigger] hex[i])
        && hex_value(hex[i]) is Some by {
        let k = i / 2;
        assert(0 <= k < 20);
        lemma_hex_char_is_digit((address[k] / 16) as nat);
        lemma_hex_char_is_digit((address[k] % 16) as nat);
        if i % 2 == 0 {
            assert(i == 2 * k);
        } else {
            assert(i == 2 * k + 1);
        }
    }
    lemma_without_blanks_keeps(hex);
    let read = address_of_text(text);
    assert(read is Some);
    assert forall|k: int| 0 <= k < 20 implies (#[trigger] read->0[k]) == address[k] by {
        lemma_hex_char_is_digit((address[k] / 16) as nat);
        lemma_hex_char_is_digit((address[k] % 16) as nat);
        assert(hex[2 * k] == hex_char((address[k] / 16) as nat));
        assert(hex[2 * k + 1] == hex_char((address[k] % 16) as nat));
    }
    assert(read->0 =~= address);
}

/// What is delivered to the webhook for a log of the contract at `address`:
/// the JSON object whose one member is the transaction, under the contract's
/// address as text.
pub fn event_payload(address: &[u8; 20], transaction: JsonValue) -> (payload: JsonValue)
    ensures
        payload@ == JsonView::object1(address_text(address@), transaction@),
{
    let key = address_to_text(address);
    JsonValue::object1(key.as_str(), transaction)
}

} // verus!
