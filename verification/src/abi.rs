//! The ERC-721 interface: its events, and the calls that ask a contract about itself.
//!
//! Values are decoded by the `ethabi` crate, and large numbers are handled by `substreams`.

use crate::block::Log;
use crate::text::{big_endian, decimal, decimal_text, lines, log_line, same_bytes};
use ethabi::{ParamType, Token};
use substreams::scalar::BigInt;
use vstd::prelude::*;
use vstd::slice::slice_to_vec;
use vstd::utf8::{decode_utf8, valid_utf8};

verus! {

/// The kinds of value that are decoded here.
pub enum AbiType {
    Address,
    Uint,
    Text,
}

/// A decoded value: the 20 bytes of an address, the big-endian word of a number, or a text.
pub enum AbiValue {
    Address(Vec<u8>),
    Uint([u8; 32]),
    Text(String),
}

/// [`AbiValue`] with its contents as sequences.
pub enum AbiView {
    Address(Seq<u8>),
    Uint(Seq<u8>),
    Text(Seq<char>),
}

impl View for AbiValue {
    type V = AbiView;

    open spec fn view(&self) -> AbiView {
        match self {
            AbiValue::Address(bytes) => AbiView::Address(bytes@),
            AbiValue::Uint(word) => AbiView::Uint(word@),
            AbiValue::Text(text) => AbiView::Text(text@),
        }
    }
}

/// The number in the 32-byte word of `data` at `at`, if it is one below 2^32.
pub open spec fn small_word(data: Seq<u8>, at: int) -> Option<int> {
    if forall|i: int| at <= i < at + 28 ==> data[i] == 0 {
        Some(
            data[at + 28] * 0x1000000 + data[at + 29] * 0x10000 + data[at + 30] * 0x100 + data[at
                + 31],
        )
    } else {
        None
    }
}

/// Where the bytes of an encoded text lie in `data`: the first word says where the length stands,
/// and the bytes follow the length.
pub open spec fn text_bytes(data: Seq<u8>) -> Option<Seq<u8>> {
    if data.len() < 32 {
        None
    } else {
        match small_word(data, 0) {
            Some(at) if at + 32 <= data.len() => match small_word(data, at) {
                Some(len) if at + 32 + len <= data.len() => Some(
                    data.subrange(at + 32, at + 32 + len),
                ),
                _ => None,
            },
            _ => None,
        }
    }
}

/// Whether the offsets that an encoded text leads through fit a pointer.
pub open spec fn text_offsets_fit(data: Seq<u8>) -> bool {
    data.len() >= 32 ==> (small_word(data, 0) matches Some(at) ==> {
        &&& at + 32 <= usize::MAX
        &&& at + 32 <= data.len() ==> (small_word(data, at) matches Some(len) ==> at + 32 + len
            <= usize::MAX)
    })
}

/// The text that `String::from_utf8_lossy` makes of bytes that are not valid UTF-8.
pub uninterp spec fn repaired_text(bytes: Seq<u8>) -> Seq<char>;

/// The text that bytes stand for.
pub open spec fn text_of(bytes: Seq<u8>) -> Seq<char> {
    if valid_utf8(bytes) {
        decode_utf8(bytes)
    } else {
        repaired_text(bytes)
    }
}

/// The value that `data` starts with, if `data` encodes one.
pub open spec fn decoded(kind: AbiType, data: Seq<u8>) -> Option<AbiView> {
    match kind {
        AbiType::Address => if data.len() >= 32 {
            Some(AbiView::Address(data.subrange(12, 32)))
        } else {
            None
        },
        AbiType::Uint => if data.len() >= 32 {
            Some(AbiView::Uint(data.subrange(0, 32)))
        } else {
            None
        },
        AbiType::Text => match text_bytes(data) {
            Some(bytes) => Some(AbiView::Text(text_of(bytes))),
            None => None,
        },
    }
}

/// Why `data` encodes no value.
pub open spec fn decoding_error(data: Seq<u8>) -> Seq<char> {
    if data.len() == 0 {
        "InvalidName(\"please ensure the contract and method you're calling exist! failed to decode empty bytes. if you're using jsonrpc this is likely due to jsonrpc returning `0x` in case contract or method don't exist\")"@
    } else {
        "InvalidData"@
    }
}

/// `ethabi::decode` of one value. An address is the last 20 bytes of the first word and a number
/// is that word. A text lies where the first word says, its length before its bytes, and bytes
/// that are not valid UTF-8 are repaired. What is too short for that is an error, given as
/// `Debug` writes it. Offsets of a text must not overflow a pointer.
#[verifier::external_body]
pub(crate) fn decode(kind: AbiType, data: &[u8]) -> (r: Result<AbiValue, String>)
    requires
        kind is Text ==> text_offsets_fit(data@),
    ensures
        match r {
            Ok(value) => decoded(kind, data@) == Some(value@),
            Err(error) => decoded(kind, data@) is None && error@ == decoding_error(data@),
        },
        r matches Ok(AbiValue::Text(text)) ==> valid_utf8(text_bytes(data@)->0) || text@
            == repaired_text(text_bytes(data@)->0),
{
    let param = match kind {
        AbiType::Address => ParamType::Address,
        AbiType::Uint => ParamType::Uint(256),
        AbiType::Text => ParamType::String,
    };
    match ethabi::decode(&[param], data).map(|mut tokens| tokens.pop()) {
        Ok(Some(Token::Address(address))) => Ok(AbiValue::Address(address.0.to_vec())),
        Ok(Some(Token::Uint(number))) => Ok(AbiValue::Uint(number.into())),
        Ok(Some(Token::String(text))) => Ok(AbiValue::Text(text)),
        Ok(other) => Err(format!("{:?}", other)),
        Err(error) => Err(format!("{:?}", error)),
    }
}

/// `BigInt::to_string`: the decimal numeral of a big-endian word.
#[verifier::external_body]
pub(crate) fn word_decimal(word: &[u8; 32]) -> (r: String)
    ensures
        r@ == decimal(big_endian(word@)),
{
    BigInt::from_unsigned_bytes_be(word).to_string()
}

/// `BigInt::to_u64`: the number in a big-endian word. It panics for one that takes more than 64
/// bits.
#[verifier::external_body]
pub(crate) fn word_to_u64(word: &[u8; 32]) -> (r: u64)
    requires
        big_endian(word@) <= u64::MAX,
    ensures
        r == big_endian(word@),
{
    BigInt::from_unsigned_bytes_be(word).to_u64()
}

/// The first topic of a transfer: the Keccak-256 hash of `Transfer(address,address,uint256)`.
pub const TRANSFER_TOPIC: [u8; 32] = [
    0xdd, 0xf2, 0x52, 0xad, 0x1b, 0xe2, 0xc8, 0x9b, 0x69, 0xc2, 0xb0, 0x68, 0xfc, 0x37, 0x8d, 0xaa,
    0x95, 0x2b, 0xa7, 0xf1, 0x63, 0xc4, 0xa1, 0x16, 0x28, 0xf5, 0x5a, 0x4d, 0xf5, 0x23, 0xb3, 0xef,
];

/// The first topic of an approval: the Keccak-256 hash of `Approval(address,address,uint256)`.
pub const APPROVAL_TOPIC: [u8; 32] = [
    0x8c, 0x5b, 0xe1, 0xe5, 0xeb, 0xec, 0x7d, 0x5b, 0xd1, 0x4f, 0x71, 0x42, 0x7d, 0x1e, 0x84, 0xf3,
    0xdd, 0x03, 0x14, 0xc0, 0xf7, 0xb2, 0x29, 0x1e, 0x5b, 0x20, 0x0a, 0xc8, 0xc7, 0xc3, 0xb9, 0x25,
];

/// What the three indexed parameters of an event say: two addresses and a token.
pub struct EventView {
    pub first: Seq<u8>,
    pub second: Seq<u8>,
    pub token_id: Seq<u8>,
}

/// Whether a log entry is the event with the given first topic.
pub open spec fn is_event(log: Log, topic: Seq<u8>) -> bool {
    log.topics@.len() == 4 && log.data@.len() == 0 && log.topics@[0]@ == topic
}

/// How an event is recognised, and what it and its parameters are called. The third parameter is
/// the token in all of them.
pub struct EventKind {
    pub name: Seq<char>,
    pub topic: Seq<u8>,
    pub first: Seq<char>,
    pub second: Seq<char>,
}

/// The event of a token that changes hands.
pub open spec fn transfer_kind() -> EventKind {
    EventKind { name: "Transfer"@, topic: TRANSFER_TOPIC@, first: "from"@, second: "to"@ }
}

/// The event of a permission to transfer a token.
pub open spec fn approval_kind() -> EventKind {
    EventKind { name: "Approval"@, topic: APPROVAL_TOPIC@, first: "owner"@, second: "approved"@ }
}

/// What is said of a parameter that cannot be read.
pub open spec fn parameter_error(
    name: Seq<char>,
    type_text: Seq<char>,
    topic: Seq<u8>,
) -> Seq<char> {
    "unable to decode param '"@ + name + "' from topic of type '"@ + type_text + "': "@
        + decoding_error(topic)
}

/// The address in a topic, or why there is none.
pub open spec fn address_parameter(name: Seq<char>, topic: Seq<u8>) -> Result<
    Seq<u8>,
    Seq<char>,
> {
    if topic.len() >= 32 {
        Ok(topic.subrange(12, 32))
    } else {
        Err(parameter_error(name, "address"@, topic))
    }
}

/// The number in a topic as a big-endian word, or why there is none.
pub open spec fn uint_parameter(name: Seq<char>, topic: Seq<u8>) -> Result<Seq<u8>, Seq<char>> {
    if topic.len() >= 32 {
        Ok(topic.subrange(0, 32))
    } else {
        Err(parameter_error(name, "uint256"@, topic))
    }
}

/// What the parameters of an event say, or why the first of them that cannot be read is
/// unreadable.
pub open spec fn event_parameters(log: Log, kind: EventKind) -> Result<EventView, Seq<char>> {
    match address_parameter(kind.first, log.topics@[1]@) {
        Ok(first) => match address_parameter(kind.second, log.topics@[2]@) {
            Ok(second) => match uint_parameter("token_id"@, log.topics@[3]@) {
                Ok(token_id) => Ok(EventView { first, second, token_id }),
                Err(error) => Err(error),
            },
            Err(error) => Err(error),
        },
        Err(error) => Err(error),
    }
}

/// The event of a kind that a log entry holds, if it holds one.
pub open spec fn event(log: Log, kind: EventKind) -> Option<EventView> {
    if is_event(log, kind.topic) {
        match event_parameters(log, kind) {
            Ok(parameters) => Some(parameters),
            Err(_) => None,
        }
    } else {
        None
    }
}

/// What is logged of a log entry: a line, if it is an event of the kind and cannot be read.
pub open spec fn event_lines(log: Log, kind: EventKind) -> Seq<Seq<char>> {
    if is_event(log, kind.topic) {
        match event_parameters(log, kind) {
            Ok(_) => seq![],
            Err(error) => seq![unreadable_line(kind.name, log.block_index, error)],
        }
    } else {
        seq![]
    }
}

/// What is logged of an event that cannot be read.
pub open spec fn unreadable_line(
    name: Seq<char>,
    block_index: u32,
    error: Seq<char>,
) -> Seq<char> {
    "Log for event `"@ + name + "` at index "@ + decimal(block_index as nat)
        + " matched but failed to decode with error: "@ + error
}

/// Whether a log entry is the event with the given first topic.
fn match_log(log: &Log, topic: &[u8; 32]) -> (r: bool)
    ensures
        r == is_event(*log, topic@),
{
    if log.topics.len() != 4 {
        return false;
    }
    if log.data.len() != 0 {
        return false;
    }
    same_bytes(log.topics[0].as_slice(), topic.as_slice())
}

/// Writes what is said of a parameter that cannot be read.
fn parameter_error_text(name: &str, type_text: &str, error: &str) -> (r: String)
    ensures
        r@ == "unable to decode param '"@ + name@ + "' from topic of type '"@ + type_text@
            + "': "@ + error@,
{
    let mut r = "unable to decode param '".to_owned();
    r.append(name);
    r.append("' from topic of type '");
    r.append(type_text);
    r.append("': ");
    r.append(error);
    r
}

/// Reads the address in a topic.
fn topic_address(name: &str, topic: &Vec<u8>) -> (r: Result<Vec<u8>, String>)
    ensures
        match r {
            Ok(address) => address_parameter(name@, topic@) == Ok::<Seq<u8>, Seq<char>>(address@),
            Err(error) => address_parameter(name@, topic@) == Err::<Seq<u8>, Seq<char>>(error@),
        },
{
    match decode(AbiType::Address, topic.as_slice()) {
        Ok(AbiValue::Address(address)) => Ok(address),
        Ok(_) => {
            assert(false);
            Ok(Vec::new())
        },
        Err(error) => Err(parameter_error_text(name, "address", error.as_str())),
    }
}

/// Reads the number in a topic, as a big-endian word.
fn topic_uint(name: &str, topic: &Vec<u8>) -> (r: Result<[u8; 32], String>)
    ensures
        match r {
            Ok(word) => uint_parameter(name@, topic@) == Ok::<Seq<u8>, Seq<char>>(word@),
            Err(error) => uint_parameter(name@, topic@) == Err::<Seq<u8>, Seq<char>>(error@),
        },
{
    match decode(AbiType::Uint, topic.as_slice()) {
        Ok(AbiValue::Uint(word)) => Ok(word),
        Ok(_) => {
            assert(false);
            Ok([0u8; 32])
        },
        Err(error) => Err(parameter_error_text(name, "uint256", error.as_str())),
    }
}

/// Logs that an event cannot be read.
fn log_unreadable(name: &str, entry: &Log, error: &str, log: &mut Vec<String>)
    ensures
        lines(final(log)@) == lines(old(log)@) + seq![
            unreadable_line(name@, entry.block_index, error@),
        ],
{
    let mut line = "Log for event `".to_owned();
    line.append(name);
    line.append("` at index ");
    line.append(decimal_text(entry.block_index as u64).as_str());
    line.append(" matched but failed to decode with error: ");
    line.append(error);
    log_line(log, line);
    assert(lines(log@) =~= lines(old(log)@) + seq![
        unreadable_line(name@, entry.block_index, error@),
    ]);
}

/// The event of a token that changes hands.
#[derive(Debug, PartialEq)]
pub struct TransferEvent {
    pub from: Vec<u8>,
    pub to: Vec<u8>,
    /// The token, as a big-endian word.
    pub token_id: [u8; 32],
}

impl View for TransferEvent {
    type V = EventView;

    open spec fn view(&self) -> EventView {
        EventView { first: self.from@, second: self.to@, token_id: self.token_id@ }
    }
}

impl TransferEvent {
    /// Whether a log entry is a transfer.
    pub fn match_log(log: &Log) -> (r: bool)
        ensures
            r == is_event(*log, TRANSFER_TOPIC@),
    {
        match_log(log, &TRANSFER_TOPIC)
    }

    /// Reads the parameters of a transfer.
    pub fn decode(log: &Log) -> (r: Result<TransferEvent, String>)
        requires
            log.topics@.len() >= 4,
        ensures
            match r {
                Ok(found) => event_parameters(*log, transfer_kind()) == Ok::<EventView, Seq<char>>(
                    found@,
                ),
                Err(error) => event_parameters(*log, transfer_kind()) == Err::<
                    EventView,
                    Seq<char>,
                >(error@),
            },
    {
        let from = match topic_address("from", &log.topics[1]) {
            Ok(from) => from,
            Err(error) => {
                return Err(error);
            },
        };
        let to = match topic_address("to", &log.topics[2]) {
            Ok(to) => to,
            Err(error) => {
                return Err(error);
            },
        };
        match topic_uint("token_id", &log.topics[3]) {
            Ok(token_id) => Ok(TransferEvent { from, to, token_id }),
            Err(error) => Err(error),
        }
    }

    /// The transfer that a log entry holds, if it is one and can be read. One that cannot be read
    /// is told of in `log`.
    pub fn match_and_decode(entry: &Log, log: &mut Vec<String>) -> (r: Option<TransferEvent>)
        ensures
            match r {
                Some(found) => event(*entry, transfer_kind()) == Some(found@),
                None => event(*entry, transfer_kind()) is None,
            },
            lines(final(log)@) == lines(old(log)@) + event_lines(*entry, transfer_kind()),
    {
        if !TransferEvent::match_log(entry) {
            assert(lines(log@) =~= lines(old(log)@) + event_lines(*entry, transfer_kind()));
            return None;
        }
        match TransferEvent::decode(entry) {
            Ok(found) => {
                assert(lines(log@) =~= lines(old(log)@) + event_lines(*entry, transfer_kind()));
                Some(found)
            },
            Err(error) => {
                log_unreadable("Transfer", entry, error.as_str(), log);
                None
            },
        }
    }
}

/// The event of a permission to transfer a token.
#[derive(Debug, PartialEq)]
pub struct ApprovalEvent {
    pub owner: Vec<u8>,
    pub approved: Vec<u8>,
    /// The token, as a big-endian word.
    pub token_id: [u8; 32],
}

impl View for ApprovalEvent {
    type V = EventView;

    open spec fn view(&self) -> EventView {
        EventView { first: self.owner@, second: self.approved@, token_id: self.token_id@ }
    }
}

impl ApprovalEvent {
    /// Whether a log entry is an approval.
    pub fn match_log(log: &Log) -> (r: bool)
        ensures
            r == is_event(*log, APPROVAL_TOPIC@),
    {
        match_log(log, &APPROVAL_TOPIC)
    }

    /// Reads the parameters of an approval.
    pub fn decode(log: &Log) -> (r: Result<ApprovalEvent, String>)
        requires
            log.topics@.len() >= 4,
        ensures
            match r {
                Ok(found) => event_parameters(*log, approval_kind()) == Ok::<EventView, Seq<char>>(
                    found@,
                ),
                Err(error) => event_parameters(*log, approval_kind()) == Err::<
                    EventView,
                    Seq<char>,
                >(error@),
            },
    {
        let owner = match topic_address("owner", &log.topics[1]) {
            Ok(owner) => owner,
            Err(error) => {
                return Err(error);
            },
        };
        let approved = match topic_address("approved", &log.topics[2]) {
            Ok(approved) => approved,
            Err(error) => {
                return Err(error);
            },
        };
        match topic_uint("token_id", &log.topics[3]) {
            Ok(token_id) => Ok(ApprovalEvent { owner, approved, token_id }),
            Err(error) => Err(error),
        }
    }

    /// The approval that a log entry holds, if it is one and can be read. One that cannot be read
    /// is told of in `log`.
    pub fn match_and_decode(entry: &Log, log: &mut Vec<String>) -> (r: Option<ApprovalEvent>)
        ensures
            match r {
                Some(found) => event(*entry, approval_kind()) == Some(found@),
                None => event(*entry, approval_kind()) is None,
            },
            lines(final(log)@) == lines(old(log)@) + event_lines(*entry, approval_kind()),
    {
        if !ApprovalEvent::match_log(entry) {
            assert(lines(log@) =~= lines(old(log)@) + event_lines(*entry, approval_kind()));
            return None;
        }
        match ApprovalEvent::decode(entry) {
            Ok(found) => {
                assert(lines(log@) =~= lines(old(log)@) + event_lines(*entry, approval_kind()));
                Some(found)
            },
            Err(error) => {
                log_unreadable("Approval", entry, error.as_str(), log);
                None
            },
        }
    }
}

/// The call data of `name()`: the start of the Keccak-256 hash of that signature.
pub const NAME_CALL: [u8; 4] = [0x06, 0xfd, 0xde, 0x03];

/// The call data of `symbol()`: the start of the Keccak-256 hash of that signature.
pub const SYMBOL_CALL: [u8; 4] = [0x95, 0xd8, 0x9b, 0x41];

/// The call data of `tokenURI()`: the start of the Keccak-256 hash of that signature.
pub const TOKEN_URI_CALL: [u8; 4] = [0x3c, 0x13, 0x0d, 0x90];

/// What is said when a contract's answer encodes no value.
pub open spec fn output_error(data: Seq<u8>) -> Seq<char> {
    "unable to decode output data: "@ + decoding_error(data)
}

/// A contract's answer, read as a text.
pub open spec fn text_output(data: Seq<u8>) -> Result<Seq<char>, Seq<char>> {
    match text_bytes(data) {
        Some(bytes) => Ok(text_of(bytes)),
        None => Err(output_error(data)),
    }
}

/// A contract's answer, read as a number.
pub open spec fn uint_output(data: Seq<u8>) -> Result<Seq<u8>, Seq<char>> {
    if data.len() >= 32 {
        Ok(data.subrange(0, 32))
    } else {
        Err(output_error(data))
    }
}

/// What is said of a failure to decode an answer.
fn output_error_text(error: &str) -> (r: String)
    ensures
        r@ == "unable to decode output data: "@ + error@,
{
    let mut r = "unable to decode output data: ".to_owned();
    r.append(error);
    r
}

/// Reads a contract's answer as a text.
fn output_text(data: &[u8]) -> (r: Result<String, String>)
    requires
        text_offsets_fit(data@),
    ensures
        match r {
            Ok(text) => text_output(data@) == Ok::<Seq<char>, Seq<char>>(text@),
            Err(error) => text_output(data@) == Err::<Seq<char>, Seq<char>>(error@),
        },
{
    match decode(AbiType::Text, data) {
        Ok(AbiValue::Text(text)) => Ok(text),
        Ok(_) => {
            assert(false);
            Ok(String::new())
        },
        Err(error) => Err(output_error_text(error.as_str())),
    }
}

/// The question for a contract's name.
pub struct Name {}

impl Name {
    /// The call data.
    pub fn encode(&self) -> (r: Vec<u8>)
        ensures
            r@ == NAME_CALL@,
    {
        slice_to_vec(NAME_CALL.as_slice())
    }

    /// Reads the answer.
    pub fn output(data: &[u8]) -> (r: Result<String, String>)
        requires
            text_offsets_fit(data@),
        ensures
            match r {
                Ok(text) => text_output(data@) == Ok::<Seq<char>, Seq<char>>(text@),
                Err(error) => text_output(data@) == Err::<Seq<char>, Seq<char>>(error@),
            },
    {
        output_text(data)
    }
}

/// The question for a contract's symbol.
pub struct Symbol {}

impl Symbol {
    /// The call data.
    pub fn encode(&self) -> (r: Vec<u8>)
        ensures
            r@ == SYMBOL_CALL@,
    {
        slice_to_vec(SYMBOL_CALL.as_slice())
    }

    /// Reads the answer.
    pub fn output(data: &[u8]) -> (r: Result<String, String>)
        requires
            text_offsets_fit(data@),
        ensures
            match r {
                Ok(text) => text_output(data@) == Ok::<Seq<char>, Seq<char>>(text@),
                Err(error) => text_output(data@) == Err::<Seq<char>, Seq<char>>(error@),
            },
    {
        output_text(data)
    }
}

/// The question whose answer is taken for a contract's decimals.
pub struct TokenUri {}

impl TokenUri {
    /// The call data.
    pub fn encode(&self) -> (r: Vec<u8>)
        ensures
            r@ == TOKEN_URI_CALL@,
    {
        slice_to_vec(TOKEN_URI_CALL.as_slice())
    }

    /// Reads the answer, a number as a big-endian word.
    pub fn output(data: &[u8]) -> (r: Result<[u8; 32], String>)
        ensures
            match r {
                Ok(word) => uint_output(data@) == Ok::<Seq<u8>, Seq<char>>(word@),
                Err(error) => uint_output(data@) == Err::<Seq<u8>, Seq<char>>(error@),
            },
    {
        match decode(AbiType::Uint, data) {
            Ok(AbiValue::Uint(word)) => Ok(word),
            Ok(_) => {
                assert(false);
                Ok([0u8; 32])
            },
            Err(error) => Err(output_error_text(error.as_str())),
        }
    }
}

/// Reads a word of `data` as a number below 2^32.
fn read_small_word(data: &[u8], at: usize) -> (r: Option<u64>)
    requires
        at + 32 <= data@.len(),
    ensures
        match r {
            Some(n) => small_word(data@, at as int) == Some(n as int),
            None => small_word(data@, at as int) is None,
        },
{
    let length: usize = data.len();
    let mut i: usize = at;
    while i < at + 28
        invariant
            at <= i <= at + 28,
            at + 32 <= length == data@.len(),
            forall|j: int| at <= j < i ==> data@[j] == 0,
        decreases at + 28 - i,
    {
        if data[i] != 0 {
            return None;
        }
        i = i + 1;
    }
    Some(
        data[at + 28] as u64 * 0x1000000 + data[at + 29] as u64 * 0x10000 + data[at + 30] as u64
            * 0x100 + data[at + 31] as u64,
    )
}

/// Tells whether the offsets that an encoded text leads through fit a pointer.
pub fn text_fits(data: &[u8]) -> (r: bool)
    ensures
        r == text_offsets_fit(data@),
{
    if data.len() < 32 {
        return true;
    }
    let limit: u64 = usize::MAX as u64;
    match read_small_word(data, 0) {
        Some(at) => {
            if at + 32 > limit {
                return false;
            }
            if at + 32 > data.len() as u64 {
                return true;
            }
            match read_small_word(data, at as usize) {
                Some(len) => at + 32 + len <= limit,
                None => true,
            }
        },
        None => true,
    }
}

/// The 32-byte big-endian word of a number below 2^32.
pub open spec fn word_of(n: nat) -> Seq<u8> {
    Seq::new(28, |i: int| 0u8) + seq![
        (n / 0x1000000) as u8,
        (n / 0x10000 % 0x100) as u8,
        (n / 0x100 % 0x100) as u8,
        (n % 0x100) as u8,
    ]
}

/// How a text of `bytes` is encoded: where its length stands, its length, its bytes, and whatever
/// fills up the last word.
pub open spec fn encoded_text(bytes: Seq<u8>, padding: Seq<u8>) -> Seq<u8> {
    word_of(32) + word_of(bytes.len()) + bytes + padding
}

/// A word stands for the number that it was made of.
proof fn lemma_small_word(data: Seq<u8>, at: int, n: nat)
    requires
        n < 0x100000000,
        0 <= at,
        at + 32 <= data.len(),
        data.subrange(at, at + 32) == word_of(n),
    ensures
        small_word(data, at) == Some(n as int),
{
    let word = word_of(n);
    assert forall|i: int| at <= i < at + 28 implies data[i] == 0 by {
        assert(data.subrange(at, at + 32)[i - at] == word[i - at]);
    }
    assert(data[at + 28] == data.subrange(at, at + 32)[28]);
    assert(data[at + 29] == data.subrange(at, at + 32)[29]);
    assert(data[at + 30] == data.subrange(at, at + 32)[30]);
    assert(data[at + 31] == data.subrange(at, at + 32)[31]);
    assert(n / 0x1000000 < 0x100);
    assert(n == n / 0x1000000 * 0x1000000 + n / 0x10000 % 0x100 * 0x10000 + n / 0x100 % 0x100
        * 0x100 + n % 0x100);
}

/// A contract that answers with an encoded text is understood.
pub proof fn law_encoded_text_read(bytes: Seq<u8>, padding: Seq<u8>)
    requires
        bytes.len() < 0x100000000,
    ensures
        text_output(encoded_text(bytes, padding)) == Ok::<Seq<char>, Seq<char>>(text_of(bytes)),
{
    let data = encoded_text(bytes, padding);
    assert(data.subrange(0, 32) =~= word_of(32));
    lemma_small_word(data, 0, 32);
    assert(data.subrange(32, 64) =~= word_of(bytes.len()));
    lemma_small_word(data, 32, bytes.len());
    assert(data.subrange(64, 64 + bytes.len() as int) =~= bytes);
}

} // verus!
