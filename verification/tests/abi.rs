use erc721_substream::abi::{
    text_fits, ApprovalEvent, Name, Symbol, TokenUri, TransferEvent, APPROVAL_TOPIC, NAME_CALL,
    SYMBOL_CALL, TOKEN_URI_CALL, TRANSFER_TOPIC,
};
use erc721_substream::block::Log;
use ethabi::{long_signature, short_signature, ParamType, Token};

const EMPTY_BYTES: &str = "unable to decode output data: InvalidName(\"please ensure the contract and method you're calling exist! failed to decode empty bytes. if you're using jsonrpc this is likely due to jsonrpc returning `0x` in case contract or method don't exist\")";

fn word(last: u8) -> Vec<u8> {
    let mut word = vec![0u8; 32];
    word[31] = last;
    word
}

fn address_word(byte: u8) -> Vec<u8> {
    let mut word = vec![0u8; 12];
    word.extend(vec![byte; 20]);
    word
}

fn transfer_log() -> Log {
    Log {
        address: vec![9; 20],
        topics: vec![TRANSFER_TOPIC.to_vec(), address_word(1), address_word(2), word(77)],
        data: vec![],
        block_index: 12,
    }
}

#[test]
fn topics_are_hashes_of_the_event_signatures() {
    let params = [ParamType::Address, ParamType::Address, ParamType::Uint(256)];
    assert_eq!(long_signature("Transfer", &params).0, TRANSFER_TOPIC);
    assert_eq!(long_signature("Approval", &params).0, APPROVAL_TOPIC);
}

#[test]
fn calls_are_hashes_of_the_function_signatures() {
    assert_eq!(short_signature("name", &[]), NAME_CALL);
    assert_eq!(short_signature("symbol", &[]), SYMBOL_CALL);
    assert_eq!(short_signature("tokenURI", &[]), TOKEN_URI_CALL);
}

#[test]
fn questions_are_encoded_as_their_selectors() {
    assert_eq!(Name {}.encode(), vec![0x06, 0xfd, 0xde, 0x03]);
    assert_eq!(Symbol {}.encode(), vec![0x95, 0xd8, 0x9b, 0x41]);
    assert_eq!(TokenUri {}.encode(), TOKEN_URI_CALL.to_vec());
}

#[test]
fn a_transfer_is_read() {
    let mut expected = [0u8; 32];
    expected[31] = 77;
    assert!(TransferEvent::match_log(&transfer_log()));
    assert_eq!(
        TransferEvent::match_and_decode(&transfer_log(), &mut vec![]),
        Some(TransferEvent { from: vec![1; 20], to: vec![2; 20], token_id: expected })
    );
    assert!(!ApprovalEvent::match_log(&transfer_log()));
    assert_eq!(ApprovalEvent::match_and_decode(&transfer_log(), &mut vec![]), None);
}

#[test]
fn an_approval_is_read() {
    let mut log = transfer_log();
    log.topics[0] = APPROVAL_TOPIC.to_vec();
    let mut expected = [0u8; 32];
    expected[31] = 77;
    assert!(ApprovalEvent::match_log(&log));
    assert_eq!(
        ApprovalEvent::match_and_decode(&log, &mut vec![]),
        Some(ApprovalEvent { owner: vec![1; 20], approved: vec![2; 20], token_id: expected })
    );
    assert_eq!(TransferEvent::match_and_decode(&log, &mut vec![]), None);
}

#[test]
fn other_log_entries_are_no_events() {
    let mut three_topics = transfer_log();
    three_topics.topics.pop();
    assert!(!TransferEvent::match_log(&three_topics));

    let mut five_topics = transfer_log();
    five_topics.topics.push(word(1));
    assert!(!TransferEvent::match_log(&five_topics));

    let mut with_data = transfer_log();
    with_data.data = word(1);
    assert!(!TransferEvent::match_log(&with_data));
    assert_eq!(TransferEvent::match_and_decode(&with_data, &mut vec![]), None);

    let no_topics = Log { address: vec![], topics: vec![], data: vec![], block_index: 0 };
    assert!(!TransferEvent::match_log(&no_topics));
}

#[test]
fn a_readable_event_leaves_no_line() {
    let mut lines = vec!["before".to_string()];
    assert!(TransferEvent::match_and_decode(&transfer_log(), &mut lines).is_some());
    assert!(ApprovalEvent::match_and_decode(&transfer_log(), &mut lines).is_none());
    assert_eq!(lines, vec!["before".to_string()]);
}

#[test]
fn short_parameters_are_not_decoded() {
    let mut log = transfer_log();
    log.topics[2] = vec![2; 31];
    let error = "unable to decode param 'to' from topic of type 'address': InvalidData";
    assert!(TransferEvent::match_log(&log));
    assert_eq!(TransferEvent::decode(&log), Err(error.to_string()));
    let mut lines = vec![];
    assert_eq!(TransferEvent::match_and_decode(&log, &mut lines), None);
    assert_eq!(
        lines,
        vec![format!(
            "Log for event `Transfer` at index 12 matched but failed to decode with error: {}",
            error
        )]
    );
}

#[test]
fn the_first_short_parameter_is_told_of() {
    let mut log = transfer_log();
    log.topics[0] = APPROVAL_TOPIC.to_vec();
    log.topics[1] = vec![1; 3];
    log.topics[3] = vec![];
    assert_eq!(
        ApprovalEvent::decode(&log),
        Err("unable to decode param 'owner' from topic of type 'address': InvalidData".to_string())
    );
    log.topics[1] = address_word(1);
    log.block_index = u32::MAX;
    let reason = EMPTY_BYTES.strip_prefix("unable to decode output data: ").unwrap();
    let mut lines = vec![];
    assert_eq!(ApprovalEvent::match_and_decode(&log, &mut lines), None);
    assert_eq!(
        lines,
        vec![format!(
            "Log for event `Approval` at index 4294967295 matched but failed to decode with error: \
             unable to decode param 'token_id' from topic of type 'uint256': {}",
            reason
        )]
    );
}

#[test]
fn the_upper_bytes_of_an_address_word_are_dropped() {
    let mut log = transfer_log();
    log.topics[1] = vec![0xee; 32];
    let found = TransferEvent::match_and_decode(&log, &mut vec![]).unwrap();
    assert_eq!(found.from, vec![0xee; 20]);
}

#[test]
fn a_text_is_read() {
    let data = ethabi::encode(&[Token::String("BoredApeYachtClub".to_string())]);
    assert_eq!(Name::output(&data), Ok("BoredApeYachtClub".to_string()));
    assert_eq!(Symbol::output(&data), Ok("BoredApeYachtClub".to_string()));
}

#[test]
fn an_empty_text_is_read() {
    let data = ethabi::encode(&[Token::String("".to_string())]);
    assert_eq!(Name::output(&data), Ok("".to_string()));
}

#[test]
fn text_beyond_ascii_is_read() {
    let data = ethabi::encode(&[Token::String("grün 🦍".to_string())]);
    assert_eq!(Name::output(&data), Ok("grün 🦍".to_string()));
}

#[test]
fn invalid_text_is_repaired() {
    let mut data = word(0x20);
    data.extend(word(3));
    data.extend(vec![b'a', 0xff, b'b']);
    assert_eq!(Name::output(&data), Ok("a\u{fffd}b".to_string()));
}

#[test]
fn a_text_may_lie_anywhere() {
    let mut data = word(0x40);
    data.extend(vec![0xff; 32]);
    data.extend(word(2));
    data.extend(vec![b'h', b'i', 0, 0]);
    assert_eq!(Symbol::output(&data), Ok("hi".to_string()));
}

#[test]
fn a_text_that_is_cut_off_is_an_error() {
    let invalid = Err("unable to decode output data: InvalidData".to_string());
    assert_eq!(Name::output(&[1, 2, 3]), invalid);
    assert_eq!(Name::output(&word(0x20)), invalid);
    let mut too_short = word(0x20);
    too_short.extend(word(4));
    too_short.extend(vec![b'a'; 3]);
    assert_eq!(Name::output(&too_short), invalid);
    assert_eq!(Symbol::output(&vec![0xff; 64]), invalid);
}

#[test]
fn no_answer_is_an_error() {
    assert_eq!(Name::output(&[]), Err(EMPTY_BYTES.to_string()));
    assert_eq!(Symbol::output(&[]), Err(EMPTY_BYTES.to_string()));
    assert_eq!(TokenUri::output(&[]), Err(EMPTY_BYTES.to_string()));
}

#[test]
fn a_number_is_read() {
    let mut expected = [0u8; 32];
    expected[0] = 0x80;
    expected[31] = 18;
    let mut data = expected.to_vec();
    assert_eq!(TokenUri::output(&data), Ok(expected));
    data.extend(vec![7; 10]);
    assert_eq!(TokenUri::output(&data), Ok(expected));
    assert_eq!(
        TokenUri::output(&[0; 31]),
        Err("unable to decode output data: InvalidData".to_string())
    );
}

#[test]
fn text_offsets_fit_wide_pointers() {
    assert!(text_fits(&[]));
    assert!(text_fits(&word(0x20)));
    assert!(text_fits(&vec![0xff; 96]));
    let mut far = vec![0u8; 28];
    far.extend(vec![0xff; 4]);
    far.extend(vec![0; 64]);
    assert_eq!(text_fits(&far), usize::BITS > 32);
}
