use tockloader::bootloader::attribute::Attribute;
use tockloader::bootloader::codes::{
    deescape, escape, COMMAND_GET_ATTRIBUTE, COMMAND_PING, COMMAND_RESET, ESCAPE_CHAR,
    RESPONSE_GET_ATTRIBUTE, RESPONSE_OK, RESPONSE_PONG,
};
use tockloader::bootloader::frame::{
    attribute_outcome, decode_response, encode_request, get_attribute_exchange,
    get_attribute_request, is_pong, ping_outcome, ping_request, sync_request, Received,
};
use tockloader::bootloader::handshake::{
    confirm_manual_entry, step, EntryAction, EntryEvent, EntryHandshake, EntryState, EntryStep,
};
use tockloader::errors::{MalformedResponse, TockloaderError};

#[test]
fn escape_doubles_the_sentinel() {
    assert_eq!(escape(vec![]), Vec::<u8>::new());
    assert_eq!(escape(vec![1, 2, 3]), vec![1, 2, 3]);
    assert_eq!(escape(vec![0xFC]), vec![0xFC, 0xFC]);
    assert_eq!(
        escape(vec![1, 0xFC, 2, 0xFC, 0xFC]),
        vec![1, 0xFC, 0xFC, 2, 0xFC, 0xFC, 0xFC, 0xFC]
    );
}

#[test]
fn deescape_takes_two_sentinels_for_one() {
    assert_eq!(deescape(vec![]), Vec::<u8>::new());
    assert_eq!(deescape(vec![1, 2, 3]), vec![1, 2, 3]);
    assert_eq!(deescape(vec![0xFC, 0xFC]), vec![0xFC]);
    assert_eq!(deescape(vec![1, 0xFC, 0xFC, 2]), vec![1, 0xFC, 2]);
    assert_eq!(deescape(vec![0xFC, 0xFC, 0xFC, 0xFC]), vec![0xFC, 0xFC]);
}

#[test]
fn deescape_passes_a_lone_sentinel() {
    assert_eq!(deescape(vec![0xFC]), vec![0xFC]);
    assert_eq!(deescape(vec![0xFC, 0x11]), vec![0xFC, 0x11]);
    assert_eq!(deescape(vec![7, 0xFC]), vec![7, 0xFC]);
    assert_eq!(deescape(vec![0xFC, 0xFC, 0xFC]), vec![0xFC, 0xFC]);
}

#[test]
fn deescape_undoes_escape() {
    let mut payloads: Vec<Vec<u8>> = vec![
        vec![],
        vec![0xFC],
        vec![0xFC, 0xFC],
        vec![0xFC, 0xFC, 0xFC],
        vec![0, 0xFC, 0xFC, 1, 0xFC],
        (0..=255).collect(),
    ];
    // Every payload of up to 6 bytes over the sentinel and one other byte.
    for length in 0..=6u32 {
        for bits in 0..(1u32 << length) {
            payloads.push(
                (0..length)
                    .map(|i| if bits >> i & 1 == 1 { ESCAPE_CHAR } else { 0x41 })
                    .collect(),
            );
        }
    }
    for payload in payloads {
        assert_eq!(deescape(escape(payload.clone())), payload);
    }
}

fn attribute_response(key: &[u8], length: u8, value: &[u8]) -> Vec<u8> {
    let mut bytes = vec![ESCAPE_CHAR, RESPONSE_GET_ATTRIBUTE];
    let mut padded = key.to_vec();
    padded.resize(8, 0);
    bytes.extend_from_slice(&padded);
    bytes.push(length);
    bytes.extend_from_slice(value);
    bytes
}

#[test]
fn attribute_is_read_from_a_response() {
    let attribute = Attribute::parse_raw(attribute_response(b"ABC", 2, b"v1")).unwrap();
    assert_eq!(attribute.key, "ABC");
    assert_eq!(attribute.value, "v1");
}

#[test]
fn attribute_padding_is_dropped() {
    let mut value = b"hail".to_vec();
    value.resize(55, 0);
    let attribute = Attribute::parse_raw(attribute_response(b"board", 55, &value)).unwrap();
    assert_eq!(attribute.key, "board");
    assert_eq!(attribute.value, "hail");

    // NUL bytes are dropped wherever they stand.
    let attribute =
        Attribute::parse_raw(attribute_response(b"a\0b\0\0c", 5, b"\0x\0y\0")).unwrap();
    assert_eq!(attribute.key, "abc");
    assert_eq!(attribute.value, "xy");
}

#[test]
fn attribute_value_ends_at_its_length() {
    let attribute = Attribute::parse_raw(attribute_response(b"arch", 3, b"cortex-m4")).unwrap();
    assert_eq!(attribute.key, "arch");
    assert_eq!(attribute.value, "cor");

    let attribute = Attribute::parse_raw(attribute_response(b"", 0, b"")).unwrap();
    assert_eq!(attribute.key, "");
    assert_eq!(attribute.value, "");

    let value = vec![b'z'; 255];
    let attribute = Attribute::parse_raw(attribute_response(b"12345678", 255, &value)).unwrap();
    assert_eq!(attribute.key, "12345678");
    assert_eq!(attribute.value.len(), 255);
}

#[test]
fn attribute_text_is_utf8() {
    let attribute =
        Attribute::parse_raw(attribute_response("n\u{e4}me".as_bytes(), 4, "\u{20ac}1".as_bytes()))
            .unwrap();
    assert_eq!(attribute.key, "n\u{e4}me");
    assert_eq!(attribute.value, "\u{20ac}1");
}

#[test]
fn attribute_that_does_not_start_with_the_sentinel_is_malformed() {
    let mut bytes = attribute_response(b"ABC", 2, b"v1");
    bytes[0] = 0x00;
    assert_eq!(
        Attribute::parse_raw(bytes).err(),
        Some(TockloaderError::MalformedResponse(
            MalformedResponse::UnexpectedStart(0x00)
        ))
    );
    // The first byte is looked at before the length.
    assert_eq!(
        Attribute::parse_raw(vec![0x22]).err(),
        Some(TockloaderError::MalformedResponse(
            MalformedResponse::UnexpectedStart(0x22)
        ))
    );
}

#[test]
fn attribute_with_another_response_code_is_malformed() {
    let mut bytes = attribute_response(b"ABC", 2, b"v1");
    bytes[1] = RESPONSE_OK;
    assert_eq!(
        Attribute::parse_raw(bytes).err(),
        Some(TockloaderError::MalformedResponse(
            MalformedResponse::UnexpectedResponse(RESPONSE_OK)
        ))
    );
    assert_eq!(
        Attribute::parse_raw(vec![ESCAPE_CHAR, RESPONSE_PONG]).err(),
        Some(TockloaderError::MalformedResponse(
            MalformedResponse::UnexpectedResponse(RESPONSE_PONG)
        ))
    );
}

#[test]
fn attribute_that_is_not_utf8_is_malformed() {
    assert_eq!(
        Attribute::parse_raw(attribute_response(&[0xff, 0xfe], 2, b"v1")).err(),
        Some(TockloaderError::MalformedResponse(
            MalformedResponse::KeyNotUtf8
        ))
    );
    assert_eq!(
        Attribute::parse_raw(attribute_response(b"ABC", 2, &[0xc3, 0x28])).err(),
        Some(TockloaderError::MalformedResponse(
            MalformedResponse::ValueNotUtf8
        ))
    );
    // A character that the length cuts in two.
    assert_eq!(
        Attribute::parse_raw(attribute_response(b"ABC", 1, "\u{e4}".as_bytes())).err(),
        Some(TockloaderError::MalformedResponse(
            MalformedResponse::ValueNotUtf8
        ))
    );
    // The key is read before the value.
    assert_eq!(
        Attribute::parse_raw(attribute_response(&[0x80], 1, &[0x80])).err(),
        Some(TockloaderError::MalformedResponse(
            MalformedResponse::KeyNotUtf8
        ))
    );
}

#[test]
fn attribute_that_ends_early_is_malformed() {
    let whole = attribute_response(b"ABC", 2, b"v1");
    assert_eq!(whole.len(), 13);
    for length in [0usize, 1, 2, 9, 10, 11, 12] {
        assert_eq!(
            Attribute::parse_raw(whole[..length].to_vec()).err(),
            Some(TockloaderError::MalformedResponse(
                MalformedResponse::Truncated(length)
            ))
        );
    }
    assert!(Attribute::parse_raw(whole).is_ok());
}

#[test]
fn requests_have_the_bytes_of_the_protocol() {
    assert_eq!(ping_request(), vec![0xFC, 0x01]);
    assert_eq!(sync_request(), vec![0x00, 0xFC, 0x05]);
    assert_eq!(get_attribute_request(0), vec![0x00, 0xFC, 0x14]);
    assert_eq!(get_attribute_request(15), vec![0x0F, 0xFC, 0x14]);
    assert_eq!(get_attribute_request(0xFC), vec![0xFC, 0xFC, 0x14]);
    assert_eq!(encode_request(&[], COMMAND_PING), ping_request());
    assert_eq!(encode_request(&[0], COMMAND_RESET), sync_request());
    assert_eq!(
        encode_request(&[7], COMMAND_GET_ATTRIBUTE),
        get_attribute_request(7)
    );
    assert_eq!(
        encode_request(&[1, 2, 3], 0x06),
        vec![1, 2, 3, 0xFC, 0x06]
    );
}

#[test]
fn attribute_is_asked_for_after_a_sync() {
    assert_eq!(
        get_attribute_exchange(3),
        vec![vec![0x00, 0xFC, 0x05], vec![0x03, 0xFC, 0x14]]
    );
}

#[test]
fn responses_are_taken_apart() {
    assert_eq!(decode_response(&[0xFC, 0x11]), Some((0x11, vec![])));
    assert_eq!(
        decode_response(&[0xFC, 0x22, 1, 2, 3]),
        Some((0x22, vec![1, 2, 3]))
    );
    assert_eq!(decode_response(&[]), None);
    assert_eq!(decode_response(&[0xFC]), None);
    assert_eq!(decode_response(&[0x11, 0xFC]), None);
}

#[test]
fn pong_is_the_sentinel_and_the_pong_code() {
    assert!(is_pong(&[0xFC, 0x11]));
    assert!(!is_pong(&[]));
    assert!(!is_pong(&[0xFC]));
    assert!(!is_pong(&[0xFC, 0x15]));
    assert!(!is_pong(&[0x11, 0xFC]));
    assert!(!is_pong(&[0xFC, 0x11, 0x00]));
}

#[test]
fn ping_takes_silence_for_no() {
    assert!(ping_outcome(&Received::Frame(vec![0xFC, 0x11])));
    assert!(!ping_outcome(&Received::Frame(vec![0xFC, 0x15])));
    assert!(!ping_outcome(&Received::Frame(vec![])));
    assert!(!ping_outcome(&Received::Closed));
    assert!(!ping_outcome(&Received::TimedOut));
}

#[test]
fn attribute_request_takes_silence_for_an_error() {
    let attribute =
        attribute_outcome(Received::Frame(attribute_response(b"ABC", 2, b"v1"))).unwrap();
    assert_eq!(attribute.key, "ABC");
    assert_eq!(attribute.value, "v1");
    assert_eq!(
        attribute_outcome(Received::TimedOut).err(),
        Some(TockloaderError::Timeout)
    );
    assert_eq!(
        attribute_outcome(Received::Closed).err(),
        Some(TockloaderError::BootloaderNotOpen)
    );
    assert_eq!(
        attribute_outcome(Received::Frame(vec![0xFC, 0x11])).err(),
        Some(TockloaderError::MalformedResponse(
            MalformedResponse::UnexpectedResponse(0x11)
        ))
    );
}

/// Runs the entry, answering the probes in turn with `answers`, and returns
/// the actions asked for and the state at the end.
fn run_entry(baud_rate: u32, answers: &[bool]) -> (Vec<EntryAction>, EntryState) {
    let mut entry = EntryHandshake::new(baud_rate);
    assert_eq!(entry.get_state(), EntryState::Unknown);
    let mut answers = answers.iter();
    let mut actions = Vec::new();
    let mut next = entry.advance(EntryEvent::Started);
    while let Some(action) = next {
        actions.push(action);
        assert!(actions.len() <= 13);
        let event = match action {
            EntryAction::Ping => EntryEvent::Probed(*answers.next().unwrap()),
            _ => EntryEvent::Performed,
        };
        next = entry.advance(event);
    }
    (actions, entry.get_state())
}

#[test]
fn answered_first_ping_changes_nothing() {
    let (actions, state) = run_entry(115200, &[true]);
    assert_eq!(actions, vec![EntryAction::Ping]);
    assert_eq!(state, EntryState::BootloaderActive);
}

#[test]
fn second_ping_follows_the_low_baud_rate() {
    let (actions, state) = run_entry(115200, &[false, true]);
    assert_eq!(
        actions,
        vec![
            EntryAction::Ping,
            EntryAction::SetBaudRate(1200),
            EntryAction::Wait(1000),
            EntryAction::Ping,
        ]
    );
    assert_eq!(state, EntryState::BootloaderActive);
}

fn whole_entry(baud_rate: u32) -> Vec<EntryAction> {
    vec![
        EntryAction::Ping,
        EntryAction::SetBaudRate(1200),
        EntryAction::Wait(1000),
        EntryAction::Ping,
        EntryAction::SetBaudRate(baud_rate),
        EntryAction::Wait(1000),
        EntryAction::SetDataTerminalReady(true),
        EntryAction::SetRequestToSend(true),
        EntryAction::Wait(100),
        EntryAction::SetDataTerminalReady(false),
        EntryAction::Wait(500),
        EntryAction::SetRequestToSend(false),
        EntryAction::Ping,
    ]
}

#[test]
fn last_ping_follows_the_reset_over_the_control_lines() {
    let (actions, state) = run_entry(57600, &[false, false, true]);
    assert_eq!(actions, whole_entry(57600));
    assert_eq!(state, EntryState::BootloaderActive);
}

#[test]
fn silent_board_is_unreachable() {
    let (actions, state) = run_entry(115200, &[false, false, false]);
    assert_eq!(actions, whole_entry(115200));
    assert_eq!(state, EntryState::Unreachable);
}

#[test]
fn ended_entry_asks_for_nothing() {
    for state in [EntryState::BootloaderActive, EntryState::Unreachable] {
        for event in [
            EntryEvent::Started,
            EntryEvent::Probed(true),
            EntryEvent::Probed(false),
            EntryEvent::Performed,
        ] {
            assert_eq!(step(state, event, 115200), (state, None));
        }
    }
    assert_eq!(
        step(EntryState::Unknown, EntryEvent::Probed(true), 115200),
        (EntryState::Unknown, None)
    );
}

#[test]
fn event_that_does_not_fit_asks_again() {
    let probing = EntryState::Probing(EntryStep::FirstProbe);
    assert_eq!(
        step(probing, EntryEvent::Performed, 9600),
        (probing, Some(EntryAction::Ping))
    );
    let settling = EntryState::Probing(EntryStep::HoldReset);
    assert_eq!(
        step(settling, EntryEvent::Probed(true), 9600),
        (settling, Some(EntryAction::Wait(100)))
    );
    assert_eq!(
        step(settling, EntryEvent::Performed, 9600),
        (
            EntryState::Probing(EntryStep::ReleaseDtr),
            Some(EntryAction::SetDataTerminalReady(false))
        )
    );
    let restoring = EntryState::Probing(EntryStep::SecondProbe);
    assert_eq!(
        step(restoring, EntryEvent::Probed(false), 9600),
        (
            EntryState::Probing(EntryStep::RestoreBaudRate),
            Some(EntryAction::SetBaudRate(9600))
        )
    );
}

#[test]
fn manual_entry_is_confirmed_by_a_pong() {
    assert_eq!(confirm_manual_entry(true), Ok(()));
    assert_eq!(
        confirm_manual_entry(false),
        Err(TockloaderError::BootloaderNotOpen)
    );
}
