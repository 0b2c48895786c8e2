use kvlog::KvError;
use kvlog::protocol::{
    Action, COMMAND_LEN, Command, Event, IDLE_TIMEOUT_MS, POLL_INTERVAL_MS, SessionState,
    parse_command, session_step, validate_utf8,
};
use kvlog::storage::Storage;
use kvlog::storage::log_storage::LogStorage;

#[test]
fn command_tokens() {
    assert_eq!(parse_command(b"GET"), Command::Get);
    assert_eq!(parse_command(b"SET"), Command::SetCmd);
    assert_eq!(parse_command(b"PUT"), Command::Unknown);
    assert_eq!(parse_command(b"get"), Command::Unknown);
    assert_eq!(COMMAND_LEN, 3);
}

#[test]
fn timeout_budget_constants() {
    assert_eq!(IDLE_TIMEOUT_MS, 2000);
    assert_eq!(POLL_INTERVAL_MS, 50);
}

fn expect_read_frame(r: (SessionState, Action)) -> SessionState {
    match r.1 {
        Action::ReadFrame => r.0,
        _ => panic!("expected a frame read"),
    }
}

#[test]
fn set_then_get_scenario() {
    // "SET" + 3-byte key "abc" + 5-byte value "hello", then "GET" "abc".
    let mut store = LogStorage::new();

    let st = SessionState::AwaitCommand;
    let st = expect_read_frame(session_step(st, Event::CommandRead(b"SET".to_vec())));
    let st = expect_read_frame(session_step(st, Event::FrameRead(b"abc".to_vec())));
    let (st, act) = session_step(st, Event::FrameRead(b"hello".to_vec()));
    let (key, value) = match act {
        Action::DoSet(k, v) => (k, v),
        _ => panic!("expected a store"),
    };
    assert_eq!(key, b"abc".to_vec());
    assert_eq!(value, b"hello".to_vec());
    store.set(&key, &value).unwrap();
    let (st, act) = session_step(st, Event::SetDone);
    match act {
        Action::Respond(bytes) => assert_eq!(bytes, vec![0x4F, 0x4B, 0x00]),
        _ => panic!("expected a response"),
    }
    let (st, act) = session_step(st, Event::Responded);
    assert!(matches!(act, Action::ReadCommand));

    let st = expect_read_frame(session_step(st, Event::CommandRead(b"GET".to_vec())));
    let (st, act) = session_step(st, Event::FrameRead(b"abc".to_vec()));
    let key = match act {
        Action::DoGet(k) => k,
        _ => panic!("expected a lookup"),
    };
    let result = store.get(&key).unwrap();
    let (st, act) = session_step(st, Event::GetResult(result));
    match act {
        Action::Respond(bytes) => {
            assert_eq!(&bytes[0..8], &[5, 0, 0, 0, 0, 0, 0, 0]);
            assert_eq!(&bytes[8..], b"hello");
        },
        _ => panic!("expected a response"),
    }
    let (_, act) = session_step(st, Event::Responded);
    assert!(matches!(act, Action::ReadCommand));
}

#[test]
fn missing_key_responds_zero_length() {
    let st = SessionState::AwaitCommand;
    let st = expect_read_frame(session_step(st, Event::CommandRead(b"GET".to_vec())));
    let (st, act) = session_step(st, Event::FrameRead(b"nope".to_vec()));
    assert!(matches!(act, Action::DoGet(_)));
    let (_, act) = session_step(st, Event::GetResult(None));
    match act {
        Action::Respond(bytes) => assert_eq!(bytes, vec![0u8; 8]),
        _ => panic!("expected a response"),
    }
}

#[test]
fn empty_key_lookup_is_served() {
    // A zero-length key frame still runs a lookup and answers not-found.
    let mut store = LogStorage::new();
    let st = SessionState::AwaitCommand;
    let st = expect_read_frame(session_step(st, Event::CommandRead(b"GET".to_vec())));
    let (st, act) = session_step(st, Event::FrameRead(Vec::new()));
    let key = match act {
        Action::DoGet(k) => k,
        _ => panic!("expected a lookup"),
    };
    assert!(key.is_empty());
    let result = store.get(&key).unwrap();
    assert_eq!(result, None);
    let (_, act) = session_step(st, Event::GetResult(result));
    match act {
        Action::Respond(bytes) => assert_eq!(bytes, vec![0u8; 8]),
        _ => panic!("expected a response"),
    }
}

#[test]
fn idle_timeout_closes_the_connection() {
    let (st, act) = session_step(SessionState::AwaitCommand, Event::IdleTimeout);
    assert!(matches!(act, Action::Close));
    assert!(matches!(st, SessionState::Closed));
}

#[test]
fn unknown_command_closes_the_connection() {
    let (st, act) = session_step(SessionState::AwaitCommand, Event::CommandRead(b"XYZ".to_vec()));
    assert!(matches!(act, Action::Close));
    assert!(matches!(st, SessionState::Closed));
    let (_, act) = session_step(SessionState::AwaitCommand, Event::CommandRead(b"GE".to_vec()));
    assert!(matches!(act, Action::Close));
}

#[test]
fn failure_closes_the_connection() {
    let (st, act) = session_step(SessionState::AwaitGetKey, Event::Failed(KvError::IoError));
    assert!(matches!(act, Action::Close));
    assert!(matches!(st, SessionState::Closed));
    let (_, act) = session_step(SessionState::SetPending, Event::Failed(KvError::LockContention));
    assert!(matches!(act, Action::Close));
}

#[test]
fn event_out_of_order_closes_the_connection() {
    let (st, act) = session_step(SessionState::AwaitCommand, Event::FrameRead(b"k".to_vec()));
    assert!(matches!(act, Action::Close));
    assert!(matches!(st, SessionState::Closed));
    let (_, act) = session_step(SessionState::Closed, Event::SetDone);
    assert!(matches!(act, Action::Close));
}

#[test]
fn non_utf8_get_key_closes_without_response() {
    let st = SessionState::AwaitCommand;
    let st = expect_read_frame(session_step(st, Event::CommandRead(b"GET".to_vec())));
    let (st, act) = session_step(st, Event::FrameRead(vec![0xFF]));
    assert!(matches!(act, Action::Close));
    assert!(matches!(st, SessionState::Closed));
}

#[test]
fn non_utf8_set_key_closes_without_storing() {
    let st = SessionState::AwaitCommand;
    let st = expect_read_frame(session_step(st, Event::CommandRead(b"SET".to_vec())));
    // An invalid key tears the session down before the value frame is
    // even asked for: no store, no acknowledgement.
    let (st, act) = session_step(st, Event::FrameRead(vec![0x80, 0x61]));
    assert!(matches!(act, Action::Close));
    assert!(matches!(st, SessionState::Closed));
}

#[test]
fn utf8_validation_agrees_with_std() {
    let cases: Vec<Vec<u8>> = vec![
        b"".to_vec(),
        b"abc".to_vec(),
        "h\u{e9}llo".as_bytes().to_vec(),
        "\u{441}\u{43d}\u{435}\u{433}".as_bytes().to_vec(),
        "\u{2603}\u{1F600}".as_bytes().to_vec(),
        vec![0xFF],
        vec![0x80],
        vec![0xC3],
        vec![0xC3, 0xA9],
        vec![0xC0, 0x80],
        vec![0xC1, 0xBF],
        vec![0xE0, 0x80, 0x80],
        vec![0xE0, 0xA0, 0x80],
        vec![0xED, 0x9F, 0xBF],
        vec![0xED, 0xA0, 0x80],
        vec![0xEF, 0xBF, 0xBD],
        vec![0xF0, 0x80, 0x80, 0x80],
        vec![0xF0, 0x90, 0x80, 0x80],
        vec![0xF4, 0x8F, 0xBF, 0xBF],
        vec![0xF4, 0x90, 0x80, 0x80],
        vec![0xF5, 0x80, 0x80, 0x80],
        vec![0x61, 0xC3],
        vec![0xE2, 0x82],
        vec![0xE2, 0x82, 0xAC, 0x62],
    ];
    for case in cases {
        assert_eq!(
            validate_utf8(&case),
            std::str::from_utf8(&case).is_ok(),
            "disagreement on {:?}",
            case
        );
    }
}
