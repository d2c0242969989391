use way_shell::ipc::{
    keep_writing, may_start, socket_path, spend, valid_stream_path, CommandKind, QueueError,
    SocketPathError, WriteQueue, MAX_IN_FLIGHT, MAX_QUEUED,
};
use way_shell::ipc::{stale_socket, BindError, Probe, StaleStep};
use way_shell::text::{
    append, chars_eq, chars_of, concat_chars, contains_string, copy_string, decimal_string,
    starts_with, str_eq, string_of, suffix_from,
};
use way_shell::variant::{dict_get, value_string, Value};

#[test]
fn character_helpers_keep_unicode_characters() {
    let c = chars_of("añ日");
    assert_eq!(c, ['a', 'ñ', '日']);
    assert_eq!(string_of(&c), "añ日");
    assert!(chars_eq(&c, &['a', 'ñ', '日']));
    assert!(!chars_eq(&c, &['a', 'ñ']));
    assert!(str_eq("日本", "日本"));
    assert!(!str_eq("日本", "日"));
    assert!(starts_with(&c, &['a', 'ñ']));
    assert!(!starts_with(&['a'], &['a', 'ñ']));
    assert_eq!(suffix_from(&c, 1), ['ñ', '日']);
    assert_eq!(suffix_from(&c, 3), []);
    assert_eq!(concat_chars(&['x'], &c), ['x', 'a', 'ñ', '日']);
    let mut s = String::from("a");
    append(&mut s, "bç");
    assert_eq!(s, "abç");
    assert_eq!(copy_string(&s), "abç");
    assert!(contains_string(&vec!["x".into(), "abç".into()], "abç"));
    assert!(!contains_string(&vec!["x".into()], "X"));
}

#[test]
fn decimals_are_written_like_format() {
    for n in [0_u64, 7, 10, 99, 1234567890, u64::MAX] {
        assert_eq!(decimal_string(n), format!("{n}"));
    }
}

#[test]
fn dictionary_lookups_take_the_last_entry() {
    let entries = vec![
        ("a".to_string(), Value::Int32(1)),
        ("b".to_string(), Value::Signature("s".into())),
        ("a".to_string(), Value::Int32(2)),
    ];
    assert!(matches!(dict_get(&entries, "a"), Some(Value::Int32(2))));
    assert!(dict_get(&entries, "c").is_none());
    assert_eq!(value_string(dict_get(&entries, "b").unwrap()).as_deref(), Some("s"));
    assert_eq!(value_string(&Value::Int32(1)), None);
}

#[test]
fn opcodes_round_trip_and_unknown_ones_are_refused() {
    for opcode in 1..=33 {
        let c = CommandKind::from_opcode(opcode).unwrap();
        assert_eq!(c.opcode(), opcode);
    }
    assert_eq!(CommandKind::from_opcode(0), None);
    assert_eq!(CommandKind::from_opcode(34), None);
    assert_eq!(CommandKind::from_opcode(4), Some(CommandKind::VolumeSet));
    assert_eq!(CommandKind::RenameSwitcherToggle.opcode(), 33);
}

#[test]
fn commands_in_flight_are_bounded() {
    assert!(may_start(0));
    assert!(may_start(MAX_IN_FLIGHT - 1));
    assert!(!may_start(MAX_IN_FLIGHT));
}

#[test]
fn socket_paths_must_be_absolute_and_fit() {
    assert_eq!(socket_path("/run/user/1000", "way-shell.sock"), Ok("/run/user/1000/way-shell.sock".into()));
    assert_eq!(socket_path("run", "s"), Err(SocketPathError::InvalidRuntime));
    let long = format!("/{}", "d".repeat(100));
    assert_eq!(socket_path(&long, "abcde"), Ok(format!("{long}/abcde")));
    assert_eq!(socket_path(&long, "abcdef"), Err(SocketPathError::InvalidRuntime));
    // The limit counts UTF-8 bytes, not characters.
    let wide = format!("/{}", "é".repeat(50));
    assert_eq!(socket_path(&wide, "abcde"), Ok(format!("{wide}/abcde")));
    assert_eq!(socket_path(&wide, "abcdef"), Err(SocketPathError::InvalidRuntime));
    assert_eq!(socket_path("/a\0b", "s"), Err(SocketPathError::InvalidRuntime));
    assert!(valid_stream_path(b"/run/sway-ipc.sock"));
    assert!(!valid_stream_path(b""));
    assert!(!valid_stream_path(&[b'a'; 108]));
    assert!(valid_stream_path(&[b'a'; 107]));
    assert!(!valid_stream_path(b"a\0"));
}

#[test]
fn write_queue_sends_bytes_in_order() {
    let mut q = WriteQueue::new();
    assert_eq!(q.queued(), 0);
    assert!(q.front().is_none());
    assert_eq!(q.push(b"abc".to_vec(), false), Ok(()));
    assert_eq!(q.push(Vec::new(), false), Ok(()));
    assert_eq!(q.push(b"de".to_vec(), false), Ok(()));
    assert_eq!(q.queued(), 5);
    assert_eq!(q.push(b"x".to_vec(), true), Err(QueueError::Closed));
    let (m, o) = q.front().unwrap();
    assert_eq!((m.as_slice(), o), (&b"abc"[..], 0));
    assert_eq!(q.advance(0), Err(QueueError::NoProgress));
    assert_eq!(q.advance(2), Ok(()));
    let (m, o) = q.front().unwrap();
    assert_eq!((m.as_slice(), o), (&b"abc"[..], 2));
    assert_eq!(q.advance(1), Ok(()));
    let (m, o) = q.front().unwrap();
    assert_eq!((m.as_slice(), o), (&b"de"[..], 0));
    assert_eq!(q.queued(), 2);
    assert!(keep_writing(&q, 10));
    assert!(!keep_writing(&q, 0));
    q.clear();
    assert_eq!(q.queued(), 0);
    assert!(!keep_writing(&q, 10));
    assert_eq!(spend(10, 3), 7);
    assert_eq!(spend(3, 10), 0);
}

#[test]
fn write_queue_is_bounded() {
    let mut q = WriteQueue::new();
    assert_eq!(q.push(vec![0; MAX_QUEUED - 1], false), Ok(()));
    assert_eq!(q.push(vec![1; 2], false), Err(QueueError::Full));
    assert_eq!(q.push(vec![1; 1], false), Ok(()));
    assert_eq!(q.queued(), MAX_QUEUED);
    assert_eq!(q.push(vec![2], false), Err(QueueError::Full));
    assert_eq!(QueueError::Full.message(), "Compositor command queue is full");
}

#[test]
fn only_an_unchanged_stale_socket_is_replaced() {
    assert_eq!(stale_socket(false, None, None), StaleStep::Refuse(BindError::NotSocket));
    assert_eq!(stale_socket(true, None, None), StaleStep::Probe);
    assert_eq!(stale_socket(true, Some(Probe::Live), None), StaleStep::Refuse(BindError::LiveServer));
    assert_eq!(stale_socket(true, Some(Probe::Failed), None), StaleStep::ProbeFailed);
    assert_eq!(stale_socket(true, Some(Probe::Refused), None), StaleStep::Recheck);
    assert_eq!(stale_socket(true, Some(Probe::Refused), Some((true, true))), StaleStep::Replace);
    assert_eq!(
        stale_socket(true, Some(Probe::Refused), Some((false, true))),
        StaleStep::Refuse(BindError::Changed)
    );
    assert_eq!(
        BindError::Changed.message(),
        "Way Shell IPC socket changed while checking its owner"
    );
    assert_eq!(
        socket_path("relative", "way-shell.sock"),
        Err(SocketPathError::InvalidRuntime)
    );
}

#[test]
fn write_queue_delivers_accepted_messages_joined_in_order() {
    let mut q = WriteQueue::new();
    let mut delivered: Vec<u8> = Vec::new();
    let mut accepted: Vec<u8> = Vec::new();
    let messages: Vec<Vec<u8>> = vec![b"first ".to_vec(), Vec::new(), b"second ".to_vec(), b"third".to_vec()];
    for (i, m) in messages.iter().enumerate() {
        if q.push(m.clone(), false).is_ok() {
            accepted.extend_from_slice(m);
        }
        assert_eq!(q.push(b"never".to_vec(), true), Err(QueueError::Closed));
        if i % 2 == 1 {
            let (front, offset) = q.front().unwrap();
            let n = (front.len() - offset).min(4);
            delivered.extend_from_slice(&front[offset..offset + n]);
            q.advance(n).unwrap();
        }
    }
    while let Some((front, offset)) = q.front() {
        let n = (front.len() - offset).min(3);
        delivered.extend_from_slice(&front[offset..offset + n]);
        q.advance(n).unwrap();
    }
    assert_eq!(q.queued(), 0);
    assert_eq!(delivered, b"first second third".to_vec());
    assert_eq!(delivered, accepted);
}

#[test]
fn an_overflowing_message_is_refused_as_full() {
    let mut q = WriteQueue::new();
    assert_eq!(q.push(vec![0; MAX_QUEUED + 1], false), Err(QueueError::Full));
    assert_eq!(q.queued(), 0);
    assert_eq!(q.push(Vec::new(), false), Ok(()));
    assert_eq!(q.queued(), 0);
}
