use base64::Engine;
use terminal_plus::pty::bridge::{
    bridge_step, exit_event, output_event, BridgeEvent, ReadOutcome, READ_BUFFER_SIZE,
};
use terminal_plus::pty::commands::{decode_input, input_bytes};
use terminal_plus::pty::error::{DecodeFault, PtyError};

fn by_the_crate(text: &str) -> Result<Vec<u8>, base64::DecodeError> {
    base64::engine::general_purpose::STANDARD.decode(text)
}

#[test]
fn output_is_sent_as_base64_under_the_session_name() {
    assert_eq!(
        bridge_step("s1", &ReadOutcome::Read(b"hello world~")),
        BridgeEvent::Output {
            name: "pty-output-s1".to_string(),
            payload: "aGVsbG8gd29ybGR+".to_string(),
        }
    );
    assert_eq!(
        bridge_step("tab-2", &ReadOutcome::Read(b"\x1b[1m")),
        BridgeEvent::Output { name: "pty-output-tab-2".to_string(), payload: "G1sxbQ==".to_string() }
    );
}

#[test]
fn end_of_stream_and_failure_are_the_exit() {
    let exit = BridgeEvent::Exit { name: "pty-exit-s1".to_string() };
    assert_eq!(bridge_step("s1", &ReadOutcome::Read(b"")), exit);
    assert_eq!(bridge_step("s1", &ReadOutcome::Failed), exit);
    assert_eq!(exit_event("s1"), exit);
}

#[test]
fn output_event_takes_the_payload_as_it_is() {
    assert_eq!(
        output_event("x", "cGF5bG9hZA==".to_string()),
        BridgeEvent::Output { name: "pty-output-x".to_string(), payload: "cGF5bG9hZA==".to_string() }
    );
}

#[test]
fn what_the_bridge_sends_decodes_to_what_was_read() {
    let full: Vec<u8> = (0..READ_BUFFER_SIZE).map(|i| (i * 7 % 256) as u8).collect();
    for len in [1usize, 2, 3, 4, 5, 255, 256, 4096, 8191, 8192] {
        let chunk = &full[..len];
        match bridge_step("s", &ReadOutcome::Read(chunk)) {
            BridgeEvent::Output { payload, .. } => {
                assert_eq!(payload.len(), (len + 2) / 3 * 4);
                assert_eq!(decode_input(&payload), Ok(chunk.to_vec()));
            }
            other => panic!("bytes were read, not {:?}", other),
        }
    }
}

#[test]
fn chunks_are_sent_in_the_order_in_which_they_were_read() {
    let reads: [&[u8]; 4] = [b"one ", b"two ", b"three", b""];
    let mut seen = Vec::new();
    let mut events = 0;
    for chunk in reads {
        events += 1;
        match bridge_step("s", &ReadOutcome::Read(chunk)) {
            BridgeEvent::Output { payload, .. } => seen.extend(decode_input(&payload).unwrap()),
            BridgeEvent::Exit { name } => {
                assert_eq!(name, "pty-exit-s");
                break;
            }
        }
    }
    assert_eq!(events, 4);
    assert_eq!(seen, b"one two three");
}

#[test]
fn names_of_different_sessions_differ() {
    let ids = ["", "a", "b", "ab", "output-a", "exit-a", "s1", "s11"];
    let mut names = Vec::new();
    for id in ids {
        match bridge_step(id, &ReadOutcome::Read(b"x")) {
            BridgeEvent::Output { name, .. } => names.push(name),
            _ => panic!("bytes were read"),
        }
        match exit_event(id) {
            BridgeEvent::Exit { name } => names.push(name),
            _ => panic!("an exit is an exit"),
        }
    }
    for i in 0..names.len() {
        for j in 0..i {
            assert_ne!(names[i], names[j]);
        }
    }
}

#[test]
fn decoding_agrees_with_the_crate() {
    let samples = [
        "", "aGk=", "aGk", "aGk==", "aGk=a", "a", "ab", "abc", "abcd", "ab==", "ab=", "a===",
        "////", "++++", "----", "aGVsbG8gd29ybGR+Cg==", "aGVs bG8=", "aGVsbG8\n", "=", "====",
        "AP8=", "AP9=", "AA==", "AB==", "YQ==YQ==", "*GVs", "aGVsbG8gd29ybGR+Cg=", "é",
    ];
    for s in samples {
        match (decode_input(s), by_the_crate(s)) {
            (Ok(mine), Ok(theirs)) => assert_eq!(mine, theirs, "decoding {:?}", s),
            (Err(PtyError::InvalidEncoding(fault)), Err(e)) => {
                assert_eq!(fault.message(), e.to_string(), "decoding {:?}", s);
                assert_eq!(
                    PtyError::InvalidEncoding(fault).message(),
                    format!("Invalid base64: {e}"),
                );
            }
            (mine, theirs) => panic!("decoding {:?}: {:?} against {:?}", s, mine, theirs),
        }
    }
}

#[test]
fn each_fault_has_its_words() {
    assert_eq!(decode_input("a"), Err(PtyError::InvalidEncoding(DecodeFault::InvalidLength(1))));
    assert_eq!(
        decode_input("ab!d"),
        Err(PtyError::InvalidEncoding(DecodeFault::InvalidByte(2, b'!')))
    );
    assert_eq!(
        decode_input("AB=="),
        Err(PtyError::InvalidEncoding(DecodeFault::InvalidLastSymbol(1, b'B')))
    );
    assert_eq!(decode_input("aGk"), Err(PtyError::InvalidEncoding(DecodeFault::InvalidPadding)));
    assert_eq!(DecodeFault::InvalidLength(1).message(), "Invalid input length: 1");
    assert_eq!(DecodeFault::InvalidByte(2, 33).message(), "Invalid symbol 33, offset 2.");
    assert_eq!(
        DecodeFault::InvalidLastSymbol(1, 66).message(),
        "Invalid last symbol 66, offset 1."
    );
    assert_eq!(DecodeFault::InvalidPadding.message(), "Invalid padding");
    assert_eq!(
        PtyError::InvalidEncoding(DecodeFault::InvalidPadding).message(),
        "Invalid base64: Invalid padding"
    );
}

#[test]
fn input_bytes_passes_the_bytes_and_wraps_the_fault() {
    assert_eq!(input_bytes(Ok(vec![1, 2, 3])), Ok(vec![1, 2, 3]));
    assert_eq!(
        input_bytes(Err(DecodeFault::InvalidLength(5))),
        Err(PtyError::InvalidEncoding(DecodeFault::InvalidLength(5)))
    );
}
