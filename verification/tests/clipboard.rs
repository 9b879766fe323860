use base64::{engine::general_purpose, Engine as _};
use goose::clipboard::{
    copy, copy_via_osc52, osc52_frame, osc52_sequence, platform_commands, ClipboardError, CopyStep,
    Platform, OSC52_MAX_BYTES, OSC52_MECHANISM,
};

#[test]
fn osc52_sequence_encodes_payload() {
    assert_eq!(osc52_sequence("hi"), "\x1b]52;c;aGk=\x07");
}

#[test]
fn osc52_rejects_oversized_payloads() {
    let big = "a".repeat(OSC52_MAX_BYTES + 1);
    assert!(copy_via_osc52(&big).is_err());
}

#[test]
fn osc52_accepts_payload_at_the_limit() {
    let at_limit = "a".repeat(OSC52_MAX_BYTES);
    let seq = copy_via_osc52(&at_limit).expect("at the limit");
    assert!(seq.starts_with("\x1b]52;c;"));
    assert!(seq.ends_with("\x07"));
}

#[test]
fn osc52_limit_counts_bytes_not_characters() {
    // 50_001 two-byte characters: 100_002 bytes.
    let text = "é".repeat(50_001);
    assert_eq!(copy_via_osc52(&text).unwrap_err(), ClipboardError::TooLargeForOsc52);
}

#[test]
fn osc52_sequence_encodes_utf8_bytes_with_padding() {
    assert_eq!(osc52_sequence(""), "\x1b]52;c;\x07");
    assert_eq!(osc52_sequence("a"), "\x1b]52;c;YQ==\x07");
    assert_eq!(osc52_sequence("abc"), "\x1b]52;c;YWJj\x07");
    assert_eq!(osc52_sequence("é"), "\x1b]52;c;w6k=\x07");
}

#[test]
fn osc52_frame_wraps_payload() {
    assert_eq!(osc52_frame("QUJD"), "\x1b]52;c;QUJD\x07");
}

#[test]
fn platform_commands_per_platform() {
    let mac = platform_commands(Platform::MacOs);
    assert_eq!(mac.len(), 1);
    assert_eq!((mac[0].name, mac[0].command), ("pbcopy", "pbcopy"));
    assert!(mac[0].args.is_empty());

    let win = platform_commands(Platform::Windows);
    assert_eq!(win.len(), 1);
    assert_eq!((win[0].name, win[0].command), ("clip", "clip"));

    let unix = platform_commands(Platform::Unix);
    let names: Vec<&str> = unix.iter().map(|c| c.name).collect();
    assert_eq!(names, vec!["wl-copy", "xclip", "xsel"]);
    assert_eq!(unix[1].args, vec!["-selection", "clipboard"]);
    assert_eq!(unix[2].args, vec!["--clipboard", "--input"]);
}

#[test]
fn copy_tries_commands_in_order_then_osc52() {
    for (failed, expected) in ["wl-copy", "xclip", "xsel"].iter().enumerate() {
        match copy("hi", Platform::Unix, failed) {
            CopyStep::RunCommand(c) => assert_eq!(c.name, *expected),
            other => panic!("expected a command, got {other:?}"),
        }
    }
    match copy("hi", Platform::Unix, 3) {
        CopyStep::WriteOsc52(seq) => assert_eq!(seq, "\x1b]52;c;aGk=\x07"),
        other => panic!("expected OSC 52, got {other:?}"),
    }
    assert_eq!(OSC52_MECHANISM, "OSC 52");
}

#[test]
fn copy_fails_when_no_tool_and_text_too_large() {
    let big = "a".repeat(OSC52_MAX_BYTES + 1);
    match copy(&big, Platform::MacOs, 1) {
        CopyStep::Fail(e) => assert_eq!(e, ClipboardError::TooLargeForOsc52),
        other => panic!("expected failure, got {other:?}"),
    }
    // A large text still goes to the clipboard commands first.
    assert!(matches!(copy(&big, Platform::MacOs, 0), CopyStep::RunCommand(_)));
}

#[test]
fn osc52_payload_decodes_back_to_the_text() {
    for text in ["", "a", "ab", "abc", "hello, clipboard", "é ☃ 𝄞"] {
        let seq = osc52_sequence(text);
        let payload = &seq["\x1b]52;c;".len()..seq.len() - 1];
        assert_eq!(general_purpose::STANDARD.decode(payload).unwrap(), text.as_bytes());
    }
}
