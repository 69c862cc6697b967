use dockpit::osc52::{base64_encode, build_sequence, osc52_sequence, wrap, Osc52Error, TerminalEnv};

#[test]
fn base64_matches_known_vectors() {
    // RFC 4648 §10 test vectors.
    assert_eq!(base64_encode(b""), "");
    assert_eq!(base64_encode(b"f"), "Zg==");
    assert_eq!(base64_encode(b"fo"), "Zm8=");
    assert_eq!(base64_encode(b"foo"), "Zm9v");
    assert_eq!(base64_encode(b"foob"), "Zm9vYg==");
    assert_eq!(base64_encode(b"fooba"), "Zm9vYmE=");
    assert_eq!(base64_encode(b"foobar"), "Zm9vYmFy");
}

#[test]
fn base64_handles_non_ascii_bytes() {
    // "ñ" is 0xC3 0xB1 in UTF-8.
    assert_eq!(base64_encode("ñ".as_bytes()), "w7E=");
}

#[test]
fn sequence_has_osc52_envelope() {
    let seq = build_sequence("foobar", false, false).unwrap();
    assert_eq!(seq, "\x1b]52;c;Zm9vYmFy\x07");
}

#[test]
fn wrap_tmux_doubles_escapes_and_uses_dcs() {
    let inner = "\x1b]52;c;Zm9v\x07".to_string();
    let wrapped = wrap(inner, true, false);
    assert_eq!(wrapped, "\x1bPtmux;\x1b\x1b\x1b]52;c;Zm9v\x07\x1b\\");
}

#[test]
fn wrap_screen_uses_dcs_passthrough() {
    let inner = "\x1b]52;c;Zm9v\x07".to_string();
    let wrapped = wrap(inner, false, true);
    assert_eq!(wrapped, "\x1bP\x1b]52;c;Zm9v\x07\x1b\\");
}

#[test]
fn wrap_plain_is_unchanged() {
    let inner = "\x1b]52;c;Zm9v\x07".to_string();
    assert_eq!(wrap(inner.clone(), false, false), inner);
}

#[test]
fn oversized_payload_is_rejected() {
    // 100_000 base64 chars => 75_000 raw bytes is the boundary; go past it.
    let big = "x".repeat(80_000);
    let env = TerminalEnv { tmux: false, term: None };
    assert!(matches!(
        osc52_sequence(&big, &env),
        Err(Osc52Error::TooLarge { .. })
    ));
}
