use dockpit::message::{detect_log_level, LogLevel};
use dockpit::text::contains_ci;

#[test]
fn contains_ci_is_ascii_case_insensitive() {
    assert!(contains_ci("Hello ERROR world", "ERROR"));
    assert!(contains_ci("hello error world", "ERROR"));
    assert!(contains_ci("WaRnInG: x", "WARN"));
    assert!(!contains_ci("all good here", "ERROR"));
    assert!(contains_ci("anything", "")); // empty needle matches
    assert!(!contains_ci("ab", "ABC")); // needle longer than haystack
}

#[test]
fn contains_ci_handles_multibyte_haystack() {
    // Non-ASCII bytes must never be mistaken for an ASCII match.
    assert!(contains_ci("café ERROR", "ERROR"));
    assert!(!contains_ci("ñoño", "NO"));
}

#[test]
fn detect_log_level_classifies_by_keyword() {
    assert_eq!(detect_log_level("ERROR boom"), LogLevel::Error);
    assert_eq!(detect_log_level("a warning happened"), LogLevel::Warn);
    assert_eq!(detect_log_level("INFO started"), LogLevel::Info);
    assert_eq!(detect_log_level("debug trace here"), LogLevel::Debug);
    assert_eq!(detect_log_level("plain message"), LogLevel::Unknown);
}
