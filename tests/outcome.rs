use taku_bridge::outcome::{
    directory_failure, exit_result, exit_result_from_bytes, spawn_failure, timeout_failure,
    GenerationResult,
};

#[test]
fn success_needs_exit_and_file() {
    let r = exit_result(true, true, "noise", "/out/a.wav").to_response();
    assert!(r.success);
    assert_eq!(r.audio_path.as_deref(), Some("/out/a.wav"));
    assert!(r.error.is_none());
    for (ok, exists) in [(true, false), (false, true), (false, false)] {
        let r = exit_result(ok, exists, "boom", "/out/a.wav").to_response();
        assert!(!r.success);
        assert!(r.audio_path.is_none());
        assert_eq!(r.error.as_deref(), Some("Bark execution failed: boom"));
    }
}

#[test]
fn failure_with_empty_stderr_still_has_an_error() {
    let r = exit_result(true, false, "", "/out/a.wav").to_response();
    assert!(!r.success);
    assert_eq!(r.error.as_deref(), Some("Bark execution failed: "));
}

#[test]
fn stderr_bytes_are_decoded_lossily() {
    let r = exit_result_from_bytes(false, true, b"bad \xff byte", "p");
    match r {
        GenerationResult::Failure { message } => {
            assert_eq!(message, "Bark execution failed: bad \u{FFFD} byte")
        }
        GenerationResult::Success { .. } => panic!("expected a failure"),
    }
    let ok = exit_result_from_bytes(true, true, b"warn", "p").to_response();
    assert_eq!(ok.audio_path.as_deref(), Some("p"));
}

#[test]
fn other_failures_have_their_messages() {
    let d = directory_failure().to_response();
    assert!(!d.success);
    assert_eq!(d.error.as_deref(), Some("Failed to create output directory"));
    let s = spawn_failure("No such file or directory (os error 2)").to_response();
    assert!(!s.success);
    assert_eq!(
        s.error.as_deref(),
        Some("Failed to execute bark: No such file or directory (os error 2)")
    );
    let t = timeout_failure(300).to_response();
    assert!(!t.success);
    assert!(t.audio_path.is_none());
    assert_eq!(t.error.as_deref(), Some("Bark execution timed out after 300 seconds"));
}
