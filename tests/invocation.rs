use taku_bridge::decimal::decimal_string;
use taku_bridge::invocation::{build_invocation, file_name_for, output_directory};
use taku_bridge::request::GenerationRequest;

fn strings(v: &[&str]) -> Vec<String> {
    v.iter().map(|s| s.to_string()).collect()
}

fn full_request() -> GenerationRequest {
    GenerationRequest {
        text: "Hi there".to_string(),
        voice_preset: Some("en_speaker_3".to_string()),
        text_temp: Some("0.6".to_string()),
        waveform_temp: Some("0.8".to_string()),
    }
}

#[test]
fn decimal_of_zero_and_extremes() {
    assert_eq!(decimal_string(0), "0");
    assert_eq!(decimal_string(7), "7");
    assert_eq!(decimal_string(1_700_000_000), "1700000000");
    assert_eq!(decimal_string(-42), "-42");
    assert_eq!(decimal_string(i64::MAX), "9223372036854775807");
    assert_eq!(decimal_string(i64::MIN), "-9223372036854775808");
}

#[test]
fn file_name_carries_the_stamp() {
    assert_eq!(file_name_for(1_700_000_123), "bark_output_1700000123.wav");
    assert_eq!(file_name_for(0), "bark_output_0.wav");
}

#[test]
fn output_directory_is_under_the_working_directory() {
    assert_eq!(output_directory("/home/u/app"), "/home/u/app/audio_output");
    assert_eq!(output_directory(""), "audio_output");
    assert_eq!(output_directory("/"), "/audio_output");
    assert_eq!(output_directory("/home/u/"), "/home/u/audio_output");
}

#[test]
fn text_only_request_has_no_optional_flags() {
    let req = GenerationRequest::new("Hello".to_string());
    let spec = build_invocation(&req, "/out", 1_700_000_000);
    assert_eq!(spec.program, "python");
    assert_eq!(
        spec.args,
        strings(&[
            "-m",
            "bark.cli",
            "--text",
            "Hello",
            "--output_filename",
            "bark_output_1700000000.wav",
            "--output_dir",
            "/out",
        ])
    );
    assert_eq!(spec.output_dir, "/out");
    assert_eq!(spec.output_path, "/out/bark_output_1700000000.wav");
    let slash = build_invocation(&req, "/out/", 1);
    assert_eq!(slash.output_path, "/out/bark_output_1.wav");
}

#[test]
fn all_optional_fields_give_each_flag_once_in_order() {
    let spec = build_invocation(&full_request(), "/out", 12);
    assert_eq!(
        spec.args,
        strings(&[
            "-m",
            "bark.cli",
            "--text",
            "Hi there",
            "--output_filename",
            "bark_output_12.wav",
            "--output_dir",
            "/out",
            "--text_temp",
            "0.6",
            "--waveform_temp",
            "0.8",
            "--history_prompt",
            "en_speaker_3",
        ])
    );
    for flag in ["--text_temp", "--waveform_temp", "--history_prompt"] {
        assert_eq!(spec.args.iter().filter(|a| a.as_str() == flag).count(), 1);
    }
}

#[test]
fn only_the_present_optional_field_is_passed() {
    let mut req = GenerationRequest::new("x".to_string());
    req.voice_preset = Some("en_speaker_0".to_string());
    let spec = build_invocation(&req, "d", 3);
    assert_eq!(&spec.args[8..], &strings(&["--history_prompt", "en_speaker_0"])[..]);
    assert_eq!(spec.args.len(), 10);
}

#[test]
fn building_twice_differs_only_in_the_file_name() {
    let a = build_invocation(&full_request(), "/out", 100);
    let b = build_invocation(&full_request(), "/out", 100);
    assert_eq!(a.args, b.args);
    assert_eq!(a.output_path, b.output_path);
    let c = build_invocation(&full_request(), "/out", 101);
    assert_eq!(a.args.len(), c.args.len());
    for i in 0..a.args.len() {
        if i == 5 {
            assert_ne!(a.args[i], c.args[i]);
        } else {
            assert_eq!(a.args[i], c.args[i]);
        }
    }
    assert_ne!(a.output_path, c.output_path);
}
