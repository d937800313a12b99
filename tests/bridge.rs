use std::collections::HashSet;

use taku_bridge::bridge::{Admission, Bridge, Job};
use taku_bridge::outcome::{exit_result, GenerationResult};
use taku_bridge::request::GenerationRequest;

fn some(s: &str) -> Option<String> {
    Some(s.to_string())
}

fn started(a: Admission) -> Job {
    match a {
        Admission::Started(job) => job,
        other => panic!("expected a started job, got {:?}", other),
    }
}

#[test]
fn unknown_kind_is_ignored() {
    let mut b = Bridge::new("/out".to_string());
    let a = b.accept_at(some("ping"), some("r2"), None, 10);
    assert!(matches!(a, Admission::Ignored));
    let none = b.accept_at(None, some("r3"), None, 10);
    assert!(matches!(none, Admission::Ignored));
    let fail = GenerationResult::Failure { message: "x".to_string() };
    assert!(b.finish(10, fail).is_none());
}

#[test]
fn malformed_payload_still_gets_a_reply() {
    let mut b = Bridge::new("/out".to_string());
    let job = started(b.accept_at(some("generate_audio"), some("r1"), None, 50));
    assert_eq!(job.id, "r1");
    assert_eq!(job.request.text, "Hello world");
    assert!(job.request.voice_preset.is_none());
    assert_eq!(job.request.text_temp.as_deref(), Some("0.7"));
    assert_eq!(job.request.waveform_temp.as_deref(), Some("0.7"));
    assert_eq!(job.invocation.args[3], "Hello world");
    let reply = b.finish(job.stamp, exit_result(false, false, "err", "p")).unwrap();
    assert_eq!(reply.id, "r1");
    assert!(!reply.response.success);
}

#[test]
fn missing_id_is_tagged_unknown() {
    let mut b = Bridge::new("/out".to_string());
    let job = started(b.accept_at(
        some("generate_audio"),
        None,
        Some(GenerationRequest::new("hey".to_string())),
        1,
    ));
    assert_eq!(job.id, "unknown");
    assert_eq!(job.request.text, "hey");
}

#[test]
fn same_tick_requests_get_distinct_paths() {
    let mut b = Bridge::new("/out".to_string());
    let j1 = started(b.accept_at(some("generate_audio"), some("a"), None, 1_700_000_000));
    let j2 = started(b.accept_at(some("generate_audio"), some("b"), None, 1_700_000_000));
    assert_eq!(j1.stamp, 1_700_000_000);
    assert_eq!(j2.stamp, 1_700_000_001);
    assert_ne!(j1.invocation.output_path, j2.invocation.output_path);
    assert_eq!(j1.invocation.output_path, "/out/bark_output_1700000000.wav");
    let j3 = started(b.accept_at(some("generate_audio"), some("c"), None, 1_700_000_500));
    assert_eq!(j3.stamp, 1_700_000_500);
}

#[test]
fn each_id_answered_once_in_any_order() {
    let mut b = Bridge::new("/out".to_string());
    let ids = ["r1", "r2", "r3", "r4", "r5"];
    let mut jobs = Vec::new();
    for id in ids {
        jobs.push(started(b.accept_at(some("generate_audio"), some(id), None, 7)));
    }
    let mut replied = Vec::new();
    for job in jobs.iter().rev() {
        let path = job.invocation.output_path.clone();
        let reply = b.finish(job.stamp, exit_result(true, true, "", &path)).unwrap();
        assert_eq!(reply.id, job.id);
        assert_eq!(reply.response.audio_path, Some(path));
        replied.push(reply.id);
    }
    for job in &jobs {
        let again = GenerationResult::Failure { message: "late".to_string() };
        assert!(b.finish(job.stamp, again).is_none());
    }
    assert_eq!(replied.len(), ids.len());
    let got: HashSet<String> = replied.into_iter().collect();
    let want: HashSet<String> = ids.iter().map(|s| s.to_string()).collect();
    assert_eq!(got, want);
}

#[test]
fn shared_ids_are_not_merged() {
    let mut b = Bridge::new("/out".to_string());
    let j1 = started(b.accept_at(some("generate_audio"), some("dup"), None, 3));
    let j2 = started(b.accept_at(some("generate_audio"), some("dup"), None, 3));
    let fail = |m: &str| GenerationResult::Failure { message: m.to_string() };
    assert_eq!(b.finish(j2.stamp, fail("second")).unwrap().id, "dup");
    assert_eq!(b.finish(j1.stamp, fail("first")).unwrap().id, "dup");
}

#[test]
fn exhausted_stamps_refuse_with_a_reply() {
    let mut b = Bridge::new("/out".to_string());
    let j = started(b.accept_at(some("generate_audio"), some("a"), None, i64::MAX));
    assert_eq!(j.stamp, i64::MAX);
    match b.accept_at(some("generate_audio"), some("b"), None, 0) {
        Admission::Refused(reply) => {
            assert_eq!(reply.id, "b");
            assert!(!reply.response.success);
            assert_eq!(
                reply.response.error.as_deref(),
                Some("No output file name is left for this request")
            );
        }
        other => panic!("expected a refusal, got {:?}", other),
    }
}

#[test]
fn accept_uses_the_clock() {
    let mut b = Bridge::new("/out".to_string());
    let j = started(b.accept(some("generate_audio"), some("now"), None));
    assert!(j.stamp > 1_600_000_000);
    assert!(j.invocation.output_path.starts_with("/out/bark_output_"));
}
