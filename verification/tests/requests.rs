//! The request feed.

use tokos::collectors::access_log::{
    docker_args, endpoint_for_request_id, entry_of, spawn_error, AccessLogTailer, ChildAction,
    ChildStatus, FileAction, FileEvent, Groups, Source, MAX_PROMPT_DISPLAY,
};
use tokos::ui::panels::truncate_prompt;

fn tailer() -> AccessLogTailer<f64> {
    AccessLogTailer::new(Some("/nonexistent".to_string()), None, 200)
}

#[test]
fn access_lines_are_ignored() {
    let mut t = tailer();
    t.ingest(r#"9.9.9.9:8 - "POST /v1/chat/completions HTTP/1.1" 200 OK"#, 1.0);
    t.ingest(r#"1.1.1.1:2 - "GET /metrics HTTP/1.1" 200 OK"#, 1.0);
    assert!(t.merged_log(None).is_empty());
}

#[test]
fn prompt_parse_vllm_new_format() {
    let mut t = tailer();
    t.ingest(
        "Received request chatcmpl-abc: prompt: 'Hello, how are you?', \
         params: SamplingParams(n=1, max_tokens=100), lora_request: None.",
        7.0,
    );
    let entries = t.merged_log(None);
    assert_eq!(entries.len(), 1);
    let e = &entries[0];
    assert_eq!(e.request_id.as_deref(), Some("chatcmpl-abc"));
    assert_eq!(e.max_tokens, Some(100));
    assert_eq!(e.path, "/v1/chat/completions");
    assert_eq!(e.status, None);
    assert_eq!(e.prompt.as_deref(), Some("Hello, how are you?"));
    assert_eq!(e.prompt_chars, Some(19));
    assert_eq!(e.t, 7.0);
}

#[test]
fn prompt_parse_vllm_old_format() {
    let mut t = tailer();
    t.ingest(
        "Received request chatcmpl-xyz: \
         params: SamplingParams(n=1, max_tokens=50), lora_request: None.",
        1.0,
    );
    let entries = t.merged_log(None);
    assert_eq!(entries.len(), 1);
    let e = &entries[0];
    assert_eq!(e.request_id.as_deref(), Some("chatcmpl-xyz"));
    assert_eq!(e.max_tokens, Some(50));
    assert_eq!(e.path, "/v1/chat/completions");
    assert_eq!(e.prompt, None);
}

#[test]
fn endpoint_for_request_id_values() {
    assert_eq!(
        endpoint_for_request_id("chatcmpl-abc"),
        "/v1/chat/completions"
    );
    assert_eq!(endpoint_for_request_id("cmpl-abc"), "/v1/completions");
    assert_eq!(endpoint_for_request_id("embd-abc"), "/v1/embeddings");
    assert_eq!(endpoint_for_request_id("weird-abc"), "/weird");
}

#[test]
fn truncate_prompt_values() {
    assert_eq!(truncate_prompt(Some("short"), 30), "short");
    assert_eq!(truncate_prompt(Some(&"a".repeat(30)), 30), "a".repeat(30));
    assert_eq!(
        truncate_prompt(Some(&"a".repeat(31)), 30),
        format!("{}…", "a".repeat(29))
    );
    assert_eq!(truncate_prompt(None, 30), "");
    assert_eq!(truncate_prompt(Some(""), 30), "");
}

#[test]
fn truncate_prompt_basic() {
    assert_eq!(truncate_prompt(Some("short"), 30), "short");
    assert_eq!(truncate_prompt(Some(&"a".repeat(30)), 30), "a".repeat(30));
    assert_eq!(
        truncate_prompt(Some(&"a".repeat(31)), 30),
        format!("{}…", "a".repeat(29))
    );
    assert_eq!(truncate_prompt(None, 30), "");
    assert_eq!(truncate_prompt(Some(""), 30), "");
}

#[test]
fn max_prompt_display_constant() {
    assert!((10..=60).contains(&MAX_PROMPT_DISPLAY));
}

#[test]
fn endpoints_of_all_prefixes() {
    assert_eq!(endpoint_for_request_id("pool-1"), "/pooling");
    assert_eq!(endpoint_for_request_id("score-1"), "/score");
    assert_eq!(endpoint_for_request_id("rerank-1"), "/rerank");
    assert_eq!(endpoint_for_request_id("classify-1"), "/classify");
    assert_eq!(endpoint_for_request_id("plain"), "/plain");
    assert_eq!(endpoint_for_request_id("-x"), "?");
    assert_eq!(endpoint_for_request_id(""), "?");
}

#[test]
fn prompt_may_span_lines() {
    let mut t = tailer();
    t.ingest(
        "Received request cmpl-1: prompt: 'a\nb', params: SamplingParams(max_tokens=7)",
        1.0,
    );
    let entries = t.merged_log(None);
    assert_eq!(entries[0].prompt.as_deref(), Some("a\nb"));
    assert_eq!(entries[0].prompt_chars, Some(3));
    assert_eq!(entries[0].path, "/v1/completions");
}

#[test]
fn empty_prompt_is_none() {
    let mut t = tailer();
    t.ingest("Received request cmpl-1: prompt: '', params: SamplingParams(max_tokens=7)", 1.0);
    let entries = t.merged_log(None);
    assert_eq!(entries[0].prompt, None);
    assert_eq!(entries[0].prompt_chars, None);
}

#[test]
fn unreadable_token_count_is_none() {
    let mut t = tailer();
    t.ingest(
        "Received request cmpl-1: params: SamplingParams(max_tokens=99999999999999999999)",
        1.0,
    );
    assert_eq!(t.merged_log(None)[0].max_tokens, None);
}

#[test]
fn feed_is_newest_first_and_bounded() {
    let mut t: AccessLogTailer<f64> = AccessLogTailer::new(None, None, 3);
    for i in 0..5 {
        let line = format!("Received request cmpl-{i}: params: SamplingParams(max_tokens={i})");
        t.ingest(&line, i as f64);
    }
    let ids: Vec<Option<i64>> = t.merged_log(None).iter().map(|e| e.max_tokens).collect();
    assert_eq!(ids, vec![Some(4), Some(3), Some(2)]);
    let two: Vec<Option<i64>> = t.merged_log(Some(2)).iter().map(|e| e.max_tokens).collect();
    assert_eq!(two, vec![Some(4), Some(3)]);
}

#[test]
fn entry_of_groups() {
    let e = entry_of(
        Groups {
            id: Some("embd-9".to_string()),
            prompt: Some("żółw".to_string()),
            tok: Some("12".to_string()),
        },
        3.5,
    );
    assert_eq!(e.path, "/v1/embeddings");
    assert_eq!(e.method, "POST");
    assert_eq!(e.client, "—");
    assert_eq!(e.max_tokens, Some(12));
    assert_eq!(e.prompt_chars, Some(4));
    assert!(!e.ok());
    let bare = entry_of(Groups { id: None, prompt: None, tok: None }, 0.0);
    assert_eq!(bare.path, "?");
    assert_eq!(bare.request_id, None);
}

#[test]
fn labels_of_sources() {
    let file: AccessLogTailer<f64> = AccessLogTailer::new(Some("/var/log/vllm.log".into()), None, 1);
    assert_eq!(file.source_label(), "vllm.log");
    let docker: AccessLogTailer<f64> =
        AccessLogTailer::new(Some("/var/log/vllm.log".into()), Some("gpu".into()), 1);
    assert_eq!(docker.source_label(), "docker gpu");
    assert!(matches!(docker.source(), Source::Docker(c) if c == "gpu"));
    let none: AccessLogTailer<f64> = AccessLogTailer::new(None, None, 1);
    assert_eq!(none.source_label(), "—");
    assert!(matches!(none.source(), Source::Nowhere));
    let root: AccessLogTailer<f64> = AccessLogTailer::new(Some("/".into()), None, 1);
    assert_eq!(root.source_label(), "");
    for (path, label) in [("/var/log/", "log"), ("/var/log/.", "log"), ("a/..", ""), (".", "")] {
        let t: AccessLogTailer<f64> = AccessLogTailer::new(Some(path.into()), None, 1);
        assert_eq!(t.source_label(), label);
    }
}

#[test]
fn following_a_file() {
    let mut t = tailer();
    let a = t.follow_file(FileEvent::OpenFailed("no such file".to_string()), 0.0);
    assert!(matches!(a, FileAction::RetryOpen));
    assert_eq!(t.error().as_deref(), Some("no such file"));
    t.follow_file(FileEvent::Opened, 0.0);
    assert_eq!(t.error(), None);
    let a = t.follow_file(
        FileEvent::Line("Received request cmpl-1: params: SamplingParams(max_tokens=7)\r\n".into()),
        2.0,
    );
    assert!(matches!(a, FileAction::Read));
    assert_eq!(t.merged_log(None).len(), 1);
    let a = t.follow_file(FileEvent::Idle { len: Some(10), pos: Some(10) }, 0.0);
    assert!(matches!(a, FileAction::Read));
    let a = t.follow_file(FileEvent::Idle { len: Some(9), pos: Some(10) }, 0.0);
    assert!(matches!(a, FileAction::Reopen));
    let a = t.follow_file(FileEvent::Idle { len: None, pos: Some(10) }, 0.0);
    assert!(matches!(a, FileAction::Reopen));
    let a = t.follow_file(FileEvent::ReadFailed, 0.0);
    assert!(matches!(a, FileAction::Reopen));
}

#[test]
fn following_a_command() {
    let mut t = tailer();
    assert_eq!(docker_args("gpu"), vec!["logs", "-f", "--tail", "0", "gpu"]);
    assert_eq!(spawn_error("gpu", true, "x"), "command not found: docker");
    assert_eq!(spawn_error("gpu", false, "denied"), "`docker logs -f gpu`: denied");
    assert!(matches!(
        t.follow_child("gpu", true, ChildStatus::Running),
        ChildAction::Kill
    ));
    assert!(matches!(
        t.follow_child("gpu", false, ChildStatus::Running),
        ChildAction::Wait
    ));
    assert!(matches!(t.follow_child("gpu", false, ChildStatus::Gone), ChildAction::Stop));
}
