use grodex::auth::lease::CredentialBroker;
use grodex::auth::store::AuthManager;
use grodex::config::generation::LoadedConfig;
use grodex::config::layer::{ConfigLayer, ConfigLayerSource};
use grodex::config::loader::{
    load_toml, ConfigFile, ConfigPaths, ConfigSlot, FileRead, Platform, WorkspaceFacts,
};
use grodex::config::resolver::ConfigResolver;
use grodex::config::values::{ConfigDiagnostic, DiagnosticLevel};
use grodex::domain::id::{SessionId, TurnId};
use grodex::domain::policy::PolicyDecision;
use grodex::json::{JsonNumber, JsonValue};
use grodex::session::acp::{
    map_loop_event_to_update, LoopEvent, ServerFrame, SubagentProgress, UpdateContent,
};
use grodex::session::eval::{
    count_hits, eval_db_path, eval_header, eval_report, sample_lines, EvalSample,
};
use grodex::session::idempotency::IdempotencyCache;
use grodex::session::journal::{
    inspect_line, inspect_text, listed_time, summarize_payload, RolloutEventType,
};
use grodex::session::permission::{build_permission_policy, toml_to_json_value};
use grodex::session::prompt::{
    config_trusts, diagnostic_lines, discovery_text, explain_prompt, trust_line, DiscoveryCounts,
    PromptFacts,
};
use grodex::session::redact::{redact_absolute_user_paths, redact_prompt_content};
use grodex::session::repl::{
    read_answer, read_input, startup_lines, Answer, Reaction, Repl, ReplAction, ReplEvent,
    ReplInput, ReplPhase, ReplTurn,
};
use grodex::session::replay::{
    named_session, replay_line, replay_report, resume_report, ContextItem, ResumeReport,
};
use grodex::session::route::{
    route_command, AckBucket, AcpCommand, ApprovalResolution, CommandBody, JournalEvent,
    ReadJournal, ReplayMode, ResumeAction, ResumeEvent, ResumePhase, ResumeRun, Routed,
    SessionCommand,
};
use grodex::session::serve::{AcpServer, ClientFrame, FrameStep, Gate, LineRead, LineStep};
use grodex::session::settings::{
    apply_trust, approvals_path, backfill_notice, choose_model, compat_vendors, context_window,
    default_sandbox_profile, lease_api_key, master_key, mcp_failed, mcp_lifecycle, mcp_registered,
    mcp_steps, memory_db_path, prepare_credentials, reindex_notice, rescan_interval,
    sandbox_client, session_limits, McpEntry, McpStep, ModelConfig, ModelRoute, RouteCandidate, SandboxClient, SessionEnv,
    SessionRuntimeBuilder, WireProtocol,
};
use grodex::toml_value::TomlValue;

const SECOND: u64 = 1_000_000_000;

fn toml(text: &str) -> TomlValue {
    load_toml("test.toml", text).unwrap().0
}

fn text(s: &str) -> JsonValue {
    JsonValue::Text(s.to_string())
}

// ── redaction ───────────────────────────────────────────────────────

#[test]
fn redacts_users_and_home_paths() {
    let input = "cwd=/Users/alice/proj and log at /home/bob/x.log ok";
    let out = redact_absolute_user_paths(input);
    assert_eq!(out, "cwd=<PATH> and log at <PATH> ok");
}

#[test]
fn stops_at_delimiters() {
    let input = "see </Users/alice/p> and \"/home/b/q\" and `/home/c/r`";
    let out = redact_absolute_user_paths(input);
    assert_eq!(out, "see <<PATH>> and \"<PATH>\" and `<PATH>`");
}

#[test]
fn leaves_system_paths_alone() {
    let input = "/usr/bin/bash /etc/hosts /opt/x";
    assert_eq!(redact_absolute_user_paths(input), input);
}

#[test]
fn prompts_lose_home_and_working_directory() {
    assert_eq!(
        redact_prompt_content(
            "a /root/x b /w/y c /home/z/q",
            Some("/root"),
            Some("/w")
        ),
        "a <HOME>/x b <CWD>/y c <PATH>"
    );
    assert_eq!(redact_prompt_content("a.b", Some(""), Some(".")), "a.b");
}

// ── repeated commands ───────────────────────────────────────────────

#[test]
fn idempotency_cache_ttl_and_capacity_math_compiles() {
    let mut cache = IdempotencyCache::new(4, 60 * SECOND);
    let now = 0;
    for i in 0..8 {
        cache.insert(format!("k{i}"), now);
    }
    assert!(cache.len() <= 4, "capacity 4 溢出应 drain");
}

#[test]
fn ack_inflight_bounds_respect_cap() {
    assert!(130u64 - 0u64 >= 128u32 as u64);
    assert!(130u64 - 3u64 < 128u32 as u64);
    let mut server = AcpServer::new(SessionId::new());
    server.seq = 129;
    server.last_consumed = 0;
    assert!(matches!(server.gate(0, 0), Gate::Wait(_)));
    server.last_consumed = 3;
    assert!(matches!(server.gate(0, 0), Gate::Proceed));
}

#[test]
fn idempotency_ttl_expiry_works() {
    let mut cache = IdempotencyCache::new(16, 10_000_000);
    let t0 = 0;
    cache.insert("a".into(), t0);
    assert!(cache.contains_with_ttl_reclaim("a", t0));
    let t1 = t0 + 200_000_000;
    assert!(!cache.contains_with_ttl_reclaim("a", t1));
}

#[test]
fn idempotency_insert_returns_boolean() {
    let mut cache = IdempotencyCache::new(16, 60 * SECOND);
    let now = 0;
    assert!(cache.insert("x".into(), now));
    assert!(!cache.insert("x".into(), now));
}

#[test]
fn the_oldest_keys_make_room() {
    let mut cache = IdempotencyCache::new(8, 60 * SECOND);
    for i in 0..8u64 {
        cache.insert(format!("k{i}"), 100 - i);
    }
    cache.insert("new".into(), 200);
    assert!(!cache.contains_with_ttl_reclaim("k7", 200));
    assert!(cache.contains_with_ttl_reclaim("k0", 200));
    assert!(cache.check_and_insert("new", 200));
    assert!(!cache.check_and_insert("newer", 200));
    assert!(!cache.is_empty());
}

// ── journals ────────────────────────────────────────────────────────

#[test]
fn payloads_are_summarized() {
    let long = "x".repeat(70);
    assert_eq!(
        summarize_payload(
            RolloutEventType::UserInputAccepted,
            &JsonValue::object().with("text", text(&long))
        ),
        format!("{}…", "x".repeat(60))
    );
    assert_eq!(
        summarize_payload(
            RolloutEventType::ModelItemProduced,
            &JsonValue::object().with("tool_calls", JsonValue::Array(vec![JsonValue::Null]))
        ),
        "(no text — 1 tool call(s))"
    );
    assert_eq!(
        summarize_payload(
            RolloutEventType::ModelAttemptFinished,
            &JsonValue::object()
                .with("status", text("ok"))
                .with("attempts", JsonValue::Number(JsonNumber::Unsigned(2)))
        ),
        "attempt ok x2 0ms"
    );
    assert_eq!(
        summarize_payload(RolloutEventType::ToolResultCommitted, &JsonValue::Null),
        "call=? ok"
    );
    assert_eq!(
        summarize_payload(
            RolloutEventType::CompactionStarted,
            &JsonValue::object().with("a", JsonValue::Bool(true))
        ),
        "{\"a\":true}"
    );
}

#[test]
fn events_are_listed_in_columns() {
    assert_eq!(
        inspect_line(
            7,
            RolloutEventType::TurnCompleted,
            "2024-01-02 03:04:05.678",
            &JsonValue::object().with("turn_id", text("t"))
        ),
        format!(
            "   7  {:<28}  {:<24}  turn=t done",
            "TurnCompleted", "2024-01-02 03:04:05.678"
        )
    );
}

#[test]
fn journal_lines_are_listed() {
    assert_eq!(
        inspect_text(
            r#"{"seq":7,"event_type":"TurnCompleted","timestamp":"2024-01-02T05:04:05.6789+02:00","payload":{"turn_id":"t"}}"#
        ),
        Some(format!(
            "   7  {:<28}  {:<24}  turn=t done",
            "TurnCompleted", "2024-01-02 03:04:05.678"
        ))
    );
    assert!(inspect_text("not json").is_none());
    assert!(inspect_text(r#"{"event_type":"Unheard"}"#).is_none());
    assert_eq!(listed_time("yesterday"), "yesterday");
}

#[test]
fn kinds_are_known_by_name() {
    assert_eq!(
        RolloutEventType::from_name("LeaseIssued"),
        Some(RolloutEventType::LeaseIssued)
    );
    assert!(RolloutEventType::from_name("leaseissued").is_none());
    assert_eq!(RolloutEventType::LeaseIssued.name(), "LeaseIssued");
}

// ── events as frames ────────────────────────────────────────────────

#[test]
fn loop_events_become_frames() {
    let s = SessionId::new();
    match map_loop_event_to_update(LoopEvent::TextDelta { text: "hi".into() }, s, 3) {
        Some(ServerFrame::Event(e)) => {
            assert_eq!(e.seq, 3);
            assert_eq!(e.session_id, s);
            assert!(matches!(e.content, UpdateContent::TextDelta { ref text } if text == "hi"));
        }
        other => panic!("expected an event, got {other:?}"),
    }
    assert!(map_loop_event_to_update(LoopEvent::Shutdown, s, 4).is_none());
    match map_loop_event_to_update(
        LoopEvent::Subagent(SubagentProgress::Finished {
            id: "1".into(),
            label: "l".into(),
            ok: true,
            summary: "done".into(),
        }),
        s,
        5,
    ) {
        Some(ServerFrame::Event(e)) => match e.content {
            UpdateContent::SubagentProgress { phase, detail, ok, .. } => {
                assert_eq!(phase, "finished");
                assert_eq!(detail, "done");
                assert_eq!(ok, Some(true));
            }
            other => panic!("expected progress, got {other:?}"),
        },
        other => panic!("expected an event, got {other:?}"),
    }
}

// ── commands ────────────────────────────────────────────────────────

fn command(key: Option<&str>, body: CommandBody) -> AcpCommand {
    AcpCommand {
        command_id: "c1".into(),
        idempotency_key: key.map(|k| k.to_string()),
        body,
    }
}

fn error_of(f: &ServerFrame) -> (String, String) {
    match f {
        ServerFrame::ProtocolError { code, message, .. } => (code.clone(), message.clone()),
        other => panic!("expected an error, got {other:?}"),
    }
}

#[test]
fn repeated_commands_are_refused() {
    let mut server = AcpServer::new(SessionId::new());
    let first = server.receive(
        ClientFrame::Command(command(Some("k"), CommandBody::Prompt { text: "hi".into() })),
        "/s",
        0,
        0,
    );
    match first {
        FrameStep::Route(Routed::Send(SessionCommand::StartTurn { user_input }), None) => {
            assert_eq!(user_input, "hi")
        }
        other => panic!("expected a turn, got {other:?}"),
    }
    match server.receive(
        ClientFrame::Command(command(Some("k"), CommandBody::Cancel)),
        "/s",
        1,
        0,
    ) {
        FrameStep::Answer(f) => assert_eq!(
            error_of(&f),
            (
                "IDEMPOTENT_HIT".to_string(),
                "idempotency_key already processed: k".to_string()
            )
        ),
        other => panic!("expected an answer, got {other:?}"),
    }
    // After an hour the key is forgotten.
    assert!(matches!(
        server.receive(
            ClientFrame::Command(command(Some("k"), CommandBody::Cancel)),
            "/s",
            3600 * SECOND,
            0,
        ),
        FrameStep::Route(Routed::Send(SessionCommand::CancelTurn), None)
    ));
}

#[test]
fn answers_become_decisions() {
    let cases = vec![
        (ApprovalResolution::Allow, PolicyDecision::Allow, false),
        (ApprovalResolution::AlwaysAllow, PolicyDecision::Allow, true),
        (
            ApprovalResolution::Narrow {
                narrowed_args: JsonValue::Null,
            },
            PolicyDecision::Allow,
            false,
        ),
        (ApprovalResolution::Deny, PolicyDecision::Deny, false),
        (ApprovalResolution::Cancel, PolicyDecision::Deny, false),
    ];
    for (resolution, expected, always) in cases {
        let body = CommandBody::ResolveApproval {
            ticket_id: "t".into(),
            resolution,
        };
        match route_command(command(None, body), "/s") {
            (
                Routed::Send(SessionCommand::ResolveApproval {
                    decision,
                    always_allow,
                    ..
                }),
                None,
            ) => {
                assert_eq!(decision, expected);
                assert_eq!(always_allow, always);
            }
            other => panic!("expected a decision, got {other:?}"),
        }
    }
}

fn resume(session: &str, mode: ReplayMode) -> AcpCommand {
    command(
        None,
        CommandBody::ResumeSession {
            session_id: session.into(),
            mode,
            last_consumed_seq: 1,
            ack_bucket: Some(AckBucket {
                max_inflight_events: 4,
                requested_pause_ms: None,
            }),
        },
    )
}

const OLD: &str = "00000000-0000-4000-8000-0000000000aa";

fn run_of(mode: ReplayMode) -> ResumeRun {
    match route_command(resume(OLD, mode), "/s").0 {
        Routed::Resume(run) => run,
        other => panic!("expected a resumption, got {other:?}"),
    }
}

fn old_journal() -> ReadJournal {
    ReadJournal {
        events: vec![
            JournalEvent {
                seq: 1,
                event_type: RolloutEventType::UserInputAccepted,
                payload: JsonValue::object().with("text", text("hello")),
                turn_id: None,
            },
            JournalEvent {
                seq: 2,
                event_type: RolloutEventType::ModelItemProduced,
                payload: JsonValue::object()
                    .with("reasoning", text("think"))
                    .with("assistant_text", text("answer"))
                    .with(
                        "tool_calls",
                        JsonValue::Array(vec![JsonValue::object()
                            .with("call_id", text("x"))
                            .with("name", text("exec"))]),
                    ),
                turn_id: None,
            },
            JournalEvent {
                seq: 3,
                event_type: RolloutEventType::ToolResultCommitted,
                payload: JsonValue::object()
                    .with("call_id", text("x"))
                    .with("content", text("out"))
                    .with("is_error", JsonValue::Bool(true)),
                turn_id: None,
            },
            JournalEvent {
                seq: 4,
                event_type: RolloutEventType::TurnCompleted,
                payload: JsonValue::Null,
                turn_id: Some(
                    TurnId::from_string("00000000-0000-4000-8000-0000000000bb").unwrap(),
                ),
            },
        ],
        last_seq: 4,
        has_context: true,
    }
}

#[test]
fn unknown_session_ids_are_refused() {
    let (routed, ack) = route_command(resume("nope", ReplayMode::LiveOnly), "/s");
    assert_eq!(ack.unwrap().max_inflight_events, 4);
    match routed {
        Routed::Refuse(f) => assert_eq!(
            error_of(&f),
            (
                "RESUME_BAD_ID".to_string(),
                "非法的 session_id 格式 `nope`：invalid identifier: nope".to_string()
            )
        ),
        other => panic!("expected a refusal, got {other:?}"),
    }
}

#[test]
fn resumption_step_by_step() {
    let mut run = run_of(ReplayMode::SnapshotThenLive);
    let mut seq = 0;
    let path = format!("/s/{OLD}/rollout.jsonl");
    assert!(matches!(run.begin(), ResumeAction::Look(ref p) if *p == path));
    let acts = run.advance(ResumeEvent::Found(true), &mut seq);
    assert!(matches!(&acts[0], ResumeAction::Read(p) if *p == path));
    let acts = run.advance(ResumeEvent::Read(Ok(old_journal())), &mut seq);
    assert_eq!(acts.len(), 3);
    match &acts[0] {
        ResumeAction::Write(ServerFrame::Snapshot(s)) => {
            assert_eq!(s.last_seq, 4);
            let ids: Vec<&str> = s.items.iter().map(|i| i.item_id.as_str()).collect();
            assert_eq!(ids, vec!["u-1", "th-2", "a-2", "tc-2-0", "tr-3"]);
            assert_eq!(
                s.items[3].content,
                "{\"arguments\":null,\"call_id\":\"x\",\"name\":\"exec\"}"
            );
            assert_eq!(
                s.items[4].content,
                "{\"call_id\":\"x\",\"content\":\"\\\"out\\\"\",\"is_error\":true}"
            );
        }
        other => panic!("expected a snapshot, got {other:?}"),
    }
    assert!(matches!(
        acts[1],
        ResumeAction::Write(ServerFrame::FlowControl { inflight_events: 0, requested_pause_ms: None })
    ));
    assert!(matches!(acts[2], ResumeAction::Open { next_seq: 5, .. }));
    let acts = run.advance(ResumeEvent::Opened(Ok(())), &mut seq);
    assert!(matches!(
        acts[0],
        ResumeAction::Send(SessionCommand::RebindRolloutWriter { next_seq: 5, .. })
    ));
    let acts = run.advance(ResumeEvent::Sent(Ok(())), &mut seq);
    assert!(matches!(acts[0], ResumeAction::RecoverSubagents));
    let acts = run.advance(ResumeEvent::Recovered, &mut seq);
    assert!(matches!(
        acts[0],
        ResumeAction::Send(SessionCommand::ResumeSession { last_seq: 4, emit_snapshot_to_frontend: false, .. })
    ));
    let acts = run.advance(ResumeEvent::Sent(Ok(())), &mut seq);
    assert!(matches!(
        acts[0],
        ResumeAction::Send(SessionCommand::RestoreContext { persist: false })
    ));
    let acts = run.advance(ResumeEvent::Sent(Ok(())), &mut seq);
    match &acts[0] {
        ResumeAction::Finish(Some(s)) => assert_eq!(s.to_string(), OLD),
        other => panic!("expected the end, got {other:?}"),
    }
    assert_eq!(run.phase, ResumePhase::Done { resumed: true });
    assert!(run.advance(ResumeEvent::Found(true), &mut seq).is_empty());
    assert_eq!(seq, 0);
}

#[test]
fn clients_catch_up() {
    let mut run = run_of(ReplayMode::CatchUp);
    let mut seq = 0;
    run.advance(ResumeEvent::Found(true), &mut seq);
    let acts = run.advance(ResumeEvent::Read(Ok(old_journal())), &mut seq);
    // The first event was consumed; the third is not told, but has its place.
    let told: Vec<u64> = acts
        .iter()
        .filter_map(|a| match a {
            ResumeAction::Write(ServerFrame::Event(e)) => Some(e.seq),
            _ => None,
        })
        .collect();
    assert_eq!(told, vec![2, 4]);
    assert_eq!(seq, 4);
}

#[test]
fn any_consumed_place_is_taken() {
    for mode in [
        ReplayMode::SnapshotThenLive,
        ReplayMode::LiveOnly,
        ReplayMode::CatchUp,
    ] {
        let mut run = run_of(mode);
        run.last_consumed = u64::MAX;
        let mut seq = 0;
        run.advance(ResumeEvent::Found(true), &mut seq);
        let read = ResumeEvent::Read(Ok(old_journal()));
        assert!(run.fits(&read));
        let acts = run.advance(read, &mut seq);
        assert!(matches!(
            acts.last(),
            Some(ResumeAction::Open { next_seq: 5, .. })
        ));
    }
    let mut run = run_of(ReplayMode::LiveOnly);
    run.advance(ResumeEvent::Found(true), &mut 0);
    let full = ReadJournal {
        last_seq: u64::MAX,
        ..old_journal()
    };
    assert!(!run.fits(&ResumeEvent::Read(Ok(full))));
}

#[test]
fn failed_resumptions_say_why() {
    let fail = |upto: usize, ev: ResumeEvent| -> (String, String) {
        let mut run = run_of(ReplayMode::LiveOnly);
        let mut seq = 0;
        let path: Vec<fn() -> ResumeEvent> = vec![
            || ResumeEvent::Found(true),
            || ResumeEvent::Read(Ok(old_journal())),
            || ResumeEvent::Opened(Ok(())),
            || ResumeEvent::Sent(Ok(())),
            || ResumeEvent::Recovered,
            || ResumeEvent::Sent(Ok(())),
        ];
        for make in path.iter().take(upto) {
            run.advance(make(), &mut seq);
        }
        let acts = run.advance(ev, &mut seq);
        assert!(matches!(acts[1], ResumeAction::Finish(None)));
        assert_eq!(run.phase, ResumePhase::Done { resumed: false });
        match &acts[0] {
            ResumeAction::Write(f) => error_of(f),
            other => panic!("expected an error, got {other:?}"),
        }
    };
    assert_eq!(
        fail(0, ResumeEvent::Found(false)),
        (
            "RESUME_NOT_FOUND".to_string(),
            format!(
                "找不到会话 `{OLD}` 的 rollout journal (/s/{OLD}/rollout.jsonl 不存在)。请确认 session id 拼写。"
            )
        )
    );
    let e = || "boom".to_string();
    assert_eq!(
        fail(1, ResumeEvent::Read(Err(e()))).1,
        "读取旧会话 rollout journal 失败：boom"
    );
    assert_eq!(
        fail(2, ResumeEvent::Opened(Err(e()))).1,
        "无法启动旧会话的 writable rollout store：boom"
    );
    assert_eq!(
        fail(3, ResumeEvent::Sent(Err(e()))).1,
        "RebindRolloutWriter 失败：boom"
    );
    assert_eq!(
        fail(5, ResumeEvent::Sent(Err(e()))).1,
        "通知 supervisor ResumeSession 失败：boom"
    );
    assert_eq!(
        fail(6, ResumeEvent::Sent(Err(e()))).1,
        "RestoreContext 注入 supervisor 失败：boom"
    );
}

// ── serving ─────────────────────────────────────────────────────────

#[test]
fn lines_are_read() {
    assert!(matches!(AcpServer::read_line(LineRead::End), LineStep::Stop));
    assert!(matches!(
        AcpServer::read_line(LineRead::Line("  \n".into())),
        LineStep::Skip
    ));
    assert!(matches!(
        AcpServer::read_line(LineRead::Line(" {} ".into())),
        LineStep::Parse(ref t) if t == "{}"
    ));
    match AcpServer::read_line(LineRead::Failed("x".into())) {
        LineStep::Answer(f) => {
            assert_eq!(error_of(&f), ("IO_READ".to_string(), "x".to_string()))
        }
        other => panic!("expected an answer, got {other:?}"),
    }
    assert_eq!(
        error_of(&AcpServer::parse_failed("y".into())).0,
        "PARSE".to_string()
    );
}

#[test]
fn clients_set_their_pace() {
    let mut server = AcpServer::new(SessionId::new());
    assert_eq!(server.inflight_cap, 128);
    let other = SessionId::new();
    server.finish(
        Some(other),
        Some(AckBucket {
            max_inflight_events: 9999,
            requested_pause_ms: Some(5),
        }),
        100,
    );
    assert_eq!(server.session_id, other);
    assert_eq!(server.inflight_cap, 512);
    assert_eq!(server.pause_until, Some(5_000_100));
    assert!(matches!(
        server.gate(0, 100),
        Gate::Wait(ServerFrame::FlowControl { inflight_events: 1, requested_pause_ms: Some(10) })
    ));
    assert!(matches!(server.gate(10_000, 100), Gate::Proceed));
    assert!(matches!(server.gate(0, 5_000_100), Gate::Proceed));
    server.finish(
        None,
        Some(AckBucket {
            max_inflight_events: 0,
            requested_pause_ms: None,
        }),
        200,
    );
    assert_eq!(server.inflight_cap, 1);
    assert!(matches!(
        server.receive(ClientFrame::Ack { last_consumed_seq: 9 }, "/s", 0, 0),
        FrameStep::Nothing
    ));
    server.receive(ClientFrame::Ack { last_consumed_seq: 3 }, "/s", 0, 0);
    assert_eq!(server.last_consumed, 9);
    assert!(matches!(
        server.receive(ClientFrame::Ping { sent_at_ms: 1 }, "/s", 0, 2),
        FrameStep::Answer(ServerFrame::Pong { ping_sent_at_ms: 1, pong_at_ms: 2 })
    ));
    assert!(server.emit(LoopEvent::Shutdown).is_none());
    assert_eq!(server.seq, 1);
    assert!(matches!(AcpServer::keepalive(7), ServerFrame::Ping { sent_at_ms: 7 }));
}

// ── the terminal ────────────────────────────────────────────────────

#[test]
fn input_lines() {
    assert!(matches!(read_input(" \n"), ReplInput::Skip));
    assert!(matches!(read_input("/exit\n"), ReplInput::Quit));
    assert!(matches!(read_input("/help"), ReplInput::Help));
    assert!(matches!(
        read_input("/compact"),
        ReplInput::Turn { compact: true, .. }
    ));
    assert!(matches!(
        read_input(" do it "),
        ReplInput::Turn { ref text, compact: false } if text == "do it"
    ));
}

#[test]
fn a_turn_is_printed() {
    let mut turn = ReplTurn::new();
    assert!(matches!(
        turn.take(&LoopEvent::TextDelta { text: " hello".into() }),
        Reaction::Silent
    ));
    turn.take(&LoopEvent::TextDelta { text: " you ".into() });
    assert!(matches!(
        turn.take(&LoopEvent::CompactionStatus { phase: "started".into() }),
        Reaction::Say(_)
    ));
    assert!(matches!(
        turn.take(&LoopEvent::CompactionStatus { phase: "done".into() }),
        Reaction::Silent
    ));
    match turn.take(&LoopEvent::Subagent(SubagentProgress::Finished {
        id: "1".into(),
        label: "l".into(),
        ok: false,
        summary: "s".repeat(100),
    })) {
        Reaction::Say(s) => assert_eq!(
            s,
            format!("\n[subagent 'l'] 执行失败: {}", "s".repeat(80))
        ),
        other => panic!("expected a line, got {other:?}"),
    }
    match turn.take(&LoopEvent::ApprovalRequested {
        ticket_id: "t".into(),
        tool_name: "exec".into(),
        summary: String::new(),
        risk: "high".into(),
        timeout_remaining_ms: 1,
        args: Some(JsonValue::object().with("a", JsonValue::Null)),
        call_id: "c".into(),
    }) {
        Reaction::Ask { text, ticket_id } => {
            assert_eq!(ticket_id, "t");
            assert_eq!(
                text,
                "\n[approval] ticket=t tool=exec risk=high\n  args: {\"a\":null}"
            );
        }
        other => panic!("expected a question, got {other:?}"),
    }
    match turn.take(&LoopEvent::TurnCompleted {
        turn_id: TurnId::new(),
        input_tokens: 0,
        cached_tokens: 0,
    }) {
        Reaction::End(s) => assert_eq!(s, "\nGrodex: hello you"),
        other => panic!("expected the end, got {other:?}"),
    }
    assert!(matches!(
        turn.take(&LoopEvent::Error { message: "x".into() }),
        Reaction::Fail(ref s) if s == "\nError: x"
    ));
}

#[test]
fn questions_are_answered() {
    assert_eq!(read_answer(" YES \n"), Answer::Allow);
    assert_eq!(read_answer("a"), Answer::AlwaysAllow);
    assert_eq!(read_answer("C"), Answer::Deny);
    assert_eq!(read_answer(""), Answer::Wait);
    assert_eq!(read_answer("maybe"), Answer::Wait);
    assert!(Answer::Wait.command("t".into()).is_none());
    assert!(matches!(
        Answer::AlwaysAllow.command("t".into()),
        Some(SessionCommand::ResolveApproval {
            decision: PolicyDecision::Allow,
            always_allow: true,
            ..
        })
    ));
    assert_eq!(Answer::Deny.notice(true), "  已回复：拒绝");
    assert_eq!(Answer::Deny.notice(false), "  回复未送达（会话可能已关闭）");
}

#[test]
fn a_conversation_step_by_step() {
    let line = |s: &str| ReplEvent::Line(LineRead::Line(s.to_string()));
    let (mut repl, first) = Repl::new();
    assert!(matches!(first, ReplAction::Read));
    let acts = repl.advance(line("/help"));
    assert!(matches!(acts[0], ReplAction::Print(_)));
    assert!(matches!(acts[1], ReplAction::Read));
    let acts = repl.advance(line(" hi "));
    assert!(matches!(
        &acts[0],
        ReplAction::Send(SessionCommand::StartTurn { user_input }) if user_input == "hi"
    ));
    let acts = repl.advance(ReplEvent::Sent(Ok(())));
    assert!(matches!(acts[0], ReplAction::Await));
    let acts = repl.advance(ReplEvent::Event(Some(LoopEvent::TextDelta { text: "yo".into() })));
    assert!(matches!(acts[0], ReplAction::Await));
    let acts = repl.advance(ReplEvent::Event(Some(LoopEvent::ApprovalRequested {
        ticket_id: "t".into(),
        tool_name: "exec".into(),
        summary: String::new(),
        risk: "low".into(),
        timeout_remaining_ms: 1,
        args: None,
        call_id: "c".into(),
    })));
    assert!(matches!(acts[1], ReplAction::Ask));
    let acts = repl.advance(line("y"));
    assert!(matches!(
        &acts[0],
        ReplAction::Send(SessionCommand::ResolveApproval { ticket_id, decision: PolicyDecision::Allow, .. })
            if ticket_id == "t"
    ));
    let acts = repl.advance(ReplEvent::Sent(Err("gone".into())));
    assert!(matches!(
        &acts[0],
        ReplAction::Print(s) if s == "  回复未送达（会话可能已关闭）"
    ));
    let acts = repl.advance(ReplEvent::Event(Some(LoopEvent::TurnCompleted {
        turn_id: TurnId::new(),
        input_tokens: 0,
        cached_tokens: 0,
    })));
    assert!(matches!(&acts[0], ReplAction::Print(s) if s == "\nGrodex: yo"));
    assert!(matches!(acts[1], ReplAction::Read));
    let acts = repl.advance(ReplEvent::Line(LineRead::Failed("x".into())));
    assert!(matches!(&acts[0], ReplAction::PrintError(s) if s == "read error: x"));
    assert!(matches!(acts[2], ReplAction::Send(SessionCommand::Shutdown)));
    assert!(matches!(acts[3], ReplAction::Leave));
    assert!(matches!(repl.phase, ReplPhase::Over));
    assert!(repl.advance(line("hi")).is_empty());
}

#[test]
fn conversations_start_with_the_model() {
    let c = choose_model(&toml("endpoint = \"https://e\""), &None, &env());
    assert_eq!(
        startup_lines(Some(2), "turn", &c),
        vec![
            "ModelRoute: 2 candidate(s), sticky=\"turn\", failover enabled".to_string(),
            "Provider: openai  Model: gpt-5  Wire: Responses".to_string(),
            "Endpoint: https://e".to_string(),
        ]
    );
    assert_eq!(startup_lines(None, "turn", &c).len(), 2);
}

// ── permissions ─────────────────────────────────────────────────────

#[test]
fn default_policy_allows_reading_only() {
    let p = build_permission_policy(&toml("model = \"x\""));
    let rules = p.rules();
    assert_eq!(rules.len(), 2);
    assert_eq!(rules[0].tool_pattern, "read_file");
    assert_eq!(rules[0].decision, PolicyDecision::Allow);
    assert_eq!(rules[1].tool_pattern, "*");
    assert_eq!(rules[1].decision, PolicyDecision::Ask);
}

#[test]
fn rules_of_both_forms() {
    let p = build_permission_policy(&toml(
        r#"
[rules]
read_file = "ALLOW"
write_file = "ask"
exec = "sometimes"
web = 3

[[permission_rules]]
tool = "exec"
decision = "allow"
priority = 10
command = { pattern = "git *" }

[[permission_rules]]
tool = "exec"

[[permission_rules]]
tool = "write_file"
decision = "Deny"
priority = -1
rule_id = "r1"
arg_patterns = [{ arg_path = "/path", pattern = "/tmp/*" }]
"#,
    ));
    let rules = p.rules();
    let names: Vec<&str> = rules.iter().map(|r| r.tool_pattern.as_str()).collect();
    assert_eq!(names, vec!["read_file", "write_file", "exec", "write_file"]);
    assert_eq!(rules[0].decision, PolicyDecision::Allow);
    assert_eq!(rules[2].priority, 10);
    assert_eq!(
        rules[2].command,
        Some(JsonValue::object().with("pattern", text("git *")))
    );
    assert!(rules[2].resource.is_none());
    assert_eq!(rules[3].decision, PolicyDecision::Deny);
    assert_eq!(rules[3].priority, 255);
    assert_eq!(rules[3].rule_id.as_deref(), Some("r1"));
    assert_eq!(rules[3].arg_patterns.len(), 1);
}

#[test]
fn toml_as_json() {
    let v = toml_to_json_value(&toml(
        "a = 1\nb = -2\nc = 1.5\nd = true\ne = [\"x\"]\nf = 1979-05-27\ng = inf\n[h]\ni = \"y\"",
    ));
    assert_eq!(v.get("a"), Some(&JsonValue::Number(JsonNumber::Unsigned(1))));
    assert_eq!(v.get("b"), Some(&JsonValue::Number(JsonNumber::Signed(-2))));
    assert_eq!(
        v.get("c"),
        Some(&JsonValue::Number(JsonNumber::Float("1.5".into())))
    );
    assert_eq!(v.get("d"), Some(&JsonValue::Bool(true)));
    assert_eq!(v.get("e"), Some(&JsonValue::Array(vec![text("x")])));
    assert_eq!(v.get("f"), Some(&JsonValue::Null));
    assert_eq!(v.get("g"), Some(&JsonValue::Null));
    assert_eq!(v.get("h").unwrap().text_at("i").as_deref(), Some("y"));
}

// ── settings ────────────────────────────────────────────────────────

fn env() -> SessionEnv {
    SessionEnv {
        provider: None,
        model: None,
        wire_protocol: None,
        endpoint: None,
        memory_db: None,
        rescan_secs: None,
        home: None,
        home_dir: None,
    }
}

fn route() -> Option<ModelRoute> {
    Some(ModelRoute {
        candidates: vec![RouteCandidate {
            provider_id: "rp".into(),
            model_id: "rm".into(),
            wire_protocol: "messages".into(),
            endpoint: "https://r".into(),
        }],
    })
}

#[test]
fn models_are_chosen() {
    let c = choose_model(&toml(""), &None, &env());
    assert_eq!(c.provider, "openai");
    assert_eq!(c.model, "gpt-5");
    assert_eq!(c.wire_protocol, WireProtocol::Responses);
    assert!(c.endpoint.is_none());
    assert_eq!(c.audience, "https://api.openai.com/v1");

    let mut e = env();
    e.provider = Some("ep".into());
    e.wire_protocol = Some("chat".into());
    let c = choose_model(&toml(""), &None, &e);
    assert_eq!(c.provider, "ep");
    assert_eq!(c.wire_protocol, WireProtocol::ChatCompletions);

    let c = choose_model(&toml(""), &route(), &e);
    assert_eq!(c.provider, "rp");
    assert_eq!(c.wire_protocol, WireProtocol::Messages);
    assert_eq!(c.audience, "https://r");

    let c = choose_model(
        &toml("provider = \"cp\"\nmodel = \"cm\"\nendpoint = \"https://c\"\napi_key = \"k\""),
        &route(),
        &e,
    );
    assert_eq!(c.provider, "cp");
    assert_eq!(c.model, "cm");
    assert_eq!(c.audience, "https://c");
    assert_eq!(c.api_key.as_deref(), Some("k"));
    // A model that is no text is as good as none, and hides the old key.
    let c = choose_model(&toml("model_id = 3\nmodel = \"cm\""), &route(), &e);
    assert_eq!(c.model, "rm");
}

#[test]
fn limits_are_checked() {
    let l = session_limits(&toml(
        "compaction_threshold_percent = 150\nmax_tool_result_bytes = 0\nmax_steps_per_turn = 40\n\
         tool_timeout_secs = 0\nmax_subagents = -1",
    ));
    assert_eq!(l.compaction_threshold, Some(100));
    assert_eq!(l.max_tool_result_bytes, None);
    assert_eq!(l.max_steps_per_turn, Some(40));
    assert_eq!(l.tool_timeout_secs, Some(0));
    assert_eq!(l.max_subagents, None);
    assert_eq!(context_window(&toml("context_window = 7"), 9), 7);
    assert_eq!(context_window(&toml("context_window = -1"), 9), u64::MAX);
    assert_eq!(context_window(&toml(""), 9), 9);
}

#[test]
fn sandboxes_are_chosen() {
    assert!(matches!(
        sandbox_client(&toml(""), Platform::Linux),
        SandboxClient::Off
    ));
    let cfg = toml("[sandbox]\nexternal_supervisor = true");
    assert!(matches!(
        sandbox_client(&cfg, Platform::Linux),
        SandboxClient::InProcess { supervisor_path: None }
    ));
    assert!(matches!(
        sandbox_client(&cfg, Platform::MacOs),
        SandboxClient::External { ref path, timeout_ms: 30_000, fallback: None }
            if path == "grodex-supervisor"
    ));
}

#[test]
fn memory_is_found_and_rescanned() {
    let mut e = env();
    assert!(memory_db_path(&toml(""), &e).is_none());
    e.home_dir = Some("/home/u".into());
    assert_eq!(
        memory_db_path(&toml(""), &e).as_deref(),
        Some("/home/u/.grodex/memory.db")
    );
    assert_eq!(
        memory_db_path(&toml("[memory]\npath = \"~/m.db\""), &e).as_deref(),
        Some("/home/u/m.db")
    );
    e.memory_db = Some("/e.db".into());
    assert_eq!(
        memory_db_path(&toml("[memory]\npath = \"~/m.db\""), &e).as_deref(),
        Some("/e.db")
    );
    assert_eq!(rescan_interval(&e), 600);
    for (t, n) in [("0", 0), ("+15", 15), ("-1", 600), ("", 600), ("18446744073709551616", 600)] {
        e.rescan_secs = Some(t.to_string());
        assert_eq!(rescan_interval(&e), n);
    }
    assert!(backfill_notice(Ok(0)).is_none());
    assert_eq!(
        backfill_notice(Ok(12)).as_deref(),
        Some("[memory] embedding backfill: 12 documents")
    );
    assert_eq!(
        backfill_notice(Err("e".into())).as_deref(),
        Some("[warn] embedding backfill failed (staying pure FTS): e")
    );
    assert_eq!(
        mcp_failed("s", "spawn", "e"),
        "[warn] MCP server 's' spawn failed: e"
    );
    assert!(reindex_notice(0, 0, 0).is_none());
    assert_eq!(
        reindex_notice(1, 2, 3).as_deref(),
        Some("[memory] reindex: +1 new, ~2 changed, -3 removed")
    );
}

#[test]
fn vendors_are_sorted() {
    assert_eq!(
        compat_vendors(&toml("instruction_compat_vendors = [\"cursor\", \"codex\", 1, \"cursor\"]")),
        vec!["codex".to_string(), "cursor".to_string()]
    );
    assert!(compat_vendors(&toml("")).is_empty());
}

#[test]
fn credentials_are_prepared() {
    let mut b = CredentialBroker::with_secret_store();
    assert_eq!(
        prepare_credentials(&mut b, "p", None, Some("k".into())),
        Some(("master:p".to_string(), "k".to_string()))
    );
    assert_eq!(lease_api_key(&mut b, "p", "https://a", 1, 0).as_deref(), Some("k"));
    assert!(lease_api_key(&mut b, "q", "https://a", 1, 0).is_none());
    let mut b = CredentialBroker::with_secret_store();
    assert!(prepare_credentials(&mut b, "p", Some("stored".into()), Some("k".into())).is_none());
    assert_eq!(
        lease_api_key(&mut b, "p", "https://a", 1, 0).as_deref(),
        Some("stored")
    );
}

fn paths() -> ConfigPaths {
    ConfigPaths {
        system: None,
        enterprise: None,
        user: None,
        profile: None,
        workspace: None,
    }
}

fn files() -> Vec<ConfigFile> {
    vec![
        ConfigFile {
            slot: ConfigSlot::System,
            path: "/etc/c.toml".into(),
            read: FileRead::Text("[requirements]\nrequired_sandbox = \"landlock\"".into()),
        },
        ConfigFile {
            slot: ConfigSlot::Workspace,
            path: "/w/c.toml".into(),
            read: FileRead::Text("provider = \"wp\"\n[sandbox]\ntype = \"none\"".into()),
        },
    ]
}

fn facts() -> WorkspaceFacts {
    WorkspaceFacts {
        canonical_path: "/w".into(),
        remote: None,
    }
}

#[test]
fn vouching_brings_the_workspace_in_under_the_requirements() {
    let mut config = ConfigResolver::load(paths(), &files(), &facts()).unwrap();
    assert!(config.effective.values.get("provider").is_none());
    assert!(!apply_trust(&mut config, None));
    assert!(!apply_trust(&mut config, Some(false)));
    assert!(apply_trust(&mut config, Some(true)));
    let v = &config.effective.values;
    assert_eq!(v.get("provider").unwrap().as_str(), Some("wp"));
    assert_eq!(
        v.get("sandbox").unwrap().get("type").unwrap().as_str(),
        Some("landlock")
    );
    assert!(config_trusts(&config.raw_layers));
}

#[test]
fn sessions_are_built() {
    let config = ConfigResolver::load(paths(), &files(), &facts()).unwrap();
    let mut e = env();
    e.home = Some("/home/u".into());
    let r = SessionRuntimeBuilder::new("/w".into())
        .with_trusted(true)
        .with_telemetry(true)
        .build(config, route(), &e, Platform::Linux, 1000);
    assert_eq!(r.cwd, "/w");
    assert!(r.workspace_trusted);
    assert!(r.telemetry);
    assert_eq!(r.model_config.provider, "wp");
    assert_eq!(r.model_config.model, "rm");
    assert_eq!(r.model_config.context_window, 1000);
    assert_eq!(r.sandbox_profile, "workspace");
    assert_eq!(r.policy.rules().len(), 2);
    assert_eq!(r.model_route.unwrap().candidates.len(), 1);
    assert_eq!(
        r.credentials.as_deref(),
        Some("/home/u/.grodex/credentials.json")
    );
    assert_eq!(r.run_id.len(), 36);
}

#[test]
fn mcp_servers_are_started() {
    let server = |enabled: bool, requires_oauth: bool| McpEntry::Server {
        name: "s".into(),
        enabled,
        requires_oauth,
    };
    let steps = mcp_steps(&vec![
        server(false, true),
        McpEntry::Invalid("bad".into()),
        server(true, true),
        server(true, false),
    ]);
    assert_eq!(steps.len(), 4);
    assert!(matches!(
        &steps[0],
        McpStep::Warn(m) if m == "[warn] MCP server config parse error: bad"
    ));
    assert!(matches!(steps[1], McpStep::Register(2)));
    assert!(matches!(steps[2], McpStep::Start(2)));
    assert!(matches!(steps[3], McpStep::Start(3)));
    assert_eq!(
        mcp_registered("s", Err("e".into())),
        "[warn] MCP server 's' OAuth 注册失败: e"
    );
    assert_eq!(default_sandbox_profile().deny_paths.len(), 3);
    assert_eq!(
        approvals_path("/b", SessionId::from_string(OLD).unwrap()),
        format!("/b/{OLD}/approvals.db")
    );
    let auth = AuthManager::new(vec![("OPENAI_API_KEY".into(), "e".into())]);
    let c = choose_model(&toml("api_key = \"c\""), &None, &env());
    assert_eq!(
        master_key(&auth, &c, Some("e".into())).as_deref(),
        Some("e")
    );
    assert_eq!(master_key(&auth, &c, None).as_deref(), Some("c"));
    let c = choose_model(&toml("provider = \"x\"\napi_key = \"c\""), &None, &env());
    assert_eq!(master_key(&auth, &c, None).as_deref(), Some("c"));
}

#[test]
fn mcp_servers_are_recorded() {
    assert_eq!(
        mcp_lifecycle("s", "spawn", "failed", 5, 0, Some("no")),
        (
            "{\"duration_ms\":5,\"error_class\":\"no\",\"phase\":\"spawn\",\"server_name\":\"s\",\
             \"status\":\"failed\",\"tool_count\":0,\"transport\":\"stdio\"}"
                .to_string(),
            true
        )
    );
    assert!(!mcp_lifecycle("s", "spawn", "ok", 5, 0, None).1);
}

// ── prompt, replay, eval ────────────────────────────────────────────

#[test]
fn prompts_are_explained() {
    assert_eq!(
        trust_line(false, true),
        "Workspace trust: TRUSTED (--trusted=false, config[workspace].trusted=true)"
    );
    assert_eq!(
        trust_line(false, false),
        "Workspace trust: UNTRUSTED (fail-closed) (--trusted=false, config[workspace].trusted=false)"
    );
    assert_eq!(
        discovery_text(DiscoveryCounts { nodes: 1, oversized: 2, duplicates: 3, untrusted: 4 }),
        "\n── Instruction Discovery ──\nNodes discovered: 1\nOversized files skipped: 2\n\
         Duplicate canonical paths deduped: 3\nUntrusted workspace files skipped: 4"
    );
    assert_eq!(
        diagnostic_lines(&vec![ConfigDiagnostic {
            level: DiagnosticLevel::Info,
            key_path: "a.b".into(),
            message: "m".into(),
        }]),
        vec!["  [INFO   ] a.b — m".to_string()]
    );
    let ls = explain_prompt(&PromptFacts {
        cwd: "/w".into(),
        explicit: true,
        configured: false,
        root_generation: 3,
        diagnostics: vec![],
        discovery: DiscoveryCounts { nodes: 0, oversized: 0, duplicates: 0, untrusted: 0 },
        remarks: vec!["odd".into()],
        manifest: "M".into(),
    });
    assert_eq!(ls.len(), 9);
    assert_eq!(ls[4], "Config diagnostics: 0 (merge/migration/enforcement)");
    assert_eq!(ls[6], "  ⚠ odd");
    assert_eq!(ls[8], "M");
    let layer = |source| ConfigLayer {
        source,
        values: toml(""),
        fingerprint: String::new(),
        disabled_reason: None,
    };
    assert!(!config_trusts(&vec![
        layer(ConfigLayerSource::User),
        layer(ConfigLayerSource::Workspace { trusted: false }),
    ]));
}

#[test]
fn old_sessions_are_shown() {
    assert_eq!(
        replay_line(&ContextItem::ToolResult { content: "c".into(), is_error: true }),
        "  [Error: c]"
    );
    assert_eq!(
        replay_line(&ContextItem::CompactionSummary { window_number: 3 }),
        "  [Compaction #3]"
    );
    let ls = replay_report(5, &vec![ContextItem::User { content: "hi".into() }]);
    assert_eq!(
        ls,
        vec![
            "Events:  5".to_string(),
            "Context items: 1".to_string(),
            "\nYou: hi".to_string(),
            "\n═══ Replay complete ═══".to_string(),
        ]
    );
    assert!(named_session(OLD).is_ok());
    assert_eq!(named_session("x"), Err("Invalid session id: x".to_string()));
    assert!(matches!(
        resume_report(Ok((3, 2))),
        ResumeReport::Resumed(ref m) if m == "Resumed session with 2 context items."
    ));
    assert!(matches!(resume_report(Ok((0, 2))), ResumeReport::Empty(_)));
    assert!(matches!(
        resume_report(Err("e".into())),
        ResumeReport::Failed(ref m) if m == "Cannot replay: e"
    ));
}

#[test]
fn evaluations_are_reported() {
    let ids = |xs: &[&str]| xs.iter().map(|x| x.to_string()).collect::<Vec<String>>();
    assert_eq!(count_hits(&ids(&["a", "b", "a"]), &ids(&["a", "c"])), 2);
    let s = EvalSample {
        sample_id: "s1".into(),
        query: "q\"".into(),
        skill_enabled: true,
        memory_enabled: false,
        evidence_enabled: true,
        actual_memory_ids: ids(&["a"]),
        actual_evidence_ids: ids(&[]),
        actual_skill_ids: ids(&["x", "y"]),
        expected_memory_ids: ids(&["a", "b"]),
    };
    assert_eq!(
        sample_lines(&s),
        vec![
            "  [s1] query=\"q\\\"\"".to_string(),
            "    router: skill=true mem=false ev=true | actual: mem=1 ev=0 skill=2".to_string(),
            "    expected mem: 2 | hits: 1".to_string(),
        ]
    );
    assert_eq!(
        eval_header("s", "/m.db", 4, false)[4],
        "Labels: none (no ground-truth comparison)"
    );
    let report = eval_report("s", "/m.db", &vec![s], true, "METRICS");
    assert_eq!(report.len(), 11);
    assert_eq!(report[6], "METRICS");
    assert_eq!(report[7], "\n── Per-sample details ──");
    assert_eq!(eval_report("s", "/m.db", &vec![], true, "M").len(), 7);
    assert_eq!(eval_db_path(None, None), "./.grodex/memory.db");
    assert_eq!(eval_db_path(Some("/x".into()), None), "/x");
}

#[test]
fn callers_fix_model_and_route() {
    let config = LoadedConfig::empty(paths());
    let r = SessionRuntimeBuilder::new("/w".into())
        .with_recovered_context(vec![])
        .with_model_config(ModelConfig {
            provider: "p".into(),
            model: "m".into(),
            wire_protocol: WireProtocol::Messages,
            context_window: 5,
        })
        .with_model_route(Some(ModelRoute { candidates: vec![] }))
        .build(config, route(), &env(), Platform::Linux, 1000);
    assert_eq!(r.model_config.provider, "p");
    assert_eq!(r.model_config.context_window, 5);
    assert!(r.model_route.unwrap().candidates.is_empty());
    assert!(r.recovered_context.unwrap().is_empty());
    assert!(!r.workspace_trusted);
    assert_eq!(r.tools.len(), 10);
    assert_eq!(r.subagent_tools, vec!["read_file", "grep", "glob"]);
    assert_eq!(r.delegation.peers, 16);
}
