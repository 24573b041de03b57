use grodex::desktop::memory_ui::{
    db_path, maintenance_report, memory_missing, memory_overview, ConflictRow, MemoryRow,
};
use grodex::desktop::rules::{replace_rules_section, rules_section};
use grodex::desktop::sessions::{
    check_deletable, first_line, get_config, is_purged, journal_is_boot_only, list_sessions,
    scan_journal, session_dir, session_path, sessions_dir, summarize_journal, JournalSummary,
    RawSession, SessionSummary,
};
use grodex::desktop::telemetry_ui::{
    doctor, session_detail, telemetry_missing, MemoryRetrievalDto, TurnDto,
};
use grodex::desktop::transport::{
    await_reply, check_cwd, normalize_workspace, resolve_grodex_bin, spawn_failed, workspace_path,
    AgentWorker, Candidate, ControlMsg, DirectoryFacts, WorkerStep, AGENT_GONE, NO_AGENT,
};
use grodex::session::route::{AcpCommand, CommandBody};
use grodex::strmap::StrMap;
use grodex::telemetry::DoctorReport;

// ── saved permissions ───────────────────────────────────────────────

fn permissions(pairs: &[(&str, &str)]) -> StrMap<String> {
    let mut m = StrMap::new();
    for (k, v) in pairs {
        m.insert(k.to_string(), v.to_string());
    }
    m
}

#[test]
fn sections_are_sorted_and_escaped() {
    assert_eq!(
        rules_section(&permissions(&[("write_file", "ask"), ("exec", "a\"b")])),
        "[rules]\nexec = \"a\\\"b\"\nwrite_file = \"ask\"\n"
    );
    assert_eq!(rules_section(&permissions(&[])), "[rules]\n");
}

#[test]
fn the_rest_of_the_file_is_kept() {
    let section = "[rules]\nexec = \"deny\"\n";
    let content = "# head\nmodel = \"x\"\n  [rules]  \nexec = \"allow\"\n\n  [indented]\n[other]\na = 1";
    let once = replace_rules_section(content, section);
    assert_eq!(
        once,
        "# head\nmodel = \"x\"\n[rules]\nexec = \"deny\"\n[other]\na = 1"
    );
    assert_eq!(replace_rules_section(&once, section), once);
}

#[test]
fn missing_sections_are_appended() {
    let section = "[rules]\n";
    assert_eq!(replace_rules_section("", section), section);
    assert_eq!(replace_rules_section("a = 1", section), "a = 1\n\n[rules]\n");
    let once = replace_rules_section("a = 1\n", section);
    assert_eq!(once, "a = 1\n\n[rules]\n");
    assert_eq!(replace_rules_section(&once, section), once);
    assert_eq!(
        replace_rules_section("a = 1\r\n [rules] \r\nx = 2\r\n[b]\r\n", section),
        "a = 1\r\n[rules]\n[b]\r\n"
    );
}

// ── the list of sessions ────────────────────────────────────────────

fn lines(ls: &[&str]) -> Vec<Option<String>> {
    ls.iter().map(|l| Some(l.to_string())).collect()
}

const START: &str = r#"{"event_type":"SessionStarted","timestamp":"T0","payload":{"cwd":"/w","model":"m","model_provider":""}}"#;
const INPUT: &str = r#"{"event_type":"UserInputAccepted","timestamp":"T1","payload":{"text":"\n  first line \nsecond"}}"#;

fn session(r: JournalSummary) -> RawSession {
    match r {
        JournalSummary::Session(s) => s,
        other => panic!("expected a session, got {other:?}"),
    }
}

#[test]
fn journals_are_summarized() {
    let mut ls = lines(&["", "not json", "{\"a\":1}", START, INPUT]);
    ls.insert(0, None);
    let s = session(summarize_journal(&ls, "abcdefgh-1", Some(("T9".into(), 9))));
    assert_eq!(s.updated_ms, 9);
    assert_eq!(s.summary.workspace.as_deref(), Some("/w"));
    assert_eq!(s.summary.model.as_deref(), Some("m"));
    assert!(s.summary.provider.is_none());
    assert_eq!(s.summary.title, "first line");
    assert_eq!(s.summary.preview, "\n  first line \nsecond");
    assert_eq!(s.summary.created_at.as_deref(), Some("T0"));
    assert_eq!(s.summary.updated_at.as_deref(), Some("T9"));
    assert_eq!(s.summary.status, "completed");
    assert!(matches!(
        summarize_journal(&lines(&[START]), "abc", None),
        JournalSummary::Empty
    ));
}

#[test]
fn titles_without_a_text() {
    let only_tool = r#"{"event_type":"ToolExecutionStarted"}"#;
    let s = session(summarize_journal(&lines(&[only_tool]), "abcdefghij", None));
    assert_eq!(s.summary.title, "会话 abcdefgh");
    let s = session(summarize_journal(&lines(&[only_tool]), "abc", None));
    assert_eq!(s.summary.title, "会话 abc");
    let s = session(summarize_journal(&lines(&[only_tool]), "日本ab語", None));
    assert_eq!(s.summary.title, "会话 日本ab");
    assert!(matches!(
        summarize_journal(&lines(&[only_tool]), "日本語語", None),
        JournalSummary::Untitled
    ));
    assert_eq!(first_line(" \r\n x \n").as_deref(), Some("x"));
}

#[test]
fn scans_stop_at_the_limit() {
    let mut ls: Vec<Option<String>> = vec![Some(String::new()); 6000];
    ls.push(Some(INPUT.to_string()));
    assert!(!scan_journal(&ls).has_content);
    ls.remove(0);
    assert!(scan_journal(&ls).has_content);
}

#[test]
fn only_boot_journals_are_purged() {
    assert!(journal_is_boot_only(&lines(&[START, " "])));
    assert!(!journal_is_boot_only(&lines(&[" "])));
    assert!(!journal_is_boot_only(&lines(&[START, INPUT])));
    assert!(!journal_is_boot_only(&lines(&[START, "broken"])));
    assert!(!journal_is_boot_only(&lines(&[START, "{}"])));
    assert!(!journal_is_boot_only(&lines(&[
        START,
        "{\"event_type\":\"FromTheFuture\"}"
    ])));
    assert!(!journal_is_boot_only(&vec![Some(START.to_string()), None]));
    assert!(is_purged(Some(0), &vec![]));
    assert!(!is_purged(None, &vec![]));
    assert!(!is_purged(Some(5), &lines(&[INPUT])));
    assert!(is_purged(Some(5), &lines(&[START])));
}

fn raw(id: &str, ms: u64) -> RawSession {
    RawSession {
        summary: SessionSummary {
            id: id.into(),
            workspace: None,
            model: None,
            provider: None,
            title: String::new(),
            preview: String::new(),
            status: String::new(),
            created_at: None,
            updated_at: None,
        },
        updated_ms: ms,
    }
}

#[test]
fn sessions_are_listed_latest_first() {
    let list = list_sessions(vec![raw("a", 1), raw("b", 3), raw("c", 1), raw("d", 2)]);
    let ids: Vec<&str> = list.iter().map(|s| s.id.as_str()).collect();
    assert_eq!(ids, vec!["b", "d", "a", "c"]);
}

#[test]
fn session_directories_are_checked() {
    assert_eq!(session_path(" ab-1 ", "/s"), Ok("/s/ab-1".to_string()));
    assert_eq!(session_path(" ", "/s"), Err("session id 为空".to_string()));
    assert_eq!(
        session_path("../x", "/s"),
        Err("非法的 session id: ../x".to_string())
    );
    assert_eq!(session_dir("a", "/s", true), Ok("/s/a".to_string()));
    assert_eq!(
        session_dir("a", "/s", false),
        Err("会话目录不存在: /s/a".to_string())
    );
    assert!(check_deletable(Some(59)).is_err());
    assert!(check_deletable(Some(60)).is_ok());
    assert!(check_deletable(None).is_ok());
    assert_eq!(sessions_dir(Some("/h")), "/h/.grodex/sessions");
    assert_eq!(sessions_dir(None), "./.grodex/sessions");
}

#[test]
fn configurations_are_summarized() {
    let c = get_config(
        &Some("provider = \"p\"\nmodel_id = 1\nmodel = \"m\"\n[sandbox]\nprofile = \"full\"".into()),
        &None,
        "/c".into(),
    );
    assert_eq!(c.provider.as_deref(), Some("p"));
    assert_eq!(c.model.as_deref(), Some("m"));
    assert_eq!(c.sandbox_profile.as_deref(), Some("full"));
    assert_eq!(c.wire_protocol, "acp_stdio");
    assert_eq!(c.config_path.as_deref(), Some("/c"));
    let c = get_config(
        &Some("[[broken".into()),
        &Some("[sandbox]\nprofile = \"ws\"".into()),
        "/c".into(),
    );
    assert!(c.provider.is_none());
    assert_eq!(c.sandbox_profile.as_deref(), Some("ws"));
}

// ── the agent ───────────────────────────────────────────────────────

fn cancel() -> AcpCommand {
    AcpCommand {
        command_id: "c".into(),
        idempotency_key: None,
        body: CommandBody::Cancel,
    }
}

#[test]
fn agents_are_bound_to_their_directory() {
    let mut w = AgentWorker::new();
    assert!(matches!(
        w.take(ControlMsg::Command(cancel()), false),
        WorkerStep::Refuse(ref m) if m == NO_AGENT
    ));
    assert!(matches!(
        w.take(ControlMsg::EnsureRunning { cwd: "/a".into() }, false),
        WorkerStep::Spawn { ref cwd, ensured: true } if cwd == "/a"
    ));
    let r = w.spawned("/a".into(), true, Ok(()));
    assert_eq!(r.reply, Ok(true));
    assert_eq!(
        r.log.as_deref(),
        Some("[desktop] 已启动 grodex serve · workspace=/a")
    );
    assert!(matches!(
        w.take(ControlMsg::EnsureRunning { cwd: "/a".into() }, true),
        WorkerStep::Running
    ));
    assert!(matches!(
        w.take(ControlMsg::EnsureRunning { cwd: "//a/./".into() }, true),
        WorkerStep::Running
    ));
    assert!(matches!(
        w.take(ControlMsg::Command(cancel()), true),
        WorkerStep::Send(_)
    ));
    assert!(matches!(
        w.take(ControlMsg::EnsureRunning { cwd: "/b".into() }, true),
        WorkerStep::Spawn { .. }
    ));
    let r = w.spawned("/b".into(), true, Err("no".into()));
    assert_eq!(r.reply, Err("no".to_string()));
    assert!(r.log.is_none());
    assert!(w.active_cwd.is_none());
    w.take(ControlMsg::Respawn { cwd: "/b".into() }, false);
    let r = w.spawned("/b".into(), false, Err("no".into()));
    assert_eq!(r.log.as_deref(), Some("no"));
    w.take(ControlMsg::Respawn { cwd: "/b".into() }, false);
    w.spawned("/b".into(), false, Ok(()));
    assert!(matches!(
        w.take(ControlMsg::Command(cancel()), false),
        WorkerStep::DropDead(ref m) if m == AGENT_GONE
    ));
    assert!(matches!(w.take(ControlMsg::Shutdown, true), WorkerStep::Stop));
}

#[test]
fn workspaces_are_normalized() {
    assert_eq!(
        workspace_path(" ~/p ", Some("/h")),
        Ok("/h/p".to_string())
    );
    assert_eq!(
        workspace_path("", Some("/h")),
        Err("工作目录不能为空".to_string())
    );
    assert_eq!(workspace_path("~/p", None), Err("无法解析 HOME".to_string()));
    assert_eq!(
        normalize_workspace("/w", None, DirectoryFacts::Canonical("/real".into())),
        Ok("/real".to_string())
    );
    assert_eq!(
        normalize_workspace("/w", None, DirectoryFacts::Missing),
        Err("不是有效目录: /w".to_string())
    );
    assert_eq!(
        normalize_workspace("/w", None, DirectoryFacts::Unresolved("e".into())),
        Err("无法解析工作目录 /w: e".to_string())
    );
}

#[test]
fn programs_and_replies() {
    let c = |p: &str, found: bool| {
        Some(Candidate {
            path: p.to_string(),
            found,
        })
    };
    assert_eq!(resolve_grodex_bin(c("/e", true), c("/s", true), None), "/e");
    assert_eq!(resolve_grodex_bin(c("/e", false), c("/s", true), None), "/s");
    assert_eq!(resolve_grodex_bin(None, None, c("/b", true)), "/b");
    assert_eq!(resolve_grodex_bin(None, None, None), "grodex");
    assert!(check_cwd("/x", true).is_ok());
    assert_eq!(check_cwd("/x", false), Err("工作目录不存在: /x".to_string()));
    assert!(spawn_failed("b", "e").contains("（b）"));
    assert_eq!(
        await_reply::<()>(false, None),
        Err("transport worker 已停止".to_string())
    );
    assert_eq!(
        await_reply::<bool>(true, None),
        Err("等待 transport worker 响应超时".to_string())
    );
    assert_eq!(await_reply(true, Some(Ok(true))), Ok(true));
}

// ── panels ──────────────────────────────────────────────────────────

#[test]
fn memory_is_shown_in_lower_case() {
    let overview = memory_overview(
        vec![MemoryRow {
            id: "1".into(),
            status: "Active".into(),
            kind: "Fact".into(),
            scope: "Global".into(),
            content: "C".into(),
            updated_at: "u".into(),
            created_at: "c".into(),
        }],
        vec![ConflictRow {
            conflict_id: "1".into(),
            left_memory_id: "l".into(),
            right_memory_id: "r".into(),
            relation: "Contradicts".into(),
            status: "Pending".into(),
            reason: "R".into(),
        }],
    );
    assert_eq!(overview.units[0].status, "active");
    assert_eq!(overview.units[0].content, "C");
    assert_eq!(overview.conflicts[0].relation, "contradicts");
    assert_eq!(overview.conflicts[0].reason, "R");
    let r = maintenance_report(None, Some(2), 1, true);
    assert_eq!((r.units, r.conflicts_pending), (0, 2));
    assert!(!r.governance_ok);
    assert_eq!(
        db_path(None, Some("/h"), "memory.db"),
        Ok("/h/.grodex/memory.db".to_string())
    );
    assert!(db_path(None, None, "memory.db").is_err());
    assert!(memory_missing("/m").contains("/m"));
}

fn retrieval(turn: Option<&str>, at: &str) -> MemoryRetrievalDto {
    MemoryRetrievalDto {
        turn_id: turn.map(|t| t.to_string()),
        query_chars: None,
        selected_count: None,
        duration_ms: None,
        router_kind: None,
        occurred_at: at.into(),
    }
}

fn turn(id: &str) -> TurnDto {
    TurnDto {
        turn_id: id.into(),
        status: "ok".into(),
        termination_reason: None,
        started_at: None,
        finished_at: None,
        duration_ms: None,
        steps: Some(1),
        model_calls: None,
        tool_calls: None,
        retries: None,
        attempts: vec![],
        memory_retrievals: vec![],
    }
}

#[test]
fn retrievals_are_joined_to_their_turns() {
    let d = session_detail(
        "s".into(),
        vec![turn("a"), turn("b"), turn("a")],
        vec![
            retrieval(Some("b"), "1"),
            retrieval(None, "2"),
            retrieval(Some("a"), "3"),
            retrieval(Some("b"), "4"),
        ],
    );
    let at: Vec<Vec<&str>> = d
        .turns
        .iter()
        .map(|t| t.memory_retrievals.iter().map(|m| m.occurred_at.as_str()).collect())
        .collect();
    assert_eq!(at, vec![vec!["3"], vec!["1", "4"], vec![]]);
    assert_eq!(d.turns[0].steps, Some(1));
    let r = DoctorReport {
        total_sessions: 1,
        total_events: 2,
        open_turns: 3,
        running_tools: 4,
        uncommitted_results: 5,
        indeterminate_tools: 6,
        in_flight_compactions: 7,
        failed_attempts: 8,
    };
    let d = doctor(r, vec![]);
    assert_eq!(d.failed_attempts, 8);
    assert_eq!(d.total_sessions, 1);
    assert!(telemetry_missing("/t").contains("/t"));
}
