use grodex::json::{JsonNumber, JsonValue};
use grodex::strmap::StrMap;
use grodex::telemetry::{
    attempt_line, cache, cache_share, default_db_path, doctor_lines, errors, export_notice,
    export_query, open_path, recovery, session, sessions, slow_models, slow_tools, timeline,
    tool_line, turn_detail, vacuum_path, AnomalyRow, AttemptRow, CacheRow, DoctorReport, ErrorRow,
    ModelStats, SessionRow, ToolRow, ToolStats, TurnRow,
};
use grodex::text::{lines, parse_u64, signed_string, split, split_words, truncate};

fn turn_row() -> TurnRow {
    TurnRow {
        turn_id: "t".repeat(40),
        session_id: "s".into(),
        status: "completed".into(),
        termination_reason: None,
        started_at: Some("T0".into()),
        finished_at: None,
        duration: Some("1.2s".into()),
        steps: Some(3),
        model_calls: None,
        tool_calls: Some(0),
        retries: Some(-1),
    }
}

fn tool_row() -> ToolRow {
    ToolRow {
        tool_name: Some("exec".into()),
        started_at: Some("a".into()),
        finished_at: Some("b".into()),
        committed_at: Some("c".into()),
        approval_wait: None,
        duration: None,
        is_error: Some(0),
        status: "committed".into(),
    }
}

#[test]
fn databases_are_found() {
    assert_eq!(
        default_db_path(None, None, Some("/h".into())).as_deref(),
        Some("/h/.grodex/telemetry.db")
    );
    assert_eq!(
        default_db_path(None, Some("/e".into()), Some("/h".into())).as_deref(),
        Some("/e")
    );
    assert_eq!(
        default_db_path(Some("/n".into()), Some("/e".into()), None).as_deref(),
        Some("/n")
    );
    assert_eq!(open_path(Some("/x".into()), true), Ok("/x".to_string()));
    assert_eq!(
        open_path(Some("/x".into()), false),
        Err("telemetry.db 不存在：/x（先运行一次 grodex 会话）".to_string())
    );
    assert!(open_path(None, false).is_err());
    assert_eq!(
        vacuum_path(Some("/x".into()), false),
        Err("telemetry.db 不存在：/x".to_string())
    );
}

#[test]
fn sessions_and_turns_are_listed() {
    assert_eq!(sessions(&vec![]), vec!["（无会话记录）".to_string()]);
    let ls = sessions(&vec![SessionRow {
        session_id: "sid".into(),
        run_id: "r".repeat(13),
        turn_count: 12,
        model_provider: Some("p".into()),
        model: Some("m".into()),
        started_at: None,
    }]);
    assert_eq!(
        ls[0],
        format!(
            "{:<38} {:<12} {:<10} {:>5}  {:<20} {}",
            "SESSION", "RUN", "TURNS", "", "MODEL", "STARTED"
        )
    );
    assert_eq!(
        ls[1],
        format!(
            "{:<38} {:<12} {:<10} {:>5}  {:<20} {}",
            "sid",
            format!("{}…", "r".repeat(12)),
            12,
            "",
            "p/m",
            "-"
        )
    );
    let ls = session("s", &vec![turn_row()]).unwrap();
    assert_eq!(
        ls[1],
        format!(
            "{:<38} {:<11} {:<9} {:>5} {:>6} {:>6} {:>7} {:>9}  {}",
            format!("{}…", "t".repeat(38)),
            "completed",
            "-",
            "3",
            "-",
            "0",
            "-1",
            "1.2s",
            "T0"
        )
    );
    assert_eq!(
        session("s", &vec![]),
        Err("未找到会话 s 的 Turn 记录".to_string())
    );
    let ls = timeline("s", &vec![turn_row()]).unwrap();
    assert_eq!(
        ls[0],
        format!(
            "{:<38} {:<11} {:<22} {:>9} {:>5} {:>5} {:>5} {:>7}  {}",
            "TURN", "STATUS", "REASON", "DURATION", "STEPS", "MODEL", "TOOLS", "RETRIES", "STARTED"
        )
    );
    assert!(timeline("s", &vec![]).is_err());
}

#[test]
fn turns_are_told_in_detail() {
    assert_eq!(
        turn_detail("x", &None, &vec![], &vec![]),
        Err("未找到 Turn x".to_string())
    );
    let a = AttemptRow {
        started_at: "T".into(),
        provider: "p".into(),
        model: "m".into(),
        attempts: 2,
        duration: None,
        status: "error".into(),
        error_class: Some("timeout".into()),
        http_status: Some(503),
        retry_after_secs: Some(4),
        first_token: Some("20ms".into()),
        cache: Some("50%".into()),
    };
    assert_eq!(
        attempt_line(&a),
        "  T  p/m  error x2  -  error=timeout  http=503  retry_after=4s  ttft=20ms  cache=50%"
    );
    let ls = turn_detail("t", &Some(turn_row()), &vec![a], &vec![tool_row()]).unwrap();
    assert_eq!(ls[2], "status      completed (-)");
    assert_eq!(
        ls[6],
        "counters    steps=3 model_calls=0 tool_calls=0 retries=-1"
    );
    assert_eq!(ls[7], "model attempts:");
    assert_eq!(ls[9], "tool executions:");
    assert_eq!(ls[10], format!("  {:<12} {:<13} exec=-", "exec", "committed"));
    assert_eq!(cache_share(Some(10), Some(5)), Some((10, 5)));
    assert_eq!(cache_share(Some(0), Some(5)), None);
    assert_eq!(cache_share(None, Some(5)), None);
}

#[test]
fn unfinished_tools_are_remarked_on() {
    let mut t = tool_row();
    t.finished_at = None;
    t.is_error = Some(1);
    t.approval_wait = Some("3ms".into());
    assert!(tool_line(&t).ends_with(
        " exec=- approval_wait=3ms ERROR  ← started but never finished（崩溃/卡住）"
    ));
    let mut t = tool_row();
    t.committed_at = None;
    assert!(tool_line(&t).ends_with("  ← executed but result not committed"));
    t.status = "indeterminate".into();
    assert!(tool_line(&t).ends_with(" exec=-"));
}

#[test]
fn tables_of_the_rest() {
    assert_eq!(errors(&vec![]), vec!["（无 error 级事件）".to_string()]);
    let ls = errors(&vec![ErrorRow {
        occurred_at: "T".into(),
        session_id: "s".into(),
        kind: "k".into(),
        call_id: None,
        journal_seq: Some(3),
    }]);
    assert_eq!(
        ls[0],
        format!(
            "{:<25} {:<18} {:<8} {}  {}",
            "TIME", "SESSION", "KIND", "CALL", "SEQ"
        )
    );
    assert_eq!(
        ls[1],
        format!("{:<25} {:<18} {:<8} {:<24} {}", "T", "s", "k", "-", 3)
    );
    let ls = slow_tools(&vec![ToolStats {
        tool_name: "exec".into(),
        calls: 2,
        errors: 1,
        average: "5ms".into(),
        longest: "9ms".into(),
        approval_wait: None,
    }]);
    assert_eq!(
        ls[1],
        format!(
            "{:<16} {:>6} {:>7} {:>9} {:>9} {:>12}",
            "exec", 2, 1, "5ms", "9ms", "-"
        )
    );
    let ls = slow_models(&vec![ModelStats {
        provider: "p".into(),
        model: "m".into(),
        calls: 2,
        errors: 1,
        average: "5ms".into(),
        longest: "9ms".into(),
        hit_rate: Some("1.0%".into()),
        input_tokens: 7,
    }]);
    assert_eq!(
        ls[1],
        format!(
            "{:<14} {:<20} {:>6} {:>7} {:>9} {:>9} {:>10} {:>12}",
            "p", "m", 2, 1, "5ms", "9ms", "1.0%", 7
        )
    );
    let ls = recovery(&vec![AnomalyRow {
        anomaly: "open_turn".into(),
        session_id: "s".into(),
        subject_id: None,
        occurred_at: None,
        detail: Some("d".into()),
    }]);
    assert_eq!(
        ls[1],
        format!(
            "{:<22} {:<18} {:<38} {:<25} {}",
            "open_turn", "s", "-", "-", "d"
        )
    );
    assert_eq!(slow_tools(&vec![]).len(), 1);
    assert_eq!(slow_models(&vec![]).len(), 1);
    assert_eq!(recovery(&vec![]).len(), 1);
}

#[test]
fn cache_totals_are_summed() {
    let row = |input: i64, cached: i64| CacheRow {
        provider: "p".into(),
        model: "m".into(),
        calls: 1,
        input_tokens: input,
        cached_input_tokens: cached,
        cache_creation_tokens: 0,
        hit_rate: None,
    };
    let ls = cache(&vec![row(10, 1), row(20, 2)]);
    assert_eq!(ls.len(), 4);
    assert_eq!(
        ls[3],
        format!(
            "{:<14} {:<20} {:>6} {:>14} {:>14} {:>12} {:>10}",
            "TOTAL", "", "", 30, 3, "", ""
        )
    );
    assert_eq!(cache(&vec![]).len(), 1);
}

#[test]
fn doctors_remark_on_what_is_open() {
    let mut d = DoctorReport {
        total_sessions: 1,
        total_events: 2,
        open_turns: 1,
        running_tools: 0,
        uncommitted_results: 0,
        indeterminate_tools: 0,
        in_flight_compactions: 0,
        failed_attempts: 0,
    };
    let ls = doctor_lines(d);
    assert_eq!(ls.len(), 9);
    assert_eq!(
        ls[3],
        "  open turns            1  ← started but never finished（崩溃候选）"
    );
    assert_eq!(ls[4], "  running tools         0");
    d.total_events = 0;
    assert_eq!(doctor_lines(d).len(), 10);
    assert_eq!(export_notice(3), "已导出 3 条事件");
    assert!(export_query(true).contains("session_id = ?1"));
    assert!(!export_query(false).contains("WHERE"));
}

// ── texts and values ────────────────────────────────────────────────

#[test]
fn texts() {
    assert_eq!(
        lines("a\r\nb\n\nc\r"),
        vec!["a".to_string(), "b".into(), "".into(), "c\r".into()]
    );
    assert!(lines("").is_empty());
    assert_eq!(lines("\n"), vec!["".to_string()]);
    assert_eq!(split("a,b,", ','), vec!["a".to_string(), "b".into(), "".into()]);
    assert_eq!(split_words("  a\tb\u{3000}c "), vec!["a".to_string(), "b".into(), "c".into()]);
    assert_eq!(truncate("héllo", 2), "hé…");
    assert_eq!(parse_u64("18446744073709551615"), Some(u64::MAX));
    assert_eq!(parse_u64("+0"), Some(0));
    assert_eq!(parse_u64("+"), None);
    assert_eq!(parse_u64("1_0"), None);
    assert_eq!(signed_string(i64::MIN), "-9223372036854775808");
    assert_eq!(signed_string(0), "0");
}

#[test]
fn json_objects_keep_their_keys_in_order() {
    let a = JsonValue::object()
        .with("b", JsonValue::Number(JsonNumber::Unsigned(1)))
        .with("a", JsonValue::Null)
        .with("b", JsonValue::Bool(true));
    let b = JsonValue::object()
        .with("a", JsonValue::Null)
        .with("b", JsonValue::Bool(true));
    assert_eq!(a, b);
    assert_eq!(a.bool_at("b"), Some(true));
    assert_eq!(a.as_object().unwrap()[0].key, "a");
}

#[test]
fn maps_by_text() {
    let mut m = StrMap::new();
    assert!(m.insert("a".to_string(), 1).is_none());
    assert_eq!(m.insert("a".to_string(), 2), Some(1));
    m.insert("b".to_string(), 3);
    assert_eq!(m.len(), 2);
    assert_eq!(m.get("a"), Some(&2));
    assert_eq!(m.remove("a"), Some(2));
    assert!(!m.contains("a"));
    assert_eq!(m.key_list(), vec!["b".to_string()]);
}
