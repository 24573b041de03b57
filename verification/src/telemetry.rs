//! What is shown of the telemetry database.
//!
//! Rows arrive as plain values. Durations and rates arrive as text; everything
//! else is laid out here.

use vstd::prelude::*;
use vstd::string::*;

use crate::paths::{join_path, joined_path};
use crate::table::{left_cell, left_in, line_of, pad_right, right_cell, CellView, Line};
use crate::text::{
    decimal, decimal_string, ellipsized, lemma_views_push, opt_view, owned, same, signed_decimal,
    signed_string, truncate, views,
};

verus! {

/// The path of the database: the one that was named, or else that of the
/// environment, or else the one under the home directory.
pub open spec fn database_path(
    named: Option<Seq<char>>,
    env: Option<Seq<char>>,
    home: Option<Seq<char>>,
) -> Option<Seq<char>> {
    match (named, env, home) {
        (Some(p), _, _) => Some(p),
        (None, Some(p), _) => Some(p),
        (None, None, Some(h)) => Some(joined_path(joined_path(h, ".grodex"@), "telemetry.db"@)),
        (None, None, None) => None,
    }
}

/// The path of the database, if there is one.
pub fn default_db_path(named: Option<String>, env: Option<String>, home_dir: Option<String>) -> (r:
    Option<String>)
    ensures
        opt_view(r) == database_path(opt_view(named), opt_view(env), opt_view(home_dir)),
{
    match named {
        Some(p) => Some(p),
        None => match env {
            Some(p) => Some(p),
            None => match home_dir {
                Some(h) => Some(join_path(join_path(h.as_str(), ".grodex").as_str(), "telemetry.db")),
                None => None,
            },
        },
    }
}

/// Finds the database for a query; `found` says whether there is a file at
/// the path. The error is the message for the user.
pub fn open_path(path: Option<String>, found: bool) -> (r: Result<String, String>)
    ensures
        match opt_view(path) {
            None => r matches Err(m) && m@
                == "无法定位 telemetry.db（无 HOME 目录，且未指定 --db）"@,
            Some(p) => if found {
                r matches Ok(q) && q@ == p
            } else {
                r matches Err(m) && m@ == "telemetry.db 不存在："@ + p
                    + "（先运行一次 grodex 会话）"@
            },
        },
{
    match path {
        None => Err(owned("无法定位 telemetry.db（无 HOME 目录，且未指定 --db）")),
        Some(p) => {
            if found {
                Ok(p)
            } else {
                let mut m = owned("telemetry.db 不存在：");
                m.append(p.as_str());
                m.append("（先运行一次 grodex 会话）");
                Err(m)
            }
        },
    }
}

/// Finds the database that is to be vacuumed.
pub fn vacuum_path(path: Option<String>, found: bool) -> (r: Result<String, String>)
    ensures
        match opt_view(path) {
            None => r matches Err(m) && m@ == "无法定位 telemetry.db"@,
            Some(p) => if found {
                r matches Ok(q) && q@ == p
            } else {
                r matches Err(m) && m@ == "telemetry.db 不存在："@ + p
            },
        },
{
    match path {
        None => Err(owned("无法定位 telemetry.db")),
        Some(p) => {
            if found {
                Ok(p)
            } else {
                let mut m = owned("telemetry.db 不存在：");
                m.append(p.as_str());
                Err(m)
            }
        },
    }
}

/// A text, or a dash.
pub open spec fn dash(t: Option<Seq<char>>) -> Seq<char> {
    match t {
        Some(s) => s,
        None => "-"@,
    }
}

/// A number, or a dash.
pub open spec fn number_or_dash(n: Option<i64>) -> Seq<char> {
    match n {
        Some(x) => signed_decimal(x as int),
        None => "-"@,
    }
}

/// A number, or zero.
pub open spec fn number_or_zero(n: Option<i64>) -> int {
    match n {
        Some(x) => x as int,
        None => 0,
    }
}

fn or_dash(t: &Option<String>) -> (r: String)
    ensures
        r@ == dash(opt_view(*t)),
{
    match t {
        Some(s) => s.clone(),
        None => owned("-"),
    }
}

fn show_number(n: Option<i64>) -> (r: String)
    ensures
        r@ == number_or_dash(n),
{
    match n {
        Some(x) => signed_string(x),
        None => owned("-"),
    }
}

fn or_zero(n: Option<i64>) -> (r: i64)
    ensures
        r == number_or_zero(n),
{
    match n {
        Some(x) => x,
        None => 0,
    }
}

/// A session in the database.
#[derive(Debug)]
pub struct SessionRow {
    pub session_id: String,
    pub run_id: String,
    pub turn_count: i64,
    pub model_provider: Option<String>,
    pub model: Option<String>,
    pub started_at: Option<String>,
}

/// The model of a session with its provider.
pub open spec fn model_text(r: SessionRow) -> Seq<char> {
    match (opt_view(r.model_provider), opt_view(r.model)) {
        (Some(p), Some(m)) => p + "/"@ + m,
        _ => "-"@,
    }
}

/// The cells for a session.
pub open spec fn session_cells(r: SessionRow) -> Seq<CellView> {
    seq![
        left_cell(0, ellipsized(r.session_id@, 38), 38),
        left_cell(1, ellipsized(r.run_id@, 12), 12),
        left_cell(1, signed_decimal(r.turn_count as int), 10),
        right_cell(1, Seq::empty(), 5),
        left_cell(2, model_text(r), 20),
        left_cell(1, dash(opt_view(r.started_at)), 0),
    ]
}

/// The line for a session.
pub fn session_line(r: &SessionRow) -> (s: String)
    ensures
        s@ == line_of(session_cells(*r)),
{
    let model = match (&r.model_provider, &r.model) {
        (Some(p), Some(m)) => {
            let mut t = p.clone();
            t.append("/");
            t.append(m.as_str());
            t
        },
        _ => owned("-"),
    };
    let none = String::new();
    assert(none@ =~= Seq::empty());
    let l = Line::new().left(0, truncate(r.session_id.as_str(), 38).as_str(), 38).left(
        1,
        truncate(r.run_id.as_str(), 12).as_str(),
        12,
    ).left(1, signed_string(r.turn_count).as_str(), 10).right(1, none.as_str(), 5).left(
        2,
        model.as_str(),
        20,
    ).left(1, or_dash(&r.started_at).as_str(), 0);
    assert(l@ =~= session_cells(*r));
    l.into_text()
}

/// A turn in the database.
#[derive(Debug)]
pub struct TurnRow {
    pub turn_id: String,
    pub session_id: String,
    pub status: String,
    pub termination_reason: Option<String>,
    pub started_at: Option<String>,
    pub finished_at: Option<String>,
    pub duration: Option<String>,
    pub steps: Option<i64>,
    pub model_calls: Option<i64>,
    pub tool_calls: Option<i64>,
    pub retries: Option<i64>,
}

/// The cells for a turn of a session.
pub open spec fn turn_cells(t: TurnRow) -> Seq<CellView> {
    seq![
        left_cell(0, ellipsized(t.turn_id@, 38), 38),
        left_cell(1, t.status@, 11),
        left_cell(1, dash(opt_view(t.termination_reason)), 9),
        right_cell(1, number_or_dash(t.steps), 5),
        right_cell(1, number_or_dash(t.model_calls), 6),
        right_cell(1, number_or_dash(t.tool_calls), 6),
        right_cell(1, number_or_dash(t.retries), 7),
        right_cell(1, dash(opt_view(t.duration)), 9),
        left_cell(2, dash(opt_view(t.started_at)), 0),
    ]
}

/// The line for a turn of a session.
pub fn turn_line(t: &TurnRow) -> (s: String)
    ensures
        s@ == line_of(turn_cells(*t)),
{
    let l = Line::new().left(0, truncate(t.turn_id.as_str(), 38).as_str(), 38).left(
        1,
        t.status.as_str(),
        11,
    ).left(1, or_dash(&t.termination_reason).as_str(), 9).right(
        1,
        show_number(t.steps).as_str(),
        5,
    ).right(1, show_number(t.model_calls).as_str(), 6).right(
        1,
        show_number(t.tool_calls).as_str(),
        6,
    ).right(1, show_number(t.retries).as_str(), 7).right(1, or_dash(&t.duration).as_str(), 9).left(
        2,
        or_dash(&t.started_at).as_str(),
        0,
    );
    assert(l@ =~= turn_cells(*t));
    l.into_text()
}

/// The cells for a turn in a timeline.
pub open spec fn timeline_cells(t: TurnRow) -> Seq<CellView> {
    seq![
        left_cell(0, ellipsized(t.turn_id@, 38), 38),
        left_cell(1, t.status@, 11),
        left_cell(1, dash(opt_view(t.termination_reason)), 22),
        right_cell(1, dash(opt_view(t.duration)), 9),
        right_cell(1, number_or_dash(t.steps), 5),
        right_cell(1, number_or_dash(t.model_calls), 5),
        right_cell(1, number_or_dash(t.tool_calls), 5),
        right_cell(1, number_or_dash(t.retries), 7),
        left_cell(2, dash(opt_view(t.started_at)), 0),
    ]
}

/// The line for a turn in a timeline.
pub fn timeline_line(t: &TurnRow) -> (s: String)
    ensures
        s@ == line_of(timeline_cells(*t)),
{
    let l = Line::new().left(0, truncate(t.turn_id.as_str(), 38).as_str(), 38).left(
        1,
        t.status.as_str(),
        11,
    ).left(1, or_dash(&t.termination_reason).as_str(), 22).right(
        1,
        or_dash(&t.duration).as_str(),
        9,
    ).right(1, show_number(t.steps).as_str(), 5).right(
        1,
        show_number(t.model_calls).as_str(),
        5,
    ).right(1, show_number(t.tool_calls).as_str(), 5).right(
        1,
        show_number(t.retries).as_str(),
        7,
    ).left(2, or_dash(&t.started_at).as_str(), 0);
    assert(l@ =~= timeline_cells(*t));
    l.into_text()
}

/// The lines at the head of the account of a turn.
pub open spec fn turn_head_of(t: TurnRow) -> Seq<Seq<char>> {
    seq![
        "turn        "@ + t.turn_id@,
        "session     "@ + t.session_id@,
        "status      "@ + t.status@ + " ("@ + dash(opt_view(t.termination_reason)) + ")"@,
        "started     "@ + dash(opt_view(t.started_at)),
        "finished    "@ + dash(opt_view(t.finished_at)),
        "duration    "@ + dash(opt_view(t.duration)),
        "counters    steps="@ + signed_decimal(number_or_zero(t.steps)) + " model_calls="@
            + signed_decimal(number_or_zero(t.model_calls)) + " tool_calls="@ + signed_decimal(
            number_or_zero(t.tool_calls),
        ) + " retries="@ + signed_decimal(number_or_zero(t.retries)),
    ]
}

fn labelled(label: &str, text: &str) -> (r: String)
    ensures
        r@ == label@ + text@,
{
    let mut s = owned(label);
    s.append(text);
    s
}

/// The lines at the head of the account of a turn.
pub fn turn_head(t: &TurnRow) -> (r: Vec<String>)
    ensures
        views(r@) == turn_head_of(*t),
{
    let mut status = labelled("status      ", t.status.as_str());
    status.append(" (");
    status.append(or_dash(&t.termination_reason).as_str());
    status.append(")");
    let mut counters = labelled("counters    steps=", signed_string(or_zero(t.steps)).as_str());
    counters.append(" model_calls=");
    counters.append(signed_string(or_zero(t.model_calls)).as_str());
    counters.append(" tool_calls=");
    counters.append(signed_string(or_zero(t.tool_calls)).as_str());
    counters.append(" retries=");
    counters.append(signed_string(or_zero(t.retries)).as_str());
    let mut out: Vec<String> = Vec::new();
    out.push(labelled("turn        ", t.turn_id.as_str()));
    out.push(labelled("session     ", t.session_id.as_str()));
    out.push(status);
    out.push(labelled("started     ", or_dash(&t.started_at).as_str()));
    out.push(labelled("finished    ", or_dash(&t.finished_at).as_str()));
    out.push(labelled("duration    ", or_dash(&t.duration).as_str()));
    out.push(counters);
    assert(views(out@) =~= turn_head_of(*t));
    out
}

/// A call of a model in a turn.
#[derive(Debug)]
pub struct AttemptRow {
    pub started_at: String,
    pub provider: String,
    pub model: String,
    pub attempts: i64,
    pub duration: Option<String>,
    pub status: String,
    pub error_class: Option<String>,
    pub http_status: Option<i64>,
    pub retry_after_secs: Option<i64>,
    pub first_token: Option<String>,
    /// The share of the input that came from the cache.
    pub cache: Option<String>,
}

/// What is added to a line, where there is something to add.
pub open spec fn addition(label: Seq<char>, t: Option<Seq<char>>, tail: Seq<char>) -> Seq<char> {
    match t {
        Some(s) => label + s + tail,
        None => Seq::empty(),
    }
}

/// The numeral of an optional number.
pub open spec fn opt_numeral(n: Option<i64>) -> Option<Seq<char>> {
    match n {
        Some(x) => Some(signed_decimal(x as int)),
        None => None,
    }
}

/// The line for a call of a model.
pub open spec fn attempt_line_of(a: AttemptRow) -> Seq<char> {
    "  "@ + a.started_at@ + "  "@ + a.provider@ + "/"@ + a.model@ + "  "@ + a.status@ + " x"@
        + signed_decimal(a.attempts as int) + "  "@ + dash(opt_view(a.duration)) + addition(
        "  error="@,
        opt_view(a.error_class),
        ""@,
    ) + addition("  http="@, opt_numeral(a.http_status), ""@) + addition(
        "  retry_after="@,
        opt_numeral(a.retry_after_secs),
        "s"@,
    ) + addition("  ttft="@, opt_view(a.first_token), ""@) + addition(
        "  cache="@,
        opt_view(a.cache),
        ""@,
    )
}

fn add_to(line: &mut String, label: &str, t: &Option<String>, tail: &str)
    ensures
        final(line)@ == old(line)@ + addition(label@, opt_view(*t), tail@),
{
    let ghost before = line@;
    if let Some(s) = t {
        line.append(label);
        line.append(s.as_str());
        line.append(tail);
    }
    assert(line@ =~= before + addition(label@, opt_view(*t), tail@));
}

fn numeral(n: Option<i64>) -> (r: Option<String>)
    ensures
        opt_view(r) == opt_numeral(n),
{
    match n {
        Some(x) => Some(signed_string(x)),
        None => None,
    }
}

/// The line for a call of a model.
pub fn attempt_line(a: &AttemptRow) -> (r: String)
    ensures
        r@ == attempt_line_of(*a),
{
    let mut s = owned("  ");
    s.append(a.started_at.as_str());
    s.append("  ");
    s.append(a.provider.as_str());
    s.append("/");
    s.append(a.model.as_str());
    s.append("  ");
    s.append(a.status.as_str());
    s.append(" x");
    s.append(signed_string(a.attempts).as_str());
    s.append("  ");
    s.append(or_dash(&a.duration).as_str());
    add_to(&mut s, "  error=", &a.error_class, "");
    add_to(&mut s, "  http=", &numeral(a.http_status), "");
    add_to(&mut s, "  retry_after=", &numeral(a.retry_after_secs), "s");
    add_to(&mut s, "  ttft=", &a.first_token, "");
    add_to(&mut s, "  cache=", &a.cache, "");
    s
}

/// The input and the part of it from the cache whose ratio is shown: where
/// both are known and there was any input.
pub fn cache_share(input: Option<i64>, cached: Option<i64>) -> (r: Option<(i64, i64)>)
    ensures
        match (input, cached) {
            (Some(i), Some(c)) => r == (if i > 0 {
                Some((i, c))
            } else {
                None
            }),
            _ => r is None,
        },
{
    match (input, cached) {
        (Some(i), Some(c)) => if i > 0 {
            Some((i, c))
        } else {
            None
        },
        _ => None,
    }
}

/// The run of a tool in a turn.
#[derive(Debug)]
pub struct ToolRow {
    pub tool_name: Option<String>,
    pub started_at: Option<String>,
    pub finished_at: Option<String>,
    pub committed_at: Option<String>,
    pub approval_wait: Option<String>,
    pub duration: Option<String>,
    pub is_error: Option<i64>,
    pub status: String,
}

/// What is remarked on the run of a tool that did not come to its end: it
/// started and never finished, or it finished and its result was not
/// committed.
pub open spec fn tool_remark(t: ToolRow) -> Seq<char> {
    if t.started_at is Some && t.finished_at is None {
        "  ← started but never finished（崩溃/卡住）"@
    } else if t.finished_at is Some && t.committed_at is None && t.status@ != "indeterminate"@ {
        "  ← executed but result not committed"@
    } else {
        Seq::empty()
    }
}

/// The line for the run of a tool.
pub open spec fn tool_line_of(t: ToolRow) -> Seq<char> {
    "  "@ + left_in(
        match opt_view(t.tool_name) {
            Some(n) => n,
            None => "?"@,
        },
        12,
    ) + " "@ + left_in(t.status@, 13) + " exec="@ + dash(opt_view(t.duration)) + addition(
        " approval_wait="@,
        opt_view(t.approval_wait),
        ""@,
    ) + (if t.is_error == Some(1i64) {
        " ERROR"@
    } else {
        Seq::empty()
    }) + tool_remark(t)
}

/// The line for the run of a tool.
pub fn tool_line(t: &ToolRow) -> (r: String)
    ensures
        r@ == tool_line_of(*t),
{
    let name = match &t.tool_name {
        Some(n) => n.clone(),
        None => owned("?"),
    };
    let mut s = owned("  ");
    s.append(pad_right(name.as_str(), 12).as_str());
    s.append(" ");
    s.append(pad_right(t.status.as_str(), 13).as_str());
    s.append(" exec=");
    s.append(or_dash(&t.duration).as_str());
    add_to(&mut s, " approval_wait=", &t.approval_wait, "");
    let failed = match t.is_error {
        Some(n) => n == 1,
        None => false,
    };
    let ghost before = s@;
    if failed {
        s.append(" ERROR");
    }
    assert(s@ =~= before + (if t.is_error == Some(1i64) {
        " ERROR"@
    } else {
        Seq::empty()
    }));
    let ghost marked = s@;
    if t.started_at.is_some() && t.finished_at.is_none() {
        s.append("  ← started but never finished（崩溃/卡住）");
    } else if t.finished_at.is_some() && t.committed_at.is_none() && !same(
        t.status.as_str(),
        "indeterminate",
    ) {
        s.append("  ← executed but result not committed");
    }
    assert(s@ =~= marked + tool_remark(*t));
    s
}

/// An event that tells of an error.
#[derive(Debug)]
pub struct ErrorRow {
    pub occurred_at: String,
    pub session_id: String,
    pub kind: String,
    pub call_id: Option<String>,
    pub journal_seq: Option<i64>,
}

/// The cells for an error.
pub open spec fn error_cells(e: ErrorRow) -> Seq<CellView> {
    seq![
        left_cell(0, e.occurred_at@, 25),
        left_cell(1, ellipsized(e.session_id@, 18), 18),
        left_cell(1, e.kind@, 8),
        left_cell(1, dash(opt_view(e.call_id)), 24),
        left_cell(1, number_or_dash(e.journal_seq), 0),
    ]
}

/// The line for an error.
pub fn error_line(e: &ErrorRow) -> (s: String)
    ensures
        s@ == line_of(error_cells(*e)),
{
    let l = Line::new().left(0, e.occurred_at.as_str(), 25).left(
        1,
        truncate(e.session_id.as_str(), 18).as_str(),
        18,
    ).left(1, e.kind.as_str(), 8).left(1, or_dash(&e.call_id).as_str(), 24).left(
        1,
        show_number(e.journal_seq).as_str(),
        0,
    );
    assert(l@ =~= error_cells(*e));
    l.into_text()
}

/// How long a tool takes.
#[derive(Debug)]
pub struct ToolStats {
    pub tool_name: String,
    pub calls: i64,
    pub errors: i64,
    pub average: String,
    pub longest: String,
    /// How long it waits for approval on average, if it does.
    pub approval_wait: Option<String>,
}

/// The cells for a tool.
pub open spec fn tool_stats_cells(t: ToolStats) -> Seq<CellView> {
    seq![
        left_cell(0, ellipsized(t.tool_name@, 16), 16),
        right_cell(1, signed_decimal(t.calls as int), 6),
        right_cell(1, signed_decimal(t.errors as int), 7),
        right_cell(1, t.average@, 9),
        right_cell(1, t.longest@, 9),
        right_cell(1, dash(opt_view(t.approval_wait)), 12),
    ]
}

/// The line for a tool.
pub fn tool_stats_line(t: &ToolStats) -> (s: String)
    ensures
        s@ == line_of(tool_stats_cells(*t)),
{
    let l = Line::new().left(0, truncate(t.tool_name.as_str(), 16).as_str(), 16).right(
        1,
        signed_string(t.calls).as_str(),
        6,
    ).right(1, signed_string(t.errors).as_str(), 7).right(1, t.average.as_str(), 9).right(
        1,
        t.longest.as_str(),
        9,
    ).right(1, or_dash(&t.approval_wait).as_str(), 12);
    assert(l@ =~= tool_stats_cells(*t));
    l.into_text()
}

/// How long a model takes, and what it was given.
#[derive(Debug)]
pub struct ModelStats {
    pub provider: String,
    pub model: String,
    pub calls: i64,
    pub errors: i64,
    pub average: String,
    pub longest: String,
    pub hit_rate: Option<String>,
    pub input_tokens: i64,
}

/// The cells for a model.
pub open spec fn model_stats_cells(m: ModelStats) -> Seq<CellView> {
    seq![
        left_cell(0, ellipsized(m.provider@, 14), 14),
        left_cell(1, ellipsized(m.model@, 20), 20),
        right_cell(1, signed_decimal(m.calls as int), 6),
        right_cell(1, signed_decimal(m.errors as int), 7),
        right_cell(1, m.average@, 9),
        right_cell(1, m.longest@, 9),
        right_cell(1, dash(opt_view(m.hit_rate)), 10),
        right_cell(1, signed_decimal(m.input_tokens as int), 12),
    ]
}

/// The line for a model.
pub fn model_stats_line(m: &ModelStats) -> (s: String)
    ensures
        s@ == line_of(model_stats_cells(*m)),
{
    let l = Line::new().left(0, truncate(m.provider.as_str(), 14).as_str(), 14).left(
        1,
        truncate(m.model.as_str(), 20).as_str(),
        20,
    ).right(1, signed_string(m.calls).as_str(), 6).right(
        1,
        signed_string(m.errors).as_str(),
        7,
    ).right(1, m.average.as_str(), 9).right(1, m.longest.as_str(), 9).right(
        1,
        or_dash(&m.hit_rate).as_str(),
        10,
    ).right(1, signed_string(m.input_tokens).as_str(), 12);
    assert(l@ =~= model_stats_cells(*m));
    l.into_text()
}

/// What a model had from the cache.
#[derive(Debug)]
pub struct CacheRow {
    pub provider: String,
    pub model: String,
    pub calls: i64,
    pub input_tokens: i64,
    pub cached_input_tokens: i64,
    pub cache_creation_tokens: i64,
    pub hit_rate: Option<String>,
}

/// The cells for what a model had from the cache.
pub open spec fn cache_cells(c: CacheRow) -> Seq<CellView> {
    seq![
        left_cell(0, ellipsized(c.provider@, 14), 14),
        left_cell(1, ellipsized(c.model@, 20), 20),
        right_cell(1, signed_decimal(c.calls as int), 6),
        right_cell(1, signed_decimal(c.input_tokens as int), 14),
        right_cell(1, signed_decimal(c.cached_input_tokens as int), 14),
        right_cell(1, signed_decimal(c.cache_creation_tokens as int), 12),
        right_cell(1, dash(opt_view(c.hit_rate)), 10),
    ]
}

/// The line for what a model had from the cache.
pub fn cache_line(c: &CacheRow) -> (s: String)
    ensures
        s@ == line_of(cache_cells(*c)),
{
    let l = Line::new().left(0, truncate(c.provider.as_str(), 14).as_str(), 14).left(
        1,
        truncate(c.model.as_str(), 20).as_str(),
        20,
    ).right(1, signed_string(c.calls).as_str(), 6).right(
        1,
        signed_string(c.input_tokens).as_str(),
        14,
    ).right(1, signed_string(c.cached_input_tokens).as_str(), 14).right(
        1,
        signed_string(c.cache_creation_tokens).as_str(),
        12,
    ).right(1, or_dash(&c.hit_rate).as_str(), 10);
    assert(l@ =~= cache_cells(*c));
    l.into_text()
}

/// The input of all models together.
pub open spec fn total_input(rows: Seq<CacheRow>) -> int
    decreases rows.len(),
{
    if rows.len() == 0 {
        0
    } else {
        total_input(rows.drop_last()) + rows.last().input_tokens
    }
}

/// What all models together had from the cache.
pub open spec fn total_cached(rows: Seq<CacheRow>) -> int
    decreases rows.len(),
{
    if rows.len() == 0 {
        0
    } else {
        total_cached(rows.drop_last()) + rows.last().cached_input_tokens
    }
}

/// Whether every partial sum of the rows is within range.
pub open spec fn sums_fit(rows: Seq<CacheRow>) -> bool {
    forall|n: int|
        #![trigger rows.take(n)]
        0 <= n <= rows.len() ==> i64::MIN <= total_input(rows.take(n)) <= i64::MAX && i64::MIN
            <= total_cached(rows.take(n)) <= i64::MAX
}

/// The totals of all models: the input, and what came from the cache.
pub fn cache_totals(rows: &Vec<CacheRow>) -> (r: (i64, i64))
    requires
        sums_fit(rows@),
    ensures
        r.0 == total_input(rows@),
        r.1 == total_cached(rows@),
{
    let mut input: i64 = 0;
    let mut cached: i64 = 0;
    let mut i: usize = 0;
    assert(rows@.take(0) =~= Seq::empty());
    while i < rows.len()
        invariant
            i <= rows@.len(),
            sums_fit(rows@),
            input == total_input(rows@.take(i as int)),
            cached == total_cached(rows@.take(i as int)),
        decreases rows@.len() - i,
    {
        proof {
            let t = rows@.take(i as int + 1);
            assert(t.drop_last() =~= rows@.take(i as int));
            assert(t.last() == rows@[i as int]);
        }
        input = input + rows[i].input_tokens;
        cached = cached + rows[i].cached_input_tokens;
        i = i + 1;
    }
    assert(rows@.take(rows@.len() as int) =~= rows@);
    (input, cached)
}

/// The cells below what the models had from the cache.
pub open spec fn total_cells(input: i64, cached: i64) -> Seq<CellView> {
    seq![
        left_cell(0, "TOTAL"@, 14),
        left_cell(1, ""@, 20),
        right_cell(1, ""@, 6),
        right_cell(1, signed_decimal(input as int), 14),
        right_cell(1, signed_decimal(cached as int), 14),
        right_cell(1, ""@, 12),
        right_cell(1, ""@, 10),
    ]
}

/// The line below what the models had from the cache.
pub fn total_line(input: i64, cached: i64) -> (s: String)
    ensures
        s@ == line_of(total_cells(input, cached)),
{
    let l = Line::new().left(0, "TOTAL", 14).left(1, "", 20).right(1, "", 6).right(
        1,
        signed_string(input).as_str(),
        14,
    ).right(1, signed_string(cached).as_str(), 14).right(1, "", 12).right(1, "", 10);
    assert(l@ =~= total_cells(input, cached));
    l.into_text()
}

/// Something that did not come to its end.
#[derive(Debug)]
pub struct AnomalyRow {
    pub anomaly: String,
    pub session_id: String,
    pub subject_id: Option<String>,
    pub occurred_at: Option<String>,
    pub detail: Option<String>,
}

/// The cells for something that did not come to its end.
pub open spec fn anomaly_cells(a: AnomalyRow) -> Seq<CellView> {
    seq![
        left_cell(0, a.anomaly@, 22),
        left_cell(1, ellipsized(a.session_id@, 18), 18),
        left_cell(1, dash(opt_view(a.subject_id)), 38),
        left_cell(1, dash(opt_view(a.occurred_at)), 25),
        left_cell(1, dash(opt_view(a.detail)), 0),
    ]
}

/// The line for something that did not come to its end.
pub fn anomaly_line(a: &AnomalyRow) -> (s: String)
    ensures
        s@ == line_of(anomaly_cells(*a)),
{
    let l = Line::new().left(0, a.anomaly.as_str(), 22).left(
        1,
        truncate(a.session_id.as_str(), 18).as_str(),
        18,
    ).left(1, or_dash(&a.subject_id).as_str(), 38).left(
        1,
        or_dash(&a.occurred_at).as_str(),
        25,
    ).left(1, or_dash(&a.detail).as_str(), 0);
    assert(l@ =~= anomaly_cells(*a));
    l.into_text()
}

/// The health of the database.
#[derive(Debug, Clone, Copy, PartialEq, Eq, Structural)]
pub struct DoctorReport {
    pub total_sessions: i64,
    pub total_events: i64,
    pub open_turns: i64,
    pub running_tools: i64,
    pub uncommitted_results: i64,
    pub indeterminate_tools: i64,
    pub in_flight_compactions: i64,
    pub failed_attempts: i64,
}

/// The line for a count, with a remark where it is not zero.
pub open spec fn count_line(label: Seq<char>, n: i64, remark: Seq<char>) -> Seq<char> {
    label + signed_decimal(n as int) + (if n > 0 {
        remark
    } else {
        Seq::empty()
    })
}

/// The lines of the report on the health of the database.
pub open spec fn doctor_lines_of(d: DoctorReport) -> Seq<Seq<char>> {
    let lines = seq![
        "telemetry doctor"@,
        count_line("  sessions              "@, d.total_sessions, ""@),
        count_line("  events                "@, d.total_events, ""@),
        count_line(
            "  open turns            "@,
            d.open_turns,
            "  ← started but never finished（崩溃候选）"@,
        ),
        count_line(
            "  running tools         "@,
            d.running_tools,
            "  ← started but never finished"@,
        ),
        count_line(
            "  uncommitted results   "@,
            d.uncommitted_results,
            "  ← executed but not committed"@,
        ),
        count_line("  indeterminate tools   "@, d.indeterminate_tools, ""@),
        count_line(
            "  in-flight compactions "@,
            d.in_flight_compactions,
            "  ← started but never committed/failed"@,
        ),
        count_line("  failed model attempts "@, d.failed_attempts, ""@),
    ];
    if d.total_events == 0 {
        lines.push("\n（数据库为空 — 遥测尚未记录任何事件）"@)
    } else {
        lines
    }
}

fn count(label: &str, n: i64, remark: &str) -> (r: String)
    ensures
        r@ == count_line(label@, n, remark@),
{
    let mut s = owned(label);
    s.append(signed_string(n).as_str());
    let ghost before = s@;
    if n > 0 {
        s.append(remark);
    }
    assert(s@ =~= before + (if n > 0 {
        remark@
    } else {
        Seq::empty()
    }));
    s
}

/// The lines of the report on the health of the database.
pub fn doctor_lines(d: DoctorReport) -> (r: Vec<String>)
    ensures
        views(r@) == doctor_lines_of(d),
{
    let mut out: Vec<String> = Vec::new();
    out.push(owned("telemetry doctor"));
    out.push(count("  sessions              ", d.total_sessions, ""));
    out.push(count("  events                ", d.total_events, ""));
    out.push(
        count(
            "  open turns            ",
            d.open_turns,
            "  ← started but never finished（崩溃候选）",
        ),
    );
    out.push(
        count("  running tools         ", d.running_tools, "  ← started but never finished"),
    );
    out.push(
        count("  uncommitted results   ", d.uncommitted_results, "  ← executed but not committed"),
    );
    out.push(count("  indeterminate tools   ", d.indeterminate_tools, ""));
    out.push(
        count(
            "  in-flight compactions ",
            d.in_flight_compactions,
            "  ← started but never committed/failed",
        ),
    );
    out.push(count("  failed model attempts ", d.failed_attempts, ""));
    if d.total_events == 0 {
        out.push(owned("\n（数据库为空 — 遥测尚未记录任何事件）"));
    }
    assert(views(out@) =~= doctor_lines_of(d));
    out
}

/// The query for the events to export, of one session or of all.
pub fn export_query(of_session: bool) -> (r: &'static str)
    ensures
        r@ == (if of_session {
            "SELECT payload_json FROM telemetry_events WHERE session_id = ?1 ORDER BY occurred_at ASC"@
        } else {
            "SELECT payload_json FROM telemetry_events ORDER BY occurred_at ASC"@
        }),
{
    if of_session {
        "SELECT payload_json FROM telemetry_events WHERE session_id = ?1 ORDER BY occurred_at ASC"
    } else {
        "SELECT payload_json FROM telemetry_events ORDER BY occurred_at ASC"
    }
}

/// What the user is told after an export to a file.
pub fn export_notice(count: u64) -> (r: String)
    ensures
        r@ == "已导出 "@ + decimal(count as nat) + " 条事件"@,
{
    let mut s = owned("已导出 ");
    s.append(decimal_string(count).as_str());
    s.append(" 条事件");
    s
}

/// Adds a line for each row.
fn add_lines<T, F: Fn(&T) -> String>(
    out: &mut Vec<String>,
    rows: &Vec<T>,
    line: F,
    Ghost(text): Ghost<spec_fn(T) -> Seq<char>>,
)
    requires
        forall|r: &T| #[trigger] call_requires(line, (r,)),
        forall|r: &T, s: String| #[trigger] call_ensures(line, (r,), s) ==> s@ == text(*r),
    ensures
        views(final(out)@) == views(old(out)@) + rows@.map_values(text),
{
    let ghost before = views(out@);
    let ghost all = rows@.map_values(text);
    let mut i: usize = 0;
    assert(views(out@) =~= before + all.take(0));
    while i < rows.len()
        invariant
            i <= rows@.len(),
            all == rows@.map_values(text),
            forall|r: &T| #[trigger] call_requires(line, (r,)),
            forall|r: &T, s: String| #[trigger] call_ensures(line, (r,), s) ==> s@ == text(*r),
            views(out@) == before + all.take(i as int),
        decreases rows@.len() - i,
    {
        let s = line(&rows[i]);
        proof {
            lemma_views_push(out@, s);
            assert(s@ == all[i as int]);
            assert(before + all.take(i as int + 1) =~= (before + all.take(i as int)).push(s@));
        }
        out.push(s);
        i = i + 1;
    }
    assert(all.take(all.len() as int) =~= all);
}

/// The cells above the sessions.
pub open spec fn sessions_head() -> Seq<CellView> {
    seq![
        left_cell(0, "SESSION"@, 38),
        left_cell(1, "RUN"@, 12),
        left_cell(1, "TURNS"@, 10),
        right_cell(1, ""@, 5),
        left_cell(2, "MODEL"@, 20),
        left_cell(1, "STARTED"@, 0),
    ]
}

fn sessions_header() -> (r: String)
    ensures
        r@ == line_of(sessions_head()),
{
    let l = Line::new().left(0, "SESSION", 38).left(1, "RUN", 12).left(1, "TURNS", 10).right(1, "", 5).left(2, "MODEL", 20).left(1, "STARTED", 0);
    assert(l@ =~= sessions_head());
    l.into_text()
}

/// The lines for sessions.
pub open spec fn sessions_lines_of(rows: Seq<SessionRow>) -> Seq<Seq<char>> {
    rows.map_values(|r: SessionRow| line_of(session_cells(r)))
}

/// The lines for sessions, with a line above them; a notice where there are none.
pub fn sessions(rows: &Vec<SessionRow>) -> (r: Vec<String>)
    ensures
        views(r@) == (if rows@.len() == 0 {
            seq!["（无会话记录）"@]
        } else {
            seq![line_of(sessions_head())] + sessions_lines_of(rows@)
        }),
{
    let mut out: Vec<String> = Vec::new();
    if rows.len() == 0 {
        out.push(owned("（无会话记录）"));
        assert(views(out@) =~= seq!["（无会话记录）"@]);
        return out;
    }
    out.push(sessions_header());
    assert(views(out@) =~= seq![line_of(sessions_head())]);
    add_lines(&mut out, rows, session_line, Ghost(|r: SessionRow| line_of(session_cells(r))));
    out
}

/// The cells above the turns of a session.
pub open spec fn session_head() -> Seq<CellView> {
    seq![
        left_cell(0, "TURN"@, 38),
        left_cell(1, "STATUS"@, 11),
        left_cell(1, "REASON"@, 9),
        right_cell(1, "STEPS"@, 5),
        right_cell(1, "MODEL"@, 6),
        right_cell(1, "TOOLS"@, 6),
        right_cell(1, "RETRIES"@, 7),
        right_cell(1, "DURATION"@, 9),
        left_cell(2, "STARTED"@, 0),
    ]
}

fn session_header() -> (r: String)
    ensures
        r@ == line_of(session_head()),
{
    let l = Line::new().left(0, "TURN", 38).left(1, "STATUS", 11).left(1, "REASON", 9).right(1, "STEPS", 5).right(1, "MODEL", 6).right(1, "TOOLS", 6).right(1, "RETRIES", 7).right(1, "DURATION", 9).left(2, "STARTED", 0);
    assert(l@ =~= session_head());
    l.into_text()
}

/// The lines for the turns of a session.
pub open spec fn session_lines_of(rows: Seq<TurnRow>) -> Seq<Seq<char>> {
    rows.map_values(|r: TurnRow| line_of(turn_cells(r)))
}

/// The lines for the turns of a session, with a line above them. Where there are none, the error
/// is the message for the user.
pub fn session(session_id: &str, rows: &Vec<TurnRow>) -> (r: Result<Vec<String>, String>)
    ensures
        if rows@.len() == 0 {
            r matches Err(m) && m@ == "未找到会话 "@ + session_id@ + " 的 Turn 记录"@
        } else {
            r matches Ok(ls) && views(ls@) == seq![line_of(session_head())] + session_lines_of(rows@)
        },
{
    if rows.len() == 0 {
        let mut m = owned("未找到会话 ");
        m.append(session_id);
        m.append(" 的 Turn 记录");
        return Err(m);
    }
    let mut out: Vec<String> = Vec::new();
    out.push(session_header());
    assert(views(out@) =~= seq![line_of(session_head())]);
    add_lines(&mut out, rows, turn_line, Ghost(|r: TurnRow| line_of(turn_cells(r))));
    Ok(out)
}

/// The cells above a timeline.
pub open spec fn timeline_head() -> Seq<CellView> {
    seq![
        left_cell(0, "TURN"@, 38),
        left_cell(1, "STATUS"@, 11),
        left_cell(1, "REASON"@, 22),
        right_cell(1, "DURATION"@, 9),
        right_cell(1, "STEPS"@, 5),
        right_cell(1, "MODEL"@, 5),
        right_cell(1, "TOOLS"@, 5),
        right_cell(1, "RETRIES"@, 7),
        left_cell(2, "STARTED"@, 0),
    ]
}

fn timeline_header() -> (r: String)
    ensures
        r@ == line_of(timeline_head()),
{
    let l = Line::new().left(0, "TURN", 38).left(1, "STATUS", 11).left(1, "REASON", 22).right(1, "DURATION", 9).right(1, "STEPS", 5).right(1, "MODEL", 5).right(1, "TOOLS", 5).right(1, "RETRIES", 7).left(2, "STARTED", 0);
    assert(l@ =~= timeline_head());
    l.into_text()
}

/// The lines for a timeline.
pub open spec fn timeline_lines_of(rows: Seq<TurnRow>) -> Seq<Seq<char>> {
    rows.map_values(|r: TurnRow| line_of(timeline_cells(r)))
}

/// The lines for a timeline, with a line above them. Where there are none, the error
/// is the message for the user.
pub fn timeline(session_id: &str, rows: &Vec<TurnRow>) -> (r: Result<Vec<String>, String>)
    ensures
        if rows@.len() == 0 {
            r matches Err(m) && m@ == "未找到会话 "@ + session_id@ + " 的 timeline 记录"@
        } else {
            r matches Ok(ls) && views(ls@) == seq![line_of(timeline_head())] + timeline_lines_of(rows@)
        },
{
    if rows.len() == 0 {
        let mut m = owned("未找到会话 ");
        m.append(session_id);
        m.append(" 的 timeline 记录");
        return Err(m);
    }
    let mut out: Vec<String> = Vec::new();
    out.push(timeline_header());
    assert(views(out@) =~= seq![line_of(timeline_head())]);
    add_lines(&mut out, rows, timeline_line, Ghost(|r: TurnRow| line_of(timeline_cells(r))));
    Ok(out)
}

/// The cells above the errors.
pub open spec fn errors_head() -> Seq<CellView> {
    seq![
        left_cell(0, "TIME"@, 25),
        left_cell(1, "SESSION"@, 18),
        left_cell(1, "KIND"@, 8),
        left_cell(1, "CALL"@, 0),
        left_cell(2, "SEQ"@, 0),
    ]
}

fn errors_header() -> (r: String)
    ensures
        r@ == line_of(errors_head()),
{
    let l = Line::new().left(0, "TIME", 25).left(1, "SESSION", 18).left(1, "KIND", 8).left(1, "CALL", 0).left(2, "SEQ", 0);
    assert(l@ =~= errors_head());
    l.into_text()
}

/// The lines for errors.
pub open spec fn errors_lines_of(rows: Seq<ErrorRow>) -> Seq<Seq<char>> {
    rows.map_values(|r: ErrorRow| line_of(error_cells(r)))
}

/// The lines for errors, with a line above them; a notice where there are none.
pub fn errors(rows: &Vec<ErrorRow>) -> (r: Vec<String>)
    ensures
        views(r@) == (if rows@.len() == 0 {
            seq!["（无 error 级事件）"@]
        } else {
            seq![line_of(errors_head())] + errors_lines_of(rows@)
        }),
{
    let mut out: Vec<String> = Vec::new();
    if rows.len() == 0 {
        out.push(owned("（无 error 级事件）"));
        assert(views(out@) =~= seq!["（无 error 级事件）"@]);
        return out;
    }
    out.push(errors_header());
    assert(views(out@) =~= seq![line_of(errors_head())]);
    add_lines(&mut out, rows, error_line, Ghost(|r: ErrorRow| line_of(error_cells(r))));
    out
}

/// The cells above the tools.
pub open spec fn slow_tools_head() -> Seq<CellView> {
    seq![
        left_cell(0, "TOOL"@, 16),
        right_cell(1, "CALLS"@, 6),
        right_cell(1, "ERRORS"@, 7),
        right_cell(1, "AVG"@, 9),
        right_cell(1, "MAX"@, 9),
        right_cell(1, "AVG_APPROVAL_WAIT"@, 12),
    ]
}

fn slow_tools_header() -> (r: String)
    ensures
        r@ == line_of(slow_tools_head()),
{
    let l = Line::new().left(0, "TOOL", 16).right(1, "CALLS", 6).right(1, "ERRORS", 7).right(1, "AVG", 9).right(1, "MAX", 9).right(1, "AVG_APPROVAL_WAIT", 12);
    assert(l@ =~= slow_tools_head());
    l.into_text()
}

/// The lines for tools.
pub open spec fn slow_tools_lines_of(rows: Seq<ToolStats>) -> Seq<Seq<char>> {
    rows.map_values(|r: ToolStats| line_of(tool_stats_cells(r)))
}

/// The lines for tools, with a line above them; a notice where there are none.
pub fn slow_tools(rows: &Vec<ToolStats>) -> (r: Vec<String>)
    ensures
        views(r@) == (if rows@.len() == 0 {
            seq!["（无工具耗时记录）"@]
        } else {
            seq![line_of(slow_tools_head())] + slow_tools_lines_of(rows@)
        }),
{
    let mut out: Vec<String> = Vec::new();
    if rows.len() == 0 {
        out.push(owned("（无工具耗时记录）"));
        assert(views(out@) =~= seq!["（无工具耗时记录）"@]);
        return out;
    }
    out.push(slow_tools_header());
    assert(views(out@) =~= seq![line_of(slow_tools_head())]);
    add_lines(&mut out, rows, tool_stats_line, Ghost(|r: ToolStats| line_of(tool_stats_cells(r))));
    out
}

/// The cells above the models.
pub open spec fn slow_models_head() -> Seq<CellView> {
    seq![
        left_cell(0, "PROVIDER"@, 14),
        left_cell(1, "MODEL"@, 20),
        right_cell(1, "CALLS"@, 6),
        right_cell(1, "ERRORS"@, 7),
        right_cell(1, "AVG"@, 9),
        right_cell(1, "MAX"@, 9),
        right_cell(1, "CACHE_HIT"@, 10),
        right_cell(1, "INPUT_TOKENS"@, 12),
    ]
}

fn slow_models_header() -> (r: String)
    ensures
        r@ == line_of(slow_models_head()),
{
    let l = Line::new().left(0, "PROVIDER", 14).left(1, "MODEL", 20).right(1, "CALLS", 6).right(1, "ERRORS", 7).right(1, "AVG", 9).right(1, "MAX", 9).right(1, "CACHE_HIT", 10).right(1, "INPUT_TOKENS", 12);
    assert(l@ =~= slow_models_head());
    l.into_text()
}

/// The lines for models.
pub open spec fn slow_models_lines_of(rows: Seq<ModelStats>) -> Seq<Seq<char>> {
    rows.map_values(|r: ModelStats| line_of(model_stats_cells(r)))
}

/// The lines for models, with a line above them; a notice where there are none.
pub fn slow_models(rows: &Vec<ModelStats>) -> (r: Vec<String>)
    ensures
        views(r@) == (if rows@.len() == 0 {
            seq!["（无模型调用记录）"@]
        } else {
            seq![line_of(slow_models_head())] + slow_models_lines_of(rows@)
        }),
{
    let mut out: Vec<String> = Vec::new();
    if rows.len() == 0 {
        out.push(owned("（无模型调用记录）"));
        assert(views(out@) =~= seq!["（无模型调用记录）"@]);
        return out;
    }
    out.push(slow_models_header());
    assert(views(out@) =~= seq![line_of(slow_models_head())]);
    add_lines(&mut out, rows, model_stats_line, Ghost(|r: ModelStats| line_of(model_stats_cells(r))));
    out
}

/// The cells above what did not come to its end.
pub open spec fn recovery_head() -> Seq<CellView> {
    seq![
        left_cell(0, "ANOMALY"@, 22),
        left_cell(1, "SESSION"@, 18),
        left_cell(1, "SUBJECT"@, 38),
        left_cell(1, "OCCURRED"@, 25),
        left_cell(1, "DETAIL"@, 0),
    ]
}

fn recovery_header() -> (r: String)
    ensures
        r@ == line_of(recovery_head()),
{
    let l = Line::new().left(0, "ANOMALY", 22).left(1, "SESSION", 18).left(1, "SUBJECT", 38).left(1, "OCCURRED", 25).left(1, "DETAIL", 0);
    assert(l@ =~= recovery_head());
    l.into_text()
}

/// The lines for what did not come to its end.
pub open spec fn recovery_lines_of(rows: Seq<AnomalyRow>) -> Seq<Seq<char>> {
    rows.map_values(|r: AnomalyRow| line_of(anomaly_cells(r)))
}

/// The lines for what did not come to its end, with a line above them; a notice where there are none.
pub fn recovery(rows: &Vec<AnomalyRow>) -> (r: Vec<String>)
    ensures
        views(r@) == (if rows@.len() == 0 {
            seq!["（无生命周期异常 — 所有 Turn/工具/结果都已闭环）"@]
        } else {
            seq![line_of(recovery_head())] + recovery_lines_of(rows@)
        }),
{
    let mut out: Vec<String> = Vec::new();
    if rows.len() == 0 {
        out.push(owned("（无生命周期异常 — 所有 Turn/工具/结果都已闭环）"));
        assert(views(out@) =~= seq!["（无生命周期异常 — 所有 Turn/工具/结果都已闭环）"@]);
        return out;
    }
    out.push(recovery_header());
    assert(views(out@) =~= seq![line_of(recovery_head())]);
    add_lines(&mut out, rows, anomaly_line, Ghost(|r: AnomalyRow| line_of(anomaly_cells(r))));
    out
}

/// The cells above what the models had from the cache.
pub open spec fn cache_head() -> Seq<CellView> {
    seq![
        left_cell(0, "PROVIDER"@, 14),
        left_cell(1, "MODEL"@, 20),
        right_cell(1, "CALLS"@, 6),
        right_cell(1, "INPUT_TOKENS"@, 14),
        right_cell(1, "CACHED"@, 14),
        right_cell(1, "CREATED"@, 12),
        right_cell(1, "HIT_RATE"@, 10),
    ]
}

fn cache_header() -> (r: String)
    ensures
        r@ == line_of(cache_head()),
{
    let l = Line::new().left(0, "PROVIDER", 14).left(1, "MODEL", 20).right(1, "CALLS", 6).right(1, "INPUT_TOKENS", 14).right(1, "CACHED", 14).right(1, "CREATED", 12).right(1, "HIT_RATE", 10);
    assert(l@ =~= cache_head());
    l.into_text()
}

/// The lines for what the models had from the cache.
pub open spec fn cache_lines_of(rows: Seq<CacheRow>) -> Seq<Seq<char>> {
    rows.map_values(|r: CacheRow| line_of(cache_cells(r)))
}

/// The lines for what the models had from the cache, with a line above them and
/// the totals below; a notice where there are none.
pub fn cache(rows: &Vec<CacheRow>) -> (r: Vec<String>)
    requires
        sums_fit(rows@),
    ensures
        views(r@) == (if rows@.len() == 0 {
            seq!["（无缓存数据 — 尚未记录任何带 usage 的模型调用）"@]
        } else {
            seq![line_of(cache_head())] + cache_lines_of(rows@) + seq![
                line_of(total_cells(total_input(rows@) as i64, total_cached(rows@) as i64)),
            ]
        }),
{
    let mut out: Vec<String> = Vec::new();
    if rows.len() == 0 {
        out.push(owned("（无缓存数据 — 尚未记录任何带 usage 的模型调用）"));
        assert(views(out@) =~= seq!["（无缓存数据 — 尚未记录任何带 usage 的模型调用）"@]);
        return out;
    }
    out.push(cache_header());
    assert(views(out@) =~= seq![line_of(cache_head())]);
    add_lines(&mut out, rows, cache_line, Ghost(|r: CacheRow| line_of(cache_cells(r))));
    let (input, cached) = cache_totals(rows);
    let total = total_line(input, cached);
    proof {
        lemma_views_push(out@, total);
        assert(views(out@).push(total@) =~= views(out@) + seq![total@]);
    }
    out.push(total);
    out
}

/// The lines for the calls of models in a turn.
pub open spec fn attempt_lines_of(rows: Seq<AttemptRow>) -> Seq<Seq<char>> {
    if rows.len() == 0 {
        Seq::empty()
    } else {
        seq!["model attempts:"@] + rows.map_values(|a: AttemptRow| attempt_line_of(a))
    }
}

/// The lines for the runs of tools in a turn.
pub open spec fn tool_lines_of(rows: Seq<ToolRow>) -> Seq<Seq<char>> {
    if rows.len() == 0 {
        Seq::empty()
    } else {
        seq!["tool executions:"@] + rows.map_values(|t: ToolRow| tool_line_of(t))
    }
}

fn add_attempts(out: &mut Vec<String>, rows: &Vec<AttemptRow>)
    ensures
        views(final(out)@) == views(old(out)@) + attempt_lines_of(rows@),
{
    let ghost before = views(out@);
    if rows.len() == 0 {
        assert(views(out@) =~= before + attempt_lines_of(rows@));
        return ;
    }
    out.push(owned("model attempts:"));
    assert(views(out@) =~= before + seq!["model attempts:"@]);
    add_lines(out, rows, attempt_line, Ghost(|a: AttemptRow| attempt_line_of(a)));
    assert(views(out@) =~= before + attempt_lines_of(rows@));
}

fn add_tools(out: &mut Vec<String>, rows: &Vec<ToolRow>)
    ensures
        views(final(out)@) == views(old(out)@) + tool_lines_of(rows@),
{
    let ghost before = views(out@);
    if rows.len() == 0 {
        assert(views(out@) =~= before + tool_lines_of(rows@));
        return ;
    }
    out.push(owned("tool executions:"));
    assert(views(out@) =~= before + seq!["tool executions:"@]);
    add_lines(out, rows, tool_line, Ghost(|t: ToolRow| tool_line_of(t)));
    assert(views(out@) =~= before + tool_lines_of(rows@));
}

/// The account of a turn: its head, the calls of models and the runs of tools.
/// Where there is no such turn, the error is the message for the user.
pub fn turn_detail(
    turn_id: &str,
    turn: &Option<TurnRow>,
    attempts: &Vec<AttemptRow>,
    tools: &Vec<ToolRow>,
) -> (r: Result<Vec<String>, String>)
    ensures
        match turn {
            None => r matches Err(m) && m@ == "未找到 Turn "@ + turn_id@,
            Some(t) => r matches Ok(ls) && views(ls@) == turn_head_of(*t) + attempt_lines_of(
                attempts@,
            ) + tool_lines_of(tools@),
        },
{
    match turn {
        None => {
            let mut m = owned("未找到 Turn ");
            m.append(turn_id);
            Err(m)
        },
        Some(t) => {
            let mut out = turn_head(t);
            add_attempts(&mut out, attempts);
            add_tools(&mut out, tools);
            Ok(out)
        },
    }
}

/// A run that came to its end is not remarked on: it finished, its result was
/// committed, or nobody knows how it ended.
pub proof fn finished_runs_are_not_remarked_on(t: ToolRow)
    ensures
        tool_remark(t).len() == 0 <==> (t.started_at is Some ==> t.finished_at is Some) && (
        t.finished_at is Some ==> t.committed_at is Some || t.status@ == "indeterminate"@),
{
    reveal_strlit("  ← started but never finished（崩溃/卡住）");
    reveal_strlit("  ← executed but result not committed");
}

/// A session is shown under its headings.
pub proof fn sessions_are_shown_under_their_headings(rows: Seq<SessionRow>, i: int)
    requires
        0 <= i < rows.len(),
    ensures
        ({
            let r = rows[i];
            let heads = sessions_head();
            let cells = session_cells(r);
            &&& sessions_lines_of(rows).len() == rows.len()
            &&& sessions_lines_of(rows)[i] == line_of(cells)
            &&& heads.len() == 6
            &&& cells.len() == 6
            &&& heads[0].text == "SESSION"@ && cells[0].text == ellipsized(r.session_id@, 38)
            &&& heads[1].text == "RUN"@ && cells[1].text == ellipsized(r.run_id@, 12)
            &&& heads[2].text == "TURNS"@ && cells[2].text == signed_decimal(r.turn_count as int)
            &&& cells[3].text.len() == 0
            &&& heads[4].text == "MODEL"@ && cells[4].text == (match (r.model_provider, r.model) {
                (Some(p), Some(m)) => p@ + "/"@ + m@,
                _ => "-"@,
            })
            &&& heads[5].text == "STARTED"@ && cells[5].text == (match r.started_at {
                Some(s) => s@,
                None => "-"@,
            })
            &&& forall|k: int|
                #![trigger heads[k]]
                #![trigger cells[k]]
                0 <= k < 6 ==> heads[k].gap == cells[k].gap && heads[k].width == cells[k].width && heads[k].right
                    == cells[k].right
        }),
{
}

/// A turn of a session is shown under its headings.
pub proof fn turns_are_shown_under_their_headings(rows: Seq<TurnRow>, i: int)
    requires
        0 <= i < rows.len(),
    ensures
        ({
            let r = rows[i];
            let heads = session_head();
            let cells = turn_cells(r);
            &&& session_lines_of(rows).len() == rows.len()
            &&& session_lines_of(rows)[i] == line_of(cells)
            &&& heads.len() == 9
            &&& cells.len() == 9
            &&& heads[0].text == "TURN"@ && cells[0].text == ellipsized(r.turn_id@, 38)
            &&& heads[1].text == "STATUS"@ && cells[1].text == r.status@
            &&& heads[2].text == "REASON"@ && cells[2].text == (match r.termination_reason {
                Some(s) => s@,
                None => "-"@,
            })
            &&& heads[3].text == "STEPS"@ && cells[3].text == (match r.steps {
                Some(n) => signed_decimal(n as int),
                None => "-"@,
            })
            &&& heads[4].text == "MODEL"@ && cells[4].text == (match r.model_calls {
                Some(n) => signed_decimal(n as int),
                None => "-"@,
            })
            &&& heads[5].text == "TOOLS"@ && cells[5].text == (match r.tool_calls {
                Some(n) => signed_decimal(n as int),
                None => "-"@,
            })
            &&& heads[6].text == "RETRIES"@ && cells[6].text == (match r.retries {
                Some(n) => signed_decimal(n as int),
                None => "-"@,
            })
            &&& heads[7].text == "DURATION"@ && cells[7].text == (match r.duration {
                Some(s) => s@,
                None => "-"@,
            })
            &&& heads[8].text == "STARTED"@ && cells[8].text == (match r.started_at {
                Some(s) => s@,
                None => "-"@,
            })
            &&& forall|k: int|
                #![trigger heads[k]]
                #![trigger cells[k]]
                0 <= k < 9 ==> heads[k].gap == cells[k].gap && heads[k].width == cells[k].width && heads[k].right
                    == cells[k].right
        }),
{
}

/// A turn on the time line is shown under its headings.
pub proof fn timelines_are_shown_under_their_headings(rows: Seq<TurnRow>, i: int)
    requires
        0 <= i < rows.len(),
    ensures
        ({
            let r = rows[i];
            let heads = timeline_head();
            let cells = timeline_cells(r);
            &&& timeline_lines_of(rows).len() == rows.len()
            &&& timeline_lines_of(rows)[i] == line_of(cells)
            &&& heads.len() == 9
            &&& cells.len() == 9
            &&& heads[0].text == "TURN"@ && cells[0].text == ellipsized(r.turn_id@, 38)
            &&& heads[1].text == "STATUS"@ && cells[1].text == r.status@
            &&& heads[2].text == "REASON"@ && cells[2].text == (match r.termination_reason {
                Some(s) => s@,
                None => "-"@,
            })
            &&& heads[3].text == "DURATION"@ && cells[3].text == (match r.duration {
                Some(s) => s@,
                None => "-"@,
            })
            &&& heads[4].text == "STEPS"@ && cells[4].text == (match r.steps {
                Some(n) => signed_decimal(n as int),
                None => "-"@,
            })
            &&& heads[5].text == "MODEL"@ && cells[5].text == (match r.model_calls {
                Some(n) => signed_decimal(n as int),
                None => "-"@,
            })
            &&& heads[6].text == "TOOLS"@ && cells[6].text == (match r.tool_calls {
                Some(n) => signed_decimal(n as int),
                None => "-"@,
            })
            &&& heads[7].text == "RETRIES"@ && cells[7].text == (match r.retries {
                Some(n) => signed_decimal(n as int),
                None => "-"@,
            })
            &&& heads[8].text == "STARTED"@ && cells[8].text == (match r.started_at {
                Some(s) => s@,
                None => "-"@,
            })
            &&& forall|k: int|
                #![trigger heads[k]]
                #![trigger cells[k]]
                0 <= k < 9 ==> heads[k].gap == cells[k].gap && heads[k].width == cells[k].width && heads[k].right
                    == cells[k].right
        }),
{
}

/// An error is shown under its headings.
pub proof fn errors_are_shown_under_their_headings(rows: Seq<ErrorRow>, i: int)
    requires
        0 <= i < rows.len(),
    ensures
        ({
            let r = rows[i];
            let heads = errors_head();
            let cells = error_cells(r);
            &&& errors_lines_of(rows).len() == rows.len()
            &&& errors_lines_of(rows)[i] == line_of(cells)
            &&& heads.len() == 5
            &&& cells.len() == 5
            &&& heads[0].text == "TIME"@ && cells[0].text == r.occurred_at@
            &&& heads[1].text == "SESSION"@ && cells[1].text == ellipsized(r.session_id@, 18)
            &&& heads[2].text == "KIND"@ && cells[2].text == r.kind@
            &&& heads[3].text == "CALL"@ && cells[3].text == (match r.call_id {
                Some(s) => s@,
                None => "-"@,
            })
            &&& heads[4].text == "SEQ"@ && cells[4].text == (match r.journal_seq {
                Some(n) => signed_decimal(n as int),
                None => "-"@,
            })
        }),
{
}

/// A tool is shown under its headings.
pub proof fn slow_tools_are_shown_under_their_headings(rows: Seq<ToolStats>, i: int)
    requires
        0 <= i < rows.len(),
    ensures
        ({
            let r = rows[i];
            let heads = slow_tools_head();
            let cells = tool_stats_cells(r);
            &&& slow_tools_lines_of(rows).len() == rows.len()
            &&& slow_tools_lines_of(rows)[i] == line_of(cells)
            &&& heads.len() == 6
            &&& cells.len() == 6
            &&& heads[0].text == "TOOL"@ && cells[0].text == ellipsized(r.tool_name@, 16)
            &&& heads[1].text == "CALLS"@ && cells[1].text == signed_decimal(r.calls as int)
            &&& heads[2].text == "ERRORS"@ && cells[2].text == signed_decimal(r.errors as int)
            &&& heads[3].text == "AVG"@ && cells[3].text == r.average@
            &&& heads[4].text == "MAX"@ && cells[4].text == r.longest@
            &&& heads[5].text == "AVG_APPROVAL_WAIT"@ && cells[5].text == (match r.approval_wait {
                Some(s) => s@,
                None => "-"@,
            })
            &&& forall|k: int|
                #![trigger heads[k]]
                #![trigger cells[k]]
                0 <= k < 6 ==> heads[k].gap == cells[k].gap && heads[k].width == cells[k].width && heads[k].right
                    == cells[k].right
        }),
{
}

/// A model is shown under its headings.
pub proof fn slow_models_are_shown_under_their_headings(rows: Seq<ModelStats>, i: int)
    requires
        0 <= i < rows.len(),
    ensures
        ({
            let r = rows[i];
            let heads = slow_models_head();
            let cells = model_stats_cells(r);
            &&& slow_models_lines_of(rows).len() == rows.len()
            &&& slow_models_lines_of(rows)[i] == line_of(cells)
            &&& heads.len() == 8
            &&& cells.len() == 8
            &&& heads[0].text == "PROVIDER"@ && cells[0].text == ellipsized(r.provider@, 14)
            &&& heads[1].text == "MODEL"@ && cells[1].text == ellipsized(r.model@, 20)
            &&& heads[2].text == "CALLS"@ && cells[2].text == signed_decimal(r.calls as int)
            &&& heads[3].text == "ERRORS"@ && cells[3].text == signed_decimal(r.errors as int)
            &&& heads[4].text == "AVG"@ && cells[4].text == r.average@
            &&& heads[5].text == "MAX"@ && cells[5].text == r.longest@
            &&& heads[6].text == "CACHE_HIT"@ && cells[6].text == (match r.hit_rate {
                Some(s) => s@,
                None => "-"@,
            })
            &&& heads[7].text == "INPUT_TOKENS"@ && cells[7].text == signed_decimal(r.input_tokens as int)
            &&& forall|k: int|
                #![trigger heads[k]]
                #![trigger cells[k]]
                0 <= k < 8 ==> heads[k].gap == cells[k].gap && heads[k].width == cells[k].width && heads[k].right
                    == cells[k].right
        }),
{
}

/// An anomaly is shown under its headings.
pub proof fn anomalies_are_shown_under_their_headings(rows: Seq<AnomalyRow>, i: int)
    requires
        0 <= i < rows.len(),
    ensures
        ({
            let r = rows[i];
            let heads = recovery_head();
            let cells = anomaly_cells(r);
            &&& recovery_lines_of(rows).len() == rows.len()
            &&& recovery_lines_of(rows)[i] == line_of(cells)
            &&& heads.len() == 5
            &&& cells.len() == 5
            &&& heads[0].text == "ANOMALY"@ && cells[0].text == r.anomaly@
            &&& heads[1].text == "SESSION"@ && cells[1].text == ellipsized(r.session_id@, 18)
            &&& heads[2].text == "SUBJECT"@ && cells[2].text == (match r.subject_id {
                Some(s) => s@,
                None => "-"@,
            })
            &&& heads[3].text == "OCCURRED"@ && cells[3].text == (match r.occurred_at {
                Some(s) => s@,
                None => "-"@,
            })
            &&& heads[4].text == "DETAIL"@ && cells[4].text == (match r.detail {
                Some(s) => s@,
                None => "-"@,
            })
            &&& forall|k: int|
                #![trigger heads[k]]
                #![trigger cells[k]]
                0 <= k < 5 ==> heads[k].gap == cells[k].gap && heads[k].width == cells[k].width && heads[k].right
                    == cells[k].right
        }),
{
}

/// The use of a cache is shown under its headings.
pub proof fn caches_are_shown_under_their_headings(rows: Seq<CacheRow>, i: int)
    requires
        0 <= i < rows.len(),
    ensures
        ({
            let r = rows[i];
            let heads = cache_head();
            let cells = cache_cells(r);
            &&& cache_lines_of(rows).len() == rows.len()
            &&& cache_lines_of(rows)[i] == line_of(cells)
            &&& heads.len() == 7
            &&& cells.len() == 7
            &&& heads[0].text == "PROVIDER"@ && cells[0].text == ellipsized(r.provider@, 14)
            &&& heads[1].text == "MODEL"@ && cells[1].text == ellipsized(r.model@, 20)
            &&& heads[2].text == "CALLS"@ && cells[2].text == signed_decimal(r.calls as int)
            &&& heads[3].text == "INPUT_TOKENS"@ && cells[3].text == signed_decimal(r.input_tokens as int)
            &&& heads[4].text == "CACHED"@ && cells[4].text == signed_decimal(r.cached_input_tokens as int)
            &&& heads[5].text == "CREATED"@ && cells[5].text == signed_decimal(r.cache_creation_tokens as int)
            &&& heads[6].text == "HIT_RATE"@ && cells[6].text == (match r.hit_rate {
                Some(s) => s@,
                None => "-"@,
            })
            &&& forall|k: int|
                #![trigger heads[k]]
                #![trigger cells[k]]
                0 <= k < 7 ==> heads[k].gap == cells[k].gap && heads[k].width == cells[k].width && heads[k].right
                    == cells[k].right
        }),
{
}


/// The whole of all rows is the sum of each.
pub proof fn totals_are_sums(rows: Seq<CacheRow>, r: CacheRow)
    ensures
        total_input(rows.push(r)) == total_input(rows) + r.input_tokens,
        total_cached(rows.push(r)) == total_cached(rows) + r.cached_input_tokens,
        total_input(Seq::empty()) == 0,
        total_cached(Seq::empty()) == 0,
{
    assert(rows.push(r).drop_last() =~= rows);
}

/// The line of totals stands under the headings of the table.
pub proof fn totals_are_shown_under_their_headings(input: i64, cached: i64)
    ensures
        ({
            let heads = cache_head();
            let cells = total_cells(input, cached);
            &&& cells.len() == heads.len()
            &&& cells[0].text == "TOTAL"@
            &&& heads[3].text == "INPUT_TOKENS"@ && cells[3].text == signed_decimal(input as int)
            &&& heads[4].text == "CACHED"@ && cells[4].text == signed_decimal(cached as int)
            &&& forall|k: int|
                #![trigger heads[k]]
                #![trigger cells[k]]
                0 <= k < 7 ==> heads[k].gap == cells[k].gap && heads[k].width == cells[k].width
                    && heads[k].right == cells[k].right
        }),
{
}

/// The database is the one that is named, else that of the environment, else
/// the one in the home directory.
pub proof fn databases_have_their_place(
    env: Option<Seq<char>>,
    home: Option<Seq<char>>,
    p: Seq<char>,
)
    ensures
        database_path(Some(p), env, home) == Some(p),
        database_path(None, Some(p), home) == Some(p),
        p.len() > 0 && p.last() != '/' ==> database_path(None, None, Some(p)) == Some(
            p + "/"@ + ".grodex"@ + "/"@ + "telemetry.db"@,
        ),
        database_path(None, None, None) is None,
{
    reveal_strlit(".grodex");
    reveal_strlit("telemetry.db");
    reveal_strlit("/");
    if p.len() > 0 && p.last() != '/' {
        crate::paths::paths_are_joined_by_one_slash(p, ".grodex"@);
        let g = p + "/"@ + ".grodex"@;
        assert(g.last() == 'x');
        crate::paths::paths_are_joined_by_one_slash(g, "telemetry.db"@);
        assert(joined_path(joined_path(p, ".grodex"@), "telemetry.db"@) =~= p + "/"@ + ".grodex"@ + "/"@
            + "telemetry.db"@);
    }
}

/// A run of a tool that began and never ended is remarked on, and so is one
/// whose result was not kept, unless nobody knows how it ended.
pub proof fn unfinished_runs_are_remarked_on(t: ToolRow)
    ensures
        t.started_at is Some && t.finished_at is None ==> crate::text::contains_text(
            tool_remark(t),
            "never finished"@,
        ),
        t.finished_at is Some && t.committed_at is None && t.status@ != "indeterminate"@
            ==> crate::text::contains_text(tool_remark(t), "not committed"@),
        t.finished_at is Some && (t.committed_at is Some || t.status@ == "indeterminate"@)
            ==> tool_remark(t).len() == 0,
        t.started_at is None && t.finished_at is None ==> tool_remark(t).len() == 0,
{
    assert("  ← started but never finished（崩溃/卡住）"@ =~= "  ← started but "@ + "never finished"@
        + "（崩溃/卡住）"@) by {
        reveal_strlit("  ← started but never finished（崩溃/卡住）");
        reveal_strlit("  ← started but ");
        reveal_strlit("never finished");
        reveal_strlit("（崩溃/卡住）");
    }
    crate::text::parts_stand_in_the_whole("  ← started but "@, "never finished"@, "（崩溃/卡住）"@);
    assert("  ← executed but result not committed"@ =~= "  ← executed but result "@
        + "not committed"@) by {
        reveal_strlit("  ← executed but result not committed");
        reveal_strlit("  ← executed but result ");
        reveal_strlit("not committed");
    }
    crate::text::parts_stand_in_the_whole("  ← executed but result "@, "not committed"@, Seq::empty());
}

/// The head of a turn says which turn of which session it is, how and when it
/// ended, and what it counted.
pub proof fn turns_are_headed(t: TurnRow)
    ensures
        ({
            let h = turn_head_of(t);
            &&& h.len() == 7
            &&& h[0] == "turn        "@ + t.turn_id@
            &&& h[1] == "session     "@ + t.session_id@
            &&& crate::text::has_prefix(h[2], "status      "@ + t.status@ + " ("@)
            &&& t.termination_reason matches Some(r) ==> crate::text::has_suffix(h[2], r@ + ")"@)
            &&& t.started_at matches Some(s) ==> h[3] == "started     "@ + s@
            &&& t.finished_at matches Some(s) ==> h[4] == "finished    "@ + s@
            &&& t.duration matches Some(s) ==> h[5] == "duration    "@ + s@
            &&& t.retries matches Some(n) ==> crate::text::has_suffix(
                h[6],
                " retries="@ + signed_decimal(n as int),
            )
            &&& t.steps matches Some(n) ==> crate::text::has_prefix(
                h[6],
                "counters    steps="@ + signed_decimal(n as int) + " model_calls="@,
            )
        }),
{
    let h = turn_head_of(t);
    let a = "status      "@ + t.status@ + " ("@;
    assert(h[2].take(a.len() as int) =~= a);
    if let Some(r) = t.termination_reason {
        let b = r@ + ")"@;
        assert(h[2].skip(h[2].len() - b.len()) =~= b);
    }
    if let Some(n) = t.retries {
        let b = " retries="@ + signed_decimal(n as int);
        assert(h[6].skip(h[6].len() - b.len()) =~= b);
    }
    if let Some(n) = t.steps {
        let b = "counters    steps="@ + signed_decimal(n as int) + " model_calls="@;
        assert(h[6].take(b.len() as int) =~= b);
    }
}

/// A report counts each thing under its name, and remarks on what should not
/// be there.
pub proof fn reports_count_everything(d: DoctorReport)
    ensures
        ({
            let ls = doctor_lines_of(d);
            &&& ls.len() == (if d.total_events == 0 {
                10int
            } else {
                9int
            })
            &&& ls[1] == "  sessions              "@ + signed_decimal(d.total_sessions as int)
            &&& ls[2] == "  events                "@ + signed_decimal(d.total_events as int)
            &&& crate::text::has_prefix(
                ls[3],
                "  open turns            "@ + signed_decimal(d.open_turns as int),
            )
            &&& crate::text::has_prefix(
                ls[4],
                "  running tools         "@ + signed_decimal(d.running_tools as int),
            )
            &&& crate::text::has_prefix(
                ls[5],
                "  uncommitted results   "@ + signed_decimal(d.uncommitted_results as int),
            )
            &&& ls[6] == "  indeterminate tools   "@ + signed_decimal(d.indeterminate_tools as int)
            &&& crate::text::has_prefix(
                ls[7],
                "  in-flight compactions "@ + signed_decimal(d.in_flight_compactions as int),
            )
            &&& ls[8] == "  failed model attempts "@ + signed_decimal(d.failed_attempts as int)
            &&& d.open_turns > 0 <==> ls[3].len() > ("  open turns            "@ + signed_decimal(
                d.open_turns as int,
            )).len()
        }),
{
    reveal_strlit("");
    reveal_strlit("  ← started but never finished（崩溃候选）");
    let e = Seq::<char>::empty();
    assert(""@ =~= e);
    lemma_count_line("  sessions              "@, d.total_sessions, ""@);
    lemma_count_line("  events                "@, d.total_events, ""@);
    lemma_count_line(
        "  open turns            "@,
        d.open_turns,
        "  ← started but never finished（崩溃候选）"@,
    );
    lemma_count_line(
        "  running tools         "@,
        d.running_tools,
        "  ← started but never finished"@,
    );
    lemma_count_line(
        "  uncommitted results   "@,
        d.uncommitted_results,
        "  ← executed but not committed"@,
    );
    lemma_count_line("  indeterminate tools   "@, d.indeterminate_tools, ""@);
    lemma_count_line(
        "  in-flight compactions "@,
        d.in_flight_compactions,
        "  ← started but never committed/failed"@,
    );
    lemma_count_line("  failed model attempts "@, d.failed_attempts, ""@);
}

proof fn lemma_count_line(label: Seq<char>, n: i64, remark: Seq<char>)
    ensures
        crate::text::has_prefix(count_line(label, n, remark), label + signed_decimal(n as int)),
        remark.len() == 0 ==> count_line(label, n, remark) == label + signed_decimal(n as int),
        count_line(label, n, remark).len() == (label + signed_decimal(n as int)).len() + (if n > 0 {
            remark.len()
        } else {
            0
        }),
{
    let a = label + signed_decimal(n as int);
    assert(count_line(label, n, remark).take(a.len() as int) =~= a);
    if remark.len() == 0 {
        assert(count_line(label, n, remark) =~= a);
    }
}

/// The line of an attempt shows what is known of it: what failed, the status,
/// how long to wait, how soon it began and what the cache gave.
pub proof fn attempts_are_shown_whole(a: AttemptRow)
    ensures
        ({
            let l = attempt_line_of(a);
            &&& crate::text::has_prefix(l, "  "@ + a.started_at@ + "  "@ + a.provider@ + "/"@ + a.model@)
            &&& a.error_class matches Some(e) ==> crate::text::contains_text(l, "  error="@ + e@)
            &&& a.http_status matches Some(n) ==> crate::text::contains_text(
                l,
                "  http="@ + signed_decimal(n as int),
            )
            &&& a.retry_after_secs matches Some(n) ==> crate::text::contains_text(
                l,
                "  retry_after="@ + signed_decimal(n as int) + "s"@,
            )
            &&& a.first_token matches Some(t) ==> crate::text::contains_text(l, "  ttft="@ + t@)
            &&& a.cache matches Some(c) ==> crate::text::contains_text(l, "  cache="@ + c@)
        }),
{
    reveal_strlit("");
    assert(""@ =~= Seq::<char>::empty());
    let p = "  "@ + a.started_at@ + "  "@ + a.provider@ + "/"@ + a.model@;
    let m = "  "@ + a.status@ + " x"@ + signed_decimal(a.attempts as int) + "  "@ + dash(
        opt_view(a.duration),
    );
    let x1 = addition("  error="@, opt_view(a.error_class), ""@);
    let x2 = addition("  http="@, opt_numeral(a.http_status), ""@);
    let x3 = addition("  retry_after="@, opt_numeral(a.retry_after_secs), "s"@);
    let x4 = addition("  ttft="@, opt_view(a.first_token), ""@);
    let x5 = addition("  cache="@, opt_view(a.cache), ""@);
    let start = p + "  "@ + a.status@ + " x"@ + signed_decimal(a.attempts as int) + "  "@ + dash(
        opt_view(a.duration),
    );
    assert(start =~= p + m);
    lemma_additions(p, m, x1, x2, x3, x4, x5);
    if let Some(e) = a.error_class {
        assert("  error="@ + e@ + ""@ =~= "  error="@ + e@);
    }
    if let Some(n) = a.http_status {
        assert("  http="@ + signed_decimal(n as int) + ""@ =~= "  http="@ + signed_decimal(n as int));
    }
    if let Some(t) = a.first_token {
        assert("  ttft="@ + t@ + ""@ =~= "  ttft="@ + t@);
    }
    if let Some(c) = a.cache {
        assert("  cache="@ + c@ + ""@ =~= "  cache="@ + c@);
    }
}

proof fn lemma_additions(
    p: Seq<char>,
    m: Seq<char>,
    x1: Seq<char>,
    x2: Seq<char>,
    x3: Seq<char>,
    x4: Seq<char>,
    x5: Seq<char>,
)
    ensures
        ({
            let l = p + m + x1 + x2 + x3 + x4 + x5;
            &&& crate::text::has_prefix(l, p)
            &&& crate::text::contains_text(l, x1)
            &&& crate::text::contains_text(l, x2)
            &&& crate::text::contains_text(l, x3)
            &&& crate::text::contains_text(l, x4)
            &&& crate::text::contains_text(l, x5)
        }),
{
    let l = p + m + x1 + x2 + x3 + x4 + x5;
    assert(l.take(p.len() as int) =~= p);
    let s1 = p + m;
    let s2 = s1 + x1;
    let s3 = s2 + x2;
    let s4 = s3 + x3;
    let s5 = s4 + x4;
    lemma_addition_at(l, s1, x1);
    lemma_addition_at(l, s2, x2);
    lemma_addition_at(l, s3, x3);
    lemma_addition_at(l, s4, x4);
    lemma_addition_at(l, s5, x5);
}

proof fn lemma_addition_at(l: Seq<char>, s: Seq<char>, x: Seq<char>)
    requires
        s.len() + x.len() <= l.len(),
        forall|i: int| 0 <= i < x.len() ==> l[s.len() + i] == #[trigger] x[i],
    ensures
        crate::text::contains_text(l, x),
{
    assert(l.subrange(s.len() as int, (s.len() + x.len()) as int) =~= x);
    assert(crate::text::occurs_at(l, x, s.len() as int));
}

/// The line of a run shows the tool, how it ended and how long it took, and says
/// so where it was an error.
pub proof fn runs_are_shown(t: ToolRow)
    ensures
        ({
            let l = tool_line_of(t);
            &&& t.tool_name matches Some(n) ==> crate::text::has_prefix(l, "  "@ + n@)
            &&& t.is_error == Some(1i64) ==> crate::text::has_suffix(l, " ERROR"@ + tool_remark(t))
            &&& crate::text::has_suffix(l, tool_remark(t))
            &&& t.is_error != Some(1i64) && t.approval_wait is None && (t.duration matches Some(d))
                ==> crate::text::has_suffix(l, " exec="@ + t.duration->0@ + tool_remark(t))
        }),
{
    let l = tool_line_of(t);
    let k = tool_remark(t);
    assert(l.skip(l.len() - k.len()) =~= k);
    if let Some(n) = t.tool_name {
        let h = "  "@ + n@;
        assert(l.take(h.len() as int) =~= h);
    }
    let b = " ERROR"@ + k;
    if t.is_error == Some(1i64) {
        assert(l.skip(l.len() - b.len()) =~= b);
    } else if t.approval_wait is None {
        if let Some(d) = t.duration {
            let c = " exec="@ + d@ + k;
            assert(l.skip(l.len() - c.len()) =~= c);
        }
    }
}

/// Attempts and runs are listed one by one, under a heading where there are any.
pub proof fn attempts_and_runs_are_listed(attempts: Seq<AttemptRow>, runs: Seq<ToolRow>, i: int)
    ensures
        attempts.len() == 0 ==> attempt_lines_of(attempts).len() == 0,
        attempts.len() > 0 ==> attempt_lines_of(attempts).len() == attempts.len() + 1
            && attempt_lines_of(attempts)[0] == "model attempts:"@,
        0 <= i < attempts.len() ==> attempt_lines_of(attempts)[i + 1] == attempt_line_of(attempts[i]),
        runs.len() == 0 ==> tool_lines_of(runs).len() == 0,
        runs.len() > 0 ==> tool_lines_of(runs).len() == runs.len() + 1 && tool_lines_of(runs)[0]
            == "tool executions:"@,
        0 <= i < runs.len() ==> tool_lines_of(runs)[i + 1] == tool_line_of(runs[i]),
{
}

} // verus!
