//! The frames of the protocol between agent and client, and the events of a
//! session as frames.

use vstd::prelude::*;

use crate::domain::id::{uuid_text_of, SessionId, TurnId};
use crate::json::{JsonValue, JsonView};
use crate::text::{opt_view, owned};

verus! {

/// An item of a snapshot.
#[derive(Debug, PartialEq, Eq)]
pub struct SnapshotItem {
    pub item_id: String,
    pub item_type: String,
    pub content: String,
    pub complete: bool,
}

/// The mathematical value of a [`SnapshotItem`].
pub struct ItemView {
    pub item_id: Seq<char>,
    pub item_type: Seq<char>,
    pub content: Seq<char>,
    pub complete: bool,
}

impl View for SnapshotItem {
    type V = ItemView;

    open spec fn view(&self) -> ItemView {
        ItemView {
            item_id: self.item_id@,
            item_type: self.item_type@,
            content: self.content@,
            complete: self.complete,
        }
    }
}

/// The views of a list of items.
pub open spec fn items_view(items: Seq<SnapshotItem>) -> Seq<ItemView> {
    items.map_values(|i: SnapshotItem| i@)
}

/// What an event tells the client.
#[derive(Debug)]
pub enum UpdateContent {
    ItemStarted { item_id: String, item_type: String },
    TextDelta { text: String },
    ThoughtDelta { text: String },
    ToolCallStart { call_id: String, name: String },
    ToolCallArgs { call_id: String, args_delta: String },
    ToolCallEnd { call_id: String },
    ToolResult { call_id: String, content: String, is_error: bool },
    TurnComplete { turn_id: String, input_tokens: u64, cached_tokens: u64 },
    Error { message: String },
    Info { message: String },
    CompactionStatus { phase: String },
    SubagentProgress { id: String, label: String, phase: String, detail: String, ok: Option<bool> },
    RequestPermission(RequestPermissionPayload),
    IndeterminateToolCall { call_id: String, tool_name: String, message: String },
}

/// A question to the user.
#[derive(Debug)]
pub struct RequestPermissionPayload {
    pub ticket_id: String,
    pub tool_name: String,
    pub summary: String,
    pub risk: String,
    pub arguments_snapshot: Option<JsonValue>,
    pub timeout_remaining_ms: u64,
}

/// The mathematical value of an [`UpdateContent`].
pub enum UpdateView {
    ItemStarted(Seq<char>, Seq<char>),
    TextDelta(Seq<char>),
    ThoughtDelta(Seq<char>),
    ToolCallStart(Seq<char>, Seq<char>),
    ToolCallArgs(Seq<char>, Seq<char>),
    ToolCallEnd(Seq<char>),
    ToolResult(Seq<char>, Seq<char>, bool),
    TurnComplete(Seq<char>, u64, u64),
    Error(Seq<char>),
    Info(Seq<char>),
    CompactionStatus(Seq<char>),
    SubagentProgress(Seq<char>, Seq<char>, Seq<char>, Seq<char>, Option<bool>),
    RequestPermission(Seq<char>, Seq<char>, Seq<char>, Seq<char>, Option<JsonView>, u64),
    IndeterminateToolCall(Seq<char>, Seq<char>, Seq<char>),
}

/// The view of an optional JSON value.
pub open spec fn opt_json(v: Option<JsonValue>) -> Option<JsonView> {
    match v {
        Some(x) => Some(x@),
        None => None,
    }
}

impl View for UpdateContent {
    type V = UpdateView;

    open spec fn view(&self) -> UpdateView {
        match *self {
            UpdateContent::ItemStarted { item_id, item_type } => UpdateView::ItemStarted(
                item_id@,
                item_type@,
            ),
            UpdateContent::TextDelta { text } => UpdateView::TextDelta(text@),
            UpdateContent::ThoughtDelta { text } => UpdateView::ThoughtDelta(text@),
            UpdateContent::ToolCallStart { call_id, name } => UpdateView::ToolCallStart(
                call_id@,
                name@,
            ),
            UpdateContent::ToolCallArgs { call_id, args_delta } => UpdateView::ToolCallArgs(
                call_id@,
                args_delta@,
            ),
            UpdateContent::ToolCallEnd { call_id } => UpdateView::ToolCallEnd(call_id@),
            UpdateContent::ToolResult { call_id, content, is_error } => UpdateView::ToolResult(
                call_id@,
                content@,
                is_error,
            ),
            UpdateContent::TurnComplete { turn_id, input_tokens, cached_tokens } =>
            UpdateView::TurnComplete(turn_id@, input_tokens, cached_tokens),
            UpdateContent::Error { message } => UpdateView::Error(message@),
            UpdateContent::Info { message } => UpdateView::Info(message@),
            UpdateContent::CompactionStatus { phase } => UpdateView::CompactionStatus(phase@),
            UpdateContent::SubagentProgress { id, label, phase, detail, ok } =>
            UpdateView::SubagentProgress(id@, label@, phase@, detail@, ok),
            UpdateContent::RequestPermission(p) => UpdateView::RequestPermission(
                p.ticket_id@,
                p.tool_name@,
                p.summary@,
                p.risk@,
                opt_json(p.arguments_snapshot),
                p.timeout_remaining_ms,
            ),
            UpdateContent::IndeterminateToolCall { call_id, tool_name, message } =>
            UpdateView::IndeterminateToolCall(call_id@, tool_name@, message@),
        }
    }
}

/// An update with its place in the stream.
#[derive(Debug)]
pub struct EventEnvelope {
    pub seq: u64,
    pub session_id: SessionId,
    pub content: UpdateContent,
}

impl EventEnvelope {
    /// An update at a place in the stream of a session.
    pub fn wrap(seq: u64, session_id: SessionId, content: UpdateContent) -> (r: Self)
        ensures
            r == (EventEnvelope { seq, session_id, content }),
    {
        EventEnvelope { seq, session_id, content }
    }
}

/// A session as it stands.
#[derive(Debug)]
pub struct SessionSnapshotPayload {
    pub session_id: SessionId,
    pub last_seq: u64,
    pub generation: u64,
    pub current_turn_id: Option<String>,
    pub items: Vec<SnapshotItem>,
}

/// A frame that the agent sends.
#[derive(Debug)]
pub enum ServerFrame {
    Event(EventEnvelope),
    Snapshot(SessionSnapshotPayload),
    FlowControl { inflight_events: u32, requested_pause_ms: Option<u32> },
    ProtocolError { code: String, message: String, reference_command_id: Option<String> },
    Ping { sent_at_ms: u64 },
    Pong { ping_sent_at_ms: u64, pong_at_ms: u64 },
}

/// The mathematical value of a [`ServerFrame`].
pub enum FrameView {
    Event(u64, SessionId, UpdateView),
    Snapshot(SessionId, u64, u64, Option<Seq<char>>, Seq<ItemView>),
    FlowControl(u32, Option<u32>),
    ProtocolError(Seq<char>, Seq<char>, Option<Seq<char>>),
    Ping(u64),
    Pong(u64, u64),
}

impl View for ServerFrame {
    type V = FrameView;

    open spec fn view(&self) -> FrameView {
        match *self {
            ServerFrame::Event(e) => FrameView::Event(e.seq, e.session_id, e.content@),
            ServerFrame::Snapshot(s) => FrameView::Snapshot(
                s.session_id,
                s.last_seq,
                s.generation,
                opt_view(s.current_turn_id),
                items_view(s.items@),
            ),
            ServerFrame::FlowControl { inflight_events, requested_pause_ms } =>
            FrameView::FlowControl(inflight_events, requested_pause_ms),
            ServerFrame::ProtocolError { code, message, reference_command_id } =>
            FrameView::ProtocolError(code@, message@, opt_view(reference_command_id)),
            ServerFrame::Ping { sent_at_ms } => FrameView::Ping(sent_at_ms),
            ServerFrame::Pong { ping_sent_at_ms, pong_at_ms } => FrameView::Pong(
                ping_sent_at_ms,
                pong_at_ms,
            ),
        }
    }
}

/// The views of a list of frames.
pub open spec fn frames_view(fs: Seq<ServerFrame>) -> Seq<FrameView> {
    fs.map_values(|f: ServerFrame| f@)
}

/// How far a sub-agent has come.
#[derive(Debug)]
pub enum SubagentProgress {
    Started { id: String, label: String, task_preview: String },
    Step { id: String, detail: String },
    Finished { id: String, label: String, ok: bool, summary: String },
}

/// What happens in a session.
#[derive(Debug)]
pub enum LoopEvent {
    TurnStarted { turn_id: TurnId },
    TextDelta { text: String },
    ReasoningDelta { text: String },
    ToolCallStart { call_id: String, name: String },
    ToolCallArgs { call_id: String, args_delta: String },
    ToolCallEnd { call_id: String },
    ToolResult { call_id: String, content: String, is_error: bool },
    StepCompleted { turn_id: TurnId, text: String },
    TurnCompleted { turn_id: TurnId, input_tokens: u64, cached_tokens: u64 },
    Error { message: String },
    Info { message: String },
    CompactionStatus { phase: String },
    Subagent(SubagentProgress),
    Shutdown,
    /// The session as it stands; the items, if they could be decoded.
    SnapshotReady {
        last_seq: u64,
        generation: u64,
        current_turn_id: Option<String>,
        items: Option<Vec<SnapshotItem>>,
    },
    ApprovalResolved { ticket_id: String, accepted: bool },
    ApprovalRequested {
        ticket_id: String,
        tool_name: String,
        summary: String,
        risk: String,
        timeout_remaining_ms: u64,
        args: Option<JsonValue>,
        call_id: String,
    },
    IndeterminateToolCall { call_id: String, tool_name: String, message: String },
}

/// What the client is told of the progress of a sub-agent.
pub open spec fn progress_update(p: SubagentProgress) -> UpdateView {
    match p {
        SubagentProgress::Started { id, label, task_preview } => UpdateView::SubagentProgress(
            id@,
            label@,
            "started"@,
            task_preview@,
            None,
        ),
        SubagentProgress::Step { id, detail } => UpdateView::SubagentProgress(
            id@,
            Seq::empty(),
            "step"@,
            detail@,
            None,
        ),
        SubagentProgress::Finished { id, label, ok, summary } => UpdateView::SubagentProgress(
            id@,
            label@,
            "finished"@,
            summary@,
            Some(ok),
        ),
    }
}

/// What the client is told of an event, if anything.
pub open spec fn update_for(ev: LoopEvent) -> Option<UpdateView> {
    match ev {
        LoopEvent::TurnStarted { turn_id } => Some(
            UpdateView::ItemStarted(uuid_text_of(turn_id.value()), "turn"@),
        ),
        LoopEvent::TextDelta { text } => Some(UpdateView::TextDelta(text@)),
        LoopEvent::ReasoningDelta { text } => Some(UpdateView::ThoughtDelta(text@)),
        LoopEvent::ToolCallStart { call_id, name } => Some(
            UpdateView::ToolCallStart(call_id@, name@),
        ),
        LoopEvent::ToolCallArgs { call_id, args_delta } => Some(
            UpdateView::ToolCallArgs(call_id@, args_delta@),
        ),
        LoopEvent::ToolCallEnd { call_id } => Some(UpdateView::ToolCallEnd(call_id@)),
        LoopEvent::ToolResult { call_id, content, is_error } => Some(
            UpdateView::ToolResult(call_id@, content@, is_error),
        ),
        LoopEvent::StepCompleted { .. } => None,
        LoopEvent::TurnCompleted { turn_id, input_tokens, cached_tokens } => Some(
            UpdateView::TurnComplete(uuid_text_of(turn_id.value()), input_tokens, cached_tokens),
        ),
        LoopEvent::Error { message } => Some(UpdateView::Error(message@)),
        LoopEvent::Info { message } => Some(UpdateView::Info(message@)),
        LoopEvent::CompactionStatus { phase } => Some(UpdateView::CompactionStatus(phase@)),
        LoopEvent::Subagent(p) => Some(progress_update(p)),
        LoopEvent::Shutdown => None,
        LoopEvent::SnapshotReady { .. } => None,
        LoopEvent::ApprovalResolved { .. } => None,
        LoopEvent::ApprovalRequested {
            ticket_id,
            tool_name,
            summary,
            risk,
            timeout_remaining_ms,
            args,
            call_id,
        } => Some(
            UpdateView::RequestPermission(
                ticket_id@,
                tool_name@,
                summary@,
                risk@,
                opt_json(args),
                timeout_remaining_ms,
            ),
        ),
        LoopEvent::IndeterminateToolCall { call_id, tool_name, message } => Some(
            UpdateView::IndeterminateToolCall(call_id@, tool_name@, message@),
        ),
    }
}

/// The frame that an event becomes, if it becomes one. The summary of a step,
/// the end of the session and the answer to an approval are not sent.
pub open spec fn frame_for(ev: LoopEvent, session_id: SessionId, seq: u64) -> Option<FrameView> {
    match ev {
        LoopEvent::SnapshotReady { last_seq, generation, current_turn_id, items } => Some(
            FrameView::Snapshot(
                session_id,
                last_seq,
                generation,
                opt_view(current_turn_id),
                match items {
                    Some(v) => items_view(v@),
                    None => Seq::empty(),
                },
            ),
        ),
        _ => match update_for(ev) {
            Some(u) => Some(FrameView::Event(seq, session_id, u)),
            None => None,
        },
    }
}

fn progress_content(p: SubagentProgress) -> (r: UpdateContent)
    ensures
        r@ == progress_update(p),
{
    match p {
        SubagentProgress::Started { id, label, task_preview } => UpdateContent::SubagentProgress {
            id,
            label,
            phase: owned("started"),
            detail: task_preview,
            ok: None,
        },
        SubagentProgress::Step { id, detail } => {
            let label = String::new();
            assert(label@ =~= Seq::empty());
            UpdateContent::SubagentProgress { id, label, phase: owned("step"), detail, ok: None }
        },
        SubagentProgress::Finished { id, label, ok, summary } => UpdateContent::SubagentProgress {
            id,
            label,
            phase: owned("finished"),
            detail: summary,
            ok: Some(ok),
        },
    }
}

/// The frame that an event of a session becomes at a place in the stream.
pub fn map_loop_event_to_update(ev: LoopEvent, session_id: SessionId, seq: u64) -> (r: Option<
    ServerFrame,
>)
    ensures
        match r {
            Some(f) => frame_for(ev, session_id, seq) == Some(f@),
            None => frame_for(ev, session_id, seq) is None,
        },
{
    let content = match ev {
        LoopEvent::TurnStarted { turn_id } => UpdateContent::ItemStarted {
            item_id: turn_id.to_string(),
            item_type: owned("turn"),
        },
        LoopEvent::TextDelta { text } => UpdateContent::TextDelta { text },
        LoopEvent::ReasoningDelta { text } => UpdateContent::ThoughtDelta { text },
        LoopEvent::ToolCallStart { call_id, name } => UpdateContent::ToolCallStart { call_id, name },
        LoopEvent::ToolCallArgs { call_id, args_delta } => UpdateContent::ToolCallArgs {
            call_id,
            args_delta,
        },
        LoopEvent::ToolCallEnd { call_id } => UpdateContent::ToolCallEnd { call_id },
        LoopEvent::ToolResult { call_id, content, is_error } => UpdateContent::ToolResult {
            call_id,
            content,
            is_error,
        },
        LoopEvent::StepCompleted { .. } => {
            return None;
        },
        LoopEvent::TurnCompleted { turn_id, input_tokens, cached_tokens } =>
        UpdateContent::TurnComplete { turn_id: turn_id.to_string(), input_tokens, cached_tokens },
        LoopEvent::Error { message } => UpdateContent::Error { message },
        LoopEvent::Info { message } => UpdateContent::Info { message },
        LoopEvent::CompactionStatus { phase } => UpdateContent::CompactionStatus { phase },
        LoopEvent::Subagent(p) => progress_content(p),
        LoopEvent::Shutdown => {
            return None;
        },
        LoopEvent::SnapshotReady { last_seq, generation, current_turn_id, items } => {
            let items = match items {
                Some(v) => v,
                None => {
                    let none: Vec<SnapshotItem> = Vec::new();
                    assert(items_view(none@) =~= Seq::empty());
                    none
                },
            };
            return Some(
                ServerFrame::Snapshot(
                    SessionSnapshotPayload {
                        session_id,
                        last_seq,
                        generation,
                        current_turn_id,
                        items,
                    },
                ),
            );
        },
        LoopEvent::ApprovalResolved { .. } => {
            return None;
        },
        LoopEvent::ApprovalRequested {
            ticket_id,
            tool_name,
            summary,
            risk,
            timeout_remaining_ms,
            args,
            call_id,
        } => UpdateContent::RequestPermission(
            RequestPermissionPayload {
                ticket_id,
                tool_name,
                summary,
                risk,
                arguments_snapshot: args,
                timeout_remaining_ms,
            },
        ),
        LoopEvent::IndeterminateToolCall { call_id, tool_name, message } =>
        UpdateContent::IndeterminateToolCall { call_id, tool_name, message },
    };
    Some(ServerFrame::Event(EventEnvelope::wrap(seq, session_id, content)))
}

/// A protocol error.
pub fn protocol_error(command_id: Option<String>, code: &str, message: String) -> (r: ServerFrame)
    ensures
        r@ == FrameView::ProtocolError(code@, message@, opt_view(command_id)),
{
    ServerFrame::ProtocolError { code: owned(code), message, reference_command_id: command_id }
}

/// Every event frame carries the place and the session that it was given.
pub proof fn events_keep_their_place(ev: LoopEvent, session_id: SessionId, seq: u64)
    ensures
        frame_for(ev, session_id, seq) matches Some(FrameView::Event(n, s, _)) ==> n == seq && s
            == session_id,
{
}

/// What the client is told of an event, and of which event it is told: a text is
/// told of the text that the model said, a thought of a thought, and so on, each
/// with the event's own words.
pub proof fn clients_are_told_what_happened(ev: LoopEvent, session: SessionId, seq: u64)
    ensures
        ({
            let f = frame_for(ev, session, seq);
            &&& forall|s: Seq<char>|
                f == Some(FrameView::Event(seq, session, UpdateView::TextDelta(s))) <==> (ev
                    matches LoopEvent::TextDelta { text } && text@ == s)
            &&& forall|s: Seq<char>|
                f == Some(FrameView::Event(seq, session, UpdateView::ThoughtDelta(s))) <==> (ev
                    matches LoopEvent::ReasoningDelta { text } && text@ == s)
            &&& forall|c: Seq<char>, n: Seq<char>|
                f == Some(FrameView::Event(seq, session, UpdateView::ToolCallStart(c, n))) <==> (ev
                    matches LoopEvent::ToolCallStart { call_id, name } && call_id@ == c && name@
                    == n)
            &&& forall|c: Seq<char>, a: Seq<char>|
                f == Some(FrameView::Event(seq, session, UpdateView::ToolCallArgs(c, a))) <==> (ev
                    matches LoopEvent::ToolCallArgs { call_id, args_delta } && call_id@ == c
                    && args_delta@ == a)
            &&& forall|c: Seq<char>|
                f == Some(FrameView::Event(seq, session, UpdateView::ToolCallEnd(c))) <==> (ev
                    matches LoopEvent::ToolCallEnd { call_id } && call_id@ == c)
            &&& forall|c: Seq<char>, t: Seq<char>, e: bool|
                f == Some(FrameView::Event(seq, session, UpdateView::ToolResult(c, t, e))) <==> (ev
                    matches LoopEvent::ToolResult { call_id, content, is_error } && call_id@ == c
                    && content@ == t && is_error == e)
            &&& forall|s: Seq<char>|
                f == Some(FrameView::Event(seq, session, UpdateView::Error(s))) <==> (ev
                    matches LoopEvent::Error { message } && message@ == s)
            &&& forall|s: Seq<char>|
                f == Some(FrameView::Event(seq, session, UpdateView::Info(s))) <==> (ev
                    matches LoopEvent::Info { message } && message@ == s)
            &&& forall|s: Seq<char>|
                f == Some(FrameView::Event(seq, session, UpdateView::CompactionStatus(s))) <==> (ev
                    matches LoopEvent::CompactionStatus { phase } && phase@ == s)
            &&& forall|c: Seq<char>, t: Seq<char>, m: Seq<char>|
                f == Some(FrameView::Event(seq, session, UpdateView::IndeterminateToolCall(c, t, m)))
                    <==> (ev matches LoopEvent::IndeterminateToolCall {
                    call_id,
                    tool_name,
                    message,
                } && call_id@ == c && tool_name@ == t && message@ == m)
        }),
{
}

/// The beginning and the end of a turn are told with its identifier, and the end
/// with what the turn used.
pub proof fn turns_are_told(ev: LoopEvent, session: SessionId, seq: u64)
    ensures
        ev matches LoopEvent::TurnStarted { turn_id } ==> frame_for(ev, session, seq) == Some(
            FrameView::Event(
                seq,
                session,
                UpdateView::ItemStarted(uuid_text_of(turn_id.value()), "turn"@),
            ),
        ),
        ev matches LoopEvent::TurnCompleted { turn_id, input_tokens, cached_tokens }
            ==> frame_for(ev, session, seq) == Some(
            FrameView::Event(
                seq,
                session,
                UpdateView::TurnComplete(
                    uuid_text_of(turn_id.value()),
                    input_tokens,
                    cached_tokens,
                ),
            ),
        ),
{
}

/// The client is asked every question of the session, with all that the question
/// says, and about nothing that was not asked.
pub proof fn questions_reach_the_client(ev: LoopEvent, session: SessionId, seq: u64)
    ensures
        ev matches LoopEvent::ApprovalRequested {
            ticket_id,
            tool_name,
            summary,
            risk,
            timeout_remaining_ms,
            args,
            ..
        } ==> frame_for(ev, session, seq) == Some(
            FrameView::Event(
                seq,
                session,
                UpdateView::RequestPermission(
                    ticket_id@,
                    tool_name@,
                    summary@,
                    risk@,
                    opt_json(args),
                    timeout_remaining_ms,
                ),
            ),
        ),
        (frame_for(ev, session, seq) matches Some(FrameView::Event(_, _, u)) && u
            is RequestPermission) ==> ev is ApprovalRequested,
{
}

/// Only the summary of a step, the end of the session and the answer to a
/// question are not sent. A snapshot is sent as it is; without its items where
/// they could not be read.
pub proof fn nothing_else_is_kept_back(ev: LoopEvent, session: SessionId, seq: u64)
    ensures
        frame_for(ev, session, seq) is None <==> (ev is StepCompleted || ev is Shutdown || ev
            is ApprovalResolved),
        ev matches LoopEvent::SnapshotReady { last_seq, generation, current_turn_id, items }
            ==> frame_for(ev, session, seq) == Some(
            FrameView::Snapshot(
                session,
                last_seq,
                generation,
                opt_view(current_turn_id),
                match items {
                    Some(v) => items_view(v@),
                    None => Seq::empty(),
                },
            ),
        ),
{
}

/// What is told of a sub-agent names it and says where it stands; only its end
/// says whether it went well.
pub proof fn progress_is_told(p: SubagentProgress, session: SessionId, seq: u64)
    ensures
        frame_for(LoopEvent::Subagent(p), session, seq) matches Some(
            FrameView::Event(n, s, UpdateView::SubagentProgress(id, label, phase, detail, ok)),
        ) && n == seq && s == session && (match p {
            SubagentProgress::Started { id: i, label: l, task_preview } => id == i@ && label == l@
                && phase == "started"@ && detail == task_preview@ && ok is None,
            SubagentProgress::Step { id: i, detail: d } => id == i@ && label.len() == 0 && phase
                == "step"@ && detail == d@ && ok is None,
            SubagentProgress::Finished { id: i, label: l, ok: o, summary } => id == i@ && label
                == l@ && phase == "finished"@ && detail == summary@ && ok == Some(o),
        }),
{
}

/// Arguments that are given are seen as they are, and missing ones are missing.
pub proof fn given_arguments_are_seen(v: JsonValue)
    ensures
        opt_json(Some(v)) == Some(v@),
        opt_json(None) is None,
{
}

} // verus!
