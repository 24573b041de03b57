//! What the agent does about a command of its client, and how an old session
//! is resumed.

use vstd::prelude::*;
use vstd::string::*;

use crate::domain::id::{uuid_parse_of, uuid_text_of, SessionId, TurnId};
use crate::domain::policy::PolicyDecision;
use crate::entries::{in_key_order, lookup, lookup_after_put, put, put_keeps_order};
use crate::json::{array_in, get, json_text, json_text_of, text_in, JsonValue, JsonView};
use crate::paths::{join_path, joined_path};
use crate::session::acp::{
    frames_view, items_view, opt_json, protocol_error, EventEnvelope, FrameView, ItemView,
    ServerFrame, SessionSnapshotPayload, SnapshotItem, UpdateContent, UpdateView,
};
use crate::session::idempotency::{after_insert, after_lookup, is_live, IdempotencyCache};
use crate::session::journal::{flag_at, flag_of, text_at_or, text_or, RolloutEventType};
use crate::text::{decimal, decimal_string, has_suffix, opt_clone, opt_view, owned};

verus! {

/// How much a client can take.
#[derive(Debug, Clone, Copy, PartialEq, Eq, Structural)]
pub struct AckBucket {
    pub max_inflight_events: u32,
    pub requested_pause_ms: Option<u32>,
}

/// How an old session is shown.
#[derive(Debug, Clone, Copy, PartialEq, Eq, Structural)]
pub enum ReplayMode {
    /// As a snapshot, and then what happens.
    SnapshotThenLive,
    /// As the events that the client missed.
    CatchUp,
    /// Not at all.
    LiveOnly,
}

/// The user's answer to a question.
#[derive(Debug)]
pub enum ApprovalResolution {
    Allow,
    AlwaysAllow,
    Narrow { narrowed_args: JsonValue },
    Deny,
    Cancel,
}

/// The user's word on a tool call of which nobody knows how it ended.
#[derive(Debug, Clone, Copy, PartialEq, Eq, Structural)]
pub enum IndeterminateResolution {
    Succeeded,
    Failed,
    Retry,
}

/// What a client asks for.
#[derive(Debug)]
pub enum CommandBody {
    Prompt { text: String },
    Steer { text: String },
    Cancel,
    ResolveApproval { ticket_id: String, resolution: ApprovalResolution },
    ResumeSession {
        session_id: String,
        mode: ReplayMode,
        last_consumed_seq: u64,
        ack_bucket: Option<AckBucket>,
    },
    ResolveIndeterminate {
        call_id: String,
        resolution: IndeterminateResolution,
        content: Option<String>,
    },
}

/// A command of a client.
#[derive(Debug)]
pub struct AcpCommand {
    pub command_id: String,
    /// The key by which a repeated command is recognised.
    pub idempotency_key: Option<String>,
    pub body: CommandBody,
}

/// What a session is told.
#[derive(Debug)]
pub enum SessionCommand {
    StartTurn { user_input: String },
    Steer { user_input: String },
    CancelTurn,
    ResolveApproval {
        ticket_id: String,
        decision: PolicyDecision,
        narrowed_args: Option<JsonValue>,
        always_allow: bool,
    },
    ResolveIndeterminate {
        call_id: String,
        resolution: IndeterminateResolution,
        content: Option<String>,
    },
    RebindRolloutWriter { new_session_id: SessionId, next_seq: u64 },
    ResumeSession {
        last_seq: u64,
        idempotency_key: Option<String>,
        emit_snapshot_to_frontend: bool,
    },
    RestoreContext { persist: bool },
    Shutdown,
}

/// The mathematical value of a [`SessionCommand`].
pub enum CommandView {
    StartTurn(Seq<char>),
    Steer(Seq<char>),
    CancelTurn,
    ResolveApproval(Seq<char>, PolicyDecision, Option<JsonView>, bool),
    ResolveIndeterminate(Seq<char>, IndeterminateResolution, Option<Seq<char>>),
    RebindRolloutWriter(SessionId, u64),
    ResumeSession(u64, Option<Seq<char>>, bool),
    RestoreContext(bool),
    Shutdown,
}

impl View for SessionCommand {
    type V = CommandView;

    open spec fn view(&self) -> CommandView {
        match *self {
            SessionCommand::StartTurn { user_input } => CommandView::StartTurn(user_input@),
            SessionCommand::Steer { user_input } => CommandView::Steer(user_input@),
            SessionCommand::CancelTurn => CommandView::CancelTurn,
            SessionCommand::ResolveApproval { ticket_id, decision, narrowed_args, always_allow } =>
            CommandView::ResolveApproval(
                ticket_id@,
                decision,
                opt_json(narrowed_args),
                always_allow,
            ),
            SessionCommand::ResolveIndeterminate { call_id, resolution, content } =>
            CommandView::ResolveIndeterminate(call_id@, resolution, opt_view(content)),
            SessionCommand::RebindRolloutWriter { new_session_id, next_seq } =>
            CommandView::RebindRolloutWriter(new_session_id, next_seq),
            SessionCommand::ResumeSession {
                last_seq,
                idempotency_key,
                emit_snapshot_to_frontend,
            } => CommandView::ResumeSession(
                last_seq,
                opt_view(idempotency_key),
                emit_snapshot_to_frontend,
            ),
            SessionCommand::RestoreContext { persist } => CommandView::RestoreContext(persist),
            SessionCommand::Shutdown => CommandView::Shutdown,
        }
    }
}

/// What an answer means: the decision, the narrowed arguments, and whether it
/// holds for good.
pub open spec fn approval_of(r: ApprovalResolution) -> (PolicyDecision, Option<JsonView>, bool) {
    match r {
        ApprovalResolution::Allow => (PolicyDecision::Allow, None, false),
        ApprovalResolution::AlwaysAllow => (PolicyDecision::Allow, None, true),
        ApprovalResolution::Narrow { narrowed_args } => (
            PolicyDecision::Allow,
            Some(narrowed_args@),
            false,
        ),
        ApprovalResolution::Deny => (PolicyDecision::Deny, None, false),
        ApprovalResolution::Cancel => (PolicyDecision::Deny, None, false),
    }
}

/// What a session is told about a command, unless the command resumes another
/// session.
pub open spec fn direct_command(b: CommandBody) -> Option<CommandView> {
    match b {
        CommandBody::Prompt { text } => Some(CommandView::StartTurn(text@)),
        CommandBody::Steer { text } => Some(CommandView::Steer(text@)),
        CommandBody::Cancel => Some(CommandView::CancelTurn),
        CommandBody::ResolveApproval { ticket_id, resolution } => {
            let (decision, narrowed, always) = approval_of(resolution);
            Some(CommandView::ResolveApproval(ticket_id@, decision, narrowed, always))
        },
        CommandBody::ResumeSession { .. } => None,
        CommandBody::ResolveIndeterminate { call_id, resolution, content } => Some(
            CommandView::ResolveIndeterminate(call_id@, resolution, opt_view(content)),
        ),
    }
}

/// Checks the key of a command: a command that was handled is answered with an
/// error; any other is remembered.
pub fn check_idempotency(cmd: &AcpCommand, cache: &mut IdempotencyCache, now: u64) -> (r: Option<
    ServerFrame,
>)
    requires
        old(cache).wf(),
    ensures
        final(cache).wf(),
        final(cache).limit() == old(cache).limit(),
        final(cache).lifetime() == old(cache).lifetime(),
        match opt_view(cmd.idempotency_key) {
            None => r is None && final(cache).view() == old(cache).view(),
            Some(key) => {
                let seen = is_live(old(cache).view(), key, now, old(cache).lifetime());
                let l = after_lookup(old(cache).view(), key, now, old(cache).lifetime());
                &&& r is Some == seen
                &&& seen ==> final(cache).view() == l && r->0@ == FrameView::ProtocolError(
                    "IDEMPOTENT_HIT"@,
                    "idempotency_key already processed: "@ + key,
                    Some(cmd.command_id@),
                )
                &&& !seen ==> final(cache).view() == after_insert(l, old(cache).limit(), key, now)
            },
        },
{
    match &cmd.idempotency_key {
        None => None,
        Some(key) => {
            if cache.contains_with_ttl_reclaim(key.as_str(), now) {
                let mut m = owned("idempotency_key already processed: ");
                m.append(key.as_str());
                Some(protocol_error(Some(cmd.command_id.clone()), "IDEMPOTENT_HIT", m))
            } else {
                let _ = cache.insert(key.clone(), now);
                None
            }
        },
    }
}

/// An event of a journal.
#[derive(Debug)]
pub struct JournalEvent {
    pub seq: u64,
    pub event_type: RolloutEventType,
    pub payload: JsonValue,
    pub turn_id: Option<TurnId>,
}

/// The identifier of an item.
pub open spec fn item_id(prefix: Seq<char>, seq: u64) -> Seq<char> {
    prefix + decimal(seq as nat)
}

/// A finished item.
pub open spec fn item(id: Seq<char>, kind: Seq<char>, content: Seq<char>) -> ItemView {
    ItemView { item_id: id, item_type: kind, content, complete: true }
}

/// An item for a text of a payload, where there is one that is not empty.
pub open spec fn text_item(
    p: JsonView,
    key: Seq<char>,
    id: Seq<char>,
    kind: Seq<char>,
) -> Seq<ItemView> {
    match text_in(get(p, key)) {
        Some(s) => if s.len() > 0 {
            seq![item(id, kind, s)]
        } else {
            Seq::empty()
        },
        None => Seq::empty(),
    }
}

/// The JSON object of a tool call.
pub open spec fn tool_call_object(tc: JsonView) -> JsonView {
    let none = Seq::<(Seq<char>, JsonView)>::empty();
    let args = match get(tc, "arguments"@) {
        Some(a) => a,
        None => JsonView::Null,
    };
    JsonView::Object(
        put(
            put(
                put(none, "call_id"@, JsonView::Text(text_or(tc, "call_id"@, ""@))),
                "name"@,
                JsonView::Text(text_or(tc, "name"@, ""@)),
            ),
            "arguments"@,
            args,
        ),
    )
}

/// The items of the first `n` tool calls of an event.
pub open spec fn tool_call_items(seq: u64, calls: Seq<JsonView>, n: int) -> Seq<ItemView>
    decreases n,
{
    if n <= 0 {
        Seq::empty()
    } else {
        tool_call_items(seq, calls, n - 1).push(
            item(
                item_id("tc-"@, seq) + "-"@ + decimal((n - 1) as nat),
                "tool_call"@,
                json_text_of(tool_call_object(calls[n - 1])),
            ),
        )
    }
}

/// The JSON object of a tool result.
pub open spec fn tool_result_object(p: JsonView) -> JsonView {
    let none = Seq::<(Seq<char>, JsonView)>::empty();
    let content = match get(p, "content"@) {
        Some(c) => json_text_of(c),
        None => Seq::empty(),
    };
    JsonView::Object(
        put(
            put(
                put(none, "call_id"@, JsonView::Text(text_or(p, "call_id"@, ""@))),
                "content"@,
                JsonView::Text(content),
            ),
            "is_error"@,
            JsonView::Bool(flag_of(p, "is_error"@)),
        ),
    )
}

/// The items that an event contributes to a snapshot.
pub open spec fn event_items(e: JournalEvent) -> Seq<ItemView> {
    let p = e.payload@;
    match e.event_type {
        RolloutEventType::UserInputAccepted => match text_in(get(p, "text"@)) {
            Some(s) => seq![item(item_id("u-"@, e.seq), "user"@, s)],
            None => Seq::empty(),
        },
        RolloutEventType::ModelItemProduced => text_item(
            p,
            "reasoning"@,
            item_id("th-"@, e.seq),
            "thinking"@,
        ) + text_item(p, "assistant_text"@, item_id("a-"@, e.seq), "assistant"@) + (
        match array_in(get(p, "tool_calls"@)) {
            Some(calls) => tool_call_items(e.seq, calls, calls.len() as int),
            None => Seq::empty(),
        }),
        RolloutEventType::ToolResultCommitted => seq![
            item(
                item_id("tr-"@, e.seq),
                "tool_result"@,
                json_text_of(tool_result_object(p)),
            ),
        ],
        _ => Seq::empty(),
    }
}

/// The items of a journal.
pub open spec fn journal_items(es: Seq<JournalEvent>) -> Seq<ItemView>
    decreases es.len(),
{
    if es.len() == 0 {
        Seq::empty()
    } else {
        journal_items(es.drop_last()) + event_items(es.last())
    }
}

/// What a client that catches up is told of an event, if anything.
pub open spec fn catch_up_update(e: JournalEvent) -> Option<UpdateView> {
    let p = e.payload@;
    match e.event_type {
        RolloutEventType::UserInputAccepted => match text_in(get(p, "text"@)) {
            Some(s) => Some(UpdateView::TextDelta(s)),
            None => None,
        },
        RolloutEventType::ModelItemProduced => match text_in(get(p, "assistant_text"@)) {
            Some(s) => Some(UpdateView::TextDelta(s)),
            None => None,
        },
        RolloutEventType::TurnCompleted => Some(
            UpdateView::TurnComplete(
                match e.turn_id {
                    Some(t) => uuid_text_of(t.value()),
                    None => Seq::empty(),
                },
                0,
                0,
            ),
        ),
        _ => None,
    }
}

/// The place in the stream after the events of a journal that a client missed.
pub open spec fn catch_up_seq(es: Seq<JournalEvent>, last_consumed: u64) -> int
    decreases es.len(),
{
    if es.len() == 0 {
        last_consumed as int
    } else {
        catch_up_seq(es.drop_last(), last_consumed) + (if es.last().seq > last_consumed {
            1int
        } else {
            0int
        })
    }
}

/// The frames for the events of a journal that a client missed. Every such
/// event takes a place in the stream, also where nothing is told of it.
pub open spec fn catch_up_frames(es: Seq<JournalEvent>, last_consumed: u64, session: SessionId) -> Seq<
    FrameView,
>
    decreases es.len(),
{
    if es.len() == 0 {
        Seq::empty()
    } else {
        let below = catch_up_frames(es.drop_last(), last_consumed, session);
        match catch_up_update(es.last()) {
            Some(u) => if es.last().seq > last_consumed {
                below.push(
                    FrameView::Event(catch_up_seq(es, last_consumed) as u64, session, u),
                )
            } else {
                below
            },
            None => below,
        }
    }
}

proof fn lemma_catch_up_seq(es: Seq<JournalEvent>, last_consumed: u64, n: int)
    requires
        0 <= n <= es.len(),
    ensures
        last_consumed <= catch_up_seq(es.take(n), last_consumed) <= catch_up_seq(
            es,
            last_consumed,
        ),
        catch_up_seq(es.take(n), last_consumed) <= last_consumed + n,
    decreases es.len(),
{
    if n == es.len() {
        assert(es.take(n) =~= es);
        if n > 0 {
            lemma_catch_up_seq(es.drop_last(), last_consumed, n - 1);
            assert(es.drop_last().take(n - 1) =~= es.drop_last());
        }
    } else {
        lemma_catch_up_seq(es.drop_last(), last_consumed, n);
        assert(es.drop_last().take(n) =~= es.take(n));
    }
}

fn new_item(id: String, kind: &str, content: String) -> (r: SnapshotItem)
    ensures
        r@ == item(id@, kind@, content@),
{
    SnapshotItem { item_id: id, item_type: owned(kind), content, complete: true }
}

fn numbered(prefix: &str, seq: u64) -> (r: String)
    ensures
        r@ == item_id(prefix@, seq),
{
    let mut s = owned(prefix);
    s.append(decimal_string(seq).as_str());
    s
}

fn push_item(items: &mut Vec<SnapshotItem>, i: SnapshotItem)
    ensures
        items_view(final(items)@) == items_view(old(items)@).push(i@),
{
    let ghost before = items_view(items@);
    let ghost v = i@;
    items.push(i);
    assert(items_view(items@) =~= before.push(v));
}

fn push_text_item(
    items: &mut Vec<SnapshotItem>,
    payload: &JsonValue,
    key: &str,
    id: String,
    kind: &str,
)
    ensures
        items_view(final(items)@) == items_view(old(items)@) + text_item(
            payload@,
            key@,
            id@,
            kind@,
        ),
{
    let ghost before = items_view(items@);
    let ghost id0 = id@;
    if let Some(s) = payload.text_at(key) {
        if !s.as_str().is_empty() {
            push_item(items, new_item(id, kind, s));
        }
    }
    assert(items_view(items@) =~= before + text_item(payload@, key@, id0, kind@));
}

fn tool_call_json(tc: &JsonValue) -> (r: JsonValue)
    ensures
        r@ == tool_call_object(tc@),
{
    let args = match tc.get("arguments") {
        Some(a) => a.duplicate(),
        None => JsonValue::Null,
    };
    JsonValue::object().with("call_id", JsonValue::Text(text_at_or(tc, "call_id", ""))).with(
        "name",
        JsonValue::Text(text_at_or(tc, "name", "")),
    ).with("arguments", args)
}

fn tool_result_json(p: &JsonValue) -> (r: JsonValue)
    ensures
        r@ == tool_result_object(p@),
{
    let content = match p.get("content") {
        Some(c) => json_text(c),
        None => {
            let none = String::new();
            assert(none@ =~= Seq::empty());
            none
        },
    };
    JsonValue::object().with("call_id", JsonValue::Text(text_at_or(p, "call_id", ""))).with(
        "content",
        JsonValue::Text(content),
    ).with("is_error", JsonValue::Bool(flag_at(p, "is_error")))
}

fn push_tool_calls(items: &mut Vec<SnapshotItem>, seq: u64, calls: &Vec<JsonValue>)
    ensures
        items_view(final(items)@) == items_view(old(items)@) + tool_call_items(
            seq,
            crate::json::items_view(calls@),
            calls@.len() as int,
        ),
{
    let ghost before = items_view(items@);
    let ghost cs = crate::json::items_view(calls@);
    let mut i: usize = 0;
    assert(items_view(items@) =~= before + tool_call_items(seq, cs, 0));
    while i < calls.len()
        invariant
            i <= calls@.len(),
            cs == crate::json::items_view(calls@),
            items_view(items@) == before + tool_call_items(seq, cs, i as int),
        decreases calls@.len() - i,
    {
        let mut id = numbered("tc-", seq);
        id.append("-");
        id.append(decimal_string(i as u64).as_str());
        let content = json_text(&tool_call_json(&calls[i]));
        assert(cs[i as int] == calls@[i as int]@);
        push_item(items, new_item(id, "tool_call", content));
        assert(items_view(items@) =~= before + tool_call_items(seq, cs, i as int + 1));
        i = i + 1;
    }
}

fn push_event_items(items: &mut Vec<SnapshotItem>, e: &JournalEvent)
    ensures
        items_view(final(items)@) == items_view(old(items)@) + event_items(*e),
{
    let ghost before = items_view(items@);
    match e.event_type {
        RolloutEventType::UserInputAccepted => {
            if let Some(s) = e.payload.text_at("text") {
                push_item(items, new_item(numbered("u-", e.seq), "user", s));
            }
            assert(items_view(items@) =~= before + event_items(*e));
        },
        RolloutEventType::ModelItemProduced => {
            push_text_item(items, &e.payload, "reasoning", numbered("th-", e.seq), "thinking");
            push_text_item(
                items,
                &e.payload,
                "assistant_text",
                numbered("a-", e.seq),
                "assistant",
            );
            if let Some(v) = e.payload.get("tool_calls") {
                if let Some(calls) = v.as_array() {
                    push_tool_calls(items, e.seq, calls);
                }
            }
            assert(items_view(items@) =~= before + event_items(*e));
        },
        RolloutEventType::ToolResultCommitted => {
            let content = json_text(&tool_result_json(&e.payload));
            push_item(items, new_item(numbered("tr-", e.seq), "tool_result", content));
            assert(items_view(items@) =~= before + event_items(*e));
        },
        _ => {
            assert(items_view(items@) =~= before + event_items(*e));
        },
    }
}

/// The items of a journal.
pub fn snapshot_items(events: &Vec<JournalEvent>) -> (r: Vec<SnapshotItem>)
    ensures
        items_view(r@) == journal_items(events@),
{
    let mut items: Vec<SnapshotItem> = Vec::new();
    let mut i: usize = 0;
    assert(items_view(items@) =~= journal_items(events@.take(0)));
    while i < events.len()
        invariant
            i <= events@.len(),
            items_view(items@) == journal_items(events@.take(i as int)),
        decreases events@.len() - i,
    {
        proof {
            assert(events@.take(i as int + 1).drop_last() =~= events@.take(i as int));
            assert(events@.take(i as int + 1).last() == events@[i as int]);
        }
        push_event_items(&mut items, &events[i]);
        i = i + 1;
    }
    assert(events@.take(events@.len() as int) =~= events@);
    items
}

fn catch_up_content(e: &JournalEvent) -> (r: Option<UpdateContent>)
    ensures
        match r {
            Some(u) => catch_up_update(*e) == Some(u@),
            None => catch_up_update(*e) is None,
        },
{
    match e.event_type {
        RolloutEventType::UserInputAccepted => match e.payload.text_at("text") {
            Some(text) => Some(UpdateContent::TextDelta { text }),
            None => None,
        },
        RolloutEventType::ModelItemProduced => match e.payload.text_at("assistant_text") {
            Some(text) => Some(UpdateContent::TextDelta { text }),
            None => None,
        },
        RolloutEventType::TurnCompleted => {
            let turn_id = match &e.turn_id {
                Some(t) => t.to_string(),
                None => {
                    let none = String::new();
                    assert(none@ =~= Seq::empty());
                    none
                },
            };
            Some(UpdateContent::TurnComplete { turn_id, input_tokens: 0, cached_tokens: 0 })
        },
        _ => None,
    }
}

/// The frames for the events that a client missed, and the place in the stream
/// after them.
pub fn catch_up(events: &Vec<JournalEvent>, last_consumed: u64, session: SessionId) -> (r: (
    Vec<ServerFrame>,
    u64,
))
    requires
        catch_up_seq(events@, last_consumed) <= u64::MAX,
    ensures
        frames_view(r.0@) == catch_up_frames(events@, last_consumed, session),
        r.1 == catch_up_seq(events@, last_consumed),
{
    let mut frames: Vec<ServerFrame> = Vec::new();
    let mut seq: u64 = last_consumed;
    let mut i: usize = 0;
    assert(frames_view(frames@) =~= catch_up_frames(events@.take(0), last_consumed, session));
    while i < events.len()
        invariant
            i <= events@.len(),
            catch_up_seq(events@, last_consumed) <= u64::MAX,
            frames_view(frames@) == catch_up_frames(
                events@.take(i as int),
                last_consumed,
                session,
            ),
            seq == catch_up_seq(events@.take(i as int), last_consumed),
        decreases events@.len() - i,
    {
        proof {
            lemma_catch_up_seq(events@, last_consumed, i as int + 1);
            assert(events@.take(i as int + 1).drop_last() =~= events@.take(i as int));
            assert(events@.take(i as int + 1).last() == events@[i as int]);
        }
        let e = &events[i];
        if e.seq > last_consumed {
            seq = seq + 1;
            if let Some(content) = catch_up_content(e) {
                let ghost before = frames_view(frames@);
                let frame = ServerFrame::Event(EventEnvelope::wrap(seq, session, content));
                let ghost f = frame@;
                frames.push(frame);
                assert(frames_view(frames@) =~= before.push(f));
            }
        }
        i = i + 1;
    }
    assert(events@.take(events@.len() as int) =~= events@);
    (frames, seq)
}

/// Whether the places in the stream of the events that a client missed are
/// numbers that there are.
fn can_catch_up(events: &Vec<JournalEvent>, last_consumed: u64) -> (r: bool)
    ensures
        r == (catch_up_seq(events@, last_consumed) <= u64::MAX),
{
    let mut seq: u64 = last_consumed;
    let mut i: usize = 0;
    while i < events.len()
        invariant
            i <= events@.len(),
            seq == catch_up_seq(events@.take(i as int), last_consumed),
        decreases events@.len() - i,
    {
        proof {
            assert(events@.take(i as int + 1).drop_last() =~= events@.take(i as int));
            assert(events@.take(i as int + 1).last() == events@[i as int]);
            lemma_catch_up_seq(events@, last_consumed, i as int + 1);
        }
        if events[i].seq > last_consumed {
            if seq == u64::MAX {
                return false;
            }
            seq = seq + 1;
        }
        i = i + 1;
    }
    assert(events@.take(events@.len() as int) =~= events@);
    true
}

/// Where the resumption of a session stands.
#[derive(Debug, Clone, Copy, PartialEq, Eq, Structural)]
pub enum ResumePhase {
    /// The journal is looked for.
    Look,
    /// The journal is read.
    Read,
    /// The journal is opened for writing.
    Open { last_seq: u64, has_context: bool },
    /// The session is told to write to the journal.
    Rebind { last_seq: u64, has_context: bool },
    /// The sub-agents are recovered.
    Recover { last_seq: u64, has_context: bool },
    /// The session is told that it is resumed.
    Announce { has_context: bool },
    /// The session is given its context.
    Restore,
    /// It is over.
    Done { resumed: bool },
}

/// What a journal holds.
#[derive(Debug)]
pub struct ReadJournal {
    pub events: Vec<JournalEvent>,
    pub last_seq: u64,
    /// Whether there is any context to give back.
    pub has_context: bool,
}

/// What came of an action.
#[derive(Debug)]
pub enum ResumeEvent {
    Found(bool),
    Read(Result<ReadJournal, String>),
    Opened(Result<(), String>),
    Sent(Result<(), String>),
    Recovered,
}

/// What is to be done.
#[derive(Debug)]
pub enum ResumeAction {
    Write(ServerFrame),
    /// Look whether there is a file.
    Look(String),
    Read(String),
    Open { session: SessionId, next_seq: u64 },
    Send(SessionCommand),
    RecoverSubagents,
    /// It is over; the session that frames belong to from now on.
    Finish(Option<SessionId>),
}

/// The mathematical value of a [`ResumeAction`].
pub enum ActionView {
    Write(FrameView),
    Look(Seq<char>),
    Read(Seq<char>),
    Open(SessionId, u64),
    Send(CommandView),
    RecoverSubagents,
    Finish(Option<SessionId>),
}

impl View for ResumeAction {
    type V = ActionView;

    open spec fn view(&self) -> ActionView {
        match *self {
            ResumeAction::Write(f) => ActionView::Write(f@),
            ResumeAction::Look(p) => ActionView::Look(p@),
            ResumeAction::Read(p) => ActionView::Read(p@),
            ResumeAction::Open { session, next_seq } => ActionView::Open(session, next_seq),
            ResumeAction::Send(c) => ActionView::Send(c@),
            ResumeAction::RecoverSubagents => ActionView::RecoverSubagents,
            ResumeAction::Finish(s) => ActionView::Finish(s),
        }
    }
}

/// The views of a list of actions.
pub open spec fn actions_view(a: Seq<ResumeAction>) -> Seq<ActionView> {
    a.map_values(|x: ResumeAction| x@)
}

/// The resumption of a session.
#[derive(Debug)]
pub struct ResumeRun {
    pub command_id: String,
    pub idempotency_key: Option<String>,
    /// The session as the client wrote it.
    pub session_text: String,
    pub session: SessionId,
    /// The path of the journal.
    pub journal: String,
    pub mode: ReplayMode,
    pub last_consumed: u64,
    pub phase: ResumePhase,
}

/// A refusal, and the end.
pub open spec fn refused(run: ResumeRun, code: Seq<char>, message: Seq<char>) -> (
    ResumePhase,
    Seq<ActionView>,
) {
    (
        ResumePhase::Done { resumed: false },
        seq![
            ActionView::Write(FrameView::ProtocolError(code, message, Some(run.command_id@))),
            ActionView::Finish(None),
        ],
    )
}

/// The frames that show an old session.
pub open spec fn shown(run: ResumeRun, j: ReadJournal) -> Seq<FrameView> {
    match run.mode {
        ReplayMode::SnapshotThenLive => seq![
            FrameView::Snapshot(
                run.session,
                j.last_seq,
                0,
                None,
                journal_items(j.events@),
            ),
        ],
        ReplayMode::CatchUp => catch_up_frames(j.events@, run.last_consumed, run.session),
        ReplayMode::LiveOnly => Seq::empty(),
    }
}

/// The place in the stream after an old session was shown.
pub open spec fn seq_after_shown(run: ResumeRun, j: ReadJournal, seq: u64) -> u64 {
    match run.mode {
        ReplayMode::CatchUp => {
            let s = catch_up_seq(j.events@, run.last_consumed);
            if s > seq {
                s as u64
            } else {
                seq
            }
        },
        _ => seq,
    }
}

/// Frames as actions.
pub open spec fn writes(fs: Seq<FrameView>) -> Seq<ActionView> {
    fs.map_values(|f: FrameView| ActionView::Write(f))
}

/// The end of a resumption that succeeded.
pub open spec fn resumed(run: ResumeRun) -> (ResumePhase, Seq<ActionView>) {
    (ResumePhase::Done { resumed: true }, seq![ActionView::Finish(Some(run.session))])
}

/// What follows from an event: the next phase, and what is to be done. An
/// event that the phase does not wait for changes nothing.
pub open spec fn next_step(run: ResumeRun, ev: ResumeEvent) -> (ResumePhase, Seq<ActionView>) {
    match (run.phase, ev) {
        (ResumePhase::Look, ResumeEvent::Found(found)) => if found {
            (ResumePhase::Read, seq![ActionView::Read(run.journal@)])
        } else {
            refused(
                run,
                "RESUME_NOT_FOUND"@,
                "找不到会话 `"@ + run.session_text@ + "` 的 rollout journal ("@ + run.journal@
                    + " 不存在)。请确认 session id 拼写。"@,
            )
        },
        (ResumePhase::Read, ResumeEvent::Read(r)) => match r {
            Err(e) => refused(
                run,
                "RESUME_IO"@,
                "读取旧会话 rollout journal 失败："@ + e@,
            ),
            Ok(j) => (
                ResumePhase::Open { last_seq: j.last_seq, has_context: j.has_context },
                writes(shown(run, j)) + seq![
                    ActionView::Write(FrameView::FlowControl(0, None)),
                    ActionView::Open(run.session, (j.last_seq + 1) as u64),
                ],
            ),
        },
        (ResumePhase::Open { last_seq, has_context }, ResumeEvent::Opened(r)) => match r {
            Err(e) => refused(
                run,
                "RESUME_IO"@,
                "无法启动旧会话的 writable rollout store："@ + e@,
            ),
            Ok(_) => (
                ResumePhase::Rebind { last_seq, has_context },
                seq![
                    ActionView::Send(
                        CommandView::RebindRolloutWriter(run.session, (last_seq + 1) as u64),
                    ),
                ],
            ),
        },
        (ResumePhase::Rebind { last_seq, has_context }, ResumeEvent::Sent(r)) => match r {
            Err(e) => refused(run, "RESUME_SUPERVISOR"@, "RebindRolloutWriter 失败："@ + e@),
            Ok(_) => (
                ResumePhase::Recover { last_seq, has_context },
                seq![ActionView::RecoverSubagents],
            ),
        },
        (ResumePhase::Recover { last_seq, has_context }, ResumeEvent::Recovered) => (
            ResumePhase::Announce { has_context },
            seq![
                ActionView::Send(
                    CommandView::ResumeSession(last_seq, opt_view(run.idempotency_key), false),
                ),
            ],
        ),
        (ResumePhase::Announce { has_context }, ResumeEvent::Sent(r)) => match r {
            Err(e) => refused(
                run,
                "RESUME_SUPERVISOR"@,
                "通知 supervisor ResumeSession 失败："@ + e@,
            ),
            Ok(_) => if has_context {
                (
                    ResumePhase::Restore,
                    seq![ActionView::Send(CommandView::RestoreContext(false))],
                )
            } else {
                resumed(run)
            },
        },
        (ResumePhase::Restore, ResumeEvent::Sent(r)) => match r {
            Err(e) => refused(
                run,
                "RESUME_SUPERVISOR"@,
                "RestoreContext 注入 supervisor 失败："@ + e@,
            ),
            Ok(_) => resumed(run),
        },
        (phase, _) => (phase, Seq::empty()),
    }
}

/// The place in the stream after an event.
pub open spec fn next_seq(run: ResumeRun, ev: ResumeEvent, seq: u64) -> u64 {
    match (run.phase, ev) {
        (ResumePhase::Read, ResumeEvent::Read(Ok(j))) => seq_after_shown(run, j, seq),
        _ => seq,
    }
}

/// Whether the numbers of an event leave room for what follows from it: for the
/// next number of the journal, and, where the client catches up, for the place
/// in the stream after the events that it missed.
pub open spec fn event_fits(run: ResumeRun, ev: ResumeEvent) -> bool {
    match (run.phase, ev) {
        (ResumePhase::Read, ResumeEvent::Read(Ok(j))) => j.last_seq < u64::MAX && (run.mode
            is CatchUp ==> catch_up_seq(j.events@, run.last_consumed) <= u64::MAX),
        _ => true,
    }
}

/// Whether the numbers of a phase leave room for what follows.
pub open spec fn phase_fits(p: ResumePhase) -> bool {
    match p {
        ResumePhase::Open { last_seq, .. } => last_seq < u64::MAX,
        _ => true,
    }
}

/// What comes of a command.
#[derive(Debug)]
pub enum Routed {
    /// The session is told this.
    Send(SessionCommand),
    /// Another session is resumed, from looking for its journal on.
    Resume(ResumeRun),
    /// Nothing: the client is told why.
    Refuse(ServerFrame),
}

/// The path of the journal of a session.
pub open spec fn journal_path_of(base: Seq<char>, session: SessionId) -> Seq<char> {
    joined_path(joined_path(base, uuid_text_of(session.value())), "rollout.jsonl"@)
}

/// The path of the journal of a session.
pub fn journal_path(base: &str, session: SessionId) -> (r: String)
    ensures
        r@ == journal_path_of(base@, session),
{
    join_path(join_path(base, session.to_string().as_str()).as_str(), "rollout.jsonl")
}

/// The start of a resumption.
pub open spec fn is_fresh_run(
    run: ResumeRun,
    cmd: AcpCommand,
    base: Seq<char>,
    session: u128,
) -> bool {
    &&& run.command_id@ == cmd.command_id@
    &&& opt_view(run.idempotency_key) == opt_view(cmd.idempotency_key)
    &&& run.session.value() == session
    &&& run.journal@ == journal_path_of(base, run.session)
    &&& run.phase == ResumePhase::Look
    &&& cmd.body matches CommandBody::ResumeSession { session_id, mode, last_consumed_seq, .. }
        && run.session_text@ == session_id@ && run.mode == mode && run.last_consumed
        == last_consumed_seq
}

/// What comes of a command whose key was checked. `base` is the directory of
/// the journals.
pub fn route_command(cmd: AcpCommand, base: &str) -> (r: (Routed, Option<AckBucket>))
    ensures
        match cmd.body {
            CommandBody::ResumeSession { session_id, ack_bucket, .. } => {
                &&& r.1 == ack_bucket
                &&& match uuid_parse_of(session_id@) {
                    Some(n) => r.0 matches Routed::Resume(run) && is_fresh_run(
                        run,
                        cmd,
                        base@,
                        n,
                    ),
                    None => r.0 matches Routed::Refuse(f) && f@ == FrameView::ProtocolError(
                        "RESUME_BAD_ID"@,
                        "非法的 session_id 格式 `"@ + session_id@ + "`："@
                            + "invalid identifier: "@ + session_id@,
                        Some(cmd.command_id@),
                    ),
                }
            },
            _ => r.1 is None && (r.0 matches Routed::Send(c) && direct_command(cmd.body) == Some(
                c@,
            )),
        },
{
    match cmd.body {
        CommandBody::Prompt { text } => (
            Routed::Send(SessionCommand::StartTurn { user_input: text }),
            None,
        ),
        CommandBody::Steer { text } => (
            Routed::Send(SessionCommand::Steer { user_input: text }),
            None,
        ),
        CommandBody::Cancel => (Routed::Send(SessionCommand::CancelTurn), None),
        CommandBody::ResolveApproval { ticket_id, resolution } => {
            let (decision, narrowed_args, always_allow) = match resolution {
                ApprovalResolution::Allow => (PolicyDecision::Allow, None, false),
                ApprovalResolution::AlwaysAllow => (PolicyDecision::Allow, None, true),
                ApprovalResolution::Narrow { narrowed_args } => (
                    PolicyDecision::Allow,
                    Some(narrowed_args),
                    false,
                ),
                ApprovalResolution::Deny => (PolicyDecision::Deny, None, false),
                ApprovalResolution::Cancel => (PolicyDecision::Deny, None, false),
            };
            (
                Routed::Send(
                    SessionCommand::ResolveApproval {
                        ticket_id,
                        decision,
                        narrowed_args,
                        always_allow,
                    },
                ),
                None,
            )
        },
        CommandBody::ResumeSession { session_id, mode, last_consumed_seq, ack_bucket } => {
            match SessionId::from_string(session_id.as_str()) {
                Ok(session) => {
                    let journal = journal_path(base, session);
                    (
                        Routed::Resume(
                            ResumeRun {
                                command_id: cmd.command_id,
                                idempotency_key: cmd.idempotency_key,
                                session_text: session_id,
                                session,
                                journal,
                                mode,
                                last_consumed: last_consumed_seq,
                                phase: ResumePhase::Look,
                            },
                        ),
                        ack_bucket,
                    )
                },
                Err(e) => {
                    let mut m = owned("非法的 session_id 格式 `");
                    m.append(session_id.as_str());
                    m.append("`：");
                    m.append("invalid identifier: ");
                    m.append(session_id.as_str());
                    (
                        Routed::Refuse(protocol_error(Some(cmd.command_id), "RESUME_BAD_ID", m)),
                        ack_bucket,
                    )
                },
            }
        },
        CommandBody::ResolveIndeterminate { call_id, resolution, content } => (
            Routed::Send(SessionCommand::ResolveIndeterminate { call_id, resolution, content }),
            None,
        ),
    }
}

/// What the client is told where the session did not take a command.
pub fn route_failed(command_id: String, error: String) -> (r: ServerFrame)
    ensures
        r@ == FrameView::ProtocolError("ROUTE_FAILED"@, error@, Some(command_id@)),
{
    protocol_error(Some(command_id), "ROUTE_FAILED", error)
}

fn one(a: ResumeAction) -> (r: Vec<ResumeAction>)
    ensures
        actions_view(r@) == seq![a@],
{
    let mut v: Vec<ResumeAction> = Vec::new();
    let ghost x = a@;
    v.push(a);
    assert(actions_view(v@) =~= seq![x]);
    v
}

impl ResumeRun {
    fn refuse(&mut self, code: &str, message: String) -> (r: Vec<ResumeAction>)
        ensures
            *final(self) == (ResumeRun {
                phase: ResumePhase::Done { resumed: false },
                ..*old(self)
            }),
            actions_view(r@) == refused(*old(self), code@, message@).1,
    {
        let ghost m = message@;
        let mut v: Vec<ResumeAction> = Vec::new();
        v.push(
            ResumeAction::Write(protocol_error(Some(self.command_id.clone()), code, message)),
        );
        v.push(ResumeAction::Finish(None));
        assert(actions_view(v@) =~= refused(*self, code@, m).1);
        self.phase = ResumePhase::Done { resumed: false };
        v
    }

    fn refuse_with(&mut self, code: &str, intro: &str, error: &String) -> (r: Vec<ResumeAction>)
        ensures
            *final(self) == (ResumeRun {
                phase: ResumePhase::Done { resumed: false },
                ..*old(self)
            }),
            actions_view(r@) == refused(*old(self), code@, intro@ + error@).1,
    {
        let mut m = owned(intro);
        m.append(error.as_str());
        self.refuse(code, m)
    }

    fn show(&self, j: &ReadJournal, seq: &mut u64) -> (r: Vec<ResumeAction>)
        requires
            j.last_seq < u64::MAX,
            self.mode is CatchUp ==> catch_up_seq(j.events@, self.last_consumed) <= u64::MAX,
        ensures
            actions_view(r@) == writes(shown(*self, *j)) + seq![
                ActionView::Write(FrameView::FlowControl(0, None)),
                ActionView::Open(self.session, (j.last_seq + 1) as u64),
            ],
            *final(seq) == seq_after_shown(*self, *j, *old(seq)),
    {
        let mut out: Vec<ResumeAction> = Vec::new();
        assert(actions_view(out@) =~= Seq::empty());
        match self.mode {
            ReplayMode::SnapshotThenLive => {
                let items = snapshot_items(&j.events);
                out.push(
                    ResumeAction::Write(
                        ServerFrame::Snapshot(
                            SessionSnapshotPayload {
                                session_id: self.session,
                                last_seq: j.last_seq,
                                generation: 0,
                                current_turn_id: None,
                                items,
                            },
                        ),
                    ),
                );
                assert(actions_view(out@) =~= writes(shown(*self, *j)));
            },
            ReplayMode::CatchUp => {
                let (frames, after) = catch_up(&j.events, self.last_consumed, self.session);
                out = write_all(frames);
                if after > *seq {
                    *seq = after;
                }
            },
            ReplayMode::LiveOnly => {
                assert(actions_view(out@) =~= writes(shown(*self, *j)));
            },
        }
        let ghost w = actions_view(out@);
        out.push(
            ResumeAction::Write(
                ServerFrame::FlowControl { inflight_events: 0, requested_pause_ms: None },
            ),
        );
        out.push(ResumeAction::Open { session: self.session, next_seq: j.last_seq + 1 });
        assert(actions_view(out@) =~= w + seq![
            ActionView::Write(FrameView::FlowControl(0, None)),
            ActionView::Open(self.session, (j.last_seq + 1) as u64),
        ]);
        out
    }

    /// The first thing to do.
    pub fn begin(&self) -> (r: ResumeAction)
        ensures
            r@ == ActionView::Look(self.journal@),
    {
        ResumeAction::Look(self.journal.clone())
    }

    /// Whether the numbers of an event and of the phase leave room for what
    /// follows.
    pub fn fits(&self, ev: &ResumeEvent) -> (r: bool)
        ensures
            r == (event_fits(*self, *ev) && phase_fits(self.phase)),
    {
        let phase = match self.phase {
            ResumePhase::Open { last_seq, .. } => last_seq < u64::MAX,
            _ => true,
        };
        let event = match (self.phase, ev) {
            (ResumePhase::Read, ResumeEvent::Read(Ok(j))) => {
                let room = match self.mode {
                    ReplayMode::CatchUp => can_catch_up(&j.events, self.last_consumed),
                    _ => true,
                };
                room && j.last_seq < u64::MAX
            },
            _ => true,
        };
        phase && event
    }

    /// Takes what came of the last action and gives what is to be done next.
    pub fn advance(&mut self, ev: ResumeEvent, seq: &mut u64) -> (r: Vec<ResumeAction>)
        requires
            event_fits(*old(self), ev),
            phase_fits(old(self).phase),
        ensures
            *final(self) == (ResumeRun { phase: next_step(*old(self), ev).0, ..*old(self) }),
            actions_view(r@) == next_step(*old(self), ev).1,
            *final(seq) == next_seq(*old(self), ev, *old(seq)),
            phase_fits(final(self).phase),
    {
        match (self.phase, ev) {
            (ResumePhase::Look, ResumeEvent::Found(found)) => {
                if found {
                    self.phase = ResumePhase::Read;
                    one(ResumeAction::Read(self.journal.clone()))
                } else {
                    let mut m = owned("找不到会话 `");
                    m.append(self.session_text.as_str());
                    m.append("` 的 rollout journal (");
                    m.append(self.journal.as_str());
                    m.append(" 不存在)。请确认 session id 拼写。");
                    self.refuse("RESUME_NOT_FOUND", m)
                }
            },
            (ResumePhase::Read, ResumeEvent::Read(r)) => match r {
                Err(e) => self.refuse_with(
                    "RESUME_IO",
                    "读取旧会话 rollout journal 失败：",
                    &e,
                ),
                Ok(j) => {
                    let out = self.show(&j, seq);
                    self.phase = ResumePhase::Open {
                        last_seq: j.last_seq,
                        has_context: j.has_context,
                    };
                    out
                },
            },
            (ResumePhase::Open { last_seq, has_context }, ResumeEvent::Opened(r)) => match r {
                Err(e) => self.refuse_with(
                    "RESUME_IO",
                    "无法启动旧会话的 writable rollout store：",
                    &e,
                ),
                Ok(_) => {
                    self.phase = ResumePhase::Rebind { last_seq, has_context };
                    one(
                        ResumeAction::Send(
                            SessionCommand::RebindRolloutWriter {
                                new_session_id: self.session,
                                next_seq: last_seq + 1,
                            },
                        ),
                    )
                },
            },
            (ResumePhase::Rebind { last_seq, has_context }, ResumeEvent::Sent(r)) => match r {
                Err(e) => self.refuse_with(
                    "RESUME_SUPERVISOR",
                    "RebindRolloutWriter 失败：",
                    &e,
                ),
                Ok(_) => {
                    self.phase = ResumePhase::Recover { last_seq, has_context };
                    one(ResumeAction::RecoverSubagents)
                },
            },
            (ResumePhase::Recover { last_seq, has_context }, ResumeEvent::Recovered) => {
                self.phase = ResumePhase::Announce { has_context };
                one(
                    ResumeAction::Send(
                        SessionCommand::ResumeSession {
                            last_seq,
                            idempotency_key: opt_clone(&self.idempotency_key),
                            emit_snapshot_to_frontend: false,
                        },
                    ),
                )
            },
            (ResumePhase::Announce { has_context }, ResumeEvent::Sent(r)) => match r {
                Err(e) => self.refuse_with(
                    "RESUME_SUPERVISOR",
                    "通知 supervisor ResumeSession 失败：",
                    &e,
                ),
                Ok(_) => {
                    if has_context {
                        self.phase = ResumePhase::Restore;
                        one(ResumeAction::Send(SessionCommand::RestoreContext { persist: false }))
                    } else {
                        self.phase = ResumePhase::Done { resumed: true };
                        one(ResumeAction::Finish(Some(self.session)))
                    }
                },
            },
            (ResumePhase::Restore, ResumeEvent::Sent(r)) => match r {
                Err(e) => self.refuse_with(
                    "RESUME_SUPERVISOR",
                    "RestoreContext 注入 supervisor 失败：",
                    &e,
                ),
                Ok(_) => {
                    self.phase = ResumePhase::Done { resumed: true };
                    one(ResumeAction::Finish(Some(self.session)))
                },
            },
            _ => {
                let none: Vec<ResumeAction> = Vec::new();
                assert(actions_view(none@) =~= Seq::empty());
                none
            },
        }
    }
}

/// Frames as actions.
fn write_all(frames: Vec<ServerFrame>) -> (r: Vec<ResumeAction>)
    ensures
        actions_view(r@) == writes(frames_view(frames@)),
{
    let ghost fs = frames_view(frames@);
    let mut out: Vec<ResumeAction> = Vec::new();
    assert(actions_view(out@) =~= writes(fs.take(0)));
    for f in it: frames
        invariant
            it.seq() == frames@,
            fs == frames_view(frames@),
            actions_view(out@) == writes(fs.take(it.index() as int)),
    {
        let ghost before = actions_view(out@);
        let ghost v = f@;
        out.push(ResumeAction::Write(f));
        assert(actions_view(out@) =~= before.push(ActionView::Write(v)));
        assert(writes(fs.take(it.index() as int + 1)) =~= writes(fs.take(it.index() as int)).push(
            ActionView::Write(v),
        ));
    }
    assert(fs.take(fs.len() as int) =~= fs);
    out
}

/// The session that is resumed is the one that was asked for, and it is taken
/// over only after its journal was read, opened and handed to the session.
pub proof fn only_the_session_asked_for_is_resumed(run: ResumeRun, ev: ResumeEvent, i: int)
    requires
        0 <= i < next_step(run, ev).1.len(),
        next_step(run, ev).1[i] is Finish,
    ensures
        next_step(run, ev).0 is Done,
        next_step(run, ev).1[i] == ActionView::Finish(Some(run.session)) || next_step(
            run,
            ev,
        ).1[i] == ActionView::Finish(None),
        next_step(run, ev).1[i] == ActionView::Finish(Some(run.session)) ==> (run.phase
            is Announce || run.phase is Restore) && (ev matches ResumeEvent::Sent(Ok(_))),
{
}

/// A resumption that ended stays ended.
pub proof fn ended_resumptions_stay_ended(run: ResumeRun, ev: ResumeEvent)
    requires
        run.phase is Done,
    ensures
        next_step(run, ev) == (run.phase, Seq::<ActionView>::empty()),
{
}

/// Nothing is written to an old journal before it was read, and the first
/// event written there follows the last one read.
pub proof fn writing_follows_reading(run: ResumeRun, j: ReadJournal)
    requires
        run.phase == ResumePhase::Read,
        j.last_seq < u64::MAX,
    ensures
        ({
            let (p, a) = next_step(run, ResumeEvent::Read(Ok(j)));
            &&& p == (ResumePhase::Open { last_seq: j.last_seq, has_context: j.has_context })
            &&& a.last() == ActionView::Open(run.session, (j.last_seq + 1) as u64)
        }),
{
}

/// A client can always catch up with a journal whose events are numbered in
/// order, whatever it says that it consumed.
pub proof fn numbered_journals_can_be_caught_up_with(es: Seq<JournalEvent>, last_consumed: u64)
    requires
        forall|i: int, j: int|
            0 <= i < j < es.len() ==> (#[trigger] es[i]).seq < (#[trigger] es[j]).seq,
    ensures
        catch_up_seq(es, last_consumed) <= u64::MAX,
        catch_up_seq(es, last_consumed) <= last_consumed || catch_up_seq(es, last_consumed)
            <= es.last().seq,
    decreases es.len(),
{
    if es.len() > 0 {
        let rest = es.drop_last();
        assert forall|i: int, j: int| 0 <= i < j < rest.len() implies (#[trigger] rest[i]).seq < (
        #[trigger] rest[j]).seq by {
            assert(es[i].seq < es[j].seq);
        }
        numbered_journals_can_be_caught_up_with(rest, last_consumed);
        if rest.len() > 0 {
            assert(es[rest.len() - 1].seq < es[es.len() - 1].seq);
        }
    }
}

/// How many of the first `n` events of a journal a client missed: those with a
/// number above the last one that it consumed.
pub open spec fn missed(es: Seq<JournalEvent>, last_consumed: u64, n: int) -> int
    decreases n,
{
    if n <= 0 {
        0
    } else {
        missed(es, last_consumed, n - 1) + (if es[n - 1].seq > last_consumed {
            1int
        } else {
            0int
        })
    }
}

/// The event that a client is sent for the `i`-th event of a journal, at its
/// place in the stream.
pub open spec fn told(
    es: Seq<JournalEvent>,
    last_consumed: u64,
    session: SessionId,
    i: int,
    u: UpdateView,
) -> FrameView {
    FrameView::Event((last_consumed + missed(es, last_consumed, i + 1)) as u64, session, u)
}

proof fn lemma_missed(es: Seq<JournalEvent>, last_consumed: u64, n: int)
    requires
        0 <= n <= es.len(),
    ensures
        catch_up_seq(es.take(n), last_consumed) == last_consumed + missed(es, last_consumed, n),
    decreases n,
{
    if n > 0 {
        assert(es.take(n).drop_last() =~= es.take(n - 1));
        assert(es.take(n).last() == es[n - 1]);
        lemma_missed(es, last_consumed, n - 1);
    } else {
        assert(es.take(0) =~= Seq::empty());
    }
}

proof fn lemma_told(
    es: Seq<JournalEvent>,
    last_consumed: u64,
    session: SessionId,
    n: int,
    i: int,
)
    requires
        0 <= i < n <= es.len(),
        es[i].seq > last_consumed,
    ensures
        catch_up_update(es[i]) matches Some(u) ==> catch_up_frames(
            es.take(n),
            last_consumed,
            session,
        ).contains(told(es, last_consumed, session, i, u)),
    decreases n,
{
    let d = es.take(n - 1);
    assert(es.take(n).drop_last() =~= d);
    assert(es.take(n).last() == es[n - 1]);
    let below = catch_up_frames(d, last_consumed, session);
    let all = catch_up_frames(es.take(n), last_consumed, session);
    lemma_missed(es, last_consumed, n);
    match catch_up_update(es[i]) {
        Some(u) => {
            let f = told(es, last_consumed, session, i, u);
            if i == n - 1 {
                assert(all[below.len() as int] == f);
            } else {
                lemma_told(es, last_consumed, session, n - 1, i);
                let k = choose|k: int| 0 <= k < below.len() && below[k] == f;
                assert(all[k] == f);
            }
        },
        None => {},
    }
}

/// A client that catches up is told, at its place in the stream, every text of
/// the user, every answer of the model and every end of a turn that it missed.
pub proof fn missed_events_are_told(
    es: Seq<JournalEvent>,
    last_consumed: u64,
    session: SessionId,
    i: int,
)
    requires
        0 <= i < es.len(),
        es[i].seq > last_consumed,
    ensures
        ({
            let fs = catch_up_frames(es, last_consumed, session);
            let p = es[i].payload@;
            match es[i].event_type {
                RolloutEventType::UserInputAccepted => get(p, "text"@) matches Some(
                    JsonView::Text(s),
                ) ==> fs.contains(told(es, last_consumed, session, i, UpdateView::TextDelta(s))),
                RolloutEventType::ModelItemProduced => get(p, "assistant_text"@) matches Some(
                    JsonView::Text(s),
                ) ==> fs.contains(told(es, last_consumed, session, i, UpdateView::TextDelta(s))),
                RolloutEventType::TurnCompleted => fs.contains(
                    told(
                        es,
                        last_consumed,
                        session,
                        i,
                        UpdateView::TurnComplete(
                            match es[i].turn_id {
                                Some(t) => uuid_text_of(t.value()),
                                None => Seq::empty(),
                            },
                            0,
                            0,
                        ),
                    ),
                ),
                _ => true,
            }
        }),
{
    lemma_told(es, last_consumed, session, es.len() as int, i);
    assert(es.take(es.len() as int) =~= es);
}

/// A client that catches up is told nothing else: neither what the model
/// thought nor what the client has already.
pub proof fn nothing_else_is_told(
    es: Seq<JournalEvent>,
    last_consumed: u64,
    session: SessionId,
    k: int,
)
    requires
        0 <= k < catch_up_frames(es, last_consumed, session).len(),
    ensures
        exists|i: int|
            0 <= i < es.len() && (#[trigger] es[i]).seq > last_consumed && {
                let f = catch_up_frames(es, last_consumed, session)[k];
                let p = es[i].payload@;
                match es[i].event_type {
                    RolloutEventType::UserInputAccepted => get(p, "text"@) matches Some(
                        JsonView::Text(s),
                    ) && f == told(es, last_consumed, session, i, UpdateView::TextDelta(s)),
                    RolloutEventType::ModelItemProduced => get(p, "assistant_text"@) matches Some(
                        JsonView::Text(s),
                    ) && f == told(es, last_consumed, session, i, UpdateView::TextDelta(s)),
                    RolloutEventType::TurnCompleted => f == told(
                        es,
                        last_consumed,
                        session,
                        i,
                        UpdateView::TurnComplete(
                            match es[i].turn_id {
                                Some(t) => uuid_text_of(t.value()),
                                None => Seq::empty(),
                            },
                            0,
                            0,
                        ),
                    ),
                    _ => false,
                }
            },
{
    assert(es.take(es.len() as int) =~= es);
    let i = lemma_told_of(es, last_consumed, session, es.len() as int, k);
    assert(es[i].seq > last_consumed);
}

proof fn lemma_told_of(
    es: Seq<JournalEvent>,
    last_consumed: u64,
    session: SessionId,
    n: int,
    k: int,
) -> (i: int)
    requires
        0 <= n <= es.len(),
        0 <= k < catch_up_frames(es.take(n), last_consumed, session).len(),
    ensures
        0 <= i < n,
        es[i].seq > last_consumed,
        catch_up_update(es[i]) matches Some(u) && catch_up_frames(
            es.take(n),
            last_consumed,
            session,
        )[k] == told(es, last_consumed, session, i, u),
    decreases n,
{
    if n == 0 {
        assert(es.take(0) =~= Seq::empty());
        0
    } else {
        assert(es.take(n).drop_last() =~= es.take(n - 1));
        assert(es.take(n).last() == es[n - 1]);
        lemma_missed(es, last_consumed, n);
        let below = catch_up_frames(es.take(n - 1), last_consumed, session);
        if k < below.len() {
            lemma_told_of(es, last_consumed, session, n - 1, k)
        } else {
            n - 1
        }
    }
}

/// After a client caught up, the stream goes on behind the events that it
/// missed, and never falls back.
pub proof fn the_stream_goes_on(run: ResumeRun, j: ReadJournal, seq: u64)
    requires
        run.phase is Read,
        event_fits(run, ResumeEvent::Read(Ok(j))),
    ensures
        next_seq(run, ResumeEvent::Read(Ok(j)), seq) >= seq,
        run.mode == ReplayMode::CatchUp ==> next_seq(run, ResumeEvent::Read(Ok(j)), seq)
            >= run.last_consumed + missed(j.events@, run.last_consumed, j.events@.len() as int),
        run.mode != ReplayMode::CatchUp ==> next_seq(run, ResumeEvent::Read(Ok(j)), seq) == seq,
{
    let es = j.events@;
    lemma_missed(es, run.last_consumed, es.len() as int);
    assert(es.take(es.len() as int) =~= es);
}

/// The items of two journals, one after the other, are those of the one and then
/// those of the other.
pub proof fn items_follow_the_journal(a: Seq<JournalEvent>, b: Seq<JournalEvent>)
    ensures
        journal_items(a + b) == journal_items(a) + journal_items(b),
    decreases b.len(),
{
    if b.len() == 0 {
        assert(a + b =~= a);
        assert(journal_items(a) + journal_items(b) =~= journal_items(a));
    } else {
        assert((a + b).drop_last() =~= a + b.drop_last());
        assert((a + b).last() == b.last());
        items_follow_the_journal(a, b.drop_last());
        assert(journal_items(a + b) =~= journal_items(a) + journal_items(b));
    }
}

proof fn lemma_one_event(e: JournalEvent)
    ensures
        journal_items(seq![e]) == event_items(e),
{
    assert(seq![e].drop_last() =~= Seq::empty());
    assert(journal_items(Seq::empty()) =~= Seq::empty());
    assert(journal_items(seq![e]) =~= event_items(e));
}

/// A text of the user is an item of the snapshot, and the only one of its event.
pub proof fn user_texts_are_items(e: JournalEvent, s: Seq<char>)
    requires
        e.event_type == RolloutEventType::UserInputAccepted,
    ensures
        get(e.payload@, "text"@) == Some(JsonView::Text(s)) ==> journal_items(seq![e]) == seq![
            ItemView {
                item_id: "u-"@ + decimal(e.seq as nat),
                item_type: "user"@,
                content: s,
                complete: true,
            },
        ],
        !(get(e.payload@, "text"@) matches Some(JsonView::Text(_))) ==> journal_items(
            seq![e],
        ).len() == 0,
{
    lemma_one_event(e);
}

/// What the model thought, what it answered and what it called are items of the
/// snapshot, in this order, as far as there is anything.
pub proof fn model_outputs_are_items(
    e: JournalEvent,
    reasoning: Seq<char>,
    answer: Seq<char>,
    calls: Seq<JsonView>,
    i: int,
)
    requires
        e.event_type == RolloutEventType::ModelItemProduced,
        get(e.payload@, "reasoning"@) == Some(JsonView::Text(reasoning)) || (!(get(
            e.payload@,
            "reasoning"@,
        ) matches Some(JsonView::Text(_))) && reasoning.len() == 0),
        get(e.payload@, "assistant_text"@) == Some(JsonView::Text(answer)) || (!(get(
            e.payload@,
            "assistant_text"@,
        ) matches Some(JsonView::Text(_))) && answer.len() == 0),
        get(e.payload@, "tool_calls"@) == Some(JsonView::Array(calls)) || (!(get(
            e.payload@,
            "tool_calls"@,
        ) matches Some(JsonView::Array(_))) && calls.len() == 0),
    ensures
        ({
            let items = journal_items(seq![e]);
            let thought = if reasoning.len() > 0 {
                1int
            } else {
                0int
            };
            let said = if answer.len() > 0 {
                1int
            } else {
                0int
            };
            &&& items.len() == thought + said + calls.len()
            &&& reasoning.len() > 0 ==> items[0] == (ItemView {
                item_id: "th-"@ + decimal(e.seq as nat),
                item_type: "thinking"@,
                content: reasoning,
                complete: true,
            })
            &&& answer.len() > 0 ==> items[thought] == (ItemView {
                item_id: "a-"@ + decimal(e.seq as nat),
                item_type: "assistant"@,
                content: answer,
                complete: true,
            })
            &&& 0 <= i < calls.len() ==> items[thought + said + i] == (ItemView {
                item_id: "tc-"@ + decimal(e.seq as nat) + "-"@ + decimal(i as nat),
                item_type: "tool_call"@,
                content: json_text_of(tool_call_object(calls[i])),
                complete: true,
            })
        }),
{
    lemma_one_event(e);
    let p = e.payload@;
    let a = text_item(p, "reasoning"@, item_id("th-"@, e.seq), "thinking"@);
    let b = text_item(p, "assistant_text"@, item_id("a-"@, e.seq), "assistant"@);
    let c = tool_call_items(e.seq, calls, calls.len() as int);
    lemma_tool_call_items(e.seq, calls, calls.len() as int, i);
    assert(tool_call_items(e.seq, Seq::empty(), 0) =~= Seq::empty());
    if !(get(p, "tool_calls"@) matches Some(JsonView::Array(_))) {
        assert(c =~= Seq::empty());
    }
    assert(event_items(e) =~= a + b + c);
}

proof fn lemma_tool_call_items(seq: u64, calls: Seq<JsonView>, n: int, i: int)
    requires
        0 <= n <= calls.len(),
    ensures
        tool_call_items(seq, calls, n).len() == n,
        0 <= i < n ==> tool_call_items(seq, calls, n)[i] == item(
            item_id("tc-"@, seq) + "-"@ + decimal(i as nat),
            "tool_call"@,
            json_text_of(tool_call_object(calls[i])),
        ),
    decreases n,
{
    if n > 0 {
        lemma_tool_call_items(seq, calls, n - 1, i);
    }
}

/// The result of a tool call is an item of the snapshot, and the only one of its
/// event. Events of other kinds have none.
pub proof fn tool_results_are_items(e: JournalEvent)
    ensures
        e.event_type == RolloutEventType::ToolResultCommitted ==> journal_items(seq![e]) == seq![
            ItemView {
                item_id: "tr-"@ + decimal(e.seq as nat),
                item_type: "tool_result"@,
                content: json_text_of(tool_result_object(e.payload@)),
                complete: true,
            },
        ],
        e.event_type != RolloutEventType::ToolResultCommitted && e.event_type
            != RolloutEventType::UserInputAccepted && e.event_type
            != RolloutEventType::ModelItemProduced ==> journal_items(seq![e]).len() == 0,
{
    lemma_one_event(e);
}

/// What a snapshot says of a tool call: its identifier, its name and its
/// arguments, and nothing else.
pub proof fn tool_calls_are_shown_whole(tc: JsonView, key: Seq<char>)
    ensures
        tool_call_object(tc) matches JsonView::Object(o) && {
            &&& in_key_order(o)
            &&& lookup(o, "call_id"@) == Some(
                JsonView::Text(
                    match get(tc, "call_id"@) {
                        Some(JsonView::Text(s)) => s,
                        _ => ""@,
                    },
                ),
            )
            &&& lookup(o, "name"@) == Some(
                JsonView::Text(
                    match get(tc, "name"@) {
                        Some(JsonView::Text(s)) => s,
                        _ => ""@,
                    },
                ),
            )
            &&& lookup(o, "arguments"@) == Some(
                match get(tc, "arguments"@) {
                    Some(a) => a,
                    None => JsonView::Null,
                },
            )
            &&& key != "call_id"@ && key != "name"@ && key != "arguments"@ ==> lookup(o, key)
                is None
        },
{
    lemma_object_keys();
    let none = Seq::<(Seq<char>, JsonView)>::empty();
    let x = JsonView::Text(text_or(tc, "call_id"@, ""@));
    let y = JsonView::Text(text_or(tc, "name"@, ""@));
    let z = match get(tc, "arguments"@) {
        Some(a) => a,
        None => JsonView::Null,
    };
    lemma_three_puts("call_id"@, x, "name"@, y, "arguments"@, z, key);
}

/// What a snapshot says of the result of a tool call: the identifier of the
/// call, the text of the content and whether it is an error, and nothing else.
pub proof fn tool_results_are_shown_whole(p: JsonView, key: Seq<char>)
    ensures
        tool_result_object(p) matches JsonView::Object(o) && {
            &&& in_key_order(o)
            &&& lookup(o, "call_id"@) == Some(
                JsonView::Text(
                    match get(p, "call_id"@) {
                        Some(JsonView::Text(s)) => s,
                        _ => ""@,
                    },
                ),
            )
            &&& lookup(o, "content"@) == Some(
                JsonView::Text(
                    match get(p, "content"@) {
                        Some(c) => json_text_of(c),
                        None => Seq::empty(),
                    },
                ),
            )
            &&& lookup(o, "is_error"@) == Some(
                JsonView::Bool(get(p, "is_error"@) == Some(JsonView::Bool(true))),
            )
            &&& key != "call_id"@ && key != "content"@ && key != "is_error"@ ==> lookup(o, key)
                is None
        },
{
    lemma_object_keys();
    let x = JsonView::Text(text_or(p, "call_id"@, ""@));
    let y = JsonView::Text(
        match get(p, "content"@) {
            Some(c) => json_text_of(c),
            None => Seq::empty(),
        },
    );
    let z = JsonView::Bool(flag_of(p, "is_error"@));
    lemma_three_puts("call_id"@, x, "content"@, y, "is_error"@, z, key);
}

proof fn lemma_object_keys()
    ensures
        "call_id"@ != "name"@,
        "call_id"@ != "arguments"@,
        "name"@ != "arguments"@,
        "call_id"@ != "content"@,
        "call_id"@ != "is_error"@,
        "content"@ != "is_error"@,
{
    reveal_strlit("call_id");
    reveal_strlit("name");
    reveal_strlit("arguments");
    reveal_strlit("content");
    reveal_strlit("is_error");
    assert("call_id"@.len() == 7 && "name"@.len() == 4 && "arguments"@.len() == 9
        && "content"@.len() == 7 && "is_error"@.len() == 8);
    assert("call_id"@[1] != "content"@[1]);
}

proof fn lemma_three_puts(
    a: Seq<char>,
    x: JsonView,
    b: Seq<char>,
    y: JsonView,
    c: Seq<char>,
    z: JsonView,
    key: Seq<char>,
)
    requires
        a != b,
        a != c,
        b != c,
    ensures
        ({
            let none = Seq::<(Seq<char>, JsonView)>::empty();
            let o = put(put(put(none, a, x), b, y), c, z);
            &&& in_key_order(o)
            &&& lookup(o, a) == Some(x)
            &&& lookup(o, b) == Some(y)
            &&& lookup(o, c) == Some(z)
            &&& key != a && key != b && key != c ==> lookup(o, key) is None
        }),
{
    let none = Seq::<(Seq<char>, JsonView)>::empty();
    let p = put(none, a, x);
    let q = put(p, b, y);
    put_keeps_order(none, a, x);
    put_keeps_order(p, b, y);
    put_keeps_order(q, c, z);
    lookup_after_put(none, a, x, key);
    lookup_after_put(p, b, y, key);
    lookup_after_put(q, c, z, key);
    lookup_after_put(p, b, y, a);
    lookup_after_put(q, c, z, a);
    lookup_after_put(q, c, z, b);
}

/// Only an answer that allows a call allows it; it holds for good only where the
/// user said so, and narrowed arguments are handed on as the user narrowed them.
pub proof fn answers_mean_what_they_say(r: ApprovalResolution)
    ensures
        approval_of(r).0 == PolicyDecision::Allow <==> (r is Allow || r is AlwaysAllow || r
            is Narrow),
        approval_of(r).0 == PolicyDecision::Deny <==> (r is Deny || r is Cancel),
        approval_of(r).2 <==> r is AlwaysAllow,
        r matches ApprovalResolution::Narrow { narrowed_args } ==> approval_of(r).1 == Some(
            narrowed_args@,
        ),
        !(r is Narrow) ==> approval_of(r).1 is None,
{
}

/// A session is told what its client asked for, with the client's own words.
pub proof fn commands_are_handed_on(b: CommandBody)
    ensures
        match b {
            CommandBody::Prompt { text } => direct_command(b) == Some(CommandView::StartTurn(text@)),
            CommandBody::Steer { text } => direct_command(b) == Some(CommandView::Steer(text@)),
            CommandBody::Cancel => direct_command(b) == Some(CommandView::CancelTurn),
            CommandBody::ResolveApproval { ticket_id, resolution } => direct_command(b)
                matches Some(CommandView::ResolveApproval(t, d, n, always)) && t == ticket_id@ && (
            d == PolicyDecision::Deny <==> (resolution is Deny || resolution is Cancel)) && (always
                <==> resolution is AlwaysAllow) && (n is Some <==> resolution is Narrow),
            CommandBody::ResolveIndeterminate { call_id, resolution, content } => direct_command(b)
                == Some(
                CommandView::ResolveIndeterminate(call_id@, resolution, opt_view(content)),
            ),
            CommandBody::ResumeSession { .. } => direct_command(b) is None,
        },
{
}

/// A resumption in which nothing fails reads the journal that was asked for,
/// opens it behind its last event, hands it to the session, recovers the
/// sub-agents, announces the session and gives it its context, each after the
/// other.
pub proof fn resumptions_go_step_by_step(
    run: ResumeRun,
    j: ReadJournal,
    last_seq: u64,
    has_context: bool,
)
    ensures
        run.phase is Look ==> next_step(run, ResumeEvent::Found(true)) == (
            ResumePhase::Read,
            seq![ActionView::Read(run.journal@)],
        ),
        run.phase is Read ==> next_step(run, ResumeEvent::Read(Ok(j))).0 == (ResumePhase::Open {
            last_seq: j.last_seq,
            has_context: j.has_context,
        }),
        run.phase == (ResumePhase::Open { last_seq, has_context }) ==> next_step(
            run,
            ResumeEvent::Opened(Ok(())),
        ) == (
            ResumePhase::Rebind { last_seq, has_context },
            seq![
                ActionView::Send(
                    CommandView::RebindRolloutWriter(run.session, (last_seq + 1) as u64),
                ),
            ],
        ),
        run.phase == (ResumePhase::Rebind { last_seq, has_context }) ==> next_step(
            run,
            ResumeEvent::Sent(Ok(())),
        ) == (
            ResumePhase::Recover { last_seq, has_context },
            seq![ActionView::RecoverSubagents],
        ),
        run.phase == (ResumePhase::Recover { last_seq, has_context }) ==> next_step(
            run,
            ResumeEvent::Recovered,
        ) == (
            ResumePhase::Announce { has_context },
            seq![
                ActionView::Send(
                    CommandView::ResumeSession(last_seq, opt_view(run.idempotency_key), false),
                ),
            ],
        ),
        run.phase == (ResumePhase::Announce { has_context: true }) ==> next_step(
            run,
            ResumeEvent::Sent(Ok(())),
        ) == (
            ResumePhase::Restore,
            seq![ActionView::Send(CommandView::RestoreContext(false))],
        ),
        run.phase == (ResumePhase::Announce { has_context: false }) ==> next_step(
            run,
            ResumeEvent::Sent(Ok(())),
        ) == (
            ResumePhase::Done { resumed: true },
            seq![ActionView::Finish(Some(run.session))],
        ),
        run.phase is Restore ==> next_step(run, ResumeEvent::Sent(Ok(()))) == (
            ResumePhase::Done { resumed: true },
            seq![ActionView::Finish(Some(run.session))],
        ),
{
}

/// An old session is shown as the client asked: as a snapshot of all its items,
/// as the events that it missed, or not at all; then the stream is opened and
/// the journal is opened behind its last event.
pub proof fn old_sessions_are_shown_as_asked(run: ResumeRun, j: ReadJournal)
    requires
        run.phase is Read,
    ensures
        ({
            let acts = next_step(run, ResumeEvent::Read(Ok(j))).1;
            let n = acts.len() as int;
            &&& n >= 2
            &&& acts[n - 2] == ActionView::Write(FrameView::FlowControl(0, None))
            &&& acts[n - 1] == ActionView::Open(run.session, (j.last_seq + 1) as u64)
            &&& run.mode == ReplayMode::LiveOnly ==> n == 2
            &&& run.mode == ReplayMode::SnapshotThenLive ==> n == 3 && acts[0]
                == ActionView::Write(
                FrameView::Snapshot(run.session, j.last_seq, 0, None, journal_items(j.events@)),
            )
            &&& run.mode == ReplayMode::CatchUp ==> n == 2 + catch_up_frames(
                j.events@,
                run.last_consumed,
                run.session,
            ).len() && forall|k: int|
                0 <= k < n - 2 ==> #[trigger] acts[k] == ActionView::Write(
                    catch_up_frames(j.events@, run.last_consumed, run.session)[k],
                )
        }),
{
}

/// A resumption that meets an error ends there: the client is told why, and no
/// session is taken over.
pub proof fn failures_end_the_resumption(run: ResumeRun, e: String)
    ensures
        ({
            let ended = |step: (ResumePhase, Seq<ActionView>), code: Seq<char>|
                {
                    &&& step.0 == ResumePhase::Done { resumed: false }
                    &&& step.1.len() == 2
                    &&& step.1[1] == ActionView::Finish(None)
                    &&& step.1[0] matches ActionView::Write(FrameView::ProtocolError(c, m, id))
                        && c == code && id == Some(run.command_id@) && has_suffix(m, e@)
                };
            &&& run.phase is Read ==> ended(
                next_step(run, ResumeEvent::Read(Err(e))),
                "RESUME_IO"@,
            )
            &&& run.phase is Open ==> ended(
                next_step(run, ResumeEvent::Opened(Err(e))),
                "RESUME_IO"@,
            )
            &&& run.phase is Rebind || run.phase is Announce || run.phase is Restore ==> ended(
                next_step(run, ResumeEvent::Sent(Err(e))),
                "RESUME_SUPERVISOR"@,
            )
        }),
        run.phase is Look ==> {
            let step = next_step(run, ResumeEvent::Found(false));
            &&& step.0 == ResumePhase::Done { resumed: false }
            &&& step.1.len() == 2
            &&& step.1[1] == ActionView::Finish(None)
            &&& step.1[0] matches ActionView::Write(FrameView::ProtocolError(c, m, id)) && c
                == "RESUME_NOT_FOUND"@ && id == Some(run.command_id@)
        },
{
    let ms = seq![
        "读取旧会话 rollout journal 失败："@,
        "无法启动旧会话的 writable rollout store："@,
        "RebindRolloutWriter 失败："@,
        "通知 supervisor ResumeSession 失败："@,
        "RestoreContext 注入 supervisor 失败："@,
    ];
    assert forall|i: int| 0 <= i < ms.len() implies has_suffix(#[trigger] ms[i] + e@, e@) by {
        assert((ms[i] + e@).skip((ms[i] + e@).len() - e@.len()) =~= e@);
    }
    assert(ms[0] == "读取旧会话 rollout journal 失败："@);
    assert(ms[1] == "无法启动旧会话的 writable rollout store："@);
    assert(ms[2] == "RebindRolloutWriter 失败："@);
    assert(ms[3] == "通知 supervisor ResumeSession 失败："@);
    assert(ms[4] == "RestoreContext 注入 supervisor 失败："@);
}

/// The journal of a session stands in a directory with its name.
pub proof fn journals_have_their_directory(base: Seq<char>, session: SessionId)
    requires
        base.len() > 0,
        base.last() != '/',
    ensures
        journal_path_of(base, session) == base + "/"@ + uuid_text_of(session.value()) + "/"@
            + "rollout.jsonl"@,
{
    reveal_strlit("/");
    reveal_strlit("rollout.jsonl");
    let u = uuid_text_of(session.value());
    crate::hash::numbers_fill_their_width(session.value() as nat, 32);
    crate::domain::id::uuids_have_five_groups(session.value(), 0);
    crate::domain::id::uuids_have_five_groups(session.value(), 35);
    lemma_hex_digit(session.value() as nat, 32, 0);
    lemma_hex_digit(session.value() as nat, 32, 31);
    assert(u[0] != '/' && u[35] != '/');
    crate::paths::paths_are_joined_by_one_slash(base, u);
    let d = base + "/"@ + u;
    assert(d.last() == u[35]);
    crate::paths::paths_are_joined_by_one_slash(d, "rollout.jsonl"@);
}

proof fn lemma_hex_digit(n: nat, width: nat, i: int)
    requires
        0 <= i < width,
    ensures
        crate::hash::hex_digits(n, width).len() == width,
        crate::text::hex_digit_value(crate::hash::hex_digits(n, width)[i]) >= 0,
    decreases width,
{
    crate::hash::numbers_fill_their_width(n, width);
    let h = crate::hash::hex_digits(n, width);
    if i == width - 1 {
        assert(h[i] == h.last());
    } else {
        lemma_hex_digit(n / 16, (width - 1) as nat, i);
        assert(h[i] == h.drop_last()[i]);
    }
}

/// A resumption begins with what the client asked for: the session, how its
/// journal is told, and from where on.
pub proof fn resumptions_begin_as_asked(run: ResumeRun, cmd: AcpCommand, base: Seq<char>, session: u128)
    requires
        is_fresh_run(run, cmd, base, session),
    ensures
        run.session.value() == session,
        run.command_id@ == cmd.command_id@,
        run.idempotency_key is Some <==> cmd.idempotency_key is Some,
        cmd.idempotency_key matches Some(k) ==> run.idempotency_key->0@ == k@,
        run.journal@ == journal_path_of(base, run.session),
        run.phase is Look,
        cmd.body matches CommandBody::ResumeSession { session_id, mode, last_consumed_seq, ack_bucket } && {
            &&& run.session_text@ == session_id@
            &&& run.mode == mode
            &&& run.last_consumed == last_consumed_seq
        },
{
}

} // verus!
