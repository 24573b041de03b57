//! What is shown of the telemetry database.

use vstd::prelude::*;
use vstd::string::*;

use crate::telemetry::DoctorReport;
use crate::text::{opt_view, owned, same};

verus! {

/// A call of a model.
#[derive(Debug)]
pub struct TurnModelAttemptDto {
    pub provider: String,
    pub model: String,
    pub attempts: Option<i64>,
    pub status: Option<String>,
    pub error_class: Option<String>,
    pub http_status: Option<i64>,
    pub duration_ms: Option<i64>,
    pub first_token_ms: Option<i64>,
    pub input_tokens: Option<i64>,
    pub cached_input_tokens: Option<i64>,
    pub cache_creation_tokens: Option<i64>,
    pub output_tokens: Option<i64>,
    pub reasoning_tokens: Option<i64>,
    pub total_tokens: Option<i64>,
}

/// A retrieval from memory.
#[derive(Debug)]
pub struct MemoryRetrievalDto {
    pub turn_id: Option<String>,
    pub query_chars: Option<i64>,
    pub selected_count: Option<i64>,
    pub duration_ms: Option<i64>,
    pub router_kind: Option<String>,
    pub occurred_at: String,
}

/// A turn.
#[derive(Debug)]
pub struct TurnDto {
    pub turn_id: String,
    pub status: String,
    pub termination_reason: Option<String>,
    pub started_at: Option<String>,
    pub finished_at: Option<String>,
    pub duration_ms: Option<i64>,
    pub steps: Option<i64>,
    pub model_calls: Option<i64>,
    pub tool_calls: Option<i64>,
    pub retries: Option<i64>,
    pub attempts: Vec<TurnModelAttemptDto>,
    pub memory_retrievals: Vec<MemoryRetrievalDto>,
}

/// A session with its turns.
#[derive(Debug)]
pub struct SessionDetail {
    pub session_id: String,
    pub turns: Vec<TurnDto>,
}

/// An event that tells of an error.
#[derive(Debug)]
pub struct ErrorDto {
    pub occurred_at: String,
    pub session_id: String,
    pub kind: String,
    pub status: Option<String>,
    pub call_id: Option<String>,
}

/// The health of the database, with the latest errors.
#[derive(Debug)]
pub struct DoctorDto {
    pub open_turns: i64,
    pub running_tools: i64,
    pub uncommitted_results: i64,
    pub failed_attempts: i64,
    pub indeterminate_tools: i64,
    pub in_flight_compactions: i64,
    pub total_events: i64,
    pub total_sessions: i64,
    pub errors: Vec<ErrorDto>,
}

/// The retrievals of a turn, in order.
pub open spec fn retrievals_of(ms: Seq<MemoryRetrievalDto>, turn_id: Seq<char>) -> Seq<
    MemoryRetrievalDto,
>
    decreases ms.len(),
{
    if ms.len() == 0 {
        Seq::empty()
    } else {
        let below = retrievals_of(ms.drop_last(), turn_id);
        if opt_view(ms.last().turn_id) == Some(turn_id) {
            below.push(ms.last())
        } else {
            below
        }
    }
}

/// The retrievals of none of the given turns, in order.
pub open spec fn left_over(ms: Seq<MemoryRetrievalDto>, turn_id: Seq<char>) -> Seq<
    MemoryRetrievalDto,
>
    decreases ms.len(),
{
    if ms.len() == 0 {
        Seq::empty()
    } else {
        let below = left_over(ms.drop_last(), turn_id);
        if opt_view(ms.last().turn_id) == Some(turn_id) {
            below
        } else {
            below.push(ms.last())
        }
    }
}

/// The retrievals that are left after the first `n` turns took theirs.
pub open spec fn left_after(
    turns: Seq<TurnDto>,
    ms: Seq<MemoryRetrievalDto>,
    n: int,
) -> Seq<MemoryRetrievalDto>
    decreases n,
{
    if n <= 0 {
        ms
    } else {
        left_over(left_after(turns, ms, n - 1), turns[n - 1].turn_id@)
    }
}

/// Whether a turn is another with retrievals of its own.
pub open spec fn is_joined(t: TurnDto, of: TurnDto, ms: Seq<MemoryRetrievalDto>) -> bool {
    &&& t.turn_id == of.turn_id
    &&& t.status == of.status
    &&& t.termination_reason == of.termination_reason
    &&& t.started_at == of.started_at
    &&& t.finished_at == of.finished_at
    &&& t.duration_ms == of.duration_ms
    &&& t.steps == of.steps
    &&& t.model_calls == of.model_calls
    &&& t.tool_calls == of.tool_calls
    &&& t.retries == of.retries
    &&& t.attempts == of.attempts
    &&& t.memory_retrievals@ == ms
}

fn take_retrievals(ms: Vec<MemoryRetrievalDto>, turn_id: &str) -> (r: (
    Vec<MemoryRetrievalDto>,
    Vec<MemoryRetrievalDto>,
))
    ensures
        r.0@ == retrievals_of(ms@, turn_id@),
        r.1@ == left_over(ms@, turn_id@),
{
    let ghost all = ms@;
    let mut of_turn: Vec<MemoryRetrievalDto> = Vec::new();
    let mut rest: Vec<MemoryRetrievalDto> = Vec::new();
    assert(all.take(0) =~= Seq::empty());
    for m in it: ms
        invariant
            it.seq() == ms@,
            all == ms@,
            of_turn@ == retrievals_of(all.take(it.index() as int), turn_id@),
            rest@ == left_over(all.take(it.index() as int), turn_id@),
    {
        let ghost i = it.index() as int;
        proof {
            assert(all.take(i + 1).drop_last() =~= all.take(i));
            assert(all.take(i + 1).last() == m);
        }
        let hit = match &m.turn_id {
            Some(t) => same(t.as_str(), turn_id),
            None => false,
        };
        if hit {
            of_turn.push(m);
        } else {
            rest.push(m);
        }
    }
    assert(all.take(all.len() as int) =~= all);
    (of_turn, rest)
}

/// Gives each turn of a session the retrievals from memory that were made in
/// it. Of turns with one identifier the first has them all.
pub fn session_detail(session_id: String, turns: Vec<TurnDto>, retrievals: Vec<MemoryRetrievalDto>) -> (r:
    SessionDetail)
    ensures
        r.session_id@ == session_id@,
        r.turns@.len() == turns@.len(),
        forall|i: int|
            0 <= i < turns@.len() ==> is_joined(
                #[trigger] r.turns@[i],
                turns@[i],
                retrievals_of(left_after(turns@, retrievals@, i), turns@[i].turn_id@),
            ),
{
    let ghost ts = turns@;
    let ghost ms = retrievals@;
    let mut rest = retrievals;
    let mut out: Vec<TurnDto> = Vec::new();
    for t in it: turns
        invariant
            it.seq() == turns@,
            ts == turns@,
            out@.len() == it.index(),
            rest@ == left_after(ts, ms, it.index() as int),
            forall|i: int|
                0 <= i < out@.len() ==> is_joined(
                    #[trigger] out@[i],
                    ts[i],
                    retrievals_of(left_after(ts, ms, i), ts[i].turn_id@),
                ),
    {
        let (of_turn, left) = take_retrievals(rest, t.turn_id.as_str());
        rest = left;
        out.push(TurnDto { memory_retrievals: of_turn, ..t });
    }
    SessionDetail { session_id, turns: out }
}

/// The health of the database as the panel shows it.
pub fn doctor(d: DoctorReport, errors: Vec<ErrorDto>) -> (r: DoctorDto)
    ensures
        r == (DoctorDto {
            open_turns: d.open_turns,
            running_tools: d.running_tools,
            uncommitted_results: d.uncommitted_results,
            failed_attempts: d.failed_attempts,
            indeterminate_tools: d.indeterminate_tools,
            in_flight_compactions: d.in_flight_compactions,
            total_events: d.total_events,
            total_sessions: d.total_sessions,
            errors,
        }),
{
    DoctorDto {
        open_turns: d.open_turns,
        running_tools: d.running_tools,
        uncommitted_results: d.uncommitted_results,
        failed_attempts: d.failed_attempts,
        indeterminate_tools: d.indeterminate_tools,
        in_flight_compactions: d.in_flight_compactions,
        total_events: d.total_events,
        total_sessions: d.total_sessions,
        errors,
    }
}

/// The message for the user where the telemetry database is not there.
pub fn telemetry_missing(path: &str) -> (r: String)
    ensures
        r@ == "可观测数据库不存在："@ + path@ + "（先跑过至少一次会话才会生成）"@,
{
    let mut m = owned("可观测数据库不存在：");
    m.append(path);
    m.append("（先跑过至少一次会话才会生成）");
    m
}

/// A turn whose identifier is its own has every retrieval that was made in it.
pub proof fn turns_have_their_retrievals(
    turns: Seq<TurnDto>,
    ms: Seq<MemoryRetrievalDto>,
    i: int,
    n: int,
)
    requires
        0 <= n <= i < turns.len(),
        forall|k: int| 0 <= k < i ==> (#[trigger] turns[k]).turn_id@ != turns[i].turn_id@,
    ensures
        retrievals_of(left_after(turns, ms, n), turns[i].turn_id@) == retrievals_of(
            ms,
            turns[i].turn_id@,
        ),
    decreases n,
{
    if n > 0 {
        turns_have_their_retrievals(turns, ms, i, n - 1);
        assert(turns[n - 1].turn_id@ != turns[i].turn_id@);
        lemma_left_over(left_after(turns, ms, n - 1), turns[n - 1].turn_id@, turns[i].turn_id@);
    }
}

proof fn lemma_left_over(ms: Seq<MemoryRetrievalDto>, a: Seq<char>, b: Seq<char>)
    requires
        a != b,
    ensures
        retrievals_of(left_over(ms, a), b) == retrievals_of(ms, b),
    decreases ms.len(),
{
    if ms.len() > 0 {
        lemma_left_over(ms.drop_last(), a, b);
        let below = left_over(ms.drop_last(), a);
        if opt_view(ms.last().turn_id) != Some(a) {
            assert(below.push(ms.last()).drop_last() =~= below);
        }
    }
}

/// The retrievals of a turn are those that name it, in their order. Those that
/// name another turn or none are left.
pub proof fn retrievals_belong_to_the_turn_they_name(
    ms: Seq<MemoryRetrievalDto>,
    m: MemoryRetrievalDto,
    turn_id: Seq<char>,
)
    ensures
        (m.turn_id matches Some(t) && t@ == turn_id) ==> retrievals_of(ms.push(m), turn_id)
            == retrievals_of(ms, turn_id).push(m) && left_over(ms.push(m), turn_id) == left_over(ms, turn_id),
        !(m.turn_id matches Some(t) && t@ == turn_id) ==> retrievals_of(ms.push(m), turn_id)
            == retrievals_of(ms, turn_id) && left_over(ms.push(m), turn_id) == left_over(ms, turn_id).push(m),
        retrievals_of(Seq::empty(), turn_id).len() == 0,
        left_over(Seq::empty(), turn_id).len() == 0,
{
    assert(ms.push(m).drop_last() =~= ms);
}

/// A turn with its retrievals is otherwise the turn that it was.
pub proof fn turns_keep_everything_else(t: TurnDto, of: TurnDto, ms: Seq<MemoryRetrievalDto>)
    requires
        is_joined(t, of, ms),
    ensures
        t.turn_id == of.turn_id,
        t.status == of.status,
        t.termination_reason == of.termination_reason,
        t.started_at == of.started_at,
        t.finished_at == of.finished_at,
        t.duration_ms == of.duration_ms,
        t.steps == of.steps,
        t.model_calls == of.model_calls,
        t.tool_calls == of.tool_calls,
        t.retries == of.retries,
        t.attempts == of.attempts,
        t.memory_retrievals@ == ms,
{
}

} // verus!
