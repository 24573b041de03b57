//! The agent's side of the protocol: which frames go out, when they wait, and
//! what is made of the frames that come in.

use vstd::prelude::*;

use crate::domain::id::{uuid_parse_of, SessionId};
use crate::session::acp::{
    frame_for, map_loop_event_to_update, protocol_error, FrameView, LoopEvent, ServerFrame,
};
use crate::session::idempotency::{
    after_insert, after_lookup, is_live, lookups_add_nothing, new_keys_are_added,
    unknown_keys_are_not_live, IdempotencyCache,
};
use crate::session::route::{
    check_idempotency, direct_command, is_fresh_run, route_command, AckBucket, AcpCommand,
    CommandBody, Routed,
};
use crate::text::{opt_view, trim, trimmed};

verus! {

/// The number of frames under way that a client starts with.
pub const INITIAL_CAP: u32 = 128;

/// The largest number of frames under way that a client can ask for.
pub const LARGEST_CAP: u32 = 512;

/// How long, in milliseconds, an event waits for a slow client.
pub const LONGEST_WAIT_MS: u64 = 10_000;

/// How long, in milliseconds, one wait takes.
pub const WAIT_STEP_MS: u64 = 10;

/// The number of keys that are remembered.
pub const KEY_CAPACITY: usize = 512;

/// How long, in nanoseconds, a key is remembered: an hour.
pub const KEY_LIFETIME: u64 = 3_600_000_000_000;

/// A frame of the client.
#[derive(Debug)]
pub enum ClientFrame {
    Command(AcpCommand),
    Ack { last_consumed_seq: u64 },
    Ping { sent_at_ms: u64 },
}

/// What came of reading a line.
#[derive(Debug)]
pub enum LineRead {
    Line(String),
    End,
    Failed(String),
}

/// What is to be done about a line.
#[derive(Debug)]
pub enum LineStep {
    /// It is to be read as a frame.
    Parse(String),
    /// Nothing.
    Skip,
    /// The client is told of an error.
    Answer(ServerFrame),
    /// The client is gone.
    Stop,
}

/// What is to be done about a frame of the client.
#[derive(Debug)]
pub enum FrameStep {
    /// A frame goes out.
    Answer(ServerFrame),
    /// A command is carried out, and then the client's wishes are followed.
    Route(Routed, Option<AckBucket>),
    Nothing,
}

/// Whether an event can go out.
#[derive(Debug)]
pub enum Gate {
    Proceed,
    /// It waits, and the client is told so.
    Wait(ServerFrame),
}

/// The connection to a client.
#[derive(Debug)]
pub struct AcpServer {
    /// The session that frames belong to.
    pub session_id: SessionId,
    /// The place of the last event in the stream.
    pub seq: u64,
    /// The last place that the client has dealt with.
    pub last_consumed: u64,
    /// The number of events under way that the client takes.
    pub inflight_cap: u32,
    /// Until when the client wants nothing, in nanoseconds.
    pub pause_until: Option<u64>,
    /// The keys of the commands that were handled.
    pub keys: IdempotencyCache,
}

/// The number of events under way, with the next one.
pub open spec fn inflight_of(seq: u64, last_consumed: u64) -> int {
    if seq + 1 >= last_consumed {
        seq + 1 - last_consumed
    } else {
        0
    }
}

/// Whether an event can go out: the client has room and does not pause, or it
/// has kept the event waiting for long enough.
pub open spec fn may_go_out(s: AcpServer, waited_ms: u64, now: u64) -> bool {
    ||| waited_ms >= LONGEST_WAIT_MS
    ||| inflight_of(s.seq, s.last_consumed) < s.inflight_cap && !(s.pause_until matches Some(t)
        && now < t)
}

/// A number between the bounds of the cap.
pub open spec fn cap_of(asked: u32) -> u32 {
    if asked > LARGEST_CAP {
        LARGEST_CAP
    } else if asked < 1 {
        1
    } else {
        asked
    }
}

/// The pause that a client asked for.
pub open spec fn pause_of(ack: AckBucket, before: Option<u64>, now: u64) -> Option<u64> {
    match ack.requested_pause_ms {
        Some(ms) => Some((now + ms * 1_000_000) as u64),
        None => before,
    }
}

impl AcpServer {
    /// Whether the server's parts fit together.
    pub open spec fn wf(&self) -> bool {
        &&& self.keys.wf()
        &&& self.keys.limit() == KEY_CAPACITY
        &&& self.keys.lifetime() == KEY_LIFETIME
        &&& 1 <= self.inflight_cap <= LARGEST_CAP
    }

    /// A connection to a client that has seen nothing.
    pub fn new(session_id: SessionId) -> (r: Self)
        ensures
            r.wf(),
            r.session_id == session_id,
            r.seq == 0,
            r.last_consumed == 0,
            r.inflight_cap == INITIAL_CAP,
            r.pause_until is None,
            r.keys.view() == Seq::<(Seq<char>, u64)>::empty(),
    {
        AcpServer {
            session_id,
            seq: 0,
            last_consumed: 0,
            inflight_cap: INITIAL_CAP,
            pause_until: None,
            keys: IdempotencyCache::new(KEY_CAPACITY, KEY_LIFETIME),
        }
    }

    /// Whether the next event can go out after waiting for `waited_ms`.
    pub fn gate(&self, waited_ms: u64, now: u64) -> (r: Gate)
        requires
            self.seq < u64::MAX,
        ensures
            r is Proceed == may_go_out(*self, waited_ms, now),
            r matches Gate::Wait(f) ==> f@ == FrameView::FlowControl(
                if inflight_of(self.seq, self.last_consumed) > u32::MAX {
                    u32::MAX
                } else {
                    inflight_of(self.seq, self.last_consumed) as u32
                },
                Some(10),
            ),
    {
        let next: u64 = self.seq + 1;
        let inflight: u64 = if next >= self.last_consumed {
            next - self.last_consumed
        } else {
            0
        };
        let paused = match self.pause_until {
            Some(t) => now < t,
            None => false,
        };
        if inflight < self.inflight_cap as u64 && !paused {
            return Gate::Proceed;
        }
        if waited_ms >= LONGEST_WAIT_MS {
            return Gate::Proceed;
        }
        let shown: u32 = if inflight > u32::MAX as u64 {
            u32::MAX
        } else {
            inflight as u32
        };
        Gate::Wait(ServerFrame::FlowControl { inflight_events: shown, requested_pause_ms: Some(10) })
    }

    /// Takes the next place in the stream for an event, and gives the frame
    /// that goes out, if any.
    pub fn emit(&mut self, ev: LoopEvent) -> (r: Option<ServerFrame>)
        requires
            old(self).seq < u64::MAX,
        ensures
            *final(self) == (AcpServer { seq: (old(self).seq + 1) as u64, ..*old(self) }),
            match r {
                Some(f) => frame_for(ev, old(self).session_id, (old(self).seq + 1) as u64) == Some(
                    f@,
                ),
                None => frame_for(ev, old(self).session_id, (old(self).seq + 1) as u64) is None,
            },
    {
        self.seq = self.seq + 1;
        map_loop_event_to_update(ev, self.session_id, self.seq)
    }

    /// What is to be done about a line.
    pub fn read_line(line: LineRead) -> (r: LineStep)
        ensures
            match line {
                LineRead::End => r is Stop,
                LineRead::Failed(e) => r matches LineStep::Answer(f) && f@
                    == FrameView::ProtocolError("IO_READ"@, e@, None),
                LineRead::Line(l) => if trimmed(l@).len() == 0 {
                    r is Skip
                } else {
                    r matches LineStep::Parse(t) && t@ == trimmed(l@)
                },
            },
    {
        match line {
            LineRead::End => LineStep::Stop,
            LineRead::Failed(e) => LineStep::Answer(protocol_error(None, "IO_READ", e)),
            LineRead::Line(l) => {
                let t = trim(l.as_str());
                if t.as_str().is_empty() {
                    LineStep::Skip
                } else {
                    LineStep::Parse(t)
                }
            },
        }
    }

    /// What a client is told whose line is no frame.
    pub fn parse_failed(error: String) -> (r: ServerFrame)
        ensures
            r@ == FrameView::ProtocolError("PARSE"@, error@, None),
    {
        protocol_error(None, "PARSE", error)
    }

    /// The frame that keeps an idle connection open.
    pub fn keepalive(now_ms: u64) -> (r: ServerFrame)
        ensures
            r@ == FrameView::Ping(now_ms),
    {
        ServerFrame::Ping { sent_at_ms: now_ms }
    }

    /// Takes a frame of the client. `base` is the directory of the journals,
    /// `now` the monotonic clock, `now_ms` the wall clock.
    pub fn receive(&mut self, frame: ClientFrame, base: &str, now: u64, now_ms: u64) -> (r:
        FrameStep)
        requires
            old(self).wf(),
        ensures
            final(self).wf(),
            final(self).session_id == old(self).session_id,
            final(self).seq == old(self).seq,
            final(self).inflight_cap == old(self).inflight_cap,
            final(self).pause_until == old(self).pause_until,
            match frame {
                ClientFrame::Ping { sent_at_ms } => {
                    &&& *final(self) == *old(self)
                    &&& r matches FrameStep::Answer(f) && f@ == FrameView::Pong(sent_at_ms, now_ms)
                },
                ClientFrame::Ack { last_consumed_seq } => {
                    &&& r is Nothing
                    &&& *final(self) == (AcpServer {
                        last_consumed: if last_consumed_seq > old(self).last_consumed {
                            last_consumed_seq
                        } else {
                            old(self).last_consumed
                        },
                        ..*old(self)
                    })
                },
                ClientFrame::Command(cmd) => {
                    &&& final(self).last_consumed == old(self).last_consumed
                    &&& handled_keys(cmd, old(self).keys.view(), final(self).keys.view(), now)
                    &&& if is_repeated(cmd, old(self).keys.view(), now) {
                        r matches FrameStep::Answer(f) && f@ == FrameView::ProtocolError(
                            "IDEMPOTENT_HIT"@,
                            "idempotency_key already processed: "@ + opt_view(
                                cmd.idempotency_key,
                            )->0,
                            Some(cmd.command_id@),
                        )
                    } else {
                        r matches FrameStep::Route(d, ack) && routed_as(cmd, base@, d, ack)
                    }
                },
            },
    {
        match frame {
            ClientFrame::Ping { sent_at_ms } => FrameStep::Answer(
                ServerFrame::Pong { ping_sent_at_ms: sent_at_ms, pong_at_ms: now_ms },
            ),
            ClientFrame::Ack { last_consumed_seq } => {
                if last_consumed_seq > self.last_consumed {
                    self.last_consumed = last_consumed_seq;
                }
                FrameStep::Nothing
            },
            ClientFrame::Command(cmd) => {
                match check_idempotency(&cmd, &mut self.keys, now) {
                    Some(f) => FrameStep::Answer(f),
                    None => {
                        let (d, ack) = route_command(cmd, base);
                        FrameStep::Route(d, ack)
                    },
                }
            },
        }
    }

    /// Ends a command: frames belong to the session that was resumed, if one
    /// was, and the client's wishes are followed.
    pub fn finish(&mut self, resumed: Option<SessionId>, ack: Option<AckBucket>, now: u64)
        requires
            old(self).wf(),
            now + u32::MAX * 1_000_000 <= u64::MAX,
        ensures
            final(self).wf(),
            *final(self) == (AcpServer {
                session_id: match resumed {
                    Some(s) => s,
                    None => old(self).session_id,
                },
                inflight_cap: match ack {
                    Some(a) => cap_of(a.max_inflight_events),
                    None => old(self).inflight_cap,
                },
                pause_until: match ack {
                    Some(a) => pause_of(a, old(self).pause_until, now),
                    None => old(self).pause_until,
                },
                ..*old(self)
            }),
    {
        if let Some(s) = resumed {
            self.session_id = s;
        }
        if let Some(a) = ack {
            self.inflight_cap = if a.max_inflight_events > LARGEST_CAP {
                LARGEST_CAP
            } else if a.max_inflight_events < 1 {
                1
            } else {
                a.max_inflight_events
            };
            if let Some(ms) = a.requested_pause_ms {
                self.pause_until = Some(now + ms as u64 * 1_000_000);
            }
        }
    }
}

/// Whether a command bears a key that was handled and is remembered.
pub open spec fn is_repeated(cmd: AcpCommand, keys: Seq<(Seq<char>, u64)>, now: u64) -> bool {
    opt_view(cmd.idempotency_key) matches Some(k) && is_live(keys, k, now, KEY_LIFETIME)
}

/// What is remembered after a command.
pub open spec fn handled_keys(
    cmd: AcpCommand,
    before: Seq<(Seq<char>, u64)>,
    after: Seq<(Seq<char>, u64)>,
    now: u64,
) -> bool {
    match opt_view(cmd.idempotency_key) {
        None => after == before,
        Some(k) => {
            let l = after_lookup(before, k, now, KEY_LIFETIME);
            after == if is_live(before, k, now, KEY_LIFETIME) {
                l
            } else {
                after_insert(l, KEY_CAPACITY, k, now)
            }
        },
    }
}

/// What comes of a command that is not repeated.
pub open spec fn routed_as(
    cmd: AcpCommand,
    base: Seq<char>,
    d: Routed,
    ack: Option<AckBucket>,
) -> bool {
    match cmd.body {
        CommandBody::ResumeSession { session_id, ack_bucket, .. } => {
            &&& ack == ack_bucket
            &&& match uuid_parse_of(session_id@) {
                Some(n) => d matches Routed::Resume(run) && is_fresh_run(run, cmd, base, n),
                None => d matches Routed::Refuse(f) && f@ == FrameView::ProtocolError(
                    "RESUME_BAD_ID"@,
                    "非法的 session_id 格式 `"@ + session_id@ + "`："@
                        + "invalid identifier: "@ + session_id@,
                    Some(cmd.command_id@),
                ),
            }
        },
        _ => ack is None && (d matches Routed::Send(c) && direct_command(cmd.body) == Some(c@)),
    }
}

/// No event waits for ever: after the longest wait it goes out, whatever the
/// client does.
pub proof fn no_event_waits_for_ever(s: AcpServer, waited_ms: u64, now: u64)
    requires
        waited_ms >= LONGEST_WAIT_MS,
    ensures
        may_go_out(s, waited_ms, now),
{
}

/// A client that keeps up is sent events at once, once the pause that it
/// asked for is over.
pub proof fn clients_that_keep_up_do_not_wait(s: AcpServer, now: u64)
    requires
        s.wf(),
        inflight_of(s.seq, s.last_consumed) < s.inflight_cap,
        s.pause_until matches Some(t) ==> t <= now,
    ensures
        may_go_out(s, 0, now),
{
}

/// A client never has more events under way than it can take, unless one has
/// waited for the longest time.
pub proof fn the_cap_holds(s: AcpServer, waited_ms: u64, now: u64)
    requires
        may_go_out(s, waited_ms, now),
        waited_ms < LONGEST_WAIT_MS,
    ensures
        (s.seq + 1) - s.last_consumed < s.inflight_cap,
        s.pause_until matches Some(t) ==> t <= now,
{
}

/// A client that has no room, or that asked for a pause, keeps events waiting
/// until it catches up or ten seconds are over.
pub proof fn slow_clients_keep_events_waiting(s: AcpServer, waited_ms: u64, now: u64)
    requires
        waited_ms < 10_000,
    ensures
        (s.seq + 1) - s.last_consumed >= s.inflight_cap && s.inflight_cap > 0 ==> !may_go_out(
            s,
            waited_ms,
            now,
        ),
        s.pause_until matches Some(t) && now < t ==> !may_go_out(s, waited_ms, now),
{
}

/// A client that has room and does not pause is sent the next event at once, and
/// every client after ten seconds.
pub proof fn events_go_out(s: AcpServer, waited_ms: u64, now: u64)
    ensures
        s.inflight_cap > 0 && (s.seq + 1) - s.last_consumed < s.inflight_cap && (s.pause_until
            matches Some(t) ==> now >= t) ==> may_go_out(s, waited_ms, now),
        waited_ms >= 10_000 ==> may_go_out(s, waited_ms, now),
{
}

/// A client has as many events under way as it asked for, but at least one and
/// at most 512.
pub proof fn caps_are_what_clients_ask_for(asked: u32)
    ensures
        1 <= cap_of(asked) <= 512,
        1 <= asked <= 512 ==> cap_of(asked) == asked,
        asked > 512 ==> cap_of(asked) == 512,
{
}

/// A pause lasts as many milliseconds as the client asked for, from now on; a
/// client that asks for none changes nothing.
pub proof fn pauses_last_as_long_as_asked(ack: AckBucket, before: Option<u64>, now: u64)
    requires
        now + u32::MAX * 1_000_000 <= u64::MAX,
    ensures
        match ack.requested_pause_ms {
            Some(ms) => pause_of(ack, before, now) matches Some(t) && t - now == ms * 1_000_000,
            None => pause_of(ack, before, now) == before,
        },
{
    match ack.requested_pause_ms {
        Some(ms) => {
            assert(ms * 1_000_000 <= u32::MAX * 1_000_000) by (nonlinear_arith)
                requires
                    ms <= u32::MAX,
            ;
        },
        None => {},
    }
}

/// A command is answered as repeated exactly where it bears a key that was
/// handled within the hour, and is carried out otherwise; one without a key is
/// never taken for a repeated one.
pub proof fn only_repeated_keys_are_refused(
    cmd: AcpCommand,
    keys: Seq<(Seq<char>, u64)>,
    now: u64,
)
    ensures
        is_repeated(cmd, keys, now) <==> (opt_view(cmd.idempotency_key) matches Some(k)
            && exists|i: int|
            0 <= i < keys.len() && (#[trigger] keys[i]).0 == k && now - keys[i].1
                < 3_600_000_000_000),
        cmd.idempotency_key is None ==> !is_repeated(cmd, keys, now),
{
    match opt_view(cmd.idempotency_key) {
        Some(k) => {
            if exists|i: int|
                0 <= i < keys.len() && (#[trigger] keys[i]).0 == k && now - keys[i].1
                    < 3_600_000_000_000 {
                let i = choose|i: int|
                    0 <= i < keys.len() && (#[trigger] keys[i]).0 == k && now - keys[i].1
                        < 3_600_000_000_000;
                assert(!crate::session::idempotency::expired(keys[i].1, now, KEY_LIFETIME));
            }
        },
        None => {},
    }
}

/// A command with a key is remembered, so that the same key is refused for an
/// hour. A command without one leaves no trace.
pub proof fn handled_commands_are_remembered(
    cmd: AcpCommand,
    before: Seq<(Seq<char>, u64)>,
    after: Seq<(Seq<char>, u64)>,
    now: u64,
)
    requires
        handled_keys(cmd, before, after, now),
    ensures
        cmd.idempotency_key is None ==> after == before,
        (cmd.idempotency_key is Some && (forall|i: int|
            0 <= i < before.len() ==> (#[trigger] before[i]).0 != cmd.idempotency_key->0@)) ==> after.len() > 0
            && after.last() == (cmd.idempotency_key->0@, now),
{
    if let Some(k) = cmd.idempotency_key {
        if forall|i: int| 0 <= i < before.len() ==> (#[trigger] before[i]).0 != k@ {
            unknown_keys_are_not_live(before, k@, now, KEY_LIFETIME);
            let l = after_lookup(before, k@, now, KEY_LIFETIME);
            assert forall|i: int| 0 <= i < l.len() implies (#[trigger] l[i]).0 != k@ by {
                lookups_add_nothing(before, k@, now, KEY_LIFETIME, i);
                let j = choose|j: int| 0 <= j < before.len() && before[j] == l[i];
                assert(before[j].0 != k@);
            }
            new_keys_are_added(l, KEY_CAPACITY, k@, now);
        }
    }
}

/// A command to resume a session is one or is refused, and every other goes to
/// the session as it is.
pub proof fn commands_are_routed(cmd: AcpCommand, base: Seq<char>, d: Routed, ack: Option<AckBucket>)
    requires
        routed_as(cmd, base, d, ack),
    ensures
        d is Send <==> !(cmd.body is ResumeSession),
        cmd.body matches CommandBody::ResumeSession { session_id, mode, last_consumed_seq, ack_bucket } ==> {
            &&& ack == ack_bucket
            &&& d is Resume <==> uuid_parse_of(session_id@) is Some
            &&& d matches Routed::Resume(run) ==> is_fresh_run(
                run,
                cmd,
                base,
                uuid_parse_of(session_id@)->0,
            )
            &&& d matches Routed::Refuse(f) ==> (f@ matches FrameView::ProtocolError(code, message, id)
                && code == "RESUME_BAD_ID"@ && id == Some(cmd.command_id@))
        },
        !(cmd.body is ResumeSession) ==> ack is None && (d matches Routed::Send(c) && direct_command(cmd.body)
            == Some(c@)),
{
}

} // verus!
