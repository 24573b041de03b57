//! The conversation at a terminal: what a line of the user means, what is
//! printed of the events of a turn, and what an answer to a question means.

use vstd::prelude::*;
use vstd::string::*;

use crate::domain::policy::PolicyDecision;
use crate::json::{json_text, json_text_of};
use crate::session::acp::{opt_json, LoopEvent, SubagentProgress};
use crate::session::route::{CommandView, SessionCommand};
use crate::session::serve::LineRead;
use crate::session::settings::{ChoiceView, ModelChoice, WireProtocol};
use crate::text::{
    chars_of, debug_str, debug_str_of, decimal, decimal_string, has_prefix, has_suffix,
    lemma_views_push, lowercase_of, owned, same, string_of, to_lowercase, trim, trimmed, views,
};

verus! {

/// What a line of the user asks for.
#[derive(Debug)]
pub enum ReplInput {
    /// Nothing.
    Skip,
    /// The end.
    Quit,
    /// The list of commands.
    Help,
    /// A turn; whether the user hinted at a compaction.
    Turn { text: String, compact: bool },
}

/// What the user is told who asks for help.
pub const HELP: &'static str = "Commands: /quit, /exit, /help, /compact, /resume <id>";

/// What the user is told who hints at a compaction.
pub const COMPACT_NOTICE: &'static str = "Requesting context compaction...";

/// What a line of the user asks for. A command is written alone on its line;
/// any other text is a turn, and so is the hint at a compaction.
pub fn read_input(line: &str) -> (r: ReplInput)
    ensures
        ({
            let t = trimmed(line@);
            if t.len() == 0 {
                r is Skip
            } else if t == "/quit"@ || t == "/exit"@ {
                r is Quit
            } else if t == "/help"@ {
                r is Help
            } else {
                r matches ReplInput::Turn { text, compact } && text@ == t && compact == (t
                    == "/compact"@)
            }
        }),
{
    let t = trim(line);
    if t.as_str().is_empty() {
        ReplInput::Skip
    } else if same(t.as_str(), "/quit") || same(t.as_str(), "/exit") {
        ReplInput::Quit
    } else if same(t.as_str(), "/help") {
        ReplInput::Help
    } else {
        let compact = same(t.as_str(), "/compact");
        ReplInput::Turn { text: t, compact }
    }
}

/// What is to be done about an event of a turn.
#[derive(Debug)]
pub enum Reaction {
    /// Nothing.
    Silent,
    /// A text is printed, and the turn goes on.
    Say(String),
    /// A text is printed, and the turn is over.
    End(String),
    /// A text is printed as an error, and the turn is over.
    Fail(String),
    /// A text is printed, and the user is asked about a ticket.
    Ask { text: String, ticket_id: String },
}

/// The mathematical value of a [`Reaction`].
pub enum ReactionView {
    Silent,
    Say(Seq<char>),
    End(Seq<char>),
    Fail(Seq<char>),
    Ask(Seq<char>, Seq<char>),
}

impl View for Reaction {
    type V = ReactionView;

    open spec fn view(&self) -> ReactionView {
        match *self {
            Reaction::Silent => ReactionView::Silent,
            Reaction::Say(s) => ReactionView::Say(s@),
            Reaction::End(s) => ReactionView::End(s@),
            Reaction::Fail(s) => ReactionView::Fail(s@),
            Reaction::Ask { text, ticket_id } => ReactionView::Ask(text@, ticket_id@),
        }
    }
}

/// The number of characters that are shown of a sub-agent's summary.
pub const PREVIEW_CHARS: usize = 80;

/// The first characters of a text.
pub open spec fn head_of(s: Seq<char>, n: int) -> Seq<char> {
    if s.len() <= n {
        s
    } else {
        s.take(n)
    }
}

/// What is printed of the progress of a sub-agent: its start and its end.
pub open spec fn progress_line(p: SubagentProgress) -> ReactionView {
    match p {
        SubagentProgress::Started { label, task_preview, .. } => ReactionView::Say(
            "\n[subagent '"@ + label@ + "'] 开始执行: "@ + task_preview@,
        ),
        SubagentProgress::Step { .. } => ReactionView::Silent,
        SubagentProgress::Finished { label, ok, summary, .. } => ReactionView::Say(
            "\n[subagent '"@ + label@ + "'] "@ + (if ok {
                "执行完成"@
            } else {
                "执行失败"@
            }) + ": "@ + head_of(summary@, PREVIEW_CHARS as int),
        ),
    }
}

/// What is printed of an event, where `answer` is what the model has said in
/// the turn. The turn is over when it completes, fails or the session shuts
/// down.
pub open spec fn reaction_to(answer: Seq<char>, ev: LoopEvent) -> ReactionView {
    match ev {
        LoopEvent::TurnCompleted { .. } => ReactionView::End("\nGrodex: "@ + trimmed(answer)),
        LoopEvent::Error { message } => ReactionView::Fail("\nError: "@ + message@),
        LoopEvent::Info { message } => ReactionView::Say("ℹ "@ + message@),
        LoopEvent::CompactionStatus { phase } => if phase@ == "started"@ {
            ReactionView::Say("\n[compacting] 会话压缩中…"@)
        } else {
            ReactionView::Silent
        },
        LoopEvent::Shutdown => ReactionView::End("Session shut down."@),
        LoopEvent::ApprovalRequested { ticket_id, tool_name, risk, args, .. } => {
            let head = "\n[approval] ticket="@ + ticket_id@ + " tool="@ + tool_name@ + " risk="@
                + risk@;
            ReactionView::Ask(
                match opt_json(args) {
                    Some(a) => head + "\n  args: "@ + json_text_of(a),
                    None => head,
                },
                ticket_id@,
            )
        },
        LoopEvent::IndeterminateToolCall { call_id, tool_name, message } => ReactionView::Say(
            "\n[indeterminate] call_id="@ + call_id@ + " tool="@ + tool_name@ + ": "@ + message@,
        ),
        LoopEvent::Subagent(p) => progress_line(p),
        _ => ReactionView::Silent,
    }
}

/// What the model has said in the turn after an event.
pub open spec fn answer_after(answer: Seq<char>, ev: LoopEvent) -> Seq<char> {
    match ev {
        LoopEvent::TextDelta { text } => answer + text@,
        _ => answer,
    }
}

/// A turn at the terminal.
#[derive(Debug)]
pub struct ReplTurn {
    /// What the model has said.
    pub answer: String,
}

fn head(s: &str, n: usize) -> (r: String)
    ensures
        r@ == head_of(s@, n as int),
{
    let chars = chars_of(s);
    if chars.len() <= n {
        owned(s)
    } else {
        let r = string_of(&chars, 0, n);
        assert(r@ =~= s@.take(n as int));
        r
    }
}

fn react_to_progress(p: &SubagentProgress) -> (r: Reaction)
    ensures
        r@ == progress_line(*p),
{
    match p {
        SubagentProgress::Started { label, task_preview, .. } => {
            let mut s = owned("\n[subagent '");
            s.append(label.as_str());
            s.append("'] 开始执行: ");
            s.append(task_preview.as_str());
            Reaction::Say(s)
        },
        SubagentProgress::Step { .. } => Reaction::Silent,
        SubagentProgress::Finished { label, ok, summary, .. } => {
            let mut s = owned("\n[subagent '");
            s.append(label.as_str());
            s.append("'] ");
            s.append(
                if *ok {
                    "执行完成"
                } else {
                    "执行失败"
                },
            );
            s.append(": ");
            s.append(head(summary.as_str(), PREVIEW_CHARS).as_str());
            Reaction::Say(s)
        },
    }
}

impl ReplTurn {
    /// A turn in which nothing was said.
    pub fn new() -> (r: Self)
        ensures
            r.answer@ == Seq::<char>::empty(),
    {
        let answer = String::new();
        assert(answer@ =~= Seq::empty());
        ReplTurn { answer }
    }

    /// Takes an event of the turn.
    pub fn take(&mut self, ev: &LoopEvent) -> (r: Reaction)
        ensures
            final(self).answer@ == answer_after(old(self).answer@, *ev),
            r@ == reaction_to(old(self).answer@, *ev),
    {
        match ev {
            LoopEvent::TextDelta { text } => {
                self.answer.append(text.as_str());
                Reaction::Silent
            },
            LoopEvent::TurnCompleted { .. } => {
                let mut s = owned("\nGrodex: ");
                s.append(trim(self.answer.as_str()).as_str());
                Reaction::End(s)
            },
            LoopEvent::Error { message } => {
                let mut s = owned("\nError: ");
                s.append(message.as_str());
                Reaction::Fail(s)
            },
            LoopEvent::Info { message } => {
                let mut s = owned("ℹ ");
                s.append(message.as_str());
                Reaction::Say(s)
            },
            LoopEvent::CompactionStatus { phase } => {
                if same(phase.as_str(), "started") {
                    Reaction::Say(owned("\n[compacting] 会话压缩中…"))
                } else {
                    Reaction::Silent
                }
            },
            LoopEvent::Shutdown => Reaction::End(owned("Session shut down.")),
            LoopEvent::ApprovalRequested { ticket_id, tool_name, risk, args, .. } => {
                let mut s = owned("\n[approval] ticket=");
                s.append(ticket_id.as_str());
                s.append(" tool=");
                s.append(tool_name.as_str());
                s.append(" risk=");
                s.append(risk.as_str());
                if let Some(a) = args {
                    s.append("\n  args: ");
                    s.append(json_text(a).as_str());
                }
                Reaction::Ask { text: s, ticket_id: ticket_id.clone() }
            },
            LoopEvent::IndeterminateToolCall { call_id, tool_name, message } => {
                let mut s = owned("\n[indeterminate] call_id=");
                s.append(call_id.as_str());
                s.append(" tool=");
                s.append(tool_name.as_str());
                s.append(": ");
                s.append(message.as_str());
                Reaction::Say(s)
            },
            LoopEvent::Subagent(p) => react_to_progress(p),
            _ => Reaction::Silent,
        }
    }
}

/// What the user says to a question.
#[derive(Debug, Clone, Copy, PartialEq, Eq, Structural)]
pub enum Answer {
    Allow,
    AlwaysAllow,
    Deny,
    /// Nothing: the question lapses.
    Wait,
}

/// The question that the user is asked.
pub const QUESTION: &'static str = "  批准？[y=允许 / a=总是允许 / n=拒绝 / 回车=等待超时] > ";

/// What the user is told who did not answer.
pub const UNANSWERED: &'static str = "  （未答复 — 工具将等待审批超时）";

/// What the user is told whose answer did not arrive.
pub const UNDELIVERED: &'static str = "  回复未送达（会话可能已关闭）";

/// What a line says to a question, in letters of either case.
pub open spec fn answer_of(line: Seq<char>) -> Answer {
    let t = lowercase_of(trimmed(line));
    if t == "y"@ || t == "yes"@ {
        Answer::Allow
    } else if t == "a"@ || t == "always"@ {
        Answer::AlwaysAllow
    } else if t == "n"@ || t == "no"@ || t == "c"@ {
        Answer::Deny
    } else {
        Answer::Wait
    }
}

/// What a line says to a question. Nothing runs on silence: an empty line
/// answers nothing.
pub fn read_answer(line: &str) -> (r: Answer)
    ensures
        r == answer_of(line@),
        trimmed(line@).len() == 0 ==> r == Answer::Wait,
{
    let t = to_lowercase(trim(line).as_str());
    let s = t.as_str();
    proof {
        reveal_strlit("y");
        reveal_strlit("yes");
        reveal_strlit("a");
        reveal_strlit("always");
        reveal_strlit("n");
        reveal_strlit("no");
        reveal_strlit("c");
        if trimmed(line@).len() == 0 {
            assert(vstd::utf8::is_ascii_chars(trimmed(line@)));
            assert(s@.len() == 0);
            assert("y"@.len() == 1 && "yes"@.len() == 3 && "a"@.len() == 1);
            assert("always"@.len() == 6 && "n"@.len() == 1 && "no"@.len() == 2 && "c"@.len() == 1);
        }
    }
    if same(s, "y") || same(s, "yes") {
        Answer::Allow
    } else if same(s, "a") || same(s, "always") {
        Answer::AlwaysAllow
    } else if same(s, "n") || same(s, "no") || same(s, "c") {
        Answer::Deny
    } else {
        Answer::Wait
    }
}

/// What the session is told of an answer about a ticket.
pub open spec fn resolution_of(a: Answer, ticket: Seq<char>) -> CommandView {
    CommandView::ResolveApproval(
        ticket,
        if a == Answer::Deny {
            PolicyDecision::Deny
        } else {
            PolicyDecision::Allow
        },
        None,
        a == Answer::AlwaysAllow,
    )
}

/// What the user is told about an answer.
pub open spec fn notice_of(a: Answer, delivered: bool) -> Seq<char> {
    if a == Answer::Wait {
        UNANSWERED@
    } else if !delivered {
        UNDELIVERED@
    } else if a == Answer::AlwaysAllow {
        "  已回复："@ + "总是允许"@
    } else if a == Answer::Allow {
        "  已回复："@ + "允许"@
    } else {
        "  已回复："@ + "拒绝"@
    }
}

impl Answer {
    /// What the session is told, if anything.
    pub fn command(self, ticket_id: String) -> (r: Option<SessionCommand>)
        ensures
            r is None == (self == Answer::Wait),
            r matches Some(c) ==> c@ == resolution_of(self, ticket_id@),
    {
        let (decision, always_allow) = match self {
            Answer::Allow => (PolicyDecision::Allow, false),
            Answer::AlwaysAllow => (PolicyDecision::Allow, true),
            Answer::Deny => (PolicyDecision::Deny, false),
            Answer::Wait => {
                return None;
            },
        };
        Some(
            SessionCommand::ResolveApproval {
                ticket_id,
                decision,
                narrowed_args: None,
                always_allow,
            },
        )
    }

    /// What the user is told about the answer; `delivered` says whether the
    /// session took it.
    pub fn notice(self, delivered: bool) -> (r: String)
        ensures
            r@ == notice_of(self, delivered),
    {
        let word = match self {
            Answer::Allow => "允许",
            Answer::AlwaysAllow => "总是允许",
            Answer::Deny => "拒绝",
            Answer::Wait => {
                return owned(UNANSWERED);
            },
        };
        if !delivered {
            return owned(UNDELIVERED);
        }
        let mut s = owned("  已回复：");
        s.append(word);
        s
    }
}

/// Where the conversation stands.
#[derive(Debug)]
pub enum ReplPhase {
    /// A line of the user is awaited.
    Reading,
    /// A turn was handed to the session.
    Starting,
    /// An event of the turn is awaited.
    InTurn,
    /// The answer to a question about a ticket is awaited.
    Asking { ticket_id: String },
    /// An answer was handed to the session.
    Answering { answer: Answer },
    /// The user has left.
    Over,
}

/// The mathematical value of a [`ReplPhase`].
pub enum PhaseView {
    Reading,
    Starting,
    InTurn,
    Asking(Seq<char>),
    Answering(Answer),
    Over,
}

impl View for ReplPhase {
    type V = PhaseView;

    open spec fn view(&self) -> PhaseView {
        match *self {
            ReplPhase::Reading => PhaseView::Reading,
            ReplPhase::Starting => PhaseView::Starting,
            ReplPhase::InTurn => PhaseView::InTurn,
            ReplPhase::Asking { ticket_id } => PhaseView::Asking(ticket_id@),
            ReplPhase::Answering { answer } => PhaseView::Answering(answer),
            ReplPhase::Over => PhaseView::Over,
        }
    }
}

/// What came of an action.
#[derive(Debug)]
pub enum ReplEvent {
    /// A line was read, or the input ended, or it could not be read.
    Line(LineRead),
    /// The session took a command, or not.
    Sent(Result<(), String>),
    /// An event of the session, or its end.
    Event(Option<LoopEvent>),
}

/// What is to be done.
#[derive(Debug)]
pub enum ReplAction {
    /// Ask the user for a line.
    Read,
    /// Ask the user for an answer.
    Ask,
    Print(String),
    PrintError(String),
    Send(SessionCommand),
    /// Wait for an event of the session.
    Await,
    /// Leave.
    Leave,
}

/// The mathematical value of a [`ReplAction`].
pub enum ReplActionView {
    Read,
    Ask,
    Print(Seq<char>),
    PrintError(Seq<char>),
    Send(CommandView),
    Await,
    Leave,
}

impl View for ReplAction {
    type V = ReplActionView;

    open spec fn view(&self) -> ReplActionView {
        match *self {
            ReplAction::Read => ReplActionView::Read,
            ReplAction::Ask => ReplActionView::Ask,
            ReplAction::Print(s) => ReplActionView::Print(s@),
            ReplAction::PrintError(s) => ReplActionView::PrintError(s@),
            ReplAction::Send(c) => ReplActionView::Send(c@),
            ReplAction::Await => ReplActionView::Await,
            ReplAction::Leave => ReplActionView::Leave,
        }
    }
}

/// The views of a list of actions.
pub open spec fn repl_actions(a: Seq<ReplAction>) -> Seq<ReplActionView> {
    a.map_values(|x: ReplAction| x@)
}

/// What is done when the user leaves.
pub open spec fn farewell() -> Seq<ReplActionView> {
    seq![
        ReplActionView::Print("\nGoodbye."@),
        ReplActionView::Send(CommandView::Shutdown),
        ReplActionView::Leave,
    ]
}

/// What follows from a line of the user.
pub open spec fn after_line(line: Seq<char>) -> (PhaseView, Seq<ReplActionView>) {
    let t = trimmed(line);
    if t.len() == 0 {
        (PhaseView::Reading, seq![ReplActionView::Read])
    } else if t == "/quit"@ || t == "/exit"@ {
        (PhaseView::Over, farewell())
    } else if t == "/help"@ {
        (PhaseView::Reading, seq![ReplActionView::Print(HELP@), ReplActionView::Read])
    } else if t == "/compact"@ {
        (
            PhaseView::Starting,
            seq![
                ReplActionView::Print(COMPACT_NOTICE@),
                ReplActionView::Send(CommandView::StartTurn(t)),
            ],
        )
    } else {
        (PhaseView::Starting, seq![ReplActionView::Send(CommandView::StartTurn(t))])
    }
}

/// What follows from an event of a turn, where `answer` is what the model has
/// said.
pub open spec fn after_event(answer: Seq<char>, ev: LoopEvent) -> (PhaseView, Seq<ReplActionView>) {
    match reaction_to(answer, ev) {
        ReactionView::Silent => (PhaseView::InTurn, seq![ReplActionView::Await]),
        ReactionView::Say(t) => (
            PhaseView::InTurn,
            seq![ReplActionView::Print(t), ReplActionView::Await],
        ),
        ReactionView::End(t) => (
            PhaseView::Reading,
            seq![ReplActionView::Print(t), ReplActionView::Read],
        ),
        ReactionView::Fail(t) => (
            PhaseView::Reading,
            seq![ReplActionView::PrintError(t), ReplActionView::Read],
        ),
        ReactionView::Ask(t, ticket) => (
            PhaseView::Asking(ticket),
            seq![ReplActionView::Print(t), ReplActionView::Ask],
        ),
    }
}

/// What follows from the answer to a question.
pub open spec fn after_answer(ticket: Seq<char>, line: Seq<char>) -> (
    PhaseView,
    Seq<ReplActionView>,
) {
    let a = answer_of(line);
    if a == Answer::Wait {
        (PhaseView::InTurn, seq![ReplActionView::Print(UNANSWERED@), ReplActionView::Await])
    } else {
        (
            PhaseView::Answering(a),
            seq![ReplActionView::Send(resolution_of(a, ticket))],
        )
    }
}

/// What follows in a phase from what came of the last action. What the phase
/// does not wait for changes nothing.
pub open spec fn repl_step(phase: PhaseView, answer: Seq<char>, ev: ReplEvent) -> (
    PhaseView,
    Seq<ReplActionView>,
) {
    match (phase, ev) {
        (PhaseView::Reading, ReplEvent::Line(LineRead::Line(l))) => after_line(l@),
        (PhaseView::Reading, ReplEvent::Line(LineRead::End)) => (PhaseView::Over, farewell()),
        (PhaseView::Reading, ReplEvent::Line(LineRead::Failed(e))) => (
            PhaseView::Over,
            seq![ReplActionView::PrintError("read error: "@ + e@)] + farewell(),
        ),
        (PhaseView::Starting, ReplEvent::Sent(Ok(_))) => (
            PhaseView::InTurn,
            seq![ReplActionView::Await],
        ),
        (PhaseView::Starting, ReplEvent::Sent(Err(e))) => (
            PhaseView::Over,
            seq![ReplActionView::PrintError("error sending command: "@ + e@)] + farewell(),
        ),
        (PhaseView::InTurn, ReplEvent::Event(Some(x))) => after_event(answer, x),
        (PhaseView::InTurn, ReplEvent::Event(None)) => (
            PhaseView::Reading,
            seq![ReplActionView::Read],
        ),
        (PhaseView::Asking(t), ReplEvent::Line(LineRead::Line(l))) => after_answer(t, l@),
        (PhaseView::Asking(t), ReplEvent::Line(_)) => after_answer(t, Seq::empty()),
        (PhaseView::Answering(a), ReplEvent::Sent(r)) => (
            PhaseView::InTurn,
            seq![ReplActionView::Print(notice_of(a, r is Ok)), ReplActionView::Await],
        ),
        _ => (phase, Seq::empty()),
    }
}

/// What the model has said after what came of the last action: nothing, when a
/// turn begins.
pub open spec fn repl_answer(phase: PhaseView, answer: Seq<char>, ev: ReplEvent) -> Seq<char> {
    match (phase, ev) {
        (PhaseView::Starting, ReplEvent::Sent(Ok(_))) => Seq::empty(),
        (PhaseView::InTurn, ReplEvent::Event(Some(x))) => answer_after(answer, x),
        _ => answer,
    }
}

/// The conversation with a user.
#[derive(Debug)]
pub struct Repl {
    pub phase: ReplPhase,
    pub turn: ReplTurn,
}

fn act1(a: ReplAction) -> (r: Vec<ReplAction>)
    ensures
        repl_actions(r@) == seq![a@],
{
    let mut v: Vec<ReplAction> = Vec::new();
    let ghost x = a@;
    v.push(a);
    assert(repl_actions(v@) =~= seq![x]);
    v
}

fn act2(a: ReplAction, b: ReplAction) -> (r: Vec<ReplAction>)
    ensures
        repl_actions(r@) == seq![a@, b@],
{
    let mut v: Vec<ReplAction> = Vec::new();
    let ghost x = a@;
    let ghost y = b@;
    v.push(a);
    v.push(b);
    assert(repl_actions(v@) =~= seq![x, y]);
    v
}

fn leave(error: Option<String>) -> (r: Vec<ReplAction>)
    ensures
        repl_actions(r@) == (match error {
            Some(e) => seq![ReplActionView::PrintError(e@)] + farewell(),
            None => farewell(),
        }),
{
    let mut v: Vec<ReplAction> = Vec::new();
    let ghost shown = error;
    if let Some(e) = error {
        v.push(ReplAction::PrintError(e));
    }
    v.push(ReplAction::Print(owned("\nGoodbye.")));
    v.push(ReplAction::Send(SessionCommand::Shutdown));
    v.push(ReplAction::Leave);
    assert(repl_actions(v@) =~= (match shown {
        Some(e) => seq![ReplActionView::PrintError(e@)] + farewell(),
        None => farewell(),
    }));
    v
}

fn two(a: &str, b: &String) -> (r: String)
    ensures
        r@ == a@ + b@,
{
    let mut s = owned(a);
    s.append(b.as_str());
    s
}

fn no_actions() -> (r: Vec<ReplAction>)
    ensures
        repl_actions(r@) == Seq::<ReplActionView>::empty(),
{
    let v: Vec<ReplAction> = Vec::new();
    assert(repl_actions(v@) =~= Seq::empty());
    v
}

impl Repl {
    /// A conversation that begins. The user is asked for a line.
    pub fn new() -> (r: (Self, ReplAction))
        ensures
            r.0.phase@ == PhaseView::Reading,
            r.0.turn.answer@ == Seq::<char>::empty(),
            r.1@ == ReplActionView::Read,
    {
        (Repl { phase: ReplPhase::Reading, turn: ReplTurn::new() }, ReplAction::Read)
    }

    fn take_line(&mut self, l: &String) -> (r: Vec<ReplAction>)
        ensures
            final(self).turn == old(self).turn,
            final(self).phase@ == after_line(l@).0,
            repl_actions(r@) == after_line(l@).1,
    {
        match read_input(l.as_str()) {
            ReplInput::Skip => {
                self.phase = ReplPhase::Reading;
                act1(ReplAction::Read)
            },
            ReplInput::Quit => {
                self.phase = ReplPhase::Over;
                leave(None)
            },
            ReplInput::Help => {
                self.phase = ReplPhase::Reading;
                act2(ReplAction::Print(owned(HELP)), ReplAction::Read)
            },
            ReplInput::Turn { text, compact } => {
                self.phase = ReplPhase::Starting;
                let send = ReplAction::Send(SessionCommand::StartTurn { user_input: text });
                proof {
                    reveal_strlit("/compact");
                    reveal_strlit("/quit");
                    reveal_strlit("/exit");
                    reveal_strlit("/help");
                }
                if compact {
                    act2(ReplAction::Print(owned(COMPACT_NOTICE)), send)
                } else {
                    act1(send)
                }
            },
        }
    }

    fn take_event(&mut self, ev: &LoopEvent) -> (r: Vec<ReplAction>)
        ensures
            final(self).turn.answer@ == answer_after(old(self).turn.answer@, *ev),
            final(self).phase@ == after_event(old(self).turn.answer@, *ev).0,
            repl_actions(r@) == after_event(old(self).turn.answer@, *ev).1,
    {
        match self.turn.take(ev) {
            Reaction::Silent => {
                self.phase = ReplPhase::InTurn;
                act1(ReplAction::Await)
            },
            Reaction::Say(t) => {
                self.phase = ReplPhase::InTurn;
                act2(ReplAction::Print(t), ReplAction::Await)
            },
            Reaction::End(t) => {
                self.phase = ReplPhase::Reading;
                act2(ReplAction::Print(t), ReplAction::Read)
            },
            Reaction::Fail(t) => {
                self.phase = ReplPhase::Reading;
                act2(ReplAction::PrintError(t), ReplAction::Read)
            },
            Reaction::Ask { text, ticket_id } => {
                self.phase = ReplPhase::Asking { ticket_id };
                act2(ReplAction::Print(text), ReplAction::Ask)
            },
        }
    }

    fn take_answer(&mut self, ticket_id: String, line: &str) -> (r: Vec<ReplAction>)
        ensures
            final(self).turn == old(self).turn,
            final(self).phase@ == after_answer(ticket_id@, line@).0,
            repl_actions(r@) == after_answer(ticket_id@, line@).1,
    {
        let answer = read_answer(line);
        match answer.command(ticket_id) {
            None => {
                self.phase = ReplPhase::InTurn;
                act2(ReplAction::Print(owned(UNANSWERED)), ReplAction::Await)
            },
            Some(c) => {
                self.phase = ReplPhase::Answering { answer };
                act1(ReplAction::Send(c))
            },
        }
    }

    /// Takes what came of the last action and gives what is to be done next.
    pub fn advance(&mut self, ev: ReplEvent) -> (r: Vec<ReplAction>)
        ensures
            final(self).phase@ == repl_step(old(self).phase@, old(self).turn.answer@, ev).0,
            repl_actions(r@) == repl_step(old(self).phase@, old(self).turn.answer@, ev).1,
            final(self).turn.answer@ == repl_answer(
                old(self).phase@,
                old(self).turn.answer@,
                ev,
            ),
    {
        let mut phase = ReplPhase::Over;
        core::mem::swap(&mut phase, &mut self.phase);
        match (phase, ev) {
            (ReplPhase::Reading, ReplEvent::Line(LineRead::Line(l))) => self.take_line(&l),
            (ReplPhase::Reading, ReplEvent::Line(LineRead::End)) => leave(None),
            (ReplPhase::Reading, ReplEvent::Line(LineRead::Failed(e))) => leave(
                Some(two("read error: ", &e)),
            ),
            (ReplPhase::Starting, ReplEvent::Sent(Ok(_))) => {
                self.phase = ReplPhase::InTurn;
                self.turn = ReplTurn::new();
                act1(ReplAction::Await)
            },
            (ReplPhase::Starting, ReplEvent::Sent(Err(e))) => leave(
                Some(two("error sending command: ", &e)),
            ),
            (ReplPhase::InTurn, ReplEvent::Event(Some(x))) => self.take_event(&x),
            (ReplPhase::InTurn, ReplEvent::Event(None)) => {
                self.phase = ReplPhase::Reading;
                act1(ReplAction::Read)
            },
            (ReplPhase::Asking { ticket_id }, ReplEvent::Line(LineRead::Line(l))) => {
                self.take_answer(ticket_id, l.as_str())
            },
            (ReplPhase::Asking { ticket_id }, ReplEvent::Line(_)) => {
                let none = String::new();
                assert(none@ =~= Seq::empty());
                self.take_answer(ticket_id, none.as_str())
            },
            (ReplPhase::Answering { answer }, ReplEvent::Sent(result)) => {
                self.phase = ReplPhase::InTurn;
                act2(ReplAction::Print(answer.notice(result.is_ok())), ReplAction::Await)
            },
            (other, _) => {
                self.phase = other;
                no_actions()
            },
        }
    }
}

/// The session is told to go on with a tool only after the user allowed it:
/// what is sent about a ticket is an answer to the question about that ticket.
pub proof fn tools_run_only_when_allowed(phase: PhaseView, answer: Seq<char>, ev: ReplEvent, i: int)
    requires
        0 <= i < repl_step(phase, answer, ev).1.len(),
        repl_step(phase, answer, ev).1[i] matches ReplActionView::Send(c) && c is ResolveApproval,
    ensures
        phase is Asking,
        ev is Line,
        repl_step(phase, answer, ev).1[i] == ReplActionView::Send(
            resolution_of(
                match ev {
                    ReplEvent::Line(LineRead::Line(l)) => answer_of(l@),
                    _ => answer_of(Seq::empty()),
                },
                phase->Asking_0,
            ),
        ),
{
}

/// Whoever has left is asked nothing more.
pub proof fn leaving_is_final(answer: Seq<char>, ev: ReplEvent)
    ensures
        repl_step(PhaseView::Over, answer, ev) == (PhaseView::Over, Seq::<ReplActionView>::empty()),
{
}

/// The lines that a conversation starts with: the models that are tried in
/// turn, if there are any, and the model that was chosen. `scope` is how long
/// a session stays with a model, as it is configured.
pub fn startup_lines(candidates: Option<u64>, scope: &str, choice: &ModelChoice) -> (r: Vec<String>)
    ensures
        views(r@) == startup_lines_of(candidates, scope@, choice@),
{
    let mut out: Vec<String> = Vec::new();
    assert(views(out@) =~= Seq::empty());
    if let Some(n) = candidates {
        let mut s = owned("ModelRoute: ");
        s.append(decimal_string(n).as_str());
        s.append(" candidate(s), sticky=");
        s.append(debug_str(scope).as_str());
        if n > 1 {
            s.append(", failover enabled");
        }
        proof {
            lemma_views_push(out@, s);
        }
        out.push(s);
    }
    let mut s = owned("Provider: ");
    s.append(choice.provider.as_str());
    s.append("  Model: ");
    s.append(choice.model.as_str());
    s.append("  Wire: ");
    s.append(
        match choice.wire_protocol {
            WireProtocol::ChatCompletions => "ChatCompletions",
            WireProtocol::Messages => "Messages",
            WireProtocol::Responses => "Responses",
        },
    );
    proof {
        lemma_views_push(out@, s);
    }
    out.push(s);
    if let Some(e) = &choice.endpoint {
        let line = two("Endpoint: ", e);
        proof {
            lemma_views_push(out@, line);
        }
        out.push(line);
    }
    assert(views(out@) =~= startup_lines_of(candidates, scope@, choice@));
    out
}

/// The lines that a conversation starts with.
pub open spec fn startup_lines_of(
    candidates: Option<u64>,
    scope: Seq<char>,
    choice: ChoiceView,
) -> Seq<Seq<char>> {
    (match candidates {
        Some(n) => seq![
            "ModelRoute: "@ + decimal(n as nat) + " candidate(s), sticky="@ + debug_str_of(scope)
                + (if n > 1 {
                ", failover enabled"@
            } else {
                Seq::empty()
            }),
        ],
        None => Seq::empty(),
    }) + seq![
        "Provider: "@ + choice.provider + "  Model: "@ + choice.model + "  Wire: "@ + (
        match choice.wire_protocol {
            WireProtocol::ChatCompletions => "ChatCompletions"@,
            WireProtocol::Messages => "Messages"@,
            WireProtocol::Responses => "Responses"@,
        }),
    ] + (match choice.endpoint {
        Some(e) => seq!["Endpoint: "@ + e],
        None => Seq::empty(),
    })
}

/// Only a yes lets a tool run, and only an always does so for good; a no forbids
/// it. The answer is about the ticket that was asked about. Anything else sends
/// nothing.
pub proof fn answers_are_taken_at_their_word(
    ticket: Seq<char>,
    answer: Seq<char>,
    line: String,
)
    ensures
        ({
            let w = lowercase_of(trimmed(line@));
            let (p, acts) = repl_step(
                PhaseView::Asking(ticket),
                answer,
                ReplEvent::Line(LineRead::Line(line)),
            );
            let yes = w == "y"@ || w == "yes"@;
            let always = w == "a"@ || w == "always"@;
            let no = w == "n"@ || w == "no"@ || w == "c"@;
            &&& yes ==> acts == seq![
                ReplActionView::Send(
                    CommandView::ResolveApproval(ticket, PolicyDecision::Allow, None, false),
                ),
            ]
            &&& always ==> acts == seq![
                ReplActionView::Send(
                    CommandView::ResolveApproval(ticket, PolicyDecision::Allow, None, true),
                ),
            ]
            &&& no ==> acts == seq![
                ReplActionView::Send(
                    CommandView::ResolveApproval(ticket, PolicyDecision::Deny, None, false),
                ),
            ]
            &&& yes || always || no ==> p is Answering
            &&& !(yes || always || no) ==> p is InTurn && forall|i: int|
                0 <= i < acts.len() ==> !(#[trigger] acts[i] is Send)
        }),
{
    reveal_strlit("y");
    reveal_strlit("yes");
    reveal_strlit("a");
    reveal_strlit("always");
    reveal_strlit("n");
    reveal_strlit("no");
    reveal_strlit("c");
    assert("y"@.len() == 1 && "a"@.len() == 1 && "n"@.len() == 1 && "c"@.len() == 1);
    assert("y"@[0] != "a"@[0] && "y"@[0] != "n"@[0] && "y"@[0] != "c"@[0]);
    assert("a"@[0] != "n"@[0] && "a"@[0] != "c"@[0]);
    assert("yes"@.len() == 3 && "always"@.len() == 6 && "no"@.len() == 2);
}

/// A line that is no command is a turn, with the text of the line and without
/// the white space around it; `/quit` and `/exit` end the conversation, `/help`
/// and an empty line send nothing.
pub proof fn lines_are_turns_or_commands(answer: Seq<char>, line: String)
    ensures
        ({
            let t = trimmed(line@);
            let (p, acts) = repl_step(
                PhaseView::Reading,
                answer,
                ReplEvent::Line(LineRead::Line(line)),
            );
            let quit = t == "/quit"@ || t == "/exit"@;
            &&& t.len() == 0 ==> p is Reading && acts == seq![ReplActionView::Read]
            &&& t.len() > 0 && !quit && t != "/help"@ ==> {
                &&& p is Starting
                &&& acts.last() == ReplActionView::Send(CommandView::StartTurn(t))
                &&& t != "/compact"@ ==> acts.len() == 1
            }
            &&& quit ==> {
                &&& p is Over
                &&& acts.last() is Leave
                &&& acts.contains(ReplActionView::Send(CommandView::Shutdown))
            }
            &&& t == "/help"@ ==> p is Reading && acts.last() is Read && forall|i: int|
                0 <= i < acts.len() ==> !(#[trigger] acts[i] is Send)
        }),
{
    reveal_strlit("/quit");
    reveal_strlit("/exit");
    reveal_strlit("/help");
    reveal_strlit("/compact");
    assert("/quit"@[1] != "/help"@[1] && "/exit"@[1] != "/help"@[1]);
    assert("/quit"@.len() == 5 && "/exit"@.len() == 5 && "/help"@.len() == 5 && "/compact"@.len()
        == 8);
    assert(farewell()[1] == ReplActionView::Send(CommandView::Shutdown));
}

/// A session that ends, at the end of the input or after an error, is shut down.
pub proof fn sessions_are_shut_down(answer: Seq<char>, e: String)
    ensures
        ({
            let a = repl_step(PhaseView::Reading, answer, ReplEvent::Line(LineRead::End));
            let b = repl_step(PhaseView::Reading, answer, ReplEvent::Line(LineRead::Failed(e)));
            let c = repl_step(PhaseView::Starting, answer, ReplEvent::Sent(Err(e)));
            &&& a.0 is Over && b.0 is Over && c.0 is Over
            &&& a.1.contains(ReplActionView::Send(CommandView::Shutdown)) && a.1.last() is Leave
            &&& b.1.contains(ReplActionView::Send(CommandView::Shutdown)) && b.1.last() is Leave
            &&& c.1.contains(ReplActionView::Send(CommandView::Shutdown)) && c.1.last() is Leave
        }),
{
    let a = repl_step(PhaseView::Reading, answer, ReplEvent::Line(LineRead::End));
    let b = repl_step(PhaseView::Reading, answer, ReplEvent::Line(LineRead::Failed(e)));
    let c = repl_step(PhaseView::Starting, answer, ReplEvent::Sent(Err(e)));
    assert(a.1[1] == ReplActionView::Send(CommandView::Shutdown));
    assert(b.1[2] == ReplActionView::Send(CommandView::Shutdown));
    assert(c.1[2] == ReplActionView::Send(CommandView::Shutdown));
}

/// What the model says piece by piece is printed whole when the turn is over,
/// and then the next line is read.
pub proof fn answers_are_printed_whole(
    answer: Seq<char>,
    text: String,
    turn_id: crate::domain::id::TurnId,
    input_tokens: u64,
    cached_tokens: u64,
)
    ensures
        ({
            let said = repl_answer(
                PhaseView::InTurn,
                answer,
                ReplEvent::Event(Some(LoopEvent::TextDelta { text })),
            );
            let done = ReplEvent::Event(
                Some(LoopEvent::TurnCompleted { turn_id, input_tokens, cached_tokens }),
            );
            &&& said == answer + text@
            &&& repl_step(
                PhaseView::InTurn,
                answer,
                ReplEvent::Event(Some(LoopEvent::TextDelta { text })),
            ).0 is InTurn
            &&& repl_step(PhaseView::InTurn, said, done) == (
                PhaseView::Reading,
                seq![
                    ReplActionView::Print("\nGrodex: "@ + trimmed(answer + text@)),
                    ReplActionView::Read,
                ],
            )
        }),
{
}

/// Nothing but the text of the model becomes part of its answer, and each turn
/// begins with none.
pub proof fn only_texts_are_answers(answer: Seq<char>, ev: LoopEvent)
    ensures
        !(ev is TextDelta) ==> repl_answer(
            PhaseView::InTurn,
            answer,
            ReplEvent::Event(Some(ev)),
        ) == answer,
        repl_answer(PhaseView::Starting, answer, ReplEvent::Sent(Ok(()))) == Seq::<char>::empty(),
{
}

/// A question of the session is put to the user, and its ticket is the one that
/// is answered; an error is printed and ends the turn.
pub proof fn questions_are_put_to_the_user(answer: Seq<char>, ev: LoopEvent)
    ensures
        ev matches LoopEvent::ApprovalRequested { ticket_id, .. } ==> {
            let (p, acts) = repl_step(PhaseView::InTurn, answer, ReplEvent::Event(Some(ev)));
            p == PhaseView::Asking(ticket_id@) && acts.len() == 2 && acts[0] is Print && acts[1]
                is Ask
        },
        !(ev is ApprovalRequested) ==> !(repl_step(
            PhaseView::InTurn,
            answer,
            ReplEvent::Event(Some(ev)),
        ).0 is Asking),
        ev matches LoopEvent::Error { message } ==> repl_step(
            PhaseView::InTurn,
            answer,
            ReplEvent::Event(Some(ev)),
        ) == (
            PhaseView::Reading,
            seq![ReplActionView::PrintError("\nError: "@ + message@), ReplActionView::Read],
        ),
        ev matches LoopEvent::Info { message } ==> repl_step(
            PhaseView::InTurn,
            answer,
            ReplEvent::Event(Some(ev)),
        ) == (
            PhaseView::InTurn,
            seq![ReplActionView::Print("ℹ "@ + message@), ReplActionView::Await],
        ),
{
}

/// The user is told what became of an answer: what it was, where it reached the
/// session, and otherwise that it did not.
pub proof fn users_learn_what_became_of_answers(a: Answer)
    ensures
        a == Answer::Wait ==> notice_of(a, true) == notice_of(a, false),
        a != Answer::Wait ==> notice_of(a, false) == UNDELIVERED@,
        a == Answer::Allow ==> notice_of(a, true) == "  已回复："@ + "允许"@,
        a == Answer::AlwaysAllow ==> notice_of(a, true) == "  已回复："@ + "总是允许"@,
        a == Answer::Deny ==> notice_of(a, true) == "  已回复："@ + "拒绝"@,
{
}

/// A conversation starts with the model that it has. A route is told by the
/// number of its candidates, and an endpoint where there is one.
pub proof fn conversations_start_with_their_model(
    candidates: Option<u64>,
    scope: Seq<char>,
    choice: ChoiceView,
)
    ensures
        ({
            let ls = startup_lines_of(candidates, scope, choice);
            let at = if candidates is Some {
                1int
            } else {
                0
            };
            let wire = match choice.wire_protocol {
                WireProtocol::ChatCompletions => "ChatCompletions"@,
                WireProtocol::Messages => "Messages"@,
                WireProtocol::Responses => "Responses"@,
            };
            &&& ls.len() == at + 1 + (if choice.endpoint is Some {
                1int
            } else {
                0
            })
            &&& ls[at] == "Provider: "@ + choice.provider + "  Model: "@ + choice.model + "  Wire: "@ + wire
            &&& choice.endpoint matches Some(e) ==> ls.last() == "Endpoint: "@ + e
            &&& candidates matches Some(n) ==> {
                &&& has_prefix(ls[0], "ModelRoute: "@ + decimal(n as nat) + " candidate(s), sticky="@)
                &&& n > 1 ==> has_suffix(ls[0], ", failover enabled"@)
                &&& n <= 1 ==> has_suffix(ls[0], debug_str_of(scope))
            }
        }),
{
    let ls = startup_lines_of(candidates, scope, choice);
    if let Some(n) = candidates {
        let a = "ModelRoute: "@ + decimal(n as nat) + " candidate(s), sticky="@;
        let b = debug_str_of(scope);
        let f = ", failover enabled"@;
        assert(ls[0].take(a.len() as int) =~= a);
        if n > 1 {
            assert(ls[0].skip(ls[0].len() - f.len()) =~= f);
        } else {
            assert(ls[0].skip(ls[0].len() - b.len()) =~= b);
        }
    }
}

} // verus!
