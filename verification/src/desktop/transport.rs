//! The agent process behind the window: when it is started, dropped and spoken
//! to.

use vstd::prelude::*;
use vstd::string::*;

use crate::paths::{join_path, joined_path, plain_path, plain_path_of};
use crate::session::route::AcpCommand;
use crate::text::{
    chars_of, has_prefix, opt_view, owned, same, starts_with, string_of, trim, trimmed,
};

verus! {

/// What the window asks of the worker.
#[derive(Debug)]
pub enum ControlMsg {
    /// Send a command to the agent.
    Command(AcpCommand),
    /// Start a new agent in a directory.
    Respawn { cwd: String },
    /// Make sure that an agent runs in a directory.
    EnsureRunning { cwd: String },
    /// Stop.
    Shutdown,
}

/// What the worker does about a message.
#[derive(Debug)]
pub enum WorkerStep {
    /// It drops the agent and ends.
    Stop,
    /// It drops the agent, if there is one, and starts another; `ensured`
    /// says whether one had to be running.
    Spawn { cwd: String, ensured: bool },
    /// An agent runs already.
    Running,
    /// It sends the command to the agent.
    Send(AcpCommand),
    /// It drops the agent, which is dead, and reports that.
    DropDead(String),
    /// It reports an error.
    Refuse(String),
}

/// The worker: the directory that its agent runs in, if it has one.
#[derive(Debug)]
pub struct AgentWorker {
    pub active_cwd: Option<String>,
}

/// What a command is answered whose agent has died.
pub const AGENT_GONE: &'static str = "agent 进程已退出，请重新打开会话以重启";

/// What a command is answered before any agent was started.
pub const NO_AGENT: &'static str = "agent 进程尚未启动：请先新建任务并选择工作目录";

/// The text that tells of a new agent.
pub open spec fn started_text(cwd: Seq<char>) -> Seq<char> {
    "[desktop] 已启动 grodex serve · workspace="@ + cwd
}

/// What comes of starting an agent.
#[derive(Debug)]
pub struct SpawnReport {
    /// The answer: whether an agent was started, or the error.
    pub reply: Result<bool, String>,
    /// What is logged.
    pub log: Option<String>,
}

/// What the worker does, in the model.
pub enum StepView {
    Stop,
    Spawn(Seq<char>, bool),
    Running,
    Send,
    DropDead,
    Refuse,
}

/// Whether the agent runs in a directory, however its path is written.
pub open spec fn is_directory(active: Option<Seq<char>>, cwd: Seq<char>) -> bool {
    active matches Some(c) && plain_path_of(c) == plain_path_of(cwd)
}

/// What the worker does about a message, where `active` is the directory of
/// its agent.
pub open spec fn step_for(active: Option<Seq<char>>, msg: ControlMsg, alive: bool) -> StepView {
    match msg {
        ControlMsg::Shutdown => StepView::Stop,
        ControlMsg::Respawn { cwd } => StepView::Spawn(cwd@, false),
        ControlMsg::EnsureRunning { cwd } => if alive && is_directory(active, cwd@) {
            StepView::Running
        } else {
            StepView::Spawn(cwd@, true)
        },
        ControlMsg::Command(_) => if active is None {
            StepView::Refuse
        } else if alive {
            StepView::Send
        } else {
            StepView::DropDead
        },
    }
}

/// The directory of the agent after a message. It keeps its agent only where
/// it goes on with it.
pub open spec fn active_after(active: Option<Seq<char>>, msg: ControlMsg, alive: bool) -> Option<
    Seq<char>,
> {
    match step_for(active, msg, alive) {
        StepView::Running => active,
        StepView::Send => active,
        _ => None,
    }
}

/// The directory of the agent after one was to be started.
pub open spec fn active_after_spawn(cwd: Seq<char>, started: bool) -> Option<Seq<char>> {
    if started {
        Some(cwd)
    } else {
        None
    }
}

impl AgentWorker {
    /// A worker without an agent.
    pub fn new() -> (r: Self)
        ensures
            opt_view(r.active_cwd) is None,
    {
        AgentWorker { active_cwd: None }
    }

    /// Takes a message; `alive` says whether the agent runs, where there is
    /// one. An agent is used only while it runs, and for another directory
    /// there is another agent.
    pub fn take(&mut self, msg: ControlMsg, alive: bool) -> (r: WorkerStep)
        ensures
            opt_view(final(self).active_cwd) == active_after(
                opt_view(old(self).active_cwd),
                msg,
                alive,
            ),
            match step_for(opt_view(old(self).active_cwd), msg, alive) {
                StepView::Stop => r is Stop,
                StepView::Spawn(c, e) => r matches WorkerStep::Spawn { cwd, ensured } && cwd@ == c
                    && ensured == e,
                StepView::Running => r is Running,
                StepView::Send => r matches WorkerStep::Send(c) && msg == ControlMsg::Command(c),
                StepView::DropDead => r matches WorkerStep::DropDead(m) && m@ == AGENT_GONE@,
                StepView::Refuse => r matches WorkerStep::Refuse(m) && m@ == NO_AGENT@,
            },
    {
        match msg {
            ControlMsg::Shutdown => {
                self.active_cwd = None;
                WorkerStep::Stop
            },
            ControlMsg::Respawn { cwd } => {
                self.active_cwd = None;
                WorkerStep::Spawn { cwd, ensured: false }
            },
            ControlMsg::EnsureRunning { cwd } => {
                let bound = match &self.active_cwd {
                    Some(c) => alive && same(
                        plain_path(c.as_str()).as_str(),
                        plain_path(cwd.as_str()).as_str(),
                    ),
                    None => false,
                };
                if bound {
                    WorkerStep::Running
                } else {
                    self.active_cwd = None;
                    WorkerStep::Spawn { cwd, ensured: true }
                }
            },
            ControlMsg::Command(cmd) => {
                if self.active_cwd.is_none() {
                    WorkerStep::Refuse(owned(NO_AGENT))
                } else if alive {
                    WorkerStep::Send(cmd)
                } else {
                    self.active_cwd = None;
                    WorkerStep::DropDead(owned(AGENT_GONE))
                }
            },
        }
    }

    /// Takes what came of starting an agent in a directory.
    pub fn spawned(&mut self, cwd: String, ensured: bool, result: Result<(), String>) -> (r:
        SpawnReport)
        requires
            opt_view(old(self).active_cwd) is None,
        ensures
            opt_view(final(self).active_cwd) == active_after_spawn(cwd@, result is Ok),
            match result {
                Ok(_) => {
                    &&& r.reply matches Ok(b) && b
                    &&& opt_view(r.log) == Some(started_text(cwd@))
                },
                Err(e) => {
                    &&& r.reply matches Err(m) && m@ == e@
                    &&& opt_view(r.log) == (if ensured {
                        None
                    } else {
                        Some(e@)
                    })
                },
            },
    {
        match result {
            Ok(_) => {
                let mut log = owned("[desktop] 已启动 grodex serve · workspace=");
                log.append(cwd.as_str());
                self.active_cwd = Some(cwd);
                SpawnReport { reply: Ok(true), log: Some(log) }
            },
            Err(e) => {
                let log = if ensured {
                    None
                } else {
                    Some(e.clone())
                };
                SpawnReport { reply: Err(e), log }
            },
        }
    }
}

/// Whether an agent can be started in a directory; the error is the message
/// for the user.
pub fn check_cwd(cwd: &str, found: bool) -> (r: Result<(), String>)
    ensures
        if found {
            r is Ok
        } else {
            r matches Err(m) && m@ == "工作目录不存在: "@ + cwd@
        },
{
    if found {
        Ok(())
    } else {
        let mut m = owned("工作目录不存在: ");
        m.append(cwd);
        Err(m)
    }
}

/// The message for the user where an agent cannot be started.
pub fn spawn_failed(bin: &str, error: &str) -> (r: String)
    ensures
        r@ == "无法启动 agent 进程（"@ + bin@
            + "）。请先 cargo build -p grodex-cli，或用 GRODEX_BIN 指定 grodex 路径："@ + error@,
{
    let mut m = owned("无法启动 agent 进程（");
    m.append(bin);
    m.append("）。请先 cargo build -p grodex-cli，或用 GRODEX_BIN 指定 grodex 路径：");
    m.append(error);
    m
}

/// A path and whether there is a file at it.
#[derive(Debug)]
pub struct Candidate {
    pub path: String,
    pub found: bool,
}

/// Whether a candidate is there.
pub open spec fn is_there(c: Option<Candidate>) -> bool {
    c matches Some(x) && x.found
}

/// The path of the agent's program: that of the environment, or else beside
/// this one, or else where it is built, or else its name, as far as there is a
/// file at each.
pub fn resolve_grodex_bin(
    env: Option<Candidate>,
    sibling: Option<Candidate>,
    built: Option<Candidate>,
) -> (r: String)
    ensures
        r@ == (if is_there(env) {
            env->0.path@
        } else if is_there(sibling) {
            sibling->0.path@
        } else if is_there(built) {
            built->0.path@
        } else {
            "grodex"@
        }),
{
    if let Some(c) = env {
        if c.found {
            return c.path;
        }
    }
    if let Some(c) = sibling {
        if c.found {
            return c.path;
        }
    }
    if let Some(c) = built {
        if c.found {
            return c.path;
        }
    }
    owned("grodex")
}

/// The directory that a user named, with the home directory put in, or the
/// message for the user.
pub open spec fn workspace_path_of(raw: Seq<char>, home: Option<Seq<char>>) -> Result<
    Seq<char>,
    Seq<char>,
> {
    let t = trimmed(raw);
    if t.len() == 0 {
        Err("工作目录不能为空"@)
    } else if has_prefix(t, "~/"@) {
        match home {
            Some(h) => Ok(joined_path(h, t.skip(2))),
            None => Err("无法解析 HOME"@),
        }
    } else {
        Ok(t)
    }
}

/// The directory that a user named, with the home directory put in.
pub fn workspace_path(raw: &str, home: Option<&str>) -> (r: Result<String, String>)
    ensures
        match workspace_path_of(
            raw@,
            match home {
                Some(h) => Some(h@),
                None => None,
            },
        ) {
            Ok(p) => r matches Ok(x) && x@ == p,
            Err(m) => r matches Err(x) && x@ == m,
        },
{
    let t = trim(raw);
    if t.as_str().is_empty() {
        return Err(owned("工作目录不能为空"));
    }
    if starts_with(t.as_str(), "~/") {
        match home {
            Some(h) => {
                let chars = chars_of(t.as_str());
                proof {
                    reveal_strlit("~/");
                    assert("~/"@.len() == 2);
                }
                let rest = string_of(&chars, 2, chars.len());
                assert(rest@ =~= t@.skip(2));
                Ok(join_path(h, rest.as_str()))
            },
            None => Err(owned("无法解析 HOME")),
        }
    } else {
        Ok(t)
    }
}

/// What the file system says of a directory that a user named.
#[derive(Debug)]
pub enum DirectoryFacts {
    /// There is no directory.
    Missing,
    /// Its canonical path.
    Canonical(String),
    /// Why it has none.
    Unresolved(String),
}

/// The canonical path of a directory that a user named; `facts` is what the
/// file system says of the path that [`workspace_path`] gives.
pub fn normalize_workspace(raw: &str, home: Option<&str>, facts: DirectoryFacts) -> (r: Result<
    String,
    String,
>)
    ensures
        match workspace_path_of(
            raw@,
            match home {
                Some(h) => Some(h@),
                None => None,
            },
        ) {
            Err(m) => r matches Err(x) && x@ == m,
            Ok(p) => match facts {
                DirectoryFacts::Missing => r matches Err(x) && x@ == "不是有效目录: "@ + p,
                DirectoryFacts::Canonical(c) => r matches Ok(x) && x@ == c@,
                DirectoryFacts::Unresolved(e) => r matches Err(x) && x@ == "无法解析工作目录 "@ + p
                    + ": "@ + e@,
            },
        },
{
    match workspace_path(raw, home) {
        Err(m) => Err(m),
        Ok(p) => match facts {
            DirectoryFacts::Missing => {
                let mut m = owned("不是有效目录: ");
                m.append(p.as_str());
                Err(m)
            },
            DirectoryFacts::Canonical(c) => Ok(c),
            DirectoryFacts::Unresolved(e) => {
                let mut m = owned("无法解析工作目录 ");
                m.append(p.as_str());
                m.append(": ");
                m.append(e.as_str());
                Err(m)
            },
        },
    }
}

/// What a caller gets from the worker: the reply, if the message was taken and
/// the reply came in time.
pub fn await_reply<T>(sent: bool, reply: Option<Result<T, String>>) -> (r: Result<T, String>)
    ensures
        if !sent {
            r matches Err(m) && m@ == "transport worker 已停止"@
        } else {
            match reply {
                Some(x) => r == x,
                None => r matches Err(m) && m@ == "等待 transport worker 响应超时"@,
            }
        },
{
    if !sent {
        return Err(owned("transport worker 已停止"));
    }
    match reply {
        Some(x) => x,
        None => Err(owned("等待 transport worker 响应超时")),
    }
}

/// No agent works in the directory of another: after a directory was asked
/// for, the agent is the one of that directory, or there is none.
pub proof fn agents_keep_to_their_directory(
    active: Option<Seq<char>>,
    cwd: String,
    alive: bool,
    started: bool,
)
    ensures
        ({
            let msg = ControlMsg::EnsureRunning { cwd };
            match step_for(active, msg, alive) {
                StepView::Running => alive && is_directory(active_after(active, msg, alive), cwd@),
                StepView::Spawn(c, _) => {
                    &&& c == cwd@
                    &&& active_after(active, msg, alive) is None
                    &&& active_after_spawn(c, started) == (if started {
                        Some(cwd@)
                    } else {
                        None
                    })
                },
                _ => false,
            }
        }),
{
}

/// A dead agent is never spoken to, and the next request for its directory
/// starts a new one.
pub proof fn dead_agents_are_replaced(active: Option<Seq<char>>, cmd: AcpCommand, cwd: String)
    ensures
        !(step_for(active, ControlMsg::Command(cmd), false) is Send),
        active_after(active, ControlMsg::Command(cmd), false) is None,
        step_for(active, ControlMsg::EnsureRunning { cwd }, false) == StepView::Spawn(cwd@, true),
{
}

/// What is done about each message: a stop stops, a new start starts, a command
/// goes to an agent that lives and to no other.
pub proof fn messages_are_obeyed(active: Option<Seq<char>>, cwd: String, cmd: AcpCommand, alive: bool)
    ensures
        step_for(active, ControlMsg::Shutdown, alive) is Stop,
        step_for(active, ControlMsg::Respawn { cwd }, alive) == StepView::Spawn(cwd@, false),
        step_for(active, ControlMsg::Command(cmd), alive) is Send <==> active is Some && alive,
        step_for(active, ControlMsg::Command(cmd), alive) is DropDead <==> active is Some && !alive,
        step_for(active, ControlMsg::Command(cmd), alive) is Refuse <==> active is None,
        step_for(active, ControlMsg::EnsureRunning { cwd }, alive) is Running <==> alive && (
        active matches Some(c) && plain_path_of(c) == plain_path_of(cwd@)),
        !(step_for(active, ControlMsg::EnsureRunning { cwd }, alive) is Running) ==> step_for(
            active,
            ControlMsg::EnsureRunning { cwd },
            alive,
        ) == StepView::Spawn(cwd@, true),
{
}

/// An agent stays in its directory while it is spoken to, and is gone after a
/// stop, a new start and its death.
pub proof fn agents_stay_or_go(active: Option<Seq<char>>, cwd: String, cmd: AcpCommand, alive: bool)
    ensures
        active is Some && alive ==> active_after(active, ControlMsg::Command(cmd), alive) == active,
        !alive ==> active_after(active, ControlMsg::Command(cmd), alive) is None,
        active_after(active, ControlMsg::Shutdown, alive) is None,
        active_after(active, ControlMsg::Respawn { cwd }, alive) is None,
        active_after_spawn(cwd@, true) == Some(cwd@),
        active_after_spawn(cwd@, false) is None,
{
}

/// A workspace is named by its path, in the home directory behind a tilde and a
/// slash. Nothing is no path.
pub proof fn workspaces_are_named_by_their_paths(raw: Seq<char>, home: Seq<char>, rest: Seq<char>)
    ensures
        trimmed(raw).len() == 0 ==> workspace_path_of(raw, Some(home)) is Err,
        trimmed(raw) == "~/"@ + rest ==> workspace_path_of(raw, Some(home)) == Ok::<Seq<char>, Seq<char>>(
            joined_path(home, rest),
        ),
        trimmed(raw) == "~/"@ + rest ==> workspace_path_of(raw, None) is Err,
        trimmed(raw).len() > 0 && (trimmed(raw)[0] != '~' || trimmed(raw).len() == 1 || trimmed(raw)[1]
            != '/') ==> workspace_path_of(raw, Some(home)) == Ok::<Seq<char>, Seq<char>>(trimmed(raw))
            && workspace_path_of(raw, None) == Ok::<Seq<char>, Seq<char>>(trimmed(raw)),
{
    reveal_strlit("~/");
    let t = trimmed(raw);
    if t == "~/"@ + rest {
        assert(t.take(2) =~= "~/"@);
        assert(t.skip(2) =~= rest);
    }
    if has_prefix(t, "~/"@) {
        assert(t[0] == t.take(2)[0] && t[1] == t.take(2)[1]);
    }
}

/// A program is taken only where it was found, and a start names the directory.
pub proof fn programs_must_be_there(path: Candidate, cwd: Seq<char>)
    ensures
        is_there(Some(path)) <==> path.found,
        !is_there(None),
        crate::text::has_suffix(started_text(cwd), cwd),
{
    let s = started_text(cwd);
    assert(s.skip(s.len() - cwd.len()) =~= cwd);
}

} // verus!
