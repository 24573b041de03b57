//! The list of sessions: what is shown of each, which are thrown away, and
//! what the configuration says of the model.

use vstd::prelude::*;
use vstd::string::*;

use crate::json::{get, json_parse_of, parse_json, text_in, JsonValue, JsonView};
use crate::paths::{join_path, joined_path};
use crate::session::journal::{event_name, RolloutEventType};
use crate::session::repl::head_of;
use crate::text::{
    chars_of, lines, lines_of, opt_view, owned, same, string_of, trim, trimmed, views,
};
use crate::toml_text::{parse_toml, toml_parse_of};
use crate::toml_value::{text_of, TomlValue, TomlView};

verus! {

/// The number of lines of a journal that are looked at.
pub const SCAN_LIMIT: usize = 6000;

/// The number of characters of a title.
pub const TITLE_CHARS: usize = 80;

/// The number of characters of a preview.
pub const PREVIEW_CHARS: usize = 180;

/// A session in the list.
#[derive(Debug)]
pub struct SessionSummary {
    pub id: String,
    /// The directory that the session was opened in.
    pub workspace: Option<String>,
    pub model: Option<String>,
    pub provider: Option<String>,
    pub title: String,
    pub preview: String,
    pub status: String,
    pub created_at: Option<String>,
    pub updated_at: Option<String>,
}

/// The mathematical value of a [`SessionSummary`].
pub struct SummaryView {
    pub id: Seq<char>,
    pub workspace: Option<Seq<char>>,
    pub model: Option<Seq<char>>,
    pub provider: Option<Seq<char>>,
    pub title: Seq<char>,
    pub preview: Seq<char>,
    pub status: Seq<char>,
    pub created_at: Option<Seq<char>>,
    pub updated_at: Option<Seq<char>>,
}

impl View for SessionSummary {
    type V = SummaryView;

    open spec fn view(&self) -> SummaryView {
        SummaryView {
            id: self.id@,
            workspace: opt_view(self.workspace),
            model: opt_view(self.model),
            provider: opt_view(self.provider),
            title: self.title@,
            preview: self.preview@,
            status: self.status@,
            created_at: opt_view(self.created_at),
            updated_at: opt_view(self.updated_at),
        }
    }
}

/// A session with the time of its last change, in milliseconds.
#[derive(Debug)]
pub struct RawSession {
    pub summary: SessionSummary,
    pub updated_ms: u64,
}

/// Whether an event shows that there was a conversation.
pub open spec fn is_content(event_type: Seq<char>) -> bool {
    event_type == "UserInputAccepted"@ || event_type == "ModelItemProduced"@ || event_type
        == "ToolExecutionStarted"@ || event_type == "ToolResultCommitted"@
}

fn shows_conversation(event_type: &str) -> (r: bool)
    ensures
        r == is_content(event_type@),
{
    same(event_type, "UserInputAccepted") || same(event_type, "ModelItemProduced") || same(
        event_type,
        "ToolExecutionStarted",
    ) || same(event_type, "ToolResultCommitted")
}

/// What a session was started with.
#[derive(Debug)]
pub struct SessionMeta {
    pub cwd: String,
    pub model: String,
    pub provider: String,
}

/// What was found at the head of a journal.
#[derive(Debug)]
pub struct JournalScan {
    pub meta: Option<SessionMeta>,
    pub created_at: Option<String>,
    pub first_user_text: Option<String>,
    /// Whether there was a conversation.
    pub has_content: bool,
}

/// The mathematical value of a [`JournalScan`].
pub struct ScanView {
    /// Directory, model and provider.
    pub meta: Option<(Seq<char>, Seq<char>, Seq<char>)>,
    pub created_at: Option<Seq<char>>,
    pub first_user_text: Option<Seq<char>>,
    pub has_content: bool,
}

impl View for JournalScan {
    type V = ScanView;

    open spec fn view(&self) -> ScanView {
        ScanView {
            meta: match self.meta {
                Some(m) => Some((m.cwd@, m.model@, m.provider@)),
                None => None,
            },
            created_at: opt_view(self.created_at),
            first_user_text: opt_view(self.first_user_text),
            has_content: self.has_content,
        }
    }
}

/// A text of the payload of an event.
pub open spec fn payload_text(v: JsonView, key: Seq<char>) -> Option<Seq<char>> {
    match get(v, "payload"@) {
        Some(p) => text_in(get(p, key)),
        None => None,
    }
}

/// A text, or the empty one.
pub open spec fn or_empty(t: Option<Seq<char>>) -> Seq<char> {
    match t {
        Some(s) => s,
        None => Seq::empty(),
    }
}

/// What is known after an event. The last start, the first time and the first
/// text of the user count.
pub open spec fn scan_event(st: ScanView, v: JsonView) -> ScanView {
    match text_in(get(v, "event_type"@)) {
        None => st,
        Some(et) => {
            let created_at = if st.created_at is Some {
                st.created_at
            } else {
                text_in(get(v, "timestamp"@))
            };
            let has_content = st.has_content || is_content(et);
            if et == "SessionStarted"@ {
                ScanView {
                    meta: Some(
                        (
                            or_empty(payload_text(v, "cwd"@)),
                            or_empty(payload_text(v, "model"@)),
                            or_empty(payload_text(v, "model_provider"@)),
                        ),
                    ),
                    created_at,
                    has_content,
                    ..st
                }
            } else if et == "UserInputAccepted"@ && st.first_user_text is None {
                ScanView {
                    first_user_text: payload_text(v, "text"@),
                    created_at,
                    has_content,
                    ..st
                }
            } else {
                ScanView { created_at, has_content, ..st }
            }
        },
    }
}

/// What is known after a line. A line that cannot be read, is empty or is no
/// JSON is passed over.
pub open spec fn scan_line(st: ScanView, line: Option<Seq<char>>) -> ScanView {
    match line {
        None => st,
        Some(l) => if trimmed(l).len() == 0 {
            st
        } else {
            match json_parse_of(trimmed(l)) {
                Ok(v) => scan_event(st, v),
                Err(_) => st,
            }
        },
    }
}

/// Nothing found yet.
pub open spec fn empty_scan() -> ScanView {
    ScanView { meta: None, created_at: None, first_user_text: None, has_content: false }
}

/// Whether nothing more is looked for.
pub open spec fn is_complete(st: ScanView) -> bool {
    st.meta is Some && st.first_user_text is Some
}

/// What is known after the first `n` lines.
pub open spec fn scanned(lines: Seq<Option<Seq<char>>>, n: int) -> ScanView
    decreases n,
{
    if n <= 0 {
        empty_scan()
    } else {
        let st = scanned(lines, n - 1);
        if is_complete(st) {
            st
        } else {
            scan_line(st, lines[n - 1])
        }
    }
}

/// The views of lines, of which some could not be read.
pub open spec fn opt_views(lines: Seq<Option<String>>) -> Seq<Option<Seq<char>>> {
    lines.map_values(|l: Option<String>| opt_view(l))
}

/// What is known of a journal.
pub open spec fn journal_head(lines: Seq<Option<Seq<char>>>) -> ScanView {
    scanned(
        lines,
        if lines.len() < SCAN_LIMIT {
            lines.len() as int
        } else {
            SCAN_LIMIT as int
        },
    )
}

fn read_payload_text(v: &JsonValue, key: &str) -> (r: Option<String>)
    ensures
        opt_view(r) == payload_text(v@, key@),
{
    match v.get("payload") {
        Some(p) => p.text_at(key),
        None => None,
    }
}

fn text_or_empty(t: Option<String>) -> (r: String)
    ensures
        r@ == or_empty(opt_view(t)),
{
    match t {
        Some(s) => s,
        None => {
            let none = String::new();
            assert(none@ =~= Seq::empty());
            none
        },
    }
}

impl JournalScan {
    /// Nothing found yet.
    pub fn new() -> (r: Self)
        ensures
            r@ == empty_scan(),
    {
        JournalScan { meta: None, created_at: None, first_user_text: None, has_content: false }
    }

    /// Takes an event.
    pub fn take_event(&mut self, v: &JsonValue)
        ensures
            final(self)@ == scan_event(old(self)@, v@),
    {
        let et = match v.text_at("event_type") {
            Some(et) => et,
            None => {
                return ;
            },
        };
        if shows_conversation(et.as_str()) {
            self.has_content = true;
        }
        if self.created_at.is_none() {
            self.created_at = v.text_at("timestamp");
        }
        if same(et.as_str(), "SessionStarted") {
            let cwd = text_or_empty(read_payload_text(v, "cwd"));
            let model = text_or_empty(read_payload_text(v, "model"));
            let provider = text_or_empty(read_payload_text(v, "model_provider"));
            self.meta = Some(SessionMeta { cwd, model, provider });
        } else if same(et.as_str(), "UserInputAccepted") && self.first_user_text.is_none() {
            self.first_user_text = read_payload_text(v, "text");
        }
    }

    /// Takes a line, if it could be read.
    pub fn take_line(&mut self, line: &Option<String>)
        ensures
            final(self)@ == scan_line(old(self)@, opt_view(*line)),
    {
        if let Some(l) = line {
            let t = trim(l.as_str());
            if !t.as_str().is_empty() {
                if let Ok(v) = parse_json(t.as_str()) {
                    self.take_event(&v);
                }
            }
        }
    }
}

/// Looks at the head of a journal.
pub fn scan_journal(lines: &Vec<Option<String>>) -> (r: JournalScan)
    ensures
        r@ == journal_head(opt_views(lines@)),
{
    let ghost ls = opt_views(lines@);
    let n: usize = if lines.len() < SCAN_LIMIT {
        lines.len()
    } else {
        SCAN_LIMIT
    };
    let mut scan = JournalScan::new();
    let mut i: usize = 0;
    while i < n
        invariant
            i <= n <= lines@.len(),
            n == (if lines@.len() < SCAN_LIMIT {
                lines@.len()
            } else {
                SCAN_LIMIT as nat
            }),
            ls == opt_views(lines@),
            scan@ == scanned(ls, i as int),
        decreases n - i,
    {
        if scan.meta.is_some() && scan.first_user_text.is_some() {
            proof {
                lemma_complete_scan_stays(ls, i as int, n as int);
            }
            return scan;
        }
        assert(ls[i as int] == opt_view(lines@[i as int]));
        scan.take_line(&lines[i]);
        i = i + 1;
    }
    scan
}

proof fn lemma_complete_scan_stays(lines: Seq<Option<Seq<char>>>, i: int, n: int)
    requires
        0 <= i <= n,
        is_complete(scanned(lines, i)),
    ensures
        scanned(lines, n) == scanned(lines, i),
    decreases n - i,
{
    if i < n {
        lemma_complete_scan_stays(lines, i, n - 1);
    }
}

/// The number of bytes of a character in UTF-8.
pub open spec fn char_bytes(c: char) -> nat {
    if c <= '\u{7f}' {
        1
    } else if c <= '\u{7ff}' {
        2
    } else if c <= '\u{ffff}' {
        3
    } else {
        4
    }
}

/// The number of bytes of a text in UTF-8.
pub open spec fn byte_len(s: Seq<char>) -> nat
    decreases s.len(),
{
    if s.len() == 0 {
        0
    } else {
        char_bytes(s[0]) + byte_len(s.skip(1))
    }
}

/// The characters in the first `n` bytes of a text, where these are whole
/// characters.
pub open spec fn byte_cut(s: Seq<char>, n: int) -> Option<Seq<char>>
    decreases s.len(),
{
    if n == 0 {
        Some(Seq::empty())
    } else if s.len() == 0 || char_bytes(s[0]) > n {
        None
    } else {
        match byte_cut(s.skip(1), n - char_bytes(s[0])) {
            Some(t) => Some(seq![s[0]] + t),
            None => None,
        }
    }
}

/// The first eight bytes of an identifier, where these are whole characters.
pub open spec fn short_id_of(id: Seq<char>) -> Option<Seq<char>> {
    if byte_len(id) <= 8 {
        Some(id)
    } else {
        byte_cut(id, 8)
    }
}

fn bytes_of_char(c: char) -> (r: usize)
    ensures
        r == char_bytes(c),
        1 <= r <= 4,
{
    if c <= '\u{7f}' {
        1
    } else if c <= '\u{7ff}' {
        2
    } else if c <= '\u{ffff}' {
        3
    } else {
        4
    }
}

fn short_id(id: &str) -> (r: Option<String>)
    ensures
        opt_view(r) == short_id_of(id@),
{
    let chars = chars_of(id);
    let mut i: usize = 0;
    let mut used: usize = 0;
    assert(chars@.skip(0) =~= chars@);
    assert(byte_cut(chars@, 8) is Some ==> chars@.take(0) + byte_cut(chars@, 8)->0 =~= byte_cut(
        chars@,
        8,
    )->0);
    while i < chars.len() && used < 8
        invariant
            i <= chars@.len(),
            used <= 8,
            chars@ == id@,
            byte_len(id@) == used + byte_len(id@.skip(i as int)),
            match byte_cut(id@.skip(i as int), 8 - used) {
                Some(t) => byte_cut(id@, 8) == Some(id@.take(i as int) + t),
                None => byte_cut(id@, 8) is None,
            },
        decreases chars@.len() - i,
    {
        let b: usize = bytes_of_char(chars[i]);
        let ghost rest = id@.skip(i as int);
        proof {
            assert(rest[0] == id@[i as int]);
            assert(rest.skip(1) =~= id@.skip(i as int + 1));
            match byte_cut(rest.skip(1), 8 - used - b) {
                Some(t) => {
                    assert(id@.take(i as int) + (seq![rest[0]] + t) =~= id@.take(i as int + 1) + t);
                },
                None => {},
            }
            assert(byte_len(rest) >= b);
        }
        used = used + b;
        if used > 8 {
            assert(byte_cut(id@, 8) is None);
            assert(byte_len(id@) > 8);
            return None;
        }
        i = i + 1;
    }
    let r = string_of(&chars, 0, i);
    proof {
        assert(r@ =~= id@.take(i as int));
        if i == chars@.len() {
            assert(id@.skip(i as int) =~= Seq::empty());
            assert(id@.take(i as int) =~= id@);
        } else {
            let rest = id@.skip(i as int);
            assert(used == 8);
            assert(byte_len(rest) > 0);
            assert(id@.take(i as int) + Seq::<char>::empty() =~= id@.take(i as int));
        }
    }
    Some(r)
}

/// The first line of a text that is not empty, without the space around it.
pub open spec fn first_line_of(ls: Seq<Seq<char>>) -> Option<Seq<char>>
    decreases ls.len(),
{
    if ls.len() == 0 {
        None
    } else if trimmed(ls[0]).len() > 0 {
        Some(trimmed(ls[0]))
    } else {
        first_line_of(ls.skip(1))
    }
}

/// The first line of a text that is not empty.
pub fn first_line(text: &str) -> (r: Option<String>)
    ensures
        opt_view(r) == first_line_of(lines_of(text@)),
{
    let ls = lines(text);
    let ghost vs = views(ls@);
    let mut i: usize = 0;
    assert(vs.skip(0) =~= vs);
    while i < ls.len()
        invariant
            i <= ls@.len(),
            vs == views(ls@),
            vs == lines_of(text@),
            first_line_of(vs) == first_line_of(vs.skip(i as int)),
        decreases ls@.len() - i,
    {
        let t = trim(ls[i].as_str());
        assert(vs.skip(i as int)[0] == ls@[i as int]@);
        assert(vs.skip(i as int).skip(1) =~= vs.skip(i as int + 1));
        if !t.as_str().is_empty() {
            return Some(t);
        }
        i = i + 1;
    }
    None
}

/// The title of a session: the first line of the user's first text, or else
/// the head of its identifier.
pub open spec fn title_of(user_text: Seq<char>, id: Seq<char>) -> Seq<char> {
    match first_line_of(lines_of(user_text)) {
        Some(l) => head_of(l, TITLE_CHARS as int),
        None => "会话 "@ + or_empty(short_id_of(id)),
    }
}

/// Whether a title can be made.
pub open spec fn has_title(user_text: Seq<char>, id: Seq<char>) -> bool {
    first_line_of(lines_of(user_text)) is Some || short_id_of(id) is Some
}

fn head(s: &str, n: usize) -> (r: String)
    ensures
        r@ == head_of(s@, n as int),
{
    let chars = chars_of(s);
    if chars.len() <= n {
        owned(s)
    } else {
        let r = string_of(&chars, 0, n);
        assert(r@ =~= s@.take(n as int));
        r
    }
}

fn session_title(user_text: &str, id: &str) -> (r: Option<String>)
    ensures
        r is Some == has_title(user_text@, id@),
        r matches Some(t) ==> t@ == title_of(user_text@, id@),
{
    match first_line(user_text) {
        Some(l) => Some(head(l.as_str(), TITLE_CHARS)),
        None => match short_id(id) {
            Some(i) => {
                let mut s = owned("会话 ");
                s.append(i.as_str());
                Some(s)
            },
            None => None,
        },
    }
}

/// A text, unless it is empty.
pub open spec fn non_empty(s: Seq<char>) -> Option<Seq<char>> {
    if s.len() == 0 {
        None
    } else {
        Some(s)
    }
}

fn unless_empty(s: String) -> (r: Option<String>)
    ensures
        opt_view(r) == non_empty(s@),
{
    if s.as_str().is_empty() {
        None
    } else {
        Some(s)
    }
}

/// The summary of a session.
pub open spec fn summary_of(st: ScanView, id: Seq<char>, updated_at: Option<Seq<char>>) -> SummaryView {
    let text = or_empty(st.first_user_text);
    let (cwd, model, provider) = match st.meta {
        Some(m) => m,
        None => (Seq::empty(), Seq::empty(), Seq::empty()),
    };
    SummaryView {
        id,
        workspace: non_empty(cwd),
        model: non_empty(model),
        provider: non_empty(provider),
        title: title_of(text, id),
        preview: head_of(text, PREVIEW_CHARS as int),
        status: "completed"@,
        created_at: st.created_at,
        updated_at,
    }
}

/// What comes of a journal.
#[derive(Debug)]
pub enum JournalSummary {
    /// There was a conversation.
    Session(RawSession),
    /// There was none.
    Empty,
    /// There is no text of the user, and the identifier cannot be cut to make
    /// a title.
    Untitled,
}

/// Summarizes a session from what was found at the head of its journal.
/// `modified` is the time of the journal's last change, as text and in
/// milliseconds, if it is known.
pub fn summarize_scan(scan: JournalScan, id: &str, modified: Option<(String, u64)>) -> (r:
    JournalSummary)
    ensures
        is_summary(scan@, id@, modified, r),
{
    let text = text_or_empty(scan.first_user_text);
    let title = match session_title(text.as_str(), id) {
        Some(t) => t,
        None => {
            return JournalSummary::Untitled;
        },
    };
    let preview = head(text.as_str(), PREVIEW_CHARS);
    if !scan.has_content {
        return JournalSummary::Empty;
    }
    let (workspace, model, provider) = match scan.meta {
        Some(m) => (unless_empty(m.cwd), unless_empty(m.model), unless_empty(m.provider)),
        None => (None, None, None),
    };
    let (updated_at, updated_ms): (Option<String>, u64) = match modified {
        Some((t, ms)) => (Some(t), ms),
        None => (None, 0),
    };
    JournalSummary::Session(
        RawSession {
            summary: SessionSummary {
                id: owned(id),
                workspace,
                model,
                provider,
                title,
                preview,
                status: owned("completed"),
                created_at: scan.created_at,
                updated_at,
            },
            updated_ms,
        },
    )
}

/// What comes of the head of a journal.
pub open spec fn is_summary(
    st: ScanView,
    id: Seq<char>,
    modified: Option<(String, u64)>,
    r: JournalSummary,
) -> bool {
    match r {
        JournalSummary::Untitled => !has_title(or_empty(st.first_user_text), id),
        JournalSummary::Empty => has_title(or_empty(st.first_user_text), id) && !st.has_content,
        JournalSummary::Session(s) => {
            &&& has_title(or_empty(st.first_user_text), id)
            &&& st.has_content
            &&& s.summary@ == summary_of(
                st,
                id,
                match modified {
                    Some(m) => Some(m.0@),
                    None => None,
                },
            )
            &&& s.updated_ms == (match modified {
                Some(m) => m.1,
                None => 0,
            })
        },
    }
}

/// Summarizes a session from its journal.
pub fn summarize_journal(lines: &Vec<Option<String>>, id: &str, modified: Option<(String, u64)>) -> (r:
    JournalSummary)
    ensures
        is_summary(journal_head(opt_views(lines@)), id@, modified, r),
{
    summarize_scan(scan_journal(lines), id, modified)
}

/// Whether an event belongs to a session without a conversation: its kind is
/// known and does not show one.
pub open spec fn is_boot_event(v: JsonView) -> bool {
    match text_in(get(v, "event_type"@)) {
        Some(et) => (exists|e: RolloutEventType| #[trigger] event_name(e) == et) && !is_content(et),
        None => false,
    }
}

/// Whether the first `n` lines belong to a session without a conversation, and
/// if so, whether there was any event.
pub open spec fn boot_scan(lines: Seq<Option<Seq<char>>>, n: int) -> Option<bool>
    decreases n,
{
    if n <= 0 {
        Some(false)
    } else {
        match (boot_scan(lines, n - 1), lines[n - 1]) {
            (Some(any), Some(l)) => if trimmed(l).len() == 0 {
                Some(any)
            } else {
                match json_parse_of(trimmed(l)) {
                    Ok(v) => if is_boot_event(v) {
                        Some(true)
                    } else {
                        None
                    },
                    Err(_) => None,
                }
            },
            _ => None,
        }
    }
}

/// Whether an event belongs to a session without a conversation.
pub fn event_is_boot(v: &JsonValue) -> (r: bool)
    ensures
        r == is_boot_event(v@),
{
    match v.text_at("event_type") {
        Some(et) => {
            match RolloutEventType::from_name(et.as_str()) {
                Some(e) => {
                    assert(event_name(e) == et@);
                    !shows_conversation(et.as_str())
                },
                None => false,
            }
        },
        None => false,
    }
}

/// Whether a journal is that of a session without a conversation: it has an
/// event, and every line can be read, is JSON and holds an event of a known
/// kind that does not show a conversation. In doubt it is not.
pub fn journal_is_boot_only(lines: &Vec<Option<String>>) -> (r: bool)
    ensures
        r == (boot_scan(opt_views(lines@), lines@.len() as int) == Some(true)),
{
    let ghost ls = opt_views(lines@);
    let mut any = false;
    let mut i: usize = 0;
    while i < lines.len()
        invariant
            i <= lines@.len(),
            ls == opt_views(lines@),
            boot_scan(ls, i as int) == Some(any),
        decreases lines@.len() - i,
    {
        assert(ls[i as int] == opt_view(lines@[i as int]));
        let boot = match &lines[i] {
            Some(l) => {
                let t = trim(l.as_str());
                if t.as_str().is_empty() {
                    true
                } else {
                    match parse_json(t.as_str()) {
                        Ok(v) => {
                            let b = event_is_boot(&v);
                            if b {
                                any = true;
                            }
                            b
                        },
                        Err(_) => false,
                    }
                }
            },
            None => false,
        };
        if !boot {
            proof {
                assert(boot_scan(ls, i as int + 1) is None);
                lemma_boot_scan_stays_none(ls, i as int + 1, lines@.len() as int);
            }
            return false;
        }
        i = i + 1;
    }
    any
}

proof fn lemma_boot_scan_stays_none(lines: Seq<Option<Seq<char>>>, i: int, n: int)
    requires
        0 <= i <= n,
        boot_scan(lines, i) is None,
    ensures
        boot_scan(lines, n) is None,
    decreases n - i,
{
    if i < n {
        lemma_boot_scan_stays_none(lines, i, n - 1);
    }
}

/// Whether the directory of a session is thrown away: its journal is there and
/// is empty or that of a session without a conversation. `size` is the size of
/// the journal, if there is one.
pub fn is_purged(size: Option<u64>, lines: &Vec<Option<String>>) -> (r: bool)
    ensures
        r == (size == Some(0u64) || boot_scan(opt_views(lines@), lines@.len() as int) == Some(
            true,
        )),
{
    let empty = match size {
        Some(n) => n == 0,
        None => false,
    };
    empty || journal_is_boot_only(lines)
}

/// Where a session goes in a list that is in order: behind all that are as
/// recent.
pub open spec fn recency_slot(s: Seq<RawSession>, ms: u64, from: int) -> int
    decreases s.len() - from,
{
    if from < 0 || from >= s.len() {
        s.len() as int
    } else if s[from].updated_ms < ms {
        from
    } else {
        recency_slot(s, ms, from + 1)
    }
}

/// Sessions in order, the latest first. Those of one time keep their order.
pub open spec fn by_recency(s: Seq<RawSession>) -> Seq<RawSession>
    decreases s.len(),
{
    if s.len() == 0 {
        s
    } else {
        let below = by_recency(s.drop_last());
        below.insert(recency_slot(below, s.last().updated_ms, 0), s.last())
    }
}

proof fn lemma_slot(s: Seq<RawSession>, ms: u64, from: int)
    requires
        0 <= from <= s.len(),
    ensures
        from <= recency_slot(s, ms, from) <= s.len(),
        forall|k: int| from <= k < recency_slot(s, ms, from) ==> (#[trigger] s[k]).updated_ms >= ms,
        recency_slot(s, ms, from) < s.len() ==> s[recency_slot(s, ms, from)].updated_ms < ms,
    decreases s.len() - from,
{
    if from < s.len() && s[from].updated_ms >= ms {
        lemma_slot(s, ms, from + 1);
    }
}

/// Puts sessions in order, the latest first.
pub fn sort_sessions(sessions: Vec<RawSession>) -> (r: Vec<RawSession>)
    ensures
        r@ == by_recency(sessions@),
{
    let ghost all = sessions@;
    let mut out: Vec<RawSession> = Vec::new();
    assert(all.take(0) =~= Seq::empty());
    for x in it: sessions
        invariant
            it.seq() == sessions@,
            all == sessions@,
            out@ == by_recency(all.take(it.index() as int)),
    {
        let ghost i = it.index() as int;
        let ghost before = out@;
        proof {
            assert(all.take(i + 1).drop_last() =~= all.take(i));
            assert(all.take(i + 1).last() == x);
        }
        let mut k: usize = 0;
        while k < out.len() && out[k].updated_ms >= x.updated_ms
            invariant
                k <= out@.len(),
                out@ == before,
                recency_slot(before, x.updated_ms, 0) == recency_slot(
                    before,
                    x.updated_ms,
                    k as int,
                ),
            decreases out@.len() - k,
        {
            k = k + 1;
        }
        out.insert(k, x);
    }
    assert(all.take(all.len() as int) =~= all);
    out
}

/// The list of sessions, the latest first.
pub fn list_sessions(sessions: Vec<RawSession>) -> (r: Vec<SessionSummary>)
    ensures
        r@ == by_recency(sessions@).map_values(|s: RawSession| s.summary),
{
    let ordered = sort_sessions(sessions);
    let ghost all = ordered@;
    let ghost f = |s: RawSession| s.summary;
    let mut out: Vec<SessionSummary> = Vec::new();
    assert(out@ =~= all.take(0).map_values(f));
    for x in it: ordered
        invariant
            it.seq() == ordered@,
            all == ordered@,
            f == (|s: RawSession| s.summary),
            out@ == all.take(it.index() as int).map_values(f),
    {
        let ghost i = it.index() as int;
        out.push(x.summary);
        assert(all.take(i + 1).map_values(f) =~= all.take(i).map_values(f).push(x.summary));
    }
    assert(all.take(all.len() as int) =~= all);
    out
}

/// Whether sessions are in order.
pub open spec fn latest_first(s: Seq<RawSession>) -> bool {
    forall|i: int, j: int|
        0 <= i < j < s.len() ==> (#[trigger] s[i]).updated_ms >= (#[trigger] s[j]).updated_ms
}

/// The list holds every session once, the latest first.
pub proof fn the_list_is_complete_and_in_order(s: Seq<RawSession>)
    ensures
        latest_first(by_recency(s)),
        by_recency(s).to_multiset() == s.to_multiset(),
        by_recency(s).len() == s.len(),
    decreases s.len(),
{
    broadcast use vstd::seq_lib::group_to_multiset_ensures;

    if s.len() > 0 {
        let below = by_recency(s.drop_last());
        let x = s.last();
        the_list_is_complete_and_in_order(s.drop_last());
        lemma_slot(below, x.updated_ms, 0);
        let k = recency_slot(below, x.updated_ms, 0);
        let r = below.insert(k, x);
        assert forall|i: int, j: int| 0 <= i < j < r.len() implies (#[trigger] r[i]).updated_ms >= (
        #[trigger] r[j]).updated_ms by {
            let i2 = if i < k { i } else { i - 1 };
            let j2 = if j < k { j } else { j - 1 };
            if i != k {
                assert(r[i] == below[i2]);
            }
            if j != k {
                assert(r[j] == below[j2]);
            }
            if i == k {
                if k < below.len() && j2 > k {
                    assert(below[k].updated_ms >= below[j2].updated_ms);
                }
            } else if j != k {
                assert(below[i2].updated_ms >= below[j2].updated_ms);
            }
        }
        vstd::seq_lib::to_multiset_insert(below, k, x);
        assert(s =~= s.drop_last().push(x));
        assert(s.to_multiset() =~= s.drop_last().to_multiset().insert(x));
    }
}

/// Whether a character can stand in the identifier of a session.
pub open spec fn is_id_char(c: char) -> bool {
    ('a' <= c && c <= 'z') || ('A' <= c && c <= 'Z') || ('0' <= c && c <= '9') || c == '-'
}

/// Whether a text can be the identifier of a session.
pub open spec fn is_id(id: Seq<char>) -> bool {
    forall|i: int| 0 <= i < id.len() ==> is_id_char(#[trigger] id[i])
}

/// The directory of a session, where its identifier is one. The error is the
/// message for the user.
pub open spec fn session_path_of(id: Seq<char>, root: Seq<char>) -> Result<Seq<char>, Seq<char>> {
    let t = trimmed(id);
    if t.len() == 0 {
        Err("session id 为空"@)
    } else if !is_id(t) {
        Err("非法的 session id: "@ + t)
    } else {
        Ok(joined_path(root, t))
    }
}

/// The directory of a session, where its identifier is one.
pub fn session_path(id: &str, root: &str) -> (r: Result<String, String>)
    ensures
        match session_path_of(id@, root@) {
            Ok(p) => r matches Ok(x) && x@ == p,
            Err(m) => r matches Err(x) && x@ == m,
        },
{
    let t = trim(id);
    let chars = chars_of(t.as_str());
    if chars.len() == 0 {
        return Err(owned("session id 为空"));
    }
    let mut i: usize = 0;
    while i < chars.len()
        invariant
            i <= chars@.len(),
            chars@ == t@,
            t@ == trimmed(id@),
            chars@.len() > 0,
            forall|k: int| 0 <= k < i ==> is_id_char(#[trigger] chars@[k]),
        decreases chars@.len() - i,
    {
        let c: char = chars[i];
        let ok = ('a' <= c && c <= 'z') || ('A' <= c && c <= 'Z') || ('0' <= c && c <= '9') || c
            == '-';
        if !ok {
            assert(!is_id_char(chars@[i as int]));
            let mut m = owned("非法的 session id: ");
            m.append(t.as_str());
            return Err(m);
        }
        i = i + 1;
    }
    Ok(join_path(root, t.as_str()))
}

/// The directory of a session; `is_dir` says whether there is a directory at
/// the path that [`session_path`] gives.
pub fn session_dir(id: &str, root: &str, is_dir: bool) -> (r: Result<String, String>)
    ensures
        match session_path_of(id@, root@) {
            Err(m) => r matches Err(x) && x@ == m,
            Ok(p) => if is_dir {
                r matches Ok(x) && x@ == p
            } else {
                r matches Err(x) && x@ == "会话目录不存在: "@ + p
            },
        },
{
    match session_path(id, root) {
        Err(m) => Err(m),
        Ok(p) => {
            if is_dir {
                Ok(p)
            } else {
                let mut m = owned("会话目录不存在: ");
                m.append(p.as_str());
                Err(m)
            }
        },
    }
}

/// Whether a session can be deleted: not where its journal was written to in
/// the last minute. `age_secs` is the age of the last change, if it is known.
pub fn check_deletable(age_secs: Option<u64>) -> (r: Result<(), String>)
    ensures
        match age_secs {
            Some(age) => if age < 60 {
                r matches Err(m) && m@
                    == "该会话可能仍在使用中（journal 刚刚更新），请稍后再删除"@
            } else {
                r is Ok
            },
            None => r is Ok,
        },
{
    if let Some(age) = age_secs {
        if age < 60 {
            return Err(
                owned("该会话可能仍在使用中（journal 刚刚更新），请稍后再删除"),
            );
        }
    }
    Ok(())
}

/// No identifier leads out of the directory of the sessions: what is deleted is
/// a direct child of it, and its name holds no separator and no dot.
pub proof fn sessions_stay_in_their_directory(id: Seq<char>, root: Seq<char>)
    requires
        session_path_of(id, root) is Ok,
    ensures
        session_path_of(id, root)->Ok_0 == joined_path(root, trimmed(id)),
        !trimmed(id).contains('/'),
        !trimmed(id).contains('\\'),
        !trimmed(id).contains('.'),
        trimmed(id).len() > 0,
{
    let t = trimmed(id);
    assert forall|c: char| t.contains(c) implies is_id_char(c) by {
        let i = choose|i: int| 0 <= i < t.len() && t[i] == c;
        assert(is_id_char(t[i]));
    }
    assert(!is_id_char('/') && !is_id_char('\\') && !is_id_char('.'));
}

/// What the configuration says of the model.
#[derive(Debug)]
pub struct ConfigSummary {
    pub provider: Option<String>,
    pub model: Option<String>,
    pub sandbox_profile: Option<String>,
    pub wire_protocol: &'static str,
    pub config_path: Option<String>,
}

/// The mathematical value of a [`ConfigSummary`].
pub struct ConfigSummaryView {
    pub provider: Option<Seq<char>>,
    pub model: Option<Seq<char>>,
    pub sandbox_profile: Option<Seq<char>>,
    pub wire_protocol: Seq<char>,
    pub config_path: Option<Seq<char>>,
}

impl View for ConfigSummary {
    type V = ConfigSummaryView;

    open spec fn view(&self) -> ConfigSummaryView {
        ConfigSummaryView {
            provider: opt_view(self.provider),
            model: opt_view(self.model),
            sandbox_profile: opt_view(self.sandbox_profile),
            wire_protocol: self.wire_protocol@,
            config_path: opt_view(self.config_path),
        }
    }
}

/// The text of a key of an optional value.
pub open spec fn config_text(v: Option<TomlView>, key: Seq<char>) -> Option<Seq<char>> {
    match v {
        Some(x) => crate::toml_value::text_in(crate::toml_value::get(x, key)),
        None => None,
    }
}

/// The sandbox profile of an optional value.
pub open spec fn profile_in(v: Option<TomlView>) -> Option<Seq<char>> {
    match v {
        Some(x) => config_text(crate::toml_value::get(x, "sandbox"@), "profile"@),
        None => None,
    }
}

/// The summary of the user's configuration. The sandbox profile of the
/// workspace comes before that of the user.
pub open spec fn config_summary_of(
    home: Option<TomlView>,
    workspace: Option<TomlView>,
    path: Seq<char>,
) -> ConfigSummaryView {
    ConfigSummaryView {
        provider: config_text(home, "provider"@),
        model: match config_text(home, "model_id"@) {
            Some(m) => Some(m),
            None => config_text(home, "model"@),
        },
        sandbox_profile: match profile_in(workspace) {
            Some(p) => Some(p),
            None => profile_in(home),
        },
        wire_protocol: "acp_stdio"@,
        config_path: Some(path),
    }
}

/// The value of an optional document, where it is one.
pub open spec fn parsed(text: Option<Seq<char>>) -> Option<TomlView> {
    match text {
        Some(t) => match toml_parse_of(t) {
            Ok(v) => Some(v),
            Err(_) => None,
        },
        None => None,
    }
}

/// The view of an optional value.
pub open spec fn opt_toml(v: Option<TomlValue>) -> Option<TomlView> {
    match v {
        Some(x) => Some(x@),
        None => None,
    }
}

fn read_config_text(v: &Option<TomlValue>, key: &str) -> (r: Option<String>)
    ensures
        opt_view(r) == config_text(opt_toml(*v), key@),
{
    match v {
        Some(x) => text_of(x.get(key)),
        None => None,
    }
}

fn read_profile(v: &Option<TomlValue>) -> (r: Option<String>)
    ensures
        opt_view(r) == profile_in(opt_toml(*v)),
{
    match v {
        Some(x) => match x.get("sandbox") {
            Some(s) => text_of(s.get("profile")),
            None => None,
        },
        None => None,
    }
}

/// The summary of configurations that were parsed.
pub fn config_summary(home: &Option<TomlValue>, workspace: &Option<TomlValue>, path: String) -> (r:
    ConfigSummary)
    ensures
        r@ == config_summary_of(opt_toml(*home), opt_toml(*workspace), path@),
{
    let model = match read_config_text(home, "model_id") {
        Some(m) => Some(m),
        None => read_config_text(home, "model"),
    };
    let sandbox_profile = match read_profile(workspace) {
        Some(p) => Some(p),
        None => read_profile(home),
    };
    ConfigSummary {
        provider: read_config_text(home, "provider"),
        model,
        sandbox_profile,
        wire_protocol: "acp_stdio",
        config_path: Some(path),
    }
}

fn parse_config(text: &Option<String>) -> (r: Option<TomlValue>)
    ensures
        opt_toml(r) == parsed(opt_view(*text)),
{
    match text {
        Some(t) => match parse_toml(t.as_str()) {
            Ok(v) => Some(v),
            Err(_) => None,
        },
        None => None,
    }
}

/// The summary of the user's configuration file and of that of the workspace,
/// as far as they can be read.
pub fn get_config(home: &Option<String>, workspace: &Option<String>, path: String) -> (r:
    ConfigSummary)
    ensures
        r@ == config_summary_of(parsed(opt_view(*home)), parsed(opt_view(*workspace)), path@),
{
    config_summary(&parse_config(home), &parse_config(workspace), path)
}

/// The directory of the sessions.
pub fn sessions_dir(home: Option<&str>) -> (r: String)
    ensures
        r@ == joined_path(
            joined_path(
                match home {
                    Some(h) => h@,
                    None => "."@,
                },
                ".grodex"@,
            ),
            "sessions"@,
        ),
{
    let h = match home {
        Some(h) => h,
        None => ".",
    };
    join_path(join_path(h, ".grodex").as_str(), "sessions")
}

/// A journal that shows a conversation is never thrown away: where a line among
/// the first of them is such an event, the session is kept.
pub proof fn conversations_are_kept(lines: Seq<Option<Seq<char>>>, i: int, n: int)
    requires
        0 <= i < n,
        match lines[i] {
            None => true,
            Some(l) => trimmed(l).len() > 0 && (match json_parse_of(trimmed(l)) {
                Ok(v) => !is_boot_event(v),
                Err(_) => true,
            }),
        },
    ensures
        boot_scan(lines, n) is None,
    decreases n,
{
    if i == n - 1 {
    } else {
        conversations_are_kept(lines, i, n - 1);
    }
}

/// The event that begins a session says where it works and with which model.
pub proof fn beginnings_are_read(st: ScanView, v: JsonView, p: JsonView, t: Seq<char>)
    requires
        text_in(get(v, "event_type"@)) == Some("SessionStarted"@),
        get(v, "payload"@) == Some(p),
    ensures
        scan_event(st, v).meta matches Some(m) && {
            &&& text_in(get(p, "cwd"@)) == Some(t) ==> m.0 == t
            &&& text_in(get(p, "cwd"@)) is None ==> m.0.len() == 0
            &&& text_in(get(p, "model"@)) == Some(t) ==> m.1 == t
            &&& text_in(get(p, "model"@)) is None ==> m.1.len() == 0
            &&& text_in(get(p, "model_provider"@)) == Some(t) ==> m.2 == t
            &&& text_in(get(p, "model_provider"@)) is None ==> m.2.len() == 0
        },
        scan_event(st, v).first_user_text == st.first_user_text,
{
}

/// The first thing that a user said is kept, and nothing later takes its place.
pub proof fn the_first_question_is_kept(st: ScanView, v: JsonView, p: JsonView, kind: Seq<char>)
    requires
        text_in(get(v, "event_type"@)) == Some(kind),
        get(v, "payload"@) == Some(p),
    ensures
        kind == "UserInputAccepted"@ && st.first_user_text is None ==> scan_event(st, v).first_user_text
            == text_in(get(p, "text"@)),
        kind != "UserInputAccepted"@ || st.first_user_text is Some ==> scan_event(st, v).first_user_text
            == st.first_user_text,
        kind != "SessionStarted"@ ==> scan_event(st, v).meta == st.meta,
{
    reveal_strlit("UserInputAccepted");
    reveal_strlit("SessionStarted");
    assert("UserInputAccepted"@.len() == 17 && "SessionStarted"@.len() == 14);
}

/// A session was created when its first event with a time came. What a user, a
/// model or a tool did makes it more than a beginning.
pub proof fn events_make_a_session(st: ScanView, v: JsonView, kind: Seq<char>)
    requires
        text_in(get(v, "event_type"@)) == Some(kind),
    ensures
        st.created_at is Some ==> scan_event(st, v).created_at == st.created_at,
        st.created_at is None ==> scan_event(st, v).created_at == text_in(get(v, "timestamp"@)),
        scan_event(st, v).has_content <==> st.has_content || kind == "UserInputAccepted"@ || kind
            == "ModelItemProduced"@ || kind == "ToolExecutionStarted"@ || kind == "ToolResultCommitted"@,
{
}

/// Lines that are blank, broken or without a kind say nothing of a session. The
/// others are read one after the other, until what is looked for was found.
pub proof fn lines_are_read_one_by_one(
    lines: Seq<Option<Seq<char>>>,
    n: int,
    l: Seq<char>,
    v: JsonView,
)
    requires
        0 <= n < lines.len(),
    ensures
        scanned(lines, 0) == (ScanView {
            meta: None,
            created_at: None,
            first_user_text: None,
            has_content: false,
        }),
        ({
            let st = scanned(lines, n);
            let next = scanned(lines, n + 1);
            &&& st.meta is Some && st.first_user_text is Some ==> next == st
            &&& lines[n] is None ==> next == st
            &&& lines[n] == Some(l) && trimmed(l).len() == 0 ==> next == st
            &&& lines[n] == Some(l) && json_parse_of(trimmed(l)) is Err ==> next == st
            &&& (st.meta is None || st.first_user_text is None) && lines[n] == Some(l) && trimmed(l).len() > 0
                && json_parse_of(trimmed(l)) == Ok::<JsonView, Seq<char>>(v) ==> next == scan_event(st, v)
        }),
        text_in(get(v, "event_type"@)) is None ==> scan_event(scanned(lines, n), v) == scanned(lines, n),
{
}

/// Only the first six thousand lines of a journal are looked at.
pub proof fn long_journals_are_not_read_to_the_end(a: Seq<Option<Seq<char>>>, b: Seq<Option<Seq<char>>>)
    requires
        a.len() == 6000,
    ensures
        journal_head(a + b) == journal_head(a),
        journal_head(a) == scanned(a, 6000),
{
    lemma_scanned_prefix(a, b, 6000);
}

proof fn lemma_scanned_prefix(a: Seq<Option<Seq<char>>>, b: Seq<Option<Seq<char>>>, n: int)
    requires
        n <= a.len(),
    ensures
        scanned(a + b, n) == scanned(a, n),
    decreases n,
{
    if n > 0 {
        lemma_scanned_prefix(a, b, n - 1);
        assert((a + b)[n - 1] == a[n - 1]);
    }
}

/// A journal that is not too long is read to its end.
pub proof fn short_journals_are_read_whole(lines: Seq<Option<Seq<char>>>)
    requires
        lines.len() <= 6000,
    ensures
        journal_head(lines) == scanned(lines, lines.len() as int),
{
}

/// The title of a session is the first line of what the user said that is not
/// blank, as far as eighty characters go. Without one it is the beginning of the
/// identifier.
pub proof fn titles_are_first_lines(text: Seq<char>, id: Seq<char>, i: int)
    ensures
        ({
            let ls = lines_of(text);
            &&& 0 <= i < ls.len() && trimmed(ls[i]).len() > 0 && (forall|k: int|
                0 <= k < i ==> trimmed(#[trigger] ls[k]).len() == 0) ==> {
                &&& trimmed(ls[i]).len() <= 80 ==> title_of(text, id) == trimmed(ls[i])
                &&& trimmed(ls[i]).len() > 80 ==> title_of(text, id) == trimmed(ls[i]).take(80)
            }
            &&& (forall|k: int| 0 <= k < ls.len() ==> trimmed(#[trigger] ls[k]).len() == 0) && short_id_of(
                id,
            ) is Some ==> title_of(text, id) == "会话 "@ + short_id_of(id)->0
        }),
{
    lemma_first_line(lines_of(text), i);
}

proof fn lemma_first_line(ls: Seq<Seq<char>>, i: int)
    ensures
        0 <= i < ls.len() && trimmed(ls[i]).len() > 0 && (forall|k: int|
            0 <= k < i ==> trimmed(#[trigger] ls[k]).len() == 0) ==> first_line_of(ls) == Some(
            trimmed(ls[i]),
        ),
        (forall|k: int| 0 <= k < ls.len() ==> trimmed(#[trigger] ls[k]).len() == 0) ==> first_line_of(ls)
            is None,
    decreases ls.len(),
{
    if ls.len() > 0 {
        let rest = ls.skip(1);
        lemma_first_line(rest, i - 1);
        assert(forall|k: int| 0 <= k < rest.len() ==> rest[k] == ls[k + 1]);
        if 0 < i < ls.len() {
            assert(rest[i - 1] == ls[i]);
        }
    }
}

/// The beginning of an identifier is the identifier where it has no more than
/// eight bytes, and eight bytes of it otherwise.
pub proof fn short_identifiers_are_beginnings(id: Seq<char>)
    ensures
        byte_len(id) <= 8 ==> short_id_of(id) == Some(id),
        byte_len(id) > 8 && short_id_of(id) is Some ==> byte_len(short_id_of(id)->0) == 8
            && crate::text::has_prefix(id, short_id_of(id)->0),
{
    if byte_len(id) > 8 {
        lemma_byte_cut(id, 8);
    }
}

proof fn lemma_byte_cut(s: Seq<char>, n: int)
    requires
        n >= 0,
    ensures
        byte_cut(s, n) matches Some(t) ==> byte_len(t) == n && crate::text::has_prefix(s, t),
    decreases s.len(),
{
    if n == 0 {
        assert(s.take(0) =~= Seq::<char>::empty());
    } else if s.len() > 0 && char_bytes(s[0]) <= n {
        let m = n - char_bytes(s[0]);
        lemma_byte_cut(s.skip(1), m);
        if let Some(t) = byte_cut(s.skip(1), m) {
            let r = seq![s[0]] + t;
            assert(r.skip(1) =~= t);
            assert(s.take(r.len() as int) =~= r) by {
                assert forall|k: int| 0 <= k < r.len() implies s[k] == r[k] by {
                    if k > 0 {
                        assert(s.skip(1).take(t.len() as int)[k - 1] == s[k]);
                    }
                }
            }
        }
    }
}

/// A summary says of a session what its journal says.
pub proof fn summaries_say_what_journals_say(
    st: ScanView,
    id: Seq<char>,
    updated_at: Option<Seq<char>>,
    text: Seq<char>,
)
    ensures
        ({
            let s = summary_of(st, id, updated_at);
            &&& s.id == id
            &&& s.created_at == st.created_at
            &&& s.updated_at == updated_at
            &&& s.status == "completed"@
            &&& st.meta is None ==> s.workspace is None && s.model is None && s.provider is None
            &&& st.meta matches Some(m) ==> {
                &&& m.0.len() > 0 ==> s.workspace == Some(m.0)
                &&& m.0.len() == 0 ==> s.workspace is None
                &&& m.1.len() > 0 ==> s.model == Some(m.1)
                &&& m.1.len() == 0 ==> s.model is None
                &&& m.2.len() > 0 ==> s.provider == Some(m.2)
                &&& m.2.len() == 0 ==> s.provider is None
            }
            &&& st.first_user_text == Some(text) ==> s.title == title_of(text, id)
            &&& st.first_user_text == Some(text) && text.len() <= 180 ==> s.preview == text
            &&& st.first_user_text == Some(text) && text.len() > 180 ==> s.preview == text.take(180)
            &&& st.first_user_text is None ==> s.preview.len() == 0
        }),
{
}

/// A journal holds nothing but a beginning where each line is blank or an event
/// of the known kinds that no user, model or tool had a part in, and one of them
/// is such an event.
pub proof fn beginnings_are_recognized(lines: Seq<Option<Seq<char>>>, n: int, l: Seq<char>, v: JsonView)
    requires
        0 <= n < lines.len(),
    ensures
        boot_scan(lines, 0) == Some(false),
        ({
            let before = boot_scan(lines, n);
            let after = boot_scan(lines, n + 1);
            &&& before is None ==> after is None
            &&& lines[n] is None ==> after is None
            &&& lines[n] == Some(l) && trimmed(l).len() == 0 ==> after == before
            &&& lines[n] == Some(l) && trimmed(l).len() > 0 && json_parse_of(trimmed(l)) is Err
                ==> after is None
            &&& before is Some && lines[n] == Some(l) && trimmed(l).len() > 0 && json_parse_of(trimmed(l))
                == Ok::<JsonView, Seq<char>>(v) && is_boot_event(v) ==> after == Some(true)
        }),
{
}

/// What a user, a model or a tool did is no beginning.
pub proof fn conversations_are_no_beginnings(v: JsonView)
    ensures
        text_in(get(v, "event_type"@)) is None ==> !is_boot_event(v),
        text_in(get(v, "event_type"@)) == Some("UserInputAccepted"@) ==> !is_boot_event(v),
        text_in(get(v, "event_type"@)) == Some("ModelItemProduced"@) ==> !is_boot_event(v),
        text_in(get(v, "event_type"@)) == Some("ToolExecutionStarted"@) ==> !is_boot_event(v),
        text_in(get(v, "event_type"@)) == Some("ToolResultCommitted"@) ==> !is_boot_event(v),
{
}

/// An identifier is made of letters, digits and hyphens. No other leads
/// anywhere.
pub proof fn identifiers_lead_to_sessions(id: Seq<char>, root: Seq<char>, i: int)
    ensures
        ({
            let t = trimmed(id);
            &&& t.len() == 0 ==> session_path_of(id, root) is Err
            &&& 0 <= i < t.len() && !('a' <= t[i] <= 'z' || 'A' <= t[i] <= 'Z' || '0' <= t[i] <= '9' || t[i]
                == '-') ==> session_path_of(id, root) is Err
            &&& t.len() > 0 && (forall|k: int|
                0 <= k < t.len() ==> 'a' <= #[trigger] t[k] <= 'z' || 'A' <= t[k] <= 'Z' || '0' <= t[k]
                    <= '9' || t[k] == '-') ==> session_path_of(id, root) == Ok::<Seq<char>, Seq<char>>(
                joined_path(root, t),
            )
        }),
{
    let t = trimmed(id);
    if 0 <= i < t.len() && !is_id_char(t[i]) {
        assert(!is_id(t));
    }
}

/// The summary of a configuration takes the model from the home directory, and
/// the profile of the sandbox from the workspace before it.
pub proof fn configurations_are_summed_up(
    home: Option<TomlView>,
    workspace: Option<TomlView>,
    path: Seq<char>,
    h: TomlView,
    w: TomlView,
    hs: TomlView,
    ws: TomlView,
)
    ensures
        ({
            let s = config_summary_of(home, workspace, path);
            &&& s.config_path == Some(path)
            &&& s.wire_protocol == "acp_stdio"@
            &&& home is None ==> s.provider is None && s.model is None
            &&& home == Some(h) ==> {
                &&& s.provider == crate::toml_value::text_in(crate::toml_value::get(h, "provider"@))
                &&& crate::toml_value::text_in(crate::toml_value::get(h, "model_id"@)) is Some ==> s.model
                    == crate::toml_value::text_in(crate::toml_value::get(h, "model_id"@))
                &&& crate::toml_value::text_in(crate::toml_value::get(h, "model_id"@)) is None ==> s.model
                    == crate::toml_value::text_in(crate::toml_value::get(h, "model"@))
            }
            &&& workspace == Some(w) && crate::toml_value::get(w, "sandbox"@) == Some(ws)
                && crate::toml_value::text_in(crate::toml_value::get(ws, "profile"@)) is Some
                ==> s.sandbox_profile == crate::toml_value::text_in(crate::toml_value::get(ws, "profile"@))
            &&& (workspace is None || (workspace == Some(w) && crate::toml_value::get(w, "sandbox"@) is None))
                && home == Some(h) && crate::toml_value::get(h, "sandbox"@) == Some(hs) ==> s.sandbox_profile
                == crate::toml_value::text_in(crate::toml_value::get(hs, "profile"@))
        }),
{
}

/// A journal without anything said, done or answered is no session, and one that
/// nothing can be called by has no title. Every other is shown with its summary
/// and the time of its last change.
pub proof fn journals_are_shown_as_sessions(
    st: ScanView,
    id: Seq<char>,
    modified: Option<(String, u64)>,
    r: JournalSummary,
)
    requires
        is_summary(st, id, modified, r),
    ensures
        r is Session ==> st.has_content,
        st.has_content && short_id_of(id) is Some ==> r is Session,
        !st.has_content && short_id_of(id) is Some ==> r is Empty,
        r matches JournalSummary::Session(s) ==> {
            &&& s.summary@.id == id
            &&& modified matches Some(m) ==> s.updated_ms == m.1 && s.summary@.updated_at == Some(m.0@)
            &&& modified is None ==> s.updated_ms == 0 && s.summary@.updated_at is None
            &&& s.summary@ == summary_of(st, id, s.summary@.updated_at)
        },
{
}

/// A configuration that is missing or broken says nothing.
pub proof fn broken_configurations_say_nothing(text: Seq<char>, v: TomlView)
    ensures
        parsed(None) is None,
        toml_parse_of(text) is Err ==> parsed(Some(text)) is None,
        toml_parse_of(text) == Ok::<TomlView, Seq<char>>(v) ==> parsed(Some(text)) == Some(v),
{
}

/// A session stands behind all that changed later or at the same time and came
/// before it, and before all that changed earlier.
pub proof fn sessions_stand_behind_later_ones(s: Seq<RawSession>, x: RawSession) -> (k: int)
    ensures
        0 <= k <= by_recency(s).len(),
        by_recency(s.push(x)) == by_recency(s).insert(k, x),
        forall|i: int| 0 <= i < k ==> (#[trigger] by_recency(s)[i]).updated_ms >= x.updated_ms,
        forall|i: int|
            k <= i < by_recency(s).len() ==> (#[trigger] by_recency(s)[i]).updated_ms < x.updated_ms,
{
    let below = by_recency(s);
    let k = recency_slot(below, x.updated_ms, 0);
    assert(s.push(x).drop_last() =~= s);
    lemma_slot(below, x.updated_ms, 0);
    the_list_is_complete_and_in_order(s);
    assert forall|i: int| k <= i < below.len() implies (#[trigger] below[i]).updated_ms < x.updated_ms by {
        if i > k {
            assert(below[k].updated_ms >= below[i].updated_ms);
        }
    }
    k
}

} // verus!
