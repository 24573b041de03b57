//! What is shown of an old session when it is replayed or resumed.

use vstd::prelude::*;
use vstd::string::*;

use crate::domain::id::{uuid_parse_of, SessionId};
use crate::text::{contains_text, decimal, decimal_string, lemma_views_push, owned, views};

verus! {

/// An item of the context of a session.
#[derive(Debug)]
pub enum ContextItem {
    User { content: String },
    Assistant { content: String },
    ToolCall { name: String, arguments: String },
    ToolResult { content: String, is_error: bool },
    CompactionSummary { window_number: u64 },
    /// Any other item, by its debug notation.
    Other { text: String },
}

/// The line for an item.
pub open spec fn replay_line_of(i: ContextItem) -> Seq<char> {
    match i {
        ContextItem::User { content } => "\nYou: "@ + content@,
        ContextItem::Assistant { content } => "Grodex: "@ + content@,
        ContextItem::ToolCall { name, arguments } => "  [Tool: "@ + name@ + "("@ + arguments@
            + ")]"@,
        ContextItem::ToolResult { content, is_error } => "  ["@ + (if is_error {
            "Error"@
        } else {
            "Result"@
        }) + ": "@ + content@ + "]"@,
        ContextItem::CompactionSummary { window_number } => "  [Compaction #"@ + decimal(
            window_number as nat,
        ) + "]"@,
        ContextItem::Other { text } => "  ["@ + text@ + "]"@,
    }
}

/// The line for an item of the context.
pub fn replay_line(i: &ContextItem) -> (r: String)
    ensures
        r@ == replay_line_of(*i),
{
    match i {
        ContextItem::User { content } => {
            let mut s = owned("\nYou: ");
            s.append(content.as_str());
            s
        },
        ContextItem::Assistant { content } => {
            let mut s = owned("Grodex: ");
            s.append(content.as_str());
            s
        },
        ContextItem::ToolCall { name, arguments } => {
            let mut s = owned("  [Tool: ");
            s.append(name.as_str());
            s.append("(");
            s.append(arguments.as_str());
            s.append(")]");
            s
        },
        ContextItem::ToolResult { content, is_error } => {
            let mut s = owned("  [");
            s.append(
                if *is_error {
                    "Error"
                } else {
                    "Result"
                },
            );
            s.append(": ");
            s.append(content.as_str());
            s.append("]");
            s
        },
        ContextItem::CompactionSummary { window_number } => {
            let mut s = owned("  [Compaction #");
            s.append(decimal_string(*window_number).as_str());
            s.append("]");
            s
        },
        ContextItem::Other { text } => {
            let mut s = owned("  [");
            s.append(text.as_str());
            s.append("]");
            s
        },
    }
}

/// The lines for a replay: the numbers of events and of items, and the items.
pub fn replay_report(events: u64, items: &Vec<ContextItem>) -> (r: Vec<String>)
    ensures
        views(r@) == seq![
            "Events:  "@ + decimal(events as nat),
            "Context items: "@ + decimal(items@.len()),
        ] + items@.map_values(|i: ContextItem| replay_line_of(i)) + seq![
            "\n═══ Replay complete ═══"@,
        ],
{
    let mut a = owned("Events:  ");
    a.append(decimal_string(events).as_str());
    let mut b = owned("Context items: ");
    b.append(decimal_string(items.len() as u64).as_str());
    let ghost head = seq![a@, b@];
    let ghost all = items@.map_values(|i: ContextItem| replay_line_of(i));
    let mut out: Vec<String> = Vec::new();
    out.push(a);
    out.push(b);
    let mut i: usize = 0;
    assert(views(out@) =~= head + all.take(0));
    while i < items.len()
        invariant
            i <= items@.len(),
            all == items@.map_values(|i: ContextItem| replay_line_of(i)),
            views(out@) == head + all.take(i as int),
        decreases items@.len() - i,
    {
        let s = replay_line(&items[i]);
        proof {
            lemma_views_push(out@, s);
            assert(s@ == all[i as int]);
            assert(head + all.take(i as int + 1) =~= (head + all.take(i as int)).push(s@));
        }
        out.push(s);
        i = i + 1;
    }
    assert(all.take(all.len() as int) =~= all);
    out.push(owned("\n═══ Replay complete ═══"));
    assert(views(out@) =~= head + all + seq!["\n═══ Replay complete ═══"@]);
    out
}

/// Reads the identifier of the session that the user names. The error is the
/// message for the user.
pub fn named_session(text: &str) -> (r: Result<SessionId, String>)
    ensures
        match uuid_parse_of(text@) {
            Some(n) => r matches Ok(s) && s.value() == n,
            None => r matches Err(m) && m@ == "Invalid session id: "@ + text@,
        },
{
    match SessionId::from_string(text) {
        Ok(s) => Ok(s),
        Err(_) => {
            let mut m = owned("Invalid session id: ");
            m.append(text);
            Err(m)
        },
    }
}

/// What comes of reading the journal of a session that is to go on.
#[derive(Debug)]
pub enum ResumeReport {
    /// It cannot be read: the message for the user.
    Failed(String),
    /// It is empty, and nothing is resumed: the message for the user.
    Empty(String),
    /// The session goes on: the message for the user.
    Resumed(String),
}

/// What comes of reading a journal; `read` holds the number of events and of
/// context items, or the error.
pub fn resume_report(read: Result<(u64, u64), String>) -> (r: ResumeReport)
    ensures
        match read {
            Err(e) => r matches ResumeReport::Failed(m) && m@ == "Cannot replay: "@ + e@,
            Ok((events, items)) => if events == 0 {
                r matches ResumeReport::Empty(m) && m@
                    == "No events found. Starting fresh session."@
            } else {
                r matches ResumeReport::Resumed(m) && m@ == "Resumed session with "@ + decimal(
                    items as nat,
                ) + " context items."@
            },
        },
{
    match read {
        Err(e) => {
            let mut m = owned("Cannot replay: ");
            m.append(e.as_str());
            ResumeReport::Failed(m)
        },
        Ok((events, items)) => {
            if events == 0 {
                ResumeReport::Empty(owned("No events found. Starting fresh session."))
            } else {
                let mut m = owned("Resumed session with ");
                m.append(decimal_string(items).as_str());
                m.append(" context items.");
                ResumeReport::Resumed(m)
            }
        },
    }
}

/// A message is shown whole, behind the name of who said it.
pub proof fn messages_are_shown_whole(content: String)
    ensures
        replay_line_of(ContextItem::User { content }) == "\nYou: "@ + content@,
        replay_line_of(ContextItem::Assistant { content }) == "Grodex: "@ + content@,
{
}

/// A call is shown with its name and its arguments.
pub proof fn calls_are_shown_whole(name: String, arguments: String)
    ensures
        contains_text(
            replay_line_of(ContextItem::ToolCall { name, arguments }),
            name@ + "("@ + arguments@ + ")"@,
        ),
{
    lemma_call_line(name, arguments);
    crate::text::parts_stand_in_the_whole("  [Tool: "@, name@ + "("@ + arguments@ + ")"@, "]"@);
}

proof fn lemma_call_line(name: String, arguments: String)
    ensures
        replay_line_of(ContextItem::ToolCall { name, arguments }) == "  [Tool: "@ + (name@ + "("@
            + arguments@ + ")"@) + "]"@,
{
    assert(")]"@ =~= ")"@ + "]"@) by {
        reveal_strlit(")]");
        reveal_strlit(")");
        reveal_strlit("]");
    }
    assert(replay_line_of(ContextItem::ToolCall { name, arguments }) =~= "  [Tool: "@ + (name@ + "("@
        + arguments@ + ")"@) + "]"@);
}

/// A result is shown whole, and an error is called one.
pub proof fn results_are_shown_whole(content: String)
    ensures
        contains_text(
            replay_line_of(ContextItem::ToolResult { content, is_error: true }),
            "Error"@ + ": "@ + content@,
        ),
        contains_text(
            replay_line_of(ContextItem::ToolResult { content, is_error: false }),
            "Result"@ + ": "@ + content@,
        ),
{
    lemma_result_line(content, "Error"@);
    lemma_result_line(content, "Result"@);
    crate::text::parts_stand_in_the_whole("  ["@, "Error"@ + ": "@ + content@, "]"@);
    crate::text::parts_stand_in_the_whole("  ["@, "Result"@ + ": "@ + content@, "]"@);
}

proof fn lemma_result_line(content: String, word: Seq<char>)
    ensures
        "  ["@ + word + ": "@ + content@ + "]"@ == "  ["@ + (word + ": "@ + content@) + "]"@,
{
    assert("  ["@ + word + ": "@ + content@ + "]"@ =~= "  ["@ + (word + ": "@ + content@) + "]"@);
}

/// A summary is shown by the number of its window, and anything else whole.
pub proof fn other_items_are_shown(window_number: u64, text: String)
    ensures
        contains_text(
            replay_line_of(ContextItem::CompactionSummary { window_number }),
            decimal(window_number as nat),
        ),
        contains_text(replay_line_of(ContextItem::Other { text }), text@),
{
    crate::text::parts_stand_in_the_whole("  [Compaction #"@, decimal(window_number as nat), "]"@);
    crate::text::parts_stand_in_the_whole("  ["@, text@, "]"@);
}

} // verus!
