//! Saving permissions: the section `[rules]` of a configuration file is
//! replaced, and the rest of the file stays as it is.

use vstd::prelude::*;
use vstd::string::*;

use crate::session::redact::{replace_all, replaced};
use crate::strmap::StrMap;
use crate::text::{
    add_sorted, are_raw_lines, chars_of, concat, in_text_order, is_ended_line, lemma_concat_ended,
    lemma_concat_join, lemma_trimmed_line, owned, push_char, raw_lines, raw_lines_join_back, raw_lines_of,
    raw_lines_of_concat, raw_lines_of_joined_texts, same, trim, trimmed, views,
};

verus! {

/// The lines of the section for some tools.
pub open spec fn rule_lines(keys: Seq<Seq<char>>, m: Map<Seq<char>, String>) -> Seq<char>
    decreases keys.len(),
{
    if keys.len() == 0 {
        Seq::empty()
    } else {
        rule_lines(keys.drop_last(), m) + rule_line(keys.last(), m[keys.last()]@)
    }
}

/// The line for a tool. Quotes in the decision are escaped.
pub open spec fn rule_line(tool: Seq<char>, decision: Seq<char>) -> Seq<char> {
    tool + " = \""@ + replaced(decision, "\""@, "\\\""@) + "\"\n"@
}

/// The section for the given tools, in their order.
pub open spec fn rules_text(keys: Seq<Seq<char>>, m: Map<Seq<char>, String>) -> Seq<char> {
    "[rules]\n"@ + rule_lines(keys, m)
}

/// Whether a list is the keys of a map in order.
pub open spec fn is_key_list(keys: Seq<Seq<char>>, m: Map<Seq<char>, String>) -> bool {
    &&& in_text_order(keys)
    &&& forall|k: Seq<char>| #[trigger] keys.contains(k) <==> m.dom().contains(k)
}

fn sorted_keys(permissions: &StrMap<String>) -> (r: Vec<String>)
    requires
        permissions.wf(),
    ensures
        is_key_list(views(r@), permissions@),
{
    let keys = permissions.key_list();
    let ghost ks = views(keys@);
    let mut out: Vec<String> = Vec::new();
    let mut i: usize = 0;
    assert(views(out@) =~= Seq::empty());
    while i < keys.len()
        invariant
            i <= keys@.len(),
            ks == views(keys@),
            in_text_order(views(out@)),
            forall|k: Seq<char>| #[trigger]
                views(out@).contains(k) <==> ks.take(i as int).contains(k),
        decreases keys@.len() - i,
    {
        let ghost before = views(out@);
        add_sorted(&mut out, keys[i].clone());
        proof {
            let now = ks.take(i as int + 1);
            let was = ks.take(i as int);
            assert forall|k: Seq<char>| #[trigger] views(out@).contains(k) <==> now.contains(k) by {
                assert(views(out@).contains(k) <==> (k == ks[i as int] || before.contains(k)));
                if k == ks[i as int] {
                    assert(now[i as int] == k);
                }
                if was.contains(k) {
                    let j = choose|j: int| 0 <= j < was.len() && was[j] == k;
                    assert(now[j] == k);
                }
                if now.contains(k) {
                    let j = choose|j: int| 0 <= j < now.len() && now[j] == k;
                    if j < i {
                        assert(was[j] == k);
                    }
                }
            }
        }
        i = i + 1;
    }
    proof {
        assert(ks.take(ks.len() as int) =~= ks);
        permissions.order_is_domain();
    }
    out
}

/// The section for the permissions, with the tools in order.
pub fn rules_section(permissions: &StrMap<String>) -> (r: String)
    requires
        permissions.wf(),
    ensures
        exists|keys: Seq<Seq<char>>|
            #![trigger rules_text(keys, permissions@)]
            is_key_list(keys, permissions@) && r@ == rules_text(keys, permissions@),
{
    let keys = sorted_keys(permissions);
    let ghost ks = views(keys@);
    let mut out = owned("[rules]\n");
    let mut i: usize = 0;
    assert(out@ =~= rules_text(ks.take(0), permissions@));
    while i < keys.len()
        invariant
            i <= keys@.len(),
            ks == views(keys@),
            permissions.wf(),
            is_key_list(ks, permissions@),
            out@ == rules_text(ks.take(i as int), permissions@),
        decreases keys@.len() - i,
    {
        proof {
            assert(ks[i as int] == keys@[i as int]@);
            assert(ks.contains(ks[i as int]));
            assert(ks.take(i as int + 1).drop_last() =~= ks.take(i as int));
            assert(ks.take(i as int + 1).last() == ks[i as int]);
        }
        if let Some(v) = permissions.get(keys[i].as_str()) {
            let escaped = replace_all(v.as_str(), "\"", "\\\"");
            out.append(keys[i].as_str());
            out.append(" = \"");
            out.append(escaped.as_str());
            out.append("\"\n");
        }
        assert(out@ =~= rules_text(ks.take(i as int + 1), permissions@));
        i = i + 1;
    }
    assert(ks.take(ks.len() as int) =~= ks);
    out
}

/// Whether a line is the header of the section.
pub open spec fn is_rules_header(line: Seq<char>) -> bool {
    trimmed(line) == "[rules]"@
}

/// Whether a line is the header of another section: it starts with a bracket,
/// without any space before it.
pub open spec fn is_other_header(line: Seq<char>) -> bool {
    line.len() > 0 && line[0] == '[' && !is_rules_header(line)
}

/// The first line at or after `from` that is the header of the section, or
/// the number of lines.
pub open spec fn rules_start(ls: Seq<Seq<char>>, from: int) -> int
    decreases ls.len() - from,
{
    if from < 0 || from >= ls.len() {
        ls.len() as int
    } else if is_rules_header(ls[from]) {
        from
    } else {
        rules_start(ls, from + 1)
    }
}

/// The first line at or after `from` that is the header of another section, or
/// the number of lines.
pub open spec fn section_end(ls: Seq<Seq<char>>, from: int) -> int
    decreases ls.len() - from,
{
    if from < 0 || from >= ls.len() {
        ls.len() as int
    } else if is_other_header(ls[from]) {
        from
    } else {
        section_end(ls, from + 1)
    }
}

/// A text with its last line ended.
pub open spec fn ended(s: Seq<char>) -> Seq<char> {
    if s.len() > 0 && s.last() != '\n' {
        s.push('\n')
    } else {
        s
    }
}

/// A text with its section `[rules]` replaced, or with the section behind an
/// empty line at its end, where it has none. All the rest stands as it stood,
/// the ends of the lines too.
pub open spec fn with_rules(content: Seq<char>, section: Seq<char>) -> Seq<char> {
    let ls = raw_lines_of(content);
    let start = rules_start(ls, 0);
    if start < ls.len() {
        concat(ls.take(start)) + section + concat(ls.skip(section_end(ls, start + 1)))
    } else if content.len() == 0 {
        section
    } else {
        ended(content).push('\n') + section
    }
}

fn is_header(line: &String) -> (r: bool)
    ensures
        r == is_other_header(line@),
{
    let chars = chars_of(line.as_str());
    chars.len() > 0 && chars[0] == '[' && !same(trim(line.as_str()).as_str(), "[rules]")
}

fn find_rules(ls: &Vec<String>) -> (r: usize)
    ensures
        r == rules_start(views(ls@), 0),
        r <= ls@.len(),
{
    let ghost vs = views(ls@);
    let mut i: usize = 0;
    while i < ls.len()
        invariant
            i <= ls@.len(),
            vs == views(ls@),
            rules_start(vs, 0) == rules_start(vs, i as int),
        decreases ls@.len() - i,
    {
        assert(vs[i as int] == ls@[i as int]@);
        if same(trim(ls[i].as_str()).as_str(), "[rules]") {
            return i;
        }
        i = i + 1;
    }
    i
}

fn find_end(ls: &Vec<String>, from: usize) -> (r: usize)
    requires
        from <= ls@.len(),
    ensures
        r == section_end(views(ls@), from as int),
        r <= ls@.len(),
{
    let ghost vs = views(ls@);
    let mut i: usize = from;
    while i < ls.len()
        invariant
            from <= i <= ls@.len(),
            vs == views(ls@),
            section_end(vs, from as int) == section_end(vs, i as int),
        decreases ls@.len() - i,
    {
        assert(vs[i as int] == ls@[i as int]@);
        if is_header(&ls[i]) {
            return i;
        }
        i = i + 1;
    }
    i
}

fn add_lines(out: &mut String, ls: &Vec<String>, from: usize, to: usize)
    requires
        from <= to <= ls@.len(),
    ensures
        final(out)@ == old(out)@ + concat(views(ls@).subrange(from as int, to as int)),
{
    let ghost before = out@;
    let ghost vs = views(ls@);
    let mut i: usize = from;
    assert(vs.subrange(from as int, from as int) =~= Seq::empty());
    assert(out@ =~= before + concat(vs.subrange(from as int, from as int)));
    while i < to
        invariant
            from <= i <= to <= ls@.len(),
            vs == views(ls@),
            out@ == before + concat(vs.subrange(from as int, i as int)),
        decreases to - i,
    {
        proof {
            let now = vs.subrange(from as int, i as int + 1);
            assert(now.drop_last() =~= vs.subrange(from as int, i as int));
            assert(now.last() == ls@[i as int]@);
        }
        out.append(ls[i].as_str());
        assert(out@ =~= before + concat(vs.subrange(from as int, i as int + 1)));
        i = i + 1;
    }
}

/// Replaces the section `[rules]` of a text.
pub fn replace_rules_section(content: &str, new_section: &str) -> (r: String)
    ensures
        r@ == with_rules(content@, new_section@),
{
    let ls = raw_lines(content);
    let ghost vs = views(ls@);
    let start: usize = find_rules(&ls);
    if start < ls.len() {
        let end: usize = find_end(&ls, start + 1);
        let mut out = String::new();
        assert(out@ =~= Seq::empty());
        add_lines(&mut out, &ls, 0, start);
        out.append(new_section);
        add_lines(&mut out, &ls, end, ls.len());
        proof {
            assert(vs.subrange(0, start as int) =~= vs.take(start as int));
            assert(vs.subrange(end as int, vs.len() as int) =~= vs.skip(end as int));
            assert(out@ =~= with_rules(content@, new_section@));
        }
        out
    } else {
        let chars = chars_of(content);
        if chars.len() == 0 {
            owned(new_section)
        } else {
            let mut out = owned(content);
            if chars[chars.len() - 1] != '\n' {
                push_char(&mut out, '\n');
            }
            push_char(&mut out, '\n');
            out.append(new_section);
            out
        }
    }
}

proof fn lemma_start(ls: Seq<Seq<char>>, from: int)
    requires
        0 <= from <= ls.len(),
    ensures
        from <= rules_start(ls, from) <= ls.len(),
        rules_start(ls, from) < ls.len() ==> is_rules_header(ls[rules_start(ls, from)]),
        forall|k: int| from <= k < rules_start(ls, from) ==> !is_rules_header(#[trigger] ls[k]),
    decreases ls.len() - from,
{
    if from < ls.len() && !is_rules_header(ls[from]) {
        lemma_start(ls, from + 1);
    }
}

proof fn lemma_start_is(ls: Seq<Seq<char>>, from: int, at: int)
    requires
        0 <= from <= at < ls.len(),
        is_rules_header(ls[at]),
        forall|k: int| from <= k < at ==> !is_rules_header(#[trigger] ls[k]),
    ensures
        rules_start(ls, from) == at,
    decreases at - from,
{
    if from < at {
        assert(!is_rules_header(ls[from]));
        lemma_start_is(ls, from + 1, at);
    }
}

proof fn lemma_end(ls: Seq<Seq<char>>, from: int)
    requires
        0 <= from <= ls.len(),
    ensures
        from <= section_end(ls, from) <= ls.len(),
        section_end(ls, from) < ls.len() ==> is_other_header(ls[section_end(ls, from)]),
    decreases ls.len() - from,
{
    if from < ls.len() && !is_other_header(ls[from]) {
        lemma_end(ls, from + 1);
    }
}

proof fn lemma_end_is(ls: Seq<Seq<char>>, from: int, at: int)
    requires
        0 <= from <= at <= ls.len(),
        at < ls.len() ==> is_other_header(ls[at]),
        forall|k: int| from <= k < at ==> !is_other_header(#[trigger] ls[k]),
    ensures
        section_end(ls, from) == at,
    decreases at - from,
{
    if from < at {
        assert(!is_other_header(ls[from]));
        lemma_end_is(ls, from + 1, at);
    }
}

/// Whether a text is a section `[rules]`: its first line is the header, no
/// other line is the header of another section, and its last line is ended.
pub open spec fn is_section(section: Seq<char>) -> bool {
    let ls = raw_lines_of(section);
    &&& section.len() > 0
    &&& section.last() == '\n'
    &&& ls.len() > 0
    &&& is_rules_header(ls[0])
    &&& forall|i: int| 1 <= i < ls.len() ==> !is_other_header(#[trigger] ls[i])
}

/// The lines before and after the section.
proof fn lemma_parts(content: Seq<char>)
    requires
        rules_start(raw_lines_of(content), 0) < raw_lines_of(content).len(),
    ensures
        ({
            let ls = raw_lines_of(content);
            let s = rules_start(ls, 0);
            let e = section_end(ls, s + 1);
            &&& 0 <= s < e <= ls.len()
            &&& concat(ls.take(s)).len() > 0 ==> concat(ls.take(s)).last() == '\n'
            &&& raw_lines_of(concat(ls.take(s))) == ls.take(s)
            &&& raw_lines_of(concat(ls.skip(e))) == ls.skip(e)
            &&& content == concat(ls.take(s)) + concat(ls.subrange(s, e)) + concat(ls.skip(e))
        }),
{
    let ls = raw_lines_of(content);
    let s = rules_start(ls, 0);
    let e = section_end(ls, s + 1);
    lemma_start(ls, 0);
    lemma_end(ls, s + 1);
    raw_lines_join_back(content);
    let a = ls.take(s);
    let m = ls.subrange(s, e);
    let b = ls.skip(e);
    assert forall|i: int| 0 <= i < a.len() implies is_ended_line(#[trigger] a[i]) by {
        assert(is_ended_line(ls[i]));
    }
    assert(are_raw_lines(a)) by {
        if a.len() > 0 {
            assert(is_ended_line(a[a.len() - 1]));
        }
    }
    lemma_concat_ended(a);
    raw_lines_of_concat(a);
    assert(are_raw_lines(b)) by {
        assert forall|i: int| 0 <= i < b.len() - 1 implies is_ended_line(#[trigger] b[i]) by {
            assert(is_ended_line(ls[i + e]));
        }
        if b.len() > 0 {
            assert(b.last() == ls.last());
        }
    }
    raw_lines_of_concat(b);
    assert(ls =~= a + m + b);
    lemma_concat_join(a, m);
    lemma_concat_join(a + m, b);
}

/// Everything outside the section is kept as it stood: the text before it and
/// the text behind it, to the last character.
pub proof fn other_text_is_kept(content: Seq<char>, section: Seq<char>)
    requires
        rules_start(raw_lines_of(content), 0) < raw_lines_of(content).len(),
    ensures
        ({
            let ls = raw_lines_of(content);
            let s = rules_start(ls, 0);
            let e = section_end(ls, s + 1);
            let before = concat(ls.take(s));
            let after = concat(ls.skip(e));
            &&& content == before + concat(ls.subrange(s, e)) + after
            &&& with_rules(content, section) == before + section + after
        }),
{
    lemma_parts(content);
}

/// Every line outside the section is kept, in its place.
pub proof fn other_lines_are_kept(content: Seq<char>, section: Seq<char>)
    requires
        is_section(section),
        rules_start(raw_lines_of(content), 0) < raw_lines_of(content).len(),
    ensures
        ({
            let ls = raw_lines_of(content);
            let s = rules_start(ls, 0);
            let e = section_end(ls, s + 1);
            raw_lines_of(with_rules(content, section)) == ls.take(s) + raw_lines_of(section)
                + ls.skip(e)
        }),
{
    let ls = raw_lines_of(content);
    let s = rules_start(ls, 0);
    let e = section_end(ls, s + 1);
    lemma_parts(content);
    let a = concat(ls.take(s));
    let b = concat(ls.skip(e));
    raw_lines_of_joined_texts(a, section);
    assert((a + section).last() == '\n');
    raw_lines_of_joined_texts(a + section, b);
}

/// A text without the section stays as it is, but for the end of its last
/// line, and gets an empty line and the section.
pub proof fn missing_sections_are_appended(content: Seq<char>, section: Seq<char>)
    requires
        is_section(section),
        content.len() > 0,
        rules_start(raw_lines_of(content), 0) == raw_lines_of(content).len(),
    ensures
        with_rules(content, section) == ended(content).push('\n') + section,
        raw_lines_of(with_rules(content, section)) == raw_lines_of(ended(content)).push(
            seq!['\n'],
        ) + raw_lines_of(section),
        forall|k: int|
            0 <= k < raw_lines_of(ended(content)).len() ==> !is_rules_header(
                #[trigger] raw_lines_of(ended(content))[k],
            ),
{
    let c = ended(content);
    let feed = seq!['\n'];
    raw_lines_of_joined_texts(c, feed);
    assert(c + feed =~= c.push('\n'));
    lemma_line_feed();
    raw_lines_of_joined_texts(c.push('\n'), section);
    assert(raw_lines_of(c) + seq![feed] =~= raw_lines_of(c).push(feed));
    let ls = raw_lines_of(content);
    lemma_start(ls, 0);
    if content.last() != '\n' {
        lemma_ended(content);
        let es = raw_lines_of(c);
        assert forall|k: int| 0 <= k < es.len() implies !is_rules_header(#[trigger] es[k]) by {
            assert(!is_rules_header(ls[k]));
            if k == ls.len() - 1 {
                lemma_trimmed_line(ls[k]);
            } else {
                assert(es[k] == ls[k]);
            }
        }
    }
}

proof fn lemma_line_feed()
    ensures
        raw_lines_of(seq!['\n']) == seq![seq!['\n']],
        !is_rules_header(seq!['\n']),
{
    let feed = seq!['\n'];
    assert(seq![feed].drop_last() =~= Seq::<Seq<char>>::empty());
    assert(concat(Seq::<Seq<char>>::empty()) =~= Seq::<char>::empty());
    assert(concat(seq![feed]) =~= feed);
    raw_lines_of_concat(seq![feed]);
    lemma_empty_is_no_header();
    lemma_trimmed_line(Seq::empty());
    assert(Seq::<char>::empty().push('\n') =~= feed);
}

/// To end the last line changes that line only.
proof fn lemma_ended(content: Seq<char>)
    requires
        content.len() > 0,
        content.last() != '\n',
    ensures
        ({
            let ls = raw_lines_of(content);
            &&& ls.len() > 0
            &&& raw_lines_of(content.push('\n')) == ls.drop_last().push(ls.last().push('\n'))
        }),
{
    let ls = raw_lines_of(content);
    raw_lines_join_back(content);
    let below = ls.drop_last();
    let last = ls.last();
    assert(content == concat(below) + last);
    assert(last.last() == content.last());
    assert(!last.contains('\n'));
    let line = last.push('\n');
    assert(is_ended_line(line)) by {
        assert forall|k: int| 0 <= k < line.len() - 1 implies line[k] != '\n' by {
            assert(line[k] == last[k]);
            assert(last.contains(last[k]));
        }
    }
    let es = below.push(line);
    assert(are_raw_lines(es)) by {
        assert forall|i: int| 0 <= i < es.len() - 1 implies is_ended_line(#[trigger] es[i]) by {
            assert(es[i] == ls[i]);
        }
    }
    assert(es.drop_last() =~= below);
    assert(concat(es) =~= content.push('\n'));
    raw_lines_of_concat(es);
}

/// After a section was saved, it stands in the file: the lines from its header
/// to the next one are its lines.
pub proof fn saved_sections_read_back(content: Seq<char>, section: Seq<char>)
    requires
        is_section(section),
    ensures
        ({
            let ls = raw_lines_of(with_rules(content, section));
            let s = rules_start(ls, 0);
            &&& s < ls.len()
            &&& ls.subrange(s, section_end(ls, s + 1)) == raw_lines_of(section)
            &&& concat(ls.subrange(s, section_end(ls, s + 1))) == section
        }),
{
    let ls = raw_lines_of(content);
    let sec = raw_lines_of(section);
    let s = rules_start(ls, 0);
    lemma_start(ls, 0);
    raw_lines_join_back(section);
    let r = raw_lines_of(with_rules(content, section));
    if s < ls.len() {
        let e = section_end(ls, s + 1);
        lemma_end(ls, s + 1);
        other_lines_are_kept(content, section);
        lemma_places(ls.take(s), sec, ls.skip(e));
        assert(r.subrange(s, s + sec.len()) =~= sec);
    } else {
        let a = lines_before_appended(content);
        lemma_appended(content, section);
        lemma_places(a, sec, Seq::empty());
        assert(r =~= a + sec + Seq::empty());
        assert(r.subrange(a.len() as int, (a.len() + sec.len()) as int) =~= sec);
    }
}

/// The lines before a section that is appended.
spec fn lines_before_appended(content: Seq<char>) -> Seq<Seq<char>> {
    if content.len() == 0 {
        Seq::empty()
    } else {
        raw_lines_of(ended(content)).push(seq!['\n'])
    }
}

proof fn lemma_appended(content: Seq<char>, section: Seq<char>)
    requires
        is_section(section),
        rules_start(raw_lines_of(content), 0) == raw_lines_of(content).len(),
    ensures
        ({
            let a = lines_before_appended(content);
            &&& raw_lines_of(with_rules(content, section)) == a + raw_lines_of(section)
            &&& with_rules(content, section) == concat(a) + section
            &&& forall|k: int| 0 <= k < a.len() ==> !is_rules_header(#[trigger] a[k])
        }),
{
    let a = lines_before_appended(content);
    if content.len() == 0 {
        assert(a + raw_lines_of(section) =~= raw_lines_of(section));
        assert(concat(a) + section =~= section);
    } else {
        missing_sections_are_appended(content, section);
        lemma_line_feed();
        raw_lines_join_back(ended(content));
        assert(a.drop_last() =~= raw_lines_of(ended(content)));
        assert(concat(a) =~= ended(content).push('\n'));
        assert forall|k: int| 0 <= k < a.len() implies !is_rules_header(#[trigger] a[k]) by {
            if k < a.len() - 1 {
                assert(a[k] == raw_lines_of(ended(content))[k]);
            }
        }
    }
}

proof fn lemma_empty_is_no_header()
    ensures
        !is_rules_header(Seq::empty()),
{
    reveal_strlit("[rules]");
    assert(trimmed(Seq::empty()).len() == 0);
}

/// Where the section stands between other lines.
proof fn lemma_places(a: Seq<Seq<char>>, sec: Seq<Seq<char>>, b: Seq<Seq<char>>)
    requires
        sec.len() > 0,
        is_rules_header(sec[0]),
        forall|i: int| 1 <= i < sec.len() ==> !is_other_header(#[trigger] sec[i]),
        forall|k: int| 0 <= k < a.len() ==> !is_rules_header(#[trigger] a[k]),
        b.len() > 0 ==> is_other_header(b[0]),
    ensures
        rules_start(a + sec + b, 0) == a.len(),
        section_end(a + sec + b, a.len() as int + 1) == a.len() + sec.len(),
{
    let ls = a + sec + b;
    assert(ls[a.len() as int] == sec[0]);
    assert forall|k: int| 0 <= k < a.len() implies !is_rules_header(#[trigger] ls[k]) by {
        assert(ls[k] == a[k]);
    }
    lemma_start_is(ls, 0, a.len() as int);
    let at = (a.len() + sec.len()) as int;
    if at < ls.len() {
        assert(ls[at] == b[0]);
    }
    assert forall|k: int| a.len() + 1 <= k < at implies !is_other_header(#[trigger] ls[k]) by {
        assert(ls[k] == sec[k - a.len()]);
    }
    lemma_end_is(ls, a.len() as int + 1, at);
}

/// To save the same section twice is to save it once.
pub proof fn saving_twice_is_saving_once(content: Seq<char>, section: Seq<char>)
    requires
        is_section(section),
    ensures
        with_rules(with_rules(content, section), section) == with_rules(content, section),
{
    let ls = raw_lines_of(content);
    let sec = raw_lines_of(section);
    let s = rules_start(ls, 0);
    lemma_start(ls, 0);
    let once = with_rules(content, section);
    let r = raw_lines_of(once);
    if s < ls.len() {
        let e = section_end(ls, s + 1);
        lemma_end(ls, s + 1);
        other_lines_are_kept(content, section);
        lemma_places(ls.take(s), sec, ls.skip(e));
        assert(r.take(s) =~= ls.take(s));
        assert(r.skip(s + sec.len()) =~= ls.skip(e));
    } else {
        let a = lines_before_appended(content);
        lemma_appended(content, section);
        lemma_places(a, sec, Seq::empty());
        assert(r =~= a + sec + Seq::empty());
        assert(r.take(a.len() as int) =~= a);
        assert(r.skip((a.len() + sec.len()) as int) =~= Seq::empty());
        assert(concat(Seq::empty()) =~= Seq::<char>::empty());
        assert(with_rules(once, section) =~= once);
    }
}

proof fn lemma_escaped_is_one_line(s: Seq<char>)
    requires
        !s.contains('\n'),
    ensures
        !replaced(s, "\""@, "\\\""@).contains('\n'),
    decreases s.len(),
{
    reveal_strlit("\"");
    reveal_strlit("\\\"");
    let e = replaced(s, "\""@, "\\\""@);
    if s.len() > 0 {
        let rest = s.skip(1);
        assert(!rest.contains('\n')) by {
            if rest.contains('\n') {
                let k = choose|k: int| 0 <= k < rest.len() && rest[k] == '\n';
                assert(s[k + 1] == '\n');
            }
        }
        lemma_escaped_is_one_line(rest);
        let tail = replaced(rest, "\""@, "\\\""@);
        assert(s[0] != '\n') by {
            assert(s.contains(s[0]));
        }
        if e.contains('\n') {
            let k = choose|k: int| 0 <= k < e.len() && e[k] == '\n';
            if crate::text::occurs_at(s, "\""@, 0) {
                assert(e =~= "\\\""@ + tail);
                if k >= 2 {
                    assert(tail[k - 2] == '\n');
                    assert(tail.contains('\n'));
                }
            } else {
                assert(e =~= seq![s[0]] + tail);
                if k >= 1 {
                    assert(tail[k - 1] == '\n');
                    assert(tail.contains('\n'));
                }
            }
        }
    }
}

proof fn lemma_rule_line(tool: Seq<char>, decision: Seq<char>)
    requires
        !tool.contains('\n'),
        tool.len() > 0 ==> tool[0] != '[',
        !decision.contains('\n'),
    ensures
        is_ended_line(rule_line(tool, decision)),
        !is_other_header(rule_line(tool, decision)),
{
    reveal_strlit(" = \"");
    reveal_strlit("\"\n");
    lemma_escaped_is_one_line(decision);
    let e = replaced(decision, "\""@, "\\\""@);
    let l = rule_line(tool, decision);
    assert forall|k: int| 0 <= k < l.len() - 1 implies l[k] != '\n' by {
        if k < tool.len() {
            assert(l[k] == tool[k]);
            assert(tool.contains(tool[k]));
        } else if k >= tool.len() + 4 && k < tool.len() + 4 + e.len() {
            assert(l[k] == e[k - tool.len() - 4]);
            assert(e.contains(e[k - tool.len() - 4]));
        }
    }
    if tool.len() > 0 {
        assert(l[0] == tool[0]);
    } else {
        assert(l[0] == ' ');
    }
}

/// What is written for tools and decisions of one line each is a section,
/// where no tool's name starts with a bracket.
pub proof fn written_rules_are_a_section(keys: Seq<Seq<char>>, m: Map<Seq<char>, String>)
    requires
        forall|i: int|
            0 <= i < keys.len() ==> {
                let k = #[trigger] keys[i];
                &&& !k.contains('\n')
                &&& k.len() > 0 ==> k[0] != '['
                &&& !m[k]@.contains('\n')
            },
    ensures
        is_section(rules_text(keys, m)),
{
    reveal_strlit("[rules]");
    reveal_strlit("[rules]\n");
    let head = "[rules]\n"@;
    let written = keys.map_values(|k: Seq<char>| rule_line(k, m[k]@));
    let ls = seq![head] + written;
    assert(is_ended_line(head));
    assert forall|i: int| 0 <= i < ls.len() implies is_ended_line(#[trigger] ls[i]) && (i > 0
        ==> !is_other_header(ls[i])) by {
        if i > 0 {
            lemma_rule_line(keys[i - 1], m[keys[i - 1]]@);
            assert(ls[i] == written[i - 1]);
        }
    }
    assert(is_ended_line(ls[ls.len() - 1]));
    lemma_rule_lines(keys, m);
    lemma_concat_join(seq![head], written);
    assert(seq![head].drop_last() =~= Seq::<Seq<char>>::empty());
    assert(concat(Seq::<Seq<char>>::empty()) =~= Seq::<char>::empty());
    assert(concat(seq![head]) =~= head);
    assert(rules_text(keys, m) =~= concat(ls));
    raw_lines_of_concat(ls);
    lemma_concat_ended(ls);
    lemma_header_is_header();
}

proof fn lemma_header_is_header()
    ensures
        is_rules_header("[rules]\n"@),
{
    reveal_strlit("[rules]");
    reveal_strlit("[rules]\n");
    lemma_trimmed_line("[rules]"@);
    assert("[rules]"@.push('\n') =~= "[rules]\n"@);
    assert(trimmed("[rules]"@) =~= "[rules]"@);
}

proof fn lemma_rule_lines(keys: Seq<Seq<char>>, m: Map<Seq<char>, String>)
    ensures
        rule_lines(keys, m) == concat(keys.map_values(|k: Seq<char>| rule_line(k, m[k]@))),
    decreases keys.len(),
{
    let f = |k: Seq<char>| rule_line(k, m[k]@);
    if keys.len() > 0 {
        lemma_rule_lines(keys.drop_last(), m);
        assert(keys.map_values(f).drop_last() =~= keys.drop_last().map_values(f));
        assert(rule_lines(keys, m) =~= concat(keys.map_values(f)));
    }
}

/// Each rule is a line of its own: the tool, and in quotes what was decided,
/// with a backslash before each quote in it.
pub proof fn rules_are_written_line_by_line(
    keys: Seq<Seq<char>>,
    m: Map<Seq<char>, String>,
    tool: Seq<char>,
)
    ensures
        rules_text(keys.push(tool), m) == rules_text(keys, m) + (tool + " = \""@ + replaced(
            m[tool]@,
            "\""@,
            "\\\""@,
        ) + "\"\n"@),
        rules_text(Seq::empty(), m) == "[rules]\n"@,
{
    assert(keys.push(tool).drop_last() =~= keys);
    assert(rules_text(keys.push(tool), m) =~= rules_text(keys, m) + (tool + " = \""@ + replaced(
        m[tool]@,
        "\""@,
        "\\\""@,
    ) + "\"\n"@));
    assert(rules_text(Seq::empty(), m) =~= "[rules]\n"@);
}

} // verus!
