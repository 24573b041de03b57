//! Taking the user's paths out of a prompt.

use vstd::prelude::*;
use vstd::string::*;

use crate::text::{
    chars_of, has_prefix, is_space, is_whitespace, matches_at, occurs_at, owned, push_char, same,
};

verus! {

/// `s` with every occurrence of `pattern`, from left to right, replaced.
pub open spec fn replaced(s: Seq<char>, pattern: Seq<char>, with: Seq<char>) -> Seq<char>
    decreases s.len(),
{
    if s.len() == 0 {
        s
    } else if pattern.len() > 0 && occurs_at(s, pattern, 0) {
        with + replaced(s.skip(pattern.len() as int), pattern, with)
    } else {
        seq![s[0]] + replaced(s.skip(1), pattern, with)
    }
}

/// Replaces every occurrence of a pattern.
pub fn replace_all(s: &str, pattern: &str, with: &str) -> (r: String)
    ensures
        r@ == replaced(s@, pattern@, with@),
{
    let chars = chars_of(s);
    let pat = chars_of(pattern);
    let n: usize = chars.len();
    let mut out = String::new();
    let mut i: usize = 0;
    assert(chars@.skip(0) =~= chars@);
    assert(out@ + replaced(chars@, pattern@, with@) =~= replaced(s@, pattern@, with@));
    while i < n
        invariant
            i <= n == chars@.len(),
            chars@ == s@,
            pat@ == pattern@,
            out@ + replaced(s@.skip(i as int), pattern@, with@) == replaced(s@, pattern@, with@),
        decreases n - i,
    {
        let ghost rest = s@.skip(i as int);
        let ghost o0 = out@;
        let hit = pat.len() > 0 && matches_at(&chars, &pat, i);
        proof {
            assert(hit == (pattern@.len() > 0 && occurs_at(rest, pattern@, 0))) by {
                if i + pattern@.len() <= n {
                    assert(rest.subrange(0, pattern@.len() as int) =~= s@.subrange(
                        i as int,
                        i + pattern@.len(),
                    ));
                }
            }
        }
        if hit {
            out.append(with);
            proof {
                assert(rest.skip(pattern@.len() as int) =~= s@.skip(i + pattern@.len()));
                assert(out@ + replaced(rest.skip(pattern@.len() as int), pattern@, with@) =~= o0
                    + replaced(rest, pattern@, with@));
            }
            i = i + pat.len();
        } else {
            push_char(&mut out, chars[i]);
            proof {
                assert(rest.skip(1) =~= s@.skip(i as int + 1));
                assert(out@ + replaced(rest.skip(1), pattern@, with@) =~= o0 + replaced(
                    rest,
                    pattern@,
                    with@,
                ));
            }
            i = i + 1;
        }
    }
    assert(s@.skip(n as int).len() == 0);
    assert(out@ =~= replaced(s@, pattern@, with@));
    out
}

/// Whether a path of a user begins here.
pub open spec fn begins_user_path(s: Seq<char>) -> bool {
    occurs_at(s, "/Users/"@, 0) || occurs_at(s, "/home/"@, 0)
}

/// Whether a character ends a path.
pub open spec fn ends_path(c: char) -> bool {
    is_space(c) || c == '"' || c == '\'' || c == '`' || c == '<' || c == '>' || c == ')'
}

/// `s` from the first character on that ends a path.
pub open spec fn after_path(s: Seq<char>) -> Seq<char>
    decreases s.len(),
{
    if s.len() == 0 || ends_path(s[0]) {
        s
    } else {
        after_path(s.skip(1))
    }
}

proof fn lemma_after_path(s: Seq<char>)
    ensures
        after_path(s).len() <= s.len(),
    decreases s.len(),
{
    if s.len() > 0 && !ends_path(s[0]) {
        lemma_after_path(s.skip(1));
    }
}

/// `s` with `<PATH>` in place of each path of a user.
pub open spec fn paths_redacted(s: Seq<char>) -> Seq<char>
    decreases s.len(),
    via paths_redacted_decreases
{
    if s.len() == 0 {
        s
    } else if begins_user_path(s) {
        "<PATH>"@ + paths_redacted(after_path(s))
    } else {
        seq![s[0]] + paths_redacted(s.skip(1))
    }
}

#[via_fn]
proof fn paths_redacted_decreases(s: Seq<char>) {
    if s.len() > 0 && begins_user_path(s) {
        lemma_begins_with_slash(s);
        lemma_after_path(s.skip(1));
    }
}

proof fn lemma_begins_with_slash(s: Seq<char>)
    requires
        begins_user_path(s),
    ensures
        s.len() > 0,
        s[0] == '/',
        !ends_path(s[0]),
{
    reveal_strlit("/Users/");
    reveal_strlit("/home/");
    if occurs_at(s, "/Users/"@, 0) {
        assert(s.subrange(0, "/Users/"@.len() as int)[0] == s[0]);
    } else {
        assert(s.subrange(0, "/home/"@.len() as int)[0] == s[0]);
    }
}

/// Replaces each path under `/Users/` or `/home/`, up to white space, a quote,
/// an angle bracket or a closing parenthesis.
pub fn redact_absolute_user_paths(input: &str) -> (r: String)
    ensures
        r@ == paths_redacted(input@),
{
    let chars = chars_of(input);
    let users = chars_of("/Users/");
    let homes = chars_of("/home/");
    let n: usize = chars.len();
    let mut out = String::new();
    let mut i: usize = 0;
    assert(chars@.skip(0) =~= chars@);
    assert(out@ + paths_redacted(chars@) =~= paths_redacted(chars@));
    while i < n
        invariant
            i <= n == chars@.len(),
            users@ == "/Users/"@,
            homes@ == "/home/"@,
            out@ + paths_redacted(chars@.skip(i as int)) == paths_redacted(chars@),
        decreases n - i,
    {
        let ghost rest = chars@.skip(i as int);
        let ghost o0 = out@;
        let begins = matches_at(&chars, &users, i) || matches_at(&chars, &homes, i);
        proof {
            assert forall|p: Seq<char>| #[trigger] occurs_at(rest, p, 0) == occurs_at(
                chars@,
                p,
                i as int,
            ) by {
                if i + p.len() <= n {
                    assert(rest.subrange(0, p.len() as int) =~= chars@.subrange(
                        i as int,
                        i + p.len(),
                    ));
                }
            }
        }
        if begins {
            proof {
                lemma_begins_with_slash(rest);
            }
            let ghost start = i as int;
            let mut j: usize = i;
            while j < n && !is_whitespace(chars[j]) && chars[j] != '"' && chars[j] != '\''
                && chars[j] != '`' && chars[j] != '<' && chars[j] != '>' && chars[j] != ')'
                invariant
                    i <= j <= n == chars@.len(),
                    after_path(chars@.skip(j as int)) == after_path(chars@.skip(i as int)),
                decreases n - j,
            {
                assert(chars@.skip(j as int).skip(1) =~= chars@.skip(j as int + 1));
                j = j + 1;
            }
            proof {
                assert(after_path(rest) == chars@.skip(j as int));
                if j == i {
                    assert(rest[0] == chars@[i as int]);
                }
            }
            out.append("<PATH>");
            assert(out@ + paths_redacted(chars@.skip(j as int)) =~= o0 + paths_redacted(rest));
            i = j;
        } else {
            push_char(&mut out, chars[i]);
            assert(rest.skip(1) =~= chars@.skip(i as int + 1));
            assert(out@ + paths_redacted(rest.skip(1)) =~= o0 + paths_redacted(rest));
            i = i + 1;
        }
    }
    assert(chars@.skip(n as int).len() == 0);
    assert(out@ =~= paths_redacted(chars@));
    out
}

/// The content after the home directory was taken out.
pub open spec fn without_home(content: Seq<char>, home: Option<Seq<char>>) -> Seq<char> {
    match home {
        Some(h) => if h.len() > 0 {
            replaced(content, h, "<HOME>"@)
        } else {
            content
        },
        None => content,
    }
}

/// The content after the working directory was taken out.
pub open spec fn without_cwd(content: Seq<char>, cwd: Option<Seq<char>>) -> Seq<char> {
    match cwd {
        Some(c) => if c.len() > 0 && c != "."@ {
            replaced(content, c, "<CWD>"@)
        } else {
            content
        },
        None => content,
    }
}

/// The view of an optional text.
pub open spec fn str_view(o: Option<&str>) -> Option<Seq<char>> {
    match o {
        Some(s) => Some(s@),
        None => None,
    }
}

/// The content after the home directory, the working directory and any other
/// path of a user were taken out, in this order.
pub open spec fn prompt_redacted(
    content: Seq<char>,
    home: Option<Seq<char>>,
    cwd: Option<Seq<char>>,
) -> Seq<char> {
    paths_redacted(without_cwd(without_home(content, home), cwd))
}

/// Takes the home directory, the working directory and any other path of a
/// user out of a prompt.
pub fn redact_prompt_content(content: &str, home: Option<&str>, cwd: Option<&str>) -> (r: String)
    ensures
        r@ == paths_redacted(
            without_cwd(without_home(content@, str_view(home)), str_view(cwd)),
        ),
        r@ == prompt_redacted(content@, str_view(home), str_view(cwd)),
{
    let mut out = owned(content);
    if let Some(h) = home {
        if !h.is_empty() {
            out = replace_all(out.as_str(), h, "<HOME>");
        }
    }
    if let Some(c) = cwd {
        if !c.is_empty() && !same(c, ".") {
            out = replace_all(out.as_str(), c, "<CWD>");
        }
    }
    redact_absolute_user_paths(out.as_str())
}

proof fn lemma_prefix_kept(s: Seq<char>, p: Seq<char>)
    requires
        occurs_at(paths_redacted(s), p, 0),
        forall|i: int| 0 <= i < p.len() ==> p[i] != '<',
    ensures
        occurs_at(s, p, 0),
    decreases p.len(),
{
    reveal_strlit("<PATH>");
    let r = paths_redacted(s);
    if p.len() == 0 {
        assert(s.subrange(0, 0) =~= p);
    } else {
        assert(r.subrange(0, p.len() as int)[0] == r[0]);
        if begins_user_path(s) {
            assert(r[0] == "<PATH>"@[0]);
        } else {
            let t = paths_redacted(s.skip(1));
            assert(r == seq![s[0]] + t);
            assert(t.subrange(0, p.len() - 1) =~= p.skip(1)) by {
                assert forall|k: int| 0 <= k < p.len() - 1 implies t[k] == p.skip(1)[k] by {
                    assert(r.subrange(0, p.len() as int)[k + 1] == r[k + 1]);
                }
            }
            lemma_prefix_kept(s.skip(1), p.skip(1));
            assert(s.subrange(0, p.len() as int) =~= p) by {
                assert forall|k: int| 0 <= k < p.len() implies s[k] == p[k] by {
                    if k > 0 {
                        assert(s.skip(1).subrange(0, p.len() - 1)[k - 1] == p.skip(1)[k - 1]);
                    }
                }
            }
        }
    }
}

/// No path of a user begins anywhere in redacted text.
pub proof fn redaction_leaves_no_user_path(s: Seq<char>, at: int)
    requires
        0 <= at <= paths_redacted(s).len(),
    ensures
        !begins_user_path(paths_redacted(s).skip(at)),
    decreases s.len(),
{
    reveal_strlit("/Users/");
    reveal_strlit("/home/");
    reveal_strlit("<PATH>");
    let r = paths_redacted(s);
    if s.len() == 0 {
        assert(r.skip(at).len() == 0);
    } else if begins_user_path(s) {
        lemma_begins_with_slash(s);
        lemma_after_path(s.skip(1));
        let t = paths_redacted(after_path(s));
        assert(r == "<PATH>"@ + t);
        if at >= 6 {
            redaction_leaves_no_user_path(after_path(s), at - 6);
            assert(r.skip(at) =~= t.skip(at - 6));
        } else if begins_user_path(r.skip(at)) {
            lemma_begins_with_slash(r.skip(at));
            assert(r.skip(at)[0] == "<PATH>"@[at]);
        }
    } else {
        let t = paths_redacted(s.skip(1));
        assert(r == seq![s[0]] + t);
        if at >= 1 {
            redaction_leaves_no_user_path(s.skip(1), at - 1);
            assert(r.skip(at) =~= t.skip(at - 1));
        } else {
            assert(r.skip(0) =~= r);
            if occurs_at(r, "/Users/"@, 0) {
                lemma_prefix_kept(s, "/Users/"@);
            }
            if occurs_at(r, "/home/"@, 0) {
                lemma_prefix_kept(s, "/home/"@);
            }
        }
    }
}

/// Text in which no path of a user begins comes through unchanged.
pub proof fn other_text_is_kept(s: Seq<char>)
    requires
        forall|at: int| 0 <= at < s.len() ==> !begins_user_path(#[trigger] s.skip(at)),
    ensures
        paths_redacted(s) == s,
    decreases s.len(),
{
    if s.len() > 0 {
        assert(s.skip(0) =~= s);
        let t = s.skip(1);
        assert forall|at: int| 0 <= at < t.len() implies !begins_user_path(#[trigger] t.skip(at)) by {
            assert(t.skip(at) =~= s.skip(at + 1));
        }
        other_text_is_kept(t);
        assert(seq![s[0]] + t =~= s);
    }
}

/// Whether a text is a path of a user that nothing in it ends: it begins below
/// the directory of the users' homes and holds no white space, quote, backtick,
/// angle bracket or closing parenthesis.
pub open spec fn is_whole_user_path(p: Seq<char>) -> bool {
    &&& has_prefix(p, "/Users/"@) || has_prefix(p, "/home/"@)
    &&& forall|i: int|
        0 <= i < p.len() ==> {
            let c = #[trigger] p[i];
            !is_space(c) && c != '"' && c != '\'' && c != '`' && c != '<' && c != '>' && c != ')'
        }
}

proof fn lemma_path_ends(p: Seq<char>, rest: Seq<char>)
    requires
        forall|i: int| 0 <= i < p.len() ==> !ends_path(#[trigger] p[i]),
        rest.len() > 0 ==> ends_path(rest[0]),
    ensures
        after_path(p + rest) == rest,
    decreases p.len(),
{
    if p.len() == 0 {
        assert(p + rest =~= rest);
    } else {
        assert((p + rest)[0] == p[0]);
        let q = p.skip(1);
        assert forall|i: int| 0 <= i < q.len() implies !ends_path(#[trigger] q[i]) by {
            assert(q[i] == p[i + 1]);
        }
        lemma_path_ends(q, rest);
        assert((p + rest).skip(1) =~= q + rest);
    }
}

proof fn lemma_prefix_begins(p: Seq<char>, rest: Seq<char>)
    requires
        has_prefix(p, "/Users/"@) || has_prefix(p, "/home/"@),
    ensures
        begins_user_path(p + rest),
{
    let s = p + rest;
    if has_prefix(p, "/Users/"@) {
        let n = "/Users/"@.len() as int;
        assert(s.subrange(0, n) =~= p.take(n));
    } else {
        let n = "/home/"@.len() as int;
        assert(s.subrange(0, n) =~= p.take(n));
    }
}

/// A path of a user becomes `<PATH>`, up to the first white space, quote,
/// backtick, angle bracket or closing parenthesis. That stays, and so does what
/// follows it.
pub proof fn paths_end_where_they_end(p: Seq<char>, c: char, t: Seq<char>)
    requires
        is_whole_user_path(p),
        is_space(c) || c == '\n' || c == ' ' || c == '\t' || c == '"' || c == '\'' || c == '`' || c
            == '<' || c == '>' || c == ')',
    ensures
        paths_redacted(p.push(c) + t) == "<PATH>"@.push(c) + paths_redacted(t),
        paths_redacted(p.push(c) + t) == "<PATH>"@ + paths_redacted(seq![c] + t),
{
    let rest = seq![c] + t;
    let s = p.push(c) + t;
    assert(s =~= p + rest);
    assert forall|i: int| 0 <= i < p.len() implies !ends_path(#[trigger] p[i]) by {}
    assert(rest[0] == c);
    lemma_path_ends(p, rest);
    lemma_prefix_begins(p, rest);
    if begins_user_path(rest) {
        lemma_begins_with_slash(rest);
    }
    assert(rest.skip(1) =~= t);
    assert(paths_redacted(s) == "<PATH>"@ + paths_redacted(rest));
    assert("<PATH>"@ + (seq![c] + paths_redacted(t)) =~= "<PATH>"@.push(c) + paths_redacted(t));
}

/// A path of a user at the end of the text becomes `<PATH>`.
pub proof fn last_paths_are_taken_out(p: Seq<char>)
    requires
        is_whole_user_path(p),
    ensures
        paths_redacted(p) == "<PATH>"@,
{
    let none = Seq::<char>::empty();
    assert(p + none =~= p);
    assert forall|i: int| 0 <= i < p.len() implies !ends_path(#[trigger] p[i]) by {}
    lemma_path_ends(p, none);
    lemma_prefix_begins(p, none);
    lemma_begins_with_slash(p);
    assert(paths_redacted(none) =~= none);
    assert("<PATH>"@ + none =~= "<PATH>"@);
}

/// Text in which no path of a user begins is kept, whatever follows it.
pub proof fn text_before_a_path_is_kept(a: Seq<char>, b: Seq<char>)
    requires
        forall|at: int|
            0 <= at < a.len() ==> !has_prefix(#[trigger] (a + b).skip(at), "/Users/"@)
                && !has_prefix((a + b).skip(at), "/home/"@),
    ensures
        paths_redacted(a + b) == a + paths_redacted(b),
    decreases a.len(),
{
    let s = a + b;
    if a.len() == 0 {
        assert(s =~= b);
        assert(a + paths_redacted(b) =~= paths_redacted(b));
    } else {
        let a1 = a.skip(1);
        assert(s.skip(0) =~= s);
        assert(!begins_user_path(s)) by {
            assert(!has_prefix(s.skip(0), "/Users/"@) && !has_prefix(s.skip(0), "/home/"@));
            if occurs_at(s, "/Users/"@, 0) {
                assert(s.take("/Users/"@.len() as int) =~= s.subrange(0, "/Users/"@.len() as int));
            }
            if occurs_at(s, "/home/"@, 0) {
                assert(s.take("/home/"@.len() as int) =~= s.subrange(0, "/home/"@.len() as int));
            }
        }
        assert(s.skip(1) =~= a1 + b);
        assert forall|at: int| 0 <= at < a1.len() implies !has_prefix(
            #[trigger] (a1 + b).skip(at),
            "/Users/"@,
        ) && !has_prefix((a1 + b).skip(at), "/home/"@) by {
            assert((a1 + b).skip(at) =~= s.skip(at + 1));
        }
        text_before_a_path_is_kept(a1, b);
        assert(seq![s[0]] + (a1 + paths_redacted(b)) =~= a + paths_redacted(b));
    }
}

/// How often a character stands in a text.
pub open spec fn count_of_char(s: Seq<char>, c: char) -> nat
    decreases s.len(),
{
    if s.len() == 0 {
        0
    } else {
        count_of_char(s.skip(1), c) + (if s[0] == c {
            1nat
        } else {
            0nat
        })
    }
}

proof fn lemma_count_joined(a: Seq<char>, b: Seq<char>, c: char)
    ensures
        count_of_char(a + b, c) == count_of_char(a, c) + count_of_char(b, c),
    decreases a.len(),
{
    if a.len() == 0 {
        assert(a + b =~= b);
    } else {
        assert((a + b)[0] == a[0]);
        assert((a + b).skip(1) =~= a.skip(1) + b);
        lemma_count_joined(a.skip(1), b, c);
    }
}

proof fn lemma_count_none(a: Seq<char>, c: char)
    requires
        forall|i: int| 0 <= i < a.len() ==> a[i] != c,
    ensures
        count_of_char(a, c) == 0,
    decreases a.len(),
{
    if a.len() > 0 {
        assert(a[0] != c);
        assert forall|i: int| 0 <= i < a.skip(1).len() implies a.skip(1)[i] != c by {
            assert(a.skip(1)[i] == a[i + 1]);
        }
        lemma_count_none(a.skip(1), c);
    }
}

proof fn lemma_count_after_path(s: Seq<char>, c: char)
    requires
        ends_path(c),
    ensures
        count_of_char(after_path(s), c) == count_of_char(s, c),
    decreases s.len(),
{
    if s.len() > 0 && !ends_path(s[0]) {
        lemma_count_after_path(s.skip(1), c);
    }
}

/// Redacted text has as many line feeds, and as much of any other white space,
/// as the text had: no lines run into each other.
pub proof fn lines_stay_apart(s: Seq<char>, c: char)
    requires
        is_space(c) || c == '\n',
    ensures
        count_of_char(paths_redacted(s), c) == count_of_char(s, c),
    decreases s.len(),
{
    reveal_strlit("<PATH>");
    if s.len() > 0 {
        if begins_user_path(s) {
            lemma_begins_with_slash(s);
            lemma_after_path(s.skip(1));
            lemma_count_after_path(s, c);
            lines_stay_apart(after_path(s), c);
            lemma_count_none("<PATH>"@, c);
            lemma_count_joined("<PATH>"@, paths_redacted(after_path(s)), c);
        } else {
            lines_stay_apart(s.skip(1), c);
            let one = seq![s[0]];
            lemma_count_joined(one, paths_redacted(s.skip(1)), c);
            assert(one.skip(1) =~= Seq::empty());
            assert(count_of_char(one.skip(1), c) == 0);
        }
    }
}

/// Where a pattern stands first, it is replaced, and the rest is treated alike.
pub proof fn leading_occurrences_are_replaced(
    p: Seq<char>,
    with: Seq<char>,
    t: Seq<char>,
)
    requires
        p.len() > 0,
    ensures
        replaced(p + t, p, with) == with + replaced(t, p, with),
{
    let s = p + t;
    assert(s.subrange(0, p.len() as int) =~= p);
    assert(s.skip(p.len() as int) =~= t);
}

/// Text in which no occurrence of the pattern begins is kept, whatever follows.
pub proof fn text_without_occurrences_is_kept(
    a: Seq<char>,
    b: Seq<char>,
    p: Seq<char>,
    with: Seq<char>,
)
    requires
        forall|at: int| 0 <= at < a.len() ==> !has_prefix(#[trigger] (a + b).skip(at), p),
    ensures
        replaced(a + b, p, with) == a + replaced(b, p, with),
    decreases a.len(),
{
    let s = a + b;
    if a.len() == 0 {
        assert(s =~= b);
        assert(a + replaced(b, p, with) =~= replaced(b, p, with));
    } else {
        let a1 = a.skip(1);
        assert(s.skip(0) =~= s);
        assert(!has_prefix(s.skip(0), p));
        if occurs_at(s, p, 0) {
            assert(s.take(p.len() as int) =~= s.subrange(0, p.len() as int));
        }
        assert(s.skip(1) =~= a1 + b);
        assert forall|at: int| 0 <= at < a1.len() implies !has_prefix(
            #[trigger] (a1 + b).skip(at),
            p,
        ) by {
            assert((a1 + b).skip(at) =~= s.skip(at + 1));
        }
        text_without_occurrences_is_kept(a1, b, p, with);
        assert(seq![s[0]] + (a1 + replaced(b, p, with)) =~= a + replaced(b, p, with));
    }
}

/// An empty pattern replaces nothing.
pub proof fn empty_patterns_replace_nothing(s: Seq<char>, with: Seq<char>)
    ensures
        replaced(s, Seq::empty(), with) == s,
    decreases s.len(),
{
    if s.len() > 0 {
        empty_patterns_replace_nothing(s.skip(1), with);
        assert(seq![s[0]] + s.skip(1) =~= s);
    }
}

/// A text that holds no slash is kept, whatever follows it: no absolute path
/// begins there.
proof fn lemma_mark_is_kept(mark: Seq<char>, rest: Seq<char>, p: Seq<char>, with: Seq<char>)
    requires
        p.len() > 0,
        p[0] == '/',
        forall|i: int| 0 <= i < mark.len() ==> mark[i] != '/',
    ensures
        replaced(mark + rest, p, with) == mark + replaced(rest, p, with),
        paths_redacted(mark + rest) == mark + paths_redacted(rest),
{
    reveal_strlit("/Users/");
    reveal_strlit("/home/");
    let s = mark + rest;
    assert forall|at: int| 0 <= at < mark.len() implies !has_prefix(#[trigger] s.skip(at), p)
        && !has_prefix(s.skip(at), "/Users/"@) && !has_prefix(s.skip(at), "/home/"@) by {
        let u = s.skip(at);
        assert(u[0] == mark[at]);
        if has_prefix(u, p) {
            assert(u.take(p.len() as int)[0] == u[0]);
        }
        if has_prefix(u, "/Users/"@) {
            assert(u.take("/Users/"@.len() as int)[0] == u[0]);
        }
        if has_prefix(u, "/home/"@) {
            assert(u.take("/home/"@.len() as int)[0] == u[0]);
        }
    }
    text_without_occurrences_is_kept(mark, rest, p, with);
    text_before_a_path_is_kept(mark, rest);
}

/// The home directory becomes `<HOME>`, and the rest is treated alike, also
/// where the working directory lies below it.
pub proof fn the_home_directory_is_taken_out(
    home: Seq<char>,
    cwd: Option<Seq<char>>,
    t: Seq<char>,
)
    requires
        home.len() > 0,
        cwd matches Some(c) ==> c.len() > 0 && c[0] == '/',
    ensures
        prompt_redacted(home + t, Some(home), cwd) == "<HOME>"@ + prompt_redacted(
            t,
            Some(home),
            cwd,
        ),
{
    reveal_strlit("<HOME>");
    reveal_strlit(".");
    leading_occurrences_are_replaced(home, "<HOME>"@, t);
    let u = replaced(t, home, "<HOME>"@);
    match cwd {
        Some(c) => {
            assert(c != "."@) by {
                assert(c[0] != "."@[0]);
            }
            lemma_mark_is_kept("<HOME>"@, u, c, "<CWD>"@);
            lemma_mark_is_kept("<HOME>"@, replaced(u, c, "<CWD>"@), c, "<CWD>"@);
        },
        None => {
            lemma_mark_is_kept("<HOME>"@, u, seq!['/'], "<CWD>"@);
        },
    }
}

/// The working directory becomes `<CWD>` where the home directory does not
/// stand in it, and the rest is treated alike.
pub proof fn the_working_directory_is_taken_out(
    home: Option<Seq<char>>,
    cwd: Seq<char>,
    t: Seq<char>,
)
    requires
        cwd.len() > 0,
        cwd != "."@,
        home matches Some(h) ==> forall|at: int|
            0 <= at < cwd.len() ==> !has_prefix(#[trigger] (cwd + t).skip(at), h),
    ensures
        prompt_redacted(cwd + t, home, Some(cwd)) == "<CWD>"@ + prompt_redacted(
            t,
            home,
            Some(cwd),
        ),
{
    reveal_strlit("<CWD>");
    match home {
        Some(h) => {
            text_without_occurrences_is_kept(cwd, t, h, "<HOME>"@);
        },
        None => {},
    }
    let u = without_home(t, home);
    assert(without_home(cwd + t, home) == cwd + u);
    leading_occurrences_are_replaced(cwd, "<CWD>"@, u);
    lemma_mark_is_kept("<CWD>"@, replaced(u, cwd, "<CWD>"@), seq!['/'], "<CWD>"@);
}

/// A path of a user that holds neither directory becomes `<PATH>` in a prompt.
pub proof fn other_user_paths_are_taken_out(
    home: Option<Seq<char>>,
    cwd: Option<Seq<char>>,
    p: Seq<char>,
)
    requires
        is_whole_user_path(p),
        home matches Some(h) ==> forall|at: int|
            0 <= at < p.len() ==> !has_prefix(#[trigger] p.skip(at), h),
        cwd matches Some(c) ==> forall|at: int|
            0 <= at < p.len() ==> !has_prefix(#[trigger] p.skip(at), c),
    ensures
        prompt_redacted(p, home, cwd) == "<PATH>"@,
{
    let none = Seq::<char>::empty();
    assert(p + none =~= p);
    match home {
        Some(h) => {
            assert(replaced(none, h, "<HOME>"@) =~= none);
            text_without_occurrences_is_kept(p, none, h, "<HOME>"@);
        },
        None => {},
    }
    match cwd {
        Some(c) => {
            assert(replaced(none, c, "<CWD>"@) =~= none);
            text_without_occurrences_is_kept(p, none, c, "<CWD>"@);
        },
        None => {},
    }
    last_paths_are_taken_out(p);
}

} // verus!
