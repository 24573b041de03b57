//! Glob patterns over slash-separated names.

use vstd::prelude::*;

use crate::text::chars_of;

verus! {

/// Whether `pattern` begins with `**`.
pub open spec fn has_double_star(pattern: Seq<char>) -> bool {
    pattern.len() >= 2 && pattern[0] == '*' && pattern[1] == '*'
}

/// What follows a leading `**`, without the slash that may follow it.
pub open spec fn after_double_star(pattern: Seq<char>) -> Seq<char> {
    let rest = pattern.skip(2);
    if rest.len() > 0 && rest[0] == '/' {
        rest.skip(1)
    } else {
        rest
    }
}

/// Whether none of the first `n` characters is a slash.
pub open spec fn no_slash(text: Seq<char>, n: int) -> bool {
    forall|j: int| 0 <= j < n ==> text[j] != '/'
}

/// Whether the whole of `text` matches `pattern`: `**` (with the slash after
/// it, if any) stands for any characters, `*` for any characters but `/`, and
/// every other character for itself.
pub open spec fn glob_matches(pattern: Seq<char>, text: Seq<char>) -> bool
    decreases pattern.len(),
{
    if pattern.len() == 0 {
        text.len() == 0
    } else if has_double_star(pattern) {
        ||| after_double_star(pattern).len() == 0
        ||| exists|k: int|
            0 <= k <= text.len() && glob_matches(
                after_double_star(pattern),
                #[trigger] text.skip(k),
            )
    } else if pattern[0] == '*' {
        exists|k: int|
            0 <= k <= text.len() && no_slash(text, k) && glob_matches(
                pattern.skip(1),
                #[trigger] text.skip(k),
            )
    } else {
        text.len() > 0 && text[0] == pattern[0] && glob_matches(pattern.skip(1), text.skip(1))
    }
}

/// Whether `text` matches the glob `pattern`.
pub fn glob_match(pattern: &str, text: &str) -> (r: bool)
    ensures
        r == glob_matches(pattern@, text@),
{
    let p = chars_of(pattern);
    let t = chars_of(text);
    assert(p@.skip(0) =~= p@);
    assert(t@.skip(0) =~= t@);
    glob_match_from(&p, &t, 0, 0)
}

fn glob_match_from(p: &Vec<char>, t: &Vec<char>, pi: usize, ti: usize) -> (r: bool)
    requires
        pi <= p@.len(),
        ti <= t@.len(),
    ensures
        r == glob_matches(p@.skip(pi as int), t@.skip(ti as int)),
    decreases p@.len() - pi,
{
    let ghost pat = p@.skip(pi as int);
    let ghost txt = t@.skip(ti as int);
    let n: usize = t.len();
    if pi == p.len() {
        return ti == n;
    }
    if p[pi] == '*' && p.len() - pi >= 2 && p[pi + 1] == '*' {
        let mut next: usize = pi + 2;
        assert(pat.skip(2) =~= p@.skip(pi as int + 2));
        if next < p.len() && p[next] == '/' {
            assert(pat.skip(2).skip(1) =~= p@.skip(pi as int + 3));
            next = next + 1;
        }
        assert(p@.skip(next as int) == after_double_star(pat));
        if next == p.len() {
            return true;
        }
        let mut start: usize = ti;
        loop
            invariant
                pi < next < p@.len(),
                ti <= start <= n == t@.len(),
                pat == p@.skip(pi as int),
                txt == t@.skip(ti as int),
                has_double_star(pat),
                pat.len() > 0,
                p@.skip(next as int) == after_double_star(pat),
                forall|k: int|
                    0 <= k < start - ti ==> !glob_matches(
                        after_double_star(pat),
                        #[trigger] txt.skip(k),
                    ),
            decreases n - start,
        {
            assert(txt.skip(start - ti) =~= t@.skip(start as int));
            if glob_match_from(p, t, next, start) {
                assert(glob_matches(after_double_star(pat), txt.skip(start - ti)));
                return true;
            }
            if start == n {
                return false;
            }
            start = start + 1;
        }
    }
    if p[pi] == '*' {
        assert(pat.skip(1) =~= p@.skip(pi as int + 1));
        let next: usize = pi + 1;
        let mut start: usize = ti;
        loop
            invariant
                next == pi + 1,
                pi < p@.len(),
                ti <= start <= n == t@.len(),
                pat == p@.skip(pi as int),
                txt == t@.skip(ti as int),
                !has_double_star(pat),
                pat.len() > 0,
                pat[0] == '*',
                p@.skip(pi as int + 1) == pat.skip(1),
                forall|k: int| 0 <= k < start - ti ==> txt[k] != '/',
                forall|k: int|
                    0 <= k < start - ti ==> !glob_matches(pat.skip(1), #[trigger] txt.skip(k)),
            decreases n - start,
        {
            assert(txt.skip(start - ti) =~= t@.skip(start as int));
            if glob_match_from(p, t, next, start) {
                assert(no_slash(txt, start - ti));
                assert(glob_matches(pat.skip(1), txt.skip(start - ti)));
                return true;
            }
            if start == n {
                return false;
            }
            if t[start] == '/' {
                assert(txt[start - ti] == '/');
                assert forall|k: int| 0 <= k <= txt.len() && no_slash(txt, k) implies !glob_matches(
                    pat.skip(1),
                    #[trigger] txt.skip(k),
                ) by {
                    if k > start - ti {
                        assert(txt[start - ti] != '/');
                    }
                }
                return false;
            }
            start = start + 1;
        }
    }
    if ti == n {
        return false;
    }
    if p[pi] != t[ti] {
        return false;
    }
    assert(pat.skip(1) =~= p@.skip(pi as int + 1));
    assert(txt.skip(1) =~= t@.skip(ti as int + 1));
    glob_match_from(p, t, pi + 1, ti + 1)
}

/// A pattern without `*` matches itself and nothing else.
pub proof fn literal_pattern_matches_itself(pattern: Seq<char>, text: Seq<char>)
    requires
        forall|i: int| 0 <= i < pattern.len() ==> pattern[i] != '*',
    ensures
        glob_matches(pattern, text) <==> pattern == text,
    decreases pattern.len(),
{
    if pattern.len() == 0 {
        if text.len() == 0 {
            assert(pattern =~= text);
        }
    } else if text.len() > 0 && text[0] == pattern[0] {
        literal_pattern_matches_itself(pattern.skip(1), text.skip(1));
        if pattern.skip(1) == text.skip(1) {
            assert(pattern =~= seq![pattern[0]] + pattern.skip(1));
            assert(text =~= seq![text[0]] + text.skip(1));
        }
    }
}

/// A literal prefix followed by `*` matches exactly the texts that have the
/// prefix and no slash after it.
pub proof fn star_stays_in_its_segment(prefix: Seq<char>, text: Seq<char>)
    requires
        forall|i: int| 0 <= i < prefix.len() ==> prefix[i] != '*',
    ensures
        glob_matches(prefix.push('*'), text) <==> (crate::text::has_prefix(text, prefix) && forall|
            i: int,
        |
            prefix.len() <= i < text.len() ==> text[i] != '/'),
    decreases prefix.len(),
{
    let p = prefix.push('*');
    if prefix.len() == 0 {
        assert(p.skip(1) =~= Seq::<char>::empty());
        assert(text.take(0) =~= prefix);
        assert(p[0] == '*');
        if glob_matches(p, text) {
            let k = choose|k: int|
                0 <= k <= text.len() && no_slash(text, k) && glob_matches(
                    p.skip(1),
                    #[trigger] text.skip(k),
                );
            assert(text.skip(k).len() == 0);
        }
        if forall|i: int| 0 <= i < text.len() ==> text[i] != '/' {
            assert(no_slash(text, text.len() as int));
            assert(glob_matches(p.skip(1), text.skip(text.len() as int)));
        }
    } else {
        assert(p[0] == prefix[0]);
        assert(p.skip(1) =~= prefix.skip(1).push('*'));
        if text.len() > 0 && text[0] == prefix[0] {
            star_stays_in_its_segment(prefix.skip(1), text.skip(1));
            let rest = text.skip(1);
            if glob_matches(p, text) {
                assert(rest.take(prefix.len() - 1) == prefix.skip(1));
                assert forall|i: int| 0 <= i < prefix.len() implies text[i] == prefix[i] by {
                    if i > 0 {
                        assert(rest.take(prefix.len() - 1)[i - 1] == prefix.skip(1)[i - 1]);
                    }
                }
                assert(text.take(prefix.len() as int) =~= prefix);
                assert forall|i: int| prefix.len() <= i < text.len() implies text[i] != '/' by {
                    assert(rest[i - 1] == text[i]);
                }
            }
            if crate::text::has_prefix(text, prefix) && (forall|i: int|
                prefix.len() <= i < text.len() ==> text[i] != '/') {
                assert forall|i: int| 0 <= i < prefix.len() implies text[i] == prefix[i] by {
                    assert(text.take(prefix.len() as int)[i] == prefix[i]);
                }
                assert(rest.take(prefix.len() - 1) =~= prefix.skip(1));
            }
        } else if crate::text::has_prefix(text, prefix) {
            assert(text.take(prefix.len() as int)[0] == prefix[0]);
        }
    }
}

/// A literal prefix followed by `**` matches every text that has the prefix.
pub proof fn trailing_double_star_matches_everything(prefix: Seq<char>, text: Seq<char>)
    requires
        forall|i: int| 0 <= i < prefix.len() ==> prefix[i] != '*',
    ensures
        glob_matches(prefix + seq!['*', '*'], text) <==> crate::text::has_prefix(text, prefix),
    decreases prefix.len(),
{
    let p = prefix + seq!['*', '*'];
    if prefix.len() == 0 {
        assert(p.skip(2) =~= Seq::<char>::empty());
        assert(text.take(0) =~= prefix);
    } else {
        assert(p[0] == prefix[0]);
        assert(p.skip(1) =~= prefix.skip(1) + seq!['*', '*']);
        if text.len() > 0 && text[0] == prefix[0] {
            trailing_double_star_matches_everything(prefix.skip(1), text.skip(1));
            let rest = text.skip(1);
            if glob_matches(p, text) {
                assert forall|i: int| 0 <= i < prefix.len() implies text[i] == prefix[i] by {
                    if i > 0 {
                        assert(rest.take(prefix.len() - 1)[i - 1] == prefix.skip(1)[i - 1]);
                    }
                }
                assert(text.take(prefix.len() as int) =~= prefix);
            }
            if crate::text::has_prefix(text, prefix) {
                assert forall|i: int| 0 <= i < prefix.len() implies text[i] == prefix[i] by {
                    assert(text.take(prefix.len() as int)[i] == prefix[i]);
                }
                assert(rest.take(prefix.len() - 1) =~= prefix.skip(1));
            }
        } else if crate::text::has_prefix(text, prefix) {
            assert(text.take(prefix.len() as int)[0] == prefix[0]);
        }
    }
}

/// Text before the first `*` of a pattern must stand at the beginning.
pub proof fn literal_beginnings_must_be_there(
    prefix: Seq<char>,
    rest: Seq<char>,
    text: Seq<char>,
)
    requires
        forall|i: int| 0 <= i < prefix.len() ==> prefix[i] != '*',
    ensures
        glob_matches(prefix + rest, text) <==> crate::text::has_prefix(text, prefix)
            && glob_matches(rest, text.skip(prefix.len() as int)),
    decreases prefix.len(),
{
    let p = prefix + rest;
    if prefix.len() == 0 {
        assert(p =~= rest);
        assert(text.skip(0) =~= text);
        assert(text.take(0) =~= prefix);
    } else {
        assert(p[0] == prefix[0]);
        assert(p.skip(1) =~= prefix.skip(1) + rest);
        if text.len() > 0 {
            literal_beginnings_must_be_there(prefix.skip(1), rest, text.skip(1));
            if text.len() >= prefix.len() {
                assert(text.skip(1).skip(prefix.len() - 1) =~= text.skip(prefix.len() as int));
            }
            let a = text.take(prefix.len() as int);
            if text[0] == prefix[0] && crate::text::has_prefix(text.skip(1), prefix.skip(1)) {
                let n = prefix.len() - 1;
                assert(a =~= prefix) by {
                    assert forall|i: int| 0 <= i < prefix.len() implies a[i] == prefix[i] by {
                        if i > 0 {
                            assert(text.skip(1).take(n)[i - 1] == prefix.skip(1)[i - 1]);
                        }
                    }
                }
            }
            if crate::text::has_prefix(text, prefix) {
                assert(a[0] == text[0]);
                assert(text.skip(1).take(prefix.len() - 1) =~= prefix.skip(1)) by {
                    assert forall|i: int| 0 <= i < prefix.len() - 1 implies text.skip(1).take(
                        prefix.len() - 1,
                    )[i] == prefix.skip(1)[i] by {
                        assert(a[i + 1] == prefix[i + 1]);
                    }
                }
            }
        }
    }
}

/// A `*` between two literal texts stands for any text without a slash.
pub proof fn a_star_stands_for_one_segment(
    prefix: Seq<char>,
    middle: Seq<char>,
    suffix: Seq<char>,
    text: Seq<char>,
)
    requires
        forall|i: int| 0 <= i < prefix.len() ==> prefix[i] != '*',
        forall|i: int| 0 <= i < suffix.len() ==> suffix[i] != '*',
    ensures
        (forall|i: int| 0 <= i < middle.len() ==> middle[i] != '/') ==> glob_matches(
            prefix + (seq!['*'] + suffix),
            prefix + (middle + suffix),
        ),
        glob_matches(prefix + (seq!['*'] + suffix), text) ==> exists|n: int|
            prefix.len() <= n <= text.len() && text.skip(n) == suffix && #[trigger] text.take(n).take(
                prefix.len() as int,
            ) == prefix && forall|i: int| prefix.len() <= i < n ==> text[i] != '/',
{
    let star = seq!['*'] + suffix;
    assert(star.skip(1) =~= suffix);
    if suffix.len() > 0 {
        assert(star[1] == suffix[0]);
    }
    assert(!has_double_star(star));
    if forall|i: int| 0 <= i < middle.len() ==> middle[i] != '/' {
        let t = prefix + (middle + suffix);
        let rest = middle + suffix;
        literal_beginnings_must_be_there(prefix, star, t);
        assert(t.take(prefix.len() as int) =~= prefix);
        assert(t.skip(prefix.len() as int) =~= rest);
        literal_pattern_matches_itself(suffix, suffix);
        assert(rest.skip(middle.len() as int) =~= suffix);
        assert(no_slash(rest, middle.len() as int));
    }
    if glob_matches(prefix + star, text) {
        literal_beginnings_must_be_there(prefix, star, text);
        let rest = text.skip(prefix.len() as int);
        let k = choose|k: int|
            0 <= k <= rest.len() && no_slash(rest, k) && glob_matches(
                star.skip(1),
                #[trigger] rest.skip(k),
            );
        literal_pattern_matches_itself(suffix, rest.skip(k));
        let n = prefix.len() + k;
        assert(text.skip(n) =~= rest.skip(k));
        assert(text.take(n).take(prefix.len() as int) =~= text.take(prefix.len() as int));
        assert forall|i: int| prefix.len() <= i < n implies text[i] != '/' by {
            assert(rest[i - prefix.len()] == text[i]);
        }
    }
}

/// A `**` between two literal texts stands for any text, slashes included; a
/// slash behind it may be missing.
pub proof fn a_double_star_stands_for_anything(
    prefix: Seq<char>,
    middle: Seq<char>,
    suffix: Seq<char>,
)
    requires
        forall|i: int| 0 <= i < prefix.len() ==> prefix[i] != '*',
        forall|i: int| 0 <= i < suffix.len() ==> suffix[i] != '*',
        suffix.len() > 0,
        suffix[0] != '/',
    ensures
        glob_matches(prefix + (seq!['*', '*'] + suffix), prefix + (middle + suffix)),
        glob_matches(prefix + (seq!['*', '*', '/'] + suffix), prefix + (middle + suffix)),
{
    let t = prefix + (middle + suffix);
    let rest = middle + suffix;
    let a = seq!['*', '*'] + suffix;
    let b = seq!['*', '*', '/'] + suffix;
    assert(t.take(prefix.len() as int) =~= prefix);
    assert(t.skip(prefix.len() as int) =~= rest);
    literal_beginnings_must_be_there(prefix, a, t);
    literal_beginnings_must_be_there(prefix, b, t);
    assert(a.skip(2) =~= suffix);
    assert(b.skip(2)[0] == '/');
    assert(b.skip(2).skip(1) =~= suffix);
    literal_pattern_matches_itself(suffix, suffix);
    assert(rest.skip(middle.len() as int) =~= suffix);
}

/// Whatever a pattern matches, it matches behind a `*` too, with any text without
/// a slash before it.
pub proof fn a_star_may_stand_before_any_pattern(rest: Seq<char>, middle: Seq<char>, text: Seq<char>)
    requires
        rest.len() == 0 || rest[0] != '*',
        forall|i: int| 0 <= i < middle.len() ==> middle[i] != '/',
        glob_matches(rest, text),
    ensures
        glob_matches(seq!['*'] + rest, middle + text),
{
    let p = seq!['*'] + rest;
    let t = middle + text;
    let n = middle.len() as int;
    assert(p.skip(1) =~= rest);
    assert(t.skip(n) =~= text);
    if p.len() >= 2 {
        assert(p[1] == rest[0]);
    }
    assert(no_slash(t, n));
}

/// What matches a `*` and a pattern behind it ends with what the pattern matches,
/// and has no slash before that.
pub proof fn a_star_stands_for_nothing_else(rest: Seq<char>, text: Seq<char>) -> (n: int)
    requires
        rest.len() == 0 || rest[0] != '*',
        glob_matches(seq!['*'] + rest, text),
    ensures
        0 <= n <= text.len(),
        forall|i: int| 0 <= i < n ==> text[i] != '/',
        glob_matches(rest, text.skip(n)),
{
    let p = seq!['*'] + rest;
    assert(p.skip(1) =~= rest);
    if p.len() >= 2 {
        assert(p[1] == rest[0]);
    }
    choose|k: int|
        0 <= k <= text.len() && no_slash(text, k) && glob_matches(p.skip(1), #[trigger] text.skip(k))
}

/// Whatever a pattern matches, it matches behind a `**` too, with or without a
/// slash between them and with any text before it. Alone, `**` matches
/// everything.
pub proof fn a_double_star_may_stand_before_any_pattern(
    rest: Seq<char>,
    middle: Seq<char>,
    text: Seq<char>,
)
    requires
        rest.len() == 0 || rest[0] != '/',
        glob_matches(rest, text),
    ensures
        glob_matches(seq!['*', '*'] + rest, middle + text),
        glob_matches(seq!['*', '*', '/'] + rest, middle + text),
        glob_matches(seq!['*', '*'], middle),
        glob_matches(seq!['*', '*', '/'], middle),
{
    let p = seq!['*', '*'] + rest;
    let q = seq!['*', '*', '/'] + rest;
    let t = middle + text;
    assert(p.skip(2) =~= rest);
    assert(q.skip(2) =~= seq!['/'] + rest);
    assert(q.skip(2).skip(1) =~= rest);
    assert(t.skip(middle.len() as int) =~= text);
    assert(seq!['*', '*'].skip(2) =~= Seq::<char>::empty());
    assert(seq!['*', '*', '/'].skip(2) =~= seq!['/']);
    assert(seq!['*', '*', '/'].skip(2).skip(1) =~= Seq::<char>::empty());
}

/// What matches a `**` and a pattern behind it ends with what the pattern
/// matches.
pub proof fn a_double_star_stands_for_nothing_else(rest: Seq<char>, text: Seq<char>) -> (n: int)
    requires
        rest.len() > 0,
        rest[0] != '/',
        glob_matches(seq!['*', '*'] + rest, text) || glob_matches(seq!['*', '*', '/'] + rest, text),
    ensures
        0 <= n <= text.len(),
        glob_matches(rest, text.skip(n)),
{
    let p = seq!['*', '*'] + rest;
    let q = seq!['*', '*', '/'] + rest;
    assert(p.skip(2) =~= rest);
    assert(q.skip(2) =~= seq!['/'] + rest);
    assert(q.skip(2).skip(1) =~= rest);
    assert(after_double_star(p) == rest && after_double_star(q) == rest);
    choose|k: int| 0 <= k <= text.len() && glob_matches(rest, #[trigger] text.skip(k))
}

} // verus!
