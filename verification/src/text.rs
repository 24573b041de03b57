//! Text primitives that the rest of the library states its contracts with:
//! character sequences, decimal and hexadecimal numerals, trimming, splitting
//! and the order of strings.

use vstd::prelude::*;
use vstd::string::*;

verus! {

/// `String::push`: appends one character.
#[verifier::external_body]
pub(crate) fn push_char(s: &mut String, c: char)
    ensures
        final(s)@ == old(s)@.push(c),
{
    s.push(c)
}

/// The characters of a string, in order.
pub fn chars_of(s: &str) -> (r: Vec<char>)
    ensures
        r@ == s@,
{
    let mut v: Vec<char> = Vec::new();
    for c in it: s.chars()
        invariant
            it.seq() == s@,
            v@ == s@.take(it.index() as int),
    {
        v.push(c);
        assert(v@ =~= s@.take(it.index() as int + 1));
    }
    assert(v@ =~= s@);
    v
}

/// The string made of the characters `from..to` of `chars`.
pub fn string_of(chars: &Vec<char>, from: usize, to: usize) -> (r: String)
    requires
        from <= to <= chars@.len(),
    ensures
        r@ == chars@.subrange(from as int, to as int),
{
    let mut out = String::new();
    let mut i: usize = from;
    while i < to
        invariant
            from <= i <= to <= chars@.len(),
            out@ == chars@.subrange(from as int, i as int),
        decreases to - i,
    {
        push_char(&mut out, chars[i]);
        assert(chars@.subrange(from as int, i as int).push(chars@[i as int]) =~= chars@.subrange(
            from as int,
            i as int + 1,
        ));
        i = i + 1;
    }
    out
}

/// Whether two strings hold the same characters.
pub fn same(a: &str, b: &str) -> (r: bool)
    ensures
        r == (a@ == b@),
{
    a.to_owned() == b.to_owned()
}

/// A copy of a string slice.
pub fn owned(s: &str) -> (r: String)
    ensures
        r@ == s@,
{
    s.to_owned()
}

/// Whether `s` begins with `p`.
pub open spec fn has_prefix(s: Seq<char>, p: Seq<char>) -> bool {
    p.len() <= s.len() && s.take(p.len() as int) == p
}

/// Whether `s` ends with `p`.
pub open spec fn has_suffix(s: Seq<char>, p: Seq<char>) -> bool {
    p.len() <= s.len() && s.skip(s.len() - p.len()) == p
}

/// Whether `p` occurs in `s` at position `at`.
pub open spec fn occurs_at(s: Seq<char>, p: Seq<char>, at: int) -> bool {
    0 <= at && at + p.len() <= s.len() && s.subrange(at, at + p.len()) == p
}

/// Whether the characters `p` stand in `s` at position `at`.
pub fn matches_at(s: &Vec<char>, p: &Vec<char>, at: usize) -> (r: bool)
    requires
        at <= s@.len(),
    ensures
        r == occurs_at(s@, p@, at as int),
{
    if p.len() > s.len() - at {
        return false;
    }
    let n: usize = s.len();
    let mut i: usize = 0;
    while i < p.len()
        invariant
            i <= p@.len(),
            at + p@.len() <= s@.len(),
            n == s@.len(),
            forall|k: int| 0 <= k < i ==> s@[at + k] == p@[k],
        decreases p@.len() - i,
    {
        if s[at + i] != p[i] {
            assert(s@.subrange(at as int, at + p@.len())[i as int] == s@[at + i]);
            return false;
        }
        i = i + 1;
    }
    assert(s@.subrange(at as int, at + p@.len()) =~= p@);
    true
}

/// Whether `s` begins with `p`.
pub fn starts_with(s: &str, p: &str) -> (r: bool)
    ensures
        r == has_prefix(s@, p@),
{
    let sc = chars_of(s);
    let pc = chars_of(p);
    let r = matches_at(&sc, &pc, 0);
    assert(s@.len() >= p@.len() ==> s@.subrange(0, p@.len() as int) =~= s@.take(p@.len() as int));
    r
}

/// Whether `s` ends with `p`.
pub fn ends_with(s: &str, p: &str) -> (r: bool)
    ensures
        r == has_suffix(s@, p@),
{
    let sc = chars_of(s);
    let pc = chars_of(p);
    if pc.len() > sc.len() {
        return false;
    }
    let at: usize = sc.len() - pc.len();
    let r = matches_at(&sc, &pc, at);
    assert(s@.subrange(at as int, at + p@.len()) =~= s@.skip(s@.len() - p@.len()));
    r
}

/// The first position at or after `from` at which `c` stands, or the length.
pub open spec fn index_of_from(s: Seq<char>, c: char, from: int) -> int
    decreases s.len() - from,
{
    if from < 0 || from >= s.len() {
        s.len() as int
    } else if s[from] == c {
        from
    } else {
        index_of_from(s, c, from + 1)
    }
}

pub proof fn lemma_index_of_from(s: Seq<char>, c: char, from: int)
    requires
        0 <= from <= s.len(),
    ensures
        from <= index_of_from(s, c, from) <= s.len(),
        index_of_from(s, c, from) < s.len() ==> s[index_of_from(s, c, from)] == c,
        forall|k: int| from <= k < index_of_from(s, c, from) ==> s[k] != c,
    decreases s.len() - from,
{
    if from < s.len() && s[from] != c {
        lemma_index_of_from(s, c, from + 1);
    }
}

/// The first position of `c` in `chars[from..]`, or the length.
pub fn find_char(chars: &Vec<char>, c: char, from: usize) -> (r: usize)
    requires
        from <= chars@.len(),
    ensures
        r == index_of_from(chars@, c, from as int),
        from <= r <= chars@.len(),
        r < chars@.len() ==> chars@[r as int] == c,
        forall|k: int| from <= k < r ==> chars@[k] != c,
{
    let mut i: usize = from;
    while i < chars.len() && chars[i] != c
        invariant
            from <= i <= chars@.len(),
            index_of_from(chars@, c, i as int) == index_of_from(chars@, c, from as int),
        decreases chars@.len() - i,
    {
        i = i + 1;
    }
    proof {
        lemma_index_of_from(chars@, c, from as int);
        if i < chars@.len() {
            lemma_index_of_from(chars@, c, i as int);
        }
    }
    i
}

/// Splits at the first `c`: the text before it and the text after it.
pub open spec fn split_at_first(s: Seq<char>, c: char) -> Option<(Seq<char>, Seq<char>)> {
    let at = index_of_from(s, c, 0);
    if at < s.len() {
        Some((s.take(at), s.skip(at + 1)))
    } else {
        None
    }
}

/// Splits at the first `c`, if there is one.
pub fn split_once(s: &str, c: char) -> (r: Option<(String, String)>)
    ensures
        match r {
            Some(p) => split_at_first(s@, c) == Some((p.0@, p.1@)),
            None => split_at_first(s@, c) is None,
        },
{
    let chars = chars_of(s);
    let at: usize = find_char(&chars, c, 0);
    if at < chars.len() {
        let a = string_of(&chars, 0, at);
        let n: usize = chars.len();
        let b = string_of(&chars, at + 1, n);
        assert(a@ =~= s@.take(at as int));
        assert(b@ =~= s@.skip(at as int + 1));
        Some((a, b))
    } else {
        None
    }
}

/// The pieces of `s` between occurrences of `c` (one piece more than there are
/// occurrences).
pub open spec fn split_pieces(s: Seq<char>, c: char) -> Seq<Seq<char>>
    decreases s.len(),
{
    let at = index_of_from(s, c, 0);
    if 0 <= at < s.len() {
        seq![s.take(at)] + split_pieces(s.skip(at + 1), c)
    } else {
        seq![s]
    }
}

/// The view of an optional string.
pub open spec fn opt_view(o: Option<String>) -> Option<Seq<char>> {
    match o {
        Some(s) => Some(s@),
        None => None,
    }
}

/// A copy of an optional string.
pub fn opt_clone(o: &Option<String>) -> (r: Option<String>)
    ensures
        r == *o,
        opt_view(r) == opt_view(*o),
{
    match o {
        Some(s) => Some(s.clone()),
        None => None,
    }
}

/// The views of a list of strings.
pub open spec fn views(v: Seq<String>) -> Seq<Seq<char>> {
    v.map_values(|s: String| s@)
}

pub proof fn lemma_views_push(v: Seq<String>, s: String)
    ensures
        views(v.push(s)) == views(v).push(s@),
{
    assert(views(v.push(s)) =~= views(v).push(s@));
}

/// A copy of a list of strings.
pub fn clone_list(v: &Vec<String>) -> (r: Vec<String>)
    ensures
        views(r@) == views(v@),
{
    let mut out: Vec<String> = Vec::new();
    let mut i: usize = 0;
    while i < v.len()
        invariant
            i <= v@.len(),
            out@.len() == i,
            forall|k: int| 0 <= k < i ==> out@[k]@ == v@[k]@,
        decreases v@.len() - i,
    {
        out.push(v[i].clone());
        i = i + 1;
    }
    assert(views(out@) =~= views(v@));
    out
}

/// Whether a list of strings holds `s`.
pub fn list_contains(v: &Vec<String>, s: &str) -> (r: bool)
    ensures
        r == views(v@).contains(s@),
{
    let mut i: usize = 0;
    while i < v.len()
        invariant
            i <= v@.len(),
            forall|k: int| 0 <= k < i ==> views(v@)[k] != s@,
        decreases v@.len() - i,
    {
        if same(v[i].as_str(), s) {
            assert(views(v@)[i as int] == s@);
            return true;
        }
        i = i + 1;
    }
    false
}

/// The pieces of `s` between occurrences of `c`.
pub fn split(s: &str, c: char) -> (r: Vec<String>)
    ensures
        views(r@) == split_pieces(s@, c),
        r@.len() >= 1,
{
    let chars = chars_of(s);
    let mut out: Vec<String> = Vec::new();
    let mut start: usize = 0;
    let n: usize = chars.len();
    assert(chars@.skip(0) =~= chars@);
    assert(views(out@) =~= Seq::<Seq<char>>::empty());
    assert(views(out@) + split_pieces(chars@.skip(0), c) =~= split_pieces(chars@, c));
    loop
        invariant_except_break
            start <= n,
            n == chars@.len(),
            views(out@) + split_pieces(chars@.skip(start as int), c) == split_pieces(chars@, c),
        ensures
            views(out@) == split_pieces(chars@, c),
            out@.len() >= 1,
        decreases n - start,
    {
        let at: usize = find_char(&chars, c, start);
        let piece = string_of(&chars, start, at);
        let ghost rest = chars@.skip(start as int);
        let ghost before = views(out@);
        proof {
            lemma_index_shift(chars@, c, start as int, start as int);
            lemma_views_push(out@, piece);
        }
        out.push(piece);
        if at < n {
            proof {
                assert(rest.take(at - start) =~= piece@);
                assert(rest.skip(at - start + 1) =~= chars@.skip(at as int + 1));
                assert(before.push(piece@) + split_pieces(chars@.skip(at as int + 1), c) =~= before
                    + (seq![piece@] + split_pieces(chars@.skip(at as int + 1), c)));
            }
            start = at + 1;
        } else {
            proof {
                assert(rest =~= piece@);
                assert(before.push(piece@) =~= before + seq![rest]);
            }
            break;
        }
    }
    out
}

proof fn lemma_index_shift(s: Seq<char>, c: char, base: int, from: int)
    requires
        0 <= base <= from <= s.len(),
    ensures
        index_of_from(s.skip(base), c, from - base) == index_of_from(s, c, from) - base,
    decreases s.len() - from,
{
    if from < s.len() && s[from] != c {
        assert(s.skip(base)[from - base] == s[from]);
        lemma_index_shift(s, c, base, from + 1);
    } else if from < s.len() {
        assert(s.skip(base)[from - base] == s[from]);
    }
}

/// A line without the carriage return at its end.
pub open spec fn without_cr(s: Seq<char>) -> Seq<char> {
    if s.len() > 0 && s.last() == '\r' {
        s.drop_last()
    } else {
        s
    }
}

/// The lines of a text. Each but the last ends with a line feed, perhaps after
/// a carriage return; the last may do so.
pub open spec fn lines_of(s: Seq<char>) -> Seq<Seq<char>>
    decreases s.len(),
{
    let at = index_of_from(s, '\n', 0);
    if s.len() == 0 {
        Seq::empty()
    } else if 0 <= at < s.len() {
        seq![without_cr(s.take(at))] + lines_of(s.skip(at + 1))
    } else {
        seq![s]
    }
}

/// The lines of a text.
pub fn lines(s: &str) -> (r: Vec<String>)
    ensures
        views(r@) == lines_of(s@),
{
    let chars = chars_of(s);
    let mut out: Vec<String> = Vec::new();
    let mut start: usize = 0;
    let n: usize = chars.len();
    assert(chars@.skip(0) =~= chars@);
    assert(views(out@) + lines_of(chars@) =~= lines_of(chars@));
    while start < n
        invariant
            start <= n,
            n == chars@.len(),
            views(out@) + lines_of(chars@.skip(start as int)) == lines_of(chars@),
        decreases n - start,
    {
        let at: usize = find_char(&chars, '\n', start);
        let ghost rest = chars@.skip(start as int);
        let ghost before = views(out@);
        proof {
            lemma_index_shift(chars@, '\n', start as int, start as int);
        }
        if at < n {
            let end: usize = if at > start && chars[at - 1] == '\r' {
                at - 1
            } else {
                at
            };
            let line = string_of(&chars, start, end);
            proof {
                lemma_views_push(out@, line);
                let t = rest.take(at - start);
                if at > start {
                    assert(t.last() == chars@[at - 1]);
                    assert(t.drop_last() =~= chars@.subrange(start as int, at - 1));
                }
                assert(t =~= chars@.subrange(start as int, at as int));
                assert(line@ =~= without_cr(t));
                assert(rest.skip(at - start + 1) =~= chars@.skip(at as int + 1));
                assert(before.push(line@) + lines_of(chars@.skip(at as int + 1)) =~= before + (
                seq![line@] + lines_of(chars@.skip(at as int + 1))));
            }
            out.push(line);
            start = at + 1;
        } else {
            let line = string_of(&chars, start, n);
            proof {
                lemma_views_push(out@, line);
                assert(rest =~= line@);
                assert(before.push(line@) =~= before + seq![rest]);
                assert(chars@.skip(n as int) =~= Seq::empty());
                assert(before.push(line@) + lines_of(chars@.skip(n as int)) =~= before.push(line@));
            }
            out.push(line);
            start = n;
        }
    }
    assert(chars@.skip(n as int) =~= Seq::empty());
    assert(views(out@) + lines_of(chars@.skip(n as int)) =~= views(out@));
    out
}

/// The lines of a text as they stand in it, each with its end.
pub open spec fn raw_lines_of(s: Seq<char>) -> Seq<Seq<char>>
    decreases s.len(),
{
    let at = index_of_from(s, '\n', 0);
    if s.len() == 0 {
        Seq::empty()
    } else if 0 <= at < s.len() {
        seq![s.take(at + 1)] + raw_lines_of(s.skip(at + 1))
    } else {
        seq![s]
    }
}

/// The lines of a text as they stand in it.
pub fn raw_lines(s: &str) -> (r: Vec<String>)
    ensures
        views(r@) == raw_lines_of(s@),
{
    let chars = chars_of(s);
    let mut out: Vec<String> = Vec::new();
    let mut start: usize = 0;
    let n: usize = chars.len();
    assert(chars@.skip(0) =~= chars@);
    assert(views(out@) + raw_lines_of(chars@) =~= raw_lines_of(chars@));
    while start < n
        invariant
            start <= n,
            n == chars@.len(),
            views(out@) + raw_lines_of(chars@.skip(start as int)) == raw_lines_of(chars@),
        decreases n - start,
    {
        let at: usize = find_char(&chars, '\n', start);
        let end: usize = if at < n {
            at + 1
        } else {
            n
        };
        let line = string_of(&chars, start, end);
        let ghost rest = chars@.skip(start as int);
        let ghost before = views(out@);
        proof {
            lemma_index_shift(chars@, '\n', start as int, start as int);
            lemma_views_push(out@, line);
            assert(rest.take(end - start) =~= line@);
            assert(rest.skip(end - start) =~= chars@.skip(end as int));
            if at >= n {
                assert(rest =~= line@);
                assert(raw_lines_of(chars@.skip(end as int)) =~= Seq::empty());
            }
            assert(before.push(line@) + raw_lines_of(chars@.skip(end as int)) =~= before + (
            seq![line@] + raw_lines_of(chars@.skip(end as int))));
            assert(raw_lines_of(rest) =~= seq![line@] + raw_lines_of(chars@.skip(end as int)));
        }
        out.push(line);
        start = end;
    }
    assert(chars@.skip(n as int) =~= Seq::empty());
    assert(views(out@) + raw_lines_of(chars@.skip(n as int)) =~= views(out@));
    out
}

/// Texts one behind the other.
pub open spec fn concat(ls: Seq<Seq<char>>) -> Seq<char>
    decreases ls.len(),
{
    if ls.len() == 0 {
        Seq::empty()
    } else {
        concat(ls.drop_last()) + ls.last()
    }
}

/// Whether a text is one line with its end.
pub open spec fn is_ended_line(l: Seq<char>) -> bool {
    l.len() > 0 && l.last() == '\n' && forall|k: int| 0 <= k < l.len() - 1 ==> l[k] != '\n'
}

/// Whether `ls` are lines as they stand in a text: each has its end, but for
/// the last, which may have none.
pub open spec fn are_raw_lines(ls: Seq<Seq<char>>) -> bool {
    &&& forall|i: int| 0 <= i < ls.len() - 1 ==> is_ended_line(#[trigger] ls[i])
    &&& ls.len() > 0 ==> is_ended_line(ls.last()) || (ls.last().len() > 0
        && !ls.last().contains('\n'))
}

/// A text whose last line is ended, followed by another, has the lines of the
/// one and then those of the other.
pub proof fn raw_lines_of_joined_texts(a: Seq<char>, b: Seq<char>)
    requires
        a.len() > 0 ==> a.last() == '\n',
    ensures
        raw_lines_of(a + b) == raw_lines_of(a) + raw_lines_of(b),
    decreases a.len(),
{
    if a.len() == 0 {
        assert(a + b =~= b);
        assert(raw_lines_of(a) + raw_lines_of(b) =~= raw_lines_of(b));
    } else {
        let at = index_of_from(a, '\n', 0);
        lemma_index_bounds(a, '\n', 0);
        assert(at < a.len()) by {
            if at == a.len() {
                assert(a[a.len() - 1] == '\n');
            }
        }
        lemma_index_is(a + b, '\n', at);
        let rest = a.skip(at + 1);
        assert((a + b).take(at + 1) =~= a.take(at + 1));
        assert((a + b).skip(at + 1) =~= rest + b);
        if rest.len() > 0 {
            assert(rest.last() == a.last());
        }
        raw_lines_of_joined_texts(rest, b);
        assert(raw_lines_of(a + b) =~= raw_lines_of(a) + raw_lines_of(b));
    }
}

proof fn lemma_index_bounds(s: Seq<char>, c: char, from: int)
    requires
        0 <= from <= s.len(),
    ensures
        from <= index_of_from(s, c, from) <= s.len(),
        forall|k: int| from <= k < index_of_from(s, c, from) ==> s[k] != c,
        index_of_from(s, c, from) < s.len() ==> s[index_of_from(s, c, from)] == c,
    decreases s.len() - from,
{
    if from < s.len() && s[from] != c {
        lemma_index_bounds(s, c, from + 1);
    }
}

proof fn lemma_index_is(s: Seq<char>, c: char, at: int)
    requires
        0 <= at < s.len(),
        s[at] == c,
        forall|k: int| 0 <= k < at ==> s[k] != c,
    ensures
        index_of_from(s, c, 0) == at,
{
    lemma_index_bounds(s, c, 0);
    let i = index_of_from(s, c, 0);
    if i < at {
        assert(s[i] == c);
    }
}

pub proof fn lemma_concat_join(a: Seq<Seq<char>>, b: Seq<Seq<char>>)
    ensures
        concat(a + b) == concat(a) + concat(b),
    decreases b.len(),
{
    if b.len() == 0 {
        assert(a + b =~= a);
        assert(concat(a) + concat(b) =~= concat(a));
    } else {
        lemma_concat_join(a, b.drop_last());
        assert((a + b).drop_last() =~= a + b.drop_last());
        assert(concat(a + b) =~= concat(a) + concat(b));
    }
}

pub proof fn lemma_concat_ended(ls: Seq<Seq<char>>)
    requires
        forall|i: int| 0 <= i < ls.len() ==> is_ended_line(#[trigger] ls[i]),
    ensures
        concat(ls).len() > 0 ==> concat(ls).last() == '\n',
        ls.len() > 0 ==> concat(ls).len() > 0,
{
    if ls.len() > 0 {
        assert(is_ended_line(ls[ls.len() - 1]));
        assert(concat(ls).last() == ls.last().last());
    }
}

/// The lines of a text, one behind the other, are that text, whatever ends
/// them.
pub proof fn raw_lines_join_back(s: Seq<char>)
    ensures
        concat(raw_lines_of(s)) == s,
        are_raw_lines(raw_lines_of(s)),
        s.len() > 0 ==> raw_lines_of(s).len() > 0,
    decreases s.len(),
{
    assert(concat(Seq::empty()) =~= Seq::<char>::empty());
    if s.len() > 0 {
        let at = index_of_from(s, '\n', 0);
        lemma_index_bounds(s, '\n', 0);
        if at < s.len() {
            let head = s.take(at + 1);
            let rest = s.skip(at + 1);
            raw_lines_join_back(rest);
            let first = seq![head];
            assert(first.drop_last() =~= Seq::empty());
            assert(concat(first) =~= head);
            lemma_concat_join(first, raw_lines_of(rest));
            assert(head + rest =~= s);
            assert(is_ended_line(head)) by {
                assert forall|k: int| 0 <= k < head.len() - 1 implies head[k] != '\n' by {
                    assert(head[k] == s[k]);
                }
            }
            let ls = raw_lines_of(s);
            assert forall|i: int| 0 <= i < ls.len() - 1 implies is_ended_line(#[trigger] ls[i]) by {
                if i > 0 {
                    assert(ls[i] == raw_lines_of(rest)[i - 1]);
                }
            }
            if raw_lines_of(rest).len() > 0 {
                assert(ls.last() == raw_lines_of(rest).last());
            } else {
                assert(ls.last() == head);
            }
        } else {
            assert(seq![s].drop_last() =~= Seq::<Seq<char>>::empty());
            assert(concat(seq![s]) =~= s);
            assert(!s.contains('\n')) by {
                if s.contains('\n') {
                    let k = choose|k: int| 0 <= k < s.len() && s[k] == '\n';
                    assert(s[k] != '\n');
                }
            }
        }
    }
}

/// Lines that stand one behind the other are the lines of that text.
pub proof fn raw_lines_of_concat(ls: Seq<Seq<char>>)
    requires
        are_raw_lines(ls),
    ensures
        raw_lines_of(concat(ls)) == ls,
    decreases ls.len(),
{
    if ls.len() > 0 {
        let below = ls.drop_last();
        let last = ls.last();
        assert forall|i: int| 0 <= i < below.len() implies is_ended_line(#[trigger] below[i]) by {
            assert(below[i] == ls[i]);
        }
        if below.len() > 0 {
            assert(is_ended_line(below[below.len() - 1]));
        }
        raw_lines_of_concat(below);
        lemma_concat_ended(below);
        raw_lines_of_joined_texts(concat(below), last);
        lemma_index_bounds(last, '\n', 0);
        if is_ended_line(last) {
            lemma_index_is(last, '\n', last.len() - 1);
            assert(last.take(last.len() as int) =~= last);
            assert(last.skip(last.len() as int) =~= Seq::empty());
            assert(raw_lines_of(Seq::<char>::empty()) =~= Seq::empty());
            assert(raw_lines_of(last) =~= seq![last]);
        } else {
            let at = index_of_from(last, '\n', 0);
            if at < last.len() {
                assert(last.contains(last[at]));
            }
            assert(raw_lines_of(last) =~= seq![last]);
        }
        assert(raw_lines_of(concat(ls)) =~= ls);
    }
}

/// The strings of `parts` with `sep` between neighbours.
pub open spec fn joined(parts: Seq<Seq<char>>, sep: Seq<char>) -> Seq<char>
    decreases parts.len(),
{
    if parts.len() == 0 {
        Seq::empty()
    } else if parts.len() == 1 {
        parts[0]
    } else {
        joined(parts.drop_last(), sep) + sep + parts.last()
    }
}

/// Joins strings with a separator.
pub fn join(parts: &Vec<String>, sep: &str) -> (r: String)
    ensures
        r@ == joined(views(parts@), sep@),
{
    let mut out = String::new();
    let mut i: usize = 0;
    while i < parts.len()
        invariant
            i <= parts@.len(),
            out@ == joined(views(parts@).take(i as int), sep@),
        decreases parts@.len() - i,
    {
        let ghost vs = views(parts@);
        assert(vs.take(i as int + 1).drop_last() =~= vs.take(i as int));
        assert(vs.take(i as int + 1).last() == parts@[i as int]@);
        if i > 0 {
            out.append(sep);
        } else {
            assert(Seq::<char>::empty() + parts@[0]@ =~= parts@[0]@);
        }
        out.append(parts[i].as_str());
        i = i + 1;
    }
    assert(views(parts@).take(parts@.len() as int) =~= views(parts@));
    out
}

/// The Unicode property `White_Space`.
pub open spec fn is_space(c: char) -> bool {
    ('\u{9}' <= c && c <= '\u{d}') || c == ' ' || c == '\u{85}' || c == '\u{a0}' || c == '\u{1680}'
        || ('\u{2000}' <= c && c <= '\u{200a}') || c == '\u{2028}' || c == '\u{2029}' || c
        == '\u{202f}' || c == '\u{205f}' || c == '\u{3000}'
}

/// Whether a character is white space, as Unicode defines it.
pub fn is_whitespace(c: char) -> (r: bool)
    ensures
        r == is_space(c),
{
    ('\u{9}' <= c && c <= '\u{d}') || c == ' ' || c == '\u{85}' || c == '\u{a0}' || c == '\u{1680}'
        || ('\u{2000}' <= c && c <= '\u{200a}') || c == '\u{2028}' || c == '\u{2029}' || c
        == '\u{202f}' || c == '\u{205f}' || c == '\u{3000}'
}

/// `s` without leading white space.
pub open spec fn trim_start_of(s: Seq<char>) -> Seq<char>
    decreases s.len(),
{
    if s.len() > 0 && is_space(s[0]) {
        trim_start_of(s.skip(1))
    } else {
        s
    }
}

/// `s` without trailing white space.
pub open spec fn trim_end_of(s: Seq<char>) -> Seq<char>
    decreases s.len(),
{
    if s.len() > 0 && is_space(s.last()) {
        trim_end_of(s.drop_last())
    } else {
        s
    }
}

/// `s` without leading and trailing white space.
pub open spec fn trimmed(s: Seq<char>) -> Seq<char> {
    trim_end_of(trim_start_of(s))
}

/// The end of a line does not matter to what is left of it.
pub proof fn lemma_trimmed_line(l: Seq<char>)
    ensures
        trimmed(l.push('\n')) == trimmed(l),
    decreases l.len(),
{
    let m = l.push('\n');
    if l.len() == 0 {
        assert(m.skip(1) =~= l);
    } else if is_space(l[0]) {
        assert(m[0] == l[0]);
        assert(m.skip(1) =~= l.skip(1).push('\n'));
        lemma_trimmed_line(l.skip(1));
    } else {
        assert(m[0] == l[0]);
        assert(m.drop_last() =~= l);
    }
}

/// Cuts white space from both ends.
pub fn trim(s: &str) -> (r: String)
    ensures
        r@ == trimmed(s@),
{
    let chars = chars_of(s);
    let n: usize = chars.len();
    let mut a: usize = 0;
    assert(chars@.skip(0) =~= chars@);
    while a < n && is_whitespace(chars[a])
        invariant
            a <= n == chars@.len(),
            trim_start_of(chars@.skip(a as int)) == trim_start_of(chars@),
        decreases n - a,
    {
        assert(chars@.skip(a as int).skip(1) =~= chars@.skip(a as int + 1));
        a = a + 1;
    }
    let ghost t = chars@.skip(a as int);
    assert(trim_start_of(chars@) == t);
    let mut b: usize = n;
    assert(chars@.subrange(a as int, n as int) =~= t);
    while b > a && is_whitespace(chars[b - 1])
        invariant
            a <= b <= n == chars@.len(),
            trim_end_of(chars@.subrange(a as int, b as int)) == trim_end_of(t),
        decreases b,
    {
        assert(chars@.subrange(a as int, b as int).drop_last() =~= chars@.subrange(
            a as int,
            b as int - 1,
        ));
        b = b - 1;
    }
    string_of(&chars, a, b)
}

/// The finished words of `s`, and the word that `s` ends in the middle of.
pub open spec fn words_and_rest(s: Seq<char>) -> (Seq<Seq<char>>, Seq<char>)
    decreases s.len(),
{
    if s.len() == 0 {
        (Seq::empty(), Seq::empty())
    } else {
        let (words, rest) = words_and_rest(s.drop_last());
        if !is_space(s.last()) {
            (words, rest.push(s.last()))
        } else if rest.len() > 0 {
            (words.push(rest), Seq::empty())
        } else {
            (words, rest)
        }
    }
}

/// The words of `s`: its longest runs of characters that are not white space.
pub open spec fn words_of(s: Seq<char>) -> Seq<Seq<char>> {
    let (words, rest) = words_and_rest(s);
    if rest.len() > 0 {
        words.push(rest)
    } else {
        words
    }
}

/// The words of a string.
pub fn split_words(s: &str) -> (r: Vec<String>)
    ensures
        views(r@) == words_of(s@),
{
    let chars = chars_of(s);
    let mut out: Vec<String> = Vec::new();
    let mut cur = String::new();
    let mut i: usize = 0;
    assert(views(out@) =~= Seq::empty());
    assert(cur@ =~= Seq::empty());
    while i < chars.len()
        invariant
            i <= chars@.len(),
            words_and_rest(chars@.take(i as int)) == (views(out@), cur@),
        decreases chars@.len() - i,
    {
        proof {
            assert(chars@.take(i as int + 1).drop_last() =~= chars@.take(i as int));
            assert(chars@.take(i as int + 1).last() == chars@[i as int]);
        }
        if !is_whitespace(chars[i]) {
            push_char(&mut cur, chars[i]);
        } else if !cur.as_str().is_empty() {
            proof {
                lemma_views_push(out@, cur);
            }
            out.push(cur);
            cur = String::new();
            assert(cur@ =~= Seq::empty());
        }
        i = i + 1;
    }
    assert(chars@.take(chars@.len() as int) =~= s@);
    if !cur.as_str().is_empty() {
        proof {
            lemma_views_push(out@, cur);
        }
        out.push(cur);
    }
    out
}

/// Whether `p` occurs in `s`.
pub open spec fn contains_text(s: Seq<char>, p: Seq<char>) -> bool {
    exists|at: int| occurs_at(s, p, at)
}

/// Whether `p` occurs in `s`.
pub fn contains(s: &str, p: &str) -> (r: bool)
    ensures
        r == contains_text(s@, p@),
{
    let sc = chars_of(s);
    let pc = chars_of(p);
    let n: usize = sc.len();
    let mut i: usize = 0;
    loop
        invariant
            i <= n == sc@.len(),
            sc@ == s@,
            pc@ == p@,
            forall|at: int| 0 <= at < i ==> !occurs_at(s@, p@, at),
        decreases n - i,
    {
        if matches_at(&sc, &pc, i) {
            assert(occurs_at(s@, p@, i as int));
            return true;
        }
        if i == n {
            assert forall|at: int| !occurs_at(s@, p@, at) by {
                if at > n {
                    assert(at + p@.len() > s@.len());
                }
            }
            return false;
        }
        i = i + 1;
    }
}

/// The decimal digit of `d`.
pub open spec fn digit_char(d: nat) -> char {
    (48 + d) as u8 as char
}

/// The decimal numeral of `n`.
pub open spec fn decimal(n: nat) -> Seq<char>
    decreases n,
{
    if n < 10 {
        seq![digit_char(n)]
    } else {
        decimal(n / 10).push(digit_char(n % 10))
    }
}

/// The decimal numeral of a number.
pub fn decimal_string(n: u64) -> (r: String)
    ensures
        r@ == decimal(n as nat),
    decreases n,
{
    if n < 10 {
        let mut s = String::new();
        push_char(&mut s, (48u8 + n as u8) as char);
        assert(s@ =~= seq![digit_char(n as nat)]);
        s
    } else {
        let mut s = decimal_string(n / 10);
        push_char(&mut s, (48u8 + (n % 10) as u8) as char);
        s
    }
}

/// The decimal numeral of an integer.
pub open spec fn signed_decimal(n: int) -> Seq<char> {
    if n >= 0 {
        decimal(n as nat)
    } else {
        "-"@ + decimal((-n) as nat)
    }
}

/// The decimal numeral of an integer.
pub fn signed_string(n: i64) -> (r: String)
    ensures
        r@ == signed_decimal(n as int),
{
    if n >= 0 {
        decimal_string(n as u64)
    } else {
        let mut s = owned("-");
        let m: u64 = (-(n + 1)) as u64;
        s.append(decimal_string(m + 1).as_str());
        s
    }
}

/// The number that a sequence of decimal digits writes.
pub open spec fn digits_value(s: Seq<char>) -> Option<nat>
    decreases s.len(),
{
    if s.len() == 0 {
        Some(0)
    } else {
        match digits_value(s.drop_last()) {
            Some(n) => if '0' <= s.last() && s.last() <= '9' {
                Some((n * 10 + (s.last() as u32 - 48)) as nat)
            } else {
                None
            },
            None => None,
        }
    }
}

/// The number that a text writes: digits, perhaps behind a plus sign, within
/// the range of `u64`.
pub open spec fn parsed_u64(s: Seq<char>) -> Option<u64> {
    let t = if s.len() > 0 && s[0] == '+' {
        s.skip(1)
    } else {
        s
    };
    match digits_value(t) {
        Some(n) => if t.len() > 0 && n <= u64::MAX {
            Some(n as u64)
        } else {
            None
        },
        None => None,
    }
}

proof fn lemma_digits_value_grows(s: Seq<char>, n: int)
    requires
        0 <= n <= s.len(),
    ensures
        digits_value(s.take(n)) is None ==> digits_value(s) is None,
        digits_value(s.take(n)) is Some && digits_value(s) is Some ==> digits_value(s.take(n))->0
            <= digits_value(s)->0,
    decreases s.len(),
{
    if n == s.len() {
        assert(s.take(n) =~= s);
    } else {
        lemma_digits_value_grows(s.drop_last(), n);
        assert(s.drop_last().take(n) =~= s.take(n));
    }
}

/// Reads a number from a text.
pub fn parse_u64(s: &str) -> (r: Option<u64>)
    ensures
        r == parsed_u64(s@),
{
    let chars = chars_of(s);
    let start: usize = if chars.len() > 0 && chars[0] == '+' {
        1
    } else {
        0
    };
    let ghost t = if start == 1 {
        s@.skip(1)
    } else {
        s@
    };
    if chars.len() == start {
        return None;
    }
    let mut n: u64 = 0;
    let mut i: usize = start;
    assert(t.take(0) =~= Seq::empty());
    while i < chars.len()
        invariant
            start <= i <= chars@.len(),
            start <= 1,
            chars@ == s@,
            t == (if start == 1 {
                s@.skip(1)
            } else {
                s@
            }),
            t.len() == s@.len() - start,
            parsed_u64(s@) == (match digits_value(t) {
                Some(n) => if t.len() > 0 && n <= u64::MAX {
                    Some(n as u64)
                } else {
                    None
                },
                None => None,
            }),
            digits_value(t.take(i - start)) == Some(n as nat),
        decreases chars@.len() - i,
    {
        let c: char = chars[i];
        let ghost k = i - start;
        proof {
            assert(t[k] == c);
            assert(t.take(k + 1).drop_last() =~= t.take(k));
            assert(t.take(k + 1).last() == c);
            lemma_digits_value_grows(t, k + 1);
        }
        if c < '0' || c > '9' {
            return None;
        }
        let d: u64 = (c as u32 - 48) as u64;
        if n > 1844674407370955161 || (n == 1844674407370955161 && d > 5) {
            assert(n * 10 + d > u64::MAX);
            return None;
        }
        n = n * 10 + d;
        i = i + 1;
    }
    assert(t.take(t.len() as int) =~= t);
    Some(n)
}

/// The lower-case hexadecimal digit of `d`.
pub open spec fn hex_char(d: nat) -> char {
    if d < 10 {
        (48 + d) as u8 as char
    } else {
        (87 + d) as u8 as char
    }
}

/// The lower-case hexadecimal digit of a nibble.
pub fn hex_digit(d: u8) -> (r: char)
    requires
        d < 16,
    ensures
        r == hex_char(d as nat),
{
    if d < 10 {
        (48u8 + d) as char
    } else {
        (87u8 + d) as char
    }
}

/// Two lower-case hexadecimal digits for each byte.
pub open spec fn hex_of(bytes: Seq<u8>) -> Seq<char> {
    Seq::new(
        2 * bytes.len(),
        |i: int|
            if i % 2 == 0 {
                hex_char((bytes[i / 2] / 16) as nat)
            } else {
                hex_char((bytes[i / 2] % 16) as nat)
            },
    )
}

/// Writes bytes in lower-case hexadecimal.
pub fn hex_string(bytes: &[u8]) -> (r: String)
    ensures
        r@ == hex_of(bytes@),
{
    let mut s = String::new();
    let mut i: usize = 0;
    assert(s@ =~= hex_of(bytes@.take(0)));
    while i < bytes.len()
        invariant
            i <= bytes@.len(),
            s@ == hex_of(bytes@.take(i as int)),
        decreases bytes@.len() - i,
    {
        let b: u8 = bytes[i];
        push_char(&mut s, hex_digit(b / 16));
        push_char(&mut s, hex_digit(b % 16));
        assert(s@ =~= hex_of(bytes@.take(i as int + 1)));
        i = i + 1;
    }
    assert(bytes@.take(bytes@.len() as int) =~= bytes@);
    s
}

/// The order of strings by code points, which is also the order of their
/// UTF-8 bytes.
pub open spec fn text_lt(a: Seq<char>, b: Seq<char>) -> bool
    decreases a.len(),
{
    if b.len() == 0 {
        false
    } else if a.len() == 0 {
        true
    } else if a[0] != b[0] {
        a[0] < b[0]
    } else {
        text_lt(a.skip(1), b.skip(1))
    }
}

/// Whether `a` comes before `b`.
pub fn less(a: &str, b: &str) -> (r: bool)
    ensures
        r == text_lt(a@, b@),
{
    let x = chars_of(a);
    let y = chars_of(b);
    let mut i: usize = 0;
    assert(x@.skip(0) =~= x@);
    assert(y@.skip(0) =~= y@);
    while i < x.len() && i < y.len() && x[i] == y[i]
        invariant
            i <= x@.len(),
            i <= y@.len(),
            text_lt(x@.skip(i as int), y@.skip(i as int)) == text_lt(x@, y@),
        decreases x@.len() - i,
    {
        assert(x@.skip(i as int).skip(1) =~= x@.skip(i as int + 1));
        assert(y@.skip(i as int).skip(1) =~= y@.skip(i as int + 1));
        i = i + 1;
    }
    if i >= y.len() {
        false
    } else if i >= x.len() {
        true
    } else {
        x[i] < y[i]
    }
}

/// No string comes before itself.
pub proof fn text_lt_irreflexive(a: Seq<char>)
    ensures
        !text_lt(a, a),
    decreases a.len(),
{
    if a.len() > 0 {
        text_lt_irreflexive(a.skip(1));
    }
}

/// Of two different strings, exactly one comes first.
pub proof fn text_lt_total(a: Seq<char>, b: Seq<char>)
    ensures
        a == b || text_lt(a, b) || text_lt(b, a),
        !(text_lt(a, b) && text_lt(b, a)),
        a == b ==> !text_lt(a, b),
    decreases a.len(),
{
    if a.len() > 0 && b.len() > 0 {
        if a[0] == b[0] {
            text_lt_total(a.skip(1), b.skip(1));
            if a.skip(1) == b.skip(1) {
                assert(a =~= seq![a[0]] + a.skip(1));
                assert(b =~= seq![b[0]] + b.skip(1));
            }
        }
    } else {
        if a.len() == 0 && b.len() == 0 {
            assert(a =~= b);
        }
    }
}

/// The order of strings is transitive.
pub proof fn text_lt_transitive(a: Seq<char>, b: Seq<char>, c: Seq<char>)
    requires
        text_lt(a, b),
        text_lt(b, c),
    ensures
        text_lt(a, c),
    decreases a.len(),
{
    if a.len() > 0 && b.len() > 0 && c.len() > 0 {
        if a[0] == b[0] && b[0] == c[0] {
            text_lt_transitive(a.skip(1), b.skip(1), c.skip(1));
        }
    }
}

/// The first `max` characters, followed by an ellipsis where something was cut.
pub open spec fn ellipsized(s: Seq<char>, max: nat) -> Seq<char> {
    if s.len() <= max {
        s
    } else {
        s.take(max as int).push('…')
    }
}

/// Cuts a string to `max` characters and marks the cut.
pub fn truncate(s: &str, max: usize) -> (r: String)
    ensures
        r@ == ellipsized(s@, max as nat),
{
    let chars = chars_of(s);
    if chars.len() <= max {
        owned(s)
    } else {
        let mut out = string_of(&chars, 0, max);
        assert(out@ =~= s@.take(max as int));
        push_char(&mut out, '…');
        out
    }
}

/// Whether strings stand in strict order.
pub open spec fn in_text_order(v: Seq<Seq<char>>) -> bool {
    forall|i: int, j: int| 0 <= i < j < v.len() ==> text_lt(#[trigger] v[i], #[trigger] v[j])
}

/// Adds a string to a list in strict order, unless it is there.
pub fn add_sorted(v: &mut Vec<String>, s: String)
    requires
        in_text_order(views(old(v)@)),
    ensures
        in_text_order(views(final(v)@)),
        forall|k: Seq<char>| #[trigger]
            views(final(v)@).contains(k) <==> (k == s@ || views(old(v)@).contains(k)),
{
    let ghost b = views(v@);
    let mut i: usize = 0;
    while i < v.len() && less(v[i].as_str(), s.as_str())
        invariant
            i <= v@.len(),
            b == views(v@),
            forall|k: int| 0 <= k < i ==> text_lt(#[trigger] b[k], s@),
        decreases v@.len() - i,
    {
        assert(b[i as int] == v@[i as int]@);
        i = i + 1;
    }
    if i < v.len() && same(v[i].as_str(), s.as_str()) {
        assert(b[i as int] == s@);
        return ;
    }
    let ghost s0 = s@;
    v.insert(i, s);
    proof {
        let a = views(v@);
        assert(a =~= b.insert(i as int, s0));
        if i < b.len() {
            text_lt_total(b[i as int], s0);
        }
        assert forall|x: int, y: int| 0 <= x < y < a.len() implies text_lt(
            #[trigger] a[x],
            #[trigger] a[y],
        ) by {
            if y == i {
                assert(a[x] == b[x]);
            } else if x == i {
                assert(a[y] == b[y - 1]);
                if y - 1 > i {
                    text_lt_transitive(s0, b[i as int], b[y - 1]);
                }
            } else {
                let x2 = if x < i { x } else { x - 1 };
                let y2 = if y < i { y } else { y - 1 };
                assert(a[x] == b[x2] && a[y] == b[y2]);
            }
        }
        assert forall|k: Seq<char>| #[trigger] a.contains(k) <==> (k == s0 || b.contains(k)) by {
            if a.contains(k) {
                let x = choose|x: int| 0 <= x < a.len() && a[x] == k;
                if x < i {
                    assert(b[x] == k);
                } else if x > i {
                    assert(b[x - 1] == k);
                }
            }
            if b.contains(k) {
                let x = choose|x: int| 0 <= x < b.len() && b[x] == k;
                if x < i {
                    assert(a[x] == k);
                } else {
                    assert(a[x + 1] == k);
                }
            }
            if k == s0 {
                assert(a[i as int] == k);
            }
        }
    }
}

/// The debug notation of a string: quoted, with escapes.
pub uninterp spec fn debug_str_of(s: Seq<char>) -> Seq<char>;

/// The `{:?}` notation of std for a string: the text in double quotes, with
/// what needs it escaped.
#[verifier::external_body]
pub(crate) fn debug_str(s: &str) -> (r: String)
    ensures
        r@ == debug_str_of(s@),
{
    format!("{:?}", s)
}

/// The debug notation of a list of strings.
pub open spec fn debug_list_of(parts: Seq<Seq<char>>) -> Seq<char> {
    "["@ + joined(parts.map_values(|p: Seq<char>| debug_str_of(p)), ", "@) + "]"@
}

/// The debug notation of a list of strings: `["a", "b"]`.
pub fn debug_list(parts: &Vec<String>) -> (r: String)
    ensures
        r@ == debug_list_of(views(parts@)),
{
    let mut quoted: Vec<String> = Vec::new();
    let mut i: usize = 0;
    while i < parts.len()
        invariant
            i <= parts@.len(),
            quoted@.len() == i,
            forall|k: int| 0 <= k < i ==> quoted@[k]@ == debug_str_of(parts@[k]@),
        decreases parts@.len() - i,
    {
        quoted.push(debug_str(parts[i].as_str()));
        i = i + 1;
    }
    assert(views(quoted@) =~= views(parts@).map_values(|p: Seq<char>| debug_str_of(p)));
    let mut s = owned("[");
    s.append(join(&quoted, ", ").as_str());
    s.append("]");
    s
}

/// `str::to_lowercase`, by code points.
pub uninterp spec fn lowercase_of(s: Seq<char>) -> Seq<char>;

/// The lower-case form of an ASCII character.
pub open spec fn ascii_lower(c: char) -> char {
    if 'A' <= c && c <= 'Z' {
        ((c as u8) + 32) as u8 as char
    } else {
        c
    }
}

/// `str::to_lowercase`: the Unicode lower-case mapping of the whole string.
/// On a string of ASCII characters it maps the letters `A` to `Z` and keeps
/// every other character.
#[verifier::external_body]
pub(crate) fn to_lowercase(s: &str) -> (r: String)
    ensures
        r@ == lowercase_of(s@),
        vstd::utf8::is_ascii_chars(s@) ==> r@ == s@.map_values(|c: char| ascii_lower(c)),
{
    s.to_lowercase()
}

/// `str::to_uppercase`, by code points.
pub uninterp spec fn uppercase_of(s: Seq<char>) -> Seq<char>;

/// The upper-case form of an ASCII character.
pub open spec fn ascii_upper(c: char) -> char {
    if 'a' <= c && c <= 'z' {
        ((c as u8) - 32) as u8 as char
    } else {
        c
    }
}

/// `str::to_uppercase`: the Unicode upper-case mapping of the whole string.
/// On a string of ASCII characters it maps the letters `a` to `z` and keeps
/// every other character.
#[verifier::external_body]
pub(crate) fn to_uppercase(s: &str) -> (r: String)
    ensures
        r@ == uppercase_of(s@),
        vstd::utf8::is_ascii_chars(s@) ==> r@ == s@.map_values(|c: char| ascii_upper(c)),
{
    s.to_uppercase()
}

/// `String::from_utf8_lossy`, by code points.
pub uninterp spec fn utf8_lossy_of(bytes: Seq<u8>) -> Seq<char>;

/// `String::from_utf8_lossy`: the text that bytes encode, with a replacement
/// character for what is not UTF-8. Valid UTF-8 is decoded as it stands.
#[verifier::external_body]
pub(crate) fn utf8_lossy(bytes: &[u8]) -> (r: String)
    ensures
        r@ == utf8_lossy_of(bytes@),
        vstd::utf8::valid_utf8(bytes@) ==> r@ == vstd::utf8::decode_utf8(bytes@),
{
    String::from_utf8_lossy(bytes).into_owned()
}

/// What `std::str::from_utf8` says of bytes that are not UTF-8.
pub uninterp spec fn utf8_error_of(bytes: Seq<u8>) -> Seq<char>;

/// `std::str::from_utf8`: the text that bytes encode, where they are UTF-8, and
/// otherwise the message of its error.
#[verifier::external_body]
pub(crate) fn utf8_text(bytes: &[u8]) -> (r: Result<String, String>)
    ensures
        match r {
            Ok(s) => vstd::utf8::valid_utf8(bytes@) && s@ == vstd::utf8::decode_utf8(bytes@),
            Err(e) => !vstd::utf8::valid_utf8(bytes@) && e@ == utf8_error_of(bytes@),
        },
{
    std::str::from_utf8(bytes).map(|s| s.to_string()).map_err(|e| e.to_string())
}

/// A text that holds a character is split where it first stands, and nothing
/// but that one character is lost.
pub proof fn texts_are_split_at_the_first(s: Seq<char>, c: char)
    ensures
        split_at_first(s, c) is Some <==> s.contains(c),
        split_at_first(s, c) matches Some(p) ==> s == p.0.push(c) + p.1 && !p.0.contains(c),
{
    lemma_index_bounds(s, c, 0);
    let at = index_of_from(s, c, 0);
    if at < s.len() {
        assert(s[at] == c);
        assert(s =~= s.take(at).push(c) + s.skip(at + 1));
    }
}

/// Pieces hold no separator, and with a separator between each two they are
/// the text again.
pub proof fn pieces_join_back(s: Seq<char>, c: char)
    ensures
        split_pieces(s, c).len() > 0,
        forall|i: int| 0 <= i < split_pieces(s, c).len() ==> !(#[trigger] split_pieces(s, c)[i]).contains(c),
        joined(split_pieces(s, c), seq![c]) == s,
    decreases s.len(),
{
    let at = index_of_from(s, c, 0);
    let all = split_pieces(s, c);
    lemma_index_bounds(s, c, 0);
    if at < s.len() {
        let rest = split_pieces(s.skip(at + 1), c);
        pieces_join_back(s.skip(at + 1), c);
        joined_texts_stand_in_order(seq![s.take(at)], rest, seq![c]);
        assert(s =~= s.take(at) + seq![c] + s.skip(at + 1));
        assert forall|i: int| 0 <= i < all.len() implies !(#[trigger] all[i]).contains(c) by {
            if i > 0 {
                assert(all[i] == rest[i - 1]);
            }
        }
    }
}

/// Texts that are joined stand in their order, with the separator between two
/// and nowhere else.
pub proof fn joined_texts_stand_in_order(a: Seq<Seq<char>>, b: Seq<Seq<char>>, sep: Seq<char>)
    requires
        a.len() > 0,
        b.len() > 0,
    ensures
        joined(a + b, sep) == joined(a, sep) + sep + joined(b, sep),
        a.len() == 1 ==> joined(a, sep) == a[0],
        joined(Seq::empty(), sep) == Seq::<char>::empty(),
    decreases b.len(),
{
    assert((a + b).drop_last() =~= a + b.drop_last());
    if b.len() == 1 {
        assert(a + b.drop_last() =~= a);
    } else {
        joined_texts_stand_in_order(a, b.drop_last(), sep);
        assert(joined(a + b, sep) =~= joined(a, sep) + sep + joined(b, sep));
    }
}

/// The lines of a text are what stands between the line feeds. A carriage
/// return before a line feed belongs to neither line, and an empty rest is no
/// line.
pub proof fn lines_end_at_line_feeds(line: Seq<char>, rest: Seq<char>)
    requires
        !line.contains('\n'),
        line.len() > 0 ==> line.last() != '\r',
    ensures
        lines_of(line.push('\n') + rest) == seq![line] + lines_of(rest),
        lines_of(line.push('\r').push('\n') + rest) == seq![line] + lines_of(rest),
        lines_of(line) == (if line.len() > 0 {
            seq![line]
        } else {
            Seq::empty()
        }),
        lines_of(line.push('\r')) == seq![line.push('\r')],
{
    let a = line.push('\n') + rest;
    let n = line.len() as int;
    assert forall|k: int| 0 <= k < n implies line[k] != '\n' by {
        assert(line.contains(line[k]));
    }
    lemma_index_is(a, '\n', n);
    assert(a.take(n) =~= line);
    assert(a.skip(n + 1) =~= rest);
    let b = line.push('\r').push('\n') + rest;
    lemma_index_is(b, '\n', n + 1);
    assert(b.take(n + 1) =~= line.push('\r'));
    assert(line.push('\r').drop_last() =~= line);
    assert(b.skip(n + 2) =~= rest);
    lemma_index_bounds(line, '\n', 0);
    lemma_index_bounds(line.push('\r'), '\n', 0);
}

/// The characters that are white space.
pub proof fn white_space_is_known(c: char)
    ensures
        is_space(c) <==> {
            let n = c as u32;
            ||| 9 <= n <= 13
            ||| n == 32
            ||| n == 133
            ||| n == 160
            ||| n == 5760
            ||| 8192 <= n <= 8202
            ||| n == 8232
            ||| n == 8233
            ||| n == 8239
            ||| n == 8287
            ||| n == 12288
        },
{
}

proof fn lemma_trim_start(s: Seq<char>) -> (n: int)
    ensures
        0 <= n <= s.len(),
        trim_start_of(s) == s.skip(n),
        forall|k: int| 0 <= k < n ==> is_space(#[trigger] s[k]),
        n < s.len() ==> !is_space(s[n]),
    decreases s.len(),
{
    if s.len() > 0 && is_space(s[0]) {
        let m = lemma_trim_start(s.skip(1));
        assert(s.skip(1).skip(m) =~= s.skip(m + 1));
        assert forall|k: int| 0 <= k < m + 1 implies is_space(#[trigger] s[k]) by {
            if k > 0 {
                assert(s.skip(1)[k - 1] == s[k]);
            }
        }
        m + 1
    } else {
        assert(s.skip(0) =~= s);
        0
    }
}

proof fn lemma_trim_end(s: Seq<char>) -> (n: int)
    ensures
        0 <= n <= s.len(),
        trim_end_of(s) == s.take(n),
        forall|k: int| n <= k < s.len() ==> is_space(#[trigger] s[k]),
        n > 0 ==> !is_space(s[n - 1]),
    decreases s.len(),
{
    if s.len() > 0 && is_space(s.last()) {
        let m = lemma_trim_end(s.drop_last());
        assert(s.drop_last().take(m) =~= s.take(m));
        assert forall|k: int| m <= k < s.len() implies is_space(#[trigger] s[k]) by {
            if k < s.len() - 1 {
                assert(s.drop_last()[k] == s[k]);
            }
        }
        m
    } else {
        assert(s.take(s.len() as int) =~= s);
        s.len() as int
    }
}

/// What is trimmed off is the white space at the two ends, all of it and
/// nothing else.
pub proof fn white_space_is_trimmed(s: Seq<char>)
    ensures
        trimmed(s).len() > 0 ==> !is_space(trimmed(s)[0]) && !is_space(trimmed(s).last()),
        exists|a: Seq<char>, b: Seq<char>|
            s == #[trigger] (a + trimmed(s) + b) && (forall|k: int|
                0 <= k < a.len() ==> is_space(#[trigger] a[k])) && (forall|k: int|
                0 <= k < b.len() ==> is_space(#[trigger] b[k])),
{
    let n = lemma_trim_start(s);
    let t = s.skip(n);
    let m = lemma_trim_end(t);
    let a = s.take(n);
    let b = t.skip(m);
    assert(s =~= a + trimmed(s) + b);
    assert forall|k: int| 0 <= k < a.len() implies is_space(#[trigger] a[k]) by {
        assert(a[k] == s[k]);
    }
    assert forall|k: int| 0 <= k < b.len() implies is_space(#[trigger] b[k]) by {
        assert(b[k] == t[m + k]);
    }
    if m > 0 {
        assert(trimmed(s)[0] == s[n]);
        assert(trimmed(s).last() == t[m - 1]);
    }
}

proof fn lemma_words_after_space(a: Seq<char>, sp: char, b: Seq<char>)
    requires
        is_space(sp),
    ensures
        ({
            let (words, rest) = words_and_rest(a.push(sp) + b);
            let (bw, br) = words_and_rest(b);
            &&& words == words_of(a) + bw
            &&& rest == br
        }),
    decreases b.len(),
{
    let s = a.push(sp) + b;
    if b.len() == 0 {
        assert(s.drop_last() =~= a);
        assert(s.last() == sp);
        assert(words_of(a) + Seq::<Seq<char>>::empty() =~= words_of(a));
    } else {
        lemma_words_after_space(a, sp, b.drop_last());
        assert(s.drop_last() =~= a.push(sp) + b.drop_last());
        assert(s.last() == b.last());
        let (words, rest) = words_and_rest(s);
        let (bw, br) = words_and_rest(b);
        assert(words =~= words_of(a) + bw);
    }
}

/// White space parts words: those before it, then those behind it.
pub proof fn white_space_parts_words(a: Seq<char>, sp: char, b: Seq<char>)
    requires
        is_space(sp),
    ensures
        words_of(a.push(sp) + b) == words_of(a) + words_of(b),
{
    lemma_words_after_space(a, sp, b);
    assert(words_of(a.push(sp) + b) =~= words_of(a) + words_of(b));
}

/// A text without white space is one word, and an empty one is none.
pub proof fn unbroken_texts_are_one_word(s: Seq<char>)
    requires
        forall|k: int| 0 <= k < s.len() ==> !is_space(#[trigger] s[k]),
    ensures
        words_of(s) == (if s.len() > 0 {
            seq![s]
        } else {
            Seq::empty()
        }),
{
    lemma_unbroken(s);
    assert(words_of(s) =~= (if s.len() > 0 {
        seq![s]
    } else {
        Seq::empty()
    }));
}

proof fn lemma_unbroken(s: Seq<char>)
    requires
        forall|k: int| 0 <= k < s.len() ==> !is_space(#[trigger] s[k]),
    ensures
        words_and_rest(s) == (Seq::<Seq<char>>::empty(), s),
    decreases s.len(),
{
    if s.len() > 0 {
        lemma_unbroken(s.drop_last());
        assert(!is_space(s[s.len() - 1]));
        assert(s.drop_last().push(s.last()) =~= s);
    } else {
        assert(s =~= Seq::<char>::empty());
    }
}

proof fn lemma_decimal_value(n: nat)
    ensures
        digits_value(decimal(n)) == Some(n),
        decimal(n).len() > 0,
        '0' <= decimal(n)[0] <= '9',
        n > 0 ==> decimal(n)[0] != '0',
    decreases n,
{
    assert(digits_value(Seq::empty()) == Some(0nat));
    let d = decimal(n);
    if n < 10 {
        assert(d.drop_last() =~= Seq::<char>::empty());
    } else {
        lemma_decimal_value(n / 10);
        assert(d.drop_last() =~= decimal(n / 10));
        assert(d[0] == decimal(n / 10)[0]);
    }
}

/// A number that is written out is read back, with a sign before it or
/// without. It has no zeros before it.
pub proof fn numbers_read_back(n: u64)
    ensures
        parsed_u64(decimal(n as nat)) == Some(n),
        parsed_u64(seq!['+'] + decimal(n as nat)) == Some(n),
        n > 0 ==> decimal(n as nat)[0] != '0',
{
    lemma_decimal_value(n as nat);
    assert((seq!['+'] + decimal(n as nat)).skip(1) =~= decimal(n as nat));
}

/// A digit more makes ten times the number and the digit.
pub proof fn digits_count_in_tens(s: Seq<char>, d: u64)
    requires
        d < 10,
    ensures
        parsed_u64(s) matches Some(n) ==> parsed_u64(s.push(digit_char(d as nat))) == (if n * 10 + d
            <= u64::MAX {
            Some((n * 10 + d) as u64)
        } else {
            None
        }),
{
    let c = digit_char(d as nat);
    let t = s.push(c);
    if s.len() > 0 && s[0] == '+' {
        assert(t.skip(1) =~= s.skip(1).push(c));
        assert(s.skip(1).push(c).drop_last() =~= s.skip(1));
    } else {
        assert(t.drop_last() =~= s);
    }
}

proof fn lemma_only_digits(s: Seq<char>, k: int)
    requires
        0 <= k < s.len(),
        !('0' <= s[k] <= '9'),
    ensures
        digits_value(s) is None,
    decreases s.len(),
{
    if k < s.len() - 1 {
        assert(s.drop_last()[k] == s[k]);
        lemma_only_digits(s.drop_last(), k);
    }
}

/// A text with anything but digits behind a sign is no number, and neither is
/// one without a digit.
pub proof fn only_digits_are_numbers(s: Seq<char>, k: int)
    ensures
        0 <= k < s.len() && !('0' <= s[k] <= '9') && (k > 0 || s[k] != '+') ==> parsed_u64(s) is None,
        s.len() == 0 || s == seq!['+'] ==> parsed_u64(s) is None,
{
    if 0 <= k < s.len() && !('0' <= s[k] <= '9') && (k > 0 || s[k] != '+') {
        if s[0] == '+' {
            assert(s.skip(1)[k - 1] == s[k]);
            lemma_only_digits(s.skip(1), k - 1);
        } else {
            lemma_only_digits(s, k);
        }
    }
}

/// A negative number is written with a sign before the number that it is the
/// negative of.
pub proof fn negative_numbers_have_a_sign(n: nat)
    requires
        n > 0,
    ensures
        signed_decimal(-(n as int)) == "-"@ + decimal(n),
        signed_decimal(n as int) == decimal(n),
        signed_decimal(0) == decimal(0),
{
}

/// What a hexadecimal digit stands for.
pub open spec fn hex_digit_value(c: char) -> int {
    if '0' <= c <= '9' {
        c as u32 - 48
    } else if 'a' <= c <= 'f' {
        c as u32 - 97 + 10
    } else {
        -1
    }
}

/// A byte is two small hexadecimal digits, the higher one first.
pub proof fn bytes_are_two_hexadecimal_digits(bytes: Seq<u8>, i: int)
    requires
        0 <= i < bytes.len(),
    ensures
        hex_of(bytes).len() == 2 * bytes.len(),
        0 <= hex_digit_value(hex_of(bytes)[2 * i]) < 16,
        0 <= hex_digit_value(hex_of(bytes)[2 * i + 1]) < 16,
        hex_digit_value(hex_of(bytes)[2 * i]) * 16 + hex_digit_value(hex_of(bytes)[2 * i + 1]) == bytes[i],
{
    assert((2 * i) / 2 == i && (2 * i) % 2 == 0 && (2 * i + 1) / 2 == i && (2 * i + 1) % 2 == 1);
}

/// Of two texts that part after a common beginning, the smaller is the one
/// that ends there or goes on with the smaller character.
pub proof fn texts_are_ordered_by_their_first_difference(
    p: Seq<char>,
    c: char,
    d: char,
    a: Seq<char>,
    b: Seq<char>,
)
    requires
        c < d,
    ensures
        text_lt(p.push(c) + a, p.push(d) + b),
        text_lt(p, p.push(c) + a),
    decreases p.len(),
{
    if p.len() > 0 {
        let q = p.skip(1);
        assert((p.push(c) + a).skip(1) =~= q.push(c) + a);
        assert((p.push(d) + b).skip(1) =~= q.push(d) + b);
        texts_are_ordered_by_their_first_difference(q, c, d, a, b);
    }
}

/// A text that is short enough stays. Of a longer one the beginning stays, with
/// a mark that there was more.
pub proof fn long_texts_are_cut(s: Seq<char>, t: Seq<char>)
    ensures
        ellipsized(s, s.len()) == s,
        ellipsized(s, s.len() + t.len()) == s,
        t.len() > 0 ==> ellipsized(s + t, s.len()) == s + "…"@,
{
    reveal_strlit("…");
    if t.len() > 0 {
        assert((s + t).take(s.len() as int) =~= s);
        assert(s.push('…') =~= s + "…"@);
    }
}

/// Only the 26 letters of ASCII have another case, 32 places away.
pub proof fn ascii_letters_change_their_case(c: char)
    ensures
        65 <= c as u32 <= 90 ==> ascii_lower(c) as u32 == c as u32 + 32,
        97 <= c as u32 <= 122 ==> ascii_upper(c) as u32 == c as u32 - 32,
        !(65 <= c as u32 <= 90) ==> ascii_lower(c) == c,
        !(97 <= c as u32 <= 122) ==> ascii_upper(c) == c,
        'a' <= c && c <= 'z' ==> ascii_lower(ascii_upper(c)) == c,
{
}

/// A separator parts pieces: those before it, then those behind it.
pub proof fn pieces_of_both_sides(a: Seq<char>, b: Seq<char>, c: char)
    ensures
        split_pieces(a.push(c) + b, c) == split_pieces(a, c) + split_pieces(b, c),
    decreases a.len(),
{
    let s = a.push(c) + b;
    let at = index_of_from(a, c, 0);
    lemma_index_of_from(a, c, 0);
    lemma_index_of_from(s, c, 0);
    let i = index_of_from(s, c, 0);
    assert(s[a.len() as int] == c);
    if at < a.len() {
        assert(s[at] == c);
        assert forall|k: int| 0 <= k < at implies s[k] != c by {
            assert(s[k] == a[k]);
        }
        assert(i == at) by {
            if i < at {
                assert(s[i] == c);
            }
        }
        pieces_of_both_sides(a.skip(at + 1), b, c);
        assert(s.take(at) =~= a.take(at));
        assert(s.skip(at + 1) =~= a.skip(at + 1).push(c) + b);
        assert(split_pieces(s, c) =~= split_pieces(a, c) + split_pieces(b, c));
    } else {
        assert forall|k: int| 0 <= k < a.len() implies s[k] != c by {
            assert(s[k] == a[k]);
        }
        assert(i == a.len()) by {
            if i < a.len() {
                assert(s[i] == c);
            }
        }
        assert(s.take(i) =~= a);
        assert(s.skip(i + 1) =~= b);
    }
}

/// What a text is made of stands in it.
pub proof fn parts_stand_in_the_whole(a: Seq<char>, v: Seq<char>, b: Seq<char>)
    ensures
        contains_text(a + v + b, v),
        contains_text(a + v, v),
        contains_text(v + b, v),
{
    let n = a.len() as int;
    assert((a + v + b).subrange(n, n + v.len()) =~= v);
    assert(occurs_at(a + v + b, v, n));
    assert((a + v).subrange(n, n + v.len()) =~= v);
    assert(occurs_at(a + v, v, n));
    assert((v + b).subrange(0, v.len() as int) =~= v);
    assert(occurs_at(v + b, v, 0));
}

/// Between a common beginning and a common end, equal texts hold equal texts.
pub proof fn middles_of_equal_texts_are_equal(
    head: Seq<char>,
    a: Seq<char>,
    b: Seq<char>,
    tail: Seq<char>,
)
    requires
        head + a + tail == head + b + tail,
    ensures
        a == b,
{
    let x = head + a + tail;
    let n = head.len() as int;
    assert(x.len() == head.len() + a.len() + tail.len());
    assert(a.len() == b.len());
    assert(a =~= x.subrange(n, n + a.len()));
    assert(b =~= x.subrange(n, n + b.len()));
}

/// A text that is given is seen as it is, alone and in a list, and a missing one
/// is missing.
pub proof fn given_texts_are_seen(s: String, v: Seq<String>, i: int)
    ensures
        opt_view(Some(s)) == Some(s@),
        opt_view(None) is None,
        views(v).len() == v.len(),
        0 <= i < v.len() ==> views(v)[i] == v[i]@,
{
}

} // verus!
