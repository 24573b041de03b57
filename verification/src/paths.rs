//! Slash-separated file paths as text.

use vstd::prelude::*;
use vstd::string::*;

use crate::text::{
    chars_of, has_prefix, index_of_from, join, joined, lemma_index_of_from, lemma_views_push, owned,
    pieces_of_both_sides, push_char, same, split, split_pieces, starts_with, string_of, trim, trimmed, views,
};

verus! {

/// The path `rest` seen from `base`: an absolute path stands for itself, and
/// any other follows `base` after one slash.
pub open spec fn joined_path(base: Seq<char>, rest: Seq<char>) -> Seq<char> {
    if rest.len() > 0 && rest[0] == '/' {
        rest
    } else if base.len() == 0 || base.last() == '/' {
        base + rest
    } else {
        base.push('/') + rest
    }
}

/// The path `rest` seen from `base`.
pub fn join_path(base: &str, rest: &str) -> (r: String)
    ensures
        r@ == joined_path(base@, rest@),
{
    let b = chars_of(base);
    let c = chars_of(rest);
    if c.len() > 0 && c[0] == '/' {
        return owned(rest);
    }
    let mut out = owned(base);
    if b.len() > 0 && b[b.len() - 1] != '/' {
        push_char(&mut out, '/');
    }
    out.append(rest);
    out
}

/// The pieces of a path between slashes that matter, among the first `n`: not
/// the empty ones, and not those that stand for the directory itself, but for
/// the very first.
pub open spec fn components_of(pieces: Seq<Seq<char>>, n: int) -> Seq<Seq<char>>
    decreases n,
{
    if n <= 0 || n > pieces.len() {
        Seq::empty()
    } else {
        let below = components_of(pieces, n - 1);
        let p = pieces[n - 1];
        if p.len() == 0 || (p == "."@ && n > 1) {
            below
        } else {
            below.push(p)
        }
    }
}

/// A path without what does not matter: repeated slashes, a slash at its end,
/// and pieces that stand for the directory itself. Two paths with the same
/// components have it in common.
pub open spec fn plain_path_of(s: Seq<char>) -> Seq<char> {
    let pieces = split_pieces(s, '/');
    let root: Seq<char> = if s.len() > 0 && s[0] == '/' {
        "/"@
    } else {
        Seq::empty()
    };
    root + joined(components_of(pieces, pieces.len() as int), "/"@)
}

/// A path without what does not matter.
pub fn plain_path(path: &str) -> (r: String)
    ensures
        r@ == plain_path_of(path@),
{
    let pieces = split(path, '/');
    let ghost ps = views(pieces@);
    let mut kept: Vec<String> = Vec::new();
    let mut i: usize = 0;
    assert(views(kept@) =~= Seq::empty());
    while i < pieces.len()
        invariant
            i <= pieces@.len(),
            ps == views(pieces@),
            views(kept@) == components_of(ps, i as int),
        decreases pieces@.len() - i,
    {
        assert(ps[i as int] == pieces@[i as int]@);
        let p = pieces[i].as_str();
        if !(p.is_empty() || (i > 0 && same(p, "."))) {
            let piece = pieces[i].clone();
            proof {
                lemma_views_push(kept@, piece);
            }
            kept.push(piece);
        }
        i = i + 1;
    }
    let body = join(&kept, "/");
    let mut out = String::new();
    let chars = chars_of(path);
    if chars.len() > 0 && chars[0] == '/' {
        out = owned("/");
    }
    out.append(body.as_str());
    assert(out@ =~= plain_path_of(path@));
    out
}

/// What a path that may begin with `~` stands for.
pub open spec fn expanded_path(raw: Seq<char>, home: Option<Seq<char>>) -> Seq<char> {
    let t = trimmed(raw);
    match home {
        Some(h) => if t == "~"@ {
            h
        } else if has_prefix(t, "~/"@) {
            joined_path(h, t.skip(2))
        } else {
            t
        },
        None => t,
    }
}

/// Expands a leading `~` to the home directory and trims white space. Without
/// a home directory the path stays as it is.
pub fn expand_user_path(raw: &str, home: Option<&str>) -> (r: String)
    ensures
        r@ == expanded_path(
            raw@,
            match home {
                Some(h) => Some(h@),
                None => None,
            },
        ),
{
    let t = trim(raw);
    match home {
        Some(h) => {
            if same(t.as_str(), "~") {
                return owned(h);
            }
            if starts_with(t.as_str(), "~/") {
                proof {
                    reveal_strlit("~/");
                }
                let chars = chars_of(t.as_str());
                let n: usize = chars.len();
                let rest = string_of(&chars, 2, n);
                assert(rest@ =~= t@.skip(2));
                return join_path(h, rest.as_str());
            }
            t
        },
        None => t,
    }
}

/// A path, and whether something is there.
#[derive(Debug)]
pub struct Place {
    pub path: String,
    pub found: bool,
}

/// The first of `places` where something is. The places are those of a
/// directory and of the directories above it, so that it is the nearest.
pub fn nearest(places: &Vec<Place>) -> (r: Option<String>)
    ensures
        match r {
            Some(p) => exists|i: int|
                0 <= i < places@.len() && (#[trigger] places@[i]).found && places@[i].path@ == p@
                    && forall|k: int| 0 <= k < i ==> !(#[trigger] places@[k]).found,
            None => forall|k: int| 0 <= k < places@.len() ==> !(#[trigger] places@[k]).found,
        },
{
    let mut i: usize = 0;
    while i < places.len()
        invariant
            i <= places@.len(),
            forall|k: int| 0 <= k < i ==> !(#[trigger] places@[k]).found,
        decreases places@.len() - i,
    {
        if places[i].found {
            return Some(places[i].path.clone());
        }
        i = i + 1;
    }
    None
}

/// A path behind another is that path where it is absolute. Otherwise it stands
/// behind the other, with one slash between them.
pub proof fn paths_are_joined_by_one_slash(base: Seq<char>, rest: Seq<char>)
    ensures
        joined_path(base, "/"@ + rest) == "/"@ + rest,
        rest.len() == 0 || rest[0] != '/' ==> {
            &&& base.len() > 0 && base.last() != '/' ==> joined_path(base, rest) == base + "/"@ + rest
            &&& joined_path(base + "/"@, rest) == base + "/"@ + rest
            &&& joined_path(Seq::empty(), rest) == rest
        },
{
    reveal_strlit("/");
    assert(base.push('/') =~= base + "/"@);
    assert(Seq::<char>::empty() + rest =~= rest);
    assert((base + "/"@).last() == '/');
}

/// A tilde at the beginning, alone or before a slash, stands for the home
/// directory. Everywhere else it stands for itself.
pub proof fn tildes_stand_for_the_home_directory(raw: Seq<char>, home: Seq<char>, rest: Seq<char>)
    ensures
        expanded_path(raw, None) == trimmed(raw),
        trimmed(raw) == "~"@ ==> expanded_path(raw, Some(home)) == home,
        trimmed(raw) == "~/"@ + rest ==> expanded_path(raw, Some(home)) == joined_path(home, rest),
        trimmed(raw).len() == 0 || trimmed(raw)[0] != '~' ==> expanded_path(raw, Some(home)) == trimmed(
            raw,
        ),
        trimmed(raw).len() > 1 && trimmed(raw)[1] != '/' ==> expanded_path(raw, Some(home)) == trimmed(
            raw,
        ),
{
    reveal_strlit("~");
    reveal_strlit("~/");
    let t = trimmed(raw);
    if t == "~/"@ + rest {
        assert(t.take(2) =~= "~/"@);
        assert(t.skip(2) =~= rest);
        assert(t.len() >= 2);
    }
    if has_prefix(t, "~/"@) {
        assert(t[0] == t.take(2)[0] && t[1] == t.take(2)[1]);
    }
}

proof fn lemma_components_prefix(p: Seq<Seq<char>>, q: Seq<Seq<char>>, n: int)
    requires
        n <= p.len(),
    ensures
        components_of(p + q, n) == components_of(p, n),
    decreases n,
{
    if n > 0 {
        lemma_components_prefix(p, q, n - 1);
        assert((p + q)[n - 1] == p[n - 1]);
    }
}

proof fn lemma_first_component(p: Seq<Seq<char>>, n: int)
    requires
        0 < n <= p.len(),
        p[0].len() > 0,
    ensures
        components_of(p, n).len() > 0,
    decreases n,
{
    if n > 1 {
        lemma_first_component(p, n - 1);
    } else {
        assert(components_of(p, 0) =~= Seq::empty());
    }
}

/// A name behind a path stands behind what is left of the path. A slash or a
/// dot at the end of a path is left out.
pub proof fn paths_are_their_names(a: Seq<char>, name: Seq<char>)
    requires
        a.len() > 0,
        !name.contains('/'),
        name.len() > 0,
        name != "."@,
    ensures
        plain_path_of(a + "/"@ + name) == joined_path(plain_path_of(a), name),
        plain_path_of(a + "/"@) == plain_path_of(a),
        plain_path_of(a + "/."@) == plain_path_of(a),
        plain_path_of("/"@ + name) == "/"@ + name,
        plain_path_of(name) == name,
        plain_path_of("/"@) == "/"@,
        plain_path_of("."@) == "."@,
        plain_path_of(Seq::empty()) == Seq::<char>::empty(),
{
    reveal_strlit("/");
    reveal_strlit("/.");
    reveal_strlit(".");
    let e = Seq::<char>::empty();
    lemma_one_piece(name);
    lemma_one_piece(e);
    lemma_one_piece("."@);
    pieces_of_both_sides(a, name, '/');
    pieces_of_both_sides(a, e, '/');
    pieces_of_both_sides(a, "."@, '/');
    pieces_of_both_sides(e, name, '/');
    pieces_of_both_sides(e, e, '/');
    assert(a.push('/') + name =~= a + "/"@ + name);
    assert(a.push('/') + e =~= a + "/"@);
    assert(a.push('/') + "."@ =~= a + "/."@);
    assert(e.push('/') + name =~= "/"@ + name);
    assert(e.push('/') + e =~= "/"@);
    let p = split_pieces(a, '/');
    let n = p.len() as int;
    crate::text::pieces_join_back(a, '/');
    lemma_components_prefix(p, seq![name], n);
    lemma_components_prefix(p, seq![e], n);
    lemma_components_prefix(p, seq!["."@], n);
    lemma_components_prefix(seq![e], seq![name], 1);
    lemma_components_prefix(seq![e], seq![e], 1);
    let none = Seq::<Seq<char>>::empty();
    assert(components_of(seq![e], 0) =~= none);
    assert(components_of(seq![name], 0) =~= none);
    assert(components_of(seq!["."@], 0) =~= none);
    assert(none.push(name) =~= seq![name]);
    assert(none.push("."@) =~= seq!["."@]);
    let cs = components_of(p, n);
    assert((p + seq![name])[n] == name);
    assert((p + seq![e])[n] == e);
    assert((p + seq!["."@])[n] == "."@);
    assert((seq![e] + seq![name])[1] == name);
    assert((seq![e] + seq![e])[1] == e);
    assert(components_of(p + seq![name], n + 1) == cs.push(name));
    assert(components_of(p + seq![e], n + 1) == cs);
    assert(components_of(p + seq!["."@], n + 1) == cs);
    assert(cs.push(name).drop_last() =~= cs);
    assert(name[0] != '/') by {
        assert(name.contains(name[0]));
    }
    assert(joined(none, "/"@) =~= e);
    assert(joined(seq![name], "/"@) == name);
    assert(joined(seq!["."@], "/"@) == "."@);
    assert(e + name =~= name);
    assert(e + "."@ =~= "."@);
    assert(e + e =~= e);
    assert("/"@ + e =~= "/"@);
    assert((a + "/"@ + name)[0] == a[0]);
    assert((a + "/"@)[0] == a[0]);
    assert((a + "/."@)[0] == a[0]);
    let root: Seq<char> = if a[0] == '/' {
        "/"@
    } else {
        e
    };
    if cs.len() == 0 {
        assert(cs =~= none);
        assert(cs.push(name) =~= seq![name]);
        if a[0] != '/' {
            lemma_first_piece(a);
            lemma_first_component(p, n);
        }
        assert(plain_path_of(a) =~= "/"@);
        assert(plain_path_of(a + "/"@ + name) =~= "/"@ + name);
    } else {
        lemma_components_end(p, n);
        assert(joined(cs.push(name), "/"@) == joined(cs, "/"@) + "/"@ + name);
        let whole = plain_path_of(a);
        lemma_joined_end(cs);
        assert(whole.last() == joined(cs, "/"@).last());
        assert(whole.push('/') + name =~= root + (joined(cs, "/"@) + "/"@ + name));
    }
}

proof fn lemma_one_piece(s: Seq<char>)
    requires
        !s.contains('/'),
    ensures
        split_pieces(s, '/') == seq![s],
{
    lemma_index_of_from(s, '/', 0);
    if index_of_from(s, '/', 0) < s.len() {
        assert(s.contains(s[index_of_from(s, '/', 0)]));
    }
}

proof fn lemma_first_piece(s: Seq<char>)
    requires
        s.len() > 0,
        s[0] != '/',
    ensures
        split_pieces(s, '/')[0].len() > 0,
        split_pieces(s, '/').len() > 0,
{
    lemma_index_of_from(s, '/', 0);
}

proof fn lemma_components_end(p: Seq<Seq<char>>, n: int)
    requires
        0 <= n <= p.len(),
        forall|i: int| 0 <= i < p.len() ==> !(#[trigger] p[i]).contains('/'),
    ensures
        forall|i: int|
            0 <= i < components_of(p, n).len() ==> (#[trigger] components_of(p, n)[i]).len() > 0
                && components_of(p, n)[i].last() != '/',
    decreases n,
{
    if n > 0 {
        lemma_components_end(p, n - 1);
        let q = p[n - 1];
        let below = components_of(p, n - 1);
        if q.len() > 0 {
            assert(q.contains(q.last()));
        }
        assert forall|i: int| 0 <= i < components_of(p, n).len() implies (#[trigger] components_of(
            p,
            n,
        )[i]).len() > 0 && components_of(p, n)[i].last() != '/' by {
            if i < below.len() {
                assert(components_of(p, n)[i] == below[i]);
            }
        }
    }
}

proof fn lemma_joined_end(cs: Seq<Seq<char>>)
    requires
        cs.len() > 0,
        cs.last().len() > 0,
    ensures
        joined(cs, "/"@).len() > 0,
        joined(cs, "/"@).last() == cs.last().last(),
{
}

} // verus!
