//! What the user brings back from an authorization in the browser.

use vstd::prelude::*;
use vstd::string::*;

use crate::auth::urlcode::{form_value, form_value_of};
use crate::text::{owned, same, split_at_first, split_once, trim, trimmed};

verus! {

/// The query of a URL: what follows the first question mark, or else all.
pub open spec fn query_of(url: Seq<char>) -> Seq<char> {
    match split_at_first(url, '?') {
        Some(p) => p.1,
        None => url,
    }
}

/// Reads code and state from the URL that the browser was sent to. The error
/// is the message for the user.
pub fn redirect_params(line: &str) -> (r: Result<(String, String), String>)
    ensures
        ({
            let q = query_of(trimmed(line@));
            match (form_value_of(q, "code"@), form_value_of(q, "state"@)) {
                (Some(c), Some(s)) => r matches Ok(p) && p.0@ == c && p.1@ == s,
                (Some(c), None) => r matches Err(m) && m@ == "重定向 URL 中未找到 state 参数"@,
                (None, _) => r matches Err(m) && m@ == "重定向 URL 中未找到 code 参数"@,
            }
        }),
{
    let t = trim(line);
    let q = match split_once(t.as_str(), '?') {
        Some((_, q)) => q,
        None => t,
    };
    let code = form_value(q.as_str(), "code");
    let state = form_value(q.as_str(), "state");
    match code {
        None => Err(owned("重定向 URL 中未找到 code 参数")),
        Some(c) => match state {
            None => Err(owned("重定向 URL 中未找到 state 参数")),
            Some(s) => Ok((c, s)),
        },
    }
}

/// A server of the configuration.
#[derive(Debug)]
pub struct ConfiguredServer {
    pub name: String,
    pub requires_oauth: bool,
}

/// The first server with a name at or after a position, or the number of
/// servers.
pub open spec fn server_index(servers: Seq<ConfiguredServer>, name: Seq<char>, from: int) -> int
    decreases servers.len() - from,
{
    if from < 0 || from >= servers.len() || servers[from].name@ == name {
        from
    } else {
        server_index(servers, name, from + 1)
    }
}

/// Finds the server that is to be authorized: the first with the name, where
/// it asks for authorization. The error is the message for the user.
pub fn server_to_authorize(servers: &Vec<ConfiguredServer>, name: &str) -> (r: Result<usize, String>)
    ensures
        ({
            let i = server_index(servers@, name@, 0);
            if i >= servers@.len() {
                r matches Err(m) && m@ == "config 中未找到 MCP server '"@ + name@ + "'"@
            } else if !servers@[i].requires_oauth {
                r matches Err(m) && m@ == "server '"@ + name@ + "' 没有配置 oauth 块，无需授权"@
            } else {
                r matches Ok(k) && k == i
            }
        }),
{
    let mut i: usize = 0;
    while i < servers.len()
        invariant_except_break
            i <= servers@.len(),
            server_index(servers@, name@, 0) == server_index(servers@, name@, i as int),
        ensures
            i <= servers@.len(),
            server_index(servers@, name@, 0) == i,
        decreases servers@.len() - i,
    {
        if same(servers[i].name.as_str(), name) {
            break;
        }
        i = i + 1;
    }
    if i == servers.len() {
        let mut m = owned("config 中未找到 MCP server '");
        m.append(name);
        m.append("'");
        return Err(m);
    }
    if !servers[i].requires_oauth {
        let mut m = owned("server '");
        m.append(name);
        m.append("' 没有配置 oauth 块，无需授权");
        return Err(m);
    }
    Ok(i)
}

/// What a redirect says stands behind its first question mark. A text without
/// one is all of it.
pub proof fn queries_stand_behind_the_question_mark(place: Seq<char>, query: Seq<char>)
    requires
        !place.contains('?'),
    ensures
        query_of(place + "?"@ + query) == query,
        query_of(place) == place,
{
    reveal_strlit("?");
    let url = place + "?"@ + query;
    crate::text::texts_are_split_at_the_first(url, '?');
    crate::text::texts_are_split_at_the_first(place, '?');
    let n = place.len() as int;
    assert(url[n] == '?');
    let q = split_at_first(url, '?')->0;
    let m = q.0.len() as int;
    if m < n {
        assert((q.0.push('?') + q.1)[m] == '?');
        assert(place.contains(place[m]));
    }
    if m > n {
        assert((q.0.push('?') + q.1)[n] == q.0[n]);
        assert(q.0.contains('?'));
    }
    assert(q.1 =~= query) by {
        assert forall|k: int| 0 <= k < query.len() implies q.1[k] == query[k] by {
            assert((q.0.push('?') + q.1)[n + 1 + k] == url[n + 1 + k]);
        }
    }
}

proof fn lemma_server_index(servers: Seq<ConfiguredServer>, name: Seq<char>, from: int)
    requires
        0 <= from <= servers.len(),
    ensures
        ({
            let i = server_index(servers, name, from);
            &&& from <= i <= servers.len()
            &&& i < servers.len() ==> servers[i].name@ == name
            &&& forall|k: int| from <= k < i ==> (#[trigger] servers[k]).name@ != name
        }),
    decreases servers.len() - from,
{
    if from < servers.len() && servers[from].name@ != name {
        lemma_server_index(servers, name, from + 1);
    }
}

/// Of the servers with a name the first is meant. A name that no server has
/// leads to none.
pub proof fn the_first_server_of_a_name_is_meant(servers: Seq<ConfiguredServer>, name: Seq<char>, i: int)
    ensures
        0 <= i < servers.len() && servers[i].name@ == name && (forall|k: int|
            0 <= k < i ==> (#[trigger] servers[k]).name@ != name) ==> server_index(servers, name, 0) == i,
        (forall|k: int| 0 <= k < servers.len() ==> (#[trigger] servers[k]).name@ != name)
            ==> server_index(servers, name, 0) == servers.len(),
{
    lemma_server_index(servers, name, 0);
}

} // verus!
