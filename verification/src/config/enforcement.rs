//! What holds of every configuration after the requirements were enforced.

use vstd::prelude::*;

use crate::config::requirements::{
    after_features, after_keychain, after_provider, after_sandbox, allowed_servers, at_most_one,
    candidate_report, candidate_reports, candidates_of, deny_report, enforced, enforced_table,
    enforcement_reports, feature_reports, forced_candidate, forced_route, keychain_report,
    matches_any, mcp_servers, provider_report, provider_reports, requirements_in, route_reports,
    routes_of, sandbox_report, server_report, server_source, switched_off, switched_off_reports,
    with_entry, with_features_off, with_provider, with_servers_filtered, with_text,
    RequirementView,
};
use crate::config::values::{empty_table, DiagnosticLevel, DiagnosticView};
use crate::entries::{lemma_key_index, lookup, lookup_after_put, put};
use crate::toml_value::{array_in, bool_in, get, table_in, text_in, TomlView};

verus! {

/// The top-level keys that a requirement can change.
pub open spec fn is_constrained_key(key: Seq<char>) -> bool {
    key == "provider"@ || key == "model_routes"@ || key == "sandbox"@ || key == "features"@ || key
        == "credential"@ || key == "mcp"@
}

proof fn lemma_keys_differ()
    ensures
        "provider"@ != "model_routes"@,
        "provider"@ != "sandbox"@,
        "provider"@ != "features"@,
        "provider"@ != "credential"@,
        "provider"@ != "mcp"@,
        "model_routes"@ != "sandbox"@,
        "model_routes"@ != "features"@,
        "model_routes"@ != "credential"@,
        "model_routes"@ != "mcp"@,
        "sandbox"@ != "features"@,
        "sandbox"@ != "credential"@,
        "sandbox"@ != "mcp"@,
        "features"@ != "credential"@,
        "features"@ != "mcp"@,
        "credential"@ != "mcp"@,
{
    reveal_strlit("provider");
    reveal_strlit("model_routes");
    reveal_strlit("sandbox");
    reveal_strlit("features");
    reveal_strlit("credential");
    reveal_strlit("mcp");
    assert("provider"@.len() == 8);
    assert("model_routes"@.len() == 12);
    assert("sandbox"@.len() == 7);
    assert("features"@.len() == 8);
    assert("credential"@.len() == 10);
    assert("mcp"@.len() == 3);
    assert("provider"@[0] != "features"@[0]);
}

proof fn lemma_put_same(t: Seq<(Seq<char>, TomlView)>, key: Seq<char>, value: TomlView)
    requires
        lookup(t, key) == Some(value),
    ensures
        put(t, key, value) == t,
{
    lemma_key_index(t, key, 0);
    assert(put(t, key, value) =~= t);
}

proof fn lemma_provider_other(
    req: RequirementView,
    t: Seq<(Seq<char>, TomlView)>,
    other: Seq<char>,
)
    requires
        other != "provider"@,
        other != "model_routes"@,
    ensures
        lookup(after_provider(req, t), other) == lookup(t, other),
{
    match req.forced_provider {
        Some(p) => {
            let t1 = with_provider(t, p);
            lookup_after_put(t, "provider"@, TomlView::Text(p), other);
            match table_in(lookup(t1, "model_routes"@)) {
                Some(routes) => {
                    let v = TomlView::Table(
                        routes.map_values(|e: (Seq<char>, TomlView)| (e.0, forced_route(e.1, p))),
                    );
                    lookup_after_put(t1, "model_routes"@, v, other);
                },
                None => {},
            }
        },
        None => {},
    }
}

proof fn lemma_text_other(
    t: Seq<(Seq<char>, TomlView)>,
    key: Seq<char>,
    sub: Seq<char>,
    required: Seq<char>,
    other: Seq<char>,
)
    requires
        other != key,
    ensures
        lookup(with_text(t, key, sub, required), other) == lookup(t, other),
{
    lookup_after_put(t, key, empty_table(), other);
    let t1 = with_entry(t, key);
    match table_in(lookup(t1, key)) {
        Some(s) => {
            lookup_after_put(t1, key, TomlView::Table(put(s, sub, TomlView::Text(required))), other);
        },
        None => {},
    }
}

proof fn lemma_text_set(
    t: Seq<(Seq<char>, TomlView)>,
    key: Seq<char>,
    sub: Seq<char>,
    required: Seq<char>,
)
    ensures
        lookup(with_text(t, key, sub, required), key) is Some,
        lookup(t, key) is None || lookup(t, key)->0 is Table ==> text_in(
            get(lookup(with_text(t, key, sub, required), key)->0, sub),
        ) == Some(required),
        !(lookup(t, key) is None || lookup(t, key)->0 is Table) ==> lookup(
            with_text(t, key, sub, required),
            key,
        ) == lookup(t, key),
{
    lookup_after_put(t, key, empty_table(), key);
    let t1 = with_entry(t, key);
    match table_in(lookup(t1, key)) {
        Some(s) => {
            lookup_after_put(s, sub, TomlView::Text(required), sub);
            lookup_after_put(t1, key, TomlView::Table(put(s, sub, TomlView::Text(required))), key);
        },
        None => {},
    }
}

proof fn lemma_features_other(
    t: Seq<(Seq<char>, TomlView)>,
    names: Seq<Seq<char>>,
    other: Seq<char>,
)
    requires
        other != "features"@,
    ensures
        lookup(with_features_off(t, names), other) == lookup(t, other),
{
    lookup_after_put(t, "features"@, empty_table(), other);
    let t1 = with_entry(t, "features"@);
    match table_in(lookup(t1, "features"@)) {
        Some(f) => {
            lookup_after_put(t1, "features"@, TomlView::Table(switched_off(f, names)), other);
        },
        None => {},
    }
}

proof fn lemma_servers_other(
    t: Seq<(Seq<char>, TomlView)>,
    globs: Seq<Seq<char>>,
    other: Seq<char>,
)
    requires
        other != "mcp"@,
    ensures
        lookup(with_servers_filtered(t, globs), other) == lookup(t, other),
{
    match (table_in(lookup(t, "mcp"@)), mcp_servers(t)) {
        (Some(m), Some(a)) => {
            lookup_after_put(
                t,
                "mcp"@,
                TomlView::Table(put(m, "servers"@, TomlView::Array(allowed_servers(a, globs)))),
                other,
            );
        },
        _ => {},
    }
}

proof fn lemma_switched_off(
    f: Seq<(Seq<char>, TomlView)>,
    names: Seq<Seq<char>>,
    name: Seq<char>,
)
    ensures
        names.contains(name) ==> lookup(switched_off(f, names), name) == Some(
            TomlView::Boolean(false),
        ),
        !names.contains(name) ==> lookup(switched_off(f, names), name) == lookup(f, name),
    decreases names.len(),
{
    if names.len() > 0 {
        let rest = names.drop_last();
        lemma_switched_off(f, rest, name);
        let g = switched_off(f, rest);
        lookup_after_put(g, names.last(), TomlView::Boolean(false), name);
        if names.contains(name) && name != names.last() {
            let i = choose|i: int| 0 <= i < names.len() && names[i] == name;
            assert(rest[i] == name);
        }
        if rest.contains(name) {
            let i = choose|i: int| 0 <= i < rest.len() && rest[i] == name;
            assert(names[i] == name);
        }
        assert(names.contains(names.last())) by {
            assert(names[names.len() - 1] == names.last());
        }
    }
}

/// Every top-level key that no requirement is about keeps its value.
pub proof fn enforcement_keeps_other_keys(
    req: RequirementView,
    t: Seq<(Seq<char>, TomlView)>,
    key: Seq<char>,
)
    requires
        !is_constrained_key(key),
    ensures
        lookup(enforced_table(req, t), key) == lookup(t, key),
{
    lemma_provider_other(req, t, key);
    match req.required_sandbox {
        Some(s) => lemma_text_other(after_provider(req, t), "sandbox"@, "type"@, s, key),
        None => {},
    }
    lemma_features_other(after_sandbox(req, t), req.disabled_features, key);
    lemma_text_other(after_features(req, t), "credential"@, "storage"@, "keychain"@, key);
    lemma_servers_other(after_keychain(req, t), req.allowed_mcp_sources, key);
}

proof fn lemma_after_provider_reads(req: RequirementView, t: Seq<(Seq<char>, TomlView)>)
    ensures
        lookup(enforced_table(req, t), "provider"@) == lookup(after_provider(req, t), "provider"@),
        lookup(enforced_table(req, t), "model_routes"@) == lookup(
            after_provider(req, t),
            "model_routes"@,
        ),
        lookup(enforced_table(req, t), "sandbox"@) == lookup(after_sandbox(req, t), "sandbox"@),
        lookup(enforced_table(req, t), "features"@) == lookup(after_features(req, t), "features"@),
        lookup(enforced_table(req, t), "credential"@) == lookup(
            after_keychain(req, t),
            "credential"@,
        ),
        lookup(after_provider(req, t), "sandbox"@) == lookup(t, "sandbox"@),
        lookup(after_sandbox(req, t), "features"@) == lookup(t, "features"@),
        lookup(after_features(req, t), "credential"@) == lookup(t, "credential"@),
        lookup(after_keychain(req, t), "mcp"@) == lookup(t, "mcp"@),
{
    lemma_keys_differ();
    let keys = seq!["provider"@, "model_routes"@, "sandbox"@, "features"@, "credential"@, "mcp"@];
    assert forall|i: int| 0 <= i < keys.len() implies {
        &&& (i > 1 ==> lookup(after_provider(req, t), #[trigger] keys[i]) == lookup(t, keys[i]))
        &&& (i != 2 ==> lookup(after_sandbox(req, t), keys[i]) == lookup(
            after_provider(req, t),
            keys[i],
        ))
        &&& (i != 3 ==> lookup(after_features(req, t), keys[i]) == lookup(
            after_sandbox(req, t),
            keys[i],
        ))
        &&& (i != 4 ==> lookup(after_keychain(req, t), keys[i]) == lookup(
            after_features(req, t),
            keys[i],
        ))
        &&& (i != 5 ==> lookup(enforced_table(req, t), keys[i]) == lookup(
            after_keychain(req, t),
            keys[i],
        ))
    } by {
        let k = keys[i];
        if i > 1 {
            lemma_provider_other(req, t, k);
        }
        if i != 2 {
            match req.required_sandbox {
                Some(s) => lemma_text_other(after_provider(req, t), "sandbox"@, "type"@, s, k),
                None => {},
            }
        }
        if i != 3 {
            lemma_features_other(after_sandbox(req, t), req.disabled_features, k);
        }
        if i != 4 {
            lemma_text_other(after_features(req, t), "credential"@, "storage"@, "keychain"@, k);
        }
        if i != 5 {
            lemma_servers_other(after_keychain(req, t), req.allowed_mcp_sources, k);
        }
    }
    assert(keys[0] == "provider"@);
    assert(keys[1] == "model_routes"@);
    assert(keys[2] == "sandbox"@);
    assert(keys[3] == "features"@);
    assert(keys[4] == "credential"@);
    assert(keys[5] == "mcp"@);
}

/// Where a provider is forced, `provider` is that provider, whatever the
/// configuration said.
pub proof fn forced_provider_wins(
    req: RequirementView,
    t: Seq<(Seq<char>, TomlView)>,
    provider: Seq<char>,
)
    requires
        req.forced_provider == Some(provider),
    ensures
        text_in(get(enforced(req, TomlView::Table(t)), "provider"@)) == Some(provider),
{
    lemma_keys_differ();
    lemma_after_provider_reads(req, t);
    lookup_after_put(t, "provider"@, TomlView::Text(provider), "provider"@);
    let t1 = with_provider(t, provider);
    match table_in(lookup(t1, "model_routes"@)) {
        Some(routes) => {
            let v = TomlView::Table(
                routes.map_values(|e: (Seq<char>, TomlView)| (e.0, forced_route(e.1, provider))),
            );
            lookup_after_put(t1, "model_routes"@, v, "provider"@);
        },
        None => {},
    }
}

/// A candidate with a `provider_id` has the forced one.
pub open spec fn candidate_is_bound(c: TomlView, provider: Seq<char>) -> bool {
    match get(c, "provider_id"@) {
        Some(p) => p == TomlView::Text(provider),
        None => true,
    }
}

proof fn lemma_candidate_bound(c: TomlView, provider: Seq<char>)
    ensures
        candidate_is_bound(forced_candidate(c, provider), provider),
        candidate_is_bound(c, provider) ==> forced_candidate(c, provider) == c,
{
    match c {
        TomlView::Table(t) => {
            lookup_after_put(t, "provider_id"@, TomlView::Text(provider), "provider_id"@);
        },
        _ => {},
    }
}

/// Where a provider is forced, no candidate of any model route names another.
pub proof fn forced_provider_binds_routes(
    req: RequirementView,
    t: Seq<(Seq<char>, TomlView)>,
    provider: Seq<char>,
    routes: Seq<(Seq<char>, TomlView)>,
    i: int,
    candidates: Seq<TomlView>,
    j: int,
)
    requires
        req.forced_provider == Some(provider),
        get(enforced(req, TomlView::Table(t)), "model_routes"@) == Some(TomlView::Table(routes)),
        0 <= i < routes.len(),
        get(routes[i].1, "candidates"@) == Some(TomlView::Array(candidates)),
        0 <= j < candidates.len(),
    ensures
        candidate_is_bound(candidates[j], provider),
{
    lemma_keys_differ();
    lemma_after_provider_reads(req, t);
    let t1 = with_provider(t, provider);
    lookup_after_put(t, "provider"@, TomlView::Text(provider), "model_routes"@);
    match table_in(lookup(t1, "model_routes"@)) {
        Some(r0) => {
            let forced = r0.map_values(
                |e: (Seq<char>, TomlView)| (e.0, forced_route(e.1, provider)),
            );
            lookup_after_put(t1, "model_routes"@, TomlView::Table(forced), "model_routes"@);
            assert(routes == forced);
            assert(routes[i].1 == forced_route(r0[i].1, provider));
            match r0[i].1 {
                TomlView::Table(rt) => {
                    match array_in(lookup(rt, "candidates"@)) {
                        Some(cs) => {
                            let out = cs.map_values(|c: TomlView| forced_candidate(c, provider));
                            lookup_after_put(
                                rt,
                                "candidates"@,
                                TomlView::Array(out),
                                "candidates"@,
                            );
                            assert(candidates == out);
                            lemma_candidate_bound(cs[j], provider);
                        },
                        None => {},
                    }
                },
                _ => {},
            }
        },
        None => {},
    }
}

/// Where a sandbox type is required, `sandbox.type` is that type, unless the
/// configuration holds something else than a table under `sandbox`.
pub proof fn required_sandbox_wins(
    req: RequirementView,
    t: Seq<(Seq<char>, TomlView)>,
    required: Seq<char>,
)
    requires
        req.required_sandbox == Some(required),
        lookup(t, "sandbox"@) is None || lookup(t, "sandbox"@)->0 is Table,
    ensures
        get(enforced(req, TomlView::Table(t)), "sandbox"@) matches Some(s) && text_in(
            get(s, "type"@),
        ) == Some(required),
{
    lemma_after_provider_reads(req, t);
    lemma_text_set(after_provider(req, t), "sandbox"@, "type"@, required);
}

/// A disabled feature is off, unless the configuration holds something else
/// than a table under `features`; the other features keep their values.
pub proof fn disabled_features_are_off(
    req: RequirementView,
    t: Seq<(Seq<char>, TomlView)>,
    feature: Seq<char>,
)
    requires
        req.disabled_features.len() > 0,
        lookup(t, "features"@) is None || lookup(t, "features"@)->0 is Table,
    ensures
        get(enforced(req, TomlView::Table(t)), "features"@) matches Some(f) && {
            &&& req.disabled_features.contains(feature) ==> bool_in(get(f, feature)) == Some(false)
            &&& !req.disabled_features.contains(feature) ==> get(f, feature) == (match lookup(
                t,
                "features"@,
            ) {
                Some(v) => get(v, feature),
                None => None,
            })
        },
{
    lemma_after_provider_reads(req, t);
    let a = after_sandbox(req, t);
    lookup_after_put(a, "features"@, empty_table(), "features"@);
    let t1 = with_entry(a, "features"@);
    match table_in(lookup(t1, "features"@)) {
        Some(f) => {
            lemma_switched_off(f, req.disabled_features, feature);
            lookup_after_put(
                t1,
                "features"@,
                TomlView::Table(switched_off(f, req.disabled_features)),
                "features"@,
            );
        },
        None => {},
    }
}

/// Where the keychain is required, `credential.storage` is the keychain,
/// unless the configuration holds something else than a table there.
pub proof fn keychain_storage_wins(req: RequirementView, t: Seq<(Seq<char>, TomlView)>)
    requires
        req.require_keychain_storage,
        lookup(t, "credential"@) is None || lookup(t, "credential"@)->0 is Table,
    ensures
        get(enforced(req, TomlView::Table(t)), "credential"@) matches Some(c) && text_in(
            get(c, "storage"@),
        ) == Some("keychain"@),
{
    lemma_after_provider_reads(req, t);
    lemma_text_set(after_features(req, t), "credential"@, "storage"@, "keychain"@);
}

proof fn lemma_allowed_servers(servers: Seq<TomlView>, globs: Seq<Seq<char>>)
    ensures
        forall|i: int|
            0 <= i < allowed_servers(servers, globs).len() ==> matches_any(
                globs,
                server_source(#[trigger] allowed_servers(servers, globs)[i]),
            ),
        (forall|i: int|
            0 <= i < servers.len() ==> matches_any(globs, server_source(#[trigger] servers[i])))
            ==> allowed_servers(servers, globs) == servers,
    decreases servers.len(),
{
    if servers.len() > 0 {
        lemma_allowed_servers(servers.drop_last(), globs);
        let below = allowed_servers(servers.drop_last(), globs);
        let kept = allowed_servers(servers, globs);
        assert forall|i: int| 0 <= i < kept.len() implies matches_any(
            globs,
            server_source(#[trigger] kept[i]),
        ) by {
            if i < below.len() {
                assert(kept[i] == below[i]);
            }
        }
        if forall|i: int|
            0 <= i < servers.len() ==> matches_any(globs, server_source(#[trigger] servers[i])) {
            assert forall|i: int| 0 <= i < servers.drop_last().len() implies matches_any(
                globs,
                server_source(#[trigger] servers.drop_last()[i]),
            ) by {
                assert(servers.drop_last()[i] == servers[i]);
            }
            assert(servers.last() == servers[servers.len() - 1]);
            assert(servers.drop_last().push(servers.last()) =~= servers);
        }
    } else {
        assert(allowed_servers(servers, globs) =~= servers);
    }
}

/// Where sources are restricted, every MCP server that remains has an allowed
/// source.
pub proof fn remaining_servers_are_allowed(
    req: RequirementView,
    t: Seq<(Seq<char>, TomlView)>,
    i: int,
)
    requires
        req.allowed_mcp_sources.len() > 0,
        mcp_servers(enforced_table(req, t)) is Some,
        0 <= i < (mcp_servers(enforced_table(req, t))->0).len(),
    ensures
        matches_any(
            req.allowed_mcp_sources,
            server_source((mcp_servers(enforced_table(req, t))->0)[i]),
        ),
{
    let globs = req.allowed_mcp_sources;
    let k = after_keychain(req, t);
    match (table_in(lookup(k, "mcp"@)), mcp_servers(k)) {
        (Some(m), Some(a)) => {
            let inner = put(m, "servers"@, TomlView::Array(allowed_servers(a, globs)));
            lookup_after_put(
                m,
                "servers"@,
                TomlView::Array(allowed_servers(a, globs)),
                "servers"@,
            );
            lookup_after_put(k, "mcp"@, TomlView::Table(inner), "mcp"@);
            lemma_allowed_servers(a, globs);
        },
        _ => {},
    }
}

proof fn lemma_with_text_again(
    t: Seq<(Seq<char>, TomlView)>,
    key: Seq<char>,
    sub: Seq<char>,
    required: Seq<char>,
)
    requires
        lookup(t, key) is Some,
        lookup(t, key)->0 is Table ==> text_in(get(lookup(t, key)->0, sub)) == Some(required),
    ensures
        with_text(t, key, sub, required) == t,
{
}

proof fn lemma_switched_off_again(f: Seq<(Seq<char>, TomlView)>, names: Seq<Seq<char>>)
    requires
        forall|i: int|
            0 <= i < names.len() ==> bool_in(lookup(f, #[trigger] names[i])) == Some(false),
    ensures
        switched_off(f, names) == f,
    decreases names.len(),
{
    if names.len() > 0 {
        assert forall|i: int| 0 <= i < names.drop_last().len() implies bool_in(
            lookup(f, #[trigger] names.drop_last()[i]),
        ) == Some(false) by {
            assert(names.drop_last()[i] == names[i]);
        }
        lemma_switched_off_again(f, names.drop_last());
        assert(names.last() == names[names.len() - 1]);
    }
}

proof fn lemma_routes_again(
    req: RequirementView,
    t: Seq<(Seq<char>, TomlView)>,
    provider: Seq<char>,
)
    requires
        req.forced_provider == Some(provider),
    ensures
        after_provider(req, enforced_table(req, t)) == enforced_table(req, t),
{
    let e = enforced_table(req, t);
    forced_provider_wins(req, t, provider);
    assert(with_provider(e, provider) == e);
    match table_in(lookup(e, "model_routes"@)) {
        Some(routes) => {
            let again = routes.map_values(
                |x: (Seq<char>, TomlView)| (x.0, forced_route(x.1, provider)),
            );
            assert forall|i: int| 0 <= i < routes.len() implies #[trigger] again[i] == routes[i] by {
                assert(again[i] == (routes[i].0, forced_route(routes[i].1, provider)));
                match routes[i].1 {
                    TomlView::Table(rt) => {
                        match array_in(lookup(rt, "candidates"@)) {
                            Some(cs) => {
                                let out = cs.map_values(
                                    |c: TomlView| forced_candidate(c, provider),
                                );
                                assert forall|j: int| 0 <= j < cs.len() implies #[trigger] out[j]
                                    == cs[j] by {
                                    forced_provider_binds_routes(
                                        req,
                                        t,
                                        provider,
                                        routes,
                                        i,
                                        cs,
                                        j,
                                    );
                                    lemma_candidate_bound(cs[j], provider);
                                }
                                assert(out =~= cs);
                                lemma_put_same(rt, "candidates"@, TomlView::Array(cs));
                            },
                            None => {},
                        }
                    },
                    _ => {},
                }
            }
            assert(again =~= routes);
            lemma_put_same(e, "model_routes"@, TomlView::Table(routes));
        },
        None => {},
    }
}

/// Enforcing twice changes nothing more than enforcing once.
pub proof fn enforcement_is_idempotent(req: RequirementView, v: TomlView)
    ensures
        enforced(req, enforced(req, v)) == enforced(req, v),
{
    match v {
        TomlView::Table(t) => {
            if !req.is_empty() {
                let e = enforced_table(req, t);
                lemma_keys_differ();
                lemma_after_provider_reads(req, t);
                match req.forced_provider {
                    Some(p) => lemma_routes_again(req, t, p),
                    None => {},
                }
                assert(after_provider(req, e) == e);
                match req.required_sandbox {
                    Some(s) => {
                        lemma_text_set(after_provider(req, t), "sandbox"@, "type"@, s);
                        lemma_with_text_again(e, "sandbox"@, "type"@, s);
                    },
                    None => {},
                }
                assert(after_sandbox(req, e) == e);
                if req.disabled_features.len() > 0 {
                    let a = after_sandbox(req, t);
                    lookup_after_put(a, "features"@, empty_table(), "features"@);
                    let t1 = with_entry(a, "features"@);
                    match table_in(lookup(t1, "features"@)) {
                        Some(f) => {
                            let off = switched_off(f, req.disabled_features);
                            lookup_after_put(t1, "features"@, TomlView::Table(off), "features"@);
                            assert forall|i: int| 0 <= i < req.disabled_features.len() implies bool_in(
                                lookup(off, #[trigger] req.disabled_features[i]),
                            ) == Some(false) by {
                                lemma_switched_off(
                                    f,
                                    req.disabled_features,
                                    req.disabled_features[i],
                                );
                            }
                            lemma_switched_off_again(off, req.disabled_features);
                            lemma_put_same(e, "features"@, TomlView::Table(off));
                        },
                        None => {},
                    }
                }
                assert(after_features(req, e) == e);
                if req.require_keychain_storage {
                    lemma_text_set(after_features(req, t), "credential"@, "storage"@, "keychain"@);
                    lemma_with_text_again(e, "credential"@, "storage"@, "keychain"@);
                }
                assert(after_keychain(req, e) == e);
                if req.allowed_mcp_sources.len() > 0 {
                    let globs = req.allowed_mcp_sources;
                    match (table_in(lookup(e, "mcp"@)), mcp_servers(e)) {
                        (Some(m), Some(a)) => {
                            assert forall|i: int| 0 <= i < a.len() implies matches_any(
                                globs,
                                server_source(#[trigger] a[i]),
                            ) by {
                                remaining_servers_are_allowed(req, t, i);
                            }
                            lemma_allowed_servers(a, globs);
                            lemma_put_same(m, "servers"@, TomlView::Array(a));
                            lemma_put_same(e, "mcp"@, TomlView::Table(m));
                        },
                        _ => {},
                    }
                }
                assert(enforced_table(req, e) == e);
            }
        },
        _ => {},
    }
}

/// A report on `path` among `reports`.
pub open spec fn is_reported(
    reports: Seq<DiagnosticView>,
    level: DiagnosticLevel,
    path: Seq<char>,
) -> bool {
    exists|i: int|
        0 <= i < reports.len() && (#[trigger] reports[i]).key_path == path && reports[i].level
            == level
}

proof fn lemma_reported_in(
    part: Seq<DiagnosticView>,
    before: Seq<DiagnosticView>,
    after: Seq<DiagnosticView>,
    level: DiagnosticLevel,
    path: Seq<char>,
)
    requires
        is_reported(part, level, path),
    ensures
        is_reported(before + part + after, level, path),
{
    let i = choose|i: int|
        0 <= i < part.len() && (#[trigger] part[i]).key_path == path && part[i].level == level;
    assert((before + part + after)[before.len() + i] == part[i]);
}

proof fn lemma_parts_reported(
    req: RequirementView,
    t: Seq<(Seq<char>, TomlView)>,
    level: DiagnosticLevel,
    path: Seq<char>,
)
    requires
        !req.is_empty(),
        is_reported(provider_reports(req, t), level, path) || is_reported(
            at_most_one(sandbox_report(req, t)),
            level,
            path,
        ) || is_reported(feature_reports(req, t), level, path) || is_reported(
            at_most_one(keychain_report(req, t)),
            level,
            path,
        ) || is_reported(at_most_one(server_report(req, t)), level, path),
    ensures
        is_reported(enforcement_reports(req, TomlView::Table(t)), level, path),
{
    let a = provider_reports(req, t);
    let b = at_most_one(sandbox_report(req, t));
    let c = feature_reports(req, t);
    let d = at_most_one(keychain_report(req, t));
    let e = at_most_one(server_report(req, t));
    let f = at_most_one(deny_report(req));
    let all = enforcement_reports(req, TomlView::Table(t));
    let none = Seq::<DiagnosticView>::empty();
    assert(all =~= none + a + (b + c + d + e + f));
    assert(all =~= a + b + (c + d + e + f));
    assert(all =~= (a + b) + c + (d + e + f));
    assert(all =~= (a + b + c) + d + (e + f));
    assert(all =~= (a + b + c + d) + e + f);
    if is_reported(a, level, path) {
        lemma_reported_in(a, none, b + c + d + e + f, level, path);
    } else if is_reported(b, level, path) {
        lemma_reported_in(b, a, c + d + e + f, level, path);
    } else if is_reported(c, level, path) {
        lemma_reported_in(c, a + b, d + e + f, level, path);
    } else if is_reported(d, level, path) {
        lemma_reported_in(d, a + b + c, e + f, level, path);
    } else {
        lemma_reported_in(e, a + b + c + d, f, level, path);
    }
}

/// The value at `key.sub`.
pub open spec fn setting_at(v: TomlView, key: Seq<char>, sub: Seq<char>) -> Option<TomlView> {
    match get(v, key) {
        Some(s) => get(s, sub),
        None => None,
    }
}

proof fn lemma_one_reported(d: DiagnosticView)
    ensures
        is_reported(at_most_one(Some(d)), d.level, d.key_path),
{
    assert(at_most_one(Some(d))[0] == d);
}

/// A provider that gives way to the forced one is reported as an error.
pub proof fn replaced_providers_are_reported(req: RequirementView, t: Seq<(Seq<char>, TomlView)>)
    requires
        lookup(t, "provider"@) is Some,
        get(enforced(req, TomlView::Table(t)), "provider"@) != lookup(t, "provider"@),
    ensures
        is_reported(
            enforcement_reports(req, TomlView::Table(t)),
            DiagnosticLevel::Error,
            "provider"@,
        ),
{
    lemma_keys_differ();
    lemma_after_provider_reads(req, t);
    match req.forced_provider {
        Some(p) => {
            forced_provider_wins(req, t, p);
            let d = provider_report(req, t)->0;
            lemma_one_reported(d);
            lemma_reported_in(
                at_most_one(Some(d)),
                Seq::empty(),
                route_reports(routes_of(t), p),
                DiagnosticLevel::Error,
                "provider"@,
            );
            assert(Seq::<DiagnosticView>::empty() + at_most_one(Some(d)) =~= at_most_one(Some(d)));
            lemma_parts_reported(req, t, DiagnosticLevel::Error, "provider"@);
        },
        None => {},
    }
}

/// A sandbox type that gives way to the required one is reported as an error.
pub proof fn replaced_sandboxes_are_reported(req: RequirementView, t: Seq<(Seq<char>, TomlView)>)
    requires
        setting_at(TomlView::Table(t), "sandbox"@, "type"@) is Some,
        setting_at(enforced(req, TomlView::Table(t)), "sandbox"@, "type"@) != setting_at(
            TomlView::Table(t),
            "sandbox"@,
            "type"@,
        ),
    ensures
        is_reported(
            enforcement_reports(req, TomlView::Table(t)),
            DiagnosticLevel::Error,
            "sandbox.type"@,
        ),
{
    lemma_after_provider_reads(req, t);
    match req.required_sandbox {
        Some(s) => {
            required_sandbox_wins(req, t, s);
            lemma_one_reported(sandbox_report(req, t)->0);
            lemma_parts_reported(req, t, DiagnosticLevel::Error, "sandbox.type"@);
        },
        None => {},
    }
}

/// A place for credentials that gives way to the keychain is reported as an
/// error.
pub proof fn replaced_storages_are_reported(req: RequirementView, t: Seq<(Seq<char>, TomlView)>)
    requires
        setting_at(TomlView::Table(t), "credential"@, "storage"@) is Some,
        setting_at(enforced(req, TomlView::Table(t)), "credential"@, "storage"@) != setting_at(
            TomlView::Table(t),
            "credential"@,
            "storage"@,
        ),
    ensures
        is_reported(
            enforcement_reports(req, TomlView::Table(t)),
            DiagnosticLevel::Error,
            "credential.storage"@,
        ),
{
    lemma_after_provider_reads(req, t);
    if req.require_keychain_storage {
        keychain_storage_wins(req, t);
        lemma_one_reported(keychain_report(req, t)->0);
        lemma_parts_reported(req, t, DiagnosticLevel::Error, "credential.storage"@);
    }
}

proof fn lemma_switched_off_reported(
    f: Seq<(Seq<char>, TomlView)>,
    names: Seq<Seq<char>>,
    name: Seq<char>,
)
    requires
        names.contains(name),
        lookup(f, name) is Some,
        lookup(f, name) != Some(TomlView::Boolean(false)),
    ensures
        is_reported(
            switched_off_reports(f, names),
            DiagnosticLevel::Error,
            "features."@ + name,
        ),
    decreases names.len(),
{
    if names.len() > 0 {
        let rest = names.drop_last();
        let below = switched_off_reports(f, rest);
        let all = switched_off_reports(f, names);
        if rest.contains(name) {
            lemma_switched_off_reported(f, rest, name);
            assert(below =~= all.take(below.len() as int));
            lemma_prefix_reported(below, all, DiagnosticLevel::Error, "features."@ + name);
        } else {
            lemma_switched_off(f, rest, name);
            let k = choose|k: int| 0 <= k < names.len() && names[k] == name;
            if k < rest.len() {
                assert(rest[k] == name);
            }
            assert(all[all.len() - 1].key_path == "features."@ + name);
        }
    }
}

proof fn lemma_prefix_reported(
    below: Seq<DiagnosticView>,
    all: Seq<DiagnosticView>,
    level: DiagnosticLevel,
    path: Seq<char>,
)
    requires
        is_reported(below, level, path),
        below.len() <= all.len(),
        below == all.take(below.len() as int),
    ensures
        is_reported(all, level, path),
{
    let i = choose|i: int|
        0 <= i < below.len() && (#[trigger] below[i]).key_path == path && below[i].level == level;
    assert(all[i] == below[i]);
}

/// A feature that was set and is switched off is reported as an error.
pub proof fn disabled_features_are_reported(
    req: RequirementView,
    t: Seq<(Seq<char>, TomlView)>,
    feature: Seq<char>,
)
    requires
        setting_at(TomlView::Table(t), "features"@, feature) is Some,
        setting_at(enforced(req, TomlView::Table(t)), "features"@, feature) != setting_at(
            TomlView::Table(t),
            "features"@,
            feature,
        ),
    ensures
        is_reported(
            enforcement_reports(req, TomlView::Table(t)),
            DiagnosticLevel::Error,
            "features."@ + feature,
        ),
{
    lemma_after_provider_reads(req, t);
    if req.disabled_features.len() > 0 {
        disabled_features_are_off(req, t, feature);
        let f = table_in(lookup(t, "features"@))->0;
        lemma_switched_off_reported(f, req.disabled_features, feature);
        lemma_parts_reported(req, t, DiagnosticLevel::Error, "features."@ + feature);
    }
}

/// MCP servers that are removed are reported with a warning.
pub proof fn removed_servers_are_reported(
    req: RequirementView,
    t: Seq<(Seq<char>, TomlView)>,
    i: int,
)
    requires
        req.allowed_mcp_sources.len() > 0,
        mcp_servers(t) is Some,
        0 <= i < (mcp_servers(t)->0).len(),
        !matches_any(req.allowed_mcp_sources, server_source((mcp_servers(t)->0)[i])),
    ensures
        is_reported(
            enforcement_reports(req, TomlView::Table(t)),
            DiagnosticLevel::Warning,
            "mcp.servers"@,
        ),
{
    lemma_after_provider_reads(req, t);
    lemma_some_removed(mcp_servers(t)->0, req.allowed_mcp_sources, i);
    lemma_one_reported(server_report(req, t)->0);
    lemma_parts_reported(req, t, DiagnosticLevel::Warning, "mcp.servers"@);
}

proof fn lemma_some_removed(servers: Seq<TomlView>, globs: Seq<Seq<char>>, i: int)
    requires
        0 <= i < servers.len(),
        !matches_any(globs, server_source(servers[i])),
    ensures
        allowed_servers(servers, globs).len() < servers.len(),
    decreases servers.len(),
{
    lemma_no_more_allowed(servers.drop_last(), globs);
    if i < servers.len() - 1 {
        lemma_some_removed(servers.drop_last(), globs, i);
    }
}

proof fn lemma_no_more_allowed(servers: Seq<TomlView>, globs: Seq<Seq<char>>)
    ensures
        allowed_servers(servers, globs).len() <= servers.len(),
    decreases servers.len(),
{
    if servers.len() > 0 {
        lemma_no_more_allowed(servers.drop_last(), globs);
    }
}

proof fn lemma_candidate_reported(
    name: Seq<char>,
    cs: Seq<TomlView>,
    provider: Seq<char>,
    j: int,
)
    requires
        0 <= j < cs.len(),
        !candidate_is_bound(cs[j], provider),
    ensures
        is_reported(
            candidate_reports(name, cs, provider),
            DiagnosticLevel::Error,
            "model_routes."@ + name,
        ),
    decreases cs.len(),
{
    let below = candidate_reports(name, cs.drop_last(), provider);
    let last = at_most_one(candidate_report(name, cs.last(), provider));
    let path = "model_routes."@ + name;
    let none = Seq::<DiagnosticView>::empty();
    assert(none + below =~= below);
    assert(below + last + none =~= below + last);
    if j < cs.len() - 1 {
        lemma_candidate_reported(name, cs.drop_last(), provider, j);
        lemma_reported_in(below, none, last, DiagnosticLevel::Error, path);
    } else {
        lemma_one_reported(candidate_report(name, cs.last(), provider)->0);
        lemma_reported_in(last, below, none, DiagnosticLevel::Error, path);
    }
}

proof fn lemma_route_reported(
    routes: Seq<(Seq<char>, TomlView)>,
    provider: Seq<char>,
    i: int,
    j: int,
)
    requires
        0 <= i < routes.len(),
        0 <= j < candidates_of(routes[i].1).len(),
        !candidate_is_bound(candidates_of(routes[i].1)[j], provider),
    ensures
        is_reported(
            route_reports(routes, provider),
            DiagnosticLevel::Error,
            "model_routes."@ + routes[i].0,
        ),
    decreases routes.len(),
{
    let below = route_reports(routes.drop_last(), provider);
    let last = candidate_reports(routes.last().0, candidates_of(routes.last().1), provider);
    let path = "model_routes."@ + routes[i].0;
    let none = Seq::<DiagnosticView>::empty();
    assert(none + below =~= below);
    assert(below + last + none =~= below + last);
    if i < routes.len() - 1 {
        lemma_route_reported(routes.drop_last(), provider, i, j);
        lemma_reported_in(below, none, last, DiagnosticLevel::Error, path);
    } else {
        lemma_candidate_reported(
            routes.last().0,
            candidates_of(routes.last().1),
            provider,
            j,
        );
        lemma_reported_in(last, below, none, DiagnosticLevel::Error, path);
    }
}

/// A candidate of a model route whose provider gives way to the forced one is
/// reported as an error.
pub proof fn rebound_candidates_are_reported(
    req: RequirementView,
    t: Seq<(Seq<char>, TomlView)>,
    provider: Seq<char>,
    i: int,
    j: int,
)
    requires
        req.forced_provider == Some(provider),
        0 <= i < routes_of(t).len(),
        0 <= j < candidates_of(routes_of(t)[i].1).len(),
        !candidate_is_bound(candidates_of(routes_of(t)[i].1)[j], provider),
    ensures
        is_reported(
            enforcement_reports(req, TomlView::Table(t)),
            DiagnosticLevel::Error,
            "model_routes."@ + routes_of(t)[i].0,
        ),
{
    let path = "model_routes."@ + routes_of(t)[i].0;
    let top = at_most_one(provider_report(req, t));
    let rest = route_reports(routes_of(t), provider);
    let none = Seq::<DiagnosticView>::empty();
    lemma_route_reported(routes_of(t), provider, i, j);
    assert(top + rest + none =~= top + rest);
    lemma_reported_in(rest, top, none, DiagnosticLevel::Error, path);
    lemma_parts_reported(req, t, DiagnosticLevel::Error, path);
}

/// Setting a text at `key.sub` keeps everything else that is said there.
proof fn lemma_text_keeps(
    t: Seq<(Seq<char>, TomlView)>,
    key: Seq<char>,
    sub: Seq<char>,
    required: Seq<char>,
    s: Seq<(Seq<char>, TomlView)>,
    other: Seq<char>,
)
    requires
        lookup(t, key) == Some(TomlView::Table(s)),
        other != sub,
    ensures
        lookup(with_text(t, key, sub, required), key) matches Some(TomlView::Table(q)) && lookup(
            q,
            other,
        ) == lookup(s, other),
{
    lookup_after_put(s, sub, TomlView::Text(required), other);
    lookup_after_put(t, key, TomlView::Table(put(s, sub, TomlView::Text(required))), key);
}

/// What is said of the sandbox besides its type stays.
pub proof fn other_sandbox_settings_stay(
    req: RequirementView,
    t: Seq<(Seq<char>, TomlView)>,
    s: Seq<(Seq<char>, TomlView)>,
    key: Seq<char>,
)
    requires
        lookup(t, "sandbox"@) == Some(TomlView::Table(s)),
        key != "type"@,
    ensures
        setting_at(enforced(req, TomlView::Table(t)), "sandbox"@, key) == lookup(s, key),
        req.required_sandbox is None ==> get(enforced(req, TomlView::Table(t)), "sandbox"@)
            == lookup(t, "sandbox"@),
{
    lemma_after_provider_reads(req, t);
    match req.required_sandbox {
        Some(r) => lemma_text_keeps(after_provider(req, t), "sandbox"@, "type"@, r, s, key),
        None => {},
    }
}

/// What is said of credentials besides where they are kept stays.
pub proof fn other_credential_settings_stay(
    req: RequirementView,
    t: Seq<(Seq<char>, TomlView)>,
    s: Seq<(Seq<char>, TomlView)>,
    key: Seq<char>,
)
    requires
        lookup(t, "credential"@) == Some(TomlView::Table(s)),
        key != "storage"@,
    ensures
        setting_at(enforced(req, TomlView::Table(t)), "credential"@, key) == lookup(s, key),
        !req.require_keychain_storage ==> get(enforced(req, TomlView::Table(t)), "credential"@)
            == lookup(t, "credential"@),
{
    lemma_after_provider_reads(req, t);
    if req.require_keychain_storage {
        lemma_text_keeps(
            after_features(req, t),
            "credential"@,
            "storage"@,
            "keychain"@,
            s,
            key,
        );
    }
}

/// Where no provider is forced, the provider and the model routes stay.
pub proof fn free_providers_stay(req: RequirementView, t: Seq<(Seq<char>, TomlView)>)
    requires
        req.forced_provider is None,
    ensures
        get(enforced(req, TomlView::Table(t)), "provider"@) == lookup(t, "provider"@),
        get(enforced(req, TomlView::Table(t)), "model_routes"@) == lookup(t, "model_routes"@),
{
    lemma_after_provider_reads(req, t);
}

/// Without disabled features all features stay.
pub proof fn free_features_stay(req: RequirementView, t: Seq<(Seq<char>, TomlView)>)
    requires
        req.disabled_features.len() == 0,
    ensures
        get(enforced(req, TomlView::Table(t)), "features"@) == lookup(t, "features"@),
{
    lemma_after_provider_reads(req, t);
}

/// Where nothing is required, nothing changes and nothing is reported.
pub proof fn without_requirements_nothing_changes(req: RequirementView, v: TomlView)
    requires
        req.forced_provider is None,
        req.required_sandbox is None,
        req.disabled_features.len() == 0,
        !req.require_keychain_storage,
        req.allowed_mcp_sources.len() == 0,
    ensures
        enforced(req, v) == v,
        req.managed_deny.len() == 0 ==> enforcement_reports(req, v).len() == 0,
{
}

proof fn lemma_forced_routes(
    req: RequirementView,
    t: Seq<(Seq<char>, TomlView)>,
    provider: Seq<char>,
    routes: Seq<(Seq<char>, TomlView)>,
)
    requires
        req.forced_provider == Some(provider),
        lookup(t, "model_routes"@) == Some(TomlView::Table(routes)),
    ensures
        get(enforced(req, TomlView::Table(t)), "model_routes"@) == Some(
            TomlView::Table(
                routes.map_values(|e: (Seq<char>, TomlView)| (e.0, forced_route(e.1, provider))),
            ),
        ),
{
    lemma_keys_differ();
    lemma_after_provider_reads(req, t);
    let t1 = with_provider(t, provider);
    lookup_after_put(t, "provider"@, TomlView::Text(provider), "model_routes"@);
    let forced = routes.map_values(
        |e: (Seq<char>, TomlView)| (e.0, forced_route(e.1, provider)),
    );
    lookup_after_put(t1, "model_routes"@, TomlView::Table(forced), "model_routes"@);
}

/// A forced provider changes nothing of a model route but the providers of its
/// candidates: every route stays under its name, with all its candidates in
/// their order and whatever else it says.
pub proof fn routes_keep_everything_else(
    req: RequirementView,
    t: Seq<(Seq<char>, TomlView)>,
    provider: Seq<char>,
    routes: Seq<(Seq<char>, TomlView)>,
    i: int,
    key: Seq<char>,
)
    requires
        req.forced_provider == Some(provider),
        lookup(t, "model_routes"@) == Some(TomlView::Table(routes)),
        0 <= i < routes.len(),
    ensures
        get(enforced(req, TomlView::Table(t)), "model_routes"@) matches Some(TomlView::Table(q)) && {
            &&& q.len() == routes.len()
            &&& q[i].0 == routes[i].0
            &&& key != "candidates"@ ==> get(q[i].1, key) == get(routes[i].1, key)
            &&& !(get(routes[i].1, "candidates"@) matches Some(TomlView::Array(_))) ==> q[i].1
                == routes[i].1
            &&& get(routes[i].1, "candidates"@) matches Some(TomlView::Array(cs)) ==> (get(
                q[i].1,
                "candidates"@,
            ) matches Some(TomlView::Array(ds)) && ds.len() == cs.len())
        },
{
    lemma_forced_routes(req, t, provider, routes);
    match routes[i].1 {
        TomlView::Table(rt) => {
            match array_in(lookup(rt, "candidates"@)) {
                Some(cs) => {
                    let v = TomlView::Array(
                        cs.map_values(|c: TomlView| forced_candidate(c, provider)),
                    );
                    lookup_after_put(rt, "candidates"@, v, key);
                },
                None => {},
            }
        },
        _ => {},
    }
}

/// A candidate whose provider is forced keeps its model and whatever else it
/// says; one that names no provider stays as it is.
pub proof fn candidates_keep_everything_else(
    req: RequirementView,
    t: Seq<(Seq<char>, TomlView)>,
    provider: Seq<char>,
    routes: Seq<(Seq<char>, TomlView)>,
    i: int,
    cs: Seq<TomlView>,
    j: int,
    key: Seq<char>,
)
    requires
        req.forced_provider == Some(provider),
        lookup(t, "model_routes"@) == Some(TomlView::Table(routes)),
        0 <= i < routes.len(),
        get(routes[i].1, "candidates"@) == Some(TomlView::Array(cs)),
        0 <= j < cs.len(),
    ensures
        get(enforced(req, TomlView::Table(t)), "model_routes"@) matches Some(TomlView::Table(q)) && (
        get(q[i].1, "candidates"@) matches Some(TomlView::Array(ds)) && {
            &&& ds.len() == cs.len()
            &&& key != "provider_id"@ ==> get(ds[j], key) == get(cs[j], key)
            &&& get(cs[j], "provider_id"@) is Some ==> get(ds[j], "provider_id"@) == Some(
                TomlView::Text(provider),
            )
            &&& get(cs[j], "provider_id"@) is None ==> ds[j] == cs[j]
        }),
{
    lemma_forced_routes(req, t, provider, routes);
    match routes[i].1 {
        TomlView::Table(rt) => {
            let v = TomlView::Array(cs.map_values(|c: TomlView| forced_candidate(c, provider)));
            lookup_after_put(rt, "candidates"@, v, "candidates"@);
            match cs[j] {
                TomlView::Table(c) => {
                    lookup_after_put(c, "provider_id"@, TomlView::Text(provider), key);
                },
                _ => {},
            }
        },
        _ => {},
    }
}

/// How many of the first `n` servers have a source that some glob matches.
pub open spec fn allowed_count(servers: Seq<TomlView>, globs: Seq<Seq<char>>, n: int) -> int
    decreases n,
{
    if n <= 0 {
        0
    } else {
        allowed_count(servers, globs, n - 1) + (if exists|g: int|
            0 <= g < globs.len() && crate::config::glob::glob_matches(
                #[trigger] globs[g],
                match get(servers[n - 1], "source"@) {
                    Some(TomlView::Text(s)) => s,
                    _ => match get(servers[n - 1], "command"@) {
                        Some(TomlView::Text(s)) => s,
                        _ => Seq::empty(),
                    },
                },
            ) {
            1int
        } else {
            0int
        })
    }
}

proof fn lemma_matches(globs: Seq<Seq<char>>, s: TomlView)
    ensures
        matches_any(globs, server_source(s)) <==> exists|g: int|
            0 <= g < globs.len() && crate::config::glob::glob_matches(
                #[trigger] globs[g],
                match get(s, "source"@) {
                    Some(TomlView::Text(x)) => x,
                    _ => match get(s, "command"@) {
                        Some(TomlView::Text(x)) => x,
                        _ => Seq::empty(),
                    },
                },
            ),
{
    let src = match get(s, "source"@) {
        Some(TomlView::Text(x)) => x,
        _ => match get(s, "command"@) {
            Some(TomlView::Text(x)) => x,
            _ => Seq::empty(),
        },
    };
    assert(server_source(s) == src);
    if matches_any(globs, src) {
        let g = choose|g: int|
            0 <= g < globs.len() && #[trigger] crate::config::glob::glob_matches(globs[g], src);
        assert(crate::config::glob::glob_matches(globs[g], src));
    }
}

proof fn lemma_allowed_kept(servers: Seq<TomlView>, globs: Seq<Seq<char>>, n: int, i: int)
    requires
        0 <= n <= servers.len(),
    ensures
        allowed_servers(servers.take(n), globs).len() == allowed_count(servers, globs, n),
        0 <= i < n && matches_any(globs, server_source(servers[i])) ==> {
            &&& 0 <= allowed_count(servers, globs, i) < allowed_count(servers, globs, n)
            &&& allowed_servers(servers.take(n), globs)[allowed_count(servers, globs, i)]
                == servers[i]
        },
    decreases n,
{
    if n > 0 {
        assert(servers.take(n).drop_last() =~= servers.take(n - 1));
        assert(servers.take(n).last() == servers[n - 1]);
        lemma_allowed_kept(servers, globs, n - 1, i);
        lemma_allowed_kept(servers, globs, n - 1, 0);
        lemma_matches(globs, servers[n - 1]);
    } else {
        assert(servers.take(0) =~= Seq::empty());
    }
}

/// Every MCP server whose source is allowed is kept, as it is and in its order;
/// nothing else that is said of MCP changes.
pub proof fn allowed_servers_are_kept(
    req: RequirementView,
    t: Seq<(Seq<char>, TomlView)>,
    m: Seq<(Seq<char>, TomlView)>,
    servers: Seq<TomlView>,
    i: int,
    key: Seq<char>,
)
    requires
        lookup(t, "mcp"@) == Some(TomlView::Table(m)),
        lookup(m, "servers"@) == Some(TomlView::Array(servers)),
        req.allowed_mcp_sources.len() > 0,
    ensures
        get(enforced(req, TomlView::Table(t)), "mcp"@) matches Some(TomlView::Table(q)) && {
            &&& key != "servers"@ ==> lookup(q, key) == lookup(m, key)
            &&& lookup(q, "servers"@) matches Some(TomlView::Array(kept)) && {
                &&& kept.len() == allowed_count(
                    servers,
                    req.allowed_mcp_sources,
                    servers.len() as int,
                )
                &&& 0 <= i < servers.len() && matches_any(
                    req.allowed_mcp_sources,
                    server_source(servers[i]),
                ) ==> kept[allowed_count(servers, req.allowed_mcp_sources, i)] == servers[i]
            }
        },
{
    let globs = req.allowed_mcp_sources;
    lemma_after_provider_reads(req, t);
    let k = after_keychain(req, t);
    let kept = allowed_servers(servers, globs);
    let inner = put(m, "servers"@, TomlView::Array(kept));
    lookup_after_put(m, "servers"@, TomlView::Array(kept), key);
    lookup_after_put(k, "mcp"@, TomlView::Table(inner), "mcp"@);
    lemma_allowed_kept(servers, globs, servers.len() as int, i);
    assert(servers.take(servers.len() as int) =~= servers);
}

/// Without a list of allowed sources all MCP servers stay.
pub proof fn free_servers_stay(req: RequirementView, t: Seq<(Seq<char>, TomlView)>)
    requires
        req.allowed_mcp_sources.len() == 0,
    ensures
        get(enforced(req, TomlView::Table(t)), "mcp"@) == lookup(t, "mcp"@),
{
    lemma_after_provider_reads(req, t);
}

/// The requirements of a configuration are those that its table `requirements`
/// states, each under its own key.
pub proof fn requirements_are_read(v: TomlView, t: Seq<(Seq<char>, TomlView)>)
    requires
        get(v, "requirements"@) == Some(TomlView::Table(t)),
    ensures
        ({
            let r = requirements_in(v);
            &&& match lookup(t, "forced_provider"@) {
                Some(TomlView::Text(s)) => r.forced_provider == Some(s),
                _ => r.forced_provider is None,
            }
            &&& match lookup(t, "required_sandbox"@) {
                Some(TomlView::Text(s)) => r.required_sandbox == Some(s),
                _ => r.required_sandbox is None,
            }
            &&& r.require_keychain_storage <==> lookup(t, "require_keychain_storage"@) == Some(
                TomlView::Boolean(true),
            )
            &&& match lookup(t, "disabled_features"@) {
                Some(TomlView::Array(a)) => r.disabled_features == crate::toml_value::texts_of(a),
                _ => r.disabled_features.len() == 0,
            }
            &&& match lookup(t, "allowed_mcp_sources"@) {
                Some(TomlView::Array(a)) => r.allowed_mcp_sources == crate::toml_value::texts_of(a),
                _ => r.allowed_mcp_sources.len() == 0,
            }
            &&& match lookup(t, "managed_deny"@) {
                Some(TomlView::Array(a)) => r.managed_deny == crate::toml_value::texts_of(a),
                _ => r.managed_deny.len() == 0,
            }
        }),
{
}

/// The texts of a list are all its texts, in order.
pub proof fn texts_of_a_list(a: Seq<TomlView>, b: Seq<TomlView>, s: Seq<char>)
    ensures
        crate::toml_value::texts_of(a + b) == crate::toml_value::texts_of(a)
            + crate::toml_value::texts_of(b),
        crate::toml_value::texts_of(seq![TomlView::Text(s)]) == seq![s],
        forall|v: TomlView|
            !(v is Text) ==> crate::toml_value::texts_of(#[trigger] seq![v]).len() == 0,
    decreases b.len(),
{
    let none = Seq::<TomlView>::empty();
    assert(crate::toml_value::texts_of(none) =~= Seq::empty());
    assert(seq![TomlView::Text(s)].drop_last() =~= none);
    assert(crate::toml_value::texts_of(seq![TomlView::Text(s)]) =~= seq![s]);
    assert forall|v: TomlView| !(v is Text) implies crate::toml_value::texts_of(
        #[trigger] seq![v],
    ).len() == 0 by {
        assert(seq![v].drop_last() =~= none);
    }
    if b.len() == 0 {
        assert(a + b =~= a);
        assert(crate::toml_value::texts_of(a) + crate::toml_value::texts_of(b)
            =~= crate::toml_value::texts_of(a));
    } else {
        texts_of_a_list(a, b.drop_last(), s);
        assert((a + b).drop_last() =~= a + b.drop_last());
        assert(crate::toml_value::texts_of(a + b) =~= crate::toml_value::texts_of(a)
            + crate::toml_value::texts_of(b));
    }
}

} // verus!
