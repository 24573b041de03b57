//! The permission rules of a configuration.

use vstd::prelude::*;

use crate::domain::policy::PolicyDecision;
use crate::entries::{
    distinct_keys, in_key_order, key_index, lemma_key_index, lookup, lookup_after_put, put,
    put_keeps_order,
};
use crate::json::{
    float_json, float_json_of, JsonEntry, JsonNumber, JsonValue, JsonView, NumberView,
};
use crate::session::acp::opt_json;
use crate::text::{lowercase_of, opt_view, owned, same, to_lowercase};
use crate::toml_value::{
    array_in, entries_view, get, integer_in, items_view, lemma_array_view, lemma_table_view,
    table_in, text_in, text_of, TomlEntry, TomlValue, TomlView,
};

verus! {

/// The JSON value of a TOML value. A date or time has none.
pub open spec fn json_of_toml(v: TomlView) -> JsonView
    decreases v, 0nat,
{
    match v {
        TomlView::Text(s) => JsonView::Text(s),
        TomlView::Integer(i) => JsonView::Number(
            if i >= 0 {
                NumberView::Unsigned(i as u64)
            } else {
                NumberView::Signed(i as i64)
            },
        ),
        TomlView::Float(s) => float_json_of(s),
        TomlView::Boolean(b) => JsonView::Bool(b),
        TomlView::Datetime(_) => JsonView::Null,
        TomlView::Array(a) => JsonView::Array(
            Seq::new(
                a.len(),
                |i: int|
                    if 0 <= i < a.len() {
                        json_of_toml(a[i])
                    } else {
                        JsonView::Null
                    },
            ),
        ),
        TomlView::Table(t) => JsonView::Object(json_entries(t, t.len())),
    }
}

/// The JSON entries of the first `n` entries of a table.
pub open spec fn json_entries(t: Seq<(Seq<char>, TomlView)>, n: nat) -> Seq<(Seq<char>, JsonView)>
    decreases t, n,
{
    if n == 0 || n > t.len() {
        Seq::empty()
    } else {
        put(json_entries(t, (n - 1) as nat), t[n - 1].0, json_of_toml(t[n - 1].1))
    }
}

/// The JSON value of a TOML value.
pub fn toml_to_json_value(v: &TomlValue) -> (r: JsonValue)
    ensures
        r@ == json_of_toml(v@),
    decreases v,
{
    broadcast use {lemma_table_view, lemma_array_view};
    broadcast use {crate::json::lemma_object_view, crate::json::lemma_array_view};

    match v {
        TomlValue::Text(s) => JsonValue::Text(s.clone()),
        TomlValue::Integer(i) => JsonValue::Number(
            if *i >= 0 {
                JsonNumber::Unsigned(*i as u64)
            } else {
                JsonNumber::Signed(*i)
            },
        ),
        TomlValue::Float(s) => float_json(s.as_str()),
        TomlValue::Boolean(b) => JsonValue::Bool(*b),
        TomlValue::Datetime(_) => JsonValue::Null,
        TomlValue::Array(a) => {
            let mut out: Vec<JsonValue> = Vec::new();
            let mut i: usize = 0;
            while i < a.len()
                invariant
                    i <= a@.len(),
                    out@.len() == i,
                    forall|k: int| 0 <= k < i ==> out@[k]@ == json_of_toml(a@[k]@),
                    decreases_to!(v => a),
                decreases a@.len() - i,
            {
                assert(decreases_to!(a => a@[i as int]));
                let c = toml_to_json_value(&a[i]);
                out.push(c);
                i = i + 1;
            }
            proof {
                match json_of_toml(v@) {
                    JsonView::Array(s) => {
                        assert(crate::json::items_view(out@) =~= s);
                    },
                    _ => {},
                }
            }
            JsonValue::Array(out)
        },
        TomlValue::Table(es) => {
            let mut out: Vec<JsonEntry> = Vec::new();
            let ghost t = entries_view(es@);
            let mut i: usize = 0;
            assert(crate::json::entries_view(out@) =~= json_entries(t, 0));
            while i < es.len()
                invariant
                    i <= es@.len(),
                    t == entries_view(es@),
                    crate::json::entries_view(out@) == json_entries(t, i as nat),
                    decreases_to!(v => es),
                decreases es@.len() - i,
            {
                assert(decreases_to!(es => es@[i as int]));
                let c = toml_to_json_value(&es[i].value);
                assert(t[i as int] == (es@[i as int].key@, es@[i as int].value@));
                crate::json::set_key(&mut out, es[i].key.as_str(), c);
                i = i + 1;
            }
            JsonValue::Object(out)
        },
    }
}

/// A rule of a policy. Its matchers are kept as the JSON values that they are
/// read from.
#[derive(Debug)]
pub struct PolicyRule {
    /// The name of the tool, or `*`.
    pub tool_pattern: String,
    pub arg_patterns: Vec<JsonValue>,
    pub command: Option<JsonValue>,
    pub resource: Option<JsonValue>,
    pub network: Option<JsonValue>,
    pub mcp: Option<JsonValue>,
    pub rule_id: Option<String>,
    pub decision: PolicyDecision,
    pub priority: u8,
}

/// The mathematical value of a [`PolicyRule`].
pub struct RuleView {
    pub tool_pattern: Seq<char>,
    pub arg_patterns: Seq<JsonView>,
    pub command: Option<JsonView>,
    pub resource: Option<JsonView>,
    pub network: Option<JsonView>,
    pub mcp: Option<JsonView>,
    pub rule_id: Option<Seq<char>>,
    pub decision: PolicyDecision,
    pub priority: u8,
}

impl View for PolicyRule {
    type V = RuleView;

    open spec fn view(&self) -> RuleView {
        RuleView {
            tool_pattern: self.tool_pattern@,
            arg_patterns: crate::json::items_view(self.arg_patterns@),
            command: opt_json(self.command),
            resource: opt_json(self.resource),
            network: opt_json(self.network),
            mcp: opt_json(self.mcp),
            rule_id: opt_view(self.rule_id),
            decision: self.decision,
            priority: self.priority,
        }
    }
}

/// The views of a list of rules.
pub open spec fn rules_view(rules: Seq<PolicyRule>) -> Seq<RuleView> {
    rules.map_values(|r: PolicyRule| r@)
}

/// A rule for a tool without matchers.
pub open spec fn plain_rule(tool: Seq<char>, decision: PolicyDecision) -> RuleView {
    RuleView {
        tool_pattern: tool,
        arg_patterns: Seq::empty(),
        command: None,
        resource: None,
        network: None,
        mcp: None,
        rule_id: None,
        decision,
        priority: 0,
    }
}

/// The decision that a text names, in letters of either case.
pub open spec fn decision_of(text: Seq<char>) -> Option<PolicyDecision> {
    let l = lowercase_of(text);
    if l == "allow"@ {
        Some(PolicyDecision::Allow)
    } else if l == "deny"@ {
        Some(PolicyDecision::Deny)
    } else if l == "ask"@ {
        Some(PolicyDecision::Ask)
    } else {
        None
    }
}

/// The rules of a table from tools to decisions. Where the value is no
/// decision there is no rule.
pub open spec fn simple_rules(t: Seq<(Seq<char>, TomlView)>) -> Seq<RuleView>
    decreases t.len(),
{
    if t.len() == 0 {
        Seq::empty()
    } else {
        let below = simple_rules(t.drop_last());
        match t.last().1 {
            TomlView::Text(s) => match decision_of(s) {
                Some(d) => below.push(plain_rule(t.last().0, d)),
                None => below,
            },
            _ => below,
        }
    }
}

/// The number whose low eight bits are those of an integer.
pub open spec fn low_byte(n: int) -> u8 {
    (n % 256) as u8
}

/// The JSON value of a key of an entry.
pub open spec fn matcher_of(entry: TomlView, key: Seq<char>) -> Option<JsonView> {
    match get(entry, key) {
        Some(v) => Some(json_of_toml(v)),
        None => None,
    }
}

/// The JSON values of the elements of an array.
pub open spec fn json_items(a: Seq<TomlView>) -> Seq<JsonView> {
    a.map_values(|v: TomlView| json_of_toml(v))
}

/// The rule that an entry with matchers states. There is none without a tool
/// or without a decision.
pub open spec fn extended_rule(entry: TomlView) -> Option<RuleView> {
    match (text_in(get(entry, "tool"@)), text_in(get(entry, "decision"@))) {
        (Some(tool), Some(d)) => match decision_of(d) {
            Some(decision) => Some(
                RuleView {
                    tool_pattern: tool,
                    arg_patterns: match array_in(get(entry, "arg_patterns"@)) {
                        Some(a) => json_items(a),
                        None => Seq::empty(),
                    },
                    command: matcher_of(entry, "command"@),
                    resource: matcher_of(entry, "resource"@),
                    network: matcher_of(entry, "network"@),
                    mcp: matcher_of(entry, "mcp"@),
                    rule_id: text_in(get(entry, "rule_id"@)),
                    decision,
                    priority: match integer_in(get(entry, "priority"@)) {
                        Some(n) => low_byte(n),
                        None => 0,
                    },
                },
            ),
            None => None,
        },
        _ => None,
    }
}

/// The rules that a list of entries states, in order.
pub open spec fn extended_rules(a: Seq<TomlView>) -> Seq<RuleView>
    decreases a.len(),
{
    if a.len() == 0 {
        Seq::empty()
    } else {
        match extended_rule(a.last()) {
            Some(r) => extended_rules(a.drop_last()).push(r),
            None => extended_rules(a.drop_last()),
        }
    }
}

/// The rules without any in the configuration: files may be read, and for all
/// else the user is asked.
pub open spec fn default_rules() -> Seq<RuleView> {
    seq![
        plain_rule("read_file"@, PolicyDecision::Allow),
        plain_rule("*"@, PolicyDecision::Ask),
    ]
}

/// The rules of a configuration: those of the table `rules`, then those of the
/// list `permission_rules`.
pub open spec fn policy_of(cfg: TomlView) -> Seq<RuleView> {
    let simple = table_in(get(cfg, "rules"@));
    let extended = array_in(get(cfg, "permission_rules"@));
    if simple is None && extended is None {
        default_rules()
    } else {
        (match simple {
            Some(t) => simple_rules(t),
            None => Seq::empty(),
        }) + (match extended {
            Some(a) => extended_rules(a),
            None => Seq::empty(),
        })
    }
}

/// The rules that decide which tool calls may run.
#[derive(Debug)]
pub struct PermissionPolicy {
    rules: Vec<PolicyRule>,
}

impl View for PermissionPolicy {
    type V = Seq<RuleView>;

    closed spec fn view(&self) -> Seq<RuleView> {
        rules_view(self.rules@)
    }
}

impl PermissionPolicy {
    /// No rule.
    pub fn new() -> (r: Self)
        ensures
            r@ == Seq::<RuleView>::empty(),
    {
        let r = PermissionPolicy { rules: Vec::new() };
        assert(r@ =~= Seq::empty());
        r
    }

    /// Adds a rule at the end.
    pub fn add_rule(&mut self, rule: PolicyRule)
        ensures
            final(self)@ == old(self)@.push(rule@),
    {
        let ghost before = self@;
        let ghost v = rule@;
        self.rules.push(rule);
        assert(self@ =~= before.push(v));
    }

    /// The rules, in the order in which they were added.
    pub fn rules(&self) -> (r: &Vec<PolicyRule>)
        ensures
            rules_view(r@) == self@,
    {
        &self.rules
    }
}

fn read_decision(text: &str) -> (r: Option<PolicyDecision>)
    ensures
        r == decision_of(text@),
{
    let l = to_lowercase(text);
    if same(l.as_str(), "allow") {
        Some(PolicyDecision::Allow)
    } else if same(l.as_str(), "deny") {
        Some(PolicyDecision::Deny)
    } else if same(l.as_str(), "ask") {
        Some(PolicyDecision::Ask)
    } else {
        None
    }
}

fn new_plain_rule(tool: &str, decision: PolicyDecision) -> (r: PolicyRule)
    ensures
        r@ == plain_rule(tool@, decision),
{
    let none: Vec<JsonValue> = Vec::new();
    assert(crate::json::items_view(none@) =~= Seq::empty());
    PolicyRule {
        tool_pattern: owned(tool),
        arg_patterns: none,
        command: None,
        resource: None,
        network: None,
        mcp: None,
        rule_id: None,
        decision,
        priority: 0,
    }
}

fn low_byte_of(n: i64) -> (r: u8)
    ensures
        r == low_byte(n as int),
{
    if n >= 0 {
        (n % 256) as u8
    } else {
        let k: i64 = -(n + 1);
        let m: i64 = k % 256;
        assert(n % 256 == 255 - m);
        (255 - m) as u8
    }
}

fn read_matcher(entry: &TomlValue, key: &str) -> (r: Option<JsonValue>)
    ensures
        opt_json(r) == matcher_of(entry@, key@),
{
    match entry.get(key) {
        Some(v) => Some(toml_to_json_value(v)),
        None => None,
    }
}

fn read_arg_patterns(entry: &TomlValue) -> (r: Vec<JsonValue>)
    ensures
        crate::json::items_view(r@) == (match array_in(get(entry@, "arg_patterns"@)) {
            Some(a) => json_items(a),
            None => Seq::empty(),
        }),
{
    let mut out: Vec<JsonValue> = Vec::new();
    assert(crate::json::items_view(out@) =~= Seq::empty());
    if let Some(v) = entry.get("arg_patterns") {
        if let Some(a) = v.as_array() {
            let ghost items = items_view(a@);
            let mut i: usize = 0;
            while i < a.len()
                invariant
                    i <= a@.len(),
                    items == items_view(a@),
                    out@.len() == i,
                    forall|k: int| 0 <= k < i ==> (#[trigger] out@[k])@ == json_of_toml(a@[k]@),
                decreases a@.len() - i,
            {
                out.push(toml_to_json_value(&a[i]));
                i = i + 1;
            }
            assert(crate::json::items_view(out@) =~= json_items(items));
        }
    }
    out
}

fn read_text(entry: &TomlValue, key: &str) -> (r: Option<String>)
    ensures
        opt_view(r) == text_in(get(entry@, key@)),
{
    text_of(entry.get(key))
}

fn read_extended_rule(entry: &TomlValue) -> (r: Option<PolicyRule>)
    ensures
        match r {
            Some(x) => extended_rule(entry@) == Some(x@),
            None => extended_rule(entry@) is None,
        },
{
    let tool = match read_text(entry, "tool") {
        Some(t) => t,
        None => {
            return None;
        },
    };
    let decision = match read_text(entry, "decision") {
        Some(d) => match read_decision(d.as_str()) {
            Some(d) => d,
            None => {
                return None;
            },
        },
        None => {
            return None;
        },
    };
    let priority: u8 = match entry.get("priority") {
        Some(v) => match v.as_integer() {
            Some(n) => low_byte_of(n),
            None => 0,
        },
        None => 0,
    };
    Some(
        PolicyRule {
            tool_pattern: tool,
            arg_patterns: read_arg_patterns(entry),
            command: read_matcher(entry, "command"),
            resource: read_matcher(entry, "resource"),
            network: read_matcher(entry, "network"),
            mcp: read_matcher(entry, "mcp"),
            rule_id: read_text(entry, "rule_id"),
            decision,
            priority,
        },
    )
}

fn add_simple_rules(policy: &mut PermissionPolicy, t: &Vec<TomlEntry>)
    ensures
        final(policy)@ == old(policy)@ + simple_rules(entries_view(t@)),
{
    let ghost before = policy@;
    let ghost all = entries_view(t@);
    let mut i: usize = 0;
    assert(policy@ =~= before + simple_rules(all.take(0)));
    while i < t.len()
        invariant
            i <= t@.len(),
            all == entries_view(t@),
            policy@ == before + simple_rules(all.take(i as int)),
        decreases t@.len() - i,
    {
        proof {
            assert(all.take(i as int + 1).drop_last() =~= all.take(i as int));
            assert(all.take(i as int + 1).last() == (t@[i as int].key@, t@[i as int].value@));
        }
        if let Some(s) = t[i].value.as_str() {
            if let Some(d) = read_decision(s) {
                policy.add_rule(new_plain_rule(t[i].key.as_str(), d));
            }
        }
        assert(policy@ =~= before + simple_rules(all.take(i as int + 1)));
        i = i + 1;
    }
    assert(all.take(all.len() as int) =~= all);
}

fn add_extended_rules(policy: &mut PermissionPolicy, a: &Vec<TomlValue>)
    ensures
        final(policy)@ == old(policy)@ + extended_rules(items_view(a@)),
{
    let ghost before = policy@;
    let ghost all = items_view(a@);
    let mut i: usize = 0;
    assert(policy@ =~= before + extended_rules(all.take(0)));
    while i < a.len()
        invariant
            i <= a@.len(),
            all == items_view(a@),
            policy@ == before + extended_rules(all.take(i as int)),
        decreases a@.len() - i,
    {
        proof {
            assert(all.take(i as int + 1).drop_last() =~= all.take(i as int));
            assert(all.take(i as int + 1).last() == a@[i as int]@);
        }
        if let Some(r) = read_extended_rule(&a[i]) {
            policy.add_rule(r);
        }
        assert(policy@ =~= before + extended_rules(all.take(i as int + 1)));
        i = i + 1;
    }
    assert(all.take(all.len() as int) =~= all);
}

/// The policy of a configuration.
pub fn build_permission_policy(cfg: &TomlValue) -> (r: PermissionPolicy)
    ensures
        r@ == policy_of(cfg@),
{
    let simple = match cfg.get("rules") {
        Some(v) => v.as_table(),
        None => None,
    };
    let extended = match cfg.get("permission_rules") {
        Some(v) => v.as_array(),
        None => None,
    };
    let mut policy = PermissionPolicy::new();
    if simple.is_none() && extended.is_none() {
        policy.add_rule(new_plain_rule("read_file", PolicyDecision::Allow));
        policy.add_rule(new_plain_rule("*", PolicyDecision::Ask));
        assert(policy@ =~= default_rules());
        return policy;
    }
    if let Some(t) = simple {
        add_simple_rules(&mut policy, t);
    }
    if let Some(a) = extended {
        add_extended_rules(&mut policy, a);
    }
    assert(policy@ =~= policy_of(cfg@));
    policy
}

/// Without rules in the configuration nothing but reading files is allowed
/// outright.
pub proof fn unconfigured_tools_ask(cfg: TomlView, i: int)
    requires
        table_in(get(cfg, "rules"@)) is None,
        array_in(get(cfg, "permission_rules"@)) is None,
        0 <= i < policy_of(cfg).len(),
        policy_of(cfg)[i].decision == PolicyDecision::Allow,
    ensures
        policy_of(cfg)[i].tool_pattern == "read_file"@,
{
}

/// Every rule of the table `rules` comes before every rule of the list
/// `permission_rules`.
pub proof fn simple_rules_come_first(
    cfg: TomlView,
    t: Seq<(Seq<char>, TomlView)>,
    a: Seq<TomlView>,
)
    requires
        table_in(get(cfg, "rules"@)) == Some(t),
        array_in(get(cfg, "permission_rules"@)) == Some(a),
    ensures
        policy_of(cfg).take(simple_rules(t).len() as int) == simple_rules(t),
        policy_of(cfg).skip(simple_rules(t).len() as int) == extended_rules(a),
{
    assert(policy_of(cfg).take(simple_rules(t).len() as int) =~= simple_rules(t));
    assert(policy_of(cfg).skip(simple_rules(t).len() as int) =~= extended_rules(a));
}

/// Every rule of the table `rules` is that of one of its entries, with the
/// decision that the entry names and the lowest priority.
pub proof fn simple_rules_state_their_entries(t: Seq<(Seq<char>, TomlView)>, i: int)
    requires
        0 <= i < simple_rules(t).len(),
    ensures
        simple_rules(t)[i].priority == 0,
        exists|k: int|
            0 <= k < t.len() && (#[trigger] t[k]).0 == simple_rules(t)[i].tool_pattern && (
            t[k].1 matches TomlView::Text(s) && decision_of(s) == Some(
                simple_rules(t)[i].decision,
            )),
    decreases t.len(),
{
    let below = simple_rules(t.drop_last());
    if i < below.len() {
        simple_rules_state_their_entries(t.drop_last(), i);
        let k = choose|k: int|
            0 <= k < t.drop_last().len() && (#[trigger] t.drop_last()[k]).0
                == below[i].tool_pattern && (t.drop_last()[k].1 matches TomlView::Text(s)
                && decision_of(s) == Some(below[i].decision));
        assert(t[k] == t.drop_last()[k]);
    } else {
        assert(t[t.len() - 1] == t.last());
    }
}

/// Whether a value is a text that names a decision, in letters of either case.
pub open spec fn names_decision(v: Option<TomlView>, d: PolicyDecision) -> bool {
    v matches Some(TomlView::Text(s)) && lowercase_of(s) == (match d {
        PolicyDecision::Allow => "allow"@,
        PolicyDecision::Deny => "deny"@,
        PolicyDecision::Ask => "ask"@,
    })
}

/// Whether a value names any decision.
pub open spec fn names_some_decision(v: Option<TomlView>) -> bool {
    names_decision(v, PolicyDecision::Allow) || names_decision(v, PolicyDecision::Deny)
        || names_decision(v, PolicyDecision::Ask)
}

/// How many of the first `n` entries of the table `rules` state a rule.
pub open spec fn stated_simply(t: Seq<(Seq<char>, TomlView)>, n: int) -> int
    decreases n,
{
    if n <= 0 {
        0
    } else {
        stated_simply(t, n - 1) + (if names_some_decision(Some(t[n - 1].1)) {
            1int
        } else {
            0int
        })
    }
}

/// How many of the first `n` entries of the list `permission_rules` state a
/// rule: those with a tool and a decision.
pub open spec fn stated_at_length(a: Seq<TomlView>, n: int) -> int
    decreases n,
{
    if n <= 0 {
        0
    } else {
        stated_at_length(a, n - 1) + (if (get(a[n - 1], "tool"@) matches Some(TomlView::Text(_)))
            && names_some_decision(get(a[n - 1], "decision"@)) {
            1int
        } else {
            0int
        })
    }
}

/// How many rules the table `rules` of a configuration states.
pub open spec fn simple_count(cfg: TomlView) -> int {
    match get(cfg, "rules"@) {
        Some(TomlView::Table(t)) => stated_simply(t, t.len() as int),
        _ => 0,
    }
}

proof fn lemma_decisions_differ()
    ensures
        "allow"@ != "deny"@,
        "allow"@ != "ask"@,
        "deny"@ != "ask"@,
{
    reveal_strlit("allow");
    reveal_strlit("deny");
    reveal_strlit("ask");
    assert("allow"@.len() == 5 && "deny"@.len() == 4 && "ask"@.len() == 3);
}

proof fn lemma_stated_simply(t: Seq<(Seq<char>, TomlView)>, n: int, k: int, d: PolicyDecision)
    requires
        0 <= n <= t.len(),
    ensures
        simple_rules(t.take(n)).len() == stated_simply(t, n),
        0 <= k < n && names_decision(Some(t[k].1), d) ==> {
            &&& 0 <= stated_simply(t, k) < stated_simply(t, n)
            &&& simple_rules(t.take(n))[stated_simply(t, k)] == plain_rule(t[k].0, d)
        },
    decreases n,
{
    lemma_decisions_differ();
    if n > 0 {
        let below = t.take(n).drop_last();
        assert(below =~= t.take(n - 1));
        assert(t.take(n).last() == t[n - 1]);
        lemma_stated_simply(t, n - 1, k, d);
        lemma_stated_simply(t, n - 1, 0, d);
        if k == n - 1 && names_decision(Some(t[k].1), d) {
            assert(simple_rules(t.take(n)) == simple_rules(below).push(plain_rule(t[k].0, d)));
        }
    } else {
        assert(t.take(0) =~= Seq::empty());
    }
}

proof fn lemma_stated_at_length(a: Seq<TomlView>, n: int, k: int)
    requires
        0 <= n <= a.len(),
    ensures
        extended_rules(a.take(n)).len() == stated_at_length(a, n),
        0 <= k < n && extended_rule(a[k]) is Some ==> {
            &&& 0 <= stated_at_length(a, k) < stated_at_length(a, n)
            &&& extended_rules(a.take(n))[stated_at_length(a, k)] == extended_rule(a[k])->0
        },
    decreases n,
{
    lemma_decisions_differ();
    if n > 0 {
        assert(a.take(n).drop_last() =~= a.take(n - 1));
        assert(a.take(n).last() == a[n - 1]);
        lemma_stated_at_length(a, n - 1, k);
        lemma_stated_at_length(a, n - 1, 0);
    } else {
        assert(a.take(0) =~= Seq::empty());
    }
}

/// Every entry of the table `rules` that names a decision states a rule about
/// its tool, for every call of it, at its place and with the lowest priority.
pub proof fn simple_entries_are_rules(
    cfg: TomlView,
    t: Seq<(Seq<char>, TomlView)>,
    k: int,
    d: PolicyDecision,
)
    requires
        get(cfg, "rules"@) == Some(TomlView::Table(t)),
        0 <= k < t.len(),
        names_decision(Some(t[k].1), d),
    ensures
        0 <= stated_simply(t, k) < policy_of(cfg).len(),
        ({
            let r = policy_of(cfg)[stated_simply(t, k)];
            &&& r.tool_pattern == t[k].0
            &&& r.decision == d
            &&& r.priority == 0
            &&& r.arg_patterns.len() == 0
            &&& r.command is None
            &&& r.resource is None
            &&& r.network is None
            &&& r.mcp is None
            &&& r.rule_id is None
        }),
{
    lemma_stated_simply(t, t.len() as int, k, d);
    assert(t.take(t.len() as int) =~= t);
    let x = simple_rules(t);
    let i = stated_simply(t, k);
    assert(policy_of(cfg)[i] == x[i]);
}

/// Every entry of the list `permission_rules` with a tool and a decision states
/// a rule, at its place behind the simple ones. The rule carries every matcher
/// of the entry, and no other: it is about no more calls than the entry says.
pub proof fn entries_with_matchers_are_rules(
    cfg: TomlView,
    a: Seq<TomlView>,
    k: int,
    tool: Seq<char>,
    d: PolicyDecision,
)
    requires
        get(cfg, "permission_rules"@) == Some(TomlView::Array(a)),
        0 <= k < a.len(),
        get(a[k], "tool"@) == Some(TomlView::Text(tool)),
        names_decision(get(a[k], "decision"@), d),
    ensures
        0 <= simple_count(cfg) + stated_at_length(a, k) < policy_of(cfg).len(),
        ({
            let r = policy_of(cfg)[simple_count(cfg) + stated_at_length(a, k)];
            let e = a[k];
            &&& r.tool_pattern == tool
            &&& r.decision == d
            &&& match get(e, "command"@) {
                Some(v) => r.command == Some(json_of_toml(v)),
                None => r.command is None,
            }
            &&& match get(e, "resource"@) {
                Some(v) => r.resource == Some(json_of_toml(v)),
                None => r.resource is None,
            }
            &&& match get(e, "network"@) {
                Some(v) => r.network == Some(json_of_toml(v)),
                None => r.network is None,
            }
            &&& match get(e, "mcp"@) {
                Some(v) => r.mcp == Some(json_of_toml(v)),
                None => r.mcp is None,
            }
            &&& match get(e, "arg_patterns"@) {
                Some(TomlView::Array(ps)) => r.arg_patterns.len() == ps.len() && forall|i: int|
                    0 <= i < ps.len() ==> #[trigger] r.arg_patterns[i] == json_of_toml(ps[i]),
                _ => r.arg_patterns.len() == 0,
            }
            &&& match get(e, "rule_id"@) {
                Some(TomlView::Text(s)) => r.rule_id == Some(s),
                _ => r.rule_id is None,
            }
            &&& match get(e, "priority"@) {
                Some(TomlView::Integer(n)) => r.priority as int == n % 256,
                _ => r.priority == 0,
            }
        }),
{
    lemma_decisions_differ();
    lemma_stated_at_length(a, a.len() as int, k);
    assert(a.take(a.len() as int) =~= a);
    let first = match table_in(get(cfg, "rules"@)) {
        Some(t) => simple_rules(t),
        None => Seq::empty(),
    };
    match table_in(get(cfg, "rules"@)) {
        Some(t) => {
            lemma_stated_simply(t, t.len() as int, 0, d);
            assert(t.take(t.len() as int) =~= t);
        },
        None => {},
    }
    assert(first.len() == simple_count(cfg));
    let i = stated_at_length(a, k);
    assert(policy_of(cfg)[first.len() + i] == extended_rules(a)[i]);
}

/// A policy has a rule for every entry that states one, and no other.
pub proof fn policies_hold_nothing_else(cfg: TomlView)
    requires
        (get(cfg, "rules"@) matches Some(TomlView::Table(_))) || (get(cfg, "permission_rules"@)
            matches Some(TomlView::Array(_))),
    ensures
        policy_of(cfg).len() == simple_count(cfg) + (match get(cfg, "permission_rules"@) {
            Some(TomlView::Array(a)) => stated_at_length(a, a.len() as int),
            _ => 0,
        }),
{
    match table_in(get(cfg, "rules"@)) {
        Some(t) => {
            lemma_stated_simply(t, t.len() as int, 0, PolicyDecision::Ask);
            assert(t.take(t.len() as int) =~= t);
        },
        None => {},
    }
    match array_in(get(cfg, "permission_rules"@)) {
        Some(a) => {
            lemma_stated_at_length(a, a.len() as int, 0);
            assert(a.take(a.len() as int) =~= a);
        },
        None => {},
    }
}

/// Without rules in the configuration there are two: files may be read, and for
/// everything else the user is asked.
pub proof fn unconfigured_policies_are_cautious(cfg: TomlView)
    requires
        !(get(cfg, "rules"@) matches Some(TomlView::Table(_))),
        !(get(cfg, "permission_rules"@) matches Some(TomlView::Array(_))),
    ensures
        ({
            let p = policy_of(cfg);
            &&& p.len() == 2
            &&& p[0].tool_pattern == "read_file"@
            &&& p[0].decision == PolicyDecision::Allow
            &&& p[1].tool_pattern == "*"@
            &&& p[1].decision == PolicyDecision::Ask
            &&& forall|i: int|
                0 <= i < 2 ==> {
                    let r = #[trigger] p[i];
                    r.arg_patterns.len() == 0 && r.command is None && r.resource is None
                        && r.network is None && r.mcp is None && r.rule_id is None && r.priority
                        == 0
                }
        }),
{
}

/// The JSON value of a text, a flag, a number or a list says the same.
pub proof fn json_says_what_toml_says(v: TomlView)
    ensures
        match v {
            TomlView::Text(s) => json_of_toml(v) == JsonView::Text(s),
            TomlView::Boolean(b) => json_of_toml(v) == JsonView::Bool(b),
            TomlView::Integer(n) => {
                &&& 0 <= n <= u64::MAX ==> (json_of_toml(v) matches JsonView::Number(
                    NumberView::Unsigned(m),
                ) && m == n)
                &&& i64::MIN <= n < 0 ==> (json_of_toml(v) matches JsonView::Number(
                    NumberView::Signed(m),
                ) && m == n)
            },
            TomlView::Datetime(_) => json_of_toml(v) == JsonView::Null,
            TomlView::Array(a) => json_of_toml(v) matches JsonView::Array(b) && b.len() == a.len()
                && forall|i: int| 0 <= i < a.len() ==> #[trigger] b[i] == json_of_toml(a[i]),
            _ => true,
        },
{
}

proof fn lemma_json_entries(t: Seq<(Seq<char>, TomlView)>, n: nat, key: Seq<char>)
    requires
        n <= t.len(),
    ensures
        in_key_order(json_entries(t, n)),
        (forall|i: int| 0 <= i < n ==> (#[trigger] t[i]).0 != key) ==> lookup(
            json_entries(t, n),
            key,
        ) is None,
        forall|i: int|
            0 <= i < n && (#[trigger] t[i]).0 == key && (forall|j: int|
                i < j < n ==> (#[trigger] t[j]).0 != key) ==> lookup(json_entries(t, n), key)
                == Some(json_of_toml(t[i].1)),
    decreases n,
{
    if n > 0 {
        let m = (n - 1) as nat;
        lemma_json_entries(t, m, key);
        let below = json_entries(t, m);
        lookup_after_put(below, t[n - 1].0, json_of_toml(t[n - 1].1), key);
        put_keeps_order(below, t[n - 1].0, json_of_toml(t[n - 1].1));
    }
}

/// The JSON value of a table has its keys, each with the JSON value of what it
/// had there.
pub proof fn json_objects_read_as_their_tables(t: Seq<(Seq<char>, TomlView)>, key: Seq<char>)
    requires
        distinct_keys(t),
    ensures
        json_of_toml(TomlView::Table(t)) matches JsonView::Object(o) && in_key_order(o) && lookup(
            o,
            key,
        ) == (match lookup(t, key) {
            Some(v) => Some(json_of_toml(v)),
            None => None,
        }),
{
    lemma_json_entries(t, t.len(), key);
    lemma_key_index(t, key, 0);
    let i = key_index(t, key, 0);
    if i < t.len() {
        assert forall|j: int| i < j < t.len() implies (#[trigger] t[j]).0 != key by {
            assert(t[i].0 != t[j].0);
        }
    } else {
        assert forall|j: int| 0 <= j < t.len() implies (#[trigger] t[j]).0 != key by {}
    }
}

} // verus!
