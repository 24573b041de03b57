//! The accounts of a session, and the keys that the environment gives them.

use vstd::prelude::*;
use vstd::string::*;

use crate::auth::types::{AccountDescriptor, AccountStatus, AccountView, AuthMethod};
use crate::strmap::StrMap;
use crate::text::{
    chars_of, ends_with, has_prefix, has_suffix, lowercase_of, opt_view, owned, same, starts_with,
    string_of, to_lowercase, to_uppercase, uppercase_of, views,
};

verus! {

/// Accounts by identifier, and keys by provider.
#[derive(Debug)]
pub struct CredentialStore {
    accounts: StrMap<AccountDescriptor>,
    keys: StrMap<String>,
    variables: StrMap<String>,
}

/// The mathematical value of a [`CredentialStore`].
pub struct StoreView {
    pub accounts: Map<Seq<char>, AccountView>,
    /// The identifiers of the accounts, oldest first.
    pub order: Seq<Seq<char>>,
    pub keys: Map<Seq<char>, Seq<char>>,
    /// The environment variables that the keys were found in, by provider.
    pub variables: Map<Seq<char>, Seq<char>>,
}

/// The store of nothing.
pub open spec fn empty_store() -> StoreView {
    StoreView {
        accounts: Map::empty(),
        order: Seq::empty(),
        keys: Map::empty(),
        variables: Map::empty(),
    }
}

/// The store after an account was registered. One that takes the place of
/// another keeps its age.
pub open spec fn with_account(s: StoreView, a: AccountView) -> StoreView {
    StoreView {
        accounts: s.accounts.insert(a.account_id, a),
        order: if s.order.contains(a.account_id) {
            s.order
        } else {
            s.order.push(a.account_id)
        },
        ..s
    }
}

/// The provider that an environment variable holds a key for.
pub open spec fn key_provider(name: Seq<char>) -> Option<Seq<char>> {
    if has_suffix(name, "_API_KEY"@) {
        Some(lowercase_of(name.take(name.len() - "_API_KEY"@.len())))
    } else {
        None
    }
}

/// The environment variable that may hold the key of a provider: the one in
/// which a key was found, or else the one that is named after the provider.
pub open spec fn variable_of(s: StoreView, provider: Seq<char>) -> Seq<char> {
    if s.variables.dom().contains(provider) {
        s.variables[provider]
    } else {
        uppercase_of(provider) + "_API_KEY"@
    }
}

/// The account of an environment variable.
pub open spec fn env_account(name: Seq<char>, provider: Seq<char>) -> AccountView {
    AccountView {
        account_id: "env:"@ + provider,
        provider_id: provider,
        principal_display: "environment variable "@ + name,
        auth_method: AuthMethod::ApiKey,
        tenant_id: None,
        scopes: Seq::empty(),
        audiences: Seq::empty(),
        status: AccountStatus::Active,
        metadata_generation: 1,
    }
}

/// The store after one environment variable was looked at.
pub open spec fn with_variable(
    s: StoreView,
    name: Seq<char>,
    value: Seq<char>,
    prefix: Seq<char>,
) -> StoreView {
    match key_provider(name) {
        Some(p) => {
            let s1 = StoreView {
                keys: s.keys.insert(p, value),
                variables: s.variables.insert(p, name),
                ..s
            };
            if has_prefix(name, prefix) {
                with_account(s1, env_account(name, p))
            } else {
                s1
            }
        },
        None => s,
    }
}

/// The store after a list of environment variables was looked at.
pub open spec fn with_variables(
    s: StoreView,
    vars: Seq<(Seq<char>, Seq<char>)>,
    prefix: Seq<char>,
) -> StoreView
    decreases vars.len(),
{
    if vars.len() == 0 {
        s
    } else {
        with_variable(
            with_variables(s, vars.drop_last(), prefix),
            vars.last().0,
            vars.last().1,
            prefix,
        )
    }
}

/// The views of a list of environment variables.
pub open spec fn vars_view(v: Seq<(String, String)>) -> Seq<(Seq<char>, Seq<char>)> {
    v.map_values(|p: (String, String)| (p.0@, p.1@))
}

/// The first of `order` whose account is with `provider`.
pub open spec fn first_of_provider(
    accounts: Map<Seq<char>, AccountView>,
    order: Seq<Seq<char>>,
    provider: Seq<char>,
    from: int,
) -> int
    decreases order.len() - from,
{
    if from < 0 || from >= order.len() {
        order.len() as int
    } else if accounts[order[from]].provider_id == provider {
        from
    } else {
        first_of_provider(accounts, order, provider, from + 1)
    }
}

/// The key of an account: the one that was found, else the one that the
/// environment has now. Only accounts with a fixed key have one.
pub open spec fn key_of(s: StoreView, account_id: Seq<char>, from_env: Option<Seq<char>>) -> Option<
    Seq<char>,
> {
    if s.accounts.dom().contains(account_id) && s.accounts[account_id].auth_method
        == AuthMethod::ApiKey {
        let p = s.accounts[account_id].provider_id;
        if s.keys.dom().contains(p) {
            Some(s.keys[p])
        } else {
            from_env
        }
    } else {
        None
    }
}

/// Whether the order of a store lists its accounts, each once.
pub open spec fn lists_accounts(s: StoreView) -> bool {
    &&& s.order.no_duplicates()
    &&& forall|k: Seq<char>| #[trigger] s.order.contains(k) <==> s.accounts.dom().contains(k)
}

impl View for CredentialStore {
    type V = StoreView;

    closed spec fn view(&self) -> StoreView {
        StoreView {
            accounts: self.accounts@.map_values(|a: AccountDescriptor| a@),
            order: self.accounts.order(),
            keys: self.keys@.map_values(|k: String| k@),
            variables: self.variables@.map_values(|v: String| v@),
        }
    }
}

impl Default for CredentialStore {
    fn default() -> (r: Self)
        ensures
            r.wf(),
            r@ == empty_store(),
    {
        CredentialStore::new()
    }
}

impl CredentialStore {
    /// The store is sound.
    pub closed spec fn wf(&self) -> bool {
        self.accounts.wf() && self.keys.wf() && self.variables.wf()
    }

    /// The identifiers in the order are those of the accounts, each once.
    pub proof fn order_is_domain(&self)
        requires
            self.wf(),
        ensures
            lists_accounts(self@),
    {
        self.accounts.order_is_domain();
        assert(self@.accounts.dom() =~= self.accounts@.dom());
    }

    /// An empty store.
    pub fn new() -> (r: Self)
        ensures
            r.wf(),
            r@ == empty_store(),
    {
        let r = CredentialStore {
            accounts: StrMap::new(),
            keys: StrMap::new(),
            variables: StrMap::new(),
        };
        assert(r@.accounts =~= Map::<Seq<char>, AccountView>::empty());
        assert(r@.order =~= Seq::<Seq<char>>::empty());
        assert(r@.keys =~= Map::<Seq<char>, Seq<char>>::empty());
        assert(r@.variables =~= Map::<Seq<char>, Seq<char>>::empty());
        r
    }

    /// Registers an account under its identifier.
    pub fn register(&mut self, account: AccountDescriptor)
        requires
            old(self).wf(),
        ensures
            final(self).wf(),
            final(self)@ == with_account(old(self)@, account@),
    {
        let ghost before = self@;
        let ghost a = account@;
        proof {
            self.order_is_domain();
            self.accounts.order_is_domain();
        }
        let _ = self.accounts.insert(account.account_id.clone(), account);
        assert(self@.accounts =~= before.accounts.insert(a.account_id, a));
        assert(self@.keys =~= before.keys);
        assert(self@.variables =~= before.variables);
    }

    /// Looks at environment variables: one whose name ends in `_API_KEY` gives
    /// a key, and an account too where its name has the prefix.
    pub fn discover_from_iter(&mut self, vars: Vec<(String, String)>, prefix: &str)
        requires
            old(self).wf(),
        ensures
            final(self).wf(),
            final(self)@ == with_variables(old(self)@, vars_view(vars@), prefix@),
    {
        let ghost s0 = self@;
        let ghost vs = vars_view(vars@);
        let mut i: usize = 0;
        while i < vars.len()
            invariant
                i <= vars@.len(),
                vs == vars_view(vars@),
                self.wf(),
                self@ == with_variables(s0, vs.take(i as int), prefix@),
            decreases vars@.len() - i,
        {
            proof {
                assert(vs.take(i as int + 1).drop_last() =~= vs.take(i as int));
                assert(vs.take(i as int + 1).last() == vs[i as int]);
            }
            self.discover_variable(vars[i].0.as_str(), vars[i].1.as_str(), prefix);
            i = i + 1;
        }
        assert(vs.take(vars@.len() as int) =~= vs);
    }

    fn discover_variable(&mut self, name: &str, value: &str, prefix: &str)
        requires
            old(self).wf(),
        ensures
            final(self).wf(),
            final(self)@ == with_variable(old(self)@, name@, value@, prefix@),
    {
        proof {
            reveal_strlit("_API_KEY");
        }
        let ghost s0 = self@;
        if ends_with(name, "_API_KEY") {
            let chars = chars_of(name);
            let n: usize = chars.len();
            let stem = string_of(&chars, 0, n - 8);
            assert(stem@ =~= name@.take(name@.len() - "_API_KEY"@.len()));
            let provider = to_lowercase(stem.as_str());
            let _ = self.keys.insert(provider.clone(), owned(value));
            let _ = self.variables.insert(provider.clone(), owned(name));
            let ghost s1 = self@;
            assert(s1.keys =~= s0.keys.insert(provider@, value@));
            assert(s1.accounts =~= s0.accounts);
            assert(s1.variables =~= s0.variables.insert(provider@, name@));
            if starts_with(name, prefix) {
                let mut account_id = owned("env:");
                account_id.append(provider.as_str());
                let mut principal_display = owned("environment variable ");
                principal_display.append(name);
                let account = AccountDescriptor {
                    account_id,
                    provider_id: provider,
                    principal_display,
                    auth_method: AuthMethod::ApiKey,
                    tenant_id: None,
                    scopes: Vec::new(),
                    audiences: Vec::new(),
                    status: AccountStatus::Active,
                    metadata_generation: 1,
                };
                proof {
                    assert(account@.scopes =~= Seq::empty());
                    assert(account@.audiences =~= Seq::empty());
                }
                self.register(account);
            }
        }
    }

    /// The environment variable that may hold the key of an account.
    pub fn env_key_name(&self, account_id: &str) -> (r: Option<String>)
        requires
            self.wf(),
        ensures
            opt_view(r) == (if self@.accounts.dom().contains(account_id@) {
                Some(variable_of(self@, self@.accounts[account_id@].provider_id))
            } else {
                None
            }),
    {
        match self.accounts.get(account_id) {
            Some(a) => Some(self.variable(a.provider_id.as_str())),
            None => None,
        }
    }

    fn variable(&self, provider_id: &str) -> (r: String)
        requires
            self.wf(),
        ensures
            r@ == variable_of(self@, provider_id@),
    {
        match self.variables.get(provider_id) {
            Some(v) => v.clone(),
            None => {
                let mut s = to_uppercase(provider_id);
                s.append("_API_KEY");
                s
            },
        }
    }

    /// The key of an account. `from_env` is what the environment has under
    /// the name that `env_key_name` gives.
    pub fn resolve_key(&self, account_id: &str, from_env: Option<String>) -> (r: Option<String>)
        requires
            self.wf(),
        ensures
            opt_view(r) == key_of(self@, account_id@, opt_view(from_env)),
    {
        match self.accounts.get(account_id) {
            Some(a) => match a.auth_method {
                AuthMethod::ApiKey => match self.keys.get(a.provider_id.as_str()) {
                    Some(k) => Some(k.clone()),
                    None => from_env,
                },
                _ => None,
            },
            None => None,
        }
    }

    /// The account with an identifier.
    pub fn get(&self, account_id: &str) -> (r: Option<&AccountDescriptor>)
        requires
            self.wf(),
        ensures
            match r {
                Some(a) => self@.accounts.dom().contains(account_id@)
                    && self@.accounts[account_id@] == a@,
                None => !self@.accounts.dom().contains(account_id@),
            },
    {
        self.accounts.get(account_id)
    }

    /// All accounts, oldest first.
    pub fn list(&self) -> (r: Vec<&AccountDescriptor>)
        requires
            self.wf(),
        ensures
            r@.len() == self@.order.len(),
            forall|i: int|
                0 <= i < r@.len() ==> (#[trigger] r@[i])@ == self@.accounts[self@.order[i]],
    {
        let mut out: Vec<&AccountDescriptor> = Vec::new();
        let n: usize = self.accounts.len();
        let mut i: usize = 0;
        while i < n
            invariant
                i <= n == self@.order.len(),
                self.wf(),
                out@.len() == i,
                forall|k: int|
                    0 <= k < i ==> (#[trigger] out@[k])@ == self@.accounts[self@.order[k]],
            decreases n - i,
        {
            out.push(self.accounts.value_at(i));
            i = i + 1;
        }
        out
    }

    /// The oldest account with a provider.
    pub fn find_by_provider(&self, provider_id: &str) -> (r: Option<&AccountDescriptor>)
        requires
            self.wf(),
        ensures
            ({
                let i = first_of_provider(self@.accounts, self@.order, provider_id@, 0);
                match r {
                    Some(a) => i < self@.order.len() && a@ == self@.accounts[self@.order[i]]
                        && a@.provider_id == provider_id@,
                    None => i >= self@.order.len(),
                }
            }),
            r is None <==> (forall|id: Seq<char>| #[trigger]
                self@.accounts.dom().contains(id) ==> self@.accounts[id].provider_id
                    != provider_id@),
    {
        let ghost accounts = self@.accounts;
        let ghost order = self@.order;
        proof {
            self.order_is_domain();
        }
        let n: usize = self.accounts.len();
        let mut i: usize = 0;
        while i < n
            invariant
                i <= n == order.len(),
                self.wf(),
                order == self@.order,
                accounts == self@.accounts,
                first_of_provider(accounts, order, provider_id@, i as int) == first_of_provider(
                    accounts,
                    order,
                    provider_id@,
                    0,
                ),
                forall|k: Seq<char>| #[trigger] order.contains(k) <==> accounts.dom().contains(k),
                forall|k: int|
                    0 <= k < i ==> accounts[#[trigger] order[k]].provider_id != provider_id@,
            decreases n - i,
        {
            let a = self.accounts.value_at(i);
            assert(accounts[order[i as int]] == a@);
            if same(a.provider_id.as_str(), provider_id) {
                assert(order.contains(order[i as int]));
                return Some(a);
            }
            i = i + 1;
        }
        proof {
            assert forall|id: Seq<char>| #[trigger] accounts.dom().contains(id) implies accounts[id].provider_id
                != provider_id@ by {
                assert(order.contains(id));
                let k = choose|k: int| 0 <= k < order.len() && order[k] == id;
                assert(accounts[order[k]].provider_id != provider_id@);
            }
        }
        None
    }
}

/// The credentials of a session.
#[derive(Debug)]
pub struct AuthManager {
    store: CredentialStore,
}

/// The providers of the accounts of a store, those of the oldest first.
pub open spec fn providers_of(s: StoreView) -> Seq<Seq<char>> {
    s.order.map_values(|id: Seq<char>| s.accounts[id].provider_id)
}

/// Whether a store has an account with a provider.
pub open spec fn has_provider(s: StoreView, provider: Seq<char>) -> bool {
    exists|id: Seq<char>| #[trigger]
        s.accounts.dom().contains(id) && s.accounts[id].provider_id == provider
}

/// The key for a provider at this moment: what the environment has now, where
/// the oldest account with the provider has a fixed key. A key that was found
/// earlier does not count.
pub open spec fn provider_key(
    s: StoreView,
    provider: Seq<char>,
    from_env: Option<Seq<char>>,
) -> Option<Seq<char>> {
    let i = first_of_provider(s.accounts, s.order, provider, 0);
    if i < s.order.len() && s.accounts[s.order[i]].auth_method == AuthMethod::ApiKey {
        from_env
    } else {
        None
    }
}

impl View for AuthManager {
    type V = StoreView;

    closed spec fn view(&self) -> StoreView {
        self.store@
    }
}

impl AuthManager {
    /// The store is sound.
    pub closed spec fn wf(&self) -> bool {
        self.store.wf()
    }

    /// The identifiers in the order are those of the accounts, each once.
    pub proof fn order_is_domain(&self)
        requires
            self.wf(),
        ensures
            lists_accounts(self@),
    {
        self.store.order_is_domain();
    }

    /// The credentials that environment variables give.
    pub fn new(env: Vec<(String, String)>) -> (r: Self)
        ensures
            r.wf(),
            r@ == with_variables(empty_store(), vars_view(env@), Seq::empty()),
    {
        proof {
            reveal_strlit("");
            assert(""@ =~= Seq::<char>::empty());
        }
        Self::with_prefix(env, "")
    }

    /// The credentials that environment variables give; only those whose name
    /// has the prefix give accounts.
    pub fn with_prefix(env: Vec<(String, String)>, prefix: &str) -> (r: Self)
        ensures
            r.wf(),
            r@ == with_variables(empty_store(), vars_view(env@), prefix@),
    {
        let mut store = CredentialStore::new();
        store.discover_from_iter(env, prefix);
        AuthManager { store }
    }

    /// Registers an account.
    pub fn register_account(&mut self, account: AccountDescriptor)
        requires
            old(self).wf(),
        ensures
            final(self).wf(),
            final(self)@ == with_account(old(self)@, account@),
    {
        self.store.register(account);
    }

    /// The environment variable that may hold the key of a provider.
    pub fn env_key_for_provider(&self, provider_id: &str) -> (r: Option<String>)
        requires
            self.wf(),
        ensures
            opt_view(r) == (if has_provider(self@, provider_id@) {
                Some(variable_of(self@, provider_id@))
            } else {
                None
            }),
    {
        match self.store.find_by_provider(provider_id) {
            Some(_) => Some(self.store.variable(provider_id)),
            None => None,
        }
    }

    /// The key for a provider: that of its oldest account. `from_env` is what
    /// the environment has now under the name that `env_key_for_provider`
    /// gives; a key that was found earlier is not used, so that every change
    /// of the environment is seen.
    pub fn resolve_for_provider(&self, provider_id: &str, from_env: Option<String>) -> (r: Option<
        String,
    >)
        requires
            self.wf(),
        ensures
            opt_view(r) == provider_key(self@, provider_id@, opt_view(from_env)),
    {
        match self.store.find_by_provider(provider_id) {
            Some(a) => match a.auth_method {
                AuthMethod::ApiKey => from_env,
                _ => None,
            },
            None => None,
        }
    }

    /// Whether there is an account with a provider.
    pub fn has_credentials(&self, provider_id: &str) -> (r: bool)
        requires
            self.wf(),
        ensures
            r == has_provider(self@, provider_id@),
    {
        self.store.find_by_provider(provider_id).is_some()
    }

    /// The providers of the accounts, oldest first.
    pub fn configured_providers(&self) -> (r: Vec<String>)
        requires
            self.wf(),
        ensures
            views(r@) == providers_of(self@),
    {
        let accounts = self.store.list();
        let mut out: Vec<String> = Vec::new();
        let mut i: usize = 0;
        while i < accounts.len()
            invariant
                i <= accounts@.len(),
                out@.len() == i,
                forall|k: int| 0 <= k < i ==> out@[k]@ == (#[trigger] accounts@[k])@.provider_id,
            decreases accounts@.len() - i,
        {
            out.push(accounts[i].provider_id.clone());
            i = i + 1;
        }
        proof {
            let want = providers_of(self@);
            assert forall|k: int| 0 <= k < out@.len() implies #[trigger] views(out@)[k]
                == want[k] by {
                assert(accounts@[k]@ == self@.accounts[self@.order[k]]);
            }
            assert(views(out@) =~= want);
        }
        out
    }
}

/// A key that the environment gives is the key of the account that it gives.
pub proof fn discovered_keys_resolve(
    s: StoreView,
    name: Seq<char>,
    value: Seq<char>,
    prefix: Seq<char>,
    from_env: Option<Seq<char>>,
)
    requires
        key_provider(name) is Some,
        has_prefix(name, prefix),
    ensures
        ({
            let s2 = with_variable(s, name, value, prefix);
            let p = key_provider(name)->0;
            &&& s2.accounts.dom().contains("env:"@ + p)
            &&& s2.accounts["env:"@ + p].provider_id == p
            &&& key_of(s2, "env:"@ + p, from_env) == Some(value)
        }),
{
}

proof fn lemma_first_of_provider(s: StoreView, provider: Seq<char>, from: int)
    requires
        0 <= from <= s.order.len(),
    ensures
        ({
            let i = first_of_provider(s.accounts, s.order, provider, from);
            &&& from <= i <= s.order.len()
            &&& i < s.order.len() ==> s.accounts[s.order[i]].provider_id == provider
            &&& forall|k: int|
                from <= k < i ==> s.accounts[#[trigger] s.order[k]].provider_id != provider
        }),
    decreases s.order.len() - from,
{
    if from < s.order.len() && s.accounts[s.order[from]].provider_id != provider {
        lemma_first_of_provider(s, provider, from + 1);
    }
}

/// The providers that a manager lists are those that it has credentials for,
/// and it gives no key for any other.
pub proof fn listed_providers_have_credentials(
    m: AuthManager,
    provider: Seq<char>,
    from_env: Option<Seq<char>>,
)
    requires
        m.wf(),
    ensures
        has_provider(m@, provider) <==> providers_of(m@).contains(provider),
        !has_provider(m@, provider) ==> provider_key(m@, provider, from_env) is None,
{
    m.order_is_domain();
    let s = m@;
    let ps = providers_of(s);
    if has_provider(s, provider) {
        let id = choose|id: Seq<char>| #[trigger]
            s.accounts.dom().contains(id) && s.accounts[id].provider_id == provider;
        assert(s.order.contains(id));
        let k = choose|k: int| 0 <= k < s.order.len() && s.order[k] == id;
        assert(ps[k] == provider);
    }
    if ps.contains(provider) {
        let k = choose|k: int| 0 <= k < ps.len() && ps[k] == provider;
        assert(s.order.contains(s.order[k]));
        assert(s.accounts.dom().contains(s.order[k]));
    }
    lemma_first_of_provider(s, provider, 0);
    let i = first_of_provider(s.accounts, s.order, provider, 0);
    if i < s.order.len() {
        assert(s.order.contains(s.order[i]));
        assert(s.accounts.dom().contains(s.order[i]));
    }
}

/// A provider has credentials once an account with it was registered.
pub proof fn registered_providers_have_credentials(s: StoreView, a: AccountView)
    ensures
        has_provider(with_account(s, a), a.provider_id),
{
    assert(with_account(s, a).accounts.dom().contains(a.account_id));
}

/// Where the accounts with a provider have a fixed key, the key is what the
/// environment has now, whatever was found earlier: a changed variable changes
/// it, and a removed one takes it away.
pub proof fn environment_changes_are_seen(
    m: AuthManager,
    provider: Seq<char>,
    from_env: Option<Seq<char>>,
)
    requires
        m.wf(),
        has_provider(m@, provider),
        forall|id: Seq<char>| #[trigger]
            m@.accounts.dom().contains(id) && m@.accounts[id].provider_id == provider
                ==> m@.accounts[id].auth_method == AuthMethod::ApiKey,
    ensures
        provider_key(m@, provider, from_env) == from_env,
{
    m.order_is_domain();
    let s = m@;
    lemma_first_of_provider(s, provider, 0);
    let i = first_of_provider(s.accounts, s.order, provider, 0);
    let id = choose|id: Seq<char>| #[trigger]
        s.accounts.dom().contains(id) && s.accounts[id].provider_id == provider;
    assert(s.order.contains(id));
    let k = choose|k: int| 0 <= k < s.order.len() && s.order[k] == id;
    if i >= s.order.len() {
        assert(s.accounts[s.order[k]].provider_id != provider);
    }
    assert(s.order.contains(s.order[i]));
    assert(s.accounts.dom().contains(s.order[i]));
}

/// A key that was found in an environment variable is looked for under the name
/// of that variable, however it is written.
pub proof fn found_variables_are_asked_again(
    s: StoreView,
    name: Seq<char>,
    value: Seq<char>,
    prefix: Seq<char>,
)
    requires
        key_provider(name) is Some,
    ensures
        variable_of(with_variable(s, name, value, prefix), key_provider(name)->0) == name,
{
}

/// A variable whose name does not end as the name of a key does is no key, and
/// finding it changes nothing.
pub proof fn other_variables_are_passed_over(
    s: StoreView,
    name: Seq<char>,
    value: Seq<char>,
    prefix: Seq<char>,
)
    requires
        !has_suffix(name, "_API_KEY"@),
    ensures
        with_variable(s, name, value, prefix) == s,
{
}

/// A variable named after a provider gives the provider its key. Where the name
/// begins as is asked for, it gives an account too.
pub proof fn key_variables_are_found(
    s: StoreView,
    start: Seq<char>,
    value: Seq<char>,
    prefix: Seq<char>,
    other: Seq<char>,
)
    ensures
        ({
            let name = start + "_API_KEY"@;
            let p = lowercase_of(start);
            let t = with_variable(s, name, value, prefix);
            let id = "env:"@ + p;
            &&& t.keys == s.keys.insert(p, value)
            &&& t.variables == s.variables.insert(p, name)
            &&& !has_prefix(name, prefix) ==> t.accounts == s.accounts && t.order == s.order
            &&& has_prefix(name, prefix) ==> {
                let a = t.accounts[id];
                &&& t.accounts.dom().contains(id)
                &&& a.account_id == id
                &&& a.provider_id == p
                &&& a.principal_display == "environment variable "@ + name
                &&& a.auth_method is ApiKey
                &&& a.status is Active
                &&& a.tenant_id is None
                &&& a.scopes.len() == 0 && a.audiences.len() == 0
                &&& a.metadata_generation == 1
                &&& other != id ==> t.accounts[other] == s.accounts[other] && (t.accounts.dom().contains(
                    other,
                ) <==> s.accounts.dom().contains(other))
            }
        }),
{
    let name = start + "_API_KEY"@;
    let n = "_API_KEY"@.len() as int;
    assert(name.skip(name.len() - n) =~= "_API_KEY"@);
    assert(name.take(name.len() - n) =~= start);
}

/// Variables are taken in their order, so that of two for one provider the
/// later counts.
pub proof fn variables_are_taken_in_order(
    s: StoreView,
    vars: Seq<(Seq<char>, Seq<char>)>,
    name: Seq<char>,
    value: Seq<char>,
    prefix: Seq<char>,
)
    ensures
        with_variables(s, Seq::empty(), prefix) == s,
        with_variables(s, vars.push((name, value)), prefix) == with_variable(
            with_variables(s, vars, prefix),
            name,
            value,
            prefix,
        ),
{
    assert(vars.push((name, value)).drop_last() =~= vars);
}

/// An account that is registered is there, in place of one with its name and
/// behind all others.
pub proof fn accounts_are_registered(s: StoreView, a: AccountView, other: Seq<char>)
    ensures
        ({
            let t = with_account(s, a);
            &&& t.accounts.dom().contains(a.account_id)
            &&& t.accounts[a.account_id] == a
            &&& other != a.account_id ==> t.accounts[other] == s.accounts[other]
            &&& other != a.account_id ==> (t.accounts.dom().contains(other) <==> s.accounts.dom().contains(
                other,
            ))
            &&& s.order.contains(a.account_id) ==> t.order == s.order
            &&& !s.order.contains(a.account_id) ==> t.order == s.order.push(a.account_id)
            &&& t.keys == s.keys
            &&& t.variables == s.variables
        }),
{
}

/// Only an account with a fixed key has one: the one that was found for its
/// provider, or else what the environment has.
pub proof fn accounts_have_the_keys_of_their_providers(
    s: StoreView,
    id: Seq<char>,
    from_env: Option<Seq<char>>,
)
    ensures
        !s.accounts.dom().contains(id) ==> key_of(s, id, from_env) is None,
        s.accounts.dom().contains(id) && !(s.accounts[id].auth_method is ApiKey) ==> key_of(
            s,
            id,
            from_env,
        ) is None,
        s.accounts.dom().contains(id) && s.accounts[id].auth_method is ApiKey && s.keys.dom().contains(
            s.accounts[id].provider_id,
        ) ==> key_of(s, id, from_env) == Some(s.keys[s.accounts[id].provider_id]),
        s.accounts.dom().contains(id) && s.accounts[id].auth_method is ApiKey && !s.keys.dom().contains(
            s.accounts[id].provider_id,
        ) ==> key_of(s, id, from_env) == from_env,
{
}

/// The first account with a provider decides whether the provider has a fixed
/// key.
pub proof fn the_first_account_of_a_provider_decides(
    s: StoreView,
    provider: Seq<char>,
    i: int,
    from_env: Option<Seq<char>>,
)
    requires
        0 <= i < s.order.len(),
        s.accounts[s.order[i]].provider_id == provider,
        forall|k: int| 0 <= k < i ==> s.accounts[#[trigger] s.order[k]].provider_id != provider,
    ensures
        s.accounts[s.order[i]].auth_method is ApiKey ==> provider_key(s, provider, from_env) == from_env,
        !(s.accounts[s.order[i]].auth_method is ApiKey) ==> provider_key(s, provider, from_env) is None,
{
    lemma_first_of_provider(s, provider, 0);
}

/// A provider whose key was not found is looked for under its name in capital
/// letters.
pub proof fn unseen_keys_are_looked_for_by_name(s: StoreView, provider: Seq<char>)
    requires
        !s.variables.dom().contains(provider),
    ensures
        variable_of(s, provider) == uppercase_of(provider) + "_API_KEY"@,
{
}

/// A new store knows no account and no key.
pub proof fn new_stores_are_empty(id: Seq<char>, from_env: Option<Seq<char>>)
    ensures
        empty_store().order.len() == 0,
        !empty_store().accounts.dom().contains(id),
        !empty_store().keys.dom().contains(id),
        !empty_store().variables.dom().contains(id),
        key_of(empty_store(), id, from_env) is None,
        provider_key(empty_store(), id, from_env) is None,
{
}

} // verus!
