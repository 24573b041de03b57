//! Where secrets are kept.

use vstd::prelude::*;
use vstd::string::*;

use crate::entries::{
    in_key_order, key_index, lemma_key_index, lookup, lookup_after_put, put, put_keeps_order,
};
use crate::json::{
    entries_view, find, is_text_object, json_object_parse_of, json_pretty, json_pretty_of,
    lemma_object_view, parse_json_object, position, set_key, text_in, JsonEntry, JsonValue,
    JsonView,
};
use crate::strmap::StrMap;
use crate::text::{has_suffix, opt_view, owned, signed_decimal, signed_string};

verus! {

/// Why a secret could not be had.
#[derive(Debug, PartialEq, Eq)]
pub enum SecretStoreError {
    /// There is none.
    NotFound,
    AccessDenied,
    BackendUnavailable,
    IoError(String),
}

/// The message of an error.
pub open spec fn secret_error_text(e: SecretStoreError) -> Seq<char> {
    match e {
        SecretStoreError::NotFound => "secret not found"@,
        SecretStoreError::AccessDenied => "access denied by secret store"@,
        SecretStoreError::BackendUnavailable => "secret store backend unavailable"@,
        SecretStoreError::IoError(m) => "secret store I/O error: "@ + m@,
    }
}

impl SecretStoreError {
    /// The message of the error.
    pub fn message(&self) -> (r: String)
        ensures
            r@ == secret_error_text(*self),
    {
        match self {
            SecretStoreError::NotFound => owned("secret not found"),
            SecretStoreError::AccessDenied => owned("access denied by secret store"),
            SecretStoreError::BackendUnavailable => owned("secret store backend unavailable"),
            SecretStoreError::IoError(m) => {
                let mut s = owned("secret store I/O error: ");
                s.append(m.as_str());
                s
            },
        }
    }
}

/// Secrets by key.
pub trait SecretStore {
    /// The store is sound.
    spec fn store_wf(&self) -> bool;

    /// What is stored.
    spec fn secrets(&self) -> Map<Seq<char>, Seq<char>>;

    /// Stores a secret in place of what was there.
    fn store(&mut self, key: &str, value: &str) -> (r: Result<(), SecretStoreError>)
        requires
            old(self).store_wf(),
        ensures
            final(self).store_wf(),
            r is Ok ==> final(self).secrets() == old(self).secrets().insert(key@, value@),
            r is Err ==> final(self).secrets() == old(self).secrets(),
    ;

    /// The secret of a key, if there is one.
    fn retrieve(&self, key: &str) -> (r: Result<Option<String>, SecretStoreError>)
        requires
            self.store_wf(),
        ensures
            r matches Ok(s) ==> opt_view(s) == (if self.secrets().dom().contains(key@) {
                Some(self.secrets()[key@])
            } else {
                None
            }),
    ;

    /// Deletes a secret. A key without one is an error.
    fn delete(&mut self, key: &str) -> (r: Result<(), SecretStoreError>)
        requires
            old(self).store_wf(),
        ensures
            final(self).store_wf(),
            r is Ok ==> old(self).secrets().dom().contains(key@) && final(self).secrets() == old(self).secrets().remove(key@),
            r is Err ==> final(self).secrets() == old(self).secrets(),
    ;
}

/// Secrets that last as long as the process.
#[derive(Debug)]
pub struct InMemorySecretStore {
    secrets: StrMap<String>,
}

impl Default for InMemorySecretStore {
    fn default() -> (r: Self)
        ensures
            r.store_wf(),
            r.secrets() == Map::<Seq<char>, Seq<char>>::empty(),
    {
        InMemorySecretStore::new()
    }
}

impl InMemorySecretStore {
    /// A store without secrets.
    pub fn new() -> (r: Self)
        ensures
            r.store_wf(),
            r.secrets() == Map::<Seq<char>, Seq<char>>::empty(),
    {
        let r = InMemorySecretStore { secrets: StrMap::new() };
        assert(r.secrets() =~= Map::<Seq<char>, Seq<char>>::empty());
        r
    }
}

impl SecretStore for InMemorySecretStore {
    closed spec fn store_wf(&self) -> bool {
        self.secrets.wf()
    }

    closed spec fn secrets(&self) -> Map<Seq<char>, Seq<char>> {
        self.secrets@.map_values(|s: String| s@)
    }

    fn store(&mut self, key: &str, value: &str) -> (r: Result<(), SecretStoreError>)
        ensures
            r is Ok,
    {
        let ghost before = self.secrets();
        let _ = self.secrets.insert(owned(key), owned(value));
        assert(self.secrets() =~= before.insert(key@, value@));
        Ok(())
    }

    fn retrieve(&self, key: &str) -> (r: Result<Option<String>, SecretStoreError>)
        ensures
            r is Ok,
    {
        match self.secrets.get(key) {
            Some(s) => Ok(Some(s.clone())),
            None => Ok(None),
        }
    }

    fn delete(&mut self, key: &str) -> (r: Result<(), SecretStoreError>)
        ensures
            r is Ok <==> old(self).secrets().dom().contains(key@),
            r is Err ==> r->Err_0 == SecretStoreError::NotFound,
    {
        let ghost before = self.secrets();
        match self.secrets.remove(key) {
            Some(_) => {
                assert(self.secrets() =~= before.remove(key@));
                Ok(())
            },
            None => {
                assert(self.secrets() =~= before);
                Err(SecretStoreError::NotFound)
            },
        }
    }
}

/// Secrets in a JSON file, `~/.grodex/credentials.json` as a rule: an object
/// from keys to secrets. Reading and writing the file is left to the caller.
#[derive(Debug)]
pub struct FileSecretStore {
    path: String,
}

/// What a credentials file holds: nothing where there is none.
#[derive(Debug)]
pub enum SecretFile {
    Missing,
    Text(String),
    Failed(String),
}

/// The entries of an object that are texts.
pub open spec fn text_entries(t: Seq<(Seq<char>, JsonView)>) -> Seq<(Seq<char>, JsonView)>
    decreases t.len(),
{
    if t.len() == 0 {
        Seq::empty()
    } else {
        let below = text_entries(t.drop_last());
        if t.last().1 is Text {
            below.push(t.last())
        } else {
            below
        }
    }
}

/// The secrets of a credentials file, or why they cannot be had.
pub open spec fn secrets_in(f: SecretFile) -> Result<Seq<(Seq<char>, JsonView)>, Seq<char>> {
    match f {
        SecretFile::Missing => Ok(Seq::empty()),
        SecretFile::Failed(m) => Err(m@),
        SecretFile::Text(t) => match json_object_parse_of(t@) {
            Ok(o) => Ok(text_entries(o)),
            Err(e) => Err("credentials file corrupted: "@ + e),
        },
    }
}

/// The text of a credentials file.
pub open spec fn secret_text(t: Seq<(Seq<char>, JsonView)>) -> Seq<char> {
    json_pretty_of(JsonView::Object(t))
}

impl FileSecretStore {
    /// The path of the file.
    pub closed spec fn file(&self) -> Seq<char> {
        self.path@
    }

    /// A store in the file at `path`.
    pub fn new(path: &str) -> (r: Self)
        ensures
            r.file() == path@,
    {
        FileSecretStore { path: owned(path) }
    }

    /// The path of the file.
    pub fn path(&self) -> (r: &str)
        ensures
            r@ == self.file(),
    {
        self.path.as_str()
    }

    fn load(file: &SecretFile) -> (r: Result<Vec<JsonEntry>, SecretStoreError>)
        ensures
            match r {
                Ok(es) => secrets_in(*file) == Ok::<Seq<(Seq<char>, JsonView)>, Seq<char>>(
                    entries_view(es@),
                ) && is_text_object(entries_view(es@)),
                Err(SecretStoreError::IoError(m)) => secrets_in(*file) == Err::<
                    Seq<(Seq<char>, JsonView)>,
                    Seq<char>,
                >(m@),
                Err(_) => false,
            },
    {
        match file {
            SecretFile::Missing => {
                let none: Vec<JsonEntry> = Vec::new();
                assert(entries_view(none@) =~= Seq::empty());
                Ok(none)
            },
            SecretFile::Failed(m) => Err(SecretStoreError::IoError(m.clone())),
            SecretFile::Text(t) => match parse_json_object(t.as_str()) {
                Ok(es) => Ok(keep_texts(es)),
                Err(e) => {
                    let mut m = owned("credentials file corrupted: ");
                    m.append(e.as_str());
                    Err(SecretStoreError::IoError(m))
                },
            },
        }
    }

    /// The text of the file with a secret stored in it.
    pub fn store(&self, file: &SecretFile, key: &str, value: &str) -> (r: Result<
        String,
        SecretStoreError,
    >)
        ensures
            match secrets_in(*file) {
                Ok(t) => r matches Ok(s) && s@ == secret_text(
                    put(t, key@, JsonView::Text(value@)),
                ) && json_object_parse_of(s@) == Ok::<Seq<(Seq<char>, JsonView)>, Seq<char>>(
                    put(t, key@, JsonView::Text(value@)),
                ),
                Err(m) => r matches Err(SecretStoreError::IoError(e)) && e@ == m,
            },
    {
        match Self::load(file) {
            Ok(es) => {
                let mut es = es;
                let ghost t = entries_view(es@);
                set_key(&mut es, key, JsonValue::Text(owned(value)));
                proof {
                    put_keeps_order(t, key@, JsonView::Text(value@));
                    lemma_put_text(t, key@, value@);
                    lemma_object_view(es);
                }
                Ok(json_pretty(&JsonValue::Object(es)))
            },
            Err(e) => Err(e),
        }
    }

    /// The secret of a key.
    pub fn retrieve(&self, file: &SecretFile, key: &str) -> (r: Result<
        Option<String>,
        SecretStoreError,
    >)
        ensures
            match secrets_in(*file) {
                Ok(t) => r matches Ok(s) && opt_view(s) == text_in(lookup(t, key@)),
                Err(m) => r matches Err(SecretStoreError::IoError(e)) && e@ == m,
            },
    {
        match Self::load(file) {
            Ok(es) => match find(&es, key) {
                Some(v) => match v.as_str() {
                    Some(s) => Ok(Some(owned(s))),
                    None => Ok(None),
                },
                None => Ok(None),
            },
            Err(e) => Err(e),
        }
    }

    /// The text of the file without a secret. A key without one is an error.
    pub fn delete(&self, file: &SecretFile, key: &str) -> (r: Result<String, SecretStoreError>)
        ensures
            match secrets_in(*file) {
                Ok(t) => if lookup(t, key@) is Some {
                    r matches Ok(s) && s@ == secret_text(t.remove(key_index(t, key@, 0)))
                        && json_object_parse_of(s@) == Ok::<Seq<(Seq<char>, JsonView)>, Seq<char>>(
                        t.remove(key_index(t, key@, 0)),
                    )
                } else {
                    r matches Err(SecretStoreError::NotFound)
                },
                Err(m) => r matches Err(SecretStoreError::IoError(e)) && e@ == m,
            },
    {
        match Self::load(file) {
            Ok(es) => {
                let mut es = es;
                let ghost t = entries_view(es@);
                let at: usize = position(&es, key);
                if at >= es.len() {
                    return Err(SecretStoreError::NotFound);
                }
                let _ = es.remove(at);
                proof {
                    let t2 = entries_view(es@);
                    assert(t2 =~= t.remove(at as int));
                    assert forall|i: int, j: int| 0 <= i < j < t2.len() implies crate::text::text_lt(
                        #[trigger] t2[i].0,
                        #[trigger] t2[j].0,
                    ) by {
                        let i2 = if i < at { i } else { i + 1 };
                        let j2 = if j < at { j } else { j + 1 };
                        assert(t2[i] == t[i2] && t2[j] == t[j2]);
                    }
                    assert forall|i: int| 0 <= i < t2.len() implies (#[trigger] t2[i]).1 is Text by {
                        let i2 = if i < at { i } else { i + 1 };
                        assert(t2[i] == t[i2]);
                    }
                    lemma_object_view(es);
                }
                Ok(json_pretty(&JsonValue::Object(es)))
            },
            Err(e) => Err(e),
        }
    }
}

proof fn lemma_put_text(t: Seq<(Seq<char>, JsonView)>, key: Seq<char>, value: Seq<char>)
    requires
        is_text_object(t),
    ensures
        is_text_object(put(t, key, JsonView::Text(value))),
{
    put_keeps_order(t, key, JsonView::Text(value));
    lemma_key_index(t, key, 0);
    crate::entries::lemma_slot(t, key, 0);
    let r = put(t, key, JsonView::Text(value));
    let s = crate::entries::slot(t, key, 0);
    assert forall|i: int| 0 <= i < r.len() implies (#[trigger] r[i]).1 is Text by {
        if key_index(t, key, 0) < t.len() {
            if i != key_index(t, key, 0) {
                assert(r[i] == t[i]);
            }
        } else if i < s {
            assert(r[i] == t[i]);
        } else if i > s {
            assert(r[i] == t[i - 1]);
        }
    }
}

proof fn lemma_text_entries(t: Seq<(Seq<char>, JsonView)>)
    requires
        in_key_order(t),
    ensures
        is_text_object(text_entries(t)),
        forall|i: int|
            0 <= i < text_entries(t).len() ==> t.contains(#[trigger] text_entries(t)[i]),
        is_text_object(t) ==> text_entries(t) == t,
    decreases t.len(),
{
    if t.len() > 0 {
        let d = t.drop_last();
        assert forall|i: int, j: int| 0 <= i < j < d.len() implies crate::text::text_lt(
            #[trigger] d[i].0,
            #[trigger] d[j].0,
        ) by {
            assert(d[i] == t[i] && d[j] == t[j]);
        }
        lemma_text_entries(d);
        let below = text_entries(d);
        let all = text_entries(t);
        assert forall|i: int| 0 <= i < all.len() implies t.contains(#[trigger] all[i]) by {
            if i < below.len() {
                assert(all[i] == below[i]);
                let k = choose|k: int| 0 <= k < d.len() && d[k] == below[i];
                assert(t[k] == all[i]);
            } else {
                assert(t[t.len() - 1] == all[i]);
            }
        }
        assert forall|i: int, j: int| 0 <= i < j < all.len() implies crate::text::text_lt(
            #[trigger] all[i].0,
            #[trigger] all[j].0,
        ) by {
            if j < below.len() {
                assert(all[i] == below[i] && all[j] == below[j]);
            } else {
                assert(all[i] == below[i]);
                let k = choose|k: int| 0 <= k < d.len() && d[k] == below[i];
                assert(t[k] == below[i]);
                assert(crate::text::text_lt(t[k].0, t[t.len() - 1].0));
            }
        }
        if is_text_object(t) {
            assert forall|i: int| 0 <= i < d.len() implies (#[trigger] d[i]).1 is Text by {
                assert(d[i] == t[i]);
            }
            assert(t[t.len() - 1].1 is Text);
            assert(d.push(t.last()) =~= t);
        }
    } else {
        assert(text_entries(t) =~= t);
    }
}

/// The entries that are texts, in order.
fn keep_texts(es: Vec<JsonEntry>) -> (r: Vec<JsonEntry>)
    requires
        in_key_order(entries_view(es@)),
    ensures
        entries_view(r@) == text_entries(entries_view(es@)),
        is_text_object(entries_view(r@)),
{
    let ghost t = entries_view(es@);
    let mut out: Vec<JsonEntry> = Vec::new();
    let mut i: usize = 0;
    assert(entries_view(out@) =~= text_entries(t.take(0)));
    while i < es.len()
        invariant
            i <= es@.len(),
            t == entries_view(es@),
            entries_view(out@) == text_entries(t.take(i as int)),
        decreases es@.len() - i,
    {
        proof {
            assert(t.take(i as int + 1).drop_last() =~= t.take(i as int));
            assert(t.take(i as int + 1).last() == t[i as int]);
        }
        if let JsonValue::Text(s) = &es[i].value {
            let ghost before = entries_view(out@);
            out.push(JsonEntry { key: es[i].key.clone(), value: JsonValue::Text(s.clone()) });
            assert(entries_view(out@) =~= before.push(t[i as int]));
        }
        i = i + 1;
    }
    proof {
        assert(t.take(es@.len() as int) =~= t);
        lemma_text_entries(t);
    }
    out
}

/// The secrets of a file that holds the text `s`.
pub open spec fn secrets_of_text(s: Seq<char>) -> Result<Seq<(Seq<char>, JsonView)>, Seq<char>> {
    match json_object_parse_of(s) {
        Ok(o) => Ok(text_entries(o)),
        Err(e) => Err("credentials file corrupted: "@ + e),
    }
}

/// A secret that was stored reads back from the file that was written, and
/// every other key reads as before.
pub proof fn stored_secrets_read_back(
    t: Seq<(Seq<char>, JsonView)>,
    key: Seq<char>,
    value: Seq<char>,
    other: Seq<char>,
    written: Seq<char>,
)
    requires
        is_text_object(t),
        json_object_parse_of(written) == Ok::<Seq<(Seq<char>, JsonView)>, Seq<char>>(
            put(t, key, JsonView::Text(value)),
        ),
    ensures
        secrets_of_text(written) matches Ok(u) && text_in(lookup(u, key)) == Some(value) && (other
            != key ==> lookup(u, other) == lookup(t, other)),
{
    lemma_put_text(t, key, value);
    lemma_text_entries(put(t, key, JsonView::Text(value)));
    lookup_after_put(t, key, JsonView::Text(value), other);
}

/// A secret in the keychain of macOS, under a service.
#[derive(Debug)]
pub struct MacKeychainSecretStore {
    service: String,
    access_group: Option<String>,
}

impl MacKeychainSecretStore {
    /// The name of the service.
    pub closed spec fn service_view(&self) -> Seq<char> {
        self.service@
    }

    /// The access group.
    pub closed spec fn group_view(&self) -> Option<Seq<char>> {
        opt_view(self.access_group)
    }

    /// A store under a service, without an access group.
    pub fn new(service: &str) -> (r: Self)
        ensures
            r.service_view() == service@,
            r.group_view() is None,
    {
        MacKeychainSecretStore { service: owned(service), access_group: None }
    }

    /// The store in an access group.
    pub fn with_access_group(self, access_group: &str) -> (r: Self)
        ensures
            r.service_view() == self.service_view(),
            r.group_view() == Some(access_group@),
    {
        MacKeychainSecretStore { service: self.service, access_group: Some(owned(access_group)) }
    }

    /// The name of the service.
    pub fn service(&self) -> (r: &str)
        ensures
            r@ == self.service_view(),
    {
        self.service.as_str()
    }
}

impl Default for MacKeychainSecretStore {
    fn default() -> (r: Self)
        ensures
            r.service_view() == "grodex"@,
            r.group_view() is None,
    {
        MacKeychainSecretStore::new("grodex")
    }
}

/// What a status of the macOS security framework means.
pub open spec fn keychain_error_view(code: i32, text: Seq<char>, e: SecretStoreError) -> bool {
    if code == -25300 {
        e == SecretStoreError::NotFound
    } else if code == -67061 || code == -67062 || code == -25293 || code == -25294 || code
        == -25295 {
        e == SecretStoreError::AccessDenied
    } else if code == -25291 || code == -25292 {
        e == SecretStoreError::BackendUnavailable
    } else {
        e matches SecretStoreError::IoError(m) && m@ == "security-framework (code "@ + signed_decimal(
            code as int,
        ) + "): "@ + text
    }
}

/// The keys of a keychain service. The keychain does not list them.
pub fn list_ids(_service: &str) -> (r: Result<Vec<String>, SecretStoreError>)
    ensures
        r matches Ok(ids) && ids@.len() == 0,
{
    Ok(Vec::new())
}

/// What comes of asking the keychain for a secret: one that is not there is no
/// error.
pub fn keychain_secret(read: Result<String, SecretStoreError>) -> (r: Result<
    Option<String>,
    SecretStoreError,
>)
    ensures
        match read {
            Ok(s) => r matches Ok(Some(t)) && t@ == s@,
            Err(SecretStoreError::NotFound) => r matches Ok(None),
            Err(e) => r matches Err(x) && x == e,
        },
{
    match read {
        Ok(s) => Ok(Some(s)),
        Err(SecretStoreError::NotFound) => Ok(None),
        Err(e) => Err(e),
    }
}

/// The error that a status of the macOS security framework stands for.
pub fn keychain_error(code: i32, text: &str) -> (r: SecretStoreError)
    ensures
        keychain_error_view(code, text@, r),
{
    if code == -25300 {
        SecretStoreError::NotFound
    } else if code == -67061 || code == -67062 || code == -25293 || code == -25294 || code
        == -25295 {
        SecretStoreError::AccessDenied
    } else if code == -25291 || code == -25292 {
        SecretStoreError::BackendUnavailable
    } else {
        let mut m = owned("security-framework (code ");
        m.append(signed_string(code as i64).as_str());
        m.append("): ");
        m.append(text);
        SecretStoreError::IoError(m)
    }
}

/// The text that is kept under a key of a file is its secret. Anything else
/// that is kept there is none.
pub proof fn texts_are_secrets(t: Seq<(Seq<char>, JsonView)>, key: Seq<char>)
    requires
        in_key_order(t),
    ensures
        lookup(text_entries(t), key) == (match lookup(t, key) {
            Some(JsonView::Text(v)) => Some(JsonView::Text(v)),
            _ => None,
        }),
    decreases t.len(),
{
    if t.len() > 0 {
        let d = t.drop_last();
        let last = t.last();
        assert forall|i: int, j: int| 0 <= i < j < d.len() implies crate::text::text_lt(
            #[trigger] d[i].0,
            #[trigger] d[j].0,
        ) by {
            assert(d[i] == t[i] && d[j] == t[j]);
        }
        texts_are_secrets(d, key);
        let below = text_entries(d);
        lemma_text_entries(d);
        lemma_key_index(d, key, 0);
        lemma_key_index(t, key, 0);
        lemma_key_index(below, key, 0);
        let i = key_index(d, key, 0);
        if i < d.len() {
            assert(d[i] == t[i]);
            assert forall|k: int| 0 <= k < i implies t[k].0 != key by {
                assert(d[k] == t[k]);
            }
            crate::entries::lemma_key_index_is(t, key, i);
            crate::text::text_lt_irreflexive(key);
            assert(last.0 != key) by {
                assert(crate::text::text_lt(t[i].0, t[t.len() - 1].0));
            }
        } else if last.0 == key {
            assert forall|k: int| 0 <= k < t.len() - 1 implies t[k].0 != key by {
                assert(d[k] == t[k]);
            }
            crate::entries::lemma_key_index_is(t, key, t.len() - 1);
        } else {
            assert forall|k: int| 0 <= k < t.len() implies t[k].0 != key by {
                if k < t.len() - 1 {
                    assert(d[k] == t[k]);
                }
            }
            crate::entries::lemma_key_index_is(t, key, t.len() as int);
        }
        if last.1 is Text {
            let all = text_entries(t);
            let k = key_index(below, key, 0);
            if k < below.len() {
                assert forall|n: int| 0 <= n < k implies all[n].0 != key by {
                    assert(all[n] == below[n]);
                }
                assert(all[k] == below[k]);
                crate::entries::lemma_key_index_is(all, key, k);
            } else {
                assert forall|n: int| 0 <= n < below.len() implies all[n].0 != key by {
                    assert(all[n] == below[n]);
                }
                if last.0 == key {
                    crate::entries::lemma_key_index_is(all, key, below.len() as int);
                } else {
                    crate::entries::lemma_key_index_is(all, key, all.len() as int);
                }
            }
        }
    } else {
        assert(text_entries(t) =~= t);
    }
}

/// What a file says of secrets: nothing where it is missing, why it could not be
/// read where it could not, and that it is broken where it holds no object.
pub proof fn files_say_what_is_kept(m: String, t: String, o: Seq<(Seq<char>, JsonView)>, e: Seq<char>)
    ensures
        secrets_in(SecretFile::Missing) == Ok::<Seq<(Seq<char>, JsonView)>, Seq<char>>(Seq::empty()),
        secrets_in(SecretFile::Failed(m)) == Err::<Seq<(Seq<char>, JsonView)>, Seq<char>>(m@),
        json_object_parse_of(t@) == Err::<Seq<(Seq<char>, JsonView)>, Seq<char>>(e) ==> secrets_in(
            SecretFile::Text(t),
        ) == Err::<Seq<(Seq<char>, JsonView)>, Seq<char>>("credentials file corrupted: "@ + e),
        json_object_parse_of(t@) == Ok::<Seq<(Seq<char>, JsonView)>, Seq<char>>(o) ==> secrets_in(
            SecretFile::Text(t),
        ) is Ok,
        secrets_in(SecretFile::Text(t)) == secrets_of_text(t@),
{
}

/// What the codes of the keychain mean.
pub proof fn keychain_codes_have_their_meaning(code: i32, text: Seq<char>, e: SecretStoreError)
    requires
        keychain_error_view(code, text, e),
    ensures
        e is NotFound <==> code == -25300,
        e is BackendUnavailable <==> (code == -25291 || code == -25292),
        e is AccessDenied <==> (-25295 <= code <= -25293 || code == -67061 || code == -67062),
        e matches SecretStoreError::IoError(m) ==> has_suffix(m@, text) && crate::text::contains_text(
            m@,
            signed_decimal(code as int),
        ),
{
    if let SecretStoreError::IoError(m) = e {
        let head = "security-framework (code "@;
        let n = signed_decimal(code as int);
        let s = m@;
        assert(s.skip(s.len() - text.len()) =~= text);
        assert(s.subrange(head.len() as int, (head.len() + n.len()) as int) =~= n);
        assert(crate::text::occurs_at(s, n, head.len() as int));
    }
}

/// The messages of a store that gave no secret.
pub proof fn stores_say_what_went_wrong(m: String)
    ensures
        secret_error_text(SecretStoreError::NotFound) == "secret not found"@,
        secret_error_text(SecretStoreError::AccessDenied) == "access denied by secret store"@,
        secret_error_text(SecretStoreError::BackendUnavailable) == "secret store backend unavailable"@,
        secret_error_text(SecretStoreError::IoError(m)) == "secret store I/O error: "@ + m@,
{
}

} // verus!
