//! The binding that a trust decision about a workspace is made for.

use vstd::prelude::*;
use vstd::string::*;

use crate::hash::{fingerprint_bytes, fingerprint_of};
use crate::text::{
    chars_of, join, joined, middles_of_equal_texts_are_equal, opt_view, owned, string_of, trim,
    trimmed, utf8_lossy, utf8_lossy_of, views,
};

verus! {

/// What a user trusts when they trust a workspace: its place, its
/// configuration, the risky keys in it and its repository, with a hash over
/// all of them.
#[derive(Debug)]
pub struct WorkspaceTrustBinding {
    pub workspace_canonical_path: String,
    pub config_fingerprint: String,
    pub high_risk_keys: Vec<String>,
    pub repository_remote_fingerprint: Option<String>,
    pub binding_hash: String,
}

/// The text that the binding hash is taken over.
pub open spec fn binding_input(
    path: Seq<char>,
    fingerprint: Seq<char>,
    high_risk: Seq<Seq<char>>,
    remote: Option<Seq<char>>,
) -> Seq<char> {
    "WSBINDv1\n"@ + path + "\n"@ + fingerprint + "\n"@ + joined(high_risk, "|"@) + "\n"@ + (
    match remote {
        Some(r) => r,
        None => Seq::empty(),
    })
}

/// The first 16 hexadecimal digits of the SHA-256 digest of the input.
pub open spec fn binding_hash_of(
    path: Seq<char>,
    fingerprint: Seq<char>,
    high_risk: Seq<Seq<char>>,
    remote: Option<Seq<char>>,
) -> Seq<char> {
    fingerprint_of(
        vstd::utf8::encode_utf8(binding_input(path, fingerprint, high_risk, remote)),
    ).take(16)
}

impl WorkspaceTrustBinding {
    /// The binding of a workspace with the given canonical path and remote.
    pub fn compute(
        workspace_canonical_path: String,
        repository_remote_fingerprint: Option<String>,
        config_fingerprint: String,
        high_risk_keys: Vec<String>,
    ) -> (r: Self)
        ensures
            r.workspace_canonical_path == workspace_canonical_path,
            r.config_fingerprint == config_fingerprint,
            r.high_risk_keys == high_risk_keys,
            r.repository_remote_fingerprint == repository_remote_fingerprint,
            r.binding_hash@ == binding_hash_of(
                workspace_canonical_path@,
                config_fingerprint@,
                views(high_risk_keys@),
                opt_view(repository_remote_fingerprint),
            ),
    {
        let mut input = owned("WSBINDv1\n");
        input.append(workspace_canonical_path.as_str());
        input.append("\n");
        input.append(config_fingerprint.as_str());
        input.append("\n");
        input.append(join(&high_risk_keys, "|").as_str());
        input.append("\n");
        match &repository_remote_fingerprint {
            Some(r) => {
                input.append(r.as_str());
            },
            None => {
                assert(input@ =~= input@ + Seq::<char>::empty());
            },
        }
        let full = fingerprint_bytes(input.as_str().as_bytes());
        let chars = chars_of(full.as_str());
        let binding_hash = string_of(&chars, 0, 16);
        assert(binding_hash@ =~= full@.take(16));
        WorkspaceTrustBinding {
            workspace_canonical_path,
            config_fingerprint,
            high_risk_keys,
            repository_remote_fingerprint,
            binding_hash,
        }
    }
}

/// The remote that `git config --get` printed: nothing where the command
/// failed or printed only white space.
pub fn remote_from_output(success: bool, stdout: &[u8]) -> (r: Option<String>)
    ensures
        opt_view(r) == (if success && trimmed(utf8_lossy_of(stdout@)).len() > 0 {
            Some(trimmed(utf8_lossy_of(stdout@)))
        } else {
            None
        }),
{
    if !success {
        return None;
    }
    let t = trim(utf8_lossy(stdout).as_str());
    if t.as_str().is_empty() {
        None
    } else {
        Some(t)
    }
}

/// A workspace is bound by its path, its fingerprint, its risky settings and the
/// place that it came from: where one of them differs and the others do not, so
/// does what the binding is made of.
pub proof fn bindings_are_made_of_every_part(
    p1: Seq<char>,
    p2: Seq<char>,
    f1: Seq<char>,
    f2: Seq<char>,
    h1: Seq<Seq<char>>,
    h2: Seq<Seq<char>>,
    r1: Seq<char>,
    r2: Seq<char>,
)
    ensures
        binding_input(p1, f1, h1, Some(r1)) == binding_input(p2, f1, h1, Some(r1)) ==> p1 == p2,
        binding_input(p1, f1, h1, Some(r1)) == binding_input(p1, f2, h1, Some(r1)) ==> f1 == f2,
        binding_input(p1, f1, h1, Some(r1)) == binding_input(p1, f1, h2, Some(r1)) ==> joined(h1, "|"@)
            == joined(h2, "|"@),
        binding_input(p1, f1, h1, Some(r1)) == binding_input(p1, f1, h1, Some(r2)) ==> r1 == r2,
        binding_input(p1, f1, h1, None) == binding_input(p1, f1, h1, Some(Seq::empty())),
{
    let nl = "\n"@;
    let start = "WSBINDv1\n"@;
    let j1 = joined(h1, "|"@);
    let j2 = joined(h2, "|"@);
    let e = Seq::<char>::empty();
    if binding_input(p1, f1, h1, Some(r1)) == binding_input(p2, f1, h1, Some(r1)) {
        let tail = nl + f1 + nl + j1 + nl + r1;
        assert(binding_input(p1, f1, h1, Some(r1)) =~= start + p1 + tail);
        assert(binding_input(p2, f1, h1, Some(r1)) =~= start + p2 + tail);
        middles_of_equal_texts_are_equal(start, p1, p2, tail);
    }
    if binding_input(p1, f1, h1, Some(r1)) == binding_input(p1, f2, h1, Some(r1)) {
        let head = start + p1 + nl;
        let tail = nl + j1 + nl + r1;
        assert(binding_input(p1, f1, h1, Some(r1)) =~= head + f1 + tail);
        assert(binding_input(p1, f2, h1, Some(r1)) =~= head + f2 + tail);
        middles_of_equal_texts_are_equal(head, f1, f2, tail);
    }
    if binding_input(p1, f1, h1, Some(r1)) == binding_input(p1, f1, h2, Some(r1)) {
        let head = start + p1 + nl + f1 + nl;
        let tail = nl + r1;
        assert(binding_input(p1, f1, h1, Some(r1)) =~= head + j1 + tail);
        assert(binding_input(p1, f1, h2, Some(r1)) =~= head + j2 + tail);
        middles_of_equal_texts_are_equal(head, j1, j2, tail);
    }
    if binding_input(p1, f1, h1, Some(r1)) == binding_input(p1, f1, h1, Some(r2)) {
        let head = start + p1 + nl + f1 + nl + j1 + nl;
        assert(binding_input(p1, f1, h1, Some(r1)) =~= head + r1 + e);
        assert(binding_input(p1, f1, h1, Some(r2)) =~= head + r2 + e);
        middles_of_equal_texts_are_equal(head, r1, r2, e);
    }
}

} // verus!
