//! The explanation of how a prompt is put together.

use vstd::prelude::*;
use vstd::string::*;

use crate::config::layer::{ConfigLayer, ConfigLayerSource, SourceView};
use crate::config::merge::{layers_view, LayerView};
use crate::config::values::{diagnostics_view, ConfigDiagnostic, DiagnosticLevel, DiagnosticView};
use crate::table::{left_in, pad_right};
use crate::text::{
    contains_text, decimal, decimal_string, has_prefix, has_suffix, lemma_views_push, owned, views,
};

verus! {

/// What the configuration says of the workspace: the flag of the first
/// workspace layer. Without one, the workspace is not trusted.
pub open spec fn configured_trust(layers: Seq<LayerView>) -> bool
    decreases layers.len(),
{
    if layers.len() == 0 {
        false
    } else {
        match layers[0].source {
            SourceView::Workspace(t) => t,
            _ => configured_trust(layers.skip(1)),
        }
    }
}

/// Whether the configuration trusts the workspace.
pub fn config_trusts(layers: &Vec<ConfigLayer>) -> (r: bool)
    ensures
        r == configured_trust(layers_view(layers@)),
{
    let ghost ls = layers_view(layers@);
    let mut i: usize = 0;
    assert(ls.skip(0) =~= ls);
    while i < layers.len()
        invariant
            i <= layers@.len(),
            ls == layers_view(layers@),
            configured_trust(ls) == configured_trust(ls.skip(i as int)),
        decreases layers@.len() - i,
    {
        assert(ls.skip(i as int)[0] == layers@[i as int]@);
        assert(ls.skip(i as int).skip(1) =~= ls.skip(i as int + 1));
        if let ConfigLayerSource::Workspace { trusted } = &layers[i].source {
            return *trusted;
        }
        i = i + 1;
    }
    false
}

/// A flag as text.
pub open spec fn flag_text(b: bool) -> Seq<char> {
    if b {
        "true"@
    } else {
        "false"@
    }
}

/// A flag as text.
pub fn flag_str(b: bool) -> (r: &'static str)
    ensures
        r@ == flag_text(b),
{
    if b {
        "true"
    } else {
        "false"
    }
}

/// The line that tells whether the workspace is trusted: where the caller or
/// the configuration says so.
pub fn trust_line(explicit: bool, configured: bool) -> (r: String)
    ensures
        r@ == trust_text(explicit, configured),
{
    let mut s = owned("Workspace trust: ");
    s.append(
        if explicit || configured {
            "TRUSTED"
        } else {
            "UNTRUSTED (fail-closed)"
        },
    );
    s.append(" (--trusted=");
    s.append(flag_str(explicit));
    s.append(", config[workspace].trusted=");
    s.append(flag_str(configured));
    s.append(")");
    s
}

/// What was found while looking for instructions.
#[derive(Debug, Clone, Copy, PartialEq, Eq, Structural)]
pub struct DiscoveryCounts {
    pub nodes: u64,
    pub oversized: u64,
    pub duplicates: u64,
    pub untrusted: u64,
}

/// The account of what was found while looking for instructions.
pub fn discovery_text(c: DiscoveryCounts) -> (r: String)
    ensures
        r@ == discovery_text_of(c),
{
    let mut s = owned("\n── Instruction Discovery ──\nNodes discovered: ");
    s.append(decimal_string(c.nodes).as_str());
    s.append("\nOversized files skipped: ");
    s.append(decimal_string(c.oversized).as_str());
    s.append("\nDuplicate canonical paths deduped: ");
    s.append(decimal_string(c.duplicates).as_str());
    s.append("\nUntrusted workspace files skipped: ");
    s.append(decimal_string(c.untrusted).as_str());
    s
}

/// How a level is written.
pub open spec fn level_text(l: DiagnosticLevel) -> Seq<char> {
    match l {
        DiagnosticLevel::Info => "INFO"@,
        DiagnosticLevel::Warning => "WARNING"@,
        DiagnosticLevel::Error => "ERROR"@,
    }
}

/// The line for a diagnostic.
pub open spec fn diagnostic_line(d: DiagnosticView) -> Seq<char> {
    "  ["@ + left_in(level_text(d.level), 7) + "] "@ + d.key_path + " — "@ + d.message
}

/// The lines for the diagnostics of a configuration, one for each.
pub fn diagnostic_lines(diags: &Vec<ConfigDiagnostic>) -> (r: Vec<String>)
    ensures
        views(r@) == diagnostics_view(diags@).map_values(|d: DiagnosticView| diagnostic_line(d)),
{
    let ghost ds = diagnostics_view(diags@);
    let ghost f = |d: DiagnosticView| diagnostic_line(d);
    let mut out: Vec<String> = Vec::new();
    let mut i: usize = 0;
    assert(views(out@) =~= ds.take(0).map_values(f));
    while i < diags.len()
        invariant
            i <= diags@.len(),
            ds == diagnostics_view(diags@),
            f == (|d: DiagnosticView| diagnostic_line(d)),
            views(out@) == ds.take(i as int).map_values(f),
        decreases diags@.len() - i,
    {
        let level = match diags[i].level {
            DiagnosticLevel::Info => "INFO",
            DiagnosticLevel::Warning => "WARNING",
            DiagnosticLevel::Error => "ERROR",
        };
        let mut s = owned("  [");
        s.append(pad_right(level, 7).as_str());
        s.append("] ");
        s.append(diags[i].key_path.as_str());
        s.append(" — ");
        s.append(diags[i].message.as_str());
        proof {
            lemma_views_push(out@, s);
            assert(ds[i as int] == diags@[i as int]@);
            assert(s@ == diagnostic_line(ds[i as int]));
            assert(ds.take(i as int + 1).map_values(f) =~= ds.take(i as int).map_values(f).push(
                s@,
            ));
        }
        out.push(s);
        i = i + 1;
    }
    assert(ds.take(ds.len() as int) =~= ds);
    out
}

/// What is explained of a prompt.
#[derive(Debug)]
pub struct PromptFacts {
    pub cwd: String,
    /// Whether the caller vouched for the workspace.
    pub explicit: bool,
    /// Whether the configuration trusts it.
    pub configured: bool,
    pub root_generation: u64,
    pub diagnostics: Vec<ConfigDiagnostic>,
    pub discovery: DiscoveryCounts,
    /// What was remarked while looking for instructions.
    pub remarks: Vec<String>,
    /// The account of the prompt's parts.
    pub manifest: String,
}

/// The lines for remarks.
pub open spec fn remark_lines(remarks: Seq<Seq<char>>) -> Seq<Seq<char>> {
    remarks.map_values(|d: Seq<char>| "  ⚠ "@ + d)
}

/// The line that tells whether the workspace is trusted.
pub open spec fn trust_text(explicit: bool, configured: bool) -> Seq<char> {
    "Workspace trust: "@ + (if explicit || configured {
        "TRUSTED"@
    } else {
        "UNTRUSTED (fail-closed)"@
    }) + " (--trusted="@ + flag_text(explicit) + ", config[workspace].trusted="@ + flag_text(
        configured,
    ) + ")"@
}

/// The account of what was found while looking for instructions.
pub open spec fn discovery_text_of(c: DiscoveryCounts) -> Seq<char> {
    "\n── Instruction Discovery ──\nNodes discovered: "@ + decimal(c.nodes as nat)
        + "\nOversized files skipped: "@ + decimal(c.oversized as nat)
        + "\nDuplicate canonical paths deduped: "@ + decimal(c.duplicates as nat)
        + "\nUntrusted workspace files skipped: "@ + decimal(c.untrusted as nat)
}

/// The explanation of a prompt.
pub open spec fn explanation_of(f: PromptFacts) -> Seq<Seq<char>> {
    let ds = diagnostics_view(f.diagnostics@);
    seq![
        "═══ Grodex Prompt Explain ═══"@,
        "Working directory: "@ + f.cwd@,
        trust_text(f.explicit, f.configured),
        "Config root generation: "@ + decimal(f.root_generation as nat),
        "Config diagnostics: "@ + decimal(ds.len()) + " (merge/migration/enforcement)"@,
        discovery_text_of(f.discovery),
    ] + remark_lines(views(f.remarks@)) + seq!["\n── Prompt Manifest ──"@, f.manifest@] + (
    if ds.len() == 0 {
        Seq::empty()
    } else {
        seq!["\n── Config Diagnostics (merge / migration / requirement overrides) ──"@]
            + ds.map_values(|d: DiagnosticView| diagnostic_line(d))
    })
}

fn add_remarks(out: &mut Vec<String>, remarks: &Vec<String>)
    ensures
        views(final(out)@) == views(old(out)@) + remark_lines(views(remarks@)),
{
    let ghost before = views(out@);
    let ghost all = remark_lines(views(remarks@));
    let mut i: usize = 0;
    assert(views(out@) =~= before + all.take(0));
    while i < remarks.len()
        invariant
            i <= remarks@.len(),
            all == remark_lines(views(remarks@)),
            views(out@) == before + all.take(i as int),
        decreases remarks@.len() - i,
    {
        let mut s = owned("  ⚠ ");
        s.append(remarks[i].as_str());
        proof {
            lemma_views_push(out@, s);
            assert(s@ == all[i as int]);
            assert(before + all.take(i as int + 1) =~= (before + all.take(i as int)).push(s@));
        }
        out.push(s);
        i = i + 1;
    }
    assert(all.take(all.len() as int) =~= all);
}

/// Explains how a prompt is put together.
pub fn explain_prompt(f: &PromptFacts) -> (r: Vec<String>)
    ensures
        views(r@) == explanation_of(*f),
{
    let mut cwd = owned("Working directory: ");
    cwd.append(f.cwd.as_str());
    let mut generation = owned("Config root generation: ");
    generation.append(decimal_string(f.root_generation).as_str());
    let mut count = owned("Config diagnostics: ");
    count.append(decimal_string(f.diagnostics.len() as u64).as_str());
    count.append(" (merge/migration/enforcement)");
    let mut out: Vec<String> = Vec::new();
    out.push(owned("═══ Grodex Prompt Explain ═══"));
    out.push(cwd);
    out.push(trust_line(f.explicit, f.configured));
    out.push(generation);
    out.push(count);
    out.push(discovery_text(f.discovery));
    let ghost ds = diagnostics_view(f.diagnostics@);
    let ghost head = seq![
        "═══ Grodex Prompt Explain ═══"@,
        "Working directory: "@ + f.cwd@,
        trust_text(f.explicit, f.configured),
        "Config root generation: "@ + decimal(f.root_generation as nat),
        "Config diagnostics: "@ + decimal(ds.len()) + " (merge/migration/enforcement)"@,
        discovery_text_of(f.discovery),
    ];
    assert(views(out@) =~= head);
    add_remarks(&mut out, &f.remarks);
    let ghost upto = head + remark_lines(views(f.remarks@));
    out.push(owned("\n── Prompt Manifest ──"));
    out.push(f.manifest.clone());
    let ghost parts = seq!["\n── Prompt Manifest ──"@, f.manifest@];
    assert(views(out@) =~= upto + parts);
    if f.diagnostics.len() > 0 {
        let title = "\n── Config Diagnostics (merge / migration / requirement overrides) ──";
        out.push(owned(title));
        assert(views(out@) =~= upto + parts + seq![title@]);
        let mut more = diagnostic_lines(&f.diagnostics);
        let ghost was = views(out@);
        let ghost added = views(more@);
        out.append(&mut more);
        assert(views(out@) =~= was + added);
        assert(views(out@) =~= explanation_of(*f));
    } else {
        assert(views(out@) =~= explanation_of(*f));
    }
    out
}

/// The first layer of a workspace says whether the workspace is trusted. Without
/// one it is not.
pub proof fn workspace_layers_state_trust(layers: Seq<LayerView>, i: int, t: bool)
    ensures
        0 <= i < layers.len() && layers[i].source == SourceView::Workspace(t) && (forall|k: int|
            0 <= k < i ==> !((#[trigger] layers[k]).source is Workspace)) ==> configured_trust(layers) == t,
        (forall|k: int| 0 <= k < layers.len() ==> !((#[trigger] layers[k]).source is Workspace))
            ==> !configured_trust(layers),
    decreases layers.len(),
{
    if layers.len() > 0 {
        let rest = layers.skip(1);
        workspace_layers_state_trust(rest, i - 1, t);
        if !(layers[0].source is Workspace) {
            if 0 < i < layers.len() {
                assert(rest[i - 1] == layers[i]);
            }
            assert(forall|k: int| 0 <= k < rest.len() ==> rest[k] == layers[k + 1]);
        }
    }
}

/// A workspace is shown as trusted where the caller or the configuration says
/// so.
pub proof fn trust_is_shown(explicit: bool, configured: bool)
    ensures
        explicit || configured ==> has_prefix(
            trust_text(explicit, configured),
            "Workspace trust: "@ + "TRUSTED"@ + " ("@,
        ),
        !explicit && !configured ==> has_prefix(
            trust_text(explicit, configured),
            "Workspace trust: "@ + "UNTRUSTED"@,
        ),
{
    let t = trust_text(explicit, configured);
    let a = "Workspace trust: "@ + "TRUSTED"@ + " ("@;
    let b = "Workspace trust: "@ + "UNTRUSTED"@;
    reveal_strlit("UNTRUSTED");
    reveal_strlit("UNTRUSTED (fail-closed)");
    reveal_strlit(" (--trusted=");
    reveal_strlit(" (");
    if explicit || configured {
        assert(t.take(a.len() as int) =~= a);
    } else {
        assert(t.take(b.len() as int) =~= b);
    }
}

/// A line of a diagnostic says how grave it is, what it is about and what it is.
pub proof fn diagnostics_are_shown(d: DiagnosticView)
    ensures
        contains_text(diagnostic_line(d), d.key_path),
        has_suffix(diagnostic_line(d), d.message),
        contains_text(
            diagnostic_line(d),
            match d.level {
                DiagnosticLevel::Info => "INFO"@,
                DiagnosticLevel::Warning => "WARNING"@,
                DiagnosticLevel::Error => "ERROR"@,
            },
        ),
{
    let l = level_text(d.level);
    let w = left_in(l, 7);
    let gap = crate::table::spaces(7 - l.len());
    let s = diagnostic_line(d);
    crate::text::parts_stand_in_the_whole("  ["@, l, gap + "] "@ + d.key_path + " — "@ + d.message);
    assert(s =~= "  ["@ + l + (gap + "] "@ + d.key_path + " — "@ + d.message));
    crate::text::parts_stand_in_the_whole("  ["@ + w + "] "@, d.key_path, " — "@ + d.message);
    assert(s =~= "  ["@ + w + "] "@ + d.key_path + (" — "@ + d.message));
    assert(s.skip(s.len() - d.message.len()) =~= d.message);
}

/// An explanation holds the directory, the trust, the generation, each remark,
/// the manifest and each diagnostic.
pub proof fn explanations_hold_everything(f: PromptFacts, i: int)
    ensures
        ({
            let ls = explanation_of(f);
            let ds = diagnostics_view(f.diagnostics@);
            &&& ls.contains("Working directory: "@ + f.cwd@)
            &&& ls.contains(trust_text(f.explicit, f.configured))
            &&& ls.contains("Config root generation: "@ + decimal(f.root_generation as nat))
            &&& ls.contains(f.manifest@)
            &&& 0 <= i < f.remarks@.len() ==> ls.contains("  ⚠ "@ + f.remarks@[i]@)
            &&& 0 <= i < f.diagnostics@.len() ==> ls.contains(diagnostic_line(ds[i]))
        }),
{
    let ls = explanation_of(f);
    let n = f.remarks@.len() as int;
    let ds = diagnostics_view(f.diagnostics@);
    assert(ls[1] == "Working directory: "@ + f.cwd@);
    assert(ls[2] == trust_text(f.explicit, f.configured));
    assert(ls[3] == "Config root generation: "@ + decimal(f.root_generation as nat));
    assert(ls[6 + n + 1] == f.manifest@);
    if 0 <= i < n {
        assert(ls[6 + i] == "  ⚠ "@ + f.remarks@[i]@);
    }
    if 0 <= i < f.diagnostics@.len() {
        assert(ls[6 + n + 3 + i] == diagnostic_line(ds[i]));
    }
}

/// What was found of instructions is counted.
pub proof fn discoveries_are_counted(c: DiscoveryCounts)
    ensures
        contains_text(discovery_text_of(c), "Nodes discovered: "@ + decimal(c.nodes as nat) + "\n"@),
        contains_text(
            discovery_text_of(c),
            "Oversized files skipped: "@ + decimal(c.oversized as nat) + "\n"@,
        ),
        contains_text(
            discovery_text_of(c),
            "Duplicate canonical paths deduped: "@ + decimal(c.duplicates as nat) + "\n"@,
        ),
        has_suffix(
            discovery_text_of(c),
            "Untrusted workspace files skipped: "@ + decimal(c.untrusted as nat),
        ),
{
    lemma_discovery_pieces();
    let a = decimal(c.nodes as nat);
    let b = decimal(c.oversized as nat);
    let d = decimal(c.duplicates as nat);
    let e = decimal(c.untrusted as nat);
    let t = discovery_text_of(c);
    let h0 = "\n── Instruction Discovery ──\n"@;
    let k0 = "Nodes discovered: "@;
    let k1 = "Oversized files skipped: "@;
    let k2 = "Duplicate canonical paths deduped: "@;
    let k3 = "Untrusted workspace files skipped: "@;
    let nl = "\n"@;
    lemma_discovery_shapes(h0, k0, k1, k2, k3, nl, a, b, d, e);
    let r3 = k3 + e;
    let r2 = k2 + d + nl + r3;
    let r1 = k1 + b + nl + r2;
    crate::text::parts_stand_in_the_whole(h0, k0 + a + nl, r1);
    let h1 = h0 + k0 + a + nl;
    crate::text::parts_stand_in_the_whole(h1, k1 + b + nl, r2);
    let h2 = h1 + k1 + b + nl;
    crate::text::parts_stand_in_the_whole(h2, k2 + d + nl, r3);
}

proof fn lemma_discovery_shapes(
    h0: Seq<char>,
    k0: Seq<char>,
    k1: Seq<char>,
    k2: Seq<char>,
    k3: Seq<char>,
    nl: Seq<char>,
    a: Seq<char>,
    b: Seq<char>,
    d: Seq<char>,
    e: Seq<char>,
)
    ensures
        ({
            let t = h0 + k0 + a + (nl + k1) + b + (nl + k2) + d + (nl + k3) + e;
            let t2 = (h0 + k0) + a + (nl + k1) + b + (nl + k2) + d + (nl + k3) + e;
            let r3 = k3 + e;
            let r2 = k2 + d + nl + r3;
            let r1 = k1 + b + nl + r2;
            let h1 = h0 + k0 + a + nl;
            let h2 = h1 + k1 + b + nl;
            &&& t == h0 + (k0 + a + nl) + r1
            &&& t == h1 + (k1 + b + nl) + r2
            &&& t == h2 + (k2 + d + nl) + r3
            &&& has_suffix(t2, r3)
        }),
{
    let t = h0 + k0 + a + (nl + k1) + b + (nl + k2) + d + (nl + k3) + e;
    let r3 = k3 + e;
    let r2 = k2 + d + nl + r3;
    let r1 = k1 + b + nl + r2;
    let h1 = h0 + k0 + a + nl;
    let h2 = h1 + k1 + b + nl;
    assert(t =~= h0 + (k0 + a + nl) + r1);
    assert(t =~= h1 + (k1 + b + nl) + r2);
    assert(t =~= h2 + (k2 + d + nl) + r3);
    assert(t.skip(t.len() - r3.len()) =~= r3);
}

proof fn lemma_discovery_pieces()
    ensures
        "\n── Instruction Discovery ──\nNodes discovered: "@ == "\n── Instruction Discovery ──\n"@
            + "Nodes discovered: "@,
        "\nOversized files skipped: "@ == "\n"@ + "Oversized files skipped: "@,
        "\nDuplicate canonical paths deduped: "@ == "\n"@ + "Duplicate canonical paths deduped: "@,
        "\nUntrusted workspace files skipped: "@ == "\n"@ + "Untrusted workspace files skipped: "@,
{
    reveal_strlit("\n── Instruction Discovery ──\nNodes discovered: ");
    reveal_strlit("\n── Instruction Discovery ──\n");
    reveal_strlit("Nodes discovered: ");
    reveal_strlit("\nOversized files skipped: ");
    reveal_strlit("\n");
    reveal_strlit("Oversized files skipped: ");
    reveal_strlit("\nDuplicate canonical paths deduped: ");
    reveal_strlit("Duplicate canonical paths deduped: ");
    reveal_strlit("\nUntrusted workspace files skipped: ");
    reveal_strlit("Untrusted workspace files skipped: ");
    assert("\n── Instruction Discovery ──\nNodes discovered: "@ =~= "\n── Instruction Discovery ──\n"@
        + "Nodes discovered: "@);
    assert("\nOversized files skipped: "@ =~= "\n"@ + "Oversized files skipped: "@);
    assert("\nDuplicate canonical paths deduped: "@ =~= "\n"@ + "Duplicate canonical paths deduped: "@);
    assert("\nUntrusted workspace files skipped: "@ =~= "\n"@ + "Untrusted workspace files skipped: "@);
}

} // verus!
