//! The report on how well a session's queries were served from memory.

use vstd::prelude::*;
use vstd::string::*;

use crate::paths::{join_path, joined_path};
use crate::session::prompt::{flag_str, flag_text};
use crate::text::{
    contains_text, debug_str, debug_str_of, decimal, decimal_string, ellipsized, has_suffix,
    lemma_views_push, list_contains, opt_view, owned, parts_stand_in_the_whole, truncate, views,
};

verus! {

/// What was retrieved for a query, and what should have been.
#[derive(Debug)]
pub struct EvalSample {
    pub sample_id: String,
    pub query: String,
    pub skill_enabled: bool,
    pub memory_enabled: bool,
    pub evidence_enabled: bool,
    pub actual_memory_ids: Vec<String>,
    pub actual_evidence_ids: Vec<String>,
    pub actual_skill_ids: Vec<String>,
    pub expected_memory_ids: Vec<String>,
}

/// The number of characters that are shown of a query.
pub const QUERY_CHARS: usize = 50;

/// How many of the expected items are among the actual ones. An item that is
/// expected twice counts twice.
pub open spec fn hits_of(expected: Seq<Seq<char>>, actual: Seq<Seq<char>>) -> nat
    decreases expected.len(),
{
    if expected.len() == 0 {
        0
    } else {
        hits_of(expected.drop_last(), actual) + (if actual.contains(expected.last()) {
            1nat
        } else {
            0nat
        })
    }
}

proof fn lemma_hits_bounded(expected: Seq<Seq<char>>, actual: Seq<Seq<char>>)
    ensures
        hits_of(expected, actual) <= expected.len(),
    decreases expected.len(),
{
    if expected.len() > 0 {
        lemma_hits_bounded(expected.drop_last(), actual);
    }
}

/// How many of the expected items were retrieved.
pub fn count_hits(expected: &Vec<String>, actual: &Vec<String>) -> (r: u64)
    ensures
        r == hits_of(views(expected@), views(actual@)),
        r <= expected@.len(),
{
    let ghost es = views(expected@);
    let mut n: u64 = 0;
    let mut i: usize = 0;
    assert(es.take(0) =~= Seq::empty());
    while i < expected.len()
        invariant
            i <= expected@.len(),
            es == views(expected@),
            n == hits_of(es.take(i as int), views(actual@)),
            n <= i,
        decreases expected@.len() - i,
    {
        proof {
            assert(es.take(i as int + 1).drop_last() =~= es.take(i as int));
            assert(es.take(i as int + 1).last() == expected@[i as int]@);
        }
        if list_contains(actual, expected[i].as_str()) {
            n = n + 1;
        }
        i = i + 1;
    }
    assert(es.take(es.len() as int) =~= es);
    n
}

/// The lines for a sample.
pub open spec fn sample_lines_of(s: EvalSample) -> Seq<Seq<char>> {
    let head = seq![
        "  ["@ + s.sample_id@ + "] query="@ + debug_str_of(
            ellipsized(s.query@, QUERY_CHARS as nat),
        ),
        "    router: skill="@ + flag_text(s.skill_enabled) + " mem="@ + flag_text(s.memory_enabled)
            + " ev="@ + flag_text(s.evidence_enabled) + " | actual: mem="@ + decimal(
            s.actual_memory_ids@.len(),
        ) + " ev="@ + decimal(s.actual_evidence_ids@.len()) + " skill="@ + decimal(
            s.actual_skill_ids@.len(),
        ),
    ];
    if s.expected_memory_ids@.len() == 0 {
        head
    } else {
        head.push(
            "    expected mem: "@ + decimal(s.expected_memory_ids@.len()) + " | hits: "@ + decimal(
                hits_of(views(s.expected_memory_ids@), views(s.actual_memory_ids@)),
            ),
        )
    }
}

/// The lines for a sample.
pub fn sample_lines(s: &EvalSample) -> (r: Vec<String>)
    ensures
        views(r@) == sample_lines_of(*s),
{
    let mut out: Vec<String> = Vec::new();
    let mut a = owned("  [");
    a.append(s.sample_id.as_str());
    a.append("] query=");
    a.append(debug_str(truncate(s.query.as_str(), QUERY_CHARS).as_str()).as_str());
    let mut b = owned("    router: skill=");
    b.append(flag_str(s.skill_enabled));
    b.append(" mem=");
    b.append(flag_str(s.memory_enabled));
    b.append(" ev=");
    b.append(flag_str(s.evidence_enabled));
    b.append(" | actual: mem=");
    b.append(decimal_string(s.actual_memory_ids.len() as u64).as_str());
    b.append(" ev=");
    b.append(decimal_string(s.actual_evidence_ids.len() as u64).as_str());
    b.append(" skill=");
    b.append(decimal_string(s.actual_skill_ids.len() as u64).as_str());
    out.push(a);
    out.push(b);
    assert(views(out@) =~= seq![a@, b@]);
    if s.expected_memory_ids.len() > 0 {
        let mut c = owned("    expected mem: ");
        c.append(decimal_string(s.expected_memory_ids.len() as u64).as_str());
        c.append(" | hits: ");
        c.append(
            decimal_string(count_hits(&s.expected_memory_ids, &s.actual_memory_ids)).as_str(),
        );
        proof {
            lemma_views_push(out@, c);
        }
        out.push(c);
    }
    assert(views(out@) =~= sample_lines_of(*s));
    out
}

/// The lines at the head of the report.
pub fn eval_header(session_id: &str, db_path: &str, samples: u64, labelled: bool) -> (r: Vec<String>)
    ensures
        views(r@) == header_of(session_id@, db_path@, samples as nat, labelled),
{
    let mut a = owned("Session: ");
    a.append(session_id);
    let mut b = owned("Memory DB: ");
    b.append(db_path);
    let mut c = owned("Queries extracted: ");
    c.append(decimal_string(samples).as_str());
    let d = if labelled {
        owned("Labels: loaded")
    } else {
        owned("Labels: none (no ground-truth comparison)")
    };
    let mut out: Vec<String> = Vec::new();
    out.push(owned("═══ Memory Retrieval Eval ═══"));
    out.push(a);
    out.push(b);
    out.push(c);
    out.push(d);
    assert(views(out@) =~= seq![
        "═══ Memory Retrieval Eval ═══"@,
        a@,
        b@,
        c@,
        d@,
    ]);
    out
}

/// The lines for samples.
pub open spec fn all_sample_lines(samples: Seq<EvalSample>) -> Seq<Seq<char>>
    decreases samples.len(),
{
    if samples.len() == 0 {
        Seq::empty()
    } else {
        all_sample_lines(samples.drop_last()) + sample_lines_of(samples.last())
    }
}

/// The lines at the head of the report.
pub open spec fn header_of(
    session_id: Seq<char>,
    db_path: Seq<char>,
    samples: nat,
    labelled: bool,
) -> Seq<Seq<char>> {
    seq![
        "═══ Memory Retrieval Eval ═══"@,
        "Session: "@ + session_id,
        "Memory DB: "@ + db_path,
        "Queries extracted: "@ + decimal(samples),
        if labelled {
            "Labels: loaded"@
        } else {
            "Labels: none (no ground-truth comparison)"@
        },
    ]
}

/// The report: its head, the metrics, and the samples, if there are any.
pub fn eval_report(
    session_id: &str,
    db_path: &str,
    samples: &Vec<EvalSample>,
    labelled: bool,
    metrics: &str,
) -> (r: Vec<String>)
    ensures
        views(r@) == header_of(session_id@, db_path@, samples@.len(), labelled) + seq![
            Seq::empty(),
            metrics@,
        ] + (if samples@.len() == 0 {
            Seq::empty()
        } else {
            seq!["\n── Per-sample details ──"@] + all_sample_lines(samples@)
        }),
{
    let mut out = eval_header(session_id, db_path, samples.len() as u64, labelled);
    let ghost head = views(out@);
    let none = String::new();
    assert(none@ =~= Seq::empty());
    out.push(none);
    out.push(owned(metrics));
    assert(views(out@) =~= head + seq![Seq::empty(), metrics@]);
    if samples.len() > 0 {
        out.push(owned("\n── Per-sample details ──"));
        let ghost before = views(out@);
        assert(before =~= head + seq![Seq::empty(), metrics@] + seq![
            "\n── Per-sample details ──"@,
        ]);
        let mut i: usize = 0;
        assert(views(out@) =~= before + all_sample_lines(samples@.take(0)));
        while i < samples.len()
            invariant
                i <= samples@.len(),
                views(out@) == before + all_sample_lines(samples@.take(i as int)),
            decreases samples@.len() - i,
        {
            let mut more = sample_lines(&samples[i]);
            proof {
                assert(samples@.take(i as int + 1).drop_last() =~= samples@.take(i as int));
                assert(samples@.take(i as int + 1).last() == samples@[i as int]);
            }
            let ghost was = views(out@);
            let ghost added = views(more@);
            out.append(&mut more);
            assert(views(out@) =~= was + added);
            assert(views(out@) =~= before + all_sample_lines(samples@.take(i as int + 1)));
            i = i + 1;
        }
        assert(samples@.take(samples@.len() as int) =~= samples@);
        assert(views(out@) =~= head + seq![Seq::empty(), metrics@] + (seq![
            "\n── Per-sample details ──"@,
        ] + all_sample_lines(samples@)));
    } else {
        assert(views(out@) =~= head + seq![Seq::empty(), metrics@] + Seq::empty());
    }
    out
}

/// The path of the memory database that is evaluated: the one that was named,
/// or else the one under the home directory, or else under this one.
pub fn eval_db_path(named: Option<String>, home_dir: Option<String>) -> (r: String)
    ensures
        r@ == (match opt_view(named) {
            Some(p) => p,
            None => joined_path(
                joined_path(
                    match opt_view(home_dir) {
                        Some(h) => h,
                        None => "."@,
                    },
                    ".grodex"@,
                ),
                "memory.db"@,
            ),
        }),
{
    match named {
        Some(p) => p,
        None => {
            let h = match home_dir {
                Some(h) => h,
                None => owned("."),
            };
            join_path(join_path(h.as_str(), ".grodex").as_str(), "memory.db")
        },
    }
}

/// No more items are hit than were expected.
pub proof fn hits_are_expected(expected: Seq<Seq<char>>, actual: Seq<Seq<char>>)
    ensures
        hits_of(expected, actual) <= expected.len(),
{
    lemma_hits_bounded(expected, actual);
}

/// Each expected memory that was found is one hit, and nothing else is.
pub proof fn found_memories_are_hits(expected: Seq<Seq<char>>, actual: Seq<Seq<char>>, id: Seq<char>)
    ensures
        actual.contains(id) ==> hits_of(expected.push(id), actual) == hits_of(expected, actual) + 1,
        !actual.contains(id) ==> hits_of(expected.push(id), actual) == hits_of(expected, actual),
        hits_of(Seq::empty(), actual) == 0,
{
    assert(expected.push(id).drop_last() =~= expected);
}

/// The lines of a sample name it, its query, what was asked and what was found,
/// and what was expected where anything was.
pub proof fn samples_are_shown(s: EvalSample)
    ensures
        ({
            let ls = sample_lines_of(s);
            &&& ls.len() == (if s.expected_memory_ids@.len() > 0 {
                3int
            } else {
                2int
            })
            &&& contains_text(ls[0], s.sample_id@)
            &&& contains_text(ls[0], debug_str_of(ellipsized(s.query@, 50)))
            &&& contains_text(ls[1], "skill="@ + (if s.skill_enabled {
                "true"@
            } else {
                "false"@
            }) + " mem="@)
            &&& contains_text(ls[1], " mem="@ + (if s.memory_enabled {
                "true"@
            } else {
                "false"@
            }) + " ev="@)
            &&& contains_text(ls[1], " ev="@ + (if s.evidence_enabled {
                "true"@
            } else {
                "false"@
            }) + " | actual: mem="@)
            &&& contains_text(ls[1], " | actual: mem="@ + decimal(s.actual_memory_ids@.len()) + " ev="@)
            &&& contains_text(ls[1], " ev="@ + decimal(s.actual_evidence_ids@.len()) + " skill="@)
            &&& has_suffix(ls[1], " skill="@ + decimal(s.actual_skill_ids@.len()))
            &&& s.expected_memory_ids@.len() > 0 ==> {
                &&& contains_text(ls[2], decimal(s.expected_memory_ids@.len()) + " | hits: "@)
                &&& has_suffix(
                    ls[2],
                    " | hits: "@ + decimal(
                        hits_of(views(s.expected_memory_ids@), views(s.actual_memory_ids@)),
                    ),
                )
            }
        }),
{
    let ls = sample_lines_of(s);
    let q = debug_str_of(ellipsized(s.query@, 50));
    lemma_sample_shapes(s);
    parts_stand_in_the_whole("  ["@, s.sample_id@, "] query="@ + q);
    parts_stand_in_the_whole("  ["@ + s.sample_id@ + "] query="@, q, Seq::empty());
    let a = flag_text(s.skill_enabled);
    let b = flag_text(s.memory_enabled);
    let c = flag_text(s.evidence_enabled);
    let m = decimal(s.actual_memory_ids@.len());
    let e = decimal(s.actual_evidence_ids@.len());
    let k = decimal(s.actual_skill_ids@.len());
    lemma_router_line(a, b, c, m, e, k);
    if s.expected_memory_ids@.len() > 0 {
        let n = decimal(s.expected_memory_ids@.len());
        let h = decimal(hits_of(views(s.expected_memory_ids@), views(s.actual_memory_ids@)));
        parts_stand_in_the_whole("    expected mem: "@, n + " | hits: "@, h);
    }
}

proof fn lemma_sample_shapes(s: EvalSample)
    ensures
        ({
            let ls = sample_lines_of(s);
            let n = decimal(s.expected_memory_ids@.len());
            let h = decimal(hits_of(views(s.expected_memory_ids@), views(s.actual_memory_ids@)));
            &&& ls[0] == "  ["@ + s.sample_id@ + ("] query="@ + debug_str_of(ellipsized(s.query@, 50)))
            &&& ls[1] == router_line(
                flag_text(s.skill_enabled),
                flag_text(s.memory_enabled),
                flag_text(s.evidence_enabled),
                decimal(s.actual_memory_ids@.len()),
                decimal(s.actual_evidence_ids@.len()),
                decimal(s.actual_skill_ids@.len()),
            )
            &&& s.expected_memory_ids@.len() > 0 ==> ls[2] == "    expected mem: "@ + (n + " | hits: "@) + h
                && has_suffix(ls[2], " | hits: "@ + h)
        }),
{
    let ls = sample_lines_of(s);
    let q = debug_str_of(ellipsized(s.query@, 50));
    assert(ls[0] =~= "  ["@ + s.sample_id@ + ("] query="@ + q));
    lemma_router_shape(
        flag_text(s.skill_enabled),
        flag_text(s.memory_enabled),
        flag_text(s.evidence_enabled),
        decimal(s.actual_memory_ids@.len()),
        decimal(s.actual_evidence_ids@.len()),
        decimal(s.actual_skill_ids@.len()),
    );
    if s.expected_memory_ids@.len() > 0 {
        let n = decimal(s.expected_memory_ids@.len());
        let h = decimal(hits_of(views(s.expected_memory_ids@), views(s.actual_memory_ids@)));
        assert(ls[2] =~= "    expected mem: "@ + (n + " | hits: "@) + h);
        let t = " | hits: "@ + h;
        assert(ls[2].skip(ls[2].len() - t.len()) =~= t);
    }
}

proof fn lemma_router_shape(
    a: Seq<char>,
    b: Seq<char>,
    c: Seq<char>,
    m: Seq<char>,
    e: Seq<char>,
    k: Seq<char>,
)
    ensures
        "    router: skill="@ + a + " mem="@ + b + " ev="@ + c + " | actual: mem="@ + m + " ev="@ + e
            + " skill="@ + k == router_line(a, b, c, m, e, k),
{
    assert("    router: skill="@ =~= "    router: "@ + "skill="@) by {
        reveal_strlit("    router: skill=");
        reveal_strlit("    router: ");
        reveal_strlit("skill=");
    }
    assert("    router: skill="@ + a + " mem="@ + b + " ev="@ + c + " | actual: mem="@ + m + " ev="@ + e
        + " skill="@ + k =~= router_line(a, b, c, m, e, k));
}

spec fn router_line(
    a: Seq<char>,
    b: Seq<char>,
    c: Seq<char>,
    m: Seq<char>,
    e: Seq<char>,
    k: Seq<char>,
) -> Seq<char> {
    "    router: "@ + ("skill="@ + a) + (" mem="@ + b) + (" ev="@ + c) + (" | actual: mem="@ + m) + (
    " ev="@ + e) + (" skill="@ + k)
}

proof fn lemma_router_line(
    a: Seq<char>,
    b: Seq<char>,
    c: Seq<char>,
    m: Seq<char>,
    e: Seq<char>,
    k: Seq<char>,
)
    ensures
        ({
            let l = router_line(a, b, c, m, e, k);
            &&& contains_text(l, "skill="@ + a + " mem="@)
            &&& contains_text(l, " mem="@ + b + " ev="@)
            &&& contains_text(l, " ev="@ + c + " | actual: mem="@)
            &&& contains_text(l, " | actual: mem="@ + m + " ev="@)
            &&& contains_text(l, " ev="@ + e + " skill="@)
            &&& has_suffix(l, " skill="@ + k)
        }),
{
    let w0 = "    router: "@;
    let w1 = "skill="@;
    let w2 = " mem="@;
    let w3 = " ev="@;
    let w4 = " | actual: mem="@;
    let w5 = " ev="@;
    let w6 = " skill="@;
    lemma_router_parts(w0, w1, a, w2, b, w3, c, w4, m, w5, e, w6, k);
    let p1 = w0 + (w1 + a);
    let p2 = p1 + (w2 + b);
    let p3 = p2 + (w3 + c);
    let p4 = p3 + (w4 + m);
    let t4 = e + (w6 + k);
    let t3 = m + (w5 + t4);
    let t2 = c + (w4 + t3);
    let t1 = b + (w3 + t2);
    parts_stand_in_the_whole(w0, w1 + a + w2, t1);
    parts_stand_in_the_whole(p1, w2 + b + w3, t2);
    parts_stand_in_the_whole(p2, w3 + c + w4, t3);
    parts_stand_in_the_whole(p3, w4 + m + w5, t4);
    parts_stand_in_the_whole(p4, w5 + e + w6, k);
}

proof fn lemma_router_parts(
    w0: Seq<char>,
    w1: Seq<char>,
    a: Seq<char>,
    w2: Seq<char>,
    b: Seq<char>,
    w3: Seq<char>,
    c: Seq<char>,
    w4: Seq<char>,
    m: Seq<char>,
    w5: Seq<char>,
    e: Seq<char>,
    w6: Seq<char>,
    k: Seq<char>,
)
    ensures
        ({
            let l = w0 + (w1 + a) + (w2 + b) + (w3 + c) + (w4 + m) + (w5 + e) + (w6 + k);
            let p1 = w0 + (w1 + a);
            let p2 = p1 + (w2 + b);
            let p3 = p2 + (w3 + c);
            let p4 = p3 + (w4 + m);
            let t4 = e + (w6 + k);
            let t3 = m + (w5 + t4);
            let t2 = c + (w4 + t3);
            let t1 = b + (w3 + t2);
            &&& l == w0 + (w1 + a + w2) + t1
            &&& l == p1 + (w2 + b + w3) + t2
            &&& l == p2 + (w3 + c + w4) + t3
            &&& l == p3 + (w4 + m + w5) + t4
            &&& l == p4 + (w5 + e + w6) + k
            &&& has_suffix(l, w6 + k)
        }),
{
    let p1 = w0 + (w1 + a);
    let p2 = p1 + (w2 + b);
    let p3 = p2 + (w3 + c);
    let p4 = p3 + (w4 + m);
    let t4 = e + (w6 + k);
    let t3 = m + (w5 + t4);
    let t2 = c + (w4 + t3);
    let t1 = b + (w3 + t2);
    let l = p4 + (w5 + e) + (w6 + k);
    lemma_regroup(p4, w5, e, w6, k);
    lemma_regroup(p3, w4, m, w5, t4);
    assert(p4 + (w5 + t4) =~= l);
    lemma_regroup(p2, w3, c, w4, t3);
    assert(p3 + (w4 + t3) =~= p4 + (w5 + t4));
    lemma_regroup(p1, w2, b, w3, t2);
    assert(p2 + (w3 + t2) =~= p3 + (w4 + t3));
    lemma_regroup(w0, w1, a, w2, t1);
    assert(p1 + (w2 + t1) =~= p2 + (w3 + t2));
    let s = w6 + k;
    assert(l.skip(l.len() - s.len()) =~= s);
}

proof fn lemma_regroup(p: Seq<char>, v: Seq<char>, a: Seq<char>, w: Seq<char>, t: Seq<char>)
    ensures
        p + (v + a) + (w + t) == p + (v + a + w) + t,
{
    assert(p + (v + a) + (w + t) =~= p + (v + a + w) + t);
}

/// Samples are shown one behind the other.
pub proof fn samples_are_shown_in_order(samples: Seq<EvalSample>, s: EvalSample)
    ensures
        all_sample_lines(samples.push(s)) == all_sample_lines(samples) + sample_lines_of(s),
        all_sample_lines(Seq::empty()).len() == 0,
{
    assert(samples.push(s).drop_last() =~= samples);
}

/// The head of a report names the session, the database and the number of
/// queries, and says whether there is anything to compare with.
pub proof fn reports_are_headed(
    session_id: Seq<char>,
    db_path: Seq<char>,
    samples: nat,
    labelled: bool,
)
    ensures
        ({
            let h = header_of(session_id, db_path, samples, labelled);
            &&& h.len() == 5
            &&& h[1] == "Session: "@ + session_id
            &&& h[2] == "Memory DB: "@ + db_path
            &&& h[3] == "Queries extracted: "@ + decimal(samples)
            &&& labelled ==> h[4] == "Labels: loaded"@
            &&& !labelled ==> h[4] == "Labels: none (no ground-truth comparison)"@
        }),
{
}

} // verus!
