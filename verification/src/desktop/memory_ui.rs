//! What is shown of the memory database.

use vstd::prelude::*;
use vstd::string::*;

use crate::paths::{join_path, joined_path};
use crate::text::{lowercase_of, opt_view, owned, to_lowercase};

verus! {

/// A unit of memory.
#[derive(Debug)]
pub struct MemoryRow {
    pub id: String,
    pub status: String,
    pub kind: String,
    pub scope: String,
    pub content: String,
    pub updated_at: String,
    pub created_at: String,
}

/// Two units of memory that contradict each other.
#[derive(Debug)]
pub struct ConflictRow {
    pub conflict_id: String,
    pub left_memory_id: String,
    pub right_memory_id: String,
    pub relation: String,
    pub status: String,
    pub reason: String,
}

/// The memory database.
#[derive(Debug)]
pub struct MemoryOverview {
    pub units: Vec<MemoryRow>,
    pub conflicts: Vec<ConflictRow>,
}

/// What came of a pass over the memory database.
#[derive(Debug, Clone, Copy, PartialEq, Eq, Structural)]
pub struct MaintenanceReport {
    pub units: usize,
    pub conflicts_pending: usize,
    pub governance_ok: bool,
    pub consolidation_ok: bool,
}

/// Whether a row shows a unit as the panel does: the names of its status, kind
/// and scope in lower case.
pub open spec fn shows_unit(row: MemoryRow, unit: MemoryRow) -> bool {
    &&& row.id@ == unit.id@
    &&& row.status@ == lowercase_of(unit.status@)
    &&& row.kind@ == lowercase_of(unit.kind@)
    &&& row.scope@ == lowercase_of(unit.scope@)
    &&& row.content@ == unit.content@
    &&& row.updated_at@ == unit.updated_at@
    &&& row.created_at@ == unit.created_at@
}

/// The row for a unit, whose status, kind and scope are given by name.
pub fn memory_row(unit: MemoryRow) -> (r: MemoryRow)
    ensures
        shows_unit(r, unit),
{
    MemoryRow {
        id: unit.id,
        status: to_lowercase(unit.status.as_str()),
        kind: to_lowercase(unit.kind.as_str()),
        scope: to_lowercase(unit.scope.as_str()),
        content: unit.content,
        updated_at: unit.updated_at,
        created_at: unit.created_at,
    }
}

/// Whether a row shows a conflict as the panel does.
pub open spec fn shows_conflict(row: ConflictRow, c: ConflictRow) -> bool {
    &&& row.conflict_id@ == c.conflict_id@
    &&& row.left_memory_id@ == c.left_memory_id@
    &&& row.right_memory_id@ == c.right_memory_id@
    &&& row.relation@ == lowercase_of(c.relation@)
    &&& row.status@ == lowercase_of(c.status@)
    &&& row.reason@ == c.reason@
}

/// The row for a conflict, whose relation and status are given by name.
pub fn conflict_row(c: ConflictRow) -> (r: ConflictRow)
    ensures
        shows_conflict(r, c),
{
    ConflictRow {
        conflict_id: c.conflict_id,
        left_memory_id: c.left_memory_id,
        right_memory_id: c.right_memory_id,
        relation: to_lowercase(c.relation.as_str()),
        status: to_lowercase(c.status.as_str()),
        reason: c.reason,
    }
}

/// The overview of the units and conflicts of a database, in their order.
pub fn memory_overview(units: Vec<MemoryRow>, conflicts: Vec<ConflictRow>) -> (r: MemoryOverview)
    ensures
        r.units@.len() == units@.len(),
        forall|i: int| 0 <= i < units@.len() ==> shows_unit(#[trigger] r.units@[i], units@[i]),
        r.conflicts@.len() == conflicts@.len(),
        forall|i: int|
            0 <= i < conflicts@.len() ==> shows_conflict(
                #[trigger] r.conflicts@[i],
                conflicts@[i],
            ),
{
    let mut us: Vec<MemoryRow> = Vec::new();
    for u in it: units
        invariant
            it.seq() == units@,
            us@.len() == it.index(),
            forall|i: int| 0 <= i < us@.len() ==> shows_unit(#[trigger] us@[i], units@[i]),
    {
        us.push(memory_row(u));
    }
    let mut cs: Vec<ConflictRow> = Vec::new();
    for c in it: conflicts
        invariant
            it.seq() == conflicts@,
            cs@.len() == it.index(),
            forall|i: int| 0 <= i < cs@.len() ==> shows_conflict(#[trigger] cs@[i], conflicts@[i]),
    {
        cs.push(conflict_row(c));
    }
    MemoryOverview { units: us, conflicts: cs }
}

/// The report on a pass: the number of units and of open conflicts after it, as
/// far as they can be read, the number of errors of the first part, and whether
/// the second part went well.
pub fn maintenance_report(
    units: Option<usize>,
    pending: Option<usize>,
    governance_errors: usize,
    consolidated: bool,
) -> (r: MaintenanceReport)
    ensures
        r == (MaintenanceReport {
            units: match units {
                Some(n) => n,
                None => 0,
            },
            conflicts_pending: match pending {
                Some(n) => n,
                None => 0,
            },
            governance_ok: governance_errors == 0,
            consolidation_ok: consolidated,
        }),
{
    let units: usize = match units {
        Some(n) => n,
        None => 0,
    };
    let conflicts_pending: usize = match pending {
        Some(n) => n,
        None => 0,
    };
    MaintenanceReport {
        units,
        conflicts_pending,
        governance_ok: governance_errors == 0,
        consolidation_ok: consolidated,
    }
}

/// The path of a database of the agent: that of the environment, or else the
/// file under the home directory. The error is the message for the user.
pub fn db_path(env: Option<String>, home: Option<&str>, file: &str) -> (r: Result<String, String>)
    ensures
        match opt_view(env) {
            Some(p) => r matches Ok(x) && x@ == p,
            None => match home {
                Some(h) => r matches Ok(x) && x@ == joined_path(
                    joined_path(h@, ".grodex"@),
                    file@,
                ),
                None => r matches Err(m) && m@ == "无法解析 HOME"@,
            },
        },
{
    match env {
        Some(p) => Ok(p),
        None => match home {
            Some(h) => Ok(join_path(join_path(h, ".grodex").as_str(), file)),
            None => Err(owned("无法解析 HOME")),
        },
    }
}

/// The message for the user where the memory database is not there.
pub fn memory_missing(path: &str) -> (r: String)
    ensures
        r@ == "记忆库不存在："@ + path@ + "（先跑过至少一次会话才会生成）"@,
{
    let mut m = owned("记忆库不存在：");
    m.append(path);
    m.append("（先跑过至少一次会话才会生成）");
    m
}

/// A row shows a memory as it is, with the words for its state in small letters.
pub proof fn rows_show_memories(row: MemoryRow, unit: MemoryRow)
    requires
        shows_unit(row, unit),
    ensures
        row.id@ == unit.id@,
        row.content@ == unit.content@,
        row.updated_at@ == unit.updated_at@,
        row.created_at@ == unit.created_at@,
        row.status@ == lowercase_of(unit.status@),
        row.kind@ == lowercase_of(unit.kind@),
        row.scope@ == lowercase_of(unit.scope@),
{
}

/// A row shows a conflict as it is, with the words for its state in small
/// letters.
pub proof fn rows_show_conflicts(row: ConflictRow, c: ConflictRow)
    requires
        shows_conflict(row, c),
    ensures
        row.conflict_id@ == c.conflict_id@,
        row.left_memory_id@ == c.left_memory_id@,
        row.right_memory_id@ == c.right_memory_id@,
        row.reason@ == c.reason@,
        row.relation@ == lowercase_of(c.relation@),
        row.status@ == lowercase_of(c.status@),
{
}

} // verus!
