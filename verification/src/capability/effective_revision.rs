//! The arguments that a tool call runs with after a user narrowed them.

use vstd::prelude::*;

use crate::clock::utc_now_micros;
use crate::domain::id::ToolCallId;
use crate::hash::{fingerprint_bytes, fingerprint_of};
use crate::json::{
    is_reordered, json_text, json_text_of, reordered_values_sort_the_same, sorted_json, JsonValue,
    JsonView,
};

verus! {

/// How a user narrowed a tool call.
#[derive(Debug, Clone, Copy, PartialEq, Eq, Structural)]
pub enum TransformKind {
    /// The authorization was narrowed; the arguments are the same.
    ScopeNarrowed,
    /// The arguments were narrowed.
    ArgsConstrained,
}

/// A tool call as it was approved and run.
#[derive(Debug)]
pub struct EffectiveToolCallRevision {
    pub tool_call_id: ToolCallId,
    /// The number of the revision within the tool call.
    pub revision: u32,
    /// What the model asked for.
    pub requested_args: JsonValue,
    /// What was approved.
    pub effective_args: JsonValue,
    pub transform_kind: TransformKind,
    /// Who approved it.
    pub approved_by: String,
    /// A hash of `effective_args`.
    pub effective_args_hash: String,
    /// When, in microseconds since 1970.
    pub created_at: i64,
}

/// The hash of arguments: the SHA-256 digest of their JSON text, with the keys
/// of every object in order.
pub open spec fn args_hash_of(args: JsonView) -> Seq<char> {
    fingerprint_of(vstd::utf8::encode_utf8(json_text_of(sorted_json(args))))
}

impl EffectiveToolCallRevision {
    /// A revision, made now.
    pub fn new(
        tool_call_id: ToolCallId,
        revision: u32,
        requested_args: JsonValue,
        effective_args: JsonValue,
        transform_kind: TransformKind,
        approved_by: String,
    ) -> (r: Self)
        ensures
            r.tool_call_id == tool_call_id,
            r.revision == revision,
            r.requested_args == requested_args,
            r.effective_args == effective_args,
            r.transform_kind == transform_kind,
            r.approved_by == approved_by,
            r.effective_args_hash@ == args_hash_of(effective_args@),
    {
        let effective_args_hash = Self::compute_hash(&effective_args);
        let created_at: i64 = utc_now_micros();
        EffectiveToolCallRevision {
            tool_call_id,
            revision,
            requested_args,
            effective_args,
            transform_kind,
            approved_by,
            effective_args_hash,
            created_at,
        }
    }

    /// The SHA-256 digest of the JSON text of arguments, with the keys of every
    /// object in order.
    pub fn compute_hash(args: &JsonValue) -> (r: String)
        ensures
            r@ == args_hash_of(args@),
            r@.len() == 64,
    {
        let canonical = json_text(&args.sorted());
        fingerprint_bytes(canonical.as_str().as_bytes())
    }

    /// Whether only the authorization was narrowed.
    pub fn is_scope_narrowed(&self) -> (r: bool)
        ensures
            r == (self.transform_kind == TransformKind::ScopeNarrowed),
    {
        match self.transform_kind {
            TransformKind::ScopeNarrowed => true,
            _ => false,
        }
    }

    /// Whether the arguments were narrowed.
    pub fn is_args_constrained(&self) -> (r: bool)
        ensures
            r == (self.transform_kind == TransformKind::ArgsConstrained),
    {
        match self.transform_kind {
            TransformKind::ArgsConstrained => true,
            _ => false,
        }
    }
}

/// The hash does not depend on the order of the entries of any object in the
/// arguments.
pub proof fn hash_ignores_the_order_of_keys(a: JsonView, b: JsonView)
    requires
        is_reordered(a, b),
    ensures
        args_hash_of(a) == args_hash_of(b),
{
    reordered_values_sort_the_same(a, b);
}

} // verus!
