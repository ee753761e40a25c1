//! The scope tree of `oxc_semantic`, as far as the rewrite reads and changes it.
//!
//! Scopes are named by their index in the tree; the tree grows one scope at a
//! time and refuses to grow beyond what a 32-bit id can name, so an index below
//! its length is an id. What the tree holds is opaque here: two uninterpreted
//! functions stand for its per-scope tables, and each executable function below
//! says what the tree's own method does to them.

use vstd::prelude::*;
use oxc_index::Idx;
use oxc_semantic::ScopeTree;
use oxc_syntax::scope::{ScopeFlags, ScopeId};

verus! {

/// The scope tree of `oxc_semantic`, taken as it is: nothing is known of what is
/// inside it but what the functions of this file say.
#[verifier::external_type_specification]
#[verifier::external_body]
pub struct ExScopeTree(ScopeTree);

/// The parent of each scope, by the scope's index.
pub uninterp spec fn scope_parents(scopes: ScopeTree) -> Seq<Option<usize>>;

/// The flag bits of each scope, by the scope's index.
pub uninterp spec fn scope_flags(scopes: ScopeTree) -> Seq<u16>;

/// The bit of a scope's flags that marks strict mode.
pub const STRICT_MODE: u16 = 1;

/// Whether flag bits mark a strict mode scope.
pub open spec fn is_strict(bits: u16) -> bool {
    bits & STRICT_MODE != 0
}

/// Flag bits with the strict mode bit taken out.
pub open spec fn without_strict(bits: u16) -> u16 {
    bits & !STRICT_MODE
}

/// Clearing the strict mode bit leaves a scope that is not strict, and does
/// nothing to one that was not.
pub proof fn lemma_without_strict(bits: u16)
    ensures
        !is_strict(without_strict(bits)),
        !is_strict(bits) ==> without_strict(bits) == bits,
        without_strict(without_strict(bits)) == without_strict(bits),
{
    assert((bits & !1u16) & 1u16 == 0) by (bit_vector);
    assert(bits & 1u16 == 0 ==> bits & !1u16 == bits) by (bit_vector);
    assert((bits & !1u16) & !1u16 == bits & !1u16) by (bit_vector);
}

/// `ScopeTree::len`: the number of scopes. Both per-scope tables have that length.
#[verifier::external_body]
pub(crate) fn scope_count(scopes: &ScopeTree) -> (n: usize)
    ensures
        n == scope_parents(*scopes).len(),
        n == scope_flags(*scopes).len(),
{
    scopes.len()
}

/// `ScopeTree::get_parent_id`: the scope's parent, if it has one.
#[verifier::external_body]
pub(crate) fn parent_id(scopes: &ScopeTree, scope_id: usize) -> (parent: Option<usize>)
    requires
        scope_id < scope_parents(*scopes).len(),
    ensures
        parent == scope_parents(*scopes)[scope_id as int],
{
    scopes.get_parent_id(ScopeId::from_usize(scope_id)).map(ScopeId::index)
}

/// `ScopeTree::get_flags` and `ScopeFlags::is_strict_mode`: whether the scope's
/// flags hold the strict mode bit.
#[verifier::external_body]
pub(crate) fn scope_is_strict(scopes: &ScopeTree, scope_id: usize) -> (strict: bool)
    requires
        scope_id < scope_flags(*scopes).len(),
    ensures
        strict == is_strict(scope_flags(*scopes)[scope_id as int]),
{
    scopes.get_flags(ScopeId::from_usize(scope_id)).is_strict_mode()
}

/// `ScopeTree::get_flags_mut` with `ScopeFlags::StrictMode` subtracted from what it
/// hands out: the scope's strict mode bit is cleared, its other bits and every
/// other scope stay as they were.
#[verifier::external_body]
pub(crate) fn remove_strict_mode(scopes: &mut ScopeTree, scope_id: usize)
    requires
        scope_id < scope_flags(*old(scopes)).len(),
    ensures
        scope_flags(*final(scopes)) == scope_flags(*old(scopes)).update(
            scope_id as int,
            without_strict(scope_flags(*old(scopes))[scope_id as int]),
        ),
        scope_parents(*final(scopes)) == scope_parents(*old(scopes)),
{
    *scopes.get_flags_mut(ScopeId::from_usize(scope_id)) -= ScopeFlags::StrictMode;
}

/// `ScopeTree::change_parent_id`: the scope's parent becomes `new_parent_id`; no
/// other parent and no flags change. The method also moves the scope between the
/// child lists of the old and the new parent where the tree keeps such lists, so
/// both must be scopes of the tree.
#[verifier::external_body]
pub(crate) fn change_parent_id(scopes: &mut ScopeTree, scope_id: usize, new_parent_id: usize)
    requires
        scope_id < scope_parents(*old(scopes)).len(),
        new_parent_id < scope_parents(*old(scopes)).len(),
        scope_parents(*old(scopes))[scope_id as int] matches Some(p) ==> p < scope_parents(
            *old(scopes),
        ).len(),
    ensures
        scope_parents(*final(scopes)) == scope_parents(*old(scopes)).update(
            scope_id as int,
            Some(new_parent_id),
        ),
        scope_flags(*final(scopes)) == scope_flags(*old(scopes)),
{
    scopes.change_parent_id(
        ScopeId::from_usize(scope_id),
        Some(ScopeId::from_usize(new_parent_id)),
    );
}

} // verus!
