//! What must hold of the state and of a tree for the rewrite to run, and the
//! proof that the rewrite keeps it.

use vstd::prelude::*;
use crate::ast::{
    ClassPropertyView, FunctionView, IdentifierReferenceView, NodeView, ScopedView, Span,
    SuperMemberView, TSConditionalTypeView, TSModuleBlockView,
};
use crate::model::{
    inside_directives, inside_scope, inside_this, is_class_name_reference, is_delete_this, Names,
    replace_class_name_with_temp_var, replace_this_with_temp_var, Scopes, State, transform_if_super,
    visit_arrow_function_expression, visit_class, visit_expression,
    visit_function, visit_nodes, visit_property_definition, visit_static_block,
    visit_ts_conditional_type, visit_ts_module_block, visit_type_scope, walk_expression,
    walk_function, walk_scoped,
};
use crate::scope_tree::{lemma_without_strict, without_strict};
use crate::symbol_table::{first_index, MAX_INDEX, swap_removed};
use crate::visitor::StaticInitializerVisitor;

verus! {

impl Names {
    /// The names are such as earlier passes leave them: both bindings of the
    /// class name symbols of the table and differ, the class name's symbol lists
    /// every reference that resolves to it, and where the temporary binding is
    /// still to come the table can take its symbol.
    pub open spec fn well_formed(self) -> bool {
        &&& self.can_create_binding()
        &&& (self.bindings.name matches Some(name) ==> {
            &&& name.symbol_id < self.resolved_references.len()
            &&& forall|r: usize|
                r < self.reference_symbols.len() && #[trigger] self.reference_symbols[r as int]
                    == Some(name.symbol_id) ==> self.resolved_references[name.symbol_id as int].contains(
                    r,
                )
        })
        &&& (self.bindings.temp matches Some(temp) ==> {
            &&& temp.symbol_id < self.resolved_references.len()
            &&& (self.bindings.name matches Some(name) ==> name.symbol_id != temp.symbol_id)
        })
    }

    /// Whether the reference `r` resolves to the symbol `s`.
    pub open spec fn resolves(self, r: usize, s: usize) -> bool {
        r < self.reference_symbols.len() && self.reference_symbols[r as int] == Some(s)
    }

    /// The references and the symbols agree: a reference resolves to a symbol of
    /// the table, a symbol lists exactly the references that resolve to it, and
    /// lists each of them once.
    pub open spec fn consistent(self) -> bool {
        &&& forall|r: int|
            0 <= r < self.reference_symbols.len() ==> (#[trigger] self.reference_symbols[r] matches Some(
                s,
            ) ==> s < self.resolved_references.len())
        &&& forall|s: usize, r: usize|
            s < self.resolved_references.len() ==> (#[trigger] self.resolved_references[s as int].contains(
                r,
            ) <==> self.resolves(r, s))
        &&& forall|s: usize|
            s < self.resolved_references.len() ==> (
            #[trigger] self.resolved_references[s as int]).no_duplicates()
    }

    /// `after` is what the rewrite makes of the names `self` while it makes at
    /// most `budget` references: well formed again, with the same class name
    /// and the same temporary binding, whether that binding exists yet or not;
    /// with one more symbol where it created that binding, and none else; with
    /// no reference that has come to resolve to the class name; and with
    /// references and symbols that agree, where they did before.
    pub open spec fn leads_to(self, after: Names, budget: nat) -> bool {
        &&& after.well_formed()
        &&& self.reference_symbols.len() <= after.reference_symbols.len()
        &&& after.reference_symbols.len() <= self.reference_symbols.len() + budget
        &&& after.bindings.name == self.bindings.name
        &&& after.bindings.temp_name == self.bindings.temp_name
        &&& after.bindings.outer_hoist_scope_id == self.bindings.outer_hoist_scope_id
        &&& (self.bindings.temp is Some ==> after.bindings.temp is Some)
        &&& after.static_binding() == self.static_binding()
        &&& after.resolved_references.len() == self.resolved_references.len() + (if self.bindings.temp is None
            && after.bindings.temp is Some {
            1nat
        } else {
            0nat
        })
        &&& (self.bindings.name matches Some(name) ==> forall|r: usize| #[trigger]
            after.resolves(r, name.symbol_id) ==> self.resolves(r, name.symbol_id))
        &&& (self.consistent() ==> after.consistent())
    }
}

impl Scopes {
    /// Each scope has its flags, and every parent is a scope.
    pub open spec fn well_formed(self) -> bool {
        &&& self.parents.len() == self.flags.len()
        &&& forall|i: int|
            0 <= i < self.parents.len() ==> (#[trigger] self.parents[i] matches Some(p) ==> p
                < self.parents.len())
    }

    /// `after` is what the rewrite makes of the scopes `self`: the same number
    /// of scopes, well formed again, each with the flags that it had, but for
    /// the strict mode bit where that was cleared.
    pub open spec fn leads_to(self, after: Scopes) -> bool {
        &&& after.well_formed()
        &&& after.parents.len() == self.parents.len()
        &&& after.flags.len() == self.flags.len()
        &&& forall|i: int|
            0 <= i < self.flags.len() ==> #[trigger] after.flags[i] == self.flags[i]
                || after.flags[i] == without_strict(self.flags[i])
    }
}

impl State {
    pub open spec fn well_formed(self) -> bool {
        self.names.well_formed() && self.scopes.well_formed()
    }
}

/// Every scope that the nodes name is one of `scopes` scopes, and every
/// reference one of `references` references.
pub open spec fn nodes_in_range(nodes: Seq<NodeView>, scopes: nat, references: nat) -> bool
    decreases nodes,
{
    forall|i: int| 0 <= i < nodes.len() ==> node_in_range(#[trigger] nodes[i], scopes, references)
}

/// Every scope that the tree names is one of `scopes` scopes, and every
/// reference one of `references` references.
pub open spec fn node_in_range(e: NodeView, scopes: nat, references: nat) -> bool
    decreases e,
{
    match e {
        NodeView::ThisExpression(_) => true,
        NodeView::BooleanLiteral(_, _) => true,
        NodeView::Identifier(ident) => ident.reference_id < references,
        NodeView::UnaryExpression(unary) => node_in_range(unary.argument, scopes, references),
        NodeView::SuperMember(member) => nodes_in_range(member.operands, scopes, references),
        NodeView::Function(func) | NodeView::ArrowFunctionExpression(func) => {
            &&& func.scope_id < scopes
            &&& nodes_in_range(func.children, scopes, references)
        },
        NodeView::TSModuleBlock(block) => nodes_in_range(block.body, scopes, references),
        NodeView::PropertyDefinition(prop) | NodeView::AccessorProperty(prop) => {
            &&& nodes_in_range(prop.decorators, scopes, references)
            &&& node_in_range(prop.key, scopes, references)
            &&& (prop.value matches Some(value) ==> node_in_range(value, scopes, references))
        },
        NodeView::TSConditionalType(conditional) => {
            &&& conditional.scope_id < scopes
            &&& node_in_range(conditional.check_type, scopes, references)
            &&& node_in_range(conditional.extends_type, scopes, references)
            &&& node_in_range(conditional.true_type, scopes, references)
            &&& node_in_range(conditional.false_type, scopes, references)
        },
        NodeView::Class(scoped)
        | NodeView::StaticBlock(scoped)
        | NodeView::TSMethodSignature(scoped)
        | NodeView::TSConstructSignatureDeclaration(scoped)
        | NodeView::TSMappedType(scoped)
        | NodeView::Block(scoped) => {
            &&& scoped.scope_id < scopes
            &&& nodes_in_range(scoped.children, scopes, references)
        },
        NodeView::Other(children) => nodes_in_range(children, scopes, references),
    }
}

pub open spec fn scoped_in_range(scoped: ScopedView, scopes: nat, references: nat) -> bool {
    node_in_range(NodeView::Block(scoped), scopes, references)
}

pub open spec fn function_in_range(func: FunctionView, scopes: nat, references: nat) -> bool {
    node_in_range(NodeView::Function(func), scopes, references)
}

pub open spec fn property_in_range(prop: ClassPropertyView, scopes: nat, references: nat) -> bool {
    node_in_range(NodeView::PropertyDefinition(Box::new(prop)), scopes, references)
}

pub open spec fn conditional_in_range(
    conditional: TSConditionalTypeView,
    scopes: nat,
    references: nat,
) -> bool {
    node_in_range(NodeView::TSConditionalType(Box::new(conditional)), scopes, references)
}

pub open spec fn class_property_size(prop: ClassPropertyView) -> nat {
    (node_size(NodeView::PropertyDefinition(Box::new(prop))) - 1) as nat
}

pub open spec fn conditional_type_size(conditional: TSConditionalTypeView) -> nat {
    (node_size(NodeView::TSConditionalType(Box::new(conditional))) - 1) as nat
}

/// The number of nodes in the sequence and below it.
pub open spec fn nodes_size(nodes: Seq<NodeView>) -> nat
    decreases nodes,
{
    if nodes.len() == 0 {
        0
    } else {
        nodes_size(nodes.drop_last()) + node_size(nodes.last())
    }
}

/// The number of nodes in the tree.
pub open spec fn node_size(e: NodeView) -> nat
    decreases e,
{
    1 + match e {
        NodeView::ThisExpression(_) => 0,
        NodeView::BooleanLiteral(_, _) => 0,
        NodeView::Identifier(_) => 0,
        NodeView::UnaryExpression(unary) => node_size(unary.argument),
        NodeView::SuperMember(member) => nodes_size(member.operands),
        NodeView::Function(func) | NodeView::ArrowFunctionExpression(func) => nodes_size(
            func.children,
        ),
        NodeView::TSModuleBlock(block) => nodes_size(block.body),
        NodeView::PropertyDefinition(prop) | NodeView::AccessorProperty(prop) => nodes_size(
            prop.decorators,
        ) + node_size(prop.key) + match prop.value {
            Some(value) => node_size(value),
            None => 0,
        },
        NodeView::TSConditionalType(conditional) => node_size(conditional.check_type) + node_size(
            conditional.extends_type,
        ) + node_size(conditional.true_type) + node_size(conditional.false_type),
        NodeView::Class(scoped)
        | NodeView::StaticBlock(scoped)
        | NodeView::TSMethodSignature(scoped)
        | NodeView::TSConstructSignatureDeclaration(scoped)
        | NodeView::TSMappedType(scoped)
        | NodeView::Block(scoped) => nodes_size(scoped.children),
        NodeView::Other(children) => nodes_size(children),
    }
}

/// The initializer `e` can be rewritten for its move into the scope
/// `current_scope_id`: the state is well formed, that scope is one of its
/// scopes, the tree names scopes and references of the state only, and the table
/// of references has room for a reference per node.
pub open spec fn can_transform(s: State, current_scope_id: usize, e: NodeView) -> bool {
    &&& s.well_formed()
    &&& current_scope_id < s.scopes.parents.len()
    &&& node_in_range(e, s.scopes.parents.len(), s.names.reference_symbols.len())
    &&& s.names.reference_symbols.len() + node_size(e) <= MAX_INDEX
}

/// `after` is a state that the rewrite reaches from `before` while it makes at
/// most `budget` references.
pub open spec fn follows(before: State, after: State, budget: nat) -> bool {
    before.names.leads_to(after.names, budget) && before.scopes.leads_to(after.scopes)
}

pub proof fn lemma_first_index(ids: Seq<usize>, id: usize)
    ensures
        0 <= first_index(ids, id) <= ids.len(),
        ids.contains(id) ==> first_index(ids, id) < ids.len() && ids[first_index(ids, id)] == id,
        forall|i: int| 0 <= i < first_index(ids, id) ==> ids[i] != id,
    decreases ids.len(),
{
    if ids.len() > 0 && ids[0] != id {
        let rest = ids.drop_first();
        lemma_first_index(rest, id);
        if ids.contains(id) {
            let i = choose|i: int| 0 <= i < ids.len() && ids[i] == id;
            assert(rest[i - 1] == id);
        }
        assert forall|i: int| 0 <= i < first_index(ids, id) implies ids[i] != id by {
            if i > 0 {
                assert(rest[i - 1] != id);
            }
        }
    } else if ids.len() > 0 {
        assert(ids[0] == id);
    }
}

/// Taking one entry of `id` out of a list keeps every other reference in it.
pub proof fn lemma_swap_removed_keeps(ids: Seq<usize>, id: usize, other: usize)
    requires
        ids.contains(id),
        ids.contains(other),
        other != id,
    ensures
        swap_removed(ids, first_index(ids, id)).contains(other),
{
    lemma_first_index(ids, id);
    let at = first_index(ids, id);
    let i = choose|i: int| 0 <= i < ids.len() && ids[i] == other;
    let out = swap_removed(ids, at);
    if i == ids.len() - 1 {
        assert(out[at] == other);
    } else {
        assert(out[i] == other);
    }
}

/// Taking the first entry of `id` out of a list without duplicates leaves the
/// other references, each once, and not `id`.
pub proof fn lemma_swap_removed(ids: Seq<usize>, id: usize)
    requires
        ids.no_duplicates(),
        ids.contains(id),
    ensures
        swap_removed(ids, first_index(ids, id)).no_duplicates(),
        swap_removed(ids, first_index(ids, id)).len() == ids.len() - 1,
        forall|x: usize| #[trigger]
            swap_removed(ids, first_index(ids, id)).contains(x) <==> ids.contains(x) && x != id,
{
    lemma_first_index(ids, id);
    let at = first_index(ids, id);
    let out = swap_removed(ids, at);
    let last = ids.len() - 1;
    assert forall|x: usize| #[trigger] out.contains(x) <==> ids.contains(x) && x != id by {
        if out.contains(x) {
            let j = choose|j: int| 0 <= j < out.len() && out[j] == x;
            if j == at {
                assert(ids[last] == x);
            } else {
                assert(ids[j] == x);
            }
        }
        if ids.contains(x) && x != id {
            let k = choose|k: int| 0 <= k < ids.len() && ids[k] == x;
            if k == last {
                assert(out[at] == x);
            } else {
                assert(out[k] == x);
            }
        }
    }
}

pub proof fn lemma_with_static_binding(names: Names)
    requires
        names.well_formed(),
    ensures
        names.leads_to(names.with_static_binding(), 0),
        names.with_static_binding().bindings.temp == Some(names.static_binding()),
{
    let after = names.with_static_binding();
    if names.bindings.temp is None && names.consistent() {
        let fresh = names.resolved_references.len() as usize;
        assert forall|s: usize, r: usize| s < after.resolved_references.len() implies (
        #[trigger] after.resolved_references[s as int].contains(r) <==> after.resolves(r, s)) by {
            if s == fresh {
                assert(!after.resolved_references[s as int].contains(r));
                if after.resolves(r, s) {
                    assert(names.reference_symbols[r as int] is Some);
                }
            } else {
                assert(names.resolved_references[s as int].contains(r) <==> names.resolves(r, s));
            }
        }
        assert forall|s: usize| s < after.resolved_references.len() implies (
        #[trigger] after.resolved_references[s as int]).no_duplicates() by {
            if s != fresh {
                assert(names.resolved_references[s as int].no_duplicates());
            }
        }
        assert forall|r: int| 0 <= r < after.reference_symbols.len() implies (
        #[trigger] after.reference_symbols[r] matches Some(s) ==> s
            < after.resolved_references.len()) by {
            assert(names.reference_symbols[r] matches Some(s) ==> s
                < names.resolved_references.len());
        }
    }
}

pub proof fn lemma_with_read_reference(names: Names)
    requires
        names.well_formed(),
        names.bindings.temp is Some,
        names.reference_symbols.len() < MAX_INDEX,
    ensures
        names.leads_to(names.with_read_reference(names.static_binding().symbol_id), 1),
{
    let temp = names.static_binding().symbol_id;
    let after = names.with_read_reference(temp);
    let fresh = names.reference_symbols.len() as usize;
    if let Some(name) = names.bindings.name {
        assert forall|r: usize|
            r < after.reference_symbols.len() && #[trigger] after.reference_symbols[r as int]
                == Some(name.symbol_id) implies after.resolved_references[name.symbol_id as int].contains(
            r,
        ) by {
            assert(names.reference_symbols[r as int] == Some(name.symbol_id));
        }
        assert forall|r: usize| #[trigger]
            after.resolves(r, name.symbol_id) implies names.resolves(r, name.symbol_id) by {}
    }
    if names.consistent() {
        assert forall|s: usize, r: usize| s < after.resolved_references.len() implies (
        #[trigger] after.resolved_references[s as int].contains(r) <==> after.resolves(r, s)) by {
            let listed = names.resolved_references[s as int];
            assert(listed.contains(r) <==> names.resolves(r, s));
            if s == temp {
                assert(after.resolved_references[s as int] == listed.push(fresh));
                if r == fresh {
                    assert(listed.push(fresh)[listed.len() as int] == fresh);
                } else if listed.contains(r) {
                    let k = choose|k: int| 0 <= k < listed.len() && listed[k] == r;
                    assert(listed.push(fresh)[k] == r);
                } else if listed.push(fresh).contains(r) {
                    let k = choose|k: int|
                        0 <= k < listed.push(fresh).len() && listed.push(fresh)[k] == r;
                    assert(listed[k] == r);
                }
            }
        }
        assert forall|s: usize| s < after.resolved_references.len() implies (
        #[trigger] after.resolved_references[s as int]).no_duplicates() by {
            let listed = names.resolved_references[s as int];
            assert(listed.no_duplicates());
            if s == temp {
                assert(listed.contains(fresh) <==> names.resolves(fresh, s));
                assert(forall|i: int|
                    0 <= i < listed.len() ==> listed.contains(#[trigger] listed[i]));
                assert forall|i: int, j: int|
                    0 <= i < listed.len() + 1 && 0 <= j < listed.len() + 1 && i
                        != j implies listed.push(fresh)[i] != listed.push(fresh)[j] by {
                    if i < listed.len() && j < listed.len() {
                    } else if i < listed.len() {
                        assert(listed[i] != fresh);
                    } else {
                        assert(listed[j] != fresh);
                    }
                }
            }
        }
        assert forall|r: int| 0 <= r < after.reference_symbols.len() implies (
        #[trigger] after.reference_symbols[r] matches Some(s) ==> s
            < after.resolved_references.len()) by {
            if r < names.reference_symbols.len() {
                assert(names.reference_symbols[r] matches Some(s) ==> s
                    < names.resolved_references.len());
            }
        }
    }
}

pub proof fn lemma_with_reference_moved(names: Names, ident: IdentifierReferenceView)
    requires
        names.well_formed(),
        names.bindings.temp is Some,
        ident.reference_id < names.reference_symbols.len(),
        is_class_name_reference(names, ident),
    ensures
        names.leads_to(
            names.with_reference_moved(
                ident.reference_id,
                names.bindings.name->0.symbol_id,
                names.static_binding().symbol_id,
            ),
            0,
        ),
{
    let name = names.bindings.name->0.symbol_id;
    let temp = names.static_binding().symbol_id;
    let moved = ident.reference_id;
    let after = names.with_reference_moved(moved, name, temp);
    let listed = names.resolved_references[name as int];
    let kept = swap_removed(listed, first_index(listed, moved));
    let held = names.resolved_references[temp as int];
    assert(names.reference_symbols[moved as int] == Some(name));
    assert(listed.contains(moved));
    assert forall|r: usize|
        r < after.reference_symbols.len() && #[trigger] after.reference_symbols[r as int] == Some(
            name,
        ) implies after.resolved_references[name as int].contains(r) by {
        assert(r != moved);
        assert(names.reference_symbols[r as int] == Some(name));
        lemma_swap_removed_keeps(listed, moved, r);
    }
    assert forall|r: usize| #[trigger] after.resolves(r, name) implies names.resolves(
        r,
        name,
    ) by {}
    if names.consistent() {
        assert(listed.no_duplicates());
        assert(held.no_duplicates());
        lemma_swap_removed(listed, moved);
        assert(held.contains(moved) <==> names.resolves(moved, temp));
        assert(forall|i: int| 0 <= i < held.len() ==> held.contains(#[trigger] held[i]));
        assert forall|s: usize, r: usize| s < after.resolved_references.len() implies (
        #[trigger] after.resolved_references[s as int].contains(r) <==> after.resolves(r, s)) by {
            assert(names.resolved_references[s as int].contains(r) <==> names.resolves(r, s));
            if s == temp {
                assert(after.resolved_references[s as int] == held.push(moved));
                if r == moved {
                    assert(held.push(moved)[held.len() as int] == moved);
                } else if held.contains(r) {
                    let k = choose|k: int| 0 <= k < held.len() && held[k] == r;
                    assert(held.push(moved)[k] == r);
                } else if held.push(moved).contains(r) {
                    let k = choose|k: int|
                        0 <= k < held.push(moved).len() && held.push(moved)[k] == r;
                    assert(held[k] == r);
                }
            } else if s == name {
                assert(after.resolved_references[s as int] == kept);
                assert(kept.contains(r) <==> listed.contains(r) && r != moved);
            }
        }
        assert forall|s: usize| s < after.resolved_references.len() implies (
        #[trigger] after.resolved_references[s as int]).no_duplicates() by {
            assert(names.resolved_references[s as int].no_duplicates());
            if s == temp {
                assert forall|i: int, j: int|
                    0 <= i < held.len() + 1 && 0 <= j < held.len() + 1 && i != j implies held.push(
                    moved,
                )[i] != held.push(moved)[j] by {
                    if i < held.len() && j < held.len() {
                    } else if i < held.len() {
                        assert(held[i] != moved);
                    } else {
                        assert(held[j] != moved);
                    }
                }
            }
        }
        assert forall|r: int| 0 <= r < after.reference_symbols.len() implies (
        #[trigger] after.reference_symbols[r] matches Some(s) ==> s
            < after.resolved_references.len()) by {
            assert(names.reference_symbols[r] matches Some(s) ==> s
                < names.resolved_references.len());
        }
    }
}

pub proof fn lemma_reparent(v: StaticInitializerVisitor, s: State, scope_id: usize)
    requires
        s.well_formed(),
        v.current_scope_id < s.scopes.parents.len(),
        scope_id < s.scopes.parents.len(),
    ensures
        follows(s, s.reparented(v, scope_id), 0),
        keeps(v, s, s.reparented(v, scope_id)),
{
}

pub proof fn lemma_enter_scope(v: StaticInitializerVisitor, s: State, scope_id: usize)
    requires
        s.well_formed(),
        scope_id < s.scopes.parents.len(),
    ensures
        follows(s, s.entered(v, scope_id), 0),
        keeps(v, s, s.entered(v, scope_id)),
{
}

/// What the visitor keeps the rewrite from touching: the flags of every scope
/// where it does not make scopes sloppy, and the parent of every scope where it
/// is inside a scope of the initializer.
pub open spec fn keeps(v: StaticInitializerVisitor, before: State, after: State) -> bool {
    &&& (!v.make_sloppy_mode ==> after.scopes.flags == before.scopes.flags)
    &&& (v.scope_depth > 0 ==> after.scopes.parents == before.scopes.parents)
}

/// What follows a state that follows another follows that other.
pub proof fn lemma_follows_on(first: State, second: State, third: State, b1: nat, b2: nat)
    requires
        follows(first, second, b1),
        follows(second, third, b2),
    ensures
        follows(first, third, b1 + b2),
{
    assert forall|i: int| 0 <= i < first.scopes.flags.len() implies #[trigger] third.scopes.flags[i]
        == first.scopes.flags[i] || third.scopes.flags[i] == without_strict(
        first.scopes.flags[i],
    ) by {
        lemma_without_strict(first.scopes.flags[i]);
        assert(second.scopes.flags[i] == first.scopes.flags[i] || second.scopes.flags[i]
            == without_strict(first.scopes.flags[i]));
    }
    if let Some(name) = first.names.bindings.name {
        assert forall|r: usize| #[trigger]
            third.names.resolves(r, name.symbol_id) implies first.names.resolves(
            r,
            name.symbol_id,
        ) by {
            assert(second.names.resolves(r, name.symbol_id));
        }
    }
}

pub proof fn lemma_nodes_in_range_grows(
    nodes: Seq<NodeView>,
    scopes: nat,
    references: nat,
    more: nat,
)
    requires
        nodes_in_range(nodes, scopes, references),
        references <= more,
    ensures
        nodes_in_range(nodes, scopes, more),
    decreases nodes,
{
    assert forall|i: int| 0 <= i < nodes.len() implies node_in_range(
        #[trigger] nodes[i],
        scopes,
        more,
    ) by {
        lemma_node_in_range_grows(nodes[i], scopes, references, more);
    }
}

/// A tree stays in range when the table of references grows.
pub proof fn lemma_node_in_range_grows(e: NodeView, scopes: nat, references: nat, more: nat)
    requires
        node_in_range(e, scopes, references),
        references <= more,
    ensures
        node_in_range(e, scopes, more),
    decreases e,
{
    match e {
        NodeView::ThisExpression(_) => {},
        NodeView::BooleanLiteral(_, _) => {},
        NodeView::Identifier(_) => {},
        NodeView::UnaryExpression(unary) => {
            lemma_node_in_range_grows(unary.argument, scopes, references, more);
        },
        NodeView::SuperMember(member) => {
            lemma_nodes_in_range_grows(member.operands, scopes, references, more);
        },
        NodeView::Function(func) | NodeView::ArrowFunctionExpression(func) => {
            lemma_nodes_in_range_grows(func.children, scopes, references, more);
        },
        NodeView::TSModuleBlock(block) => {
            lemma_nodes_in_range_grows(block.body, scopes, references, more);
        },
        NodeView::PropertyDefinition(prop) | NodeView::AccessorProperty(prop) => {
            lemma_nodes_in_range_grows(prop.decorators, scopes, references, more);
            lemma_node_in_range_grows(prop.key, scopes, references, more);
            if let Some(value) = prop.value {
                lemma_node_in_range_grows(value, scopes, references, more);
            }
        },
        NodeView::TSConditionalType(conditional) => {
            lemma_node_in_range_grows(conditional.check_type, scopes, references, more);
            lemma_node_in_range_grows(conditional.extends_type, scopes, references, more);
            lemma_node_in_range_grows(conditional.true_type, scopes, references, more);
            lemma_node_in_range_grows(conditional.false_type, scopes, references, more);
        },
        NodeView::Class(scoped)
        | NodeView::StaticBlock(scoped)
        | NodeView::TSMethodSignature(scoped)
        | NodeView::TSConstructSignatureDeclaration(scoped)
        | NodeView::TSMappedType(scoped)
        | NodeView::Block(scoped) => {
            lemma_nodes_in_range_grows(scoped.children, scopes, references, more);
        },
        NodeView::Other(children) => {
            lemma_nodes_in_range_grows(children, scopes, references, more);
        },
    }
}

pub proof fn lemma_replace_this_with_temp_var(
    v: StaticInitializerVisitor,
    names: Names,
    e: NodeView,
    span: Span,
)
    requires
        names.well_formed(),
        names.reference_symbols.len() < MAX_INDEX,
    ensures
        names.leads_to(replace_this_with_temp_var(v, names, e, span).1, 1),
{
    if v.this_depth == 0 {
        lemma_with_static_binding(names);
        lemma_with_read_reference(names.with_static_binding());
    }
}

pub proof fn lemma_replace_class_name_with_temp_var(names: Names, ident: IdentifierReferenceView)
    requires
        names.well_formed(),
        ident.reference_id < names.reference_symbols.len(),
    ensures
        names.leads_to(replace_class_name_with_temp_var(names, ident).1, 0),
{
    if is_class_name_reference(names, ident) {
        lemma_with_static_binding(names);
        lemma_with_reference_moved(names.with_static_binding(), ident);
    }
}

pub proof fn lemma_transform_if_super(
    v: StaticInitializerVisitor,
    names: Names,
    member: SuperMemberView,
)
    requires
        names.well_formed(),
    ensures
        names.leads_to(transform_if_super(v, names, member).1, 0),
        transform_if_super(v, names, member).0.operands == member.operands,
{
    lemma_with_static_binding(names);
}

pub proof fn lemma_visit_nodes(v: StaticInitializerVisitor, s: State, nodes: Seq<NodeView>)
    requires
        v.admits(s, nodes_size(nodes)),
        nodes_in_range(nodes, s.scopes.parents.len(), s.names.reference_symbols.len()),
    ensures
        follows(s, visit_nodes(v, s, nodes).1, nodes_size(nodes)),
        keeps(v, s, visit_nodes(v, s, nodes).1),
        visit_nodes(v, s, nodes).0.len() == nodes.len(),
    decreases nodes, 0nat,
{
    if nodes.len() > 0 {
        let front = nodes.drop_last();
        assert forall|i: int| 0 <= i < front.len() implies node_in_range(
            #[trigger] front[i],
            s.scopes.parents.len(),
            s.names.reference_symbols.len(),
        ) by {
            assert(front[i] == nodes[i]);
        }
        lemma_visit_nodes(v, s, front);
        let s1 = visit_nodes(v, s, front).1;
        lemma_node_in_range_grows(
            nodes.last(),
            s.scopes.parents.len(),
            s.names.reference_symbols.len(),
            s1.names.reference_symbols.len(),
        );
        lemma_visit_expression(v, s1, nodes.last());
        lemma_follows_on(
            s,
            s1,
            visit_expression(v, s1, nodes.last()).1,
            nodes_size(front),
            node_size(nodes.last()),
        );
    }
}

pub proof fn lemma_walk_scoped(v: StaticInitializerVisitor, s: State, scoped: ScopedView)
    requires
        v.admits(s, nodes_size(scoped.children)),
        scoped_in_range(scoped, s.scopes.parents.len(), s.names.reference_symbols.len()),
    ensures
        follows(s, walk_scoped(v, s, scoped).1, nodes_size(scoped.children)),
        keeps(v, s, walk_scoped(v, s, scoped).1),
    decreases scoped, 0nat,
{
    lemma_enter_scope(v, s, scoped.scope_id);
    lemma_visit_nodes(v, s.entered(v, scoped.scope_id), scoped.children);
    lemma_follows_on(
        s,
        s.entered(v, scoped.scope_id),
        walk_scoped(v, s, scoped).1,
        0,
        nodes_size(scoped.children),
    );
}

pub proof fn lemma_walk_function(v: StaticInitializerVisitor, s: State, func: FunctionView)
    requires
        v.admits(s, nodes_size(func.children)),
        function_in_range(func, s.scopes.parents.len(), s.names.reference_symbols.len()),
    ensures
        follows(s, walk_function(v, s, func).1, nodes_size(func.children)),
        keeps(v, s, walk_function(v, s, func).1),
    decreases func, 0nat,
{
    lemma_enter_scope(v, s, func.scope_id);
    lemma_visit_nodes(v, s.entered(v, func.scope_id), func.children);
    lemma_follows_on(
        s,
        s.entered(v, func.scope_id),
        walk_function(v, s, func).1,
        0,
        nodes_size(func.children),
    );
}

pub proof fn lemma_visit_function(v: StaticInitializerVisitor, s: State, func: FunctionView)
    requires
        v.admits(s, 1 + nodes_size(func.children)),
        function_in_range(func, s.scopes.parents.len(), s.names.reference_symbols.len()),
    ensures
        follows(s, visit_function(v, s, func).1, nodes_size(func.children)),
        keeps(v, s, visit_function(v, s, func).1),
    decreases func, 1nat,
{
    let inner = inside_directives(v, func.has_use_strict_directive);
    lemma_reparent(inner, s, func.scope_id);
    if v.walk_deep {
        lemma_walk_function(
            inside_scope(inside_this(inner)),
            s.reparented(inner, func.scope_id),
            func,
        );
    }
}

pub proof fn lemma_visit_arrow_function_expression(
    v: StaticInitializerVisitor,
    s: State,
    func: FunctionView,
)
    requires
        v.admits(s, 1 + nodes_size(func.children)),
        function_in_range(func, s.scopes.parents.len(), s.names.reference_symbols.len()),
    ensures
        follows(s, visit_arrow_function_expression(v, s, func).1, nodes_size(func.children)),
        keeps(v, s, visit_arrow_function_expression(v, s, func).1),
    decreases func, 1nat,
{
    let inner = inside_directives(v, func.has_use_strict_directive);
    lemma_reparent(inner, s, func.scope_id);
    lemma_walk_function(
        inside_scope(inner),
        s.reparented(inner, func.scope_id),
        func,
    );
}

pub proof fn lemma_visit_class(v: StaticInitializerVisitor, s: State, class: ScopedView)
    requires
        v.admits(s, 1 + nodes_size(class.children)),
        scoped_in_range(class, s.scopes.parents.len(), s.names.reference_symbols.len()),
    ensures
        follows(s, visit_class(v, s, class).1, nodes_size(class.children)),
        keeps(v, s, visit_class(v, s, class).1),
    decreases class, 1nat,
{
    let inner = inside_directives(v, true);
    lemma_reparent(inner, s, class.scope_id);
    lemma_walk_scoped(
        inside_scope(inner),
        s.reparented(inner, class.scope_id),
        class,
    );
}

pub proof fn lemma_visit_static_block(v: StaticInitializerVisitor, s: State, block: ScopedView)
    requires
        v.admits(s, 1 + nodes_size(block.children)),
        scoped_in_range(block, s.scopes.parents.len(), s.names.reference_symbols.len()),
    ensures
        follows(s, visit_static_block(v, s, block).1, nodes_size(block.children)),
        keeps(v, s, visit_static_block(v, s, block).1),
    decreases block, 1nat,
{
    lemma_walk_scoped(inside_this(v), s, block);
}

pub proof fn lemma_visit_ts_module_block(
    v: StaticInitializerVisitor,
    s: State,
    block: TSModuleBlockView,
)
    requires
        v.admits(s, 1 + nodes_size(block.body)),
        nodes_in_range(block.body, s.scopes.parents.len(), s.names.reference_symbols.len()),
    ensures
        follows(s, visit_ts_module_block(v, s, block).1, nodes_size(block.body)),
        keeps(v, s, visit_ts_module_block(v, s, block).1),
    decreases block, 1nat,
{
    if v.walk_deep {
        lemma_visit_nodes(
            inside_this(inside_directives(v, block.has_use_strict_directive)),
            s,
            block.body,
        );
    }
}

pub proof fn lemma_visit_property_definition(
    v: StaticInitializerVisitor,
    s: State,
    prop: ClassPropertyView,
)
    requires
        v.admits(s, 1 + class_property_size(prop)),
        property_in_range(prop, s.scopes.parents.len(), s.names.reference_symbols.len()),
    ensures
        follows(s, visit_property_definition(v, s, prop).1, class_property_size(prop)),
        keeps(v, s, visit_property_definition(v, s, prop).1),
    decreases prop, 1nat,
{
    let scopes = s.scopes.parents.len();
    let references = s.names.reference_symbols.len();
    lemma_visit_nodes(v, s, prop.decorators);
    let s1 = visit_nodes(v, s, prop.decorators).1;
    let s2 = if prop.computed {
        lemma_node_in_range_grows(prop.key, scopes, references, s1.names.reference_symbols.len());
        lemma_visit_expression(v, s1, prop.key);
        visit_expression(v, s1, prop.key).1
    } else {
        s1
    };
    let b1 = nodes_size(prop.decorators);
    let b2 = b1 + node_size(prop.key);
    if prop.computed {
        lemma_follows_on(s, s1, s2, b1, node_size(prop.key));
    }
    assert(follows(s, s2, b2));
    if let Some(value) = prop.value {
        lemma_node_in_range_grows(value, scopes, references, s2.names.reference_symbols.len());
        lemma_visit_expression(inside_this(v), s2, value);
        lemma_follows_on(
            s,
            s2,
            visit_expression(inside_this(v), s2, value).1,
            b2,
            node_size(value),
        );
    }
}

pub proof fn lemma_visit_ts_conditional_type(
    v: StaticInitializerVisitor,
    s: State,
    conditional: TSConditionalTypeView,
)
    requires
        v.admits(s, 1 + conditional_type_size(conditional)),
        conditional_in_range(conditional, s.scopes.parents.len(), s.names.reference_symbols.len()),
    ensures
        follows(
            s,
            visit_ts_conditional_type(v, s, conditional).1,
            conditional_type_size(conditional),
        ),
        keeps(v, s, visit_ts_conditional_type(v, s, conditional).1),
    decreases conditional, 1nat,
{
    let scopes = s.scopes.parents.len();
    let references = s.names.reference_symbols.len();
    lemma_reparent(v, s, conditional.scope_id);
    let s1 = s.reparented(v, conditional.scope_id);
    lemma_visit_expression(v, s1, conditional.check_type);
    let s2 = visit_expression(v, s1, conditional.check_type).1;
    lemma_enter_scope(v, s2, conditional.scope_id);
    let s3 = s2.entered(v, conditional.scope_id);
    lemma_node_in_range_grows(
        conditional.extends_type,
        scopes,
        references,
        s3.names.reference_symbols.len(),
    );
    lemma_visit_expression(inside_scope(v), s3, conditional.extends_type);
    let s4 = visit_expression(inside_scope(v), s3, conditional.extends_type).1;
    lemma_node_in_range_grows(
        conditional.true_type,
        scopes,
        references,
        s4.names.reference_symbols.len(),
    );
    lemma_visit_expression(inside_scope(v), s4, conditional.true_type);
    let s5 = visit_expression(inside_scope(v), s4, conditional.true_type).1;
    lemma_node_in_range_grows(
        conditional.false_type,
        scopes,
        references,
        s5.names.reference_symbols.len(),
    );
    lemma_visit_expression(v, s5, conditional.false_type);
    let s6 = visit_expression(v, s5, conditional.false_type).1;
    let b2 = node_size(conditional.check_type);
    let b4 = b2 + node_size(conditional.extends_type);
    let b5 = b4 + node_size(conditional.true_type);
    lemma_follows_on(s, s1, s2, 0, b2);
    lemma_follows_on(s, s2, s3, b2, 0);
    lemma_follows_on(s, s3, s4, b2, node_size(conditional.extends_type));
    lemma_follows_on(s, s4, s5, b4, node_size(conditional.true_type));
    lemma_follows_on(s, s5, s6, b5, node_size(conditional.false_type));
}

pub proof fn lemma_visit_type_scope(v: StaticInitializerVisitor, s: State, scoped: ScopedView)
    requires
        v.admits(s, 1 + nodes_size(scoped.children)),
        scoped_in_range(scoped, s.scopes.parents.len(), s.names.reference_symbols.len()),
    ensures
        follows(s, visit_type_scope(v, s, scoped).1, nodes_size(scoped.children)),
        keeps(v, s, visit_type_scope(v, s, scoped).1),
    decreases scoped, 1nat,
{
    lemma_reparent(v, s, scoped.scope_id);
    lemma_walk_scoped(
        inside_scope(v),
        s.reparented(v, scoped.scope_id),
        scoped,
    );
}

pub proof fn lemma_walk_expression(v: StaticInitializerVisitor, s: State, e: NodeView)
    requires
        v.admits(s, node_size(e)),
        node_in_range(e, s.scopes.parents.len(), s.names.reference_symbols.len()),
    ensures
        follows(s, walk_expression(v, s, e).1, node_size(e)),
        keeps(v, s, walk_expression(v, s, e).1),
    decreases e, 0nat,
{
    match e {
        NodeView::ThisExpression(_) => {},
        NodeView::BooleanLiteral(_, _) => {},
        NodeView::Identifier(ident) => {
            lemma_replace_class_name_with_temp_var(s.names, ident);
        },
        NodeView::UnaryExpression(unary) => {
            lemma_visit_expression(v, s, unary.argument);
        },
        NodeView::SuperMember(member) => {
            lemma_visit_nodes(v, s, member.operands);
        },
        NodeView::Function(func) => {
            lemma_visit_function(v, s, func);
        },
        NodeView::ArrowFunctionExpression(func) => {
            lemma_visit_arrow_function_expression(v, s, func);
        },
        NodeView::Class(class) => {
            lemma_visit_class(v, s, class);
        },
        NodeView::StaticBlock(block) => {
            lemma_visit_static_block(v, s, block);
        },
        NodeView::TSModuleBlock(block) => {
            lemma_visit_ts_module_block(v, s, block);
        },
        NodeView::PropertyDefinition(prop) => {
            lemma_visit_property_definition(v, s, *prop);
        },
        NodeView::AccessorProperty(prop) => {
            lemma_visit_property_definition(v, s, *prop);
        },
        NodeView::TSConditionalType(conditional) => {
            lemma_visit_ts_conditional_type(v, s, *conditional);
        },
        NodeView::TSMethodSignature(signature) => {
            lemma_visit_type_scope(v, s, signature);
        },
        NodeView::TSConstructSignatureDeclaration(signature) => {
            lemma_visit_type_scope(v, s, signature);
        },
        NodeView::TSMappedType(mapped) => {
            lemma_visit_type_scope(v, s, mapped);
        },
        NodeView::Block(block) => {
            lemma_walk_scoped(v, s, block);
        },
        NodeView::Other(children) => {
            lemma_visit_nodes(v, s, children);
        },
    }
}

/// The rewrite of a tree leaves a state that follows the one it started from.
pub proof fn lemma_visit_expression(v: StaticInitializerVisitor, s: State, e: NodeView)
    requires
        v.admits(s, node_size(e)),
        node_in_range(e, s.scopes.parents.len(), s.names.reference_symbols.len()),
    ensures
        follows(s, visit_expression(v, s, e).1, node_size(e)),
        keeps(v, s, visit_expression(v, s, e).1),
    decreases e, 1nat,
{
    match e {
        NodeView::ThisExpression(span) => {
            lemma_replace_this_with_temp_var(v, s.names, e, span);
        },
        NodeView::UnaryExpression(unary) if is_delete_this(*unary) => {},
        NodeView::SuperMember(member) => {
            lemma_transform_if_super(v, s.names, member);
            lemma_visit_nodes(
                v,
                s.with_names(transform_if_super(v, s.names, member).1),
                member.operands,
            );
        },
        _ => {
            lemma_walk_expression(v, s, e);
        },
    }
}

/// The nodes before position `at`, and the node at it, are part of the whole in
/// size.
pub proof fn lemma_nodes_size_prefix(nodes: Seq<NodeView>, at: int)
    requires
        0 <= at < nodes.len(),
    ensures
        nodes_size(nodes.take(at)) + node_size(nodes[at]) <= nodes_size(nodes),
        nodes_size(nodes.take(at + 1)) == nodes_size(nodes.take(at)) + node_size(nodes[at]),
    decreases nodes.len(),
{
    assert(nodes.take(at + 1).drop_last() =~= nodes.take(at));
    assert(nodes.take(at + 1).last() == nodes[at]);
    if at + 1 < nodes.len() {
        let front = nodes.drop_last();
        lemma_nodes_size_prefix(front, at);
        assert(front.take(at) =~= nodes.take(at));
    } else {
        assert(nodes.take(at) =~= nodes.drop_last());
    }
}

/// The nodes before position `at`, and the node at it, are part of the whole:
/// in size and in range.
pub proof fn lemma_nodes_prefix(nodes: Seq<NodeView>, at: int, scopes: nat, references: nat)
    requires
        0 <= at < nodes.len(),
        nodes_in_range(nodes, scopes, references),
    ensures
        nodes_size(nodes.take(at)) + node_size(nodes[at]) <= nodes_size(nodes),
        nodes_size(nodes.take(at + 1)) == nodes_size(nodes.take(at)) + node_size(nodes[at]),
        nodes_in_range(nodes.take(at), scopes, references),
        node_in_range(nodes[at], scopes, references),
{
    lemma_nodes_size_prefix(nodes, at);
    assert forall|i: int| 0 <= i < at implies node_in_range(
        #[trigger] nodes.take(at)[i],
        scopes,
        references,
    ) by {
        assert(nodes.take(at)[i] == nodes[i]);
    }
}

} // verus!
