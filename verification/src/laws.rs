//! What holds of every rewrite, proved from the model.

use vstd::prelude::*;
use crate::ast::{FunctionView, IdentifierReferenceView, NodeView, Span, UnaryExpressionView};
use crate::invariants::{
    can_transform, follows, function_in_range, keeps, lemma_enter_scope, lemma_node_in_range_grows,
    lemma_nodes_prefix, lemma_reparent, lemma_replace_class_name_with_temp_var, lemma_swap_removed,
    lemma_visit_arrow_function_expression, lemma_visit_expression, lemma_visit_nodes,
    lemma_walk_function, lemma_with_static_binding, node_in_range, node_size, nodes_size,
};
use crate::model::{
    inside_directives, inside_scope, inside_this, is_class_name_reference, is_delete_this,
    new_visitor, replace_class_name_with_temp_var, transform_static_initializer,
    visit_arrow_function_expression, visit_expression, visit_function, visit_nodes, walk_expression,
    Names, State,
};
use crate::scope_tree::{is_strict, lemma_without_strict};
use crate::settled::{lemma_visit_expression_settles, node_settled};
use crate::symbol_table::MAX_INDEX;
use crate::visitor::StaticInitializerVisitor;

verus! {

/// The rewrite of an initializer leaves a well formed state with the scopes,
/// the class name and the temporary binding that it found, and touches neither
/// flags where the scope it moves into is strict, nor anything that the state
/// had no room for.
pub proof fn law_rewrite_keeps_state(s: State, current_scope_id: usize, e: NodeView)
    requires
        can_transform(s, current_scope_id, e),
    ensures
        follows(s, transform_static_initializer(s, current_scope_id, e).1, node_size(e)),
        is_strict(s.scopes.flags[current_scope_id as int]) ==> transform_static_initializer(
            s,
            current_scope_id,
            e,
        ).1.scopes.flags == s.scopes.flags,
{
    lemma_visit_expression(new_visitor(s.names.bindings, s.scopes, current_scope_id), s, e);
}

/// After the rewrite of an initializer nothing is left in it to rewrite, as far
/// as the walk looks: no `this` and no `delete this` where `this` is the class's
/// own, no expression there that still says `super`, and no identifier that
/// refers to the class by its name.
pub proof fn law_nothing_is_left_to_rewrite(s: State, current_scope_id: usize, e: NodeView)
    requires
        can_transform(s, current_scope_id, e),
    ensures
        node_settled(
            0,
            new_visitor(s.names.bindings, s.scopes, current_scope_id).walk_deep,
            transform_static_initializer(s, current_scope_id, e).1.names,
            transform_static_initializer(s, current_scope_id, e).0,
        ),
{
    lemma_visit_expression_settles(
        new_visitor(s.names.bindings, s.scopes, current_scope_id),
        s,
        e,
    );
}

/// Two initializers of one class, rewritten one after the other, use one
/// temporary binding: the binding that the first rewrite left, if it needed
/// one, is the binding that the second one uses, and both rewrites together add
/// at most one symbol to the table.
pub proof fn law_temporary_binding_is_shared(
    s: State,
    first_scope_id: usize,
    first: NodeView,
    second_scope_id: usize,
    second: NodeView,
)
    requires
        s.well_formed(),
        first_scope_id < s.scopes.parents.len(),
        second_scope_id < s.scopes.parents.len(),
        node_in_range(first, s.scopes.parents.len(), s.names.reference_symbols.len()),
        node_in_range(second, s.scopes.parents.len(), s.names.reference_symbols.len()),
        s.names.reference_symbols.len() + node_size(first) + node_size(second) <= MAX_INDEX,
    ensures
        ({
            let s1 = transform_static_initializer(s, first_scope_id, first).1;
            let s2 = transform_static_initializer(s1, second_scope_id, second).1;
            &&& s1.names.static_binding() == s.names.static_binding()
            &&& s2.names.static_binding() == s.names.static_binding()
            &&& (s1.names.bindings.temp is Some ==> s2.names.bindings.temp
                == s1.names.bindings.temp)
            &&& (s2.names.bindings.temp matches Some(temp) ==> temp == s.names.static_binding())
            &&& s2.names.resolved_references.len() <= s.names.resolved_references.len() + 1
        }),
{
    law_rewrite_keeps_state(s, first_scope_id, first);
    let s1 = transform_static_initializer(s, first_scope_id, first).1;
    lemma_node_in_range_grows(
        second,
        s.scopes.parents.len(),
        s.names.reference_symbols.len(),
        s1.names.reference_symbols.len(),
    );
    law_rewrite_keeps_state(s1, second_scope_id, second);
}

/// Where the visitor makes scopes sloppy, the scope of an arrow function
/// without a `"use strict"` directive of its own is not strict after the visit.
/// An arrow function with such a directive keeps the flags of its scope, and
/// every other scope its flags too.
pub proof fn law_arrow_function_strictness(
    v: StaticInitializerVisitor,
    s: State,
    func: FunctionView,
)
    requires
        v.admits(s, 1 + nodes_size(func.children)),
        function_in_range(func, s.scopes.parents.len(), s.names.reference_symbols.len()),
    ensures
        v.make_sloppy_mode && !func.has_use_strict_directive ==> !is_strict(
            visit_arrow_function_expression(v, s, func).1.scopes.flags[func.scope_id as int],
        ),
        func.has_use_strict_directive ==> visit_arrow_function_expression(v, s, func).1.scopes.flags
            == s.scopes.flags,
{
    let inner = inside_directives(v, func.has_use_strict_directive);
    let walker = inside_scope(inner);
    let s1 = s.reparented(inner, func.scope_id);
    let s2 = s1.entered(walker, func.scope_id);
    lemma_reparent(inner, s, func.scope_id);
    lemma_enter_scope(walker, s1, func.scope_id);
    lemma_visit_nodes(walker, s2, func.children);
    lemma_without_strict(s.scopes.flags[func.scope_id as int]);
    lemma_without_strict(s2.scopes.flags[func.scope_id as int]);
}

/// An arrow function that the visitor meets outside every scope of the
/// initializer gets the scope that the initializer moves into as the parent of
/// its scope. No other scope changes its parent: the scopes inside the arrow
/// function keep theirs.
pub proof fn law_first_level_scope_is_reparented(
    v: StaticInitializerVisitor,
    s: State,
    func: FunctionView,
)
    requires
        v.admits(s, 1 + nodes_size(func.children)),
        function_in_range(func, s.scopes.parents.len(), s.names.reference_symbols.len()),
        v.scope_depth == 0,
    ensures
        visit_arrow_function_expression(v, s, func).1.scopes.parents == s.scopes.parents.update(
            func.scope_id as int,
            Some(v.current_scope_id),
        ),
{
    let inner = inside_directives(v, func.has_use_strict_directive);
    lemma_reparent(inner, s, func.scope_id);
    lemma_walk_function(inside_scope(inner), s.reparented(inner, func.scope_id), func);
}

/// Inside a scope of the initializer the visit of a tree changes no parent.
pub proof fn law_deeper_scopes_keep_their_parent(
    v: StaticInitializerVisitor,
    s: State,
    e: NodeView,
)
    requires
        v.admits(s, node_size(e)),
        node_in_range(e, s.scopes.parents.len(), s.names.reference_symbols.len()),
        v.scope_depth > 0,
    ensures
        visit_expression(v, s, e).1.scopes.parents == s.scopes.parents,
{
    lemma_visit_expression(v, s, e);
}

/// A reference to the class name that is rewritten leaves the list of the
/// name's symbol, which keeps every other reference that it held, and enters
/// the list of the temporary binding's symbol once, behind the references that
/// the list held. References and symbols agree afterwards as they did before.
pub proof fn law_rewritten_reference_changes_lists(names: Names, ident: IdentifierReferenceView)
    requires
        names.well_formed(),
        names.consistent(),
        ident.reference_id < names.reference_symbols.len(),
        is_class_name_reference(names, ident),
    ensures
        ({
            let after = replace_class_name_with_temp_var(names, ident).1;
            let name = names.bindings.name->0.symbol_id as int;
            let temp = names.static_binding().symbol_id as int;
            &&& after.consistent()
            &&& after.reference_symbols[ident.reference_id as int] == Some(
                names.static_binding().symbol_id,
            )
            &&& !after.resolved_references[name].contains(ident.reference_id)
            &&& forall|r: usize|
                r != ident.reference_id ==> (#[trigger] after.resolved_references[name].contains(r)
                    <==> names.resolved_references[name].contains(r))
            &&& after.resolved_references[name].len() == names.resolved_references[name].len() - 1
            &&& after.resolved_references[temp]
                == names.with_static_binding().resolved_references[temp].push(ident.reference_id)
            &&& !names.with_static_binding().resolved_references[temp].contains(ident.reference_id)
        }),
{
    lemma_replace_class_name_with_temp_var(names, ident);
    lemma_with_static_binding(names);
    let created = names.with_static_binding();
    let name = names.bindings.name->0.symbol_id;
    let temp = names.static_binding().symbol_id;
    let listed = created.resolved_references[name as int];
    assert(listed == names.resolved_references[name as int]);
    assert(listed.contains(ident.reference_id) <==> created.resolves(ident.reference_id, name));
    assert(listed.no_duplicates());
    lemma_swap_removed(listed, ident.reference_id);
    assert(created.resolved_references[temp as int].contains(ident.reference_id)
        <==> created.resolves(ident.reference_id, temp));
}

/// Where references and symbols agree before the rewrite of an initializer,
/// they agree after it, and no reference to the class name has been added.
pub proof fn law_rewrite_keeps_references_consistent(
    s: State,
    current_scope_id: usize,
    e: NodeView,
)
    requires
        can_transform(s, current_scope_id, e),
        s.names.consistent(),
    ensures
        transform_static_initializer(s, current_scope_id, e).1.names.consistent(),
        s.names.bindings.name matches Some(name) ==> forall|r: usize| #[trigger]
            transform_static_initializer(s, current_scope_id, e).1.names.resolves(
                r,
                name.symbol_id,
            ) ==> s.names.resolves(r, name.symbol_id),
{
    law_rewrite_keeps_state(s, current_scope_id, e);
}

/// A visit of nodes leaves as many nodes as it found.
pub proof fn lemma_visit_nodes_len(v: StaticInitializerVisitor, s: State, nodes: Seq<NodeView>)
    ensures
        visit_nodes(v, s, nodes).0.len() == nodes.len(),
    decreases nodes.len(),
{
    if nodes.len() > 0 {
        lemma_visit_nodes_len(v, s, nodes.drop_last());
    }
}

/// The node that a visit of nodes leaves at position `at` is what the visit of
/// the node there made of it, from the state that the nodes before it left.
pub proof fn lemma_visit_nodes_at(
    v: StaticInitializerVisitor,
    s: State,
    nodes: Seq<NodeView>,
    at: int,
)
    requires
        0 <= at < nodes.len(),
    ensures
        visit_nodes(v, s, nodes).0[at] == visit_expression(
            v,
            visit_nodes(v, s, nodes.take(at)).1,
            nodes[at],
        ).0,
    decreases nodes.len(),
{
    let front = nodes.drop_last();
    lemma_visit_nodes_len(v, s, front);
    if at < front.len() {
        lemma_visit_nodes_at(v, s, front, at);
        assert(front.take(at) =~= nodes.take(at));
    } else {
        assert(nodes.take(at) =~= front);
    }
}

/// `this` directly inside an arrow function that is visited where `this` is the
/// class's own becomes a read of the class's temporary binding at the same
/// span. `this` directly inside an ordinary function stays `this`, wherever the
/// function is visited.
pub proof fn law_arrow_function_shares_this_function_does_not(
    v: StaticInitializerVisitor,
    s: State,
    func: FunctionView,
    at: int,
    span: Span,
)
    requires
        v.admits(s, 1 + nodes_size(func.children)),
        function_in_range(func, s.scopes.parents.len(), s.names.reference_symbols.len()),
        0 <= at < func.children.len(),
        func.children[at] == NodeView::ThisExpression(span),
    ensures
        visit_function(v, s, func).0.children[at] == NodeView::ThisExpression(span),
        v.this_depth == 0 ==> (visit_arrow_function_expression(v, s, func).0.children[at] matches NodeView::Identifier(
            read,
        ) && read.span == span && read.name == s.names.static_binding().name),
{
    let inner = inside_directives(v, func.has_use_strict_directive);
    let s1 = s.reparented(inner, func.scope_id);
    lemma_reparent(inner, s, func.scope_id);
    if v.walk_deep {
        let walker = inside_scope(inside_this(inner));
        lemma_visit_nodes_at(walker, s1.entered(walker, func.scope_id), func.children, at);
    }
    if v.this_depth == 0 {
        let walker = inside_scope(inner);
        let s2 = s1.entered(walker, func.scope_id);
        lemma_enter_scope(walker, s1, func.scope_id);
        lemma_visit_nodes_at(walker, s2, func.children, at);
        lemma_nodes_prefix(
            func.children,
            at,
            s.scopes.parents.len(),
            s.names.reference_symbols.len(),
        );
        lemma_visit_nodes(walker, s2, func.children.take(at));
    }
}

/// `delete this` becomes `true` where `this` is the class's own, and is left
/// as it is anywhere else. Nothing else changes.
pub proof fn law_delete_this_becomes_true(
    v: StaticInitializerVisitor,
    s: State,
    unary: UnaryExpressionView,
)
    requires
        is_delete_this(unary),
    ensures
        visit_expression(v, s, NodeView::UnaryExpression(Box::new(unary))) == (
            if v.this_depth == 0 {
                NodeView::BooleanLiteral(unary.span, true)
            } else {
                NodeView::UnaryExpression(Box::new(unary))
            },
            s,
        ),
{
}

/// An initializer that is an arrow function gets the scope that it moves into
/// as the parent of its scope, and no other parent changes. Where that scope is
/// not strict and the arrow function has no `"use strict"` directive of its
/// own, the arrow function's scope is not strict afterwards. Where the arrow
/// function has such a directive, or that scope is strict, no flags change.
pub proof fn law_arrow_function_follows_the_scope_it_moves_into(
    s: State,
    current_scope_id: usize,
    func: FunctionView,
)
    requires
        can_transform(s, current_scope_id, NodeView::ArrowFunctionExpression(func)),
    ensures
        ({
            let after = transform_static_initializer(
                s,
                current_scope_id,
                NodeView::ArrowFunctionExpression(func),
            ).1.scopes;
            let sloppy = !is_strict(s.scopes.flags[current_scope_id as int]);
            &&& after.parents == s.scopes.parents.update(
                func.scope_id as int,
                Some(current_scope_id),
            )
            &&& (sloppy && !func.has_use_strict_directive ==> !is_strict(
                after.flags[func.scope_id as int],
            ))
            &&& (!sloppy || func.has_use_strict_directive ==> after.flags == s.scopes.flags)
        }),
{
    let v = new_visitor(s.names.bindings, s.scopes, current_scope_id);
    let e = NodeView::ArrowFunctionExpression(func);
    assert(visit_expression(v, s, e) == walk_expression(v, s, e));
    assert(walk_expression(v, s, e).1 == visit_arrow_function_expression(v, s, func).1);
    law_arrow_function_strictness(v, s, func);
    law_first_level_scope_is_reparented(v, s, func);
    lemma_visit_arrow_function_expression(v, s, func);
}

} // verus!
