//! What it means that nothing is left to rewrite in a tree, and the proof that
//! the rewrite leaves every tree so.

use vstd::prelude::*;
use crate::ast::{ClassPropertyView, FunctionView, NodeView, ScopedView, TSConditionalTypeView};
use crate::invariants::{
    class_property_size, conditional_in_range, conditional_type_size, function_in_range,
    lemma_enter_scope, lemma_follows_on, lemma_node_in_range_grows, lemma_reparent,
    lemma_replace_class_name_with_temp_var, lemma_replace_this_with_temp_var,
    lemma_transform_if_super, lemma_visit_expression, lemma_visit_nodes, node_in_range, node_size,
    nodes_in_range, nodes_size, property_in_range, scoped_in_range,
};
use crate::model::{
    inside_directives, inside_scope, inside_this, is_class_name_reference, is_delete_this, Names,
    State, transform_if_super, visit_expression, visit_nodes, visit_property_definition,
    visit_ts_conditional_type, walk_expression, walk_function, walk_scoped,
};
use crate::visitor::StaticInitializerVisitor;

verus! {

/// Each of the nodes is settled.
pub open spec fn nodes_settled(
    this_depth: nat,
    walk_deep: bool,
    names: Names,
    nodes: Seq<NodeView>,
) -> bool
    decreases nodes,
{
    forall|i: int|
        0 <= i < nodes.len() ==> node_settled(this_depth, walk_deep, names, #[trigger] nodes[i])
}

/// Nothing is left to rewrite in the tree, as far as a walk looks that starts
/// with `this_depth` constructs around the tree that have a `this` of their own:
/// no `this` and no `delete this` where `this` is the class's own, no expression
/// there that still says `super`, and no identifier that refers to the class by
/// its name. The walk looks into functions and namespace bodies only where it
/// goes deep, and never at the key of a property that is not computed.
pub open spec fn node_settled(this_depth: nat, walk_deep: bool, names: Names, e: NodeView) -> bool
    decreases e,
{
    match e {
        NodeView::ThisExpression(_) => this_depth > 0,
        NodeView::BooleanLiteral(_, _) => true,
        NodeView::Identifier(ident) => {
            &&& ident.reference_id < names.reference_symbols.len()
            &&& !is_class_name_reference(names, ident)
        },
        NodeView::UnaryExpression(unary) => if is_delete_this(*unary) {
            this_depth > 0
        } else {
            node_settled(this_depth, walk_deep, names, unary.argument)
        },
        NodeView::SuperMember(member) => {
            &&& (this_depth == 0 ==> member.class is Some)
            &&& nodes_settled(this_depth, walk_deep, names, member.operands)
        },
        NodeView::Function(func) => walk_deep ==> nodes_settled(
            this_depth + 1,
            walk_deep,
            names,
            func.children,
        ),
        NodeView::ArrowFunctionExpression(func) => nodes_settled(
            this_depth,
            walk_deep,
            names,
            func.children,
        ),
        NodeView::StaticBlock(block) => nodes_settled(
            this_depth + 1,
            walk_deep,
            names,
            block.children,
        ),
        NodeView::TSModuleBlock(block) => walk_deep ==> nodes_settled(
            this_depth + 1,
            walk_deep,
            names,
            block.body,
        ),
        NodeView::PropertyDefinition(prop) | NodeView::AccessorProperty(prop) => {
            &&& nodes_settled(this_depth, walk_deep, names, prop.decorators)
            &&& (prop.computed ==> node_settled(this_depth, walk_deep, names, prop.key))
            &&& (prop.value matches Some(value) ==> node_settled(
                this_depth + 1,
                walk_deep,
                names,
                value,
            ))
        },
        NodeView::TSConditionalType(conditional) => {
            &&& node_settled(this_depth, walk_deep, names, conditional.check_type)
            &&& node_settled(this_depth, walk_deep, names, conditional.extends_type)
            &&& node_settled(this_depth, walk_deep, names, conditional.true_type)
            &&& node_settled(this_depth, walk_deep, names, conditional.false_type)
        },
        NodeView::Class(scoped)
        | NodeView::TSMethodSignature(scoped)
        | NodeView::TSConstructSignatureDeclaration(scoped)
        | NodeView::TSMappedType(scoped)
        | NodeView::Block(scoped) => nodes_settled(this_depth, walk_deep, names, scoped.children),
        NodeView::Other(children) => nodes_settled(this_depth, walk_deep, names, children),
    }
}

pub proof fn lemma_nodes_stay_settled(
    this_depth: nat,
    walk_deep: bool,
    names: Names,
    later: Names,
    budget: nat,
    nodes: Seq<NodeView>,
)
    requires
        nodes_settled(this_depth, walk_deep, names, nodes),
        names.leads_to(later, budget),
    ensures
        nodes_settled(this_depth, walk_deep, later, nodes),
    decreases nodes,
{
    assert forall|i: int| 0 <= i < nodes.len() implies node_settled(
        this_depth,
        walk_deep,
        later,
        #[trigger] nodes[i],
    ) by {
        lemma_node_stays_settled(this_depth, walk_deep, names, later, budget, nodes[i]);
    }
}

/// A settled tree stays settled while the rewrite goes on elsewhere.
pub proof fn lemma_node_stays_settled(
    this_depth: nat,
    walk_deep: bool,
    names: Names,
    later: Names,
    budget: nat,
    e: NodeView,
)
    requires
        node_settled(this_depth, walk_deep, names, e),
        names.leads_to(later, budget),
    ensures
        node_settled(this_depth, walk_deep, later, e),
    decreases e,
{
    match e {
        NodeView::ThisExpression(_) => {},
        NodeView::BooleanLiteral(_, _) => {},
        NodeView::Identifier(ident) => {
            if let Some(name) = names.bindings.name {
                if later.resolves(ident.reference_id, name.symbol_id) {
                    assert(names.resolves(ident.reference_id, name.symbol_id));
                }
            }
        },
        NodeView::UnaryExpression(unary) => {
            if !is_delete_this(*unary) {
                lemma_node_stays_settled(this_depth, walk_deep, names, later, budget, unary.argument);
            }
        },
        NodeView::SuperMember(member) => {
            lemma_nodes_stay_settled(this_depth, walk_deep, names, later, budget, member.operands);
        },
        NodeView::Function(func) => {
            if walk_deep {
                lemma_nodes_stay_settled(
                    this_depth + 1,
                    walk_deep,
                    names,
                    later,
                    budget,
                    func.children,
                );
            }
        },
        NodeView::ArrowFunctionExpression(func) => {
            lemma_nodes_stay_settled(this_depth, walk_deep, names, later, budget, func.children);
        },
        NodeView::StaticBlock(block) => {
            lemma_nodes_stay_settled(
                this_depth + 1,
                walk_deep,
                names,
                later,
                budget,
                block.children,
            );
        },
        NodeView::TSModuleBlock(block) => {
            if walk_deep {
                lemma_nodes_stay_settled(this_depth + 1, walk_deep, names, later, budget, block.body);
            }
        },
        NodeView::PropertyDefinition(prop) | NodeView::AccessorProperty(prop) => {
            lemma_nodes_stay_settled(this_depth, walk_deep, names, later, budget, prop.decorators);
            if prop.computed {
                lemma_node_stays_settled(this_depth, walk_deep, names, later, budget, prop.key);
            }
            if let Some(value) = prop.value {
                lemma_node_stays_settled(this_depth + 1, walk_deep, names, later, budget, value);
            }
        },
        NodeView::TSConditionalType(conditional) => {
            lemma_node_stays_settled(
                this_depth,
                walk_deep,
                names,
                later,
                budget,
                conditional.check_type,
            );
            lemma_node_stays_settled(
                this_depth,
                walk_deep,
                names,
                later,
                budget,
                conditional.extends_type,
            );
            lemma_node_stays_settled(
                this_depth,
                walk_deep,
                names,
                later,
                budget,
                conditional.true_type,
            );
            lemma_node_stays_settled(
                this_depth,
                walk_deep,
                names,
                later,
                budget,
                conditional.false_type,
            );
        },
        NodeView::Class(scoped)
        | NodeView::TSMethodSignature(scoped)
        | NodeView::TSConstructSignatureDeclaration(scoped)
        | NodeView::TSMappedType(scoped)
        | NodeView::Block(scoped) => {
            lemma_nodes_stay_settled(this_depth, walk_deep, names, later, budget, scoped.children);
        },
        NodeView::Other(children) => {
            lemma_nodes_stay_settled(this_depth, walk_deep, names, later, budget, children);
        },
    }
}

pub proof fn lemma_visit_nodes_settles(v: StaticInitializerVisitor, s: State, nodes: Seq<NodeView>)
    requires
        v.admits(s, nodes_size(nodes)),
        nodes_in_range(nodes, s.scopes.parents.len(), s.names.reference_symbols.len()),
    ensures
        nodes_settled(
            v.this_depth as nat,
            v.walk_deep,
            visit_nodes(v, s, nodes).1.names,
            visit_nodes(v, s, nodes).0,
        ),
    decreases nodes, 0nat,
{
    if nodes.len() > 0 {
        let front = nodes.drop_last();
        assert forall|i: int| 0 <= i < front.len() implies node_in_range(
            #[trigger] front[i],
            s.scopes.parents.len(),
            s.names.reference_symbols.len(),
        ) by {
            assert(front[i] == nodes[i]);
        }
        lemma_visit_nodes(v, s, front);
        lemma_visit_nodes_settles(v, s, front);
        let (done, s1) = visit_nodes(v, s, front);
        lemma_node_in_range_grows(
            nodes.last(),
            s.scopes.parents.len(),
            s.names.reference_symbols.len(),
            s1.names.reference_symbols.len(),
        );
        lemma_visit_expression(v, s1, nodes.last());
        lemma_visit_expression_settles(v, s1, nodes.last());
        let (last, s2) = visit_expression(v, s1, nodes.last());
        lemma_nodes_stay_settled(
            v.this_depth as nat,
            v.walk_deep,
            s1.names,
            s2.names,
            node_size(nodes.last()),
            done,
        );
        assert forall|i: int| 0 <= i < done.push(last).len() implies node_settled(
            v.this_depth as nat,
            v.walk_deep,
            s2.names,
            #[trigger] done.push(last)[i],
        ) by {
            if i < done.len() {
                assert(done.push(last)[i] == done[i]);
            }
        }
    }
}

pub proof fn lemma_walk_scoped_settles(v: StaticInitializerVisitor, s: State, scoped: ScopedView)
    requires
        v.admits(s, nodes_size(scoped.children)),
        scoped_in_range(scoped, s.scopes.parents.len(), s.names.reference_symbols.len()),
    ensures
        nodes_settled(
            v.this_depth as nat,
            v.walk_deep,
            walk_scoped(v, s, scoped).1.names,
            walk_scoped(v, s, scoped).0.children,
        ),
    decreases scoped, 0nat,
{
    lemma_enter_scope(v, s, scoped.scope_id);
    lemma_visit_nodes_settles(v, s.entered(v, scoped.scope_id), scoped.children);
}

pub proof fn lemma_walk_function_settles(v: StaticInitializerVisitor, s: State, func: FunctionView)
    requires
        v.admits(s, nodes_size(func.children)),
        function_in_range(func, s.scopes.parents.len(), s.names.reference_symbols.len()),
    ensures
        nodes_settled(
            v.this_depth as nat,
            v.walk_deep,
            walk_function(v, s, func).1.names,
            walk_function(v, s, func).0.children,
        ),
    decreases func, 0nat,
{
    lemma_enter_scope(v, s, func.scope_id);
    lemma_visit_nodes_settles(v, s.entered(v, func.scope_id), func.children);
}

pub proof fn lemma_visit_property_definition_settles(
    v: StaticInitializerVisitor,
    s: State,
    prop: ClassPropertyView,
)
    requires
        v.admits(s, 1 + class_property_size(prop)),
        property_in_range(prop, s.scopes.parents.len(), s.names.reference_symbols.len()),
    ensures
        node_settled(
            v.this_depth as nat,
            v.walk_deep,
            visit_property_definition(v, s, prop).1.names,
            NodeView::PropertyDefinition(Box::new(visit_property_definition(v, s, prop).0)),
        ),
    decreases prop, 1nat,
{
    let depth = v.this_depth as nat;
    let scopes = s.scopes.parents.len();
    let references = s.names.reference_symbols.len();
    lemma_visit_nodes(v, s, prop.decorators);
    lemma_visit_nodes_settles(v, s, prop.decorators);
    let (decorators, s1) = visit_nodes(v, s, prop.decorators);
    let (key, s2) = if prop.computed {
        lemma_node_in_range_grows(prop.key, scopes, references, s1.names.reference_symbols.len());
        lemma_visit_expression(v, s1, prop.key);
        lemma_visit_expression_settles(v, s1, prop.key);
        visit_expression(v, s1, prop.key)
    } else {
        (prop.key, s1)
    };
    let b1 = nodes_size(prop.decorators);
    let b2 = b1 + node_size(prop.key);
    if prop.computed {
        lemma_follows_on(s, s1, s2, b1, node_size(prop.key));
        lemma_nodes_stay_settled(
            depth,
            v.walk_deep,
            s1.names,
            s2.names,
            node_size(prop.key),
            decorators,
        );
    }
    if let Some(value) = prop.value {
        lemma_node_in_range_grows(value, scopes, references, s2.names.reference_symbols.len());
        lemma_visit_expression(inside_this(v), s2, value);
        lemma_visit_expression_settles(inside_this(v), s2, value);
        let s3 = visit_expression(inside_this(v), s2, value).1;
        lemma_nodes_stay_settled(
            depth,
            v.walk_deep,
            s2.names,
            s3.names,
            node_size(value),
            decorators,
        );
        if prop.computed {
            lemma_node_stays_settled(depth, v.walk_deep, s2.names, s3.names, node_size(value), key);
        }
    }
}

pub proof fn lemma_visit_ts_conditional_type_settles(
    v: StaticInitializerVisitor,
    s: State,
    conditional: TSConditionalTypeView,
)
    requires
        v.admits(s, 1 + conditional_type_size(conditional)),
        conditional_in_range(conditional, s.scopes.parents.len(), s.names.reference_symbols.len()),
    ensures
        node_settled(
            v.this_depth as nat,
            v.walk_deep,
            visit_ts_conditional_type(v, s, conditional).1.names,
            NodeView::TSConditionalType(Box::new(visit_ts_conditional_type(v, s, conditional).0)),
        ),
    decreases conditional, 1nat,
{
    let depth = v.this_depth as nat;
    let scopes = s.scopes.parents.len();
    let references = s.names.reference_symbols.len();
    let inner = inside_scope(v);
    lemma_reparent(v, s, conditional.scope_id);
    let s1 = s.reparented(v, conditional.scope_id);
    lemma_visit_expression(v, s1, conditional.check_type);
    lemma_visit_expression_settles(v, s1, conditional.check_type);
    let (check_type, s2) = visit_expression(v, s1, conditional.check_type);
    lemma_enter_scope(v, s2, conditional.scope_id);
    let s3 = s2.entered(v, conditional.scope_id);
    lemma_node_in_range_grows(
        conditional.extends_type,
        scopes,
        references,
        s3.names.reference_symbols.len(),
    );
    lemma_visit_expression(inner, s3, conditional.extends_type);
    lemma_visit_expression_settles(inner, s3, conditional.extends_type);
    let (extends_type, s4) = visit_expression(inner, s3, conditional.extends_type);
    lemma_node_in_range_grows(
        conditional.true_type,
        scopes,
        references,
        s4.names.reference_symbols.len(),
    );
    lemma_visit_expression(inner, s4, conditional.true_type);
    lemma_visit_expression_settles(inner, s4, conditional.true_type);
    let (true_type, s5) = visit_expression(inner, s4, conditional.true_type);
    lemma_node_in_range_grows(
        conditional.false_type,
        scopes,
        references,
        s5.names.reference_symbols.len(),
    );
    lemma_visit_expression(v, s5, conditional.false_type);
    lemma_visit_expression_settles(v, s5, conditional.false_type);
    let s6 = visit_expression(v, s5, conditional.false_type).1;
    let b3 = node_size(conditional.extends_type);
    let b4 = node_size(conditional.true_type);
    let b5 = node_size(conditional.false_type);
    lemma_follows_on(s3, s4, s5, b3, b4);
    lemma_follows_on(s3, s5, s6, b3 + b4, b5);
    lemma_follows_on(s4, s5, s6, b4, b5);
    lemma_node_stays_settled(depth, v.walk_deep, s2.names, s6.names, b3 + b4 + b5, check_type);
    lemma_node_stays_settled(depth, v.walk_deep, s4.names, s6.names, b4 + b5, extends_type);
    lemma_node_stays_settled(depth, v.walk_deep, s5.names, s6.names, b5, true_type);
}

pub proof fn lemma_walk_expression_settles(v: StaticInitializerVisitor, s: State, e: NodeView)
    requires
        v.admits(s, node_size(e)),
        node_in_range(e, s.scopes.parents.len(), s.names.reference_symbols.len()),
        !(e is ThisExpression),
        e matches NodeView::UnaryExpression(unary) ==> !is_delete_this(*unary),
        e matches NodeView::SuperMember(member) ==> (v.this_depth == 0 ==> member.class is Some),
    ensures
        node_settled(
            v.this_depth as nat,
            v.walk_deep,
            walk_expression(v, s, e).1.names,
            walk_expression(v, s, e).0,
        ),
    decreases e, 0nat,
{
    match e {
        NodeView::ThisExpression(_) => {},
        NodeView::BooleanLiteral(_, _) => {},
        NodeView::Identifier(ident) => {
            lemma_replace_class_name_with_temp_var(s.names, ident);
        },
        NodeView::UnaryExpression(unary) => {
            lemma_visit_expression_settles(v, s, unary.argument);
        },
        NodeView::SuperMember(member) => {
            lemma_visit_nodes_settles(v, s, member.operands);
        },
        NodeView::Function(func) => {
            let inner = inside_directives(v, func.has_use_strict_directive);
            lemma_reparent(inner, s, func.scope_id);
            if v.walk_deep {
                lemma_walk_function_settles(
                    inside_scope(inside_this(inner)),
                    s.reparented(inner, func.scope_id),
                    func,
                );
            }
        },
        NodeView::ArrowFunctionExpression(func) => {
            let inner = inside_directives(v, func.has_use_strict_directive);
            lemma_reparent(inner, s, func.scope_id);
            lemma_walk_function_settles(inside_scope(inner), s.reparented(inner, func.scope_id), func);
        },
        NodeView::Class(class) => {
            let inner = inside_directives(v, true);
            lemma_reparent(inner, s, class.scope_id);
            lemma_walk_scoped_settles(inside_scope(inner), s.reparented(inner, class.scope_id), class);
        },
        NodeView::StaticBlock(block) => {
            lemma_walk_scoped_settles(inside_this(v), s, block);
        },
        NodeView::TSModuleBlock(block) => {
            if v.walk_deep {
                lemma_visit_nodes_settles(
                    inside_this(inside_directives(v, block.has_use_strict_directive)),
                    s,
                    block.body,
                );
            }
        },
        NodeView::PropertyDefinition(prop) => {
            lemma_visit_property_definition_settles(v, s, *prop);
        },
        NodeView::AccessorProperty(prop) => {
            lemma_visit_property_definition_settles(v, s, *prop);
        },
        NodeView::TSConditionalType(conditional) => {
            lemma_visit_ts_conditional_type_settles(v, s, *conditional);
        },
        NodeView::TSMethodSignature(scoped)
        | NodeView::TSConstructSignatureDeclaration(scoped)
        | NodeView::TSMappedType(scoped) => {
            lemma_reparent(v, s, scoped.scope_id);
            lemma_walk_scoped_settles(inside_scope(v), s.reparented(v, scoped.scope_id), scoped);
        },
        NodeView::Block(block) => {
            lemma_walk_scoped_settles(v, s, block);
        },
        NodeView::Other(children) => {
            lemma_visit_nodes_settles(v, s, children);
        },
    }
}

/// The visit of a tree leaves it settled.
pub proof fn lemma_visit_expression_settles(v: StaticInitializerVisitor, s: State, e: NodeView)
    requires
        v.admits(s, node_size(e)),
        node_in_range(e, s.scopes.parents.len(), s.names.reference_symbols.len()),
    ensures
        node_settled(
            v.this_depth as nat,
            v.walk_deep,
            visit_expression(v, s, e).1.names,
            visit_expression(v, s, e).0,
        ),
        v.this_depth == 0 ==> !(visit_expression(v, s, e).0 is ThisExpression),
    decreases e, 1nat,
{
    match e {
        NodeView::ThisExpression(span) => {
            lemma_replace_this_with_temp_var(v, s.names, e, span);
        },
        NodeView::UnaryExpression(unary) if is_delete_this(*unary) => {},
        NodeView::SuperMember(member) => {
            lemma_transform_if_super(v, s.names, member);
            lemma_visit_nodes_settles(
                v,
                s.with_names(transform_if_super(v, s.names, member).1),
                member.operands,
            );
        },
        _ => {
            lemma_walk_expression_settles(v, s, e);
        },
    }
}

} // verus!
