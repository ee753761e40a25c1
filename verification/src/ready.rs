//! Tests of what the rewrite of an initializer takes for granted, and the
//! rewrite for callers that cannot take it for granted.

use vstd::prelude::*;
use oxc_semantic::{ScopeTree, SymbolTable};
use crate::ast::{nodes_view, ClassProperty, Node, NodeView, TSConditionalType};
use crate::bindings::{contains, ClassBindings};
use crate::invariants::{
    can_transform, lemma_nodes_size_prefix, node_in_range, node_size, nodes_in_range, nodes_size,
};
use crate::model;
use crate::model::{names_of, scopes_of, state_of};
use crate::scope_tree::{parent_id, scope_count};
use crate::symbol_table::{
    reference_count, reference_symbol_id, resolved_reference_ids, symbol_count, MAX_INDEX,
};

verus! {

/// Whether the scope tree is well formed: every parent is a scope.
pub fn scopes_well_formed(scopes: &ScopeTree) -> (ok: bool)
    ensures
        ok == scopes_of(*scopes).well_formed(),
{
    let count = scope_count(scopes);
    let mut i: usize = 0;
    while i < count
        invariant
            i <= count,
            count == scopes_of(*scopes).parents.len(),
            count == scopes_of(*scopes).flags.len(),
            forall|j: int|
                0 <= j < i ==> (#[trigger] scopes_of(*scopes).parents[j] matches Some(p) ==> p
                    < count),
        decreases count - i,
    {
        match parent_id(scopes, i) {
            Some(parent) => {
                if parent >= count {
                    return false;
                }
            },
            None => {},
        }
        i += 1;
    }
    true
}

/// The size of the nodes, if each of them is in range and their size is at most
/// `limit`.
fn measure_nodes(nodes: &Vec<Node>, scopes: usize, references: usize, limit: usize) -> (size:
    Option<usize>)
    ensures
        size matches Some(n) ==> n == nodes_size(nodes_view(*nodes)) && n <= limit
            && nodes_in_range(nodes_view(*nodes), scopes as nat, references as nat),
        size is None ==> !(nodes_in_range(nodes_view(*nodes), scopes as nat, references as nat)
            && nodes_size(nodes_view(*nodes)) <= limit),
    decreases nodes_size(nodes_view(*nodes)), 2nat,
{
    let ghost all = nodes_view(*nodes);
    let mut total: usize = 0;
    let mut i: usize = 0;
    proof {
        assert(all.take(0) =~= Seq::empty());
    }
    while i < nodes.len()
        invariant
            i <= nodes.len(),
            all == nodes_view(*nodes),
            all.len() == nodes.len(),
            total == nodes_size(all.take(i as int)),
            total <= limit,
            forall|j: int|
                0 <= j < i ==> node_in_range(#[trigger] all[j], scopes as nat, references as nat),
        decreases nodes.len() - i,
    {
        proof {
            lemma_nodes_size_prefix(all, i as int);
        }
        match measure(&nodes[i], scopes, references, limit - total) {
            Some(n) => {
                total = total + n;
            },
            None => {
                return None;
            },
        }
        i += 1;
    }
    proof {
        assert(all.take(nodes.len() as int) =~= all);
    }
    Some(total)
}

/// The size of a construct with a scope and children, less the construct's own
/// node.
fn measure_scoped(
    scope_id: usize,
    children: &Vec<Node>,
    scopes: usize,
    references: usize,
    limit: usize,
) -> (size: Option<usize>)
    ensures
        size matches Some(n) ==> n == nodes_size(nodes_view(*children)) && n <= limit && scope_id
            < scopes && nodes_in_range(nodes_view(*children), scopes as nat, references as nat),
        size is None ==> !(scope_id < scopes && nodes_in_range(
            nodes_view(*children),
            scopes as nat,
            references as nat,
        ) && nodes_size(nodes_view(*children)) <= limit),
    decreases nodes_size(nodes_view(*children)), 3nat,
{
    if scope_id < scopes {
        measure_nodes(children, scopes, references, limit)
    } else {
        None
    }
}

/// The size of a property of a class, less the property's own node.
fn measure_property(prop: &ClassProperty, scopes: usize, references: usize, limit: usize) -> (size:
    Option<usize>)
    ensures
        size matches Some(n) ==> n + 1 == node_size(
            NodeView::PropertyDefinition(Box::new(prop@)),
        ) && n <= limit && node_in_range(
            NodeView::PropertyDefinition(Box::new(prop@)),
            scopes as nat,
            references as nat,
        ),
        size is None ==> !(node_in_range(
            NodeView::PropertyDefinition(Box::new(prop@)),
            scopes as nat,
            references as nat,
        ) && node_size(NodeView::PropertyDefinition(Box::new(prop@))) <= limit + 1),
    decreases node_size(NodeView::PropertyDefinition(Box::new(prop@))), 0nat,
{
    let decorators = match measure_nodes(&prop.decorators, scopes, references, limit) {
        Some(n) => n,
        None => {
            return None;
        },
    };
    let key = match measure(&prop.key, scopes, references, limit - decorators) {
        Some(n) => n,
        None => {
            return None;
        },
    };
    match &prop.value {
        Some(value) => match measure(value, scopes, references, limit - decorators - key) {
            Some(n) => Some(decorators + key + n),
            None => None,
        },
        None => Some(decorators + key),
    }
}

/// The size of a conditional type, less its own node.
fn measure_conditional(
    conditional: &TSConditionalType,
    scopes: usize,
    references: usize,
    limit: usize,
) -> (size: Option<usize>)
    ensures
        size matches Some(n) ==> n + 1 == node_size(
            NodeView::TSConditionalType(Box::new(conditional@)),
        ) && n <= limit && node_in_range(
            NodeView::TSConditionalType(Box::new(conditional@)),
            scopes as nat,
            references as nat,
        ),
        size is None ==> !(node_in_range(
            NodeView::TSConditionalType(Box::new(conditional@)),
            scopes as nat,
            references as nat,
        ) && node_size(NodeView::TSConditionalType(Box::new(conditional@))) <= limit + 1),
    decreases node_size(NodeView::TSConditionalType(Box::new(conditional@))), 0nat,
{
    if conditional.scope_id >= scopes {
        return None;
    }
    let check_type = match measure(&conditional.check_type, scopes, references, limit) {
        Some(n) => n,
        None => {
            return None;
        },
    };
    let extends_type = match measure(
        &conditional.extends_type,
        scopes,
        references,
        limit - check_type,
    ) {
        Some(n) => n,
        None => {
            return None;
        },
    };
    let true_type = match measure(
        &conditional.true_type,
        scopes,
        references,
        limit - check_type - extends_type,
    ) {
        Some(n) => n,
        None => {
            return None;
        },
    };
    match measure(
        &conditional.false_type,
        scopes,
        references,
        limit - check_type - extends_type - true_type,
    ) {
        Some(n) => Some(check_type + extends_type + true_type + n),
        None => None,
    }
}

/// The size of the tree, if it is in range and its size is at most `limit`.
fn measure(node: &Node, scopes: usize, references: usize, limit: usize) -> (size: Option<usize>)
    ensures
        size matches Some(n) ==> n == node_size(node@) && n <= limit && node_in_range(
            node@,
            scopes as nat,
            references as nat,
        ),
        size is None ==> !(node_in_range(node@, scopes as nat, references as nat) && node_size(
            node@,
        ) <= limit),
    decreases node_size(node@), 1nat,
{
    if limit == 0 {
        return None;
    }
    let inner = match node {
        Node::ThisExpression(_) => Some(0),
        Node::BooleanLiteral(_, _) => Some(0),
        Node::Identifier(ident) => if ident.reference_id < references {
            Some(0)
        } else {
            None
        },
        Node::UnaryExpression(unary) => measure(&unary.argument, scopes, references, limit - 1),
        Node::SuperMember(member) => measure_nodes(&member.operands, scopes, references, limit - 1),
        Node::Function(func) | Node::ArrowFunctionExpression(func) => measure_scoped(
            func.scope_id,
            &func.children,
            scopes,
            references,
            limit - 1,
        ),
        Node::TSModuleBlock(block) => measure_nodes(&block.body, scopes, references, limit - 1),
        Node::PropertyDefinition(prop) | Node::AccessorProperty(prop) => measure_property(
            prop,
            scopes,
            references,
            limit - 1,
        ),
        Node::TSConditionalType(conditional) => measure_conditional(
            conditional,
            scopes,
            references,
            limit - 1,
        ),
        Node::Class(scoped)
        | Node::StaticBlock(scoped)
        | Node::TSMethodSignature(scoped)
        | Node::TSConstructSignatureDeclaration(scoped)
        | Node::TSMappedType(scoped)
        | Node::Block(scoped) => measure_scoped(
            scoped.scope_id,
            &scoped.children,
            scopes,
            references,
            limit - 1,
        ),
        Node::Other(children) => measure_nodes(children, scopes, references, limit - 1),
    };
    match inner {
        Some(n) => Some(n + 1),
        None => None,
    }
}

impl ClassBindings {
    /// Whether the class's bindings and the symbol table are well formed
    /// together.
    pub fn names_well_formed(&self, symbols: &SymbolTable) -> (ok: bool)
        ensures
            ok == names_of(*self, *symbols).well_formed(),
    {
        let ghost names = names_of(*self, *symbols);
        if !self.ready_to_create_binding(symbols) {
            return false;
        }
        let symbol_count = symbol_count(symbols);
        match &self.temp {
            Some(temp) => {
                if temp.symbol_id >= symbol_count {
                    return false;
                }
                match &self.name {
                    Some(name) => {
                        if name.symbol_id == temp.symbol_id {
                            return false;
                        }
                    },
                    None => {},
                }
            },
            None => {},
        }
        match &self.name {
            Some(name) => {
                if name.symbol_id >= symbol_count {
                    return false;
                }
                let listed = resolved_reference_ids(symbols, name.symbol_id);
                let reference_count = reference_count(symbols);
                let mut r: usize = 0;
                while r < reference_count
                    invariant
                        r <= reference_count,
                        reference_count == names.reference_symbols.len(),
                        names == names_of(*self, *symbols),
                        self.name == Some(*name),
                        name.symbol_id < names.resolved_references.len(),
                        listed@ == names.resolved_references[name.symbol_id as int],
                        forall|q: usize|
                            q < r && #[trigger] names.reference_symbols[q as int] == Some(
                                name.symbol_id,
                            ) ==> listed@.contains(q),
                    decreases reference_count - r,
                {
                    let resolves = match reference_symbol_id(symbols, r) {
                        Some(symbol_id) => symbol_id == name.symbol_id,
                        None => false,
                    };
                    if resolves && !contains(&listed, r) {
                        return false;
                    }
                    r += 1;
                }
                true
            },
            None => true,
        }
    }

    /// Whether `transform_static_initializer` can be called.
    pub fn ready_to_transform(
        &self,
        scopes: &ScopeTree,
        symbols: &SymbolTable,
        current_scope_id: usize,
        value: &Node,
    ) -> (ready: bool)
        ensures
            ready == can_transform(state_of(*self, *scopes, *symbols), current_scope_id, value@),
    {
        let scope_count = scope_count(scopes);
        let reference_count = reference_count(symbols);
        if !scopes_well_formed(scopes) || !self.names_well_formed(symbols) || current_scope_id
            >= scope_count || reference_count > MAX_INDEX {
            return false;
        }
        measure(value, scope_count, reference_count, MAX_INDEX - reference_count).is_some()
    }

    /// Rewrites the static property initializer `value` as
    /// `transform_static_initializer` does, if it can be rewritten, and tells
    /// whether it did. Nothing changes where it did not.
    pub fn try_transform_static_initializer(
        &mut self,
        scopes: &mut ScopeTree,
        symbols: &mut SymbolTable,
        current_scope_id: usize,
        value: &mut Node,
    ) -> (done: bool)
        ensures
            done == can_transform(
                state_of(*old(self), *old(scopes), *old(symbols)),
                current_scope_id,
                old(value)@,
            ),
            done ==> (final(value)@, state_of(*final(self), *final(scopes), *final(symbols)))
                == model::transform_static_initializer(
                state_of(*old(self), *old(scopes), *old(symbols)),
                current_scope_id,
                old(value)@,
            ),
            !done ==> final(value)@ == old(value)@ && state_of(
                *final(self),
                *final(scopes),
                *final(symbols),
            ) == state_of(*old(self), *old(scopes), *old(symbols)),
    {
        if self.ready_to_transform(scopes, symbols, current_scope_id, value) {
            self.transform_static_initializer(scopes, symbols, current_scope_id, value);
            true
        } else {
            false
        }
    }
}

} // verus!
