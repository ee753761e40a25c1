//! The visitor that rewrites one static property initializer.

use vstd::prelude::*;
use oxc_semantic::{ScopeTree, SymbolTable};
use crate::ast::{
    ClassProperty, Function, IdentifierReference, Node, nodes_view, Scoped, Span, SuperForm,
    SuperMember, TSConditionalType, TSModuleBlock, UnaryOperator,
};
use crate::bindings::ClassBindings;
use crate::invariants::{
    can_transform, class_property_size, conditional_in_range, conditional_type_size, function_in_range,
    lemma_enter_scope, lemma_node_in_range_grows, lemma_nodes_prefix, lemma_reparent,
    lemma_transform_if_super, lemma_visit_expression, lemma_visit_nodes, node_in_range, node_size,
    nodes_in_range, nodes_size, property_in_range, scoped_in_range,
};
use crate::model;
use crate::model::{names_of, scopes_of, State, state_of};
use crate::scope_tree::{
    change_parent_id, parent_id, remove_strict_mode, scope_count, scope_flags, scope_is_strict,
    scope_parents,
};
use crate::symbol_table::{
    add_resolved_reference, delete_resolved_reference, reference_count, reference_symbol_id,
    reference_symbols, set_reference_symbol_id, MAX_INDEX,
};

verus! {

/// The visitor's state during one walk over an initializer.
#[derive(Clone, Copy, Debug, PartialEq, Eq, Structural)]
pub struct StaticInitializerVisitor {
    /// Whether the class has a name or scopes have to be made sloppy. Either
    /// makes the walk go into constructs that have a `this` of their own; else
    /// it stops at them.
    pub walk_deep: bool,
    /// Whether the scopes that the walk enters lose their strict mode flag.
    pub make_sloppy_mode: bool,
    /// How many constructs with a `this` of their own lie around the node at
    /// hand. `this` is the class's own where this is 0.
    pub this_depth: u32,
    /// How many scopes of the initializer lie around the node at hand. A scope
    /// met where this is 0 is a first-level scope.
    pub scope_depth: u32,
    /// The scope that the initializer moves into.
    pub current_scope_id: usize,
}

impl StaticInitializerVisitor {
    /// The visitor can walk `size` more nodes from the state `s`: the state is
    /// well formed, the scope that the code moves into is one of its scopes, and
    /// neither the table of references nor a depth counter runs out of numbers
    /// on the way.
    pub open spec fn admits(self, s: State, size: nat) -> bool {
        &&& s.well_formed()
        &&& self.current_scope_id < s.scopes.parents.len()
        &&& s.names.reference_symbols.len() + size <= MAX_INDEX
        &&& self.this_depth + size <= u32::MAX
        &&& self.scope_depth + size <= u32::MAX
    }

    /// Where `scope_id` is a first-level scope for the visitor, it can be
    /// re-parented: it is a scope, the scope that the code moves into is one,
    /// and so is its parent so far.
    pub open spec fn can_reparent(self, scopes: model::Scopes, scope_id: usize) -> bool {
        self.scope_depth == 0 ==> {
            &&& scope_id < scopes.parents.len()
            &&& self.current_scope_id < scopes.parents.len()
            &&& (scopes.parents[scope_id as int] matches Some(p) ==> p < scopes.parents.len())
        }
    }

    /// The visitor can enter a construct with the scope `scope_id`, whatever the
    /// construct is: the scope can be re-parented and can lose its strict mode
    /// flag, and neither depth counter is at its limit.
    pub open spec fn can_enter(self, scopes: model::Scopes, scope_id: usize) -> bool {
        &&& scope_id < scopes.parents.len()
        &&& scope_id < scopes.flags.len()
        &&& self.current_scope_id < scopes.parents.len()
        &&& (scopes.parents[scope_id as int] matches Some(p) ==> p < scopes.parents.len())
        &&& self.this_depth < u32::MAX
        &&& self.scope_depth < u32::MAX
    }

    /// Whether the visitor can enter a construct with the scope `scope_id`.
    /// Where it can, each step that takes a scope can be made.
    pub fn ready_to_enter(&self, scopes: &ScopeTree, scope_id: usize) -> (ready: bool)
        ensures
            ready == self.can_enter(scopes_of(*scopes), scope_id),
            ready ==> self.can_reparent(scopes_of(*scopes), scope_id),
    {
        let count = scope_count(scopes);
        if scope_id < count && self.current_scope_id < count {
            let parent_known = match parent_id(scopes, scope_id) {
                Some(parent) => parent < count,
                None => true,
            };
            parent_known && self.this_depth < u32::MAX && self.scope_depth < u32::MAX
        } else {
            false
        }
    }

    /// Whether the visitor can enter a construct that has no scope of its own:
    /// neither depth counter is at its limit.
    pub fn ready_to_go_deeper(&self) -> (ready: bool)
        ensures
            ready == (self.this_depth < u32::MAX && self.scope_depth < u32::MAX),
    {
        self.this_depth < u32::MAX && self.scope_depth < u32::MAX
    }

    /// Whether `replace_this_with_temp_var` can be called.
    pub fn ready_to_replace_this(&self, class: &ClassBindings, symbols: &SymbolTable) -> (ready:
        bool)
        ensures
            ready == (self.this_depth == 0 ==> names_of(*class, *symbols).can_read_binding()),
    {
        self.this_depth != 0 || class.ready_to_read_binding(symbols)
    }

    /// Whether `replace_class_name_with_temp_var` can be called for `ident`.
    pub fn ready_to_replace_class_name(
        &self,
        class: &ClassBindings,
        symbols: &SymbolTable,
        ident: &IdentifierReference,
    ) -> (ready: bool)
        ensures
            ready == {
                &&& ident.reference_id < reference_symbols(*symbols).len()
                &&& (model::is_class_name_reference(names_of(*class, *symbols), ident@)
                    ==> names_of(*class, *symbols).can_move_reference(ident.reference_id))
            },
    {
        if ident.reference_id < reference_count(symbols) {
            let resolved = reference_symbol_id(symbols, ident.reference_id);
            let refers = match (class.name_symbol_id(), resolved) {
                (Some(name), Some(symbol_id)) => name == symbol_id,
                _ => false,
            };
            !refers || class.ready_to_move_reference(symbols, ident.reference_id)
        } else {
            false
        }
    }

    /// Whether an expression can be handed to the class transform as a possible
    /// expression through `super`.
    pub fn ready_to_transform_super(&self, class: &ClassBindings, symbols: &SymbolTable) -> (ready:
        bool)
        ensures
            ready == (self.this_depth == 0 ==> names_of(*class, *symbols).can_create_binding()),
    {
        self.this_depth != 0 || class.ready_to_create_binding(symbols)
    }

    /// The visitor for one initializer of `class` that moves into the scope
    /// `current_scope_id`. Scopes are made sloppy where that scope is not
    /// strict; the walk goes deep where they are, or where the class has a name.
    pub fn new(class: &ClassBindings, scopes: &ScopeTree, current_scope_id: usize) -> (visitor:
        Self)
        requires
            current_scope_id < scope_flags(*scopes).len(),
        ensures
            visitor == model::new_visitor(class@, scopes_of(*scopes), current_scope_id),
    {
        let make_sloppy_mode = !scope_is_strict(scopes, current_scope_id);
        let walk_deep = make_sloppy_mode || class.name.is_some();
        StaticInitializerVisitor {
            walk_deep,
            make_sloppy_mode,
            this_depth: 0,
            scope_depth: 0,
            current_scope_id,
        }
    }

    /// Clears the strict mode flag of a scope that the walk enters, where scopes
    /// are made sloppy.
    pub fn enter_scope(&self, scopes: &mut ScopeTree, scope_id: usize)
        requires
            self.make_sloppy_mode ==> scope_id < scope_flags(*old(scopes)).len(),
        ensures
            scopes_of(*final(scopes)) == model::enter_scope(
                *self,
                scopes_of(*old(scopes)),
                scope_id,
            ),
    {
        if self.make_sloppy_mode {
            remove_strict_mode(scopes, scope_id);
        }
    }

    /// Makes the scope that the initializer moves into the parent of `scope_id`,
    /// where `scope_id` is a first-level scope.
    pub fn reparent_scope_if_first_level(&self, scopes: &mut ScopeTree, scope_id: usize)
        requires
            self.can_reparent(scopes_of(*old(scopes)), scope_id),
        ensures
            scopes_of(*final(scopes)) == model::reparent_scope_if_first_level(
                *self,
                scopes_of(*old(scopes)),
                scope_id,
            ),
    {
        if self.scope_depth == 0 {
            change_parent_id(scopes, scope_id, self.current_scope_id);
        }
    }

    /// Enters a function: see `model::enter_function`.
    pub fn enter_function(
        &mut self,
        scopes: &mut ScopeTree,
        scope_id: usize,
        has_use_strict_directive: bool,
    )
        requires
            old(self).can_reparent(scopes_of(*old(scopes)), scope_id),
            old(self).walk_deep ==> old(self).this_depth < u32::MAX && old(self).scope_depth
                < u32::MAX,
        ensures
            (*final(self), scopes_of(*final(scopes))) == model::enter_function(
                *old(self),
                scopes_of(*old(scopes)),
                scope_id,
                has_use_strict_directive,
            ),
    {
        if self.make_sloppy_mode && has_use_strict_directive {
            self.make_sloppy_mode = false;
        }
        self.reparent_scope_if_first_level(scopes, scope_id);
        if self.walk_deep {
            self.this_depth += 1;
            self.scope_depth += 1;
        }
    }

    /// Enters an arrow function: see `model::enter_arrow_function_expression`.
    pub fn enter_arrow_function_expression(
        &mut self,
        scopes: &mut ScopeTree,
        scope_id: usize,
        has_use_strict_directive: bool,
    )
        requires
            old(self).can_reparent(scopes_of(*old(scopes)), scope_id),
            old(self).scope_depth < u32::MAX,
        ensures
            (*final(self), scopes_of(*final(scopes))) == model::enter_arrow_function_expression(
                *old(self),
                scopes_of(*old(scopes)),
                scope_id,
                has_use_strict_directive,
            ),
    {
        if self.make_sloppy_mode && has_use_strict_directive {
            self.make_sloppy_mode = false;
        }
        self.reparent_scope_if_first_level(scopes, scope_id);
        self.scope_depth += 1;
    }

    /// Enters a class inside the initializer: see `model::enter_class`.
    pub fn enter_class(&mut self, scopes: &mut ScopeTree, scope_id: usize)
        requires
            old(self).can_reparent(scopes_of(*old(scopes)), scope_id),
            old(self).scope_depth < u32::MAX,
        ensures
            (*final(self), scopes_of(*final(scopes))) == model::enter_class(
                *old(self),
                scopes_of(*old(scopes)),
                scope_id,
            ),
    {
        self.make_sloppy_mode = false;
        self.reparent_scope_if_first_level(scopes, scope_id);
        self.scope_depth += 1;
    }

    /// Enters a static block: it has a `this` of its own.
    pub fn enter_static_block(&mut self)
        requires
            old(self).this_depth < u32::MAX,
        ensures
            *final(self) == model::enter_static_block(*old(self)),
    {
        self.this_depth += 1;
    }

    /// Enters the body of an ambient namespace: see
    /// `model::enter_ts_module_block`.
    pub fn enter_ts_module_block(&mut self, has_use_strict_directive: bool)
        requires
            old(self).walk_deep ==> old(self).this_depth < u32::MAX,
        ensures
            *final(self) == model::enter_ts_module_block(*old(self), has_use_strict_directive),
    {
        if self.make_sloppy_mode && has_use_strict_directive {
            self.make_sloppy_mode = false;
        }
        if self.walk_deep {
            self.this_depth += 1;
        }
    }

    /// Enters the value of a property of a class: it has a `this` of its own.
    pub fn enter_property_value(&mut self)
        requires
            old(self).this_depth < u32::MAX,
        ensures
            *final(self) == model::enter_property_value(*old(self)),
    {
        self.this_depth += 1;
    }

    /// Enters the scope of a conditional type, which the visitor is then inside
    /// of.
    pub fn enter_ts_conditional_type_scope(&mut self, scopes: &mut ScopeTree, scope_id: usize)
        requires
            old(self).make_sloppy_mode ==> scope_id < scope_flags(*old(scopes)).len(),
            old(self).scope_depth < u32::MAX,
        ensures
            (*final(self), scopes_of(*final(scopes))) == model::enter_ts_conditional_type_scope(
                *old(self),
                scopes_of(*old(scopes)),
                scope_id,
            ),
    {
        self.enter_scope(scopes, scope_id);
        self.scope_depth += 1;
    }

    /// Enters a method signature, a construct signature or a mapped type: see
    /// `model::enter_type_scope`.
    pub fn enter_type_scope(&mut self, scopes: &mut ScopeTree, scope_id: usize)
        requires
            old(self).can_reparent(scopes_of(*old(scopes)), scope_id),
            old(self).scope_depth < u32::MAX,
        ensures
            (*final(self), scopes_of(*final(scopes))) == model::enter_type_scope(
                *old(self),
                scopes_of(*old(scopes)),
                scope_id,
            ),
    {
        self.reparent_scope_if_first_level(scopes, scope_id);
        self.scope_depth += 1;
    }

    /// Replaces `this` by a read of the class's temporary binding at the same
    /// span, where `this` is the class's own.
    pub fn replace_this_with_temp_var(
        &self,
        class: &mut ClassBindings,
        symbols: &mut SymbolTable,
        expr: &mut Node,
        span: Span,
    )
        requires
            self.this_depth == 0 ==> names_of(*old(class), *old(symbols)).can_read_binding(),
        ensures
            (final(expr)@, names_of(*final(class), *final(symbols)))
                == model::replace_this_with_temp_var(
                *self,
                names_of(*old(class), *old(symbols)),
                old(expr)@,
                span,
            ),
    {
        if self.this_depth == 0 {
            let temp_binding = class.get_or_init_static_binding(symbols);
            *expr = temp_binding.create_spanned_read_expression(span, symbols);
        }
    }

    /// Replaces a reference to the class's name by a reference to the class's
    /// temporary binding: the identifier takes the binding's name, and its
    /// reference moves from the name's symbol to the binding's.
    pub fn replace_class_name_with_temp_var(
        &self,
        class: &mut ClassBindings,
        symbols: &mut SymbolTable,
        ident: &mut IdentifierReference,
    )
        requires
            old(ident).reference_id < reference_symbols(*old(symbols)).len(),
            model::is_class_name_reference(names_of(*old(class), *old(symbols)), old(ident)@)
                ==> names_of(*old(class), *old(symbols)).can_move_reference(
                old(ident).reference_id,
            ),
        ensures
            (final(ident)@, names_of(*final(class), *final(symbols)))
                == model::replace_class_name_with_temp_var(
                names_of(*old(class), *old(symbols)),
                old(ident)@,
            ),
    {
        let class_name_symbol_id = match class.name_symbol_id() {
            Some(symbol_id) => symbol_id,
            None => {
                return ;
            },
        };
        let reference_id = ident.reference_id;
        let symbol_id = match reference_symbol_id(symbols, reference_id) {
            Some(symbol_id) => symbol_id,
            None => {
                return ;
            },
        };
        if symbol_id != class_name_symbol_id {
            return ;
        }
        let temp_binding = class.get_or_init_static_binding(symbols);
        ident.name = temp_binding.name;
        set_reference_symbol_id(symbols, reference_id, temp_binding.symbol_id);
        delete_resolved_reference(symbols, symbol_id, reference_id);
        add_resolved_reference(symbols, temp_binding.symbol_id, reference_id);
    }

    /// Replaces `delete this` by `true`, where `this` is the class's own.
    pub fn replace_delete_this_with_true(&self, expr: &mut Node, span: Span)
        ensures
            final(expr)@ == model::replace_delete_this_with_true(*self, old(expr)@, span),
    {
        if self.this_depth == 0 {
            *expr = Node::BooleanLiteral(span, true);
        }
    }

    /// Hands `member` to the class transform as a possible `super.prop`, where
    /// `this` is the class's own.
    pub fn transform_static_member_expression_if_super(
        &self,
        class: &mut ClassBindings,
        symbols: &mut SymbolTable,
        member: &mut SuperMember,
    )
        requires
            self.this_depth == 0 ==> names_of(*old(class), *old(symbols)).can_create_binding(),
        ensures
            (final(member)@, names_of(*final(class), *final(symbols)))
                == model::transform_if_super_of_form(
                *self,
                names_of(*old(class), *old(symbols)),
                SuperForm::StaticMember,
                old(member)@,
            ),
    {
        if self.this_depth == 0 {
            class.transform_static_member_expression(symbols, member);
        }
    }

    /// Hands `member` to the class transform as a possible `super[prop]`, where
    /// `this` is the class's own.
    pub fn transform_computed_member_expression_if_super(
        &self,
        class: &mut ClassBindings,
        symbols: &mut SymbolTable,
        member: &mut SuperMember,
    )
        requires
            self.this_depth == 0 ==> names_of(*old(class), *old(symbols)).can_create_binding(),
        ensures
            (final(member)@, names_of(*final(class), *final(symbols)))
                == model::transform_if_super_of_form(
                *self,
                names_of(*old(class), *old(symbols)),
                SuperForm::ComputedMember,
                old(member)@,
            ),
    {
        if self.this_depth == 0 {
            class.transform_computed_member_expression(symbols, member);
        }
    }

    /// Hands `member` to the class transform as a possible `super.prop(...)`,
    /// where `this` is the class's own.
    pub fn transform_call_expression_if_super_member_expression(
        &self,
        class: &mut ClassBindings,
        symbols: &mut SymbolTable,
        member: &mut SuperMember,
    )
        requires
            self.this_depth == 0 ==> names_of(*old(class), *old(symbols)).can_create_binding(),
        ensures
            (final(member)@, names_of(*final(class), *final(symbols)))
                == model::transform_if_super_of_form(
                *self,
                names_of(*old(class), *old(symbols)),
                SuperForm::Call,
                old(member)@,
            ),
    {
        if self.this_depth == 0 {
            class.transform_call_expression_for_super_member_expr(symbols, member);
        }
    }

    /// Hands `member` to the class transform as a possible assignment to
    /// `super.prop`, where `this` is the class's own.
    pub fn transform_assignment_expression_if_super_member_assignment_target(
        &self,
        class: &mut ClassBindings,
        symbols: &mut SymbolTable,
        member: &mut SuperMember,
    )
        requires
            self.this_depth == 0 ==> names_of(*old(class), *old(symbols)).can_create_binding(),
        ensures
            (final(member)@, names_of(*final(class), *final(symbols)))
                == model::transform_if_super_of_form(
                *self,
                names_of(*old(class), *old(symbols)),
                SuperForm::Assignment,
                old(member)@,
            ),
    {
        if self.this_depth == 0 {
            class.transform_assignment_expression_for_super_assignment_target(symbols, member);
        }
    }

    /// Hands `member` to the class transform as a possible update of
    /// `super.prop`, where `this` is the class's own.
    pub fn transform_update_expression_if_super_member_assignment_target(
        &self,
        class: &mut ClassBindings,
        symbols: &mut SymbolTable,
        member: &mut SuperMember,
    )
        requires
            self.this_depth == 0 ==> names_of(*old(class), *old(symbols)).can_create_binding(),
        ensures
            (final(member)@, names_of(*final(class), *final(symbols)))
                == model::transform_if_super_of_form(
                *self,
                names_of(*old(class), *old(symbols)),
                SuperForm::Update,
                old(member)@,
            ),
    {
        if self.this_depth == 0 {
            class.transform_update_expression_for_super_assignment_target(symbols, member);
        }
    }

    /// Visits a use of a name: a reference to the class's name becomes one to
    /// the temporary binding.
    pub fn visit_identifier_reference(
        &mut self,
        class: &mut ClassBindings,
        symbols: &mut SymbolTable,
        ident: &mut IdentifierReference,
    )
        requires
            old(ident).reference_id < reference_symbols(*old(symbols)).len(),
            model::is_class_name_reference(names_of(*old(class), *old(symbols)), old(ident)@)
                ==> names_of(*old(class), *old(symbols)).can_move_reference(
                old(ident).reference_id,
            ),
        ensures
            *final(self) == *old(self),
            (final(ident)@, names_of(*final(class), *final(symbols)))
                == model::replace_class_name_with_temp_var(
                names_of(*old(class), *old(symbols)),
                old(ident)@,
            ),
    {
        self.replace_class_name_with_temp_var(class, symbols, ident);
    }

    /// Visits each of the nodes in order.
    fn visit_nodes(
        &mut self,
        class: &mut ClassBindings,
        scopes: &mut ScopeTree,
        symbols: &mut SymbolTable,
        nodes: &mut Vec<Node>,
    )
        requires
            old(self).admits(
                state_of(*old(class), *old(scopes), *old(symbols)),
                nodes_size(nodes_view(*old(nodes))),
            ),
            nodes_in_range(
                nodes_view(*old(nodes)),
                scope_parents(*old(scopes)).len(),
                reference_symbols(*old(symbols)).len(),
            ),
        ensures
            *final(self) == *old(self),
            (nodes_view(*final(nodes)), state_of(*final(class), *final(scopes), *final(symbols)))
                == model::visit_nodes(
                *old(self),
                state_of(*old(class), *old(scopes), *old(symbols)),
                nodes_view(*old(nodes)),
            ),
        decreases nodes_size(nodes_view(*old(nodes))), 2nat,
    {
        let ghost v = *self;
        let ghost s0 = state_of(*class, *scopes, *symbols);
        let ghost before = nodes_view(*nodes);
        let n = nodes.len();
        let mut i: usize = 0;
        proof {
            assert(before.take(0) =~= Seq::empty());
            assert(nodes_view(*nodes).skip(0) =~= before);
        }
        while i < n
            invariant
                i <= n,
                n == nodes.len(),
                before.len() == n,
                before == nodes_view(*old(nodes)),
                *self == v,
                v.admits(s0, nodes_size(before)),
                nodes_in_range(before, s0.scopes.parents.len(), s0.names.reference_symbols.len()),
                nodes_view(*nodes).take(i as int) == model::visit_nodes(
                    v,
                    s0,
                    before.take(i as int),
                ).0,
                state_of(*class, *scopes, *symbols) == model::visit_nodes(
                    v,
                    s0,
                    before.take(i as int),
                ).1,
                nodes_view(*nodes).skip(i as int) == before.skip(i as int),
            decreases n - i,
        {
            let ghost prev = nodes_view(*nodes);
            let ghost s1 = state_of(*class, *scopes, *symbols);
            proof {
                lemma_nodes_prefix(
                    before,
                    i as int,
                    s0.scopes.parents.len(),
                    s0.names.reference_symbols.len(),
                );
                lemma_visit_nodes(v, s0, before.take(i as int));
                lemma_node_in_range_grows(
                    before[i as int],
                    s0.scopes.parents.len(),
                    s0.names.reference_symbols.len(),
                    s1.names.reference_symbols.len(),
                );
                assert(prev[i as int] == prev.skip(i as int)[0]);
                assert(before[i as int] == before.skip(i as int)[0]);
            }
            self.visit_expression(class, scopes, symbols, &mut nodes[i]);
            proof {
                let now = nodes_view(*nodes);
                let done = model::visit_expression(v, s1, before[i as int]).0;
                assert(now =~= prev.update(i as int, done));
                assert(before.take(i + 1).drop_last() =~= before.take(i as int));
                assert(before.take(i + 1).last() == before[i as int]);
                assert(now.take(i + 1) =~= prev.take(i as int).push(done));
                assert(now.skip(i + 1) =~= prev.skip(i as int).skip(1));
                assert(before.skip(i + 1) =~= before.skip(i as int).skip(1));
            }
            i += 1;
        }
        proof {
            assert(nodes_view(*nodes).take(n as int) =~= nodes_view(*nodes));
            assert(before.take(n as int) =~= before);
        }
    }

    /// Walks into a construct that owns a scope: enters the scope, then visits the
    /// parts in order.
    fn walk_scoped(
        &mut self,
        class: &mut ClassBindings,
        scopes: &mut ScopeTree,
        symbols: &mut SymbolTable,
        scoped: &mut Scoped,
    )
        requires
            old(self).admits(
                state_of(*old(class), *old(scopes), *old(symbols)),
                nodes_size(old(scoped)@.children),
            ),
            scoped_in_range(
                old(scoped)@,
                scope_parents(*old(scopes)).len(),
                reference_symbols(*old(symbols)).len(),
            ),
        ensures
            *final(self) == *old(self),
            (final(scoped)@, state_of(*final(class), *final(scopes), *final(symbols)))
                == model::walk_scoped(
                *old(self),
                state_of(*old(class), *old(scopes), *old(symbols)),
                old(scoped)@,
            ),
        decreases nodes_size(old(scoped)@.children), 3nat,
    {
        let ghost v = *self;
        let ghost s = state_of(*class, *scopes, *symbols);
        self.enter_scope(scopes, scoped.scope_id);
        proof {
            lemma_enter_scope(v, s, scoped.scope_id);
        }
        self.visit_nodes(class, scopes, symbols, &mut scoped.children);
    }

    /// Walks into a function: enters its scope, then visits its parts in order.
    fn walk_function(
        &mut self,
        class: &mut ClassBindings,
        scopes: &mut ScopeTree,
        symbols: &mut SymbolTable,
        func: &mut Function,
    )
        requires
            old(self).admits(
                state_of(*old(class), *old(scopes), *old(symbols)),
                nodes_size(old(func)@.children),
            ),
            function_in_range(
                old(func)@,
                scope_parents(*old(scopes)).len(),
                reference_symbols(*old(symbols)).len(),
            ),
        ensures
            *final(self) == *old(self),
            (final(func)@, state_of(*final(class), *final(scopes), *final(symbols)))
                == model::walk_function(
                *old(self),
                state_of(*old(class), *old(scopes), *old(symbols)),
                old(func)@,
            ),
        decreases nodes_size(old(func)@.children), 3nat,
    {
        let ghost v = *self;
        let ghost s = state_of(*class, *scopes, *symbols);
        self.enter_scope(scopes, func.scope_id);
        proof {
            lemma_enter_scope(v, s, func.scope_id);
        }
        self.visit_nodes(class, scopes, symbols, &mut func.children);
    }

    /// Visits a function. It has a `this` and a scope of its own, and is walked
    /// only where the walk goes deep. Its own `"use strict"` directive keeps its
    /// scopes strict.
    pub fn visit_function(
        &mut self,
        class: &mut ClassBindings,
        scopes: &mut ScopeTree,
        symbols: &mut SymbolTable,
        func: &mut Function,
    )
        requires
            old(self).admits(
                state_of(*old(class), *old(scopes), *old(symbols)),
                1 + nodes_size(old(func)@.children),
            ),
            function_in_range(
                old(func)@,
                scope_parents(*old(scopes)).len(),
                reference_symbols(*old(symbols)).len(),
            ),
        ensures
            *final(self) == *old(self),
            (final(func)@, state_of(*final(class), *final(scopes), *final(symbols)))
                == model::visit_function(
                *old(self),
                state_of(*old(class), *old(scopes), *old(symbols)),
                old(func)@,
            ),
        decreases nodes_size(old(func)@.children), 4nat,
    {
        let ghost v = *self;
        let ghost s = state_of(*class, *scopes, *symbols);
        let outer = *self;
        self.enter_function(scopes, func.scope_id, func.has_use_strict_directive);
        proof {
            lemma_reparent(
                model::inside_directives(v, func.has_use_strict_directive),
                s,
                func.scope_id,
            );
        }
        if self.walk_deep {
            self.walk_function(class, scopes, symbols, func);
        }
        *self = outer;
    }

    /// Visits an arrow function. It has a scope of its own but shares the `this`
    /// around it. Its own `"use strict"` directive keeps its scopes strict.
    pub fn visit_arrow_function_expression(
        &mut self,
        class: &mut ClassBindings,
        scopes: &mut ScopeTree,
        symbols: &mut SymbolTable,
        func: &mut Function,
    )
        requires
            old(self).admits(
                state_of(*old(class), *old(scopes), *old(symbols)),
                1 + nodes_size(old(func)@.children),
            ),
            function_in_range(
                old(func)@,
                scope_parents(*old(scopes)).len(),
                reference_symbols(*old(symbols)).len(),
            ),
        ensures
            *final(self) == *old(self),
            (final(func)@, state_of(*final(class), *final(scopes), *final(symbols)))
                == model::visit_arrow_function_expression(
                *old(self),
                state_of(*old(class), *old(scopes), *old(symbols)),
                old(func)@,
            ),
        decreases nodes_size(old(func)@.children), 4nat,
    {
        let ghost v = *self;
        let ghost s = state_of(*class, *scopes, *symbols);
        let outer = *self;
        self.enter_arrow_function_expression(scopes, func.scope_id, func.has_use_strict_directive);
        proof {
            lemma_reparent(
                model::inside_directives(v, func.has_use_strict_directive),
                s,
                func.scope_id,
            );
        }
        self.walk_function(class, scopes, symbols, func);
        *self = outer;
    }

    /// Visits a class inside the initializer. It has a scope of its own, and all
    /// of it is strict.
    pub fn visit_class(
        &mut self,
        class: &mut ClassBindings,
        scopes: &mut ScopeTree,
        symbols: &mut SymbolTable,
        class_node: &mut Scoped,
    )
        requires
            old(self).admits(
                state_of(*old(class), *old(scopes), *old(symbols)),
                1 + nodes_size(old(class_node)@.children),
            ),
            scoped_in_range(
                old(class_node)@,
                scope_parents(*old(scopes)).len(),
                reference_symbols(*old(symbols)).len(),
            ),
        ensures
            *final(self) == *old(self),
            (final(class_node)@, state_of(*final(class), *final(scopes), *final(symbols)))
                == model::visit_class(
                *old(self),
                state_of(*old(class), *old(scopes), *old(symbols)),
                old(class_node)@,
            ),
        decreases nodes_size(old(class_node)@.children), 4nat,
    {
        let ghost v = *self;
        let ghost s = state_of(*class, *scopes, *symbols);
        let outer = *self;
        self.enter_class(scopes, class_node.scope_id);
        proof {
            lemma_reparent(model::inside_directives(v, true), s, class_node.scope_id);
        }
        self.walk_scoped(class, scopes, symbols, class_node);
        *self = outer;
    }

    /// Visits a static block of a class inside the initializer. It has a `this`
    /// of its own; its scope lies inside the class's.
    pub fn visit_static_block(
        &mut self,
        class: &mut ClassBindings,
        scopes: &mut ScopeTree,
        symbols: &mut SymbolTable,
        block: &mut Scoped,
    )
        requires
            old(self).admits(
                state_of(*old(class), *old(scopes), *old(symbols)),
                1 + nodes_size(old(block)@.children),
            ),
            scoped_in_range(
                old(block)@,
                scope_parents(*old(scopes)).len(),
                reference_symbols(*old(symbols)).len(),
            ),
        ensures
            *final(self) == *old(self),
            (final(block)@, state_of(*final(class), *final(scopes), *final(symbols)))
                == model::visit_static_block(
                *old(self),
                state_of(*old(class), *old(scopes), *old(symbols)),
                old(block)@,
            ),
        decreases nodes_size(old(block)@.children), 4nat,
    {
        let outer = *self;
        self.enter_static_block();
        self.walk_scoped(class, scopes, symbols, block);
        *self = outer;
    }

    /// Visits the body of an ambient namespace. It has a `this` of its own, and
    /// is walked only where the walk goes deep. Its own `"use strict"` directive
    /// keeps its scopes strict.
    pub fn visit_ts_module_block(
        &mut self,
        class: &mut ClassBindings,
        scopes: &mut ScopeTree,
        symbols: &mut SymbolTable,
        block: &mut TSModuleBlock,
    )
        requires
            old(self).admits(
                state_of(*old(class), *old(scopes), *old(symbols)),
                1 + nodes_size(old(block)@.body),
            ),
            nodes_in_range(
                old(block)@.body,
                scope_parents(*old(scopes)).len(),
                reference_symbols(*old(symbols)).len(),
            ),
        ensures
            *final(self) == *old(self),
            (final(block)@, state_of(*final(class), *final(scopes), *final(symbols)))
                == model::visit_ts_module_block(
                *old(self),
                state_of(*old(class), *old(scopes), *old(symbols)),
                old(block)@,
            ),
        decreases nodes_size(old(block)@.body), 4nat,
    {
        let outer = *self;
        self.enter_ts_module_block(block.has_use_strict_directive);
        if self.walk_deep {
            self.visit_nodes(class, scopes, symbols, &mut block.body);
        }
        *self = outer;
    }

    /// Visits a property of a class inside the initializer. The decorators and a
    /// computed key see the `this` around the class; the value has a `this` of
    /// its own. A key that is not computed is not visited.
    pub fn visit_property_definition(
        &mut self,
        class: &mut ClassBindings,
        scopes: &mut ScopeTree,
        symbols: &mut SymbolTable,
        prop: &mut ClassProperty,
    )
        requires
            old(self).admits(
                state_of(*old(class), *old(scopes), *old(symbols)),
                1 + class_property_size(old(prop)@),
            ),
            property_in_range(
                old(prop)@,
                scope_parents(*old(scopes)).len(),
                reference_symbols(*old(symbols)).len(),
            ),
        ensures
            *final(self) == *old(self),
            (final(prop)@, state_of(*final(class), *final(scopes), *final(symbols)))
                == model::visit_property_definition(
                *old(self),
                state_of(*old(class), *old(scopes), *old(symbols)),
                old(prop)@,
            ),
        decreases class_property_size(old(prop)@), 4nat,
    {
        let ghost v = *self;
        let ghost s = state_of(*class, *scopes, *symbols);
        let ghost scope_count = s.scopes.parents.len();
        let ghost reference_count = s.names.reference_symbols.len();
        self.visit_nodes(class, scopes, symbols, &mut prop.decorators);
        let ghost s1 = state_of(*class, *scopes, *symbols);
        proof {
            lemma_visit_nodes(v, s, old(prop)@.decorators);
            lemma_node_in_range_grows(
                old(prop)@.key,
                scope_count,
                reference_count,
                s1.names.reference_symbols.len(),
            );
        }
        if prop.computed {
            self.visit_expression(class, scopes, symbols, &mut prop.key);
        }
        let ghost s2 = state_of(*class, *scopes, *symbols);
        proof {
            if old(prop).computed {
                lemma_visit_expression(v, s1, old(prop)@.key);
            }
        }
        match &mut prop.value {
            Some(value) => {
                proof {
                    lemma_node_in_range_grows(
                        value@,
                        scope_count,
                        reference_count,
                        s2.names.reference_symbols.len(),
                    );
                }
                let outer = *self;
                self.enter_property_value();
                self.visit_expression(class, scopes, symbols, value);
                *self = outer;
            },
            None => {},
        }
    }

    /// Visits an accessor property of a class inside the initializer, as
    /// `visit_property_definition` visits a property.
    pub fn visit_accessor_property(
        &mut self,
        class: &mut ClassBindings,
        scopes: &mut ScopeTree,
        symbols: &mut SymbolTable,
        prop: &mut ClassProperty,
    )
        requires
            old(self).admits(
                state_of(*old(class), *old(scopes), *old(symbols)),
                1 + class_property_size(old(prop)@),
            ),
            property_in_range(
                old(prop)@,
                scope_parents(*old(scopes)).len(),
                reference_symbols(*old(symbols)).len(),
            ),
        ensures
            *final(self) == *old(self),
            (final(prop)@, state_of(*final(class), *final(scopes), *final(symbols)))
                == model::visit_property_definition(
                *old(self),
                state_of(*old(class), *old(scopes), *old(symbols)),
                old(prop)@,
            ),
        decreases class_property_size(old(prop)@), 5nat,
    {
        self.visit_property_definition(class, scopes, symbols, prop);
    }

    /// Visits a conditional type. It has a scope of its own, in which only the
    /// type after `extends` and the type for the true case lie.
    pub fn visit_ts_conditional_type(
        &mut self,
        class: &mut ClassBindings,
        scopes: &mut ScopeTree,
        symbols: &mut SymbolTable,
        conditional: &mut TSConditionalType,
    )
        requires
            old(self).admits(
                state_of(*old(class), *old(scopes), *old(symbols)),
                1 + conditional_type_size(old(conditional)@),
            ),
            conditional_in_range(
                old(conditional)@,
                scope_parents(*old(scopes)).len(),
                reference_symbols(*old(symbols)).len(),
            ),
        ensures
            *final(self) == *old(self),
            (final(conditional)@, state_of(*final(class), *final(scopes), *final(symbols)))
                == model::visit_ts_conditional_type(
                *old(self),
                state_of(*old(class), *old(scopes), *old(symbols)),
                old(conditional)@,
            ),
        decreases conditional_type_size(old(conditional)@), 4nat,
    {
        let ghost v = *self;
        let ghost s = state_of(*class, *scopes, *symbols);
        let ghost scope_count = s.scopes.parents.len();
        let ghost reference_count = s.names.reference_symbols.len();
        let ghost c = old(conditional)@;
        self.reparent_scope_if_first_level(scopes, conditional.scope_id);
        let ghost s1 = state_of(*class, *scopes, *symbols);
        proof {
            lemma_reparent(v, s, conditional.scope_id);
        }
        self.visit_expression(class, scopes, symbols, &mut conditional.check_type);
        let ghost s2 = state_of(*class, *scopes, *symbols);
        proof {
            lemma_visit_expression(v, s1, c.check_type);
        }
        let outer = *self;
        self.enter_ts_conditional_type_scope(scopes, conditional.scope_id);
        let ghost s3 = state_of(*class, *scopes, *symbols);
        proof {
            lemma_enter_scope(v, s2, conditional.scope_id);
            lemma_node_in_range_grows(
                c.extends_type,
                scope_count,
                reference_count,
                s3.names.reference_symbols.len(),
            );
        }
        self.visit_expression(class, scopes, symbols, &mut conditional.extends_type);
        let ghost s4 = state_of(*class, *scopes, *symbols);
        proof {
            lemma_visit_expression(model::inside_scope(v), s3, c.extends_type);
            lemma_node_in_range_grows(
                c.true_type,
                scope_count,
                reference_count,
                s4.names.reference_symbols.len(),
            );
        }
        self.visit_expression(class, scopes, symbols, &mut conditional.true_type);
        *self = outer;
        let ghost s5 = state_of(*class, *scopes, *symbols);
        proof {
            lemma_visit_expression(model::inside_scope(v), s4, c.true_type);
            lemma_node_in_range_grows(
                c.false_type,
                scope_count,
                reference_count,
                s5.names.reference_symbols.len(),
            );
        }
        self.visit_expression(class, scopes, symbols, &mut conditional.false_type);
    }

    /// Visits a construct of the type language that owns a scope and has no
    /// other rule of its own.
    fn visit_type_scope(
        &mut self,
        class: &mut ClassBindings,
        scopes: &mut ScopeTree,
        symbols: &mut SymbolTable,
        scoped: &mut Scoped,
    )
        requires
            old(self).admits(
                state_of(*old(class), *old(scopes), *old(symbols)),
                1 + nodes_size(old(scoped)@.children),
            ),
            scoped_in_range(
                old(scoped)@,
                scope_parents(*old(scopes)).len(),
                reference_symbols(*old(symbols)).len(),
            ),
        ensures
            *final(self) == *old(self),
            (final(scoped)@, state_of(*final(class), *final(scopes), *final(symbols)))
                == model::visit_type_scope(
                *old(self),
                state_of(*old(class), *old(scopes), *old(symbols)),
                old(scoped)@,
            ),
        decreases nodes_size(old(scoped)@.children), 4nat,
    {
        let ghost v = *self;
        let ghost s = state_of(*class, *scopes, *symbols);
        let outer = *self;
        self.enter_type_scope(scopes, scoped.scope_id);
        proof {
            lemma_reparent(v, s, scoped.scope_id);
        }
        self.walk_scoped(class, scopes, symbols, scoped);
        *self = outer;
    }

    /// Visits a method signature. It has a scope of its own.
    pub fn visit_ts_method_signature(
        &mut self,
        class: &mut ClassBindings,
        scopes: &mut ScopeTree,
        symbols: &mut SymbolTable,
        signature: &mut Scoped,
    )
        requires
            old(self).admits(
                state_of(*old(class), *old(scopes), *old(symbols)),
                1 + nodes_size(old(signature)@.children),
            ),
            scoped_in_range(
                old(signature)@,
                scope_parents(*old(scopes)).len(),
                reference_symbols(*old(symbols)).len(),
            ),
        ensures
            *final(self) == *old(self),
            (final(signature)@, state_of(*final(class), *final(scopes), *final(symbols)))
                == model::visit_type_scope(
                *old(self),
                state_of(*old(class), *old(scopes), *old(symbols)),
                old(signature)@,
            ),
        decreases nodes_size(old(signature)@.children), 5nat,
    {
        self.visit_type_scope(class, scopes, symbols, signature);
    }

    /// Visits a construct signature. It has a scope of its own.
    pub fn visit_ts_construct_signature_declaration(
        &mut self,
        class: &mut ClassBindings,
        scopes: &mut ScopeTree,
        symbols: &mut SymbolTable,
        signature: &mut Scoped,
    )
        requires
            old(self).admits(
                state_of(*old(class), *old(scopes), *old(symbols)),
                1 + nodes_size(old(signature)@.children),
            ),
            scoped_in_range(
                old(signature)@,
                scope_parents(*old(scopes)).len(),
                reference_symbols(*old(symbols)).len(),
            ),
        ensures
            *final(self) == *old(self),
            (final(signature)@, state_of(*final(class), *final(scopes), *final(symbols)))
                == model::visit_type_scope(
                *old(self),
                state_of(*old(class), *old(scopes), *old(symbols)),
                old(signature)@,
            ),
        decreases nodes_size(old(signature)@.children), 5nat,
    {
        self.visit_type_scope(class, scopes, symbols, signature);
    }

    /// Visits a mapped type. It has a scope of its own.
    pub fn visit_ts_mapped_type(
        &mut self,
        class: &mut ClassBindings,
        scopes: &mut ScopeTree,
        symbols: &mut SymbolTable,
        mapped: &mut Scoped,
    )
        requires
            old(self).admits(
                state_of(*old(class), *old(scopes), *old(symbols)),
                1 + nodes_size(old(mapped)@.children),
            ),
            scoped_in_range(
                old(mapped)@,
                scope_parents(*old(scopes)).len(),
                reference_symbols(*old(symbols)).len(),
            ),
        ensures
            *final(self) == *old(self),
            (final(mapped)@, state_of(*final(class), *final(scopes), *final(symbols)))
                == model::visit_type_scope(
                *old(self),
                state_of(*old(class), *old(scopes), *old(symbols)),
                old(mapped)@,
            ),
        decreases nodes_size(old(mapped)@.children), 5nat,
    {
        self.visit_type_scope(class, scopes, symbols, mapped);
    }

    /// Walks into a node for which `visit_expression` has no rule of its own:
    /// each part is visited by the rule for its kind.
    fn walk_expression(
        &mut self,
        class: &mut ClassBindings,
        scopes: &mut ScopeTree,
        symbols: &mut SymbolTable,
        expr: &mut Node,
    )
        requires
            old(self).admits(
                state_of(*old(class), *old(scopes), *old(symbols)),
                node_size(old(expr)@),
            ),
            node_in_range(
                old(expr)@,
                scope_parents(*old(scopes)).len(),
                reference_symbols(*old(symbols)).len(),
            ),
        ensures
            *final(self) == *old(self),
            (final(expr)@, state_of(*final(class), *final(scopes), *final(symbols)))
                == model::walk_expression(
                *old(self),
                state_of(*old(class), *old(scopes), *old(symbols)),
                old(expr)@,
            ),
        decreases node_size(old(expr)@), 0nat,
    {
        let ghost v = *self;
        let ghost s = state_of(*class, *scopes, *symbols);
        match expr {
            Node::ThisExpression(_) => {},
            Node::BooleanLiteral(_, _) => {},
            Node::Identifier(ident) => {
                self.visit_identifier_reference(class, symbols, ident);
            },
            Node::UnaryExpression(unary) => {
                self.visit_expression(class, scopes, symbols, &mut unary.argument);
            },
            Node::SuperMember(member) => {
                self.visit_nodes(class, scopes, symbols, &mut member.operands);
            },
            Node::Function(func) => {
                self.visit_function(class, scopes, symbols, func);
            },
            Node::ArrowFunctionExpression(func) => {
                self.visit_arrow_function_expression(class, scopes, symbols, func);
            },
            Node::Class(class_node) => {
                self.visit_class(class, scopes, symbols, class_node);
            },
            Node::StaticBlock(block) => {
                self.visit_static_block(class, scopes, symbols, block);
            },
            Node::TSModuleBlock(block) => {
                self.visit_ts_module_block(class, scopes, symbols, block);
            },
            Node::PropertyDefinition(prop) => {
                self.visit_property_definition(class, scopes, symbols, prop);
            },
            Node::AccessorProperty(prop) => {
                self.visit_accessor_property(class, scopes, symbols, prop);
            },
            Node::TSConditionalType(conditional) => {
                self.visit_ts_conditional_type(class, scopes, symbols, conditional);
            },
            Node::TSMethodSignature(signature) => {
                self.visit_ts_method_signature(class, scopes, symbols, signature);
            },
            Node::TSConstructSignatureDeclaration(signature) => {
                self.visit_ts_construct_signature_declaration(class, scopes, symbols, signature);
            },
            Node::TSMappedType(mapped) => {
                self.visit_ts_mapped_type(class, scopes, symbols, mapped);
            },
            Node::Block(block) => {
                self.walk_scoped(class, scopes, symbols, block);
            },
            Node::Other(children) => {
                self.visit_nodes(class, scopes, symbols, children);
            },
        }
    }

    /// Visits `expr` and everything below it: `this`, `delete this` and
    /// expressions through `super` are rewritten where `this` is the class's own,
    /// and what is left is walked.
    pub fn visit_expression(
        &mut self,
        class: &mut ClassBindings,
        scopes: &mut ScopeTree,
        symbols: &mut SymbolTable,
        expr: &mut Node,
    )
        requires
            old(self).admits(
                state_of(*old(class), *old(scopes), *old(symbols)),
                node_size(old(expr)@),
            ),
            node_in_range(
                old(expr)@,
                scope_parents(*old(scopes)).len(),
                reference_symbols(*old(symbols)).len(),
            ),
        ensures
            *final(self) == *old(self),
            (final(expr)@, state_of(*final(class), *final(scopes), *final(symbols)))
                == model::visit_expression(
                *old(self),
                state_of(*old(class), *old(scopes), *old(symbols)),
                old(expr)@,
            ),
        decreases node_size(old(expr)@), 1nat,
    {
        let ghost v = *self;
        let ghost s = state_of(*class, *scopes, *symbols);
        match expr {
            Node::ThisExpression(span) => {
                let span = *span;
                self.replace_this_with_temp_var(class, symbols, expr, span);
                return ;
            },
            Node::UnaryExpression(unary) => {
                assert(unary.argument@ is ThisExpression <==> unary.argument is ThisExpression);
                if unary.operator == UnaryOperator::Delete && matches!(
                    unary.argument,
                    Node::ThisExpression(_)
                ) {
                    let span = unary.span;
                    self.replace_delete_this_with_true(expr, span);
                    return ;
                }
            },
            Node::SuperMember(member) => {
                match member.form {
                    SuperForm::StaticMember => {
                        self.transform_static_member_expression_if_super(class, symbols, member);
                    },
                    SuperForm::ComputedMember => {
                        self.transform_computed_member_expression_if_super(class, symbols, member);
                    },
                    SuperForm::Call => {
                        self.transform_call_expression_if_super_member_expression(
                            class,
                            symbols,
                            member,
                        );
                    },
                    SuperForm::Assignment => {
                        self.transform_assignment_expression_if_super_member_assignment_target(
                            class,
                            symbols,
                            member,
                        );
                    },
                    SuperForm::Update => {
                        self.transform_update_expression_if_super_member_assignment_target(
                            class,
                            symbols,
                            member,
                        );
                    },
                }
                proof {
                    lemma_transform_if_super(v, s.names, old(expr)@->SuperMember_0);
                }
            },
            _ => {},
        }
        assert(model::walk_expression(v, state_of(*class, *scopes, *symbols), expr@)
            == model::visit_expression(v, s, old(expr)@));
        self.walk_expression(class, scopes, symbols, expr);
    }
}

impl ClassBindings {
    /// Rewrites the static property initializer `value` of this class for its
    /// move into the scope `current_scope_id`: one walk of a visitor made for it.
    pub fn transform_static_initializer(
        &mut self,
        scopes: &mut ScopeTree,
        symbols: &mut SymbolTable,
        current_scope_id: usize,
        value: &mut Node,
    )
        requires
            can_transform(
                state_of(*old(self), *old(scopes), *old(symbols)),
                current_scope_id,
                old(value)@,
            ),
        ensures
            (final(value)@, state_of(*final(self), *final(scopes), *final(symbols)))
                == model::transform_static_initializer(
                state_of(*old(self), *old(scopes), *old(symbols)),
                current_scope_id,
                old(value)@,
            ),
    {
        let mut replacer = StaticInitializerVisitor::new(self, scopes, current_scope_id);
        replacer.visit_expression(self, scopes, symbols, value);
    }
}

} // verus!
