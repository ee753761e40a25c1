//! What the rewrite computes, as mathematics: the state that it reads and
//! changes, and for each kind of node the rewritten node and the state after it.

use vstd::prelude::*;
use oxc_semantic::{ScopeTree, SymbolTable};
use crate::ast::{
    BoundIdentifierView, ClassPropertyView, FunctionView, IdentifierReferenceView, NodeView,
    ScopedView, Span, SuperForm, SuperMemberView, TSConditionalTypeView, TSModuleBlockView,
    UnaryExpressionView, UnaryOperator,
};
use crate::bindings::{ClassBindings, ClassBindingsView};
use crate::scope_tree::{is_strict, scope_flags, scope_parents, without_strict};
use crate::symbol_table::{
    first_index, reference_symbols, resolved_references, swap_removed, symbol_declarations,
    SymbolDeclaration, FUNCTION_SCOPED_VARIABLE, MAX_INDEX,
};
use crate::visitor::StaticInitializerVisitor;

verus! {

/// What names resolve to: the bindings of the class, and what the rewrite reads
/// and changes of the symbol table.
pub struct Names {
    /// The bindings of the class.
    pub bindings: ClassBindingsView,
    /// How each symbol was declared.
    pub declarations: Seq<SymbolDeclaration>,
    /// The symbol that each reference resolves to.
    pub reference_symbols: Seq<Option<usize>>,
    /// The references that each symbol lists.
    pub resolved_references: Seq<Seq<usize>>,
}

/// What the rewrite reads and changes of the scope tree.
pub struct Scopes {
    /// The parent of each scope.
    pub parents: Seq<Option<usize>>,
    /// The flag bits of each scope.
    pub flags: Seq<u16>,
}

/// Everything outside the tree that the rewrite reads or changes.
pub struct State {
    pub names: Names,
    pub scopes: Scopes,
}

/// What the class's bindings and the symbol table hold between them.
pub open spec fn names_of(class: ClassBindings, symbols: SymbolTable) -> Names {
    Names {
        bindings: class@,
        declarations: symbol_declarations(symbols),
        reference_symbols: reference_symbols(symbols),
        resolved_references: resolved_references(symbols),
    }
}

/// What the scope tree holds.
pub open spec fn scopes_of(scopes: ScopeTree) -> Scopes {
    Scopes { parents: scope_parents(scopes), flags: scope_flags(scopes) }
}

/// The state that the class's bindings and the two tables hold between them.
pub open spec fn state_of(class: ClassBindings, scopes: ScopeTree, symbols: SymbolTable) -> State {
    State { names: names_of(class, symbols), scopes: scopes_of(scopes) }
}

impl Names {
    /// The temporary binding can be had: it exists, or the table can take its
    /// symbol.
    pub open spec fn can_create_binding(self) -> bool {
        self.bindings.temp is None ==> {
            &&& self.resolved_references.len() < MAX_INDEX
            &&& self.bindings.outer_hoist_scope_id < MAX_INDEX
        }
    }

    /// A read of the temporary binding can be made: the binding can be had, its
    /// symbol is one of the table, and the table can take one more reference.
    pub open spec fn can_read_binding(self) -> bool {
        &&& self.can_create_binding()
        &&& (self.bindings.temp matches Some(temp) ==> temp.symbol_id
            < self.resolved_references.len())
        &&& self.reference_symbols.len() < MAX_INDEX
    }

    /// The reference can move from the class name to the temporary binding: the
    /// binding can be had, both symbols are symbols of the table, and the name's
    /// symbol lists the reference.
    pub open spec fn can_move_reference(self, reference_id: usize) -> bool {
        &&& self.can_create_binding()
        &&& (self.bindings.temp matches Some(temp) ==> temp.symbol_id
            < self.resolved_references.len())
        &&& (self.bindings.name matches Some(name) ==> {
            &&& name.symbol_id < self.resolved_references.len()
            &&& self.resolved_references[name.symbol_id as int].contains(reference_id)
        })
    }

    /// The names once the temporary binding exists: as they are where the
    /// binding exists already; else with one more symbol, which lists no
    /// reference yet and which the temporary binding names. The symbol is
    /// declared under the binding's name, as a function-scoped variable of the
    /// scope that the binding is hoisted to.
    pub open spec fn with_static_binding(self) -> Names {
        if self.bindings.temp is Some {
            self
        } else {
            Names {
                bindings: ClassBindingsView {
                    temp: Some(
                        BoundIdentifierView {
                            name: self.bindings.temp_name,
                            symbol_id: self.resolved_references.len() as usize,
                        },
                    ),
                    ..self.bindings
                },
                declarations: self.declarations.push(
                    SymbolDeclaration {
                        name: self.bindings.temp_name,
                        scope_id: self.bindings.outer_hoist_scope_id,
                        flags: FUNCTION_SCOPED_VARIABLE,
                    },
                ),
                resolved_references: self.resolved_references.push(Seq::empty()),
                ..self
            }
        }
    }

    /// The temporary binding, as every rewrite from here on sees it.
    pub open spec fn static_binding(self) -> BoundIdentifierView {
        self.with_static_binding().bindings.temp->0
    }

    /// The names with one more reference, which resolves to `symbol_id` and is
    /// listed last by it.
    pub open spec fn with_read_reference(self, symbol_id: usize) -> Names {
        Names {
            reference_symbols: self.reference_symbols.push(Some(symbol_id)),
            resolved_references: self.resolved_references.update(
                symbol_id as int,
                self.resolved_references[symbol_id as int].push(
                    self.reference_symbols.len() as usize,
                ),
            ),
            ..self
        }
    }

    /// The names after `reference_id` moved from the symbol `from` to the symbol
    /// `to`: it resolves to `to`, its first entry in the list of `from` gave way
    /// to that list's last entry, and `to` lists it last.
    pub open spec fn with_reference_moved(
        self,
        reference_id: usize,
        from: usize,
        to: usize,
    ) -> Names {
        let removed = self.resolved_references.update(
            from as int,
            swap_removed(
                self.resolved_references[from as int],
                first_index(self.resolved_references[from as int], reference_id),
            ),
        );
        Names {
            reference_symbols: self.reference_symbols.update(reference_id as int, Some(to)),
            resolved_references: removed.update(to as int, removed[to as int].push(reference_id)),
            ..self
        }
    }
}

impl Scopes {
    /// The scopes with `parent_id` as the parent of `scope_id`.
    pub open spec fn with_parent(self, scope_id: usize, parent_id: usize) -> Scopes {
        Scopes { parents: self.parents.update(scope_id as int, Some(parent_id)), ..self }
    }

    /// The scopes with the strict mode bit of `scope_id` cleared.
    pub open spec fn without_strict_mode(self, scope_id: usize) -> Scopes {
        Scopes {
            flags: self.flags.update(scope_id as int, without_strict(self.flags[scope_id as int])),
            ..self
        }
    }
}

impl State {
    /// The state with other names.
    pub open spec fn with_names(self, names: Names) -> State {
        State { names, ..self }
    }

    /// The state with other scopes.
    pub open spec fn with_scopes(self, scopes: Scopes) -> State {
        State { scopes, ..self }
    }

    /// The state after `scope_id` was entered.
    pub open spec fn entered(self, v: StaticInitializerVisitor, scope_id: usize) -> State {
        self.with_scopes(enter_scope(v, self.scopes, scope_id))
    }

    /// The state after `scope_id` was given its new parent, if it is a
    /// first-level scope.
    pub open spec fn reparented(self, v: StaticInitializerVisitor, scope_id: usize) -> State {
        self.with_scopes(reparent_scope_if_first_level(v, self.scopes, scope_id))
    }
}

/// The visitor one level further inside constructs that have a `this` of their
/// own.
pub open spec fn inside_this(v: StaticInitializerVisitor) -> StaticInitializerVisitor {
    StaticInitializerVisitor { this_depth: (v.this_depth + 1) as u32, ..v }
}

/// The visitor one level further inside scopes.
pub open spec fn inside_scope(v: StaticInitializerVisitor) -> StaticInitializerVisitor {
    StaticInitializerVisitor { scope_depth: (v.scope_depth + 1) as u32, ..v }
}

/// The visitor inside a construct that may declare strict mode itself: it stops
/// clearing strict mode flags where the construct does.
pub open spec fn inside_directives(
    v: StaticInitializerVisitor,
    has_use_strict_directive: bool,
) -> StaticInitializerVisitor {
    StaticInitializerVisitor {
        make_sloppy_mode: v.make_sloppy_mode && !has_use_strict_directive,
        ..v
    }
}

/// The visitor at the start of the walk over an initializer that moves into the
/// scope `current_scope_id`.
pub open spec fn new_visitor(
    bindings: ClassBindingsView,
    scopes: Scopes,
    current_scope_id: usize,
) -> StaticInitializerVisitor {
    let make_sloppy_mode = !is_strict(scopes.flags[current_scope_id as int]);
    StaticInitializerVisitor {
        walk_deep: make_sloppy_mode || bindings.name is Some,
        make_sloppy_mode,
        this_depth: 0,
        scope_depth: 0,
        current_scope_id,
    }
}

pub open spec fn enter_scope(
    v: StaticInitializerVisitor,
    scopes: Scopes,
    scope_id: usize,
) -> Scopes {
    if v.make_sloppy_mode {
        scopes.without_strict_mode(scope_id)
    } else {
        scopes
    }
}

pub open spec fn reparent_scope_if_first_level(
    v: StaticInitializerVisitor,
    scopes: Scopes,
    scope_id: usize,
) -> Scopes {
    if v.scope_depth == 0 {
        scopes.with_parent(scope_id, v.current_scope_id)
    } else {
        scopes
    }
}

/// The visitor inside a function and the scopes after the function was met:
/// the function's own directive counts, its scope is re-parented if it is a
/// first-level scope, and where the walk goes deep the visitor is one level
/// further inside both a `this` and a scope.
pub open spec fn enter_function(
    v: StaticInitializerVisitor,
    scopes: Scopes,
    scope_id: usize,
    has_use_strict_directive: bool,
) -> (StaticInitializerVisitor, Scopes) {
    let inner = inside_directives(v, has_use_strict_directive);
    (
        if v.walk_deep {
            inside_scope(inside_this(inner))
        } else {
            inner
        },
        reparent_scope_if_first_level(inner, scopes, scope_id),
    )
}

/// The visitor inside an arrow function and the scopes after the arrow function
/// was met: as for a function, but `this` stays what it was, and the walk goes
/// in whether it goes deep or not.
pub open spec fn enter_arrow_function_expression(
    v: StaticInitializerVisitor,
    scopes: Scopes,
    scope_id: usize,
    has_use_strict_directive: bool,
) -> (StaticInitializerVisitor, Scopes) {
    let inner = inside_directives(v, has_use_strict_directive);
    (inside_scope(inner), reparent_scope_if_first_level(inner, scopes, scope_id))
}

/// The visitor inside a class and the scopes after the class was met: a class
/// is strict throughout and has a scope of its own.
pub open spec fn enter_class(v: StaticInitializerVisitor, scopes: Scopes, scope_id: usize) -> (
    StaticInitializerVisitor,
    Scopes,
) {
    let inner = inside_directives(v, true);
    (inside_scope(inner), reparent_scope_if_first_level(inner, scopes, scope_id))
}

/// The visitor inside a static block: the block has a `this` of its own.
pub open spec fn enter_static_block(v: StaticInitializerVisitor) -> StaticInitializerVisitor {
    inside_this(v)
}

/// The visitor inside the body of an ambient namespace: the body's own
/// directive counts, and where the walk goes deep the body has a `this` of its
/// own.
pub open spec fn enter_ts_module_block(
    v: StaticInitializerVisitor,
    has_use_strict_directive: bool,
) -> StaticInitializerVisitor {
    let inner = inside_directives(v, has_use_strict_directive);
    if v.walk_deep {
        inside_this(inner)
    } else {
        inner
    }
}

/// The visitor inside the value of a property of a class: the value has a `this`
/// of its own.
pub open spec fn enter_property_value(v: StaticInitializerVisitor) -> StaticInitializerVisitor {
    inside_this(v)
}

/// The visitor inside the scope of a conditional type, and the scopes after
/// that scope was entered.
pub open spec fn enter_ts_conditional_type_scope(
    v: StaticInitializerVisitor,
    scopes: Scopes,
    scope_id: usize,
) -> (StaticInitializerVisitor, Scopes) {
    (inside_scope(v), enter_scope(v, scopes, scope_id))
}

/// The visitor inside a method signature, a construct signature or a mapped
/// type, and the scopes after it was met: it has a scope of its own.
pub open spec fn enter_type_scope(v: StaticInitializerVisitor, scopes: Scopes, scope_id: usize) -> (
    StaticInitializerVisitor,
    Scopes,
) {
    (inside_scope(v), reparent_scope_if_first_level(v, scopes, scope_id))
}

/// A read of the binding at `span`, through a reference made for it.
pub open spec fn create_spanned_read_expression(
    binding: BoundIdentifierView,
    span: Span,
    names: Names,
) -> (NodeView, Names) {
    (
        NodeView::Identifier(
            IdentifierReferenceView {
                span,
                name: binding.name,
                reference_id: names.reference_symbols.len() as usize,
            },
        ),
        names.with_read_reference(binding.symbol_id),
    )
}

pub open spec fn replace_this_with_temp_var(
    v: StaticInitializerVisitor,
    names: Names,
    e: NodeView,
    span: Span,
) -> (NodeView, Names) {
    if v.this_depth == 0 {
        create_spanned_read_expression(names.static_binding(), span, names.with_static_binding())
    } else {
        (e, names)
    }
}

pub open spec fn replace_delete_this_with_true(
    v: StaticInitializerVisitor,
    e: NodeView,
    span: Span,
) -> NodeView {
    if v.this_depth == 0 {
        NodeView::BooleanLiteral(span, true)
    } else {
        e
    }
}

/// Whether the identifier refers to the class by its name.
pub open spec fn is_class_name_reference(names: Names, ident: IdentifierReferenceView) -> bool {
    names.bindings.name matches Some(name) && names.reference_symbols[ident.reference_id as int]
        == Some(name.symbol_id)
}

pub open spec fn replace_class_name_with_temp_var(names: Names, ident: IdentifierReferenceView) -> (
    IdentifierReferenceView,
    Names,
) {
    if is_class_name_reference(names, ident) {
        (
            IdentifierReferenceView { name: names.static_binding().name, ..ident },
            names.with_static_binding().with_reference_moved(
                ident.reference_id,
                names.bindings.name->0.symbol_id,
                names.static_binding().symbol_id,
            ),
        )
    } else {
        (ident, names)
    }
}

/// What the class transform makes of an expression through `super` of the given
/// form: where the expression has that form and still says `super`, it now goes
/// through the temporary binding.
pub open spec fn transform_super_member(names: Names, form: SuperForm, member: SuperMemberView) -> (
    SuperMemberView,
    Names,
) {
    if member.form == form && member.class is None {
        (
            SuperMemberView { class: Some(names.static_binding()), ..member },
            names.with_static_binding(),
        )
    } else {
        (member, names)
    }
}

/// The expression after the visitor has looked at it for an expression through
/// `super` of the given form: handed to the class transform where `this` is
/// still the class's own.
pub open spec fn transform_if_super_of_form(
    v: StaticInitializerVisitor,
    names: Names,
    form: SuperForm,
    member: SuperMemberView,
) -> (SuperMemberView, Names) {
    if v.this_depth == 0 {
        transform_super_member(names, form, member)
    } else {
        (member, names)
    }
}

/// The expression through `super` after the visitor has looked at it for the
/// form that it has.
pub open spec fn transform_if_super(
    v: StaticInitializerVisitor,
    names: Names,
    member: SuperMemberView,
) -> (SuperMemberView, Names) {
    transform_if_super_of_form(v, names, member.form, member)
}

pub open spec fn is_delete_this(unary: UnaryExpressionView) -> bool {
    unary.operator == UnaryOperator::Delete && unary.argument is ThisExpression
}

pub open spec fn visit_nodes(v: StaticInitializerVisitor, s: State, nodes: Seq<NodeView>) -> (
    Seq<NodeView>,
    State,
)
    decreases nodes, 0nat,
{
    if nodes.len() == 0 {
        (nodes, s)
    } else {
        let (front, s1) = visit_nodes(v, s, nodes.drop_last());
        let (last, s2) = visit_expression(v, s1, nodes.last());
        (front.push(last), s2)
    }
}

/// The walk into a construct that owns a scope: the scope is entered, then the
/// parts are visited in order.
pub open spec fn walk_scoped(v: StaticInitializerVisitor, s: State, scoped: ScopedView) -> (
    ScopedView,
    State,
)
    decreases scoped, 0nat,
{
    let (children, s1) = visit_nodes(v, s.entered(v, scoped.scope_id), scoped.children);
    (ScopedView { children, ..scoped }, s1)
}

pub open spec fn walk_function(v: StaticInitializerVisitor, s: State, func: FunctionView) -> (
    FunctionView,
    State,
)
    decreases func, 0nat,
{
    let (children, s1) = visit_nodes(v, s.entered(v, func.scope_id), func.children);
    (FunctionView { children, ..func }, s1)
}

pub open spec fn visit_function(v: StaticInitializerVisitor, s: State, func: FunctionView) -> (
    FunctionView,
    State,
)
    decreases func, 1nat,
{
    let (inner, scopes) = enter_function(
        v,
        s.scopes,
        func.scope_id,
        func.has_use_strict_directive,
    );
    if v.walk_deep {
        walk_function(inner, s.with_scopes(scopes), func)
    } else {
        (func, s.with_scopes(scopes))
    }
}

pub open spec fn visit_arrow_function_expression(
    v: StaticInitializerVisitor,
    s: State,
    func: FunctionView,
) -> (FunctionView, State)
    decreases func, 1nat,
{
    let (inner, scopes) = enter_arrow_function_expression(
        v,
        s.scopes,
        func.scope_id,
        func.has_use_strict_directive,
    );
    walk_function(inner, s.with_scopes(scopes), func)
}

pub open spec fn visit_class(v: StaticInitializerVisitor, s: State, class: ScopedView) -> (
    ScopedView,
    State,
)
    decreases class, 1nat,
{
    let (inner, scopes) = enter_class(v, s.scopes, class.scope_id);
    walk_scoped(inner, s.with_scopes(scopes), class)
}

pub open spec fn visit_static_block(v: StaticInitializerVisitor, s: State, block: ScopedView) -> (
    ScopedView,
    State,
)
    decreases block, 1nat,
{
    walk_scoped(enter_static_block(v), s, block)
}

pub open spec fn visit_ts_module_block(
    v: StaticInitializerVisitor,
    s: State,
    block: TSModuleBlockView,
) -> (TSModuleBlockView, State)
    decreases block, 1nat,
{
    if v.walk_deep {
        let inner = enter_ts_module_block(v, block.has_use_strict_directive);
        let (body, s1) = visit_nodes(inner, s, block.body);
        (TSModuleBlockView { body, ..block }, s1)
    } else {
        (block, s)
    }
}

/// The visit of a property or an accessor property of a class: the decorators
/// and a computed key see the `this` of the class around them, the value has a
/// `this` of its own.
pub open spec fn visit_property_definition(
    v: StaticInitializerVisitor,
    s: State,
    prop: ClassPropertyView,
) -> (ClassPropertyView, State)
    decreases prop, 1nat,
{
    let (decorators, s1) = visit_nodes(v, s, prop.decorators);
    let (key, s2) = if prop.computed {
        visit_expression(v, s1, prop.key)
    } else {
        (prop.key, s1)
    };
    match prop.value {
        Some(value) => {
            let (value1, s3) = visit_expression(enter_property_value(v), s2, value);
            (ClassPropertyView { decorators, key, value: Some(value1), ..prop }, s3)
        },
        None => (ClassPropertyView { decorators, key, ..prop }, s2),
    }
}

pub open spec fn visit_ts_conditional_type(
    v: StaticInitializerVisitor,
    s: State,
    conditional: TSConditionalTypeView,
) -> (TSConditionalTypeView, State)
    decreases conditional, 1nat,
{
    let s1 = s.reparented(v, conditional.scope_id);
    let (check_type, s2) = visit_expression(v, s1, conditional.check_type);
    let (inner, scopes) = enter_ts_conditional_type_scope(v, s2.scopes, conditional.scope_id);
    let s3 = s2.with_scopes(scopes);
    let (extends_type, s4) = visit_expression(inner, s3, conditional.extends_type);
    let (true_type, s5) = visit_expression(inner, s4, conditional.true_type);
    let (false_type, s6) = visit_expression(v, s5, conditional.false_type);
    (TSConditionalTypeView { check_type, extends_type, true_type, false_type, ..conditional }, s6)
}

/// The visit of a method signature, a construct signature or a mapped type.
pub open spec fn visit_type_scope(v: StaticInitializerVisitor, s: State, scoped: ScopedView) -> (
    ScopedView,
    State,
)
    decreases scoped, 1nat,
{
    let (inner, scopes) = enter_type_scope(v, s.scopes, scoped.scope_id);
    walk_scoped(inner, s.with_scopes(scopes), scoped)
}

/// The walk into a node that the visitor has no rule of its own for at this
/// point: each part is visited by the rule for its kind.
pub open spec fn walk_expression(v: StaticInitializerVisitor, s: State, e: NodeView) -> (
    NodeView,
    State,
)
    decreases e, 0nat,
{
    match e {
        NodeView::ThisExpression(_) => (e, s),
        NodeView::BooleanLiteral(_, _) => (e, s),
        NodeView::Identifier(ident) => {
            let (ident1, names) = replace_class_name_with_temp_var(s.names, ident);
            (NodeView::Identifier(ident1), s.with_names(names))
        },
        NodeView::UnaryExpression(unary) => {
            let (argument, s1) = visit_expression(v, s, unary.argument);
            (NodeView::UnaryExpression(Box::new(UnaryExpressionView { argument, ..*unary })), s1)
        },
        NodeView::SuperMember(member) => {
            let (operands, s1) = visit_nodes(v, s, member.operands);
            (NodeView::SuperMember(SuperMemberView { operands, ..member }), s1)
        },
        NodeView::Function(func) => {
            let (func1, s1) = visit_function(v, s, func);
            (NodeView::Function(func1), s1)
        },
        NodeView::ArrowFunctionExpression(func) => {
            let (func1, s1) = visit_arrow_function_expression(v, s, func);
            (NodeView::ArrowFunctionExpression(func1), s1)
        },
        NodeView::Class(class) => {
            let (class1, s1) = visit_class(v, s, class);
            (NodeView::Class(class1), s1)
        },
        NodeView::StaticBlock(block) => {
            let (block1, s1) = visit_static_block(v, s, block);
            (NodeView::StaticBlock(block1), s1)
        },
        NodeView::TSModuleBlock(block) => {
            let (block1, s1) = visit_ts_module_block(v, s, block);
            (NodeView::TSModuleBlock(block1), s1)
        },
        NodeView::PropertyDefinition(prop) => {
            let (prop1, s1) = visit_property_definition(v, s, *prop);
            (NodeView::PropertyDefinition(Box::new(prop1)), s1)
        },
        NodeView::AccessorProperty(prop) => {
            let (prop1, s1) = visit_property_definition(v, s, *prop);
            (NodeView::AccessorProperty(Box::new(prop1)), s1)
        },
        NodeView::TSConditionalType(conditional) => {
            let (conditional1, s1) = visit_ts_conditional_type(v, s, *conditional);
            (NodeView::TSConditionalType(Box::new(conditional1)), s1)
        },
        NodeView::TSMethodSignature(signature) => {
            let (signature1, s1) = visit_type_scope(v, s, signature);
            (NodeView::TSMethodSignature(signature1), s1)
        },
        NodeView::TSConstructSignatureDeclaration(signature) => {
            let (signature1, s1) = visit_type_scope(v, s, signature);
            (NodeView::TSConstructSignatureDeclaration(signature1), s1)
        },
        NodeView::TSMappedType(mapped) => {
            let (mapped1, s1) = visit_type_scope(v, s, mapped);
            (NodeView::TSMappedType(mapped1), s1)
        },
        NodeView::Block(block) => {
            let (block1, s1) = walk_scoped(v, s, block);
            (NodeView::Block(block1), s1)
        },
        NodeView::Other(children) => {
            let (children1, s1) = visit_nodes(v, s, children);
            (NodeView::Other(children1), s1)
        },
    }
}

/// The rewritten node and the state after the visit of `e`.
pub open spec fn visit_expression(v: StaticInitializerVisitor, s: State, e: NodeView) -> (
    NodeView,
    State,
)
    decreases e, 1nat,
{
    match e {
        NodeView::ThisExpression(span) => {
            let (read, names) = replace_this_with_temp_var(v, s.names, e, span);
            (read, s.with_names(names))
        },
        NodeView::UnaryExpression(unary) if is_delete_this(*unary) => (
            replace_delete_this_with_true(v, e, unary.span),
            s,
        ),
        NodeView::SuperMember(member) => {
            let (member1, names) = transform_if_super(v, s.names, member);
            let (operands, s2) = visit_nodes(v, s.with_names(names), member.operands);
            (NodeView::SuperMember(SuperMemberView { operands, ..member1 }), s2)
        },
        _ => walk_expression(v, s, e),
    }
}

/// The rewritten initializer and the state after its rewrite, for an initializer
/// `e` that moves into the scope `current_scope_id`.
pub open spec fn transform_static_initializer(s: State, current_scope_id: usize, e: NodeView) -> (
    NodeView,
    State,
) {
    visit_expression(new_visitor(s.names.bindings, s.scopes, current_scope_id), s, e)
}

} // verus!
