use oxc_index::Idx;
use oxc_semantic::{ScopeTree, SymbolTable};
use oxc_span::SPAN;
use oxc_syntax::node::NodeId;
use oxc_syntax::reference::{Reference, ReferenceFlags, ReferenceId};
use oxc_syntax::scope::{ScopeFlags, ScopeId};
use oxc_syntax::symbol::{SymbolFlags, SymbolId};
use static_prop_init::ast::{
    BoundIdentifier, ClassProperty, Function, IdentifierReference, Node, Scoped, Span, SuperForm,
    SuperMember, TSConditionalType, TSModuleBlock, UnaryExpression, UnaryOperator,
};
use static_prop_init::bindings::ClassBindings;
use static_prop_init::visitor::StaticInitializerVisitor;

/// A program scope (strict or not) with the scope of class `C` in it.
fn program_and_class(strict: bool) -> ScopeTree {
    let mut scopes = ScopeTree::default();
    let top = if strict { ScopeFlags::Top | ScopeFlags::StrictMode } else { ScopeFlags::Top };
    let program = scopes.add_scope(None, NodeId::DUMMY, top);
    scopes.add_scope(Some(program), NodeId::DUMMY, ScopeFlags::StrictMode);
    scopes
}

fn add_function_scope(scopes: &mut ScopeTree, parent: usize, flags: ScopeFlags) -> usize {
    scopes.add_scope(Some(ScopeId::from_usize(parent)), NodeId::DUMMY, flags).index()
}

/// A table with the symbol of class `C` (symbol 0) and `count` references to it.
fn class_symbol_with_references(count: usize) -> SymbolTable {
    let mut symbols = SymbolTable::default();
    let class =
        symbols.create_symbol(SPAN, "C", SymbolFlags::Class, ScopeId::new(0), NodeId::DUMMY);
    for _ in 0..count {
        let reference = symbols.create_reference(Reference::new_with_symbol_id(
            NodeId::DUMMY,
            class,
            ReferenceFlags::read(),
        ));
        symbols.add_resolved_reference(class, reference);
    }
    symbols
}

fn named_class() -> ClassBindings {
    ClassBindings::new(Some(BoundIdentifier::new("C".to_string(), 0)), "_C".to_string(), 0)
}

fn unnamed_class() -> ClassBindings {
    ClassBindings::new(None, "_Class".to_string(), 0)
}

fn span(start: u32, end: u32) -> Span {
    Span { start, end }
}

fn this_at(start: u32) -> Node {
    Node::ThisExpression(span(start, start + 4))
}

fn class_name(reference_id: usize) -> Node {
    Node::Identifier(IdentifierReference {
        span: span(0, 1),
        name: "C".to_string(),
        reference_id,
    })
}

fn resolved(symbols: &SymbolTable, symbol_id: usize) -> Vec<usize> {
    symbols
        .get_resolved_reference_ids(SymbolId::from_usize(symbol_id))
        .iter()
        .map(|id| id.index())
        .collect()
}

fn symbol_of(symbols: &SymbolTable, reference_id: usize) -> Option<usize> {
    symbols.get_reference(ReferenceId::from_usize(reference_id)).symbol_id().map(|id| id.index())
}

fn read_of_temp(start: u32, name: &str, reference_id: usize) -> Node {
    Node::Identifier(IdentifierReference {
        span: span(start, start + 4),
        name: name.to_string(),
        reference_id,
    })
}

fn function(scope_id: usize, use_strict: bool, children: Vec<Node>) -> Function {
    Function { scope_id, has_use_strict_directive: use_strict, children }
}

fn flags_of(scopes: &ScopeTree, scope_id: usize) -> ScopeFlags {
    scopes.get_flags(ScopeId::from_usize(scope_id))
}

fn parent_of(scopes: &ScopeTree, scope_id: usize) -> Option<usize> {
    scopes.get_parent_id(ScopeId::from_usize(scope_id)).map(|id| id.index())
}

const STRICT_FUNCTION: ScopeFlags = ScopeFlags::Function.union(ScopeFlags::StrictMode);

#[test]
fn visitor_starts_from_the_scope_it_moves_into() {
    let scopes = program_and_class(true);
    let visitor = StaticInitializerVisitor::new(&named_class(), &scopes, 0);
    assert_eq!(
        visitor,
        StaticInitializerVisitor {
            walk_deep: true,
            make_sloppy_mode: false,
            this_depth: 0,
            scope_depth: 0,
            current_scope_id: 0,
        }
    );
    let visitor = StaticInitializerVisitor::new(&unnamed_class(), &scopes, 1);
    assert_eq!(
        visitor,
        StaticInitializerVisitor {
            walk_deep: false,
            make_sloppy_mode: false,
            this_depth: 0,
            scope_depth: 0,
            current_scope_id: 1,
        }
    );
    let sloppy = program_and_class(false);
    let visitor = StaticInitializerVisitor::new(&unnamed_class(), &sloppy, 0);
    assert!(visitor.walk_deep);
    assert!(visitor.make_sloppy_mode);
    let visitor = StaticInitializerVisitor::new(&unnamed_class(), &sloppy, 1);
    assert!(!visitor.walk_deep);
    assert!(!visitor.make_sloppy_mode);
}

fn visitor(walk_deep: bool, make_sloppy_mode: bool, this_depth: u32, scope_depth: u32) -> StaticInitializerVisitor {
    StaticInitializerVisitor { walk_deep, make_sloppy_mode, this_depth, scope_depth, current_scope_id: 0 }
}

#[test]
fn enter_scope_clears_only_the_strict_bit() {
    let mut scopes = program_and_class(true);
    let scope = add_function_scope(&mut scopes, 1, STRICT_FUNCTION | ScopeFlags::Constructor);
    visitor(true, false, 0, 0).enter_scope(&mut scopes, scope);
    assert_eq!(flags_of(&scopes, scope), STRICT_FUNCTION | ScopeFlags::Constructor);
    visitor(true, true, 0, 0).enter_scope(&mut scopes, scope);
    assert_eq!(flags_of(&scopes, scope), ScopeFlags::Function | ScopeFlags::Constructor);
    visitor(true, true, 0, 0).enter_scope(&mut scopes, scope);
    assert_eq!(flags_of(&scopes, scope), ScopeFlags::Function | ScopeFlags::Constructor);
    assert_eq!(flags_of(&scopes, 0), ScopeFlags::Top | ScopeFlags::StrictMode);
    assert_eq!(parent_of(&scopes, scope), Some(1));
}

#[test]
fn reparent_touches_first_level_scopes_only() {
    let mut scopes = program_and_class(true);
    let scope = add_function_scope(&mut scopes, 1, STRICT_FUNCTION);
    visitor(true, false, 0, 1).reparent_scope_if_first_level(&mut scopes, scope);
    assert_eq!(parent_of(&scopes, scope), Some(1));
    visitor(true, false, 3, 0).reparent_scope_if_first_level(&mut scopes, scope);
    assert_eq!(parent_of(&scopes, scope), Some(0));
    assert_eq!(parent_of(&scopes, 1), Some(0));
    assert_eq!(parent_of(&scopes, 0), None);
    assert_eq!(flags_of(&scopes, scope), STRICT_FUNCTION);
}

#[test]
fn replace_this_depends_on_this_depth() {
    let mut symbols = class_symbol_with_references(0);
    let mut class = named_class();
    let mut expr = this_at(3);
    visitor(true, false, 1, 0).replace_this_with_temp_var(&mut class, &mut symbols, &mut expr, span(3, 7));
    assert_eq!(expr, this_at(3));
    assert_eq!(class.temp, None);
    visitor(true, false, 0, 2).replace_this_with_temp_var(&mut class, &mut symbols, &mut expr, span(3, 7));
    assert_eq!(expr, read_of_temp(3, "_C", 0));
    assert_eq!(resolved(&symbols, 1), vec![0]);
}

#[test]
fn replace_delete_this_depends_on_this_depth() {
    let build = || {
        Node::UnaryExpression(Box::new(UnaryExpression {
            span: span(0, 11),
            operator: UnaryOperator::Delete,
            argument: this_at(7),
        }))
    };
    let mut expr = build();
    visitor(true, false, 2, 0).replace_delete_this_with_true(&mut expr, span(0, 11));
    assert_eq!(expr, build());
    visitor(true, false, 0, 0).replace_delete_this_with_true(&mut expr, span(0, 11));
    assert_eq!(expr, Node::BooleanLiteral(span(0, 11), true));
}

#[test]
fn other_unary_expressions_are_walked() {
    let mut scopes = program_and_class(true);
    let mut symbols = class_symbol_with_references(1);
    let mut class = named_class();
    let unary = |operator: UnaryOperator, argument: Node| {
        Node::UnaryExpression(Box::new(UnaryExpression { span: span(0, 9), operator, argument }))
    };
    let mut value = Node::Other(vec![
        unary(UnaryOperator::Typeof, this_at(7)),
        unary(UnaryOperator::Delete, class_name(0)),
        unary(UnaryOperator::Void, Node::BooleanLiteral(span(5, 9), false)),
    ]);
    class.transform_static_initializer(&mut scopes, &mut symbols, 0, &mut value);
    assert_eq!(
        value,
        Node::Other(vec![
            unary(UnaryOperator::Typeof, read_of_temp(7, "_C", 1)),
            unary(
                UnaryOperator::Delete,
                Node::Identifier(IdentifierReference {
                    span: span(0, 1),
                    name: "_C".to_string(),
                    reference_id: 0,
                })
            ),
            unary(UnaryOperator::Void, Node::BooleanLiteral(span(5, 9), false)),
        ])
    );
}

#[test]
fn identifier_of_another_symbol_is_left_alone() {
    let mut symbols = class_symbol_with_references(1);
    let unresolved =
        symbols.create_reference(Reference::new(NodeId::DUMMY, ReferenceFlags::read())).index();
    let mut class = named_class();
    let mut ident =
        IdentifierReference { span: span(0, 1), name: "x".to_string(), reference_id: unresolved };
    let mut walker = visitor(true, false, 4, 4);
    walker.visit_identifier_reference(&mut class, &mut symbols, &mut ident);
    assert_eq!(ident.name, "x");
    assert_eq!(class.temp, None);
    assert_eq!(symbol_of(&symbols, unresolved), None);
    // A reference to the class name is rewritten at any depth.
    let mut ident = IdentifierReference { span: span(0, 1), name: "C".to_string(), reference_id: 0 };
    walker.visit_identifier_reference(&mut class, &mut symbols, &mut ident);
    assert_eq!(ident.name, "_C");
    assert_eq!(symbol_of(&symbols, 0), Some(1));
    assert_eq!(walker, visitor(true, false, 4, 4));
    // Without a class name nothing is a reference to it.
    let mut symbols = class_symbol_with_references(1);
    let mut class = unnamed_class();
    let mut ident = IdentifierReference { span: span(0, 1), name: "C".to_string(), reference_id: 0 };
    visitor(true, false, 0, 0).replace_class_name_with_temp_var(&mut class, &mut symbols, &mut ident);
    assert_eq!(ident.name, "C");
    assert_eq!(symbol_of(&symbols, 0), Some(0));
}

#[test]
fn unnamed_class_in_strict_scope_stops_at_functions() {
    let mut scopes = program_and_class(true);
    let function_scope = add_function_scope(&mut scopes, 1, STRICT_FUNCTION);
    let arrow_scope = add_function_scope(&mut scopes, function_scope, STRICT_FUNCTION);
    let mut symbols = class_symbol_with_references(1);
    let mut class = unnamed_class();
    let build = |first: Node| {
        Node::Other(vec![
            first,
            Node::Function(function(
                function_scope,
                false,
                vec![
                    class_name(0),
                    Node::ArrowFunctionExpression(function(arrow_scope, false, vec![])),
                ],
            )),
        ])
    };
    let mut value = build(this_at(0));
    class.transform_static_initializer(&mut scopes, &mut symbols, 0, &mut value);
    assert_eq!(value, build(read_of_temp(0, "_Class", 1)));
    assert_eq!(parent_of(&scopes, function_scope), Some(0));
    assert_eq!(parent_of(&scopes, arrow_scope), Some(function_scope));
    assert_eq!(symbol_of(&symbols, 0), Some(0));
}

#[test]
fn function_with_use_strict_keeps_its_scopes_strict() {
    let mut scopes = program_and_class(false);
    let strict = add_function_scope(&mut scopes, 1, STRICT_FUNCTION);
    let inside = add_function_scope(&mut scopes, strict, ScopeFlags::StrictMode);
    let sloppy = add_function_scope(&mut scopes, 1, STRICT_FUNCTION);
    let mut symbols = class_symbol_with_references(0);
    let mut class = named_class();
    let mut value = Node::Other(vec![
        Node::Function(function(
            strict,
            true,
            vec![Node::Block(Scoped { scope_id: inside, children: vec![] })],
        )),
        Node::Function(function(sloppy, false, vec![])),
    ]);
    class.transform_static_initializer(&mut scopes, &mut symbols, 0, &mut value);
    assert_eq!(flags_of(&scopes, strict), STRICT_FUNCTION);
    assert_eq!(flags_of(&scopes, inside), ScopeFlags::StrictMode);
    assert_eq!(flags_of(&scopes, sloppy), ScopeFlags::Function);
    assert_eq!(parent_of(&scopes, strict), Some(0));
    assert_eq!(parent_of(&scopes, sloppy), Some(0));
}

#[test]
fn nested_class_stays_strict_and_shares_this_in_computed_keys() {
    let mut scopes = program_and_class(false);
    let inner_class = add_function_scope(&mut scopes, 1, ScopeFlags::StrictMode);
    let method = add_function_scope(&mut scopes, inner_class, STRICT_FUNCTION);
    let static_block = add_function_scope(
        &mut scopes,
        inner_class,
        ScopeFlags::ClassStaticBlock | ScopeFlags::StrictMode,
    );
    let mut symbols = class_symbol_with_references(2);
    let mut class = named_class();
    let property = |computed: bool, key: Node, value: Option<Node>| ClassProperty {
        decorators: vec![this_at(1)],
        computed,
        key,
        value,
    };
    // `static prop = class Inner { @this [this] = this; @this key = C; @this accessor [C]; static { this; } m() {} }`
    let mut value = Node::Class(Scoped {
        scope_id: inner_class,
        children: vec![
            Node::PropertyDefinition(Box::new(property(true, this_at(10), Some(this_at(20))))),
            Node::PropertyDefinition(Box::new(property(false, this_at(30), Some(class_name(0))))),
            Node::AccessorProperty(Box::new(property(true, class_name(1), None))),
            Node::StaticBlock(Scoped { scope_id: static_block, children: vec![this_at(50)] }),
            Node::Function(function(method, false, vec![])),
        ],
    });
    class.transform_static_initializer(&mut scopes, &mut symbols, 0, &mut value);
    let renamed = |reference_id: usize| {
        Node::Identifier(IdentifierReference {
            span: span(0, 1),
            name: "_C".to_string(),
            reference_id,
        })
    };
    let rewritten = |computed: bool, decorator: usize, key: Node, value: Option<Node>| ClassProperty {
        decorators: vec![read_of_temp(1, "_C", decorator)],
        computed,
        key,
        value,
    };
    assert_eq!(
        value,
        Node::Class(Scoped {
            scope_id: inner_class,
            children: vec![
                Node::PropertyDefinition(Box::new(rewritten(
                    true,
                    2,
                    read_of_temp(10, "_C", 3),
                    Some(this_at(20))
                ))),
                Node::PropertyDefinition(Box::new(rewritten(
                    false,
                    4,
                    this_at(30),
                    Some(renamed(0))
                ))),
                Node::AccessorProperty(Box::new(rewritten(true, 5, renamed(1), None))),
                Node::StaticBlock(Scoped { scope_id: static_block, children: vec![this_at(50)] }),
                Node::Function(function(method, false, vec![])),
            ],
        })
    );
    assert_eq!(parent_of(&scopes, inner_class), Some(0));
    assert_eq!(parent_of(&scopes, method), Some(inner_class));
    assert_eq!(parent_of(&scopes, static_block), Some(inner_class));
    assert_eq!(flags_of(&scopes, inner_class), ScopeFlags::StrictMode);
    assert_eq!(flags_of(&scopes, method), STRICT_FUNCTION);
    assert_eq!(
        flags_of(&scopes, static_block),
        ScopeFlags::ClassStaticBlock | ScopeFlags::StrictMode
    );
    assert_eq!(resolved(&symbols, 0), Vec::<usize>::new());
    assert_eq!(resolved(&symbols, 1), vec![2, 3, 4, 0, 5, 1]);
}

#[test]
fn static_block_has_a_this_of_its_own() {
    let mut scopes = program_and_class(false);
    let block_scope = add_function_scope(
        &mut scopes,
        1,
        ScopeFlags::ClassStaticBlock | ScopeFlags::StrictMode,
    );
    let mut symbols = class_symbol_with_references(0);
    let mut class = named_class();
    let mut block = Scoped { scope_id: block_scope, children: vec![this_at(0)] };
    let mut walker = visitor(true, true, 0, 1);
    walker.visit_static_block(&mut class, &mut scopes, &mut symbols, &mut block);
    assert_eq!(block, Scoped { scope_id: block_scope, children: vec![this_at(0)] });
    assert_eq!(walker, visitor(true, true, 0, 1));
    assert_eq!(flags_of(&scopes, block_scope), ScopeFlags::ClassStaticBlock);
    assert_eq!(parent_of(&scopes, block_scope), Some(1));
}

#[test]
fn namespace_body_is_walked_only_deep() {
    let mut scopes = program_and_class(false);
    let inside = add_function_scope(&mut scopes, 1, ScopeFlags::StrictMode);
    let mut symbols = class_symbol_with_references(1);
    let mut class = named_class();
    let build = |use_strict: bool, name: Node| TSModuleBlock {
        has_use_strict_directive: use_strict,
        body: vec![this_at(0), name, Node::Block(Scoped { scope_id: inside, children: vec![] })],
    };
    let renamed = Node::Identifier(IdentifierReference {
        span: span(0, 1),
        name: "_C".to_string(),
        reference_id: 0,
    });

    let mut block = build(false, class_name(0));
    let mut shallow = visitor(false, false, 0, 1);
    shallow.visit_ts_module_block(&mut class, &mut scopes, &mut symbols, &mut block);
    assert_eq!(block, build(false, class_name(0)));

    let mut block = build(true, class_name(0));
    let mut deep = visitor(true, true, 0, 1);
    deep.visit_ts_module_block(&mut class, &mut scopes, &mut symbols, &mut block);
    assert_eq!(block, build(true, renamed));
    assert_eq!(flags_of(&scopes, inside), ScopeFlags::StrictMode);
    assert_eq!(deep, visitor(true, true, 0, 1));

    let mut block = build(false, class_name(0));
    deep.visit_ts_module_block(&mut class, &mut scopes, &mut symbols, &mut block);
    assert_eq!(flags_of(&scopes, inside), ScopeFlags::empty());
    assert_eq!(parent_of(&scopes, inside), Some(1));
}

#[test]
fn conditional_type_scope_holds_two_of_its_types() {
    let mut scopes = program_and_class(false);
    let conditional = add_function_scope(&mut scopes, 1, ScopeFlags::StrictMode);
    let in_check = add_function_scope(&mut scopes, 1, ScopeFlags::StrictMode);
    let in_extends = add_function_scope(&mut scopes, conditional, ScopeFlags::StrictMode);
    let in_true = add_function_scope(&mut scopes, conditional, ScopeFlags::StrictMode);
    let in_false = add_function_scope(&mut scopes, 1, ScopeFlags::StrictMode);
    let mut symbols = class_symbol_with_references(0);
    let mut class = unnamed_class();
    let signature = |scope_id: usize| Node::TSMethodSignature(Scoped { scope_id, children: vec![] });
    let mut value = Node::TSConditionalType(Box::new(TSConditionalType {
        scope_id: conditional,
        check_type: signature(in_check),
        extends_type: signature(in_extends),
        true_type: signature(in_true),
        false_type: signature(in_false),
    }));
    class.transform_static_initializer(&mut scopes, &mut symbols, 0, &mut value);
    assert_eq!(parent_of(&scopes, conditional), Some(0));
    assert_eq!(parent_of(&scopes, in_check), Some(0));
    assert_eq!(parent_of(&scopes, in_extends), Some(conditional));
    assert_eq!(parent_of(&scopes, in_true), Some(conditional));
    assert_eq!(parent_of(&scopes, in_false), Some(0));
    for scope_id in [conditional, in_check, in_extends, in_true, in_false] {
        assert_eq!(flags_of(&scopes, scope_id), ScopeFlags::empty());
    }
}

#[test]
fn type_scopes_are_reparented_at_first_level() {
    let mut scopes = program_and_class(true);
    let method = add_function_scope(&mut scopes, 1, ScopeFlags::StrictMode);
    let construct = add_function_scope(&mut scopes, 1, ScopeFlags::StrictMode);
    let mapped = add_function_scope(&mut scopes, 1, ScopeFlags::StrictMode);
    let nested = add_function_scope(&mut scopes, mapped, ScopeFlags::StrictMode);
    let block = add_function_scope(&mut scopes, 1, ScopeFlags::StrictMode);
    let mut symbols = class_symbol_with_references(0);
    let mut class = named_class();
    let mut value = Node::Other(vec![
        Node::TSMethodSignature(Scoped { scope_id: method, children: vec![this_at(0)] }),
        Node::TSConstructSignatureDeclaration(Scoped { scope_id: construct, children: vec![] }),
        Node::TSMappedType(Scoped {
            scope_id: mapped,
            children: vec![Node::TSMappedType(Scoped { scope_id: nested, children: vec![] })],
        }),
        Node::Block(Scoped { scope_id: block, children: vec![] }),
    ]);
    class.transform_static_initializer(&mut scopes, &mut symbols, 0, &mut value);
    assert_eq!(parent_of(&scopes, method), Some(0));
    assert_eq!(parent_of(&scopes, construct), Some(0));
    assert_eq!(parent_of(&scopes, mapped), Some(0));
    assert_eq!(parent_of(&scopes, nested), Some(mapped));
    assert_eq!(parent_of(&scopes, block), Some(1));
    match &value {
        Node::Other(children) => assert_eq!(
            children[0],
            Node::TSMethodSignature(Scoped {
                scope_id: method,
                children: vec![read_of_temp(0, "_C", 0)]
            })
        ),
        other => panic!("unexpected node {:?}", other),
    }
}

fn super_member(form: SuperForm, class: Option<BoundIdentifier>, operands: Vec<Node>) -> SuperMember {
    SuperMember { form, class, operands }
}

#[test]
fn super_forms_are_handed_over_where_this_is_the_classs() {
    let forms = [
        SuperForm::StaticMember,
        SuperForm::ComputedMember,
        SuperForm::Call,
        SuperForm::Assignment,
        SuperForm::Update,
    ];
    let mut scopes = program_and_class(true);
    let function_scope = add_function_scope(&mut scopes, 1, STRICT_FUNCTION);
    let mut symbols = class_symbol_with_references(0);
    let mut class = named_class();
    let temp = BoundIdentifier::new("_C".to_string(), 1);
    for (index, form) in forms.into_iter().enumerate() {
        let mut value = Node::Other(vec![
            Node::SuperMember(super_member(form, None, vec![this_at(6)])),
            Node::Function(function(
                function_scope,
                false,
                vec![Node::SuperMember(super_member(form, None, vec![this_at(40)]))],
            )),
        ]);
        class.transform_static_initializer(&mut scopes, &mut symbols, 0, &mut value);
        assert_eq!(
            value,
            Node::Other(vec![
                Node::SuperMember(super_member(
                    form,
                    Some(temp.clone()),
                    vec![read_of_temp(6, "_C", index)]
                )),
                Node::Function(function(
                    function_scope,
                    false,
                    vec![Node::SuperMember(super_member(form, None, vec![this_at(40)]))],
                )),
            ])
        );
    }
    assert_eq!(symbols.len(), 2);
}

#[test]
fn class_transform_rewrites_only_the_form_it_is_asked_for() {
    let mut symbols = class_symbol_with_references(0);
    let mut class = named_class();
    let mut member = super_member(SuperForm::Call, None, vec![]);
    class.transform_static_member_expression(&mut symbols, &mut member);
    class.transform_computed_member_expression(&mut symbols, &mut member);
    class.transform_assignment_expression_for_super_assignment_target(&mut symbols, &mut member);
    class.transform_update_expression_for_super_assignment_target(&mut symbols, &mut member);
    assert_eq!(member, super_member(SuperForm::Call, None, vec![]));
    assert_eq!(class.temp, None);
    class.transform_call_expression_for_super_member_expr(&mut symbols, &mut member);
    let temp = BoundIdentifier::new("_C".to_string(), 1);
    assert_eq!(member, super_member(SuperForm::Call, Some(temp.clone()), vec![]));

    let other = BoundIdentifier::new("_D".to_string(), 0);
    let mut rewritten = super_member(SuperForm::StaticMember, Some(other.clone()), vec![]);
    class.transform_static_member_expression(&mut symbols, &mut rewritten);
    assert_eq!(rewritten, super_member(SuperForm::StaticMember, Some(other), vec![]));

    let mut deep = super_member(SuperForm::Update, None, vec![]);
    let walker = visitor(true, false, 1, 0);
    walker.transform_update_expression_if_super_member_assignment_target(
        &mut class,
        &mut symbols,
        &mut deep,
    );
    assert_eq!(deep, super_member(SuperForm::Update, None, vec![]));
    let walker = visitor(true, false, 0, 3);
    walker.transform_static_member_expression_if_super(&mut class, &mut symbols, &mut deep);
    walker.transform_computed_member_expression_if_super(&mut class, &mut symbols, &mut deep);
    walker.transform_call_expression_if_super_member_expression(&mut class, &mut symbols, &mut deep);
    walker.transform_assignment_expression_if_super_member_assignment_target(
        &mut class,
        &mut symbols,
        &mut deep,
    );
    assert_eq!(deep, super_member(SuperForm::Update, None, vec![]));
    walker.transform_update_expression_if_super_member_assignment_target(
        &mut class,
        &mut symbols,
        &mut deep,
    );
    assert_eq!(deep, super_member(SuperForm::Update, Some(temp), vec![]));
    assert_eq!(symbols.len(), 2);
}

#[test]
fn visits_restore_the_visitor() {
    let mut scopes = program_and_class(false);
    let function_scope = add_function_scope(&mut scopes, 1, STRICT_FUNCTION);
    let arrow_scope = add_function_scope(&mut scopes, 1, STRICT_FUNCTION);
    let class_scope = add_function_scope(&mut scopes, 1, ScopeFlags::StrictMode);
    let mut symbols = class_symbol_with_references(0);
    let mut class = named_class();
    let start = visitor(true, true, 0, 0);
    let mut walker = start;
    let mut func = function(function_scope, true, vec![this_at(0)]);
    walker.visit_function(&mut class, &mut scopes, &mut symbols, &mut func);
    assert_eq!(walker, start);
    let mut arrow = function(arrow_scope, true, vec![this_at(0)]);
    walker.visit_arrow_function_expression(&mut class, &mut scopes, &mut symbols, &mut arrow);
    assert_eq!(walker, start);
    assert_eq!(arrow, function(arrow_scope, true, vec![read_of_temp(0, "_C", 0)]));
    let mut inner = Scoped { scope_id: class_scope, children: vec![this_at(8)] };
    walker.visit_class(&mut class, &mut scopes, &mut symbols, &mut inner);
    assert_eq!(walker, start);
    assert_eq!(inner, Scoped { scope_id: class_scope, children: vec![read_of_temp(8, "_C", 1)] });
    let mut expr = Node::Other(vec![Node::Function(function(function_scope, false, vec![]))]);
    walker.visit_expression(&mut class, &mut scopes, &mut symbols, &mut expr);
    assert_eq!(walker, start);
    assert_eq!(flags_of(&scopes, function_scope), ScopeFlags::Function);
    assert_eq!(flags_of(&scopes, arrow_scope), STRICT_FUNCTION);
    assert_eq!(flags_of(&scopes, class_scope), ScopeFlags::StrictMode);
}

#[test]
fn readiness_follows_the_tables() {
    let mut scopes = program_and_class(true);
    let scope = add_function_scope(&mut scopes, 1, STRICT_FUNCTION);
    let symbols = class_symbol_with_references(2);
    let class = named_class();
    let walker = visitor(true, true, 0, 0);
    assert!(walker.ready_to_enter(&scopes, scope));
    assert!(walker.ready_to_enter(&scopes, 0));
    assert!(!walker.ready_to_enter(&scopes, 3));
    assert!(!visitor(true, true, u32::MAX, 0).ready_to_enter(&scopes, scope));
    assert!(!visitor(true, true, 0, u32::MAX).ready_to_enter(&scopes, scope));
    let mut elsewhere = walker;
    elsewhere.current_scope_id = 9;
    assert!(!elsewhere.ready_to_enter(&scopes, scope));
    assert!(walker.ready_to_go_deeper());
    assert!(!visitor(true, true, u32::MAX, 0).ready_to_go_deeper());

    assert!(class.ready_to_create_binding(&symbols));
    assert!(class.ready_to_read_binding(&symbols));
    assert!(class.ready_to_move_reference(&symbols, 1));
    assert!(!class.ready_to_move_reference(&symbols, 2));
    assert!(walker.ready_to_replace_this(&class, &symbols));
    assert!(walker.ready_to_transform_super(&class, &symbols));
    let ident = |reference_id: usize| IdentifierReference {
        span: span(0, 1),
        name: "C".to_string(),
        reference_id,
    };
    assert!(walker.ready_to_replace_class_name(&class, &symbols, &ident(1)));
    assert!(!walker.ready_to_replace_class_name(&class, &symbols, &ident(2)));

    let mut stale = named_class();
    stale.temp = Some(BoundIdentifier::new("_C".to_string(), 7));
    assert!(stale.ready_to_create_binding(&symbols));
    assert!(!stale.ready_to_read_binding(&symbols));
    assert!(!stale.ready_to_move_reference(&symbols, 1));
    assert!(!walker.ready_to_replace_this(&stale, &symbols));
    assert!(visitor(true, true, 1, 0).ready_to_replace_this(&stale, &symbols));
    assert!(!stale.names_well_formed(&symbols));
    assert!(class.names_well_formed(&symbols));
}

#[test]
fn a_reference_that_its_symbol_does_not_list_is_found() {
    let mut symbols = class_symbol_with_references(1);
    let class = named_class();
    symbols.create_reference(Reference::new_with_symbol_id(
        NodeId::DUMMY,
        SymbolId::from_usize(0),
        ReferenceFlags::read(),
    ));
    assert!(!class.names_well_formed(&symbols));
    assert!(class.ready_to_move_reference(&symbols, 0));
    assert!(!class.ready_to_move_reference(&symbols, 1));
    let walker = visitor(true, false, 0, 0);
    let ident = IdentifierReference { span: span(0, 1), name: "C".to_string(), reference_id: 1 };
    assert!(!walker.ready_to_replace_class_name(&class, &symbols, &ident));
    assert!(walker.ready_to_replace_class_name(&unnamed_class(), &symbols, &ident));
}

#[test]
fn rewrite_is_refused_where_it_cannot_be_made() {
    let mut scopes = program_and_class(true);
    let function_scope = add_function_scope(&mut scopes, 1, STRICT_FUNCTION);
    let mut symbols = class_symbol_with_references(1);
    let mut class = named_class();
    let build = |scope_id: usize, reference_id: usize| {
        Node::Other(vec![
            this_at(0),
            Node::Function(function(scope_id, false, vec![class_name(reference_id)])),
        ])
    };

    // A scope that the tree does not hold.
    let mut value = build(7, 0);
    assert!(!class.ready_to_transform(&scopes, &symbols, 0, &value));
    assert!(!class.try_transform_static_initializer(&mut scopes, &mut symbols, 0, &mut value));
    assert_eq!(value, build(7, 0));
    // A reference that the table does not hold.
    let mut value = build(function_scope, 1);
    assert!(!class.try_transform_static_initializer(&mut scopes, &mut symbols, 0, &mut value));
    assert_eq!(value, build(function_scope, 1));
    // A scope to move into that the tree does not hold.
    let mut value = build(function_scope, 0);
    assert!(!class.try_transform_static_initializer(&mut scopes, &mut symbols, 3, &mut value));
    assert_eq!(value, build(function_scope, 0));
    assert_eq!(class.temp, None);
    assert_eq!(symbols.len(), 1);
    assert_eq!(symbols.references.len(), 1);
    assert_eq!(parent_of(&scopes, function_scope), Some(1));

    assert!(static_prop_init::ready::scopes_well_formed(&scopes));
    assert!(class.ready_to_transform(&scopes, &symbols, 0, &value));
    assert!(class.try_transform_static_initializer(&mut scopes, &mut symbols, 0, &mut value));
    assert_eq!(
        value,
        Node::Other(vec![
            read_of_temp(0, "_C", 1),
            Node::Function(function(
                function_scope,
                false,
                vec![Node::Identifier(IdentifierReference {
                    span: span(0, 1),
                    name: "_C".to_string(),
                    reference_id: 0,
                })]
            )),
        ])
    );
    assert_eq!(parent_of(&scopes, function_scope), Some(0));
    assert_eq!(resolved(&symbols, 1), vec![1, 0]);
}

#[test]
fn scope_tree_with_a_parent_out_of_it_is_not_well_formed() {
    let mut scopes = program_and_class(true);
    assert!(static_prop_init::ready::scopes_well_formed(&scopes));
    scopes.add_scope(Some(ScopeId::new(5)), NodeId::DUMMY, ScopeFlags::empty());
    assert!(!static_prop_init::ready::scopes_well_formed(&scopes));
    let mut symbols = class_symbol_with_references(0);
    let mut value = this_at(0);
    assert!(!named_class().try_transform_static_initializer(&mut scopes, &mut symbols, 0, &mut value));
    assert_eq!(value, this_at(0));
}
