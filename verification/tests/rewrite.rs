use oxc_index::Idx;
use oxc_semantic::{ScopeTree, SymbolTable};
use oxc_span::SPAN;
use oxc_syntax::node::NodeId;
use oxc_syntax::reference::{Reference, ReferenceFlags, ReferenceId};
use oxc_syntax::scope::{ScopeFlags, ScopeId};
use oxc_syntax::symbol::{SymbolFlags, SymbolId};
use static_prop_init::ast::{
    BoundIdentifier, ClassProperty, Function, IdentifierReference, Node, Scoped, Span, SuperForm,
    SuperMember, TSConditionalType, TSModuleBlock, UnaryExpression, UnaryOperator,
};
use static_prop_init::bindings::ClassBindings;
use static_prop_init::visitor::StaticInitializerVisitor;

/// A program scope (strict or not) with the scope of class `C` in it.
fn program_and_class(strict: bool) -> ScopeTree {
    let mut scopes = ScopeTree::default();
    let top = if strict { ScopeFlags::Top | ScopeFlags::StrictMode } else { ScopeFlags::Top };
    let program = scopes.add_scope(None, NodeId::DUMMY, top);
    scopes.add_scope(Some(program), NodeId::DUMMY, ScopeFlags::StrictMode);
    scopes
}

fn add_function_scope(scopes: &mut ScopeTree, parent: usize, flags: ScopeFlags) -> usize {
    scopes.add_scope(Some(ScopeId::from_usize(parent)), NodeId::DUMMY, flags).index()
}

/// A table with the symbol of class `C` (symbol 0) and `count` references to it.
fn class_symbol_with_references(count: usize) -> SymbolTable {
    let mut symbols = SymbolTable::default();
    let class =
        symbols.create_symbol(SPAN, "C", SymbolFlags::Class, ScopeId::new(0), NodeId::DUMMY);
    for _ in 0..count {
        let reference = symbols.create_reference(Reference::new_with_symbol_id(
            NodeId::DUMMY,
            class,
            ReferenceFlags::read(),
        ));
        symbols.add_resolved_reference(class, reference);
    }
    symbols
}

fn named_class() -> ClassBindings {
    ClassBindings::new(Some(BoundIdentifier::new("C".to_string(), 0)), "_C".to_string(), 0)
}

fn unnamed_class() -> ClassBindings {
    ClassBindings::new(None, "_Class".to_string(), 0)
}

fn span(start: u32, end: u32) -> Span {
    Span { start, end }
}

fn this_at(start: u32) -> Node {
    Node::ThisExpression(span(start, start + 4))
}

fn class_name(reference_id: usize) -> Node {
    Node::Identifier(IdentifierReference {
        span: span(0, 1),
        name: "C".to_string(),
        reference_id,
    })
}

fn resolved(symbols: &SymbolTable, symbol_id: usize) -> Vec<usize> {
    symbols
        .get_resolved_reference_ids(SymbolId::from_usize(symbol_id))
        .iter()
        .map(|id| id.index())
        .collect()
}

fn symbol_of(symbols: &SymbolTable, reference_id: usize) -> Option<usize> {
    symbols.get_reference(ReferenceId::from_usize(reference_id)).symbol_id().map(|id| id.index())
}

fn read_of_temp(start: u32, name: &str, reference_id: usize) -> Node {
    Node::Identifier(IdentifierReference {
        span: span(start, start + 4),
        name: name.to_string(),
        reference_id,
    })
}

fn function(scope_id: usize, use_strict: bool, children: Vec<Node>) -> Function {
    Function { scope_id, has_use_strict_directive: use_strict, children }
}

fn flags_of(scopes: &ScopeTree, scope_id: usize) -> ScopeFlags {
    scopes.get_flags(ScopeId::from_usize(scope_id))
}

fn parent_of(scopes: &ScopeTree, scope_id: usize) -> Option<usize> {
    scopes.get_parent_id(ScopeId::from_usize(scope_id)).map(|id| id.index())
}

const STRICT_FUNCTION: ScopeFlags = ScopeFlags::Function.union(ScopeFlags::StrictMode);

#[test]
fn this_and_class_name_resolve_to_one_temporary() {
    let mut scopes = program_and_class(true);
    let mut symbols = class_symbol_with_references(1);
    let mut class = named_class();
    // `static x = this.y`
    let mut x = Node::Other(vec![this_at(11)]);
    // `static z = C.y`
    let mut z = Node::Other(vec![class_name(0)]);
    class.transform_static_initializer(&mut scopes, &mut symbols, 0, &mut x);
    class.transform_static_initializer(&mut scopes, &mut symbols, 0, &mut z);

    let temp = class.temp.clone().expect("the temporary binding exists");
    assert_eq!(temp, BoundIdentifier::new("_C".to_string(), 1));
    assert_eq!(symbols.len(), 2);
    assert_eq!(symbols.get_name(SymbolId::from_usize(1)), "_C");
    assert_eq!(
        x,
        Node::Other(vec![Node::Identifier(IdentifierReference {
            span: span(11, 15),
            name: "_C".to_string(),
            reference_id: 1,
        })])
    );
    assert_eq!(
        z,
        Node::Other(vec![Node::Identifier(IdentifierReference {
            span: span(0, 1),
            name: "_C".to_string(),
            reference_id: 0,
        })])
    );
    assert_eq!(symbol_of(&symbols, 0), Some(1));
    assert_eq!(symbol_of(&symbols, 1), Some(1));
    assert_eq!(resolved(&symbols, 0), Vec::<usize>::new());
    assert_eq!(resolved(&symbols, 1), vec![1, 0]);
}

#[test]
fn delete_this_becomes_true_at_depth_zero_only() {
    let mut scopes = program_and_class(true);
    let function_scope = add_function_scope(&mut scopes, 1, ScopeFlags::Function);
    let mut symbols = class_symbol_with_references(0);
    let mut class = named_class();
    let delete_this = |start: u32| {
        Node::UnaryExpression(Box::new(UnaryExpression {
            span: span(start, start + 11),
            operator: UnaryOperator::Delete,
            argument: this_at(start + 7),
        }))
    };
    let mut value = Node::Other(vec![
        delete_this(0),
        Node::Function(Function {
            scope_id: function_scope,
            has_use_strict_directive: false,
            children: vec![delete_this(30)],
        }),
    ]);
    class.transform_static_initializer(&mut scopes, &mut symbols, 0, &mut value);
    assert_eq!(
        value,
        Node::Other(vec![
            Node::BooleanLiteral(span(0, 11), true),
            Node::Function(Function {
                scope_id: function_scope,
                has_use_strict_directive: false,
                children: vec![delete_this(30)],
            }),
        ])
    );
    assert_eq!(class.temp, None);
    assert_eq!(symbols.len(), 1);
}

#[test]
fn first_level_scope_is_reparented_nested_is_not() {
    let mut scopes = program_and_class(true);
    let arrow = add_function_scope(&mut scopes, 1, ScopeFlags::Function | ScopeFlags::Arrow);
    let block = add_function_scope(&mut scopes, arrow, ScopeFlags::empty());
    let mut symbols = class_symbol_with_references(0);
    let mut class = named_class();
    // `() => { let v = 1; return v; }`
    let mut value = Node::ArrowFunctionExpression(Function {
        scope_id: arrow,
        has_use_strict_directive: false,
        children: vec![Node::Block(Scoped { scope_id: block, children: vec![Node::Other(vec![])] })],
    });
    class.transform_static_initializer(&mut scopes, &mut symbols, 0, &mut value);
    assert_eq!(scopes.get_parent_id(ScopeId::from_usize(arrow)), Some(ScopeId::new(0)));
    assert_eq!(
        scopes.get_parent_id(ScopeId::from_usize(block)),
        Some(ScopeId::from_usize(arrow))
    );
    assert_eq!(scopes.get_parent_id(ScopeId::new(1)), Some(ScopeId::new(0)));
}

#[test]
fn temporary_binding_is_created_once_and_reused() {
    let mut scopes = program_and_class(true);
    let mut symbols = class_symbol_with_references(0);
    let mut class = unnamed_class();
    let mut first = this_at(0);
    let mut second = this_at(20);
    class.transform_static_initializer(&mut scopes, &mut symbols, 0, &mut first);
    let after_first = class.temp.clone();
    assert_eq!(after_first, Some(BoundIdentifier::new("_Class".to_string(), 1)));
    assert_eq!(symbols.len(), 2);
    class.transform_static_initializer(&mut scopes, &mut symbols, 0, &mut second);
    assert_eq!(class.temp, after_first);
    assert_eq!(symbols.len(), 2);
    assert_eq!(first, read_of_temp(0, "_Class", 0));
    assert_eq!(second, read_of_temp(20, "_Class", 1));
    assert_eq!(resolved(&symbols, 1), vec![0, 1]);
    assert_eq!(class.get_or_init_static_binding(&mut symbols), after_first.unwrap());
    assert_eq!(symbols.len(), 2);
}

#[test]
fn temporary_symbol_is_a_variable_of_the_hoist_scope() {
    let mut scopes = program_and_class(true);
    let hoist = add_function_scope(&mut scopes, 0, STRICT_FUNCTION);
    let mut symbols = class_symbol_with_references(0);
    let mut class =
        ClassBindings::new(Some(BoundIdentifier::new("C".to_string(), 0)), "_C2".to_string(), hoist);
    assert_eq!(class.name_symbol_id(), Some(0));
    assert_eq!(unnamed_class().name_symbol_id(), None);
    let binding = class.get_or_init_static_binding(&mut symbols);
    assert_eq!(binding, BoundIdentifier { name: "_C2".to_string(), symbol_id: 1 });
    assert_eq!(binding.duplicate(), binding);
    let temp = SymbolId::from_usize(1);
    assert_eq!(symbols.get_name(temp), "_C2");
    assert_eq!(symbols.get_scope_id(temp).index(), hoist);
    assert_eq!(symbols.get_flags(temp), SymbolFlags::FunctionScopedVariable);
    assert_eq!(resolved(&symbols, 1), Vec::<usize>::new());
}

#[test]
fn read_expression_makes_a_read_reference() {
    let mut symbols = class_symbol_with_references(2);
    let binding = BoundIdentifier::new("C".to_string(), 0);
    let read = binding.create_spanned_read_expression(span(7, 8), &mut symbols);
    assert_eq!(
        read,
        Node::Identifier(IdentifierReference {
            span: span(7, 8),
            name: "C".to_string(),
            reference_id: 2,
        })
    );
    assert_eq!(symbols.references.len(), 3);
    assert_eq!(symbol_of(&symbols, 2), Some(0));
    assert!(symbols.get_reference(ReferenceId::from_usize(2)).is_read());
    assert!(!symbols.get_reference(ReferenceId::from_usize(2)).is_write());
    assert_eq!(resolved(&symbols, 0), vec![0, 1, 2]);
}

#[test]
fn this_in_arrow_is_rewritten_this_in_function_is_not() {
    let mut scopes = program_and_class(true);
    let function_scope = add_function_scope(&mut scopes, 1, STRICT_FUNCTION);
    let arrow_scope = add_function_scope(&mut scopes, 1, STRICT_FUNCTION | ScopeFlags::Arrow);
    let mut symbols = class_symbol_with_references(0);
    let mut class = named_class();
    // `static f = function () { return this; }`
    let mut f = Node::Function(function(function_scope, false, vec![this_at(30)]));
    // `static g = () => this`
    let mut g = Node::ArrowFunctionExpression(function(arrow_scope, false, vec![this_at(60)]));
    class.transform_static_initializer(&mut scopes, &mut symbols, 0, &mut f);
    assert_eq!(f, Node::Function(function(function_scope, false, vec![this_at(30)])));
    assert_eq!(class.temp, None);
    class.transform_static_initializer(&mut scopes, &mut symbols, 0, &mut g);
    assert_eq!(
        g,
        Node::ArrowFunctionExpression(function(
            arrow_scope,
            false,
            vec![read_of_temp(60, "_C", 0)]
        ))
    );
    assert_eq!(class.temp, Some(BoundIdentifier::new("_C".to_string(), 1)));
}

#[test]
fn this_in_arrow_inside_function_is_not_rewritten() {
    let mut scopes = program_and_class(true);
    let function_scope = add_function_scope(&mut scopes, 1, STRICT_FUNCTION);
    let arrow_scope = add_function_scope(&mut scopes, function_scope, STRICT_FUNCTION);
    let mut symbols = class_symbol_with_references(0);
    let mut class = named_class();
    let build = || {
        Node::Function(function(
            function_scope,
            false,
            vec![Node::ArrowFunctionExpression(function(arrow_scope, false, vec![this_at(9)]))],
        ))
    };
    let mut value = build();
    class.transform_static_initializer(&mut scopes, &mut symbols, 0, &mut value);
    assert_eq!(value, build());
    assert_eq!(parent_of(&scopes, function_scope), Some(0));
    assert_eq!(parent_of(&scopes, arrow_scope), Some(function_scope));
}

#[test]
fn sloppy_outer_scope_clears_strict_flag_of_arrow() {
    let mut scopes = program_and_class(false);
    let arrow_flags = ScopeFlags::Function | ScopeFlags::Arrow | ScopeFlags::StrictMode;
    let arrow = add_function_scope(&mut scopes, 1, arrow_flags);
    let inner = add_function_scope(&mut scopes, arrow, STRICT_FUNCTION);
    let block = add_function_scope(&mut scopes, inner, ScopeFlags::StrictMode);
    let mut symbols = class_symbol_with_references(0);
    let mut class = unnamed_class();
    let mut value = Node::ArrowFunctionExpression(function(
        arrow,
        false,
        vec![Node::Function(function(
            inner,
            false,
            vec![Node::Block(Scoped { scope_id: block, children: vec![] })],
        ))],
    ));
    class.transform_static_initializer(&mut scopes, &mut symbols, 0, &mut value);
    assert_eq!(flags_of(&scopes, arrow), ScopeFlags::Function | ScopeFlags::Arrow);
    assert_eq!(flags_of(&scopes, inner), ScopeFlags::Function);
    assert_eq!(flags_of(&scopes, block), ScopeFlags::empty());
    assert_eq!(flags_of(&scopes, 0), ScopeFlags::Top);
    assert_eq!(flags_of(&scopes, 1), ScopeFlags::StrictMode);
}

#[test]
fn arrow_with_use_strict_keeps_its_scopes_strict() {
    let mut scopes = program_and_class(false);
    let arrow_flags = ScopeFlags::Function | ScopeFlags::Arrow | ScopeFlags::StrictMode;
    let arrow = add_function_scope(&mut scopes, 1, arrow_flags);
    let inner = add_function_scope(&mut scopes, arrow, STRICT_FUNCTION);
    let sibling = add_function_scope(&mut scopes, 1, arrow_flags);
    let mut symbols = class_symbol_with_references(0);
    let mut class = unnamed_class();
    let mut value = Node::Other(vec![
        Node::ArrowFunctionExpression(function(
            arrow,
            true,
            vec![Node::Function(function(inner, false, vec![]))],
        )),
        Node::ArrowFunctionExpression(function(sibling, false, vec![])),
    ]);
    class.transform_static_initializer(&mut scopes, &mut symbols, 0, &mut value);
    assert_eq!(flags_of(&scopes, arrow), arrow_flags);
    assert_eq!(flags_of(&scopes, inner), STRICT_FUNCTION);
    assert_eq!(flags_of(&scopes, sibling), ScopeFlags::Function | ScopeFlags::Arrow);
    assert_eq!(parent_of(&scopes, arrow), Some(0));
    assert_eq!(parent_of(&scopes, inner), Some(arrow));
    assert_eq!(parent_of(&scopes, sibling), Some(0));
}

#[test]
fn strict_outer_scope_leaves_flags_alone() {
    let mut scopes = program_and_class(true);
    let arrow = add_function_scope(&mut scopes, 1, STRICT_FUNCTION | ScopeFlags::Arrow);
    let mut symbols = class_symbol_with_references(0);
    let mut class = named_class();
    let mut value = Node::ArrowFunctionExpression(function(arrow, false, vec![]));
    class.transform_static_initializer(&mut scopes, &mut symbols, 0, &mut value);
    assert_eq!(flags_of(&scopes, arrow), STRICT_FUNCTION | ScopeFlags::Arrow);
}

#[test]
fn reference_sets_stay_consistent() {
    let mut scopes = program_and_class(true);
    let function_scope = add_function_scope(&mut scopes, 1, STRICT_FUNCTION);
    let mut symbols = class_symbol_with_references(5);
    let other = symbols.create_symbol(
        SPAN,
        "other",
        SymbolFlags::BlockScopedVariable,
        ScopeId::new(0),
        NodeId::DUMMY,
    );
    let other_reference = symbols.create_reference(Reference::new_with_symbol_id(
        NodeId::DUMMY,
        other,
        ReferenceFlags::read(),
    ));
    symbols.add_resolved_reference(other, other_reference);
    let unresolved =
        symbols.create_reference(Reference::new(NodeId::DUMMY, ReferenceFlags::read()));
    let mut class = named_class();
    let plain = |name: &str, reference_id: usize| {
        Node::Identifier(IdentifierReference {
            span: span(0, 1),
            name: name.to_string(),
            reference_id,
        })
    };
    // References 1 and 3 of the class name occur in the initializer, 3 inside a function.
    let mut value = Node::Other(vec![
        class_name(1),
        plain("other", other_reference.index()),
        plain("free", unresolved.index()),
        Node::Function(function(function_scope, false, vec![class_name(3)])),
    ]);
    class.transform_static_initializer(&mut scopes, &mut symbols, 0, &mut value);
    assert_eq!(
        value,
        Node::Other(vec![
            plain("_C", 1),
            plain("other", other_reference.index()),
            plain("free", unresolved.index()),
            Node::Function(function(function_scope, false, vec![plain("_C", 3)])),
        ])
    );
    let temp = class.temp.clone().unwrap().symbol_id;
    assert_eq!(temp, 2);
    // Reference 1 gave way to the last entry, 4; then reference 3 to the last entry, 2.
    assert_eq!(resolved(&symbols, 0), vec![0, 4, 2]);
    assert_eq!(resolved(&symbols, temp), vec![1, 3]);
    assert_eq!(resolved(&symbols, other.index()), vec![other_reference.index()]);
    for reference_id in 0..7 {
        let expected = match reference_id {
            1 | 3 => Some(temp),
            5 => Some(other.index()),
            6 => None,
            _ => Some(0),
        };
        assert_eq!(symbol_of(&symbols, reference_id), expected);
    }
}

#[test]
fn every_reference_to_the_class_name_moves() {
    let count = 6;
    let mut scopes = program_and_class(true);
    let mut symbols = class_symbol_with_references(count);
    let mut class = named_class();
    let mut value = Node::Other((0..count).map(class_name).collect());
    class.transform_static_initializer(&mut scopes, &mut symbols, 0, &mut value);
    assert_eq!(resolved(&symbols, 0), Vec::<usize>::new());
    assert_eq!(resolved(&symbols, 1), (0..count).collect::<Vec<usize>>());
    for reference_id in 0..count {
        assert_eq!(symbol_of(&symbols, reference_id), Some(1));
    }
    // A second walk finds nothing to do.
    let before = resolved(&symbols, 1);
    class.transform_static_initializer(&mut scopes, &mut symbols, 0, &mut value);
    assert_eq!(resolved(&symbols, 1), before);
    assert_eq!(symbols.len(), 2);
}
