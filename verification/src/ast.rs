//! The syntax tree that the rewrite walks, reduced to what the rewrite reads:
//! the constructs that it treats in a way of their own, and for everything else
//! a node that only has children.

use vstd::prelude::*;

verus! {

/// A range of source text.
#[derive(Clone, Copy, Debug, PartialEq, Eq, Structural)]
pub struct Span {
    pub start: u32,
    pub end: u32,
}

/// A name together with the symbol that it is bound to.
#[derive(Clone, Debug, PartialEq, Eq)]
pub struct BoundIdentifier {
    pub name: String,
    pub symbol_id: usize,
}

pub struct BoundIdentifierView {
    pub name: Seq<char>,
    pub symbol_id: usize,
}

impl View for BoundIdentifier {
    type V = BoundIdentifierView;

    open spec fn view(&self) -> BoundIdentifierView {
        BoundIdentifierView { name: self.name@, symbol_id: self.symbol_id }
    }
}

/// The operator of a unary expression.
#[derive(Clone, Copy, Debug, PartialEq, Eq, Structural)]
pub enum UnaryOperator {
    UnaryNegation,
    UnaryPlus,
    LogicalNot,
    BitwiseNot,
    Typeof,
    Void,
    Delete,
}

/// The shape of an expression that goes through `super`.
#[derive(Clone, Copy, Debug, PartialEq, Eq, Structural)]
pub enum SuperForm {
    /// `super.prop`
    StaticMember,
    /// `super[prop]`
    ComputedMember,
    /// `super.prop(...)`
    Call,
    /// `super.prop = value`, `super.prop += value`
    Assignment,
    /// `super.prop++`, `--super.prop`
    Update,
}

/// A use of a name, with the reference that records what it resolves to.
#[derive(Clone, Debug, PartialEq, Eq)]
pub struct IdentifierReference {
    pub span: Span,
    pub name: String,
    pub reference_id: usize,
}

/// A unary expression.
#[derive(Debug, PartialEq, Eq)]
pub struct UnaryExpression {
    pub span: Span,
    pub operator: UnaryOperator,
    pub argument: Node,
}

/// An expression that reaches a property through `super`.
///
/// `class` is `None` while the expression still says `super`. Once the class
/// transform has rewritten it, `class` is the binding through which the
/// rewritten expression finds the class. `operands` are the expressions inside
/// it: a computed property, arguments, an assigned value.
#[derive(Debug, PartialEq, Eq)]
pub struct SuperMember {
    pub form: SuperForm,
    pub class: Option<BoundIdentifier>,
    pub operands: Vec<Node>,
}

/// A function or an arrow function: its scope, whether its body starts with a
/// `"use strict"` directive, and its parts in source order.
#[derive(Debug, PartialEq, Eq)]
pub struct Function {
    pub scope_id: usize,
    pub has_use_strict_directive: bool,
    pub children: Vec<Node>,
}

/// A construct that owns a scope, and its parts in source order.
#[derive(Debug, PartialEq, Eq)]
pub struct Scoped {
    pub scope_id: usize,
    pub children: Vec<Node>,
}

/// The body of an ambient namespace.
#[derive(Debug, PartialEq, Eq)]
pub struct TSModuleBlock {
    pub has_use_strict_directive: bool,
    pub body: Vec<Node>,
}

/// A property or an accessor property of a class.
#[derive(Debug, PartialEq, Eq)]
pub struct ClassProperty {
    pub decorators: Vec<Node>,
    pub computed: bool,
    pub key: Node,
    pub value: Option<Node>,
}

/// A conditional type `check extends extends_type ? true_type : false_type`.
/// Only `extends_type` and `true_type` lie inside its scope.
#[derive(Debug, PartialEq, Eq)]
pub struct TSConditionalType {
    pub scope_id: usize,
    pub check_type: Node,
    pub extends_type: Node,
    pub true_type: Node,
    pub false_type: Node,
}

/// A node of the tree.
#[derive(Debug, PartialEq, Eq)]
pub enum Node {
    /// `this`
    ThisExpression(Span),
    /// `true` or `false`
    BooleanLiteral(Span, bool),
    Identifier(IdentifierReference),
    UnaryExpression(Box<UnaryExpression>),
    SuperMember(SuperMember),
    Function(Function),
    ArrowFunctionExpression(Function),
    Class(Scoped),
    /// A static block of a class.
    StaticBlock(Scoped),
    TSModuleBlock(TSModuleBlock),
    PropertyDefinition(Box<ClassProperty>),
    AccessorProperty(Box<ClassProperty>),
    TSConditionalType(Box<TSConditionalType>),
    TSMethodSignature(Scoped),
    TSConstructSignatureDeclaration(Scoped),
    TSMappedType(Scoped),
    /// Any other construct that owns a scope, such as a block statement, a loop
    /// or a catch clause.
    Block(Scoped),
    /// Any other construct: only its children matter.
    Other(Vec<Node>),
}

pub struct IdentifierReferenceView {
    pub span: Span,
    pub name: Seq<char>,
    pub reference_id: usize,
}

pub struct UnaryExpressionView {
    pub span: Span,
    pub operator: UnaryOperator,
    pub argument: NodeView,
}

pub struct SuperMemberView {
    pub form: SuperForm,
    pub class: Option<BoundIdentifierView>,
    pub operands: Seq<NodeView>,
}

pub struct FunctionView {
    pub scope_id: usize,
    pub has_use_strict_directive: bool,
    pub children: Seq<NodeView>,
}

pub struct ScopedView {
    pub scope_id: usize,
    pub children: Seq<NodeView>,
}

pub struct TSModuleBlockView {
    pub has_use_strict_directive: bool,
    pub body: Seq<NodeView>,
}

pub struct ClassPropertyView {
    pub decorators: Seq<NodeView>,
    pub computed: bool,
    pub key: NodeView,
    pub value: Option<NodeView>,
}

pub struct TSConditionalTypeView {
    pub scope_id: usize,
    pub check_type: NodeView,
    pub extends_type: NodeView,
    pub true_type: NodeView,
    pub false_type: NodeView,
}

/// The mathematical tree that a `Node` stands for.
pub enum NodeView {
    ThisExpression(Span),
    BooleanLiteral(Span, bool),
    Identifier(IdentifierReferenceView),
    UnaryExpression(Box<UnaryExpressionView>),
    SuperMember(SuperMemberView),
    Function(FunctionView),
    ArrowFunctionExpression(FunctionView),
    Class(ScopedView),
    StaticBlock(ScopedView),
    TSModuleBlock(TSModuleBlockView),
    PropertyDefinition(Box<ClassPropertyView>),
    AccessorProperty(Box<ClassPropertyView>),
    TSConditionalType(Box<TSConditionalTypeView>),
    TSMethodSignature(ScopedView),
    TSConstructSignatureDeclaration(ScopedView),
    TSMappedType(ScopedView),
    Block(ScopedView),
    Other(Seq<NodeView>),
}

pub open spec fn nodes_view(nodes: Vec<Node>) -> Seq<NodeView>
    decreases nodes,
{
    Seq::new(
        nodes.len() as nat,
        |i: int|
            if 0 <= i < nodes.len() {
                node_view(nodes[i])
            } else {
                NodeView::Other(Seq::empty())
            },
    )
}

pub open spec fn node_view(node: Node) -> NodeView
    decreases node,
{
    match node {
        Node::ThisExpression(span) => NodeView::ThisExpression(span),
        Node::BooleanLiteral(span, value) => NodeView::BooleanLiteral(span, value),
        Node::Identifier(ident) => NodeView::Identifier(ident@),
        Node::UnaryExpression(unary) => NodeView::UnaryExpression(
            Box::new(
                UnaryExpressionView {
                    span: unary.span,
                    operator: unary.operator,
                    argument: node_view(unary.argument),
                },
            ),
        ),
        Node::SuperMember(member) => NodeView::SuperMember(
            SuperMemberView {
                form: member.form,
                class: option_view(member.class),
                operands: nodes_view(member.operands),
            },
        ),
        Node::Function(func) => NodeView::Function(
            FunctionView {
                scope_id: func.scope_id,
                has_use_strict_directive: func.has_use_strict_directive,
                children: nodes_view(func.children),
            },
        ),
        Node::ArrowFunctionExpression(func) => NodeView::ArrowFunctionExpression(
            FunctionView {
                scope_id: func.scope_id,
                has_use_strict_directive: func.has_use_strict_directive,
                children: nodes_view(func.children),
            },
        ),
        Node::Class(scoped) => NodeView::Class(
            ScopedView { scope_id: scoped.scope_id, children: nodes_view(scoped.children) },
        ),
        Node::StaticBlock(scoped) => NodeView::StaticBlock(
            ScopedView { scope_id: scoped.scope_id, children: nodes_view(scoped.children) },
        ),
        Node::TSModuleBlock(block) => NodeView::TSModuleBlock(
            TSModuleBlockView {
                has_use_strict_directive: block.has_use_strict_directive,
                body: nodes_view(block.body),
            },
        ),
        Node::PropertyDefinition(prop) => NodeView::PropertyDefinition(
            Box::new(
                ClassPropertyView {
                    decorators: nodes_view(prop.decorators),
                    computed: prop.computed,
                    key: node_view(prop.key),
                    value: match prop.value {
                        Some(value) => Some(node_view(value)),
                        None => None,
                    },
                },
            ),
        ),
        Node::AccessorProperty(prop) => NodeView::AccessorProperty(
            Box::new(
                ClassPropertyView {
                    decorators: nodes_view(prop.decorators),
                    computed: prop.computed,
                    key: node_view(prop.key),
                    value: match prop.value {
                        Some(value) => Some(node_view(value)),
                        None => None,
                    },
                },
            ),
        ),
        Node::TSConditionalType(conditional) => NodeView::TSConditionalType(
            Box::new(
                TSConditionalTypeView {
                    scope_id: conditional.scope_id,
                    check_type: node_view(conditional.check_type),
                    extends_type: node_view(conditional.extends_type),
                    true_type: node_view(conditional.true_type),
                    false_type: node_view(conditional.false_type),
                },
            ),
        ),
        Node::TSMethodSignature(scoped) => NodeView::TSMethodSignature(
            ScopedView { scope_id: scoped.scope_id, children: nodes_view(scoped.children) },
        ),
        Node::TSConstructSignatureDeclaration(scoped) => NodeView::TSConstructSignatureDeclaration(
            ScopedView { scope_id: scoped.scope_id, children: nodes_view(scoped.children) },
        ),
        Node::TSMappedType(scoped) => NodeView::TSMappedType(
            ScopedView { scope_id: scoped.scope_id, children: nodes_view(scoped.children) },
        ),
        Node::Block(scoped) => NodeView::Block(
            ScopedView { scope_id: scoped.scope_id, children: nodes_view(scoped.children) },
        ),
        Node::Other(children) => NodeView::Other(nodes_view(children)),
    }
}

/// The view of a binding that may be there.
pub open spec fn option_view(binding: Option<BoundIdentifier>) -> Option<BoundIdentifierView> {
    match binding {
        Some(binding) => Some(binding@),
        None => None,
    }
}

impl View for IdentifierReference {
    type V = IdentifierReferenceView;

    open spec fn view(&self) -> IdentifierReferenceView {
        IdentifierReferenceView {
            span: self.span,
            name: self.name@,
            reference_id: self.reference_id,
        }
    }
}

impl View for Node {
    type V = NodeView;

    open spec fn view(&self) -> NodeView {
        node_view(*self)
    }
}

impl View for UnaryExpression {
    type V = UnaryExpressionView;

    open spec fn view(&self) -> UnaryExpressionView {
        UnaryExpressionView {
            span: self.span,
            operator: self.operator,
            argument: node_view(self.argument),
        }
    }
}

impl View for SuperMember {
    type V = SuperMemberView;

    open spec fn view(&self) -> SuperMemberView {
        SuperMemberView {
            form: self.form,
            class: option_view(self.class),
            operands: nodes_view(self.operands),
        }
    }
}

impl View for Function {
    type V = FunctionView;

    open spec fn view(&self) -> FunctionView {
        FunctionView {
            scope_id: self.scope_id,
            has_use_strict_directive: self.has_use_strict_directive,
            children: nodes_view(self.children),
        }
    }
}

impl View for Scoped {
    type V = ScopedView;

    open spec fn view(&self) -> ScopedView {
        ScopedView { scope_id: self.scope_id, children: nodes_view(self.children) }
    }
}

impl View for TSModuleBlock {
    type V = TSModuleBlockView;

    open spec fn view(&self) -> TSModuleBlockView {
        TSModuleBlockView {
            has_use_strict_directive: self.has_use_strict_directive,
            body: nodes_view(self.body),
        }
    }
}

impl View for ClassProperty {
    type V = ClassPropertyView;

    open spec fn view(&self) -> ClassPropertyView {
        ClassPropertyView {
            decorators: nodes_view(self.decorators),
            computed: self.computed,
            key: node_view(self.key),
            value: match self.value {
                Some(value) => Some(node_view(value)),
                None => None,
            },
        }
    }
}

impl View for TSConditionalType {
    type V = TSConditionalTypeView;

    open spec fn view(&self) -> TSConditionalTypeView {
        TSConditionalTypeView {
            scope_id: self.scope_id,
            check_type: node_view(self.check_type),
            extends_type: node_view(self.extends_type),
            true_type: node_view(self.true_type),
            false_type: node_view(self.false_type),
        }
    }
}

} // verus!
