//! The bindings of the class whose static initializers are rewritten: its name,
//! if it has one, and the temporary binding that stands for the class value in
//! code that has left the class body.

use vstd::prelude::*;
use oxc_semantic::SymbolTable;
use crate::ast::{
    BoundIdentifier, BoundIdentifierView, IdentifierReference, IdentifierReferenceView, Node,
    NodeView, option_view, Span, SuperForm, SuperMember,
};
use crate::model::{names_of, transform_super_member};
use crate::symbol_table::{
    add_resolved_reference, create_reference, create_symbol, reference_count, reference_symbols,
    resolved_reference_ids, resolved_references, symbol_count, symbol_declarations, MAX_INDEX,
};

verus! {

/// The bindings of one class.
///
/// `temp` is `None` until the first rewrite asks for the temporary binding. It
/// is then created under the name `temp_name`, as a variable of the scope
/// `outer_hoist_scope_id`, and every later rewrite gets the same binding.
#[derive(Clone, Debug, PartialEq, Eq)]
pub struct ClassBindings {
    pub name: Option<BoundIdentifier>,
    pub temp: Option<BoundIdentifier>,
    pub temp_name: String,
    pub outer_hoist_scope_id: usize,
}

pub struct ClassBindingsView {
    pub name: Option<BoundIdentifierView>,
    pub temp: Option<BoundIdentifierView>,
    pub temp_name: Seq<char>,
    pub outer_hoist_scope_id: usize,
}

impl View for ClassBindings {
    type V = ClassBindingsView;

    open spec fn view(&self) -> ClassBindingsView {
        ClassBindingsView {
            name: option_view(self.name),
            temp: option_view(self.temp),
            temp_name: self.temp_name@,
            outer_hoist_scope_id: self.outer_hoist_scope_id,
        }
    }
}

/// Whether `ids` holds `id`.
pub(crate) fn contains(ids: &Vec<usize>, id: usize) -> (found: bool)
    ensures
        found == ids@.contains(id),
{
    let mut i: usize = 0;
    while i < ids.len()
        invariant
            i <= ids.len(),
            forall|j: int| 0 <= j < i ==> ids@[j] != id,
        decreases ids.len() - i,
    {
        if ids[i] == id {
            return true;
        }
        i += 1;
    }
    false
}

impl BoundIdentifier {
    /// A binding of `name` to the symbol `symbol_id`.
    pub fn new(name: String, symbol_id: usize) -> (binding: Self)
        ensures
            binding.name == name,
            binding.symbol_id == symbol_id,
    {
        BoundIdentifier { name, symbol_id }
    }

    /// Another value of the same binding.
    pub fn duplicate(&self) -> (binding: Self)
        ensures
            binding@ == self@,
    {
        BoundIdentifier { name: self.name.clone(), symbol_id: self.symbol_id }
    }

    /// An identifier at `span` that reads the binding, through a reference made
    /// for it: the table gains one reference, which resolves to the binding's
    /// symbol and which that symbol lists last.
    pub fn create_spanned_read_expression(&self, span: Span, symbols: &mut SymbolTable) -> (read:
        Node)
        requires
            self.symbol_id < resolved_references(*old(symbols)).len(),
            reference_symbols(*old(symbols)).len() < MAX_INDEX,
        ensures
            read@ == NodeView::Identifier(
                IdentifierReferenceView {
                    span,
                    name: self.name@,
                    reference_id: reference_symbols(*old(symbols)).len() as usize,
                },
            ),
            symbol_declarations(*final(symbols)) == symbol_declarations(*old(symbols)),
            reference_symbols(*final(symbols)) == reference_symbols(*old(symbols)).push(
                Some(self.symbol_id),
            ),
            resolved_references(*final(symbols)) == resolved_references(*old(symbols)).update(
                self.symbol_id as int,
                resolved_references(*old(symbols))[self.symbol_id as int].push(
                    reference_symbols(*old(symbols)).len() as usize,
                ),
            ),
    {
        let reference_id = create_reference(symbols, self.symbol_id);
        add_resolved_reference(symbols, self.symbol_id, reference_id);
        Node::Identifier(IdentifierReference { span, name: self.name.clone(), reference_id })
    }
}

impl ClassBindings {
    /// The bindings of a class before any of its initializers is rewritten.
    pub fn new(
        name: Option<BoundIdentifier>,
        temp_name: String,
        outer_hoist_scope_id: usize,
    ) -> (class: Self)
        ensures
            class.name == name,
            class.temp is None,
            class.temp_name == temp_name,
            class.outer_hoist_scope_id == outer_hoist_scope_id,
    {
        ClassBindings { name, temp: None, temp_name, outer_hoist_scope_id }
    }

    /// The symbol of the class's name, if the class has a name.
    pub fn name_symbol_id(&self) -> (symbol_id: Option<usize>)
        ensures
            symbol_id == match self@.name {
                Some(name) => Some(name.symbol_id),
                None => None,
            },
    {
        match &self.name {
            Some(name) => Some(name.symbol_id),
            None => None,
        }
    }

    /// Whether `get_or_init_static_binding` can be called: the temporary binding
    /// exists, or the table can take its symbol.
    pub fn ready_to_create_binding(&self, symbols: &SymbolTable) -> (ready: bool)
        ensures
            ready == names_of(*self, *symbols).can_create_binding(),
    {
        self.temp.is_some() || (symbol_count(symbols) < MAX_INDEX && self.outer_hoist_scope_id
            < MAX_INDEX)
    }

    /// Whether a read of the temporary binding can be made: the binding can be
    /// had, its symbol is one of the table, and the table can take one more
    /// reference.
    pub fn ready_to_read_binding(&self, symbols: &SymbolTable) -> (ready: bool)
        ensures
            ready == names_of(*self, *symbols).can_read_binding(),
    {
        let known = match &self.temp {
            Some(temp) => temp.symbol_id < symbol_count(symbols),
            None => true,
        };
        self.ready_to_create_binding(symbols) && known && reference_count(symbols) < MAX_INDEX
    }

    /// Whether `reference_id` can move from the class name to the temporary
    /// binding: the binding can be had, both symbols are symbols of the table,
    /// and the name's symbol lists the reference.
    pub fn ready_to_move_reference(&self, symbols: &SymbolTable, reference_id: usize) -> (ready:
        bool)
        ensures
            ready == names_of(*self, *symbols).can_move_reference(reference_id),
    {
        let known = match &self.temp {
            Some(temp) => temp.symbol_id < symbol_count(symbols),
            None => true,
        };
        let listed = match &self.name {
            Some(name) => name.symbol_id < symbol_count(symbols) && contains(
                &resolved_reference_ids(symbols, name.symbol_id),
                reference_id,
            ),
            None => true,
        };
        self.ready_to_create_binding(symbols) && known && listed
    }

    /// The temporary binding of the class. The first call creates it, with a
    /// symbol of its own that lists no reference; every later call returns the
    /// binding that the first one made.
    pub fn get_or_init_static_binding(&mut self, symbols: &mut SymbolTable) -> (binding:
        BoundIdentifier)
        requires
            names_of(*old(self), *old(symbols)).can_create_binding(),
        ensures
            binding@ == names_of(*old(self), *old(symbols)).static_binding(),
            names_of(*final(self), *final(symbols)) == names_of(
                *old(self),
                *old(symbols),
            ).with_static_binding(),
    {
        match &self.temp {
            Some(temp) => temp.duplicate(),
            None => {
                let symbol_id = create_symbol(
                    symbols,
                    self.temp_name.as_str(),
                    self.outer_hoist_scope_id,
                );
                let binding = BoundIdentifier { name: self.temp_name.clone(), symbol_id };
                self.temp = Some(binding.duplicate());
                binding
            },
        }
    }

    /// What the class transform does to an expression through `super` when it is
    /// asked for those of one form.
    fn transform_super_member(
        &mut self,
        symbols: &mut SymbolTable,
        form: SuperForm,
        member: &mut SuperMember,
    )
        requires
            names_of(*old(self), *old(symbols)).can_create_binding(),
        ensures
            (final(member)@, names_of(*final(self), *final(symbols))) == transform_super_member(
                names_of(*old(self), *old(symbols)),
                form,
                old(member)@,
            ),
    {
        if member.form == form && member.class.is_none() {
            member.class = Some(self.get_or_init_static_binding(symbols));
        }
    }

    /// Rewrites `super.prop`: where `member` is of that form and still says
    /// `super`, it now goes through the class's temporary binding, which is
    /// created if it was not there. Anything else is left as it is.
    pub fn transform_static_member_expression(
        &mut self,
        symbols: &mut SymbolTable,
        member: &mut SuperMember,
    )
        requires
            names_of(*old(self), *old(symbols)).can_create_binding(),
        ensures
            (final(member)@, names_of(*final(self), *final(symbols))) == transform_super_member(
                names_of(*old(self), *old(symbols)),
                SuperForm::StaticMember,
                old(member)@,
            ),
    {
        self.transform_super_member(symbols, SuperForm::StaticMember, member);
    }

    /// Rewrites `super[prop]`, as `transform_static_member_expression` does
    /// `super.prop`.
    pub fn transform_computed_member_expression(
        &mut self,
        symbols: &mut SymbolTable,
        member: &mut SuperMember,
    )
        requires
            names_of(*old(self), *old(symbols)).can_create_binding(),
        ensures
            (final(member)@, names_of(*final(self), *final(symbols))) == transform_super_member(
                names_of(*old(self), *old(symbols)),
                SuperForm::ComputedMember,
                old(member)@,
            ),
    {
        self.transform_super_member(symbols, SuperForm::ComputedMember, member);
    }

    /// Rewrites `super.prop(...)`, as `transform_static_member_expression` does
    /// `super.prop`.
    pub fn transform_call_expression_for_super_member_expr(
        &mut self,
        symbols: &mut SymbolTable,
        member: &mut SuperMember,
    )
        requires
            names_of(*old(self), *old(symbols)).can_create_binding(),
        ensures
            (final(member)@, names_of(*final(self), *final(symbols))) == transform_super_member(
                names_of(*old(self), *old(symbols)),
                SuperForm::Call,
                old(member)@,
            ),
    {
        self.transform_super_member(symbols, SuperForm::Call, member);
    }

    /// Rewrites an assignment to `super.prop`, as
    /// `transform_static_member_expression` does `super.prop`.
    pub fn transform_assignment_expression_for_super_assignment_target(
        &mut self,
        symbols: &mut SymbolTable,
        member: &mut SuperMember,
    )
        requires
            names_of(*old(self), *old(symbols)).can_create_binding(),
        ensures
            (final(member)@, names_of(*final(self), *final(symbols))) == transform_super_member(
                names_of(*old(self), *old(symbols)),
                SuperForm::Assignment,
                old(member)@,
            ),
    {
        self.transform_super_member(symbols, SuperForm::Assignment, member);
    }

    /// Rewrites an update of `super.prop`, as
    /// `transform_static_member_expression` does `super.prop`.
    pub fn transform_update_expression_for_super_assignment_target(
        &mut self,
        symbols: &mut SymbolTable,
        member: &mut SuperMember,
    )
        requires
            names_of(*old(self), *old(symbols)).can_create_binding(),
        ensures
            (final(member)@, names_of(*final(self), *final(symbols))) == transform_super_member(
                names_of(*old(self), *old(symbols)),
                SuperForm::Update,
                old(member)@,
            ),
    {
        self.transform_super_member(symbols, SuperForm::Update, member);
    }
}

} // verus!
