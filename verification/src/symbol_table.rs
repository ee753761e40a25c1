//! The symbol table of `oxc_semantic`, as far as the rewrite reads and changes it.
//!
//! Symbols and references are named by their index in the table; the table
//! grows one entry at a time and refuses to grow beyond what a 32-bit id can
//! name, so an index below its length is an id. What the table holds is opaque
//! here: three uninterpreted functions stand for how each symbol
//! was declared, for the symbol that each reference resolves to and for the
//! references that each symbol lists, and each executable function below says
//! what the table's own method does to them.

use vstd::prelude::*;
use oxc_index::Idx;
use oxc_semantic::SymbolTable;
use oxc_span::SPAN;
use oxc_syntax::node::NodeId;
use oxc_syntax::reference::{Reference, ReferenceFlags, ReferenceId};
use oxc_syntax::scope::ScopeId;
use oxc_syntax::symbol::{SymbolFlags, SymbolId};

verus! {

/// The symbol table of `oxc_semantic`, taken as it is: nothing is known of what is
/// inside it but what the functions of this file say.
#[verifier::external_type_specification]
#[verifier::external_body]
pub struct ExSymbolTable(SymbolTable);

/// How a symbol was declared: its name, the scope that declares it, and the bits
/// of its flags.
pub struct SymbolDeclaration {
    pub name: Seq<char>,
    pub scope_id: usize,
    pub flags: u32,
}

/// The flag bits of a symbol that is a function-scoped variable and nothing
/// else.
pub const FUNCTION_SCOPED_VARIABLE: u32 = 1;

/// The declaration of each symbol, by the symbol's index.
pub uninterp spec fn symbol_declarations(symbols: SymbolTable) -> Seq<SymbolDeclaration>;

/// The symbol that each reference resolves to, by the reference's index.
pub uninterp spec fn reference_symbols(symbols: SymbolTable) -> Seq<Option<usize>>;

/// The references that each symbol lists as resolving to it, by the symbol's
/// index, in the order in which the table keeps them.
pub uninterp spec fn resolved_references(symbols: SymbolTable) -> Seq<Seq<usize>>;

/// Ids are 32-bit numbers below this bound, so a table can grow only while it
/// holds fewer entries than this.
pub const MAX_INDEX: usize = 0xFFFF_FFFF;

/// The first position at which `id` stands in `ids`, or the length of `ids`.
pub open spec fn first_index(ids: Seq<usize>, id: usize) -> int
    decreases ids.len(),
{
    if ids.len() == 0 {
        0
    } else if ids[0] == id {
        0
    } else {
        1 + first_index(ids.drop_first(), id)
    }
}

/// `ids` after the entry at `at` gave way to the last entry.
pub open spec fn swap_removed(ids: Seq<usize>, at: int) -> Seq<usize> {
    ids.update(at, ids.last()).drop_last()
}

/// `SymbolTable::len`: the number of symbols.
#[verifier::external_body]
pub(crate) fn symbol_count(symbols: &SymbolTable) -> (n: usize)
    ensures
        n == resolved_references(*symbols).len(),
        n == symbol_declarations(*symbols).len(),
{
    symbols.len()
}

/// The length of the table's public `references` list: the number of references.
#[verifier::external_body]
pub(crate) fn reference_count(symbols: &SymbolTable) -> (n: usize)
    ensures
        n == reference_symbols(*symbols).len(),
{
    symbols.references.len()
}

/// `SymbolTable::get_reference` and `Reference::symbol_id`: the symbol that the
/// reference resolves to, if any.
#[verifier::external_body]
pub(crate) fn reference_symbol_id(symbols: &SymbolTable, reference_id: usize) -> (symbol_id: Option<
    usize,
>)
    requires
        reference_id < reference_symbols(*symbols).len(),
    ensures
        symbol_id == reference_symbols(*symbols)[reference_id as int],
{
    symbols.get_reference(ReferenceId::from_usize(reference_id)).symbol_id().map(SymbolId::index)
}

/// `SymbolTable::get_resolved_reference_ids`: the references that the symbol
/// lists, in the table's order.
#[verifier::external_body]
pub(crate) fn resolved_reference_ids(symbols: &SymbolTable, symbol_id: usize) -> (ids: Vec<usize>)
    requires
        symbol_id < resolved_references(*symbols).len(),
    ensures
        ids@ == resolved_references(*symbols)[symbol_id as int],
{
    symbols.get_resolved_reference_ids(SymbolId::from_usize(symbol_id)).iter().map(
        |id| id.index(),
    ).collect()
}

/// `SymbolTable::get_reference_mut` and `Reference::set_symbol_id`: the reference
/// now resolves to `symbol_id`. The lists of the symbols are not touched.
#[verifier::external_body]
pub(crate) fn set_reference_symbol_id(
    symbols: &mut SymbolTable,
    reference_id: usize,
    symbol_id: usize,
)
    requires
        reference_id < reference_symbols(*old(symbols)).len(),
        symbol_id < resolved_references(*old(symbols)).len(),
    ensures
        reference_symbols(*final(symbols)) == reference_symbols(*old(symbols)).update(
            reference_id as int,
            Some(symbol_id),
        ),
        resolved_references(*final(symbols)) == resolved_references(*old(symbols)),
        symbol_declarations(*final(symbols)) == symbol_declarations(*old(symbols)),
{
    symbols.get_reference_mut(ReferenceId::from_usize(reference_id)).set_symbol_id(
        SymbolId::from_usize(symbol_id),
    );
}

/// `SymbolTable::delete_resolved_reference`: the first entry of the symbol's list
/// that is `reference_id` gives way to the list's last entry. The method panics
/// where the list does not hold the reference.
#[verifier::external_body]
pub(crate) fn delete_resolved_reference(
    symbols: &mut SymbolTable,
    symbol_id: usize,
    reference_id: usize,
)
    requires
        symbol_id < resolved_references(*old(symbols)).len(),
        resolved_references(*old(symbols))[symbol_id as int].contains(reference_id),
    ensures
        resolved_references(*final(symbols)) == resolved_references(*old(symbols)).update(
            symbol_id as int,
            swap_removed(
                resolved_references(*old(symbols))[symbol_id as int],
                first_index(resolved_references(*old(symbols))[symbol_id as int], reference_id),
            ),
        ),
        reference_symbols(*final(symbols)) == reference_symbols(*old(symbols)),
        symbol_declarations(*final(symbols)) == symbol_declarations(*old(symbols)),
{
    symbols.delete_resolved_reference(
        SymbolId::from_usize(symbol_id),
        ReferenceId::from_usize(reference_id),
    );
}

/// `SymbolTable::add_resolved_reference`: `reference_id` is appended to the
/// symbol's list.
#[verifier::external_body]
pub(crate) fn add_resolved_reference(
    symbols: &mut SymbolTable,
    symbol_id: usize,
    reference_id: usize,
)
    requires
        symbol_id < resolved_references(*old(symbols)).len(),
        reference_id < reference_symbols(*old(symbols)).len(),
    ensures
        resolved_references(*final(symbols)) == resolved_references(*old(symbols)).update(
            symbol_id as int,
            resolved_references(*old(symbols))[symbol_id as int].push(reference_id),
        ),
        reference_symbols(*final(symbols)) == reference_symbols(*old(symbols)),
        symbol_declarations(*final(symbols)) == symbol_declarations(*old(symbols)),
{
    symbols.add_resolved_reference(
        SymbolId::from_usize(symbol_id),
        ReferenceId::from_usize(reference_id),
    );
}

/// `SymbolTable::create_symbol` for a function-scoped variable `name` declared in
/// `scope_id`, with no span and no node of its own: the table gains one symbol,
/// declared so, which lists no reference, and the new symbol's index is
/// returned.
#[verifier::external_body]
pub(crate) fn create_symbol(symbols: &mut SymbolTable, name: &str, scope_id: usize) -> (symbol_id:
    usize)
    requires
        resolved_references(*old(symbols)).len() < MAX_INDEX,
        scope_id < MAX_INDEX,
    ensures
        symbol_id == resolved_references(*old(symbols)).len(),
        resolved_references(*final(symbols)) == resolved_references(*old(symbols)).push(
            Seq::empty(),
        ),
        reference_symbols(*final(symbols)) == reference_symbols(*old(symbols)),
        symbol_declarations(*final(symbols)) == symbol_declarations(*old(symbols)).push(
            SymbolDeclaration { name: name@, scope_id, flags: FUNCTION_SCOPED_VARIABLE },
        ),
{
    symbols.create_symbol(
        SPAN,
        name,
        SymbolFlags::FunctionScopedVariable,
        ScopeId::from_usize(scope_id),
        NodeId::DUMMY,
    ).index()
}

/// `SymbolTable::create_reference` with a read reference that resolves to
/// `symbol_id` and has no node of its own: the table gains one reference, whose
/// index is returned. The lists of the symbols are not touched.
#[verifier::external_body]
pub(crate) fn create_reference(symbols: &mut SymbolTable, symbol_id: usize) -> (reference_id: usize)
    requires
        reference_symbols(*old(symbols)).len() < MAX_INDEX,
        symbol_id < resolved_references(*old(symbols)).len(),
    ensures
        reference_id == reference_symbols(*old(symbols)).len(),
        reference_symbols(*final(symbols)) == reference_symbols(*old(symbols)).push(
            Some(symbol_id),
        ),
        resolved_references(*final(symbols)) == resolved_references(*old(symbols)),
        symbol_declarations(*final(symbols)) == symbol_declarations(*old(symbols)),
{
    symbols.create_reference(
        Reference::new_with_symbol_id(
            NodeId::DUMMY,
            SymbolId::from_usize(symbol_id),
            ReferenceFlags::read(),
        ),
    ).index()
}

} // verus!
