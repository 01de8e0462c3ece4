//! What holds of the symbol table and of the generators across calls.

use vstd::prelude::*;
use crate::hierarchy::{
    lemma_ascending_distinct, lemma_ascending_links, lemma_ascending_unfold, same_hierarchy,
};
use crate::layout::unwrap_steps;
use crate::model::{
    entry_for, has_entry, FactoryModel, FieldModel, MeaningModel, MethodModel, OverrideModel,
    SlotModel,
};
use crate::preservation::keeps_symbols;
use crate::processing_step_3_2::declared;
use crate::processing_step_3_7::{field_initializer, field_initializers, initializer_order};
use crate::symbol::{lemma_next_symbol, lemma_symbol_identity, OverrideLogicMapping, Symbol};

verus! {

/// Identity, not content, tells symbols apart: a symbol that is created
/// differs from every symbol that the table had before, and two symbols
/// created one after the other differ even where they hold the same.
pub proof fn lemma_created_symbols_differ(
    table: FactoryModel,
    existing: Symbol,
    first: Symbol,
    second: Symbol,
    slot: SlotModel,
)
    requires
        table.contains(existing),
        first.index() == table.slots.len(),
        second.index() == table.with_slot(slot).slots.len(),
    ensures
        existing != first,
        existing != second,
        first != second,
        table.with_slot(slot).with_slot(slot).slot(first) == slot,
        table.with_slot(slot).with_slot(slot).slot(second) == slot,
{
}

/// For a chain of four meanings, each the parent of the next, the
/// ascending list of the last is the four from the root down, and that of
/// the root is the root alone.
pub proof fn lemma_ascending_of_chain(
    table: FactoryModel,
    root: Symbol,
    a: Symbol,
    b: Symbol,
    c: Symbol,
)
    requires
        table.wf(),
        table.is_meaning(c),
        table.parent(c) == Some(b),
        table.parent(b) == Some(a),
        table.parent(a) == Some(root),
        table.parent(root) is None,
    ensures
        table.ascending(c) == seq![root, a, b, c],
        table.ascending(root) == seq![root],
{
    lemma_ascending_unfold(table, c);
    lemma_ascending_unfold(table, b);
    lemma_ascending_unfold(table, a);
}

/// The ascending meaning list of a meaning without parent is the meaning
/// alone; that of a meaning with a parent is the list of the parent,
/// followed by the meaning.
pub proof fn lemma_ascending_list(table: FactoryModel, meaning: Symbol)
    requires
        table.wf(),
        table.is_meaning(meaning),
    ensures
        table.parent(meaning) is None ==> table.ascending(meaning) == seq![meaning],
        table.parent(meaning) matches Some(parent) ==> table.is_meaning(parent)
            && table.ascending(meaning) == table.ascending(parent).push(meaning),
{
    lemma_ascending_unfold(table, meaning);
}

/// The length of the ascending list of a meaning is one more than that of
/// its parent's, and 1 for a meaning without parent: the depth of the
/// meaning in the hierarchy, plus one.
pub proof fn lemma_ascending_length(table: FactoryModel, meaning: Symbol)
    requires
        table.wf(),
        table.is_meaning(meaning),
    ensures
        table.parent(meaning) matches Some(parent) ==> table.ascending(meaning).len()
            == table.ascending(parent).len() + 1,
        table.parent(meaning) is None ==> table.ascending(meaning).len() == 1,
        table.ascending(meaning).last() == meaning,
        table.parent(table.ascending(meaning)[0]) is None,
{
    lemma_ascending_unfold(table, meaning);
    lemma_ascending_links(table, meaning, 0);
}

/// Identity is stable: whatever is created or registered, every symbol
/// stays a handle of the table, of the kind and with the name that it had,
/// every meaning keeps its parent, and every node of override logic stays.
/// Only a new parent changes the hierarchy.
pub proof fn lemma_changes_keep_symbols(
    table: FactoryModel,
    slot: SlotModel,
    meaning: Symbol,
    changed: MeaningModel,
    method: Symbol,
    overridden: MethodModel,
    node: OverrideModel,
)
    requires
        table.is_meaning(meaning),
        changed.name == table.meaning(meaning).name,
        table.is_method(method),
        overridden.name == table.method(method).name,
    ensures
        keeps_symbols(table, table.with_slot(slot)),
        same_hierarchy(table, table.with_slot(slot)),
        keeps_symbols(table, table.with_meaning(meaning, changed)),
        changed.inherits == table.parent(meaning) ==> same_hierarchy(
            table,
            table.with_meaning(meaning, changed),
        ),
        keeps_symbols(table, table.with_method(method, overridden)),
        same_hierarchy(table, table.with_method(method, overridden)),
        keeps_symbols(table, table.with_override(node)),
        same_hierarchy(table, table.with_override(node)),
{
}

/// An accessor follows the hierarchy: along the ascending list of a
/// meaning every unwrap step leaves the layer of a meaning for the layer of
/// one of its children, and the steps are as many as the meaning has
/// ancestors.
pub proof fn lemma_traversal_follows_hierarchy(table: FactoryModel, meaning: Symbol, k: int)
    requires
        table.wf(),
        table.is_meaning(meaning),
        0 <= k < table.ascending(meaning).len() - 1,
    ensures
        ({
            let list = table.ascending(meaning);
            let steps = unwrap_steps(table.names(list), 0);
            &&& steps.len() == list.len() - 1
            &&& steps[k] == (table.name(list[k]), table.name(list[k + 1]))
            &&& table.parent(list[k + 1]) == Some(list[k])
        }),
{
    lemma_ascending_links(table, meaning, k + 1);
}

/// The fields of `meaning` after a declaration on it that did not collide:
/// those it had, followed by the new slot, which holds `field` and belongs
/// to `meaning` alone.
pub proof fn lemma_declared_fields(
    table: FactoryModel,
    meaning: Symbol,
    field: FieldModel,
    code: Seq<char>,
)
    requires
        table.wf(),
        table.is_meaning(meaning),
    ensures
        ({
            let after = declared(table, meaning, field, code);
            let slot = table.next_symbol();
            &&& after.is_meaning(meaning)
            &&& after.meaning(meaning).fields == table.meaning(meaning).fields.push(slot)
            &&& after.is_field(slot)
            &&& after.field(slot) == field
            &&& after.owns(meaning, slot)
            &&& forall|m: Symbol| #[trigger] after.owns(m, slot) ==> m == meaning
            &&& forall|i: int|
                0 <= i < table.meaning(meaning).fields.len() ==> after.slot(
                    #[trigger] table.meaning(meaning).fields[i],
                ) == table.slot(table.meaning(meaning).fields[i])
        }),
{
    let after = declared(table, meaning, field, code);
    let slot = table.next_symbol();
    lemma_next_symbol(table);
    let fields = table.meaning(meaning).fields;
    assert(after.meaning(meaning).fields[fields.len() as int] == slot);
    assert forall|m: Symbol| #[trigger] after.owns(m, slot) implies m == meaning by {
        lemma_symbol_identity(m, meaning);
        if m != meaning {
            assert(table.is_meaning(m));
        }
    }
}

/// Of two declarations of one name on one meaning the second collides, and
/// it leaves nothing behind: after a declaration that did not collide the
/// meaning has a field of that name, exactly one, and a declaration that
/// collides registers no field.
pub proof fn lemma_redeclared_field_collides(
    table: FactoryModel,
    meaning: Symbol,
    first: FieldModel,
    code: Seq<char>,
    second: FieldModel,
)
    requires
        table.wf(),
        table.is_meaning(meaning),
        !table.has_named(table.meaning(meaning).fields, first.name),
        second.name == first.name,
    ensures
        ({
            let after = declared(table, meaning, first, code);
            let fields = after.meaning(meaning).fields;
            let rejected = after.with_slot(SlotModel::Field(second));
            &&& after.has_named(fields, second.name)
            &&& forall|i: int, j: int|
                0 <= i < fields.len() && 0 <= j < fields.len() && after.name(#[trigger] fields[i])
                    == first.name && after.name(#[trigger] fields[j]) == first.name ==> i == j
            &&& rejected.meaning(meaning).fields == fields
            &&& forall|i: int|
                0 <= i < fields.len() ==> rejected.name(#[trigger] fields[i]) == after.name(
                    fields[i],
                )
        }),
{
    lemma_declared_fields(table, meaning, first, code);
}

/// The initialization of fields does not change where their slots do not.
pub proof fn lemma_initializers_kept(before: FactoryModel, after: FactoryModel, fields: Seq<Symbol>)
    requires
        forall|i: int|
            0 <= i < fields.len() ==> after.slot(#[trigger] fields[i]) == before.slot(fields[i]),
    ensures
        field_initializers(after, fields) == field_initializers(before, fields),
    decreases fields.len(),
{
    if fields.len() > 0 {
        let rest = fields.drop_last();
        lemma_initializers_kept(before, after, rest);
    }
}

/// A field that was declared is initialized with its default value: the
/// layer of the meaning then initializes the fields it had as before, and
/// after them the cell of the new field, of the kind that the declaration
/// asks for, with the default value as it was declared. The accessors of
/// the field, which read and write that cell, are the end of the method
/// code of the meaning.
pub proof fn lemma_declared_field_gets_default(
    table: FactoryModel,
    meaning: Symbol,
    field: FieldModel,
    code: Seq<char>,
)
    requires
        table.wf(),
        table.is_meaning(meaning),
    ensures
        ({
            let after = declared(table, meaning, field, code);
            &&& field_initializers(after, after.meaning(meaning).fields) == field_initializers(
                table,
                table.meaning(meaning).fields,
            ) + field_initializer(field.name, field.field_init, field.is_ref)
            &&& after.meaning(meaning).method_output == table.meaning(meaning).method_output
                + code
        }),
{
    let after = declared(table, meaning, field, code);
    let old_fields = table.meaning(meaning).fields;
    let fields = after.meaning(meaning).fields;
    lemma_declared_fields(table, meaning, field, code);
    assert(fields.drop_last() =~= old_fields);
    lemma_initializers_kept(table, after, old_fields);
}

/// The initializers that a factory runs follow the hierarchy: they are the
/// end of the ascending list of the meaning, its last two elements or, for
/// a meaning without parent, its only one. So the initializer of an
/// ancestor never runs after that of its descendant, and for a meaning whose
/// parent has no parent all initializers of the ascending list run, in its
/// order.
pub proof fn lemma_initializers_follow_hierarchy(table: FactoryModel, meaning: Symbol)
    requires
        table.wf(),
        table.is_meaning(meaning),
    ensures
        ({
            let list = table.ascending(meaning);
            let order = initializer_order(table, meaning);
            &&& order.len() <= list.len()
            &&& order == list.skip(list.len() - order.len())
            &&& order.last() == meaning
            &&& table.parent(meaning) is None ==> order == list
            &&& table.parent(meaning) matches Some(parent) ==> (table.parent(parent) is None
                ==> order == list)
        }),
{
    lemma_ascending_unfold(table, meaning);
}

/// `nodes` are the nodes that the override logic starting with `entries`
/// holds for the meanings of `path`, level by level: the first level has
/// `nodes[0]` for `path[0]`, and the node of each level has the node of the
/// next level for the next meaning.
pub open spec fn override_chain(
    table: FactoryModel,
    entries: Seq<(Symbol, OverrideLogicMapping)>,
    path: Seq<Symbol>,
    nodes: Seq<OverrideLogicMapping>,
) -> bool {
    &&& nodes.len() == path.len()
    &&& path.len() > 0 ==> entry_for(entries, path[0]) == Some(nodes[0])
    &&& forall|i: int|
        1 <= i < path.len() ==> entry_for(
            table.override_node(nodes[i - 1]).override_logic_mapping,
            path[i],
        ) == Some(#[trigger] nodes[i])
}

/// The most derived override wins: where the override logic holds a node
/// for every meaning of `path`, and the node of the last one has code, that
/// code is in force, whatever the nodes above it hold.
pub proof fn lemma_deepest_override_wins(
    table: FactoryModel,
    entries: Seq<(Symbol, OverrideLogicMapping)>,
    path: Seq<Symbol>,
    nodes: Seq<OverrideLogicMapping>,
    inherited: Option<Seq<char>>,
    code: Seq<char>,
)
    requires
        path.len() > 0,
        override_chain(table, entries, path, nodes),
        table.override_node(nodes.last()).override_code == Some(code),
    ensures
        table.resolve_from(entries, path, inherited) == Some(code),
    decreases path.len(),
{
    let found = table.override_node(nodes[0]);
    let next = if found.override_code is Some {
        found.override_code
    } else {
        inherited
    };
    let rest = path.drop_first();
    let deeper = nodes.drop_first();
    if path.len() == 1 {
        assert(table.resolve_from(found.override_logic_mapping, rest, next) == next);
    } else {
        assert(rest[0] == path[1] && deeper[0] == nodes[1]);
        assert forall|i: int| 1 <= i < rest.len() implies entry_for(
            table.override_node(deeper[i - 1]).override_logic_mapping,
            rest[i],
        ) == Some(#[trigger] deeper[i]) by {
            assert(deeper[i] == nodes[i + 1]);
            assert(deeper[i - 1] == nodes[i]);
            assert(rest[i] == path[i + 1]);
        }
        assert(deeper.last() == nodes.last());
        lemma_deepest_override_wins(table, found.override_logic_mapping, rest, deeper, next, code);
    }
}

/// For a method declared on `a` with override logic at its child `b` and,
/// beneath that, at the child `d` of `b`: the override code for an instance
/// of `d` is that of `d`, whatever code `b` has.
pub proof fn lemma_nested_override_wins(
    table: FactoryModel,
    method: Symbol,
    a: Symbol,
    b: Symbol,
    d: Symbol,
    at_b: OverrideLogicMapping,
    at_d: OverrideLogicMapping,
    code: Seq<char>,
)
    requires
        table.wf(),
        table.is_method(method),
        table.method(method).defined_in == a,
        table.is_meaning(d),
        table.parent(d) == Some(b),
        table.parent(b) == Some(a),
        entry_for(table.method(method).override_logic_mapping, b) == Some(at_b),
        entry_for(table.override_node(at_b).override_logic_mapping, d) == Some(at_d),
        table.override_node(at_d).override_code == Some(code),
    ensures
        table.resolve_override(method, d) == Some(code),
{
    lemma_ascending_list(table, d);
    lemma_ascending_list(table, b);
    let list = table.ascending(d);
    let upper = table.ascending(a);
    let at = upper.len() - 1;
    assert(list[at] == a);
    let chosen = FactoryModel::position_in(list, a);
    if chosen < at {
        lemma_ascending_distinct(table, d, chosen, at);
    }
    if chosen > at {
        lemma_ascending_distinct(table, d, at, chosen);
    }
    let path = table.path_below(a, d);
    let nodes = seq![at_b, at_d];
    lemma_deepest_override_wins(
        table,
        table.method(method).override_logic_mapping,
        path,
        nodes,
        None,
        code,
    );
}

/// A level without an entry for the meaning leaves the code of the
/// enclosing level in force, and so does a node without code of its own.
pub proof fn lemma_missing_override_inherits(
    table: FactoryModel,
    entries: Seq<(Symbol, OverrideLogicMapping)>,
    path: Seq<Symbol>,
    inherited: Option<Seq<char>>,
)
    requires
        path.len() > 0,
    ensures
        !has_entry(entries, path[0]) ==> table.resolve_from(entries, path, inherited) == inherited,
        entry_for(entries, path[0]) matches Some(node) ==> (path.len() == 1 && table.override_node(
            node,
        ).override_code is None ==> table.resolve_from(entries, path, inherited) == inherited),
{
    if path.len() == 1 {
        if let Some(node) = entry_for(entries, path[0]) {
            let found = table.override_node(node);
            assert(table.resolve_from(
                found.override_logic_mapping,
                path.drop_first(),
                if found.override_code is Some {
                    found.override_code
                } else {
                    inherited
                },
            ) == (if found.override_code is Some {
                found.override_code
            } else {
                inherited
            }));
        }
    }
}

} // verus!
