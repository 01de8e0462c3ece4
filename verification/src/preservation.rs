//! Why the changes that the symbol table allows keep its invariant.

use vstd::prelude::*;
use crate::hierarchy::{
    lemma_descending_is, lemma_rooted_monotone, lemma_same_hierarchy, same_hierarchy,
};
use crate::model::{FactoryModel, MeaningModel};
use crate::symbol::{lemma_symbol_identity, OverrideLogicMapping, Symbol};

verus! {

/// `after` has every symbol of `before`, with its kind and its name, and
/// every override node of `before`.
pub open spec fn keeps_symbols(before: FactoryModel, after: FactoryModel) -> bool {
    &&& before.overrides.len() <= after.overrides.len()
    &&& forall|s: Symbol| #[trigger]
        before.contains(s) ==> {
            &&& after.contains(s)
            &&& after.name(s) == before.name(s)
            &&& (before.slot(s) is Meaning <==> after.slot(s) is Meaning)
            &&& (before.slot(s) is Field <==> after.slot(s) is Field)
            &&& (before.slot(s) is Method <==> after.slot(s) is Method)
        }
}

/// Fields keep their owners under every change that leaves the fields of
/// each meaning as they were and gives a new meaning none.
pub proof fn lemma_owners_kept(before: FactoryModel, after: FactoryModel)
    requires
        before.single_owner(),
        forall|m: Symbol| #[trigger]
            after.is_meaning(m) ==> (before.is_meaning(m) && after.meaning(m).fields
                == before.meaning(m).fields) || after.meaning(m).fields.len() == 0,
    ensures
        after.single_owner(),
{
    assert forall|a: Symbol, b: Symbol, f: Symbol| #[trigger]
        after.owns(a, f) && #[trigger] after.owns(b, f) implies a == b by {
        assert(before.owns(a, f));
        assert(before.owns(b, f));
    }
}

/// A change that keeps every symbol's kind and name, every meaning's
/// parent and every override node, and that leaves all slots but that of
/// `target` as they were, keeps the invariant, if the slot of `target` is in
/// order afterwards.
pub proof fn lemma_wf_after_change(before: FactoryModel, after: FactoryModel, target: Symbol)
    requires
        before.wf(),
        keeps_symbols(before, after),
        same_hierarchy(before, after),
        after.slots.len() <= usize::MAX,
        after.single_owner(),
        after.contains(target),
        forall|s: Symbol| #[trigger]
            after.contains(s) && s != target ==> before.contains(s) && after.slot(s)
                == before.slot(s),
        forall|n: OverrideLogicMapping| #[trigger]
            after.contains_override(n) ==> before.contains_override(n) && after.override_node(n)
                == before.override_node(n),
        after.is_meaning(target) ==> after.lists_wf(after.meaning(target)) && (before.is_meaning(
            target,
        ) || after.parent(target) is None),
        after.is_method(target) ==> after.method_wf(target),
    ensures
        after.wf(),
{
    assert forall|s: Symbol| #[trigger] after.is_meaning(s) implies after.meaning_wf(s) by {
        if before.contains(s) {
            assert(before.is_meaning(s));
            lemma_same_hierarchy(before, after, s);
        } else {
            assert(after.rooted_within(s, 0));
        }
    }
    assert forall|s: Symbol| #[trigger] after.is_method(s) implies after.method_wf(s) by {
        if s != target {
            assert(before.is_method(s));
        }
    }
}

/// A change to the override nodes alone keeps the invariant, if all nodes
/// but that of `target` stay as they were and that of `target` is in order
/// afterwards.
pub proof fn lemma_wf_after_override_change(
    before: FactoryModel,
    after: FactoryModel,
    target: OverrideLogicMapping,
)
    requires
        before.wf(),
        after.slots == before.slots,
        before.overrides.len() <= after.overrides.len(),
        after.contains_override(target),
        forall|n: OverrideLogicMapping| #[trigger]
            after.contains_override(n) && n != target ==> before.contains_override(n)
                && after.override_node(n) == before.override_node(n),
        after.entries_wf(after.override_node(target).override_logic_mapping),
    ensures
        after.wf(),
{
    lemma_owners_kept(before, after);
    assert forall|s: Symbol| #[trigger] after.is_meaning(s) implies after.meaning_wf(s) by {
        assert(before.is_meaning(s));
        lemma_same_hierarchy(before, after, s);
    }
    assert forall|s: Symbol| #[trigger] after.is_method(s) implies after.method_wf(s) by {
        assert(before.is_method(s));
    }
}

/// `child` is no element of the chain read off from `s`.
pub open spec fn chain_avoids(table: FactoryModel, s: Symbol, fuel: nat, child: Symbol) -> bool {
    !table.descending_within(s, fuel).contains(child)
}

/// `after` is `before` with the parent of `child` replaced by `value`.
pub open spec fn relinked(
    before: FactoryModel,
    after: FactoryModel,
    child: Symbol,
    value: Option<Symbol>,
) -> bool {
    &&& before.is_meaning(child)
    &&& after.is_meaning(child)
    &&& after.parent(child) == value
    &&& forall|s: Symbol| #[trigger]
        before.is_meaning(s) ==> after.is_meaning(s) && (s != child ==> after.parent(s)
            == before.parent(s))
}

/// A chain that does not pass through `child` is not touched by giving
/// `child` another parent.
pub proof fn lemma_relink_keeps_other_chains(
    before: FactoryModel,
    after: FactoryModel,
    child: Symbol,
    value: Option<Symbol>,
    s: Symbol,
    fuel: nat,
)
    requires
        relinked(before, after, child, value),
        before.rooted_within(s, fuel),
        chain_avoids(before, s, fuel, child),
    ensures
        after.rooted_within(s, fuel),
        after.descending_within(s, fuel) == before.descending_within(s, fuel),
    decreases fuel,
{
    let chain = before.descending_within(s, fuel);
    assert(chain[0] == s);
    match before.parent(s) {
        None => {},
        Some(p) => {
            let rest = before.descending_within(p, (fuel - 1) as nat);
            assert forall|i: int| 0 <= i < rest.len() implies rest[i] != child by {
                assert(chain[i + 1] == rest[i]);
            }
            lemma_relink_keeps_other_chains(before, after, child, value, p, (fuel - 1) as nat);
        },
    }
}

/// After `child` got a parent whose chain does not pass through `child`,
/// every chain still ends: one that passed through `child` goes on along
/// the chain of the new parent.
pub proof fn lemma_relink_keeps_rooted(
    before: FactoryModel,
    after: FactoryModel,
    child: Symbol,
    value: Option<Symbol>,
    parent_fuel: nat,
    s: Symbol,
    fuel: nat,
)
    requires
        relinked(before, after, child, value),
        value matches Some(p) ==> before.rooted_within(p, parent_fuel) && chain_avoids(
            before,
            p,
            parent_fuel,
            child,
        ),
        before.rooted_within(s, fuel),
    ensures
        after.rooted_within(s, fuel + parent_fuel + 1),
    decreases fuel,
{
    if s == child {
        match value {
            None => {},
            Some(p) => {
                lemma_relink_keeps_other_chains(before, after, child, value, p, parent_fuel);
                lemma_rooted_monotone(after, p, parent_fuel, fuel + parent_fuel);
            },
        }
    } else {
        match before.parent(s) {
            None => {},
            Some(q) => {
                lemma_relink_keeps_rooted(
                    before,
                    after,
                    child,
                    value,
                    parent_fuel,
                    q,
                    (fuel - 1) as nat,
                );
            },
        }
    }
}

/// Giving the meaning `child` the parent `value` keeps the invariant, if
/// `value` is a meaning whose chain does not pass through `child`. The new
/// chain of `child` is `child` followed by the chain that `value` had.
pub proof fn lemma_wf_after_relink(before: FactoryModel, child: Symbol, value: Option<Symbol>)
    requires
        before.wf(),
        before.is_meaning(child),
        value matches Some(p) ==> before.is_meaning(p) && !before.descending(p).contains(child),
    ensures
        before.with_meaning(
            child,
            MeaningModel { inherits: value, ..before.meaning(child) },
        ).wf(),
        value matches Some(p) ==> before.with_meaning(
            child,
            MeaningModel { inherits: value, ..before.meaning(child) },
        ).descending(child) == seq![child] + before.descending(p),
{
    let after = before.with_meaning(
        child,
        MeaningModel { inherits: value, ..before.meaning(child) },
    );
    assert forall|s: Symbol| #[trigger] before.is_meaning(s) implies after.is_meaning(s) && (s
        != child ==> after.parent(s) == before.parent(s)) by {
        lemma_symbol_identity(s, child);
    }
    assert(forall|m: Symbol| #[trigger]
        after.is_meaning(m) ==> before.is_meaning(m) && after.meaning(m).fields
            == before.meaning(m).fields);
    lemma_owners_kept(before, after);
    let parent_fuel: nat = match value {
        Some(p) => before.reach(p),
        None => 0,
    };
    match value {
        Some(p) => {
            lemma_relink_keeps_other_chains(before, after, child, value, p, parent_fuel);
            lemma_descending_is(after, child, parent_fuel + 1);
        },
        None => {},
    }
    assert forall|s: Symbol| #[trigger] after.is_meaning(s) implies after.meaning_wf(s) by {
        lemma_relink_keeps_rooted(before, after, child, value, parent_fuel, s, before.reach(s));
    }
    assert forall|s: Symbol| #[trigger] after.is_method(s) implies after.method_wf(s) by {
        assert(before.is_method(s));
    }
    assert forall|n: OverrideLogicMapping| #[trigger]
        after.contains_override(n) implies after.entries_wf(
        after.override_node(n).override_logic_mapping,
    ) by {
        assert(before.contains_override(n));
    }
}

} // verus!
