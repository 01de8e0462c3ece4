//! Facts about the inheritance chains of a symbol table.

use vstd::prelude::*;
use crate::model::FactoryModel;
use crate::symbol::Symbol;

verus! {

/// More fuel never hurts: a chain that ends within `small` steps ends within
/// `large` steps.
pub proof fn lemma_rooted_monotone(table: FactoryModel, s: Symbol, small: nat, large: nat)
    requires
        table.rooted_within(s, small),
        small <= large,
    ensures
        table.rooted_within(s, large),
    decreases small,
{
    match table.parent(s) {
        None => {},
        Some(p) => {
            lemma_rooted_monotone(table, p, (small - 1) as nat, (large - 1) as nat);
        },
    }
}

/// The chain read off with enough fuel does not depend on the fuel.
pub proof fn lemma_descending_fuel(table: FactoryModel, s: Symbol, a: nat, b: nat)
    requires
        table.rooted_within(s, a),
        table.rooted_within(s, b),
    ensures
        table.descending_within(s, a) == table.descending_within(s, b),
    decreases a,
{
    match table.parent(s) {
        None => {},
        Some(p) => {
            lemma_descending_fuel(table, p, (a - 1) as nat, (b - 1) as nat);
        },
    }
}

/// With enough fuel the chain read off is the chain of `s`.
pub proof fn lemma_descending_is(table: FactoryModel, s: Symbol, fuel: nat)
    requires
        table.rooted_within(s, fuel),
    ensures
        table.rooted(s),
        table.descending(s) == table.descending_within(s, fuel),
{
    lemma_descending_fuel(table, s, table.reach(s), fuel);
}

/// The chain of a meaning is the meaning itself followed by the chain of
/// its parent; the parent of a meaning with a finite chain has one too.
pub proof fn lemma_descending_unfold(table: FactoryModel, s: Symbol)
    requires
        table.rooted(s),
    ensures
        table.is_meaning(s),
        table.parent(s) matches Some(p) ==> table.rooted(p) && table.descending(s) == seq![s]
            + table.descending(p),
        table.parent(s) is None ==> table.descending(s) == seq![s],
        table.descending(s).len() >= 1,
        table.descending(s)[0] == s,
{
    let fuel = table.reach(s);
    match table.parent(s) {
        None => {},
        Some(p) => {
            lemma_descending_is(table, p, (fuel - 1) as nat);
        },
    }
}

/// The ascending meaning list of a meaning without parent is the meaning
/// alone; that of a meaning with a parent is the parent's list followed by
/// the meaning. So the list runs from the root to the meaning itself, each
/// element the parent of the next.
pub proof fn lemma_ascending_unfold(table: FactoryModel, s: Symbol)
    requires
        table.rooted(s),
    ensures
        table.parent(s) matches Some(p) ==> table.rooted(p) && table.ascending(s)
            == table.ascending(p).push(s),
        table.parent(s) is None ==> table.ascending(s) == seq![s],
        table.ascending(s).len() == table.descending(s).len(),
        table.ascending(s).len() >= 1,
        table.ascending(s).last() == s,
{
    lemma_descending_unfold(table, s);
}

/// Every element of the chain of a meaning is a meaning with a finite chain
/// of its own, and each element but the last has the next one as its parent.
pub proof fn lemma_descending_links(table: FactoryModel, s: Symbol, i: int)
    requires
        table.rooted(s),
        0 <= i < table.descending(s).len(),
    ensures
        table.rooted(table.descending(s)[i]),
        table.is_meaning(table.descending(s)[i]),
        i + 1 < table.descending(s).len() ==> table.parent(table.descending(s)[i]) == Some(
            table.descending(s)[i + 1],
        ),
        i + 1 == table.descending(s).len() ==> table.parent(table.descending(s)[i]) is None,
        table.descending(table.descending(s)[i]) == table.descending(s).skip(i),
    decreases i,
{
    lemma_descending_unfold(table, s);
    if i > 0 {
        lemma_descending_links(table, table.parent(s).unwrap(), i - 1);
    }
}

/// The ascending list and the chain hold the same meanings.
pub proof fn lemma_ascending_contains(table: FactoryModel, s: Symbol, x: Symbol)
    ensures
        table.ascending(s).contains(x) <==> table.descending(s).contains(x),
{
    let down = table.descending(s);
    let up = table.ascending(s);
    if down.contains(x) {
        let i = choose|i: int| 0 <= i < down.len() && down[i] == x;
        assert(up[down.len() - 1 - i] == x);
    }
    if up.contains(x) {
        let i = choose|i: int| 0 <= i < up.len() && up[i] == x;
        assert(down[down.len() - 1 - i] == x);
    }
}

/// No meaning occurs twice in a chain.
pub proof fn lemma_descending_distinct(table: FactoryModel, s: Symbol, i: int, j: int)
    requires
        table.rooted(s),
        0 <= i < j < table.descending(s).len(),
    ensures
        table.descending(s)[i] != table.descending(s)[j],
{
    lemma_descending_links(table, s, i);
    lemma_descending_links(table, s, j);
    let chain = table.descending(s);
    if chain[i] == chain[j] {
        assert(chain.skip(i).len() == chain.skip(j).len());
    }
}

/// No meaning occurs twice in an ascending list.
pub proof fn lemma_ascending_distinct(table: FactoryModel, s: Symbol, i: int, j: int)
    requires
        table.rooted(s),
        0 <= i < j < table.ascending(s).len(),
    ensures
        table.ascending(s)[i] != table.ascending(s)[j],
{
    let n = table.descending(s).len();
    lemma_descending_distinct(table, s, n - 1 - j, n - 1 - i);
}

/// Every element of an ascending list is a meaning whose own list is the
/// part of the list up to it, and each element but the first has the one
/// before it as its parent.
pub proof fn lemma_ascending_links(table: FactoryModel, s: Symbol, i: int)
    requires
        table.rooted(s),
        0 <= i < table.ascending(s).len(),
    ensures
        table.rooted(table.ascending(s)[i]),
        table.is_meaning(table.ascending(s)[i]),
        i > 0 ==> table.parent(table.ascending(s)[i]) == Some(table.ascending(s)[i - 1]),
        i == 0 ==> table.parent(table.ascending(s)[i]) is None,
        table.ascending(table.ascending(s)[i]) == table.ascending(s).take(i + 1),
{
    let n = table.descending(s).len();
    lemma_descending_links(table, s, n - 1 - i);
}

/// `after` has every meaning of `before`, each with the parent it had.
pub open spec fn same_hierarchy(before: FactoryModel, after: FactoryModel) -> bool {
    forall|s: Symbol| #[trigger]
        before.is_meaning(s) ==> after.is_meaning(s) && after.parent(s) == before.parent(s)
}

/// Chains survive every change that keeps the meanings and their parents.
pub proof fn lemma_same_hierarchy_within(
    before: FactoryModel,
    after: FactoryModel,
    s: Symbol,
    fuel: nat,
)
    requires
        same_hierarchy(before, after),
        before.rooted_within(s, fuel),
    ensures
        after.rooted_within(s, fuel),
        after.descending_within(s, fuel) == before.descending_within(s, fuel),
    decreases fuel,
{
    match before.parent(s) {
        None => {},
        Some(p) => {
            lemma_same_hierarchy_within(before, after, p, (fuel - 1) as nat);
        },
    }
}

/// Chains survive every change that keeps the meanings and their parents.
pub proof fn lemma_same_hierarchy(before: FactoryModel, after: FactoryModel, s: Symbol)
    requires
        same_hierarchy(before, after),
        before.rooted(s),
    ensures
        after.rooted(s),
        after.descending(s) == before.descending(s),
        after.ascending(s) == before.ascending(s),
{
    let fuel = before.reach(s);
    lemma_same_hierarchy_within(before, after, s, fuel);
    lemma_descending_is(after, s, fuel);
}

} // verus!
