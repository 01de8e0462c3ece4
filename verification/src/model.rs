//! The symbol table as a mathematical value: what each slot holds, and what
//! holds of the table as a whole.

use vstd::prelude::*;
use crate::symbol::{OverrideLogicMapping, Symbol};

verus! {

/// What a meaning slot holds.
pub struct MeaningModel {
    pub name: Seq<char>,
    /// The one parent, if any.
    pub inherits: Option<Symbol>,
    /// Direct children, in the order in which they registered.
    pub submeanings: Seq<Symbol>,
    /// Method slots, in order of registration; no two share a name.
    pub methods: Seq<Symbol>,
    /// Field slots, in order of registration; no two share a name.
    pub fields: Seq<Symbol>,
    /// The code generated so far for the meaning's methods.
    pub method_output: Seq<char>,
}

/// What a field slot holds.
pub struct FieldModel {
    pub name: Seq<char>,
    pub field_type: Seq<char>,
    pub field_init: Seq<char>,
    pub is_ref: bool,
}

/// What a method slot holds.
pub struct MethodModel {
    pub name: Seq<char>,
    pub defined_in: Symbol,
    pub doc_attribute: Option<Seq<char>>,
    /// Override logic per descendant meaning; no meaning occurs twice.
    pub override_logic_mapping: Seq<(Symbol, OverrideLogicMapping)>,
}

/// What a symbol holds: one of the three kinds.
pub enum SlotModel {
    Meaning(MeaningModel),
    Field(FieldModel),
    Method(MethodModel),
}

/// What a node of override logic holds.
pub struct OverrideModel {
    pub override_code: Option<Seq<char>>,
    /// Override logic of further descendants; no meaning occurs twice.
    pub override_logic_mapping: Seq<(Symbol, OverrideLogicMapping)>,
}

/// The symbol table as a mathematical value.
pub struct FactoryModel {
    pub slots: Seq<SlotModel>,
    pub overrides: Seq<OverrideModel>,
}

/// `entries` has an entry for `key`.
pub open spec fn has_entry(entries: Seq<(Symbol, OverrideLogicMapping)>, key: Symbol) -> bool {
    exists|i: int| 0 <= i < entries.len() && (#[trigger] entries[i]).0 == key
}

/// The position of an entry for `key`; where no meaning has two entries,
/// the position of the only one.
pub open spec fn entry_position(entries: Seq<(Symbol, OverrideLogicMapping)>, key: Symbol) -> int {
    choose|i: int| 0 <= i < entries.len() && (#[trigger] entries[i]).0 == key
}

/// The node recorded for `key`, if there is one.
pub open spec fn entry_for(entries: Seq<(Symbol, OverrideLogicMapping)>, key: Symbol) -> Option<
    OverrideLogicMapping,
> {
    if has_entry(entries, key) {
        Some(entries[entry_position(entries, key)].1)
    } else {
        None
    }
}

/// No meaning has two entries.
pub open spec fn distinct_keys(entries: Seq<(Symbol, OverrideLogicMapping)>) -> bool {
    forall|i: int, j: int|
        0 <= i < j < entries.len() ==> (#[trigger] entries[i]).0 != (#[trigger] entries[j]).0
}

/// `entries` with `node` recorded for `key`: in place of the old entry if
/// there was one, else at the end.
pub open spec fn entries_with(
    entries: Seq<(Symbol, OverrideLogicMapping)>,
    key: Symbol,
    node: OverrideLogicMapping,
) -> Seq<(Symbol, OverrideLogicMapping)> {
    if has_entry(entries, key) {
        entries.update(entry_position(entries, key), (key, node))
    } else {
        entries.push((key, node))
    }
}

impl MeaningModel {
    /// A meaning as it is created: no parent, and nothing registered.
    pub open spec fn fresh(name: Seq<char>) -> MeaningModel {
        MeaningModel {
            name,
            inherits: None,
            submeanings: Seq::empty(),
            methods: Seq::empty(),
            fields: Seq::empty(),
            method_output: Seq::empty(),
        }
    }

    pub open spec fn with_inherits(self, inherits: Option<Symbol>) -> MeaningModel {
        MeaningModel { inherits, ..self }
    }

    pub open spec fn with_submeanings(self, submeanings: Seq<Symbol>) -> MeaningModel {
        MeaningModel { submeanings, ..self }
    }

    pub open spec fn with_methods(self, methods: Seq<Symbol>) -> MeaningModel {
        MeaningModel { methods, ..self }
    }

    pub open spec fn with_fields(self, fields: Seq<Symbol>) -> MeaningModel {
        MeaningModel { fields, ..self }
    }

    pub open spec fn with_method_output(self, method_output: Seq<char>) -> MeaningModel {
        MeaningModel { method_output, ..self }
    }
}

impl MethodModel {
    /// A method as it is created: no override logic yet.
    pub open spec fn fresh(
        name: Seq<char>,
        defined_in: Symbol,
        doc_attribute: Option<Seq<char>>,
    ) -> MethodModel {
        MethodModel { name, defined_in, doc_attribute, override_logic_mapping: Seq::empty() }
    }

    pub open spec fn with_override_logic_mapping(
        self,
        override_logic_mapping: Seq<(Symbol, OverrideLogicMapping)>,
    ) -> MethodModel {
        MethodModel { override_logic_mapping, ..self }
    }
}

impl OverrideModel {
    /// A node as it is created: no code, and no further descendants.
    pub open spec fn fresh() -> OverrideModel {
        OverrideModel { override_code: None, override_logic_mapping: Seq::empty() }
    }

    pub open spec fn with_override_code(self, override_code: Option<Seq<char>>) -> OverrideModel {
        OverrideModel { override_code, ..self }
    }

    pub open spec fn with_override_logic_mapping(
        self,
        override_logic_mapping: Seq<(Symbol, OverrideLogicMapping)>,
    ) -> OverrideModel {
        OverrideModel { override_logic_mapping, ..self }
    }
}

/// What an optional piece of text holds.
pub open spec fn option_text(text: Option<String>) -> Option<Seq<char>> {
    match text {
        Some(t) => Some(t@),
        None => None,
    }
}

/// What an optional reference to a symbol refers to.
pub open spec fn option_symbol(symbol: Option<&Symbol>) -> Option<Symbol> {
    match symbol {
        Some(s) => Some(*s),
        None => None,
    }
}

impl FactoryModel {
    /// `s` is a handle of this table.
    pub open spec fn contains(self, s: Symbol) -> bool {
        s.index() < self.slots.len()
    }

    pub open spec fn slot(self, s: Symbol) -> SlotModel {
        self.slots[s.index() as int]
    }

    pub open spec fn is_meaning(self, s: Symbol) -> bool {
        self.contains(s) && self.slot(s) is Meaning
    }

    pub open spec fn is_field(self, s: Symbol) -> bool {
        self.contains(s) && self.slot(s) is Field
    }

    pub open spec fn is_method(self, s: Symbol) -> bool {
        self.contains(s) && self.slot(s) is Method
    }

    pub open spec fn meaning(self, s: Symbol) -> MeaningModel
        recommends
            self.is_meaning(s),
    {
        self.slot(s)->Meaning_0
    }

    pub open spec fn field(self, s: Symbol) -> FieldModel
        recommends
            self.is_field(s),
    {
        self.slot(s)->Field_0
    }

    pub open spec fn method(self, s: Symbol) -> MethodModel
        recommends
            self.is_method(s),
    {
        self.slot(s)->Method_0
    }

    /// The name of a symbol of any kind.
    pub open spec fn name(self, s: Symbol) -> Seq<char> {
        match self.slot(s) {
            SlotModel::Meaning(m) => m.name,
            SlotModel::Field(f) => f.name,
            SlotModel::Method(m) => m.name,
        }
    }

    /// `node` is a handle of override logic of this table.
    pub open spec fn contains_override(self, node: OverrideLogicMapping) -> bool {
        node.index() < self.overrides.len()
    }

    pub open spec fn override_node(self, node: OverrideLogicMapping) -> OverrideModel {
        self.overrides[node.index() as int]
    }

    /// The parent of a meaning.
    pub open spec fn parent(self, s: Symbol) -> Option<Symbol> {
        self.meaning(s).inherits
    }

    /// Following `inherits` from `s` leads, through meanings only and in at
    /// most `fuel` steps, to a meaning without parent.
    pub open spec fn rooted_within(self, s: Symbol, fuel: nat) -> bool
        decreases fuel,
    {
        self.is_meaning(s) && match self.parent(s) {
            None => true,
            Some(p) => fuel > 0 && self.rooted_within(p, (fuel - 1) as nat),
        }
    }

    /// The chain of `inherits` from `s` ends: it is finite and has no cycle.
    pub open spec fn rooted(self, s: Symbol) -> bool {
        exists|fuel: nat| self.rooted_within(s, fuel)
    }

    /// A number of steps within which `s` reaches its root.
    pub open spec fn reach(self, s: Symbol) -> nat {
        choose|fuel: nat| self.rooted_within(s, fuel)
    }

    /// `s`, its parent, its grandparent and so on, for at most `fuel` steps.
    pub open spec fn descending_within(self, s: Symbol, fuel: nat) -> Seq<Symbol>
        decreases fuel,
    {
        match self.parent(s) {
            Some(p) if fuel > 0 => seq![s] + self.descending_within(p, (fuel - 1) as nat),
            _ => seq![s],
        }
    }

    /// `s` and all its ancestors, from `s` up to the root.
    pub open spec fn descending(self, s: Symbol) -> Seq<Symbol> {
        self.descending_within(s, self.reach(s))
    }

    /// The ascending meaning list of `s`: the chain from the root of the
    /// hierarchy down to `s` itself.
    pub open spec fn ascending(self, s: Symbol) -> Seq<Symbol> {
        self.descending(s).reverse()
    }

    /// No two of `symbols` have the same name.
    pub open spec fn distinct_names(self, symbols: Seq<Symbol>) -> bool {
        forall|i: int, j: int|
            0 <= i < j < symbols.len() ==> self.name(#[trigger] symbols[i]) != self.name(
                #[trigger] symbols[j],
            )
    }

    /// Every entry names a meaning and a node of this table, and no meaning
    /// has two entries.
    pub open spec fn entries_wf(self, entries: Seq<(Symbol, OverrideLogicMapping)>) -> bool {
        &&& distinct_keys(entries)
        &&& forall|i: int|
            0 <= i < entries.len() ==> self.is_meaning((#[trigger] entries[i]).0)
                && self.contains_override(entries[i].1)
    }

    /// What holds of the lists of a meaning slot: each holds symbols of
    /// its kind, and no two methods and no two fields share a name.
    pub open spec fn lists_wf(self, m: MeaningModel) -> bool {
        &&& forall|i: int|
            0 <= i < m.submeanings.len() ==> self.is_meaning(#[trigger] m.submeanings[i])
        &&& forall|i: int| 0 <= i < m.methods.len() ==> self.is_method(#[trigger] m.methods[i])
        &&& forall|i: int| 0 <= i < m.fields.len() ==> self.is_field(#[trigger] m.fields[i])
        &&& self.distinct_names(m.methods)
        &&& self.distinct_names(m.fields)
    }

    /// What holds of every meaning slot.
    pub open spec fn meaning_wf(self, s: Symbol) -> bool {
        &&& self.rooted(s)
        &&& self.lists_wf(self.meaning(s))
    }

    /// The field `f` is registered on the meaning `m`.
    pub open spec fn owns(self, m: Symbol, f: Symbol) -> bool {
        self.is_meaning(m) && self.meaning(m).fields.contains(f)
    }

    /// No field is registered on two meanings: a field belongs to the
    /// meaning that it was declared on.
    pub open spec fn single_owner(self) -> bool {
        forall|a: Symbol, b: Symbol, f: Symbol|
            #[trigger] self.owns(a, f) && #[trigger] self.owns(b, f) ==> a == b
    }

    /// What holds of every method slot.
    pub open spec fn method_wf(self, s: Symbol) -> bool {
        let m = self.method(s);
        &&& self.is_meaning(m.defined_in)
        &&& self.entries_wf(m.override_logic_mapping)
    }

    /// One of `symbols` has the name `name`.
    pub open spec fn has_named(self, symbols: Seq<Symbol>, name: Seq<char>) -> bool {
        exists|i: int| 0 <= i < symbols.len() && self.name(#[trigger] symbols[i]) == name
    }

    /// The position in `symbols` of a symbol named `name`; where no two
    /// share a name, the position of the only one.
    pub open spec fn named_position(self, symbols: Seq<Symbol>, name: Seq<char>) -> int {
        choose|i: int| 0 <= i < symbols.len() && self.name(#[trigger] symbols[i]) == name
    }

    /// The one of `symbols` that has the name `name`, if there is one.
    pub open spec fn named(self, symbols: Seq<Symbol>, name: Seq<char>) -> Option<Symbol> {
        if self.has_named(symbols, name) {
            Some(symbols[self.named_position(symbols, name)])
        } else {
            None
        }
    }

    /// `symbols` with `s` registered under its name: in place of the symbol
    /// that had the name if there was one, else at the end.
    pub open spec fn registered(self, symbols: Seq<Symbol>, s: Symbol) -> Seq<Symbol> {
        if self.has_named(symbols, self.name(s)) {
            symbols.update(self.named_position(symbols, self.name(s)), s)
        } else {
            symbols.push(s)
        }
    }

    /// The names of `symbols`, in their order.
    pub open spec fn names(self, symbols: Seq<Symbol>) -> Seq<Seq<char>> {
        Seq::new(symbols.len(), |i: int| self.name(symbols[i]))
    }

    /// The position of `x` in `list`; where nothing occurs twice, the
    /// position of its only occurrence.
    pub open spec fn position_in(list: Seq<Symbol>, x: Symbol) -> int {
        choose|i: int| 0 <= i < list.len() && list[i] == x
    }

    /// The meanings strictly below `ancestor` on the way down to `meaning`,
    /// from the child of `ancestor` to `meaning` itself.
    pub open spec fn path_below(self, ancestor: Symbol, meaning: Symbol) -> Seq<Symbol>
        recommends
            self.ascending(meaning).contains(ancestor),
    {
        let list = self.ascending(meaning);
        list.skip(Self::position_in(list, ancestor) + 1)
    }

    /// The override code in force after following `path` through the
    /// override logic that starts with `entries`, one level for each element
    /// of `path`. `inherited` is the code in force before the first level.
    /// A level without an entry for the element ends the search; a node
    /// without code of its own leaves the code of the enclosing level in
    /// force.
    pub open spec fn resolve_from(
        self,
        entries: Seq<(Symbol, OverrideLogicMapping)>,
        path: Seq<Symbol>,
        inherited: Option<Seq<char>>,
    ) -> Option<Seq<char>>
        decreases path.len(),
    {
        if path.len() == 0 {
            inherited
        } else {
            match entry_for(entries, path[0]) {
                None => inherited,
                Some(node) => {
                    let found = self.override_node(node);
                    self.resolve_from(
                        found.override_logic_mapping,
                        path.drop_first(),
                        if found.override_code is Some {
                            found.override_code
                        } else {
                            inherited
                        },
                    )
                },
            }
        }
    }

    /// The override code of `method` for an instance whose type is
    /// `meaning`: that of the most derived ancestor of `meaning`, or of
    /// `meaning` itself, that the override logic reaches and that has code.
    /// `None` where no override applies, and where `meaning` does not
    /// descend from the meaning that declares `method`.
    pub open spec fn resolve_override(self, method: Symbol, meaning: Symbol) -> Option<Seq<char>> {
        let origin = self.method(method).defined_in;
        if self.ascending(meaning).contains(origin) {
            self.resolve_from(
                self.method(method).override_logic_mapping,
                self.path_below(origin, meaning),
                None,
            )
        } else {
            None
        }
    }

    /// The symbol that the next creation returns.
    pub open spec fn next_symbol(self) -> Symbol {
        choose|s: Symbol| s.index() == self.slots.len()
    }

    /// The table with one more symbol, at the end.
    pub open spec fn with_slot(self, slot: SlotModel) -> FactoryModel {
        FactoryModel { slots: self.slots.push(slot), overrides: self.overrides }
    }

    /// The table with `m` as what the meaning `s` holds.
    pub open spec fn with_meaning(self, s: Symbol, m: MeaningModel) -> FactoryModel {
        FactoryModel {
            slots: self.slots.update(s.index() as int, SlotModel::Meaning(m)),
            overrides: self.overrides,
        }
    }

    /// The table with `m` as what the method `s` holds.
    pub open spec fn with_method(self, s: Symbol, m: MethodModel) -> FactoryModel {
        FactoryModel {
            slots: self.slots.update(s.index() as int, SlotModel::Method(m)),
            overrides: self.overrides,
        }
    }

    /// The table with one more node of override logic, at the end.
    pub open spec fn with_override(self, node: OverrideModel) -> FactoryModel {
        FactoryModel { slots: self.slots, overrides: self.overrides.push(node) }
    }

    /// The table with `node` as what the override node `n` holds.
    pub open spec fn with_override_node(
        self,
        n: OverrideLogicMapping,
        node: OverrideModel,
    ) -> FactoryModel {
        FactoryModel { slots: self.slots, overrides: self.overrides.update(n.index() as int, node) }
    }

    /// The invariant of the symbol table: every symbol has a handle, every
    /// reference stays inside the table and has the kind expected of it,
    /// names are unique within a meaning, a field belongs to one meaning
    /// only, and every chain of `inherits` is finite and acyclic.
    pub open spec fn wf(self) -> bool {
        &&& self.slots.len() <= usize::MAX
        &&& self.single_owner()
        &&& forall|s: Symbol| #[trigger] self.is_meaning(s) ==> self.meaning_wf(s)
        &&& forall|s: Symbol| #[trigger] self.is_method(s) ==> self.method_wf(s)
        &&& forall|n: OverrideLogicMapping| #[trigger]
            self.contains_override(n) ==> self.entries_wf(
                self.override_node(n).override_logic_mapping,
            )
    }
}

} // verus!
