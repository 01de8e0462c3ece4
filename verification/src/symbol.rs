//! The symbol table: meanings, fields and methods, stored in an arena and
//! referred to by handles that compare by identity.

use vstd::prelude::*;
use vstd::pervasive::unreached;
use crate::arena::Arena;
use crate::hierarchy::{lemma_ascending_contains, lemma_ascending_distinct};
use crate::model::{
    distinct_keys, entries_with, entry_for, entry_position, has_entry, option_symbol,
    option_text, FactoryModel, FieldModel, MeaningModel, MethodModel, OverrideModel, SlotModel,
};
use crate::preservation::{
    lemma_owners_kept, lemma_wf_after_change, lemma_wf_after_override_change,
    lemma_wf_after_relink,
};

verus! {

/// Handle of a symbol. Two handles are equal exactly when they come from the
/// same allocation; what the symbols hold plays no part.
#[derive(Clone, Copy, PartialEq, Eq, Hash, Debug, Structural)]
pub struct Symbol {
    index: usize,
}

/// Handle of a node of override logic, compared by identity like `Symbol`.
#[derive(Clone, Copy, PartialEq, Eq, Hash, Debug, Structural)]
pub struct OverrideLogicMapping {
    index: usize,
}

impl Symbol {
    /// The position of the symbol in its factory: its identity.
    pub closed spec fn index(self) -> nat {
        self.index as nat
    }
}

impl OverrideLogicMapping {
    /// The position of the node in its factory: its identity.
    pub closed spec fn index(self) -> nat {
        self.index as nat
    }
}

/// Symbols are equal exactly when their identities are.
pub proof fn lemma_symbol_identity(a: Symbol, b: Symbol)
    ensures
        a == b <==> a.index() == b.index(),
{
}

/// As long as handles are left, the symbol that the next creation returns
/// is the one whose identity is the number of symbols created so far.
pub proof fn lemma_next_symbol(table: FactoryModel)
    requires
        table.slots.len() <= usize::MAX,
    ensures
        table.next_symbol().index() == table.slots.len(),
        !table.contains(table.next_symbol()),
{
    let witness = Symbol { index: table.slots.len() as usize };
    assert(witness.index() == table.slots.len());
}

/// Override nodes are equal exactly when their identities are.
pub proof fn lemma_override_identity(a: OverrideLogicMapping, b: OverrideLogicMapping)
    ensures
        a == b <==> a.index() == b.index(),
{
}


struct MeaningData {
    name: String,
    inherits: Option<Symbol>,
    submeanings: Vec<Symbol>,
    methods: Vec<Symbol>,
    fields: Vec<Symbol>,
    method_output: String,
}

struct FieldData {
    name: String,
    field_type: String,
    field_init: String,
    is_ref: bool,
}

struct MethodData {
    name: String,
    defined_in: Symbol,
    doc_attribute: Option<String>,
    override_logic_mapping: Vec<(Symbol, OverrideLogicMapping)>,
}

enum SlotData {
    Meaning(MeaningData),
    Field(FieldData),
    Method(MethodData),
}

struct OverrideData {
    override_code: Option<String>,
    override_logic_mapping: Vec<(Symbol, OverrideLogicMapping)>,
}

impl SlotData {
    closed spec fn model(self) -> SlotModel {
        match self {
            SlotData::Meaning(m) => SlotModel::Meaning(
                MeaningModel {
                    name: m.name@,
                    inherits: m.inherits,
                    submeanings: m.submeanings@,
                    methods: m.methods@,
                    fields: m.fields@,
                    method_output: m.method_output@,
                },
            ),
            SlotData::Field(f) => SlotModel::Field(
                FieldModel {
                    name: f.name@,
                    field_type: f.field_type@,
                    field_init: f.field_init@,
                    is_ref: f.is_ref,
                },
            ),
            SlotData::Method(m) => SlotModel::Method(
                MethodModel {
                    name: m.name@,
                    defined_in: m.defined_in,
                    doc_attribute: option_text(m.doc_attribute),
                    override_logic_mapping: m.override_logic_mapping@,
                },
            ),
        }
    }
}

impl OverrideData {
    closed spec fn model(self) -> OverrideModel {
        OverrideModel {
            override_code: option_text(self.override_code),
            override_logic_mapping: self.override_logic_mapping@,
        }
    }
}

/// The symbol table: creates the symbols and owns what they hold. Every
/// operation on a symbol takes the factory that created it.
pub struct LmtFactory {
    arena: Arena<SlotData>,
    overrides: Arena<OverrideData>,
}

impl View for LmtFactory {
    type V = FactoryModel;

    closed spec fn view(&self) -> FactoryModel {
        FactoryModel {
            slots: Seq::new(self.arena@.len(), |i: int| self.arena@[i].model()),
            overrides: Seq::new(self.overrides@.len(), |i: int| self.overrides@[i].model()),
        }
    }
}

impl LmtFactory {
    /// The invariant of the symbol table holds of this factory.
    pub open spec fn wf(&self) -> bool {
        self@.wf()
    }

    /// A factory without symbols.
    pub fn new() -> (factory: Self)
        ensures
            factory@.slots.len() == 0,
            factory@.overrides.len() == 0,
            factory.wf(),
    {
        Self { arena: Arena::new(), overrides: Arena::new() }
    }

    /// Whether `symbol` is a handle of this factory.
    pub fn contains(&self, symbol: &Symbol) -> (b: bool)
        ensures
            b == self@.contains(*symbol),
    {
        symbol.index < self.arena.len()
    }

    /// Whether `node` is a handle of override logic of this factory.
    pub fn contains_override(&self, node: &OverrideLogicMapping) -> (b: bool)
        ensures
            b == self@.contains_override(*node),
    {
        node.index < self.overrides.len()
    }

    fn allocate(&mut self, data: SlotData) -> (symbol: Symbol)
        ensures
            symbol.index() == old(self)@.slots.len(),
            final(self)@.slots.len() <= usize::MAX,
            final(self)@ == old(self)@.with_slot(data.model()),
    {
        let index: usize = self.arena.allocate(data);
        assert(self@.slots =~= old(self)@.slots.push(data.model()));
        Symbol { index }
    }

    /// Creates a meaning named `name`, without parent and with nothing
    /// registered on it. The symbol returned is new: it differs from every
    /// symbol that the factory returned before.
    pub fn create_meaning_slot(&mut self, name: String) -> (symbol: Symbol)
        requires
            old(self).wf(),
        ensures
            !old(self)@.contains(symbol),
            symbol.index() == old(self)@.slots.len(),
            final(self)@ == old(self)@.with_slot(SlotModel::Meaning(MeaningModel::fresh(name@))),
            final(self).wf(),
    {
        let symbol = self.allocate(
            SlotData::Meaning(
                MeaningData {
                    name,
                    inherits: None,
                    submeanings: Vec::new(),
                    methods: Vec::new(),
                    fields: Vec::new(),
                    method_output: String::new(),
                },
            ),
        );
        proof {
            lemma_owners_kept(old(self)@, self@);
            lemma_wf_after_change(old(self)@, self@, symbol);
        }
        symbol
    }

    /// Creates a field named `name` with the given type, default value and
    /// storage kind. The symbol returned is new.
    pub fn create_field_slot(
        &mut self,
        is_ref: bool,
        name: String,
        field_type: String,
        field_init: String,
    ) -> (symbol: Symbol)
        requires
            old(self).wf(),
        ensures
            !old(self)@.contains(symbol),
            symbol.index() == old(self)@.slots.len(),
            final(self)@ == old(self)@.with_slot(
                SlotModel::Field(
                    (FieldModel {
                        name: name@,
                        field_type: field_type@,
                        field_init: field_init@,
                        is_ref,
                    }),
                ),
            ),
            final(self).wf(),
    {
        let symbol = self.allocate(
            SlotData::Field(FieldData { name, field_type, field_init, is_ref }),
        );
        proof {
            lemma_owners_kept(old(self)@, self@);
            lemma_wf_after_change(old(self)@, self@, symbol);
        }
        symbol
    }

    /// Creates a method named `name` that the meaning `defined_in`
    /// declares, without override logic. The symbol returned is new.
    pub fn create_method_slot(
        &mut self,
        name: String,
        defined_in: Symbol,
        doc_attribute: Option<String>,
    ) -> (symbol: Symbol)
        requires
            old(self).wf(),
            old(self)@.is_meaning(defined_in),
        ensures
            !old(self)@.contains(symbol),
            symbol.index() == old(self)@.slots.len(),
            final(self)@ == old(self)@.with_slot(
                SlotModel::Method(
                    MethodModel::fresh(name@, defined_in, option_text(doc_attribute)),
                ),
            ),
            final(self).wf(),
    {
        let symbol = self.allocate(
            SlotData::Method(
                MethodData { name, defined_in, doc_attribute, override_logic_mapping: Vec::new() },
            ),
        );
        proof {
            lemma_owners_kept(old(self)@, self@);
            lemma_wf_after_change(old(self)@, self@, symbol);
        }
        symbol
    }

    /// The position in `symbols` of the symbol named `name`, if there is one.
    fn find_named(&self, symbols: &Vec<Symbol>, name: &String) -> (position: Option<usize>)
        requires
            forall|i: int| 0 <= i < symbols@.len() ==> self@.contains(#[trigger] symbols@[i]),
            self@.distinct_names(symbols@),
        ensures
            position is Some <==> self@.has_named(symbols@, name@),
            position matches Some(i) ==> i < symbols@.len() && i == self@.named_position(
                symbols@,
                name@,
            ) && self@.name(symbols@[i as int]) == name@,
    {
        let mut i: usize = 0;
        while i < symbols.len()
            invariant
                i <= symbols@.len(),
                forall|j: int| 0 <= j < symbols@.len() ==> self@.contains(#[trigger] symbols@[j]),
                forall|j: int| 0 <= j < i ==> self@.name(#[trigger] symbols@[j]) != name@,
                self@.distinct_names(symbols@),
            decreases symbols@.len() - i,
        {
            let candidate = symbols[i].name(self);
            if candidate == *name {
                return Some(i);
            }
            i += 1;
        }
        None
    }

    fn node(&self, node: OverrideLogicMapping) -> (data: &OverrideData)
        requires
            self@.contains_override(node),
        ensures
            data.model() == self@.override_node(node),
    {
        self.overrides.get(node.index)
    }

    fn slot(&self, symbol: Symbol) -> (data: &SlotData)
        requires
            self@.contains(symbol),
        ensures
            data.model() == self@.slot(symbol),
    {
        self.arena.get(symbol.index)
    }
}

impl Symbol {
    /// Whether the symbol is a meaning.
    pub fn is_meaning_slot(&self, factory: &LmtFactory) -> (b: bool)
        requires
            factory@.contains(*self),
        ensures
            b == factory@.is_meaning(*self),
    {
        match factory.slot(*self) {
            SlotData::Meaning(_) => true,
            _ => false,
        }
    }

    /// Whether the symbol is a field.
    pub fn is_field_slot(&self, factory: &LmtFactory) -> (b: bool)
        requires
            factory@.contains(*self),
        ensures
            b == factory@.is_field(*self),
    {
        match factory.slot(*self) {
            SlotData::Field(_) => true,
            _ => false,
        }
    }

    /// Whether the symbol is a method.
    pub fn is_method_slot(&self, factory: &LmtFactory) -> (b: bool)
        requires
            factory@.contains(*self),
        ensures
            b == factory@.is_method(*self),
    {
        match factory.slot(*self) {
            SlotData::Method(_) => true,
            _ => false,
        }
    }

    /// The name of the symbol, whatever its kind.
    pub fn name(&self, factory: &LmtFactory) -> (name: String)
        requires
            factory@.contains(*self),
        ensures
            name@ == factory@.name(*self),
    {
        match factory.slot(*self) {
            SlotData::Meaning(slot) => slot.name.clone(),
            SlotData::Field(slot) => slot.name.clone(),
            SlotData::Method(slot) => slot.name.clone(),
        }
    }

    /// The name of the symbol.
    pub fn to_string(&self, factory: &LmtFactory) -> (name: String)
        requires
            factory@.contains(*self),
        ensures
            name@ == factory@.name(*self),
    {
        self.name(factory)
    }

    /// The parent of a meaning.
    pub fn inherits(&self, factory: &LmtFactory) -> (parent: Option<Symbol>)
        requires
            factory@.is_meaning(*self),
        ensures
            parent == factory@.parent(*self),
    {
        match factory.slot(*self) {
            SlotData::Meaning(slot) => slot.inherits,
            _ => unreached(),
        }
    }

    /// The type of a field.
    pub fn field_type(&self, factory: &LmtFactory) -> (field_type: String)
        requires
            factory@.is_field(*self),
        ensures
            field_type@ == factory@.field(*self).field_type,
    {
        match factory.slot(*self) {
            SlotData::Field(slot) => slot.field_type.clone(),
            _ => unreached(),
        }
    }

    /// The default value of a field.
    pub fn field_init(&self, factory: &LmtFactory) -> (field_init: String)
        requires
            factory@.is_field(*self),
        ensures
            field_init@ == factory@.field(*self).field_init,
    {
        match factory.slot(*self) {
            SlotData::Field(slot) => slot.field_init.clone(),
            _ => unreached(),
        }
    }

    /// Whether a field is stored in a cell that is borrowed (`true`) or in
    /// one that is copied out of (`false`).
    pub fn is_ref(&self, factory: &LmtFactory) -> (is_ref: bool)
        requires
            factory@.is_field(*self),
        ensures
            is_ref == factory@.field(*self).is_ref,
    {
        match factory.slot(*self) {
            SlotData::Field(slot) => slot.is_ref,
            _ => unreached(),
        }
    }

    /// The meaning that declares a method.
    pub fn defined_in(&self, factory: &LmtFactory) -> (meaning: Symbol)
        requires
            factory@.is_method(*self),
        ensures
            meaning == factory@.method(*self).defined_in,
    {
        match factory.slot(*self) {
            SlotData::Method(slot) => slot.defined_in,
            _ => unreached(),
        }
    }

    /// The documentation attribute of a method.
    pub fn doc_attribute(&self, factory: &LmtFactory) -> (doc_attribute: Option<String>)
        requires
            factory@.is_method(*self),
        ensures
            option_text(doc_attribute) == factory@.method(*self).doc_attribute,
    {
        match factory.slot(*self) {
            SlotData::Method(slot) => match &slot.doc_attribute {
                Some(text) => Some(text.clone()),
                None => None,
            },
            _ => unreached(),
        }
    }

    /// The children registered on a meaning, in order of registration.
    pub fn submeanings<'a>(&self, factory: &'a LmtFactory) -> (submeanings: &'a Vec<Symbol>)
        requires
            factory@.is_meaning(*self),
        ensures
            submeanings@ == factory@.meaning(*self).submeanings,
    {
        match factory.slot(*self) {
            SlotData::Meaning(slot) => &slot.submeanings,
            _ => unreached(),
        }
    }

    /// The methods registered on a meaning, in order of registration.
    pub fn methods<'a>(&self, factory: &'a LmtFactory) -> (methods: &'a Vec<Symbol>)
        requires
            factory@.is_meaning(*self),
        ensures
            methods@ == factory@.meaning(*self).methods,
    {
        match factory.slot(*self) {
            SlotData::Meaning(slot) => &slot.methods,
            _ => unreached(),
        }
    }

    /// The fields registered on a meaning, in order of registration.
    pub fn fields<'a>(&self, factory: &'a LmtFactory) -> (fields: &'a Vec<Symbol>)
        requires
            factory@.is_meaning(*self),
        ensures
            fields@ == factory@.meaning(*self).fields,
    {
        match factory.slot(*self) {
            SlotData::Meaning(slot) => &slot.fields,
            _ => unreached(),
        }
    }

    /// The code generated so far for the methods of a meaning.
    pub fn method_output<'a>(&self, factory: &'a LmtFactory) -> (code: &'a String)
        requires
            factory@.is_meaning(*self),
        ensures
            code@ == factory@.meaning(*self).method_output,
    {
        match factory.slot(*self) {
            SlotData::Meaning(slot) => &slot.method_output,
            _ => unreached(),
        }
    }

    /// The method of a meaning that is named `name`, if there is one.
    pub fn get_method(&self, factory: &LmtFactory, name: &str) -> (method: Option<Symbol>)
        requires
            factory.wf(),
            factory@.is_meaning(*self),
        ensures
            method == factory@.named(factory@.meaning(*self).methods, name@),
    {
        let methods = self.methods(factory);
        let key = name.to_owned();
        match factory.find_named(methods, &key) {
            Some(i) => Some(methods[i]),
            None => None,
        }
    }

    /// The field of a meaning that is named `name`, if there is one.
    pub fn get_field(&self, factory: &LmtFactory, name: &str) -> (field: Option<Symbol>)
        requires
            factory.wf(),
            factory@.is_meaning(*self),
        ensures
            field == factory@.named(factory@.meaning(*self).fields, name@),
    {
        let fields = self.fields(factory);
        let key = name.to_owned();
        match factory.find_named(fields, &key) {
            Some(i) => Some(fields[i]),
            None => None,
        }
    }

    /// Gives a meaning the parent `value`, or none. The new parent must not
    /// have the meaning among its own ancestors, nor be the meaning itself:
    /// the hierarchy stays free of cycles.
    pub fn set_inherits(&self, factory: &mut LmtFactory, value: Option<&Symbol>)
        requires
            old(factory).wf(),
            old(factory)@.is_meaning(*self),
            value matches Some(p) ==> old(factory)@.is_meaning(*p) && !old(factory)@.ascending(
                *p,
            ).contains(*self),
        ensures
            final(factory)@ == old(factory)@.with_meaning(
                *self,
                old(factory)@.meaning(*self).with_inherits(option_symbol(value)),
            ),
            final(factory).wf(),
    {
        let parent: Option<Symbol> = match value {
            Some(p) => Some(*p),
            None => None,
        };
        let slot = factory.arena.get_mut(self.index);
        match slot {
            SlotData::Meaning(m) => {
                m.inherits = parent;
            },
            _ => {},
        }
        proof {
            let before = old(factory)@;
            let after = before.with_meaning(*self, before.meaning(*self).with_inherits(parent));
            assert(factory@.slots =~= after.slots);
            if let Some(p) = parent {
                lemma_ascending_contains(before, p, *self);
            }
            lemma_wf_after_relink(before, *self, parent);
        }
    }

    /// Registers `child` as a direct child of a meaning, after those
    /// registered before.
    pub fn add_submeaning(&self, factory: &mut LmtFactory, child: Symbol)
        requires
            old(factory).wf(),
            old(factory)@.is_meaning(*self),
            old(factory)@.is_meaning(child),
        ensures
            final(factory)@ == old(factory)@.with_meaning(
                *self,
                old(factory)@.meaning(*self).with_submeanings(
                    old(factory)@.meaning(*self).submeanings.push(child),
                ),
            ),
            final(factory).wf(),
    {
        let slot = factory.arena.get_mut(self.index);
        match slot {
            SlotData::Meaning(m) => {
                m.submeanings.push(child);
            },
            _ => {},
        }
        proof {
            let before = old(factory)@;
            let after = before.with_meaning(
                *self,
                before.meaning(*self).with_submeanings(
                    before.meaning(*self).submeanings.push(child),
                ),
            );
            assert(factory@.slots =~= after.slots);
            lemma_owners_kept(before, after);
            lemma_wf_after_change(before, after, *self);
        }
    }

    /// Registers `method` on a meaning under the method's name: in place
    /// of the method that had that name, if there was one, else after the
    /// methods registered before.
    pub fn set_method(&self, factory: &mut LmtFactory, method: Symbol)
        requires
            old(factory).wf(),
            old(factory)@.is_meaning(*self),
            old(factory)@.is_method(method),
        ensures
            final(factory)@ == old(factory)@.with_meaning(
                *self,
                old(factory)@.meaning(*self).with_methods(
                    old(factory)@.registered(old(factory)@.meaning(*self).methods, method),
                ),
            ),
            final(factory).wf(),
    {
        let name = method.name(factory);
        let position = factory.find_named(self.methods(factory), &name);
        let slot = factory.arena.get_mut(self.index);
        match slot {
            SlotData::Meaning(m) => {
                match position {
                    Some(i) => {
                        m.methods.set(i, method);
                    },
                    None => {
                        m.methods.push(method);
                    },
                }
            },
            _ => {},
        }
        proof {
            let before = old(factory)@;
            let list = before.registered(before.meaning(*self).methods, method);
            let after = before.with_meaning(*self, before.meaning(*self).with_methods(list));
            assert(factory@.slots =~= after.slots);
            lemma_owners_kept(before, after);
            lemma_wf_after_change(before, after, *self);
        }
    }

    /// Registers `field`, which no meaning has yet, on a meaning under the
    /// field's name: in place of the field that had that name, if there was
    /// one, else after the fields registered before.
    pub fn set_field(&self, factory: &mut LmtFactory, field: Symbol)
        requires
            old(factory).wf(),
            old(factory)@.is_meaning(*self),
            old(factory)@.is_field(field),
            forall|m: Symbol| !old(factory)@.owns(m, field),
        ensures
            final(factory)@ == old(factory)@.with_meaning(
                *self,
                old(factory)@.meaning(*self).with_fields(
                    old(factory)@.registered(old(factory)@.meaning(*self).fields, field),
                ),
            ),
            final(factory).wf(),
    {
        let name = field.name(factory);
        let position = factory.find_named(self.fields(factory), &name);
        let slot = factory.arena.get_mut(self.index);
        match slot {
            SlotData::Meaning(m) => {
                match position {
                    Some(i) => {
                        m.fields.set(i, field);
                    },
                    None => {
                        m.fields.push(field);
                    },
                }
            },
            _ => {},
        }
        proof {
            let before = old(factory)@;
            let list = before.registered(before.meaning(*self).fields, field);
            let after = before.with_meaning(*self, before.meaning(*self).with_fields(list));
            assert(factory@.slots =~= after.slots);
            assert forall|a: Symbol, b: Symbol, f: Symbol| #[trigger]
                after.owns(a, f) && #[trigger] after.owns(b, f) implies a == b by {
                if f == field {
                    if a != *self {
                        assert(before.owns(a, f));
                    }
                    if b != *self {
                        assert(before.owns(b, f));
                    }
                } else {
                    assert(before.owns(a, f));
                    assert(before.owns(b, f));
                }
            }
            lemma_wf_after_change(before, after, *self);
        }
    }

    /// Appends `code` to the code generated for the methods of a meaning.
    pub fn extend_method_output(&self, factory: &mut LmtFactory, code: &str)
        requires
            old(factory).wf(),
            old(factory)@.is_meaning(*self),
        ensures
            final(factory)@ == old(factory)@.with_meaning(
                *self,
                old(factory)@.meaning(*self).with_method_output(
                    old(factory)@.meaning(*self).method_output + code@,
                ),
            ),
            final(factory).wf(),
    {
        let slot = factory.arena.get_mut(self.index);
        match slot {
            SlotData::Meaning(m) => {
                m.method_output.append(code);
            },
            _ => {},
        }
        proof {
            let before = old(factory)@;
            let after = before.with_meaning(
                *self,
                before.meaning(*self).with_method_output(
                    before.meaning(*self).method_output + code@,
                ),
            );
            assert(factory@.slots =~= after.slots);
            lemma_owners_kept(before, after);
            lemma_wf_after_change(before, after, *self);
        }
    }

    /// The ascending meaning list of a meaning: its ancestors from the root
    /// of the hierarchy down, and the meaning itself at the end.
    pub fn asc_meaning_list(&self, factory: &LmtFactory) -> (list: Vec<Symbol>)
        requires
            factory.wf(),
            factory@.is_meaning(*self),
        ensures
            list@ == factory@.ascending(*self),
    {
        let mut chain: Vec<Symbol> = Vec::new();
        let mut current: Symbol = *self;
        let ghost mut fuel: nat = factory@.reach(*self);
        loop
            invariant_except_break
                factory@.rooted_within(current, fuel),
                chain@ + factory@.descending_within(current, fuel) == factory@.descending(*self),
            ensures
                chain@ == factory@.descending(*self),
            decreases fuel,
        {
            chain.push(current);
            match current.inherits(factory) {
                None => {
                    break ;
                },
                Some(p) => {
                    proof {
                        fuel = (fuel - 1) as nat;
                    }
                    current = p;
                },
            }
        }
        let mut list: Vec<Symbol> = Vec::new();
        let mut i: usize = chain.len();
        while i > 0
            invariant
                i <= chain@.len(),
                list@ == chain@.skip(i as int).reverse(),
            decreases i,
        {
            i -= 1;
            list.push(chain[i]);
        }
        list
    }

    /// Whether `ancestor` is the meaning itself or one of its ancestors.
    pub fn descends_from(&self, factory: &LmtFactory, ancestor: &Symbol) -> (b: bool)
        requires
            factory.wf(),
            factory@.is_meaning(*self),
        ensures
            b == factory@.ascending(*self).contains(*ancestor),
    {
        let list = self.asc_meaning_list(factory);
        let mut i: usize = 0;
        while i < list.len()
            invariant
                i <= list@.len(),
                list@ == factory@.ascending(*self),
                forall|j: int| 0 <= j < i ==> list@[j] != *ancestor,
            decreases list@.len() - i,
        {
            if list[i] == *ancestor {
                return true;
            }
            i += 1;
        }
        false
    }

    /// The override logic recorded for a method, per descendant meaning.
    pub fn override_logic_mapping<'a>(&self, factory: &'a LmtFactory) -> (entries: &'a Vec<
        (Symbol, OverrideLogicMapping),
    >)
        requires
            factory@.is_method(*self),
        ensures
            entries@ == factory@.method(*self).override_logic_mapping,
    {
        match factory.slot(*self) {
            SlotData::Method(slot) => &slot.override_logic_mapping,
            _ => unreached(),
        }
    }
}

/// The position in `entries` of the entry for `key`, if there is one.
fn find_entry(entries: &Vec<(Symbol, OverrideLogicMapping)>, key: Symbol) -> (position: Option<
    usize,
>)
    requires
        distinct_keys(entries@),
    ensures
        position is Some <==> has_entry(entries@, key),
        position matches Some(i) ==> i < entries@.len() && i == entry_position(entries@, key)
            && entries@[i as int].0 == key,
{
    let mut i: usize = 0;
    while i < entries.len()
        invariant
            i <= entries@.len(),
            forall|j: int| 0 <= j < i ==> (#[trigger] entries@[j]).0 != key,
            distinct_keys(entries@),
        decreases entries@.len() - i,
    {
        if entries[i].0 == key {
            return Some(i);
        }
        i += 1;
    }
    None
}

/// `entries` with `node` recorded for `key`.
fn put_entry(
    entries: &mut Vec<(Symbol, OverrideLogicMapping)>,
    key: Symbol,
    node: OverrideLogicMapping,
)
    requires
        distinct_keys(old(entries)@),
    ensures
        final(entries)@ == entries_with(old(entries)@, key, node),
        distinct_keys(final(entries)@),
        forall|i: int|
            0 <= i < final(entries)@.len() ==> (#[trigger] final(entries)@[i]) == (key, node) || (i
                < old(entries)@.len() && final(entries)@[i] == old(entries)@[i]),
{
    match find_entry(entries, key) {
        Some(i) => {
            entries.set(i, (key, node));
        },
        None => {
            entries.push((key, node));
        },
    }
}

impl OverrideLogicMapping {
    /// Creates a node of override logic without code and without entries
    /// for further descendants. The node returned is new.
    pub fn new(factory: &mut LmtFactory) -> (node: Self)
        requires
            old(factory).wf(),
        ensures
            !old(factory)@.contains_override(node),
            node.index() == old(factory)@.overrides.len(),
            final(factory)@ == old(factory)@.with_override(OverrideModel::fresh()),
            final(factory).wf(),
    {
        let index: usize = factory.overrides.allocate(
            OverrideData { override_code: None, override_logic_mapping: Vec::new() },
        );
        let node = OverrideLogicMapping { index };
        proof {
            let before = old(factory)@;
            let after = before.with_override(OverrideModel::fresh());
            assert(factory@.overrides =~= after.overrides);
            lemma_wf_after_override_change(before, after, node);
        }
        node
    }

    /// The override code of the node: what replaces the method's logic
    /// when the type of the instance is exactly the node's meaning.
    pub fn override_code(&self, factory: &LmtFactory) -> (code: Option<String>)
        requires
            factory@.contains_override(*self),
        ensures
            option_text(code) == factory@.override_node(*self).override_code,
    {
        match &factory.node(*self).override_code {
            Some(text) => Some(text.clone()),
            None => None,
        }
    }

    /// Sets the override code of the node, or takes it away.
    pub fn set_override_code(&self, factory: &mut LmtFactory, code: Option<String>)
        requires
            old(factory).wf(),
            old(factory)@.contains_override(*self),
        ensures
            final(factory)@ == old(factory)@.with_override_node(
                *self,
                old(factory)@.override_node(*self).with_override_code(option_text(code)),
            ),
            final(factory).wf(),
    {
        let data = factory.overrides.get_mut(self.index);
        data.override_code = code;
        proof {
            let before = old(factory)@;
            let after = before.with_override_node(
                *self,
                before.override_node(*self).with_override_code(option_text(code)),
            );
            assert(factory@.overrides =~= after.overrides);
            lemma_wf_after_override_change(before, after, *self);
        }
    }

    /// The override logic of the node's own descendants.
    pub fn override_logic_mapping<'a>(&self, factory: &'a LmtFactory) -> (entries: &'a Vec<
        (Symbol, OverrideLogicMapping),
    >)
        requires
            factory@.contains_override(*self),
        ensures
            entries@ == factory@.override_node(*self).override_logic_mapping,
    {
        &factory.node(*self).override_logic_mapping
    }

    /// The node recorded beneath this one for the meaning `descendant`, if
    /// there is one. Meanings are told apart by identity, not by name.
    pub fn get_override(&self, factory: &LmtFactory, descendant: &Symbol) -> (node: Option<
        OverrideLogicMapping,
    >)
        requires
            factory.wf(),
            factory@.contains_override(*self),
        ensures
            node == entry_for(factory@.override_node(*self).override_logic_mapping, *descendant),
    {
        let entries = self.override_logic_mapping(factory);
        match find_entry(entries, *descendant) {
            Some(i) => Some(entries[i].1),
            None => None,
        }
    }

    /// Records `mapping` beneath this node for the meaning `descendant`: in
    /// place of the node recorded for it before, if there was one.
    pub fn set_override(
        &self,
        factory: &mut LmtFactory,
        descendant: Symbol,
        mapping: OverrideLogicMapping,
    )
        requires
            old(factory).wf(),
            old(factory)@.contains_override(*self),
            old(factory)@.is_meaning(descendant),
            old(factory)@.contains_override(mapping),
        ensures
            final(factory)@ == old(factory)@.with_override_node(
                *self,
                old(factory)@.override_node(*self).with_override_logic_mapping(
                    entries_with(
                        old(factory)@.override_node(*self).override_logic_mapping,
                        descendant,
                        mapping,
                    ),
                ),
            ),
            final(factory).wf(),
    {
        let data = factory.overrides.get_mut(self.index);
        put_entry(&mut data.override_logic_mapping, descendant, mapping);
        proof {
            let before = old(factory)@;
            let after = before.with_override_node(
                *self,
                before.override_node(*self).with_override_logic_mapping(
                    entries_with(
                        before.override_node(*self).override_logic_mapping,
                        descendant,
                        mapping,
                    ),
                ),
            );
            assert(factory@.overrides =~= after.overrides);
            lemma_wf_after_override_change(before, after, *self);
        }
    }
}

impl Symbol {
    /// The node recorded on a method for the meaning `descendant`, if there
    /// is one. Meanings are told apart by identity, not by name.
    pub fn get_override(&self, factory: &LmtFactory, descendant: &Symbol) -> (node: Option<
        OverrideLogicMapping,
    >)
        requires
            factory.wf(),
            factory@.is_method(*self),
        ensures
            node == entry_for(factory@.method(*self).override_logic_mapping, *descendant),
    {
        let entries = self.override_logic_mapping(factory);
        match find_entry(entries, *descendant) {
            Some(i) => Some(entries[i].1),
            None => None,
        }
    }

    /// Records `mapping` on a method for the meaning `descendant`: in place
    /// of the node recorded for it before, if there was one.
    pub fn set_override(
        &self,
        factory: &mut LmtFactory,
        descendant: Symbol,
        mapping: OverrideLogicMapping,
    )
        requires
            old(factory).wf(),
            old(factory)@.is_method(*self),
            old(factory)@.is_meaning(descendant),
            old(factory)@.contains_override(mapping),
        ensures
            final(factory)@ == old(factory)@.with_method(
                *self,
                old(factory)@.method(*self).with_override_logic_mapping(
                    entries_with(
                        old(factory)@.method(*self).override_logic_mapping,
                        descendant,
                        mapping,
                    ),
                ),
            ),
            final(factory).wf(),
    {
        let slot = factory.arena.get_mut(self.index);
        match slot {
            SlotData::Method(m) => {
                put_entry(&mut m.override_logic_mapping, descendant, mapping);
            },
            _ => {},
        }
        proof {
            let before = old(factory)@;
            let after = before.with_method(
                *self,
                before.method(*self).with_override_logic_mapping(
                    entries_with(
                        before.method(*self).override_logic_mapping,
                        descendant,
                        mapping,
                    ),
                ),
            );
            assert(factory@.slots =~= after.slots);
            lemma_owners_kept(before, after);
            lemma_wf_after_change(before, after, *self);
        }
    }

    /// The override code of a method for an instance whose type is
    /// `meaning`: the code of the most derived meaning on the way from the
    /// method's own meaning down to `meaning` that the override logic reaches
    /// and that has code. `None` where the method's own logic applies.
    pub fn resolve_override(&self, factory: &LmtFactory, meaning: &Symbol) -> (code: Option<
        String,
    >)
        requires
            factory.wf(),
            factory@.is_method(*self),
            factory@.is_meaning(*meaning),
        ensures
            option_text(code) == factory@.resolve_override(*self, *meaning),
    {
        let list = meaning.asc_meaning_list(factory);
        let origin = self.defined_in(factory);
        let mut start: usize = 0;
        while start < list.len() && list[start] != origin
            invariant
                start <= list@.len(),
                forall|j: int| 0 <= j < start ==> list@[j] != origin,
            decreases list@.len() - start,
        {
            start += 1;
        }
        if start == list.len() {
            return None;
        }
        let ghost path = factory@.path_below(origin, *meaning);
        let ghost top = factory@.method(*self).override_logic_mapping;
        proof {
            let chosen = FactoryModel::position_in(list@, origin);
            if chosen > start {
                lemma_ascending_distinct(factory@, *meaning, start as int, chosen);
            }
        }
        let mut entries: &Vec<(Symbol, OverrideLogicMapping)> = self.override_logic_mapping(
            factory,
        );
        let mut inherited: Option<String> = None;
        let mut finished: bool = false;
        let mut i: usize = start + 1;
        assert(path.skip(0) =~= path);
        while i < list.len() && !finished
            invariant
                start < i <= list@.len(),
                factory.wf(),
                path == list@.skip(start + 1),
                factory@.entries_wf(entries@),
                !finished ==> factory@.resolve_from(
                    entries@,
                    path.skip(i - start - 1),
                    option_text(inherited),
                ) == factory@.resolve_from(top, path, None),
                finished ==> option_text(inherited) == factory@.resolve_from(top, path, None),
            decreases list@.len() - i + (if finished { 0int } else { 1int }),
        {
            let ghost rest = path.skip(i - start - 1);
            assert(rest.drop_first() =~= path.skip(i + 1 - start - 1));
            match find_entry(entries, list[i]) {
                None => {
                    finished = true;
                },
                Some(position) => {
                    let node = entries[position].1;
                    let data = factory.node(node);
                    match &data.override_code {
                        Some(text) => {
                            inherited = Some(text.clone());
                        },
                        None => {},
                    }
                    entries = &data.override_logic_mapping;
                    i += 1;
                },
            }
        }
        inherited
    }
}

/// A symbol that is a meaning.
#[derive(Clone, Copy, PartialEq, Eq, Hash, Debug, Structural)]
pub struct MeaningSlot(pub Symbol);

/// A symbol that is a field.
#[derive(Clone, Copy, PartialEq, Eq, Hash, Debug, Structural)]
pub struct FieldSlot(pub Symbol);

/// A symbol that is a method.
#[derive(Clone, Copy, PartialEq, Eq, Hash, Debug, Structural)]
pub struct MethodSlot(pub Symbol);

impl MeaningSlot {
    /// The symbol, which `factory` knows as a meaning.
    pub fn symbol(&self, factory: &LmtFactory) -> (symbol: Symbol)
        requires
            factory@.is_meaning(self.0),
        ensures
            symbol == self.0,
    {
        self.0
    }
}

impl FieldSlot {
    /// The symbol, which `factory` knows as a field.
    pub fn symbol(&self, factory: &LmtFactory) -> (symbol: Symbol)
        requires
            factory@.is_field(self.0),
        ensures
            symbol == self.0,
    {
        self.0
    }
}

impl MethodSlot {
    /// The symbol, which `factory` knows as a method.
    pub fn symbol(&self, factory: &LmtFactory) -> (symbol: Symbol)
        requires
            factory@.is_method(self.0),
        ensures
            symbol == self.0,
    {
        self.0
    }
}

} // verus!
