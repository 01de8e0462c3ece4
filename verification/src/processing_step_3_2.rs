//! Contribution of one field to a meaning: the field slot, the storage of
//! the field in the layer of the meaning, and the pair of accessors.

use vstd::prelude::*;
use crate::ast::MeaningField;
use crate::diagnostic::Diagnostic;
use crate::host::SModelHost;
use crate::layout::{
    lemma_traversal_unfold, traversal, DATA, DATA_VARIANT_FIELD, DATA_VARIANT_PREFIX,
};
use crate::model::{FactoryModel, FieldModel, SlotModel};
use crate::symbol::{lemma_symbol_identity, LmtFactory, Symbol};

verus! {

/// The storage of a field in the layer of its meaning: a cell of its own,
/// one that is borrowed for a field by reference, one that is copied out of
/// for a field by value.
pub open spec fn storage(name: Seq<char>, field_type: Seq<char>, is_ref: bool) -> Seq<char> {
    if is_ref {
        "pub "@ + name + ": ::std::cell::RefCell<"@ + field_type + ">, "@
    } else {
        "pub "@ + name + ": ::std::cell::Cell<"@ + field_type + ">, "@
    }
}

/// The getter and the setter of a field whose cell the expression `cell`
/// reaches. Both speak of the declared type of the field, whatever the cell.
pub open spec fn accessors(
    name: Seq<char>,
    field_type: Seq<char>,
    is_ref: bool,
    cell: Seq<char>,
) -> Seq<char> {
    if is_ref {
        "fn "@ + name + "(&self) -> "@ + field_type + " { "@ + cell
            + ".borrow().clone() } fn set_"@ + name + "(&self, v: "@ + field_type + ") { "@ + cell
            + ".replace(v); } "@
    } else {
        "fn "@ + name + "(&self) -> "@ + field_type + " { "@ + cell + ".get() } fn set_"@ + name
            + "(&self, v: "@ + field_type + ") { "@ + cell + ".set(v); } "@
    }
}

/// The expression for the root layer of an instance, given the expression
/// `base_accessor` for the weak reference to it.
pub open spec fn root_layer(base_accessor: Seq<char>) -> Seq<char> {
    base_accessor + ".upgrade().unwrap()"@
}

/// The message about a second field of the name `name`.
pub open spec fn redefinition_message(name: Seq<char>) -> Seq<char> {
    "Redefining '"@ + name + "'"@
}

/// The table after the field `field` was declared on `meaning` without
/// collision: it has the new field slot, registered on `meaning` after the
/// fields that were there, and the accessors `code` follow the method code
/// of `meaning`.
pub open spec fn declared(
    table: FactoryModel,
    meaning: Symbol,
    field: FieldModel,
    code: Seq<char>,
) -> FactoryModel {
    let slot = table.next_symbol();
    let created = table.with_slot(SlotModel::Field(field));
    let before = table.meaning(meaning);
    created.with_meaning(
        meaning,
        before.with_fields(before.fields.push(slot)).with_method_output(
            before.method_output + code,
        ),
    )
}

#[allow(non_camel_case_types)]
pub struct ProcessingStep3_2();

impl ProcessingStep3_2 {
    /// Declares `field` on `meaning`, whose ascending list is
    /// `asc_meaning_list`. A field slot is created in any case. If `meaning`
    /// has a field of that name already, the slot is not registered, nothing
    /// is generated, and the result is the diagnostic, at the position of the
    /// declaration. Otherwise the slot is registered on `meaning`, the
    /// storage of the field is appended to `field_output`, the accessors to
    /// the method code of `meaning`, and the result is the slot.
    pub fn exec(
        &self,
        host: &mut SModelHost,
        meaning: &Symbol,
        field: &MeaningField,
        base_accessor: &str,
        asc_meaning_list: &[Symbol],
        field_output: &mut String,
    ) -> (result: Result<Symbol, Diagnostic>)
        requires
            old(host).factory.wf(),
            old(host).factory@.is_meaning(*meaning),
            asc_meaning_list@.len() > 0,
            forall|i: int|
                0 <= i < asc_meaning_list@.len() ==> old(host).factory@.contains(
                    #[trigger] asc_meaning_list@[i],
                ),
        ensures
            final(host).factory.wf(),
            result is Err <==> old(host).factory@.has_named(
                old(host).factory@.meaning(*meaning).fields,
                field.name@,
            ),
            result matches Err(diagnostic) ==> {
                &&& diagnostic.span == field.span
                &&& diagnostic.message@ == redefinition_message(field.name@)
                &&& final(host).factory@ == old(host).factory@.with_slot(
                    SlotModel::Field(field.model()),
                )
                &&& final(field_output)@ == old(field_output)@
            },
            result matches Ok(slot) ==> {
                &&& slot == old(host).factory@.next_symbol()
                &&& final(host).factory@ == declared(
                    old(host).factory@,
                    *meaning,
                    field.model(),
                    accessors(
                        field.name@,
                        field.type_annotation@,
                        field.is_ref,
                        traversal(
                            old(host).factory@.names(asc_meaning_list@),
                            0,
                            root_layer(base_accessor@),
                            field.name@,
                        ),
                    ),
                )
                &&& final(field_output)@ == old(field_output)@ + storage(
                    field.name@,
                    field.type_annotation@,
                    field.is_ref,
                )
            },
    {
        let ghost before = host.factory@;
        // 1. Create the field slot.
        let slot = host.factory.create_field_slot(
            field.is_ref,
            field.name.clone(),
            field.type_annotation.clone(),
            field.default_value.clone(),
        );
        let ghost created = host.factory@;
        proof {
            lemma_symbol_identity(slot, before.next_symbol());
        }
        // 2. Contribute the field slot to the meaning, unless the name is taken.
        let name = slot.name(&host.factory);
        if meaning.get_field(&host.factory, name.as_str()).is_some() {
            let mut message: String = "Redefining '".to_owned();
            message.append(name.as_str());
            message.append("'");
            return Err(Diagnostic { span: field.span, message });
        }
        proof {
            assert forall|m: Symbol| !created.owns(m, slot) by {
                if created.owns(m, slot) {
                    assert(before.is_meaning(m));
                }
            }
        }
        meaning.set_field(&mut host.factory, slot);
        let ghost registered = host.factory@;
        proof {
            assert(registered.names(asc_meaning_list@) =~= before.names(asc_meaning_list@));
        }
        // 3. Contribute the storage of the field to the layer of the meaning.
        let field_type = slot.field_type(&host.factory);
        field_output.append("pub ");
        field_output.append(name.as_str());
        if slot.is_ref(&host.factory) {
            field_output.append(": ::std::cell::RefCell<");
        } else {
            field_output.append(": ::std::cell::Cell<");
        }
        field_output.append(field_type.as_str());
        field_output.append(">, ");
        // 4. Define the accessors.
        self.define_accessors(
            host,
            meaning,
            &slot,
            name.as_str(),
            field_type.as_str(),
            base_accessor,
            asc_meaning_list,
        );
        proof {
            let code = accessors(
                field.name@,
                field.type_annotation@,
                field.is_ref,
                traversal(
                    before.names(asc_meaning_list@),
                    0,
                    root_layer(base_accessor@),
                    field.name@,
                ),
            );
            assert(host.factory@.slots =~= declared(before, *meaning, field.model(), code).slots);
        }
        Ok(slot)
    }

    /// Appends to the method code of `meaning` the getter and the setter of
    /// the field `slot`, named `field_name` and of the type `field_type`.
    /// The field is stored in the last layer of `asc_meaning_list`, and
    /// `base_accessor` is the expression for the weak reference to the root
    /// layer.
    pub fn define_accessors(
        &self,
        host: &mut SModelHost,
        meaning: &Symbol,
        slot: &Symbol,
        field_name: &str,
        field_type: &str,
        base_accessor: &str,
        asc_meaning_list: &[Symbol],
    )
        requires
            old(host).factory.wf(),
            old(host).factory@.is_meaning(*meaning),
            old(host).factory@.is_field(*slot),
            asc_meaning_list@.len() > 0,
            forall|i: int|
                0 <= i < asc_meaning_list@.len() ==> old(host).factory@.contains(
                    #[trigger] asc_meaning_list@[i],
                ),
        ensures
            final(host).factory.wf(),
            final(host).factory@ == old(host).factory@.with_meaning(
                *meaning,
                old(host).factory@.meaning(*meaning).with_method_output(
                    old(host).factory@.meaning(*meaning).method_output + accessors(
                        field_name@,
                        field_type@,
                        old(host).factory@.field(*slot).is_ref,
                        traversal(
                            old(host).factory@.names(asc_meaning_list@),
                            0,
                            root_layer(base_accessor@),
                            field_name@,
                        ),
                    ),
                ),
            ),
    {
        let mut root: String = base_accessor.to_owned();
        root.append(".upgrade().unwrap()");
        let cell = self.match_field(&host.factory, asc_meaning_list, 0, root.as_str(), field_name);
        let is_ref = slot.is_ref(&host.factory);
        let mut code: String = "fn ".to_owned();
        code.append(field_name);
        code.append("(&self) -> ");
        code.append(field_type);
        code.append(" { ");
        code.append(cell.as_str());
        if is_ref {
            code.append(".borrow().clone() } fn set_");
        } else {
            code.append(".get() } fn set_");
        }
        code.append(field_name);
        code.append("(&self, v: ");
        code.append(field_type);
        code.append(") { ");
        code.append(cell.as_str());
        if is_ref {
            code.append(".replace(v); } ");
        } else {
            code.append(".set(v); } ");
        }
        meaning.extend_method_output(&mut host.factory, code.as_str());
    }

    /// The expression that reaches the field `field_name`, stored in the
    /// last layer of `asc_meaning_list`, from `base`, which stands for the
    /// layer of the meaning at `meaning_index`. From the last layer that is
    /// the field itself; from any other it is one unwrap step into the next
    /// layer and the expression from there.
    pub fn match_field(
        &self,
        factory: &LmtFactory,
        asc_meaning_list: &[Symbol],
        meaning_index: usize,
        base: &str,
        field_name: &str,
    ) -> (code: String)
        requires
            meaning_index < asc_meaning_list@.len(),
            forall|i: int|
                0 <= i < asc_meaning_list@.len() ==> factory@.contains(
                    #[trigger] asc_meaning_list@[i],
                ),
        ensures
            code@ == traversal(
                factory@.names(asc_meaning_list@),
                meaning_index as int,
                base@,
                field_name@,
            ),
        decreases asc_meaning_list@.len() - meaning_index,
    {
        proof {
            lemma_traversal_unfold(
                factory@.names(asc_meaning_list@),
                meaning_index as int,
                base@,
                field_name@,
            );
        }
        if asc_meaning_list.len() - meaning_index == 1 {
            let mut code: String = base.to_owned();
            code.append(".");
            code.append(field_name);
            return code;
        }
        let inherited = asc_meaning_list[meaning_index];
        let meaning = asc_meaning_list[meaning_index + 1];
        let inner = self.match_field(factory, asc_meaning_list, meaning_index + 1, "o", field_name);
        let mut code: String = "(if let ".to_owned();
        code.append(DATA);
        code.append("::");
        code.append(DATA_VARIANT_PREFIX);
        code.append(inherited.name(factory).as_str());
        code.append("::");
        code.append(meaning.name(factory).as_str());
        code.append("(o) = &");
        code.append(base);
        code.append(".");
        code.append(DATA_VARIANT_FIELD);
        code.append(" { ");
        code.append(inner.as_str());
        code.append(" } else { panic!() })");
        code
    }
}

} // verus!
