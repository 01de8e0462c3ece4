//! The constructor of a meaning: its own initializer, and the factory that
//! allocates every layer with its default values, runs the initializer of
//! the parent and then the meaning's own.

use vstd::prelude::*;
use crate::ast::{
    constructor_model, inputs_view, texts_view, ConstructorInput, ConstructorModel,
    MeaningConstructor,
};
use crate::hierarchy::lemma_descending_unfold;
use crate::host::SModelHost;
use crate::layout::{
    layers, DATA, DATA_VARIANT_FIELD, DATA_VARIANT_NO_SUBMEANING, DATA_VARIANT_PREFIX,
};
use crate::model::{option_text, FactoryModel};
use crate::symbol::{LmtFactory, Symbol};

verus! {

/// The name of the method that holds a meaning's own initializer.
pub const CTOR_INIT_NAME: &'static str = "__ctor";

/// The parts one after the other, each followed by `suffix`.
pub open spec fn each_followed(parts: Seq<Seq<char>>, suffix: Seq<char>) -> Seq<char>
    decreases parts.len(),
{
    if parts.len() == 0 {
        Seq::empty()
    } else {
        each_followed(parts.drop_last(), suffix) + parts.last() + suffix
    }
}

/// An optional part followed by a blank, or nothing.
pub open spec fn optional(part: Option<Seq<char>>) -> Seq<char> {
    match part {
        Some(text) => text + " "@,
        None => Seq::empty(),
    }
}

/// The parameters of a constructor as they stand in a signature.
pub open spec fn parameters(inputs: Seq<(Seq<char>, Seq<char>)>) -> Seq<char>
    decreases inputs.len(),
{
    if inputs.len() == 0 {
        Seq::empty()
    } else {
        parameters(inputs.drop_last()) + inputs.last().0 + ": "@ + inputs.last().1 + ", "@
    }
}

/// The parameters of a constructor as arguments of a call: their patterns.
pub open spec fn arguments(inputs: Seq<(Seq<char>, Seq<char>)>) -> Seq<char>
    decreases inputs.len(),
{
    if inputs.len() == 0 {
        Seq::empty()
    } else {
        arguments(inputs.drop_last()) + inputs.last().0 + ", "@
    }
}

/// The initialization of the cell of one field with its default value.
pub open spec fn field_initializer(name: Seq<char>, default_value: Seq<char>, is_ref: bool) -> Seq<
    char,
> {
    if is_ref {
        name + ": ::std::cell::RefCell::new("@ + default_value + "), "@
    } else {
        name + ": ::std::cell::Cell::new("@ + default_value + "), "@
    }
}

/// The initialization of the cells of `fields`, in their order.
pub open spec fn field_initializers(table: FactoryModel, fields: Seq<Symbol>) -> Seq<char>
    decreases fields.len(),
{
    if fields.len() == 0 {
        Seq::empty()
    } else {
        let field = table.field(fields.last());
        field_initializers(table, fields.drop_last()) + field_initializer(
            field.name,
            field.field_init,
            field.is_ref,
        )
    }
}

/// The type of the tag of the layer of the meaning named `name`.
pub open spec fn tag_type(name: Seq<char>) -> Seq<char> {
    DATA@ + "::"@ + DATA_VARIANT_PREFIX@ + name
}

/// The value of the layer of `list[index]` and of all layers beneath it:
/// every field with its default value, and a tag that holds the next layer,
/// or ends the chain at the last meaning of `list`.
pub open spec fn layer_value(table: FactoryModel, list: Seq<Symbol>, index: int) -> Seq<char>
    decreases list.len() - index,
{
    let name = table.name(list[index]);
    let variant = if index + 1 < list.len() {
        tag_type(name) + "::"@ + table.name(list[index + 1]) + "(::std::rc::Rc::new("@
            + layer_value(table, list, index + 1) + "))"@
    } else {
        tag_type(name) + "::"@ + DATA_VARIANT_NO_SUBMEANING@
    };
    DATA@ + "::"@ + name + " { "@ + field_initializers(table, table.meaning(list[index]).fields)
        + DATA_VARIANT_FIELD@ + ": "@ + variant + " }"@
}

/// The own initializer of a meaning: a method that takes the parameters of
/// the constructor and runs its statements.
pub open spec fn own_initializer(constructor: ConstructorModel) -> Seq<char> {
    each_followed(constructor.attributes, " "@) + "fn "@ + CTOR_INIT_NAME@
        + constructor.type_params + "(&self, "@ + parameters(constructor.inputs) + ") "@
        + optional(constructor.where_clause) + "{ "@ + each_followed(constructor.statements, " "@)
        + "} "@
}

/// The statement that allocates an instance: all layers of `list`, from
/// the root layer to that of the last meaning, every field with its default
/// value, wrapped in the constructors of the meanings of `list`.
pub open spec fn allocation(table: FactoryModel, list: Seq<Symbol>) -> Seq<char> {
    "let __cto1 = "@ + layers(
        table.names(list),
        "arena.allocate("@ + layer_value(table, list, 0) + ")"@,
    ) + "; "@
}

/// The meanings whose own initializers the factory of `meaning` runs, in
/// the order in which it runs them: that of the parent, if there is one,
/// then that of `meaning`.
pub open spec fn initializer_order(table: FactoryModel, meaning: Symbol) -> Seq<Symbol> {
    match table.parent(meaning) {
        Some(parent) => seq![parent, meaning],
        None => seq![meaning],
    }
}

/// The calls of the own initializers of `ancestors`, in their order, on the
/// instance that was allocated, each with the super arguments.
pub open spec fn ancestor_initializations(
    table: FactoryModel,
    ancestors: Seq<Symbol>,
    constructor: ConstructorModel,
) -> Seq<char>
    decreases ancestors.len(),
{
    if ancestors.len() == 0 {
        Seq::empty()
    } else {
        ancestor_initializations(table, ancestors.drop_last(), constructor) + table.name(
            ancestors.last(),
        ) + "::"@ + CTOR_INIT_NAME@ + "(&__cto1.0, "@ + each_followed(
            constructor.super_arguments,
            ", "@,
        ) + "); "@
    }
}

/// The call of the meaning's own initializer on the instance that was
/// allocated, with the arguments of the factory.
pub open spec fn own_initialization(constructor: ConstructorModel) -> Seq<char> {
    "__cto1."@ + CTOR_INIT_NAME@ + "("@ + arguments(constructor.inputs) + "); "@
}

/// The body of the factory of `meaning`: the allocation, then the own
/// initializers of `initializer_order`, the last of them the meaning's own,
/// then the instance as the result.
pub open spec fn factory_body(
    table: FactoryModel,
    meaning: Symbol,
    list: Seq<Symbol>,
    constructor: ConstructorModel,
) -> Seq<char> {
    allocation(table, list) + ancestor_initializations(
        table,
        initializer_order(table, meaning).drop_last(),
        constructor,
    ) + own_initialization(constructor) + "__cto1"@
}

/// The factory of `meaning`: the function `new`, which takes the arena and
/// the parameters of the constructor.
pub open spec fn factory_function(
    table: FactoryModel,
    meaning: Symbol,
    list: Seq<Symbol>,
    constructor: ConstructorModel,
    arena_type_name: Seq<char>,
) -> Seq<char> {
    each_followed(constructor.attributes, " "@) + optional(constructor.visibility) + "fn new"@
        + constructor.type_params + "(arena: &"@ + arena_type_name + ", "@ + parameters(
        constructor.inputs,
    ) + ") -> Self "@ + optional(constructor.where_clause) + "{ "@ + factory_body(
        table,
        meaning,
        list,
        constructor,
    ) + " } "@
}

/// An optional part followed by a blank, or nothing.
fn optional_text(part: &Option<String>) -> (code: String)
    ensures
        code@ == optional(option_text(*part)),
{
    match part {
        Some(text) => {
            let mut code: String = text.clone();
            code.append(" ");
            code
        },
        None => String::new(),
    }
}

/// The parts one after the other, each followed by `suffix`.
fn join_texts(parts: &Vec<String>, suffix: &str) -> (code: String)
    ensures
        code@ == each_followed(texts_view(parts@), suffix@),
{
    let ghost texts = texts_view(parts@);
    let mut code: String = String::new();
    let mut i: usize = 0;
    while i < parts.len()
        invariant
            i <= parts@.len(),
            texts == texts_view(parts@),
            code@ == each_followed(texts.take(i as int), suffix@),
        decreases parts@.len() - i,
    {
        proof {
            let longer = texts.take(i + 1);
            assert(longer.drop_last() =~= texts.take(i as int));
        }
        code.append(parts[i].as_str());
        code.append(suffix);
        i += 1;
    }
    assert(texts.take(i as int) =~= texts);
    code
}

/// The parameters as they stand in a signature.
fn parameters_text(inputs: &Vec<ConstructorInput>) -> (code: String)
    ensures
        code@ == parameters(inputs_view(inputs@)),
{
    let ghost pairs = inputs_view(inputs@);
    let mut code: String = String::new();
    let mut i: usize = 0;
    while i < inputs.len()
        invariant
            i <= inputs@.len(),
            pairs == inputs_view(inputs@),
            code@ == parameters(pairs.take(i as int)),
        decreases inputs@.len() - i,
    {
        proof {
            let longer = pairs.take(i + 1);
            assert(longer.drop_last() =~= pairs.take(i as int));
        }
        code.append(inputs[i].pattern.as_str());
        code.append(": ");
        code.append(inputs[i].ty.as_str());
        code.append(", ");
        i += 1;
    }
    assert(pairs.take(i as int) =~= pairs);
    code
}

/// The parameters of a constructor as the arguments of a call that hands
/// them on: the pattern of each, in their order.
pub fn convert_function_input_to_arguments(input: &Vec<ConstructorInput>) -> (code: String)
    ensures
        code@ == arguments(inputs_view(input@)),
{
    let ghost pairs = inputs_view(input@);
    let mut code: String = String::new();
    let mut i: usize = 0;
    while i < input.len()
        invariant
            i <= input@.len(),
            pairs == inputs_view(input@),
            code@ == arguments(pairs.take(i as int)),
        decreases input@.len() - i,
    {
        proof {
            let longer = pairs.take(i + 1);
            assert(longer.drop_last() =~= pairs.take(i as int));
        }
        code.append(input[i].pattern.as_str());
        code.append(", ");
        i += 1;
    }
    assert(pairs.take(i as int) =~= pairs);
    code
}

#[allow(non_camel_case_types)]
pub struct ProcessingStep3_7();

impl ProcessingStep3_7 {
    /// Defines the constructor of `meaning`, whose ascending list is
    /// `asc_meaning_list`: appends to the method code of `meaning` its own
    /// initializer and its factory. A meaning without constructor
    /// declaration gets both as well, without parameters and statements.
    pub fn exec(
        &self,
        host: &mut SModelHost,
        node: Option<&MeaningConstructor>,
        meaning: &Symbol,
        asc_meaning_list: &[Symbol],
        arena_type_name: &str,
    )
        requires
            old(host).factory.wf(),
            old(host).factory@.is_meaning(*meaning),
            asc_meaning_list@.len() > 0,
            forall|i: int|
                0 <= i < asc_meaning_list@.len() ==> old(host).factory@.is_meaning(
                    #[trigger] asc_meaning_list@[i],
                ),
        ensures
            final(host).factory.wf(),
            final(host).factory@ == old(host).factory@.with_meaning(
                *meaning,
                old(host).factory@.meaning(*meaning).with_method_output(
                    old(host).factory@.meaning(*meaning).method_output + own_initializer(
                        constructor_model(node),
                    ) + factory_function(
                        old(host).factory@,
                        *meaning,
                        asc_meaning_list@,
                        constructor_model(node),
                        arena_type_name@,
                    ),
                ),
            ),
    {
        let ghost table = host.factory@;
        let ghost constructor = constructor_model(node);
        let mut code: String = self.own_initializer_code(node);
        let m_new = self.factory_code(
            &host.factory,
            node,
            meaning,
            asc_meaning_list,
            arena_type_name,
        );
        code.append(m_new.as_str());
        meaning.extend_method_output(&mut host.factory, code.as_str());
        assert(table.meaning(*meaning).method_output + code@ =~= table.meaning(
            *meaning,
        ).method_output + own_initializer(constructor) + factory_function(
            table,
            *meaning,
            asc_meaning_list@,
            constructor,
            arena_type_name@,
        ));
    }

    /// The meaning's own initializer: everything of the constructor but the
    /// call of the parent's initializer and the allocation.
    fn own_initializer_code(&self, node: Option<&MeaningConstructor>) -> (code: String)
        ensures
            code@ == own_initializer(constructor_model(node)),
    {
        let mut code: String = String::new();
        match node {
            Some(node) => {
                code.append(join_texts(&node.attributes, " ").as_str());
                code.append("fn ");
                code.append(CTOR_INIT_NAME);
                code.append(node.type_params.as_str());
                code.append("(&self, ");
                code.append(parameters_text(&node.inputs).as_str());
                code.append(") ");
                code.append(optional_text(&node.where_clause).as_str());
                code.append("{ ");
                code.append(join_texts(&node.statements, " ").as_str());
                code.append("} ");
            },
            None => {
                code.append("fn ");
                code.append(CTOR_INIT_NAME);
                code.append("(&self, ");
                code.append(") ");
                code.append("{ ");
                code.append("} ");
            },
        }
        code
    }

    /// The statement that allocates all layers, every field with its
    /// default value.
    fn allocation_code(&self, factory: &LmtFactory, asc_meaning_list: &[Symbol]) -> (code: String)
        requires
            factory.wf(),
            asc_meaning_list@.len() > 0,
            forall|i: int|
                0 <= i < asc_meaning_list@.len() ==> factory@.is_meaning(
                    #[trigger] asc_meaning_list@[i],
                ),
        ensures
            code@ == allocation(factory@, asc_meaning_list@),
    {
        let initlayer1 = self.init_data(factory, asc_meaning_list, 0);
        let mut allocate: String = "arena.allocate(".to_owned();
        allocate.append(initlayer1.as_str());
        allocate.append(")");
        let initlayer2 = Symbol::create_layers_over_weak_root(
            allocate.as_str(),
            asc_meaning_list,
            factory,
        );
        let mut code: String = "let __cto1 = ".to_owned();
        code.append(initlayer2.as_str());
        code.append("; ");
        code
    }

    /// The body of the factory: the allocation, the initializer of the
    /// parent if there is one, the meaning's own initializer, and the
    /// instance as the result.
    fn factory_body_code(
        &self,
        factory: &LmtFactory,
        node: Option<&MeaningConstructor>,
        meaning: &Symbol,
        asc_meaning_list: &[Symbol],
    ) -> (code: String)
        requires
            factory.wf(),
            factory@.is_meaning(*meaning),
            asc_meaning_list@.len() > 0,
            forall|i: int|
                0 <= i < asc_meaning_list@.len() ==> factory@.is_meaning(
                    #[trigger] asc_meaning_list@[i],
                ),
        ensures
            code@ == factory_body(
                factory@,
                *meaning,
                asc_meaning_list@,
                constructor_model(node),
            ),
    {
        let ghost constructor = constructor_model(node);
        let mut code: String = self.allocation_code(factory, asc_meaning_list);
        let ghost ancestors = initializer_order(factory@, *meaning).drop_last();
        match meaning.inherits(factory) {
            Some(inherited_m) => {
                proof {
                    lemma_descending_unfold(factory@, *meaning);
                    assert(ancestor_initializations(
                        factory@,
                        ancestors.drop_last(),
                        constructor,
                    ) =~= Seq::empty());
                }
                code.append(inherited_m.name(factory).as_str());
                code.append("::");
                code.append(CTOR_INIT_NAME);
                code.append("(&__cto1.0, ");
                if let Some(node) = node {
                    code.append(join_texts(&node.super_arguments, ", ").as_str());
                }
                code.append("); ");
            },
            None => {},
        }
        code.append("__cto1.");
        code.append(CTOR_INIT_NAME);
        code.append("(");
        if let Some(node) = node {
            code.append(convert_function_input_to_arguments(&node.inputs).as_str());
        }
        code.append("); ");
        code.append("__cto1");
        code
    }

    /// The factory: the function `new`, with the arena as its first
    /// parameter.
    fn factory_code(
        &self,
        factory: &LmtFactory,
        node: Option<&MeaningConstructor>,
        meaning: &Symbol,
        asc_meaning_list: &[Symbol],
        arena_type_name: &str,
    ) -> (code: String)
        requires
            factory.wf(),
            factory@.is_meaning(*meaning),
            asc_meaning_list@.len() > 0,
            forall|i: int|
                0 <= i < asc_meaning_list@.len() ==> factory@.is_meaning(
                    #[trigger] asc_meaning_list@[i],
                ),
        ensures
            code@ == factory_function(
                factory@,
                *meaning,
                asc_meaning_list@,
                constructor_model(node),
                arena_type_name@,
            ),
    {
        let body = self.factory_body_code(factory, node, meaning, asc_meaning_list);
        let mut code: String = String::new();
        match node {
            Some(node) => {
                code.append(join_texts(&node.attributes, " ").as_str());
                code.append(optional_text(&node.visibility).as_str());
                code.append("fn new");
                code.append(node.type_params.as_str());
                code.append("(arena: &");
                code.append(arena_type_name);
                code.append(", ");
                code.append(parameters_text(&node.inputs).as_str());
                code.append(") -> Self ");
                code.append(optional_text(&node.where_clause).as_str());
            },
            None => {
                code.append("fn new");
                code.append("(arena: &");
                code.append(arena_type_name);
                code.append(", ");
                code.append(") -> Self ");
            },
        }
        code.append("{ ");
        code.append(body.as_str());
        code.append(" } ");
        code
    }

    /// The value of the layer of the meaning at `meaning_index` and of all
    /// layers beneath it: each field of each meaning with its default value,
    /// in a cell of the field's kind.
    pub fn init_data(
        &self,
        factory: &LmtFactory,
        asc_meaning_list: &[Symbol],
        meaning_index: usize,
    ) -> (code: String)
        requires
            factory.wf(),
            meaning_index < asc_meaning_list@.len(),
            forall|i: int|
                0 <= i < asc_meaning_list@.len() ==> factory@.is_meaning(
                    #[trigger] asc_meaning_list@[i],
                ),
        ensures
            code@ == layer_value(factory@, asc_meaning_list@, meaning_index as int),
        decreases asc_meaning_list@.len() - meaning_index,
    {
        let meaning = asc_meaning_list[meaning_index];
        let meaning_name = meaning.name(factory);
        let field_list = meaning.fields(factory);
        let ghost list = field_list@;
        let mut fields: String = String::new();
        let mut i: usize = 0;
        while i < field_list.len()
            invariant
                i <= field_list@.len(),
                list == field_list@,
                forall|j: int| 0 <= j < list.len() ==> factory@.is_field(#[trigger] list[j]),
                fields@ == field_initializers(factory@, list.take(i as int)),
            decreases field_list@.len() - i,
        {
            let field = field_list[i];
            proof {
                let longer = list.take(i + 1);
                assert(longer.drop_last() =~= list.take(i as int));
            }
            fields.append(field.name(factory).as_str());
            if field.is_ref(factory) {
                fields.append(": ::std::cell::RefCell::new(");
            } else {
                fields.append(": ::std::cell::Cell::new(");
            }
            fields.append(field.field_init(factory).as_str());
            fields.append("), ");
            i += 1;
        }
        assert(list.take(i as int) =~= list);

        let mut variant: String = DATA.to_owned();
        variant.append("::");
        variant.append(DATA_VARIANT_PREFIX);
        variant.append(meaning_name.as_str());
        variant.append("::");
        if meaning_index + 1 < asc_meaning_list.len() {
            let next_m = asc_meaning_list[meaning_index + 1].name(factory);
            let inner = self.init_data(factory, asc_meaning_list, meaning_index + 1);
            variant.append(next_m.as_str());
            variant.append("(::std::rc::Rc::new(");
            variant.append(inner.as_str());
            variant.append("))");
        } else {
            variant.append(DATA_VARIANT_NO_SUBMEANING);
        }

        let mut code: String = DATA.to_owned();
        code.append("::");
        code.append(meaning_name.as_str());
        code.append(" { ");
        code.append(fields.as_str());
        code.append(DATA_VARIANT_FIELD);
        code.append(": ");
        code.append(variant.as_str());
        code.append(" }");
        code
    }
}

} // verus!
