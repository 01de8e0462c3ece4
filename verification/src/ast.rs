//! The declarations that the generators consume. Types, expressions and
//! statements of the host language are syntax fragments, held as text and
//! spliced into the generated code as they are.

use vstd::prelude::*;
use crate::model::{option_text, FieldModel};

verus! {

/// The declaration of a field of a meaning.
pub struct MeaningField {
    /// Whether the field is stored in a cell that is borrowed (`true`) or
    /// in one that is copied out of (`false`).
    pub is_ref: bool,
    pub name: String,
    /// Where the name stands in the source.
    pub span: proc_macro2::Span,
    pub type_annotation: String,
    pub default_value: String,
}

impl MeaningField {
    /// What the field slot of this declaration holds.
    pub open spec fn model(&self) -> FieldModel {
        FieldModel {
            name: self.name@,
            field_type: self.type_annotation@,
            field_init: self.default_value@,
            is_ref: self.is_ref,
        }
    }
}

/// One parameter of a constructor: a pattern and its type.
pub struct ConstructorInput {
    pub pattern: String,
    pub ty: String,
}

/// The declaration of the constructor of a meaning.
pub struct MeaningConstructor {
    /// The attributes, each as written.
    pub attributes: Vec<String>,
    /// The visibility of the factory, where one is written.
    pub visibility: Option<String>,
    /// The generic parameters with their angle brackets; empty where the
    /// constructor has none.
    pub type_params: String,
    /// The `where` clause with its keyword, where there is one.
    pub where_clause: Option<String>,
    pub inputs: Vec<ConstructorInput>,
    /// The arguments handed on to the initializer of the parent.
    pub super_arguments: Vec<String>,
    /// The statements of the body, each with its terminator.
    pub statements: Vec<String>,
}

/// A constructor declaration as a mathematical value.
pub struct ConstructorModel {
    pub attributes: Seq<Seq<char>>,
    pub visibility: Option<Seq<char>>,
    pub type_params: Seq<char>,
    pub where_clause: Option<Seq<char>>,
    /// Pattern and type of each parameter.
    pub inputs: Seq<(Seq<char>, Seq<char>)>,
    pub super_arguments: Seq<Seq<char>>,
    pub statements: Seq<Seq<char>>,
}

/// What each of `texts` holds.
pub open spec fn texts_view(texts: Seq<String>) -> Seq<Seq<char>> {
    Seq::new(texts.len(), |i: int| texts[i]@)
}

/// Pattern and type of each of `inputs`.
pub open spec fn inputs_view(inputs: Seq<ConstructorInput>) -> Seq<(Seq<char>, Seq<char>)> {
    Seq::new(inputs.len(), |i: int| (inputs[i].pattern@, inputs[i].ty@))
}

impl ConstructorModel {
    /// The constructor of a meaning that declares none: no parameters, no
    /// statements, nothing handed on to the parent.
    pub open spec fn absent() -> ConstructorModel {
        ConstructorModel {
            attributes: Seq::empty(),
            visibility: None,
            type_params: Seq::empty(),
            where_clause: None,
            inputs: Seq::empty(),
            super_arguments: Seq::empty(),
            statements: Seq::empty(),
        }
    }
}

impl View for MeaningConstructor {
    type V = ConstructorModel;

    open spec fn view(&self) -> ConstructorModel {
        ConstructorModel {
            attributes: texts_view(self.attributes@),
            visibility: option_text(self.visibility),
            type_params: self.type_params@,
            where_clause: option_text(self.where_clause),
            inputs: inputs_view(self.inputs@),
            super_arguments: texts_view(self.super_arguments@),
            statements: texts_view(self.statements@),
        }
    }
}

/// What an optional constructor declaration stands for.
pub open spec fn constructor_model(node: Option<&MeaningConstructor>) -> ConstructorModel {
    match node {
        Some(node) => node@,
        None => ConstructorModel::absent(),
    }
}

} // verus!
