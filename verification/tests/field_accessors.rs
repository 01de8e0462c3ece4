use std::str::FromStr;

use smodel_core::ast::MeaningField;
use smodel_core::host::SModelHost;
use smodel_core::processing_step_3_2::ProcessingStep3_2;
use smodel_core::symbol::Symbol;

fn field(name: &str, ty: &str, init: &str, is_ref: bool) -> MeaningField {
    MeaningField {
        is_ref,
        name: name.to_string(),
        span: proc_macro2::Span::call_site(),
        type_annotation: ty.to_string(),
        default_value: init.to_string(),
    }
}

/// root <- a <- b <- c
fn chain(host: &mut SModelHost) -> Vec<Symbol> {
    let root = host.factory.create_meaning_slot("Root".to_string());
    let a = host.factory.create_meaning_slot("A".to_string());
    let b = host.factory.create_meaning_slot("B".to_string());
    let c = host.factory.create_meaning_slot("C".to_string());
    a.set_inherits(&mut host.factory, Some(&root));
    b.set_inherits(&mut host.factory, Some(&a));
    c.set_inherits(&mut host.factory, Some(&b));
    vec![root, a, b, c]
}

fn unwrap_steps(code: &str) -> usize {
    code.matches("if let ").count()
}

#[test]
fn field_of_the_last_layer_needs_no_unwrap_step() {
    let mut host = SModelHost::new();
    let list = chain(&mut host);
    let code = ProcessingStep3_2().match_field(&host.factory, &list, 3, "base", "x");
    assert_eq!(code, "base.x");
    assert_eq!(unwrap_steps(&code), 0);
}

#[test]
fn field_of_a_root_is_reached_directly() {
    let mut host = SModelHost::new();
    let root = host.factory.create_meaning_slot("Root".to_string());
    let code = ProcessingStep3_2().match_field(&host.factory, &[root], 0, "self.0.upgrade().unwrap()", "x");
    assert_eq!(code, "self.0.upgrade().unwrap().x");
}

#[test]
fn one_layer_is_unwrapped_with_one_match() {
    let mut host = SModelHost::new();
    let list = chain(&mut host);
    let code = ProcessingStep3_2().match_field(&host.factory, &list, 2, "base", "x");
    assert_eq!(
        code,
        "(if let __data__::__variant_B::C(o) = &base.__variant { o.x } else { panic!() })"
    );
    assert_eq!(unwrap_steps(&code), 1);
}

#[test]
fn accessor_from_the_second_of_four_layers_unwraps_twice() {
    let mut host = SModelHost::new();
    let list = chain(&mut host);
    let code = ProcessingStep3_2().match_field(&host.factory, &list, 1, "base", "x");
    assert_eq!(
        code,
        "(if let __data__::__variant_A::B(o) = &base.__variant { \
         (if let __data__::__variant_B::C(o) = &o.__variant { o.x } else { panic!() }) \
         } else { panic!() })"
    );
    assert_eq!(unwrap_steps(&code), 2);
}

#[test]
fn accessor_depth_is_the_number_of_layers_below_the_start() {
    let mut host = SModelHost::new();
    let list = chain(&mut host);
    for start in 0..list.len() {
        let code = ProcessingStep3_2().match_field(&host.factory, &list, start, "base", "x");
        assert_eq!(unwrap_steps(&code), list.len() - 1 - start);
        assert_eq!(code.matches("panic!()").count(), list.len() - 1 - start);
        assert!(proc_macro2::TokenStream::from_str(&code).is_ok());
    }
    let from_root = ProcessingStep3_2().match_field(&host.factory, &list, 0, "base", "x");
    assert!(from_root.starts_with("(if let __data__::__variant_Root::A(o) = &base.__variant { "));
}

#[test]
fn field_by_value_gets_a_copy_cell_and_get_set_accessors() {
    let mut host = SModelHost::new();
    let root = host.factory.create_meaning_slot("Root".to_string());
    let mut field_output = String::new();
    let result = ProcessingStep3_2().exec(
        &mut host,
        &root,
        &field("x", "u32", "0", false),
        "self.0",
        &[root],
        &mut field_output,
    );
    let slot = match result {
        Ok(slot) => slot,
        Err(_) => panic!("no collision expected"),
    };
    assert!(slot.is_field_slot(&host.factory));
    assert_eq!(slot.name(&host.factory), "x");
    assert_eq!(slot.field_type(&host.factory), "u32");
    assert_eq!(slot.field_init(&host.factory), "0");
    assert!(!slot.is_ref(&host.factory));
    assert_eq!(root.fields(&host.factory), &vec![slot]);
    assert_eq!(field_output, "pub x: ::std::cell::Cell<u32>, ");
    assert_eq!(
        root.method_output(&host.factory),
        "fn x(&self) -> u32 { self.0.upgrade().unwrap().x.get() } \
         fn set_x(&self, v: u32) { self.0.upgrade().unwrap().x.set(v); } "
    );
}

#[test]
fn field_by_reference_gets_a_borrowed_cell_and_clone_replace_accessors() {
    let mut host = SModelHost::new();
    let root = host.factory.create_meaning_slot("Root".to_string());
    let mut field_output = String::new();
    let result = ProcessingStep3_2().exec(
        &mut host,
        &root,
        &field("label", "String", "String::new()", true),
        "self.0",
        &[root],
        &mut field_output,
    );
    assert!(result.is_ok());
    assert_eq!(field_output, "pub label: ::std::cell::RefCell<String>, ");
    assert_eq!(
        root.method_output(&host.factory),
        "fn label(&self) -> String { self.0.upgrade().unwrap().label.borrow().clone() } \
         fn set_label(&self, v: String) { self.0.upgrade().unwrap().label.replace(v); } "
    );
}

#[test]
fn field_of_a_derived_meaning_is_reached_through_every_layer_above() {
    let mut host = SModelHost::new();
    let list = chain(&mut host);
    let a = list[1];
    let mut field_output = String::new();
    let result = ProcessingStep3_2().exec(
        &mut host,
        &a,
        &field("x", "u32", "0", false),
        "self.0.0",
        &list[..2],
        &mut field_output,
    );
    assert!(result.is_ok());
    let cell = "(if let __data__::__variant_Root::A(o) = &self.0.0.upgrade().unwrap().__variant \
                { o.x } else { panic!() })";
    assert_eq!(
        a.method_output(&host.factory),
        &format!(
            "fn x(&self) -> u32 {{ {cell}.get() }} fn set_x(&self, v: u32) {{ {cell}.set(v); }} "
        )
    );
    assert_eq!(list[0].method_output(&host.factory), "");
}

#[test]
fn second_field_of_a_name_yields_one_diagnostic_and_is_not_registered() {
    let mut host = SModelHost::new();
    let root = host.factory.create_meaning_slot("Root".to_string());
    let mut field_output = String::new();
    let first = ProcessingStep3_2().exec(
        &mut host,
        &root,
        &field("x", "u32", "0", false),
        "self.0",
        &[root],
        &mut field_output,
    );
    let slot = match first {
        Ok(slot) => slot,
        Err(_) => panic!("no collision expected"),
    };
    let output_before = field_output.clone();
    let methods_before = root.method_output(&host.factory).clone();

    let second = ProcessingStep3_2().exec(
        &mut host,
        &root,
        &field("x", "String", "String::new()", true),
        "self.0",
        &[root],
        &mut field_output,
    );
    match second {
        Ok(_) => panic!("collision expected"),
        Err(diagnostic) => assert_eq!(diagnostic.message, "Redefining 'x'"),
    }
    assert_eq!(root.fields(&host.factory), &vec![slot]);
    assert_eq!(root.get_field(&host.factory, "x"), Some(slot));
    assert_eq!(slot.field_type(&host.factory), "u32");
    assert_eq!(field_output, output_before);
    assert_eq!(root.method_output(&host.factory), &methods_before);

    // Other fields go on as before.
    let third = ProcessingStep3_2().exec(
        &mut host,
        &root,
        &field("y", "u8", "1", false),
        "self.0",
        &[root],
        &mut field_output,
    );
    assert!(third.is_ok());
    assert_eq!(root.fields(&host.factory).len(), 2);
}

#[test]
fn same_field_name_on_two_meanings_does_not_collide() {
    let mut host = SModelHost::new();
    let list = chain(&mut host);
    let mut field_output = String::new();
    let on_root = ProcessingStep3_2().exec(
        &mut host,
        &list[0],
        &field("x", "u32", "0", false),
        "self.0",
        &list[..1],
        &mut field_output,
    );
    let on_a = ProcessingStep3_2().exec(
        &mut host,
        &list[1],
        &field("x", "u32", "0", false),
        "self.0.0",
        &list[..2],
        &mut field_output,
    );
    assert!(on_root.is_ok());
    assert!(on_a.is_ok());
    assert_ne!(on_root.ok(), on_a.ok());
}

#[test]
fn diagnostic_carries_the_position_of_the_declaration() {
    let tokens = proc_macro2::TokenStream::from_str("first second").unwrap();
    let spans: Vec<proc_macro2::Span> = tokens.into_iter().map(|token| token.span()).collect();
    let mut host = SModelHost::new();
    let root = host.factory.create_meaning_slot("Root".to_string());
    let mut field_output = String::new();
    let mut declaration = field("x", "u32", "0", false);
    declaration.span = spans[0];
    assert!(ProcessingStep3_2()
        .exec(&mut host, &root, &declaration, "self.0", &[root], &mut field_output)
        .is_ok());
    declaration.span = spans[1];
    match ProcessingStep3_2().exec(&mut host, &root, &declaration, "self.0", &[root], &mut field_output) {
        Ok(_) => panic!("collision expected"),
        Err(diagnostic) => {
            assert_eq!(diagnostic.span.start(), spans[1].start());
            assert_eq!(diagnostic.span.end(), spans[1].end());
            assert_ne!(diagnostic.span.start(), spans[0].start());
        }
    }
}

#[test]
fn generated_accessors_are_two_methods() {
    let mut host = SModelHost::new();
    let list = chain(&mut host);
    let c = list[3];
    let mut field_output = String::new();
    for (name, is_ref) in [("x", false), ("y", true)] {
        assert!(ProcessingStep3_2()
            .exec(
                &mut host,
                &c,
                &field(name, "Vec<u8>", "Vec::new()", is_ref),
                "self.0.0.0.0",
                &list,
                &mut field_output,
            )
            .is_ok());
    }
    let code = format!("impl C {{ {} }}", c.method_output(&host.factory));
    let parsed: syn::ItemImpl = syn::parse_str(&code).unwrap();
    let names: Vec<String> = parsed
        .items
        .iter()
        .map(|item| match item {
            syn::ImplItem::Fn(method) => method.sig.ident.to_string(),
            _ => panic!("only methods expected"),
        })
        .collect();
    assert_eq!(names, vec!["x", "set_x", "y", "set_y"]);
    let storage = format!("struct C {{ {} }}", field_output);
    let parsed: syn::ItemStruct = syn::parse_str(&storage).unwrap();
    assert_eq!(parsed.fields.len(), 2);
}
