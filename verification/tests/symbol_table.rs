use std::collections::hash_map::DefaultHasher;
use std::collections::HashSet;
use std::hash::{Hash, Hasher};

use smodel_core::arena::Arena;
use smodel_core::symbol::{FieldSlot, LmtFactory, MeaningSlot, MethodSlot, OverrideLogicMapping, Symbol};

fn hash_of(symbol: &Symbol) -> u64 {
    let mut hasher = DefaultHasher::new();
    symbol.hash(&mut hasher);
    hasher.finish()
}

/// root <- a <- b <- c
fn chain(factory: &mut LmtFactory) -> (Symbol, Symbol, Symbol, Symbol) {
    let root = factory.create_meaning_slot("Root".to_string());
    let a = factory.create_meaning_slot("A".to_string());
    let b = factory.create_meaning_slot("B".to_string());
    let c = factory.create_meaning_slot("C".to_string());
    a.set_inherits(factory, Some(&root));
    b.set_inherits(factory, Some(&a));
    c.set_inherits(factory, Some(&b));
    (root, a, b, c)
}

#[test]
fn arena_hands_out_consecutive_handles() {
    let mut arena: Arena<String> = Arena::new();
    assert_eq!(arena.len(), 0);
    let first = arena.allocate("same".to_string());
    let second = arena.allocate("same".to_string());
    assert_eq!(first, 0);
    assert_eq!(second, 1);
    assert_ne!(first, second);
    assert_eq!(arena.len(), 2);
    assert_eq!(arena.get(first), "same");
    assert_eq!(arena.get(second), "same");
}

#[test]
fn arena_get_mut_changes_one_value_only() {
    let mut arena: Arena<u32> = Arena::new();
    let first = arena.allocate(10);
    let second = arena.allocate(20);
    *arena.get_mut(first) = 11;
    assert_eq!(*arena.get(first), 11);
    assert_eq!(*arena.get(second), 20);
}

#[test]
fn handles_of_one_allocation_are_equal_and_hash_alike() {
    let mut factory = LmtFactory::new();
    let symbol = factory.create_meaning_slot("M".to_string());
    let copy = symbol;
    let clone = symbol.clone();
    assert_eq!(symbol, copy);
    assert_eq!(symbol, clone);
    assert_eq!(hash_of(&symbol), hash_of(&copy));
    assert_eq!(hash_of(&symbol), hash_of(&clone));
    let mut set = HashSet::new();
    set.insert(symbol);
    assert!(set.contains(&copy));
    assert!(!set.insert(clone));
}

#[test]
fn handles_of_two_allocations_differ_whatever_they_hold() {
    let mut factory = LmtFactory::new();
    let first = factory.create_meaning_slot("M".to_string());
    let second = factory.create_meaning_slot("M".to_string());
    assert_eq!(first.name(&factory), second.name(&factory));
    assert_ne!(first, second);
    let f1 = factory.create_field_slot(false, "x".to_string(), "u8".to_string(), "0".to_string());
    let f2 = factory.create_field_slot(false, "x".to_string(), "u8".to_string(), "0".to_string());
    assert_ne!(f1, f2);
    let m1 = factory.create_method_slot("m".to_string(), first, None);
    let m2 = factory.create_method_slot("m".to_string(), first, None);
    assert_ne!(m1, m2);
    let mut set = HashSet::new();
    for symbol in [first, second, f1, f2, m1, m2] {
        assert!(set.insert(symbol));
    }
    assert_eq!(set.len(), 6);
}

#[test]
fn factory_knows_its_own_handles() {
    let mut factory = LmtFactory::new();
    let mut other = LmtFactory::new();
    let first = other.create_meaning_slot("M".to_string());
    let second = other.create_meaning_slot("N".to_string());
    assert!(!factory.contains(&first));
    let own = factory.create_meaning_slot("M".to_string());
    assert!(factory.contains(&own));
    assert!(!factory.contains(&second));
    let node = OverrideLogicMapping::new(&mut other);
    assert!(other.contains_override(&node));
    assert!(!factory.contains_override(&node));
}

#[test]
fn kinds_are_told_apart() {
    let mut factory = LmtFactory::new();
    let meaning = factory.create_meaning_slot("M".to_string());
    let field = factory.create_field_slot(true, "f".to_string(), "T".to_string(), "E".to_string());
    let method = factory.create_method_slot("m".to_string(), meaning, Some("#[doc = \"d\"]".to_string()));
    assert!(meaning.is_meaning_slot(&factory));
    assert!(!meaning.is_field_slot(&factory));
    assert!(!meaning.is_method_slot(&factory));
    assert!(field.is_field_slot(&factory));
    assert!(!field.is_meaning_slot(&factory));
    assert!(!field.is_method_slot(&factory));
    assert!(method.is_method_slot(&factory));
    assert!(!method.is_meaning_slot(&factory));
    assert!(!method.is_field_slot(&factory));
}

#[test]
fn slots_hold_what_they_were_created_with() {
    let mut factory = LmtFactory::new();
    let meaning = factory.create_meaning_slot("Shape".to_string());
    assert_eq!(meaning.name(&factory), "Shape");
    assert_eq!(meaning.to_string(&factory), "Shape");
    assert_eq!(meaning.inherits(&factory), None);
    assert!(meaning.submeanings(&factory).is_empty());
    assert!(meaning.methods(&factory).is_empty());
    assert!(meaning.fields(&factory).is_empty());
    assert_eq!(meaning.method_output(&factory), "");

    let field = factory.create_field_slot(
        true,
        "label".to_string(),
        "String".to_string(),
        "String::new()".to_string(),
    );
    assert_eq!(field.name(&factory), "label");
    assert_eq!(field.field_type(&factory), "String");
    assert_eq!(field.field_init(&factory), "String::new()");
    assert!(field.is_ref(&factory));
    let plain = factory.create_field_slot(false, "n".to_string(), "u32".to_string(), "7".to_string());
    assert!(!plain.is_ref(&factory));

    let method = factory.create_method_slot("area".to_string(), meaning, Some("#[doc = \"Area.\"]".to_string()));
    assert_eq!(method.name(&factory), "area");
    assert_eq!(method.defined_in(&factory), meaning);
    assert_eq!(method.doc_attribute(&factory), Some("#[doc = \"Area.\"]".to_string()));
    assert!(method.override_logic_mapping(&factory).is_empty());
    let bare = factory.create_method_slot("perimeter".to_string(), meaning, None);
    assert_eq!(bare.doc_attribute(&factory), None);
}

#[test]
fn typed_slots_hand_out_their_symbol() {
    let mut factory = LmtFactory::new();
    let meaning = factory.create_meaning_slot("M".to_string());
    let field = factory.create_field_slot(false, "f".to_string(), "T".to_string(), "E".to_string());
    let method = factory.create_method_slot("m".to_string(), meaning, None);
    assert_eq!(MeaningSlot(meaning).symbol(&factory), meaning);
    assert_eq!(FieldSlot(field).symbol(&factory), field);
    assert_eq!(MethodSlot(method).symbol(&factory), method);
    assert_eq!(MeaningSlot(meaning), MeaningSlot(meaning));
}

#[test]
fn ascending_list_runs_from_the_root_to_the_meaning() {
    let mut factory = LmtFactory::new();
    let (root, a, b, c) = chain(&mut factory);
    assert_eq!(c.asc_meaning_list(&factory), vec![root, a, b, c]);
    assert_eq!(b.asc_meaning_list(&factory), vec![root, a, b]);
    assert_eq!(a.asc_meaning_list(&factory), vec![root, a]);
}

#[test]
fn ascending_list_of_a_root_is_the_root_alone() {
    let mut factory = LmtFactory::new();
    let (root, _, _, _) = chain(&mut factory);
    assert_eq!(root.asc_meaning_list(&factory), vec![root]);
    let lonely = factory.create_meaning_slot("Lonely".to_string());
    assert_eq!(lonely.asc_meaning_list(&factory), vec![lonely]);
}

#[test]
fn parent_may_be_created_after_its_child() {
    let mut factory = LmtFactory::new();
    let child = factory.create_meaning_slot("Child".to_string());
    let parent = factory.create_meaning_slot("Parent".to_string());
    child.set_inherits(&mut factory, Some(&parent));
    assert_eq!(child.inherits(&factory), Some(parent));
    assert_eq!(child.asc_meaning_list(&factory), vec![parent, child]);
}

#[test]
fn set_inherits_replaces_and_removes_the_parent() {
    let mut factory = LmtFactory::new();
    let a = factory.create_meaning_slot("A".to_string());
    let b = factory.create_meaning_slot("B".to_string());
    let c = factory.create_meaning_slot("C".to_string());
    c.set_inherits(&mut factory, Some(&a));
    assert_eq!(c.asc_meaning_list(&factory), vec![a, c]);
    c.set_inherits(&mut factory, Some(&b));
    assert_eq!(c.inherits(&factory), Some(b));
    assert_eq!(c.asc_meaning_list(&factory), vec![b, c]);
    c.set_inherits(&mut factory, None);
    assert_eq!(c.inherits(&factory), None);
    assert_eq!(c.asc_meaning_list(&factory), vec![c]);
    assert_eq!(a.inherits(&factory), None);
    assert_eq!(b.inherits(&factory), None);
}

#[test]
fn descends_from_follows_the_chain_upwards_only() {
    let mut factory = LmtFactory::new();
    let (root, a, b, c) = chain(&mut factory);
    let other = factory.create_meaning_slot("Other".to_string());
    assert!(c.descends_from(&factory, &c));
    assert!(c.descends_from(&factory, &b));
    assert!(c.descends_from(&factory, &root));
    assert!(!a.descends_from(&factory, &b));
    assert!(!root.descends_from(&factory, &c));
    assert!(!c.descends_from(&factory, &other));
}

#[test]
fn submeanings_keep_the_order_of_registration() {
    let mut factory = LmtFactory::new();
    let parent = factory.create_meaning_slot("P".to_string());
    let x = factory.create_meaning_slot("X".to_string());
    let y = factory.create_meaning_slot("Y".to_string());
    parent.add_submeaning(&mut factory, y);
    parent.add_submeaning(&mut factory, x);
    assert_eq!(parent.submeanings(&factory), &vec![y, x]);
    assert!(x.submeanings(&factory).is_empty());
}

#[test]
fn methods_are_found_by_name_and_replaced_by_name() {
    let mut factory = LmtFactory::new();
    let meaning = factory.create_meaning_slot("M".to_string());
    let area = factory.create_method_slot("area".to_string(), meaning, None);
    let name = factory.create_method_slot("name".to_string(), meaning, None);
    meaning.set_method(&mut factory, area);
    meaning.set_method(&mut factory, name);
    assert_eq!(meaning.methods(&factory), &vec![area, name]);
    assert_eq!(meaning.get_method(&factory, "area"), Some(area));
    assert_eq!(meaning.get_method(&factory, "name"), Some(name));
    assert_eq!(meaning.get_method(&factory, "missing"), None);

    let area2 = factory.create_method_slot("area".to_string(), meaning, None);
    meaning.set_method(&mut factory, area2);
    assert_eq!(meaning.methods(&factory), &vec![area2, name]);
    assert_eq!(meaning.get_method(&factory, "area"), Some(area2));
}

#[test]
fn fields_are_found_by_name_within_their_meaning_only() {
    let mut factory = LmtFactory::new();
    let m = factory.create_meaning_slot("M".to_string());
    let n = factory.create_meaning_slot("N".to_string());
    let x_of_m = factory.create_field_slot(false, "x".to_string(), "u8".to_string(), "0".to_string());
    let x_of_n = factory.create_field_slot(false, "x".to_string(), "u8".to_string(), "1".to_string());
    m.set_field(&mut factory, x_of_m);
    n.set_field(&mut factory, x_of_n);
    assert_eq!(m.get_field(&factory, "x"), Some(x_of_m));
    assert_eq!(n.get_field(&factory, "x"), Some(x_of_n));
    assert_eq!(m.get_field(&factory, "y"), None);
    assert_eq!(m.fields(&factory), &vec![x_of_m]);
}

#[test]
fn set_field_replaces_the_field_of_the_same_name() {
    let mut factory = LmtFactory::new();
    let m = factory.create_meaning_slot("M".to_string());
    let x = factory.create_field_slot(false, "x".to_string(), "u8".to_string(), "0".to_string());
    let y = factory.create_field_slot(false, "y".to_string(), "u8".to_string(), "0".to_string());
    let x2 = factory.create_field_slot(true, "x".to_string(), "u16".to_string(), "2".to_string());
    m.set_field(&mut factory, x);
    m.set_field(&mut factory, y);
    m.set_field(&mut factory, x2);
    assert_eq!(m.fields(&factory), &vec![x2, y]);
}

#[test]
fn method_output_grows_at_its_end() {
    let mut factory = LmtFactory::new();
    let m = factory.create_meaning_slot("M".to_string());
    let n = factory.create_meaning_slot("N".to_string());
    m.extend_method_output(&mut factory, "fn a() {} ");
    m.extend_method_output(&mut factory, "fn b() {} ");
    assert_eq!(m.method_output(&factory), "fn a() {} fn b() {} ");
    assert_eq!(n.method_output(&factory), "");
}

#[test]
fn override_node_starts_empty_and_takes_code() {
    let mut factory = LmtFactory::new();
    let node = OverrideLogicMapping::new(&mut factory);
    let other = OverrideLogicMapping::new(&mut factory);
    assert_ne!(node, other);
    assert_eq!(node.override_code(&factory), None);
    assert!(node.override_logic_mapping(&factory).is_empty());
    node.set_override_code(&mut factory, Some("return 1;".to_string()));
    assert_eq!(node.override_code(&factory), Some("return 1;".to_string()));
    assert_eq!(other.override_code(&factory), None);
    node.set_override_code(&mut factory, None);
    assert_eq!(node.override_code(&factory), None);
}

#[test]
fn override_entries_are_keyed_by_identity_not_by_name() {
    let mut factory = LmtFactory::new();
    let a = factory.create_meaning_slot("A".to_string());
    let twin1 = factory.create_meaning_slot("Twin".to_string());
    let twin2 = factory.create_meaning_slot("Twin".to_string());
    let m = factory.create_method_slot("m".to_string(), a, None);
    let node1 = OverrideLogicMapping::new(&mut factory);
    m.set_override(&mut factory, twin1, node1);
    assert_eq!(m.get_override(&factory, &twin1), Some(node1));
    assert_eq!(m.get_override(&factory, &twin2), None);
    let node2 = OverrideLogicMapping::new(&mut factory);
    m.set_override(&mut factory, twin2, node2);
    assert_eq!(m.override_logic_mapping(&factory), &vec![(twin1, node1), (twin2, node2)]);
    let node3 = OverrideLogicMapping::new(&mut factory);
    m.set_override(&mut factory, twin1, node3);
    assert_eq!(m.override_logic_mapping(&factory), &vec![(twin1, node3), (twin2, node2)]);

    node1.set_override(&mut factory, twin2, node2);
    assert_eq!(node1.get_override(&factory, &twin2), Some(node2));
    assert_eq!(node1.get_override(&factory, &twin1), None);
    node1.set_override(&mut factory, twin2, node3);
    assert_eq!(node1.override_logic_mapping(&factory), &vec![(twin2, node3)]);
}

/// A <- B <- D, with `m` declared on A and overridden at B and, beneath B, at D.
fn overridden(factory: &mut LmtFactory) -> (Symbol, Symbol, Symbol, Symbol) {
    let a = factory.create_meaning_slot("A".to_string());
    let b = factory.create_meaning_slot("B".to_string());
    let d = factory.create_meaning_slot("D".to_string());
    b.set_inherits(factory, Some(&a));
    d.set_inherits(factory, Some(&b));
    let m = factory.create_method_slot("m".to_string(), a, None);
    let at_b = OverrideLogicMapping::new(factory);
    at_b.set_override_code(factory, Some("return B::m(self);".to_string()));
    let at_d = OverrideLogicMapping::new(factory);
    at_d.set_override_code(factory, Some("return D::m(self);".to_string()));
    m.set_override(factory, b, at_b);
    at_b.set_override(factory, d, at_d);
    (a, b, d, m)
}

#[test]
fn override_of_the_most_derived_meaning_wins() {
    let mut factory = LmtFactory::new();
    let (a, b, d, m) = overridden(&mut factory);
    assert_eq!(m.resolve_override(&factory, &d), Some("return D::m(self);".to_string()));
    assert_eq!(m.resolve_override(&factory, &b), Some("return B::m(self);".to_string()));
    assert_eq!(m.resolve_override(&factory, &a), None);
}

#[test]
fn meaning_without_entry_inherits_the_enclosing_override() {
    let mut factory = LmtFactory::new();
    let (a, b, d, m) = overridden(&mut factory);
    // E inherits D and has no entry of its own: D's override stays in force.
    let e = factory.create_meaning_slot("E".to_string());
    e.set_inherits(&mut factory, Some(&d));
    assert_eq!(m.resolve_override(&factory, &e), Some("return D::m(self);".to_string()));
    // C inherits A beside B and has no entry: the method's own logic applies.
    let c = factory.create_meaning_slot("C".to_string());
    c.set_inherits(&mut factory, Some(&a));
    assert_eq!(m.resolve_override(&factory, &c), None);
    // A meaning that does not descend from A at all.
    let stranger = factory.create_meaning_slot("Stranger".to_string());
    assert_eq!(m.resolve_override(&factory, &stranger), None);
    let _ = b;
}

#[test]
fn node_without_code_passes_the_enclosing_override_on() {
    let mut factory = LmtFactory::new();
    let a = factory.create_meaning_slot("A".to_string());
    let b = factory.create_meaning_slot("B".to_string());
    let c = factory.create_meaning_slot("C".to_string());
    let d = factory.create_meaning_slot("D".to_string());
    b.set_inherits(&mut factory, Some(&a));
    c.set_inherits(&mut factory, Some(&b));
    d.set_inherits(&mut factory, Some(&c));
    let m = factory.create_method_slot("m".to_string(), a, None);
    let at_b = OverrideLogicMapping::new(&mut factory);
    at_b.set_override_code(&mut factory, Some("return B::m(self);".to_string()));
    let at_c = OverrideLogicMapping::new(&mut factory);
    let at_d = OverrideLogicMapping::new(&mut factory);
    at_d.set_override_code(&mut factory, Some("return D::m(self);".to_string()));
    m.set_override(&mut factory, b, at_b);
    at_b.set_override(&mut factory, c, at_c);
    at_c.set_override(&mut factory, d, at_d);
    assert_eq!(m.resolve_override(&factory, &c), Some("return B::m(self);".to_string()));
    assert_eq!(m.resolve_override(&factory, &d), Some("return D::m(self);".to_string()));
}

#[test]
fn override_below_the_declaring_meaning_is_resolved_from_there() {
    let mut factory = LmtFactory::new();
    let root = factory.create_meaning_slot("Root".to_string());
    let a = factory.create_meaning_slot("A".to_string());
    let b = factory.create_meaning_slot("B".to_string());
    a.set_inherits(&mut factory, Some(&root));
    b.set_inherits(&mut factory, Some(&a));
    // `m` is declared on A, not on the root.
    let m = factory.create_method_slot("m".to_string(), a, None);
    let at_b = OverrideLogicMapping::new(&mut factory);
    at_b.set_override_code(&mut factory, Some("return 2;".to_string()));
    m.set_override(&mut factory, b, at_b);
    assert_eq!(m.resolve_override(&factory, &b), Some("return 2;".to_string()));
    assert_eq!(m.resolve_override(&factory, &a), None);
    assert_eq!(m.resolve_override(&factory, &root), None);
}
