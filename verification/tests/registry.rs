use stainless_extraction::extraction::{is_numeric_name, BaseExtractor, BodyExtractor, Extraction};
use stainless_extraction::ast::Type;
use stainless_extraction::factory::Factory;

fn path(segments: &[&str]) -> Vec<String> {
    segments.iter().map(|s| s.to_string()).collect()
}

#[test]
fn name_of_digits_gets_an_underscore() {
    let factory = Factory::new();
    let mut base = BaseExtractor::new(Extraction::new(&factory));
    let id = base.register_def(1, path(&["demo", "Pair", "42"]));
    assert_eq!(id.id.name, "_42");
    assert_eq!(id.symbol_path, path(&["demo", "Pair", "_42"]));
}

#[test]
fn other_names_are_registered_as_they_are() {
    let factory = Factory::new();
    let mut base = BaseExtractor::new(Extraction::new(&factory));
    let id = base.register_def(1, path(&["demo", "x1"]));
    assert_eq!(id.id.name, "x1");
    assert_eq!(id.symbol_path, path(&["demo", "x1"]));
    let id = base.register_def(2, path(&["demo", "4a"]));
    assert_eq!(id.id.name, "4a");
}

#[test]
fn digits_are_the_ten_ascii_digits() {
    assert!(is_numeric_name("0123456789"));
    assert!(is_numeric_name(""));
    assert!(!is_numeric_name("12a"));
    assert!(!is_numeric_name("_1"));
    assert!(!is_numeric_name("١٢"));
}

#[test]
fn global_ids_count_all_identifiers_and_local_ids_those_of_one_name() {
    let factory = Factory::new();
    let mut base = BaseExtractor::new(Extraction::new(&factory));
    let a0 = base.fresh_id("a".to_string());
    let b0 = base.fresh_id("b".to_string());
    let a1 = base.fresh_id("a".to_string());
    let a2 = base.register_def(7, path(&["m", "a"]));
    assert_eq!((a0.id.global_id, a0.id.id), (0, 0));
    assert_eq!((b0.id.global_id, b0.id.id), (1, 0));
    assert_eq!((a1.id.global_id, a1.id.id), (2, 1));
    assert_eq!((a2.id.global_id, a2.id.id), (3, 2));
    assert_eq!(a0.symbol_path, path(&["a"]));
    assert_eq!(base.ids_left(), i32::MAX - 4);
}

#[test]
fn registered_definition_is_found_again() {
    let factory = Factory::new();
    let mut base = BaseExtractor::new(Extraction::new(&factory));
    assert!(base.get_id_from_def(5).is_none());
    let id = base.get_or_register_def(5, path(&["m", "f"]));
    let again = base.get_or_register_def(5, path(&["m", "other"]));
    assert!(std::ptr::eq(id, again));
    assert_eq!(base.get_id_from_def(5), Some(id));
    assert_eq!(base.ids_left(), i32::MAX - 1);
}

#[test]
fn binder_is_registered_under_the_path_of_its_owner() {
    let factory = Factory::new();
    let mut base = BaseExtractor::new(Extraction::new(&factory));
    let id = base.register_hir(3, path(&["demo", "main"]), "x".to_string());
    assert_eq!(id.id.name, "x");
    assert_eq!(id.symbol_path, path(&["demo", "main", "x"]));
}

#[test]
fn session_goes_to_the_body_and_comes_back() {
    let factory = Factory::new();
    let mut base = BaseExtractor::new(Extraction::new(&factory));
    base.register_def(1, path(&["demo", "f"]));
    let mut bx = BodyExtractor::new(&mut base);
    let x = bx.register_var(9, path(&["demo", "f"]), "x".to_string(), Type::BooleanType);
    assert_eq!(x.id.id.global_id, 1);
    assert!(bx.has_var(9));
    assert!(!bx.has_var(8));
    assert!(std::ptr::eq(bx.fetch_var(9), x));
    assert!(bx.id_of(1).is_some());
    bx.finish(&mut base);
    assert_eq!(base.ids_left(), i32::MAX - 2);
    assert!(base.get_id_from_def(1).is_some());
}
