use pathtracer::scene::{assign_material, Assigned, Materials};

fn name(text: &str) -> String {
    String::from(text)
}

#[test]
fn a_named_material_is_taken() {
    assert_eq!(assign_material(Some(0), 1), Some(Assigned::Listed(0)));
    assert_eq!(assign_material(Some(2), 3), Some(Assigned::Listed(2)));
}

#[test]
fn a_material_that_is_not_listed_is_refused() {
    assert_eq!(assign_material(Some(0), 0), None);
    assert_eq!(assign_material(Some(3), 3), None);
    assert_eq!(assign_material(Some(usize::MAX), 5), None);
}

#[test]
fn without_a_name_the_first_material_is_taken() {
    assert_eq!(assign_material(None, 1), Some(Assigned::Listed(0)));
    assert_eq!(assign_material(None, 9), Some(Assigned::Listed(0)));
}

#[test]
fn without_a_name_and_a_list_the_default_is_taken() {
    assert_eq!(assign_material(None, 0), Some(Assigned::Default));
}

#[test]
fn a_new_table_is_empty() {
    let table: Materials<u32> = Materials::new();
    assert_eq!(table.len(), 0);
    assert_eq!(table.find(&name("stone")), None);
    assert_eq!(table.get(0), None);
}

#[test]
fn materials_get_their_indices_in_the_order_they_come() {
    let mut table: Materials<u32> = Materials::new();
    assert_eq!(table.insert(name("stone"), 10), 0);
    assert_eq!(table.insert(name("glass"), 20), 1);
    assert_eq!(table.insert(name("leaf"), 30), 2);
    assert_eq!(table.len(), 3);
    assert_eq!(table.find(&name("stone")), Some(0));
    assert_eq!(table.find(&name("glass")), Some(1));
    assert_eq!(table.find(&name("leaf")), Some(2));
    assert_eq!(table.find(&name("Leaf")), None);
    assert_eq!(table.get(0), Some(&10));
    assert_eq!(table.get(1), Some(&20));
    assert_eq!(table.get(2), Some(&30));
    assert_eq!(table.get(3), None);
}

#[test]
fn the_first_material_under_a_name_stays() {
    let mut table: Materials<u32> = Materials::new();
    assert_eq!(table.insert(name("stone"), 10), 0);
    assert_eq!(table.insert(name("glass"), 20), 1);
    assert_eq!(table.insert(name("stone"), 99), 0);
    assert_eq!(table.len(), 2);
    assert_eq!(table.get(0), Some(&10));
    assert_eq!(table.get(1), Some(&20));
    assert_eq!(table.find(&name("stone")), Some(0));
}

#[test]
fn the_empty_name_is_a_name_like_any_other() {
    let mut table: Materials<u32> = Materials::new();
    assert_eq!(table.find(&name("")), None);
    assert_eq!(table.insert(name(""), 1), 0);
    assert_eq!(table.insert(name(" "), 2), 1);
    assert_eq!(table.find(&name("")), Some(0));
    assert_eq!(table.find(&name(" ")), Some(1));
}
