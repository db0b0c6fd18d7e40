use esplugin::form_id::FormId;
use std::cmp::Ordering;
use std::collections::hash_map::DefaultHasher;
use std::hash::{Hash, Hasher};

const PARENT_PLUGIN_NAME: &'static str = "plugin0";
const OTHER_PLUGIN_NAME: &'static str = "plugin1";
const MASTERS: &'static [&'static str] = &["plugin2", "plugin3"];
const NO_MASTERS: &'static [&'static str] = &[];

#[test]
fn object_index_should_equal_last_three_bytes_of_raw_form_id_value() {
    let form_id = FormId::new(PARENT_PLUGIN_NAME, MASTERS, 0x01);

    assert_eq!(0x01, form_id.object_index);

    let form_id = FormId::new(PARENT_PLUGIN_NAME, MASTERS, 0x01000001);

    assert_eq!(0x01, form_id.object_index);
}

#[test]
fn should_store_master_at_mod_index_as_plugin_name() {
    let form_id = FormId::new(PARENT_PLUGIN_NAME, MASTERS, 0x01);

    assert_eq!(MASTERS[0], form_id.plugin_name);

    let form_id = FormId::new(PARENT_PLUGIN_NAME, MASTERS, 0x01000001);

    assert_eq!(MASTERS[1], form_id.plugin_name);
}

#[test]
fn should_store_parent_plugin_name_for_mod_index_greater_than_last_index_of_masters() {
    let form_id = FormId::new(PARENT_PLUGIN_NAME, NO_MASTERS, 0x01);

    assert_eq!(PARENT_PLUGIN_NAME, form_id.plugin_name);

    let form_id = FormId::new(PARENT_PLUGIN_NAME, MASTERS, 0x05000001);

    assert_eq!(PARENT_PLUGIN_NAME, form_id.plugin_name);
}

#[test]
fn form_ids_should_not_be_equal_if_plugin_names_are_unequal() {
    let form_id1 = FormId::new(PARENT_PLUGIN_NAME, MASTERS, 0x01);
    let form_id2 = FormId::new(OTHER_PLUGIN_NAME, MASTERS, 0x05000001);

    assert_ne!(form_id1, form_id2);
}

#[test]
fn form_ids_should_not_be_equal_if_object_indices_are_unequal() {
    let form_id1 = FormId::new(PARENT_PLUGIN_NAME, MASTERS, 0x01);
    let form_id2 = FormId::new(PARENT_PLUGIN_NAME, MASTERS, 0x02);

    assert_ne!(form_id1, form_id2);
}

#[test]
fn form_ids_with_equal_plugin_names_and_object_ids_should_be_equal() {
    let form_id1 = FormId::new(PARENT_PLUGIN_NAME, NO_MASTERS, 0x01);
    let form_id2 = FormId::new(PARENT_PLUGIN_NAME, MASTERS, 0x05000001);

    assert_eq!(form_id1, form_id2);
}

#[test]
fn form_ids_should_be_equal_if_plugin_names_are_case_insensitively_equal() {
    let form_id1 = FormId::new(PARENT_PLUGIN_NAME, MASTERS, 0x01);
    let form_id2 = FormId::new("PLUGIN0", MASTERS, 0x01);

    assert_eq!(form_id1, form_id2);
}

#[test]
fn form_ids_should_be_ordered_according_to_object_index_then_icase_lexicographically() {
    let form_id1 = FormId::new(PARENT_PLUGIN_NAME, MASTERS, 0x05000001);
    let form_id2 = FormId::new("PLUGIN0", MASTERS, 0x05000001);

    assert_eq!(Ordering::Equal, form_id1.cmp(&form_id2));
    assert_eq!(Ordering::Equal, form_id2.cmp(&form_id1));

    let form_id1 = FormId::new(PARENT_PLUGIN_NAME, MASTERS, 0x01);
    let form_id2 = FormId::new(PARENT_PLUGIN_NAME, MASTERS, 0x02);

    assert_eq!(Ordering::Less, form_id1.cmp(&form_id2));
    assert_eq!(Ordering::Greater, form_id2.cmp(&form_id1));

    let form_id1 = FormId::new(PARENT_PLUGIN_NAME, MASTERS, 0x05000001);
    let form_id2 = FormId::new(OTHER_PLUGIN_NAME, MASTERS, 0x05000001);

    assert_eq!(Ordering::Less, form_id1.cmp(&form_id2));
    assert_eq!(Ordering::Greater, form_id2.cmp(&form_id1));
}

#[test]
fn form_ids_with_case_insensitive_equal_plugin_names_should_have_the_same_hash() {
    let form_id1 = FormId::new(PARENT_PLUGIN_NAME, MASTERS, 0x01);
    let form_id2 = FormId::new("PLUGIN0", MASTERS, 0x01);

    let mut hasher = DefaultHasher::new();
    form_id1.hash(&mut hasher);
    let hash1 = hasher.finish();

    let mut hasher = DefaultHasher::new();
    form_id2.hash(&mut hasher);
    let hash2 = hasher.finish();

    assert_eq!(hash1, hash2);
}
