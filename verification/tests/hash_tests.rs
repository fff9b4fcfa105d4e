use dtrpg_ui::hash::fnv1a_32;

#[test]
fn same_input_is_deterministic() {
    assert_eq!(fnv1a_32("hello"), fnv1a_32("hello"));
}

#[test]
fn different_input_usually_differs() {
    assert_ne!(fnv1a_32("hello"), fnv1a_32("world"));
}

#[test]
fn empty_string_hashes_to_fnv_offset_basis() {
    assert_eq!(fnv1a_32(""), 2_166_136_261);
}

#[test]
fn known_fnv1a_values() {
    assert_eq!(fnv1a_32("a"), 0xE40C_292C);
    assert_eq!(fnv1a_32("foobar"), 0xBF9C_F968);
}
