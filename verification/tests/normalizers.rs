use orkactl::{max_mask, remove_duplicates_array, u32_to_string, Registry};

#[test]
fn dedup_sorts_and_removes_duplicates() {
    let input = vec!["b".to_string(), "a".to_string(), "b".to_string(), "c".to_string()];
    let once = remove_duplicates_array(input);
    assert_eq!(once, vec!["a".to_string(), "b".to_string(), "c".to_string()]);
}

#[test]
fn dedup_twice_equals_dedup_once() {
    let input = vec!["pear".to_string(), "apple".to_string(), "pear".to_string()];
    let once = remove_duplicates_array(input);
    let twice = remove_duplicates_array(once.clone());
    assert_eq!(twice, once);
}

#[test]
fn dedup_of_empty_list_is_empty() {
    let empty: Vec<String> = vec![];
    assert_eq!(remove_duplicates_array(empty), Vec::<String>::new());
}

#[test]
fn coercion_yields_exact_decimal_strings() {
    assert_eq!(u32_to_string(0), "0");
    assert_eq!(u32_to_string(8080), "8080");
    assert_eq!(u32_to_string(10), "10");
    assert_eq!(u32_to_string(4294967295), "4294967295");
}

#[test]
fn max_mask_is_32() {
    assert_eq!(max_mask(), 32);
}

#[test]
fn default_registry_is_docker() {
    assert_eq!(Registry::default(), Registry::Docker);
}
