use class_quicklook::names::{
    as_java_name, get_package_offset, import_name, needs_import, package_part, split_name,
};

#[test]
fn package_offset_is_the_byte_index_of_the_last_slash() {
    assert_eq!(get_package_offset("java/util/Map"), 9);
    assert_eq!(get_package_offset("Foo"), 0);
    assert_eq!(get_package_offset("a/b"), 1);
    assert_eq!(get_package_offset("/Foo"), 0);
}

#[test]
fn package_offset_counts_bytes_of_non_ascii_names() {
    // "é" takes two bytes in UTF-8
    assert_eq!(get_package_offset("pé/Klass"), 3);
    assert_eq!(package_part("pé/Klass"), "pé");
}

#[test]
fn split_name_takes_the_part_after_the_last_slash() {
    assert_eq!(split_name("java/util/Map"), "Map");
    assert_eq!(split_name("Foo"), "Foo");
    assert_eq!(split_name("a/b/"), "");
    assert_eq!(split_name(""), "");
}

#[test]
fn package_part_takes_the_part_before_the_last_slash() {
    assert_eq!(package_part("java/util/Map"), "java/util");
    assert_eq!(package_part("Foo"), "");
}

#[test]
fn java_name_replaces_slashes_with_dots() {
    assert_eq!(as_java_name("java/util/Map"), "java.util.Map");
    assert_eq!(as_java_name("Foo"), "Foo");
    assert_eq!(as_java_name("a/b$C"), "a.b$C");
    assert_eq!(as_java_name(""), "");
}

#[test]
fn no_import_for_default_package_java_lang_or_own_package() {
    assert!(!needs_import("com/example", "Foo"));
    assert!(!needs_import("com/example", "java/lang/String"));
    assert!(!needs_import("com/example", "com/example/Bar"));
    assert!(needs_import("com/example", "java/util/List"));
    assert!(needs_import("com/example", "java/lang/annotation/Retention"));
    assert!(needs_import("", "com/example/Bar"));
}

#[test]
fn import_name_records_each_needed_class_once() {
    let mut imports: Vec<String> = Vec::new();
    assert_eq!(import_name("com/example", &mut imports, "java/util/List"), "List");
    assert_eq!(import_name("com/example", &mut imports, "java/lang/String"), "String");
    assert_eq!(import_name("com/example", &mut imports, "java/util/List"), "List");
    assert_eq!(import_name("com/example", &mut imports, "com/example/Bar"), "Bar");
    assert_eq!(import_name("com/example", &mut imports, "java/util/Map"), "Map");
    assert_eq!(imports, vec!["java.util.List".to_string(), "java.util.Map".to_string()]);
}

#[test]
fn import_name_returns_the_simple_name_whatever_the_list_holds() {
    let mut imports: Vec<String> = vec!["java.util.List".to_string()];
    assert_eq!(import_name("p", &mut imports, "java/util/List"), "List");
    assert_eq!(imports.len(), 1);
}
