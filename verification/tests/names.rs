use tileserver::names::{derive_name, str_eq};

#[test]
fn strips_directory_and_extension() {
    assert_eq!(derive_name("tiles/world.zip"), Some("world".to_string()));
    assert_eq!(derive_name("/a/b/c/map.pak"), Some("map".to_string()));
}

#[test]
fn keeps_inner_dots() {
    assert_eq!(derive_name("osm.v2.zip"), Some("osm.v2".to_string()));
}

#[test]
fn hidden_files_keep_their_name() {
    assert_eq!(derive_name(".zip"), Some(".zip".to_string()));
    assert_eq!(derive_name("dir/.hidden"), Some(".hidden".to_string()));
}

#[test]
fn no_extension_keeps_whole_base() {
    assert_eq!(derive_name("tiles/world"), Some("world".to_string()));
}

#[test]
fn empty_base_name_is_none() {
    assert_eq!(derive_name("tiles/"), None);
    assert_eq!(derive_name(""), None);
}

#[test]
fn string_equality() {
    assert!(str_eq("abc", "abc"));
    assert!(!str_eq("abc", "abd"));
    assert!(!str_eq("abc", "ab"));
    assert!(str_eq("", ""));
}
