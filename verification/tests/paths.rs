use nmm::get_full_filename;
use nmm::Parser;

#[test]
fn null_names_no_file() {
    assert_eq!(get_full_filename("dat", "NULL"), None);
    assert_eq!(get_full_filename("", "NULL"), None);
}

#[test]
fn names_are_taken_relative_to_the_directory() {
    assert_eq!(get_full_filename("dat", "names.txt"), Some(String::from("dat/names.txt")));
    assert_eq!(get_full_filename("a/b", "c/d.txt"), Some(String::from("a/b/c/d.txt")));
    assert_eq!(get_full_filename("", "names.txt"), Some(String::from("names.txt")));
}

#[test]
fn an_absolute_name_stands_alone() {
    assert_eq!(get_full_filename("dat", "/etc/names.txt"), Some(String::from("/etc/names.txt")));
}

#[test]
fn only_the_exact_word_is_the_sentinel() {
    assert_eq!(get_full_filename("dat", "null"), Some(String::from("dat/null")));
    assert_eq!(get_full_filename("dat", "NULL.txt"), Some(String::from("dat/NULL.txt")));
    assert_eq!(get_full_filename("dat", "NUL"), Some(String::from("dat/NUL")));
}

#[test]
fn the_directory_of_a_module_file() {
    assert_eq!(Parser::new("dat/SpellAssoc.nmm").parent_dir, "dat");
    assert_eq!(Parser::new("a/b/c.nmm").parent_dir, "a/b");
    assert_eq!(Parser::new("SpellAssoc.nmm").parent_dir, "");
    assert_eq!(Parser::new("/").parent_dir, "");
    assert_eq!(Parser::new("").parent_dir, "");
    assert_eq!(Parser::new("/top.nmm").parent_dir, "/");
}
