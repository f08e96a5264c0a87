use image_compressor::paths::{find_last, join_path, path_file_name, split_extension, split_stem};
use image_compressor::text::{chars_of, str_eq, to_ascii_lower, to_decimal};

#[test]
fn decimal_numerals() {
    assert_eq!(to_decimal(0), "0");
    assert_eq!(to_decimal(7), "7");
    assert_eq!(to_decimal(10), "10");
    assert_eq!(to_decimal(1905), "1905");
    assert_eq!(to_decimal(u128::MAX), u128::MAX.to_string());
}

#[test]
fn ascii_letters_are_lower_cased() {
    assert_eq!(to_ascii_lower("JPG"), "jpg");
    assert_eq!(to_ascii_lower("AZaz09@[`{"), "azaz09@[`{");
    assert_eq!(to_ascii_lower("ÉCOLE.É"), "École.É");
    assert_eq!(to_ascii_lower(""), "");
}

#[test]
fn characters_and_equality() {
    assert_eq!(chars_of("aé漢"), vec!['a', 'é', '漢']);
    assert!(str_eq("漢字", "漢字"));
    assert!(!str_eq("a", "A"));
    assert!(!str_eq("a", "ab"));
}

#[test]
fn last_occurrence() {
    assert_eq!(find_last(&chars_of("a.b.c"), '.'), Some(3));
    assert_eq!(find_last(&chars_of(".abc"), '.'), Some(0));
    assert_eq!(find_last(&chars_of("abc"), '.'), None);
    assert_eq!(find_last(&chars_of(""), '.'), None);
}

#[test]
fn file_name_is_the_final_component() {
    assert_eq!(path_file_name("/home/me/cat.png").as_deref(), Some("cat.png"));
    assert_eq!(path_file_name("cat.png").as_deref(), Some("cat.png"));
    assert_eq!(path_file_name("a/b/…").as_deref(), Some("…"));
    assert_eq!(path_file_name("a/.hidden").as_deref(), Some(".hidden"));
}

#[test]
fn some_paths_name_no_file() {
    for path in ["", "/", "//", ".", "./", "/.", "./.", "..", "a/..", "foo.txt/..", "a/../", "a/.././"] {
        assert_eq!(path_file_name(path), None, "{path}");
    }
}

#[test]
fn trailing_separators_are_dropped() {
    assert_eq!(path_file_name("a.png/").as_deref(), Some("a.png"));
    assert_eq!(path_file_name("a.png//").as_deref(), Some("a.png"));
    assert_eq!(path_file_name("/usr/bin/").as_deref(), Some("bin"));
    assert_eq!(path_file_name("dir/").as_deref(), Some("dir"));
    assert_eq!(path_file_name("tmp/foo.txt").as_deref(), Some("foo.txt"));
}

#[test]
fn dot_components_are_dropped() {
    assert_eq!(path_file_name("a.png/.").as_deref(), Some("a.png"));
    assert_eq!(path_file_name("foo.txt/.").as_deref(), Some("foo.txt"));
    assert_eq!(path_file_name("foo.txt/.//").as_deref(), Some("foo.txt"));
    assert_eq!(path_file_name("a/.").as_deref(), Some("a"));
    assert_eq!(path_file_name("a/./././").as_deref(), Some("a"));
    assert_eq!(path_file_name("./a").as_deref(), Some("a"));
}

#[test]
fn dots_inside_a_name_are_kept() {
    assert_eq!(path_file_name("a/b.").as_deref(), Some("b."));
    assert_eq!(path_file_name("a/.b").as_deref(), Some(".b"));
    assert_eq!(path_file_name("a/...").as_deref(), Some("..."));
    assert_eq!(path_file_name("a/..b").as_deref(), Some("..b"));
    assert_eq!(path_file_name("a./").as_deref(), Some("a."));
}

#[test]
fn stem_and_extension_split_at_the_last_dot() {
    assert_eq!(split_stem("photo.jpg"), "photo");
    assert_eq!(split_extension("photo.jpg").as_deref(), Some("jpg"));
    assert_eq!(split_stem("a.tar.gz"), "a.tar");
    assert_eq!(split_extension("a.tar.gz").as_deref(), Some("gz"));
    assert_eq!(split_stem("name."), "name");
    assert_eq!(split_extension("name.").as_deref(), Some(""));
}

#[test]
fn names_without_extension() {
    assert_eq!(split_stem("README"), "README");
    assert_eq!(split_extension("README"), None);
    assert_eq!(split_stem(".bashrc"), ".bashrc");
    assert_eq!(split_extension(".bashrc"), None);
    assert_eq!(split_stem(""), "");
    assert_eq!(split_extension(""), None);
}

#[test]
fn join_puts_one_separator_between() {
    assert_eq!(join_path("out", "cat.png"), "out/cat.png");
    assert_eq!(join_path("out/", "cat.png"), "out/cat.png");
    assert_eq!(join_path("/", "cat.png"), "/cat.png");
    assert_eq!(join_path("", "cat.png"), "cat.png");
    assert_eq!(join_path("out", ""), "out/");
    assert_eq!(join_path("out", "/abs/cat.png"), "/abs/cat.png");
}
