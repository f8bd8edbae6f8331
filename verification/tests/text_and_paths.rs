use shellpass::paths::{
    join_paths, path_file_stem, path_names_gpg_file, path_without_extension, strip_root_of,
};
use shellpass::text::{chars_of, concat_strs, decimal_string, str_contains, string_of};

#[test]
fn decimal_string_writes_numbers_like_format() {
    assert_eq!(decimal_string(0), "0");
    assert_eq!(decimal_string(7), "7");
    assert_eq!(decimal_string(10), "10");
    assert_eq!(decimal_string(1234567890), "1234567890");
    assert_eq!(decimal_string(usize::MAX), format!("{}", usize::MAX));
}

#[test]
fn substring_search_finds_runs_of_characters() {
    assert!(str_contains("work/github", "git"));
    assert!(str_contains("work/github", ""));
    assert!(str_contains("", ""));
    assert!(!str_contains("", "a"));
    assert!(!str_contains("work/github", "gti"));
    assert!(str_contains("äöü/ß", "ü/ß"));
    assert!(!str_contains("abc", "abcd"));
}

#[test]
fn chars_and_strings_round_trip() {
    let chars = chars_of("a➡️b");
    assert_eq!(chars.len(), 4);
    assert_eq!(string_of(&chars), "a➡️b");
    assert_eq!(concat_strs("user", ":pass"), "user:pass");
}

#[test]
fn file_stem_matches_std_path() {
    for p in [
        "a/b.gpg", "b.gpg", "dir/.hidden", "dir/archive.tar.gz", "dir/name.", "plain", "x/...", "a/b/", "a/b.gpg/",
        "a/.", "a/b/.", "a/b/./", "a//b.gpg//", ".", "./", "/", "/.", "..", "a/../", "./a.gpg",
    ] {
        let expected = std::path::Path::new(p).file_stem().map(|s| s.to_string_lossy().to_string());
        assert_eq!(path_file_stem(p), expected, "file stem of {p}");
    }
    assert_eq!(path_file_stem(""), None);
    assert_eq!(path_file_stem("a/.."), None);
}

#[test]
fn extension_removal_matches_set_extension() {
    for p in [
        "a/b.gpg", "b.gpg", "dir/.hidden", "dir/archive.tar.gz", "plain", "x.y/z", "a/b/", "a/b.gpg/", "a/b.gpg/.",
        "a/.", "a//b.c//", ".", "..", "a/..", "/", "x.tar.gz/./",
    ] {
        let mut expected = std::path::PathBuf::from(p);
        expected.set_extension("");
        assert_eq!(path_without_extension(p), expected.to_string_lossy(), "without extension: {p}");
    }
    assert_eq!(path_without_extension(""), "");
}

#[test]
fn joining_matches_std_path_join() {
    for (root, rel) in [("/home/u/.password-store", "a/b.gpg"), ("/root/", "x.gpg"), ("", "x"), ("r", "/abs")] {
        let expected = std::path::Path::new(root).join(rel);
        assert_eq!(join_paths(root, rel), expected.to_string_lossy(), "join {root} {rel}");
    }
}

#[test]
fn stripping_the_root_matches_std_strip_prefix() {
    for (root, full) in [("/store", "/store/a/b.gpg"), ("/store/", "/store/a.gpg"), ("/store", "/store")] {
        let expected = std::path::Path::new(full)
            .strip_prefix(root)
            .ok()
            .map(|p| p.to_string_lossy().to_string());
        assert_eq!(strip_root_of(root, full), expected, "strip {root} from {full}");
    }
    assert_eq!(strip_root_of("/store", "/storehouse/a.gpg"), None);
    assert_eq!(strip_root_of("/store", "/other/a.gpg"), None);
}

#[test]
fn gpg_files_are_recognised_by_their_name() {
    assert!(path_names_gpg_file("/store/a/b.gpg"));
    assert!(path_names_gpg_file("x.gpg"));
    assert!(!path_names_gpg_file("/store/a/b.gpg.bak"));
    assert!(!path_names_gpg_file("/store/gpg"));
    assert!(!path_names_gpg_file("/store/.gpg-id"));
    assert!(!path_names_gpg_file(""));
    assert!(path_names_gpg_file("/store/a/b.gpg/"));
    assert!(path_names_gpg_file("/store/a/b.gpg/."));
    assert!(!path_names_gpg_file("/store/a.gpg/.."));
}

#[test]
fn trailing_separators_and_dots_are_skipped() {
    assert_eq!(path_file_stem("a/b/"), Some("b".to_string()));
    assert_eq!(path_file_stem("a/b.gpg/"), Some("b".to_string()));
    assert_eq!(path_file_stem("a/b/."), Some("b".to_string()));
    assert_eq!(path_file_stem("a/."), Some("a".to_string()));
    assert_eq!(path_without_extension("a/b.gpg/"), "a/b");
    assert_eq!(path_without_extension("a/b.gpg/."), "a/b");
    assert_eq!(path_without_extension("a/b/"), "a/b");
}

#[test]
fn joined_path_is_the_walked_path() {
    let root = "/home/u/.password-store";
    let full = "/home/u/.password-store/web/site.gpg";
    let rel = strip_root_of(root, full).unwrap();
    assert_eq!(join_paths(root, &rel), full);
}

#[test]
fn what_is_shown_is_a_prefix_of_the_path() {
    for p in ["a/b.gpg", "dir/archive.tar.gz", "x.y/z", ".hidden", "", "a/b.gpg/", "a/b/."] {
        assert!(p.starts_with(path_without_extension(p).as_str()), "{p}");
    }
}
