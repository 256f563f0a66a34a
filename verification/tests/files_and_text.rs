use std::path::{Path, PathBuf};

use dear_file_manager::files::{
    is_hidden_name, sort_records, visible_entry_positions, FileColumn, FileRecord, FilesError, SortBy, SortDirection,
};
use dear_file_manager::paths::{path_components_of, path_crumbs};
use dear_file_manager::text::{decimal_string, join_path, lex_le_chars, path_is_root, string_chars};

fn file(name: &str, size: u64, modified: i64) -> FileRecord {
    FileRecord::from_entry(name.to_string(), true, size, modified)
}

fn folder(name: &str, modified: i64) -> FileRecord {
    FileRecord::from_entry(name.to_string(), false, 0, modified)
}

fn names(records: &[FileRecord]) -> Vec<&str> {
    records.iter().map(|r| r.file_name.as_str()).collect()
}

#[test]
fn decimal_string_writes_digits() {
    assert_eq!(decimal_string(0), "0");
    assert_eq!(decimal_string(7), "7");
    assert_eq!(decimal_string(1234), "1234");
    assert_eq!(decimal_string(u64::MAX), u64::MAX.to_string());
}

#[test]
fn string_chars_lists_characters() {
    assert_eq!(string_chars("añb"), vec!['a', 'ñ', 'b']);
    assert_eq!(string_chars(""), Vec::<char>::new());
}

#[test]
fn lex_order_on_characters() {
    let a = string_chars("abc");
    let b = string_chars("abd");
    let p = string_chars("ab");
    assert!(lex_le_chars(&a, &b));
    assert!(!lex_le_chars(&b, &a));
    assert!(lex_le_chars(&p, &a));
    assert!(!lex_le_chars(&a, &p));
    assert!(lex_le_chars(&a, &a));
}

#[test]
fn join_path_follows_pathbuf_push() {
    assert_eq!(join_path("/home", "user"), "/home/user");
    assert_eq!(join_path("/home/", "user"), "/home/user");
    assert_eq!(join_path("/", "etc"), "/etc");
    assert_eq!(join_path("", "rel"), "rel");
    assert_eq!(join_path("/home", "/etc"), "/etc");
    assert_eq!(join_path("/home", ".."), "/home/..");
    let mut p = std::path::PathBuf::from("/home/x");
    p.push("docs");
    assert_eq!(join_path("/home/x", "docs"), p.to_str().unwrap());
}

#[test]
fn go_back_record_is_a_folder_named_dot_dot() {
    let r = FileRecord::new_go_back_record();
    assert_eq!(r.file_name, "..");
    assert!(!r.is_file);
    assert_eq!(r.size, 0);
    assert_eq!(r.modified, 0);
    assert!(r.is_go_back_record);
    assert_eq!(r.hover, [false, false, false]);
}

#[test]
fn hidden_names_start_with_a_dot() {
    assert!(is_hidden_name(".git"));
    assert!(is_hidden_name("."));
    assert!(!is_hidden_name("src"));
    assert!(!is_hidden_name(""));
    assert!(!is_hidden_name("a.b"));
}

#[test]
fn sort_by_name_puts_go_back_then_folders_then_files() {
    let mut records = vec![
        file("b.txt", 3, 0),
        folder("Zeta", 0),
        FileRecord::new_go_back_record(),
        file("A.txt", 1, 0),
        folder("alpha", 0),
        file("c.txt", 2, 0),
    ];
    sort_records(&mut records, SortBy::Name, SortDirection::Ascending);
    assert_eq!(names(&records), vec!["..", "alpha", "Zeta", "A.txt", "b.txt", "c.txt"]);
    assert!(records[0].is_go_back_record);
}

#[test]
fn sort_by_name_descending() {
    let mut records = vec![file("a", 1, 0), file("C", 1, 0), file("b", 1, 0), folder("x", 0), folder("Y", 0)];
    sort_records(&mut records, SortBy::Name, SortDirection::Descending);
    assert_eq!(names(&records), vec!["Y", "x", "C", "b", "a"]);
}

#[test]
fn sort_by_size_both_ways() {
    let mut records = vec![file("big", 300, 0), file("small", 1, 0), file("mid", 20, 0)];
    sort_records(&mut records, SortBy::Size, SortDirection::Ascending);
    assert_eq!(names(&records), vec!["small", "mid", "big"]);
    sort_records(&mut records, SortBy::Size, SortDirection::Descending);
    assert_eq!(names(&records), vec!["big", "mid", "small"]);
}

#[test]
fn sort_by_modified_both_ways() {
    let mut records = vec![file("new", 0, 300), file("old", 0, -5), folder("dir", 7), file("mid", 0, 20)];
    sort_records(&mut records, SortBy::Modified, SortDirection::Ascending);
    assert_eq!(names(&records), vec!["dir", "old", "mid", "new"]);
    sort_records(&mut records, SortBy::Modified, SortDirection::Descending);
    assert_eq!(names(&records), vec!["dir", "new", "mid", "old"]);
}

#[test]
fn equal_ranks_come_out_in_reverse_listing_order() {
    // The files are collected from the end of the listing, then sorted stably.
    let mut records = vec![file("first", 5, 0), file("second", 5, 0), file("third", 1, 0)];
    sort_records(&mut records, SortBy::Size, SortDirection::Ascending);
    assert_eq!(names(&records), vec!["third", "second", "first"]);
    // Names that differ only in case rank equally.
    let mut records = vec![file("Readme", 0, 0), file("README", 0, 0), file("readme", 0, 0)];
    sort_records(&mut records, SortBy::Name, SortDirection::Ascending);
    assert_eq!(names(&records), vec!["readme", "README", "Readme"]);
}

#[test]
fn only_the_first_go_back_record_leads() {
    let mut second = FileRecord::new_go_back_record();
    second.file_name = "zz".to_string();
    let mut records = vec![folder("b", 0), FileRecord::new_go_back_record(), second, folder("a", 0)];
    sort_records(&mut records, SortBy::Name, SortDirection::Ascending);
    assert_eq!(names(&records), vec!["..", "a", "b", "zz"]);
}

#[test]
fn sort_of_empty_listing_is_empty() {
    let mut records: Vec<FileRecord> = vec![];
    sort_records(&mut records, SortBy::Name, SortDirection::Ascending);
    assert!(records.is_empty());
}

#[test]
fn directions_toggle() {
    assert_eq!(SortDirection::Ascending.toggle(), SortDirection::Descending);
    assert_eq!(SortDirection::Descending.toggle(), SortDirection::Ascending);
    assert_eq!(SortDirection::Ascending.toggle().toggle(), SortDirection::Ascending);
}

#[test]
fn columns_index_and_order() {
    assert_eq!(FileColumn::Name.index(), 0);
    assert_eq!(FileColumn::Size.index(), 1);
    assert_eq!(FileColumn::Modified.index(), 2);
    assert_eq!(FileColumn::Name.sort_by(), SortBy::Name);
    assert_eq!(FileColumn::Size.sort_by(), SortBy::Size);
    assert_eq!(FileColumn::Modified.sort_by(), SortBy::Modified);
}

#[test]
fn files_error_debug_text() {
    assert_eq!(FilesError::ReadDir.debug_text(), format!("{:#?}", FilesError::ReadDir));
}

#[test]
fn sorting_again_keeps_a_layout_of_distinct_ranks() {
    let mut records = vec![file("c", 3, 0), folder("y", 0), file("a", 1, 0), FileRecord::new_go_back_record(), folder("x", 0)];
    sort_records(&mut records, SortBy::Name, SortDirection::Descending);
    let once = names(&records).iter().map(|s| s.to_string()).collect::<Vec<_>>();
    sort_records(&mut records, SortBy::Name, SortDirection::Descending);
    assert_eq!(names(&records), once);
    assert_eq!(once, vec!["..", "y", "x", "c", "a"]);
}

#[test]
fn sorting_again_reverses_equal_ranks() {
    let mut records = vec![file("p", 1, 0), file("q", 1, 0)];
    sort_records(&mut records, SortBy::Size, SortDirection::Ascending);
    assert_eq!(names(&records), vec!["q", "p"]);
    sort_records(&mut records, SortBy::Size, SortDirection::Ascending);
    assert_eq!(names(&records), vec!["p", "q"]);
}

#[test]
fn sorting_again_keeps_a_layout_with_ties_across_kinds() {
    let mut records = vec![file("a", 1, 0), folder("a", 0), FileRecord::new_go_back_record(), folder("b", 0), file("b", 2, 0)];
    sort_records(&mut records, SortBy::Name, SortDirection::Ascending);
    let once = names(&records).iter().map(|s| s.to_string()).collect::<Vec<_>>();
    sort_records(&mut records, SortBy::Name, SortDirection::Ascending);
    assert_eq!(names(&records), once);
    assert_eq!(once, vec!["..", "a", "b", "a", "b"]);
}

const SAMPLE_PATHS: [&str; 16] = [
    "/", "//", "/.", "/./", "///.", "/..", "/a", "/a/", "/a//b/./c", "/a/../b", "", ".", "./a", "a/./b", "./", "..",
];

#[test]
fn root_test_agrees_with_pathbuf() {
    for path in SAMPLE_PATHS {
        assert_eq!(path_is_root(path), PathBuf::from(path) == PathBuf::from("/"), "{path:?}");
    }
}

#[test]
fn components_agree_with_pathbuf() {
    for path in SAMPLE_PATHS {
        let expected: Vec<String> = Path::new(path).iter().map(|c| c.to_str().unwrap().to_string()).collect();
        assert_eq!(path_components_of(path), expected, "{path:?}");
    }
}

#[test]
fn crumbs_open_each_prefix() {
    for path in SAMPLE_PATHS {
        let buf = PathBuf::from(path);
        let crumbs = path_crumbs(path);
        assert_eq!(crumbs.len(), buf.iter().count(), "{path:?}");
        for (i, crumb) in crumbs.iter().enumerate() {
            let expected = PathBuf::from_iter(buf.iter().take(i + 1));
            assert_eq!(crumb.label, buf.iter().nth(i).unwrap().to_str().unwrap(), "{path:?}");
            assert_eq!(crumb.path_to_open, expected.to_str().unwrap(), "{path:?}");
        }
    }
    let crumbs = path_crumbs("/home/user");
    let opened: Vec<&str> = crumbs.iter().map(|c| c.path_to_open.as_str()).collect();
    assert_eq!(opened, vec!["/", "/home", "/home/user"]);
}

#[test]
fn visible_entries_skip_hidden_names() {
    let names: Vec<String> = [".git", "src", ".", "README", ""].iter().map(|s| s.to_string()).collect();
    assert_eq!(visible_entry_positions(&names), vec![1, 3, 4]);
    assert_eq!(visible_entry_positions(&Vec::new()), Vec::<usize>::new());
}
