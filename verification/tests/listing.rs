use cli_kit::listing::{
    comes_before_exec, complete_long_format, list_directory, pad_right, push_decimal, DirectoryEntry, FoundFile,
    TIME_WIDTH,
};

fn found(names: &[&str]) -> Vec<FoundFile> {
    names
        .iter()
        .map(|name| FoundFile { file_name: name.to_string(), path: format!("dir/{}", name) })
        .collect()
}

fn names_of(entries: &[DirectoryEntry]) -> Vec<String> {
    entries.iter().map(|entry| entry.file_name.clone()).collect()
}

fn entry(name: &str, permissions: &str, time: &str, size: u64, size_string: &str) -> DirectoryEntry {
    DirectoryEntry {
        file_name: name.to_string(),
        long_format: String::new(),
        path: format!("dir/{}", name),
        permissions: permissions.to_string(),
        formatted_time: time.to_string(),
        size,
        size_string: size_string.to_string(),
    }
}

#[test]
fn a_single_file_is_listed_with_name_and_path() {
    let entries = list_directory(
        &vec![FoundFile { file_name: "test_file.txt".to_string(), path: "ls_test/test_file.txt".to_string() }],
        false,
    );
    assert_eq!(entries.len(), 1);
    assert_eq!(entries[0].file_name, "test_file.txt");
    assert_eq!(entries[0].path, "ls_test/test_file.txt");
    assert_eq!(entries[0].long_format, "");
    assert_eq!(entries[0].permissions, "");
    assert_eq!(entries[0].formatted_time, "");
    assert_eq!(entries[0].size, 0);
    assert_eq!(entries[0].size_string, "");
}

#[test]
fn hidden_files_are_left_out_by_default() {
    let entries = list_directory(&found(&[".git", "src", ".", "a.txt", "..", ".hidden"]), false);
    assert_eq!(names_of(&entries), vec!["a.txt", "src"]);
}

#[test]
fn hidden_files_are_shown_on_request() {
    let entries = list_directory(&found(&[".git", "src", "a.txt", ".hidden"]), true);
    assert_eq!(names_of(&entries), vec![".git", ".hidden", "a.txt", "src"]);
}

#[test]
fn entries_are_sorted_as_strings_are() {
    let names = ["b", "a", "B", "ab", "", "a b", "Zebra", "abc", "10", "9", "\u{e9}t\u{e9}", "z", "\u{4e2d}"];
    let entries = list_directory(&found(&names), true);
    let mut expected: Vec<String> = names.iter().map(|name| name.to_string()).collect();
    expected.sort();
    assert_eq!(names_of(&entries), expected);
}

#[test]
fn files_of_the_same_name_keep_their_order() {
    let files = vec![
        FoundFile { file_name: "same".to_string(), path: "first".to_string() },
        FoundFile { file_name: "other".to_string(), path: "o".to_string() },
        FoundFile { file_name: "same".to_string(), path: "second".to_string() },
        FoundFile { file_name: "same".to_string(), path: "third".to_string() },
    ];
    let entries = list_directory(&files, false);
    let paths: Vec<&str> = entries.iter().map(|entry| entry.path.as_str()).collect();
    assert_eq!(paths, vec!["o", "first", "second", "third"]);
}

#[test]
fn an_empty_directory_gives_an_empty_listing() {
    assert!(list_directory(&Vec::new(), false).is_empty());
    assert!(list_directory(&found(&[".a", ".b"]), false).is_empty());
}

#[test]
fn the_order_of_names_is_the_order_of_strings() {
    let names = ["", "a", "A", "ab", "b", "a\u{0}", "\u{10ffff}", "\u{7f}", "\u{80}"];
    for a in names {
        for b in names {
            let left: Vec<char> = a.chars().collect();
            let right: Vec<char> = b.chars().collect();
            assert_eq!(comes_before_exec(&left, &right), a < b, "{:?} against {:?}", a, b);
        }
    }
}

#[test]
fn numbers_are_written_in_decimal() {
    for n in [0u64, 7, 10, 99, 100, 1024, 15728640, u64::MAX] {
        let mut out = String::from("n=");
        push_decimal(&mut out, n);
        assert_eq!(out, format!("n={}", n));
    }
}

#[test]
fn padding_fills_up_on_the_right() {
    assert_eq!(pad_right("ab", 5), "ab   ");
    assert_eq!(pad_right("abcde", 5), "abcde");
    assert_eq!(pad_right("abcdef", 5), "abcdef");
    assert_eq!(pad_right("", 0), "");
    assert_eq!(pad_right("\u{e9}", 3), "\u{e9}  ");
}

#[test]
fn long_format_lines_up_the_columns() {
    let mut entries = vec![
        entry("a.txt", "0o644", "May  6 07:08", 5, ""),
        entry("bin", "0o40755", "Jan 12 23:59", 4096, ""),
    ];
    complete_long_format(&mut entries, false);
    assert_eq!(entries[0].permissions, "0o644  ");
    assert_eq!(entries[0].formatted_time, "May  6 07:08");
    assert_eq!(entries[0].size_string, "5   ");
    assert_eq!(entries[0].long_format, "0o644   May  6 07:08 5    a.txt");
    assert_eq!(entries[1].long_format, "0o40755 Jan 12 23:59 4096 bin");
    assert_eq!(entries[1].size, 4096);
    assert_eq!(entries[1].path, "dir/bin");
}

#[test]
fn human_readable_sizes_are_taken_as_given() {
    let mut entries = vec![
        entry("a", "0o644", "Jan  1 00:00", 1024, "  1.0 KB"),
        entry("b", "0o600", "Jan  1 00:00", 5, "  5.0  B"),
    ];
    complete_long_format(&mut entries, true);
    assert_eq!(entries[0].long_format, "0o644 Jan  1 00:00   1.0 KB a");
    assert_eq!(entries[1].long_format, "0o600 Jan  1 00:00   5.0  B b");
    assert_eq!(entries[1].size_string, "  5.0  B");
}

#[test]
fn a_short_time_is_filled_up_to_twelve_characters() {
    assert_eq!(TIME_WIDTH, 12);
    let mut entries = vec![entry("a", "", "now", 0, "")];
    complete_long_format(&mut entries, false);
    assert_eq!(entries[0].formatted_time, "now         ");
    assert_eq!(entries[0].long_format, " now          0 a");
}

#[test]
fn long_format_of_an_empty_listing_is_empty() {
    let mut entries: Vec<DirectoryEntry> = Vec::new();
    complete_long_format(&mut entries, false);
    assert!(entries.is_empty());
}
