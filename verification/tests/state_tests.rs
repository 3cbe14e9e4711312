use terminal_file_explorer::paths::{has_parent, same_path};
use terminal_file_explorer::state::{entry_precedes, sort_by_order, AppState, FileEntry, SortOrder};

fn file(name: &str, size: u64, modified: Option<(i64, u32)>) -> FileEntry {
    FileEntry {
        name: name.to_string(),
        path: format!("/data/{}", name),
        is_dir: false,
        size,
        modified,
    }
}

fn dir(name: &str) -> FileEntry {
    FileEntry {
        name: name.to_string(),
        path: format!("/data/{}", name),
        is_dir: true,
        size: 0,
        modified: None,
    }
}

fn names(entries: &[FileEntry]) -> Vec<String> {
    entries.iter().map(|e| e.name.clone()).collect()
}

#[test]
fn size_below_one_mib_is_shown_as_less_than_one() {
    assert_eq!(file("a", 0, None).size_formatted(), "<1M");
    assert_eq!(file("a", 1_048_575, None).size_formatted(), "<1M");
}

#[test]
fn size_in_mib_and_gib() {
    assert_eq!(file("a", 1_048_576, None).size_formatted(), "1.0M");
    assert_eq!(file("a", 1_572_864, None).size_formatted(), "1.5M");
    assert_eq!(file("a", 1_073_741_824, None).size_formatted(), "1.0G");
    assert_eq!(file("a", 5 * 1_073_741_824, None).size_formatted(), "5.0G");
}

#[test]
fn size_rounds_half_to_even() {
    // 1.25 MiB and 1.75 MiB are exact ties.
    assert_eq!(file("a", 1_310_720, None).size_formatted(), "1.2M");
    assert_eq!(file("a", 1_835_008, None).size_formatted(), "1.8M");
}

#[test]
fn size_agrees_with_float_formatting() {
    let samples: Vec<u64> = vec![
        1_048_576,
        1_100_000,
        3_333_333,
        10_485_759,
        123_456_789,
        1_073_741_823,
        1_073_741_824,
        1_610_612_736,
        9_876_543_210,
        u64::MAX / 3,
        u64::MAX,
    ];
    for s in samples {
        let expected = if s < 1_048_576 {
            "<1M".to_string()
        } else if s < 1_073_741_824 {
            format!("{:.1}M", s as f64 / 1_048_576.0)
        } else {
            format!("{:.1}G", s as f64 / 1_073_741_824.0)
        };
        assert_eq!(file("a", s, None).size_formatted(), expected, "size {}", s);
    }
}

#[test]
fn modified_without_time_is_dashes() {
    assert_eq!(file("a", 1, None).modified_formatted(), "--");
}

#[test]
fn modified_with_time_is_minutes() {
    let text = file("a", 1, Some((1_700_000_000, 0))).modified_formatted();
    assert_eq!(text.len(), 16);
    assert_eq!(&text[4..5], "-");
    assert_eq!(&text[10..11], " ");
    assert_eq!(&text[13..14], ":");
}

#[test]
fn sort_order_cycles() {
    assert_eq!(SortOrder::Name.next(), SortOrder::Size);
    assert_eq!(SortOrder::Size.next(), SortOrder::Modified);
    assert_eq!(SortOrder::Modified.next(), SortOrder::Name);
    assert_eq!(SortOrder::Name.next().next().next(), SortOrder::Name);
}

#[test]
fn sort_by_name_puts_directories_first_and_ignores_case() {
    let entries = vec![file("b.txt", 1, None), dir("zeta"), file("A.txt", 2, None), dir("Alpha")];
    let sorted = sort_by_order(SortOrder::Name, entries);
    assert_eq!(names(&sorted), vec!["Alpha", "zeta", "A.txt", "b.txt"]);
}

#[test]
fn sort_by_size_is_largest_first_and_stable() {
    let entries = vec![file("small", 1, None), file("big1", 10, None), file("mid", 5, None), file("big2", 10, None)];
    let sorted = sort_by_order(SortOrder::Size, entries);
    assert_eq!(names(&sorted), vec!["big1", "big2", "mid", "small"]);
}

#[test]
fn sort_by_modified_is_newest_first_untimed_last() {
    let entries = vec![
        file("old", 1, Some((100, 0))),
        file("none", 1, None),
        file("new", 1, Some((200, 0))),
        file("newer", 1, Some((200, 5))),
    ];
    let sorted = sort_by_order(SortOrder::Modified, entries);
    assert_eq!(names(&sorted), vec!["newer", "new", "old", "none"]);
}

#[test]
fn entry_precedes_compares_strictly() {
    let a = file("a", 1, None);
    let b = file("b", 1, None);
    assert!(entry_precedes(SortOrder::Name, &a, &b));
    assert!(!entry_precedes(SortOrder::Name, &b, &a));
    assert!(!entry_precedes(SortOrder::Name, &a, &a));
    assert!(entry_precedes(SortOrder::Size, &dir("d"), &a));
}

#[test]
fn load_dir_hides_dot_files_sorts_and_clamps() {
    let mut s = AppState::new("/data".to_string());
    s.selected = 10;
    s.load_dir(vec![file(".hidden", 1, None), file("b", 1, None), dir("a")]);
    assert_eq!(names(&s.entries), vec!["a", "b"]);
    assert_eq!(s.selected, 1);
    s.show_hidden = true;
    s.refresh(vec![file(".hidden", 1, None), file("b", 1, None), dir("a")]);
    assert_eq!(names(&s.entries), vec!["a", ".hidden", "b"]);
}

#[test]
fn filter_keeps_matching_names_case_insensitively() {
    let listing = vec![file("Readme.md", 1, None), file("main.rs", 1, None), file("README.txt", 1, None)];
    let mut s = AppState::new("/data".to_string());
    s.load_dir(listing.clone());
    s.start_filter();
    assert!(s.filter_active);
    s.push_filter_char('r');
    s.push_filter_char('e');
    s.push_filter_char('a');
    assert_eq!(s.file_filter, "rea");
    assert_eq!(names(&s.entries), vec!["Readme.md", "README.txt"]);
    s.pop_filter_char();
    assert_eq!(s.file_filter, "re");
    assert_eq!(names(&s.entries), vec!["Readme.md", "README.txt"]);
    s.cancel_filter(listing);
    assert!(!s.filter_active);
    assert_eq!(s.file_filter, "");
    assert_eq!(s.entries.len(), 3);
}

#[test]
fn apply_filter_with_empty_filter_keeps_everything() {
    let mut s = AppState::new("/data".to_string());
    s.load_dir(vec![file("x", 1, None), file("y", 1, None)]);
    s.apply_filter();
    assert_eq!(s.entries.len(), 2);
}

#[test]
fn sort_entries_uses_current_order() {
    let mut s = AppState::new("/data".to_string());
    s.load_dir(vec![file("a", 1, None), file("b", 9, None)]);
    s.sort_order = SortOrder::Size;
    s.sort_entries();
    assert_eq!(names(&s.entries), vec!["b", "a"]);
}

#[test]
fn parent_row_shifts_the_selected_entry() {
    let mut s = AppState::new("/data".to_string());
    s.load_dir(vec![dir("a"), file("b", 1, None)]);
    s.selected = 0;
    assert!(s.is_parent_selected());
    assert_eq!(s.selected_entry().unwrap().name, "a");
    s.selected = 2;
    assert!(!s.is_parent_selected());
    assert_eq!(s.selected_entry().unwrap().name, "b");
    s.selected = 3;
    assert!(s.selected_entry().is_none());
}

#[test]
fn root_has_no_parent_row() {
    let mut s = AppState::new("/".to_string());
    s.load_dir(vec![dir("etc")]);
    s.selected = 0;
    assert!(!s.is_parent_selected());
    assert_eq!(s.selected_entry().unwrap().name, "etc");
    assert!(!s.cd_parent());
    assert_eq!(s.cwd, "/");
}

#[test]
fn cd_into_and_cd_parent() {
    let mut s = AppState::new("/data".to_string());
    s.load_dir(vec![dir("sub"), file("f", 1, None)]);
    s.selected = 2;
    assert!(!s.cd_into());
    assert_eq!(s.cwd, "/data");
    s.selected = 1;
    assert!(s.cd_into());
    assert_eq!(s.cwd, "/data/sub");
    assert_eq!(s.selected, 0);
    s.selected = 3;
    assert!(s.cd_parent());
    assert_eq!(s.cwd, "/data");
    assert_eq!(s.selected, 0);
}

#[test]
fn toggling_a_mark_twice_unmarks() {
    let mut s = AppState::new("/data".to_string());
    s.load_dir(vec![file("a", 1, None), file("b", 1, None)]);
    s.selected = 1;
    s.toggle_selection();
    assert_eq!(s.selected_paths, vec!["/data/a".to_string()]);
    s.selected = 2;
    s.toggle_selection();
    assert_eq!(s.selected_paths.len(), 2);
    s.selected = 1;
    s.toggle_selection();
    assert_eq!(s.selected_paths, vec!["/data/b".to_string()]);
    s.clear_selection();
    assert!(s.selected_paths.is_empty());
}

#[test]
fn parent_row_cannot_be_marked() {
    let mut s = AppState::new("/data".to_string());
    s.load_dir(vec![file("a", 1, None)]);
    s.selected = 0;
    s.toggle_selection();
    assert!(s.selected_paths.is_empty());
}

#[test]
fn select_by_path_finds_the_entry() {
    let mut s = AppState::new("/data".to_string());
    s.load_dir(vec![file("a", 1, None), file("b", 1, None)]);
    s.select_by_path("/data/b");
    assert_eq!(s.selected, 2);
    s.select_by_path("/data//a");
    assert_eq!(s.selected, 1);
    s.select_by_path("/elsewhere");
    assert_eq!(s.selected, 1);
    s.select_by_path_and_line("/data/b", 7);
    assert_eq!(s.selected, 2);
}

#[test]
fn path_helpers_follow_std_paths() {
    assert!(has_parent("/a"));
    assert!(has_parent("relative"));
    assert!(!has_parent("/"));
    assert!(same_path("/a/b/", "/a//b"));
    assert!(!same_path("/a/b", "/a/c"));
}

#[test]
fn sorting_a_sorted_listing_keeps_it() {
    let entries = vec![dir("b"), file("c", 5, None), file("a", 9, None), file("d", 5, None)];
    for order in [SortOrder::Name, SortOrder::Size, SortOrder::Modified] {
        let once = sort_by_order(order, entries.clone());
        let twice = sort_by_order(order, once.clone());
        assert_eq!(names(&once), names(&twice));
    }
}

#[test]
fn refreshing_an_unchanged_directory_keeps_the_listing() {
    let listing = vec![file("b", 2, Some((5, 0))), dir("z"), file("a", 2, None), file(".h", 1, None)];
    let mut s = AppState::new("/data".to_string());
    s.sort_order = SortOrder::Size;
    s.load_dir(listing.clone());
    let first = names(&s.entries);
    s.selected = 2;
    s.refresh(listing);
    assert_eq!(names(&s.entries), first);
    assert_eq!(s.selected, 2);
}

#[test]
fn modified_before_1970_is_a_stamp() {
    let text = file("a", 1, Some((-86_400 * 400, 5))).modified_formatted();
    assert_eq!(text.len(), 16);
    assert!(text.starts_with("1968-") || text.starts_with("1969-"));
}

#[test]
fn selected_entry_after_select_by_path_is_that_entry() {
    let mut s = AppState::new("/data".to_string());
    s.load_dir(vec![file("a", 1, None), file("b", 2, None), dir("c")]);
    for p in ["/data/a", "/data/b", "/data/c"] {
        s.select_by_path(p);
        let e = s.selected_entry().expect("an entry under the cursor");
        assert!(same_path(e.path.as_str(), p));
    }
    let mut root = AppState::new("/".to_string());
    root.load_dir(vec![FileEntry { path: "/x".to_string(), ..file("x", 1, None) }]);
    root.select_by_path("/x");
    assert_eq!(root.selected, 0);
    assert_eq!(root.selected_entry().map(|e| e.path.clone()), Some("/x".to_string()));
}

#[test]
fn deleting_a_typed_filter_character_keeps_the_entries() {
    let listing = vec![file("Alpha.TXT", 1, None), file("beta.txt", 1, None), file("gamma.rs", 1, None), file("Delta.md", 1, None)];
    let mut s = AppState::new("/data".to_string());
    s.load_dir(listing);
    s.start_filter();
    s.push_filter_char('T');
    s.selected = 1;
    s.push_filter_char('X');
    let after_push = (s.entries.clone(), s.selected);
    assert_eq!(names(&s.entries), vec!["Alpha.TXT", "beta.txt"]);
    s.pop_filter_char();
    assert_eq!(s.file_filter, "T");
    assert_eq!(names(&s.entries), names(&after_push.0));
    assert_eq!(s.selected, after_push.1);
}
