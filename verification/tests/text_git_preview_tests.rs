use terminal_file_explorer::config::{next_theme, Config, StoredConfig};
use terminal_file_explorer::git::{
    classify_status, diff_output, is_porcelain, parse_status_lines, status_files_from_output, trimmed_output,
    FileGitStatus, GitFileStatus, GitStatus,
};
use terminal_file_explorer::preview::{
    audio_preview_text, directory_preview, extension_kind, get_git_diff_preview, preview_image, preview_kind,
    preview_pdf, AudioTag, PreviewKind,
};
use terminal_file_explorer::state::SortOrder;
use terminal_file_explorer::text::{chars_of, join_with_newlines, split_lines, trim_chars};

#[test]
fn split_lines_follows_str_lines() {
    for text in ["", "a", "a\n", "a\nb", "a\r\nb\r\n", "\n\n", "x\ry\n", "tail\r"] {
        let expected: Vec<String> = text.lines().map(|s| s.to_string()).collect();
        assert_eq!(split_lines(text), expected, "text {:?}", text);
    }
}

#[test]
fn join_with_newlines_joins() {
    let lines = vec!["a".to_string(), "".to_string(), "b".to_string()];
    assert_eq!(join_with_newlines(&lines), "a\n\nb");
    assert_eq!(join_with_newlines(&Vec::new()), "");
}

#[test]
fn chars_and_trimming() {
    let s = "h\u{e9}llo \u{2190}";
    assert_eq!(chars_of(s), s.chars().collect::<Vec<char>>());
    assert_eq!(trim_chars(&chars_of("  main \n")), vec!['m', 'a', 'i', 'n']);
    assert_eq!(trim_chars(&chars_of(" \t ")), Vec::<char>::new());
}

#[test]
fn lossy_decoding_replaces_bad_bytes() {
    assert_eq!(diff_output(true, &b"ok".to_vec()), Some("ok".to_string()));
    assert_eq!(diff_output(true, &vec![b'a', 0xff, b'b']), Some("a\u{FFFD}b".to_string()));
    assert_eq!(trimmed_output(true, &vec![b' ', 0xc3, b'x', b'\n']), Some("\u{FFFD}x".to_string()));
}

#[test]
fn classify_porcelain_codes() {
    assert_eq!(classify_status(' ', ' '), FileGitStatus::Unmodified);
    assert_eq!(classify_status(' ', 'M'), FileGitStatus::Modified);
    assert_eq!(classify_status(' ', 'D'), FileGitStatus::Deleted);
    assert_eq!(classify_status(' ', 'A'), FileGitStatus::Added);
    assert_eq!(classify_status('?', '?'), FileGitStatus::Untracked);
    assert_eq!(classify_status('!', '!'), FileGitStatus::Ignored);
    assert_eq!(classify_status('M', ' '), FileGitStatus::StagedModified);
    assert_eq!(classify_status('M', 'M'), FileGitStatus::StagedModified);
    assert_eq!(classify_status('A', ' '), FileGitStatus::StagedNew);
    assert_eq!(classify_status('D', ' '), FileGitStatus::StagedDeleted);
    assert_eq!(classify_status('R', ' '), FileGitStatus::Renamed);
    assert_eq!(classify_status('C', ' '), FileGitStatus::Copied);
    assert_eq!(classify_status('X', 'Y'), FileGitStatus::Unmodified);
}

#[test]
fn parse_status_output() {
    let text = " M src/main.rs\n?? notes.txt\nA  new.rs\nxy\n";
    assert!(is_porcelain(text));
    let files = parse_status_lines(text);
    assert_eq!(files.len(), 3);
    assert_eq!(files[0].path, "src/main.rs");
    assert_eq!(files[0].status, FileGitStatus::Modified);
    assert_eq!(files[1].path, "notes.txt");
    assert_eq!(files[1].status, FileGitStatus::Untracked);
    assert_eq!(files[2].path, "new.rs");
    assert_eq!(files[2].status, FileGitStatus::StagedNew);
}

#[test]
fn status_output_of_a_failed_command_is_empty() {
    assert_eq!(status_files_from_output(false, &b" M a".to_vec()).map(|v| v.len()), Some(0));
    let files = status_files_from_output(true, &b"?? a.txt\n".to_vec()).unwrap();
    assert_eq!(files.len(), 1);
    assert_eq!(files[0].path, "a.txt");
}

#[test]
fn status_output_that_cannot_be_cut_is_refused() {
    let text = "\u{e9}\u{e9}x\n";
    assert!(!is_porcelain(text));
    assert!(status_files_from_output(true, &text.as_bytes().to_vec()).is_none());
}

#[test]
fn command_outputs() {
    assert_eq!(trimmed_output(true, &b"  main\n".to_vec()), Some("main".to_string()));
    assert_eq!(trimmed_output(false, &b"main".to_vec()), None);
    assert_eq!(diff_output(true, &b"+x\n".to_vec()), Some("+x\n".to_string()));
    assert_eq!(diff_output(false, &b"+x\n".to_vec()), None);
}

#[test]
fn git_status_lookup_by_last_segment() {
    let files = vec![
        GitFileStatus { path: "src/lib.rs".to_string(), status: FileGitStatus::Modified },
        GitFileStatus { path: "lib.rs".to_string(), status: FileGitStatus::StagedNew },
    ];
    let g = GitStatus::get_for_path(Some("/repo".to_string()), Some("main".to_string()), files).unwrap();
    assert_eq!(g.branch, "main");
    assert_eq!(g.get_file_status("lib.rs"), FileGitStatus::Modified);
    assert_eq!(g.get_file_status("other.rs"), FileGitStatus::Unmodified);
    assert!(GitStatus::get_for_path(None, Some("main".to_string()), Vec::new()).is_none());
    assert!(GitStatus::get_for_path(Some("/repo".to_string()), None, Vec::new()).is_none());
}

#[test]
fn preview_kinds_by_extension() {
    assert_eq!(preview_kind("src", true), PreviewKind::Directory);
    assert_eq!(preview_kind("photo.JPG", false), PreviewKind::Image);
    assert_eq!(preview_kind("song.flac", false), PreviewKind::Audio);
    assert_eq!(preview_kind("paper.pdf", false), PreviewKind::Pdf);
    assert_eq!(preview_kind("main.rs", false), PreviewKind::Highlighted);
    assert_eq!(preview_kind("Makefile", false), PreviewKind::Highlighted);
    assert_eq!(preview_kind("archive.tar.gz", false), PreviewKind::Highlighted);
}

#[test]
fn preview_texts() {
    assert_eq!(directory_preview("src"), "[DIR] src");
    assert_eq!(preview_image("/a/b.png"), "[Image: /a/b.png]");
    assert_eq!(preview_pdf("/a/b.pdf"), "[PDF: /a/b.pdf]");
    assert_eq!(audio_preview_text(&None, "/m.mp3"), "[Audio: /m.mp3]");
    let tag = AudioTag { title: Some("Song".to_string()), artist: None, album: Some("LP".to_string()), duration: Some(185) };
    assert_eq!(
        audio_preview_text(&Some(tag), "/m.mp3"),
        "[Audio]\nTitle: Song\nArtist: Unknown\nAlbum: LP\nDuration: 3:05"
    );
    let tag = AudioTag { title: None, artist: None, album: None, duration: None };
    assert_eq!(
        audio_preview_text(&Some(tag), "/m.mp3"),
        "[Audio]\nTitle: Unknown\nArtist: Unknown\nAlbum: Unknown\nDuration: 0:00"
    );
}

#[test]
fn git_diff_preview_texts() {
    assert_eq!(get_git_diff_preview(None), "[No Git diff available]");
    assert_eq!(get_git_diff_preview(Some(String::new())), "No changes.");
    assert_eq!(get_git_diff_preview(Some("+a".to_string())), "+a");
}

#[test]
fn stored_config_defaults_and_round_trip() {
    let empty = StoredConfig {
        theme: None,
        show_hidden: None,
        preview_enabled: None,
        calculate_dir_size: None,
        sort_order: None,
        bookmarks: None,
    };
    let c = Config::from_stored(empty);
    assert_eq!(c.theme, "tokyo-night");
    assert!(!c.show_hidden);
    assert!(c.preview_enabled);
    assert!(!c.calculate_dir_size);
    assert_eq!(c.sort_order, SortOrder::Name);
    assert!(c.bookmarks.is_empty());
    let d = Config::default();
    assert_eq!(d.theme, "tokyo-night");
    let mut custom = Config::default();
    custom.theme = "nord".to_string();
    custom.show_hidden = true;
    custom.sort_order = SortOrder::Size;
    custom.bookmarks = vec!["/home".to_string()];
    let back = Config::from_stored(custom.to_stored());
    assert_eq!(back.theme, "nord");
    assert!(back.show_hidden);
    assert_eq!(back.sort_order, SortOrder::Size);
    assert_eq!(back.bookmarks, vec!["/home".to_string()]);
}

#[test]
fn themes_cycle_in_order() {
    let names: Vec<String> = ["tokyo-night", "dracula", "nord"].iter().map(|s| s.to_string()).collect();
    assert_eq!(next_theme(&names, "tokyo-night"), Some("dracula".to_string()));
    assert_eq!(next_theme(&names, "nord"), Some("tokyo-night".to_string()));
    assert_eq!(next_theme(&names, "unknown"), None);
    assert_eq!(next_theme(&Vec::new(), "nord"), None);
}

#[test]
fn preview_kinds_of_lowercase_extensions() {
    assert_eq!(extension_kind("webp"), PreviewKind::Image);
    assert_eq!(extension_kind("m4a"), PreviewKind::Audio);
    assert_eq!(extension_kind("pdf"), PreviewKind::Pdf);
    assert_eq!(extension_kind("PDF"), PreviewKind::Highlighted);
    assert_eq!(extension_kind("svg"), PreviewKind::Highlighted);
    assert_eq!(extension_kind(""), PreviewKind::Highlighted);
}
