//! Git status of the files of a repository, read from the output of `git`
//! commands (which the caller runs).
use vstd::prelude::*;
use crate::text::{
    chars_of, from_utf8_lossy, is_boundary, split_lines, string_from_chars, suffix_at_byte,
    text_lines, trim_chars, trimmed, utf8_len, utf8_lossy, split_at_byte, byte_len,
};

verus! {

/// The branch and the changed files of a repository.
#[derive(Debug, Clone)]
pub struct GitStatus {
    pub branch: String,
    pub files: Vec<GitFileStatus>,
}

/// A file that `git status` lists, with its path relative to the repository.
#[derive(Debug, Clone)]
pub struct GitFileStatus {
    pub path: String,
    pub status: FileGitStatus,
}

/// The status of one file.
#[derive(Debug, Clone, Copy, PartialEq, Eq, Structural)]
pub enum FileGitStatus {
    Unmodified,
    Modified,
    Added,
    Deleted,
    Renamed,
    Copied,
    Untracked,
    Ignored,
    StagedModified,
    StagedDeleted,
    StagedNew,
}

/// The status that the index and worktree codes of a porcelain line stand for.
pub open spec fn status_of(index: char, worktree: char) -> FileGitStatus {
    if index == ' ' && worktree == ' ' {
        FileGitStatus::Unmodified
    } else if index == ' ' && worktree == 'M' {
        FileGitStatus::Modified
    } else if index == ' ' && worktree == 'D' {
        FileGitStatus::Deleted
    } else if index == ' ' && worktree == 'A' {
        FileGitStatus::Added
    } else if index == ' ' && worktree == 'R' {
        FileGitStatus::Renamed
    } else if index == ' ' && worktree == 'C' {
        FileGitStatus::Copied
    } else if index == '?' && worktree == '?' {
        FileGitStatus::Untracked
    } else if index == '!' && worktree == '!' {
        FileGitStatus::Ignored
    } else if index == 'M' && (worktree == ' ' || worktree == 'M') {
        FileGitStatus::StagedModified
    } else if index == 'A' && (worktree == ' ' || worktree == 'A') {
        FileGitStatus::StagedNew
    } else if index == 'D' && worktree == ' ' {
        FileGitStatus::StagedDeleted
    } else if index == 'R' && worktree == ' ' {
        FileGitStatus::Renamed
    } else if index == 'C' && worktree == ' ' {
        FileGitStatus::Copied
    } else {
        FileGitStatus::Unmodified
    }
}

/// The status for the two status characters of a `git status --porcelain=v1`
/// line; combinations not listed count as unmodified.
pub fn classify_status(index: char, worktree: char) -> (s: FileGitStatus)
    ensures
        s == status_of(index, worktree),
{
    match (index, worktree) {
        (' ', ' ') => FileGitStatus::Unmodified,
        (' ', 'M') => FileGitStatus::Modified,
        (' ', 'D') => FileGitStatus::Deleted,
        (' ', 'A') => FileGitStatus::Added,
        (' ', 'R') => FileGitStatus::Renamed,
        (' ', 'C') => FileGitStatus::Copied,
        ('?', '?') => FileGitStatus::Untracked,
        ('!', '!') => FileGitStatus::Ignored,
        ('M', ' ') => FileGitStatus::StagedModified,
        ('M', 'M') => FileGitStatus::StagedModified,
        ('A', ' ') => FileGitStatus::StagedNew,
        ('A', 'A') => FileGitStatus::StagedNew,
        ('D', ' ') => FileGitStatus::StagedDeleted,
        ('R', ' ') => FileGitStatus::Renamed,
        ('C', ' ') => FileGitStatus::Copied,
        _ => FileGitStatus::Unmodified,
    }
}

/// The part of `s` after its last `'/'` (all of `s` without one).
pub open spec fn last_segment(s: Seq<char>) -> Seq<char>
    decreases s.len(),
{
    if s.len() == 0 {
        s
    } else if s.last() == '/' {
        Seq::empty()
    } else {
        last_segment(s.drop_last()).push(s.last())
    }
}

/// The status of the first listed file whose last path segment is `name`,
/// unmodified when none is.
pub open spec fn status_for(files: Seq<GitFileStatus>, name: Seq<char>) -> FileGitStatus
    decreases files.len(),
{
    if files.len() == 0 {
        FileGitStatus::Unmodified
    } else if last_segment(files[0].path@) == name {
        files[0].status
    } else {
        status_for(files.drop_first(), name)
    }
}

/// The file and status that a porcelain line lists, when the line has at
/// least three bytes: the status characters are its first two characters
/// (a space when the line has one), the path is the rest after byte 3,
/// trimmed.
pub open spec fn status_entry(line: Seq<char>) -> (Seq<char>, FileGitStatus) {
    (
        trimmed(suffix_at_byte(line, 3)),
        status_of(line[0], if line.len() > 1 { line[1] } else { ' ' }),
    )
}

/// The files listed by the lines.
pub open spec fn status_entries(lines: Seq<Seq<char>>) -> Seq<(Seq<char>, FileGitStatus)>
    decreases lines.len(),
{
    if lines.len() == 0 {
        Seq::empty()
    } else {
        let rest = status_entries(lines.drop_last());
        if utf8_len(lines.last()) < 3 {
            rest
        } else {
            rest.push(status_entry(lines.last()))
        }
    }
}

pub open spec fn files_view(files: Seq<GitFileStatus>) -> Seq<(Seq<char>, FileGitStatus)> {
    files.map_values(|f: GitFileStatus| (f.path@, f.status))
}

/// Every line of at least three bytes can be cut after byte 3 (its first
/// characters are the ASCII status codes and a space, as git writes them).
pub open spec fn porcelain_lines(text: Seq<char>) -> bool {
    forall|i: int|
        0 <= i < text_lines(text).len() && utf8_len(#[trigger] text_lines(text)[i]) >= 3 ==> is_boundary(
            text_lines(text)[i],
            3,
        )
}

/// The files that `git status --porcelain=v1` output lists.
pub fn parse_status_lines(text: &str) -> (files: Vec<GitFileStatus>)
    requires
        porcelain_lines(text@),
    ensures
        files_view(files@) == status_entries(text_lines(text@)),
{
    let lines = split_lines(text);
    let ghost lv = lines.deep_view();
    let mut files: Vec<GitFileStatus> = Vec::new();
    let mut i: usize = 0;
    while i < lines.len()
        invariant
            lv == lines.deep_view(),
            lv == text_lines(text@),
            porcelain_lines(text@),
            i <= lv.len(),
            files_view(files@) == status_entries(lv.take(i as int)),
        decreases lines.len() - i,
    {
        assert(lv.take(i + 1).drop_last() =~= lv.take(i as int));
        let line = &lines[i];
        let len = byte_len(line.as_str());
        if len >= 3 {
            assert(is_boundary(lv[i as int], 3));
            let chars = chars_of(line.as_str());
            let index_status = chars[0];
            let worktree_status = if chars.len() > 1 { chars[1] } else { ' ' };
            let (_head, tail) = split_at_byte(line, 3);
            let path_chars = trim_chars(&chars_of(tail.as_str()));
            let path = string_from_chars(&path_chars);
            let status = classify_status(index_status, worktree_status);
            let ghost before = files@;
            files.push(GitFileStatus { path, status });
            assert(files_view(files@) =~= files_view(before).push(status_entry(lv[i as int])));
        }
        i = i + 1;
    }
    assert(lv.take(lv.len() as int) =~= lv);
    files
}

/// Whether every line of at least three bytes can be cut after byte 3.
pub fn is_porcelain(text: &str) -> (r: bool)
    ensures
        r == porcelain_lines(text@),
{
    let lines = split_lines(text);
    let mut i: usize = 0;
    while i < lines.len()
        invariant
            lines.deep_view() == text_lines(text@),
            i <= lines@.len(),
            forall|j: int|
                0 <= j < i && utf8_len(#[trigger] text_lines(text@)[j]) >= 3 ==> is_boundary(text_lines(text@)[j], 3),
        decreases lines.len() - i,
    {
        if byte_len(lines[i].as_str()) >= 3 {
            let chars = chars_of(lines[i].as_str());
            if crate::text::find_char_offset(&chars, 3).is_none() {
                assert(utf8_len(text_lines(text@)[i as int]) >= 3);
                return false;
            }
        }
        i = i + 1;
    }
    true
}

/// The files that `git status` listed: none when the command failed, parsed
/// from its output otherwise; `None` when a line of the output cannot be cut
/// after its third byte (a panic in a plain byte slice).
pub fn status_files_from_output(success: bool, stdout: &Vec<u8>) -> (r: Option<Vec<GitFileStatus>>)
    ensures
        match r {
            Some(files) => files_view(files@) == (if success {
                status_entries(text_lines(utf8_lossy(stdout@)))
            } else {
                Seq::empty()
            }),
            None => success && !porcelain_lines(utf8_lossy(stdout@)),
        },
{
    if !success {
        let files: Vec<GitFileStatus> = Vec::new();
        assert(files_view(files@) =~= Seq::empty());
        return Some(files);
    }
    let text = from_utf8_lossy(stdout);
    if !is_porcelain(text.as_str()) {
        return None;
    }
    Some(parse_status_lines(text.as_str()))
}

/// A command's output as trimmed text (the repository root, the branch),
/// when the command succeeded.
pub fn trimmed_output(success: bool, stdout: &Vec<u8>) -> (r: Option<String>)
    ensures
        match r {
            Some(s) => success && s@ == trimmed(utf8_lossy(stdout@)),
            None => !success,
        },
{
    if !success {
        return None;
    }
    let text = from_utf8_lossy(stdout);
    let chars = trim_chars(&chars_of(text.as_str()));
    Some(string_from_chars(&chars))
}

/// A command's output as text (a diff), when the command succeeded.
pub fn diff_output(success: bool, stdout: &Vec<u8>) -> (r: Option<String>)
    ensures
        match r {
            Some(s) => success && s@ == utf8_lossy(stdout@),
            None => !success,
        },
{
    if success {
        Some(from_utf8_lossy(stdout))
    } else {
        None
    }
}

fn last_segment_chars(s: &Vec<char>) -> (r: Vec<char>)
    ensures
        r@ == last_segment(s@),
{
    let mut start: usize = s.len();
    assert(s@.take(start as int) =~= s@);
    assert(s@.subrange(start as int, s@.len() as int) =~= Seq::<char>::empty());
    assert(s@ + Seq::<char>::empty() =~= s@);
    while start > 0 && s[start - 1] != '/'
        invariant
            start <= s@.len(),
            last_segment(s@) == last_segment(s@.take(start as int)) + s@.subrange(start as int, s@.len() as int),
        decreases start,
    {
        let ghost t = s@.take(start as int);
        assert(t.drop_last() =~= s@.take(start - 1));
        assert(last_segment(t) == last_segment(s@.take(start - 1)).push(s@[start - 1]));
        assert(last_segment(s@.take(start - 1)).push(s@[start - 1]) + s@.subrange(start as int, s@.len() as int)
            =~= last_segment(s@.take(start - 1)) + s@.subrange(start - 1, s@.len() as int));
        start = start - 1;
    }
    assert(last_segment(s@.take(start as int)) =~= Seq::empty());
    let mut out: Vec<char> = Vec::new();
    let mut i = start;
    while i < s.len()
        invariant
            start <= i <= s@.len(),
            out@ == s@.subrange(start as int, i as int),
        decreases s.len() - i,
    {
        out.push(s[i]);
        assert(out@ =~= s@.subrange(start as int, i + 1));
        i = i + 1;
    }
    assert(last_segment(s@) =~= out@);
    out
}

impl GitStatus {
    /// The status of a repository, from the results of asking git for its
    /// root and its current branch: none when either is missing (not in a
    /// repository, or git failed).
    pub fn get_for_path(repo_root: Option<String>, branch: Option<String>, files: Vec<GitFileStatus>) -> (r: Option<Self>)
        ensures
            match (repo_root, branch) {
                (Some(_), Some(b)) => r matches Some(g) && g.branch == b && g.files == files,
                _ => r is None,
            },
    {
        match (repo_root, branch) {
            (Some(_), Some(b)) => Some(GitStatus { branch: b, files }),
            _ => None,
        }
    }

    /// The status of the first listed file whose last path segment is
    /// `filename`; unmodified when none is.
    pub fn get_file_status(&self, filename: &str) -> (s: FileGitStatus)
        ensures
            s == status_for(self.files@, filename@),
    {
        let name = chars_of(filename);
        let mut i: usize = 0;
        assert(self.files@.skip(0) =~= self.files@);
        while i < self.files.len()
            invariant
                i <= self.files@.len(),
                name@ == filename@,
                status_for(self.files@, filename@) == status_for(self.files@.skip(i as int), filename@),
            decreases self.files.len() - i,
        {
            assert(self.files@.skip(i as int).drop_first() =~= self.files@.skip(i + 1));
            let file_name = last_segment_chars(&chars_of(self.files[i].path.as_str()));
            if crate::text::chars_equal(&file_name, &name) {
                return self.files[i].status;
            }
            proof {
                assert(self.files@.skip(i as int)[0] == self.files@[i as int]);
                assert(last_segment(self.files@[i as int].path@) != filename@);
            }
            i = i + 1;
        }
        FileGitStatus::Unmodified
    }
}

} // verus!
