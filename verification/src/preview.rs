//! What the preview pane shows for an entry: which kind of preview its
//! extension calls for, and the texts of the non-highlighted previews.
use vstd::prelude::*;
use crate::text::{chars_equal, chars_of, decimal, digit, lowercase, push_all, push_decimal, string_from_chars, to_lowercase};

verus! {

/// The kind of preview an entry gets.
#[derive(Debug, Clone, Copy, PartialEq, Eq, Structural)]
pub enum PreviewKind {
    /// `"[DIR] name"`.
    Directory,
    /// The file's text, syntax highlighted.
    Highlighted,
    Image,
    Audio,
    Pdf,
}

/// The part of `s` after its last `'.'` (all of `s` without one), as
/// `split('.').next_back()` gives it.
pub open spec fn after_last_dot(s: Seq<char>) -> Seq<char>
    decreases s.len(),
{
    if s.len() == 0 {
        s
    } else if s.last() == '.' {
        Seq::empty()
    } else {
        after_last_dot(s.drop_last()).push(s.last())
    }
}

pub open spec fn is_image_ext(e: Seq<char>) -> bool {
    e == "png"@ || e == "jpg"@ || e == "jpeg"@ || e == "gif"@ || e == "bmp"@ || e == "ico"@ || e == "webp"@
}

pub open spec fn is_audio_ext(e: Seq<char>) -> bool {
    e == "mp3"@ || e == "flac"@ || e == "wav"@ || e == "ogg"@ || e == "m4a"@ || e == "aac"@
}

/// The preview for a file with the lowercase extension `e`: images, audio
/// and PDF files get a description; everything else (text and source files
/// included) is shown highlighted.
pub open spec fn kind_for_ext(e: Seq<char>) -> PreviewKind {
    if is_image_ext(e) {
        PreviewKind::Image
    } else if is_audio_ext(e) {
        PreviewKind::Audio
    } else if e == "pdf"@ {
        PreviewKind::Pdf
    } else {
        PreviewKind::Highlighted
    }
}

/// Files with the image extensions png, jpg, jpeg, gif, bmp, ico and webp
/// are previewed as images, with the audio extensions mp3, flac, wav, ogg,
/// m4a and aac as audio, and pdf as a PDF; a file is never read as text for
/// one of these.
pub proof fn law_media_extensions_get_their_preview(e: Seq<char>)
    ensures
        (e == "png"@ || e == "jpg"@ || e == "jpeg"@ || e == "gif"@ || e == "bmp"@ || e == "ico"@ || e == "webp"@)
            ==> kind_for_ext(e) == PreviewKind::Image,
        (e == "mp3"@ || e == "flac"@ || e == "wav"@ || e == "ogg"@ || e == "m4a"@ || e == "aac"@) ==> kind_for_ext(e)
            == PreviewKind::Audio,
        e == "pdf"@ ==> kind_for_ext(e) == PreviewKind::Pdf,
{
    reveal_strlit("png");
    reveal_strlit("jpg");
    reveal_strlit("jpeg");
    reveal_strlit("gif");
    reveal_strlit("bmp");
    reveal_strlit("ico");
    reveal_strlit("webp");
    reveal_strlit("mp3");
    reveal_strlit("flac");
    reveal_strlit("wav");
    reveal_strlit("ogg");
    reveal_strlit("m4a");
    reveal_strlit("aac");
    reveal_strlit("pdf");
    if e == "mp3"@ {
        assert(e[0] != "png"@[0]);
        assert(e[0] != "jpg"@[0]);
        assert(e.len() != "jpeg"@.len());
        assert(e[0] != "gif"@[0]);
        assert(e[0] != "bmp"@[0]);
        assert(e[0] != "ico"@[0]);
        assert(e.len() != "webp"@.len());
    }
    if e == "flac"@ {
        assert(e.len() != "png"@.len());
        assert(e.len() != "jpg"@.len());
        assert(e[0] != "jpeg"@[0]);
        assert(e.len() != "gif"@.len());
        assert(e.len() != "bmp"@.len());
        assert(e.len() != "ico"@.len());
        assert(e[0] != "webp"@[0]);
    }
    if e == "wav"@ {
        assert(e[0] != "png"@[0]);
        assert(e[0] != "jpg"@[0]);
        assert(e.len() != "jpeg"@.len());
        assert(e[0] != "gif"@[0]);
        assert(e[0] != "bmp"@[0]);
        assert(e[0] != "ico"@[0]);
        assert(e.len() != "webp"@.len());
    }
    if e == "ogg"@ {
        assert(e[0] != "png"@[0]);
        assert(e[0] != "jpg"@[0]);
        assert(e.len() != "jpeg"@.len());
        assert(e[0] != "gif"@[0]);
        assert(e[0] != "bmp"@[0]);
        assert(e[0] != "ico"@[0]);
        assert(e.len() != "webp"@.len());
    }
    if e == "m4a"@ {
        assert(e[0] != "png"@[0]);
        assert(e[0] != "jpg"@[0]);
        assert(e.len() != "jpeg"@.len());
        assert(e[0] != "gif"@[0]);
        assert(e[0] != "bmp"@[0]);
        assert(e[0] != "ico"@[0]);
        assert(e.len() != "webp"@.len());
    }
    if e == "aac"@ {
        assert(e[0] != "png"@[0]);
        assert(e[0] != "jpg"@[0]);
        assert(e.len() != "jpeg"@.len());
        assert(e[0] != "gif"@[0]);
        assert(e[0] != "bmp"@[0]);
        assert(e[0] != "ico"@[0]);
        assert(e.len() != "webp"@.len());
    }
    if e == "pdf"@ {
        assert(e[1] != "png"@[1]);
        assert(e[0] != "jpg"@[0]);
        assert(e.len() != "jpeg"@.len());
        assert(e[0] != "gif"@[0]);
        assert(e[0] != "bmp"@[0]);
        assert(e[0] != "ico"@[0]);
        assert(e.len() != "webp"@.len());
        assert(e[0] != "mp3"@[0]);
        assert(e.len() != "flac"@.len());
        assert(e[0] != "wav"@[0]);
        assert(e[0] != "ogg"@[0]);
        assert(e[0] != "m4a"@[0]);
        assert(e[0] != "aac"@[0]);
    }
}

/// The preview for an entry: directories get their name, files go by their
/// lowercase extension (see `kind_for_ext`).
pub open spec fn kind_for(name: Seq<char>, is_dir: bool) -> PreviewKind {
    if is_dir {
        PreviewKind::Directory
    } else {
        kind_for_ext(lowercase(after_last_dot(name)))
    }
}

pub(crate) fn after_last_dot_chars(s: &Vec<char>) -> (r: Vec<char>)
    ensures
        r@ == after_last_dot(s@),
{
    let mut start: usize = s.len();
    assert(s@.take(start as int) =~= s@);
    assert(s@ + Seq::<char>::empty() =~= s@);
    while start > 0 && s[start - 1] != '.'
        invariant
            start <= s@.len(),
            after_last_dot(s@) == after_last_dot(s@.take(start as int)) + s@.subrange(start as int, s@.len() as int),
        decreases start,
    {
        let ghost t = s@.take(start as int);
        assert(t.drop_last() =~= s@.take(start - 1));
        assert(after_last_dot(s@.take(start - 1)).push(s@[start - 1]) + s@.subrange(start as int, s@.len() as int)
            =~= after_last_dot(s@.take(start - 1)) + s@.subrange(start - 1, s@.len() as int));
        start = start - 1;
    }
    assert(after_last_dot(s@.take(start as int)) =~= Seq::empty());
    let mut out: Vec<char> = Vec::new();
    let mut i = start;
    while i < s.len()
        invariant
            start <= i <= s@.len(),
            out@ == s@.subrange(start as int, i as int),
        decreases s.len() - i,
    {
        out.push(s[i]);
        assert(out@ =~= s@.subrange(start as int, i + 1));
        i = i + 1;
    }
    assert(after_last_dot(s@) =~= out@);
    out
}

pub(crate) fn is(e: &Vec<char>, lit: &str) -> (r: bool)
    ensures
        r == (e@ == lit@),
{
    chars_equal(e, &chars_of(lit))
}

/// Which preview a file with the lowercase extension `ext` gets.
pub fn extension_kind(ext: &str) -> (k: PreviewKind)
    ensures
        k == kind_for_ext(ext@),
{
    let e = chars_of(ext);
    if is(&e, "png") || is(&e, "jpg") || is(&e, "jpeg") || is(&e, "gif") || is(&e, "bmp") || is(&e, "ico")
        || is(&e, "webp") {
        PreviewKind::Image
    } else if is(&e, "mp3") || is(&e, "flac") || is(&e, "wav") || is(&e, "ogg") || is(&e, "m4a") || is(&e, "aac") {
        PreviewKind::Audio
    } else if is(&e, "pdf") {
        PreviewKind::Pdf
    } else {
        PreviewKind::Highlighted
    }
}

/// Which preview the entry `name` gets.
pub fn preview_kind(name: &str, is_dir: bool) -> (k: PreviewKind)
    ensures
        k == kind_for(name@, is_dir),
{
    if is_dir {
        return PreviewKind::Directory;
    }
    let ext = after_last_dot_chars(&chars_of(name));
    extension_kind(to_lowercase(string_from_chars(&ext).as_str()).as_str())
}

fn text_of(parts: &Vec<char>) -> (s: String)
    ensures
        s@ == parts@,
{
    string_from_chars(parts)
}

/// The preview of a directory: `"[DIR] name"`.
pub fn directory_preview(name: &str) -> (s: String)
    ensures
        s@ == "[DIR] "@ + name@,
{
    let mut out = chars_of("[DIR] ");
    push_all(&mut out, &chars_of(name));
    text_of(&out)
}

/// The preview of an image: `"[Image: path]"`.
pub fn preview_image(path: &str) -> (s: String)
    ensures
        s@ == "[Image: "@ + path@ + "]"@,
{
    let mut out = chars_of("[Image: ");
    push_all(&mut out, &chars_of(path));
    push_all(&mut out, &chars_of("]"));
    text_of(&out)
}

/// The preview of a PDF file: `"[PDF: path]"`.
pub fn preview_pdf(path: &str) -> (s: String)
    ensures
        s@ == "[PDF: "@ + path@ + "]"@,
{
    let mut out = chars_of("[PDF: ");
    push_all(&mut out, &chars_of(path));
    push_all(&mut out, &chars_of("]"));
    text_of(&out)
}

/// The ID3 fields that the audio preview shows.
#[derive(Debug, Clone)]
pub struct AudioTag {
    pub title: Option<String>,
    pub artist: Option<String>,
    pub album: Option<String>,
    /// The length in seconds (the `TLEN` frame).
    pub duration: Option<u32>,
}

pub open spec fn or_unknown(s: Option<String>) -> Seq<char> {
    match s {
        Some(t) => t@,
        None => "Unknown"@,
    }
}

/// `n` with at least two digits (`{:02}`).
pub open spec fn two_digits(n: nat) -> Seq<char> {
    if n < 10 {
        seq!['0'] + decimal(n)
    } else {
        decimal(n)
    }
}

/// The audio preview: the tag's title, artist, album (`"Unknown"` for a
/// missing one) and duration as minutes and two-digit seconds; without a
/// readable tag, `"[Audio: path]"`.
pub open spec fn audio_text(tag: Option<AudioTag>, path: Seq<char>) -> Seq<char> {
    match tag {
        Some(t) => {
            let d: nat = match t.duration {
                Some(d) => d as nat,
                None => 0,
            };
            "[Audio]\nTitle: "@ + or_unknown(t.title) + "\nArtist: "@ + or_unknown(t.artist) + "\nAlbum: "@
                + or_unknown(t.album) + "\nDuration: "@ + decimal(d / 60) + ":"@ + two_digits(d % 60)
        },
        None => "[Audio: "@ + path + "]"@,
    }
}

fn push_or_unknown(out: &mut Vec<char>, s: &Option<String>)
    ensures
        final(out)@ == old(out)@ + or_unknown(*s),
{
    match s {
        Some(t) => push_all(out, &chars_of(t.as_str())),
        None => push_all(out, &chars_of("Unknown")),
    }
}

/// The text of the audio preview for the tag read from the file at `path`
/// (`None` when it could not be read).
pub fn audio_preview_text(tag: &Option<AudioTag>, path: &str) -> (s: String)
    ensures
        s@ == audio_text(*tag, path@),
{
    match tag {
        Some(t) => {
            let d: u32 = match t.duration {
                Some(d) => d,
                None => 0,
            };
            let mut out = chars_of("[Audio]\nTitle: ");
            push_or_unknown(&mut out, &t.title);
            push_all(&mut out, &chars_of("\nArtist: "));
            push_or_unknown(&mut out, &t.artist);
            push_all(&mut out, &chars_of("\nAlbum: "));
            push_or_unknown(&mut out, &t.album);
            push_all(&mut out, &chars_of("\nDuration: "));
            push_decimal(&mut out, (d / 60) as u64);
            push_all(&mut out, &chars_of(":"));
            let secs = d % 60;
            if secs < 10 {
                out.push('0');
                assert(seq!['0'] + decimal(secs as nat) =~= seq!['0'].push(crate::text::digit_char(secs as int)));
                out.push(digit(secs as u64));
            } else {
                push_decimal(&mut out, secs as u64);
            }
            assert(out@ =~= audio_text(*tag, path@));
            text_of(&out)
        },
        None => {
            let mut out = chars_of("[Audio: ");
            push_all(&mut out, &chars_of(path));
            push_all(&mut out, &chars_of("]"));
            text_of(&out)
        },
    }
}

/// The git-diff preview: the diff, `"No changes."` for an empty one, or
/// `"[No Git diff available]"` when git gave none.
pub fn get_git_diff_preview(diff: Option<String>) -> (s: String)
    ensures
        s@ == match diff {
            Some(d) => if d@.len() == 0 { "No changes."@ } else { d@ },
            None => "[No Git diff available]"@,
        },
{
    match diff {
        Some(d) => if d.as_str().is_empty() {
            "No changes.".to_owned()
        } else {
            d
        },
        None => "[No Git diff available]".to_owned(),
    }
}

} // verus!
