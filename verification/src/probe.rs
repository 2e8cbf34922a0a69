//! Probing a media file with `ffprobe`: the arguments for each kind of
//! stream, how its output is read, and which files count as media.

use vstd::prelude::*;
use crate::codec::StreamKind;
use crate::text::{
    str_eq, first_line, first_line_spec, string_views, push_text, lemma_first_line_has_no_newline, trim,
    trim_spec, is_white_space, lemma_trimmed_head, lemma_first_line_head, lemma_first_line_prefix,
};
use crate::std_calls::{utf8_lossy, lowercase, path_extension, decode_lossy, to_lowercase, extension_of};

verus! {

/// The stream selector passed to `ffprobe` for a kind of stream: the first
/// stream of that kind.
pub open spec fn selector_spec(kind: StreamKind) -> Seq<char> {
    match kind {
        StreamKind::Video => "v:0"@,
        StreamKind::Audio => "a:0"@,
        StreamKind::Subtitle => "s:0"@,
    }
}

/// The stream selector passed to `ffprobe` for a kind of stream.
pub fn stream_selector(kind: StreamKind) -> (r: &'static str)
    ensures
        r@ == selector_spec(kind),
{
    match kind {
        StreamKind::Video => "v:0",
        StreamKind::Audio => "a:0",
        StreamKind::Subtitle => "s:0",
    }
}

/// The arguments of the `ffprobe` call that prints the codec name of the
/// first stream of a kind in the file at `path`, one name per line.
pub open spec fn probe_args_spec(kind: StreamKind, path: Seq<char>) -> Seq<Seq<char>> {
    seq![
        "-v"@,
        "error"@,
        "-select_streams"@,
        selector_spec(kind),
        "-show_entries"@,
        "stream=codec_name"@,
        "-of"@,
        "default=noprint_wrappers=1:nokey=1"@,
        path,
    ]
}

/// The arguments for `ffprobe` (the program name not included) that ask for
/// the codec of the first stream of `kind` in the file at `path`.
pub fn probe_arguments(kind: StreamKind, path: &str) -> (r: Vec<String>)
    ensures
        string_views(r@) == probe_args_spec(kind, path@),
{
    let mut r: Vec<String> = Vec::new();
    push_text(&mut r, "-v");
    push_text(&mut r, "error");
    push_text(&mut r, "-select_streams");
    push_text(&mut r, stream_selector(kind));
    push_text(&mut r, "-show_entries");
    push_text(&mut r, "stream=codec_name");
    push_text(&mut r, "-of");
    push_text(&mut r, "default=noprint_wrappers=1:nokey=1");
    push_text(&mut r, path);
    assert(string_views(r@) =~= probe_args_spec(kind, path@));
    r
}

/// What a probe reports for a stream: "Invalid" when `ffprobe` could not be
/// run, "None" when it printed nothing but white space (no such stream),
/// and otherwise the first line of its trimmed output.
pub open spec fn probe_result_spec(stdout: Option<Seq<u8>>) -> Seq<char> {
    match stdout {
        None => "Invalid"@,
        Some(bytes) => {
            let text = trim_spec(utf8_lossy(bytes));
            if text.len() == 0 {
                "None"@
            } else {
                first_line_spec(text)
            }
        },
    }
}

/// Reads the outcome of one `ffprobe` call: `None` when the program could
/// not be run, else the bytes it wrote to its standard output.
pub fn probe_result(stdout: Option<Vec<u8>>) -> (r: String)
    ensures
        r@ == probe_result_spec(
            match stdout {
                Some(b) => Some(b@),
                None => None,
            },
        ),
{
    match stdout {
        None => "Invalid".to_string(),
        Some(bytes) => {
            let decoded = decode_lossy(bytes.as_slice());
            let text = trim(decoded.as_str());
            if text.unicode_len() == 0 {
                "None".to_string()
            } else {
                first_line(text.as_str())
            }
        },
    }
}

/// A probe result is always a single line: it holds no line break.
pub proof fn lemma_probe_result_is_one_line(stdout: Option<Seq<u8>>)
    ensures
        forall|j: int| 0 <= j < probe_result_spec(stdout).len() ==> probe_result_spec(stdout)[j] != '\n',
{
    reveal_strlit("Invalid");
    reveal_strlit("None");
    match stdout {
        None => {},
        Some(bytes) => {
            lemma_first_line_has_no_newline(trim_spec(utf8_lossy(bytes)));
        },
    }
}

/// A probe result is "Invalid", "None", or a codec name: a line that is
/// not empty, holds no line break and does not start with white space.
pub proof fn lemma_probe_result_shape(stdout: Option<Seq<u8>>)
    ensures
        ({
            let r = probe_result_spec(stdout);
            ||| r == "Invalid"@
            ||| r == "None"@
            ||| {
                &&& r.len() > 0
                &&& !is_white_space(r[0])
                &&& forall|j: int| 0 <= j < r.len() ==> r[j] != '\n'
            }
        }),
{
    lemma_probe_result_is_one_line(stdout);
    match stdout {
        None => {},
        Some(bytes) => {
            let text = trim_spec(utf8_lossy(bytes));
            if text.len() > 0 {
                lemma_trimmed_head(utf8_lossy(bytes));
                lemma_first_line_head(text);
            }
        },
    }
}

/// A probe that could not run reads "Invalid"; output that is empty or all
/// white space reads "None"; any other output reads as a prefix of its
/// trimmed text, the whole trimmed text when that is a single line.
pub proof fn lemma_probe_result_cases(stdout: Option<Seq<u8>>)
    ensures
        stdout is None ==> probe_result_spec(stdout) == "Invalid"@,
        stdout matches Some(b) ==> (trim_spec(utf8_lossy(b)).len() == 0 ==> probe_result_spec(stdout) == "None"@),
        stdout matches Some(b) ==> (trim_spec(utf8_lossy(b)).len() > 0 ==> {
            let t = trim_spec(utf8_lossy(b));
            let r = probe_result_spec(stdout);
            &&& r == t.take(r.len() as int)
            &&& (forall|j: int| 0 <= j < t.len() ==> t[j] != '\n') ==> r == t
        }),
{
    if let Some(b) = stdout {
        lemma_first_line_prefix(trim_spec(utf8_lossy(b)));
    }
}

/// The probe asks `ffprobe` for errors only, for the first stream of the
/// kind (`v:0`, `a:0` or `s:0`), for its codec name alone, in a plain
/// format with one name per line, of the file at the given path.
pub proof fn lemma_probe_arguments_listed(kind: StreamKind, path: Seq<char>)
    ensures
        ({
            let a = probe_args_spec(kind, path);
            &&& a.len() == 9
            &&& a[0] == "-v"@ && a[1] == "error"@
            &&& a[2] == "-select_streams"@
            &&& a[3] == (match kind {
                StreamKind::Video => "v:0"@,
                StreamKind::Audio => "a:0"@,
                StreamKind::Subtitle => "s:0"@,
            })
            &&& a[4] == "-show_entries"@ && a[5] == "stream=codec_name"@
            &&& a[6] == "-of"@ && a[7] == "default=noprint_wrappers=1:nokey=1"@
            &&& a[8] == path
        }),
{
}

/// The file extensions that count as media when a folder is scanned.
pub open spec fn media_extensions() -> Seq<Seq<char>> {
    seq![
        "mp4"@,
        "mkv"@,
        "avi"@,
        "mov"@,
        "webm"@,
        "m4v"@,
        "wmv"@,
        "flv"@,
        "mp3"@,
        "wav"@,
        "flac"@,
        "ogg"@,
        "m4a"@,
        "aac"@,
        "opus"@,
        "srt"@,
        "ass"@,
        "ssa"@,
        "vtt"@,
    ]
}

fn media_extension_list() -> (r: Vec<&'static str>)
    ensures
        r@.len() == media_extensions().len(),
        forall|i: int| 0 <= i < r@.len() ==> (#[trigger] r@[i])@ == media_extensions()[i],
{
    let r = vec![
        "mp4", "mkv", "avi", "mov", "webm", "m4v", "wmv", "flv", "mp3", "wav", "flac", "ogg",
        "m4a", "aac", "opus", "srt", "ass", "ssa", "vtt",
    ];
    r
}

/// The media extensions are exactly these nineteen: mp4, mkv, avi, mov,
/// webm, m4v, wmv, flv, mp3, wav, flac, ogg, m4a, aac, opus, srt, ass, ssa
/// and vtt.
pub proof fn lemma_media_extensions_listed(e: Seq<char>)
    ensures
        media_extensions().contains(e) <==> {
            ||| e == "mp4"@
            ||| e == "mkv"@
            ||| e == "avi"@
            ||| e == "mov"@
            ||| e == "webm"@
            ||| e == "m4v"@
            ||| e == "wmv"@
            ||| e == "flv"@
            ||| e == "mp3"@
            ||| e == "wav"@
            ||| e == "flac"@
            ||| e == "ogg"@
            ||| e == "m4a"@
            ||| e == "aac"@
            ||| e == "opus"@
            ||| e == "srt"@
            ||| e == "ass"@
            ||| e == "ssa"@
            ||| e == "vtt"@
        },
{
    let m = media_extensions();
    if m.contains(e) {
        let i = choose|i: int| 0 <= i < m.len() && m[i] == e;
        assert(m[i] == e);
    }
    assert(m[0] == "mp4"@);
    assert(m[1] == "mkv"@);
    assert(m[2] == "avi"@);
    assert(m[3] == "mov"@);
    assert(m[4] == "webm"@);
    assert(m[5] == "m4v"@);
    assert(m[6] == "wmv"@);
    assert(m[7] == "flv"@);
    assert(m[8] == "mp3"@);
    assert(m[9] == "wav"@);
    assert(m[10] == "flac"@);
    assert(m[11] == "ogg"@);
    assert(m[12] == "m4a"@);
    assert(m[13] == "aac"@);
    assert(m[14] == "opus"@);
    assert(m[15] == "srt"@);
    assert(m[16] == "ass"@);
    assert(m[17] == "ssa"@);
    assert(m[18] == "vtt"@);
}

/// Whether a file extension names a media file: its lowercase form is one
/// of the listed extensions.
pub fn is_media_extension(ext: &str) -> (r: bool)
    ensures
        r == media_extensions().contains(lowercase(ext@)),
        r == ({
            let l = lowercase(ext@);
                ||| l == "mp4"@
                ||| l == "mkv"@
                ||| l == "avi"@
                ||| l == "mov"@
                ||| l == "webm"@
                ||| l == "m4v"@
                ||| l == "wmv"@
                ||| l == "flv"@
                ||| l == "mp3"@
                ||| l == "wav"@
                ||| l == "flac"@
                ||| l == "ogg"@
                ||| l == "m4a"@
                ||| l == "aac"@
                ||| l == "opus"@
                ||| l == "srt"@
                ||| l == "ass"@
                ||| l == "ssa"@
                ||| l == "vtt"@
        }),
{
    proof {
        lemma_media_extensions_listed(lowercase(ext@));
    }
    let lower = to_lowercase(ext);
    let list = media_extension_list();
    let n = list.len();
    let mut i: usize = 0;
    while i < n
        invariant
            n == list@.len(),
            n == media_extensions().len(),
            i <= n,
            lower@ == lowercase(ext@),
            forall|j: int| 0 <= j < list@.len() ==> (#[trigger] list@[j])@ == media_extensions()[j],
            forall|j: int| 0 <= j < i ==> media_extensions()[j] != lower@,
        decreases n - i,
    {
        if str_eq(lower.as_str(), list[i]) {
            assert(media_extensions()[i as int] == lower@);
            return true;
        }
        i = i + 1;
    }
    false
}

/// Whether a scanned path names a media file: it has an extension, and that
/// extension names a media file.
pub fn is_media_path(path: &str) -> (r: bool)
    ensures
        r == match path_extension(path@) {
            Some(ext) => media_extensions().contains(lowercase(ext)),
            None => false,
        },
{
    match extension_of(path) {
        Some(ext) => is_media_extension(ext.as_str()),
        None => false,
    }
}

} // verus!
