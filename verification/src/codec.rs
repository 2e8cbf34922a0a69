//! Codec names: the choices offered for each stream kind and the short
//! names shown for them.

use vstd::prelude::*;
use crate::text::str_eq;

verus! {

/// The short display name of an ffmpeg codec name.
pub open spec fn friendly_spec(codec: Seq<char>) -> Seq<char> {
    if codec == "libx264"@ {
        "x264"@
    } else if codec == "libx265"@ {
        "x265"@
    } else if codec == "libvpx-vp9"@ {
        "VP9"@
    } else if codec == "libaom-av1"@ {
        "AV1"@
    } else if codec == "libmp3lame"@ {
        "MP3"@
    } else if codec == "libopus"@ {
        "Opus"@
    } else if codec == "pcm_s16le"@ {
        "WAV"@
    } else if codec == "mov_text"@ {
        "MP4 Sub"@
    } else {
        codec
    }
}

/// Turns an ffmpeg codec name into the name shown to the user; names
/// without a short form are shown as they are.
pub fn friendly_name(codec: &str) -> (r: &str)
    ensures
        r@ == friendly_spec(codec@),
{
    if str_eq(codec, "libx264") {
        "x264"
    } else if str_eq(codec, "libx265") {
        "x265"
    } else if str_eq(codec, "libvpx-vp9") {
        "VP9"
    } else if str_eq(codec, "libaom-av1") {
        "AV1"
    } else if str_eq(codec, "libmp3lame") {
        "MP3"
    } else if str_eq(codec, "libopus") {
        "Opus"
    } else if str_eq(codec, "pcm_s16le") {
        "WAV"
    } else if str_eq(codec, "mov_text") {
        "MP4 Sub"
    } else {
        codec
    }
}


/// The three kinds of stream a media file may carry.
#[derive(PartialEq, Eq, Structural, Clone, Copy, Debug)]
pub enum StreamKind {
    Video,
    Audio,
    Subtitle,
}

/// The codecs offered as conversion targets for each kind of stream.
pub open spec fn codec_list(kind: StreamKind) -> Seq<Seq<char>> {
    match kind {
        StreamKind::Video => seq![
            "copy"@,
            "libx264"@,
            "libx265"@,
            "libvpx-vp9"@,
            "libaom-av1"@,
            "mpeg4"@,
        ],
        StreamKind::Audio => seq![
            "copy"@,
            "aac"@,
            "libmp3lame"@,
            "libopus"@,
            "flac"@,
            "pcm_s16le"@,
        ],
        StreamKind::Subtitle => seq!["copy"@, "mov_text"@, "srt"@, "ass"@, "webvtt"@],
    }
}

/// The codec name that stands for "this stream is absent".
pub open spec fn absent() -> Seq<char> {
    "None"@
}

/// Every list of target codecs starts with `copy` and never offers the
/// name that marks an absent stream.
pub proof fn lemma_codec_lists(kind: StreamKind)
    ensures
        codec_list(kind).len() > 0,
        codec_list(kind)[0] == "copy"@,
        !codec_list(kind).contains(absent()),
{
    reveal_strlit("None");
    reveal_strlit("copy");
    reveal_strlit("libx264");
    reveal_strlit("libx265");
    reveal_strlit("libvpx-vp9");
    reveal_strlit("libaom-av1");
    reveal_strlit("mpeg4");
    reveal_strlit("aac");
    reveal_strlit("libmp3lame");
    reveal_strlit("libopus");
    reveal_strlit("flac");
    reveal_strlit("pcm_s16le");
    reveal_strlit("mov_text");
    reveal_strlit("srt");
    reveal_strlit("ass");
    reveal_strlit("webvtt");
    if codec_list(kind).contains(absent()) {
        let i = choose|i: int| 0 <= i < codec_list(kind).len() && codec_list(kind)[i] == absent();
        assert(codec_list(kind)[i].len() == absent().len());
        assert(codec_list(kind)[i][0] == absent()[0]);
    }
}

/// The number of codecs offered for a kind of stream.
pub fn codec_count(kind: StreamKind) -> (r: usize)
    ensures
        r == codec_list(kind).len(),
{
    match kind {
        StreamKind::Video => 6,
        StreamKind::Audio => 6,
        StreamKind::Subtitle => 5,
    }
}

/// The codec at position `i` of the list offered for `kind`.
pub fn codec_choice(kind: StreamKind, i: usize) -> (r: &'static str)
    requires
        i < codec_list(kind).len(),
    ensures
        r@ == codec_list(kind)[i as int],
{
    match kind {
        StreamKind::Video => {
            if i == 0 { "copy" } else if i == 1 { "libx264" } else if i == 2 { "libx265" }
            else if i == 3 { "libvpx-vp9" } else if i == 4 { "libaom-av1" } else { "mpeg4" }
        },
        StreamKind::Audio => {
            if i == 0 { "copy" } else if i == 1 { "aac" } else if i == 2 { "libmp3lame" }
            else if i == 3 { "libopus" } else if i == 4 { "flac" } else { "pcm_s16le" }
        },
        StreamKind::Subtitle => {
            if i == 0 { "copy" } else if i == 1 { "mov_text" } else if i == 2 { "srt" }
            else if i == 3 { "ass" } else { "webvtt" }
        },
    }
}

/// All the codecs offered for a kind of stream, in the order in which
/// they are listed.
pub fn codec_choices(kind: StreamKind) -> (r: Vec<&'static str>)
    ensures
        r@.len() == codec_list(kind).len(),
        forall|i: int| 0 <= i < r@.len() ==> (#[trigger] r@[i])@ == codec_list(kind)[i],
{
    let n = codec_count(kind);
    let mut r: Vec<&'static str> = Vec::new();
    let mut i: usize = 0;
    while i < n
        invariant
            n == codec_list(kind).len(),
            i <= n,
            r@.len() == i,
            forall|j: int| 0 <= j < i ==> (#[trigger] r@[j])@ == codec_list(kind)[j],
        decreases n - i,
    {
        r.push(codec_choice(kind, i));
        i = i + 1;
    }
    r
}

/// The offered codecs, in order: for video copy, libx264, libx265,
/// libvpx-vp9, libaom-av1 and mpeg4; for audio copy, aac, libmp3lame,
/// libopus, flac and pcm_s16le; for subtitles copy, mov_text, srt, ass and
/// webvtt.
pub proof fn lemma_offered_codecs()
    ensures
        codec_list(StreamKind::Video).len() == 6,
        codec_list(StreamKind::Video)[0] == "copy"@,
        codec_list(StreamKind::Video)[1] == "libx264"@,
        codec_list(StreamKind::Video)[2] == "libx265"@,
        codec_list(StreamKind::Video)[3] == "libvpx-vp9"@,
        codec_list(StreamKind::Video)[4] == "libaom-av1"@,
        codec_list(StreamKind::Video)[5] == "mpeg4"@,
        codec_list(StreamKind::Audio).len() == 6,
        codec_list(StreamKind::Audio)[0] == "copy"@,
        codec_list(StreamKind::Audio)[1] == "aac"@,
        codec_list(StreamKind::Audio)[2] == "libmp3lame"@,
        codec_list(StreamKind::Audio)[3] == "libopus"@,
        codec_list(StreamKind::Audio)[4] == "flac"@,
        codec_list(StreamKind::Audio)[5] == "pcm_s16le"@,
        codec_list(StreamKind::Subtitle).len() == 5,
        codec_list(StreamKind::Subtitle)[0] == "copy"@,
        codec_list(StreamKind::Subtitle)[1] == "mov_text"@,
        codec_list(StreamKind::Subtitle)[2] == "srt"@,
        codec_list(StreamKind::Subtitle)[3] == "ass"@,
        codec_list(StreamKind::Subtitle)[4] == "webvtt"@,
        absent() == "None"@,
{
}

/// The short names: libx264 shows as x264, libx265 as x265, libvpx-vp9 as
/// VP9, libaom-av1 as AV1, libmp3lame as MP3, libopus as Opus, pcm_s16le as
/// WAV and mov_text as MP4 Sub; every other name shows as it is.
pub proof fn lemma_friendly_names(c: Seq<char>)
    ensures
        friendly_spec("libx264"@) == "x264"@,
        friendly_spec("libx265"@) == "x265"@,
        friendly_spec("libvpx-vp9"@) == "VP9"@,
        friendly_spec("libaom-av1"@) == "AV1"@,
        friendly_spec("libmp3lame"@) == "MP3"@,
        friendly_spec("libopus"@) == "Opus"@,
        friendly_spec("pcm_s16le"@) == "WAV"@,
        friendly_spec("mov_text"@) == "MP4 Sub"@,
        c != "libx264"@ && c != "libx265"@ && c != "libvpx-vp9"@ && c != "libaom-av1"@ && c != "libmp3lame"@
            && c != "libopus"@ && c != "pcm_s16le"@ && c != "mov_text"@ ==> friendly_spec(c) == c,
{
    reveal_strlit("libx264");
    reveal_strlit("libx265");
    reveal_strlit("libvpx-vp9");
    reveal_strlit("libaom-av1");
    reveal_strlit("libmp3lame");
    reveal_strlit("libopus");
    reveal_strlit("pcm_s16le");
    reveal_strlit("mov_text");
    assert("libx265"@[6] != "libx264"@[6]);
    assert("libvpx-vp9"@.len() != "libx264"@.len());
    assert("libvpx-vp9"@.len() != "libx265"@.len());
    assert("libaom-av1"@.len() != "libx264"@.len());
    assert("libaom-av1"@.len() != "libx265"@.len());
    assert("libaom-av1"@[3] != "libvpx-vp9"@[3]);
    assert("libmp3lame"@.len() != "libx264"@.len());
    assert("libmp3lame"@.len() != "libx265"@.len());
    assert("libmp3lame"@[3] != "libvpx-vp9"@[3]);
    assert("libmp3lame"@[3] != "libaom-av1"@[3]);
    assert("libopus"@[3] != "libx264"@[3]);
    assert("libopus"@[3] != "libx265"@[3]);
    assert("libopus"@.len() != "libvpx-vp9"@.len());
    assert("libopus"@.len() != "libaom-av1"@.len());
    assert("libopus"@.len() != "libmp3lame"@.len());
    assert("pcm_s16le"@.len() != "libx264"@.len());
    assert("pcm_s16le"@.len() != "libx265"@.len());
    assert("pcm_s16le"@.len() != "libvpx-vp9"@.len());
    assert("pcm_s16le"@.len() != "libaom-av1"@.len());
    assert("pcm_s16le"@.len() != "libmp3lame"@.len());
    assert("pcm_s16le"@.len() != "libopus"@.len());
    assert("mov_text"@.len() != "libx264"@.len());
    assert("mov_text"@.len() != "libx265"@.len());
    assert("mov_text"@.len() != "libvpx-vp9"@.len());
    assert("mov_text"@.len() != "libaom-av1"@.len());
    assert("mov_text"@.len() != "libmp3lame"@.len());
    assert("mov_text"@.len() != "libopus"@.len());
    assert("mov_text"@.len() != "pcm_s16le"@.len());
}

} // verus!
