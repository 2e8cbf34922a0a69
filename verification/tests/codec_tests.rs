use media_master::codec::{codec_choice, codec_choices, codec_count, friendly_name, StreamKind};

#[test]
fn friendly_names_of_known_codecs() {
    assert_eq!(friendly_name("libx264"), "x264");
    assert_eq!(friendly_name("libx265"), "x265");
    assert_eq!(friendly_name("libvpx-vp9"), "VP9");
    assert_eq!(friendly_name("libaom-av1"), "AV1");
    assert_eq!(friendly_name("libmp3lame"), "MP3");
    assert_eq!(friendly_name("libopus"), "Opus");
    assert_eq!(friendly_name("pcm_s16le"), "WAV");
    assert_eq!(friendly_name("mov_text"), "MP4 Sub");
}

#[test]
fn friendly_name_keeps_other_names() {
    assert_eq!(friendly_name("copy"), "copy");
    assert_eq!(friendly_name("h264"), "h264");
    assert_eq!(friendly_name("None"), "None");
    assert_eq!(friendly_name(""), "");
    assert_eq!(friendly_name("LIBX264"), "LIBX264");
}

#[test]
fn codec_lists_in_order() {
    assert_eq!(
        codec_choices(StreamKind::Video),
        vec!["copy", "libx264", "libx265", "libvpx-vp9", "libaom-av1", "mpeg4"]
    );
    assert_eq!(
        codec_choices(StreamKind::Audio),
        vec!["copy", "aac", "libmp3lame", "libopus", "flac", "pcm_s16le"]
    );
    assert_eq!(
        codec_choices(StreamKind::Subtitle),
        vec!["copy", "mov_text", "srt", "ass", "webvtt"]
    );
}

#[test]
fn codec_choice_by_position() {
    assert_eq!(codec_count(StreamKind::Video), 6);
    assert_eq!(codec_count(StreamKind::Audio), 6);
    assert_eq!(codec_count(StreamKind::Subtitle), 5);
    assert_eq!(codec_choice(StreamKind::Video, 5), "mpeg4");
    assert_eq!(codec_choice(StreamKind::Audio, 3), "libopus");
    assert_eq!(codec_choice(StreamKind::Subtitle, 0), "copy");
}
