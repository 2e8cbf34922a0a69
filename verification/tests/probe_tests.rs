use media_master::codec::StreamKind;
use media_master::probe::{is_media_extension, is_media_path, probe_arguments, probe_result, stream_selector};

#[test]
fn selectors() {
    assert_eq!(stream_selector(StreamKind::Video), "v:0");
    assert_eq!(stream_selector(StreamKind::Audio), "a:0");
    assert_eq!(stream_selector(StreamKind::Subtitle), "s:0");
}

#[test]
fn ffprobe_arguments() {
    let args = probe_arguments(StreamKind::Audio, "/media/film.mkv");
    assert_eq!(
        args,
        vec![
            "-v",
            "error",
            "-select_streams",
            "a:0",
            "-show_entries",
            "stream=codec_name",
            "-of",
            "default=noprint_wrappers=1:nokey=1",
            "/media/film.mkv",
        ]
    );
}

#[test]
fn probe_results() {
    assert_eq!(probe_result(None), "Invalid");
    assert_eq!(probe_result(Some(Vec::new())), "None");
    assert_eq!(probe_result(Some(b"  \n\t ".to_vec())), "None");
    assert_eq!(probe_result(Some(b"h264\n".to_vec())), "h264");
    assert_eq!(probe_result(Some(b"  aac  \n".to_vec())), "aac");
    assert_eq!(probe_result(Some(b"hevc\r\nsomething else\n".to_vec())), "hevc");
    assert_eq!(probe_result(Some(vec![0x66, 0xff, 0x6f])), "f\u{fffd}o");
}

#[test]
fn media_extensions() {
    assert!(is_media_extension("mkv"));
    assert!(is_media_extension("MKV"));
    assert!(is_media_extension("Mp4"));
    assert!(is_media_extension("vtt"));
    assert!(is_media_extension("ssa"));
    assert!(!is_media_extension("txt"));
    assert!(!is_media_extension(""));
    assert!(!is_media_extension("mkv "));
}

#[test]
fn media_paths() {
    assert!(is_media_path("/home/user/video.MKV"));
    assert!(is_media_path("clip.mp3"));
    assert!(is_media_path("/a/b.c/d.flac"));
    assert!(!is_media_path("/home/user/mkv"));
    assert!(!is_media_path("/home/user/notes.txt"));
    assert!(!is_media_path("/a/b.mkv/readme"));
    assert!(!is_media_path(".mkv"));
}

#[test]
fn probe_results_with_unicode_spaces() {
    assert_eq!(probe_result(Some("\u{3000}\u{a0}\n".as_bytes().to_vec())), "None");
    assert_eq!(probe_result(Some("\u{2003}opus\u{2003}\r\nflac".as_bytes().to_vec())), "opus\u{2003}");
}
