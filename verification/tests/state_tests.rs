use media_master::codec::StreamKind;
use media_master::state::{status_text, FileStatus, MyApp, ProgressMsg};

fn app_with_files() -> MyApp {
    let mut app = MyApp::new();
    app.add_single_file("/m/film.mkv".to_string(), "h264".into(), "aac".into(), "subrip".into());
    app.add_single_file("/m/song.mp3".to_string(), "None".into(), "mp3".into(), "None".into());
    app.add_single_file("/m/movie.mp4".to_string(), "hevc".into(), "None".into(), "None".into());
    app
}

#[test]
fn fresh_state() {
    let app = MyApp::new();
    assert!(app.files().is_empty());
    assert_eq!(app.crf(), 23);
    assert_eq!(app.audio_bitrate(), "192k");
    assert_eq!(app.threads(), 0);
    assert!(!app.replace_original());
    assert!(!app.is_converting());
    assert_eq!(app.default_codec(StreamKind::Video), "copy");
    assert_eq!(app.default_codec(StreamKind::Audio), "copy");
    assert_eq!(app.default_codec(StreamKind::Subtitle), "copy");
}

#[test]
fn adding_files() {
    let app = app_with_files();
    assert_eq!(app.files().len(), 3);
    let f = &app.files()[0];
    assert_eq!(f.full_path, "/m/film.mkv");
    assert_eq!(f.file_name, "film.mkv");
    assert_eq!(f.video_codec, "h264");
    assert_eq!(f.new_video_codec, "copy");
    assert_eq!(f.new_audio_codec, "copy");
    assert_eq!(f.new_subtitle_type, "copy");
    assert_eq!(f.status, FileStatus::Idle);
    let g = &app.files()[1];
    assert_eq!(g.file_name, "song.mp3");
    assert_eq!(g.new_video_codec, "None");
    assert_eq!(g.new_audio_codec, "copy");
    assert_eq!(g.new_subtitle_type, "None");
    assert!(!g.has_stream(StreamKind::Video));
    assert!(g.has_stream(StreamKind::Audio));
}

#[test]
fn rejected_files() {
    let mut app = MyApp::new();
    app.add_single_file("/m/a.mkv".into(), "Invalid".into(), "aac".into(), "None".into());
    app.add_single_file("/m/b.mkv".into(), "None".into(), "None".into(), "None".into());
    assert!(app.files().is_empty());
    app.add_single_file("/m/c.srt".into(), "None".into(), "None".into(), "subrip".into());
    assert_eq!(app.files().len(), 1);
    assert_eq!(app.files()[0].new_subtitle_type, "copy");
}

#[test]
fn new_files_take_current_defaults() {
    let mut app = MyApp::new();
    app.select_default_codec(StreamKind::Video, 1);
    app.add_single_file("/m/x.mkv".into(), "h264".into(), "None".into(), "None".into());
    assert_eq!(app.files()[0].new_video_codec, "libx264");
    assert_eq!(app.files()[0].new_audio_codec, "None");
}

#[test]
fn default_codec_reaches_every_present_stream() {
    let mut app = app_with_files();
    app.select_default_codec(StreamKind::Audio, 3);
    assert_eq!(app.default_codec(StreamKind::Audio), "libopus");
    assert_eq!(app.files()[0].new_audio_codec, "libopus");
    assert_eq!(app.files()[1].new_audio_codec, "libopus");
    assert_eq!(app.files()[2].new_audio_codec, "None");
    assert_eq!(app.files()[0].new_video_codec, "copy");
}

#[test]
fn file_codec_choice() {
    let mut app = app_with_files();
    app.select_file_codec(0, StreamKind::Video, 2);
    assert_eq!(app.files()[0].new_video_codec, "libx265");
    assert_eq!(app.files()[2].new_video_codec, "copy");
    app.select_file_codec(1, StreamKind::Video, 2);
    assert_eq!(app.files()[1].new_video_codec, "None");
    assert_eq!(app.files()[0].target_codec(StreamKind::Video), "libx265");
    assert_eq!(app.files()[0].source_codec(StreamKind::Video), "h264");
}

#[test]
fn numeric_settings_are_clamped() {
    let mut app = MyApp::new();
    app.set_crf(70);
    assert_eq!(app.crf(), 51);
    app.set_crf(-3);
    assert_eq!(app.crf(), 0);
    app.set_crf(30);
    assert_eq!(app.crf(), 30);
    app.set_threads(100);
    assert_eq!(app.threads(), 64);
    app.set_threads(-1);
    assert_eq!(app.threads(), 0);
    app.set_threads(8);
    assert_eq!(app.threads(), 8);
    app.set_audio_bitrate("320k".to_string());
    assert_eq!(app.audio_bitrate(), "320k");
    app.set_replace_original(true);
    assert!(app.replace_original());
}

#[test]
fn removing_and_clearing() {
    let mut app = app_with_files();
    app.remove_file(1);
    assert_eq!(app.files().len(), 2);
    assert_eq!(app.files()[0].file_name, "film.mkv");
    assert_eq!(app.files()[1].file_name, "movie.mp4");
    app.clear_all();
    assert!(app.files().is_empty());
}

#[test]
fn conversion_schedules_idle_and_failed_files() {
    let mut app = app_with_files();
    app.set_crf(30);
    app.set_threads(4);
    app.set_replace_original(true);
    app.apply_progress(ProgressMsg::Finished(1));
    app.apply_progress(ProgressMsg::Failed(2, "boom".to_string()));
    let job = app.start_conversion().expect("a job");
    assert!(app.is_converting());
    assert_eq!(job.tasks.len(), 2);
    assert_eq!(job.tasks[0].index, 0);
    assert_eq!(job.tasks[0].full_path, "/m/film.mkv");
    assert_eq!(job.tasks[0].file_name, "film.mkv");
    assert_eq!(job.tasks[0].crf, "30");
    assert_eq!(job.tasks[0].threads, "4");
    assert_eq!(job.tasks[1].index, 2);
    assert_eq!(job.tasks[1].video_codec, "copy");
    assert_eq!(job.tasks[1].audio_codec, "None");
    assert_eq!(job.audio_bitrate, "192k");
    assert!(job.replace_original);
    assert!(app.start_conversion().is_none());
}

#[test]
fn progress_reports() {
    let mut app = app_with_files();
    let _ = app.start_conversion();
    assert!(app.apply_progress(ProgressMsg::Started(0)).is_none());
    assert_eq!(app.files()[0].status, FileStatus::Processing);
    assert!(app.apply_progress(ProgressMsg::Finished(0)).is_none());
    assert_eq!(app.files()[0].status, FileStatus::Done);
    let report = app.apply_progress(ProgressMsg::Failed(1, "bad input".to_string()));
    assert_eq!(
        report.as_deref(),
        Some("--- FFMPEG FAILURE LOG ---\nbad input\n--------------------------")
    );
    assert_eq!(app.files()[1].status, FileStatus::Failed);
    assert_eq!(app.files()[2].status, FileStatus::Idle);
    assert!(app.is_converting());
    assert!(app.apply_progress(ProgressMsg::AllDone).is_none());
    assert!(!app.is_converting());
    let job = app.start_conversion().expect("a job");
    let indices: Vec<usize> = job.tasks.iter().map(|t| t.index).collect();
    assert_eq!(indices, vec![1, 2]);
}

#[test]
fn status_texts() {
    assert_eq!(status_text(FileStatus::Idle), "Idle");
    assert_eq!(status_text(FileStatus::Processing), "-");
    assert_eq!(status_text(FileStatus::Done), "\u{2714}");
    assert_eq!(status_text(FileStatus::Failed), "\u{2718}");
}

#[test]
fn removing_the_file_just_added() {
    let mut app = app_with_files();
    let before: Vec<String> = app.files().iter().map(|f| f.full_path.clone()).collect();
    app.add_single_file("/m/extra.avi".into(), "mpeg4".into(), "mp3".into(), "None".into());
    assert_eq!(app.files().len(), 4);
    app.remove_file(3);
    let after: Vec<String> = app.files().iter().map(|f| f.full_path.clone()).collect();
    assert_eq!(before, after);
}

#[test]
fn last_default_choice_wins() {
    let mut app = app_with_files();
    app.select_default_codec(StreamKind::Video, 1);
    app.select_default_codec(StreamKind::Video, 4);
    assert_eq!(app.default_codec(StreamKind::Video), "libaom-av1");
    assert_eq!(app.files()[0].new_video_codec, "libaom-av1");
    assert_eq!(app.files()[1].new_video_codec, "None");
    assert_eq!(app.files()[2].new_video_codec, "libaom-av1");
}

#[test]
fn repicking_the_current_default_keeps_file_choices() {
    let mut app = app_with_files();
    app.select_file_codec(0, StreamKind::Video, 1);
    assert_eq!(app.files()[0].new_video_codec, "libx264");
    app.select_default_codec(StreamKind::Video, 0);
    assert_eq!(app.default_codec(StreamKind::Video), "copy");
    assert_eq!(app.files()[0].new_video_codec, "libx264");
    app.select_default_codec(StreamKind::Video, 2);
    assert_eq!(app.files()[0].new_video_codec, "libx265");
}

#[test]
fn no_edits_while_converting() {
    let mut app = app_with_files();
    let job = app.start_conversion().expect("a job");
    assert_eq!(job.tasks.len(), 3);
    app.clear_all();
    app.remove_file(0);
    app.add_single_file("/m/late.mkv".into(), "h264".into(), "None".into(), "None".into());
    app.select_default_codec(StreamKind::Audio, 2);
    app.select_file_codec(0, StreamKind::Video, 3);
    app.set_crf(40);
    app.set_threads(12);
    app.set_audio_bitrate("96k".to_string());
    app.set_replace_original(true);
    assert_eq!(app.files().len(), 3);
    assert_eq!(app.files()[0].file_name, "film.mkv");
    assert_eq!(app.files()[0].new_video_codec, "copy");
    assert_eq!(app.default_codec(StreamKind::Audio), "copy");
    assert_eq!(app.crf(), 23);
    assert_eq!(app.threads(), 0);
    assert_eq!(app.audio_bitrate(), "192k");
    assert!(!app.replace_original());
    for t in &job.tasks {
        assert!(app.apply_progress(ProgressMsg::Started(t.index)).is_none());
        assert!(app.apply_progress(ProgressMsg::Finished(t.index)).is_none());
    }
    app.apply_progress(ProgressMsg::AllDone);
    assert!(app.files().iter().all(|f| f.status == FileStatus::Done));
    app.clear_all();
    assert!(app.files().is_empty());
}
