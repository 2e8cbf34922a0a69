use media_master::codec::StreamKind;
use media_master::convert::{plan_task, settle_task, FileAction, RunOutcome};
use media_master::state::{ConversionTask, MyApp, ProgressMsg};

fn task(video: &str, audio: &str, subtitle: &str) -> ConversionTask {
    ConversionTask {
        index: 3,
        full_path: "/m/film.mkv".to_string(),
        video_codec: video.to_string(),
        audio_codec: audio.to_string(),
        subtitle_codec: subtitle.to_string(),
        file_name: "film.mkv".to_string(),
        crf: "23".to_string(),
        threads: "0".to_string(),
    }
}

#[test]
fn copy_everything() {
    let plan = plan_task(&task("copy", "copy", "copy"), "192k");
    assert_eq!(plan.temp_output, "/m/film.mkv_tmp_proc.mkv");
    assert_eq!(plan.kept_output, "/m/film.mkv_new.mkv");
    assert_eq!(
        plan.arguments,
        vec![
            "-i", "/m/film.mkv", "-map", "0", "-threads", "0", "-c:v", "copy", "-c:a", "copy",
            "-c:s", "copy", "-y", "/m/film.mkv_tmp_proc.mkv",
        ]
    );
}

#[test]
fn reencode_video_and_audio() {
    let plan = plan_task(&task("libx265", "aac", "None"), "256k");
    assert_eq!(
        plan.arguments,
        vec![
            "-i",
            "/m/film.mkv",
            "-map",
            "0",
            "-threads",
            "0",
            "-c:v",
            "libx265",
            "-crf",
            "23",
            "-vf",
            "scale=trunc(iw/2)*2:trunc(ih/2)*2",
            "-c:a",
            "aac",
            "-b:a",
            "256k",
            "-ac",
            "6",
            "-af",
            "aresample=async=1,aformat=channel_layouts=5.1",
            "-sn",
            "-y",
            "/m/film.mkv_tmp_proc.mkv",
        ]
    );
}

#[test]
fn opus_gets_channel_mapping() {
    let plan = plan_task(&task("None", "libopus", "mov_text"), "128k");
    assert_eq!(
        plan.arguments,
        vec![
            "-i",
            "/m/film.mkv",
            "-map",
            "0",
            "-threads",
            "0",
            "-c:v",
            "None",
            "-c:a",
            "libopus",
            "-b:a",
            "128k",
            "-ac",
            "6",
            "-af",
            "aresample=async=1,aformat=channel_layouts=5.1",
            "-mapping_family",
            "1",
            "-c:s",
            "mov_text",
            "-y",
            "/m/film.mkv_tmp_proc.mkv",
        ]
    );
}

#[test]
fn plan_from_a_started_job() {
    let mut app = MyApp::new();
    app.add_single_file("/videos/a.mp4".into(), "h264".into(), "aac".into(), "None".into());
    app.select_default_codec(StreamKind::Video, 1);
    app.set_crf(18);
    let job = app.start_conversion().unwrap();
    let plan = plan_task(&job.tasks[0], job.audio_bitrate.as_str());
    assert_eq!(plan.temp_output, "/videos/a.mp4_tmp_proc.mkv");
    assert_eq!(&plan.arguments[6..10], &["-c:v", "libx264", "-crf", "18"]);
}

#[test]
fn success_replacing_original() {
    let t = task("copy", "copy", "copy");
    let plan = plan_task(&t, "192k");
    let s = settle_task(&t, &plan, true, RunOutcome::Succeeded);
    assert!(matches!(s.report, ProgressMsg::Finished(3)));
    assert!(!s.report_first);
    assert_eq!(s.actions.len(), 2);
    assert!(matches!(&s.actions[0], FileAction::Remove(p) if p == "/m/film.mkv"));
    assert!(matches!(&s.actions[1], FileAction::Rename(a, b) if a == "/m/film.mkv_tmp_proc.mkv" && b == "/m/film.mkv"));
}

#[test]
fn success_keeping_original() {
    let t = task("copy", "copy", "copy");
    let plan = plan_task(&t, "192k");
    let s = settle_task(&t, &plan, false, RunOutcome::Succeeded);
    assert!(matches!(s.report, ProgressMsg::Finished(3)));
    assert_eq!(s.actions.len(), 1);
    assert!(matches!(&s.actions[0], FileAction::Rename(a, b) if a == "/m/film.mkv_tmp_proc.mkv" && b == "/m/film.mkv_new.mkv"));
}

#[test]
fn ffmpeg_failure() {
    let t = task("copy", "copy", "copy");
    let plan = plan_task(&t, "192k");
    let s = settle_task(
        &t,
        &plan,
        true,
        RunOutcome::Failed { stdout: b"out".to_vec(), stderr: vec![b'e', 0xff] },
    );
    match &s.report {
        ProgressMsg::Failed(i, log) => {
            assert_eq!(*i, 3);
            assert_eq!(log, "STDOUT:\nout\nSTDERR:\ne\u{fffd}");
        }
        _ => panic!("expected a failure"),
    }
    assert_eq!(s.actions.len(), 1);
    assert!(matches!(&s.actions[0], FileAction::Remove(p) if p == "/m/film.mkv_tmp_proc.mkv"));
    assert!(s.report_first);
}

#[test]
fn ffmpeg_not_run() {
    let t = task("copy", "copy", "copy");
    let plan = plan_task(&t, "192k");
    let s = settle_task(&t, &plan, false, RunOutcome::NotRun("No such file or directory".to_string()));
    assert!(matches!(&s.report, ProgressMsg::Failed(3, log) if log == "No such file or directory"));
    assert!(matches!(&s.actions[0], FileAction::Remove(p) if p == "/m/film.mkv_tmp_proc.mkv"));
}

#[test]
fn outputs_differ_from_the_source() {
    let t = task("copy", "copy", "copy");
    let plan = plan_task(&t, "192k");
    assert_ne!(plan.temp_output, t.full_path);
    assert_ne!(plan.kept_output, t.full_path);
    assert_ne!(plan.temp_output, plan.kept_output);
}
