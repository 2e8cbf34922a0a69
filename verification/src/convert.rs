//! Running one conversion task: the `ffmpeg` command line, the output
//! names, and what is done with the files and reported once `ffmpeg` has
//! run.

use vstd::prelude::*;
use crate::state::{ConversionTask, TaskView, ProgressMsg};
use crate::text::{str_eq, string_views, push_text};
use crate::std_calls::{
    path_with_file_name, path_file_name, plain_component, utf8_lossy, with_file_name, decode_lossy,
};

verus! {

/// Whether a target codec means re-encoding: it is neither `copy` nor the
/// mark of an absent stream.
pub open spec fn reencodes(codec: Seq<char>) -> bool {
    codec != "copy"@ && codec != "None"@
}

/// The video filter that rounds the frame size down to even numbers.
pub open spec fn even_size_filter() -> Seq<char> {
    "scale=trunc(iw/2)*2:trunc(ih/2)*2"@
}

/// The audio filter that resamples to 5.1 channels.
pub open spec fn surround_filter() -> Seq<char> {
    "aresample=async=1,aformat=channel_layouts=5.1"@
}

/// The video part of the command line.
pub open spec fn video_args(t: TaskView) -> Seq<Seq<char>> {
    seq!["-c:v"@, t.video_codec] + if reencodes(t.video_codec) {
        seq!["-crf"@, t.crf, "-vf"@, even_size_filter()]
    } else {
        Seq::empty()
    }
}

/// The audio part of the command line: re-encoded audio gets the bitrate,
/// six channels and the resampling filter, and Opus its channel mapping.
pub open spec fn audio_args(t: TaskView, bitrate: Seq<char>) -> Seq<Seq<char>> {
    seq!["-c:a"@, t.audio_codec] + if reencodes(t.audio_codec) {
        seq!["-b:a"@, bitrate, "-ac"@, "6"@, "-af"@, surround_filter()] + if t.audio_codec
            == "libopus"@ {
            seq!["-mapping_family"@, "1"@]
        } else {
            Seq::empty()
        }
    } else {
        Seq::empty()
    }
}

/// The subtitle part of the command line: an absent subtitle stream drops
/// subtitles, any other gets its target codec.
pub open spec fn subtitle_args(t: TaskView) -> Seq<Seq<char>> {
    if t.subtitle_codec == "None"@ {
        seq!["-sn"@]
    } else {
        seq!["-c:s"@, t.subtitle_codec]
    }
}

/// The arguments of the `ffmpeg` call (the program name not included) that
/// converts the file of a task into `output`, overwriting it.
pub open spec fn ffmpeg_args_spec(t: TaskView, bitrate: Seq<char>, output: Seq<char>) -> Seq<Seq<char>> {
    seq!["-i"@, t.full_path, "-map"@, "0"@, "-threads"@, t.threads] + video_args(t) + audio_args(
        t,
        bitrate,
    ) + subtitle_args(t) + seq!["-y"@, output]
}

/// The file that `ffmpeg` writes while it converts: beside the original,
/// named after it with `_tmp_proc.mkv` appended.
pub open spec fn temp_output_spec(t: TaskView) -> Seq<char> {
    path_with_file_name(t.full_path, t.file_name + "_tmp_proc.mkv"@)
}

/// Where a converted file goes when originals are kept: beside the
/// original, named after it with `_new.mkv` appended.
pub open spec fn kept_output_spec(t: TaskView) -> Seq<char> {
    path_with_file_name(t.full_path, t.file_name + "_new.mkv"@)
}

/// How to run one task.
pub struct TaskPlan {
    pub arguments: Vec<String>,
    pub temp_output: String,
    pub kept_output: String,
}

fn push_video_args(args: &mut Vec<String>, task: &ConversionTask)
    ensures
        string_views(final(args)@) == string_views(old(args)@) + video_args(task@),
{
    let ghost start = string_views(args@);
    push_text(args, "-c:v");
    push_text(args, task.video_codec.as_str());
    let v = task.video_codec.as_str();
    if !str_eq(v, "copy") && !str_eq(v, "None") {
        push_text(args, "-crf");
        push_text(args, task.crf.as_str());
        push_text(args, "-vf");
        push_text(args, "scale=trunc(iw/2)*2:trunc(ih/2)*2");
    }
    assert(string_views(args@) =~= start + video_args(task@));
}

fn push_audio_args(args: &mut Vec<String>, task: &ConversionTask, audio_bitrate: &str)
    ensures
        string_views(final(args)@) == string_views(old(args)@) + audio_args(task@, audio_bitrate@),
{
    let ghost start = string_views(args@);
    push_text(args, "-c:a");
    push_text(args, task.audio_codec.as_str());
    let a = task.audio_codec.as_str();
    if !str_eq(a, "copy") && !str_eq(a, "None") {
        push_text(args, "-b:a");
        push_text(args, audio_bitrate);
        push_text(args, "-ac");
        push_text(args, "6");
        push_text(args, "-af");
        push_text(args, "aresample=async=1,aformat=channel_layouts=5.1");
        let ghost mid = string_views(args@);
        if str_eq(a, "libopus") {
            push_text(args, "-mapping_family");
            push_text(args, "1");
        }
        assert(string_views(args@) =~= mid + (if task@.audio_codec == "libopus"@ {
            seq!["-mapping_family"@, "1"@]
        } else {
            Seq::empty()
        }));
    }
    assert(string_views(args@) =~= start + audio_args(task@, audio_bitrate@));
}

fn push_subtitle_args(args: &mut Vec<String>, task: &ConversionTask)
    ensures
        string_views(final(args)@) == string_views(old(args)@) + subtitle_args(task@),
{
    let ghost start = string_views(args@);
    if str_eq(task.subtitle_codec.as_str(), "None") {
        push_text(args, "-sn");
    } else {
        push_text(args, "-c:s");
        push_text(args, task.subtitle_codec.as_str());
    }
    assert(string_views(args@) =~= start + subtitle_args(task@));
}

proof fn lemma_suffixed_plain(f: Seq<char>, suffix: Seq<char>)
    requires
        plain_component(f),
        suffix.len() > 0,
        forall|i: int| 0 <= i < suffix.len() ==> suffix[i] != '/' && suffix[i] != '\\' && suffix[i] != ':',
    ensures
        plain_component(f + suffix),
{
    reveal_strlit(".");
    reveal_strlit("..");
    let g = f + suffix;
    assert(g.len() > 2 || g.len() <= 2);
    if g == "."@ {
        assert(g.len() == 1);
    }
    if g == ".."@ {
        assert(g.len() == 2);
        assert(f.len() == 1);
        assert(f[0] == g[0]);
        assert(f =~= "."@);
    }
    assert forall|i: int| 0 <= i < g.len() implies g[i] != '/' && g[i] != '\\' && g[i] != ':' by {
        if i >= f.len() {
            assert(g[i] == suffix[i - f.len()]);
        }
    }
}

/// Works out the `ffmpeg` arguments and the output names of a task. When
/// the task's file name is the final component of its path and is one
/// plain component, the temporary output, the kept output and the original
/// are three different paths: `ffmpeg` never writes over the file it reads.
pub fn plan_task(task: &ConversionTask, audio_bitrate: &str) -> (r: TaskPlan)
    ensures
        r.temp_output@ == temp_output_spec(task@),
        r.kept_output@ == kept_output_spec(task@),
        string_views(r.arguments@) == ffmpeg_args_spec(task@, audio_bitrate@, r.temp_output@),
        task@.file_name == path_file_name(task@.full_path) && plain_component(task@.file_name) ==> {
            &&& r.temp_output@ != task@.full_path
            &&& r.kept_output@ != task@.full_path
            &&& r.temp_output@ != r.kept_output@
        },
        plain_component(task@.file_name) ==> {
            &&& path_file_name(r.temp_output@) == task@.file_name + "_tmp_proc.mkv"@
            &&& path_file_name(r.kept_output@) == task@.file_name + "_new.mkv"@
        },
        string_views(r.arguments@).len() >= 13,
        string_views(r.arguments@)[1] == task@.full_path,
        string_views(r.arguments@)[4] == "-threads"@,
        string_views(r.arguments@)[5] == task@.threads,
        string_views(r.arguments@)[7] == task@.video_codec,
        string_views(r.arguments@).last() == r.temp_output@,
{
    proof {
        reveal_strlit("_tmp_proc.mkv");
        reveal_strlit("_new.mkv");
        if plain_component(task@.file_name) {
            lemma_suffixed_plain(task@.file_name, "_tmp_proc.mkv"@);
            lemma_suffixed_plain(task@.file_name, "_new.mkv"@);
        }
    }
    let mut temp_name = task.file_name.clone();
    temp_name.append("_tmp_proc.mkv");
    let temp_output = with_file_name(task.full_path.as_str(), temp_name.as_str());
    let mut kept_name = task.file_name.clone();
    kept_name.append("_new.mkv");
    let kept_output = with_file_name(task.full_path.as_str(), kept_name.as_str());
    let ghost t = task@;
    proof {
        if t.file_name == path_file_name(t.full_path) && plain_component(t.file_name) {
            assert(path_file_name(temp_output@) == temp_name@);
            assert(path_file_name(kept_output@) == kept_name@);
            assert(temp_name@.len() != t.file_name.len());
            assert(kept_name@.len() != t.file_name.len());
            assert(temp_name@.len() != kept_name@.len());
        }
    }

    let mut args: Vec<String> = Vec::new();
    push_text(&mut args, "-i");
    push_text(&mut args, task.full_path.as_str());
    push_text(&mut args, "-map");
    push_text(&mut args, "0");
    push_text(&mut args, "-threads");
    push_text(&mut args, task.threads.as_str());
    let ghost base = string_views(args@);
    assert(base =~= seq!["-i"@, t.full_path, "-map"@, "0"@, "-threads"@, t.threads]);
    push_video_args(&mut args, task);
    push_audio_args(&mut args, task, audio_bitrate);
    push_subtitle_args(&mut args, task);
    let ghost body = string_views(args@);
    push_text(&mut args, "-y");
    push_text(&mut args, temp_output.as_str());
    assert(string_views(args@) =~= body + seq!["-y"@, temp_output@]);
    proof {
        lemma_command_line_shape(t, audio_bitrate@, temp_output@);
    }
    TaskPlan { arguments: args, temp_output, kept_output }
}

/// How the `ffmpeg` call of a task ended.
pub enum RunOutcome {
    /// It ran and reported success.
    Succeeded,
    /// It ran and reported failure, with what it wrote to its standard
    /// output and standard error.
    Failed { stdout: Vec<u8>, stderr: Vec<u8> },
    /// It could not be run, with the error's text.
    NotRun(String),
}

/// A file operation to carry out after a task has run.
pub enum FileAction {
    /// Delete the file at this path.
    Remove(String),
    /// Move the file at the first path to the second.
    Rename(String, String),
}

/// The mathematical model of a [`FileAction`].
pub enum ActionView {
    Remove(Seq<char>),
    Rename(Seq<char>, Seq<char>),
}

impl View for FileAction {
    type V = ActionView;

    open spec fn view(&self) -> ActionView {
        match self {
            FileAction::Remove(p) => ActionView::Remove(p@),
            FileAction::Rename(from, to) => ActionView::Rename(from@, to@),
        }
    }
}

/// The models of a sequence of file actions.
pub open spec fn action_views(actions: Seq<FileAction>) -> Seq<ActionView> {
    actions.map_values(|a: FileAction| a@)
}

/// The file actions after a task has run. On success the converted file
/// replaces the original (which is deleted first) or, when originals are
/// kept, is moved to its own name; on failure the partial output is
/// deleted.
pub open spec fn settle_actions(
    original: Seq<char>,
    temp: Seq<char>,
    kept: Seq<char>,
    replace: bool,
    succeeded: bool,
) -> Seq<ActionView> {
    if succeeded {
        if replace {
            seq![ActionView::Remove(original), ActionView::Rename(temp, original)]
        } else {
            seq![ActionView::Rename(temp, kept)]
        }
    } else {
        seq![ActionView::Remove(temp)]
    }
}

/// The log reported for an `ffmpeg` run that failed.
pub open spec fn failure_log(stdout: Seq<u8>, stderr: Seq<u8>) -> Seq<char> {
    "STDOUT:\n"@ + utf8_lossy(stdout) + "\nSTDERR:\n"@ + utf8_lossy(stderr)
}

/// What is done and reported once a task has run.
pub struct Settlement {
    pub actions: Vec<FileAction>,
    pub report: ProgressMsg,
    /// Whether the report is sent before the actions are carried out: a
    /// failure is reported at once, a success only once the converted file
    /// is in place.
    pub report_first: bool,
}

/// Decides, from how `ffmpeg` ended, what to do with the files of a task
/// and what to report: success is reported as finished, anything else as
/// failed with a log (ffmpeg's output, or the error that kept it from
/// running).
pub fn settle_task(task: &ConversionTask, plan: &TaskPlan, replace_original: bool, outcome: RunOutcome) -> (r: Settlement)
    ensures
        action_views(r.actions@) == settle_actions(
            task@.full_path,
            plan.temp_output@,
            plan.kept_output@,
            replace_original,
            outcome is Succeeded,
        ),
        match outcome {
            RunOutcome::Succeeded => r.report == ProgressMsg::Finished(task.index),
            RunOutcome::Failed { stdout, stderr } => r.report matches ProgressMsg::Failed(i, log) && i
                == task.index && log@ == failure_log(stdout@, stderr@),
            RunOutcome::NotRun(error) => r.report matches ProgressMsg::Failed(i, log) && i == task.index
                && log@ == error@,
        },
        r.report_first == !(outcome is Succeeded),
{
    let succeeded = match outcome {
        RunOutcome::Succeeded => true,
        _ => false,
    };
    let mut actions: Vec<FileAction> = Vec::new();
    let report = match outcome {
        RunOutcome::Succeeded => {
            if replace_original {
                actions.push(FileAction::Remove(task.full_path.clone()));
                actions.push(FileAction::Rename(plan.temp_output.clone(), task.full_path.clone()));
            } else {
                actions.push(FileAction::Rename(plan.temp_output.clone(), plan.kept_output.clone()));
            }
            ProgressMsg::Finished(task.index)
        },
        RunOutcome::Failed { stdout, stderr } => {
            let mut log = "STDOUT:\n".to_string();
            let out_text = decode_lossy(stdout.as_slice());
            log.append(out_text.as_str());
            log.append("\nSTDERR:\n");
            let err_text = decode_lossy(stderr.as_slice());
            log.append(err_text.as_str());
            actions.push(FileAction::Remove(plan.temp_output.clone()));
            ProgressMsg::Failed(task.index, log)
        },
        RunOutcome::NotRun(error) => {
            actions.push(FileAction::Remove(plan.temp_output.clone()));
            ProgressMsg::Failed(task.index, error)
        },
    };
    assert(action_views(actions@) =~= settle_actions(
        task@.full_path,
        plan.temp_output@,
        plan.kept_output@,
        replace_original,
        succeeded,
    ));
    Settlement { actions, report, report_first: !succeeded }
}

/// The original file is touched only when originals are replaced and the
/// conversion succeeded; otherwise the only action is on a file the
/// conversion made. After a failure, the partial output is deleted and
/// nothing else happens; after a success, the converted file is moved to
/// the original's place or to its own name.
pub proof fn lemma_original_kept_unless_replaced(
    original: Seq<char>,
    temp: Seq<char>,
    kept: Seq<char>,
    replace: bool,
    succeeded: bool,
)
    requires
        original != temp,
    ensures
        settle_actions(original, temp, kept, replace, succeeded).contains(ActionView::Remove(original))
            <==> (replace && succeeded),
        !succeeded ==> settle_actions(original, temp, kept, replace, succeeded) == seq![
            ActionView::Remove(temp),
        ],
        succeeded ==> settle_actions(original, temp, kept, replace, succeeded).last() == ActionView::Rename(
            temp,
            if replace {
                original
            } else {
                kept
            },
        ),
{
    let acts = settle_actions(original, temp, kept, replace, succeeded);
    if replace && succeeded {
        assert(acts[0] == ActionView::Remove(original));
    }
    if acts.contains(ActionView::Remove(original)) {
        let k = choose|k: int| 0 <= k < acts.len() && acts[k] == ActionView::Remove(original);
        assert(acts[k] == ActionView::Remove(original));
    }
}

/// After a success with originals replaced, the original is deleted and
/// the temporary output moved into its place; after a success with
/// originals kept, the temporary output is moved to the kept name; after
/// anything else, only the temporary output is deleted. A failure log shows
/// ffmpeg's standard output, then its standard error, each under its
/// heading.
pub proof fn lemma_settle_cases(
    original: Seq<char>,
    temp: Seq<char>,
    kept: Seq<char>,
    replace: bool,
    succeeded: bool,
    stdout: Seq<u8>,
    stderr: Seq<u8>,
)
    ensures
        succeeded && replace ==> settle_actions(original, temp, kept, replace, succeeded) == seq![
            ActionView::Remove(original),
            ActionView::Rename(temp, original),
        ],
        succeeded && !replace ==> settle_actions(original, temp, kept, replace, succeeded) == seq![
            ActionView::Rename(temp, kept),
        ],
        !succeeded ==> settle_actions(original, temp, kept, replace, succeeded) == seq![ActionView::Remove(temp)],
        failure_log(stdout, stderr) == "STDOUT:\n"@ + utf8_lossy(stdout) + "\nSTDERR:\n"@ + utf8_lossy(stderr),
{
}

/// Every `ffmpeg` command line reads the task's file, maps all its
/// streams, passes the task's thread count, and ends by overwriting the
/// given output. Its video part names the task's video codec and, unless
/// that is `copy` or "None", the task's rate factor and the even-size
/// filter; its audio part, which follows, names the task's audio codec and,
/// unless that is `copy` or "None", the given bitrate, six channels and the
/// 5.1 resampler, with Opus channel mapping for `libopus`; its subtitle
/// part, just before the end, drops subtitles when the task's subtitle
/// codec is "None" and names that codec otherwise.
pub proof fn lemma_command_line_shape(t: TaskView, bitrate: Seq<char>, output: Seq<char>)
    ensures
        ({
            let args = ffmpeg_args_spec(t, bitrate, output);
            let video_copied = t.video_codec == "copy"@ || t.video_codec == "None"@;
            let audio_copied = t.audio_codec == "copy"@ || t.audio_codec == "None"@;
            let k: int = if video_copied { 8 } else { 12 };
            let n = args.len() as int;
            &&& n >= 13
            &&& args[0] == "-i"@
            &&& args[1] == t.full_path
            &&& args[2] == "-map"@
            &&& args[3] == "0"@
            &&& args[4] == "-threads"@
            &&& args[5] == t.threads
            &&& args[6] == "-c:v"@
            &&& args[7] == t.video_codec
            &&& !video_copied ==> {
                &&& args[8] == "-crf"@
                &&& args[9] == t.crf
                &&& args[10] == "-vf"@
                &&& args[11] == "scale=trunc(iw/2)*2:trunc(ih/2)*2"@
            }
            &&& args[k] == "-c:a"@
            &&& args[k + 1] == t.audio_codec
            &&& !audio_copied ==> {
                &&& args[k + 2] == "-b:a"@
                &&& args[k + 3] == bitrate
                &&& args[k + 4] == "-ac"@
                &&& args[k + 5] == "6"@
                &&& args[k + 6] == "-af"@
                &&& args[k + 7] == "aresample=async=1,aformat=channel_layouts=5.1"@
                &&& (t.audio_codec == "libopus"@ ==> args[k + 8] == "-mapping_family"@ && args[k + 9]
                    == "1"@)
            }
            &&& audio_copied ==> n == k + 2 + subtitle_args(t).len() + 2
            &&& (t.subtitle_codec == "None"@ ==> args[n - 3] == "-sn"@)
            &&& (t.subtitle_codec != "None"@ ==> args[n - 4] == "-c:s"@ && args[n - 3] == t.subtitle_codec)
            &&& args[n - 2] == "-y"@
            &&& args[n - 1] == output
        }),
{
    let args = ffmpeg_args_spec(t, bitrate, output);
    let head = seq!["-i"@, t.full_path, "-map"@, "0"@, "-threads"@, t.threads];
    let v = video_args(t);
    let a = audio_args(t, bitrate);
    let s = subtitle_args(t);
    let tail = seq!["-y"@, output];
    assert(args == head + v + a + s + tail);
    let video_copied = t.video_codec == "copy"@ || t.video_codec == "None"@;
    let audio_copied = t.audio_codec == "copy"@ || t.audio_codec == "None"@;
    let k: int = if video_copied { 8 } else { 12 };
    assert(v.len() == k - 6);
    let n = args.len() as int;
    assert(n == 6 + v.len() + a.len() + s.len() + 2);
    assert forall|j: int| 0 <= j < 6 implies args[j] == head[j] by {}
    assert forall|j: int| 0 <= j < v.len() implies args[6 + j] == v[j] by {}
    assert forall|j: int| 0 <= j < a.len() implies args[k + j] == a[j] by {}
    assert forall|j: int| 0 <= j < s.len() implies args[k + a.len() + j] == s[j] by {}
    assert(args[n - 2] == tail[0]);
    assert(args[n - 1] == tail[1]);
    assert(args[6] == v[0]);
    assert(args[7] == v[1]);
    if !video_copied {
        assert(args[8] == v[2]);
        assert(args[9] == v[3]);
        assert(args[10] == v[4]);
        assert(args[11] == v[5]);
    }
    assert(args[k] == a[0]);
    assert(args[k + 1] == a[1]);
    if !audio_copied {
        assert(args[k + 2] == a[2]);
        assert(args[k + 3] == a[3]);
        assert(args[k + 4] == a[4]);
        assert(args[k + 5] == a[5]);
        assert(args[k + 6] == a[6]);
        assert(args[k + 7] == a[7]);
        if t.audio_codec == "libopus"@ {
            assert(args[k + 8] == a[8]);
            assert(args[k + 9] == a[9]);
        }
    }
    if t.subtitle_codec == "None"@ {
        assert(args[k + a.len()] == s[0]);
    } else {
        assert(args[k + a.len()] == s[0]);
        assert(args[k + a.len() + 1] == s[1]);
    }
}

} // verus!
