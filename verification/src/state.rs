//! The list of media files and the conversion settings, with the rules by
//! which the user's choices and the worker's progress reports change them.

use vstd::prelude::*;
use crate::codec::{StreamKind, codec_list, absent, lemma_codec_lists, codec_choice};
use crate::text::{str_eq, decimal_spec, decimal_string, decimal_value, is_digit, lemma_decimal_roundtrip};
use crate::std_calls::{path_file_name, file_name_of};

verus! {

/// Where a file stands in the conversion.
#[derive(PartialEq, Eq, Structural, Clone, Copy, Debug)]
pub enum FileStatus {
    Idle,
    Processing,
    Done,
    Failed,
}

/// One media file in the list: its location, the codecs of its first
/// video, audio and subtitle streams ("None" where it has none), the codecs
/// chosen for the conversion, and its status.
pub struct MediaFile {
    pub full_path: String,
    pub file_name: String,
    pub video_codec: String,
    pub audio_codec: String,
    pub subtitle_type: String,
    pub new_video_codec: String,
    pub new_audio_codec: String,
    pub new_subtitle_type: String,
    pub status: FileStatus,
}

/// The mathematical model of a [`MediaFile`].
pub struct FileView {
    pub full_path: Seq<char>,
    pub file_name: Seq<char>,
    pub video: Seq<char>,
    pub audio: Seq<char>,
    pub subtitle: Seq<char>,
    pub target_video: Seq<char>,
    pub target_audio: Seq<char>,
    pub target_subtitle: Seq<char>,
    pub status: FileStatus,
}

impl FileView {
    /// The codec of the file's stream of the given kind.
    pub open spec fn source(self, kind: StreamKind) -> Seq<char> {
        match kind {
            StreamKind::Video => self.video,
            StreamKind::Audio => self.audio,
            StreamKind::Subtitle => self.subtitle,
        }
    }

    /// The codec chosen for the file's stream of the given kind.
    pub open spec fn target(self, kind: StreamKind) -> Seq<char> {
        match kind {
            StreamKind::Video => self.target_video,
            StreamKind::Audio => self.target_audio,
            StreamKind::Subtitle => self.target_subtitle,
        }
    }

    /// The file with the target of one kind of stream replaced.
    pub open spec fn with_target(self, kind: StreamKind, codec: Seq<char>) -> FileView {
        match kind {
            StreamKind::Video => FileView { target_video: codec, ..self },
            StreamKind::Audio => FileView { target_audio: codec, ..self },
            StreamKind::Subtitle => FileView { target_subtitle: codec, ..self },
        }
    }

    /// The file with its status replaced.
    pub open spec fn with_status(self, status: FileStatus) -> FileView {
        FileView { status, ..self }
    }
}

impl View for MediaFile {
    type V = FileView;

    open spec fn view(&self) -> FileView {
        FileView {
            full_path: self.full_path@,
            file_name: self.file_name@,
            video: self.video_codec@,
            audio: self.audio_codec@,
            subtitle: self.subtitle_type@,
            target_video: self.new_video_codec@,
            target_audio: self.new_audio_codec@,
            target_subtitle: self.new_subtitle_type@,
            status: self.status,
        }
    }
}

/// The models of a sequence of files.
pub open spec fn file_views(files: Seq<MediaFile>) -> Seq<FileView> {
    files.map_values(|f: MediaFile| f@)
}

/// A listed file is named after the final component of its path; where
/// its stream of the given kind is absent it keeps "None" as the target,
/// and any other stream has one of the offered codecs as its target.
pub open spec fn entry_fits(f: FileView, kind: StreamKind) -> bool {
    &&& f.file_name == path_file_name(f.full_path)
    &&& if f.source(kind) == absent() {
        f.target(kind) == absent()
    } else {
        codec_list(kind).contains(f.target(kind))
    }
}

/// Choosing `codec` for a kind of stream changes a file only where it has
/// such a stream.
pub open spec fn retarget(f: FileView, kind: StreamKind, codec: Seq<char>) -> FileView {
    if f.source(kind) == absent() {
        f
    } else {
        f.with_target(kind, codec)
    }
}

/// The mathematical model of the application state.
pub struct AppView {
    pub files: Seq<FileView>,
    pub crf: int,
    pub audio_bitrate: Seq<char>,
    pub threads: int,
    pub replace_original: bool,
    pub default_video: Seq<char>,
    pub default_audio: Seq<char>,
    pub default_subtitle: Seq<char>,
    pub converting: bool,
}

impl AppView {
    /// The default target codec for a kind of stream.
    pub open spec fn default(self, kind: StreamKind) -> Seq<char> {
        match kind {
            StreamKind::Video => self.default_video,
            StreamKind::Audio => self.default_audio,
            StreamKind::Subtitle => self.default_subtitle,
        }
    }

    /// The state with the default of one kind of stream replaced.
    pub open spec fn with_default(self, kind: StreamKind, codec: Seq<char>) -> AppView {
        match kind {
            StreamKind::Video => AppView { default_video: codec, ..self },
            StreamKind::Audio => AppView { default_audio: codec, ..self },
            StreamKind::Subtitle => AppView { default_subtitle: codec, ..self },
        }
    }

    /// The state with its list of files replaced.
    pub open spec fn with_files(self, files: Seq<FileView>) -> AppView {
        AppView { files, ..self }
    }
}

/// The largest constant rate factor that can be set.
pub open spec fn max_crf() -> int {
    51
}

/// The largest number of encoder threads that can be set (0 lets ffmpeg
/// choose).
pub open spec fn max_threads() -> int {
    64
}

/// Well-formedness of the application state: the numeric settings are in
/// range, the defaults are offered codecs, and every file is named after
/// its path and has targets that fit its streams.
pub open spec fn app_wf(v: AppView) -> bool {
    &&& 0 <= v.crf <= max_crf()
    &&& 0 <= v.threads <= max_threads()
    &&& forall|k: StreamKind| #[trigger] codec_list(k).contains(v.default(k))
    &&& forall|i: int, k: StreamKind|
        0 <= i < v.files.len() ==> #[trigger] entry_fits(v.files[i], k)
}

/// `v` clamped into `lo..=hi`.
pub open spec fn clamp(v: int, lo: int, hi: int) -> int {
    if v < lo {
        lo
    } else if v > hi {
        hi
    } else {
        v
    }
}

/// Whether the probe results of a file make it one that is listed: the
/// video probe did not fail, and at least one stream is present.
pub open spec fn accepts_probe(video: Seq<char>, audio: Seq<char>, subtitle: Seq<char>) -> bool {
    &&& video != "Invalid"@
    &&& (video != absent() || audio != absent() || subtitle != absent())
}

/// The target that a newly listed file gets for a stream: "None" for an
/// absent stream, else the current default.
pub open spec fn initial_target(source: Seq<char>, default: Seq<char>) -> Seq<char> {
    if source == absent() {
        absent()
    } else {
        default
    }
}

/// The entry that listing the file at `path` with the given probe results
/// adds.
pub open spec fn new_entry(
    app: AppView,
    path: Seq<char>,
    video: Seq<char>,
    audio: Seq<char>,
    subtitle: Seq<char>,
) -> FileView {
    FileView {
        full_path: path,
        file_name: path_file_name(path),
        video,
        audio,
        subtitle,
        target_video: initial_target(video, app.default_video),
        target_audio: initial_target(audio, app.default_audio),
        target_subtitle: initial_target(subtitle, app.default_subtitle),
        status: FileStatus::Idle,
    }
}

/// A report from the conversion worker.
pub enum ProgressMsg {
    /// The file at this index is being converted.
    Started(usize),
    /// The file at this index was converted.
    Finished(usize),
    /// The conversion of the file at this index failed, with ffmpeg's log.
    Failed(usize, String),
    /// The worker has gone through all its tasks.
    AllDone,
}

/// The index that a progress report refers to, if any.
pub open spec fn progress_index(msg: ProgressMsg) -> Option<usize> {
    match msg {
        ProgressMsg::Started(i) => Some(i),
        ProgressMsg::Finished(i) => Some(i),
        ProgressMsg::Failed(i, _) => Some(i),
        ProgressMsg::AllDone => None,
    }
}

/// The state after a progress report.
pub open spec fn after_progress(app: AppView, msg: ProgressMsg) -> AppView {
    match msg {
        ProgressMsg::Started(i) => app.with_files(
            app.files.update(i as int, app.files[i as int].with_status(FileStatus::Processing)),
        ),
        ProgressMsg::Finished(i) => app.with_files(
            app.files.update(i as int, app.files[i as int].with_status(FileStatus::Done)),
        ),
        ProgressMsg::Failed(i, _) => app.with_files(
            app.files.update(i as int, app.files[i as int].with_status(FileStatus::Failed)),
        ),
        ProgressMsg::AllDone => AppView { converting: false, ..app },
    }
}

/// The text printed for a failed conversion.
pub open spec fn failure_report(log: Seq<char>) -> Seq<char> {
    "--- FFMPEG FAILURE LOG ---\n"@ + log + "\n--------------------------"@
}

/// One conversion for the worker to run.
pub struct ConversionTask {
    pub index: usize,
    pub full_path: String,
    pub video_codec: String,
    pub audio_codec: String,
    pub subtitle_codec: String,
    pub file_name: String,
    pub crf: String,
    pub threads: String,
}

/// The mathematical model of a [`ConversionTask`].
pub struct TaskView {
    pub index: int,
    pub full_path: Seq<char>,
    pub video_codec: Seq<char>,
    pub audio_codec: Seq<char>,
    pub subtitle_codec: Seq<char>,
    pub file_name: Seq<char>,
    pub crf: Seq<char>,
    pub threads: Seq<char>,
}

impl View for ConversionTask {
    type V = TaskView;

    open spec fn view(&self) -> TaskView {
        TaskView {
            index: self.index as int,
            full_path: self.full_path@,
            video_codec: self.video_codec@,
            audio_codec: self.audio_codec@,
            subtitle_codec: self.subtitle_codec@,
            file_name: self.file_name@,
            crf: self.crf@,
            threads: self.threads@,
        }
    }
}

/// The models of a sequence of tasks.
pub open spec fn task_views(tasks: Seq<ConversionTask>) -> Seq<TaskView> {
    tasks.map_values(|t: ConversionTask| t@)
}

/// A conversion job: the tasks, in order, and the settings they share.
pub struct ConversionJob {
    pub tasks: Vec<ConversionTask>,
    pub audio_bitrate: String,
    pub replace_original: bool,
}

/// Whether a file is converted when a conversion starts: it has not been
/// converted yet, or its last conversion failed.
pub open spec fn is_pending(status: FileStatus) -> bool {
    status == FileStatus::Idle || status == FileStatus::Failed
}

/// The task made for the file at index `i`.
pub open spec fn task_for(i: int, f: FileView, crf: int, threads: int) -> TaskView {
    TaskView {
        index: i,
        full_path: f.full_path,
        video_codec: f.target_video,
        audio_codec: f.target_audio,
        subtitle_codec: f.target_subtitle,
        file_name: f.file_name,
        crf: decimal_spec(crf as nat),
        threads: decimal_spec(threads as nat),
    }
}

/// The tasks of a conversion: one for each pending file, in list order.
pub open spec fn scheduled(files: Seq<FileView>, crf: int, threads: int) -> Seq<TaskView>
    decreases files.len(),
{
    if files.len() == 0 {
        Seq::empty()
    } else {
        let earlier = scheduled(files.drop_last(), crf, threads);
        if is_pending(files.last().status) {
            earlier.push(task_for(files.len() - 1, files.last(), crf, threads))
        } else {
            earlier
        }
    }
}

/// The application state: the listed files and the conversion settings.
pub struct MyApp {
    files: Vec<MediaFile>,
    crf: i32,
    audio_bitrate: String,
    threads: i32,
    replace_original: bool,
    default_v: String,
    default_a: String,
    default_s: String,
    is_converting: bool,
}

impl View for MyApp {
    type V = AppView;

    closed spec fn view(&self) -> AppView {
        AppView {
            files: file_views(self.files@),
            crf: self.crf as int,
            audio_bitrate: self.audio_bitrate@,
            threads: self.threads as int,
            replace_original: self.replace_original,
            default_video: self.default_v@,
            default_audio: self.default_a@,
            default_subtitle: self.default_s@,
            converting: self.is_converting,
        }
    }
}


/// The state of a freshly started application: no files, a constant rate
/// factor of 23, an audio bitrate of "192k", thread count 0 (ffmpeg
/// chooses), originals kept, `copy` as the default for every kind of
/// stream, and no conversion running.
pub open spec fn initial_state() -> AppView {
    AppView {
        files: Seq::empty(),
        crf: 23,
        audio_bitrate: "192k"@,
        threads: 0,
        replace_original: false,
        default_video: "copy"@,
        default_audio: "copy"@,
        default_subtitle: "copy"@,
        converting: false,
    }
}

proof fn lemma_wf_from(a: AppView, b: AppView)
    requires
        app_wf(a),
        b.default_video == a.default_video,
        b.default_audio == a.default_audio,
        b.default_subtitle == a.default_subtitle,
        0 <= b.crf <= max_crf(),
        0 <= b.threads <= max_threads(),
        forall|i: int, k: StreamKind| 0 <= i < b.files.len() ==> #[trigger] entry_fits(b.files[i], k),
    ensures
        app_wf(b),
{
    assert forall|k: StreamKind| #[trigger] codec_list(k).contains(b.default(k)) by {
        assert(codec_list(k).contains(a.default(k)));
        assert(b.default(k) == a.default(k));
    }
}

proof fn lemma_copy_is_offered()
    ensures
        forall|k: StreamKind| #[trigger] codec_list(k).contains("copy"@),
{
    assert forall|k: StreamKind| #[trigger] codec_list(k).contains("copy"@) by {
        lemma_codec_lists(k);
        assert(codec_list(k)[0] == "copy"@);
    }
}

impl MediaFile {
    /// Whether the file has a stream of the given kind.
    pub fn has_stream(&self, kind: StreamKind) -> (r: bool)
        ensures
            r == (self@.source(kind) != absent()),
    {
        match kind {
            StreamKind::Video => !str_eq(self.video_codec.as_str(), "None"),
            StreamKind::Audio => !str_eq(self.audio_codec.as_str(), "None"),
            StreamKind::Subtitle => !str_eq(self.subtitle_type.as_str(), "None"),
        }
    }

    /// The codec chosen for the file's stream of the given kind.
    pub fn target_codec(&self, kind: StreamKind) -> (r: &String)
        ensures
            r@ == self@.target(kind),
    {
        match kind {
            StreamKind::Video => &self.new_video_codec,
            StreamKind::Audio => &self.new_audio_codec,
            StreamKind::Subtitle => &self.new_subtitle_type,
        }
    }

    /// The codec of the file's stream of the given kind.
    pub fn source_codec(&self, kind: StreamKind) -> (r: &String)
        ensures
            r@ == self@.source(kind),
    {
        match kind {
            StreamKind::Video => &self.video_codec,
            StreamKind::Audio => &self.audio_codec,
            StreamKind::Subtitle => &self.subtitle_type,
        }
    }

    fn retarget(&mut self, kind: StreamKind, codec: &str)
        ensures
            final(self)@ == retarget(old(self)@, kind, codec@),
    {
        if self.has_stream(kind) {
            match kind {
                StreamKind::Video => self.new_video_codec = codec.to_string(),
                StreamKind::Audio => self.new_audio_codec = codec.to_string(),
                StreamKind::Subtitle => self.new_subtitle_type = codec.to_string(),
            }
        }
    }
}

impl MyApp {
    /// Well-formedness: see [`app_wf`].
    pub open spec fn wf(&self) -> bool {
        app_wf(self@)
    }

    /// A fresh application state.
    pub fn new() -> (r: Self)
        ensures
            r.wf(),
            r@ == initial_state(),
    {
        proof {
            lemma_copy_is_offered();
        }
        let r = MyApp {
            files: Vec::new(),
            crf: 23,
            audio_bitrate: "192k".to_string(),
            threads: 0,
            replace_original: false,
            default_v: "copy".to_string(),
            default_a: "copy".to_string(),
            default_s: "copy".to_string(),
            is_converting: false,
        };
        assert(file_views(r.files@) =~= Seq::<FileView>::empty());
        assert(r@.default(StreamKind::Video) == "copy"@);
        assert(r@.default(StreamKind::Audio) == "copy"@);
        assert(r@.default(StreamKind::Subtitle) == "copy"@);
        r
    }

    /// The listed files, in order.
    pub fn files(&self) -> (r: &Vec<MediaFile>)
        ensures
            file_views(r@) == self@.files,
    {
        &self.files
    }

    /// The constant rate factor used for re-encoded video.
    pub fn crf(&self) -> (r: i32)
        ensures
            r as int == self@.crf,
    {
        self.crf
    }

    /// The number of encoder threads (0 lets ffmpeg choose).
    pub fn threads(&self) -> (r: i32)
        ensures
            r as int == self@.threads,
    {
        self.threads
    }

    /// The bitrate used for re-encoded audio.
    pub fn audio_bitrate(&self) -> (r: &String)
        ensures
            r@ == self@.audio_bitrate,
    {
        &self.audio_bitrate
    }

    /// Whether converted files replace their originals.
    pub fn replace_original(&self) -> (r: bool)
        ensures
            r == self@.replace_original,
    {
        self.replace_original
    }

    /// Whether a conversion is running.
    pub fn is_converting(&self) -> (r: bool)
        ensures
            r == self@.converting,
    {
        self.is_converting
    }

    /// The default target codec for a kind of stream.
    pub fn default_codec(&self, kind: StreamKind) -> (r: &String)
        ensures
            r@ == self@.default(kind),
    {
        match kind {
            StreamKind::Video => &self.default_v,
            StreamKind::Audio => &self.default_a,
            StreamKind::Subtitle => &self.default_s,
        }
    }
}


impl MyApp {
    /// Sets the constant rate factor, clamped into `0..=51` as the
    /// settings panel allows; not while a conversion runs.
    pub fn set_crf(&mut self, value: i32)
        requires
            old(self).wf(),
        ensures
            final(self).wf(),
            old(self)@.converting ==> final(self)@ == old(self)@,
            !old(self)@.converting ==> final(self)@ == (AppView {
                crf: clamp(value as int, 0, max_crf()),
                ..old(self)@
            }),
    {
        if self.is_converting {
            return;
        }
        self.crf = if value < 0 {
            0
        } else if value > 51 {
            51
        } else {
            value
        };
        proof {
            lemma_wf_from(old(self)@, self@);
        }
    }

    /// Sets the number of encoder threads, clamped into `0..=64` as the
    /// settings panel allows; not while a conversion runs.
    pub fn set_threads(&mut self, value: i32)
        requires
            old(self).wf(),
        ensures
            final(self).wf(),
            old(self)@.converting ==> final(self)@ == old(self)@,
            !old(self)@.converting ==> final(self)@ == (AppView {
                threads: clamp(value as int, 0, max_threads()),
                ..old(self)@
            }),
    {
        if self.is_converting {
            return;
        }
        self.threads = if value < 0 {
            0
        } else if value > 64 {
            64
        } else {
            value
        };
        proof {
            lemma_wf_from(old(self)@, self@);
        }
    }

    /// Sets the bitrate used for re-encoded audio (free text, handed to
    /// ffmpeg as it is); not while a conversion runs.
    pub fn set_audio_bitrate(&mut self, value: String)
        requires
            old(self).wf(),
        ensures
            final(self).wf(),
            old(self)@.converting ==> final(self)@ == old(self)@,
            !old(self)@.converting ==> final(self)@ == (AppView { audio_bitrate: value@, ..old(self)@ }),
    {
        if self.is_converting {
            return;
        }
        self.audio_bitrate = value;
        proof {
            lemma_wf_from(old(self)@, self@);
        }
    }

    /// Sets whether converted files replace their originals; not while a
    /// conversion runs.
    pub fn set_replace_original(&mut self, value: bool)
        requires
            old(self).wf(),
        ensures
            final(self).wf(),
            old(self)@.converting ==> final(self)@ == old(self)@,
            !old(self)@.converting ==> final(self)@ == (AppView { replace_original: value, ..old(self)@ }),
    {
        if self.is_converting {
            return;
        }
        self.replace_original = value;
        proof {
            lemma_wf_from(old(self)@, self@);
        }
    }

    /// Lists the file at `full_path`, given what probing its first video,
    /// audio and subtitle streams found ("None" for an absent stream,
    /// "Invalid" where the probe could not run). The file is listed only
    /// when the video probe ran and at least one stream is present; it
    /// starts idle, with "None" as the target of each absent stream and the
    /// current default for each other one. No file is listed while a
    /// conversion runs.
    pub fn add_single_file(&mut self, full_path: String, video: String, audio: String, subtitle: String)
        requires
            old(self).wf(),
        ensures
            final(self).wf(),
            !old(self)@.converting && accepts_probe(video@, audio@, subtitle@) ==> final(self)@
                == old(self)@.with_files(
                old(self)@.files.push(new_entry(old(self)@, full_path@, video@, audio@, subtitle@)),
            ),
            old(self)@.converting || !accepts_probe(video@, audio@, subtitle@) ==> final(self)@ == old(self)@,
            !old(self)@.converting && accepts_probe(video@, audio@, subtitle@) ==> {
                let e = final(self)@.files.last();
                &&& final(self)@.files.len() == old(self)@.files.len() + 1
                &&& forall|i: int| 0 <= i < old(self)@.files.len() ==> #[trigger] final(self)@.files[i] == old(self)@.files[i]
                &&& e.full_path == full_path@
                &&& e.file_name == path_file_name(full_path@)
                &&& e.video == video@
                &&& e.audio == audio@
                &&& e.subtitle == subtitle@
                &&& e.status == FileStatus::Idle
                &&& e.target_video == (if video@ == "None"@ { "None"@ } else { old(self)@.default_video })
                &&& e.target_audio == (if audio@ == "None"@ { "None"@ } else { old(self)@.default_audio })
                &&& e.target_subtitle == (if subtitle@ == "None"@ { "None"@ } else { old(self)@.default_subtitle })
            },
    {
        proof {
            lemma_new_entry_fields(old(self)@, full_path@, video@, audio@, subtitle@);
        }
        if self.is_converting {
            return;
        }
        let invalid = str_eq(video.as_str(), "Invalid");
        let no_video = str_eq(video.as_str(), "None");
        let no_audio = str_eq(audio.as_str(), "None");
        let no_subtitle = str_eq(subtitle.as_str(), "None");
        if !invalid && (!no_video || !no_audio || !no_subtitle) {
            let file_name = file_name_of(full_path.as_str());
            let new_video_codec = if no_video {
                "None".to_string()
            } else {
                self.default_v.clone()
            };
            let new_audio_codec = if no_audio {
                "None".to_string()
            } else {
                self.default_a.clone()
            };
            let new_subtitle_type = if no_subtitle {
                "None".to_string()
            } else {
                self.default_s.clone()
            };
            let entry = MediaFile {
                full_path,
                file_name,
                video_codec: video,
                audio_codec: audio,
                subtitle_type: subtitle,
                new_video_codec,
                new_audio_codec,
                new_subtitle_type,
                status: FileStatus::Idle,
            };
            let ghost old_files = self.files@;
            self.files.push(entry);
            proof {
                let v = self@;
                assert(file_views(self.files@) =~= file_views(old_files).push(entry@));
                assert forall|i: int, k: StreamKind| 0 <= i < v.files.len() implies #[trigger] entry_fits(v.files[i], k) by {
                    if i < old_files.len() {
                        assert(v.files[i] == old(self)@.files[i]);
                    } else {
                        assert(codec_list(k).contains(old(self)@.default(k)));
                    }
                }
                lemma_wf_from(old(self)@, v);
            }
        }
    }

    /// Takes the file at `index` off the list (not while a conversion runs).
    pub fn remove_file(&mut self, index: usize)
        requires
            old(self).wf(),
            index < old(self)@.files.len(),
        ensures
            final(self).wf(),
            old(self)@.converting ==> final(self)@ == old(self)@,
            !old(self)@.converting ==> final(self)@ == old(self)@.with_files(
                old(self)@.files.remove(index as int),
            ),
    {
        if self.is_converting {
            return;
        }
        let ghost old_files = self.files@;
        self.files.remove(index);
        proof {
            assert(file_views(self.files@) =~= file_views(old_files).remove(index as int));
            let v = self@;
            assert forall|i: int, k: StreamKind| 0 <= i < v.files.len() implies #[trigger] entry_fits(v.files[i], k) by {
                if i < index {
                    assert(v.files[i] == old(self)@.files[i]);
                } else {
                    assert(v.files[i] == old(self)@.files[i + 1]);
                }
            }
            lemma_wf_from(old(self)@, v);
        }
    }

    /// Takes every file off the list (not while a conversion runs).
    pub fn clear_all(&mut self)
        requires
            old(self).wf(),
        ensures
            final(self).wf(),
            old(self)@.converting ==> final(self)@ == old(self)@,
            !old(self)@.converting ==> final(self)@ == old(self)@.with_files(Seq::empty()),
    {
        if self.is_converting {
            return;
        }
        self.files.clear();
        assert(file_views(self.files@) =~= Seq::<FileView>::empty());
        proof {
            lemma_wf_from(old(self)@, self@);
        }
    }
}


/// The files after choosing `codec` as the target of every present stream
/// of the given kind.
pub open spec fn retarget_all(files: Seq<FileView>, kind: StreamKind, codec: Seq<char>) -> Seq<FileView> {
    files.map_values(|f: FileView| retarget(f, kind, codec))
}

proof fn lemma_reentry_fits(f: FileView, kind: StreamKind, codec: Seq<char>, k: StreamKind)
    requires
        entry_fits(f, k),
        codec_list(kind).contains(codec),
    ensures
        entry_fits(retarget(f, kind, codec), k),
{
}

impl MyApp {
    /// Chooses the codec at position `choice` of the list offered for
    /// `kind` as the default for that kind, and as the target of that kind
    /// of stream in every listed file that has one. Choosing the codec that
    /// already is the default changes nothing, so the files keep their own
    /// choices; so does any choice while a conversion runs.
    pub fn select_default_codec(&mut self, kind: StreamKind, choice: usize)
        requires
            old(self).wf(),
            choice < codec_list(kind).len(),
        ensures
            final(self).wf(),
            old(self)@.converting || codec_list(kind)[choice as int] == old(self)@.default(kind)
                ==> final(self)@ == old(self)@,
            !old(self)@.converting && codec_list(kind)[choice as int] != old(self)@.default(kind)
                ==> final(self)@ == old(self)@.with_default(kind, codec_list(kind)[choice as int]).with_files(
                retarget_all(old(self)@.files, kind, codec_list(kind)[choice as int]),
            ),
            !old(self)@.converting ==> final(self)@.default(kind) == codec_list(kind)[choice as int],
            final(self)@.files.len() == old(self)@.files.len(),
            !old(self)@.converting && codec_list(kind)[choice as int] != old(self)@.default(kind) ==> forall|i: int|
                0 <= i < old(self)@.files.len() ==> {
                    &&& old(self)@.files[i].source(kind) != "None"@ ==> #[trigger] final(self)@.files[i].target(kind)
                        == codec_list(kind)[choice as int]
                    &&& old(self)@.files[i].source(kind) == "None"@ ==> final(self)@.files[i] == old(self)@.files[i]
                },
    {
        proof {
            assert forall|i: int| #![trigger old(self)@.files[i]] 0 <= i < old(self)@.files.len() implies ({
                let g = retarget(old(self)@.files[i], kind, codec_list(kind)[choice as int]);
                &&& old(self)@.files[i].source(kind) != "None"@ ==> g.target(kind) == codec_list(kind)[choice as int]
                &&& old(self)@.files[i].source(kind) == "None"@ ==> g == old(self)@.files[i]
            }) by {
                lemma_retarget_sets_target(old(self)@.files[i], kind, codec_list(kind)[choice as int]);
            }
        }
        if self.is_converting {
            return;
        }
        let codec = codec_choice(kind, choice);
        if str_eq(codec, self.default_codec(kind).as_str()) {
            return;
        }
        match kind {
            StreamKind::Video => self.default_v = codec.to_string(),
            StreamKind::Audio => self.default_a = codec.to_string(),
            StreamKind::Subtitle => self.default_s = codec.to_string(),
        }
        let mut files: Vec<MediaFile> = Vec::new();
        std::mem::swap(&mut files, &mut self.files);
        let ghost old_files = files@;
        let n = files.len();
        let mut i: usize = 0;
        while i < n
            invariant
                n == files@.len(),
                n == old_files.len(),
                i <= n,
                choice < codec_list(kind).len(),
                codec@ == codec_list(kind)[choice as int],
                forall|j: int| 0 <= j < i ==> (#[trigger] files@[j])@ == retarget(old_files[j]@, kind, codec@),
                forall|j: int| i <= j < n ==> #[trigger] files@[j] == old_files[j],
            decreases n - i,
        {
            files[i].retarget(kind, codec);
            i = i + 1;
        }
        self.files = files;
        proof {
            let c = codec_list(kind)[choice as int];
            assert(codec_list(kind).contains(c));
            assert(file_views(self.files@) =~= retarget_all(file_views(old_files), kind, c));
            let a = old(self)@;
            let b = self@;
            assert(b == a.with_default(kind, c).with_files(retarget_all(a.files, kind, c)));
            assert forall|k: StreamKind| #[trigger] codec_list(k).contains(b.default(k)) by {
                if k != kind {
                    assert(codec_list(k).contains(a.default(k)));
                }
            }
            assert forall|i: int, k: StreamKind| 0 <= i < b.files.len() implies #[trigger] entry_fits(b.files[i], k) by {
                assert(entry_fits(a.files[i], k));
                lemma_reentry_fits(a.files[i], kind, c, k);
            }
        }
    }

    /// Chooses the codec at position `choice` of the list offered for
    /// `kind` as the target of that kind of stream in the file at `index`;
    /// a file without such a stream is left as it is (it offers no choice).
    /// Nothing changes while a conversion runs.
    pub fn select_file_codec(&mut self, index: usize, kind: StreamKind, choice: usize)
        requires
            old(self).wf(),
            index < old(self)@.files.len(),
            choice < codec_list(kind).len(),
        ensures
            final(self).wf(),
            old(self)@.converting ==> final(self)@ == old(self)@,
            !old(self)@.converting ==> final(self)@ == old(self)@.with_files(
                old(self)@.files.update(
                    index as int,
                    retarget(old(self)@.files[index as int], kind, codec_list(kind)[choice as int]),
                ),
            ),
            !old(self)@.converting && old(self)@.files[index as int].source(kind) != "None"@ ==> final(self)@.files[index
                as int].target(kind) == codec_list(kind)[choice as int],
            final(self)@.files.len() == old(self)@.files.len(),
    {
        proof {
            lemma_retarget_sets_target(old(self)@.files[index as int], kind, codec_list(kind)[choice as int]);
        }
        if self.is_converting {
            return;
        }
        let codec = codec_choice(kind, choice);
        self.files[index].retarget(kind, codec);
        proof {
            let c = codec_list(kind)[choice as int];
            assert(codec_list(kind).contains(c));
            let a = old(self)@;
            let b = self@;
            assert(file_views(self.files@) =~= a.files.update(index as int, retarget(a.files[index as int], kind, c)));
            assert forall|i: int, k: StreamKind| 0 <= i < b.files.len() implies #[trigger] entry_fits(b.files[i], k) by {
                assert(entry_fits(a.files[i], k));
                lemma_reentry_fits(a.files[i], kind, c, k);
            }
            lemma_wf_from(a, b);
        }
    }

    /// Applies a report from the conversion worker: the file it names
    /// becomes processing, done or failed; the end of the job ends the
    /// conversion. For a failure, the text to print is returned.
    pub fn apply_progress(&mut self, msg: ProgressMsg) -> (r: Option<String>)
        requires
            old(self).wf(),
            progress_index(msg) matches Some(i) ==> i < old(self)@.files.len(),
        ensures
            final(self).wf(),
            final(self)@ == after_progress(old(self)@, msg),
            match msg {
                ProgressMsg::Failed(_, log) => r matches Some(t) && t@ == failure_report(log@),
                _ => r is None,
            },
    {
        let ghost m = msg;
        let r = match msg {
            ProgressMsg::Started(i) => {
                self.files[i].status = FileStatus::Processing;
                None
            },
            ProgressMsg::Finished(i) => {
                self.files[i].status = FileStatus::Done;
                None
            },
            ProgressMsg::Failed(i, log) => {
                self.files[i].status = FileStatus::Failed;
                let mut t = "--- FFMPEG FAILURE LOG ---\n".to_string();
                t.append(log.as_str());
                t.append("\n--------------------------");
                Some(t)
            },
            ProgressMsg::AllDone => {
                self.is_converting = false;
                None
            },
        };
        proof {
            let a = old(self)@;
            let b = self@;
            match m {
                ProgressMsg::AllDone => {
                    assert(b.files == a.files);
                },
                _ => {
                    let i = progress_index(m)->0 as int;
                    assert(file_views(self.files@) =~= a.files.update(i, b.files[i]));
                    assert forall|j: int, k: StreamKind| 0 <= j < b.files.len() implies #[trigger] entry_fits(b.files[j], k) by {
                        assert(entry_fits(a.files[j], k));
                        assert(b.files[j].source(k) == a.files[j].source(k));
                        assert(b.files[j].target(k) == a.files[j].target(k));
                    }
                },
            }
            lemma_wf_from(a, b);
        }
        r
    }

    /// Starts a conversion unless one is running. The job holds a task for
    /// each file that is idle or whose last conversion failed, in list
    /// order, with the file's index, location, name and target codecs, and
    /// the constant rate factor and thread count in decimal; it shares the
    /// audio bitrate and the replace setting. While a conversion runs,
    /// nothing changes and no job is made.
    pub fn start_conversion(&mut self) -> (r: Option<ConversionJob>)
        requires
            old(self).wf(),
        ensures
            final(self).wf(),
            old(self)@.converting ==> r is None && final(self)@ == old(self)@,
            !old(self)@.converting ==> {
                &&& final(self)@ == (AppView { converting: true, ..old(self)@ })
                &&& r matches Some(job) && {
                    &&& task_views(job.tasks@) == scheduled(old(self)@.files, old(self)@.crf, old(self)@.threads)
                    &&& job.audio_bitrate@ == old(self)@.audio_bitrate
                    &&& job.replace_original == old(self)@.replace_original
                    &&& forall|t: int|
                        0 <= t < job.tasks@.len() ==> (#[trigger] job.tasks@[t])@.file_name == path_file_name(
                            job.tasks@[t]@.full_path,
                        )
                    &&& forall|t: int| 0 <= t < job.tasks@.len() ==> {
                        let task = #[trigger] job.tasks@[t];
                        let f = old(self)@.files[task.index as int];
                        &&& task.index < old(self)@.files.len()
                        &&& (f.status == FileStatus::Idle || f.status == FileStatus::Failed)
                        &&& task.full_path@ == f.full_path
                        &&& task.file_name@ == f.file_name
                        &&& task.video_codec@ == f.target_video
                        &&& task.audio_codec@ == f.target_audio
                        &&& task.subtitle_codec@ == f.target_subtitle
                        &&& is_decimal_of(task.crf@, old(self)@.crf)
                        &&& is_decimal_of(task.threads@, old(self)@.threads)
                    }
                }
            },
    {
        if self.is_converting {
            return None;
        }
        let crf_text = decimal_string(self.crf as u32);
        let threads_text = decimal_string(self.threads as u32);
        let ghost files = self@.files;
        let ghost crf = self@.crf;
        let ghost threads = self@.threads;
        let mut tasks: Vec<ConversionTask> = Vec::new();
        let n = self.files.len();
        let mut i: usize = 0;
        while i < n
            invariant
                n == self.files@.len(),
                files == file_views(self.files@),
                i <= n,
                crf_text@ == decimal_spec(crf as nat),
                threads_text@ == decimal_spec(threads as nat),
                task_views(tasks@) == scheduled(files.take(i as int), crf, threads),
            decreases n - i,
        {
            let f = &self.files[i];
            let ghost before = tasks@;
            assert(files.take(i + 1).drop_last() =~= files.take(i as int));
            assert(files.take(i + 1).last() == files[i as int]);
            if f.status == FileStatus::Idle || f.status == FileStatus::Failed {
                tasks.push(ConversionTask {
                    index: i,
                    full_path: f.full_path.clone(),
                    video_codec: f.new_video_codec.clone(),
                    audio_codec: f.new_audio_codec.clone(),
                    subtitle_codec: f.new_subtitle_type.clone(),
                    file_name: f.file_name.clone(),
                    crf: crf_text.clone(),
                    threads: threads_text.clone(),
                });
                assert(task_views(tasks@) =~= task_views(before).push(task_for(i as int, files[i as int], crf, threads)));
            }
            i = i + 1;
        }
        assert(files.take(n as int) =~= files);
        self.is_converting = true;
        proof {
            lemma_wf_from(old(self)@, self@);
            lemma_scheduled_exactly_pending(files, crf, threads);
            lemma_tasks_carry_file_choices(files, crf, threads);
            let sch = scheduled(files, crf, threads);
            assert forall|t: int| 0 <= t < tasks@.len() implies #[trigger] task_views(tasks@)[t] == sch[t] by {}
            assert forall|t: int| 0 <= t < tasks@.len() implies (#[trigger] task_views(tasks@)[t]) == tasks@[t]@ by {}
            assert forall|t: int| 0 <= t < tasks@.len() implies {
                let task = #[trigger] tasks@[t];
                let f = files[task.index as int];
                &&& task.index < files.len()
                &&& (f.status == FileStatus::Idle || f.status == FileStatus::Failed)
                &&& task.full_path@ == f.full_path
                &&& task.file_name@ == f.file_name
                &&& task.video_codec@ == f.target_video
                &&& task.audio_codec@ == f.target_audio
                &&& task.subtitle_codec@ == f.target_subtitle
                &&& is_decimal_of(task.crf@, crf)
                &&& is_decimal_of(task.threads@, threads)
            } by {
                assert(task_views(tasks@)[t] == sch[t]);
                assert(task_views(tasks@)[t] == tasks@[t]@);
            }
            assert forall|t: int| 0 <= t < tasks@.len() implies (#[trigger] tasks@[t])@.file_name
                == path_file_name(tasks@[t]@.full_path) by {
                assert(task_views(tasks@)[t] == tasks@[t]@);
                assert(sch[t] == task_for(sch[t].index, files[sch[t].index], crf, threads));
                assert(entry_fits(files[sch[t].index], StreamKind::Video));
            }
        }
        Some(ConversionJob {
            tasks,
            audio_bitrate: self.audio_bitrate.clone(),
            replace_original: self.replace_original,
        })
    }
}


/// A conversion schedules exactly the pending files: every task names a
/// pending file and carries that file's data; tasks come in list order,
/// one per file; and every pending file has a task. So a file that is done
/// or being processed is never converted again.
pub proof fn lemma_scheduled_exactly_pending(files: Seq<FileView>, crf: int, threads: int)
    ensures
        forall|t: int| 0 <= t < scheduled(files, crf, threads).len() ==> {
            let task = #[trigger] scheduled(files, crf, threads)[t];
            &&& 0 <= task.index < files.len()
            &&& is_pending(files[task.index].status)
            &&& task == task_for(task.index, files[task.index], crf, threads)
        },
        forall|t1: int, t2: int|
            0 <= t1 < t2 < scheduled(files, crf, threads).len() ==> #[trigger] scheduled(files, crf, threads)[t1].index
                < #[trigger] scheduled(files, crf, threads)[t2].index,
        forall|j: int|
            0 <= j < files.len() && is_pending(#[trigger] files[j].status) ==> exists|t: int|
                0 <= t < scheduled(files, crf, threads).len() && #[trigger] scheduled(files, crf, threads)[t].index == j,
    decreases files.len(),
{
    if files.len() > 0 {
        let init = files.drop_last();
        lemma_scheduled_exactly_pending(init, crf, threads);
        let earlier = scheduled(init, crf, threads);
        let sch = scheduled(files, crf, threads);
        assert forall|t: int| 0 <= t < earlier.len() implies #[trigger] earlier[t].index < files.len() - 1 by {
        }
        assert forall|j: int| 0 <= j < files.len() && is_pending(#[trigger] files[j].status) implies exists|t: int|
            0 <= t < sch.len() && #[trigger] sch[t].index == j by {
            if j < files.len() - 1 {
                assert(init[j] == files[j]);
                let t = choose|t: int| 0 <= t < earlier.len() && #[trigger] earlier[t].index == j;
                assert(sch[t] == earlier[t]);
            } else {
                assert(sch[sch.len() - 1].index == j);
            }
        }
        assert forall|t: int| 0 <= t < sch.len() implies {
            let task = #[trigger] sch[t];
            &&& 0 <= task.index < files.len()
            &&& is_pending(files[task.index].status)
            &&& task == task_for(task.index, files[task.index], crf, threads)
        } by {
            if t < earlier.len() {
                assert(sch[t] == earlier[t]);
                assert(init[earlier[t].index] == files[earlier[t].index]);
            }
        }
    }
}

/// A progress report changes nothing but the status of the file it names,
/// or, at the end of a job, the running flag; no report makes a file done
/// but one that names it as finished.
pub proof fn lemma_progress_touches_only_its_file(app: AppView, msg: ProgressMsg)
    requires
        progress_index(msg) matches Some(i) ==> i < app.files.len(),
    ensures
        after_progress(app, msg).files.len() == app.files.len(),
        forall|j: int|
            0 <= j < app.files.len() && progress_index(msg) != Some(j as usize) ==> #[trigger] after_progress(app, msg).files[j]
                == app.files[j],
        forall|j: int|
            0 <= j < app.files.len() ==> (#[trigger] after_progress(app, msg).files[j]).with_status(app.files[j].status)
                == app.files[j],
        forall|j: int|
            0 <= j < app.files.len() && app.files[j].status != FileStatus::Done && #[trigger] after_progress(app, msg).files[j].status
                == FileStatus::Done ==> msg == ProgressMsg::Finished(j as usize),
        (after_progress(app, msg).converting != app.converting) ==> msg is AllDone,
{
}

/// The text shown for a file's status.
pub open spec fn status_text_spec(status: FileStatus) -> Seq<char> {
    match status {
        FileStatus::Idle => "Idle"@,
        FileStatus::Processing => "-"@,
        FileStatus::Done => "\u{2714}"@,
        FileStatus::Failed => "\u{2718}"@,
    }
}

/// The text shown for a file's status: "Idle", a dash while processing, a
/// check mark when done, a cross when failed.
pub fn status_text(status: FileStatus) -> (r: &'static str)
    ensures
        r@ == status_text_spec(status),
{
    match status {
        FileStatus::Idle => "Idle",
        FileStatus::Processing => "-",
        FileStatus::Done => "\u{2714}",
        FileStatus::Failed => "\u{2718}",
    }
}

/// In a well-formed state a file's target for a kind of stream is "None"
/// exactly when the file has no such stream: a present stream is never
/// handed to ffmpeg as absent, and an absent one never gets a codec.
pub proof fn lemma_targets_follow_sources(app: AppView)
    requires
        app_wf(app),
    ensures
        forall|i: int, k: StreamKind|
            0 <= i < app.files.len() ==> ((#[trigger] app.files[i].target(k) == absent()) <==> (
            app.files[i].source(k) == absent())),
{
    assert forall|i: int, k: StreamKind| 0 <= i < app.files.len() implies ((#[trigger] app.files[i].target(k)
        == absent()) <==> (app.files[i].source(k) == absent())) by {
        assert(entry_fits(app.files[i], k));
        lemma_codec_lists(k);
    }
}

/// Taking off the list the file that was just listed gives back the state
/// from before it was listed.
pub proof fn lemma_remove_undoes_add(
    app: AppView,
    path: Seq<char>,
    video: Seq<char>,
    audio: Seq<char>,
    subtitle: Seq<char>,
)
    ensures
        ({
            let added = app.with_files(app.files.push(new_entry(app, path, video, audio, subtitle)));
            added.with_files(added.files.remove(app.files.len() as int)) == app
        }),
{
    let added = app.with_files(app.files.push(new_entry(app, path, video, audio, subtitle)));
    assert(added.files.remove(app.files.len() as int) =~= app.files);
}

/// Retargeting the files to one codec and then to another leaves them as
/// retargeting to the second alone does: of two different default choices
/// made in turn, the last wins.
pub proof fn lemma_last_default_wins(files: Seq<FileView>, kind: StreamKind, first: Seq<char>, second: Seq<char>)
    ensures
        retarget_all(retarget_all(files, kind, first), kind, second) == retarget_all(files, kind, second),
{
    assert forall|i: int| 0 <= i < files.len() implies #[trigger] retarget_all(
        retarget_all(files, kind, first),
        kind,
        second,
    )[i] == retarget_all(files, kind, second)[i] by {
        let f = files[i];
        assert(retarget(f, kind, first).source(kind) == f.source(kind));
    }
    assert(retarget_all(retarget_all(files, kind, first), kind, second) =~= retarget_all(files, kind, second));
}

/// Whether `text` is the canonical decimal text of `n`: digits only, no
/// leading zero, and reading back as `n`.
pub open spec fn is_decimal_of(text: Seq<char>, n: int) -> bool {
    &&& text.len() > 0
    &&& forall|i: int| 0 <= i < text.len() ==> is_digit(#[trigger] text[i])
    &&& (text.len() > 1 ==> text[0] != '0')
    &&& decimal_value(text) == n
}

/// Every task of a conversion is for a file that is idle or whose last
/// conversion failed, and carries that file's path, its name, the codecs
/// chosen for its video, audio and subtitle streams, and the rate factor
/// and thread count in decimal; the tasks come in list order, and every
/// idle or failed file has one.
pub proof fn lemma_tasks_carry_file_choices(files: Seq<FileView>, crf: int, threads: int)
    requires
        crf >= 0,
        threads >= 0,
    ensures
        forall|t: int| 0 <= t < scheduled(files, crf, threads).len() ==> {
            let task = #[trigger] scheduled(files, crf, threads)[t];
            let f = files[task.index];
            &&& 0 <= task.index < files.len()
            &&& (f.status == FileStatus::Idle || f.status == FileStatus::Failed)
            &&& task.full_path == f.full_path
            &&& task.file_name == f.file_name
            &&& task.video_codec == f.target_video
            &&& task.audio_codec == f.target_audio
            &&& task.subtitle_codec == f.target_subtitle
            &&& is_decimal_of(task.crf, crf)
            &&& is_decimal_of(task.threads, threads)
        },
        forall|t1: int, t2: int|
            0 <= t1 < t2 < scheduled(files, crf, threads).len() ==> #[trigger] scheduled(files, crf, threads)[t1].index
                < #[trigger] scheduled(files, crf, threads)[t2].index,
        forall|j: int|
            0 <= j < files.len() && (files[j].status == FileStatus::Idle || files[j].status == FileStatus::Failed)
                ==> exists|t: int|
                0 <= t < scheduled(files, crf, threads).len() && #[trigger] scheduled(files, crf, threads)[t].index == j,
{
    lemma_scheduled_exactly_pending(files, crf, threads);
    lemma_decimal_roundtrip(crf as nat);
    lemma_decimal_roundtrip(threads as nat);
    let sch = scheduled(files, crf, threads);
    assert forall|j: int|
        0 <= j < files.len() && (files[j].status == FileStatus::Idle || files[j].status == FileStatus::Failed)
            implies exists|t: int| 0 <= t < sch.len() && #[trigger] sch[t].index == j by {
        assert(is_pending(files[j].status));
    }
}

/// Choosing a codec for a kind of stream sets that stream's target to the
/// codec in a file that has such a stream, whatever the file's status, and
/// leaves everything else as it was; a file without such a stream is left
/// as it is.
pub proof fn lemma_retarget_sets_target(f: FileView, kind: StreamKind, codec: Seq<char>)
    ensures
        f.source(kind) != "None"@ ==> {
            let g = retarget(f, kind, codec);
            &&& g.target(kind) == codec
            &&& forall|k: StreamKind| k != kind ==> #[trigger] g.target(k) == f.target(k)
            &&& forall|k: StreamKind| #[trigger] g.source(k) == f.source(k)
            &&& g.status == f.status
            &&& g.full_path == f.full_path
            &&& g.file_name == f.file_name
        },
        f.source(kind) == "None"@ ==> retarget(f, kind, codec) == f,
{
}

/// A newly listed file keeps its path and probed codecs, is named after
/// its path, starts idle, and gets "None" as the target of each absent
/// stream and the current default of its kind for each present one; it is
/// listed exactly when the video probe did not fail and not all three
/// streams are absent.
pub proof fn lemma_new_entry_fields(
    app: AppView,
    path: Seq<char>,
    video: Seq<char>,
    audio: Seq<char>,
    subtitle: Seq<char>,
)
    ensures
        ({
            let e = new_entry(app, path, video, audio, subtitle);
            &&& e.full_path == path
            &&& e.file_name == path_file_name(path)
            &&& e.video == video
            &&& e.audio == audio
            &&& e.subtitle == subtitle
            &&& e.status == FileStatus::Idle
            &&& e.target_video == (if video == "None"@ { "None"@ } else { app.default_video })
            &&& e.target_audio == (if audio == "None"@ { "None"@ } else { app.default_audio })
            &&& e.target_subtitle == (if subtitle == "None"@ { "None"@ } else { app.default_subtitle })
        }),
        accepts_probe(video, audio, subtitle) <==> (video != "Invalid"@ && !(video == "None"@ && audio
            == "None"@ && subtitle == "None"@)),
{
}

/// Each progress report sets the status it names: started files are
/// processing, finished ones done, failed ones failed; the end of a job
/// ends the conversion and leaves the files alone.
pub proof fn lemma_progress_statuses(app: AppView, i: usize, log: String)
    requires
        i < app.files.len(),
    ensures
        after_progress(app, ProgressMsg::Started(i)).files[i as int].status == FileStatus::Processing,
        after_progress(app, ProgressMsg::Finished(i)).files[i as int].status == FileStatus::Done,
        after_progress(app, ProgressMsg::Failed(i, log)).files[i as int].status == FileStatus::Failed,
        after_progress(app, ProgressMsg::Started(i)).converting == app.converting,
        after_progress(app, ProgressMsg::Finished(i)).converting == app.converting,
        after_progress(app, ProgressMsg::Failed(i, log)).converting == app.converting,
        !after_progress(app, ProgressMsg::AllDone).converting,
        after_progress(app, ProgressMsg::AllDone).files == app.files,
{
}

/// Clamping keeps a value inside its bounds and leaves a value that is
/// already inside them unchanged; values below go to the low bound and
/// values above to the high one.
pub proof fn lemma_clamp(v: int, lo: int, hi: int)
    requires
        lo <= hi,
    ensures
        lo <= clamp(v, lo, hi) <= hi,
        lo <= v <= hi ==> clamp(v, lo, hi) == v,
        v < lo ==> clamp(v, lo, hi) == lo,
        v > hi ==> clamp(v, lo, hi) == hi,
        max_crf() == 51,
        max_threads() == 64,
{
}

/// A fresh state has no files, rate factor 23, audio bitrate "192k", thread
/// count 0, originals kept, `copy` as every default and no conversion
/// running; statuses show as "Idle", "-", a check mark and a cross; a
/// failure is printed between a header and a rule.
pub proof fn lemma_fixed_texts_and_start(log: Seq<char>)
    ensures
        initial_state().files.len() == 0,
        initial_state().crf == 23,
        initial_state().audio_bitrate == "192k"@,
        initial_state().threads == 0,
        !initial_state().replace_original,
        initial_state().default_video == "copy"@,
        initial_state().default_audio == "copy"@,
        initial_state().default_subtitle == "copy"@,
        !initial_state().converting,
        status_text_spec(FileStatus::Idle) == "Idle"@,
        status_text_spec(FileStatus::Processing) == "-"@,
        status_text_spec(FileStatus::Done) == "\u{2714}"@,
        status_text_spec(FileStatus::Failed) == "\u{2718}"@,
        failure_report(log) == "--- FFMPEG FAILURE LOG ---\n"@ + log + "\n--------------------------"@,
{
}

} // verus!
