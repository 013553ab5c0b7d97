//! The decisions of a video conversion run, as a state machine. The caller
//! performs what [`VideoRun::next_action`] asks (reading the cancel flag,
//! file sizes, creating folders, running FFmpeg), reports what came of it
//! through one of the `on_*` methods, and emits the progress and removes
//! the files that each method's [`VideoStep`] names.
use vstd::prelude::*;
use crate::paths::{parent, path_parent, PathStyle};
use crate::text::{chars_of, trim, trim_bounds};
use crate::video::{
    build_ffmpeg_args, output_path_in, quality_to_crf, spec_crf, spec_ffmpeg_args, spec_output_path,
    VideoFormat, VideoProgress, VideoReport,
};
use crate::scan::str_views;
use crate::converter::{display_name, file_display_name};

verus! {

/// How many of FFmpeg's last error-output lines are kept for the failure message.
pub const TAIL_LINES: usize = 12;

/// Where a run stands.
#[derive(Debug, Clone, Copy, PartialEq, Eq, Structural)]
pub enum VideoStage {
    /// Before the next file: the cancel flag is to be read.
    Next,
    /// The size of the file and whether its output exists are to be found.
    Inspecting,
    /// The output folder is to be created.
    CreatingDir,
    /// FFmpeg is to be started.
    Launching,
    /// FFmpeg is running.
    Encoding,
    /// The run is over.
    Done,
}

/// What the caller is to do next.
pub enum VideoAction {
    /// Read the cancel flag and call [`VideoRun::on_next`].
    CheckCancel,
    /// Find the size of `input` (0 when unknown) and whether `dest` exists,
    /// and call [`VideoRun::on_inspected`].
    Inspect { input: String, dest: Option<String> },
    /// Create the folder `dir` (and its parents) and call [`VideoRun::on_dir_created`].
    CreateDir { dir: String },
    /// Start FFmpeg with `args` and call [`VideoRun::on_launched`].
    Launch { args: Vec<String> },
    /// Wait for FFmpeg's next output line or its exit, and call
    /// [`VideoRun::on_stderr_line`], [`VideoRun::on_percent`] or
    /// [`VideoRun::on_exited`].
    Watch,
    /// The run is over: report it.
    Finish,
}

/// Side effects of one transition.
pub struct VideoStep {
    /// Progress to emit.
    pub emit: Option<VideoProgress>,
    /// A (partial) output file to delete.
    pub remove: Option<String>,
    /// Kill the FFmpeg just started.
    pub kill: bool,
}

/// How starting FFmpeg went.
pub enum LaunchOutcome {
    /// The FFmpeg program could not be found; its error's description.
    Unavailable(String),
    /// FFmpeg could not be started; its error's description.
    SpawnFailed(String),
    /// FFmpeg is running; whether the run was cancelled meanwhile.
    Started { cancelled: bool },
}

/// A run converting a list of videos, one after the other.
pub struct VideoRun {
    style: PathStyle,
    files: Vec<String>,
    format: VideoFormat,
    crf: u8,
    max_height: u32,
    silent: bool,
    index: usize,
    stage: VideoStage,
    report: VideoReport,
    file_name: String,
    size_before: u64,
    dest: Option<String>,
    last_percent: u8,
    tail: Vec<String>,
}

/// The line list after `line` was added, keeping only the last [`TAIL_LINES`].
pub open spec fn tail_push(t: Seq<Seq<char>>, line: Seq<char>) -> Seq<Seq<char>> {
    if t.len() + 1 > TAIL_LINES {
        t.push(line).drop_first()
    } else {
        t.push(line)
    }
}

/// The last line that is not blank (white space only), if any.
pub open spec fn last_nonblank(t: Seq<Seq<char>>) -> Option<Seq<char>>
    decreases t.len(),
{
    if t.len() == 0 {
        None
    } else if trim(t.last()).len() > 0 {
        Some(t.last())
    } else {
        last_nonblank(t.drop_last())
    }
}

/// Why FFmpeg failed: its last non-blank error line, or `ffmpeg failed`.
pub open spec fn failure_text(t: Seq<Seq<char>>) -> Seq<char> {
    match last_nonblank(t) {
        Some(l) => l,
        None => "ffmpeg failed"@,
    }
}

/// The message of an FFmpeg launch that failed.
pub open spec fn launch_failure_text(o: LaunchOutcome) -> Seq<char> {
    match o {
        LaunchOutcome::Unavailable(e) => "ffmpeg not available: "@ + e@,
        LaunchOutcome::SpawnFailed(e) => "ffmpeg spawn failed: "@ + e@,
        LaunchOutcome::Started { .. } => Seq::empty(),
    }
}

/// Optional string as optional characters.
pub open spec fn opt_view(o: Option<String>) -> Option<Seq<char>> {
    match o {
        Some(s) => Some(s@),
        None => None,
    }
}

/// The progress `p` is about file `index` (0-based) of `total`, named
/// `name`, `size_before` bytes large, at `percent`, with the given
/// after-size, status and message.
pub open spec fn describes(
    p: VideoProgress,
    index: int,
    total: int,
    name: Seq<char>,
    size_before: u64,
    percent: u8,
    size_after: u64,
    status: Seq<char>,
    msg: Option<Seq<char>>,
) -> bool {
    &&& p.current == index + 1
    &&& p.total == total
    &&& p.file_name@ == name
    &&& p.file_percent == percent
    &&& p.size_before == size_before
    &&& p.size_after == size_after
    &&& p.status@ == status
    &&& opt_view(p.error_message) == msg
}

/// The progress `p` is about the current file of `r` (whose size is
/// `size_before`), at `percent`, with the given after-size, status and message.
pub open spec fn describes_current(
    p: VideoProgress,
    r: VideoRun,
    size_before: u64,
    percent: u8,
    size_after: u64,
    status: Seq<char>,
    msg: Option<Seq<char>>,
) -> bool {
    describes(p, r.spec_index(), r.spec_files().len() as int, r.spec_file_name(), size_before, percent, size_after, status, msg)
}

/// The counters of `b` are those of `a`, but for `d` more converted, `s`
/// more skipped and `e` more errors.
pub open spec fn counts_moved(a: VideoReport, b: VideoReport, d: int, s: int, e: int) -> bool {
    &&& b.converted == a.converted + d
    &&& b.skipped == a.skipped + s
    &&& b.errors == a.errors + e
}

/// The reports agree on everything but the counters.
pub open spec fn same_totals(a: VideoReport, b: VideoReport) -> bool {
    &&& a.cancelled == b.cancelled
    &&& a.total_size_before == b.total_size_before
    &&& a.total_size_after == b.total_size_after
    &&& opt_view(a.first_output_dir) == opt_view(b.first_output_dir)
}

/// `b` is `a` with the run cancelled: no file counted, nothing else changed.
pub open spec fn report_cancelled(a: VideoReport, b: VideoReport) -> bool {
    &&& counts_moved(a, b, 0, 0, 0)
    &&& b.cancelled
    &&& a.total_size_before == b.total_size_before
    &&& a.total_size_after == b.total_size_after
    &&& opt_view(a.first_output_dir) == opt_view(b.first_output_dir)
}

/// `b` is `a` with the current file finished: moved to the next one, whose
/// cancel flag is to be read, or done when it was the last.
pub open spec fn finished_file(a: VideoRun, b: VideoRun) -> bool {
    &&& b.spec_index() == a.spec_index() + 1
    &&& b.spec_stage() == (if b.spec_index() < a.spec_files().len() { VideoStage::Next } else { VideoStage::Done })
    &&& b.same_job(a)
}

impl VideoRun {
    /// How the run reads paths.
    pub closed spec fn spec_style(self) -> PathStyle {
        self.style
    }

    /// The files of the run.
    pub closed spec fn spec_files(self) -> Seq<Seq<char>> {
        str_views(self.files@)
    }

    /// Output format.
    pub closed spec fn spec_format(self) -> VideoFormat {
        self.format
    }

    /// CRF used for every file.
    pub closed spec fn spec_crf(self) -> u8 {
        self.crf
    }

    /// Height cap.
    pub closed spec fn spec_max_height(self) -> u32 {
        self.max_height
    }

    /// Audio dropped.
    pub closed spec fn spec_silent(self) -> bool {
        self.silent
    }

    /// Index of the current file (the number of files finished).
    pub closed spec fn spec_index(self) -> int {
        self.index as int
    }

    /// Where the run stands.
    pub closed spec fn spec_stage(self) -> VideoStage {
        self.stage
    }

    /// The totals so far.
    pub closed spec fn spec_report(self) -> VideoReport {
        self.report
    }

    /// The current file's name.
    pub closed spec fn spec_file_name(self) -> Seq<char> {
        self.file_name@
    }

    /// The current file's size.
    pub closed spec fn spec_size_before(self) -> u64 {
        self.size_before
    }

    /// The current file's output path.
    pub closed spec fn spec_dest(self) -> Option<Seq<char>> {
        opt_view(self.dest)
    }

    /// The last percentage emitted for the current file.
    pub closed spec fn spec_last_percent(self) -> u8 {
        self.last_percent
    }

    /// The last lines of FFmpeg's error output for the current file.
    pub closed spec fn spec_tail(self) -> Seq<Seq<char>> {
        str_views(self.tail@)
    }

    /// The two runs convert the same files the same way.
    pub open spec fn same_job(self, other: VideoRun) -> bool {
        &&& self.spec_style() == other.spec_style()
        &&& self.spec_files() == other.spec_files()
        &&& self.spec_format() == other.spec_format()
        &&& self.spec_crf() == other.spec_crf()
        &&& self.spec_max_height() == other.spec_max_height()
        &&& self.spec_silent() == other.spec_silent()
    }

    /// The run's internal consistency: every finished file is counted once,
    /// the tail holds at most [`TAIL_LINES`] lines, and a file is being
    /// handled exactly in the stages between `Next` and `Done`, with an
    /// output path once it is past inspection.
    pub closed spec fn wf(self) -> bool {
        &&& self.files@.len() <= usize::MAX
        &&& self.index <= self.files@.len()
        &&& self.report.converted + self.report.skipped + self.report.errors == self.index
        &&& self.tail@.len() <= TAIL_LINES
        &&& (self.stage == VideoStage::Next ==> self.index < self.files@.len())
        &&& (self.stage != VideoStage::Next && self.stage != VideoStage::Done) ==> self.index < self.files@.len()
        &&& (self.stage == VideoStage::CreatingDir || self.stage == VideoStage::Launching
            || self.stage == VideoStage::Encoding) ==> self.dest is Some
        &&& self.stage == VideoStage::CreatingDir ==> parent(self.style, self.dest->0@) is Some
        &&& self.report.cancelled ==> self.stage == VideoStage::Done
        &&& self.report.cancelled ==> self.index < self.files@.len()
        &&& (self.stage == VideoStage::Done && !self.report.cancelled) ==> self.index == self.files@.len()
    }

    /// A run over `files`, read in the path style `style`, converting to
    /// `format` at the CRF for `quality`, capping the height at
    /// `max_height`, dropping audio when `silent`.
    pub fn new(style: PathStyle, files: Vec<String>, format: VideoFormat, quality: u32, max_height: u32, silent: bool) -> (r: VideoRun)
        ensures
            r.wf(),
            r.spec_style() == style,
            r.spec_files() == str_views(files@),
            r.spec_format() == format,
            r.spec_crf() == spec_crf(quality, format),
            r.spec_max_height() == max_height,
            r.spec_silent() == silent,
            r.spec_index() == 0,
            r.spec_stage() == (if files@.len() > 0 { VideoStage::Next } else { VideoStage::Done }),
            counts_moved(r.spec_report(), r.spec_report(), 0, 0, 0),
            r.spec_report().converted == 0 && r.spec_report().skipped == 0 && r.spec_report().errors == 0,
            !r.spec_report().cancelled,
            r.spec_report().total_size_before == 0 && r.spec_report().total_size_after == 0,
            r.spec_report().first_output_dir is None,
    {
        let stage = if files.len() > 0 { VideoStage::Next } else { VideoStage::Done };
        VideoRun {
            style,
            files,
            format,
            crf: quality_to_crf(quality, format),
            max_height,
            silent,
            index: 0,
            stage,
            report: VideoReport {
                converted: 0,
                skipped: 0,
                errors: 0,
                cancelled: false,
                total_size_before: 0,
                total_size_after: 0,
                first_output_dir: None,
            },
            file_name: String::new(),
            size_before: 0,
            dest: None,
            last_percent: 0,
            tail: Vec::new(),
        }
    }

    /// Where the run stands.
    pub fn stage(&self) -> (s: VideoStage)
        ensures
            s == self.spec_stage(),
    {
        self.stage
    }

    /// The totals so far.
    pub fn report(&self) -> (r: &VideoReport)
        ensures
            *r == self.spec_report(),
    {
        &self.report
    }

    /// What the caller is to do next, by stage: read the cancel flag; find
    /// the file's size and whether its output exists; create the output's
    /// folder; start FFmpeg with the run's arguments; watch FFmpeg; or
    /// report the run.
    pub fn next_action(&self) -> (a: VideoAction)
        requires
            self.wf(),
        ensures
            self.spec_stage() == VideoStage::Next ==> a is CheckCancel,
            self.spec_stage() == VideoStage::Inspecting ==> (a matches VideoAction::Inspect { input, dest } && input@ == self.spec_files()[self.spec_index()] && opt_view(dest) == self.spec_dest()),
            self.spec_stage() == VideoStage::CreatingDir ==> (a matches VideoAction::CreateDir { dir } && Some(dir@) == parent(self.spec_style(), self.spec_dest()->0)),
            self.spec_stage() == VideoStage::Launching ==> (a matches VideoAction::Launch { args } && str_views(args@) == spec_ffmpeg_args(self.spec_files()[self.spec_index()], self.spec_dest()->0, self.spec_format(), self.spec_crf(), self.spec_max_height(), self.spec_silent())),
            self.spec_stage() == VideoStage::Encoding ==> a is Watch,
            self.spec_stage() == VideoStage::Done ==> a is Finish,
    {
        match self.stage {
            VideoStage::Next => VideoAction::CheckCancel,
            VideoStage::Inspecting => {
                let input = self.files[self.index].clone();
                let dest = match &self.dest {
                    Some(d) => Some(d.clone()),
                    None => None,
                };
                VideoAction::Inspect { input, dest }
            },
            VideoStage::CreatingDir => {
                let d = self.dest.as_ref().unwrap();
                match path_parent(self.style, d.as_str()) {
                    Some(dir) => VideoAction::CreateDir { dir },
                    // The output path always has a parent; this arm is never taken.
                    None => VideoAction::CreateDir { dir: String::new() },
                }
            },
            VideoStage::Launching => {
                let d = self.dest.as_ref().unwrap();
                VideoAction::Launch {
                    args: build_ffmpeg_args(self.files[self.index].as_str(), d.as_str(), self.format, self.crf, self.max_height, self.silent),
                }
            },
            VideoStage::Encoding => VideoAction::Watch,
            VideoStage::Done => VideoAction::Finish,
        }
    }

    /// Progress about the current file.
    fn progress(&self, percent: u8, size_after: u64, status: &str, msg: Option<String>) -> (p: VideoProgress)
        requires
            self.index < usize::MAX,
        ensures
            describes_current(p, *self, self.spec_size_before(), percent, size_after, status@, opt_view(msg)),
    {
        VideoProgress {
            current: self.index + 1,
            total: self.files.len(),
            file_name: self.file_name.clone(),
            file_percent: percent,
            size_before: self.size_before,
            size_after,
            status: String::from_str(status),
            error_message: msg,
        }
    }

    /// Moves to the next file, or ends the run after the last.
    fn finish_file(&mut self)
        requires
            old(self).index < old(self).files@.len(),
            old(self).files@.len() <= usize::MAX,
        ensures
            finished_file(*old(self), *final(self)),
            final(self).report == old(self).report,
            final(self).tail == old(self).tail,
            final(self).dest == old(self).dest,
    {
        self.index = self.index + 1;
        self.stage = if self.index < self.files.len() { VideoStage::Next } else { VideoStage::Done };
    }

    /// The cancel flag was read before the next file: a cancelled run ends;
    /// otherwise the file's name and output path are worked out, and its
    /// inspection is due. In any other stage nothing happens.
    pub fn on_next(&mut self, cancelled: bool) -> (step: VideoStep)
        requires
            old(self).wf(),
        ensures
            final(self).wf(),
            final(self).same_job(*old(self)),
            step.emit is None && step.remove is None && !step.kill,
            old(self).spec_stage() != VideoStage::Next ==> *final(self) == *old(self),
            old(self).spec_stage() == VideoStage::Next && cancelled ==> {
                &&& final(self).spec_stage() == VideoStage::Done
                &&& final(self).spec_index() == old(self).spec_index()
                &&& report_cancelled(old(self).spec_report(), final(self).spec_report())
            },
            old(self).spec_stage() == VideoStage::Next && !cancelled ==> {
                let input = old(self).spec_files()[old(self).spec_index()];
                &&& final(self).spec_stage() == VideoStage::Inspecting
                &&& final(self).spec_index() == old(self).spec_index()
                &&& final(self).spec_report() == old(self).spec_report()
                &&& final(self).spec_file_name() == display_name(old(self).spec_style(), input)
                &&& final(self).spec_dest() == spec_output_path(old(self).spec_style(), input, old(self).spec_format())
            },
    {
        let none = VideoStep { emit: None, remove: None, kill: false };
        if self.stage != VideoStage::Next {
            return none;
        }
        if cancelled {
            self.report.cancelled = true;
            self.stage = VideoStage::Done;
            return none;
        }
        let input = self.files[self.index].as_str();
        self.file_name = file_display_name(self.style, input);
        self.dest = output_path_in(self.style, input, self.format);
        self.stage = VideoStage::Inspecting;
        proof {
            assert(str_views(self.files@)[self.index as int] == self.files@[self.index as int]@);
        }
        none
    }

    /// The file's size and whether its output exists are known. Without an
    /// output path the file fails (`Invalid path`); with an existing output
    /// it is skipped (at 100%); otherwise the output's folder is to be
    /// created (or, should the path have no folder, FFmpeg started).
    pub fn on_inspected(&mut self, size_before: u64, dest_exists: bool) -> (step: VideoStep)
        requires
            old(self).wf(),
        ensures
            final(self).wf(),
            final(self).same_job(*old(self)),
            step.remove is None && !step.kill,
            old(self).spec_stage() != VideoStage::Inspecting ==> *final(self) == *old(self) && step.emit is None,
            old(self).spec_stage() == VideoStage::Inspecting && old(self).spec_dest() is None ==> {
                &&& finished_file(*old(self), *final(self))
                &&& counts_moved(old(self).spec_report(), final(self).spec_report(), 0, 0, 1)
                &&& same_totals(old(self).spec_report(), final(self).spec_report())
                &&& step.emit matches Some(p) && describes_current(p, *old(self), size_before, 0, 0, "error"@, Some("Invalid path"@))
            },
            old(self).spec_stage() == VideoStage::Inspecting && old(self).spec_dest() is Some && dest_exists ==> {
                &&& finished_file(*old(self), *final(self))
                &&& counts_moved(old(self).spec_report(), final(self).spec_report(), 0, 1, 0)
                &&& same_totals(old(self).spec_report(), final(self).spec_report())
                &&& step.emit matches Some(p) && describes_current(p, *old(self), size_before, 100, 0, "skip"@, None)
            },
            old(self).spec_stage() == VideoStage::Inspecting && old(self).spec_dest() is Some && !dest_exists ==> {
                &&& final(self).spec_stage() == (if parent(old(self).spec_style(), old(self).spec_dest()->0) is Some { VideoStage::CreatingDir } else { VideoStage::Launching })
                &&& final(self).spec_index() == old(self).spec_index()
                &&& final(self).spec_report() == old(self).spec_report()
                &&& final(self).spec_dest() == old(self).spec_dest()
                &&& final(self).spec_file_name() == old(self).spec_file_name()
                &&& final(self).spec_size_before() == size_before
                &&& step.emit is None
            },
    {
        if self.stage != VideoStage::Inspecting {
            return VideoStep { emit: None, remove: None, kill: false };
        }
        self.size_before = size_before;
        if self.dest.is_none() {
            self.report.errors = self.report.errors + 1;
            let p = self.progress(0, 0, "error", Some(String::from_str("Invalid path")));
            self.finish_file();
            return VideoStep { emit: Some(p), remove: None, kill: false };
        }
        if dest_exists {
            self.report.skipped = self.report.skipped + 1;
            let p = self.progress(100, 0, "skip", None);
            self.finish_file();
            return VideoStep { emit: Some(p), remove: None, kill: false };
        }
        let has_dir = match &self.dest {
            Some(d) => path_parent(self.style, d.as_str()).is_some(),
            None => false,
        };
        self.stage = if has_dir { VideoStage::CreatingDir } else { VideoStage::Launching };
        VideoStep { emit: None, remove: None, kill: false }
    }

    /// The output's folder was created, or could not be (`error` holds why):
    /// then the file fails with `Cannot create output dir: ` and the reason;
    /// otherwise FFmpeg is to be started.
    pub fn on_dir_created(&mut self, error: Option<String>) -> (step: VideoStep)
        requires
            old(self).wf(),
        ensures
            final(self).wf(),
            final(self).same_job(*old(self)),
            step.remove is None && !step.kill,
            old(self).spec_stage() != VideoStage::CreatingDir ==> *final(self) == *old(self) && step.emit is None,
            old(self).spec_stage() == VideoStage::CreatingDir && error is Some ==> {
                &&& finished_file(*old(self), *final(self))
                &&& counts_moved(old(self).spec_report(), final(self).spec_report(), 0, 0, 1)
                &&& same_totals(old(self).spec_report(), final(self).spec_report())
                &&& step.emit matches Some(p) && describes_current(p, *old(self), old(self).spec_size_before(), 0, 0, "error"@, Some("Cannot create output dir: "@ + error->0@))
            },
            old(self).spec_stage() == VideoStage::CreatingDir && error is None ==> {
                &&& final(self).spec_stage() == VideoStage::Launching
                &&& final(self).spec_index() == old(self).spec_index()
                &&& final(self).spec_report() == old(self).spec_report()
                &&& final(self).spec_dest() == old(self).spec_dest()
                &&& final(self).spec_file_name() == old(self).spec_file_name()
                &&& final(self).spec_size_before() == old(self).spec_size_before()
                &&& step.emit is None
            },
    {
        if self.stage != VideoStage::CreatingDir {
            return VideoStep { emit: None, remove: None, kill: false };
        }
        match error {
            Some(e) => {
                let mut m = String::from_str("Cannot create output dir: ");
                m.append(e.as_str());
                self.report.errors = self.report.errors + 1;
                let p = self.progress(0, 0, "error", Some(m));
                self.finish_file();
                VideoStep { emit: Some(p), remove: None, kill: false }
            },
            None => {
                self.stage = VideoStage::Launching;
                VideoStep { emit: None, remove: None, kill: false }
            },
        }
    }

    /// How starting FFmpeg went. If it failed the file fails with the
    /// launch failure's message. If the run was cancelled meanwhile, the
    /// fresh FFmpeg is to be killed and the run ends. Otherwise encoding
    /// starts, at 0%.
    pub fn on_launched(&mut self, outcome: LaunchOutcome) -> (step: VideoStep)
        requires
            old(self).wf(),
        ensures
            final(self).wf(),
            final(self).same_job(*old(self)),
            step.remove is None,
            old(self).spec_stage() != VideoStage::Launching ==> *final(self) == *old(self) && step.emit is None && !step.kill,
            old(self).spec_stage() == VideoStage::Launching && !(outcome is Started) ==> {
                &&& finished_file(*old(self), *final(self))
                &&& counts_moved(old(self).spec_report(), final(self).spec_report(), 0, 0, 1)
                &&& same_totals(old(self).spec_report(), final(self).spec_report())
                &&& step.emit matches Some(p) && describes_current(p, *old(self), old(self).spec_size_before(), 0, 0, "error"@, Some(launch_failure_text(outcome)))
                &&& !step.kill
            },
            old(self).spec_stage() == VideoStage::Launching && outcome == (LaunchOutcome::Started { cancelled: true }) ==> {
                &&& final(self).spec_stage() == VideoStage::Done
                &&& final(self).spec_index() == old(self).spec_index()
                &&& report_cancelled(old(self).spec_report(), final(self).spec_report())
                &&& step.emit is None
                &&& step.kill
            },
            old(self).spec_stage() == VideoStage::Launching && outcome == (LaunchOutcome::Started { cancelled: false }) ==> {
                &&& final(self).spec_stage() == VideoStage::Encoding
                &&& final(self).spec_index() == old(self).spec_index()
                &&& final(self).spec_report() == old(self).spec_report()
                &&& final(self).spec_dest() == old(self).spec_dest()
                &&& final(self).spec_file_name() == old(self).spec_file_name()
                &&& final(self).spec_size_before() == old(self).spec_size_before()
                &&& final(self).spec_last_percent() == 0
                &&& final(self).spec_tail().len() == 0
                &&& step.emit matches Some(p) && describes_current(p, *old(self), old(self).spec_size_before(), 0, 0, "encoding"@, None)
                &&& !step.kill
            },
    {
        if self.stage != VideoStage::Launching {
            return VideoStep { emit: None, remove: None, kill: false };
        }
        match outcome {
            LaunchOutcome::Unavailable(e) => {
                let mut m = String::from_str("ffmpeg not available: ");
                m.append(e.as_str());
                self.report.errors = self.report.errors + 1;
                let p = self.progress(0, 0, "error", Some(m));
                self.finish_file();
                VideoStep { emit: Some(p), remove: None, kill: false }
            },
            LaunchOutcome::SpawnFailed(e) => {
                let mut m = String::from_str("ffmpeg spawn failed: ");
                m.append(e.as_str());
                self.report.errors = self.report.errors + 1;
                let p = self.progress(0, 0, "error", Some(m));
                self.finish_file();
                VideoStep { emit: Some(p), remove: None, kill: false }
            },
            LaunchOutcome::Started { cancelled } => {
                if cancelled {
                    self.report.cancelled = true;
                    self.stage = VideoStage::Done;
                    VideoStep { emit: None, remove: None, kill: true }
                } else {
                    self.stage = VideoStage::Encoding;
                    self.last_percent = 0;
                    self.tail = Vec::new();
                    let p = self.progress(0, 0, "encoding", None);
                    VideoStep { emit: Some(p), remove: None, kill: false }
                }
            },
        }
    }

    /// A line of FFmpeg's error output: kept among the last [`TAIL_LINES`].
    pub fn on_stderr_line(&mut self, line: String) -> (step: VideoStep)
        requires
            old(self).wf(),
        ensures
            final(self).wf(),
            final(self).same_job(*old(self)),
            step.emit is None && step.remove is None && !step.kill,
            old(self).spec_stage() != VideoStage::Encoding ==> *final(self) == *old(self),
            old(self).spec_stage() == VideoStage::Encoding ==> {
                &&& final(self).spec_tail() == tail_push(old(self).spec_tail(), line@)
                &&& final(self).spec_stage() == old(self).spec_stage()
                &&& final(self).spec_index() == old(self).spec_index()
                &&& final(self).spec_report() == old(self).spec_report()
                &&& final(self).spec_dest() == old(self).spec_dest()
                &&& final(self).spec_file_name() == old(self).spec_file_name()
                &&& final(self).spec_size_before() == old(self).spec_size_before()
                &&& final(self).spec_last_percent() == old(self).spec_last_percent()
            },
    {
        if self.stage != VideoStage::Encoding {
            return VideoStep { emit: None, remove: None, kill: false };
        }
        let ghost t0 = str_views(self.tail@);
        let ghost lv = line@;
        self.tail.push(line);
        assert(str_views(self.tail@) =~= t0.push(lv));
        if self.tail.len() > TAIL_LINES {
            let ghost t1 = str_views(self.tail@);
            self.tail.remove(0);
            assert(str_views(self.tail@) =~= t1.drop_first());
        }
        VideoStep { emit: None, remove: None, kill: false }
    }

    /// How far encoding has got, in percent: progress is emitted only when
    /// the figure changes.
    pub fn on_percent(&mut self, percent: u8) -> (step: VideoStep)
        requires
            old(self).wf(),
        ensures
            final(self).wf(),
            final(self).same_job(*old(self)),
            step.remove is None && !step.kill,
            old(self).spec_stage() != VideoStage::Encoding || percent == old(self).spec_last_percent() ==> *final(self) == *old(self) && step.emit is None,
            old(self).spec_stage() == VideoStage::Encoding && percent != old(self).spec_last_percent() ==> {
                &&& final(self).spec_last_percent() == percent
                &&& final(self).spec_tail() == old(self).spec_tail()
                &&& final(self).spec_stage() == old(self).spec_stage()
                &&& final(self).spec_index() == old(self).spec_index()
                &&& final(self).spec_report() == old(self).spec_report()
                &&& final(self).spec_dest() == old(self).spec_dest()
                &&& final(self).spec_file_name() == old(self).spec_file_name()
                &&& final(self).spec_size_before() == old(self).spec_size_before()
                &&& step.emit matches Some(p) && describes_current(p, *old(self), old(self).spec_size_before(), percent, 0, "encoding"@, None)
            },
    {
        if self.stage != VideoStage::Encoding || percent == self.last_percent {
            return VideoStep { emit: None, remove: None, kill: false };
        }
        self.last_percent = percent;
        let p = self.progress(percent, 0, "encoding", None);
        VideoStep { emit: Some(p), remove: None, kill: false }
    }

    /// Why FFmpeg failed (see [`failure_text`]).
    fn failure_message(&self) -> (m: String)
        ensures
            m@ == failure_text(self.spec_tail()),
    {
        let ghost t = str_views(self.tail@);
        let mut j = self.tail.len();
        assert(t.take(j as int) =~= t);
        while j > 0
            invariant
                j <= self.tail@.len(),
                t == str_views(self.tail@),
                last_nonblank(t.take(j as int)) == last_nonblank(t),
            decreases j,
        {
            let l = &self.tail[j - 1];
            let c = chars_of(l.as_str());
            let (a, b) = trim_bounds(&c, 0, c.len());
            assert(c@.subrange(0, c@.len() as int) =~= l@);
            assert(t.take(j as int).last() == l@);
            if a < b {
                return l.clone();
            }
            assert(t.take(j as int).drop_last() =~= t.take(j - 1));
            j -= 1;
        }
        String::from_str("ffmpeg failed")
    }

    /// FFmpeg has ended: `cancelled` tells whether the run was cancelled,
    /// `succeeded` whether FFmpeg exited with status 0 and the output
    /// exists, `size_after` the output's size. A cancelled run ends and the
    /// partial output is to be deleted. A success counts the file converted
    /// (at 100%) with both sizes, and sets the first output folder if none
    /// is set. A failure deletes the output and counts an error, whose
    /// message is FFmpeg's last non-blank error line.
    pub fn on_exited(&mut self, cancelled: bool, succeeded: bool, size_after: u64) -> (step: VideoStep)
        requires
            old(self).wf(),
            old(self).spec_stage() == VideoStage::Encoding && !cancelled && succeeded ==> {
                &&& old(self).spec_report().total_size_before + old(self).spec_size_before() <= u64::MAX
                &&& old(self).spec_report().total_size_after + size_after <= u64::MAX
            },
        ensures
            final(self).wf(),
            final(self).same_job(*old(self)),
            !step.kill,
            old(self).spec_stage() != VideoStage::Encoding ==> *final(self) == *old(self) && step.emit is None && step.remove is None,
            old(self).spec_stage() == VideoStage::Encoding && cancelled ==> {
                &&& final(self).spec_stage() == VideoStage::Done
                &&& final(self).spec_index() == old(self).spec_index()
                &&& report_cancelled(old(self).spec_report(), final(self).spec_report())
                &&& step.emit is None
                &&& opt_view(step.remove) == old(self).spec_dest()
            },
            old(self).spec_stage() == VideoStage::Encoding && !cancelled && succeeded ==> {
                let before = old(self).spec_report();
                let after = final(self).spec_report();
                &&& finished_file(*old(self), *final(self))
                &&& counts_moved(before, after, 1, 0, 0)
                &&& after.cancelled == before.cancelled
                &&& after.total_size_before == before.total_size_before + old(self).spec_size_before()
                &&& after.total_size_after == before.total_size_after + size_after
                &&& opt_view(after.first_output_dir) == (if before.first_output_dir is Some { opt_view(before.first_output_dir) } else { parent(old(self).spec_style(), old(self).spec_dest()->0) })
                &&& step.emit matches Some(p) && describes_current(p, *old(self), old(self).spec_size_before(), 100, size_after, "ok"@, None)
                &&& step.remove is None
            },
            old(self).spec_stage() == VideoStage::Encoding && !cancelled && !succeeded ==> {
                &&& finished_file(*old(self), *final(self))
                &&& counts_moved(old(self).spec_report(), final(self).spec_report(), 0, 0, 1)
                &&& same_totals(old(self).spec_report(), final(self).spec_report())
                &&& step.emit matches Some(p) && describes_current(p, *old(self), old(self).spec_size_before(), 0, 0, "error"@, Some(failure_text(old(self).spec_tail())))
                &&& opt_view(step.remove) == old(self).spec_dest()
            },
    {
        if self.stage != VideoStage::Encoding {
            return VideoStep { emit: None, remove: None, kill: false };
        }
        let dest = match &self.dest {
            Some(d) => d.clone(),
            None => String::new(),
        };
        if cancelled {
            self.report.cancelled = true;
            self.stage = VideoStage::Done;
            return VideoStep { emit: None, remove: Some(dest), kill: false };
        }
        if succeeded {
            self.report.converted = self.report.converted + 1;
            self.report.total_size_before = self.report.total_size_before + self.size_before;
            self.report.total_size_after = self.report.total_size_after + size_after;
            if self.report.first_output_dir.is_none() {
                self.report.first_output_dir = path_parent(self.style, dest.as_str());
            }
            let p = self.progress(100, size_after, "ok", None);
            self.finish_file();
            VideoStep { emit: Some(p), remove: None, kill: false }
        } else {
            let m = self.failure_message();
            self.report.errors = self.report.errors + 1;
            let p = self.progress(0, 0, "error", Some(m));
            self.finish_file();
            VideoStep { emit: Some(p), remove: Some(dest), kill: false }
        }
    }
}


/// Every file a run has finished is counted exactly once, as converted,
/// skipped or failed; a run only ends early by being cancelled, so a run
/// that ends uncancelled has counted every file, while a cancelled run
/// stopped before its last file; and at most
/// [`TAIL_LINES`] lines of FFmpeg's error output are kept.
pub proof fn lemma_run_accounting(r: VideoRun)
    requires
        r.wf(),
    ensures
        r.spec_report().converted + r.spec_report().skipped + r.spec_report().errors == r.spec_index(),
        r.spec_index() <= r.spec_files().len(),
        r.spec_stage() == VideoStage::Done && !r.spec_report().cancelled ==> r.spec_index() == r.spec_files().len(),
        r.spec_report().cancelled ==> r.spec_stage() == VideoStage::Done,
        r.spec_report().cancelled ==> r.spec_index() < r.spec_files().len(),
        r.spec_tail().len() <= TAIL_LINES,
{
}

} // verus!
