//! The decisions of converting one image, as a state machine. The caller
//! performs what [`ImageJob::next_action`] asks (looking for the WebP file,
//! reading the image's size and creating the `webp` folder, decoding,
//! resizing, encoding and writing), reports what came of it through the
//! `on_*` methods, and in the end takes the job's [`ConvertProgress`].
use vstd::prelude::*;
use crate::converter::{
    display_name, failure_message, file_display_name, image_output_path, spec_image_output_path,
    spec_webp_dir_for, webp_dir_for, ConvertProgress, ImageFailure,
};
use crate::video_run::opt_view;
use crate::paths::PathStyle;

verus! {

/// Where the conversion of an image stands.
#[derive(Debug, Clone, Copy, PartialEq, Eq, Structural)]
pub enum ImageStage {
    /// Whether the WebP file exists is to be found.
    Checking,
    /// The image's size is to be read and the `webp` folder created.
    Preparing,
    /// The image is to be decoded, resized, encoded and written.
    Converting,
    /// The outcome is known.
    Done,
}

/// What the caller is to do next.
pub enum ImageAction {
    /// Find whether `dest` exists and call [`ImageJob::on_checked`].
    CheckExists { dest: String },
    /// Read the image's size (0 when unknown), create the folder `dir` (and
    /// its parents), and call [`ImageJob::on_prepared`].
    Prepare { dir: String },
    /// Decode the image, cap its width, encode it and write it to `dest`,
    /// and call [`ImageJob::on_converted`].
    Convert { dest: String },
    /// Take the outcome with [`ImageJob::outcome`].
    Finish,
}

/// The conversion of one image.
pub struct ImageJob {
    file_name: String,
    dest: Option<String>,
    out_dir: Option<String>,
    size_before: u64,
    stage: ImageStage,
    outcome: Option<ConvertProgress>,
}

/// `p` says how converting the image named `name` went: sizes, status and
/// message; position fields are left at 0 for the run to fill in.
pub open spec fn outcome_is(
    p: ConvertProgress,
    name: Seq<char>,
    size_before: u64,
    size_after: u64,
    status: Seq<char>,
    msg: Option<Seq<char>>,
) -> bool {
    &&& p.current == 0 && p.total == 0
    &&& p.file_name@ == name
    &&& p.size_before == size_before
    &&& p.size_after == size_after
    &&& p.status@ == status
    &&& opt_view(p.error_message) == msg
}

/// What every outcome of converting the image named `name` looks like:
/// positions left at 0, the image's name, a status among `ok`, `skip` and
/// `error`, a message exactly when the status is `error`, and no output
/// size unless the image was converted.
pub open spec fn outcome_law(p: ConvertProgress, name: Seq<char>) -> bool {
    &&& p.current == 0 && p.total == 0
    &&& p.file_name@ == name
    &&& (p.status@ == "ok"@ || p.status@ == "skip"@ || p.status@ == "error"@)
    &&& (p.error_message is Some <==> p.status@ == "error"@)
    &&& (p.status@ != "ok"@ ==> p.size_after == 0)
}

/// The three statuses are different words.
proof fn lemma_statuses_differ()
    ensures
        "ok"@ != "skip"@,
        "ok"@ != "error"@,
        "skip"@ != "error"@,
{
    reveal_strlit("ok");
    reveal_strlit("skip");
    reveal_strlit("error");
    assert("ok"@.len() == 2);
    assert("skip"@.len() == 4);
    assert("error"@.len() == 5);
}

impl ImageJob {
    /// The image's name.
    pub closed spec fn spec_file_name(self) -> Seq<char> {
        self.file_name@
    }

    /// Where its WebP version goes.
    pub closed spec fn spec_dest(self) -> Option<Seq<char>> {
        opt_view(self.dest)
    }

    /// The `webp` folder next to it.
    pub closed spec fn spec_out_dir(self) -> Option<Seq<char>> {
        opt_view(self.out_dir)
    }

    /// The image's size, once read.
    pub closed spec fn spec_size_before(self) -> u64 {
        self.size_before
    }

    /// Where the job stands.
    pub closed spec fn spec_stage(self) -> ImageStage {
        self.stage
    }

    /// The outcome, once known.
    pub closed spec fn spec_outcome(self) -> Option<ConvertProgress> {
        self.outcome
    }

    /// Internal consistency: the outcome is known exactly when done, and
    /// the output path and folder are known before that; an outcome obeys
    /// [`outcome_law`] for the image's name.
    pub closed spec fn wf(self) -> bool {
        &&& (self.stage == ImageStage::Done <==> self.outcome is Some)
        &&& self.stage != ImageStage::Done ==> self.dest is Some && self.out_dir is Some
        &&& self.outcome matches Some(p) ==> outcome_law(p, self.file_name@)
    }

    /// The conversion of the image at `src_path`, read in the path style
    /// `style`. Without a parent folder
    /// it is done at once, failed with `Invalid path`; otherwise whether its
    /// WebP version exists is to be found first.
    pub fn new(style: PathStyle, src_path: &str) -> (j: ImageJob)
        ensures
            j.wf(),
            j.spec_file_name() == display_name(style, src_path@),
            j.spec_dest() == spec_image_output_path(style, src_path@),
            j.spec_dest() is Some ==> j.spec_stage() == ImageStage::Checking && j.spec_out_dir() == spec_webp_dir_for(style, src_path@),
            j.spec_dest() is None ==> j.spec_stage() == ImageStage::Done && (j.spec_outcome() matches Some(p) && outcome_is(p, display_name(style, src_path@), 0, 0, "error"@, Some("Invalid path"@))),
    {
        let file_name = file_display_name(style, src_path);
        let dest = image_output_path(style, src_path);
        let out_dir = webp_dir_for(style, src_path);
        if dest.is_none() {
            proof { lemma_statuses_differ(); }
            let p = ConvertProgress::invalid_path(file_name.clone());
            return ImageJob { file_name, dest, out_dir, size_before: 0, stage: ImageStage::Done, outcome: Some(p) };
        }
        // Both come from the parent folder, which exists here.
        assert(out_dir is Some);
        ImageJob { file_name, dest, out_dir, size_before: 0, stage: ImageStage::Checking, outcome: None }
    }

    /// Where the job stands.
    pub fn stage(&self) -> (s: ImageStage)
        ensures
            s == self.spec_stage(),
    {
        self.stage
    }

    /// What the caller is to do next, by stage.
    pub fn next_action(&self) -> (a: ImageAction)
        requires
            self.wf(),
        ensures
            self.spec_stage() == ImageStage::Checking ==> (a matches ImageAction::CheckExists { dest } && Some(dest@) == self.spec_dest()),
            self.spec_stage() == ImageStage::Preparing ==> (a matches ImageAction::Prepare { dir } && Some(dir@) == self.spec_out_dir()),
            self.spec_stage() == ImageStage::Converting ==> (a matches ImageAction::Convert { dest } && Some(dest@) == self.spec_dest()),
            self.spec_stage() == ImageStage::Done ==> a is Finish,
    {
        match self.stage {
            ImageStage::Checking => ImageAction::CheckExists { dest: self.dest.as_ref().unwrap().clone() },
            ImageStage::Preparing => ImageAction::Prepare { dir: self.out_dir.as_ref().unwrap().clone() },
            ImageStage::Converting => ImageAction::Convert { dest: self.dest.as_ref().unwrap().clone() },
            ImageStage::Done => ImageAction::Finish,
        }
    }

    /// Whether the WebP file exists: if it does the image is skipped;
    /// otherwise its preparation is due. In any other stage nothing happens.
    pub fn on_checked(&mut self, exists: bool)
        requires
            old(self).wf(),
        ensures
            final(self).wf(),
            final(self).spec_file_name() == old(self).spec_file_name(),
            final(self).spec_dest() == old(self).spec_dest(),
            final(self).spec_out_dir() == old(self).spec_out_dir(),
            old(self).spec_stage() != ImageStage::Checking ==> *final(self) == *old(self),
            old(self).spec_stage() == ImageStage::Checking && exists ==> final(self).spec_stage() == ImageStage::Done
                && (final(self).spec_outcome() matches Some(p) && outcome_is(p, old(self).spec_file_name(), 0, 0, "skip"@, None)),
            old(self).spec_stage() == ImageStage::Checking && !exists ==> final(self).spec_stage() == ImageStage::Preparing,
    {
        if self.stage != ImageStage::Checking {
            return;
        }
        if exists {
            proof { lemma_statuses_differ(); }
            self.outcome = Some(ConvertProgress::skipped(self.file_name.clone()));
            self.stage = ImageStage::Done;
        } else {
            self.stage = ImageStage::Preparing;
        }
    }

    /// The image's size is read and the folder creation went as `error`
    /// says: a failure ends the job with `Cannot create output dir: ` and the
    /// reason; otherwise the conversion proper is due.
    pub fn on_prepared(&mut self, size_before: u64, error: Option<String>)
        requires
            old(self).wf(),
        ensures
            final(self).wf(),
            final(self).spec_file_name() == old(self).spec_file_name(),
            final(self).spec_dest() == old(self).spec_dest(),
            final(self).spec_out_dir() == old(self).spec_out_dir(),
            old(self).spec_stage() != ImageStage::Preparing ==> *final(self) == *old(self),
            old(self).spec_stage() == ImageStage::Preparing ==> final(self).spec_size_before() == size_before,
            old(self).spec_stage() == ImageStage::Preparing && error is Some ==> final(self).spec_stage() == ImageStage::Done
                && (final(self).spec_outcome() matches Some(p) && outcome_is(p, old(self).spec_file_name(), size_before, 0, "error"@, Some(failure_message(ImageFailure::CreateDir(error->0))))),
            old(self).spec_stage() == ImageStage::Preparing && error is None ==> final(self).spec_stage() == ImageStage::Converting,
    {
        if self.stage != ImageStage::Preparing {
            return;
        }
        self.size_before = size_before;
        proof { lemma_statuses_differ(); }
        match error {
            Some(e) => {
                self.outcome = Some(ConvertProgress::failed(self.file_name.clone(), size_before, ImageFailure::CreateDir(e)));
                self.stage = ImageStage::Done;
            },
            None => {
                self.stage = ImageStage::Converting;
            },
        }
    }

    /// How the conversion proper went: the WebP file's size, or why it
    /// failed. Either way the job is done.
    pub fn on_converted(&mut self, result: Result<u64, ImageFailure>)
        requires
            old(self).wf(),
        ensures
            final(self).wf(),
            final(self).spec_file_name() == old(self).spec_file_name(),
            final(self).spec_dest() == old(self).spec_dest(),
            final(self).spec_out_dir() == old(self).spec_out_dir(),
            old(self).spec_stage() != ImageStage::Converting ==> *final(self) == *old(self),
            old(self).spec_stage() == ImageStage::Converting ==> final(self).spec_stage() == ImageStage::Done,
            old(self).spec_stage() == ImageStage::Converting && result is Ok ==> (final(self).spec_outcome() matches Some(p)
                && outcome_is(p, old(self).spec_file_name(), old(self).spec_size_before(), result->Ok_0, "ok"@, None)),
            old(self).spec_stage() == ImageStage::Converting && result is Err ==> (final(self).spec_outcome() matches Some(p)
                && outcome_is(p, old(self).spec_file_name(), old(self).spec_size_before(), 0, "error"@, Some(failure_message(result->Err_0)))),
    {
        if self.stage != ImageStage::Converting {
            return;
        }
        proof { lemma_statuses_differ(); }
        let p = match result {
            Ok(size_after) => ConvertProgress::converted(self.file_name.clone(), self.size_before, size_after),
            Err(f) => ConvertProgress::failed(self.file_name.clone(), self.size_before, f),
        };
        self.outcome = Some(p);
        self.stage = ImageStage::Done;
    }

    /// The outcome, once the job is done.
    pub fn outcome(self) -> (p: Option<ConvertProgress>)
        ensures
            p == self.spec_outcome(),
    {
        self.outcome
    }
}

/// Every outcome of an image's conversion, whichever way it went, leaves
/// the positions at 0, carries the image's name and one of the statuses
/// `ok`, `skip` or `error`, has a message exactly for `error`, and has no
/// output size unless the image was converted.
pub proof fn lemma_job_outcome(j: ImageJob)
    requires
        j.wf(),
    ensures
        j.spec_outcome() matches Some(p) ==> outcome_law(p, j.spec_file_name()),
{
}

} // verus!
