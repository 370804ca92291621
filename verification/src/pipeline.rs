//! The acquisition pipeline: download a remote audio reference, transcode
//! it to the playback format, and clean up the intermediate file.
//!
//! The pipeline's decisions are a state machine over plain step outcomes:
//! each stage names the external action to perform (a tool invocation or a
//! file removal), and `advance` folds the step's outcome into the next
//! stage. The host performs the actions; the ordering, the failure
//! propagation and the constructed paths and argument lists are all stated
//! and checked here.

use crate::result::ServerError;
use vstd::prelude::*;

verus! {

/// The directories and the download cap the pipeline works with.
pub struct PullConfig {
    pub download_dir: String,
    pub song_dir: String,
    pub max_filesize: String,
}

/// Where a pull stands: the three ordered steps, a cleanup attempt after a
/// failed transcode, and the two terminal stages.
#[derive(Debug, Clone, Copy, PartialEq, Eq, Structural)]
pub enum PullStage {
    Download,
    Transcode,
    Cleanup,
    FailureCleanup,
    Done,
    Failed,
}

/// An external action the host must perform for the pipeline.
#[derive(Debug)]
pub enum PullAction {
    RunTool { tool: String, args: Vec<String> },
    RemoveFile { path: String },
}

/// The raw intermediate file for an identifier: `{dir}/{id}.mp3`.
pub fn raw_song_path(download_dir: &str, file_id: &str) -> (r: String)
    ensures
        r@ == download_dir@ + "/"@ + file_id@ + ".mp3"@,
{
    let mut p: String = download_dir.to_owned();
    p.append("/");
    p.append(file_id);
    p.append(".mp3");
    p
}

/// The durable transcoded artifact for an identifier: `{dir}/{id}.dfpwm`.
pub fn song_file_path(song_dir: &str, file_id: &str) -> (r: String)
    ensures
        r@ == song_dir@ + "/"@ + file_id@ + ".dfpwm"@,
{
    let mut p: String = song_dir.to_owned();
    p.append("/");
    p.append(file_id);
    p.append(".dfpwm");
    p
}

/// The argument list for the download tool: extract audio as mp3, capped
/// at `max_filesize`, into `output_file`.
pub fn download_args(youtube_url: &str, output_file: &str, max_filesize: &str) -> (r: Vec<String>)
    ensures
        r@.len() == 8,
        r@[0]@ == "-x"@,
        r@[1]@ == "--audio-format"@,
        r@[2]@ == "mp3"@,
        r@[3]@ == "--max-filesize"@,
        r@[4]@ == max_filesize@,
        r@[5]@ == "-o"@,
        r@[6]@ == output_file@,
        r@[7]@ == youtube_url@,
{
    let mut args: Vec<String> = Vec::new();
    args.push("-x".to_owned());
    args.push("--audio-format".to_owned());
    args.push("mp3".to_owned());
    args.push("--max-filesize".to_owned());
    args.push(max_filesize.to_owned());
    args.push("-o".to_owned());
    args.push(output_file.to_owned());
    args.push(youtube_url.to_owned());
    args
}

/// The argument list for the transcode tool: read `input_file`, write
/// `output_file` as single-channel 48k audio in the playback codec.
pub fn transcode_args(input_file: &str, output_file: &str) -> (r: Vec<String>)
    ensures
        r@.len() == 9,
        r@[0]@ == "-i"@,
        r@[1]@ == input_file@,
        r@[2]@ == "-ac"@,
        r@[3]@ == "1"@,
        r@[4]@ == "-ar"@,
        r@[5]@ == "48k"@,
        r@[6]@ == "-c:a"@,
        r@[7]@ == "dfpwm"@,
        r@[8]@ == output_file@,
{
    let mut args: Vec<String> = Vec::new();
    args.push("-i".to_owned());
    args.push(input_file.to_owned());
    args.push("-ac".to_owned());
    args.push("1".to_owned());
    args.push("-ar".to_owned());
    args.push("48k".to_owned());
    args.push("-c:a".to_owned());
    args.push("dfpwm".to_owned());
    args.push(output_file.to_owned());
    args
}

/// Relies on nanoid::format with the URL-safe 64-symbol alphabet: a fresh
/// random identifier of exactly 21 characters.
#[verifier::external_body]
fn mint_file_id() -> (r: String)
    ensures
        r@.len() == 21,
{
    nanoid::format(nanoid::rngs::default, &nanoid::alphabet::SAFE, 21)
}

/// The mathematical content of a pull in progress.
pub struct PullRunView {
    pub file_id: Seq<char>,
    pub url: Seq<char>,
    pub raw_path: Seq<char>,
    pub song_path: Seq<char>,
    pub max_filesize: Seq<char>,
    pub stage: PullStage,
    pub failure: Option<ServerError>,
}

/// One pull of one remote reference, from minted identifier to terminal
/// stage.
pub struct PullRun {
    file_id: String,
    url: String,
    raw_path: String,
    song_path: String,
    max_filesize: String,
    stage: PullStage,
    failure: Option<ServerError>,
}

impl View for PullRun {
    type V = PullRunView;

    closed spec fn view(&self) -> PullRunView {
        PullRunView {
            file_id: self.file_id@,
            url: self.url@,
            raw_path: self.raw_path@,
            song_path: self.song_path@,
            max_filesize: self.max_filesize@,
            stage: self.stage,
            failure: self.failure,
        }
    }
}

/// Begin a pull: mint a fresh identifier and stand at the download step.
/// The raw and artifact paths are fixed here, derived from the identifier
/// and the configured directories.
pub fn pull_song(youtube_url: &str, config: &PullConfig) -> (r: PullRun)
    ensures
        r@.stage is Download,
        r@.failure is None,
        r@.url == youtube_url@,
        r@.max_filesize == config.max_filesize@,
        r@.file_id.len() == 21,
        r@.raw_path == config.download_dir@ + "/"@ + r@.file_id + ".mp3"@,
        r@.song_path == config.song_dir@ + "/"@ + r@.file_id + ".dfpwm"@,
{
    let file_id = mint_file_id();
    let raw_path = raw_song_path(config.download_dir.as_str(), file_id.as_str());
    let song_path = song_file_path(config.song_dir.as_str(), file_id.as_str());
    PullRun {
        file_id,
        url: youtube_url.to_owned(),
        raw_path,
        song_path,
        max_filesize: config.max_filesize.clone(),
        stage: PullStage::Download,
        failure: None,
    }
}

impl PullRun {
    #[verifier::type_invariant]
    spec fn inv(self) -> bool {
        (self.stage is Failed || self.stage is FailureCleanup) ==> self.failure is Some
    }

    /// The external action the current stage asks of the host, if any: the
    /// download or transcode tool invocation, or the removal of the raw
    /// intermediate file.
    pub fn next_action(&self) -> (r: Option<PullAction>)
        ensures
            match self@.stage {
                PullStage::Download => r matches Some(PullAction::RunTool { tool, args }) && tool@
                    == "yt-dlp"@ && args@.len() == 8 && args@[0]@ == "-x"@ && args@[1]@
                    == "--audio-format"@ && args@[2]@ == "mp3"@ && args@[3]@ == "--max-filesize"@
                    && args@[4]@ == self@.max_filesize && args@[5]@ == "-o"@ && args@[6]@
                    == self@.raw_path && args@[7]@ == self@.url,
                PullStage::Transcode => r matches Some(PullAction::RunTool { tool, args }) && tool@
                    == "ffmpeg"@ && args@.len() == 9 && args@[0]@ == "-i"@ && args@[1]@
                    == self@.raw_path && args@[2]@ == "-ac"@ && args@[3]@ == "1"@ && args@[4]@
                    == "-ar"@ && args@[5]@ == "48k"@ && args@[6]@ == "-c:a"@ && args@[7]@
                    == "dfpwm"@ && args@[8]@ == self@.song_path,
                PullStage::Cleanup => r matches Some(PullAction::RemoveFile { path }) && path@
                    == self@.raw_path,
                PullStage::FailureCleanup => r matches Some(PullAction::RemoveFile { path })
                    && path@ == self@.raw_path,
                PullStage::Done => r is None,
                PullStage::Failed => r is None,
            },
    {
        match self.stage {
            PullStage::Download => Some(
                PullAction::RunTool {
                    tool: "yt-dlp".to_owned(),
                    args: download_args(
                        self.url.as_str(),
                        self.raw_path.as_str(),
                        self.max_filesize.as_str(),
                    ),
                },
            ),
            PullStage::Transcode => Some(
                PullAction::RunTool {
                    tool: "ffmpeg".to_owned(),
                    args: transcode_args(self.raw_path.as_str(), self.song_path.as_str()),
                },
            ),
            PullStage::Cleanup => Some(PullAction::RemoveFile { path: self.raw_path.clone() }),
            PullStage::FailureCleanup => Some(
                PullAction::RemoveFile { path: self.raw_path.clone() },
            ),
            PullStage::Done => None,
            PullStage::Failed => None,
        }
    }

    /// Fold the outcome of the action just performed into the next stage.
    /// A failed download aborts at once; a failed transcode still asks for
    /// the raw file's removal but keeps the transcode failure as the
    /// pull's outcome; a failed cleanup after a successful transcode is
    /// itself the pull's failure.
    pub fn advance(&mut self, outcome: Result<(), ServerError>)
        requires
            !(old(self)@.stage is Done),
            !(old(self)@.stage is Failed),
        ensures
            final(self)@.file_id == old(self)@.file_id,
            final(self)@.url == old(self)@.url,
            final(self)@.raw_path == old(self)@.raw_path,
            final(self)@.song_path == old(self)@.song_path,
            final(self)@.max_filesize == old(self)@.max_filesize,
            match old(self)@.stage {
                PullStage::Download => match outcome {
                    Ok(()) => final(self)@.stage is Transcode && final(self)@.failure is None,
                    Err(e) => final(self)@.stage is Failed && final(self)@.failure == Some(e),
                },
                PullStage::Transcode => match outcome {
                    Ok(()) => final(self)@.stage is Cleanup && final(self)@.failure is None,
                    Err(e) => final(self)@.stage is FailureCleanup && final(self)@.failure == Some(
                        e,
                    ),
                },
                PullStage::Cleanup => match outcome {
                    Ok(()) => final(self)@.stage is Done && final(self)@.failure is None,
                    Err(e) => final(self)@.stage is Failed && final(self)@.failure == Some(e),
                },
                PullStage::FailureCleanup => final(self)@.stage is Failed && final(self)@.failure
                    == old(self)@.failure,
                _ => false,
            },
    {
        proof {
            use_type_invariant(&*self);
        }
        match self.stage {
            PullStage::Download => match outcome {
                Ok(()) => {
                    self.failure = None;
                    self.stage = PullStage::Transcode;
                },
                Err(e) => {
                    self.failure = Some(e);
                    self.stage = PullStage::Failed;
                },
            },
            PullStage::Transcode => match outcome {
                Ok(()) => {
                    self.failure = None;
                    self.stage = PullStage::Cleanup;
                },
                Err(e) => {
                    self.failure = Some(e);
                    self.stage = PullStage::FailureCleanup;
                },
            },
            PullStage::Cleanup => match outcome {
                Ok(()) => {
                    self.failure = None;
                    self.stage = PullStage::Done;
                },
                Err(e) => {
                    self.failure = Some(e);
                    self.stage = PullStage::Failed;
                },
            },
            PullStage::FailureCleanup => {
                self.stage = PullStage::Failed;
            },
            PullStage::Done => {
                proof {
                    assert(false);
                }
            },
            PullStage::Failed => {
                proof {
                    assert(false);
                }
            },
        }
    }

    /// Whether the pull has reached a terminal stage.
    pub fn finished(&self) -> (r: bool)
        ensures
            r == (self@.stage is Done || self@.stage is Failed),
    {
        match self.stage {
            PullStage::Done => true,
            PullStage::Failed => true,
            _ => false,
        }
    }

    /// The pull's outcome: the minted identifier on full success, the
    /// recorded failure otherwise. The identifier is handed out only from
    /// the `Done` stage, so a failed pull never yields one.
    pub fn into_result(self) -> (r: Result<String, ServerError>)
        requires
            self@.stage is Done || self@.stage is Failed,
        ensures
            match r {
                Ok(id) => self@.stage is Done && id@ == self@.file_id,
                Err(e) => self@.stage is Failed && self@.failure == Some(e),
            },
    {
        proof {
            use_type_invariant(&self);
        }
        let PullRun { file_id, stage, failure, .. } = self;
        match stage {
            PullStage::Done => Ok(file_id),
            _ => match failure {
                Some(e) => Err(e),
                None => {
                    proof {
                        assert(false);
                    }
                    Err(ServerError::ExecutionFailed)
                },
            },
        }
    }
}

} // verus!
