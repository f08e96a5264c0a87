//! One compression as a state machine. The job decides; its host acts. The
//! host performs the action that the job asks for, hands back what it saw as
//! an event, and repeats until the job has an outcome.

use vstd::prelude::*;
use vstd::string::*;
use crate::error::{CompressError, ErrorView};
use crate::formats::{is_supported_format, supported};
use crate::invocation::{invocation, transcoder_args};
use crate::options::CompressOptions;
use crate::paths::{file_name, name_extension, path_file_name, split_extension};
use crate::resolver::{candidate, candidate_path};
use crate::text::{ascii_lower, to_ascii_lower, views};

verus! {

/// What a finished compression produced. Sizes and dimensions are what the
/// host read from the files after the transcoder ended, never guesses.
#[derive(Debug)]
pub struct CompressResult {
    /// The path that was written.
    pub output_path: String,
    /// The size of the input file, in bytes.
    pub original_size: u64,
    /// The size of the output file, in bytes.
    pub compressed_size: u64,
    /// The width of the output picture, in pixels.
    pub width: u32,
    /// The height of the output picture, in pixels.
    pub height: u32,
    /// The format key: the input's extension in lower case.
    pub format: String,
}

/// What a `CompressResult` holds, as mathematical text and numbers.
pub struct ResultView {
    pub output_path: Seq<char>,
    pub original_size: u64,
    pub compressed_size: u64,
    pub width: u32,
    pub height: u32,
    pub format: Seq<char>,
}

impl View for CompressResult {
    type V = ResultView;

    open spec fn view(&self) -> ResultView {
        ResultView {
            output_path: self.output_path@,
            original_size: self.original_size,
            compressed_size: self.compressed_size,
            width: self.width,
            height: self.height,
            format: self.format@,
        }
    }
}

/// What a job asks its host to do next.
#[derive(Debug)]
pub enum Action {
    /// Say whether anything exists at `path`; answer with `Event::Exists`.
    CheckExists { path: String },
    /// Run `program` with `args` to its end; answer with `Event::Exited`, or
    /// with `Event::Failed` where it could not be started.
    Transcode { program: String, args: Vec<String> },
    /// Read the size of the file at `path`; answer with `Event::Size` or
    /// `Event::Failed`.
    FileSize { path: String },
    /// Read the pixel dimensions of the picture at `path`; answer with
    /// `Event::Dimensions` or `Event::Failed`.
    ImageSize { path: String },
}

/// What an `Action` holds, as mathematical text.
pub enum ActionView {
    CheckExists { path: Seq<char> },
    Transcode { program: Seq<char>, args: Seq<Seq<char>> },
    FileSize { path: Seq<char> },
    ImageSize { path: Seq<char> },
}

impl View for Action {
    type V = ActionView;

    open spec fn view(&self) -> ActionView {
        match *self {
            Action::CheckExists { path } => ActionView::CheckExists { path: path@ },
            Action::Transcode { program, args } => ActionView::Transcode {
                program: program@,
                args: views(args@),
            },
            Action::FileSize { path } => ActionView::FileSize { path: path@ },
            Action::ImageSize { path } => ActionView::ImageSize { path: path@ },
        }
    }
}

/// What the host saw when it performed an action.
#[derive(Debug)]
pub enum Event {
    /// Whether something exists at the path asked about.
    Exists(bool),
    /// The transcoder ended, with or without success; `stderr` is what it
    /// wrote to its error stream.
    Exited { success: bool, stderr: String },
    /// The size of the file asked about, in bytes.
    Size(u64),
    /// The dimensions of the picture asked about, in pixels.
    Dimensions { width: u32, height: u32 },
    /// The action could not be performed; `message` says why.
    Failed { message: String },
}

/// What an `Event` holds, as mathematical text.
pub enum EventView {
    Exists(bool),
    Exited { success: bool, stderr: Seq<char> },
    Size(u64),
    Dimensions { width: u32, height: u32 },
    Failed { message: Seq<char> },
}

impl View for Event {
    type V = EventView;

    open spec fn view(&self) -> EventView {
        match *self {
            Event::Exists(found) => EventView::Exists(found),
            Event::Exited { success, stderr } => EventView::Exited { success, stderr: stderr@ },
            Event::Size(bytes) => EventView::Size(bytes),
            Event::Dimensions { width, height } => EventView::Dimensions { width, height },
            Event::Failed { message } => EventView::Failed { message: message@ },
        }
    }
}

/// Where a job stands, with what it has learned so far.
pub enum StageView {
    /// Asked whether the input exists.
    CheckingInput { output_dir: Option<Seq<char>> },
    /// Asked whether the output directory exists.
    CheckingOutputDir { format: Seq<char>, dir: Seq<char>, name: Seq<char> },
    /// Asked whether the candidate of attempt `attempt` exists.
    Resolving { format: Seq<char>, dir: Seq<char>, name: Seq<char>, attempt: nat },
    /// Asked for the transcoder run that writes `output`.
    Transcoding { format: Seq<char>, output: Seq<char> },
    /// Asked for the size of the input.
    MeasuringInput { format: Seq<char>, output: Seq<char> },
    /// Asked for the size of the output.
    MeasuringOutput { format: Seq<char>, output: Seq<char>, original_size: u64 },
    /// Asked for the dimensions of the output.
    ReadingDimensions {
        format: Seq<char>,
        output: Seq<char>,
        original_size: u64,
        compressed_size: u64,
    },
    /// Ended with a result.
    Succeeded(ResultView),
    /// Ended with an error.
    Failed(ErrorView),
}

/// A job as a mathematical value: the input, the options and the stage.
pub struct JobView {
    pub input: Seq<char>,
    pub options: CompressOptions,
    pub stage: StageView,
}

/// The program that transcodes.
pub open spec fn transcoder() -> Seq<char> {
    "ffmpeg"@
}

/// The greatest attempt number a job can hold.
pub open spec fn attempt_limit() -> nat {
    u128::MAX as nat
}

/// The job that compresses `input` into `output_dir`, before any event.
pub open spec fn initial(
    input: Seq<char>,
    output_dir: Option<Seq<char>>,
    options: CompressOptions,
) -> JobView {
    JobView { input, options, stage: StageView::CheckingInput { output_dir } }
}

/// Whether `format` is the extension of `input` in lower case, and supported.
pub open spec fn names_format(input: Seq<char>, format: Seq<char>) -> bool {
    &&& crate::paths::extension(input) matches Some(ext)
    &&& format == ascii_lower(ext)
    &&& supported(ext)
}

/// The stage that follows the news that the input exists: the input must
/// have an extension, the extension must name a supported format, and an
/// output directory must have been given, in that order.
pub open spec fn after_input_found(input: Seq<char>, output_dir: Option<Seq<char>>) -> StageView {
    match file_name(input) {
        None => StageView::Failed(ErrorView::UnsupportedFormat { extension: None }),
        Some(name) => match name_extension(name) {
            None => StageView::Failed(ErrorView::UnsupportedFormat { extension: None }),
            Some(ext) => if !supported(ext) {
                StageView::Failed(
                    ErrorView::UnsupportedFormat { extension: Some(ascii_lower(ext)) },
                )
            } else {
                match output_dir {
                    None => StageView::Failed(ErrorView::OutputDirInvalid { dir: None }),
                    Some(dir) => StageView::CheckingOutputDir {
                        format: ascii_lower(ext),
                        dir,
                        name,
                    },
                }
            },
        },
    }
}

impl JobView {
    /// Whether the job has ended, with a result or an error.
    pub open spec fn finished(self) -> bool {
        self.stage is Succeeded || self.stage is Failed
    }

    /// What the job asks its host to do; nothing once it has ended.
    pub open spec fn pending(self) -> Option<ActionView> {
        match self.stage {
            StageView::CheckingInput { .. } => Some(ActionView::CheckExists { path: self.input }),
            StageView::CheckingOutputDir { dir, .. } => Some(
                ActionView::CheckExists { path: dir },
            ),
            StageView::Resolving { dir, name, attempt, .. } => Some(
                ActionView::CheckExists { path: candidate(dir, name, attempt) },
            ),
            StageView::Transcoding { format, output } => Some(
                ActionView::Transcode {
                    program: transcoder(),
                    args: invocation(self.input, output, format, self.options),
                },
            ),
            StageView::MeasuringInput { .. } => Some(ActionView::FileSize { path: self.input }),
            StageView::MeasuringOutput { output, .. } => Some(
                ActionView::FileSize { path: output },
            ),
            StageView::ReadingDimensions { output, .. } => Some(
                ActionView::ImageSize { path: output },
            ),
            StageView::Succeeded(_) => None,
            StageView::Failed(_) => None,
        }
    }

    /// Whether `event` answers the pending action. No event answers a job
    /// that has ended, and no further collision one that has run out of
    /// attempt numbers.
    pub open spec fn accepts(self, event: EventView) -> bool {
        match self.stage {
            StageView::CheckingInput { .. } => event is Exists,
            StageView::CheckingOutputDir { .. } => event is Exists,
            StageView::Resolving { attempt, .. } => event matches EventView::Exists(found) && (
            found ==> attempt < attempt_limit()),
            StageView::Transcoding { .. } => event is Exited || event is Failed,
            StageView::MeasuringInput { .. } => event is Size || event is Failed,
            StageView::MeasuringOutput { .. } => event is Size || event is Failed,
            StageView::ReadingDimensions { .. } => event is Dimensions || event is Failed,
            StageView::Succeeded(_) => false,
            StageView::Failed(_) => false,
        }
    }

    /// The stage after `event`, for an event that the job accepts.
    pub open spec fn next_stage(self, event: EventView) -> StageView {
        match self.stage {
            StageView::CheckingInput { output_dir } => match event {
                EventView::Exists(true) => after_input_found(self.input, output_dir),
                _ => StageView::Failed(ErrorView::InputNotFound { path: self.input }),
            },
            StageView::CheckingOutputDir { format, dir, name } => match event {
                EventView::Exists(true) => StageView::Resolving { format, dir, name, attempt: 0 },
                _ => StageView::Failed(ErrorView::OutputDirInvalid { dir: Some(dir) }),
            },
            StageView::Resolving { format, dir, name, attempt } => match event {
                EventView::Exists(true) => StageView::Resolving {
                    format,
                    dir,
                    name,
                    attempt: attempt + 1,
                },
                _ => StageView::Transcoding { format, output: candidate(dir, name, attempt) },
            },
            StageView::Transcoding { format, output } => match event {
                EventView::Exited { success: true, .. } => StageView::MeasuringInput {
                    format,
                    output,
                },
                EventView::Exited { success: false, stderr } => StageView::Failed(
                    ErrorView::TranscodeFailed { message: stderr },
                ),
                EventView::Failed { message } => StageView::Failed(
                    ErrorView::IoFailure { message },
                ),
                _ => self.stage,
            },
            StageView::MeasuringInput { format, output } => match event {
                EventView::Size(bytes) => StageView::MeasuringOutput {
                    format,
                    output,
                    original_size: bytes,
                },
                EventView::Failed { message } => StageView::Failed(
                    ErrorView::IoFailure { message },
                ),
                _ => self.stage,
            },
            StageView::MeasuringOutput { format, output, original_size } => match event {
                EventView::Size(bytes) => StageView::ReadingDimensions {
                    format,
                    output,
                    original_size,
                    compressed_size: bytes,
                },
                EventView::Failed { message } => StageView::Failed(
                    ErrorView::IoFailure { message },
                ),
                _ => self.stage,
            },
            StageView::ReadingDimensions {
                format,
                output,
                original_size,
                compressed_size,
            } => match event {
                EventView::Dimensions { width, height } => StageView::Succeeded(
                    ResultView {
                        output_path: output,
                        original_size,
                        compressed_size,
                        width,
                        height,
                        format,
                    },
                ),
                EventView::Failed { message } => StageView::Failed(
                    ErrorView::IoFailure { message },
                ),
                _ => self.stage,
            },
            StageView::Succeeded(_) => self.stage,
            StageView::Failed(_) => self.stage,
        }
    }

    /// The job after `event`: moved on where it accepts the event, unchanged
    /// where it does not.
    pub open spec fn after(self, event: EventView) -> JobView {
        if self.accepts(event) {
            JobView { stage: self.next_stage(event), ..self }
        } else {
            self
        }
    }

    /// The job after each of `events` in turn.
    pub open spec fn after_all(self, events: Seq<EventView>) -> JobView
        decreases events.len(),
    {
        if events.len() == 0 {
            self
        } else {
            self.after_all(events.drop_last()).after(events.last())
        }
    }

    /// Whether what the job has learned fits its input: past the first check
    /// the format is the input's extension in lower case and is supported,
    /// and the name that candidates are made from is the input's file name.
    pub open spec fn well_formed(self) -> bool {
        match self.stage {
            StageView::CheckingInput { .. } => true,
            StageView::CheckingOutputDir { format, name, .. } => names_format(self.input, format)
                && file_name(self.input) == Some(name),
            StageView::Resolving { format, name, .. } => names_format(self.input, format)
                && file_name(self.input) == Some(name),
            StageView::Transcoding { format, .. } => names_format(self.input, format),
            StageView::MeasuringInput { format, .. } => names_format(self.input, format),
            StageView::MeasuringOutput { format, .. } => names_format(self.input, format),
            StageView::ReadingDimensions { format, .. } => names_format(self.input, format),
            StageView::Succeeded(result) => names_format(self.input, result.format),
            StageView::Failed(_) => true,
        }
    }

    /// The outcome of a job that has ended.
    pub open spec fn outcome(self) -> Option<Result<ResultView, ErrorView>> {
        match self.stage {
            StageView::Succeeded(result) => Some(Ok(result)),
            StageView::Failed(error) => Some(Err(error)),
            _ => None,
        }
    }
}

/// Where a job stands; `StageView` describes each stage.
enum Stage {
    CheckingInput { output_dir: Option<String> },
    CheckingOutputDir { format: String, dir: String, name: String },
    Resolving { format: String, dir: String, name: String, attempt: u128 },
    Transcoding { format: String, output: String },
    MeasuringInput { format: String, output: String },
    MeasuringOutput { format: String, output: String, original_size: u64 },
    ReadingDimensions { format: String, output: String, original_size: u64, compressed_size: u64 },
    Succeeded(CompressResult),
    Failed(CompressError),
}

impl View for Stage {
    type V = StageView;

    closed spec fn view(&self) -> StageView {
        match *self {
            Stage::CheckingInput { output_dir } => StageView::CheckingInput {
                output_dir: crate::error::opt_view(output_dir),
            },
            Stage::CheckingOutputDir { format, dir, name } => StageView::CheckingOutputDir {
                format: format@,
                dir: dir@,
                name: name@,
            },
            Stage::Resolving { format, dir, name, attempt } => StageView::Resolving {
                format: format@,
                dir: dir@,
                name: name@,
                attempt: attempt as nat,
            },
            Stage::Transcoding { format, output } => StageView::Transcoding {
                format: format@,
                output: output@,
            },
            Stage::MeasuringInput { format, output } => StageView::MeasuringInput {
                format: format@,
                output: output@,
            },
            Stage::MeasuringOutput { format, output, original_size } => {
                StageView::MeasuringOutput { format: format@, output: output@, original_size }
            },
            Stage::ReadingDimensions { format, output, original_size, compressed_size } => {
                StageView::ReadingDimensions {
                    format: format@,
                    output: output@,
                    original_size,
                    compressed_size,
                }
            },
            Stage::Succeeded(result) => StageView::Succeeded(result@),
            Stage::Failed(error) => StageView::Failed(error@),
        }
    }
}

/// One compression in progress. `JobView` is its mathematical value.
pub struct CompressJob {
    input_path: String,
    options: CompressOptions,
    stage: Stage,
}

impl View for CompressJob {
    type V = JobView;

    closed spec fn view(&self) -> JobView {
        JobView { input: self.input_path@, options: self.options, stage: self.stage@ }
    }
}

/// Begins the compression of the file at `input_path` into the directory
/// `output_dir`. The job that comes back has done nothing yet: it asks whether
/// the input exists. Its host answers each `action` with an event passed to
/// `step`, until `into_outcome` has the result or the error.
pub fn compress_image(
    input_path: &str,
    output_dir: Option<String>,
    options: CompressOptions,
) -> (job: CompressJob)
    ensures
        job@ == initial(input_path@, crate::error::opt_view(output_dir), options),
        job@.pending() == Some(ActionView::CheckExists { path: input_path@ }),
        !job@.finished(),
        job@.well_formed(),
{
    CompressJob {
        input_path: String::from_str(input_path),
        options,
        stage: Stage::CheckingInput { output_dir },
    }
}

/// The stage that follows the news that the input exists.
fn input_found(input_path: &str, output_dir: Option<String>) -> (stage: Stage)
    ensures
        stage@ == after_input_found(input_path@, crate::error::opt_view(output_dir)),
{
    let name: String = match path_file_name(input_path) {
        Some(name) => name,
        None => {
            return Stage::Failed(CompressError::UnsupportedFormat { extension: None });
        },
    };
    let ext: String = match split_extension(name.as_str()) {
        Some(ext) => ext,
        None => {
            return Stage::Failed(CompressError::UnsupportedFormat { extension: None });
        },
    };
    let format: String = to_ascii_lower(ext.as_str());
    if !is_supported_format(ext.as_str()) {
        return Stage::Failed(CompressError::UnsupportedFormat { extension: Some(format) });
    }
    match output_dir {
        Some(dir) => Stage::CheckingOutputDir { format, dir, name },
        None => Stage::Failed(CompressError::OutputDirInvalid { dir: None }),
    }
}

impl CompressJob {
    /// The path of the input.
    pub fn input_path(&self) -> (path: &str)
        ensures
            path@ == self@.input,
    {
        self.input_path.as_str()
    }

    /// Whether the job has ended, with a result or an error.
    pub fn is_finished(&self) -> (r: bool)
        ensures
            r == self@.finished(),
    {
        match &self.stage {
            Stage::Succeeded(_) => true,
            Stage::Failed(_) => true,
            _ => false,
        }
    }

    /// What the host must do next; nothing once the job has ended.
    pub fn action(&self) -> (r: Option<Action>)
        ensures
            match r {
                Some(action) => self@.pending() == Some(action@),
                None => self@.pending() is None,
            },
    {
        match &self.stage {
            Stage::CheckingInput { .. } => Some(
                Action::CheckExists { path: self.input_path.clone() },
            ),
            Stage::CheckingOutputDir { dir, .. } => Some(Action::CheckExists { path: dir.clone() }),
            Stage::Resolving { dir, name, attempt, .. } => Some(
                Action::CheckExists {
                    path: candidate_path(dir.as_str(), name.as_str(), *attempt),
                },
            ),
            Stage::Transcoding { format, output } => Some(
                Action::Transcode {
                    program: String::from_str("ffmpeg"),
                    args: transcoder_args(
                        self.input_path.as_str(),
                        output.as_str(),
                        format.as_str(),
                        &self.options,
                    ),
                },
            ),
            Stage::MeasuringInput { .. } => Some(
                Action::FileSize { path: self.input_path.clone() },
            ),
            Stage::MeasuringOutput { output, .. } => Some(Action::FileSize { path: output.clone() }),
            Stage::ReadingDimensions { output, .. } => Some(
                Action::ImageSize { path: output.clone() },
            ),
            Stage::Succeeded(_) => None,
            Stage::Failed(_) => None,
        }
    }

    /// Whether `event` answers the pending action.
    pub fn accepts(&self, event: &Event) -> (r: bool)
        ensures
            r == self@.accepts(event@),
    {
        match &self.stage {
            Stage::CheckingInput { .. } => match event {
                Event::Exists(_) => true,
                _ => false,
            },
            Stage::CheckingOutputDir { .. } => match event {
                Event::Exists(_) => true,
                _ => false,
            },
            Stage::Resolving { attempt, .. } => match event {
                Event::Exists(found) => !*found || *attempt < u128::MAX,
                _ => false,
            },
            Stage::Transcoding { .. } => match event {
                Event::Exited { .. } => true,
                Event::Failed { .. } => true,
                _ => false,
            },
            Stage::MeasuringInput { .. } => match event {
                Event::Size(_) => true,
                Event::Failed { .. } => true,
                _ => false,
            },
            Stage::MeasuringOutput { .. } => match event {
                Event::Size(_) => true,
                Event::Failed { .. } => true,
                _ => false,
            },
            Stage::ReadingDimensions { .. } => match event {
                Event::Dimensions { .. } => true,
                Event::Failed { .. } => true,
                _ => false,
            },
            Stage::Succeeded(_) => false,
            Stage::Failed(_) => false,
        }
    }

    /// Takes in what the host saw. An event that answers the pending action
    /// moves the job on; any other leaves it as it was.
    pub fn step(self, event: Event) -> (next: CompressJob)
        ensures
            next@ == self@.after(event@),
            self@.well_formed() ==> next@.well_formed(),
    {
        if !self.accepts(&event) {
            return self;
        }
        let CompressJob { input_path, options, stage } = self;
        let stage: Stage = match stage {
            Stage::CheckingInput { output_dir } => match event {
                Event::Exists(true) => input_found(input_path.as_str(), output_dir),
                _ => Stage::Failed(CompressError::InputNotFound { path: input_path.clone() }),
            },
            Stage::CheckingOutputDir { format, dir, name } => match event {
                Event::Exists(true) => Stage::Resolving { format, dir, name, attempt: 0 },
                _ => Stage::Failed(CompressError::OutputDirInvalid { dir: Some(dir) }),
            },
            Stage::Resolving { format, dir, name, attempt } => match event {
                Event::Exists(true) => Stage::Resolving {
                    format,
                    dir,
                    name,
                    attempt: attempt + 1,
                },
                _ => {
                    let output: String = candidate_path(dir.as_str(), name.as_str(), attempt);
                    Stage::Transcoding { format, output }
                },
            },
            Stage::Transcoding { format, output } => match event {
                Event::Exited { success: true, .. } => Stage::MeasuringInput { format, output },
                Event::Exited { success: false, stderr } => Stage::Failed(
                    CompressError::TranscodeFailed { message: stderr },
                ),
                Event::Failed { message } => Stage::Failed(CompressError::IoFailure { message }),
                _ => Stage::Transcoding { format, output },
            },
            Stage::MeasuringInput { format, output } => match event {
                Event::Size(bytes) => Stage::MeasuringOutput {
                    format,
                    output,
                    original_size: bytes,
                },
                Event::Failed { message } => Stage::Failed(CompressError::IoFailure { message }),
                _ => Stage::MeasuringInput { format, output },
            },
            Stage::MeasuringOutput { format, output, original_size } => match event {
                Event::Size(bytes) => Stage::ReadingDimensions {
                    format,
                    output,
                    original_size,
                    compressed_size: bytes,
                },
                Event::Failed { message } => Stage::Failed(CompressError::IoFailure { message }),
                _ => Stage::MeasuringOutput { format, output, original_size },
            },
            Stage::ReadingDimensions { format, output, original_size, compressed_size } => {
                match event {
                    Event::Dimensions { width, height } => Stage::Succeeded(
                        CompressResult {
                            output_path: output,
                            original_size,
                            compressed_size,
                            width,
                            height,
                            format,
                        },
                    ),
                    Event::Failed { message } => Stage::Failed(
                        CompressError::IoFailure { message },
                    ),
                    _ => Stage::ReadingDimensions {
                        format,
                        output,
                        original_size,
                        compressed_size,
                    },
                }
            },
            Stage::Succeeded(result) => Stage::Succeeded(result),
            Stage::Failed(error) => Stage::Failed(error),
        };
        CompressJob { input_path, options, stage }
    }

    /// The result or the error of a job that has ended; nothing for one that
    /// has not.
    pub fn into_outcome(self) -> (r: Option<Result<CompressResult, CompressError>>)
        ensures
            outcome_view(r) == self@.outcome(),
    {
        match self.stage {
            Stage::Succeeded(result) => Some(Ok(result)),
            Stage::Failed(error) => Some(Err(error)),
            _ => None,
        }
    }
}

/// The view of what `into_outcome` returns.
pub open spec fn outcome_view(
    r: Option<Result<CompressResult, CompressError>>,
) -> Option<Result<ResultView, ErrorView>> {
    match r {
        Some(Ok(result)) => Some(Ok(result@)),
        Some(Err(error)) => Some(Err(error@)),
        None => None,
    }
}

/// `count` reports in a row that the path asked about exists.
pub open spec fn collisions(count: nat) -> Seq<EventView> {
    Seq::new(count, |i: int| EventView::Exists(true))
}

/// A job that has ended takes no event: it stays as it is.
pub proof fn lemma_finished_job_stays(job: JobView, event: EventView)
    requires
        job.finished(),
    ensures
        job.after(event) == job,
{
}

/// A new job is well formed and every event keeps it so. So a result, however
/// it was reached, names a supported format: the input's extension in lower
/// case.
pub proof fn lemma_step_keeps_well_formed(job: JobView, event: EventView)
    requires
        job.well_formed(),
    ensures
        job.after(event).well_formed(),
        job.after(event).input == job.input,
        job.after(event).options == job.options,
{
}

/// A job is well formed however long it has run.
pub proof fn lemma_run_is_well_formed(
    input: Seq<char>,
    output_dir: Option<Seq<char>>,
    options: CompressOptions,
    events: Seq<EventView>,
)
    ensures
        initial(input, output_dir, options).after_all(events).well_formed(),
        initial(input, output_dir, options).after_all(events).input == input,
        initial(input, output_dir, options).after_all(events).outcome() matches Some(Ok(result))
            ==> names_format(input, result.format),
    decreases events.len(),
{
    if events.len() > 0 {
        lemma_run_is_well_formed(input, output_dir, options, events.drop_last());
        lemma_step_keeps_well_formed(
            initial(input, output_dir, options).after_all(events.drop_last()),
            events.last(),
        );
    }
}

/// A job is asked to write a path only by the report that nothing exists
/// there: the transcoder run is entered from the search for a free name
/// alone, on that report, and writes the candidate that the report was about.
pub proof fn lemma_output_was_free(job: JobView, event: EventView)
    requires
        !(job.stage is Transcoding),
        job.after(event).stage is Transcoding,
    ensures
        job.pending() == Some(
            ActionView::CheckExists { path: job.after(event).stage->Transcoding_output },
        ),
        event == EventView::Exists(false),
        job.stage is Resolving,
{
}

/// Each collision moves the search on by one attempt, and changes nothing
/// else.
pub proof fn lemma_collisions_advance(job: JobView, count: nat)
    requires
        job.stage is Resolving,
        job.stage->Resolving_attempt + count <= attempt_limit(),
    ensures
        job.after_all(collisions(count)) == (JobView {
            stage: StageView::Resolving {
                format: job.stage->Resolving_format,
                dir: job.stage->Resolving_dir,
                name: job.stage->Resolving_name,
                attempt: job.stage->Resolving_attempt + count,
            },
            ..job
        }),
    decreases count,
{
    if count > 0 {
        lemma_collisions_advance(job, (count - 1) as nat);
        assert(collisions(count).drop_last() =~= collisions((count - 1) as nat));
        assert(collisions(count).last() == EventView::Exists(true));
    }
}

/// A host that answers as `existing` says is sent to the first candidate
/// that is not among `existing`: the path that `get_unique_filename` gives.
pub proof fn lemma_search_finds_resolution(
    job: JobView,
    existing: Seq<Seq<char>>,
    count: nat,
)
    requires
        job.stage is Resolving,
        job.stage->Resolving_attempt == 0,
        count <= attempt_limit(),
        forall|k: nat|
            k < count ==> existing.contains(
                #[trigger] candidate(job.stage->Resolving_dir, job.stage->Resolving_name, k),
            ),
        !existing.contains(candidate(job.stage->Resolving_dir, job.stage->Resolving_name, count)),
    ensures
        job.after_all(collisions(count)).after(EventView::Exists(false)).stage
            == (StageView::Transcoding {
            format: job.stage->Resolving_format,
            output: candidate(job.stage->Resolving_dir, job.stage->Resolving_name, count),
        }),
        crate::resolver::is_resolution(
            job.stage->Resolving_dir,
            job.stage->Resolving_name,
            existing,
            candidate(job.stage->Resolving_dir, job.stage->Resolving_name, count),
        ),
{
    lemma_collisions_advance(job, count);
    assert(crate::resolver::resolves_at(
        job.stage->Resolving_dir,
        job.stage->Resolving_name,
        existing,
        count,
        candidate(job.stage->Resolving_dir, job.stage->Resolving_name, count),
    ));
}

/// A compression whose every step goes well: the input exists and has a
/// supported extension, the directory exists, `count` candidates are taken
/// and the next is free, the transcoder succeeds, sizes and dimensions are
/// read. Its result names the candidate of attempt `count` as the output,
/// the lower-case extension as the format, and the sizes and dimensions that
/// the host reported.
pub proof fn lemma_successful_run(
    input: Seq<char>,
    dir: Seq<char>,
    options: CompressOptions,
    count: nat,
    stderr: Seq<char>,
    original_size: u64,
    compressed_size: u64,
    width: u32,
    height: u32,
)
    requires
        file_name(input) is Some,
        name_extension(file_name(input)->0) is Some,
        supported(name_extension(file_name(input)->0)->0),
        count <= attempt_limit(),
    ensures
        initial(input, Some(dir), options).after(EventView::Exists(true)).after(
            EventView::Exists(true),
        ).after_all(collisions(count)).after(EventView::Exists(false)).after(
            EventView::Exited { success: true, stderr },
        ).after(EventView::Size(original_size)).after(EventView::Size(compressed_size)).after(
            EventView::Dimensions { width, height },
        ).outcome() == Some(
            Ok::<ResultView, ErrorView>(
                ResultView {
                    output_path: candidate(dir, file_name(input)->0, count),
                    original_size,
                    compressed_size,
                    width,
                    height,
                    format: ascii_lower(name_extension(file_name(input)->0)->0),
                },
            ),
        ),
{
    let searching = initial(input, Some(dir), options).after(EventView::Exists(true)).after(
        EventView::Exists(true),
    );
    lemma_collisions_advance(searching, count);
}

/// Each failure has one cause. A missing input fails the job at once; an
/// input without a supported extension, or without an output directory to
/// go to, fails it when the input is found; a missing directory when the
/// directory is looked for; a transcoder that reports failure, with what it
/// wrote to its error stream; and anything the host could not do after that,
/// with the host's message.
pub proof fn lemma_failures(job: JobView, event: EventView)
    requires
        !job.finished(),
        job.accepts(event),
    ensures
        match job.after(event).outcome() {
            Some(Err(ErrorView::InputNotFound { path })) => {
                &&& job.stage is CheckingInput
                &&& event == EventView::Exists(false)
                &&& path == job.input
            },
            Some(Err(ErrorView::UnsupportedFormat { extension })) => {
                &&& job.stage is CheckingInput
                &&& event == EventView::Exists(true)
                &&& match extension {
                    None => crate::paths::extension(job.input) is None,
                    Some(key) => {
                        &&& crate::paths::extension(job.input) matches Some(ext)
                        &&& key == ascii_lower(ext)
                        &&& !supported(ext)
                    },
                }
            },
            Some(Err(ErrorView::OutputDirInvalid { dir: None })) => {
                &&& job.stage == (StageView::CheckingInput { output_dir: None })
                &&& event == EventView::Exists(true)
            },
            Some(Err(ErrorView::OutputDirInvalid { dir: Some(dir) })) => {
                &&& job.stage is CheckingOutputDir
                &&& job.stage->CheckingOutputDir_dir == dir
                &&& event == EventView::Exists(false)
            },
            Some(Err(ErrorView::TranscodeFailed { message })) => {
                &&& job.stage is Transcoding
                &&& event == (EventView::Exited { success: false, stderr: message })
            },
            Some(Err(ErrorView::IoFailure { message })) => {
                &&& event == (EventView::Failed { message })
            },
            Some(Ok(result)) => {
                &&& job.stage is ReadingDimensions
                &&& event == (EventView::Dimensions { width: result.width, height: result.height })
            },
            None => true,
        },
{
}

} // verus!
