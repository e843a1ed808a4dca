//! One compilation, step by step.
//!
//! A compilation alternates between decisions and work on the outside:
//! looking at files, asking the provider, writing the result. The decisions
//! are `step`: from the stage that the compilation has reached and from what
//! the last piece of outside work brought, it says which stage comes next and
//! what is to be done now. The caller does the work and comes back with the
//! outcome.

use crate::compiler::{output_name, target_extension};
use crate::config::{Config, ConfigView};
use crate::error::{InputError, InputErrorView, LexiError, LexiErrorView};
use crate::paths::{file_stem, file_stem_of};
use crate::prompt::{build_prompt, system_prompt, user_prompt};
use crate::provider::{
    fits, plan_request, planned, provider_named, read_reply, reply_fits, reply_outcome,
    HttpRequest, HttpRequestView, Provider, Reply, ReplyView,
};
use crate::sanitize::{sanitize, sanitized};
use crate::text::{ends_with, is_blank, same_str, str_ends_with, trim};
use vstd::pervasive::unreached;
use vstd::prelude::*;
use vstd::string::StringExecFns;

verus! {

/// What is to be compiled, and how.
#[derive(Debug, PartialEq, Eq)]
pub struct CompileJob {
    /// The path of the input file.
    pub input: String,
    /// The language or dialect to compile to.
    pub target: String,
    /// The path of the output file, where the caller chose one.
    pub output: Option<String>,
    /// Whether the output is to be run once it is written.
    pub run: bool,
}

/// The view of a job.
pub struct CompileJobView {
    pub input: Seq<char>,
    pub target: Seq<char>,
    pub output: Option<Seq<char>>,
    pub run: bool,
}

impl View for CompileJob {
    type V = CompileJobView;

    open spec fn view(&self) -> CompileJobView {
        CompileJobView {
            input: self.input@,
            target: self.target@,
            output: match self.output {
                Some(path) => Some(path@),
                None => None,
            },
            run: self.run,
        }
    }
}

/// How far a compilation has come.
#[derive(Debug, PartialEq, Eq)]
pub enum Stage {
    /// Nothing was done yet.
    Start,
    /// The caller looks whether the input file exists.
    CheckingInput,
    /// The caller reads the input file.
    ReadingSource,
    /// The caller loads the configuration.
    LoadingConfig { source: String, output_file: String },
    /// The caller has sent the request and waits for the answer.
    AwaitingReply { provider: Provider, output_file: String },
    /// The caller writes the output file.
    Writing { output_file: String },
    /// The caller runs the output file.
    Running,
    /// The compilation is over.
    Done,
}

/// The view of a stage.
pub enum StageView {
    Start,
    CheckingInput,
    ReadingSource,
    LoadingConfig { source: Seq<char>, output_file: Seq<char> },
    AwaitingReply { provider: Provider, output_file: Seq<char> },
    Writing { output_file: Seq<char> },
    Running,
    Done,
}

impl View for Stage {
    type V = StageView;

    open spec fn view(&self) -> StageView {
        match self {
            Stage::Start => StageView::Start,
            Stage::CheckingInput => StageView::CheckingInput,
            Stage::ReadingSource => StageView::ReadingSource,
            Stage::LoadingConfig { source, output_file } => StageView::LoadingConfig {
                source: source@,
                output_file: output_file@,
            },
            Stage::AwaitingReply { provider, output_file } => StageView::AwaitingReply {
                provider: *provider,
                output_file: output_file@,
            },
            Stage::Writing { output_file } => StageView::Writing { output_file: output_file@ },
            Stage::Running => StageView::Running,
            Stage::Done => StageView::Done,
        }
    }
}

/// What the last piece of outside work brought.
#[derive(Debug, PartialEq, Eq)]
pub enum Event {
    /// The compilation is asked for.
    Begin,
    /// Whether the input file exists.
    InputChecked { exists: bool },
    /// What the input file holds.
    SourceRead { content: String },
    /// The configuration to work with.
    ConfigLoaded { config: Config },
    /// What came of the request.
    Replied { reply: Reply },
    /// The output file is written.
    Written,
    /// The interpreter was started and has ended.
    Ran,
    /// The file system, or the start of the interpreter, failed.
    IoFailed { message: String },
}

/// The view of an event.
pub enum EventView {
    Begin,
    InputChecked { exists: bool },
    SourceRead { content: Seq<char> },
    ConfigLoaded { config: ConfigView },
    Replied { reply: ReplyView },
    Written,
    Ran,
    IoFailed { message: Seq<char> },
}

impl View for Event {
    type V = EventView;

    open spec fn view(&self) -> EventView {
        match self {
            Event::Begin => EventView::Begin,
            Event::InputChecked { exists } => EventView::InputChecked { exists: *exists },
            Event::SourceRead { content } => EventView::SourceRead { content: content@ },
            Event::ConfigLoaded { config } => EventView::ConfigLoaded { config: config@ },
            Event::Replied { reply } => EventView::Replied { reply: reply@ },
            Event::Written => EventView::Written,
            Event::Ran => EventView::Ran,
            Event::IoFailed { message } => EventView::IoFailed { message: message@ },
        }
    }
}

/// What the caller is to do now.
#[derive(Debug, PartialEq, Eq)]
pub enum Action {
    /// Look whether this file exists.
    CheckInput { path: String },
    /// Read this file as text.
    ReadSource { path: String },
    /// Load the configuration.
    LoadConfig,
    /// Post this request.
    Send { request: HttpRequest },
    /// Write this text to this file, in place of what the file held.
    Write { path: String, content: String },
    /// Start this program on this file and wait for its end.
    Run { program: String, file: String },
    /// Nothing more: the compilation succeeded. The notice, where there is
    /// one, says why the output was not run.
    Finish { notice: Option<String> },
    /// Nothing more: the compilation failed.
    Fail { error: LexiError },
}

/// The view of an action.
pub enum ActionView {
    CheckInput { path: Seq<char> },
    ReadSource { path: Seq<char> },
    LoadConfig,
    Send { request: HttpRequestView },
    Write { path: Seq<char>, content: Seq<char> },
    Run { program: Seq<char>, file: Seq<char> },
    Finish { notice: Option<Seq<char>> },
    Fail { error: LexiErrorView },
}

impl View for Action {
    type V = ActionView;

    open spec fn view(&self) -> ActionView {
        match self {
            Action::CheckInput { path } => ActionView::CheckInput { path: path@ },
            Action::ReadSource { path } => ActionView::ReadSource { path: path@ },
            Action::LoadConfig => ActionView::LoadConfig,
            Action::Send { request } => ActionView::Send { request: request@ },
            Action::Write { path, content } => ActionView::Write { path: path@, content: content@ },
            Action::Run { program, file } => ActionView::Run { program: program@, file: file@ },
            Action::Finish { notice } => ActionView::Finish {
                notice: match notice {
                    Some(text) => Some(text@),
                    None => None,
                },
            },
            Action::Fail { error } => ActionView::Fail { error: error@ },
        }
    }
}

/// Whether a file of this name is a source: its name ends in `.lxi` or in
/// `.lexi`.
pub open spec fn is_source_name(path: Seq<char>) -> bool {
    ends_with(path, ".lxi"@) || ends_with(path, ".lexi"@)
}

/// The program that runs the output for `target`, where the library knows
/// one.
pub open spec fn interpreter_for(target: Seq<char>) -> Option<Seq<char>> {
    if target == "javascript"@ {
        Some("node"@)
    } else if target == "python"@ {
        Some("python"@)
    } else {
        None
    }
}

/// What the user is told where the output cannot be run.
pub open spec fn no_run_notice(target: Seq<char>) -> Seq<char> {
    "Auto-run not supported for "@ + target + " yet"@
}

/// The path of the output file: the one that the caller chose, or else the
/// stem of the input with the extension of the target.
pub open spec fn output_file_of(job: CompileJobView) -> Result<Seq<char>, InputErrorView> {
    match job.output {
        Some(path) => Ok(path),
        None => match file_stem_of(job.input) {
            Some(stem) => Ok(stem + target_extension(job.target)),
            None => Err(InputErrorView::NoFileName { path: job.input }),
        },
    }
}

/// Whether `event` is an answer to what was asked for at `stage`.
pub open spec fn expects(stage: StageView, event: EventView) -> bool {
    match (stage, event) {
        (StageView::Start, EventView::Begin) => true,
        (StageView::CheckingInput, EventView::InputChecked { .. }) => true,
        (StageView::ReadingSource, EventView::SourceRead { .. }) => true,
        (StageView::ReadingSource, EventView::IoFailed { .. }) => true,
        (StageView::LoadingConfig { .. }, EventView::ConfigLoaded { .. }) => true,
        (StageView::AwaitingReply { provider, .. }, EventView::Replied { reply }) => reply_fits(
            provider,
            reply,
        ),
        (StageView::Writing { .. }, EventView::Written) => true,
        (StageView::Writing { .. }, EventView::IoFailed { .. }) => true,
        (StageView::Running, EventView::Ran) => true,
        (StageView::Running, EventView::IoFailed { .. }) => true,
        _ => false,
    }
}

/// The end of a compilation that failed.
pub open spec fn failed(error: LexiErrorView) -> (StageView, ActionView) {
    (StageView::Done, ActionView::Fail { error })
}

/// The next stage and what is to be done now, for an event that the stage
/// expects.
///
/// The input must be named as a source and must exist; it is read and must
/// hold more than white space. The configuration decides what is sent where.
/// The code in the answer is written to the output file, which is then run
/// where that was asked for and the target has an interpreter. Whatever
/// fails ends the compilation.
pub open spec fn next(job: CompileJobView, stage: StageView, event: EventView) -> (
    StageView,
    ActionView,
) {
    match (stage, event) {
        (StageView::Start, EventView::Begin) => if is_source_name(job.input) {
            (StageView::CheckingInput, ActionView::CheckInput { path: job.input })
        } else {
            failed(LexiErrorView::Input(InputErrorView::BadExtension))
        },
        (StageView::CheckingInput, EventView::InputChecked { exists }) => if exists {
            (StageView::ReadingSource, ActionView::ReadSource { path: job.input })
        } else {
            failed(LexiErrorView::Input(InputErrorView::NotFound { path: job.input }))
        },
        (StageView::ReadingSource, EventView::SourceRead { content }) => if trim(content).len()
            == 0 {
            failed(LexiErrorView::Input(InputErrorView::EmptySource))
        } else {
            match output_file_of(job) {
                Ok(output_file) => (
                    StageView::LoadingConfig { source: content, output_file },
                    ActionView::LoadConfig,
                ),
                Err(e) => failed(LexiErrorView::Input(e)),
            }
        },
        (StageView::LoadingConfig { source, output_file }, EventView::ConfigLoaded { config }) => {
            match planned(system_prompt(job.target), user_prompt(source, job.target), config) {
                Ok(plan) => (
                    StageView::AwaitingReply { provider: plan.0, output_file },
                    ActionView::Send { request: plan.1 },
                ),
                Err(e) => failed(LexiErrorView::Config(e)),
            }
        },
        (StageView::AwaitingReply { provider, output_file }, EventView::Replied { reply }) => {
            match reply_outcome(provider, reply) {
                Ok(text) => (
                    StageView::Writing { output_file },
                    ActionView::Write { path: output_file, content: sanitized(text) },
                ),
                Err(e) => failed(e),
            }
        },
        (StageView::Writing { output_file }, EventView::Written) => if !job.run {
            (StageView::Done, ActionView::Finish { notice: None })
        } else {
            match interpreter_for(job.target) {
                Some(program) => (StageView::Running, ActionView::Run { program, file: output_file }),
                None => (
                    StageView::Done,
                    ActionView::Finish { notice: Some(no_run_notice(job.target)) },
                ),
            }
        },
        (StageView::Running, EventView::Ran) => (
            StageView::Done,
            ActionView::Finish { notice: None },
        ),
        (_, EventView::IoFailed { message }) => failed(LexiErrorView::Io { message }),
        _ => arbitrary(),
    }
}

/// A file that is not named as a source is refused at once: the compilation
/// is over before anything is looked at, sent or written, and nothing can
/// follow.
pub proof fn lemma_unknown_extension_fails(job: CompileJobView)
    requires
        !is_source_name(job.input),
    ensures
        next(job, StageView::Start, EventView::Begin) == failed(
            LexiErrorView::Input(InputErrorView::BadExtension),
        ),
        !(next(job, StageView::Start, EventView::Begin).1 is Write),
        forall|later: EventView|
            !expects(next(job, StageView::Start, EventView::Begin).0, later),
{
}

/// A failure ends the compilation, and nothing follows its end: no event is
/// expected any more, so nothing is sent or written after it.
pub proof fn lemma_failure_is_final(job: CompileJobView, stage: StageView, event: EventView)
    requires
        expects(stage, event),
    ensures
        next(job, stage, event).1 is Fail ==> next(job, stage, event).0 is Done,
        next(job, stage, event).1 is Finish ==> next(job, stage, event).0 is Done,
        forall|later: EventView| !expects(StageView::Done, later),
{
}

/// The output file is written only with the code of a provider's answer, and
/// a request is sent only for a configuration that was loaded.
pub proof fn lemma_outside_work_is_earned(job: CompileJobView, stage: StageView, event: EventView)
    requires
        expects(stage, event),
    ensures
        next(job, stage, event).1 is Write ==> stage is AwaitingReply && event is Replied,
        next(job, stage, event).1 is Send ==> stage is LoadingConfig && event is ConfigLoaded,
{
}

/// With a provider that is none of the four, the compilation fails when the
/// configuration is loaded: no request is sent, and nothing can follow.
pub proof fn lemma_unknown_provider_fails(
    job: CompileJobView,
    source: Seq<char>,
    output_file: Seq<char>,
    config: ConfigView,
)
    requires
        provider_named(config.provider) is None,
    ensures
        ({
            let stage = StageView::LoadingConfig { source, output_file };
            let event = EventView::ConfigLoaded { config };
            &&& expects(stage, event)
            &&& next(job, stage, event).1 is Fail
            &&& next(job, stage, event).0 is Done
            &&& forall|later: EventView| !expects(next(job, stage, event).0, later)
        }),
{
}

/// Whether a file of this name is a source.
pub fn has_source_name(path: &str) -> (r: bool)
    ensures
        r == is_source_name(path@),
{
    str_ends_with(path, ".lxi") || str_ends_with(path, ".lexi")
}

/// The program that runs the output for `target`, where the library knows
/// one.
pub fn interpreter(target: &str) -> (program: Option<&'static str>)
    ensures
        match interpreter_for(target@) {
            Some(name) => program matches Some(p) && p@ == name,
            None => program is None,
        },
{
    if same_str(target, "javascript") {
        Some("node")
    } else if same_str(target, "python") {
        Some("python")
    } else {
        None
    }
}

/// The path of the output file of `job`.
pub fn output_file(job: &CompileJob) -> (r: Result<String, InputError>)
    ensures
        match output_file_of(job@) {
            Ok(path) => r matches Ok(found) && found@ == path,
            Err(e) => r matches Err(found) && found@ == e,
        },
{
    match &job.output {
        Some(path) => Ok(path.clone()),
        None => match file_stem(job.input.as_str()) {
            Some(stem) => Ok(output_name(stem.as_str(), job.target.as_str())),
            None => Err(InputError::NoFileName { path: job.input.clone() }),
        },
    }
}

/// Whether `event` is an answer to what was asked for at `stage`.
pub fn accepts(stage: &Stage, event: &Event) -> (r: bool)
    ensures
        r == expects(stage@, event@),
{
    match (stage, event) {
        (Stage::Start, Event::Begin) => true,
        (Stage::CheckingInput, Event::InputChecked { .. }) => true,
        (Stage::ReadingSource, Event::SourceRead { .. }) => true,
        (Stage::ReadingSource, Event::IoFailed { .. }) => true,
        (Stage::LoadingConfig { .. }, Event::ConfigLoaded { .. }) => true,
        (Stage::AwaitingReply { provider, .. }, Event::Replied { reply }) => fits(*provider, reply),
        (Stage::Writing { .. }, Event::Written) => true,
        (Stage::Writing { .. }, Event::IoFailed { .. }) => true,
        (Stage::Running, Event::Ran) => true,
        (Stage::Running, Event::IoFailed { .. }) => true,
        _ => false,
    }
}

fn fail(error: LexiError) -> (r: (Stage, Action))
    ensures
        r.0@ == failed(error@).0,
        r.1@ == failed(error@).1,
{
    (Stage::Done, Action::Fail { error })
}

/// The next stage of the compilation `job` and what is to be done now, after
/// `event` came in at `stage`.
pub fn step(job: &CompileJob, stage: Stage, event: Event) -> (r: (Stage, Action))
    requires
        expects(stage@, event@),
    ensures
        r.0@ == next(job@, stage@, event@).0,
        r.1@ == next(job@, stage@, event@).1,
{
    match (stage, event) {
        (Stage::Start, Event::Begin) => {
            if has_source_name(job.input.as_str()) {
                (Stage::CheckingInput, Action::CheckInput { path: job.input.clone() })
            } else {
                fail(LexiError::Input(InputError::BadExtension))
            }
        },
        (Stage::CheckingInput, Event::InputChecked { exists }) => {
            if exists {
                (Stage::ReadingSource, Action::ReadSource { path: job.input.clone() })
            } else {
                fail(LexiError::Input(InputError::NotFound { path: job.input.clone() }))
            }
        },
        (Stage::ReadingSource, Event::SourceRead { content }) => {
            if is_blank(content.as_str()) {
                fail(LexiError::Input(InputError::EmptySource))
            } else {
                match output_file(job) {
                    Ok(output_file) => (
                        Stage::LoadingConfig { source: content, output_file },
                        Action::LoadConfig,
                    ),
                    Err(e) => fail(LexiError::Input(e)),
                }
            }
        },
        (Stage::LoadingConfig { source, output_file }, Event::ConfigLoaded { config }) => {
            let prompts = build_prompt(source.as_str(), job.target.as_str());
            match plan_request(prompts.0.as_str(), prompts.1.as_str(), &config) {
                Ok(plan) => (
                    Stage::AwaitingReply { provider: plan.0, output_file },
                    Action::Send { request: plan.1 },
                ),
                Err(e) => fail(LexiError::Config(e)),
            }
        },
        (Stage::AwaitingReply { provider, output_file }, Event::Replied { reply }) => {
            match read_reply(provider, reply) {
                Ok(text) => {
                    let content = sanitize(text.as_str());
                    let path = output_file.clone();
                    (Stage::Writing { output_file }, Action::Write { path, content })
                },
                Err(e) => fail(e),
            }
        },
        (Stage::Writing { output_file }, Event::Written) => {
            if !job.run {
                (Stage::Done, Action::Finish { notice: None })
            } else {
                match interpreter(job.target.as_str()) {
                    Some(program) => (
                        Stage::Running,
                        Action::Run { program: String::from_str(program), file: output_file },
                    ),
                    None => {
                        let mut notice = String::from_str("Auto-run not supported for ");
                        notice.append(job.target.as_str());
                        notice.append(" yet");
                        (Stage::Done, Action::Finish { notice: Some(notice) })
                    },
                }
            }
        },
        (Stage::Running, Event::Ran) => (Stage::Done, Action::Finish { notice: None }),
        (Stage::ReadingSource, Event::IoFailed { message }) => fail(LexiError::Io { message }),
        (Stage::Writing { .. }, Event::IoFailed { message }) => fail(LexiError::Io { message }),
        (Stage::Running, Event::IoFailed { message }) => fail(LexiError::Io { message }),
        _ => unreached(),
    }
}

} // verus!
