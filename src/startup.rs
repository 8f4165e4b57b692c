//! Run options, their validation, and the decisions the orchestrator makes
//! before and after the build: toolchain re-exec, capture mode, report target.
use vstd::prelude::*;

use crate::text::{contains_seq, contains_text, same_text, texts, vec_has_text};

verus! {

/// The command line: `cargo scout-audit ...`.
#[derive(Debug, Clone)]
pub struct Cli {
    pub subcmd: CargoSubCommand,
}

#[derive(Debug, Clone)]
pub enum CargoSubCommand {
    ScoutAudit(Scout),
}

/// The kinds of report that can be requested.
#[derive(Debug, Copy, Clone, PartialEq, Eq, Structural)]
pub enum OutputFormat {
    Html,
    Json,
    RawJson,
    Markdown,
    MarkdownGithub,
    Sarif,
    Pdf,
}

/// Options of one audit run. Paths are held as text.
#[derive(Debug, Clone)]
pub struct Scout {
    pub manifest_path: Option<String>,
    pub exclude: Option<String>,
    pub filter: Option<String>,
    pub profile: Option<String>,
    pub list_detectors: bool,
    pub args: Vec<String>,
    pub output_format: Option<OutputFormat>,
    pub output_path: Option<String>,
    pub local_detectors: Option<String>,
    pub force_fallback: bool,
    pub verbose: bool,
    pub toolchain: bool,
    pub detectors_metadata: bool,
}

/// Options that cannot be used together, or an unusable output path.
#[derive(Debug, Copy, Clone, PartialEq, Eq, Structural)]
pub enum ConfigError {
    FilterWithExclude,
    FilterWithProfile,
    OutputPathIsDirectory,
}

impl ConfigError {
    pub fn message(&self) -> (r: &'static str)
        ensures
            r@ == config_message(*self),
    {
        match self {
            ConfigError::FilterWithExclude => "The flags `--filter` and `--exclude` can't be used together",
            ConfigError::FilterWithProfile => "The flags `--filter` and `--profile` can't be used together",
            ConfigError::OutputPathIsDirectory => "The output path can't be a directory",
        }
    }
}

pub open spec fn config_message(e: ConfigError) -> Seq<char> {
    match e {
        ConfigError::FilterWithExclude => "The flags `--filter` and `--exclude` can't be used together"@,
        ConfigError::FilterWithProfile => "The flags `--filter` and `--profile` can't be used together"@,
        ConfigError::OutputPathIsDirectory => "The output path can't be a directory"@,
    }
}

/// Some build argument already selects a target.
pub open spec fn has_target_arg(args: Seq<String>) -> bool {
    exists|i: int| 0 <= i < args.len() && contains_seq(args[i]@, "--target="@)
}

/// The build arguments added when none selects a target.
pub open spec fn default_target_args() -> Seq<Seq<char>> {
    seq!["--target=wasm32-unknown-unknown"@, "--no-default-features"@, "-Zbuild-std=std,core,alloc"@]
}

pub open spec fn prepared_args(args: Seq<String>) -> Seq<Seq<char>> {
    if has_target_arg(args) {
        texts(args)
    } else {
        texts(args) + default_target_args()
    }
}

/// The outcome of validation, given whether the output path names a directory.
pub open spec fn validation_of(s: Scout, output_is_dir: bool) -> Result<(), ConfigError> {
    if s.filter is Some && s.exclude is Some {
        Err(ConfigError::FilterWithExclude)
    } else if s.filter is Some && s.profile is Some {
        Err(ConfigError::FilterWithProfile)
    } else if s.output_path is Some && output_is_dir {
        Err(ConfigError::OutputPathIsDirectory)
    } else {
        Ok(())
    }
}

/// The fields of two option sets agree, except possibly the build arguments.
pub open spec fn same_except_args(a: Scout, b: Scout) -> bool {
    a.manifest_path == b.manifest_path && a.exclude == b.exclude && a.filter == b.filter
        && a.profile == b.profile && a.list_detectors == b.list_detectors && a.output_format
        == b.output_format && a.output_path == b.output_path && a.local_detectors
        == b.local_detectors && a.force_fallback == b.force_fallback && a.verbose == b.verbose
        && a.toolchain == b.toolchain && a.detectors_metadata == b.detectors_metadata
}

impl Scout {
    /// Appends the default target arguments unless some argument selects a target.
    pub fn prepare_args(&mut self)
        ensures
            texts(final(self).args@) == prepared_args(old(self).args@),
            same_except_args(*final(self), *old(self)),
    {
        let mut found = false;
        let mut i: usize = 0;
        while i < self.args.len()
            invariant
                i <= self.args.len(),
                found == exists|j: int| 0 <= j < i && contains_seq(self.args@[j]@, "--target="@),
            decreases self.args.len() - i,
        {
            if contains_text(self.args[i].as_str(), "--target=") {
                found = true;
            }
            i = i + 1;
        }
        if !found {
            let ghost a0 = self.args@;
            self.args.push(String::from_str("--target=wasm32-unknown-unknown"));
            self.args.push(String::from_str("--no-default-features"));
            self.args.push(String::from_str("-Zbuild-std=std,core,alloc"));
            assert(texts(self.args@) =~= texts(a0) + default_target_args());
        }
    }

    /// Rejects conflicting options; `output_path_is_dir` tells whether the
    /// output path, when one is given, names an existing directory.
    pub fn validate(&self, output_path_is_dir: bool) -> (r: Result<(), ConfigError>)
        ensures
            r == validation_of(*self, output_path_is_dir),
    {
        if self.filter.is_some() && self.exclude.is_some() {
            return Err(ConfigError::FilterWithExclude);
        }
        if self.filter.is_some() && self.profile.is_some() {
            return Err(ConfigError::FilterWithProfile);
        }
        if self.output_path.is_some() && output_path_is_dir {
            return Err(ConfigError::OutputPathIsDirectory);
        }
        Ok(())
    }
}

/// Where the compiler's machine-readable stream goes after the build.
#[derive(Debug, Copy, Clone, PartialEq, Eq, Structural)]
pub enum CaptureMode {
    /// The caller reads the raw stream itself; no side-channel findings.
    PassThrough,
    /// Findings written on the side channel are collected.
    Intercepted,
}

/// The build arguments ask for the raw JSON stream (an editor integration).
pub open spec fn wants_raw_stream(args: Seq<String>) -> bool {
    texts(args).contains("--message-format=json"@)
}

/// The capture mode for a run with these build arguments.
pub fn capture_mode(args: &Vec<String>) -> (r: CaptureMode)
    ensures
        r == (if wants_raw_stream(args@) {
            CaptureMode::PassThrough
        } else {
            CaptureMode::Intercepted
        }),
{
    if vec_has_text(args, "--message-format=json") {
        CaptureMode::PassThrough
    } else {
        CaptureMode::Intercepted
    }
}

/// Runs `cb` with no side-channel capture: the findings list is empty and
/// the result of `cb` is handed on.
pub fn capture_noop<T, E, F: FnOnce() -> Result<T, E>>(cb: F) -> (r: Result<(Vec<String>, T), E>)
    requires
        cb.requires(()),
    ensures
        exists|res: Result<T, E>|
            #![trigger cb.ensures((), res)]
            cb.ensures((), res) && match r {
                Ok((v, t)) => v@.len() == 0 && res == Ok::<T, E>(t),
                Err(e) => res == Err::<T, E>(e),
            },
{
    match cb() {
        Ok(t) => Ok((Vec::new(), t)),
        Err(e) => Err(e),
    }
}

/// The arguments handed to the check run: the prepared build arguments and
/// a request for machine-readable messages.
pub fn check_args(opts: &Scout) -> (r: Vec<String>)
    ensures
        texts(r@) == texts(opts.args@).push("--message-format=json"@),
{
    let mut r: Vec<String> = Vec::new();
    let mut i: usize = 0;
    while i < opts.args.len()
        invariant
            i <= opts.args.len(),
            r@.len() == i,
            forall|j: int| 0 <= j < i ==> r@[j]@ == opts.args@[j]@,
        decreases opts.args.len() - i,
    {
        r.push(opts.args[i].clone());
        i = i + 1;
    }
    r.push(String::from_str("--message-format=json"));
    assert(texts(r@) =~= texts(opts.args@).push("--message-format=json"@));
    r
}

/// What is done with the classified findings at the end of a run.
#[derive(Debug, Copy, Clone, PartialEq, Eq, Structural)]
pub enum ReportTarget {
    /// Render a report of the given kind to a file.
    File(OutputFormat),
    /// Write the raw compiler stream to standard output.
    RawStream,
    /// Print the findings and a summary table on the console.
    Console,
}

/// A requested output format wins; else the raw stream in pass-through mode;
/// else the console.
pub fn report_target(output_format: Option<OutputFormat>, mode: CaptureMode) -> (r: ReportTarget)
    ensures
        r == (match output_format {
            Some(f) => ReportTarget::File(f),
            None => if mode == CaptureMode::PassThrough {
                ReportTarget::RawStream
            } else {
                ReportTarget::Console
            },
        }),
{
    match output_format {
        Some(f) => ReportTarget::File(f),
        None => if mode == CaptureMode::PassThrough {
            ReportTarget::RawStream
        } else {
            ReportTarget::Console
        },
    }
}

pub open spec fn default_file_name(f: OutputFormat) -> Seq<char> {
    match f {
        OutputFormat::Html => "report.html"@,
        OutputFormat::Json => "report.json"@,
        OutputFormat::RawJson => "raw-report.json"@,
        OutputFormat::Markdown => "report.md"@,
        OutputFormat::MarkdownGithub => "report.md"@,
        OutputFormat::Sarif => "report.sarif"@,
        OutputFormat::Pdf => "report.pdf"@,
    }
}

impl OutputFormat {
    /// The file a report of this kind is written to when no path is given.
    pub fn default_file_name(&self) -> (r: &'static str)
        ensures
            r@ == default_file_name(*self),
    {
        match self {
            OutputFormat::Html => "report.html",
            OutputFormat::Json => "report.json",
            OutputFormat::RawJson => "raw-report.json",
            OutputFormat::Markdown => "report.md",
            OutputFormat::MarkdownGithub => "report.md",
            OutputFormat::Sarif => "report.sarif",
            OutputFormat::Pdf => "report.pdf",
        }
    }
}

/// The output file: the given path, else the default name for the format.
pub fn output_file(output_path: &Option<String>, f: OutputFormat) -> (r: String)
    ensures
        r@ == match output_path {
            Some(p) => p@,
            None => default_file_name(f),
        },
{
    match output_path {
        Some(p) => p.clone(),
        None => String::from_str(f.default_file_name()),
    }
}

/// The directory and file name of the console template, under `base`.
pub fn get_template_path(base: &str) -> (r: (String, String))
    ensures
        r.0@ == base@ + "/.scout-audit/templates"@,
        r.1@ == "console.txt"@,
{
    let dir = String::from_str(base).concat("/.scout-audit/templates");
    (dir, String::from_str("console.txt"))
}

/// Where the process stands with respect to the required toolchain.
#[derive(Debug, Copy, Clone, PartialEq, Eq, Structural)]
pub enum ToolchainState {
    NeedsDispatch,
    RunningUnderCorrectToolchain,
    ReExeced,
}

/// What the dispatcher is told.
#[derive(Debug, Clone)]
pub enum DispatchEvent {
    /// The toolchain the current process runs under.
    ActiveToolchain(String),
    /// The re-executed child exited with this code.
    ChildExited(i32),
}

/// What the dispatcher asks its driver to do.
#[derive(Debug, Copy, Clone, PartialEq, Eq, Structural)]
pub enum DispatchAction {
    /// Go on with the audit in this process.
    ContinueInProcess,
    /// Run the same command line under the required toolchain and wait for it.
    SpawnChild,
    /// Exit with this code; no further work in this process.
    ExitWith(i32),
    /// The event changes nothing.
    Ignore,
}

pub open spec fn dispatch_next(state: ToolchainState, required: Seq<char>, event: DispatchEvent) -> (
    ToolchainState,
    DispatchAction,
) {
    match (state, event) {
        (ToolchainState::NeedsDispatch, DispatchEvent::ActiveToolchain(a)) => if a@ == required {
            (ToolchainState::RunningUnderCorrectToolchain, DispatchAction::ContinueInProcess)
        } else {
            (ToolchainState::ReExeced, DispatchAction::SpawnChild)
        },
        (ToolchainState::ReExeced, DispatchEvent::ChildExited(c)) => (
            ToolchainState::ReExeced,
            DispatchAction::ExitWith(c),
        ),
        _ => (state, DispatchAction::Ignore),
    }
}

/// One step of the re-exec state machine.
pub fn dispatch_step(state: ToolchainState, required: &str, event: &DispatchEvent) -> (r: (
    ToolchainState,
    DispatchAction,
))
    ensures
        r == dispatch_next(state, required@, *event),
{
    match (state, event) {
        (ToolchainState::NeedsDispatch, DispatchEvent::ActiveToolchain(a)) => {
            if same_text(a.as_str(), required) {
                (ToolchainState::RunningUnderCorrectToolchain, DispatchAction::ContinueInProcess)
            } else {
                (ToolchainState::ReExeced, DispatchAction::SpawnChild)
            }
        },
        (ToolchainState::ReExeced, DispatchEvent::ChildExited(c)) => (
            ToolchainState::ReExeced,
            DispatchAction::ExitWith(*c),
        ),
        _ => (state, DispatchAction::Ignore),
    }
}

/// Once the process has re-executed, it never continues in process, and the
/// child's exit code, whatever it is, becomes the parent's.
pub proof fn lemma_reexec_propagates_exit_code(required: Seq<char>, active: String, code: i32)
    requires
        active@ != required,
    ensures
        dispatch_next(ToolchainState::NeedsDispatch, required, DispatchEvent::ActiveToolchain(active))
            == (ToolchainState::ReExeced, DispatchAction::SpawnChild),
        dispatch_next(ToolchainState::ReExeced, required, DispatchEvent::ChildExited(code)) == (
            ToolchainState::ReExeced,
            DispatchAction::ExitWith(code),
        ),
        forall|e: DispatchEvent|
            dispatch_next(ToolchainState::ReExeced, required, e).1
                != DispatchAction::ContinueInProcess,
{
}

} // verus!
