//! Why a bootstrap stops.

use vstd::prelude::*;
use vstd::string::StringExecFns;
use crate::text::owned;

verus! {

/// A failure that aborts the bootstrap.
#[derive(Debug, Clone, PartialEq, Eq)]
pub enum BootstrapError {
    /// A command in the config has no program.
    EmptyCommand,
    /// A command's working directory is not a directory.
    MissingWorkingDir { cwd: String, command: String },
    /// A command ran and exited unsuccessfully.
    CommandFailed { command: String, status: String },
    /// A directory listed under `install.dirs` is not in the worktree.
    MissingInstallDir { dir: String },
    /// Copy is enabled, but the worktree was not derived from a repo.
    NoSourceRepo,
    /// Carrying out a step failed in the system: `context` says what was
    /// being done, `cause` what the system answered.
    Io { context: String, cause: String },
}

/// A failure, as text.
pub enum ErrorView {
    EmptyCommand,
    MissingWorkingDir { cwd: Seq<char>, command: Seq<char> },
    CommandFailed { command: Seq<char>, status: Seq<char> },
    MissingInstallDir { dir: Seq<char> },
    NoSourceRepo,
    Io { context: Seq<char>, cause: Seq<char> },
}

impl View for BootstrapError {
    type V = ErrorView;

    open spec fn view(&self) -> ErrorView {
        match self {
            BootstrapError::EmptyCommand => ErrorView::EmptyCommand,
            BootstrapError::MissingWorkingDir { cwd, command } => ErrorView::MissingWorkingDir {
                cwd: cwd@,
                command: command@,
            },
            BootstrapError::CommandFailed { command, status } => ErrorView::CommandFailed {
                command: command@,
                status: status@,
            },
            BootstrapError::MissingInstallDir { dir } => ErrorView::MissingInstallDir { dir: dir@ },
            BootstrapError::NoSourceRepo => ErrorView::NoSourceRepo,
            BootstrapError::Io { context, cause } => ErrorView::Io {
                context: context@,
                cause: cause@,
            },
        }
    }
}

/// The message a failure is reported with.
pub open spec fn error_message(e: ErrorView) -> Seq<char> {
    match e {
        ErrorView::EmptyCommand => "empty command in config"@,
        ErrorView::MissingWorkingDir { cwd, command } => "working directory does not exist: "@ + cwd
            + " (running `"@ + command + "`)"@,
        ErrorView::CommandFailed { command, status } => "`"@ + command + "` exited with "@ + status,
        ErrorView::MissingInstallDir { dir } => "install dir `"@ + dir
            + "` does not exist in the worktree"@,
        ErrorView::NoSourceRepo => "copy is enabled but the event has no source repo_root"@,
        ErrorView::Io { context, cause } => context + ": "@ + cause,
    }
}

/// Each failure is reported with the text the original messages use.
pub proof fn law_failures_are_reported_as_documented(cwd: Seq<char>, command: Seq<char>, status: Seq<char>, dir: Seq<char>)
    ensures
        error_message(ErrorView::EmptyCommand) == "empty command in config"@,
        error_message(ErrorView::MissingWorkingDir { cwd, command })
            == "working directory does not exist: "@ + cwd + " (running `"@ + command + "`)"@,
        error_message(ErrorView::CommandFailed { command, status }) == "`"@ + command + "` exited with "@
            + status,
        error_message(ErrorView::MissingInstallDir { dir }) == "install dir `"@ + dir
            + "` does not exist in the worktree"@,
        error_message(ErrorView::NoSourceRepo) == "copy is enabled but the event has no source repo_root"@,
{
}

impl BootstrapError {
    /// The message this failure is reported with.
    pub fn message(&self) -> (r: String)
        ensures
            r@ == error_message(self@),
    {
        match self {
            BootstrapError::EmptyCommand => owned("empty command in config"),
            BootstrapError::MissingWorkingDir { cwd, command } => {
                let mut r = owned("working directory does not exist: ");
                r.append(cwd.as_str());
                r.append(" (running `");
                r.append(command.as_str());
                r.append("`)");
                r
            },
            BootstrapError::CommandFailed { command, status } => {
                let mut r = owned("`");
                r.append(command.as_str());
                r.append("` exited with ");
                r.append(status.as_str());
                r
            },
            BootstrapError::MissingInstallDir { dir } => {
                let mut r = owned("install dir `");
                r.append(dir.as_str());
                r.append("` does not exist in the worktree");
                r
            },
            BootstrapError::NoSourceRepo => owned(
                "copy is enabled but the event has no source repo_root",
            ),
            BootstrapError::Io { context, cause } => {
                let mut r = owned(context.as_str());
                r.append(": ");
                r.append(cause.as_str());
                r
            },
        }
    }

    /// A command that could not be started: `spawning `<program>``, with the
    /// system's reason.
    pub fn spawn_failed(program: &str, cause: &str) -> (r: BootstrapError)
        ensures
            r@ == (ErrorView::Io { context: "spawning `"@ + program@ + "`"@, cause: cause@ }),
    {
        let mut context = owned("spawning `");
        context.append(program);
        context.append("`");
        BootstrapError::Io { context, cause: owned(cause) }
    }

    /// `git ls-files` could not be started.
    pub fn listing_failed(cause: &str) -> (r: BootstrapError)
        ensures
            r@ == (ErrorView::Io {
                context: "running `git ls-files` to discover gitignored files"@,
                cause: cause@,
            }),
    {
        BootstrapError::Io {
            context: owned("running `git ls-files` to discover gitignored files"),
            cause: owned(cause),
        }
    }

    /// A copy's parent directory could not be created.
    pub fn create_dir_failed(dir: &str, cause: &str) -> (r: BootstrapError)
        ensures
            r@ == (ErrorView::Io { context: "creating "@ + dir@, cause: cause@ }),
    {
        let mut context = owned("creating ");
        context.append(dir);
        BootstrapError::Io { context, cause: owned(cause) }
    }

    /// A file could not be copied.
    pub fn copy_failed(from: &str, to: &str, cause: &str) -> (r: BootstrapError)
        ensures
            r@ == (ErrorView::Io { context: "copying "@ + from@ + " -> "@ + to@, cause: cause@ }),
    {
        let mut context = owned("copying ");
        context.append(from);
        context.append(" -> ");
        context.append(to);
        BootstrapError::Io { context, cause: owned(cause) }
    }
}

} // verus!
