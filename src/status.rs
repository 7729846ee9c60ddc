//! What the supervisor reports to its callers.
use vstd::prelude::*;
use vstd::string::StringExecFns;

verus! {

/// The state of one profile's client process as seen by a caller.
#[derive(Debug)]
pub struct ProcessStatus {
    pub is_running: bool,
    pub pid: Option<u32>,
    pub error: Option<String>,
}

/// The note attached to a status when the process was found to have exited.
pub const EXITED_NOTE: &'static str = "Process exited";

/// The plain content of a status, with the note as characters.
pub open spec fn status_view(s: ProcessStatus) -> (bool, Option<u32>, Option<Seq<char>>) {
    (
        s.is_running,
        s.pid,
        match s.error {
            Some(e) => Some(e@),
            None => None,
        },
    )
}

/// No process is tracked for the profile.
pub open spec fn idle_view() -> (bool, Option<u32>, Option<Seq<char>>) {
    (false, None, None)
}

/// The process was tracked and has been found to have exited on its own.
pub open spec fn exited_view() -> (bool, Option<u32>, Option<Seq<char>>) {
    (false, None, Some(EXITED_NOTE@))
}

/// The process runs, with the given id.
pub open spec fn running_view(pid: u32) -> (bool, Option<u32>, Option<Seq<char>>) {
    (true, Some(pid), None)
}

impl ProcessStatus {
    pub fn idle() -> (r: ProcessStatus)
        ensures
            status_view(r) == idle_view(),
    {
        ProcessStatus { is_running: false, pid: None, error: None }
    }

    pub fn exited() -> (r: ProcessStatus)
        ensures
            status_view(r) == exited_view(),
    {
        ProcessStatus { is_running: false, pid: None, error: Some(String::from_str(EXITED_NOTE)) }
    }

    pub fn running(pid: u32) -> (r: ProcessStatus)
        ensures
            status_view(r) == running_view(pid),
    {
        ProcessStatus { is_running: true, pid: Some(pid), error: None }
    }
}

/// Why a supervisor operation failed.
#[derive(Debug, Clone)]
pub enum SupervisorError {
    /// The client binary's path has no parent directory.
    InvalidBinaryPath,
    /// No rendered configuration exists for the profile.
    ConfigNotFound,
    /// The profile already has a tracked process.
    AlreadyRunning,
    /// The profile has no tracked process.
    NotRunning,
    SpawnFailed(String),
    TerminationFailed(String),
    IoError(String),
}

/// The text shown to a user for each error.
pub open spec fn error_text(e: SupervisorError) -> Seq<char> {
    match e {
        SupervisorError::InvalidBinaryPath => "Invalid frpc path"@,
        SupervisorError::ConfigNotFound => "Configuration file not found"@,
        SupervisorError::AlreadyRunning => "Process already running"@,
        SupervisorError::NotRunning => "Process not found"@,
        SupervisorError::SpawnFailed(r) => r@,
        SupervisorError::TerminationFailed(r) => r@,
        SupervisorError::IoError(r) => r@,
    }
}

impl SupervisorError {
    /// The error as a user-facing message; outside failures keep their own words.
    pub fn message(&self) -> (r: String)
        ensures
            r@ == error_text(*self),
    {
        match self {
            SupervisorError::InvalidBinaryPath => String::from_str("Invalid frpc path"),
            SupervisorError::ConfigNotFound => String::from_str("Configuration file not found"),
            SupervisorError::AlreadyRunning => String::from_str("Process already running"),
            SupervisorError::NotRunning => String::from_str("Process not found"),
            SupervisorError::SpawnFailed(r) => r.clone(),
            SupervisorError::TerminationFailed(r) => r.clone(),
            SupervisorError::IoError(r) => r.clone(),
        }
    }
}

} // verus!
