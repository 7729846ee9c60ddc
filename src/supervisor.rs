//! The supervisor's decisions on start and stop, over the process table.
//!
//! The caller holds the table under one lock for each of these calls and
//! never across a spawn or a wait: a start claims its id first, spawns
//! outside the lock, then completes or drops the claim.
use crate::status::{idle_view, running_view, status_view, ProcessStatus, SupervisorError};
use crate::table::{
    claimed, is_running_in, ManagedProcess, ProcessHandle, ProcessTable, SlotState, StatusView,
};
use vstd::prelude::*;

verus! {

/// The table after a stop has taken its entry: a running id is removed,
/// anything else stays.
pub open spec fn stopped(m: Map<Seq<char>, SlotState>, id: Seq<char>) -> Map<Seq<char>, SlotState> {
    if is_running_in(m, id) {
        m.remove(id)
    } else {
        m
    }
}

/// What a stop reports once the process has been told to terminate and
/// waited for.
pub open spec fn stop_report(outcome: Result<(), String>) -> Result<StatusView, SupervisorError> {
    match outcome {
        Ok(()) => Ok(idle_view()),
        Err(e) => Err(SupervisorError::TerminationFailed(e)),
    }
}

impl<H> ProcessTable<H> {
    /// First step of a start: fails with `ConfigNotFound` where no rendered
    /// configuration exists, with `AlreadyRunning` where the id is held, and
    /// otherwise claims the id, so that no other start can spawn for it.
    pub fn begin_start(&mut self, id: &String, config_exists: bool) -> (r: Result<
        (),
        SupervisorError,
    >)
        requires
            old(self).wf(),
        ensures
            final(self).wf(),
            !config_exists ==> r == Err::<(), SupervisorError>(SupervisorError::ConfigNotFound)
                && final(self)@ == old(self)@,
            config_exists ==> final(self)@ == claimed(old(self)@, id@),
            config_exists && old(self)@.contains_key(id@) ==> r == Err::<(), SupervisorError>(
                SupervisorError::AlreadyRunning,
            ),
            config_exists && !old(self)@.contains_key(id@) ==> r is Ok,
    {
        if !config_exists {
            return Err(SupervisorError::ConfigNotFound);
        }
        if self.try_insert(id) {
            Ok(())
        } else {
            Err(SupervisorError::AlreadyRunning)
        }
    }

    /// Last step of a start, given what the spawn gave: the process is
    /// registered under its claimed id, or the claim is dropped and the
    /// failure reported.
    pub fn finish_start(&mut self, id: &String, spawned: Result<ManagedProcess<H>, String>) -> (r:
        Result<ProcessStatus, SupervisorError>)
        requires
            old(self).wf(),
            old(self)@.get(id@) == Some(SlotState::Starting),
        ensures
            final(self).wf(),
            match spawned {
                Ok(p) => r is Ok && status_view(r->Ok_0) == running_view(p.pid)
                    && final(self)@ == old(self)@.insert(id@, SlotState::Running(p.pid)),
                Err(e) => r == Err::<ProcessStatus, SupervisorError>(
                    SupervisorError::SpawnFailed(e),
                ) && final(self)@ == old(self)@.remove(id@),
            },
    {
        match spawned {
            Ok(p) => {
                let pid = p.pid;
                self.complete(id, p);
                Ok(ProcessStatus::running(pid))
            },
            Err(e) => {
                self.abandon(id);
                Err(SupervisorError::SpawnFailed(e))
            },
        }
    }

    /// First step of a stop: removes the running entry for `id` and hands
    /// its process over, or fails with `NotRunning`, changing nothing.
    pub fn begin_stop(&mut self, id: &String) -> (r: Result<ManagedProcess<H>, SupervisorError>)
        requires
            old(self).wf(),
        ensures
            final(self).wf(),
            final(self)@ == stopped(old(self)@, id@),
            is_running_in(old(self)@, id@) <==> r is Ok,
            r is Ok ==> old(self)@[id@] == SlotState::Running(r->Ok_0.pid),
            r is Err ==> r == Err::<ManagedProcess<H>, SupervisorError>(
                SupervisorError::NotRunning,
            ),
    {
        match self.remove(id) {
            Some(p) => Ok(p),
            None => Err(SupervisorError::NotRunning),
        }
    }
}

/// The report of a stop from the outcome of terminating the process.
pub fn stop_outcome(outcome: Result<(), String>) -> (r: Result<ProcessStatus, SupervisorError>)
    ensures
        crate::table::report_view(r) == stop_report(outcome),
{
    match outcome {
        Ok(()) => Ok(ProcessStatus::idle()),
        Err(e) => Err(SupervisorError::TerminationFailed(e)),
    }
}

/// Last step of a stop, outside the lock: terminates the process taken
/// from the table and waits for it to exit.
pub fn finish_stop<H: ProcessHandle>(process: ManagedProcess<H>) -> (r: Result<
    ProcessStatus,
    SupervisorError,
>)
    ensures
        exists|outcome: Result<(), String>| crate::table::report_view(r) == stop_report(outcome),
{
    let mut process = process;
    let outcome = process.handle.terminate();
    stop_outcome(outcome)
}

} // verus!
