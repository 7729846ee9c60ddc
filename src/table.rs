//! The process table: which profile has a client process, and in what state.
use crate::status::{
    exited_view, idle_view, running_view, status_view, ProcessStatus, SupervisorError,
};
use vstd::prelude::*;

verus! {

/// Control over one spawned client process, supplied by the caller.
pub trait ProcessHandle {
    /// Checks without blocking whether the process has exited.
    fn has_exited(&mut self) -> Result<bool, String>;

    /// Signals the process to terminate and waits until it has exited.
    fn terminate(&mut self) -> Result<(), String>;
}

/// A supervised process: its handle, the id observed at spawn time and the
/// file that captures its output.
pub struct ManagedProcess<H> {
    pub handle: H,
    pub pid: u32,
    pub log_path: String,
}

impl<H> ManagedProcess<H> {
    pub fn new(handle: H, pid: u32, log_path: String) -> (r: ManagedProcess<H>)
        ensures
            r.handle == handle,
            r.pid == pid,
            r.log_path == log_path,
    {
        ManagedProcess { handle, pid, log_path }
    }
}

/// What the table knows of a profile that it holds.
#[derive(PartialEq, Eq, Structural, Clone, Copy, Debug)]
pub enum SlotState {
    /// Claimed by a `start` whose spawn has not completed yet.
    Starting,
    /// A process with this id is believed to run.
    Running(u32),
}

enum Slot<H> {
    Starting,
    Running(ManagedProcess<H>),
}

spec fn slot_state<H>(s: Slot<H>) -> SlotState {
    match s {
        Slot::Starting => SlotState::Starting,
        Slot::Running(p) => SlotState::Running(p.pid),
    }
}

struct Entry<H> {
    id: String,
    slot: Slot<H>,
}

spec fn entry_pair<H>(e: Entry<H>) -> (Seq<char>, SlotState) {
    (e.id@, slot_state(e.slot))
}

/// The map that a list of (key, state) pairs stands for.
pub open spec fn pairs_map(s: Seq<(Seq<char>, SlotState)>) -> Map<Seq<char>, SlotState>
    decreases s.len(),
{
    if s.len() == 0 {
        Map::empty()
    } else {
        pairs_map(s.drop_last()).insert(s.last().0, s.last().1)
    }
}

pub open spec fn keys_distinct(s: Seq<(Seq<char>, SlotState)>) -> bool {
    forall|i: int, j: int| 0 <= i < j < s.len() ==> s[i].0 != s[j].0
}

proof fn lemma_lookup(s: Seq<(Seq<char>, SlotState)>)
    requires
        keys_distinct(s),
    ensures
        forall|i: int|
            0 <= i < s.len() ==> pairs_map(s).contains_key(#[trigger] s[i].0) && pairs_map(s)[s[i].0]
                == s[i].1,
        forall|k: Seq<char>|
            #[trigger] pairs_map(s).contains_key(k) ==> exists|i: int| 0 <= i < s.len() && s[i].0 == k,
    decreases s.len(),
{
    if s.len() > 0 {
        let t = s.drop_last();
        assert(keys_distinct(t));
        lemma_lookup(t);
        assert forall|k: Seq<char>| #[trigger] pairs_map(s).contains_key(k) implies exists|i: int|
            0 <= i < s.len() && s[i].0 == k by {
            if k != s.last().0 {
                assert(pairs_map(t).contains_key(k));
                let i = choose|i: int| 0 <= i < t.len() && t[i].0 == k;
                assert(t[i] == s[i]);
                assert(s[i].0 == k);
            } else {
                assert(s[s.len() - 1].0 == k);
            }
        }
        assert forall|i: int| 0 <= i < s.len() implies pairs_map(s).contains_key(#[trigger] s[i].0)
            && pairs_map(s)[s[i].0] == s[i].1 by {
            if i < s.len() - 1 {
                assert(t[i] == s[i]);
            }
        }
    }
}

proof fn lemma_absent(s: Seq<(Seq<char>, SlotState)>, k: Seq<char>)
    requires
        keys_distinct(s),
        forall|i: int| 0 <= i < s.len() ==> s[i].0 != k,
    ensures
        !pairs_map(s).contains_key(k),
{
    lemma_lookup(s);
}

proof fn lemma_remove(s: Seq<(Seq<char>, SlotState)>, i: int)
    requires
        keys_distinct(s),
        0 <= i < s.len(),
    ensures
        keys_distinct(s.remove(i)),
        pairs_map(s.remove(i)) =~= pairs_map(s).remove(s[i].0),
    decreases s.len(),
{
    let r = s.remove(i);
    assert forall|a: int, b: int| 0 <= a < b < r.len() implies r[a].0 != r[b].0 by {
        let a0 = if a < i { a } else { a + 1 };
        let b0 = if b < i { b } else { b + 1 };
        assert(r[a] == s[a0] && r[b] == s[b0]);
    }
    let t = s.drop_last();
    assert(keys_distinct(t));
    if i == s.len() - 1 {
        assert(r =~= t);
        lemma_absent(t, s.last().0);
    } else {
        assert(r.drop_last() =~= t.remove(i));
        assert(r.last() == s.last());
        lemma_remove(t, i);
        assert(s[i].0 != s.last().0);
    }
}

proof fn lemma_push(s: Seq<(Seq<char>, SlotState)>, p: (Seq<char>, SlotState))
    requires
        keys_distinct(s),
        !pairs_map(s).contains_key(p.0),
    ensures
        keys_distinct(s.push(p)),
        pairs_map(s.push(p)) == pairs_map(s).insert(p.0, p.1),
{
    lemma_lookup(s);
    assert(s.push(p).drop_last() =~= s);
    let q = s.push(p);
    assert forall|a: int, b: int| 0 <= a < b < q.len() implies q[a].0 != q[b].0 by {
        if b == s.len() {
            assert(q[a] == s[a]);
        } else {
            assert(q[a] == s[a] && q[b] == s[b]);
        }
    }
}

/// The table's state for `id` after an attempt to claim it: a claim
/// succeeds only where the id is absent, and marks it as starting.
pub open spec fn claimed(m: Map<Seq<char>, SlotState>, id: Seq<char>) -> Map<
    Seq<char>,
    SlotState,
> {
    if m.contains_key(id) {
        m
    } else {
        m.insert(id, SlotState::Starting)
    }
}

pub open spec fn is_running_in(m: Map<Seq<char>, SlotState>, id: Seq<char>) -> bool {
    m.contains_key(id) && m[id] is Running
}

/// Maps each profile id to at most one supervised process.
pub struct ProcessTable<H> {
    entries: Vec<Entry<H>>,
}

impl<H> View for ProcessTable<H> {
    type V = Map<Seq<char>, SlotState>;

    closed spec fn view(&self) -> Map<Seq<char>, SlotState> {
        pairs_map(self.pairs())
    }
}

impl<H> ProcessTable<H> {
    closed spec fn pairs(&self) -> Seq<(Seq<char>, SlotState)> {
        self.entries@.map_values(|e: Entry<H>| entry_pair(e))
    }

    /// No profile id appears twice.
    pub closed spec fn wf(&self) -> bool {
        keys_distinct(self.pairs())
    }

    pub fn new() -> (r: ProcessTable<H>)
        ensures
            r.wf(),
            r@ == Map::<Seq<char>, SlotState>::empty(),
    {
        let r = ProcessTable { entries: Vec::new() };
        assert(r.pairs() =~= Seq::<(Seq<char>, SlotState)>::empty());
        r
    }

    fn find(&self, id: &String) -> (r: Option<usize>)
        requires
            self.wf(),
        ensures
            match r {
                Some(i) => i < self.entries@.len() && self.entries@[i as int].id@ == id@
                    && self@.contains_key(id@) && self@[id@] == slot_state(
                    self.entries@[i as int].slot,
                ),
                None => !self@.contains_key(id@),
            },
    {
        let mut i: usize = 0;
        while i < self.entries.len()
            invariant
                self.wf(),
                i <= self.entries@.len(),
                forall|j: int| 0 <= j < i ==> self.entries@[j].id@ != id@,
            decreases self.entries@.len() - i,
        {
            if self.entries[i].id == *id {
                proof {
                    lemma_lookup(self.pairs());
                    assert(self.pairs()[i as int] == entry_pair(self.entries@[i as int]));
                    assert(self.pairs()[i as int].0 == id@);
                }
                return Some(i);
            }
            i = i + 1;
        }
        proof {
            assert forall|j: int| 0 <= j < self.pairs().len() implies self.pairs()[j].0 != id@ by {
                assert(self.pairs()[j] == entry_pair(self.entries@[j]));
            }
            lemma_absent(self.pairs(), id@);
        }
        None
    }

    /// Removes entry `i`, returning it.
    fn take(&mut self, i: usize) -> (r: Entry<H>)
        requires
            old(self).wf(),
            i < old(self).entries@.len(),
        ensures
            final(self).wf(),
            r == old(self).entries@[i as int],
            final(self)@ == old(self)@.remove(r.id@),
    {
        let ghost before = self.pairs();
        let r = self.entries.remove(i);
        proof {
            assert(self.pairs() =~= before.remove(i as int));
            lemma_remove(before, i as int);
        }
        r
    }

    /// Adds an entry for an id that the table does not hold.
    fn put(&mut self, e: Entry<H>)
        requires
            old(self).wf(),
            !old(self)@.contains_key(e.id@),
        ensures
            final(self).wf(),
            final(self)@ == old(self)@.insert(e.id@, slot_state(e.slot)),
    {
        let ghost before = self.pairs();
        let ghost p = entry_pair(e);
        self.entries.push(e);
        proof {
            assert(self.pairs() =~= before.push(p));
            lemma_push(before, p);
        }
    }

    /// Whether the table holds `id`, starting or running.
    pub fn contains(&self, id: &String) -> (r: bool)
        requires
            self.wf(),
        ensures
            r == self@.contains_key(id@),
    {
        self.find(id).is_some()
    }

    /// The state held for `id`, if any.
    pub fn state(&self, id: &String) -> (r: Option<SlotState>)
        requires
            self.wf(),
        ensures
            r == (if self@.contains_key(id@) {
                Some(self@[id@])
            } else {
                None
            }),
    {
        match self.find(id) {
            Some(i) => match &self.entries[i].slot {
                Slot::Starting => Some(SlotState::Starting),
                Slot::Running(p) => Some(SlotState::Running(p.pid)),
            },
            None => None,
        }
    }

    /// Claims `id` for a start about to spawn; fails, changing nothing,
    /// where the table already holds it.
    pub fn try_insert(&mut self, id: &String) -> (r: bool)
        requires
            old(self).wf(),
        ensures
            final(self).wf(),
            r == !old(self)@.contains_key(id@),
            final(self)@ == claimed(old(self)@, id@),
    {
        if self.contains(id) {
            false
        } else {
            self.put(Entry { id: id.clone(), slot: Slot::Starting });
            true
        }
    }

    /// Drops a claim whose spawn failed; any other entry stays.
    pub fn abandon(&mut self, id: &String)
        requires
            old(self).wf(),
        ensures
            final(self).wf(),
            final(self)@ == (if old(self)@.get(id@) == Some(SlotState::Starting) {
                old(self)@.remove(id@)
            } else {
                old(self)@
            }),
    {
        match self.find(id) {
            Some(i) => {
                if let Slot::Starting = self.entries[i].slot {
                    let _ = self.take(i);
                }
            },
            None => {},
        }
    }

    /// Turns the claim on `id` into a running entry for `process`.
    pub fn complete(&mut self, id: &String, process: ManagedProcess<H>)
        requires
            old(self).wf(),
            old(self)@.get(id@) == Some(SlotState::Starting),
        ensures
            final(self).wf(),
            final(self)@ == old(self)@.insert(id@, SlotState::Running(process.pid)),
    {
        let i = self.find(id).unwrap();
        let e = self.take(i);
        self.put(Entry { id: e.id, slot: Slot::Running(process) });
        assert(final(self)@ =~= old(self)@.insert(id@, SlotState::Running(process.pid)));
    }

    /// Removes the running entry for `id` and hands its process over; a
    /// starting or absent id is left as it is.
    pub fn remove(&mut self, id: &String) -> (r: Option<ManagedProcess<H>>)
        requires
            old(self).wf(),
        ensures
            final(self).wf(),
            match r {
                Some(p) => old(self)@.get(id@) == Some(SlotState::Running(p.pid)) && final(self)@
                    == old(self)@.remove(id@),
                None => !is_running_in(old(self)@, id@) && final(self)@ == old(self)@,
            },
    {
        match self.find(id) {
            Some(i) => {
                if let Slot::Running(_) = self.entries[i].slot {
                    let e = self.take(i);
                    match e.slot {
                        Slot::Running(p) => Some(p),
                        Slot::Starting => None,
                    }
                } else {
                    None
                }
            },
            None => None,
        }
    }
}

/// What a caller sees of a status request.
pub type StatusView = (bool, Option<u32>, Option<Seq<char>>);

pub open spec fn report_view(r: Result<ProcessStatus, SupervisorError>) -> Result<
    StatusView,
    SupervisorError,
> {
    match r {
        Ok(s) => Ok(status_view(s)),
        Err(e) => Err(e),
    }
}

/// The report on `id` given the outcome of a liveness probe, which counts
/// only where a process is running. An id claimed by a start whose spawn has
/// not completed has no process yet, and reports as not running.
pub open spec fn status_report(
    m: Map<Seq<char>, SlotState>,
    id: Seq<char>,
    probe: Result<bool, String>,
) -> Result<StatusView, SupervisorError> {
    match m.get(id) {
        None => Ok(idle_view()),
        Some(SlotState::Starting) => Ok(idle_view()),
        Some(SlotState::Running(pid)) => match probe {
            Ok(true) => Ok(exited_view()),
            Ok(false) => Ok(running_view(pid)),
            Err(e) => Err(SupervisorError::IoError(e)),
        },
    }
}

/// The table after a status request: a process found to have exited is reaped.
pub open spec fn status_table(
    m: Map<Seq<char>, SlotState>,
    id: Seq<char>,
    probe: Result<bool, String>,
) -> Map<Seq<char>, SlotState> {
    if is_running_in(m, id) && probe == Ok::<bool, String>(true) {
        m.remove(id)
    } else {
        m
    }
}

impl<H> ProcessTable<H> {
    /// Reports on `id` from the outcome of a liveness probe of its process,
    /// reaping the entry where the probe found the process exited.
    pub fn report(&mut self, id: &String, probe: Result<bool, String>) -> (r: Result<
        ProcessStatus,
        SupervisorError,
    >)
        requires
            old(self).wf(),
        ensures
            final(self).wf(),
            report_view(r) == status_report(old(self)@, id@, probe),
            final(self)@ == status_table(old(self)@, id@, probe),
    {
        match self.state(id) {
            None => Ok(ProcessStatus::idle()),
            Some(SlotState::Starting) => Ok(ProcessStatus::idle()),
            Some(SlotState::Running(pid)) => match probe {
                Ok(true) => {
                    let _ = self.remove(id);
                    Ok(ProcessStatus::exited())
                },
                Ok(false) => Ok(ProcessStatus::running(pid)),
                Err(e) => Err(SupervisorError::IoError(e)),
            },
        }
    }
}

impl<H: ProcessHandle> ProcessTable<H> {
    /// Reports on `id`, probing a running process without blocking; one that
    /// has exited on its own is reaped and reported with a note.
    pub fn status(&mut self, id: &String) -> (r: Result<ProcessStatus, SupervisorError>)
        requires
            old(self).wf(),
        ensures
            final(self).wf(),
            exists|probe: Result<bool, String>|
                report_view(r) == status_report(old(self)@, id@, probe) && final(self)@
                    == status_table(old(self)@, id@, probe),
    {
        let probe = match self.find(id) {
            Some(i) => {
                if let Slot::Running(_) = self.entries[i].slot {
                    let e = self.take(i);
                    let Entry { id: eid, slot } = e;
                    match slot {
                        Slot::Running(mut p) => {
                            let probe = p.handle.has_exited();
                            self.put(Entry { id: eid, slot: Slot::Running(p) });
                            assert(self@ =~= old(self)@);
                            probe
                        },
                        Slot::Starting => Ok(false),
                    }
                } else {
                    Ok(false)
                }
            },
            None => Ok(false),
        };
        self.report(id, probe)
    }
}

} // verus!
