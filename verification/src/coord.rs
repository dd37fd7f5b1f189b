//! The probing coordinator's decision logic: the shared version
//! counter, the one-way stop latch, and the per-task decision taken on
//! a metadata lookup's outcome. The network calls themselves are made
//! by the caller; this module decides what to do with their results.

use vstd::prelude::*;

verus! {

/// What the metadata endpoint reported for one lookup, reduced to the
/// values the probing logic reads: either the candidate content
/// locations of an existing version, or an error payload.
pub enum MetadataOutcome {
    Found { locations: Vec<String> },
    ErrorPayload,
}

/// The fatal error kinds of a run.
#[derive(PartialEq, Eq, Structural, Clone, Copy, Debug)]
pub enum RunError {
    /// The supplied asset identifier was not an unsigned integer.
    InputError,
    /// The initial latest-version lookup found no usable asset.
    AssetUnavailable,
    /// A network or decoding failure on a request.
    TransportError,
    /// A content location carried no last-modification header.
    MissingHeader,
}

impl RunError {
    /// A short description for reporting the failure.
    pub fn message(&self) -> (s: &'static str)
        ensures
            s@ == match self {
                RunError::InputError => "input is not an unsigned integer"@,
                RunError::AssetUnavailable => "asset not found"@,
                RunError::TransportError => "request failed"@,
                RunError::MissingHeader => "no last-modified header"@,
            },
    {
        match self {
            RunError::InputError => "input is not an unsigned integer",
            RunError::AssetUnavailable => "asset not found",
            RunError::TransportError => "request failed",
            RunError::MissingHeader => "no last-modified header",
        }
    }
}

/// What a probe task does next, decided from its metadata lookup.
pub enum ProbeDecision {
    /// The error payload arrived: versions are exhausted, stop probing.
    Stop,
    /// The version exists but offered no content location: record
    /// nothing for it and let the run continue.
    Skip,
    /// Probe this content location for its last-modification date.
    Probe { location: String },
}

/// Shared run state: the next version number to hand out and the
/// one-way stop latch. The ghost `assigned` sequence records every
/// version number handed to a probe task, in order.
pub struct RunState {
    pub next_version: u32,
    pub stopped: bool,
    pub assigned: Ghost<Seq<u32>>,
}

/// The coordinator keeps ticking exactly while the latch is unset.
pub open spec fn spawn_allowed(s: RunState) -> bool {
    !s.stopped
}

impl RunState {
    /// Well-formedness: version numbers are handed out from 1 upward,
    /// so the assignment history holds exactly 1, 2, ..., next_version - 1.
    pub open spec fn wf(self) -> bool {
        &&& self.next_version >= 1
        &&& self.assigned@.len() == self.next_version - 1
        &&& forall|i: int| 0 <= i < self.assigned@.len() ==> self.assigned@[i] == i + 1
    }

    /// A fresh run: nothing assigned yet, latch unset.
    pub fn new() -> (s: RunState)
        ensures
            s.wf(),
            s.next_version == 1,
            !s.stopped,
            s.assigned@.len() == 0,
    {
        RunState { next_version: 1, stopped: false, assigned: Ghost(Seq::empty()) }
    }

    /// The coordinator's tick guard: whether a new probe task may be
    /// spawned.
    pub fn should_spawn(&self) -> (b: bool)
        ensures
            b == spawn_allowed(*self),
    {
        !self.stopped
    }

    /// Hand out the next version number and advance the counter, as one
    /// read-then-increment step. Returns `None` only when the counter
    /// is exhausted; nothing is handed out or changed then.
    pub fn begin_probe(&mut self) -> (v: Option<u32>)
        ensures
            final(self).stopped == old(self).stopped,
            old(self).next_version < u32::MAX ==> {
                &&& v == Some(old(self).next_version)
                &&& final(self).next_version == old(self).next_version + 1
                &&& final(self).assigned@ == old(self).assigned@.push(old(self).next_version)
            },
            old(self).next_version == u32::MAX ==> v is None && *final(self) == *old(self),
            old(self).wf() ==> final(self).wf(),
    {
        if self.next_version < u32::MAX {
            let v = self.next_version;
            self.next_version = v + 1;
            proof {
                self.assigned@ = self.assigned@.push(v);
            }
            Some(v)
        } else {
            None
        }
    }

    /// A probe task observed the version-exhausted signal: set the
    /// one-way stop latch. The latch is never cleared.
    pub fn observe_exhausted(&mut self)
        ensures
            final(self).stopped,
            final(self).next_version == old(self).next_version,
            final(self).assigned == old(self).assigned,
            old(self).wf() ==> final(self).wf(),
    {
        self.stopped = true;
    }
}

/// Decide a probe task's next step from its metadata lookup. An error
/// payload is the designed stopping signal: it sets the stop latch and
/// ends the task. Otherwise the first candidate content location is
/// chosen, or the version is skipped when none was offered. The counter
/// and assignment history are untouched, and the latch is never cleared.
pub fn decide_metadata(state: &mut RunState, outcome: MetadataOutcome) -> (d: ProbeDecision)
    ensures
        final(state).next_version == old(state).next_version,
        final(state).assigned == old(state).assigned,
        old(state).wf() ==> final(state).wf(),
        old(state).stopped ==> final(state).stopped,
        match outcome {
            MetadataOutcome::ErrorPayload => final(state).stopped && d is Stop,
            MetadataOutcome::Found { locations } => {
                &&& final(state).stopped == old(state).stopped
                &&& locations@.len() == 0 ==> d is Skip
                &&& locations@.len() > 0 ==> (d matches ProbeDecision::Probe { location }
                    && location@ == locations@[0]@)
            },
        },
{
    match outcome {
        MetadataOutcome::ErrorPayload => {
            state.observe_exhausted();
            ProbeDecision::Stop
        },
        MetadataOutcome::Found { locations } => {
            if locations.len() == 0 {
                ProbeDecision::Skip
            } else {
                let mut l = locations;
                let first = l.remove(0);
                ProbeDecision::Probe { location: first }
            }
        },
    }
}

/// The precondition check on the initial latest-version lookup: the
/// run may start only when it reported at least one content location;
/// anything else is the asset-unavailable condition and aborts the run
/// before any probing starts.
pub fn check_initial(outcome: &MetadataOutcome) -> (r: Result<(), RunError>)
    ensures
        r is Ok <==> (outcome matches MetadataOutcome::Found { locations } && locations@.len()
            > 0),
        r is Err ==> r == Err::<(), RunError>(RunError::AssetUnavailable),
{
    match outcome {
        MetadataOutcome::Found { locations } => {
            if locations.len() > 0 {
                Ok(())
            } else {
                Err(RunError::AssetUnavailable)
            }
        },
        MetadataOutcome::ErrorPayload => Err(RunError::AssetUnavailable),
    }
}

/// Version numbers handed to probe tasks form the contiguous ascending
/// sequence 1, 2, 3, ... : the history starts at 1, each entry is one
/// more than the one before it, and there are no gaps and no repeats,
/// regardless of the order in which the tasks later complete.
pub proof fn lemma_assignments_contiguous(s: RunState)
    requires
        s.wf(),
    ensures
        s.assigned@.len() > 0 ==> s.assigned@[0] == 1,
        forall|i: int| 0 <= i < s.assigned@.len() ==> s.assigned@[i] == i + 1,
        forall|i: int, j: int| 0 <= i < j < s.assigned@.len() ==> s.assigned@[i] < s.assigned@[j],
{
}

/// Once any probe task has set the stop latch, the coordinator spawns
/// no further task: the tick guard refuses from then on, and no
/// operation of the run ever clears the latch.
pub proof fn lemma_no_spawn_after_stop(s: RunState)
    requires
        s.stopped,
    ensures
        !spawn_allowed(s),
{
}

} // verus!
