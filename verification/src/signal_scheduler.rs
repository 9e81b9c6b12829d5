//! The scheduler: the controller of one profiling run. It decides; timers,
//! signals, locks and threads are its caller's business, which reports what
//! happened and acts on what comes back.

use crate::model::Function;
use crate::profile::{Profile, ProfileView};
use crate::sample::{all_handles, descriptions_fit, RawSample, RawSampleView};
use crate::serializer::{document_of, ProfileDocument, ProfileSerializer2};
use std::collections::HashSet;
use vstd::prelude::*;

verus! {

broadcast use vstd::std_specs::hash::group_hash_axioms;

/// The number of staged samples that a run has room for unless its
/// configuration says otherwise.
pub const DEFAULT_STAGING_CAPACITY: usize = 10000;

/// The clock by which a thread's timer runs.
#[derive(Clone, Copy, Debug, PartialEq, Eq, Structural)]
pub enum TimeMode {
    CpuTime,
    WallTime,
}

/// How a run is set up.
#[derive(Clone, Copy, Debug, PartialEq, Eq, Structural)]
pub struct Configuration {
    pub time_mode: TimeMode,
    pub staging_capacity: usize,
}

/// Where a scheduler stands in its life.
#[derive(Clone, Copy, Debug, PartialEq, Eq, Structural)]
pub enum SchedulerState {
    Idle,
    Running,
    Stopped,
}

/// Why a request to the scheduler failed.
#[derive(Clone, Copy, Debug, PartialEq, Eq, Structural)]
pub enum SchedulerError {
    /// The request does not fit the scheduler's state.
    InvalidState,
    /// The timers of the target threads could not be installed.
    TimerInstallError,
    /// The frame descriptions do not match the staged samples.
    DescriptionMismatch,
}

/// What became of a captured sample.
#[derive(Clone, Copy, Debug, PartialEq, Eq, Structural)]
pub enum SampleOutcome {
    /// The sample is staged.
    Staged,
    /// The staging area was full: the sample is dropped and counted.
    DroppedBufferFull,
    /// No run is in progress: the sample is dropped.
    DroppedNotRunning,
}

/// What a scheduler holds.
pub ghost struct SchedulerView {
    pub configuration: Configuration,
    pub state: SchedulerState,
    pub profile: Option<ProfileView>,
    pub dropped_samples: u64,
}

impl SchedulerView {
    /// There is a profile exactly while the scheduler is running, and it is
    /// well formed.
    pub open spec fn wf(self) -> bool {
        &&& self.state is Running <==> self.profile is Some
        &&& self.profile matches Some(profile) ==> profile.wf()
    }

    /// A scheduler that has not been started.
    pub open spec fn idle(configuration: Configuration) -> SchedulerView {
        SchedulerView {
            configuration,
            state: SchedulerState::Idle,
            profile: None,
            dropped_samples: 0,
        }
    }

    /// The scheduler once a run has started at `start_timestamp_ns`.
    pub open spec fn started(self, start_timestamp_ns: u64) -> SchedulerView {
        SchedulerView {
            state: SchedulerState::Running,
            profile: Some(
                ProfileView::empty(start_timestamp_ns, self.configuration.staging_capacity as nat),
            ),
            ..self
        }
    }

    /// The scheduler once its run has ended.
    pub open spec fn stopped(self) -> SchedulerView {
        SchedulerView { state: SchedulerState::Stopped, profile: None, ..self }
    }

    /// The scheduler with `profile` in place of its profile.
    pub open spec fn with_profile(self, profile: ProfileView) -> SchedulerView {
        SchedulerView { profile: Some(profile), ..self }
    }

    /// The scheduler with one more dropped sample counted, as far as the
    /// counter goes.
    pub open spec fn with_drop_counted(self) -> SchedulerView {
        SchedulerView {
            dropped_samples: if self.dropped_samples < u64::MAX {
                (self.dropped_samples + 1) as u64
            } else {
                self.dropped_samples
            },
            ..self
        }
    }

    /// The staged samples of the run in progress; none without a run.
    pub open spec fn staged(self) -> Seq<RawSampleView> {
        match self.profile {
            Some(profile) => profile.staged,
            None => Seq::empty(),
        }
    }
}

/// The controller of one profiling run.
pub struct SignalScheduler {
    configuration: Configuration,
    state: SchedulerState,
    profile: Option<Profile>,
    dropped_samples: u64,
}

impl View for SignalScheduler {
    type V = SchedulerView;

    closed spec fn view(&self) -> SchedulerView {
        SchedulerView {
            configuration: self.configuration,
            state: self.state,
            profile: match self.profile {
                Some(profile) => Some(profile@),
                None => None,
            },
            dropped_samples: self.dropped_samples,
        }
    }
}

impl SignalScheduler {
    /// Whether the scheduler's invariant holds.
    pub open spec fn wf(&self) -> bool {
        self@.wf()
    }

    /// An idle scheduler whose timers will run by CPU time.
    pub fn new() -> (scheduler: SignalScheduler)
        ensures
            scheduler.wf(),
            scheduler@ == SchedulerView::idle(
                Configuration {
                    time_mode: TimeMode::CpuTime,
                    staging_capacity: DEFAULT_STAGING_CAPACITY,
                },
            ),
    {
        SignalScheduler::with_configuration(
            Configuration { time_mode: TimeMode::CpuTime, staging_capacity: DEFAULT_STAGING_CAPACITY },
        )
    }

    /// An idle scheduler with the given configuration.
    pub fn with_configuration(configuration: Configuration) -> (scheduler: SignalScheduler)
        ensures
            scheduler.wf(),
            scheduler@ == SchedulerView::idle(configuration),
    {
        SignalScheduler {
            configuration,
            state: SchedulerState::Idle,
            profile: None,
            dropped_samples: 0,
        }
    }

    /// The threads that get a timer: each of `targets` once.
    pub fn timer_targets(targets: &Vec<u64>) -> (threads: HashSet<u64>)
        ensures
            threads@ == targets@.to_set(),
    {
        let mut threads: HashSet<u64> = HashSet::new();
        let mut i: usize = 0;
        while i < targets.len()
            invariant
                i <= targets@.len(),
                threads@ == targets@.take(i as int).to_set(),
            decreases targets@.len() - i,
        {
            threads.insert(targets[i]);
            proof {
                let before = targets@.take(i as int);
                let after = targets@.take(i as int + 1);
                assert(after == before.push(targets@[i as int]));
                assert forall|t: u64| after.to_set().contains(t) <==> before.to_set().insert(
                    targets@[i as int],
                ).contains(t) by {
                    if after.contains(t) {
                        let k = choose|k: int| 0 <= k < after.len() && after[k] == t;
                        if k < before.len() {
                            assert(before[k] == t);
                        }
                    }
                    if before.contains(t) {
                        let k = choose|k: int| 0 <= k < before.len() && before[k] == t;
                        assert(after[k] == t);
                    }
                    assert(after[i as int] == targets@[i as int]);
                }
                assert(after.to_set() =~= before.to_set().insert(targets@[i as int]));
            }
            i += 1;
        }
        proof {
            assert(targets@.take(i as int) =~= targets@);
        }
        threads
    }

    /// Starts the run. `timers_installed` reports whether every target
    /// thread got its timer. An idle scheduler whose timers are installed
    /// starts running, with an empty profile that begins at
    /// `start_timestamp_ns`. Any other request fails and changes nothing:
    /// with `InvalidState` where the scheduler is not idle, else with
    /// `TimerInstallError`.
    pub fn start(&mut self, start_timestamp_ns: u64, timers_installed: bool) -> (started: Result<
        (),
        SchedulerError,
    >)
        requires
            old(self).wf(),
        ensures
            final(self).wf(),
            match started {
                Ok(_) => {
                    &&& old(self)@.state is Idle
                    &&& timers_installed
                    &&& final(self)@ == old(self)@.started(start_timestamp_ns)
                },
                Err(SchedulerError::InvalidState) => {
                    &&& !(old(self)@.state is Idle)
                    &&& final(self)@ == old(self)@
                },
                Err(SchedulerError::TimerInstallError) => {
                    &&& old(self)@.state is Idle
                    &&& !timers_installed
                    &&& final(self)@ == old(self)@
                },
                Err(SchedulerError::DescriptionMismatch) => false,
            },
    {
        match self.state {
            SchedulerState::Idle => {},
            _ => {
                return Err(SchedulerError::InvalidState);
            },
        }
        if !timers_installed {
            return Err(SchedulerError::TimerInstallError);
        }
        self.profile = Some(Profile::new(start_timestamp_ns, self.configuration.staging_capacity));
        self.state = SchedulerState::Running;
        Ok(())
    }

    /// Takes a sample that the signal handler captured. While a run is in
    /// progress the sample is staged, unless the staging area is full: then
    /// it is dropped and the drop is counted. Without a run it is dropped.
    pub fn stage_sample(&mut self, sample: RawSample) -> (outcome: SampleOutcome)
        requires
            old(self).wf(),
        ensures
            final(self).wf(),
            match outcome {
                SampleOutcome::Staged => {
                    &&& old(self)@.profile matches Some(profile)
                    &&& profile.has_room()
                    &&& final(self)@ == old(self)@.with_profile(profile.staged_with(sample@))
                },
                SampleOutcome::DroppedBufferFull => {
                    &&& old(self)@.profile matches Some(profile)
                    &&& !profile.has_room()
                    &&& final(self)@ == old(self)@.with_drop_counted()
                },
                SampleOutcome::DroppedNotRunning => {
                    &&& old(self)@.profile is None
                    &&& final(self)@ == old(self)@
                },
            },
    {
        match self.profile.take() {
            None => SampleOutcome::DroppedNotRunning,
            Some(mut profile) => {
                let staged = profile.stage(sample);
                self.profile = Some(profile);
                match staged {
                    Ok(_) => SampleOutcome::Staged,
                    Err(_) => {
                        if self.dropped_samples < u64::MAX {
                            self.dropped_samples = self.dropped_samples + 1;
                        }
                        SampleOutcome::DroppedBufferFull
                    },
                }
            },
        }
    }

    /// Moves the staged samples of the run in progress to its durable
    /// samples: `descriptions[i][j]` describes frame `j` of staged sample
    /// `i`. Fails and changes nothing with `InvalidState` where no run is in
    /// progress, else with `DescriptionMismatch` where the descriptions do
    /// not match the staged samples.
    pub fn flush(&mut self, descriptions: &Vec<Vec<Function>>) -> (flushed: Result<
        (),
        SchedulerError,
    >)
        requires
            old(self).wf(),
        ensures
            final(self).wf(),
            match flushed {
                Ok(_) => {
                    &&& old(self)@.profile matches Some(profile)
                    &&& descriptions_fit(profile.staged, descriptions@)
                    &&& final(self)@ == old(self)@.with_profile(profile.flushed(descriptions@))
                    &&& profile.extended_by(profile.flushed(descriptions@))
                },
                Err(SchedulerError::InvalidState) => {
                    &&& old(self)@.profile is None
                    &&& final(self)@ == old(self)@
                },
                Err(SchedulerError::DescriptionMismatch) => {
                    &&& old(self)@.profile matches Some(profile)
                    &&& !descriptions_fit(profile.staged, descriptions@)
                    &&& final(self)@ == old(self)@
                },
                Err(SchedulerError::TimerInstallError) => false,
            },
    {
        match self.profile.take() {
            None => Err(SchedulerError::InvalidState),
            Some(mut profile) => {
                let flushed = profile.flush_temporary_sample_buffer(descriptions);
                self.profile = Some(profile);
                match flushed {
                    Ok(_) => Ok(()),
                    Err(_) => Err(SchedulerError::DescriptionMismatch),
                }
            },
        }
    }

    /// Ends the run: flushes the staged samples as `flush` does, and
    /// returns the document of the finished profile. The scheduler is then
    /// stopped for good. Fails and changes nothing with `InvalidState` where
    /// no run is in progress, else with `DescriptionMismatch` where the
    /// descriptions do not match the staged samples.
    pub fn stop(&mut self, descriptions: &Vec<Vec<Function>>) -> (stopped: Result<
        ProfileDocument,
        SchedulerError,
    >)
        requires
            old(self).wf(),
        ensures
            final(self).wf(),
            match stopped {
                Ok(document) => {
                    &&& old(self)@.profile matches Some(profile)
                    &&& descriptions_fit(profile.staged, descriptions@)
                    &&& document@ == document_of(profile.flushed(descriptions@))
                    &&& document@.wf()
                    &&& final(self)@ == old(self)@.stopped()
                },
                Err(SchedulerError::InvalidState) => {
                    &&& old(self)@.profile is None
                    &&& final(self)@ == old(self)@
                },
                Err(SchedulerError::DescriptionMismatch) => {
                    &&& old(self)@.profile matches Some(profile)
                    &&& !descriptions_fit(profile.staged, descriptions@)
                    &&& final(self)@ == old(self)@
                },
                Err(SchedulerError::TimerInstallError) => false,
            },
    {
        match self.profile.take() {
            None => Err(SchedulerError::InvalidState),
            Some(mut profile) => {
                match profile.flush_temporary_sample_buffer(descriptions) {
                    Err(_) => {
                        self.profile = Some(profile);
                        Err(SchedulerError::DescriptionMismatch)
                    },
                    Ok(_) => {
                        let serializer = ProfileSerializer2::new();
                        let document = serializer.serialize(&profile);
                        self.state = SchedulerState::Stopped;
                        Ok(document)
                    },
                }
            },
        }
    }

    /// The scheduler's configuration.
    pub fn configuration(&self) -> (configuration: Configuration)
        ensures
            configuration == self@.configuration,
    {
        self.configuration
    }

    /// Where the scheduler stands in its life.
    pub fn state(&self) -> (state: SchedulerState)
        ensures
            state == self@.state,
    {
        self.state
    }

    /// Whether a run is in progress.
    pub fn is_running(&self) -> (running: bool)
        ensures
            running == (self@.state is Running),
    {
        match self.state {
            SchedulerState::Running => true,
            _ => false,
        }
    }

    /// The number of samples that were dropped because the staging area was
    /// full.
    pub fn dropped_samples(&self) -> (dropped: u64)
        ensures
            dropped == self@.dropped_samples,
    {
        self.dropped_samples
    }

    /// The profile of the run in progress.
    pub fn profile(&self) -> (profile: Option<&Profile>)
        ensures
            match profile {
                Some(p) => self@.profile == Some(p@),
                None => self@.profile is None,
            },
    {
        self.profile.as_ref()
    }

    /// The frame handles that the scheduler's samples refer to, for the
    /// runtime's memory manager to keep alive: every frame of every staged
    /// sample, in the order of staging; none without a run.
    pub fn live_frame_handles(&self) -> (handles: Vec<u64>)
        ensures
            handles@ == all_handles(self@.staged()),
    {
        match &self.profile {
            Some(profile) => profile.live_frame_handles(),
            None => Vec::new(),
        }
    }
}

} // verus!
