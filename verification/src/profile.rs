//! The profile buffer: a bounded staging area that the signal handler
//! writes, and the durable store of resolved samples with its deduplicated
//! function and location tables.

use crate::model::{
    function_views, sample_views, Function, Location, LocationIndex, Sample, SampleView,
};
use crate::sample::{
    all_handles, describe_all, described_all, described_views, descriptions_fit, handles_of,
    raw_views, DescribedFrame, DescribedSample, DescribedSampleView, RawSample, RawSampleView,
};
use crate::tables::{
    interned, lemma_slot_found, lemma_with_frame, lemma_with_frames, slot_of, FrameView, Tables,
};
use vstd::prelude::*;

verus! {

/// The staging area has reached its capacity.
#[derive(Clone, Copy, Debug, PartialEq, Eq)]
pub struct BufferFull;

/// The descriptions handed to a flush do not match the staged samples.
#[derive(Clone, Copy, Debug, PartialEq, Eq)]
pub struct DescriptionMismatch;

/// What a profile holds.
pub ghost struct ProfileView {
    pub start_timestamp_ns: u64,
    pub samples: Seq<SampleView>,
    pub tables: Tables,
    pub staged: Seq<RawSampleView>,
    pub capacity: nat,
}

impl ProfileView {
    /// The tables are well formed, every stack index of a durable sample
    /// refers to a location, and the staging area is within its capacity.
    pub open spec fn wf(self) -> bool {
        &&& self.tables.wf()
        &&& self.staged.len() <= self.capacity
        &&& forall|s: int, j: int|
            0 <= s < self.samples.len() && 0 <= j < self.samples[s].stack.len()
                ==> #[trigger] self.samples[s].stack[j] < self.tables.locations.len()
    }

    /// A profile that started at `start_timestamp_ns` and holds nothing yet.
    pub open spec fn empty(start_timestamp_ns: u64, capacity: nat) -> ProfileView {
        ProfileView {
            start_timestamp_ns,
            samples: Seq::empty(),
            tables: Tables { functions: Seq::empty(), locations: Seq::empty() },
            staged: Seq::empty(),
            capacity,
        }
    }

    /// The profile with `sample` at the end of its staging area.
    pub open spec fn staged_with(self, sample: RawSampleView) -> ProfileView {
        ProfileView { staged: self.staged.push(sample), ..self }
    }

    /// Whether the staging area has room for one more sample.
    pub open spec fn has_room(self) -> bool {
        self.staged.len() < self.capacity
    }

    /// The profile after an attempt to stage `sample`: staged where there is
    /// room, else as before.
    pub open spec fn after_stage(self, sample: RawSampleView) -> ProfileView {
        if self.has_room() {
            self.staged_with(sample)
        } else {
            self
        }
    }

    /// The profile after an attempt to stage each of `samples`, in their
    /// order.
    pub open spec fn after_stage_all(self, samples: Seq<RawSampleView>) -> ProfileView
        decreases samples.len(),
    {
        if samples.len() == 0 {
            self
        } else {
            self.after_stage_all(samples.drop_last()).after_stage(samples.last())
        }
    }

    /// Whether stack entry `j` of durable sample `s` denotes `frame`.
    pub open spec fn resolves_to(self, s: int, j: int, frame: FrameView) -> bool {
        &&& 0 <= s < self.samples.len()
        &&& 0 <= j < self.samples[s].stack.len()
        &&& self.tables.denotes(self.samples[s].stack[j] as int, frame)
    }

    /// The profile with an empty staging area.
    pub open spec fn drained(self) -> ProfileView {
        ProfileView { staged: Seq::empty(), ..self }
    }

    /// The durable sample that `sample` resolves to against this profile's
    /// tables.
    pub open spec fn sample_of(self, sample: DescribedSampleView) -> SampleView {
        SampleView {
            timestamp_ns: sample.timestamp_ns,
            stack: self.tables.stack_of(sample.frames),
            thread_id: Some(sample.thread),
        }
    }

    /// The profile after `sample` has been resolved and appended.
    pub open spec fn resolved(self, sample: DescribedSampleView) -> ProfileView {
        ProfileView {
            samples: self.samples.push(self.sample_of(sample)),
            tables: self.tables.with_frames(sample.frames),
            ..self
        }
    }

    /// The profile after the samples have been resolved and appended in
    /// their order.
    pub open spec fn resolved_all(self, samples: Seq<DescribedSampleView>) -> ProfileView
        decreases samples.len(),
    {
        if samples.len() == 0 {
            self
        } else {
            self.resolved_all(samples.drop_last()).resolved(samples.last())
        }
    }

    /// The profile after its staged samples, described by `descriptions`,
    /// have been moved to the durable samples.
    pub open spec fn flushed(self, descriptions: Seq<Vec<Function>>) -> ProfileView {
        self.drained().resolved_all(described_all(self.staged, descriptions))
    }

    /// Nothing that `self` has assigned or appended differs in `later`: the
    /// durable samples of `self` begin those of `later`, and every table
    /// index of `self` denotes the same entry there.
    pub open spec fn extended_by(self, later: ProfileView) -> bool {
        &&& self.start_timestamp_ns == later.start_timestamp_ns
        &&& self.tables.extended_by(later.tables)
        &&& self.samples.len() <= later.samples.len()
        &&& forall|s: int| 0 <= s < self.samples.len() ==> later.samples[s] == self.samples[s]
    }
}

/// The shared store of one profiling run.
pub struct Profile {
    start_timestamp_ns: u64,
    samples: Vec<Sample>,
    locations: Vec<Location>,
    functions: Vec<Function>,
    temporary_sample_buffer: Vec<RawSample>,
    capacity: usize,
}

impl View for Profile {
    type V = ProfileView;

    closed spec fn view(&self) -> ProfileView {
        ProfileView {
            start_timestamp_ns: self.start_timestamp_ns,
            samples: sample_views(self.samples@),
            tables: Tables {
                functions: function_views(self.functions@),
                locations: self.locations@,
            },
            staged: raw_views(self.temporary_sample_buffer@),
            capacity: self.capacity as nat,
        }
    }
}

/// An empty staging area, with room for `capacity` samples set aside where the
/// allocator grants it, so that staging need not allocate.
fn staging_area(capacity: usize) -> (area: Vec<RawSample>)
    ensures
        area@ == Seq::<RawSample>::empty(),
{
    let mut area: Vec<RawSample> = Vec::new();
    let _ = area.try_reserve(capacity);
    area
}

/// Interns `function` into the table: the index of the entry equal to it,
/// which is appended where there is none.
fn intern_function(functions: &mut Vec<Function>, function: &Function) -> (index: usize)
    requires
        function_views(old(functions)@).no_duplicates(),
    ensures
        function_views(final(functions)@) == interned(
            function_views(old(functions)@),
            function@,
        ),
        index == slot_of(function_views(old(functions)@), function@),
{
    let ghost table = function_views(functions@);
    let mut i: usize = 0;
    while i < functions.len()
        invariant
            i <= functions@.len(),
            functions@ == old(functions)@,
            table == function_views(functions@),
            table.no_duplicates(),
            forall|k: int| 0 <= k < i ==> table[k] != function@,
        decreases functions@.len() - i,
    {
        if functions[i].same_as(function) {
            proof {
                lemma_slot_found(table, function@, i as int);
            }
            return i;
        }
        i += 1;
    }
    functions.push(function.clone());
    proof {
        assert(!table.contains(function@));
        assert(function_views(functions@) =~= table.push(function@));
    }
    functions.len() - 1
}

/// Interns `location` into the table: the index of the entry equal to it,
/// which is appended where there is none.
fn intern_location(locations: &mut Vec<Location>, location: Location) -> (index: usize)
    requires
        old(locations)@.no_duplicates(),
    ensures
        final(locations)@ == interned(old(locations)@, location),
        index == slot_of(old(locations)@, location),
{
    let mut i: usize = 0;
    while i < locations.len()
        invariant
            i <= locations@.len(),
            locations@ == old(locations)@,
            locations@.no_duplicates(),
            forall|k: int| 0 <= k < i ==> locations@[k] != location,
        decreases locations@.len() - i,
    {
        if locations[i] == location {
            proof {
                lemma_slot_found(locations@, location, i as int);
            }
            return i;
        }
        i += 1;
    }
    proof {
        assert(!locations@.contains(location));
    }
    locations.push(location);
    locations.len() - 1
}

impl Profile {
    /// Whether the profile's invariant holds.
    pub open spec fn wf(&self) -> bool {
        self@.wf()
    }

    /// A profile that starts at `start_timestamp_ns`, with room for
    /// `capacity` staged samples.
    pub fn new(start_timestamp_ns: u64, capacity: usize) -> (profile: Profile)
        ensures
            profile.wf(),
            profile@ == ProfileView::empty(start_timestamp_ns, capacity as nat),
    {
        let profile = Profile {
            start_timestamp_ns,
            samples: Vec::new(),
            locations: Vec::new(),
            functions: Vec::new(),
            temporary_sample_buffer: staging_area(capacity),
            capacity,
        };
        proof {
            assert(profile@.samples =~= Seq::empty());
            assert(profile@.tables.functions =~= Seq::empty());
            assert(profile@.staged =~= Seq::empty());
        }
        profile
    }

    /// Appends `sample` to the staging area, unless the area has reached
    /// its capacity: then the profile is left as it was.
    pub fn stage(&mut self, sample: RawSample) -> (staged: Result<(), BufferFull>)
        requires
            old(self).wf(),
        ensures
            final(self).wf(),
            staged is Ok <==> old(self)@.has_room(),
            final(self)@ == old(self)@.after_stage(sample@),
    {
        if self.temporary_sample_buffer.len() >= self.capacity {
            return Err(BufferFull);
        }
        self.temporary_sample_buffer.push(sample);
        proof {
            assert(self@.staged =~= old(self)@.staged.push(sample@));
        }
        Ok(())
    }

    /// Empties the staging area and returns what it held, in the order of
    /// staging.
    pub fn drain_staged(&mut self) -> (drained: Vec<RawSample>)
        requires
            old(self).wf(),
        ensures
            final(self).wf(),
            raw_views(drained@) == old(self)@.staged,
            final(self)@ == old(self)@.drained(),
    {
        let mut drained: Vec<RawSample> = staging_area(self.capacity);
        core::mem::swap(&mut self.temporary_sample_buffer, &mut drained);
        proof {
            assert(self@.staged =~= Seq::empty());
        }
        drained
    }

    /// Resolves one described frame: interns its function, then the location
    /// made of that function's index and the frame's line, and returns the
    /// location's index. Entries that the tables hold already are reused.
    pub fn process_ruby_frame(&mut self, frame: &DescribedFrame) -> (index: LocationIndex)
        requires
            old(self).wf(),
        ensures
            final(self).wf(),
            final(self)@ == (ProfileView {
                tables: old(self)@.tables.with_frame(frame@),
                ..old(self)@
            }),
            index == old(self)@.tables.index_of_frame(frame@),
            old(self)@.extended_by(final(self)@),
            final(self)@.tables.denotes(index as int, frame@),
    {
        let ghost tables = self@.tables;
        let function_index = intern_function(&mut self.functions, &frame.function);
        let location = Location { function_index, line: frame.line, address: None };
        let index = intern_location(&mut self.locations, location);
        proof {
            assert(location == tables.location_of(frame@));
            assert(self@.tables == tables.with_frame(frame@));
            assert(self.functions.len() <= usize::MAX && self.locations.len() <= usize::MAX);
            lemma_with_frame(tables, frame@);
        }
        index
    }

    /// Resolves each frame of `sample` to its location, interning functions
    /// and locations that the tables do not hold yet, and appends the
    /// resulting sample to the durable samples. Returns a copy of that
    /// sample.
    pub fn resolve_and_append(&mut self, sample: &DescribedSample) -> (resolved: Sample)
        requires
            old(self).wf(),
        ensures
            final(self).wf(),
            final(self)@ == old(self)@.resolved(sample@),
            resolved@ == old(self)@.sample_of(sample@),
            old(self)@.extended_by(final(self)@),
            resolved@.stack.len() == sample@.frames.len(),
            forall|j: int|
                0 <= j < sample@.frames.len() ==> final(self)@.tables.denotes(
                    #[trigger] resolved@.stack[j] as int,
                    sample@.frames[j],
                ),
    {
        let ghost before = self@;
        let ghost frames = sample@.frames;
        let mut stack: Vec<LocationIndex> = Vec::with_capacity(sample.frames.len());
        let mut i: usize = 0;
        while i < sample.frames.len()
            invariant
                i <= sample.frames@.len(),
                frames == sample@.frames,
                frames.len() == sample.frames@.len(),
                before.tables.wf(),
                self@.tables == before.tables.with_frames(frames.take(i as int)),
                self.wf(),
                stack@ == before.tables.stack_of(frames.take(i as int)),
                self@.samples == before.samples,
                self@.staged == before.staged,
                self@.capacity == before.capacity,
                self@.start_timestamp_ns == before.start_timestamp_ns,
            decreases sample.frames@.len() - i,
        {
            let frame = &sample.frames[i];
            let index = self.process_ruby_frame(frame);
            stack.push(index);
            proof {
                let next = frames.take(i as int + 1);
                assert(next.drop_last() =~= frames.take(i as int));
                assert(next.last() == frame@);
            }
            i += 1;
        }
        let resolved = Sample {
            timestamp_ns: sample.timestamp_ns,
            stack: stack.clone(),
            thread_id: Some(sample.thread),
        };
        self.samples.push(
            Sample { timestamp_ns: sample.timestamp_ns, stack, thread_id: Some(sample.thread) },
        );
        proof {
            assert(frames.take(i as int) =~= frames);
            lemma_with_frames(before.tables, frames);
            assert(resolved@.stack =~= before.tables.stack_of(frames));
            assert(self@.samples =~= before.samples.push(before.sample_of(sample@)));
        }
        resolved
    }

    /// Resolves and appends each of `samples`, in their order.
    pub fn resolve_all(&mut self, samples: &Vec<DescribedSample>)
        requires
            old(self).wf(),
        ensures
            final(self).wf(),
            final(self)@ == old(self)@.resolved_all(described_views(samples@)),
            old(self)@.extended_by(final(self)@),
    {
        let ghost before = self@;
        let ghost views = described_views(samples@);
        let mut i: usize = 0;
        while i < samples.len()
            invariant
                i <= samples@.len(),
                views == described_views(samples@),
                self.wf(),
                self@ == before.resolved_all(views.take(i as int)),
                before.extended_by(self@),
            decreases samples@.len() - i,
        {
            let _ = self.resolve_and_append(&samples[i]);
            proof {
                let next = views.take(i as int + 1);
                assert(next.drop_last() =~= views.take(i as int));
                assert(next.last() == samples@[i as int]@);
            }
            i += 1;
        }
        proof {
            assert(views.take(i as int) =~= views);
        }
    }

    /// Moves every staged sample to the durable samples, oldest first:
    /// `descriptions[i][j]` describes frame `j` of staged sample `i`. Where
    /// the descriptions do not match the staged samples, nothing changes.
    pub fn flush_temporary_sample_buffer(&mut self, descriptions: &Vec<Vec<Function>>) -> (flushed:
        Result<(), DescriptionMismatch>)
        requires
            old(self).wf(),
        ensures
            final(self).wf(),
            flushed is Ok <==> descriptions_fit(old(self)@.staged, descriptions@),
            flushed is Ok ==> final(self)@ == old(self)@.flushed(descriptions@),
            flushed is Err ==> final(self)@ == old(self)@,
            old(self)@.extended_by(final(self)@),
    {
        match describe_all(&self.temporary_sample_buffer, descriptions) {
            None => Err(DescriptionMismatch),
            Some(described) => {
                let _ = self.drain_staged();
                self.resolve_all(&described);
                Ok(())
            },
        }
    }

    /// The staged samples, in the order of staging.
    pub fn staged(&self) -> (staged: &Vec<RawSample>)
        ensures
            raw_views(staged@) == self@.staged,
    {
        &self.temporary_sample_buffer
    }

    /// The time at which the run started.
    pub fn start_timestamp_ns(&self) -> (timestamp: u64)
        ensures
            timestamp == self@.start_timestamp_ns,
    {
        self.start_timestamp_ns
    }

    /// The durable samples, oldest first.
    pub fn samples(&self) -> (samples: &Vec<Sample>)
        ensures
            sample_views(samples@) == self@.samples,
    {
        &self.samples
    }

    /// The location table.
    pub fn locations(&self) -> (locations: &Vec<Location>)
        ensures
            locations@ == self@.tables.locations,
    {
        &self.locations
    }

    /// The function table.
    pub fn functions(&self) -> (functions: &Vec<Function>)
        ensures
            function_views(functions@) == self@.tables.functions,
    {
        &self.functions
    }

    /// The number of samples that are staged.
    pub fn staged_len(&self) -> (len: usize)
        ensures
            len == self@.staged.len(),
    {
        self.temporary_sample_buffer.len()
    }

    /// The number of samples that the staging area has room for.
    pub fn capacity(&self) -> (capacity: usize)
        ensures
            capacity == self@.capacity,
    {
        self.capacity
    }

    /// The frame handles that the staged samples refer to: every frame of
    /// every staged sample, in the order of staging.
    pub fn live_frame_handles(&self) -> (handles: Vec<u64>)
        ensures
            handles@ == all_handles(self@.staged),
    {
        let ghost staged = self@.staged;
        let mut handles: Vec<u64> = Vec::new();
        let mut i: usize = 0;
        while i < self.temporary_sample_buffer.len()
            invariant
                i <= self.temporary_sample_buffer@.len(),
                staged == raw_views(self.temporary_sample_buffer@),
                handles@ == all_handles(staged.take(i as int)),
            decreases self.temporary_sample_buffer@.len() - i,
        {
            let sample = &self.temporary_sample_buffer[i];
            let ghost done = handles@;
            let mut j: usize = 0;
            while j < sample.frames.len()
                invariant
                    j <= sample.frames@.len(),
                    handles@.len() == done.len() + j,
                    forall|k: int| 0 <= k < done.len() ==> handles@[k] == done[k],
                    forall|k: int| 0 <= k < j ==> handles@[done.len() + k] == sample.frames@[k].handle,
                decreases sample.frames@.len() - j,
            {
                handles.push(sample.frames[j].handle);
                j += 1;
            }
            proof {
                let next = staged.take(i as int + 1);
                assert(next.drop_last() =~= staged.take(i as int));
                assert(next.last().frames == sample.frames@);
                assert(handles@ =~= done + handles_of(sample.frames@));
            }
            i += 1;
        }
        proof {
            assert(staged.take(i as int) =~= staged);
        }
        handles
    }
}

} // verus!
