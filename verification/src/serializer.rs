//! The profile document: what a finished run hands to its consumer.

use crate::model::{
    function_views, sample_views, Function, FunctionView, Location, LocationIndex, SampleView,
};
use crate::profile::{Profile, ProfileView};
use crate::tables::Tables;
use vstd::prelude::*;

verus! {

/// A sample of the document: its stack refers to the document's location
/// table, innermost frame first.
#[derive(Debug, PartialEq, Eq)]
pub struct DocumentSample {
    pub stack: Vec<LocationIndex>,
    pub thread_id: Option<u64>,
}

/// A document sample with its stack as a sequence.
pub ghost struct DocumentSampleView {
    pub stack: Seq<LocationIndex>,
    pub thread_id: Option<u64>,
}

impl View for DocumentSample {
    type V = DocumentSampleView;

    open spec fn view(&self) -> DocumentSampleView {
        DocumentSampleView { stack: self.stack@, thread_id: self.thread_id }
    }
}

/// The views of a list of document samples.
pub open spec fn document_sample_views(samples: Seq<DocumentSample>) -> Seq<DocumentSampleView> {
    Seq::new(samples.len(), |i: int| samples[i]@)
}

/// A self-contained description of one profiling run.
#[derive(Debug, PartialEq, Eq)]
pub struct ProfileDocument {
    pub start_timestamp_ns: u64,
    pub duration_ns: u64,
    pub functions: Vec<Function>,
    pub locations: Vec<Location>,
    pub samples: Vec<DocumentSample>,
}

/// What a document says.
pub ghost struct ProfileDocumentView {
    pub start_timestamp_ns: u64,
    pub duration_ns: u64,
    pub functions: Seq<FunctionView>,
    pub locations: Seq<Location>,
    pub samples: Seq<DocumentSampleView>,
}

impl View for ProfileDocument {
    type V = ProfileDocumentView;

    open spec fn view(&self) -> ProfileDocumentView {
        ProfileDocumentView {
            start_timestamp_ns: self.start_timestamp_ns,
            duration_ns: self.duration_ns,
            functions: function_views(self.functions@),
            locations: self.locations@,
            samples: document_sample_views(self.samples@),
        }
    }
}

impl ProfileDocumentView {
    /// The document's tables.
    pub open spec fn tables(self) -> Tables {
        Tables { functions: self.functions, locations: self.locations }
    }

    /// The document is consistent in itself: its tables are well formed and
    /// every stack index of a sample refers to a location.
    pub open spec fn wf(self) -> bool {
        &&& self.tables().wf()
        &&& forall|s: int, j: int|
            0 <= s < self.samples.len() && 0 <= j < self.samples[s].stack.len()
                ==> #[trigger] self.samples[s].stack[j] < self.locations.len()
    }
}

/// The time from the start of the run to its last sample: zero where there
/// is no sample, or where the last sample is not later than the start.
pub open spec fn duration_of(start_timestamp_ns: u64, samples: Seq<SampleView>) -> u64 {
    if samples.len() > 0 && samples.last().timestamp_ns >= start_timestamp_ns {
        (samples.last().timestamp_ns - start_timestamp_ns) as u64
    } else {
        0
    }
}

/// The sample of the document that stands for a durable sample.
pub open spec fn document_sample_of(sample: SampleView) -> DocumentSampleView {
    DocumentSampleView { stack: sample.stack, thread_id: sample.thread_id }
}

/// The document of a profile: its start and duration, both tables in full,
/// and one sample for each durable sample, in the same order.
pub open spec fn document_of(profile: ProfileView) -> ProfileDocumentView {
    ProfileDocumentView {
        start_timestamp_ns: profile.start_timestamp_ns,
        duration_ns: duration_of(profile.start_timestamp_ns, profile.samples),
        functions: profile.tables.functions,
        locations: profile.tables.locations,
        samples: Seq::new(profile.samples.len(), |i: int| document_sample_of(profile.samples[i])),
    }
}

/// The document of a well-formed profile is consistent in itself.
pub proof fn lemma_document_wf(profile: ProfileView)
    requires
        profile.wf(),
    ensures
        document_of(profile).wf(),
{
    let document = document_of(profile);
    assert(document.tables() == profile.tables);
    assert forall|s: int, j: int|
        0 <= s < document.samples.len() && 0 <= j < document.samples[s].stack.len() implies #[trigger] document.samples[s].stack[j]
        < document.locations.len() by {
        assert(document.samples[s].stack[j] == profile.samples[s].stack[j]);
    }
}

/// A copy of a stack of location indices.
fn copy_stack(stack: &Vec<LocationIndex>) -> (copy: Vec<LocationIndex>)
    ensures
        copy@ == stack@,
{
    let mut copy: Vec<LocationIndex> = Vec::with_capacity(stack.len());
    let mut i: usize = 0;
    while i < stack.len()
        invariant
            i <= stack@.len(),
            copy@ == stack@.take(i as int),
        decreases stack@.len() - i,
    {
        copy.push(stack[i]);
        proof {
            assert(copy@ =~= stack@.take(i as int + 1));
        }
        i += 1;
    }
    proof {
        assert(stack@.take(i as int) =~= stack@);
    }
    copy
}

/// Turns a finalized profile into its document.
pub struct ProfileSerializer2 {}

impl ProfileSerializer2 {
    /// A serializer. It holds nothing: a document depends on the profile
    /// alone.
    pub fn new() -> (serializer: ProfileSerializer2) {
        ProfileSerializer2 {  }
    }

    /// The time from the start of the run to its last sample.
    pub fn duration_ns(&self, source: &Profile) -> (duration: u64)
        ensures
            duration == duration_of(source@.start_timestamp_ns, source@.samples),
            source@.samples.len() == 0 ==> duration == 0,
            source@.samples.len() > 0 && source@.samples.last().timestamp_ns
                >= source@.start_timestamp_ns ==> duration == source@.samples.last().timestamp_ns
                - source@.start_timestamp_ns,
    {
        let samples = source.samples();
        let start = source.start_timestamp_ns();
        if samples.len() == 0 {
            return 0;
        }
        let last = samples[samples.len() - 1].timestamp_ns;
        proof {
            assert(sample_views(samples@).last() == samples@[samples@.len() - 1]@);
        }
        if last >= start {
            last - start
        } else {
            0
        }
    }

    /// The document of `source`. The source is left as it is, and equal
    /// sources give equal documents.
    pub fn serialize(&self, source: &Profile) -> (document: ProfileDocument)
        ensures
            document@ == document_of(source@),
            source.wf() ==> document@.wf(),
    {
        let duration_ns = self.duration_ns(source);
        let source_functions = source.functions();
        let source_locations = source.locations();
        let source_samples = source.samples();

        let mut functions: Vec<Function> = Vec::with_capacity(source_functions.len());
        let mut i: usize = 0;
        while i < source_functions.len()
            invariant
                i <= source_functions@.len(),
                functions@ == source_functions@.take(i as int),
            decreases source_functions@.len() - i,
        {
            functions.push(source_functions[i].clone());
            proof {
                assert(functions@ =~= source_functions@.take(i as int + 1));
            }
            i += 1;
        }
        proof {
            assert(source_functions@.take(i as int) =~= source_functions@);
        }

        let mut locations: Vec<Location> = Vec::with_capacity(source_locations.len());
        let mut i: usize = 0;
        while i < source_locations.len()
            invariant
                i <= source_locations@.len(),
                locations@ == source_locations@.take(i as int),
            decreases source_locations@.len() - i,
        {
            locations.push(source_locations[i]);
            proof {
                assert(locations@ =~= source_locations@.take(i as int + 1));
            }
            i += 1;
        }
        proof {
            assert(source_locations@.take(i as int) =~= source_locations@);
        }

        let mut samples: Vec<DocumentSample> = Vec::with_capacity(source_samples.len());
        let mut i: usize = 0;
        while i < source_samples.len()
            invariant
                i <= source_samples@.len(),
                samples@.len() == i,
                forall|k: int|
                    0 <= k < i ==> (#[trigger] samples@[k])@ == document_sample_of(
                        source_samples@[k]@,
                    ),
            decreases source_samples@.len() - i,
        {
            let sample = &source_samples[i];
            samples.push(
                DocumentSample { stack: copy_stack(&sample.stack), thread_id: sample.thread_id },
            );
            i += 1;
        }

        let document = ProfileDocument {
            start_timestamp_ns: source.start_timestamp_ns(),
            duration_ns,
            functions,
            locations,
            samples,
        };
        proof {
            assert(document@.samples =~= document_of(source@).samples);
            if source.wf() {
                lemma_document_wf(source@);
            }
        }
        document
    }
}

} // verus!
