//! What holds of every profile, whatever samples it is given.

use crate::profile::ProfileView;
use crate::sample::{DescribedSampleView, RawSampleView};
use crate::serializer::{document_of, lemma_document_wf};
use crate::tables::{
    lemma_denotes_extended, lemma_denotes_unique, lemma_with_frames, lemma_with_frames_grows,
};
use vstd::prelude::*;

verus! {

/// Whether location `index` of `profile` denotes a frame of one of the
/// samples.
pub open spec fn location_sampled(
    profile: ProfileView,
    samples: Seq<DescribedSampleView>,
    index: int,
) -> bool {
    exists|i: int, j: int|
        0 <= i < samples.len() && 0 <= j < samples[i].frames.len() && profile.tables.denotes(
            index,
            #[trigger] samples[i].frames[j],
        )
}

/// Resolution is sound. After any samples have been resolved and appended
/// to a well-formed profile: the profile is well formed, so neither table
/// holds an entry twice; every index assigned before denotes the same entry
/// as before and the earlier samples are untouched; there is one new sample
/// for each given one, in the same order, with its timestamp and thread;
/// each entry of a new sample's stack denotes the frame at its position;
/// and every new location denotes a frame of one of the samples.
pub proof fn theorem_resolution(profile: ProfileView, samples: Seq<DescribedSampleView>)
    requires
        profile.wf(),
        profile.resolved_all(samples).tables.fits(),
    ensures
        profile.resolved_all(samples).wf(),
        profile.extended_by(profile.resolved_all(samples)),
        profile.resolved_all(samples).staged == profile.staged,
        profile.resolved_all(samples).capacity == profile.capacity,
        profile.resolved_all(samples).samples.len() == profile.samples.len() + samples.len(),
        forall|i: int|
            #![trigger samples[i]]
            0 <= i < samples.len() ==> {
                let resolved = profile.resolved_all(samples).samples[profile.samples.len() + i];
                &&& resolved.timestamp_ns == samples[i].timestamp_ns
                &&& resolved.thread_id == Some(samples[i].thread)
                &&& resolved.stack.len() == samples[i].frames.len()
            },
        forall|i: int, j: int|
            0 <= i < samples.len() && 0 <= j < samples[i].frames.len() ==> profile.resolved_all(
                samples,
            ).resolves_to(profile.samples.len() + i, j, #[trigger] samples[i].frames[j]),
        forall|k: int|
            profile.tables.locations.len() <= k < profile.resolved_all(
                samples,
            ).tables.locations.len() ==> #[trigger] location_sampled(
                profile.resolved_all(samples),
                samples,
                k,
            ),
    decreases samples.len(),
{
    if samples.len() > 0 {
        let earlier = samples.drop_last();
        let sample = samples.last();
        let before = profile.resolved_all(earlier);
        let after = profile.resolved_all(samples);
        let base = profile.samples.len() as int;
        assert(after == before.resolved(sample));
        lemma_with_frames_grows(before.tables, sample.frames);
        theorem_resolution(profile, earlier);
        lemma_with_frames(before.tables, sample.frames);
        assert(before.tables.extended_by(after.tables));
        assert(after.samples[base + samples.len() - 1] == before.sample_of(sample));

        assert forall|s: int, j: int|
            0 <= s < after.samples.len() && 0 <= j < after.samples[s].stack.len() implies #[trigger] after.samples[s].stack[j]
            < after.tables.locations.len() by {
            if s < before.samples.len() {
                assert(after.samples[s] == before.samples[s]);
                assert(before.samples[s].stack[j] < before.tables.locations.len());
            } else {
                assert(after.tables.denotes(
                    before.tables.stack_of(sample.frames)[j] as int,
                    sample.frames[j],
                ));
            }
        }
        assert forall|i: int|
            #![trigger samples[i]]
            0 <= i < samples.len() implies {
            let resolved = after.samples[base + i];
            &&& resolved.timestamp_ns == samples[i].timestamp_ns
            &&& resolved.thread_id == Some(samples[i].thread)
            &&& resolved.stack.len() == samples[i].frames.len()
        } by {
            if i < earlier.len() {
                assert(samples[i] == earlier[i]);
                assert(after.samples[base + i] == before.samples[base + i]);
            }
        }
        assert forall|i: int, j: int|
            0 <= i < samples.len() && 0 <= j < samples[i].frames.len() implies after.resolves_to(
            base + i,
            j,
            #[trigger] samples[i].frames[j],
        ) by {
            if i < earlier.len() {
                assert(samples[i] == earlier[i]);
                assert(before.resolves_to(base + i, j, earlier[i].frames[j]));
                assert(after.samples[base + i] == before.samples[base + i]);
                lemma_denotes_extended(
                    before.tables,
                    after.tables,
                    before.samples[base + i].stack[j] as int,
                    samples[i].frames[j],
                );
            } else {
                assert(after.tables.denotes(
                    before.tables.stack_of(sample.frames)[j] as int,
                    sample.frames[j],
                ));
            }
        }
        assert forall|k: int|
            profile.tables.locations.len() <= k < after.tables.locations.len() implies #[trigger] location_sampled(
            after,
            samples,
            k,
        ) by {
            if k < before.tables.locations.len() {
                assert(location_sampled(before, earlier, k));
                let (i, j) = choose|i: int, j: int|
                    0 <= i < earlier.len() && 0 <= j < earlier[i].frames.len()
                        && before.tables.denotes(k, #[trigger] earlier[i].frames[j]);
                assert(samples[i] == earlier[i]);
                lemma_denotes_extended(before.tables, after.tables, k, samples[i].frames[j]);
            } else {
                assert(after.tables.location_seen(sample.frames, k));
                let j = choose|j: int|
                    0 <= j < sample.frames.len() && after.tables.denotes(
                        k,
                        #[trigger] sample.frames[j],
                    );
                assert(after.tables.denotes(k, samples[samples.len() - 1].frames[j]));
            }
        }
    }
}

/// Deduplication is correct: frames with the same function and line get the
/// same location index, in whichever samples they stand.
pub proof fn theorem_equal_frames_share_an_index(
    profile: ProfileView,
    samples: Seq<DescribedSampleView>,
    i1: int,
    j1: int,
    i2: int,
    j2: int,
)
    requires
        profile.wf(),
        profile.resolved_all(samples).tables.fits(),
        0 <= i1 < samples.len(),
        0 <= j1 < samples[i1].frames.len(),
        0 <= i2 < samples.len(),
        0 <= j2 < samples[i2].frames.len(),
        samples[i1].frames[j1] == samples[i2].frames[j2],
    ensures
        profile.resolved_all(samples).samples[profile.samples.len() + i1].stack[j1]
            == profile.resolved_all(samples).samples[profile.samples.len() + i2].stack[j2],
{
    let after = profile.resolved_all(samples);
    let base = profile.samples.len() as int;
    theorem_resolution(profile, samples);
    assert(after.resolves_to(base + i1, j1, samples[i1].frames[j1]));
    assert(after.resolves_to(base + i2, j2, samples[i2].frames[j2]));
    lemma_denotes_unique(
        after.tables,
        after.samples[base + i1].stack[j1] as int,
        after.samples[base + i2].stack[j2] as int,
        samples[i1].frames[j1],
    );
}

/// Indices are stable: staging, draining and resolving leave every
/// function index and every location index that was assigned with the
/// entry it had.
pub proof fn theorem_indices_stable(
    profile: ProfileView,
    raw: RawSampleView,
    samples: Seq<DescribedSampleView>,
)
    requires
        profile.wf(),
        profile.resolved_all(samples).tables.fits(),
    ensures
        profile.after_stage(raw).tables == profile.tables,
        profile.drained().tables == profile.tables,
        profile.tables.extended_by(profile.resolved_all(samples).tables),
{
    theorem_resolution(profile, samples);
}

/// The staging area never runs over: of samples staged one after another,
/// those are kept for which there is room, in their order, and the rest
/// leave the profile as it was.
pub proof fn theorem_staging_bounded(profile: ProfileView, samples: Seq<RawSampleView>)
    requires
        profile.wf(),
    ensures
        profile.after_stage_all(samples).wf(),
        profile.after_stage_all(samples).staged.len() <= profile.capacity,
        profile.after_stage_all(samples) == (ProfileView {
            staged: profile.staged + samples.take(
                if samples.len() <= profile.capacity - profile.staged.len() {
                    samples.len() as int
                } else {
                    profile.capacity - profile.staged.len()
                },
            ),
            ..profile
        }),
    decreases samples.len(),
{
    let room = profile.capacity - profile.staged.len();
    if samples.len() == 0 {
        assert(profile.staged + samples.take(0) =~= profile.staged);
    } else {
        let earlier = samples.drop_last();
        theorem_staging_bounded(profile, earlier);
        let before = profile.after_stage_all(earlier);
        if earlier.len() < room {
            assert(earlier.take(earlier.len() as int) =~= earlier);
            assert(before.staged.push(samples.last()) =~= profile.staged + samples.take(
                samples.len() as int,
            ));
        } else {
            assert(earlier.take(room) =~= samples.take(room));
        }
    }
}

/// The duration of a document is the time from the start of the run to its
/// last sample, where that sample is not earlier than the start, and zero
/// where there is no sample.
pub proof fn theorem_duration(profile: ProfileView)
    ensures
        document_of(profile).duration_ns >= 0,
        profile.samples.len() == 0 ==> document_of(profile).duration_ns == 0,
        profile.samples.len() > 0 && profile.samples.last().timestamp_ns
            >= profile.start_timestamp_ns ==> document_of(profile).duration_ns
            == profile.samples.last().timestamp_ns - profile.start_timestamp_ns,
{
}

/// The document resolves back: in the document of a profile to which
/// samples have been resolved and appended, each entry of a new sample's
/// stack is the index of a location with the line of the frame at that
/// position, whose function index is that of the frame's function.
pub proof fn theorem_document_round_trip(
    profile: ProfileView,
    samples: Seq<DescribedSampleView>,
    i: int,
    j: int,
)
    requires
        profile.wf(),
        profile.resolved_all(samples).tables.fits(),
        0 <= i < samples.len(),
        0 <= j < samples[i].frames.len(),
    ensures
        ({
            let document = document_of(profile.resolved_all(samples));
            let s = profile.samples.len() + i;
            &&& document.wf()
            &&& s < document.samples.len()
            &&& document.samples[s].thread_id == Some(samples[i].thread)
            &&& document.samples[s].stack.len() == samples[i].frames.len()
            &&& document.tables().denotes(document.samples[s].stack[j] as int, samples[i].frames[j])
        }),
{
    let after = profile.resolved_all(samples);
    theorem_resolution(profile, samples);
    lemma_document_wf(after);
    assert(after.resolves_to(profile.samples.len() + i, j, samples[i].frames[j]));
    assert(document_of(after).tables() == after.tables);
}

} // verus!
