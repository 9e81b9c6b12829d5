use pf2::profile::{BufferFull, Profile};
use pf2::sample::{CapturedFrame, RawSample, MAX_STACK_DEPTH};

fn raw(timestamp_ns: u64, thread: u64, handles: &[u64]) -> RawSample {
    RawSample {
        timestamp_ns,
        thread,
        frames: handles.iter().map(|h| CapturedFrame { handle: *h, line: 1 }).collect(),
    }
}

#[test]
fn new_profile_is_empty() {
    let profile = Profile::new(42, 8);
    assert_eq!(profile.start_timestamp_ns(), 42);
    assert_eq!(profile.capacity(), 8);
    assert_eq!(profile.staged_len(), 0);
    assert!(profile.samples().is_empty());
    assert!(profile.functions().is_empty());
    assert!(profile.locations().is_empty());
}

#[test]
fn stage_fails_once_capacity_is_reached() {
    let mut profile = Profile::new(0, 2);
    assert_eq!(profile.stage(raw(1, 7, &[10])), Ok(()));
    assert_eq!(profile.stage(raw(2, 7, &[11])), Ok(()));
    assert_eq!(profile.stage(raw(3, 7, &[12])), Err(BufferFull));
    assert_eq!(profile.stage(raw(4, 7, &[13])), Err(BufferFull));
    assert_eq!(profile.staged_len(), 2);
    assert_eq!(profile.staged()[0].timestamp_ns, 1);
    assert_eq!(profile.staged()[1].timestamp_ns, 2);
}

#[test]
fn stage_into_zero_capacity_always_fails() {
    let mut profile = Profile::new(0, 0);
    assert_eq!(profile.stage(raw(1, 7, &[10])), Err(BufferFull));
    assert_eq!(profile.staged_len(), 0);
}

#[test]
fn excess_samples_are_refused_and_the_rest_kept_in_order() {
    let capacity = 5;
    let mut profile = Profile::new(0, capacity);
    let mut accepted = 0;
    let mut refused = 0;
    for i in 0..12u64 {
        match profile.stage(raw(i, 1, &[i])) {
            Ok(()) => accepted += 1,
            Err(BufferFull) => refused += 1,
        }
        assert!(profile.staged_len() <= capacity);
    }
    assert_eq!(accepted, 5);
    assert_eq!(refused, 7);
    let kept: Vec<u64> = profile.staged().iter().map(|s| s.timestamp_ns).collect();
    assert_eq!(kept, vec![0, 1, 2, 3, 4]);
}

#[test]
fn drain_returns_staged_samples_in_order_and_empties_the_area() {
    let mut profile = Profile::new(0, 4);
    profile.stage(raw(5, 1, &[100, 101])).unwrap();
    profile.stage(raw(6, 2, &[102])).unwrap();
    let drained = profile.drain_staged();
    assert_eq!(drained, vec![raw(5, 1, &[100, 101]), raw(6, 2, &[102])]);
    assert_eq!(profile.staged_len(), 0);
    assert!(profile.drain_staged().is_empty());
    assert!(profile.samples().is_empty());
}

#[test]
fn staging_has_room_again_after_a_drain() {
    let mut profile = Profile::new(0, 1);
    assert_eq!(profile.stage(raw(1, 1, &[1])), Ok(()));
    assert_eq!(profile.stage(raw(2, 1, &[2])), Err(BufferFull));
    profile.drain_staged();
    assert_eq!(profile.stage(raw(3, 1, &[3])), Ok(()));
    assert_eq!(profile.staged()[0].timestamp_ns, 3);
}

#[test]
fn live_frame_handles_lists_every_staged_frame() {
    let mut profile = Profile::new(0, 4);
    assert_eq!(profile.live_frame_handles(), Vec::<u64>::new());
    profile.stage(raw(1, 1, &[30, 20, 10])).unwrap();
    profile.stage(raw(2, 2, &[])).unwrap();
    profile.stage(raw(3, 1, &[20, 40])).unwrap();
    assert_eq!(profile.live_frame_handles(), vec![30, 20, 10, 20, 40]);
    profile.drain_staged();
    assert_eq!(profile.live_frame_handles(), Vec::<u64>::new());
}

#[test]
fn from_capture_reads_the_first_frames_of_the_buffers() {
    let handles = [11u64, 12, 13, 14];
    let lines = [1i32, 2, 3, 4];
    let sample = RawSample::from_capture(9, 1000, &handles, &lines, 3).unwrap();
    assert_eq!(sample.thread, 9);
    assert_eq!(sample.timestamp_ns, 1000);
    assert_eq!(
        sample.frames,
        vec![
            CapturedFrame { handle: 11, line: 1 },
            CapturedFrame { handle: 12, line: 2 },
            CapturedFrame { handle: 13, line: 3 },
        ]
    );
}

#[test]
fn from_capture_of_no_frames_is_an_empty_sample() {
    let sample = RawSample::from_capture(9, 1000, &[], &[], 0).unwrap();
    assert!(sample.frames.is_empty());
}

#[test]
fn from_capture_refuses_counts_that_do_not_fit() {
    let handles = [11u64, 12, 13];
    let lines = [1i32, 2];
    assert_eq!(RawSample::from_capture(9, 1000, &handles, &lines, -1), None);
    assert_eq!(RawSample::from_capture(9, 1000, &handles, &lines, 3), None);
    assert_eq!(RawSample::from_capture(9, 1000, &lines.map(|l| l as u64), &[1, 2, 3], 3), None);
    assert!(RawSample::from_capture(9, 1000, &handles, &lines, 2).is_some());
}

#[test]
fn from_capture_refuses_stacks_deeper_than_the_limit() {
    let handles = vec![1u64; MAX_STACK_DEPTH + 1];
    let lines = vec![1i32; MAX_STACK_DEPTH + 1];
    let at_limit = RawSample::from_capture(1, 1, &handles, &lines, MAX_STACK_DEPTH as i32);
    assert_eq!(at_limit.unwrap().frames.len(), MAX_STACK_DEPTH);
    assert_eq!(RawSample::from_capture(1, 1, &handles, &lines, MAX_STACK_DEPTH as i32 + 1), None);
}

#[test]
fn a_profile_can_be_made_with_any_capacity() {
    let mut profile = Profile::new(0, usize::MAX);
    assert_eq!(profile.capacity(), usize::MAX);
    assert_eq!(profile.stage(raw(1, 1, &[1])), Ok(()));
    assert_eq!(profile.drain_staged().len(), 1);
    assert_eq!(profile.stage(raw(2, 1, &[1])), Ok(()));
}
