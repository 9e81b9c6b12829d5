use pf2::model::{Function, FunctionImplementation};
use pf2::sample::{CapturedFrame, RawSample};
use pf2::signal_scheduler::{
    Configuration, SampleOutcome, SchedulerError, SchedulerState, SignalScheduler, TimeMode,
    DEFAULT_STAGING_CAPACITY,
};
use std::collections::HashSet;

fn function(handle: u64) -> Function {
    Function {
        implementation: FunctionImplementation::Interpreted,
        name: Some(format!("method_{}", handle)),
        filename: Some("app.rb".to_string()),
        start_line: Some(handle as i32),
        start_address: None,
    }
}

fn snapshot(timestamp_ns: u64, thread: u64, frames: &[(u64, i32)]) -> RawSample {
    RawSample {
        timestamp_ns,
        thread,
        frames: frames.iter().map(|(handle, line)| CapturedFrame { handle: *handle, line: *line }).collect(),
    }
}

fn describe(scheduler: &SignalScheduler) -> Vec<Vec<Function>> {
    match scheduler.profile() {
        Some(profile) => profile
            .staged()
            .iter()
            .map(|sample| sample.frames.iter().map(|frame| function(frame.handle)).collect())
            .collect(),
        None => vec![],
    }
}

fn small(capacity: usize) -> SignalScheduler {
    SignalScheduler::with_configuration(Configuration {
        time_mode: TimeMode::WallTime,
        staging_capacity: capacity,
    })
}

#[test]
fn new_scheduler_is_idle_and_runs_by_cpu_time() {
    let scheduler = SignalScheduler::new();
    assert_eq!(scheduler.state(), SchedulerState::Idle);
    assert!(!scheduler.is_running());
    assert_eq!(
        scheduler.configuration(),
        Configuration { time_mode: TimeMode::CpuTime, staging_capacity: DEFAULT_STAGING_CAPACITY }
    );
    assert_eq!(scheduler.dropped_samples(), 0);
    assert!(scheduler.profile().is_none());
}

#[test]
fn timer_targets_names_each_thread_once() {
    let threads = SignalScheduler::timer_targets(&vec![3, 1, 3, 2, 1, 3]);
    assert_eq!(threads, HashSet::from([1, 2, 3]));
    assert!(SignalScheduler::timer_targets(&vec![]).is_empty());
}

#[test]
fn start_makes_an_idle_scheduler_run() {
    let mut scheduler = small(3);
    assert_eq!(scheduler.start(1_000, true), Ok(()));
    assert_eq!(scheduler.state(), SchedulerState::Running);
    assert!(scheduler.is_running());
    let profile = scheduler.profile().unwrap();
    assert_eq!(profile.start_timestamp_ns(), 1_000);
    assert_eq!(profile.capacity(), 3);
    assert_eq!(profile.staged_len(), 0);
    assert!(profile.samples().is_empty());
}

#[test]
fn start_while_running_is_an_invalid_state() {
    let mut scheduler = small(3);
    scheduler.start(1_000, true).unwrap();
    scheduler.stage_sample(snapshot(1_100, 1, &[(1, 1)]));
    assert_eq!(scheduler.start(2_000, true), Err(SchedulerError::InvalidState));
    assert_eq!(scheduler.start(2_000, false), Err(SchedulerError::InvalidState));
    assert_eq!(scheduler.state(), SchedulerState::Running);
    let profile = scheduler.profile().unwrap();
    assert_eq!(profile.start_timestamp_ns(), 1_000);
    assert_eq!(profile.staged_len(), 1);
}

#[test]
fn start_without_timers_fails_and_stays_idle() {
    let mut scheduler = small(3);
    assert_eq!(scheduler.start(1_000, false), Err(SchedulerError::TimerInstallError));
    assert_eq!(scheduler.state(), SchedulerState::Idle);
    assert!(scheduler.profile().is_none());
    assert_eq!(scheduler.start(1_000, true), Ok(()));
}

#[test]
fn stop_while_idle_is_an_invalid_state() {
    let mut scheduler = small(3);
    assert_eq!(scheduler.stop(&vec![]), Err(SchedulerError::InvalidState));
    assert_eq!(scheduler.state(), SchedulerState::Idle);
}

#[test]
fn a_stopped_scheduler_neither_starts_nor_stops_again() {
    let mut scheduler = small(3);
    scheduler.start(1_000, true).unwrap();
    assert!(scheduler.stop(&vec![]).is_ok());
    assert_eq!(scheduler.state(), SchedulerState::Stopped);
    assert!(scheduler.profile().is_none());
    assert_eq!(scheduler.stop(&vec![]), Err(SchedulerError::InvalidState));
    assert_eq!(scheduler.start(2_000, true), Err(SchedulerError::InvalidState));
    assert_eq!(scheduler.flush(&vec![]), Err(SchedulerError::InvalidState));
    assert_eq!(scheduler.state(), SchedulerState::Stopped);
}

#[test]
fn samples_are_dropped_without_a_run() {
    let mut scheduler = small(3);
    assert_eq!(scheduler.stage_sample(snapshot(1, 1, &[(1, 1)])), SampleOutcome::DroppedNotRunning);
    assert_eq!(scheduler.dropped_samples(), 0);
    scheduler.start(1_000, true).unwrap();
    scheduler.stop(&vec![]).unwrap();
    assert_eq!(scheduler.stage_sample(snapshot(1, 1, &[(1, 1)])), SampleOutcome::DroppedNotRunning);
    assert_eq!(scheduler.dropped_samples(), 0);
}

#[test]
fn samples_beyond_capacity_are_dropped_and_counted() {
    let mut scheduler = small(2);
    scheduler.start(1_000, true).unwrap();
    assert_eq!(scheduler.stage_sample(snapshot(1_001, 1, &[(1, 1)])), SampleOutcome::Staged);
    assert_eq!(scheduler.stage_sample(snapshot(1_002, 1, &[(1, 1)])), SampleOutcome::Staged);
    assert_eq!(scheduler.stage_sample(snapshot(1_003, 1, &[(1, 1)])), SampleOutcome::DroppedBufferFull);
    assert_eq!(scheduler.stage_sample(snapshot(1_004, 1, &[(1, 1)])), SampleOutcome::DroppedBufferFull);
    assert_eq!(scheduler.dropped_samples(), 2);
    assert_eq!(scheduler.profile().unwrap().staged_len(), 2);
    assert_eq!(scheduler.state(), SchedulerState::Running);

    let descriptions = describe(&scheduler);
    assert_eq!(scheduler.flush(&descriptions), Ok(()));
    assert_eq!(scheduler.stage_sample(snapshot(1_005, 1, &[(1, 1)])), SampleOutcome::Staged);
    assert_eq!(scheduler.dropped_samples(), 2);
}

#[test]
fn flush_without_a_run_is_an_invalid_state() {
    let mut scheduler = small(2);
    assert_eq!(scheduler.flush(&vec![]), Err(SchedulerError::InvalidState));
}

#[test]
fn flush_with_misfitting_descriptions_is_refused() {
    let mut scheduler = small(2);
    scheduler.start(1_000, true).unwrap();
    scheduler.stage_sample(snapshot(1_001, 1, &[(1, 1), (2, 2)]));
    assert_eq!(scheduler.flush(&vec![]), Err(SchedulerError::DescriptionMismatch));
    assert_eq!(scheduler.flush(&vec![vec![function(1)]]), Err(SchedulerError::DescriptionMismatch));
    assert_eq!(scheduler.profile().unwrap().staged_len(), 1);
    assert!(scheduler.profile().unwrap().samples().is_empty());
    assert!(scheduler.is_running());
}

#[test]
fn stop_with_misfitting_descriptions_keeps_the_run_going() {
    let mut scheduler = small(2);
    scheduler.start(1_000, true).unwrap();
    scheduler.stage_sample(snapshot(1_001, 1, &[(1, 1)]));
    assert_eq!(scheduler.stop(&vec![]), Err(SchedulerError::DescriptionMismatch));
    assert!(scheduler.is_running());
    assert_eq!(scheduler.profile().unwrap().staged_len(), 1);
    let descriptions = describe(&scheduler);
    assert!(scheduler.stop(&descriptions).is_ok());
}

#[test]
fn live_frame_handles_follow_the_staged_samples() {
    let mut scheduler = small(4);
    assert_eq!(scheduler.live_frame_handles(), Vec::<u64>::new());
    scheduler.start(1_000, true).unwrap();
    scheduler.stage_sample(snapshot(1_001, 1, &[(7, 1), (8, 2)]));
    scheduler.stage_sample(snapshot(1_002, 2, &[(9, 3)]));
    assert_eq!(scheduler.live_frame_handles(), vec![7, 8, 9]);
    let descriptions = describe(&scheduler);
    scheduler.flush(&descriptions).unwrap();
    assert_eq!(scheduler.live_frame_handles(), Vec::<u64>::new());
}

#[test]
fn stop_flushes_what_is_staged_and_returns_the_document() {
    let mut scheduler = small(4);
    scheduler.start(1_000, true).unwrap();
    scheduler.stage_sample(snapshot(1_500, 1, &[(7, 70), (8, 80)]));
    let descriptions = describe(&scheduler);
    scheduler.flush(&descriptions).unwrap();
    scheduler.stage_sample(snapshot(2_500, 2, &[(8, 80)]));
    let descriptions = describe(&scheduler);
    let document = scheduler.stop(&descriptions).unwrap();

    assert_eq!(document.start_timestamp_ns, 1_000);
    assert_eq!(document.duration_ns, 1_500);
    assert_eq!(document.functions, vec![function(7), function(8)]);
    assert_eq!(document.samples.len(), 2);
    assert_eq!(document.samples[0].stack, vec![0, 1]);
    assert_eq!(document.samples[0].thread_id, Some(1));
    assert_eq!(document.samples[1].stack, vec![1]);
    assert_eq!(document.samples[1].thread_id, Some(2));
    assert_eq!(scheduler.state(), SchedulerState::Stopped);
}

#[test]
fn one_thread_five_snapshots_end_to_end() {
    let thread_a = 0xA;
    let mut scheduler = SignalScheduler::with_configuration(Configuration {
        time_mode: TimeMode::WallTime,
        staging_capacity: 3,
    });
    let targets = SignalScheduler::timer_targets(&vec![thread_a]);
    assert_eq!(targets, HashSet::from([thread_a]));
    assert_eq!(scheduler.configuration().time_mode, TimeMode::WallTime);
    scheduler.start(1_000_000_000, true).unwrap();

    let snapshots = vec![
        snapshot(1_400_000_000, thread_a, &[(3, 30), (2, 20), (1, 10)]),
        snapshot(1_800_000_000, thread_a, &[(2, 21), (1, 10)]),
        snapshot(2_200_000_000, thread_a, &[(3, 30), (2, 20), (1, 10)]),
        snapshot(2_600_000_000, thread_a, &[(4, 40), (1, 10)]),
        snapshot(3_000_000_000, thread_a, &[(2, 20), (1, 10)]),
    ];
    let mut captured = 0;
    for (i, snapshot) in snapshots.into_iter().enumerate() {
        if scheduler.stage_sample(snapshot) == SampleOutcome::Staged {
            captured += 1;
        }
        if i == 1 {
            let descriptions = describe(&scheduler);
            scheduler.flush(&descriptions).unwrap();
        }
    }
    let descriptions = describe(&scheduler);
    let document = scheduler.stop(&descriptions).unwrap();

    assert_eq!(captured, 5);
    assert!(document.samples.len() >= captured);
    assert_eq!(document.samples.len(), 5);
    assert!(document.duration_ns > 0);
    assert_eq!(document.duration_ns, 2_000_000_000);
    assert_eq!(document.functions.len(), 4);
    assert_eq!(document.locations.len(), 5);
    for (i, a) in document.locations.iter().enumerate() {
        for (j, b) in document.locations.iter().enumerate() {
            assert!(i == j || a != b);
        }
    }
    assert_eq!(document.samples[0].stack, document.samples[2].stack);
    assert!(document.samples.iter().all(|s| s.thread_id == Some(thread_a)));
    assert_eq!(scheduler.dropped_samples(), 0);
}

fn handler_path(lock: &std::sync::RwLock<SignalScheduler>, thread: u64) -> Option<SampleOutcome> {
    match lock.try_write() {
        Ok(mut scheduler) => Some(scheduler.stage_sample(snapshot(1_234, thread, &[(1, 1)]))),
        Err(_) => None,
    }
}

#[test]
fn handler_path_drops_the_sample_while_the_lock_is_held() {
    let mut scheduler = small(4);
    scheduler.start(1_000, true).unwrap();
    let lock = std::sync::RwLock::new(scheduler);

    for round in 0..50u64 {
        let held = lock.write().unwrap();
        let staged_before = held.profile().unwrap().staged_len();
        assert_eq!(handler_path(&lock, round), None);
        assert_eq!(held.profile().unwrap().staged_len(), staged_before);
        assert_eq!(held.dropped_samples(), 0);
        drop(held);

        let reading = lock.read().unwrap();
        assert_eq!(handler_path(&lock, round), None);
        assert_eq!(reading.profile().unwrap().staged_len(), staged_before);
        drop(reading);
    }
    assert_eq!(lock.read().unwrap().profile().unwrap().staged_len(), 0);

    assert_eq!(handler_path(&lock, 7), Some(SampleOutcome::Staged));
    assert_eq!(lock.read().unwrap().profile().unwrap().staged_len(), 1);
}
