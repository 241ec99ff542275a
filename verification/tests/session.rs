use cnn_pipeline::{Action, Control, Kernel, Phase, PipelineError, Resource};

const ALL: [Resource; 8] = [
    Resource::Context,
    Resource::Module,
    Resource::Stream,
    Resource::ConvWeights,
    Resource::OutputWeights,
    Resource::Input,
    Resource::Intermediate,
    Resource::Output,
];

const SESSION: [Resource; 5] = [
    Resource::Context,
    Resource::Module,
    Resource::Stream,
    Resource::ConvWeights,
    Resource::OutputWeights,
];

fn setup_script() -> Vec<Action> {
    vec![
        Action::InitDriver,
        Action::SelectDevice,
        Action::CreateContext,
        Action::LoadModule,
        Action::CreateStream,
        Action::Upload(Resource::ConvWeights),
        Action::Upload(Resource::OutputWeights),
    ]
}

fn inference_script() -> Vec<Action> {
    vec![
        Action::Upload(Resource::Input),
        Action::AllocZeroed(Resource::Intermediate),
        Action::Launch(Kernel::Convolution),
        Action::Synchronize,
        Action::Launch(Kernel::Activation),
        Action::Synchronize,
        Action::AllocZeroed(Resource::Output),
        Action::Launch(Kernel::Output),
        Action::Synchronize,
        Action::Download(Resource::Output),
    ]
}

fn held(s: &Control) -> Vec<Resource> {
    ALL.iter().copied().filter(|r| s.holds(*r)).collect()
}

/// Reports success for every action until nothing is due, and returns the
/// actions that were asked for.
fn run_to_idle(s: &mut Control) -> Vec<Action> {
    let mut seen = Vec::new();
    while s.next_action() != Action::Idle {
        seen.push(s.next_action());
        s.advance(true);
        assert!(seen.len() <= 32);
    }
    seen
}

/// Reports success for the first `good` actions and failure for the next.
fn fail_after(s: &mut Control, good: usize) -> Action {
    for _ in 0..good {
        s.advance(true);
    }
    let failed = s.next_action();
    s.advance(false);
    failed
}

fn built() -> Control {
    let mut s = Control::new();
    run_to_idle(&mut s);
    assert_eq!(s.phase(), Phase::Ready);
    s
}

#[test]
fn a_fresh_session_holds_nothing() {
    let s = Control::new();
    assert_eq!(s.phase(), Phase::Building);
    assert_eq!(s.fault(), None);
    assert_eq!(held(&s), vec![]);
    assert_eq!(s.next_action(), Action::InitDriver);
}

#[test]
fn construction_follows_the_setup_script() {
    let mut s = Control::new();
    let seen = run_to_idle(&mut s);
    assert_eq!(seen, setup_script());
    assert_eq!(s.phase(), Phase::Ready);
    assert_eq!(s.fault(), None);
    assert_eq!(held(&s), SESSION.to_vec());
}

#[test]
fn construction_acquires_step_by_step() {
    let mut s = Control::new();
    let expected: [&[Resource]; 8] = [
        &[],
        &[],
        &[],
        &SESSION[..1],
        &SESSION[..2],
        &SESSION[..3],
        &SESSION[..4],
        &SESSION[..5],
    ];
    for (n, e) in expected.iter().enumerate() {
        assert_eq!(held(&s), e.to_vec(), "after {} steps", n);
        s.advance(true);
    }
}

#[test]
fn construction_without_a_device_fails_cleanly() {
    let mut s = Control::new();
    let failed = fail_after(&mut s, 1);
    assert_eq!(failed, Action::SelectDevice);
    assert_eq!(s.phase(), Phase::Failed);
    assert_eq!(s.fault(), Some(PipelineError::DeviceInitError));
    assert_eq!(held(&s), vec![]);
    assert_eq!(s.next_action(), Action::Idle);
}

#[test]
fn any_failed_setup_step_releases_what_was_acquired() {
    for step in 0..7 {
        let mut s = Control::new();
        let before_failure = {
            for _ in 0..step {
                s.advance(true);
            }
            held(&s)
        };
        assert_eq!(s.next_action(), setup_script()[step]);
        s.advance(false);
        assert_eq!(s.fault(), Some(PipelineError::DeviceInitError));
        let releases = run_to_idle(&mut s);
        assert_eq!(releases.len(), before_failure.len(), "step {}", step);
        for a in &releases {
            match a {
                Action::Release(r) => assert!(before_failure.contains(r)),
                other => panic!("asked for {:?} after a failed construction", other),
            }
        }
        if let Some(last) = releases.last() {
            assert_eq!(*last, Action::Release(Resource::Context));
        }
        assert_eq!(s.phase(), Phase::Failed);
        assert_eq!(s.fault(), Some(PipelineError::DeviceInitError));
        assert_eq!(held(&s), vec![]);
    }
}

#[test]
fn a_failed_weight_upload_aborts_construction() {
    let mut s = Control::new();
    let failed = fail_after(&mut s, 6);
    assert_eq!(failed, Action::Upload(Resource::OutputWeights));
    assert_eq!(s.phase(), Phase::Aborting);
    assert_eq!(
        run_to_idle(&mut s),
        vec![
            Action::Release(Resource::ConvWeights),
            Action::Release(Resource::Module),
            Action::Release(Resource::Stream),
            Action::Release(Resource::Context),
        ]
    );
    assert_eq!(s.phase(), Phase::Failed);
}

#[test]
fn a_failed_session_begins_no_inference() {
    let mut s = Control::new();
    fail_after(&mut s, 0);
    assert_eq!(s.phase(), Phase::Failed);
    assert!(!s.begin());
    assert_eq!(s.phase(), Phase::Failed);
    s.advance(true);
    assert_eq!(s.phase(), Phase::Failed);
    s.close();
    assert_eq!(s.phase(), Phase::Failed);
    assert_eq!(s.fault(), Some(PipelineError::DeviceInitError));
}

#[test]
fn an_inference_waits_for_construction() {
    let mut s = Control::new();
    for step in 0..7 {
        assert!(!s.begin(), "step {}", step);
        assert_eq!(s.phase(), Phase::Building);
        assert_eq!(s.next_action(), setup_script()[step]);
        s.advance(true);
    }
    assert!(s.begin());
    assert_eq!(s.phase(), Phase::Running);
}

#[test]
fn inference_follows_the_script_and_gives_its_buffers_back() {
    let mut s = built();
    assert!(s.begin());
    let seen = run_to_idle(&mut s);
    let mut expected = inference_script();
    expected.push(Action::Release(Resource::Output));
    expected.push(Action::Release(Resource::Intermediate));
    expected.push(Action::Release(Resource::Input));
    assert_eq!(seen, expected);
    assert_eq!(s.phase(), Phase::Ready);
    assert_eq!(s.fault(), None);
    assert_eq!(held(&s), SESSION.to_vec());
}

#[test]
fn every_launch_is_followed_by_a_wait() {
    let mut s = built();
    assert!(s.begin());
    let seen = run_to_idle(&mut s);
    for (i, a) in seen.iter().enumerate() {
        if let Action::Launch(_) = a {
            assert_eq!(seen[i + 1], Action::Synchronize);
        }
    }
    let launches: Vec<Action> =
        seen.iter().copied().filter(|a| matches!(a, Action::Launch(_))).collect();
    assert_eq!(
        launches,
        vec![
            Action::Launch(Kernel::Convolution),
            Action::Launch(Kernel::Activation),
            Action::Launch(Kernel::Output),
        ]
    );
}

#[test]
fn kernels_start_on_a_drained_queue() {
    let mut s = built();
    assert_eq!(s.in_flight(), 0);
    assert!(s.begin());
    let mut counts = Vec::new();
    while s.next_action() != Action::Idle {
        match s.next_action() {
            Action::Launch(_) | Action::Download(_) => assert_eq!(s.in_flight(), 0),
            Action::Synchronize => assert_eq!(s.in_flight(), 1),
            _ => {}
        }
        counts.push(s.in_flight());
        s.advance(true);
    }
    assert_eq!(counts, vec![0, 0, 0, 1, 0, 1, 0, 0, 1, 0, 0, 0, 0]);
    assert_eq!(s.in_flight(), 0);
}

#[test]
fn a_failed_launch_puts_nothing_on_the_queue() {
    let mut s = built();
    assert!(s.begin());
    fail_after(&mut s, 2);
    assert_eq!(s.in_flight(), 0);
}

#[test]
fn kernels_start_only_on_buffers_that_exist() {
    let mut s = built();
    assert!(s.begin());
    while s.next_action() != Action::Idle {
        if let Action::Launch(k) = s.next_action() {
            for r in k.arguments() {
                assert!(s.holds(r), "{:?} needs {:?}", k, r);
            }
            assert!(s.holds(Resource::Module));
            assert!(s.holds(Resource::Stream));
        }
        if let Action::Download(r) = s.next_action() {
            assert!(s.holds(r));
        }
        s.advance(true);
    }
}

#[test]
fn a_second_inference_goes_the_same_way() {
    let mut s = built();
    assert!(s.begin());
    let first = run_to_idle(&mut s);
    assert!(s.begin());
    let second = run_to_idle(&mut s);
    assert_eq!(first, second);
    assert_eq!(s.phase(), Phase::Ready);
    assert_eq!(held(&s), SESSION.to_vec());
}

#[test]
fn an_inference_after_a_failed_one_goes_the_same_way() {
    let mut fresh = built();
    assert!(fresh.begin());
    let expected = run_to_idle(&mut fresh);

    let mut s = built();
    assert!(s.begin());
    fail_after(&mut s, 5);
    run_to_idle(&mut s);
    assert_eq!(s.fault(), Some(PipelineError::SyncError));
    assert!(s.begin());
    assert_eq!(s.fault(), None);
    assert_eq!(run_to_idle(&mut s), expected);
    assert_eq!(s.fault(), None);
}

#[test]
fn a_second_inference_is_refused_while_one_runs() {
    let mut s = built();
    assert!(s.begin());
    s.advance(true);
    s.advance(true);
    assert!(!s.begin());
    assert_eq!(s.phase(), Phase::Running);
    assert_eq!(s.next_action(), Action::Launch(Kernel::Convolution));
    assert_eq!(
        held(&s),
        vec![
            Resource::Context,
            Resource::Module,
            Resource::Stream,
            Resource::ConvWeights,
            Resource::OutputWeights,
            Resource::Input,
            Resource::Intermediate,
        ]
    );
}

#[test]
fn each_failing_step_gives_its_own_error() {
    let expected = [
        PipelineError::TransferError,
        PipelineError::TransferError,
        PipelineError::KernelLaunchError,
        PipelineError::SyncError,
        PipelineError::KernelLaunchError,
        PipelineError::SyncError,
        PipelineError::TransferError,
        PipelineError::KernelLaunchError,
        PipelineError::SyncError,
        PipelineError::TransferError,
    ];
    for (step, e) in expected.iter().enumerate() {
        let mut s = built();
        assert!(s.begin());
        let failed = fail_after(&mut s, step);
        assert_eq!(failed, inference_script()[step]);
        assert_eq!(s.fault(), Some(*e), "step {}", step);
        let releases = run_to_idle(&mut s);
        for a in &releases {
            match a {
                Action::Release(r) => assert!(matches!(
                    r,
                    Resource::Input | Resource::Intermediate | Resource::Output
                )),
                other => panic!("asked for {:?} after a failed inference", other),
            }
        }
        assert_eq!(s.phase(), Phase::Ready);
        assert_eq!(s.fault(), Some(*e));
        assert_eq!(held(&s), SESSION.to_vec());
    }
}

#[test]
fn a_failed_first_upload_needs_no_release() {
    let mut s = built();
    assert!(s.begin());
    fail_after(&mut s, 0);
    assert_eq!(s.phase(), Phase::Ready);
    assert_eq!(s.next_action(), Action::Idle);
    assert_eq!(s.fault(), Some(PipelineError::TransferError));
}

#[test]
fn a_failed_launch_releases_the_newest_buffer_first() {
    let mut s = built();
    assert!(s.begin());
    let failed = fail_after(&mut s, 7);
    assert_eq!(failed, Action::Launch(Kernel::Output));
    assert_eq!(s.phase(), Phase::Settling);
    assert_eq!(
        run_to_idle(&mut s),
        vec![
            Action::Release(Resource::Output),
            Action::Release(Resource::Intermediate),
            Action::Release(Resource::Input),
        ]
    );
}

#[test]
fn a_release_has_no_outcome() {
    let mut s = built();
    assert!(s.begin());
    fail_after(&mut s, 2);
    assert_eq!(s.next_action(), Action::Release(Resource::Intermediate));
    s.advance(false);
    assert_eq!(s.next_action(), Action::Release(Resource::Input));
    s.advance(false);
    assert_eq!(s.phase(), Phase::Ready);
    assert_eq!(s.fault(), Some(PipelineError::KernelLaunchError));
    assert_eq!(held(&s), SESSION.to_vec());
}

#[test]
fn advancing_an_idle_session_changes_nothing() {
    let mut s = built();
    s.advance(false);
    s.advance(true);
    assert_eq!(s.phase(), Phase::Ready);
    assert_eq!(s.fault(), None);
    assert_eq!(held(&s), SESSION.to_vec());
}

#[test]
fn teardown_of_a_built_session_releases_the_context_last() {
    let mut s = built();
    s.close();
    assert_eq!(s.phase(), Phase::Closing);
    assert_eq!(
        run_to_idle(&mut s),
        vec![
            Action::Release(Resource::ConvWeights),
            Action::Release(Resource::OutputWeights),
            Action::Release(Resource::Module),
            Action::Release(Resource::Stream),
            Action::Release(Resource::Context),
        ]
    );
    assert_eq!(s.phase(), Phase::Closed);
    assert_eq!(held(&s), vec![]);
}

#[test]
fn teardown_at_any_point_releases_the_context_last() {
    // `build` successes, then optionally `infer` successes of an inference.
    let mut points: Vec<(usize, Option<usize>)> = (0..7).map(|b| (b, None)).collect();
    points.push((7, None));
    for i in 0..13 {
        points.push((7, Some(i)));
    }
    for (build, infer) in points {
        let mut s = Control::new();
        for _ in 0..build {
            s.advance(true);
        }
        if let Some(n) = infer {
            assert!(s.begin());
            for _ in 0..n {
                s.advance(true);
            }
        }
        let before = held(&s);
        s.close();
        let releases = run_to_idle(&mut s);
        assert_eq!(releases.len(), before.len());
        for (i, a) in releases.iter().enumerate() {
            match a {
                Action::Release(r) => {
                    assert!(before.contains(r));
                    assert_eq!(*r == Resource::Context, i + 1 == releases.len());
                }
                other => panic!("asked for {:?} during teardown", other),
            }
        }
        assert_eq!(s.phase(), Phase::Closed);
        assert_eq!(held(&s), vec![]);
    }
}

#[test]
fn teardown_during_a_failed_construction() {
    let mut s = Control::new();
    fail_after(&mut s, 5);
    assert_eq!(s.phase(), Phase::Aborting);
    s.close();
    assert_eq!(s.phase(), Phase::Closing);
    assert_eq!(
        run_to_idle(&mut s),
        vec![
            Action::Release(Resource::Module),
            Action::Release(Resource::Stream),
            Action::Release(Resource::Context),
        ]
    );
    assert_eq!(s.phase(), Phase::Closed);
    assert_eq!(s.fault(), Some(PipelineError::DeviceInitError));
}

#[test]
fn teardown_of_nothing_is_immediate() {
    let mut s = Control::new();
    s.close();
    assert_eq!(s.phase(), Phase::Closed);
    assert_eq!(s.next_action(), Action::Idle);
}

#[test]
fn a_closed_session_stays_closed() {
    let mut s = built();
    s.close();
    run_to_idle(&mut s);
    assert!(!s.begin());
    s.advance(true);
    s.close();
    assert_eq!(s.phase(), Phase::Closed);
    assert_eq!(s.next_action(), Action::Idle);
    assert_eq!(held(&s), vec![]);
}

#[test]
fn closing_twice_changes_nothing() {
    let mut s = built();
    s.close();
    s.advance(true);
    s.close();
    assert_eq!(s.phase(), Phase::Closing);
    assert_eq!(s.next_action(), Action::Release(Resource::OutputWeights));
}

#[test]
fn drive_builds_a_session() {
    let log = std::cell::RefCell::new(Vec::new());
    let mut s = Control::new();
    s.drive(&|a| {
        log.borrow_mut().push(a);
        true
    });
    assert_eq!(log.into_inner(), setup_script());
    assert_eq!(s.phase(), Phase::Ready);
    assert_eq!(s.next_action(), Action::Idle);
}

#[test]
fn drive_stops_where_nothing_is_due() {
    let calls = std::cell::Cell::new(0);
    let mut s = built();
    s.drive(&|_| {
        calls.set(calls.get() + 1);
        true
    });
    assert_eq!(calls.get(), 0);
    assert_eq!(s.phase(), Phase::Ready);
}

#[test]
fn drive_ends_even_if_everything_fails() {
    let log = std::cell::RefCell::new(Vec::new());
    let mut s = built();
    assert!(s.begin());
    s.advance(true);
    s.advance(true);
    s.drive(&|a| {
        log.borrow_mut().push(a);
        false
    });
    assert_eq!(
        log.into_inner(),
        vec![
            Action::Launch(Kernel::Convolution),
            Action::Release(Resource::Intermediate),
            Action::Release(Resource::Input),
        ]
    );
    assert_eq!(s.phase(), Phase::Ready);
    assert_eq!(s.fault(), Some(PipelineError::KernelLaunchError));
}

#[test]
fn drive_tears_a_session_down() {
    let log = std::cell::RefCell::new(Vec::new());
    let mut s = built();
    s.close();
    s.drive(&|a| {
        log.borrow_mut().push(a);
        true
    });
    assert_eq!(log.borrow().len(), 5);
    assert_eq!(log.borrow()[4], Action::Release(Resource::Context));
    assert_eq!(s.phase(), Phase::Closed);
}
