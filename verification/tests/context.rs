use cnn_pipeline::{Action, CudaContext, Kernel, Phase, PipelineError, Resource};
use std::cell::{Cell, RefCell};

const SESSION: [Resource; 5] = [
    Resource::Context,
    Resource::Module,
    Resource::Stream,
    Resource::ConvWeights,
    Resource::OutputWeights,
];

fn setup_script() -> Vec<Action> {
    vec![
        Action::InitDriver,
        Action::SelectDevice,
        Action::CreateContext,
        Action::LoadModule,
        Action::CreateStream,
        Action::Upload(Resource::ConvWeights),
        Action::Upload(Resource::OutputWeights),
    ]
}

fn full_script() -> Vec<Action> {
    vec![
        Action::Upload(Resource::Input),
        Action::AllocZeroed(Resource::Intermediate),
        Action::Launch(Kernel::Convolution),
        Action::Synchronize,
        Action::Launch(Kernel::Activation),
        Action::Synchronize,
        Action::AllocZeroed(Resource::Output),
        Action::Launch(Kernel::Output),
        Action::Synchronize,
        Action::Download(Resource::Output),
        Action::Release(Resource::Output),
        Action::Release(Resource::Intermediate),
        Action::Release(Resource::Input),
    ]
}

/// A device that does nothing but keep a record, and refuses one action.
struct Recorder {
    log: RefCell<Vec<Action>>,
    refuse: Cell<Option<Action>>,
}

impl Recorder {
    fn new() -> Recorder {
        Recorder { log: RefCell::new(Vec::new()), refuse: Cell::new(None) }
    }

    fn refusing(a: Action) -> Recorder {
        Recorder { log: RefCell::new(Vec::new()), refuse: Cell::new(Some(a)) }
    }

    fn perform(&self, a: Action) -> bool {
        self.log.borrow_mut().push(a);
        self.refuse.get() != Some(a)
    }

    fn take(&self) -> Vec<Action> {
        self.log.replace(Vec::new())
    }
}

fn built(d: &Recorder) -> CudaContext {
    let s = CudaContext::init(|a| d.perform(a)).unwrap();
    d.take();
    s
}

#[test]
fn init_builds_a_session_step_by_step() {
    let d = Recorder::new();
    let s = CudaContext::init(|a| d.perform(a)).unwrap();
    assert_eq!(d.take(), setup_script());
    let books = s.control();
    assert_eq!(books.phase(), Phase::Ready);
    assert_eq!(books.fault(), None);
    assert_eq!(books.in_flight(), 0);
    for r in SESSION {
        assert!(books.holds(r));
    }
    for r in [Resource::Input, Resource::Intermediate, Resource::Output] {
        assert!(!books.holds(r));
    }
}

#[test]
fn init_without_a_device_fails_cleanly() {
    let d = Recorder::refusing(Action::SelectDevice);
    let r = CudaContext::init(|a| d.perform(a));
    assert_eq!(r.err(), Some(PipelineError::DeviceInitError));
    assert_eq!(d.take(), vec![Action::InitDriver, Action::SelectDevice]);
}

#[test]
fn init_fails_with_a_device_init_error_at_every_step() {
    for (n, step) in setup_script().into_iter().enumerate() {
        let d = Recorder::refusing(step);
        let r = CudaContext::init(|a| d.perform(a));
        assert_eq!(r.err(), Some(PipelineError::DeviceInitError));
        let log = d.take();
        assert_eq!(log[..=n], setup_script()[..=n]);
        let mut acquired: Vec<Resource> =
            setup_script()[..n].iter().filter_map(|a| a.acquires()).collect();
        for a in &log[n + 1..] {
            match a {
                Action::Release(r) => {
                    let at = acquired.iter().position(|q| q == r).unwrap();
                    acquired.remove(at);
                    assert!(*r != Resource::Context || acquired.is_empty());
                }
                other => panic!("asked for {:?} after a failed construction", other),
            }
        }
        assert!(acquired.is_empty(), "leaked {:?} at step {}", acquired, n);
    }
}

#[test]
fn init_releases_in_order_after_a_failed_upload() {
    let d = Recorder::refusing(Action::Upload(Resource::ConvWeights));
    assert!(CudaContext::init(|a| d.perform(a)).is_err());
    assert_eq!(
        d.take()[6..],
        [
            Action::Release(Resource::Module),
            Action::Release(Resource::Stream),
            Action::Release(Resource::Context),
        ]
    );
}

#[test]
fn compute_runs_the_three_stages_in_order() {
    let d = Recorder::new();
    let mut s = built(&d);
    assert_eq!(s.compute(|a| d.perform(a)), Ok(()));
    assert_eq!(d.take(), full_script());
    assert_eq!(s.control().phase(), Phase::Ready);
    assert_eq!(s.control().fault(), None);
}

#[test]
fn compute_twice_asks_for_the_same_actions() {
    let d = Recorder::new();
    let mut s = built(&d);
    assert_eq!(s.compute(|a| d.perform(a)), Ok(()));
    let first = d.take();
    assert_eq!(s.compute(|a| d.perform(a)), Ok(()));
    assert_eq!(d.take(), first);
}

#[test]
fn compute_fails_with_the_error_of_the_failing_step() {
    let expected = [
        (Action::Upload(Resource::Input), PipelineError::TransferError),
        (Action::AllocZeroed(Resource::Intermediate), PipelineError::TransferError),
        (Action::Launch(Kernel::Convolution), PipelineError::KernelLaunchError),
        (Action::Launch(Kernel::Activation), PipelineError::KernelLaunchError),
        (Action::AllocZeroed(Resource::Output), PipelineError::TransferError),
        (Action::Launch(Kernel::Output), PipelineError::KernelLaunchError),
        (Action::Synchronize, PipelineError::SyncError),
        (Action::Download(Resource::Output), PipelineError::TransferError),
    ];
    for (step, error) in expected {
        let d = Recorder::new();
        let mut s = built(&d);
        d.refuse.set(Some(step));
        assert_eq!(s.compute(|a| d.perform(a)), Err(error), "{:?}", step);
        let log = d.take();
        let at = log.iter().position(|a| *a == step).unwrap();
        assert_eq!(log[..=at], full_script()[..=at]);
        for a in &log[at + 1..] {
            assert!(matches!(
                a,
                Action::Release(Resource::Input | Resource::Intermediate | Resource::Output)
            ));
        }
        let acquired = log[..at].iter().filter(|a| a.acquires().is_some()).count();
        assert_eq!(log.len(), at + 1 + acquired);
        let books = s.control();
        assert_eq!(books.phase(), Phase::Ready);
        assert_eq!(books.fault(), Some(error));
        assert!(!books.holds(Resource::Input));
        assert!(!books.holds(Resource::Intermediate));
        assert!(!books.holds(Resource::Output));
    }
}

#[test]
fn compute_stops_at_the_first_failed_wait() {
    let d = Recorder::new();
    let mut s = built(&d);
    d.refuse.set(Some(Action::Synchronize));
    assert_eq!(s.compute(|a| d.perform(a)), Err(PipelineError::SyncError));
    assert_eq!(
        d.take(),
        vec![
            Action::Upload(Resource::Input),
            Action::AllocZeroed(Resource::Intermediate),
            Action::Launch(Kernel::Convolution),
            Action::Synchronize,
            Action::Release(Resource::Intermediate),
            Action::Release(Resource::Input),
        ]
    );
}

#[test]
fn compute_recovers_after_a_failure() {
    let d = Recorder::new();
    let mut s = built(&d);
    d.refuse.set(Some(Action::Launch(Kernel::Output)));
    assert_eq!(s.compute(|a| d.perform(a)), Err(PipelineError::KernelLaunchError));
    d.refuse.set(None);
    d.take();
    assert_eq!(s.compute(|a| d.perform(a)), Ok(()));
    assert_eq!(d.take(), full_script());
    assert_eq!(s.control().fault(), None);
}

#[test]
fn compute_does_not_mind_what_a_release_answers() {
    let d = Recorder::new();
    let mut s = built(&d);
    d.refuse.set(Some(Action::Release(Resource::Intermediate)));
    assert_eq!(s.compute(|a| d.perform(a)), Ok(()));
    assert_eq!(d.take(), full_script());
}

#[test]
fn close_releases_the_context_last() {
    let d = Recorder::new();
    let s = built(&d);
    s.close(|a| d.perform(a));
    assert_eq!(
        d.take(),
        vec![
            Action::Release(Resource::ConvWeights),
            Action::Release(Resource::OutputWeights),
            Action::Release(Resource::Module),
            Action::Release(Resource::Stream),
            Action::Release(Resource::Context),
        ]
    );
}

#[test]
fn close_after_inferences_releases_the_same() {
    let d = Recorder::new();
    let mut s = built(&d);
    assert!(s.compute(|a| d.perform(a)).is_ok());
    d.refuse.set(Some(Action::Synchronize));
    assert!(s.compute(|a| d.perform(a)).is_err());
    d.take();
    s.close(|a| d.perform(a));
    let log = d.take();
    assert_eq!(log.len(), 5);
    assert_eq!(log[4], Action::Release(Resource::Context));
}

#[test]
fn the_books_of_a_session_are_a_copy() {
    let d = Recorder::new();
    let s = built(&d);
    let mut books = s.control();
    books.close();
    assert_eq!(books.phase(), Phase::Closing);
    assert_eq!(s.control().phase(), Phase::Ready);
}
