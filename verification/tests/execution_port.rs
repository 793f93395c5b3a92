use reims_vgpu::encoder_state::SegmentKind;
use reims_vgpu::exec_streams::SegmentBoundary;
use reims_vgpu::executor::{
    context_for, execute_compute, execute_draw, DrawError, ExecutionCompletion, Executor,
    OperationKind, ResolvedSubmission, ResourceValidity, SubmissionContext, SubmissionIdentity,
    SubmissionResourceUse,
};
use std::sync::atomic::{AtomicUsize, Ordering};
use std::sync::{Arc, Mutex};

#[derive(Clone, Copy, Debug)]
enum ScriptedCompletion {
    Draw,
    Compute,
    Refused,
}

#[derive(Debug)]
struct ScriptedExecutor {
    completion: ScriptedCompletion,
    seen: Mutex<Vec<SubmissionContext>>,
    resets: AtomicUsize,
}

impl ScriptedExecutor {
    fn new(completion: ScriptedCompletion) -> Self {
        Self {
            completion,
            seen: Mutex::new(Vec::new()),
            resets: AtomicUsize::new(0),
        }
    }
}

impl Executor for ScriptedExecutor {
    type DrawRequest = u8;
    type ComputeRequest = u16;
    type DrawOutput = u32;
    type ComputeOutput = u64;
    type Refusal = &'static str;

    fn execute(
        &self,
        submission: ResolvedSubmission<'_, u8, u16>,
    ) -> Result<ExecutionCompletion<u32, u64>, &'static str> {
        let context = match submission {
            ResolvedSubmission::Draw { context, .. }
            | ResolvedSubmission::Compute { context, .. } => context,
        };
        self.seen.lock().unwrap().push(context.copied());
        match self.completion {
            ScriptedCompletion::Draw => Ok(ExecutionCompletion::Draw(0)),
            ScriptedCompletion::Compute => Ok(ExecutionCompletion::Compute(0)),
            ScriptedCompletion::Refused => Err("scripted"),
        }
    }

    fn reset(&self) {
        self.resets.fetch_add(1, Ordering::Relaxed);
    }
}

fn context() -> SubmissionContext {
    SubmissionContext {
        identity: SubmissionIdentity { id: 19, task: 7 },
        resources: vec![SubmissionResourceUse {
            object: 31,
            validity: ResourceValidity {
                clear_host: true,
                set_host: false,
                clear_guest: false,
                set_guest: true,
            },
        }],
        segment: Some(SegmentBoundary {
            stream_index: 0,
            index: 3,
            kind: SegmentKind::Render,
            continues_previous: true,
            continues_next: false,
        }),
    }
}

#[test]
fn device_injected_executor_receives_the_complete_submission_context() {
    let scripted = Arc::new(ScriptedExecutor::new(ScriptedCompletion::Draw));
    let context = context();

    execute_draw(scripted.as_ref(), &context, &0).unwrap();

    let seen = scripted.seen.lock().unwrap();
    assert_eq!(seen.as_slice(), &[context]);
}

#[test]
fn executor_cannot_return_a_completion_for_another_operation_kind() {
    let scripted = ScriptedExecutor::new(ScriptedCompletion::Compute);
    let error = execute_draw(&scripted, &context(), &0).unwrap_err();

    match error {
        DrawError::ExecutorCompletionKindMismatch { expected, actual } => {
            assert_eq!(expected.name(), "draw");
            assert_eq!(actual.name(), "compute");
        }
        DrawError::Refused(_) => panic!("a completion of another kind is no refusal"),
    }
}

#[test]
fn compute_uses_the_same_execution_port() {
    let scripted = ScriptedExecutor::new(ScriptedCompletion::Compute);
    execute_compute(&scripted, &context(), &0).unwrap();

    assert_eq!(scripted.seen.lock().unwrap().len(), 1);
}

#[test]
fn resetting_one_device_preserves_its_executor_and_does_not_reset_another() {
    let first = Arc::new(ScriptedExecutor::new(ScriptedCompletion::Draw));
    let second = Arc::new(ScriptedExecutor::new(ScriptedCompletion::Draw));

    first.reset();
    execute_draw(first.as_ref(), &context(), &0).unwrap();
    execute_draw(second.as_ref(), &context(), &0).unwrap();

    assert_eq!(first.resets.load(Ordering::Relaxed), 1);
    assert_eq!(second.resets.load(Ordering::Relaxed), 0);
    assert_eq!(first.seen.lock().unwrap().len(), 1);
    assert_eq!(second.seen.lock().unwrap().len(), 1);
    second.reset();
}

#[test]
fn a_dispatch_takes_no_draw_and_a_refusal_stays_one() {
    let draws = ScriptedExecutor::new(ScriptedCompletion::Draw);
    assert_eq!(
        execute_compute(&draws, &context(), &0),
        Err(DrawError::ExecutorCompletionKindMismatch {
            expected: OperationKind::Compute,
            actual: OperationKind::Draw,
        })
    );
    let refuses = ScriptedExecutor::new(ScriptedCompletion::Refused);
    assert_eq!(
        execute_draw(&refuses, &context(), &0),
        Err(DrawError::Refused("scripted"))
    );
}

#[test]
fn a_call_outside_of_every_submission_stands_alone() {
    let alone = context_for(&None, 9);
    assert_eq!(alone, SubmissionContext::standalone(9));
    assert_eq!(alone.identity, SubmissionIdentity { id: 0, task: 9 });
    assert!(alone.resources.is_empty());
    assert_eq!(alone.segment, None);
    assert_eq!(context_for(&Some(context()), 9), context());
}
