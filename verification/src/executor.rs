//! The port through which operations are executed, and the context that each
//! carries.

use vstd::prelude::*;

use crate::exec_streams::SegmentBoundary;
use crate::tables::copy_all;

verus! {

/// What a submission says of the copies of a resource.
#[derive(Clone, Copy, Debug, PartialEq, Eq, Structural)]
pub struct ResourceValidity {
    pub clear_host: bool,
    pub set_host: bool,
    pub clear_guest: bool,
    pub set_guest: bool,
}

/// A resource that a submission touches.
#[derive(Clone, Copy, Debug, PartialEq, Eq, Structural)]
pub struct SubmissionResourceUse {
    pub object: u32,
    pub validity: ResourceValidity,
}

/// Which submission an operation belongs to.
#[derive(Clone, Copy, Debug, PartialEq, Eq, Structural)]
pub struct SubmissionIdentity {
    pub id: u64,
    pub task: u32,
}

/// What every operation of a stream shares.
#[derive(Debug, PartialEq, Eq)]
pub struct SubmissionContext {
    pub identity: SubmissionIdentity,
    pub resources: Vec<SubmissionResourceUse>,
    pub segment: Option<SegmentBoundary>,
}

/// What contracts say of a context.
#[verifier::ext_equal]
pub struct ContextView {
    pub identity: SubmissionIdentity,
    pub resources: Seq<SubmissionResourceUse>,
    pub segment: Option<SegmentBoundary>,
}

impl View for SubmissionContext {
    type V = ContextView;

    open spec fn view(&self) -> ContextView {
        ContextView {
            identity: self.identity,
            resources: self.resources@,
            segment: self.segment,
        }
    }
}

/// The context of a call outside of every submission.
pub open spec fn standalone_context(task_id: u32) -> ContextView {
    ContextView {
        identity: SubmissionIdentity { id: 0, task: task_id },
        resources: Seq::empty(),
        segment: None,
    }
}

impl SubmissionContext {
    /// The context of a call outside of every submission.
    pub fn standalone(task_id: u32) -> (context: SubmissionContext)
        ensures
            context@ == standalone_context(task_id),
    {
        let resources: Vec<SubmissionResourceUse> = Vec::new();
        assert(resources@ =~= Seq::empty());
        SubmissionContext {
            identity: SubmissionIdentity { id: 0, task: task_id },
            resources,
            segment: None,
        }
    }

    /// A copy that later submissions do not change.
    pub fn copied(&self) -> (copy: SubmissionContext)
        ensures
            copy@ == self@,
    {
        SubmissionContext {
            identity: self.identity,
            resources: copy_all(&self.resources),
            segment: self.segment,
        }
    }
}

/// The context of a call: that of the active submission, if there is one.
pub fn context_for(active: &Option<SubmissionContext>, task_id: u32) -> (context: SubmissionContext)
    ensures
        context@ == match *active {
            Some(active) => active@,
            None => standalone_context(task_id),
        },
{
    match active {
        Some(active) => active.copied(),
        None => SubmissionContext::standalone(task_id),
    }
}

/// The kind of an operation.
#[derive(Clone, Copy, Debug, PartialEq, Eq, Structural)]
pub enum OperationKind {
    Draw,
    Compute,
}

impl OperationKind {
    pub open spec fn name_of(self) -> Seq<char> {
        match self {
            OperationKind::Draw => "draw"@,
            OperationKind::Compute => "compute"@,
        }
    }

    /// The kind's name in a report.
    pub fn name(self) -> (name: &'static str)
        ensures
            name@ == self.name_of(),
    {
        match self {
            OperationKind::Draw => "draw",
            OperationKind::Compute => "compute",
        }
    }
}

/// An operation that is ready to be executed.
#[allow(inconsistent_fields)]
pub enum ResolvedSubmission<'a, DrawRequest, ComputeRequest> {
    Draw { context: &'a SubmissionContext, request: &'a DrawRequest },
    Compute { context: &'a SubmissionContext, request: &'a ComputeRequest },
}

impl<'a, DrawRequest, ComputeRequest> ResolvedSubmission<'a, DrawRequest, ComputeRequest> {
    pub open spec fn kind_of(self) -> OperationKind {
        match self {
            ResolvedSubmission::Draw { .. } => OperationKind::Draw,
            ResolvedSubmission::Compute { .. } => OperationKind::Compute,
        }
    }

    /// The kind of the operation.
    pub fn kind(&self) -> (kind: OperationKind)
        ensures
            kind == self.kind_of(),
    {
        match self {
            ResolvedSubmission::Draw { .. } => OperationKind::Draw,
            ResolvedSubmission::Compute { .. } => OperationKind::Compute,
        }
    }
}

/// What executing an operation gave.
#[derive(Debug, PartialEq, Eq)]
pub enum ExecutionCompletion<DrawOutput, ComputeOutput> {
    Draw(DrawOutput),
    Compute(ComputeOutput),
}

impl<DrawOutput, ComputeOutput> ExecutionCompletion<DrawOutput, ComputeOutput> {
    pub open spec fn kind_of(self) -> OperationKind {
        match self {
            ExecutionCompletion::Draw(_) => OperationKind::Draw,
            ExecutionCompletion::Compute(_) => OperationKind::Compute,
        }
    }

    /// The kind of the operation that was executed.
    pub fn kind(&self) -> (kind: OperationKind)
        ensures
            kind == self.kind_of(),
    {
        match self {
            ExecutionCompletion::Draw(_) => OperationKind::Draw,
            ExecutionCompletion::Compute(_) => OperationKind::Compute,
        }
    }
}

/// Why executing an operation failed.
#[derive(Debug, PartialEq, Eq)]
pub enum DrawError<Refusal> {
    /// The executor refused.
    Refused(Refusal),
    /// The executor answered with an operation of another kind.
    ExecutorCompletionKindMismatch { expected: OperationKind, actual: OperationKind },
}

/// What executes operations. Devices bring their own.
pub trait Executor {
    type DrawRequest;

    type ComputeRequest;

    type DrawOutput;

    type ComputeOutput;

    type Refusal;

    /// Executes an operation.
    fn execute(
        &self,
        submission: ResolvedSubmission<'_, Self::DrawRequest, Self::ComputeRequest>,
    ) -> Result<ExecutionCompletion<Self::DrawOutput, Self::ComputeOutput>, Self::Refusal>;

    /// Ends one guest's life; what guests share stays.
    fn reset(&self) {
    }
}

/// What a draw comes to, given what its executor answered.
pub open spec fn drawn_of<DrawOutput, ComputeOutput, Refusal>(
    answer: Result<ExecutionCompletion<DrawOutput, ComputeOutput>, Refusal>,
) -> Result<DrawOutput, DrawError<Refusal>> {
    match answer {
        Ok(ExecutionCompletion::Draw(output)) => Ok(output),
        Ok(ExecutionCompletion::Compute(_)) => Err(
            DrawError::ExecutorCompletionKindMismatch {
                expected: OperationKind::Draw,
                actual: OperationKind::Compute,
            },
        ),
        Err(refusal) => Err(DrawError::Refused(refusal)),
    }
}

/// Takes a draw's output out of what its executor answered.
pub fn settle_draw<DrawOutput, ComputeOutput, Refusal>(
    answer: Result<ExecutionCompletion<DrawOutput, ComputeOutput>, Refusal>,
) -> (result: Result<DrawOutput, DrawError<Refusal>>)
    ensures
        result == drawn_of(answer),
{
    match answer {
        Ok(ExecutionCompletion::Draw(output)) => Ok(output),
        Ok(other) => Err(
            DrawError::ExecutorCompletionKindMismatch {
                expected: OperationKind::Draw,
                actual: other.kind(),
            },
        ),
        Err(refusal) => Err(DrawError::Refused(refusal)),
    }
}

/// What a dispatch comes to, given what its executor answered.
pub open spec fn computed_of<DrawOutput, ComputeOutput, Refusal>(
    answer: Result<ExecutionCompletion<DrawOutput, ComputeOutput>, Refusal>,
) -> Result<ComputeOutput, DrawError<Refusal>> {
    match answer {
        Ok(ExecutionCompletion::Compute(output)) => Ok(output),
        Ok(ExecutionCompletion::Draw(_)) => Err(
            DrawError::ExecutorCompletionKindMismatch {
                expected: OperationKind::Compute,
                actual: OperationKind::Draw,
            },
        ),
        Err(refusal) => Err(DrawError::Refused(refusal)),
    }
}

/// Takes a dispatch's output out of what its executor answered.
pub fn settle_compute<DrawOutput, ComputeOutput, Refusal>(
    answer: Result<ExecutionCompletion<DrawOutput, ComputeOutput>, Refusal>,
) -> (result: Result<ComputeOutput, DrawError<Refusal>>)
    ensures
        result == computed_of(answer),
{
    match answer {
        Ok(ExecutionCompletion::Compute(output)) => Ok(output),
        Ok(other) => Err(
            DrawError::ExecutorCompletionKindMismatch {
                expected: OperationKind::Compute,
                actual: other.kind(),
            },
        ),
        Err(refusal) => Err(DrawError::Refused(refusal)),
    }
}

/// Executes a draw. The executor gets the whole context, and only a draw's
/// completion counts as one.
pub fn execute_draw<E: Executor>(
    executor: &E,
    context: &SubmissionContext,
    request: &E::DrawRequest,
) -> (result: Result<E::DrawOutput, DrawError<E::Refusal>>)
    requires
        call_requires(E::execute, (executor, ResolvedSubmission::Draw { context, request })),
    ensures
        exists|answer: Result<
            ExecutionCompletion<E::DrawOutput, E::ComputeOutput>,
            E::Refusal,
        >|
            {
                &&& #[trigger] call_ensures(
                    E::execute,
                    (executor, ResolvedSubmission::Draw { context, request }),
                    answer,
                )
                &&& result == drawn_of(answer)
            },
{
    settle_draw(executor.execute(ResolvedSubmission::Draw { context, request }))
}

/// Executes a dispatch. The executor gets the whole context, and only a
/// dispatch's completion counts as one.
pub fn execute_compute<E: Executor>(
    executor: &E,
    context: &SubmissionContext,
    request: &E::ComputeRequest,
) -> (result: Result<E::ComputeOutput, DrawError<E::Refusal>>)
    requires
        call_requires(E::execute, (executor, ResolvedSubmission::Compute { context, request })),
    ensures
        exists|answer: Result<
            ExecutionCompletion<E::DrawOutput, E::ComputeOutput>,
            E::Refusal,
        >|
            {
                &&& #[trigger] call_ensures(
                    E::execute,
                    (executor, ResolvedSubmission::Compute { context, request }),
                    answer,
                )
                &&& result == computed_of(answer)
            },
{
    settle_compute(executor.execute(ResolvedSubmission::Compute { context, request }))
}

/// A completion of one kind never counts as one of the other.
pub proof fn lemma_kinds_never_mix<DrawOutput, ComputeOutput, Refusal>(
    answer: ExecutionCompletion<DrawOutput, ComputeOutput>,
)
    ensures
        drawn_of(Ok::<ExecutionCompletion<DrawOutput, ComputeOutput>, Refusal>(answer)) is Ok
            <==> answer.kind_of() == OperationKind::Draw,
        computed_of(Ok::<ExecutionCompletion<DrawOutput, ComputeOutput>, Refusal>(answer)) is Ok
            <==> answer.kind_of() == OperationKind::Compute,
{
}

/// What contracts say of a context is what it holds.
pub proof fn lemma_a_context_is_seen_whole(context: SubmissionContext)
    ensures
        context@.identity == context.identity,
        context@.resources == context.resources@,
        context@.segment == context.segment,
{
}

/// A draw's output, and a dispatch's, are those that the executor completed it
/// with, and so is its refusal.
pub proof fn lemma_a_completion_is_handed_on<DrawOutput, ComputeOutput, Refusal>(
    drawn: DrawOutput,
    computed: ComputeOutput,
    refusal: Refusal,
)
    ensures
        drawn_of(
            Ok::<ExecutionCompletion<DrawOutput, ComputeOutput>, Refusal>(
                ExecutionCompletion::Draw(drawn),
            ),
        ) == Ok::<DrawOutput, DrawError<Refusal>>(drawn),
        computed_of(
            Ok::<ExecutionCompletion<DrawOutput, ComputeOutput>, Refusal>(
                ExecutionCompletion::Compute(computed),
            ),
        ) is Ok,
        computed_of(
            Ok::<ExecutionCompletion<DrawOutput, ComputeOutput>, Refusal>(
                ExecutionCompletion::Compute(computed),
            ),
        )->Ok_0 == computed,
        drawn_of(Err::<ExecutionCompletion<DrawOutput, ComputeOutput>, Refusal>(refusal)) == Err::<
            DrawOutput,
            DrawError<Refusal>,
        >(DrawError::Refused(refusal)),
{
}

} // verus!
