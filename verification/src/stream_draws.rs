//! The draws of a render stream.

use vstd::prelude::*;

use crate::exec_result::{counted, ExecResult, ExecResultView};
use crate::raster::IndexType;
use crate::refusals::StreamRefusal;
use crate::stream_accum::{
    draws_view, snapshot_of, AccumView, BindStateView, DrawArgs, IndexedDrawInfo, PendingDraw,
    PendingView, StreamAccum,
};

verus! {

/// The instances that a draw asks for.
#[derive(Clone, Copy, Debug, PartialEq, Eq, Structural)]
pub struct Instancing {
    /// How many, in a record that says so.
    pub count: Option<u64>,
    pub base: u64,
}

/// The indices that a draw reads.
#[derive(Clone, Copy, Debug, PartialEq, Eq, Structural)]
pub struct IndexRef {
    pub index_type: IndexType,
    pub buffer_ref: u32,
    pub offset: u64,
}

/// The counts of an indirect draw, as its buffer holds them.
#[derive(Clone, Copy, Debug, PartialEq, Eq, Structural)]
pub struct IndirectCounts {
    pub args: DrawArgs,
    /// The first index, for a draw that reads indices.
    pub index_start: u32,
    pub base_vertex: i32,
}

/// A record that draws.
#[derive(Clone, Copy, Debug, PartialEq, Eq, Structural)]
#[allow(inconsistent_fields)]
pub enum DrawRecord {
    Primitives {
        primitive: u32,
        vertex_start: u64,
        vertex_count: u64,
        instances: Instancing,
    },
    Indexed {
        primitive: u32,
        index: IndexRef,
        index_count: u64,
        base_vertex: i64,
        instances: Instancing,
    },
    /// A draw whose counts stand in a buffer; none where they cannot be read.
    PrimitivesIndirect { counts: Option<IndirectCounts> },
    IndexedIndirect { index: IndexRef, counts: Option<IndirectCounts> },
}

/// A count in a draw record.
#[derive(Clone, Copy, Debug, PartialEq, Eq, Structural)]
pub enum DrawField {
    IndexCount,
    Count,
    VertexStart,
    BaseInstance,
}

/// What became of a draw.
#[derive(Clone, Copy, Debug, PartialEq, Eq, Structural)]
pub enum DrawOutcome {
    Recorded,
    /// Lost: no pipeline is bound.
    NoPipeline,
    /// A draw of nothing.
    ZeroCount,
    /// Lost: the stream's state is not what was asked for.
    Refused(StreamRefusal),
    /// Lost: a count that no draw can have.
    OutOfRange { field: DrawField, value: u64 },
    /// Lost: a number of instances that no draw can have.
    InstancesOutOfRange,
    /// Lost: the counts could not be read.
    CountsUnread,
}

/// What is reported of a draw.
#[derive(Clone, Copy, Debug, PartialEq, Eq, Structural)]
pub struct DrawReport {
    pub outcome: DrawOutcome,
    /// An indexed draw that names no index buffer, with the indices it asks for.
    pub without_index_buffer: Option<u32>,
    /// A draw that asks for no instance.
    pub zero_instances: bool,
}

/// A count at the width that a draw holds.
pub open spec fn count_of(value: u64) -> Option<u32> {
    if value <= u32::MAX {
        Some(value as u32)
    } else {
        None
    }
}

/// A count at the width that a draw holds. One that does not fit is no count:
/// its low half would be another draw.
pub fn draw_count(value: u64) -> (count: Option<u32>)
    ensures
        count == count_of(value),
{
    if value <= u32::MAX as u64 {
        Some(value as u32)
    } else {
        None
    }
}

/// The instances that a draw asks for: one where the record does not say.
pub open spec fn instances_of(instances: Instancing) -> Option<u32> {
    match instances.count {
        None => Some(1),
        Some(count) => count_of(count),
    }
}

/// The instances that a draw asks for: one where the record does not say, and
/// none where it says none.
pub fn draw_instances(instances: Instancing) -> (count: Option<u32>)
    ensures
        count == instances_of(instances),
{
    match instances.count {
        None => Some(1),
        Some(count) => draw_count(count),
    }
}

/// A stream that reads other indices.
pub open spec fn with_indices(acc: AccumView, indexed: Option<IndexedDrawInfo>) -> AccumView {
    AccumView { state: BindStateView { indexed, ..acc.state }, ..acc }
}

/// A stream after a draw whose counts are known.
pub open spec fn recorded(acc: AccumView, args: DrawArgs) -> (AccumView, DrawOutcome) {
    if acc.pipeline_ref == 0 {
        (
            AccumView { dropped_no_pipeline: counted(acc.dropped_no_pipeline, 1), ..acc },
            DrawOutcome::NoPipeline,
        )
    } else if args.vertex_count == 0 {
        (
            AccumView { dropped_zero_count: counted(acc.dropped_zero_count, 1), ..acc },
            DrawOutcome::ZeroCount,
        )
    } else {
        match snapshot_of(acc) {
            Ok(snapshot) => (
                AccumView {
                    draws: acc.draws.push(
                        PendingView { pipeline_ref: acc.pipeline_ref, draw: args, ..snapshot },
                    ),
                    ..acc
                },
                DrawOutcome::Recorded,
            ),
            Err(refused) => (acc, DrawOutcome::Refused(refused)),
        }
    }
}

/// A stream after a draw whose counts are still as wide as its record.
pub open spec fn counted_draw(
    acc: AccumView,
    primitive: u32,
    count: u64,
    first_vertex: u64,
    instances: Instancing,
) -> (AccumView, DrawOutcome, bool) {
    if count_of(count) is None {
        (acc, DrawOutcome::OutOfRange { field: DrawField::Count, value: count }, false)
    } else if count_of(first_vertex) is None {
        (
            acc,
            DrawOutcome::OutOfRange { field: DrawField::VertexStart, value: first_vertex },
            false,
        )
    } else {
        let zero = instances.count == Some(0u64);
        match instances_of(instances) {
            None => (acc, DrawOutcome::InstancesOutOfRange, zero),
            Some(instance_count) => if count_of(instances.base) is None {
                (
                    acc,
                    DrawOutcome::OutOfRange {
                        field: DrawField::BaseInstance,
                        value: instances.base,
                    },
                    zero,
                )
            } else {
                let after = recorded(
                    acc,
                    DrawArgs {
                        vertex_count: count as u32,
                        instance_count,
                        primitive_type: primitive,
                        first_vertex: first_vertex as u32,
                        base_instance: instances.base as u32,
                    },
                );
                (after.0, after.1, zero)
            },
        }
    }
}

/// The byte at which an indirect draw's indices start.
pub open spec fn first_index_byte(index: IndexRef, index_start: u32) -> u64 {
    let bytes = index.offset + index_start * index.index_type.bytes();
    if bytes <= u64::MAX {
        bytes as u64
    } else {
        u64::MAX
    }
}

/// What a draw record makes of a stream and of its submission's result.
pub open spec fn draw_step(acc: AccumView, out: ExecResultView, record: DrawRecord) -> (
    AccumView,
    ExecResultView,
    DrawReport,
) {
    match record {
        DrawRecord::Primitives { primitive, vertex_start, vertex_count, instances } => {
            let begun = with_indices(AccumView { saw_draw: true, ..acc }, None);
            let after = counted_draw(begun, primitive, vertex_count, vertex_start, instances);
            (
                after.0,
                ExecResultView { saw_draw: true, ..out },
                DrawReport {
                    outcome: after.1,
                    without_index_buffer: None,
                    zero_instances: after.2,
                },
            )
        },
        DrawRecord::Indexed { primitive, index, index_count, base_vertex, instances } => {
            let begun = AccumView { saw_draw: true, ..acc };
            let drawn = ExecResultView { saw_draw: true, ..out };
            if index.buffer_ref == 0 {
                let after = counted_draw(
                    with_indices(begun, None),
                    primitive,
                    index_count,
                    0,
                    instances,
                );
                (
                    after.0,
                    drawn,
                    DrawReport {
                        outcome: after.1,
                        without_index_buffer: if index_count == 0 {
                            None
                        } else if index_count <= u32::MAX {
                            Some(index_count as u32)
                        } else {
                            Some(u32::MAX)
                        },
                        zero_instances: after.2,
                    },
                )
            } else if count_of(index_count) is None {
                (
                    begun,
                    drawn,
                    DrawReport {
                        outcome: DrawOutcome::OutOfRange {
                            field: DrawField::IndexCount,
                            value: index_count,
                        },
                        without_index_buffer: None,
                        zero_instances: false,
                    },
                )
            } else {
                let after = counted_draw(
                    with_indices(
                        begun,
                        Some(
                            IndexedDrawInfo {
                                index_type: index.index_type.ordinal_of(),
                                index_count: index_count as u32,
                                index_buffer_ref: index.buffer_ref,
                                index_buffer_offset: index.offset,
                                base_vertex,
                            },
                        ),
                    ),
                    primitive,
                    index_count,
                    0,
                    instances,
                );
                (
                    after.0,
                    drawn,
                    DrawReport {
                        outcome: after.1,
                        without_index_buffer: None,
                        zero_instances: after.2,
                    },
                )
            }
        },
        DrawRecord::PrimitivesIndirect { counts } => {
            let after = indirect_step(acc, None, counts);
            (
                after.0,
                out,
                DrawReport {
                    outcome: after.1,
                    without_index_buffer: None,
                    zero_instances: false,
                },
            )
        },
        DrawRecord::IndexedIndirect { index, counts } => {
            let after = indirect_step(acc, Some(index), counts);
            (
                after.0,
                out,
                DrawReport {
                    outcome: after.1,
                    without_index_buffer: None,
                    zero_instances: false,
                },
            )
        },
    }
}

/// What an indirect draw makes of a stream. A draw without indices reads none
/// that an earlier one set.
pub open spec fn indirect_step(
    acc: AccumView,
    index: Option<IndexRef>,
    counts: Option<IndirectCounts>,
) -> (AccumView, DrawOutcome) {
    match counts {
        None => (acc, DrawOutcome::CountsUnread),
        Some(counts) => {
            let begun = with_indices(
                AccumView { saw_draw: true, ..acc },
                match index {
                    None => None,
                    Some(index) => Some(
                        IndexedDrawInfo {
                            index_type: index.index_type.ordinal_of(),
                            index_count: counts.args.vertex_count,
                            index_buffer_ref: index.buffer_ref,
                            index_buffer_offset: first_index_byte(index, counts.index_start),
                            base_vertex: counts.base_vertex as i64,
                        },
                    ),
                },
            );
            recorded(begun, counts.args)
        },
    }
}

fn record_draw(acc: &mut StreamAccum, args: DrawArgs) -> (outcome: DrawOutcome)
    ensures
        (final(acc)@, outcome) == recorded(old(acc)@, args),
{
    if acc.pipeline_ref == 0 {
        acc.dropped_no_pipeline = acc.dropped_no_pipeline.saturating_add(1);
        return DrawOutcome::NoPipeline;
    }
    if args.vertex_count == 0 {
        acc.dropped_zero_count = acc.dropped_zero_count.saturating_add(1);
        return DrawOutcome::ZeroCount;
    }
    match acc.bind_snapshot() {
        Ok(snapshot) => {
            let draw = PendingDraw {
                pipeline_ref: acc.pipeline_ref,
                draw: args,
                state: snapshot.state,
            };
            let ghost earlier = acc.draws@;
            let ghost added = draw@;
            acc.draws.push(draw);
            assert(draws_view(acc.draws@) =~= draws_view(earlier).push(added));
            DrawOutcome::Recorded
        },
        Err(refused) => DrawOutcome::Refused(refused),
    }
}

fn count_draw(
    acc: &mut StreamAccum,
    primitive: u32,
    count: u64,
    first_vertex: u64,
    instances: Instancing,
) -> (after: (DrawOutcome, bool))
    ensures
        (final(acc)@, after.0, after.1) == counted_draw(
            old(acc)@,
            primitive,
            count,
            first_vertex,
            instances,
        ),
{
    let Some(vertex_count) = draw_count(count) else {
        return (DrawOutcome::OutOfRange { field: DrawField::Count, value: count }, false);
    };
    let Some(first) = draw_count(first_vertex) else {
        return (
            DrawOutcome::OutOfRange { field: DrawField::VertexStart, value: first_vertex },
            false,
        );
    };
    let zero = match instances.count {
        Some(count) => count == 0,
        None => false,
    };
    let Some(instance_count) = draw_instances(instances) else {
        return (DrawOutcome::InstancesOutOfRange, zero);
    };
    let Some(base_instance) = draw_count(instances.base) else {
        return (
            DrawOutcome::OutOfRange { field: DrawField::BaseInstance, value: instances.base },
            zero,
        );
    };
    let outcome = record_draw(
        acc,
        DrawArgs {
            vertex_count,
            instance_count,
            primitive_type: primitive,
            first_vertex: first,
            base_instance,
        },
    );
    (outcome, zero)
}

/// Records a draw whose counts stand in a buffer.
pub fn execute_indirect_draw(
    acc: &mut StreamAccum,
    index: Option<IndexRef>,
    counts: Option<IndirectCounts>,
) -> (outcome: DrawOutcome)
    ensures
        (final(acc)@, outcome) == indirect_step(old(acc)@, index, counts),
{
    let Some(counts) = counts else {
        return DrawOutcome::CountsUnread;
    };
    acc.saw_draw = true;
    acc.state.indexed = match index {
        None => None,
        Some(index) => {
            let width = index.index_type.byte_size();
            let start: u64 = counts.index_start as u64;
            assert(start * width <= 0xffff_ffff * 4) by (nonlinear_arith)
                requires
                    start <= 0xffff_ffff,
                    width <= 4,
            ;
            assert(start * width == counts.index_start * index.index_type.bytes());
            Some(
                IndexedDrawInfo {
                    index_type: index.index_type.ordinal(),
                    index_count: counts.args.vertex_count,
                    index_buffer_ref: index.buffer_ref,
                    index_buffer_offset: index.offset.saturating_add(start * width),
                    base_vertex: counts.base_vertex as i64,
                },
            )
        },
    };
    record_draw(acc, counts.args)
}

/// Records a draw, with the stream's state as it stands.
pub fn handle_render_draw(acc: &mut StreamAccum, out: &mut ExecResult, record: &DrawRecord) -> (
    report: DrawReport)
    ensures
        (final(acc)@, final(out)@, report) == draw_step(old(acc)@, old(out)@, *record),
{
    match *record {
        DrawRecord::PrimitivesIndirect { counts } => {
            let outcome = execute_indirect_draw(acc, None, counts);
            DrawReport { outcome, without_index_buffer: None, zero_instances: false }
        },
        DrawRecord::IndexedIndirect { index, counts } => {
            let outcome = execute_indirect_draw(acc, Some(index), counts);
            DrawReport { outcome, without_index_buffer: None, zero_instances: false }
        },
        DrawRecord::Primitives { primitive, vertex_start, vertex_count, instances } => {
            acc.saw_draw = true;
            out.saw_draw = true;
            acc.state.indexed = None;
            let (outcome, zero_instances) = count_draw(
                acc,
                primitive,
                vertex_count,
                vertex_start,
                instances,
            );
            DrawReport { outcome, without_index_buffer: None, zero_instances }
        },
        DrawRecord::Indexed { primitive, index, index_count, base_vertex, instances } => {
            acc.saw_draw = true;
            out.saw_draw = true;
            let mut without_index_buffer: Option<u32> = None;
            if index.buffer_ref == 0 {
                if index_count != 0 {
                    without_index_buffer = Some(
                        match draw_count(index_count) {
                            Some(count) => count,
                            None => u32::MAX,
                        },
                    );
                }
                acc.state.indexed = None;
            } else {
                let Some(narrow) = draw_count(index_count) else {
                    return DrawReport {
                        outcome: DrawOutcome::OutOfRange {
                            field: DrawField::IndexCount,
                            value: index_count,
                        },
                        without_index_buffer: None,
                        zero_instances: false,
                    };
                };
                acc.state.indexed = Some(
                    IndexedDrawInfo {
                        index_type: index.index_type.ordinal(),
                        index_count: narrow,
                        index_buffer_ref: index.buffer_ref,
                        index_buffer_offset: index.offset,
                        base_vertex,
                    },
                );
            }
            let (outcome, zero_instances) = count_draw(acc, primitive, index_count, 0, instances);
            DrawReport { outcome, without_index_buffer, zero_instances }
        },
    }
}

/// A stream that was asked for something it cannot carry records no draw, and
/// keeps every draw that it recorded before.
pub proof fn lemma_a_refused_stream_records_no_draw(
    acc: AccumView,
    out: ExecResultView,
    record: DrawRecord,
)
    requires
        acc.unrepresentable is Some,
    ensures
        draw_step(acc, out, record).0.draws == acc.draws,
        draw_step(acc, out, record).0.unrepresentable == acc.unrepresentable,
{
}

/// A draw that is recorded carries the pipeline and the state that were bound
/// when it came; earlier draws keep theirs.
pub proof fn lemma_a_draw_carries_its_state(acc: AccumView, out: ExecResultView, record: DrawRecord)
    requires
        draw_step(acc, out, record).2.outcome == DrawOutcome::Recorded,
    ensures
        ({
            let after = draw_step(acc, out, record).0;
            &&& after.draws.drop_last() == acc.draws
            &&& after.draws.len() == acc.draws.len() + 1
            &&& after.draws.last().pipeline_ref == acc.pipeline_ref
            &&& after.draws.last().pipeline_ref != 0
            &&& after.draws.last().draw.vertex_count != 0
            &&& after.draws.last().state == after.state
        }),
{
    let after = draw_step(acc, out, record).0;
    assert(after.draws.drop_last() =~= acc.draws);
}

/// Every draw that a stream recorded has a pipeline and draws something.
pub open spec fn draws_something(draws: Seq<PendingView>) -> bool {
    forall|i: int|
        0 <= i < draws.len() ==> (#[trigger] draws[i]).pipeline_ref != 0
            && draws[i].draw.vertex_count != 0
}

/// No draw record adds a draw without a pipeline, or of nothing.
pub proof fn lemma_recorded_draws_draw_something(
    acc: AccumView,
    out: ExecResultView,
    record: DrawRecord,
)
    requires
        draws_something(acc.draws),
    ensures
        draws_something(draw_step(acc, out, record).0.draws),
{
}

/// Whether the last draw of a stream is of these counts and reads these indices,
/// and carries all else that the stream holds.
pub open spec fn drew(
    before: AccumView,
    after: AccumView,
    args: DrawArgs,
    indexed: Option<IndexedDrawInfo>,
) -> bool {
    let draw = after.draws.last();
    &&& after.draws.len() == before.draws.len() + 1
    &&& after.draws.drop_last() == before.draws
    &&& draw.draw == args
    &&& draw.pipeline_ref == before.pipeline_ref
    &&& draw.state.indexed == indexed
    &&& draw.state == (BindStateView { indexed, ..before.state })
}

/// A draw is recorded with the counts and the indices that its record states,
/// under what the stream holds; a count that no draw can have is refused, and
/// one of nothing draws nothing.
#[verifier::spinoff_prover]
pub proof fn lemma_a_draw_is_recorded_as_stated(
    acc: AccumView,
    out: ExecResultView,
    record: DrawRecord,
)
    ensures
        ({
            let (after, result, report) = draw_step(acc, out, record);
            &&& report.outcome is Recorded ==> match record {
                DrawRecord::Primitives { primitive, vertex_start, vertex_count, instances } => {
                    &&& vertex_count <= u32::MAX && vertex_start <= u32::MAX
                    &&& instances.base <= u32::MAX
                    &&& instances.count is Some ==> instances.count->0 <= u32::MAX
                    &&& drew(
                        acc,
                        after,
                        DrawArgs {
                            vertex_count: vertex_count as u32,
                            instance_count: if instances.count is Some {
                                instances.count->0 as u32
                            } else {
                                1
                            },
                            primitive_type: primitive,
                            first_vertex: vertex_start as u32,
                            base_instance: instances.base as u32,
                        },
                        None,
                    )
                },
                DrawRecord::Indexed { primitive, index, index_count, base_vertex, instances } => {
                    &&& index_count <= u32::MAX && instances.base <= u32::MAX
                    &&& instances.count is Some ==> instances.count->0 <= u32::MAX
                    &&& drew(
                        acc,
                        after,
                        DrawArgs {
                            vertex_count: index_count as u32,
                            instance_count: if instances.count is Some {
                                instances.count->0 as u32
                            } else {
                                1
                            },
                            primitive_type: primitive,
                            first_vertex: 0,
                            base_instance: instances.base as u32,
                        },
                        if index.buffer_ref == 0 {
                            None
                        } else {
                            Some(
                                IndexedDrawInfo {
                                    index_type: if index.index_type is Uint16 {
                                        0
                                    } else {
                                        1
                                    },
                                    index_count: index_count as u32,
                                    index_buffer_ref: index.buffer_ref,
                                    index_buffer_offset: index.offset,
                                    base_vertex,
                                },
                            )
                        },
                    )
                },
                DrawRecord::PrimitivesIndirect { counts } => counts is Some && drew(
                    acc,
                    after,
                    counts->0.args,
                    None,
                ),
                DrawRecord::IndexedIndirect { index, counts } => {
                    let size: int = if index.index_type is Uint16 {
                        2
                    } else {
                        4
                    };
                    &&& counts matches Some(counts)
                    &&& after.draws.last().state.indexed matches Some(read)
                    &&& drew(acc, after, counts.args, Some(read))
                    &&& read.index_type == if index.index_type is Uint16 {
                        0u32
                    } else {
                        1u32
                    }
                    &&& read.index_count == counts.args.vertex_count
                    &&& read.index_buffer_ref == index.buffer_ref
                    &&& read.base_vertex == counts.base_vertex
                    &&& index.offset + counts.index_start * size <= u64::MAX
                        ==> read.index_buffer_offset == index.offset + counts.index_start * size
                    &&& index.offset + counts.index_start * size > u64::MAX
                        ==> read.index_buffer_offset == u64::MAX
                },
            }
            &&& !(report.outcome is Recorded) ==> after.draws == acc.draws
            &&& report.outcome is NoPipeline ==> acc.pipeline_ref == 0
            &&& report.outcome matches DrawOutcome::Refused(refused) ==> acc.unrepresentable
                == Some(refused)
            &&& after.pipeline_ref == acc.pipeline_ref
            &&& after.clears == acc.clears && after.color_slots == acc.color_slots
            &&& after.execute_icb == acc.execute_icb
            &&& after.unrepresentable == acc.unrepresentable
            &&& report.outcome is NoPipeline && acc.dropped_no_pipeline < u32::MAX
                ==> after.dropped_no_pipeline == acc.dropped_no_pipeline + 1
            &&& !(report.outcome is NoPipeline) ==> after.dropped_no_pipeline
                == acc.dropped_no_pipeline
            &&& report.outcome is ZeroCount && acc.dropped_zero_count < u32::MAX
                ==> after.dropped_zero_count == acc.dropped_zero_count + 1
            &&& !(report.outcome is ZeroCount) ==> after.dropped_zero_count
                == acc.dropped_zero_count
        }),
{
    let after = draw_step(acc, out, record).0;
    assert(draw_step(acc, out, record).2.outcome is Recorded ==> after.draws.drop_last()
        =~= acc.draws);
}

/// A draw is recorded wherever a pipeline is bound, the stream is not refused,
/// and its counts are such as a draw can have and draw something.
pub proof fn lemma_a_draw_is_owed(acc: AccumView, out: ExecResultView, record: DrawRecord)
    requires
        acc.pipeline_ref != 0,
        acc.unrepresentable is None,
    ensures
        match record {
            DrawRecord::Primitives { primitive, vertex_start, vertex_count, instances } => 0
                < vertex_count <= u32::MAX && vertex_start <= u32::MAX && instances.base
                <= u32::MAX && (instances.count is Some ==> instances.count->0 <= u32::MAX)
                <==> draw_step(acc, out, record).2.outcome is Recorded,
            DrawRecord::Indexed { primitive, index, index_count, base_vertex, instances } => 0
                < index_count <= u32::MAX && instances.base <= u32::MAX && (
            instances.count is Some ==> instances.count->0 <= u32::MAX) <==> draw_step(
                acc,
                out,
                record,
            ).2.outcome is Recorded,
            DrawRecord::PrimitivesIndirect { counts } => counts is Some
                && counts->0.args.vertex_count != 0 <==> draw_step(
                acc,
                out,
                record,
            ).2.outcome is Recorded,
            DrawRecord::IndexedIndirect { index, counts } => counts is Some
                && counts->0.args.vertex_count != 0 <==> draw_step(
                acc,
                out,
                record,
            ).2.outcome is Recorded,
        },
{
}

} // verus!
