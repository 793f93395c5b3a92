//! Submissions: how one is read out of its packet, and what it holds.

use vstd::prelude::*;

use crate::census::{note_command_stream_count, stream_count_route};
use crate::draw_request::{load_word, word_at};
use crate::exec_result::{counted, nothing_done, ExecResult, ExecResultView};
use crate::executor::{ResourceValidity, SubmissionResourceUse};
use crate::tables::{answer_copied, answer_of, reversed};

verus! {

/// Where a packet keeps what it says. Offsets and lengths are in bytes.
#[derive(Clone, Copy, Debug, PartialEq, Eq, Structural)]
pub struct ExecIndirectLayout {
    pub header_len: u32,
    pub task_id: u32,
    pub resource_count: u32,
    pub cmdbuf_count: u32,
    pub resource_desc_len: u32,
    pub cmdbuf_desc_len: u32,
    /// Where a command buffer's address stands in its descriptor.
    pub cmdbuf_gva: u32,
    /// Where a command buffer's length stands in its descriptor.
    pub cmdbuf_length: u32,
}

impl ExecIndirectLayout {
    /// Whether the header and a descriptor hold what they are said to.
    pub open spec fn wf(self) -> bool {
        &&& self.header_len <= 0x1_0000
        &&& self.resource_desc_len <= 0x1_0000
        &&& self.cmdbuf_desc_len <= 0x1_0000
        &&& self.task_id + 4 <= self.header_len
        &&& self.resource_count + 4 <= self.header_len
        &&& self.cmdbuf_count + 4 <= self.header_len
        &&& self.cmdbuf_gva + 8 <= self.cmdbuf_desc_len
        &&& self.cmdbuf_length + 8 <= self.cmdbuf_desc_len
    }
}

/// A word of eight bytes, the least first.
pub open spec fn long_at(bytes: Seq<u8>, at: int) -> u64 {
    word_at(bytes, at) as u64 | (word_at(bytes, at + 4) as u64) << 32
}

fn load_long(bytes: &Vec<u8>, at: usize) -> (long: u64)
    requires
        at + 8 <= bytes@.len(),
    ensures
        long == long_at(bytes@, at as int),
{
    let len: usize = bytes.len();
    assert(at + 8 <= len);
    load_word(bytes, at) as u64 | (load_word(bytes, at + 4) as u64) << 32
}

/// What a packet's header says.
#[derive(Clone, Copy, Debug, PartialEq, Eq, Structural)]
pub struct ExecHeader {
    pub task_id: u32,
    pub resource_count: u32,
    pub cmdbuf_count: u32,
    /// Where the command buffer descriptors start.
    pub cmdbufs_at: u64,
}

/// Why a packet is no submission.
#[derive(Clone, Copy, Debug, PartialEq, Eq, Structural)]
pub enum ExecRefusal {
    /// The packet is shorter than a header.
    ShortHeader,
    /// No task is live under the word that the packet names.
    NoSuchTask { raw_task: u32 },
    /// The packet is shorter than the tables that it declares.
    ShortPayload { task_id: u32, need: u64 },
    /// The packet has no command buffer.
    ZeroCommandBuffers { task_id: u32 },
}

/// Where a packet's command buffer descriptors start.
pub open spec fn cmdbufs_start(layout: ExecIndirectLayout, payload: Seq<u8>) -> int {
    layout.header_len + word_at(payload, layout.resource_count as int) * layout.resource_desc_len
}

/// How long a packet has to be for the tables that it declares.
pub open spec fn payload_need(layout: ExecIndirectLayout, payload: Seq<u8>) -> int {
    cmdbufs_start(layout, payload) + word_at(payload, layout.cmdbuf_count as int)
        * layout.cmdbuf_desc_len
}

/// What a packet's header says, given which task each word names.
pub open spec fn header_of(
    layout: ExecIndirectLayout,
    payload: Seq<u8>,
    tasks: Seq<(u32, u32)>,
) -> Result<ExecHeader, ExecRefusal> {
    if payload.len() < layout.header_len {
        Err(ExecRefusal::ShortHeader)
    } else {
        let raw_task = word_at(payload, layout.task_id as int);
        match answer_of(tasks, raw_task) {
            None => Err(ExecRefusal::NoSuchTask { raw_task }),
            Some(task_id) => if payload_need(layout, payload) > payload.len() {
                Err(
                    ExecRefusal::ShortPayload { task_id, need: payload_need(layout, payload) as u64 },
                )
            } else if word_at(payload, layout.cmdbuf_count as int) == 0 {
                Err(ExecRefusal::ZeroCommandBuffers { task_id })
            } else {
                Ok(
                    ExecHeader {
                        task_id,
                        resource_count: word_at(payload, layout.resource_count as int),
                        cmdbuf_count: word_at(payload, layout.cmdbuf_count as int),
                        cmdbufs_at: cmdbufs_start(layout, payload) as u64,
                    },
                )
            },
        }
    }
}

/// Reads a packet's header.
pub fn read_header(
    layout: &ExecIndirectLayout,
    payload: &Vec<u8>,
    tasks: &Vec<(u32, u32)>,
) -> (result: Result<ExecHeader, ExecRefusal>)
    requires
        layout.wf(),
    ensures
        result == header_of(*layout, payload@, tasks@),
{
    let len: usize = payload.len();
    if len < layout.header_len as usize {
        return Err(ExecRefusal::ShortHeader);
    }
    let raw_task = load_word(payload, layout.task_id as usize);
    let Some(task_id) = answer_copied(tasks, raw_task) else {
        return Err(ExecRefusal::NoSuchTask { raw_task });
    };
    let resource_count = load_word(payload, layout.resource_count as usize);
    let cmdbuf_count = load_word(payload, layout.cmdbuf_count as usize);
    assert(resource_count * layout.resource_desc_len <= 0xffff_ffff * 0x1_0000) by (nonlinear_arith)
        requires
            resource_count <= 0xffff_ffff,
            layout.resource_desc_len <= 0x1_0000,
    ;
    assert(cmdbuf_count * layout.cmdbuf_desc_len <= 0xffff_ffff * 0x1_0000) by (nonlinear_arith)
        requires
            cmdbuf_count <= 0xffff_ffff,
            layout.cmdbuf_desc_len <= 0x1_0000,
    ;
    let cmdbufs_at: u64 = layout.header_len as u64 + resource_count as u64
        * layout.resource_desc_len as u64;
    let need: u64 = cmdbufs_at + cmdbuf_count as u64 * layout.cmdbuf_desc_len as u64;
    if need > len as u64 {
        return Err(ExecRefusal::ShortPayload { task_id, need });
    }
    if cmdbuf_count == 0 {
        return Err(ExecRefusal::ZeroCommandBuffers { task_id });
    }
    Ok(ExecHeader { task_id, resource_count, cmdbuf_count, cmdbufs_at })
}

/// A command buffer: where in its task's memory it is, and how long.
#[derive(Clone, Copy, Debug, PartialEq, Eq, Structural)]
pub struct CommandBuffer {
    pub gva: u64,
    pub length: u64,
}

/// A packet's command buffer.
pub open spec fn buffer_at(layout: ExecIndirectLayout, payload: Seq<u8>, index: int)
    -> CommandBuffer {
    let at = cmdbufs_start(layout, payload) + index * layout.cmdbuf_desc_len;
    CommandBuffer {
        gva: long_at(payload, at + layout.cmdbuf_gva),
        length: long_at(payload, at + layout.cmdbuf_length),
    }
}

/// Every command buffer that a packet declares.
pub open spec fn buffers_of(layout: ExecIndirectLayout, payload: Seq<u8>) -> Seq<CommandBuffer> {
    Seq::new(
        word_at(payload, layout.cmdbuf_count as int) as nat,
        |i: int| buffer_at(layout, payload, i),
    )
}

/// Reads every command buffer that a packet declares.
pub fn read_command_buffers(
    layout: &ExecIndirectLayout,
    payload: &Vec<u8>,
    header: &ExecHeader,
    tasks: &Vec<(u32, u32)>,
) -> (buffers: Vec<CommandBuffer>)
    requires
        layout.wf(),
        header_of(*layout, payload@, tasks@) == Ok::<ExecHeader, ExecRefusal>(*header),
    ensures
        buffers@ == buffers_of(*layout, payload@),
{
    let len: usize = payload.len();
    let step: usize = layout.cmdbuf_desc_len as usize;
    let mut buffers: Vec<CommandBuffer> = Vec::new();
    let mut at: usize = header.cmdbufs_at as usize;
    let mut i: u32 = 0;
    assert(0 * layout.cmdbuf_desc_len == 0);
    while i < header.cmdbuf_count
        invariant
            layout.wf(),
            len == payload@.len(),
            step == layout.cmdbuf_desc_len,
            header.cmdbuf_count == word_at(payload@, layout.cmdbuf_count as int),
            payload_need(*layout, payload@) <= payload@.len(),
            i <= header.cmdbuf_count,
            at == cmdbufs_start(*layout, payload@) + i * layout.cmdbuf_desc_len,
            buffers@.len() == i,
            forall|j: int| 0 <= j < i ==> #[trigger] buffers@[j] == buffer_at(*layout, payload@, j),
        decreases header.cmdbuf_count - i,
    {
        assert((i + 1) * layout.cmdbuf_desc_len <= header.cmdbuf_count * layout.cmdbuf_desc_len)
            by (nonlinear_arith)
            requires
                i + 1 <= header.cmdbuf_count,
                layout.cmdbuf_desc_len >= 0,
        ;
        assert((i + 1) * layout.cmdbuf_desc_len == i * layout.cmdbuf_desc_len
            + layout.cmdbuf_desc_len) by (nonlinear_arith);
        let gva = load_long(payload, at + layout.cmdbuf_gva as usize);
        let length = load_long(payload, at + layout.cmdbuf_length as usize);
        buffers.push(CommandBuffer { gva, length });
        at += step;
        i += 1;
    }
    assert(buffers@ =~= buffers_of(*layout, payload@));
    buffers
}

/// Why a command buffer is skipped.
#[derive(Clone, Copy, Debug, PartialEq, Eq, Structural)]
pub enum StreamSkip {
    /// It holds nothing.
    Empty { index: usize },
    /// It is longer than the host can hold.
    Unaddressable { index: usize },
    /// Its memory cannot be read.
    Unread { index: usize },
}

/// Why a command buffer is skipped, given how much the host can hold and what
/// reading it gave.
pub open spec fn skip_of(
    index: int,
    buffer: CommandBuffer,
    addressable: u64,
    read: Option<Vec<u8>>,
) -> Option<StreamSkip> {
    if buffer.length == 0 {
        Some(StreamSkip::Empty { index: index as usize })
    } else if buffer.length > addressable {
        Some(StreamSkip::Unaddressable { index: index as usize })
    } else if read is None {
        Some(StreamSkip::Unread { index: index as usize })
    } else {
        None
    }
}

/// The command streams that a packet's buffers give, in order: one that cannot
/// be read is skipped, and those after it are not.
pub open spec fn streams_of(
    buffers: Seq<CommandBuffer>,
    addressable: u64,
    reads: Seq<Option<Vec<u8>>>,
    count: int,
) -> Seq<Vec<u8>>
    decreases count,
{
    if count <= 0 {
        Seq::empty()
    } else {
        let earlier = streams_of(buffers, addressable, reads, count - 1);
        match (
            skip_of(count - 1, buffers[count - 1], addressable, reads[count - 1]),
            reads[count - 1],
        ) {
            (None, Some(stream)) => earlier.push(stream),
            _ => earlier,
        }
    }
}

/// The command buffers that are skipped, in order.
pub open spec fn skips_of(
    buffers: Seq<CommandBuffer>,
    addressable: u64,
    reads: Seq<Option<Vec<u8>>>,
    count: int,
) -> Seq<StreamSkip>
    decreases count,
{
    if count <= 0 {
        Seq::empty()
    } else {
        let earlier = skips_of(buffers, addressable, reads, count - 1);
        match skip_of(count - 1, buffers[count - 1], addressable, reads[count - 1]) {
            Some(skip) => earlier.push(skip),
            None => earlier,
        }
    }
}

/// The lengths that the loaded command buffers declare, in order.
pub open spec fn loaded_lengths(
    buffers: Seq<CommandBuffer>,
    addressable: u64,
    reads: Seq<Option<Vec<u8>>>,
    count: int,
) -> Seq<u64>
    decreases count,
{
    if count <= 0 {
        Seq::empty()
    } else {
        let earlier = loaded_lengths(buffers, addressable, reads, count - 1);
        match skip_of(count - 1, buffers[count - 1], addressable, reads[count - 1]) {
            Some(_) => earlier,
            None => earlier.push(buffers[count - 1].length),
        }
    }
}

/// Whether every read that succeeded gave as much as its buffer declares.
pub open spec fn reads_are_whole(buffers: Seq<CommandBuffer>, reads: Seq<Option<Vec<u8>>>) -> bool {
    forall|i: int|
        0 <= i < reads.len() && i < buffers.len() ==> match #[trigger] reads[i] {
            Some(stream) => stream@.len() == buffers[i].length,
            None => true,
        }
}

/// Whether streams have these lengths.
pub open spec fn have_lengths(streams: Seq<Vec<u8>>, lengths: Seq<u64>) -> bool {
    &&& streams.len() == lengths.len()
    &&& forall|i: int|
        0 <= i < streams.len() ==> (#[trigger] streams[i])@.len() == lengths[i]
}

/// Where every read that succeeded gave what its buffer declares, every stream
/// is as long as its buffer.
pub proof fn lemma_streams_have_their_declared_lengths(
    buffers: Seq<CommandBuffer>,
    addressable: u64,
    reads: Seq<Option<Vec<u8>>>,
    count: int,
)
    requires
        0 <= count <= buffers.len(),
        count <= reads.len(),
        reads_are_whole(buffers, reads),
    ensures
        have_lengths(
            streams_of(buffers, addressable, reads, count),
            loaded_lengths(buffers, addressable, reads, count),
        ),
    decreases count,
{
    if count > 0 {
        lemma_streams_have_their_declared_lengths(buffers, addressable, reads, count - 1);
        assert(match reads[count - 1] {
            Some(stream) => stream@.len() == buffers[count - 1].length,
            None => true,
        });
    }
}

/// Takes the command streams out of what reading the buffers gave.
pub fn load_command_streams(
    buffers: &Vec<CommandBuffer>,
    addressable: u64,
    reads: Vec<Option<Vec<u8>>>,
) -> (loaded: (Vec<Vec<u8>>, Vec<StreamSkip>))
    requires
        reads@.len() == buffers@.len(),
    ensures
        loaded.0@ == streams_of(buffers@, addressable, reads@, buffers@.len() as int),
        loaded.1@ == skips_of(buffers@, addressable, reads@, buffers@.len() as int),
        reads_are_whole(buffers@, reads@) ==> have_lengths(
            loaded.0@,
            loaded_lengths(buffers@, addressable, reads@, buffers@.len() as int),
        ),
{
    let ghost all = reads@;
    let mut rest = reversed(reads);
    let mut streams: Vec<Vec<u8>> = Vec::new();
    let mut skips: Vec<StreamSkip> = Vec::new();
    let count: usize = buffers.len();
    let mut index: usize = 0;
    assert(all.skip(0) =~= all);
    while rest.len() > 0
        invariant
            all == reads@,
            all.len() == buffers@.len(),
            count == buffers@.len(),
            index <= all.len(),
            rest@ == all.skip(index as int).reverse(),
            streams@ == streams_of(buffers@, addressable, all, index as int),
            skips@ == skips_of(buffers@, addressable, all, index as int),
        decreases rest.len(),
    {
        if let Some(read) = rest.pop() {
            assert(read == all[index as int]);
            assert(rest@ =~= all.skip(index as int + 1).reverse());
            let buffer = buffers[index];
            if buffer.length == 0 {
                skips.push(StreamSkip::Empty { index });
            } else if buffer.length > addressable {
                skips.push(StreamSkip::Unaddressable { index });
            } else {
                match read {
                    Some(stream) => streams.push(stream),
                    None => skips.push(StreamSkip::Unread { index }),
                }
            }
            index += 1;
        }
    }
    proof {
        if reads_are_whole(buffers@, all) {
            lemma_streams_have_their_declared_lengths(
                buffers@,
                addressable,
                all,
                buffers@.len() as int,
            );
        }
    }
    (streams, skips)
}

/// Every command buffer is either loaded or skipped with a reason: none is lost
/// in silence.
pub proof fn lemma_every_buffer_is_accounted_for(
    buffers: Seq<CommandBuffer>,
    addressable: u64,
    reads: Seq<Option<Vec<u8>>>,
    count: int,
)
    requires
        0 <= count <= buffers.len(),
    ensures
        streams_of(buffers, addressable, reads, count).len() + skips_of(
            buffers,
            addressable,
            reads,
            count,
        ).len() == count,
    decreases count,
{
    if count > 0 {
        lemma_every_buffer_is_accounted_for(buffers, addressable, reads, count - 1);
    }
}

/// What a submission says of a resource that it touches.
#[derive(Clone, Copy, Debug, PartialEq, Eq, Structural)]
pub struct ExecResourceDesc {
    pub object_id: u32,
    /// Who owns the resource's bytes afterwards.
    pub ops: ResourceValidity,
    /// How many bytes are set that mean nothing yet.
    pub tail_nonzero_bytes: u32,
}

/// A packet that has been read.
#[derive(Debug, PartialEq, Eq)]
pub struct ExecSubmission {
    task_id: u32,
    resource_descs: Vec<ExecResourceDesc>,
    streams: Vec<Vec<u8>>,
}

/// What contracts say of a submission.
#[verifier::ext_equal]
pub struct SubmissionView {
    pub task_id: u32,
    pub resource_descs: Seq<ExecResourceDesc>,
    pub streams: Seq<Vec<u8>>,
}

impl View for ExecSubmission {
    type V = SubmissionView;

    closed spec fn view(&self) -> SubmissionView {
        SubmissionView {
            task_id: self.task_id,
            resource_descs: self.resource_descs@,
            streams: self.streams@,
        }
    }
}

/// Who owns the bytes of each resource afterwards.
pub open spec fn uses_of(descs: Seq<ExecResourceDesc>) -> Seq<SubmissionResourceUse> {
    Seq::new(
        descs.len(),
        |i: int| SubmissionResourceUse { object: descs[i].object_id, validity: descs[i].ops },
    )
}

/// How many bytes streams hold.
pub open spec fn bytes_held(streams: Seq<Vec<u8>>) -> nat
    decreases streams.len(),
{
    if streams.len() == 0 {
        0
    } else {
        bytes_held(streams.drop_last()) + streams.last()@.len()
    }
}

proof fn lemma_bytes_held_grow(streams: Seq<Vec<u8>>, at: int)
    requires
        0 <= at <= streams.len(),
    ensures
        bytes_held(streams.take(at)) <= bytes_held(streams),
    decreases streams.len() - at,
{
    if at == streams.len() {
        assert(streams.take(at) =~= streams);
    } else {
        lemma_bytes_held_grow(streams, at + 1);
        assert(streams.take(at + 1).drop_last() =~= streams.take(at));
    }
}

impl ExecSubmission {
    /// The task whose objects the streams name.
    #[must_use]
    pub fn task_id(&self) -> (task_id: u32)
        ensures
            task_id == self@.task_id,
    {
        self.task_id
    }

    /// The command streams, in the order of the packet.
    #[must_use]
    pub fn streams(&self) -> (streams: &Vec<Vec<u8>>)
        ensures
            streams@ == self@.streams,
    {
        &self.streams
    }

    /// What the submission says of the resources that it touches.
    #[must_use]
    pub fn resource_descs(&self) -> (descs: &Vec<ExecResourceDesc>)
        ensures
            descs@ == self@.resource_descs,
    {
        &self.resource_descs
    }

    /// What is to be applied before any of the submission runs: who owns the
    /// bytes of each resource afterwards, in the order of the packet.
    #[must_use]
    pub fn resource_uses(&self) -> (uses: Vec<SubmissionResourceUse>)
        ensures
            uses@ == uses_of(self@.resource_descs),
    {
        let mut uses: Vec<SubmissionResourceUse> = Vec::new();
        let mut i: usize = 0;
        while i < self.resource_descs.len()
            invariant
                i <= self.resource_descs@.len(),
                uses@ == uses_of(self.resource_descs@.take(i as int)),
            decreases self.resource_descs.len() - i,
        {
            let desc = self.resource_descs[i];
            uses.push(SubmissionResourceUse { object: desc.object_id, validity: desc.ops });
            i += 1;
            assert(uses@ =~= uses_of(self.resource_descs@.take(i as int)));
        }
        assert(self.resource_descs@.take(i as int) =~= self.resource_descs@);
        uses
    }

    /// A submission of these streams, which touches no resource.
    pub fn stated(task_id: u32, streams: Vec<Vec<u8>>) -> (submission: ExecSubmission)
        ensures
            submission@ == (SubmissionView {
                task_id,
                resource_descs: Seq::empty(),
                streams: streams@,
            }),
    {
        let resource_descs: Vec<ExecResourceDesc> = Vec::new();
        assert(resource_descs@ =~= Seq::empty());
        ExecSubmission { task_id, resource_descs, streams }
    }

    /// How many bytes the submission holds on to: its streams, beside which the
    /// rest is small.
    #[must_use]
    pub fn retained_bytes(&self) -> (bytes: usize)
        requires
            bytes_held(self@.streams) <= usize::MAX,
        ensures
            bytes == bytes_held(self@.streams),
    {
        let mut bytes: usize = 0;
        let mut i: usize = 0;
        assert(self.streams@.take(0) =~= Seq::empty());
        while i < self.streams.len()
            invariant
                i <= self.streams@.len(),
                bytes_held(self.streams@) <= usize::MAX,
                bytes == bytes_held(self.streams@.take(i as int)),
            decreases self.streams.len() - i,
        {
            proof {
                lemma_bytes_held_grow(self.streams@, i as int + 1);
                assert(self.streams@.take(i as int + 1).drop_last() =~= self.streams@.take(
                    i as int,
                ));
            }
            bytes += self.streams[i].len();
            i += 1;
        }
        assert(self.streams@.take(i as int) =~= self.streams@);
        bytes
    }
}

/// What reading a packet gave, beside its own bytes.
#[derive(Debug, PartialEq, Eq)]
pub struct PacketReads {
    /// The packet's resource table; none where it does not decode.
    pub resource_descs: Option<Vec<ExecResourceDesc>>,
    /// The longest stream that the host can hold.
    pub addressable: u64,
    /// The memory of each command buffer; none where it cannot be read.
    pub streams: Vec<Option<Vec<u8>>>,
}

/// Whether reading a packet gave one answer for each of its command buffers.
pub open spec fn reads_answer(
    layout: ExecIndirectLayout,
    payload: Seq<u8>,
    tasks: Seq<(u32, u32)>,
    reads: PacketReads,
) -> bool {
    header_of(layout, payload, tasks) is Ok ==> reads.streams@.len() == buffers_of(
        layout,
        payload,
    ).len()
}

/// The submission that a packet is. A resource table that does not decode
/// counts as one that is empty.
pub open spec fn submission_of(
    layout: ExecIndirectLayout,
    payload: Seq<u8>,
    tasks: Seq<(u32, u32)>,
    reads: PacketReads,
) -> Result<SubmissionView, ExecRefusal> {
    match header_of(layout, payload, tasks) {
        Err(refusal) => Err(refusal),
        Ok(header) => Ok(
            SubmissionView {
                task_id: header.task_id,
                resource_descs: match reads.resource_descs {
                    Some(descs) => descs@,
                    None => Seq::empty(),
                },
                streams: streams_of(
                    buffers_of(layout, payload),
                    reads.addressable,
                    reads.streams@,
                    buffers_of(layout, payload).len() as int,
                ),
            },
        ),
    }
}

/// The result of a submission once its packet has been read.
pub open spec fn result_after_read(
    out: ExecResultView,
    submission: Result<SubmissionView, ExecRefusal>,
) -> ExecResultView {
    match submission {
        Ok(submission) => ExecResultView {
            task_id: submission.task_id,
            streams_loaded: counted(
                out.streams_loaded,
                if submission.streams.len() <= u32::MAX {
                    submission.streams.len() as u32
                } else {
                    u32::MAX
                },
            ),
            ..out
        },
        Err(ExecRefusal::ShortHeader) => out,
        Err(ExecRefusal::NoSuchTask { raw_task }) => ExecResultView { task_id: raw_task, ..out },
        Err(ExecRefusal::ShortPayload { task_id, .. }) => ExecResultView { task_id, ..out },
        Err(ExecRefusal::ZeroCommandBuffers { task_id }) => ExecResultView { task_id, ..out },
    }
}

/// What is reported of a packet that was read.
#[derive(Debug, PartialEq, Eq)]
pub struct ReadReport {
    /// The command buffers that were skipped, in order.
    pub skips: Vec<StreamSkip>,
    /// Whether the resource table did not decode.
    pub table_undecoded: bool,
    /// The name for how many streams were loaded.
    pub stream_route: &'static str,
}

/// What contracts say of such a report.
#[verifier::ext_equal]
pub struct ReadReportView {
    pub skips: Seq<StreamSkip>,
    pub table_undecoded: bool,
    pub stream_route: Seq<char>,
}

impl View for ReadReport {
    type V = ReadReportView;

    open spec fn view(&self) -> ReadReportView {
        ReadReportView {
            skips: self.skips@,
            table_undecoded: self.table_undecoded,
            stream_route: self.stream_route@,
        }
    }
}

/// What is reported of a packet, or why it is none.
pub open spec fn report_of(
    layout: ExecIndirectLayout,
    payload: Seq<u8>,
    tasks: Seq<(u32, u32)>,
    reads: PacketReads,
) -> Result<ReadReportView, ExecRefusal> {
    let buffers = buffers_of(layout, payload);
    match submission_of(layout, payload, tasks, reads) {
        Err(refusal) => Err(refusal),
        Ok(submission) => Ok(
            ReadReportView {
                skips: skips_of(
                    buffers,
                    reads.addressable,
                    reads.streams@,
                    buffers.len() as int,
                ),
                table_undecoded: reads.resource_descs is None,
                stream_route: stream_count_route(submission.streams.len()),
            },
        ),
    }
}

/// Whether the streams of a submission are as long as its packet declares them.
pub open spec fn streams_are_whole(
    layout: ExecIndirectLayout,
    payload: Seq<u8>,
    reads: PacketReads,
    submission: SubmissionView,
) -> bool {
    let buffers = buffers_of(layout, payload);
    reads_are_whole(buffers, reads.streams@) ==> have_lengths(
        submission.streams,
        loaded_lengths(buffers, reads.addressable, reads.streams@, buffers.len() as int),
    )
}

/// Reads a packet, given what its command buffers' memory holds. The submission
/// comes with what is to be reported of it.
pub fn read_submission(
    layout: &ExecIndirectLayout,
    payload: &Vec<u8>,
    tasks: &Vec<(u32, u32)>,
    reads: PacketReads,
    out: &mut ExecResult,
) -> (result: Result<(ExecSubmission, ReadReport), ExecRefusal>)
    requires
        layout.wf(),
        reads_answer(*layout, payload@, tasks@, reads),
    ensures
        match result {
            Ok((submission, report)) => {
                &&& submission_of(*layout, payload@, tasks@, reads) == Ok::<
                    SubmissionView,
                    ExecRefusal,
                >(submission@)
                &&& report_of(*layout, payload@, tasks@, reads) == Ok::<
                    ReadReportView,
                    ExecRefusal,
                >(report@)
                &&& streams_are_whole(*layout, payload@, reads, submission@)
            },
            Err(refusal) => submission_of(*layout, payload@, tasks@, reads) == Err::<
                SubmissionView,
                ExecRefusal,
            >(refusal),
        },
        final(out)@ == result_after_read(
            old(out)@,
            submission_of(*layout, payload@, tasks@, reads),
        ),
{
    let header = match read_header(layout, payload, tasks) {
        Ok(header) => header,
        Err(refusal) => {
            match refusal {
                ExecRefusal::ShortHeader => {},
                ExecRefusal::NoSuchTask { raw_task } => {
                    out.task_id = raw_task;
                },
                ExecRefusal::ShortPayload { task_id, .. } => {
                    out.task_id = task_id;
                },
                ExecRefusal::ZeroCommandBuffers { task_id } => {
                    out.task_id = task_id;
                },
            }
            return Err(refusal);
        },
    };
    out.task_id = header.task_id;
    let buffers = read_command_buffers(layout, payload, &header, tasks);
    let table_undecoded = reads.resource_descs.is_none();
    let resource_descs = match reads.resource_descs {
        Some(descs) => descs,
        None => {
            let none: Vec<ExecResourceDesc> = Vec::new();
            assert(none@ =~= Seq::empty());
            none
        },
    };
    let (streams, skips) = load_command_streams(&buffers, reads.addressable, reads.streams);
    let loaded: u32 = if streams.len() as u64 <= u32::MAX as u64 {
        streams.len() as u32
    } else {
        u32::MAX
    };
    out.streams_loaded = out.streams_loaded.saturating_add(loaded);
    let report = ReadReport {
        skips,
        table_undecoded,
        stream_route: note_command_stream_count(streams.len()),
    };
    Ok((ExecSubmission { task_id: header.task_id, resource_descs, streams }, report))
}

/// The view of what is reported of a packet.
pub open spec fn report_result(result: Result<ReadReport, ExecRefusal>) -> Result<
    ReadReportView,
    ExecRefusal,
> {
    match result {
        Ok(report) => Ok(report@),
        Err(refusal) => Err(refusal),
    }
}

/// Reads a packet and nothing more. The last part is what is to be reported:
/// why the packet is no submission, or what of it was skipped.
#[must_use]
pub fn read_exec_submission(
    layout: &ExecIndirectLayout,
    payload: &Vec<u8>,
    tasks: &Vec<(u32, u32)>,
    reads: PacketReads,
) -> (read: (Option<ExecSubmission>, ExecResult, Result<ReadReport, ExecRefusal>))
    requires
        layout.wf(),
        reads_answer(*layout, payload@, tasks@, reads),
    ensures
        match (read.0, submission_of(*layout, payload@, tasks@, reads)) {
            (Some(submission), Ok(view)) => {
                &&& submission@ == view
                &&& streams_are_whole(*layout, payload@, reads, submission@)
            },
            (None, Err(_)) => true,
            _ => false,
        },
        read.1@ == result_after_read(
            nothing_done(),
            submission_of(*layout, payload@, tasks@, reads),
        ),
        report_result(read.2) == report_of(*layout, payload@, tasks@, reads),
{
    let mut out = ExecResult::default();
    match read_submission(layout, payload, tasks, reads, &mut out) {
        Ok((submission, report)) => (Some(submission), out, Ok(report)),
        Err(refusal) => (None, out, Err(refusal)),
    }
}

/// What applying a resource's validity came to.
#[derive(Clone, Copy, Debug, PartialEq, Eq, Structural)]
pub struct ValidityOutcome {
    /// Whether there was nothing to apply it to.
    pub missed: bool,
    /// Whether the object is known to its task.
    pub known: bool,
}

/// What is reported of a resource table.
#[derive(Clone, Copy, Debug, PartialEq, Eq, Structural)]
pub struct ResourceTableReport {
    /// Resources that are known and have no surface.
    pub no_surface: u32,
    /// Resources that are not known.
    pub unknown: u32,
    /// The first resource that sets bytes that mean nothing yet.
    pub tail_populated: Option<ExecResourceDesc>,
}

/// What a resource table can say that nothing acts on.
#[derive(Clone, Copy, Debug, PartialEq, Eq, Structural)]
pub enum ResourceTableDecline {
    /// A resource sets bytes that mean nothing yet.
    TailPopulated,
}

impl ResourceTableDecline {
    /// The name under which the loss is reported.
    pub fn slug(&self) -> (slug: &'static str)
        ensures
            slug@ == "exec_res_tail_populated"@,
    {
        match self {
            ResourceTableDecline::TailPopulated => "exec_res_tail_populated",
        }
    }
}

/// The first resource that sets bytes that mean nothing yet.
pub open spec fn first_populated(descs: Seq<ExecResourceDesc>) -> Option<ExecResourceDesc>
    decreases descs.len(),
{
    if descs.len() == 0 {
        None
    } else {
        match first_populated(descs.drop_last()) {
            Some(desc) => Some(desc),
            None => if descs.last().tail_nonzero_bytes > 0 {
                Some(descs.last())
            } else {
                None
            },
        }
    }
}

/// How many resources of a table miss, known or not.
pub open spec fn missed(outcomes: Seq<ValidityOutcome>, known: bool) -> nat
    decreases outcomes.len(),
{
    if outcomes.len() == 0 {
        0
    } else {
        missed(outcomes.drop_last(), known) + if outcomes.last().missed && outcomes.last().known
            == known {
            1nat
        } else {
            0nat
        }
    }
}

/// A count at the width of a counter.
pub open spec fn capped(count: nat) -> u32 {
    if count <= u32::MAX {
        count as u32
    } else {
        u32::MAX
    }
}

/// Counts the resources of a table that had nothing to apply to: those that are
/// known, and those that are not.
pub fn consume_resource_table(descs: &Vec<ExecResourceDesc>, outcomes: &Vec<ValidityOutcome>) -> (
    report: ResourceTableReport)
    requires
        descs@.len() == outcomes@.len(),
    ensures
        report.no_surface == capped(missed(outcomes@, true)),
        report.unknown == capped(missed(outcomes@, false)),
        report.tail_populated == first_populated(descs@),
{
    let mut no_surface: u32 = 0;
    let mut unknown: u32 = 0;
    let mut tail_populated: Option<ExecResourceDesc> = None;
    let mut i: usize = 0;
    assert(outcomes@.take(0) =~= Seq::empty());
    assert(descs@.take(0) =~= Seq::empty());
    while i < descs.len()
        invariant
            i <= descs@.len(),
            descs@.len() == outcomes@.len(),
            no_surface == capped(missed(outcomes@.take(i as int), true)),
            unknown == capped(missed(outcomes@.take(i as int), false)),
            tail_populated == first_populated(descs@.take(i as int)),
        decreases descs.len() - i,
    {
        assert(outcomes@.take(i as int + 1).drop_last() =~= outcomes@.take(i as int));
        assert(descs@.take(i as int + 1).drop_last() =~= descs@.take(i as int));
        if tail_populated.is_none() && descs[i].tail_nonzero_bytes > 0 {
            tail_populated = Some(descs[i]);
        }
        let outcome = outcomes[i];
        if outcome.missed {
            if outcome.known {
                no_surface = no_surface.saturating_add(1);
            } else {
                unknown = unknown.saturating_add(1);
            }
        }
        i += 1;
    }
    assert(outcomes@.take(i as int) =~= outcomes@);
    assert(descs@.take(i as int) =~= descs@);
    ResourceTableReport { no_surface, unknown, tail_populated }
}

/// The time of a call that none of its measured parts took.
pub fn note_exec_header(total_ns: u64, measured_ns: u64) -> (header_ns: u64)
    ensures
        header_ns == if total_ns >= measured_ns {
            (total_ns - measured_ns) as u64
        } else {
            0
        },
{
    total_ns.saturating_sub(measured_ns)
}

/// A time in microseconds, at the width of a result.
pub fn elapsed_us(micros: u128) -> (elapsed: u64)
    ensures
        elapsed == if micros <= u64::MAX {
            micros as u64
        } else {
            u64::MAX
        },
{
    if micros <= u64::MAX as u128 {
        micros as u64
    } else {
        u64::MAX
    }
}

/// The result of a submission that has been run, with the time it took. One
/// that is to be tried again has none yet.
pub fn close_planned(out: &mut ExecResult, micros: u128)
    ensures
        final(out)@ == if old(out)@.deferred {
            old(out)@
        } else {
            ExecResultView {
                total_us: if micros <= u64::MAX {
                    micros as u64
                } else {
                    u64::MAX
                },
                ..old(out)@
            }
        },
{
    if !out.deferred {
        out.total_us = elapsed_us(micros);
    }
}

/// A word is its four bytes, the least first, and a long its two words.
pub proof fn lemma_the_least_byte_comes_first(bytes: Seq<u8>, at: int)
    ensures
        word_at(bytes, at) == bytes[at] + 0x100 * bytes[at + 1] + 0x1_0000 * bytes[at + 2]
            + 0x100_0000 * bytes[at + 3],
        long_at(bytes, at) == word_at(bytes, at) + 0x1_0000_0000 * word_at(bytes, at + 4),
{
    let (a, b, c, d) = (bytes[at], bytes[at + 1], bytes[at + 2], bytes[at + 3]);
    assert((a as u32 | (b as u32) << 8 | (c as u32) << 16 | (d as u32) << 24) == (a as u32)
        + 0x100u32 * (b as u32) + 0x1_0000u32 * (c as u32) + 0x100_0000u32 * (d as u32))
        by (bit_vector);
    let (low, high) = (word_at(bytes, at), word_at(bytes, at + 4));
    assert((low as u64 | (high as u64) << 32) == (low as u64) + 0x1_0000_0000u64 * (high as u64))
        by (bit_vector);
}

/// A header says what its packet's words say, each at its own place, of the task
/// that its task word names; the tables that it declares lie within the packet,
/// one behind the other.
pub proof fn lemma_a_header_says_what_its_words_say(
    layout: ExecIndirectLayout,
    payload: Seq<u8>,
    tasks: Seq<(u32, u32)>,
)
    requires
        payload.len() <= usize::MAX,
    ensures
        match header_of(layout, payload, tasks) {
            Ok(header) => {
                &&& payload.len() >= layout.header_len
                &&& answer_of(tasks, word_at(payload, layout.task_id as int)) == Some(
                    header.task_id,
                )
                &&& header.resource_count == word_at(payload, layout.resource_count as int)
                &&& header.cmdbuf_count == word_at(payload, layout.cmdbuf_count as int)
                &&& header.cmdbuf_count > 0
                &&& header.cmdbufs_at == layout.header_len + header.resource_count
                    * layout.resource_desc_len
                &&& header.cmdbufs_at + header.cmdbuf_count * layout.cmdbuf_desc_len
                    <= payload.len()
                &&& buffers_of(layout, payload).len() == header.cmdbuf_count
                &&& forall|i: int|
                    0 <= i < header.cmdbuf_count ==> {
                        let at = header.cmdbufs_at + i * layout.cmdbuf_desc_len;
                        &&& (#[trigger] buffers_of(layout, payload)[i]).gva == long_at(
                            payload,
                            at + layout.cmdbuf_gva,
                        )
                        &&& buffers_of(layout, payload)[i].length == long_at(
                            payload,
                            at + layout.cmdbuf_length,
                        )
                    }
            },
            Err(ExecRefusal::ShortHeader) => payload.len() < layout.header_len,
            Err(ExecRefusal::NoSuchTask { raw_task }) => raw_task == word_at(
                payload,
                layout.task_id as int,
            ) && answer_of(tasks, raw_task) is None,
            Err(ExecRefusal::ShortPayload { task_id, need }) => answer_of(
                tasks,
                word_at(payload, layout.task_id as int),
            ) == Some(task_id) && payload.len() < layout.header_len + word_at(
                payload,
                layout.resource_count as int,
            ) * layout.resource_desc_len + word_at(payload, layout.cmdbuf_count as int)
                * layout.cmdbuf_desc_len,
            Err(ExecRefusal::ZeroCommandBuffers { task_id }) => answer_of(
                tasks,
                word_at(payload, layout.task_id as int),
            ) == Some(task_id) && word_at(payload, layout.cmdbuf_count as int) == 0,
        },
{
    let count = word_at(payload, layout.cmdbuf_count as int);
    let resources = word_at(payload, layout.resource_count as int);
    assert(count * layout.cmdbuf_desc_len >= 0) by (nonlinear_arith)
        requires
            count >= 0,
            layout.cmdbuf_desc_len >= 0,
    ;
    assert(resources * layout.resource_desc_len >= 0) by (nonlinear_arith)
        requires
            resources >= 0,
            layout.resource_desc_len >= 0,
    ;
}

/// The stream of a buffer that was read comes right behind those of the buffers
/// before it, and a buffer that holds nothing, cannot be held or was not read is
/// skipped under its own number and for its own reason.
pub proof fn lemma_each_buffer_gives_its_own_stream(
    buffers: Seq<CommandBuffer>,
    addressable: u64,
    reads: Seq<Option<Vec<u8>>>,
    index: int,
    count: int,
)
    requires
        0 <= index < count <= buffers.len(),
        count <= reads.len(),
        count <= usize::MAX,
    ensures
        ({
            let loads = buffers[index].length != 0 && buffers[index].length <= addressable
                && reads[index] is Some;
            let streams = streams_of(buffers, addressable, reads, count);
            let skips = skips_of(buffers, addressable, reads, count);
            let before = streams_of(buffers, addressable, reads, index).len() as int;
            let missed = skips_of(buffers, addressable, reads, index).len() as int;
            &&& before <= streams.len() && missed <= skips.len()
            &&& loads ==> before < streams.len() && streams[before] == reads[index]->0
            &&& !loads ==> {
                &&& missed < skips.len()
                &&& match skips[missed] {
                    StreamSkip::Empty { index: at } => at == index && buffers[index].length == 0,
                    StreamSkip::Unaddressable { index: at } => at == index
                        && buffers[index].length > addressable,
                    StreamSkip::Unread { index: at } => at == index && reads[index] is None,
                }
            }
        }),
    decreases count,
{
    if index + 1 < count {
        lemma_each_buffer_gives_its_own_stream(buffers, addressable, reads, index, count - 1);
    }
}

/// A submission is of the header's task, holds the packet's resource table where
/// it decodes and nothing where it does not, and counts the streams it holds.
pub proof fn lemma_a_submission_is_its_packet(
    layout: ExecIndirectLayout,
    payload: Seq<u8>,
    tasks: Seq<(u32, u32)>,
    reads: PacketReads,
    out: ExecResultView,
)
    ensures
        match submission_of(layout, payload, tasks, reads) {
            Ok(submission) => {
                &&& answer_of(tasks, word_at(payload, layout.task_id as int)) == Some(
                    submission.task_id,
                )
                &&& reads.resource_descs is None ==> submission.resource_descs.len() == 0
                &&& reads.resource_descs matches Some(descs) ==> submission.resource_descs
                    == descs@
                &&& submission.streams == streams_of(
                    buffers_of(layout, payload),
                    reads.addressable,
                    reads.streams@,
                    word_at(payload, layout.cmdbuf_count as int) as int,
                )
                &&& ({
                    let result = result_after_read(
                        out,
                        Ok::<SubmissionView, ExecRefusal>(submission),
                    );
                    &&& result.task_id == submission.task_id
                    &&& out.streams_loaded + submission.streams.len() <= u32::MAX
                        ==> result.streams_loaded == out.streams_loaded + submission.streams.len()
                    &&& result == (ExecResultView {
                        task_id: result.task_id,
                        streams_loaded: result.streams_loaded,
                        ..out
                    })
                })
            },
            Err(refusal) => {
                let result = result_after_read(out, Err::<SubmissionView, ExecRefusal>(refusal));
                &&& result == (ExecResultView { task_id: result.task_id, ..out })
                &&& payload.len() >= layout.header_len && answer_of(
                    tasks,
                    word_at(payload, layout.task_id as int),
                ) is Some ==> answer_of(tasks, word_at(payload, layout.task_id as int)) == Some(
                    result.task_id,
                )
            },
        },
{
}

/// Each resource of a submission is used as its own descriptor says.
pub proof fn lemma_a_use_is_its_descriptors(descs: Seq<ExecResourceDesc>, i: int)
    requires
        0 <= i < descs.len(),
    ensures
        uses_of(descs).len() == descs.len(),
        uses_of(descs)[i].object == descs[i].object_id,
        uses_of(descs)[i].validity == descs[i].ops,
{
}

/// The misses of a table are counted apart, those that are known and those that
/// are not, and together they are all that miss.
pub proof fn lemma_every_miss_is_counted_once(outcomes: Seq<ValidityOutcome>)
    ensures
        missed(outcomes, true) + missed(outcomes, false) <= outcomes.len(),
        (forall|i: int| 0 <= i < outcomes.len() ==> (#[trigger] outcomes[i]).missed) ==> missed(
            outcomes,
            true,
        ) + missed(outcomes, false) == outcomes.len(),
        (forall|i: int| 0 <= i < outcomes.len() ==> !(#[trigger] outcomes[i]).missed) ==> missed(
            outcomes,
            true,
        ) == 0 && missed(outcomes, false) == 0,
        (forall|i: int| 0 <= i < outcomes.len() ==> (#[trigger] outcomes[i]).known) ==> missed(
            outcomes,
            false,
        ) == 0,
        (forall|i: int| 0 <= i < outcomes.len() ==> !(#[trigger] outcomes[i]).known) ==> missed(
            outcomes,
            true,
        ) == 0,
    decreases outcomes.len(),
{
    if outcomes.len() > 0 {
        let earlier = outcomes.drop_last();
        lemma_every_miss_is_counted_once(earlier);
        assert forall|i: int| 0 <= i < earlier.len() implies #[trigger] earlier[i]
            == outcomes[i] by {}
        assert(outcomes[outcomes.len() - 1] == outcomes.last());
    }
}

/// The resource that is reported for its bytes is the first that sets any.
pub proof fn lemma_the_first_populated_is_reported(descs: Seq<ExecResourceDesc>)
    ensures
        match first_populated(descs) {
            Some(desc) => exists|i: int|
                0 <= i < descs.len() && (#[trigger] descs[i]) == desc && desc.tail_nonzero_bytes
                    > 0 && forall|j: int|
                    0 <= j < i ==> (#[trigger] descs[j]).tail_nonzero_bytes == 0,
            None => forall|i: int|
                0 <= i < descs.len() ==> (#[trigger] descs[i]).tail_nonzero_bytes == 0,
        },
    decreases descs.len(),
{
    if descs.len() > 0 {
        let earlier = descs.drop_last();
        lemma_the_first_populated_is_reported(earlier);
        assert(descs[descs.len() - 1] == descs.last());
        if let Some(desc) = first_populated(earlier) {
            let i = choose|i: int|
                0 <= i < earlier.len() && (#[trigger] earlier[i]) == desc
                    && desc.tail_nonzero_bytes > 0 && forall|j: int|
                    0 <= j < i ==> (#[trigger] earlier[j]).tail_nonzero_bytes == 0;
            assert(descs[i] == desc);
            assert forall|j: int| 0 <= j < i implies (
            #[trigger] descs[j]).tail_nonzero_bytes == 0 by {
                assert(earlier[j] == descs[j]);
            }
        } else {
            assert forall|j: int| 0 <= j < earlier.len() implies (
            #[trigger] descs[j]).tail_nonzero_bytes == 0 by {
                assert(earlier[j] == descs[j]);
            }
        }
    }
}

} // verus!
