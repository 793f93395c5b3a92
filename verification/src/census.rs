//! The names under which a submission's work is counted.

use vstd::prelude::*;

use crate::refusals::{fields_view, FieldValue, FieldView, StreamDrawDrop};

verus! {

/// The name for how many command streams a submission loaded.
pub open spec fn stream_count_route(loaded: nat) -> Seq<char> {
    if loaded == 0 {
        "exec_cmdbufs_0"@
    } else if loaded == 1 {
        "exec_cmdbufs_1"@
    } else if loaded <= 4 {
        "exec_cmdbufs_2_4"@
    } else if loaded <= 16 {
        "exec_cmdbufs_5_16"@
    } else if loaded <= 64 {
        "exec_cmdbufs_17_64"@
    } else {
        "exec_cmdbufs_over_64"@
    }
}

/// Names how many command streams a submission loaded.
pub fn note_command_stream_count(loaded: usize) -> (route: &'static str)
    ensures
        route@ == stream_count_route(loaded as nat),
{
    if loaded == 0 {
        "exec_cmdbufs_0"
    } else if loaded == 1 {
        "exec_cmdbufs_1"
    } else if loaded <= 4 {
        "exec_cmdbufs_2_4"
    } else if loaded <= 16 {
        "exec_cmdbufs_5_16"
    } else if loaded <= 64 {
        "exec_cmdbufs_17_64"
    } else {
        "exec_cmdbufs_over_64"
    }
}

/// Which encoders a segment continues.
#[derive(Clone, Copy, Debug, PartialEq, Eq, Structural)]
pub struct SegmentLifetime {
    pub continues_previous: bool,
    pub continues_into_next: bool,
}

/// Every name for a segment's place in its encoder. The first two are those of
/// a segment that begins one, and the second and fourth go on into the next.
pub const SEGMENT_CHAIN_ROUTES: [&'static str; 4] = [
    "seg_chain_none",
    "seg_chain_next",
    "seg_chain_prev",
    "seg_chain_both",
];

/// The name for a segment's place in its encoder.
pub open spec fn chain_route(lifetime: SegmentLifetime) -> Seq<char> {
    match (lifetime.continues_previous, lifetime.continues_into_next) {
        (false, false) => "seg_chain_none"@,
        (false, true) => "seg_chain_next"@,
        (true, false) => "seg_chain_prev"@,
        (true, true) => "seg_chain_both"@,
    }
}

/// Names a segment's place in its encoder.
pub fn segment_chain_route(lifetime: SegmentLifetime) -> (route: &'static str)
    ensures
        route@ == chain_route(lifetime),
{
    let index: usize = match (lifetime.continues_previous, lifetime.continues_into_next) {
        (false, false) => 0,
        (false, true) => 1,
        (true, false) => 2,
        (true, true) => 3,
    };
    SEGMENT_CHAIN_ROUTES[index]
}

/// The name for a segment's place is the one that its two ends count up to.
pub proof fn lemma_every_place_has_its_route(lifetime: SegmentLifetime)
    ensures
        chain_route(lifetime) == SEGMENT_CHAIN_ROUTES@[(if lifetime.continues_previous {
            2int
        } else {
            0int
        }) + (if lifetime.continues_into_next {
            1int
        } else {
            0int
        })]@,
{
}

/// The bands that a pass's extent falls into, as a percentage of its
/// attachment.
pub open spec fn band_of(pct: u64) -> nat {
    if pct == 0 {
        0
    } else if pct <= 5 {
        1
    } else if pct <= 10 {
        2
    } else if pct <= 25 {
        3
    } else if pct <= 50 {
        4
    } else if pct <= 99 {
        5
    } else {
        6
    }
}

/// The band that a percentage falls into.
pub fn pass_extent_band(pct: u64) -> (band: usize)
    ensures
        band == band_of(pct),
        band < 7,
{
    if pct == 0 {
        0
    } else if pct <= 5 {
        1
    } else if pct <= 10 {
        2
    } else if pct <= 25 {
        3
    } else if pct <= 50 {
        4
    } else if pct <= 99 {
        5
    } else {
        6
    }
}

/// The name of a band.
pub open spec fn band_slug(band: nat) -> Seq<char> {
    if band == 0 {
        "pass_extent_lt1"@
    } else if band == 1 {
        "pass_extent_le5"@
    } else if band == 2 {
        "pass_extent_le10"@
    } else if band == 3 {
        "pass_extent_le25"@
    } else if band == 4 {
        "pass_extent_le50"@
    } else if band == 5 {
        "pass_extent_le99"@
    } else {
        "pass_extent_full"@
    }
}

fn pass_extent_slug(band: usize) -> (slug: &'static str)
    ensures
        slug@ == band_slug(band as nat),
{
    if band == 0 {
        "pass_extent_lt1"
    } else if band == 1 {
        "pass_extent_le5"
    } else if band == 2 {
        "pass_extent_le10"
    } else if band == 3 {
        "pass_extent_le25"
    } else if band == 4 {
        "pass_extent_le50"
    } else if band == 5 {
        "pass_extent_le99"
    } else {
        "pass_extent_full"
    }
}

/// A product, at most what a word holds.
pub open spec fn product(a: u64, b: u64) -> u64 {
    if a * b <= u64::MAX {
        (a * b) as u64
    } else {
        u64::MAX
    }
}

/// A product, at most what a word holds.
pub fn multiplied(a: u64, b: u64) -> (c: u64)
    ensures
        c == product(a, b),
{
    match a.checked_mul(b) {
        Some(c) => c,
        None => u64::MAX,
    }
}

/// How much of its attachment a pass states, in percent.
pub open spec fn coverage(pass_w: u64, pass_h: u64, surf_w: u32, surf_h: u32) -> u64 {
    let full = product(surf_w as u64, surf_h as u64);
    let stated = product(pass_w, pass_h);
    let least = if stated <= full {
        stated
    } else {
        full
    };
    let most = if full >= 1 {
        full
    } else {
        1
    };
    product(least, 100) / most
}

/// The band of a pass's extent: none where the pass states no extent, or its
/// attachment has none.
pub open spec fn coverage_slug(pass_w: u64, pass_h: u64, surf_w: u32, surf_h: u32) -> Option<
    Seq<char>,
> {
    if pass_w == 0 || pass_h == 0 || surf_w == 0 || surf_h == 0 {
        None
    } else {
        Some(band_slug(band_of(coverage(pass_w, pass_h, surf_w, surf_h))))
    }
}

/// The contents of a name that may be absent.
pub open spec fn name_view(name: Option<&'static str>) -> Option<Seq<char>> {
    match name {
        Some(name) => Some(name@),
        None => None,
    }
}

/// Names the band of a pass's extent.
pub fn note_pass_extent_coverage(pass_w: u64, pass_h: u64, surf_w: u32, surf_h: u32) -> (slug:
    Option<&'static str>)
    ensures
        name_view(slug) == coverage_slug(pass_w, pass_h, surf_w, surf_h),
{
    if pass_w == 0 || pass_h == 0 || surf_w == 0 || surf_h == 0 {
        return None;
    }
    let full: u64 = multiplied(surf_w as u64, surf_h as u64);
    let stated: u64 = multiplied(pass_w, pass_h);
    let least: u64 = if stated <= full {
        stated
    } else {
        full
    };
    let most: u64 = if full >= 1 {
        full
    } else {
        1
    };
    let pct: u64 = multiplied(least, 100) / most;
    Some(pass_extent_slug(pass_extent_band(pct)))
}

/// A pass that states its whole attachment, or more, is counted as full.
pub proof fn lemma_a_whole_attachment_is_full(
    pass_w: u64,
    pass_h: u64,
    surf_w: u32,
    surf_h: u32,
)
    requires
        0 < surf_w <= pass_w,
        0 < surf_h <= pass_h,
        surf_w * surf_h * 100 <= u64::MAX,
    ensures
        coverage_slug(pass_w, pass_h, surf_w, surf_h) == Some("pass_extent_full"@),
{
    let full = surf_w * surf_h;
    assert(full > 0) by (nonlinear_arith)
        requires
            full == surf_w * surf_h,
            0 < surf_w,
            0 < surf_h,
    ;
    assert(pass_w * pass_h >= full) by (nonlinear_arith)
        requires
            full == surf_w * surf_h,
            0 < surf_w <= pass_w,
            0 < surf_h <= pass_h,
    ;
    assert((full * 100) / full == 100) by (nonlinear_arith)
        requires
            full > 0,
    ;
    assert(coverage(pass_w, pass_h, surf_w, surf_h) == 100);
}

/// The name for how many draws a stream kept.
pub open spec fn kept_route(kept: nat) -> Seq<char> {
    if kept == 0 {
        "stream_draws_0"@
    } else if kept == 1 {
        "stream_draws_1"@
    } else if kept <= 4 {
        "stream_draws_2_4"@
    } else if kept <= 8 {
        "stream_draws_5_8"@
    } else if kept <= 16 {
        "stream_draws_9_16"@
    } else if kept <= 32 {
        "stream_draws_17_32"@
    } else if kept <= 63 {
        "stream_draws_33_63"@
    } else if kept <= 255 {
        "stream_draws_64_255"@
    } else {
        "stream_draws_over_255"@
    }
}

fn note_kept(kept: usize) -> (route: &'static str)
    ensures
        route@ == kept_route(kept as nat),
{
    if kept == 0 {
        "stream_draws_0"
    } else if kept == 1 {
        "stream_draws_1"
    } else if kept <= 4 {
        "stream_draws_2_4"
    } else if kept <= 8 {
        "stream_draws_5_8"
    } else if kept <= 16 {
        "stream_draws_9_16"
    } else if kept <= 32 {
        "stream_draws_17_32"
    } else if kept <= 63 {
        "stream_draws_33_63"
    } else if kept <= 255 {
        "stream_draws_64_255"
    } else {
        "stream_draws_over_255"
    }
}

/// A power of two.
pub open spec fn power(exponent: nat) -> nat
    decreases exponent,
{
    if exponent == 0 {
        1
    } else {
        2 * power((exponent - 1) as nat)
    }
}

/// Whether a word is the least power of two that is no less than a count.
pub open spec fn least_power_from(count: u32, word: u64) -> bool {
    exists|exponent: nat| #[trigger]
        power(exponent) == word && word >= count && (exponent == 0 || power(
            (exponent - 1) as nat,
        ) < count)
}

/// What is reported of a stream's draws.
#[derive(Clone, Copy, Debug, PartialEq, Eq)]
pub struct StreamDrawReport {
    /// The name for how many draws were kept.
    pub kept_route: &'static str,
    pub dropped_no_pipeline: u32,
    pub dropped_zero_count: u32,
    /// The draws that came while no pipeline was bound, with the key under
    /// which they are reported once.
    pub unbound: Option<(StreamDrawDrop, u64)>,
}

fn least_power(count: u32) -> (word: u64)
    ensures
        least_power_from(count, word),
{
    let mut word: u64 = 1;
    let ghost mut exponent: nat = 0;
    assert(power(0) == 1);
    while word < count as u64
        invariant
            power(exponent) == word,
            word >= 1,
            word <= 0x2_0000_0000,
            exponent == 0 || power((exponent - 1) as nat) < count,
        decreases 0x2_0000_0000 - word,
    {
        proof {
            assert(power(exponent + 1) == 2 * power(exponent));
            exponent = exponent + 1;
        }
        word = word * 2;
    }
    word
}

/// What is reported of a stream's draws: nothing where it recorded and lost
/// none.
pub fn note_stream_draw_drops(kept: usize, dropped_no_pipeline: u32, dropped_zero_count: u32) -> (
    report: Option<StreamDrawReport>)
    ensures
        report is None <==> kept == 0 && dropped_no_pipeline == 0 && dropped_zero_count == 0,
        match report {
            None => true,
            Some(report) => {
                &&& report.kept_route@ == kept_route(kept as nat)
                &&& report.dropped_no_pipeline == dropped_no_pipeline
                &&& report.dropped_zero_count == dropped_zero_count
                &&& match report.unbound {
                    None => dropped_no_pipeline == 0,
                    Some((drop, key)) => {
                        &&& dropped_no_pipeline > 0
                        &&& drop == (StreamDrawDrop::Unbound { dropped: dropped_no_pipeline })
                        &&& least_power_from(dropped_no_pipeline, key)
                    },
                }
            },
        },
{
    if kept == 0 && dropped_no_pipeline == 0 && dropped_zero_count == 0 {
        return None;
    }
    let unbound = if dropped_no_pipeline > 0 {
        Some(
            (
                StreamDrawDrop::Unbound { dropped: dropped_no_pipeline },
                least_power(dropped_no_pipeline),
            ),
        )
    } else {
        None
    };
    Some(
        StreamDrawReport {
            kept_route: note_kept(kept),
            dropped_no_pipeline,
            dropped_zero_count,
            unbound,
        },
    )
}

/// A question that a guest puts to the device.
#[derive(Clone, Copy, Debug, PartialEq, Eq, Structural)]
pub enum InfoQuery {
    ComputePipelineState,
    HeapTextureSize,
    HeapTextureSizeWide,
    RateMap,
    RateParameterBuffer,
    MapScreenToPhysical,
    MapPhysicalToScreen,
    RenderPipelineState,
    RenderPipelineImageblock,
    ComputePipelineImageblock,
    BufferHostResource,
    TextureHostResource,
    HeapHostResource,
    SamplerHostResource,
    IcbHostResource,
    RenderPipelineHostResource,
    ComputePipelineHostResource,
    DepthStencilHostResource,
    Undeclared,
}

/// The name for a question that goes unanswered.
pub open spec fn info_route(query: InfoQuery) -> Seq<char> {
    match query {
        InfoQuery::ComputePipelineState => "info_unanswered_compute_pipeline_state"@,
        InfoQuery::HeapTextureSize => "info_unanswered_heap_texture_size"@,
        InfoQuery::HeapTextureSizeWide => "info_unanswered_heap_texture_size_wide"@,
        InfoQuery::RateMap => "info_unanswered_rate_map"@,
        InfoQuery::RateParameterBuffer => "info_unanswered_rate_parameter_buffer"@,
        InfoQuery::MapScreenToPhysical => "info_unanswered_map_screen_to_physical"@,
        InfoQuery::MapPhysicalToScreen => "info_unanswered_map_physical_to_screen"@,
        InfoQuery::RenderPipelineState => "info_unanswered_render_pipeline_state"@,
        InfoQuery::RenderPipelineImageblock => "info_unanswered_render_pipeline_imageblock"@,
        InfoQuery::ComputePipelineImageblock => "info_unanswered_compute_pipeline_imageblock"@,
        InfoQuery::BufferHostResource => "info_unanswered_buffer_host_resource"@,
        InfoQuery::TextureHostResource => "info_unanswered_texture_host_resource"@,
        InfoQuery::HeapHostResource => "info_unanswered_heap_host_resource"@,
        InfoQuery::SamplerHostResource => "info_unanswered_sampler_host_resource"@,
        InfoQuery::IcbHostResource => "info_unanswered_icb_host_resource"@,
        InfoQuery::RenderPipelineHostResource => {
            "info_unanswered_render_pipeline_host_resource"@
        },
        InfoQuery::ComputePipelineHostResource => {
            "info_unanswered_compute_pipeline_host_resource"@
        },
        InfoQuery::DepthStencilHostResource => "info_unanswered_depth_stencil_host_resource"@,
        InfoQuery::Undeclared => "info_unanswered_undeclared_opcode"@,
    }
}

/// Names a question that goes unanswered.
pub fn info_query_route(query: InfoQuery) -> (route: &'static str)
    ensures
        route@ == info_route(query),
{
    match query {
        InfoQuery::ComputePipelineState => "info_unanswered_compute_pipeline_state",
        InfoQuery::HeapTextureSize => "info_unanswered_heap_texture_size",
        InfoQuery::HeapTextureSizeWide => "info_unanswered_heap_texture_size_wide",
        InfoQuery::RateMap => "info_unanswered_rate_map",
        InfoQuery::RateParameterBuffer => "info_unanswered_rate_parameter_buffer",
        InfoQuery::MapScreenToPhysical => "info_unanswered_map_screen_to_physical",
        InfoQuery::MapPhysicalToScreen => "info_unanswered_map_physical_to_screen",
        InfoQuery::RenderPipelineState => "info_unanswered_render_pipeline_state",
        InfoQuery::RenderPipelineImageblock => "info_unanswered_render_pipeline_imageblock",
        InfoQuery::ComputePipelineImageblock => "info_unanswered_compute_pipeline_imageblock",
        InfoQuery::BufferHostResource => "info_unanswered_buffer_host_resource",
        InfoQuery::TextureHostResource => "info_unanswered_texture_host_resource",
        InfoQuery::HeapHostResource => "info_unanswered_heap_host_resource",
        InfoQuery::SamplerHostResource => "info_unanswered_sampler_host_resource",
        InfoQuery::IcbHostResource => "info_unanswered_icb_host_resource",
        InfoQuery::RenderPipelineHostResource => "info_unanswered_render_pipeline_host_resource",
        InfoQuery::ComputePipelineHostResource => "info_unanswered_compute_pipeline_host_resource",
        InfoQuery::DepthStencilHostResource => "info_unanswered_depth_stencil_host_resource",
        InfoQuery::Undeclared => "info_unanswered_undeclared_opcode",
    }
}

/// What is known of a question's opcode.
#[derive(Clone, Copy, Debug, PartialEq, Eq)]
pub struct InfoRow {
    /// The name of how far the question is settled.
    pub closure: &'static str,
    pub selector: &'static str,
}

/// What is settled of a question.
#[derive(Clone, Copy, Debug, PartialEq, Eq)]
pub enum InfoJudgement {
    /// The question is known, and open.
    Open(InfoRow),
    /// The question is known, and said to be answered.
    Closed(InfoRow),
    Unjudged,
}

/// A question that goes unanswered.
#[derive(Clone, Copy, Debug, PartialEq, Eq)]
pub struct InfoRecordUnanswered {
    pub opcode: u32,
    /// The length of the record.
    pub len: u64,
    pub judged: InfoJudgement,
}

/// The name for why a question goes unanswered.
pub open spec fn info_slug(judged: InfoJudgement) -> Seq<char> {
    match judged {
        InfoJudgement::Open(_) => "info_query_unanswered"@,
        InfoJudgement::Closed(_) => "info_query_ledger_disagrees"@,
        InfoJudgement::Unjudged => "info_opcode_unjudged"@,
    }
}

impl InfoRecordUnanswered {
    /// The name under which the question is reported.
    pub fn slug(&self) -> (slug: &'static str)
        ensures
            slug@ == info_slug(self.judged),
    {
        match self.judged {
            InfoJudgement::Open(_) => "info_query_unanswered",
            InfoJudgement::Closed(_) => "info_query_ledger_disagrees",
            InfoJudgement::Unjudged => "info_opcode_unjudged",
        }
    }

    pub open spec fn fields_of(self) -> Seq<(Seq<char>, FieldView)> {
        let stated = seq![
            ("op"@, FieldView::Hex(self.opcode as u64)),
            ("len"@, FieldView::Decimal(self.len)),
        ];
        match self.judged {
            InfoJudgement::Open(row) | InfoJudgement::Closed(row) => stated.push(
                ("closure"@, FieldView::Name(row.closure@)),
            ).push(("selector"@, FieldView::Name(row.selector@))),
            InfoJudgement::Unjudged => stated,
        }
    }

    /// The values that the report states.
    pub fn fields(&self) -> (fields: Vec<(&'static str, FieldValue)>)
        ensures
            fields_view(fields@) == self.fields_of(),
    {
        let mut fields = vec![
            ("op", FieldValue::Hex(self.opcode as u64)),
            ("len", FieldValue::Decimal(self.len)),
        ];
        match self.judged {
            InfoJudgement::Open(row) | InfoJudgement::Closed(row) => {
                fields.push(("closure", FieldValue::Name(row.closure)));
                fields.push(("selector", FieldValue::Name(row.selector)));
            },
            InfoJudgement::Unjudged => {},
        }
        assert(fields_view(fields@) =~= self.fields_of());
        fields
    }
}

/// What is reported of a question: its name, why it goes unanswered, and the
/// key under which that is reported once.
pub fn note_info_record_unanswered(query: InfoQuery, question: &InfoRecordUnanswered) -> (note: (
    &'static str,
    &'static str,
    u64,
))
    ensures
        note.0@ == info_route(query),
        note.1@ == info_slug(question.judged),
        note.2 == question.opcode,
{
    (info_query_route(query), question.slug(), question.opcode as u64)
}

/// What asking for an indirect command buffer's memory gave.
#[derive(Clone, Copy, Debug, PartialEq, Eq, Structural)]
pub enum IcbInfo {
    Bound,
    /// The buffer has no memory to bind.
    Unbound { icb_ref: u32 },
    /// The record does not decode.
    Undecoded { len: u64 },
}

/// What is reported of a question.
#[derive(Debug, PartialEq, Eq)]
pub struct InfoReport {
    pub route: &'static str,
    pub slug: &'static str,
    pub key: u64,
    /// The values that the report states.
    pub fields: Vec<(&'static str, FieldValue)>,
    /// The key under which an unbound command buffer is reported once.
    pub icb_key: Option<u64>,
}

/// Reports a question. Every question goes unanswered, also one for a command
/// buffer's memory.
pub fn handle_info_record(query: InfoQuery, question: InfoRecordUnanswered, icb: IcbInfo) -> (report:
    InfoReport)
    ensures
        report.route@ == info_route(query),
        report.slug@ == info_slug(question.judged),
        report.key == question.opcode,
        fields_view(report.fields@) == question.fields_of(),
        report.icb_key == if query == InfoQuery::IcbHostResource {
            match icb {
                IcbInfo::Bound => None,
                IcbInfo::Unbound { icb_ref } => Some(icb_ref as u64),
                IcbInfo::Undecoded { len } => Some(len),
            }
        } else {
            None
        },
{
    let (route, slug, key) = note_info_record_unanswered(query, &question);
    let icb_key = if query == InfoQuery::IcbHostResource {
        match icb {
            IcbInfo::Bound => None,
            IcbInfo::Unbound { icb_ref } => Some(icb_ref as u64),
            IcbInfo::Undecoded { len } => Some(len),
        }
    } else {
        None
    };
    InfoReport { route, slug, key, fields: question.fields(), icb_key }
}

/// A greater share never falls into a lesser band, and only a whole one, or
/// more, into the last.
pub proof fn lemma_bands_ascend(one: u64, other: u64)
    ensures
        one <= other ==> band_of(one) <= band_of(other),
        band_of(one) == 0 <==> one == 0,
        band_of(one) == 6 <==> one >= 100,
        band_of(one) <= 6,
{
}

/// What a pass covers is the percentage, rounded down, that its extent is of its
/// attachment, and never more than the whole of it.
pub proof fn lemma_coverage_is_a_percentage(pass_w: u64, pass_h: u64, surf_w: u32, surf_h: u32)
    requires
        surf_w > 0,
        surf_h > 0,
        surf_w * surf_h * 100 <= u64::MAX,
        pass_w * pass_h <= surf_w * surf_h,
    ensures
        coverage(pass_w, pass_h, surf_w, surf_h) * (surf_w * surf_h) <= pass_w * pass_h * 100,
        pass_w * pass_h * 100 < (coverage(pass_w, pass_h, surf_w, surf_h) + 1) * (surf_w * surf_h),
        coverage(pass_w, pass_h, surf_w, surf_h) <= 100,
{
    let full = surf_w * surf_h;
    let stated = pass_w * pass_h;
    assert(full > 0) by (nonlinear_arith)
        requires
            full == surf_w * surf_h,
            0 < surf_w,
            0 < surf_h,
    ;
    assert(stated >= 0) by (nonlinear_arith)
        requires
            stated == pass_w * pass_h,
            pass_w >= 0,
            pass_h >= 0,
    ;
    assert(stated * 100 <= full * 100) by (nonlinear_arith)
        requires
            stated <= full,
    ;
    let share = (stated * 100) / full;
    assert(coverage(pass_w, pass_h, surf_w, surf_h) == share);
    assert(share * full <= stated * 100 && stated * 100 < (share + 1) * full && share <= 100)
        by (nonlinear_arith)
        requires
            full > 0,
            0 <= stated <= full,
            share == (stated * 100) / full,
    ;
}

} // verus!
