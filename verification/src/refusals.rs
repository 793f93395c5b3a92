//! What a render stream asks for and cannot have, and how each loss is named.

use vstd::prelude::*;

use crate::encoder_state::{MAX_BUFFER_BIND_SLOTS, MAX_SAMPLER_BIND_SLOTS, MAX_TEXTURE_BIND_SLOTS};

verus! {

/// The part of a pass that a record names.
#[derive(Clone, Copy, Debug, PartialEq, Eq, Structural, Hash)]
pub enum PassAspect {
    Color,
    Depth,
    Stencil,
}

impl PassAspect {
    pub open spec fn name_of(self) -> Seq<char> {
        match self {
            PassAspect::Color => "color"@,
            PassAspect::Depth => "depth"@,
            PassAspect::Stencil => "stencil"@,
        }
    }

    /// The aspect's name in a report.
    pub fn name(self) -> (name: &'static str)
        ensures
            name@ == self.name_of(),
    {
        match self {
            PassAspect::Color => "color",
            PassAspect::Depth => "depth",
            PassAspect::Stencil => "stencil",
        }
    }
}

/// A value that a report states beside a loss.
#[derive(Clone, Copy, Debug, PartialEq, Eq)]
pub enum FieldValue {
    Decimal(u64),
    Hex(u64),
    Name(&'static str),
    /// A place in a list, and the length of the list.
    Place(u64, u64),
}

/// What contracts say of a value in a report.
pub enum FieldView {
    Decimal(u64),
    Hex(u64),
    Name(Seq<char>),
    Place(u64, u64),
}

impl View for FieldValue {
    type V = FieldView;

    open spec fn view(&self) -> FieldView {
        match *self {
            FieldValue::Decimal(value) => FieldView::Decimal(value),
            FieldValue::Hex(value) => FieldView::Hex(value),
            FieldValue::Name(name) => FieldView::Name(name@),
            FieldValue::Place(index, total) => FieldView::Place(index, total),
        }
    }
}

/// The contents of a report's fields.
pub open spec fn fields_view(fields: Seq<(&'static str, FieldValue)>) -> Seq<
    (Seq<char>, FieldView),
> {
    Seq::new(fields.len(), |i: int| (fields[i].0@, fields[i].1@))
}

/// Why a render stream loses work: a draw, or what a pass is asked for.
#[derive(Clone, Copy, Debug, PartialEq, Eq, Structural)]
#[allow(inconsistent_fields)]
pub enum StreamDrawDrop {
    /// Draws that came while no pipeline was bound.
    Unbound { dropped: u32 },
    /// A depth or stencil attachment at a place that cannot be bound.
    DepthStencilUnsupported {
        aspect: PassAspect,
        level: u32,
        slice: u32,
        depth_plane: u32,
        resolve_texture_ref: u32,
    },
    /// A colour attachment at a place that cannot be bound.
    ColorSubresourceUnsupported {
        slot: u32,
        level: u32,
        slice: u32,
        depth_plane: u32,
        resolve_texture_ref: u32,
    },
    /// A pass of several array layers.
    PassArrayLengthUnsupported { length: u64 },
    /// A pass rasterized at another count than one sample.
    PassRasterSampleCountUnsupported { count: u64 },
    /// A store action with options.
    StoreActionOptionsUnsupported { aspect: PassAspect, slot: u32, options: u64 },
}

impl StreamDrawDrop {
    pub open spec fn slug_of(self) -> Seq<char> {
        match self {
            StreamDrawDrop::Unbound { .. } => "stream_draw_dropped_unbound"@,
            StreamDrawDrop::DepthStencilUnsupported { .. } => "stream_depth_stencil_unsupported"@,
            StreamDrawDrop::ColorSubresourceUnsupported { .. } => {
                "stream_color_subresource_unsupported"@
            },
            StreamDrawDrop::PassArrayLengthUnsupported { .. } => {
                "stream_pass_array_length_unsupported"@
            },
            StreamDrawDrop::PassRasterSampleCountUnsupported { .. } => {
                "stream_pass_raster_sample_count_unsupported"@
            },
            StreamDrawDrop::StoreActionOptionsUnsupported { .. } => {
                "stream_store_action_options_unsupported"@
            },
        }
    }

    /// The name under which the loss is reported.
    pub fn slug(&self) -> (slug: &'static str)
        ensures
            slug@ == self.slug_of(),
    {
        match self {
            StreamDrawDrop::Unbound { .. } => "stream_draw_dropped_unbound",
            StreamDrawDrop::DepthStencilUnsupported { .. } => "stream_depth_stencil_unsupported",
            StreamDrawDrop::ColorSubresourceUnsupported { .. } => {
                "stream_color_subresource_unsupported"
            },
            StreamDrawDrop::PassArrayLengthUnsupported { .. } => {
                "stream_pass_array_length_unsupported"
            },
            StreamDrawDrop::PassRasterSampleCountUnsupported { .. } => {
                "stream_pass_raster_sample_count_unsupported"
            },
            StreamDrawDrop::StoreActionOptionsUnsupported { .. } => {
                "stream_store_action_options_unsupported"
            },
        }
    }

    pub open spec fn route_of(self) -> Option<Seq<char>> {
        match self {
            StreamDrawDrop::ColorSubresourceUnsupported { .. } => {
                Some("render_color_subresource_unsupported"@)
            },
            StreamDrawDrop::PassArrayLengthUnsupported { .. } => {
                Some("render_pass_array_length_dropped"@)
            },
            StreamDrawDrop::PassRasterSampleCountUnsupported { .. } => {
                Some("render_pass_raster_sample_count_dropped"@)
            },
            StreamDrawDrop::StoreActionOptionsUnsupported { .. } => {
                Some("render_store_action_options_dropped"@)
            },
            _ => None,
        }
    }

    /// The name under which the loss is counted, if it is.
    pub fn route(&self) -> (route: Option<&'static str>)
        ensures
            match route {
                Some(route) => self.route_of() == Some(route@),
                None => self.route_of() is None,
            },
    {
        match self {
            StreamDrawDrop::ColorSubresourceUnsupported { .. } => {
                Some("render_color_subresource_unsupported")
            },
            StreamDrawDrop::PassArrayLengthUnsupported { .. } => {
                Some("render_pass_array_length_dropped")
            },
            StreamDrawDrop::PassRasterSampleCountUnsupported { .. } => {
                Some("render_pass_raster_sample_count_dropped")
            },
            StreamDrawDrop::StoreActionOptionsUnsupported { .. } => {
                Some("render_store_action_options_dropped")
            },
            _ => None,
        }
    }

    pub open spec fn fields_of(self) -> Seq<(Seq<char>, FieldView)> {
        match self {
            StreamDrawDrop::Unbound { dropped } => {
                seq![("dropped"@, FieldView::Decimal(dropped as u64))]
            },
            StreamDrawDrop::DepthStencilUnsupported {
                aspect,
                level,
                slice,
                depth_plane,
                resolve_texture_ref,
            } => seq![
                ("aspect"@, FieldView::Name(aspect.name_of())),
                ("level"@, FieldView::Decimal(level as u64)),
                ("slice"@, FieldView::Decimal(slice as u64)),
                ("plane"@, FieldView::Decimal(depth_plane as u64)),
                ("resolve"@, FieldView::Hex(resolve_texture_ref as u64)),
            ],
            StreamDrawDrop::ColorSubresourceUnsupported {
                slot,
                level,
                slice,
                depth_plane,
                resolve_texture_ref,
            } => seq![
                ("slot"@, FieldView::Decimal(slot as u64)),
                ("level"@, FieldView::Decimal(level as u64)),
                ("slice"@, FieldView::Decimal(slice as u64)),
                ("plane"@, FieldView::Decimal(depth_plane as u64)),
                ("resolve"@, FieldView::Hex(resolve_texture_ref as u64)),
            ],
            StreamDrawDrop::PassArrayLengthUnsupported { length } => {
                seq![("length"@, FieldView::Decimal(length))]
            },
            StreamDrawDrop::PassRasterSampleCountUnsupported { count } => {
                seq![("count"@, FieldView::Decimal(count))]
            },
            StreamDrawDrop::StoreActionOptionsUnsupported { aspect, slot, options } => seq![
                ("aspect"@, FieldView::Name(aspect.name_of())),
                ("slot"@, FieldView::Decimal(slot as u64)),
                ("options"@, FieldView::Hex(options)),
            ],
        }
    }

    /// The values that the report states.
    pub fn fields(&self) -> (fields: Vec<(&'static str, FieldValue)>)
        ensures
            fields_view(fields@) == self.fields_of(),
    {
        let fields = match *self {
            StreamDrawDrop::Unbound { dropped } => {
                vec![("dropped", FieldValue::Decimal(dropped as u64))]
            },
            StreamDrawDrop::DepthStencilUnsupported {
                aspect,
                level,
                slice,
                depth_plane,
                resolve_texture_ref,
            } => vec![
                ("aspect", FieldValue::Name(aspect.name())),
                ("level", FieldValue::Decimal(level as u64)),
                ("slice", FieldValue::Decimal(slice as u64)),
                ("plane", FieldValue::Decimal(depth_plane as u64)),
                ("resolve", FieldValue::Hex(resolve_texture_ref as u64)),
            ],
            StreamDrawDrop::ColorSubresourceUnsupported {
                slot,
                level,
                slice,
                depth_plane,
                resolve_texture_ref,
            } => vec![
                ("slot", FieldValue::Decimal(slot as u64)),
                ("level", FieldValue::Decimal(level as u64)),
                ("slice", FieldValue::Decimal(slice as u64)),
                ("plane", FieldValue::Decimal(depth_plane as u64)),
                ("resolve", FieldValue::Hex(resolve_texture_ref as u64)),
            ],
            StreamDrawDrop::PassArrayLengthUnsupported { length } => {
                vec![("length", FieldValue::Decimal(length))]
            },
            StreamDrawDrop::PassRasterSampleCountUnsupported { count } => {
                vec![("count", FieldValue::Decimal(count))]
            },
            StreamDrawDrop::StoreActionOptionsUnsupported { aspect, slot, options } => vec![
                ("aspect", FieldValue::Name(aspect.name())),
                ("slot", FieldValue::Decimal(slot as u64)),
                ("options", FieldValue::Hex(options)),
            ],
        };
        assert(fields_view(fields@) =~= self.fields_of());
        fields
    }

    pub open spec fn latch_of(self) -> DropLatch {
        match self {
            StreamDrawDrop::Unbound { dropped } => DropLatch::Unbound { dropped },
            StreamDrawDrop::DepthStencilUnsupported {
                aspect,
                level,
                slice,
                depth_plane,
                resolve_texture_ref,
            } => DropLatch::DepthStencil {
                aspect,
                level,
                slice,
                depth_plane,
                resolves: resolve_texture_ref != 0,
            },
            StreamDrawDrop::ColorSubresourceUnsupported {
                slot,
                level,
                slice,
                depth_plane,
                resolve_texture_ref,
            } => DropLatch::ColorSubresource {
                slot,
                level,
                slice,
                depth_plane,
                resolves: resolve_texture_ref != 0,
            },
            StreamDrawDrop::PassArrayLengthUnsupported { length } => DropLatch::ArrayLength {
                length,
            },
            StreamDrawDrop::PassRasterSampleCountUnsupported { count } => {
                DropLatch::RasterSampleCount { count }
            },
            StreamDrawDrop::StoreActionOptionsUnsupported { aspect, slot, options } => {
                DropLatch::StoreActionOptions { aspect, slot, options }
            },
        }
    }

    /// The key under which the loss is reported once: the shape that was asked
    /// for, not the object it was asked on.
    pub fn latch(self) -> (latch: DropLatch)
        ensures
            latch == self.latch_of(),
    {
        match self {
            StreamDrawDrop::Unbound { dropped } => DropLatch::Unbound { dropped },
            StreamDrawDrop::DepthStencilUnsupported {
                aspect,
                level,
                slice,
                depth_plane,
                resolve_texture_ref,
            } => DropLatch::DepthStencil {
                aspect,
                level,
                slice,
                depth_plane,
                resolves: resolve_texture_ref != 0,
            },
            StreamDrawDrop::ColorSubresourceUnsupported {
                slot,
                level,
                slice,
                depth_plane,
                resolve_texture_ref,
            } => DropLatch::ColorSubresource {
                slot,
                level,
                slice,
                depth_plane,
                resolves: resolve_texture_ref != 0,
            },
            StreamDrawDrop::PassArrayLengthUnsupported { length } => DropLatch::ArrayLength {
                length,
            },
            StreamDrawDrop::PassRasterSampleCountUnsupported { count } => {
                DropLatch::RasterSampleCount { count }
            },
            StreamDrawDrop::StoreActionOptionsUnsupported { aspect, slot, options } => {
                DropLatch::StoreActionOptions { aspect, slot, options }
            },
        }
    }

    /// The loss, with its resolve target, if it names one, replaced by another.
    pub open spec fn resolving_into(self, reference: u32) -> StreamDrawDrop {
        match self {
            StreamDrawDrop::DepthStencilUnsupported {
                aspect,
                level,
                slice,
                depth_plane,
                resolve_texture_ref,
            } if resolve_texture_ref != 0 => StreamDrawDrop::DepthStencilUnsupported {
                aspect,
                level,
                slice,
                depth_plane,
                resolve_texture_ref: reference,
            },
            StreamDrawDrop::ColorSubresourceUnsupported {
                slot,
                level,
                slice,
                depth_plane,
                resolve_texture_ref,
            } if resolve_texture_ref != 0 => StreamDrawDrop::ColorSubresourceUnsupported {
                slot,
                level,
                slice,
                depth_plane,
                resolve_texture_ref: reference,
            },
            _ => self,
        }
    }
}

/// The key of a loss: everything that was asked for, and of a resolve only
/// whether it has a target.
#[derive(Clone, Copy, Debug, PartialEq, Eq, Structural, Hash)]
#[allow(inconsistent_fields)]
pub enum DropLatch {
    Unbound { dropped: u32 },
    DepthStencil { aspect: PassAspect, level: u32, slice: u32, depth_plane: u32, resolves: bool },
    ColorSubresource { slot: u32, level: u32, slice: u32, depth_plane: u32, resolves: bool },
    ArrayLength { length: u64 },
    RasterSampleCount { count: u64 },
    StoreActionOptions { aspect: PassAspect, slot: u32, options: u64 },
}

/// Two losses share a key exactly where they are the same but for which texture
/// they resolve into.
pub proof fn lemma_drops_share_a_latch_where_they_share_a_shape(
    one: StreamDrawDrop,
    other: StreamDrawDrop,
    reference: u32,
)
    requires
        reference != 0,
    ensures
        one.latch_of() == other.latch_of() <==> one.resolving_into(reference)
            == other.resolving_into(reference),
{
}

/// A shader stage that a render record can bind to.
#[derive(Clone, Copy, Debug, PartialEq, Eq, Structural, Hash)]
pub enum ShaderStage {
    Vertex,
    Fragment,
}

impl ShaderStage {
    pub open spec fn name_of(self) -> Seq<char> {
        match self {
            ShaderStage::Vertex => "vertex"@,
            ShaderStage::Fragment => "fragment"@,
        }
    }

    /// The stage's name in a report.
    pub fn name(self) -> (name: &'static str)
        ensures
            name@ == self.name_of(),
    {
        match self {
            ShaderStage::Vertex => "vertex",
            ShaderStage::Fragment => "fragment",
        }
    }
}

/// The argument table that a bind goes to.
#[derive(Clone, Copy, Debug, PartialEq, Eq, Structural)]
pub enum BindClass {
    Buffer,
    Texture,
    Sampler,
}

/// The buffers that the serializer writes at most.
pub const SERIALIZED_BUFFERS: u32 = 31;

/// The textures that the serializer writes at most.
pub const SERIALIZED_TEXTURES: u32 = 128;

/// The samplers that the serializer writes at most.
pub const SERIALIZED_SAMPLERS: u32 = 16;

impl BindClass {
    pub open spec fn table_of(self) -> u32 {
        match self {
            BindClass::Buffer => MAX_BUFFER_BIND_SLOTS,
            BindClass::Texture => MAX_TEXTURE_BIND_SLOTS,
            BindClass::Sampler => MAX_SAMPLER_BIND_SLOTS,
        }
    }

    /// How many slots the table has.
    pub fn table(self) -> (slots: u32)
        ensures
            slots == self.table_of(),
    {
        match self {
            BindClass::Buffer => MAX_BUFFER_BIND_SLOTS,
            BindClass::Texture => MAX_TEXTURE_BIND_SLOTS,
            BindClass::Sampler => MAX_SAMPLER_BIND_SLOTS,
        }
    }

    pub open spec fn past_table_route_of(self) -> Seq<char> {
        match self {
            BindClass::Buffer => "render_buffer_bind_slot_past_table"@,
            BindClass::Texture => "render_texture_bind_slot_past_table"@,
            BindClass::Sampler => "render_sampler_bind_slot_past_table"@,
        }
    }

    /// The name under which slots past the table are counted.
    pub fn past_table_route(self) -> (route: &'static str)
        ensures
            route@ == self.past_table_route_of(),
    {
        match self {
            BindClass::Buffer => "render_buffer_bind_slot_past_table",
            BindClass::Texture => "render_texture_bind_slot_past_table",
            BindClass::Sampler => "render_sampler_bind_slot_past_table",
        }
    }

    pub open spec fn apple_table_of(self) -> u32 {
        match self {
            BindClass::Buffer => SERIALIZED_BUFFERS,
            BindClass::Texture => SERIALIZED_TEXTURES,
            BindClass::Sampler => SERIALIZED_SAMPLERS,
        }
    }

    /// How many slots the serializer writes at most.
    pub fn apple_table(self) -> (slots: u32)
        ensures
            slots == self.apple_table_of(),
    {
        match self {
            BindClass::Buffer => SERIALIZED_BUFFERS,
            BindClass::Texture => SERIALIZED_TEXTURES,
            BindClass::Sampler => SERIALIZED_SAMPLERS,
        }
    }

    pub open spec fn reach_route_of(self, reach: u32) -> Seq<char> {
        match self {
            BindClass::Buffer => if reach <= SERIALIZED_SAMPLERS {
                "render_bind_reach_buffer_le16"@
            } else if reach <= self.table_of() {
                "render_bind_reach_buffer_le_table"@
            } else {
                "render_bind_reach_buffer_over_table"@
            },
            BindClass::Texture => if reach <= SERIALIZED_SAMPLERS {
                "render_bind_reach_texture_le16"@
            } else if reach <= self.table_of() {
                "render_bind_reach_texture_le_table"@
            } else {
                "render_bind_reach_texture_over_table"@
            },
            BindClass::Sampler => if reach <= SERIALIZED_SAMPLERS {
                "render_bind_reach_sampler_le16"@
            } else if reach <= self.table_of() {
                "render_bind_reach_sampler_le_table"@
            } else {
                "render_bind_reach_sampler_over_table"@
            },
        }
    }

    /// The name under which a record is counted that reaches up to `reach`
    /// slots.
    pub fn reach_route(self, reach: u32) -> (route: &'static str)
        ensures
            route@ == self.reach_route_of(reach),
    {
        match self {
            BindClass::Buffer => {
                if reach <= SERIALIZED_SAMPLERS {
                    "render_bind_reach_buffer_le16"
                } else if reach <= MAX_BUFFER_BIND_SLOTS {
                    "render_bind_reach_buffer_le_table"
                } else {
                    "render_bind_reach_buffer_over_table"
                }
            },
            BindClass::Texture => {
                if reach <= SERIALIZED_SAMPLERS {
                    "render_bind_reach_texture_le16"
                } else if reach <= MAX_TEXTURE_BIND_SLOTS {
                    "render_bind_reach_texture_le_table"
                } else {
                    "render_bind_reach_texture_over_table"
                }
            },
            BindClass::Sampler => {
                if reach <= SERIALIZED_SAMPLERS {
                    "render_bind_reach_sampler_le16"
                } else if reach <= MAX_SAMPLER_BIND_SLOTS {
                    "render_bind_reach_sampler_le_table"
                } else {
                    "render_bind_reach_sampler_over_table"
                }
            },
        }
    }
}

/// No record that the serializer writes reaches past a table. The tables of
/// buffers and textures are no longer than that.
pub proof fn lemma_tables_hold_what_the_serializer_writes(class: BindClass)
    ensures
        class.apple_table_of() <= class.table_of(),
        class.apple_table_of() == class.table_of() <==> class != BindClass::Sampler,
{
}

/// A bind whose slots run past its table.
#[derive(Clone, Copy, Debug, PartialEq, Eq, Structural)]
pub struct BindSlotPastTable {
    pub class: BindClass,
    pub stage: ShaderStage,
    /// The first slot past the table.
    pub index: u32,
    /// How many slots of the record are lost with it.
    pub slots: u32,
}

impl BindSlotPastTable {
    pub open spec fn fields_of(self) -> Seq<(Seq<char>, FieldView)> {
        seq![
            ("stage"@, FieldView::Name(self.stage.name_of())),
            ("index"@, FieldView::Decimal(self.index as u64)),
            ("slots"@, FieldView::Decimal(self.slots as u64)),
            ("table"@, FieldView::Decimal(self.class.table_of() as u64)),
            ("apple_table"@, FieldView::Decimal(self.class.apple_table_of() as u64)),
        ]
    }

    /// The name under which the loss is reported.
    pub fn slug(&self) -> (slug: &'static str)
        ensures
            slug@ == self.class.past_table_route_of(),
    {
        self.class.past_table_route()
    }

    /// The values that the report states.
    pub fn fields(&self) -> (fields: Vec<(&'static str, FieldValue)>)
        ensures
            fields_view(fields@) == self.fields_of(),
    {
        let fields = vec![
            ("stage", FieldValue::Name(self.stage.name())),
            ("index", FieldValue::Decimal(self.index as u64)),
            ("slots", FieldValue::Decimal(self.slots as u64)),
            ("table", FieldValue::Decimal(self.class.table() as u64)),
            ("apple_table", FieldValue::Decimal(self.class.apple_table() as u64)),
        ];
        assert(fields_view(fields@) =~= self.fields_of());
        fields
    }
}

/// A buffer offset for a slot past the table.
#[derive(Clone, Copy, Debug, PartialEq, Eq, Structural)]
pub struct BufferOffsetSlotPastTable {
    pub stage: ShaderStage,
    pub index: u32,
}

/// The name under which an offset past the table is reported.
pub open spec fn offset_past_table_slug() -> Seq<char> {
    "render_buffer_offset_slot_past_table"@
}

impl BufferOffsetSlotPastTable {
    pub open spec fn fields_of(self) -> Seq<(Seq<char>, FieldView)> {
        seq![
            ("stage"@, FieldView::Name(self.stage.name_of())),
            ("index"@, FieldView::Decimal(self.index as u64)),
            ("table"@, FieldView::Decimal(BindClass::Buffer.table_of() as u64)),
            ("apple_table"@, FieldView::Decimal(BindClass::Buffer.apple_table_of() as u64)),
        ]
    }

    /// The name under which the loss is reported.
    pub fn slug(&self) -> (slug: &'static str)
        ensures
            slug@ == offset_past_table_slug(),
    {
        "render_buffer_offset_slot_past_table"
    }

    /// The values that the report states.
    pub fn fields(&self) -> (fields: Vec<(&'static str, FieldValue)>)
        ensures
            fields_view(fields@) == self.fields_of(),
    {
        let fields = vec![
            ("stage", FieldValue::Name(self.stage.name())),
            ("index", FieldValue::Decimal(self.index as u64)),
            ("table", FieldValue::Decimal(BindClass::Buffer.table() as u64)),
            ("apple_table", FieldValue::Decimal(BindClass::Buffer.apple_table() as u64)),
        ];
        assert(fields_view(fields@) =~= self.fields_of());
        fields
    }
}

/// Why a stream's state is not what it was asked to be.
#[derive(Clone, Copy, Debug, PartialEq, Eq, Structural)]
pub enum StreamRefusal {
    Bind(BindSlotPastTable),
    Pass(StreamDrawDrop),
    BufferOffset(BufferOffsetSlotPastTable),
}

/// The key of a refusal: its kind, and the slot or the loss.
#[derive(Clone, Copy, Debug, PartialEq, Eq, Structural, Hash)]
#[allow(inconsistent_fields)]
pub enum RefusalLatch {
    Bind { stage: ShaderStage, index: u32 },
    Pass(DropLatch),
    BufferOffset { stage: ShaderStage, index: u32 },
}

impl StreamRefusal {
    pub open spec fn slug_of(self) -> Seq<char> {
        match self {
            StreamRefusal::Bind(over) => over.class.past_table_route_of(),
            StreamRefusal::Pass(drop) => drop.slug_of(),
            StreamRefusal::BufferOffset(_) => offset_past_table_slug(),
        }
    }

    /// The name of what the stream could not carry.
    pub fn slug(&self) -> (slug: &'static str)
        ensures
            slug@ == self.slug_of(),
    {
        match self {
            StreamRefusal::Bind(over) => over.slug(),
            StreamRefusal::Pass(drop) => drop.slug(),
            StreamRefusal::BufferOffset(over) => over.slug(),
        }
    }

    pub open spec fn fields_of(self) -> Seq<(Seq<char>, FieldView)> {
        match self {
            StreamRefusal::Bind(over) => over.fields_of(),
            StreamRefusal::Pass(drop) => drop.fields_of(),
            StreamRefusal::BufferOffset(over) => over.fields_of(),
        }
    }

    /// The values that a report of what the stream could not carry states.
    pub fn fields(&self) -> (fields: Vec<(&'static str, FieldValue)>)
        ensures
            fields_view(fields@) == self.fields_of(),
    {
        match self {
            StreamRefusal::Bind(over) => over.fields(),
            StreamRefusal::Pass(drop) => drop.fields(),
            StreamRefusal::BufferOffset(over) => over.fields(),
        }
    }

    pub open spec fn latch_of(self) -> RefusalLatch {
        match self {
            StreamRefusal::Bind(over) => RefusalLatch::Bind {
                stage: over.stage,
                index: over.index,
            },
            StreamRefusal::Pass(drop) => RefusalLatch::Pass(drop.latch_of()),
            StreamRefusal::BufferOffset(over) => RefusalLatch::BufferOffset {
                stage: over.stage,
                index: over.index,
            },
        }
    }

    /// The key under which the refusal is reported once, beside its name.
    pub fn latch(self) -> (latch: RefusalLatch)
        ensures
            latch == self.latch_of(),
    {
        match self {
            StreamRefusal::Bind(over) => RefusalLatch::Bind {
                stage: over.stage,
                index: over.index,
            },
            StreamRefusal::Pass(drop) => RefusalLatch::Pass(drop.latch()),
            StreamRefusal::BufferOffset(over) => RefusalLatch::BufferOffset {
                stage: over.stage,
                index: over.index,
            },
        }
    }
}

/// Refusals of different kinds never share a key.
pub proof fn lemma_refusals_of_different_kinds_have_different_latches(
    bind: BindSlotPastTable,
    drop: StreamDrawDrop,
    offset: BufferOffsetSlotPastTable,
)
    ensures
        StreamRefusal::Bind(bind).latch_of() != StreamRefusal::Pass(drop).latch_of(),
        StreamRefusal::Bind(bind).latch_of() != StreamRefusal::BufferOffset(offset).latch_of(),
        StreamRefusal::Pass(drop).latch_of() != StreamRefusal::BufferOffset(offset).latch_of(),
{
}

/// Refused passes share a key exactly where what they lose does.
pub proof fn lemma_refused_passes_are_told_apart_by_their_losses(
    one: StreamDrawDrop,
    other: StreamDrawDrop,
)
    ensures
        StreamRefusal::Pass(one).latch_of() == StreamRefusal::Pass(other).latch_of()
            <==> one.latch_of() == other.latch_of(),
{
}

/// Binds, and offsets, share a key exactly where they name one slot of a stage.
pub proof fn lemma_slots_have_their_own_latches(
    one: BindSlotPastTable,
    other: BindSlotPastTable,
    one_offset: BufferOffsetSlotPastTable,
    other_offset: BufferOffsetSlotPastTable,
)
    ensures
        StreamRefusal::Bind(one).latch_of() == StreamRefusal::Bind(other).latch_of() <==> (
        one.stage == other.stage && one.index == other.index),
        StreamRefusal::BufferOffset(one_offset).latch_of() == StreamRefusal::BufferOffset(
            other_offset,
        ).latch_of() <==> one_offset == other_offset,
{
}

/// The name under which a refused draw is counted.
pub open spec fn draw_refused_route() -> Seq<char> {
    "render_draw_refused_unrepresentable"@
}

/// What is reported of a draw that a stream's state cannot carry: the name
/// under which it is counted, the name of the reason, and the key under which
/// that is reported once.
pub fn note_draw_refused(refusal: StreamRefusal) -> (note: (
    &'static str,
    &'static str,
    RefusalLatch,
))
    ensures
        note.0@ == draw_refused_route(),
        note.1@ == refusal.slug_of(),
        note.2 == refusal.latch_of(),
{
    ("render_draw_refused_unrepresentable", refusal.slug(), refusal.latch())
}

} // verus!
