//! Residency declarations: nothing is kept resident for them, so only what
//! they declare is counted.

use vstd::prelude::*;

use crate::refusals::{fields_view, FieldValue, FieldView};

verus! {

/// What a declaration says its resources are used for.
#[derive(Clone, Copy, Debug, PartialEq, Eq, Structural)]
pub enum UsageClass {
    Empty,
    ReadOnly,
    Writes,
    /// Bits that no usage has.
    Undeclared,
}

/// The usage of a declaration.
#[derive(Clone, Copy, Debug, PartialEq, Eq, Structural)]
pub struct DeclaredUsage {
    pub bits: u32,
    /// Those of the bits that no usage has.
    pub undeclared_bits: u32,
    pub class: UsageClass,
}

/// The stages of a declaration.
#[derive(Clone, Copy, Debug, PartialEq, Eq, Structural)]
pub struct DeclaredStages {
    pub bits: u32,
    /// Whether it names a stage that is never run.
    pub unexecuted: bool,
    /// Whether it has bits that no stage has.
    pub undeclared: bool,
}

/// A residency declaration.
#[derive(Clone, Copy, Debug, PartialEq, Eq, Structural)]
pub struct ResidencyRecord {
    pub opcode: u32,
    /// How many things it declares.
    pub count: u64,
    /// Whether it declares heaps, and not resources.
    pub heaps: bool,
    pub usage: Option<DeclaredUsage>,
    pub stages: Option<DeclaredStages>,
}

/// A declaration on the render rail that is a loss.
#[derive(Clone, Copy, Debug, PartialEq, Eq, Structural)]
pub struct ResidencyWriteDeclared {
    pub opcode: u32,
    pub count: u64,
    pub usage: DeclaredUsage,
    /// The stages, in a record that states stages.
    pub stages: Option<DeclaredStages>,
}

impl ResidencyWriteDeclared {
    pub open spec fn slug_of(self) -> Seq<char> {
        if self.usage.class == UsageClass::Undeclared {
            "render_residency_usage_undeclared"@
        } else {
            "render_residency_write_dropped"@
        }
    }

    /// The name under which the loss is reported.
    pub fn slug(&self) -> (slug: &'static str)
        ensures
            slug@ == self.slug_of(),
    {
        match self.usage.class {
            UsageClass::Undeclared => "render_residency_usage_undeclared",
            _ => "render_residency_write_dropped",
        }
    }

    pub open spec fn fields_of(self) -> Seq<(Seq<char>, FieldView)> {
        seq![
            ("op"@, FieldView::Hex(self.opcode as u64)),
            ("count"@, FieldView::Decimal(self.count)),
            ("usage"@, FieldView::Hex(self.usage.bits as u64)),
            (
                "stages"@,
                match self.stages {
                    None => FieldView::Name("none"@),
                    Some(stages) => FieldView::Hex(stages.bits as u64),
                },
            ),
            ("undeclared_usage"@, FieldView::Hex(self.usage.undeclared_bits as u64)),
        ]
    }

    /// The values that the report states. A record without stages states none,
    /// and not a set without any.
    pub fn fields(&self) -> (fields: Vec<(&'static str, FieldValue)>)
        ensures
            fields_view(fields@) == self.fields_of(),
    {
        let stages = match self.stages {
            None => FieldValue::Name("none"),
            Some(stages) => FieldValue::Hex(stages.bits as u64),
        };
        let fields = vec![
            ("op", FieldValue::Hex(self.opcode as u64)),
            ("count", FieldValue::Decimal(self.count)),
            ("usage", FieldValue::Hex(self.usage.bits as u64)),
            ("stages", stages),
            ("undeclared_usage", FieldValue::Hex(self.usage.undeclared_bits as u64)),
        ];
        assert(fields_view(fields@) =~= self.fields_of());
        fields
    }

    pub open spec fn key_of(self) -> u64 {
        (self.usage.bits as u64) << 32 | match self.stages {
            Some(stages) => stages.bits as u64,
            None => 0u64,
        }
    }

    /// The key under which the loss is reported once.
    pub fn key(&self) -> (key: u64)
        ensures
            key == self.key_of(),
    {
        let stage_bits: u64 = match self.stages {
            Some(stages) => stages.bits as u64,
            None => 0,
        };
        (self.usage.bits as u64) << 32 | stage_bits
    }
}

/// A declaration on the compute rail that is a loss. None of its records states
/// stages.
#[derive(Clone, Copy, Debug, PartialEq, Eq, Structural)]
pub struct ComputeResidencyDeclared {
    pub opcode: u32,
    pub count: u64,
    pub usage: DeclaredUsage,
}

impl ComputeResidencyDeclared {
    pub open spec fn slug_of(self) -> Seq<char> {
        if self.usage.class == UsageClass::Undeclared {
            "compute_residency_usage_undeclared"@
        } else {
            "compute_residency_write_dropped"@
        }
    }

    /// The name under which the loss is reported.
    pub fn slug(&self) -> (slug: &'static str)
        ensures
            slug@ == self.slug_of(),
    {
        match self.usage.class {
            UsageClass::Undeclared => "compute_residency_usage_undeclared",
            _ => "compute_residency_write_dropped",
        }
    }

    pub open spec fn fields_of(self) -> Seq<(Seq<char>, FieldView)> {
        seq![
            ("op"@, FieldView::Hex(self.opcode as u64)),
            ("count"@, FieldView::Decimal(self.count)),
            ("usage"@, FieldView::Hex(self.usage.bits as u64)),
            ("undeclared_usage"@, FieldView::Hex(self.usage.undeclared_bits as u64)),
        ]
    }

    /// The values that the report states.
    pub fn fields(&self) -> (fields: Vec<(&'static str, FieldValue)>)
        ensures
            fields_view(fields@) == self.fields_of(),
    {
        let fields = vec![
            ("op", FieldValue::Hex(self.opcode as u64)),
            ("count", FieldValue::Decimal(self.count)),
            ("usage", FieldValue::Hex(self.usage.bits as u64)),
            ("undeclared_usage", FieldValue::Hex(self.usage.undeclared_bits as u64)),
        ];
        assert(fields_view(fields@) =~= self.fields_of());
        fields
    }
}

/// The loss that a declaration stands for.
#[derive(Debug, PartialEq, Eq)]
pub struct ResidencyDecline {
    pub slug: &'static str,
    /// The key under which it is reported once.
    pub key: u64,
    /// The values that the report states.
    pub fields: Vec<(&'static str, FieldValue)>,
}

/// What contracts say of a loss.
#[verifier::ext_equal]
pub struct ResidencyDeclineView {
    pub slug: Seq<char>,
    pub key: u64,
    pub fields: Seq<(Seq<char>, FieldView)>,
}

impl View for ResidencyDecline {
    type V = ResidencyDeclineView;

    open spec fn view(&self) -> ResidencyDeclineView {
        ResidencyDeclineView {
            slug: self.slug@,
            key: self.key,
            fields: fields_view(self.fields@),
        }
    }
}

/// What is reported of a declaration.
#[derive(Debug, PartialEq, Eq)]
pub struct ResidencyReport {
    /// The names under which it is counted.
    pub routes: Vec<&'static str>,
    /// The loss that it stands for.
    pub decline: Option<ResidencyDecline>,
}

/// What contracts say of a report.
#[verifier::ext_equal]
pub struct ResidencyReportView {
    pub routes: Seq<Seq<char>>,
    pub decline: Option<ResidencyDeclineView>,
}

/// The contents of a list of names.
pub open spec fn names_view(names: Seq<&'static str>) -> Seq<Seq<char>> {
    Seq::new(names.len(), |i: int| names[i]@)
}

impl View for ResidencyReport {
    type V = ResidencyReportView;

    open spec fn view(&self) -> ResidencyReportView {
        ResidencyReportView {
            routes: names_view(self.routes@),
            decline: match self.decline {
                Some(decline) => Some(decline@),
                None => None,
            },
        }
    }
}

/// The name for what a render declaration declares.
pub open spec fn render_residency_route(record: ResidencyRecord) -> Seq<char> {
    if record.heaps {
        "render_residency_heap"@
    } else {
        match record.usage {
            None => "render_residency_resource_without_usage"@,
            Some(usage) => match usage.class {
                UsageClass::Empty => "render_residency_empty"@,
                UsageClass::ReadOnly => "render_residency_read"@,
                UsageClass::Writes => "render_residency_write"@,
                UsageClass::Undeclared => "render_residency_undeclared"@,
            },
        }
    }
}

/// The names for a render declaration's stages.
pub open spec fn stage_routes(stages: Option<DeclaredStages>) -> Seq<Seq<char>> {
    match stages {
        None => Seq::empty(),
        Some(stages) => (if stages.unexecuted {
            seq!["render_residency_unexecuted_stage"@]
        } else {
            Seq::empty()
        }) + (if stages.undeclared {
            seq!["render_residency_stages_undeclared"@]
        } else {
            Seq::empty()
        }),
    }
}

/// The usage that dropping a declaration loses: one that writes, or that says
/// what no usage does.
pub open spec fn lost_usage(record: ResidencyRecord) -> Option<DeclaredUsage> {
    if record.heaps {
        None
    } else {
        match record.usage {
            Some(usage) => match usage.class {
                UsageClass::Writes | UsageClass::Undeclared => Some(usage),
                _ => None,
            },
            None => None,
        }
    }
}

/// What is reported of a render declaration.
pub open spec fn render_residency(record: ResidencyRecord) -> ResidencyReportView {
    ResidencyReportView {
        routes: seq![render_residency_route(record)] + stage_routes(record.stages),
        decline: match lost_usage(record) {
            None => None,
            Some(usage) => {
                let declared = ResidencyWriteDeclared {
                    opcode: record.opcode,
                    count: record.count,
                    usage,
                    stages: record.stages,
                };
                Some(
                    ResidencyDeclineView {
                        slug: declared.slug_of(),
                        key: declared.key_of(),
                        fields: declared.fields_of(),
                    },
                )
            },
        },
    }
}

/// Reports a render declaration.
pub fn note_residency_declaration(record: ResidencyRecord) -> (report: ResidencyReport)
    ensures
        report@ == render_residency(record),
{
    let mut routes: Vec<&'static str> = Vec::new();
    let route = if record.heaps {
        "render_residency_heap"
    } else {
        match record.usage {
            None => "render_residency_resource_without_usage",
            Some(usage) => match usage.class {
                UsageClass::Empty => "render_residency_empty",
                UsageClass::ReadOnly => "render_residency_read",
                UsageClass::Writes => "render_residency_write",
                UsageClass::Undeclared => "render_residency_undeclared",
            },
        }
    };
    routes.push(route);
    if let Some(stages) = record.stages {
        if stages.unexecuted {
            routes.push("render_residency_unexecuted_stage");
        }
        if stages.undeclared {
            routes.push("render_residency_stages_undeclared");
        }
    }
    assert(names_view(routes@) =~= render_residency(record).routes);
    let mut decline: Option<ResidencyDecline> = None;
    if let Some(usage) = record.usage {
        let lost = match usage.class {
            UsageClass::Writes | UsageClass::Undeclared => true,
            _ => false,
        };
        if lost && !record.heaps {
            let declared = ResidencyWriteDeclared {
                opcode: record.opcode,
                count: record.count,
                usage,
                stages: record.stages,
            };
            decline = Some(
                ResidencyDecline {
                    slug: declared.slug(),
                    key: declared.key(),
                    fields: declared.fields(),
                },
            );
        }
    }
    ResidencyReport { routes, decline }
}

/// The loss that a compute declaration stands for.
pub open spec fn compute_decline(record: ResidencyRecord) -> Option<ResidencyDeclineView> {
    match lost_usage(record) {
        None => None,
        Some(usage) => {
            let declared = ComputeResidencyDeclared {
                opcode: record.opcode,
                count: record.count,
                usage,
            };
            Some(
                ResidencyDeclineView {
                    slug: declared.slug_of(),
                    key: usage.bits as u64,
                    fields: declared.fields_of(),
                },
            )
        },
    }
}

/// What is reported of a compute declaration. A declaration of resources that
/// states no usage is none, and nothing is counted for it.
pub open spec fn compute_residency(record: ResidencyRecord) -> Option<ResidencyReportView> {
    if record.heaps {
        Some(ResidencyReportView { routes: seq!["compute_residency_heap"@], decline: None })
    } else {
        match record.usage {
            None => None,
            Some(usage) => Some(
                ResidencyReportView {
                    routes: seq![
                        match usage.class {
                            UsageClass::Empty => "compute_residency_empty"@,
                            UsageClass::ReadOnly => "compute_residency_read"@,
                            UsageClass::Writes => "compute_residency_write"@,
                            UsageClass::Undeclared => "compute_residency_undeclared"@,
                        },
                    ],
                    decline: compute_decline(record),
                },
            ),
        }
    }
}

fn one_route(route: &'static str, decline: Option<ResidencyDecline>) -> (report: ResidencyReport)
    ensures
        report.decline == decline,
        names_view(report.routes@) == seq![route@],
{
    let mut routes: Vec<&'static str> = Vec::new();
    routes.push(route);
    assert(names_view(routes@) =~= seq![route@]);
    ResidencyReport { routes, decline }
}

fn declined(record: ResidencyRecord, usage: DeclaredUsage) -> (decline: ResidencyDecline)
    requires
        lost_usage(record) == Some(usage),
    ensures
        compute_decline(record) == Some(decline@),
{
    let declared = ComputeResidencyDeclared {
        opcode: record.opcode,
        count: record.count,
        usage,
    };
    ResidencyDecline {
        slug: declared.slug(),
        key: usage.bits as u64,
        fields: declared.fields(),
    }
}

/// Reports a compute declaration.
pub fn note_compute_residency(record: ResidencyRecord) -> (report: Option<ResidencyReport>)
    ensures
        match report {
            Some(report) => compute_residency(record) == Some(report@),
            None => compute_residency(record) is None,
        },
{
    if record.heaps {
        return Some(one_route("compute_residency_heap", None));
    }
    match record.usage {
        None => None,
        Some(usage) => Some(
            match usage.class {
                UsageClass::Empty => one_route("compute_residency_empty", None),
                UsageClass::ReadOnly => one_route("compute_residency_read", None),
                UsageClass::Writes => one_route(
                    "compute_residency_write",
                    Some(declined(record, usage)),
                ),
                UsageClass::Undeclared => one_route(
                    "compute_residency_undeclared",
                    Some(declined(record, usage)),
                ),
            },
        ),
    }
}

/// A declaration that only reads is never a loss, on either rail.
pub proof fn lemma_reads_lose_nothing(record: ResidencyRecord)
    requires
        match record.usage {
            Some(usage) => usage.class == UsageClass::Empty || usage.class == UsageClass::ReadOnly,
            None => true,
        },
    ensures
        render_residency(record).decline is None,
        match compute_residency(record) {
            Some(report) => report.decline is None,
            None => true,
        },
{
}

/// A declaration is a loss if and only if it is of resources and says that they
/// are written, or what no usage does; it is then reported with its own usage.
/// Heaps, reads and declarations of nothing lose nothing.
pub proof fn lemma_a_declaration_loses_its_writes(record: ResidencyRecord)
    ensures
        ({
            let loses = !record.heaps && record.usage is Some && (record.usage->0.class is Writes
                || record.usage->0.class is Undeclared);
            &&& render_residency(record).decline is Some <==> loses
            &&& compute_residency(record) matches Some(report) ==> (report.decline is Some
                <==> loses)
            &&& compute_residency(record) is None <==> !record.heaps && record.usage is None
            &&& loses ==> lost_usage(record) == record.usage
            &&& render_residency(record).routes.len() == 1 + if record.stages is Some
                && record.stages->0.unexecuted {
                1int
            } else {
                0int
            } + if record.stages is Some && record.stages->0.undeclared {
                1int
            } else {
                0int
            }
        }),
{
}

} // verus!
