//! A node's GPU work as data: which passes run, over what, and what is bound
//! where. By convention group 0 is read, group 1 is written, group 2 holds the
//! parameters and group 3 the lookup tables.

use vstd::prelude::*;

verus! {

/// Something a pass binds.
#[derive(Clone, Copy, Debug, PartialEq, Eq, Structural)]
pub enum Resource {
    /// The node's input tile.
    Input,
    /// The node's output tile.
    Output,
    /// A scratch texture, by its index.
    Scratch(usize),
    /// The uniform buffer.
    Uniform,
    /// A storage buffer, by its index.
    Storage(usize),
    /// The three-dimensional lookup table.
    Table,
}

/// A resource and where it is bound.
#[derive(Clone, Copy, Debug, PartialEq, Eq, Structural)]
pub struct BindSlot {
    /// The bind group.
    pub group: u32,
    /// The binding in the group.
    pub binding: u32,
    /// What is bound.
    pub resource: Resource,
}

/// What a pass runs over, and how large a scratch texture is.
#[derive(Clone, Copy, Debug, PartialEq, Eq, Structural)]
pub enum Coverage {
    /// The whole output extent.
    Frame,
    /// One pixel: a reduction by a single workgroup.
    Pixel,
}

/// One compute pass.
#[derive(Clone, Debug, PartialEq, Eq)]
pub struct Pass {
    /// The kernel's entry point.
    pub entry: &'static str,
    /// What it runs over.
    pub coverage: Coverage,
    /// What it binds.
    pub slots: Vec<BindSlot>,
}

/// A node's compute passes, in order, and the scratch textures between them.
#[derive(Clone, Debug, PartialEq, Eq)]
pub struct GpuPlan {
    /// Scratch textures.
    pub scratch: Vec<Coverage>,
    /// Passes.
    pub passes: Vec<Pass>,
}

/// A pass, mathematically.
pub struct PassModel {
    /// The kernel's entry point.
    pub entry: Seq<char>,
    /// What it runs over.
    pub coverage: Coverage,
    /// What it binds.
    pub slots: Seq<BindSlot>,
}

/// A plan, mathematically.
pub struct PlanModel {
    /// Scratch textures.
    pub scratch: Seq<Coverage>,
    /// Passes.
    pub passes: Seq<PassModel>,
}

impl View for Pass {
    type V = PassModel;

    open spec fn view(&self) -> PassModel {
        PassModel { entry: self.entry@, coverage: self.coverage, slots: self.slots@ }
    }
}

impl View for GpuPlan {
    type V = PlanModel;

    open spec fn view(&self) -> PlanModel {
        PlanModel {
            scratch: self.scratch@,
            passes: Seq::new(self.passes@.len(), |i: int| self.passes@[i]@),
        }
    }
}

/// The slot of `resource` at a group and binding.
pub open spec fn at(group: u32, binding: u32, resource: Resource) -> BindSlot {
    BindSlot { group, binding, resource }
}

fn slot(group: u32, binding: u32, resource: Resource) -> (r: BindSlot)
    ensures
        r == at(group, binding, resource),
{
    BindSlot { group, binding, resource }
}

impl PassModel {
    /// Whether the pass reads a resource.
    pub open spec fn reads(self, resource: Resource) -> bool {
        exists|i: int|
            0 <= i < self.slots.len() && (#[trigger] self.slots[i]).group == 0
                && self.slots[i].resource == resource
    }

    /// Whether the pass writes a resource.
    pub open spec fn writes(self, resource: Resource) -> bool {
        exists|i: int|
            0 <= i < self.slots.len() && (#[trigger] self.slots[i]).group == 1
                && self.slots[i].resource == resource
    }

    /// No two resources are bound at the same place.
    pub open spec fn slots_apart(self) -> bool {
        forall|i: int, j: int|
            0 <= i < j < self.slots.len() ==> ((#[trigger] self.slots[i]).group != (
            #[trigger] self.slots[j]).group || self.slots[i].binding != self.slots[j].binding)
    }
}

impl PlanModel {
    /// The plan hangs together: no two resources share a binding, only scratch
    /// textures that exist and that an earlier pass wrote are read, and the
    /// last pass, and no other, writes the output.
    pub open spec fn sound(self) -> bool {
        &&& self.passes.len() > 0
        &&& forall|k: int| 0 <= k < self.passes.len() ==> (#[trigger] self.passes[k]).slots_apart()
        &&& forall|k: int|
            0 <= k < self.passes.len() ==> (#[trigger] self.passes[k]).writes(Resource::Output) == (
            k == self.passes.len() - 1)
        &&& forall|k: int, s: usize|
            0 <= k < self.passes.len() && #[trigger] self.passes[k].reads(Resource::Scratch(s))
                ==> self.written_before(k, s)
        &&& forall|k: int, s: usize|
            0 <= k < self.passes.len() && #[trigger] self.passes[k].writes(Resource::Scratch(s))
                ==> s < self.scratch.len()
    }

    /// An earlier pass wrote the scratch texture.
    pub open spec fn written_before(self, k: int, s: usize) -> bool {
        exists|j: int| 0 <= j < k && (#[trigger] self.passes[j]).writes(Resource::Scratch(s))
    }
}

/// The one pass of a pointwise node: read the input, write the output, with
/// `extra` bound besides.
pub open spec fn pointwise(extra: Seq<BindSlot>) -> PlanModel {
    PlanModel {
        scratch: Seq::empty(),
        passes: seq![
            PassModel {
                entry: "main"@,
                coverage: Coverage::Frame,
                slots: seq![at(0, 0, Resource::Input), at(1, 0, Resource::Output)] + extra,
            },
        ],
    }
}

/// Slots that hold no tile and no scratch, and none of which share a place.
pub open spec fn side_slots(extra: Seq<BindSlot>) -> bool {
    &&& forall|i: int|
        0 <= i < extra.len() ==> (#[trigger] extra[i]).group >= 2
    &&& forall|i: int, j: int|
        0 <= i < j < extra.len() ==> ((#[trigger] extra[i]).group != (#[trigger] extra[j]).group
            || extra[i].binding != extra[j].binding)
}

/// The plan of a pointwise node, with `extra` bound besides its tiles.
fn pointwise_plan(extra: Vec<BindSlot>) -> (r: GpuPlan)
    requires
        side_slots(extra@),
    ensures
        r@ == pointwise(extra@),
        r@.sound(),
{
    let ghost more = extra@;
    let mut slots: Vec<BindSlot> = Vec::new();
    slots.push(slot(0, 0, Resource::Input));
    slots.push(slot(1, 0, Resource::Output));
    let mut i: usize = 0;
    while i < extra.len()
        invariant
            i <= extra.len(),
            extra@ == more,
            slots@ == seq![at(0, 0, Resource::Input), at(1, 0, Resource::Output)] + more.take(
                i as int,
            ),
        decreases extra.len() - i,
    {
        slots.push(extra[i]);
        i = i + 1;
        assert(slots@ =~= seq![at(0, 0, Resource::Input), at(1, 0, Resource::Output)] + more.take(
            i as int,
        ));
    }
    assert(more.take(i as int) =~= more);
    let mut passes: Vec<Pass> = Vec::new();
    passes.push(Pass { entry: "main", coverage: Coverage::Frame, slots });
    let r = GpuPlan { scratch: Vec::new(), passes };
    assert(r@.scratch =~= Seq::<Coverage>::empty());
    assert(r@.passes =~= pointwise(more).passes);
    proof {
        let only = r@.passes[0];
        let s = only.slots;
        assert(s[1] == at(1, 0, Resource::Output));
        assert(only.writes(Resource::Output));
        assert forall|i: int, j: int| 0 <= i < j < s.len() implies ((#[trigger] s[i]).group != (
        #[trigger] s[j]).group || s[i].binding != s[j].binding) by {
            if i >= 2 {
                assert(s[i] == more[i - 2]);
                assert(s[j] == more[j - 2]);
            } else if j >= 2 {
                assert(s[j] == more[j - 2]);
                assert(more[j - 2].group >= 2);
            }
        }
        assert forall|k: usize| !(#[trigger] only.reads(Resource::Scratch(k))) by {
            assert forall|i: int| 0 <= i < s.len() && (#[trigger] s[i]).group == 0 implies
            s[i].resource != Resource::Scratch(k) by {
                if i >= 2 {
                    assert(s[i] == more[i - 2]);
                }
            }
        }
        assert forall|k: usize| !(#[trigger] only.writes(Resource::Scratch(k))) by {
            assert forall|i: int| 0 <= i < s.len() && (#[trigger] s[i]).group == 1 implies
            s[i].resource != Resource::Scratch(k) by {
                if i >= 2 {
                    assert(s[i] == more[i - 2]);
                }
            }
        }
    }
    r
}

/// The plan of a pointwise node with a uniform buffer.
pub open spec fn uniform_plan() -> PlanModel {
    pointwise(seq![at(2, 0, Resource::Uniform)])
}

/// The plan of a pointwise node with a storage buffer.
pub open spec fn storage_plan() -> PlanModel {
    pointwise(seq![at(2, 0, Resource::Storage(0))])
}

/// The plan of the tone-curve node: a uniform buffer and four curve tables.
pub open spec fn curve_plan() -> PlanModel {
    pointwise(
        seq![
            at(2, 0, Resource::Uniform),
            at(3, 0, Resource::Storage(0)),
            at(3, 1, Resource::Storage(1)),
            at(3, 2, Resource::Storage(2)),
            at(3, 3, Resource::Storage(3)),
        ],
    )
}

/// The plan of the creative-look node: a uniform buffer and a cube.
pub open spec fn cube_plan() -> PlanModel {
    pointwise(seq![at(2, 0, Resource::Uniform), at(3, 0, Resource::Table)])
}

/// A pointwise node with a uniform buffer.
pub fn with_uniform() -> (r: GpuPlan)
    ensures
        r@ == uniform_plan(),
        r@.sound(),
{
    let mut extra: Vec<BindSlot> = Vec::new();
    extra.push(slot(2, 0, Resource::Uniform));
    assert(extra@ =~= seq![at(2, 0, Resource::Uniform)]);
    pointwise_plan(extra)
}

/// A pointwise node with a storage buffer.
pub fn with_storage() -> (r: GpuPlan)
    ensures
        r@ == storage_plan(),
        r@.sound(),
{
    let mut extra: Vec<BindSlot> = Vec::new();
    extra.push(slot(2, 0, Resource::Storage(0)));
    assert(extra@ =~= seq![at(2, 0, Resource::Storage(0))]);
    pointwise_plan(extra)
}

/// A pointwise node with a uniform buffer and four curve tables.
pub fn with_curves() -> (r: GpuPlan)
    ensures
        r@ == curve_plan(),
        r@.sound(),
{
    let mut extra: Vec<BindSlot> = Vec::new();
    extra.push(slot(2, 0, Resource::Uniform));
    extra.push(slot(3, 0, Resource::Storage(0)));
    extra.push(slot(3, 1, Resource::Storage(1)));
    extra.push(slot(3, 2, Resource::Storage(2)));
    extra.push(slot(3, 3, Resource::Storage(3)));
    assert(extra@ =~= seq![
        at(2, 0, Resource::Uniform),
        at(3, 0, Resource::Storage(0)),
        at(3, 1, Resource::Storage(1)),
        at(3, 2, Resource::Storage(2)),
        at(3, 3, Resource::Storage(3)),
    ]);
    pointwise_plan(extra)
}

/// A pointwise node with a uniform buffer and a cube.
pub fn with_cube() -> (r: GpuPlan)
    ensures
        r@ == cube_plan(),
        r@.sound(),
{
    let mut extra: Vec<BindSlot> = Vec::new();
    extra.push(slot(2, 0, Resource::Uniform));
    extra.push(slot(3, 0, Resource::Table));
    assert(extra@ =~= seq![at(2, 0, Resource::Uniform), at(3, 0, Resource::Table)]);
    pointwise_plan(extra)
}

/// The plan of a node that filters into a scratch texture and recombines it
/// with its input.
pub open spec fn filter_plan(filter: Seq<char>, recombine: Seq<char>) -> PlanModel {
    PlanModel {
        scratch: seq![Coverage::Frame],
        passes: seq![
            PassModel {
                entry: filter,
                coverage: Coverage::Frame,
                slots: seq![
                    at(0, 0, Resource::Input),
                    at(1, 0, Resource::Scratch(0)),
                    at(2, 0, Resource::Uniform),
                ],
            },
            PassModel {
                entry: recombine,
                coverage: Coverage::Frame,
                slots: seq![
                    at(0, 0, Resource::Input),
                    at(0, 1, Resource::Scratch(0)),
                    at(1, 1, Resource::Output),
                    at(2, 0, Resource::Uniform),
                ],
            },
        ],
    }
}

/// A node that filters into a scratch texture with one entry point and
/// recombines it with its input with another.
pub fn with_filter(filter: &'static str, recombine: &'static str) -> (r: GpuPlan)
    ensures
        r@ == filter_plan(filter@, recombine@),
        r@.sound(),
{
    let mut first: Vec<BindSlot> = Vec::new();
    first.push(slot(0, 0, Resource::Input));
    first.push(slot(1, 0, Resource::Scratch(0)));
    first.push(slot(2, 0, Resource::Uniform));
    let mut second: Vec<BindSlot> = Vec::new();
    second.push(slot(0, 0, Resource::Input));
    second.push(slot(0, 1, Resource::Scratch(0)));
    second.push(slot(1, 1, Resource::Output));
    second.push(slot(2, 0, Resource::Uniform));
    assert(first@ =~= filter_plan(filter@, recombine@).passes[0].slots);
    assert(second@ =~= filter_plan(filter@, recombine@).passes[1].slots);
    let mut scratch: Vec<Coverage> = Vec::new();
    scratch.push(Coverage::Frame);
    let mut passes: Vec<Pass> = Vec::new();
    passes.push(Pass { entry: filter, coverage: Coverage::Frame, slots: first });
    passes.push(Pass { entry: recombine, coverage: Coverage::Frame, slots: second });
    let r = GpuPlan { scratch, passes };
    assert(r@.scratch =~= filter_plan(filter@, recombine@).scratch);
    assert(r@.passes =~= filter_plan(filter@, recombine@).passes);
    proof {
        assert(r@.passes[0].slots[1] == at(1, 0, Resource::Scratch(0)));
        assert(r@.passes[0].writes(Resource::Scratch(0)));
        assert(r@.passes[1].slots[2] == at(1, 1, Resource::Output));
        assert(r@.passes[1].writes(Resource::Output));
    }
    r
}

/// The plan of the dehaze node: the atmospheric light (one pixel), the
/// transmission map, the refining filter's coefficients, and the recovery.
pub open spec fn haze_plan() -> PlanModel {
    PlanModel {
        scratch: seq![Coverage::Pixel, Coverage::Frame, Coverage::Frame],
        passes: seq![
            PassModel {
                entry: "pass_atmo"@,
                coverage: Coverage::Pixel,
                slots: seq![at(0, 0, Resource::Input), at(1, 0, Resource::Scratch(0))],
            },
            PassModel {
                entry: "pass_trans"@,
                coverage: Coverage::Frame,
                slots: seq![
                    at(0, 0, Resource::Input),
                    at(0, 1, Resource::Scratch(0)),
                    at(1, 0, Resource::Scratch(1)),
                ],
            },
            PassModel {
                entry: "pass_guided_a"@,
                coverage: Coverage::Frame,
                slots: seq![
                    at(0, 0, Resource::Input),
                    at(0, 1, Resource::Scratch(1)),
                    at(1, 0, Resource::Scratch(2)),
                    at(2, 0, Resource::Uniform),
                ],
            },
            PassModel {
                entry: "pass_guided_c"@,
                coverage: Coverage::Frame,
                slots: seq![
                    at(0, 0, Resource::Input),
                    at(0, 1, Resource::Scratch(0)),
                    at(0, 2, Resource::Scratch(2)),
                    at(1, 0, Resource::Output),
                    at(2, 0, Resource::Uniform),
                ],
            },
        ],
    }
}

/// The dehaze node's four passes.
pub fn with_haze() -> (r: GpuPlan)
    ensures
        r@ == haze_plan(),
        r@.sound(),
{
    let mut atmo: Vec<BindSlot> = Vec::new();
    atmo.push(slot(0, 0, Resource::Input));
    atmo.push(slot(1, 0, Resource::Scratch(0)));
    let mut trans: Vec<BindSlot> = Vec::new();
    trans.push(slot(0, 0, Resource::Input));
    trans.push(slot(0, 1, Resource::Scratch(0)));
    trans.push(slot(1, 0, Resource::Scratch(1)));
    let mut guided_a: Vec<BindSlot> = Vec::new();
    guided_a.push(slot(0, 0, Resource::Input));
    guided_a.push(slot(0, 1, Resource::Scratch(1)));
    guided_a.push(slot(1, 0, Resource::Scratch(2)));
    guided_a.push(slot(2, 0, Resource::Uniform));
    let mut guided_c: Vec<BindSlot> = Vec::new();
    guided_c.push(slot(0, 0, Resource::Input));
    guided_c.push(slot(0, 1, Resource::Scratch(0)));
    guided_c.push(slot(0, 2, Resource::Scratch(2)));
    guided_c.push(slot(1, 0, Resource::Output));
    guided_c.push(slot(2, 0, Resource::Uniform));
    assert(atmo@ =~= haze_plan().passes[0].slots);
    assert(trans@ =~= haze_plan().passes[1].slots);
    assert(guided_a@ =~= haze_plan().passes[2].slots);
    assert(guided_c@ =~= haze_plan().passes[3].slots);
    let mut scratch: Vec<Coverage> = Vec::new();
    scratch.push(Coverage::Pixel);
    scratch.push(Coverage::Frame);
    scratch.push(Coverage::Frame);
    let mut passes: Vec<Pass> = Vec::new();
    passes.push(Pass { entry: "pass_atmo", coverage: Coverage::Pixel, slots: atmo });
    passes.push(Pass { entry: "pass_trans", coverage: Coverage::Frame, slots: trans });
    passes.push(Pass { entry: "pass_guided_a", coverage: Coverage::Frame, slots: guided_a });
    passes.push(Pass { entry: "pass_guided_c", coverage: Coverage::Frame, slots: guided_c });
    let r = GpuPlan { scratch, passes };
    assert(r@.scratch =~= haze_plan().scratch);
    assert(r@.passes =~= haze_plan().passes);
    proof {
        let p = r@.passes;
        assert(p[0].slots[1] == at(1, 0, Resource::Scratch(0)));
        assert(p[0].writes(Resource::Scratch(0)));
        assert(p[1].slots[2] == at(1, 0, Resource::Scratch(1)));
        assert(p[1].writes(Resource::Scratch(1)));
        assert(p[2].slots[2] == at(1, 0, Resource::Scratch(2)));
        assert(p[2].writes(Resource::Scratch(2)));
        assert(p[3].slots[3] == at(1, 0, Resource::Output));
        assert(p[3].writes(Resource::Output));
    }
    r
}

/// A pointwise plan is one pass over the frame that reads the input and writes
/// the output; besides them it binds exactly what the node brings, its parameters
/// in the third group and its tables in the fourth.
pub proof fn law_pointwise_plans_are_one_pass(extra: Seq<BindSlot>)
    ensures
        pointwise(extra).scratch.len() == 0,
        pointwise(extra).passes.len() == 1,
        pointwise(extra).passes[0].entry == "main"@,
        pointwise(extra).passes[0].coverage is Frame,
        pointwise(extra).passes[0].slots[0] == at(0, 0, Resource::Input),
        pointwise(extra).passes[0].slots[1] == at(1, 0, Resource::Output),
        pointwise(extra).passes[0].slots.skip(2) == extra,
        uniform_plan().passes[0].slots.skip(2) == seq![at(2, 0, Resource::Uniform)],
        storage_plan().passes[0].slots.skip(2) == seq![at(2, 0, Resource::Storage(0))],
        cube_plan().passes[0].slots.skip(2) == seq![
            at(2, 0, Resource::Uniform),
            at(3, 0, Resource::Table),
        ],
        curve_plan().passes[0].slots.skip(2) == seq![
            at(2, 0, Resource::Uniform),
            at(3, 0, Resource::Storage(0)),
            at(3, 1, Resource::Storage(1)),
            at(3, 2, Resource::Storage(2)),
            at(3, 3, Resource::Storage(3)),
        ],
        at(2, 0, Resource::Uniform).group == 2 && at(2, 0, Resource::Uniform).binding == 0
            && at(2, 0, Resource::Uniform).resource is Uniform,
{
    assert(pointwise(extra).passes[0].slots.skip(2) =~= extra);
    assert(uniform_plan().passes[0].slots.skip(2) =~= seq![at(2, 0, Resource::Uniform)]);
    assert(storage_plan().passes[0].slots.skip(2) =~= seq![at(2, 0, Resource::Storage(0))]);
    assert(cube_plan().passes[0].slots.skip(2) =~= seq![
        at(2, 0, Resource::Uniform),
        at(3, 0, Resource::Table),
    ]);
    assert(curve_plan().passes[0].slots.skip(2) =~= seq![
        at(2, 0, Resource::Uniform),
        at(3, 0, Resource::Storage(0)),
        at(3, 1, Resource::Storage(1)),
        at(3, 2, Resource::Storage(2)),
        at(3, 3, Resource::Storage(3)),
    ]);
}

/// A filter's first pass turns the input into a frame-sized scratch texture, and
/// its second recombines that texture with the input into the output.
pub proof fn law_filters_recombine_with_their_input(filter: Seq<char>, recombine: Seq<char>)
    ensures
        ({
            let plan = filter_plan(filter, recombine);
            &&& plan.scratch == seq![Coverage::Frame]
            &&& plan.passes.len() == 2
            &&& plan.passes[0].entry == filter
            &&& plan.passes[1].entry == recombine
            &&& plan.passes[0].reads(Resource::Input)
            &&& plan.passes[0].writes(Resource::Scratch(0))
            &&& !plan.passes[0].writes(Resource::Output)
            &&& plan.passes[1].reads(Resource::Input)
            &&& plan.passes[1].reads(Resource::Scratch(0))
            &&& plan.passes[1].writes(Resource::Output)
        }),
{
    let plan = filter_plan(filter, recombine);
    assert(plan.passes[0].slots[0] == at(0, 0, Resource::Input));
    assert(plan.passes[0].slots[1] == at(1, 0, Resource::Scratch(0)));
    assert(plan.passes[1].slots[0] == at(0, 0, Resource::Input));
    assert(plan.passes[1].slots[1] == at(0, 1, Resource::Scratch(0)));
    assert(plan.passes[1].slots[2] == at(1, 1, Resource::Output));
}

/// Removing haze: the light comes from the input, the transmission from the input
/// and the light, the filter from the input and the transmission, and the output
/// from the input, the light and the filter.
pub proof fn law_haze_passes_feed_each_other()
    ensures
        ({
            let passes = haze_plan().passes;
            &&& haze_plan().scratch == seq![Coverage::Pixel, Coverage::Frame, Coverage::Frame]
            &&& passes.len() == 4
            &&& passes[0].reads(Resource::Input)
            &&& passes[0].writes(Resource::Scratch(0))
            &&& passes[0].coverage is Pixel
            &&& passes[1].reads(Resource::Input)
            &&& passes[1].reads(Resource::Scratch(0))
            &&& passes[1].writes(Resource::Scratch(1))
            &&& passes[2].reads(Resource::Input)
            &&& passes[2].reads(Resource::Scratch(1))
            &&& passes[2].writes(Resource::Scratch(2))
            &&& passes[3].reads(Resource::Input)
            &&& passes[3].reads(Resource::Scratch(0))
            &&& passes[3].reads(Resource::Scratch(2))
            &&& passes[3].writes(Resource::Output)
            &&& passes[1].coverage is Frame
            &&& passes[2].coverage is Frame
            &&& passes[3].coverage is Frame
        }),
{
    let passes = haze_plan().passes;
    assert(passes[0].slots[0] == at(0, 0, Resource::Input));
    assert(passes[0].slots[1] == at(1, 0, Resource::Scratch(0)));
    assert(passes[1].slots[0] == at(0, 0, Resource::Input));
    assert(passes[1].slots[1] == at(0, 1, Resource::Scratch(0)));
    assert(passes[1].slots[2] == at(1, 0, Resource::Scratch(1)));
    assert(passes[2].slots[0] == at(0, 0, Resource::Input));
    assert(passes[2].slots[1] == at(0, 1, Resource::Scratch(1)));
    assert(passes[2].slots[2] == at(1, 0, Resource::Scratch(2)));
    assert(passes[3].slots[0] == at(0, 0, Resource::Input));
    assert(passes[3].slots[1] == at(0, 1, Resource::Scratch(0)));
    assert(passes[3].slots[2] == at(0, 2, Resource::Scratch(2)));
    assert(passes[3].slots[3] == at(1, 0, Resource::Output));
}

} // verus!
