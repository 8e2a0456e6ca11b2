//! What holds of the develop chain as a whole.

use vstd::prelude::*;

use crate::edit::neutral;
use crate::edit::GlobalStages;
use crate::graph::clashes;
use crate::graph::resolved;
use crate::graph::spliced;
use crate::graph::Dag;
use crate::graph::Entry;
use crate::graph::Fault;
use crate::ieee::Single;
use crate::nodes::global::bw_mix::BwMixNode;
use crate::nodes::global::color_grade::ColorGradeNode;
use crate::nodes::global::creative_lut::identity_cube;
use crate::nodes::global::creative_lut::law_look_params_round_trip;
use crate::nodes::global::creative_lut::law_unresolved_looks_have_no_table;
use crate::nodes::global::creative_lut::look_params;
use crate::nodes::global::creative_lut::plain_triples;
use crate::nodes::global::creative_lut::samples;
use crate::nodes::global::creative_lut::triples;
use crate::nodes::global::creative_lut::CreativeLutNode;
use crate::nodes::global::creative_lut::Cube;
use crate::nodes::global::creative_lut::LookParams;
use crate::nodes::global::creative_lut::LookResolver;
use crate::nodes::global::creative_lut::SampledCube;
use crate::nodes::global::hsl::HslNode;
use crate::nodes::global::invalidate::all_stages;
use crate::nodes::global::node::GlobalNode;
use crate::nodes::global::node::Prepared;
use crate::nodes::global::segment::answered;
use crate::nodes::global::segment::chain;
use crate::nodes::global::segment::enrolled;
use crate::nodes::global::segment::global_entries;
use crate::nodes::global::segment::look_stage;
use crate::nodes::global::segment::stage;
use crate::nodes::global::segment::GlobalKernels;
use crate::nodes::global::segment::Stage;
use crate::nodes::global::vibrance_sat::VibranceSatNode;
use crate::types::law_expand_zero;
use crate::types::PortType;
use crate::types::ProcessVersion;
use crate::types::Roi;

verus! {

/// The stages that are not no-ops, in order.
pub open spec fn active(stages: Seq<Stage>) -> Seq<Stage>
    decreases stages.len(),
{
    if stages.len() == 0 {
        Seq::empty()
    } else if stages.last().identity {
        active(stages.drop_last())
    } else {
        active(stages.drop_last()).push(stages.last())
    }
}

/// A chain of no-ops leaves the graph alone and ends where it started.
pub proof fn law_no_ops_add_nothing(
    g: Dag,
    entries: Seq<Entry>,
    pv: ProcessVersion,
    stages: Seq<Stage>,
    src: int,
)
    requires
        forall|i: int| 0 <= i < stages.len() ==> (#[trigger] stages[i]).identity,
    ensures
        chain(g, entries, pv, stages, src) == (g, Ok::<int, Fault>(src)),
    decreases stages.len(),
{
    if stages.len() > 0 {
        assert(stages[stages.len() - 1].identity);
        assert forall|i: int| 0 <= i < stages.drop_last().len() implies (
        #[trigger] stages.drop_last()[i]).identity by {
            assert(stages[i].identity);
        }
        law_no_ops_add_nothing(g, entries, pv, stages.drop_last(), src);
    }
}

/// The neutral recipe is a pass-through: no node is added, whatever is
/// registered.
pub proof fn law_neutral_recipe_adds_nothing(
    g: Dag,
    entries: Seq<Entry>,
    pv: ProcessVersion,
    p: GlobalStages,
    f: Prepared,
    look: Option<Cube>,
    src: int,
)
    requires
        neutral(p),
    ensures
        chain(g, entries, pv, all_stages(p, f, look), src) == (g, Ok::<int, Fault>(src)),
{
    let stages = all_stages(p, f, look);
    assert forall|i: int| 0 <= i < 8 implies crate::nodes::global::hsl::still(
        #[trigger] p.hsl.bands@[i],
    ) by {}
    assert(p.tone_curve.rgb.points@.len() == 2);
    assert(p.tone_curve.r.points@.len() == 2);
    assert(p.tone_curve.g.points@.len() == 2);
    assert(p.tone_curve.b.points@.len() == 2);
    assert forall|i: int| 0 <= i < stages.len() implies (#[trigger] stages[i]).identity by {}
    law_no_ops_add_nothing(g, entries, pv, stages, src);
}

/// A chain that succeeds adds exactly its active stages, in order, each fed by
/// the one before, the first by `src`; the rest of the graph is as it was.
pub proof fn law_active_stages_form_a_chain(
    g: Dag,
    entries: Seq<Entry>,
    pv: ProcessVersion,
    stages: Seq<Stage>,
    src: int,
)
    requires
        chain(g, entries, pv, stages, src).1 is Ok,
    ensures
        ({
            let (h, tail) = chain(g, entries, pv, stages, src);
            let added = active(stages);
            let n = g.nodes.len() as int;
            let m = g.edges.len() as int;
            &&& h.nodes.len() == n + added.len()
            &&& h.edges.len() == m + added.len()
            &&& h.nodes.take(n) == g.nodes
            &&& h.edges.take(m) == g.edges
            &&& forall|i: int|
                0 <= i < added.len() ==> (#[trigger] h.nodes[n + i]).id == added[i].id
                    && h.nodes[n + i].params == added[i].block
            &&& forall|i: int|
                0 <= i < added.len() ==> (#[trigger] h.edges[m + i]).to == n + i && h.edges[m
                    + i].from == if i == 0 {
                    src
                } else {
                    n + i - 1
                }
            &&& tail == Ok::<int, Fault>(
                if added.len() == 0 {
                    src
                } else {
                    n + added.len() - 1
                },
            )
        }),
    decreases stages.len(),
{
    let n = g.nodes.len() as int;
    let m = g.edges.len() as int;
    let (h, tail) = chain(g, entries, pv, stages, src);
    if stages.len() == 0 {
        assert(h.nodes.take(n) =~= g.nodes);
        assert(h.edges.take(m) =~= g.edges);
    } else {
        let earlier = stages.drop_last();
        let s = stages.last();
        law_active_stages_form_a_chain(g, entries, pv, earlier, src);
        let (mid, cur) = chain(g, entries, pv, earlier, src);
        let before = active(earlier);
        if !s.identity {
            assert(spliced(mid, entries, pv, s.id, s.block, cur->Ok_0).1 is Ok);
            assert(h.nodes.take(n) =~= mid.nodes.take(n));
            assert(h.edges.take(m) =~= mid.edges.take(m));
            let added = active(stages);
            assert forall|i: int| 0 <= i < added.len() implies (#[trigger] h.nodes[n + i]).id
                == added[i].id && h.nodes[n + i].params == added[i].block by {
                if i < before.len() {
                    assert(h.nodes[n + i] == mid.nodes[n + i]);
                }
            }
            assert forall|i: int| 0 <= i < added.len() implies (#[trigger] h.edges[m + i]).to == n
                + i && h.edges[m + i].from == if i == 0 {
                src
            } else {
                n + i - 1
            } by {
                if i < before.len() {
                    assert(h.edges[m + i] == mid.edges[m + i]);
                }
            }
        }
    }
}

/// An entry that takes and gives the working format.
pub open spec fn working_entry(e: Option<Entry>) -> bool {
    e matches Some(e) && e.inputs.len() > 0 && e.inputs[0].ty == PortType::LinearRgbaF16
        && e.output.ty == PortType::LinearRgbaF16
}

/// From a source in the working format, a chain succeeds if the node of every
/// active stage is registered and takes and gives the working format.
pub proof fn law_registered_chains_succeed(
    g: Dag,
    entries: Seq<Entry>,
    pv: ProcessVersion,
    stages: Seq<Stage>,
    src: int,
)
    requires
        0 <= src < g.nodes.len(),
        g.nodes[src].output.ty == PortType::LinearRgbaF16,
        forall|i: int|
            0 <= i < stages.len() && !(#[trigger] stages[i]).identity ==> working_entry(
                resolved(entries, stages[i].id, pv),
            ),
    ensures
        ({
            let (h, tail) = chain(g, entries, pv, stages, src);
            &&& tail is Ok
            &&& 0 <= tail->Ok_0 < h.nodes.len()
            &&& h.nodes[tail->Ok_0].output.ty == PortType::LinearRgbaF16
        }),
    decreases stages.len(),
{
    if stages.len() > 0 {
        let earlier = stages.drop_last();
        assert forall|i: int| 0 <= i < earlier.len() && !(#[trigger] earlier[i]).identity implies
        working_entry(resolved(entries, earlier[i].id, pv)) by {
            assert(earlier[i] == stages[i]);
        }
        law_registered_chains_succeed(g, entries, pv, earlier, src);
        let s = stages.last();
        assert(s == stages[stages.len() - 1]);
        if !s.identity {
            let (mid, cur) = chain(g, entries, pv, earlier, src);
            let e = resolved(entries, s.id, pv)->Some_0;
            let at = mid.nodes.len() as int;
            let grown = mid.with_node(crate::graph::vertex_of(e, s.id, s.block));
            assert(grown.nodes[at].inputs == e.inputs);
            assert(grown.nodes[cur->Ok_0] == mid.nodes[cur->Ok_0]);
            assert(grown.refuses(cur->Ok_0, at, e.inputs[0].name) is None);
        }
    }
}

/// A monochrome recipe switches the three colour stages off and the monochrome
/// mix on; a colour recipe switches the mix off.
pub proof fn law_treatment_switches_stages(p: GlobalStages, f: Prepared)
    ensures
        p.treatment is BlackAndWhite ==> stage::<HslNode>(p, f).identity && stage::<
            VibranceSatNode,
        >(p, f).identity && stage::<ColorGradeNode>(p, f).identity && !stage::<BwMixNode>(
            p,
            f,
        ).identity,
        p.treatment is Color ==> stage::<BwMixNode>(p, f).identity,
{
}

/// Entries with pairwise different names.
pub open spec fn ids_apart(list: Seq<Entry>) -> bool {
    forall|i: int, j: int|
        0 <= i < j < list.len() ==> (#[trigger] list[i]).id != (#[trigger] list[j]).id
}

proof fn lemma_enroll_all(list: Seq<Entry>)
    requires
        ids_apart(list),
    ensures
        enrolled(Seq::empty(), list) == (list, true),
    decreases list.len(),
{
    if list.len() > 0 {
        let rest = list.drop_last();
        assert(ids_apart(rest)) by {
            assert forall|i: int, j: int| 0 <= i < j < rest.len() implies (#[trigger] rest[i]).id
                != (#[trigger] rest[j]).id by {
                assert(list[i].id != list[j].id);
            }
        }
        lemma_enroll_all(rest);
        assert forall|i: int| 0 <= i < rest.len() implies (#[trigger] rest[i]).id
            != list.last().id by {
            assert(list[i].id != list[list.len() - 1].id);
        }
        assert(!clashes(rest, list.last()));
        assert(rest.push(list.last()) =~= list);
    } else {
        assert(list =~= Seq::empty());
    }
}

proof fn lemma_resolve_listed(list: Seq<Entry>, i: int, pv: ProcessVersion)
    requires
        ids_apart(list),
        0 <= i < list.len(),
        list[i].range.holds(pv),
    ensures
        resolved(list, list[i].id, pv) == Some(list[i]),
    decreases i,
{
    if i > 0 {
        let rest = list.skip(1);
        assert(ids_apart(rest)) by {
            assert forall|a: int, b: int| 0 <= a < b < rest.len() implies (#[trigger] rest[a]).id
                != (#[trigger] rest[b]).id by {
                assert(list[a + 1].id != list[b + 1].id);
            }
        }
        assert(list[0].id != list[i].id);
        lemma_resolve_listed(rest, i - 1, pv);
    }
}

pub(crate) proof fn lemma_global_names_apart(pv: ProcessVersion, k: GlobalKernels)
    ensures
        ids_apart(global_entries(pv, k)),
{
    let list = global_entries(pv, k);
    reveal_strlit("global.wb");
    reveal_strlit("global.exposure");
    reveal_strlit("global.contrast");
    reveal_strlit("global.tone_recovery");
    reveal_strlit("global.whites_blacks");
    reveal_strlit("global.tone_curve");
    reveal_strlit("global.hsl");
    reveal_strlit("global.vibrance_sat");
    reveal_strlit("global.color_grade");
    reveal_strlit("global.bw_mix");
    reveal_strlit("global.clarity");
    reveal_strlit("global.texture");
    reveal_strlit("global.dehaze");
    reveal_strlit("global.noise_reduction");
    reveal_strlit("global.sharpen");
    reveal_strlit("global.creative_lut");
    assert("global.wb"@.len() == 9);
    assert("global.exposure"@.len() == 15);
    assert("global.contrast"@.len() == 15);
    assert("global.tone_recovery"@.len() == 20);
    assert("global.whites_blacks"@.len() == 20);
    assert("global.tone_curve"@.len() == 17);
    assert("global.hsl"@.len() == 10);
    assert("global.vibrance_sat"@.len() == 19);
    assert("global.color_grade"@.len() == 18);
    assert("global.bw_mix"@.len() == 13);
    assert("global.clarity"@.len() == 14);
    assert("global.texture"@.len() == 14);
    assert("global.dehaze"@.len() == 13);
    assert("global.noise_reduction"@.len() == 22);
    assert("global.sharpen"@.len() == 14);
    assert("global.creative_lut"@.len() == 19);
    assert("global.exposure"@[7] != "global.contrast"@[7]);
    assert("global.tone_recovery"@[7] != "global.whites_blacks"@[7]);
    assert("global.vibrance_sat"@[7] != "global.creative_lut"@[7]);
    assert("global.bw_mix"@[7] != "global.dehaze"@[7]);
    assert("global.clarity"@[7] != "global.texture"@[7]);
    assert("global.clarity"@[7] != "global.sharpen"@[7]);
    assert("global.texture"@[7] != "global.sharpen"@[7]);
    assert(list[0].id == "global.wb"@);
    assert(list[1].id == "global.exposure"@);
    assert(list[2].id == "global.contrast"@);
    assert(list[3].id == "global.tone_recovery"@);
    assert(list[4].id == "global.whites_blacks"@);
    assert(list[5].id == "global.tone_curve"@);
    assert(list[6].id == "global.hsl"@);
    assert(list[7].id == "global.vibrance_sat"@);
    assert(list[8].id == "global.color_grade"@);
    assert(list[9].id == "global.bw_mix"@);
    assert(list[10].id == "global.clarity"@);
    assert(list[11].id == "global.texture"@);
    assert(list[12].id == "global.dehaze"@);
    assert(list[13].id == "global.noise_reduction"@);
    assert(list[14].id == "global.sharpen"@);
    assert(list[15].id == "global.creative_lut"@);
}

/// An empty registry takes all develop nodes, and then serves each of them, with
/// its kernel's salt, at the registered process version and at every later one.
pub proof fn law_registered_nodes_serve_every_later_version(
    pv: ProcessVersion,
    k: GlobalKernels,
    later: ProcessVersion,
    i: int,
)
    requires
        pv.0 <= later.0,
        0 <= i < global_entries(pv, k).len(),
    ensures
        ({
            let list = global_entries(pv, k);
            let (reg, ok) = enrolled(Seq::empty(), list);
            &&& ok
            &&& resolved(reg, list[i].id, later) == Some(list[i])
        }),
{
    let list = global_entries(pv, k);
    lemma_global_names_apart(pv, k);
    lemma_enroll_all(list);
    lemma_resolve_listed(list, i, later);
}

/// No develop node is served before the process version it was registered for.
pub proof fn law_registered_nodes_serve_no_earlier_version(
    pv: ProcessVersion,
    k: GlobalKernels,
    earlier: ProcessVersion,
    id: Seq<char>,
)
    requires
        earlier.0 < pv.0,
    ensures
        resolved(global_entries(pv, k), id, earlier) is None,
{
    let list = global_entries(pv, k);
    assert forall|i: int| 0 <= i < list.len() implies !(#[trigger] list[i]).range.holds(earlier) by {}
    lemma_unserved(list, id, earlier);
}

proof fn lemma_unserved(list: Seq<Entry>, id: Seq<char>, pv: ProcessVersion)
    requires
        forall|i: int| 0 <= i < list.len() ==> !(#[trigger] list[i]).range.holds(pv),
    ensures
        resolved(list, id, pv) is None,
    decreases list.len(),
{
    if list.len() > 0 {
        assert(!list[0].range.holds(pv));
        assert forall|i: int| 0 <= i < list.skip(1).len() implies !(
        #[trigger] list.skip(1)[i]).range.holds(pv) by {
            assert(!list[i + 1].range.holds(pv));
        }
        lemma_unserved(list.skip(1), id, pv);
    }
}

/// A node without an apron reads the region it writes and nothing around it.
pub proof fn law_pointwise_nodes_read_their_own_region<N: GlobalNode>(out: Roi)
    requires
        N::apron() == 0,
    ensures
        out.expanded(N::apron()) == out,
{
    law_expand_zero(out);
}

/// An installed look samples its own table: where the resolver has `lut` for
/// the recipe's look id, an evaluation of the look stage reads back its side,
/// entries and domain.
pub proof fn law_an_installed_look_samples_its_own_table<L: LookResolver>(
    p: GlobalStages,
    f: Prepared,
    resolver: &L,
    lut: Cube,
    look: Option<Cube>,
    q: LookParams,
)
    requires
        p.effects.creative_lut is Some,
        !CreativeLutNode::identity(p, f),
        forall|a: Option<Cube>| #[trigger]
            resolver.answers(p.effects.creative_lut->Some_0.id@, a) ==> a == Some(lut),
        answered(p, f, Some(resolver), look),
        lut.complete(),
        plain_triples(lut.data),
        look_params(look_stage(p, f, look).block, q),
    ensures
        q.amount == f.look_fraction_single.as_double(),
        q.table is Some,
        q.table->Some_0.size == lut.size,
        triples(q.table->Some_0.data@) == lut.data,
        forall|i: int|
            0 <= i < 3 ==> #[trigger] q.table->Some_0.domain_min@[i]
                == lut.domain_min@[i].as_double(),
        forall|i: int|
            0 <= i < 3 ==> #[trigger] q.table->Some_0.domain_max@[i]
                == lut.domain_max@[i].as_double(),
{
    law_look_params_round_trip(f.look_fraction_single, lut, q);
}

/// A missing look renders as the identity: where the resolver does not have the
/// recipe's look, or there is no resolver, an evaluation finds no table and
/// samples the identity cube.
pub proof fn law_a_missing_look_samples_the_identity<L: LookResolver>(
    p: GlobalStages,
    f: Prepared,
    look_resolver: Option<&L>,
    look: Option<Cube>,
    q: LookParams,
    entries: Seq<Option<[Single; 3]>>,
    domain_min: [Single; 3],
    domain_max: [Single; 3],
    sampled: SampledCube,
)
    requires
        !CreativeLutNode::identity(p, f),
        look_resolver is Some && p.effects.creative_lut is Some ==> forall|a: Option<Cube>|
         #[trigger]
            look_resolver->Some_0.answers(p.effects.creative_lut->Some_0.id@, a) ==> a is None,
        answered(p, f, look_resolver, look),
        look_params(look_stage(p, f, look).block, q),
        samples(q, entries, domain_min, domain_max, sampled),
    ensures
        q.table is None,
        identity_cube(sampled),
{
    assert(look_stage(p, f, None).block == CreativeLutNode::block(p, f));
    law_unresolved_looks_have_no_table(p, f, q);
}

} // verus!
