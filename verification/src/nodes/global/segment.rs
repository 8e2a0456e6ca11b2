//! Registering the develop nodes and splicing them into a render graph.

use vstd::prelude::*;

use crate::edit::GlobalStages;
use crate::graph::clashes;
use crate::graph::outcome;
use crate::graph::resolved;
use crate::graph::spliced;
use crate::graph::splice;
use crate::graph::CompileError;
use crate::graph::Dag;
use crate::graph::Entry;
use crate::graph::Fault;
use crate::graph::NodeRegistry;
use crate::graph::PvRange;
use crate::graph::RegistryEntry;
use crate::graph::RegistryError;
use crate::graph::RenderGraph;
use crate::node::blake3_digest;
use crate::node::kernel_salt;
use crate::node::ports;
use crate::node::Port;
use crate::node::PortDecl;
use crate::nodes::global::bw_mix::BwMixNode;
use crate::nodes::global::clarity::ClarityNode;
use crate::nodes::global::color_grade::ColorGradeNode;
use crate::nodes::global::contrast::ContrastNode;
use crate::nodes::global::creative_lut::look_block;
use crate::nodes::global::creative_lut::reference_block;
use crate::nodes::global::creative_lut::CreativeLutNode;
use crate::nodes::global::creative_lut::Cube;
use crate::nodes::global::creative_lut::LookResolver;
use crate::nodes::global::creative_lut::Lut3D;
use crate::nodes::global::dehaze::DehazeNode;
use crate::nodes::global::exposure::ExposureNode;
use crate::nodes::global::hsl::HslNode;
use crate::nodes::global::noise_reduction::NoiseReductionNode;
use crate::nodes::global::sharpen::SharpenNode;
use crate::nodes::global::texture::TextureNode;
use crate::nodes::global::tone_curve::ToneCurveNode;
use crate::nodes::global::tone_recovery::ToneRecoveryNode;
use crate::nodes::global::vibrance_sat::VibranceSatNode;
use crate::nodes::global::white_balance::WhiteBalanceNode;
use crate::nodes::global::whites_blacks::WhitesBlacksNode;
use crate::nodes::global::node::GlobalNode;
use crate::nodes::global::node::Prepared;
use crate::params::Named;
use crate::params::ParamBlock;
use crate::types::NodeId;
use crate::types::PortType;
use crate::types::ProcessVersion;

verus! {

/// One stage of the develop chain, for a given recipe.
pub struct Stage {
    /// The node.
    pub id: Seq<char>,
    /// Whether it is a no-op.
    pub identity: bool,
    /// Its parameters.
    pub block: Seq<Named>,
}

/// The stage a node makes of a recipe.
pub open spec fn stage<N: GlobalNode>(p: GlobalStages, f: Prepared) -> Stage {
    Stage { id: N::name(), identity: N::identity(p, f), block: N::block(p, f) }
}

/// The creative-look stage, given the table its look resolved to.
pub open spec fn look_stage(p: GlobalStages, f: Prepared, look: Option<Cube>) -> Stage {
    Stage {
        id: CreativeLutNode::name(),
        identity: CreativeLutNode::identity(p, f),
        block: match look {
            Some(lut) => look_block(f.look_fraction_single, lut),
            None => reference_block(p.effects.creative_lut, f.look_fraction),
        },
    }
}

/// A graph and the tail of the chain in it, or what went wrong.
pub open spec fn advanced(
    state: (Dag, Result<int, Fault>),
    entries: Seq<Entry>,
    pv: ProcessVersion,
    s: Stage,
) -> (Dag, Result<int, Fault>) {
    match state.1 {
        Err(_) => state,
        Ok(cur) => if s.identity {
            state
        } else {
            spliced(state.0, entries, pv, s.id, s.block, cur)
        },
    }
}

/// A graph after splicing `stages` one after the other from `src` on, leaving
/// out the no-ops and stopping at the first error.
pub open spec fn chain(
    g: Dag,
    entries: Seq<Entry>,
    pv: ProcessVersion,
    stages: Seq<Stage>,
    src: int,
) -> (Dag, Result<int, Fault>)
    decreases stages.len(),
{
    if stages.len() == 0 {
        (g, Ok(src))
    } else {
        advanced(chain(g, entries, pv, stages.drop_last(), src), entries, pv, stages.last())
    }
}

/// The tone and colour stages in pipeline order. Noise reduction comes before
/// sharpening, which would sharpen the noise, and the creative look comes last.
pub open spec fn tone_color_stages(p: GlobalStages, f: Prepared, look: Option<Cube>) -> Seq<Stage> {
    seq![
        stage::<ExposureNode>(p, f),
        stage::<ContrastNode>(p, f),
        stage::<ToneRecoveryNode>(p, f),
        stage::<WhitesBlacksNode>(p, f),
        stage::<ToneCurveNode>(p, f),
        stage::<HslNode>(p, f),
        stage::<VibranceSatNode>(p, f),
        stage::<ColorGradeNode>(p, f),
        stage::<BwMixNode>(p, f),
        stage::<ClarityNode>(p, f),
        stage::<TextureNode>(p, f),
        stage::<DehazeNode>(p, f),
        stage::<NoiseReductionNode>(p, f),
        stage::<SharpenNode>(p, f),
        look_stage(p, f, look),
    ]
}

/// The tone and colour stages that come before the creative look.
pub open spec fn before_look_stages(p: GlobalStages, f: Prepared) -> Seq<Stage> {
    tone_color_stages(p, f, None).take(14)
}

/// Whether a node can be had.
pub open spec fn registered<N: GlobalNode>(entries: Seq<Entry>, pv: ProcessVersion) -> bool {
    resolved(entries, N::name(), pv) is Some
}

/// Unless it is a no-op or cannot be had, every number the stage takes is finite.
pub open spec fn active_ready<N: GlobalNode>(
    entries: Seq<Entry>,
    pv: ProcessVersion,
    p: GlobalStages,
    f: Prepared,
) -> bool {
    !N::identity(p, f) && registered::<N>(entries, pv) ==> N::ready(p, f)
}

/// [`active_ready`] for the creative look, with a table or without.
pub open spec fn look_ready(
    entries: Seq<Entry>,
    pv: ProcessVersion,
    p: GlobalStages,
    f: Prepared,
) -> bool {
    !CreativeLutNode::identity(p, f) && registered::<CreativeLutNode>(entries, pv)
        ==> f.look_fraction.finite() && f.look_fraction_single.finite()
}

/// Every number that the tone and colour stages take is finite.
pub open spec fn tone_color_ready(
    entries: Seq<Entry>,
    pv: ProcessVersion,
    p: GlobalStages,
    f: Prepared,
) -> bool {
    &&& active_ready::<ExposureNode>(entries, pv, p, f)
    &&& active_ready::<ContrastNode>(entries, pv, p, f)
    &&& active_ready::<ToneRecoveryNode>(entries, pv, p, f)
    &&& active_ready::<WhitesBlacksNode>(entries, pv, p, f)
    &&& active_ready::<ToneCurveNode>(entries, pv, p, f)
    &&& active_ready::<HslNode>(entries, pv, p, f)
    &&& active_ready::<VibranceSatNode>(entries, pv, p, f)
    &&& active_ready::<ColorGradeNode>(entries, pv, p, f)
    &&& active_ready::<BwMixNode>(entries, pv, p, f)
    &&& active_ready::<ClarityNode>(entries, pv, p, f)
    &&& active_ready::<TextureNode>(entries, pv, p, f)
    &&& active_ready::<DehazeNode>(entries, pv, p, f)
    &&& active_ready::<NoiseReductionNode>(entries, pv, p, f)
    &&& active_ready::<SharpenNode>(entries, pv, p, f)
    &&& look_ready(entries, pv, p, f)
}

/// Splices a node after `src` unless it is a no-op for the recipe; returns the
/// new tail.
fn maybe_add<N: GlobalNode>(
    g: &mut RenderGraph,
    reg: &NodeRegistry,
    pv: ProcessVersion,
    p: &GlobalStages,
    f: &Prepared,
    src: usize,
) -> (r: Result<usize, CompileError>)
    requires
        active_ready::<N>(reg@, pv, *p, *f),
    ensures
        (final(g)@, outcome(r)) == advanced(
            (old(g)@, Ok(src as int)),
            reg@,
            pv,
            stage::<N>(*p, *f),
        ),
{
    if N::is_identity(p, f) {
        return Ok(src);
    }
    let id: NodeId = N::id();
    if reg.resolve(id, pv).is_none() {
        return Err(CompileError::NodeNotRegistered { id, pv });
    }
    let block: ParamBlock = N::param_block(p, f);
    splice(g, reg, pv, id, block, src)
}

/// The creative-look stage with the table its look resolved to, if it did.
pub fn add_resolved_look(
    g: &mut RenderGraph,
    reg: &NodeRegistry,
    pv: ProcessVersion,
    p: &GlobalStages,
    f: &Prepared,
    look: Option<&Lut3D>,
    src: usize,
) -> (r: Result<usize, CompileError>)
    requires
        look_ready(reg@, pv, *p, *f),
    ensures
        (final(g)@, outcome(r)) == advanced(
            (old(g)@, Ok(src as int)),
            reg@,
            pv,
            look_stage(
                *p,
                *f,
                match look {
                    Some(lut) => Some(lut@),
                    None => None,
                },
            ),
        ),
{
    if CreativeLutNode::is_identity(p, f) {
        return Ok(src);
    }
    let id: NodeId = CreativeLutNode::id();
    if reg.resolve(id, pv).is_none() {
        return Err(CompileError::NodeNotRegistered { id, pv });
    }
    let block: ParamBlock = match look {
        Some(lut) => CreativeLutNode::param_block_with_lut(f.look_fraction_single, lut),
        None => CreativeLutNode::param_block(p, f),
    };
    splice(g, reg, pv, id, block, src)
}

/// Whether `look` is what the recipe's look resolves to: the resolver's answer
/// for the recipe's own look id, and nothing where there is no resolver. A look
/// without effect is not asked for.
pub open spec fn answered<L: LookResolver>(
    p: GlobalStages,
    f: Prepared,
    look_resolver: Option<&L>,
    look: Option<Cube>,
) -> bool {
    match (p.effects.creative_lut, look_resolver) {
        (Some(wanted), Some(resolver)) => CreativeLutNode::identity(p, f) || resolver.answers(
            wanted.id@,
            look,
        ),
        _ => look is None,
    }
}

/// The creative-look stage: once the node is found, its look is resolved by
/// content hash, and an unresolved one leaves the stage without a table.
fn maybe_add_creative_lut<L: LookResolver>(
    g: &mut RenderGraph,
    reg: &NodeRegistry,
    pv: ProcessVersion,
    p: &GlobalStages,
    f: &Prepared,
    src: usize,
    look_resolver: Option<&L>,
) -> (r: Result<usize, CompileError>)
    requires
        look_ready(reg@, pv, *p, *f),
    ensures
        exists|look: Option<Cube>|
            (registered::<CreativeLutNode>(reg@, pv) ==> answered(*p, *f, look_resolver, look)) && (
            final(g)@,
            outcome(r),
            ) == advanced(
                (old(g)@, Ok(src as int)),
                reg@,
                pv,
                #[trigger] look_stage(*p, *f, look),
            ),
{
    if CreativeLutNode::is_identity(p, f) {
        assert(answered(*p, *f, look_resolver, None));
        assert(look_stage(*p, *f, None).identity);
        return Ok(src);
    }
    let id: NodeId = CreativeLutNode::id();
    if reg.resolve(id, pv).is_none() {
        assert(!look_stage(*p, *f, None).identity);
        return Err(CompileError::NodeNotRegistered { id, pv });
    }
    match (&p.effects.creative_lut, look_resolver) {
        (Some(wanted), Some(resolver)) => match resolver.resolve(wanted.id.as_str()) {
            Some(lut) => add_resolved_look(g, reg, pv, p, f, Some(&*lut), src),
            None => add_resolved_look(g, reg, pv, p, f, None, src),
        },
        _ => add_resolved_look(g, reg, pv, p, f, None, src),
    }
}

/// Splices the white-balance stage after `src`; returns the new tail, `src`
/// itself when there is nothing to balance.
pub fn build_wb_segment(
    g: &mut RenderGraph,
    reg: &NodeRegistry,
    pv: ProcessVersion,
    p: &GlobalStages,
    f: &Prepared,
    src: usize,
) -> (r: Result<usize, CompileError>)
    requires
        active_ready::<WhiteBalanceNode>(reg@, pv, *p, *f),
    ensures
        (final(g)@, outcome(r)) == chain(
            old(g)@,
            reg@,
            pv,
            seq![stage::<WhiteBalanceNode>(*p, *f)],
            src as int,
        ),
{
    proof {
        let list = seq![stage::<WhiteBalanceNode>(*p, *f)];
        assert(list.drop_last() =~= Seq::empty());
        reveal_with_fuel(chain, 2);
    }
    maybe_add::<WhiteBalanceNode>(g, reg, pv, p, f, src)
}

/// Splices the tone and colour stages after `src`, each left out when it is a
/// no-op; returns the new tail. With a resolver, the creative look's table is
/// what the resolver answers for the recipe's look id; it is asked once every
/// stage before the look is in place and the look's node is found.
pub fn build_tone_color_segment<L: LookResolver>(
    g: &mut RenderGraph,
    reg: &NodeRegistry,
    pv: ProcessVersion,
    p: &GlobalStages,
    f: &Prepared,
    src: usize,
    look_resolver: Option<&L>,
) -> (r: Result<usize, CompileError>)
    requires
        tone_color_ready(reg@, pv, *p, *f),
    ensures
        exists|look: Option<Cube>|
            (chain(
                old(g)@,
                reg@,
                pv,
                before_look_stages(*p, *f),
                src as int,
            ).1 is Ok && registered::<CreativeLutNode>(reg@, pv) ==> answered(*p, *f, look_resolver, look)) && (final(g)@, outcome(r)) == chain(
                old(g)@,
                reg@,
                pv,
                #[trigger] tone_color_stages(*p, *f, look),
                src as int,
            ),
{
    let ghost base = g@;
    let ghost list = tone_color_stages(*p, *f, None);
    let cur: usize = match build_before_look(g, reg, pv, p, f, src) {
        Ok(cur) => cur,
        Err(e) => {
            proof {
                lemma_chain_stops(base, reg@, pv, list, src as int, 14);
            }
            return Err(e);
        },
    };
    let ghost middle = g@;
    let r = maybe_add_creative_lut(g, reg, pv, p, f, cur, look_resolver);
    proof {
        let look = choose|look: Option<Cube>|
            (registered::<CreativeLutNode>(reg@, pv) ==> answered(*p, *f, look_resolver, look)) && (
            g@,
            outcome(r),
            ) == advanced(
                (middle, Ok(cur as int)),
                reg@,
                pv,
                #[trigger] look_stage(*p, *f, look),
            );
        let whole = tone_color_stages(*p, *f, look);
        assert(whole.drop_last() =~= list.take(14));
        assert(whole.last() == look_stage(*p, *f, look));
        assert((g@, outcome(r)) == chain(base, reg@, pv, whole, src as int));
    }
    r
}

/// [`build_tone_color_segment`] for a look that is already resolved, or not.
pub fn build_resolved_segment(
    g: &mut RenderGraph,
    reg: &NodeRegistry,
    pv: ProcessVersion,
    p: &GlobalStages,
    f: &Prepared,
    src: usize,
    look: Option<&Lut3D>,
) -> (r: Result<usize, CompileError>)
    requires
        tone_color_ready(reg@, pv, *p, *f),
    ensures
        (final(g)@, outcome(r)) == chain(
            old(g)@,
            reg@,
            pv,
            tone_color_stages(
                *p,
                *f,
                match look {
                    Some(lut) => Some(lut@),
                    None => None,
                },
            ),
            src as int,
        ),
{
    let ghost base = g@;
    let ghost model: Option<Cube> = match look {
        Some(lut) => Some(lut@),
        None => None,
    };
    let ghost list = tone_color_stages(*p, *f, model);
    proof {
        assert(list.take(14) =~= before_look_stages(*p, *f));
        lemma_chain_stops(base, reg@, pv, list, src as int, 14);
        lemma_chain_next(base, reg@, pv, list, src as int, 14);
        assert(list.take(15) =~= list);
    }
    let cur: usize = build_before_look(g, reg, pv, p, f, src)?;
    add_resolved_look(g, reg, pv, p, f, look, cur)
}

/// Every tone and colour stage but the creative look.
fn build_before_look(
    g: &mut RenderGraph,
    reg: &NodeRegistry,
    pv: ProcessVersion,
    p: &GlobalStages,
    f: &Prepared,
    src: usize,
) -> (r: Result<usize, CompileError>)
    requires
        tone_color_ready(reg@, pv, *p, *f),
    ensures
        (final(g)@, outcome(r)) == chain(
            old(g)@,
            reg@,
            pv,
            before_look_stages(*p, *f),
            src as int,
        ),
{
    let ghost base = g@;
    let ghost list = before_look_stages(*p, *f);
    let cur: usize = src;
    assert(list.take(0) =~= Seq::empty());
    proof {
        lemma_chain_next(base, reg@, pv, list, src as int, 0);
        lemma_chain_stops(base, reg@, pv, list, src as int, 1);
    }
    let cur: usize = maybe_add::<ExposureNode>(g, reg, pv, p, f, cur)?;
    proof {
        lemma_chain_next(base, reg@, pv, list, src as int, 1);
        lemma_chain_stops(base, reg@, pv, list, src as int, 2);
    }
    let cur: usize = maybe_add::<ContrastNode>(g, reg, pv, p, f, cur)?;
    proof {
        lemma_chain_next(base, reg@, pv, list, src as int, 2);
        lemma_chain_stops(base, reg@, pv, list, src as int, 3);
    }
    let cur: usize = maybe_add::<ToneRecoveryNode>(g, reg, pv, p, f, cur)?;
    proof {
        lemma_chain_next(base, reg@, pv, list, src as int, 3);
        lemma_chain_stops(base, reg@, pv, list, src as int, 4);
    }
    let cur: usize = maybe_add::<WhitesBlacksNode>(g, reg, pv, p, f, cur)?;
    proof {
        lemma_chain_next(base, reg@, pv, list, src as int, 4);
        lemma_chain_stops(base, reg@, pv, list, src as int, 5);
    }
    let cur: usize = maybe_add::<ToneCurveNode>(g, reg, pv, p, f, cur)?;
    proof {
        lemma_chain_next(base, reg@, pv, list, src as int, 5);
        lemma_chain_stops(base, reg@, pv, list, src as int, 6);
    }
    let cur: usize = maybe_add::<HslNode>(g, reg, pv, p, f, cur)?;
    proof {
        lemma_chain_next(base, reg@, pv, list, src as int, 6);
        lemma_chain_stops(base, reg@, pv, list, src as int, 7);
    }
    let cur: usize = maybe_add::<VibranceSatNode>(g, reg, pv, p, f, cur)?;
    proof {
        lemma_chain_next(base, reg@, pv, list, src as int, 7);
        lemma_chain_stops(base, reg@, pv, list, src as int, 8);
    }
    let cur: usize = maybe_add::<ColorGradeNode>(g, reg, pv, p, f, cur)?;
    proof {
        lemma_chain_next(base, reg@, pv, list, src as int, 8);
        lemma_chain_stops(base, reg@, pv, list, src as int, 9);
    }
    let cur: usize = maybe_add::<BwMixNode>(g, reg, pv, p, f, cur)?;
    proof {
        lemma_chain_next(base, reg@, pv, list, src as int, 9);
        lemma_chain_stops(base, reg@, pv, list, src as int, 10);
    }
    let cur: usize = maybe_add::<ClarityNode>(g, reg, pv, p, f, cur)?;
    proof {
        lemma_chain_next(base, reg@, pv, list, src as int, 10);
        lemma_chain_stops(base, reg@, pv, list, src as int, 11);
    }
    let cur: usize = maybe_add::<TextureNode>(g, reg, pv, p, f, cur)?;
    proof {
        lemma_chain_next(base, reg@, pv, list, src as int, 11);
        lemma_chain_stops(base, reg@, pv, list, src as int, 12);
    }
    let cur: usize = maybe_add::<DehazeNode>(g, reg, pv, p, f, cur)?;
    proof {
        lemma_chain_next(base, reg@, pv, list, src as int, 12);
        lemma_chain_stops(base, reg@, pv, list, src as int, 13);
    }
    let cur: usize = maybe_add::<NoiseReductionNode>(g, reg, pv, p, f, cur)?;
    proof {
        lemma_chain_next(base, reg@, pv, list, src as int, 13);
        lemma_chain_stops(base, reg@, pv, list, src as int, 14);
    }
    let cur: usize = maybe_add::<SharpenNode>(g, reg, pv, p, f, cur)?;
    assert(list.take(14) =~= list);
    Ok(cur)
}

/// One more stage of a chain.
proof fn lemma_chain_next(
    g: Dag,
    entries: Seq<Entry>,
    pv: ProcessVersion,
    stages: Seq<Stage>,
    src: int,
    k: int,
)
    requires
        0 <= k < stages.len(),
    ensures
        chain(g, entries, pv, stages.take(k + 1), src) == advanced(
            chain(g, entries, pv, stages.take(k), src),
            entries,
            pv,
            stages[k],
        ),
{
    assert(stages.take(k + 1).drop_last() =~= stages.take(k));
}

/// After an error no further stage is spliced.
proof fn lemma_chain_stops(
    g: Dag,
    entries: Seq<Entry>,
    pv: ProcessVersion,
    stages: Seq<Stage>,
    src: int,
    k: int,
)
    requires
        0 <= k <= stages.len(),
    ensures
        chain(g, entries, pv, stages.take(k), src).1 is Err ==> chain(g, entries, pv, stages, src)
            == chain(g, entries, pv, stages.take(k), src),
    decreases stages.len() - k,
{
    if k < stages.len() {
        lemma_chain_next(g, entries, pv, stages, src, k);
        lemma_chain_stops(g, entries, pv, stages, src, k + 1);
    } else {
        assert(stages.take(k) =~= stages);
    }
}

/// The kernels' source texts, which salt the nodes' cache keys.
#[derive(Clone, Debug, PartialEq, Eq)]
pub struct GlobalKernels {
    /// Kernel of `global.wb`.
    pub wb: Vec<u8>,
    /// Kernel of `global.exposure`.
    pub exposure: Vec<u8>,
    /// Kernel of `global.contrast`.
    pub contrast: Vec<u8>,
    /// Kernel of `global.tone_recovery`.
    pub tone_recovery: Vec<u8>,
    /// Kernel of `global.whites_blacks`.
    pub whites_blacks: Vec<u8>,
    /// Kernel of `global.tone_curve`.
    pub tone_curve: Vec<u8>,
    /// Kernel of `global.hsl`.
    pub hsl: Vec<u8>,
    /// Kernel of `global.vibrance_sat`.
    pub vibrance_sat: Vec<u8>,
    /// Kernel of `global.color_grade`.
    pub color_grade: Vec<u8>,
    /// Kernel of `global.bw_mix`.
    pub bw_mix: Vec<u8>,
    /// Kernel of `global.clarity`.
    pub clarity: Vec<u8>,
    /// Kernel of `global.texture`.
    pub texture: Vec<u8>,
    /// Kernel of `global.dehaze`.
    pub dehaze: Vec<u8>,
    /// Kernel of `global.noise_reduction`.
    pub noise_reduction: Vec<u8>,
    /// Kernel of `global.sharpen`.
    pub sharpen: Vec<u8>,
    /// Kernel of `global.creative_lut`.
    pub creative_lut: Vec<u8>,
}

/// The entry of a develop node, for `pv` and every later version.
pub open spec fn entry_of(id: Seq<char>, pv: ProcessVersion, kernel: Seq<u8>) -> Entry {
    Entry {
        id,
        range: PvRange { first: pv, last: None },
        salt: Some(blake3_digest(kernel)),
        inputs: seq![Port { name: "in"@, ty: PortType::LinearRgbaF16 }],
        output: Port { name: "out"@, ty: PortType::LinearRgbaF16 },
    }
}

/// The develop nodes' entries, in registration order.
pub open spec fn global_entries(pv: ProcessVersion, k: GlobalKernels) -> Seq<Entry> {
    seq![
        entry_of(WhiteBalanceNode::name(), pv, k.wb@),
        entry_of(ExposureNode::name(), pv, k.exposure@),
        entry_of(ContrastNode::name(), pv, k.contrast@),
        entry_of(ToneRecoveryNode::name(), pv, k.tone_recovery@),
        entry_of(WhitesBlacksNode::name(), pv, k.whites_blacks@),
        entry_of(ToneCurveNode::name(), pv, k.tone_curve@),
        entry_of(HslNode::name(), pv, k.hsl@),
        entry_of(VibranceSatNode::name(), pv, k.vibrance_sat@),
        entry_of(ColorGradeNode::name(), pv, k.color_grade@),
        entry_of(BwMixNode::name(), pv, k.bw_mix@),
        entry_of(ClarityNode::name(), pv, k.clarity@),
        entry_of(TextureNode::name(), pv, k.texture@),
        entry_of(DehazeNode::name(), pv, k.dehaze@),
        entry_of(NoiseReductionNode::name(), pv, k.noise_reduction@),
        entry_of(SharpenNode::name(), pv, k.sharpen@),
        entry_of(CreativeLutNode::name(), pv, k.creative_lut@),
    ]
}

/// Registering `more` one after the other: the registry then, and whether all
/// went in. The first clash stops it.
pub open spec fn enrolled(entries: Seq<Entry>, more: Seq<Entry>) -> (Seq<Entry>, bool)
    decreases more.len(),
{
    if more.len() == 0 {
        (entries, true)
    } else {
        let before = enrolled(entries, more.drop_last());
        if !before.1 || clashes(before.0, more.last()) {
            (before.0, false)
        } else {
            (before.0.push(more.last()), true)
        }
    }
}

fn enroll<N: GlobalNode>(reg: &mut NodeRegistry, pv: ProcessVersion, kernel: &Vec<u8>) -> (r: Result<
    (),
    RegistryError,
>)
    ensures
        ({
            let e = entry_of(N::name(), pv, kernel@);
            &&& r is Err <==> clashes(old(reg)@, e)
            &&& final(reg)@ == if clashes(old(reg)@, e) {
                old(reg)@
            } else {
                old(reg)@.push(e)
            }
        }),
{
    let mut inputs: Vec<PortDecl> = Vec::new();
    inputs.push(PortDecl { name: "in", ty: PortType::LinearRgbaF16 });
    assert(ports(inputs@) =~= seq![Port { name: "in"@, ty: PortType::LinearRgbaF16 }]);
    let entry = RegistryEntry {
        id: N::id(),
        range: PvRange::from_open(pv),
        salt: Some(kernel_salt(kernel.as_slice())),
        inputs,
        output: PortDecl { name: "out", ty: PortType::LinearRgbaF16 },
    };
    assert(entry@ == entry_of(N::name(), pv, kernel@));
    reg.register(entry)
}

proof fn lemma_enrolled_next(entries: Seq<Entry>, more: Seq<Entry>, k: int)
    requires
        0 <= k < more.len(),
    ensures
        enrolled(entries, more.take(k + 1)) == ({
            let before = enrolled(entries, more.take(k));
            if !before.1 || clashes(before.0, more[k]) {
                (before.0, false)
            } else {
                (before.0.push(more[k]), true)
            }
        }),
{
    assert(more.take(k + 1).drop_last() =~= more.take(k));
}

proof fn lemma_enrolled_stops(entries: Seq<Entry>, more: Seq<Entry>, k: int)
    requires
        0 <= k <= more.len(),
    ensures
        !enrolled(entries, more.take(k)).1 ==> enrolled(entries, more) == enrolled(
            entries,
            more.take(k),
        ),
    decreases more.len() - k,
{
    if k < more.len() {
        lemma_enrolled_next(entries, more, k);
        lemma_enrolled_stops(entries, more, k + 1);
    } else {
        assert(more.take(k) =~= more);
    }
}

/// Registers every develop node for `pv` and every later version, stopping at
/// the first one that is already registered for one of them.
pub fn register_global_nodes(
    reg: &mut NodeRegistry,
    pv: ProcessVersion,
    kernels: &GlobalKernels,
) -> (r: Result<(), RegistryError>)
    ensures
        (final(reg)@, r is Ok) == enrolled(old(reg)@, global_entries(pv, *kernels)),
{
    let ghost base = reg@;
    let ghost list = global_entries(pv, *kernels);
    assert(list.take(0) =~= Seq::empty());
    proof {
        lemma_enrolled_next(base, list, 0);
        lemma_enrolled_stops(base, list, 1);
    }
    enroll::<WhiteBalanceNode>(reg, pv, &kernels.wb)?;
    proof {
        lemma_enrolled_next(base, list, 1);
        lemma_enrolled_stops(base, list, 2);
    }
    enroll::<ExposureNode>(reg, pv, &kernels.exposure)?;
    proof {
        lemma_enrolled_next(base, list, 2);
        lemma_enrolled_stops(base, list, 3);
    }
    enroll::<ContrastNode>(reg, pv, &kernels.contrast)?;
    proof {
        lemma_enrolled_next(base, list, 3);
        lemma_enrolled_stops(base, list, 4);
    }
    enroll::<ToneRecoveryNode>(reg, pv, &kernels.tone_recovery)?;
    proof {
        lemma_enrolled_next(base, list, 4);
        lemma_enrolled_stops(base, list, 5);
    }
    enroll::<WhitesBlacksNode>(reg, pv, &kernels.whites_blacks)?;
    proof {
        lemma_enrolled_next(base, list, 5);
        lemma_enrolled_stops(base, list, 6);
    }
    enroll::<ToneCurveNode>(reg, pv, &kernels.tone_curve)?;
    proof {
        lemma_enrolled_next(base, list, 6);
        lemma_enrolled_stops(base, list, 7);
    }
    enroll::<HslNode>(reg, pv, &kernels.hsl)?;
    proof {
        lemma_enrolled_next(base, list, 7);
        lemma_enrolled_stops(base, list, 8);
    }
    enroll::<VibranceSatNode>(reg, pv, &kernels.vibrance_sat)?;
    proof {
        lemma_enrolled_next(base, list, 8);
        lemma_enrolled_stops(base, list, 9);
    }
    enroll::<ColorGradeNode>(reg, pv, &kernels.color_grade)?;
    proof {
        lemma_enrolled_next(base, list, 9);
        lemma_enrolled_stops(base, list, 10);
    }
    enroll::<BwMixNode>(reg, pv, &kernels.bw_mix)?;
    proof {
        lemma_enrolled_next(base, list, 10);
        lemma_enrolled_stops(base, list, 11);
    }
    enroll::<ClarityNode>(reg, pv, &kernels.clarity)?;
    proof {
        lemma_enrolled_next(base, list, 11);
        lemma_enrolled_stops(base, list, 12);
    }
    enroll::<TextureNode>(reg, pv, &kernels.texture)?;
    proof {
        lemma_enrolled_next(base, list, 12);
        lemma_enrolled_stops(base, list, 13);
    }
    enroll::<DehazeNode>(reg, pv, &kernels.dehaze)?;
    proof {
        lemma_enrolled_next(base, list, 13);
        lemma_enrolled_stops(base, list, 14);
    }
    enroll::<NoiseReductionNode>(reg, pv, &kernels.noise_reduction)?;
    proof {
        lemma_enrolled_next(base, list, 14);
        lemma_enrolled_stops(base, list, 15);
    }
    enroll::<SharpenNode>(reg, pv, &kernels.sharpen)?;
    proof {
        lemma_enrolled_next(base, list, 15);
        lemma_enrolled_stops(base, list, 16);
    }
    enroll::<CreativeLutNode>(reg, pv, &kernels.creative_lut)?;
    assert(list.take(16) =~= list);
    Ok(())
}

} // verus!
