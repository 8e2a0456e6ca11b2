//! `global.hsl`: the 8-band hue, saturation and luminance mixer.

use vstd::prelude::*;

use crate::bytes::le_words;
use crate::bytes::pack_words;
use crate::edit::GlobalStages;
use crate::edit::HslBand;
use crate::edit::Treatment;
use crate::ieee::Double;
use crate::ieee::Single;
use crate::nodes::global::node::append_words;
use crate::nodes::global::node::declare_float;
use crate::nodes::global::node::float_decl;
use crate::nodes::global::node::lemma_conforms_in_order;
use crate::nodes::global::node::lemma_find;
use crate::nodes::global::node::GlobalNode;
use crate::nodes::global::node::NodeFactory;
use crate::nodes::global::node::Prepared;
use crate::nodes::gpu::storage_plan;
use crate::nodes::gpu::with_storage;
use crate::nodes::gpu::GpuPlan;
use crate::params::block_of;
use crate::params::declared;
use crate::params::float_field;
use crate::params::float_of;
use crate::params::lookup_float;
use crate::params::lookup_float_or;
use crate::params::named;
use crate::params::Declared;
use crate::params::Field;
use crate::params::FieldDecl;
use crate::params::Named;
use crate::params::ParamBlock;
use crate::text::digit;
use crate::types::NodeId;

verus! {

/// The `global.hsl` develop node.
#[derive(Clone, Copy, Debug, PartialEq, Eq, Structural)]
pub struct HslNode {}

/// The three channels of a band or wheel, by name.
pub open spec fn channel_name(c: int) -> Seq<char> {
    if c == 0 {
        seq!['h', 'u', 'e']
    } else if c == 1 {
        seq!['s', 'a', 't']
    } else {
        seq!['l', 'u', 'm']
    }
}

/// The name of channel `c` of band `i`, such as `b2_sat`.
pub open spec fn band_name(i: int, c: int) -> Seq<char> {
    seq!['b', digit(i), '_'] + channel_name(c)
}

/// The name of channel `c` of band `i`.
pub fn band_field(i: usize, c: usize) -> (r: &'static str)
    requires
        i < 8,
        c < 3,
    ensures
        r@ == band_name(i as int, c as int),
{
    let r: &'static str = match (i, c) {
        (0, 0) => "b0_hue",
        (0, 1) => "b0_sat",
        (0, 2) => "b0_lum",
        (1, 0) => "b1_hue",
        (1, 1) => "b1_sat",
        (1, 2) => "b1_lum",
        (2, 0) => "b2_hue",
        (2, 1) => "b2_sat",
        (2, 2) => "b2_lum",
        (3, 0) => "b3_hue",
        (3, 1) => "b3_sat",
        (3, 2) => "b3_lum",
        (4, 0) => "b4_hue",
        (4, 1) => "b4_sat",
        (4, 2) => "b4_lum",
        (5, 0) => "b5_hue",
        (5, 1) => "b5_sat",
        (5, 2) => "b5_lum",
        (6, 0) => "b6_hue",
        (6, 1) => "b6_sat",
        (6, 2) => "b6_lum",
        (7, 0) => "b7_hue",
        (7, 1) => "b7_sat",
        _ => "b7_lum",
    };
    proof {
        reveal_strlit("b0_hue");
        reveal_strlit("b0_sat");
        reveal_strlit("b0_lum");
        reveal_strlit("b1_hue");
        reveal_strlit("b1_sat");
        reveal_strlit("b1_lum");
        reveal_strlit("b2_hue");
        reveal_strlit("b2_sat");
        reveal_strlit("b2_lum");
        reveal_strlit("b3_hue");
        reveal_strlit("b3_sat");
        reveal_strlit("b3_lum");
        reveal_strlit("b4_hue");
        reveal_strlit("b4_sat");
        reveal_strlit("b4_lum");
        reveal_strlit("b5_hue");
        reveal_strlit("b5_sat");
        reveal_strlit("b5_lum");
        reveal_strlit("b6_hue");
        reveal_strlit("b6_sat");
        reveal_strlit("b6_lum");
        reveal_strlit("b7_hue");
        reveal_strlit("b7_sat");
        reveal_strlit("b7_lum");
        assert(r@ =~= band_name(i as int, c as int));
    }
    r
}

/// Channel `c` of a band.
pub open spec fn band_channel(b: HslBand, c: int) -> Single {
    if c == 0 {
        b.hue
    } else if c == 1 {
        b.sat
    } else {
        b.lum
    }
}

/// The band channels found in a block, band by band; what is missing is zero.
pub open spec fn hsl_params(block: Seq<Named>) -> Seq<Double> {
    Seq::new(24, |k: int| lookup_float_or(block, band_name(k / 3, k % 3), Double { bits: 0 }))
}

impl HslNode {
    /// A fresh node.
    pub fn new() -> (r: HslNode)
        ensures
            r == (HslNode {  }),
    {
        HslNode {  }
    }

    /// The band channels of an evaluation, read from its block: hue, saturation
    /// and luminance of each band in turn.
    pub fn bands_from_params(params: &ParamBlock) -> (r: Vec<Double>)
        ensures
            r@ == hsl_params(params@),
    {
        let mut r: Vec<Double> = Vec::new();
        let mut k: usize = 0;
        while k < 24
            invariant
                k <= 24,
                r@ == hsl_params(params@).take(k as int),
            decreases 24 - k,
        {
            let ghost before = r@;
            r.push(params.get_f64_or(band_field(k / 3, k % 3), Double { bits: 0 }));
            assert(r@ =~= before.push(hsl_params(params@)[k as int]));
            k = k + 1;
            assert(r@ =~= hsl_params(params@).take(k as int));
        }
        assert(r@ =~= hsl_params(params@));
        r
    }

    /// The storage buffer: the colour-space matrices, the hue-band geometry, and
    /// the bands.
    pub fn data(matrices: &Vec<u32>, geometry: &Vec<u32>, bands: &Vec<u32>) -> (r: Vec<u8>)
        ensures
            r@ == le_words(matrices@ + geometry@ + bands@),
    {
        let mut words: Vec<u32> = Vec::new();
        append_words(&mut words, matrices);
        append_words(&mut words, geometry);
        append_words(&mut words, bands);
        assert(words@ =~= matrices@ + geometry@ + bands@);
        pack_words(&words)
    }

    /// The node's GPU passes.
    pub fn gpu_plan(&self) -> (r: GpuPlan)
        ensures
            r@ == storage_plan(),
            r@.sound(),
    {
        with_storage()
    }
}

/// Whether a band changes nothing.
pub open spec fn still(b: HslBand) -> bool {
    b.hue.zero() && b.sat.zero() && b.lum.zero()
}

impl GlobalNode for HslNode {
    open spec fn name() -> Seq<char> {
        "global.hsl"@
    }

    /// A monochrome recipe has no hue left to mix.
    open spec fn identity(p: GlobalStages, f: Prepared) -> bool {
        p.treatment is BlackAndWhite || forall|i: int|
            0 <= i < 8 ==> still(#[trigger] p.hsl.bands@[i])
    }

    open spec fn ready(p: GlobalStages, f: Prepared) -> bool {
        forall|k: int|
            0 <= k < 24 ==> (#[trigger] band_channel(p.hsl.bands@[k / 3], k % 3)).finite()
    }

    open spec fn block(p: GlobalStages, f: Prepared) -> Seq<Named> {
        Seq::new(
            24,
            |k: int|
                float_of(band_name(k / 3, k % 3), band_channel(p.hsl.bands@[k / 3], k % 3)),
        )
    }

    open spec fn schema() -> Seq<Declared> {
        Seq::new(24, |k: int| float_decl(band_name(k / 3, k % 3)))
    }

    open spec fn apron() -> int {
        0
    }

    fn id() -> (r: NodeId) {
        NodeId("global.hsl")
    }

    fn is_identity(p: &GlobalStages, f: &Prepared) -> (r: bool) {
        if p.treatment == Treatment::BlackAndWhite {
            return true;
        }
        let mut i: usize = 0;
        while i < 8
            invariant
                i <= 8,
                !(p.treatment is BlackAndWhite),
                forall|k: int| 0 <= k < i ==> still(#[trigger] p.hsl.bands@[k]),
            decreases 8 - i,
        {
            let b: HslBand = p.hsl.bands[i];
            if !(b.hue.is_zero() && b.sat.is_zero() && b.lum.is_zero()) {
                assert(!still(p.hsl.bands@[i as int]));
                return false;
            }
            i = i + 1;
        }
        true
    }

    fn param_block(p: &GlobalStages, f: &Prepared) -> (r: ParamBlock) {
        let mut fields: Vec<Field> = Vec::new();
        let mut k: usize = 0;
        while k < 24
            invariant
                k <= 24,
                Self::ready(*p, *f),
                named(fields@) == Self::block(*p, *f).take(k as int),
                forall|i: int| 0 <= i < fields.len() ==> (#[trigger] fields[i]).value@.admissible(),
            decreases 24 - k,
        {
            let b: HslBand = p.hsl.bands[k / 3];
            let c: usize = k % 3;
            let v: Single = if c == 0 {
                b.hue
            } else if c == 1 {
                b.sat
            } else {
                b.lum
            };
            let ghost before = named(fields@);
            assert(v == band_channel(p.hsl.bands@[k as int / 3], k as int % 3));
            fields.push(float_field(band_field(k / 3, c), v));
            assert(named(fields@) =~= before.push(Self::block(*p, *f)[k as int]));
            k = k + 1;
            assert(named(fields@) =~= Self::block(*p, *f).take(k as int));
        }
        assert(named(fields@) =~= Self::block(*p, *f));
        block_of(fields)
    }

    fn params_schema() -> (r: Vec<FieldDecl>) {
        let mut r: Vec<FieldDecl> = Vec::new();
        let mut k: usize = 0;
        while k < 24
            invariant
                k <= 24,
                declared(r@) == Self::schema().take(k as int),
            decreases 24 - k,
        {
            let ghost before = declared(r@);
            r.push(declare_float(band_field(k / 3, k % 3)));
            assert(declared(r@) =~= before.push(Self::schema()[k as int]));
            k = k + 1;
            assert(declared(r@) =~= Self::schema().take(k as int));
        }
        assert(declared(r@) =~= Self::schema());
        r
    }

    fn margin() -> (r: u32) {
        0
    }

    proof fn law_takes_only_declared_params(p: GlobalStages, f: Prepared) {
        lemma_conforms_in_order(Self::block(p, f), Self::schema());
    }
}

/// Reading a block gives back the recipe's bands.
pub proof fn law_hsl_params_round_trip(p: GlobalStages, f: Prepared, k: int)
    requires
        0 <= k < 24,
    ensures
        hsl_params(HslNode::block(p, f))[k] == band_channel(
            p.hsl.bands@[k / 3],
            k % 3,
        ).as_double(),
{
    let block = HslNode::block(p, f);
    assert forall|i: int, j: int| 0 <= i < j < block.len() implies (#[trigger] block[i]).name != (
    #[trigger] block[j]).name by {
        if i / 3 != j / 3 {
            assert(block[i].name[1] != block[j].name[1]);
        } else {
            assert(block[i].name[3] == channel_name(i % 3)[0]);
            assert(block[j].name[3] == channel_name(j % 3)[0]);
        }
    }
    lemma_find(block, k);
}

/// Band `i`'s hue stands in the block under `b`, the digit `i` and `_hue`, and is
/// read from there; a missing one is zero.
pub proof fn law_each_band_has_its_own_hue(
    p: GlobalStages,
    f: Prepared,
    block: Seq<Named>,
    i: int,
    name: Seq<char>,
)
    requires
        0 <= i < 8,
        name.len() == 6,
        name[0] == 'b',
        name[1] as int == '0' as int + i,
        name[2] == '_',
        name[3] == 'h',
        name[4] == 'u',
        name[5] == 'e',
    ensures
        lookup_float(HslNode::block(p, f), name) == Some(p.hsl.bands@[i].hue.as_double()),
        hsl_params(block).len() == 24,
        lookup_float(block, name) matches Some(v) ==> hsl_params(block)[3 * i + 0] == v,
        lookup_float(block, name) is None ==> hsl_params(block)[3 * i + 0] == (Double { bits: 0 }),
{
    let k = 3 * i + 0;
    assert(k / 3 == i && k % 3 == 0);
    assert(name =~= band_name(i, 0));
    lemma_band_field(p, f, k);
}

/// Band `i`'s saturation stands in the block under `b`, the digit `i` and `_sat`, and is
/// read from there; a missing one is zero.
pub proof fn law_each_band_has_its_own_saturation(
    p: GlobalStages,
    f: Prepared,
    block: Seq<Named>,
    i: int,
    name: Seq<char>,
)
    requires
        0 <= i < 8,
        name.len() == 6,
        name[0] == 'b',
        name[1] as int == '0' as int + i,
        name[2] == '_',
        name[3] == 's',
        name[4] == 'a',
        name[5] == 't',
    ensures
        lookup_float(HslNode::block(p, f), name) == Some(p.hsl.bands@[i].sat.as_double()),
        hsl_params(block).len() == 24,
        lookup_float(block, name) matches Some(v) ==> hsl_params(block)[3 * i + 1] == v,
        lookup_float(block, name) is None ==> hsl_params(block)[3 * i + 1] == (Double { bits: 0 }),
{
    let k = 3 * i + 1;
    assert(k / 3 == i && k % 3 == 1);
    assert(name =~= band_name(i, 1));
    lemma_band_field(p, f, k);
}

/// Band `i`'s luminance stands in the block under `b`, the digit `i` and `_lum`, and is
/// read from there; a missing one is zero.
pub proof fn law_each_band_has_its_own_luminance(
    p: GlobalStages,
    f: Prepared,
    block: Seq<Named>,
    i: int,
    name: Seq<char>,
)
    requires
        0 <= i < 8,
        name.len() == 6,
        name[0] == 'b',
        name[1] as int == '0' as int + i,
        name[2] == '_',
        name[3] == 'l',
        name[4] == 'u',
        name[5] == 'm',
    ensures
        lookup_float(HslNode::block(p, f), name) == Some(p.hsl.bands@[i].lum.as_double()),
        hsl_params(block).len() == 24,
        lookup_float(block, name) matches Some(v) ==> hsl_params(block)[3 * i + 2] == v,
        lookup_float(block, name) is None ==> hsl_params(block)[3 * i + 2] == (Double { bits: 0 }),
{
    let k = 3 * i + 2;
    assert(k / 3 == i && k % 3 == 2);
    assert(name =~= band_name(i, 2));
    lemma_band_field(p, f, k);
}

proof fn lemma_band_field(p: GlobalStages, f: Prepared, k: int)
    requires
        0 <= k < 24,
    ensures
        lookup_float(HslNode::block(p, f), band_name(k / 3, k % 3)) == Some(
            band_channel(p.hsl.bands@[k / 3], k % 3).as_double(),
        ),
{
    let block = HslNode::block(p, f);
    assert forall|i: int, j: int| 0 <= i < j < block.len() implies (#[trigger] block[i]).name != (
    #[trigger] block[j]).name by {
        if i / 3 != j / 3 {
            assert(block[i].name[1] != block[j].name[1]);
        } else {
            assert(block[i].name[3] == channel_name(i % 3)[0]);
            assert(block[j].name[3] == channel_name(j % 3)[0]);
        }
    }
    lemma_find(block, k);
}

/// Makes [`HslNode`]s.
#[derive(Clone, Copy, Debug, PartialEq, Eq, Structural)]
pub struct HslFactory {}

impl NodeFactory for HslFactory {
    type Node = HslNode;

    open spec fn fresh() -> HslNode {
        HslNode {  }
    }

    fn instantiate(&self) -> (r: HslNode) {
        HslNode::new()
    }
}

} // verus!
