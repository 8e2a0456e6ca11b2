//! `global.bw_mix`: the band-weighted monochrome conversion.

use vstd::prelude::*;

use crate::bytes::le_words;
use crate::bytes::pack_words;
use crate::edit::GlobalStages;
use crate::edit::Treatment;
use crate::ieee::Double;
use crate::ieee::Single;
use crate::nodes::global::node::append_words;
use crate::nodes::global::node::declare_float;
use crate::nodes::global::node::float_decl;
use crate::nodes::global::node::lemma_conforms_in_order;
use crate::nodes::global::node::lemma_find;
use crate::nodes::global::node::GlobalNode;
use crate::nodes::global::node::NodeFactory;
use crate::nodes::global::node::Prepared;
use crate::nodes::gpu::storage_plan;
use crate::nodes::gpu::with_storage;
use crate::nodes::gpu::GpuPlan;
use crate::params::block_of;
use crate::params::declared;
use crate::params::float_field;
use crate::params::float_of;
use crate::params::lookup_float;
use crate::params::lookup_float_or;
use crate::params::named;
use crate::params::Declared;
use crate::params::Field;
use crate::params::FieldDecl;
use crate::params::Named;
use crate::params::ParamBlock;
use crate::text::digit;
use crate::types::NodeId;

verus! {

/// The `global.bw_mix` develop node.
#[derive(Clone, Copy, Debug, PartialEq, Eq, Structural)]
pub struct BwMixNode {}

/// The name of the `i`-th mix weight: `m` and the band's number.
pub open spec fn mix_name(i: int) -> Seq<char> {
    seq!['m', digit(i)]
}

/// The name of the `i`-th mix weight.
pub fn mix_field(i: usize) -> (r: &'static str)
    requires
        i < 8,
    ensures
        r@ == mix_name(i as int),
{
    let r: &'static str = match i {
        0 => "m0",
        1 => "m1",
        2 => "m2",
        3 => "m3",
        4 => "m4",
        5 => "m5",
        6 => "m6",
        _ => "m7",
    };
    proof {
        reveal_strlit("m0");
        reveal_strlit("m1");
        reveal_strlit("m2");
        reveal_strlit("m3");
        reveal_strlit("m4");
        reveal_strlit("m5");
        reveal_strlit("m6");
        reveal_strlit("m7");
        assert(r@ =~= mix_name(i as int));
    }
    r
}

/// The mix weights found in a block; what is missing is zero.
pub open spec fn mix_params(block: Seq<Named>) -> Seq<Double> {
    Seq::new(8, |i: int| lookup_float_or(block, mix_name(i), Double { bits: 0 }))
}

impl BwMixNode {
    /// A fresh node.
    pub fn new() -> (r: BwMixNode)
        ensures
            r == (BwMixNode {  }),
    {
        BwMixNode {  }
    }

    /// The mix weights of an evaluation, read from its block.
    pub fn mix_from_params(params: &ParamBlock) -> (r: [Double; 8])
        ensures
            r@ == mix_params(params@),
    {
        let none = Double { bits: 0 };
        let mut r: [Double; 8] = [none, none, none, none, none, none, none, none];
        let mut i: usize = 0;
        while i < 8
            invariant
                i <= 8,
                none == (Double { bits: 0 }),
                forall|k: int| 0 <= k < i ==> #[trigger] r@[k] == mix_params(params@)[k],
            decreases 8 - i,
        {
            r[i] = params.get_f64_or(mix_field(i), none);
            i = i + 1;
        }
        assert(r@ =~= mix_params(params@));
        r
    }

    /// The storage buffer: luma weights, the colour-space matrices, the hue-band
    /// geometry, and the mix.
    pub fn data(
        weights: [Single; 3],
        matrices: &Vec<u32>,
        geometry: &Vec<u32>,
        mix: &Vec<u32>,
    ) -> (r: Vec<u8>)
        ensures
            r@ == le_words(
                seq![weights[0].bits, weights[1].bits, weights[2].bits] + matrices@ + geometry@
                    + mix@,
            ),
    {
        let mut words: Vec<u32> = vec![weights[0].bits, weights[1].bits, weights[2].bits];
        assert(words@ =~= seq![weights[0].bits, weights[1].bits, weights[2].bits]);
        append_words(&mut words, matrices);
        append_words(&mut words, geometry);
        append_words(&mut words, mix);
        pack_words(&words)
    }

    /// The node's GPU passes.
    pub fn gpu_plan(&self) -> (r: GpuPlan)
        ensures
            r@ == storage_plan(),
            r@.sound(),
    {
        with_storage()
    }
}

impl GlobalNode for BwMixNode {
    open spec fn name() -> Seq<char> {
        "global.bw_mix"@
    }

    /// A monochrome recipe converts even with an all-zero mix.
    open spec fn identity(p: GlobalStages, f: Prepared) -> bool {
        !(p.treatment is BlackAndWhite)
    }

    open spec fn ready(p: GlobalStages, f: Prepared) -> bool {
        forall|i: int| 0 <= i < 8 ==> (#[trigger] p.bw.weights@[i]).finite()
    }

    open spec fn block(p: GlobalStages, f: Prepared) -> Seq<Named> {
        Seq::new(8, |i: int| float_of(mix_name(i), p.bw.weights@[i]))
    }

    open spec fn schema() -> Seq<Declared> {
        Seq::new(8, |i: int| float_decl(mix_name(i)))
    }

    open spec fn apron() -> int {
        0
    }

    fn id() -> (r: NodeId) {
        NodeId("global.bw_mix")
    }

    fn is_identity(p: &GlobalStages, f: &Prepared) -> (r: bool) {
        p.treatment != Treatment::BlackAndWhite
    }

    fn param_block(p: &GlobalStages, f: &Prepared) -> (r: ParamBlock) {
        let mut fields: Vec<Field> = Vec::new();
        let mut i: usize = 0;
        while i < 8
            invariant
                i <= 8,
                Self::ready(*p, *f),
                named(fields@) == Self::block(*p, *f).take(i as int),
                forall|k: int| 0 <= k < fields.len() ==> (#[trigger] fields[k]).value@.admissible(),
            decreases 8 - i,
        {
            let ghost before = named(fields@);
            assert(p.bw.weights@[i as int].finite());
            fields.push(float_field(mix_field(i), p.bw.weights[i]));
            assert(named(fields@) =~= before.push(Self::block(*p, *f)[i as int]));
            i = i + 1;
            assert(named(fields@) =~= Self::block(*p, *f).take(i as int));
        }
        assert(named(fields@) =~= Self::block(*p, *f));
        block_of(fields)
    }

    fn params_schema() -> (r: Vec<FieldDecl>) {
        let mut r: Vec<FieldDecl> = Vec::new();
        let mut i: usize = 0;
        while i < 8
            invariant
                i <= 8,
                declared(r@) == Self::schema().take(i as int),
            decreases 8 - i,
        {
            let ghost before = declared(r@);
            r.push(declare_float(mix_field(i)));
            i = i + 1;
            assert(declared(r@) =~= before.push(Self::schema()[i - 1]));
            assert(declared(r@) =~= Self::schema().take(i as int));
        }
        assert(declared(r@) =~= Self::schema());
        r
    }

    fn margin() -> (r: u32) {
        0
    }

    proof fn law_takes_only_declared_params(p: GlobalStages, f: Prepared) {
        lemma_conforms_in_order(Self::block(p, f), Self::schema());
    }
}

/// Reading a block gives back the recipe's mix.
pub proof fn law_mix_params_round_trip(p: GlobalStages, f: Prepared)
    ensures
        mix_params(BwMixNode::block(p, f)) == Seq::new(
            8,
            |i: int| p.bw.weights@[i].as_double(),
        ),
{
    let block = BwMixNode::block(p, f);
    assert forall|i: int, j: int| 0 <= i < j < block.len() implies (#[trigger] block[i]).name != (
    #[trigger] block[j]).name by {
        assert(mix_name(i)[1] != mix_name(j)[1]);
    }
    assert forall|i: int| 0 <= i < 8 implies mix_params(block)[i] == p.bw.weights@[i].as_double() by {
        lemma_find(block, i);
    }
    assert(mix_params(block) =~= Seq::new(8, |i: int| p.bw.weights@[i].as_double()));
}

/// Band `i`'s weight stands in the block under `m` and the digit `i`.
pub proof fn law_each_band_has_its_own_weight(p: GlobalStages, f: Prepared, i: int, name: Seq<char>)
    requires
        0 <= i < 8,
        name.len() == 2,
        name[0] == 'm',
        name[1] as int == '0' as int + i,
    ensures
        lookup_float(BwMixNode::block(p, f), name) == Some(p.bw.weights@[i].as_double()),
{
    let block = BwMixNode::block(p, f);
    assert forall|i: int, j: int| 0 <= i < j < block.len() implies (#[trigger] block[i]).name != (
    #[trigger] block[j]).name by {
        assert(mix_name(i)[1] != mix_name(j)[1]);
    }
    assert(name =~= mix_name(i));
    lemma_find(block, i);
}

/// An evaluation takes band `i`'s weight from under `m` and the digit `i`; a
/// missing one is zero.
pub proof fn law_weights_are_read_by_name(block: Seq<Named>, i: int, name: Seq<char>)
    requires
        0 <= i < 8,
        name.len() == 2,
        name[0] == 'm',
        name[1] as int == '0' as int + i,
    ensures
        mix_params(block).len() == 8,
        lookup_float(block, name) matches Some(v) ==> mix_params(block)[i] == v,
        lookup_float(block, name) is None ==> mix_params(block)[i] == (Double { bits: 0 }),
{
    assert(name =~= mix_name(i));
}

/// Makes [`BwMixNode`]s.
#[derive(Clone, Copy, Debug, PartialEq, Eq, Structural)]
pub struct BwMixFactory {}

impl NodeFactory for BwMixFactory {
    type Node = BwMixNode;

    open spec fn fresh() -> BwMixNode {
        BwMixNode {  }
    }

    fn instantiate(&self) -> (r: BwMixNode) {
        BwMixNode::new()
    }
}

} // verus!
