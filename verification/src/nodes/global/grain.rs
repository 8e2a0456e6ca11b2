//! `fx.grain`: monochromatic film grain, a two-octave value noise over a hashed
//! lattice.

use vstd::prelude::*;

use crate::bytes::law_words_lie_end_to_end;
use crate::bytes::le32;
use crate::bytes::le_words;
use crate::bytes::pack_words;
use crate::bytes::twos;
use crate::bytes::word_of_i32;
use crate::edit::GlobalStages;
use crate::ieee::Double;
use crate::ieee::Single;
use crate::nodes::global::node::declare_float;
use crate::nodes::global::node::float_decl;
use crate::nodes::global::node::lemma_conforms_in_order;
use crate::nodes::global::node::lemma_find;
use crate::nodes::global::node::names_apart;
use crate::nodes::global::node::GlobalNode;
use crate::nodes::global::node::NodeFactory;
use crate::nodes::global::node::Prepared;
use crate::nodes::gpu::uniform_plan;
use crate::nodes::gpu::with_uniform;
use crate::nodes::gpu::GpuPlan;
use crate::params::block_of;
use crate::params::declared;
use crate::params::float_field;
use crate::params::float_of;
use crate::params::lookup_float;
use crate::params::lookup_float_or;
use crate::params::named;
use crate::params::Declared;
use crate::params::Field;
use crate::params::FieldDecl;
use crate::params::Named;
use crate::params::ParamBlock;
use crate::types::NodeId;

verus! {

/// Seed of the fine octave.
pub const SEED_FINE: u32 = 0x5f37_59df;

/// Seed of the coarse octave.
pub const SEED_COARSE: u32 = 0x9e37_79b9;

/// The `fx.grain` develop node.
#[derive(Clone, Copy, Debug, PartialEq, Eq, Structural)]
pub struct GrainNode {}

/// The parameters an evaluation reads.
#[derive(Clone, Copy, Debug, PartialEq, Eq, Structural)]
pub struct GrainParams {
    /// Strength.
    pub amount: Double,
    /// Grain size.
    pub size: Double,
    /// Unevenness.
    pub roughness: Double,
}

/// The parameters found in a block; what is missing is neutral.
pub open spec fn grain_params(block: Seq<Named>) -> GrainParams {
    GrainParams {
        amount: lookup_float_or(block, "amount"@, Double { bits: 0 }),
        size: lookup_float_or(block, "size"@, Double { bits: 0 }),
        roughness: lookup_float_or(block, "roughness"@, Double { bits: 0 }),
    }
}

/// The words of the uniform buffer.
pub open spec fn grain_layout(weights: [Single; 3], amount: Single, inv_fine: Single, inv_coarse: Single, roughness: Single, origin_x: u32, origin_y: u32) -> Seq<u32> {
    seq![weights[0].bits, weights[1].bits, weights[2].bits, amount.bits, inv_fine.bits, inv_coarse.bits, roughness.bits, 0, origin_x, origin_y, 0, 0]
}

impl GrainNode {
    /// A fresh node.
    pub fn new() -> (r: GrainNode)
        ensures
            r == (GrainNode {  }),
    {
        GrainNode {  }
    }

    /// The parameters of an evaluation, read from its block.
    pub fn params_from(params: &ParamBlock) -> (r: GrainParams)
        ensures
            r == grain_params(params@),
    {
        GrainParams {
            amount: params.get_f64_or("amount", Double { bits: 0 }),
            size: params.get_f64_or("size", Double { bits: 0 }),
            roughness: params.get_f64_or("roughness", Double { bits: 0 }),
        }
    }

    /// The uniform buffer: luma weights, strength, the reciprocals of both lattice
    /// spacings, unevenness, and the tile origin as two's-complement words.
    pub fn uniforms(weights: [Single; 3], amount: Single, inv_fine: Single, inv_coarse: Single, roughness: Single, origin_x: u32, origin_y: u32) -> (r: Vec<u8>)
        ensures
            r@ == le_words(grain_layout(weights, amount, inv_fine, inv_coarse, roughness, origin_x, origin_y)),
    {
        let words: Vec<u32> = vec![weights[0].bits, weights[1].bits, weights[2].bits, amount.bits, inv_fine.bits, inv_coarse.bits, roughness.bits, 0, origin_x, origin_y, 0, 0];
        assert(words@ =~= seq![weights[0].bits, weights[1].bits, weights[2].bits, amount.bits, inv_fine.bits, inv_coarse.bits, roughness.bits, 0, origin_x, origin_y, 0, 0]);
        pack_words(&words)
    }

    /// The node's GPU passes.
    pub fn gpu_plan(&self) -> (r: GpuPlan)
        ensures
            r@ == uniform_plan(),
            r@.sound(),
    {
        with_uniform()
    }
}

impl GlobalNode for GrainNode {
    open spec fn name() -> Seq<char> {
        "fx.grain"@
    }

    open spec fn identity(p: GlobalStages, f: Prepared) -> bool {
        p.effects.grain.amount.zero()
    }

    open spec fn ready(p: GlobalStages, f: Prepared) -> bool {
        p.effects.grain.amount.finite() && p.effects.grain.size.finite() && p.effects.grain.roughness.finite()
    }

    open spec fn block(p: GlobalStages, f: Prepared) -> Seq<Named> {
        seq![
            float_of("amount"@, p.effects.grain.amount),
            float_of("size"@, p.effects.grain.size),
            float_of("roughness"@, p.effects.grain.roughness),
        ]
    }

    open spec fn schema() -> Seq<Declared> {
        seq![
            float_decl("amount"@),
            float_decl("size"@),
            float_decl("roughness"@),
        ]
    }

    open spec fn apron() -> int {
        0
    }

    fn id() -> (r: NodeId) {
        NodeId("fx.grain")
    }

    fn is_identity(p: &GlobalStages, f: &Prepared) -> (r: bool) {
        p.effects.grain.amount.is_zero()
    }

    fn param_block(p: &GlobalStages, f: &Prepared) -> (r: ParamBlock) {
        let mut fields: Vec<Field> = Vec::new();
        fields.push(float_field("amount", p.effects.grain.amount));
        fields.push(float_field("size", p.effects.grain.size));
        fields.push(float_field("roughness", p.effects.grain.roughness));
        assert(named(fields@) =~= Self::block(*p, *f));
        block_of(fields)
    }

    fn params_schema() -> (r: Vec<FieldDecl>) {
        let mut r: Vec<FieldDecl> = Vec::new();
        r.push(declare_float("amount"));
        r.push(declare_float("size"));
        r.push(declare_float("roughness"));
        assert(declared(r@) =~= Self::schema());
        r
    }

    fn margin() -> (r: u32) {
        0
    }

    proof fn law_takes_only_declared_params(p: GlobalStages, f: Prepared) {
        lemma_conforms_in_order(Self::block(p, f), Self::schema());
    }
}

/// Reading a block gives back what the recipe held.
pub proof fn law_grain_params_round_trip(p: GlobalStages, f: Prepared)
    ensures
        grain_params(GrainNode::block(p, f)) == (GrainParams {
            amount: p.effects.grain.amount.as_double(),
            size: p.effects.grain.size.as_double(),
            roughness: p.effects.grain.roughness.as_double(),
        }),
        lookup_float(GrainNode::block(p, f), "amount"@) == Some(p.effects.grain.amount.as_double()),
        lookup_float(GrainNode::block(p, f), "size"@) == Some(p.effects.grain.size.as_double()),
        lookup_float(GrainNode::block(p, f), "roughness"@) == Some(p.effects.grain.roughness.as_double()),
{
    let block = GrainNode::block(p, f);
    reveal_strlit("amount");
    reveal_strlit("size");
    reveal_strlit("roughness");
    assert("amount"@.len() != "size"@.len());
    assert("amount"@.len() != "roughness"@.len());
    assert("size"@.len() != "roughness"@.len());
    assert(names_apart(block));
    lemma_find(block, 0);
    lemma_find(block, 1);
    lemma_find(block, 2);
}

/// The first multiplier of the hash.
pub const HASH_MUL_A: u32 = 0x7feb_352d;

/// The second multiplier of the hash.
pub const HASH_MUL_B: u32 = 0x846c_a68b;

/// Multiplication modulo 2^32.
pub open spec fn wrapped_product(a: u32, b: u32) -> u32 {
    ((a * b) % 0x1_0000_0000) as u32
}

/// The "lowbias32" finalizer: two rounds of xor-shift and multiply, and a last
/// xor-shift.
pub open spec fn hashed(x: u32) -> u32 {
    let a = x ^ (x >> 16u32);
    let b = wrapped_product(a, HASH_MUL_A);
    let c = b ^ (b >> 15u32);
    let d = wrapped_product(c, HASH_MUL_B);
    d ^ (d >> 16u32)
}

/// The integer hash behind the grain lattice.
pub fn hash_u32(x: u32) -> (r: u32)
    ensures
        r == hashed(x),
{
    let a: u32 = x ^ (x >> 16u32);
    let b: u32 = a.wrapping_mul(HASH_MUL_A);
    let c: u32 = b ^ (b >> 15u32);
    let d: u32 = c.wrapping_mul(HASH_MUL_B);
    d ^ (d >> 16u32)
}

/// The hash's input at a lattice point: both coordinates scrambled apart, then
/// mixed with the seed.
pub open spec fn lattice_key(ix: i32, iy: i32, seed: u32) -> u32 {
    let a = wrapped_product(twos(ix), 0x9e37_79b1);
    let b = wrapped_product(twos(iy), 0x85eb_ca6b);
    a ^ ((b << 16u32) | (b >> 16u32)) ^ seed
}

/// The lattice sample at a point: the top 24 bits of the hash, a numerator over
/// 2^24.
pub fn lattice_bits(ix: i32, iy: i32, seed: u32) -> (r: u32)
    ensures
        r == hashed(lattice_key(ix, iy, seed)) >> 8u32,
        r < 0x100_0000,
{
    let a: u32 = word_of_i32(ix).wrapping_mul(0x9e37_79b1);
    let b: u32 = word_of_i32(iy).wrapping_mul(0x85eb_ca6b);
    let h: u32 = hash_u32(a ^ ((b << 16u32) | (b >> 16u32)) ^ seed);
    assert(h >> 8u32 < 0x100_0000) by (bit_vector);
    h >> 8u32
}

/// An odd multiplier loses nothing: its inverse brings the factor back.
proof fn lemma_product_injective(a: u32, b: u32, m: u32, inverse: u32, k: int)
    requires
        m * inverse == k * 0x1_0000_0000 + 1,
        wrapped_product(a, m) == wrapped_product(b, m),
    ensures
        a == b,
{
    lemma_product_undone(a, m, inverse, k);
    lemma_product_undone(b, m, inverse, k);
}

proof fn lemma_product_undone(a: u32, m: u32, inverse: u32, k: int)
    requires
        m * inverse == k * 0x1_0000_0000 + 1,
    ensures
        (wrapped_product(a, m) * inverse) % 0x1_0000_0000 == a,
{
    let n: int = 0x1_0000_0000;
    let p = a * m;
    let q = p / n;
    vstd::arithmetic::div_mod::lemma_fundamental_div_mod(p, n);
    vstd::arithmetic::div_mod::lemma_mod_bound(p, n);
    assert((p - n * q) * inverse == (a * k - q * inverse) * n + a) by (nonlinear_arith)
        requires
            p == a * m,
            m * inverse == k * n + 1,
    ;
    vstd::arithmetic::div_mod::lemma_fundamental_div_mod_converse(
        (p - n * q) * inverse,
        n,
        a * k - q * inverse,
        a as int,
    );
}

/// The hash never maps two inputs to one output.
pub proof fn law_hash_is_injective(x: u32, y: u32)
    requires
        hashed(x) == hashed(y),
    ensures
        x == y,
{
    let a1 = x ^ (x >> 16u32);
    let a2 = y ^ (y >> 16u32);
    let b1 = wrapped_product(a1, HASH_MUL_A);
    let b2 = wrapped_product(a2, HASH_MUL_A);
    let c1 = b1 ^ (b1 >> 15u32);
    let c2 = b2 ^ (b2 >> 15u32);
    let d1 = wrapped_product(c1, HASH_MUL_B);
    let d2 = wrapped_product(c2, HASH_MUL_B);
    assert(d1 == d2) by (bit_vector)
        requires
            d1 ^ (d1 >> 16u32) == d2 ^ (d2 >> 16u32),
    ;
    lemma_product_injective(c1, c2, HASH_MUL_B, 0x4302_1123, 0x22a9_814d);
    assert(b1 == b2) by (bit_vector)
        requires
            b1 ^ (b1 >> 15u32) == b2 ^ (b2 >> 15u32),
    ;
    lemma_product_injective(a1, a2, HASH_MUL_A, 0x1d69_e2a5, 0x0eb2_8dbf);
    assert(x == y) by (bit_vector)
        requires
            x ^ (x >> 16u32) == y ^ (y >> 16u32),
    ;
}

/// An evaluation reads each parameter under its own name; a missing one is at
/// its default.
pub proof fn law_grain_params_are_read_by_name(block: Seq<Named>)
    ensures
        lookup_float(block, "amount"@) matches Some(v) ==> grain_params(block).amount == v,
        lookup_float(block, "amount"@) is None ==> grain_params(block).amount == (Double { bits: 0 }),
        lookup_float(block, "size"@) matches Some(v) ==> grain_params(block).size == v,
        lookup_float(block, "size"@) is None ==> grain_params(block).size == (Double { bits: 0 }),
        lookup_float(block, "roughness"@) matches Some(v) ==> grain_params(block).roughness == v,
        lookup_float(block, "roughness"@) is None ==> grain_params(block).roughness == (Double { bits: 0 }),
{
}

/// Each number has its own place in the uniform buffer, and the rest is padding.
pub proof fn law_grain_numbers_have_their_own_places(weights: [Single; 3], amount: Single, inv_fine: Single, inv_coarse: Single, roughness: Single, origin_x: u32, origin_y: u32)
    ensures
        le_words(grain_layout(weights, amount, inv_fine, inv_coarse, roughness, origin_x, origin_y)).len() == 48,
        le_words(grain_layout(weights, amount, inv_fine, inv_coarse, roughness, origin_x, origin_y)).subrange(0, 4) == le32(weights[0].bits),
        le_words(grain_layout(weights, amount, inv_fine, inv_coarse, roughness, origin_x, origin_y)).subrange(4, 8) == le32(weights[1].bits),
        le_words(grain_layout(weights, amount, inv_fine, inv_coarse, roughness, origin_x, origin_y)).subrange(8, 12) == le32(weights[2].bits),
        le_words(grain_layout(weights, amount, inv_fine, inv_coarse, roughness, origin_x, origin_y)).subrange(12, 16) == le32(amount.bits),
        le_words(grain_layout(weights, amount, inv_fine, inv_coarse, roughness, origin_x, origin_y)).subrange(16, 20) == le32(inv_fine.bits),
        le_words(grain_layout(weights, amount, inv_fine, inv_coarse, roughness, origin_x, origin_y)).subrange(20, 24) == le32(inv_coarse.bits),
        le_words(grain_layout(weights, amount, inv_fine, inv_coarse, roughness, origin_x, origin_y)).subrange(24, 28) == le32(roughness.bits),
        le_words(grain_layout(weights, amount, inv_fine, inv_coarse, roughness, origin_x, origin_y)).subrange(28, 32) == le32(0),
        le_words(grain_layout(weights, amount, inv_fine, inv_coarse, roughness, origin_x, origin_y)).subrange(32, 36) == le32(origin_x),
        le_words(grain_layout(weights, amount, inv_fine, inv_coarse, roughness, origin_x, origin_y)).subrange(36, 40) == le32(origin_y),
        le_words(grain_layout(weights, amount, inv_fine, inv_coarse, roughness, origin_x, origin_y)).subrange(40, 44) == le32(0),
        le_words(grain_layout(weights, amount, inv_fine, inv_coarse, roughness, origin_x, origin_y)).subrange(44, 48) == le32(0),
{
    let words = grain_layout(weights, amount, inv_fine, inv_coarse, roughness, origin_x, origin_y);
    law_words_lie_end_to_end(words, 0);
    law_words_lie_end_to_end(words, 1);
    law_words_lie_end_to_end(words, 2);
    law_words_lie_end_to_end(words, 3);
    law_words_lie_end_to_end(words, 4);
    law_words_lie_end_to_end(words, 5);
    law_words_lie_end_to_end(words, 6);
    law_words_lie_end_to_end(words, 7);
    law_words_lie_end_to_end(words, 8);
    law_words_lie_end_to_end(words, 9);
    law_words_lie_end_to_end(words, 10);
    law_words_lie_end_to_end(words, 11);
}

/// Makes [`GrainNode`]s.
#[derive(Clone, Copy, Debug, PartialEq, Eq, Structural)]
pub struct GrainFactory {}

impl NodeFactory for GrainFactory {
    type Node = GrainNode;

    open spec fn fresh() -> GrainNode {
        GrainNode {  }
    }

    fn instantiate(&self) -> (r: GrainNode) {
        GrainNode::new()
    }
}

/// The lattice is scrambled by column, row and seed independently: the key is
/// the column's, the row's and the seed, mixed bit by bit.
pub proof fn law_lattice_keys_mix_column_row_and_seed(ix: i32, iy: i32, seed: u32, other: u32)
    ensures
        lattice_key(ix, iy, seed) == lattice_key(ix, 0, 0) ^ lattice_key(0, iy, 0) ^ seed,
        lattice_key(ix, iy, seed) ^ lattice_key(ix, iy, other) == seed ^ other,
{
    let a = wrapped_product(twos(ix), 0x9e37_79b1);
    let b = wrapped_product(twos(iy), 0x85eb_ca6b);
    assert(wrapped_product(twos(0), 0x9e37_79b1) == 0 && wrapped_product(twos(0), 0x85eb_ca6b) == 0);
    assert(a ^ ((b << 16u32) | (b >> 16u32)) ^ seed == (a ^ ((0u32 << 16u32) | (0u32 >> 16u32))
        ^ 0u32) ^ (0u32 ^ ((b << 16u32) | (b >> 16u32)) ^ 0u32) ^ seed) by (bit_vector);
    assert((a ^ ((b << 16u32) | (b >> 16u32)) ^ seed) ^ (a ^ ((b << 16u32) | (b >> 16u32)) ^ other)
        == seed ^ other) by (bit_vector);
}

/// Different columns of one row, and different rows of one column, never share a
/// key, nor do different seeds at one point.
pub proof fn law_lattice_points_have_their_own_keys(
    ix: i32,
    jx: i32,
    iy: i32,
    jy: i32,
    seed: u32,
    other: u32,
)
    ensures
        lattice_key(ix, iy, seed) == lattice_key(jx, iy, seed) ==> ix == jx,
        lattice_key(ix, iy, seed) == lattice_key(ix, jy, seed) ==> iy == jy,
        lattice_key(ix, iy, seed) == lattice_key(ix, iy, other) ==> seed == other,
{
    let a = wrapped_product(twos(ix), 0x9e37_79b1);
    let c = wrapped_product(twos(jx), 0x9e37_79b1);
    let b = wrapped_product(twos(iy), 0x85eb_ca6b);
    let d = wrapped_product(twos(jy), 0x85eb_ca6b);
    if lattice_key(ix, iy, seed) == lattice_key(jx, iy, seed) {
        assert(a == c) by (bit_vector)
            requires
                a ^ ((b << 16u32) | (b >> 16u32)) ^ seed == c ^ ((b << 16u32) | (b >> 16u32)) ^ seed,
        ;
        lemma_product_injective(twos(ix), twos(jx), 0x9e37_79b1, 0xe8b2f51, 0x8fd0e05);
    }
    if lattice_key(ix, iy, seed) == lattice_key(ix, jy, seed) {
        assert(b == d) by (bit_vector)
            requires
                a ^ ((b << 16u32) | (b >> 16u32)) ^ seed == a ^ ((d << 16u32) | (d >> 16u32)) ^ seed,
        ;
        lemma_product_injective(twos(iy), twos(jy), 0x85eb_ca6b, 0xa5cb9243, 0x56bb77f4);
    }
    if lattice_key(ix, iy, seed) == lattice_key(ix, iy, other) {
        assert(seed == other) by (bit_vector)
            requires
                a ^ ((b << 16u32) | (b >> 16u32)) ^ seed == a ^ ((b << 16u32) | (b >> 16u32)) ^ other,
        ;
    }
}

} // verus!
