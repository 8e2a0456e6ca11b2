//! `global.color_grade`: shadow, midtone, highlight and global colour wheels.

use vstd::prelude::*;

use crate::bytes::le_words;
use crate::bytes::pack_words;
use crate::edit::ColorGrade;
use crate::edit::GlobalStages;
use crate::edit::GradeWheel;
use crate::edit::Treatment;
use crate::ieee::Double;
use crate::ieee::Single;
use crate::nodes::global::hsl::channel_name;
use crate::nodes::global::node::append_words;
use crate::nodes::global::node::declare_float;
use crate::nodes::global::node::float_decl;
use crate::nodes::global::node::lemma_conforms_in_order;
use crate::nodes::global::node::lemma_find;
use crate::nodes::global::node::GlobalNode;
use crate::nodes::global::node::NodeFactory;
use crate::nodes::global::node::Prepared;
use crate::nodes::gpu::storage_plan;
use crate::nodes::gpu::with_storage;
use crate::nodes::gpu::GpuPlan;
use crate::params::block_of;
use crate::params::declared;
use crate::params::float_field;
use crate::params::float_of;
use crate::params::lookup_float;
use crate::params::lookup_float_or;
use crate::params::named;
use crate::params::Declared;
use crate::params::Field;
use crate::params::FieldDecl;
use crate::params::Named;
use crate::params::ParamBlock;
use crate::types::NodeId;

verus! {

/// The `global.color_grade` develop node.
#[derive(Clone, Copy, Debug, PartialEq, Eq, Structural)]
pub struct ColorGradeNode {}

/// What the `i`-th wheel's names begin with.
pub open spec fn wheel_prefix(i: int) -> Seq<char> {
    if i == 0 {
        seq!['s', 'h', '_']
    } else if i == 1 {
        seq!['m', 'i', 'd', '_']
    } else if i == 2 {
        seq!['h', 'i', '_']
    } else {
        seq!['g', 'l', '_']
    }
}

/// The name of channel `c` of wheel `i`, such as `mid_sat`.
pub open spec fn wheel_name(i: int, c: int) -> Seq<char> {
    wheel_prefix(i) + channel_name(c)
}

/// The name of channel `c` of wheel `i`.
pub fn wheel_field(i: usize, c: usize) -> (r: &'static str)
    requires
        i < 4,
        c < 3,
    ensures
        r@ == wheel_name(i as int, c as int),
{
    let r: &'static str = match (i, c) {
        (0, 0) => "sh_hue",
        (0, 1) => "sh_sat",
        (0, 2) => "sh_lum",
        (1, 0) => "mid_hue",
        (1, 1) => "mid_sat",
        (1, 2) => "mid_lum",
        (2, 0) => "hi_hue",
        (2, 1) => "hi_sat",
        (2, 2) => "hi_lum",
        (3, 0) => "gl_hue",
        (3, 1) => "gl_sat",
        _ => "gl_lum",
    };
    proof {
        reveal_strlit("sh_hue");
        reveal_strlit("sh_sat");
        reveal_strlit("sh_lum");
        reveal_strlit("mid_hue");
        reveal_strlit("mid_sat");
        reveal_strlit("mid_lum");
        reveal_strlit("hi_hue");
        reveal_strlit("hi_sat");
        reveal_strlit("hi_lum");
        reveal_strlit("gl_hue");
        reveal_strlit("gl_sat");
        reveal_strlit("gl_lum");
        assert(r@ =~= wheel_name(i as int, c as int));
    }
    r
}

/// The `i`-th wheel: shadows, midtones, highlights, global.
pub open spec fn wheel_of(g: ColorGrade, i: int) -> GradeWheel {
    if i == 0 {
        g.shadows
    } else if i == 1 {
        g.midtones
    } else if i == 2 {
        g.highlights
    } else {
        g.global
    }
}

/// Channel `c` of a wheel.
pub open spec fn wheel_channel(w: GradeWheel, c: int) -> Single {
    if c == 0 {
        w.hue
    } else if c == 1 {
        w.sat
    } else {
        w.lum
    }
}

/// The `k`-th number of a grade: the wheels' channels, then blending and
/// balance.
pub open spec fn grade_number(g: ColorGrade, k: int) -> Single {
    if k < 12 {
        wheel_channel(wheel_of(g, k / 3), k % 3)
    } else if k == 12 {
        g.blend
    } else {
        g.balance
    }
}

/// The name of the `k`-th number of a grade.
pub open spec fn grade_name(k: int) -> Seq<char> {
    if k < 12 {
        wheel_name(k / 3, k % 3)
    } else if k == 12 {
        "blending"@
    } else {
        "balance"@
    }
}

fn grade_field(k: usize) -> (r: &'static str)
    requires
        k < 14,
    ensures
        r@ == grade_name(k as int),
{
    if k < 12 {
        wheel_field(k / 3, k % 3)
    } else if k == 12 {
        "blending"
    } else {
        "balance"
    }
}

fn grade_value(g: &ColorGrade, k: usize) -> (r: Single)
    requires
        k < 14,
    ensures
        r == grade_number(*g, k as int),
{
    if k == 12 {
        return g.blend;
    }
    if k == 13 {
        return g.balance;
    }
    let i: usize = k / 3;
    let w: GradeWheel = if i == 0 {
        g.shadows
    } else if i == 1 {
        g.midtones
    } else if i == 2 {
        g.highlights
    } else {
        g.global
    };
    let c: usize = k % 3;
    if c == 0 {
        w.hue
    } else if c == 1 {
        w.sat
    } else {
        w.lum
    }
}

/// The grade's numbers found in a block; what is missing is zero.
pub open spec fn grade_params(block: Seq<Named>) -> Seq<Double> {
    Seq::new(14, |k: int| lookup_float_or(block, grade_name(k), Double { bits: 0 }))
}

impl ColorGradeNode {
    /// A fresh node.
    pub fn new() -> (r: ColorGradeNode)
        ensures
            r == (ColorGradeNode {  }),
    {
        ColorGradeNode {  }
    }

    /// The numbers of an evaluation, read from its block: hue, saturation and
    /// luminance of each wheel in turn, then blending and balance.
    pub fn params_from(params: &ParamBlock) -> (r: Vec<Double>)
        ensures
            r@ == grade_params(params@),
    {
        let mut r: Vec<Double> = Vec::new();
        let mut k: usize = 0;
        while k < 14
            invariant
                k <= 14,
                r@ == grade_params(params@).take(k as int),
            decreases 14 - k,
        {
            let ghost before = r@;
            r.push(params.get_f64_or(grade_field(k), Double { bits: 0 }));
            assert(r@ =~= before.push(grade_params(params@)[k as int]));
            k = k + 1;
            assert(r@ =~= grade_params(params@).take(k as int));
        }
        assert(r@ =~= grade_params(params@));
        r
    }

    /// The storage buffer: the colour-space matrices, luma weights, blending and
    /// balance, and the wheels.
    pub fn data(
        matrices: &Vec<u32>,
        weights: [Single; 3],
        blending: Single,
        balance: Single,
        wheels: &Vec<u32>,
    ) -> (r: Vec<u8>)
        ensures
            r@ == le_words(
                matrices@ + seq![
                    weights[0].bits,
                    weights[1].bits,
                    weights[2].bits,
                    blending.bits,
                    balance.bits,
                ] + wheels@,
            ),
    {
        let mut words: Vec<u32> = Vec::new();
        append_words(&mut words, matrices);
        words.push(weights[0].bits);
        words.push(weights[1].bits);
        words.push(weights[2].bits);
        words.push(blending.bits);
        words.push(balance.bits);
        assert(words@ =~= matrices@ + seq![
            weights[0].bits,
            weights[1].bits,
            weights[2].bits,
            blending.bits,
            balance.bits,
        ]);
        append_words(&mut words, wheels);
        pack_words(&words)
    }

    /// The node's GPU passes.
    pub fn gpu_plan(&self) -> (r: GpuPlan)
        ensures
            r@ == storage_plan(),
            r@.sound(),
    {
        with_storage()
    }
}

/// A wheel without saturation and luminance adds nothing, whatever its hue.
pub open spec fn idle_wheel(w: GradeWheel) -> bool {
    w.sat.zero() && w.lum.zero()
}

fn is_idle(w: &GradeWheel) -> (r: bool)
    ensures
        r == idle_wheel(*w),
{
    w.sat.is_zero() && w.lum.is_zero()
}

impl GlobalNode for ColorGradeNode {
    open spec fn name() -> Seq<char> {
        "global.color_grade"@
    }

    /// A monochrome recipe has no colour left to grade.
    open spec fn identity(p: GlobalStages, f: Prepared) -> bool {
        p.treatment is BlackAndWhite || (idle_wheel(p.color_grade.shadows) && idle_wheel(
            p.color_grade.midtones,
        ) && idle_wheel(p.color_grade.highlights) && idle_wheel(p.color_grade.global))
    }

    open spec fn ready(p: GlobalStages, f: Prepared) -> bool {
        forall|k: int| 0 <= k < 14 ==> (#[trigger] grade_number(p.color_grade, k)).finite()
    }

    open spec fn block(p: GlobalStages, f: Prepared) -> Seq<Named> {
        Seq::new(14, |k: int| float_of(grade_name(k), grade_number(p.color_grade, k)))
    }

    open spec fn schema() -> Seq<Declared> {
        Seq::new(14, |k: int| float_decl(grade_name(k)))
    }

    open spec fn apron() -> int {
        0
    }

    fn id() -> (r: NodeId) {
        NodeId("global.color_grade")
    }

    fn is_identity(p: &GlobalStages, f: &Prepared) -> (r: bool) {
        p.treatment == Treatment::BlackAndWhite || (is_idle(&p.color_grade.shadows) && is_idle(
            &p.color_grade.midtones,
        ) && is_idle(&p.color_grade.highlights) && is_idle(&p.color_grade.global))
    }

    fn param_block(p: &GlobalStages, f: &Prepared) -> (r: ParamBlock) {
        let mut fields: Vec<Field> = Vec::new();
        let mut k: usize = 0;
        while k < 14
            invariant
                k <= 14,
                Self::ready(*p, *f),
                named(fields@) == Self::block(*p, *f).take(k as int),
                forall|i: int| 0 <= i < fields.len() ==> (#[trigger] fields[i]).value@.admissible(),
            decreases 14 - k,
        {
            let ghost before = named(fields@);
            fields.push(float_field(grade_field(k), grade_value(&p.color_grade, k)));
            assert(named(fields@) =~= before.push(Self::block(*p, *f)[k as int]));
            k = k + 1;
            assert(named(fields@) =~= Self::block(*p, *f).take(k as int));
        }
        assert(named(fields@) =~= Self::block(*p, *f));
        block_of(fields)
    }

    fn params_schema() -> (r: Vec<FieldDecl>) {
        let mut r: Vec<FieldDecl> = Vec::new();
        let mut k: usize = 0;
        while k < 14
            invariant
                k <= 14,
                declared(r@) == Self::schema().take(k as int),
            decreases 14 - k,
        {
            let ghost before = declared(r@);
            r.push(declare_float(grade_field(k)));
            assert(declared(r@) =~= before.push(Self::schema()[k as int]));
            k = k + 1;
            assert(declared(r@) =~= Self::schema().take(k as int));
        }
        assert(declared(r@) =~= Self::schema());
        r
    }

    fn margin() -> (r: u32) {
        0
    }

    proof fn law_takes_only_declared_params(p: GlobalStages, f: Prepared) {
        lemma_conforms_in_order(Self::block(p, f), Self::schema());
    }
}

proof fn lemma_grade_names_apart(i: int, j: int)
    requires
        0 <= i < j < 14,
    ensures
        grade_name(i) != grade_name(j),
{
    reveal_strlit("blending");
    reveal_strlit("balance");
    let a = grade_name(i);
    let b = grade_name(j);
    if j < 12 {
        if i / 3 != j / 3 {
            assert(a[0] != b[0]);
        } else {
            let n = wheel_prefix(i / 3).len() as int;
            assert(a[n] == channel_name(i % 3)[0]);
            assert(b[n] == channel_name(j % 3)[0]);
            assert(a[n] != b[n]);
        }
    } else if i < 12 {
        assert(a[0] != 'b');
        assert(b[0] == 'b');
    } else {
        assert(a.len() != b.len());
    }
}

/// Reading a block gives back the recipe's grade.
pub proof fn law_grade_params_round_trip(p: GlobalStages, f: Prepared, k: int)
    requires
        0 <= k < 14,
    ensures
        grade_params(ColorGradeNode::block(p, f))[k] == grade_number(
            p.color_grade,
            k,
        ).as_double(),
{
    let block = ColorGradeNode::block(p, f);
    assert forall|i: int, j: int| 0 <= i < j < block.len() implies (#[trigger] block[i]).name != (
    #[trigger] block[j]).name by {
        lemma_grade_names_apart(i, j);
    }
    lemma_find(block, k);
}

/// Each wheel's channels stand in the block under the wheel's own names, and
/// blending and balance under theirs.
pub proof fn law_each_wheel_has_its_own_names(p: GlobalStages, f: Prepared)
    ensures
        lookup_float(ColorGradeNode::block(p, f), "sh_hue"@) == Some(p.color_grade.shadows.hue.as_double()),
        lookup_float(ColorGradeNode::block(p, f), "sh_sat"@) == Some(p.color_grade.shadows.sat.as_double()),
        lookup_float(ColorGradeNode::block(p, f), "sh_lum"@) == Some(p.color_grade.shadows.lum.as_double()),
        lookup_float(ColorGradeNode::block(p, f), "mid_hue"@) == Some(p.color_grade.midtones.hue.as_double()),
        lookup_float(ColorGradeNode::block(p, f), "mid_sat"@) == Some(p.color_grade.midtones.sat.as_double()),
        lookup_float(ColorGradeNode::block(p, f), "mid_lum"@) == Some(p.color_grade.midtones.lum.as_double()),
        lookup_float(ColorGradeNode::block(p, f), "hi_hue"@) == Some(p.color_grade.highlights.hue.as_double()),
        lookup_float(ColorGradeNode::block(p, f), "hi_sat"@) == Some(p.color_grade.highlights.sat.as_double()),
        lookup_float(ColorGradeNode::block(p, f), "hi_lum"@) == Some(p.color_grade.highlights.lum.as_double()),
        lookup_float(ColorGradeNode::block(p, f), "gl_hue"@) == Some(p.color_grade.global.hue.as_double()),
        lookup_float(ColorGradeNode::block(p, f), "gl_sat"@) == Some(p.color_grade.global.sat.as_double()),
        lookup_float(ColorGradeNode::block(p, f), "gl_lum"@) == Some(p.color_grade.global.lum.as_double()),
        lookup_float(ColorGradeNode::block(p, f), "blending"@) == Some(p.color_grade.blend.as_double()),
        lookup_float(ColorGradeNode::block(p, f), "balance"@) == Some(p.color_grade.balance.as_double()),
{
    lemma_grade_names();
    lemma_grade_field(p, f, 0);
    lemma_grade_field(p, f, 1);
    lemma_grade_field(p, f, 2);
    lemma_grade_field(p, f, 3);
    lemma_grade_field(p, f, 4);
    lemma_grade_field(p, f, 5);
    lemma_grade_field(p, f, 6);
    lemma_grade_field(p, f, 7);
    lemma_grade_field(p, f, 8);
    lemma_grade_field(p, f, 9);
    lemma_grade_field(p, f, 10);
    lemma_grade_field(p, f, 11);
    lemma_grade_field(p, f, 12);
    lemma_grade_field(p, f, 13);
}

/// The names of the numbers of a grade, written out.
proof fn lemma_grade_names()
    ensures
        grade_name(0) == "sh_hue"@,
        grade_name(1) == "sh_sat"@,
        grade_name(2) == "sh_lum"@,
        grade_name(3) == "mid_hue"@,
        grade_name(4) == "mid_sat"@,
        grade_name(5) == "mid_lum"@,
        grade_name(6) == "hi_hue"@,
        grade_name(7) == "hi_sat"@,
        grade_name(8) == "hi_lum"@,
        grade_name(9) == "gl_hue"@,
        grade_name(10) == "gl_sat"@,
        grade_name(11) == "gl_lum"@,
        grade_name(12) == "blending"@,
        grade_name(13) == "balance"@,
{
    reveal_strlit("sh_hue");
    assert(grade_name(0) =~= "sh_hue"@);
    reveal_strlit("sh_sat");
    assert(grade_name(1) =~= "sh_sat"@);
    reveal_strlit("sh_lum");
    assert(grade_name(2) =~= "sh_lum"@);
    reveal_strlit("mid_hue");
    assert(grade_name(3) =~= "mid_hue"@);
    reveal_strlit("mid_sat");
    assert(grade_name(4) =~= "mid_sat"@);
    reveal_strlit("mid_lum");
    assert(grade_name(5) =~= "mid_lum"@);
    reveal_strlit("hi_hue");
    assert(grade_name(6) =~= "hi_hue"@);
    reveal_strlit("hi_sat");
    assert(grade_name(7) =~= "hi_sat"@);
    reveal_strlit("hi_lum");
    assert(grade_name(8) =~= "hi_lum"@);
    reveal_strlit("gl_hue");
    assert(grade_name(9) =~= "gl_hue"@);
    reveal_strlit("gl_sat");
    assert(grade_name(10) =~= "gl_sat"@);
    reveal_strlit("gl_lum");
    assert(grade_name(11) =~= "gl_lum"@);
    reveal_strlit("blending");
    assert(grade_name(12) =~= "blending"@);
    reveal_strlit("balance");
    assert(grade_name(13) =~= "balance"@);
}

/// An evaluation takes each number from under its own name: hue, saturation and
/// luminance of the shadow, midtone, highlight and global wheel, then blending
/// and balance. A missing one is zero.
pub proof fn law_wheels_are_read_by_name(block: Seq<Named>)
    ensures
        lookup_float(block, "sh_hue"@) matches Some(v) ==> grade_params(block)[0] == v,
        lookup_float(block, "sh_hue"@) is None ==> grade_params(block)[0] == (Double { bits: 0 }),
        lookup_float(block, "sh_sat"@) matches Some(v) ==> grade_params(block)[1] == v,
        lookup_float(block, "sh_sat"@) is None ==> grade_params(block)[1] == (Double { bits: 0 }),
        lookup_float(block, "sh_lum"@) matches Some(v) ==> grade_params(block)[2] == v,
        lookup_float(block, "sh_lum"@) is None ==> grade_params(block)[2] == (Double { bits: 0 }),
        lookup_float(block, "mid_hue"@) matches Some(v) ==> grade_params(block)[3] == v,
        lookup_float(block, "mid_hue"@) is None ==> grade_params(block)[3] == (Double { bits: 0 }),
        lookup_float(block, "mid_sat"@) matches Some(v) ==> grade_params(block)[4] == v,
        lookup_float(block, "mid_sat"@) is None ==> grade_params(block)[4] == (Double { bits: 0 }),
        lookup_float(block, "mid_lum"@) matches Some(v) ==> grade_params(block)[5] == v,
        lookup_float(block, "mid_lum"@) is None ==> grade_params(block)[5] == (Double { bits: 0 }),
        lookup_float(block, "hi_hue"@) matches Some(v) ==> grade_params(block)[6] == v,
        lookup_float(block, "hi_hue"@) is None ==> grade_params(block)[6] == (Double { bits: 0 }),
        lookup_float(block, "hi_sat"@) matches Some(v) ==> grade_params(block)[7] == v,
        lookup_float(block, "hi_sat"@) is None ==> grade_params(block)[7] == (Double { bits: 0 }),
        lookup_float(block, "hi_lum"@) matches Some(v) ==> grade_params(block)[8] == v,
        lookup_float(block, "hi_lum"@) is None ==> grade_params(block)[8] == (Double { bits: 0 }),
        lookup_float(block, "gl_hue"@) matches Some(v) ==> grade_params(block)[9] == v,
        lookup_float(block, "gl_hue"@) is None ==> grade_params(block)[9] == (Double { bits: 0 }),
        lookup_float(block, "gl_sat"@) matches Some(v) ==> grade_params(block)[10] == v,
        lookup_float(block, "gl_sat"@) is None ==> grade_params(block)[10] == (Double { bits: 0 }),
        lookup_float(block, "gl_lum"@) matches Some(v) ==> grade_params(block)[11] == v,
        lookup_float(block, "gl_lum"@) is None ==> grade_params(block)[11] == (Double { bits: 0 }),
        lookup_float(block, "blending"@) matches Some(v) ==> grade_params(block)[12] == v,
        lookup_float(block, "blending"@) is None ==> grade_params(block)[12] == (Double { bits: 0 }),
        lookup_float(block, "balance"@) matches Some(v) ==> grade_params(block)[13] == v,
        lookup_float(block, "balance"@) is None ==> grade_params(block)[13] == (Double { bits: 0 }),
        grade_params(block).len() == 14,
{
    lemma_grade_names();
}

proof fn lemma_grade_field(p: GlobalStages, f: Prepared, k: int)
    requires
        0 <= k < 14,
    ensures
        lookup_float(ColorGradeNode::block(p, f), grade_name(k)) == Some(
            grade_number(p.color_grade, k).as_double(),
        ),
{
    let block = ColorGradeNode::block(p, f);
    assert forall|i: int, j: int| 0 <= i < j < block.len() implies (#[trigger] block[i]).name != (
    #[trigger] block[j]).name by {
        lemma_grade_names_apart(i, j);
    }
    lemma_find(block, k);
}

/// Makes [`ColorGradeNode`]s.
#[derive(Clone, Copy, Debug, PartialEq, Eq, Structural)]
pub struct ColorGradeFactory {}

impl NodeFactory for ColorGradeFactory {
    type Node = ColorGradeNode;

    open spec fn fresh() -> ColorGradeNode {
        ColorGradeNode {  }
    }

    fn instantiate(&self) -> (r: ColorGradeNode) {
        ColorGradeNode::new()
    }
}

} // verus!
