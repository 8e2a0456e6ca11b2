//! `global.wb`: white balance as a 3-by-3 matrix on working RGB.

use vstd::prelude::*;

use crate::bytes::law_words_lie_end_to_end;
use crate::bytes::le32;
use crate::bytes::le_words;
use crate::bytes::pack_words;
use crate::edit::GlobalStages;
use crate::edit::WbPreset;
use crate::edit::WhiteBalance;
use crate::ieee::Double;
use crate::ieee::Single;
use crate::nodes::global::node::declare_float;
use crate::nodes::global::node::float_decl;
use crate::nodes::global::node::lemma_conforms_in_order;
use crate::nodes::global::node::lemma_find;
use crate::nodes::global::node::GlobalNode;
use crate::nodes::global::node::NodeFactory;
use crate::nodes::global::node::Prepared;
use crate::nodes::gpu::uniform_plan;
use crate::nodes::gpu::with_uniform;
use crate::nodes::gpu::GpuPlan;
use crate::params::block_of;
use crate::params::declared;
use crate::params::lookup_float;
use crate::params::lookup_float_or;
use crate::params::named;
use crate::params::Declared;
use crate::params::Field;
use crate::params::FieldDecl;
use crate::params::Named;
use crate::params::ParamBlock;
use crate::params::ParamValue;
use crate::params::Value;
use crate::text::digit;
use crate::types::NodeId;

verus! {

/// The `global.wb` develop node.
#[derive(Clone, Copy, Debug, PartialEq, Eq, Structural)]
pub struct WhiteBalanceNode {}

/// One row of the preset table: an illuminant's temperature and tint.
#[derive(Clone, Copy, Debug, PartialEq, Eq, Structural)]
pub struct PresetEntry {
    /// The illuminant.
    pub preset: WbPreset,
    /// Temperature in kelvin.
    pub kelvin: Double,
    /// Green-magenta tint.
    pub tint: Double,
}

/// The first row for a preset.
pub open spec fn preset_row(table: Seq<PresetEntry>, preset: WbPreset) -> Option<(Double, Double)>
    decreases table.len(),
{
    if table.len() == 0 {
        None
    } else if table[0].preset == preset {
        Some((table[0].kelvin, table[0].tint))
    } else {
        preset_row(table.skip(1), preset)
    }
}

/// The temperature and tint a white-balance choice stands for. As shot is
/// already in the pixels, and automatic has no solve yet: both stand for
/// nothing.
pub open spec fn temp_tint(wb: WhiteBalance, table: Seq<PresetEntry>) -> Option<(Double, Double)> {
    match wb {
        WhiteBalance::AsShot => None,
        WhiteBalance::Auto => None,
        WhiteBalance::Preset(preset) => preset_row(table, preset),
        WhiteBalance::Custom { temp_k, tint } => Some((temp_k.as_double(), tint.as_double())),
    }
}

/// The first row for a preset.
fn find_preset(table: &Vec<PresetEntry>, preset: WbPreset) -> (r: Option<(Double, Double)>)
    ensures
        r == preset_row(table@, preset),
{
    let mut i: usize = 0;
    assert(table@.skip(0) =~= table@);
    while i < table.len()
        invariant
            i <= table.len(),
            preset_row(table@, preset) == preset_row(table@.skip(i as int), preset),
        decreases table.len() - i,
    {
        assert(table@.skip(i as int)[0] == table@[i as int]);
        if table[i].preset == preset {
            return Some((table[i].kelvin, table[i].tint));
        }
        assert(table@.skip(i as int).skip(1) =~= table@.skip(i as int + 1));
        i = i + 1;
    }
    None
}

/// Resolves a white-balance choice to the temperature and tint to apply, or
/// `None` where there is nothing to apply.
pub fn resolve_temp_tint(wb: &WhiteBalance, table: &Vec<PresetEntry>) -> (r: Option<
    (Double, Double),
>)
    ensures
        r == temp_tint(*wb, table@),
{
    match wb {
        WhiteBalance::AsShot => None,
        WhiteBalance::Auto => None,
        WhiteBalance::Preset(preset) => find_preset(table, *preset),
        WhiteBalance::Custom { temp_k, tint } => Some((temp_k.widen(), tint.widen())),
    }
}

/// Identity and resolution never disagree: whatever the table, a choice is a
/// no-op exactly when it resolves to nothing. As shot and automatic always are,
/// a custom choice never is, and a preset is only where the table lacks it.
pub proof fn law_only_unresolved_choices_are_identity(p: GlobalStages, f: Prepared)
    ensures
        WhiteBalanceNode::identity(p, f) <==> temp_tint(p.white_balance, f.presets@) is None,
        p.white_balance is AsShot || p.white_balance is Auto ==> WhiteBalanceNode::identity(p, f),
        p.white_balance is Custom ==> !WhiteBalanceNode::identity(p, f),
        p.white_balance matches WhiteBalance::Preset(preset) ==> (WhiteBalanceNode::identity(p, f)
            <==> preset_row(f.presets@, preset) is None),
{
}

/// The name of the `k`-th matrix entry, row by row, such as `m12`.
pub open spec fn entry_name(k: int) -> Seq<char> {
    seq!['m', digit(k / 3), digit(k % 3)]
}

fn entry_field(k: usize) -> (r: &'static str)
    requires
        k < 9,
    ensures
        r@ == entry_name(k as int),
{
    let r: &'static str = match k {
        0 => "m00",
        1 => "m01",
        2 => "m02",
        3 => "m10",
        4 => "m11",
        5 => "m12",
        6 => "m20",
        7 => "m21",
        _ => "m22",
    };
    proof {
        reveal_strlit("m00");
        reveal_strlit("m01");
        reveal_strlit("m02");
        reveal_strlit("m10");
        reveal_strlit("m11");
        reveal_strlit("m12");
        reveal_strlit("m20");
        reveal_strlit("m21");
        reveal_strlit("m22");
        assert(r@ =~= entry_name(k as int));
    }
    r
}

/// The `k`-th entry of the unit matrix.
pub open spec fn unit_entry(k: int) -> Double {
    if k / 3 == k % 3 {
        Double { bits: 0x3ff0_0000_0000_0000 }
    } else {
        Double { bits: 0 }
    }
}

/// The matrix found in a block; what is missing is taken from the unit matrix.
pub open spec fn matrix_params(block: Seq<Named>) -> Seq<Double> {
    Seq::new(9, |k: int| lookup_float_or(block, entry_name(k), unit_entry(k)))
}

/// The words of the uniform buffer.
pub open spec fn white_balance_layout(m: [[Single; 3]; 3]) -> Seq<u32> {
    seq![m[0][0].bits, m[0][1].bits, m[0][2].bits, 0, m[1][0].bits, m[1][1].bits, m[1][2].bits, 0, m[2][0].bits, m[2][1].bits, m[2][2].bits, 0]
}

impl WhiteBalanceNode {
    /// A fresh node.
    pub fn new() -> (r: WhiteBalanceNode)
        ensures
            r == (WhiteBalanceNode {  }),
    {
        WhiteBalanceNode {  }
    }

    /// The matrix of an evaluation, read from its block, row by row.
    pub fn matrix_from_params(params: &ParamBlock) -> (r: Vec<Double>)
        ensures
            r@ == matrix_params(params@),
    {
        let mut r: Vec<Double> = Vec::new();
        let mut k: usize = 0;
        while k < 9
            invariant
                k <= 9,
                r@ == matrix_params(params@).take(k as int),
            decreases 9 - k,
        {
            let unit = if k / 3 == k % 3 {
                Double { bits: 0x3ff0_0000_0000_0000 }
            } else {
                Double { bits: 0 }
            };
            let ghost before = r@;
            r.push(params.get_f64_or(entry_field(k), unit));
            assert(r@ =~= before.push(matrix_params(params@)[k as int]));
            k = k + 1;
            assert(r@ =~= matrix_params(params@).take(k as int));
        }
        assert(r@ =~= matrix_params(params@));
        r
    }

    /// The uniform buffer: each row padded to four words.
    pub fn uniforms(m: [[Single; 3]; 3]) -> (r: Vec<u8>)
        ensures
            r@ == le_words(white_balance_layout(m)),
    {
        let words: Vec<u32> = vec![
            m[0][0].bits, m[0][1].bits, m[0][2].bits, 0,
            m[1][0].bits, m[1][1].bits, m[1][2].bits, 0,
            m[2][0].bits, m[2][1].bits, m[2][2].bits, 0
        ];
        assert(words@ =~= seq![
            m[0][0].bits,
            m[0][1].bits,
            m[0][2].bits,
            0,
            m[1][0].bits,
            m[1][1].bits,
            m[1][2].bits,
            0,
            m[2][0].bits,
            m[2][1].bits,
            m[2][2].bits,
            0,
        ]);
        pack_words(&words)
    }

    /// The node's GPU passes.
    pub fn gpu_plan(&self) -> (r: GpuPlan)
        ensures
            r@ == uniform_plan(),
            r@.sound(),
    {
        with_uniform()
    }
}

impl GlobalNode for WhiteBalanceNode {
    open spec fn name() -> Seq<char> {
        "global.wb"@
    }

    open spec fn identity(p: GlobalStages, f: Prepared) -> bool {
        temp_tint(p.white_balance, f.presets@) is None
    }

    open spec fn ready(p: GlobalStages, f: Prepared) -> bool {
        forall|k: int| 0 <= k < 9 ==> (#[trigger] f.wb_matrix@[k / 3]@[k % 3]).finite()
    }

    open spec fn block(p: GlobalStages, f: Prepared) -> Seq<Named> {
        Seq::new(
            9,
            |k: int|
                Named { name: entry_name(k), value: Value::Float(f.wb_matrix@[k / 3]@[k % 3]) },
        )
    }

    open spec fn schema() -> Seq<Declared> {
        Seq::new(9, |k: int| float_decl(entry_name(k)))
    }

    open spec fn apron() -> int {
        0
    }

    fn id() -> (r: NodeId) {
        NodeId("global.wb")
    }

    fn is_identity(p: &GlobalStages, f: &Prepared) -> (r: bool) {
        resolve_temp_tint(&p.white_balance, &f.presets).is_none()
    }

    fn param_block(p: &GlobalStages, f: &Prepared) -> (r: ParamBlock) {
        let mut fields: Vec<Field> = Vec::new();
        let mut k: usize = 0;
        while k < 9
            invariant
                k <= 9,
                Self::ready(*p, *f),
                named(fields@) == Self::block(*p, *f).take(k as int),
                forall|i: int| 0 <= i < fields.len() ==> (#[trigger] fields[i]).value@.admissible(),
            decreases 9 - k,
        {
            let v: Double = f.wb_matrix[k / 3][k % 3];
            let ghost before = named(fields@);
            assert(v == f.wb_matrix@[k as int / 3]@[k as int % 3]);
            fields.push(Field { name: entry_field(k), value: ParamValue::Float(v) });
            assert(named(fields@) =~= before.push(Self::block(*p, *f)[k as int]));
            k = k + 1;
            assert(named(fields@) =~= Self::block(*p, *f).take(k as int));
        }
        assert(named(fields@) =~= Self::block(*p, *f));
        block_of(fields)
    }

    fn params_schema() -> (r: Vec<FieldDecl>) {
        let mut r: Vec<FieldDecl> = Vec::new();
        let mut k: usize = 0;
        while k < 9
            invariant
                k <= 9,
                declared(r@) == Self::schema().take(k as int),
            decreases 9 - k,
        {
            let ghost before = declared(r@);
            r.push(declare_float(entry_field(k)));
            assert(declared(r@) =~= before.push(Self::schema()[k as int]));
            k = k + 1;
            assert(declared(r@) =~= Self::schema().take(k as int));
        }
        assert(declared(r@) =~= Self::schema());
        r
    }

    fn margin() -> (r: u32) {
        0
    }

    proof fn law_takes_only_declared_params(p: GlobalStages, f: Prepared) {
        lemma_conforms_in_order(Self::block(p, f), Self::schema());
    }
}

/// Reading a block gives back the matrix it was made from.
pub proof fn law_matrix_params_round_trip(p: GlobalStages, f: Prepared, k: int)
    requires
        0 <= k < 9,
    ensures
        matrix_params(WhiteBalanceNode::block(p, f))[k] == f.wb_matrix@[k / 3]@[k % 3],
{
    let block = WhiteBalanceNode::block(p, f);
    assert forall|i: int, j: int| 0 <= i < j < block.len() implies (#[trigger] block[i]).name != (
    #[trigger] block[j]).name by {
        if i / 3 != j / 3 {
            assert(block[i].name[1] != block[j].name[1]);
        } else {
            assert(block[i].name[2] != block[j].name[2]);
        }
    }
    lemma_find(block, k);
}

/// The matrix entry at row `row` and column `column` stands in the block under
/// `m` and the two digits, and is read from there; a missing one is that of the
/// unit matrix.
pub proof fn law_each_matrix_entry_has_its_own_name(
    p: GlobalStages,
    f: Prepared,
    block: Seq<Named>,
    row: int,
    column: int,
    name: Seq<char>,
)
    requires
        0 <= row < 3,
        0 <= column < 3,
        name.len() == 3,
        name[0] == 'm',
        name[1] as int == '0' as int + row,
        name[2] as int == '0' as int + column,
    ensures
        lookup_float(WhiteBalanceNode::block(p, f), name) == Some(f.wb_matrix@[row]@[column]),
        matrix_params(block).len() == 9,
        lookup_float(block, name) matches Some(v) ==> matrix_params(block)[3 * row + column] == v,
        lookup_float(block, name) is None && row == column ==> matrix_params(block)[3 * row
            + column] == (Double { bits: 0x3ff0_0000_0000_0000 }),
        lookup_float(block, name) is None && row != column ==> matrix_params(block)[3 * row
            + column] == (Double { bits: 0 }),
{
    let k = 3 * row + column;
    assert(k / 3 == row && k % 3 == column);
    assert(name =~= entry_name(k));
    let own = WhiteBalanceNode::block(p, f);
    assert forall|i: int, j: int| 0 <= i < j < own.len() implies (#[trigger] own[i]).name != (
    #[trigger] own[j]).name by {
        if i / 3 != j / 3 {
            assert(own[i].name[1] != own[j].name[1]);
        } else {
            assert(own[i].name[2] != own[j].name[2]);
        }
    }
    lemma_find(own, k);
}

/// A preset resolves to its own row of the table, the first one where there are
/// several; a custom choice to its own numbers; anything else to nothing.
pub proof fn law_a_preset_resolves_to_its_own_row(
    preset: WbPreset,
    table: Seq<PresetEntry>,
    i: int,
)
    requires
        0 <= i < table.len(),
        table[i].preset == preset,
        forall|k: int| 0 <= k < i ==> (#[trigger] table[k]).preset != preset,
    ensures
        temp_tint(WhiteBalance::Preset(preset), table) == Some((table[i].kelvin, table[i].tint)),
    decreases i,
{
    if i > 0 {
        assert(table[0].preset != preset);
        let rest = table.skip(1);
        assert forall|k: int| 0 <= k < i - 1 implies (#[trigger] rest[k]).preset != preset by {
            assert(table[k + 1].preset != preset);
        }
        law_a_preset_resolves_to_its_own_row(preset, rest, i - 1);
    }
}

/// A preset that no row is for resolves to nothing, as do as shot and automatic;
/// a custom choice resolves to its own temperature and tint.
pub proof fn law_other_choices_resolve_without_the_table(
    preset: WbPreset,
    temp_k: Single,
    tint: Single,
    table: Seq<PresetEntry>,
)
    ensures
        (forall|k: int| 0 <= k < table.len() ==> (#[trigger] table[k]).preset != preset)
            ==> temp_tint(WhiteBalance::Preset(preset), table) is None,
        temp_tint(WhiteBalance::AsShot, table) is None,
        temp_tint(WhiteBalance::Auto, table) is None,
        temp_tint(WhiteBalance::Custom { temp_k, tint }, table) == Some(
            (temp_k.as_double(), tint.as_double()),
        ),
    decreases table.len(),
{
    if table.len() > 0 {
        let rest = table.skip(1);
        law_other_choices_resolve_without_the_table(preset, temp_k, tint, rest);
        if forall|k: int| 0 <= k < table.len() ==> (#[trigger] table[k]).preset != preset {
            assert(table[0].preset != preset);
            assert forall|k: int| 0 <= k < rest.len() implies (#[trigger] rest[k]).preset
                != preset by {
                assert(table[k + 1].preset != preset);
            }
        }
    }
}

/// Each number has its own place in the uniform buffer, and the rest is padding.
pub proof fn law_white_balance_numbers_have_their_own_places(m: [[Single; 3]; 3])
    ensures
        le_words(white_balance_layout(m)).len() == 48,
        le_words(white_balance_layout(m)).subrange(0, 4) == le32(m[0][0].bits),
        le_words(white_balance_layout(m)).subrange(4, 8) == le32(m[0][1].bits),
        le_words(white_balance_layout(m)).subrange(8, 12) == le32(m[0][2].bits),
        le_words(white_balance_layout(m)).subrange(12, 16) == le32(0),
        le_words(white_balance_layout(m)).subrange(16, 20) == le32(m[1][0].bits),
        le_words(white_balance_layout(m)).subrange(20, 24) == le32(m[1][1].bits),
        le_words(white_balance_layout(m)).subrange(24, 28) == le32(m[1][2].bits),
        le_words(white_balance_layout(m)).subrange(28, 32) == le32(0),
        le_words(white_balance_layout(m)).subrange(32, 36) == le32(m[2][0].bits),
        le_words(white_balance_layout(m)).subrange(36, 40) == le32(m[2][1].bits),
        le_words(white_balance_layout(m)).subrange(40, 44) == le32(m[2][2].bits),
        le_words(white_balance_layout(m)).subrange(44, 48) == le32(0),
{
    let words = white_balance_layout(m);
    law_words_lie_end_to_end(words, 0);
    law_words_lie_end_to_end(words, 1);
    law_words_lie_end_to_end(words, 2);
    law_words_lie_end_to_end(words, 3);
    law_words_lie_end_to_end(words, 4);
    law_words_lie_end_to_end(words, 5);
    law_words_lie_end_to_end(words, 6);
    law_words_lie_end_to_end(words, 7);
    law_words_lie_end_to_end(words, 8);
    law_words_lie_end_to_end(words, 9);
    law_words_lie_end_to_end(words, 10);
    law_words_lie_end_to_end(words, 11);
}

/// Makes [`WhiteBalanceNode`]s.
#[derive(Clone, Copy, Debug, PartialEq, Eq, Structural)]
pub struct WhiteBalanceFactory {}

impl NodeFactory for WhiteBalanceFactory {
    type Node = WhiteBalanceNode;

    open spec fn fresh() -> WhiteBalanceNode {
        WhiteBalanceNode {  }
    }

    fn instantiate(&self) -> (r: WhiteBalanceNode) {
        WhiteBalanceNode::new()
    }
}

} // verus!
