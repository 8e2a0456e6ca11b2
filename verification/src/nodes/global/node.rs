//! What every develop node shows: when it is a no-op, which parameters it
//! takes from a recipe, and how far around a pixel it reads.

use vstd::prelude::*;

use crate::edit::GlobalStages;
use crate::ieee::Double;
use crate::ieee::Single;
use crate::node::blake3_digest;
use crate::node::develop_descriptor;
use crate::node::develop_node;
use crate::node::kernel_salt;
use crate::node::KernelSalt;
use crate::node::NodeDescriptor;
use crate::nodes::global::white_balance::PresetEntry;
use crate::params::conforms;
use crate::params::declared;
use crate::params::lemma_lookup_at;
use crate::params::lookup;
use crate::params::Declared;
use crate::params::FieldDecl;
use crate::params::Named;
use crate::params::ParamBlock;
use crate::params::ParamKind;
use crate::params::Value;
use crate::types::NodeId;
use crate::types::RenderScale;
use crate::types::Roi;

verus! {

/// One curve point, each coordinate in decimal.
#[derive(Clone, Debug, PartialEq, Eq)]
pub struct PointText {
    /// Input.
    pub x: String,
    /// Output.
    pub y: String,
}

/// The control points of a recipe's four tone curves, in decimal.
#[derive(Clone, Debug, PartialEq, Eq)]
pub struct CurveText {
    /// Composite curve.
    pub rgb: Vec<PointText>,
    /// Red curve.
    pub r: Vec<PointText>,
    /// Green curve.
    pub g: Vec<PointText>,
    /// Blue curve.
    pub b: Vec<PointText>,
}

/// What compiling a recipe needs besides the recipe: the preset table, and what
/// only floating-point code can derive.
#[derive(Clone, Debug, PartialEq, Eq)]
pub struct Prepared {
    /// The white-balance presets.
    pub presets: Vec<PresetEntry>,
    /// The white-balance matrix, row by row.
    pub wb_matrix: [[Double; 3]; 3],
    /// The tone curves' control points.
    pub curves: CurveText,
    /// The creative look's strength as a fraction, `0` to `2`.
    pub look_fraction: Double,
    /// The same, rounded to single precision: a resolved look takes this one.
    pub look_fraction_single: Single,
}

/// The convention every develop node follows.
pub trait GlobalNode: Sized {
    /// The node's registry identity.
    spec fn name() -> Seq<char>;

    /// Whether the recipe leaves the picture alone as far as this node goes.
    spec fn identity(p: GlobalStages, f: Prepared) -> bool;

    /// Whether every number the node takes is finite.
    spec fn ready(p: GlobalStages, f: Prepared) -> bool;

    /// The parameters the node takes.
    spec fn block(p: GlobalStages, f: Prepared) -> Seq<Named>;

    /// The parameters the node declares.
    spec fn schema() -> Seq<Declared>;

    /// How many pixels around an output pixel the node reads.
    spec fn apron() -> int;

    /// The node's registry identity.
    fn id() -> (r: NodeId)
        ensures
            r@ == Self::name(),
    ;

    /// Whether the recipe leaves the picture alone as far as this node goes, so
    /// that the node need not be in the graph at all.
    fn is_identity(p: &GlobalStages, f: &Prepared) -> (r: bool)
        ensures
            r == Self::identity(*p, *f),
    ;

    /// The parameters the node takes from a recipe.
    fn param_block(p: &GlobalStages, f: &Prepared) -> (r: ParamBlock)
        requires
            Self::ready(*p, *f),
        ensures
            r@ == Self::block(*p, *f),
    ;

    /// The parameters the node declares.
    fn params_schema() -> (r: Vec<FieldDecl>)
        ensures
            declared(r@) == Self::schema(),
    ;

    /// How many pixels around an output pixel the node reads.
    fn margin() -> (r: u32)
        ensures
            r == Self::apron(),
    ;

    /// The input region an output region needs, at any scale.
    fn roi_in(&self, out: Roi, scale: RenderScale) -> (r: Roi)
        ensures
            r == out.expanded(Self::apron()),
    {
        out.expand(Self::margin())
    }

    /// The input regions an output region needs, one for each input port.
    fn plan(&self, out: Roi, scale: Single, params: &ParamBlock) -> (r: Vec<Roi>)
        ensures
            r@ == seq![out.expanded(Self::apron())],
    {
        let mut r: Vec<Roi> = Vec::new();
        r.push(out.expand(Self::margin()));
        assert(r@ =~= seq![out.expanded(Self::apron())]);
        r
    }

    /// The node's ports and parameters.
    fn descriptor(&self) -> (r: NodeDescriptor)
        ensures
            r@ == develop_node(Self::name(), Self::schema()),
    {
        develop_descriptor(Self::id(), Self::params_schema())
    }

    /// Every parameter the node takes is one it declares.
    proof fn law_takes_only_declared_params(p: GlobalStages, f: Prepared)
        ensures
            conforms(Self::block(p, f), Self::schema()),
    ;
}

/// Makes nodes of one kind and salts their kernel.
pub trait NodeFactory {
    /// What the factory makes.
    type Node;

    /// The node that every call makes.
    spec fn fresh() -> Self::Node;

    /// A fresh node.
    fn instantiate(&self) -> (r: Self::Node)
        ensures
            r == Self::fresh(),
    ;

    /// The salt of the node's kernel.
    fn kernel_salt(&self, kernel: &[u8]) -> (r: KernelSalt)
        ensures
            r@ == blake3_digest(kernel@),
    {
        kernel_salt(kernel)
    }
}

/// A floating-point parameter called `name`.
pub open spec fn float_decl(name: Seq<char>) -> Declared {
    Declared { name, kind: ParamKind::Float }
}

/// A text parameter, mathematically.
pub open spec fn text_of(name: Seq<char>, t: Seq<char>) -> Named {
    Named { name, value: Value::Text(t) }
}

/// A text parameter called `name`.
pub open spec fn text_decl(name: Seq<char>) -> Declared {
    Declared { name, kind: ParamKind::Text }
}

/// An integer parameter, mathematically.
pub open spec fn int_of(name: Seq<char>, v: i64) -> Named {
    Named { name, value: Value::Int(v) }
}

/// An integer parameter called `name`.
pub open spec fn int_decl(name: Seq<char>) -> Declared {
    Declared { name, kind: ParamKind::Int }
}

/// Declares a floating-point parameter.
pub fn declare_float(name: &'static str) -> (r: FieldDecl)
    ensures
        r.name@ == name@,
        r.kind == ParamKind::Float,
{
    FieldDecl { name, kind: ParamKind::Float }
}

/// Appends words to a storage buffer's contents.
pub fn append_words(data: &mut Vec<u32>, more: &Vec<u32>)
    ensures
        final(data)@ == old(data)@ + more@,
{
    let mut i: usize = 0;
    assert(data@ =~= old(data)@ + more@.take(0));
    while i < more.len()
        invariant
            i <= more.len(),
            data@ == old(data)@ + more@.take(i as int),
        decreases more.len() - i,
    {
        data.push(more[i]);
        i = i + 1;
        assert(data@ =~= old(data)@ + more@.take(i as int));
    }
    assert(more@.take(i as int) =~= more@);
}

/// A block whose values are declared in the same order conforms.
pub proof fn lemma_conforms_in_order(block: Seq<Named>, schema: Seq<Declared>)
    requires
        block.len() <= schema.len(),
        forall|i: int|
            0 <= i < block.len() ==> #[trigger] schema[i] == (Declared {
                name: block[i].name,
                kind: block[i].value.kind(),
            }),
    ensures
        conforms(block, schema),
{
    assert forall|i: int| 0 <= i < block.len() implies schema.contains(
        Declared { name: (#[trigger] block[i]).name, kind: block[i].value.kind() },
    ) by {
        assert(schema[i] == (Declared { name: block[i].name, kind: block[i].value.kind() }));
    }
}

/// Names that differ pairwise are each looked up at their own place.
pub open spec fn names_apart(block: Seq<Named>) -> bool {
    forall|i: int, j: int|
        0 <= i < j < block.len() ==> (#[trigger] block[i]).name != (#[trigger] block[j]).name
}

/// In a block without repeated names every field is found under its name.
pub proof fn lemma_find(block: Seq<Named>, i: int)
    requires
        names_apart(block),
        0 <= i < block.len(),
    ensures
        lookup(block, block[i].name) == Some(block[i].value),
{
    lemma_lookup_at(block, i);
}

} // verus!
