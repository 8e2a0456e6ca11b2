//! `global.creative_lut`: a creative look, sampled from a 3D table.

use vstd::prelude::*;

use crate::bytes::law_words_lie_end_to_end;
use crate::bytes::le32;
use crate::bytes::le_words;
use crate::bytes::pack_words;
use crate::edit::CreativeLut;
use crate::edit::GlobalStages;
use crate::ieee::Double;
use crate::ieee::Single;
use crate::ieee::ONE;
use crate::nodes::global::node::declare_float;
use crate::nodes::global::node::float_decl;
use crate::nodes::global::node::int_decl;
use crate::nodes::global::node::int_of;
use crate::nodes::global::node::lemma_conforms_in_order;
use crate::nodes::global::node::lemma_find;
use crate::nodes::global::node::names_apart;
use crate::nodes::global::node::text_decl;
use crate::nodes::global::node::text_of;
use crate::nodes::global::node::GlobalNode;
use crate::nodes::global::node::NodeFactory;
use crate::nodes::global::node::Prepared;
use crate::nodes::gpu::cube_plan;
use crate::nodes::gpu::with_cube;
use crate::nodes::gpu::GpuPlan;
use crate::params::block_of;
use crate::params::conforms;
use crate::params::declared;
use crate::params::float_field;
use crate::params::float_of;
use crate::params::lookup_float;
use crate::params::lookup_float_or;
use crate::params::lookup_int;
use crate::params::lookup_text;
use crate::params::named;
use crate::params::Declared;
use crate::params::Field;
use crate::params::FieldDecl;
use crate::params::Named;
use crate::params::ParamBlock;
use crate::params::ParamKind;
use crate::params::ParamValue;
use crate::params::Value;
use crate::text::append_piece;
use crate::text::join;
use crate::text::lemma_split_join;
use crate::text::split;
use crate::text::split_text;
use crate::text::texts;
use crate::types::NodeId;

verus! {

/// The smallest table side.
pub const MIN_LUT_SIZE: u32 = 2;

/// One table entry, each channel in decimal.
#[derive(Clone, Debug, PartialEq, Eq)]
pub struct EntryText {
    /// Red.
    pub r: String,
    /// Green.
    pub g: String,
    /// Blue.
    pub b: String,
}

/// A table entry in decimal, mathematically.
pub struct Triple {
    /// Red.
    pub r: Seq<char>,
    /// Green.
    pub g: Seq<char>,
    /// Blue.
    pub b: Seq<char>,
}

impl View for EntryText {
    type V = Triple;

    open spec fn view(&self) -> Triple {
        Triple { r: self.r@, g: self.g@, b: self.b@ }
    }
}

/// A parsed look: a complete cube of colours over a finite input domain.
#[derive(Debug, PartialEq, Eq)]
pub struct Lut3D {
    size: u32,
    data: Vec<EntryText>,
    domain_min: [Single; 3],
    domain_max: [Single; 3],
}

/// A parsed look, mathematically.
pub struct Cube {
    /// Entries along each side.
    pub size: u32,
    /// The entries, red fastest.
    pub data: Seq<Triple>,
    /// Lower corner of the domain.
    pub domain_min: [Single; 3],
    /// Upper corner of the domain.
    pub domain_max: [Single; 3],
}

impl View for Lut3D {
    type V = Cube;

    closed spec fn view(&self) -> Cube {
        Cube {
            size: self.size,
            data: triples(self.data@),
            domain_min: self.domain_min,
            domain_max: self.domain_max,
        }
    }
}

impl Cube {
    /// All entries are there and the domain is finite.
    pub open spec fn complete(self) -> bool {
        &&& self.size >= MIN_LUT_SIZE
        &&& self.data.len() == cube(self.size as int)
        &&& finite_corner(self.domain_min)
        &&& finite_corner(self.domain_max)
    }
}

/// Every coordinate is finite.
pub open spec fn finite_corner(c: [Single; 3]) -> bool {
    c@[0].finite() && c@[1].finite() && c@[2].finite()
}

impl Lut3D {
    #[verifier::type_invariant]
    spec fn well_formed(&self) -> bool {
        &&& self.size >= MIN_LUT_SIZE
        &&& self.data@.len() == cube(self.size as int)
        &&& finite_corner(self.domain_min)
        &&& finite_corner(self.domain_max)
    }

    /// A look of the given side, entries and domain, if it is complete and its
    /// domain is finite.
    pub fn from_raw(
        size: u32,
        data: Vec<EntryText>,
        domain_min: [Single; 3],
        domain_max: [Single; 3],
    ) -> (r: Option<Lut3D>)
        ensures
            match r {
                Some(l) => l@ == (Cube { size, data: triples(data@), domain_min, domain_max })
                    && l@.complete(),
                None => !(Cube { size, data: triples(data@), domain_min, domain_max }).complete(),
            },
    {
        if !is_finite_corner(domain_min) || !is_finite_corner(domain_max) || !table_is_complete(
            size,
            data.len(),
        ) {
            return None;
        }
        Some(Lut3D { size, data, domain_min, domain_max })
    }

    /// Entries along each side.
    pub fn size(&self) -> (r: u32)
        ensures
            r == self@.size,
            self@.complete(),
    {
        proof {
            use_type_invariant(self);
        }
        self.size
    }

    /// The entries, red fastest.
    pub fn data(&self) -> (r: &Vec<EntryText>)
        ensures
            triples(r@) == self@.data,
            self@.complete(),
    {
        proof {
            use_type_invariant(self);
        }
        &self.data
    }

    /// Both corners of the domain.
    pub fn domain(&self) -> (r: ([Single; 3], [Single; 3]))
        ensures
            r == (self@.domain_min, self@.domain_max),
            self@.complete(),
    {
        proof {
            use_type_invariant(self);
        }
        (self.domain_min, self.domain_max)
    }
}

/// A table as found in a block, its entries not yet parsed.
#[derive(Clone, Debug, PartialEq, Eq)]
pub struct RawTable {
    /// Entries along each side.
    pub size: u32,
    /// The entries.
    pub data: Vec<EntryText>,
    /// Lower corner of the domain.
    pub domain_min: [Double; 3],
    /// Upper corner of the domain.
    pub domain_max: [Double; 3],
}

/// The parameters an evaluation reads. What it samples is [`sampled_cube`]'s to
/// say.
#[derive(Clone, Debug, PartialEq, Eq)]
pub struct LookParams {
    /// Strength, a fraction.
    pub amount: Double,
    /// The table, if the block names one.
    pub table: Option<RawTable>,
}

/// Resolves an installed look's content hash to its parsed table.
pub trait LookResolver: Send + Sync {
    /// Whether the resolver may answer `look` when asked for a content hash. An
    /// implementation that says nothing of it may answer anything.
    open spec fn answers(&self, content_hash: Seq<char>, look: Option<Cube>) -> bool {
        true
    }

    /// The table of the look, or `None` if it is not installed or no longer
    /// parses.
    fn resolve(&self, content_hash: &str) -> (r: Option<std::sync::Arc<Lut3D>>)
        ensures
            self.answers(
                content_hash@,
                match r {
                    Some(lut) => Some((*lut)@),
                    None => None,
                },
            ),
    ;
}

/// A list of entries in decimal, mathematically.
pub open spec fn triples(v: Seq<EntryText>) -> Seq<Triple> {
    Seq::new(v.len(), |i: int| v[i]@)
}

/// An entry's text: `r,g,b`.
pub open spec fn triple_text(t: Triple) -> Seq<char> {
    join(seq![t.r, t.g, t.b], ',')
}

/// The texts of a list of entries.
pub open spec fn triple_texts(ts: Seq<Triple>) -> Seq<Seq<char>> {
    Seq::new(ts.len(), |i: int| triple_text(ts[i]))
}

/// A table's text: its entries with a semicolon between each two.
pub open spec fn table_text(ts: Seq<Triple>) -> Seq<char> {
    join(triple_texts(ts), ';')
}

/// The entries among the pieces of a text: a piece that is not three fields is
/// dropped.
pub open spec fn triples_of_pieces(pieces: Seq<Seq<char>>) -> Seq<Triple>
    decreases pieces.len(),
{
    if pieces.len() == 0 {
        Seq::empty()
    } else {
        let rest = triples_of_pieces(pieces.drop_last());
        let fields = split(pieces.last(), ',');
        if fields.len() == 3 {
            rest.push(Triple { r: fields[0], g: fields[1], b: fields[2] })
        } else {
            rest
        }
    }
}

/// The entries of a text.
pub open spec fn decoded_table(s: Seq<char>) -> Seq<Triple> {
    if s.len() == 0 {
        Seq::empty()
    } else {
        triples_of_pieces(split(s, ';'))
    }
}

proof fn lemma_triple_text(t: Triple)
    ensures
        triple_text(t) == (t.r.push(',') + t.g).push(',') + t.b,
{
    let three = seq![t.r, t.g, t.b];
    let two = seq![t.r, t.g];
    let one = seq![t.r];
    assert(three.drop_last() =~= two);
    assert(two.drop_last() =~= one);
    assert(join(one, ',') == t.r);
    assert(join(two, ',') == t.r.push(',') + t.g);
}

/// Encodes a table as `r,g,b;r,g,b;...`.
pub fn encode_lut_data(data: &Vec<EntryText>) -> (r: String)
    ensures
        r@ == table_text(triples(data@)),
{
    let mut s: String = String::new();
    let mut i: usize = 0;
    let ghost pieces = triple_texts(triples(data@));
    assert(pieces.take(0) =~= Seq::<Seq<char>>::empty());
    while i < data.len()
        invariant
            i <= data.len(),
            pieces == triple_texts(triples(data@)),
            s@ == join(pieces.take(i as int), ';'),
        decreases data.len() - i,
    {
        let mut piece: String = data[i].r.clone();
        piece.push(',');
        piece.append(data[i].g.as_str());
        piece.push(',');
        piece.append(data[i].b.as_str());
        let ghost next = pieces.take(i as int + 1);
        proof {
            lemma_triple_text(data@[i as int]@);
        }
        assert(piece@ == pieces[i as int]);
        assert(next.drop_last() =~= pieces.take(i as int));
        append_piece(&mut s, i == 0, ';', piece.as_str());
        if i == 0 {
            assert(s@ =~= next[0]);
        }
        i = i + 1;
    }
    assert(pieces.take(i as int) =~= pieces);
    s
}

/// Decodes a table. A piece that is not three fields is dropped; whether the
/// fields are numbers is for the caller to see.
pub fn decode_lut_data(s: &str) -> (r: Vec<EntryText>)
    ensures
        triples(r@) == decoded_table(s@),
{
    let mut r: Vec<EntryText> = Vec::new();
    if s.is_empty() {
        assert(triples(r@) =~= Seq::<Triple>::empty());
        return r;
    }
    let pieces: Vec<String> = split_text(s, ';');
    let ghost all = split(s@, ';');
    let mut i: usize = 0;
    assert(all.take(0) =~= Seq::<Seq<char>>::empty());
    assert(triples(r@) =~= Seq::<Triple>::empty());
    while i < pieces.len()
        invariant
            i <= pieces.len(),
            texts(pieces@) == all,
            triples(r@) == triples_of_pieces(all.take(i as int)),
        decreases pieces.len() - i,
    {
        let ghost next = all.take(i as int + 1);
        assert(next.drop_last() =~= all.take(i as int));
        assert(next.last() == pieces@[i as int]@);
        let ghost before = triples(r@);
        let fields: Vec<String> = split_text(pieces[i].as_str(), ',');
        let ghost parts = split(pieces@[i as int]@, ',');
        assert(texts(fields@) == parts);
        if fields.len() == 3 {
            let e = EntryText {
                r: fields[0].clone(),
                g: fields[1].clone(),
                b: fields[2].clone(),
            };
            assert(parts[0] == fields@[0]@ && parts[1] == fields@[1]@ && parts[2] == fields@[2]@);
            let ghost t = e@;
            r.push(e);
            assert(triples(r@) =~= before.push(t));
        }
        i = i + 1;
    }
    assert(all.take(i as int) =~= all);
    r
}

/// Channels that hold no separator, as decimal numbers never do.
pub open spec fn plain_triples(ts: Seq<Triple>) -> bool {
    forall|i: int| 0 <= i < ts.len() ==> plain_triple(#[trigger] ts[i])
}

/// Channels that hold no separator.
pub open spec fn plain_triple(t: Triple) -> bool {
    &&& !t.r.contains(',') && !t.g.contains(',') && !t.b.contains(',')
    &&& !t.r.contains(';') && !t.g.contains(';') && !t.b.contains(';')
}

proof fn lemma_plain_piece(t: Triple)
    requires
        plain_triple(t),
    ensures
        !triple_text(t).contains(';'),
        split(triple_text(t), ',') == seq![t.r, t.g, t.b],
        triple_text(t).len() > 0,
{
    lemma_triple_text(t);
    let fields = seq![t.r, t.g, t.b];
    assert forall|i: int| 0 <= i < fields.len() implies !(#[trigger] fields[i]).contains(',') by {}
    lemma_split_join(fields, ',');
    let s = triple_text(t);
    let n = t.r.len();
    let m = n + 1 + t.g.len();
    assert forall|k: int| 0 <= k < s.len() implies s[k] != ';' by {
        if k < n {
            assert(s[k] == t.r[k]);
        } else if n < k < m {
            assert(s[k] == t.g[k - n - 1]);
        } else if k > m {
            assert(s[k] == t.b[k - m - 1]);
        }
    }
}

proof fn lemma_triples_of_plain_pieces(ts: Seq<Triple>)
    requires
        plain_triples(ts),
    ensures
        triples_of_pieces(triple_texts(ts)) == ts,
    decreases ts.len(),
{
    if ts.len() > 0 {
        let rest = ts.drop_last();
        assert forall|i: int| 0 <= i < rest.len() implies plain_triple(#[trigger] rest[i]) by {
            assert(rest[i] == ts[i]);
        }
        lemma_triples_of_plain_pieces(rest);
        assert(triple_texts(ts).drop_last() =~= triple_texts(rest));
        assert(ts.last() == ts[ts.len() - 1]);
        lemma_plain_piece(ts.last());
        assert(rest.push(ts.last()) =~= ts);
    } else {
        assert(triples_of_pieces(triple_texts(ts)) =~= ts);
    }
}

/// Decoding an encoded table gives back its entries.
pub proof fn law_table_round_trip(ts: Seq<Triple>)
    requires
        plain_triples(ts),
    ensures
        decoded_table(join(triple_texts(ts), ';')) == ts,
{
    let pieces = triple_texts(ts);
    if ts.len() == 0 {
        assert(decoded_table(join(pieces, ';')) =~= ts);
    } else {
        assert forall|i: int| 0 <= i < pieces.len() implies !(#[trigger] pieces[i]).contains(';') by {
            lemma_plain_piece(ts[i]);
        }
        lemma_split_join(pieces, ';');
        lemma_triples_of_plain_pieces(ts);
        lemma_plain_piece(ts.last());
        assert(pieces.last() == triple_text(ts.last()));
        assert(join(pieces, ';').len() > 0);
    }
}

/// The entries a table of the given side has to have.
pub open spec fn cube(size: int) -> int {
    size * size * size
}

/// Whether `entries` parsed entries make a complete table of the given side.
pub fn table_is_complete(size: u32, entries: usize) -> (r: bool)
    ensures
        r == (size >= MIN_LUT_SIZE && entries == cube(size as int)),
{
    if size < MIN_LUT_SIZE {
        return false;
    }
    let side: u128 = size as u128;
    assert(0 <= size * size <= 0xffff_ffff * 0xffff_ffff) by (nonlinear_arith)
        requires
            0 <= size <= 0xffff_ffff,
    ;
    let square: u128 = side * side;
    assert(0 <= square * size <= 0xffff_ffff * 0xffff_ffff * 0xffff_ffff) by (nonlinear_arith)
        requires
            0 <= square <= 0xffff_ffff * 0xffff_ffff,
            0 <= size <= 0xffff_ffff,
    ;
    square * side == entries as u128
}

/// A cube that an evaluation samples.
#[derive(Clone, Debug, PartialEq, Eq)]
pub struct SampledCube {
    /// Entries along each side.
    pub size: u32,
    /// The entries, red fastest.
    pub data: Vec<[Single; 3]>,
    /// Lower corner of the domain.
    pub domain_min: [Single; 3],
    /// Upper corner of the domain.
    pub domain_max: [Single; 3],
}

/// The entries that parsed to finite numbers, in order.
pub open spec fn usable(entries: Seq<Option<[Single; 3]>>) -> Seq<[Single; 3]>
    decreases entries.len(),
{
    if entries.len() == 0 {
        Seq::empty()
    } else {
        match entries.last() {
            Some(c) if finite_corner(c) => usable(entries.drop_last()).push(c),
            _ => usable(entries.drop_last()),
        }
    }
}

/// Zero or one.
pub open spec fn end_of_unit(upper: bool) -> Single {
    if upper {
        Single { bits: ONE }
    } else {
        Single { bits: 0 }
    }
}

/// The identity of side two: each corner of the unit cube maps to itself.
pub open spec fn identity_cube(c: SampledCube) -> bool {
    &&& c.size == 2
    &&& c.data@.len() == 8
    &&& forall|k: int|
        0 <= k < 8 ==> (#[trigger] c.data@[k])@ == seq![
            end_of_unit(k % 2 == 1),
            end_of_unit(k / 2 % 2 == 1),
            end_of_unit(k / 4 == 1),
        ]
    &&& c.domain_min@ == seq![end_of_unit(false), end_of_unit(false), end_of_unit(false)]
    &&& c.domain_max@ == seq![end_of_unit(true), end_of_unit(true), end_of_unit(true)]
}

/// `r` is what an evaluation of `q` samples, `entries` and the domain being what
/// the numbers of its table came to: that table where it is complete and its
/// domain is finite, and the identity otherwise.
pub open spec fn samples(
    q: LookParams,
    entries: Seq<Option<[Single; 3]>>,
    domain_min: [Single; 3],
    domain_max: [Single; 3],
    r: SampledCube,
) -> bool {
    match q.table {
        Some(t) if t.size >= MIN_LUT_SIZE && usable(entries).len() == cube(t.size as int)
            && finite_corner(domain_min) && finite_corner(domain_max) => {
            &&& r.size == t.size
            &&& r.data@ == usable(entries)
            &&& r.domain_min == domain_min
            &&& r.domain_max == domain_max
        },
        _ => identity_cube(r),
    }
}

fn is_finite_corner(c: [Single; 3]) -> (r: bool)
    ensures
        r == finite_corner(c),
{
    c[0].is_finite() && c[1].is_finite() && c[2].is_finite()
}

fn identity_of_two() -> (r: SampledCube)
    ensures
        identity_cube(r),
{
    let zero = Single { bits: 0 };
    let one = Single { bits: ONE };
    let data: Vec<[Single; 3]> = vec![
        [zero, zero, zero], [one, zero, zero], [zero, one, zero], [one, one, zero],
        [zero, zero, one], [one, zero, one], [zero, one, one], [one, one, one]
    ];
    let r = SampledCube { size: 2, data, domain_min: [zero, zero, zero], domain_max: [one, one, one] };
    proof {
        assert forall|k: int| 0 <= k < 8 implies (#[trigger] r.data@[k])@ == seq![
            end_of_unit(k % 2 == 1),
            end_of_unit(k / 2 % 2 == 1),
            end_of_unit(k / 4 == 1),
        ] by {
            assert(r.data@[k]@ =~= seq![
                end_of_unit(k % 2 == 1),
                end_of_unit(k / 2 % 2 == 1),
                end_of_unit(k / 4 == 1),
            ]);
        }
        assert(r.domain_min@ =~= seq![
            end_of_unit(false),
            end_of_unit(false),
            end_of_unit(false),
        ]);
        assert(r.domain_max@ =~= seq![end_of_unit(true), end_of_unit(true), end_of_unit(true)]);
    }
    r
}

/// The cube that an evaluation samples, given what each entry of its table
/// parsed to (nothing, where it is no number) and the domain in single
/// precision. Entries that are not finite are dropped; a table that then lacks
/// entries, a domain that is not finite, or no table at all gives the identity.
pub fn sampled_cube(
    q: &LookParams,
    entries: &Vec<Option<[Single; 3]>>,
    domain_min: [Single; 3],
    domain_max: [Single; 3],
) -> (r: SampledCube)
    ensures
        samples(*q, entries@, domain_min, domain_max, r),
{
    let mut data: Vec<[Single; 3]> = Vec::new();
    let mut i: usize = 0;
    assert(entries@.take(0) =~= Seq::empty());
    while i < entries.len()
        invariant
            i <= entries.len(),
            data@ == usable(entries@.take(i as int)),
        decreases entries.len() - i,
    {
        assert(entries@.take(i + 1).drop_last() =~= entries@.take(i as int));
        if let Some(c) = entries[i] {
            if is_finite_corner(c) {
                data.push(c);
            }
        }
        i = i + 1;
    }
    assert(entries@.take(i as int) =~= entries@);
    match &q.table {
        Some(t) => {
            if table_is_complete(t.size, data.len()) && is_finite_corner(domain_min)
                && is_finite_corner(domain_max) {
                SampledCube { size: t.size, data, domain_min, domain_max }
            } else {
                identity_of_two()
            }
        },
        None => identity_of_two(),
    }
}

/// A table all of whose entries are finite numbers, as many as its side asks
/// for, over a finite domain, is sampled as it is.
pub proof fn law_complete_tables_are_sampled(
    q: LookParams,
    entries: Seq<Option<[Single; 3]>>,
    domain_min: [Single; 3],
    domain_max: [Single; 3],
    r: SampledCube,
)
    requires
        q.table is Some,
        q.table->Some_0.size >= MIN_LUT_SIZE,
        entries.len() == cube(q.table->Some_0.size as int),
        forall|k: int|
            0 <= k < entries.len() ==> (#[trigger] entries[k]) is Some && finite_corner(
                entries[k]->Some_0,
            ),
        finite_corner(domain_min),
        finite_corner(domain_max),
        samples(q, entries, domain_min, domain_max, r),
    ensures
        r.size == q.table->Some_0.size,
        r.data@ == Seq::new(entries.len(), |k: int| entries[k]->Some_0),
        r.domain_min == domain_min,
        r.domain_max == domain_max,
{
    lemma_all_usable(entries);
}

proof fn lemma_all_usable(entries: Seq<Option<[Single; 3]>>)
    requires
        forall|k: int|
            0 <= k < entries.len() ==> (#[trigger] entries[k]) is Some && finite_corner(
                entries[k]->Some_0,
            ),
    ensures
        usable(entries) == Seq::new(entries.len(), |k: int| entries[k]->Some_0),
    decreases entries.len(),
{
    if entries.len() > 0 {
        let rest = entries.drop_last();
        assert forall|k: int| 0 <= k < rest.len() implies (#[trigger] rest[k]) is Some
            && finite_corner(rest[k]->Some_0) by {
            assert(entries[k] is Some);
        }
        lemma_all_usable(rest);
        assert(entries[entries.len() - 1] is Some);
    }
    assert(usable(entries) =~= Seq::new(entries.len(), |k: int| entries[k]->Some_0));
}

/// The parameters of a look that resolved to a table.
pub open spec fn look_block(amount: Single, lut: Cube) -> Seq<Named> {
    seq![
        float_of("amount"@, amount),
        text_of("look_id"@, Seq::empty()),
        int_of("lut_size"@, lut.size as i64),
        text_of("lut_data"@, table_text(lut.data)),
        float_of("domain_min_r"@, lut.domain_min@[0]),
        float_of("domain_min_g"@, lut.domain_min@[1]),
        float_of("domain_min_b"@, lut.domain_min@[2]),
        float_of("domain_max_r"@, lut.domain_max@[0]),
        float_of("domain_max_g"@, lut.domain_max@[1]),
        float_of("domain_max_b"@, lut.domain_max@[2]),
    ]
}

/// The parameters of a look without a table: its strength and its hash.
pub open spec fn reference_block(look: Option<CreativeLut>, fraction: Double) -> Seq<Named> {
    match look {
        None => seq![
            Named { name: "amount"@, value: Value::Float(Double { bits: 0 }) },
            int_of("lut_size"@, 0),
        ],
        Some(l) => seq![
            Named { name: "amount"@, value: Value::Float(fraction) },
            text_of("look_id"@, l.id@),
            int_of("lut_size"@, 0),
        ],
    }
}

/// `d` is the double called `name`, or else `default`.
pub open spec fn reads(block: Seq<Named>, name: Seq<char>, default: u64, d: Double) -> bool {
    d == lookup_float_or(block, name, Double { bits: default })
}

/// `q` holds the parameters found in a block. A side below the smallest names
/// no table; the side is kept modulo 2^32; a missing domain is the unit cube.
pub open spec fn look_params(block: Seq<Named>, q: LookParams) -> bool {
    let side: int = match lookup_int(block, "lut_size"@) {
        Some(v) => v as int,
        None => 0,
    };
    &&& reads(block, "amount"@, 0, q.amount)
    &&& match q.table {
        None => side < MIN_LUT_SIZE,
        Some(t) => {
            &&& side >= MIN_LUT_SIZE
            &&& t.size == side % 0x1_0000_0000
            &&& triples(t.data@) == match lookup_text(block, "lut_data"@) {
                Some(s) => decoded_table(s),
                None => Seq::empty(),
            }
            &&& reads(block, "domain_min_r"@, 0, t.domain_min@[0])
            &&& reads(block, "domain_min_g"@, 0, t.domain_min@[1])
            &&& reads(block, "domain_min_b"@, 0, t.domain_min@[2])
            &&& reads(block, "domain_max_r"@, 0x3ff0_0000_0000_0000, t.domain_max@[0])
            &&& reads(block, "domain_max_g"@, 0x3ff0_0000_0000_0000, t.domain_max@[1])
            &&& reads(block, "domain_max_b"@, 0x3ff0_0000_0000_0000, t.domain_max@[2])
        },
    }
}

/// The `global.creative_lut` develop node.
#[derive(Clone, Copy, Debug, PartialEq, Eq, Structural)]
pub struct CreativeLutNode {}

/// The words of the uniform buffer.
pub open spec fn creative_lut_layout(amount: Single, side: Single, domain_min: [Single; 3], domain_max: [Single; 3]) -> Seq<u32> {
    seq![amount.bits, side.bits, 0, 0, domain_min[0].bits, domain_min[1].bits, domain_min[2].bits, 0, domain_max[0].bits, domain_max[1].bits, domain_max[2].bits, 0]
}

impl CreativeLutNode {
    /// A fresh node.
    pub fn new() -> (r: CreativeLutNode)
        ensures
            r == (CreativeLutNode {  }),
    {
        CreativeLutNode {  }
    }

    /// A look's strength and table.
    pub fn param_block_with_lut(amount: Single, lut: &Lut3D) -> (r: ParamBlock)
        requires
            amount.finite(),
        ensures
            r@ == look_block(amount, lut@),
    {
        let size: u32 = lut.size();
        let (low, high) = lut.domain();
        let mut fields: Vec<Field> = Vec::new();
        fields.push(float_field("amount", amount));
        fields.push(Field { name: "look_id", value: ParamValue::Text(String::new()) });
        fields.push(Field { name: "lut_size", value: ParamValue::Int(size as i64) });
        fields.push(
            Field { name: "lut_data", value: ParamValue::Text(encode_lut_data(lut.data())) },
        );
        fields.push(float_field("domain_min_r", low[0]));
        fields.push(float_field("domain_min_g", low[1]));
        fields.push(float_field("domain_min_b", low[2]));
        fields.push(float_field("domain_max_r", high[0]));
        fields.push(float_field("domain_max_g", high[1]));
        fields.push(float_field("domain_max_b", high[2]));
        assert(named(fields@) =~= look_block(amount, lut@));
        block_of(fields)
    }

    /// The parameters of an evaluation, read from its block: the one place both
    /// backends take them from.
    pub fn resolve_from_params(params: &ParamBlock) -> (r: LookParams)
        ensures
            look_params(params@, r),
    {
        let zero = Double { bits: 0 };
        let one = Double { bits: 0x3ff0_0000_0000_0000 };
        let amount: Double = params.get_f64_or("amount", zero);
        let side: i64 = match params.get_i64("lut_size") {
            Some(v) => v,
            None => 0,
        };
        if side < MIN_LUT_SIZE as i64 {
            return LookParams { amount, table: None };
        }
        let data: Vec<EntryText> = match params.get_str("lut_data") {
            Some(s) => decode_lut_data(s),
            None => {
                let none: Vec<EntryText> = Vec::new();
                assert(triples(none@) =~= Seq::<Triple>::empty());
                none
            },
        };
        let table = RawTable {
            size: (side % 0x1_0000_0000) as u32,
            data,
            domain_min: [
                params.get_f64_or("domain_min_r", zero),
                params.get_f64_or("domain_min_g", zero),
                params.get_f64_or("domain_min_b", zero),
            ],
            domain_max: [
                params.get_f64_or("domain_max_r", one),
                params.get_f64_or("domain_max_g", one),
                params.get_f64_or("domain_max_b", one),
            ],
        };
        LookParams { amount, table: Some(table) }
    }

    /// The uniform buffer: strength and side (as a number), then both corners of
    /// the domain, each padded to four words.
    pub fn uniforms(
        amount: Single,
        side: Single,
        domain_min: [Single; 3],
        domain_max: [Single; 3],
    ) -> (r: Vec<u8>)
        ensures
            r@ == le_words(creative_lut_layout(amount, side, domain_min, domain_max)),
    {
        let words: Vec<u32> = vec![
            amount.bits, side.bits, 0, 0,
            domain_min[0].bits, domain_min[1].bits, domain_min[2].bits, 0,
            domain_max[0].bits, domain_max[1].bits, domain_max[2].bits, 0
        ];
        assert(words@ =~= seq![
            amount.bits,
            side.bits,
            0,
            0,
            domain_min[0].bits,
            domain_min[1].bits,
            domain_min[2].bits,
            0,
            domain_max[0].bits,
            domain_max[1].bits,
            domain_max[2].bits,
            0,
        ]);
        pack_words(&words)
    }

    /// The node's GPU passes.
    pub fn gpu_plan(&self) -> (r: GpuPlan)
        ensures
            r@ == cube_plan(),
            r@.sound(),
    {
        with_cube()
    }
}

impl GlobalNode for CreativeLutNode {
    open spec fn name() -> Seq<char> {
        "global.creative_lut"@
    }

    /// No look, or a look without strength.
    open spec fn identity(p: GlobalStages, f: Prepared) -> bool {
        match p.effects.creative_lut {
            None => true,
            Some(l) => l.amount.zero() || (l.amount.negative() && !l.amount.nan()),
        }
    }

    open spec fn ready(p: GlobalStages, f: Prepared) -> bool {
        f.look_fraction.finite()
    }

    open spec fn block(p: GlobalStages, f: Prepared) -> Seq<Named> {
        reference_block(p.effects.creative_lut, f.look_fraction)
    }

    open spec fn schema() -> Seq<Declared> {
        seq![
            float_decl("amount"@),
            text_decl("look_id"@),
            int_decl("lut_size"@),
            text_decl("lut_data"@),
            float_decl("domain_min_r"@),
            float_decl("domain_min_g"@),
            float_decl("domain_min_b"@),
            float_decl("domain_max_r"@),
            float_decl("domain_max_g"@),
            float_decl("domain_max_b"@),
        ]
    }

    open spec fn apron() -> int {
        0
    }

    fn id() -> (r: NodeId) {
        NodeId("global.creative_lut")
    }

    fn is_identity(p: &GlobalStages, f: &Prepared) -> (r: bool) {
        match &p.effects.creative_lut {
            None => true,
            Some(l) => l.amount.is_at_most_zero(),
        }
    }

    fn param_block(p: &GlobalStages, f: &Prepared) -> (r: ParamBlock) {
        let mut fields: Vec<Field> = Vec::new();
        match &p.effects.creative_lut {
            None => {
                fields.push(
                    Field { name: "amount", value: ParamValue::Float(Double { bits: 0 }) },
                );
                fields.push(Field { name: "lut_size", value: ParamValue::Int(0) });
            },
            Some(l) => {
                fields.push(
                    Field { name: "amount", value: ParamValue::Float(f.look_fraction) },
                );
                fields.push(Field { name: "look_id", value: ParamValue::Text(l.id.clone()) });
                fields.push(Field { name: "lut_size", value: ParamValue::Int(0) });
            },
        }
        assert(named(fields@) =~= Self::block(*p, *f));
        block_of(fields)
    }

    fn params_schema() -> (r: Vec<FieldDecl>) {
        let mut r: Vec<FieldDecl> = Vec::new();
        r.push(declare_float("amount"));
        r.push(FieldDecl { name: "look_id", kind: ParamKind::Text });
        r.push(FieldDecl { name: "lut_size", kind: ParamKind::Int });
        r.push(FieldDecl { name: "lut_data", kind: ParamKind::Text });
        r.push(declare_float("domain_min_r"));
        r.push(declare_float("domain_min_g"));
        r.push(declare_float("domain_min_b"));
        r.push(declare_float("domain_max_r"));
        r.push(declare_float("domain_max_g"));
        r.push(declare_float("domain_max_b"));
        assert(declared(r@) =~= Self::schema());
        r
    }

    fn margin() -> (r: u32) {
        0
    }

    proof fn law_takes_only_declared_params(p: GlobalStages, f: Prepared) {
        let schema = Self::schema();
        assert(schema[0] == float_decl("amount"@));
        assert(schema[1] == text_decl("look_id"@));
        assert(schema[2] == int_decl("lut_size"@));
    }
}

/// A resolved look's parameters are declared ones too.
pub proof fn law_resolved_looks_take_only_declared_params(amount: Single, lut: Cube)
    ensures
        conforms(look_block(amount, lut), CreativeLutNode::schema()),
{
    lemma_conforms_in_order(look_block(amount, lut), CreativeLutNode::schema());
}

/// Without a resolved table, whatever the look and its strength, an evaluation
/// finds no table in its block.
pub proof fn law_unresolved_looks_have_no_table(p: GlobalStages, f: Prepared, q: LookParams)
    requires
        look_params(CreativeLutNode::block(p, f), q),
    ensures
        q.table is None,
        p.effects.creative_lut is Some ==> q.amount == f.look_fraction,
{
    let block = CreativeLutNode::block(p, f);
    reveal_strlit("amount");
    reveal_strlit("look_id");
    reveal_strlit("lut_size");
    assert("amount"@.len() != "look_id"@.len());
    assert("amount"@.len() != "lut_size"@.len());
    assert("look_id"@.len() != "lut_size"@.len());
    assert(names_apart(block));
    lemma_find(block, 0);
    lemma_find(block, block.len() - 1);
}

/// No two fields of a resolved look's block share a name.
proof fn lemma_look_names_apart(amount: Single, lut: Cube)
    ensures
        names_apart(look_block(amount, lut)),
{
    let block = look_block(amount, lut);
    reveal_strlit("amount");
    reveal_strlit("look_id");
    reveal_strlit("lut_size");
    reveal_strlit("lut_data");
    reveal_strlit("domain_min_r");
    reveal_strlit("domain_min_g");
    reveal_strlit("domain_min_b");
    reveal_strlit("domain_max_r");
    reveal_strlit("domain_max_g");
    reveal_strlit("domain_max_b");
    assert("amount"@.len() != "look_id"@.len());
    assert("amount"@.len() != "lut_size"@.len());
    assert("amount"@.len() != "lut_data"@.len());
    assert("amount"@.len() != "domain_min_r"@.len());
    assert("amount"@.len() != "domain_min_g"@.len());
    assert("amount"@.len() != "domain_min_b"@.len());
    assert("amount"@.len() != "domain_max_r"@.len());
    assert("amount"@.len() != "domain_max_g"@.len());
    assert("amount"@.len() != "domain_max_b"@.len());
    assert("look_id"@.len() != "lut_size"@.len());
    assert("look_id"@.len() != "lut_data"@.len());
    assert("look_id"@.len() != "domain_min_r"@.len());
    assert("look_id"@.len() != "domain_min_g"@.len());
    assert("look_id"@.len() != "domain_min_b"@.len());
    assert("look_id"@.len() != "domain_max_r"@.len());
    assert("look_id"@.len() != "domain_max_g"@.len());
    assert("look_id"@.len() != "domain_max_b"@.len());
    assert("lut_size"@[4] != "lut_data"@[4]);
    assert("lut_size"@.len() != "domain_min_r"@.len());
    assert("lut_size"@.len() != "domain_min_g"@.len());
    assert("lut_size"@.len() != "domain_min_b"@.len());
    assert("lut_size"@.len() != "domain_max_r"@.len());
    assert("lut_size"@.len() != "domain_max_g"@.len());
    assert("lut_size"@.len() != "domain_max_b"@.len());
    assert("lut_data"@.len() != "domain_min_r"@.len());
    assert("lut_data"@.len() != "domain_min_g"@.len());
    assert("lut_data"@.len() != "domain_min_b"@.len());
    assert("lut_data"@.len() != "domain_max_r"@.len());
    assert("lut_data"@.len() != "domain_max_g"@.len());
    assert("lut_data"@.len() != "domain_max_b"@.len());
    assert("domain_min_r"@[11] != "domain_min_g"@[11]);
    assert("domain_min_r"@[11] != "domain_min_b"@[11]);
    assert("domain_min_r"@[8] != "domain_max_r"@[8]);
    assert("domain_min_r"@[8] != "domain_max_g"@[8]);
    assert("domain_min_r"@[8] != "domain_max_b"@[8]);
    assert("domain_min_g"@[11] != "domain_min_b"@[11]);
    assert("domain_min_g"@[8] != "domain_max_r"@[8]);
    assert("domain_min_g"@[8] != "domain_max_g"@[8]);
    assert("domain_min_g"@[8] != "domain_max_b"@[8]);
    assert("domain_min_b"@[8] != "domain_max_r"@[8]);
    assert("domain_min_b"@[8] != "domain_max_g"@[8]);
    assert("domain_min_b"@[8] != "domain_max_b"@[8]);
    assert("domain_max_r"@[11] != "domain_max_g"@[11]);
    assert("domain_max_r"@[11] != "domain_max_b"@[11]);
    assert("domain_max_g"@[11] != "domain_max_b"@[11]);
    assert(names_apart(block));
}

/// A resolved look's strength, side, table and domain stand in its block under
/// their own names.
pub proof fn law_a_resolved_look_has_its_own_names(amount: Single, lut: Cube)
    ensures
        lookup_float(look_block(amount, lut), "amount"@) == Some(amount.as_double()),
        lookup_text(look_block(amount, lut), "look_id"@) == Some(Seq::<char>::empty()),
        lookup_int(look_block(amount, lut), "lut_size"@) == Some(lut.size as i64),
        lookup_text(look_block(amount, lut), "lut_data"@) == Some(table_text(lut.data)),
        lookup_float(look_block(amount, lut), "domain_min_r"@) == Some(lut.domain_min@[0].as_double()),
        lookup_float(look_block(amount, lut), "domain_min_g"@) == Some(lut.domain_min@[1].as_double()),
        lookup_float(look_block(amount, lut), "domain_min_b"@) == Some(lut.domain_min@[2].as_double()),
        lookup_float(look_block(amount, lut), "domain_max_r"@) == Some(lut.domain_max@[0].as_double()),
        lookup_float(look_block(amount, lut), "domain_max_g"@) == Some(lut.domain_max@[1].as_double()),
        lookup_float(look_block(amount, lut), "domain_max_b"@) == Some(lut.domain_max@[2].as_double()),
{
    let block = look_block(amount, lut);
    lemma_look_names_apart(amount, lut);
    lemma_find(block, 0);
    lemma_find(block, 1);
    lemma_find(block, 2);
    lemma_find(block, 3);
    lemma_find(block, 4);
    lemma_find(block, 5);
    lemma_find(block, 6);
    lemma_find(block, 7);
    lemma_find(block, 8);
    lemma_find(block, 9);
}

/// An unresolved look keeps its strength and its content hash, and names no
/// table.
pub proof fn law_an_unresolved_look_keeps_its_reference(p: GlobalStages, f: Prepared)
    ensures
        p.effects.creative_lut matches Some(l) ==> lookup_float(
            CreativeLutNode::block(p, f),
            "amount"@,
        ) == Some(f.look_fraction) && lookup_text(CreativeLutNode::block(p, f), "look_id"@) == Some(
            l.id@,
        ),
        lookup_int(CreativeLutNode::block(p, f), "lut_size"@) == Some(0i64),
        p.effects.creative_lut is None ==> lookup_float(CreativeLutNode::block(p, f), "amount"@)
            == Some(Double { bits: 0 }),
{
    let block = CreativeLutNode::block(p, f);
    reveal_strlit("amount");
    reveal_strlit("look_id");
    reveal_strlit("lut_size");
    assert("amount"@.len() != "look_id"@.len());
    assert("amount"@.len() != "lut_size"@.len());
    assert("look_id"@.len() != "lut_size"@.len());
    assert(names_apart(block));
    lemma_find(block, 0);
    lemma_find(block, 1);
    lemma_find(block, block.len() - 1);
}

/// An evaluation takes its strength, side, table and domain from under their own
/// names. A side below two, or none, names no table; a missing domain is the
/// unit cube.
pub proof fn law_a_look_is_read_by_name(block: Seq<Named>, q: LookParams)
    requires
        look_params(block, q),
    ensures
        lookup_float(block, "amount"@) matches Some(v) ==> q.amount == v,
        lookup_float(block, "amount"@) is None ==> q.amount == (Double { bits: 0 }),
        lookup_int(block, "lut_size"@) is None ==> q.table is None,
        lookup_int(block, "lut_size"@) matches Some(n) ==> (q.table is Some <==> n >= 2),
        lookup_int(block, "lut_size"@) matches Some(n) ==> (n >= 2 ==> q.table->Some_0.size == n
            % 0x1_0000_0000),
        q.table matches Some(t) ==> (lookup_text(block, "lut_data"@) matches Some(s) ==> triples(
            t.data@,
        ) == decoded_table(s)),
        q.table matches Some(t) ==> (lookup_float(block, "domain_min_r"@) matches Some(v)
            ==> t.domain_min@[0] == v),
        q.table matches Some(t) ==> (lookup_float(block, "domain_min_r"@) is None
            ==> t.domain_min@[0] == (Double { bits: 0 })),
        q.table matches Some(t) ==> (lookup_float(block, "domain_min_g"@) matches Some(v)
            ==> t.domain_min@[1] == v),
        q.table matches Some(t) ==> (lookup_float(block, "domain_min_g"@) is None
            ==> t.domain_min@[1] == (Double { bits: 0 })),
        q.table matches Some(t) ==> (lookup_float(block, "domain_min_b"@) matches Some(v)
            ==> t.domain_min@[2] == v),
        q.table matches Some(t) ==> (lookup_float(block, "domain_min_b"@) is None
            ==> t.domain_min@[2] == (Double { bits: 0 })),
        q.table matches Some(t) ==> (lookup_float(block, "domain_max_r"@) matches Some(v)
            ==> t.domain_max@[0] == v),
        q.table matches Some(t) ==> (lookup_float(block, "domain_max_r"@) is None
            ==> t.domain_max@[0] == (Double { bits: 0x3ff0_0000_0000_0000 })),
        q.table matches Some(t) ==> (lookup_float(block, "domain_max_g"@) matches Some(v)
            ==> t.domain_max@[1] == v),
        q.table matches Some(t) ==> (lookup_float(block, "domain_max_g"@) is None
            ==> t.domain_max@[1] == (Double { bits: 0x3ff0_0000_0000_0000 })),
        q.table matches Some(t) ==> (lookup_float(block, "domain_max_b"@) matches Some(v)
            ==> t.domain_max@[2] == v),
        q.table matches Some(t) ==> (lookup_float(block, "domain_max_b"@) is None
            ==> t.domain_max@[2] == (Double { bits: 0x3ff0_0000_0000_0000 })),
{
}

/// A table's text is its entries as `r,g,b`, with a semicolon between each two.
pub proof fn law_a_table_is_written_entry_by_entry(ts: Seq<Triple>, t: Triple)
    ensures
        table_text(Seq::<Triple>::empty()) == Seq::<char>::empty(),
        table_text(seq![t]) == (t.r.push(',') + t.g).push(',') + t.b,
        ts.len() > 0 ==> table_text(ts.push(t)) == table_text(ts).push(';') + ((t.r.push(',')
            + t.g).push(',') + t.b),
{
    lemma_triple_text(t);
    assert(triple_texts(Seq::<Triple>::empty()) =~= Seq::empty());
    assert(triple_texts(seq![t]) =~= seq![triple_text(t)]);
    assert(triple_texts(ts.push(t)) =~= triple_texts(ts).push(triple_text(t)));
    assert(triple_texts(ts.push(t)).drop_last() =~= triple_texts(ts));
}

/// A piece of a table's text is an entry exactly if it has three fields; others
/// are dropped.
pub proof fn law_only_pieces_of_three_fields_are_entries(pieces: Seq<Seq<char>>, piece: Seq<char>)
    ensures
        split(piece, ',').len() == 3 ==> triples_of_pieces(pieces.push(piece))
            == triples_of_pieces(pieces).push(
            Triple {
                r: split(piece, ',')[0],
                g: split(piece, ',')[1],
                b: split(piece, ',')[2],
            },
        ),
        split(piece, ',').len() != 3 ==> triples_of_pieces(pieces.push(piece))
            == triples_of_pieces(pieces),
        triples_of_pieces(Seq::empty()).len() == 0,
{
    assert(pieces.push(piece).drop_last() =~= pieces);
}

/// An entry is usable exactly if all three of its numbers are finite.
pub proof fn law_only_finite_entries_are_usable(
    entries: Seq<Option<[Single; 3]>>,
    e: Option<[Single; 3]>,
)
    ensures
        usable(entries.push(e)) == if e is Some && e->Some_0@[0].bits % 0x8000_0000 < 0x7f80_0000
            && e->Some_0@[1].bits % 0x8000_0000 < 0x7f80_0000 && e->Some_0@[2].bits % 0x8000_0000
            < 0x7f80_0000 {
            usable(entries).push(e->Some_0)
        } else {
            usable(entries)
        },
        usable(Seq::empty()).len() == 0,
{
    assert(entries.push(e).drop_last() =~= entries);
    if let Some(c) = e {
        crate::ieee::law_single_patterns_are_ordered(c@[0]);
        crate::ieee::law_single_patterns_are_ordered(c@[1]);
        crate::ieee::law_single_patterns_are_ordered(c@[2]);
    }
}

/// What is sampled is always a complete cube: as many entries as its side asks
/// for, and at least two each way. A look that names no table, whose usable
/// entries are too few or too many, or whose domain is not finite, samples the
/// cube that maps each corner to itself.
pub proof fn law_a_sampled_cube_is_complete(
    q: LookParams,
    entries: Seq<Option<[Single; 3]>>,
    domain_min: [Single; 3],
    domain_max: [Single; 3],
    r: SampledCube,
    red: int,
    green: int,
    blue: int,
)
    requires
        samples(q, entries, domain_min, domain_max, r),
        0 <= red < 2,
        0 <= green < 2,
        0 <= blue < 2,
    ensures
        r.size >= 2,
        r.data@.len() == r.size * r.size * r.size,
        q.table is None || usable(entries).len() != q.table->Some_0.size * q.table->Some_0.size
            * q.table->Some_0.size ==> r.size == 2 && {
            let c = r.data@[red + 2 * green + 4 * blue]@;
            &&& c[0].bits == if red == 1 { 0x3f80_0000u32 } else { 0 }
            &&& c[1].bits == if green == 1 { 0x3f80_0000u32 } else { 0 }
            &&& c[2].bits == if blue == 1 { 0x3f80_0000u32 } else { 0 }
        },
{
    let k = red + 2 * green + 4 * blue;
    assert(k % 2 == red && k / 2 % 2 == green && k / 4 == blue);
    if q.table is None || usable(entries).len() != q.table->Some_0.size * q.table->Some_0.size
        * q.table->Some_0.size {
        let c = r.data@[k]@;
        assert(c == seq![
            end_of_unit(k % 2 == 1),
            end_of_unit(k / 2 % 2 == 1),
            end_of_unit(k / 4 == 1),
        ]);
    }
}

/// Reading a resolved look's block gives back its strength, side, entries and
/// domain.
pub proof fn law_look_params_round_trip(amount: Single, lut: Cube, q: LookParams)
    requires
        lut.complete(),
        plain_triples(lut.data),
        look_params(look_block(amount, lut), q),
    ensures
        q.amount == amount.as_double(),
        q.table is Some,
        q.table->Some_0.size == lut.size,
        triples(q.table->Some_0.data@) == lut.data,
        forall|i: int|
            0 <= i < 3 ==> #[trigger] q.table->Some_0.domain_min@[i]
                == lut.domain_min@[i].as_double(),
        forall|i: int|
            0 <= i < 3 ==> #[trigger] q.table->Some_0.domain_max@[i]
                == lut.domain_max@[i].as_double(),
{
    let block = look_block(amount, lut);
    lemma_look_names_apart(amount, lut);
    lemma_find(block, 0);
    lemma_find(block, 1);
    lemma_find(block, 2);
    lemma_find(block, 3);
    lemma_find(block, 4);
    lemma_find(block, 5);
    lemma_find(block, 6);
    lemma_find(block, 7);
    lemma_find(block, 8);
    lemma_find(block, 9);
    law_table_round_trip(lut.data);
    let t = q.table->Some_0;
    assert(t.domain_min@[0] == lut.domain_min@[0].as_double());
    assert(t.domain_min@[1] == lut.domain_min@[1].as_double());
    assert(t.domain_min@[2] == lut.domain_min@[2].as_double());
    assert(t.domain_max@[0] == lut.domain_max@[0].as_double());
    assert(t.domain_max@[1] == lut.domain_max@[1].as_double());
    assert(t.domain_max@[2] == lut.domain_max@[2].as_double());
}

/// Each number has its own place in the uniform buffer, and the rest is padding.
pub proof fn law_creative_lut_numbers_have_their_own_places(amount: Single, side: Single, domain_min: [Single; 3], domain_max: [Single; 3])
    ensures
        le_words(creative_lut_layout(amount, side, domain_min, domain_max)).len() == 48,
        le_words(creative_lut_layout(amount, side, domain_min, domain_max)).subrange(0, 4) == le32(amount.bits),
        le_words(creative_lut_layout(amount, side, domain_min, domain_max)).subrange(4, 8) == le32(side.bits),
        le_words(creative_lut_layout(amount, side, domain_min, domain_max)).subrange(8, 12) == le32(0),
        le_words(creative_lut_layout(amount, side, domain_min, domain_max)).subrange(12, 16) == le32(0),
        le_words(creative_lut_layout(amount, side, domain_min, domain_max)).subrange(16, 20) == le32(domain_min[0].bits),
        le_words(creative_lut_layout(amount, side, domain_min, domain_max)).subrange(20, 24) == le32(domain_min[1].bits),
        le_words(creative_lut_layout(amount, side, domain_min, domain_max)).subrange(24, 28) == le32(domain_min[2].bits),
        le_words(creative_lut_layout(amount, side, domain_min, domain_max)).subrange(28, 32) == le32(0),
        le_words(creative_lut_layout(amount, side, domain_min, domain_max)).subrange(32, 36) == le32(domain_max[0].bits),
        le_words(creative_lut_layout(amount, side, domain_min, domain_max)).subrange(36, 40) == le32(domain_max[1].bits),
        le_words(creative_lut_layout(amount, side, domain_min, domain_max)).subrange(40, 44) == le32(domain_max[2].bits),
        le_words(creative_lut_layout(amount, side, domain_min, domain_max)).subrange(44, 48) == le32(0),
{
    let words = creative_lut_layout(amount, side, domain_min, domain_max);
    law_words_lie_end_to_end(words, 0);
    law_words_lie_end_to_end(words, 1);
    law_words_lie_end_to_end(words, 2);
    law_words_lie_end_to_end(words, 3);
    law_words_lie_end_to_end(words, 4);
    law_words_lie_end_to_end(words, 5);
    law_words_lie_end_to_end(words, 6);
    law_words_lie_end_to_end(words, 7);
    law_words_lie_end_to_end(words, 8);
    law_words_lie_end_to_end(words, 9);
    law_words_lie_end_to_end(words, 10);
    law_words_lie_end_to_end(words, 11);
}

/// Makes [`CreativeLutNode`]s.
#[derive(Clone, Copy, Debug, PartialEq, Eq, Structural)]
pub struct CreativeLutFactory {}

impl NodeFactory for CreativeLutFactory {
    type Node = CreativeLutNode;

    open spec fn fresh() -> CreativeLutNode {
        CreativeLutNode {  }
    }

    fn instantiate(&self) -> (r: CreativeLutNode) {
        CreativeLutNode::new()
    }
}

/// A look is complete exactly if it has at least two entries each way, all of
/// them, and a domain of finite numbers.
pub proof fn law_a_look_is_complete_with_all_its_entries(c: Cube)
    ensures
        c.complete() <==> {
            &&& c.size >= 2
            &&& c.data.len() == c.size * c.size * c.size
            &&& forall|i: int|
                0 <= i < 3 ==> (#[trigger] c.domain_min@[i]).bits % 0x8000_0000 < 0x7f80_0000
            &&& forall|i: int|
                0 <= i < 3 ==> (#[trigger] c.domain_max@[i]).bits % 0x8000_0000 < 0x7f80_0000
        },
{
    crate::ieee::law_single_patterns_are_ordered(c.domain_min@[0]);
    crate::ieee::law_single_patterns_are_ordered(c.domain_min@[1]);
    crate::ieee::law_single_patterns_are_ordered(c.domain_min@[2]);
    crate::ieee::law_single_patterns_are_ordered(c.domain_max@[0]);
    crate::ieee::law_single_patterns_are_ordered(c.domain_max@[1]);
    crate::ieee::law_single_patterns_are_ordered(c.domain_max@[2]);
}

} // verus!
