//! Node parameters: named scalar values, validated and looked up by name.

use vstd::prelude::*;

use crate::ieee::law_widening_is_exact;
use crate::ieee::Double;
use crate::ieee::Single;

verus! {

/// A parameter's type.
#[derive(Clone, Copy, Debug, PartialEq, Eq, Structural)]
pub enum ParamKind {
    /// A double.
    Float,
    /// A signed integer.
    Int,
    /// A truth value.
    Bool,
    /// Text.
    Text,
}

/// One declared parameter of a node.
#[derive(Clone, Copy, Debug, PartialEq, Eq)]
pub struct FieldDecl {
    /// Its name.
    pub name: &'static str,
    /// Its type.
    pub kind: ParamKind,
}

/// A parameter's value.
#[derive(Clone, Debug, PartialEq, Eq)]
pub enum ParamValue {
    /// A double.
    Float(Double),
    /// A signed integer.
    Int(i64),
    /// A truth value.
    Bool(bool),
    /// Text.
    Text(String),
}

/// One named value.
#[derive(Clone, Debug, PartialEq, Eq)]
pub struct Field {
    /// Its name.
    pub name: &'static str,
    /// Its value.
    pub value: ParamValue,
}

/// A value, mathematically.
pub enum Value {
    /// A double.
    Float(Double),
    /// A signed integer.
    Int(i64),
    /// A truth value.
    Bool(bool),
    /// Text.
    Text(Seq<char>),
}

/// A named value, mathematically.
pub struct Named {
    /// The name.
    pub name: Seq<char>,
    /// The value.
    pub value: Value,
}

impl View for ParamValue {
    type V = Value;

    open spec fn view(&self) -> Value {
        match self {
            ParamValue::Float(d) => Value::Float(*d),
            ParamValue::Int(i) => Value::Int(*i),
            ParamValue::Bool(b) => Value::Bool(*b),
            ParamValue::Text(t) => Value::Text(t@),
        }
    }
}

impl View for Field {
    type V = Named;

    open spec fn view(&self) -> Named {
        Named { name: self.name@, value: self.value@ }
    }
}

impl Value {
    /// The value's type.
    pub open spec fn kind(self) -> ParamKind {
        match self {
            Value::Float(_) => ParamKind::Float,
            Value::Int(_) => ParamKind::Int,
            Value::Bool(_) => ParamKind::Bool,
            Value::Text(_) => ParamKind::Text,
        }
    }

    /// Not an infinity and not a NaN.
    pub open spec fn admissible(self) -> bool {
        self matches Value::Float(d) ==> d.finite()
    }
}

/// The named values of a list of fields.
pub open spec fn named(fields: Seq<Field>) -> Seq<Named> {
    Seq::new(fields.len(), |i: int| fields[i]@)
}

/// A declared parameter, mathematically.
pub struct Declared {
    /// The name.
    pub name: Seq<char>,
    /// The type.
    pub kind: ParamKind,
}

/// The declared parameters of a list of declarations.
pub open spec fn declared(fields: Seq<FieldDecl>) -> Seq<Declared> {
    Seq::new(fields.len(), |i: int| Declared { name: fields[i].name@, kind: fields[i].kind })
}

/// Every value is declared, under its name and with its type.
pub open spec fn conforms(block: Seq<Named>, schema: Seq<Declared>) -> bool {
    forall|i: int|
        0 <= i < block.len() ==> schema.contains(
            Declared { name: (#[trigger] block[i]).name, kind: block[i].value.kind() },
        )
}

/// The value of the first field called `name`.
pub open spec fn lookup(block: Seq<Named>, name: Seq<char>) -> Option<Value>
    decreases block.len(),
{
    if block.len() == 0 {
        None
    } else if block[0].name == name {
        Some(block[0].value)
    } else {
        lookup(block.skip(1), name)
    }
}

/// The double called `name`.
pub open spec fn lookup_float(block: Seq<Named>, name: Seq<char>) -> Option<Double> {
    match lookup(block, name) {
        Some(Value::Float(d)) => Some(d),
        _ => None,
    }
}

/// The double called `name`, or else `default`.
pub open spec fn lookup_float_or(block: Seq<Named>, name: Seq<char>, default: Double) -> Double {
    match lookup_float(block, name) {
        Some(d) => d,
        None => default,
    }
}

/// The integer called `name`.
pub open spec fn lookup_int(block: Seq<Named>, name: Seq<char>) -> Option<i64> {
    match lookup(block, name) {
        Some(Value::Int(i)) => Some(i),
        _ => None,
    }
}

/// The text called `name`.
pub open spec fn lookup_text(block: Seq<Named>, name: Seq<char>) -> Option<Seq<char>> {
    match lookup(block, name) {
        Some(Value::Text(t)) => Some(t),
        _ => None,
    }
}

/// Why fields make no parameter block.
#[derive(Clone, Copy, Debug, PartialEq, Eq, Structural)]
pub enum ParamError {
    /// A value is an infinity or a NaN.
    NotFinite,
}

/// A node's validated parameters: no value is an infinity or a NaN.
#[derive(Clone, Debug, PartialEq, Eq)]
pub struct ParamBlock {
    fields: Vec<Field>,
}

impl View for ParamBlock {
    type V = Seq<Named>;

    closed spec fn view(&self) -> Seq<Named> {
        named(self.fields@)
    }
}

/// Whether two strings hold the same characters.
pub fn same_text(a: &str, b: &str) -> (r: bool)
    ensures
        r == (a@ == b@),
{
    let a: String = a.to_owned();
    let b: String = b.to_owned();
    a.eq(&b)
}

impl ParamBlock {
    /// A block of the given fields, unless one of them is not finite.
    pub fn from_fields(fields: Vec<Field>) -> (r: Result<ParamBlock, ParamError>)
        ensures
            match r {
                Ok(b) => {
                    &&& b@ == named(fields@)
                    &&& forall|i: int|
                        0 <= i < fields.len() ==> (#[trigger] fields[i]).value@.admissible()
                },
                Err(ParamError::NotFinite) => exists|i: int|
                    0 <= i < fields.len() && !(#[trigger] fields[i]).value@.admissible(),
            },
    {
        let mut i: usize = 0;
        while i < fields.len()
            invariant
                i <= fields.len(),
                forall|k: int| 0 <= k < i ==> (#[trigger] fields[k]).value@.admissible(),
            decreases fields.len() - i,
        {
            if let ParamValue::Float(d) = &fields[i].value {
                if !d.is_finite() {
                    assert(!fields[i as int].value@.admissible());
                    return Err(ParamError::NotFinite);
                }
            }
            i = i + 1;
        }
        Ok(ParamBlock { fields })
    }

    /// The index of the first field called `name`.
    fn find(&self, name: &str) -> (r: Option<usize>)
        ensures
            match r {
                Some(i) => i < self.fields.len() && lookup(self@, name@) == Some(
                    self.fields[i as int].value@,
                ),
                None => lookup(self@, name@) is None,
            },
    {
        let mut i: usize = 0;
        assert(self@.skip(0) =~= self@);
        while i < self.fields.len()
            invariant
                i <= self.fields.len(),
                lookup(self@, name@) == lookup(self@.skip(i as int), name@),
            decreases self.fields.len() - i,
        {
            assert(self@.skip(i as int)[0] == self.fields[i as int]@);
            if same_text(self.fields[i].name, name) {
                return Some(i);
            }
            assert(self@.skip(i as int).skip(1) =~= self@.skip(i as int + 1));
            i = i + 1;
        }
        None
    }

    /// The double called `name`.
    pub fn get_f64(&self, name: &str) -> (r: Option<Double>)
        ensures
            r == lookup_float(self@, name@),
    {
        match self.find(name) {
            Some(i) => match &self.fields[i].value {
                ParamValue::Float(d) => Some(*d),
                _ => None,
            },
            None => None,
        }
    }

    /// The double called `name`, or else `default`.
    pub fn get_f64_or(&self, name: &str, default: Double) -> (r: Double)
        ensures
            r == lookup_float_or(self@, name@, default),
    {
        match self.get_f64(name) {
            Some(d) => d,
            None => default,
        }
    }

    /// The integer called `name`.
    pub fn get_i64(&self, name: &str) -> (r: Option<i64>)
        ensures
            r == lookup_int(self@, name@),
    {
        match self.find(name) {
            Some(i) => match &self.fields[i].value {
                ParamValue::Int(v) => Some(*v),
                _ => None,
            },
            None => None,
        }
    }

    /// The text called `name`.
    pub fn get_str(&self, name: &str) -> (r: Option<&str>)
        ensures
            match r {
                Some(t) => lookup_text(self@, name@) == Some(t@),
                None => lookup_text(self@, name@) is None,
            },
    {
        match self.find(name) {
            Some(i) => match &self.fields[i].value {
                ParamValue::Text(t) => Some(t.as_str()),
                _ => None,
            },
            None => None,
        }
    }

    /// Whether every value is declared in `schema`, under its name and with its
    /// type.
    pub fn conforms_to(&self, schema: &Vec<FieldDecl>) -> (r: bool)
        ensures
            r == conforms(self@, declared(schema@)),
    {
        let ghost decls = declared(schema@);
        let mut i: usize = 0;
        while i < self.fields.len()
            invariant
                i <= self.fields.len(),
                decls == declared(schema@),
                forall|k: int|
                    0 <= k < i ==> decls.contains(
                        Declared { name: (#[trigger] self@[k]).name, kind: self@[k].value.kind() },
                    ),
            decreases self.fields.len() - i,
        {
            let kind: ParamKind = match &self.fields[i].value {
                ParamValue::Float(_) => ParamKind::Float,
                ParamValue::Int(_) => ParamKind::Int,
                ParamValue::Bool(_) => ParamKind::Bool,
                ParamValue::Text(_) => ParamKind::Text,
            };
            let ghost wanted = Declared { name: self@[i as int].name, kind };
            let mut found: bool = false;
            let mut j: usize = 0;
            while j < schema.len()
                invariant
                    j <= schema.len(),
                    i < self.fields.len(),
                    decls == declared(schema@),
                    wanted == (Declared { name: self.fields[i as int].name@, kind }),
                    found ==> decls.contains(wanted),
                    !found ==> forall|k: int| 0 <= k < j ==> #[trigger] decls[k] != wanted,
                decreases schema.len() - j,
            {
                if schema[j].kind == kind && same_text(schema[j].name, self.fields[i].name) {
                    assert(decls[j as int] == wanted);
                    found = true;
                }
                j = j + 1;
            }
            if !found {
                assert(!decls.contains(wanted));
                assert(wanted == (Declared {
                    name: self@[i as int].name,
                    kind: self@[i as int].value.kind(),
                }));
                return false;
            }
            i = i + 1;
        }
        true
    }
}

/// A single-precision field, mathematically.
pub open spec fn float_of(name: Seq<char>, v: Single) -> Named {
    Named { name, value: Value::Float(v.as_double()) }
}

/// A single-precision field.
pub fn float_field(name: &'static str, v: Single) -> (r: Field)
    ensures
        r@ == float_of(name@, v),
        v.finite() ==> r.value@.admissible(),
{
    proof {
        law_widening_is_exact(v);
    }
    Field { name, value: ParamValue::Float(v.widen()) }
}

/// A block of fields that are known to be finite.
pub fn block_of(fields: Vec<Field>) -> (r: ParamBlock)
    requires
        forall|i: int| 0 <= i < fields.len() ==> (#[trigger] fields[i]).value@.admissible(),
    ensures
        r@ == named(fields@),
{
    ParamBlock::from_fields(fields).unwrap()
}

/// Looking up a field that no earlier field hides.
pub proof fn lemma_lookup_at(block: Seq<Named>, i: int)
    requires
        0 <= i < block.len(),
        forall|k: int| 0 <= k < i ==> (#[trigger] block[k]).name != block[i].name,
    ensures
        lookup(block, block[i].name) == Some(block[i].value),
    decreases i,
{
    if i > 0 {
        assert(block[0].name != block[i].name);
        let rest = block.skip(1);
        assert forall|k: int| 0 <= k < i - 1 implies (#[trigger] rest[k]).name != rest[i
            - 1].name by {
            assert(block[k + 1].name != block[i].name);
        }
        lemma_lookup_at(rest, i - 1);
    }
}

/// A value is found under its name, the first one where there are several, and
/// only as what it is.
pub proof fn law_values_are_found_as_what_they_are(block: Seq<Named>, i: int)
    requires
        0 <= i < block.len(),
        forall|k: int| 0 <= k < i ==> (#[trigger] block[k]).name != block[i].name,
    ensures
        block[i].value matches Value::Float(d) ==> lookup_float(block, block[i].name) == Some(d)
            && lookup_int(block, block[i].name) is None && lookup_text(block, block[i].name)
            is None,
        block[i].value matches Value::Int(v) ==> lookup_int(block, block[i].name) == Some(v)
            && lookup_float(block, block[i].name) is None && lookup_text(block, block[i].name)
            is None,
        block[i].value matches Value::Text(t) ==> lookup_text(block, block[i].name) == Some(t)
            && lookup_float(block, block[i].name) is None && lookup_int(block, block[i].name)
            is None,
        block[i].value is Bool ==> lookup_float(block, block[i].name) is None && lookup_int(
            block,
            block[i].name,
        ) is None && lookup_text(block, block[i].name) is None,
{
    lemma_lookup_at(block, i);
}

/// Under a name that no field has nothing is found, and the default stands in.
pub proof fn law_missing_values_are_not_found(block: Seq<Named>, name: Seq<char>, default: Double)
    requires
        forall|k: int| 0 <= k < block.len() ==> (#[trigger] block[k]).name != name,
    ensures
        lookup_float(block, name) is None,
        lookup_int(block, name) is None,
        lookup_text(block, name) is None,
        lookup_float_or(block, name, default) == default,
    decreases block.len(),
{
    if block.len() > 0 {
        assert(block[0].name != name);
        let rest = block.skip(1);
        assert forall|k: int| 0 <= k < rest.len() implies (#[trigger] rest[k]).name != name by {
            assert(block[k + 1].name != name);
        }
        law_missing_values_are_not_found(rest, name, default);
    }
}

/// Only an infinity or a NaN is refused; every other value is taken.
pub proof fn law_only_numbers_without_a_value_are_refused(v: Value)
    ensures
        v.admissible() <==> (v matches Value::Float(d) ==> d.bits % 0x8000_0000_0000_0000
            < 0x7ff0_0000_0000_0000),
        v is Float <==> v.kind() is Float,
        v is Int <==> v.kind() is Int,
        v is Bool <==> v.kind() is Bool,
        v is Text <==> v.kind() is Text,
{
    if let Value::Float(d) = v {
        crate::ieee::law_double_patterns_are_ordered(d);
    }
}

/// A recipe's number is carried as the double of the same value.
pub proof fn law_numbers_are_carried_exactly(name: Seq<char>, s: Single)
    ensures
        float_of(name, s).name == name,
        float_of(name, s).value == Value::Float(s.as_double()),
{
}

/// One value that is not declared under its name and with its type is enough for
/// a block not to conform.
pub proof fn law_undeclared_values_do_not_conform(block: Seq<Named>, schema: Seq<Declared>, i: int)
    requires
        0 <= i < block.len(),
        forall|k: int|
            0 <= k < schema.len() ==> (#[trigger] schema[k]).name != block[i].name || schema[k].kind
                != block[i].value.kind(),
    ensures
        !conforms(block, schema),
{
    let wanted = Declared { name: block[i].name, kind: block[i].value.kind() };
    if schema.contains(wanted) {
        let k = choose|k: int| 0 <= k < schema.len() && schema[k] == wanted;
        assert(schema[k].name != block[i].name || schema[k].kind != block[i].value.kind());
    }
}

} // verus!
