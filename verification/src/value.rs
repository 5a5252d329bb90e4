//! The dynamic value union, and the shared immutable shape metadata of
//! objects and named tuples. Floating-point scalars are carried as their raw
//! IEEE-754 bit patterns, which is exactly what travels on the wire.
use vstd::prelude::*;
use std::sync::Arc;
use crate::model::{BigInt, Decimal, Datetime, Duration, LocalDate, LocalDatetime, LocalTime, Uuid};

verus! {

/// The runtime representation of any decoded value.
#[derive(Debug)]
pub enum Value {
    Nothing,
    Uuid(Uuid),
    Str(String),
    Bytes(Vec<u8>),
    Int16(i16),
    Int32(i32),
    Int64(i64),
    /// A 32-bit IEEE-754 value, as its raw bit pattern.
    Float32(u32),
    /// A 64-bit IEEE-754 value, as its raw bit pattern.
    Float64(u64),
    BigInt(BigInt),
    Decimal(Decimal),
    Bool(bool),
    Datetime(Datetime),
    LocalDatetime(LocalDatetime),
    LocalDate(LocalDate),
    LocalTime(LocalTime),
    Duration(Duration),
    Json(String),
    SetOf(Vec<Value>),
    Object { shape: ObjectShape, fields: Vec<Option<Value>> },
    Tuple(Vec<Value>),
    NamedTuple { shape: NamedTupleShape, fields: Vec<Value> },
    Array(Vec<Value>),
    Enum(EnumValue),
}

/// An enumeration value: a string checked against its declared member set.
#[derive(Clone, Debug, PartialEq, Eq)]
pub struct EnumValue(pub String);

/// A shared, immutable object shape.
#[derive(Clone, Debug, PartialEq)]
pub struct ObjectShape(pub Arc<ObjectShapeInfo>);

/// A shared, immutable named-tuple shape.
#[derive(Clone, Debug, PartialEq)]
pub struct NamedTupleShape(pub Arc<NamedTupleShapeInfo>);

/// The field list of an object shape.
#[derive(Debug, PartialEq, Eq)]
pub struct ObjectShapeInfo {
    pub elements: Vec<ShapeElement>,
}

/// One object field: its name and its implicit/link/link-property flags.
#[derive(Debug, PartialEq, Eq)]
pub struct ShapeElement {
    pub flag_implicit: bool,
    pub flag_link_property: bool,
    pub flag_link: bool,
    pub name: String,
}

/// The field list of a named-tuple shape.
#[derive(Debug, PartialEq, Eq)]
pub struct NamedTupleShapeInfo {
    pub elements: Vec<TupleElement>,
}

/// One named-tuple field: its name.
#[derive(Debug, PartialEq, Eq)]
pub struct TupleElement {
    pub name: String,
}

// ---------------------------------------------------------------------------
// Mathematical views.
// ---------------------------------------------------------------------------
/// The mathematical form of one object field.
pub struct ShapeElementV {
    pub flag_implicit: bool,
    pub flag_link_property: bool,
    pub flag_link: bool,
    pub name: Seq<char>,
}

/// The mathematical form of a digit array integer.
pub struct BigIntV {
    pub negative: bool,
    pub weight: i16,
    pub digits: Seq<u16>,
}

/// The mathematical form of a digit array decimal.
pub struct DecimalV {
    pub negative: bool,
    pub weight: i16,
    pub decimal_digits: u16,
    pub digits: Seq<u16>,
}

/// The mathematical form of a value.
pub enum ValueV {
    Nothing,
    Uuid(u128),
    Str(Seq<char>),
    Bytes(Seq<u8>),
    Int16(i16),
    Int32(i32),
    Int64(i64),
    Float32(u32),
    Float64(u64),
    BigInt(BigIntV),
    Decimal(DecimalV),
    Bool(bool),
    Datetime(i64),
    LocalDatetime(i64),
    LocalDate(i32),
    LocalTime(u64),
    Duration(i64),
    Json(Seq<char>),
    SetOf(Seq<ValueV>),
    Object { shape: Seq<ShapeElementV>, fields: Seq<Option<ValueV>> },
    Tuple(Seq<ValueV>),
    NamedTuple { shape: Seq<Seq<char>>, fields: Seq<ValueV> },
    Array(Seq<ValueV>),
    Enum(Seq<char>),
}

impl View for ShapeElement {
    type V = ShapeElementV;

    open spec fn view(&self) -> ShapeElementV {
        ShapeElementV {
            flag_implicit: self.flag_implicit,
            flag_link_property: self.flag_link_property,
            flag_link: self.flag_link,
            name: self.name@,
        }
    }
}

impl View for ObjectShape {
    type V = Seq<ShapeElementV>;

    open spec fn view(&self) -> Seq<ShapeElementV> {
        Seq::new(self.0.elements@.len(), |i: int| self.0.elements@[i]@)
    }
}

impl View for NamedTupleShape {
    type V = Seq<Seq<char>>;

    open spec fn view(&self) -> Seq<Seq<char>> {
        Seq::new(self.0.elements@.len(), |i: int| self.0.elements@[i].name@)
    }
}

impl View for BigInt {
    type V = BigIntV;

    open spec fn view(&self) -> BigIntV {
        BigIntV { negative: self.negative, weight: self.weight, digits: self.digits@ }
    }
}

impl View for Decimal {
    type V = DecimalV;

    open spec fn view(&self) -> DecimalV {
        DecimalV {
            negative: self.negative,
            weight: self.weight,
            decimal_digits: self.decimal_digits,
            digits: self.digits@,
        }
    }
}

impl View for EnumValue {
    type V = Seq<char>;

    open spec fn view(&self) -> Seq<char> {
        self.0@
    }
}

/// The mathematical form of a sequence of values.
pub open spec fn values_view(s: Seq<Value>) -> Seq<ValueV>
    decreases s,
{
    if s.len() == 0 {
        Seq::empty()
    } else {
        seq![value_view(s[0])] + values_view(s.drop_first())
    }
}

/// The mathematical form of a sequence of optional values.
pub open spec fn opt_values_view(s: Seq<Option<Value>>) -> Seq<Option<ValueV>>
    decreases s,
{
    if s.len() == 0 {
        Seq::empty()
    } else {
        let first = match s[0] {
            Some(v) => Some(value_view(v)),
            None => None,
        };
        seq![first] + opt_values_view(s.drop_first())
    }
}

/// The mathematical form of one value.
pub open spec fn value_view(v: Value) -> ValueV
    decreases v,
{
    match v {
        Value::Nothing => ValueV::Nothing,
        Value::Uuid(u) => ValueV::Uuid(u.0),
        Value::Str(s) => ValueV::Str(s@),
        Value::Bytes(b) => ValueV::Bytes(b@),
        Value::Int16(x) => ValueV::Int16(x),
        Value::Int32(x) => ValueV::Int32(x),
        Value::Int64(x) => ValueV::Int64(x),
        Value::Float32(bits) => ValueV::Float32(bits),
        Value::Float64(bits) => ValueV::Float64(bits),
        Value::BigInt(b) => ValueV::BigInt(b@),
        Value::Decimal(d) => ValueV::Decimal(d@),
        Value::Bool(b) => ValueV::Bool(b),
        Value::Datetime(d) => ValueV::Datetime(d.spec_micros()),
        Value::LocalDatetime(d) => ValueV::LocalDatetime(d.spec_micros()),
        Value::LocalDate(d) => ValueV::LocalDate(d.spec_days()),
        Value::LocalTime(t) => ValueV::LocalTime(t.spec_micros()),
        Value::Duration(d) => ValueV::Duration(d.spec_micros()),
        Value::Json(s) => ValueV::Json(s@),
        Value::SetOf(items) => ValueV::SetOf(values_view(items@)),
        Value::Object { shape, fields } => ValueV::Object {
            shape: shape@,
            fields: opt_values_view(fields@),
        },
        Value::Tuple(items) => ValueV::Tuple(values_view(items@)),
        Value::NamedTuple { shape, fields } => ValueV::NamedTuple {
            shape: shape@,
            fields: values_view(fields@),
        },
        Value::Array(items) => ValueV::Array(values_view(items@)),
        Value::Enum(e) => ValueV::Enum(e@),
    }
}

impl View for Value {
    type V = ValueV;

    open spec fn view(&self) -> ValueV {
        value_view(*self)
    }
}

/// `values_view` maps the view over the sequence, element by element.
pub proof fn lemma_values_view(s: Seq<Value>)
    ensures
        values_view(s).len() == s.len(),
        forall|i: int| 0 <= i < s.len() ==> #[trigger] values_view(s)[i] == value_view(s[i]),
    decreases s,
{
    if s.len() > 0 {
        lemma_values_view(s.drop_first());
    }
}

/// `opt_values_view` maps the view over the sequence, element by element.
pub proof fn lemma_opt_values_view(s: Seq<Option<Value>>)
    ensures
        opt_values_view(s).len() == s.len(),
        forall|i: int|
            0 <= i < s.len() ==> #[trigger] opt_values_view(s)[i] == (match s[i] {
                Some(v) => Some(value_view(v)),
                None => None,
            }),
    decreases s,
{
    if s.len() > 0 {
        lemma_opt_values_view(s.drop_first());
    }
}

/// Appending one value appends its view.
pub proof fn lemma_values_view_push(s: Seq<Value>, v: Value)
    ensures
        values_view(s.push(v)) == values_view(s).push(value_view(v)),
{
    lemma_values_view(s);
    lemma_values_view(s.push(v));
    assert forall|i: int| 0 <= i < s.len() + 1 implies values_view(s.push(v))[i] == values_view(
        s,
    ).push(value_view(v))[i] by {
        if i < s.len() {
            assert(s.push(v)[i] == s[i]);
        } else {
            assert(s.push(v)[i] == v);
        }
    }
    assert(values_view(s.push(v)) =~= values_view(s).push(value_view(v)));
}

/// Appending one optional value appends its view.
pub proof fn lemma_opt_values_view_push(s: Seq<Option<Value>>, v: Option<Value>)
    ensures
        opt_values_view(s.push(v)) == opt_values_view(s).push(
            match v {
                Some(x) => Some(value_view(x)),
                None => None,
            },
        ),
{
    lemma_opt_values_view(s);
    lemma_opt_values_view(s.push(v));
    let pv = (match v {
        Some(x) => Some(value_view(x)),
        None => None,
    });
    assert forall|i: int| 0 <= i < s.len() + 1 implies opt_values_view(s.push(v))[i]
        == opt_values_view(s).push(pv)[i] by {
        if i < s.len() {
            assert(s.push(v)[i] == s[i]);
        } else {
            assert(s.push(v)[i] == v);
        }
    }
    assert(opt_values_view(s.push(v)) =~= opt_values_view(s).push(pv));
}

// ---------------------------------------------------------------------------
// Executable behaviour.
// ---------------------------------------------------------------------------
/// Relies on `std::sync::Arc::clone`: returns a second handle to the same
/// shared value.
#[verifier::external_body]
fn arc_clone<T>(a: &Arc<T>) -> (r: Arc<T>)
    ensures
        r == *a,
{
    Arc::clone(a)
}

impl ObjectShape {
    pub fn new(elements: Vec<ShapeElement>) -> (r: ObjectShape)
        ensures
            r@ == Seq::new(elements@.len(), |i: int| elements@[i]@),
    {
        ObjectShape(Arc::new(ObjectShapeInfo { elements }))
    }

    /// A second handle to the same shared shape.
    pub fn share(&self) -> (r: ObjectShape)
        ensures
            r@ == self@,
    {
        ObjectShape(arc_clone(&self.0))
    }

    pub fn len(&self) -> (r: usize)
        ensures
            r == self@.len(),
    {
        self.0.elements.len()
    }

    /// Whether two shapes agree field for field.
    pub fn same_shape(&self, other: &ObjectShape) -> (r: bool)
        ensures
            r == (self@ == other@),
    {
        let n = self.0.elements.len();
        if n != other.0.elements.len() {
            proof {
                assert(self@.len() != other@.len());
            }
            return false;
        }
        let mut i: usize = 0;
        while i < n
            invariant
                0 <= i <= n,
                n == self@.len() == other@.len(),
                forall|j: int| 0 <= j < i ==> self@[j] == other@[j],
            decreases n - i,
        {
            let a = &self.0.elements[i];
            let b = &other.0.elements[i];
            if a.flag_implicit != b.flag_implicit || a.flag_link_property != b.flag_link_property
                || a.flag_link != b.flag_link || !a.name.eq(&b.name) {
                proof {
                    assert(self@[i as int] != other@[i as int]);
                }
                return false;
            }
            proof {
                assert(self@[i as int] == other@[i as int]);
            }
            i = i + 1;
        }
        proof {
            assert(self@ =~= other@);
        }
        true
    }
}

impl NamedTupleShape {
    pub fn new(elements: Vec<TupleElement>) -> (r: NamedTupleShape)
        ensures
            r@ == Seq::new(elements@.len(), |i: int| elements@[i].name@),
    {
        NamedTupleShape(Arc::new(NamedTupleShapeInfo { elements }))
    }

    /// A second handle to the same shared shape.
    pub fn share(&self) -> (r: NamedTupleShape)
        ensures
            r@ == self@,
    {
        NamedTupleShape(arc_clone(&self.0))
    }

    pub fn len(&self) -> (r: usize)
        ensures
            r == self@.len(),
    {
        self.0.elements.len()
    }

    /// Whether two shapes agree field name for field name.
    pub fn same_shape(&self, other: &NamedTupleShape) -> (r: bool)
        ensures
            r == (self@ == other@),
    {
        let n = self.0.elements.len();
        if n != other.0.elements.len() {
            proof {
                assert(self@.len() != other@.len());
            }
            return false;
        }
        let mut i: usize = 0;
        while i < n
            invariant
                0 <= i <= n,
                n == self@.len() == other@.len(),
                forall|j: int| 0 <= j < i ==> self@[j] == other@[j],
            decreases n - i,
        {
            if !self.0.elements[i].name.eq(&other.0.elements[i].name) {
                proof {
                    assert(self@[i as int] != other@[i as int]);
                }
                return false;
            }
            proof {
                assert(self@[i as int] == other@[i as int]);
            }
            i = i + 1;
        }
        proof {
            assert(self@ =~= other@);
        }
        true
    }
}

impl Value {
    /// A short name of the value's variant, for diagnostics.
    pub fn kind(&self) -> (r: &'static str)
        ensures
            r@ == self.spec_kind(),
    {
        match self {
            Value::Nothing => "nothing",
            Value::Uuid(..) => "uuid",
            Value::Str(..) => "string",
            Value::Bytes(..) => "bytes",
            Value::Int16(..) => "int16",
            Value::Int32(..) => "int32",
            Value::Int64(..) => "int64",
            Value::Float32(..) => "float32",
            Value::Float64(..) => "float64",
            Value::BigInt(..) => "bigint",
            Value::Decimal(..) => "decimal",
            Value::Bool(..) => "bool",
            Value::Datetime(..) => "datetime",
            Value::LocalDatetime(..) => "cal::local_datetime",
            Value::LocalDate(..) => "cal::local_date",
            Value::LocalTime(..) => "cal::local_time",
            Value::Duration(..) => "duration",
            Value::Json(..) => "json",
            Value::SetOf(..) => "set",
            Value::Object { .. } => "object",
            Value::Tuple(..) => "tuple",
            Value::NamedTuple { .. } => "named_tuple",
            Value::Array(..) => "array",
            Value::Enum(..) => "enum",
        }
    }

    pub open spec fn spec_kind(&self) -> Seq<char> {
        match self {
            Value::Nothing => "nothing"@,
            Value::Uuid(..) => "uuid"@,
            Value::Str(..) => "string"@,
            Value::Bytes(..) => "bytes"@,
            Value::Int16(..) => "int16"@,
            Value::Int32(..) => "int32"@,
            Value::Int64(..) => "int64"@,
            Value::Float32(..) => "float32"@,
            Value::Float64(..) => "float64"@,
            Value::BigInt(..) => "bigint"@,
            Value::Decimal(..) => "decimal"@,
            Value::Bool(..) => "bool"@,
            Value::Datetime(..) => "datetime"@,
            Value::LocalDatetime(..) => "cal::local_datetime"@,
            Value::LocalDate(..) => "cal::local_date"@,
            Value::LocalTime(..) => "cal::local_time"@,
            Value::Duration(..) => "duration"@,
            Value::Json(..) => "json"@,
            Value::SetOf(..) => "set"@,
            Value::Object { .. } => "object"@,
            Value::Tuple(..) => "tuple"@,
            Value::NamedTuple { .. } => "named_tuple"@,
            Value::Array(..) => "array"@,
            Value::Enum(..) => "enum"@,
        }
    }

    /// The zero-element tuple value.
    pub fn empty_tuple() -> (r: Value)
        ensures
            r@ == ValueV::Tuple(Seq::<ValueV>::empty()),
    {
        Value::Tuple(Vec::new())
    }
}

// ---------------------------------------------------------------------------
// Structural equality of values, decided recursively.
// ---------------------------------------------------------------------------
/// Whether two byte strings hold the same bytes.
fn vec_u8_eq(a: &Vec<u8>, b: &Vec<u8>) -> (r: bool)
    ensures
        r == (a@ == b@),
{
    let n = a.len();
    if n != b.len() {
        return false;
    }
    let mut i: usize = 0;
    while i < n
        invariant
            i <= n,
            n == a@.len() == b@.len(),
            forall|j: int| 0 <= j < i ==> a@[j] == b@[j],
        decreases n - i,
    {
        if a[i] != b[i] {
            return false;
        }
        i = i + 1;
    }
    proof {
        assert(a@ =~= b@);
    }
    true
}

/// Whether two digit arrays hold the same digits.
fn vec_u16_eq(a: &Vec<u16>, b: &Vec<u16>) -> (r: bool)
    ensures
        r == (a@ == b@),
{
    let n = a.len();
    if n != b.len() {
        return false;
    }
    let mut i: usize = 0;
    while i < n
        invariant
            i <= n,
            n == a@.len() == b@.len(),
            forall|j: int| 0 <= j < i ==> a@[j] == b@[j],
        decreases n - i,
    {
        if a[i] != b[i] {
            return false;
        }
        i = i + 1;
    }
    proof {
        assert(a@ =~= b@);
    }
    true
}

/// Whether two value sequences agree element for element.
fn values_eq(a: &Vec<Value>, b: &Vec<Value>) -> (r: bool)
    ensures
        r == (values_view(a@) == values_view(b@)),
    decreases a@, 2int,
{
    proof {
        lemma_values_view(a@);
        lemma_values_view(b@);
    }
    let n = a.len();
    if n != b.len() {
        proof {
            assert(values_view(a@).len() != values_view(b@).len());
        }
        return false;
    }
    let mut i: usize = 0;
    while i < n
        invariant
            i <= n,
            n == a@.len() == b@.len(),
            values_view(a@).len() == n && values_view(b@).len() == n,
            forall|j: int| 0 <= j < n ==> #[trigger] values_view(a@)[j] == value_view(a@[j]),
            forall|j: int| 0 <= j < n ==> #[trigger] values_view(b@)[j] == value_view(b@[j]),
            forall|j: int| 0 <= j < i ==> values_view(a@)[j] == values_view(b@)[j],
        decreases n - i,
    {
        if !value_eq(&a[i], &b[i]) {
            proof {
                assert(values_view(a@)[i as int] != values_view(b@)[i as int]);
            }
            return false;
        }
        i = i + 1;
    }
    proof {
        assert(values_view(a@) =~= values_view(b@));
    }
    true
}

/// Whether two optional-value sequences agree slot for slot, absence
/// included.
fn opt_values_eq(a: &Vec<Option<Value>>, b: &Vec<Option<Value>>) -> (r: bool)
    ensures
        r == (opt_values_view(a@) == opt_values_view(b@)),
    decreases a@, 2int,
{
    proof {
        lemma_opt_values_view(a@);
        lemma_opt_values_view(b@);
    }
    let n = a.len();
    if n != b.len() {
        proof {
            assert(opt_values_view(a@).len() != opt_values_view(b@).len());
        }
        return false;
    }
    let mut i: usize = 0;
    while i < n
        invariant
            i <= n,
            n == a@.len() == b@.len(),
            opt_values_view(a@).len() == n && opt_values_view(b@).len() == n,
            forall|j: int|
                0 <= j < n ==> #[trigger] opt_values_view(a@)[j] == (match a@[j] {
                    Some(v) => Some(value_view(v)),
                    None => None,
                }),
            forall|j: int|
                0 <= j < n ==> #[trigger] opt_values_view(b@)[j] == (match b@[j] {
                    Some(v) => Some(value_view(v)),
                    None => None,
                }),
            forall|j: int| 0 <= j < i ==> opt_values_view(a@)[j] == opt_values_view(b@)[j],
        decreases n - i,
    {
        let same = match (&a[i], &b[i]) {
            (None, None) => true,
            (Some(x), Some(y)) => value_eq(x, y),
            _ => false,
        };
        if !same {
            proof {
                assert(opt_values_view(a@)[i as int] != opt_values_view(b@)[i as int]);
            }
            return false;
        }
        i = i + 1;
    }
    proof {
        assert(opt_values_view(a@) =~= opt_values_view(b@));
    }
    true
}

/// Whether two values are structurally equal: the same variant with equal
/// contents, shapes compared field for field.
pub fn value_eq(a: &Value, b: &Value) -> (r: bool)
    ensures
        r == (a@ == b@),
    decreases *a, 3int,
{
    match (a, b) {
        (Value::Nothing, Value::Nothing) => true,
        (Value::Uuid(x), Value::Uuid(y)) => x.0 == y.0,
        (Value::Str(x), Value::Str(y)) => x.eq(y),
        (Value::Bytes(x), Value::Bytes(y)) => vec_u8_eq(x, y),
        (Value::Int16(x), Value::Int16(y)) => x == y,
        (Value::Int32(x), Value::Int32(y)) => x == y,
        (Value::Int64(x), Value::Int64(y)) => x == y,
        (Value::Float32(x), Value::Float32(y)) => x == y,
        (Value::Float64(x), Value::Float64(y)) => x == y,
        (Value::BigInt(x), Value::BigInt(y)) => x.negative == y.negative && x.weight == y.weight
            && vec_u16_eq(&x.digits, &y.digits),
        (Value::Decimal(x), Value::Decimal(y)) => x.negative == y.negative && x.weight == y.weight
            && x.decimal_digits == y.decimal_digits && vec_u16_eq(&x.digits, &y.digits),
        (Value::Bool(x), Value::Bool(y)) => x == y,
        (Value::Datetime(x), Value::Datetime(y)) => x.to_micros() == y.to_micros(),
        (Value::LocalDatetime(x), Value::LocalDatetime(y)) => x.to_micros() == y.to_micros(),
        (Value::LocalDate(x), Value::LocalDate(y)) => x.to_days() == y.to_days(),
        (Value::LocalTime(x), Value::LocalTime(y)) => x.to_micros() == y.to_micros(),
        (Value::Duration(x), Value::Duration(y)) => x.to_micros() == y.to_micros(),
        (Value::Json(x), Value::Json(y)) => x.eq(y),
        (Value::SetOf(x), Value::SetOf(y)) => values_eq(x, y),
        (
            Value::Object { shape: sa, fields: fa },
            Value::Object { shape: sb, fields: fb },
        ) => sa.same_shape(sb) && opt_values_eq(fa, fb),
        (Value::Tuple(x), Value::Tuple(y)) => values_eq(x, y),
        (
            Value::NamedTuple { shape: sa, fields: fa },
            Value::NamedTuple { shape: sb, fields: fb },
        ) => sa.same_shape(sb) && values_eq(fa, fb),
        (Value::Array(x), Value::Array(y)) => values_eq(x, y),
        (Value::Enum(x), Value::Enum(y)) => x.0.eq(&y.0),
        _ => false,
    }
}

} // verus!
