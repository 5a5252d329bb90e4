//! The compile-time-typed decode path: a type that knows how to decode
//! itself from a byte span, after checking that the live descriptor matches
//! its expected shape.
use vstd::prelude::*;
use vstd::string::StringExecFns;
use crate::descriptors::{Descriptor, TypePos};
use crate::errors::DecodeError;
use crate::serialization::Input;

verus! {

/// The mathematical form of a descriptor mismatch.
pub enum MismatchV {
    WrongType { unexpected: Seq<char>, expected: Seq<char> },
    WrongField { unexpected: Seq<char>, expected: Seq<char> },
    FieldNumber { unexpected: int, expected: int },
    Expected { expected: Seq<char> },
    InvalidDescriptor,
}

/// How the live descriptor differs from the shape the caller expects; enough
/// context for a human-readable diagnostic.
#[derive(Debug, PartialEq, Eq, Clone)]
pub enum DescriptorMismatch {
    WrongType { unexpected: String, expected: String },
    WrongField { unexpected: String, expected: String },
    FieldNumber { unexpected: usize, expected: usize },
    Expected { expected: String },
    InvalidDescriptor,
}

impl View for DescriptorMismatch {
    type V = MismatchV;

    open spec fn view(&self) -> MismatchV {
        match self {
            DescriptorMismatch::WrongType { unexpected, expected } => MismatchV::WrongType {
                unexpected: unexpected@,
                expected: expected@,
            },
            DescriptorMismatch::WrongField { unexpected, expected } => MismatchV::WrongField {
                unexpected: unexpected@,
                expected: expected@,
            },
            DescriptorMismatch::FieldNumber { unexpected, expected } => MismatchV::FieldNumber {
                unexpected: *unexpected as int,
                expected: *expected as int,
            },
            DescriptorMismatch::Expected { expected } => MismatchV::Expected {
                expected: expected@,
            },
            DescriptorMismatch::InvalidDescriptor => MismatchV::InvalidDescriptor,
        }
    }
}

/// Read-only, bounds-checked access into the descriptor table, and the
/// constructors of the mismatch diagnostics.
pub struct DescriptorContext<'a> {
    descriptors: &'a [Descriptor],
}

impl<'a> View for DescriptorContext<'a> {
    type V = Seq<Descriptor>;

    closed spec fn view(&self) -> Seq<Descriptor> {
        self.descriptors@
    }
}

impl<'a> DescriptorContext<'a> {
    pub fn new(descriptors: &'a [Descriptor]) -> (r: DescriptorContext<'a>)
        ensures
            r@ == descriptors@,
    {
        DescriptorContext { descriptors }
    }

    /// The descriptor at `type_pos`, or the invalid-descriptor mismatch when
    /// the position lies outside the table.
    pub fn get(&self, type_pos: TypePos) -> (r: Result<&Descriptor, DescriptorMismatch>)
        ensures
            type_pos.0 < self@.len() ==> (r matches Ok(d) && *d == self@[type_pos.0 as int]),
            type_pos.0 >= self@.len() ==> (r matches Err(m) && m@ == MismatchV::InvalidDescriptor),
    {
        if (type_pos.0 as usize) < self.descriptors.len() {
            Ok(&self.descriptors[type_pos.0 as usize])
        } else {
            Err(DescriptorMismatch::InvalidDescriptor)
        }
    }

    /// The wrong-type mismatch: the live descriptor's kind against the
    /// expected type name.
    pub fn wrong_type(&self, descriptor: &Descriptor, expected: &str) -> (r: DescriptorMismatch)
        ensures
            r@ == (MismatchV::WrongType {
                unexpected: descriptor.spec_kind_name(),
                expected: expected@,
            }),
    {
        DescriptorMismatch::WrongType {
            unexpected: String::from_str(descriptor.kind_name()),
            expected: String::from_str(expected),
        }
    }

    /// The field-count mismatch.
    pub fn field_number(&self, expected: usize, unexpected: usize) -> (r: DescriptorMismatch)
        ensures
            r@ == (MismatchV::FieldNumber {
                expected: expected as int,
                unexpected: unexpected as int,
            }),
    {
        DescriptorMismatch::FieldNumber { expected, unexpected }
    }

    /// The wrong-field mismatch.
    pub fn wrong_field(&self, expected: &str, unexpected: &str) -> (r: DescriptorMismatch)
        ensures
            r@ == (MismatchV::WrongField { expected: expected@, unexpected: unexpected@ }),
    {
        DescriptorMismatch::WrongField {
            expected: String::from_str(expected),
            unexpected: String::from_str(unexpected),
        }
    }

    /// The generic expected-shape mismatch.
    pub fn expected(&self, expected: &str) -> (r: DescriptorMismatch)
        ensures
            r@ == (MismatchV::Expected { expected: expected@ }),
    {
        DescriptorMismatch::Expected { expected: String::from_str(expected) }
    }
}

/// A type that decodes itself from a byte span and checks the live
/// descriptor against its expected shape before trusting the bytes.
pub trait Queryable: Sized + DeepView {
    /// What this type decodes from an input span.
    spec fn spec_decode(input: Option<Seq<u8>>) -> Result<Self::V, DecodeError>;

    /// Whether the descriptor at `pos` matches this type's shape.
    spec fn spec_check(descs: Seq<Descriptor>, pos: TypePos) -> Result<(), MismatchV>;

    fn decode(input: Input<'_>) -> (r: Result<Self, DecodeError>)
        ensures
            match Self::spec_decode(input@) {
                Ok(v) => r matches Ok(val) && val.deep_view() == v,
                Err(e) => r matches Err(e2) && e2 == e,
            },
    ;

    fn check_descriptor(ctx: &DescriptorContext<'_>, pos: TypePos) -> (r: Result<
        (),
        DescriptorMismatch,
    >)
        ensures
            match Self::spec_check(ctx@, pos) {
                Ok(..) => r is Ok,
                Err(m) => r matches Err(d) && d@ == m,
            },
    ;
}

/// Resolution of a scalar type: zero or more scalar-alias hops, ending at a
/// base scalar whose id matches. The fuel bounds the alias chain: a chain
/// longer than the table must revisit a position, so running out of fuel is
/// a malformed table.
pub open spec fn spec_check_scalar(
    descs: Seq<Descriptor>,
    pos: TypePos,
    type_id: u128,
    name: Seq<char>,
    fuel: nat,
) -> Result<(), MismatchV>
    decreases fuel,
{
    if pos.0 as int >= descs.len() {
        Err(MismatchV::InvalidDescriptor)
    } else {
        match descs[pos.0 as int] {
            Descriptor::Scalar(d) => if fuel == 0 {
                Err(MismatchV::InvalidDescriptor)
            } else {
                spec_check_scalar(descs, d.base_type_pos, type_id, name, (fuel - 1) as nat)
            },
            Descriptor::BaseScalar(b) => if b.id.0 == type_id {
                Ok(())
            } else {
                Err(
                    MismatchV::WrongType {
                        unexpected: descs[pos.0 as int].spec_kind_name(),
                        expected: name,
                    },
                )
            },
            _ => Err(
                MismatchV::WrongType {
                    unexpected: descs[pos.0 as int].spec_kind_name(),
                    expected: name,
                },
            ),
        }
    }
}

/// Resolves the descriptor at `type_pos` through scalar aliases down to a
/// base scalar, and insists its id is `type_id`.
pub fn check_scalar(
    ctx: &DescriptorContext<'_>,
    type_pos: TypePos,
    type_id: u128,
    name: &'static str,
) -> (r: Result<(), DescriptorMismatch>)
    ensures
        match spec_check_scalar(ctx@, type_pos, type_id, name@, ctx@.len()) {
            Ok(..) => r is Ok,
            Err(m) => r matches Err(d) && d@ == m,
        },
{
    let ghost total = ctx@.len();
    let mut fuel: usize = ctx.descriptors.len();
    let mut pos = type_pos;
    #[verifier::loop_isolation(false)]
    loop
        invariant
            fuel <= total,
            spec_check_scalar(ctx@, type_pos, type_id, name@, total) == spec_check_scalar(
                ctx@,
                pos,
                type_id,
                name@,
                fuel as nat,
            ),
        decreases fuel,
    {
        let desc = match ctx.get(pos) {
            Ok(d) => d,
            Err(e) => {
                return Err(e);
            },
        };
        match desc {
            Descriptor::Scalar(d) => {
                if fuel == 0 {
                    return Err(DescriptorMismatch::InvalidDescriptor);
                }
                fuel = fuel - 1;
                pos = d.base_type_pos;
            },
            Descriptor::BaseScalar(b) => {
                if b.id.0 == type_id {
                    return Ok(());
                } else {
                    return Err(ctx.wrong_type(desc, name));
                }
            },
            _ => {
                return Err(ctx.wrong_type(desc, name));
            },
        }
    }
}

} // verus!
