//! The type descriptor catalog: an ordered, immutable table of descriptor
//! nodes delivered by the connection layer. Nodes reference one another by
//! position into the same table.
use vstd::prelude::*;
use crate::model::Uuid;

verus! {

/// A position (index) into the descriptor table.
#[derive(Clone, Copy, Debug, PartialEq, Eq, Structural)]
pub struct TypePos(pub u16);

/// One node of the descriptor table.
#[derive(Clone, Debug, PartialEq)]
pub enum Descriptor {
    BaseScalar(BaseScalarTypeDescriptor),
    Scalar(ScalarTypeDescriptor),
    SetOf(SetDescriptor),
    ObjectShape(ObjectShapeDescriptor),
    Tuple(TupleTypeDescriptor),
    NamedTuple(NamedTupleTypeDescriptor),
    Array(ArrayTypeDescriptor),
    Enumeration(EnumerationTypeDescriptor),
    TypeAnnotation(TypeAnnotationDescriptor),
}

/// A scalar type identified directly by its fixed 128-bit type id.
#[derive(Clone, Copy, Debug, PartialEq, Eq, Structural)]
pub struct BaseScalarTypeDescriptor {
    pub id: Uuid,
}

/// A scalar alias: refers to its base type by position.
#[derive(Clone, Copy, Debug, PartialEq, Eq, Structural)]
pub struct ScalarTypeDescriptor {
    pub id: Uuid,
    pub base_type_pos: TypePos,
}

/// A set over one element type.
#[derive(Clone, Copy, Debug, PartialEq, Eq, Structural)]
pub struct SetDescriptor {
    pub id: Uuid,
    pub type_pos: TypePos,
}

/// An array over one element type.
#[derive(Clone, Copy, Debug, PartialEq, Eq, Structural)]
pub struct ArrayTypeDescriptor {
    pub id: Uuid,
    pub type_pos: TypePos,
}

/// An object shape: named, flagged fields, each with an element type.
#[derive(Clone, Debug, PartialEq)]
pub struct ObjectShapeDescriptor {
    pub id: Uuid,
    pub elements: Vec<ShapeElement>,
}

/// One field of an object shape descriptor.
#[derive(Clone, Debug, PartialEq)]
pub struct ShapeElement {
    pub flag_implicit: bool,
    pub flag_link_property: bool,
    pub flag_link: bool,
    pub name: String,
    pub type_pos: TypePos,
}

/// An unnamed tuple: element types by position only.
#[derive(Clone, Debug, PartialEq)]
pub struct TupleTypeDescriptor {
    pub id: Uuid,
    pub element_types: Vec<TypePos>,
}

/// A named tuple: each element carries a field name.
#[derive(Clone, Debug, PartialEq)]
pub struct NamedTupleTypeDescriptor {
    pub id: Uuid,
    pub elements: Vec<TupleElement>,
}

/// One element of a named tuple descriptor.
#[derive(Clone, Debug, PartialEq)]
pub struct TupleElement {
    pub name: String,
    pub type_pos: TypePos,
}

/// An enumeration: the declared member strings.
#[derive(Clone, Debug, PartialEq)]
pub struct EnumerationTypeDescriptor {
    pub id: Uuid,
    pub members: Vec<String>,
}

/// An annotation node; the caller strips these before building codecs.
#[derive(Clone, Debug, PartialEq)]
pub struct TypeAnnotationDescriptor {
    pub annotated_type: Uuid,
    pub annotation: String,
}

impl Descriptor {
    /// A short name of the node's kind, for diagnostics.
    pub fn kind_name(&self) -> (r: &'static str)
        ensures
            r@ == self.spec_kind_name(),
    {
        match self {
            Descriptor::BaseScalar(..) => "base scalar",
            Descriptor::Scalar(..) => "scalar",
            Descriptor::SetOf(..) => "set",
            Descriptor::ObjectShape(..) => "object shape",
            Descriptor::Tuple(..) => "tuple",
            Descriptor::NamedTuple(..) => "named tuple",
            Descriptor::Array(..) => "array",
            Descriptor::Enumeration(..) => "enum",
            Descriptor::TypeAnnotation(..) => "type annotation",
        }
    }

    pub open spec fn spec_kind_name(&self) -> Seq<char> {
        match self {
            Descriptor::BaseScalar(..) => "base scalar"@,
            Descriptor::Scalar(..) => "scalar"@,
            Descriptor::SetOf(..) => "set"@,
            Descriptor::ObjectShape(..) => "object shape"@,
            Descriptor::Tuple(..) => "tuple"@,
            Descriptor::NamedTuple(..) => "named tuple"@,
            Descriptor::Array(..) => "array"@,
            Descriptor::Enumeration(..) => "enum"@,
            Descriptor::TypeAnnotation(..) => "type annotation"@,
        }
    }
}

} // verus!
