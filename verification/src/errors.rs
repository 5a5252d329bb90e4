//! Typed errors: every failure of decoding, encoding or codec construction is
//! returned to the caller as one of these classifications.
use vstd::prelude::*;

verus! {

/// A value fell outside the representable range of its type.
#[derive(Clone, Copy, Debug, PartialEq, Eq, Structural)]
pub struct OutOfRangeError;

/// Classification of a failure while decoding wire bytes into a value.
#[derive(Clone, Copy, Debug, PartialEq, Eq, Structural)]
pub enum DecodeError {
    /// Fewer bytes than a fixed-size type requires.
    Underflow,
    /// More bytes than expected for an exact-size type.
    ExtraData,
    /// A string payload was not valid UTF-8.
    InvalidUtf8,
    /// A boolean byte other than 0x00 or 0x01.
    InvalidBool,
    /// A JSON format tag other than 1.
    InvalidJsonFormat,
    /// A reserved field that must be zero was not.
    NonZeroReservedBytes,
    /// A sign field that was neither positive nor negative.
    BadSign,
    /// An out-of-range calendar value.
    InvalidDate,
    /// An enumeration string not present in the declared member set.
    ExtraEnumValue,
    /// A null element where a value was expected.
    MissingRequiredElement,
    /// A tuple-like element count that differs from the codec's shape.
    ObjectSizeMismatch,
    /// An array-like header whose dimension count is neither zero nor one.
    InvalidArrayShape,
}

/// Classification of a failure while encoding a value into wire bytes.
#[derive(Clone, Copy, Debug, PartialEq, Eq, Structural)]
pub enum EncodeError {
    /// The value's variant does not match the codec's kind.
    InvalidValue,
    /// The object value's shape differs from the codec's shape.
    ObjectShapeMismatch,
    /// The tuple value's shape differs from the codec's shape.
    TupleShapeMismatch,
    /// More elements than the 32-bit count field can carry.
    TooManyElements,
    /// One element's byte length exceeds the 32-bit length field.
    ElementTooLong,
    /// More array elements than the 32-bit bound field can carry.
    ArrayTooLong,
    /// A digit array longer than the 16-bit digit-count field can carry.
    BigIntTooLong,
    /// An enumeration string not present in the declared member set.
    MissingEnumValue,
}

/// Classification of a failure while building a codec from a descriptor table.
#[derive(Clone, Copy, Debug, PartialEq, Eq, Structural)]
pub enum CodecError {
    /// A referenced descriptor position lies outside the table.
    UnexpectedTypePos { position: u16 },
    /// A base-scalar type id that no scalar codec is defined for.
    UndefinedBaseScalar { uuid: u128 },
    /// A descriptor that reaches itself through its own references.
    RecursiveDescriptor { position: u16 },
    /// A type-annotation node, which the caller must strip before building.
    UnexpectedAnnotation { position: u16 },
}

} // verus!
