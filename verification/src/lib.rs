//! Value codec for a self-describing binary wire protocol: scalar wire
//! layouts, composite framing, and codec trees compiled from runtime type
//! descriptors.
pub mod codec;
pub mod codecs;
pub mod decode_composite;
pub mod descriptors;
pub mod encode_composite;
pub mod errors;
pub mod model;
pub mod queryable;
pub mod roundtrip;
pub mod scalars;
pub mod serialization;
pub mod type_ids;
pub mod value;
pub mod wire;
