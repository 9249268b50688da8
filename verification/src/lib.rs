//! Scalar fields of Protobuf messages whose types may be registered with
//! Amino.
//!
//! A field is described by annotations: its scalar type, a tag, a label,
//! `packed`, a default, and the name that its type is registered under.
//! [`Field::new`] reads them and builds the field's descriptor, or says
//! which annotation it refuses. The descriptor then tells how the field
//! is encoded, merged, measured, cleared, made and shown: each as a plan
//! that names the primitive of the field's codec and the condition on
//! which it is called.
//!
//! Literals and paths are read by `syn`. Everything else is verified.
pub mod codec;
pub mod decimal;
pub mod default_value;
pub mod error;
pub mod field;
pub mod literal;
pub mod meta;
pub mod order;
pub mod path;
pub mod round_trip;
pub mod shape;
pub mod text;
pub mod ty;

pub use default_value::DefaultValue;
pub use error::Error;
pub use field::{Field, Kind};
pub use literal::Lit;
pub use meta::{Label, Meta, NestedMeta};
pub use ty::Ty;
