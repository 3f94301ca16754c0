//! Decoder for the HPROF binary heap-dump format produced by Java and
//! Android virtual machines.
//!
//! The decoder is a bounds-checked cursor over a byte buffer, a header
//! parser, a top-level record dispatcher, and a nested sub-record
//! dispatcher for heap-dump segments, together with the typed-value model
//! they decode into.
//!
//! Every decoding function carries a contract equating its result with a
//! spec-level decoder over the buffer's byte sequence, including the
//! exact error each rejected input produces. The `encode` module states
//! and proves the round-trip laws: re-encoding what was decoded
//! reproduces the consumed bytes.

use vstd::prelude::*;

pub mod constant;
pub mod encode;
pub mod errors;
pub mod javatype;
pub mod record;
pub mod slice;
pub mod snapshot;
pub mod tables;
pub mod wire;

pub use errors::Error;
pub use errors::UnknownTagError;
pub use javatype::get_type_size;
pub use javatype::JavaType;
pub use javatype::JavaValue;
pub use record::parse_subtag;
pub use record::Constant;
pub use record::InstantField;
pub use record::NativeObject;
pub use record::Object;
pub use record::StaticField;
pub use record::SubTag;
pub use record::SubTagView;
pub use slice::Slice;
pub use snapshot::HprofHeader;
pub use snapshot::Record;
pub use snapshot::RecordView;
pub use snapshot::Snapshot;
pub use tables::HprofResult;
pub use tables::TablesView;

verus! {

} // verus!
