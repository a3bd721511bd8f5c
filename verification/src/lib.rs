//! Span-aware structured logging: a store of per-scope context and a
//! formatter that turns events and scope transitions into JSON records.

pub mod build_info;
pub mod fields;
pub mod formatter;
pub mod hello;
pub mod inheritance;
pub mod keys;
pub mod placement;
pub mod storage;
pub mod system;
pub mod text;
pub mod value;

pub use build_info::{
    framework_libs_workspace_members, split_members, workspace_members,
    workspace_members_instruction,
};
pub use fields::{Field, FieldMap, KeySet};
pub use formatter::{
    AdditionalFieldsPlacement, JsonFormattingLayer, JsonFormattingLayerConfig, JsonStyle, Level,
    LoggerError, RecordMetadata, RecordType,
};
pub use hello::add;
pub use storage::{Attribute, AttributeValue, ScopeState, SpanStorageLayer, Storage};
