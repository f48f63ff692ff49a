//! A deserialization engine for nested, order-preserving key/value
//! configuration documents, as handed to collectd plugins.
//!
//! A document is an ordered tree of items; a key may repeat at one level and
//! each occurrence carries scalar values and/or nested child items. The
//! engine groups each level by key ([`config::Group`]), then walks the
//! grouped tree with an explicit frame stack ([`de::Deserializer`]) driven by
//! type-directed requests: one scalar, a sequence of occurrences, or a nested
//! struct. Shapes the document model cannot carry (maps, enums, tuples) are
//! rejected with a dedicated error rather than approximated.

pub mod config;
pub mod de;
pub mod errors;
pub mod group;
pub mod laws;

pub use config::{ConfigItem, ConfigValue, Group, Node};
pub use de::{Deserializer, FieldSeparated, Frame, SeqSeparated};
pub use errors::{DeError, DeResult, ScalarKind};
pub use group::from_config;
