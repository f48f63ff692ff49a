//! The document data model: raw configuration items as the parser hands them
//! over, and the grouped form the decode engine walks.

use vstd::prelude::*;
use std::rc::Rc;

verus! {

/// One scalar leaf of a configuration document: text, a number, or a flag.
///
/// A number carries the raw bit pattern of the document's 64-bit
/// binary floating-point value. The engine never interprets those bits;
/// callers that want an integer or a float decode them at the edge. This
/// keeps the engine itself within exact reasoning.
pub enum ConfigValue {
    Str(String),
    Number(u64),
    Boolean(bool),
}

/// One item of a configuration document: a key together with the scalar
/// values and nested child items of this one occurrence. A key may appear
/// in several items of the same level; the document order of those
/// occurrences is significant and is preserved throughout.
pub struct ConfigItem {
    pub key: String,
    pub values: Vec<ConfigValue>,
    pub children: Vec<ConfigItem>,
}

/// One entry of a grouped scope: every node contributed by one key, in
/// document order. The node list is shared, not copied, when the engine
/// binds a frame to this entry.
pub struct Group {
    pub key: String,
    pub nodes: Rc<Vec<Node>>,
}

/// One resolved document node: either a single scalar, or one nested scope
/// that has itself been grouped by key.
pub enum Node {
    Str(String),
    Number(u64),
    Boolean(bool),
    Object(Rc<Vec<Group>>),
}

impl Clone for ConfigValue {
    fn clone(&self) -> (res: Self)
        ensures
            res == *self,
    {
        match self {
            ConfigValue::Str(s) => ConfigValue::Str(s.clone()),
            ConfigValue::Number(n) => ConfigValue::Number(*n),
            ConfigValue::Boolean(b) => ConfigValue::Boolean(*b),
        }
    }
}

impl Clone for Group {
    fn clone(&self) -> (res: Self)
        ensures
            res == *self,
    {
        Group { key: self.key.clone(), nodes: self.nodes.clone() }
    }
}

impl Clone for Node {
    fn clone(&self) -> (res: Self)
        ensures
            res == *self,
    {
        match self {
            Node::Str(s) => Node::Str(s.clone()),
            Node::Number(n) => Node::Number(*n),
            Node::Boolean(b) => Node::Boolean(*b),
            Node::Object(gs) => Node::Object(gs.clone()),
        }
    }
}

/// The node that one scalar document value turns into.
pub open spec fn scalar_node(v: ConfigValue) -> Node {
    match v {
        ConfigValue::Str(s) => Node::Str(s),
        ConfigValue::Number(n) => Node::Number(n),
        ConfigValue::Boolean(b) => Node::Boolean(b),
    }
}

} // verus!
