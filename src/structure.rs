use vstd::prelude::*;

use crate::map::GMap;

verus! {

/// A graph element identifier: the wire allows any of the three kinds.
#[derive(Debug, PartialEq, Eq, Hash)]
pub enum GID {
    String(String),
    Int32(i32),
    Int64(i64),
}

/// A symbolic token of the traversal language (`T.id`, `T.label`, ...).
#[derive(Debug, PartialEq, Eq, Hash)]
pub struct Token {
    pub name: String,
}

/// A key of a [`GMap`]: on the wire only strings, in memory also tokens and
/// graph elements (results of grouping traversals).
#[derive(Debug, PartialEq, Eq, Hash)]
pub enum GKey {
    String(String),
    Token(Token),
    Vertex(Vertex),
    Edge(Edge),
}

/// A property of a vertex; its value is any graph value.
#[derive(Debug, PartialEq, Eq, Hash)]
pub struct VertexProperty {
    pub id: GID,
    pub label: String,
    pub value: Box<GValue>,
}

/// A key and a value attached to an element.
#[derive(Debug, PartialEq, Eq, Hash)]
pub struct Property {
    pub key: String,
    pub value: Box<GValue>,
}

/// A vertex: its properties map each name to the ordered list of its
/// vertex-properties.
#[derive(Debug, PartialEq, Eq, Hash)]
pub struct Vertex {
    pub id: GID,
    pub label: String,
    pub properties: Vec<(String, Vec<VertexProperty>)>,
}

/// An edge between two vertices, each given by id and label.
#[derive(Debug, PartialEq, Eq, Hash)]
pub struct Edge {
    pub id: GID,
    pub label: String,
    pub in_v_id: GID,
    pub in_v_label: String,
    pub out_v_id: GID,
    pub out_v_label: String,
    pub properties: Vec<(String, Property)>,
}

/// A path: the label sets and the objects, position by position.
#[derive(Debug, PartialEq, Eq, Hash)]
pub struct Path {
    pub labels: Box<GValue>,
    pub objects: Vec<GValue>,
}

/// Server-side profile of one traversal step. Durations are binary64 bit
/// patterns.
#[derive(Debug, PartialEq, Eq, Hash)]
pub struct Metric {
    pub id: String,
    pub name: String,
    pub duration: u64,
    pub count: i64,
    pub traversers: i64,
    pub perc_duration: u64,
}

/// Server-side profile of a whole traversal.
#[derive(Debug, PartialEq, Eq, Hash)]
pub struct TraversalMetrics {
    pub duration: u64,
    pub metrics: Vec<Metric>,
}

/// One stage of a traversal explanation.
#[derive(Debug, PartialEq, Eq, Hash)]
pub struct IntermediateRepr {
    pub traversal: Vec<String>,
    pub strategy: String,
    pub category: String,
}

/// How the server rewrote a traversal.
#[derive(Debug, PartialEq, Eq, Hash)]
pub struct TraversalExplanation {
    pub original: Vec<String>,
    pub finals: Vec<String>,
    pub intermediate: Vec<IntermediateRepr>,
}

/// A predicate of the traversal language, such as `eq(value)`.
#[derive(Debug, PartialEq, Eq, Hash)]
pub struct Predicate {
    pub operator: String,
    pub value: Box<GValue>,
}

/// A graph value.
///
/// `Float` and `Double` hold the binary64 bit pattern of the number that
/// stood on the wire; the two stay distinct variants. `Date` is whole seconds
/// since the Unix epoch, in UTC. `Uuid` is the 128-bit value, most significant
/// hex digit first.
#[derive(Debug, PartialEq, Eq, Hash)]
pub enum GValue {
    Null,
    Bool(bool),
    Int32(i32),
    Int64(i64),
    Float(u64),
    Double(u64),
    String(String),
    Uuid(u128),
    Date(i64),
    List(Vec<GValue>),
    GMap(GMap),
    Vertex(Vertex),
    Edge(Edge),
    VertexProperty(VertexProperty),
    Property(Property),
    Path(Path),
    Metric(Metric),
    TraversalMetrics(TraversalMetrics),
    TraversalExplanation(TraversalExplanation),
    P(Predicate),
}

} // verus!
