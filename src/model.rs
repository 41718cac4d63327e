use vstd::prelude::*;

use crate::map::GMap;
use crate::structure::{
    Edge, GKey, GValue, GID, IntermediateRepr, Metric, Property, TraversalExplanation, Vertex,
    VertexProperty,
};

verus! {

/// The mathematical form of an identifier.
pub enum IdModel {
    Str(Seq<char>),
    Int32(i32),
    Int64(i64),
}

pub struct VertexPropertyModel {
    pub id: IdModel,
    pub label: Seq<char>,
    pub value: Box<ValueModel>,
}

pub struct PropertyModel {
    pub key: Seq<char>,
    pub value: Box<ValueModel>,
}

pub struct VertexModel {
    pub id: IdModel,
    pub label: Seq<char>,
    pub properties: Seq<(Seq<char>, Seq<VertexPropertyModel>)>,
}

pub struct EdgeModel {
    pub id: IdModel,
    pub label: Seq<char>,
    pub in_v_id: IdModel,
    pub in_v_label: Seq<char>,
    pub out_v_id: IdModel,
    pub out_v_label: Seq<char>,
    pub properties: Seq<(Seq<char>, PropertyModel)>,
}

pub struct MetricModel {
    pub id: Seq<char>,
    pub name: Seq<char>,
    pub duration: u64,
    pub count: i64,
    pub traversers: i64,
    pub perc_duration: u64,
}

pub struct IntermediateModel {
    pub traversal: Seq<Seq<char>>,
    pub strategy: Seq<char>,
    pub category: Seq<char>,
}

pub struct ExplanationModel {
    pub original: Seq<Seq<char>>,
    pub finals: Seq<Seq<char>>,
    pub intermediate: Seq<IntermediateModel>,
}

pub enum KeyModel {
    Str(Seq<char>),
    Token(Seq<char>),
    Vertex(VertexModel),
    Edge(EdgeModel),
}

/// The mathematical form of a graph value: strings as character sequences,
/// lists and maps as sequences.
pub enum ValueModel {
    Null,
    Bool(bool),
    Int32(i32),
    Int64(i64),
    Float(u64),
    Double(u64),
    Str(Seq<char>),
    Uuid(u128),
    Date(i64),
    List(Seq<ValueModel>),
    Dict(Seq<(KeyModel, ValueModel)>),
    Vertex(VertexModel),
    Edge(EdgeModel),
    VertexProperty(VertexPropertyModel),
    Property(PropertyModel),
    Path(Box<ValueModel>, Seq<ValueModel>),
    Metric(MetricModel),
    TraversalMetrics(u64, Seq<MetricModel>),
    TraversalExplanation(ExplanationModel),
    P(Seq<char>, Box<ValueModel>),
}

pub open spec fn id_model(id: GID) -> IdModel {
    match id {
        GID::String(s) => IdModel::Str(s@),
        GID::Int32(n) => IdModel::Int32(n),
        GID::Int64(n) => IdModel::Int64(n),
    }
}

pub open spec fn strings_model(s: Seq<String>) -> Seq<Seq<char>> {
    s.map_values(|x: String| x@)
}

pub open spec fn metric_model(m: Metric) -> MetricModel {
    MetricModel {
        id: m.id@,
        name: m.name@,
        duration: m.duration,
        count: m.count,
        traversers: m.traversers,
        perc_duration: m.perc_duration,
    }
}

pub open spec fn metrics_model(s: Seq<Metric>) -> Seq<MetricModel> {
    s.map_values(|m: Metric| metric_model(m))
}

pub open spec fn intermediate_model(r: IntermediateRepr) -> IntermediateModel {
    IntermediateModel {
        traversal: strings_model(r.traversal@),
        strategy: r.strategy@,
        category: r.category@,
    }
}

pub open spec fn explanation_model(e: TraversalExplanation) -> ExplanationModel {
    ExplanationModel {
        original: strings_model(e.original@),
        finals: strings_model(e.finals@),
        intermediate: intermediates_model(e.intermediate@),
    }
}

pub open spec fn intermediates_model(s: Seq<IntermediateRepr>) -> Seq<IntermediateModel> {
    s.map_values(|r: IntermediateRepr| intermediate_model(r))
}

pub open spec fn value_model(v: GValue) -> ValueModel
    decreases v, 0int,
{
    match v {
        GValue::Null => ValueModel::Null,
        GValue::Bool(b) => ValueModel::Bool(b),
        GValue::Int32(n) => ValueModel::Int32(n),
        GValue::Int64(n) => ValueModel::Int64(n),
        GValue::Float(b) => ValueModel::Float(b),
        GValue::Double(b) => ValueModel::Double(b),
        GValue::String(s) => ValueModel::Str(s@),
        GValue::Uuid(u) => ValueModel::Uuid(u),
        GValue::Date(d) => ValueModel::Date(d),
        GValue::List(items) => ValueModel::List(values_model(items@)),
        GValue::GMap(m) => ValueModel::Dict(entries_model(m.entries@)),
        GValue::Vertex(x) => ValueModel::Vertex(vertex_model(x)),
        GValue::Edge(x) => ValueModel::Edge(edge_model(x)),
        GValue::VertexProperty(x) => ValueModel::VertexProperty(vertex_property_model(x)),
        GValue::Property(x) => ValueModel::Property(property_model(x)),
        GValue::Path(p) => ValueModel::Path(Box::new(value_model(*p.labels)), values_model(p.objects@)),
        GValue::Metric(m) => ValueModel::Metric(metric_model(m)),
        GValue::TraversalMetrics(t) => ValueModel::TraversalMetrics(
            t.duration,
            metrics_model(t.metrics@),
        ),
        GValue::TraversalExplanation(e) => ValueModel::TraversalExplanation(explanation_model(e)),
        GValue::P(p) => ValueModel::P(p.operator@, Box::new(value_model(*p.value))),
    }
}

pub open spec fn vertex_property_model(x: VertexProperty) -> VertexPropertyModel
    decreases x, 0int,
{
    VertexPropertyModel { id: id_model(x.id), label: x.label@, value: Box::new(value_model(*x.value)) }
}

pub open spec fn property_model(x: Property) -> PropertyModel
    decreases x, 0int,
{
    PropertyModel { key: x.key@, value: Box::new(value_model(*x.value)) }
}

pub open spec fn vertex_model(x: Vertex) -> VertexModel
    decreases x, 0int,
{
    VertexModel { id: id_model(x.id), label: x.label@, properties: vertex_props_model(x.properties@) }
}

pub open spec fn edge_model(x: Edge) -> EdgeModel
    decreases x, 0int,
{
    EdgeModel {
        id: id_model(x.id),
        label: x.label@,
        in_v_id: id_model(x.in_v_id),
        in_v_label: x.in_v_label@,
        out_v_id: id_model(x.out_v_id),
        out_v_label: x.out_v_label@,
        properties: edge_props_model(x.properties@),
    }
}

pub open spec fn key_model(k: GKey) -> KeyModel
    decreases k, 0int,
{
    match k {
        GKey::String(s) => KeyModel::Str(s@),
        GKey::Token(t) => KeyModel::Token(t.name@),
        GKey::Vertex(x) => KeyModel::Vertex(vertex_model(x)),
        GKey::Edge(x) => KeyModel::Edge(edge_model(x)),
    }
}

pub open spec fn values_model(s: Seq<GValue>) -> Seq<ValueModel>
    decreases s, 1int,
{
    if s.len() == 0 {
        Seq::empty()
    } else {
        values_model(s.subrange(0, s.len() - 1)).push(value_model(s[s.len() - 1]))
    }
}

pub open spec fn entries_model(s: Seq<(GKey, GValue)>) -> Seq<(KeyModel, ValueModel)>
    decreases s, 1int,
{
    if s.len() == 0 {
        Seq::empty()
    } else {
        entries_model(s.subrange(0, s.len() - 1)).push(
            (key_model(s[s.len() - 1].0), value_model(s[s.len() - 1].1)),
        )
    }
}

pub open spec fn vertex_properties_model(s: Seq<VertexProperty>) -> Seq<VertexPropertyModel>
    decreases s, 1int,
{
    if s.len() == 0 {
        Seq::empty()
    } else {
        vertex_properties_model(s.subrange(0, s.len() - 1)).push(
            vertex_property_model(s[s.len() - 1]),
        )
    }
}

pub open spec fn vertex_props_model(s: Seq<(String, Vec<VertexProperty>)>) -> Seq<
    (Seq<char>, Seq<VertexPropertyModel>),
>
    decreases s, 1int,
{
    if s.len() == 0 {
        Seq::empty()
    } else {
        vertex_props_model(s.subrange(0, s.len() - 1)).push(
            (s[s.len() - 1].0@, vertex_properties_model(s[s.len() - 1].1@)),
        )
    }
}

pub open spec fn edge_props_model(s: Seq<(String, Property)>) -> Seq<(Seq<char>, PropertyModel)>
    decreases s, 1int,
{
    if s.len() == 0 {
        Seq::empty()
    } else {
        edge_props_model(s.subrange(0, s.len() - 1)).push(
            (s[s.len() - 1].0@, property_model(s[s.len() - 1].1)),
        )
    }
}

pub proof fn lemma_values_model(s: Seq<GValue>)
    ensures
        values_model(s).len() == s.len(),
        forall|i: int| 0 <= i < s.len() ==> #[trigger] values_model(s)[i] == value_model(s[i]),
    decreases s.len(),
{
    if s.len() > 0 {
        let t = s.subrange(0, s.len() - 1);
        lemma_values_model(t);
        assert forall|i: int| 0 <= i < s.len() implies #[trigger] values_model(s)[i] == value_model(s[i]) by {
            if i < s.len() - 1 {
                assert(t[i] == s[i]);
            }
        }
    }
}

pub proof fn lemma_entries_model(s: Seq<(GKey, GValue)>)
    ensures
        entries_model(s).len() == s.len(),
        forall|i: int|
            0 <= i < s.len() ==> #[trigger] entries_model(s)[i] == (
                key_model(s[i].0),
                value_model(s[i].1),
            ),
    decreases s.len(),
{
    if s.len() > 0 {
        let t = s.subrange(0, s.len() - 1);
        lemma_entries_model(t);
        assert forall|i: int| 0 <= i < s.len() implies #[trigger] entries_model(s)[i] == (
            key_model(s[i].0),
            value_model(s[i].1),
        ) by {
            if i < s.len() - 1 {
                assert(t[i] == s[i]);
            }
        }
    }
}

pub proof fn lemma_vertex_properties_model(s: Seq<VertexProperty>)
    ensures
        vertex_properties_model(s).len() == s.len(),
        forall|i: int|
            0 <= i < s.len() ==> #[trigger] vertex_properties_model(s)[i] == vertex_property_model(
                s[i],
            ),
    decreases s.len(),
{
    if s.len() > 0 {
        let t = s.subrange(0, s.len() - 1);
        lemma_vertex_properties_model(t);
        assert forall|i: int| 0 <= i < s.len() implies #[trigger] vertex_properties_model(s)[i]
            == vertex_property_model(s[i]) by {
            if i < s.len() - 1 {
                assert(t[i] == s[i]);
            }
        }
    }
}

pub proof fn lemma_vertex_props_model(s: Seq<(String, Vec<VertexProperty>)>)
    ensures
        vertex_props_model(s).len() == s.len(),
        forall|i: int|
            0 <= i < s.len() ==> #[trigger] vertex_props_model(s)[i] == (
                s[i].0@,
                vertex_properties_model(s[i].1@),
            ),
    decreases s.len(),
{
    if s.len() > 0 {
        let t = s.subrange(0, s.len() - 1);
        lemma_vertex_props_model(t);
        assert forall|i: int| 0 <= i < s.len() implies #[trigger] vertex_props_model(s)[i] == (
            s[i].0@,
            vertex_properties_model(s[i].1@),
        ) by {
            if i < s.len() - 1 {
                assert(t[i] == s[i]);
            }
        }
    }
}

pub proof fn lemma_values_model_push(s: Seq<GValue>, x: GValue)
    ensures
        values_model(s.push(x)) == values_model(s).push(value_model(x)),
{
    assert(s.push(x).subrange(0, s.len() as int) == s);
}

pub proof fn lemma_vertex_properties_model_push(s: Seq<VertexProperty>, x: VertexProperty)
    ensures
        vertex_properties_model(s.push(x)) == vertex_properties_model(s).push(vertex_property_model(x)),
{
    assert(s.push(x).subrange(0, s.len() as int) == s);
}

pub proof fn lemma_vertex_props_model_push(s: Seq<(String, Vec<VertexProperty>)>, x: (String, Vec<VertexProperty>))
    ensures
        vertex_props_model(s.push(x)) == vertex_props_model(s).push((x.0@, vertex_properties_model(x.1@))),
{
    assert(s.push(x).subrange(0, s.len() as int) == s);
}

/// The model of each graph element, one definition deep.
pub proof fn lemma_element_models(v: GValue)
    ensures
        v is Vertex ==> value_model(v) == ValueModel::Vertex(
            VertexModel {
                id: id_model(v->Vertex_0.id),
                label: v->Vertex_0.label@,
                properties: vertex_props_model(v->Vertex_0.properties@),
            },
        ),
        v is VertexProperty ==> value_model(v) == ValueModel::VertexProperty(
            VertexPropertyModel {
                id: id_model(v->VertexProperty_0.id),
                label: v->VertexProperty_0.label@,
                value: Box::new(value_model(*v->VertexProperty_0.value)),
            },
        ),
        v is Property ==> value_model(v) == ValueModel::Property(
            PropertyModel {
                key: v->Property_0.key@,
                value: Box::new(value_model(*v->Property_0.value)),
            },
        ),
        v is Edge ==> value_model(v) == ValueModel::Edge(
            EdgeModel {
                id: id_model(v->Edge_0.id),
                label: v->Edge_0.label@,
                in_v_id: id_model(v->Edge_0.in_v_id),
                in_v_label: v->Edge_0.in_v_label@,
                out_v_id: id_model(v->Edge_0.out_v_id),
                out_v_label: v->Edge_0.out_v_label@,
                properties: edge_props_model(v->Edge_0.properties@),
            },
        ),
{
    match v {
        GValue::Vertex(x) => {
            assert(value_model(v) == ValueModel::Vertex(vertex_model(x)));
        },
        GValue::VertexProperty(x) => {
            assert(value_model(v) == ValueModel::VertexProperty(vertex_property_model(x)));
        },
        GValue::Property(x) => {
            assert(value_model(v) == ValueModel::Property(property_model(x)));
        },
        GValue::Edge(x) => {
            assert(value_model(v) == ValueModel::Edge(edge_model(x)));
        },
        _ => {},
    }
}

impl GMap {
    pub open spec fn model(&self) -> Seq<(KeyModel, ValueModel)> {
        entries_model(self.entries@)
    }
}

} // verus!
