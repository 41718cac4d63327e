//! The encoder: graph values back to GraphSON v3 trees.
use vstd::prelude::*;

use crate::graphson::{
    tag_date, tag_double, tag_edge, tag_explanation, tag_float, tag_int32, tag_int64, tag_list,
    tag_map, tag_metrics, tag_path, tag_property, tag_traversal_metrics, tag_uuid, tag_vertex,
    tag_vertex_property,
};
use crate::json::{JsonModel, Number, NumberModel};
use crate::laws::envelope;
use crate::model::{
    EdgeModel, ExplanationModel, IdModel, IntermediateModel, KeyModel, MetricModel, ValueModel,
    VertexModel, VertexPropertyModel,
};
use crate::scalars::{uuid_text, uuid_text_spec};
use crate::json::{lemma_member_models, lemma_models, member_models, models, Json};
use crate::model::{
    edge_model, id_model, intermediate_model, key_model, lemma_element_models,
    lemma_entries_model, lemma_values_model, lemma_vertex_properties_model,
    lemma_vertex_props_model, metric_model, value_model, values_model, entries_model,
    vertex_model, vertex_properties_model, vertex_property_model, vertex_props_model,
};
use crate::structure::{
    Edge, GKey, GValue, GID, IntermediateRepr, Metric, TraversalExplanation, TraversalMetrics,
    Vertex, VertexProperty,
};

verus! {

pub open spec fn long_json(n: i64) -> JsonModel {
    envelope(tag_int64(), JsonModel::Number(NumberModel::Int(n)))
}

pub open spec fn double_json(b: u64) -> JsonModel {
    envelope(tag_double(), JsonModel::Number(NumberModel::Float(b, None)))
}

pub open spec fn id_json(id: IdModel) -> JsonModel {
    match id {
        IdModel::Str(s) => JsonModel::Str(s),
        IdModel::Int32(n) => envelope(tag_int32(), JsonModel::Number(NumberModel::Int(n as i64))),
        IdModel::Int64(n) => long_json(n),
    }
}

/// A map key on the wire: strings and tokens by their text; graph elements
/// have no key form and are written as null.
pub open spec fn key_json(k: KeyModel) -> JsonModel {
    match k {
        KeyModel::Str(s) => JsonModel::Str(s),
        KeyModel::Token(s) => JsonModel::Str(s),
        _ => JsonModel::Null,
    }
}

pub open spec fn strings_json(s: Seq<Seq<char>>) -> JsonModel {
    envelope(tag_list(), JsonModel::Array(s.map_values(|x: Seq<char>| JsonModel::Str(x))))
}

/// A metric: a `g:Metrics` envelope around a tagged map.
pub open spec fn metric_json(m: MetricModel) -> JsonModel {
    envelope(
        tag_metrics(),
        envelope(
            tag_map(),
            JsonModel::Array(
                seq![
                    JsonModel::Str("dur"@),
                    double_json(m.duration),
                    JsonModel::Str("id"@),
                    JsonModel::Str(m.id),
                    JsonModel::Str("name"@),
                    JsonModel::Str(m.name),
                    JsonModel::Str("counts"@),
                    envelope(
                        tag_map(),
                        JsonModel::Array(
                            seq![
                                JsonModel::Str("traverserCount"@),
                                long_json(m.traversers),
                                JsonModel::Str("elementCount"@),
                                long_json(m.count),
                            ],
                        ),
                    ),
                    JsonModel::Str("annotations"@),
                    envelope(
                        tag_map(),
                        JsonModel::Array(seq![JsonModel::Str("percentDur"@), double_json(m.perc_duration)]),
                    ),
                ],
            ),
        ),
    )
}

pub open spec fn intermediate_json(r: IntermediateModel) -> JsonModel {
    envelope(
        tag_map(),
        JsonModel::Array(
            seq![
                JsonModel::Str("traversal"@),
                strings_json(r.traversal),
                JsonModel::Str("strategy"@),
                JsonModel::Str(r.strategy),
                JsonModel::Str("category"@),
                JsonModel::Str(r.category),
            ],
        ),
    )
}

pub open spec fn explanation_json(x: ExplanationModel) -> JsonModel {
    envelope(
        tag_map(),
        JsonModel::Array(
            seq![
                JsonModel::Str("original"@),
                strings_json(x.original),
                JsonModel::Str("final"@),
                strings_json(x.finals),
                JsonModel::Str("intermediate"@),
                envelope(
                    tag_list(),
                    JsonModel::Array(x.intermediate.map_values(|r: IntermediateModel| intermediate_json(r))),
                ),
            ],
        ),
    )
}

pub open spec fn edge_json(x: EdgeModel) -> JsonModel {
    JsonModel::Object(
        seq![
            ("id"@, id_json(x.id)),
            ("label"@, JsonModel::Str(x.label)),
            ("inV"@, id_json(x.in_v_id)),
            ("inVLabel"@, JsonModel::Str(x.in_v_label)),
            ("outV"@, id_json(x.out_v_id)),
            ("outVLabel"@, JsonModel::Str(x.out_v_label)),
        ],
    )
}

/// The tree the encoder writes for a value.
pub open spec fn encode_spec(v: ValueModel) -> JsonModel
    decreases v, 0int,
{
    match v {
        ValueModel::Null => JsonModel::Null,
        ValueModel::Bool(b) => JsonModel::Bool(b),
        ValueModel::Str(s) => JsonModel::Str(s),
        ValueModel::Int32(n) => envelope(tag_int32(), JsonModel::Number(NumberModel::Int(n as i64))),
        ValueModel::Int64(n) => long_json(n),
        ValueModel::Float(b) => envelope(tag_float(), JsonModel::Number(NumberModel::Float(b, None))),
        ValueModel::Double(b) => double_json(b),
        ValueModel::Uuid(u) => envelope(tag_uuid(), JsonModel::Str(uuid_text_spec(u as nat))),
        ValueModel::Date(d) => envelope(tag_date(), JsonModel::Number(NumberModel::Int(d))),
        ValueModel::List(s) => envelope(tag_list(), JsonModel::Array(encode_list(s))),
        ValueModel::Dict(m) => envelope(tag_map(), JsonModel::Array(encode_pairs(m))),
        ValueModel::Vertex(x) => envelope(tag_vertex(), vertex_json(x)),
        ValueModel::Edge(x) => envelope(tag_edge(), edge_json(x)),
        ValueModel::VertexProperty(x) => envelope(tag_vertex_property(), vertex_property_json(x)),
        ValueModel::Property(x) => envelope(
            tag_property(),
            JsonModel::Object(seq![("key"@, JsonModel::Str(x.key)), ("value"@, encode_spec(*x.value))]),
        ),
        ValueModel::Path(l, o) => envelope(
            tag_path(),
            JsonModel::Object(
                seq![
                    ("labels"@, encode_spec(*l)),
                    ("objects"@, envelope(tag_list(), JsonModel::Array(encode_list(o)))),
                ],
            ),
        ),
        ValueModel::Metric(m) => metric_json(m),
        ValueModel::TraversalMetrics(d, ms) => envelope(
            tag_traversal_metrics(),
            envelope(
                tag_map(),
                JsonModel::Array(
                    seq![
                        JsonModel::Str("dur"@),
                        double_json(d),
                        JsonModel::Str("metrics"@),
                        envelope(tag_list(), JsonModel::Array(ms.map_values(|m: MetricModel| metric_json(m)))),
                    ],
                ),
            ),
        ),
        ValueModel::TraversalExplanation(x) => envelope(tag_explanation(), explanation_json(x)),
        ValueModel::P(op, x) => envelope(
            "g:P"@,
            JsonModel::Object(seq![("predicate"@, JsonModel::Str(op)), ("value"@, encode_spec(*x))]),
        ),
    }
}

pub open spec fn vertex_json(x: VertexModel) -> JsonModel
    decreases x, 0int,
{
    JsonModel::Object(
        seq![
            ("id"@, id_json(x.id)),
            ("label"@, JsonModel::Str(x.label)),
            ("properties"@, JsonModel::Object(properties_json(x.properties))),
        ],
    )
}

pub open spec fn vertex_property_json(x: VertexPropertyModel) -> JsonModel
    decreases x, 0int,
{
    JsonModel::Object(
        seq![
            ("id"@, id_json(x.id)),
            ("label"@, JsonModel::Str(x.label)),
            ("value"@, encode_spec(*x.value)),
        ],
    )
}

pub open spec fn encode_list(s: Seq<ValueModel>) -> Seq<JsonModel>
    decreases s, 1int,
{
    if s.len() == 0 {
        Seq::empty()
    } else {
        encode_list(s.subrange(0, s.len() - 1)).push(encode_spec(s[s.len() - 1]))
    }
}

/// A map's entries as the alternating keys and values of a `g:Map` payload.
pub open spec fn encode_pairs(m: Seq<(KeyModel, ValueModel)>) -> Seq<JsonModel>
    decreases m, 1int,
{
    if m.len() == 0 {
        Seq::empty()
    } else {
        encode_pairs(m.subrange(0, m.len() - 1)) + seq![
            key_json(m[m.len() - 1].0),
            encode_spec(m[m.len() - 1].1),
        ]
    }
}

pub open spec fn properties_json(ps: Seq<(Seq<char>, Seq<VertexPropertyModel>)>) -> Seq<(Seq<char>, JsonModel)>
    decreases ps, 1int,
{
    if ps.len() == 0 {
        Seq::empty()
    } else {
        properties_json(ps.subrange(0, ps.len() - 1)).push(
            (ps[ps.len() - 1].0, JsonModel::Array(vertex_properties_json(ps[ps.len() - 1].1))),
        )
    }
}

pub open spec fn vertex_properties_json(vps: Seq<VertexPropertyModel>) -> Seq<JsonModel>
    decreases vps, 1int,
{
    if vps.len() == 0 {
        Seq::empty()
    } else {
        vertex_properties_json(vps.subrange(0, vps.len() - 1)).push(
            envelope(tag_vertex_property(), vertex_property_json(vps[vps.len() - 1])),
        )
    }
}

pub proof fn lemma_encode_list(s: Seq<ValueModel>)
    ensures
        encode_list(s).len() == s.len(),
        forall|i: int| 0 <= i < s.len() ==> #[trigger] encode_list(s)[i] == encode_spec(s[i]),
    decreases s.len(),
{
    if s.len() > 0 {
        let t = s.subrange(0, s.len() - 1);
        lemma_encode_list(t);
        assert forall|i: int| 0 <= i < s.len() implies #[trigger] encode_list(s)[i] == encode_spec(s[i]) by {
            if i < s.len() - 1 {
                assert(t[i] == s[i]);
            }
        }
    }
}

pub proof fn lemma_encode_pairs(m: Seq<(KeyModel, ValueModel)>)
    ensures
        encode_pairs(m).len() == 2 * m.len(),
        forall|k: int|
            #![trigger m[k]]
            0 <= k < m.len() ==> encode_pairs(m)[2 * k] == key_json(m[k].0) && encode_pairs(
                m,
            )[2 * k + 1] == encode_spec(m[k].1),
    decreases m.len(),
{
    if m.len() > 0 {
        let t = m.subrange(0, m.len() - 1);
        lemma_encode_pairs(t);
        assert forall|k: int| #![trigger m[k]] 0 <= k < m.len() implies encode_pairs(m)[2 * k] == key_json(
            m[k].0,
        ) && encode_pairs(m)[2 * k + 1] == encode_spec(m[k].1) by {
            if k < m.len() - 1 {
                assert(t[k] == m[k]);
            }
        }
    }
}

pub proof fn lemma_properties_json(ps: Seq<(Seq<char>, Seq<VertexPropertyModel>)>)
    ensures
        properties_json(ps).len() == ps.len(),
        forall|k: int|
            0 <= k < ps.len() ==> #[trigger] properties_json(ps)[k] == (
                ps[k].0,
                JsonModel::Array(vertex_properties_json(ps[k].1)),
            ),
    decreases ps.len(),
{
    if ps.len() > 0 {
        let t = ps.subrange(0, ps.len() - 1);
        lemma_properties_json(t);
        assert forall|k: int| 0 <= k < ps.len() implies #[trigger] properties_json(ps)[k] == (
            ps[k].0,
            JsonModel::Array(vertex_properties_json(ps[k].1)),
        ) by {
            if k < ps.len() - 1 {
                assert(t[k] == ps[k]);
            }
        }
    }
}

pub proof fn lemma_vertex_properties_json(vps: Seq<VertexPropertyModel>)
    ensures
        vertex_properties_json(vps).len() == vps.len(),
        forall|l: int|
            0 <= l < vps.len() ==> #[trigger] vertex_properties_json(vps)[l] == envelope(
                tag_vertex_property(),
                vertex_property_json(vps[l]),
            ),
    decreases vps.len(),
{
    if vps.len() > 0 {
        let t = vps.subrange(0, vps.len() - 1);
        lemma_vertex_properties_json(t);
        assert forall|l: int| 0 <= l < vps.len() implies #[trigger] vertex_properties_json(vps)[l]
            == envelope(tag_vertex_property(), vertex_property_json(vps[l])) by {
            if l < vps.len() - 1 {
                assert(t[l] == vps[l]);
            }
        }
    }
}

fn text(s: &str) -> (r: Json)
    ensures
        r.model() == JsonModel::Str(s@),
{
    Json::String(String::from_str(s))
}

fn member(key: &str, value: Json) -> (r: (String, Json))
    ensures
        r.0@ == key@,
        r.1 == value,
{
    (String::from_str(key), value)
}

/// The envelope `{"@type": tag, "@value": payload}`.
fn wrap(tag: &str, payload: Json) -> (r: Json)
    ensures
        r.model() == envelope(tag@, payload.model()),
{
    let ghost pm = payload.model();
    let fields = vec![member("@type", text(tag)), member("@value", payload)];
    proof {
        lemma_member_models(fields@);
        assert(member_models(fields@) =~= seq![("@type"@, JsonModel::Str(tag@)), ("@value"@, pm)]);
    }
    Json::Object(fields)
}

fn encode_id(id: &GID) -> (r: Json)
    ensures
        r.model() == id_json(id_model(*id)),
{
    match id {
        GID::String(s) => Json::String(s.clone()),
        GID::Int32(n) => wrap("g:Int32", Json::Number(Number::Int(*n as i64))),
        GID::Int64(n) => wrap("g:Int64", Json::Number(Number::Int(*n))),
    }
}

fn encode_long(n: i64) -> (r: Json)
    ensures
        r.model() == long_json(n),
{
    wrap("g:Int64", Json::Number(Number::Int(n)))
}

fn encode_double(b: u64) -> (r: Json)
    ensures
        r.model() == double_json(b),
{
    wrap("g:Double", Json::Number(Number::Float(b, None)))
}

/// Encodes a graph value as a GraphSON v3 tree.
#[verifier::spinoff_prover]
#[verifier::rlimit(100)]
pub fn encode(v: &GValue) -> (r: Json)
    ensures
        r.model() == encode_spec(value_model(*v)),
    decreases v, 0int,
{
    proof {
        lemma_element_models(*v);
    }
    match v {
        GValue::Null => Json::Null,
        GValue::Bool(b) => Json::Bool(*b),
        GValue::String(s) => Json::String(s.clone()),
        GValue::Int32(n) => wrap("g:Int32", Json::Number(Number::Int(*n as i64))),
        GValue::Int64(n) => encode_long(*n),
        GValue::Float(b) => wrap("g:Float", Json::Number(Number::Float(*b, None))),
        GValue::Double(b) => encode_double(*b),
        GValue::Uuid(u) => wrap("g:UUID", Json::String(uuid_text(*u))),
        GValue::Date(d) => wrap("g:Date", Json::Number(Number::Int(*d))),
        GValue::List(items) => wrap("g:List", Json::Array(encode_items(items))),
        GValue::GMap(m) => wrap("g:Map", Json::Array(encode_entries(&m.entries))),
        GValue::Vertex(x) => wrap("g:Vertex", encode_vertex(x)),
        GValue::Edge(x) => wrap("g:Edge", encode_edge(x)),
        GValue::VertexProperty(x) => wrap("g:VertexProperty", encode_vertex_property(x)),
        GValue::Property(x) => {
            let value = encode(&x.value);
            let ghost vm = value.model();
            let fields = vec![member("key", Json::String(x.key.clone())), member("value", value)];
            proof {
                lemma_member_models(fields@);
                assert(member_models(fields@) =~= seq![
                    ("key"@, JsonModel::Str(x.key@)),
                    ("value"@, vm),
                ]);
            }
            wrap("g:Property", Json::Object(fields))
        },
        GValue::Path(p) => {
            let labels = encode(&p.labels);
            let ghost lm = labels.model();
            let objects = wrap("g:List", Json::Array(encode_items(&p.objects)));
            let ghost om = objects.model();
            let fields = vec![member("labels", labels), member("objects", objects)];
            proof {
                lemma_member_models(fields@);
                assert(member_models(fields@) =~= seq![("labels"@, lm), ("objects"@, om)]);
            }
            wrap("g:Path", Json::Object(fields))
        },
        GValue::Metric(m) => encode_metric(m),
        GValue::TraversalMetrics(t) => encode_traversal_metrics(t),
        GValue::TraversalExplanation(x) => wrap("g:TraversalExplanation", encode_explanation(x)),
        GValue::P(p) => {
            let value = encode(&p.value);
            let ghost vm = value.model();
            let fields = vec![
                member("predicate", Json::String(p.operator.clone())),
                member("value", value),
            ];
            proof {
                lemma_member_models(fields@);
                assert(member_models(fields@) =~= seq![
                    ("predicate"@, JsonModel::Str(p.operator@)),
                    ("value"@, vm),
                ]);
            }
            wrap("g:P", Json::Object(fields))
        },
    }
}

fn encode_items(items: &Vec<GValue>) -> (r: Vec<Json>)
    ensures
        models(r@) == encode_list(values_model(items@)),
    decreases items, 1int,
{
    let mut out: Vec<Json> = Vec::new();
    let mut i: usize = 0;
    while i < items.len()
        invariant
            i <= items.len(),
            out@.len() == i,
            forall|k: int| 0 <= k < i ==> (#[trigger] out@[k]).model() == encode_spec(value_model(items@[k])),
        decreases items.len() - i,
    {
        assert(decreases_to!(items => items@[i as int]));
        let j = encode(&items[i]);
        out.push(j);
        i += 1;
    }
    proof {
        lemma_models(out@);
        lemma_values_model(items@);
        lemma_encode_list(values_model(items@));
        assert(models(out@) =~= encode_list(values_model(items@)));
    }
    out
}

fn encode_key(k: &GKey) -> (r: Json)
    ensures
        r.model() == key_json(key_model(*k)),
{
    match k {
        GKey::String(s) => Json::String(s.clone()),
        GKey::Token(t) => Json::String(t.name.clone()),
        GKey::Vertex(_) => Json::Null,
        GKey::Edge(_) => Json::Null,
    }
}

fn encode_entries(entries: &Vec<(GKey, GValue)>) -> (r: Vec<Json>)
    ensures
        models(r@) == encode_pairs(entries_model(entries@)),
    decreases entries, 1int,
{
    let mut out: Vec<Json> = Vec::new();
    let mut i: usize = 0;
    while i < entries.len()
        invariant
            i <= entries.len(),
            out@.len() == 2 * i,
            forall|k: int|
                0 <= k < i ==> (#[trigger] out@[2 * k]).model() == key_json(key_model(entries@[k].0))
                    && out@[2 * k + 1].model() == encode_spec(value_model(entries@[k].1)),
        decreases entries.len() - i,
    {
        assert(decreases_to!(entries => entries@[i as int]));
        let kj = encode_key(&entries[i].0);
        let vj = encode(&entries[i].1);
        let ghost before = out@;
        out.push(kj);
        out.push(vj);
        proof {
            assert forall|k: int| 0 <= k < i + 1 implies (#[trigger] out@[2 * k]).model() == key_json(
                key_model(entries@[k].0),
            ) && out@[2 * k + 1].model() == encode_spec(value_model(entries@[k].1)) by {
                if k < i {
                    assert(out@[2 * k] == before[2 * k]);
                    assert(out@[2 * k + 1] == before[2 * k + 1]);
                }
            }
        }
        i += 1;
    }
    proof {
        lemma_models(out@);
        lemma_entries_model(entries@);
        lemma_encode_pairs(entries_model(entries@));
        assert forall|j: int| 0 <= j < out@.len() implies #[trigger] models(out@)[j] == encode_pairs(
            entries_model(entries@),
        )[j] by {
            let k = j / 2;
            assert(0 <= k < entries@.len());
            assert(entries_model(entries@)[k] == (key_model(entries@[k].0), value_model(entries@[k].1)));
            let _ = entries_model(entries@)[k];
            assert(encode_pairs(entries_model(entries@))[2 * k] == key_json(entries_model(entries@)[k].0));
            assert(out@[2 * k].model() == key_json(key_model(entries@[k].0)));
            if j % 2 == 0 {
                assert(j == 2 * k);
            } else {
                assert(j == 2 * k + 1);
            }
        }
        assert(models(out@) =~= encode_pairs(entries_model(entries@)));
    }
    out
}

fn encode_vertex(x: &Vertex) -> (r: Json)
    ensures
        r.model() == vertex_json(vertex_model(*x)),
    decreases x, 1int,
{
    let id = encode_id(&x.id);
    let ghost im = id.model();
    let props = encode_properties(&x.properties);
    let ghost pm = member_models(props@);
    let fields = vec![
        member("id", id),
        member("label", Json::String(x.label.clone())),
        member("properties", Json::Object(props)),
    ];
    proof {
        lemma_member_models(fields@);
        assert(member_models(fields@) =~= seq![
            ("id"@, im),
            ("label"@, JsonModel::Str(x.label@)),
            ("properties"@, JsonModel::Object(pm)),
        ]);
    }
    Json::Object(fields)
}

fn encode_properties(ps: &Vec<(String, Vec<VertexProperty>)>) -> (r: Vec<(String, Json)>)
    ensures
        member_models(r@) == properties_json(vertex_props_model(ps@)),
    decreases ps, 1int,
{
    let mut out: Vec<(String, Json)> = Vec::new();
    let mut i: usize = 0;
    while i < ps.len()
        invariant
            i <= ps.len(),
            out@.len() == i,
            forall|k: int|
                0 <= k < i ==> (#[trigger] out@[k]).0@ == ps@[k].0@ && out@[k].1.model() == JsonModel::Array(
                    vertex_properties_json(vertex_properties_model(ps@[k].1@)),
                ),
        decreases ps.len() - i,
    {
        assert(decreases_to!(ps => ps@[i as int]));
        let items = encode_vertex_properties(&ps[i].1);
        proof {
            lemma_models(items@);
        }
        out.push((ps[i].0.clone(), Json::Array(items)));
        i += 1;
    }
    proof {
        lemma_member_models(out@);
        lemma_vertex_props_model(ps@);
        lemma_properties_json(vertex_props_model(ps@));
        assert(member_models(out@) =~= properties_json(vertex_props_model(ps@)));
    }
    out
}

fn encode_vertex_properties(vps: &Vec<VertexProperty>) -> (r: Vec<Json>)
    ensures
        models(r@) == vertex_properties_json(vertex_properties_model(vps@)),
    decreases vps, 1int,
{
    let mut out: Vec<Json> = Vec::new();
    let mut i: usize = 0;
    while i < vps.len()
        invariant
            i <= vps.len(),
            out@.len() == i,
            forall|k: int|
                0 <= k < i ==> (#[trigger] out@[k]).model() == envelope(
                    tag_vertex_property(),
                    vertex_property_json(vertex_property_model(vps@[k])),
                ),
        decreases vps.len() - i,
    {
        assert(decreases_to!(vps => vps@[i as int]));
        let j = wrap("g:VertexProperty", encode_vertex_property(&vps[i]));
        out.push(j);
        i += 1;
    }
    proof {
        lemma_models(out@);
        lemma_vertex_properties_model(vps@);
        lemma_vertex_properties_json(vertex_properties_model(vps@));
        assert(models(out@) =~= vertex_properties_json(vertex_properties_model(vps@)));
    }
    out
}

fn encode_vertex_property(x: &VertexProperty) -> (r: Json)
    ensures
        r.model() == vertex_property_json(vertex_property_model(*x)),
    decreases x, 1int,
{
    let id = encode_id(&x.id);
    let ghost im = id.model();
    let value = encode(&x.value);
    let ghost vm = value.model();
    let fields = vec![
        member("id", id),
        member("label", Json::String(x.label.clone())),
        member("value", value),
    ];
    proof {
        lemma_member_models(fields@);
        assert(member_models(fields@) =~= seq![
            ("id"@, im),
            ("label"@, JsonModel::Str(x.label@)),
            ("value"@, vm),
        ]);
    }
    Json::Object(fields)
}

fn encode_edge(x: &Edge) -> (r: Json)
    ensures
        r.model() == edge_json(edge_model(*x)),
{
    let id = encode_id(&x.id);
    let ghost a = id.model();
    let in_v = encode_id(&x.in_v_id);
    let ghost b = in_v.model();
    let out_v = encode_id(&x.out_v_id);
    let ghost c = out_v.model();
    let fields = vec![
        member("id", id),
        member("label", Json::String(x.label.clone())),
        member("inV", in_v),
        member("inVLabel", Json::String(x.in_v_label.clone())),
        member("outV", out_v),
        member("outVLabel", Json::String(x.out_v_label.clone())),
    ];
    proof {
        lemma_member_models(fields@);
        assert(member_models(fields@) =~= seq![
            ("id"@, a),
            ("label"@, JsonModel::Str(x.label@)),
            ("inV"@, b),
            ("inVLabel"@, JsonModel::Str(x.in_v_label@)),
            ("outV"@, c),
            ("outVLabel"@, JsonModel::Str(x.out_v_label@)),
        ]);
    }
    Json::Object(fields)
}

fn array_of(items: Vec<Json>) -> (r: Json)
    ensures
        r.model() == JsonModel::Array(models(items@)),
{
    Json::Array(items)
}

fn encode_metric(m: &Metric) -> (r: Json)
    ensures
        r.model() == metric_json(metric_model(*m)),
{
    let c1 = encode_long(m.traversers);
    let ghost c1m = c1.model();
    let c2 = encode_long(m.count);
    let ghost c2m = c2.model();
    let counts_items = vec![text("traverserCount"), c1, text("elementCount"), c2];
    proof {
        lemma_models(counts_items@);
        assert(models(counts_items@) =~= seq![
            JsonModel::Str("traverserCount"@),
            c1m,
            JsonModel::Str("elementCount"@),
            c2m,
        ]);
    }
    let counts = wrap("g:Map", array_of(counts_items));
    let ghost cm = counts.model();
    let pd = encode_double(m.perc_duration);
    let ghost pdm = pd.model();
    let ann_items = vec![text("percentDur"), pd];
    proof {
        lemma_models(ann_items@);
        assert(models(ann_items@) =~= seq![JsonModel::Str("percentDur"@), pdm]);
    }
    let annotations = wrap("g:Map", array_of(ann_items));
    let ghost am = annotations.model();
    let dur = encode_double(m.duration);
    let ghost dm = dur.model();
    let items = vec![
        text("dur"),
        dur,
        text("id"),
        Json::String(m.id.clone()),
        text("name"),
        Json::String(m.name.clone()),
        text("counts"),
        counts,
        text("annotations"),
        annotations,
    ];
    proof {
        lemma_models(items@);
        assert(models(items@) =~= seq![
            JsonModel::Str("dur"@),
            dm,
            JsonModel::Str("id"@),
            JsonModel::Str(m.id@),
            JsonModel::Str("name"@),
            JsonModel::Str(m.name@),
            JsonModel::Str("counts"@),
            cm,
            JsonModel::Str("annotations"@),
            am,
        ]);
    }
    wrap("g:Metrics", wrap("g:Map", array_of(items)))
}

fn encode_traversal_metrics(t: &TraversalMetrics) -> (r: Json)
    ensures
        r.model() == encode_spec(value_model(GValue::TraversalMetrics(*t))),
{
    let mut ms: Vec<Json> = Vec::new();
    let mut i: usize = 0;
    while i < t.metrics.len()
        invariant
            i <= t.metrics.len(),
            ms@.len() == i,
            forall|k: int| 0 <= k < i ==> (#[trigger] ms@[k]).model() == metric_json(metric_model(t.metrics@[k])),
        decreases t.metrics.len() - i,
    {
        ms.push(encode_metric(&t.metrics[i]));
        i += 1;
    }
    proof {
        lemma_models(ms@);
        assert(models(ms@) =~= crate::model::metrics_model(t.metrics@).map_values(
            |m: MetricModel| metric_json(m),
        ));
    }
    let list = wrap("g:List", array_of(ms));
    let ghost lm = list.model();
    let dur = encode_double(t.duration);
    let ghost dm = dur.model();
    let items = vec![text("dur"), dur, text("metrics"), list];
    proof {
        lemma_models(items@);
        assert(models(items@) =~= seq![JsonModel::Str("dur"@), dm, JsonModel::Str("metrics"@), lm]);
    }
    wrap("g:TraversalMetrics", wrap("g:Map", array_of(items)))
}

fn encode_strings(ss: &Vec<String>) -> (r: Json)
    ensures
        r.model() == strings_json(crate::model::strings_model(ss@)),
{
    let mut out: Vec<Json> = Vec::new();
    let mut i: usize = 0;
    while i < ss.len()
        invariant
            i <= ss.len(),
            out@.len() == i,
            forall|k: int| 0 <= k < i ==> (#[trigger] out@[k]).model() == JsonModel::Str(ss@[k]@),
        decreases ss.len() - i,
    {
        out.push(Json::String(ss[i].clone()));
        i += 1;
    }
    proof {
        lemma_models(out@);
        assert(models(out@) =~= crate::model::strings_model(ss@).map_values(
            |x: Seq<char>| JsonModel::Str(x),
        ));
    }
    wrap("g:List", array_of(out))
}

fn encode_intermediate(r: &IntermediateRepr) -> (j: Json)
    ensures
        j.model() == intermediate_json(intermediate_model(*r)),
{
    let t = encode_strings(&r.traversal);
    let ghost tm = t.model();
    let items = vec![
        text("traversal"),
        t,
        text("strategy"),
        Json::String(r.strategy.clone()),
        text("category"),
        Json::String(r.category.clone()),
    ];
    proof {
        lemma_models(items@);
        assert(models(items@) =~= seq![
            JsonModel::Str("traversal"@),
            tm,
            JsonModel::Str("strategy"@),
            JsonModel::Str(r.strategy@),
            JsonModel::Str("category"@),
            JsonModel::Str(r.category@),
        ]);
    }
    wrap("g:Map", array_of(items))
}

fn encode_explanation(x: &TraversalExplanation) -> (r: Json)
    ensures
        r.model() == explanation_json(crate::model::explanation_model(*x)),
{
    let mut irs: Vec<Json> = Vec::new();
    let mut i: usize = 0;
    while i < x.intermediate.len()
        invariant
            i <= x.intermediate.len(),
            irs@.len() == i,
            forall|k: int|
                0 <= k < i ==> (#[trigger] irs@[k]).model() == intermediate_json(
                    intermediate_model(x.intermediate@[k]),
                ),
        decreases x.intermediate.len() - i,
    {
        irs.push(encode_intermediate(&x.intermediate[i]));
        i += 1;
    }
    proof {
        lemma_models(irs@);
        assert(models(irs@) =~= crate::model::intermediates_model(x.intermediate@).map_values(
            |r: IntermediateModel| intermediate_json(r),
        ));
    }
    let inter = wrap("g:List", array_of(irs));
    let ghost im = inter.model();
    let o = encode_strings(&x.original);
    let ghost om = o.model();
    let f = encode_strings(&x.finals);
    let ghost fm = f.model();
    let items = vec![text("original"), o, text("final"), f, text("intermediate"), inter];
    proof {
        lemma_models(items@);
        assert(models(items@) =~= seq![
            JsonModel::Str("original"@),
            om,
            JsonModel::Str("final"@),
            fm,
            JsonModel::Str("intermediate"@),
            im,
        ]);
    }
    wrap("g:Map", array_of(items))
}

} // verus!
