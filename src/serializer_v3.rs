//! The GraphSON v3 decoders: one per registered tag, all recursing through
//! [`deserializer_v3`].
use vstd::prelude::*;

use crate::error::DecodeError;
use crate::graphson::{
    date_spec, decode_spec, decode_tagged, has_envelope_key, is_envelope, edge_payload_spec, edge_spec, entry_spec,
    explanation_from, explanation_payload_spec, float_spec, id_field_spec, id_spec, int32_spec,
    int64_spec, intermediate_from, keep_intermediates, keep_metrics, keep_strings, label_spec,
    list_payload_spec, list_spec, map_payload_spec, metric_from, metric_payload_spec,
    pairs_spec, path_payload_spec, path_spec, properties_field_spec, properties_spec,
    property_payload_spec, property_spec, string_field_spec, traversal_metrics_from,
    traversal_metrics_payload_spec, uuid_spec, value_field_spec, vertex_payload_spec,
    vertex_property_items_spec, vertex_property_payload_spec, vertex_property_spec, vertex_spec,
    Decoded, ErrorModel,
};
use crate::json::{lemma_member_models, lemma_models, member_models, models, Json, JsonModel, Number};
use crate::map::GMap;
use crate::model::{
    id_model, intermediate_model, intermediates_model, lemma_values_model,
    lemma_values_model_push, lemma_vertex_properties_model_push, lemma_vertex_props_model_push,
    metric_model, metrics_model, strings_model, value_model, values_model,
    vertex_properties_model, vertex_props_model, IdModel, IntermediateModel, MetricModel,
    ValueModel, VertexPropertyModel,
};
use crate::scalars::{date_representable, decimal_text, parse_hyphenated};
use crate::structure::{
    Edge, GValue, GID, IntermediateRepr, Metric, Path, Property, TraversalExplanation,
    TraversalMetrics, Vertex, VertexProperty,
};
use crate::text::str_eq;

verus! {

pub open spec fn result_model(r: Result<GValue, DecodeError>) -> Decoded<ValueModel> {
    match r {
        Ok(v) => Ok(value_model(v)),
        Err(e) => Err(e.model()),
    }
}

pub open spec fn id_result_model(r: Result<GID, DecodeError>) -> Decoded<IdModel> {
    match r {
        Ok(v) => Ok(id_model(v)),
        Err(e) => Err(e.model()),
    }
}

proof fn lemma_list_err(m: Seq<JsonModel>, n: int)
    requires
        0 <= n <= m.len(),
        list_spec(m.subrange(0, n)) is Err,
    ensures
        list_spec(m) == list_spec(m.subrange(0, n)),
    decreases m.len() - n,
{
    if n < m.len() {
        assert(m.subrange(0, n + 1).subrange(0, n) == m.subrange(0, n));
        lemma_list_err(m, n + 1);
    } else {
        assert(m.subrange(0, n) == m);
    }
}

proof fn lemma_pairs_err(m: Seq<JsonModel>, n: int)
    requires
        0 <= n <= m.len(),
        n % 2 == 0,
        m.len() % 2 == 0,
        pairs_spec(m.subrange(0, n)) is Err,
    ensures
        pairs_spec(m) == pairs_spec(m.subrange(0, n)),
    decreases m.len() - n,
{
    if n < m.len() {
        assert(m.subrange(0, n + 2).subrange(0, n) == m.subrange(0, n));
        lemma_pairs_err(m, n + 2);
    } else {
        assert(m.subrange(0, n) == m);
    }
}

proof fn lemma_properties_err(m: Seq<(Seq<char>, JsonModel)>, n: int)
    requires
        0 <= n <= m.len(),
        properties_spec(m.subrange(0, n)) is Err,
    ensures
        properties_spec(m) == properties_spec(m.subrange(0, n)),
    decreases m.len() - n,
{
    if n < m.len() {
        assert(m.subrange(0, n + 1).subrange(0, n) == m.subrange(0, n));
        lemma_properties_err(m, n + 1);
    } else {
        assert(m.subrange(0, n) == m);
    }
}

proof fn lemma_vertex_property_items_err(m: Seq<JsonModel>, n: int)
    requires
        0 <= n <= m.len(),
        vertex_property_items_spec(m.subrange(0, n)) is Err,
    ensures
        vertex_property_items_spec(m) == vertex_property_items_spec(m.subrange(0, n)),
    decreases m.len() - n,
{
    if n < m.len() {
        assert(m.subrange(0, n + 1).subrange(0, n) == m.subrange(0, n));
        lemma_vertex_property_items_err(m, n + 1);
    } else {
        assert(m.subrange(0, n) == m);
    }
}

/// Where the `@type` member of an envelope stands; `None` for an object that
/// is not an envelope.
fn envelope_order(fs: &Vec<(String, Json)>) -> (r: Option<usize>)
    ensures
        r is Some <==> is_envelope(member_models(fs@)),
        r is Some ==> r->0 < 2 && r->0 == (if member_models(fs@)[0].0 == "@type"@ {
            0int
        } else {
            1int
        }),
{
    proof {
        lemma_member_models(fs@);
    }
    if fs.len() != 2 {
        return None;
    }
    let t0 = str_eq(fs[0].0.as_str(), "@type");
    let v0 = str_eq(fs[0].0.as_str(), "@value");
    let t1 = str_eq(fs[1].0.as_str(), "@type");
    let v1 = str_eq(fs[1].0.as_str(), "@value");
    assert(member_models(fs@)[0].0 == fs@[0].0@);
    assert(member_models(fs@)[1].0 == fs@[1].0@);
    if t0 && v1 {
        Some(0)
    } else if v0 && t1 {
        Some(1)
    } else {
        None
    }
}

/// Decodes a GraphSON v3 tree into a graph value.
///
/// Null, booleans and strings stand for themselves; any other value must be
/// an envelope `{"@type": tag, "@value": payload}` whose tag is registered.
pub fn deserializer_v3(val: &Json) -> (r: Result<GValue, DecodeError>)
    ensures
        result_model(r) == decode_spec(val.model()),
    decreases val, 0int,
{
    match val {
        Json::Null => Ok(GValue::Null),
        Json::Bool(b) => Ok(GValue::Bool(*b)),
        Json::Number(_) => Err(DecodeError::UntypedNumber),
        Json::String(s) => Ok(GValue::String(s.clone())),
        Json::Array(_) => Err(DecodeError::UntypedArray),
        Json::Object(fs) => {
            proof {
                lemma_member_models(fs@);
            }
            match envelope_order(fs) {
                Some(ti) => {
                    let pi: usize = 1 - ti;
                    return match &fs[ti].1 {
                        Json::String(tag) => deserialize_tagged(tag.as_str(), &fs[pi].1),
                        _ => Err(DecodeError::MalformedEnvelope),
                    };
                },
                None => {},
            }
            let mut i: usize = 0;
            while i < fs.len()
                invariant
                    i <= fs.len(),
                    !is_envelope(member_models(fs@)),
                    val.model() == JsonModel::Object(member_models(fs@)),
                    member_models(fs@).len() == fs@.len(),
                    forall|k: int|
                        0 <= k < i ==> !(#[trigger] member_models(fs@)[k].0 == "@type"@
                            || member_models(fs@)[k].0 == "@value"@),
                decreases fs.len() - i,
            {
                proof {
                    lemma_member_models(fs@);
                }
                if str_eq(fs[i].0.as_str(), "@type") || str_eq(fs[i].0.as_str(), "@value") {
                    assert(member_models(fs@)[i as int].0 == fs@[i as int].0@);
                    assert(has_envelope_key(member_models(fs@)));
                    return Err(DecodeError::MalformedEnvelope);
                }
                assert(member_models(fs@)[i as int].0 == fs@[i as int].0@);
                i += 1;
            }
            Err(DecodeError::UntypedObject)
        },
    }
}

/// Runs the decoder registered for `tag` on the payload `val`.
pub fn deserialize_tagged(tag: &str, val: &Json) -> (r: Result<GValue, DecodeError>)
    ensures
        result_model(r) == decode_tagged(tag@, val.model()),
    decreases val, 5int,
{
    if str_eq(tag, "g:Int32") {
        deserialize_g32(val)
    } else if str_eq(tag, "g:Int64") {
        deserialize_g64(val)
    } else if str_eq(tag, "g:Float") {
        deserialize_f32(val)
    } else if str_eq(tag, "g:Double") {
        deserialize_f64(val)
    } else if str_eq(tag, "g:Date") {
        deserialize_date(val)
    } else if str_eq(tag, "g:UUID") {
        deserialize_uuid(val)
    } else if str_eq(tag, "g:List") || str_eq(tag, "g:Set") {
        deserialize_list(val)
    } else if str_eq(tag, "g:Map") {
        deserialize_map(val)
    } else if str_eq(tag, "g:Vertex") {
        deserialize_vertex(val)
    } else if str_eq(tag, "g:VertexProperty") {
        deserialize_vertex_property(val)
    } else if str_eq(tag, "g:Property") {
        deserialize_property(val)
    } else if str_eq(tag, "g:Edge") {
        deserialize_edge(val)
    } else if str_eq(tag, "g:Path") {
        deserialize_path(val)
    } else if str_eq(tag, "g:TraversalMetrics") {
        deserialize_metrics(val)
    } else if str_eq(tag, "g:Metrics") {
        deserialize_metric(val)
    } else if str_eq(tag, "g:TraversalExplanation") {
        deserialize_explain(val)
    } else {
        Err(DecodeError::UnknownTag(tag.to_owned()))
    }
}

/// `g:Int32`: an integer in the range of `i32`.
pub fn deserialize_g32(val: &Json) -> (r: Result<GValue, DecodeError>)
    ensures
        result_model(r) == int32_spec(val.model()),
{
    match val {
        Json::Number(Number::Int(n)) => {
            if i32::MIN as i64 <= *n && *n <= i32::MAX as i64 {
                Ok(GValue::Int32(*n as i32))
            } else {
                Err(DecodeError::InvalidPayload)
            }
        },
        Json::Number(_) => Err(DecodeError::InvalidPayload),
        _ => Err(DecodeError::ShapeMismatch),
    }
}

/// `g:Int64`: an integer in the range of `i64`.
pub fn deserialize_g64(val: &Json) -> (r: Result<GValue, DecodeError>)
    ensures
        result_model(r) == int64_spec(val.model()),
{
    match val {
        Json::Number(Number::Int(n)) => Ok(GValue::Int64(*n)),
        Json::Number(_) => Err(DecodeError::InvalidPayload),
        _ => Err(DecodeError::ShapeMismatch),
    }
}

/// `g:Float`: a number with a fraction or an exponent.
pub fn deserialize_f32(val: &Json) -> (r: Result<GValue, DecodeError>)
    ensures
        result_model(r) == float_spec(val.model(), true),
{
    match val {
        Json::Number(Number::Float(b, _)) => Ok(GValue::Float(*b)),
        Json::Number(_) => Err(DecodeError::InvalidPayload),
        _ => Err(DecodeError::ShapeMismatch),
    }
}

/// `g:Double`: a number with a fraction or an exponent.
pub fn deserialize_f64(val: &Json) -> (r: Result<GValue, DecodeError>)
    ensures
        result_model(r) == float_spec(val.model(), false),
{
    match val {
        Json::Number(Number::Float(b, _)) => Ok(GValue::Double(*b)),
        Json::Number(_) => Err(DecodeError::InvalidPayload),
        _ => Err(DecodeError::ShapeMismatch),
    }
}

/// `g:Date`: whole seconds since the Unix epoch, within chrono's range.
pub fn deserialize_date(val: &Json) -> (r: Result<GValue, DecodeError>)
    ensures
        result_model(r) == date_spec(val.model()),
{
    match val {
        Json::Number(Number::Int(n)) => {
            if date_representable(*n) {
                Ok(GValue::Date(*n))
            } else {
                Err(DecodeError::InvalidPayload)
            }
        },
        Json::Number(_) => Err(DecodeError::InvalidPayload),
        _ => Err(DecodeError::ShapeMismatch),
    }
}

/// `g:UUID`: a string in the canonical hyphenated form.
pub fn deserialize_uuid(val: &Json) -> (r: Result<GValue, DecodeError>)
    ensures
        result_model(r) == uuid_spec(val.model()),
{
    match val {
        Json::String(s) => match parse_hyphenated(s.as_str()) {
            Some(u) => Ok(GValue::Uuid(u)),
            None => Err(DecodeError::InvalidPayload),
        },
        _ => Err(DecodeError::ShapeMismatch),
    }
}

/// `g:List` and `g:Set`: an array whose elements decode in order.
pub fn deserialize_list(val: &Json) -> (r: Result<GValue, DecodeError>)
    ensures
        result_model(r) == list_payload_spec(val.model()),
    decreases val, 4int,
{
    match val {
        Json::Array(items) => match decode_items(items) {
            Ok(vs) => Ok(GValue::List(vs)),
            Err(e) => Err(e),
        },
        _ => Err(DecodeError::ShapeMismatch),
    }
}

fn decode_items(items: &Vec<Json>) -> (r: Result<Vec<GValue>, DecodeError>)
    ensures
        match r {
            Ok(vs) => list_spec(models(items@)) == Ok::<Seq<ValueModel>, ErrorModel>(
                values_model(vs@),
            ),
            Err(e) => list_spec(models(items@)) == Err::<Seq<ValueModel>, ErrorModel>(e.model()),
        },
    decreases items, 2int,
{
    proof {
        lemma_models(items@);
    }
    let ghost m = models(items@);
    let mut out: Vec<GValue> = Vec::new();
    let mut i: usize = 0;
    while i < items.len()
        invariant
            i <= items.len(),
            m == models(items@),
            m.len() == items@.len(),
            list_spec(m.subrange(0, i as int)) == Ok::<Seq<ValueModel>, ErrorModel>(
                values_model(out@),
            ),
        decreases items.len() - i,
    {
        proof {
            lemma_models(items@);
        }
        assert(m.subrange(0, i + 1).subrange(0, i as int) == m.subrange(0, i as int));
        assert(m.subrange(0, i + 1)[i as int] == items@[i as int].model());
        assert(decreases_to!(items => items@[i as int]));
        let v = deserializer_v3(&items[i]);
        match v {
            Ok(x) => {
                proof {
                    lemma_values_model_push(out@, x);
                }
                out.push(x);
            },
            Err(e) => {
                proof {
                    lemma_list_err(m, i + 1);
                }
                return Err(e);
            },
        }
        i += 1;
    }
    assert(m.subrange(0, i as int) == m);
    Ok(out)
}

fn decode_pairs(items: &Vec<Json>) -> (r: Result<GMap, DecodeError>)
    requires
        items@.len() % 2 == 0,
    ensures
        match r {
            Ok(m) => pairs_spec(models(items@)) == Ok::<Seq<(crate::model::KeyModel, ValueModel)>, ErrorModel>(
                m.model(),
            ),
            Err(e) => pairs_spec(models(items@)) == Err::<Seq<(crate::model::KeyModel, ValueModel)>, ErrorModel>(
                e.model(),
            ),
        },
    decreases items, 2int,
{
    proof {
        lemma_models(items@);
    }
    let ghost m = models(items@);
    let mut map = GMap::new();
    let mut i: usize = 0;
    while i < items.len()
        invariant
            i <= items.len(),
            i % 2 == 0,
            items.len() % 2 == 0,
            m == models(items@),
            m.len() == items@.len(),
            map.wf(),
            pairs_spec(m.subrange(0, i as int)) == Ok::<
                Seq<(crate::model::KeyModel, ValueModel)>,
                ErrorModel,
            >(map.model()),
        decreases items.len() - i,
    {
        proof {
            lemma_models(items@);
        }
        assert(m.subrange(0, i + 2).subrange(0, i as int) == m.subrange(0, i as int));
        assert(m.subrange(0, i + 2)[i as int] == items@[i as int].model());
        assert(m.subrange(0, i + 2)[i + 1] == items@[i + 1].model());
        match &items[i] {
            Json::String(k) => {
                assert(decreases_to!(items => items@[i + 1]));
                match deserializer_v3(&items[i + 1]) {
                    Ok(v) => {
                        map.insert(k.clone(), v);
                    },
                    Err(e) => {
                        assert(pairs_spec(m.subrange(0, i + 2)) == Err::<
                            Seq<(crate::model::KeyModel, ValueModel)>,
                            ErrorModel,
                        >(e.model()));
                        proof {
                            lemma_pairs_err(m, i + 2);
                        }
                        return Err(e);
                    },
                }
            },
            _ => {
                proof {
                    lemma_pairs_err(m, i + 2);
                }
                return Err(DecodeError::ShapeMismatch);
            },
        }
        i += 2;
    }
    assert(m.subrange(0, i as int) == m);
    Ok(map)
}

/// `g:Map`: an even-length array of alternating string keys and values; a
/// later pair overwrites an earlier one with the same key.
pub fn deserialize_map(val: &Json) -> (r: Result<GValue, DecodeError>)
    ensures
        result_model(r) == map_payload_spec(val.model()),
    decreases val, 4int,
{
    match val {
        Json::Array(items) => {
            proof {
                lemma_models(items@);
            }
            if items.len() % 2 != 0 {
                return Err(DecodeError::InvalidPayload);
            }
            match decode_pairs(items) {
                Ok(map) => Ok(GValue::GMap(map)),
                Err(e) => Err(e),
            }
        },
        _ => Err(DecodeError::ShapeMismatch),
    }
}

fn missing(field: &str, owner: &str) -> (r: DecodeError)
    ensures
        r.model() == ErrorModel::MissingField(field@, owner@),
{
    DecodeError::MissingField { field: String::from_str(field), owner: String::from_str(owner) }
}

/// An optional string member, with its default when absent.
fn label_field(fs: &Vec<(String, Json)>, key: &str, default: &str) -> (r: Result<String, DecodeError>)
    ensures
        match r {
            Ok(l) => label_spec(member_models(fs@), key@, default@) == Ok::<Seq<char>, ErrorModel>(l@),
            Err(e) => label_spec(member_models(fs@), key@, default@) == Err::<Seq<char>, ErrorModel>(
                e.model(),
            ),
        },
{
    proof {
        lemma_member_models(fs@);
    }
    match Json::find_member(fs, key) {
        Some(i) => match &fs[i].1 {
            Json::String(s) => Ok(s.clone()),
            _ => Err(DecodeError::ShapeMismatch),
        },
        None => Ok(String::from_str(default)),
    }
}

/// A required string member.
fn string_field(fs: &Vec<(String, Json)>, key: &str, owner: &str) -> (r: Result<String, DecodeError>)
    ensures
        match r {
            Ok(l) => string_field_spec(member_models(fs@), key@, owner@) == Ok::<Seq<char>, ErrorModel>(l@),
            Err(e) => string_field_spec(member_models(fs@), key@, owner@) == Err::<Seq<char>, ErrorModel>(
                e.model(),
            ),
        },
{
    proof {
        lemma_member_models(fs@);
    }
    match Json::find_member(fs, key) {
        Some(i) => match &fs[i].1 {
            Json::String(s) => Ok(s.clone()),
            _ => Err(DecodeError::ShapeMismatch),
        },
        None => Err(missing(key, owner)),
    }
}

/// Decodes an identifier. A bare number, as some servers send, stands for
/// its JSON text; otherwise the node must decode to a string, an `Int32`
/// or an `Int64`.
pub fn deserialize_id(val: &Json) -> (r: Result<GID, DecodeError>)
    ensures
        id_result_model(r) == id_spec(val.model()),
    decreases val, 1int,
{
    match val {
        Json::Number(Number::Int(n)) => Ok(GID::String(decimal_text(*n as i128))),
        Json::Number(Number::UInt(n)) => Ok(GID::String(decimal_text(*n as i128))),
        Json::Number(Number::Float(_, Some(t))) => Ok(GID::String(t.clone())),
        Json::Number(Number::Float(_, None)) => Err(DecodeError::UntypedNumber),
        _ => match deserializer_v3(val) {
            Ok(GValue::String(s)) => Ok(GID::String(s)),
            Ok(GValue::Int32(n)) => Ok(GID::Int32(n)),
            Ok(GValue::Int64(n)) => Ok(GID::Int64(n)),
            Ok(_) => Err(DecodeError::Downcast),
            Err(e) => Err(e),
        },
    }
}

fn id_field(fs: &Vec<(String, Json)>, key: &str, owner: &str) -> (r: Result<GID, DecodeError>)
    ensures
        id_result_model(r) == id_field_spec(member_models(fs@), key@, owner@),
    decreases fs, 2int,
{
    proof {
        lemma_member_models(fs@);
    }
    match Json::find_member(fs, key) {
        Some(i) => {
            assert(decreases_to!(fs => fs@[i as int]));
            deserialize_id(&fs[i].1)
        },
        None => Err(missing(key, owner)),
    }
}

fn value_field(fs: &Vec<(String, Json)>, key: &str, owner: &str) -> (r: Result<GValue, DecodeError>)
    ensures
        result_model(r) == value_field_spec(member_models(fs@), key@, owner@),
    decreases fs, 2int,
{
    proof {
        lemma_member_models(fs@);
    }
    match Json::find_member(fs, key) {
        Some(i) => {
            assert(decreases_to!(fs => fs@[i as int]));
            deserializer_v3(&fs[i].1)
        },
        None => Err(missing(key, owner)),
    }
}

fn properties_field(fs: &Vec<(String, Json)>) -> (r: Result<Vec<(String, Vec<VertexProperty>)>, DecodeError>)
    ensures
        match r {
            Ok(ps) => properties_field_spec(member_models(fs@)) == Ok::<
                Seq<(Seq<char>, Seq<VertexPropertyModel>)>,
                ErrorModel,
            >(vertex_props_model(ps@)),
            Err(e) => properties_field_spec(member_models(fs@)) == Err::<
                Seq<(Seq<char>, Seq<VertexPropertyModel>)>,
                ErrorModel,
            >(e.model()),
        },
    decreases fs, 2int,
{
    proof {
        lemma_member_models(fs@);
    }
    match Json::find_member(fs, "properties") {
        Some(i) => {
            assert(decreases_to!(fs => fs@[i as int]));
            match &fs[i].1 {
                Json::Null => Ok(Vec::new()),
                Json::Object(ps) => deserialize_vertex_properties(ps),
                _ => Err(DecodeError::ShapeMismatch),
            }
        },
        None => Ok(Vec::new()),
    }
}

/// The members of a vertex's properties object: each name maps to an array
/// of vertex-properties.
fn deserialize_vertex_properties(ps: &Vec<(String, Json)>) -> (r: Result<Vec<(String, Vec<VertexProperty>)>, DecodeError>)
    ensures
        match r {
            Ok(out) => properties_spec(member_models(ps@)) == Ok::<
                Seq<(Seq<char>, Seq<VertexPropertyModel>)>,
                ErrorModel,
            >(vertex_props_model(out@)),
            Err(e) => properties_spec(member_models(ps@)) == Err::<
                Seq<(Seq<char>, Seq<VertexPropertyModel>)>,
                ErrorModel,
            >(e.model()),
        },
    decreases ps, 2int,
{
    proof {
        lemma_member_models(ps@);
    }
    let ghost m = member_models(ps@);
    let mut out: Vec<(String, Vec<VertexProperty>)> = Vec::new();
    let mut i: usize = 0;
    while i < ps.len()
        invariant
            i <= ps.len(),
            m == member_models(ps@),
            m.len() == ps@.len(),
            properties_spec(m.subrange(0, i as int)) == Ok::<
                Seq<(Seq<char>, Seq<VertexPropertyModel>)>,
                ErrorModel,
            >(vertex_props_model(out@)),
        decreases ps.len() - i,
    {
        proof {
            lemma_member_models(ps@);
        }
        assert(m.subrange(0, i + 1).subrange(0, i as int) == m.subrange(0, i as int));
        assert(m.subrange(0, i + 1)[i as int] == (ps@[i as int].0@, ps@[i as int].1.model()));
        assert(decreases_to!(ps => ps@[i as int]));
        match &ps[i].1 {
            Json::Array(items) => match vertex_property_items(items) {
                Ok(vps) => {
                    proof {
                        lemma_vertex_props_model_push(out@, (ps@[i as int].0, vps));
                    }
                    out.push((ps[i].0.clone(), vps));
                },
                Err(e) => {
                    proof {
                        lemma_properties_err(m, i + 1);
                    }
                    return Err(e);
                },
            },
            _ => {
                proof {
                    lemma_properties_err(m, i + 1);
                }
                return Err(DecodeError::ShapeMismatch);
            },
        }
        i += 1;
    }
    assert(m.subrange(0, i as int) == m);
    Ok(out)
}

fn vertex_property_items(items: &Vec<Json>) -> (r: Result<Vec<VertexProperty>, DecodeError>)
    ensures
        match r {
            Ok(vs) => vertex_property_items_spec(models(items@)) == Ok::<
                Seq<VertexPropertyModel>,
                ErrorModel,
            >(vertex_properties_model(vs@)),
            Err(e) => vertex_property_items_spec(models(items@)) == Err::<
                Seq<VertexPropertyModel>,
                ErrorModel,
            >(e.model()),
        },
    decreases items, 2int,
{
    proof {
        lemma_models(items@);
    }
    let ghost m = models(items@);
    let mut out: Vec<VertexProperty> = Vec::new();
    let mut i: usize = 0;
    while i < items.len()
        invariant
            i <= items.len(),
            m == models(items@),
            m.len() == items@.len(),
            vertex_property_items_spec(m.subrange(0, i as int)) == Ok::<
                Seq<VertexPropertyModel>,
                ErrorModel,
            >(vertex_properties_model(out@)),
        decreases items.len() - i,
    {
        proof {
            lemma_models(items@);
        }
        assert(m.subrange(0, i + 1).subrange(0, i as int) == m.subrange(0, i as int));
        assert(m.subrange(0, i + 1)[i as int] == items@[i as int].model());
        assert(decreases_to!(items => items@[i as int]));
        match deserializer_v3(&items[i]) {
            Ok(GValue::VertexProperty(x)) => {
                proof {
                    lemma_vertex_properties_model_push(out@, x);
                }
                out.push(x);
            },
            Ok(_) => {
                proof {
                    lemma_vertex_property_items_err(m, i + 1);
                }
                return Err(DecodeError::Downcast);
            },
            Err(e) => {
                proof {
                    lemma_vertex_property_items_err(m, i + 1);
                }
                return Err(e);
            },
        }
        i += 1;
    }
    assert(m.subrange(0, i as int) == m);
    Ok(out)
}

/// `g:Vertex`: `label` (default `vertex`), `id`, and `properties`.
fn deserialize_vertex_fields(fs: &Vec<(String, Json)>) -> (r: Result<GValue, DecodeError>)
    ensures
        result_model(r) == vertex_spec(member_models(fs@)),
    decreases fs, 3int,
{
    let label = match label_field(fs, "label", "vertex") {
        Ok(l) => l,
        Err(e) => return Err(e),
    };
    let id = match id_field(fs, "id", "g:Vertex") {
        Ok(x) => x,
        Err(e) => return Err(e),
    };
    let properties = match properties_field(fs) {
        Ok(p) => p,
        Err(e) => return Err(e),
    };
    let r = GValue::Vertex(Vertex { id, label, properties });
    proof {
        crate::model::lemma_element_models(r);
    }
    Ok(r)
}

pub fn deserialize_vertex(val: &Json) -> (r: Result<GValue, DecodeError>)
    ensures
        result_model(r) == vertex_payload_spec(val.model()),
    decreases val, 4int,
{
    match val {
        Json::Object(fs) => deserialize_vertex_fields(fs),
        _ => Err(DecodeError::ShapeMismatch),
    }
}

/// `g:VertexProperty`: `label` (default `vertex_property`), `id`, `value`.
fn deserialize_vertex_property_fields(fs: &Vec<(String, Json)>) -> (r: Result<GValue, DecodeError>)
    ensures
        result_model(r) == vertex_property_spec(member_models(fs@)),
    decreases fs, 3int,
{
    let label = match label_field(fs, "label", "vertex_property") {
        Ok(l) => l,
        Err(e) => return Err(e),
    };
    let id = match id_field(fs, "id", "g:VertexProperty") {
        Ok(x) => x,
        Err(e) => return Err(e),
    };
    let value = match value_field(fs, "value", "g:VertexProperty") {
        Ok(v) => v,
        Err(e) => return Err(e),
    };
    let r = GValue::VertexProperty(VertexProperty { id, label, value: Box::new(value) });
    proof {
        crate::model::lemma_element_models(r);
    }
    Ok(r)
}

pub fn deserialize_vertex_property(val: &Json) -> (r: Result<GValue, DecodeError>)
    ensures
        result_model(r) == vertex_property_payload_spec(val.model()),
    decreases val, 4int,
{
    match val {
        Json::Object(fs) => deserialize_vertex_property_fields(fs),
        _ => Err(DecodeError::ShapeMismatch),
    }
}

/// `g:Property`: `key` (default `property`) and `value`.
fn deserialize_property_fields(fs: &Vec<(String, Json)>) -> (r: Result<GValue, DecodeError>)
    ensures
        result_model(r) == property_spec(member_models(fs@)),
    decreases fs, 3int,
{
    let key = match label_field(fs, "key", "property") {
        Ok(l) => l,
        Err(e) => return Err(e),
    };
    let value = match value_field(fs, "value", "g:Property") {
        Ok(v) => v,
        Err(e) => return Err(e),
    };
    let r = GValue::Property(Property { key, value: Box::new(value) });
    proof {
        crate::model::lemma_element_models(r);
    }
    Ok(r)
}

pub fn deserialize_property(val: &Json) -> (r: Result<GValue, DecodeError>)
    ensures
        result_model(r) == property_payload_spec(val.model()),
    decreases val, 4int,
{
    match val {
        Json::Object(fs) => deserialize_property_fields(fs),
        _ => Err(DecodeError::ShapeMismatch),
    }
}

/// `g:Edge`: `label` (default `edge`), `id`, `inV`, `inVLabel`, `outV`,
/// `outVLabel`; the edge's own properties are not read.
fn deserialize_edge_fields(fs: &Vec<(String, Json)>) -> (r: Result<GValue, DecodeError>)
    ensures
        result_model(r) == edge_spec(member_models(fs@)),
    decreases fs, 3int,
{
    let label = match label_field(fs, "label", "edge") {
        Ok(l) => l,
        Err(e) => return Err(e),
    };
    let id = match id_field(fs, "id", "g:Edge") {
        Ok(x) => x,
        Err(e) => return Err(e),
    };
    let in_v_id = match id_field(fs, "inV", "g:Edge") {
        Ok(x) => x,
        Err(e) => return Err(e),
    };
    let in_v_label = match string_field(fs, "inVLabel", "g:Edge") {
        Ok(l) => l,
        Err(e) => return Err(e),
    };
    let out_v_id = match id_field(fs, "outV", "g:Edge") {
        Ok(x) => x,
        Err(e) => return Err(e),
    };
    let out_v_label = match string_field(fs, "outVLabel", "g:Edge") {
        Ok(l) => l,
        Err(e) => return Err(e),
    };
    let properties: Vec<(String, Property)> = Vec::new();
    proof {
        assert(crate::model::edge_props_model(properties@) == Seq::<
            (Seq<char>, crate::model::PropertyModel),
        >::empty());
    }
    let r = GValue::Edge(
        Edge { id, label, in_v_id, in_v_label, out_v_id, out_v_label, properties },
    );
    proof {
        crate::model::lemma_element_models(r);
    }
    Ok(r)
}

pub fn deserialize_edge(val: &Json) -> (r: Result<GValue, DecodeError>)
    ensures
        result_model(r) == edge_payload_spec(val.model()),
    decreases val, 4int,
{
    match val {
        Json::Object(fs) => deserialize_edge_fields(fs),
        _ => Err(DecodeError::ShapeMismatch),
    }
}

/// `g:Path`: `labels` decodes to any value, `objects` to a list.
fn deserialize_path_fields(fs: &Vec<(String, Json)>) -> (r: Result<GValue, DecodeError>)
    ensures
        result_model(r) == path_spec(member_models(fs@)),
    decreases fs, 3int,
{
    let labels = match value_field(fs, "labels", "g:Path") {
        Ok(v) => v,
        Err(e) => return Err(e),
    };
    let objects = match value_field(fs, "objects", "g:Path") {
        Ok(GValue::List(o)) => o,
        Ok(_) => return Err(DecodeError::Downcast),
        Err(e) => return Err(e),
    };
    let n = match &labels {
        GValue::List(ls) => ls.len(),
        _ => return Err(DecodeError::Downcast),
    };
    proof {
        lemma_values_model(objects@);
        lemma_values_model(labels->List_0@);
    }
    if n != objects.len() {
        return Err(DecodeError::InvalidPayload);
    }
    Ok(GValue::Path(Path { labels: Box::new(labels), objects }))
}

pub fn deserialize_path(val: &Json) -> (r: Result<GValue, DecodeError>)
    ensures
        result_model(r) == path_payload_spec(val.model()),
    decreases val, 4int,
{
    match val {
        Json::Object(fs) => deserialize_path_fields(fs),
        _ => Err(DecodeError::ShapeMismatch),
    }
}

/// A required entry of a decoded map.
fn entry<'a>(m: &'a GMap, key: &str, owner: &str) -> (r: Result<&'a GValue, DecodeError>)
    ensures
        match r {
            Ok(v) => entry_spec(m.model(), key@, owner@) == Ok::<ValueModel, ErrorModel>(
                value_model(*v),
            ),
            Err(e) => entry_spec(m.model(), key@, owner@) == Err::<ValueModel, ErrorModel>(
                e.model(),
            ),
        },
{
    match m.get(key) {
        Some(v) => Ok(v),
        None => Err(
            DecodeError::MissingField { field: String::from_str(key), owner: String::from_str(owner) },
        ),
    }
}

fn copy_metric(m: &Metric) -> (r: Metric)
    ensures
        metric_model(r) == metric_model(*m),
{
    Metric {
        id: m.id.clone(),
        name: m.name.clone(),
        duration: m.duration,
        count: m.count,
        traversers: m.traversers,
        perc_duration: m.perc_duration,
    }
}

/// Reads a metric off its decoded map.
pub fn metric_of(v: &GValue) -> (r: Result<Metric, DecodeError>)
    ensures
        match r {
            Ok(x) => metric_from(value_model(*v)) == Ok::<MetricModel, ErrorModel>(metric_model(x)),
            Err(e) => metric_from(value_model(*v)) == Err::<MetricModel, ErrorModel>(e.model()),
        },
{
    let o = "g:Metrics";
    let m = match v {
        GValue::GMap(m) => m,
        _ => return Err(DecodeError::Downcast),
    };
    let duration = match entry(m, "dur", o) {
        Ok(GValue::Double(b)) => *b,
        Ok(_) => return Err(DecodeError::Downcast),
        Err(e) => return Err(e),
    };
    let id = match entry(m, "id", o) {
        Ok(GValue::String(s)) => s.clone(),
        Ok(_) => return Err(DecodeError::Downcast),
        Err(e) => return Err(e),
    };
    let name = match entry(m, "name", o) {
        Ok(GValue::String(s)) => s.clone(),
        Ok(_) => return Err(DecodeError::Downcast),
        Err(e) => return Err(e),
    };
    let counts = match entry(m, "counts", o) {
        Ok(GValue::GMap(c)) => c,
        Ok(_) => return Err(DecodeError::Downcast),
        Err(e) => return Err(e),
    };
    let traversers = match entry(counts, "traverserCount", o) {
        Ok(GValue::Int64(n)) => *n,
        Ok(_) => return Err(DecodeError::Downcast),
        Err(e) => return Err(e),
    };
    let count = match entry(counts, "elementCount", o) {
        Ok(GValue::Int64(n)) => *n,
        Ok(_) => return Err(DecodeError::Downcast),
        Err(e) => return Err(e),
    };
    let annotations = match entry(m, "annotations", o) {
        Ok(GValue::GMap(a)) => a,
        Ok(_) => return Err(DecodeError::Downcast),
        Err(e) => return Err(e),
    };
    let perc_duration = match entry(annotations, "percentDur", o) {
        Ok(GValue::Double(b)) => *b,
        Ok(_) => return Err(DecodeError::Downcast),
        Err(e) => return Err(e),
    };
    Ok(Metric { id, name, duration, count, traversers, perc_duration })
}

/// The metrics among `items`, in order; other values are skipped.
fn metrics_in(items: &Vec<GValue>) -> (r: Vec<Metric>)
    ensures
        metrics_model(r@) == keep_metrics(values_model(items@)),
{
    proof {
        lemma_values_model(items@);
    }
    let ghost m = values_model(items@);
    let mut out: Vec<Metric> = Vec::new();
    let mut i: usize = 0;
    while i < items.len()
        invariant
            i <= items.len(),
            m == values_model(items@),
            m.len() == items@.len(),
            metrics_model(out@) == keep_metrics(m.subrange(0, i as int)),
        decreases items.len() - i,
    {
        proof {
            lemma_values_model(items@);
        }
        assert(m.subrange(0, i + 1).drop_last() == m.subrange(0, i as int));
        assert(m.subrange(0, i + 1).last() == value_model(items@[i as int]));
        match &items[i] {
            GValue::Metric(x) => {
                let c = copy_metric(x);
                proof {
                    assert(metrics_model(out@.push(c)) =~= metrics_model(out@).push(metric_model(c)));
                }
                out.push(c);
            },
            _ => {},
        }
        i += 1;
    }
    assert(m.subrange(0, i as int) == m);
    out
}

/// The strings among `items`, in order; other values are skipped.
fn strings_in(items: &Vec<GValue>) -> (r: Vec<String>)
    ensures
        strings_model(r@) == keep_strings(values_model(items@)),
{
    proof {
        lemma_values_model(items@);
    }
    let ghost m = values_model(items@);
    let mut out: Vec<String> = Vec::new();
    let mut i: usize = 0;
    while i < items.len()
        invariant
            i <= items.len(),
            m == values_model(items@),
            m.len() == items@.len(),
            strings_model(out@) == keep_strings(m.subrange(0, i as int)),
        decreases items.len() - i,
    {
        proof {
            lemma_values_model(items@);
        }
        assert(m.subrange(0, i + 1).drop_last() == m.subrange(0, i as int));
        assert(m.subrange(0, i + 1).last() == value_model(items@[i as int]));
        match &items[i] {
            GValue::String(x) => {
                let c = x.clone();
                proof {
                    assert(strings_model(out@.push(c)) =~= strings_model(out@).push(c@));
                }
                out.push(c);
            },
            _ => {},
        }
        i += 1;
    }
    assert(m.subrange(0, i as int) == m);
    out
}

/// Reads one stage of an explanation off its map.
fn intermediate_of(m: &GMap) -> (r: Result<IntermediateRepr, DecodeError>)
    ensures
        match r {
            Ok(x) => intermediate_from(m.model()) == Ok::<IntermediateModel, ErrorModel>(
                intermediate_model(x),
            ),
            Err(e) => intermediate_from(m.model()) == Err::<IntermediateModel, ErrorModel>(
                e.model(),
            ),
        },
{
    let o = "g:TraversalExplanation";
    let traversal = match entry(m, "traversal", o) {
        Ok(GValue::List(t)) => strings_in(t),
        Ok(_) => return Err(DecodeError::Downcast),
        Err(e) => return Err(e),
    };
    let strategy = match entry(m, "strategy", o) {
        Ok(GValue::String(s)) => s.clone(),
        Ok(_) => return Err(DecodeError::Downcast),
        Err(e) => return Err(e),
    };
    let category = match entry(m, "category", o) {
        Ok(GValue::String(s)) => s.clone(),
        Ok(_) => return Err(DecodeError::Downcast),
        Err(e) => return Err(e),
    };
    Ok(IntermediateRepr { traversal, strategy, category })
}

/// The stages among `items`: maps that read as a stage, in order.
fn intermediates_in(items: &Vec<GValue>) -> (r: Vec<IntermediateRepr>)
    ensures
        intermediates_model(r@) == keep_intermediates(values_model(items@)),
{
    proof {
        lemma_values_model(items@);
    }
    let ghost m = values_model(items@);
    let mut out: Vec<IntermediateRepr> = Vec::new();
    let mut i: usize = 0;
    while i < items.len()
        invariant
            i <= items.len(),
            m == values_model(items@),
            m.len() == items@.len(),
            intermediates_model(out@) == keep_intermediates(m.subrange(0, i as int)),
        decreases items.len() - i,
    {
        proof {
            lemma_values_model(items@);
        }
        assert(m.subrange(0, i + 1).drop_last() == m.subrange(0, i as int));
        assert(m.subrange(0, i + 1).last() == value_model(items@[i as int]));
        match &items[i] {
            GValue::GMap(x) => match intermediate_of(x) {
                Ok(c) => {
                    proof {
                        assert(intermediates_model(out@.push(c)) =~= intermediates_model(out@).push(
                            intermediate_model(c),
                        ));
                    }
                    out.push(c);
                },
                Err(_) => {},
            },
            _ => {},
        }
        i += 1;
    }
    assert(m.subrange(0, i as int) == m);
    out
}

/// Reads a traversal's profile off its decoded map; entries of `metrics`
/// that are not metrics are skipped.
pub fn traversal_metrics_of(v: &GValue) -> (r: Result<TraversalMetrics, DecodeError>)
    ensures
        match r {
            Ok(t) => traversal_metrics_from(value_model(*v)) == Ok::<
                (u64, Seq<MetricModel>),
                ErrorModel,
            >((t.duration, metrics_model(t.metrics@))),
            Err(e) => traversal_metrics_from(value_model(*v)) == Err::<
                (u64, Seq<MetricModel>),
                ErrorModel,
            >(e.model()),
        },
{
    let o = "g:TraversalMetrics";
    let m = match v {
        GValue::GMap(m) => m,
        _ => return Err(DecodeError::Downcast),
    };
    let duration = match entry(m, "dur", o) {
        Ok(GValue::Double(b)) => *b,
        Ok(_) => return Err(DecodeError::Downcast),
        Err(e) => return Err(e),
    };
    let metrics = match entry(m, "metrics", o) {
        Ok(GValue::List(items)) => metrics_in(items),
        Ok(_) => return Err(DecodeError::Downcast),
        Err(e) => return Err(e),
    };
    Ok(TraversalMetrics { duration, metrics })
}

/// Reads an explanation off its decoded map; non-string steps and entries
/// of `intermediate` that do not read as a stage are skipped.
pub fn explanation_of(v: &GValue) -> (r: Result<TraversalExplanation, DecodeError>)
    ensures
        match r {
            Ok(x) => explanation_from(value_model(*v)) == Ok::<
                crate::model::ExplanationModel,
                ErrorModel,
            >(crate::model::explanation_model(x)),
            Err(e) => explanation_from(value_model(*v)) == Err::<
                crate::model::ExplanationModel,
                ErrorModel,
            >(e.model()),
        },
{
    let o = "g:TraversalExplanation";
    let m = match v {
        GValue::GMap(m) => m,
        _ => return Err(DecodeError::Downcast),
    };
    let original = match entry(m, "original", o) {
        Ok(GValue::List(items)) => strings_in(items),
        Ok(_) => return Err(DecodeError::Downcast),
        Err(e) => return Err(e),
    };
    let finals = match entry(m, "final", o) {
        Ok(GValue::List(items)) => strings_in(items),
        Ok(_) => return Err(DecodeError::Downcast),
        Err(e) => return Err(e),
    };
    let intermediate = match entry(m, "intermediate", o) {
        Ok(GValue::List(items)) => intermediates_in(items),
        Ok(_) => return Err(DecodeError::Downcast),
        Err(e) => return Err(e),
    };
    Ok(TraversalExplanation { original, finals, intermediate })
}

/// `g:TraversalMetrics`: a tagged map with `dur` and `metrics`.
pub fn deserialize_metrics(val: &Json) -> (r: Result<GValue, DecodeError>)
    ensures
        result_model(r) == traversal_metrics_payload_spec(val.model()),
    decreases val, 4int,
{
    match deserializer_v3(val) {
        Ok(v) => match traversal_metrics_of(&v) {
            Ok(t) => Ok(GValue::TraversalMetrics(t)),
            Err(e) => Err(e),
        },
        Err(e) => Err(e),
    }
}

/// `g:Metrics`: a tagged map with `dur`, `id`, `name`, `counts` and
/// `annotations`.
pub fn deserialize_metric(val: &Json) -> (r: Result<GValue, DecodeError>)
    ensures
        result_model(r) == metric_payload_spec(val.model()),
    decreases val, 4int,
{
    match deserializer_v3(val) {
        Ok(v) => match metric_of(&v) {
            Ok(m) => Ok(GValue::Metric(m)),
            Err(e) => Err(e),
        },
        Err(e) => Err(e),
    }
}

/// `g:TraversalExplanation`: a tagged map with `original`, `final` and
/// `intermediate`.
pub fn deserialize_explain(val: &Json) -> (r: Result<GValue, DecodeError>)
    ensures
        result_model(r) == explanation_payload_spec(val.model()),
    decreases val, 4int,
{
    match deserializer_v3(val) {
        Ok(v) => match explanation_of(&v) {
            Ok(x) => Ok(GValue::TraversalExplanation(x)),
            Err(e) => Err(e),
        },
        Err(e) => Err(e),
    }
}

} // verus!
