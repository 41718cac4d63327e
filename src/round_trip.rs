//! Decoding what the encoder writes gives the value back.
use vstd::prelude::*;

use crate::encoder::{
    lemma_encode_list, lemma_encode_pairs,
    double_json, explanation_json, intermediate_json, long_json, metric_json, strings_json,
    edge_json, encode_list, encode_pairs, encode_spec, id_json, key_json, properties_json,
    vertex_json, vertex_properties_json, vertex_property_json,
};
use crate::graphson::{
    decode_spec, decode_tagged, edge_payload_spec, edge_spec, field_index, id_field_spec,
    id_spec, label_spec, list_payload_spec, list_spec, map_payload_spec, mkey_index, mstore,
    pairs_spec, path_payload_spec, path_spec, properties_field_spec, properties_spec,
    property_payload_spec, property_spec, string_field_spec, tag_edge, tag_list, tag_map,
    tag_path, tag_property, tag_uuid, tag_vertex, tag_vertex_property, value_field_spec,
    vertex_payload_spec, vertex_property_items_spec, vertex_property_payload_spec,
    vertex_property_spec, vertex_spec, ErrorModel, keep_metrics, metric_from, metric_payload_spec,
    mlookup, tag_metrics, tag_traversal_metrics, traversal_metrics_from,
    traversal_metrics_payload_spec, explanation_from, explanation_payload_spec, intermediate_from,
    keep_intermediates, keep_strings, tag_explanation,
};
use crate::json::JsonModel;
use crate::laws::{envelope, lemma_envelope_keys, lemma_tag_letters};
use crate::model::{ExplanationModel, IdModel, IntermediateModel, KeyModel, MetricModel, ValueModel, VertexModel, VertexPropertyModel};
use crate::scalars::{date_in_range, lemma_uuid_text};

verus! {

/// Every key is a string, and no key occurs twice.
pub open spec fn string_keys_unique(m: Seq<(KeyModel, ValueModel)>) -> bool {
    &&& forall|i: int| 0 <= i < m.len() ==> (#[trigger] m[i].0) is Str
    &&& forall|i: int, j: int| 0 <= i < j < m.len() ==> m[i].0 != m[j].0
}

/// A value that the wire can carry: dates within range, maps keyed by
/// distinct strings, edges without properties, paths whose labels are a list
/// as long as their objects, and no predicates (no decoder is registered for
/// them).
pub open spec fn wire_value(v: ValueModel) -> bool
    decreases v, 0int,
{
    match v {
        ValueModel::Date(d) => date_in_range(d as int),
        ValueModel::List(s) => forall|i: int| 0 <= i < s.len() ==> wire_value(#[trigger] s[i]),
        ValueModel::Dict(m) => string_keys_unique(m) && forall|i: int|
            0 <= i < m.len() ==> wire_value(#[trigger] m[i].1),
        ValueModel::Vertex(x) => wire_properties(x.properties),
        ValueModel::VertexProperty(x) => wire_value(*x.value),
        ValueModel::Property(x) => wire_value(*x.value),
        ValueModel::Edge(x) => x.properties.len() == 0,
        ValueModel::Path(l, o) => wire_value(*l) && (*l) is List && (*l)->List_0.len() == o.len()
            && forall|i: int| 0 <= i < o.len() ==> wire_value(#[trigger] o[i]),
        ValueModel::P(_, _) => false,
        _ => true,
    }
}

pub open spec fn wire_properties(ps: Seq<(Seq<char>, Seq<VertexPropertyModel>)>) -> bool
    decreases ps, 1int,
{
    forall|k: int| 0 <= k < ps.len() ==> wire_vertex_properties(#[trigger] ps[k].1)
}

pub open spec fn wire_vertex_properties(vps: Seq<VertexPropertyModel>) -> bool
    decreases vps, 1int,
{
    forall|l: int| 0 <= l < vps.len() ==> wire_value(*(#[trigger] vps[l]).value)
}

proof fn lemma_field_names()
    ensures
        "id"@.len() == 2,
        "label"@.len() == 5,
        "label"@[0] == 'l',
        "value"@.len() == 5,
        "value"@[0] == 'v',
        "key"@.len() == 3,
        "properties"@.len() == 10,
        "inV"@.len() == 3,
        "inV"@[0] == 'i',
        "inVLabel"@.len() == 8,
        "outV"@.len() == 4,
        "outVLabel"@.len() == 9,
        "labels"@.len() == 6,
        "objects"@.len() == 7,
{
    reveal_strlit("id");
    reveal_strlit("label");
    reveal_strlit("value");
    reveal_strlit("key");
    reveal_strlit("properties");
    reveal_strlit("inV");
    reveal_strlit("inVLabel");
    reveal_strlit("outV");
    reveal_strlit("outVLabel");
    reveal_strlit("labels");
    reveal_strlit("objects");
}

proof fn lemma_id_round_trip(id: IdModel)
    ensures
        id_spec(id_json(id)) == Ok::<IdModel, ErrorModel>(id),
{
    lemma_envelope_keys();
    lemma_tag_letters();
}

proof fn lemma_mkey_absent(m: Seq<(KeyModel, ValueModel)>, k: Seq<char>)
    requires
        forall|j: int| 0 <= j < m.len() ==> (#[trigger] m[j].0) != KeyModel::Str(k),
    ensures
        mkey_index(m, k) == -1,
    decreases m.len(),
{
    if m.len() > 0 {
        lemma_mkey_absent(m.drop_last(), k);
    }
}

proof fn lemma_encode_pairs_len(m: Seq<(KeyModel, ValueModel)>)
    ensures
        encode_pairs(m).len() == 2 * m.len(),
    decreases m.len(),
{
    if m.len() > 0 {
        lemma_encode_pairs_len(m.subrange(0, m.len() - 1));
    }
}

/// Decoding what the encoder writes for a wire value gives the value back.
pub proof fn lemma_round_trip(v: ValueModel)
    requires
        wire_value(v),
    ensures
        decode_spec(encode_spec(v)) == Ok::<ValueModel, ErrorModel>(v),
    decreases v, 2int,
{
    match v {
        ValueModel::List(s) => {
            lemma_list_value_round_trip(v, s);
        },
        ValueModel::Dict(m) => {
            lemma_dict_round_trip(v, m);
        },
        ValueModel::Vertex(x) => {
            lemma_vertex_value_round_trip(v, x);
        },
        ValueModel::VertexProperty(x) => {
            lemma_vertex_property_value_round_trip(v, x);
        },
        ValueModel::Property(x) => {
            lemma_property_round_trip(v, x);
        },
        ValueModel::Edge(x) => {
            lemma_edge_round_trip(v, x);
        },
        ValueModel::Path(l, o) => {
            lemma_path_round_trip(v, *l, o);
        },
        ValueModel::Metric(m) => {
            lemma_metric_round_trip(m);
        },
        ValueModel::TraversalMetrics(d, ms) => {
            lemma_traversal_metrics_round_trip(d, ms);
        },
        ValueModel::TraversalExplanation(x) => {
            lemma_explanation_round_trip(x);
        },
        _ => {
            lemma_scalar_round_trip(v);
        },
    }
}

#[verifier::spinoff_prover]
proof fn lemma_scalar_round_trip(v: ValueModel)
    requires
        wire_value(v),
        !(v is List || v is Dict || v is Vertex || v is VertexProperty || v is Property || v is Edge
            || v is Path || v is Metric || v is TraversalMetrics || v is TraversalExplanation),
    ensures
        decode_spec(encode_spec(v)) == Ok::<ValueModel, ErrorModel>(v),
{
    lemma_envelope_keys();
    lemma_tag_letters();
    match v {
        ValueModel::Uuid(u) => {
            lemma_uuid_text(u);
        },
        _ => {},
    }
}

proof fn lemma_list_value_round_trip(v: ValueModel, s: Seq<ValueModel>)
    requires
        v == ValueModel::List(s),
        wire_value(v),
    ensures
        decode_spec(encode_spec(v)) == Ok::<ValueModel, ErrorModel>(v),
    decreases v, 1int,
{
    lemma_envelope_keys();
    lemma_tag_letters();
    lemma_list_round_trip(s);
    let p = JsonModel::Array(encode_list(s));
    assert(list_payload_spec(p) == Ok::<ValueModel, ErrorModel>(v));
    assert(decode_tagged(tag_list(), p) == list_payload_spec(p));
}

proof fn lemma_dict_round_trip(v: ValueModel, m: Seq<(KeyModel, ValueModel)>)
    requires
        v == ValueModel::Dict(m),
        wire_value(v),
    ensures
        decode_spec(encode_spec(v)) == Ok::<ValueModel, ErrorModel>(v),
    decreases v, 1int,
{
    lemma_envelope_keys();
    lemma_tag_letters();
    lemma_pairs_round_trip(m);
    lemma_encode_pairs_len(m);
    let p = JsonModel::Array(encode_pairs(m));
    assert(map_payload_spec(p) == Ok::<ValueModel, ErrorModel>(v));
    assert(decode_tagged(tag_map(), p) == map_payload_spec(p));
}

proof fn lemma_vertex_value_round_trip(v: ValueModel, x: VertexModel)
    requires
        v == ValueModel::Vertex(x),
        wire_value(v),
    ensures
        decode_spec(encode_spec(v)) == Ok::<ValueModel, ErrorModel>(v),
    decreases v, 1int,
{
    lemma_envelope_keys();
    lemma_tag_letters();
    lemma_vertex_round_trip(x);
    let p = vertex_json(x);
    assert(decode_tagged(tag_vertex(), p) == vertex_payload_spec(p));
}

proof fn lemma_vertex_property_value_round_trip(v: ValueModel, x: VertexPropertyModel)
    requires
        v == ValueModel::VertexProperty(x),
        wire_value(v),
    ensures
        decode_spec(encode_spec(v)) == Ok::<ValueModel, ErrorModel>(v),
    decreases v, 1int,
{
    lemma_envelope_keys();
    lemma_tag_letters();
    lemma_vertex_property_round_trip(x);
    let p = vertex_property_json(x);
    assert(decode_tagged(tag_vertex_property(), p) == vertex_property_payload_spec(p));
}

#[verifier::spinoff_prover]
#[verifier::rlimit(100)]
proof fn lemma_property_round_trip(v: ValueModel, x: crate::model::PropertyModel)
    requires
        v == ValueModel::Property(x) && wire_value(*x.value),
    ensures
        decode_spec(encode_spec(v)) == Ok::<ValueModel, ErrorModel>(v),
    decreases v, 1int,
{
    lemma_envelope_keys();
    lemma_tag_letters();

    lemma_round_trip(*x.value);
    lemma_field_names();
    let fs = seq![("key"@, JsonModel::Str(x.key)), ("value"@, encode_spec(*x.value))];
    assert(field_index(fs, "key"@) == 0) by {
        reveal_with_fuel(field_index, 3);
    }
    assert(field_index(fs, "value"@) == 1) by {
        reveal_with_fuel(field_index, 3);
    }
    assert(value_field_spec(fs, "value"@, tag_property()) == Ok::<ValueModel, ErrorModel>(*x.value));
    assert(property_spec(fs) == Ok::<ValueModel, ErrorModel>(v));
    let p = JsonModel::Object(fs);
    assert(property_payload_spec(p) == property_spec(fs));
    assert(decode_tagged(tag_property(), p) == property_payload_spec(p));
}

#[verifier::spinoff_prover]
#[verifier::rlimit(100)]
proof fn lemma_edge_round_trip(v: ValueModel, x: crate::model::EdgeModel)
    requires
        v == ValueModel::Edge(x) && x.properties.len() == 0,
    ensures
        decode_spec(encode_spec(v)) == Ok::<ValueModel, ErrorModel>(v),
    decreases v, 1int,
{
    lemma_envelope_keys();
    lemma_tag_letters();

    lemma_field_names();
    let fs = edge_json(x)->Object_0;
    assert(field_index(fs, "id"@) == 0) by {
        reveal_with_fuel(field_index, 7);
    }
    assert(field_index(fs, "label"@) == 1) by {
        reveal_with_fuel(field_index, 7);
    }
    assert(field_index(fs, "inV"@) == 2) by {
        reveal_with_fuel(field_index, 7);
    }
    assert(field_index(fs, "inVLabel"@) == 3) by {
        reveal_with_fuel(field_index, 7);
    }
    assert(field_index(fs, "outV"@) == 4) by {
        reveal_with_fuel(field_index, 7);
    }
    assert(field_index(fs, "outVLabel"@) == 5) by {
        reveal_with_fuel(field_index, 7);
    }
    lemma_id_round_trip(x.id);
    lemma_id_round_trip(x.in_v_id);
    lemma_id_round_trip(x.out_v_id);
    assert(id_field_spec(fs, "id"@, tag_edge()) == Ok::<IdModel, ErrorModel>(x.id));
    assert(id_field_spec(fs, "inV"@, tag_edge()) == Ok::<IdModel, ErrorModel>(x.in_v_id));
    assert(id_field_spec(fs, "outV"@, tag_edge()) == Ok::<IdModel, ErrorModel>(x.out_v_id));
    assert(x.properties =~= Seq::empty());
    assert(edge_spec(fs) == Ok::<ValueModel, ErrorModel>(v));
    let p = edge_json(x);
    assert(edge_payload_spec(p) == edge_spec(fs));
    assert(decode_tagged(tag_edge(), p) == edge_payload_spec(p));
}

#[verifier::spinoff_prover]
#[verifier::rlimit(100)]
proof fn lemma_path_round_trip(v: ValueModel, l: ValueModel, o: Seq<ValueModel>)
    requires
        v == ValueModel::Path(Box::new(l), o) && wire_value(l) && l is List && l->List_0.len()
            == o.len() && forall|i: int| 0 <= i < o.len() ==> wire_value(#[trigger] o[i]),
    ensures
        decode_spec(encode_spec(v)) == Ok::<ValueModel, ErrorModel>(v),
    decreases v, 1int,
{
    lemma_envelope_keys();
    lemma_tag_letters();

    lemma_round_trip(l);
    lemma_list_round_trip(o);
    lemma_field_names();
    let objects = envelope(tag_list(), JsonModel::Array(encode_list(o)));
    assert(decode_tagged(tag_list(), JsonModel::Array(encode_list(o))) == list_payload_spec(
        JsonModel::Array(encode_list(o)),
    ));
    assert(decode_spec(objects) == Ok::<ValueModel, ErrorModel>(ValueModel::List(o)));
    let fs = seq![("labels"@, encode_spec(l)), ("objects"@, objects)];
    assert(field_index(fs, "labels"@) == 0) by {
        reveal_with_fuel(field_index, 3);
    }
    assert(field_index(fs, "objects"@) == 1) by {
        reveal_with_fuel(field_index, 3);
    }
    assert(value_field_spec(fs, "labels"@, tag_path()) == Ok::<ValueModel, ErrorModel>(l));
    assert(value_field_spec(fs, "objects"@, tag_path()) == Ok::<ValueModel, ErrorModel>(
        ValueModel::List(o),
    ));
    assert(path_spec(fs) == Ok::<ValueModel, ErrorModel>(v));
    let p = JsonModel::Object(fs);
    assert(path_payload_spec(p) == path_spec(fs));
    assert(decode_tagged(tag_path(), p) == path_payload_spec(p));
}

proof fn lemma_list_round_trip(s: Seq<ValueModel>)
    requires
        forall|i: int| 0 <= i < s.len() ==> wire_value(#[trigger] s[i]),
    ensures
        list_spec(encode_list(s)) == Ok::<Seq<ValueModel>, ErrorModel>(s),
    decreases s, 1int,
{
    assert forall|i: int| 0 <= i < s.len() implies decode_spec(encode_spec(#[trigger] s[i])) == Ok::<
        ValueModel,
        ErrorModel,
    >(s[i]) by {
        lemma_round_trip(s[i]);
    }
    lemma_list_decodes(s);
}

proof fn lemma_pairs_round_trip(m: Seq<(KeyModel, ValueModel)>)
    requires
        string_keys_unique(m),
        forall|i: int| 0 <= i < m.len() ==> wire_value(#[trigger] m[i].1),
    ensures
        pairs_spec(encode_pairs(m)) == Ok::<Seq<(KeyModel, ValueModel)>, ErrorModel>(m),
    decreases m, 1int,
{
    assert forall|i: int| 0 <= i < m.len() implies decode_spec(encode_spec(#[trigger] m[i].1)) == Ok::<
        ValueModel,
        ErrorModel,
    >(m[i].1) by {
        lemma_round_trip(m[i].1);
    }
    lemma_pairs_decode(m);
}

/// A list whose elements each decode back decodes back.
pub proof fn lemma_list_decodes(s: Seq<ValueModel>)
    requires
        forall|i: int| 0 <= i < s.len() ==> decode_spec(encode_spec(#[trigger] s[i])) == Ok::<ValueModel, ErrorModel>(s[i]),
    ensures
        list_spec(encode_list(s)) == Ok::<Seq<ValueModel>, ErrorModel>(s),
    decreases s.len(),
{
    if s.len() > 0 {
        let pre = s.subrange(0, s.len() - 1);
        lemma_list_decodes(pre);
        let e = encode_list(s);
        assert(e.subrange(0, e.len() - 1) == encode_list(pre));
        assert(pre.push(s[s.len() - 1]) == s);
    } else {
        assert(s == Seq::<ValueModel>::empty());
    }
}

/// A map with distinct string keys whose values each decode back decodes back.
pub proof fn lemma_pairs_decode(m: Seq<(KeyModel, ValueModel)>)
    requires
        string_keys_unique(m),
        forall|i: int| 0 <= i < m.len() ==> decode_spec(encode_spec(#[trigger] m[i].1)) == Ok::<ValueModel, ErrorModel>(m[i].1),
    ensures
        pairs_spec(encode_pairs(m)) == Ok::<Seq<(KeyModel, ValueModel)>, ErrorModel>(m),
    decreases m.len(),
{
    if m.len() > 0 {
        let n = m.len() - 1;
        let pre = m.subrange(0, n);
        assert(string_keys_unique(pre));
        lemma_pairs_decode(pre);
        lemma_encode_pairs_len(pre);
        let e = encode_pairs(m);
        assert(e.subrange(0, e.len() - 2) == encode_pairs(pre));
        assert(e[e.len() - 2] == key_json(m[n].0));
        assert(e[e.len() - 1] == encode_spec(m[n].1));
        assert(m[n].0 is Str);
        let k = m[n].0->Str_0;
        assert forall|j: int| 0 <= j < pre.len() implies (#[trigger] pre[j].0) != KeyModel::Str(k) by {
            assert(m[j].0 != m[n].0);
        }
        lemma_mkey_absent(pre, k);
        assert(mstore(pre, k, m[n].1) == pre.push((KeyModel::Str(k), m[n].1)));
        assert(pre.push((KeyModel::Str(k), m[n].1)) =~= m);
    } else {
        assert(m == Seq::<(KeyModel, ValueModel)>::empty());
    }
}

proof fn lemma_vertex_round_trip(x: VertexModel)
    requires
        wire_properties(x.properties),
    ensures
        vertex_spec(vertex_json(x)->Object_0) == Ok::<ValueModel, ErrorModel>(ValueModel::Vertex(x)),
    decreases x, 1int,
{
    lemma_field_names();
    let fs = vertex_json(x)->Object_0;
    assert(field_index(fs, "id"@) == 0) by {
        reveal_with_fuel(field_index, 4);
    }
    assert(field_index(fs, "label"@) == 1) by {
        reveal_with_fuel(field_index, 4);
    }
    assert(field_index(fs, "properties"@) == 2) by {
        reveal_with_fuel(field_index, 4);
    }
    lemma_id_round_trip(x.id);
    assert(id_field_spec(fs, "id"@, tag_vertex()) == Ok::<IdModel, ErrorModel>(x.id));
    lemma_properties_round_trip(x.properties);
    assert(properties_field_spec(fs) == properties_spec(properties_json(x.properties)));
}

proof fn lemma_properties_round_trip(ps: Seq<(Seq<char>, Seq<VertexPropertyModel>)>)
    requires
        wire_properties(ps),
    ensures
        properties_spec(properties_json(ps)) == Ok::<
            Seq<(Seq<char>, Seq<VertexPropertyModel>)>,
            ErrorModel,
        >(ps),
    decreases ps, 1int,
{
    if ps.len() > 0 {
        let n = ps.len() - 1;
        let pre = ps.subrange(0, n);
        assert(wire_properties(pre)) by {
            assert forall|k: int| 0 <= k < pre.len() implies wire_vertex_properties(#[trigger] pre[k].1) by {
                assert(pre[k] == ps[k]);
            }
        }
        lemma_properties_round_trip(pre);
        assert(wire_vertex_properties(ps[n].1));
        lemma_vertex_properties_round_trip(ps[n].1);
        let e = properties_json(ps);
        assert(e.subrange(0, e.len() - 1) == properties_json(pre));
        assert(pre.push(ps[n]) =~= ps);
    } else {
        assert(ps =~= Seq::<(Seq<char>, Seq<VertexPropertyModel>)>::empty());
    }
}

proof fn lemma_vertex_properties_round_trip(vps: Seq<VertexPropertyModel>)
    requires
        wire_vertex_properties(vps),
    ensures
        vertex_property_items_spec(vertex_properties_json(vps)) == Ok::<
            Seq<VertexPropertyModel>,
            ErrorModel,
        >(vps),
    decreases vps, 1int,
{
    if vps.len() > 0 {
        let n = vps.len() - 1;
        let pre = vps.subrange(0, n);
        assert(wire_vertex_properties(pre)) by {
            assert forall|l: int| 0 <= l < pre.len() implies wire_value(*(#[trigger] pre[l]).value) by {
                assert(pre[l] == vps[l]);
            }
        }
        lemma_vertex_properties_round_trip(pre);
        assert(wire_value(*vps[n].value));
        lemma_vertex_property_round_trip(vps[n]);
        lemma_envelope_keys();
        lemma_tag_letters();
        let p = vertex_property_json(vps[n]);
        assert(vertex_property_payload_spec(p) == vertex_property_spec(p->Object_0));
        assert(decode_tagged(tag_vertex_property(), p) == vertex_property_payload_spec(p));
        assert(decode_spec(envelope(tag_vertex_property(), p)) == decode_tagged(tag_vertex_property(), p));
        let e = vertex_properties_json(vps);
        assert(e.subrange(0, e.len() - 1) == vertex_properties_json(pre));
        assert(pre.push(vps[n]) =~= vps);
    } else {
        assert(vps =~= Seq::<VertexPropertyModel>::empty());
    }
}

proof fn lemma_vertex_property_round_trip(x: VertexPropertyModel)
    requires
        wire_value(*x.value),
    ensures
        vertex_property_spec(vertex_property_json(x)->Object_0) == Ok::<ValueModel, ErrorModel>(
            ValueModel::VertexProperty(x),
        ),
    decreases x, 1int,
{
    lemma_field_names();
    lemma_round_trip(*x.value);
    let fs = vertex_property_json(x)->Object_0;
    assert(field_index(fs, "id"@) == 0) by {
        reveal_with_fuel(field_index, 4);
    }
    assert(field_index(fs, "label"@) == 1) by {
        reveal_with_fuel(field_index, 4);
    }
    assert(field_index(fs, "value"@) == 2) by {
        reveal_with_fuel(field_index, 4);
    }
    lemma_id_round_trip(x.id);
    assert(id_field_spec(fs, "id"@, tag_vertex_property()) == Ok::<IdModel, ErrorModel>(x.id));
    assert(value_field_spec(fs, "value"@, tag_vertex_property()) == Ok::<ValueModel, ErrorModel>(*x.value));
}

} // verus!

verus! {

proof fn lemma_profile_names()
    ensures
        "dur"@.len() == 3,
        "id"@.len() == 2,
        "name"@.len() == 4,
        "counts"@.len() == 6,
        "annotations"@.len() == 11,
        "traverserCount"@.len() == 14,
        "elementCount"@.len() == 12,
        "percentDur"@.len() == 10,
        "metrics"@.len() == 7,
{
    reveal_strlit("dur");
    reveal_strlit("id");
    reveal_strlit("name");
    reveal_strlit("counts");
    reveal_strlit("annotations");
    reveal_strlit("traverserCount");
    reveal_strlit("elementCount");
    reveal_strlit("percentDur");
    reveal_strlit("metrics");
}

/// A map with distinct string keys whose values each decode back decodes
/// back.
pub proof fn lemma_dict_decodes(m: Seq<(KeyModel, ValueModel)>)
    requires
        string_keys_unique(m),
        forall|i: int| 0 <= i < m.len() ==> decode_spec(encode_spec(#[trigger] m[i].1)) == Ok::<ValueModel, ErrorModel>(m[i].1),
    ensures
        decode_spec(encode_spec(ValueModel::Dict(m))) == Ok::<ValueModel, ErrorModel>(ValueModel::Dict(m)),
{
    lemma_envelope_keys();
    lemma_tag_letters();
    lemma_pairs_decode(m);
    lemma_encode_pairs_len(m);
    let p = JsonModel::Array(encode_pairs(m));
    assert(map_payload_spec(p) == Ok::<ValueModel, ErrorModel>(ValueModel::Dict(m)));
    assert(decode_tagged(tag_map(), p) == map_payload_spec(p));
}

/// A list whose elements each decode back decodes back.
pub proof fn lemma_list_value_decodes(s: Seq<ValueModel>)
    requires
        forall|i: int| 0 <= i < s.len() ==> decode_spec(encode_spec(#[trigger] s[i])) == Ok::<ValueModel, ErrorModel>(s[i]),
    ensures
        decode_spec(encode_spec(ValueModel::List(s))) == Ok::<ValueModel, ErrorModel>(ValueModel::List(s)),
{
    lemma_envelope_keys();
    lemma_tag_letters();
    lemma_list_decodes(s);
    let p = JsonModel::Array(encode_list(s));
    assert(list_payload_spec(p) == Ok::<ValueModel, ErrorModel>(ValueModel::List(s)));
    assert(decode_tagged(tag_list(), p) == list_payload_spec(p));
}

pub open spec fn metric_entries(m: MetricModel) -> Seq<(KeyModel, ValueModel)> {
    seq![
        (KeyModel::Str("dur"@), ValueModel::Double(m.duration)),
        (KeyModel::Str("id"@), ValueModel::Str(m.id)),
        (KeyModel::Str("name"@), ValueModel::Str(m.name)),
        (KeyModel::Str("counts"@), ValueModel::Dict(seq![
            (KeyModel::Str("traverserCount"@), ValueModel::Int64(m.traversers)),
            (KeyModel::Str("elementCount"@), ValueModel::Int64(m.count)),
        ])),
        (KeyModel::Str("annotations"@), ValueModel::Dict(seq![
            (KeyModel::Str("percentDur"@), ValueModel::Double(m.perc_duration)),
        ])),
    ]
}

#[verifier::spinoff_prover]
#[verifier::rlimit(100)]
proof fn lemma_metric_entries_decode(m: MetricModel)
    ensures
        decode_spec(encode_spec(ValueModel::Dict(metric_entries(m)))) == Ok::<ValueModel, ErrorModel>(
            ValueModel::Dict(metric_entries(m)),
        ),
{
    lemma_profile_names();
    let es = metric_entries(m);
    let cs = es[3].1->Dict_0;
    let an = es[4].1->Dict_0;
    lemma_scalar_round_trip(ValueModel::Int64(m.traversers));
    lemma_scalar_round_trip(ValueModel::Int64(m.count));
    lemma_scalar_round_trip(ValueModel::Double(m.perc_duration));
    lemma_scalar_round_trip(ValueModel::Double(m.duration));
    lemma_scalar_round_trip(ValueModel::Str(m.id));
    lemma_scalar_round_trip(ValueModel::Str(m.name));
    assert(string_keys_unique(cs));
    lemma_dict_decodes(cs);
    assert(string_keys_unique(an));
    lemma_dict_decodes(an);
    assert(string_keys_unique(es));
    lemma_dict_decodes(es);
}

#[verifier::spinoff_prover]
#[verifier::rlimit(100)]
proof fn lemma_metric_json(m: MetricModel)
    ensures
        metric_json(m) == envelope(tag_metrics(), encode_spec(ValueModel::Dict(metric_entries(m)))),
{
    let es = metric_entries(m);
    let cs = es[3].1->Dict_0;
    let an = es[4].1->Dict_0;
    lemma_encode_pairs(cs);
    lemma_encode_pairs(an);
    lemma_encode_pairs(es);
    let _ = (cs[0], cs[1], an[0], es[0], es[1], es[2], es[3], es[4]);
    assert(encode_pairs(cs) =~= seq![
        JsonModel::Str("traverserCount"@),
        long_json(m.traversers),
        JsonModel::Str("elementCount"@),
        long_json(m.count),
    ]);
    assert(encode_pairs(an) =~= seq![JsonModel::Str("percentDur"@), double_json(m.perc_duration)]);
    assert(encode_pairs(es) =~= metric_json(m)->Object_0[1].1->Object_0[1].1->Array_0);
}

/// What the encoder writes for a metric decodes back to it.
#[verifier::spinoff_prover]
#[verifier::rlimit(100)]
pub proof fn lemma_metric_round_trip(m: MetricModel)
    ensures
        decode_spec(metric_json(m)) == Ok::<ValueModel, ErrorModel>(ValueModel::Metric(m)),
{
    lemma_envelope_keys();
    lemma_tag_letters();
    lemma_profile_names();
    let es = metric_entries(m);
    lemma_metric_entries_decode(m);
    lemma_metric_json(m);
    let p = encode_spec(ValueModel::Dict(es));
    assert(mkey_index(es, "dur"@) == 0) by {
        reveal_with_fuel(mkey_index, 6);
    }
    assert(mkey_index(es, "id"@) == 1) by {
        reveal_with_fuel(mkey_index, 6);
    }
    assert(mkey_index(es, "name"@) == 2) by {
        reveal_with_fuel(mkey_index, 6);
    }
    assert(mkey_index(es, "counts"@) == 3) by {
        reveal_with_fuel(mkey_index, 6);
    }
    assert(mkey_index(es, "annotations"@) == 4) by {
        reveal_with_fuel(mkey_index, 6);
    }
    let cs = es[3].1->Dict_0;
    let an = es[4].1->Dict_0;
    assert(mkey_index(cs, "traverserCount"@) == 0) by {
        reveal_with_fuel(mkey_index, 3);
    }
    assert(mkey_index(cs, "elementCount"@) == 1) by {
        reveal_with_fuel(mkey_index, 3);
    }
    assert(mkey_index(an, "percentDur"@) == 0) by {
        reveal_with_fuel(mkey_index, 2);
    }
    assert(metric_from(ValueModel::Dict(es)) == Ok::<MetricModel, ErrorModel>(m));
    assert(metric_payload_spec(p) == Ok::<ValueModel, ErrorModel>(ValueModel::Metric(m)));
    assert(decode_tagged(tag_metrics(), p) == metric_payload_spec(p));
}

} // verus!

verus! {

pub open spec fn metric_values(ms: Seq<MetricModel>) -> Seq<ValueModel> {
    ms.map_values(|m: MetricModel| ValueModel::Metric(m))
}

pub open spec fn traversal_metrics_entries(d: u64, ms: Seq<MetricModel>) -> Seq<(KeyModel, ValueModel)> {
    seq![
        (KeyModel::Str("dur"@), ValueModel::Double(d)),
        (KeyModel::Str("metrics"@), ValueModel::List(metric_values(ms))),
    ]
}

proof fn lemma_keep_metrics(ms: Seq<MetricModel>)
    ensures
        keep_metrics(metric_values(ms)) == ms,
    decreases ms.len(),
{
    if ms.len() > 0 {
        lemma_keep_metrics(ms.drop_last());
        assert(metric_values(ms).drop_last() =~= metric_values(ms.drop_last()));
        assert(ms.drop_last().push(ms.last()) =~= ms);
    } else {
        assert(ms =~= Seq::<MetricModel>::empty());
    }
}

#[verifier::spinoff_prover]
#[verifier::rlimit(100)]
proof fn lemma_traversal_metrics_encoding(d: u64, ms: Seq<MetricModel>)
    ensures
        encode_spec(ValueModel::TraversalMetrics(d, ms)) == envelope(
            tag_traversal_metrics(),
            encode_spec(ValueModel::Dict(traversal_metrics_entries(d, ms))),
        ),
{
    let es = traversal_metrics_entries(d, ms);
    let mv = metric_values(ms);
    lemma_encode_pairs(es);
    let _ = (es[0], es[1]);
    lemma_encode_list(mv);
    let whole = encode_spec(ValueModel::TraversalMetrics(d, ms));
    let items = whole->Object_0[1].1->Object_0[1].1->Array_0;
    assert(encode_list(mv) =~= items[3]->Object_0[1].1->Array_0);
    assert(encode_pairs(es) =~= items);
}

/// What the encoder writes for a traversal's profile decodes back to it.
#[verifier::spinoff_prover]
#[verifier::rlimit(100)]
pub proof fn lemma_traversal_metrics_round_trip(d: u64, ms: Seq<MetricModel>)
    ensures
        decode_spec(encode_spec(ValueModel::TraversalMetrics(d, ms))) == Ok::<ValueModel, ErrorModel>(
            ValueModel::TraversalMetrics(d, ms),
        ),
{
    lemma_envelope_keys();
    lemma_tag_letters();
    lemma_profile_names();
    let mv = metric_values(ms);
    assert forall|i: int| 0 <= i < mv.len() implies decode_spec(encode_spec(#[trigger] mv[i])) == Ok::<
        ValueModel,
        ErrorModel,
    >(mv[i]) by {
        lemma_metric_round_trip(ms[i]);
    }
    lemma_list_value_decodes(mv);
    lemma_scalar_round_trip(ValueModel::Double(d));
    let es = traversal_metrics_entries(d, ms);
    assert(string_keys_unique(es));
    lemma_dict_decodes(es);
    lemma_traversal_metrics_encoding(d, ms);
    assert(mkey_index(es, "dur"@) == 0) by {
        reveal_with_fuel(mkey_index, 3);
    }
    assert(mkey_index(es, "metrics"@) == 1) by {
        reveal_with_fuel(mkey_index, 3);
    }
    lemma_keep_metrics(ms);
    assert(traversal_metrics_from(ValueModel::Dict(es)) == Ok::<(u64, Seq<MetricModel>), ErrorModel>((d, ms)));
    let p = encode_spec(ValueModel::Dict(es));
    assert(traversal_metrics_payload_spec(p) == Ok::<ValueModel, ErrorModel>(ValueModel::TraversalMetrics(d, ms)));
    assert(decode_tagged(tag_traversal_metrics(), p) == traversal_metrics_payload_spec(p));
}

} // verus!

verus! {

proof fn lemma_explanation_names()
    ensures
        "original"@.len() == 8,
        "final"@.len() == 5,
        "intermediate"@.len() == 12,
        "traversal"@.len() == 9,
        "strategy"@.len() == 8,
        "strategy"@[0] == 's',
        "category"@.len() == 8,
        "category"@[0] == 'c',
        "original"@[0] == 'o',
{
    reveal_strlit("original");
    reveal_strlit("final");
    reveal_strlit("intermediate");
    reveal_strlit("traversal");
    reveal_strlit("strategy");
    reveal_strlit("category");
}

pub open spec fn string_values(ss: Seq<Seq<char>>) -> Seq<ValueModel> {
    ss.map_values(|x: Seq<char>| ValueModel::Str(x))
}

pub open spec fn intermediate_entries(r: IntermediateModel) -> Seq<(KeyModel, ValueModel)> {
    seq![
        (KeyModel::Str("traversal"@), ValueModel::List(string_values(r.traversal))),
        (KeyModel::Str("strategy"@), ValueModel::Str(r.strategy)),
        (KeyModel::Str("category"@), ValueModel::Str(r.category)),
    ]
}

pub open spec fn intermediate_values(irs: Seq<IntermediateModel>) -> Seq<ValueModel> {
    irs.map_values(|r: IntermediateModel| ValueModel::Dict(intermediate_entries(r)))
}

pub open spec fn explanation_entries(x: ExplanationModel) -> Seq<(KeyModel, ValueModel)> {
    seq![
        (KeyModel::Str("original"@), ValueModel::List(string_values(x.original))),
        (KeyModel::Str("final"@), ValueModel::List(string_values(x.finals))),
        (KeyModel::Str("intermediate"@), ValueModel::List(intermediate_values(x.intermediate))),
    ]
}

proof fn lemma_keep_strings(ss: Seq<Seq<char>>)
    ensures
        keep_strings(string_values(ss)) == ss,
    decreases ss.len(),
{
    if ss.len() > 0 {
        lemma_keep_strings(ss.drop_last());
        assert(string_values(ss).drop_last() =~= string_values(ss.drop_last()));
        assert(ss.drop_last().push(ss.last()) =~= ss);
    } else {
        assert(ss =~= Seq::<Seq<char>>::empty());
    }
}

proof fn lemma_strings_round_trip(ss: Seq<Seq<char>>)
    ensures
        strings_json(ss) == encode_spec(ValueModel::List(string_values(ss))),
        decode_spec(strings_json(ss)) == Ok::<ValueModel, ErrorModel>(ValueModel::List(string_values(ss))),
{
    let sv = string_values(ss);
    lemma_encode_list(sv);
    assert(encode_list(sv) =~= strings_json(ss)->Object_0[1].1->Array_0);
    assert forall|i: int| 0 <= i < sv.len() implies decode_spec(encode_spec(#[trigger] sv[i])) == Ok::<
        ValueModel,
        ErrorModel,
    >(sv[i]) by {
        lemma_scalar_round_trip(sv[i]);
    }
    lemma_list_value_decodes(sv);
}

#[verifier::spinoff_prover]
#[verifier::rlimit(100)]
proof fn lemma_intermediate_round_trip(r: IntermediateModel)
    ensures
        intermediate_json(r) == encode_spec(ValueModel::Dict(intermediate_entries(r))),
        decode_spec(intermediate_json(r)) == Ok::<ValueModel, ErrorModel>(
            ValueModel::Dict(intermediate_entries(r)),
        ),
        intermediate_from(intermediate_entries(r)) == Ok::<IntermediateModel, ErrorModel>(r),
{
    lemma_explanation_names();
    let es = intermediate_entries(r);
    lemma_strings_round_trip(r.traversal);
    lemma_scalar_round_trip(ValueModel::Str(r.strategy));
    lemma_scalar_round_trip(ValueModel::Str(r.category));
    assert(string_keys_unique(es));
    lemma_dict_decodes(es);
    lemma_encode_pairs(es);
    let _ = (es[0], es[1], es[2]);
    assert(encode_pairs(es) =~= intermediate_json(r)->Object_0[1].1->Array_0);
    assert(mkey_index(es, "traversal"@) == 0) by {
        reveal_with_fuel(mkey_index, 4);
    }
    assert(mkey_index(es, "strategy"@) == 1) by {
        reveal_with_fuel(mkey_index, 4);
    }
    assert(mkey_index(es, "category"@) == 2) by {
        reveal_with_fuel(mkey_index, 4);
    }
    lemma_keep_strings(r.traversal);
}

proof fn lemma_keep_intermediates(irs: Seq<IntermediateModel>)
    ensures
        keep_intermediates(intermediate_values(irs)) == irs,
    decreases irs.len(),
{
    if irs.len() > 0 {
        lemma_keep_intermediates(irs.drop_last());
        lemma_intermediate_round_trip(irs.last());
        assert(intermediate_values(irs).drop_last() =~= intermediate_values(irs.drop_last()));
        assert(irs.drop_last().push(irs.last()) =~= irs);
    } else {
        assert(irs =~= Seq::<IntermediateModel>::empty());
    }
}

#[verifier::spinoff_prover]
#[verifier::rlimit(100)]
proof fn lemma_explanation_encoding(x: ExplanationModel)
    ensures
        explanation_json(x) == encode_spec(ValueModel::Dict(explanation_entries(x))),
{
    let es = explanation_entries(x);
    let iv = intermediate_values(x.intermediate);
    lemma_strings_round_trip(x.original);
    lemma_strings_round_trip(x.finals);
    lemma_encode_list(iv);
    assert forall|i: int| 0 <= i < iv.len() implies #[trigger] encode_spec(iv[i]) == intermediate_json(
        x.intermediate[i],
    ) by {
        lemma_intermediate_round_trip(x.intermediate[i]);
    }
    let items = explanation_json(x)->Object_0[1].1->Array_0;
    assert(encode_list(iv) =~= items[5]->Object_0[1].1->Array_0);
    lemma_encode_pairs(es);
    let _ = (es[0], es[1], es[2]);
    assert(encode_pairs(es) =~= items);
}

/// What the encoder writes for a traversal explanation decodes back to it.
#[verifier::spinoff_prover]
#[verifier::rlimit(100)]
pub proof fn lemma_explanation_round_trip(x: ExplanationModel)
    ensures
        decode_spec(encode_spec(ValueModel::TraversalExplanation(x))) == Ok::<ValueModel, ErrorModel>(
            ValueModel::TraversalExplanation(x),
        ),
{
    lemma_envelope_keys();
    lemma_tag_letters();
    lemma_explanation_names();
    let es = explanation_entries(x);
    let iv = intermediate_values(x.intermediate);
    lemma_strings_round_trip(x.original);
    lemma_strings_round_trip(x.finals);
    assert forall|i: int| 0 <= i < iv.len() implies decode_spec(encode_spec(#[trigger] iv[i])) == Ok::<
        ValueModel,
        ErrorModel,
    >(iv[i]) by {
        lemma_intermediate_round_trip(x.intermediate[i]);
    }
    lemma_list_value_decodes(iv);
    assert(string_keys_unique(es));
    lemma_dict_decodes(es);
    lemma_explanation_encoding(x);
    assert(mkey_index(es, "original"@) == 0) by {
        reveal_with_fuel(mkey_index, 4);
    }
    assert(mkey_index(es, "final"@) == 1) by {
        reveal_with_fuel(mkey_index, 4);
    }
    assert(mkey_index(es, "intermediate"@) == 2) by {
        reveal_with_fuel(mkey_index, 4);
    }
    lemma_keep_strings(x.original);
    lemma_keep_strings(x.finals);
    lemma_keep_intermediates(x.intermediate);
    assert(explanation_from(ValueModel::Dict(es)) == Ok::<ExplanationModel, ErrorModel>(x));
    let p = explanation_json(x);
    assert(explanation_payload_spec(p) == Ok::<ValueModel, ErrorModel>(ValueModel::TraversalExplanation(x)));
    assert(decode_tagged(tag_explanation(), p) == explanation_payload_spec(p));
}

} // verus!

verus! {

/// A tree in the form the encoder writes survives decoding and re-encoding
/// unchanged.
pub proof fn lemma_reencode(v: ValueModel)
    requires
        wire_value(v),
    ensures
        decode_spec(encode_spec(v)) is Ok,
        encode_spec(decode_spec(encode_spec(v))->Ok_0) == encode_spec(v),
{
    lemma_round_trip(v);
}

} // verus!
