//! What decoding a GraphSON v3 tree yields, stated over the models.
use vstd::prelude::*;

use crate::json::{JsonModel, NumberModel};
use crate::model::{
    EdgeModel, ExplanationModel, IdModel, IntermediateModel, KeyModel, MetricModel, PropertyModel,
    ValueModel, VertexModel, VertexPropertyModel,
};
use crate::scalars::{date_in_range, decimal, hyphenated_value, is_hyphenated};

verus! {

/// The mathematical form of a decoding error.
pub enum ErrorModel {
    ShapeMismatch,
    UnknownTag(Seq<char>),
    MalformedEnvelope,
    UntypedNumber,
    UntypedObject,
    UntypedArray,
    InvalidPayload,
    MissingField(Seq<char>, Seq<char>),
    Downcast,
}

pub type Decoded<T> = Result<T, ErrorModel>;

/// Index of the first member named `k` of an object, or -1.
pub open spec fn field_index(fs: Seq<(Seq<char>, JsonModel)>, k: Seq<char>) -> int
    decreases fs.len(),
{
    if fs.len() == 0 {
        -1
    } else {
        let i = field_index(fs.drop_last(), k);
        if i >= 0 {
            i
        } else if fs.last().0 == k {
            fs.len() - 1
        } else {
            -1
        }
    }
}

/// Index of the first entry under the string key `k`, or -1.
pub open spec fn mkey_index(s: Seq<(KeyModel, ValueModel)>, k: Seq<char>) -> int
    decreases s.len(),
{
    if s.len() == 0 {
        -1
    } else {
        let i = mkey_index(s.drop_last(), k);
        if i >= 0 {
            i
        } else if s.last().0 == KeyModel::Str(k) {
            s.len() - 1
        } else {
            -1
        }
    }
}

pub open spec fn mlookup(s: Seq<(KeyModel, ValueModel)>, k: Seq<char>) -> Option<ValueModel> {
    let i = mkey_index(s, k);
    if 0 <= i < s.len() {
        Some(s[i].1)
    } else {
        None
    }
}

/// A map after storing `v` under `k`: in place where the key is, else at the end.
pub open spec fn mstore(s: Seq<(KeyModel, ValueModel)>, k: Seq<char>, v: ValueModel) -> Seq<
    (KeyModel, ValueModel),
> {
    let i = mkey_index(s, k);
    if 0 <= i < s.len() {
        s.update(i, (KeyModel::Str(k), v))
    } else {
        s.push((KeyModel::Str(k), v))
    }
}

pub open spec fn tag_int32() -> Seq<char> { "g:Int32"@ }
pub open spec fn tag_int64() -> Seq<char> { "g:Int64"@ }
pub open spec fn tag_float() -> Seq<char> { "g:Float"@ }
pub open spec fn tag_double() -> Seq<char> { "g:Double"@ }
pub open spec fn tag_date() -> Seq<char> { "g:Date"@ }
pub open spec fn tag_uuid() -> Seq<char> { "g:UUID"@ }
pub open spec fn tag_list() -> Seq<char> { "g:List"@ }
pub open spec fn tag_set() -> Seq<char> { "g:Set"@ }
pub open spec fn tag_map() -> Seq<char> { "g:Map"@ }
pub open spec fn tag_vertex() -> Seq<char> { "g:Vertex"@ }
pub open spec fn tag_vertex_property() -> Seq<char> { "g:VertexProperty"@ }
pub open spec fn tag_property() -> Seq<char> { "g:Property"@ }
pub open spec fn tag_edge() -> Seq<char> { "g:Edge"@ }
pub open spec fn tag_path() -> Seq<char> { "g:Path"@ }
pub open spec fn tag_traversal_metrics() -> Seq<char> { "g:TraversalMetrics"@ }
pub open spec fn tag_metrics() -> Seq<char> { "g:Metrics"@ }
pub open spec fn tag_explanation() -> Seq<char> { "g:TraversalExplanation"@ }

/// The two members of an envelope, `@type` and `@value`, in either order.
pub open spec fn is_envelope(fs: Seq<(Seq<char>, JsonModel)>) -> bool {
    fs.len() == 2 && ((fs[0].0 == "@type"@ && fs[1].0 == "@value"@) || (fs[0].0 == "@value"@
        && fs[1].0 == "@type"@))
}

pub open spec fn has_envelope_key(fs: Seq<(Seq<char>, JsonModel)>) -> bool {
    exists|i: int| 0 <= i < fs.len() && (#[trigger] fs[i].0 == "@type"@ || fs[i].0 == "@value"@)
}

/// The value a JSON tree decodes to, or the first error met.
pub open spec fn decode_spec(j: JsonModel) -> Decoded<ValueModel>
    decreases j, 0int,
{
    match j {
        JsonModel::Null => Ok(ValueModel::Null),
        JsonModel::Bool(b) => Ok(ValueModel::Bool(b)),
        JsonModel::Str(s) => Ok(ValueModel::Str(s)),
        JsonModel::Number(_) => Err(ErrorModel::UntypedNumber),
        JsonModel::Array(_) => Err(ErrorModel::UntypedArray),
        JsonModel::Object(fs) => {
            if is_envelope(fs) {
                let t: int = if fs[0].0 == "@type"@ { 0 } else { 1 };
                match fs[t].1 {
                    JsonModel::Str(tag) => decode_tagged(tag, fs[1 - t].1),
                    _ => Err(ErrorModel::MalformedEnvelope),
                }
            } else if has_envelope_key(fs) {
                Err(ErrorModel::MalformedEnvelope)
            } else {
                Err(ErrorModel::UntypedObject)
            }
        },
    }
}

pub open spec fn int32_spec(p: JsonModel) -> Decoded<ValueModel> {
    match p {
        JsonModel::Number(NumberModel::Int(n)) => if i32::MIN <= n <= i32::MAX {
            Ok(ValueModel::Int32(n as i32))
        } else {
            Err(ErrorModel::InvalidPayload)
        },
        JsonModel::Number(_) => Err(ErrorModel::InvalidPayload),
        _ => Err(ErrorModel::ShapeMismatch),
    }
}

pub open spec fn int64_spec(p: JsonModel) -> Decoded<ValueModel> {
    match p {
        JsonModel::Number(NumberModel::Int(n)) => Ok(ValueModel::Int64(n)),
        JsonModel::Number(_) => Err(ErrorModel::InvalidPayload),
        _ => Err(ErrorModel::ShapeMismatch),
    }
}

/// A floating-point payload: its binary64 bits, kept as a single or a double.
pub open spec fn float_spec(p: JsonModel, single: bool) -> Decoded<ValueModel> {
    match p {
        JsonModel::Number(NumberModel::Float(b, _)) => if single {
            Ok(ValueModel::Float(b))
        } else {
            Ok(ValueModel::Double(b))
        },
        JsonModel::Number(_) => Err(ErrorModel::InvalidPayload),
        _ => Err(ErrorModel::ShapeMismatch),
    }
}

pub open spec fn date_spec(p: JsonModel) -> Decoded<ValueModel> {
    match p {
        JsonModel::Number(NumberModel::Int(n)) => if date_in_range(n as int) {
            Ok(ValueModel::Date(n))
        } else {
            Err(ErrorModel::InvalidPayload)
        },
        JsonModel::Number(_) => Err(ErrorModel::InvalidPayload),
        _ => Err(ErrorModel::ShapeMismatch),
    }
}

pub open spec fn uuid_spec(p: JsonModel) -> Decoded<ValueModel> {
    match p {
        JsonModel::Str(s) => if is_hyphenated(s) {
            Ok(ValueModel::Uuid(hyphenated_value(s) as u128))
        } else {
            Err(ErrorModel::InvalidPayload)
        },
        _ => Err(ErrorModel::ShapeMismatch),
    }
}

/// What the decoder registered for `tag` makes of `p`.
pub open spec fn decode_tagged(tag: Seq<char>, p: JsonModel) -> Decoded<ValueModel>
    decreases p, 5int,
{
    if tag == tag_int32() {
        int32_spec(p)
    } else if tag == tag_int64() {
        int64_spec(p)
    } else if tag == tag_float() {
        float_spec(p, true)
    } else if tag == tag_double() {
        float_spec(p, false)
    } else if tag == tag_date() {
        date_spec(p)
    } else if tag == tag_uuid() {
        uuid_spec(p)
    } else if tag == tag_list() || tag == tag_set() {
        list_payload_spec(p)
    } else if tag == tag_map() {
        map_payload_spec(p)
    } else if tag == tag_vertex() {
        vertex_payload_spec(p)
    } else if tag == tag_vertex_property() {
        vertex_property_payload_spec(p)
    } else if tag == tag_property() {
        property_payload_spec(p)
    } else if tag == tag_edge() {
        edge_payload_spec(p)
    } else if tag == tag_path() {
        path_payload_spec(p)
    } else if tag == tag_traversal_metrics() {
        traversal_metrics_payload_spec(p)
    } else if tag == tag_metrics() {
        metric_payload_spec(p)
    } else if tag == tag_explanation() {
        explanation_payload_spec(p)
    } else {
        Err(ErrorModel::UnknownTag(tag))
    }
}

pub open spec fn list_payload_spec(p: JsonModel) -> Decoded<ValueModel>
    decreases p, 4int,
{
    match p {
        JsonModel::Array(items) => match list_spec(items) {
            Ok(vs) => Ok(ValueModel::List(vs)),
            Err(e) => Err(e),
        },
        _ => Err(ErrorModel::ShapeMismatch),
    }
}

pub open spec fn map_payload_spec(p: JsonModel) -> Decoded<ValueModel>
    decreases p, 4int,
{
    match p {
        JsonModel::Array(items) => if items.len() % 2 != 0 {
            Err(ErrorModel::InvalidPayload)
        } else {
            match pairs_spec(items) {
                Ok(m) => Ok(ValueModel::Dict(m)),
                Err(e) => Err(e),
            }
        },
        _ => Err(ErrorModel::ShapeMismatch),
    }
}

pub open spec fn vertex_payload_spec(p: JsonModel) -> Decoded<ValueModel>
    decreases p, 4int,
{
    match p {
        JsonModel::Object(fs) => vertex_spec(fs),
        _ => Err(ErrorModel::ShapeMismatch),
    }
}

pub open spec fn vertex_property_payload_spec(p: JsonModel) -> Decoded<ValueModel>
    decreases p, 4int,
{
    match p {
        JsonModel::Object(fs) => vertex_property_spec(fs),
        _ => Err(ErrorModel::ShapeMismatch),
    }
}

pub open spec fn property_payload_spec(p: JsonModel) -> Decoded<ValueModel>
    decreases p, 4int,
{
    match p {
        JsonModel::Object(fs) => property_spec(fs),
        _ => Err(ErrorModel::ShapeMismatch),
    }
}

pub open spec fn edge_payload_spec(p: JsonModel) -> Decoded<ValueModel>
    decreases p, 4int,
{
    match p {
        JsonModel::Object(fs) => edge_spec(fs),
        _ => Err(ErrorModel::ShapeMismatch),
    }
}

pub open spec fn path_payload_spec(p: JsonModel) -> Decoded<ValueModel>
    decreases p, 4int,
{
    match p {
        JsonModel::Object(fs) => path_spec(fs),
        _ => Err(ErrorModel::ShapeMismatch),
    }
}

/// The payload of the profile tags is itself a tagged map.
pub open spec fn traversal_metrics_payload_spec(p: JsonModel) -> Decoded<ValueModel>
    decreases p, 4int,
{
    match decode_spec(p) {
        Ok(v) => match traversal_metrics_from(v) {
            Ok((d, ms)) => Ok(ValueModel::TraversalMetrics(d, ms)),
            Err(e) => Err(e),
        },
        Err(e) => Err(e),
    }
}

pub open spec fn metric_payload_spec(p: JsonModel) -> Decoded<ValueModel>
    decreases p, 4int,
{
    match decode_spec(p) {
        Ok(v) => match metric_from(v) {
            Ok(m) => Ok(ValueModel::Metric(m)),
            Err(e) => Err(e),
        },
        Err(e) => Err(e),
    }
}

pub open spec fn explanation_payload_spec(p: JsonModel) -> Decoded<ValueModel>
    decreases p, 4int,
{
    match decode_spec(p) {
        Ok(v) => match explanation_from(v) {
            Ok(x) => Ok(ValueModel::TraversalExplanation(x)),
            Err(e) => Err(e),
        },
        Err(e) => Err(e),
    }
}

/// The elements of an array, decoded in order.
pub open spec fn list_spec(items: Seq<JsonModel>) -> Decoded<Seq<ValueModel>>
    decreases items, 2int,
{
    if items.len() == 0 {
        Ok(Seq::empty())
    } else {
        match list_spec(items.subrange(0, items.len() - 1)) {
            Err(e) => Err(e),
            Ok(vs) => match decode_spec(items[items.len() - 1]) {
                Err(e) => Err(e),
                Ok(v) => Ok(vs.push(v)),
            },
        }
    }
}

/// The key-value pairs of a `g:Map` payload of even length; a later pair
/// overwrites an earlier one with the same key.
pub open spec fn pairs_spec(items: Seq<JsonModel>) -> Decoded<Seq<(KeyModel, ValueModel)>>
    decreases items, 2int,
{
    if items.len() < 2 {
        Ok(Seq::empty())
    } else {
        match pairs_spec(items.subrange(0, items.len() - 2)) {
            Err(e) => Err(e),
            Ok(m) => match items[items.len() - 2] {
                JsonModel::Str(k) => match decode_spec(items[items.len() - 1]) {
                    Err(e) => Err(e),
                    Ok(v) => Ok(mstore(m, k, v)),
                },
                _ => Err(ErrorModel::ShapeMismatch),
            },
        }
    }
}

/// An optional string member, with its default when absent.
pub open spec fn label_spec(fs: Seq<(Seq<char>, JsonModel)>, k: Seq<char>, default: Seq<char>) -> Decoded<Seq<char>> {
    let i = field_index(fs, k);
    if 0 <= i < fs.len() {
        match fs[i].1 {
            JsonModel::Str(s) => Ok(s),
            _ => Err(ErrorModel::ShapeMismatch),
        }
    } else {
        Ok(default)
    }
}

/// A required string member of a payload of `owner`.
pub open spec fn string_field_spec(fs: Seq<(Seq<char>, JsonModel)>, k: Seq<char>, owner: Seq<char>) -> Decoded<Seq<char>> {
    let i = field_index(fs, k);
    if 0 <= i < fs.len() {
        match fs[i].1 {
            JsonModel::Str(s) => Ok(s),
            _ => Err(ErrorModel::ShapeMismatch),
        }
    } else {
        Err(ErrorModel::MissingField(k, owner))
    }
}

/// An identifier: a bare number stands for its JSON text (an integer for its
/// decimal text; a number without text, which only the encoder makes, has
/// none); otherwise the node must decode to a string or an integer.
pub open spec fn id_spec(node: JsonModel) -> Decoded<IdModel>
    decreases node, 1int,
{
    match node {
        JsonModel::Number(NumberModel::Int(n)) => Ok(IdModel::Str(decimal(n as int))),
        JsonModel::Number(NumberModel::UInt(n)) => Ok(IdModel::Str(decimal(n as int))),
        JsonModel::Number(NumberModel::Float(_, Some(t))) => Ok(IdModel::Str(t)),
        JsonModel::Number(NumberModel::Float(_, None)) => Err(ErrorModel::UntypedNumber),
        _ => match decode_spec(node) {
            Ok(ValueModel::Str(s)) => Ok(IdModel::Str(s)),
            Ok(ValueModel::Int32(n)) => Ok(IdModel::Int32(n)),
            Ok(ValueModel::Int64(n)) => Ok(IdModel::Int64(n)),
            Ok(_) => Err(ErrorModel::Downcast),
            Err(e) => Err(e),
        },
    }
}

/// The identifier under the required member `k` of a payload of `owner`.
pub open spec fn id_field_spec(fs: Seq<(Seq<char>, JsonModel)>, k: Seq<char>, owner: Seq<char>) -> Decoded<IdModel>
    decreases fs, 2int,
{
    let i = field_index(fs, k);
    if 0 <= i < fs.len() {
        id_spec(fs[i].1)
    } else {
        Err(ErrorModel::MissingField(k, owner))
    }
}

/// The value under the required member `k` of a payload of `owner`.
pub open spec fn value_field_spec(fs: Seq<(Seq<char>, JsonModel)>, k: Seq<char>, owner: Seq<char>) -> Decoded<ValueModel>
    decreases fs, 2int,
{
    let i = field_index(fs, k);
    if 0 <= i < fs.len() {
        decode_spec(fs[i].1)
    } else {
        Err(ErrorModel::MissingField(k, owner))
    }
}

/// A vertex's properties member: absent or null is empty, an object maps
/// each name to an array of vertex-properties.
pub open spec fn properties_field_spec(fs: Seq<(Seq<char>, JsonModel)>) -> Decoded<Seq<(Seq<char>, Seq<VertexPropertyModel>)>>
    decreases fs, 2int,
{
    let i = field_index(fs, "properties"@);
    if 0 <= i < fs.len() {
        match fs[i].1 {
            JsonModel::Null => Ok(Seq::empty()),
            JsonModel::Object(ps) => properties_spec(ps),
            _ => Err(ErrorModel::ShapeMismatch),
        }
    } else {
        Ok(Seq::empty())
    }
}

pub open spec fn properties_spec(ps: Seq<(Seq<char>, JsonModel)>) -> Decoded<Seq<(Seq<char>, Seq<VertexPropertyModel>)>>
    decreases ps, 2int,
{
    if ps.len() == 0 {
        Ok(Seq::empty())
    } else {
        match properties_spec(ps.subrange(0, ps.len() - 1)) {
            Err(e) => Err(e),
            Ok(m) => match ps[ps.len() - 1].1 {
                JsonModel::Array(items) => match vertex_property_items_spec(items) {
                    Err(e) => Err(e),
                    Ok(vps) => Ok(m.push((ps[ps.len() - 1].0, vps))),
                },
                _ => Err(ErrorModel::ShapeMismatch),
            },
        }
    }
}

pub open spec fn vertex_property_items_spec(items: Seq<JsonModel>) -> Decoded<Seq<VertexPropertyModel>>
    decreases items, 2int,
{
    if items.len() == 0 {
        Ok(Seq::empty())
    } else {
        match vertex_property_items_spec(items.subrange(0, items.len() - 1)) {
            Err(e) => Err(e),
            Ok(vps) => match decode_spec(items[items.len() - 1]) {
                Err(e) => Err(e),
                Ok(ValueModel::VertexProperty(x)) => Ok(vps.push(x)),
                Ok(_) => Err(ErrorModel::Downcast),
            },
        }
    }
}

pub open spec fn vertex_spec(fs: Seq<(Seq<char>, JsonModel)>) -> Decoded<ValueModel>
    decreases fs, 3int,
{
    match label_spec(fs, "label"@, "vertex"@) {
        Err(e) => Err(e),
        Ok(label) => match id_field_spec(fs, "id"@, tag_vertex()) {
            Err(e) => Err(e),
            Ok(id) => match properties_field_spec(fs) {
                Err(e) => Err(e),
                Ok(properties) => Ok(ValueModel::Vertex(VertexModel { id, label, properties })),
            },
        },
    }
}

pub open spec fn vertex_property_spec(fs: Seq<(Seq<char>, JsonModel)>) -> Decoded<ValueModel>
    decreases fs, 3int,
{
    match label_spec(fs, "label"@, "vertex_property"@) {
        Err(e) => Err(e),
        Ok(label) => match id_field_spec(fs, "id"@, tag_vertex_property()) {
            Err(e) => Err(e),
            Ok(id) => match value_field_spec(fs, "value"@, tag_vertex_property()) {
                Err(e) => Err(e),
                Ok(v) => Ok(ValueModel::VertexProperty(VertexPropertyModel { id, label, value: Box::new(v) })),
            },
        },
    }
}

pub open spec fn property_spec(fs: Seq<(Seq<char>, JsonModel)>) -> Decoded<ValueModel>
    decreases fs, 3int,
{
    match label_spec(fs, "key"@, "property"@) {
        Err(e) => Err(e),
        Ok(key) => match value_field_spec(fs, "value"@, tag_property()) {
            Err(e) => Err(e),
            Ok(v) => Ok(ValueModel::Property(PropertyModel { key, value: Box::new(v) })),
        },
    }
}

/// An edge; the properties that the payload may carry are not read.
pub open spec fn edge_spec(fs: Seq<(Seq<char>, JsonModel)>) -> Decoded<ValueModel>
    decreases fs, 3int,
{
    match label_spec(fs, "label"@, "edge"@) {
        Err(e) => Err(e),
        Ok(label) => match id_field_spec(fs, "id"@, tag_edge()) {
            Err(e) => Err(e),
            Ok(id) => match id_field_spec(fs, "inV"@, tag_edge()) {
                Err(e) => Err(e),
                Ok(in_v_id) => match string_field_spec(fs, "inVLabel"@, tag_edge()) {
                    Err(e) => Err(e),
                    Ok(in_v_label) => match id_field_spec(fs, "outV"@, tag_edge()) {
                        Err(e) => Err(e),
                        Ok(out_v_id) => match string_field_spec(fs, "outVLabel"@, tag_edge()) {
                            Err(e) => Err(e),
                            Ok(out_v_label) => Ok(ValueModel::Edge(EdgeModel {
                                id, label, in_v_id, in_v_label, out_v_id, out_v_label,
                                properties: Seq::empty(),
                            })),
                        },
                    },
                },
            },
        },
    }
}

/// A path: `labels` and `objects` both decode to lists of one length.
pub open spec fn path_spec(fs: Seq<(Seq<char>, JsonModel)>) -> Decoded<ValueModel>
    decreases fs, 3int,
{
    match value_field_spec(fs, "labels"@, tag_path()) {
        Err(e) => Err(e),
        Ok(labels) => match value_field_spec(fs, "objects"@, tag_path()) {
            Err(e) => Err(e),
            Ok(ValueModel::List(objects)) => match labels {
                ValueModel::List(ls) => if ls.len() == objects.len() {
                    Ok(ValueModel::Path(Box::new(labels), objects))
                } else {
                    Err(ErrorModel::InvalidPayload)
                },
                _ => Err(ErrorModel::Downcast),
            },
            Ok(_) => Err(ErrorModel::Downcast),
        },
    }
}

pub open spec fn owner_metrics() -> Seq<char> { "g:Metrics"@ }
pub open spec fn owner_traversal_metrics() -> Seq<char> { "g:TraversalMetrics"@ }
pub open spec fn owner_explanation() -> Seq<char> { "g:TraversalExplanation"@ }

/// A required entry of a decoded map.
pub open spec fn entry_spec(m: Seq<(KeyModel, ValueModel)>, k: Seq<char>, owner: Seq<char>) -> Decoded<ValueModel> {
    match mlookup(m, k) {
        Some(v) => Ok(v),
        None => Err(ErrorModel::MissingField(k, owner)),
    }
}

pub open spec fn as_map(v: Decoded<ValueModel>) -> Decoded<Seq<(KeyModel, ValueModel)>> {
    match v {
        Ok(ValueModel::Dict(m)) => Ok(m),
        Ok(_) => Err(ErrorModel::Downcast),
        Err(e) => Err(e),
    }
}

pub open spec fn as_list(v: Decoded<ValueModel>) -> Decoded<Seq<ValueModel>> {
    match v {
        Ok(ValueModel::List(s)) => Ok(s),
        Ok(_) => Err(ErrorModel::Downcast),
        Err(e) => Err(e),
    }
}

pub open spec fn as_double(v: Decoded<ValueModel>) -> Decoded<u64> {
    match v {
        Ok(ValueModel::Double(b)) => Ok(b),
        Ok(_) => Err(ErrorModel::Downcast),
        Err(e) => Err(e),
    }
}

pub open spec fn as_long(v: Decoded<ValueModel>) -> Decoded<i64> {
    match v {
        Ok(ValueModel::Int64(n)) => Ok(n),
        Ok(_) => Err(ErrorModel::Downcast),
        Err(e) => Err(e),
    }
}

pub open spec fn as_str(v: Decoded<ValueModel>) -> Decoded<Seq<char>> {
    match v {
        Ok(ValueModel::Str(s)) => Ok(s),
        Ok(_) => Err(ErrorModel::Downcast),
        Err(e) => Err(e),
    }
}

/// A metric read off its decoded map: `dur`, `id`, `name`, the counts and the
/// annotations, in that order.
pub open spec fn metric_from(v: ValueModel) -> Decoded<MetricModel> {
    let o = owner_metrics();
    match as_map(Ok(v)) {
        Err(e) => Err(e),
        Ok(m) => match as_double(entry_spec(m, "dur"@, o)) {
            Err(e) => Err(e),
            Ok(duration) => match as_str(entry_spec(m, "id"@, o)) {
                Err(e) => Err(e),
                Ok(id) => match as_str(entry_spec(m, "name"@, o)) {
                    Err(e) => Err(e),
                    Ok(name) => match as_map(entry_spec(m, "counts"@, o)) {
                        Err(e) => Err(e),
                        Ok(counts) => match as_long(entry_spec(counts, "traverserCount"@, o)) {
                            Err(e) => Err(e),
                            Ok(traversers) => match as_long(entry_spec(counts, "elementCount"@, o)) {
                                Err(e) => Err(e),
                                Ok(count) => match as_map(entry_spec(m, "annotations"@, o)) {
                                    Err(e) => Err(e),
                                    Ok(ann) => match as_double(entry_spec(ann, "percentDur"@, o)) {
                                        Err(e) => Err(e),
                                        Ok(perc_duration) => Ok(MetricModel {
                                            id, name, duration, count, traversers, perc_duration,
                                        }),
                                    },
                                },
                            },
                        },
                    },
                },
            },
        },
    }
}

/// The metrics among a list of values, in order; other values are dropped.
pub open spec fn keep_metrics(s: Seq<ValueModel>) -> Seq<MetricModel>
    decreases s.len(),
{
    if s.len() == 0 {
        Seq::empty()
    } else {
        let rest = keep_metrics(s.drop_last());
        match s.last() {
            ValueModel::Metric(m) => rest.push(m),
            _ => rest,
        }
    }
}

/// The strings among a list of values, in order; other values are dropped.
pub open spec fn keep_strings(s: Seq<ValueModel>) -> Seq<Seq<char>>
    decreases s.len(),
{
    if s.len() == 0 {
        Seq::empty()
    } else {
        let rest = keep_strings(s.drop_last());
        match s.last() {
            ValueModel::Str(x) => rest.push(x),
            _ => rest,
        }
    }
}

pub open spec fn traversal_metrics_from(v: ValueModel) -> Decoded<(u64, Seq<MetricModel>)> {
    let o = owner_traversal_metrics();
    match as_map(Ok(v)) {
        Err(e) => Err(e),
        Ok(m) => match as_double(entry_spec(m, "dur"@, o)) {
            Err(e) => Err(e),
            Ok(d) => match as_list(entry_spec(m, "metrics"@, o)) {
                Err(e) => Err(e),
                Ok(items) => Ok((d, keep_metrics(items))),
            },
        },
    }
}

/// One stage of an explanation, read off its map.
pub open spec fn intermediate_from(m: Seq<(KeyModel, ValueModel)>) -> Decoded<IntermediateModel> {
    let o = owner_explanation();
    match as_list(entry_spec(m, "traversal"@, o)) {
        Err(e) => Err(e),
        Ok(t) => match as_str(entry_spec(m, "strategy"@, o)) {
            Err(e) => Err(e),
            Ok(strategy) => match as_str(entry_spec(m, "category"@, o)) {
                Err(e) => Err(e),
                Ok(category) => Ok(IntermediateModel { traversal: keep_strings(t), strategy, category }),
            },
        },
    }
}

/// The stages among a list of values: maps that read as a stage, in order.
pub open spec fn keep_intermediates(s: Seq<ValueModel>) -> Seq<IntermediateModel>
    decreases s.len(),
{
    if s.len() == 0 {
        Seq::empty()
    } else {
        let rest = keep_intermediates(s.drop_last());
        match s.last() {
            ValueModel::Dict(m) => match intermediate_from(m) {
                Ok(x) => rest.push(x),
                Err(_) => rest,
            },
            _ => rest,
        }
    }
}

pub open spec fn explanation_from(v: ValueModel) -> Decoded<ExplanationModel> {
    let o = owner_explanation();
    match as_map(Ok(v)) {
        Err(e) => Err(e),
        Ok(m) => match as_list(entry_spec(m, "original"@, o)) {
            Err(e) => Err(e),
            Ok(original) => match as_list(entry_spec(m, "final"@, o)) {
                Err(e) => Err(e),
                Ok(finals) => match as_list(entry_spec(m, "intermediate"@, o)) {
                    Err(e) => Err(e),
                    Ok(inter) => Ok(ExplanationModel {
                        original: keep_strings(original),
                        finals: keep_strings(finals),
                        intermediate: keep_intermediates(inter),
                    }),
                },
            },
        },
    }
}

} // verus!
