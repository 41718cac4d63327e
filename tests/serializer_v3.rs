use gremlin_client::error::DecodeError;
use gremlin_client::json::{Json, Number};
use gremlin_client::map::GMap;
use gremlin_client::serializer_v3::deserializer_v3;
use gremlin_client::structure::{
    Edge, GValue, Metric, Path, Property, TraversalMetrics, Vertex, VertexProperty, GID,
};

fn to_json(v: &serde_json::Value) -> Json {
    match v {
        serde_json::Value::Null => Json::Null,
        serde_json::Value::Bool(b) => Json::Bool(*b),
        serde_json::Value::Number(n) => {
            if let Some(i) = n.as_i64() {
                Json::Number(Number::Int(i))
            } else if let Some(u) = n.as_u64() {
                Json::Number(Number::UInt(u))
            } else {
                Json::Number(Number::Float(n.as_f64().unwrap_or(0.0).to_bits(), Some(n.to_string())))
            }
        }
        serde_json::Value::String(s) => Json::String(s.clone()),
        serde_json::Value::Array(a) => Json::Array(a.iter().map(to_json).collect()),
        serde_json::Value::Object(o) => {
            Json::Object(o.iter().map(|(k, v)| (k.clone(), to_json(v))).collect())
        }
    }
}

fn parse(text: &str) -> Json {
    to_json(&serde_json::from_str::<serde_json::Value>(text).expect("Error parsing json"))
}

fn s(text: &str) -> String {
    String::from(text)
}

fn vertex(id: GID, label: &str, properties: Vec<(String, Vec<VertexProperty>)>) -> GValue {
    GValue::Vertex(Vertex { id, label: s(label), properties })
}

fn vp(id: i64, label: &str, value: &str) -> VertexProperty {
    VertexProperty {
        id: GID::Int64(id),
        label: s(label),
        value: Box::new(GValue::String(s(value))),
    }
}

fn metric(id: &str, name: &str, count: i64, traversers: i64) -> Metric {
    Metric {
        id: s(id),
        name: s(name),
        duration: 100.0f64.to_bits(),
        count,
        traversers,
        perc_duration: 25.0f64.to_bits(),
    }
}

#[test]
fn test_collections() {
    let value = parse(
        r#"{"@type": "g:List", "@value": [{"@type": "g:Int32", "@value": 1},
            {"@type": "g:Int32", "@value": 2}, "3"]}"#,
    );
    let result = deserializer_v3(&value).expect("Failed to deserialize a List");
    assert_eq!(
        result,
        GValue::List(vec![GValue::Int32(1), GValue::Int32(2), GValue::String(s("3"))])
    );

    let value = parse(
        r#"{"@type": "g:Set", "@value": [{"@type": "g:Int32", "@value": 1},
            {"@type": "g:Int32", "@value": 2}, {"@type": "g:Float", "@value": 2.0}, "3"]}"#,
    );
    let result = deserializer_v3(&value).expect("Failed to deserialize a Set");
    assert_eq!(
        result,
        GValue::List(vec![
            GValue::Int32(1),
            GValue::Int32(2),
            GValue::Float(2.0f64.to_bits()),
            GValue::String(s("3")),
        ])
    );

    let value = parse(
        r#"{"@type": "g:Map", "@value": ["a", {"@type": "g:Int32", "@value": 1}, "b", "marko"]}"#,
    );
    let result = deserializer_v3(&value).expect("Failed to deserialize a Map");
    let mut map = GMap::new();
    map.insert(s("a"), GValue::Int32(1));
    map.insert(s("b"), GValue::String(s("marko")));
    assert_eq!(result, GValue::GMap(map));
}

#[test]
fn test_number_input() {
    let value = parse(r#"{"@type": "g:Int32", "@value": 31}"#);
    let result = deserializer_v3(&value).expect("Failed to deserialize an Int32");
    assert_eq!(result, GValue::Int32(31));

    let value = parse(r#"{"@type": "g:Int64", "@value": 31}"#);
    let result = deserializer_v3(&value).expect("Failed to deserialize an Int64");
    assert_eq!(result, GValue::Int64(31));

    let value = parse(r#"{"@type": "g:Float", "@value": 31.3}"#);
    let result = deserializer_v3(&value).expect("Failed to deserialize Float");
    assert_eq!(result, GValue::Float(31.3f64.to_bits()));

    let value = parse(r#"{"@type": "g:Double", "@value": 31.3}"#);
    let result = deserializer_v3(&value).expect("Failed to deserialize Double");
    assert_eq!(result, GValue::Double(31.3f64.to_bits()));

    let value = parse(r#"{"@type": "g:Date", "@value": 1551825863}"#);
    let result = deserializer_v3(&value).expect("Failed to deserialize Double");
    assert_eq!(result, GValue::Date(1551825863));

    let value = parse(r#"{"@type": "g:UUID", "@value": "41d2e28a-20a4-4ab0-b379-d810dede3786"}"#);
    let result = deserializer_v3(&value).expect("Failed to deserialize Double");
    assert_eq!(
        result,
        GValue::Uuid(
            uuid::Uuid::parse_str("41d2e28a-20a4-4ab0-b379-d810dede3786").unwrap().as_u128()
        )
    );
}

#[test]
fn test_properties() {
    let value = parse(
        r#"{"@type":"g:VertexProperty", "@value":{"id":{"@type":"g:Int32","@value":1},"label":"name","value":"marko"}}"#,
    );
    let result = deserializer_v3(&value).expect("Failed to deserialize a VertexProperty");
    assert_eq!(
        result,
        GValue::VertexProperty(VertexProperty {
            id: GID::Int32(1),
            label: s("name"),
            value: Box::new(GValue::String(s("marko"))),
        })
    );

    let value = parse(
        r#"{"@type":"g:Property","@value":{"key":"since","value":{"@type":"g:Int32","@value":2009}}}"#,
    );
    let result = deserializer_v3(&value).expect("Failed to deserialize a VertexProperty");
    assert_eq!(
        result,
        GValue::Property(Property { key: s("since"), value: Box::new(GValue::Int32(2009)) })
    );
}

#[test]
fn test_vertex() {
    let value = parse(r#"{"@type":"g:Vertex", "@value":{"id":{"@type":"g:Int32","@value":45}}}"#);
    let result = deserializer_v3(&value).expect("Failed to deserialize a Vertex");
    assert_eq!(result, vertex(GID::Int32(45), "vertex", vec![]));

    let value = r#"{"@type":"g:Vertex","@value":{"id":{"@type":"g:Int32","@value":1},"label":"person","properties":{"name":[{"@type":"g:VertexProperty","@value":{"id":{"@type":"g:Int64","@value":0},"value":"marko","label":"name"}}],"location":[{"@type":"g:VertexProperty","@value":{"id":{"@type":"g:Int64","@value":6},"value":"san diego","label":"location","properties":{"startTime":{"@type":"g:Int32","@value":1997},"endTime":{"@type":"g:Int32","@value":2001}}}},{"@type":"g:VertexProperty","@value":{"id":{"@type":"g:Int64","@value":7},"value":"santa cruz","label":"location","properties":{"startTime":{"@type":"g:Int32","@value":2001},"endTime":{"@type":"g:Int32","@value":2004}}}},{"@type":"g:VertexProperty","@value":{"id":{"@type":"g:Int64","@value":8},"value":"brussels","label":"location","properties":{"startTime":{"@type":"g:Int32","@value":2004},"endTime":{"@type":"g:Int32","@value":2005}}}},{"@type":"g:VertexProperty","@value":{"id":{"@type":"g:Int64","@value":9},"value":"santa fe","label":"location","properties":{"startTime":{"@type":"g:Int32","@value":2005}}}}]}}}"#;
    let val = parse(value);
    let result = deserializer_v3(&val).expect("Failed to deserialize a vertex");
    // serde_json hands object members over in key order
    assert_eq!(
        result,
        vertex(
            GID::Int32(1),
            "person",
            vec![
                (
                    s("location"),
                    vec![
                        vp(6, "location", "san diego"),
                        vp(7, "location", "santa cruz"),
                        vp(8, "location", "brussels"),
                        vp(9, "location", "santa fe"),
                    ],
                ),
                (s("name"), vec![vp(0, "name", "marko")]),
            ],
        )
    );
}

#[test]
fn test_edge() {
    let value = parse(
        r#"{"@type":"g:Edge","@value":{"id":{"@type":"g:Int32","@value":13},"label":"develops","inVLabel":"software","outVLabel":"person","inV":{"@type":"g:Int32","@value":10},"outV":{"@type":"g:Int32","@value":1},"properties":{"since":{"@type":"g:Property","@value":{"key":"since","value":{"@type":"g:Int32","@value":2009}}}}}}"#,
    );
    let result = deserializer_v3(&value).expect("Failed to deserialize an Edge");
    assert_eq!(
        result,
        GValue::Edge(Edge {
            id: GID::Int32(13),
            label: s("develops"),
            in_v_id: GID::Int32(10),
            in_v_label: s("software"),
            out_v_id: GID::Int32(1),
            out_v_label: s("person"),
            properties: vec![],
        })
    );
}

#[test]
fn test_path() {
    let value = parse(
        r#"{"@type":"g:Path","@value":{"labels":{"@type":"g:List","@value":[{"@type":"g:Set","@value":[]},{"@type":"g:Set","@value":[]},{"@type":"g:Set","@value":[]}]},"objects":{"@type":"g:List","@value":[{"@type":"g:Vertex","@value":{"id":{"@type":"g:Int32","@value":1},"label":"person"}},{"@type":"g:Vertex","@value":{"id":{"@type":"g:Int32","@value":10},"label":"software"}},{"@type":"g:Vertex","@value":{"id":{"@type":"g:Int32","@value":11},"label":"software"}}]}}}"#,
    );
    let result = deserializer_v3(&value).expect("Failed to deserialize a Path");
    let path = Path {
        labels: Box::new(GValue::List(vec![
            GValue::List(vec![]),
            GValue::List(vec![]),
            GValue::List(vec![]),
        ])),
        objects: vec![
            vertex(GID::Int32(1), "person", vec![]),
            vertex(GID::Int32(10), "software", vec![]),
            vertex(GID::Int32(11), "software", vec![]),
        ],
    };
    assert_eq!(result, GValue::Path(path));
}

#[test]
fn test_traversal_metrics() {
    let value = parse(
        r#"{"@type":"g:TraversalMetrics","@value":{"@type":"g:Map","@value":["dur",{"@type":"g:Double","@value":0.004},"metrics",{"@type":"g:List","@value":[{"@type":"g:Metrics","@value":{"@type":"g:Map","@value":["dur",{"@type":"g:Double","@value":100.0},"counts",{"@type":"g:Map","@value":["traverserCount",{"@type":"g:Int64","@value":4},"elementCount",{"@type":"g:Int64","@value":4}]},"name","TinkerGraphStep(vertex,[~label.eq(person)])","annotations",{"@type":"g:Map","@value":["percentDur",{"@type":"g:Double","@value":25.0}]},"id","7.0.0()"]}},{"@type":"g:Metrics","@value":{"@type":"g:Map","@value":["dur",{"@type":"g:Double","@value":100.0},"counts",{"@type":"g:Map","@value":["traverserCount",{"@type":"g:Int64","@value":13},"elementCount",{"@type":"g:Int64","@value":13}]},"name","VertexStep(OUT,vertex)","annotations",{"@type":"g:Map","@value":["percentDur",{"@type":"g:Double","@value":25.0}]},"id","2.0.0()"]}},{"@type":"g:Metrics","@value":{"@type":"g:Map","@value":["dur",{"@type":"g:Double","@value":100.0},"counts",{"@type":"g:Map","@value":["traverserCount",{"@type":"g:Int64","@value":7},"elementCount",{"@type":"g:Int64","@value":7}]},"name","VertexStep(OUT,vertex)","annotations",{"@type":"g:Map","@value":["percentDur",{"@type":"g:Double","@value":25.0}]},"id","3.0.0()"]}},{"@type":"g:Metrics","@value":{"@type":"g:Map","@value":["dur",{"@type":"g:Double","@value":100.0},"counts",{"@type":"g:Map","@value":["traverserCount",{"@type":"g:Int64","@value":1},"elementCount",{"@type":"g:Int64","@value":1}]},"name","TreeStep","annotations",{"@type":"g:Map","@value":["percentDur",{"@type":"g:Double","@value":25.0}]},"id","4.0.0()"]}}]}]}}"#,
    );
    let result = deserializer_v3(&value).expect("Failed to deserialize a TraversalMetrics");
    let traversal_metrics = TraversalMetrics {
        duration: 0.004f64.to_bits(),
        metrics: vec![
            metric("7.0.0()", "TinkerGraphStep(vertex,[~label.eq(person)])", 4, 4),
            metric("2.0.0()", "VertexStep(OUT,vertex)", 13, 13),
            metric("3.0.0()", "VertexStep(OUT,vertex)", 7, 7),
            metric("4.0.0()", "TreeStep", 1, 1),
        ],
    };
    assert_eq!(result, GValue::TraversalMetrics(traversal_metrics));
}

#[test]
fn width_is_preserved() {
    let a = deserializer_v3(&parse(r#"{"@type":"g:Int32","@value":1}"#)).unwrap();
    let b = deserializer_v3(&parse(r#"{"@type":"g:Int64","@value":1}"#)).unwrap();
    assert_ne!(a, b);
    let f = deserializer_v3(&parse(r#"{"@type":"g:Float","@value":1.5}"#)).unwrap();
    let d = deserializer_v3(&parse(r#"{"@type":"g:Double","@value":1.5}"#)).unwrap();
    assert_ne!(f, d);
}

#[test]
fn empty_containers_decode() {
    for tag in ["g:List", "g:Set"] {
        let text = format!(r#"{{"@type":"{}","@value":[]}}"#, tag);
        assert_eq!(deserializer_v3(&parse(&text)).unwrap(), GValue::List(vec![]));
    }
    let m = deserializer_v3(&parse(r#"{"@type":"g:Map","@value":[]}"#)).unwrap();
    assert_eq!(m, GValue::GMap(GMap::new()));
}

#[test]
fn odd_map_is_invalid() {
    let r = deserializer_v3(&parse(r#"{"@type":"g:Map","@value":["a",{"@type":"g:Int32","@value":1},"b"]}"#));
    assert_eq!(r, Err(DecodeError::InvalidPayload));
}

#[test]
fn map_later_key_wins() {
    let r = deserializer_v3(&parse(r#"{"@type":"g:Map","@value":["a","x","a","y"]}"#)).unwrap();
    let mut map = GMap::new();
    map.insert(s("a"), GValue::String(s("y")));
    assert_eq!(r, GValue::GMap(map));
}

#[test]
fn map_key_must_be_string() {
    let r = deserializer_v3(&parse(r#"{"@type":"g:Map","@value":[1,"x"]}"#));
    assert_eq!(r, Err(DecodeError::ShapeMismatch));
}

#[test]
fn vertex_null_properties() {
    let r = deserializer_v3(&parse(
        r#"{"@type":"g:Vertex","@value":{"id":{"@type":"g:Int32","@value":3},"properties":null}}"#,
    ))
    .unwrap();
    assert_eq!(r, vertex(GID::Int32(3), "vertex", vec![]));
}

#[test]
fn vertex_properties_must_be_arrays() {
    let r = deserializer_v3(&parse(
        r#"{"@type":"g:Vertex","@value":{"id":{"@type":"g:Int32","@value":3},"properties":{"a":"b"}}}"#,
    ));
    assert_eq!(r, Err(DecodeError::ShapeMismatch));
}

#[test]
fn vertex_property_elements_must_be_vertex_properties() {
    let r = deserializer_v3(&parse(
        r#"{"@type":"g:Vertex","@value":{"id":{"@type":"g:Int32","@value":3},"properties":{"a":["b"]}}}"#,
    ));
    assert_eq!(r, Err(DecodeError::Downcast));
}

#[test]
fn unknown_tag() {
    let r = deserializer_v3(&parse(r#"{"@type":"g:Nope","@value":1}"#));
    assert_eq!(r, Err(DecodeError::UnknownTag(s("g:Nope"))));
}

#[test]
fn uuid_must_be_hyphenated() {
    for text in [
        "41d2e28a20a44ab0b379d810dede3786",
        "{41d2e28a-20a4-4ab0-b379-d810dede3786}",
        "41d2e28a-20a4-4ab0-b379-d810dede378",
        "41d2e28a-20a4-4ab0-b379-d810dede378g",
    ] {
        let j = Json::Object(vec![
            (s("@type"), Json::String(s("g:UUID"))),
            (s("@value"), Json::String(s(text))),
        ]);
        assert_eq!(deserializer_v3(&j), Err(DecodeError::InvalidPayload));
    }
}

#[test]
fn uuid_upper_case_is_accepted() {
    let r = deserializer_v3(&parse(
        r#"{"@type":"g:UUID","@value":"41D2E28A-20A4-4AB0-B379-D810DEDE3786"}"#,
    ))
    .unwrap();
    assert_eq!(r, GValue::Uuid(0x41d2e28a20a44ab0b379d810dede3786));
}

#[test]
fn primitives_and_bare_nodes() {
    assert_eq!(deserializer_v3(&Json::Null), Ok(GValue::Null));
    assert_eq!(deserializer_v3(&Json::Bool(true)), Ok(GValue::Bool(true)));
    assert_eq!(deserializer_v3(&parse("5")), Err(DecodeError::UntypedNumber));
    assert_eq!(deserializer_v3(&parse("[1]")), Err(DecodeError::UntypedArray));
    assert_eq!(deserializer_v3(&parse(r#"{"a":1}"#)), Err(DecodeError::UntypedObject));
    assert_eq!(deserializer_v3(&parse(r#"{"@type":"g:Int32"}"#)), Err(DecodeError::MalformedEnvelope));
    assert_eq!(
        deserializer_v3(&parse(r#"{"@type":"g:Int32","@value":1,"x":2}"#)),
        Err(DecodeError::MalformedEnvelope)
    );
    assert_eq!(deserializer_v3(&parse(r#"{"@type":3,"@value":1}"#)), Err(DecodeError::MalformedEnvelope));
}

#[test]
fn integer_widths_are_checked() {
    assert_eq!(
        deserializer_v3(&parse(r#"{"@type":"g:Int32","@value":3000000000}"#)),
        Err(DecodeError::InvalidPayload)
    );
    assert_eq!(
        deserializer_v3(&parse(r#"{"@type":"g:Int64","@value":1.5}"#)),
        Err(DecodeError::InvalidPayload)
    );
    assert_eq!(
        deserializer_v3(&parse(r#"{"@type":"g:Int32","@value":"1"}"#)),
        Err(DecodeError::ShapeMismatch)
    );
}

#[test]
fn date_out_of_range_is_invalid() {
    assert_eq!(
        deserializer_v3(&parse(r#"{"@type":"g:Date","@value":9000000000000000000}"#)),
        Err(DecodeError::InvalidPayload)
    );
    assert_eq!(
        deserializer_v3(&parse(r#"{"@type":"g:Date","@value":-1}"#)),
        Ok(GValue::Date(-1))
    );
}

#[test]
fn bare_integer_id_becomes_text() {
    let r = deserializer_v3(&parse(r#"{"@type":"g:Vertex","@value":{"id":-42,"label":"x"}}"#)).unwrap();
    assert_eq!(r, vertex(GID::String(s("-42")), "x", vec![]));
    let r = deserializer_v3(&parse(r#"{"@type":"g:Vertex","@value":{"id":"v1"}}"#)).unwrap();
    assert_eq!(r, vertex(GID::String(s("v1")), "vertex", vec![]));
    let r = deserializer_v3(&parse(r#"{"@type":"g:Vertex","@value":{"id":true}}"#));
    assert_eq!(r, Err(DecodeError::Downcast));
    let r = deserializer_v3(&parse(r#"{"@type":"g:Vertex","@value":{"label":"x"}}"#));
    assert_eq!(r, Err(DecodeError::MissingField { field: s("id"), owner: s("g:Vertex") }));
}

#[test]
fn bare_float_id_becomes_text() {
    let r = deserializer_v3(&parse(r#"{"@type":"g:Vertex","@value":{"id":1.5}}"#)).unwrap();
    assert_eq!(r, vertex(GID::String(s("1.5")), "vertex", vec![]));
}

#[test]
fn value_is_required() {
    let r = deserializer_v3(&parse(
        r#"{"@type":"g:VertexProperty","@value":{"id":{"@type":"g:Int32","@value":1},"label":"name"}}"#,
    ));
    assert_eq!(r, Err(DecodeError::MissingField { field: s("value"), owner: s("g:VertexProperty") }));
    let r = deserializer_v3(&parse(r#"{"@type":"g:Property","@value":{"key":"since"}}"#));
    assert_eq!(r, Err(DecodeError::MissingField { field: s("value"), owner: s("g:Property") }));
}

#[test]
fn edge_labels_are_required() {
    let r = deserializer_v3(&parse(
        r#"{"@type":"g:Edge","@value":{"id":"e","inV":"a","outV":"b","outVLabel":"person"}}"#,
    ));
    assert_eq!(r, Err(DecodeError::MissingField { field: s("inVLabel"), owner: s("g:Edge") }));
}

#[test]
fn path_lengths_must_agree() {
    let r = deserializer_v3(&parse(
        r#"{"@type":"g:Path","@value":{"labels":{"@type":"g:List","@value":[]},"objects":{"@type":"g:List","@value":["a"]}}}"#,
    ));
    assert_eq!(r, Err(DecodeError::InvalidPayload));
    let r = deserializer_v3(&parse(
        r#"{"@type":"g:Path","@value":{"objects":{"@type":"g:List","@value":[]}}}"#,
    ));
    assert_eq!(r, Err(DecodeError::MissingField { field: s("labels"), owner: s("g:Path") }));
    let r = deserializer_v3(&parse(
        r#"{"@type":"g:Path","@value":{"labels":"x","objects":{"@type":"g:List","@value":[]}}}"#,
    ));
    assert_eq!(r, Err(DecodeError::Downcast));
}

#[test]
fn metric_missing_field() {
    let r = deserializer_v3(&parse(
        r#"{"@type":"g:Metrics","@value":{"@type":"g:Map","@value":["id","1"]}}"#,
    ));
    assert_eq!(
        r,
        Err(DecodeError::MissingField { field: s("dur"), owner: s("g:Metrics") })
    );
}

#[test]
fn traversal_metrics_skip_non_metrics() {
    let r = deserializer_v3(&parse(
        r#"{"@type":"g:TraversalMetrics","@value":{"@type":"g:Map","@value":["dur",{"@type":"g:Double","@value":1.0},"metrics",{"@type":"g:List","@value":["x"]}]}}"#,
    ))
    .unwrap();
    assert_eq!(
        r,
        GValue::TraversalMetrics(TraversalMetrics { duration: 1.0f64.to_bits(), metrics: vec![] })
    );
}

#[test]
fn explanation_decodes() {
    let r = deserializer_v3(&parse(
        r#"{"@type":"g:TraversalExplanation","@value":{"@type":"g:Map","@value":["original",{"@type":"g:List","@value":["V()",{"@type":"g:Int32","@value":1}]},"final",{"@type":"g:List","@value":["V()"]},"intermediate",{"@type":"g:List","@value":[{"@type":"g:Map","@value":["traversal",{"@type":"g:List","@value":["V()"]},"strategy","S","category","C"]},"junk"]}]}}"#,
    ))
    .unwrap();
    match r {
        GValue::TraversalExplanation(x) => {
            assert_eq!(x.original, vec![s("V()")]);
            assert_eq!(x.finals, vec![s("V()")]);
            assert_eq!(x.intermediate.len(), 1);
            assert_eq!(x.intermediate[0].strategy, s("S"));
            assert_eq!(x.intermediate[0].category, s("C"));
            assert_eq!(x.intermediate[0].traversal, vec![s("V()")]);
        }
        other => panic!("unexpected {:?}", other),
    }
}
