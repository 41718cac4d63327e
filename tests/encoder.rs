use gremlin_client::encoder::encode;
use gremlin_client::json::{Json, Number};
use gremlin_client::map::GMap;
use gremlin_client::serializer_v3::deserializer_v3;
use gremlin_client::structure::{
    Edge, GValue, Metric, Path, Property, TraversalMetrics, Vertex, VertexProperty, GID,
};

fn s(text: &str) -> String {
    String::from(text)
}

fn env(tag: &str, payload: Json) -> Json {
    Json::Object(vec![(s("@type"), Json::String(s(tag))), (s("@value"), payload)])
}

fn to_json(v: &serde_json::Value) -> Json {
    match v {
        serde_json::Value::Null => Json::Null,
        serde_json::Value::Bool(b) => Json::Bool(*b),
        serde_json::Value::Number(n) => {
            if let Some(i) = n.as_i64() {
                Json::Number(Number::Int(i))
            } else if let Some(u) = n.as_u64() {
                Json::Number(Number::UInt(u))
            } else {
                Json::Number(Number::Float(n.as_f64().unwrap_or(0.0).to_bits(), Some(n.to_string())))
            }
        }
        serde_json::Value::String(x) => Json::String(x.clone()),
        serde_json::Value::Array(a) => Json::Array(a.iter().map(to_json).collect()),
        serde_json::Value::Object(o) => {
            Json::Object(o.iter().map(|(k, v)| (k.clone(), to_json(v))).collect())
        }
    }
}

fn sample_vertex() -> GValue {
    GValue::Vertex(Vertex {
        id: GID::Int64(7),
        label: s("person"),
        properties: vec![(
            s("name"),
            vec![VertexProperty {
                id: GID::String(s("p1")),
                label: s("name"),
                value: Box::new(GValue::String(s("marko"))),
            }],
        )],
    })
}

fn sample_map() -> GValue {
    let mut m = GMap::new();
    m.insert(s("a"), GValue::Int32(1));
    m.insert(s("b"), GValue::List(vec![GValue::Double(2.5f64.to_bits()), GValue::Null]));
    GValue::GMap(m)
}

fn sample_edge() -> GValue {
    GValue::Edge(Edge {
        id: GID::Int32(13),
        label: s("develops"),
        in_v_id: GID::Int32(10),
        in_v_label: s("software"),
        out_v_id: GID::Int32(1),
        out_v_label: s("person"),
        properties: vec![],
    })
}

fn sample_path() -> GValue {
    GValue::Path(Path {
        labels: Box::new(GValue::List(vec![GValue::List(vec![])])),
        objects: vec![sample_vertex()],
    })
}

#[test]
fn encode_int32() {
    assert_eq!(encode(&GValue::Int32(31)), env("g:Int32", Json::Number(Number::Int(31))));
}

#[test]
fn encode_uuid_is_lower_case_hyphenated() {
    let j = encode(&GValue::Uuid(0x41D2E28A20A44AB0B379D810DEDE3786));
    assert_eq!(j, env("g:UUID", Json::String(s("41d2e28a-20a4-4ab0-b379-d810dede3786"))));
}

#[test]
fn encode_property() {
    let j = encode(&GValue::Property(Property { key: s("since"), value: Box::new(GValue::Int32(2009)) }));
    assert_eq!(
        j,
        env(
            "g:Property",
            Json::Object(vec![
                (s("key"), Json::String(s("since"))),
                (s("value"), env("g:Int32", Json::Number(Number::Int(2009)))),
            ])
        )
    );
}

#[test]
fn round_trip_values() {
    let cases: Vec<fn() -> GValue> = vec![
        || GValue::Null,
        || GValue::Bool(false),
        || GValue::String(s("x")),
        || GValue::Int32(-5),
        || GValue::Int64(1 << 40),
        || GValue::Float(1.5f64.to_bits()),
        || GValue::Double(0.004f64.to_bits()),
        || GValue::Date(1551825863),
        || GValue::Uuid(0x41d2e28a20a44ab0b379d810dede3786),
        sample_vertex,
        sample_map,
        sample_edge,
        sample_path,
        || GValue::List(vec![]),
    ];
    for make in cases {
        assert_eq!(deserializer_v3(&encode(&make())), Ok(make()));
    }
}

#[test]
fn round_trip_metrics() {
    let make = || {
        GValue::TraversalMetrics(TraversalMetrics {
            duration: 0.004f64.to_bits(),
            metrics: vec![Metric {
                id: s("7.0.0()"),
                name: s("TreeStep"),
                duration: 100.0f64.to_bits(),
                count: 1,
                traversers: 2,
                perc_duration: 25.0f64.to_bits(),
            }],
        })
    };
    assert_eq!(deserializer_v3(&encode(&make())), Ok(make()));
}

#[test]
fn traversal_metrics_reencode() {
    let text = r#"{"@type":"g:TraversalMetrics","@value":{"@type":"g:Map","@value":["dur",{"@type":"g:Double","@value":0.004},"metrics",{"@type":"g:List","@value":[{"@type":"g:Metrics","@value":{"@type":"g:Map","@value":["dur",{"@type":"g:Double","@value":100.0},"counts",{"@type":"g:Map","@value":["traverserCount",{"@type":"g:Int64","@value":4},"elementCount",{"@type":"g:Int64","@value":4}]},"name","TinkerGraphStep(vertex,[~label.eq(person)])","annotations",{"@type":"g:Map","@value":["percentDur",{"@type":"g:Double","@value":25.0}]},"id","7.0.0()"]}},{"@type":"g:Metrics","@value":{"@type":"g:Map","@value":["dur",{"@type":"g:Double","@value":100.0},"counts",{"@type":"g:Map","@value":["traverserCount",{"@type":"g:Int64","@value":13},"elementCount",{"@type":"g:Int64","@value":13}]},"name","VertexStep(OUT,vertex)","annotations",{"@type":"g:Map","@value":["percentDur",{"@type":"g:Double","@value":25.0}]},"id","2.0.0()"]}},{"@type":"g:Metrics","@value":{"@type":"g:Map","@value":["dur",{"@type":"g:Double","@value":100.0},"counts",{"@type":"g:Map","@value":["traverserCount",{"@type":"g:Int64","@value":7},"elementCount",{"@type":"g:Int64","@value":7}]},"name","VertexStep(OUT,vertex)","annotations",{"@type":"g:Map","@value":["percentDur",{"@type":"g:Double","@value":25.0}]},"id","3.0.0()"]}},{"@type":"g:Metrics","@value":{"@type":"g:Map","@value":["dur",{"@type":"g:Double","@value":100.0},"counts",{"@type":"g:Map","@value":["traverserCount",{"@type":"g:Int64","@value":1},"elementCount",{"@type":"g:Int64","@value":1}]},"name","TreeStep","annotations",{"@type":"g:Map","@value":["percentDur",{"@type":"g:Double","@value":25.0}]},"id","4.0.0()"]}}]}]}}"#;
    let tree = to_json(&serde_json::from_str(text).unwrap());
    let first = deserializer_v3(&tree).unwrap();
    let again = encode(&first);
    let second = deserializer_v3(&again).unwrap();
    assert_eq!(first, second);
    match second {
        GValue::TraversalMetrics(t) => {
            assert_eq!(t.duration, 0.004f64.to_bits());
            assert_eq!(t.metrics.len(), 4);
            let ids: Vec<&str> = t.metrics.iter().map(|m| m.id.as_str()).collect();
            assert_eq!(ids, vec!["7.0.0()", "2.0.0()", "3.0.0()", "4.0.0()"]);
        }
        other => panic!("unexpected {:?}", other),
    }
}
