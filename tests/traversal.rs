use gremlin_client::bytecode::Bytecode;
use gremlin_client::error::DecodeError;
use gremlin_client::map::GMap;
use gremlin_client::structure::{GValue, Vertex, GID};
use gremlin_client::traversal::{AnonymousTraversalSource, GraphTraversal};

fn labels(xs: &[&str]) -> Vec<String> {
    xs.iter().map(|x| String::from(*x)).collect()
}

#[test]
fn add_step_appends() {
    let mut b = Bytecode::new();
    b.add_step(String::from("V"), vec![]);
    b.add_step(String::from("has"), vec![GValue::Int32(1)]);
    let steps = b.steps();
    assert_eq!(steps.len(), 2);
    assert_eq!(steps[0].operator, "V");
    assert!(steps[0].args.is_empty());
    assert_eq!(steps[1].operator, "has");
    assert_eq!(steps[1].args, vec![GValue::Int32(1)]);
}

#[test]
fn traversal_records_steps() {
    let t: GraphTraversal<GValue, GValue> = GraphTraversal::new(Bytecode::new());
    let t = t.has_label(labels(&["person"])).has("name", GValue::String(String::from("marko")));
    let t = t.out(labels(&["knows", "created"]));
    let steps = t.bytecode().steps();
    assert_eq!(steps.len(), 3);
    assert_eq!(steps[0].operator, "hasLabel");
    assert_eq!(steps[0].args, vec![GValue::String(String::from("person"))]);
    assert_eq!(steps[1].operator, "has");
    assert_eq!(
        steps[1].args,
        vec![GValue::String(String::from("name")), GValue::String(String::from("marko"))]
    );
    assert_eq!(steps[2].operator, "out");
    assert_eq!(
        steps[2].args,
        vec![GValue::String(String::from("knows")), GValue::String(String::from("created"))]
    );
}

#[test]
fn add_v_then_count() {
    let t: GraphTraversal<GValue, GValue> = GraphTraversal::new(Bytecode::new());
    let t = t.add_v(labels(&["person"])).count();
    let steps = t.bytecode().steps();
    assert_eq!(steps.len(), 2);
    assert_eq!(steps[0].operator, "addV");
    assert_eq!(steps[1].operator, "count");
    assert!(steps[1].args.is_empty());
}

#[test]
fn anonymous_traversals_start_fresh() {
    let source = AnonymousTraversalSource::new();
    let c = source.count();
    assert_eq!(c.bytecode().steps().len(), 1);
    assert_eq!(c.bytecode().steps()[0].operator, "count");
    let o = source.out(labels(&["knows"]));
    assert_eq!(o.bytecode().steps().len(), 1);
    assert_eq!(o.bytecode().steps()[0].args, vec![GValue::String(String::from("knows"))]);
    let v = AnonymousTraversalSource::default().values(labels(&["name"]));
    assert_eq!(v.bytecode().steps()[0].operator, "values");
}

#[test]
fn to_list_converts_results() {
    let t: GraphTraversal<GValue, i64> = GraphTraversal::new(Bytecode::new());
    assert_eq!(t.to_list(vec![GValue::Int64(3), GValue::Int64(4)]), Ok(vec![3, 4]));
    assert_eq!(t.to_list(vec![GValue::Int64(3), GValue::Int32(4)]), Err(DecodeError::Downcast));
    let t: GraphTraversal<GValue, Vertex> = GraphTraversal::new(Bytecode::new());
    let v = Vertex { id: GID::Int32(1), label: String::from("person"), properties: vec![] };
    let r = t.to_list(vec![GValue::Vertex(v)]).unwrap();
    assert_eq!(r.len(), 1);
    assert_eq!(r[0].label, "person");
}

#[test]
fn map_lookup() {
    let mut m = GMap::new();
    assert!(m.is_empty());
    m.insert(String::from("a"), GValue::Int32(1));
    m.insert(String::from("b"), GValue::Int32(2));
    m.insert(String::from("a"), GValue::Int32(3));
    assert_eq!(m.len(), 2);
    assert_eq!(m.get("a"), Some(&GValue::Int32(3)));
    assert_eq!(m.get("c"), None);
    assert_eq!(m.iter().len(), 2);
    assert_eq!(m.remove("a"), Some(GValue::Int32(3)));
    assert_eq!(m.remove("a"), None);
    assert_eq!(m.len(), 1);
    assert_eq!(m.get("b"), Some(&GValue::Int32(2)));
}
