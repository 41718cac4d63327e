use vstd::prelude::*;

use core::marker::PhantomData;

use crate::bytecode::{Bytecode, Instruction};
use crate::error::DecodeError;
use crate::structure::{GValue, Vertex};

verus! {

/// A type that a traversal can end in: how a result value converts to it.
pub trait FromGValue: Sized {
    spec fn from_gvalue_spec(v: GValue) -> Option<Self>;

    fn from_gvalue(v: GValue) -> (r: Option<Self>)
        ensures
            r == Self::from_gvalue_spec(v),
    ;
}

impl FromGValue for GValue {
    open spec fn from_gvalue_spec(v: GValue) -> Option<GValue> {
        Some(v)
    }

    fn from_gvalue(v: GValue) -> (r: Option<GValue>) {
        Some(v)
    }
}

impl FromGValue for Vertex {
    open spec fn from_gvalue_spec(v: GValue) -> Option<Vertex> {
        match v {
            GValue::Vertex(x) => Some(x),
            _ => None,
        }
    }

    fn from_gvalue(v: GValue) -> (r: Option<Vertex>) {
        match v {
            GValue::Vertex(x) => Some(x),
            _ => None,
        }
    }
}

impl FromGValue for i64 {
    open spec fn from_gvalue_spec(v: GValue) -> Option<i64> {
        match v {
            GValue::Int64(x) => Some(x),
            _ => None,
        }
    }

    fn from_gvalue(v: GValue) -> (r: Option<i64>) {
        match v {
            GValue::Int64(x) => Some(x),
            _ => None,
        }
    }
}

/// The arguments of a step that takes labels: each label as a string value.
pub open spec fn label_args(labels: Seq<String>) -> Seq<GValue> {
    labels.map_values(|l: String| GValue::String(l))
}

/// The step `operator(labels...)`.
pub open spec fn label_step(operator: Seq<char>, labels: Seq<String>, step: Instruction) -> bool {
    step.operator@ == operator && step.args@ == label_args(labels)
}

fn to_label_args(labels: &Vec<String>) -> (r: Vec<GValue>)
    ensures
        r@ == label_args(labels@),
{
    let mut out: Vec<GValue> = Vec::new();
    let mut i: usize = 0;
    while i < labels.len()
        invariant
            i <= labels@.len(),
            out@ == label_args(labels@.subrange(0, i as int)),
        decreases labels@.len() - i,
    {
        out.push(GValue::String(labels[i].clone()));
        i += 1;
        assert(label_args(labels@.subrange(0, i as int)) =~= label_args(
            labels@.subrange(0, i - 1),
        ).push(GValue::String(labels@[i - 1])));
    }
    assert(labels@.subrange(0, i as int) == labels@);
    out
}

/// A traversal from elements of type `S` to results of type `E`. The two
/// types exist only for the compiler; the steps are kept as bytecode.
pub struct GraphTraversal<S, E: FromGValue> {
    start: PhantomData<S>,
    end: PhantomData<E>,
    bytecode: Bytecode,
}

impl<S, E: FromGValue> GraphTraversal<S, E> {
    pub closed spec fn spec_bytecode(&self) -> Bytecode {
        self.bytecode
    }

    /// A traversal made of the steps of `bytecode`.
    pub fn new(bytecode: Bytecode) -> (r: GraphTraversal<S, E>)
        ensures
            r.spec_bytecode() == bytecode,
    {
        GraphTraversal { start: PhantomData, end: PhantomData, bytecode }
    }

    pub fn bytecode(&self) -> (r: &Bytecode)
        ensures
            *r == self.spec_bytecode(),
    {
        &self.bytecode
    }

    /// Adds `hasLabel(labels...)`.
    pub fn has_label(self, labels: Vec<String>) -> (r: Self)
        ensures
            r.spec_bytecode()@.drop_last() == self.spec_bytecode()@,
            r.spec_bytecode()@.len() == self.spec_bytecode()@.len() + 1,
            label_step("hasLabel"@, labels@, r.spec_bytecode()@.last()),
    {
        let mut t = self;
        t.bytecode.add_step(String::from_str("hasLabel"), to_label_args(&labels));
        proof {
            assert(t.bytecode@.drop_last() == self.bytecode@);
        }
        t
    }

    /// Adds `addV(label...)`; the traversal then yields vertices.
    pub fn add_v(self, label: Vec<String>) -> (r: GraphTraversal<Vertex, Vertex>)
        ensures
            r.spec_bytecode()@.drop_last() == self.spec_bytecode()@,
            r.spec_bytecode()@.len() == self.spec_bytecode()@.len() + 1,
            label_step("addV"@, label@, r.spec_bytecode()@.last()),
    {
        let mut b = self.bytecode;
        b.add_step(String::from_str("addV"), to_label_args(&label));
        proof {
            assert(b@.drop_last() == self.bytecode@);
        }
        GraphTraversal::new(b)
    }

    /// Adds `has(key, predicate)`.
    pub fn has(self, key: &str, predicate: GValue) -> (r: Self)
        ensures
            r.spec_bytecode()@.drop_last() == self.spec_bytecode()@,
            r.spec_bytecode()@.len() == self.spec_bytecode()@.len() + 1,
            r.spec_bytecode()@.last().operator@ == "has"@,
            r.spec_bytecode()@.last().args@.len() == 2,
            r.spec_bytecode()@.last().args@[0] is String,
            r.spec_bytecode()@.last().args@[0]->String_0@ == key@,
            r.spec_bytecode()@.last().args@[1] == predicate,
    {
        let mut t = self;
        let args = vec![GValue::String(key.to_owned()), predicate];
        t.bytecode.add_step(String::from_str("has"), args);
        proof {
            assert(t.bytecode@.drop_last() == self.bytecode@);
        }
        t
    }

    /// Adds `out(labels...)`; the traversal then yields vertices.
    pub fn out(self, labels: Vec<String>) -> (r: GraphTraversal<S, Vertex>)
        ensures
            r.spec_bytecode()@.drop_last() == self.spec_bytecode()@,
            r.spec_bytecode()@.len() == self.spec_bytecode()@.len() + 1,
            label_step("out"@, labels@, r.spec_bytecode()@.last()),
    {
        let mut b = self.bytecode;
        b.add_step(String::from_str("out"), to_label_args(&labels));
        proof {
            assert(b@.drop_last() == self.bytecode@);
        }
        GraphTraversal::new(b)
    }

    /// Adds `values(labels...)`; the traversal then yields plain values.
    pub fn values(self, labels: Vec<String>) -> (r: GraphTraversal<S, GValue>)
        ensures
            r.spec_bytecode()@.drop_last() == self.spec_bytecode()@,
            r.spec_bytecode()@.len() == self.spec_bytecode()@.len() + 1,
            label_step("values"@, labels@, r.spec_bytecode()@.last()),
    {
        let mut b = self.bytecode;
        b.add_step(String::from_str("values"), to_label_args(&labels));
        proof {
            assert(b@.drop_last() == self.bytecode@);
        }
        GraphTraversal::new(b)
    }

    /// Adds `count()`; the traversal then yields a 64-bit count.
    pub fn count(self) -> (r: GraphTraversal<S, i64>)
        ensures
            r.spec_bytecode()@.drop_last() == self.spec_bytecode()@,
            r.spec_bytecode()@.len() == self.spec_bytecode()@.len() + 1,
            label_step("count"@, Seq::empty(), r.spec_bytecode()@.last()),
    {
        let mut b = self.bytecode;
        b.add_step(String::from_str("count"), Vec::new());
        proof {
            assert(b@.drop_last() == self.bytecode@);
            assert(label_args(Seq::<String>::empty()) =~= Seq::<GValue>::empty());
        }
        GraphTraversal::new(b)
    }

    /// Converts the values that the server returned for this traversal into
    /// the traversal's end type; fails on the first one that does not convert.
    pub fn to_list(&self, results: Vec<GValue>) -> (r: Result<Vec<E>, DecodeError>)
        ensures
            match r {
                Ok(out) => out@.len() == results@.len() && forall|i: int|
                    0 <= i < results@.len() ==> E::from_gvalue_spec(results@[i]) == Some(
                        #[trigger] out@[i],
                    ),
                Err(e) => e == DecodeError::Downcast && exists|i: int|
                    0 <= i < results@.len() && (#[trigger] E::from_gvalue_spec(
                        results@[i],
                    )) is None,
            },
    {
        let mut rest = results;
        let ghost all = rest@;
        let mut out: Vec<E> = Vec::new();
        let mut i: usize = 0;
        let n = rest.len();
        assert(all.len() == n);
        while rest.len() > 0
            invariant
                all == results@,
                all.len() <= usize::MAX,
                all.len() == i + rest@.len(),
                rest@ == all.subrange(i as int, all.len() as int),
                out@.len() == i,
                forall|k: int| 0 <= k < i ==> E::from_gvalue_spec(all[k]) == Some(#[trigger] out@[k]),
            decreases rest@.len(),
        {
            let v = rest.remove(0);
            assert(v == all[i as int]);
            match E::from_gvalue(v) {
                Some(e) => {
                    out.push(e);
                },
                None => {
                    assert(E::from_gvalue_spec(all[i as int]) is None);
                    return Err(DecodeError::Downcast);
                },
            }
            i += 1;
            assert(rest@ =~= all.subrange(i as int, all.len() as int));
        }
        Ok(out)
    }
}

/// Starts anonymous traversals (the `__` of the traversal language).
pub struct AnonymousTraversalSource {
    traversal: GraphTraversal<GValue, GValue>,
}

impl AnonymousTraversalSource {
    pub closed spec fn spec_traversal(&self) -> GraphTraversal<GValue, GValue> {
        self.traversal
    }

    /// A source whose traversals start with no steps.
    pub fn new() -> (r: AnonymousTraversalSource)
        ensures
            r.spec_traversal().spec_bytecode()@.len() == 0,
    {
        AnonymousTraversalSource { traversal: GraphTraversal::new(Bytecode::new()) }
    }

    /// The anonymous traversal `count()`.
    pub fn count(&self) -> (r: GraphTraversal<GValue, i64>)
        ensures
            r.spec_bytecode()@.len() == 1,
            label_step("count"@, Seq::empty(), r.spec_bytecode()@[0]),
    {
        GraphTraversal::<GValue, GValue>::new(Bytecode::new()).count()
    }

    /// The anonymous traversal `out(labels...)`.
    pub fn out(&self, labels: Vec<String>) -> (r: GraphTraversal<GValue, Vertex>)
        ensures
            r.spec_bytecode()@.len() == 1,
            label_step("out"@, labels@, r.spec_bytecode()@[0]),
    {
        GraphTraversal::<GValue, GValue>::new(Bytecode::new()).out(labels)
    }

    /// The anonymous traversal `values(labels...)`.
    pub fn values(&self, labels: Vec<String>) -> (r: GraphTraversal<GValue, GValue>)
        ensures
            r.spec_bytecode()@.len() == 1,
            label_step("values"@, labels@, r.spec_bytecode()@[0]),
    {
        GraphTraversal::<GValue, GValue>::new(Bytecode::new()).values(labels)
    }
}

impl Default for AnonymousTraversalSource {
    fn default() -> (r: Self)
        ensures
            r.spec_traversal().spec_bytecode()@.len() == 0,
    {
        Self::new()
    }
}

} // verus!
