//! A Gremlin client library: the GraphSON v3 codec between tagged JSON trees
//! and the graph value model, and the bytecode builder behind typed traversals.
//!
//! Every decoder and the encoder are proved against the specification
//! functions in [`graphson`] and [`encoder`]; [`laws`] and [`round_trip`]
//! state what holds of the codec as a whole.

pub mod bytecode;
pub mod encoder;
pub mod error;
pub mod graphson;
pub mod json;
pub mod laws;
pub mod map;
pub mod model;
pub mod round_trip;
pub mod scalars;
pub mod serializer_v3;
pub mod structure;
pub mod text;
pub mod traversal;
