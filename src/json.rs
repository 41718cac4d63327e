use vstd::prelude::*;

use crate::graphson::field_index;

verus! {

/// A JSON number as the codec reads it.
///
/// Integers keep their exact value; any other number is held as the bit
/// pattern of its IEEE-754 binary64 reading, with its JSON text when it was
/// read off the wire.
#[derive(Debug, Clone, PartialEq, Eq)]
pub enum Number {
    /// An integer in the range of `i64`.
    Int(i64),
    /// An integer above `i64::MAX`.
    UInt(u64),
    /// A number written with a fraction or an exponent: its binary64 bits
    /// and, for a number read off the wire, its JSON text.
    Float(u64, Option<String>),
}

/// The mathematical form of a JSON number.
pub enum NumberModel {
    Int(i64),
    UInt(u64),
    Float(u64, Option<Seq<char>>),
}

impl Number {
    pub open spec fn model(self) -> NumberModel {
        match self {
            Number::Int(n) => NumberModel::Int(n),
            Number::UInt(n) => NumberModel::UInt(n),
            Number::Float(b, t) => NumberModel::Float(
                b,
                match t {
                    Some(x) => Some(x@),
                    None => None,
                },
            ),
        }
    }
}

/// A JSON tree.
///
/// Objects keep their members in order; a member is looked up by its first
/// occurrence.
#[derive(Debug, PartialEq, Eq)]
pub enum Json {
    Null,
    Bool(bool),
    Number(Number),
    String(String),
    Array(Vec<Json>),
    Object(Vec<(String, Json)>),
}

/// The mathematical form of a JSON tree: strings as character sequences.
pub enum JsonModel {
    Null,
    Bool(bool),
    Number(NumberModel),
    Str(Seq<char>),
    Array(Seq<JsonModel>),
    Object(Seq<(Seq<char>, JsonModel)>),
}

impl Json {
    pub open spec fn model(self) -> JsonModel
        decreases self, 0int,
    {
        match self {
            Json::Null => JsonModel::Null,
            Json::Bool(b) => JsonModel::Bool(b),
            Json::Number(n) => JsonModel::Number(n.model()),
            Json::String(s) => JsonModel::Str(s@),
            Json::Array(v) => JsonModel::Array(models(v@)),
            Json::Object(v) => JsonModel::Object(member_models(v@)),
        }
    }
}

/// The models of a sequence of trees.
pub open spec fn models(s: Seq<Json>) -> Seq<JsonModel>
    decreases s, 1int,
{
    if s.len() == 0 {
        Seq::empty()
    } else {
        models(s.subrange(0, s.len() - 1)).push(s[s.len() - 1].model())
    }
}

/// The models of an object's members.
pub open spec fn member_models(s: Seq<(String, Json)>) -> Seq<(Seq<char>, JsonModel)>
    decreases s, 1int,
{
    if s.len() == 0 {
        Seq::empty()
    } else {
        member_models(s.subrange(0, s.len() - 1)).push((s[s.len() - 1].0@, s[s.len() - 1].1.model()))
    }
}

pub proof fn lemma_models(s: Seq<Json>)
    ensures
        models(s).len() == s.len(),
        forall|i: int| 0 <= i < s.len() ==> #[trigger] models(s)[i] == s[i].model(),
    decreases s.len(),
{
    if s.len() > 0 {
        let t = s.subrange(0, s.len() - 1);
        lemma_models(t);
        assert forall|i: int| 0 <= i < s.len() implies #[trigger] models(s)[i] == s[i].model() by {
            if i < s.len() - 1 {
                assert(t[i] == s[i]);
            }
        }
    }
}

pub proof fn lemma_member_models(s: Seq<(String, Json)>)
    ensures
        member_models(s).len() == s.len(),
        forall|i: int|
            0 <= i < s.len() ==> #[trigger] member_models(s)[i] == (s[i].0@, s[i].1.model()),
    decreases s.len(),
{
    if s.len() > 0 {
        let t = s.subrange(0, s.len() - 1);
        lemma_member_models(t);
        assert forall|i: int| 0 <= i < s.len() implies #[trigger] member_models(s)[i] == (
            s[i].0@,
            s[i].1.model(),
        ) by {
            if i < s.len() - 1 {
                assert(t[i] == s[i]);
            }
        }
    }
}

/// A member found in a prefix of the members is the first member of the whole.
pub proof fn lemma_field_index_prefix(fs: Seq<(Seq<char>, JsonModel)>, key: Seq<char>, k: int)
    requires
        0 <= k <= fs.len(),
        field_index(fs.subrange(0, k), key) >= 0,
    ensures
        field_index(fs, key) == field_index(fs.subrange(0, k), key),
    decreases fs.len() - k,
{
    if k < fs.len() {
        assert(fs.subrange(0, k + 1).drop_last() == fs.subrange(0, k));
        lemma_field_index_prefix(fs, key, k + 1);
    } else {
        assert(fs.subrange(0, k) == fs);
    }
}

impl Json {
    /// Finds the first member named `key` among an object's members.
    pub fn find_member(fields: &Vec<(String, Json)>, key: &str) -> (r: Option<usize>)
        ensures
            match r {
                Some(i) => i as int == field_index(member_models(fields@), key@) && i < fields@.len(),
                None => field_index(member_models(fields@), key@) == -1,
            },
    {
        let ghost m = member_models(fields@);
        proof {
            lemma_member_models(fields@);
        }
        let mut i: usize = 0;
        while i < fields.len()
            invariant
                i <= fields.len(),
                m == member_models(fields@),
                m.len() == fields@.len(),
                field_index(m.subrange(0, i as int), key@) == -1,
            decreases fields.len() - i,
        {
            assert(m.subrange(0, i + 1).drop_last() == m.subrange(0, i as int));
            proof {
                lemma_member_models(fields@);
            }
            assert(member_models(fields@)[i as int] == (fields@[i as int].0@, fields@[i as int].1.model()));
            if crate::text::str_eq(fields[i].0.as_str(), key) {
                proof {
                    lemma_field_index_prefix(m, key@, i as int + 1);
                }
                return Some(i);
            }
            i += 1;
        }
        proof {
            assert(m.subrange(0, i as int) == m);
        }
        None
    }
}

} // verus!
