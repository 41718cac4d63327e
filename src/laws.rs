//! Properties of the codec as a whole.
use vstd::prelude::*;

use crate::graphson::{
    decode_spec, decode_tagged, field_index, mkey_index, mlookup, mstore, list_payload_spec, list_spec, map_payload_spec,
    pairs_spec, properties_field_spec, tag_date, tag_double,
    tag_edge, tag_explanation, tag_float, tag_int32, tag_int64, tag_list, tag_map, tag_metrics,
    tag_path, tag_property, tag_set, tag_traversal_metrics, tag_uuid, tag_vertex,
    tag_vertex_property, ErrorModel,
};
use crate::json::{JsonModel, NumberModel};
use crate::model::{KeyModel, ValueModel, VertexPropertyModel};
use crate::scalars::is_hyphenated;

verus! {

/// The envelope `{"@type": tag, "@value": payload}`.
pub open spec fn envelope(tag: Seq<char>, payload: JsonModel) -> JsonModel {
    JsonModel::Object(seq![("@type"@, JsonModel::Str(tag)), ("@value"@, payload)])
}

/// The tags told apart: their lengths and the letter after `g:`.
pub proof fn lemma_tag_letters()
    ensures
        tag_int32().len() == 7 && tag_int32()[2] == 'I' && tag_int32()[5] == '3',
        tag_int64().len() == 7 && tag_int64()[2] == 'I' && tag_int64()[5] == '6',
        tag_float().len() == 7 && tag_float()[2] == 'F',
        tag_double().len() == 8 && tag_double()[2] == 'D',
        tag_date().len() == 6 && tag_date()[2] == 'D',
        tag_uuid().len() == 6 && tag_uuid()[2] == 'U',
        tag_list().len() == 6 && tag_list()[2] == 'L',
        tag_set().len() == 5 && tag_set()[2] == 'S',
        tag_map().len() == 5 && tag_map()[2] == 'M',
        tag_vertex().len() == 8 && tag_vertex()[2] == 'V',
        tag_vertex_property().len() == 16 && tag_vertex_property()[2] == 'V',
        tag_property().len() == 10 && tag_property()[2] == 'P',
        tag_edge().len() == 6 && tag_edge()[2] == 'E',
        tag_path().len() == 6 && tag_path()[2] == 'P',
        tag_traversal_metrics().len() == 18 && tag_traversal_metrics()[2] == 'T',
        tag_metrics().len() == 9 && tag_metrics()[2] == 'M',
        tag_explanation().len() == 22 && tag_explanation()[2] == 'T',
{
    reveal_strlit("g:Int32");
    reveal_strlit("g:Int64");
    reveal_strlit("g:Float");
    reveal_strlit("g:Double");
    reveal_strlit("g:Date");
    reveal_strlit("g:UUID");
    reveal_strlit("g:List");
    reveal_strlit("g:Set");
    reveal_strlit("g:Map");
    reveal_strlit("g:Vertex");
    reveal_strlit("g:VertexProperty");
    reveal_strlit("g:Property");
    reveal_strlit("g:Edge");
    reveal_strlit("g:Path");
    reveal_strlit("g:TraversalMetrics");
    reveal_strlit("g:Metrics");
    reveal_strlit("g:TraversalExplanation");
}

/// The envelope keys told apart.
pub proof fn lemma_envelope_keys()
    ensures
        "@type"@.len() == 5,
        "@value"@.len() == 6,
        "@type"@ != "@value"@,
{
    reveal_strlit("@type");
    reveal_strlit("@value");
}

/// Whether `tag` is one of the registered tags.
pub open spec fn is_registered(tag: Seq<char>) -> bool {
    tag == tag_int32() || tag == tag_int64() || tag == tag_float() || tag == tag_double() || tag
        == tag_date() || tag == tag_uuid() || tag == tag_list() || tag == tag_set() || tag
        == tag_map() || tag == tag_vertex() || tag == tag_vertex_property() || tag
        == tag_property() || tag == tag_edge() || tag == tag_path() || tag
        == tag_traversal_metrics() || tag == tag_metrics() || tag == tag_explanation()
}

/// An envelope whose tag is not registered fails with that tag.
pub proof fn lemma_unknown_tag(tag: Seq<char>, payload: JsonModel)
    requires
        !is_registered(tag),
    ensures
        decode_spec(envelope(tag, payload)) == Err::<ValueModel, ErrorModel>(
            ErrorModel::UnknownTag(tag),
        ),
{
    lemma_envelope_keys();
}

/// Empty `g:List`, `g:Set` and `g:Map` payloads decode to empty containers.
pub proof fn lemma_empty_containers()
    ensures
        decode_spec(envelope(tag_list(), JsonModel::Array(Seq::empty()))) == Ok::<
            ValueModel,
            ErrorModel,
        >(ValueModel::List(Seq::empty())),
        decode_spec(envelope(tag_set(), JsonModel::Array(Seq::empty()))) == Ok::<
            ValueModel,
            ErrorModel,
        >(ValueModel::List(Seq::empty())),
        decode_spec(envelope(tag_map(), JsonModel::Array(Seq::empty()))) == Ok::<
            ValueModel,
            ErrorModel,
        >(ValueModel::Dict(Seq::<(KeyModel, ValueModel)>::empty())),
{
    lemma_envelope_keys();
    lemma_tag_letters();
    let e = JsonModel::Array(Seq::empty());
    assert(list_spec(Seq::empty()) == Ok::<Seq<ValueModel>, ErrorModel>(Seq::empty()));
    assert(pairs_spec(Seq::empty()) == Ok::<Seq<(KeyModel, ValueModel)>, ErrorModel>(Seq::empty()));
    assert(list_payload_spec(e) == Ok::<ValueModel, ErrorModel>(ValueModel::List(Seq::empty())));
    assert(map_payload_spec(e) == Ok::<ValueModel, ErrorModel>(ValueModel::Dict(Seq::empty())));
    assert(decode_tagged(tag_list(), e) == list_payload_spec(e));
    assert(decode_tagged(tag_set(), e) == list_payload_spec(e));
    assert(decode_tagged(tag_map(), e) == map_payload_spec(e));
    assert(decode_spec(envelope(tag_list(), e)) == decode_tagged(tag_list(), e));
    assert(decode_spec(envelope(tag_set(), e)) == decode_tagged(tag_set(), e));
    assert(decode_spec(envelope(tag_map(), e)) == decode_tagged(tag_map(), e));
}

/// A `g:Map` payload of odd length is an invalid payload.
pub proof fn lemma_odd_map(items: Seq<JsonModel>)
    requires
        items.len() % 2 == 1,
    ensures
        decode_spec(envelope(tag_map(), JsonModel::Array(items))) == Err::<ValueModel, ErrorModel>(
            ErrorModel::InvalidPayload,
        ),
{
    lemma_envelope_keys();
    lemma_tag_letters();
}

/// A `g:UUID` string that is not in the canonical hyphenated form is an
/// invalid payload.
pub proof fn lemma_non_canonical_uuid(s: Seq<char>)
    requires
        !is_hyphenated(s),
    ensures
        decode_spec(envelope(tag_uuid(), JsonModel::Str(s))) == Err::<ValueModel, ErrorModel>(
            ErrorModel::InvalidPayload,
        ),
{
    lemma_envelope_keys();
    lemma_tag_letters();
}

/// A vertex whose `properties` member is absent or null has no properties.
pub proof fn lemma_vertex_without_properties(fs: Seq<(Seq<char>, JsonModel)>)
    requires
        ({
            let i = field_index(fs, "properties"@);
            !(0 <= i < fs.len()) || fs[i].1 == JsonModel::Null
        }),
    ensures
        properties_field_spec(fs) == Ok::<Seq<(Seq<char>, Seq<VertexPropertyModel>)>, ErrorModel>(
            Seq::empty(),
        ),
        decode_spec(envelope(tag_vertex(), JsonModel::Object(fs))) matches Ok(v) ==> v matches ValueModel::Vertex(x)
            && x.properties.len() == 0,
{
    lemma_envelope_keys();
    lemma_tag_letters();
    assert(decode_spec(envelope(tag_vertex(), JsonModel::Object(fs))) == decode_tagged(
        tag_vertex(),
        JsonModel::Object(fs),
    ));
}

/// Widths are kept: the same integer under `g:Int32` and under `g:Int64`
/// decodes to two different values, and so does the same number under
/// `g:Float` and under `g:Double`.
pub proof fn lemma_widths_preserved(n: i64, bits: u64, text: Option<Seq<char>>)
    requires
        i32::MIN <= n <= i32::MAX,
    ensures
        decode_spec(envelope(tag_int32(), JsonModel::Number(NumberModel::Int(n)))) == Ok::<
            ValueModel,
            ErrorModel,
        >(ValueModel::Int32(n as i32)),
        decode_spec(envelope(tag_int64(), JsonModel::Number(NumberModel::Int(n)))) == Ok::<
            ValueModel,
            ErrorModel,
        >(ValueModel::Int64(n)),
        decode_spec(envelope(tag_int32(), JsonModel::Number(NumberModel::Int(n)))) != decode_spec(
            envelope(tag_int64(), JsonModel::Number(NumberModel::Int(n))),
        ),
        decode_spec(envelope(tag_float(), JsonModel::Number(NumberModel::Float(bits, text)))) == Ok::<
            ValueModel,
            ErrorModel,
        >(ValueModel::Float(bits)),
        decode_spec(envelope(tag_double(), JsonModel::Number(NumberModel::Float(bits, text)))) == Ok::<
            ValueModel,
            ErrorModel,
        >(ValueModel::Double(bits)),
        decode_spec(envelope(tag_float(), JsonModel::Number(NumberModel::Float(bits, text)))) != decode_spec(
            envelope(tag_double(), JsonModel::Number(NumberModel::Float(bits, text))),
        ),
{
    reveal_strlit("@type");
    reveal_strlit("@value");
    reveal_strlit("g:Int32");
    reveal_strlit("g:Int64");
    reveal_strlit("g:Float");
    reveal_strlit("g:Double");
    assert(tag_int64()[5] != tag_int32()[5]);
    assert(tag_double().len() != tag_int32().len());
    assert(tag_double().len() != tag_float().len());
    assert(tag_double()[3] != tag_int64()[3]);
    assert(tag_float()[2] != tag_int32()[2]);
    assert(tag_float()[2] != tag_int64()[2]);
}

pub proof fn lemma_mkey_index(s: Seq<(KeyModel, ValueModel)>, k: Seq<char>)
    ensures
        -1 <= mkey_index(s, k) < s.len(),
        mkey_index(s, k) >= 0 ==> s[mkey_index(s, k)].0 == KeyModel::Str(k),
        forall|j: int|
            0 <= j < s.len() && (mkey_index(s, k) == -1 || j < mkey_index(s, k)) ==> (#[trigger] s[j]).0
                != KeyModel::Str(k),
    decreases s.len(),
{
    if s.len() > 0 {
        lemma_mkey_index(s.drop_last(), k);
        assert forall|j: int|
            0 <= j < s.len() && (mkey_index(s, k) == -1 || j < mkey_index(s, k)) implies (#[trigger] s[j]).0
                != KeyModel::Str(k) by {
            if j < s.len() - 1 {
                assert(s[j] == s.drop_last()[j]);
            }
        }
    }
}

/// The first entry under a key is where that key first occurs.
proof fn lemma_mkey_index_at(s: Seq<(KeyModel, ValueModel)>, k: Seq<char>, i: int)
    requires
        0 <= i < s.len(),
        s[i].0 == KeyModel::Str(k),
        forall|j: int| 0 <= j < i ==> (#[trigger] s[j]).0 != KeyModel::Str(k),
    ensures
        mkey_index(s, k) == i,
{
    lemma_mkey_index(s, k);
    let f = mkey_index(s, k);
    if f != i {
        if f == -1 || f > i {
            assert(s[i].0 != KeyModel::Str(k));
        } else {
            assert(s[f].0 != KeyModel::Str(k));
        }
    }
}

proof fn lemma_mkey_absent_at(s: Seq<(KeyModel, ValueModel)>, k: Seq<char>)
    requires
        forall|j: int| 0 <= j < s.len() ==> (#[trigger] s[j]).0 != KeyModel::Str(k),
    ensures
        mkey_index(s, k) == -1,
{
    lemma_mkey_index(s, k);
    let f = mkey_index(s, k);
    if f >= 0 {
        assert(s[f].0 != KeyModel::Str(k));
    }
}

/// Storing under a key sets that key and leaves every other key as it was.
pub proof fn lemma_mstore(s: Seq<(KeyModel, ValueModel)>, k: Seq<char>, v: ValueModel)
    ensures
        mlookup(mstore(s, k, v), k) == Some(v),
        forall|k2: Seq<char>| k2 != k ==> #[trigger] mlookup(mstore(s, k, v), k2) == mlookup(s, k2),
{
    lemma_mkey_index(s, k);
    let i = mkey_index(s, k);
    let t = mstore(s, k, v);
    if i >= 0 {
        lemma_mkey_index_at(t, k, i);
    } else {
        lemma_mkey_index_at(t, k, s.len() as int);
    }
    assert forall|k2: Seq<char>| k2 != k implies #[trigger] mlookup(t, k2) == mlookup(s, k2) by {
        lemma_mkey_index(s, k2);
        let i2 = mkey_index(s, k2);
        if i2 >= 0 {
            assert(i2 != i);
            assert forall|j: int| 0 <= j < i2 implies (#[trigger] t[j]).0 != KeyModel::Str(k2) by {
                if j != i && j < s.len() {
                    assert(t[j] == s[j]);
                }
            }
            assert(t[i2] == s[i2]);
            lemma_mkey_index_at(t, k2, i2);
        } else {
            assert forall|j: int| 0 <= j < t.len() implies (#[trigger] t[j]).0 != KeyModel::Str(k2) by {
                if j != i && j < s.len() {
                    assert(t[j] == s[j]);
                }
            }
            lemma_mkey_absent_at(t, k2);
        }
    }
}

/// One pair more: the decoded map of a payload is the decoded map of all
/// but its last pair, with that pair stored.
proof fn lemma_pairs_step(items: Seq<JsonModel>)
    requires
        items.len() >= 2,
        pairs_spec(items) is Ok,
    ensures
        pairs_spec(items.subrange(0, items.len() - 2)) is Ok,
        items[items.len() - 2] is Str,
        decode_spec(items[items.len() - 1]) is Ok,
        pairs_spec(items)->Ok_0 == mstore(
            pairs_spec(items.subrange(0, items.len() - 2))->Ok_0,
            items[items.len() - 2]->Str_0,
            decode_spec(items[items.len() - 1])->Ok_0,
        ),
{
}

/// The key of the `j`-th pair of a `g:Map` payload.
pub open spec fn pair_key(items: Seq<JsonModel>, j: int) -> JsonModel {
    items[2 * j]
}

/// The value of the `j`-th pair of a `g:Map` payload.
pub open spec fn pair_value(items: Seq<JsonModel>, j: int) -> JsonModel {
    items[2 * j + 1]
}

/// Decoding a `g:Map` payload: the value under each key is the value of the
/// last pair with that key.
#[verifier::spinoff_prover]
#[verifier::rlimit(100)]
pub proof fn lemma_map_last_pair_wins(items: Seq<JsonModel>, m: Seq<(KeyModel, ValueModel)>)
    requires
        items.len() % 2 == 0,
        pairs_spec(items) == Ok::<Seq<(KeyModel, ValueModel)>, ErrorModel>(m),
    ensures
        forall|j: int|
            #![trigger pair_key(items, j)]
            0 <= j < items.len() / 2 && (forall|l: int|
                #![trigger pair_key(items, l)]
                j < l < items.len() / 2 ==> pair_key(items, l) != pair_key(items, j)) ==> pair_key(
                items,
                j,
            ) is Str && decode_spec(pair_value(items, j)) is Ok && mlookup(
                m,
                pair_key(items, j)->Str_0,
            ) == Some(decode_spec(pair_value(items, j))->Ok_0),
    decreases items.len(),
{
    if items.len() >= 2 {
        let n = items.len() - 2;
        let pre = items.subrange(0, n);
        lemma_pairs_step(items);
        let mp = pairs_spec(pre)->Ok_0;
        lemma_map_last_pair_wins(pre, mp);
        let h = items.len() / 2 - 1;
        assert(2 * h == n);
        assert(pair_key(items, h) == items[n]);
        assert(pair_value(items, h) == items[n + 1]);
        assert(pre.len() / 2 == h);
        let k = items[n]->Str_0;
        let v = decode_spec(items[n + 1])->Ok_0;
        lemma_mstore(mp, k, v);
        assert forall|j: int|
            #![trigger pair_key(items, j)]
            0 <= j < items.len() / 2 && (forall|l: int|
                #![trigger pair_key(items, l)]
                j < l < items.len() / 2 ==> pair_key(items, l) != pair_key(items, j)) implies pair_key(
                items,
                j,
            ) is Str && decode_spec(pair_value(items, j)) is Ok && mlookup(
                m,
                pair_key(items, j)->Str_0,
            ) == Some(decode_spec(pair_value(items, j))->Ok_0) by {
            if j != h {
                assert(2 * j + 1 < n);
                assert(pair_key(pre, j) == pair_key(items, j));
                assert(pair_value(pre, j) == pair_value(items, j));
                assert forall|l: int| #![trigger pair_key(pre, l)] j < l < pre.len() / 2 implies pair_key(
                    pre,
                    l,
                ) != pair_key(pre, j) by {
                    assert(pair_key(pre, l) == pair_key(items, l));
                }
                assert(pair_key(items, h) != pair_key(items, j));
                let kj = pair_key(items, j)->Str_0;
                assert(kj != k);
                assert(mlookup(m, kj) == mlookup(mp, kj));
            }
        }
    }
}

/// Decoding a `g:Map` payload: every key of the result is the key of some
/// pair.
#[verifier::spinoff_prover]
pub proof fn lemma_map_keys_from_pairs(items: Seq<JsonModel>, m: Seq<(KeyModel, ValueModel)>)
    requires
        items.len() % 2 == 0,
        pairs_spec(items) == Ok::<Seq<(KeyModel, ValueModel)>, ErrorModel>(m),
    ensures
        forall|k: Seq<char>|
            #[trigger] mlookup(m, k) is Some ==> exists|j: int|
                0 <= j < items.len() / 2 && #[trigger] pair_key(items, j) == JsonModel::Str(k),
    decreases items.len(),
{
    if items.len() >= 2 {
        let n = items.len() - 2;
        let pre = items.subrange(0, n);
        lemma_pairs_step(items);
        let mp = pairs_spec(pre)->Ok_0;
        lemma_map_keys_from_pairs(pre, mp);
        let h = items.len() / 2 - 1;
        assert(2 * h == n);
        assert(pair_key(items, h) == items[n]);
        let k = items[n]->Str_0;
        let v = decode_spec(items[n + 1])->Ok_0;
        lemma_mstore(mp, k, v);
        assert forall|k2: Seq<char>| #[trigger] mlookup(m, k2) is Some implies exists|j: int|
            0 <= j < items.len() / 2 && #[trigger] pair_key(items, j) == JsonModel::Str(k2) by {
            if k2 == k {
                assert(pair_key(items, h) == JsonModel::Str(k2));
            } else {
                assert(mlookup(mp, k2) is Some);
                let j = choose|j: int| 0 <= j < pre.len() / 2 && #[trigger] pair_key(pre, j) == JsonModel::Str(k2);
                assert(pair_key(pre, j) == pair_key(items, j));
            }
        }
    } else {
        assert(m == Seq::<(KeyModel, ValueModel)>::empty());
    }
}

} // verus!
