//! Dynamic JSON-like values carried through pipeline args, `with:` maps and
//! `config:` maps.
use vstd::prelude::*;
use crate::strmap::StrMap;
use crate::text::str_eq;

verus! {

broadcast use vstd::std_specs::vec::group_vec_axioms;

/// A dynamic value. Numbers are held by their canonical text.
#[derive(Debug, PartialEq)]
pub enum JsonValue {
    Null,
    Bool(bool),
    Number(String),
    String(String),
    Array(Vec<JsonValue>),
    Object(Vec<(String, JsonValue)>),
}

/// Mathematical model of a [`JsonValue`].
pub enum JsonModel {
    Null,
    Bool(bool),
    Number(Seq<char>),
    Str(Seq<char>),
    Array(Seq<JsonModel>),
    /// Keys and values, position by position.
    Object(Seq<Seq<char>>, Seq<JsonModel>),
}

impl View for JsonValue {
    type V = JsonModel;

    open spec fn view(&self) -> JsonModel
        decreases self,
    {
        match self {
            JsonValue::Null => JsonModel::Null,
            JsonValue::Bool(b) => JsonModel::Bool(*b),
            JsonValue::Number(n) => JsonModel::Number(n@),
            JsonValue::String(s) => JsonModel::Str(s@),
            JsonValue::Array(v) => JsonModel::Array(
                Seq::new(v.len() as nat, |i: int| if 0 <= i < v.len() { v[i].view() } else { JsonModel::Null }),
            ),
            JsonValue::Object(v) => JsonModel::Object(
                Seq::new(v.len() as nat, |i: int| if 0 <= i < v.len() { v[i].0@ } else { Seq::empty() }),
                Seq::new(v.len() as nat, |i: int| if 0 <= i < v.len() { v[i].1.view() } else { JsonModel::Null }),
            ),
        }
    }
}

impl JsonValue {
    /// A copy of this value with the same model.
    #[verifier::loop_isolation(false)]
    pub fn deep_clone(&self) -> (r: JsonValue)
        ensures
            r@ == self@,
        decreases self,
    {
        match self {
            JsonValue::Null => JsonValue::Null,
            JsonValue::Bool(b) => JsonValue::Bool(*b),
            JsonValue::Number(n) => JsonValue::Number(n.clone()),
            JsonValue::String(s) => JsonValue::String(s.clone()),
            JsonValue::Array(v) => {
                let mut out: Vec<JsonValue> = Vec::new();
                let mut i: usize = 0;
                while i < v.len()
                    invariant
                        i <= v.len(),
                        out@.len() == i,
                        forall|j: int| 0 <= j < i ==> out@[j]@ == v@[j]@,
                    decreases v.len() - i,
                {
                    proof {
                        assert(decreases_to!(*v => v[i as int]));
                    }
                    let c = v[i].deep_clone();
                    out.push(c);
                    i = i + 1;
                }
                let r = JsonValue::Array(out);
                assert(r@->Array_0 =~= self@->Array_0);
                r
            },
            JsonValue::Object(v) => {
                let mut out: Vec<(String, JsonValue)> = Vec::new();
                let mut i: usize = 0;
                while i < v.len()
                    invariant
                        i <= v.len(),
                        out@.len() == i,
                        forall|j: int| 0 <= j < i ==> out@[j].0@ == v@[j].0@ && out@[j].1@ == v@[j].1@,
                    decreases v.len() - i,
                {
                    proof {
                        assert(decreases_to!(*v => v[i as int]));
                        assert(decreases_to!(v[i as int] => v[i as int].1));
                    }
                    let k = v[i].0.clone();
                    let c = v[i].1.deep_clone();
                    out.push((k, c));
                    i = i + 1;
                }
                let r = JsonValue::Object(out);
                assert(r@->Object_0 =~= self@->Object_0);
                assert(r@->Object_1 =~= self@->Object_1);
                r
            },
        }
    }

    /// The boolean held by this value, if it is a boolean.
    pub fn as_bool(&self) -> (r: Option<bool>)
        ensures
            r == json_as_bool(self@),
    {
        match self {
            JsonValue::Bool(b) => Some(*b),
            _ => None,
        }
    }
}

/// The boolean held by a model, if it is a boolean.
pub open spec fn json_as_bool(v: JsonModel) -> Option<bool> {
    match v {
        JsonModel::Bool(b) => Some(b),
        _ => None,
    }
}

impl StrMap<JsonValue> {
    /// A copy of this map with the same model.
    pub fn deep_clone(&self) -> (r: StrMap<JsonValue>)
        ensures
            r@ == self@,
    {
        self.lemma_entries();
        let es = self.entries();
        let mut out: StrMap<JsonValue> = StrMap::new();
        let mut i: usize = 0;
        while i < es.len()
            invariant
                i <= es@.len(),
                es@ == self.entry_seq(),
                crate::strmap::keys_distinct(es@),
                forall|k: Seq<char>| #[trigger] out@.contains_key(k) <==> exists|j: int|
                    0 <= j < i && es@[j].0@ == k,
                forall|j: int| 0 <= j < i ==> #[trigger] out@[es@[j].0@] == es@[j].1@,
            decreases es@.len() - i,
        {
            let k = es[i].0.clone();
            let v = es[i].1.deep_clone();
            let ghost old_out = out@;
            out.insert(k, v);
            proof {
                assert forall|j: int| 0 <= j < i + 1 implies #[trigger] out@[es@[j].0@] == es@[j].1@ by {
                    if j < i {
                        assert(es@[j].0@ != es@[i as int].0@);
                    }
                }
                assert forall|kk: Seq<char>| #[trigger] out@.contains_key(kk) <==> exists|j: int|
                    0 <= j < i + 1 && es@[j].0@ == kk by {
                    if out@.contains_key(kk) && kk != es@[i as int].0@ {
                        assert(old_out.contains_key(kk));
                    }
                }
            }
            i = i + 1;
        }
        proof {
            assert forall|k: Seq<char>| #[trigger] out@.contains_key(k) implies self@.contains_key(k)
                && out@[k] == self@[k] by {
                let j = choose|j: int| 0 <= j < es@.len() && es@[j].0@ == k;
                assert(self@.contains_key(es@[j].0@));
            }
            assert forall|k: Seq<char>| #[trigger] self@.contains_key(k) implies out@.contains_key(k) by {
                assert(crate::strmap::has_key(es@, k));
            }
            assert(out@ =~= self@);
        }
        out
    }
}

/// The value of the first entry with key `k` of an object, from entry `i` on.
pub open spec fn obj_get_from(ks: Seq<Seq<char>>, vs: Seq<JsonModel>, k: Seq<char>, i: int) -> Option<JsonModel>
    decreases ks.len() - i,
{
    if i < 0 || i >= ks.len() {
        None
    } else if ks[i] == k {
        Some(vs[i])
    } else {
        obj_get_from(ks, vs, k, i + 1)
    }
}

/// The value under key `k` of an object; nothing for other values.
pub open spec fn json_get(v: JsonModel, k: Seq<char>) -> Option<JsonModel> {
    match v {
        JsonModel::Object(ks, vs) => obj_get_from(ks, vs, k, 0),
        _ => None,
    }
}

/// The value under key `k` of an object.
pub fn json_get_exec<'a>(v: &'a JsonValue, k: &str) -> (r: Option<&'a JsonValue>)
    ensures
        match r {
            Some(x) => json_get(v@, k@) == Some(x@),
            None => json_get(v@, k@) is None,
        },
{
    match v {
        JsonValue::Object(es) => {
            let ghost ks = v@->Object_0;
            let ghost vs = v@->Object_1;
            let mut i: usize = 0;
            while i < es.len()
                invariant
                    i <= es@.len(),
                    ks.len() == es@.len(),
                    vs.len() == es@.len(),
                    forall|j: int| 0 <= j < es@.len() ==> #[trigger] ks[j] == es@[j].0@ && vs[j] == es@[j].1@,
                    json_get(v@, k@) == obj_get_from(ks, vs, k@, i as int),
                decreases es@.len() - i,
            {
                assert(ks[i as int] == es@[i as int].0@);
                if str_eq(es[i].0.as_str(), k) {
                    return Some(&es[i].1);
                }
                i = i + 1;
            }
            None
        },
        _ => None,
    }
}

} // verus!
