//! A model of JSON trees, the shape in which requests and responses
//! travel. Numbers are split into integers and doubles; a double is
//! carried as its raw bit pattern, so the tree itself stays free of
//! floating point. Objects keep their members in order as a sequence of
//! key/value pairs.

use vstd::prelude::*;

verus! {

broadcast use vstd::std_specs::vec::group_vec_axioms;

/// Mathematical model of a JSON tree.
pub enum JsonModel {
    Null,
    Bool(bool),
    Int(int),
    DoubleBits(u64),
    Str(Seq<char>),
    Array(Seq<JsonModel>),
    Object(Seq<(Seq<char>, JsonModel)>),
}

/// Executable JSON tree.
#[derive(Debug, PartialEq)]
pub enum JsonValue {
    Null,
    Bool(bool),
    Int(i64),
    DoubleBits(u64),
    Str(String),
    Array(Vec<JsonValue>),
    Object(Vec<(String, JsonValue)>),
}

/// The model that an executable JSON tree stands for.
pub open spec fn json_model(v: JsonValue) -> JsonModel
    decreases v, 0int,
{
    match v {
        JsonValue::Null => JsonModel::Null,
        JsonValue::Bool(b) => JsonModel::Bool(b),
        JsonValue::Int(n) => JsonModel::Int(n as int),
        JsonValue::DoubleBits(bits) => JsonModel::DoubleBits(bits),
        JsonValue::Str(s) => JsonModel::Str(s@),
        JsonValue::Array(items) => {
            proof {
                assert(decreases_to!(v => items));
                assert(decreases_to!(items => items@));
            }
            JsonModel::Array(json_model_seq(items@))
        },
        JsonValue::Object(members) => {
            proof {
                assert(decreases_to!(v => members));
                assert(decreases_to!(members => members@));
            }
            JsonModel::Object(json_model_members(members@))
        },
    }
}

/// Element-wise model of a sequence of JSON trees.
pub open spec fn json_model_seq(s: Seq<JsonValue>) -> Seq<JsonModel>
    decreases s, 1int,
{
    if s.len() == 0 {
        Seq::empty()
    } else {
        proof {
            assert(decreases_to!(s => s[0]));
            assert(decreases_to!(s => s.subrange(1, s.len() as int)));
        }
        seq![json_model(s[0])] + json_model_seq(s.subrange(1, s.len() as int))
    }
}

/// Element-wise model of a sequence of object members.
pub open spec fn json_model_members(s: Seq<(String, JsonValue)>) -> Seq<(Seq<char>, JsonModel)>
    decreases s, 1int,
{
    if s.len() == 0 {
        Seq::empty()
    } else {
        proof {
            assert(decreases_to!(s => s[0]));
            assert(decreases_to!(s[0] => s[0].1));
            assert(decreases_to!(s => s.subrange(1, s.len() as int)));
        }
        seq![(s[0].0@, json_model(s[0].1))] + json_model_members(s.subrange(1, s.len() as int))
    }
}

impl View for JsonValue {
    type V = JsonModel;

    open spec fn view(&self) -> JsonModel {
        json_model(*self)
    }
}

/// The model of a sequence of trees has one entry per tree, in order.
pub proof fn lemma_model_seq(s: Seq<JsonValue>)
    ensures
        json_model_seq(s).len() == s.len(),
        forall|i: int| 0 <= i < s.len() ==> json_model_seq(s)[i] == json_model(s[i]),
    decreases s.len(),
{
    if s.len() > 0 {
        lemma_model_seq(s.subrange(1, s.len() as int));
        assert forall|i: int| 0 <= i < s.len() implies json_model_seq(s)[i] == json_model(
            s[i],
        ) by {
            if i > 0 {
                assert(s.subrange(1, s.len() as int)[i - 1] == s[i]);
            }
        }
    }
}

/// The model of a member sequence has one entry per member, in order,
/// pairing the key's characters with the value's model.
pub proof fn lemma_model_members(s: Seq<(String, JsonValue)>)
    ensures
        json_model_members(s).len() == s.len(),
        forall|i: int|
            0 <= i < s.len() ==> json_model_members(s)[i] == (s[i].0@, json_model(s[i].1)),
    decreases s.len(),
{
    if s.len() > 0 {
        lemma_model_members(s.subrange(1, s.len() as int));
        assert forall|i: int|
            0 <= i < s.len() implies json_model_members(s)[i] == (
            s[i].0@,
            json_model(s[i].1),
        ) by {
            if i > 0 {
                assert(s.subrange(1, s.len() as int)[i - 1] == s[i]);
            }
        }
    }
}

/// First value bound to `key` among `members`, if any.
pub open spec fn spec_lookup(members: Seq<(Seq<char>, JsonModel)>, key: Seq<char>) -> Option<
    JsonModel,
>
    decreases members.len(),
{
    if members.len() == 0 {
        None
    } else if members[0].0 == key {
        Some(members[0].1)
    } else {
        spec_lookup(members.subrange(1, members.len() as int), key)
    }
}

/// When every member before `i` misses `key` and member `i` hits it,
/// the lookup returns member `i`'s value.
pub proof fn lemma_lookup_hit(members: Seq<(Seq<char>, JsonModel)>, key: Seq<char>, i: int)
    requires
        0 <= i < members.len(),
        members[i].0 == key,
        forall|j: int| 0 <= j < i ==> members[j].0 != key,
    ensures
        spec_lookup(members, key) == Some(members[i].1),
    decreases i,
{
    if i > 0 {
        lemma_lookup_hit(members.subrange(1, members.len() as int), key, i - 1);
    }
}

/// When every member misses `key`, the lookup returns nothing.
pub proof fn lemma_lookup_miss(members: Seq<(Seq<char>, JsonModel)>, key: Seq<char>)
    requires
        forall|j: int| 0 <= j < members.len() ==> members[j].0 != key,
    ensures
        spec_lookup(members, key) is None,
    decreases members.len(),
{
    if members.len() > 0 {
        lemma_lookup_miss(members.subrange(1, members.len() as int), key);
    }
}

/// Character-for-character equality of two string slices.
pub fn str_eq(a: &str, b: &str) -> (r: bool)
    ensures
        r == (a@ == b@),
{
    let sa: String = a.to_owned();
    let sb: String = b.to_owned();
    sa == sb
}

impl JsonValue {
    /// Looks `key` up among the members of an object tree; the first
    /// binding wins. Returns nothing when the tree is not an object or
    /// has no such member.
    pub fn lookup(&self, key: &str) -> (r: Option<&JsonValue>)
        ensures
            match r {
                Some(v) => {
                    &&& self@ matches JsonModel::Object(members)
                    &&& spec_lookup(members, key@) == Some(v@)
                },
                None => match self@ {
                    JsonModel::Object(members) => spec_lookup(members, key@) is None,
                    _ => true,
                },
            },
    {
        match self {
            JsonValue::Object(members) => {
                proof {
                    lemma_model_members(members@);
                }
                let n = members.len();
                let mut i: usize = 0;
                while i < n
                    invariant
                        n == members.len(),
                        0 <= i <= n,
                        forall|j: int| 0 <= j < i ==> members@[j].0@ != key@,
                        json_model_members(members@).len() == members@.len(),
                        forall|j: int|
                            0 <= j < members@.len() ==> json_model_members(members@)[j] == (
                            members@[j].0@,
                            json_model(members@[j].1),
                            ),
                        self@ == JsonModel::Object(json_model_members(members@)),
                    decreases n - i,
                {
                    if str_eq(members[i].0.as_str(), key) {
                        proof {
                            lemma_lookup_hit(json_model_members(members@), key@, i as int);
                        }
                        return Some(&members[i].1);
                    }
                    i = i + 1;
                }
                proof {
                    lemma_lookup_miss(json_model_members(members@), key@);
                }
                None
            },
            _ => None,
        }
    }
}

} // verus!
