//! The document value model and its codec. A field value is a tagged
//! union over null, booleans, integers, doubles, timestamps, strings,
//! bytes, references, geographical points, arrays and maps; the codec
//! maps each value to the wire shape — a JSON object with exactly one
//! tag key — and back. Doubles travel as raw bit patterns; integers
//! travel as decimal strings; timestamps and bytes travel as the text
//! the application already holds (RFC 3339 and base64 respectively).

use vstd::prelude::*;
use crate::json::{JsonModel, JsonValue, json_model, json_model_members, json_model_seq,
    lemma_model_members, lemma_model_seq, str_eq};
use crate::numfmt::{spec_dec_int, spec_parse_i64, i64_to_dec, parse_i64_dec,
    lemma_dec_i64_round_trip};

verus! {

broadcast use vstd::std_specs::vec::group_vec_axioms;

/// Mathematical model of a document field value.
pub enum FieldModel {
    Null,
    Boolean(bool),
    Integer(int),
    DoubleBits(u64),
    Timestamp(Seq<char>),
    Str(Seq<char>),
    Bytes(Seq<char>),
    Reference(Seq<char>),
    GeoPoint(u64, u64),
    Array(Seq<FieldModel>),
    Mapping(Seq<(Seq<char>, FieldModel)>),
}

/// Executable document field value.
#[derive(Debug, PartialEq)]
pub enum FieldValue {
    Null,
    Boolean(bool),
    Integer(i64),
    DoubleBits(u64),
    Timestamp(String),
    Str(String),
    Bytes(String),
    Reference(String),
    GeoPoint(u64, u64),
    Array(Vec<FieldValue>),
    Mapping(Vec<(String, FieldValue)>),
}

/// The model that an executable field value stands for.
pub open spec fn field_model(v: FieldValue) -> FieldModel
    decreases v, 0int,
{
    match v {
        FieldValue::Null => FieldModel::Null,
        FieldValue::Boolean(b) => FieldModel::Boolean(b),
        FieldValue::Integer(n) => FieldModel::Integer(n as int),
        FieldValue::DoubleBits(bits) => FieldModel::DoubleBits(bits),
        FieldValue::Timestamp(s) => FieldModel::Timestamp(s@),
        FieldValue::Str(s) => FieldModel::Str(s@),
        FieldValue::Bytes(s) => FieldModel::Bytes(s@),
        FieldValue::Reference(s) => FieldModel::Reference(s@),
        FieldValue::GeoPoint(lat, lng) => FieldModel::GeoPoint(lat, lng),
        FieldValue::Array(items) => {
            proof {
                assert(decreases_to!(v => items));
                assert(decreases_to!(items => items@));
            }
            FieldModel::Array(field_model_seq(items@))
        },
        FieldValue::Mapping(entries) => {
            proof {
                assert(decreases_to!(v => entries));
                assert(decreases_to!(entries => entries@));
            }
            FieldModel::Mapping(field_model_entries(entries@))
        },
    }
}

/// Element-wise model of a sequence of field values.
pub open spec fn field_model_seq(s: Seq<FieldValue>) -> Seq<FieldModel>
    decreases s, 1int,
{
    if s.len() == 0 {
        Seq::empty()
    } else {
        proof {
            assert(decreases_to!(s => s[0]));
            assert(decreases_to!(s => s.subrange(1, s.len() as int)));
        }
        seq![field_model(s[0])] + field_model_seq(s.subrange(1, s.len() as int))
    }
}

/// Element-wise model of a sequence of named field values.
pub open spec fn field_model_entries(s: Seq<(String, FieldValue)>) -> Seq<(Seq<char>, FieldModel)>
    decreases s, 1int,
{
    if s.len() == 0 {
        Seq::empty()
    } else {
        proof {
            assert(decreases_to!(s => s[0]));
            assert(decreases_to!(s[0] => s[0].1));
            assert(decreases_to!(s => s.subrange(1, s.len() as int)));
        }
        seq![(s[0].0@, field_model(s[0].1))] + field_model_entries(s.subrange(1, s.len() as int))
    }
}

impl View for FieldValue {
    type V = FieldModel;

    open spec fn view(&self) -> FieldModel {
        field_model(*self)
    }
}

/// The models of a sequence of field values, element by element.
pub proof fn lemma_field_model_seq(s: Seq<FieldValue>)
    ensures
        field_model_seq(s).len() == s.len(),
        forall|i: int| 0 <= i < s.len() ==> field_model_seq(s)[i] == field_model(s[i]),
    decreases s.len(),
{
    if s.len() > 0 {
        lemma_field_model_seq(s.subrange(1, s.len() as int));
        assert forall|i: int| 0 <= i < s.len() implies field_model_seq(s)[i] == field_model(
            s[i],
        ) by {
            if i > 0 {
                assert(s.subrange(1, s.len() as int)[i - 1] == s[i]);
            }
        }
    }
}

/// The models of a sequence of named field values, element by element.
pub proof fn lemma_field_model_entries(s: Seq<(String, FieldValue)>)
    ensures
        field_model_entries(s).len() == s.len(),
        forall|i: int|
            0 <= i < s.len() ==> field_model_entries(s)[i] == (s[i].0@, field_model(s[i].1)),
    decreases s.len(),
{
    if s.len() > 0 {
        lemma_field_model_entries(s.subrange(1, s.len() as int));
        assert forall|i: int|
            0 <= i < s.len() implies field_model_entries(s)[i] == (
            s[i].0@,
            field_model(s[i].1),
        ) by {
            if i > 0 {
                assert(s.subrange(1, s.len() as int)[i - 1] == s[i]);
            }
        }
    }
}

/// A field model the codec can represent on the wire: every integer
/// fits the signed 64-bit range, recursively.
pub open spec fn field_wf(m: FieldModel) -> bool
    decreases m, 0int,
{
    match m {
        FieldModel::Integer(n) => i64::MIN <= n <= i64::MAX,
        FieldModel::Array(items) => field_wf_seq(items),
        FieldModel::Mapping(entries) => field_wf_entries(entries),
        _ => true,
    }
}

pub open spec fn field_wf_seq(s: Seq<FieldModel>) -> bool
    decreases s, 1int,
{
    if s.len() == 0 {
        true
    } else {
        proof {
            assert(decreases_to!(s => s[0]));
            assert(decreases_to!(s => s.subrange(1, s.len() as int)));
        }
        field_wf(s[0]) && field_wf_seq(s.subrange(1, s.len() as int))
    }
}

pub open spec fn field_wf_entries(s: Seq<(Seq<char>, FieldModel)>) -> bool
    decreases s, 1int,
{
    if s.len() == 0 {
        true
    } else {
        proof {
            assert(decreases_to!(s => s[0]));
            assert(decreases_to!(s[0] => s[0].1));
            assert(decreases_to!(s => s.subrange(1, s.len() as int)));
        }
        field_wf(s[0].1) && field_wf_entries(s.subrange(1, s.len() as int))
    }
}

/// A wire object with exactly one tag key.
pub open spec fn spec_tag(key: Seq<char>, v: JsonModel) -> JsonModel {
    JsonModel::Object(seq![(key, v)])
}

/// Wire encoding of a field model.
pub open spec fn spec_encode_field(m: FieldModel) -> JsonModel
    decreases m, 0int,
{
    match m {
        FieldModel::Null => spec_tag("nullValue"@, JsonModel::Null),
        FieldModel::Boolean(b) => spec_tag("booleanValue"@, JsonModel::Bool(b)),
        FieldModel::Integer(n) => spec_tag("integerValue"@, JsonModel::Str(spec_dec_int(n))),
        FieldModel::DoubleBits(bits) => spec_tag("doubleValue"@, JsonModel::DoubleBits(bits)),
        FieldModel::Timestamp(s) => spec_tag("timestampValue"@, JsonModel::Str(s)),
        FieldModel::Str(s) => spec_tag("stringValue"@, JsonModel::Str(s)),
        FieldModel::Bytes(s) => spec_tag("bytesValue"@, JsonModel::Str(s)),
        FieldModel::Reference(s) => spec_tag("referenceValue"@, JsonModel::Str(s)),
        FieldModel::GeoPoint(lat, lng) => spec_tag(
            "geoPointValue"@,
            JsonModel::Object(
                seq![
                    ("latitude"@, JsonModel::DoubleBits(lat)),
                    ("longitude"@, JsonModel::DoubleBits(lng)),
                ],
            ),
        ),
        FieldModel::Array(items) => {
            proof {
                assert(decreases_to!(m => items));
            }
            spec_tag(
                "arrayValue"@,
                JsonModel::Object(seq![("values"@, JsonModel::Array(spec_encode_seq(items)))]),
            )
        },
        FieldModel::Mapping(entries) => {
            proof {
                assert(decreases_to!(m => entries));
            }
            spec_tag(
                "mapValue"@,
                JsonModel::Object(seq![("fields"@, JsonModel::Object(spec_encode_entries(entries)))]),
            )
        },
    }
}

/// Wire encoding of a sequence of field models, element by element.
pub open spec fn spec_encode_seq(s: Seq<FieldModel>) -> Seq<JsonModel>
    decreases s, 1int,
{
    if s.len() == 0 {
        Seq::empty()
    } else {
        proof {
            assert(decreases_to!(s => s[0]));
            assert(decreases_to!(s => s.subrange(1, s.len() as int)));
        }
        seq![spec_encode_field(s[0])] + spec_encode_seq(s.subrange(1, s.len() as int))
    }
}

/// Wire encoding of a sequence of named field models.
pub open spec fn spec_encode_entries(s: Seq<(Seq<char>, FieldModel)>) -> Seq<
    (Seq<char>, JsonModel),
>
    decreases s, 1int,
{
    if s.len() == 0 {
        Seq::empty()
    } else {
        proof {
            assert(decreases_to!(s => s[0]));
            assert(decreases_to!(s[0] => s[0].1));
            assert(decreases_to!(s => s.subrange(1, s.len() as int)));
        }
        seq![(s[0].0, spec_encode_field(s[0].1))] + spec_encode_entries(
            s.subrange(1, s.len() as int),
        )
    }
}

/// Wire decoding of a field model: the inverse reading of
/// [`spec_encode_field`]. Yields nothing when the tree is not a tagged
/// object of the expected shape.
pub open spec fn spec_decode_field(j: JsonModel) -> Option<FieldModel>
    decreases j, 1int,
{
    match j {
        JsonModel::Object(members) => {
            if members.len() != 1 {
                None
            } else {
                proof {
                    assert(decreases_to!(j => members));
                    assert(decreases_to!(members => members[0]));
                }
                let key = members[0].0;
                let val = members[0].1;
                if key == "nullValue"@ {
                    match val {
                        JsonModel::Null => Some(FieldModel::Null),
                        _ => None,
                    }
                } else if key == "booleanValue"@ {
                    match val {
                        JsonModel::Bool(b) => Some(FieldModel::Boolean(b)),
                        _ => None,
                    }
                } else if key == "integerValue"@ {
                    match val {
                        JsonModel::Str(s) => match spec_parse_i64(s) {
                            Some(n) => Some(FieldModel::Integer(n)),
                            None => None,
                        },
                        _ => None,
                    }
                } else if key == "doubleValue"@ {
                    match val {
                        JsonModel::DoubleBits(bits) => Some(FieldModel::DoubleBits(bits)),
                        _ => None,
                    }
                } else if key == "timestampValue"@ {
                    match val {
                        JsonModel::Str(s) => Some(FieldModel::Timestamp(s)),
                        _ => None,
                    }
                } else if key == "stringValue"@ {
                    match val {
                        JsonModel::Str(s) => Some(FieldModel::Str(s)),
                        _ => None,
                    }
                } else if key == "bytesValue"@ {
                    match val {
                        JsonModel::Str(s) => Some(FieldModel::Bytes(s)),
                        _ => None,
                    }
                } else if key == "referenceValue"@ {
                    match val {
                        JsonModel::Str(s) => Some(FieldModel::Reference(s)),
                        _ => None,
                    }
                } else if key == "geoPointValue"@ {
                    match val {
                        JsonModel::Object(coords) => {
                            if coords.len() == 2 && coords[0].0 == "latitude"@ && coords[1].0
                                == "longitude"@ {
                                match (coords[0].1, coords[1].1) {
                                    (
                                        JsonModel::DoubleBits(lat),
                                        JsonModel::DoubleBits(lng),
                                    ) => Some(FieldModel::GeoPoint(lat, lng)),
                                    _ => None,
                                }
                            } else {
                                None
                            }
                        },
                        _ => None,
                    }
                } else if key == "arrayValue"@ {
                    match val {
                        JsonModel::Object(inner) => {
                            if inner.len() == 1 && inner[0].0 == "values"@ {
                                proof {
                                    assert(decreases_to!(members[0] => val));
                                    assert(decreases_to!(val => inner));
                                    assert(decreases_to!(inner => inner[0]));
                                }
                                match inner[0].1 {
                                    JsonModel::Array(items) => match spec_decode_seq(items) {
                                        Some(decoded) => Some(FieldModel::Array(decoded)),
                                        None => None,
                                    },
                                    _ => None,
                                }
                            } else {
                                None
                            }
                        },
                        _ => None,
                    }
                } else if key == "mapValue"@ {
                    match val {
                        JsonModel::Object(inner) => {
                            if inner.len() == 1 && inner[0].0 == "fields"@ {
                                proof {
                                    assert(decreases_to!(members[0] => val));
                                    assert(decreases_to!(val => inner));
                                    assert(decreases_to!(inner => inner[0]));
                                }
                                match inner[0].1 {
                                    JsonModel::Object(fields) => match spec_decode_entries(
                                        fields,
                                    ) {
                                        Some(decoded) => Some(FieldModel::Mapping(decoded)),
                                        None => None,
                                    },
                                    _ => None,
                                }
                            } else {
                                None
                            }
                        },
                        _ => None,
                    }
                } else {
                    None
                }
            }
        },
        _ => None,
    }
}

/// Wire decoding of a sequence of trees; fails when any element fails.
pub open spec fn spec_decode_seq(s: Seq<JsonModel>) -> Option<Seq<FieldModel>>
    decreases s, 2int,
{
    if s.len() == 0 {
        Some(Seq::empty())
    } else {
        proof {
            assert(decreases_to!(s => s[0]));
            assert(decreases_to!(s => s.subrange(1, s.len() as int)));
        }
        match (spec_decode_field(s[0]), spec_decode_seq(s.subrange(1, s.len() as int))) {
            (Some(head), Some(tail)) => Some(seq![head] + tail),
            _ => None,
        }
    }
}

/// Wire decoding of a sequence of named trees; fails when any fails.
pub open spec fn spec_decode_entries(s: Seq<(Seq<char>, JsonModel)>) -> Option<
    Seq<(Seq<char>, FieldModel)>,
>
    decreases s, 2int,
{
    if s.len() == 0 {
        Some(Seq::empty())
    } else {
        proof {
            assert(decreases_to!(s => s[0]));
            assert(decreases_to!(s[0] => s[0].1));
            assert(decreases_to!(s => s.subrange(1, s.len() as int)));
        }
        match (spec_decode_field(s[0].1), spec_decode_entries(s.subrange(1, s.len() as int))) {
            (Some(head), Some(tail)) => Some(seq![(s[0].0, head)] + tail),
            _ => None,
        }
    }
}

} // verus!

verus! {

/// Wire encoding of a sequence, element by element.
pub proof fn lemma_spec_encode_seq(s: Seq<FieldModel>)
    ensures
        spec_encode_seq(s).len() == s.len(),
        forall|i: int| 0 <= i < s.len() ==> spec_encode_seq(s)[i] == spec_encode_field(s[i]),
    decreases s.len(),
{
    if s.len() > 0 {
        lemma_spec_encode_seq(s.subrange(1, s.len() as int));
        assert forall|i: int|
            0 <= i < s.len() implies spec_encode_seq(s)[i] == spec_encode_field(s[i]) by {
            if i > 0 {
                assert(s.subrange(1, s.len() as int)[i - 1] == s[i]);
            }
        }
    }
}

/// Wire encoding of an entry sequence, element by element.
pub proof fn lemma_spec_encode_entries(s: Seq<(Seq<char>, FieldModel)>)
    ensures
        spec_encode_entries(s).len() == s.len(),
        forall|i: int|
            0 <= i < s.len() ==> spec_encode_entries(s)[i] == (s[i].0, spec_encode_field(s[i].1)),
    decreases s.len(),
{
    if s.len() > 0 {
        lemma_spec_encode_entries(s.subrange(1, s.len() as int));
        assert forall|i: int|
            0 <= i < s.len() implies spec_encode_entries(s)[i] == (
            s[i].0,
            spec_encode_field(s[i].1),
        ) by {
            if i > 0 {
                assert(s.subrange(1, s.len() as int)[i - 1] == s[i]);
            }
        }
    }
}

/// When every element decodes, the sequence decodes to exactly those
/// elements.
pub proof fn lemma_decode_seq_pointwise(s: Seq<JsonModel>, d: Seq<FieldModel>)
    requires
        d.len() == s.len(),
        forall|i: int| 0 <= i < s.len() ==> spec_decode_field(s[i]) == Some(d[i]),
    ensures
        spec_decode_seq(s) == Some(d),
    decreases s.len(),
{
    if s.len() == 0 {
        assert(d =~= Seq::<FieldModel>::empty());
    } else {
        let st = s.subrange(1, s.len() as int);
        let dt = d.subrange(1, d.len() as int);
        assert(forall|i: int| 0 <= i < st.len() ==> st[i] == s[i + 1] && dt[i] == d[i + 1]);
        lemma_decode_seq_pointwise(st, dt);
        assert(seq![d[0]] + dt =~= d);
    }
}

/// When some element fails to decode, the sequence fails to decode.
pub proof fn lemma_decode_seq_fail(s: Seq<JsonModel>, i: int)
    requires
        0 <= i < s.len(),
        spec_decode_field(s[i]) is None,
    ensures
        spec_decode_seq(s) is None,
    decreases i,
{
    if i > 0 {
        lemma_decode_seq_fail(s.subrange(1, s.len() as int), i - 1);
    }
}

/// When every entry's value decodes, the entry sequence decodes to
/// exactly those entries.
pub proof fn lemma_decode_entries_pointwise(
    s: Seq<(Seq<char>, JsonModel)>,
    d: Seq<(Seq<char>, FieldModel)>,
)
    requires
        d.len() == s.len(),
        forall|i: int|
            0 <= i < s.len() ==> d[i].0 == s[i].0 && spec_decode_field(s[i].1) == Some(d[i].1),
    ensures
        spec_decode_entries(s) == Some(d),
    decreases s.len(),
{
    if s.len() == 0 {
        assert(d =~= Seq::<(Seq<char>, FieldModel)>::empty());
    } else {
        let st = s.subrange(1, s.len() as int);
        let dt = d.subrange(1, d.len() as int);
        assert(forall|i: int| 0 <= i < st.len() ==> st[i] == s[i + 1] && dt[i] == d[i + 1]);
        lemma_decode_entries_pointwise(st, dt);
        assert(d[0] == (s[0].0, d[0].1));
        assert(seq![d[0]] + dt =~= d);
    }
}

/// When some entry's value fails to decode, the entry sequence fails.
pub proof fn lemma_decode_entries_fail(s: Seq<(Seq<char>, JsonModel)>, i: int)
    requires
        0 <= i < s.len(),
        spec_decode_field(s[i].1) is None,
    ensures
        spec_decode_entries(s) is None,
    decreases i,
{
    if i > 0 {
        lemma_decode_entries_fail(s.subrange(1, s.len() as int), i - 1);
    }
}

/// The codec's round trip: decoding the encoding of any representable
/// field model yields the model back, for every variant, nested arrays
/// and maps included.
pub proof fn lemma_field_round_trip(m: FieldModel)
    requires
        field_wf(m),
    ensures
        spec_decode_field(spec_encode_field(m)) == Some(m),
    decreases m, 0int,
{
    reveal_strlit("nullValue");
    reveal_strlit("booleanValue");
    reveal_strlit("integerValue");
    reveal_strlit("doubleValue");
    reveal_strlit("timestampValue");
    reveal_strlit("stringValue");
    reveal_strlit("bytesValue");
    reveal_strlit("referenceValue");
    reveal_strlit("geoPointValue");
    reveal_strlit("arrayValue");
    reveal_strlit("mapValue");
    reveal_strlit("latitude");
    reveal_strlit("longitude");
    reveal_strlit("values");
    reveal_strlit("fields");
    assert("integerValue"@ != "booleanValue"@) by {
        assert("integerValue"@[0] == 'i' && "booleanValue"@[0] == 'b');
    }
    assert("stringValue"@ != "doubleValue"@) by {
        assert("stringValue"@[0] == 's' && "doubleValue"@[0] == 'd');
    }
    assert("referenceValue"@ != "timestampValue"@) by {
        assert("referenceValue"@[0] == 'r' && "timestampValue"@[0] == 't');
    }
    assert("arrayValue"@ != "bytesValue"@) by {
        assert("arrayValue"@[0] == 'a' && "bytesValue"@[0] == 'b');
    }
    assert("mapValue"@ != "nullValue"@) by {
        assert("mapValue"@[0] == 'm' && "nullValue"@[0] == 'n');
    }
    match m {
        FieldModel::Null => {
            assert(spec_decode_field(spec_encode_field(m)) == Some(m));
        },
        FieldModel::Boolean(b) => {
            assert("booleanValue"@ != "nullValue"@) by {
                assert("booleanValue"@.len() == 12);
                assert("nullValue"@.len() == 9);
            }
            assert(spec_decode_field(spec_encode_field(m)) == Some(m));
        },
        FieldModel::Integer(n) => {
            assert("integerValue"@ != "nullValue"@) by {
                assert("integerValue"@.len() == 12);
                assert("nullValue"@.len() == 9);
            }
            assert("integerValue"@ != "booleanValue"@) by {
                assert("integerValue"@[0] == 'i');
                assert("booleanValue"@[0] == 'b');
            }
            lemma_dec_i64_round_trip(n);
            assert(spec_decode_field(spec_encode_field(m)) == Some(m));
        },
        FieldModel::DoubleBits(bits) => {
            assert("doubleValue"@ != "nullValue"@) by {
                assert("doubleValue"@.len() == 11);
                assert("nullValue"@.len() == 9);
            }
            assert("doubleValue"@ != "booleanValue"@) by {
                assert("doubleValue"@.len() == 11);
                assert("booleanValue"@.len() == 12);
            }
            assert("doubleValue"@ != "integerValue"@) by {
                assert("doubleValue"@.len() == 11);
                assert("integerValue"@.len() == 12);
            }
            assert(spec_decode_field(spec_encode_field(m)) == Some(m));
        },
        FieldModel::Timestamp(ts) => {
            assert("timestampValue"@ != "nullValue"@) by {
                assert("timestampValue"@.len() == 14);
                assert("nullValue"@.len() == 9);
            }
            assert("timestampValue"@ != "booleanValue"@) by {
                assert("timestampValue"@.len() == 14);
                assert("booleanValue"@.len() == 12);
            }
            assert("timestampValue"@ != "integerValue"@) by {
                assert("timestampValue"@.len() == 14);
                assert("integerValue"@.len() == 12);
            }
            assert("timestampValue"@ != "doubleValue"@) by {
                assert("timestampValue"@.len() == 14);
                assert("doubleValue"@.len() == 11);
            }
            assert(spec_decode_field(spec_encode_field(m)) == Some(m));
        },
        FieldModel::Str(st) => {
            assert("stringValue"@ != "nullValue"@) by {
                assert("stringValue"@.len() == 11);
                assert("nullValue"@.len() == 9);
            }
            assert("stringValue"@ != "booleanValue"@) by {
                assert("stringValue"@.len() == 11);
                assert("booleanValue"@.len() == 12);
            }
            assert("stringValue"@ != "integerValue"@) by {
                assert("stringValue"@.len() == 11);
                assert("integerValue"@.len() == 12);
            }
            assert("stringValue"@ != "doubleValue"@) by {
                assert("stringValue"@[0] == 's');
                assert("doubleValue"@[0] == 'd');
            }
            assert("stringValue"@ != "timestampValue"@) by {
                assert("stringValue"@.len() == 11);
                assert("timestampValue"@.len() == 14);
            }
            assert(spec_decode_field(spec_encode_field(m)) == Some(m));
        },
        FieldModel::Bytes(by) => {
            assert("bytesValue"@ != "nullValue"@) by {
                assert("bytesValue"@.len() == 10);
                assert("nullValue"@.len() == 9);
            }
            assert("bytesValue"@ != "booleanValue"@) by {
                assert("bytesValue"@.len() == 10);
                assert("booleanValue"@.len() == 12);
            }
            assert("bytesValue"@ != "integerValue"@) by {
                assert("bytesValue"@.len() == 10);
                assert("integerValue"@.len() == 12);
            }
            assert("bytesValue"@ != "doubleValue"@) by {
                assert("bytesValue"@.len() == 10);
                assert("doubleValue"@.len() == 11);
            }
            assert("bytesValue"@ != "timestampValue"@) by {
                assert("bytesValue"@.len() == 10);
                assert("timestampValue"@.len() == 14);
            }
            assert("bytesValue"@ != "stringValue"@) by {
                assert("bytesValue"@.len() == 10);
                assert("stringValue"@.len() == 11);
            }
            assert(spec_decode_field(spec_encode_field(m)) == Some(m));
        },
        FieldModel::Reference(rf) => {
            assert("referenceValue"@ != "nullValue"@) by {
                assert("referenceValue"@.len() == 14);
                assert("nullValue"@.len() == 9);
            }
            assert("referenceValue"@ != "booleanValue"@) by {
                assert("referenceValue"@.len() == 14);
                assert("booleanValue"@.len() == 12);
            }
            assert("referenceValue"@ != "integerValue"@) by {
                assert("referenceValue"@.len() == 14);
                assert("integerValue"@.len() == 12);
            }
            assert("referenceValue"@ != "doubleValue"@) by {
                assert("referenceValue"@.len() == 14);
                assert("doubleValue"@.len() == 11);
            }
            assert("referenceValue"@ != "timestampValue"@) by {
                assert("referenceValue"@[0] == 'r');
                assert("timestampValue"@[0] == 't');
            }
            assert("referenceValue"@ != "stringValue"@) by {
                assert("referenceValue"@.len() == 14);
                assert("stringValue"@.len() == 11);
            }
            assert("referenceValue"@ != "bytesValue"@) by {
                assert("referenceValue"@.len() == 14);
                assert("bytesValue"@.len() == 10);
            }
            assert(spec_decode_field(spec_encode_field(m)) == Some(m));
        },
        FieldModel::GeoPoint(lat, lng) => {
            assert("geoPointValue"@ != "nullValue"@) by {
                assert("geoPointValue"@.len() == 13);
                assert("nullValue"@.len() == 9);
            }
            assert("geoPointValue"@ != "booleanValue"@) by {
                assert("geoPointValue"@.len() == 13);
                assert("booleanValue"@.len() == 12);
            }
            assert("geoPointValue"@ != "integerValue"@) by {
                assert("geoPointValue"@.len() == 13);
                assert("integerValue"@.len() == 12);
            }
            assert("geoPointValue"@ != "doubleValue"@) by {
                assert("geoPointValue"@.len() == 13);
                assert("doubleValue"@.len() == 11);
            }
            assert("geoPointValue"@ != "timestampValue"@) by {
                assert("geoPointValue"@.len() == 13);
                assert("timestampValue"@.len() == 14);
            }
            assert("geoPointValue"@ != "stringValue"@) by {
                assert("geoPointValue"@.len() == 13);
                assert("stringValue"@.len() == 11);
            }
            assert("geoPointValue"@ != "bytesValue"@) by {
                assert("geoPointValue"@.len() == 13);
                assert("bytesValue"@.len() == 10);
            }
            assert("geoPointValue"@ != "referenceValue"@) by {
                assert("geoPointValue"@.len() == 13);
                assert("referenceValue"@.len() == 14);
            }
            assert(spec_decode_field(spec_encode_field(m)) == Some(m));
        },
        FieldModel::Array(items) => {
            assert("arrayValue"@ != "nullValue"@) by {
                assert("arrayValue"@.len() == 10);
                assert("nullValue"@.len() == 9);
            }
            assert("arrayValue"@ != "booleanValue"@) by {
                assert("arrayValue"@.len() == 10);
                assert("booleanValue"@.len() == 12);
            }
            assert("arrayValue"@ != "integerValue"@) by {
                assert("arrayValue"@.len() == 10);
                assert("integerValue"@.len() == 12);
            }
            assert("arrayValue"@ != "doubleValue"@) by {
                assert("arrayValue"@.len() == 10);
                assert("doubleValue"@.len() == 11);
            }
            assert("arrayValue"@ != "timestampValue"@) by {
                assert("arrayValue"@.len() == 10);
                assert("timestampValue"@.len() == 14);
            }
            assert("arrayValue"@ != "stringValue"@) by {
                assert("arrayValue"@.len() == 10);
                assert("stringValue"@.len() == 11);
            }
            assert("arrayValue"@ != "bytesValue"@) by {
                assert("arrayValue"@[0] == 'a');
                assert("bytesValue"@[0] == 'b');
            }
            assert("arrayValue"@ != "referenceValue"@) by {
                assert("arrayValue"@.len() == 10);
                assert("referenceValue"@.len() == 14);
            }
            assert("arrayValue"@ != "geoPointValue"@) by {
                assert("arrayValue"@.len() == 10);
                assert("geoPointValue"@.len() == 13);
            }
            assert(decreases_to!(m => items));
            lemma_round_trip_seq(items);
            assert(spec_decode_field(spec_encode_field(m)) == Some(m));
        },
        FieldModel::Mapping(entries) => {
            assert("mapValue"@ != "nullValue"@) by {
                assert("mapValue"@.len() == 8);
                assert("nullValue"@.len() == 9);
            }
            assert("mapValue"@ != "booleanValue"@) by {
                assert("mapValue"@.len() == 8);
                assert("booleanValue"@.len() == 12);
            }
            assert("mapValue"@ != "integerValue"@) by {
                assert("mapValue"@.len() == 8);
                assert("integerValue"@.len() == 12);
            }
            assert("mapValue"@ != "doubleValue"@) by {
                assert("mapValue"@.len() == 8);
                assert("doubleValue"@.len() == 11);
            }
            assert("mapValue"@ != "timestampValue"@) by {
                assert("mapValue"@.len() == 8);
                assert("timestampValue"@.len() == 14);
            }
            assert("mapValue"@ != "stringValue"@) by {
                assert("mapValue"@.len() == 8);
                assert("stringValue"@.len() == 11);
            }
            assert("mapValue"@ != "bytesValue"@) by {
                assert("mapValue"@.len() == 8);
                assert("bytesValue"@.len() == 10);
            }
            assert("mapValue"@ != "referenceValue"@) by {
                assert("mapValue"@.len() == 8);
                assert("referenceValue"@.len() == 14);
            }
            assert("mapValue"@ != "geoPointValue"@) by {
                assert("mapValue"@.len() == 8);
                assert("geoPointValue"@.len() == 13);
            }
            assert("mapValue"@ != "arrayValue"@) by {
                assert("mapValue"@.len() == 8);
                assert("arrayValue"@.len() == 10);
            }
            assert(decreases_to!(m => entries));
            lemma_round_trip_entries(entries);
            assert(spec_decode_field(spec_encode_field(m)) == Some(m));
        },
    }
}

/// Round trip of a sequence of representable field models.
pub proof fn lemma_round_trip_seq(s: Seq<FieldModel>)
    requires
        field_wf_seq(s),
    ensures
        spec_decode_seq(spec_encode_seq(s)) == Some(s),
    decreases s, 1int,
{
    if s.len() == 0 {
    } else {
        assert(decreases_to!(s => s[0]));
        assert(decreases_to!(s => s.subrange(1, s.len() as int)));
        lemma_field_round_trip(s[0]);
        lemma_round_trip_seq(s.subrange(1, s.len() as int));
        let enc = spec_encode_seq(s);
        assert(enc[0] == spec_encode_field(s[0]));
        assert(enc.subrange(1, enc.len() as int) =~= spec_encode_seq(
            s.subrange(1, s.len() as int),
        ));
        assert(seq![s[0]] + s.subrange(1, s.len() as int) =~= s);
    }
}

/// Round trip of a sequence of named representable field models.
pub proof fn lemma_round_trip_entries(s: Seq<(Seq<char>, FieldModel)>)
    requires
        field_wf_entries(s),
    ensures
        spec_decode_entries(spec_encode_entries(s)) == Some(s),
    decreases s, 1int,
{
    if s.len() == 0 {
    } else {
        assert(decreases_to!(s => s[0]));
        assert(decreases_to!(s[0] => s[0].1));
        assert(decreases_to!(s => s.subrange(1, s.len() as int)));
        lemma_field_round_trip(s[0].1);
        lemma_round_trip_entries(s.subrange(1, s.len() as int));
        let enc = spec_encode_entries(s);
        assert(enc[0] == (s[0].0, spec_encode_field(s[0].1)));
        assert(enc.subrange(1, enc.len() as int) =~= spec_encode_entries(
            s.subrange(1, s.len() as int),
        ));
        assert(s[0] == (s[0].0, s[0].1));
        assert(seq![s[0]] + s.subrange(1, s.len() as int) =~= s);
    }
}

} // verus!

verus! {

/// A one-member wire object `{key: v}`.
fn tag_obj(key: &str, v: JsonValue) -> (r: JsonValue)
    ensures
        r@ == spec_tag(key@, json_model(v)),
{
    let ghost vm = json_model(v);
    let mut members: Vec<(String, JsonValue)> = Vec::new();
    members.push((key.to_owned(), v));
    proof {
        lemma_model_members(members@);
        assert(json_model_members(members@)[0] == (key@, vm));
        assert(json_model_members(members@) =~= seq![(key@, vm)]);
    }
    JsonValue::Object(members)
}

/// Encodes one field value into its wire shape.
pub fn encode_field(v: &FieldValue) -> (r: JsonValue)
    ensures
        r@ == spec_encode_field(v@),
    decreases v,
{
    match v {
        FieldValue::Null => tag_obj("nullValue", JsonValue::Null),
        FieldValue::Boolean(b) => tag_obj("booleanValue", JsonValue::Bool(*b)),
        FieldValue::Integer(n) => tag_obj("integerValue", JsonValue::Str(i64_to_dec(*n))),
        FieldValue::DoubleBits(bits) => tag_obj("doubleValue", JsonValue::DoubleBits(*bits)),
        FieldValue::Timestamp(s) => tag_obj("timestampValue", JsonValue::Str(s.clone())),
        FieldValue::Str(s) => tag_obj("stringValue", JsonValue::Str(s.clone())),
        FieldValue::Bytes(s) => tag_obj("bytesValue", JsonValue::Str(s.clone())),
        FieldValue::Reference(s) => tag_obj("referenceValue", JsonValue::Str(s.clone())),
        FieldValue::GeoPoint(lat, lng) => {
            let mut coords: Vec<(String, JsonValue)> = Vec::new();
            coords.push(("latitude".to_owned(), JsonValue::DoubleBits(*lat)));
            coords.push(("longitude".to_owned(), JsonValue::DoubleBits(*lng)));
            proof {
                lemma_model_members(coords@);
                assert(json_model_members(coords@)[0] == ("latitude"@, JsonModel::DoubleBits(*lat)));
                assert(json_model_members(coords@)[1] == ("longitude"@, JsonModel::DoubleBits(*lng)));
                assert(json_model_members(coords@) =~= seq![
                    ("latitude"@, JsonModel::DoubleBits(*lat)),
                    ("longitude"@, JsonModel::DoubleBits(*lng)),
                ]);
            }
            tag_obj("geoPointValue", JsonValue::Object(coords))
        },
        FieldValue::Array(items) => {
            let mut vals: Vec<JsonValue> = Vec::new();
            let n = items.len();
            let mut i: usize = 0;
            while i < n
                invariant
                    n == items@.len(),
                    0 <= i <= n,
                    vals@.len() == i,
                    *v == FieldValue::Array(*items),
                    forall|j: int|
                        0 <= j < i ==> json_model(vals@[j]) == spec_encode_field(
                            field_model(items@[j]),
                        ),
                decreases n - i,
            {
                proof {
                    assert(decreases_to!(*v => v->Array_0));
                    assert(v->Array_0 == *items);
                    assert(decreases_to!(*items => items@));
                    assert(decreases_to!(items@ => items@[i as int]));
                }
                let enc = encode_field(&items[i]);
                vals.push(enc);
                i = i + 1;
            }
            proof {
                lemma_model_seq(vals@);
                lemma_field_model_seq(items@);
                lemma_spec_encode_seq(field_model_seq(items@));
                assert(json_model_seq(vals@) =~= spec_encode_seq(field_model_seq(items@)));
            }
            let inner = tag_obj("values", JsonValue::Array(vals));
            tag_obj("arrayValue", inner)
        },
        FieldValue::Mapping(entries) => {
            let mut fields: Vec<(String, JsonValue)> = Vec::new();
            let n = entries.len();
            let mut i: usize = 0;
            while i < n
                invariant
                    n == entries@.len(),
                    0 <= i <= n,
                    fields@.len() == i,
                    *v == FieldValue::Mapping(*entries),
                    forall|j: int|
                        0 <= j < i ==> fields@[j].0@ == entries@[j].0@ && json_model(
                            fields@[j].1,
                        ) == spec_encode_field(field_model(entries@[j].1)),
                decreases n - i,
            {
                proof {
                    assert(decreases_to!(*v => v->Mapping_0));
                    assert(v->Mapping_0 == *entries);
                    assert(decreases_to!(*entries => entries@));
                    assert(decreases_to!(entries@ => entries@[i as int]));
                    assert(decreases_to!(entries@[i as int] => entries@[i as int].1));
                }
                let enc = encode_field(&entries[i].1);
                fields.push((entries[i].0.clone(), enc));
                i = i + 1;
            }
            proof {
                lemma_model_members(fields@);
                lemma_field_model_entries(entries@);
                lemma_spec_encode_entries(field_model_entries(entries@));
                assert(json_model_members(fields@) =~= spec_encode_entries(
                    field_model_entries(entries@),
                ));
            }
            let inner = tag_obj("fields", JsonValue::Object(fields));
            tag_obj("mapValue", inner)
        },
    }
}

/// Encodes a whole field set — the `fields` member of a document.
pub fn encode_fields(fields: &Vec<(String, FieldValue)>) -> (r: JsonValue)
    ensures
        r@ == JsonModel::Object(spec_encode_entries(field_model_entries(fields@))),
{
    let mut out: Vec<(String, JsonValue)> = Vec::new();
    let n = fields.len();
    let mut i: usize = 0;
    while i < n
        invariant
            n == fields@.len(),
            0 <= i <= n,
            out@.len() == i,
            forall|j: int|
                0 <= j < i ==> out@[j].0@ == fields@[j].0@ && json_model(out@[j].1)
                    == spec_encode_field(field_model(fields@[j].1)),
        decreases n - i,
    {
        let enc = encode_field(&fields[i].1);
        out.push((fields[i].0.clone(), enc));
        i = i + 1;
    }
    proof {
        lemma_model_members(out@);
        lemma_field_model_entries(fields@);
        lemma_spec_encode_entries(field_model_entries(fields@));
        assert(json_model_members(out@) =~= spec_encode_entries(field_model_entries(fields@)));
    }
    JsonValue::Object(out)
}

} // verus!

verus! {

/// Decodes one wire tree back into a field value: the executable
/// inverse of [`encode_field`]. Yields nothing exactly when the tree
/// is not a well-formed tagged value.
pub fn decode_field(j: &JsonValue) -> (r: Option<FieldValue>)
    ensures
        match r {
            Some(fv) => spec_decode_field(j@) == Some(fv@),
            None => spec_decode_field(j@) is None,
        },
    decreases j,
{
    match j {
        JsonValue::Object(members) => {
            proof {
                lemma_model_members(members@);
            }
            if members.len() != 1 {
                return None;
            }
            let key = &members[0].0;
            let val = &members[0].1;
            if str_eq(key.as_str(), "nullValue") {
                match val {
                    JsonValue::Null => Some(FieldValue::Null),
                    _ => None,
                }
            } else if str_eq(key.as_str(), "booleanValue") {
                match val {
                    JsonValue::Bool(b) => Some(FieldValue::Boolean(*b)),
                    _ => None,
                }
            } else if str_eq(key.as_str(), "integerValue") {
                match val {
                    JsonValue::Str(s) => match parse_i64_dec(s.as_str()) {
                        Some(n) => Some(FieldValue::Integer(n)),
                        None => None,
                    },
                    _ => None,
                }
            } else if str_eq(key.as_str(), "doubleValue") {
                match val {
                    JsonValue::DoubleBits(bits) => Some(FieldValue::DoubleBits(*bits)),
                    _ => None,
                }
            } else if str_eq(key.as_str(), "timestampValue") {
                match val {
                    JsonValue::Str(s) => Some(FieldValue::Timestamp(s.clone())),
                    _ => None,
                }
            } else if str_eq(key.as_str(), "stringValue") {
                match val {
                    JsonValue::Str(s) => Some(FieldValue::Str(s.clone())),
                    _ => None,
                }
            } else if str_eq(key.as_str(), "bytesValue") {
                match val {
                    JsonValue::Str(s) => Some(FieldValue::Bytes(s.clone())),
                    _ => None,
                }
            } else if str_eq(key.as_str(), "referenceValue") {
                match val {
                    JsonValue::Str(s) => Some(FieldValue::Reference(s.clone())),
                    _ => None,
                }
            } else if str_eq(key.as_str(), "geoPointValue") {
                match val {
                    JsonValue::Object(coords) => {
                        proof {
                            lemma_model_members(coords@);
                        }
                        if coords.len() == 2 {
                            let lat_ok = str_eq(coords[0].0.as_str(), "latitude");
                            let lng_ok = str_eq(coords[1].0.as_str(), "longitude");
                            if lat_ok && lng_ok {
                                match (&coords[0].1, &coords[1].1) {
                                    (
                                        JsonValue::DoubleBits(lat),
                                        JsonValue::DoubleBits(lng),
                                    ) => Some(FieldValue::GeoPoint(*lat, *lng)),
                                    _ => None,
                                }
                            } else {
                                None
                            }
                        } else {
                            None
                        }
                    },
                    _ => None,
                }
            } else if str_eq(key.as_str(), "arrayValue") {
                match val {
                    JsonValue::Object(inner) => {
                        proof {
                            lemma_model_members(inner@);
                        }
                        if inner.len() == 1 && str_eq(inner[0].0.as_str(), "values") {
                            match &inner[0].1 {
                                JsonValue::Array(items) => {
                                    let n = items.len();
                                    let mut out: Vec<FieldValue> = Vec::new();
                                    let mut i: usize = 0;
                                    proof {
                                        lemma_model_seq(items@);
                                    }
                                    while i < n
                                        invariant
                                            n == items@.len(),
                                            0 <= i <= n,
                                            out@.len() == i,
                                            *j == JsonValue::Object(*members),
                                            members@.len() == 1,
                                            members@[0].1 == *val,
                                            *val == JsonValue::Object(*inner),
                                            inner@.len() == 1,
                                            inner@[0].1 == JsonValue::Array(*items),
                                            forall|k: int|
                                                0 <= k < i ==> spec_decode_field(
                                                    json_model(items@[k]),
                                                ) == Some(field_model(out@[k])),
                                            (match spec_decode_seq(json_model_seq(items@)) {
                                                Some(d) => spec_decode_field(j@) == Some(
                                                    FieldModel::Array(d),
                                                ),
                                                None => spec_decode_field(j@) is None,
                                            }),
                                        decreases n - i,
                                    {
                                        proof {
                                            assert(decreases_to!(*j => j->Object_0));
                                            assert(j->Object_0 == *members);
                                            assert(decreases_to!(*members => members@));
                                            assert(decreases_to!(members@ => members@[0]));
                                            assert(decreases_to!(
                                                members@[0] => members@[0].1));
                                            assert(decreases_to!(*val => val->Object_0));
                                            assert(val->Object_0 == *inner);
                                            assert(decreases_to!(*inner => inner@));
                                            assert(decreases_to!(inner@ => inner@[0]));
                                            assert(decreases_to!(inner@[0] => inner@[0].1));
                                            assert(decreases_to!(
                                                inner@[0].1 => inner@[0].1->Array_0));
                                            assert(inner@[0].1->Array_0 == *items);
                                            assert(decreases_to!(*items => items@));
                                            assert(decreases_to!(
                                                items@ => items@[i as int]));
                                        }
                                        match decode_field(&items[i]) {
                                            Some(fv) => {
                                                out.push(fv);
                                                i = i + 1;
                                            },
                                            None => {
                                                proof {
                                                    lemma_model_seq(items@);
                                                    lemma_decode_seq_fail(
                                                        json_model_seq(items@),
                                                        i as int,
                                                    );
                                                }
                                                return None;
                                            },
                                        }
                                    }
                                    proof {
                                        lemma_model_seq(items@);
                                        lemma_field_model_seq(out@);
                                        lemma_decode_seq_pointwise(
                                            json_model_seq(items@),
                                            field_model_seq(out@),
                                        );
                                    }
                                    Some(FieldValue::Array(out))
                                },
                                _ => None,
                            }
                        } else {
                            None
                        }
                    },
                    _ => None,
                }
            } else if str_eq(key.as_str(), "mapValue") {
                match val {
                    JsonValue::Object(inner) => {
                        proof {
                            lemma_model_members(inner@);
                        }
                        if inner.len() == 1 && str_eq(inner[0].0.as_str(), "fields") {
                            match &inner[0].1 {
                                JsonValue::Object(fields) => {
                                    let n = fields.len();
                                    let mut out: Vec<(String, FieldValue)> = Vec::new();
                                    let mut i: usize = 0;
                                    proof {
                                        lemma_model_members(fields@);
                                    }
                                    while i < n
                                        invariant
                                            n == fields@.len(),
                                            0 <= i <= n,
                                            out@.len() == i,
                                            *j == JsonValue::Object(*members),
                                            members@.len() == 1,
                                            members@[0].1 == *val,
                                            *val == JsonValue::Object(*inner),
                                            inner@.len() == 1,
                                            inner@[0].1 == JsonValue::Object(*fields),
                                            forall|k: int|
                                                0 <= k < i ==> out@[k].0@ == fields@[k].0@
                                                    && spec_decode_field(
                                                    json_model(fields@[k].1),
                                                ) == Some(field_model(out@[k].1)),
                                            (match spec_decode_entries(
                                                json_model_members(fields@),
                                            ) {
                                                Some(d) => spec_decode_field(j@) == Some(
                                                    FieldModel::Mapping(d),
                                                ),
                                                None => spec_decode_field(j@) is None,
                                            }),
                                        decreases n - i,
                                    {
                                        proof {
                                            assert(decreases_to!(*j => j->Object_0));
                                            assert(j->Object_0 == *members);
                                            assert(decreases_to!(*members => members@));
                                            assert(decreases_to!(members@ => members@[0]));
                                            assert(decreases_to!(
                                                members@[0] => members@[0].1));
                                            assert(decreases_to!(*val => val->Object_0));
                                            assert(val->Object_0 == *inner);
                                            assert(decreases_to!(*inner => inner@));
                                            assert(decreases_to!(inner@ => inner@[0]));
                                            assert(decreases_to!(inner@[0] => inner@[0].1));
                                            assert(decreases_to!(
                                                inner@[0].1 => inner@[0].1->Object_0));
                                            assert(inner@[0].1->Object_0 == *fields);
                                            assert(decreases_to!(*fields => fields@));
                                            assert(decreases_to!(
                                                fields@ => fields@[i as int]));
                                            assert(decreases_to!(
                                                fields@[i as int] => fields@[i as int].1));
                                        }
                                        match decode_field(&fields[i].1) {
                                            Some(fv) => {
                                                out.push((fields[i].0.clone(), fv));
                                                i = i + 1;
                                            },
                                            None => {
                                                proof {
                                                    lemma_model_members(fields@);
                                                    lemma_decode_entries_fail(
                                                        json_model_members(fields@),
                                                        i as int,
                                                    );
                                                }
                                                return None;
                                            },
                                        }
                                    }
                                    proof {
                                        lemma_model_members(fields@);
                                        lemma_field_model_entries(out@);
                                        lemma_decode_entries_pointwise(
                                            json_model_members(fields@),
                                            field_model_entries(out@),
                                        );
                                    }
                                    Some(FieldValue::Mapping(out))
                                },
                                _ => None,
                            }
                        } else {
                            None
                        }
                    },
                    _ => None,
                }
            } else {
                None
            }
        },
        _ => None,
    }
}

/// Decodes a whole wire field set — the `fields` member of a document.
pub fn decode_fields(j: &JsonValue) -> (r: Option<Vec<(String, FieldValue)>>)
    ensures
        match r {
            Some(fs) => (j@ matches JsonModel::Object(mm) && spec_decode_entries(mm) == Some(
                field_model_entries(fs@),
            )),
            None => match j@ {
                JsonModel::Object(mm) => spec_decode_entries(mm) is None,
                _ => true,
            },
        },
{
    match j {
        JsonValue::Object(members) => {
            proof {
                lemma_model_members(members@);
            }
            let n = members.len();
            let mut out: Vec<(String, FieldValue)> = Vec::new();
            let mut i: usize = 0;
            while i < n
                invariant
                    n == members@.len(),
                    0 <= i <= n,
                    out@.len() == i,
                    *j == JsonValue::Object(*members),
                    forall|k: int|
                        0 <= k < i ==> out@[k].0@ == members@[k].0@ && spec_decode_field(
                            json_model(members@[k].1),
                        ) == Some(field_model(out@[k].1)),
                decreases n - i,
            {
                match decode_field(&members[i].1) {
                    Some(fv) => {
                        out.push((members[i].0.clone(), fv));
                        i = i + 1;
                    },
                    None => {
                        proof {
                            lemma_model_members(members@);
                            lemma_decode_entries_fail(json_model_members(members@), i as int);
                        }
                        return None;
                    },
                }
            }
            proof {
                lemma_model_members(members@);
                lemma_field_model_entries(out@);
                lemma_decode_entries_pointwise(
                    json_model_members(members@),
                    field_model_entries(out@),
                );
            }
            Some(out)
        },
        _ => None,
    }
}

} // verus!
