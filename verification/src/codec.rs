//! The two conversions every typed record may offer: decoding a record from
//! a dynamic value, and encoding a record as a dynamic value.

use vstd::prelude::*;

use crate::record::{
    all_encodable, distinct_names, spec_kind_of, spec_schema_of, Field, FieldKind, FieldValue,
    Record, Schema, SpecField, SpecFieldValue, SpecSchemaField,
};
use crate::value::{find_member, spec_find, DynValue};
use vstd::string::StringExecFns;

verus! {

/// Why a dynamic value could not be mapped onto a record's required shape.
#[derive(Debug, PartialEq)]
pub enum DecodeError {
    /// The dynamic value is not an object.
    NotAnObject,
    /// The object lacks the named required field.
    MissingField(String),
    /// The named field is present but holds a value of the wrong kind.
    WrongKind(String),
}

/// The mathematical model of a `DecodeError`.
pub enum SpecDecodeError {
    NotAnObject,
    MissingField(Seq<char>),
    WrongKind(Seq<char>),
}

impl View for DecodeError {
    type V = SpecDecodeError;

    open spec fn view(&self) -> SpecDecodeError {
        match self {
            DecodeError::NotAnObject => SpecDecodeError::NotAnObject,
            DecodeError::MissingField(n) => SpecDecodeError::MissingField(n@),
            DecodeError::WrongKind(n) => SpecDecodeError::WrongKind(n@),
        }
    }
}

impl DecodeError {
    /// The human-readable rendering of the cause.
    pub open spec fn spec_message(&self) -> Seq<char> {
        match self {
            DecodeError::NotAnObject => "expected an object"@,
            DecodeError::MissingField(n) => "missing field `"@ + n@ + "`"@,
            DecodeError::WrongKind(n) => "value of wrong kind for field `"@ + n@ + "`"@,
        }
    }

    /// Renders the cause of the failure, naming the field concerned.
    pub fn message(&self) -> (r: String)
        ensures
            r@ == self.spec_message(),
    {
        match self {
            DecodeError::NotAnObject => String::from_str("expected an object"),
            DecodeError::MissingField(n) => String::from_str("missing field `").concat(
                n.as_str(),
            ).concat("`"),
            DecodeError::WrongKind(n) => String::from_str("value of wrong kind for field `")
                .concat(n.as_str()).concat("`"),
        }
    }
}

/// The failure reported when a record cannot be represented as a dynamic
/// value. The message that the failing field's own encoder reports is
/// preserved in it verbatim.
#[derive(Debug, PartialEq)]
pub struct EncodeError {
    pub message: String,
}

impl View for EncodeError {
    type V = Seq<char>;

    open spec fn view(&self) -> Seq<char> {
        self.message@
    }
}

/// The typed value that a scalar dynamic value carries, if it is a scalar.
pub open spec fn spec_scalar(v: DynValue) -> Option<SpecFieldValue> {
    match v {
        DynValue::Str(s) => Some(SpecFieldValue::Str(s@)),
        DynValue::Int(i) => Some(SpecFieldValue::Int(i as int)),
        DynValue::Bool(b) => Some(SpecFieldValue::Bool(b)),
        _ => None,
    }
}

/// The typed value that a dynamic value yields for a field of kind `k`:
/// nothing where the kinds do not agree.
pub open spec fn spec_coerce(v: DynValue, k: FieldKind) -> Option<SpecFieldValue> {
    match v {
        DynValue::Str(s) => if k is Str {
            Some(SpecFieldValue::Str(s@))
        } else {
            None
        },
        DynValue::Int(i) => if k is Int {
            Some(SpecFieldValue::Int(i as int))
        } else {
            None
        },
        DynValue::Bool(b) => if k is Bool {
            Some(SpecFieldValue::Bool(b))
        } else {
            None
        },
        _ => None,
    }
}

/// What decoding an object's members against a schema yields: the record
/// fields in schema order, or the first requirement violated, in schema
/// order.
pub open spec fn spec_decode_members(
    schema: Seq<SpecSchemaField>,
    members: Seq<(String, DynValue)>,
) -> Result<Seq<SpecField>, SpecDecodeError>
    decreases schema.len(),
{
    if schema.len() == 0 {
        Ok(Seq::empty())
    } else {
        let sf = schema[0];
        match spec_find(members, sf.name) {
            None => Err(SpecDecodeError::MissingField(sf.name)),
            Some(v) => match spec_coerce(v, sf.kind) {
                None => Err(SpecDecodeError::WrongKind(sf.name)),
                Some(fv) => match spec_decode_members(schema.skip(1), members) {
                    Ok(rest) => Ok(seq![SpecField { name: sf.name, value: fv }] + rest),
                    Err(e) => Err(e),
                },
            },
        }
    }
}

/// What decoding a dynamic value against a schema yields.
pub open spec fn spec_decode(schema: Seq<SpecSchemaField>, v: DynValue) -> Result<
    Seq<SpecField>,
    SpecDecodeError,
> {
    match v {
        DynValue::Obj(members) => spec_decode_members(schema, members@),
        _ => Err(SpecDecodeError::NotAnObject),
    }
}

/// A decode result already accumulated as `prefix`, continued by `rest`.
spec fn with_prefix(prefix: Seq<SpecField>, rest: Result<Seq<SpecField>, SpecDecodeError>) -> Result<
    Seq<SpecField>,
    SpecDecodeError,
> {
    match rest {
        Ok(fields) => Ok(prefix + fields),
        Err(e) => Err(e),
    }
}

/// Reads one dynamic value as a field value of kind `k`.
fn coerce(v: &DynValue, k: FieldKind) -> (r: Option<FieldValue>)
    ensures
        match r {
            Some(fv) => spec_coerce(*v, k) == Some(fv@),
            None => spec_coerce(*v, k) is None,
        },
{
    match v {
        DynValue::Str(s) => if k == FieldKind::Str {
            Some(FieldValue::Str(s.clone()))
        } else {
            None
        },
        DynValue::Int(i) => if k == FieldKind::Int {
            Some(FieldValue::Int(*i))
        } else {
            None
        },
        DynValue::Bool(b) => if k == FieldKind::Bool {
            Some(FieldValue::Bool(*b))
        } else {
            None
        },
        _ => None,
    }
}

/// Decodes `value` against `schema`: reconstructs the record whose fields
/// the schema names, in schema order, from the object's members.
///
/// Succeeds if and only if `value` is an object binding every schema field's
/// name to a value of that field's kind; otherwise the error reports the
/// first requirement violated, never a silent default.
pub fn decode(schema: &Schema, value: &DynValue) -> (r: Result<Record, DecodeError>)
    ensures
        match r {
            Ok(rec) => spec_decode(schema@, *value) == Ok::<Seq<SpecField>, SpecDecodeError>(
                rec@,
            ),
            Err(e) => spec_decode(schema@, *value) == Err::<Seq<SpecField>, SpecDecodeError>(e@),
        },
{
    match value {
        DynValue::Obj(members) => {
            let mut out: Vec<Field> = Vec::new();
            proof {
                assert(schema@.skip(0) =~= schema@);
                assert(out@.map_values(|f: Field| f@) =~= Seq::<SpecField>::empty());
                match spec_decode_members(schema@, members@) {
                    Ok(rest) => {
                        assert(Seq::<SpecField>::empty() + rest =~= rest);
                    },
                    Err(_) => {},
                }
            }
            let n = schema.fields.len();
            for i in 0..n
                invariant
                    n == schema.fields@.len(),
                    out@.len() == i,
                    *value == DynValue::Obj(*members),
                    spec_decode_members(schema@, members@) == with_prefix(
                        out@.map_values(|f: Field| f@),
                        spec_decode_members(schema@.skip(i as int), members@),
                    ),
            {
                let sf = &schema.fields[i];
                let ghost out_v = out@.map_values(|f: Field| f@);
                let ghost s_suf = schema@.skip(i as int);
                proof {
                    assert(s_suf[0] == schema@[i as int]);
                    assert(s_suf.skip(1) =~= schema@.skip(i as int + 1));
                }
                match find_member(members, &sf.name) {
                    None => {
                        proof {
                            assert(s_suf[0].name == sf.name@);
                            assert(spec_decode_members(s_suf, members@) == Err::<
                                Seq<SpecField>,
                                SpecDecodeError,
                            >(SpecDecodeError::MissingField(sf.name@)));
                        }
                        return Err(DecodeError::MissingField(sf.name.clone()));
                    },
                    Some(v) => {
                        match coerce(v, sf.kind) {
                            None => {
                                proof {
                                    assert(s_suf[0].name == sf.name@);
                                    assert(s_suf[0].kind == sf.kind);
                                    assert(spec_decode_members(s_suf, members@) == Err::<
                                        Seq<SpecField>,
                                        SpecDecodeError,
                                    >(SpecDecodeError::WrongKind(sf.name@)));
                                }
                                return Err(DecodeError::WrongKind(sf.name.clone()));
                            },
                            Some(fv) => {
                                let ghost fvv = fv@;
                                out.push(Field { name: sf.name.clone(), value: fv });
                                proof {
                                    let sf_spec = SpecField {
                                        name: schema@[i as int].name,
                                        value: fvv,
                                    };
                                    assert(out@.map_values(|f: Field| f@) =~= out_v + seq![
                                        sf_spec,
                                    ]);
                                    match spec_decode_members(
                                        schema@.skip(i as int + 1),
                                        members@,
                                    ) {
                                        Ok(rest) => {
                                            assert(out_v + (seq![sf_spec] + rest) =~= (out_v
                                                + seq![sf_spec]) + rest);
                                        },
                                        Err(_) => {},
                                    }
                                }
                            },
                        }
                    },
                }
            }
            proof {
                assert(schema@.skip(n as int).len() == 0);
                let out_v = out@.map_values(|f: Field| f@);
                assert(out_v + Seq::<SpecField>::empty() =~= out_v);
            }
            Ok(Record { fields: out })
        },
        _ => Err(DecodeError::NotAnObject),
    }
}

/// What encoding a record's fields yields: one object member per field, in
/// declaration order, or the message of the first field whose value its
/// encoder cannot represent.
pub open spec fn spec_encode(fields: Seq<SpecField>) -> Result<
    Seq<(Seq<char>, SpecFieldValue)>,
    Seq<char>,
>
    decreases fields.len(),
{
    if fields.len() == 0 {
        Ok(Seq::empty())
    } else {
        match fields[0].value {
            SpecFieldValue::Unsupported(m) => Err(m),
            fv => match spec_encode(fields.skip(1)) {
                Ok(rest) => Ok(seq![(fields[0].name, fv)] + rest),
                Err(m) => Err(m),
            },
        }
    }
}

/// The object's members mirror the encoded pairs: same length, same names in
/// the same order, and each member holds exactly the scalar the pair names.
pub open spec fn members_match(
    ms: Seq<(String, DynValue)>,
    pairs: Seq<(Seq<char>, SpecFieldValue)>,
) -> bool {
    &&& ms.len() == pairs.len()
    &&& forall|i: int|
        0 <= i < ms.len() ==> ((#[trigger] ms[i]).0@ == pairs[i].0 && spec_scalar(ms[i].1)
            == Some(pairs[i].1))
}

/// Encoding an all-encodable record succeeds and keeps every field: name and
/// value, in declaration order.
pub proof fn lemma_encode_all_ok(fields: Seq<SpecField>)
    requires
        all_encodable(fields),
    ensures
        spec_encode(fields) matches Ok(pairs) && pairs.len() == fields.len() && (forall|k: int|
            0 <= k < fields.len() ==> #[trigger] pairs[k] == (fields[k].name, fields[k].value)),
    decreases fields.len(),
{
    if fields.len() > 0 {
        assert(!(fields[0].value is Unsupported));
        assert forall|i: int|
            0 <= i < fields.skip(1).len() implies !((#[trigger] fields.skip(1)[i]).value
            is Unsupported) by {
            assert(fields.skip(1)[i] == fields[i + 1]);
        }
        lemma_encode_all_ok(fields.skip(1));
        let rest = spec_encode(fields.skip(1))->Ok_0;
        let pairs = seq![(fields[0].name, fields[0].value)] + rest;
        assert(spec_encode(fields) == Ok::<_, Seq<char>>(pairs));
        assert forall|k: int| 0 <= k < fields.len() implies #[trigger] pairs[k] == (
        fields[k].name,
        fields[k].value,
        ) by {
            if k > 0 {
                assert(fields.skip(1)[k - 1] == fields[k]);
            }
        }
    }
}

/// Encoding a record whose first unencodable field, in declaration order,
/// reports message `m` fails with exactly `m`.
pub proof fn lemma_encode_first_failure(fields: Seq<SpecField>, i: int, m: Seq<char>)
    requires
        0 <= i < fields.len(),
        forall|j: int| 0 <= j < i ==> !((#[trigger] fields[j]).value is Unsupported),
        fields[i].value == SpecFieldValue::Unsupported(m),
    ensures
        spec_encode(fields) == Err::<Seq<(Seq<char>, SpecFieldValue)>, Seq<char>>(m),
    decreases i,
{
    if i == 0 {
    } else {
        assert(!(fields[0].value is Unsupported));
        assert forall|j: int| 0 <= j < i - 1 implies !((#[trigger] fields.skip(1)[j]).value
            is Unsupported) by {
            assert(fields.skip(1)[j] == fields[j + 1]);
        }
        assert(fields.skip(1)[i - 1] == fields[i]);
        lemma_encode_first_failure(fields.skip(1), i - 1, m);
    }
}

/// Encodes `record` as a dynamic object value holding every field, name by
/// name, in declaration order.
///
/// Succeeds if and only if every field's value can be represented in the
/// dynamic value model; otherwise the error carries, verbatim, the message
/// reported for the first field that cannot be.
pub fn encode(record: Record) -> (r: Result<DynValue, EncodeError>)
    ensures
        (r is Ok) == all_encodable(record@),
        match r {
            Ok(v) => spec_encode(record@) matches Ok(pairs) && (v matches DynValue::Obj(ms)
                && members_match(ms@, pairs)),
            Err(e) => spec_encode(record@) == Err::<Seq<(Seq<char>, SpecFieldValue)>, Seq<char>>(
                e@,
            ),
        },
{
    let mut ms: Vec<(String, DynValue)> = Vec::new();
    let n = record.fields.len();
    for i in 0..n
        invariant
            n == record.fields@.len(),
            ms@.len() == i,
            forall|j: int| 0 <= j < i ==> !((#[trigger] record@[j]).value is Unsupported),
            forall|j: int|
                0 <= j < i ==> ((#[trigger] ms@[j]).0@ == record@[j].name && spec_scalar(
                    ms@[j].1,
                ) == Some(record@[j].value)),
    {
        let f = &record.fields[i];
        let dv = match &f.value {
            FieldValue::Str(s) => DynValue::Str(s.clone()),
            FieldValue::Int(x) => DynValue::Int(*x),
            FieldValue::Bool(b) => DynValue::Bool(*b),
            FieldValue::Unsupported(m) => {
                proof {
                    lemma_encode_first_failure(record@, i as int, m@);
                }
                return Err(EncodeError { message: m.clone() });
            },
        };
        ms.push((f.name.clone(), dv));
    }
    proof {
        lemma_encode_all_ok(record@);
    }
    Ok(DynValue::Obj(ms))
}

/// The first match for a name among an object's members is the one at `j`,
/// where no earlier member carries that name.
proof fn lemma_find_at(ms: Seq<(String, DynValue)>, name: Seq<char>, j: int)
    requires
        0 <= j < ms.len(),
        ms[j].0@ == name,
        forall|l: int| 0 <= l < j ==> (#[trigger] ms[l]).0@ != name,
    ensures
        spec_find(ms, name) == Some(ms[j].1),
    decreases j,
{
    if j == 0 {
    } else {
        assert(ms[0].0@ != name);
        assert forall|l: int| 0 <= l < j - 1 implies (#[trigger] ms.skip(1)[l]).0@ != name by {
            assert(ms.skip(1)[l] == ms[l + 1]);
        }
        assert(ms.skip(1)[j - 1] == ms[j]);
        lemma_find_at(ms.skip(1), name, j - 1);
    }
}

/// A scalar dynamic value coerces, at the kind of the value it carries, back
/// to exactly that value.
proof fn lemma_coerce_scalar(v: DynValue, fv: SpecFieldValue)
    requires
        spec_scalar(v) == Some(fv),
    ensures
        spec_kind_of(fv) matches Some(k) && spec_coerce(v, k) == Some(fv),
{
}

/// Decoding, from schema position `k` on, an object whose members mirror the
/// record's fields yields the record's fields from `k` on.
proof fn lemma_round_trip_from(fields: Seq<SpecField>, ms: Seq<(String, DynValue)>, k: int)
    requires
        distinct_names(fields),
        all_encodable(fields),
        ms.len() == fields.len(),
        forall|i: int|
            0 <= i < fields.len() ==> ((#[trigger] ms[i]).0@ == fields[i].name && spec_scalar(
                ms[i].1,
            ) == Some(fields[i].value)),
        0 <= k <= fields.len(),
    ensures
        spec_decode_members(spec_schema_of(fields).skip(k), ms) == Ok::<
            Seq<SpecField>,
            SpecDecodeError,
        >(fields.skip(k)),
    decreases fields.len() - k,
{
    let schema = spec_schema_of(fields);
    if k == fields.len() {
        assert(schema.skip(k).len() == 0);
        assert(fields.skip(k) =~= Seq::<SpecField>::empty());
    } else {
        let s_suf = schema.skip(k);
        assert(s_suf[0] == schema[k]);
        assert(s_suf.skip(1) =~= schema.skip(k + 1));
        lemma_coerce_scalar(ms[k].1, fields[k].value);
        assert forall|l: int| 0 <= l < k implies (#[trigger] ms[l]).0@ != fields[k].name by {
            assert(fields[l].name != fields[k].name);
        }
        lemma_find_at(ms, fields[k].name, k);
        lemma_round_trip_from(fields, ms, k + 1);
        assert(fields[k] == SpecField { name: fields[k].name, value: fields[k].value });
        assert(seq![fields[k]] + fields.skip(k + 1) =~= fields.skip(k));
    }
}

/// Law: a record whose fields carry distinct names and refuse nothing comes
/// back unchanged — decoding its encoding against the record's own schema
/// yields exactly the record's fields.
pub proof fn lemma_round_trip(
    fields: Seq<SpecField>,
    ms: Seq<(String, DynValue)>,
    pairs: Seq<(Seq<char>, SpecFieldValue)>,
)
    requires
        distinct_names(fields),
        all_encodable(fields),
        spec_encode(fields) == Ok::<Seq<(Seq<char>, SpecFieldValue)>, Seq<char>>(pairs),
        members_match(ms, pairs),
    ensures
        spec_decode_members(spec_schema_of(fields), ms) == Ok::<Seq<SpecField>, SpecDecodeError>(
            fields,
        ),
{
    lemma_encode_all_ok(fields);
    assert forall|i: int| 0 <= i < fields.len() implies ((#[trigger] ms[i]).0@ == fields[i].name
        && spec_scalar(ms[i].1) == Some(fields[i].value)) by {
        assert(pairs[i] == (fields[i].name, fields[i].value));
    }
    lemma_round_trip_from(fields, ms, 0);
    assert(spec_schema_of(fields).skip(0) =~= spec_schema_of(fields));
    assert(fields.skip(0) =~= fields);
}

/// Law: decoding is deterministic — two decodes of one dynamic value against
/// one schema yield equal records.
pub proof fn lemma_decode_deterministic(schema: Schema, v: DynValue, r1: Record, r2: Record)
    requires
        spec_decode(schema@, v) == Ok::<Seq<SpecField>, SpecDecodeError>(r1@),
        spec_decode(schema@, v) == Ok::<Seq<SpecField>, SpecDecodeError>(r2@),
    ensures
        r1@ == r2@,
{
}

} // verus!
