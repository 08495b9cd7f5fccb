//! Typed records: named, typed fields, and the schema that describes them.

use vstd::prelude::*;

verus! {

/// The kind of a record field: the scalar shapes a typed field may take.
#[derive(Clone, Copy, Debug, PartialEq, Eq, Structural)]
pub enum FieldKind {
    Str,
    Int,
    Bool,
}

/// The value held by one record field.
///
/// `Unsupported` stands for a value whose own encoder refuses to produce a
/// dynamic value; it carries the message that the encoder reports.
#[derive(Debug, PartialEq)]
pub enum FieldValue {
    Str(String),
    Int(i64),
    Bool(bool),
    Unsupported(String),
}

/// The mathematical model of a `FieldValue`.
pub enum SpecFieldValue {
    Str(Seq<char>),
    Int(int),
    Bool(bool),
    Unsupported(Seq<char>),
}

impl View for FieldValue {
    type V = SpecFieldValue;

    open spec fn view(&self) -> SpecFieldValue {
        match self {
            FieldValue::Str(s) => SpecFieldValue::Str(s@),
            FieldValue::Int(i) => SpecFieldValue::Int(*i as int),
            FieldValue::Bool(b) => SpecFieldValue::Bool(*b),
            FieldValue::Unsupported(m) => SpecFieldValue::Unsupported(m@),
        }
    }
}

/// One named field of a record.
#[derive(Debug, PartialEq)]
pub struct Field {
    pub name: String,
    pub value: FieldValue,
}

/// The mathematical model of a `Field`.
pub struct SpecField {
    pub name: Seq<char>,
    pub value: SpecFieldValue,
}

impl View for Field {
    type V = SpecField;

    open spec fn view(&self) -> SpecField {
        SpecField { name: self.name@, value: self.value@ }
    }
}

/// A typed record instance: its fields, in declaration order.
#[derive(Debug, PartialEq)]
pub struct Record {
    pub fields: Vec<Field>,
}

impl View for Record {
    type V = Seq<SpecField>;

    open spec fn view(&self) -> Seq<SpecField> {
        self.fields@.map_values(|f: Field| f@)
    }
}

/// One field requirement of a schema: the field's name and its kind.
#[derive(Debug, PartialEq)]
pub struct SchemaField {
    pub name: String,
    pub kind: FieldKind,
}

/// The mathematical model of a `SchemaField`.
pub struct SpecSchemaField {
    pub name: Seq<char>,
    pub kind: FieldKind,
}

impl View for SchemaField {
    type V = SpecSchemaField;

    open spec fn view(&self) -> SpecSchemaField {
        SpecSchemaField { name: self.name@, kind: self.kind }
    }
}

/// A record type's field requirements, in declaration order.
#[derive(Debug, PartialEq)]
pub struct Schema {
    pub fields: Vec<SchemaField>,
}

impl View for Schema {
    type V = Seq<SpecSchemaField>;

    open spec fn view(&self) -> Seq<SpecSchemaField> {
        self.fields@.map_values(|f: SchemaField| f@)
    }
}

/// The kind a field value decodes from and encodes to, if it has one:
/// an `Unsupported` value has none.
pub open spec fn spec_kind_of(v: SpecFieldValue) -> Option<FieldKind> {
    match v {
        SpecFieldValue::Str(_) => Some(FieldKind::Str),
        SpecFieldValue::Int(_) => Some(FieldKind::Int),
        SpecFieldValue::Bool(_) => Some(FieldKind::Bool),
        SpecFieldValue::Unsupported(_) => None,
    }
}

/// Every field of the record holds a value that its encoder can represent.
pub open spec fn all_encodable(fields: Seq<SpecField>) -> bool {
    forall|i: int| 0 <= i < fields.len() ==> !(#[trigger] fields[i].value is Unsupported)
}

/// No two fields of the record share a name.
pub open spec fn distinct_names(fields: Seq<SpecField>) -> bool {
    forall|i: int, j: int|
        0 <= i < j < fields.len() ==> #[trigger] fields[i].name != #[trigger] fields[j].name
}

/// The schema that a record's own fields satisfy, kind by kind.
///
/// Meaningful only where `all_encodable` holds: an `Unsupported` value has
/// no kind, and its entry falls back to an arbitrary one.
pub open spec fn spec_schema_of(fields: Seq<SpecField>) -> Seq<SpecSchemaField> {
    fields.map_values(
        |f: SpecField|
            SpecSchemaField {
                name: f.name,
                kind: match spec_kind_of(f.value) {
                    Some(k) => k,
                    None => FieldKind::Str,
                },
            },
    )
}

} // verus!
