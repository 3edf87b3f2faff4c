//! The words a record is written in: what an action came to, who may read of it, what it concerns.

use vstd::prelude::*;

verus! {

/// How an action came out.
#[derive(Debug, Clone, Copy, PartialEq, Eq, Structural)]
pub enum Outcome {
    /// The action did what it set out to do.
    Success,
    /// It failed.
    Failure,
    /// It partly succeeded.
    Partial,
    /// It was refused.
    Declined,
}

/// Who may read a record.
#[derive(Debug, Clone, Copy, PartialEq, Eq, Structural)]
pub enum Visibility {
    /// The actor only.
    Owner,
    /// A named team.
    Team,
    /// Everyone in the deployment.
    Org,
    /// The operator role only.
    Operator,
}

/// What a record's body is to the store.
#[derive(Debug, Clone, Copy, PartialEq, Eq, Structural)]
pub enum DataClass {
    /// The deployment's own prose, which names no subject.
    Internal,
    /// Prose that can be erased with a subject's key.
    Erasable,
}

/// What an entity reference says about the record that carries it.
#[derive(Debug, Clone, Copy, PartialEq, Eq, Structural)]
pub enum Role {
    /// The record is about it: a caller said so.
    Primary,
    /// The prose names it: nobody said so.
    Related,
}

/// The value of a declared attribute.
#[derive(Debug, PartialEq, Eq)]
pub enum Value {
    /// Text.
    Text(String),
    /// A whole number.
    Int(i64),
    /// Yes or no.
    Bool(bool),
}

/// An attribute's value as a contract speaks of it.
pub enum ValueModel {
    /// Text.
    Text(Seq<char>),
    /// A whole number.
    Int(int),
    /// Yes or no.
    Bool(bool),
}

impl View for Value {
    type V = ValueModel;

    open spec fn view(&self) -> ValueModel {
        match *self {
            Value::Text(text) => ValueModel::Text(text@),
            Value::Int(number) => ValueModel::Int(number as int),
            Value::Bool(truth) => ValueModel::Bool(truth),
        }
    }
}

/// One declared attribute of a record.
#[derive(Debug, PartialEq, Eq)]
pub struct Attribute {
    /// Its key.
    pub key: String,
    /// Its value.
    pub value: Value,
}

/// An attribute as a contract speaks of it.
pub struct AttributeModel {
    /// Its key.
    pub key: Seq<char>,
    /// Its value.
    pub value: ValueModel,
}

impl View for Attribute {
    type V = AttributeModel;

    open spec fn view(&self) -> AttributeModel {
        AttributeModel { key: self.key@, value: self.value@ }
    }
}

/// The attributes of a list.
pub open spec fn attribute_models(list: Seq<Attribute>) -> Seq<AttributeModel> {
    list.map_values(|attribute: Attribute| attribute@)
}

/// An entity a record joins on.
#[derive(Debug, PartialEq, Eq)]
pub struct EntityRef {
    /// The kind of entity.
    pub kind: String,
    /// Its identifier.
    pub id: String,
    /// What the reference says about the record.
    pub role: Role,
    /// How sure the reference is, in hundredths: a stated reference is at a hundred.
    pub confidence: u8,
}

/// An entity reference as a contract speaks of it.
pub struct EntityRefModel {
    /// The kind of entity.
    pub kind: Seq<char>,
    /// Its identifier.
    pub id: Seq<char>,
    /// What the reference says about the record.
    pub role: Role,
    /// How sure the reference is, in hundredths.
    pub confidence: u8,
}

impl View for EntityRef {
    type V = EntityRefModel;

    open spec fn view(&self) -> EntityRefModel {
        EntityRefModel {
            kind: self.kind@,
            id: self.id@,
            role: self.role,
            confidence: self.confidence,
        }
    }
}

/// The references of a list.
pub open spec fn reference_models(list: Seq<EntityRef>) -> Seq<EntityRefModel> {
    list.map_values(|reference: EntityRef| reference@)
}

/// One thing an agent did.
#[derive(Debug)]
pub struct ActionRecord {
    /// The identifier it is filed under, and its idempotency key.
    pub record_id: String,
    /// The schema it is written under.
    pub schema_ver: u32,
    /// When the action happened, as a timestamp.
    pub at: String,
    /// When this deployment learnt of it, as a timestamp.
    pub received_at: String,
    /// Whether both came from a source rather than from watching.
    pub backfilled: bool,
    /// The agent it is attributed to.
    pub agent: String,
    /// The agent's version.
    pub agent_ver: Option<String>,
    /// Ties every stage of one interaction together.
    pub correlation_id: Option<String>,
    /// What was done.
    pub action: String,
    /// How it went.
    pub outcome: Outcome,
    /// Declared attributes. No key occurs twice.
    pub attrs: Vec<Attribute>,
    /// Entities it joins on.
    pub entities: Vec<EntityRef>,
    /// Subjects whose keys it is sealed under.
    pub subjects: Vec<String>,
    /// Who may read it.
    pub visibility: Visibility,
    /// The team, when the visibility is a team's.
    pub team: Option<String>,
    /// What its body is to the store.
    pub data_class: DataClass,
    /// The redaction policy it was written under.
    pub redaction_policy: String,
    /// The fields a writer masked.
    pub fields_masked: Vec<String>,
    /// Free tags.
    pub tags: Vec<String>,
    /// Prose describing what happened.
    pub summary: String,
}

} // verus!
