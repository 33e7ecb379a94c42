use vstd::prelude::*;

use crate::value::Value;

verus! {

/// The primitive kinds a schema node may name.
#[derive(Clone, Copy, Debug, PartialEq, Eq, Structural)]
pub enum InstanceType {
    Null,
    Boolean,
    Object,
    Array,
    Number,
    String,
    Integer,
}

/// One kind, or a set of kinds (in practice a kind together with `Null`,
/// which marks an optional value).
#[derive(Debug, PartialEq)]
pub enum TypeSpec {
    Single(InstanceType),
    Union(Vec<InstanceType>),
}

/// Optional human-readable metadata of a node.
#[derive(Debug, PartialEq)]
pub struct Metadata {
    pub title: Option<String>,
    pub description: Option<String>,
}

/// The element schemas of an array: one for every element, or one per position.
#[derive(Debug, PartialEq)]
pub enum ArrayItems {
    Uniform(Box<Schema>),
    Positional(Vec<Schema>),
}

/// Cardinality bounds and element schemas of an array node.
#[derive(Debug, PartialEq)]
pub struct ArrayValidation {
    pub items: Option<ArrayItems>,
    pub min_items: Option<u32>,
    pub max_items: Option<u32>,
}

/// The composition forms of a node.
#[derive(Debug, PartialEq)]
pub struct SubschemaValidation {
    pub one_of: Option<Vec<Schema>>,
    pub all_of: Option<Vec<Schema>>,
    pub any_of: Option<Vec<Schema>>,
}

/// One schema node.
///
/// `object` holds the declared properties in declaration order;
/// `reference` is a path of the form `#/definitions/<name>`.
#[derive(Debug, PartialEq)]
pub struct SchemaObject {
    pub metadata: Option<Metadata>,
    pub instance_type: Option<TypeSpec>,
    pub reference: Option<String>,
    pub array: Option<ArrayValidation>,
    pub object: Option<Vec<(String, Schema)>>,
    pub subschemas: Option<SubschemaValidation>,
    pub enum_values: Option<Vec<Value>>,
}

/// A schema: either a boolean schema (which cannot be prompted for) or a node.
#[derive(Debug, PartialEq)]
pub enum Schema {
    Bool(bool),
    Object(SchemaObject),
}

/// A root node together with its table of named definitions.
#[derive(Debug, PartialEq)]
pub struct RootSchema {
    pub definitions: Vec<(String, Schema)>,
    pub schema: SchemaObject,
}

} // verus!
