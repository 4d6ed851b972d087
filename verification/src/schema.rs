//! Attribute schema metadata: declared alongside the log so a future
//! validation layer can check values against attribute types before an
//! append, but not consulted by the append/load path itself.

use vstd::prelude::*;

verus! {

/// How many values an attribute may carry per entity.
#[derive(Debug, PartialEq, Eq, Structural, Clone, Copy)]
pub enum Cardinality {
    One,
    Many,
}

/// The value type an attribute declares for its datoms.
#[derive(Debug, PartialEq, Eq, Structural, Clone, Copy)]
pub enum ValueType {
    I64,
    F64,
    VString,
}

/// Declared metadata of one attribute.
#[derive(Debug, PartialEq, Clone)]
pub struct AttributeValue {
    pub name: String,
    pub cardinality: Cardinality,
    pub component: bool,
    pub unique: bool,
    pub ident: String,
    pub value_type: ValueType,
}

impl AttributeValue {
    /// Declares an attribute under `name` with the given value type; the
    /// remaining metadata starts at its defaults: cardinality one, not a
    /// component, not unique, and the name doubling as the ident.
    pub fn new(name: String, ident: String, value_type: ValueType) -> (r: AttributeValue)
        ensures
            r.name@ == name@,
            r.cardinality == Cardinality::One,
            r.component == false,
            r.unique == false,
            r.ident@ == ident@,
            r.value_type == value_type,
    {
        AttributeValue {
            name,
            cardinality: Cardinality::One,
            component: false,
            unique: false,
            ident,
            value_type,
        }
    }
}

} // verus!
