//! Struct field parsing.

use vstd::prelude::*;

use crate::model::Schema;
use crate::parse::error::ParseKind;
use crate::parse::types::{
    field_result_view, field_view, resolve_field, spec_field, type_v_wf, Type,
};

verus! {

/// A parsed field.
#[derive(Debug, PartialEq, Eq)]
pub struct Field {
    /// Type of the field.
    pub ty: Type,
    /// Field documentation.
    pub docs: Option<String>,
    /// Whether the field was marked deprecated in its schema. A deprecated
    /// field's type is wrapped in an optional and its documentation carries
    /// an appended deprecation note.
    pub deprecated: bool,
}

impl Field {
    /// Create a new instance of field data from the type of the data.
    pub fn new(ty: Type) -> (r: Field)
        ensures
            r.ty == ty,
            r.docs is None,
            r.deprecated == false,
    {
        Field { ty, docs: None, deprecated: false }
    }

    /// Add documentation to a [`Field`].
    pub fn set_docs(&mut self, docs: String)
        ensures
            final(self).docs == Some(docs),
            final(self).ty == old(self).ty,
            final(self).deprecated == old(self).deprecated,
    {
        self.docs = Some(docs);
    }

    /// Resolve a schema into a field: its type through the resolver chain,
    /// its documentation from the schema description, and the deprecation
    /// transform when the schema is marked deprecated.
    pub fn from_schema(schema: &Schema) -> (r: Result<Field, ParseKind>)
        ensures
            field_result_view(r) == spec_field(*schema),
            r matches Ok(f) ==> type_v_wf(field_view(f).ty),
    {
        resolve_field(schema)
    }
}

} // verus!
