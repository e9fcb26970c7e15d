//! Struct parsing.

use vstd::prelude::*;

use crate::ordmap::OrdMap;
use crate::parse::field::Field;

verus! {

/// A parsed struct.
#[derive(Debug, PartialEq, Eq)]
pub struct Struct {
    /// Documentation associated with this structure.
    pub docs: Option<String>,
    /// The fields of this structure, keyed by field name and kept in
    /// lexicographic key order, so that rendering is deterministic whatever
    /// the source property order was.
    pub fields: OrdMap<Field>,
}

impl Struct {
    /// Build a struct from its field map, with no documentation.
    pub fn from_fields(fields: OrdMap<Field>) -> (r: Struct)
        ensures
            r.docs is None,
            r.fields == fields,
    {
        Struct { docs: None, fields }
    }

    /// Add documentation to a [`Struct`].
    pub fn set_docs(&mut self, docs: String)
        ensures
            final(self).docs == Some(docs),
            final(self).fields == old(self).fields,
    {
        self.docs = Some(docs);
    }
}

} // verus!
