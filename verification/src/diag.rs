//! Soft diagnostics: non-fatal findings collected alongside the generated
//! output, so that callers can see which items were skipped without the
//! library writing to any stream itself.

use vstd::prelude::*;

use crate::parse::ParseKind;

verus! {

/// One non-fatal finding: the offending item is omitted from the output and
/// generation continues.
#[derive(Debug, PartialEq, Eq)]
pub enum Diagnostic {
    /// A top-level schema failed to resolve and was left out of the types
    /// block.
    SchemaSkipped {
        /// The component schema's name.
        name: String,
        /// Why resolution failed.
        kind: ParseKind,
    },
    /// A security scheme of an unsupported kind was left out of the scheme
    /// map.
    UnsupportedSecurityScheme {
        /// The scheme's name.
        name: String,
    },
}

/// The mathematical model of a [`Diagnostic`].
pub enum DiagnosticV {
    /// A skipped schema, with its name and the error kind.
    SchemaSkipped(Seq<char>, ParseKind),
    /// A skipped security scheme, with its name.
    UnsupportedSecurityScheme(Seq<char>),
}

/// The model of a [`Diagnostic`] value.
pub open spec fn diag_view(d: Diagnostic) -> DiagnosticV {
    match d {
        Diagnostic::SchemaSkipped { name, kind } => DiagnosticV::SchemaSkipped(name@, kind),
        Diagnostic::UnsupportedSecurityScheme { name } => DiagnosticV::UnsupportedSecurityScheme(
            name@,
        ),
    }
}

impl View for Diagnostic {
    type V = DiagnosticV;

    open spec fn view(&self) -> DiagnosticV {
        diag_view(*self)
    }
}

/// The model of a diagnostic list.
pub open spec fn diags_view(d: Seq<Diagnostic>) -> Seq<DiagnosticV> {
    Seq::new(d.len(), |i: int| diag_view(d[i]))
}

} // verus!
