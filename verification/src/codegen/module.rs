//! Generate the API client module.

use vstd::prelude::*;

use crate::diag::{diag_view, diags_view, Diagnostic, DiagnosticV};
use crate::model::Document;
use crate::ordmap::map_kv_view;
use crate::parse::{scheme_view_fn, security_schemes, spec_security_schemes, ParseKind};
use crate::codegen::functions::{functions, spec_functions};
use crate::codegen::types::{spec_types, types};

verus! {

/// One diagnostic per skipped security scheme name.
pub open spec fn spec_scheme_diags(names: Seq<Seq<char>>) -> Seq<DiagnosticV> {
    Seq::new(names.len(), |i: int| DiagnosticV::UnsupportedSecurityScheme(names[i]))
}

/// The module's header docstring: the document title and description.
pub open spec fn spec_header(title: Seq<char>, description: Option<Seq<char>>) -> Seq<char> {
    "\"\"\""@ + title + " HTTP API client"@ + (match description {
        Some(d) => "\n\n"@ + d,
        None => Seq::empty(),
    }) + "\"\"\""@
}

/// What assembling the whole module yields: the header docstring, the given
/// import boilerplate, the types block, the given client-class boilerplate,
/// and the functions block, in that fixed order — or the first fatal
/// resolution error. Alongside either, the diagnostics collected on the way:
/// skipped security schemes first, then skipped schemas.
pub open spec fn spec_module(doc: Document, imports: Seq<char>, client: Seq<char>) -> (
    Result<Seq<char>, ParseKind>,
    Seq<DiagnosticV>,
) {
    let schemes = spec_security_schemes(doc.security_schemes@, Seq::empty(), Seq::empty());
    let types_out = spec_types(doc.schemas@);
    let diags = spec_scheme_diags(schemes.1) + types_out.1;
    match spec_functions(doc.paths@, schemes.0) {
        Err(e) => (Err(e), diags),
        Ok(ftext) => (
            Ok(
                spec_header(doc.title@, crate::parse::opt_str_view(doc.description)) + "\n\n"@
                    + imports + "\n\n"@ + types_out.0 + client + "\n\n"@ + ftext,
            ),
            diags,
        ),
    }
}

/// Generate the API client module. The import block and the client-class
/// skeleton are literal boilerplate supplied by the caller: the library
/// only fixes where they stand in the output.
pub fn module(doc: &Document, imports: &str, client: &str) -> (r: (
    Result<String, ParseKind>,
    Vec<Diagnostic>,
))
    ensures
        ({
            let expected = spec_module(*doc, imports@, client@);
            diags_view(r.1@) == expected.1 && (match r.0 {
                Ok(code) => expected.0 == Ok::<Seq<char>, ParseKind>(code@),
                Err(e) => expected.0 == Err::<Seq<char>, ParseKind>(e),
            })
        }),
{
    let (smap, skipped) = security_schemes(&doc.security_schemes);
    let ghost schemes = spec_security_schemes(doc.security_schemes@, Seq::empty(), Seq::empty());
    let mut diags: Vec<Diagnostic> = Vec::new();
    let nskipped = skipped.len();
    let mut i: usize = 0;
    proof {
        assert(crate::parse::strs_view(skipped@) == schemes.1);
        assert(diags_view(diags@) =~= spec_scheme_diags(schemes.1).take(0));
    }
    while i < nskipped
        invariant
            0 <= i <= nskipped,
            nskipped == skipped@.len(),
            crate::parse::strs_view(skipped@) == schemes.1,
            diags_view(diags@) == spec_scheme_diags(schemes.1).take(i as int),
        decreases nskipped - i,
    {
        let ghost before = diags@;
        diags.push(Diagnostic::UnsupportedSecurityScheme { name: skipped[i].clone() });
        proof {
            assert(diags_view(diags@) =~= diags_view(before).push(diag_view(diags@.last())));
            assert(schemes.1[i as int] == skipped@[i as int]@);
            assert(spec_scheme_diags(schemes.1).take(i as int + 1) =~= spec_scheme_diags(
                schemes.1,
            ).take(i as int).push(DiagnosticV::UnsupportedSecurityScheme(schemes.1[i as int])));
        }
        i = i + 1;
    }
    proof {
        assert(spec_scheme_diags(schemes.1).take(nskipped as int) =~= spec_scheme_diags(
            schemes.1,
        ));
    }
    let (types_code, mut type_diags) = types(&doc.schemas);
    let ghost type_diags_v = diags_view(type_diags@);
    let ghost diags_before_append = diags@;
    diags.append(&mut type_diags);
    proof {
        assert(diags_view(diags@) =~= diags_view(diags_before_append) + type_diags_v);
    }
    let ftext = match functions(&doc.paths, &smap) {
        Err(e) => {
            return (Err(e), diags);
        },
        Ok(f) => f,
    };
    let mut code = String::new();
    code.append("\"\"\"");
    code.append(doc.title.as_str());
    code.append(" HTTP API client");
    match &doc.description {
        Some(d) => {
            code.append("\n\n");
            code.append(d.as_str());
        },
        None => {},
    }
    code.append("\"\"\"");
    code.append("\n\n");
    code.append(imports);
    code.append("\n\n");
    code.append(types_code.as_str());
    code.append(client);
    code.append("\n\n");
    code.append(ftext.as_str());
    proof {
        assert(code@ =~= spec_header(doc.title@, crate::parse::opt_str_view(doc.description))
            + "\n\n"@ + imports@ + "\n\n"@ + spec_types(doc.schemas@).0 + client@ + "\n\n"@
            + ftext@);
    }
    (Ok(code), diags)
}

} // verus!
