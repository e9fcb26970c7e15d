//! Generate types defined by the document's component schemas.

use vstd::prelude::*;

use crate::diag::{diag_view, diags_view, Diagnostic, DiagnosticV};
use crate::model::Schema;
use crate::parse::{
    fields_view, spec_resolve, type_view, FieldV, StructV, Type, TypeV,
};
use crate::strings::{last_segment, spec_last_segment};

verus! {

/// The rendering of a resolved type.
///
/// The `deferred` argument indicates whether references should be quoted.
/// Quoting can be necessary when a type depends on another type that has not
/// yet been defined.
pub open spec fn spec_type_to_string(t: TypeV, deferred: bool) -> Seq<char>
    decreases t,
{
    match t {
        TypeV::String => "str"@,
        TypeV::Integer => "int"@,
        TypeV::Float => "float"@,
        TypeV::Null => "None"@,
        TypeV::Bool => "bool"@,
        TypeV::Any => "Any"@,
        TypeV::Option(t2) => "Optional["@ + spec_type_to_string(*t2, deferred) + "]"@,
        TypeV::List(t2) => "List["@ + spec_type_to_string(*t2, deferred) + "]"@,
        TypeV::SetOf(t2) => "Set["@ + spec_type_to_string(*t2, deferred) + "]"@,
        TypeV::Struct(_) => "Dict[str, Any]"@,
        TypeV::Ref(x) => if deferred {
            "\""@ + spec_last_segment(x) + "\""@
        } else {
            spec_last_segment(x)
        },
    }
}

/// Generate a field's type; see [`spec_type_to_string`].
pub fn type_to_string(ty: &Type, deferred: bool) -> (r: String)
    ensures
        r@ == spec_type_to_string(type_view(*ty), deferred),
    decreases ty,
{
    match ty {
        Type::String => String::from_str("str"),
        Type::Integer => String::from_str("int"),
        Type::Float => String::from_str("float"),
        Type::Null => String::from_str("None"),
        Type::Bool => String::from_str("bool"),
        Type::Any => String::from_str("Any"),
        Type::Option(t2) => {
            let mut s = String::from_str("Optional[");
            let inner = type_to_string(t2, deferred);
            s.append(inner.as_str());
            s.append("]");
            s
        },
        Type::List(t2) => {
            let mut s = String::from_str("List[");
            let inner = type_to_string(t2, deferred);
            s.append(inner.as_str());
            s.append("]");
            s
        },
        Type::SetOf(t2) => {
            let mut s = String::from_str("Set[");
            let inner = type_to_string(t2, deferred);
            s.append(inner.as_str());
            s.append("]");
            s
        },
        Type::Struct(_) => String::from_str("Dict[str, Any]"),
        Type::Ref(x) => {
            let name = last_segment(x.as_str());
            if deferred {
                let mut s = String::from_str("\"");
                s.append(name.as_str());
                s.append("\"");
                s
            } else {
                name
            }
        },
    }
}

/// The rendering of one field line, plus its docstring line when the field
/// is documented. An optional field gets an absent default; a required field
/// gets none; a deprecated field carries a deprecation marker.
pub open spec fn spec_field_line(name: Seq<char>, f: FieldV) -> Seq<char> {
    "    "@ + name + ": "@ + spec_type_to_string(f.ty, true) + (if f.ty is Option {
        " = Field(default=None, "@
    } else {
        " = Field(default=..., "@
    }) + (if f.deprecated {
        "deprecated=True, "@
    } else {
        Seq::empty()
    }) + (match f.docs {
        Some(d) => "description=\"\"\""@ + d + "\"\"\", "@,
        None => Seq::empty(),
    }) + ")\n"@ + (match f.docs {
        Some(d) => "    "@ + "\"\"\""@ + d + "\"\"\""@ + "\n"@,
        None => Seq::empty(),
    })
}

/// The rendering of a struct's field lines, in map order.
pub open spec fn spec_fields_block(fields: Seq<(Seq<char>, FieldV)>) -> Seq<char>
    decreases fields,
{
    if fields.len() == 0 {
        Seq::empty()
    } else {
        spec_field_line(fields[0].0, fields[0].1) + spec_fields_block(fields.drop_first())
    }
}

/// The rendering of a struct's class body: its docstring when documented,
/// then its fields in lexicographic key order.
pub open spec fn spec_struct_body(s: StructV) -> Seq<char> {
    (match s.docs {
        Some(d) => "    "@ + "\"\"\""@ + d + "\"\"\""@ + "\n\n"@,
        None => Seq::empty(),
    }) + spec_fields_block(s.fields)
}

/// The rendering of one class block for a resolved top-level schema.
pub open spec fn spec_class_block(name: Seq<char>, t: TypeV) -> Seq<char> {
    "class "@ + name + "(_BaseModel):\n"@ + (match t {
        TypeV::Struct(s) => spec_struct_body(s),
        _ => "pass\n"@,
    }) + "\n\n"@
}

/// The text and diagnostics of the class blocks for the given schemas, in
/// order: a schema that fails to resolve is skipped with a diagnostic.
pub open spec fn spec_types_blocks(
    schemas: Seq<(String, Schema)>,
    text: Seq<char>,
    diags: Seq<DiagnosticV>,
) -> (Seq<char>, Seq<DiagnosticV>)
    decreases schemas, 70int,
{
    if schemas.len() == 0 {
        (text, diags)
    } else {
        match spec_resolve(schemas[0].1) {
            Err(e) => spec_types_blocks(
                schemas.drop_first(),
                text,
                diags.push(DiagnosticV::SchemaSkipped(schemas[0].0@, e)),
            ),
            Ok(t) => spec_types_blocks(
                schemas.drop_first(),
                text + spec_class_block(schemas[0].0@, t),
                diags,
            ),
        }
    }
}

/// The finalize pass reconciling deferred references: one line per schema
/// name, in order.
pub open spec fn spec_forward_refs(schemas: Seq<(String, Schema)>, text: Seq<char>) -> Seq<char>
    decreases schemas,
{
    if schemas.len() == 0 {
        text
    } else {
        spec_forward_refs(
            schemas.drop_first(),
            text + schemas[0].0@ + ".update_forward_refs()\n"@,
        )
    }
}

/// The whole types block: class blocks, the finalize pass, and a trailing
/// blank gap.
pub open spec fn spec_types(schemas: Seq<(String, Schema)>) -> (Seq<char>, Seq<DiagnosticV>) {
    let (text, diags) = spec_types_blocks(schemas, Seq::empty(), Seq::empty());
    (spec_forward_refs(schemas, text) + "\n\n"@, diags)
}

/// Render one field line (and its docstring line) into `code`.
#[verifier::rlimit(100)]
fn push_field_line(code: &mut String, name: &String, fld: &crate::parse::Field)
    ensures
        final(code)@ == old(code)@ + spec_field_line(name@, crate::parse::field_view(*fld)),
{
    code.append("    ");
    code.append(name.as_str());
    code.append(": ");
    let ty_str = type_to_string(&fld.ty, true);
    code.append(ty_str.as_str());
    let is_opt = match &fld.ty {
        Type::Option(_) => true,
        _ => false,
    };
    if is_opt {
        code.append(" = Field(default=None, ");
    } else {
        code.append(" = Field(default=..., ");
    }
    if fld.deprecated {
        code.append("deprecated=True, ");
    }
    match &fld.docs {
        Some(d) => {
            code.append("description=\"\"\"");
            code.append(d.as_str());
            code.append("\"\"\", ");
        },
        None => {},
    }
    code.append(")\n");
    match &fld.docs {
        Some(d) => {
            code.append("    ");
            code.append("\"\"\"");
            code.append(d.as_str());
            code.append("\"\"\"");
            code.append("\n");
        },
        None => {},
    }
    proof {
        assert(code@ =~= old(code)@ + spec_field_line(name@, crate::parse::field_view(*fld)));
    }
}

/// Render one class body into `code`.
#[verifier::rlimit(100)]
fn push_class_body(code: &mut String, t: &Type)
    ensures
        final(code)@ == old(code)@ + (match type_view(*t) {
            TypeV::Struct(s) => spec_struct_body(s),
            _ => "pass\n"@,
        }),
{
    match t {
        Type::Struct(s) => {
            match &s.docs {
                Some(d) => {
                    code.append("    ");
                    code.append("\"\"\"");
                    code.append(d.as_str());
                    code.append("\"\"\"");
                    code.append("\n\n");
                },
                None => {},
            }
            let ghost fields = fields_view(s.fields.entries@);
            let ghost base = code@;
            proof {
                crate::parse::lemma_fields_view_keys(s.fields.entries@);
                assert(fields.skip(0) =~= fields);
            }
            let n = s.fields.len();
            let mut i: usize = 0;
            while i < n
                invariant
                    0 <= i <= n,
                    n == s.fields.entries@.len(),
                    fields == fields_view(s.fields.entries@),
                    fields.len() == n,
                    forall|k: int|
                        0 <= k < n ==> #[trigger] fields[k] == (
                            s.fields.entries@[k].0@,
                            crate::parse::field_view(s.fields.entries@[k].1),
                        ),
                    code@ + spec_fields_block(fields.skip(i as int)) == base + spec_fields_block(
                        fields,
                    ),
                decreases n - i,
            {
                proof {
                    assert(fields.skip(i as int)[0] == fields[i as int]);
                    assert(fields.skip(i as int).drop_first() =~= fields.skip(i as int + 1));
                }
                let ghost mid = code@;
                let name = s.fields.key_at(i);
                let fld = s.fields.val_at(i);
                push_field_line(code, name, fld);
                proof {
                    assert(code@ + spec_fields_block(fields.skip(i as int + 1)) =~= base
                        + spec_fields_block(fields));
                }
                i = i + 1;
            }
            proof {
                assert(fields.skip(n as int) =~= Seq::<(Seq<char>, FieldV)>::empty());
                assert(code@ =~= old(code)@ + spec_struct_body(crate::parse::struct_view(*s)));
            }
        },
        _ => {
            code.append("pass\n");
        },
    }
}

/// Convert the document's component schemas to their type definitions: one
/// record definition per top-level named schema, a schema that fails to
/// resolve being skipped with a diagnostic, then the finalize pass that
/// reconciles every deferred reference.
pub fn types(schemas: &Vec<(String, Schema)>) -> (r: (String, Vec<Diagnostic>))
    ensures
        (r.0@, diags_view(r.1@)) == spec_types(schemas@),
{
    let n = schemas.len();
    let mut code = String::new();
    let mut diags: Vec<Diagnostic> = Vec::new();
    let mut i: usize = 0;
    proof {
        assert(schemas@.skip(0) =~= schemas@);
        assert(diags_view(diags@) =~= Seq::<DiagnosticV>::empty());
        assert(code@ =~= Seq::<char>::empty());
    }
    while i < n
        invariant
            0 <= i <= n,
            n == schemas@.len(),
            spec_types_blocks(schemas@, Seq::empty(), Seq::empty()) == spec_types_blocks(
                schemas@.skip(i as int),
                code@,
                diags_view(diags@),
            ),
        decreases n - i,
    {
        proof {
            assert(schemas@.skip(i as int)[0] == schemas@[i as int]);
            assert(schemas@.skip(i as int).drop_first() =~= schemas@.skip(i as int + 1));
        }
        let name = &schemas[i].0;
        match Type::try_from_schema(&schemas[i].1) {
            Err(e) => {
                let ghost before = diags@;
                diags.push(Diagnostic::SchemaSkipped { name: name.clone(), kind: e });
                proof {
                    assert(diags_view(diags@) =~= diags_view(before).push(
                        diag_view(diags@.last()),
                    ));
                }
            },
            Ok(t) => {
                let ghost mid = code@;
                code.append("class ");
                code.append(name.as_str());
                code.append("(_BaseModel):\n");
                push_class_body(&mut code, &t);
                code.append("\n\n");
                proof {
                    assert(code@ =~= mid + spec_class_block(
                        schemas@[i as int].0@,
                        type_view(t),
                    ));
                }
            },
        }
        i = i + 1;
    }
    proof {
        assert(schemas@.skip(n as int) =~= Seq::<(String, Schema)>::empty());
        assert(schemas@.skip(0) =~= schemas@);
    }
    let mut j: usize = 0;
    while j < n
        invariant
            0 <= j <= n,
            n == schemas@.len(),
            spec_forward_refs(schemas@, spec_types_blocks(schemas@, Seq::empty(), Seq::empty()).0)
                == spec_forward_refs(schemas@.skip(j as int), code@),
            diags_view(diags@) == spec_types_blocks(schemas@, Seq::empty(), Seq::empty()).1,
        decreases n - j,
    {
        proof {
            assert(schemas@.skip(j as int)[0] == schemas@[j as int]);
            assert(schemas@.skip(j as int).drop_first() =~= schemas@.skip(j as int + 1));
        }
        code.append(schemas[j].0.as_str());
        code.append(".update_forward_refs()\n");
        j = j + 1;
    }
    proof {
        assert(schemas@.skip(n as int) =~= Seq::<(String, Schema)>::empty());
    }
    code.append("\n\n");
    (code, diags)
}

} // verus!
