//! The library's general guarantees, stated and proved once over the spec
//! functions that the resolvers' and renderers' contracts use.

use vstd::prelude::*;

use crate::model::{ArrayValidation, Document, InstanceType, Items, Parameter, ParameterEntry,
    ParameterValue, Schema, TypeDecl};
use crate::ordmap::{lemma_kv_insert_sorted, spec_sorted_kv};
use crate::parse::{
    spec_arguments_from, spec_field, spec_resolve,
    spec_struct_fields_from, spec_try_from_object, type_result_view, ArgumentV, FieldV,
    ParseKind, Type, TypeV,
};
use crate::codegen::{
    spec_all_same, spec_args_body, spec_args_optional, spec_args_required, spec_arguments,
    spec_module, spec_return_type, spec_status_branches, spec_type_to_string, spec_union_items,
    Return,
};
use crate::strings::lex_lt;

verus! {

/// Resolving the same schema yields one value: any two results that meet
/// the resolver's contract are structurally equal.
pub proof fn lemma_resolve_deterministic(
    s: Schema,
    r1: Result<Type, ParseKind>,
    r2: Result<Type, ParseKind>,
)
    requires
        type_result_view(r1) == spec_resolve(s),
        type_result_view(r2) == spec_resolve(s),
    ensures
        type_result_view(r1) == type_result_view(r2),
{
}

/// Rendering the same intermediate representation yields byte-identical
/// text: any two module outputs that meet the assembler's contract are
/// equal character for character.
pub proof fn lemma_generation_deterministic(
    doc: Document,
    imports: Seq<char>,
    client: Seq<char>,
    out1: Seq<char>,
    out2: Seq<char>,
)
    requires
        spec_module(doc, imports, client).0 == Ok::<Seq<char>, ParseKind>(out1),
        spec_module(doc, imports, client).0 == Ok::<Seq<char>, ParseKind>(out2),
    ensures
        out1 == out2,
{
}

/// Folding properties into a sorted field map keeps it sorted, whatever the
/// source property order was.
pub proof fn lemma_struct_fields_sorted(
    props: Seq<(String, Schema)>,
    acc: Seq<(Seq<char>, FieldV)>,
)
    requires
        spec_sorted_kv(acc),
    ensures
        spec_struct_fields_from(props, acc) matches Ok(fs) ==> spec_sorted_kv(fs),
    decreases props,
{
    if props.len() > 0 {
        match spec_field(props[0].1) {
            Err(_) => {},
            Ok(f) => {
                lemma_kv_insert_sorted(acc, props[0].0@, f);
                lemma_struct_fields_sorted(
                    props.drop_first(),
                    crate::ordmap::spec_kv_insert(acc, props[0].0@, f),
                );
            },
        }
    }
}

/// For all structs, the rendered field order is lexicographic by name
/// regardless of source property order: a schema's object probe yields a
/// struct whose field map — the order the renderer follows — is strictly
/// increasing in the field name.
pub proof fn lemma_struct_field_order(s: Schema)
    ensures
        spec_try_from_object(s) matches Ok(t) ==> (t matches TypeV::Struct(sv) ==> (forall|
            i: int,
            j: int,
        |
            0 <= i < j < sv.fields.len() ==> lex_lt(sv.fields[i].0, sv.fields[j].0))),
{
    match s.object {
        None => {},
        Some(ov) => {
            lemma_struct_fields_sorted(ov.properties@, Seq::empty());
            match spec_struct_fields_from(ov.properties@, Seq::empty()) {
                Err(_) => {},
                Ok(fs) => {
                    assert(spec_sorted_kv(fs));
                    assert forall|i: int, j: int| 0 <= i < j < fs.len() implies lex_lt(
                        fs[i].0,
                        fs[j].0,
                    ) by {}
                },
            }
        },
    }
}

/// The array probe alone obeys the uniqueness rule: with `uniqueItems:
/// true` the item type becomes a set, with the keyword absent or false a
/// list, whatever other keywords stand beside the array ones.
pub proof fn lemma_array_probe(s: Schema, av: ArrayValidation, inner: Schema, t: TypeV)
    requires
        s.instance_type == TypeDecl::Single(InstanceType::Array),
        s.array == Some(av),
        av.items == Items::Node(Box::new(inner)),
        spec_resolve(inner) == Ok::<TypeV, ParseKind>(t),
    ensures
        av.unique_items == Some(true) ==> crate::parse::spec_try_from_array(s) == Ok::<
            TypeV,
            ParseKind,
        >(TypeV::SetOf(Box::new(t))),
        av.unique_items != Some(true) ==> crate::parse::spec_try_from_array(s) == Ok::<
            TypeV,
            ParseKind,
        >(TypeV::List(Box::new(t))),
{
}

/// An array schema with `uniqueItems: true` resolves to a set; with the
/// keyword absent or false it resolves to a list.
pub proof fn lemma_unique_items(s: Schema, av: ArrayValidation, inner: Schema, t: TypeV)
    requires
        s.reference is None,
        s.object is None,
        s.instance_type == TypeDecl::Single(InstanceType::Array),
        s.array == Some(av),
        av.items == Items::Node(Box::new(inner)),
        spec_resolve(inner) == Ok::<TypeV, ParseKind>(t),
    ensures
        av.unique_items == Some(true) ==> spec_resolve(s) == Ok::<TypeV, ParseKind>(
            TypeV::SetOf(Box::new(t)),
        ),
        av.unique_items != Some(true) ==> spec_resolve(s) == Ok::<TypeV, ParseKind>(
            TypeV::List(Box::new(t)),
        ),
{
}

/// A parameter's requiredness decides its argument type: a required inline
/// parameter keeps its resolved type, a non-required one has it wrapped in
/// an optional.
pub proof fn lemma_parameter_optionality(p: Parameter, sch: Schema, t: TypeV, acc: Seq<ArgumentV>)
    requires
        p.value == ParameterValue::SchemaValue(sch),
        spec_resolve(sch) == Ok::<TypeV, ParseKind>(t),
    ensures
        spec_arguments_from(seq![ParameterEntry::Inline(p)], acc) matches Ok(args) && args
            == acc.push(
            ArgumentV {
                name: p.name@,
                ty: if p.required {
                    t
                } else {
                    TypeV::Option(Box::new(t))
                },
                location: crate::parse::spec_location(p.location@),
            },
        ),
{
    let e = seq![ParameterEntry::Inline(p)];
    let arg = ArgumentV {
        name: p.name@,
        ty: if p.required {
            t
        } else {
            TypeV::Option(Box::new(t))
        },
        location: crate::parse::spec_location(p.location@),
    };
    assert(e[0] == ParameterEntry::Inline(p));
    assert(e.drop_first() =~= Seq::<ParameterEntry>::empty());
    assert(spec_arguments_from(e.drop_first(), acc.push(arg)) == Ok::<Seq<ArgumentV>, ParseKind>(
        acc.push(arg),
    ));
    assert(spec_arguments_from(e, acc) == Ok::<Seq<ArgumentV>, ParseKind>(acc.push(arg)));
}

/// Required arguments render with no default and before all optional
/// non-body arguments; optional ones render with an absent default and come
/// last.
pub proof fn lemma_argument_order(args: Seq<ArgumentV>)
    ensures
        spec_arguments(args) == spec_args_body(args) + spec_args_required(args)
            + spec_args_optional(args),
{
}

/// The return type follows the declared responses: none yields the unit
/// rendering and no status branch is emitted; exactly one distinct response
/// type (by structural equality) yields that type directly; two or more
/// distinct response types yield a tagged union, one alternative per status
/// code.
pub proof fn lemma_return_type_cases(rs: Seq<(Seq<char>, TypeV)>, level: nat, arity: Return)
    ensures
        rs.len() == 0 ==> spec_return_type(rs) == ("None"@, Return::One),
        rs.len() == 0 ==> spec_status_branches(rs, level, arity) == Seq::<char>::empty(),
        rs.len() > 0 && spec_all_same(rs) ==> spec_return_type(rs) == (
            spec_type_to_string(rs[0].1, false),
            Return::One,
        ),
        rs.len() > 0 && !spec_all_same(rs) ==> spec_return_type(rs) == (
            "Union["@ + spec_union_items(rs) + "]"@,
            Return::Many,
        ),
{
}

/// A field marked deprecated resolves as optional, with a deprecation note
/// appended to its documentation.
pub proof fn lemma_deprecated_field(s: Schema, t: TypeV)
    requires
        s.deprecated,
        spec_resolve(s) == Ok::<TypeV, ParseKind>(t),
    ensures
        spec_field(s) == Ok::<FieldV, ParseKind>(
            FieldV {
                ty: TypeV::Option(Box::new(t)),
                docs: match s.description {
                    Some(d) => Some(d@ + "\n\nDeprecated."@),
                    None => Some("Deprecated."@),
                },
                deprecated: true,
            },
        ),
{
}

/// Every field type that property folding accumulates is well formed,
/// provided the accumulated map already was.
proof fn lemma_struct_fields_wf(props: Seq<(String, Schema)>, acc: Seq<(Seq<char>, FieldV)>)
    requires
        crate::parse::fields_wf(acc),
    ensures
        spec_struct_fields_from(props, acc) matches Ok(fs) ==> crate::parse::fields_wf(fs),
    decreases props, 30int,
{
    if props.len() > 0 {
        match spec_field(props[0].1) {
            Err(_) => {},
            Ok(f) => {
                lemma_spec_field_wf(props[0].1);
                crate::parse::lemma_fields_wf_insert(acc, props[0].0@, f);
                lemma_struct_fields_wf(
                    props.drop_first(),
                    crate::ordmap::spec_kv_insert(acc, props[0].0@, f),
                );
            },
        }
    }
}

/// A field the resolver yields carries a well-formed type.
proof fn lemma_spec_field_wf(s: Schema)
    ensures
        spec_field(s) matches Ok(f) ==> crate::parse::type_v_wf(f.ty),
    decreases s, 20int,
{
    lemma_resolve_well_formed(s);
}

/// The object probe yields a well-formed type.
proof fn lemma_spec_object_wf(s: Schema)
    ensures
        spec_try_from_object(s) matches Ok(t) ==> crate::parse::type_v_wf(t),
    decreases s, 5int,
{
    match s.object {
        None => {},
        Some(ov) => {
            lemma_struct_fields_sorted(ov.properties@, Seq::empty());
            lemma_struct_fields_wf_entry(ov.properties@);
        },
    }
}

/// Entry point for the field fold of one object, starting from the empty
/// map.
proof fn lemma_struct_fields_wf_entry(props: Seq<(String, Schema)>)
    ensures
        spec_struct_fields_from(props, Seq::empty()) matches Ok(fs) ==> crate::parse::fields_wf(
            fs,
        ),
    decreases props, 31int,
{
    assert(crate::parse::fields_wf(Seq::<(Seq<char>, crate::parse::FieldV)>::empty()));
    lemma_struct_fields_wf(props, Seq::empty());
}

/// The array probe yields a well-formed type.
proof fn lemma_spec_array_wf(s: Schema)
    ensures
        crate::parse::spec_try_from_array(s) matches Ok(t) ==> crate::parse::type_v_wf(t),
    decreases s, 5int,
{
    match s.instance_type {
        TypeDecl::Single(it) => {
            if it == InstanceType::Array {
                match s.array {
                    Some(av) => match av.items {
                        Items::Node(inner) => {
                            lemma_resolve_well_formed(*inner);
                        },
                        _ => {},
                    },
                    None => {},
                }
            }
        },
        _ => {},
    }
}

/// Every struct reachable inside a resolved type keeps its fields in
/// strictly increasing key order: well-formedness holds at every nesting
/// depth, whatever the source property order was.
pub proof fn lemma_resolve_well_formed(s: Schema)
    ensures
        spec_resolve(s) matches Ok(t) ==> crate::parse::type_v_wf(t),
    decreases s, 10int,
{
    lemma_spec_object_wf(s);
    lemma_spec_array_wf(s);
}

} // verus!
