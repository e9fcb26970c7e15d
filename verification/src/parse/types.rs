//! Type parsing.
//!
//! "Type" meaning both primitive JSON types like strings and numbers as well
//! as complex types like objects and lists. Because a schema carries no
//! single discriminant, resolution probes a fixed priority order — ref,
//! object, null, string, number, integer, boolean, array — where each probe
//! answers with success, "not this shape" ([`ParseKind::OtherType`], try the
//! next probe) or "recognized but unsupported" ([`ParseKind::Unimplemented`],
//! which stops the whole scan).

use vstd::prelude::*;

use crate::model::{ArrayValidation, InstanceType, Items, Schema, TypeDecl};
use crate::ordmap::{spec_kv_insert, spec_ord_insert, spec_sorted_kv, OrdMap};
use crate::parse::error::ParseKind;
use crate::parse::field::Field;
use crate::parse::structs::Struct;

verus! {

broadcast use vstd::seq::axiom_seq_index_decreases, vstd::std_specs::vec::group_vec_axioms;

/// Representation of a data structure suitable for codegen.
#[derive(Debug, PartialEq, Eq)]
pub enum Type {
    /// Character sequence.
    String,
    /// Nothing.
    Null,
    /// True or false.
    Bool,
    /// Decimal number.
    Float,
    /// Whole number.
    Integer,
    /// Any type.
    Any,
    /// A value that may be absent.
    Option(Box<Type>),
    /// List of another [`Type`].
    List(Box<Type>),
    /// Deduplicated list of another [`Type`].
    SetOf(Box<Type>),
    /// A collection of properties.
    Struct(Struct),
    /// Name of another type, kept as the full reference string and resolved
    /// at render time, never eagerly inlined.
    Ref(String),
}

/// The mathematical model of a [`Type`]: strings become character sequences
/// and the field map becomes a sequence of key/value pairs.
pub enum TypeV {
    /// Character sequence.
    String,
    /// Nothing.
    Null,
    /// True or false.
    Bool,
    /// Decimal number.
    Float,
    /// Whole number.
    Integer,
    /// Any type.
    Any,
    /// A value that may be absent.
    Option(Box<TypeV>),
    /// List of another type.
    List(Box<TypeV>),
    /// Deduplicated list of another type.
    SetOf(Box<TypeV>),
    /// A collection of properties.
    Struct(StructV),
    /// Name of another type.
    Ref(Seq<char>),
}

/// The mathematical model of a [`Field`].
pub struct FieldV {
    /// Type of the field.
    pub ty: TypeV,
    /// Field documentation.
    pub docs: Option<Seq<char>>,
    /// Whether the field was marked deprecated.
    pub deprecated: bool,
}

/// The mathematical model of a [`Struct`].
pub struct StructV {
    /// Documentation associated with the structure.
    pub docs: Option<Seq<char>>,
    /// The fields, keyed by name, in map order.
    pub fields: Seq<(Seq<char>, FieldV)>,
}

/// The view of an optional string.
pub open spec fn opt_str_view(o: Option<String>) -> Option<Seq<char>> {
    match o {
        Some(s) => Some(s@),
        None => None,
    }
}

/// The model of a [`Type`] value.
pub open spec fn type_view(t: Type) -> TypeV
    decreases t,
{
    match t {
        Type::String => TypeV::String,
        Type::Null => TypeV::Null,
        Type::Bool => TypeV::Bool,
        Type::Float => TypeV::Float,
        Type::Integer => TypeV::Integer,
        Type::Any => TypeV::Any,
        Type::Option(t2) => TypeV::Option(Box::new(type_view(*t2))),
        Type::List(t2) => TypeV::List(Box::new(type_view(*t2))),
        Type::SetOf(t2) => TypeV::SetOf(Box::new(type_view(*t2))),
        Type::Struct(s) => TypeV::Struct(struct_view(s)),
        Type::Ref(n) => TypeV::Ref(n@),
    }
}

/// The model of a [`Struct`] value.
pub open spec fn struct_view(s: Struct) -> StructV
    decreases s,
{
    StructV { docs: opt_str_view(s.docs), fields: fields_view(s.fields.entries@) }
}

/// The model of a field-map entry sequence.
pub open spec fn fields_view(e: Seq<(String, Field)>) -> Seq<(Seq<char>, FieldV)>
    decreases e,
{
    if e.len() == 0 {
        Seq::empty()
    } else {
        seq![(e[0].0@, field_view(e[0].1))] + fields_view(e.drop_first())
    }
}

/// The model of a [`Field`] value.
pub open spec fn field_view(f: Field) -> FieldV
    decreases f,
{
    FieldV { ty: type_view(f.ty), docs: opt_str_view(f.docs), deprecated: f.deprecated }
}

impl View for Type {
    type V = TypeV;

    open spec fn view(&self) -> TypeV {
        type_view(*self)
    }
}

impl View for Field {
    type V = FieldV;

    open spec fn view(&self) -> FieldV {
        field_view(*self)
    }
}

impl View for Struct {
    type V = StructV;

    open spec fn view(&self) -> StructV {
        struct_view(*self)
    }
}

/// Whether every struct reachable inside `t` keeps its fields in strictly
/// increasing key order.
pub open spec fn type_v_wf(t: TypeV) -> bool
    decreases t,
{
    match t {
        TypeV::Option(t2) => type_v_wf(*t2),
        TypeV::List(t2) => type_v_wf(*t2),
        TypeV::SetOf(t2) => type_v_wf(*t2),
        TypeV::Struct(s) => spec_sorted_kv(s.fields) && fields_wf(s.fields),
        _ => true,
    }
}

/// Whether every field type in `fs` is well formed.
pub open spec fn fields_wf(fs: Seq<(Seq<char>, FieldV)>) -> bool
    decreases fs,
{
    fs.len() == 0 || (type_v_wf(fs[0].1.ty) && fields_wf(fs.drop_first()))
}

/// The model of a resolution result.
pub open spec fn type_result_view(r: Result<Type, ParseKind>) -> Result<TypeV, ParseKind> {
    match r {
        Ok(t) => Ok(type_view(t)),
        Err(e) => Err(e),
    }
}

/// The model of a field resolution result.
pub open spec fn field_result_view(r: Result<Field, ParseKind>) -> Result<FieldV, ParseKind> {
    match r {
        Ok(f) => Ok(field_view(f)),
        Err(e) => Err(e),
    }
}

/// What the reference probe yields: the full reference string, or "not this
/// shape" when the schema has no `$ref`.
pub open spec fn spec_try_from_ref(s: Schema) -> Result<TypeV, ParseKind> {
    match s.reference {
        Some(r) => Ok(TypeV::Ref(r@)),
        None => Err(ParseKind::OtherType),
    }
}

/// What a scalar probe yields: `out` when the schema declares exactly the
/// single type keyword `want`, "not this shape" on another single keyword,
/// and "unsupported" when the keyword is absent or a list.
pub open spec fn spec_try_from_simple(s: Schema, want: InstanceType, out: TypeV) -> Result<
    TypeV,
    ParseKind,
> {
    match s.instance_type {
        TypeDecl::Absent => Err(ParseKind::Unimplemented),
        TypeDecl::Multiple => Err(ParseKind::Unimplemented),
        TypeDecl::Single(it) => if it == want {
            Ok(out)
        } else {
            Err(ParseKind::OtherType)
        },
    }
}

/// What resolving one field yields: the schema's resolved type and
/// description, then — when the schema is marked deprecated — the forced
/// optionality transform: the type is wrapped in an optional and the
/// documentation gains an appended deprecation note.
pub open spec fn spec_field(s: Schema) -> Result<FieldV, ParseKind>
    decreases s, 20int,
{
    match spec_resolve(s) {
        Err(e) => Err(e),
        Ok(t) => if s.deprecated {
            Ok(
                FieldV {
                    ty: TypeV::Option(Box::new(t)),
                    docs: match s.description {
                        Some(d) => Some(d@ + "\n\nDeprecated."@),
                        None => Some("Deprecated."@),
                    },
                    deprecated: true,
                },
            )
        } else {
            Ok(FieldV { ty: t, docs: opt_str_view(s.description), deprecated: false })
        },
    }
}

/// What folding the given properties into the field map `acc` yields: the
/// map with each property's field inserted at its key, or the first field
/// error, with no field ever silently dropped.
pub open spec fn spec_struct_fields_from(
    props: Seq<(String, Schema)>,
    acc: Seq<(Seq<char>, FieldV)>,
) -> Result<Seq<(Seq<char>, FieldV)>, ParseKind>
    decreases props, 30int,
{
    if props.len() == 0 {
        Ok(acc)
    } else {
        match spec_field(props[0].1) {
            Err(e) => Err(e),
            Ok(f) => spec_struct_fields_from(
                props.drop_first(),
                spec_kv_insert(acc, props[0].0@, f),
            ),
        }
    }
}

/// What the object probe yields: a struct assembled from the schema's
/// properties (documented by the schema's own description), "not this shape"
/// when the schema has no object keywords, or the first fatal field error.
pub open spec fn spec_try_from_object(s: Schema) -> Result<TypeV, ParseKind>
    decreases s, 5int,
{
    match s.object {
        None => Err(ParseKind::OtherType),
        Some(ov) => match spec_struct_fields_from(ov.properties@, Seq::empty()) {
            Err(e) => Err(e),
            Ok(fs) => Ok(TypeV::Struct(StructV { docs: opt_str_view(s.description), fields: fs })),
        },
    }
}

/// What the array probe yields: `Any` for an array schema with no item
/// keywords at all; a set when `uniqueItems` is true and a list otherwise;
/// and "unsupported" for boolean or multiple item schemas.
pub open spec fn spec_try_from_array(s: Schema) -> Result<TypeV, ParseKind>
    decreases s, 5int,
{
    match s.instance_type {
        TypeDecl::Absent => Err(ParseKind::Unimplemented),
        TypeDecl::Multiple => Err(ParseKind::Unimplemented),
        TypeDecl::Single(it) => if it != InstanceType::Array {
            Err(ParseKind::OtherType)
        } else {
            match s.array {
                None => Ok(TypeV::Any),
                Some(av) => match av.items {
                    Items::Absent => Err(ParseKind::Unimplemented),
                    Items::Multiple => Err(ParseKind::Unimplemented),
                    Items::BoolSchema => Err(ParseKind::Unimplemented),
                    Items::Node(inner) => match spec_resolve(*inner) {
                        Err(e) => Err(e),
                        Ok(t) => if av.unique_items == Some(true) {
                            Ok(TypeV::SetOf(Box::new(t)))
                        } else {
                            Ok(TypeV::List(Box::new(t)))
                        },
                    },
                },
            }
        },
    }
}

/// What the whole resolver chain yields for a schema: the first probe, in
/// priority order, that does not answer "not this shape".
pub open spec fn spec_resolve(s: Schema) -> Result<TypeV, ParseKind>
    decreases s, 10int,
{
    let r0 = spec_try_from_ref(s);
    if !(r0 matches Err(ParseKind::OtherType)) {
        r0
    } else {
        let r1 = spec_try_from_object(s);
        if !(r1 matches Err(ParseKind::OtherType)) {
            r1
        } else {
            let r2 = spec_try_from_simple(s, InstanceType::Null, TypeV::Null);
            if !(r2 matches Err(ParseKind::OtherType)) {
                r2
            } else {
                let r3 = spec_try_from_simple(s, InstanceType::String, TypeV::String);
                if !(r3 matches Err(ParseKind::OtherType)) {
                    r3
                } else {
                    let r4 = spec_try_from_simple(s, InstanceType::Number, TypeV::Float);
                    if !(r4 matches Err(ParseKind::OtherType)) {
                        r4
                    } else {
                        let r5 = spec_try_from_simple(s, InstanceType::Integer, TypeV::Integer);
                        if !(r5 matches Err(ParseKind::OtherType)) {
                            r5
                        } else {
                            let r6 = spec_try_from_simple(s, InstanceType::Boolean, TypeV::Bool);
                            if !(r6 matches Err(ParseKind::OtherType)) {
                                r6
                            } else {
                                spec_try_from_array(s)
                            }
                        }
                    }
                }
            }
        }
    }
}

impl Type {
    /// Try to convert a schema into its resolved type, probing the fixed
    /// priority order: ref, object, null, string, number, integer, boolean,
    /// array. The chain short-circuits on the first success, moves on past
    /// "not this shape", and aborts on "unsupported".
    pub fn try_from_schema(s: &Schema) -> (r: Result<Type, ParseKind>)
        ensures
            type_result_view(r) == spec_resolve(*s),
            r matches Ok(t) ==> type_v_wf(type_view(t)),
        decreases s, 10int,
    {
        match Type::try_from_ref(s) {
            Ok(t) => {
                return Ok(t);
            },
            Err(e) => {
                if e == ParseKind::Unimplemented {
                    return Err(e);
                }
            },
        }
        match Type::try_from_object(s) {
            Ok(t) => {
                return Ok(t);
            },
            Err(e) => {
                if e == ParseKind::Unimplemented {
                    return Err(e);
                }
            },
        }
        match Type::try_from_simple(s, InstanceType::Null, Type::Null) {
            Ok(t) => {
                return Ok(t);
            },
            Err(e) => {
                if e == ParseKind::Unimplemented {
                    return Err(e);
                }
            },
        }
        match Type::try_from_simple(s, InstanceType::String, Type::String) {
            Ok(t) => {
                return Ok(t);
            },
            Err(e) => {
                if e == ParseKind::Unimplemented {
                    return Err(e);
                }
            },
        }
        match Type::try_from_simple(s, InstanceType::Number, Type::Float) {
            Ok(t) => {
                return Ok(t);
            },
            Err(e) => {
                if e == ParseKind::Unimplemented {
                    return Err(e);
                }
            },
        }
        match Type::try_from_simple(s, InstanceType::Integer, Type::Integer) {
            Ok(t) => {
                return Ok(t);
            },
            Err(e) => {
                if e == ParseKind::Unimplemented {
                    return Err(e);
                }
            },
        }
        match Type::try_from_simple(s, InstanceType::Boolean, Type::Bool) {
            Ok(t) => {
                return Ok(t);
            },
            Err(e) => {
                if e == ParseKind::Unimplemented {
                    return Err(e);
                }
            },
        }
        Type::try_from_array(s)
    }

    /// Try to convert a schema into a ref-to-type.
    fn try_from_ref(s: &Schema) -> (r: Result<Type, ParseKind>)
        ensures
            type_result_view(r) == spec_try_from_ref(*s),
            r matches Ok(t) ==> type_v_wf(type_view(t)),
    {
        match &s.reference {
            Some(reference) => Ok(Type::Ref(reference.clone())),
            None => Err(ParseKind::OtherType),
        }
    }

    /// Try to convert a schema into a simple type: `out` when the schema
    /// declares exactly the single type keyword `want`.
    fn try_from_simple(s: &Schema, want: InstanceType, out: Type) -> (r: Result<Type, ParseKind>)
        requires
            type_v_wf(type_view(out)),
        ensures
            type_result_view(r) == spec_try_from_simple(*s, want, type_view(out)),
            r matches Ok(t) ==> type_v_wf(type_view(t)),
    {
        match s.instance_type {
            TypeDecl::Absent => Err(ParseKind::Unimplemented),
            TypeDecl::Multiple => Err(ParseKind::Unimplemented),
            TypeDecl::Single(it) => if it == want {
                Ok(out)
            } else {
                Err(ParseKind::OtherType)
            },
        }
    }

    /// Try to convert a schema into an object type, folding its properties
    /// into a field map in lexicographic key order.
    fn try_from_object(s: &Schema) -> (r: Result<Type, ParseKind>)
        ensures
            type_result_view(r) == spec_try_from_object(*s),
            r matches Ok(t) ==> type_v_wf(type_view(t)),
        decreases s, 5int,
    {
        match &s.object {
            None => Err(ParseKind::OtherType),
            Some(ov) => {
                let n = ov.properties.len();
                let mut fields: OrdMap<Field> = OrdMap::new();
                let mut i: usize = 0;
                proof {
                    assert(ov.properties@.skip(0) =~= ov.properties@);
                    assert(fields_view(fields.entries@) =~= Seq::<(Seq<char>, FieldV)>::empty());
                }
                while i < n
                    invariant
                        0 <= i <= n,
                        n == ov.properties@.len(),
                        s.object matches Some(sov) && sov == *ov,
                        fields.wf(),
                        fields_wf(fields_view(fields.entries@)),
                        spec_struct_fields_from(ov.properties@, Seq::empty())
                            == spec_struct_fields_from(
                            ov.properties@.skip(i as int),
                            fields_view(fields.entries@),
                        ),
                    decreases n - i,
                {
                    let ghost props_rest = ov.properties@.skip(i as int);
                    proof {
                        assert(props_rest[0] == ov.properties@[i as int]);
                        assert(props_rest.drop_first() =~= ov.properties@.skip(i as int + 1));
                    }
                    match resolve_field(&ov.properties[i].1) {
                        Err(e) => {
                            return Err(e);
                        },
                        Ok(f) => {
                            let key = ov.properties[i].0.clone();
                            proof {
                                lemma_fields_view_insert(fields.entries@, key, f);
                                lemma_fields_wf_insert(
                                    fields_view(fields.entries@),
                                    key@,
                                    field_view(f),
                                );
                            }
                            fields.insert(key, f);
                        },
                    }
                    i = i + 1;
                }
                proof {
                    assert(ov.properties@.skip(n as int) =~= Seq::<(String, Schema)>::empty());
                    lemma_fields_view_sorted(fields.entries@);
                    assert(spec_struct_fields_from(ov.properties@, Seq::empty()) == Ok::<
                        Seq<(Seq<char>, FieldV)>,
                        ParseKind,
                    >(fields_view(fields.entries@)));
                    assert(spec_try_from_object(*s) == Ok::<TypeV, ParseKind>(
                        TypeV::Struct(
                            StructV {
                                docs: opt_str_view(s.description),
                                fields: fields_view(fields.entries@),
                            },
                        ),
                    ));
                }
                let docs = match &s.description {
                    Some(d) => Some(d.clone()),
                    None => None,
                };
                proof {
                    assert(opt_str_view(docs) == opt_str_view(s.description));
                }
                let st = Struct { docs, fields };
                proof {
                    assert(struct_view(st) == StructV {
                        docs: opt_str_view(s.description),
                        fields: fields_view(st.fields.entries@),
                    });
                    assert(type_view(Type::Struct(st)) == TypeV::Struct(struct_view(st)));
                }
                Ok(Type::Struct(st))
            },
        }
    }

    /// Try to convert a schema into a list-like type: a set when
    /// `uniqueItems` is true, a list otherwise, and `Any` for an array
    /// schema carrying no item keywords at all.
    fn try_from_array(s: &Schema) -> (r: Result<Type, ParseKind>)
        ensures
            type_result_view(r) == spec_try_from_array(*s),
            r matches Ok(t) ==> type_v_wf(type_view(t)),
        decreases s, 5int,
    {
        let it = match s.instance_type {
            TypeDecl::Absent => {
                return Err(ParseKind::Unimplemented);
            },
            TypeDecl::Multiple => {
                return Err(ParseKind::Unimplemented);
            },
            TypeDecl::Single(it) => it,
        };
        if it != InstanceType::Array {
            return Err(ParseKind::OtherType);
        }
        match &s.array {
            None => Ok(Type::Any),
            Some(av) => match &av.items {
                Items::Absent => Err(ParseKind::Unimplemented),
                Items::Multiple => Err(ParseKind::Unimplemented),
                Items::BoolSchema => Err(ParseKind::Unimplemented),
                Items::Node(inner) => {
                    let t = match Type::try_from_schema(inner) {
                        Err(e) => {
                            return Err(e);
                        },
                        Ok(t) => t,
                    };
                    let unique = match av.unique_items {
                        Some(true) => true,
                        _ => false,
                    };
                    if unique {
                        Ok(Type::SetOf(Box::new(t)))
                    } else {
                        Ok(Type::List(Box::new(t)))
                    }
                },
            },
        }
    }
}

/// Resolve a schema into a field; see [`Field::from_schema`].
pub(crate) fn resolve_field(schema: &Schema) -> (r: Result<Field, ParseKind>)
    ensures
        field_result_view(r) == spec_field(*schema),
        r matches Ok(f) ==> type_v_wf(field_view(f).ty),
    decreases schema, 20int,
{
    let ty = match Type::try_from_schema(schema) {
        Err(e) => {
            return Err(e);
        },
        Ok(t) => t,
    };
    if schema.deprecated {
        let docs = match &schema.description {
            Some(d) => {
                let mut nd = d.clone();
                nd.append("\n\nDeprecated.");
                Some(nd)
            },
            None => Some(String::from_str("Deprecated.")),
        };
        Ok(Field { ty: Type::Option(Box::new(ty)), docs, deprecated: true })
    } else {
        let docs = match &schema.description {
            Some(d) => Some(d.clone()),
            None => None,
        };
        Ok(Field { ty, docs, deprecated: false })
    }
}

/// Viewing a field-map entry sequence keeps its length, keys and values.
pub proof fn lemma_fields_view_keys(e: Seq<(String, Field)>)
    ensures
        fields_view(e).len() == e.len(),
        forall|i: int|
            0 <= i < e.len() ==> #[trigger] fields_view(e)[i] == (e[i].0@, field_view(e[i].1)),
    decreases e.len(),
{
    if e.len() > 0 {
        lemma_fields_view_keys(e.drop_first());
        assert forall|i: int|
            0 <= i < e.len() implies #[trigger] fields_view(e)[i] == (
            e[i].0@,
            field_view(e[i].1),
        ) by {
            if i > 0 {
                assert(fields_view(e)[i] == fields_view(e.drop_first())[i - 1]);
                assert(e.drop_first()[i - 1] == e[i]);
            }
        }
    }
}

/// A sorted entry sequence views to a sorted key/value sequence.
proof fn lemma_fields_view_sorted(e: Seq<(String, Field)>)
    requires
        crate::ordmap::spec_sorted(e),
    ensures
        spec_sorted_kv(fields_view(e)),
{
    lemma_fields_view_keys(e);
}

/// Viewing commutes with sorted insertion.
proof fn lemma_fields_view_insert(e: Seq<(String, Field)>, key: String, f: Field)
    ensures
        fields_view(spec_ord_insert(e, key, f)) =~= spec_kv_insert(
            fields_view(e),
            key@,
            field_view(f),
        ),
    decreases e.len(),
{
    lemma_fields_view_keys(e);
    lemma_fields_view_keys(spec_ord_insert(e, key, f));
    let lhs = fields_view(spec_ord_insert(e, key, f));
    let rhs = spec_kv_insert(fields_view(e), key@, field_view(f));
    if e.len() == 0 {
    } else if crate::strings::lex_lt(e[0].0@, key@) {
        lemma_fields_view_insert(e.drop_first(), key, f);
        assert(spec_ord_insert(e, key, f).drop_first() =~= spec_ord_insert(
            e.drop_first(),
            key,
            f,
        ));
        assert(fields_view(e).drop_first() =~= fields_view(e.drop_first()));
    } else if e[0].0@ == key@ {
        assert(spec_ord_insert(e, key, f).drop_first() =~= e.drop_first());
        assert(fields_view(e).drop_first() =~= fields_view(e.drop_first()));
        lemma_fields_view_keys(e.drop_first());
    } else {
        assert(spec_ord_insert(e, key, f).drop_first() =~= e);
    }
}

/// Inserting a well-formed field keeps the field map well formed.
pub(crate) proof fn lemma_fields_wf_insert(fs: Seq<(Seq<char>, FieldV)>, k: Seq<char>, f: FieldV)
    requires
        fields_wf(fs),
        type_v_wf(f.ty),
    ensures
        fields_wf(spec_kv_insert(fs, k, f)),
    decreases fs.len(),
{
    let r = spec_kv_insert(fs, k, f);
    if fs.len() == 0 {
        assert(r.drop_first() =~= Seq::<(Seq<char>, FieldV)>::empty());
        assert(r[0].1 == f);
        assert(fields_wf(r.drop_first()));
    } else if crate::strings::lex_lt(fs[0].0, k) {
        lemma_fields_wf_insert(fs.drop_first(), k, f);
        assert(r.drop_first() =~= spec_kv_insert(fs.drop_first(), k, f));
        assert(r[0] == fs[0]);
        assert(type_v_wf(r[0].1.ty));
        assert(fields_wf(r.drop_first()));
    } else if fs[0].0 == k {
        assert(r.drop_first() =~= fs.drop_first());
        assert(r[0].1 == f);
        assert(fields_wf(r.drop_first()));
    } else {
        assert(r.drop_first() =~= fs);
        assert(r[0].1 == f);
        assert(fields_wf(r.drop_first()));
    }
}

/// Whether two optional strings read the same.
fn opt_str_eq(a: &Option<String>, b: &Option<String>) -> (r: bool)
    ensures
        r == (opt_str_view(*a) == opt_str_view(*b)),
{
    match (a, b) {
        (None, None) => true,
        (Some(x), Some(y)) => crate::strings::str_eq(x.as_str(), y.as_str()),
        _ => false,
    }
}

impl Type {
    /// Whether two resolved types are structurally equal: same shape, same
    /// reference strings, same field names, documentation and deprecation
    /// marks at every nesting depth.
    pub fn structurally_eq(a: &Type, b: &Type) -> (r: bool)
        ensures
            r == (type_view(*a) == type_view(*b)),
        decreases a,
    {
        match (a, b) {
            (Type::String, Type::String) => true,
            (Type::Null, Type::Null) => true,
            (Type::Bool, Type::Bool) => true,
            (Type::Float, Type::Float) => true,
            (Type::Integer, Type::Integer) => true,
            (Type::Any, Type::Any) => true,
            (Type::Option(x), Type::Option(y)) => Type::structurally_eq(x, y),
            (Type::List(x), Type::List(y)) => Type::structurally_eq(x, y),
            (Type::SetOf(x), Type::SetOf(y)) => Type::structurally_eq(x, y),
            (Type::Ref(x), Type::Ref(y)) => crate::strings::str_eq(x.as_str(), y.as_str()),
            (Type::Struct(sa), Type::Struct(sb)) => struct_eq(sa, sb),
            _ => false,
        }
    }
}

/// Whether two structs are structurally equal.
fn struct_eq(a: &Struct, b: &Struct) -> (r: bool)
    ensures
        r == (struct_view(*a) == struct_view(*b)),
    decreases a,
{
    if !opt_str_eq(&a.docs, &b.docs) {
        return false;
    }
    fields_eq(&a.fields.entries, &b.fields.entries)
}

/// Whether two field-map entry sequences view to the same model.
fn fields_eq(ea: &Vec<(String, Field)>, eb: &Vec<(String, Field)>) -> (r: bool)
    ensures
        r == (fields_view(ea@) == fields_view(eb@)),
    decreases ea,
{
    proof {
        lemma_fields_view_keys(ea@);
        lemma_fields_view_keys(eb@);
    }
    let n = ea.len();
    if n != eb.len() {
        return false;
    }
    let mut i: usize = 0;
    while i < n
        invariant
            0 <= i <= n,
            n == ea@.len(),
            n == eb@.len(),
            fields_view(ea@).len() == n,
            fields_view(eb@).len() == n,
            forall|k: int|
                0 <= k < n ==> #[trigger] fields_view(ea@)[k] == (
                    ea@[k].0@,
                    field_view(ea@[k].1),
                ),
            forall|k: int|
                0 <= k < n ==> #[trigger] fields_view(eb@)[k] == (
                    eb@[k].0@,
                    field_view(eb@[k].1),
                ),
            forall|k: int| 0 <= k < i ==> #[trigger] fields_view(ea@)[k] == fields_view(eb@)[k],
        decreases n - i,
    {
        if !crate::strings::str_eq(ea[i].0.as_str(), eb[i].0.as_str()) {
            proof {
                assert(fields_view(ea@)[i as int].0 != fields_view(eb@)[i as int].0);
            }
            return false;
        }
        if !field_eq(&ea[i].1, &eb[i].1) {
            proof {
                assert(fields_view(ea@)[i as int].1 != fields_view(eb@)[i as int].1);
            }
            return false;
        }
        i = i + 1;
    }
    proof {
        assert(fields_view(ea@) =~= fields_view(eb@));
    }
    true
}

/// Whether two fields are structurally equal.
fn field_eq(a: &Field, b: &Field) -> (r: bool)
    ensures
        r == (field_view(*a) == field_view(*b)),
    decreases a,
{
    if a.deprecated != b.deprecated {
        return false;
    }
    if !opt_str_eq(&a.docs, &b.docs) {
        return false;
    }
    Type::structurally_eq(&a.ty, &b.ty)
}

} // verus!
