//! Generate code for HTTP methods.

use vstd::prelude::*;

use crate::model::PathItem;
use crate::ordmap::{
    lemma_kv_get_map_view, map_kv_view, map_pair_view, spec_kv_get, OrdMap, PairMap,
};
use crate::parse::{
    scheme_view_fn, spec_try_from_paths, type_view, Argument, ArgumentV, Function, FunctionV,
    Location, ParseKind, Responses, SecurityScheme, Type, TypeV,
};
use crate::codegen::types::{spec_type_to_string, type_to_string};
use crate::strings::str_eq;

verus! {

/// What heck's snake-case conversion returns for the given characters.
pub uninterp spec fn snake_of(s: Seq<char>) -> Seq<char>;

/// Relies on heck's `to_snake_case` for `str`: the conversion is a pure
/// transform of the input characters, so its result depends on them alone.
#[verifier::external_body]
fn to_snake_case(s: &str) -> (r: String)
    ensures
        r@ == snake_of(s@),
{
    heck::ToSnakeCase::to_snake_case(s)
}

/// The name of a generated function: the method and path joined by an
/// underscore, folded to snake case.
pub open spec fn spec_name(method: Seq<char>, path: Seq<char>) -> Seq<char> {
    snake_of(method + "_"@ + path)
}

/// Generate the name of a function.
pub fn name(method: &str, path: &str) -> (r: String)
    ensures
        r@ == spec_name(method@, path@),
{
    let mut joined = method.to_owned();
    joined.append("_");
    joined.append(path);
    to_snake_case(joined.as_str())
}

/// `indent_level` copies of the four-space indentation unit.
pub open spec fn spec_indents(n: nat) -> Seq<char>
    decreases n,
{
    if n == 0 {
        Seq::empty()
    } else {
        spec_indents((n - 1) as nat) + "    "@
    }
}

/// Generate an amount of indentations.
pub fn indents(indent_level: usize) -> (r: String)
    ensures
        r@ == spec_indents(indent_level as nat),
{
    let mut acc = String::new();
    let mut k: usize = 0;
    proof {
        assert(acc@ =~= spec_indents(0));
    }
    while k < indent_level
        invariant
            0 <= k <= indent_level,
            acc@ == spec_indents(k as nat),
        decreases indent_level - k,
    {
        acc.append("    ");
        k = k + 1;
    }
    acc
}

/// The conversion code turning the variable `name` into a URL string, when a
/// trivial conversion exists: scalars stringify directly, booleans become
/// lowercase `true`/`false`, and an optional scalar contributes nothing when
/// absent.
pub open spec fn spec_var_to_url_str(name: Seq<char>, t: TypeV) -> Option<Seq<char>>
    decreases t,
{
    match t {
        TypeV::String => Some("str("@ + name + ")"@),
        TypeV::Float => Some("str("@ + name + ")"@),
        TypeV::Integer => Some("str("@ + name + ")"@),
        TypeV::Bool => Some("(\"true\" if "@ + name + " else \"false\")"@),
        TypeV::Option(t2) => match spec_var_to_url_str(name, *t2) {
            None => None,
            Some(inner) => Some("("@ + inner + " if "@ + name + " is not None else None)"@),
        },
        _ => None,
    }
}

/// From a variable, construct conversion code for turning it into a URL
/// string. If this function returns `None`, there is no trivial conversion
/// method.
pub fn var_to_url_str(name: &str, ty: &Type) -> (r: Option<String>)
    ensures
        match r {
            Some(s) => spec_var_to_url_str(name@, type_view(*ty)) == Some(s@),
            None => spec_var_to_url_str(name@, type_view(*ty)) is None,
        },
    decreases ty,
{
    match ty {
        Type::String | Type::Float | Type::Integer => {
            let mut s = String::from_str("str(");
            s.append(name);
            s.append(")");
            Some(s)
        },
        Type::Bool => {
            let mut s = String::from_str("(\"true\" if ");
            s.append(name);
            s.append(" else \"false\")");
            Some(s)
        },
        Type::Option(t2) => {
            match var_to_url_str(name, t2) {
                None => None,
                Some(inner) => {
                    let mut s = String::from_str("(");
                    s.append(inner.as_str());
                    s.append(" if ");
                    s.append(name);
                    s.append(" is not None else None)");
                    Some(s)
                },
            }
        },
        _ => None,
    }
}

/// The rendering of one argument, with no default.
pub open spec fn spec_arg_plain(a: ArgumentV) -> Seq<char> {
    a.name + ": "@ + spec_type_to_string(a.ty, false) + ", "@
}

/// The rendering of one optional argument, defaulted to absent.
pub open spec fn spec_arg_defaulted(a: ArgumentV) -> Seq<char> {
    a.name + ": "@ + spec_type_to_string(a.ty, false) + " = None, "@
}

/// The body arguments of the list, rendered in order.
pub open spec fn spec_args_body(args: Seq<ArgumentV>) -> Seq<char>
    decreases args,
{
    if args.len() == 0 {
        Seq::empty()
    } else {
        (if args[0].location is Body {
            spec_arg_plain(args[0])
        } else {
            Seq::empty()
        }) + spec_args_body(args.drop_first())
    }
}

/// Whether an argument's location is one the signature renders: path or
/// query. An argument with an unrecognized location is carried but never
/// rendered.
pub open spec fn spec_renders_in_signature(a: ArgumentV) -> bool {
    a.location is Path || a.location is Query
}

/// The required path and query arguments of the list, rendered in order.
pub open spec fn spec_args_required(args: Seq<ArgumentV>) -> Seq<char>
    decreases args,
{
    if args.len() == 0 {
        Seq::empty()
    } else {
        (if spec_renders_in_signature(args[0]) && !(args[0].ty is Option) {
            spec_arg_plain(args[0])
        } else {
            Seq::empty()
        }) + spec_args_required(args.drop_first())
    }
}

/// The optional path and query arguments of the list, rendered in order and
/// defaulted to absent.
pub open spec fn spec_args_optional(args: Seq<ArgumentV>) -> Seq<char>
    decreases args,
{
    if args.len() == 0 {
        Seq::empty()
    } else {
        (if spec_renders_in_signature(args[0]) && args[0].ty is Option {
            spec_arg_defaulted(args[0])
        } else {
            Seq::empty()
        }) + spec_args_optional(args.drop_first())
    }
}

/// The rendered argument list: the body argument first, then required
/// non-body arguments, then optional non-body arguments last, each of the
/// latter defaulted to absent. Arguments with an unrecognized location are
/// left out.
pub open spec fn spec_arguments(args: Seq<ArgumentV>) -> Seq<char> {
    spec_args_body(args) + spec_args_required(args) + spec_args_optional(args)
}

/// Render one argument (plain or defaulted) into `acc`.
fn push_arg(acc: &mut String, a: &Argument, defaulted: bool)
    ensures
        final(acc)@ == old(acc)@ + (if defaulted {
            spec_arg_defaulted(a@)
        } else {
            spec_arg_plain(a@)
        }),
{
    acc.append(a.name.as_str());
    acc.append(": ");
    let t = type_to_string(&a.ty, false);
    acc.append(t.as_str());
    if defaulted {
        acc.append(" = None, ");
    } else {
        acc.append(", ");
    }
    proof {
        if defaulted {
            assert(acc@ =~= old(acc)@ + spec_arg_defaulted(a@));
        } else {
            assert(acc@ =~= old(acc)@ + spec_arg_plain(a@));
        }
    }
}

/// Generate the arguments that a function takes.
///
/// These go between the `(` and `)`. The return value will not contain any
/// newlines.
pub fn arguments(args: &Vec<Argument>) -> (r: String)
    ensures
        r@ == spec_arguments(crate::parse::args_view(args@)),
{
    let ghost av = crate::parse::args_view(args@);
    let n = args.len();
    let mut acc = String::new();
    let mut i: usize = 0;
    proof {
        assert(av.skip(0) =~= av);
        assert(acc@ =~= Seq::<char>::empty());
    }
    while i < n
        invariant
            0 <= i <= n,
            n == args@.len(),
            av == crate::parse::args_view(args@),
            av.len() == n,
            acc@ + spec_args_body(av.skip(i as int)) == spec_args_body(av),
        decreases n - i,
    {
        proof {
            assert(av.skip(i as int)[0] == av[i as int]);
            assert(av.skip(i as int).drop_first() =~= av.skip(i as int + 1));
        }
        let is_body = match args[i].location {
            Location::Body => true,
            _ => false,
        };
        if is_body {
            push_arg(&mut acc, &args[i], false);
        }
        proof {
            assert(acc@ + spec_args_body(av.skip(i as int + 1)) =~= spec_args_body(av));
        }
        i = i + 1;
    }
    proof {
        assert(av.skip(n as int) =~= Seq::<ArgumentV>::empty());
        assert(av.skip(0) =~= av);
    }
    let mut i: usize = 0;
    while i < n
        invariant
            0 <= i <= n,
            n == args@.len(),
            av == crate::parse::args_view(args@),
            av.len() == n,
            acc@ + spec_args_required(av.skip(i as int)) == spec_args_body(av)
                + spec_args_required(av),
        decreases n - i,
    {
        proof {
            assert(av.skip(i as int)[0] == av[i as int]);
            assert(av.skip(i as int).drop_first() =~= av.skip(i as int + 1));
        }
        let renders = match args[i].location {
            Location::Path => true,
            Location::Query => true,
            _ => false,
        };
        let is_opt = match args[i].ty {
            Type::Option(_) => true,
            _ => false,
        };
        if renders && !is_opt {
            push_arg(&mut acc, &args[i], false);
        }
        proof {
            assert(acc@ + spec_args_required(av.skip(i as int + 1)) =~= spec_args_body(av)
                + spec_args_required(av));
        }
        i = i + 1;
    }
    proof {
        assert(av.skip(n as int) =~= Seq::<ArgumentV>::empty());
        assert(av.skip(0) =~= av);
    }
    let mut i: usize = 0;
    while i < n
        invariant
            0 <= i <= n,
            n == args@.len(),
            av == crate::parse::args_view(args@),
            av.len() == n,
            acc@ + spec_args_optional(av.skip(i as int)) == spec_args_body(av)
                + spec_args_required(av) + spec_args_optional(av),
        decreases n - i,
    {
        proof {
            assert(av.skip(i as int)[0] == av[i as int]);
            assert(av.skip(i as int).drop_first() =~= av.skip(i as int + 1));
        }
        let renders = match args[i].location {
            Location::Path => true,
            Location::Query => true,
            _ => false,
        };
        let is_opt = match args[i].ty {
            Type::Option(_) => true,
            _ => false,
        };
        if renders && is_opt {
            push_arg(&mut acc, &args[i], true);
        }
        proof {
            assert(acc@ + spec_args_optional(av.skip(i as int + 1)) =~= spec_args_body(av)
                + spec_args_required(av) + spec_args_optional(av));
        }
        i = i + 1;
    }
    proof {
        assert(av.skip(n as int) =~= Seq::<ArgumentV>::empty());
        assert(acc@ =~= spec_arguments(av));
    }
    acc
}

/// The amount of unique types a function can return.
#[derive(Debug, Clone, Copy, PartialEq, Eq, Structural)]
pub enum Return {
    /// Returns one type.
    One,
    /// Returns multiple types.
    Many,
}

/// Whether every response type of `rs` is structurally equal to the first:
/// structural equality of the type model is what counts as the same
/// response type.
pub open spec fn spec_all_same(rs: Seq<(Seq<char>, TypeV)>) -> bool {
    forall|i: int| 0 <= i < rs.len() ==> #[trigger] rs[i].1 == rs[0].1
}

/// The rendering of one union alternative, tagged by its originating status
/// code as a literal discriminant.
pub open spec fn spec_union_item(code: Seq<char>, t: TypeV) -> Seq<char> {
    "Tuple[Literal[\""@ + code + "\"], "@ + spec_type_to_string(t, false) + "], "@
}

/// The rendering of all union alternatives, one per status code, in map
/// order.
pub open spec fn spec_union_items(rs: Seq<(Seq<char>, TypeV)>) -> Seq<char>
    decreases rs,
{
    if rs.len() == 0 {
        Seq::empty()
    } else {
        spec_union_item(rs[0].0, rs[0].1) + spec_union_items(rs.drop_first())
    }
}

/// The generated return type and its arity: zero declared responses yield
/// none; exactly one distinct response type across all status codes yields
/// that type directly; two or more distinct response types yield a
/// discriminated union with one alternative per status code.
pub open spec fn spec_return_type(rs: Seq<(Seq<char>, TypeV)>) -> (Seq<char>, Return) {
    if rs.len() == 0 {
        ("None"@, Return::One)
    } else if spec_all_same(rs) {
        (spec_type_to_string(rs[0].1, false), Return::One)
    } else {
        ("Union["@ + spec_union_items(rs) + "]"@, Return::Many)
    }
}

/// Generate the type that a function returns.
///
/// This is the part that goes between the `->` and the `:`. The return value
/// will not contain any newlines.
pub fn return_type(responses: &Responses) -> (r: (String, Return))
    ensures
        (r.0@, r.1) == spec_return_type(responses@),
{
    let ghost rv = responses@;
    let n = responses.responses.len();
    proof {
        assert(rv.len() == n);
    }
    if n == 0 {
        return (String::from_str("None"), Return::One);
    }
    let first = responses.responses.val_at(0);
    let mut all_same: bool = true;
    let mut i: usize = 0;
    proof {
        assert(rv[0] == (
            responses.responses.entries@[0].0@,
            type_view(responses.responses.entries@[0].1),
        ));
    }
    while i < n
        invariant
            0 <= i <= n,
            n == responses.responses.entries@.len(),
            rv == responses@,
            rv.len() == n,
            n > 0,
            *first == responses.responses.entries@[0].1,
            type_view(*first) == rv[0].1,
            all_same ==> (forall|k: int| 0 <= k < i ==> #[trigger] rv[k].1 == rv[0].1),
            !all_same ==> !spec_all_same(rv),
        decreases n - i,
    {
        let cur = responses.responses.val_at(i);
        proof {
            assert(rv[i as int] == (
                responses.responses.entries@[i as int].0@,
                type_view(responses.responses.entries@[i as int].1),
            ));
        }
        if !Type::structurally_eq(cur, first) {
            all_same = false;
            proof {
                assert(!spec_all_same(rv)) by {
                    assert(rv[i as int].1 != rv[0].1);
                }
            }
        }
        i = i + 1;
    }
    if all_same {
        (type_to_string(first, false), Return::One)
    } else {
        let mut acc = String::from_str("Union[");
        let mut j: usize = 0;
        proof {
            assert(rv.skip(0) =~= rv);
            assert(acc@ =~= "Union["@);
        }
        while j < n
            invariant
                0 <= j <= n,
                n == responses.responses.entries@.len(),
                rv == responses@,
                rv.len() == n,
                acc@ + spec_union_items(rv.skip(j as int)) == "Union["@ + spec_union_items(rv),
            decreases n - j,
        {
            proof {
                assert(rv.skip(j as int)[0] == rv[j as int]);
                assert(rv.skip(j as int).drop_first() =~= rv.skip(j as int + 1));
                assert(rv[j as int] == (
                    responses.responses.entries@[j as int].0@,
                    type_view(responses.responses.entries@[j as int].1),
                ));
            }
            let ghost mid = acc@;
            acc.append("Tuple[Literal[\"");
            acc.append(responses.responses.key_at(j).as_str());
            acc.append("\"], ");
            let t = type_to_string(responses.responses.val_at(j), false);
            acc.append(t.as_str());
            acc.append("], ");
            proof {
                assert(acc@ =~= mid + spec_union_item(rv[j as int].0, rv[j as int].1));
                assert(acc@ + spec_union_items(rv.skip(j as int + 1)) =~= "Union["@
                    + spec_union_items(rv));
            }
            j = j + 1;
        }
        proof {
            assert(rv.skip(n as int) =~= Seq::<(Seq<char>, TypeV)>::empty());
        }
        acc.append("]");
        proof {
            assert(acc@ =~= "Union["@ + spec_union_items(rv) + "]"@);
        }
        (acc, Return::Many)
    }
}

/// The generated documentation block: always emitted, with an explicit empty
/// placeholder when no description exists, for structural symmetry.
pub open spec fn spec_documentation(level: nat, docs: Option<Seq<char>>) -> Seq<char> {
    match docs {
        Some(x) => spec_indents(level) + "\"\"\"\n"@ + x + "\n"@ + spec_indents(level)
            + "\"\"\"\n"@,
        None => spec_indents(level) + "\"\"\"\n"@ + spec_indents(level) + "\"\"\"\n"@,
    }
}

/// Generate the documentation for a function.
pub fn documentation(indent_level: usize, docs: Option<&String>) -> (r: String)
    ensures
        r@ == spec_documentation(indent_level as nat, match docs {
            Some(d) => Some(d@),
            None => None,
        }),
{
    let i = indents(indent_level);
    let mut acc = String::new();
    match docs {
        Some(x) => {
            acc.append(i.as_str());
            acc.append("\"\"\"\n");
            acc.append(x.as_str());
            acc.append("\n");
            acc.append(i.as_str());
            acc.append("\"\"\"\n");
            proof {
                assert(acc@ =~= spec_documentation(indent_level as nat, Some(x@)));
            }
        },
        None => {
            acc.append(i.as_str());
            acc.append("\"\"\"\n");
            acc.append(i.as_str());
            acc.append("\"\"\"\n");
            proof {
                assert(acc@ =~= spec_documentation(indent_level as nat, None));
            }
        },
    }
    acc
}


/// Whether any argument is query-located.
pub open spec fn spec_has_query(args: Seq<ArgumentV>) -> bool {
    exists|i: int| 0 <= i < args.len() && (#[trigger] args[i]).location is Query
}

/// Whether any argument is body-located.
pub open spec fn spec_has_body(args: Seq<ArgumentV>) -> bool {
    exists|i: int| 0 <= i < args.len() && (#[trigger] args[i]).location is Body
}

/// The element type of a list-like query argument: a list or set, possibly
/// wrapped in one optional, together with whether it was so wrapped.
pub open spec fn spec_list_item_ty(t: TypeV) -> Option<(TypeV, bool)> {
    match t {
        TypeV::List(y) => Some((*y, false)),
        TypeV::SetOf(y) => Some((*y, false)),
        TypeV::Option(y) => match *y {
            TypeV::List(z) => Some((*z, true)),
            TypeV::SetOf(z) => Some((*z, true)),
            _ => None,
        },
        _ => None,
    }
}

/// The element type of a list-like query argument; see
/// [`spec_list_item_ty`].
fn list_item_ty(t: &Type) -> (r: Option<(&Type, bool)>)
    ensures
        match r {
            Some(p) => spec_list_item_ty(type_view(*t)) == Some((type_view(*p.0), p.1)),
            None => spec_list_item_ty(type_view(*t)) is None,
        },
{
    match t {
        Type::List(y) => Some((&**y, false)),
        Type::SetOf(y) => Some((&**y, false)),
        Type::Option(y) => match &**y {
            Type::List(z) => {
                proof {
                    assert(type_view(*t) == TypeV::Option(Box::new(type_view(**y))));
                    assert(type_view(**y) == TypeV::List(Box::new(type_view(**z))));
                }
                Some((&**z, true))
            },
            Type::SetOf(z) => {
                proof {
                    assert(type_view(*t) == TypeV::Option(Box::new(type_view(**y))));
                    assert(type_view(**y) == TypeV::SetOf(Box::new(type_view(**z))));
                }
                Some((&**z, true))
            },
            _ => {
                proof {
                    assert(type_view(*t) == TypeV::Option(Box::new(type_view(**y))));
                }
                None
            },
        },
        _ => None,
    }
}

/// The rendering of one trivially convertible query parameter's entry in
/// the initial key/value list.
pub open spec fn spec_init_item(level: nat, a: ArgumentV) -> Seq<char> {
    if a.location is Query {
        match spec_var_to_url_str(a.name, a.ty) {
            Some(conv) => spec_indents(level + 1) + "(\""@ + a.name + "\", "@ + conv + "),\n"@,
            None => Seq::empty(),
        }
    } else {
        Seq::empty()
    }
}

/// The initial key/value list entries, in argument order.
pub open spec fn spec_init_items(args: Seq<ArgumentV>, level: nat) -> Seq<char>
    decreases args,
{
    if args.len() == 0 {
        Seq::empty()
    } else {
        spec_init_item(level, args[0]) + spec_init_items(args.drop_first(), level)
    }
}

/// The rendering of one list-like query parameter's expansion into one
/// key/value pair per element, guarded when the argument is optional.
pub open spec fn spec_extend_item(level: nat, a: ArgumentV) -> Seq<char> {
    if a.location is Query {
        match spec_list_item_ty(a.ty) {
            Some(p) => match spec_var_to_url_str("x"@, p.0) {
                Some(conv) => (if p.1 {
                    spec_indents(level) + "if "@ + a.name + " is not None:\n"@
                } else {
                    Seq::empty()
                }) + spec_indents(level + (if p.1 { 1nat } else { 0nat }))
                    + "params.extend([(\""@ + a.name + "\", "@ + conv + ") for x in "@ + a.name
                    + "])\n"@,
                None => Seq::empty(),
            },
            None => Seq::empty(),
        }
    } else {
        Seq::empty()
    }
}

/// The list expansions, in argument order.
pub open spec fn spec_extend_items(args: Seq<ArgumentV>, level: nat) -> Seq<char>
    decreases args,
{
    if args.len() == 0 {
        Seq::empty()
    } else {
        spec_extend_item(level, args[0]) + spec_extend_items(args.drop_first(), level)
    }
}

/// The code that builds the URL query parameters, when any argument is
/// query-located: the initial list of trivially converted values, the
/// filtering out of absent optionals, and one key/value pair per element of
/// each list-like argument.
pub open spec fn spec_query_param_arguments(level: nat, args: Seq<ArgumentV>) -> Option<
    Seq<char>,
> {
    if !spec_has_query(args) {
        None
    } else {
        Some(
            spec_indents(level) + "init_params: List[Tuple[str, Optional[str]]] = [\n"@
                + spec_init_items(args, level) + spec_indents(level) + "]\n"@ + spec_indents(
                level,
            ) + "params: List[Tuple[str, str]] = [(k, v) for k, v in init_params if v is not None]\n"@
                + spec_extend_items(args, level) + "\n"@,
        )
    }
}

/// Render one initial key/value entry into `acc`.
fn push_init_item(acc: &mut String, indent_level: usize, a: &Argument)
    requires
        indent_level < usize::MAX,
    ensures
        final(acc)@ == old(acc)@ + spec_init_item(indent_level as nat, a@),
{
    let is_query = match a.location {
        Location::Query => true,
        _ => false,
    };
    if !is_query {
        return ;
    }
    match var_to_url_str(a.name.as_str(), &a.ty) {
        None => {},
        Some(conv) => {
            let ind = indents(indent_level + 1);
            acc.append(ind.as_str());
            acc.append("(\"");
            acc.append(a.name.as_str());
            acc.append("\", ");
            acc.append(conv.as_str());
            acc.append("),\n");
            proof {
                assert(acc@ =~= old(acc)@ + spec_init_item(indent_level as nat, a@));
            }
        },
    }
}

/// Render one list expansion into `acc`.
fn push_extend_item(acc: &mut String, indent_level: usize, a: &Argument)
    requires
        indent_level < usize::MAX,
    ensures
        final(acc)@ == old(acc)@ + spec_extend_item(indent_level as nat, a@),
{
    let is_query = match a.location {
        Location::Query => true,
        _ => false,
    };
    if !is_query {
        return ;
    }
    match list_item_ty(&a.ty) {
        None => {},
        Some(p) => {
            match var_to_url_str("x", p.0) {
                None => {},
                Some(conv) => {
                    if p.1 {
                        let ind = indents(indent_level);
                        acc.append(ind.as_str());
                        acc.append("if ");
                        acc.append(a.name.as_str());
                        acc.append(" is not None:\n");
                    }
                    let ind2 = indents(if p.1 {
                        indent_level + 1
                    } else {
                        indent_level
                    });
                    acc.append(ind2.as_str());
                    acc.append("params.extend([(\"");
                    acc.append(a.name.as_str());
                    acc.append("\", ");
                    acc.append(conv.as_str());
                    acc.append(") for x in ");
                    acc.append(a.name.as_str());
                    acc.append("])\n");
                    proof {
                        assert(acc@ =~= old(acc)@ + spec_extend_item(indent_level as nat, a@));
                    }
                },
            }
        },
    }
}

/// Generate any URL query parameters required to make the HTTP request.
///
/// The first string in the tuple is the code that builds the query, and the
/// second string is what should be included in the HTTP call.
pub fn query_param_arguments(indent_level: usize, function: &Function) -> (r: Option<
    (String, &'static str),
>)
    requires
        indent_level < usize::MAX,
    ensures
        match r {
            Some(t) => spec_query_param_arguments(
                indent_level as nat,
                crate::parse::args_view(function.arguments@),
            ) == Some(t.0@) && t.1@ == "params=params, "@,
            None => spec_query_param_arguments(
                indent_level as nat,
                crate::parse::args_view(function.arguments@),
            ) is None,
        },
{
    let ghost av = crate::parse::args_view(function.arguments@);
    let n = function.arguments.len();
    let mut has_query: bool = false;
    let mut i: usize = 0;
    while i < n
        invariant
            0 <= i <= n,
            n == function.arguments@.len(),
            av == crate::parse::args_view(function.arguments@),
            av.len() == n,
            has_query ==> spec_has_query(av),
            !has_query ==> (forall|k: int| 0 <= k < i ==> !((#[trigger] av[k]).location is Query)),
        decreases n - i,
    {
        let is_query = match function.arguments[i].location {
            Location::Query => true,
            _ => false,
        };
        if is_query {
            has_query = true;
            proof {
                assert(av[i as int].location is Query);
            }
        }
        i = i + 1;
    }
    if !has_query {
        return None;
    }
    let ind = indents(indent_level);
    let mut code = String::new();
    code.append(ind.as_str());
    code.append("init_params: List[Tuple[str, Optional[str]]] = [\n");
    let ghost base1 = code@;
    let mut i: usize = 0;
    proof {
        assert(av.skip(0) =~= av);
    }
    while i < n
        invariant
            0 <= i <= n,
            n == function.arguments@.len(),
            av == crate::parse::args_view(function.arguments@),
            av.len() == n,
            indent_level < usize::MAX,
            code@ + spec_init_items(av.skip(i as int), indent_level as nat) == base1
                + spec_init_items(av, indent_level as nat),
        decreases n - i,
    {
        proof {
            assert(av.skip(i as int)[0] == av[i as int]);
            assert(av.skip(i as int).drop_first() =~= av.skip(i as int + 1));
        }
        push_init_item(&mut code, indent_level, &function.arguments[i]);
        proof {
            assert(code@ + spec_init_items(av.skip(i as int + 1), indent_level as nat) =~= base1
                + spec_init_items(av, indent_level as nat));
        }
        i = i + 1;
    }
    proof {
        assert(av.skip(n as int) =~= Seq::<ArgumentV>::empty());
    }
    code.append(ind.as_str());
    code.append("]\n");
    code.append(ind.as_str());
    code.append(
        "params: List[Tuple[str, str]] = [(k, v) for k, v in init_params if v is not None]\n",
    );
    let ghost base2 = code@;
    let mut i: usize = 0;
    proof {
        assert(av.skip(0) =~= av);
    }
    while i < n
        invariant
            0 <= i <= n,
            n == function.arguments@.len(),
            av == crate::parse::args_view(function.arguments@),
            av.len() == n,
            indent_level < usize::MAX,
            code@ + spec_extend_items(av.skip(i as int), indent_level as nat) == base2
                + spec_extend_items(av, indent_level as nat),
        decreases n - i,
    {
        proof {
            assert(av.skip(i as int)[0] == av[i as int]);
            assert(av.skip(i as int).drop_first() =~= av.skip(i as int + 1));
        }
        push_extend_item(&mut code, indent_level, &function.arguments[i]);
        proof {
            assert(code@ + spec_extend_items(av.skip(i as int + 1), indent_level as nat) =~= base2
                + spec_extend_items(av, indent_level as nat));
        }
        i = i + 1;
    }
    proof {
        assert(av.skip(n as int) =~= Seq::<ArgumentV>::empty());
    }
    code.append("\n");
    proof {
        assert(code@ =~= spec_indents(indent_level as nat)
            + "init_params: List[Tuple[str, Optional[str]]] = [\n"@ + spec_init_items(
            av,
            indent_level as nat,
        ) + spec_indents(indent_level as nat) + "]\n"@ + spec_indents(indent_level as nat)
            + "params: List[Tuple[str, str]] = [(k, v) for k, v in init_params if v is not None]\n"@
            + spec_extend_items(av, indent_level as nat) + "\n"@);
    }
    Some((code, "params=params, "))
}


/// Whether any declared scheme name resolves in the scheme map to basic
/// auth.
pub open spec fn spec_any_basic(
    names: Seq<Seq<char>>,
    smap: Seq<(Seq<char>, SecurityScheme)>,
) -> bool {
    exists|i: int|
        0 <= i < names.len() && spec_kv_get(smap, #[trigger] names[i]) == Some(
            SecurityScheme::BasicAuth,
        )
}

/// The rendering of one status branch.
pub open spec fn spec_one_branch(level: nat, status: Seq<char>, t: TypeV, many: bool) -> Seq<
    char,
> {
    spec_indents(level) + "if resp.status == "@ + status + ":\n"@ + (if many {
        spec_indents(level + 1) + "return (\""@ + status + "\", parse_obj_as("@
            + spec_type_to_string(t, false) + ", await resp.json()))\n"@
    } else {
        spec_indents(level + 1) + "return parse_obj_as("@ + spec_type_to_string(t, false)
            + ", await resp.json())\n"@
    })
}

/// The rendering of the status branches: one `if` per declared response, in
/// map order, whose body parses the payload into that status's type, tagging
/// it with the status when the return type is a discriminated union.
pub open spec fn spec_status_branches(
    rs: Seq<(Seq<char>, TypeV)>,
    level: nat,
    arity: Return,
) -> Seq<char>
    decreases rs,
{
    if rs.len() == 0 {
        Seq::empty()
    } else {
        spec_one_branch(level, rs[0].0, rs[0].1, arity is Many) + spec_status_branches(
            rs.drop_first(),
            level,
            arity,
        )
    }
}

/// The rendering of a function's body: the query builder when any argument
/// is query-located, the request line with its conditional auth, query and
/// body arguments, then one branch per declared response status and a
/// terminal failure branch for an unmatched status. With no declared
/// responses, any outcome is treated as success: nothing after the call
/// inspects the status.
pub open spec fn spec_body(
    level: nat,
    method: Seq<char>,
    path: Seq<char>,
    f: FunctionV,
    smap: Seq<(Seq<char>, SecurityScheme)>,
) -> Seq<char> {
    let auth = if spec_any_basic(f.security_schemes, smap) {
        "auth=self._auth, "@
    } else {
        Seq::empty()
    };
    let qtext = match spec_query_param_arguments(level, f.arguments) {
        None => Seq::empty(),
        Some(t) => t,
    };
    let params = match spec_query_param_arguments(level, f.arguments) {
        None => Seq::empty(),
        Some(t) => "params=params, "@,
    };
    let bodyargs = if spec_has_body(f.arguments) {
        "json=body.dict(by_alias=True), "@
    } else {
        Seq::empty()
    };
    qtext + spec_indents(level) + "resp = await self._session."@ + method
        + "(f\"{self._base_url}"@ + path + "\", "@ + auth + params + bodyargs + ")\n"@ + (
    if f.responses.len() == 0 {
        Seq::empty()
    } else {
        "\n"@
    }) + spec_status_branches(f.responses, level, spec_return_type(f.responses).1) + (
    if f.responses.len() == 0 {
        Seq::empty()
    } else {
        "\n"@ + spec_indents(level)
            + "raise aiohttp.ClientResponseError(resp.request_info, (resp,), status=resp.status)"@
    })
}

/// Generate the body of a function.
#[verifier::rlimit(100)]
pub fn body(
    indent_level: usize,
    method: &str,
    path: &str,
    function: &Function,
    security_schemes: &OrdMap<SecurityScheme>,
) -> (r: String)
    requires
        indent_level < usize::MAX,
    ensures
        r@ == spec_body(
            indent_level as nat,
            method@,
            path@,
            crate::parse::function_view(*function),
            map_kv_view(security_schemes.entries@, scheme_view_fn()),
        ),
{
    let ghost fv = crate::parse::function_view(*function);
    let ghost smap = map_kv_view(security_schemes.entries@, scheme_view_fn());
    let ghost names = fv.security_schemes;
    let nschemes = function.security_schemes.len();
    let mut any_basic: bool = false;
    let mut i: usize = 0;
    proof {
        assert(names.len() == nschemes);
    }
    while i < nschemes
        invariant
            0 <= i <= nschemes,
            nschemes == function.security_schemes@.len(),
            names == crate::parse::strs_view(function.security_schemes@),
            names.len() == nschemes,
            smap == map_kv_view(security_schemes.entries@, scheme_view_fn()),
            any_basic ==> spec_any_basic(names, smap),
            !any_basic ==> (forall|k: int|
                0 <= k < i ==> spec_kv_get(smap, #[trigger] names[k]) != Some(
                    SecurityScheme::BasicAuth,
                )),
        decreases nschemes - i,
    {
        proof {
            assert(names[i as int] == function.security_schemes@[i as int]@);
            lemma_kv_get_map_view(
                security_schemes.entries@,
                function.security_schemes@[i as int]@,
                scheme_view_fn(),
            );
        }
        match security_schemes.get(function.security_schemes[i].as_str()) {
            Some(s) => {
                if *s == SecurityScheme::BasicAuth {
                    any_basic = true;
                    proof {
                        assert(spec_kv_get(smap, names[i as int]) == Some(
                            SecurityScheme::BasicAuth,
                        ));
                    }
                }
            },
            None => {},
        }
        i = i + 1;
    }
    let auth_args: &str = if any_basic {
        "auth=self._auth, "
    } else {
        ""
    };
    proof {
        reveal_strlit("");
        if !any_basic {
            assert(!spec_any_basic(names, smap));
            assert(auth_args@ =~= Seq::<char>::empty());
        }
    }
    let nargs = function.arguments.len();
    let mut has_body_arg: bool = false;
    let mut i: usize = 0;
    let ghost av = crate::parse::args_view(function.arguments@);
    while i < nargs
        invariant
            0 <= i <= nargs,
            nargs == function.arguments@.len(),
            av == crate::parse::args_view(function.arguments@),
            av.len() == nargs,
            has_body_arg ==> spec_has_body(av),
            !has_body_arg ==> (forall|k: int|
                0 <= k < i ==> !((#[trigger] av[k]).location is Body)),
        decreases nargs - i,
    {
        let is_body = match function.arguments[i].location {
            Location::Body => true,
            _ => false,
        };
        if is_body {
            has_body_arg = true;
            proof {
                assert(av[i as int].location is Body);
            }
        }
        i = i + 1;
    }
    let body_args: &str = if has_body_arg {
        "json=body.dict(by_alias=True), "
    } else {
        ""
    };
    proof {
        reveal_strlit("");
        if !has_body_arg {
            assert(!spec_has_body(av));
            assert(body_args@ =~= Seq::<char>::empty());
        }
    }
    let mut code = String::new();
    let param_args: &str = match query_param_arguments(indent_level, function) {
        Some(t) => {
            code.append(t.0.as_str());
            t.1
        },
        None => {
            proof {
                reveal_strlit("");
                assert(code@ + Seq::<char>::empty() =~= code@);
            }
            ""
        },
    };
    let ind = indents(indent_level);
    code.append(ind.as_str());
    code.append("resp = await self._session.");
    code.append(method);
    code.append("(f\"{self._base_url}");
    code.append(path);
    code.append("\", ");
    code.append(auth_args);
    code.append(param_args);
    code.append(body_args);
    code.append(")\n");
    let nresp = function.responses.responses.len();
    proof {
        assert(fv.responses.len() == nresp);
    }
    if nresp > 0 {
        code.append("\n");
    }
    let ghost rv = fv.responses;
    let ghost arity = spec_return_type(rv).1;
    let rt = return_type(&function.responses);
    let many = match rt.1 {
        Return::Many => true,
        Return::One => false,
    };
    let ghost base = code@;
    let mut j: usize = 0;
    proof {
        assert(rv.skip(0) =~= rv);
        assert(rv == function.responses@);
    }
    while j < nresp
        invariant
            0 <= j <= nresp,
            nresp == function.responses.responses.entries@.len(),
            rv == function.responses@,
            rv.len() == nresp,
            indent_level < usize::MAX,
            arity == spec_return_type(rv).1,
            many == (arity is Many),
            code@ + spec_status_branches(rv.skip(j as int), indent_level as nat, arity) == base
                + spec_status_branches(rv, indent_level as nat, arity),
        decreases nresp - j,
    {
        proof {
            assert(rv.skip(j as int)[0] == rv[j as int]);
            assert(rv.skip(j as int).drop_first() =~= rv.skip(j as int + 1));
            assert(rv[j as int] == (
                function.responses.responses.entries@[j as int].0@,
                type_view(function.responses.responses.entries@[j as int].1),
            ));
        }
        let ghost mid = code@;
        let status = function.responses.responses.key_at(j);
        let ty = function.responses.responses.val_at(j);
        proof {
            assert(status@ == rv[j as int].0);
            assert(type_view(*ty) == rv[j as int].1);
        }
        push_status_branch(&mut code, indent_level, status, ty, many);
        proof {
            assert(code@ == mid + spec_one_branch(
                indent_level as nat,
                rv[j as int].0,
                rv[j as int].1,
                arity is Many,
            ));
            assert(code@ + spec_status_branches(rv.skip(j as int + 1), indent_level as nat, arity)
                =~= base + spec_status_branches(rv, indent_level as nat, arity));
        }
        j = j + 1;
    }
    proof {
        assert(rv.skip(nresp as int) =~= Seq::<(Seq<char>, TypeV)>::empty());
    }
    if nresp > 0 {
        code.append("\n");
        code.append(ind.as_str());
        code.append(
            "raise aiohttp.ClientResponseError(resp.request_info, (resp,), status=resp.status)",
        );
    }
    proof {
        assert(code@ =~= spec_body(indent_level as nat, method@, path@, fv, smap));
    }
    code
}

/// Render one status branch into `code`.
#[verifier::rlimit(100)]
fn push_status_branch(code: &mut String, indent_level: usize, status: &String, ty: &Type, many: bool)
    requires
        indent_level < usize::MAX,
    ensures
        final(code)@ == old(code)@ + spec_one_branch(
            indent_level as nat,
            status@,
            type_view(*ty),
            many,
        ),
{
    let ind = indents(indent_level);
    let ind2 = indents(indent_level + 1);
    code.append(ind.as_str());
    code.append("if resp.status == ");
    code.append(status.as_str());
    code.append(":\n");
    let tystr = type_to_string(ty, false);
    if many {
        code.append(ind2.as_str());
        code.append("return (\"");
        code.append(status.as_str());
        code.append("\", parse_obj_as(");
        code.append(tystr.as_str());
        code.append(", await resp.json()))\n");
    } else {
        code.append(ind2.as_str());
        code.append("return parse_obj_as(");
        code.append(tystr.as_str());
        code.append(", await resp.json())\n");
    }
    proof {
        assert(code@ =~= old(code)@ + spec_one_branch(
            indent_level as nat,
            status@,
            type_view(*ty),
            many,
        ));
    }
}

/// The rendering of a function's signature line.
pub open spec fn spec_signature(
    level: nat,
    method: Seq<char>,
    path: Seq<char>,
    f: FunctionV,
) -> Seq<char> {
    spec_indents(level) + "async def "@ + spec_name(method, path) + "(self, "@ + spec_arguments(
        f.arguments,
    ) + ") -> "@ + spec_return_type(f.responses).0 + ":\n"@
}

/// Generate an entire function signature.
///
/// For example, `async def get_foo_foo_id(self, foo_id: str, ) -> Foo:`.
/// This includes the requested indentation and a single trailing newline.
pub fn signature(indent_level: usize, method: &str, path: &str, function: &Function) -> (r:
    String)
    ensures
        r@ == spec_signature(
            indent_level as nat,
            method@,
            path@,
            crate::parse::function_view(*function),
        ),
{
    let ind = indents(indent_level);
    let mut code = String::new();
    code.append(ind.as_str());
    code.append("async def ");
    let fn_name = name(method, path);
    code.append(fn_name.as_str());
    code.append("(self, ");
    let args = arguments(&function.arguments);
    code.append(args.as_str());
    code.append(") -> ");
    let rt = return_type(&function.responses);
    code.append(rt.0.as_str());
    code.append(":\n");
    proof {
        assert(code@ =~= spec_signature(
            indent_level as nat,
            method@,
            path@,
            crate::parse::function_view(*function),
        ));
    }
    code
}

/// The rendering of every resolved function, in (method, path) order:
/// signature, documentation, body, and a blank gap.
pub open spec fn spec_functions_text(
    fns: Seq<((Seq<char>, Seq<char>), FunctionV)>,
    smap: Seq<(Seq<char>, SecurityScheme)>,
    acc: Seq<char>,
) -> Seq<char>
    decreases fns,
{
    if fns.len() == 0 {
        acc
    } else {
        spec_functions_text(
            fns.drop_first(),
            smap,
            acc + spec_signature(1, fns[0].0.0, fns[0].0.1, fns[0].1) + spec_documentation(
                2,
                fns[0].1.docs,
            ) + spec_body(2, fns[0].0.0, fns[0].0.1, fns[0].1, smap) + "\n\n"@,
        )
    }
}

/// What generating the functions block yields: the rendering of every
/// resolved function, or the first fatal resolution error.
pub open spec fn spec_functions(
    paths: Seq<(String, PathItem)>,
    smap: Seq<(Seq<char>, SecurityScheme)>,
) -> Result<Seq<char>, ParseKind> {
    match spec_try_from_paths(paths, Seq::empty()) {
        Err(e) => Err(e),
        Ok(fns) => Ok(spec_functions_text(fns, smap, Seq::empty())),
    }
}

/// Generates a function for each method available on each HTTP path, in
/// (method, path) order.
pub fn functions(
    paths: &Vec<(String, PathItem)>,
    security_schemes: &OrdMap<SecurityScheme>,
) -> (r: Result<String, ParseKind>)
    ensures
        match r {
            Ok(code) => spec_functions(
                paths@,
                map_kv_view(security_schemes.entries@, scheme_view_fn()),
            ) == Ok::<Seq<char>, ParseKind>(code@),
            Err(e) => spec_functions(
                paths@,
                map_kv_view(security_schemes.entries@, scheme_view_fn()),
            ) == Err::<Seq<char>, ParseKind>(e),
        },
{
    let ghost smap = map_kv_view(security_schemes.entries@, scheme_view_fn());
    let fs = match Function::try_from_paths(paths) {
        Err(e) => {
            return Err(e);
        },
        Ok(fs) => fs,
    };
    let ghost fns = map_pair_view(fs.entries@, crate::parse::function_view_fn());
    let n = fs.len();
    let mut code = String::new();
    let mut i: usize = 0;
    proof {
        assert(fns.skip(0) =~= fns);
        assert(fns.len() == n);
    }
    while i < n
        invariant
            0 <= i <= n,
            n == fs.entries@.len(),
            fns == map_pair_view(fs.entries@, crate::parse::function_view_fn()),
            fns.len() == n,
            smap == map_kv_view(security_schemes.entries@, scheme_view_fn()),
            spec_functions_text(fns, smap, Seq::empty()) == spec_functions_text(
                fns.skip(i as int),
                smap,
                code@,
            ),
        decreases n - i,
    {
        proof {
            assert(fns.skip(i as int)[0] == fns[i as int]);
            assert(fns.skip(i as int).drop_first() =~= fns.skip(i as int + 1));
            assert(fns[i as int] == (
                (fs.entries@[i as int].0.0@, fs.entries@[i as int].0.1@),
                crate::parse::function_view(fs.entries@[i as int].1),
            ));
        }
        let key = fs.key_at(i);
        let function = fs.val_at(i);
        let sig = signature(1, key.0.as_str(), key.1.as_str(), function);
        code.append(sig.as_str());
        let docs = documentation(2, match &function.docs {
            Some(d) => Some(d),
            None => None,
        });
        code.append(docs.as_str());
        let b = body(2, key.0.as_str(), key.1.as_str(), function, security_schemes);
        code.append(b.as_str());
        code.append("\n\n");
        i = i + 1;
    }
    proof {
        assert(fns.skip(n as int) =~= Seq::<((Seq<char>, Seq<char>), FunctionV)>::empty());
    }
    Ok(code)
}

} // verus!
