//! Function parsing.

use vstd::prelude::*;

use crate::model::{
    Operation, ParameterEntry, ParameterValue, PathItem, RequestBodyEntry,
};
use crate::ordmap::{
    lemma_map_pair_view_insert, lemma_map_pair_view_sorted, map_pair_view, spec_pair_insert_kv,
    spec_pair_sorted_kv, PairMap,
};
use crate::parse::error::ParseKind;
use crate::parse::responses::{
    content_json_type, spec_content_type, spec_responses_from, types_wf_kv, Responses,
};
use crate::parse::types::{
    opt_str_view, spec_resolve, type_v_wf, type_view, Type, TypeV,
};
use crate::strings::str_eq;

verus! {

broadcast use vstd::seq::axiom_seq_index_decreases, vstd::std_specs::vec::group_vec_axioms;

/// Where an argument is passed to the HTTP request.
#[derive(Debug, Clone, Copy, PartialEq, Eq, Structural)]
pub enum Location {
    /// This argument goes in the query parameters.
    Query,
    /// This argument goes in the path parameters.
    Path,
    /// This argument goes in the request body.
    Body,
    /// This argument goes... somewhere, probably. It is carried but never
    /// rendered: an accepted, flagged data-loss point.
    Unimplemented,
}

/// A parsed function argument.
#[derive(Debug, PartialEq, Eq)]
pub struct Argument {
    /// The name of this argument.
    pub name: String,
    /// The type of this argument.
    pub ty: Type,
    /// Where this argument gets passed in the request.
    pub location: Location,
}

/// The mathematical model of an [`Argument`].
pub struct ArgumentV {
    /// The name of the argument.
    pub name: Seq<char>,
    /// The type of the argument.
    pub ty: TypeV,
    /// Where the argument gets passed.
    pub location: Location,
}

/// The model of an [`Argument`] value.
pub open spec fn argument_view(a: Argument) -> ArgumentV {
    ArgumentV { name: a.name@, ty: type_view(a.ty), location: a.location }
}

impl View for Argument {
    type V = ArgumentV;

    open spec fn view(&self) -> ArgumentV {
        argument_view(*self)
    }
}

/// The model of an argument sequence.
pub open spec fn args_view(a: Seq<Argument>) -> Seq<ArgumentV> {
    Seq::new(a.len(), |i: int| argument_view(a[i]))
}

/// The model of a string sequence.
pub open spec fn strs_view(v: Seq<String>) -> Seq<Seq<char>> {
    Seq::new(v.len(), |i: int| v[i]@)
}

/// A parsed function.
#[derive(Debug, PartialEq, Eq)]
pub struct Function {
    /// This function's documentation.
    pub docs: Option<String>,
    /// The arguments this function will take.
    pub arguments: Vec<Argument>,
    /// Names of security schemes this request can use, stored verbatim and
    /// resolved against the scheme map only at generation time.
    pub security_schemes: Vec<String>,
    /// The responses returned by this API request.
    pub responses: Responses,
}

/// The mathematical model of a [`Function`].
pub struct FunctionV {
    /// The function's documentation.
    pub docs: Option<Seq<char>>,
    /// The arguments, in resolution order.
    pub arguments: Seq<ArgumentV>,
    /// The declared security scheme names, in declaration order.
    pub security_schemes: Seq<Seq<char>>,
    /// The responses, keyed by status-code string, in map order.
    pub responses: Seq<(Seq<char>, TypeV)>,
}

/// The model of a [`Function`] value.
pub open spec fn function_view(f: Function) -> FunctionV {
    FunctionV {
        docs: opt_str_view(f.docs),
        arguments: args_view(f.arguments@),
        security_schemes: strs_view(f.security_schemes@),
        responses: f.responses@,
    }
}

impl View for Function {
    type V = FunctionV;

    open spec fn view(&self) -> FunctionV {
        function_view(*self)
    }
}

/// Whether every argument type in `args` is well formed.
pub open spec fn args_wf(args: Seq<ArgumentV>) -> bool {
    forall|i: int| 0 <= i < args.len() ==> type_v_wf(#[trigger] args[i].ty)
}

/// Whether a function model keeps its responses sorted and all its types
/// well formed.
pub open spec fn function_v_wf(f: FunctionV) -> bool {
    args_wf(f.arguments) && crate::ordmap::spec_sorted_kv(f.responses) && types_wf_kv(f.responses)
}

/// Which location tag the document's location string maps to.
pub open spec fn spec_location(l: Seq<char>) -> Location {
    if l == "path"@ {
        Location::Path
    } else if l == "query"@ {
        Location::Query
    } else {
        Location::Unimplemented
    }
}

/// What folding the declared parameters into the argument list `acc`
/// yields. A referenced parameter is dropped rather than resolved — a
/// documented gap, not fatal — as is a parameter that carries a content map
/// instead of a schema. A non-required parameter's type is wrapped in an
/// optional.
pub open spec fn spec_arguments_from(
    params: Seq<ParameterEntry>,
    acc: Seq<ArgumentV>,
) -> Result<Seq<ArgumentV>, ParseKind>
    decreases params, 25int,
{
    if params.len() == 0 {
        Ok(acc)
    } else {
        match params[0] {
            ParameterEntry::Referenced => spec_arguments_from(params.drop_first(), acc),
            ParameterEntry::Inline(p) => match p.value {
                ParameterValue::ContentValue => spec_arguments_from(params.drop_first(), acc),
                ParameterValue::SchemaValue(sch) => match spec_resolve(sch) {
                    Err(e) => Err(e),
                    Ok(t) => spec_arguments_from(
                        params.drop_first(),
                        acc.push(
                            ArgumentV {
                                name: p.name@,
                                ty: if p.required {
                                    t
                                } else {
                                    TypeV::Option(Box::new(t))
                                },
                                location: spec_location(p.location@),
                            },
                        ),
                    ),
                },
            },
        }
    }
}

/// What the request body synthesizes: one `body` argument typed by the JSON
/// media type's schema. A referenced request body is dropped, like a
/// referenced parameter, and so is a body without a JSON media type.
pub open spec fn spec_body_argument(rb: Option<RequestBodyEntry>) -> Result<
    Option<ArgumentV>,
    ParseKind,
>
    decreases rb, 27int,
{
    match rb {
        None => Ok(None),
        Some(RequestBodyEntry::Referenced) => Ok(None),
        Some(RequestBodyEntry::Inline(b)) => match spec_content_type(b.content@) {
            Err(e) => Err(e),
            Ok(None) => Ok(None),
            Ok(Some(t)) => Ok(
                Some(ArgumentV { name: "body"@, ty: t, location: Location::Body }),
            ),
        },
    }
}

/// What resolving one operation yields: its arguments from the declared
/// parameters followed by the synthesized body argument, its responses, its
/// description, and its declared security scheme names kept verbatim.
pub open spec fn spec_try_from_operation(op: Operation) -> Result<FunctionV, ParseKind>
    decreases op, 30int,
{
    match spec_arguments_from(op.parameters@, Seq::empty()) {
        Err(e) => Err(e),
        Ok(args0) => match spec_body_argument(op.request_body) {
            Err(e) => Err(e),
            Ok(bodyopt) => match spec_responses_from(op.responses@, Seq::empty()) {
                Err(e) => Err(e),
                Ok(resp) => Ok(
                    FunctionV {
                        docs: opt_str_view(op.description),
                        arguments: args0 + (match bodyopt {
                            None => Seq::empty(),
                            Some(b) => seq![b],
                        }),
                        security_schemes: spec_security_names(op.security@),
                        responses: resp,
                    },
                ),
            },
        },
    }
}

/// The declared security requirement names, flattened in declaration order.
pub open spec fn spec_security_names(sec: Seq<Vec<String>>) -> Seq<Seq<char>>
    decreases sec,
{
    if sec.len() == 0 {
        Seq::empty()
    } else {
        strs_view(sec[0]@) + spec_security_names(sec.drop_first())
    }
}

/// What inserting one optional operation under `(method, path)` yields.
pub open spec fn spec_insert_op(
    acc: Seq<((Seq<char>, Seq<char>), FunctionV)>,
    method: Seq<char>,
    path: Seq<char>,
    op: Option<Operation>,
) -> Result<Seq<((Seq<char>, Seq<char>), FunctionV)>, ParseKind>
    decreases op, 40int,
{
    match op {
        None => Ok(acc),
        Some(o) => match spec_try_from_operation(o) {
            Err(e) => Err(e),
            Ok(f) => Ok(spec_pair_insert_kv(acc, (method, path), f)),
        },
    }
}

/// What resolving all of one path item's operations yields, probing each
/// HTTP method in a fixed order.
pub open spec fn spec_path_functions(
    acc: Seq<((Seq<char>, Seq<char>), FunctionV)>,
    path: Seq<char>,
    item: PathItem,
) -> Result<Seq<((Seq<char>, Seq<char>), FunctionV)>, ParseKind>
    decreases item, 50int,
{
    match spec_insert_op(acc, "get"@, path, item.get) {
        Err(e) => Err(e),
        Ok(a1) => match spec_insert_op(a1, "put"@, path, item.put) {
            Err(e) => Err(e),
            Ok(a2) => match spec_insert_op(a2, "post"@, path, item.post) {
                Err(e) => Err(e),
                Ok(a3) => match spec_insert_op(a3, "delete"@, path, item.delete) {
                    Err(e) => Err(e),
                    Ok(a4) => match spec_insert_op(a4, "options"@, path, item.options) {
                        Err(e) => Err(e),
                        Ok(a5) => match spec_insert_op(a5, "head"@, path, item.head) {
                            Err(e) => Err(e),
                            Ok(a6) => match spec_insert_op(a6, "patch"@, path, item.patch) {
                                Err(e) => Err(e),
                                Ok(a7) => spec_insert_op(a7, "trace"@, path, item.trace),
                            },
                        },
                    },
                },
            },
        },
    }
}

/// What folding the given paths into the function map `acc` yields: one
/// function per (HTTP method, path) pair, keyed by that pair.
pub open spec fn spec_try_from_paths(
    paths: Seq<(String, PathItem)>,
    acc: Seq<((Seq<char>, Seq<char>), FunctionV)>,
) -> Result<Seq<((Seq<char>, Seq<char>), FunctionV)>, ParseKind>
    decreases paths, 60int,
{
    if paths.len() == 0 {
        Ok(acc)
    } else {
        match spec_path_functions(acc, paths[0].0@, paths[0].1) {
            Err(e) => Err(e),
            Ok(a2) => spec_try_from_paths(paths.drop_first(), a2),
        }
    }
}

/// The value-view function for [`Function`].
pub open spec fn function_view_fn() -> spec_fn(Function) -> FunctionV {
    |f: Function| function_view(f)
}

/// Whether every function model in `s` is well formed.
pub open spec fn functions_wf(s: Seq<((Seq<char>, Seq<char>), FunctionV)>) -> bool {
    forall|i: int| 0 <= i < s.len() ==> function_v_wf(#[trigger] s[i].1)
}

impl Function {
    /// Generate a map of (HTTP method, path) pairs to functions from the
    /// document's paths.
    pub fn try_from_paths(paths: &Vec<(String, PathItem)>) -> (r: Result<
        PairMap<Function>,
        ParseKind,
    >)
        ensures
            match r {
                Ok(fs) => spec_try_from_paths(paths@, Seq::empty()) == Ok::<
                    Seq<((Seq<char>, Seq<char>), FunctionV)>,
                    ParseKind,
                >(map_pair_view(fs.entries@, function_view_fn())) && fs.wf()
                    && spec_pair_sorted_kv(map_pair_view(fs.entries@, function_view_fn()))
                    && functions_wf(map_pair_view(fs.entries@, function_view_fn())),
                Err(e) => spec_try_from_paths(paths@, Seq::empty()) == Err::<
                    Seq<((Seq<char>, Seq<char>), FunctionV)>,
                    ParseKind,
                >(e),
            },
    {
        let n = paths.len();
        let mut fs: PairMap<Function> = PairMap::new();
        let mut i: usize = 0;
        proof {
            assert(paths@.skip(0) =~= paths@);
            assert(map_pair_view(fs.entries@, function_view_fn()) =~= Seq::<
                ((Seq<char>, Seq<char>), FunctionV),
            >::empty());
        }
        while i < n
            invariant
                0 <= i <= n,
                n == paths@.len(),
                fs.wf(),
                functions_wf(map_pair_view(fs.entries@, function_view_fn())),
                spec_try_from_paths(paths@, Seq::empty()) == spec_try_from_paths(
                    paths@.skip(i as int),
                    map_pair_view(fs.entries@, function_view_fn()),
                ),
            decreases n - i,
        {
            proof {
                assert(paths@.skip(i as int)[0] == paths@[i as int]);
                assert(paths@.skip(i as int).drop_first() =~= paths@.skip(i as int + 1));
            }
            let path = &paths[i].0;
            let item = &paths[i].1;
            match Function::insert_item_ops(&mut fs, path, item) {
                Err(e) => {
                    return Err(e);
                },
                Ok(()) => {},
            }
            i = i + 1;
        }
        proof {
            assert(paths@.skip(n as int) =~= Seq::<(String, PathItem)>::empty());
            lemma_map_pair_view_sorted(fs.entries@, function_view_fn());
        }
        Ok(fs)
    }

    /// Insert all operations declared at one path into the function map,
    /// probing each HTTP method in a fixed order.
    fn insert_item_ops(fs: &mut PairMap<Function>, path: &String, item: &PathItem) -> (r: Result<
        (),
        ParseKind,
    >)
        requires
            old(fs).wf(),
            functions_wf(map_pair_view(old(fs).entries@, function_view_fn())),
        ensures
            final(fs).wf(),
            functions_wf(map_pair_view(final(fs).entries@, function_view_fn())),
            match r {
                Ok(()) => spec_path_functions(
                    map_pair_view(old(fs).entries@, function_view_fn()),
                    path@,
                    *item,
                ) == Ok::<Seq<((Seq<char>, Seq<char>), FunctionV)>, ParseKind>(
                    map_pair_view(final(fs).entries@, function_view_fn()),
                ),
                Err(e) => spec_path_functions(
                    map_pair_view(old(fs).entries@, function_view_fn()),
                    path@,
                    *item,
                ) == Err::<Seq<((Seq<char>, Seq<char>), FunctionV)>, ParseKind>(e),
            },
    {
        match Function::insert_one_op(fs, "get", path, &item.get) {
            Err(e) => {
                return Err(e);
            },
            Ok(()) => {},
        }
        match Function::insert_one_op(fs, "put", path, &item.put) {
            Err(e) => {
                return Err(e);
            },
            Ok(()) => {},
        }
        match Function::insert_one_op(fs, "post", path, &item.post) {
            Err(e) => {
                return Err(e);
            },
            Ok(()) => {},
        }
        match Function::insert_one_op(fs, "delete", path, &item.delete) {
            Err(e) => {
                return Err(e);
            },
            Ok(()) => {},
        }
        match Function::insert_one_op(fs, "options", path, &item.options) {
            Err(e) => {
                return Err(e);
            },
            Ok(()) => {},
        }
        match Function::insert_one_op(fs, "head", path, &item.head) {
            Err(e) => {
                return Err(e);
            },
            Ok(()) => {},
        }
        match Function::insert_one_op(fs, "patch", path, &item.patch) {
            Err(e) => {
                return Err(e);
            },
            Ok(()) => {},
        }
        match Function::insert_one_op(fs, "trace", path, &item.trace) {
            Err(e) => {
                return Err(e);
            },
            Ok(()) => {},
        }
        Ok(())
    }

    /// Insert one optional operation under `(method, path)`.
    fn insert_one_op(
        fs: &mut PairMap<Function>,
        method: &str,
        path: &String,
        op: &Option<Operation>,
    ) -> (r: Result<(), ParseKind>)
        requires
            old(fs).wf(),
            functions_wf(map_pair_view(old(fs).entries@, function_view_fn())),
        ensures
            final(fs).wf(),
            functions_wf(map_pair_view(final(fs).entries@, function_view_fn())),
            match r {
                Ok(()) => spec_insert_op(
                    map_pair_view(old(fs).entries@, function_view_fn()),
                    method@,
                    path@,
                    *op,
                ) == Ok::<Seq<((Seq<char>, Seq<char>), FunctionV)>, ParseKind>(
                    map_pair_view(final(fs).entries@, function_view_fn()),
                ),
                Err(e) => spec_insert_op(
                    map_pair_view(old(fs).entries@, function_view_fn()),
                    method@,
                    path@,
                    *op,
                ) == Err::<Seq<((Seq<char>, Seq<char>), FunctionV)>, ParseKind>(e),
            },
    {
        match op {
            None => Ok(()),
            Some(o) => {
                match Function::try_from_operation(o) {
                    Err(e) => Err(e),
                    Ok(f) => {
                        let key = (method.to_owned(), path.clone());
                        proof {
                            lemma_map_pair_view_insert(fs.entries@, key, f, function_view_fn());
                            lemma_functions_wf_insert(
                                map_pair_view(fs.entries@, function_view_fn()),
                                (key.0@, key.1@),
                                function_view(f),
                            );
                        }
                        fs.insert(key, f);
                        Ok(())
                    },
                }
            },
        }
    }

    /// Generates a function for a given operation.
    pub fn try_from_operation(operation: &Operation) -> (r: Result<Function, ParseKind>)
        ensures
            match r {
                Ok(f) => spec_try_from_operation(*operation) == Ok::<FunctionV, ParseKind>(f@)
                    && function_v_wf(f@),
                Err(e) => spec_try_from_operation(*operation) == Err::<FunctionV, ParseKind>(e),
            },
    {
        let arguments = match Function::arguments_from_parameters(&operation.parameters) {
            Err(e) => {
                return Err(e);
            },
            Ok(a) => a,
        };
        let mut arguments = arguments;
        match Function::body_argument(&operation.request_body) {
            Err(e) => {
                return Err(e);
            },
            Ok(None) => {
                proof {
                    assert(args_view(arguments@) =~= args_view(arguments@) + Seq::<
                        ArgumentV,
                    >::empty());
                }
            },
            Ok(Some(body_arg)) => {
                let ghost before = arguments@;
                arguments.push(body_arg);
                proof {
                    assert(args_view(arguments@) =~= args_view(before) + seq![
                        argument_view(arguments@.last()),
                    ]);
                }
            },
        }
        let responses = match Responses::try_from_entries(&operation.responses) {
            Err(e) => {
                return Err(e);
            },
            Ok(resp) => resp,
        };
        let docs = match &operation.description {
            Some(d) => Some(d.clone()),
            None => None,
        };
        let security_schemes = Function::security_names(&operation.security);
        let f = Function { docs, arguments, security_schemes, responses };
        Ok(f)
    }

    /// Construct a list of arguments out of the declared parameters.
    fn arguments_from_parameters(params: &Vec<ParameterEntry>) -> (r: Result<
        Vec<Argument>,
        ParseKind,
    >)
        ensures
            match r {
                Ok(args) => spec_arguments_from(params@, Seq::empty()) == Ok::<
                    Seq<ArgumentV>,
                    ParseKind,
                >(args_view(args@)) && args_wf(args_view(args@)),
                Err(e) => spec_arguments_from(params@, Seq::empty()) == Err::<
                    Seq<ArgumentV>,
                    ParseKind,
                >(e),
            },
    {
        let n = params.len();
        let mut args: Vec<Argument> = Vec::new();
        let mut i: usize = 0;
        proof {
            assert(params@.skip(0) =~= params@);
            assert(args_view(args@) =~= Seq::<ArgumentV>::empty());
        }
        while i < n
            invariant
                0 <= i <= n,
                n == params@.len(),
                args_wf(args_view(args@)),
                spec_arguments_from(params@, Seq::empty()) == spec_arguments_from(
                    params@.skip(i as int),
                    args_view(args@),
                ),
            decreases n - i,
        {
            proof {
                assert(params@.skip(i as int)[0] == params@[i as int]);
                assert(params@.skip(i as int).drop_first() =~= params@.skip(i as int + 1));
            }
            match &params[i] {
                ParameterEntry::Referenced => {},
                ParameterEntry::Inline(p) => {
                    match &p.value {
                        ParameterValue::ContentValue => {},
                        ParameterValue::SchemaValue(sch) => {
                            let t = match Type::try_from_schema(sch) {
                                Err(e) => {
                                    return Err(e);
                                },
                                Ok(t) => t,
                            };
                            let location = if str_eq(p.location.as_str(), "path") {
                                Location::Path
                            } else if str_eq(p.location.as_str(), "query") {
                                Location::Query
                            } else {
                                Location::Unimplemented
                            };
                            let ty = if p.required {
                                t
                            } else {
                                Type::Option(Box::new(t))
                            };
                            let ghost before = args@;
                            args.push(Argument { name: p.name.clone(), ty, location });
                            proof {
                                assert(args_view(args@) =~= args_view(before).push(
                                    argument_view(args@.last()),
                                ));
                            }
                        },
                    }
                },
            }
            i = i + 1;
        }
        proof {
            assert(params@.skip(n as int) =~= Seq::<ParameterEntry>::empty());
        }
        Ok(args)
    }

    /// Synthesize the body argument from the declared request body, if any.
    fn body_argument(rb: &Option<RequestBodyEntry>) -> (r: Result<Option<Argument>, ParseKind>)
        ensures
            match r {
                Ok(None) => spec_body_argument(*rb) == Ok::<Option<ArgumentV>, ParseKind>(None),
                Ok(Some(a)) => spec_body_argument(*rb) == Ok::<Option<ArgumentV>, ParseKind>(
                    Some(argument_view(a)),
                ) && type_v_wf(argument_view(a).ty),
                Err(e) => spec_body_argument(*rb) == Err::<Option<ArgumentV>, ParseKind>(e),
            },
    {
        match rb {
            None => Ok(None),
            Some(RequestBodyEntry::Referenced) => Ok(None),
            Some(RequestBodyEntry::Inline(b)) => {
                match content_json_type(&b.content) {
                    Err(e) => Err(e),
                    Ok(None) => Ok(None),
                    Ok(Some(t)) => Ok(
                        Some(
                            Argument {
                                name: String::from_str("body"),
                                ty: t,
                                location: Location::Body,
                            },
                        ),
                    ),
                }
            },
        }
    }

    /// Collect the declared security requirement names, flattened in
    /// declaration order.
    fn security_names(sec: &Vec<Vec<String>>) -> (r: Vec<String>)
        ensures
            strs_view(r@) == spec_security_names(sec@),
    {
        let n = sec.len();
        let mut out: Vec<String> = Vec::new();
        let mut i: usize = 0;
        proof {
            assert(sec@.skip(0) =~= sec@);
            assert(strs_view(out@) =~= Seq::<Seq<char>>::empty());
            assert(strs_view(out@) + spec_security_names(sec@.skip(0)) =~= spec_security_names(
                sec@,
            ));
        }
        while i < n
            invariant
                0 <= i <= n,
                n == sec@.len(),
                spec_security_names(sec@) =~= strs_view(out@) + spec_security_names(
                    sec@.skip(i as int),
                ),
            decreases n - i,
        {
            proof {
                assert(sec@.skip(i as int)[0] == sec@[i as int]);
                assert(sec@.skip(i as int).drop_first() =~= sec@.skip(i as int + 1));
            }
            let names = &sec[i];
            let m = names.len();
            let mut j: usize = 0;
            let ghost out_before = out@;
            while j < m
                invariant
                    0 <= j <= m,
                    m == names@.len(),
                    strs_view(out@) =~= strs_view(out_before) + strs_view(names@).take(j as int),
                decreases m - j,
            {
                let ghost out_mid = out@;
                out.push(names[j].clone());
                proof {
                    assert(strs_view(out@) =~= strs_view(out_mid).push(names@[j as int]@));
                    assert(strs_view(names@).take(j as int + 1) =~= strs_view(names@).take(
                        j as int,
                    ).push(names@[j as int]@));
                }
                j = j + 1;
            }
            proof {
                assert(strs_view(names@).take(m as int) =~= strs_view(names@));
                assert(strs_view(out@) =~= strs_view(out_before) + strs_view(sec@[i as int]@));
            }
            i = i + 1;
        }
        proof {
            assert(sec@.skip(n as int) =~= Seq::<Vec<String>>::empty());
            assert(strs_view(out@) + Seq::<Seq<char>>::empty() =~= strs_view(out@));
        }
        out
    }
}

/// Inserting a well-formed function keeps every function model well formed.
proof fn lemma_functions_wf_insert(
    s: Seq<((Seq<char>, Seq<char>), FunctionV)>,
    k: (Seq<char>, Seq<char>),
    f: FunctionV,
)
    requires
        functions_wf(s),
        function_v_wf(f),
    ensures
        functions_wf(spec_pair_insert_kv(s, k, f)),
    decreases s.len(),
{
    let r = spec_pair_insert_kv(s, k, f);
    if s.len() == 0 {
    } else if crate::ordmap::pair_lt_v(s[0].0, k) {
        assert(functions_wf(s.drop_first()));
        lemma_functions_wf_insert(s.drop_first(), k, f);
        let tail = spec_pair_insert_kv(s.drop_first(), k, f);
        assert forall|i: int| 0 <= i < r.len() implies function_v_wf(#[trigger] r[i].1) by {
            if i > 0 {
                assert(r[i] == tail[i - 1]);
            }
        }
    } else if s[0].0 == k {
        assert forall|i: int| 0 <= i < r.len() implies function_v_wf(#[trigger] r[i].1) by {
            if i > 0 {
                assert(r[i] == s.drop_first()[i - 1]);
                assert(s.drop_first()[i - 1] == s[i]);
            }
        }
    } else {
        assert forall|i: int| 0 <= i < r.len() implies function_v_wf(#[trigger] r[i].1) by {
            if i > 0 {
                assert(r[i] == s[i - 1]);
            }
        }
    }
}

} // verus!
