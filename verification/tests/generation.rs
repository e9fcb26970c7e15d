use apigen::codegen::{
    arguments, body, documentation, functions, indents, module, name, query_param_arguments,
    return_type, signature, type_to_string, types, Return,
};
use apigen::model::{
    ArrayValidation, Document, InstanceType, Items, MediaType, ObjectValidation, Operation,
    Parameter, ParameterEntry, ParameterValue, PathItem, Response, ResponseEntry, Schema,
    SecuritySchemeData, SecuritySchemeEntry, TypeDecl,
};
use apigen::ordmap::OrdMap;
use apigen::parse::{security_schemes, Function, Responses, Type};

fn plain_schema() -> Schema {
    Schema {
        reference: None,
        instance_type: TypeDecl::Absent,
        object: None,
        array: None,
        description: None,
        deprecated: false,
    }
}

fn typed_schema(it: InstanceType) -> Schema {
    Schema { instance_type: TypeDecl::Single(it), ..plain_schema() }
}

fn ref_schema(target: &str) -> Schema {
    Schema { reference: Some(target.to_string()), ..plain_schema() }
}

fn json_ok_response(code: &str, schema: Schema) -> (String, ResponseEntry) {
    (
        code.to_string(),
        ResponseEntry::Inline(Response {
            content: vec![("application/json".to_string(), MediaType { schema: Some(schema) })],
        }),
    )
}

fn bare_operation() -> Operation {
    Operation {
        parameters: vec![],
        request_body: None,
        responses: vec![],
        description: None,
        security: vec![],
    }
}

fn bare_path_item() -> PathItem {
    PathItem {
        get: None,
        put: None,
        post: None,
        delete: None,
        options: None,
        head: None,
        patch: None,
        trace: None,
    }
}

#[test]
fn type_rendering_matches_target_syntax() {
    assert_eq!(type_to_string(&Type::String, false), "str");
    assert_eq!(type_to_string(&Type::Integer, false), "int");
    assert_eq!(type_to_string(&Type::Float, false), "float");
    assert_eq!(type_to_string(&Type::Null, false), "None");
    assert_eq!(type_to_string(&Type::Bool, false), "bool");
    assert_eq!(type_to_string(&Type::Any, false), "Any");
    assert_eq!(
        type_to_string(&Type::Option(Box::new(Type::String)), false),
        "Optional[str]"
    );
    assert_eq!(
        type_to_string(&Type::List(Box::new(Type::Integer)), false),
        "List[int]"
    );
    assert_eq!(
        type_to_string(&Type::SetOf(Box::new(Type::Bool)), false),
        "Set[bool]"
    );
    assert_eq!(
        type_to_string(&Type::Ref("#/components/schemas/Pet".to_string()), false),
        "Pet"
    );
    assert_eq!(
        type_to_string(&Type::Ref("#/components/schemas/Pet".to_string()), true),
        "\"Pet\""
    );
}

#[test]
fn function_names_are_snake_cased_from_method_and_path() {
    assert_eq!(name("get", "/pets/{id}"), "get_pets_id");
    assert_eq!(name("post", "/pets"), "post_pets");
}

#[test]
fn indents_repeat_the_unit() {
    assert_eq!(indents(0), "");
    assert_eq!(indents(1), "    ");
    assert_eq!(indents(3), "            ");
}

#[test]
fn documentation_always_emits_a_block() {
    let d = "Lists pets.".to_string();
    assert_eq!(
        documentation(2, Some(&d)),
        "        \"\"\"\nLists pets.\n        \"\"\"\n"
    );
    assert_eq!(documentation(2, None), "        \"\"\"\n        \"\"\"\n");
}

#[test]
fn required_arguments_render_without_default_and_first() {
    let mut op = bare_operation();
    op.parameters = vec![
        ParameterEntry::Inline(Parameter {
            name: "limit".to_string(),
            location: "query".to_string(),
            required: false,
            value: ParameterValue::SchemaValue(typed_schema(InstanceType::Integer)),
        }),
        ParameterEntry::Inline(Parameter {
            name: "id".to_string(),
            location: "path".to_string(),
            required: true,
            value: ParameterValue::SchemaValue(typed_schema(InstanceType::String)),
        }),
    ];
    let f = Function::try_from_operation(&op).unwrap();
    assert_eq!(arguments(&f.arguments), "id: str, limit: Optional[int] = None, ");
}

#[test]
fn zero_responses_give_unit_return_and_no_status_branch() {
    let f = Function::try_from_operation(&bare_operation()).unwrap();
    let (ret, arity) = return_type(&f.responses);
    assert_eq!(ret, "None");
    assert_eq!(arity, Return::One);
    let schemes: OrdMap<apigen::parse::SecurityScheme> = OrdMap::new();
    let b = body(2, "get", "/ping", &f, &schemes);
    // Any outcome is treated as success: nothing after the call inspects
    // the status.
    assert!(!b.contains("if resp.status"));
    assert!(!b.contains("raise"));
    assert!(b.ends_with("resp = await self._session.get(f\"{self._base_url}/ping\", )\n"));
}

#[test]
fn single_response_type_is_returned_directly() {
    let mut op = bare_operation();
    op.responses = vec![json_ok_response("200", ref_schema("#/components/schemas/Pet"))];
    let f = Function::try_from_operation(&op).unwrap();
    let (ret, arity) = return_type(&f.responses);
    assert_eq!(ret, "Pet");
    assert_eq!(arity, Return::One);
}

#[test]
fn repeated_response_type_still_returns_directly() {
    let mut op = bare_operation();
    op.responses = vec![
        json_ok_response("200", ref_schema("#/components/schemas/Pet")),
        json_ok_response("201", ref_schema("#/components/schemas/Pet")),
    ];
    let f = Function::try_from_operation(&op).unwrap();
    let (ret, arity) = return_type(&f.responses);
    assert_eq!(ret, "Pet");
    assert_eq!(arity, Return::One);
}

#[test]
fn two_distinct_response_types_become_a_tagged_union() {
    let mut op = bare_operation();
    op.responses = vec![
        json_ok_response("200", ref_schema("#/components/schemas/Foo")),
        json_ok_response("404", ref_schema("#/components/schemas/Bar")),
    ];
    let f = Function::try_from_operation(&op).unwrap();
    let (ret, arity) = return_type(&f.responses);
    assert_eq!(
        ret,
        "Union[Tuple[Literal[\"200\"], Foo], Tuple[Literal[\"404\"], Bar], ]"
    );
    assert_eq!(arity, Return::Many);
    let schemes: OrdMap<apigen::parse::SecurityScheme> = OrdMap::new();
    let b = body(2, "get", "/things/{id}", &f, &schemes);
    assert!(b.contains("        if resp.status == 200:\n"));
    assert!(b.contains(
        "            return (\"200\", parse_obj_as(Foo, await resp.json()))\n"
    ));
    assert!(b.contains("        if resp.status == 404:\n"));
    assert!(b.contains(
        "            return (\"404\", parse_obj_as(Bar, await resp.json()))\n"
    ));
    assert!(b.contains(
        "raise aiohttp.ClientResponseError(resp.request_info, (resp,), status=resp.status)"
    ));
}

#[test]
fn optional_list_query_parameter_expands_per_element() {
    let mut op = bare_operation();
    op.parameters = vec![ParameterEntry::Inline(Parameter {
        name: "tags".to_string(),
        location: "query".to_string(),
        required: false,
        value: ParameterValue::SchemaValue(Schema {
            instance_type: TypeDecl::Single(InstanceType::Array),
            array: Some(ArrayValidation {
                items: Items::Node(Box::new(typed_schema(InstanceType::String))),
                unique_items: None,
            }),
            ..plain_schema()
        }),
    })];
    let f = Function::try_from_operation(&op).unwrap();
    let (code, call_part) = query_param_arguments(2, &f).unwrap();
    assert_eq!(call_part, "params=params, ");
    assert!(code.contains("        if tags is not None:\n"));
    assert!(code.contains(
        "            params.extend([(\"tags\", str(x)) for x in tags])\n"
    ));
    // An optional list has no trivial whole-value conversion, so the initial
    // list holds no entry for it.
    assert!(!code.contains("(\"tags\", str(tags))"));
}

#[test]
fn scalar_query_parameters_join_the_initial_list() {
    let mut op = bare_operation();
    op.parameters = vec![
        ParameterEntry::Inline(Parameter {
            name: "verbose".to_string(),
            location: "query".to_string(),
            required: true,
            value: ParameterValue::SchemaValue(typed_schema(InstanceType::Boolean)),
        }),
        ParameterEntry::Inline(Parameter {
            name: "limit".to_string(),
            location: "query".to_string(),
            required: false,
            value: ParameterValue::SchemaValue(typed_schema(InstanceType::Integer)),
        }),
    ];
    let f = Function::try_from_operation(&op).unwrap();
    let (code, _) = query_param_arguments(2, &f).unwrap();
    assert!(code.contains("(\"verbose\", (\"true\" if verbose else \"false\")),\n"));
    assert!(code.contains("(\"limit\", (str(limit) if limit is not None else None)),\n"));
    assert!(code.contains(
        "params: List[Tuple[str, str]] = [(k, v) for k, v in init_params if v is not None]\n"
    ));
}

#[test]
fn basic_auth_scheme_attaches_credentials() {
    let raw = vec![(
        "login".to_string(),
        SecuritySchemeEntry::Inline(SecuritySchemeData::Http {
            scheme: "basic".to_string(),
            bearer_format: None,
        }),
    )];
    let (schemes, skipped) = security_schemes(&raw);
    assert!(skipped.is_empty());
    let mut op = bare_operation();
    op.security = vec![vec!["login".to_string()]];
    let f = Function::try_from_operation(&op).unwrap();
    let b = body(2, "get", "/private", &f, &schemes);
    assert!(b.contains("auth=self._auth, "));
    // An unresolved scheme name downgrades the call to unauthenticated.
    let empty: OrdMap<apigen::parse::SecurityScheme> = OrdMap::new();
    let unauth = body(2, "get", "/private", &f, &empty);
    assert!(!unauth.contains("auth=self._auth, "));
}

#[test]
fn body_argument_is_synthesized_and_serialized() {
    let mut op = bare_operation();
    op.request_body = Some(apigen::model::RequestBodyEntry::Inline(apigen::model::RequestBody {
        content: vec![(
            "application/json".to_string(),
            MediaType { schema: Some(ref_schema("#/components/schemas/Pet")) },
        )],
    }));
    let f = Function::try_from_operation(&op).unwrap();
    assert_eq!(f.arguments.len(), 1);
    assert_eq!(f.arguments[0].name, "body");
    assert_eq!(arguments(&f.arguments), "body: Pet, ");
    let schemes: OrdMap<apigen::parse::SecurityScheme> = OrdMap::new();
    let b = body(2, "post", "/pets", &f, &schemes);
    assert!(b.contains("json=body.dict(by_alias=True), "));
}

#[test]
fn deprecated_required_field_renders_optional_with_marker() {
    let schemas = vec![(
        "Pet".to_string(),
        Schema {
            object: Some(ObjectValidation {
                properties: vec![(
                    "age".to_string(),
                    Schema {
                        description: Some("Age in years.".to_string()),
                        deprecated: true,
                        ..typed_schema(InstanceType::Integer)
                    },
                )],
            }),
            ..plain_schema()
        },
    )];
    let (code, diags) = types(&schemas);
    assert!(diags.is_empty());
    assert!(code.contains(
        "    age: Optional[int] = Field(default=None, deprecated=True, \
         description=\"\"\"Age in years.\n\nDeprecated.\"\"\", )\n"
    ));
}

#[test]
fn rendered_field_order_is_lexicographic() {
    let schemas = vec![(
        "Pet".to_string(),
        Schema {
            object: Some(ObjectValidation {
                properties: vec![
                    ("name".to_string(), typed_schema(InstanceType::String)),
                    ("age".to_string(), typed_schema(InstanceType::Integer)),
                ],
            }),
            ..plain_schema()
        },
    )];
    let (code, _) = types(&schemas);
    let age_at = code.find("    age: int").unwrap();
    let name_at = code.find("    name: str").unwrap();
    assert!(age_at < name_at);
}

#[test]
fn unresolvable_schema_is_skipped_with_a_diagnostic() {
    let schemas = vec![
        ("Bad".to_string(), plain_schema()),
        ("Good".to_string(), typed_schema(InstanceType::String)),
    ];
    let (code, diags) = types(&schemas);
    assert!(!code.contains("class Bad"));
    assert!(code.contains("class Good(_BaseModel):\npass\n"));
    // The finalize pass still names every schema.
    assert!(code.contains("Bad.update_forward_refs()\n"));
    assert!(code.contains("Good.update_forward_refs()\n"));
    assert_eq!(diags.len(), 1);
    match &diags[0] {
        apigen::diag::Diagnostic::SchemaSkipped { name, kind } => {
            assert_eq!(name, "Bad");
            assert_eq!(*kind, apigen::parse::ParseKind::Unimplemented);
        }
        other => panic!("unexpected diagnostic {:?}", other),
    }
}

fn pet_store_document() -> Document {
    let pet_schema = Schema {
        object: Some(ObjectValidation {
            properties: vec![
                ("name".to_string(), typed_schema(InstanceType::String)),
                ("age".to_string(), typed_schema(InstanceType::Integer)),
            ],
        }),
        ..plain_schema()
    };
    let mut get_op = bare_operation();
    get_op.parameters = vec![ParameterEntry::Inline(Parameter {
        name: "id".to_string(),
        location: "path".to_string(),
        required: true,
        value: ParameterValue::SchemaValue(typed_schema(InstanceType::String)),
    })];
    get_op.responses = vec![json_ok_response("200", ref_schema("#/components/schemas/Pet"))];
    let item = PathItem { get: Some(get_op), ..bare_path_item() };
    Document {
        title: "Pet Store".to_string(),
        description: Some("A small example.".to_string()),
        schemas: vec![("Pet".to_string(), pet_schema)],
        security_schemes: vec![],
        paths: vec![("/pets/{id}".to_string(), item)],
    }
}

#[test]
fn pet_store_generates_record_and_function() {
    let doc = pet_store_document();
    let (result, diags) = module(&doc, "import aiohttp", "class Client: ...");
    assert!(diags.is_empty());
    let code = result.unwrap();
    assert!(code.starts_with("\"\"\"Pet Store HTTP API client\n\nA small example.\"\"\"\n\n"));
    assert!(code.contains("class Pet(_BaseModel):\n"));
    assert!(code.contains("    age: int = Field(default=..., )\n"));
    assert!(code.contains("    name: str = Field(default=..., )\n"));
    assert!(code.contains("Pet.update_forward_refs()\n"));
    assert!(code.contains("    async def get_pets_id(self, id: str, ) -> Pet:\n"));
    assert!(code.contains(
        "        resp = await self._session.get(f\"{self._base_url}/pets/{id}\", )\n"
    ));
    assert!(code.contains("        if resp.status == 200:\n"));
    assert!(code.contains(
        "            return parse_obj_as(Pet, await resp.json())\n"
    ));
    assert!(code.contains(
        "raise aiohttp.ClientResponseError(resp.request_info, (resp,), status=resp.status)"
    ));
}

#[test]
fn rendering_the_same_document_twice_is_byte_identical() {
    let doc = pet_store_document();
    let (first, _) = module(&doc, "import aiohttp", "class Client: ...");
    let (second, _) = module(&doc, "import aiohttp", "class Client: ...");
    assert_eq!(first.unwrap(), second.unwrap());
}

#[test]
fn functions_are_emitted_in_method_path_order() {
    let item_b = PathItem { get: Some(bare_operation()), post: Some(bare_operation()), ..bare_path_item() };
    let item_a = PathItem { get: Some(bare_operation()), ..bare_path_item() };
    let paths = vec![
        ("/b".to_string(), item_b),
        ("/a".to_string(), item_a),
    ];
    let schemes: OrdMap<apigen::parse::SecurityScheme> = OrdMap::new();
    let code = functions(&paths, &schemes).unwrap();
    let get_a = code.find("async def get_a").unwrap();
    let get_b_pos = code.find("async def get_b").unwrap();
    let post_b = code.find("async def post_b").unwrap();
    assert!(get_a < get_b_pos);
    assert!(get_b_pos < post_b);
}

#[test]
fn referenced_response_aborts_generation() {
    let mut op = bare_operation();
    op.responses = vec![("200".to_string(), ResponseEntry::Referenced)];
    let item = PathItem { get: Some(op), ..bare_path_item() };
    let paths = vec![("/x".to_string(), item)];
    let schemes: OrdMap<apigen::parse::SecurityScheme> = OrdMap::new();
    assert_eq!(
        functions(&paths, &schemes).unwrap_err(),
        apigen::parse::ParseKind::Unimplemented
    );
}

#[test]
fn signature_includes_indent_and_trailing_colon() {
    let f = Function::try_from_operation(&bare_operation()).unwrap();
    assert_eq!(
        signature(1, "get", "/ping", &f),
        "    async def get_ping(self, ) -> None:\n"
    );
}

#[test]
fn struct_docstring_is_rendered_in_the_class_body() {
    let schemas = vec![(
        "Pet".to_string(),
        Schema {
            description: Some("A pet in the store.".to_string()),
            object: Some(ObjectValidation {
                properties: vec![("name".to_string(), typed_schema(InstanceType::String))],
            }),
            ..plain_schema()
        },
    )];
    let (code, _) = types(&schemas);
    assert!(code.contains("class Pet(_BaseModel):\n    \"\"\"A pet in the store.\"\"\"\n\n"));
}

#[test]
fn nested_struct_fields_render_as_generic_dicts() {
    let inner = Schema {
        object: Some(ObjectValidation {
            properties: vec![("x".to_string(), typed_schema(InstanceType::Integer))],
        }),
        ..plain_schema()
    };
    let schemas = vec![(
        "Holder".to_string(),
        Schema {
            object: Some(ObjectValidation { properties: vec![("inner".to_string(), inner)] }),
            ..plain_schema()
        },
    )];
    let (code, _) = types(&schemas);
    assert!(code.contains("    inner: Dict[str, Any] = Field(default=..., )\n"));
}

#[test]
fn empty_document_output_is_exactly_the_boilerplate_frame() {
    let doc = Document {
        title: "T".to_string(),
        description: None,
        schemas: vec![],
        security_schemes: vec![],
        paths: vec![],
    };
    let (result, diags) = module(&doc, "IMP", "CLI");
    assert!(diags.is_empty());
    assert_eq!(
        result.unwrap(),
        "\"\"\"T HTTP API client\"\"\"\n\nIMP\n\n\n\nCLI\n\n"
    );
}

#[test]
fn distinct_types_rendering_alike_still_become_a_union() {
    // Two structurally distinct inline object schemas both render
    // `Dict[str, Any]`; distinctness is structural, so the result is still
    // a status-tagged union.
    let obj_a = Schema {
        object: Some(ObjectValidation {
            properties: vec![("x".to_string(), typed_schema(InstanceType::String))],
        }),
        ..plain_schema()
    };
    let obj_b = Schema {
        object: Some(ObjectValidation {
            properties: vec![("y".to_string(), typed_schema(InstanceType::Integer))],
        }),
        ..plain_schema()
    };
    let mut op = bare_operation();
    op.responses = vec![json_ok_response("200", obj_a), json_ok_response("404", obj_b)];
    let f = Function::try_from_operation(&op).unwrap();
    let (ret, arity) = return_type(&f.responses);
    assert_eq!(
        ret,
        "Union[Tuple[Literal[\"200\"], Dict[str, Any]], Tuple[Literal[\"404\"], Dict[str, Any]], ]"
    );
    assert_eq!(arity, Return::Many);
    let schemes: OrdMap<apigen::parse::SecurityScheme> = OrdMap::new();
    let b = body(2, "get", "/things", &f, &schemes);
    assert!(b.contains(
        "            return (\"200\", parse_obj_as(Dict[str, Any], await resp.json()))\n"
    ));
    assert!(b.contains(
        "            return (\"404\", parse_obj_as(Dict[str, Any], await resp.json()))\n"
    ));
}

#[test]
fn unrecognized_location_argument_is_carried_but_not_rendered() {
    let mut op = bare_operation();
    op.parameters = vec![
        ParameterEntry::Inline(Parameter {
            name: "trace_id".to_string(),
            location: "header".to_string(),
            required: true,
            value: ParameterValue::SchemaValue(typed_schema(InstanceType::String)),
        }),
        ParameterEntry::Inline(Parameter {
            name: "id".to_string(),
            location: "path".to_string(),
            required: true,
            value: ParameterValue::SchemaValue(typed_schema(InstanceType::String)),
        }),
    ];
    let f = Function::try_from_operation(&op).unwrap();
    // The argument is carried in the resolved function...
    assert_eq!(f.arguments.len(), 2);
    assert_eq!(f.arguments[0].name, "trace_id");
    // ...but never rendered.
    assert_eq!(arguments(&f.arguments), "id: str, ");
    let sig = signature(1, "get", "/t/{id}", &f);
    assert!(!sig.contains("trace_id"));
}
