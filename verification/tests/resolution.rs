use apigen::model::{
    ArrayValidation, InstanceType, Items, MediaType, ObjectValidation, Operation, Parameter,
    ParameterEntry, ParameterValue, Response, ResponseEntry, Schema, SecuritySchemeData,
    SecuritySchemeEntry, TypeDecl,
};
use apigen::parse::{Field, Function, ParseKind, Responses, SecurityScheme, Type};

fn blank_schema() -> Schema {
    Schema {
        reference: None,
        instance_type: TypeDecl::Absent,
        object: None,
        array: None,
        description: None,
        deprecated: false,
    }
}

fn scalar_schema(it: InstanceType) -> Schema {
    Schema { instance_type: TypeDecl::Single(it), ..blank_schema() }
}

fn array_schema(item: Schema, unique: Option<bool>) -> Schema {
    Schema {
        instance_type: TypeDecl::Single(InstanceType::Array),
        array: Some(ArrayValidation { items: Items::Node(Box::new(item)), unique_items: unique }),
        ..blank_schema()
    }
}

#[test]
fn scalar_schemas_resolve_to_their_primitives() {
    assert_eq!(
        Type::try_from_schema(&scalar_schema(InstanceType::String)),
        Ok(Type::String)
    );
    assert_eq!(
        Type::try_from_schema(&scalar_schema(InstanceType::Integer)),
        Ok(Type::Integer)
    );
    assert_eq!(
        Type::try_from_schema(&scalar_schema(InstanceType::Number)),
        Ok(Type::Float)
    );
    assert_eq!(
        Type::try_from_schema(&scalar_schema(InstanceType::Boolean)),
        Ok(Type::Bool)
    );
    assert_eq!(
        Type::try_from_schema(&scalar_schema(InstanceType::Null)),
        Ok(Type::Null)
    );
}

#[test]
fn reference_schema_wins_over_other_keywords() {
    let mut s = scalar_schema(InstanceType::String);
    s.reference = Some("#/components/schemas/Pet".to_string());
    assert_eq!(
        Type::try_from_schema(&s),
        Ok(Type::Ref("#/components/schemas/Pet".to_string()))
    );
}

#[test]
fn resolving_twice_yields_structurally_equal_types() {
    let s = array_schema(scalar_schema(InstanceType::String), Some(true));
    let first = Type::try_from_schema(&s);
    let second = Type::try_from_schema(&s);
    assert_eq!(first, second);
}

#[test]
fn unique_items_true_resolves_to_set() {
    let s = array_schema(scalar_schema(InstanceType::Integer), Some(true));
    assert_eq!(
        Type::try_from_schema(&s),
        Ok(Type::SetOf(Box::new(Type::Integer)))
    );
}

#[test]
fn unique_items_absent_or_false_resolves_to_list() {
    let absent = array_schema(scalar_schema(InstanceType::Integer), None);
    assert_eq!(
        Type::try_from_schema(&absent),
        Ok(Type::List(Box::new(Type::Integer)))
    );
    let explicit_false = array_schema(scalar_schema(InstanceType::Integer), Some(false));
    assert_eq!(
        Type::try_from_schema(&explicit_false),
        Ok(Type::List(Box::new(Type::Integer)))
    );
}

#[test]
fn array_without_item_keywords_resolves_to_any() {
    let s = Schema {
        instance_type: TypeDecl::Single(InstanceType::Array),
        ..blank_schema()
    };
    assert_eq!(Type::try_from_schema(&s), Ok(Type::Any));
}

#[test]
fn multi_type_schema_fails_loudly() {
    let s = Schema { instance_type: TypeDecl::Multiple, ..blank_schema() };
    assert_eq!(Type::try_from_schema(&s), Err(ParseKind::Unimplemented));
}

#[test]
fn schema_without_type_keywords_is_unimplemented() {
    assert_eq!(
        Type::try_from_schema(&blank_schema()),
        Err(ParseKind::Unimplemented)
    );
}

#[test]
fn object_keyword_without_object_part_is_other_type() {
    let s = Schema {
        instance_type: TypeDecl::Single(InstanceType::Object),
        ..blank_schema()
    };
    assert_eq!(Type::try_from_schema(&s), Err(ParseKind::OtherType));
}

#[test]
fn object_properties_are_sorted_by_name() {
    let s = Schema {
        instance_type: TypeDecl::Single(InstanceType::Object),
        object: Some(ObjectValidation {
            properties: vec![
                ("zeta".to_string(), scalar_schema(InstanceType::String)),
                ("alpha".to_string(), scalar_schema(InstanceType::Integer)),
                ("mid".to_string(), scalar_schema(InstanceType::Boolean)),
            ],
        }),
        ..blank_schema()
    };
    let t = Type::try_from_schema(&s).unwrap();
    match t {
        Type::Struct(st) => {
            let keys: Vec<&str> =
                st.fields.entries.iter().map(|e| e.0.as_str()).collect();
            assert_eq!(keys, vec!["alpha", "mid", "zeta"]);
        }
        other => panic!("expected a struct, got {:?}", other),
    }
}

#[test]
fn failing_property_fails_the_whole_struct() {
    let s = Schema {
        object: Some(ObjectValidation {
            properties: vec![("bad".to_string(), blank_schema())],
        }),
        ..blank_schema()
    };
    assert_eq!(Type::try_from_schema(&s), Err(ParseKind::Unimplemented));
}

#[test]
fn deprecated_field_becomes_optional_with_note() {
    let s = Schema {
        description: Some("Age in years.".to_string()),
        deprecated: true,
        ..scalar_schema(InstanceType::Integer)
    };
    let f = Field::from_schema(&s).unwrap();
    assert_eq!(f.ty, Type::Option(Box::new(Type::Integer)));
    assert_eq!(f.docs, Some("Age in years.\n\nDeprecated.".to_string()));
    assert!(f.deprecated);
}

#[test]
fn deprecated_field_without_docs_gains_the_note_alone() {
    let s = Schema { deprecated: true, ..scalar_schema(InstanceType::String) };
    let f = Field::from_schema(&s).unwrap();
    assert_eq!(f.ty, Type::Option(Box::new(Type::String)));
    assert_eq!(f.docs, Some("Deprecated.".to_string()));
}

#[test]
fn field_new_and_set_docs_behave_plainly() {
    let mut f = Field::new(Type::Bool);
    assert_eq!(f.ty, Type::Bool);
    assert_eq!(f.docs, None);
    assert!(!f.deprecated);
    f.set_docs("hello".to_string());
    assert_eq!(f.docs, Some("hello".to_string()));
}

fn json_response(schema: Option<Schema>) -> ResponseEntry {
    ResponseEntry::Inline(Response {
        content: vec![("application/json".to_string(), MediaType { schema })],
    })
}

#[test]
fn referenced_response_fails_the_operation() {
    let entries = vec![("200".to_string(), ResponseEntry::Referenced)];
    assert_eq!(
        Responses::try_from_entries(&entries).unwrap_err(),
        ParseKind::Unimplemented
    );
}

#[test]
fn json_response_without_schema_resolves_to_any() {
    let entries = vec![("200".to_string(), json_response(None))];
    let r = Responses::try_from_entries(&entries).unwrap();
    assert_eq!(r.responses.entries.len(), 1);
    assert_eq!(r.responses.entries[0].0, "200");
    assert_eq!(r.responses.entries[0].1, Type::Any);
}

#[test]
fn non_json_media_types_are_ignored() {
    let entries = vec![(
        "200".to_string(),
        ResponseEntry::Inline(Response {
            content: vec![(
                "text/plain".to_string(),
                MediaType { schema: Some(scalar_schema(InstanceType::String)) },
            )],
        }),
    )];
    let r = Responses::try_from_entries(&entries).unwrap();
    assert_eq!(r.responses.entries.len(), 0);
}

fn empty_operation() -> Operation {
    Operation {
        parameters: vec![],
        request_body: None,
        responses: vec![],
        description: None,
        security: vec![],
    }
}

#[test]
fn referenced_parameters_are_dropped() {
    let mut op = empty_operation();
    op.parameters = vec![ParameterEntry::Referenced];
    let f = Function::try_from_operation(&op).unwrap();
    assert_eq!(f.arguments.len(), 0);
}

#[test]
fn non_required_parameter_is_wrapped_in_optional() {
    let mut op = empty_operation();
    op.parameters = vec![
        ParameterEntry::Inline(Parameter {
            name: "limit".to_string(),
            location: "query".to_string(),
            required: false,
            value: ParameterValue::SchemaValue(scalar_schema(InstanceType::Integer)),
        }),
        ParameterEntry::Inline(Parameter {
            name: "id".to_string(),
            location: "path".to_string(),
            required: true,
            value: ParameterValue::SchemaValue(scalar_schema(InstanceType::String)),
        }),
    ];
    let f = Function::try_from_operation(&op).unwrap();
    assert_eq!(f.arguments.len(), 2);
    assert_eq!(f.arguments[0].name, "limit");
    assert_eq!(f.arguments[0].ty, Type::Option(Box::new(Type::Integer)));
    assert_eq!(f.arguments[1].name, "id");
    assert_eq!(f.arguments[1].ty, Type::String);
}

#[test]
fn operation_security_names_are_kept_verbatim() {
    let mut op = empty_operation();
    op.security = vec![
        vec!["first".to_string(), "second".to_string()],
        vec!["third".to_string()],
    ];
    let f = Function::try_from_operation(&op).unwrap();
    assert_eq!(f.security_schemes, vec!["first", "second", "third"]);
}

#[test]
fn only_basic_http_schemes_are_accepted() {
    let raw = vec![
        (
            "main".to_string(),
            SecuritySchemeEntry::Inline(SecuritySchemeData::Http {
                scheme: "basic".to_string(),
                bearer_format: None,
            }),
        ),
        (
            "bearerish".to_string(),
            SecuritySchemeEntry::Inline(SecuritySchemeData::Http {
                scheme: "bearer".to_string(),
                bearer_format: Some("JWT".to_string()),
            }),
        ),
        ("keyed".to_string(), SecuritySchemeEntry::Inline(SecuritySchemeData::NonHttp)),
        ("linked".to_string(), SecuritySchemeEntry::Referenced),
    ];
    let (map, skipped) = apigen::parse::security_schemes(&raw);
    assert_eq!(map.entries.len(), 1);
    assert_eq!(map.entries[0].0, "main");
    assert_eq!(map.entries[0].1, SecurityScheme::BasicAuth);
    assert_eq!(skipped, vec!["bearerish", "keyed", "linked"]);
}

#[test]
fn string_order_and_search_behave_lexicographically() {
    assert!(apigen::strings::str_lt("alpha", "beta"));
    assert!(!apigen::strings::str_lt("beta", "alpha"));
    assert!(apigen::strings::str_lt("abc", "abcd"));
    assert!(!apigen::strings::str_lt("abc", "abc"));
    assert!(apigen::strings::str_eq("same", "same"));
    assert!(!apigen::strings::str_eq("same", "same "));
    assert!(apigen::strings::str_contains("Basic auth", "asic"));
    assert!(!apigen::strings::str_contains("bearer", "basic"));
    assert_eq!(
        apigen::strings::last_segment("#/components/schemas/Pet"),
        "Pet"
    );
    assert_eq!(apigen::strings::last_segment("plain"), "plain");
}

#[test]
fn ordered_map_inserts_sorted_and_replaces() {
    let mut m: apigen::ordmap::OrdMap<u64> = apigen::ordmap::OrdMap::new();
    m.insert("b".to_string(), 2);
    m.insert("a".to_string(), 1);
    m.insert("c".to_string(), 3);
    m.insert("b".to_string(), 20);
    let items: Vec<(&str, u64)> =
        m.entries.iter().map(|e| (e.0.as_str(), e.1)).collect();
    assert_eq!(items, vec![("a", 1), ("b", 20), ("c", 3)]);
    assert_eq!(m.get("b"), Some(&20));
    assert_eq!(m.get("missing"), None);
}

#[test]
fn struct_docs_come_from_the_schema_description() {
    let s = Schema {
        description: Some("A pet in the store.".to_string()),
        object: Some(ObjectValidation {
            properties: vec![("name".to_string(), scalar_schema(InstanceType::String))],
        }),
        ..blank_schema()
    };
    match Type::try_from_schema(&s).unwrap() {
        Type::Struct(st) => {
            assert_eq!(st.docs, Some("A pet in the store.".to_string()));
        }
        other => panic!("expected a struct, got {:?}", other),
    }
}

#[test]
fn struct_set_docs_replaces_documentation() {
    let mut st = apigen::parse::Struct::from_fields(apigen::ordmap::OrdMap::new());
    assert_eq!(st.docs, None);
    st.set_docs("later".to_string());
    assert_eq!(st.docs, Some("later".to_string()));
}
