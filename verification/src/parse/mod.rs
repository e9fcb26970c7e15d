//! Facilities for parsing the document tree into meaningful structures.

mod error;
mod field;
mod function;
mod responses;
mod security_schemes;
mod structs;
mod types;

pub use error::ParseKind;
pub(crate) use types::lemma_fields_wf_insert;
pub use field::Field;
pub use function::{
    args_view, args_wf, argument_view, function_v_wf, function_view, function_view_fn,
    functions_wf, spec_arguments_from, spec_body_argument, spec_insert_op, spec_location,
    spec_path_functions, spec_security_names, spec_try_from_operation, spec_try_from_paths,
    strs_view, Argument, ArgumentV, Function, FunctionV, Location,
};
pub use responses::{
    content_json_type, opt_type_result_view, spec_content_type, spec_responses_from,
    type_view_fn, types_wf_kv, Responses,
};
pub use security_schemes::{scheme_view_fn, security_schemes, spec_security_schemes, SecurityScheme};
pub use structs::Struct;
pub use types::{
    field_result_view, field_view, fields_view, fields_wf, opt_str_view, spec_field,
    spec_resolve, spec_struct_fields_from, spec_try_from_array, spec_try_from_object,
    spec_try_from_ref, spec_try_from_simple, struct_view, type_result_view, type_v_wf, type_view,
    lemma_fields_view_keys, FieldV, StructV, Type, TypeV,
};
