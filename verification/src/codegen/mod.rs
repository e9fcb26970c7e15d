//! Facilities for generating source code.

mod functions;
mod module;
mod types;

pub use functions::{
    arguments, documentation, indents, name, return_type, snake_of, spec_all_same,
    spec_arg_defaulted, spec_arg_plain, spec_args_body, spec_args_optional, spec_args_required,
    spec_arguments, spec_documentation, spec_indents, spec_name, spec_return_type,
    spec_union_item, spec_union_items, spec_var_to_url_str, var_to_url_str, Return,
    body, functions, query_param_arguments, signature, spec_any_basic, spec_body,
    spec_extend_item, spec_extend_items, spec_functions, spec_functions_text, spec_has_body,
    spec_has_query, spec_init_item, spec_init_items, spec_list_item_ty,
    spec_query_param_arguments, spec_signature, spec_status_branches,
};
pub use types::{
    spec_class_block, spec_field_line, spec_fields_block, spec_forward_refs, spec_struct_body,
    spec_type_to_string, spec_types, spec_types_blocks, type_to_string, types,
};
pub use module::{module, spec_header, spec_module, spec_scheme_diags};
