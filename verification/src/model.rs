//! The structural document tree the resolvers consume: the parts of an
//! OpenAPI v3 document that carry typing information, held as plain values.
//! The decoder that produces this tree from YAML or JSON text lives outside
//! the library; the resolvers never touch raw document text.

use vstd::prelude::*;

verus! {

/// A JSON-Schema primitive type keyword.
#[derive(Debug, Clone, Copy, PartialEq, Eq, Structural)]
pub enum InstanceType {
    /// `type: "null"`
    Null,
    /// `type: boolean`
    Boolean,
    /// `type: integer`
    Integer,
    /// `type: number`
    Number,
    /// `type: string`
    String,
    /// `type: object`
    Object,
    /// `type: array`
    Array,
}

/// The `type` keyword of a schema: absent, one keyword, or a list of them.
#[derive(Debug, Clone, Copy, PartialEq, Eq, Structural)]
pub enum TypeDecl {
    /// No `type` keyword.
    Absent,
    /// A single type keyword.
    Single(InstanceType),
    /// A list of type keywords (unsupported downstream).
    Multiple,
}

/// The `items` keyword of an array schema.
#[derive(Debug, PartialEq, Eq)]
pub enum Items {
    /// No `items` keyword.
    Absent,
    /// A single schema object.
    Node(Box<Schema>),
    /// A bare boolean schema (unsupported downstream).
    BoolSchema,
    /// A list of schemas (unsupported downstream).
    Multiple,
}

/// Array-specific schema keywords.
#[derive(Debug, PartialEq, Eq)]
pub struct ArrayValidation {
    /// The item schema.
    pub items: Items,
    /// The `uniqueItems` keyword.
    pub unique_items: Option<bool>,
}

/// Object-specific schema keywords.
#[derive(Debug, PartialEq, Eq)]
pub struct ObjectValidation {
    /// Named properties, in document order.
    pub properties: Vec<(String, Schema)>,
}

/// A JSON-Schema-shaped node describing a value's shape.
#[derive(Debug, PartialEq, Eq)]
pub struct Schema {
    /// A `$ref` to another schema, when present.
    pub reference: Option<String>,
    /// The `type` keyword.
    pub instance_type: TypeDecl,
    /// Object keywords, when present.
    pub object: Option<ObjectValidation>,
    /// Array keywords, when present.
    pub array: Option<ArrayValidation>,
    /// The `description` metadata string.
    pub description: Option<String>,
    /// The `deprecated` metadata flag.
    pub deprecated: bool,
}

/// A media type entry under a `content` map.
#[derive(Debug, PartialEq, Eq)]
pub struct MediaType {
    /// The payload schema, when declared.
    pub schema: Option<Schema>,
}

/// One response of an operation: inline, or a reference to a component.
#[derive(Debug, PartialEq, Eq)]
pub enum ResponseEntry {
    /// A `$ref` to a reusable response (unsupported downstream).
    Referenced,
    /// An inline response object.
    Inline(Response),
}

/// An inline response object.
#[derive(Debug, PartialEq, Eq)]
pub struct Response {
    /// Media type entries keyed by media type name, in document order.
    pub content: Vec<(String, MediaType)>,
}

/// How a parameter carries its type: a schema, or a content map.
#[derive(Debug, PartialEq, Eq)]
pub enum ParameterValue {
    /// A schema object.
    SchemaValue(Schema),
    /// A content map (dropped downstream).
    ContentValue,
}

/// An inline operation parameter.
#[derive(Debug, PartialEq, Eq)]
pub struct Parameter {
    /// The parameter name.
    pub name: String,
    /// Where the parameter is passed, as the document spells it.
    pub location: String,
    /// Whether the parameter must be supplied.
    pub required: bool,
    /// The parameter's type information.
    pub value: ParameterValue,
}

/// One parameter of an operation: inline, or a reference to a component.
#[derive(Debug, PartialEq, Eq)]
pub enum ParameterEntry {
    /// A `$ref` to a reusable parameter (dropped downstream).
    Referenced,
    /// An inline parameter object.
    Inline(Parameter),
}

/// An inline request body object.
#[derive(Debug, PartialEq, Eq)]
pub struct RequestBody {
    /// Media type entries keyed by media type name, in document order.
    pub content: Vec<(String, MediaType)>,
}

/// The request body of an operation: inline, or a reference to a component.
#[derive(Debug, PartialEq, Eq)]
pub enum RequestBodyEntry {
    /// A `$ref` to a reusable request body (dropped downstream).
    Referenced,
    /// An inline request body object.
    Inline(RequestBody),
}

/// One HTTP method handler at one path.
#[derive(Debug, PartialEq, Eq)]
pub struct Operation {
    /// Declared parameters, in document order.
    pub parameters: Vec<ParameterEntry>,
    /// The declared request body, when present.
    pub request_body: Option<RequestBodyEntry>,
    /// Responses keyed by status-code string, in document order.
    pub responses: Vec<(String, ResponseEntry)>,
    /// The operation's description.
    pub description: Option<String>,
    /// Declared security requirements: each is a list of scheme names.
    pub security: Vec<Vec<String>>,
}

/// The operations declared at one path.
#[derive(Debug, PartialEq, Eq)]
pub struct PathItem {
    /// The GET operation, when declared.
    pub get: Option<Operation>,
    /// The PUT operation, when declared.
    pub put: Option<Operation>,
    /// The POST operation, when declared.
    pub post: Option<Operation>,
    /// The DELETE operation, when declared.
    pub delete: Option<Operation>,
    /// The OPTIONS operation, when declared.
    pub options: Option<Operation>,
    /// The HEAD operation, when declared.
    pub head: Option<Operation>,
    /// The PATCH operation, when declared.
    pub patch: Option<Operation>,
    /// The TRACE operation, when declared.
    pub trace: Option<Operation>,
}

/// A document-level security scheme definition.
#[derive(Debug, PartialEq, Eq)]
pub enum SecuritySchemeData {
    /// An HTTP scheme with its scheme string and optional bearer format.
    Http {
        /// The HTTP authentication scheme string.
        scheme: String,
        /// The declared bearer format, when present.
        bearer_format: Option<String>,
    },
    /// Any non-HTTP kind of scheme (skipped downstream).
    NonHttp,
}

/// One security scheme entry: inline, or a reference to a component.
#[derive(Debug, PartialEq, Eq)]
pub enum SecuritySchemeEntry {
    /// A `$ref` to a reusable scheme (skipped downstream).
    Referenced,
    /// An inline scheme definition.
    Inline(SecuritySchemeData),
}

/// A whole OpenAPI document, reduced to what resolution and generation read.
#[derive(Debug, PartialEq, Eq)]
pub struct Document {
    /// The document title.
    pub title: String,
    /// The document description, when present.
    pub description: Option<String>,
    /// Component schemas keyed by name, in document order.
    pub schemas: Vec<(String, Schema)>,
    /// Security scheme definitions keyed by name, in document order.
    pub security_schemes: Vec<(String, SecuritySchemeEntry)>,
    /// Path items keyed by path, in document order.
    pub paths: Vec<(String, PathItem)>,
}

} // verus!
