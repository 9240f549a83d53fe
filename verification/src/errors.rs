//! The kernel's closed error taxonomy.
//!
//! Every fallible operation returns a [`KernelError`] that carries one of the
//! codes of [`ErrorCode`], a message, and optionally where it happened and a
//! hint on how to mend it.

use vstd::prelude::*;
use vstd::string::*;

verus! {

/// Codes by which a caller tells errors apart.
#[derive(Debug, Clone, Copy, PartialEq, Eq, Hash, Structural)]
pub enum ErrorCode {
    InvalidJson,
    InvalidIntent,
    UnknownPrimitive,
    UnknownOperation,
    MissingParameter,
    InvalidParameter,
    CircularReference,
    CsgError,
    MeshGenerationError,
    StepExportError,
    ConstraintViolation,
    TopologyError,
    InternalError,
}

impl ErrorCode {
    /// The wire name of the code.
    pub open spec fn name(self) -> Seq<char> {
        match self {
            ErrorCode::InvalidJson => "INVALID_JSON"@,
            ErrorCode::InvalidIntent => "INVALID_INTENT"@,
            ErrorCode::UnknownPrimitive => "UNKNOWN_PRIMITIVE"@,
            ErrorCode::UnknownOperation => "UNKNOWN_OPERATION"@,
            ErrorCode::MissingParameter => "MISSING_PARAMETER"@,
            ErrorCode::InvalidParameter => "INVALID_PARAMETER"@,
            ErrorCode::CircularReference => "CIRCULAR_REFERENCE"@,
            ErrorCode::CsgError => "CSG_ERROR"@,
            ErrorCode::MeshGenerationError => "MESH_GENERATION_ERROR"@,
            ErrorCode::StepExportError => "STEP_EXPORT_ERROR"@,
            ErrorCode::ConstraintViolation => "CONSTRAINT_VIOLATION"@,
            ErrorCode::TopologyError => "TOPOLOGY_ERROR"@,
            ErrorCode::InternalError => "INTERNAL_ERROR"@,
        }
    }

    pub fn as_str(&self) -> (s: &'static str)
        ensures
            s@ == self.name(),
    {
        match self {
            ErrorCode::InvalidJson => "INVALID_JSON",
            ErrorCode::InvalidIntent => "INVALID_INTENT",
            ErrorCode::UnknownPrimitive => "UNKNOWN_PRIMITIVE",
            ErrorCode::UnknownOperation => "UNKNOWN_OPERATION",
            ErrorCode::MissingParameter => "MISSING_PARAMETER",
            ErrorCode::InvalidParameter => "INVALID_PARAMETER",
            ErrorCode::CircularReference => "CIRCULAR_REFERENCE",
            ErrorCode::CsgError => "CSG_ERROR",
            ErrorCode::MeshGenerationError => "MESH_GENERATION_ERROR",
            ErrorCode::StepExportError => "STEP_EXPORT_ERROR",
            ErrorCode::ConstraintViolation => "CONSTRAINT_VIOLATION",
            ErrorCode::TopologyError => "TOPOLOGY_ERROR",
            ErrorCode::InternalError => "INTERNAL_ERROR",
        }
    }

    pub fn to_string(&self) -> (s: String)
        ensures
            s@ == self.name(),
    {
        String::from_str(self.as_str())
    }
}

/// No two codes share a wire name.
pub proof fn lemma_code_names_distinct(a: ErrorCode, b: ErrorCode)
    ensures
        a.name() == b.name() <==> a == b,
{
    reveal_strlit("INVALID_JSON");
    reveal_strlit("INVALID_INTENT");
    reveal_strlit("UNKNOWN_PRIMITIVE");
    reveal_strlit("UNKNOWN_OPERATION");
    reveal_strlit("MISSING_PARAMETER");
    reveal_strlit("INVALID_PARAMETER");
    reveal_strlit("CIRCULAR_REFERENCE");
    reveal_strlit("CSG_ERROR");
    reveal_strlit("MESH_GENERATION_ERROR");
    reveal_strlit("STEP_EXPORT_ERROR");
    reveal_strlit("CONSTRAINT_VIOLATION");
    reveal_strlit("TOPOLOGY_ERROR");
    reveal_strlit("INTERNAL_ERROR");
    if a != b {
        // Names differ in length, or else at their first, third or ninth letter.
        assert(a.name().len() != b.name().len() || a.name()[0] != b.name()[0] || a.name()[2]
            != b.name()[2] || a.name()[8] != b.name()[8]);
    }
}

/// Where an error happened.
#[derive(Debug, Clone, PartialEq, Eq)]
pub struct ErrorContext {
    pub operation_id: Option<String>,
    pub primitive_type: Option<String>,
    pub parameter: Option<String>,
    pub line: Option<usize>,
    pub details: Option<String>,
}

/// The text of an optional string, for contracts.
pub open spec fn opt_text(s: Option<String>) -> Option<Seq<char>> {
    match s {
        Some(t) => Some(t@),
        None => None,
    }
}

impl ErrorContext {
    pub fn new() -> (c: Self)
        ensures
            c.operation_id is None,
            c.primitive_type is None,
            c.parameter is None,
            c.line is None,
            c.details is None,
    {
        ErrorContext {
            operation_id: None,
            primitive_type: None,
            parameter: None,
            line: None,
            details: None,
        }
    }

    pub fn with_operation(self, id: &str) -> (c: Self)
        ensures
            opt_text(c.operation_id) == Some(id@),
            c.primitive_type == self.primitive_type,
            c.parameter == self.parameter,
            c.line == self.line,
            c.details == self.details,
    {
        let mut c = self;
        c.operation_id = Some(String::from_str(id));
        c
    }

    pub fn with_primitive(self, type_: &str) -> (c: Self)
        ensures
            opt_text(c.primitive_type) == Some(type_@),
            c.operation_id == self.operation_id,
            c.parameter == self.parameter,
            c.line == self.line,
            c.details == self.details,
    {
        let mut c = self;
        c.primitive_type = Some(String::from_str(type_));
        c
    }

    pub fn with_parameter(self, param: &str) -> (c: Self)
        ensures
            opt_text(c.parameter) == Some(param@),
            c.operation_id == self.operation_id,
            c.primitive_type == self.primitive_type,
            c.line == self.line,
            c.details == self.details,
    {
        let mut c = self;
        c.parameter = Some(String::from_str(param));
        c
    }

    pub fn with_details(self, details: &str) -> (c: Self)
        ensures
            opt_text(c.details) == Some(details@),
            c.operation_id == self.operation_id,
            c.primitive_type == self.primitive_type,
            c.parameter == self.parameter,
            c.line == self.line,
    {
        let mut c = self;
        c.details = Some(String::from_str(details));
        c
    }
}

/// An error of the kernel: a code, a message, and optional context and hint.
#[derive(Debug, Clone, PartialEq, Eq)]
pub struct KernelError {
    pub code: String,
    pub message: String,
    pub context: Option<ErrorContext>,
    pub hint: Option<String>,
}

pub type KernelResult<T> = Result<T, KernelError>;

/// Concatenation of two texts into a fresh string.
pub fn join2(a: &str, b: &str) -> (s: String)
    ensures
        s@ == a@ + b@,
{
    let mut s = String::from_str(a);
    s.append(b);
    s
}

/// Concatenation of three texts into a fresh string.
pub fn join3(a: &str, b: &str, c: &str) -> (s: String)
    ensures
        s@ == a@ + b@ + c@,
{
    let mut s = String::from_str(a);
    s.append(b);
    s.append(c);
    s
}

/// What an error reports, for contracts: its code and what it says.
pub struct Fault {
    pub code: ErrorCode,
    pub message: Seq<char>,
}

impl KernelError {
    /// Whether this error reports the given fault, and nothing besides.
    pub open spec fn reports(self, fault: Fault) -> bool {
        self.is_plain(fault.code, fault.message)
    }

    /// Whether this error carries the given code.
    pub open spec fn has_code(self, code: ErrorCode) -> bool {
        self.code@ == code.name()
    }

    /// An error that carries nothing but its code and message.
    pub open spec fn is_plain(self, code: ErrorCode, message: Seq<char>) -> bool {
        &&& self.code@ == code.name()
        &&& self.message@ == message
        &&& self.context is None
        &&& self.hint is None
    }

    pub fn new(code: ErrorCode, message: &str) -> (e: Self)
        ensures
            e.is_plain(code, message@),
    {
        KernelError {
            code: code.to_string(),
            message: String::from_str(message),
            context: None,
            hint: None,
        }
    }

    pub fn with_context(self, context: ErrorContext) -> (e: Self)
        ensures
            e.context == Some(context),
            e.code == self.code,
            e.message == self.message,
            e.hint == self.hint,
    {
        let mut e = self;
        e.context = Some(context);
        e
    }

    pub fn with_hint(self, hint: &str) -> (e: Self)
        ensures
            opt_text(e.hint) == Some(hint@),
            e.code == self.code,
            e.message == self.message,
            e.context == self.context,
    {
        let mut e = self;
        e.hint = Some(String::from_str(hint));
        e
    }

    /// The error as one line: the code in square brackets, then the message.
    pub fn to_string(&self) -> (s: String)
        ensures
            s@ == "["@ + self.code@ + "] "@ + self.message@,
    {
        let mut s = join3("[", self.code.as_str(), "] ");
        s.append(self.message.as_str());
        s
    }

    pub fn invalid_json(msg: &str) -> (e: Self)
        ensures
            e.is_plain(ErrorCode::InvalidJson, msg@),
    {
        KernelError::new(ErrorCode::InvalidJson, msg)
    }

    pub fn invalid_intent(msg: &str) -> (e: Self)
        ensures
            e.is_plain(ErrorCode::InvalidIntent, msg@),
    {
        KernelError::new(ErrorCode::InvalidIntent, msg)
    }

    pub fn unknown_primitive(type_: &str) -> (e: Self)
        ensures
            e.is_plain(ErrorCode::UnknownPrimitive, "Unknown primitive type: "@ + type_@),
    {
        let msg = join2("Unknown primitive type: ", type_);
        KernelError::new(ErrorCode::UnknownPrimitive, msg.as_str())
    }

    pub fn unknown_operation(type_: &str) -> (e: Self)
        ensures
            e.is_plain(ErrorCode::UnknownOperation, "Unknown operation type: "@ + type_@),
    {
        let msg = join2("Unknown operation type: ", type_);
        KernelError::new(ErrorCode::UnknownOperation, msg.as_str())
    }

    pub fn missing_parameter(param: &str) -> (e: Self)
        ensures
            e.is_plain(ErrorCode::MissingParameter, "Missing required parameter: "@ + param@),
    {
        let msg = join2("Missing required parameter: ", param);
        KernelError::new(ErrorCode::MissingParameter, msg.as_str())
    }

    pub fn invalid_parameter(param: &str, value: &str) -> (e: Self)
        ensures
            e.is_plain(
                ErrorCode::InvalidParameter,
                "Invalid parameter '"@ + param@ + "': "@ + value@,
            ),
    {
        let mut msg = join3("Invalid parameter '", param, "': ");
        msg.append(value);
        KernelError::new(ErrorCode::InvalidParameter, msg.as_str())
    }

    pub fn circular_reference(id: &str) -> (e: Self)
        ensures
            e.is_plain(
                ErrorCode::CircularReference,
                "Circular reference detected involving: "@ + id@,
            ),
    {
        let msg = join2("Circular reference detected involving: ", id);
        KernelError::new(ErrorCode::CircularReference, msg.as_str())
    }

    pub fn csg_error(msg: &str) -> (e: Self)
        ensures
            e.is_plain(ErrorCode::CsgError, msg@),
    {
        KernelError::new(ErrorCode::CsgError, msg)
    }

    pub fn mesh_generation_error(msg: &str) -> (e: Self)
        ensures
            e.is_plain(ErrorCode::MeshGenerationError, msg@),
    {
        KernelError::new(ErrorCode::MeshGenerationError, msg)
    }

    pub fn step_export_error(msg: &str) -> (e: Self)
        ensures
            e.is_plain(ErrorCode::StepExportError, msg@),
    {
        KernelError::new(ErrorCode::StepExportError, msg)
    }

    pub fn constraint_violation(msg: &str) -> (e: Self)
        ensures
            e.is_plain(ErrorCode::ConstraintViolation, msg@),
    {
        KernelError::new(ErrorCode::ConstraintViolation, msg)
    }

    pub fn topology_error(msg: &str) -> (e: Self)
        ensures
            e.is_plain(ErrorCode::TopologyError, msg@),
    {
        KernelError::new(ErrorCode::TopologyError, msg)
    }

    pub fn internal(msg: &str) -> (e: Self)
        ensures
            e.is_plain(ErrorCode::InternalError, msg@),
    {
        KernelError::new(ErrorCode::InternalError, msg)
    }

    /// A structural fault of a dependency graph.
    pub fn invalid_graph(message: &str) -> (e: Self)
        ensures
            e.is_plain(ErrorCode::InternalError, "Invalid graph: "@ + message@),
    {
        let msg = join2("Invalid graph: ", message);
        KernelError::new(ErrorCode::InternalError, msg.as_str())
    }

    /// A node that a graph does not hold.
    pub fn node_not_found(node_id: &str) -> (e: Self)
        ensures
            e.is_plain(ErrorCode::InternalError, "Node not found: "@ + node_id@),
    {
        let msg = join2("Node not found: ", node_id);
        KernelError::new(ErrorCode::InternalError, msg.as_str())
    }
}

} // verus!
