//! Protocol errors and structured tool output.

use crate::json::{
    by_key, json_str, json_text, lemma_filled_members, lemma_last_pushed, member, no_fields,
    render, Json, JsonObject, JsonValue,
};
use crate::project::{IdentifierError, ProjectId};
use crate::text::{concat2, concat3, has_prefix, optional_text, starts_with_text};
use vstd::prelude::*;
use vstd::string::*;

verus! {

/// JSON-RPC error classes that the server answers with.
#[derive(Clone, Copy, Debug, PartialEq, Eq, Structural)]
pub enum ErrorCode {
    InvalidParams,
    InternalError,
}

/// An error answer.
#[derive(Debug, PartialEq, Eq)]
pub struct McpError {
    pub code: ErrorCode,
    pub message: String,
    pub data: Option<JsonValue>,
}

/// The model of an error answer.
pub struct ErrorModel {
    pub code: ErrorCode,
    pub message: Seq<char>,
    pub data: Option<Json>,
}

pub open spec fn optional_json(value: Option<JsonValue>) -> Option<Json> {
    match value {
        Some(value) => Some(value@),
        None => None,
    }
}

impl View for McpError {
    type V = ErrorModel;

    open spec fn view(&self) -> ErrorModel {
        ErrorModel { code: self.code, message: self.message@, data: optional_json(self.data) }
    }
}

pub open spec fn invalid_params(message: Seq<char>) -> ErrorModel {
    ErrorModel { code: ErrorCode::InvalidParams, message, data: None }
}

pub open spec fn internal_error(message: Seq<char>) -> ErrorModel {
    ErrorModel { code: ErrorCode::InternalError, message, data: None }
}

impl McpError {
    pub fn invalid_params(message: &str) -> (error: McpError)
        ensures
            error@ == invalid_params(message@),
    {
        McpError { code: ErrorCode::InvalidParams, message: message.to_owned(), data: None }
    }

    pub fn internal_error(message: &str) -> (error: McpError)
        ensures
            error@ == internal_error(message@),
    {
        McpError { code: ErrorCode::InternalError, message: message.to_owned(), data: None }
    }
}

/// The number of an error code.
pub open spec fn code_text(code: ErrorCode) -> Seq<char> {
    match code {
        ErrorCode::InvalidParams => "-32602"@,
        ErrorCode::InternalError => "-32603"@,
    }
}

/// An error in one line: its code, its message and its data.
pub open spec fn error_text(error: ErrorModel) -> Seq<char> {
    let line = code_text(error.code) + ": "@ + error.message;
    match error.data {
        Some(data) => line + "("@ + json_text(data) + ")"@,
        None => line,
    }
}

impl McpError {
    /// The error in one line.
    pub fn text(&self) -> (text: String)
        ensures
            text@ == error_text(self@),
    {
        let code = match self.code {
            ErrorCode::InvalidParams => "-32602",
            ErrorCode::InternalError => "-32603",
        };
        let line = concat3(code, ": ", self.message.as_str());
        match &self.data {
            Some(data) => {
                let head = concat3(line.as_str(), "(", render(data).as_str());
                concat2(head.as_str(), ")")
            },
            None => line,
        }
    }
}

/// The data of an error that a client can act on.
pub open spec fn actionable_data(
    code: Seq<char>,
    message: Seq<char>,
    action: Seq<char>,
    retryable: bool,
) -> Json {
    Json::Object(
        by_key(
            no_fields().push(("code"@, Json::Text(code))).push(
                ("message"@, Json::Text(message)),
            ).push(("action"@, Json::Text(action))).push(("retryable"@, Json::Bool(retryable))),
        ),
    )
}

fn actionable(code: &str, message: &str, action: &str, retryable: bool) -> (data: JsonValue)
    ensures
        data@ == actionable_data(code@, message@, action@, retryable),
{
    let mut fields = JsonObject::new();
    fields.put("code", json_str(code));
    fields.put("message", json_str(message));
    fields.put("action", json_str(action));
    fields.put("retryable", JsonValue::Bool(retryable));
    fields.into_map()
}

pub open spec fn operation_failure(message: Seq<char>) -> ErrorModel {
    ErrorModel {
        code: ErrorCode::InternalError,
        message,
        data: Some(
            actionable_data(
                "operation_failed"@,
                message,
                "Check project status and request parameters, then retry."@,
                true,
            ),
        ),
    }
}

/// The answer to a failed operation, with the data to recover from it.
pub fn operation_error(message: &str) -> (error: McpError)
    ensures
        error@ == operation_failure(message@),
{
    McpError {
        code: ErrorCode::InternalError,
        message: message.to_owned(),
        data: Some(
            actionable(
                "operation_failed",
                message,
                "Check project status and request parameters, then retry.",
                true,
            ),
        ),
    }
}

pub open spec fn unregistered_project(message: Seq<char>) -> ErrorModel {
    ErrorModel {
        code: ErrorCode::InvalidParams,
        message,
        data: Some(
            actionable_data(
                "project_not_registered"@,
                message,
                "Call project_list to discover registered IDs; use project_add for a new root."@,
                false,
            ),
        ),
    }
}

/// The answer to a request for a project that is not registered.
pub fn project_not_registered_error(message: &str) -> (error: McpError)
    ensures
        error@ == unregistered_project(message@),
{
    McpError {
        code: ErrorCode::InvalidParams,
        message: message.to_owned(),
        data: Some(
            actionable(
                "project_not_registered",
                message,
                "Call project_list to discover registered IDs; use project_add for a new root.",
                false,
            ),
        ),
    }
}

/// Whether a registry message says that the project is not registered.
pub open spec fn names_unregistered_project(message: Seq<char>) -> bool {
    has_prefix(message, "project is not registered:"@)
}

pub open spec fn routing_failure(message: Seq<char>) -> ErrorModel {
    if names_unregistered_project(message) {
        unregistered_project(message)
    } else {
        invalid_params(message)
    }
}

/// The answer to a request that could not be routed.
pub fn project_routing_error(message: &str) -> (error: McpError)
    ensures
        error@ == routing_failure(message@),
{
    if starts_with_text(message, "project is not registered:") {
        project_not_registered_error(message)
    } else {
        McpError::invalid_params(message)
    }
}

pub open spec fn project_failure(message: Seq<char>) -> ErrorModel {
    if names_unregistered_project(message) {
        unregistered_project(message)
    } else {
        operation_failure(message)
    }
}

/// The answer to a failed project operation.
pub fn project_operation_error(message: &str) -> (error: McpError)
    ensures
        error@ == project_failure(message@),
{
    if starts_with_text(message, "project is not registered:") {
        project_not_registered_error(message)
    } else {
        operation_error(message)
    }
}

/// Reads a project identifier out of a request.
pub fn parse_project_id(value: &str) -> (id: Result<ProjectId, McpError>)
    ensures
        match id {
            Ok(id) => value@.len() > 0 && id@ == value@,
            Err(error) => value@.len() == 0 && error@ == invalid_params(
                crate::project::identifier_error_text(IdentifierError::EmptyProjectId),
            ),
        },
{
    match ProjectId::new(value) {
        Ok(id) => Ok(id),
        Err(error) => Err(McpError::invalid_params(error.message().as_str())),
    }
}

/// Structured tool output with its text forms.
#[derive(Debug, PartialEq, Eq)]
pub struct StructuredOutput {
    pub value: JsonValue,
    pub legacy: String,
    pub summary: Option<String>,
}

/// A tool answer: one text block and the structured content.
#[derive(Debug, PartialEq, Eq)]
pub struct ToolAnswer {
    pub text: String,
    pub structured_content: JsonValue,
}

/// The text of a tool answer: the summary if there is one, else the JSON text
/// where legacy text is wanted, else a pointer to the structured content.
pub open spec fn answer_text(output: StructuredOutput, legacy_text: bool) -> Seq<char> {
    match output.summary {
        Some(summary) => summary@,
        None => if legacy_text {
            output.legacy@
        } else {
            "Structured result available in structuredContent."@
        },
    }
}

impl StructuredOutput {
    pub fn new(value: JsonValue, legacy: String) -> (output: Self)
        ensures
            output.value@ == value@,
            output.legacy@ == legacy@,
            output.summary is None,
    {
        StructuredOutput { value, legacy, summary: None }
    }

    pub fn with_summary(value: JsonValue, legacy: String, summary: String) -> (output: Self)
        ensures
            output.value@ == value@,
            output.legacy@ == legacy@,
            optional_text(output.summary) == Some(summary@),
    {
        StructuredOutput { value, legacy, summary: Some(summary) }
    }

    pub fn into_result(self, legacy_text: bool) -> (answer: ToolAnswer)
        ensures
            answer.text@ == answer_text(self, legacy_text),
            answer.structured_content@ == self.value@,
    {
        let text = match self.summary {
            Some(summary) => summary,
            None => if legacy_text {
                self.legacy
            } else {
                "Structured result available in structuredContent.".to_owned()
            },
        };
        ToolAnswer { text, structured_content: self.value }
    }
}

/// Whether an output carries a value and its compact text, without a summary.
pub open spec fn encodes(output: StructuredOutput, value: Json) -> bool {
    &&& output.value@ == value
    &&& output.legacy@ == json_text(value)
    &&& output.summary is None
}

/// Encodes a value as tool output.
pub fn encode_json(value: JsonValue) -> (output: StructuredOutput)
    ensures
        encodes(output, value@),
{
    let legacy = render(&value);
    StructuredOutput::new(value, legacy)
}

/// Encodes the result of an operation as tool output.
pub fn encode_tool_result(result: Result<JsonValue, String>) -> (output: Result<
    StructuredOutput,
    McpError,
>)
    ensures
        match result {
            Ok(value) => output matches Ok(output) && encodes(output, value@),
            Err(message) => output matches Err(error) && error@ == operation_failure(message@),
        },
{
    match result {
        Ok(value) => Ok(encode_json(value)),
        Err(message) => Err(operation_error(message.as_str())),
    }
}

/// A refused request and a failed one differ in their code, and carry their message
/// and nothing else.
pub proof fn law_plain_error_carries_its_message(message: Seq<char>)
    ensures
        invalid_params(message).code == ErrorCode::InvalidParams,
        invalid_params(message).message == message,
        invalid_params(message).data is None,
        internal_error(message).code == ErrorCode::InternalError,
        internal_error(message).message == message,
        internal_error(message).data is None,
{
}

/// Whether an error explains itself to a client: what happened under a name, what to
/// do about it, and whether to try again.
pub open spec fn explains(
    error: ErrorModel,
    code: Seq<char>,
    message: Seq<char>,
    action: Seq<char>,
    retryable: bool,
) -> bool {
    &&& error.message == message
    &&& error.data matches Some(data) && {
        &&& member(data, "code"@) == Some(Json::Text(code))
        &&& member(data, "message"@) == Some(Json::Text(message))
        &&& member(data, "action"@) == Some(Json::Text(action))
        &&& member(data, "retryable"@) == Some(Json::Bool(retryable))
    }
}

proof fn lemma_actionable(code: Seq<char>, message: Seq<char>, action: Seq<char>, retryable: bool)
    ensures
        ({
            let data = actionable_data(code, message, action, retryable);
            &&& member(data, "code"@) == Some(Json::Text(code))
            &&& member(data, "message"@) == Some(Json::Text(message))
            &&& member(data, "action"@) == Some(Json::Text(action))
            &&& member(data, "retryable"@) == Some(Json::Bool(retryable))
        }),
{
    reveal_strlit("code");
    reveal_strlit("message");
    reveal_strlit("action");
    reveal_strlit("retryable");
    assert("code"@.len() == 4);
    assert("message"@.len() == 7);
    assert("action"@.len() == 6);
    assert("retryable"@.len() == 9);
    lemma_last_pushed();
    lemma_filled_members(
        no_fields().push(("code"@, Json::Text(code))).push(("message"@, Json::Text(message))).push(
            ("action"@, Json::Text(action)),
        ).push(("retryable"@, Json::Bool(retryable))),
    );
}

/// A failed operation may be tried again, and says so.
pub proof fn law_failed_operation_may_be_retried(message: Seq<char>)
    ensures
        operation_failure(message).code == ErrorCode::InternalError,
        explains(
            operation_failure(message),
            "operation_failed"@,
            message,
            "Check project status and request parameters, then retry."@,
            true,
        ),
{
    lemma_actionable(
        "operation_failed"@,
        message,
        "Check project status and request parameters, then retry."@,
        true,
    );
}

/// A message that a project is not registered points to the list of projects and is
/// not worth trying again, whether the project was to be found or worked on. Any
/// other message is a refused request in the one case and a failed operation in the
/// other.
pub proof fn law_unknown_project_is_pointed_to_the_list(message: Seq<char>, name: Seq<char>)
    ensures
        ({
            let unknown = "project is not registered:"@ + name;
            &&& routing_failure(unknown).code == ErrorCode::InvalidParams
            &&& routing_failure(unknown) == project_failure(unknown)
            &&& explains(
                routing_failure(unknown),
                "project_not_registered"@,
                unknown,
                "Call project_list to discover registered IDs; use project_add for a new root."@,
                false,
            )
        }),
        (forall|rest: Seq<char>| message != #[trigger] ("project is not registered:"@ + rest)) ==> {
            &&& routing_failure(message) == invalid_params(message)
            &&& project_failure(message) == operation_failure(message)
        },
{
    let prefix = "project is not registered:"@;
    let unknown = prefix + name;
    assert(unknown.take(prefix.len() as int) =~= prefix);
    lemma_actionable(
        "project_not_registered"@,
        unknown,
        "Call project_list to discover registered IDs; use project_add for a new root."@,
        false,
    );
    if has_prefix(message, prefix) {
        assert(message =~= prefix + message.skip(prefix.len() as int));
    }
}

/// The text of an error starts with the number of its code and gives its message,
/// then its data in brackets where there is any.
pub proof fn law_error_text_gives_code_and_message(message: Seq<char>, data: Json, code: ErrorCode)
    ensures
        error_text(invalid_params(message)) == "-32602"@ + ": "@ + message,
        error_text(internal_error(message)) == "-32603"@ + ": "@ + message,
        error_text(ErrorModel { code, message, data: Some(data) }) == error_text(
            ErrorModel { code, message, data: None },
        ) + "("@ + json_text(data) + ")"@,
{
}

/// An answer reads as its summary where it has one. Else it reads as the older text
/// where that is asked for, and points to the structured content where not.
pub proof fn law_answer_reads_as_its_summary(output: StructuredOutput, legacy_text: bool)
    ensures
        output.summary matches Some(summary) ==> answer_text(output, legacy_text) == summary@,
        output.summary is None && legacy_text ==> answer_text(output, legacy_text)
            == output.legacy@,
        output.summary is None && !legacy_text ==> answer_text(output, legacy_text)
            == "Structured result available in structuredContent."@,
{
}

/// A value that is encoded without a summary reads, for an older client, as its own
/// text.
pub proof fn law_encoded_value_reads_as_its_text(output: StructuredOutput, value: Json)
    requires
        encodes(output, value),
    ensures
        output.value@ == value,
        answer_text(output, true) == json_text(value),
{
}

} // verus!
