//! What tool requests ask for: routes, bounds and edits.

use crate::decimal::{decimal, law_decimal_round_trip, parse_unsigned, unsigned_value};
use crate::errors::{invalid_params, parse_project_id, ErrorCode, ErrorModel, McpError};
use crate::json::{
    by_key, handed_over, json_str, lemma_filled_members, lemma_last_pushed, member, no_fields,
    texts_within, Json, JsonObject, JsonValue,
};
use crate::paths::FilePath;
use crate::previews::{
    dialect_name, parse_structural_dialect, unsupported_dialect, StructuralDialect,
};
use crate::project::{identifier_error_text, is_empty_text, IdentifierError, PlanId, ProjectId};
use crate::resources::{
    file_path_of, parse_lsp_uri, parsed_uri, percent_decoded, uri_parts_model, uri_parts_to_path,
    UriParts,
};
use crate::text::{concat2, contains_text, has_text, optional_text, same_text};
use crate::tools::{
    CallHierarchyCallsParams, CallHierarchyPrepareParams, CodeActionPreviewParams,
    DiagnosticsMode, FormatPreviewParams, FormatRange, MoveInlineModulePreviewParams,
    MoveItemPreviewParams, PathRenamePreviewParams, Position, RangeFormatPreviewParams,
    RenamePreviewParams, StructuralReplacePreviewParams, SymbolHandle, WorkspaceEditPreviewParams,
};
use vstd::prelude::*;
use vstd::string::*;
use vstd::utf8::*;

verus! {

/// How positions count characters.
#[derive(Clone, Copy, Debug, PartialEq, Eq, Structural)]
pub enum PositionEncoding {
    Utf8,
    Utf16,
    Utf32,
}

pub open spec fn encoding_name(encoding: PositionEncoding) -> Seq<char> {
    match encoding {
        PositionEncoding::Utf8 => "utf-8"@,
        PositionEncoding::Utf16 => "utf-16"@,
        PositionEncoding::Utf32 => "utf-32"@,
    }
}

/// The position encoding that a request asks for: UTF-8 unless it names one.
pub open spec fn requested_encoding(value: Option<Seq<char>>) -> Result<
    PositionEncoding,
    ErrorModel,
> {
    match value {
        None => Ok(PositionEncoding::Utf8),
        Some(value) => if value == encoding_name(PositionEncoding::Utf8) {
            Ok(PositionEncoding::Utf8)
        } else if value == encoding_name(PositionEncoding::Utf16) {
            Ok(PositionEncoding::Utf16)
        } else if value == encoding_name(PositionEncoding::Utf32) {
            Ok(PositionEncoding::Utf32)
        } else {
            Err(invalid_params("unsupported position encoding: "@ + value))
        },
    }
}

/// Reads a position encoding out of a request.
pub fn parse_position_encoding(value: &Option<String>) -> (encoding: Result<
    PositionEncoding,
    McpError,
>)
    ensures
        requested_encoding(optional_text(*value)) == match encoding {
            Ok(encoding) => Ok::<PositionEncoding, ErrorModel>(encoding),
            Err(error) => Err::<PositionEncoding, ErrorModel>(error@),
        },
{
    match value {
        None => Ok(PositionEncoding::Utf8),
        Some(value) => {
            let name = value.as_str();
            if same_text(name, "utf-8") {
                Ok(PositionEncoding::Utf8)
            } else if same_text(name, "utf-16") {
                Ok(PositionEncoding::Utf16)
            } else if same_text(name, "utf-32") {
                Ok(PositionEncoding::Utf32)
            } else {
                let message = concat2("unsupported position encoding: ", name);
                Err(McpError::invalid_params(message.as_str()))
            }
        },
    }
}

/// The project that a request names, or why it names none.
pub open spec fn requested_project(value: Seq<char>) -> Result<Seq<char>, ErrorModel> {
    if value.len() == 0 {
        Err(invalid_params(identifier_error_text(IdentifierError::EmptyProjectId)))
    } else {
        Ok(value)
    }
}

/// The project and the encoding that an edit request names; the project is
/// looked at first.
pub open spec fn requested_edit(project: Seq<char>, encoding: Option<Seq<char>>) -> Result<
    (Seq<char>, PositionEncoding),
    ErrorModel,
> {
    match requested_project(project) {
        Err(error) => Err(error),
        Ok(project) => match requested_encoding(encoding) {
            Err(error) => Err(error),
            Ok(encoding) => Ok((project, encoding)),
        },
    }
}

/// Reads the project and the encoding out of an edit request.
pub fn parse_edit_request(project_id: &str, position_encoding: &Option<String>) -> (request: Result<
    (ProjectId, PositionEncoding),
    McpError,
>)
    ensures
        requested_edit(project_id@, optional_text(*position_encoding)) == match request {
            Ok((id, encoding)) => Ok::<(Seq<char>, PositionEncoding), ErrorModel>((id@, encoding)),
            Err(error) => Err::<(Seq<char>, PositionEncoding), ErrorModel>(error@),
        },
{
    let id = match parse_project_id(project_id) {
        Ok(id) => id,
        Err(error) => {
            return Err(error);
        },
    };
    match parse_position_encoding(position_encoding) {
        Ok(encoding) => Ok((id, encoding)),
        Err(error) => Err(error),
    }
}

/// An edit that a language server is asked for.
#[derive(Debug, PartialEq, Eq)]
pub enum GeneratedEditRequest {
    Rename { file_path: String, line: u32, character: u32, new_name: String },
    Format { file_path: String, tab_size: u32, insert_spaces: bool },
    RangeFormat {
        file_path: String,
        start: (u32, u32),
        end: (u32, u32),
        tab_size: u32,
        insert_spaces: bool,
    },
    MoveItem { file_path: String, start: (u32, u32), end: (u32, u32), direction: String },
}

/// A well-formed request for a generated edit.
#[derive(Debug, PartialEq, Eq)]
pub struct GeneratedEdit {
    pub project_id: ProjectId,
    pub request: GeneratedEditRequest,
    pub encoding: PositionEncoding,
    /// Whether the answer says if the server supports the edit.
    pub capability_gated: bool,
}

/// Whether an edit is what a request for it asks for.
pub open spec fn asks_edit(
    edit: Result<GeneratedEdit, McpError>,
    project: Seq<char>,
    encoding: Option<Seq<char>>,
    capability_gated: bool,
) -> bool {
    match requested_edit(project, encoding) {
        Ok((project, encoding)) => {
            &&& edit matches Ok(edit) && edit.project_id@ == project && edit.encoding == encoding
                && edit.capability_gated == capability_gated
        },
        Err(reason) => edit matches Err(error) && error@ == reason,
    }
}

/// Reads a rename request.
pub fn rename_preview(params: RenamePreviewParams) -> (edit: Result<GeneratedEdit, McpError>)
    ensures
        asks_edit(edit, params.project_id@, optional_text(params.position_encoding), false),
        edit matches Ok(edit) ==> edit.request == (GeneratedEditRequest::Rename {
            file_path: params.file_path,
            line: params.line,
            character: params.character,
            new_name: params.new_name,
        }),
{
    let (project_id, encoding) = match parse_edit_request(
        params.project_id.as_str(),
        &params.position_encoding,
    ) {
        Ok(request) => request,
        Err(error) => {
            return Err(error);
        },
    };
    Ok(
        GeneratedEdit {
            project_id,
            request: GeneratedEditRequest::Rename {
                file_path: params.file_path,
                line: params.line,
                character: params.character,
                new_name: params.new_name,
            },
            encoding,
            capability_gated: false,
        },
    )
}

/// Reads a formatting request: of the document, or of a range where there is
/// one. Range formatting depends on what the server supports.
pub fn format_preview(params: FormatPreviewParams) -> (edit: Result<GeneratedEdit, McpError>)
    ensures
        asks_edit(
            edit,
            params.project_id@,
            optional_text(params.position_encoding),
            params.range is Some,
        ),
        edit matches Ok(edit) ==> edit.request == match params.range {
            Some(range) => GeneratedEditRequest::RangeFormat {
                file_path: params.file_path,
                start: (range.start_line, range.start_character),
                end: (range.end_line, range.end_character),
                tab_size: params.tab_size,
                insert_spaces: params.insert_spaces,
            },
            None => GeneratedEditRequest::Format {
                file_path: params.file_path,
                tab_size: params.tab_size,
                insert_spaces: params.insert_spaces,
            },
        },
{
    let (project_id, encoding) = match parse_edit_request(
        params.project_id.as_str(),
        &params.position_encoding,
    ) {
        Ok(request) => request,
        Err(error) => {
            return Err(error);
        },
    };
    match params.range {
        Some(range) => Ok(
            GeneratedEdit {
                project_id,
                request: GeneratedEditRequest::RangeFormat {
                    file_path: params.file_path,
                    start: (range.start_line, range.start_character),
                    end: (range.end_line, range.end_character),
                    tab_size: params.tab_size,
                    insert_spaces: params.insert_spaces,
                },
                encoding,
                capability_gated: true,
            },
        ),
        None => Ok(
            GeneratedEdit {
                project_id,
                request: GeneratedEditRequest::Format {
                    file_path: params.file_path,
                    tab_size: params.tab_size,
                    insert_spaces: params.insert_spaces,
                },
                encoding,
                capability_gated: false,
            },
        ),
    }
}

/// Reads a range formatting request.
pub fn range_format_preview(params: RangeFormatPreviewParams) -> (edit: Result<
    GeneratedEdit,
    McpError,
>)
    ensures
        asks_edit(edit, params.project_id@, optional_text(params.position_encoding), true),
        edit matches Ok(edit) ==> edit.request == (GeneratedEditRequest::RangeFormat {
            file_path: params.file_path,
            start: (params.start_line, params.start_character),
            end: (params.end_line, params.end_character),
            tab_size: params.tab_size,
            insert_spaces: params.insert_spaces,
        }),
{
    format_preview(
        FormatPreviewParams {
            project_id: params.project_id,
            file_path: params.file_path,
            tab_size: params.tab_size,
            insert_spaces: params.insert_spaces,
            position_encoding: params.position_encoding,
            range: Some(
                FormatRange {
                    start_line: params.start_line,
                    start_character: params.start_character,
                    end_line: params.end_line,
                    end_character: params.end_character,
                },
            ),
        },
    )
}

/// Reads a request to move an item.
pub fn move_item_preview(params: MoveItemPreviewParams) -> (edit: Result<GeneratedEdit, McpError>)
    ensures
        asks_edit(edit, params.project_id@, optional_text(params.position_encoding), true),
        edit matches Ok(edit) ==> edit.request == (GeneratedEditRequest::MoveItem {
            file_path: params.file_path,
            start: (params.start_line, params.start_character),
            end: (params.end_line, params.end_character),
            direction: params.direction,
        }),
{
    let (project_id, encoding) = match parse_edit_request(
        params.project_id.as_str(),
        &params.position_encoding,
    ) {
        Ok(request) => request,
        Err(error) => {
            return Err(error);
        },
    };
    Ok(
        GeneratedEdit {
            project_id,
            request: GeneratedEditRequest::MoveItem {
                file_path: params.file_path,
                start: (params.start_line, params.start_character),
                end: (params.end_line, params.end_character),
                direction: params.direction,
            },
            encoding,
            capability_gated: true,
        },
    )
}

#[verifier::external_type_specification]
#[verifier::external_body]
pub struct ExWorkspaceEdit(lsp_types::WorkspaceEdit);

/// The JSON text of what a workspace edit holds, with its keys in order.
pub uninterp spec fn edit_text(edit: lsp_types::WorkspaceEdit) -> Seq<char>;

/// What `serde_json::from_value` reads in a JSON value as an
/// `lsp_types::WorkspaceEdit`: the JSON text of the edit, or what it says of a
/// value that is none.
pub uninterp spec fn read_edit(value: Json) -> Result<Seq<char>, Seq<char>>;

/// `serde_json::from_value` reads an `lsp_types::WorkspaceEdit` out of a JSON
/// value; what the edit holds, or the text of the error, depends on that value
/// alone. The parser of the URIs in an edit panics on one of more than `i32::MAX`
/// bytes.
#[verifier::external_body]
fn read_workspace_edit(value: JsonValue) -> (edit: Result<lsp_types::WorkspaceEdit, String>)
    requires
        texts_within(value@, i32::MAX as nat),
    ensures
        read_edit(value@) == match edit {
            Ok(edit) => Ok(edit_text(edit)),
            Err(reason) => Err(reason@),
        },
{
    serde_json::from_value(handed_over(value)?).map_err(|error| error.to_string())
}

/// What a request to preview a workspace edit asks for: the project, what the
/// edit holds and the encoding, each looked at in this order.
pub open spec fn requested_workspace_edit(
    project: Seq<char>,
    read: Result<Seq<char>, Seq<char>>,
    encoding: Option<Seq<char>>,
) -> Result<(Seq<char>, Seq<char>, PositionEncoding), ErrorModel> {
    match requested_project(project) {
        Err(error) => Err(error),
        Ok(project) => match read {
            Err(reason) => Err(invalid_params(reason)),
            Ok(edit) => match requested_encoding(encoding) {
                Err(error) => Err(error),
                Ok(encoding) => Ok((project, edit, encoding)),
            },
        },
    }
}

pub open spec fn workspace_edit_model(
    request: Result<(ProjectId, lsp_types::WorkspaceEdit, PositionEncoding), McpError>,
) -> Result<(Seq<char>, Seq<char>, PositionEncoding), ErrorModel> {
    match request {
        Ok((id, edit, encoding)) => Ok((id@, edit_text(edit), encoding)),
        Err(error) => Err(error@),
    }
}

/// Reads a request to preview a workspace edit, given what reading the edit gave.
pub fn workspace_edit_request(
    project_id: &str,
    edit: Result<lsp_types::WorkspaceEdit, String>,
    position_encoding: &Option<String>,
) -> (request: Result<(ProjectId, lsp_types::WorkspaceEdit, PositionEncoding), McpError>)
    ensures
        workspace_edit_model(request) == requested_workspace_edit(
            project_id@,
            match edit {
                Ok(edit) => Ok(edit_text(edit)),
                Err(reason) => Err(reason@),
            },
            optional_text(*position_encoding),
        ),
        request matches Ok((_, found, _)) ==> edit == Ok::<lsp_types::WorkspaceEdit, String>(found),
{
    let id = match parse_project_id(project_id) {
        Ok(id) => id,
        Err(error) => {
            return Err(error);
        },
    };
    let edit = match edit {
        Ok(edit) => edit,
        Err(reason) => {
            return Err(McpError::invalid_params(reason.as_str()));
        },
    };
    match parse_position_encoding(position_encoding) {
        Ok(encoding) => Ok((id, edit, encoding)),
        Err(error) => Err(error),
    }
}

/// Reads a request to preview a workspace edit.
pub fn workspace_edit_preview(params: &WorkspaceEditPreviewParams) -> (request: Result<
    (ProjectId, lsp_types::WorkspaceEdit, PositionEncoding),
    McpError,
>)
    requires
        texts_within(params.workspace_edit@, i32::MAX as nat),
    ensures
        workspace_edit_model(request) == requested_workspace_edit(
            params.project_id@,
            read_edit(params.workspace_edit@),
            optional_text(params.position_encoding),
        ),
{
    workspace_edit_request(
        params.project_id.as_str(),
        read_workspace_edit(params.workspace_edit.duplicate()),
        &params.position_encoding,
    )
}

/// The module that a move names by position: both coordinates or none.
pub open spec fn module_position(line: Option<u32>, character: Option<u32>) -> Result<
    Option<Position>,
    ErrorModel,
> {
    match (line, character) {
        (Some(line), Some(character)) => Ok(Some(Position { line, character })),
        (None, None) => Ok(None),
        _ => Err(
            invalid_params("module_line and module_character must be provided together"@),
        ),
    }
}

/// A well-formed request to move an inline module.
#[derive(Debug, PartialEq, Eq)]
pub struct InlineModuleMove {
    pub project_id: ProjectId,
    pub file_path: String,
    pub module_name: String,
    pub encoding: PositionEncoding,
    pub position: Option<Position>,
}

/// Reads a request to move an inline module to its own file.
pub fn move_inline_module_preview(params: MoveInlineModulePreviewParams) -> (request: Result<
    InlineModuleMove,
    McpError,
>)
    ensures
        match requested_edit(params.project_id@, optional_text(params.position_encoding)) {
            Err(reason) => request matches Err(error) && error@ == reason,
            Ok((project, encoding)) => match module_position(
                params.module_line,
                params.module_character,
            ) {
                Err(reason) => request matches Err(error) && error@ == reason,
                Ok(position) => {
                    &&& request matches Ok(request)
                    &&& request.project_id@ == project
                    &&& request.file_path == params.file_path
                    &&& request.module_name == params.module_name
                    &&& request.encoding == encoding
                    &&& request.position == position
                },
            },
        },
{
    let (project_id, encoding) = match parse_edit_request(
        params.project_id.as_str(),
        &params.position_encoding,
    ) {
        Ok(request) => request,
        Err(error) => {
            return Err(error);
        },
    };
    let position = match (params.module_line, params.module_character) {
        (Some(line), Some(character)) => Some(Position { line, character }),
        (None, None) => None,
        _ => {
            return Err(
                McpError::invalid_params(
                    "module_line and module_character must be provided together",
                ),
            );
        },
    };
    Ok(
        InlineModuleMove {
            project_id,
            file_path: params.file_path,
            module_name: params.module_name,
            encoding,
            position,
        },
    )
}

/// A well-formed request to rename a path.
#[derive(Debug, PartialEq, Eq)]
pub struct PathRenameRequest {
    pub project_id: ProjectId,
    pub old_path: String,
    pub new_path: String,
    pub encoding: PositionEncoding,
}

/// Reads a request to rename a path.
pub fn path_rename_preview(params: PathRenamePreviewParams) -> (request: Result<
    PathRenameRequest,
    McpError,
>)
    ensures
        match requested_edit(params.project_id@, optional_text(params.position_encoding)) {
            Err(reason) => request matches Err(error) && error@ == reason,
            Ok((project, encoding)) => {
                &&& request matches Ok(request)
                &&& request.project_id@ == project
                &&& request.old_path == params.old_path
                &&& request.new_path == params.new_path
                &&& request.encoding == encoding
            },
        },
{
    match parse_edit_request(params.project_id.as_str(), &params.position_encoding) {
        Ok((project_id, encoding)) => Ok(
            PathRenameRequest {
                project_id,
                old_path: params.old_path,
                new_path: params.new_path,
                encoding,
            },
        ),
        Err(error) => Err(error),
    }
}

/// A well-formed structural request.
#[derive(Debug, PartialEq, Eq)]
pub struct StructuralRequest {
    pub project_id: ProjectId,
    pub file_path: String,
    pub dialect: StructuralDialect,
    pub query: String,
    pub replacement: Option<String>,
    pub language_id: Option<String>,
    pub parse_only: bool,
    pub encoding: PositionEncoding,
}

/// Reads a structural request: its project, its dialect and its encoding, in
/// this order.
pub fn structural_replace_preview(params: StructuralReplacePreviewParams) -> (request: Result<
    StructuralRequest,
    McpError,
>)
    ensures
        match request {
            Ok(request) => {
                &&& requested_project(params.project_id@) == Ok::<Seq<char>, ErrorModel>(
                    request.project_id@,
                )
                &&& params.dialect@ == dialect_name(request.dialect)
                &&& requested_encoding(optional_text(params.position_encoding)) == Ok::<
                    PositionEncoding,
                    ErrorModel,
                >(request.encoding)
                &&& request.file_path == params.file_path
                &&& request.query == params.query
                &&& request.replacement == params.replacement
                &&& request.language_id == params.language_id
                &&& request.parse_only == params.parse_only
            },
            Err(error) => {
                if requested_project(params.project_id@) is Err {
                    error@ == requested_project(params.project_id@)->Err_0
                } else if forall|dialect: StructuralDialect|
                    params.dialect@ != #[trigger] dialect_name(dialect) {
                    error@ == unsupported_dialect(params.dialect@)
                } else {
                    requested_encoding(optional_text(params.position_encoding)) == Err::<
                        PositionEncoding,
                        ErrorModel,
                    >(error@)
                }
            },
        },
{
    let project_id = match parse_project_id(params.project_id.as_str()) {
        Ok(id) => id,
        Err(error) => {
            return Err(error);
        },
    };
    let dialect = match parse_structural_dialect(params.dialect.as_str()) {
        Ok(dialect) => dialect,
        Err(error) => {
            return Err(error);
        },
    };
    match parse_position_encoding(&params.position_encoding) {
        Ok(encoding) => Ok(
            StructuralRequest {
                project_id,
                file_path: params.file_path,
                dialect,
                query: params.query,
                replacement: params.replacement,
                language_id: params.language_id,
                parse_only: params.parse_only,
                encoding,
            },
        ),
        Err(error) => {
            assert(params.dialect@ == dialect_name(dialect));
            Err(error)
        },
    }
}

/// A well-formed request to preview a code action.
#[derive(Debug, PartialEq, Eq)]
pub struct CodeActionRequest {
    pub project_id: ProjectId,
    pub action_id: PlanId,
    pub encoding: PositionEncoding,
}

/// Reads a request to preview a code action: its project, its reference and
/// its encoding, in this order.
pub fn code_action_preview(params: &CodeActionPreviewParams) -> (request: Result<
    CodeActionRequest,
    McpError,
>)
    ensures
        if requested_project(params.project_id@) is Err {
            request matches Err(error) && error@ == requested_project(params.project_id@)->Err_0
        } else if params.action_id@.len() == 0 {
            request matches Err(error) && error@ == invalid_params(
                identifier_error_text(IdentifierError::EmptyPlanId),
            )
        } else {
            match requested_encoding(optional_text(params.position_encoding)) {
                Err(reason) => request matches Err(error) && error@ == reason,
                Ok(encoding) => request matches Ok(request) && request.project_id@
                    == params.project_id@ && request.action_id@ == params.action_id@
                    && request.encoding == encoding,
            }
        },
{
    let project_id = match parse_project_id(params.project_id.as_str()) {
        Ok(id) => id,
        Err(error) => {
            return Err(error);
        },
    };
    let action_id = match PlanId::parse(params.action_id.as_str()) {
        Ok(id) => id,
        Err(error) => {
            return Err(McpError::invalid_params(error.message().as_str()));
        },
    };
    match parse_position_encoding(&params.position_encoding) {
        Ok(encoding) => Ok(CodeActionRequest { project_id, action_id, encoding }),
        Err(error) => Err(error),
    }
}

/// How the actor for a semantic request is found.
#[derive(Debug, PartialEq, Eq)]
pub enum SemanticRoute {
    /// By a symbol handle of a project; the handle also gives the position.
    Handle { project_id: ProjectId, symbol_handle: SymbolHandle },
    /// By the project.
    Project { project_id: ProjectId },
    /// By the path of the file.
    Path,
}

/// The model of a route.
pub enum RouteModel {
    Handle(Seq<char>, Seq<char>),
    Project(Seq<char>),
    Path,
}

impl View for SemanticRoute {
    type V = RouteModel;

    open spec fn view(&self) -> RouteModel {
        match self {
            SemanticRoute::Handle { project_id, symbol_handle } => RouteModel::Handle(
                project_id@,
                symbol_handle.text@,
            ),
            SemanticRoute::Project { project_id } => RouteModel::Project(project_id@),
            SemanticRoute::Path => RouteModel::Path,
        }
    }
}

pub open spec fn optional_handle(handle: Option<SymbolHandle>) -> Option<Seq<char>> {
    match handle {
        Some(handle) => Some(handle.text@),
        None => None,
    }
}

pub open spec fn route_result(route: Result<SemanticRoute, McpError>) -> Result<
    RouteModel,
    ErrorModel,
> {
    match route {
        Ok(route) => Ok(route@),
        Err(error) => Err(error@),
    }
}

/// The route of a request that names a project or a file.
pub open spec fn location_route(project: Option<Seq<char>>) -> Result<RouteModel, ErrorModel> {
    match project {
        Some(project) => match requested_project(project) {
            Ok(project) => Ok(RouteModel::Project(project)),
            Err(error) => Err(error),
        },
        None => Ok(RouteModel::Path),
    }
}

/// The route of a semantic request: a handle goes before a position, and a
/// project before a path.
pub open spec fn semantic_route(
    project: Option<Seq<char>>,
    handle: Option<Seq<char>>,
    file_path: Seq<char>,
) -> Result<RouteModel, ErrorModel> {
    match (handle, project) {
        (Some(_), None) => Err(invalid_params("project_id is required with symbol_handle"@)),
        (Some(handle), Some(project)) => match requested_project(project) {
            Ok(project) => Ok(RouteModel::Handle(project, handle)),
            Err(error) => Err(error),
        },
        (None, _) => if file_path.len() == 0 {
            Err(
                invalid_params(
                    "file_path, line, and character or project_id and symbol_handle are required"@,
                ),
            )
        } else {
            location_route(project)
        },
    }
}

fn route_to_location(project_id: Option<String>) -> (route: Result<SemanticRoute, McpError>)
    ensures
        route_result(route) == location_route(optional_text(project_id)),
{
    match project_id {
        Some(project_id) => match parse_project_id(project_id.as_str()) {
            Ok(project_id) => Ok(SemanticRoute::Project { project_id }),
            Err(error) => Err(error),
        },
        None => Ok(SemanticRoute::Path),
    }
}

/// Finds the route of a semantic request.
pub fn semantic_target(
    project_id: Option<String>,
    symbol_handle: Option<SymbolHandle>,
    file_path: &str,
) -> (route: Result<SemanticRoute, McpError>)
    ensures
        route_result(route) == semantic_route(
            optional_text(project_id),
            optional_handle(symbol_handle),
            file_path@,
        ),
{
    if let Some(symbol_handle) = symbol_handle {
        let project_id = match project_id {
            Some(project_id) => project_id,
            None => {
                return Err(McpError::invalid_params("project_id is required with symbol_handle"));
            },
        };
        return match parse_project_id(project_id.as_str()) {
            Ok(project_id) => Ok(SemanticRoute::Handle { project_id, symbol_handle }),
            Err(error) => Err(error),
        };
    }
    if is_empty_text(file_path) {
        return Err(
            McpError::invalid_params(
                "file_path, line, and character or project_id and symbol_handle are required",
            ),
        );
    }
    route_to_location(project_id)
}

/// The answer to a symbol handle that cannot be resolved: it tells a stale one
/// from an invalid one.
pub open spec fn unresolved_handle(message: Seq<char>) -> ErrorModel {
    ErrorModel {
        code: ErrorCode::InvalidParams,
        message,
        data: Some(
            Json::Object(
                by_key(
                    no_fields().push(
                        (
                            "code"@,
                            Json::Text(
                                if has_text(message, "stale_symbol_handle"@) {
                                    "stale_symbol_handle"@
                                } else {
                                    "invalid_symbol_handle"@
                                },
                            ),
                        ),
                    ).push(
                        (
                            "refresh"@,
                            Json::Text("rerun symbol discovery and use the new handle"@),
                        ),
                    ),
                ),
            ),
        ),
    }
}

/// The answer to a symbol handle that cannot be resolved.
pub fn symbol_handle_error(message: &str) -> (error: McpError)
    ensures
        error@ == unresolved_handle(message@),
{
    let code = if contains_text(message, "stale_symbol_handle") {
        "stale_symbol_handle"
    } else {
        "invalid_symbol_handle"
    };
    let mut fields = JsonObject::new();
    fields.put("code", json_str(code));
    fields.put("refresh", json_str("rerun symbol discovery and use the new handle"));
    McpError {
        code: ErrorCode::InvalidParams,
        message: message.to_owned(),
        data: Some(fields.into_map()),
    }
}

/// The route of a call hierarchy request: the page of an earlier one needs no
/// position.
pub open spec fn call_hierarchy_route(
    project: Option<Seq<char>>,
    handle: Option<Seq<char>>,
    file_path: Seq<char>,
    has_page_token: bool,
) -> Result<RouteModel, ErrorModel> {
    if !has_page_token {
        semantic_route(project, handle, file_path)
    } else if project is None && file_path.len() == 0 {
        Err(invalid_params("page_token requires project_id or file_path"@))
    } else {
        location_route(project)
    }
}

/// Finds the route of a call hierarchy request.
pub fn prepare_call_hierarchy(params: CallHierarchyPrepareParams) -> (route: Result<
    SemanticRoute,
    McpError,
>)
    ensures
        route_result(route) == call_hierarchy_route(
            optional_text(params.project_id),
            optional_handle(params.symbol_handle),
            params.file_path@,
            params.page_token is Some,
        ),
{
    if params.page_token.is_none() {
        return semantic_target(
            params.project_id,
            params.symbol_handle,
            params.file_path.as_str(),
        );
    }
    if params.project_id.is_none() && is_empty_text(params.file_path.as_str()) {
        return Err(McpError::invalid_params("page_token requires project_id or file_path"));
    }
    route_to_location(params.project_id)
}

/// Whether the URI parser can take the URI of a call hierarchy item.
pub open spec fn item_is_readable(item: Json) -> bool {
    match member(item, "uri"@) {
        Some(Json::Text(uri)) => encode_utf8(uri).len() <= i32::MAX,
        _ => true,
    }
}

/// The path that the URI of a call hierarchy item names, or why it names none.
pub open spec fn uri_location(
    parsed: Result<(Option<Seq<char>>, Option<Seq<char>>, Seq<char>), Seq<char>>,
) -> Result<Seq<char>, ErrorModel> {
    match parsed {
        Ok(parts) => match file_path_of(parts) {
            Some(path) => Ok(path),
            None => Err(
                invalid_params("call hierarchy item uri must be an absolute file URI"@),
            ),
        },
        Err(reason) => Err(invalid_params(reason)),
    }
}

/// The path that a call hierarchy item lies in, or why it lies in none.
pub open spec fn item_location(item: Json) -> Result<Seq<char>, ErrorModel> {
    match member(item, "uri"@) {
        Some(Json::Text(uri)) => uri_location(parsed_uri(uri)),
        _ => Err(invalid_params("call hierarchy item is missing uri"@)),
    }
}

pub open spec fn location_result(path: Result<FilePath, McpError>) -> Result<
    Seq<char>,
    ErrorModel,
> {
    match path {
        Ok(path) => Ok(path@),
        Err(error) => Err(error@),
    }
}

/// The path that the URI of a call hierarchy item names, from what the URI
/// parser made of it.
pub fn call_hierarchy_uri_path(parsed: Result<UriParts, String>) -> (path: Result<
    FilePath,
    McpError,
>)
    ensures
        location_result(path) == uri_location(
            match parsed {
                Ok(parts) => Ok(uri_parts_model(parts)),
                Err(reason) => Err(reason@),
            },
        ),
{
    match parsed {
        Ok(parts) => match uri_parts_to_path(&parts) {
            Some(path) => Ok(path),
            None => Err(
                McpError::invalid_params("call hierarchy item uri must be an absolute file URI"),
            ),
        },
        Err(reason) => Err(McpError::invalid_params(reason.as_str())),
    }
}

/// Reads the path out of a call hierarchy item.
pub fn call_hierarchy_item_path(item: &JsonValue) -> (path: Result<FilePath, McpError>)
    requires
        item_is_readable(item@),
    ensures
        location_result(path) == item_location(item@),
{
    let uri = match item.get("uri") {
        Some(field) => match field.as_str() {
            Some(uri) => uri,
            None => {
                return Err(McpError::invalid_params("call hierarchy item is missing uri"));
            },
        },
        None => {
            return Err(McpError::invalid_params("call hierarchy item is missing uri"));
        },
    };
    call_hierarchy_uri_path(parse_lsp_uri(uri))
}

/// How the item of a call hierarchy request is found.
#[derive(Debug, PartialEq, Eq)]
pub enum CallItem {
    /// By a symbol handle: prepare the hierarchy there and take its first item.
    Handle(SemanticRoute),
    /// It is given, and lies in a file.
    Given(FilePath),
}

/// Finds the item of a request for calls.
pub fn call_hierarchy_target(params: CallHierarchyCallsParams) -> (item: Result<CallItem, McpError>)
    requires
        params.item matches Some(item) ==> item_is_readable(item@),
    ensures
        if params.symbol_handle is Some {
            match semantic_route(
                optional_text(params.project_id),
                optional_handle(params.symbol_handle),
                seq![],
            ) {
                Ok(route) => item matches Ok(CallItem::Handle(found)) && found@ == route,
                Err(reason) => item matches Err(error) && error@ == reason,
            }
        } else {
            match params.item {
                None => item matches Err(error) && error@ == invalid_params(
                    "item or project_id and symbol_handle are required"@,
                ),
                Some(given) => match item_location(given@) {
                    Ok(path) => item matches Ok(CallItem::Given(found)) && found@ == path,
                    Err(reason) => item matches Err(error) && error@ == reason,
                },
            }
        },
{
    if params.symbol_handle.is_some() {
        proof {
            reveal_strlit("");
            assert(""@ =~= seq![]);
        }
        return match semantic_target(params.project_id, params.symbol_handle, "") {
            Ok(route) => Ok(CallItem::Handle(route)),
            Err(error) => Err(error),
        };
    }
    match params.item {
        None => Err(
            McpError::invalid_params("item or project_id and symbol_handle are required"),
        ),
        Some(item) => match call_hierarchy_item_path(&item) {
            Ok(path) => Ok(CallItem::Given(path)),
            Err(error) => Err(error),
        },
    }
}

/// The first item of a prepared call hierarchy.
pub fn first_call_item(items: Vec<JsonValue>) -> (item: Result<JsonValue, McpError>)
    ensures
        if items@.len() > 0 {
            item matches Ok(item) && item@ == items@[0]@
        } else {
            item matches Err(error) && error@ == invalid_params(
                "symbol handle does not resolve to a callable item"@,
            )
        },
{
    let mut items = items;
    if items.len() > 0 {
        return Ok(items.remove(0));
    }
    Err(McpError::invalid_params("symbol handle does not resolve to a callable item"))
}

/// Where a page of references begins.
pub open spec fn references_offset(page_token: Option<Seq<char>>) -> Result<nat, ErrorModel> {
    match page_token {
        None => Ok(0),
        Some(token) => match unsigned_value(token, usize::MAX as nat) {
            Some(offset) => Ok(offset),
            None => Err(
                invalid_params(
                    "page_token must be the decimal next_cursor returned by get_references"@,
                ),
            ),
        },
    }
}

/// Reads where a page of references begins.
pub fn references_page_offset(page_token: &Option<String>) -> (offset: Result<usize, McpError>)
    ensures
        references_offset(optional_text(*page_token)) == match offset {
            Ok(offset) => Ok::<nat, ErrorModel>(offset as nat),
            Err(error) => Err::<nat, ErrorModel>(error@),
        },
{
    match page_token {
        None => Ok(0),
        Some(token) => match parse_unsigned(token.as_str(), usize::MAX as u64) {
            Some(offset) => Ok(offset as usize),
            None => Err(
                McpError::invalid_params(
                    "page_token must be the decimal next_cursor returned by get_references",
                ),
            ),
        },
    }
}

/// The source policy of a diagnostics request; the older flag may stand in for
/// the mode, but not beside it.
pub open spec fn requested_mode(mode: DiagnosticsMode, fresh: Option<bool>) -> Result<
    DiagnosticsMode,
    ErrorModel,
> {
    match fresh {
        None => Ok(mode),
        Some(fresh) => if mode != DiagnosticsMode::CachedPreferred {
            Err(invalid_params("fresh cannot be combined with mode"@))
        } else if fresh {
            Ok(DiagnosticsMode::Fresh)
        } else {
            Ok(DiagnosticsMode::CacheOnly)
        },
    }
}

/// Finds the source policy of a diagnostics request. Only the fresh one has the
/// provider analyse.
pub fn diagnostics_mode(mode: DiagnosticsMode, fresh: Option<bool>) -> (found: Result<
    DiagnosticsMode,
    McpError,
>)
    ensures
        requested_mode(mode, fresh) == match found {
            Ok(found) => Ok::<DiagnosticsMode, ErrorModel>(found),
            Err(error) => Err::<DiagnosticsMode, ErrorModel>(error@),
        },
{
    match fresh {
        None => Ok(mode),
        Some(fresh) => if mode != DiagnosticsMode::CachedPreferred {
            Err(McpError::invalid_params("fresh cannot be combined with mode"))
        } else if fresh {
            Ok(DiagnosticsMode::Fresh)
        } else {
            Ok(DiagnosticsMode::CacheOnly)
        },
    }
}

/// The provider analyses only where a request asks for fresh diagnostics, by
/// its mode or by the older flag.
pub proof fn law_analysis_is_asked_for(mode: DiagnosticsMode, fresh: Option<bool>)
    ensures
        requested_mode(mode, fresh) == Ok::<DiagnosticsMode, ErrorModel>(DiagnosticsMode::Fresh)
            ==> mode == DiagnosticsMode::Fresh || fresh == Some(true),
        mode == DiagnosticsMode::CacheOnly ==> requested_mode(mode, fresh) != Ok::<
            DiagnosticsMode,
            ErrorModel,
        >(DiagnosticsMode::Fresh),
{
}

/// Positions are counted in bytes unless the request says otherwise, by one of three
/// names; any other name is refused.
pub proof fn law_position_encoding_is_named(name: Seq<char>)
    ensures
        requested_encoding(None) == Ok::<PositionEncoding, ErrorModel>(PositionEncoding::Utf8),
        requested_encoding(Some("utf-8"@)) == Ok::<PositionEncoding, ErrorModel>(
            PositionEncoding::Utf8,
        ),
        requested_encoding(Some("utf-16"@)) == Ok::<PositionEncoding, ErrorModel>(
            PositionEncoding::Utf16,
        ),
        requested_encoding(Some("utf-32"@)) == Ok::<PositionEncoding, ErrorModel>(
            PositionEncoding::Utf32,
        ),
        name != "utf-8"@ && name != "utf-16"@ && name != "utf-32"@ ==> requested_encoding(
            Some(name),
        ) == Err::<PositionEncoding, ErrorModel>(
            invalid_params("unsupported position encoding: "@ + name),
        ),
{
    reveal_strlit("utf-8");
    reveal_strlit("utf-16");
    reveal_strlit("utf-32");
    assert("utf-8"@.len() == 5);
    assert("utf-16"@.len() == 6);
    assert("utf-32"@.len() == 6);
    assert("utf-16"@[4] == '1');
    assert("utf-32"@[4] == '3');
}

/// A request for an edit goes through exactly where it names its project and an
/// encoding that is known or none. It is for that project, in that encoding. A
/// missing project is named before a wrong encoding.
pub proof fn law_edit_request_names_its_project(project: Seq<char>, encoding: Option<Seq<char>>)
    ensures
        requested_edit(project, encoding) is Ok <==> project.len() > 0 && requested_encoding(
            encoding,
        ) is Ok,
        requested_edit(project, encoding) matches Ok((named, counted)) ==> named == project
            && requested_encoding(encoding) == Ok::<PositionEncoding, ErrorModel>(counted),
        project.len() == 0 ==> requested_edit(project, encoding) == Err::<
            (Seq<char>, PositionEncoding),
            ErrorModel,
        >(invalid_params("project id must not be empty"@)),
        project.len() > 0 ==> (requested_encoding(encoding) matches Err(error)
            ==> requested_edit(project, encoding) == Err::<
            (Seq<char>, PositionEncoding),
            ErrorModel,
        >(error)),
{
}

/// An edit that is asked for is the edit of its request, gated where the request is.
pub proof fn law_asked_edit_is_that_of_its_request(
    edit: Result<GeneratedEdit, McpError>,
    project: Seq<char>,
    encoding: Option<Seq<char>>,
    capability_gated: bool,
)
    requires
        asks_edit(edit, project, encoding, capability_gated),
    ensures
        edit is Ok <==> project.len() > 0 && requested_encoding(encoding) is Ok,
        edit matches Ok(edit) ==> edit.project_id@ == project && edit.capability_gated
            == capability_gated && requested_encoding(encoding) == Ok::<
            PositionEncoding,
            ErrorModel,
        >(edit.encoding),
{
}

/// A workspace edit goes through exactly where it names its project, can be read and
/// its encoding is known or none; it is handed on as it was read. What is wrong is
/// named in this order.
pub proof fn law_workspace_edit_is_handed_on(
    project: Seq<char>,
    read: Result<Seq<char>, Seq<char>>,
    encoding: Option<Seq<char>>,
)
    ensures
        ({
            let request = requested_workspace_edit(project, read, encoding);
            &&& request is Ok <==> project.len() > 0 && read is Ok && requested_encoding(
                encoding,
            ) is Ok
            &&& request matches Ok((named, edit, counted)) ==> {
                &&& named == project
                &&& read == Ok::<Seq<char>, Seq<char>>(edit)
                &&& requested_encoding(encoding) == Ok::<PositionEncoding, ErrorModel>(counted)
            }
            &&& project.len() == 0 ==> request == Err::<
                (Seq<char>, Seq<char>, PositionEncoding),
                ErrorModel,
            >(invalid_params("project id must not be empty"@))
            &&& project.len() > 0 ==> (read matches Err(reason) ==> request == Err::<
                (Seq<char>, Seq<char>, PositionEncoding),
                ErrorModel,
            >(invalid_params(reason)))
        }),
{
}

/// The place of a module is given by its line and its character, or not at all.
pub proof fn law_module_position_is_whole(line: u32, character: u32)
    ensures
        module_position(None, None) == Ok::<Option<Position>, ErrorModel>(None),
        module_position(Some(line), Some(character)) matches Ok(Some(position)) && position.line
            == line && position.character == character,
        module_position(Some(line), None) == Err::<Option<Position>, ErrorModel>(
            invalid_params("module_line and module_character must be provided together"@),
        ),
        module_position(None, Some(character)) == Err::<Option<Position>, ErrorModel>(
            invalid_params("module_line and module_character must be provided together"@),
        ),
{
}

/// A symbol is found by its handle where one is given, and that takes a project. Else
/// it is found by a place in a file, in the named project or in the one that holds
/// the file.
pub proof fn law_symbol_is_found_by_handle_or_place(
    project: Seq<char>,
    handle: Seq<char>,
    file_path: Seq<char>,
)
    requires
        project.len() > 0,
    ensures
        semantic_route(Some(project), Some(handle), file_path) == Ok::<RouteModel, ErrorModel>(
            RouteModel::Handle(project, handle),
        ),
        semantic_route(None, Some(handle), file_path) == Err::<RouteModel, ErrorModel>(
            invalid_params("project_id is required with symbol_handle"@),
        ),
        file_path.len() > 0 ==> semantic_route(Some(project), None, file_path) == Ok::<
            RouteModel,
            ErrorModel,
        >(RouteModel::Project(project)),
        file_path.len() > 0 ==> semantic_route(None, None, file_path) == Ok::<
            RouteModel,
            ErrorModel,
        >(RouteModel::Path),
        file_path.len() == 0 ==> semantic_route(Some(project), None, file_path) == Err::<
            RouteModel,
            ErrorModel,
        >(
            invalid_params(
                "file_path, line, and character or project_id and symbol_handle are required"@,
            ),
        ),
        file_path.len() == 0 ==> semantic_route(None, None, file_path) == semantic_route(
            Some(project),
            None,
            file_path,
        ),
        file_path.len() > 0 ==> semantic_route(Some(Seq::empty()), None, file_path) == Err::<
            RouteModel,
            ErrorModel,
        >(invalid_params("project id must not be empty"@)),
        semantic_route(Some(Seq::empty()), Some(handle), file_path) == Err::<
            RouteModel,
            ErrorModel,
        >(invalid_params("project id must not be empty"@)),
{
}

/// The next page of a call hierarchy is found by its project or its file; the first
/// one is found as any symbol is.
pub proof fn law_call_hierarchy_goes_on_in_its_project(
    project: Option<Seq<char>>,
    handle: Option<Seq<char>>,
    file_path: Seq<char>,
)
    ensures
        call_hierarchy_route(project, handle, file_path, false) == semantic_route(
            project,
            handle,
            file_path,
        ),
        project is None && file_path.len() == 0 ==> call_hierarchy_route(
            project,
            handle,
            file_path,
            true,
        ) == Err::<RouteModel, ErrorModel>(
            invalid_params("page_token requires project_id or file_path"@),
        ),
        project is None && file_path.len() > 0 ==> call_hierarchy_route(
            project,
            handle,
            file_path,
            true,
        ) == Ok::<RouteModel, ErrorModel>(RouteModel::Path),
        project matches Some(named) ==> (named.len() > 0 ==> call_hierarchy_route(
            project,
            handle,
            file_path,
            true,
        ) == Ok::<RouteModel, ErrorModel>(RouteModel::Project(named))),
        project matches Some(named) ==> (named.len() == 0 ==> call_hierarchy_route(
            project,
            handle,
            file_path,
            true,
        ) == Err::<RouteModel, ErrorModel>(invalid_params("project id must not be empty"@))),
{
}

/// A handle that does not resolve is refused with its message, told apart as stale
/// or invalid, and the client is told to look the symbol up again.
pub proof fn law_unresolved_handle_is_explained(message: Seq<char>)
    ensures
        ({
            let error = unresolved_handle(message);
            &&& error.code == ErrorCode::InvalidParams
            &&& error.message == message
            &&& error.data matches Some(data) && {
                &&& has_text(message, "stale_symbol_handle"@) ==> member(data, "code"@) == Some(
                    Json::Text("stale_symbol_handle"@),
                )
                &&& !has_text(message, "stale_symbol_handle"@) ==> member(data, "code"@) == Some(
                    Json::Text("invalid_symbol_handle"@),
                )
                &&& member(data, "refresh"@) == Some(
                    Json::Text("rerun symbol discovery and use the new handle"@),
                )
            }
        }),
{
    reveal_strlit("code");
    reveal_strlit("refresh");
    assert("code"@.len() == 4);
    assert("refresh"@.len() == 7);
    lemma_last_pushed();
    lemma_filled_members(
        no_fields().push(
            (
                "code"@,
                Json::Text(
                    if has_text(message, "stale_symbol_handle"@) {
                        "stale_symbol_handle"@
                    } else {
                        "invalid_symbol_handle"@
                    },
                ),
            ),
        ).push(("refresh"@, Json::Text("rerun symbol discovery and use the new handle"@))),
    );
}

/// An item of a call hierarchy lies in the file that its reference names. One
/// without a reference, with one that cannot be read or with one that names no local
/// file is refused.
pub proof fn law_call_item_lies_in_its_file(item: Json, uri: Seq<char>)
    ensures
        !(member(item, "uri"@) matches Some(Json::Text(_))) ==> item_location(item) == Err::<
            Seq<char>,
            ErrorModel,
        >(invalid_params("call hierarchy item is missing uri"@)),
        member(item, "uri"@) == Some(Json::Text(uri)) ==> match parsed_uri(uri) {
            Err(reason) => item_location(item) == Err::<Seq<char>, ErrorModel>(
                invalid_params(reason),
            ),
            Ok((scheme, authority, path)) => {
                let local = scheme == Some("file"@) && (authority is None || authority == Some(
                    Seq::<char>::empty(),
                )) && path.len() > 0 && path[0] == '/';
                &&& local ==> item_location(item) == match percent_decoded(path) {
                    Some(decoded) => Ok::<Seq<char>, ErrorModel>(decoded),
                    None => Err(
                        invalid_params("call hierarchy item uri must be an absolute file URI"@),
                    ),
                }
                &&& !local ==> item_location(item) == Err::<Seq<char>, ErrorModel>(
                    invalid_params("call hierarchy item uri must be an absolute file URI"@),
                )
            },
        },
{
    if member(item, "uri"@) == Some(Json::Text(uri)) {
        if let Ok((scheme, authority, path)) = parsed_uri(uri) {
            if let Some(host) = authority {
                assert(host.len() == 0 <==> host =~= Seq::<char>::empty());
            }
        }
    }
}

/// A page of references starts where the last one ended: the cursor of a place leads
/// back to the place, and no cursor to the start. Anything but a number is refused.
pub proof fn law_references_cursor_leads_on(offset: nat, token: Seq<char>)
    ensures
        references_offset(None) == Ok::<nat, ErrorModel>(0),
        offset <= usize::MAX ==> references_offset(Some(decimal(offset))) == Ok::<
            nat,
            ErrorModel,
        >(offset),
        unsigned_value(token, usize::MAX as nat) is None ==> references_offset(Some(token))
            == Err::<nat, ErrorModel>(
            invalid_params(
                "page_token must be the decimal next_cursor returned by get_references"@,
            ),
        ),
{
    if offset <= usize::MAX {
        law_decimal_round_trip(offset, usize::MAX as nat);
    }
}

/// Diagnostics are taken in the mode that is asked for. The older flag picks fresh or
/// cached ones, and only where no mode is asked for.
pub proof fn law_diagnostics_mode_is_chosen_once(mode: DiagnosticsMode, fresh: bool)
    ensures
        requested_mode(mode, None) == Ok::<DiagnosticsMode, ErrorModel>(mode),
        requested_mode(DiagnosticsMode::CachedPreferred, Some(true)) == Ok::<
            DiagnosticsMode,
            ErrorModel,
        >(DiagnosticsMode::Fresh),
        requested_mode(DiagnosticsMode::CachedPreferred, Some(false)) == Ok::<
            DiagnosticsMode,
            ErrorModel,
        >(DiagnosticsMode::CacheOnly),
        mode != DiagnosticsMode::CachedPreferred ==> requested_mode(mode, Some(fresh)) == Err::<
            DiagnosticsMode,
            ErrorModel,
        >(invalid_params("fresh cannot be combined with mode"@)),
{
}

} // verus!
