//! Resource URIs of an MCP session and the events that touch them.

use crate::decimal::{
    decimal, decimal_text, law_decimal_round_trip, lemma_decimal_digits, parse_unsigned,
    unsigned_value,
};
use crate::paths::FilePath;
use crate::project::{concerns, is_empty_text, PlanId, ProjectEvent, ProjectId};
use crate::resources::{
    diagnostics_uri, file_uri_path, make_uri, parse_source_uri, parse_uri, path_after,
    source_reference, uri_to_path, ResourceUriError, SourceResource, DIAGNOSTICS_PREFIX,
    SOURCE_PREFIX,
};
use crate::text::{
    concat2, concat3, contains_char, has_prefix, optional_text, split_at_first, split_once_char,
    strip_prefix_text, texts, without_prefix,
};
use vstd::prelude::*;
use vstd::string::*;
use vstd::utf8::*;

verus! {

pub const PROJECT_STATUS_PREFIX: &'static str = "mcpls-project-status:///";

pub const PROJECT_EVENTS_PREFIX: &'static str = "mcpls-project-events:///";

pub const PROJECT_EVENT_PREFIX: &'static str = "mcpls-project-event:///";

pub const EDIT_DIFF_PREFIX: &'static str = "mcpls-edit-diff:///";

pub const APPLIED_EDIT_RESULT_PREFIX: &'static str = "mcpls-edit-result:///";

pub const EDIT_APPROVAL_PREFIX: &'static str = "mcpls-edit-approval:///";

pub const DEFERRED_PREFIX: &'static str = "mcpls-deferred:///";

/// A page of a deferred payload.
#[derive(Debug, PartialEq, Eq)]
pub struct DeferredResource {
    pub token: String,
    pub offset_bytes: usize,
}

/// Resource scopes understood by a session.
#[derive(Debug, PartialEq, Eq)]
pub enum SessionResource {
    /// Cached diagnostics for one absolute file path.
    Diagnostics(FilePath),
    /// Snapshot-bound source text.
    Source(SourceResource),
    /// A page of a deferred payload.
    Deferred(DeferredResource),
    /// Lifecycle state for one registered project.
    ProjectStatus(ProjectId),
    /// Ordered event history of one project from an optional cursor on.
    ProjectEvents { project_id: ProjectId, cursor: Option<u64> },
    /// One retained project event.
    ProjectEvent { project_id: ProjectId, sequence: u64 },
    /// A page of a previewed diff.
    EditDiff { project_id: ProjectId, plan_id: PlanId, offset_bytes: usize },
    /// A page of an applied edit receipt.
    AppliedEditResult { project_id: ProjectId, plan_id: PlanId, offset_bytes: usize },
    /// A page of an approval summary.
    EditApproval { project_id: ProjectId, plan_id: PlanId, offset_bytes: usize },
}

/// The model of a session resource.
pub enum ResourceModel {
    Diagnostics(Seq<char>),
    Source(Seq<char>, Seq<char>),
    Deferred(Seq<char>, nat),
    ProjectStatus(Seq<char>),
    ProjectEvents(Seq<char>, Option<nat>),
    ProjectEvent(Seq<char>, nat),
    EditDiff(Seq<char>, Seq<char>, nat),
    AppliedEditResult(Seq<char>, Seq<char>, nat),
    EditApproval(Seq<char>, Seq<char>, nat),
}

pub open spec fn optional_count(value: Option<u64>) -> Option<nat> {
    match value {
        Some(v) => Some(v as nat),
        None => None,
    }
}

impl View for SessionResource {
    type V = ResourceModel;

    open spec fn view(&self) -> ResourceModel {
        match self {
            SessionResource::Diagnostics(path) => ResourceModel::Diagnostics(path@),
            SessionResource::Source(source) => ResourceModel::Source(
                source.path@,
                source.selectors@,
            ),
            SessionResource::Deferred(deferred) => ResourceModel::Deferred(
                deferred.token@,
                deferred.offset_bytes as nat,
            ),
            SessionResource::ProjectStatus(id) => ResourceModel::ProjectStatus(id@),
            SessionResource::ProjectEvents { project_id, cursor } => ResourceModel::ProjectEvents(
                project_id@,
                optional_count(*cursor),
            ),
            SessionResource::ProjectEvent { project_id, sequence } => ResourceModel::ProjectEvent(
                project_id@,
                *sequence as nat,
            ),
            SessionResource::EditDiff { project_id, plan_id, offset_bytes } => {
                ResourceModel::EditDiff(project_id@, plan_id@, *offset_bytes as nat)
            },
            SessionResource::AppliedEditResult { project_id, plan_id, offset_bytes } => {
                ResourceModel::AppliedEditResult(project_id@, plan_id@, *offset_bytes as nat)
            },
            SessionResource::EditApproval { project_id, plan_id, offset_bytes } => {
                ResourceModel::EditApproval(project_id@, plan_id@, *offset_bytes as nat)
            },
        }
    }
}

/// Whether a text can stand as one path segment of a URI.
pub open spec fn is_segment(text: Seq<char>) -> bool {
    text.len() > 0 && !text.contains('/')
}

/// A text without its query, and the query.
pub open spec fn before_query(text: Seq<char>) -> (Seq<char>, Option<Seq<char>>) {
    match split_at_first(text, '?') {
        Some((left, right)) => (left, Some(right)),
        None => (text, None),
    }
}

pub open spec fn status_uri(project: Seq<char>) -> Seq<char> {
    PROJECT_STATUS_PREFIX@ + project
}

pub open spec fn status_reference(uri: Seq<char>) -> Option<Seq<char>> {
    match without_prefix(uri, PROJECT_STATUS_PREFIX@) {
        Some(id) => if is_segment(id) {
            Some(id)
        } else {
            None
        },
        None => None,
    }
}

pub open spec fn events_uri(project: Seq<char>) -> Seq<char> {
    PROJECT_EVENTS_PREFIX@ + project
}

/// The events of a project after a cursor.
pub open spec fn events_since_uri(project: Seq<char>, since: nat) -> Seq<char> {
    PROJECT_EVENTS_PREFIX@ + project + "?since="@ + decimal(since)
}

pub open spec fn events_reference(uri: Seq<char>) -> Option<(Seq<char>, Option<nat>)> {
    match without_prefix(uri, PROJECT_EVENTS_PREFIX@) {
        None => None,
        Some(value) => {
            let (id, query) = before_query(value);
            if !is_segment(id) {
                None
            } else {
                match query {
                    None => Some((id, None)),
                    Some(query) => match without_prefix(query, "since="@) {
                        None => None,
                        Some(numeral) => match unsigned_value(numeral, u64::MAX as nat) {
                            Some(cursor) => Some((id, Some(cursor))),
                            None => None,
                        },
                    },
                }
            }
        },
    }
}

pub open spec fn event_uri(project: Seq<char>, sequence: nat) -> Seq<char> {
    PROJECT_EVENT_PREFIX@ + project + "?sequence="@ + decimal(sequence)
}

pub open spec fn event_reference(uri: Seq<char>) -> Option<(Seq<char>, nat)> {
    match without_prefix(uri, PROJECT_EVENT_PREFIX@) {
        None => None,
        Some(value) => match before_query(value) {
            (id, Some(query)) => match without_prefix(query, "sequence="@) {
                Some(numeral) => match unsigned_value(numeral, u64::MAX as nat) {
                    Some(sequence) => if is_segment(id) {
                        Some((id, sequence))
                    } else {
                        None
                    },
                    None => None,
                },
                None => None,
            },
            (_, None) => None,
        },
    }
}

/// A page of plan data under one of the edit schemes.
pub open spec fn plan_uri(
    prefix: Seq<char>,
    project: Seq<char>,
    plan: Seq<char>,
    offset: nat,
) -> Seq<char> {
    prefix + project + "?plan_id="@ + plan + "&offset_bytes="@ + decimal(offset)
}

pub open spec fn plan_reference(prefix: Seq<char>, uri: Seq<char>) -> Option<
    (Seq<char>, Seq<char>, nat),
> {
    match without_prefix(uri, prefix) {
        None => None,
        Some(value) => match before_query(value) {
            (_, None) => None,
            (id, Some(query)) => match without_prefix(query, "plan_id="@) {
                None => None,
                Some(selection) => match split_at_first(selection, '&') {
                    None => None,
                    Some((plan, page)) => match without_prefix(page, "offset_bytes="@) {
                        None => None,
                        Some(numeral) => match unsigned_value(numeral, usize::MAX as nat) {
                            None => None,
                            Some(offset) => if is_segment(id) && plan.len() > 0 {
                                Some((id, plan, offset))
                            } else {
                                None
                            },
                        },
                    },
                },
            },
        },
    }
}

pub open spec fn deferred_uri(token: Seq<char>, offset: nat) -> Seq<char> {
    DEFERRED_PREFIX@ + token + "?offset_bytes="@ + decimal(offset)
}

/// A deferred payload starts at its first byte unless the URI says otherwise.
pub open spec fn deferred_reference(uri: Seq<char>) -> Option<(Seq<char>, nat)> {
    match without_prefix(uri, DEFERRED_PREFIX@) {
        None => None,
        Some(value) => {
            let (token, query) = before_query(value);
            if !is_segment(token) {
                None
            } else {
                match query {
                    None => Some((token, 0)),
                    Some(query) => match without_prefix(query, "offset_bytes="@) {
                        None => None,
                        Some(numeral) => match unsigned_value(numeral, usize::MAX as nat) {
                            Some(offset) => Some((token, offset)),
                            None => None,
                        },
                    },
                }
            }
        },
    }
}

/// The resource that a URI names.
pub open spec fn session_reference(uri: Seq<char>) -> Result<ResourceModel, ResourceUriError> {
    if status_reference(uri) is Some {
        Ok(ResourceModel::ProjectStatus(status_reference(uri)->0))
    } else if events_reference(uri) is Some {
        let (id, cursor) = events_reference(uri)->0;
        Ok(ResourceModel::ProjectEvents(id, cursor))
    } else if event_reference(uri) is Some {
        let (id, sequence) = event_reference(uri)->0;
        Ok(ResourceModel::ProjectEvent(id, sequence))
    } else if plan_reference(EDIT_DIFF_PREFIX@, uri) is Some {
        let (id, plan, offset) = plan_reference(EDIT_DIFF_PREFIX@, uri)->0;
        Ok(ResourceModel::EditDiff(id, plan, offset))
    } else if plan_reference(APPLIED_EDIT_RESULT_PREFIX@, uri) is Some {
        let (id, plan, offset) = plan_reference(APPLIED_EDIT_RESULT_PREFIX@, uri)->0;
        Ok(ResourceModel::AppliedEditResult(id, plan, offset))
    } else if plan_reference(EDIT_APPROVAL_PREFIX@, uri) is Some {
        let (id, plan, offset) = plan_reference(EDIT_APPROVAL_PREFIX@, uri)->0;
        Ok(ResourceModel::EditApproval(id, plan, offset))
    } else if deferred_reference(uri) is Some {
        let (token, offset) = deferred_reference(uri)->0;
        Ok(ResourceModel::Deferred(token, offset))
    } else if source_reference(uri) is Some {
        let (path, selectors) = source_reference(uri)->0;
        Ok(ResourceModel::Source(path, selectors))
    } else {
        match path_after(DIAGNOSTICS_PREFIX@, uri) {
            Ok(path) => Ok(ResourceModel::Diagnostics(path)),
            Err(error) => Err(error),
        }
    }
}

/// Encodes a project identity as a subscribable status resource URI.
pub fn project_status_resource_uri(project_id: &ProjectId) -> (uri: String)
    ensures
        uri@ == status_uri(project_id@),
{
    concat2(PROJECT_STATUS_PREFIX, project_id.as_str())
}

fn segment(text: &str) -> (accepted: bool)
    ensures
        accepted == is_segment(text@),
{
    !is_empty_text(text) && !contains_char(text, '/')
}

fn split_query(text: &str) -> (parts: (String, Option<String>))
    ensures
        (parts.0@, optional_text(parts.1)) == before_query(text@),
{
    match split_once_char(text, '?') {
        Some((left, right)) => (left, Some(right)),
        None => (text.to_owned(), None),
    }
}

/// Decodes a project status resource URI into its project identity.
pub fn parse_project_status_resource_uri(uri: &str) -> (id: Option<ProjectId>)
    ensures
        match id {
            Some(id) => status_reference(uri@) == Some(id@),
            None => status_reference(uri@) is None,
        },
{
    match strip_prefix_text(uri, PROJECT_STATUS_PREFIX) {
        Some(text) => if segment(text.as_str()) {
            Some(ProjectId { text })
        } else {
            None
        },
        None => None,
    }
}

/// Encodes a project identity as an event-history resource URI.
pub fn project_events_resource_uri(project_id: &ProjectId) -> (uri: String)
    ensures
        uri@ == events_uri(project_id@),
{
    concat2(PROJECT_EVENTS_PREFIX, project_id.as_str())
}

/// The event-history resource URI that continues after `since`.
pub fn project_events_since_uri(project_id: &ProjectId, since: u64) -> (uri: String)
    ensures
        uri@ == events_since_uri(project_id@, since as nat),
{
    let base = concat3(PROJECT_EVENTS_PREFIX, project_id.as_str(), "?since=");
    concat2(base.as_str(), decimal_text(since).as_str())
}

/// Decodes an event-history resource URI and its optional polling cursor.
pub fn parse_project_events_resource_uri(uri: &str) -> (reference: Option<(ProjectId, Option<u64>)>)
    ensures
        match reference {
            Some((id, cursor)) => events_reference(uri@) == Some((id@, optional_count(cursor))),
            None => events_reference(uri@) is None,
        },
{
    let value = match strip_prefix_text(uri, PROJECT_EVENTS_PREFIX) {
        Some(value) => value,
        None => {
            return None;
        },
    };
    let (id, query) = split_query(value.as_str());
    if !segment(id.as_str()) {
        return None;
    }
    match query {
        None => Some((ProjectId { text: id }, None)),
        Some(query) => match strip_prefix_text(query.as_str(), "since=") {
            None => None,
            Some(numeral) => match parse_unsigned(numeral.as_str(), u64::MAX) {
                Some(cursor) => Some((ProjectId { text: id }, Some(cursor))),
                None => None,
            },
        },
    }
}

/// The resource URI of one retained event.
pub fn project_event_resource_uri(project_id: &ProjectId, sequence: u64) -> (uri: String)
    ensures
        uri@ == event_uri(project_id@, sequence as nat),
{
    let base = concat3(PROJECT_EVENT_PREFIX, project_id.as_str(), "?sequence=");
    concat2(base.as_str(), decimal_text(sequence).as_str())
}

/// Decodes the resource URI of one retained event.
pub fn parse_project_event_resource_uri(uri: &str) -> (reference: Option<(ProjectId, u64)>)
    ensures
        match reference {
            Some((id, sequence)) => event_reference(uri@) == Some((id@, sequence as nat)),
            None => event_reference(uri@) is None,
        },
{
    let value = match strip_prefix_text(uri, PROJECT_EVENT_PREFIX) {
        Some(value) => value,
        None => {
            return None;
        },
    };
    let (id, query) = split_query(value.as_str());
    match query {
        None => None,
        Some(query) => match strip_prefix_text(query.as_str(), "sequence=") {
            None => None,
            Some(numeral) => match parse_unsigned(numeral.as_str(), u64::MAX) {
                Some(sequence) => if segment(id.as_str()) {
                    Some((ProjectId { text: id }, sequence))
                } else {
                    None
                },
                None => None,
            },
        },
    }
}

fn plan_resource_uri(
    prefix: &str,
    project_id: &ProjectId,
    plan_id: &PlanId,
    offset_bytes: usize,
) -> (uri: String)
    ensures
        uri@ == plan_uri(prefix@, project_id@, plan_id@, offset_bytes as nat),
{
    let project = concat3(prefix, project_id.as_str(), "?plan_id=");
    let plan = concat3(project.as_str(), plan_id.as_str(), "&offset_bytes=");
    concat2(plan.as_str(), decimal_text(offset_bytes as u64).as_str())
}

fn parse_plan_resource_uri(prefix: &str, uri: &str) -> (reference: Option<
    (ProjectId, PlanId, usize),
>)
    ensures
        match reference {
            Some((id, plan, offset)) => plan_reference(prefix@, uri@) == Some(
                (id@, plan@, offset as nat),
            ),
            None => plan_reference(prefix@, uri@) is None,
        },
{
    let value = match strip_prefix_text(uri, prefix) {
        Some(value) => value,
        None => {
            return None;
        },
    };
    let (id, query) = split_query(value.as_str());
    let selection = match query {
        None => {
            return None;
        },
        Some(query) => match strip_prefix_text(query.as_str(), "plan_id=") {
            None => {
                return None;
            },
            Some(selection) => selection,
        },
    };
    match split_once_char(selection.as_str(), '&') {
        None => None,
        Some((plan, page)) => match strip_prefix_text(page.as_str(), "offset_bytes=") {
            None => None,
            Some(numeral) => match parse_unsigned(numeral.as_str(), usize::MAX as u64) {
                None => None,
                Some(offset) => if segment(id.as_str()) && !is_empty_text(plan.as_str()) {
                    Some((ProjectId { text: id }, PlanId { text: plan }, offset as usize))
                } else {
                    None
                },
            },
        },
    }
}

/// The resource URI of a page of a previewed diff.
pub fn edit_diff_resource_uri(project_id: &ProjectId, plan_id: &PlanId, offset_bytes: usize) -> (uri:
    String)
    ensures
        uri@ == plan_uri(EDIT_DIFF_PREFIX@, project_id@, plan_id@, offset_bytes as nat),
{
    plan_resource_uri(EDIT_DIFF_PREFIX, project_id, plan_id, offset_bytes)
}

/// The resource URI of a page of an applied edit receipt.
pub fn applied_edit_result_resource_uri(
    project_id: &ProjectId,
    plan_id: &PlanId,
    offset_bytes: usize,
) -> (uri: String)
    ensures
        uri@ == plan_uri(APPLIED_EDIT_RESULT_PREFIX@, project_id@, plan_id@, offset_bytes as nat),
{
    plan_resource_uri(APPLIED_EDIT_RESULT_PREFIX, project_id, plan_id, offset_bytes)
}

/// The resource URI of a page of an approval summary.
pub fn edit_approval_resource_uri(
    project_id: &ProjectId,
    plan_id: &PlanId,
    offset_bytes: usize,
) -> (uri: String)
    ensures
        uri@ == plan_uri(EDIT_APPROVAL_PREFIX@, project_id@, plan_id@, offset_bytes as nat),
{
    plan_resource_uri(EDIT_APPROVAL_PREFIX, project_id, plan_id, offset_bytes)
}

/// Decodes the resource URI of a page of an applied edit receipt.
pub fn parse_applied_edit_result_resource_uri(uri: &str) -> (reference: Option<
    (ProjectId, PlanId, usize),
>)
    ensures
        match reference {
            Some((id, plan, offset)) => plan_reference(APPLIED_EDIT_RESULT_PREFIX@, uri@) == Some(
                (id@, plan@, offset as nat),
            ),
            None => plan_reference(APPLIED_EDIT_RESULT_PREFIX@, uri@) is None,
        },
{
    parse_plan_resource_uri(APPLIED_EDIT_RESULT_PREFIX, uri)
}

/// The resource URI of a page of a deferred payload.
pub fn deferred_resource_uri(token: &str, offset_bytes: usize) -> (uri: String)
    ensures
        uri@ == deferred_uri(token@, offset_bytes as nat),
{
    let base = concat3(DEFERRED_PREFIX, token, "?offset_bytes=");
    concat2(base.as_str(), decimal_text(offset_bytes as u64).as_str())
}

/// Decodes the resource URI of a page of a deferred payload.
pub fn parse_deferred_resource_uri(uri: &str) -> (reference: Option<DeferredResource>)
    ensures
        match reference {
            Some(deferred) => deferred_reference(uri@) == Some(
                (deferred.token@, deferred.offset_bytes as nat),
            ),
            None => deferred_reference(uri@) is None,
        },
{
    let value = match strip_prefix_text(uri, DEFERRED_PREFIX) {
        Some(value) => value,
        None => {
            return None;
        },
    };
    let (token, query) = split_query(value.as_str());
    if !segment(token.as_str()) {
        return None;
    }
    match query {
        None => Some(DeferredResource { token, offset_bytes: 0 }),
        Some(query) => match strip_prefix_text(query.as_str(), "offset_bytes=") {
            None => None,
            Some(numeral) => match parse_unsigned(numeral.as_str(), usize::MAX as u64) {
                Some(offset) => Some(DeferredResource { token, offset_bytes: offset as usize }),
                None => None,
            },
        },
    }
}

/// Reads the URI of a session resource.
pub fn parse_session_resource_uri(uri: &str) -> (resource: Result<
    SessionResource,
    ResourceUriError,
>)
    ensures
        match resource {
            Ok(resource) => session_reference(uri@) == Ok::<ResourceModel, ResourceUriError>(
                resource@,
            ),
            Err(error) => session_reference(uri@) == Err::<ResourceModel, ResourceUriError>(error),
        },
{
    if let Some(project_id) = parse_project_status_resource_uri(uri) {
        return Ok(SessionResource::ProjectStatus(project_id));
    }
    if let Some((project_id, cursor)) = parse_project_events_resource_uri(uri) {
        return Ok(SessionResource::ProjectEvents { project_id, cursor });
    }
    if let Some((project_id, sequence)) = parse_project_event_resource_uri(uri) {
        return Ok(SessionResource::ProjectEvent { project_id, sequence });
    }
    if let Some((project_id, plan_id, offset_bytes)) = parse_plan_resource_uri(
        EDIT_DIFF_PREFIX,
        uri,
    ) {
        return Ok(SessionResource::EditDiff { project_id, plan_id, offset_bytes });
    }
    if let Some((project_id, plan_id, offset_bytes)) = parse_applied_edit_result_resource_uri(uri) {
        return Ok(SessionResource::AppliedEditResult { project_id, plan_id, offset_bytes });
    }
    if let Some((project_id, plan_id, offset_bytes)) = parse_plan_resource_uri(
        EDIT_APPROVAL_PREFIX,
        uri,
    ) {
        return Ok(SessionResource::EditApproval { project_id, plan_id, offset_bytes });
    }
    if let Some(deferred) = parse_deferred_resource_uri(uri) {
        return Ok(SessionResource::Deferred(deferred));
    }
    if let Some(source) = parse_source_uri(uri) {
        return Ok(SessionResource::Source(source));
    }
    match parse_uri(uri) {
        Ok(path) => Ok(SessionResource::Diagnostics(path)),
        Err(error) => Err(error),
    }
}

/// The diagnostics resource of a file URI, given the path that it names.
pub open spec fn diagnostics_resource(uri: Seq<char>) -> Option<Seq<char>> {
    match file_uri_path(uri) {
        Some(path) => diagnostics_uri(path),
        None => None,
    }
}

/// Converts a file URI of a language server into the diagnostics resource URI.
pub fn diagnostics_resource_uri(uri: &str) -> (resource: Option<String>)
    requires
        encode_utf8(uri@).len() <= i32::MAX,
    ensures
        optional_text(resource) == diagnostics_resource(uri@),
{
    match uri_to_path(uri) {
        Some(path) => match make_uri(&path) {
            Ok(resource) => Some(resource),
            Err(_) => None,
        },
        None => None,
    }
}

/// Whether the URI parser can take the URI that an event carries.
pub open spec fn event_is_readable(event: ProjectEvent) -> bool {
    match event {
        ProjectEvent::DiagnosticsUpdated { uri, .. } => encode_utf8(uri@).len() <= i32::MAX,
        _ => true,
    }
}

/// The resources of a project that an event touches, given the diagnostics
/// resource that its URI stands for.
pub open spec fn touched_resources(
    project: Seq<char>,
    event: ProjectEvent,
    diagnostics: Option<Seq<char>>,
) -> Seq<Seq<char>> {
    if !concerns(event, project) {
        seq![]
    } else {
        match event {
            ProjectEvent::DiagnosticsUpdated { .. } => match diagnostics {
                Some(uri) => seq![events_uri(project), uri],
                None => seq![events_uri(project)],
            },
            ProjectEvent::StatusChanged { .. }
            | ProjectEvent::ServerExited { .. }
            | ProjectEvent::ProjectRemoved { .. } => seq![events_uri(project), status_uri(project)],
            ProjectEvent::FilesChanged { .. }
            | ProjectEvent::EditApplied { .. } => seq![events_uri(project)],
        }
    }
}

/// The diagnostics resource of an event.
pub open spec fn event_diagnostics(event: ProjectEvent) -> Option<Seq<char>> {
    match event {
        ProjectEvent::DiagnosticsUpdated { uri, .. } => diagnostics_resource(uri@),
        _ => None,
    }
}

/// The resources that an event touches, from the diagnostics resource that its
/// URI stands for.
pub fn touched_resource_uris(
    project_id: &ProjectId,
    event: &ProjectEvent,
    diagnostics: Option<String>,
) -> (uris: Vec<String>)
    ensures
        texts(uris@) == touched_resources(project_id@, *event, optional_text(diagnostics)),
{
    let mut uris: Vec<String> = Vec::new();
    if !event.belongs_to(project_id) {
        assert(texts(uris@) =~= seq![]);
        return uris;
    }
    uris.push(project_events_resource_uri(project_id));
    match event {
        ProjectEvent::DiagnosticsUpdated { .. } => {
            if let Some(uri) = diagnostics {
                uris.push(uri);
            }
        },
        ProjectEvent::StatusChanged { .. }
        | ProjectEvent::ServerExited { .. }
        | ProjectEvent::ProjectRemoved { .. } => {
            uris.push(project_status_resource_uri(project_id));
        },
        ProjectEvent::FilesChanged { .. } | ProjectEvent::EditApplied { .. } => {},
    }
    assert(texts(uris@) =~= touched_resources(project_id@, *event, optional_text(diagnostics)));
    uris
}

/// The resources of a project that an event touches.
pub fn event_resource_uris(project_id: &ProjectId, event: &ProjectEvent) -> (uris: Vec<String>)
    requires
        event_is_readable(*event),
    ensures
        texts(uris@) == touched_resources(project_id@, *event, event_diagnostics(*event)),
{
    let diagnostics = match event {
        ProjectEvent::DiagnosticsUpdated { uri, .. } => diagnostics_resource_uri(uri.as_str()),
        _ => None,
    };
    touched_resource_uris(project_id, event, diagnostics)
}

proof fn lemma_without_prefix(prefix: Seq<char>, rest: Seq<char>)
    ensures
        without_prefix(prefix + rest, prefix) == Some(rest),
{
    let text = prefix + rest;
    assert(text.subrange(0, prefix.len() as int) =~= prefix);
    assert(text.subrange(prefix.len() as int, text.len() as int) =~= rest);
}

proof fn lemma_other_prefix(prefix: Seq<char>, other: Seq<char>, rest: Seq<char>, at: int)
    requires
        0 <= at < prefix.len(),
        at < other.len(),
        prefix[at] != other[at],
    ensures
        without_prefix(prefix + rest, other) is None,
{
    let text = prefix + rest;
    if has_prefix(text, other) {
        assert(text.subrange(0, other.len() as int)[at] == text[at]);
    }
}

pub proof fn lemma_split(left: Seq<char>, separator: char, right: Seq<char>)
    requires
        !left.contains(separator),
    ensures
        split_at_first(left + seq![separator] + right, separator) == Some((left, right)),
{
    let text = left + seq![separator] + right;
    text.index_of_first_ensures(separator);
    assert(text[left.len() as int] == separator);
    assert(text.contains(separator));
    let at = text.index_of_first(separator)->0;
    if at < left.len() {
        assert(left[at] == separator);
    }
    if at > left.len() {
        assert(text[left.len() as int] != separator);
    }
    assert(text.subrange(0, at) =~= left);
    assert(text.subrange(at + 1, text.len() as int) =~= right);
}

proof fn lemma_no_split(text: Seq<char>, separator: char)
    requires
        !text.contains(separator),
    ensures
        split_at_first(text, separator) is None,
{
    text.index_of_first_ensures(separator);
}

/// Every two schemes differ in a character that both have.
proof fn lemma_schemes_differ(rest: Seq<char>)
    ensures
        without_prefix(PROJECT_EVENTS_PREFIX@ + rest, PROJECT_STATUS_PREFIX@) is None,
        without_prefix(PROJECT_EVENT_PREFIX@ + rest, PROJECT_STATUS_PREFIX@) is None,
        without_prefix(PROJECT_EVENT_PREFIX@ + rest, PROJECT_EVENTS_PREFIX@) is None,
        without_prefix(EDIT_DIFF_PREFIX@ + rest, PROJECT_STATUS_PREFIX@) is None,
        without_prefix(EDIT_DIFF_PREFIX@ + rest, PROJECT_EVENTS_PREFIX@) is None,
        without_prefix(EDIT_DIFF_PREFIX@ + rest, PROJECT_EVENT_PREFIX@) is None,
        without_prefix(APPLIED_EDIT_RESULT_PREFIX@ + rest, PROJECT_STATUS_PREFIX@) is None,
        without_prefix(APPLIED_EDIT_RESULT_PREFIX@ + rest, PROJECT_EVENTS_PREFIX@) is None,
        without_prefix(APPLIED_EDIT_RESULT_PREFIX@ + rest, PROJECT_EVENT_PREFIX@) is None,
        without_prefix(APPLIED_EDIT_RESULT_PREFIX@ + rest, EDIT_DIFF_PREFIX@) is None,
        without_prefix(EDIT_APPROVAL_PREFIX@ + rest, PROJECT_STATUS_PREFIX@) is None,
        without_prefix(EDIT_APPROVAL_PREFIX@ + rest, PROJECT_EVENTS_PREFIX@) is None,
        without_prefix(EDIT_APPROVAL_PREFIX@ + rest, PROJECT_EVENT_PREFIX@) is None,
        without_prefix(EDIT_APPROVAL_PREFIX@ + rest, EDIT_DIFF_PREFIX@) is None,
        without_prefix(EDIT_APPROVAL_PREFIX@ + rest, APPLIED_EDIT_RESULT_PREFIX@) is None,
        without_prefix(DEFERRED_PREFIX@ + rest, PROJECT_STATUS_PREFIX@) is None,
        without_prefix(DEFERRED_PREFIX@ + rest, PROJECT_EVENTS_PREFIX@) is None,
        without_prefix(DEFERRED_PREFIX@ + rest, PROJECT_EVENT_PREFIX@) is None,
        without_prefix(DEFERRED_PREFIX@ + rest, EDIT_DIFF_PREFIX@) is None,
        without_prefix(DEFERRED_PREFIX@ + rest, APPLIED_EDIT_RESULT_PREFIX@) is None,
        without_prefix(DEFERRED_PREFIX@ + rest, EDIT_APPROVAL_PREFIX@) is None,
        without_prefix(DIAGNOSTICS_PREFIX@ + rest, PROJECT_STATUS_PREFIX@) is None,
        without_prefix(DIAGNOSTICS_PREFIX@ + rest, PROJECT_EVENTS_PREFIX@) is None,
        without_prefix(DIAGNOSTICS_PREFIX@ + rest, PROJECT_EVENT_PREFIX@) is None,
        without_prefix(DIAGNOSTICS_PREFIX@ + rest, EDIT_DIFF_PREFIX@) is None,
        without_prefix(DIAGNOSTICS_PREFIX@ + rest, APPLIED_EDIT_RESULT_PREFIX@) is None,
        without_prefix(DIAGNOSTICS_PREFIX@ + rest, EDIT_APPROVAL_PREFIX@) is None,
        without_prefix(DIAGNOSTICS_PREFIX@ + rest, DEFERRED_PREFIX@) is None,
        without_prefix(DIAGNOSTICS_PREFIX@ + rest, SOURCE_PREFIX@) is None,
{
    reveal_strlit("mcpls-project-status:///");
    reveal_strlit("mcpls-project-events:///");
    reveal_strlit("mcpls-project-event:///");
    reveal_strlit("mcpls-edit-diff:///");
    reveal_strlit("mcpls-edit-result:///");
    reveal_strlit("mcpls-edit-approval:///");
    reveal_strlit("mcpls-deferred:///");
    reveal_strlit("lsp-diagnostics://");
    reveal_strlit("mcpls-source://");
    let status = PROJECT_STATUS_PREFIX@;
    let events = PROJECT_EVENTS_PREFIX@;
    let event = PROJECT_EVENT_PREFIX@;
    let diff = EDIT_DIFF_PREFIX@;
    let applied = APPLIED_EDIT_RESULT_PREFIX@;
    let approval = EDIT_APPROVAL_PREFIX@;
    let deferred = DEFERRED_PREFIX@;
    let diagnostics = DIAGNOSTICS_PREFIX@;
    let source = SOURCE_PREFIX@;
    lemma_other_prefix(events, status, rest, 14);
    lemma_other_prefix(event, status, rest, 14);
    lemma_other_prefix(event, events, rest, 19);
    lemma_other_prefix(diff, status, rest, 6);
    lemma_other_prefix(diff, events, rest, 6);
    lemma_other_prefix(diff, event, rest, 6);
    lemma_other_prefix(applied, status, rest, 6);
    lemma_other_prefix(applied, events, rest, 6);
    lemma_other_prefix(applied, event, rest, 6);
    lemma_other_prefix(applied, diff, rest, 11);
    lemma_other_prefix(approval, status, rest, 6);
    lemma_other_prefix(approval, events, rest, 6);
    lemma_other_prefix(approval, event, rest, 6);
    lemma_other_prefix(approval, diff, rest, 11);
    lemma_other_prefix(approval, applied, rest, 11);
    lemma_other_prefix(deferred, status, rest, 6);
    lemma_other_prefix(deferred, events, rest, 6);
    lemma_other_prefix(deferred, event, rest, 6);
    lemma_other_prefix(deferred, diff, rest, 6);
    lemma_other_prefix(deferred, applied, rest, 6);
    lemma_other_prefix(deferred, approval, rest, 6);
    lemma_other_prefix(diagnostics, status, rest, 0);
    lemma_other_prefix(diagnostics, events, rest, 0);
    lemma_other_prefix(diagnostics, event, rest, 0);
    lemma_other_prefix(diagnostics, diff, rest, 0);
    lemma_other_prefix(diagnostics, applied, rest, 0);
    lemma_other_prefix(diagnostics, approval, rest, 0);
    lemma_other_prefix(diagnostics, deferred, rest, 0);
    lemma_other_prefix(diagnostics, source, rest, 0);
}

/// A status URI reads back as the project that it was made from.
pub proof fn law_status_uri_round_trip(project: Seq<char>)
    requires
        is_segment(project),
    ensures
        session_reference(status_uri(project)) == Ok::<ResourceModel, ResourceUriError>(
            ResourceModel::ProjectStatus(project),
        ),
{
    lemma_without_prefix(PROJECT_STATUS_PREFIX@, project);
}

/// An event-history URI reads back as its project, without a cursor.
pub proof fn law_events_uri_round_trip(project: Seq<char>)
    requires
        is_segment(project),
        !project.contains('?'),
    ensures
        session_reference(events_uri(project)) == Ok::<ResourceModel, ResourceUriError>(
            ResourceModel::ProjectEvents(project, None),
        ),
{
    lemma_schemes_differ(project);
    lemma_without_prefix(PROJECT_EVENTS_PREFIX@, project);
    lemma_no_split(project, '?');
}

/// A continuing event-history URI reads back as its project and cursor.
pub proof fn law_events_since_uri_round_trip(project: Seq<char>, since: nat)
    requires
        is_segment(project),
        !project.contains('?'),
        since <= u64::MAX,
    ensures
        session_reference(events_since_uri(project, since)) == Ok::<
            ResourceModel,
            ResourceUriError,
        >(ResourceModel::ProjectEvents(project, Some(since))),
{
    reveal_strlit("?since=");
    reveal_strlit("since=");
    let query = "since="@ + decimal(since);
    let rest = project + seq!['?'] + query;
    assert("?since="@ =~= seq!['?'] + "since="@);
    assert(events_since_uri(project, since) =~= PROJECT_EVENTS_PREFIX@ + rest);
    lemma_schemes_differ(rest);
    lemma_without_prefix(PROJECT_EVENTS_PREFIX@, rest);
    lemma_split(project, '?', query);
    lemma_without_prefix("since="@, decimal(since));
    law_decimal_round_trip(since, u64::MAX as nat);
}

/// The URI of one event reads back as its project and sequence number.
pub proof fn law_event_uri_round_trip(project: Seq<char>, sequence: nat)
    requires
        is_segment(project),
        !project.contains('?'),
        sequence <= u64::MAX,
    ensures
        session_reference(event_uri(project, sequence)) == Ok::<ResourceModel, ResourceUriError>(
            ResourceModel::ProjectEvent(project, sequence),
        ),
{
    reveal_strlit("?sequence=");
    reveal_strlit("sequence=");
    let query = "sequence="@ + decimal(sequence);
    let rest = project + seq!['?'] + query;
    assert("?sequence="@ =~= seq!['?'] + "sequence="@);
    assert(event_uri(project, sequence) =~= PROJECT_EVENT_PREFIX@ + rest);
    lemma_schemes_differ(rest);
    lemma_without_prefix(PROJECT_EVENT_PREFIX@, rest);
    lemma_split(project, '?', query);
    lemma_without_prefix("sequence="@, decimal(sequence));
    law_decimal_round_trip(sequence, u64::MAX as nat);
}

/// A page URI of plan data reads back, under its prefix, as its project, plan
/// and offset.
pub proof fn law_plan_reference_round_trip(
    prefix: Seq<char>,
    project: Seq<char>,
    plan: Seq<char>,
    offset: nat,
)
    requires
        is_segment(project),
        !project.contains('?'),
        plan.len() > 0,
        !plan.contains('&'),
        offset <= usize::MAX,
    ensures
        plan_reference(prefix, plan_uri(prefix, project, plan, offset)) == Some(
            (project, plan, offset),
        ),
{
    reveal_strlit("?plan_id=");
    reveal_strlit("plan_id=");
    reveal_strlit("&offset_bytes=");
    reveal_strlit("offset_bytes=");
    let page = "offset_bytes="@ + decimal(offset);
    let selection = plan + seq!['&'] + page;
    let query = "plan_id="@ + selection;
    let rest = project + seq!['?'] + query;
    assert("?plan_id="@ =~= seq!['?'] + "plan_id="@);
    assert("&offset_bytes="@ =~= seq!['&'] + "offset_bytes="@);
    assert(plan_uri(prefix, project, plan, offset) =~= prefix + rest);
    lemma_without_prefix(prefix, rest);
    lemma_split(project, '?', query);
    lemma_without_prefix("plan_id="@, selection);
    lemma_split(plan, '&', page);
    lemma_without_prefix("offset_bytes="@, decimal(offset));
    law_decimal_round_trip(offset, usize::MAX as nat);
}

/// Whatever the project and plan of a page URI are, the offset that is read back
/// is the one that was written, if any is.
pub proof fn law_plan_reference_keeps_offset(
    prefix: Seq<char>,
    project: Seq<char>,
    plan: Seq<char>,
    offset: nat,
)
    ensures
        plan_reference(prefix, plan_uri(prefix, project, plan, offset)) matches Some(reference)
            ==> reference.2 == offset,
{
    let uri = plan_uri(prefix, project, plan, offset);
    let digits = decimal(offset);
    reveal_strlit("&offset_bytes=");
    reveal_strlit("offset_bytes=");
    lemma_decimal_digits(offset);
    let boundary = uri.len() - digits.len();
    assert(uri.subrange(boundary, uri.len() as int) =~= digits);
    assert(uri[boundary - 1] == '=');
    if plan_reference(prefix, uri) is Some {
        let value = without_prefix(uri, prefix)->0;
        let query = before_query(value).1->0;
        value.index_of_first_ensures('?');
        let selection = without_prefix(query, "plan_id="@)->0;
        let page = (split_at_first(selection, '&')->0).1;
        selection.index_of_first_ensures('&');
        let numeral = without_prefix(page, "offset_bytes="@)->0;
        let start = uri.len() - numeral.len();
        assert(page.subrange(0, 13)[12] == page[12]);
        assert(page[12] == '=');
        assert(page =~= uri.subrange(uri.len() - page.len(), uri.len() as int));
        assert(numeral =~= uri.subrange(start, uri.len() as int));
        assert(uri[start - 1] == '=');
        let part = crate::decimal::unsigned_part(numeral);
        if start < boundary {
            let at = boundary - 1 - start;
            assert(numeral[at] == '=');
            let inner = numeral.len() - part.len();
            assert(part[at - inner] == '=');
            assert(crate::decimal::is_digit(part[at - inner]));
        }
        if start > boundary {
            assert(digits[start - 1 - boundary] == '=');
            assert(crate::decimal::is_digit(digits[start - 1 - boundary]));
        }
        assert(numeral == digits);
        law_decimal_round_trip(offset, offset);
        assert(crate::decimal::is_digit(digits[0]));
    }
}

/// The page URI of a diff reads back as its project, plan and offset.
pub proof fn law_edit_diff_uri_round_trip(project: Seq<char>, plan: Seq<char>, offset: nat)
    requires
        is_segment(project),
        !project.contains('?'),
        plan.len() > 0,
        !plan.contains('&'),
        offset <= usize::MAX,
    ensures
        session_reference(plan_uri(EDIT_DIFF_PREFIX@, project, plan, offset)) == Ok::<
            ResourceModel,
            ResourceUriError,
        >(ResourceModel::EditDiff(project, plan, offset)),
{
    let uri = plan_uri(EDIT_DIFF_PREFIX@, project, plan, offset);
    let rest = project + "?plan_id="@ + plan + "&offset_bytes="@ + decimal(offset);
    assert(uri =~= EDIT_DIFF_PREFIX@ + rest);
    law_plan_reference_round_trip(EDIT_DIFF_PREFIX@, project, plan, offset);
    lemma_schemes_differ(rest);
}

/// The page URI of a receipt reads back as its project, plan and offset.
pub proof fn law_applied_edit_result_uri_round_trip(project: Seq<char>, plan: Seq<char>, offset: nat)
    requires
        is_segment(project),
        !project.contains('?'),
        plan.len() > 0,
        !plan.contains('&'),
        offset <= usize::MAX,
    ensures
        session_reference(plan_uri(APPLIED_EDIT_RESULT_PREFIX@, project, plan, offset)) == Ok::<
            ResourceModel,
            ResourceUriError,
        >(ResourceModel::AppliedEditResult(project, plan, offset)),
{
    let uri = plan_uri(APPLIED_EDIT_RESULT_PREFIX@, project, plan, offset);
    let rest = project + "?plan_id="@ + plan + "&offset_bytes="@ + decimal(offset);
    assert(uri =~= APPLIED_EDIT_RESULT_PREFIX@ + rest);
    law_plan_reference_round_trip(APPLIED_EDIT_RESULT_PREFIX@, project, plan, offset);
    lemma_schemes_differ(rest);
}

/// The page URI of an approval summary reads back as its project, plan and offset.
pub proof fn law_edit_approval_uri_round_trip(project: Seq<char>, plan: Seq<char>, offset: nat)
    requires
        is_segment(project),
        !project.contains('?'),
        plan.len() > 0,
        !plan.contains('&'),
        offset <= usize::MAX,
    ensures
        session_reference(plan_uri(EDIT_APPROVAL_PREFIX@, project, plan, offset)) == Ok::<
            ResourceModel,
            ResourceUriError,
        >(ResourceModel::EditApproval(project, plan, offset)),
{
    let uri = plan_uri(EDIT_APPROVAL_PREFIX@, project, plan, offset);
    let rest = project + "?plan_id="@ + plan + "&offset_bytes="@ + decimal(offset);
    assert(uri =~= EDIT_APPROVAL_PREFIX@ + rest);
    law_plan_reference_round_trip(EDIT_APPROVAL_PREFIX@, project, plan, offset);
    lemma_schemes_differ(rest);
}

/// The page URI of a deferred payload reads back as its token and offset.
pub proof fn law_deferred_uri_round_trip(token: Seq<char>, offset: nat)
    requires
        is_segment(token),
        !token.contains('?'),
        offset <= usize::MAX,
    ensures
        session_reference(deferred_uri(token, offset)) == Ok::<ResourceModel, ResourceUriError>(
            ResourceModel::Deferred(token, offset),
        ),
{
    reveal_strlit("?offset_bytes=");
    reveal_strlit("offset_bytes=");
    let query = "offset_bytes="@ + decimal(offset);
    let rest = token + seq!['?'] + query;
    assert("?offset_bytes="@ =~= seq!['?'] + "offset_bytes="@);
    assert(deferred_uri(token, offset) =~= DEFERRED_PREFIX@ + rest);
    lemma_schemes_differ(rest);
    lemma_without_prefix(DEFERRED_PREFIX@, rest);
    lemma_split(token, '?', query);
    lemma_without_prefix("offset_bytes="@, decimal(offset));
    law_decimal_round_trip(offset, usize::MAX as nat);
}

/// The diagnostics URI of an absolute path is a session resource for that path.
pub proof fn law_diagnostics_resource_round_trip(path: Seq<char>)
    requires
        crate::paths::is_absolute(path),
    ensures
        diagnostics_uri(path) matches Some(uri) && session_reference(uri) == Ok::<
            ResourceModel,
            ResourceUriError,
        >(ResourceModel::Diagnostics(path)),
{
    let rest = crate::resources::percent_encoded(path);
    let uri = DIAGNOSTICS_PREFIX@ + rest;
    crate::resources::law_diagnostics_uri_round_trip(path);
    lemma_schemes_differ(rest);
    match split_at_first(uri, '?') {
        Some((location, _)) => {
            uri.index_of_first_ensures('?');
            let at = uri.index_of_first('?')->0;
            if has_prefix(location, SOURCE_PREFIX@) {
                reveal_strlit("mcpls-source://");
                reveal_strlit("lsp-diagnostics://");
                assert(location.subrange(0, SOURCE_PREFIX@.len() as int)[0] == uri[0]);
            }
        },
        None => {},
    }
}

/// The references of a project, a plan and a deferred result are written out in full.
pub proof fn law_references_are_written_in_full(
    project: Seq<char>,
    plan: Seq<char>,
    token: Seq<char>,
    number: nat,
)
    ensures
        status_uri(project) == "mcpls-project-status:///"@ + project,
        events_uri(project) == "mcpls-project-events:///"@ + project,
        events_since_uri(project, number) == "mcpls-project-events:///"@ + project + "?since="@
            + decimal(number),
        event_uri(project, number) == "mcpls-project-event:///"@ + project + "?sequence="@
            + decimal(number),
        plan_uri("mcpls-edit-diff:///"@, project, plan, number) == "mcpls-edit-diff:///"@ + project
            + "?plan_id="@ + plan + "&offset_bytes="@ + decimal(number),
        deferred_uri(token, number) == "mcpls-deferred:///"@ + token + "?offset_bytes="@ + decimal(
            number,
        ),
{
}

/// What stands before and behind the first question mark of a text, or the whole text
/// where there is none.
proof fn lemma_before_query(text: Seq<char>)
    ensures
        ({
            let (left, right) = before_query(text);
            &&& right matches Some(rest) ==> text == left + seq!['?'] + rest && !left.contains('?')
            &&& right is None ==> left == text && !text.contains('?')
        }),
{
    lemma_split_parts(text, '?');
}

proof fn lemma_split_parts(text: Seq<char>, separator: char)
    ensures
        match split_at_first(text, separator) {
            Some((left, right)) => text == left + seq![separator] + right && !left.contains(
                separator,
            ),
            None => !text.contains(separator),
        },
{
    text.index_of_first_ensures(separator);
    if let Some((left, right)) = split_at_first(text, separator) {
        let at = text.index_of_first(separator)->0;
        assert(text[at] == separator);
        assert(text =~= left + seq![separator] + right);
        assert forall|i: int| 0 <= i < left.len() implies left[i] != separator by {
            assert(text[i] != separator);
        }
    }
}

proof fn lemma_prefix_parts(text: Seq<char>, prefix: Seq<char>)
    ensures
        without_prefix(text, prefix) matches Some(rest) ==> text == prefix + rest,
{
    if let Some(rest) = without_prefix(text, prefix) {
        assert(text =~= prefix + rest);
    }
}

/// A reference is read only for what it says. Whatever is read names the one scheme it
/// came under, a project or token that is neither empty nor holds a slash, and numbers
/// that stand there in digits.
pub proof fn law_reference_is_read_for_what_it_says(uri: Seq<char>)
    ensures
        match session_reference(uri) {
            Ok(ResourceModel::ProjectStatus(project)) => {
                &&& uri == "mcpls-project-status:///"@ + project
                &&& is_segment(project)
            },
            Ok(ResourceModel::ProjectEvents(project, None)) => {
                &&& uri == "mcpls-project-events:///"@ + project
                &&& is_segment(project)
            },
            Ok(ResourceModel::ProjectEvents(project, Some(since))) => exists|digits: Seq<char>|
                {
                    &&& uri == "mcpls-project-events:///"@ + project + seq!['?'] + ("since="@
                        + digits)
                    &&& #[trigger] unsigned_value(digits, u64::MAX as nat) == Some(since)
                    &&& is_segment(project)
                },
            Ok(ResourceModel::ProjectEvent(project, sequence)) => exists|digits: Seq<char>|
                {
                    &&& uri == "mcpls-project-event:///"@ + project + seq!['?'] + ("sequence="@
                        + digits)
                    &&& #[trigger] unsigned_value(digits, u64::MAX as nat) == Some(sequence)
                    &&& is_segment(project)
                },
            Ok(ResourceModel::EditDiff(project, plan, offset)) => names_plan_page(
                uri,
                "mcpls-edit-diff:///"@,
                project,
                plan,
                offset,
            ),
            Ok(ResourceModel::AppliedEditResult(project, plan, offset)) => names_plan_page(
                uri,
                "mcpls-edit-result:///"@,
                project,
                plan,
                offset,
            ),
            Ok(ResourceModel::EditApproval(project, plan, offset)) => names_plan_page(
                uri,
                "mcpls-edit-approval:///"@,
                project,
                plan,
                offset,
            ),
            Ok(ResourceModel::Deferred(token, offset)) => {
                &&& is_segment(token)
                &&& (uri == "mcpls-deferred:///"@ + token && offset == 0) || exists|
                    digits: Seq<char>,
                |
                    {
                        &&& uri == "mcpls-deferred:///"@ + token + seq!['?'] + ("offset_bytes="@
                            + digits)
                        &&& #[trigger] unsigned_value(digits, usize::MAX as nat) == Some(offset)
                    }
            },
            Ok(ResourceModel::Source(path, selectors)) => source_reference(uri) == Some(
                (path, selectors),
            ),
            Ok(ResourceModel::Diagnostics(path)) => path_after("lsp-diagnostics://"@, uri) == Ok::<
                Seq<char>,
                ResourceUriError,
            >(path),
            Err(error) => path_after("lsp-diagnostics://"@, uri) == Err::<
                Seq<char>,
                ResourceUriError,
            >(error),
        },
{
    lemma_prefix_parts(uri, PROJECT_STATUS_PREFIX@);
    lemma_prefix_parts(uri, PROJECT_EVENTS_PREFIX@);
    lemma_prefix_parts(uri, PROJECT_EVENT_PREFIX@);
    lemma_prefix_parts(uri, DEFERRED_PREFIX@);
    lemma_names_plan_page(uri, EDIT_DIFF_PREFIX@);
    lemma_names_plan_page(uri, APPLIED_EDIT_RESULT_PREFIX@);
    lemma_names_plan_page(uri, EDIT_APPROVAL_PREFIX@);
    match session_reference(uri) {
        Ok(ResourceModel::ProjectEvents(project, since)) => {
            let value = without_prefix(uri, PROJECT_EVENTS_PREFIX@)->0;
            lemma_before_query(value);
            if since is Some {
                let query = before_query(value).1->0;
                lemma_prefix_parts(query, "since="@);
                let digits = without_prefix(query, "since="@)->0;
                assert(unsigned_value(digits, u64::MAX as nat) == since);
                assert(uri =~= "mcpls-project-events:///"@ + project + seq!['?'] + ("since="@
                    + digits));
            }
        },
        Ok(ResourceModel::ProjectEvent(project, sequence)) => {
            let value = without_prefix(uri, PROJECT_EVENT_PREFIX@)->0;
            lemma_before_query(value);
            let query = before_query(value).1->0;
            lemma_prefix_parts(query, "sequence="@);
            let digits = without_prefix(query, "sequence="@)->0;
            assert(unsigned_value(digits, u64::MAX as nat) == Some(sequence));
            assert(uri =~= "mcpls-project-event:///"@ + project + seq!['?'] + ("sequence="@
                + digits));
        },
        Ok(ResourceModel::Deferred(token, offset)) => {
            let value = without_prefix(uri, DEFERRED_PREFIX@)->0;
            lemma_before_query(value);
            if let Some(query) = before_query(value).1 {
                lemma_prefix_parts(query, "offset_bytes="@);
                let digits = without_prefix(query, "offset_bytes="@)->0;
                assert(unsigned_value(digits, usize::MAX as nat) == Some(offset));
                assert(uri =~= "mcpls-deferred:///"@ + token + seq!['?'] + ("offset_bytes="@
                    + digits));
            }
        },
        _ => {},
    }
}

/// Whether a reference names a page of something that belongs to a plan.
pub open spec fn names_plan_page(
    uri: Seq<char>,
    prefix: Seq<char>,
    project: Seq<char>,
    plan: Seq<char>,
    offset: nat,
) -> bool {
    &&& is_segment(project)
    &&& plan.len() > 0
    &&& !plan.contains('&')
    &&& exists|digits: Seq<char>|
        {
            &&& uri == prefix + project + seq!['?'] + ("plan_id="@ + plan + seq!['&'] + (
            "offset_bytes="@ + digits))
            &&& #[trigger] unsigned_value(digits, usize::MAX as nat) == Some(offset)
        }
}

proof fn lemma_names_plan_page(uri: Seq<char>, prefix: Seq<char>)
    ensures
        plan_reference(prefix, uri) matches Some((project, plan, offset)) ==> names_plan_page(
            uri,
            prefix,
            project,
            plan,
            offset,
        ),
{
    if let Some((project, plan, offset)) = plan_reference(prefix, uri) {
        lemma_prefix_parts(uri, prefix);
        let value = without_prefix(uri, prefix)->0;
        lemma_before_query(value);
        let query = before_query(value).1->0;
        lemma_prefix_parts(query, "plan_id="@);
        let selection = without_prefix(query, "plan_id="@)->0;
        lemma_split_parts(selection, '&');
        let (_, page) = split_at_first(selection, '&')->0;
        lemma_prefix_parts(page, "offset_bytes="@);
        let digits = without_prefix(page, "offset_bytes="@)->0;
        assert(unsigned_value(digits, usize::MAX as nat) == Some(offset));
        assert(uri =~= prefix + project + seq!['?'] + ("plan_id="@ + plan + seq!['&'] + (
        "offset_bytes="@ + digits)));
    }
}

/// An event touches the events of its project, first of all. It touches the status
/// where the project changed its state, lost a server or was removed, the diagnostics
/// of a file where these were updated, and nothing else. The removal of a project
/// touches no other project.
pub proof fn law_event_touches_what_it_changes(
    project: Seq<char>,
    event: ProjectEvent,
    diagnostics: Option<Seq<char>>,
)
    ensures
        ({
            let touched = touched_resources(project, event, diagnostics);
            let foreign = event matches ProjectEvent::ProjectRemoved { project_id, .. }
                && project_id@ != project;
            &&& foreign ==> touched.len() == 0
            &&& !foreign ==> touched.len() >= 1 && touched[0] == events_uri(project)
            &&& event is StatusChanged || event is ServerExited ==> touched.len() == 2 && touched[1]
                == status_uri(project)
            &&& event is ProjectRemoved && !foreign ==> touched.len() == 2 && touched[1]
                == status_uri(project)
            &&& event is DiagnosticsUpdated ==> match diagnostics {
                Some(uri) => touched.len() == 2 && touched[1] == uri,
                None => touched.len() == 1,
            }
            &&& event is FilesChanged || event is EditApplied ==> touched.len() == 1
        }),
        event matches ProjectEvent::DiagnosticsUpdated { uri, .. } ==> event_diagnostics(event)
            == diagnostics_resource(uri@),
        event !is DiagnosticsUpdated ==> event_diagnostics(event) is None,
{
}

/// The diagnostics of a file are those of the path that its reference names.
pub proof fn law_diagnostics_are_those_of_the_file(uri: Seq<char>, path: Seq<char>)
    ensures
        file_uri_path(uri) == Some(path) ==> diagnostics_resource(uri) == diagnostics_uri(path),
        file_uri_path(uri) is None ==> diagnostics_resource(uri) is None,
{
}

} // verus!
