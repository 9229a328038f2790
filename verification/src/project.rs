//! Project identity, lifecycle states and events.

use crate::paths::FilePath;
use crate::text::{same_text, utf8_len};
use vstd::prelude::*;
use vstd::string::*;
use vstd::utf8::*;

verus! {

/// A stable project identifier.
#[derive(Debug, PartialEq, Eq)]
pub struct ProjectId {
    pub text: String,
}

/// An opaque edit plan identifier.
#[derive(Debug, PartialEq, Eq)]
pub struct PlanId {
    pub text: String,
}

/// An identifier must not be empty.
#[derive(Clone, Copy, Debug, PartialEq, Eq, Structural)]
pub enum IdentifierError {
    EmptyProjectId,
    EmptyPlanId,
}

pub open spec fn identifier_error_text(error: IdentifierError) -> Seq<char> {
    match error {
        IdentifierError::EmptyProjectId => "project id must not be empty"@,
        IdentifierError::EmptyPlanId => "plan id must not be empty"@,
    }
}

impl IdentifierError {
    pub fn message(&self) -> (text: String)
        ensures
            text@ == identifier_error_text(*self),
    {
        match self {
            IdentifierError::EmptyProjectId => "project id must not be empty".to_owned(),
            IdentifierError::EmptyPlanId => "plan id must not be empty".to_owned(),
        }
    }
}

impl View for ProjectId {
    type V = Seq<char>;

    open spec fn view(&self) -> Seq<char> {
        self.text@
    }
}

impl View for PlanId {
    type V = Seq<char>;

    open spec fn view(&self) -> Seq<char> {
        self.text@
    }
}

impl Clone for ProjectId {
    fn clone(&self) -> (copy: Self)
        ensures
            copy@ == self@,
    {
        ProjectId { text: self.text.clone() }
    }
}

impl Clone for PlanId {
    fn clone(&self) -> (copy: Self)
        ensures
            copy@ == self@,
    {
        PlanId { text: self.text.clone() }
    }
}

/// Whether a text is empty.
pub fn is_empty_text(text: &str) -> (empty: bool)
    ensures
        empty == (text@.len() == 0),
{
    proof {
        if text@.len() == 0 {
            assert(text@ =~= seq![]);
            assert(encode_utf8(text@) =~= seq![]);
        } else {
            encode_utf8_first_scalar(text@);
        }
    }
    utf8_len(text) == 0
}

impl ProjectId {
    pub fn new(text: &str) -> (id: Result<ProjectId, IdentifierError>)
        ensures
            match id {
                Ok(id) => id@ == text@ && text@.len() > 0,
                Err(error) => text@.len() == 0 && error == IdentifierError::EmptyProjectId,
            },
    {
        if is_empty_text(text) {
            Err(IdentifierError::EmptyProjectId)
        } else {
            Ok(ProjectId { text: text.to_owned() })
        }
    }

    pub fn as_str(&self) -> (text: &str)
        ensures
            text@ == self@,
    {
        self.text.as_str()
    }

    pub fn same(&self, other: &ProjectId) -> (same: bool)
        ensures
            same == (self@ == other@),
    {
        same_text(self.text.as_str(), other.text.as_str())
    }
}

impl PlanId {
    pub fn parse(text: &str) -> (id: Result<PlanId, IdentifierError>)
        ensures
            match id {
                Ok(id) => id@ == text@ && text@.len() > 0,
                Err(error) => text@.len() == 0 && error == IdentifierError::EmptyPlanId,
            },
    {
        if is_empty_text(text) {
            Err(IdentifierError::EmptyPlanId)
        } else {
            Ok(PlanId { text: text.to_owned() })
        }
    }

    pub fn as_str(&self) -> (text: &str)
        ensures
            text@ == self@,
    {
        self.text.as_str()
    }

    pub fn same(&self, other: &PlanId) -> (same: bool)
        ensures
            same == (self@ == other@),
    {
        same_text(self.text.as_str(), other.text.as_str())
    }
}

/// Lifecycle states of a project.
#[derive(Clone, Copy, Debug, PartialEq, Eq, Structural)]
pub enum ProjectStatus {
    Starting,
    Ready,
    Degraded,
    Restarting,
    Dormant,
    Stopping,
    Stopped,
    Failed,
}

pub open spec fn status_name(status: ProjectStatus) -> Seq<char> {
    match status {
        ProjectStatus::Starting => "Starting"@,
        ProjectStatus::Ready => "Ready"@,
        ProjectStatus::Degraded => "Degraded"@,
        ProjectStatus::Restarting => "Restarting"@,
        ProjectStatus::Dormant => "Dormant"@,
        ProjectStatus::Stopping => "Stopping"@,
        ProjectStatus::Stopped => "Stopped"@,
        ProjectStatus::Failed => "Failed"@,
    }
}

impl ProjectStatus {
    pub fn as_str(&self) -> (name: &'static str)
        ensures
            name@ == status_name(*self),
    {
        match self {
            ProjectStatus::Starting => "Starting",
            ProjectStatus::Ready => "Ready",
            ProjectStatus::Degraded => "Degraded",
            ProjectStatus::Restarting => "Restarting",
            ProjectStatus::Dormant => "Dormant",
            ProjectStatus::Stopping => "Stopping",
            ProjectStatus::Stopped => "Stopped",
            ProjectStatus::Failed => "Failed",
        }
    }
}

/// What a project actor reports.
#[derive(Clone, Debug, PartialEq, Eq)]
pub enum ProjectEvent {
    DiagnosticsUpdated { uri: String, version: Option<i32>, diagnostic_count: usize },
    StatusChanged { status: ProjectStatus, last_error: Option<String> },
    ServerExited { generation: u64 },
    ProjectRemoved { project_id: ProjectId, root: FilePath },
    FilesChanged { paths: Vec<FilePath> },
    EditApplied { plan_id: PlanId },
}

/// Whether an event concerns a project: a removal concerns the removed project
/// alone.
pub open spec fn concerns(event: ProjectEvent, project: Seq<char>) -> bool {
    match event {
        ProjectEvent::ProjectRemoved { project_id, .. } => project_id@ == project,
        _ => true,
    }
}

impl ProjectEvent {
    pub fn belongs_to(&self, project_id: &ProjectId) -> (belongs: bool)
        ensures
            belongs == concerns(*self, project_id@),
    {
        match self {
            ProjectEvent::ProjectRemoved { project_id: removed, .. } => removed.same(project_id),
            _ => true,
        }
    }
}

/// A missing identifier is told apart by what it was to identify.
pub proof fn law_missing_identifier_is_named()
    ensures
        identifier_error_text(IdentifierError::EmptyProjectId) == "project id must not be empty"@,
        identifier_error_text(IdentifierError::EmptyPlanId) == "plan id must not be empty"@,
{
}

} // verus!
