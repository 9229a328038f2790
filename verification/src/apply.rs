//! Results of applying workspace edit plans.

use crate::decimal::{decimal, decimal_text};
use crate::errors::StructuredOutput;
use crate::json::{
    json_array, json_count, json_number, json_str, json_strings, json_text, json_texts, keyed,
    last_under, law_texts_stay_in_place, lemma_keyed_members, lemma_last_pushed, member, no_fields,
    render, Json, JsonNumber, JsonObject, JsonValue,
};
use crate::pages::{put_some_text, some_count, some_text, with_some};
use crate::paths::{path_texts, relative_text, FilePath};
use crate::project::{PlanId, ProjectId};
use crate::session::{
    applied_edit_result_resource_uri, optional_count, plan_uri, APPLIED_EDIT_RESULT_PREFIX,
};
use crate::text::{byte_len, concat3, optional_text, shortened, texts, truncate_str, utf8_len};
use crate::tools::{
    WorkspaceEditApplyResult, WorkspaceEditContention, WorkspaceEditContentionScope,
    WorkspaceEditProviderSynchronization, WorkspaceEditRetry, WorkspaceEditRetryAction,
};
use vstd::prelude::*;
use vstd::string::*;

verus! {

/// Items of an applied result that are shown inline, per list.
pub const MAX_INLINE_APPLIED_ITEMS: usize = 8;

/// Bytes of an applied diff that are shown inline.
pub const MAX_INLINE_APPLIED_DIFF_BYTES: usize = 4 * 1024;

/// Items of an approval or contention list that are shown inline.
pub const MAX_APPROVAL_ITEMS: usize = 64;

/// Bytes of one inline text.
pub const MAX_APPROVAL_TEXT_BYTES: usize = 256;

/// How far an applied edit was verified.
#[derive(Clone, Copy, Debug, PartialEq, Eq, Structural)]
pub enum VerificationStatus {
    SemanticVerified,
    StructuralUnverified,
}

pub open spec fn verification_name(status: VerificationStatus) -> Seq<char> {
    match status {
        VerificationStatus::SemanticVerified => "semantic_verified"@,
        VerificationStatus::StructuralUnverified => "structural_unverified"@,
    }
}

pub open spec fn optional_verification(status: Option<VerificationStatus>) -> Option<Seq<char>> {
    match status {
        Some(status) => Some(verification_name(status)),
        None => None,
    }
}

impl VerificationStatus {
    pub fn as_str(&self) -> (name: &'static str)
        ensures
            name@ == verification_name(*self),
    {
        match self {
            VerificationStatus::SemanticVerified => "semantic_verified",
            VerificationStatus::StructuralUnverified => "structural_unverified",
        }
    }
}

/// How far one language server followed a commit.
#[derive(Debug, PartialEq, Eq)]
pub struct ProviderSynchronization {
    pub provider: String,
    pub synchronized: bool,
    pub watched_file_notifications: usize,
    pub message: Option<String>,
}

/// A committed plan.
#[derive(Debug, PartialEq, Eq)]
pub struct AppliedEditPlan {
    pub plan_id: PlanId,
    pub operations: Vec<String>,
    pub unified_diff: String,
    pub complete_unified_diff: String,
    pub committed_files: Vec<FilePath>,
    pub verification: Option<VerificationStatus>,
    pub provider_synchronization: Vec<ProviderSynchronization>,
}

/// A plan whose paths another edit holds.
#[derive(Debug, PartialEq, Eq)]
pub struct EditNotReady {
    pub plan_id: PlanId,
    pub blocked_paths: Vec<FilePath>,
    pub retry_after_ms: u64,
}

/// A plan whose snapshots no longer match.
#[derive(Debug, PartialEq, Eq)]
pub struct EditConflict {
    pub plan_id: PlanId,
    pub changed_paths: Vec<FilePath>,
    pub reason: String,
}

/// What applying a plan came to.
#[derive(Debug, PartialEq, Eq)]
pub enum ApplyEditPlanOutcome {
    Applied(AppliedEditPlan),
    NotReady(EditNotReady),
    Conflict(EditConflict),
}

/// The model of a provider's synchronization.
pub struct SyncModel {
    pub provider: Seq<char>,
    pub synchronized: bool,
    pub watched_file_notifications: nat,
    pub message: Option<Seq<char>>,
}

impl View for ProviderSynchronization {
    type V = SyncModel;

    open spec fn view(&self) -> SyncModel {
        SyncModel {
            provider: self.provider@,
            synchronized: self.synchronized,
            watched_file_notifications: self.watched_file_notifications as nat,
            message: optional_text(self.message),
        }
    }
}

impl View for WorkspaceEditProviderSynchronization {
    type V = SyncModel;

    open spec fn view(&self) -> SyncModel {
        SyncModel {
            provider: self.provider@,
            synchronized: self.synchronized,
            watched_file_notifications: self.watched_file_notifications as nat,
            message: optional_text(self.message),
        }
    }
}

pub open spec fn reported_syncs(providers: Seq<ProviderSynchronization>) -> Seq<SyncModel> {
    Seq::new(providers.len(), |i: int| providers[i]@)
}

pub open spec fn shown_syncs(providers: Seq<WorkspaceEditProviderSynchronization>) -> Seq<
    SyncModel,
> {
    Seq::new(providers.len(), |i: int| providers[i]@)
}

/// The model of an apply result.
pub enum ApplyModel {
    Applied {
        project_id: Seq<char>,
        plan_id: Seq<char>,
        committed: bool,
        committed_files: Seq<Seq<char>>,
        committed_file_count: nat,
        operations: Seq<Seq<char>>,
        operation_count: nat,
        unified_diff: Seq<char>,
        detail_resource: Option<Seq<char>>,
        verification: Option<Seq<char>>,
        provider_synchronization: Seq<SyncModel>,
        provider_synchronization_count: nat,
        details_truncated: bool,
        semantic_state: Option<Seq<char>>,
    },
    NotReady {
        reason: Seq<char>,
        project_id: Seq<char>,
        plan_id: Seq<char>,
        committed: bool,
        retry: WorkspaceEditRetry,
        blocked_paths: Seq<Seq<char>>,
        blocked_path_count: nat,
    },
    Conflict {
        reason: Seq<char>,
        project_id: Seq<char>,
        plan_id: Seq<char>,
        committed: bool,
        retry: WorkspaceEditRetry,
        changed_paths: Seq<Seq<char>>,
    },
}

impl View for WorkspaceEditApplyResult {
    type V = ApplyModel;

    open spec fn view(&self) -> ApplyModel {
        match self {
            WorkspaceEditApplyResult::Applied {
                project_id,
                plan_id,
                committed,
                committed_files,
                committed_file_count,
                operations,
                operation_count,
                unified_diff,
                detail_resource,
                verification,
                provider_synchronization,
                provider_synchronization_count,
                details_truncated,
                semantic_state,
            } => ApplyModel::Applied {
                project_id: project_id@,
                plan_id: plan_id@,
                committed: *committed,
                committed_files: texts(committed_files@),
                committed_file_count: *committed_file_count as nat,
                operations: texts(operations@),
                operation_count: *operation_count as nat,
                unified_diff: unified_diff@,
                detail_resource: optional_text(*detail_resource),
                verification: optional_text(*verification),
                provider_synchronization: shown_syncs(provider_synchronization@),
                provider_synchronization_count: *provider_synchronization_count as nat,
                details_truncated: *details_truncated,
                semantic_state: optional_text(*semantic_state),
            },
            WorkspaceEditApplyResult::NotReady {
                reason,
                project_id,
                plan_id,
                committed,
                retry,
                contention,
            } => ApplyModel::NotReady {
                reason: reason@,
                project_id: project_id@,
                plan_id: plan_id@,
                committed: *committed,
                retry: *retry,
                blocked_paths: texts(contention.blocked_paths@),
                blocked_path_count: contention.blocked_path_count as nat,
            },
            WorkspaceEditApplyResult::Conflict {
                reason,
                project_id,
                plan_id,
                committed,
                retry,
                changed_paths,
            } => ApplyModel::Conflict {
                reason: reason@,
                project_id: project_id@,
                plan_id: plan_id@,
                committed: *committed,
                retry: *retry,
                changed_paths: texts(changed_paths@),
            },
        }
    }
}

/// A path as it is shown: relative to the first root that leads to it.
pub open spec fn shown_path(roots: Seq<Seq<char>>, path: Seq<char>) -> Seq<char>
    decreases roots.len(),
{
    if roots.len() == 0 {
        "<outside-project>"@
    } else {
        match relative_text(path, roots[0]) {
            Some(rest) => rest,
            None => shown_path(roots.skip(1), path),
        }
    }
}

pub open spec fn shown_paths(roots: Seq<Seq<char>>, paths: Seq<Seq<char>>) -> Seq<Seq<char>> {
    Seq::new(paths.len(), |i: int| shown_path(roots, paths[i]))
}

/// Paths as they are shown to a client: relative to the project, never absolute
/// ones from outside it.
pub fn project_relative_paths(roots: &Vec<FilePath>, paths: &Vec<FilePath>) -> (shown: Vec<String>)
    ensures
        texts(shown@) == shown_paths(path_texts(roots@), path_texts(paths@)),
{
    let mut shown: Vec<String> = Vec::new();
    let mut i: usize = 0;
    while i < paths.len()
        invariant
            i <= paths@.len(),
            shown@.len() == i,
            forall|j: int|
                0 <= j < i ==> (#[trigger] shown@[j])@ == shown_path(
                    path_texts(roots@),
                    paths@[j]@,
                ),
        decreases paths@.len() - i,
    {
        shown.push(show_path(roots, &paths[i]));
        i = i + 1;
    }
    assert(texts(shown@) =~= shown_paths(path_texts(roots@), path_texts(paths@)));
    shown
}

fn show_path(roots: &Vec<FilePath>, path: &FilePath) -> (shown: String)
    ensures
        shown@ == shown_path(path_texts(roots@), path@),
{
    let ghost all = path_texts(roots@);
    let mut i: usize = 0;
    assert(all.skip(0) =~= all);
    while i < roots.len()
        invariant
            i <= roots@.len(),
            all == path_texts(roots@),
            shown_path(all, path@) == shown_path(all.skip(i as int), path@),
        decreases roots@.len() - i,
    {
        assert(all.skip(i as int)[0] == roots@[i as int]@);
        assert(all.skip(i as int).skip(1) =~= all.skip(i + 1));
        if let Some(rest) = path.relative_to(&roots[i]) {
            return rest;
        }
        i = i + 1;
    }
    "<outside-project>".to_owned()
}

/// A text cut to the size of an inline text.
pub fn bounded_approval_text(value: &str) -> (text: String)
    ensures
        text@ == shortened(value@, MAX_APPROVAL_TEXT_BYTES as nat),
{
    truncate_str(value, MAX_APPROVAL_TEXT_BYTES)
}

/// The first texts of a list, each cut to the size of an inline text.
pub open spec fn inline_texts(items: Seq<Seq<char>>, count: nat) -> Seq<Seq<char>> {
    Seq::new(
        if items.len() <= count {
            items.len()
        } else {
            count
        },
        |i: int| shortened(items[i], MAX_APPROVAL_TEXT_BYTES as nat),
    )
}

/// The first texts of a list, each cut to the size of an inline text.
pub fn bounded_texts(items: &Vec<String>, count: usize) -> (shown: Vec<String>)
    ensures
        texts(shown@) == inline_texts(texts(items@), count as nat),
{
    let mut shown: Vec<String> = Vec::new();
    let mut i: usize = 0;
    while i < items.len() && i < count
        invariant
            i <= items@.len(),
            i <= count,
            shown@.len() == i,
            forall|j: int|
                0 <= j < i ==> (#[trigger] shown@[j])@ == shortened(
                    items@[j]@,
                    MAX_APPROVAL_TEXT_BYTES as nat,
                ),
        decreases items@.len() - i,
    {
        shown.push(bounded_approval_text(items[i].as_str()));
        i = i + 1;
    }
    assert(texts(shown@) =~= inline_texts(texts(items@), count as nat));
    shown
}

/// Whether some text is longer than an inline text.
pub open spec fn has_long_text(items: Seq<Seq<char>>) -> bool {
    exists|i: int|
        0 <= i < items.len() && byte_len(#[trigger] items[i]) > MAX_APPROVAL_TEXT_BYTES
}

/// Whether some text is longer than an inline text.
pub fn any_long_text(items: &Vec<String>) -> (found: bool)
    ensures
        found == has_long_text(texts(items@)),
{
    let ghost all = texts(items@);
    let mut i: usize = 0;
    while i < items.len()
        invariant
            i <= items@.len(),
            all == texts(items@),
            forall|j: int|
                0 <= j < i ==> byte_len(#[trigger] all[j]) <= MAX_APPROVAL_TEXT_BYTES,
        decreases items@.len() - i,
    {
        assert(all[i as int] == items@[i as int]@);
        if utf8_len(items[i].as_str()) > MAX_APPROVAL_TEXT_BYTES {
            return true;
        }
        i = i + 1;
    }
    false
}

/// Whether a provider reports a text that is longer than an inline text.
pub open spec fn has_long_report(sync: SyncModel) -> bool {
    byte_len(sync.provider) > MAX_APPROVAL_TEXT_BYTES || (sync.message matches Some(message)
        && byte_len(message) > MAX_APPROVAL_TEXT_BYTES)
}

/// Whether the inline parts of an applied result leave something out.
pub open spec fn applied_details_truncated(
    plan: AppliedEditPlan,
    committed_files: Seq<Seq<char>>,
) -> bool {
    let operations = texts(plan.operations@);
    let syncs = reported_syncs(plan.provider_synchronization@);
    ||| byte_len(plan.unified_diff@) > MAX_INLINE_APPLIED_DIFF_BYTES
    ||| committed_files.len() > MAX_INLINE_APPLIED_ITEMS
    ||| operations.len() > MAX_INLINE_APPLIED_ITEMS
    ||| syncs.len() > MAX_INLINE_APPLIED_ITEMS
    ||| has_long_text(committed_files)
    ||| has_long_text(operations)
    ||| exists|i: int| 0 <= i < syncs.len() && has_long_report(#[trigger] syncs[i])
}

pub open spec fn inline_sync(sync: SyncModel) -> SyncModel {
    SyncModel {
        provider: shortened(sync.provider, MAX_APPROVAL_TEXT_BYTES as nat),
        message: match sync.message {
            Some(message) => Some(shortened(message, MAX_APPROVAL_TEXT_BYTES as nat)),
            None => None,
        },
        ..sync
    }
}

pub open spec fn inline_syncs(syncs: Seq<SyncModel>) -> Seq<SyncModel> {
    Seq::new(
        if syncs.len() <= MAX_INLINE_APPLIED_ITEMS {
            syncs.len()
        } else {
            MAX_INLINE_APPLIED_ITEMS as nat
        },
        |i: int| inline_sync(syncs[i]),
    )
}

/// The state that the providers are in together; nothing if there are none.
pub open spec fn aggregate_state(syncs: Seq<SyncModel>) -> Option<Seq<char>> {
    if syncs.len() == 0 {
        None
    } else if forall|i: int| 0 <= i < syncs.len() ==> (#[trigger] syncs[i]).synchronized {
        Some("synchronized"@)
    } else {
        Some("degraded"@)
    }
}

/// The instructions to try the same plan again.
pub open spec fn retry_same_plan(after_ms: u64) -> WorkspaceEditRetry {
    WorkspaceEditRetry {
        action: WorkspaceEditRetryAction::RetryApply,
        same_plan: true,
        after_ms: Some(after_ms),
    }
}

/// The instructions to preview the change again.
pub open spec fn preview_again() -> WorkspaceEditRetry {
    WorkspaceEditRetry {
        action: WorkspaceEditRetryAction::PreviewAgain,
        same_plan: false,
        after_ms: None,
    }
}

pub open spec fn first_items(items: Seq<Seq<char>>, count: nat) -> Seq<Seq<char>> {
    items.take(
        if items.len() <= count {
            items.len() as int
        } else {
            count as int
        },
    )
}

/// The result that a client sees of applying a plan.
pub open spec fn apply_result(
    outcome: ApplyEditPlanOutcome,
    project: Seq<char>,
    roots: Seq<Seq<char>>,
) -> ApplyModel {
    match outcome {
        ApplyEditPlanOutcome::Applied(plan) => {
            let files = shown_paths(roots, path_texts(plan.committed_files@));
            let operations = texts(plan.operations@);
            let syncs = reported_syncs(plan.provider_synchronization@);
            let truncated = applied_details_truncated(plan, files);
            ApplyModel::Applied {
                project_id: project,
                plan_id: plan.plan_id@,
                committed: true,
                committed_files: inline_texts(files, MAX_INLINE_APPLIED_ITEMS as nat),
                committed_file_count: files.len(),
                operations: inline_texts(operations, MAX_INLINE_APPLIED_ITEMS as nat),
                operation_count: operations.len(),
                unified_diff: shortened(
                    plan.unified_diff@,
                    MAX_INLINE_APPLIED_DIFF_BYTES as nat,
                ),
                detail_resource: if truncated {
                    Some(plan_uri(APPLIED_EDIT_RESULT_PREFIX@, project, plan.plan_id@, 0))
                } else {
                    None
                },
                verification: optional_verification(plan.verification),
                provider_synchronization: inline_syncs(syncs),
                provider_synchronization_count: syncs.len(),
                details_truncated: truncated,
                semantic_state: aggregate_state(syncs),
            }
        },
        ApplyEditPlanOutcome::NotReady(not_ready) => {
            let blocked = shown_paths(roots, path_texts(not_ready.blocked_paths@));
            ApplyModel::NotReady {
                reason: "edit_in_progress"@,
                project_id: project,
                plan_id: not_ready.plan_id@,
                committed: false,
                retry: retry_same_plan(not_ready.retry_after_ms),
                blocked_paths: first_items(blocked, MAX_APPROVAL_ITEMS as nat),
                blocked_path_count: blocked.len(),
            }
        },
        ApplyEditPlanOutcome::Conflict(conflict) => ApplyModel::Conflict {
            reason: conflict.reason@,
            project_id: project,
            plan_id: conflict.plan_id@,
            committed: false,
            retry: preview_again(),
            changed_paths: shown_paths(roots, path_texts(conflict.changed_paths@)),
        },
    }
}

fn any_long_report(providers: &Vec<ProviderSynchronization>) -> (found: bool)
    ensures
        found == exists|i: int|
            0 <= i < providers@.len() && has_long_report(
                #[trigger] reported_syncs(providers@)[i],
            ),
{
    let ghost all = reported_syncs(providers@);
    let mut i: usize = 0;
    while i < providers.len()
        invariant
            i <= providers@.len(),
            all == reported_syncs(providers@),
            forall|j: int| 0 <= j < i ==> !has_long_report(#[trigger] all[j]),
        decreases providers@.len() - i,
    {
        assert(all[i as int] == providers@[i as int]@);
        if utf8_len(providers[i].provider.as_str()) > MAX_APPROVAL_TEXT_BYTES {
            return true;
        }
        if let Some(message) = &providers[i].message {
            if utf8_len(message.as_str()) > MAX_APPROVAL_TEXT_BYTES {
                return true;
            }
        }
        i = i + 1;
    }
    false
}

fn shown_provider(provider: &ProviderSynchronization) -> (shown:
    WorkspaceEditProviderSynchronization)
    ensures
        shown@ == inline_sync(provider@),
{
    let message = match &provider.message {
        Some(message) => Some(bounded_approval_text(message.as_str())),
        None => None,
    };
    WorkspaceEditProviderSynchronization {
        provider: bounded_approval_text(provider.provider.as_str()),
        synchronized: provider.synchronized,
        watched_file_notifications: provider.watched_file_notifications,
        message,
    }
}

fn shown_providers(providers: &Vec<ProviderSynchronization>) -> (shown: Vec<
    WorkspaceEditProviderSynchronization,
>)
    ensures
        shown_syncs(shown@) == inline_syncs(reported_syncs(providers@)),
{
    let mut shown: Vec<WorkspaceEditProviderSynchronization> = Vec::new();
    let mut i: usize = 0;
    while i < providers.len() && i < MAX_INLINE_APPLIED_ITEMS
        invariant
            i <= providers@.len(),
            i <= MAX_INLINE_APPLIED_ITEMS,
            shown@.len() == i,
            forall|j: int|
                0 <= j < i ==> (#[trigger] shown@[j])@ == inline_sync(providers@[j]@),
        decreases providers@.len() - i,
    {
        shown.push(shown_provider(&providers[i]));
        i = i + 1;
    }
    assert(shown_syncs(shown@) =~= inline_syncs(reported_syncs(providers@)));
    shown
}

fn state_of(providers: &Vec<ProviderSynchronization>) -> (state: Option<String>)
    ensures
        optional_text(state) == aggregate_state(reported_syncs(providers@)),
{
    let ghost all = reported_syncs(providers@);
    if providers.len() == 0 {
        return None;
    }
    let mut i: usize = 0;
    while i < providers.len()
        invariant
            i <= providers@.len(),
            providers@.len() > 0,
            all == reported_syncs(providers@),
            forall|j: int| 0 <= j < i ==> (#[trigger] all[j]).synchronized,
        decreases providers@.len() - i,
    {
        assert(all[i as int] == providers@[i as int]@);
        if !providers[i].synchronized {
            return Some("degraded".to_owned());
        }
        i = i + 1;
    }
    Some("synchronized".to_owned())
}

/// The result that a client sees of applying a plan.
pub fn workspace_edit_apply_result(
    outcome: ApplyEditPlanOutcome,
    project_id: &str,
    roots: &Vec<FilePath>,
) -> (result: WorkspaceEditApplyResult)
    requires
        project_id@.len() > 0,
    ensures
        result@ == apply_result(outcome, project_id@, path_texts(roots@)),
{
    match outcome {
        ApplyEditPlanOutcome::Applied(plan) => {
            let files = project_relative_paths(roots, &plan.committed_files);
            let ghost shown = shown_paths(path_texts(roots@), path_texts(plan.committed_files@));
            let details_truncated = utf8_len(plan.unified_diff.as_str())
                > MAX_INLINE_APPLIED_DIFF_BYTES || files.len() > MAX_INLINE_APPLIED_ITEMS
                || plan.operations.len() > MAX_INLINE_APPLIED_ITEMS
                || plan.provider_synchronization.len() > MAX_INLINE_APPLIED_ITEMS || any_long_text(
                &files,
            ) || any_long_text(&plan.operations) || any_long_report(
                &plan.provider_synchronization,
            );
            assert(files@.len() == shown.len()) by {
                assert(texts(files@).len() == files@.len());
            }
            assert(details_truncated == applied_details_truncated(plan, shown));
            let detail_resource = if details_truncated {
                let project = ProjectId { text: project_id.to_owned() };
                Some(applied_edit_result_resource_uri(&project, &plan.plan_id, 0))
            } else {
                None
            };
            let verification = match plan.verification {
                Some(status) => Some(status.as_str().to_owned()),
                None => None,
            };
            WorkspaceEditApplyResult::Applied {
                project_id: project_id.to_owned(),
                plan_id: plan.plan_id.as_str().to_owned(),
                committed: true,
                committed_files: bounded_texts(&files, MAX_INLINE_APPLIED_ITEMS),
                committed_file_count: files.len(),
                operations: bounded_texts(&plan.operations, MAX_INLINE_APPLIED_ITEMS),
                operation_count: plan.operations.len(),
                unified_diff: truncate_str(
                    plan.unified_diff.as_str(),
                    MAX_INLINE_APPLIED_DIFF_BYTES,
                ),
                detail_resource,
                verification,
                provider_synchronization: shown_providers(&plan.provider_synchronization),
                provider_synchronization_count: plan.provider_synchronization.len(),
                details_truncated,
                semantic_state: state_of(&plan.provider_synchronization),
            }
        },
        ApplyEditPlanOutcome::NotReady(not_ready) => {
            let blocked_path_count: usize = not_ready.blocked_paths.len();
            let mut blocked_paths = project_relative_paths(roots, &not_ready.blocked_paths);
            let ghost shown = shown_paths(path_texts(roots@), path_texts(not_ready.blocked_paths@));
            assert(texts(blocked_paths@).len() == blocked_paths@.len());
            if blocked_paths.len() > MAX_APPROVAL_ITEMS {
                blocked_paths.truncate(MAX_APPROVAL_ITEMS);
            }
            assert(texts(blocked_paths@) =~= first_items(shown, MAX_APPROVAL_ITEMS as nat));
            WorkspaceEditApplyResult::NotReady {
                reason: "edit_in_progress".to_owned(),
                project_id: project_id.to_owned(),
                plan_id: not_ready.plan_id.as_str().to_owned(),
                committed: false,
                retry: WorkspaceEditRetry {
                    action: WorkspaceEditRetryAction::RetryApply,
                    same_plan: true,
                    after_ms: Some(not_ready.retry_after_ms),
                },
                contention: WorkspaceEditContention {
                    scope: WorkspaceEditContentionScope::SameWorktree,
                    blocked_paths,
                    blocked_path_count,
                },
            }
        },
        ApplyEditPlanOutcome::Conflict(conflict) => {
            let changed_paths = project_relative_paths(roots, &conflict.changed_paths);
            WorkspaceEditApplyResult::Conflict {
                reason: conflict.reason,
                project_id: project_id.to_owned(),
                plan_id: conflict.plan_id.as_str().to_owned(),
                committed: false,
                retry: WorkspaceEditRetry {
                    action: WorkspaceEditRetryAction::PreviewAgain,
                    same_plan: false,
                    after_ms: None,
                },
                changed_paths,
            }
        },
    }
}

pub open spec fn retry_action_name(action: WorkspaceEditRetryAction) -> Seq<char> {
    match action {
        WorkspaceEditRetryAction::RetryApply => "retry_apply"@,
        WorkspaceEditRetryAction::PreviewAgain => "preview_again"@,
    }
}

pub open spec fn retry_json(retry: WorkspaceEditRetry) -> Json {
    Json::Object(
        with_some(
            no_fields().push(("action"@, Json::Text(retry_action_name(retry.action)))).push(
                ("same_plan"@, Json::Bool(retry.same_plan)),
            ),
            "after_ms"@,
            some_count(optional_count(retry.after_ms)),
        ),
    )
}

pub open spec fn sync_json(sync: SyncModel) -> Json {
    Json::Object(
        with_some(
            no_fields().push(("provider"@, Json::Text(sync.provider))).push(
                ("synchronized"@, Json::Bool(sync.synchronized)),
            ).push(("watched_file_notifications"@, json_count(sync.watched_file_notifications))),
            "message"@,
            some_text(sync.message),
        ),
    )
}

pub open spec fn syncs_json(syncs: Seq<SyncModel>) -> Json {
    Json::Array(Seq::new(syncs.len(), |i: int| sync_json(syncs[i])))
}

/// An apply result as JSON: its status, then its fields without the absent
/// ones.
pub open spec fn apply_json(result: ApplyModel) -> Json {
    match result {
        ApplyModel::Applied {
            project_id,
            plan_id,
            committed,
            committed_files,
            committed_file_count,
            operations,
            operation_count,
            unified_diff,
            detail_resource,
            verification,
            provider_synchronization,
            provider_synchronization_count,
            details_truncated,
            semantic_state,
        } => {
            let fields = no_fields().push(("status"@, Json::Text("applied"@))).push(
                ("project_id"@, Json::Text(project_id)),
            ).push(("plan_id"@, Json::Text(plan_id))).push(("committed"@, Json::Bool(committed))).push(
                ("committed_files"@, json_texts(committed_files)),
            ).push(("committed_file_count"@, json_count(committed_file_count))).push(
                ("operations"@, json_texts(operations)),
            ).push(("operation_count"@, json_count(operation_count))).push(
                ("unified_diff"@, Json::Text(unified_diff)),
            );
            let fields = with_some(fields, "detail_resource"@, some_text(detail_resource));
            let fields = with_some(fields, "verification"@, some_text(verification));
            let fields = if provider_synchronization.len() == 0 {
                fields
            } else {
                fields.push(("provider_synchronization"@, syncs_json(provider_synchronization)))
            };
            let fields = fields.push(
                ("provider_synchronization_count"@, json_count(provider_synchronization_count)),
            ).push(("details_truncated"@, Json::Bool(details_truncated)));
            Json::Object(with_some(fields, "semantic_state"@, some_text(semantic_state)))
        },
        ApplyModel::NotReady {
            reason,
            project_id,
            plan_id,
            committed,
            retry,
            blocked_paths,
            blocked_path_count,
        } => Json::Object(
            no_fields().push(("status"@, Json::Text("not_ready"@))).push(
                ("reason"@, Json::Text(reason)),
            ).push(("project_id"@, Json::Text(project_id))).push(("plan_id"@, Json::Text(plan_id))).push(
                ("committed"@, Json::Bool(committed)),
            ).push(("retry"@, retry_json(retry))).push(
                (
                    "contention"@,
                    Json::Object(
                        no_fields().push(("scope"@, Json::Text("same_worktree"@))).push(
                            ("blocked_paths"@, json_texts(blocked_paths)),
                        ).push(("blocked_path_count"@, json_count(blocked_path_count))),
                    ),
                ),
            ),
        ),
        ApplyModel::Conflict { reason, project_id, plan_id, committed, retry, changed_paths } => {
            Json::Object(
                no_fields().push(("status"@, Json::Text("conflict"@))).push(
                    ("reason"@, Json::Text(reason)),
                ).push(("project_id"@, Json::Text(project_id))).push(
                    ("plan_id"@, Json::Text(plan_id)),
                ).push(("committed"@, Json::Bool(committed))).push(("retry"@, retry_json(retry))).push(
                    ("changed_paths"@, json_texts(changed_paths)),
                ),
            )
        },
    }
}

fn retry_value(retry: &WorkspaceEditRetry) -> (json: JsonValue)
    ensures
        json@ == retry_json(*retry),
{
    let mut fields = JsonObject::new();
    fields.put(
        "action",
        json_str(
            match retry.action {
                WorkspaceEditRetryAction::RetryApply => "retry_apply",
                WorkspaceEditRetryAction::PreviewAgain => "preview_again",
            },
        ),
    );
    fields.put("same_plan", JsonValue::Bool(retry.same_plan));
    if let Some(after_ms) = retry.after_ms {
        fields.put("after_ms", JsonValue::Number(JsonNumber::Unsigned(after_ms)));
    }
    fields.into_value()
}

fn sync_value(sync: &WorkspaceEditProviderSynchronization) -> (json: JsonValue)
    ensures
        json@ == sync_json(sync@),
{
    let mut fields = JsonObject::new();
    fields.put("provider", json_str(sync.provider.as_str()));
    fields.put("synchronized", JsonValue::Bool(sync.synchronized));
    fields.put("watched_file_notifications", json_number(sync.watched_file_notifications));
    put_some_text(&mut fields, "message", &sync.message);
    fields.into_value()
}

fn syncs_value(syncs: &Vec<WorkspaceEditProviderSynchronization>) -> (json: JsonValue)
    ensures
        json@ == syncs_json(shown_syncs(syncs@)),
{
    let mut values: Vec<JsonValue> = Vec::new();
    let mut i: usize = 0;
    while i < syncs.len()
        invariant
            i <= syncs@.len(),
            values@.len() == i,
            forall|j: int| 0 <= j < i ==> (#[trigger] values@[j])@ == sync_json(syncs@[j]@),
        decreases syncs@.len() - i,
    {
        values.push(sync_value(&syncs[i]));
        i = i + 1;
    }
    let json = json_array(values);
    assert(json@->Array_0 =~= syncs_json(shown_syncs(syncs@))->Array_0);
    json
}

/// An apply result as JSON.
pub fn apply_value(result: &WorkspaceEditApplyResult) -> (json: JsonValue)
    ensures
        json@ == apply_json(result@),
{
    let mut fields = JsonObject::new();
    match result {
        WorkspaceEditApplyResult::Applied {
            project_id,
            plan_id,
            committed,
            committed_files,
            committed_file_count,
            operations,
            operation_count,
            unified_diff,
            detail_resource,
            verification,
            provider_synchronization,
            provider_synchronization_count,
            details_truncated,
            semantic_state,
        } => {
            fields.put("status", json_str("applied"));
            fields.put("project_id", json_str(project_id.as_str()));
            fields.put("plan_id", json_str(plan_id.as_str()));
            fields.put("committed", JsonValue::Bool(*committed));
            fields.put("committed_files", json_strings(committed_files));
            fields.put("committed_file_count", json_number(*committed_file_count));
            fields.put("operations", json_strings(operations));
            fields.put("operation_count", json_number(*operation_count));
            fields.put("unified_diff", json_str(unified_diff.as_str()));
            put_some_text(&mut fields, "detail_resource", detail_resource);
            put_some_text(&mut fields, "verification", verification);
            if provider_synchronization.len() > 0 {
                fields.put("provider_synchronization", syncs_value(provider_synchronization));
            }
            fields.put(
                "provider_synchronization_count",
                json_number(*provider_synchronization_count),
            );
            fields.put("details_truncated", JsonValue::Bool(*details_truncated));
            put_some_text(&mut fields, "semantic_state", semantic_state);
        },
        WorkspaceEditApplyResult::NotReady {
            reason,
            project_id,
            plan_id,
            committed,
            retry,
            contention,
        } => {
            fields.put("status", json_str("not_ready"));
            fields.put("reason", json_str(reason.as_str()));
            fields.put("project_id", json_str(project_id.as_str()));
            fields.put("plan_id", json_str(plan_id.as_str()));
            fields.put("committed", JsonValue::Bool(*committed));
            fields.put("retry", retry_value(retry));
            let mut inner = JsonObject::new();
            inner.put("scope", json_str("same_worktree"));
            inner.put("blocked_paths", json_strings(&contention.blocked_paths));
            inner.put("blocked_path_count", json_number(contention.blocked_path_count));
            fields.put("contention", inner.into_value());
        },
        WorkspaceEditApplyResult::Conflict {
            reason,
            project_id,
            plan_id,
            committed,
            retry,
            changed_paths,
        } => {
            fields.put("status", json_str("conflict"));
            fields.put("reason", json_str(reason.as_str()));
            fields.put("project_id", json_str(project_id.as_str()));
            fields.put("plan_id", json_str(plan_id.as_str()));
            fields.put("committed", JsonValue::Bool(*committed));
            fields.put("retry", retry_value(retry));
            fields.put("changed_paths", json_strings(changed_paths));
        },
    }
    fields.into_value()
}

/// One sentence on an apply result.
pub open spec fn apply_summary(result: ApplyModel) -> Seq<char> {
    match result {
        ApplyModel::Applied { plan_id, committed_files, .. } => "Applied edit plan "@ + plan_id
            + "; committed "@ + decimal(committed_files.len()) + " file(s)."@,
        ApplyModel::NotReady { plan_id, blocked_path_count, retry, .. } => "Edit plan "@ + plan_id
            + " is not ready: "@ + decimal(blocked_path_count)
            + " path(s) are in use. Retry the same plan after about "@ + decimal(
            match retry.after_ms {
                Some(after_ms) => after_ms as nat,
                None => 100,
            },
        ) + " ms."@,
        ApplyModel::Conflict { plan_id, .. } => "Edit plan "@ + plan_id
            + " is stale; preview the change again before retrying."@,
    }
}

fn summary_of(result: &WorkspaceEditApplyResult) -> (summary: String)
    ensures
        summary@ == apply_summary(result@),
{
    match result {
        WorkspaceEditApplyResult::Applied { plan_id, committed_files, .. } => {
            let plan = concat3("Applied edit plan ", plan_id.as_str(), "; committed ");
            concat3(
                plan.as_str(),
                decimal_text(committed_files.len() as u64).as_str(),
                " file(s).",
            )
        },
        WorkspaceEditApplyResult::NotReady { plan_id, contention, retry, .. } => {
            let plan = concat3("Edit plan ", plan_id.as_str(), " is not ready: ");
            let count = decimal_text(contention.blocked_path_count as u64);
            let after_ms: u64 = match retry.after_ms {
                Some(after_ms) => after_ms,
                None => 100,
            };
            let paths = concat3(
                plan.as_str(),
                count.as_str(),
                " path(s) are in use. Retry the same plan after about ",
            );
            concat3(paths.as_str(), decimal_text(after_ms).as_str(), " ms.")
        },
        WorkspaceEditApplyResult::Conflict { plan_id, .. } => concat3(
            "Edit plan ",
            plan_id.as_str(),
            " is stale; preview the change again before retrying.",
        ),
    }
}

/// The tool output of an apply result: the keyed value, its text in field
/// order, and one sentence.
pub open spec fn is_apply_output(output: StructuredOutput, result: ApplyModel) -> bool {
    &&& output.value@ == keyed(apply_json(result))
    &&& output.legacy@ == json_text(apply_json(result))
    &&& optional_text(output.summary) == Some(apply_summary(result))
}

/// Encodes the result of applying a plan as tool output.
pub fn workspace_edit_apply_json(
    outcome: ApplyEditPlanOutcome,
    project_id: &str,
    roots: &Vec<FilePath>,
) -> (output: StructuredOutput)
    requires
        project_id@.len() > 0,
    ensures
        is_apply_output(output, apply_result(outcome, project_id@, path_texts(roots@))),
{
    let result = workspace_edit_apply_result(outcome, project_id, roots);
    let value = apply_value(&result);
    let legacy = render(&value);
    let summary = summary_of(&result);
    StructuredOutput::with_summary(value.keyed(), legacy, summary)
}

/// An applied result either shows everything inline or links the complete
/// receipt.
pub proof fn law_applied_result_is_complete_or_linked(
    plan: AppliedEditPlan,
    project: Seq<char>,
    roots: Seq<Seq<char>>,
)
    ensures
        apply_result(ApplyEditPlanOutcome::Applied(plan), project, roots) matches
        ApplyModel::Applied {
            committed_files,
            operations,
            unified_diff,
            provider_synchronization,
            detail_resource,
            details_truncated,
            ..
        } && (if details_truncated {
            detail_resource == Some(
                plan_uri(APPLIED_EDIT_RESULT_PREFIX@, project, plan.plan_id@, 0),
            )
        } else {
            &&& detail_resource is None
            &&& committed_files == shown_paths(roots, path_texts(plan.committed_files@))
            &&& operations == texts(plan.operations@)
            &&& unified_diff == plan.unified_diff@
            &&& provider_synchronization == reported_syncs(plan.provider_synchronization@)
        }),
{
    let files = shown_paths(roots, path_texts(plan.committed_files@));
    let operations = texts(plan.operations@);
    let syncs = reported_syncs(plan.provider_synchronization@);
    if !applied_details_truncated(plan, files) {
        assert(inline_texts(files, MAX_INLINE_APPLIED_ITEMS as nat) =~= files);
        assert(inline_texts(operations, MAX_INLINE_APPLIED_ITEMS as nat) =~= operations);
        assert forall|i: int| 0 <= i < syncs.len() implies inline_sync(#[trigger] syncs[i])
            == syncs[i] by {
            assert(!has_long_report(syncs[i]));
        }
        assert(inline_syncs(syncs) =~= syncs);
    }
}

/// The inline lists of an applied result are short, and the counts beside them
/// are those of the complete lists.
pub proof fn law_applied_result_is_bounded(
    plan: AppliedEditPlan,
    project: Seq<char>,
    roots: Seq<Seq<char>>,
)
    ensures
        apply_result(ApplyEditPlanOutcome::Applied(plan), project, roots) matches
        ApplyModel::Applied {
            committed_files,
            committed_file_count,
            operations,
            operation_count,
            provider_synchronization,
            provider_synchronization_count,
            ..
        } && {
            &&& committed_files.len() <= MAX_INLINE_APPLIED_ITEMS
            &&& operations.len() <= MAX_INLINE_APPLIED_ITEMS
            &&& provider_synchronization.len() <= MAX_INLINE_APPLIED_ITEMS
            &&& committed_file_count == plan.committed_files@.len()
            &&& operation_count == plan.operations@.len()
            &&& provider_synchronization_count == plan.provider_synchronization@.len()
        },
{
}

/// The semantic state of an applied plan is what its providers report together:
/// there is none where no provider reports, one provider that is not synchronized
/// makes it degraded, and only providers that all are make it synchronized.
pub proof fn law_semantic_state_follows_the_providers(
    plan: AppliedEditPlan,
    project: Seq<char>,
    roots: Seq<Seq<char>>,
)
    ensures
        apply_result(ApplyEditPlanOutcome::Applied(plan), project, roots) matches
        ApplyModel::Applied { semantic_state, .. } && {
            let providers = plan.provider_synchronization@;
            &&& semantic_state is None <==> providers.len() == 0
            &&& semantic_state == Some("degraded"@) <==> exists|i: int|
                0 <= i < providers.len() && !(#[trigger] providers[i]).synchronized
            &&& semantic_state == Some("synchronized"@) <==> providers.len() > 0 && forall|i: int|
                0 <= i < providers.len() ==> (#[trigger] providers[i]).synchronized
        },
{
    reveal_strlit("degraded");
    reveal_strlit("synchronized");
    assert("degraded"@.len() == 8);
    assert("synchronized"@.len() == 12);
    let providers = plan.provider_synchronization@;
    let syncs = reported_syncs(providers);
    assert forall|i: int| 0 <= i < providers.len() implies (#[trigger] syncs[i]).synchronized
        == providers[i].synchronized by {}
    if exists|i: int| 0 <= i < providers.len() && !(#[trigger] providers[i]).synchronized {
        let i = choose|i: int| 0 <= i < providers.len() && !(#[trigger] providers[i]).synchronized;
        assert(!syncs[i].synchronized);
    } else {
        assert forall|i: int| 0 <= i < syncs.len() implies (#[trigger] syncs[i]).synchronized by {
            assert(providers[i].synchronized);
        }
    }
}

/// An applied result names its project and plan, says that it is committed, and
/// shows each of the first files, operations and providers as the plan reports
/// it, in the plan's order and cut only where it is long.
pub proof fn law_applied_result_reports_the_plan(
    plan: AppliedEditPlan,
    project: Seq<char>,
    roots: Seq<Seq<char>>,
)
    ensures
        apply_result(ApplyEditPlanOutcome::Applied(plan), project, roots) matches
        ApplyModel::Applied {
            project_id,
            plan_id,
            committed,
            committed_files,
            operations,
            unified_diff,
            verification,
            provider_synchronization,
            ..
        } && {
            &&& project_id == project
            &&& plan_id == plan.plan_id@
            &&& committed
            &&& committed_files.len() == if plan.committed_files@.len() < 8 {
                plan.committed_files@.len()
            } else {
                8
            }
            &&& forall|i: int|
                0 <= i < committed_files.len() ==> (#[trigger] committed_files[i]) == shortened(
                    shown_path(roots, plan.committed_files@[i]@),
                    256,
                )
            &&& operations.len() == if plan.operations@.len() < 8 {
                plan.operations@.len()
            } else {
                8
            }
            &&& forall|i: int|
                0 <= i < operations.len() ==> (#[trigger] operations[i]) == shortened(
                    plan.operations@[i]@,
                    256,
                )
            &&& unified_diff == shortened(plan.unified_diff@, 4096)
            &&& verification == match plan.verification {
                None => None,
                Some(VerificationStatus::SemanticVerified) => Some("semantic_verified"@),
                Some(VerificationStatus::StructuralUnverified) => Some("structural_unverified"@),
            }
            &&& provider_synchronization.len() == if plan.provider_synchronization@.len() < 8 {
                plan.provider_synchronization@.len()
            } else {
                8
            }
            &&& forall|i: int|
                0 <= i < provider_synchronization.len() ==> {
                    let shown = #[trigger] provider_synchronization[i];
                    let provider = plan.provider_synchronization@[i];
                    &&& shown.provider == shortened(provider.provider@, 256)
                    &&& shown.synchronized == provider.synchronized
                    &&& shown.watched_file_notifications == provider.watched_file_notifications
                    &&& shown.message == match provider.message {
                        Some(message) => Some(shortened(message@, 256)),
                        None => None,
                    }
                }
        },
{
}

/// An applied result is marked as shortened exactly where a list has more than
/// eight entries, the diff more than 4096 bytes, or a shown text more than 256.
pub proof fn law_applied_result_is_marked_where_cut(
    plan: AppliedEditPlan,
    project: Seq<char>,
    roots: Seq<Seq<char>>,
)
    ensures
        apply_result(ApplyEditPlanOutcome::Applied(plan), project, roots) matches
        ApplyModel::Applied { details_truncated, .. } && (!details_truncated <==> {
            &&& byte_len(plan.unified_diff@) <= 4096
            &&& plan.committed_files@.len() <= 8
            &&& plan.operations@.len() <= 8
            &&& plan.provider_synchronization@.len() <= 8
            &&& forall|i: int|
                0 <= i < plan.committed_files@.len() ==> byte_len(
                    shown_path(roots, (#[trigger] plan.committed_files@[i])@),
                ) <= 256
            &&& forall|i: int|
                0 <= i < plan.operations@.len() ==> byte_len((#[trigger] plan.operations@[i])@)
                    <= 256
            &&& forall|i: int|
                0 <= i < plan.provider_synchronization@.len() ==> {
                    let provider = #[trigger] plan.provider_synchronization@[i];
                    &&& byte_len(provider.provider@) <= 256
                    &&& provider.message matches Some(message) ==> byte_len(message@) <= 256
                }
        }),
{
    let files = shown_paths(roots, path_texts(plan.committed_files@));
    let operations = texts(plan.operations@);
    let syncs = reported_syncs(plan.provider_synchronization@);
    if applied_details_truncated(plan, files) {
        if has_long_text(files) {
            let i = choose|i: int|
                0 <= i < files.len() && byte_len(#[trigger] files[i]) > MAX_APPROVAL_TEXT_BYTES;
            assert(byte_len(shown_path(roots, plan.committed_files@[i]@)) > 256);
        }
        if has_long_text(operations) {
            let i = choose|i: int|
                0 <= i < operations.len() && byte_len(#[trigger] operations[i])
                    > MAX_APPROVAL_TEXT_BYTES;
            assert(byte_len(plan.operations@[i]@) > 256);
        }
        if exists|i: int| 0 <= i < syncs.len() && has_long_report(#[trigger] syncs[i]) {
            let i = choose|i: int| 0 <= i < syncs.len() && has_long_report(#[trigger] syncs[i]);
            assert(syncs[i] == plan.provider_synchronization@[i]@);
        }
    } else {
        assert forall|i: int| 0 <= i < plan.committed_files@.len() implies byte_len(
            shown_path(roots, (#[trigger] plan.committed_files@[i])@),
        ) <= 256 by {
            assert(byte_len(files[i]) <= 256);
        }
        assert forall|i: int| 0 <= i < plan.operations@.len() implies byte_len(
            (#[trigger] plan.operations@[i])@,
        ) <= 256 by {
            assert(byte_len(operations[i]) <= 256);
        }
        assert forall|i: int| 0 <= i < plan.provider_synchronization@.len() implies {
            let provider = #[trigger] plan.provider_synchronization@[i];
            &&& byte_len(provider.provider@) <= 256
            &&& provider.message matches Some(message) ==> byte_len(message@) <= 256
        } by {
            assert(!has_long_report(syncs[i]));
        }
    }
}

/// A plan that waits for another edit is not committed and is to be tried again
/// as it is, after the time that the other edit needs. The paths in use are
/// counted, and the first of them shown.
pub proof fn law_waiting_plan_is_tried_again(
    waiting: EditNotReady,
    project: Seq<char>,
    roots: Seq<Seq<char>>,
)
    ensures
        apply_result(ApplyEditPlanOutcome::NotReady(waiting), project, roots) matches
        ApplyModel::NotReady {
            reason,
            project_id,
            plan_id,
            committed,
            retry,
            blocked_paths,
            blocked_path_count,
        } && {
            &&& reason == "edit_in_progress"@
            &&& project_id == project
            &&& plan_id == waiting.plan_id@
            &&& !committed
            &&& retry.action == WorkspaceEditRetryAction::RetryApply
            &&& retry.same_plan
            &&& retry.after_ms == Some(waiting.retry_after_ms)
            &&& blocked_path_count == waiting.blocked_paths@.len()
            &&& blocked_paths.len() == if waiting.blocked_paths@.len() < 64 {
                waiting.blocked_paths@.len()
            } else {
                64
            }
            &&& forall|i: int|
                0 <= i < blocked_paths.len() ==> (#[trigger] blocked_paths[i]) == shown_path(
                    roots,
                    waiting.blocked_paths@[i]@,
                )
        },
{
}

/// A plan whose files changed is not committed, is not to be tried again, and
/// names every changed file and the reason.
pub proof fn law_conflicting_plan_is_previewed_again(
    conflict: EditConflict,
    project: Seq<char>,
    roots: Seq<Seq<char>>,
)
    ensures
        apply_result(ApplyEditPlanOutcome::Conflict(conflict), project, roots) matches
        ApplyModel::Conflict { reason, project_id, plan_id, committed, retry, changed_paths } && {
            &&& reason == conflict.reason@
            &&& project_id == project
            &&& plan_id == conflict.plan_id@
            &&& !committed
            &&& retry.action == WorkspaceEditRetryAction::PreviewAgain
            &&& !retry.same_plan
            &&& retry.after_ms is None
            &&& changed_paths.len() == conflict.changed_paths@.len()
            &&& forall|i: int|
                0 <= i < changed_paths.len() ==> (#[trigger] changed_paths[i]) == shown_path(
                    roots,
                    conflict.changed_paths@[i]@,
                )
        },
{
}

/// A path is shown relative to the first root that leads to it, and never as an
/// absolute path where no root does.
pub proof fn law_shown_path_is_relative_to_its_root(roots: Seq<Seq<char>>, path: Seq<char>)
    ensures
        (forall|i: int| 0 <= i < roots.len() ==> relative_text(path, #[trigger] roots[i]) is None)
            ==> shown_path(roots, path) == "<outside-project>"@,
        forall|i: int|
            0 <= i < roots.len() && relative_text(path, #[trigger] roots[i]) is Some && (forall|
                j: int,
            |
                0 <= j < i ==> relative_text(path, #[trigger] roots[j]) is None) ==> Some(
                shown_path(roots, path),
            ) == relative_text(path, roots[i]),
    decreases roots.len(),
{
    if roots.len() > 0 {
        let rest = roots.skip(1);
        law_shown_path_is_relative_to_its_root(rest, path);
        assert forall|i: int| 0 <= i < rest.len() implies #[trigger] rest[i] == roots[i + 1] by {}
        assert forall|i: int|
            0 <= i < roots.len() && relative_text(path, #[trigger] roots[i]) is Some && (forall|
                j: int,
            |
                0 <= j < i ==> relative_text(
                    path,
                    #[trigger] roots[j],
                ) is None) implies Some(shown_path(roots, path)) == relative_text(
            path,
            roots[i],
        ) by {
            if i > 0 {
                assert(relative_text(path, roots[0]) is None);
                assert(rest[i - 1] == roots[i]);
                assert forall|j: int| 0 <= j < i - 1 implies relative_text(
                    path,
                    #[trigger] rest[j],
                ) is None by {
                    assert(rest[j] == roots[j + 1]);
                }
            }
        }
    }
}

/// The answer to an applied plan gives every part of its result under its own
/// key, and leaves out what the result has not.
pub proof fn law_applied_answer_gives_the_result(result: ApplyModel)
    requires
        result is Applied,
    ensures
        result matches ApplyModel::Applied {
            project_id,
            plan_id,
            committed,
            committed_files,
            committed_file_count,
            operations,
            operation_count,
            unified_diff,
            detail_resource,
            verification,
            provider_synchronization,
            provider_synchronization_count,
            details_truncated,
            semantic_state,
        } && {
            let answer = keyed(apply_json(result));
            &&& member(answer, "status"@) == Some(Json::Text("applied"@))
            &&& member(answer, "project_id"@) == Some(Json::Text(project_id))
            &&& member(answer, "plan_id"@) == Some(Json::Text(plan_id))
            &&& member(answer, "committed"@) == Some(Json::Bool(committed))
            &&& member(answer, "committed_files"@) == Some(json_texts(committed_files))
            &&& member(answer, "committed_file_count"@) == Some(json_count(committed_file_count))
            &&& member(answer, "operations"@) == Some(json_texts(operations))
            &&& member(answer, "operation_count"@) == Some(json_count(operation_count))
            &&& member(answer, "unified_diff"@) == Some(Json::Text(unified_diff))
            &&& member(answer, "detail_resource"@) == match detail_resource {
                Some(uri) => Some(Json::Text(uri)),
                None => None,
            }
            &&& member(answer, "verification"@) == match verification {
                Some(name) => Some(Json::Text(name)),
                None => None,
            }
            &&& member(answer, "provider_synchronization"@) is Some <==>
                provider_synchronization.len() > 0
            &&& provider_synchronization.len() > 0 ==> (member(
                answer,
                "provider_synchronization"@,
            ) matches Some(Json::Array(shown)) && shown.len() == provider_synchronization.len()
                && forall|i: int|
                0 <= i < shown.len() ==> is_provider_report(
                    #[trigger] shown[i],
                    provider_synchronization[i],
                ))
            &&& member(answer, "provider_synchronization_count"@) == Some(
                json_count(provider_synchronization_count),
            )
            &&& member(answer, "details_truncated"@) == Some(Json::Bool(details_truncated))
            &&& member(answer, "semantic_state"@) == match semantic_state {
                Some(state) => Some(Json::Text(state)),
                None => None,
            }
        },
{
    reveal_strlit("status");
    reveal_strlit("project_id");
    reveal_strlit("plan_id");
    reveal_strlit("committed");
    reveal_strlit("committed_files");
    reveal_strlit("committed_file_count");
    reveal_strlit("operations");
    reveal_strlit("operation_count");
    reveal_strlit("unified_diff");
    reveal_strlit("detail_resource");
    reveal_strlit("verification");
    reveal_strlit("provider_synchronization");
    reveal_strlit("provider_synchronization_count");
    reveal_strlit("details_truncated");
    reveal_strlit("semantic_state");
    reveal_strlit("provider");
    reveal_strlit("synchronized");
    reveal_strlit("watched_file_notifications");
    reveal_strlit("message");
    assert("status"@.len() == 6);
    assert("project_id"@.len() == 10);
    assert("plan_id"@.len() == 7);
    assert("committed"@.len() == 9);
    assert("committed_files"@.len() == 15);
    assert("committed_file_count"@.len() == 20);
    assert("operations"@.len() == 10);
    assert("operation_count"@.len() == 15);
    assert("unified_diff"@.len() == 12);
    assert("detail_resource"@.len() == 15);
    assert("verification"@.len() == 12);
    assert("provider_synchronization"@.len() == 24);
    assert("provider_synchronization_count"@.len() == 30);
    assert("details_truncated"@.len() == 17);
    assert("semantic_state"@.len() == 14);
    assert("provider"@.len() == 8);
    assert("synchronized"@.len() == 12);
    assert("watched_file_notifications"@.len() == 26);
    assert("message"@.len() == 7);
    assert("project_id"@[0] == 'p');
    assert("operations"@[0] == 'o');
    assert("plan_id"@[0] == 'p');
    assert("message"@[0] == 'm');
    assert("committed_files"@[0] == 'c');
    assert("operation_count"@[0] == 'o');
    assert("detail_resource"@[0] == 'd');
    assert("unified_diff"@[0] == 'u');
    assert("verification"@[0] == 'v');
    assert("synchronized"@[0] == 's');
    lemma_last_pushed();
    let fields = apply_json(result)->Object_0;
    lemma_keyed_members(apply_json(result));
    law_texts_stay_in_place(result->committed_files);
    law_texts_stay_in_place(result->Applied_operations);
    let syncs = result->provider_synchronization;
    if syncs.len() > 0 {
        let written = syncs_json(syncs);
        reveal_with_fuel(keyed, 2);
        assert(keyed(written)->Array_0.len() == syncs.len());
        assert forall|i: int| 0 <= i < syncs.len() implies is_provider_report(
            #[trigger] keyed(written)->Array_0[i],
            syncs[i],
        ) by {
            assert(keyed(written)->Array_0[i] == keyed(sync_json(syncs[i])));
            lemma_provider_report(syncs[i]);
        }
    }
}

/// Whether a value reports a provider: its name, whether it is synchronized, how
/// many files it was told of, and its message if it has one.
pub open spec fn is_provider_report(report: Json, sync: SyncModel) -> bool {
    &&& member(report, "provider"@) == Some(Json::Text(sync.provider))
    &&& member(report, "synchronized"@) == Some(Json::Bool(sync.synchronized))
    &&& member(report, "watched_file_notifications"@) == Some(
        json_count(sync.watched_file_notifications),
    )
    &&& member(report, "message"@) == match sync.message {
        Some(message) => Some(Json::Text(message)),
        None => None,
    }
}

proof fn lemma_provider_report(sync: SyncModel)
    ensures
        is_provider_report(keyed(sync_json(sync)), sync),
{
    reveal_strlit("provider");
    reveal_strlit("synchronized");
    reveal_strlit("watched_file_notifications");
    reveal_strlit("message");
    assert("provider"@.len() == 8);
    assert("synchronized"@.len() == 12);
    assert("watched_file_notifications"@.len() == 26);
    assert("message"@.len() == 7);
    lemma_last_pushed();
    lemma_keyed_members(sync_json(sync));
}

/// The answer to a plan that waits says so, how to try again, and what it waits
/// for.
pub proof fn law_waiting_answer_gives_the_result(result: ApplyModel)
    requires
        result is NotReady,
    ensures
        result matches ApplyModel::NotReady {
            reason,
            project_id,
            plan_id,
            committed,
            retry,
            blocked_paths,
            blocked_path_count,
        } && {
            let answer = keyed(apply_json(result));
            &&& member(answer, "status"@) == Some(Json::Text("not_ready"@))
            &&& member(answer, "reason"@) == Some(Json::Text(reason))
            &&& member(answer, "project_id"@) == Some(Json::Text(project_id))
            &&& member(answer, "plan_id"@) == Some(Json::Text(plan_id))
            &&& member(answer, "committed"@) == Some(Json::Bool(committed))
            &&& member(answer, "retry"@) matches Some(advice) && is_retry_advice(advice, retry)
            &&& member(answer, "contention"@) matches Some(contention) && {
                &&& member(contention, "scope"@) == Some(Json::Text("same_worktree"@))
                &&& member(contention, "blocked_paths"@) == Some(json_texts(blocked_paths))
                &&& member(contention, "blocked_path_count"@) == Some(
                    json_count(blocked_path_count),
                )
            }
        },
{
    reveal_strlit("status");
    reveal_strlit("reason");
    reveal_strlit("project_id");
    reveal_strlit("plan_id");
    reveal_strlit("committed");
    reveal_strlit("retry");
    reveal_strlit("contention");
    reveal_strlit("scope");
    reveal_strlit("blocked_paths");
    reveal_strlit("blocked_path_count");
    assert("status"@.len() == 6);
    assert("reason"@.len() == 6);
    assert("project_id"@.len() == 10);
    assert("plan_id"@.len() == 7);
    assert("committed"@.len() == 9);
    assert("retry"@.len() == 5);
    assert("contention"@.len() == 10);
    assert("scope"@.len() == 5);
    assert("blocked_paths"@.len() == 13);
    assert("blocked_path_count"@.len() == 18);
    assert("status"@[0] == 's');
    assert("reason"@[0] == 'r');
    assert("project_id"@[0] == 'p');
    assert("contention"@[0] == 'c');
    assert("retry"@[0] == 'r');
    assert("scope"@[0] == 's');
    lemma_last_pushed();
    let fields = apply_json(result)->Object_0;
    lemma_keyed_members(apply_json(result));
    lemma_retry_advice(result->NotReady_retry);
    law_texts_stay_in_place(result->blocked_paths);
    let contention = last_under(fields, "contention"@)->0;
    lemma_keyed_members(contention);
}

/// The answer to a plan whose files changed says so, and names them.
pub proof fn law_conflict_answer_gives_the_result(result: ApplyModel)
    requires
        result is Conflict,
    ensures
        result matches ApplyModel::Conflict {
            reason,
            project_id,
            plan_id,
            committed,
            retry,
            changed_paths,
        } && {
            let answer = keyed(apply_json(result));
            &&& member(answer, "status"@) == Some(Json::Text("conflict"@))
            &&& member(answer, "reason"@) == Some(Json::Text(reason))
            &&& member(answer, "project_id"@) == Some(Json::Text(project_id))
            &&& member(answer, "plan_id"@) == Some(Json::Text(plan_id))
            &&& member(answer, "committed"@) == Some(Json::Bool(committed))
            &&& member(answer, "retry"@) matches Some(advice) && is_retry_advice(advice, retry)
            &&& member(answer, "changed_paths"@) == Some(json_texts(changed_paths))
        },
{
    reveal_strlit("status");
    reveal_strlit("reason");
    reveal_strlit("project_id");
    reveal_strlit("plan_id");
    reveal_strlit("committed");
    reveal_strlit("retry");
    reveal_strlit("changed_paths");
    assert("status"@.len() == 6);
    assert("reason"@.len() == 6);
    assert("project_id"@.len() == 10);
    assert("plan_id"@.len() == 7);
    assert("committed"@.len() == 9);
    assert("retry"@.len() == 5);
    assert("changed_paths"@.len() == 13);
    assert("status"@[0] == 's');
    assert("reason"@[0] == 'r');
    lemma_last_pushed();
    lemma_keyed_members(apply_json(result));
    lemma_retry_advice(result->Conflict_retry);
    law_texts_stay_in_place(result->changed_paths);
}

/// Whether a value advises to retry as given: the action, whether the same plan
/// can be used, and the time to wait if there is one.
pub open spec fn is_retry_advice(advice: Json, retry: WorkspaceEditRetry) -> bool {
    &&& member(advice, "action"@) == Some(
        Json::Text(
            match retry.action {
                WorkspaceEditRetryAction::RetryApply => "retry_apply"@,
                WorkspaceEditRetryAction::PreviewAgain => "preview_again"@,
            },
        ),
    )
    &&& member(advice, "same_plan"@) == Some(Json::Bool(retry.same_plan))
    &&& member(advice, "after_ms"@) == match retry.after_ms {
        Some(after_ms) => Some(json_count(after_ms as nat)),
        None => None,
    }
}

proof fn lemma_retry_advice(retry: WorkspaceEditRetry)
    ensures
        is_retry_advice(keyed(retry_json(retry)), retry),
{
    reveal_strlit("action");
    reveal_strlit("same_plan");
    reveal_strlit("after_ms");
    assert("action"@.len() == 6);
    assert("same_plan"@.len() == 9);
    assert("after_ms"@.len() == 8);
    lemma_last_pushed();
    lemma_keyed_members(retry_json(retry));
}

/// The result of an apply is summed up by its plan and what came of it: how many files
/// are shown as committed, how many paths are in use and when to try again, or that
/// the plan is stale.
pub proof fn law_apply_is_summed_up(
    outcome: ApplyEditPlanOutcome,
    project: Seq<char>,
    roots: Seq<Seq<char>>,
    output: StructuredOutput,
)
    requires
        is_apply_output(output, apply_result(outcome, project, roots)),
    ensures
        ({
            let result = apply_result(outcome, project, roots);
            &&& output.value@ == keyed(apply_json(result))
            &&& output.legacy@ == json_text(apply_json(result))
            &&& output.summary matches Some(summary) && match outcome {
                ApplyEditPlanOutcome::Applied(plan) => {
                    let count = plan.committed_files@.len();
                    let shown = result->committed_files.len();
                    &&& summary@ == "Applied edit plan "@ + plan.plan_id@ + "; committed "@
                        + decimal(shown) + " file(s)."@
                    &&& count <= 8 ==> shown == count
                    &&& count > 8 ==> shown == 8
                },
                ApplyEditPlanOutcome::NotReady(plan) => summary@ == "Edit plan "@ + plan.plan_id@
                    + " is not ready: "@ + decimal(plan.blocked_paths@.len())
                    + " path(s) are in use. Retry the same plan after about "@ + decimal(
                    plan.retry_after_ms as nat,
                ) + " ms."@,
                ApplyEditPlanOutcome::Conflict(plan) => summary@ == "Edit plan "@ + plan.plan_id@
                    + " is stale; preview the change again before retrying."@,
            }
        }),
{
}

} // verus!
