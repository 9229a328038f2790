//! Project state, daemon health and project events as clients read them.

use crate::approval::texts_of_paths;
use crate::json::{
    by_key, json_array, json_count, json_len, json_models, json_number, json_opt_str,
    json_optional_text, json_str, json_strings, json_texts, last_under, law_by_key_lookup,
    law_texts_stay_in_place, lemma_filled_members, lemma_last_pushed, lists_texts, member,
    no_fields, rendered_len, Json, JsonNumber, JsonObject, JsonValue,
};
use crate::paths::{path_texts, FilePath};
use crate::project::{status_name, ProjectId, ProjectStatus};
use crate::session::{
    event_uri, events_since_uri, project_event_resource_uri, project_events_since_uri,
};
use crate::text::{optional_text, texts};
use vstd::prelude::*;
use vstd::string::*;

verus! {

/// The longest event body that an event page shows inline.
pub const MAX_INLINE_PROJECT_EVENT_BYTES: usize = 128;

/// The events on one page.
pub const PROJECT_EVENT_PAGE_SIZE: usize = 64;

/// The roots that one actor of a project serves.
#[derive(Debug, PartialEq, Eq)]
pub struct ActorGroupState {
    pub group_id: usize,
    pub roots: Vec<FilePath>,
}

/// Numbers the groups of roots in their order.
pub fn actor_group_states(actor_group_roots: Vec<Vec<FilePath>>) -> (groups: Vec<ActorGroupState>)
    ensures
        groups@.len() == actor_group_roots@.len(),
        forall|i: int|
            0 <= i < groups@.len() ==> (#[trigger] groups@[i]).group_id == i && groups@[i].roots
                == actor_group_roots@[i],
{
    let mut groups: Vec<ActorGroupState> = Vec::new();
    let mut left = actor_group_roots;
    let ghost all = left@;
    while left.len() > 0
        invariant
            groups@.len() + left@.len() == all.len(),
            left@ == all.skip(groups@.len() as int),
            forall|i: int|
                0 <= i < groups@.len() ==> (#[trigger] groups@[i]).group_id == i
                    && groups@[i].roots == all[i],
        decreases left@.len(),
    {
        let ghost at = groups@.len() as int;
        let roots = left.remove(0);
        assert(roots == all[at]);
        let group_id = groups.len();
        groups.push(ActorGroupState { group_id, roots });
        assert(left@ =~= all.skip(at + 1));
    }
    groups
}

/// Who a project is: its identifier, its roots and its repository.
#[derive(Debug, PartialEq, Eq)]
pub struct ProjectIdentity {
    pub id: ProjectId,
    pub root: FilePath,
    pub roots: Vec<FilePath>,
    pub repository_root: Option<FilePath>,
}

/// Why a project sleeps, and since when.
#[derive(Debug, PartialEq, Eq)]
pub struct Dormancy {
    pub reason: String,
    pub idle_for_ms: Option<u128>,
}

/// The state of a project.
#[derive(Debug, PartialEq, Eq)]
pub struct ProjectState {
    pub status: ProjectStatus,
    pub last_error: Option<String>,
    pub dormancy: Option<Dormancy>,
    pub configured_language_servers: Vec<String>,
    pub active_language_servers: Vec<String>,
    pub open_document_count: usize,
    pub generation: u64,
}

/// The paths of a project's roots.
pub fn project_root_paths(identity: &ProjectIdentity) -> (paths: Vec<FilePath>)
    ensures
        path_texts(paths@) == path_texts(identity.roots@),
{
    let mut paths: Vec<FilePath> = Vec::new();
    let mut i: usize = 0;
    while i < identity.roots.len()
        invariant
            i <= identity.roots@.len(),
            paths@.len() == i,
            forall|j: int| 0 <= j < i ==> (#[trigger] paths@[j])@ == identity.roots@[j]@,
        decreases identity.roots@.len() - i,
    {
        paths.push(FilePath::new(identity.roots[i].text.as_str()));
        i = i + 1;
    }
    assert(path_texts(paths@) =~= path_texts(identity.roots@));
    paths
}

pub open spec fn optional_path(path: Option<FilePath>) -> Option<Seq<char>> {
    match path {
        Some(path) => Some(path@),
        None => None,
    }
}

fn paths_value(paths: &Vec<FilePath>) -> (json: JsonValue)
    ensures
        json@ == json_texts(path_texts(paths@)),
{
    json_strings(&texts_of_paths(paths))
}

fn path_value(path: &Option<FilePath>) -> (json: JsonValue)
    ensures
        json@ == json_optional_text(optional_path(*path)),
{
    match path {
        Some(path) => json_str(path.text.as_str()),
        None => JsonValue::Null,
    }
}

/// An unsigned 64-bit number as JSON.
pub fn json_u64(value: u64) -> (json: JsonValue)
    ensures
        json@ == json_count(value as nat),
{
    JsonValue::Number(JsonNumber::Unsigned(value))
}

/// The milliseconds that a client is told: what does not fit saturates.
pub open spec fn shown_millis(millis: u128) -> nat {
    if millis <= u64::MAX {
        millis as nat
    } else {
        u64::MAX as nat
    }
}

pub open spec fn dormancy_json(dormancy: Option<Dormancy>) -> Json {
    match dormancy {
        Some(dormancy) => Json::Object(
            by_key(
                no_fields().push(("reason"@, Json::Text(dormancy.reason@))).push(
                    (
                        "idle_for_ms"@,
                        match dormancy.idle_for_ms {
                            Some(millis) => json_count(shown_millis(millis)),
                            None => Json::Null,
                        },
                    ),
                ),
            ),
        ),
        None => Json::Null,
    }
}

fn dormancy_value(dormancy: &Option<Dormancy>) -> (json: JsonValue)
    ensures
        json@ == dormancy_json(*dormancy),
{
    match dormancy {
        Some(dormancy) => {
            let mut fields = JsonObject::new();
            fields.put("reason", json_str(dormancy.reason.as_str()));
            let idle = match dormancy.idle_for_ms {
                Some(millis) => if millis <= u64::MAX as u128 {
                    json_u64(millis as u64)
                } else {
                    json_u64(u64::MAX)
                },
                None => JsonValue::Null,
            };
            fields.put("idle_for_ms", idle);
            fields.into_map()
        },
        None => JsonValue::Null,
    }
}

pub open spec fn actor_group_json(group: ActorGroupState) -> Json {
    Json::Object(
        by_key(
            no_fields().push(("group_id"@, json_count(group.group_id as nat))).push(
                ("roots"@, json_texts(path_texts(group.roots@))),
            ),
        ),
    )
}

pub open spec fn actor_groups_json(groups: Seq<ActorGroupState>) -> Json {
    Json::Array(Seq::new(groups.len(), |i: int| actor_group_json(groups[i])))
}

fn actor_groups_value(groups: &Vec<ActorGroupState>) -> (json: JsonValue)
    ensures
        json@ == actor_groups_json(groups@),
{
    let mut values: Vec<JsonValue> = Vec::new();
    let mut i: usize = 0;
    while i < groups.len()
        invariant
            i <= groups@.len(),
            values@.len() == i,
            forall|j: int| 0 <= j < i ==> (#[trigger] values@[j])@ == actor_group_json(groups@[j]),
        decreases groups@.len() - i,
    {
        let mut fields = JsonObject::new();
        fields.put("group_id", json_number(groups[i].group_id));
        fields.put("roots", paths_value(&groups[i].roots));
        values.push(fields.into_map());
        i = i + 1;
    }
    let json = json_array(values);
    assert(json@->Array_0 =~= actor_groups_json(groups@)->Array_0);
    json
}

pub open spec fn state_fields(
    identity: ProjectIdentity,
    state: ProjectState,
    groups: Seq<ActorGroupState>,
) -> Seq<(Seq<char>, Json)> {
    no_fields().push(("project_id"@, Json::Text(identity.id@))).push(
        ("root"@, Json::Text(identity.root@)),
    ).push(("roots"@, json_texts(path_texts(identity.roots@)))).push(
        ("repository_root"@, json_optional_text(optional_path(identity.repository_root))),
    ).push(("status"@, Json::Text(status_name(state.status)))).push(
        ("last_error"@, json_optional_text(optional_text(state.last_error))),
    ).push(("dormancy"@, dormancy_json(state.dormancy))).push(
        ("configured_language_servers"@, json_texts(texts(state.configured_language_servers@))),
    ).push(
        ("active_language_servers"@, json_texts(texts(state.active_language_servers@))),
    ).push(("open_document_count"@, json_count(state.open_document_count as nat))).push(
        ("generation"@, json_count(state.generation as nat)),
    ).push(("actor_group_count"@, json_count(groups.len()))).push(
        ("actor_groups"@, actor_groups_json(groups)),
    )
}

fn put_state(
    fields: &mut JsonObject,
    identity: &ProjectIdentity,
    state: &ProjectState,
    actor_groups: &Vec<ActorGroupState>,
)
    requires
        old(fields)@ == no_fields(),
    ensures
        final(fields)@ == state_fields(*identity, *state, actor_groups@),
{
    fields.put("project_id", json_str(identity.id.as_str()));
    fields.put("root", json_str(identity.root.text.as_str()));
    fields.put("roots", paths_value(&identity.roots));
    fields.put("repository_root", path_value(&identity.repository_root));
    fields.put("status", json_str(state.status.as_str()));
    fields.put("last_error", json_opt_str(&state.last_error));
    fields.put("dormancy", dormancy_value(&state.dormancy));
    fields.put(
        "configured_language_servers",
        json_strings(&state.configured_language_servers),
    );
    fields.put("active_language_servers", json_strings(&state.active_language_servers));
    fields.put("open_document_count", json_number(state.open_document_count));
    fields.put("generation", json_u64(state.generation));
    fields.put("actor_group_count", json_number(actor_groups.len()));
    fields.put("actor_groups", actor_groups_value(actor_groups));
}

/// The state of a project as a client reads it.
pub fn project_state_json(
    identity: &ProjectIdentity,
    state: &ProjectState,
    actor_groups: &Vec<ActorGroupState>,
) -> (json: JsonValue)
    ensures
        json@ == Json::Object(by_key(state_fields(*identity, *state, actor_groups@))),
{
    let mut fields = JsonObject::new();
    put_state(&mut fields, identity, state, actor_groups);
    fields.into_map()
}

/// The state of a project with its cargo features.
pub fn project_state_answer(
    identity: &ProjectIdentity,
    state: &ProjectState,
    actor_group_roots: Vec<Vec<FilePath>>,
    cargo_features: JsonValue,
) -> (json: JsonValue)
    ensures
        exists|groups: Seq<ActorGroupState>|
            {
                &&& groups.len() == actor_group_roots@.len()
                &&& forall|i: int|
                    0 <= i < groups.len() ==> (#[trigger] groups[i]).group_id == i
                        && groups[i].roots == actor_group_roots@[i]
                &&& json@ == #[trigger] state_answer(*identity, *state, groups, cargo_features@)
            },
{
    let groups = actor_group_states(actor_group_roots);
    let mut fields = JsonObject::new();
    put_state(&mut fields, identity, state, &groups);
    fields.put("cargo_features", cargo_features);
    let json = fields.into_map();
    assert(json@ == state_answer(*identity, *state, groups@, cargo_features@));
    json
}

pub open spec fn state_answer(
    identity: ProjectIdentity,
    state: ProjectState,
    groups: Seq<ActorGroupState>,
    cargo_features: Json,
) -> Json {
    Json::Object(
        by_key(state_fields(identity, state, groups).push(("cargo_features"@, cargo_features))),
    )
}

pub open spec fn listed_project(identity: ProjectIdentity) -> Json {
    Json::Object(
        by_key(
            no_fields().push(("project_id"@, Json::Text(identity.id@))).push(
                ("root"@, Json::Text(identity.root@)),
            ).push(("roots"@, json_texts(path_texts(identity.roots@)))).push(
                ("repository_root"@, json_optional_text(optional_path(identity.repository_root))),
            ),
        ),
    )
}

/// A project as the project list shows it.
pub fn listed_project_json(identity: &ProjectIdentity) -> (json: JsonValue)
    ensures
        json@ == listed_project(*identity),
{
    let mut fields = JsonObject::new();
    fields.put("project_id", json_str(identity.id.as_str()));
    fields.put("root", json_str(identity.root.text.as_str()));
    fields.put("roots", paths_value(&identity.roots));
    fields.put("repository_root", path_value(&identity.repository_root));
    fields.into_map()
}

/// How many projects there are in each state.
#[derive(Clone, Copy, Debug, PartialEq, Eq, Structural)]
pub struct ProjectStatusCounts {
    pub starting: usize,
    pub ready: usize,
    pub degraded: usize,
    pub restarting: usize,
    pub dormant: usize,
    pub stopping: usize,
    pub stopped: usize,
    pub failed: usize,
}

pub open spec fn status_counts(counts: ProjectStatusCounts) -> Json {
    Json::Object(
        by_key(
            no_fields().push(("starting"@, json_count(counts.starting as nat))).push(
                ("ready"@, json_count(counts.ready as nat)),
            ).push(("degraded"@, json_count(counts.degraded as nat))).push(
                ("restarting"@, json_count(counts.restarting as nat)),
            ).push(("dormant"@, json_count(counts.dormant as nat))).push(
                ("stopping"@, json_count(counts.stopping as nat)),
            ).push(("stopped"@, json_count(counts.stopped as nat))).push(
                ("failed"@, json_count(counts.failed as nat)),
            ),
        ),
    )
}

pub fn project_status_counts_json(counts: ProjectStatusCounts) -> (json: JsonValue)
    ensures
        json@ == status_counts(counts),
{
    let mut fields = JsonObject::new();
    fields.put("starting", json_number(counts.starting));
    fields.put("ready", json_number(counts.ready));
    fields.put("degraded", json_number(counts.degraded));
    fields.put("restarting", json_number(counts.restarting));
    fields.put("dormant", json_number(counts.dormant));
    fields.put("stopping", json_number(counts.stopping));
    fields.put("stopped", json_number(counts.stopped));
    fields.put("failed", json_number(counts.failed));
    fields.into_map()
}

/// One line on a project.
#[derive(Debug, PartialEq, Eq)]
pub struct ProjectStatusSummary {
    pub project_id: ProjectId,
    pub status: ProjectStatus,
    pub actor_group_count: usize,
    pub roots: Vec<FilePath>,
}

pub open spec fn status_summary(summary: ProjectStatusSummary) -> Json {
    Json::Object(
        by_key(
            no_fields().push(("project_id"@, Json::Text(summary.project_id@))).push(
                ("status"@, Json::Text(status_name(summary.status))),
            ).push(("actor_group_count"@, json_count(summary.actor_group_count as nat))).push(
                ("roots"@, json_texts(path_texts(summary.roots@))),
            ),
        ),
    )
}

pub open spec fn status_summaries(summaries: Seq<ProjectStatusSummary>) -> Json {
    Json::Array(Seq::new(summaries.len(), |i: int| status_summary(summaries[i])))
}

pub fn project_status_summaries_json(summaries: &Vec<ProjectStatusSummary>) -> (json: JsonValue)
    ensures
        json@ == status_summaries(summaries@),
{
    let mut values: Vec<JsonValue> = Vec::new();
    let mut i: usize = 0;
    while i < summaries.len()
        invariant
            i <= summaries@.len(),
            values@.len() == i,
            forall|j: int|
                0 <= j < i ==> (#[trigger] values@[j])@ == status_summary(summaries@[j]),
        decreases summaries@.len() - i,
    {
        let mut fields = JsonObject::new();
        fields.put("project_id", json_str(summaries[i].project_id.as_str()));
        fields.put("status", json_str(summaries[i].status.as_str()));
        fields.put("actor_group_count", json_number(summaries[i].actor_group_count));
        fields.put("roots", paths_value(&summaries[i].roots));
        values.push(fields.into_map());
        i = i + 1;
    }
    let json = json_array(values);
    assert(json@->Array_0 =~= status_summaries(summaries@)->Array_0);
    json
}

/// How full the queues of the project actors are.
#[derive(Clone, Copy, Debug, PartialEq, Eq, Structural)]
pub struct ProjectQueuePressure {
    pub queued: usize,
    pub capacity: usize,
}

pub open spec fn queue_pressure(pressure: ProjectQueuePressure) -> Json {
    Json::Object(
        by_key(
            no_fields().push(("queued"@, json_count(pressure.queued as nat))).push(
                ("capacity"@, json_count(pressure.capacity as nat)),
            ),
        ),
    )
}

pub fn project_queue_pressure_json(pressure: ProjectQueuePressure) -> (json: JsonValue)
    ensures
        json@ == queue_pressure(pressure),
{
    let mut fields = JsonObject::new();
    fields.put("queued", json_number(pressure.queued));
    fields.put("capacity", json_number(pressure.capacity));
    fields.into_map()
}

/// Whether projects are kept across restarts, and the last failure to do so.
#[derive(Debug, PartialEq, Eq)]
pub struct DaemonPersistenceSnapshot {
    pub configured: bool,
    pub last_error: Option<String>,
}

pub open spec fn persistence_json(persistence: DaemonPersistenceSnapshot) -> Json {
    Json::Object(
        by_key(
            no_fields().push(("configured"@, Json::Bool(persistence.configured))).push(
                ("last_error"@, json_optional_text(optional_text(persistence.last_error))),
            ),
        ),
    )
}

fn persistence_value(persistence: &DaemonPersistenceSnapshot) -> (json: JsonValue)
    ensures
        json@ == persistence_json(*persistence),
{
    let mut fields = JsonObject::new();
    fields.put("configured", JsonValue::Bool(persistence.configured));
    fields.put("last_error", json_opt_str(&persistence.last_error));
    fields.into_map()
}

/// The state of the daemon at one moment.
#[derive(Debug, PartialEq, Eq)]
pub struct DaemonSnapshot {
    pub project_counts: ProjectStatusCounts,
    pub actor_groups: usize,
    pub project_summaries: Vec<ProjectStatusSummary>,
    pub persistence: DaemonPersistenceSnapshot,
    /// Safe transport details.
    pub transport: JsonValue,
    pub session_count: usize,
    pub queue_pressure: ProjectQueuePressure,
    pub shutting_down: bool,
}

pub open spec fn lifecycle_name(snapshot: DaemonSnapshot) -> Seq<char> {
    if snapshot.shutting_down {
        "shutting_down"@
    } else {
        "running"@
    }
}

impl DaemonSnapshot {
    pub fn lifecycle(&self) -> (name: &'static str)
        ensures
            name@ == lifecycle_name(*self),
    {
        if self.shutting_down {
            "shutting_down"
        } else {
            "running"
        }
    }
}

/// How the daemon is.
#[derive(Clone, Copy, Debug, PartialEq, Eq, Structural)]
pub enum DaemonHealth {
    Healthy,
    Degraded,
    Failed,
}

pub open spec fn health_name(health: DaemonHealth) -> Seq<char> {
    match health {
        DaemonHealth::Healthy => "healthy"@,
        DaemonHealth::Degraded => "degraded"@,
        DaemonHealth::Failed => "failed"@,
    }
}

impl DaemonHealth {
    pub fn as_str(self) -> (name: &'static str)
        ensures
            name@ == health_name(self),
    {
        match self {
            DaemonHealth::Healthy => "healthy",
            DaemonHealth::Degraded => "degraded",
            DaemonHealth::Failed => "failed",
        }
    }
}

/// The health of the daemon: a failed project is worse than a failed store or a
/// project in between states.
pub open spec fn health_of(snapshot: DaemonSnapshot) -> DaemonHealth {
    let counts = snapshot.project_counts;
    if counts.failed > 0 {
        DaemonHealth::Failed
    } else if snapshot.persistence.last_error is Some || counts.degraded > 0 || counts.restarting
        > 0 || counts.stopping > 0 {
        DaemonHealth::Degraded
    } else {
        DaemonHealth::Healthy
    }
}

pub fn health_status(snapshot: &DaemonSnapshot) -> (health: DaemonHealth)
    ensures
        health == health_of(*snapshot),
{
    if snapshot.project_counts.failed > 0 {
        DaemonHealth::Failed
    } else if snapshot.persistence.last_error.is_some() || snapshot.project_counts.degraded > 0
        || snapshot.project_counts.restarting > 0 || snapshot.project_counts.stopping > 0 {
        DaemonHealth::Degraded
    } else {
        DaemonHealth::Healthy
    }
}

/// What both daemon reports tell.
pub open spec fn daemon_fields(
    fields: Seq<(Seq<char>, Json)>,
    snapshot: DaemonSnapshot,
) -> Seq<(Seq<char>, Json)> {
    fields.push(("lifecycle"@, Json::Text(lifecycle_name(snapshot)))).push(
        ("persistence"@, persistence_json(snapshot.persistence)),
    ).push(("transport"@, snapshot.transport@)).push(
        ("session_count"@, json_count(snapshot.session_count as nat)),
    ).push(("queue_pressure"@, queue_pressure(snapshot.queue_pressure))).push(
        ("projects"@, status_counts(snapshot.project_counts)),
    ).push(("actor_groups"@, json_count(snapshot.actor_groups as nat))).push(
        ("project_summaries"@, status_summaries(snapshot.project_summaries@)),
    )
}

fn put_daemon(fields: &mut JsonObject, snapshot: &DaemonSnapshot)
    ensures
        final(fields)@ == daemon_fields(old(fields)@, *snapshot),
{
    fields.put("lifecycle", json_str(snapshot.lifecycle()));
    fields.put("persistence", persistence_value(&snapshot.persistence));
    fields.put("transport", snapshot.transport.duplicate());
    fields.put("session_count", json_number(snapshot.session_count));
    fields.put("queue_pressure", project_queue_pressure_json(snapshot.queue_pressure));
    fields.put("projects", project_status_counts_json(snapshot.project_counts));
    fields.put("actor_groups", json_number(snapshot.actor_groups));
    fields.put(
        "project_summaries",
        project_status_summaries_json(&snapshot.project_summaries),
    );
}

/// The answer to a health request.
pub fn health(snapshot: &DaemonSnapshot) -> (json: JsonValue)
    ensures
        json@ == Json::Object(
            by_key(
                daemon_fields(
                    no_fields().push(("status"@, Json::Text(health_name(health_of(*snapshot))))),
                    *snapshot,
                ),
            ),
        ),
{
    let mut fields = JsonObject::new();
    fields.put("status", json_str(health_status(snapshot).as_str()));
    put_daemon(&mut fields, snapshot);
    fields.into_map()
}

/// The answer to a status request.
pub fn server_status(snapshot: &DaemonSnapshot, version: &str, uptime_seconds: u64) -> (json:
    JsonValue)
    ensures
        json@ == Json::Object(
            by_key(
                daemon_fields(
                    no_fields().push(("version"@, Json::Text(version@))).push(
                        ("uptime_seconds"@, json_count(uptime_seconds as nat)),
                    ),
                    *snapshot,
                ),
            ),
        ),
{
    let mut fields = JsonObject::new();
    fields.put("version", json_str(version));
    fields.put("uptime_seconds", json_u64(uptime_seconds));
    put_daemon(&mut fields, snapshot);
    fields.into_map()
}

/// A retained event with its place in the project's history.
#[derive(Debug, PartialEq, Eq)]
pub struct ProjectEventRecord {
    pub sequence: u64,
    pub event: JsonValue,
}

/// Some events of a project, from a poll cursor on.
#[derive(Debug, PartialEq, Eq)]
pub struct ProjectEventSnapshot {
    pub next_sequence: u64,
    pub truncated: bool,
    pub resync_required: bool,
    pub retention_floor: u64,
    pub events: Vec<ProjectEventRecord>,
    pub first_sequence: Option<u64>,
    pub last_sequence: Option<u64>,
}

/// A whole event record.
pub open spec fn record_json(record: ProjectEventRecord) -> Json {
    Json::Object(
        by_key(
            no_fields().push(("sequence"@, json_count(record.sequence as nat))).push(
                ("event"@, record.event@),
            ),
        ),
    )
}

/// A whole event record as JSON.
pub fn record_value(record: &ProjectEventRecord) -> (json: JsonValue)
    ensures
        json@ == record_json(*record),
{
    let mut fields = JsonObject::new();
    fields.put("sequence", json_u64(record.sequence));
    fields.put("event", record.event.duplicate());
    fields.into_map()
}

/// An event as an event page shows it: whole if it is short, else by its kind
/// and the resource that holds it.
pub open spec fn event_entry(project: Seq<char>, record: ProjectEventRecord) -> Json {
    let bytes = json_len(record.event@);
    if bytes <= MAX_INLINE_PROJECT_EVENT_BYTES {
        record_json(record)
    } else {
        let kind = match member(record.event@, "kind"@) {
            Some(kind) => kind,
            None => Json::Null,
        };
        let resource = Json::Object(
            by_key(
                no_fields().push(
                    ("uri"@, Json::Text(event_uri(project, record.sequence as nat))),
                ).push(("total_bytes"@, json_count(bytes))),
            ),
        );
        Json::Object(
            by_key(
                no_fields().push(("sequence"@, json_count(record.sequence as nat))).push(
                    ("event"@, Json::Object(by_key(no_fields().push(("kind"@, kind))))),
                ).push(("resource"@, resource)),
            ),
        )
    }
}

pub fn project_event_json(project_id: &ProjectId, record: &ProjectEventRecord) -> (json: JsonValue)
    ensures
        json@ == event_entry(project_id@, *record),
{
    let total_bytes = rendered_len(&record.event);
    if total_bytes <= MAX_INLINE_PROJECT_EVENT_BYTES {
        return record_value(record);
    }
    let kind = match record.event.get("kind") {
        Some(kind) => kind.duplicate(),
        None => JsonValue::Null,
    };
    let mut event = JsonObject::new();
    event.put("kind", kind);
    let mut resource = JsonObject::new();
    resource.put(
        "uri",
        json_str(project_event_resource_uri(project_id, record.sequence).as_str()),
    );
    resource.put("total_bytes", json_number(total_bytes));
    let mut fields = JsonObject::new();
    fields.put("sequence", json_u64(record.sequence));
    fields.put("event", event.into_map());
    fields.put("resource", resource.into_map());
    fields.into_map()
}

pub open spec fn event_entries(project: Seq<char>, events: Seq<ProjectEventRecord>) -> Json {
    Json::Array(Seq::new(events.len(), |i: int| event_entry(project, events[i])))
}

pub open spec fn optional_count_json(count: Option<u64>) -> Json {
    match count {
        Some(count) => json_count(count as nat),
        None => Json::Null,
    }
}

fn optional_count_value(count: Option<u64>) -> (json: JsonValue)
    ensures
        json@ == optional_count_json(count),
{
    match count {
        Some(count) => json_u64(count),
        None => JsonValue::Null,
    }
}

/// A page of a project's events.
pub open spec fn events_page(project: Seq<char>, snapshot: ProjectEventSnapshot) -> Json {
    let next_uri = if snapshot.truncated {
        Json::Text(events_since_uri(project, snapshot.next_sequence as nat))
    } else {
        Json::Null
    };
    Json::Object(
        by_key(
            no_fields().push(("project_id"@, Json::Text(project))).push(
                ("next_cursor"@, json_count(snapshot.next_sequence as nat)),
            ).push(("next_uri"@, next_uri)).push(
                ("resync_required"@, Json::Bool(snapshot.resync_required)),
            ).push(("truncated"@, Json::Bool(snapshot.truncated))).push(
                ("retention_floor"@, json_count(snapshot.retention_floor as nat)),
            ).push(("returned_events"@, json_count(snapshot.events@.len()))).push(
                ("first_sequence"@, optional_count_json(snapshot.first_sequence)),
            ).push(("last_sequence"@, optional_count_json(snapshot.last_sequence))).push(
                ("events"@, event_entries(project, snapshot.events@)),
            ),
        ),
    )
}

pub fn project_events_json(project_id: &ProjectId, snapshot: &ProjectEventSnapshot) -> (json:
    JsonValue)
    ensures
        json@ == events_page(project_id@, *snapshot),
{
    let next_uri = if snapshot.truncated {
        json_str(project_events_since_uri(project_id, snapshot.next_sequence).as_str())
    } else {
        JsonValue::Null
    };
    let mut events: Vec<JsonValue> = Vec::new();
    let mut i: usize = 0;
    while i < snapshot.events.len()
        invariant
            i <= snapshot.events@.len(),
            events@.len() == i,
            forall|j: int|
                0 <= j < i ==> (#[trigger] events@[j])@ == event_entry(
                    project_id@,
                    snapshot.events@[j],
                ),
        decreases snapshot.events@.len() - i,
    {
        events.push(project_event_json(project_id, &snapshot.events[i]));
        i = i + 1;
    }
    let events = json_array(events);
    assert(events@->Array_0 =~= event_entries(project_id@, snapshot.events@)->Array_0);
    let mut fields = JsonObject::new();
    fields.put("project_id", json_str(project_id.as_str()));
    fields.put("next_cursor", json_u64(snapshot.next_sequence));
    fields.put("next_uri", next_uri);
    fields.put("resync_required", JsonValue::Bool(snapshot.resync_required));
    fields.put("truncated", JsonValue::Bool(snapshot.truncated));
    fields.put("retention_floor", json_u64(snapshot.retention_floor));
    fields.put("returned_events", json_number(snapshot.events.len()));
    fields.put("first_sequence", optional_count_value(snapshot.first_sequence));
    fields.put("last_sequence", optional_count_value(snapshot.last_sequence));
    fields.put("events", events);
    fields.into_map()
}

/// An event keeps its place and its kind on an event page, however long its
/// body is.
pub proof fn law_event_entry_keeps_identity(project: Seq<char>, record: ProjectEventRecord)
    ensures
        member(event_entry(project, record), "sequence"@) == Some(
            json_count(record.sequence as nat),
        ),
        member(record.event@, "kind"@) matches Some(kind) ==> match member(
            event_entry(project, record),
            "event"@,
        ) {
            Some(event) => member(event, "kind"@) == Some(kind),
            None => false,
        },
{
    reveal_strlit("sequence");
    reveal_strlit("event");
    reveal_strlit("resource");
    assert("sequence"@[0] != "resource"@[0]);
    let bytes = json_len(record.event@);
    if bytes <= MAX_INLINE_PROJECT_EVENT_BYTES {
        let fields = no_fields().push(("sequence"@, json_count(record.sequence as nat))).push(
            ("event"@, record.event@),
        );
        law_by_key_lookup(fields, 0, "sequence"@);
        law_by_key_lookup(fields, 1, "event"@);
    } else {
        let kind = match member(record.event@, "kind"@) {
            Some(kind) => kind,
            None => Json::Null,
        };
        let resource = Json::Object(
            by_key(
                no_fields().push(
                    ("uri"@, Json::Text(event_uri(project, record.sequence as nat))),
                ).push(("total_bytes"@, json_count(bytes))),
            ),
        );
        let kinds = no_fields().push(("kind"@, kind));
        let fields = no_fields().push(("sequence"@, json_count(record.sequence as nat))).push(
            ("event"@, Json::Object(by_key(kinds))),
        ).push(("resource"@, resource));
        law_by_key_lookup(fields, 0, "sequence"@);
        law_by_key_lookup(fields, 1, "event"@);
        law_by_key_lookup(kinds, 0, "kind"@);
    }
}

/// The answer to the removal of a project.
pub fn project_removed_json(project_id: &ProjectId) -> (json: JsonValue)
    ensures
        json@ == Json::Object(
            by_key(
                no_fields().push(("project_id"@, Json::Text(project_id@))).push(
                    ("removed"@, Json::Bool(true)),
                ),
            ),
        ),
{
    let mut fields = JsonObject::new();
    fields.put("project_id", json_str(project_id.as_str()));
    fields.put("removed", JsonValue::Bool(true));
    fields.into_map()
}

/// The answer to a request for the capabilities of a project's servers.
pub fn project_lsp_capabilities_json(project_id: &ProjectId, servers: Vec<JsonValue>) -> (json:
    JsonValue)
    ensures
        json@ == Json::Object(
            by_key(
                no_fields().push(("project_id"@, Json::Text(project_id@))).push(
                    ("servers"@, Json::Array(json_models(servers@))),
                ),
            ),
        ),
{
    let mut fields = JsonObject::new();
    fields.put("project_id", json_str(project_id.as_str()));
    fields.put("servers", json_array(servers));
    fields.into_map()
}

/// Whether a value gives the path of a place, or null where there is none.
pub open spec fn gives_path(value: Option<Json>, path: Option<FilePath>) -> bool {
    value == Some(
        match path {
            Some(path) => Json::Text(path@),
            None => Json::Null,
        },
    )
}

/// Whether a value gives a text, or null where there is none.
pub open spec fn gives_text(value: Option<Json>, text: Option<String>) -> bool {
    value == Some(
        match text {
            Some(text) => Json::Text(text@),
            None => Json::Null,
        },
    )
}

/// Whether a value tells why a project is dormant and for how long; it is null where
/// the project is not.
pub open spec fn tells_dormancy(value: Option<Json>, dormancy: Option<Dormancy>) -> bool {
    match dormancy {
        None => value == Some(Json::Null),
        Some(dormancy) => value matches Some(shown) && {
            &&& member(shown, "reason"@) == Some(Json::Text(dormancy.reason@))
            &&& dormancy.idle_for_ms is None ==> member(shown, "idle_for_ms"@) == Some(Json::Null)
            &&& dormancy.idle_for_ms matches Some(millis) ==> {
                &&& millis <= u64::MAX ==> member(shown, "idle_for_ms"@) == Some(
                    json_count(millis as nat),
                )
                &&& millis > u64::MAX ==> member(shown, "idle_for_ms"@) == Some(
                    json_count(u64::MAX as nat),
                )
            }
        },
    }
}

proof fn lemma_tells_dormancy(dormancy: Option<Dormancy>)
    ensures
        tells_dormancy(Some(dormancy_json(dormancy)), dormancy),
{
    if let Some(given) = dormancy {
        reveal_strlit("reason");
        reveal_strlit("idle_for_ms");
        assert("reason"@.len() == 6);
        assert("idle_for_ms"@.len() == 11);
        lemma_last_pushed();
        lemma_filled_members(
            no_fields().push(("reason"@, Json::Text(given.reason@))).push(
                (
                    "idle_for_ms"@,
                    match given.idle_for_ms {
                        Some(millis) => json_count(shown_millis(millis)),
                        None => Json::Null,
                    },
                ),
            ),
        );
    }
}

/// Whether a value lists the groups of a project, each with its number and roots.
pub open spec fn lists_groups(value: Option<Json>, groups: Seq<ActorGroupState>) -> bool {
    value matches Some(Json::Array(shown)) && shown.len() == groups.len() && forall|i: int|
        0 <= i < groups.len() ==> {
            &&& member(#[trigger] shown[i], "group_id"@) == Some(
                json_count(groups[i].group_id as nat),
            )
            &&& lists_texts(member(shown[i], "roots"@), path_texts(groups[i].roots@))
        }
}

proof fn lemma_lists_groups(groups: Seq<ActorGroupState>)
    ensures
        lists_groups(Some(actor_groups_json(groups)), groups),
{
    reveal_strlit("group_id");
    reveal_strlit("roots");
    assert("group_id"@.len() == 8);
    assert("roots"@.len() == 5);
    lemma_last_pushed();
    let shown = actor_groups_json(groups)->Array_0;
    assert forall|i: int| 0 <= i < groups.len() implies {
        &&& member(#[trigger] shown[i], "group_id"@) == Some(json_count(groups[i].group_id as nat))
        &&& lists_texts(member(shown[i], "roots"@), path_texts(groups[i].roots@))
    } by {
        lemma_filled_members(
            no_fields().push(("group_id"@, json_count(groups[i].group_id as nat))).push(
                ("roots"@, json_texts(path_texts(groups[i].roots@))),
            ),
        );
        law_texts_stay_in_place(path_texts(groups[i].roots@));
    }
}

/// Whether a value tells the state of a project.
pub open spec fn tells_state(
    value: Json,
    identity: ProjectIdentity,
    state: ProjectState,
    groups: Seq<ActorGroupState>,
) -> bool {
    &&& member(value, "project_id"@) == Some(Json::Text(identity.id@))
    &&& member(value, "root"@) == Some(Json::Text(identity.root@))
    &&& lists_texts(member(value, "roots"@), path_texts(identity.roots@))
    &&& gives_path(member(value, "repository_root"@), identity.repository_root)
    &&& member(value, "status"@) == Some(Json::Text(status_name(state.status)))
    &&& gives_text(member(value, "last_error"@), state.last_error)
    &&& tells_dormancy(member(value, "dormancy"@), state.dormancy)
    &&& lists_texts(
        member(value, "configured_language_servers"@),
        texts(state.configured_language_servers@),
    )
    &&& lists_texts(
        member(value, "active_language_servers"@),
        texts(state.active_language_servers@),
    )
    &&& member(value, "open_document_count"@) == Some(json_count(state.open_document_count as nat))
    &&& member(value, "generation"@) == Some(json_count(state.generation as nat))
    &&& member(value, "actor_group_count"@) == Some(json_count(groups.len()))
    &&& lists_groups(member(value, "actor_groups"@), groups)
}

/// The state of a project is told field by field, with the features of its packages
/// where these are asked for.
#[verifier::rlimit(30)]
pub proof fn law_project_state_is_told(
    identity: ProjectIdentity,
    state: ProjectState,
    groups: Seq<ActorGroupState>,
    cargo_features: Json,
)
    ensures
        tells_state(
            Json::Object(by_key(state_fields(identity, state, groups))),
            identity,
            state,
            groups,
        ),
        tells_state(
            state_answer(identity, state, groups, cargo_features),
            identity,
            state,
            groups,
        ),
        member(state_answer(identity, state, groups, cargo_features), "cargo_features"@) == Some(
            cargo_features,
        ),
{
    reveal_strlit("project_id");
    reveal_strlit("root");
    reveal_strlit("roots");
    reveal_strlit("repository_root");
    reveal_strlit("status");
    reveal_strlit("last_error");
    reveal_strlit("dormancy");
    reveal_strlit("configured_language_servers");
    reveal_strlit("active_language_servers");
    reveal_strlit("open_document_count");
    reveal_strlit("generation");
    reveal_strlit("actor_group_count");
    reveal_strlit("actor_groups");
    reveal_strlit("cargo_features");
    assert("project_id"@.len() == 10);
    assert("root"@.len() == 4);
    assert("roots"@.len() == 5);
    assert("repository_root"@.len() == 15);
    assert("status"@.len() == 6);
    assert("last_error"@.len() == 10);
    assert("dormancy"@.len() == 8);
    assert("configured_language_servers"@.len() == 27);
    assert("active_language_servers"@.len() == 23);
    assert("open_document_count"@.len() == 19);
    assert("generation"@.len() == 10);
    assert("actor_group_count"@.len() == 17);
    assert("actor_groups"@.len() == 12);
    assert("cargo_features"@.len() == 14);
    assert("project_id"@[0] == 'p');
    assert("last_error"@[0] == 'l');
    assert("generation"@[0] == 'g');
    lemma_last_pushed();
    let fields = state_fields(identity, state, groups);
    lemma_filled_members(fields);
    lemma_filled_members(fields.push(("cargo_features"@, cargo_features)));
    law_texts_stay_in_place(path_texts(identity.roots@));
    law_texts_stay_in_place(texts(state.configured_language_servers@));
    law_texts_stay_in_place(texts(state.active_language_servers@));
    lemma_tells_dormancy(state.dormancy);
    lemma_lists_groups(groups);
}

/// A project is listed with its identifier, its roots and its repository.
pub proof fn law_project_is_listed(identity: ProjectIdentity)
    ensures
        ({
            let value = listed_project(identity);
            &&& member(value, "project_id"@) == Some(Json::Text(identity.id@))
            &&& member(value, "root"@) == Some(Json::Text(identity.root@))
            &&& lists_texts(member(value, "roots"@), path_texts(identity.roots@))
            &&& gives_path(member(value, "repository_root"@), identity.repository_root)
        }),
{
    reveal_strlit("project_id");
    reveal_strlit("root");
    reveal_strlit("roots");
    reveal_strlit("repository_root");
    assert("project_id"@.len() == 10);
    assert("root"@.len() == 4);
    assert("roots"@.len() == 5);
    assert("repository_root"@.len() == 15);
    lemma_last_pushed();
    lemma_filled_members(
        no_fields().push(("project_id"@, Json::Text(identity.id@))).push(
            ("root"@, Json::Text(identity.root@)),
        ).push(("roots"@, json_texts(path_texts(identity.roots@)))).push(
            ("repository_root"@, json_optional_text(optional_path(identity.repository_root))),
        ),
    );
    law_texts_stay_in_place(path_texts(identity.roots@));
}

/// Whether a value counts the projects by their status.
pub open spec fn counts_projects(value: Json, counts: ProjectStatusCounts) -> bool {
    &&& member(value, "starting"@) == Some(json_count(counts.starting as nat))
    &&& member(value, "ready"@) == Some(json_count(counts.ready as nat))
    &&& member(value, "degraded"@) == Some(json_count(counts.degraded as nat))
    &&& member(value, "restarting"@) == Some(json_count(counts.restarting as nat))
    &&& member(value, "dormant"@) == Some(json_count(counts.dormant as nat))
    &&& member(value, "stopping"@) == Some(json_count(counts.stopping as nat))
    &&& member(value, "stopped"@) == Some(json_count(counts.stopped as nat))
    &&& member(value, "failed"@) == Some(json_count(counts.failed as nat))
}

/// Projects are counted by their status, each count under its name.
pub proof fn law_projects_are_counted(counts: ProjectStatusCounts)
    ensures
        counts_projects(status_counts(counts), counts),
{
    reveal_strlit("starting");
    reveal_strlit("ready");
    reveal_strlit("degraded");
    reveal_strlit("restarting");
    reveal_strlit("dormant");
    reveal_strlit("stopping");
    reveal_strlit("stopped");
    reveal_strlit("failed");
    assert("starting"@.len() == 8);
    assert("ready"@.len() == 5);
    assert("degraded"@.len() == 8);
    assert("restarting"@.len() == 10);
    assert("dormant"@.len() == 7);
    assert("stopping"@.len() == 8);
    assert("stopped"@.len() == 7);
    assert("failed"@.len() == 6);
    assert("starting"@[2] == 'a');
    assert("degraded"@[2] == 'g');
    assert("stopping"@[2] == 'o');
    assert("dormant"@[0] == 'd');
    assert("stopped"@[0] == 's');
    lemma_last_pushed();
    lemma_filled_members(
        no_fields().push(("starting"@, json_count(counts.starting as nat))).push(
            ("ready"@, json_count(counts.ready as nat)),
        ).push(("degraded"@, json_count(counts.degraded as nat))).push(
            ("restarting"@, json_count(counts.restarting as nat)),
        ).push(("dormant"@, json_count(counts.dormant as nat))).push(
            ("stopping"@, json_count(counts.stopping as nat)),
        ).push(("stopped"@, json_count(counts.stopped as nat))).push(
            ("failed"@, json_count(counts.failed as nat)),
        ),
    );
}

/// Whether a value sums projects up, each with its status, groups and roots.
pub open spec fn sums_projects_up(value: Option<Json>, summaries: Seq<ProjectStatusSummary>) -> bool {
    value matches Some(Json::Array(shown)) && shown.len() == summaries.len() && forall|i: int|
        0 <= i < summaries.len() ==> {
            let summary = summaries[i];
            &&& member(#[trigger] shown[i], "project_id"@) == Some(Json::Text(summary.project_id@))
            &&& member(shown[i], "status"@) == Some(Json::Text(status_name(summary.status)))
            &&& member(shown[i], "actor_group_count"@) == Some(
                json_count(summary.actor_group_count as nat),
            )
            &&& lists_texts(member(shown[i], "roots"@), path_texts(summary.roots@))
        }
}

/// Projects are summed up in order, one by one.
pub proof fn law_projects_are_summed_up(summaries: Seq<ProjectStatusSummary>)
    ensures
        sums_projects_up(Some(status_summaries(summaries)), summaries),
{
    reveal_strlit("project_id");
    reveal_strlit("status");
    reveal_strlit("actor_group_count");
    reveal_strlit("roots");
    assert("project_id"@.len() == 10);
    assert("status"@.len() == 6);
    assert("actor_group_count"@.len() == 17);
    assert("roots"@.len() == 5);
    lemma_last_pushed();
    let shown = status_summaries(summaries)->Array_0;
    assert forall|i: int| 0 <= i < summaries.len() implies {
        let summary = summaries[i];
        &&& member(#[trigger] shown[i], "project_id"@) == Some(Json::Text(summary.project_id@))
        &&& member(shown[i], "status"@) == Some(Json::Text(status_name(summary.status)))
        &&& member(shown[i], "actor_group_count"@) == Some(
            json_count(summary.actor_group_count as nat),
        )
        &&& lists_texts(member(shown[i], "roots"@), path_texts(summary.roots@))
    } by {
        let summary = summaries[i];
        lemma_filled_members(
            no_fields().push(("project_id"@, Json::Text(summary.project_id@))).push(
                ("status"@, Json::Text(status_name(summary.status))),
            ).push(("actor_group_count"@, json_count(summary.actor_group_count as nat))).push(
                ("roots"@, json_texts(path_texts(summary.roots@))),
            ),
        );
        law_texts_stay_in_place(path_texts(summary.roots@));
    }
}

/// The daemon fails where a project has failed. Else it is degraded where its state
/// could not be saved or a project is degraded, restarting or stopping. Else it is
/// healthy, however many projects start, wait or have stopped.
pub proof fn law_health_follows_the_projects(snapshot: DaemonSnapshot)
    ensures
        health_of(snapshot) == DaemonHealth::Failed <==> snapshot.project_counts.failed > 0,
        health_of(snapshot) == DaemonHealth::Healthy <==> {
            &&& snapshot.project_counts.failed == 0
            &&& snapshot.project_counts.degraded == 0
            &&& snapshot.project_counts.restarting == 0
            &&& snapshot.project_counts.stopping == 0
            &&& snapshot.persistence.last_error is None
        },
        health_name(DaemonHealth::Healthy) == "healthy"@,
        health_name(DaemonHealth::Degraded) == "degraded"@,
        health_name(DaemonHealth::Failed) == "failed"@,
{
}

/// Whether a value tells the state of the daemon.
pub open spec fn tells_daemon(value: Json, snapshot: DaemonSnapshot) -> bool {
    &&& snapshot.shutting_down ==> member(value, "lifecycle"@) == Some(Json::Text("shutting_down"@))
    &&& !snapshot.shutting_down ==> member(value, "lifecycle"@) == Some(Json::Text("running"@))
    &&& member(value, "persistence"@) matches Some(persistence) && {
        &&& member(persistence, "configured"@) == Some(Json::Bool(snapshot.persistence.configured))
        &&& gives_text(member(persistence, "last_error"@), snapshot.persistence.last_error)
    }
    &&& member(value, "transport"@) == Some(snapshot.transport@)
    &&& member(value, "session_count"@) == Some(json_count(snapshot.session_count as nat))
    &&& member(value, "queue_pressure"@) matches Some(pressure) && {
        &&& member(pressure, "queued"@) == Some(json_count(snapshot.queue_pressure.queued as nat))
        &&& member(pressure, "capacity"@) == Some(
            json_count(snapshot.queue_pressure.capacity as nat),
        )
    }
    &&& member(value, "projects"@) matches Some(counts) && counts_projects(
        counts,
        snapshot.project_counts,
    )
    &&& member(value, "actor_groups"@) == Some(json_count(snapshot.actor_groups as nat))
    &&& sums_projects_up(member(value, "project_summaries"@), snapshot.project_summaries@)
}

/// The state of the daemon is told field by field, whatever is told before it under
/// other names.
#[verifier::rlimit(30)]
pub proof fn law_daemon_is_told(
    fields: Seq<(Seq<char>, Json)>,
    snapshot: DaemonSnapshot,
    key: Seq<char>,
)
    ensures
        tells_daemon(Json::Object(by_key(daemon_fields(fields, snapshot))), snapshot),
        key == "status"@ || key == "version"@ || key == "uptime_seconds"@ ==> member(
            Json::Object(by_key(daemon_fields(fields, snapshot))),
            key,
        ) == last_under(fields, key),
{
    reveal_strlit("lifecycle");
    reveal_strlit("persistence");
    reveal_strlit("transport");
    reveal_strlit("session_count");
    reveal_strlit("queue_pressure");
    reveal_strlit("projects");
    reveal_strlit("actor_groups");
    reveal_strlit("project_summaries");
    reveal_strlit("configured");
    reveal_strlit("last_error");
    reveal_strlit("queued");
    reveal_strlit("capacity");
    reveal_strlit("status");
    reveal_strlit("version");
    reveal_strlit("uptime_seconds");
    assert("lifecycle"@.len() == 9);
    assert("persistence"@.len() == 11);
    assert("transport"@.len() == 9);
    assert("session_count"@.len() == 13);
    assert("queue_pressure"@.len() == 14);
    assert("projects"@.len() == 8);
    assert("actor_groups"@.len() == 12);
    assert("project_summaries"@.len() == 17);
    assert("configured"@.len() == 10);
    assert("last_error"@.len() == 10);
    assert("queued"@.len() == 6);
    assert("capacity"@.len() == 8);
    assert("status"@.len() == 6);
    assert("version"@.len() == 7);
    assert("uptime_seconds"@.len() == 14);
    assert("lifecycle"@[0] == 'l');
    assert("transport"@[0] == 't');
    assert("queue_pressure"@[0] == 'q');
    assert("uptime_seconds"@[0] == 'u');
    assert("projects"@[0] == 'p');
    assert("capacity"@[0] == 'c');
    assert("configured"@[0] == 'c');
    assert("last_error"@[0] == 'l');
    assert("queued"@[0] == 'q');
    assert("status"@[0] == 's');
    lemma_last_pushed();
    lemma_filled_members(daemon_fields(fields, snapshot));
    lemma_filled_members(
        no_fields().push(("configured"@, Json::Bool(snapshot.persistence.configured))).push(
            ("last_error"@, json_optional_text(optional_text(snapshot.persistence.last_error))),
        ),
    );
    lemma_filled_members(
        no_fields().push(("queued"@, json_count(snapshot.queue_pressure.queued as nat))).push(
            ("capacity"@, json_count(snapshot.queue_pressure.capacity as nat)),
        ),
    );
    law_projects_are_counted(snapshot.project_counts);
    law_projects_are_summed_up(snapshot.project_summaries@);
}

/// An event is shown whole where it takes at most a hundred and twenty-eight bytes.
/// A longer one is shown by its kind, with its size and a reference to the whole.
pub proof fn law_long_event_is_linked(project: Seq<char>, record: ProjectEventRecord)
    ensures
        ({
            let shown = event_entry(project, record);
            &&& json_len(record.event@) <= 128 ==> {
                &&& member(shown, "event"@) == Some(record.event@)
                &&& member(shown, "resource"@) is None
                &&& shown == record_json(record)
            }
            &&& json_len(record.event@) > 128 ==> {
                &&& member(shown, "event"@) matches Some(event) && member(event, "kind"@) == Some(
                    match member(record.event@, "kind"@) {
                        Some(kind) => kind,
                        None => Json::Null,
                    },
                )
                &&& member(shown, "resource"@) matches Some(resource) && {
                    &&& member(resource, "uri"@) == Some(
                        Json::Text(event_uri(project, record.sequence as nat)),
                    )
                    &&& member(resource, "total_bytes"@) == Some(json_count(json_len(record.event@)))
                }
            }
        }),
        member(record_json(record), "sequence"@) == Some(json_count(record.sequence as nat)),
        member(record_json(record), "event"@) == Some(record.event@),
{
    reveal_strlit("sequence");
    reveal_strlit("event");
    reveal_strlit("resource");
    reveal_strlit("kind");
    reveal_strlit("uri");
    reveal_strlit("total_bytes");
    assert("sequence"@.len() == 8);
    assert("event"@.len() == 5);
    assert("resource"@.len() == 8);
    assert("kind"@.len() == 4);
    assert("uri"@.len() == 3);
    assert("total_bytes"@.len() == 11);
    assert("sequence"@[0] == 's');
    assert("resource"@[0] == 'r');
    lemma_last_pushed();
    lemma_filled_members(
        no_fields().push(("sequence"@, json_count(record.sequence as nat))).push(
            ("event"@, record.event@),
        ),
    );
    let kind = match member(record.event@, "kind"@) {
        Some(kind) => kind,
        None => Json::Null,
    };
    let bytes = json_len(record.event@);
    let link = no_fields().push(
        ("uri"@, Json::Text(event_uri(project, record.sequence as nat))),
    ).push(("total_bytes"@, json_count(bytes)));
    let event = no_fields().push(("kind"@, kind));
    lemma_filled_members(link);
    lemma_filled_members(event);
    lemma_filled_members(
        no_fields().push(("sequence"@, json_count(record.sequence as nat))).push(
            ("event"@, Json::Object(by_key(event))),
        ).push(("resource"@, Json::Object(by_key(link)))),
    );
}

/// A page of events shows its events in order, counts them, and says where to go on:
/// from the next number, and by a reference exactly where there is more.
#[verifier::rlimit(30)]
pub proof fn law_events_page_leads_on(project: Seq<char>, snapshot: ProjectEventSnapshot)
    ensures
        ({
            let page = events_page(project, snapshot);
            &&& member(page, "project_id"@) == Some(Json::Text(project))
            &&& member(page, "next_cursor"@) == Some(json_count(snapshot.next_sequence as nat))
            &&& snapshot.truncated ==> member(page, "next_uri"@) == Some(
                Json::Text(events_since_uri(project, snapshot.next_sequence as nat)),
            )
            &&& !snapshot.truncated ==> member(page, "next_uri"@) == Some(Json::Null)
            &&& member(page, "resync_required"@) == Some(Json::Bool(snapshot.resync_required))
            &&& member(page, "truncated"@) == Some(Json::Bool(snapshot.truncated))
            &&& member(page, "retention_floor"@) == Some(
                json_count(snapshot.retention_floor as nat),
            )
            &&& member(page, "returned_events"@) == Some(json_count(snapshot.events@.len()))
            &&& member(page, "first_sequence"@) == Some(
                match snapshot.first_sequence {
                    Some(sequence) => json_count(sequence as nat),
                    None => Json::Null,
                },
            )
            &&& member(page, "last_sequence"@) == Some(
                match snapshot.last_sequence {
                    Some(sequence) => json_count(sequence as nat),
                    None => Json::Null,
                },
            )
            &&& member(page, "events"@) matches Some(Json::Array(shown)) && shown.len()
                == snapshot.events@.len() && forall|i: int|
                0 <= i < shown.len() ==> #[trigger] shown[i] == event_entry(
                    project,
                    snapshot.events@[i],
                )
        }),
{
    reveal_strlit("project_id");
    reveal_strlit("next_cursor");
    reveal_strlit("next_uri");
    reveal_strlit("resync_required");
    reveal_strlit("truncated");
    reveal_strlit("retention_floor");
    reveal_strlit("returned_events");
    reveal_strlit("first_sequence");
    reveal_strlit("last_sequence");
    reveal_strlit("events");
    assert("project_id"@.len() == 10);
    assert("next_cursor"@.len() == 11);
    assert("next_uri"@.len() == 8);
    assert("resync_required"@.len() == 15);
    assert("truncated"@.len() == 9);
    assert("retention_floor"@.len() == 15);
    assert("returned_events"@.len() == 15);
    assert("first_sequence"@.len() == 14);
    assert("last_sequence"@.len() == 13);
    assert("events"@.len() == 6);
    assert("resync_required"@[3] == 'y');
    assert("retention_floor"@[3] == 'e');
    assert("returned_events"@[3] == 'u');
    lemma_last_pushed();
    let next_uri = if snapshot.truncated {
        Json::Text(events_since_uri(project, snapshot.next_sequence as nat))
    } else {
        Json::Null
    };
    lemma_filled_members(
        no_fields().push(("project_id"@, Json::Text(project))).push(
            ("next_cursor"@, json_count(snapshot.next_sequence as nat)),
        ).push(("next_uri"@, next_uri)).push(
            ("resync_required"@, Json::Bool(snapshot.resync_required)),
        ).push(("truncated"@, Json::Bool(snapshot.truncated))).push(
            ("retention_floor"@, json_count(snapshot.retention_floor as nat)),
        ).push(("returned_events"@, json_count(snapshot.events@.len()))).push(
            ("first_sequence"@, optional_count_json(snapshot.first_sequence)),
        ).push(("last_sequence"@, optional_count_json(snapshot.last_sequence))).push(
            ("events"@, event_entries(project, snapshot.events@)),
        ),
    );
}

} // verus!
