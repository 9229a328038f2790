//! Previews of edit plans as clients read them.

use crate::apply::{verification_name, VerificationStatus};
use crate::approval::{
    diff_files_json, diff_files_value, law_diff_files_are_listed, lists_diff_files, texts_of_paths,
    version_json, version_value, DiffFile,
};
use crate::decimal::decimal;
use crate::errors::{encode_json, encodes, internal_error, ErrorModel, McpError, StructuredOutput};
use crate::handlers::HandlerContext;
use crate::json::{
    by_key, json_array, json_count, json_len, json_number, json_str, json_strings, json_text,
    json_texts, keyed, last_under, law_by_key_lookup, law_texts_stay_in_place,
    lemma_filled_members, lemma_keyed_members, lemma_last_pushed, lists_texts, member, no_fields,
    rendered_len, Json, JsonObject, JsonValue,
};
use crate::pages::{
    deferred_reference_json, deferred_reference_value, gives_range, law_range_gives_both_ends,
    range_json, range_value, signed_json, MAX_SEMANTIC_RESOURCE_RESULT_BYTES,
};
use crate::paths::{components, distinct_paths, path_texts, sort_distinct, FilePath};
use crate::project::PlanId;
use crate::session::{plan_uri, EDIT_DIFF_PREFIX};
use crate::sizes::{
    fields_cost, lemma_ascii_len, lemma_filled_object_len, lemma_push_cost, lemma_value_sizes,
};
use crate::text::{byte_len, concat3, same_text, texts};
use crate::tools::{DeferredResourceReference, Range};
use vstd::prelude::*;
use vstd::string::*;

verus! {

/// Where the contents of a file were taken from.
#[derive(Clone, Copy, Debug, PartialEq, Eq, Structural)]
pub enum SnapshotSource {
    Disk,
    OpenDocument,
}

pub open spec fn source_name(source: SnapshotSource) -> Seq<char> {
    match source {
        SnapshotSource::Disk => "disk"@,
        SnapshotSource::OpenDocument => "open_document"@,
    }
}

impl SnapshotSource {
    pub fn as_str(&self) -> (name: &'static str)
        ensures
            name@ == source_name(*self),
    {
        match self {
            SnapshotSource::Disk => "disk",
            SnapshotSource::OpenDocument => "open_document",
        }
    }
}

/// What a file must still be for a plan to apply.
#[derive(Debug, PartialEq, Eq)]
pub struct FileSnapshot {
    pub path: FilePath,
    pub source: SnapshotSource,
    pub version: Option<i32>,
    pub content_hash: String,
}

/// A stored edit plan.
#[derive(Debug, PartialEq, Eq)]
pub struct EditPlan {
    pub id: PlanId,
    pub files: Vec<FileSnapshot>,
    pub diff_files: Vec<DiffFile>,
    pub unified_diff: String,
    pub diff_truncated: bool,
    pub operations: Vec<String>,
    pub safe_to_apply: bool,
}

/// A previewed edit plan.
#[derive(Debug, PartialEq, Eq)]
pub struct PreviewArtifact {
    pub plan: EditPlan,
    pub affected_files: Vec<FilePath>,
    pub conflicts: Vec<String>,
    pub unsupported: Vec<String>,
    pub verification: Option<VerificationStatus>,
    /// The name of what produced the edit.
    pub producer: Option<String>,
}

pub open spec fn precondition_json(file: FileSnapshot) -> Json {
    Json::Object(
        by_key(
            no_fields().push(("path"@, Json::Text(file.path@))).push(
                ("source"@, Json::Text(source_name(file.source))),
            ).push(("version"@, version_json(file.version))).push(
                ("sha256"@, Json::Text(file.content_hash@)),
            ),
        ),
    )
}

pub open spec fn preconditions_json(files: Seq<FileSnapshot>) -> Json {
    Json::Array(Seq::new(files.len(), |i: int| precondition_json(files[i])))
}

fn preconditions_value(files: &Vec<FileSnapshot>) -> (json: JsonValue)
    ensures
        json@ == preconditions_json(files@),
{
    let mut values: Vec<JsonValue> = Vec::new();
    let mut i: usize = 0;
    while i < files.len()
        invariant
            i <= files@.len(),
            values@.len() == i,
            forall|j: int| 0 <= j < i ==> (#[trigger] values@[j])@ == precondition_json(files@[j]),
        decreases files@.len() - i,
    {
        let mut fields = JsonObject::new();
        fields.put("path", json_str(files[i].path.text.as_str()));
        fields.put("source", json_str(files[i].source.as_str()));
        fields.put("version", version_value(files[i].version));
        fields.put("sha256", json_str(files[i].content_hash.as_str()));
        values.push(fields.into_map());
        i = i + 1;
    }
    let json = json_array(values);
    assert(json@->Array_0 =~= preconditions_json(files@)->Array_0);
    json
}

/// The resource that holds the whole diff of a plan.
pub open spec fn diff_uri(project: Seq<char>, plan: Seq<char>) -> Seq<char> {
    EDIT_DIFF_PREFIX@ + project + "?plan_id="@ + plan + "&offset_bytes=0"@
}

/// What a preview tells of a plan; a truncated diff is linked.
pub open spec fn artifact_fields(artifact: PreviewArtifact, project: Seq<char>) -> Seq<
    (Seq<char>, Json),
> {
    let plan = artifact.plan;
    let fields = no_fields().push(("project_id"@, Json::Text(project))).push(
        ("plan_id"@, Json::Text(plan.id@)),
    ).push(("unified_diff"@, Json::Text(plan.unified_diff@))).push(
        ("diff_files"@, diff_files_json(plan.diff_files@)),
    ).push(("diff_truncated"@, Json::Bool(plan.diff_truncated))).push(
        ("affected_files"@, json_texts(path_texts(artifact.affected_files@))),
    ).push(("operations"@, json_texts(texts(plan.operations@)))).push(
        ("preconditions"@, preconditions_json(plan.files@)),
    ).push(("conflicts"@, json_texts(texts(artifact.conflicts@)))).push(
        ("unsupported"@, json_texts(texts(artifact.unsupported@))),
    ).push(("safe_to_apply"@, Json::Bool(plan.safe_to_apply)));
    let fields = with_origin(fields, artifact);
    if plan.diff_truncated {
        let resource = Json::Object(
            by_key(
                no_fields().push(("uri"@, Json::Text(diff_uri(project, plan.id@)))).push(
                    ("mime_type"@, Json::Text("text/x-diff"@)),
                ),
            ),
        );
        fields.push(("diff_resource"@, resource))
    } else {
        fields
    }
}

/// The fields with how an edit was verified and what produced it, if known.
pub open spec fn with_origin(
    fields: Seq<(Seq<char>, Json)>,
    artifact: PreviewArtifact,
) -> Seq<(Seq<char>, Json)> {
    let fields = match artifact.verification {
        Some(status) => fields.push(("verification"@, Json::Text(verification_name(status)))),
        None => fields,
    };
    match artifact.producer {
        Some(producer) => fields.push(("producer"@, Json::Text(producer@))),
        None => fields,
    }
}

pub open spec fn artifact_json(artifact: PreviewArtifact, project: Seq<char>) -> Json {
    Json::Object(by_key(artifact_fields(artifact, project)))
}

fn put_origin(fields: &mut JsonObject, artifact: &PreviewArtifact)
    ensures
        final(fields)@ == with_origin(old(fields)@, *artifact),
{
    if let Some(status) = artifact.verification {
        fields.put("verification", json_str(status.as_str()));
    }
    if let Some(producer) = &artifact.producer {
        fields.put("producer", json_str(producer.as_str()));
    }
}

fn put_artifact(fields: &mut JsonObject, artifact: &PreviewArtifact, project_id: &str)
    requires
        old(fields)@ == no_fields(),
    ensures
        final(fields)@ == artifact_fields(*artifact, project_id@),
{
    let plan = &artifact.plan;
    fields.put("project_id", json_str(project_id));
    fields.put("plan_id", json_str(plan.id.as_str()));
    fields.put("unified_diff", json_str(plan.unified_diff.as_str()));
    fields.put("diff_files", diff_files_value(&plan.diff_files));
    fields.put("diff_truncated", JsonValue::Bool(plan.diff_truncated));
    fields.put("affected_files", json_strings(&texts_of_paths(&artifact.affected_files)));
    fields.put("operations", json_strings(&plan.operations));
    fields.put("preconditions", preconditions_value(&plan.files));
    fields.put("conflicts", json_strings(&artifact.conflicts));
    fields.put("unsupported", json_strings(&artifact.unsupported));
    fields.put("safe_to_apply", JsonValue::Bool(plan.safe_to_apply));
    put_origin(fields, artifact);
    if plan.diff_truncated {
        let head = concat3(EDIT_DIFF_PREFIX, project_id, "?plan_id=");
        let uri = concat3(head.as_str(), plan.id.as_str(), "&offset_bytes=0");
        let mut resource = JsonObject::new();
        resource.put("uri", json_str(uri.as_str()));
        resource.put("mime_type", json_str("text/x-diff"));
        fields.put("diff_resource", resource.into_map());
    }
}

/// A previewed plan as a client reads it.
pub fn preview_artifact_json(result: &PreviewArtifact, project_id: &str) -> (json: JsonValue)
    ensures
        json@ == artifact_json(*result, project_id@),
{
    let mut fields = JsonObject::new();
    put_artifact(&mut fields, result, project_id);
    fields.into_map()
}

/// The link to a truncated diff is the URI under which the session reads the
/// first page of that diff.
pub proof fn law_diff_link_is_readable(project: Seq<char>, plan: Seq<char>)
    ensures
        diff_uri(project, plan) == plan_uri(EDIT_DIFF_PREFIX@, project, plan, 0),
{
    reveal_strlit("&offset_bytes=0");
    reveal_strlit("&offset_bytes=");
    assert(decimal(0) =~= seq!['0']);
    assert("&offset_bytes=0"@ =~= "&offset_bytes="@ + seq!['0']);
    assert(diff_uri(project, plan) =~= plan_uri(EDIT_DIFF_PREFIX@, project, plan, 0));
}

/// The answer to a preview: the plan belongs to the session from then on.
pub fn preview_answer(
    context: &mut HandlerContext,
    artifact: &PreviewArtifact,
    project_id: &str,
) -> (output: StructuredOutput)
    requires
        old(context)@.wf(),
    ensures
        encodes(output, artifact_json(*artifact, project_id@)),
        final(context)@ == old(context)@.with_plans(
            old(context)@.plans.remembering(artifact.plan.id@),
        ),
        final(context)@.wf(),
{
    context.remember_plan(artifact.plan.id.clone());
    encode_json(preview_artifact_json(artifact, project_id))
}

pub open spec fn unchanged_json(project: Seq<char>, supported: bool) -> Json {
    Json::Object(
        by_key(
            no_fields().push(("project_id"@, Json::Text(project))).push(
                ("supported"@, Json::Bool(supported)),
            ).push(("changed"@, Json::Bool(false))),
        ),
    )
}

fn unchanged_value(project_id: &str, supported: bool) -> (json: JsonValue)
    ensures
        json@ == unchanged_json(project_id@, supported),
{
    let mut fields = JsonObject::new();
    fields.put("project_id", json_str(project_id));
    fields.put("supported", JsonValue::Bool(supported));
    fields.put("changed", JsonValue::Bool(false));
    fields.into_map()
}

/// The answer to a preview of a generated edit: a plan, or the word that
/// nothing changes.
pub fn generated_preview_answer(
    context: &mut HandlerContext,
    supported: bool,
    artifact: &Option<PreviewArtifact>,
    project_id: &str,
) -> (output: StructuredOutput)
    requires
        old(context)@.wf(),
    ensures
        final(context)@.wf(),
        match artifact {
            Some(artifact) => {
                &&& encodes(output, artifact_json(*artifact, project_id@))
                &&& final(context)@ == old(context)@.with_plans(
                    old(context)@.plans.remembering(artifact.plan.id@),
                )
            },
            None => {
                &&& encodes(output, unchanged_json(project_id@, supported))
                &&& final(context)@ == old(context)@
            },
        },
{
    match artifact {
        Some(artifact) => preview_answer(context, artifact, project_id),
        None => encode_json(unchanged_value(project_id, supported)),
    }
}

/// A previewed plan that also says whether the edit is supported.
pub open spec fn supported_artifact_json(
    artifact: PreviewArtifact,
    project: Seq<char>,
    supported: bool,
) -> Json {
    Json::Object(
        by_key(
            artifact_fields(artifact, project).push(("supported"@, Json::Bool(supported))).push(
                ("changed"@, Json::Bool(true)),
            ),
        ),
    )
}

/// The answer to a preview of an edit that a server may not support.
pub fn supported_preview_answer(
    context: &mut HandlerContext,
    supported: bool,
    artifact: &Option<PreviewArtifact>,
    project_id: &str,
) -> (output: StructuredOutput)
    requires
        old(context)@.wf(),
    ensures
        final(context)@.wf(),
        match artifact {
            Some(artifact) => {
                &&& encodes(output, supported_artifact_json(*artifact, project_id@, supported))
                &&& final(context)@ == old(context)@.with_plans(
                    old(context)@.plans.remembering(artifact.plan.id@),
                )
            },
            None => {
                &&& encodes(output, unchanged_json(project_id@, supported))
                &&& final(context)@ == old(context)@
            },
        },
{
    match artifact {
        Some(artifact) => {
            context.remember_plan(artifact.plan.id.clone());
            let mut fields = JsonObject::new();
            put_artifact(&mut fields, artifact, project_id);
            fields.put("supported", JsonValue::Bool(supported));
            fields.put("changed", JsonValue::Bool(true));
            encode_json(fields.into_map())
        },
        None => encode_json(unchanged_value(project_id, supported)),
    }
}

/// A previewed rename of a path.
#[derive(Debug, PartialEq, Eq)]
pub struct PathRenamePreview {
    pub artifact: PreviewArtifact,
    pub providers: Vec<String>,
    pub semantic_edit_count: usize,
}

pub open spec fn path_rename_json(result: PathRenamePreview, project: Seq<char>) -> Json {
    Json::Object(
        by_key(
            artifact_fields(result.artifact, project).push(
                ("semantic_providers"@, json_texts(texts(result.providers@))),
            ).push(
                ("semantic_provider_available"@, Json::Bool(result.providers@.len() > 0)),
            ).push(("semantic_edit_count"@, json_count(result.semantic_edit_count as nat))),
        ),
    )
}

/// A previewed rename of a path as a client reads it.
pub fn path_rename_preview_json(result: &PathRenamePreview, project_id: &str) -> (json: JsonValue)
    ensures
        json@ == path_rename_json(*result, project_id@),
{
    let mut fields = JsonObject::new();
    put_artifact(&mut fields, &result.artifact, project_id);
    fields.put("semantic_providers", json_strings(&result.providers));
    fields.put("semantic_provider_available", JsonValue::Bool(result.providers.len() > 0));
    fields.put("semantic_edit_count", json_number(result.semantic_edit_count));
    fields.into_map()
}

/// The syntax of a structural query.
#[derive(Clone, Copy, Debug, PartialEq, Eq, Structural)]
pub enum StructuralDialect {
    RustAnalyzerSsr,
    AstGrep,
}

pub open spec fn dialect_name(dialect: StructuralDialect) -> Seq<char> {
    match dialect {
        StructuralDialect::RustAnalyzerSsr => "rust_analyzer_ssr"@,
        StructuralDialect::AstGrep => "ast_grep"@,
    }
}

pub open spec fn engine_name(dialect: StructuralDialect) -> Seq<char> {
    match dialect {
        StructuralDialect::RustAnalyzerSsr => "rust_analyzer"@,
        StructuralDialect::AstGrep => "ast_grep"@,
    }
}

/// How far a match can be trusted.
pub open spec fn confidence_name(dialect: StructuralDialect) -> Seq<char> {
    match dialect {
        StructuralDialect::RustAnalyzerSsr => "semantic"@,
        StructuralDialect::AstGrep => "structural"@,
    }
}

impl StructuralDialect {
    pub fn as_str(&self) -> (name: &'static str)
        ensures
            name@ == dialect_name(*self),
    {
        match self {
            StructuralDialect::RustAnalyzerSsr => "rust_analyzer_ssr",
            StructuralDialect::AstGrep => "ast_grep",
        }
    }

    pub fn engine(&self) -> (name: &'static str)
        ensures
            name@ == engine_name(*self),
    {
        match self {
            StructuralDialect::RustAnalyzerSsr => "rust_analyzer",
            StructuralDialect::AstGrep => "ast_grep",
        }
    }

    pub fn confidence(&self) -> (name: &'static str)
        ensures
            name@ == confidence_name(*self),
    {
        match self {
            StructuralDialect::RustAnalyzerSsr => "semantic",
            StructuralDialect::AstGrep => "structural",
        }
    }
}

pub open spec fn unsupported_dialect(value: Seq<char>) -> ErrorModel {
    crate::errors::invalid_params(
        "unsupported structural dialect: "@ + value
            + "; expected rust_analyzer_ssr or ast_grep"@,
    )
}

/// Reads a dialect out of a request.
pub fn parse_structural_dialect(value: &str) -> (dialect: Result<StructuralDialect, McpError>)
    ensures
        match dialect {
            Ok(dialect) => value@ == dialect_name(dialect),
            Err(error) => {
                &&& forall|dialect: StructuralDialect| value@ != #[trigger] dialect_name(dialect)
                &&& error@ == unsupported_dialect(value@)
            },
        },
{
    if same_text(value, "rust_analyzer_ssr") {
        return Ok(StructuralDialect::RustAnalyzerSsr);
    }
    if same_text(value, "ast_grep") {
        return Ok(StructuralDialect::AstGrep);
    }
    let message = concat3(
        "unsupported structural dialect: ",
        value,
        "; expected rust_analyzer_ssr or ast_grep",
    );
    Err(McpError::invalid_params(message.as_str()))
}

/// One structural match.
#[derive(Debug, PartialEq, Eq)]
pub struct StructuralMatch {
    pub path: FilePath,
    pub range: Range,
}

/// A file with structural matches, and the resource that holds its text.
#[derive(Debug, PartialEq, Eq)]
pub struct StructuralMatchedFile {
    pub path: FilePath,
    pub content_hash: String,
    pub document_version: Option<i32>,
    pub total_bytes: usize,
    pub source_uri: Result<String, String>,
}

/// A structural search, or the preview of a structural replacement.
#[derive(Debug, PartialEq, Eq)]
pub struct StructuralPreview {
    pub dialect: StructuralDialect,
    pub parse_only: bool,
    pub matches: Vec<StructuralMatch>,
    pub matched_files: Vec<StructuralMatchedFile>,
    pub artifact: Option<PreviewArtifact>,
}

pub open spec fn match_paths(matches: Seq<StructuralMatch>) -> Seq<Seq<char>> {
    Seq::new(matches.len(), |i: int| matches[i].path@)
}

pub open spec fn match_json(matched: StructuralMatch) -> Json {
    Json::Object(
        by_key(
            no_fields().push(("path"@, Json::Text(matched.path@))).push(
                ("range"@, keyed(range_json(matched.range))),
            ),
        ),
    )
}

pub open spec fn matches_json(matches: Seq<StructuralMatch>) -> Json {
    Json::Array(Seq::new(matches.len(), |i: int| match_json(matches[i])))
}

fn matches_value(matches: &Vec<StructuralMatch>) -> (json: JsonValue)
    ensures
        json@ == matches_json(matches@),
{
    let mut values: Vec<JsonValue> = Vec::new();
    let mut i: usize = 0;
    while i < matches.len()
        invariant
            i <= matches@.len(),
            values@.len() == i,
            forall|j: int| 0 <= j < i ==> (#[trigger] values@[j])@ == match_json(matches@[j]),
        decreases matches@.len() - i,
    {
        let mut fields = JsonObject::new();
        fields.put("path", json_str(matches[i].path.text.as_str()));
        fields.put("range", range_value(&matches[i].range).keyed());
        values.push(fields.into_map());
        i = i + 1;
    }
    let json = json_array(values);
    assert(json@->Array_0 =~= matches_json(matches@)->Array_0);
    json
}

fn paths_of_matches(matches: &Vec<StructuralMatch>) -> (paths: Vec<FilePath>)
    ensures
        path_texts(paths@) == match_paths(matches@),
{
    let mut paths: Vec<FilePath> = Vec::new();
    let mut i: usize = 0;
    while i < matches.len()
        invariant
            i <= matches@.len(),
            paths@.len() == i,
            forall|j: int| 0 <= j < i ==> (#[trigger] paths@[j])@ == matches@[j].path@,
        decreases matches@.len() - i,
    {
        paths.push(FilePath::new(matches[i].path.text.as_str()));
        i = i + 1;
    }
    assert(path_texts(paths@) =~= match_paths(matches@));
    paths
}

/// What a structural preview tells: the plan, if there is one, and the matches.
pub open spec fn structural_fields(result: StructuralPreview, project: Seq<char>) -> Seq<
    (Seq<char>, Json),
> {
    let files = distinct_paths(match_paths(result.matches@));
    let count = json_count(result.matches@.len());
    let fields = match result.artifact {
        Some(artifact) => artifact_fields(artifact, project),
        None => no_fields().push(("project_id"@, Json::Text(project))).push(
            ("safe_to_apply"@, Json::Bool(false)),
        ),
    };
    let fields = fields.push(("engine"@, Json::Text(engine_name(result.dialect)))).push(
        ("dialect"@, Json::Text(dialect_name(result.dialect))),
    ).push(("semantic_confidence"@, Json::Text(confidence_name(result.dialect)))).push(
        ("parse_only"@, Json::Bool(result.parse_only)),
    ).push(("match_count"@, count)).push(("returned_match_count"@, count)).push(
        ("remaining_match_count"@, json_count(0)),
    ).push(("matched_file_count"@, json_count(files.len()))).push(
        ("matched_files"@, json_texts(files)),
    ).push(("matches"@, matches_json(result.matches@)));
    if result.artifact is None {
        fields.push(("unsupported"@, json_texts(Seq::empty())))
    } else {
        fields
    }
}

pub open spec fn structural_json(result: StructuralPreview, project: Seq<char>) -> Json {
    Json::Object(by_key(structural_fields(result, project)))
}

/// A structural preview with all its matches.
pub fn structural_preview_json(result: &StructuralPreview, project_id: &str) -> (json: JsonValue)
    ensures
        json@ == structural_json(*result, project_id@),
{
    let matched_files = sort_distinct(&paths_of_matches(&result.matches));
    assert(path_texts(matched_files@).len() == matched_files@.len());
    let mut fields = JsonObject::new();
    match &result.artifact {
        Some(artifact) => put_artifact(&mut fields, artifact, project_id),
        None => {
            fields.put("project_id", json_str(project_id));
            fields.put("safe_to_apply", JsonValue::Bool(false));
        },
    }
    fields.put("engine", json_str(result.dialect.engine()));
    fields.put("dialect", json_str(result.dialect.as_str()));
    fields.put("semantic_confidence", json_str(result.dialect.confidence()));
    fields.put("parse_only", JsonValue::Bool(result.parse_only));
    fields.put("match_count", json_number(result.matches.len()));
    fields.put("returned_match_count", json_number(result.matches.len()));
    fields.put("remaining_match_count", json_number(0));
    fields.put("matched_file_count", json_number(matched_files.len()));
    fields.put("matched_files", json_strings(&texts_of_paths(&matched_files)));
    fields.put("matches", matches_value(&result.matches));
    if result.artifact.is_none() {
        let none: Vec<String> = Vec::new();
        assert(texts(none@) =~= Seq::empty());
        fields.put("unsupported", json_strings(&none));
    }
    fields.into_map()
}

/// The reference to the text of a matched file.
pub open spec fn source_reference(file: StructuralMatchedFile, uri: Seq<char>) -> Json {
    let fields = no_fields().push(("uri"@, Json::Text(uri))).push(
        ("kind"@, Json::Text("source_context"@)),
    ).push(("snapshot_hash"@, Json::Text(file.content_hash@)));
    let fields = match file.document_version {
        Some(version) => fields.push(("document_version"@, signed_json(version as int))),
        None => fields,
    };
    Json::Object(fields.push(("total_bytes"@, json_count(file.total_bytes as nat))))
}

/// The reference to the text of a matched file, if it has a URI.
pub fn structural_source_resource(file: &StructuralMatchedFile) -> (reference: Result<
    DeferredResourceReference,
    McpError,
>)
    ensures
        match file.source_uri {
            Ok(uri) => reference matches Ok(reference) && deferred_reference_json(reference)
                == source_reference(*file, uri@),
            Err(reason) => reference matches Err(error) && error@ == internal_error(reason@),
        },
{
    match &file.source_uri {
        Ok(uri) => Ok(
            DeferredResourceReference {
                uri: uri.clone(),
                kind: "source_context".to_owned(),
                snapshot_hash: file.content_hash.clone(),
                document_version: file.document_version,
                total_bytes: Some(file.total_bytes),
            },
        ),
        Err(reason) => Err(McpError::internal_error(reason.as_str())),
    }
}

/// A matched file in the inventory of matches.
pub open spec fn inventory_file(file: StructuralMatchedFile, index: int) -> Json {
    Json::Object(
        by_key(
            no_fields().push(("file"@, json_count(index as nat))).push(
                ("path"@, Json::Text(file.path@)),
            ).push(("snapshot_hash"@, Json::Text(file.content_hash@))).push(
                ("document_version"@, version_json(file.document_version)),
            ).push(
                ("source_resource"@, keyed(source_reference(file, file.source_uri->Ok_0@))),
            ),
        ),
    )
}

/// The first reason why a matched file has no resource.
pub open spec fn source_failure(files: Seq<StructuralMatchedFile>) -> Option<Seq<char>>
    decreases files.len(),
{
    if files.len() == 0 {
        None
    } else {
        match source_failure(files.drop_last()) {
            Some(reason) => Some(reason),
            None => match files.last().source_uri {
                Ok(_) => None,
                Err(reason) => Some(reason@),
            },
        }
    }
}

/// The last matched file with a path.
pub open spec fn file_index(files: Seq<StructuralMatchedFile>, path: Seq<char>) -> Option<int>
    decreases files.len(),
{
    if files.len() == 0 {
        None
    } else if components(files.last().path@) == components(path) {
        Some(files.len() - 1)
    } else {
        file_index(files.drop_last(), path)
    }
}

/// A match in the inventory: its file and its four coordinates.
pub open spec fn inventory_match(matched: StructuralMatch, index: int) -> Json {
    let range = matched.range;
    Json::Object(
        by_key(
            no_fields().push(("file"@, json_count(index as nat))).push(
                (
                    "range"@,
                    Json::Array(
                        Seq::empty().push(json_count(range.start.line as nat)).push(
                            json_count(range.start.character as nat),
                        ).push(json_count(range.end.line as nat)).push(
                            json_count(range.end.character as nat),
                        ),
                    ),
                ),
            ),
        ),
    )
}

/// Whether every match lies in a matched file.
pub open spec fn matches_are_filed(result: StructuralPreview) -> bool {
    forall|i: int|
        0 <= i < result.matches@.len() ==> file_index(
            result.matched_files@,
            (#[trigger] result.matches@[i]).path@,
        ) is Some
}

/// The inventory of all matches and their files.
pub open spec fn inventory(result: StructuralPreview) -> Result<Json, ErrorModel> {
    let files = result.matched_files@;
    let matches = result.matches@;
    if source_failure(files) is Some {
        Err(internal_error(source_failure(files)->0))
    } else if !matches_are_filed(result) {
        Err(internal_error("structural match has no source snapshot"@))
    } else {
        Ok(
            Json::Object(
                by_key(
                    no_fields().push(("file_count"@, json_count(files.len()))).push(
                        ("match_count"@, json_count(matches.len())),
                    ).push(
                        (
                            "files"@,
                            Json::Array(
                                Seq::new(files.len(), |i: int| inventory_file(files[i], i)),
                            ),
                        ),
                    ).push(
                        (
                            "matches"@,
                            Json::Array(
                                Seq::new(
                                    matches.len(),
                                    |i: int|
                                        inventory_match(
                                            matches[i],
                                            file_index(files, matches[i].path@)->0,
                                        ),
                                ),
                            ),
                        ),
                    ),
                ),
            ),
        )
    }
}

fn find_file(files: &Vec<StructuralMatchedFile>, path: &FilePath) -> (index: Option<usize>)
    ensures
        file_index(files@, path@) == match index {
            Some(index) => Some(index as int),
            None => None,
        },
{
    let mut left: usize = files.len();
    assert(files@.take(left as int) =~= files@);
    while left > 0
        invariant
            left <= files@.len(),
            file_index(files@, path@) == file_index(files@.take(left as int), path@),
        decreases left,
    {
        let ghost head = files@.take(left as int);
        assert(head.drop_last() =~= files@.take(left - 1));
        assert(head.last() == files@[left - 1]);
        left = left - 1;
        if files[left].path.same_path(path) {
            return Some(left);
        }
    }
    None
}

fn inventory_files(files: &Vec<StructuralMatchedFile>) -> (values: Result<Vec<JsonValue>, McpError>)
    ensures
        match source_failure(files@) {
            Some(reason) => values matches Err(error) && error@ == internal_error(reason),
            None => values matches Ok(values) && values@.len() == files@.len() && forall|i: int|
                0 <= i < files@.len() ==> (#[trigger] values@[i])@ == inventory_file(files@[i], i),
        },
{
    let mut values: Vec<JsonValue> = Vec::new();
    let mut i: usize = 0;
    while i < files.len()
        invariant
            i <= files@.len(),
            values@.len() == i,
            source_failure(files@.take(i as int)) is None,
            forall|j: int|
                0 <= j < i ==> (#[trigger] values@[j])@ == inventory_file(files@[j], j),
        decreases files@.len() - i,
    {
        proof {
            let next = files@.take(i + 1);
            assert(next.drop_last() =~= files@.take(i as int));
            assert(next.last() == files@[i as int]);
        }
        let reference = match structural_source_resource(&files[i]) {
            Ok(reference) => reference,
            Err(error) => {
                proof {
                    lemma_first_failure(files@, i as int);
                }
                return Err(error);
            },
        };
        let mut fields = JsonObject::new();
        fields.put("file", json_number(i));
        fields.put("path", json_str(files[i].path.text.as_str()));
        fields.put("snapshot_hash", json_str(files[i].content_hash.as_str()));
        fields.put("document_version", version_value(files[i].document_version));
        fields.put("source_resource", deferred_reference_value(&reference).keyed());
        values.push(fields.into_map());
        i = i + 1;
    }
    assert(files@.take(i as int) =~= files@);
    Ok(values)
}

proof fn lemma_first_failure(files: Seq<StructuralMatchedFile>, at: int)
    requires
        0 <= at < files.len(),
        source_failure(files.take(at)) is None,
        files[at].source_uri is Err,
    ensures
        source_failure(files) == Some(files[at].source_uri->Err_0@),
    decreases files.len(),
{
    if at == files.len() - 1 {
        assert(files.drop_last() =~= files.take(at));
    } else {
        let head = files.drop_last();
        assert(head.take(at) =~= files.take(at));
        lemma_first_failure(head, at);
    }
}

fn inventory_matches(result: &StructuralPreview) -> (values: Option<Vec<JsonValue>>)
    ensures
        match values {
            Some(values) => matches_are_filed(*result) && values@.len() == result.matches@.len()
                && forall|i: int|
                0 <= i < values@.len() ==> (#[trigger] values@[i])@ == inventory_match(
                    result.matches@[i],
                    file_index(result.matched_files@, result.matches@[i].path@)->0,
                ),
            None => !matches_are_filed(*result),
        },
{
    let mut values: Vec<JsonValue> = Vec::new();
    let mut i: usize = 0;
    while i < result.matches.len()
        invariant
            i <= result.matches@.len(),
            values@.len() == i,
            forall|j: int|
                0 <= j < i ==> file_index(
                    result.matched_files@,
                    (#[trigger] result.matches@[j]).path@,
                ) is Some,
            forall|j: int|
                0 <= j < i ==> (#[trigger] values@[j])@ == inventory_match(
                    result.matches@[j],
                    file_index(result.matched_files@, result.matches@[j].path@)->0,
                ),
        decreases result.matches@.len() - i,
    {
        let matched = &result.matches[i];
        let index = match find_file(&result.matched_files, &matched.path) {
            Some(index) => index,
            None => {
                assert(!matches_are_filed(*result));
                return None;
            },
        };
        let mut range: Vec<JsonValue> = Vec::new();
        range.push(json_number(matched.range.start.line as usize));
        range.push(json_number(matched.range.start.character as usize));
        range.push(json_number(matched.range.end.line as usize));
        range.push(json_number(matched.range.end.character as usize));
        let mut fields = JsonObject::new();
        fields.put("file", json_number(index));
        let range = json_array(range);
        assert(range@->Array_0 =~= Seq::empty().push(
            json_count(matched.range.start.line as nat),
        ).push(json_count(matched.range.start.character as nat)).push(
            json_count(matched.range.end.line as nat),
        ).push(json_count(matched.range.end.character as nat)));
        fields.put("range", range);
        values.push(fields.into_map());
        i = i + 1;
    }
    Some(values)
}

/// The inventory of all matches and their files.
pub fn structural_match_inventory_json(result: &StructuralPreview) -> (json: Result<
    JsonValue,
    McpError,
>)
    ensures
        inventory(*result) == match json {
            Ok(json) => Ok::<Json, ErrorModel>(json@),
            Err(error) => Err::<Json, ErrorModel>(error@),
        },
{
    let files = match inventory_files(&result.matched_files) {
        Ok(files) => files,
        Err(error) => {
            return Err(error);
        },
    };
    let matches = match inventory_matches(result) {
        Some(matches) => matches,
        None => {
            return Err(McpError::internal_error("structural match has no source snapshot"));
        },
    };
    let mut fields = JsonObject::new();
    fields.put("file_count", json_number(files.len()));
    fields.put("match_count", json_number(matches.len()));
    let files = json_array(files);
    assert(files@->Array_0 =~= Seq::new(
        result.matched_files@.len(),
        |i: int| inventory_file(result.matched_files@[i], i),
    ));
    let matches = json_array(matches);
    assert(matches@->Array_0 =~= Seq::new(
        result.matches@.len(),
        |i: int|
            inventory_match(
                result.matches@[i],
                file_index(result.matched_files@, result.matches@[i].path@)->0,
            ),
    ));
    fields.put("files", files);
    fields.put("matches", matches);
    Ok(fields.into_map())
}

/// How a structural preview is answered: inline, or with what has to be stored
/// first.
#[derive(Debug, PartialEq, Eq)]
pub enum StructuralAnswer {
    /// The preview fits and is the answer.
    Inline(JsonValue),
    /// The preview is too long: store the inventory of matches, then the details
    /// of the plan, and answer with `compact_structural_preview_json`.
    Deferred { inventory: JsonValue, details: Option<JsonValue> },
}

/// Decides how a structural preview is answered.
pub fn bounded_structural_preview_json(project_id: &str, result: &StructuralPreview) -> (answer:
    Result<StructuralAnswer, McpError>)
    ensures
        if json_len(structural_json(*result, project_id@)) <= MAX_SEMANTIC_RESOURCE_RESULT_BYTES {
            answer matches Ok(StructuralAnswer::Inline(json)) && json@ == structural_json(
                *result,
                project_id@,
            )
        } else {
            match inventory(*result) {
                Ok(listed) => {
                    &&& answer matches Ok(StructuralAnswer::Deferred { inventory, details })
                    &&& inventory@ == listed
                    &&& match result.artifact {
                        Some(artifact) => details matches Some(details) && details@
                            == artifact_json(artifact, project_id@),
                        None => details is None,
                    }
                },
                Err(reason) => answer matches Err(error) && error@ == reason,
            }
        },
{
    let value = structural_preview_json(result, project_id);
    if rendered_len(&value) <= MAX_SEMANTIC_RESOURCE_RESULT_BYTES {
        return Ok(StructuralAnswer::Inline(value));
    }
    let inventory = match structural_match_inventory_json(result) {
        Ok(inventory) => inventory,
        Err(error) => {
            return Err(error);
        },
    };
    let details = match &result.artifact {
        Some(artifact) => Some(preview_artifact_json(artifact, project_id)),
        None => None,
    };
    Ok(StructuralAnswer::Deferred { inventory, details })
}

/// What a compact structural preview tells of its plan.
pub open spec fn compact_plan_fields(
    fields: Seq<(Seq<char>, Json)>,
    artifact: PreviewArtifact,
    details_resource: Json,
) -> Seq<(Seq<char>, Json)> {
    let plan = artifact.plan;
    with_origin(
        fields.push(("plan_id"@, Json::Text(plan.id@))).push(
            ("safe_to_apply"@, Json::Bool(plan.safe_to_apply)),
        ).push(("affected_file_count"@, json_count(artifact.affected_files@.len()))).push(
            ("operation_count"@, json_count(plan.operations@.len())),
        ).push(("precondition_count"@, json_count(plan.files@.len()))).push(
            ("diff_file_count"@, json_count(plan.diff_files@.len())),
        ).push(("conflict_count"@, json_count(artifact.conflicts@.len()))).push(
            ("unsupported_count"@, json_count(artifact.unsupported@.len())),
        ).push(("diff_truncated"@, Json::Bool(plan.diff_truncated))).push(
            ("plan_details_resource"@, details_resource),
        ),
        artifact,
    )
}

/// A structural preview whose matches and plan details are stored elsewhere.
pub open spec fn compact_fields(
    result: StructuralPreview,
    project: Seq<char>,
    matches_resource: Json,
    details_resource: Json,
) -> Seq<(Seq<char>, Json)> {
    let count = json_count(result.matches@.len());
    let fields = no_fields().push(("project_id"@, Json::Text(project))).push(
        ("engine"@, Json::Text(engine_name(result.dialect))),
    ).push(("dialect"@, Json::Text(dialect_name(result.dialect)))).push(
        ("semantic_confidence"@, Json::Text(confidence_name(result.dialect))),
    ).push(("parse_only"@, Json::Bool(result.parse_only))).push(("match_count"@, count)).push(
        ("returned_match_count"@, json_count(0)),
    ).push(("remaining_match_count"@, count)).push(
        ("matched_file_count"@, json_count(result.matched_files@.len())),
    ).push(("matched_files"@, json_texts(Seq::empty()))).push(
        ("matches"@, json_texts(Seq::empty())),
    ).push(("matches_resource"@, matches_resource)).push(("safe_to_apply"@, Json::Bool(false))).push(
        ("unsupported"@, json_texts(Seq::empty())),
    );
    match result.artifact {
        Some(artifact) => compact_plan_fields(fields, artifact, details_resource),
        None => fields,
    }
}

fn no_texts() -> (json: JsonValue)
    ensures
        json@ == json_texts(Seq::empty()),
{
    let none: Vec<String> = Vec::new();
    assert(texts(none@) =~= Seq::empty());
    json_strings(&none)
}

/// A structural preview whose matches and plan details were stored.
pub fn compact_structural_preview_json(
    project_id: &str,
    result: &StructuralPreview,
    matches_resource: &DeferredResourceReference,
    details_resource: &Option<DeferredResourceReference>,
) -> (json: JsonValue)
    requires
        result.artifact is Some ==> details_resource is Some,
    ensures
        json@ == Json::Object(
            by_key(
                compact_fields(
                    *result,
                    project_id@,
                    keyed(deferred_reference_json(*matches_resource)),
                    keyed(deferred_reference_json(details_resource->0)),
                ),
            ),
        ),
{
    let mut fields = JsonObject::new();
    fields.put("project_id", json_str(project_id));
    fields.put("engine", json_str(result.dialect.engine()));
    fields.put("dialect", json_str(result.dialect.as_str()));
    fields.put("semantic_confidence", json_str(result.dialect.confidence()));
    fields.put("parse_only", JsonValue::Bool(result.parse_only));
    fields.put("match_count", json_number(result.matches.len()));
    fields.put("returned_match_count", json_number(0));
    fields.put("remaining_match_count", json_number(result.matches.len()));
    fields.put("matched_file_count", json_number(result.matched_files.len()));
    fields.put("matched_files", no_texts());
    fields.put("matches", no_texts());
    fields.put("matches_resource", deferred_reference_value(matches_resource).keyed());
    fields.put("safe_to_apply", JsonValue::Bool(false));
    fields.put("unsupported", no_texts());
    if let (Some(artifact), Some(resource)) = (&result.artifact, details_resource) {
        let plan = &artifact.plan;
        fields.put("plan_id", json_str(plan.id.as_str()));
        fields.put("safe_to_apply", JsonValue::Bool(plan.safe_to_apply));
        fields.put("affected_file_count", json_number(artifact.affected_files.len()));
        fields.put("operation_count", json_number(plan.operations.len()));
        fields.put("precondition_count", json_number(plan.files.len()));
        fields.put("diff_file_count", json_number(plan.diff_files.len()));
        fields.put("conflict_count", json_number(artifact.conflicts.len()));
        fields.put("unsupported_count", json_number(artifact.unsupported.len()));
        fields.put("diff_truncated", JsonValue::Bool(plan.diff_truncated));
        fields.put("plan_details_resource", deferred_reference_value(resource).keyed());
        put_origin(&mut fields, artifact);
    }
    fields.into_map()
}

/// The keys and names of a compact structural preview take few bytes.
proof fn lemma_compact_text_sizes(dialect: StructuralDialect, status: VerificationStatus)
    ensures
        byte_len("project_id"@) <= 10,
        byte_len("engine"@) <= 6,
        byte_len("dialect"@) <= 7,
        byte_len("semantic_confidence"@) <= 19,
        byte_len("parse_only"@) <= 10,
        byte_len("match_count"@) <= 11,
        byte_len("returned_match_count"@) <= 20,
        byte_len("remaining_match_count"@) <= 21,
        byte_len("matched_file_count"@) <= 18,
        byte_len("matched_files"@) <= 13,
        byte_len("matches"@) <= 7,
        byte_len("matches_resource"@) <= 16,
        byte_len("safe_to_apply"@) <= 13,
        byte_len("unsupported"@) <= 11,
        byte_len("plan_id"@) <= 7,
        byte_len("affected_file_count"@) <= 19,
        byte_len("operation_count"@) <= 15,
        byte_len("precondition_count"@) <= 18,
        byte_len("diff_file_count"@) <= 15,
        byte_len("conflict_count"@) <= 14,
        byte_len("unsupported_count"@) <= 17,
        byte_len("diff_truncated"@) <= 14,
        byte_len("plan_details_resource"@) <= 21,
        byte_len("verification"@) <= 12,
        byte_len("producer"@) <= 8,
        byte_len(engine_name(dialect)) <= 17,
        byte_len(dialect_name(dialect)) <= 17,
        byte_len(confidence_name(dialect)) <= 17,
        byte_len(verification_name(status)) <= 21,
        json_len(json_texts(Seq::empty())) == 2,
{
    reveal_strlit("project_id");
    lemma_ascii_len("project_id"@);
    reveal_strlit("engine");
    lemma_ascii_len("engine"@);
    reveal_strlit("dialect");
    lemma_ascii_len("dialect"@);
    reveal_strlit("semantic_confidence");
    lemma_ascii_len("semantic_confidence"@);
    reveal_strlit("parse_only");
    lemma_ascii_len("parse_only"@);
    reveal_strlit("match_count");
    lemma_ascii_len("match_count"@);
    reveal_strlit("returned_match_count");
    lemma_ascii_len("returned_match_count"@);
    reveal_strlit("remaining_match_count");
    lemma_ascii_len("remaining_match_count"@);
    reveal_strlit("matched_file_count");
    lemma_ascii_len("matched_file_count"@);
    reveal_strlit("matched_files");
    lemma_ascii_len("matched_files"@);
    reveal_strlit("matches");
    lemma_ascii_len("matches"@);
    reveal_strlit("matches_resource");
    lemma_ascii_len("matches_resource"@);
    reveal_strlit("safe_to_apply");
    lemma_ascii_len("safe_to_apply"@);
    reveal_strlit("unsupported");
    lemma_ascii_len("unsupported"@);
    reveal_strlit("plan_id");
    lemma_ascii_len("plan_id"@);
    reveal_strlit("affected_file_count");
    lemma_ascii_len("affected_file_count"@);
    reveal_strlit("operation_count");
    lemma_ascii_len("operation_count"@);
    reveal_strlit("precondition_count");
    lemma_ascii_len("precondition_count"@);
    reveal_strlit("diff_file_count");
    lemma_ascii_len("diff_file_count"@);
    reveal_strlit("conflict_count");
    lemma_ascii_len("conflict_count"@);
    reveal_strlit("unsupported_count");
    lemma_ascii_len("unsupported_count"@);
    reveal_strlit("diff_truncated");
    lemma_ascii_len("diff_truncated"@);
    reveal_strlit("plan_details_resource");
    lemma_ascii_len("plan_details_resource"@);
    reveal_strlit("verification");
    lemma_ascii_len("verification"@);
    reveal_strlit("producer");
    lemma_ascii_len("producer"@);
    reveal_strlit("rust_analyzer_ssr");
    lemma_ascii_len("rust_analyzer_ssr"@);
    reveal_strlit("ast_grep");
    lemma_ascii_len("ast_grep"@);
    reveal_strlit("rust_analyzer");
    lemma_ascii_len("rust_analyzer"@);
    reveal_strlit("semantic");
    lemma_ascii_len("semantic"@);
    reveal_strlit("structural");
    lemma_ascii_len("structural"@);
    reveal_strlit("semantic_verified");
    lemma_ascii_len("semantic_verified"@);
    reveal_strlit("structural_unverified");
    lemma_ascii_len("structural_unverified"@);
    let none = json_texts(Seq::empty());
    assert(none->Array_0 =~= Seq::<Json>::empty());
    assert(json_text(none) =~= seq!['[', ']']);
    lemma_ascii_len(seq!['[', ']']);
}

proof fn lemma_compact_head_cost(
    result: StructuralPreview,
    project: Seq<char>,
    matches_resource: Json,
    details_resource: Json,
)
    requires
        result.artifact is None,
        byte_len(project) <= 256,
        json_len(matches_resource) <= 2048,
    ensures
        fields_cost(compact_fields(result, project, matches_resource, details_resource)) <= 7000,
{
    lemma_compact_text_sizes(result.dialect, VerificationStatus::SemanticVerified);
    lemma_value_sizes(Seq::empty(), 0, result.parse_only);
    lemma_value_sizes(Seq::empty(), 0, false);
    lemma_value_sizes(project, 0, true);
    lemma_value_sizes(engine_name(result.dialect), 0, true);
    lemma_value_sizes(dialect_name(result.dialect), 0, true);
    lemma_value_sizes(confidence_name(result.dialect), 0, true);
    lemma_value_sizes(Seq::empty(), result.matches.len() as nat, true);
    lemma_value_sizes(Seq::empty(), result.matches.len() as nat, true);
    lemma_value_sizes(Seq::empty(), result.matched_files.len() as nat, true);
    let f1 = no_fields().push(("project_id"@, Json::Text(project)));
    lemma_push_cost(no_fields(), "project_id"@, Json::Text(project));
    let f2 = f1.push(("engine"@, Json::Text(engine_name(result.dialect))));
    lemma_push_cost(f1, "engine"@, Json::Text(engine_name(result.dialect)));
    let f3 = f2.push(("dialect"@, Json::Text(dialect_name(result.dialect))));
    lemma_push_cost(f2, "dialect"@, Json::Text(dialect_name(result.dialect)));
    let f4 = f3.push(("semantic_confidence"@, Json::Text(confidence_name(result.dialect))));
    lemma_push_cost(f3, "semantic_confidence"@, Json::Text(confidence_name(result.dialect)));
    let f5 = f4.push(("parse_only"@, Json::Bool(result.parse_only)));
    lemma_push_cost(f4, "parse_only"@, Json::Bool(result.parse_only));
    let f6 = f5.push(("match_count"@, json_count(result.matches.len() as nat)));
    lemma_push_cost(f5, "match_count"@, json_count(result.matches.len() as nat));
    let f7 = f6.push(("returned_match_count"@, json_count(0 as nat)));
    lemma_push_cost(f6, "returned_match_count"@, json_count(0 as nat));
    let f8 = f7.push(("remaining_match_count"@, json_count(result.matches.len() as nat)));
    lemma_push_cost(f7, "remaining_match_count"@, json_count(result.matches.len() as nat));
    let f9 = f8.push(("matched_file_count"@, json_count(result.matched_files.len() as nat)));
    lemma_push_cost(f8, "matched_file_count"@, json_count(result.matched_files.len() as nat));
    let f10 = f9.push(("matched_files"@, json_texts(Seq::empty())));
    lemma_push_cost(f9, "matched_files"@, json_texts(Seq::empty()));
    let f11 = f10.push(("matches"@, json_texts(Seq::empty())));
    lemma_push_cost(f10, "matches"@, json_texts(Seq::empty()));
    let f12 = f11.push(("matches_resource"@, matches_resource));
    lemma_push_cost(f11, "matches_resource"@, matches_resource);
    let f13 = f12.push(("safe_to_apply"@, Json::Bool(false)));
    lemma_push_cost(f12, "safe_to_apply"@, Json::Bool(false));
    let f14 = f13.push(("unsupported"@, json_texts(Seq::empty())));
    lemma_push_cost(f13, "unsupported"@, json_texts(Seq::empty()));
    assert(fields_cost(no_fields()) == 0);
    assert(compact_fields(result, project, matches_resource, details_resource) == f14);
}

proof fn lemma_compact_plan_cost(
    fields: Seq<(Seq<char>, Json)>,
    artifact: PreviewArtifact,
    details_resource: Json,
)
    requires
        byte_len(artifact.plan.id@) <= 256,
        artifact.producer matches Some(producer) ==> byte_len(producer@) <= 256,
        json_len(details_resource) <= 2048,
    ensures
        fields_cost(compact_plan_fields(fields, artifact, details_resource)) <= fields_cost(fields)
            + 9000,
{
    let plan = artifact.plan;
    let status = match artifact.verification {
        Some(status) => status,
        None => VerificationStatus::SemanticVerified,
    };
    lemma_compact_text_sizes(StructuralDialect::AstGrep, status);
    lemma_value_sizes(Seq::empty(), 0, plan.safe_to_apply);
    lemma_value_sizes(Seq::empty(), 0, plan.diff_truncated);
    lemma_value_sizes(verification_name(status), 0, true);
    lemma_value_sizes(plan.id@, 0, true);
    lemma_value_sizes(Seq::empty(), artifact.affected_files.len() as nat, true);
    lemma_value_sizes(Seq::empty(), plan.operations.len() as nat, true);
    lemma_value_sizes(Seq::empty(), plan.files.len() as nat, true);
    lemma_value_sizes(Seq::empty(), plan.diff_files.len() as nat, true);
    lemma_value_sizes(Seq::empty(), artifact.conflicts.len() as nat, true);
    lemma_value_sizes(Seq::empty(), artifact.unsupported.len() as nat, true);
    let f1 = fields.push(("plan_id"@, Json::Text(plan.id@)));
    lemma_push_cost(fields, "plan_id"@, Json::Text(plan.id@));
    let f2 = f1.push(("safe_to_apply"@, Json::Bool(plan.safe_to_apply)));
    lemma_push_cost(f1, "safe_to_apply"@, Json::Bool(plan.safe_to_apply));
    let f3 = f2.push(("affected_file_count"@, json_count(artifact.affected_files.len() as nat)));
    lemma_push_cost(f2, "affected_file_count"@, json_count(artifact.affected_files.len() as nat));
    let f4 = f3.push(("operation_count"@, json_count(plan.operations.len() as nat)));
    lemma_push_cost(f3, "operation_count"@, json_count(plan.operations.len() as nat));
    let f5 = f4.push(("precondition_count"@, json_count(plan.files.len() as nat)));
    lemma_push_cost(f4, "precondition_count"@, json_count(plan.files.len() as nat));
    let f6 = f5.push(("diff_file_count"@, json_count(plan.diff_files.len() as nat)));
    lemma_push_cost(f5, "diff_file_count"@, json_count(plan.diff_files.len() as nat));
    let f7 = f6.push(("conflict_count"@, json_count(artifact.conflicts.len() as nat)));
    lemma_push_cost(f6, "conflict_count"@, json_count(artifact.conflicts.len() as nat));
    let f8 = f7.push(("unsupported_count"@, json_count(artifact.unsupported.len() as nat)));
    lemma_push_cost(f7, "unsupported_count"@, json_count(artifact.unsupported.len() as nat));
    let f9 = f8.push(("diff_truncated"@, Json::Bool(plan.diff_truncated)));
    lemma_push_cost(f8, "diff_truncated"@, Json::Bool(plan.diff_truncated));
    let f10 = f9.push(("plan_details_resource"@, details_resource));
    lemma_push_cost(f9, "plan_details_resource"@, details_resource);
    let verified = match artifact.verification {
        Some(status) => f10.push(("verification"@, Json::Text(verification_name(status)))),
        None => f10,
    };
    lemma_push_cost(f10, "verification"@, Json::Text(verification_name(status)));
    if let Some(producer) = artifact.producer {
        lemma_value_sizes(producer@, 0, true);
        lemma_push_cost(verified, "producer"@, Json::Text(producer@));
    }
}

/// A compact structural preview fits the response budget where the ids and the
/// references that it repeats are short, however many matches and files there
/// are.
pub proof fn law_compact_preview_is_bounded(
    result: StructuralPreview,
    project: Seq<char>,
    matches_resource: Json,
    details_resource: Json,
)
    requires
        byte_len(project) <= 256,
        json_len(matches_resource) <= 2048,
        result.artifact matches Some(artifact) ==> {
            &&& byte_len(artifact.plan.id@) <= 256
            &&& artifact.producer matches Some(producer) ==> byte_len(producer@) <= 256
            &&& json_len(details_resource) <= 2048
        },
    ensures
        json_len(
            Json::Object(
                by_key(compact_fields(result, project, matches_resource, details_resource)),
            ),
        ) <= MAX_SEMANTIC_RESOURCE_RESULT_BYTES,
{
    let fields = compact_fields(result, project, matches_resource, details_resource);
    let head = compact_fields(
        StructuralPreview { artifact: None, ..result },
        project,
        matches_resource,
        details_resource,
    );
    lemma_compact_head_cost(
        StructuralPreview { artifact: None, ..result },
        project,
        matches_resource,
        details_resource,
    );
    if let Some(artifact) = result.artifact {
        lemma_compact_plan_cost(head, artifact, details_resource);
    }
    lemma_filled_object_len(fields);
}

/// A preview accounts for every match: those that it shows and those that are
/// left to the inventory.
pub proof fn law_structural_matches_are_accounted(
    result: StructuralPreview,
    project: Seq<char>,
    matches_resource: Json,
    details_resource: Json,
)
    ensures
        ({
            let whole = structural_json(result, project);
            let compact = Json::Object(
                by_key(compact_fields(result, project, matches_resource, details_resource)),
            );
            let count = result.matches@.len();
            &&& member(whole, "match_count"@) == Some(json_count(count))
            &&& member(whole, "returned_match_count"@) == Some(json_count(count))
            &&& member(whole, "remaining_match_count"@) == Some(json_count(0))
            &&& member(compact, "match_count"@) == Some(json_count(count))
            &&& member(compact, "returned_match_count"@) == Some(json_count(0))
            &&& member(compact, "remaining_match_count"@) == Some(json_count(count))
        }),
{
    reveal_strlit("match_count");
    reveal_strlit("returned_match_count");
    reveal_strlit("remaining_match_count");
    reveal_strlit("matched_file_count");
    reveal_strlit("matched_files");
    reveal_strlit("matches");
    reveal_strlit("unsupported");
    reveal_strlit("matches_resource");
    reveal_strlit("safe_to_apply");
    reveal_strlit("plan_id");
    reveal_strlit("affected_file_count");
    reveal_strlit("operation_count");
    reveal_strlit("precondition_count");
    reveal_strlit("diff_file_count");
    reveal_strlit("conflict_count");
    reveal_strlit("unsupported_count");
    reveal_strlit("diff_truncated");
    reveal_strlit("plan_details_resource");
    reveal_strlit("verification");
    reveal_strlit("producer");
    assert("match_count"@[0] == 'm');
    assert("unsupported"@[0] == 'u');
    assert("returned_match_count"@[0] == 'r');
    assert("remaining_match_count"@[0] == 'r');
    assert("plan_details_resource"@[0] == 'p');
    let whole = structural_fields(result, project);
    let first: int = (match result.artifact {
        Some(artifact) => artifact_fields(artifact, project).len() as int,
        None => 2,
    }) + 4;
    assert(whole[first].0 == "match_count"@);
    assert(whole[first + 1].0 == "returned_match_count"@);
    assert(whole[first + 2].0 == "remaining_match_count"@);
    assert(whole[first + 3].0 == "matched_file_count"@);
    assert(whole[first + 4].0 == "matched_files"@);
    assert(whole[first + 5].0 == "matches"@);
    assert(whole.len() > first + 6 ==> whole[first + 6].0 == "unsupported"@);
    assert forall|i: int| first < i < whole.len() implies (#[trigger] whole[i]).0
        != "match_count"@ by {
        assert(i == first + 1 || i == first + 2 || i == first + 3 || i == first + 4 || i == first
            + 5 || i == first + 6);
    }
    assert forall|i: int| first + 1 < i < whole.len() implies (#[trigger] whole[i]).0
        != "returned_match_count"@ by {
        assert(i == first + 2 || i == first + 3 || i == first + 4 || i == first + 5 || i == first
            + 6);
    }
    law_by_key_lookup(whole, first, "match_count"@);
    law_by_key_lookup(whole, first + 1, "returned_match_count"@);
    law_by_key_lookup(whole, first + 2, "remaining_match_count"@);
    let compact = compact_fields(result, project, matches_resource, details_resource);
    law_by_key_lookup(compact, 5, "match_count"@);
    law_by_key_lookup(compact, 6, "returned_match_count"@);
    law_by_key_lookup(compact, 7, "remaining_match_count"@);
}

/// Whether a value lists what a plan rests on: of each file its path, where its
/// contents were taken from, its version and its digest, in their order.
pub open spec fn lists_preconditions(value: Option<Json>, files: Seq<FileSnapshot>) -> bool {
    value matches Some(Json::Array(shown)) && shown.len() == files.len() && forall|i: int|
        0 <= i < files.len() ==> {
            &&& member(#[trigger] shown[i], "path"@) == Some(Json::Text(files[i].path@))
            &&& member(shown[i], "source"@) == Some(
                Json::Text(
                    match files[i].source {
                        SnapshotSource::Disk => "disk"@,
                        SnapshotSource::OpenDocument => "open_document"@,
                    },
                ),
            )
            &&& member(shown[i], "version"@) == Some(
                match files[i].version {
                    Some(version) => signed_json(version as int),
                    None => Json::Null,
                },
            )
            &&& member(shown[i], "sha256"@) == Some(Json::Text(files[i].content_hash@))
        }
}

/// What a plan rests on is listed file by file.
pub proof fn law_preconditions_are_listed(files: Seq<FileSnapshot>)
    ensures
        lists_preconditions(Some(preconditions_json(files)), files),
{
    reveal_strlit("path");
    reveal_strlit("source");
    reveal_strlit("version");
    reveal_strlit("sha256");
    assert("path"@.len() == 4);
    assert("source"@.len() == 6);
    assert("version"@.len() == 7);
    assert("sha256"@.len() == 6);
    assert("source"@[1] == 'o');
    assert("sha256"@[1] == 'h');
    lemma_last_pushed();
    let shown = preconditions_json(files)->Array_0;
    assert forall|i: int| 0 <= i < files.len() implies {
        &&& member(#[trigger] shown[i], "path"@) == Some(Json::Text(files[i].path@))
        &&& member(shown[i], "source"@) == Some(Json::Text(source_name(files[i].source)))
        &&& member(shown[i], "version"@) == Some(version_json(files[i].version))
        &&& member(shown[i], "sha256"@) == Some(Json::Text(files[i].content_hash@))
    } by {
        let file = files[i];
        assert(shown[i] == precondition_json(file));
        lemma_filled_members(
            no_fields().push(("path"@, Json::Text(file.path@))).push(
                ("source"@, Json::Text(source_name(file.source))),
            ).push(("version"@, version_json(file.version))).push(
                ("sha256"@, Json::Text(file.content_hash@)),
            ),
        );
    }
}

/// Whether a value previews a plan: it names the project and the plan, gives the
/// diff, every affected file, operation, precondition, conflict and unsupported
/// part as the plan has them, says whether the plan can be applied, and links the
/// whole diff exactly where it gives only a part of it.
pub open spec fn previews_plan(value: Json, artifact: PreviewArtifact, project: Seq<char>) -> bool {
    let plan = artifact.plan;
    &&& member(value, "project_id"@) == Some(Json::Text(project))
    &&& member(value, "plan_id"@) == Some(Json::Text(plan.id@))
    &&& member(value, "unified_diff"@) == Some(Json::Text(plan.unified_diff@))
    &&& member(value, "diff_truncated"@) == Some(Json::Bool(plan.diff_truncated))
    &&& member(value, "safe_to_apply"@) == Some(Json::Bool(plan.safe_to_apply))
    &&& lists_texts(member(value, "affected_files"@), path_texts(artifact.affected_files@))
    &&& lists_texts(member(value, "operations"@), texts(plan.operations@))
    &&& lists_texts(member(value, "conflicts"@), texts(artifact.conflicts@))
    &&& lists_texts(member(value, "unsupported"@), texts(artifact.unsupported@))
    &&& lists_diff_files(member(value, "diff_files"@), plan.diff_files@)
    &&& lists_preconditions(member(value, "preconditions"@), plan.files@)
    &&& member(value, "verification"@) == match artifact.verification {
        Some(VerificationStatus::SemanticVerified) => Some(Json::Text("semantic_verified"@)),
        Some(VerificationStatus::StructuralUnverified) => Some(
            Json::Text("structural_unverified"@),
        ),
        None => None,
    }
    &&& member(value, "producer"@) == match artifact.producer {
        Some(producer) => Some(Json::Text(producer@)),
        None => None,
    }
    &&& member(value, "diff_resource"@) is Some <==> plan.diff_truncated
    &&& member(value, "diff_resource"@) matches Some(resource) ==> {
        &&& member(resource, "uri"@) == Some(
            Json::Text(plan_uri(EDIT_DIFF_PREFIX@, project, plan.id@, 0)),
        )
        &&& member(resource, "mime_type"@) == Some(Json::Text("text/x-diff"@))
    }
}

/// Whether fields give a plan under the keys of a preview.
spec fn fields_preview_plan(
    fields: Seq<(Seq<char>, Json)>,
    artifact: PreviewArtifact,
    project: Seq<char>,
) -> bool {
    let plan = artifact.plan;
    &&& last_under(fields, "project_id"@) == Some(Json::Text(project))
    &&& last_under(fields, "plan_id"@) == Some(Json::Text(plan.id@))
    &&& last_under(fields, "unified_diff"@) == Some(Json::Text(plan.unified_diff@))
    &&& last_under(fields, "diff_truncated"@) == Some(Json::Bool(plan.diff_truncated))
    &&& last_under(fields, "safe_to_apply"@) == Some(Json::Bool(plan.safe_to_apply))
    &&& last_under(fields, "affected_files"@) == Some(
        json_texts(path_texts(artifact.affected_files@)),
    )
    &&& last_under(fields, "operations"@) == Some(json_texts(texts(plan.operations@)))
    &&& last_under(fields, "conflicts"@) == Some(json_texts(texts(artifact.conflicts@)))
    &&& last_under(fields, "unsupported"@) == Some(json_texts(texts(artifact.unsupported@)))
    &&& last_under(fields, "diff_files"@) == Some(diff_files_json(plan.diff_files@))
    &&& last_under(fields, "preconditions"@) == Some(preconditions_json(plan.files@))
    &&& last_under(fields, "verification"@) == match artifact.verification {
        Some(status) => Some(Json::Text(verification_name(status))),
        None => None,
    }
    &&& last_under(fields, "producer"@) == match artifact.producer {
        Some(producer) => Some(Json::Text(producer@)),
        None => None,
    }
    &&& last_under(fields, "diff_resource"@) is Some <==> plan.diff_truncated
    &&& last_under(fields, "diff_resource"@) matches Some(resource) ==> {
        &&& member(resource, "uri"@) == Some(Json::Text(diff_uri(project, plan.id@)))
        &&& member(resource, "mime_type"@) == Some(Json::Text("text/x-diff"@))
    }
}

proof fn lemma_artifact_fields(artifact: PreviewArtifact, project: Seq<char>)
    ensures
        fields_preview_plan(artifact_fields(artifact, project), artifact, project),
{
    reveal_strlit("project_id");
    reveal_strlit("plan_id");
    reveal_strlit("unified_diff");
    reveal_strlit("diff_files");
    reveal_strlit("diff_truncated");
    reveal_strlit("affected_files");
    reveal_strlit("operations");
    reveal_strlit("preconditions");
    reveal_strlit("conflicts");
    reveal_strlit("unsupported");
    reveal_strlit("safe_to_apply");
    reveal_strlit("verification");
    reveal_strlit("producer");
    reveal_strlit("diff_resource");
    reveal_strlit("uri");
    reveal_strlit("mime_type");
    assert("project_id"@.len() == 10);
    assert("plan_id"@.len() == 7);
    assert("unified_diff"@.len() == 12);
    assert("diff_files"@.len() == 10);
    assert("diff_truncated"@.len() == 14);
    assert("affected_files"@.len() == 14);
    assert("operations"@.len() == 10);
    assert("preconditions"@.len() == 13);
    assert("conflicts"@.len() == 9);
    assert("unsupported"@.len() == 11);
    assert("safe_to_apply"@.len() == 13);
    assert("verification"@.len() == 12);
    assert("producer"@.len() == 8);
    assert("diff_resource"@.len() == 13);
    assert("uri"@.len() == 3);
    assert("mime_type"@.len() == 9);
    assert("project_id"@[0] == 'p');
    assert("diff_files"@[0] == 'd');
    assert("operations"@[0] == 'o');
    assert("unified_diff"@[0] == 'u');
    assert("verification"@[0] == 'v');
    assert("diff_truncated"@[0] == 'd');
    assert("affected_files"@[0] == 'a');
    assert("preconditions"@[0] == 'p');
    assert("safe_to_apply"@[0] == 's');
    assert("diff_resource"@[0] == 'd');
    assert("conflicts"@[0] == 'c');
    assert("mime_type"@[0] == 'm');
    lemma_last_pushed();
    lemma_filled_members(
        no_fields().push(("uri"@, Json::Text(diff_uri(project, artifact.plan.id@)))).push(
            ("mime_type"@, Json::Text("text/x-diff"@)),
        ),
    );
}

proof fn lemma_previews_plan(
    fields: Seq<(Seq<char>, Json)>,
    artifact: PreviewArtifact,
    project: Seq<char>,
)
    requires
        fields_preview_plan(fields, artifact, project),
    ensures
        previews_plan(Json::Object(by_key(fields)), artifact, project),
{
    lemma_filled_members(fields);
    law_texts_stay_in_place(path_texts(artifact.affected_files@));
    law_texts_stay_in_place(texts(artifact.plan.operations@));
    law_texts_stay_in_place(texts(artifact.conflicts@));
    law_texts_stay_in_place(texts(artifact.unsupported@));
    law_diff_files_are_listed(artifact.plan.diff_files@);
    law_preconditions_are_listed(artifact.plan.files@);
    law_diff_link_is_readable(project, artifact.plan.id@);
}

/// A preview shows the plan that it is of.
pub proof fn law_preview_shows_its_plan(artifact: PreviewArtifact, project: Seq<char>)
    ensures
        previews_plan(artifact_json(artifact, project), artifact, project),
{
    lemma_artifact_fields(artifact, project);
    lemma_previews_plan(artifact_fields(artifact, project), artifact, project);
}

/// A preview that depends on what a server can do shows the plan, says that
/// something changes, and whether the server supports the edit.
pub proof fn law_supported_preview_shows_its_plan(
    artifact: PreviewArtifact,
    project: Seq<char>,
    supported: bool,
)
    ensures
        ({
            let shown = supported_artifact_json(artifact, project, supported);
            &&& previews_plan(shown, artifact, project)
            &&& member(shown, "supported"@) == Some(Json::Bool(supported))
            &&& member(shown, "changed"@) == Some(Json::Bool(true))
        }),
{
    reveal_strlit("project_id");
    reveal_strlit("plan_id");
    reveal_strlit("unified_diff");
    reveal_strlit("diff_files");
    reveal_strlit("diff_truncated");
    reveal_strlit("affected_files");
    reveal_strlit("operations");
    reveal_strlit("preconditions");
    reveal_strlit("conflicts");
    reveal_strlit("unsupported");
    reveal_strlit("safe_to_apply");
    reveal_strlit("verification");
    reveal_strlit("producer");
    reveal_strlit("diff_resource");
    reveal_strlit("supported");
    reveal_strlit("changed");
    assert("project_id"@.len() == 10);
    assert("plan_id"@.len() == 7);
    assert("unified_diff"@.len() == 12);
    assert("diff_files"@.len() == 10);
    assert("diff_truncated"@.len() == 14);
    assert("affected_files"@.len() == 14);
    assert("operations"@.len() == 10);
    assert("preconditions"@.len() == 13);
    assert("conflicts"@.len() == 9);
    assert("unsupported"@.len() == 11);
    assert("safe_to_apply"@.len() == 13);
    assert("verification"@.len() == 12);
    assert("producer"@.len() == 8);
    assert("diff_resource"@.len() == 13);
    assert("supported"@.len() == 9);
    assert("changed"@.len() == 7);
    assert("project_id"@[0] == 'p');
    assert("diff_files"@[0] == 'd');
    assert("operations"@[0] == 'o');
    assert("plan_id"@[0] == 'p');
    assert("changed"@[0] == 'c');
    assert("unified_diff"@[0] == 'u');
    assert("verification"@[0] == 'v');
    assert("diff_truncated"@[0] == 'd');
    assert("affected_files"@[0] == 'a');
    assert("preconditions"@[0] == 'p');
    assert("safe_to_apply"@[0] == 's');
    assert("diff_resource"@[0] == 'd');
    assert("conflicts"@[0] == 'c');
    assert("supported"@[0] == 's');
    lemma_last_pushed();
    lemma_artifact_fields(artifact, project);
    let fields = artifact_fields(artifact, project).push(("supported"@, Json::Bool(supported))).push(
        ("changed"@, Json::Bool(true)),
    );
    lemma_previews_plan(fields, artifact, project);
    lemma_filled_members(fields);
}

/// Where no plan comes of an edit, the answer names the project, says that
/// nothing changes, and whether the server supports the edit.
pub proof fn law_unchanged_preview_says_so(project: Seq<char>, supported: bool)
    ensures
        ({
            let shown = unchanged_json(project, supported);
            &&& member(shown, "project_id"@) == Some(Json::Text(project))
            &&& member(shown, "supported"@) == Some(Json::Bool(supported))
            &&& member(shown, "changed"@) == Some(Json::Bool(false))
            &&& member(shown, "plan_id"@) is None
        }),
{
    reveal_strlit("project_id");
    reveal_strlit("supported");
    reveal_strlit("changed");
    reveal_strlit("plan_id");
    assert("project_id"@.len() == 10);
    assert("supported"@.len() == 9);
    assert("changed"@.len() == 7);
    assert("plan_id"@.len() == 7);
    assert("changed"@[0] == 'c');
    assert("plan_id"@[0] == 'p');
    lemma_last_pushed();
    lemma_filled_members(
        no_fields().push(("project_id"@, Json::Text(project))).push(
            ("supported"@, Json::Bool(supported)),
        ).push(("changed"@, Json::Bool(false))),
    );
}

/// The preview of a renamed path shows the plan, the servers that took part and
/// how many edits came from them.
pub proof fn law_path_rename_preview_shows_its_plan(result: PathRenamePreview, project: Seq<char>)
    ensures
        ({
            let shown = path_rename_json(result, project);
            &&& previews_plan(shown, result.artifact, project)
            &&& lists_texts(member(shown, "semantic_providers"@), texts(result.providers@))
            &&& member(shown, "semantic_provider_available"@) == Some(
                Json::Bool(result.providers@.len() != 0),
            )
            &&& member(shown, "semantic_edit_count"@) == Some(
                json_count(result.semantic_edit_count as nat),
            )
        }),
{
    reveal_strlit("project_id");
    reveal_strlit("plan_id");
    reveal_strlit("unified_diff");
    reveal_strlit("diff_files");
    reveal_strlit("diff_truncated");
    reveal_strlit("affected_files");
    reveal_strlit("operations");
    reveal_strlit("preconditions");
    reveal_strlit("conflicts");
    reveal_strlit("unsupported");
    reveal_strlit("safe_to_apply");
    reveal_strlit("verification");
    reveal_strlit("producer");
    reveal_strlit("diff_resource");
    reveal_strlit("semantic_providers");
    reveal_strlit("semantic_provider_available");
    reveal_strlit("semantic_edit_count");
    assert("project_id"@.len() == 10);
    assert("plan_id"@.len() == 7);
    assert("unified_diff"@.len() == 12);
    assert("diff_files"@.len() == 10);
    assert("diff_truncated"@.len() == 14);
    assert("affected_files"@.len() == 14);
    assert("operations"@.len() == 10);
    assert("preconditions"@.len() == 13);
    assert("conflicts"@.len() == 9);
    assert("unsupported"@.len() == 11);
    assert("safe_to_apply"@.len() == 13);
    assert("verification"@.len() == 12);
    assert("producer"@.len() == 8);
    assert("diff_resource"@.len() == 13);
    assert("semantic_providers"@.len() == 18);
    assert("semantic_provider_available"@.len() == 27);
    assert("semantic_edit_count"@.len() == 19);
    assert("project_id"@[0] == 'p');
    assert("diff_files"@[0] == 'd');
    assert("operations"@[0] == 'o');
    assert("unified_diff"@[0] == 'u');
    assert("verification"@[0] == 'v');
    assert("diff_truncated"@[0] == 'd');
    assert("affected_files"@[0] == 'a');
    assert("preconditions"@[0] == 'p');
    assert("safe_to_apply"@[0] == 's');
    assert("diff_resource"@[0] == 'd');
    lemma_last_pushed();
    lemma_artifact_fields(result.artifact, project);
    let fields = artifact_fields(result.artifact, project).push(
        ("semantic_providers"@, json_texts(texts(result.providers@))),
    ).push(("semantic_provider_available"@, Json::Bool(result.providers@.len() > 0))).push(
        ("semantic_edit_count"@, json_count(result.semantic_edit_count as nat)),
    );
    lemma_previews_plan(fields, result.artifact, project);
    lemma_filled_members(fields);
    law_texts_stay_in_place(texts(result.providers@));
}

/// Whether a value lists matches: the path and both ends of the range of each, in
/// their order.
pub open spec fn lists_matches(value: Option<Json>, matches: Seq<StructuralMatch>) -> bool {
    value matches Some(Json::Array(shown)) && shown.len() == matches.len() && forall|i: int|
        0 <= i < matches.len() ==> {
            &&& member(#[trigger] shown[i], "path"@) == Some(Json::Text(matches[i].path@))
            &&& gives_range(member(shown[i], "range"@), matches[i].range)
        }
}

/// Matches are listed with their paths and ranges.
pub proof fn law_matches_are_listed(matches: Seq<StructuralMatch>)
    ensures
        lists_matches(Some(matches_json(matches)), matches),
{
    reveal_strlit("path");
    reveal_strlit("range");
    assert("path"@.len() == 4);
    assert("range"@.len() == 5);
    lemma_last_pushed();
    let shown = matches_json(matches)->Array_0;
    assert forall|i: int| 0 <= i < matches.len() implies {
        &&& member(#[trigger] shown[i], "path"@) == Some(Json::Text(matches[i].path@))
        &&& gives_range(member(shown[i], "range"@), matches[i].range)
    } by {
        let matched = matches[i];
        assert(shown[i] == match_json(matched));
        law_range_gives_both_ends(matched.range);
        lemma_filled_members(
            no_fields().push(("path"@, Json::Text(matched.path@))).push(
                ("range"@, keyed(range_json(matched.range))),
            ),
        );
    }
}

/// Whether a value says how a structural search was done: by which engine, in
/// which dialect, how far it can be trusted, and whether it only parsed.
pub open spec fn names_search(value: Json, result: StructuralPreview) -> bool {
    &&& member(value, "engine"@) == Some(
        Json::Text(
            match result.dialect {
                StructuralDialect::RustAnalyzerSsr => "rust_analyzer"@,
                StructuralDialect::AstGrep => "ast_grep"@,
            },
        ),
    )
    &&& member(value, "dialect"@) == Some(
        Json::Text(
            match result.dialect {
                StructuralDialect::RustAnalyzerSsr => "rust_analyzer_ssr"@,
                StructuralDialect::AstGrep => "ast_grep"@,
            },
        ),
    )
    &&& member(value, "semantic_confidence"@) == Some(
        Json::Text(
            match result.dialect {
                StructuralDialect::RustAnalyzerSsr => "semantic"@,
                StructuralDialect::AstGrep => "structural"@,
            },
        ),
    )
    &&& member(value, "parse_only"@) == Some(Json::Bool(result.parse_only))
}

/// An inline structural preview shows every match with its own range, the plan if
/// there is one, and without one that nothing can be applied.
#[verifier::rlimit(50)]
pub proof fn law_structural_preview_shows_its_matches(
    result: StructuralPreview,
    project: Seq<char>,
)
    ensures
        ({
            let shown = structural_json(result, project);
            let files = distinct_paths(match_paths(result.matches@));
            &&& names_search(shown, result)
            &&& lists_matches(member(shown, "matches"@), result.matches@)
            &&& lists_texts(member(shown, "matched_files"@), files)
            &&& member(shown, "matched_file_count"@) == Some(json_count(files.len()))
            &&& member(shown, "project_id"@) == Some(Json::Text(project))
            &&& result.artifact matches Some(artifact) ==> previews_plan(shown, artifact, project)
            &&& result.artifact is None ==> {
                &&& member(shown, "safe_to_apply"@) == Some(Json::Bool(false))
                &&& lists_texts(member(shown, "unsupported"@), Seq::empty())
                &&& member(shown, "plan_id"@) is None
            }
        }),
{
    reveal_strlit("project_id");
    reveal_strlit("plan_id");
    reveal_strlit("unified_diff");
    reveal_strlit("diff_files");
    reveal_strlit("diff_truncated");
    reveal_strlit("affected_files");
    reveal_strlit("operations");
    reveal_strlit("preconditions");
    reveal_strlit("conflicts");
    reveal_strlit("unsupported");
    reveal_strlit("safe_to_apply");
    reveal_strlit("verification");
    reveal_strlit("producer");
    reveal_strlit("diff_resource");
    reveal_strlit("engine");
    reveal_strlit("dialect");
    reveal_strlit("semantic_confidence");
    reveal_strlit("parse_only");
    reveal_strlit("match_count");
    reveal_strlit("returned_match_count");
    reveal_strlit("remaining_match_count");
    reveal_strlit("matched_file_count");
    reveal_strlit("matched_files");
    reveal_strlit("matches");
    assert("project_id"@.len() == 10);
    assert("plan_id"@.len() == 7);
    assert("unified_diff"@.len() == 12);
    assert("diff_files"@.len() == 10);
    assert("diff_truncated"@.len() == 14);
    assert("affected_files"@.len() == 14);
    assert("operations"@.len() == 10);
    assert("preconditions"@.len() == 13);
    assert("conflicts"@.len() == 9);
    assert("unsupported"@.len() == 11);
    assert("safe_to_apply"@.len() == 13);
    assert("verification"@.len() == 12);
    assert("producer"@.len() == 8);
    assert("diff_resource"@.len() == 13);
    assert("engine"@.len() == 6);
    assert("dialect"@.len() == 7);
    assert("semantic_confidence"@.len() == 19);
    assert("parse_only"@.len() == 10);
    assert("match_count"@.len() == 11);
    assert("returned_match_count"@.len() == 20);
    assert("remaining_match_count"@.len() == 21);
    assert("matched_file_count"@.len() == 18);
    assert("matched_files"@.len() == 13);
    assert("matches"@.len() == 7);
    assert("project_id"@[1] == 'r');
    assert("diff_files"@[1] == 'i');
    assert("operations"@[1] == 'p');
    assert("parse_only"@[1] == 'a');
    assert("plan_id"@[0] == 'p');
    assert("dialect"@[0] == 'd');
    assert("matches"@[0] == 'm');
    assert("unified_diff"@[0] == 'u');
    assert("verification"@[0] == 'v');
    assert("diff_truncated"@[0] == 'd');
    assert("affected_files"@[0] == 'a');
    assert("preconditions"@[0] == 'p');
    assert("safe_to_apply"@[0] == 's');
    assert("diff_resource"@[0] == 'd');
    assert("matched_files"@[0] == 'm');
    assert("unsupported"@[0] == 'u');
    assert("match_count"@[0] == 'm');
    lemma_last_pushed();
    let fields = structural_fields(result, project);
    lemma_filled_members(fields);
    law_matches_are_listed(result.matches@);
    law_texts_stay_in_place(distinct_paths(match_paths(result.matches@)));
    law_texts_stay_in_place(Seq::empty());
    if let Some(artifact) = result.artifact {
        lemma_artifact_fields(artifact, project);
        lemma_previews_plan(fields, artifact, project);
    }
}

/// The file that a match is filed under has the path of the match, and no file
/// after it has; a match whose path no file has is filed under none.
pub proof fn law_match_is_filed_under_its_path(files: Seq<StructuralMatchedFile>, path: Seq<char>)
    ensures
        match file_index(files, path) {
            Some(index) => {
                &&& 0 <= index < files.len()
                &&& components(files[index].path@) == components(path)
                &&& forall|later: int|
                    index < later < files.len() ==> components((#[trigger] files[later]).path@)
                        != components(path)
            },
            None => forall|i: int|
                0 <= i < files.len() ==> components((#[trigger] files[i]).path@) != components(
                    path,
                ),
        },
    decreases files.len(),
{
    if files.len() > 0 && components(files.last().path@) != components(path) {
        let head = files.drop_last();
        law_match_is_filed_under_its_path(head, path);
        assert forall|i: int| 0 <= i < head.len() implies #[trigger] files[i] == head[i] by {}
    }
}

/// The inventory of a structural search fails exactly where a file has no resource
/// or a match no file. Else it counts and lists every file and every match: each
/// file under its number, with its path, digest, version and resource, and each
/// match with the number of its file and its four coordinates.
#[verifier::rlimit(50)]
pub proof fn law_inventory_lists_everything(result: StructuralPreview)
    ensures
        inventory(result) is Err <==> {
            ||| exists|i: int|
                0 <= i < result.matched_files@.len()
                    && (#[trigger] result.matched_files@[i]).source_uri is Err
            ||| exists|i: int|
                0 <= i < result.matches@.len() && file_index(
                    result.matched_files@,
                    (#[trigger] result.matches@[i]).path@,
                ) is None
        },
        inventory(result) matches Ok(listed) ==> {
            let files = result.matched_files@;
            let matches = result.matches@;
            &&& member(listed, "file_count"@) == Some(json_count(files.len()))
            &&& member(listed, "match_count"@) == Some(json_count(matches.len()))
            &&& member(listed, "files"@) matches Some(Json::Array(shown)) && shown.len()
                == files.len() && forall|i: int|
                0 <= i < files.len() ==> lists_file(#[trigger] shown[i], files[i], i)
            &&& member(listed, "matches"@) matches Some(Json::Array(shown)) && shown.len()
                == matches.len() && forall|i: int|
                0 <= i < matches.len() ==> lists_filed_match(
                    #[trigger] shown[i],
                    matches[i],
                    files,
                )
        },
{
    reveal_strlit("file_count");
    reveal_strlit("match_count");
    reveal_strlit("files");
    reveal_strlit("matches");
    assert("file_count"@.len() == 10);
    assert("match_count"@.len() == 11);
    assert("files"@.len() == 5);
    assert("matches"@.len() == 7);
    lemma_last_pushed();
    let files = result.matched_files@;
    let matches = result.matches@;
    lemma_source_failure(files);
    if let Ok(listed) = inventory(result) {
        let shown_files = Seq::new(files.len(), |i: int| inventory_file(files[i], i));
        let shown_matches = Seq::new(
            matches.len(),
            |i: int| inventory_match(matches[i], file_index(files, matches[i].path@)->0),
        );
        lemma_filled_members(
            no_fields().push(("file_count"@, json_count(files.len()))).push(
                ("match_count"@, json_count(matches.len())),
            ).push(("files"@, Json::Array(shown_files))).push(
                ("matches"@, Json::Array(shown_matches)),
            ),
        );
        assert forall|i: int| 0 <= i < files.len() implies lists_file(
            #[trigger] shown_files[i],
            files[i],
            i,
        ) by {
            lemma_lists_file(files[i], i);
        }
        assert forall|i: int| 0 <= i < matches.len() implies lists_filed_match(
            #[trigger] shown_matches[i],
            matches[i],
            files,
        ) by {
            law_match_is_filed_under_its_path(files, matches[i].path@);
            lemma_lists_match(matches[i], files);
        }
    } else if source_failure(files) is None {
        assert(!matches_are_filed(result));
        let i = choose|i: int|
            0 <= i < matches.len() && file_index(files, (#[trigger] matches[i]).path@) is None;
        assert(file_index(files, matches[i].path@) is None);
    }
}

/// Whether a value lists a matched file under its number.
pub open spec fn lists_file(value: Json, file: StructuralMatchedFile, index: int) -> bool {
    &&& member(value, "file"@) == Some(json_count(index as nat))
    &&& member(value, "path"@) == Some(Json::Text(file.path@))
    &&& member(value, "snapshot_hash"@) == Some(Json::Text(file.content_hash@))
    &&& member(value, "document_version"@) == Some(
        match file.document_version {
            Some(version) => signed_json(version as int),
            None => Json::Null,
        },
    )
    &&& member(value, "source_resource"@) matches Some(resource) && {
        &&& member(resource, "uri"@) == Some(Json::Text(file.source_uri->Ok_0@))
        &&& member(resource, "kind"@) == Some(Json::Text("source_context"@))
        &&& member(resource, "snapshot_hash"@) == Some(Json::Text(file.content_hash@))
        &&& member(resource, "document_version"@) == match file.document_version {
            Some(version) => Some(signed_json(version as int)),
            None => None,
        }
        &&& member(resource, "total_bytes"@) == Some(json_count(file.total_bytes as nat))
    }
}

proof fn lemma_lists_file(file: StructuralMatchedFile, index: int)
    requires
        index >= 0,
    ensures
        lists_file(inventory_file(file, index), file, index),
{
    reveal_strlit("file");
    reveal_strlit("path");
    reveal_strlit("snapshot_hash");
    reveal_strlit("document_version");
    reveal_strlit("source_resource");
    reveal_strlit("uri");
    reveal_strlit("kind");
    reveal_strlit("total_bytes");
    assert("file"@.len() == 4);
    assert("path"@.len() == 4);
    assert("snapshot_hash"@.len() == 13);
    assert("document_version"@.len() == 16);
    assert("source_resource"@.len() == 15);
    assert("uri"@.len() == 3);
    assert("kind"@.len() == 4);
    assert("total_bytes"@.len() == 11);
    assert("file"@[0] == 'f');
    assert("path"@[0] == 'p');
    assert("kind"@[0] == 'k');
    lemma_last_pushed();
    let reference = source_reference(file, file.source_uri->Ok_0@);
    lemma_keyed_members(reference);
    lemma_filled_members(
        no_fields().push(("file"@, json_count(index as nat))).push(
            ("path"@, Json::Text(file.path@)),
        ).push(("snapshot_hash"@, Json::Text(file.content_hash@))).push(
            ("document_version"@, version_json(file.document_version)),
        ).push(("source_resource"@, keyed(reference))),
    );
}

/// Whether a value lists a match: the number of a file with its path, then the
/// line and the character of its start and of its end.
pub open spec fn lists_filed_match(
    value: Json,
    matched: StructuralMatch,
    files: Seq<StructuralMatchedFile>,
) -> bool {
    &&& exists|index: int|
        {
            &&& 0 <= index < files.len()
            &&& components((#[trigger] files[index]).path@) == components(matched.path@)
            &&& member(value, "file"@) == Some(json_count(index as nat))
        }
    &&& member(value, "range"@) matches Some(Json::Array(range)) && {
        &&& range.len() == 4
        &&& range[0] == json_count(matched.range.start.line as nat)
        &&& range[1] == json_count(matched.range.start.character as nat)
        &&& range[2] == json_count(matched.range.end.line as nat)
        &&& range[3] == json_count(matched.range.end.character as nat)
    }
}

proof fn lemma_lists_match(matched: StructuralMatch, files: Seq<StructuralMatchedFile>)
    requires
        file_index(files, matched.path@) is Some,
    ensures
        lists_filed_match(
            inventory_match(matched, file_index(files, matched.path@)->0),
            matched,
            files,
        ),
{
    reveal_strlit("file");
    reveal_strlit("range");
    assert("file"@.len() == 4);
    assert("range"@.len() == 5);
    lemma_last_pushed();
    law_match_is_filed_under_its_path(files, matched.path@);
    let index = file_index(files, matched.path@)->0;
    let range = matched.range;
    let places = Seq::empty().push(json_count(range.start.line as nat)).push(
        json_count(range.start.character as nat),
    ).push(json_count(range.end.line as nat)).push(json_count(range.end.character as nat));
    lemma_filled_members(
        no_fields().push(("file"@, json_count(index as nat))).push(("range"@, Json::Array(places))),
    );
    assert(components(files[index].path@) == components(matched.path@));
}

proof fn lemma_source_failure(files: Seq<StructuralMatchedFile>)
    ensures
        source_failure(files) is Some <==> exists|i: int|
            0 <= i < files.len() && (#[trigger] files[i]).source_uri is Err,
    decreases files.len(),
{
    if files.len() > 0 {
        let head = files.drop_last();
        lemma_source_failure(head);
        assert forall|i: int| 0 <= i < head.len() implies #[trigger] files[i] == head[i] by {}
        if source_failure(head) is Some {
            let i = choose|i: int| 0 <= i < head.len() && (#[trigger] head[i]).source_uri is Err;
            assert(files[i].source_uri is Err);
        } else if files.last().source_uri is Err {
            assert(files[files.len() - 1].source_uri is Err);
        }
    }
}

/// A compact structural preview shows no match but says how many there are and
/// where they are listed; with a plan it gives its size, whether it can be
/// applied, and where its details are.
#[verifier::rlimit(50)]
pub proof fn law_compact_preview_links_its_parts(
    result: StructuralPreview,
    project: Seq<char>,
    matches_resource: Json,
    details_resource: Json,
)
    ensures
        ({
            let shown = Json::Object(
                by_key(compact_fields(result, project, matches_resource, details_resource)),
            );
            &&& names_search(shown, result)
            &&& member(shown, "project_id"@) == Some(Json::Text(project))
            &&& lists_texts(member(shown, "matches"@), Seq::empty())
            &&& lists_texts(member(shown, "matched_files"@), Seq::empty())
            &&& lists_texts(member(shown, "unsupported"@), Seq::empty())
            &&& member(shown, "matched_file_count"@) == Some(
                json_count(result.matched_files@.len()),
            )
            &&& member(shown, "matches_resource"@) == Some(matches_resource)
            &&& result.artifact is None ==> {
                &&& member(shown, "safe_to_apply"@) == Some(Json::Bool(false))
                &&& member(shown, "plan_id"@) is None
                &&& member(shown, "plan_details_resource"@) is None
            }
            &&& result.artifact matches Some(artifact) ==> {
                &&& member(shown, "plan_id"@) == Some(Json::Text(artifact.plan.id@))
                &&& member(shown, "safe_to_apply"@) == Some(
                    Json::Bool(artifact.plan.safe_to_apply),
                )
                &&& member(shown, "affected_file_count"@) == Some(
                    json_count(artifact.affected_files@.len()),
                )
                &&& member(shown, "operation_count"@) == Some(
                    json_count(artifact.plan.operations@.len()),
                )
                &&& member(shown, "precondition_count"@) == Some(
                    json_count(artifact.plan.files@.len()),
                )
                &&& member(shown, "diff_file_count"@) == Some(
                    json_count(artifact.plan.diff_files@.len()),
                )
                &&& member(shown, "conflict_count"@) == Some(
                    json_count(artifact.conflicts@.len()),
                )
                &&& member(shown, "unsupported_count"@) == Some(
                    json_count(artifact.unsupported@.len()),
                )
                &&& member(shown, "diff_truncated"@) == Some(
                    Json::Bool(artifact.plan.diff_truncated),
                )
                &&& member(shown, "plan_details_resource"@) == Some(details_resource)
                &&& member(shown, "verification"@) == match artifact.verification {
                    Some(VerificationStatus::SemanticVerified) => Some(
                        Json::Text("semantic_verified"@),
                    ),
                    Some(VerificationStatus::StructuralUnverified) => Some(
                        Json::Text("structural_unverified"@),
                    ),
                    None => None,
                }
                &&& member(shown, "producer"@) == match artifact.producer {
                    Some(producer) => Some(Json::Text(producer@)),
                    None => None,
                }
            }
        }),
{
    reveal_strlit("project_id");
    reveal_strlit("engine");
    reveal_strlit("dialect");
    reveal_strlit("semantic_confidence");
    reveal_strlit("parse_only");
    reveal_strlit("match_count");
    reveal_strlit("returned_match_count");
    reveal_strlit("remaining_match_count");
    reveal_strlit("matched_file_count");
    reveal_strlit("matched_files");
    reveal_strlit("matches");
    reveal_strlit("matches_resource");
    reveal_strlit("safe_to_apply");
    reveal_strlit("unsupported");
    reveal_strlit("plan_id");
    reveal_strlit("affected_file_count");
    reveal_strlit("operation_count");
    reveal_strlit("precondition_count");
    reveal_strlit("diff_file_count");
    reveal_strlit("conflict_count");
    reveal_strlit("unsupported_count");
    reveal_strlit("diff_truncated");
    reveal_strlit("plan_details_resource");
    reveal_strlit("verification");
    reveal_strlit("producer");
    assert("project_id"@.len() == 10);
    assert("engine"@.len() == 6);
    assert("dialect"@.len() == 7);
    assert("semantic_confidence"@.len() == 19);
    assert("parse_only"@.len() == 10);
    assert("match_count"@.len() == 11);
    assert("returned_match_count"@.len() == 20);
    assert("remaining_match_count"@.len() == 21);
    assert("matched_file_count"@.len() == 18);
    assert("matched_files"@.len() == 13);
    assert("matches"@.len() == 7);
    assert("matches_resource"@.len() == 16);
    assert("safe_to_apply"@.len() == 13);
    assert("unsupported"@.len() == 11);
    assert("plan_id"@.len() == 7);
    assert("affected_file_count"@.len() == 19);
    assert("operation_count"@.len() == 15);
    assert("precondition_count"@.len() == 18);
    assert("diff_file_count"@.len() == 15);
    assert("conflict_count"@.len() == 14);
    assert("unsupported_count"@.len() == 17);
    assert("diff_truncated"@.len() == 14);
    assert("plan_details_resource"@.len() == 21);
    assert("verification"@.len() == 12);
    assert("producer"@.len() == 8);
    assert("project_id"@[1] == 'r');
    assert("parse_only"@[1] == 'a');
    assert("dialect"@[0] == 'd');
    assert("matches"@[0] == 'm');
    assert("plan_id"@[0] == 'p');
    assert("semantic_confidence"@[0] == 's');
    assert("affected_file_count"@[0] == 'a');
    assert("match_count"@[0] == 'm');
    assert("unsupported"@[0] == 'u');
    assert("remaining_match_count"@[0] == 'r');
    assert("plan_details_resource"@[0] == 'p');
    assert("matched_file_count"@[0] == 'm');
    assert("precondition_count"@[0] == 'p');
    assert("matched_files"@[0] == 'm');
    assert("safe_to_apply"@[0] == 's');
    assert("operation_count"@[0] == 'o');
    assert("diff_file_count"@[0] == 'd');
    assert("conflict_count"@[0] == 'c');
    assert("diff_truncated"@[0] == 'd');
    lemma_last_pushed();
    lemma_filled_members(compact_fields(result, project, matches_resource, details_resource));
    law_texts_stay_in_place(Seq::empty());
}

/// The files of a search are those of its matches, one by one.
pub proof fn law_matched_files_are_those_of_the_matches(matches: Seq<StructuralMatch>)
    ensures
        match_paths(matches).len() == matches.len(),
        forall|i: int| 0 <= i < matches.len() ==> #[trigger] match_paths(matches)[i]
            == matches[i].path@,
{
}

/// An inventory fails for the first file without a resource, with the reason of that
/// file; where every file has one, it fails for a match that lies in no file.
pub proof fn law_inventory_fails_for_the_first_file(result: StructuralPreview)
    ensures
        inventory(result) matches Err(error) ==> {
            let files = result.matched_files@;
            &&& error.code == crate::errors::ErrorCode::InternalError
            &&& error.data is None
            &&& (forall|i: int| 0 <= i < files.len() ==> (#[trigger] files[i]).source_uri is Ok)
                ==> error.message == "structural match has no source snapshot"@
            &&& forall|i: int|
                0 <= i < files.len() && (#[trigger] files[i]).source_uri is Err && (forall|j: int|
                    0 <= j < i ==> (#[trigger] files[j]).source_uri is Ok) ==> error.message
                    == files[i].source_uri->Err_0@
        },
{
    let files = result.matched_files@;
    lemma_source_failure(files);
    assert forall|i: int|
        0 <= i < files.len() && (#[trigger] files[i]).source_uri is Err && (forall|j: int|
            0 <= j < i ==> (#[trigger] files[j]).source_uri is Ok) implies source_failure(files)
        == Some(files[i].source_uri->Err_0@) by {
        lemma_first_source_failure(files, i);
    }
}

proof fn lemma_first_source_failure(files: Seq<StructuralMatchedFile>, at: int)
    requires
        0 <= at < files.len(),
        files[at].source_uri is Err,
        forall|j: int| 0 <= j < at ==> (#[trigger] files[j]).source_uri is Ok,
    ensures
        source_failure(files) == Some(files[at].source_uri->Err_0@),
    decreases files.len(),
{
    let head = files.drop_last();
    if at < head.len() {
        assert forall|j: int| 0 <= j < at implies (#[trigger] head[j]).source_uri is Ok by {
            assert(files[j].source_uri is Ok);
        }
        lemma_first_source_failure(head, at);
    } else {
        lemma_source_failure(head);
        assert forall|j: int| 0 <= j < head.len() implies (#[trigger] head[j]).source_uri is Ok by {
            assert(files[j].source_uri is Ok);
        }
    }
}

} // verus!
