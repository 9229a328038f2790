//! Approval of mutating edits: summaries, bindings and responses.

use crate::apply::{
    any_long_text, bounded_approval_text, bounded_texts, has_long_text, inline_texts,
    MAX_APPROVAL_ITEMS, MAX_APPROVAL_TEXT_BYTES,
};
use crate::decimal::{decimal, decimal_text};
use crate::digest::{sha256_hex, sha256_text};
use crate::errors::{invalid_params, ErrorModel, McpError};
use crate::json::{
    by_key, entry, json_array, json_count, json_models, json_number, json_str, json_strings,
    json_texts, law_by_key_lookup, law_texts_stay_in_place, lemma_filled_members,
    lemma_last_pushed, lists_texts, member, no_fields, Json, JsonObject, JsonValue,
};
use crate::pages::{json_signed, signed_json};
use crate::paths::{path_texts, FilePath};
use crate::project::{PlanId, ProjectId};
use crate::session::{edit_approval_resource_uri, plan_uri, EDIT_APPROVAL_PREFIX};
use crate::text::{byte_len, concat2, concat3, same_text, shortened, texts};
use vstd::prelude::*;
use vstd::string::*;
use vstd::utf8::*;

verus! {

/// The name under which a client answers an approval request.
pub const APPROVAL_INPUT_ID: &'static str = "approval";

/// The protocol method whose state is sealed.
pub const APPROVAL_METHOD: &'static str = "tools/call";

/// A file operation of an edit plan.
#[derive(Debug, PartialEq, Eq)]
pub enum FileOperation {
    Create { path: FilePath },
    Rename { from: FilePath, to: FilePath },
    Delete { path: FilePath, recursive: bool },
}

/// The size of the change to one file.
#[derive(Debug, PartialEq, Eq)]
pub struct DiffFile {
    pub path: FilePath,
    pub additions: usize,
    pub deletions: usize,
}

/// What a client is asked to approve.
#[derive(Debug, PartialEq, Eq)]
pub struct EditPlanApprovalSummary {
    pub plan_id: PlanId,
    pub project_id: String,
    pub affected_files: Vec<FilePath>,
    pub operations: Vec<String>,
    pub file_operations: Vec<FileOperation>,
    pub diff_files: Vec<DiffFile>,
    pub diff_truncated: bool,
    pub safe_to_apply: bool,
    pub snapshot_hashes: Vec<String>,
    pub versions: Vec<Option<i32>>,
}

/// What the arguments of an apply request are digested from.
pub open spec fn digest_input(project: Seq<char>, plan: Seq<char>) -> Seq<char> {
    project + "\0"@ + plan
}

/// The digest of the arguments of an apply request.
pub fn approval_arguments_digest(project_id: &str, plan_id: &PlanId) -> (digest: String)
    ensures
        digest@ == sha256_text(digest_input(project_id@, plan_id@)),
{
    let input = concat3(project_id, "\0", plan_id.as_str());
    sha256_hex(input.as_str())
}

/// What sealed approval state is bound to.
pub open spec fn binding_text(
    session: Seq<char>,
    principal: Seq<char>,
    tool: Seq<char>,
    digest: Seq<char>,
) -> Seq<char> {
    "mcpls-mrtr-v1\0"@ + APPROVAL_METHOD@ + "\0"@ + tool + "\0"@ + session + "\0"@ + principal
        + "\0"@ + digest
}

/// The bytes that sealed approval state is bound to.
pub fn approval_binding(
    session_id: &str,
    principal: Option<&str>,
    tool_name: &str,
    arguments_digest: &str,
) -> (binding: Vec<u8>)
    ensures
        binding@ == encode_utf8(
            binding_text(
                session_id@,
                match principal {
                    Some(text) => text@,
                    None => seq![],
                },
                tool_name@,
                arguments_digest@,
            ),
        ),
{
    let head = concat3("mcpls-mrtr-v1\0", APPROVAL_METHOD, "\0");
    let tool = concat3(head.as_str(), tool_name, "\0");
    let session = concat3(tool.as_str(), session_id, "\0");
    let known = match principal {
        Some(text) => concat2(session.as_str(), text),
        None => {
            assert(session@ + seq![] =~= session@);
            session
        },
    };
    let whole = concat3(known.as_str(), "\0", arguments_digest);
    whole.as_str().as_bytes_vec()
}

proof fn lemma_field_split(a: Seq<char>, b: Seq<char>, c: Seq<char>, d: Seq<char>, mark: char)
    requires
        a + seq![mark] + b == c + seq![mark] + d,
        !a.contains(mark),
        !c.contains(mark),
    ensures
        a == c,
        b == d,
{
    let left = a + seq![mark] + b;
    let right = c + seq![mark] + d;
    assert(left[a.len() as int] == mark);
    assert(right[c.len() as int] == mark);
    if a.len() < c.len() {
        assert(right[a.len() as int] == c[a.len() as int]);
        assert(c.contains(mark));
    }
    if c.len() < a.len() {
        assert(left[c.len() as int] == a[c.len() as int]);
        assert(a.contains(mark));
    }
    assert(a =~= left.subrange(0, a.len() as int));
    assert(c =~= right.subrange(0, c.len() as int));
    assert(b =~= left.subrange(a.len() as int + 1, left.len() as int));
    assert(d =~= right.subrange(c.len() as int + 1, right.len() as int));
}

/// Different tools, sessions, principals or argument digests have different
/// bindings, as long as none of them holds the separator.
pub proof fn law_binding_is_unambiguous(
    session: Seq<char>,
    principal: Seq<char>,
    tool: Seq<char>,
    digest: Seq<char>,
    other_session: Seq<char>,
    other_principal: Seq<char>,
    other_tool: Seq<char>,
    other_digest: Seq<char>,
)
    requires
        !session.contains('\0') && !other_session.contains('\0'),
        !principal.contains('\0') && !other_principal.contains('\0'),
        !tool.contains('\0') && !other_tool.contains('\0'),
        !digest.contains('\0') && !other_digest.contains('\0'),
        binding_text(session, principal, tool, digest) == binding_text(
            other_session,
            other_principal,
            other_tool,
            other_digest,
        ),
    ensures
        session == other_session,
        principal == other_principal,
        tool == other_tool,
        digest == other_digest,
{
    let head = "mcpls-mrtr-v1\0"@ + APPROVAL_METHOD@ + "\0"@;
    let mark = '\0';
    reveal_strlit("\0");
    assert("\0"@ =~= seq![mark]);
    let a3 = principal + seq![mark] + digest;
    let b3 = other_principal + seq![mark] + other_digest;
    let a2 = session + seq![mark] + a3;
    let b2 = other_session + seq![mark] + b3;
    let a1 = tool + seq![mark] + a2;
    let b1 = other_tool + seq![mark] + b2;
    let left = binding_text(session, principal, tool, digest);
    let right = binding_text(other_session, other_principal, other_tool, other_digest);
    assert(left =~= head + a1);
    assert(right =~= head + b1);
    assert(a1 =~= left.subrange(head.len() as int, left.len() as int));
    assert(b1 =~= right.subrange(head.len() as int, right.len() as int));
    lemma_field_split(tool, a2, other_tool, b2, mark);
    lemma_field_split(session, a3, other_session, b3, mark);
    lemma_field_split(principal, digest, other_principal, other_digest, mark);
}

/// A path as it is shown inline.
pub open spec fn inline_path(path: Seq<char>) -> Seq<char> {
    shortened(path, MAX_APPROVAL_TEXT_BYTES as nat)
}

pub open spec fn first_operations(operations: Seq<FileOperation>) -> Seq<FileOperation> {
    operations.take(
        if operations.len() <= MAX_APPROVAL_ITEMS {
            operations.len() as int
        } else {
            MAX_APPROVAL_ITEMS as int
        },
    )
}

/// The created files among some operations, as they are shown inline.
pub open spec fn created_files(operations: Seq<FileOperation>) -> Seq<Seq<char>>
    decreases operations.len(),
{
    if operations.len() == 0 {
        seq![]
    } else {
        let head = created_files(operations.drop_last());
        match operations.last() {
            FileOperation::Create { path } => head.push(inline_path(path@)),
            _ => head,
        }
    }
}

/// The deleted files among some operations, as they are shown inline.
pub open spec fn deleted_files(operations: Seq<FileOperation>) -> Seq<Seq<char>>
    decreases operations.len(),
{
    if operations.len() == 0 {
        seq![]
    } else {
        let head = deleted_files(operations.drop_last());
        match operations.last() {
            FileOperation::Delete { path, .. } => head.push(inline_path(path@)),
            _ => head,
        }
    }
}

pub open spec fn rename_json(from: Seq<char>, to: Seq<char>) -> Json {
    Json::Object(
        by_key(
            no_fields().push(("from"@, Json::Text(inline_path(from)))).push(
                ("to"@, Json::Text(inline_path(to))),
            ),
        ),
    )
}

/// The renamed files among some operations, as they are shown inline.
pub open spec fn renamed_files(operations: Seq<FileOperation>) -> Seq<Json>
    decreases operations.len(),
{
    if operations.len() == 0 {
        seq![]
    } else {
        let head = renamed_files(operations.drop_last());
        match operations.last() {
            FileOperation::Rename { from, to } => head.push(rename_json(from@, to@)),
            _ => head,
        }
    }
}

/// What an approver should look at.
pub open spec fn risk_flags(summary: EditPlanApprovalSummary) -> Seq<Seq<char>> {
    let shown = first_operations(summary.file_operations@);
    let flags = Seq::<Seq<char>>::empty();
    let flags = if created_files(shown).len() > 0 {
        flags.push("creates_files"@)
    } else {
        flags
    };
    let flags = if renamed_files(shown).len() > 0 {
        flags.push("renames_files"@)
    } else {
        flags
    };
    let flags = if deleted_files(shown).len() > 0 {
        flags.push("deletes_files"@)
    } else {
        flags
    };
    let flags = if summary.diff_truncated {
        flags.push("diff_truncated"@)
    } else {
        flags
    };
    if !summary.safe_to_apply {
        flags.push("plan_not_safe_to_apply"@)
    } else {
        flags
    }
}

/// The kind of an edit: the most far-reaching of its file operations.
pub open spec fn operation_kind(summary: EditPlanApprovalSummary) -> Seq<char> {
    let shown = first_operations(summary.file_operations@);
    if deleted_files(shown).len() > 0 {
        "delete"@
    } else if renamed_files(shown).len() > 0 {
        "rename"@
    } else if created_files(shown).len() > 0 {
        "create"@
    } else {
        "text_edit"@
    }
}

pub open spec fn inline_diff_file(file: DiffFile) -> Json {
    Json::Object(
        by_key(
            no_fields().push(("path"@, Json::Text(inline_path(file.path@)))).push(
                ("additions"@, json_count(file.additions as nat)),
            ).push(("deletions"@, json_count(file.deletions as nat))),
        ),
    )
}

pub open spec fn inline_diff_files(files: Seq<DiffFile>) -> Json {
    Json::Array(
        Seq::new(
            if files.len() <= MAX_APPROVAL_ITEMS {
                files.len()
            } else {
                MAX_APPROVAL_ITEMS as nat
            },
            |i: int| inline_diff_file(files[i]),
        ),
    )
}

/// Whether the inline summary leaves something out.
pub open spec fn approval_details_truncated(summary: EditPlanApprovalSummary) -> bool {
    ||| summary.affected_files@.len() > MAX_APPROVAL_ITEMS
    ||| summary.operations@.len() > MAX_APPROVAL_ITEMS
    ||| summary.file_operations@.len() > MAX_APPROVAL_ITEMS
    ||| summary.diff_files@.len() > MAX_APPROVAL_ITEMS
    ||| has_long_text(path_texts(summary.affected_files@))
    ||| has_long_text(texts(summary.operations@))
}

/// The resource that holds all that a client is asked to approve.
pub open spec fn approval_resource(summary: EditPlanApprovalSummary) -> Json {
    Json::Object(
        by_key(
            no_fields().push(
                (
                    "uri"@,
                    Json::Text(
                        plan_uri(
                            EDIT_APPROVAL_PREFIX@,
                            summary.project_id@,
                            summary.plan_id@,
                            0,
                        ),
                    ),
                ),
            ).push(("mime_type"@, Json::Text("application/json"@))),
        ),
    )
}

/// What a client is told before it approves.
pub open spec fn approval_fields(summary: EditPlanApprovalSummary) -> Seq<(Seq<char>, Json)> {
    let shown = first_operations(summary.file_operations@);
    no_fields().push(("plan_id"@, Json::Text(summary.plan_id@))).push(
        ("project_id"@, Json::Text(summary.project_id@)),
    ).push(("operation_kind"@, Json::Text(operation_kind(summary)))).push(
        ("affected_file_count"@, json_count(summary.affected_files@.len())),
    ).push(("operation_count"@, json_count(summary.operations@.len()))).push(
        ("file_operation_count"@, json_count(summary.file_operations@.len())),
    ).push(("diff_file_count"@, json_count(summary.diff_files@.len()))).push(
        ("snapshot_count"@, json_count(summary.snapshot_hashes@.len())),
    ).push(
        (
            "affected_files"@,
            json_texts(
                inline_texts(
                    path_texts(summary.affected_files@),
                    MAX_APPROVAL_ITEMS as nat,
                ),
            ),
        ),
    ).push(("created_files"@, json_texts(created_files(shown)))).push(
        ("renamed_files"@, Json::Array(renamed_files(shown))),
    ).push(("deleted_files"@, json_texts(deleted_files(shown)))).push(
        (
            "operations"@,
            json_texts(
                inline_texts(texts(summary.operations@), MAX_APPROVAL_ITEMS as nat),
            ),
        ),
    ).push(("diff_files"@, inline_diff_files(summary.diff_files@))).push(
        ("diff_truncated"@, Json::Bool(summary.diff_truncated)),
    ).push(("safe_to_apply"@, Json::Bool(summary.safe_to_apply))).push(
        ("risk_flags"@, json_texts(risk_flags(summary))),
    ).push(("details_truncated"@, Json::Bool(approval_details_truncated(summary)))).push(
        ("detail_resource"@, approval_resource(summary)),
    )
}

/// The summary that a client sees before it approves.
pub open spec fn approval_summary(summary: EditPlanApprovalSummary) -> Json {
    Json::Object(by_key(approval_fields(summary)))
}

/// The inline lists of affected files and operations are complete unless the
/// summary says that they are not, and all file operations and changed files are
/// then listed too. A long path of a created, renamed, deleted or changed file is
/// shortened without that mark. Either way the summary counts all affected files
/// and operations, and links the complete plan.
pub proof fn law_approval_summary_is_complete_or_marked(summary: EditPlanApprovalSummary)
    ensures
        ({
            let shown = approval_summary(summary);
            let files = path_texts(summary.affected_files@);
            let operations = texts(summary.operations@);
            &&& member(shown, "affected_file_count"@) == Some(json_count(files.len()))
            &&& member(shown, "operation_count"@) == Some(json_count(operations.len()))
            &&& member(shown, "detail_resource"@) == Some(approval_resource(summary))
            &&& member(shown, "details_truncated"@) == Some(
                Json::Bool(approval_details_truncated(summary)),
            )
            &&& !approval_details_truncated(summary) ==> {
                &&& member(shown, "affected_files"@) == Some(json_texts(files))
                &&& member(shown, "operations"@) == Some(json_texts(operations))
                &&& first_operations(summary.file_operations@) == summary.file_operations@
                &&& inline_diff_files(summary.diff_files@)->Array_0.len()
                    == summary.diff_files@.len()
            }
        }),
{
    reveal_strlit("affected_file_count");
    reveal_strlit("operation_count");
    reveal_strlit("file_operation_count");
    reveal_strlit("diff_file_count");
    reveal_strlit("snapshot_count");
    reveal_strlit("affected_files");
    reveal_strlit("created_files");
    reveal_strlit("renamed_files");
    reveal_strlit("deleted_files");
    reveal_strlit("operations");
    reveal_strlit("diff_files");
    reveal_strlit("diff_truncated");
    reveal_strlit("safe_to_apply");
    reveal_strlit("risk_flags");
    reveal_strlit("details_truncated");
    reveal_strlit("detail_resource");
    let fields = approval_fields(summary);
    assert(fields.len() == 19);
    assert(fields[3].0 == "affected_file_count"@);
    assert(fields[4].0 == "operation_count"@);
    assert(fields[5].0 == "file_operation_count"@);
    assert(fields[6].0 == "diff_file_count"@);
    assert(fields[7].0 == "snapshot_count"@);
    assert(fields[8].0 == "affected_files"@);
    assert(fields[9].0 == "created_files"@);
    assert(fields[10].0 == "renamed_files"@);
    assert(fields[11].0 == "deleted_files"@);
    assert(fields[12].0 == "operations"@);
    assert(fields[13].0 == "diff_files"@);
    assert(fields[14].0 == "diff_truncated"@);
    assert(fields[15].0 == "safe_to_apply"@);
    assert(fields[16].0 == "risk_flags"@);
    assert(fields[17].0 == "details_truncated"@);
    assert(fields[18].0 == "detail_resource"@);
    assert("operation_count"@[0] == 'o');
    assert("operations"@[0] == 'o');
    assert("affected_files"@[0] == 'a');
    assert("details_truncated"@[6] == 's');
    assert("detail_resource"@[6] == '_');
    assert("detail_resource"@[0] == 'd');
    assert("diff_file_count"@[0] == 'd');
    assert("diff_truncated"@[0] == 'd');
    assert("diff_files"@[0] == 'd');
    assert("risk_flags"@[0] == 'r');
    law_by_key_lookup(fields, 3, "affected_file_count"@);
    law_by_key_lookup(fields, 4, "operation_count"@);
    law_by_key_lookup(fields, 8, "affected_files"@);
    law_by_key_lookup(fields, 12, "operations"@);
    law_by_key_lookup(fields, 17, "details_truncated"@);
    law_by_key_lookup(fields, 18, "detail_resource"@);
    if !approval_details_truncated(summary) {
        let files = path_texts(summary.affected_files@);
        let operations = texts(summary.operations@);
        assert(inline_texts(files, MAX_APPROVAL_ITEMS as nat) =~= files);
        assert(inline_texts(operations, MAX_APPROVAL_ITEMS as nat) =~= operations);
        assert(first_operations(summary.file_operations@) =~= summary.file_operations@);
    }
}

/// The texts of a list of paths.
pub fn texts_of_paths(paths: &Vec<FilePath>) -> (shown: Vec<String>)
    ensures
        texts(shown@) == path_texts(paths@),
{
    let mut shown: Vec<String> = Vec::new();
    let mut i: usize = 0;
    while i < paths.len()
        invariant
            i <= paths@.len(),
            shown@.len() == i,
            forall|j: int| 0 <= j < i ==> (#[trigger] shown@[j])@ == paths@[j]@,
        decreases paths@.len() - i,
    {
        shown.push(paths[i].text.clone());
        i = i + 1;
    }
    assert(texts(shown@) =~= path_texts(paths@));
    shown
}

fn rename_value(from: &FilePath, to: &FilePath) -> (json: JsonValue)
    ensures
        json@ == rename_json(from@, to@),
{
    let mut fields = JsonObject::new();
    fields.put("from", JsonValue::Text(bounded_approval_text(from.text.as_str())));
    fields.put("to", JsonValue::Text(bounded_approval_text(to.text.as_str())));
    fields.into_map()
}

fn inline_diff_files_value(files: &Vec<DiffFile>) -> (json: JsonValue)
    ensures
        json@ == inline_diff_files(files@),
{
    let mut values: Vec<JsonValue> = Vec::new();
    let mut i: usize = 0;
    while i < files.len() && i < MAX_APPROVAL_ITEMS
        invariant
            i <= files@.len(),
            i <= MAX_APPROVAL_ITEMS,
            values@.len() == i,
            forall|j: int| 0 <= j < i ==> (#[trigger] values@[j])@ == inline_diff_file(files@[j]),
        decreases files@.len() - i,
    {
        let mut fields = JsonObject::new();
        fields.put("path", JsonValue::Text(bounded_approval_text(files[i].path.text.as_str())));
        fields.put("additions", json_number(files[i].additions));
        fields.put("deletions", json_number(files[i].deletions));
        values.push(fields.into_map());
        i = i + 1;
    }
    let json = json_array(values);
    assert(json@->Array_0 =~= inline_diff_files(files@)->Array_0);
    json
}

/// The file operations of a summary as they are shown inline.
struct ShownOperations {
    created: Vec<String>,
    renamed: Vec<JsonValue>,
    deleted: Vec<String>,
}

fn show_operations(operations: &Vec<FileOperation>) -> (shown: ShownOperations)
    ensures
        texts(shown.created@) == created_files(first_operations(operations@)),
        json_models(shown.renamed@) == renamed_files(first_operations(operations@)),
        texts(shown.deleted@) == deleted_files(first_operations(operations@)),
{
    let ghost first = first_operations(operations@);
    let mut created: Vec<String> = Vec::new();
    let mut renamed: Vec<JsonValue> = Vec::new();
    let mut deleted: Vec<String> = Vec::new();
    let mut i: usize = 0;
    assert(first.take(0) =~= seq![]);
    assert(texts(created@) =~= seq![]);
    assert(json_models(renamed@) =~= seq![]);
    while i < operations.len() && i < MAX_APPROVAL_ITEMS
        invariant
            i <= operations@.len(),
            i <= MAX_APPROVAL_ITEMS,
            first == first_operations(operations@),
            texts(created@) == created_files(first.take(i as int)),
            json_models(renamed@) == renamed_files(first.take(i as int)),
            texts(deleted@) == deleted_files(first.take(i as int)),
        decreases operations@.len() - i,
    {
        let ghost next = first.take(i + 1);
        assert(next.drop_last() =~= first.take(i as int));
        assert(next.last() == operations@[i as int]);
        match &operations[i] {
            FileOperation::Create { path } => {
                let ghost before = texts(created@);
                created.push(bounded_approval_text(path.text.as_str()));
                assert(texts(created@) =~= before.push(inline_path(path@)));
            },
            FileOperation::Rename { from, to } => {
                let ghost before = json_models(renamed@);
                renamed.push(rename_value(from, to));
                assert(json_models(renamed@) =~= before.push(rename_json(from@, to@)));
            },
            FileOperation::Delete { path, .. } => {
                let ghost before = texts(deleted@);
                deleted.push(bounded_approval_text(path.text.as_str()));
                assert(texts(deleted@) =~= before.push(inline_path(path@)));
            },
        }
        i = i + 1;
    }
    assert(first.take(i as int) =~= first);
    ShownOperations { created, renamed, deleted }
}

fn push_flag(flags: &mut Vec<String>, flag: &str)
    ensures
        texts(final(flags)@) == texts(old(flags)@).push(flag@),
{
    flags.push(flag.to_owned());
    assert(texts(flags@) =~= texts(old(flags)@).push(flag@));
}

/// The summary that a client sees before it approves.
pub fn approval_summary_json(summary: &EditPlanApprovalSummary) -> (json: JsonValue)
    requires
        summary.project_id@.len() > 0,
    ensures
        json@ == approval_summary(*summary),
{
    let shown = show_operations(&summary.file_operations);
    let ghost first = first_operations(summary.file_operations@);
    assert(texts(shown.created@).len() == shown.created@.len());
    assert(texts(shown.deleted@).len() == shown.deleted@.len());
    assert(json_models(shown.renamed@).len() == shown.renamed@.len());
    let creates = shown.created.len() > 0;
    let renames = shown.renamed.len() > 0;
    let deletes = shown.deleted.len() > 0;
    let mut flags: Vec<String> = Vec::new();
    assert(texts(flags@) =~= Seq::<Seq<char>>::empty());
    if creates {
        push_flag(&mut flags, "creates_files");
    }
    if renames {
        push_flag(&mut flags, "renames_files");
    }
    if deletes {
        push_flag(&mut flags, "deletes_files");
    }
    if summary.diff_truncated {
        push_flag(&mut flags, "diff_truncated");
    }
    if !summary.safe_to_apply {
        push_flag(&mut flags, "plan_not_safe_to_apply");
    }
    let kind = if deletes {
        "delete"
    } else if renames {
        "rename"
    } else if creates {
        "create"
    } else {
        "text_edit"
    };
    let affected = texts_of_paths(&summary.affected_files);
    let truncated = summary.affected_files.len() > MAX_APPROVAL_ITEMS || summary.operations.len()
        > MAX_APPROVAL_ITEMS || summary.file_operations.len() > MAX_APPROVAL_ITEMS
        || summary.diff_files.len() > MAX_APPROVAL_ITEMS || any_long_text(&affected)
        || any_long_text(&summary.operations);
    let project_id = ProjectId { text: summary.project_id.clone() };
    let mut detail = JsonObject::new();
    detail.put(
        "uri",
        JsonValue::Text(edit_approval_resource_uri(&project_id, &summary.plan_id, 0)),
    );
    detail.put("mime_type", json_str("application/json"));
    let mut fields = JsonObject::new();
    fields.put("plan_id", json_str(summary.plan_id.as_str()));
    fields.put("project_id", json_str(summary.project_id.as_str()));
    fields.put("operation_kind", json_str(kind));
    fields.put("affected_file_count", json_number(summary.affected_files.len()));
    fields.put("operation_count", json_number(summary.operations.len()));
    fields.put("file_operation_count", json_number(summary.file_operations.len()));
    fields.put("diff_file_count", json_number(summary.diff_files.len()));
    fields.put("snapshot_count", json_number(summary.snapshot_hashes.len()));
    fields.put("affected_files", json_strings(&bounded_texts(&affected, MAX_APPROVAL_ITEMS)));
    fields.put("created_files", json_strings(&shown.created));
    fields.put("renamed_files", json_array(shown.renamed));
    fields.put("deleted_files", json_strings(&shown.deleted));
    fields.put("operations", json_strings(&bounded_texts(&summary.operations, MAX_APPROVAL_ITEMS)));
    fields.put("diff_files", inline_diff_files_value(&summary.diff_files));
    fields.put("diff_truncated", JsonValue::Bool(summary.diff_truncated));
    fields.put("safe_to_apply", JsonValue::Bool(summary.safe_to_apply));
    fields.put("risk_flags", json_strings(&flags));
    fields.put("details_truncated", JsonValue::Bool(truncated));
    fields.put("detail_resource", detail.into_map());
    fields.into_map()
}

pub open spec fn file_operation_json(operation: FileOperation) -> Json {
    Json::Object(
        by_key(
            match operation {
                FileOperation::Create { path } => no_fields().push(
                    ("kind"@, Json::Text("create"@)),
                ).push(("path"@, Json::Text(path@))),
                FileOperation::Rename { from, to } => no_fields().push(
                    ("kind"@, Json::Text("rename"@)),
                ).push(("from"@, Json::Text(from@))).push(("to"@, Json::Text(to@))),
                FileOperation::Delete { path, recursive } => no_fields().push(
                    ("kind"@, Json::Text("delete"@)),
                ).push(("path"@, Json::Text(path@))).push(("recursive"@, Json::Bool(recursive))),
            },
        ),
    )
}

pub open spec fn diff_file_json(file: DiffFile) -> Json {
    Json::Object(
        by_key(
            no_fields().push(("path"@, Json::Text(file.path@))).push(
                ("additions"@, json_count(file.additions as nat)),
            ).push(("deletions"@, json_count(file.deletions as nat))),
        ),
    )
}

pub open spec fn diff_files_json(files: Seq<DiffFile>) -> Json {
    Json::Array(Seq::new(files.len(), |i: int| diff_file_json(files[i])))
}

pub open spec fn version_json(version: Option<i32>) -> Json {
    match version {
        Some(version) => signed_json(version as int),
        None => Json::Null,
    }
}

/// The complete data behind an approval summary.
pub open spec fn approval_detail(summary: EditPlanApprovalSummary) -> Json {
    Json::Object(
        by_key(
            no_fields().push(("plan_id"@, Json::Text(summary.plan_id@))).push(
                ("project_id"@, Json::Text(summary.project_id@)),
            ).push(("affected_files"@, json_texts(path_texts(summary.affected_files@)))).push(
                ("operations"@, json_texts(texts(summary.operations@))),
            ).push(
                (
                    "file_operations"@,
                    Json::Array(
                        Seq::new(
                            summary.file_operations@.len(),
                            |i: int| file_operation_json(summary.file_operations@[i]),
                        ),
                    ),
                ),
            ).push(("diff_files"@, diff_files_json(summary.diff_files@))).push(
                ("diff_truncated"@, Json::Bool(summary.diff_truncated)),
            ).push(("safe_to_apply"@, Json::Bool(summary.safe_to_apply))).push(
                ("snapshot_hashes"@, json_texts(texts(summary.snapshot_hashes@))),
            ).push(
                (
                    "versions"@,
                    Json::Array(
                        Seq::new(
                            summary.versions@.len(),
                            |i: int| version_json(summary.versions@[i]),
                        ),
                    ),
                ),
            ),
        ),
    )
}

fn file_operation_value(operation: &FileOperation) -> (json: JsonValue)
    ensures
        json@ == file_operation_json(*operation),
{
    let mut fields = JsonObject::new();
    match operation {
        FileOperation::Create { path } => {
            fields.put("kind", json_str("create"));
            fields.put("path", json_str(path.text.as_str()));
        },
        FileOperation::Rename { from, to } => {
            fields.put("kind", json_str("rename"));
            fields.put("from", json_str(from.text.as_str()));
            fields.put("to", json_str(to.text.as_str()));
        },
        FileOperation::Delete { path, recursive } => {
            fields.put("kind", json_str("delete"));
            fields.put("path", json_str(path.text.as_str()));
            fields.put("recursive", JsonValue::Bool(*recursive));
        },
    }
    fields.into_map()
}

/// The changed files of a plan as JSON.
pub fn diff_files_value(files: &Vec<DiffFile>) -> (json: JsonValue)
    ensures
        json@ == diff_files_json(files@),
{
    let mut values: Vec<JsonValue> = Vec::new();
    let mut i: usize = 0;
    while i < files.len()
        invariant
            i <= files@.len(),
            values@.len() == i,
            forall|j: int| 0 <= j < i ==> (#[trigger] values@[j])@ == diff_file_json(files@[j]),
        decreases files@.len() - i,
    {
        let mut fields = JsonObject::new();
        fields.put("path", json_str(files[i].path.text.as_str()));
        fields.put("additions", json_number(files[i].additions));
        fields.put("deletions", json_number(files[i].deletions));
        values.push(fields.into_map());
        i = i + 1;
    }
    let json = json_array(values);
    assert(json@->Array_0 =~= diff_files_json(files@)->Array_0);
    json
}

/// A document version as JSON.
pub fn version_value(version: Option<i32>) -> (json: JsonValue)
    ensures
        json@ == version_json(version),
{
    match version {
        Some(version) => json_signed(version as i64),
        None => JsonValue::Null,
    }
}

/// The complete data behind an approval summary.
pub fn approval_detail_json(summary: &EditPlanApprovalSummary) -> (json: JsonValue)
    ensures
        json@ == approval_detail(*summary),
{
    let mut operations: Vec<JsonValue> = Vec::new();
    let mut i: usize = 0;
    while i < summary.file_operations.len()
        invariant
            i <= summary.file_operations@.len(),
            operations@.len() == i,
            forall|j: int|
                0 <= j < i ==> (#[trigger] operations@[j])@ == file_operation_json(
                    summary.file_operations@[j],
                ),
        decreases summary.file_operations@.len() - i,
    {
        operations.push(file_operation_value(&summary.file_operations[i]));
        i = i + 1;
    }
    assert(json_models(operations@) =~= Seq::new(
        summary.file_operations@.len(),
        |i: int| file_operation_json(summary.file_operations@[i]),
    ));
    let mut versions: Vec<JsonValue> = Vec::new();
    let mut k: usize = 0;
    while k < summary.versions.len()
        invariant
            k <= summary.versions@.len(),
            versions@.len() == k,
            forall|j: int|
                0 <= j < k ==> (#[trigger] versions@[j])@ == version_json(summary.versions@[j]),
        decreases summary.versions@.len() - k,
    {
        versions.push(version_value(summary.versions[k]));
        k = k + 1;
    }
    assert(json_models(versions@) =~= Seq::new(
        summary.versions@.len(),
        |i: int| version_json(summary.versions@[i]),
    ));
    let mut fields = JsonObject::new();
    fields.put("plan_id", json_str(summary.plan_id.as_str()));
    fields.put("project_id", json_str(summary.project_id.as_str()));
    fields.put("affected_files", json_strings(&texts_of_paths(&summary.affected_files)));
    fields.put("operations", json_strings(&summary.operations));
    fields.put("file_operations", json_array(operations));
    fields.put("diff_files", diff_files_value(&summary.diff_files));
    fields.put("diff_truncated", JsonValue::Bool(summary.diff_truncated));
    fields.put("safe_to_apply", JsonValue::Bool(summary.safe_to_apply));
    fields.put("snapshot_hashes", json_strings(&summary.snapshot_hashes));
    fields.put("versions", json_array(versions));
    fields.into_map()
}

/// A request for approval: the form to fill in, the state to send back, and
/// what is to be approved.
#[derive(Debug, PartialEq, Eq)]
pub struct InputRequired {
    pub input_id: String,
    pub message: String,
    pub requested_schema: JsonValue,
    pub request_state: String,
    pub approval_summary: JsonValue,
}

/// The schema of an approval form: one boolean, `approved`.
pub open spec fn approval_schema() -> Json {
    let approved = Json::Object(
        by_key(
            no_fields().push(("type"@, Json::Text("boolean"@))).push(
                ("description"@, Json::Text("Apply this exact previewed edit plan"@)),
            ),
        ),
    );
    Json::Object(
        by_key(
            no_fields().push(("type"@, Json::Text("object"@))).push(
                ("properties"@, Json::Object(by_key(no_fields().push(("approved"@, approved))))),
            ).push(("required"@, json_texts(Seq::<Seq<char>>::empty().push("approved"@)))).push(
                ("additionalProperties"@, Json::Bool(false)),
            ),
        ),
    )
}

pub open spec fn approval_question(summary: EditPlanApprovalSummary) -> Seq<char> {
    "Approve "@ + operation_kind(summary) + " affecting "@ + decimal(
        summary.affected_files@.len(),
    ) + " workspace file(s)?"@
}

/// Whether a request asks for approval of a plan and carries the sealed state.
pub open spec fn asks_approval(
    request: InputRequired,
    sealed: Seq<char>,
    summary: EditPlanApprovalSummary,
) -> bool {
    &&& request.input_id@ == APPROVAL_INPUT_ID@
    &&& request.message@ == approval_question(summary)
    &&& request.requested_schema@ == approval_schema()
    &&& request.request_state@ == sealed
    &&& request.approval_summary@ == approval_summary(summary)
}

fn approval_schema_value() -> (json: JsonValue)
    ensures
        json@ == approval_schema(),
{
    let mut approved = JsonObject::new();
    approved.put("type", json_str("boolean"));
    approved.put("description", json_str("Apply this exact previewed edit plan"));
    let mut properties = JsonObject::new();
    properties.put("approved", approved.into_map());
    let mut required: Vec<String> = Vec::new();
    assert(texts(required@) =~= Seq::<Seq<char>>::empty());
    push_flag(&mut required, "approved");
    let mut fields = JsonObject::new();
    fields.put("type", json_str("object"));
    fields.put("properties", properties.into_map());
    fields.put("required", json_strings(&required));
    fields.put("additionalProperties", JsonValue::Bool(false));
    fields.into_map()
}

fn kind_of(summary: &EditPlanApprovalSummary) -> (kind: &'static str)
    ensures
        kind@ == operation_kind(*summary),
{
    let shown = show_operations(&summary.file_operations);
    assert(texts(shown.created@).len() == shown.created@.len());
    assert(texts(shown.deleted@).len() == shown.deleted@.len());
    assert(json_models(shown.renamed@).len() == shown.renamed@.len());
    if shown.deleted.len() > 0 {
        "delete"
    } else if shown.renamed.len() > 0 {
        "rename"
    } else if shown.created.len() > 0 {
        "create"
    } else {
        "text_edit"
    }
}

/// The request that asks a client to approve a plan.
pub fn approval_input_required(
    sealed_state: String,
    summary: &EditPlanApprovalSummary,
) -> (request: InputRequired)
    requires
        summary.project_id@.len() > 0,
    ensures
        asks_approval(request, sealed_state@, *summary),
{
    let count = decimal_text(summary.affected_files.len() as u64);
    let kind = concat3("Approve ", kind_of(summary), " affecting ");
    InputRequired {
        input_id: APPROVAL_INPUT_ID.to_owned(),
        message: concat3(kind.as_str(), count.as_str(), " workspace file(s)?"),
        requested_schema: approval_schema_value(),
        request_state: sealed_state,
        approval_summary: approval_summary_json(summary),
    }
}

/// What a client decided.
#[derive(Clone, Copy, Debug, PartialEq, Eq, Structural)]
pub enum ApprovalDecision {
    Accept,
    Decline,
}

/// The decision in a client's responses; anything but one well-formed answer
/// under the approval name is refused.
pub open spec fn approval_decision(responses: Option<Seq<(Seq<char>, Json)>>) -> Result<
    ApprovalDecision,
    ErrorModel,
> {
    match responses {
        None => Err(invalid_params("approval response is required with requestState"@)),
        Some(responses) => if responses.len() != 1 || entry(responses, APPROVAL_INPUT_ID@) is None {
            Err(invalid_params("approval response must contain exactly one approval entry"@))
        } else {
            let response = entry(responses, APPROVAL_INPUT_ID@)->0;
            let action = member(response, "action"@);
            let approved = match member(response, "content"@) {
                Some(content) => member(content, "approved"@),
                None => None,
            };
            if action == Some(Json::Text("accept"@)) {
                if approved == Some(Json::Bool(true)) {
                    Ok(ApprovalDecision::Accept)
                } else {
                    Err(invalid_params("approval response must explicitly set approved=true"@))
                }
            } else if action == Some(Json::Text("decline"@)) || action == Some(
                Json::Text("cancel"@),
            ) {
                Ok(ApprovalDecision::Decline)
            } else {
                Err(
                    invalid_params(
                        "approval response action must be accept, decline, or cancel"@,
                    ),
                )
            }
        },
    }
}

pub open spec fn optional_responses(responses: Option<JsonObject>) -> Option<
    Seq<(Seq<char>, Json)>,
> {
    match responses {
        Some(responses) => Some(responses@),
        None => None,
    }
}

/// Reads the decision in a client's responses.
pub fn parse_approval_response(input_responses: &Option<JsonObject>) -> (decision: Result<
    ApprovalDecision,
    McpError,
>)
    ensures
        approval_decision(optional_responses(*input_responses)) == match decision {
            Ok(decision) => Ok::<ApprovalDecision, ErrorModel>(decision),
            Err(error) => Err::<ApprovalDecision, ErrorModel>(error@),
        },
{
    let responses = match input_responses {
        None => {
            return Err(McpError::invalid_params("approval response is required with requestState"));
        },
        Some(responses) => responses,
    };
    let response = match responses.get(APPROVAL_INPUT_ID) {
        Some(response) => response,
        None => {
            return Err(
                McpError::invalid_params(
                    "approval response must contain exactly one approval entry",
                ),
            );
        },
    };
    if responses.entries.len() != 1 {
        assert(responses@.len() == responses.entries@.len());
        return Err(
            McpError::invalid_params("approval response must contain exactly one approval entry"),
        );
    }
    let action = match response.get("action") {
        Some(action) => match action.as_str() {
            Some(text) => text,
            None => {
                return Err(
                    McpError::invalid_params(
                        "approval response action must be accept, decline, or cancel",
                    ),
                );
            },
        },
        None => {
            return Err(
                McpError::invalid_params(
                    "approval response action must be accept, decline, or cancel",
                ),
            );
        },
    };
    if same_text(action, "accept") {
        if let Some(content) = response.get("content") {
            if let Some(approved) = content.get("approved") {
                if let Some(true) = approved.as_bool() {
                    return Ok(ApprovalDecision::Accept);
                }
            }
        }
        return Err(
            McpError::invalid_params("approval response must explicitly set approved=true"),
        );
    }
    if same_text(action, "decline") || same_text(action, "cancel") {
        return Ok(ApprovalDecision::Decline);
    }
    Err(McpError::invalid_params("approval response action must be accept, decline, or cancel"))
}

/// Whether a value lists changed files: the path, the additions and the deletions
/// of each, in their order.
pub open spec fn lists_diff_files(value: Option<Json>, files: Seq<DiffFile>) -> bool {
    value matches Some(Json::Array(shown)) && shown.len() == files.len() && forall|i: int|
        0 <= i < files.len() ==> {
            &&& member(#[trigger] shown[i], "path"@) == Some(Json::Text(files[i].path@))
            &&& member(shown[i], "additions"@) == Some(json_count(files[i].additions as nat))
            &&& member(shown[i], "deletions"@) == Some(json_count(files[i].deletions as nat))
        }
}

/// Changed files are listed with what was added to and taken from each.
pub proof fn law_diff_files_are_listed(files: Seq<DiffFile>)
    ensures
        lists_diff_files(Some(diff_files_json(files)), files),
{
    reveal_strlit("path");
    reveal_strlit("additions");
    reveal_strlit("deletions");
    assert("path"@.len() == 4);
    assert("additions"@.len() == 9);
    assert("deletions"@.len() == 9);
    assert("additions"@[0] == 'a');
    assert("deletions"@[0] == 'd');
    lemma_last_pushed();
    let shown = diff_files_json(files)->Array_0;
    assert forall|i: int| 0 <= i < files.len() implies {
        &&& member(#[trigger] shown[i], "path"@) == Some(Json::Text(files[i].path@))
        &&& member(shown[i], "additions"@) == Some(json_count(files[i].additions as nat))
        &&& member(shown[i], "deletions"@) == Some(json_count(files[i].deletions as nat))
    } by {
        let file = files[i];
        lemma_filled_members(
            no_fields().push(("path"@, Json::Text(file.path@))).push(
                ("additions"@, json_count(file.additions as nat)),
            ).push(("deletions"@, json_count(file.deletions as nat))),
        );
    }
}

/// A plan is approved only by an explicit yes: the one entry of the answer is the
/// approval, it accepts, and its content says so. It is turned down by an entry that
/// declines or cancels. Anything else is refused.
pub proof fn law_only_an_explicit_yes_approves(responses: Seq<(Seq<char>, Json)>)
    ensures
        approval_decision(None) == Err::<ApprovalDecision, ErrorModel>(
            invalid_params("approval response is required with requestState"@),
        ),
        ({
            let decision = approval_decision(Some(responses));
            let single = responses.len() == 1 && responses[0].0 == "approval"@;
            let action = member(responses[0].1, "action"@);
            let approved = member(responses[0].1, "content"@) matches Some(content) && member(
                content,
                "approved"@,
            ) == Some(Json::Bool(true));
            &&& decision == Ok::<ApprovalDecision, ErrorModel>(ApprovalDecision::Accept) <==> {
                &&& single
                &&& action == Some(Json::Text("accept"@))
                &&& approved
            }
            &&& decision == Ok::<ApprovalDecision, ErrorModel>(ApprovalDecision::Decline) <==> {
                &&& single
                &&& (action == Some(Json::Text("decline"@)) || action == Some(
                    Json::Text("cancel"@),
                ))
            }
            &&& !single ==> decision == Err::<ApprovalDecision, ErrorModel>(
                invalid_params("approval response must contain exactly one approval entry"@),
            )
            &&& single && action == Some(Json::Text("accept"@)) && !approved ==> decision == Err::<
                ApprovalDecision,
                ErrorModel,
            >(invalid_params("approval response must explicitly set approved=true"@))
            &&& single && action != Some(Json::Text("accept"@)) && action != Some(
                Json::Text("decline"@),
            ) && action != Some(Json::Text("cancel"@)) ==> decision == Err::<
                ApprovalDecision,
                ErrorModel,
            >(invalid_params("approval response action must be accept, decline, or cancel"@))
        }),
{
    reveal_strlit("accept");
    reveal_strlit("cancel");
    reveal_strlit("decline");
    assert("accept"@.len() == 6);
    assert("cancel"@.len() == 6);
    assert("decline"@.len() == 7);
    assert("accept"@[0] == 'a');
    assert("cancel"@[0] == 'c');
    reveal_with_fuel(entry, 2);
    if responses.len() == 1 {
        assert(responses.skip(1).len() == 0);
    }
}

proof fn lemma_some_of(operations: Seq<FileOperation>)
    ensures
        created_files(operations).len() > 0 <==> exists|i: int|
            0 <= i < operations.len() && #[trigger] operations[i] is Create,
        renamed_files(operations).len() > 0 <==> exists|i: int|
            0 <= i < operations.len() && #[trigger] operations[i] is Rename,
        deleted_files(operations).len() > 0 <==> exists|i: int|
            0 <= i < operations.len() && #[trigger] operations[i] is Delete,
    decreases operations.len(),
{
    if operations.len() > 0 {
        let head = operations.drop_last();
        lemma_some_of(head);
        assert forall|i: int| 0 <= i < head.len() implies #[trigger] operations[i] == head[i] by {}
        let last = operations.len() - 1;
        assert(operations[last] == operations.last());
        if created_files(head).len() > 0 {
            let i = choose|i: int| 0 <= i < head.len() && #[trigger] head[i] is Create;
            assert(operations[i] is Create);
        }
        if renamed_files(head).len() > 0 {
            let i = choose|i: int| 0 <= i < head.len() && #[trigger] head[i] is Rename;
            assert(operations[i] is Rename);
        }
        if deleted_files(head).len() > 0 {
            let i = choose|i: int| 0 <= i < head.len() && #[trigger] head[i] is Delete;
            assert(operations[i] is Delete);
        }
        if exists|i: int| 0 <= i < operations.len() && #[trigger] operations[i] is Create {
            let i = choose|i: int| 0 <= i < operations.len() && #[trigger] operations[i] is Create;
            if i < last {
                assert(head[i] is Create);
            }
        }
        if exists|i: int| 0 <= i < operations.len() && #[trigger] operations[i] is Rename {
            let i = choose|i: int| 0 <= i < operations.len() && #[trigger] operations[i] is Rename;
            if i < last {
                assert(head[i] is Rename);
            }
        }
        if exists|i: int| 0 <= i < operations.len() && #[trigger] operations[i] is Delete {
            let i = choose|i: int| 0 <= i < operations.len() && #[trigger] operations[i] is Delete;
            if i < last {
                assert(head[i] is Delete);
            }
        }
    }
}

proof fn lemma_some_shown(operations: Seq<FileOperation>)
    ensures
        created_files(first_operations(operations)).len() > 0 <==> exists|i: int|
            0 <= i < operations.len() && i < 64 && #[trigger] operations[i] is Create,
        renamed_files(first_operations(operations)).len() > 0 <==> exists|i: int|
            0 <= i < operations.len() && i < 64 && #[trigger] operations[i] is Rename,
        deleted_files(first_operations(operations)).len() > 0 <==> exists|i: int|
            0 <= i < operations.len() && i < 64 && #[trigger] operations[i] is Delete,
{
    let shown = first_operations(operations);
    lemma_some_of(shown);
    assert forall|i: int| 0 <= i < shown.len() implies #[trigger] shown[i] == operations[i] by {}
    if exists|i: int|
        0 <= i < operations.len() && i < 64 && #[trigger] operations[i] is Create {
        let i = choose|i: int|
            0 <= i < operations.len() && i < 64 && #[trigger] operations[i] is Create;
        assert(shown[i] is Create);
    }
    if exists|i: int|
        0 <= i < operations.len() && i < 64 && #[trigger] operations[i] is Rename {
        let i = choose|i: int|
            0 <= i < operations.len() && i < 64 && #[trigger] operations[i] is Rename;
        assert(shown[i] is Rename);
    }
    if exists|i: int|
        0 <= i < operations.len() && i < 64 && #[trigger] operations[i] is Delete {
        let i = choose|i: int|
            0 <= i < operations.len() && i < 64 && #[trigger] operations[i] is Delete;
        assert(shown[i] is Delete);
    }
    if created_files(shown).len() > 0 {
        let i = choose|i: int| 0 <= i < shown.len() && #[trigger] shown[i] is Create;
        assert(operations[i] is Create);
    }
    if renamed_files(shown).len() > 0 {
        let i = choose|i: int| 0 <= i < shown.len() && #[trigger] shown[i] is Rename;
        assert(operations[i] is Rename);
    }
    if deleted_files(shown).len() > 0 {
        let i = choose|i: int| 0 <= i < shown.len() && #[trigger] shown[i] is Delete;
        assert(operations[i] is Delete);
    }
}

/// A plan is warned of for what its first sixty-four operations do to files, for a
/// diff that was cut, and for not being safe; each warning stands exactly where it
/// holds. It is named by the gravest of these operations.
pub proof fn law_approval_warns_of_what_a_plan_does(summary: EditPlanApprovalSummary)
    ensures
        ({
            let operations = summary.file_operations@;
            let creates = exists|i: int|
                0 <= i < operations.len() && i < 64 && #[trigger] operations[i] is Create;
            let renames = exists|i: int|
                0 <= i < operations.len() && i < 64 && #[trigger] operations[i] is Rename;
            let deletes = exists|i: int|
                0 <= i < operations.len() && i < 64 && #[trigger] operations[i] is Delete;
            let flags = risk_flags(summary);
            &&& flags.contains("creates_files"@) <==> creates
            &&& flags.contains("renames_files"@) <==> renames
            &&& flags.contains("deletes_files"@) <==> deletes
            &&& flags.contains("diff_truncated"@) <==> summary.diff_truncated
            &&& flags.contains("plan_not_safe_to_apply"@) <==> !summary.safe_to_apply
            &&& deletes ==> operation_kind(summary) == "delete"@
            &&& !deletes && renames ==> operation_kind(summary) == "rename"@
            &&& !deletes && !renames && creates ==> operation_kind(summary) == "create"@
            &&& !deletes && !renames && !creates ==> operation_kind(summary) == "text_edit"@
        }),
{
    reveal_strlit("creates_files");
    reveal_strlit("renames_files");
    reveal_strlit("deletes_files");
    reveal_strlit("diff_truncated");
    reveal_strlit("plan_not_safe_to_apply");
    assert("creates_files"@.len() == 13);
    assert("renames_files"@.len() == 13);
    assert("deletes_files"@.len() == 13);
    assert("diff_truncated"@.len() == 14);
    assert("plan_not_safe_to_apply"@.len() == 22);
    assert("creates_files"@[0] == 'c');
    assert("renames_files"@[0] == 'r');
    assert("deletes_files"@[0] == 'd');
    let operations = summary.file_operations@;
    let shown = first_operations(operations);
    lemma_some_shown(operations);
    let none = Seq::<Seq<char>>::empty();
    let one = if created_files(shown).len() > 0 {
        none.push("creates_files"@)
    } else {
        none
    };
    let two = if renamed_files(shown).len() > 0 {
        one.push("renames_files"@)
    } else {
        one
    };
    let three = if deleted_files(shown).len() > 0 {
        two.push("deletes_files"@)
    } else {
        two
    };
    let four = if summary.diff_truncated {
        three.push("diff_truncated"@)
    } else {
        three
    };
    lemma_flag_pushed();
    assert(!none.contains("creates_files"@) && !none.contains("renames_files"@) && !none.contains(
        "deletes_files"@,
    ) && !none.contains("diff_truncated"@) && !none.contains("plan_not_safe_to_apply"@));
    assert(four.contains("diff_truncated"@) <==> three.contains("diff_truncated"@)
        || summary.diff_truncated);
}

proof fn lemma_flag_pushed()
    ensures
        forall|flags: Seq<Seq<char>>, flag: Seq<char>, wanted: Seq<char>|
            #[trigger] flags.push(flag).contains(wanted) <==> flags.contains(wanted) || wanted
                == flag,
{
    assert forall|flags: Seq<Seq<char>>, flag: Seq<char>, wanted: Seq<char>|
        #[trigger] flags.push(flag).contains(wanted) <==> flags.contains(wanted) || wanted
            == flag by {
        let more = flags.push(flag);
        if flags.contains(wanted) {
            let i = choose|i: int| 0 <= i < flags.len() && flags[i] == wanted;
            assert(more[i] == wanted);
        }
        if wanted == flag {
            assert(more[flags.len() as int] == wanted);
        }
        if more.contains(wanted) {
            let i = choose|i: int| 0 <= i < more.len() && more[i] == wanted;
            if i < flags.len() {
                assert(flags[i] == wanted);
            }
        }
    }
}

/// The files that operations create, rename and delete are listed in order, each
/// under what is done to it.
pub proof fn law_operations_are_listed_by_kind(
    operations: Seq<FileOperation>,
    operation: FileOperation,
)
    ensures
        created_files(Seq::empty()).len() == 0,
        renamed_files(Seq::empty()).len() == 0,
        deleted_files(Seq::empty()).len() == 0,
        created_files(operations.push(operation)) == match operation {
            FileOperation::Create { path } => created_files(operations).push(
                shortened(path@, 256),
            ),
            _ => created_files(operations),
        },
        deleted_files(operations.push(operation)) == match operation {
            FileOperation::Delete { path, .. } => deleted_files(operations).push(
                shortened(path@, 256),
            ),
            _ => deleted_files(operations),
        },
        operation !is Rename ==> renamed_files(operations.push(operation)) == renamed_files(
            operations,
        ),
        operation matches FileOperation::Rename { from, to } ==> {
            let listed = renamed_files(operations.push(operation));
            &&& listed.len() == renamed_files(operations).len() + 1
            &&& listed.drop_last() == renamed_files(operations)
            &&& member(listed.last(), "from"@) == Some(Json::Text(shortened(from@, 256)))
            &&& member(listed.last(), "to"@) == Some(Json::Text(shortened(to@, 256)))
        },
        first_operations(operations).len() == (if operations.len() <= 64 {
            operations.len()
        } else {
            64
        }),
        forall|i: int|
            0 <= i < first_operations(operations).len() ==> #[trigger] first_operations(
                operations,
            )[i] == operations[i],
{
    assert(operations.push(operation).drop_last() =~= operations);
    if let FileOperation::Rename { from, to } = operation {
        reveal_strlit("from");
        reveal_strlit("to");
        assert("from"@.len() == 4);
        assert("to"@.len() == 2);
        lemma_last_pushed();
        lemma_filled_members(
            no_fields().push(("from"@, Json::Text(inline_path(from@)))).push(
                ("to"@, Json::Text(inline_path(to@))),
            ),
        );
        let listed = renamed_files(operations.push(operation));
        assert(listed.drop_last() =~= renamed_files(operations));
    }
}

/// Whether a value lists the first sixty-four texts, each cut to its first two
/// hundred and fifty-six bytes.
pub open spec fn lists_first_texts(value: Option<Json>, items: Seq<Seq<char>>) -> bool {
    value matches Some(Json::Array(shown)) && {
        &&& items.len() <= 64 ==> shown.len() == items.len()
        &&& items.len() > 64 ==> shown.len() == 64
        &&& forall|i: int|
            0 <= i < shown.len() ==> #[trigger] shown[i] == Json::Text(shortened(items[i], 256))
    }
}

/// The summary that is put before a user shows the plan: what it is, what it does,
/// how much of it there is, its first files and operations, its warnings, and where
/// the rest can be read.
#[verifier::rlimit(60)]
pub proof fn law_approval_summary_shows_the_plan(summary: EditPlanApprovalSummary)
    ensures
        ({
            let shown = approval_summary(summary);
            let first = first_operations(summary.file_operations@);
            &&& member(shown, "plan_id"@) == Some(Json::Text(summary.plan_id@))
            &&& member(shown, "project_id"@) == Some(Json::Text(summary.project_id@))
            &&& member(shown, "operation_kind"@) == Some(Json::Text(operation_kind(summary)))
            &&& member(shown, "affected_file_count"@) == Some(
                json_count(summary.affected_files@.len()),
            )
            &&& member(shown, "operation_count"@) == Some(json_count(summary.operations@.len()))
            &&& member(shown, "file_operation_count"@) == Some(
                json_count(summary.file_operations@.len()),
            )
            &&& member(shown, "diff_file_count"@) == Some(json_count(summary.diff_files@.len()))
            &&& member(shown, "snapshot_count"@) == Some(json_count(summary.snapshot_hashes@.len()))
            &&& lists_first_texts(
                member(shown, "affected_files"@),
                path_texts(summary.affected_files@),
            )
            &&& lists_first_texts(member(shown, "operations"@), texts(summary.operations@))
            &&& lists_texts(member(shown, "created_files"@), created_files(first))
            &&& member(shown, "renamed_files"@) == Some(Json::Array(renamed_files(first)))
            &&& lists_texts(member(shown, "deleted_files"@), deleted_files(first))
            &&& lists_first_diff_files(member(shown, "diff_files"@), summary.diff_files@)
            &&& member(shown, "diff_truncated"@) == Some(Json::Bool(summary.diff_truncated))
            &&& member(shown, "safe_to_apply"@) == Some(Json::Bool(summary.safe_to_apply))
            &&& lists_texts(member(shown, "risk_flags"@), risk_flags(summary))
            &&& member(shown, "detail_resource"@) matches Some(resource) && {
                &&& member(resource, "uri"@) == Some(
                    Json::Text(
                        plan_uri(
                            "mcpls-edit-approval:///"@,
                            summary.project_id@,
                            summary.plan_id@,
                            0,
                        ),
                    ),
                )
                &&& member(resource, "mime_type"@) == Some(Json::Text("application/json"@))
            }
        }),
{
    reveal_strlit("plan_id");
    reveal_strlit("project_id");
    reveal_strlit("operation_kind");
    reveal_strlit("affected_file_count");
    reveal_strlit("operation_count");
    reveal_strlit("file_operation_count");
    reveal_strlit("diff_file_count");
    reveal_strlit("snapshot_count");
    reveal_strlit("affected_files");
    reveal_strlit("created_files");
    reveal_strlit("renamed_files");
    reveal_strlit("deleted_files");
    reveal_strlit("operations");
    reveal_strlit("diff_files");
    reveal_strlit("diff_truncated");
    reveal_strlit("safe_to_apply");
    reveal_strlit("risk_flags");
    reveal_strlit("details_truncated");
    reveal_strlit("detail_resource");
    reveal_strlit("uri");
    reveal_strlit("mime_type");
    assert("plan_id"@.len() == 7);
    assert("project_id"@.len() == 10);
    assert("operation_kind"@.len() == 14);
    assert("affected_file_count"@.len() == 19);
    assert("operation_count"@.len() == 15);
    assert("file_operation_count"@.len() == 20);
    assert("diff_file_count"@.len() == 15);
    assert("snapshot_count"@.len() == 14);
    assert("affected_files"@.len() == 14);
    assert("created_files"@.len() == 13);
    assert("renamed_files"@.len() == 13);
    assert("deleted_files"@.len() == 13);
    assert("operations"@.len() == 10);
    assert("diff_files"@.len() == 10);
    assert("diff_truncated"@.len() == 14);
    assert("safe_to_apply"@.len() == 13);
    assert("risk_flags"@.len() == 10);
    assert("details_truncated"@.len() == 17);
    assert("detail_resource"@.len() == 15);
    assert("uri"@.len() == 3);
    assert("mime_type"@.len() == 9);
    assert("project_id"@[0] == 'p');
    assert("operations"@[0] == 'o');
    assert("diff_files"@[0] == 'd');
    assert("risk_flags"@[0] == 'r');
    assert("operation_kind"@[0] == 'o');
    assert("snapshot_count"@[0] == 's');
    assert("affected_files"@[0] == 'a');
    assert("diff_truncated"@[0] == 'd');
    assert("operation_count"@[1] == 'p');
    assert("diff_file_count"@[1] == 'i');
    assert("detail_resource"@[1] == 'e');
    assert("created_files"@[0] == 'c');
    assert("renamed_files"@[0] == 'r');
    assert("deleted_files"@[0] == 'd');
    assert("safe_to_apply"@[0] == 's');
    lemma_last_pushed();
    let first = first_operations(summary.file_operations@);
    lemma_filled_members(approval_fields(summary));
    lemma_filled_members(
        no_fields().push(
            (
                "uri"@,
                Json::Text(
                    plan_uri(EDIT_APPROVAL_PREFIX@, summary.project_id@, summary.plan_id@, 0),
                ),
            ),
        ).push(("mime_type"@, Json::Text("application/json"@))),
    );
    law_texts_stay_in_place(inline_texts(path_texts(summary.affected_files@), 64));
    law_texts_stay_in_place(inline_texts(texts(summary.operations@), 64));
    law_texts_stay_in_place(created_files(first));
    law_texts_stay_in_place(deleted_files(first));
    law_texts_stay_in_place(risk_flags(summary));
    lemma_first_diff_files(summary.diff_files@);
}

/// Whether a value lists the first sixty-four files of a diff, each with its path and
/// what was added and deleted.
pub open spec fn lists_first_diff_files(value: Option<Json>, files: Seq<DiffFile>) -> bool {
    value matches Some(Json::Array(shown)) && {
        &&& files.len() <= 64 ==> shown.len() == files.len()
        &&& files.len() > 64 ==> shown.len() == 64
        &&& forall|i: int|
            0 <= i < shown.len() ==> {
                &&& member(#[trigger] shown[i], "path"@) == Some(
                    Json::Text(shortened(files[i].path@, 256)),
                )
                &&& member(shown[i], "additions"@) == Some(json_count(files[i].additions as nat))
                &&& member(shown[i], "deletions"@) == Some(json_count(files[i].deletions as nat))
            }
    }
}

proof fn lemma_first_diff_files(files: Seq<DiffFile>)
    ensures
        lists_first_diff_files(Some(inline_diff_files(files)), files),
{
    reveal_strlit("path");
    reveal_strlit("additions");
    reveal_strlit("deletions");
    assert("path"@.len() == 4);
    assert("additions"@.len() == 9);
    assert("deletions"@.len() == 9);
    assert("additions"@[0] == 'a');
    assert("deletions"@[0] == 'd');
    lemma_last_pushed();
    let shown = inline_diff_files(files)->Array_0;
    assert forall|i: int| 0 <= i < shown.len() implies {
        &&& member(#[trigger] shown[i], "path"@) == Some(
            Json::Text(shortened(files[i].path@, 256)),
        )
        &&& member(shown[i], "additions"@) == Some(json_count(files[i].additions as nat))
        &&& member(shown[i], "deletions"@) == Some(json_count(files[i].deletions as nat))
    } by {
        lemma_filled_members(
            no_fields().push(("path"@, Json::Text(inline_path(files[i].path@)))).push(
                ("additions"@, json_count(files[i].additions as nat)),
            ).push(("deletions"@, json_count(files[i].deletions as nat))),
        );
    }
}

/// A summary is marked as cut exactly where there are more than sixty-four files,
/// operations or file operations, or where a path or an operation takes more than two
/// hundred and fifty-six bytes.
pub proof fn law_cut_summary_is_marked(summary: EditPlanApprovalSummary)
    ensures
        approval_details_truncated(summary) <==> {
            ||| summary.affected_files@.len() > 64
            ||| summary.operations@.len() > 64
            ||| summary.file_operations@.len() > 64
            ||| summary.diff_files@.len() > 64
            ||| exists|i: int|
                0 <= i < summary.affected_files@.len() && byte_len(
                    (#[trigger] summary.affected_files@[i])@,
                ) > 256
            ||| exists|i: int|
                0 <= i < summary.operations@.len() && byte_len(
                    (#[trigger] summary.operations@[i])@,
                ) > 256
        },
{
    let files = path_texts(summary.affected_files@);
    let operations = texts(summary.operations@);
    if has_long_text(files) {
        let i = choose|i: int| 0 <= i < files.len() && byte_len(#[trigger] files[i]) > 256;
        assert(byte_len(summary.affected_files@[i]@) > 256);
    }
    if has_long_text(operations) {
        let i = choose|i: int|
            0 <= i < operations.len() && byte_len(#[trigger] operations[i]) > 256;
        assert(byte_len(summary.operations@[i]@) > 256);
    }
    if exists|i: int|
        0 <= i < summary.affected_files@.len() && byte_len((#[trigger] summary.affected_files@[i])@)
            > 256 {
        let i = choose|i: int|
            0 <= i < summary.affected_files@.len() && byte_len(
                (#[trigger] summary.affected_files@[i])@,
            ) > 256;
        assert(byte_len(files[i]) > 256);
    }
    if exists|i: int|
        0 <= i < summary.operations@.len() && byte_len((#[trigger] summary.operations@[i])@) > 256 {
        let i = choose|i: int|
            0 <= i < summary.operations@.len() && byte_len((#[trigger] summary.operations@[i])@)
                > 256;
        assert(byte_len(operations[i]) > 256);
    }
}

/// Whether a value shows a file operation.
pub open spec fn shows_operation(value: Json, operation: FileOperation) -> bool {
    match operation {
        FileOperation::Create { path } => {
            &&& member(value, "kind"@) == Some(Json::Text("create"@))
            &&& member(value, "path"@) == Some(Json::Text(path@))
        },
        FileOperation::Rename { from, to } => {
            &&& member(value, "kind"@) == Some(Json::Text("rename"@))
            &&& member(value, "from"@) == Some(Json::Text(from@))
            &&& member(value, "to"@) == Some(Json::Text(to@))
        },
        FileOperation::Delete { path, recursive } => {
            &&& member(value, "kind"@) == Some(Json::Text("delete"@))
            &&& member(value, "path"@) == Some(Json::Text(path@))
            &&& member(value, "recursive"@) == Some(Json::Bool(recursive))
        },
    }
}

proof fn lemma_shows_operation(operation: FileOperation)
    ensures
        shows_operation(file_operation_json(operation), operation),
{
    reveal_strlit("kind");
    reveal_strlit("path");
    reveal_strlit("from");
    reveal_strlit("to");
    reveal_strlit("recursive");
    assert("kind"@.len() == 4);
    assert("path"@.len() == 4);
    assert("from"@.len() == 4);
    assert("to"@.len() == 2);
    assert("recursive"@.len() == 9);
    assert("kind"@[0] == 'k');
    assert("path"@[0] == 'p');
    assert("from"@[0] == 'f');
    lemma_last_pushed();
    match operation {
        FileOperation::Create { path } => {
            lemma_filled_members(
                no_fields().push(("kind"@, Json::Text("create"@))).push(
                    ("path"@, Json::Text(path@)),
                ),
            );
        },
        FileOperation::Rename { from, to } => {
            lemma_filled_members(
                no_fields().push(("kind"@, Json::Text("rename"@))).push(
                    ("from"@, Json::Text(from@)),
                ).push(("to"@, Json::Text(to@))),
            );
        },
        FileOperation::Delete { path, recursive } => {
            lemma_filled_members(
                no_fields().push(("kind"@, Json::Text("delete"@))).push(
                    ("path"@, Json::Text(path@)),
                ).push(("recursive"@, Json::Bool(recursive))),
            );
        },
    }
}

/// The detail of an approval gives the whole plan: every file, operation, hash and
/// version, in order and uncut.
#[verifier::rlimit(40)]
pub proof fn law_approval_detail_is_whole(summary: EditPlanApprovalSummary)
    ensures
        ({
            let shown = approval_detail(summary);
            &&& member(shown, "plan_id"@) == Some(Json::Text(summary.plan_id@))
            &&& member(shown, "project_id"@) == Some(Json::Text(summary.project_id@))
            &&& lists_texts(member(shown, "affected_files"@), path_texts(summary.affected_files@))
            &&& lists_texts(member(shown, "operations"@), texts(summary.operations@))
            &&& member(shown, "file_operations"@) matches Some(Json::Array(operations))
                && operations.len() == summary.file_operations@.len() && forall|i: int|
                0 <= i < operations.len() ==> shows_operation(
                    #[trigger] operations[i],
                    summary.file_operations@[i],
                )
            &&& lists_diff_files(member(shown, "diff_files"@), summary.diff_files@)
            &&& member(shown, "diff_truncated"@) == Some(Json::Bool(summary.diff_truncated))
            &&& member(shown, "safe_to_apply"@) == Some(Json::Bool(summary.safe_to_apply))
            &&& lists_texts(member(shown, "snapshot_hashes"@), texts(summary.snapshot_hashes@))
            &&& member(shown, "versions"@) matches Some(Json::Array(versions)) && versions.len()
                == summary.versions@.len() && forall|i: int|
                0 <= i < versions.len() ==> #[trigger] versions[i] == match summary.versions@[i] {
                    Some(version) => signed_json(version as int),
                    None => Json::Null,
                }
        }),
{
    reveal_strlit("plan_id");
    reveal_strlit("project_id");
    reveal_strlit("affected_files");
    reveal_strlit("operations");
    reveal_strlit("file_operations");
    reveal_strlit("diff_files");
    reveal_strlit("diff_truncated");
    reveal_strlit("safe_to_apply");
    reveal_strlit("snapshot_hashes");
    reveal_strlit("versions");
    assert("plan_id"@.len() == 7);
    assert("project_id"@.len() == 10);
    assert("affected_files"@.len() == 14);
    assert("operations"@.len() == 10);
    assert("file_operations"@.len() == 15);
    assert("diff_files"@.len() == 10);
    assert("diff_truncated"@.len() == 14);
    assert("safe_to_apply"@.len() == 13);
    assert("snapshot_hashes"@.len() == 15);
    assert("versions"@.len() == 8);
    assert("project_id"@[0] == 'p');
    assert("operations"@[0] == 'o');
    assert("diff_files"@[0] == 'd');
    assert("affected_files"@[0] == 'a');
    assert("diff_truncated"@[0] == 'd');
    assert("file_operations"@[0] == 'f');
    assert("snapshot_hashes"@[0] == 's');
    lemma_last_pushed();
    let operations = Json::Array(
        Seq::new(
            summary.file_operations@.len(),
            |i: int| file_operation_json(summary.file_operations@[i]),
        ),
    );
    let versions = Json::Array(
        Seq::new(summary.versions@.len(), |i: int| version_json(summary.versions@[i])),
    );
    lemma_filled_members(
        no_fields().push(("plan_id"@, Json::Text(summary.plan_id@))).push(
            ("project_id"@, Json::Text(summary.project_id@)),
        ).push(("affected_files"@, json_texts(path_texts(summary.affected_files@)))).push(
            ("operations"@, json_texts(texts(summary.operations@))),
        ).push(("file_operations"@, operations)).push(
            ("diff_files"@, diff_files_json(summary.diff_files@)),
        ).push(("diff_truncated"@, Json::Bool(summary.diff_truncated))).push(
            ("safe_to_apply"@, Json::Bool(summary.safe_to_apply)),
        ).push(("snapshot_hashes"@, json_texts(texts(summary.snapshot_hashes@)))).push(
            ("versions"@, versions),
        ),
    );
    law_texts_stay_in_place(path_texts(summary.affected_files@));
    law_texts_stay_in_place(texts(summary.operations@));
    law_texts_stay_in_place(texts(summary.snapshot_hashes@));
    law_diff_files_are_listed(summary.diff_files@);
    assert forall|i: int| 0 <= i < summary.file_operations@.len() implies shows_operation(
        #[trigger] operations->Array_0[i],
        summary.file_operations@[i],
    ) by {
        lemma_shows_operation(summary.file_operations@[i]);
    }
}

/// A user is asked for one yes or no and nothing else, and asked by what is done to
/// how many files, under the seal that belongs to the question.
pub proof fn law_user_is_asked_for_one_yes(
    request: InputRequired,
    sealed: Seq<char>,
    summary: EditPlanApprovalSummary,
)
    requires
        asks_approval(request, sealed, summary),
    ensures
        request.input_id@ == "approval"@,
        request.message@ == "Approve "@ + operation_kind(summary) + " affecting "@ + decimal(
            summary.affected_files@.len(),
        ) + " workspace file(s)?"@,
        request.request_state@ == sealed,
        request.approval_summary@ == approval_summary(summary),
        ({
            let schema = request.requested_schema@;
            &&& member(schema, "type"@) == Some(Json::Text("object"@))
            &&& member(schema, "additionalProperties"@) == Some(Json::Bool(false))
            &&& lists_texts(member(schema, "required"@), Seq::empty().push("approved"@))
            &&& member(schema, "properties"@) matches Some(properties) && (member(
                properties,
                "approved"@,
            ) matches Some(approved) && member(approved, "type"@) == Some(Json::Text("boolean"@))
                && member(approved, "description"@) == Some(
                Json::Text("Apply this exact previewed edit plan"@),
            ))
        }),
{
    reveal_strlit("type");
    reveal_strlit("description");
    reveal_strlit("approved");
    reveal_strlit("properties");
    reveal_strlit("required");
    reveal_strlit("additionalProperties");
    assert("type"@.len() == 4);
    assert("description"@.len() == 11);
    assert("approved"@.len() == 8);
    assert("properties"@.len() == 10);
    assert("required"@.len() == 8);
    assert("additionalProperties"@.len() == 20);
    assert("approved"@[0] == 'a');
    assert("required"@[0] == 'r');
    lemma_last_pushed();
    let flag = no_fields().push(("type"@, Json::Text("boolean"@))).push(
        ("description"@, Json::Text("Apply this exact previewed edit plan"@)),
    );
    let properties = no_fields().push(("approved"@, Json::Object(by_key(flag))));
    lemma_filled_members(flag);
    lemma_filled_members(properties);
    lemma_filled_members(
        no_fields().push(("type"@, Json::Text("object"@))).push(
            ("properties"@, Json::Object(by_key(properties))),
        ).push(("required"@, json_texts(Seq::<Seq<char>>::empty().push("approved"@)))).push(
            ("additionalProperties"@, Json::Bool(false)),
        ),
    );
    law_texts_stay_in_place(Seq::<Seq<char>>::empty().push("approved"@));
}

/// An approval is bound to the digest of the project and the plan, with a mark
/// between them that neither can stand for the other.
pub proof fn law_digest_parts_project_and_plan(
    project: Seq<char>,
    plan: Seq<char>,
    other_project: Seq<char>,
    other_plan: Seq<char>,
)
    requires
        !project.contains('\0'),
        !other_project.contains('\0'),
        digest_input(project, plan) == digest_input(other_project, other_plan),
    ensures
        project == other_project,
        plan == other_plan,
{
    reveal_strlit("\0");
    let text = digest_input(project, plan);
    assert(text[project.len() as int] == '\0');
    assert(text[other_project.len() as int] == '\0');
    if project.len() < other_project.len() {
        assert(text[project.len() as int] == other_project[project.len() as int]);
    } else if other_project.len() < project.len() {
        assert(text[other_project.len() as int] == project[other_project.len() as int]);
    }
    assert(project =~= text.take(project.len() as int));
    assert(other_project =~= text.take(project.len() as int));
    assert(plan =~= text.skip((project.len() + 1) as int));
    assert(other_plan =~= text.skip((project.len() + 1) as int));
}

} // verus!
