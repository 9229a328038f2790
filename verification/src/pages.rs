//! Bounded pages of large textual resources.

use crate::digest::{law_digest_text_is_short, sha256_hex, sha256_text};
use crate::errors::{internal_error, invalid_params, ErrorModel, McpError};
use crate::decimal::decimal;
use crate::json::{
    entries_text, entry, json_count, json_len, json_number, json_str, json_text, keyed,
    lemma_entry_pushed, lemma_keyed_members, lemma_last_pushed, member, no_fields, render,
    rendered_len, Json, JsonNumber, JsonObject, JsonValue, Numeral,
};
use crate::project::{PlanId, ProjectId};
use crate::session::{
    applied_edit_result_resource_uri, deferred_resource_uri, deferred_uri,
    edit_approval_resource_uri, edit_diff_resource_uri, plan_uri, DeferredResource,
    APPLIED_EDIT_RESULT_PREFIX, DEFERRED_PREFIX, EDIT_APPROVAL_PREFIX, EDIT_DIFF_PREFIX,
};
use crate::sizes::{
    lemma_ascii_len, lemma_byte_len_concat, lemma_decimal_bytes, lemma_entries_push,
    lemma_object_len, lemma_quoted_len,
};
use crate::text::{
    byte_len, byte_slice, floor_boundary, floor_char_boundary, lemma_floor_boundary, optional_text,
    slice_text, utf8_len,
};
use crate::tools::{
    DeferredResourceReference, Position, Range, SemanticResourceReadResult, SemanticSourceMetadata,
};
use vstd::prelude::*;
use vstd::string::*;
use vstd::utf8::*;

verus! {

/// The largest encoded read result.
pub const MAX_SEMANTIC_RESOURCE_RESULT_BYTES: usize = 16 * 1024;

/// The first page end that is tried, as a distance from the offset.
pub const FIRST_PAGE_BYTES: usize = 8 * 1024;

/// The model of a read result.
pub struct ReadModel {
    pub uri: Seq<char>,
    pub mime_type: Seq<char>,
    pub text: Seq<char>,
    pub source: Option<Json>,
    pub next_uri: Option<Seq<char>>,
    pub total_bytes: Option<nat>,
    pub offset_bytes: Option<nat>,
    pub returned_bytes: Option<nat>,
    pub remaining_bytes: Option<nat>,
    pub snapshot_hash: Option<Seq<char>>,
}

pub open spec fn optional_size(value: Option<usize>) -> Option<nat> {
    match value {
        Some(v) => Some(v as nat),
        None => None,
    }
}

pub open spec fn signed_json(value: int) -> Json {
    Json::Number(Numeral::Integer(value))
}

pub open spec fn position_json(position: Position) -> Json {
    Json::Object(
        no_fields().push(("line"@, json_count(position.line as nat))).push(
            ("character"@, json_count(position.character as nat)),
        ),
    )
}

pub open spec fn range_json(range: Range) -> Json {
    Json::Object(
        no_fields().push(("start"@, position_json(range.start))).push(
            ("end"@, position_json(range.end)),
        ),
    )
}

/// The fields with one more, if there is a value for it.
pub open spec fn with_some(
    fields: Seq<(Seq<char>, Json)>,
    key: Seq<char>,
    value: Option<Json>,
) -> Seq<(Seq<char>, Json)> {
    match value {
        Some(value) => fields.push((key, value)),
        None => fields,
    }
}

pub open spec fn some_text(value: Option<Seq<char>>) -> Option<Json> {
    match value {
        Some(text) => Some(Json::Text(text)),
        None => None,
    }
}

pub open spec fn some_count(value: Option<nat>) -> Option<Json> {
    match value {
        Some(count) => Some(json_count(count)),
        None => None,
    }
}

pub open spec fn some_signed(value: Option<i32>) -> Option<Json> {
    match value {
        Some(number) => Some(signed_json(number as int)),
        None => None,
    }
}

pub open spec fn deferred_reference_json(reference: DeferredResourceReference) -> Json {
    let fields = no_fields().push(("uri"@, Json::Text(reference.uri@))).push(
        ("kind"@, Json::Text(reference.kind@)),
    ).push(("snapshot_hash"@, Json::Text(reference.snapshot_hash@)));
    let fields = with_some(fields, "document_version"@, some_signed(reference.document_version));
    Json::Object(
        with_some(fields, "total_bytes"@, some_count(optional_size(reference.total_bytes))),
    )
}

pub open spec fn source_metadata_json(source: SemanticSourceMetadata) -> Json {
    let fields = no_fields().push(("path"@, Json::Text(source.path@))).push(
        ("uri"@, Json::Text(source.uri@)),
    ).push(("range"@, range_json(source.range))).push(
        ("highlighted_range"@, range_json(source.highlighted_range)),
    );
    let fields = with_some(fields, "language_id"@, some_text(optional_text(source.language_id)));
    let fields = with_some(fields, "document_version"@, some_signed(source.document_version));
    let fields = fields.push(("content_hash"@, Json::Text(source.content_hash@))).push(
        ("returned_lines"@, json_count(source.returned_lines as nat)),
    ).push(("total_lines"@, json_count(source.total_lines as nat))).push(
        ("returned_bytes"@, json_count(source.returned_bytes as nat)),
    ).push(("total_bytes"@, json_count(source.total_bytes as nat))).push(
        ("truncated"@, Json::Bool(source.truncated)),
    );
    Json::Object(
        with_some(
            fields,
            "resource"@,
            match source.resource {
                Some(resource) => Some(deferred_reference_json(resource)),
                None => None,
            },
        ),
    )
}

pub open spec fn optional_source(source: Option<SemanticSourceMetadata>) -> Option<Json> {
    match source {
        Some(source) => Some(source_metadata_json(source)),
        None => None,
    }
}

impl View for SemanticResourceReadResult {
    type V = ReadModel;

    open spec fn view(&self) -> ReadModel {
        ReadModel {
            uri: self.uri@,
            mime_type: self.mime_type@,
            text: self.text@,
            source: optional_source(self.source),
            next_uri: optional_text(self.next_uri),
            total_bytes: optional_size(self.total_bytes),
            offset_bytes: optional_size(self.offset_bytes),
            returned_bytes: optional_size(self.returned_bytes),
            remaining_bytes: optional_size(self.remaining_bytes),
            snapshot_hash: optional_text(self.snapshot_hash),
        }
    }
}

/// A read result as JSON: the fields in order, without the absent ones.
pub open spec fn read_json(result: ReadModel) -> Json {
    let fields = no_fields().push(("uri"@, Json::Text(result.uri))).push(
        ("mime_type"@, Json::Text(result.mime_type)),
    ).push(("text"@, Json::Text(result.text)));
    let fields = with_some(fields, "source"@, result.source);
    let fields = with_some(fields, "next_uri"@, some_text(result.next_uri));
    let fields = with_some(fields, "total_bytes"@, some_count(result.total_bytes));
    let fields = with_some(fields, "offset_bytes"@, some_count(result.offset_bytes));
    let fields = with_some(fields, "returned_bytes"@, some_count(result.returned_bytes));
    let fields = with_some(fields, "remaining_bytes"@, some_count(result.remaining_bytes));
    Json::Object(with_some(fields, "snapshot_hash"@, some_text(result.snapshot_hash)))
}

/// A signed number as a JSON value.
pub fn json_signed(value: i64) -> (json: JsonValue)
    ensures
        json@ == signed_json(value as int),
{
    if value >= 0 {
        JsonValue::Number(JsonNumber::Unsigned(value as u64))
    } else {
        JsonValue::Number(JsonNumber::Negative(value))
    }
}

pub fn position_value(position: &Position) -> (json: JsonValue)
    ensures
        json@ == position_json(*position),
{
    let mut fields = JsonObject::new();
    fields.put("line", json_number(position.line as usize));
    fields.put("character", json_number(position.character as usize));
    fields.into_value()
}

pub fn range_value(range: &Range) -> (json: JsonValue)
    ensures
        json@ == range_json(*range),
{
    let mut fields = JsonObject::new();
    fields.put("start", position_value(&range.start));
    fields.put("end", position_value(&range.end));
    fields.into_value()
}

/// Appends a text field if there is a text.
pub fn put_some_text(fields: &mut JsonObject, key: &str, value: &Option<String>)
    ensures
        final(fields)@ == with_some(old(fields)@, key@, some_text(optional_text(*value))),
{
    if let Some(text) = value {
        fields.put(key, json_str(text.as_str()));
    }
}

/// Appends a number field if there is a number.
pub fn put_some_size(fields: &mut JsonObject, key: &str, value: Option<usize>)
    ensures
        final(fields)@ == with_some(old(fields)@, key@, some_count(optional_size(value))),
{
    if let Some(size) = value {
        fields.put(key, json_number(size));
    }
}

/// Appends a signed number field if there is a number.
pub fn put_some_signed(fields: &mut JsonObject, key: &str, value: Option<i32>)
    ensures
        final(fields)@ == with_some(old(fields)@, key@, some_signed(value)),
{
    if let Some(number) = value {
        fields.put(key, json_signed(number as i64));
    }
}

pub fn deferred_reference_value(reference: &DeferredResourceReference) -> (json: JsonValue)
    ensures
        json@ == deferred_reference_json(*reference),
{
    let mut fields = JsonObject::new();
    fields.put("uri", json_str(reference.uri.as_str()));
    fields.put("kind", json_str(reference.kind.as_str()));
    fields.put("snapshot_hash", json_str(reference.snapshot_hash.as_str()));
    put_some_signed(&mut fields, "document_version", reference.document_version);
    put_some_size(&mut fields, "total_bytes", reference.total_bytes);
    fields.into_value()
}

fn source_metadata_value(source: &SemanticSourceMetadata) -> (json: JsonValue)
    ensures
        json@ == source_metadata_json(*source),
{
    let mut fields = JsonObject::new();
    fields.put("path", json_str(source.path.as_str()));
    fields.put("uri", json_str(source.uri.as_str()));
    fields.put("range", range_value(&source.range));
    fields.put("highlighted_range", range_value(&source.highlighted_range));
    put_some_text(&mut fields, "language_id", &source.language_id);
    put_some_signed(&mut fields, "document_version", source.document_version);
    fields.put("content_hash", json_str(source.content_hash.as_str()));
    fields.put("returned_lines", json_number(source.returned_lines));
    fields.put("total_lines", json_number(source.total_lines));
    fields.put("returned_bytes", json_number(source.returned_bytes));
    fields.put("total_bytes", json_number(source.total_bytes));
    fields.put("truncated", JsonValue::Bool(source.truncated));
    if let Some(resource) = &source.resource {
        fields.put("resource", deferred_reference_value(resource));
    }
    fields.into_value()
}

/// A read result as JSON.
pub fn read_result_value(result: &SemanticResourceReadResult) -> (json: JsonValue)
    ensures
        json@ == read_json(result@),
{
    let mut fields = JsonObject::new();
    fields.put("uri", json_str(result.uri.as_str()));
    fields.put("mime_type", json_str(result.mime_type.as_str()));
    fields.put("text", json_str(result.text.as_str()));
    if let Some(source) = &result.source {
        fields.put("source", source_metadata_value(source));
    }
    put_some_text(&mut fields, "next_uri", &result.next_uri);
    put_some_size(&mut fields, "total_bytes", result.total_bytes);
    put_some_size(&mut fields, "offset_bytes", result.offset_bytes);
    put_some_size(&mut fields, "returned_bytes", result.returned_bytes);
    put_some_size(&mut fields, "remaining_bytes", result.remaining_bytes);
    put_some_text(&mut fields, "snapshot_hash", &result.snapshot_hash);
    fields.into_value()
}

/// What the pages of one resource have in common.
pub enum PageKind {
    Deferred { uri: String, token: String },
    EditDiff { project_id: ProjectId, plan_id: PlanId },
    AppliedEditResult { project_id: ProjectId, plan_id: PlanId },
    EditApproval { project_id: ProjectId, plan_id: PlanId },
}

/// The model of a page kind.
pub enum PageKindModel {
    Deferred { uri: Seq<char>, token: Seq<char> },
    EditDiff { project: Seq<char>, plan: Seq<char> },
    AppliedEditResult { project: Seq<char>, plan: Seq<char> },
    EditApproval { project: Seq<char>, plan: Seq<char> },
}

impl View for PageKind {
    type V = PageKindModel;

    open spec fn view(&self) -> PageKindModel {
        match self {
            PageKind::Deferred { uri, token } => PageKindModel::Deferred {
                uri: uri@,
                token: token@,
            },
            PageKind::EditDiff { project_id, plan_id } => PageKindModel::EditDiff {
                project: project_id@,
                plan: plan_id@,
            },
            PageKind::AppliedEditResult { project_id, plan_id } => {
                PageKindModel::AppliedEditResult { project: project_id@, plan: plan_id@ }
            },
            PageKind::EditApproval { project_id, plan_id } => {
                PageKindModel::EditApproval { project: project_id@, plan: plan_id@ }
            },
        }
    }
}

/// The URI of the page that starts at `offset` when it is read from there.
pub open spec fn page_uri(kind: PageKindModel, offset: nat) -> Seq<char> {
    match kind {
        PageKindModel::Deferred { uri, .. } => uri,
        PageKindModel::EditDiff { project, plan } => plan_uri(
            EDIT_DIFF_PREFIX@,
            project,
            plan,
            offset,
        ),
        PageKindModel::AppliedEditResult { project, plan } => plan_uri(
            APPLIED_EDIT_RESULT_PREFIX@,
            project,
            plan,
            offset,
        ),
        PageKindModel::EditApproval { project, plan } => plan_uri(
            EDIT_APPROVAL_PREFIX@,
            project,
            plan,
            offset,
        ),
    }
}

/// The URI of the page that continues at `offset`.
pub open spec fn continuation_uri(kind: PageKindModel, offset: nat) -> Seq<char> {
    match kind {
        PageKindModel::Deferred { token, .. } => deferred_uri(token, offset),
        _ => page_uri(kind, offset),
    }
}

pub open spec fn page_mime_type(kind: PageKindModel) -> Seq<char> {
    match kind {
        PageKindModel::EditDiff { .. } => "text/x-diff"@,
        _ => "application/json"@,
    }
}

pub open spec fn invalid_offset_text(kind: PageKindModel) -> Seq<char> {
    match kind {
        PageKindModel::Deferred { .. } => {
            "invalid deferred resource offset; restart from the original URI"@
        },
        PageKindModel::EditDiff { .. } => {
            "invalid edit diff offset; restart from the original URI"@
        },
        PageKindModel::AppliedEditResult { .. } | PageKindModel::EditApproval { .. } => {
            "invalid applied edit result offset; restart from the original URI"@
        },
    }
}

pub open spec fn over_budget_text(kind: PageKindModel) -> Seq<char> {
    match kind {
        PageKindModel::Deferred { .. } => "deferred resource metadata exceeds the response budget"@,
        PageKindModel::EditDiff { .. } => "edit diff resource metadata exceeds the response budget"@,
        PageKindModel::AppliedEditResult { .. } | PageKindModel::EditApproval { .. } => {
            "applied edit result resource metadata exceeds the response budget"@
        },
    }
}

/// The page of `content` between two byte offsets.
pub open spec fn page_between(
    kind: PageKindModel,
    hash: Seq<char>,
    content: Seq<char>,
    offset: int,
    end: int,
) -> ReadModel {
    let total = byte_len(content);
    ReadModel {
        uri: page_uri(kind, offset as nat),
        mime_type: page_mime_type(kind),
        text: byte_slice(content, offset, end),
        source: None,
        next_uri: if end < total {
            Some(continuation_uri(kind, end as nat))
        } else {
            None
        },
        total_bytes: Some(total),
        offset_bytes: Some(offset as nat),
        returned_bytes: Some((end - offset) as nat),
        remaining_bytes: Some((total - end) as nat),
        snapshot_hash: Some(hash),
    }
}

pub open spec fn fits(page: ReadModel) -> bool {
    json_len(read_json(page)) <= MAX_SEMANTIC_RESOURCE_RESULT_BYTES
}

/// The end of the page from `offset` on when pages up to `end` may be given:
/// the distance is halved, down to a character boundary, until the page fits.
pub open spec fn fitting_end(
    kind: PageKindModel,
    hash: Seq<char>,
    content: Seq<char>,
    offset: int,
    end: int,
) -> Option<int>
    decreases end - offset,
{
    let half = offset + (end - offset) / 2;
    let next = floor_boundary(encode_utf8(content), half);
    if fits(page_between(kind, hash, content, offset, end)) {
        Some(end)
    } else if half <= offset || !(offset <= next <= half < end) {
        None
    } else {
        fitting_end(kind, hash, content, offset, next)
    }
}

/// The first page end that is tried.
pub open spec fn first_end(content: Seq<char>, offset: int) -> int {
    let total = byte_len(content) as int;
    floor_boundary(
        encode_utf8(content),
        if offset + FIRST_PAGE_BYTES <= total {
            offset + FIRST_PAGE_BYTES
        } else {
            total
        },
    )
}

/// Whether a page can start at `offset`.
pub open spec fn is_page_offset(content: Seq<char>, offset: int) -> bool {
    0 <= offset <= byte_len(content) && is_char_boundary(encode_utf8(content), offset)
}

/// The page of `content` that starts at `offset`.
pub open spec fn bounded_page(
    kind: PageKindModel,
    hash: Seq<char>,
    content: Seq<char>,
    offset: int,
) -> Result<ReadModel, ErrorModel> {
    if !is_page_offset(content, offset) {
        Err(invalid_params(invalid_offset_text(kind)))
    } else {
        match fitting_end(kind, hash, content, offset, first_end(content, offset)) {
            Some(end) => Ok(page_between(kind, hash, content, offset, end)),
            None => Err(internal_error(over_budget_text(kind))),
        }
    }
}

/// Whether a page answer is the modelled one.
pub open spec fn is_answer(
    answer: Result<SemanticResourceReadResult, McpError>,
    model: Result<ReadModel, ErrorModel>,
) -> bool {
    match answer {
        Ok(page) => model == Ok::<ReadModel, ErrorModel>(page@),
        Err(error) => model == Err::<ReadModel, ErrorModel>(error@),
    }
}

impl PageKind {
    fn uri(&self, offset: usize) -> (uri: String)
        ensures
            uri@ == page_uri(self@, offset as nat),
    {
        match self {
            PageKind::Deferred { uri, .. } => uri.clone(),
            PageKind::EditDiff { project_id, plan_id } => edit_diff_resource_uri(
                project_id,
                plan_id,
                offset,
            ),
            PageKind::AppliedEditResult { project_id, plan_id } => {
                applied_edit_result_resource_uri(project_id, plan_id, offset)
            },
            PageKind::EditApproval { project_id, plan_id } => edit_approval_resource_uri(
                project_id,
                plan_id,
                offset,
            ),
        }
    }

    fn continuation(&self, offset: usize) -> (uri: String)
        ensures
            uri@ == continuation_uri(self@, offset as nat),
    {
        match self {
            PageKind::Deferred { token, .. } => deferred_resource_uri(token.as_str(), offset),
            _ => self.uri(offset),
        }
    }

    fn mime_type(&self) -> (mime_type: &'static str)
        ensures
            mime_type@ == page_mime_type(self@),
    {
        match self {
            PageKind::EditDiff { .. } => "text/x-diff",
            _ => "application/json",
        }
    }

    fn invalid_offset(&self) -> (error: McpError)
        ensures
            error@ == invalid_params(invalid_offset_text(self@)),
    {
        McpError::invalid_params(
            match self {
                PageKind::Deferred { .. } => {
                    "invalid deferred resource offset; restart from the original URI"
                },
                PageKind::EditDiff { .. } => {
                    "invalid edit diff offset; restart from the original URI"
                },
                PageKind::AppliedEditResult { .. } | PageKind::EditApproval { .. } => {
                    "invalid applied edit result offset; restart from the original URI"
                },
            },
        )
    }

    fn over_budget(&self) -> (error: McpError)
        ensures
            error@ == internal_error(over_budget_text(self@)),
    {
        McpError::internal_error(
            match self {
                PageKind::Deferred { .. } => {
                    "deferred resource metadata exceeds the response budget"
                },
                PageKind::EditDiff { .. } => {
                    "edit diff resource metadata exceeds the response budget"
                },
                PageKind::AppliedEditResult { .. } | PageKind::EditApproval { .. } => {
                    "applied edit result resource metadata exceeds the response budget"
                },
            },
        )
    }

    fn between(&self, hash: &str, content: &str, offset: usize, end: usize) -> (page:
        SemanticResourceReadResult)
        requires
            offset <= end <= byte_len(content@),
            is_char_boundary(encode_utf8(content@), offset as int),
            is_char_boundary(encode_utf8(content@), end as int),
        ensures
            page@ == page_between(self@, hash@, content@, offset as int, end as int),
    {
        let total = utf8_len(content);
        let next_uri = if end < total {
            Some(self.continuation(end))
        } else {
            None
        };
        SemanticResourceReadResult {
            uri: self.uri(offset),
            mime_type: self.mime_type().to_owned(),
            text: slice_text(content, offset, end),
            source: None,
            next_uri,
            total_bytes: Some(total),
            offset_bytes: Some(offset),
            returned_bytes: Some(end - offset),
            remaining_bytes: Some(total - end),
            snapshot_hash: Some(hash.to_owned()),
        }
    }

    /// The page of `content` that starts at `offset`.
    pub fn page(&self, hash: &str, content: &str, offset: usize) -> (answer: Result<
        SemanticResourceReadResult,
        McpError,
    >)
        ensures
            is_answer(answer, bounded_page(self@, hash@, content@, offset as int)),
            answer matches Ok(page) ==> fits(page@),
    {
        let total = utf8_len(content);
        let ghost bytes = encode_utf8(content@);
        proof {
            encode_utf8_valid_utf8(content@);
        }
        if offset > total || !content.is_char_boundary(offset) {
            return Err(self.invalid_offset());
        }
        let reach: usize = if total - offset >= FIRST_PAGE_BYTES {
            offset + FIRST_PAGE_BYTES
        } else {
            total
        };
        let mut end: usize = floor_char_boundary(content, reach);
        proof {
            lemma_floor_boundary(bytes, reach as int);
            assert(offset <= end);
        }
        loop
            invariant
                bytes == encode_utf8(content@),
                valid_utf8(bytes),
                offset <= end <= total,
                total == byte_len(content@),
                is_char_boundary(bytes, offset as int),
                is_char_boundary(bytes, end as int),
                bounded_page(self@, hash@, content@, offset as int) == match fitting_end(
                    self@,
                    hash@,
                    content@,
                    offset as int,
                    end as int,
                ) {
                    Some(e) => Ok::<ReadModel, ErrorModel>(
                        page_between(self@, hash@, content@, offset as int, e),
                    ),
                    None => Err::<ReadModel, ErrorModel>(internal_error(over_budget_text(self@))),
                },
            decreases end - offset,
        {
            let page = self.between(hash, content, offset, end);
            let encoded = read_result_value(&page);
            if rendered_len(&encoded) <= MAX_SEMANTIC_RESOURCE_RESULT_BYTES {
                return Ok(page);
            }
            let half: usize = offset + (end - offset) / 2;
            if half == offset {
                return Err(self.over_budget());
            }
            proof {
                lemma_floor_boundary(bytes, half as int);
            }
            end = floor_char_boundary(content, half);
            assert(offset <= end);
        }
    }
}

/// The page of a deferred payload.
pub fn deferred_resource_page(
    deferred: &DeferredResource,
    uri: &str,
    value: &JsonValue,
    snapshot_hash: &str,
) -> (answer: Result<SemanticResourceReadResult, McpError>)
    ensures
        is_answer(
            answer,
            bounded_page(
                PageKindModel::Deferred { uri: uri@, token: deferred.token@ },
                snapshot_hash@,
                json_text(value@),
                deferred.offset_bytes as int,
            ),
        ),
        answer matches Ok(page) ==> fits(page@),
{
    let kind = PageKind::Deferred { uri: uri.to_owned(), token: deferred.token.clone() };
    let content = render(value);
    kind.page(snapshot_hash, content.as_str(), deferred.offset_bytes)
}

/// The page of a previewed diff.
pub fn edit_diff_resource_page(
    project_id: &ProjectId,
    plan_id: &PlanId,
    offset_bytes: usize,
    diff: &str,
) -> (answer: Result<SemanticResourceReadResult, McpError>)
    ensures
        is_answer(
            answer,
            bounded_page(
                PageKindModel::EditDiff { project: project_id@, plan: plan_id@ },
                sha256_text(diff@),
                diff@,
                offset_bytes as int,
            ),
        ),
        answer matches Ok(page) ==> fits(page@),
{
    let kind = PageKind::EditDiff { project_id: project_id.clone(), plan_id: plan_id.clone() };
    let hash = sha256_hex(diff);
    kind.page(hash.as_str(), diff, offset_bytes)
}

/// The page of an applied edit receipt.
pub fn applied_edit_result_resource_page(
    project_id: &ProjectId,
    plan_id: &PlanId,
    offset_bytes: usize,
    detail: &str,
) -> (answer: Result<SemanticResourceReadResult, McpError>)
    ensures
        is_answer(
            answer,
            bounded_page(
                PageKindModel::AppliedEditResult { project: project_id@, plan: plan_id@ },
                sha256_text(detail@),
                detail@,
                offset_bytes as int,
            ),
        ),
        answer matches Ok(page) ==> fits(page@),
{
    let kind = PageKind::AppliedEditResult {
        project_id: project_id.clone(),
        plan_id: plan_id.clone(),
    };
    let hash = sha256_hex(detail);
    kind.page(hash.as_str(), detail, offset_bytes)
}

/// The page of an approval summary that starts at `offset`.
pub open spec fn approval_page(
    project: Seq<char>,
    plan: Seq<char>,
    detail: Seq<char>,
    offset: int,
) -> Result<ReadModel, ErrorModel> {
    bounded_page(
        PageKindModel::EditApproval { project, plan },
        sha256_text(detail),
        detail,
        offset,
    )
}

/// The page of an approval summary.
pub fn edit_approval_resource_page(
    project_id: &ProjectId,
    plan_id: &PlanId,
    offset_bytes: usize,
    detail: &str,
) -> (answer: Result<SemanticResourceReadResult, McpError>)
    ensures
        is_answer(answer, approval_page(project_id@, plan_id@, detail@, offset_bytes as int)),
        answer matches Ok(page) ==> fits(page@),
{
    let kind = PageKind::EditApproval {
        project_id: project_id.clone(),
        plan_id: plan_id.clone(),
    };
    let hash = sha256_hex(detail);
    kind.page(hash.as_str(), detail, offset_bytes)
}

proof fn lemma_fitting_end(
    kind: PageKindModel,
    hash: Seq<char>,
    content: Seq<char>,
    offset: int,
    end: int,
)
    requires
        is_page_offset(content, offset),
        is_page_offset(content, end),
        offset <= end,
    ensures
        match fitting_end(kind, hash, content, offset, end) {
            Some(e) => {
                &&& offset <= e <= end
                &&& is_page_offset(content, e)
                &&& fits(page_between(kind, hash, content, offset, e))
                &&& e == offset && end > offset ==> exists|short: int|
                    offset < short <= offset + 7 && is_page_offset(content, short)
                        && !#[trigger] fits(page_between(kind, hash, content, offset, short))
            },
            None => exists|short: int|
                offset <= short <= offset + 1 && is_page_offset(content, short) && !#[trigger] fits(
                    page_between(kind, hash, content, offset, short),
                ),
        },
    decreases end - offset,
{
    let bytes = encode_utf8(content);
    encode_utf8_valid_utf8(content);
    if !fits(page_between(kind, hash, content, offset, end)) {
        let half = offset + (end - offset) / 2;
        lemma_floor_boundary(bytes, half);
        let next = floor_boundary(bytes, half);
        if half > offset {
            assert(offset <= next);
            lemma_fitting_end(kind, hash, content, offset, next);
            if next == offset {
                lemma_first_char_is_short(content, offset, half);
            }
        } else {
            assert(end <= offset + 1);
        }
    }
}

/// A run of bytes inside one character is at most three bytes long.
proof fn lemma_first_char_is_short(content: Seq<char>, offset: int, reach: int)
    requires
        is_page_offset(content, offset),
        offset < reach <= byte_len(content),
        floor_boundary(encode_utf8(content), reach) == offset,
    ensures
        reach <= offset + 3,
{
    let bytes = encode_utf8(content);
    encode_utf8_valid_utf8(content);
    lemma_floor_boundary(bytes, reach);
    valid_utf8_split(bytes, offset);
    let rest = bytes.subrange(offset, bytes.len() as int);
    assert(valid_utf8(rest));
    let width = length_of_first_scalar(rest);
    assert(1 <= width <= 4);
    assert(width <= rest.len());
    if reach > offset + 3 {
        let after = offset + width;
        assert(is_char_boundary(bytes, after)) by {
            let tail = pop_first_scalar(rest);
            assert(valid_utf8(tail));
            if after < bytes.len() {
                assert(tail.len() > 0);
                assert(tail[0] == bytes[after]);
                is_char_boundary_iff_not_is_continuation_byte(bytes, after);
            } else {
                is_char_boundary_start_end_of_seq(bytes);
            }
        }
        assert(after <= reach);
    }
}

proof fn lemma_first_end(content: Seq<char>, offset: int)
    requires
        is_page_offset(content, offset),
    ensures
        offset <= first_end(content, offset) <= byte_len(content),
        is_page_offset(content, first_end(content, offset)),
        offset < byte_len(content) ==> offset < first_end(content, offset),
{
    let bytes = encode_utf8(content);
    let total = byte_len(content) as int;
    let reach = if offset + FIRST_PAGE_BYTES <= total {
        offset + FIRST_PAGE_BYTES
    } else {
        total
    };
    encode_utf8_valid_utf8(content);
    lemma_floor_boundary(bytes, reach);
    if offset < total && first_end(content, offset) == offset {
        lemma_first_char_is_short(content, offset, reach);
        is_char_boundary_start_end_of_seq(bytes);
        assert(reach == total);
        assert(is_char_boundary(bytes, reach));
    }
}

/// The bytes that a page returned.
pub open spec fn returned(page: ReadModel) -> int {
    match page.returned_bytes {
        Some(count) => count as int,
        None => 0,
    }
}

/// Every page fits the response budget.
pub proof fn law_page_is_bounded(
    kind: PageKindModel,
    hash: Seq<char>,
    content: Seq<char>,
    offset: int,
)
    ensures
        bounded_page(kind, hash, content, offset) matches Ok(page) ==> json_len(read_json(page))
            <= MAX_SEMANTIC_RESOURCE_RESULT_BYTES,
{
    if is_page_offset(content, offset) {
        lemma_first_end(content, offset);
        lemma_fitting_end(kind, hash, content, offset, first_end(content, offset));
    }
}

/// A page holds exactly the bytes from its offset on that it says it returns,
/// accounts for the rest, and points at the next byte if there is one.
pub proof fn law_page_is_a_slice(
    kind: PageKindModel,
    hash: Seq<char>,
    content: Seq<char>,
    offset: int,
)
    ensures
        bounded_page(kind, hash, content, offset) matches Ok(page) ==> {
            let next = offset + returned(page);
            &&& page.offset_bytes == Some(offset as nat)
            &&& page.total_bytes == Some(byte_len(content))
            &&& offset <= next <= byte_len(content)
            &&& is_page_offset(content, next)
            &&& encode_utf8(page.text) == encode_utf8(content).subrange(offset, next)
            &&& page.remaining_bytes == Some((byte_len(content) - next) as nat)
            &&& page.next_uri == if next < byte_len(content) {
                Some(continuation_uri(kind, next as nat))
            } else {
                None
            }
        },
{
    if is_page_offset(content, offset) {
        lemma_first_end(content, offset);
        let first = first_end(content, offset);
        lemma_fitting_end(kind, hash, content, offset, first);
        match fitting_end(kind, hash, content, offset, first) {
            Some(end) => {
                lemma_slice_bytes(content, offset, end);
            },
            None => {},
        }
    }
}

proof fn lemma_slice_bytes(content: Seq<char>, from: int, to: int)
    requires
        is_page_offset(content, from),
        is_page_offset(content, to),
        from <= to,
    ensures
        encode_utf8(byte_slice(content, from, to)) == encode_utf8(content).subrange(from, to),
{
    let bytes = encode_utf8(content);
    encode_utf8_valid_utf8(content);
    crate::text::lemma_boundary_in_prefix(bytes, from, to);
    let head = bytes.subrange(0, to);
    valid_utf8_split(head, from);
    assert(head.subrange(from, to) =~= bytes.subrange(from, to));
    decode_utf8_encode_utf8(bytes.subrange(from, to));
}

/// An empty page before the end of the content comes only where a page of at
/// most seven bytes would exceed the budget.
pub proof fn law_page_advances(
    kind: PageKindModel,
    hash: Seq<char>,
    content: Seq<char>,
    offset: int,
)
    ensures
        bounded_page(kind, hash, content, offset) matches Ok(page) && returned(page) == 0 && offset
            < byte_len(content) ==> exists|short: int|
            offset < short <= offset + 7 && is_page_offset(content, short) && !#[trigger] fits(
                page_between(kind, hash, content, offset, short),
            ),
{
    if is_page_offset(content, offset) {
        lemma_first_end(content, offset);
        lemma_fitting_end(kind, hash, content, offset, first_end(content, offset));
    }
}

/// A page from a valid offset is refused only where a page of at most one byte
/// would exceed the budget.
pub proof fn law_page_is_given(
    kind: PageKindModel,
    hash: Seq<char>,
    content: Seq<char>,
    offset: int,
)
    requires
        is_page_offset(content, offset),
    ensures
        bounded_page(kind, hash, content, offset) is Err ==> exists|short: int|
            offset <= short <= offset + 1 && is_page_offset(content, short) && !#[trigger] fits(
                page_between(kind, hash, content, offset, short),
            ),
{
    lemma_first_end(content, offset);
    lemma_fitting_end(kind, hash, content, offset, first_end(content, offset));
}

/// The kind of the page that a continuation URI asks for.
pub open spec fn continued(kind: PageKindModel, offset: nat) -> PageKindModel {
    match kind {
        PageKindModel::Deferred { token, .. } => PageKindModel::Deferred {
            uri: deferred_uri(token, offset),
            token,
        },
        _ => kind,
    }
}

/// The bytes collected by following the continuations from `offset` until none
/// is left; nothing if a page is refused or returns no bytes.
pub open spec fn read_through(
    kind: PageKindModel,
    hash: Seq<char>,
    content: Seq<char>,
    offset: int,
) -> Option<Seq<u8>>
    decreases byte_len(content) - offset,
{
    match bounded_page(kind, hash, content, offset) {
        Err(_) => None,
        Ok(page) => {
            let next = offset + returned(page);
            match page.next_uri {
                None => Some(encode_utf8(page.text)),
                Some(_) => if offset < next <= byte_len(content) {
                    match read_through(continued(kind, next as nat), hash, content, next) {
                        Some(rest) => Some(encode_utf8(page.text) + rest),
                        None => None,
                    }
                } else {
                    None
                },
            }
        },
    }
}

/// Following the continuations loses nothing and repeats nothing: what is read
/// from an offset on is the content from there to its end.
pub proof fn law_pages_are_lossless(
    kind: PageKindModel,
    hash: Seq<char>,
    content: Seq<char>,
    offset: int,
)
    requires
        0 <= offset <= byte_len(content),
    ensures
        read_through(kind, hash, content, offset) matches Some(bytes) ==> bytes == encode_utf8(
            content,
        ).subrange(offset, byte_len(content) as int),
    decreases byte_len(content) - offset,
{
    law_page_is_a_slice(kind, hash, content, offset);
    let bytes = encode_utf8(content);
    match bounded_page(kind, hash, content, offset) {
        Err(_) => {},
        Ok(page) => {
            let next = offset + returned(page);
            if page.next_uri is Some && offset < next {
                law_pages_are_lossless(continued(kind, next as nat), hash, content, next);
                assert(bytes.subrange(offset, next) + bytes.subrange(next, bytes.len() as int)
                    =~= bytes.subrange(offset, bytes.len() as int));
            }
        },
    }
}

proof fn lemma_text_field(entries: Seq<(Seq<char>, Json)>, key: Seq<char>, value: Seq<char>)
    ensures
        byte_len(entries_text(entries.push((key, Json::Text(value))))) <= byte_len(
            entries_text(entries),
        ) + 6 * byte_len(key) + 6 * byte_len(value) + 6,
{
    lemma_entries_push(entries, key, Json::Text(value));
    lemma_quoted_len(key);
    lemma_quoted_len(value);
}

proof fn lemma_count_field(entries: Seq<(Seq<char>, Json)>, key: Seq<char>, value: nat)
    requires
        value <= u64::MAX,
    ensures
        byte_len(entries_text(entries.push((key, json_count(value))))) <= byte_len(
            entries_text(entries),
        ) + 6 * byte_len(key) + 24,
{
    lemma_entries_push(entries, key, json_count(value));
    lemma_quoted_len(key);
    lemma_decimal_bytes(value);
}

proof fn lemma_key_sizes()
    ensures
        byte_len("uri"@) == 3,
        byte_len("mime_type"@) == 9,
        byte_len("text"@) == 4,
        byte_len("next_uri"@) == 8,
        byte_len("total_bytes"@) == 11,
        byte_len("offset_bytes"@) == 12,
        byte_len("returned_bytes"@) == 14,
        byte_len("remaining_bytes"@) == 15,
        byte_len("snapshot_hash"@) == 13,
        byte_len("application/json"@) == 16,
        byte_len("text/x-diff"@) == 11,
{
    reveal_strlit("uri");
    reveal_strlit("mime_type");
    reveal_strlit("text");
    reveal_strlit("next_uri");
    reveal_strlit("total_bytes");
    reveal_strlit("offset_bytes");
    reveal_strlit("returned_bytes");
    reveal_strlit("remaining_bytes");
    reveal_strlit("snapshot_hash");
    reveal_strlit("application/json");
    reveal_strlit("text/x-diff");
    lemma_ascii_len("uri"@);
    lemma_ascii_len("mime_type"@);
    lemma_ascii_len("text"@);
    lemma_ascii_len("next_uri"@);
    lemma_ascii_len("total_bytes"@);
    lemma_ascii_len("offset_bytes"@);
    lemma_ascii_len("returned_bytes"@);
    lemma_ascii_len("remaining_bytes"@);
    lemma_ascii_len("snapshot_hash"@);
    lemma_ascii_len("application/json"@);
    lemma_ascii_len("text/x-diff"@);
}

/// An upper bound on the encoded size of a page.
proof fn lemma_page_size(
    kind: PageKindModel,
    hash: Seq<char>,
    content: Seq<char>,
    offset: int,
    end: int,
)
    requires
        0 <= offset <= end <= byte_len(content) <= u64::MAX,
    ensures
        json_len(read_json(page_between(kind, hash, content, offset, end))) <= 6 * byte_len(
            page_uri(kind, offset as nat),
        ) + 6 * byte_len(continuation_uri(kind, end as nat)) + 6 * byte_len(
            byte_slice(content, offset, end),
        ) + 6 * byte_len(hash) + 800,
{
    let page = page_between(kind, hash, content, offset, end);
    let total = byte_len(content);
    let start = no_fields();
    lemma_key_sizes();
    let f1 = start.push(("uri"@, Json::Text(page.uri)));
    let f2 = f1.push(("mime_type"@, Json::Text(page.mime_type)));
    let f3 = f2.push(("text"@, Json::Text(page.text)));
    let f4 = with_some(f3, "next_uri"@, some_text(page.next_uri));
    let f5 = f4.push(("total_bytes"@, json_count(total)));
    let f6 = f5.push(("offset_bytes"@, json_count(offset as nat)));
    let f7 = f6.push(("returned_bytes"@, json_count((end - offset) as nat)));
    let f8 = f7.push(("remaining_bytes"@, json_count((total - end) as nat)));
    let f9 = f8.push(("snapshot_hash"@, Json::Text(hash)));
    assert(read_json(page) == Json::Object(f9));
    assert(entries_text(start) =~= seq![]);
    lemma_ascii_len(Seq::<char>::empty());
    lemma_text_field(start, "uri"@, page.uri);
    lemma_text_field(f1, "mime_type"@, page.mime_type);
    lemma_text_field(f2, "text"@, page.text);
    if page.next_uri is Some {
        lemma_text_field(f3, "next_uri"@, page.next_uri->0);
    }
    lemma_count_field(f4, "total_bytes"@, total);
    lemma_count_field(f5, "offset_bytes"@, offset as nat);
    lemma_count_field(f6, "returned_bytes"@, (end - offset) as nat);
    lemma_count_field(f7, "remaining_bytes"@, (total - end) as nat);
    lemma_text_field(f8, "snapshot_hash"@, hash);
    lemma_object_len(f9);
}

/// Whether the texts that every page of a resource repeats are short.
pub open spec fn has_short_header(kind: PageKindModel, hash: Seq<char>) -> bool {
    byte_len(hash) <= 256 && match kind {
        PageKindModel::Deferred { uri, token } => byte_len(uri) <= 1100 && byte_len(token) <= 1000,
        _ => is_short_plan_detail(kind),
    }
}

proof fn lemma_uri_sizes(kind: PageKindModel, hash: Seq<char>, offset: nat)
    requires
        has_short_header(kind, hash),
        offset <= u64::MAX,
    ensures
        byte_len(page_uri(kind, offset)) <= 1100,
        byte_len(continuation_uri(kind, offset)) <= 1100,
{
    lemma_decimal_bytes(offset);
    reveal_strlit("mcpls-edit-diff:///");
    reveal_strlit("mcpls-edit-result:///");
    reveal_strlit("mcpls-edit-approval:///");
    reveal_strlit("mcpls-deferred:///");
    reveal_strlit("?plan_id=");
    reveal_strlit("&offset_bytes=");
    reveal_strlit("?offset_bytes=");
    lemma_ascii_len("mcpls-edit-diff:///"@);
    lemma_ascii_len("mcpls-edit-result:///"@);
    lemma_ascii_len("mcpls-edit-approval:///"@);
    lemma_ascii_len("mcpls-deferred:///"@);
    lemma_ascii_len("?plan_id="@);
    lemma_ascii_len("&offset_bytes="@);
    lemma_ascii_len("?offset_bytes="@);
    match kind {
        PageKindModel::Deferred { uri, token } => {
            let prefix = DEFERRED_PREFIX@;
            lemma_byte_len_concat(prefix, token);
            lemma_byte_len_concat(prefix + token, "?offset_bytes="@);
            lemma_byte_len_concat(prefix + token + "?offset_bytes="@, decimal(offset));
        },
        PageKindModel::EditDiff { project, plan } => {
            lemma_plan_uri_size(EDIT_DIFF_PREFIX@, project, plan, offset);
        },
        PageKindModel::AppliedEditResult { project, plan } => {
            lemma_plan_uri_size(APPLIED_EDIT_RESULT_PREFIX@, project, plan, offset);
        },
        PageKindModel::EditApproval { project, plan } => {
            lemma_plan_uri_size(EDIT_APPROVAL_PREFIX@, project, plan, offset);
        },
    }
}

proof fn lemma_plan_uri_size(prefix: Seq<char>, project: Seq<char>, plan: Seq<char>, offset: nat)
    ensures
        byte_len(plan_uri(prefix, project, plan, offset)) == byte_len(prefix) + byte_len(project)
            + byte_len("?plan_id="@) + byte_len(plan) + byte_len("&offset_bytes="@) + byte_len(
            decimal(offset),
        ),
{
    let a = prefix + project;
    let b = a + "?plan_id="@;
    let c = b + plan;
    let d = c + "&offset_bytes="@;
    lemma_byte_len_concat(prefix, project);
    lemma_byte_len_concat(a, "?plan_id="@);
    lemma_byte_len_concat(b, plan);
    lemma_byte_len_concat(c, "&offset_bytes="@);
    lemma_byte_len_concat(d, decimal(offset));
}

proof fn lemma_short_page_fits(
    kind: PageKindModel,
    hash: Seq<char>,
    content: Seq<char>,
    offset: int,
    short: int,
)
    requires
        has_short_header(kind, hash),
        byte_len(content) <= u64::MAX,
        is_page_offset(content, offset),
        is_page_offset(content, short),
        offset <= short <= offset + 7,
    ensures
        fits(page_between(kind, hash, content, offset, short)),
{
    lemma_page_size(kind, hash, content, offset, short);
    lemma_uri_sizes(kind, hash, offset as nat);
    lemma_uri_sizes(kind, hash, short as nat);
    lemma_slice_bytes(content, offset, short);
}

/// A resource whose pages repeat only short texts can be read to its end, from
/// every character boundary, and yields exactly the content from there on.
pub proof fn law_pages_reach_the_end(
    kind: PageKindModel,
    hash: Seq<char>,
    content: Seq<char>,
    offset: int,
)
    requires
        has_short_header(kind, hash),
        byte_len(content) <= u64::MAX,
        is_page_offset(content, offset),
    ensures
        read_through(kind, hash, content, offset) == Some(
            encode_utf8(content).subrange(offset, byte_len(content) as int),
        ),
    decreases byte_len(content) - offset,
{
    law_page_is_given(kind, hash, content, offset);
    law_page_advances(kind, hash, content, offset);
    law_page_is_a_slice(kind, hash, content, offset);
    assert forall|short: int|
        offset <= short <= offset + 7 && is_page_offset(content, short) implies #[trigger] fits(
        page_between(kind, hash, content, offset, short),
    ) by {
        lemma_short_page_fits(kind, hash, content, offset, short);
    }
    assert(bounded_page(kind, hash, content, offset) is Ok);
    let page = bounded_page(kind, hash, content, offset)->Ok_0;
    let next = offset + returned(page);
    if page.next_uri is Some {
        assert(next > offset);
        assert(has_short_header(continued(kind, next as nat), hash)) by {
            lemma_uri_sizes(kind, hash, next as nat);
        }
        law_pages_reach_the_end(continued(kind, next as nat), hash, content, next);
    }
    law_pages_are_lossless(kind, hash, content, offset);
}

/// Whether a resource is the detail of an edit plan whose ids are short.
pub open spec fn is_short_plan_detail(kind: PageKindModel) -> bool {
    match kind {
        PageKindModel::Deferred { .. } => false,
        PageKindModel::EditDiff { project, plan } => byte_len(project) <= 500 && byte_len(plan)
            <= 500,
        PageKindModel::AppliedEditResult { project, plan } => byte_len(project) <= 500
            && byte_len(plan) <= 500,
        PageKindModel::EditApproval { project, plan } => byte_len(project) <= 500 && byte_len(plan)
            <= 500,
    }
}

/// From every character boundary before its end, a diff, a receipt or an approval
/// summary gives a page: at least one byte and at most the first page size,
/// exactly the bytes from there on, with a reference to the next byte if there is
/// one, inside the response budget.
pub proof fn law_plan_detail_page_advances(kind: PageKindModel, detail: Seq<char>, offset: int)
    requires
        is_short_plan_detail(kind),
        byte_len(detail) <= u64::MAX,
        is_page_offset(detail, offset),
        offset < byte_len(detail),
    ensures
        bounded_page(kind, sha256_text(detail), detail, offset) matches Ok(page) && {
            let next = offset + returned(page);
            &&& 1 <= returned(page) <= FIRST_PAGE_BYTES
            &&& encode_utf8(page.text) == encode_utf8(detail).subrange(offset, next)
            &&& page.uri == page_uri(kind, offset as nat)
            &&& page.remaining_bytes == Some((byte_len(detail) - next) as nat)
            &&& page.next_uri == if next < byte_len(detail) {
                Some(page_uri(kind, next as nat))
            } else {
                None
            }
            &&& json_len(read_json(page)) <= MAX_SEMANTIC_RESOURCE_RESULT_BYTES
        },
{
    let hash = sha256_text(detail);
    law_digest_text_is_short(detail);
    assert(has_short_header(kind, hash));
    law_page_is_given(kind, hash, detail, offset);
    law_page_advances(kind, hash, detail, offset);
    law_page_is_a_slice(kind, hash, detail, offset);
    law_page_is_bounded(kind, hash, detail, offset);
    assert forall|short: int|
        offset <= short <= offset + 7 && is_page_offset(detail, short) implies #[trigger] fits(
        page_between(kind, hash, detail, offset, short),
    ) by {
        lemma_short_page_fits(kind, hash, detail, offset, short);
    }
    lemma_first_end(detail, offset);
    lemma_fitting_end(kind, hash, detail, offset, first_end(detail, offset));
    encode_utf8_valid_utf8(detail);
    lemma_floor_boundary(
        encode_utf8(detail),
        if offset + FIRST_PAGE_BYTES <= byte_len(detail) {
            offset + FIRST_PAGE_BYTES
        } else {
            byte_len(detail) as int
        },
    );
}

/// A diff, a receipt or an approval summary is read in full by following its
/// pages from the first on.
pub proof fn law_plan_detail_is_read_in_full(kind: PageKindModel, detail: Seq<char>)
    requires
        is_short_plan_detail(kind),
        byte_len(detail) <= u64::MAX,
    ensures
        read_through(kind, sha256_text(detail), detail, 0) == Some(encode_utf8(detail)),
{
    law_digest_text_is_short(detail);
    encode_utf8_valid_utf8(detail);
    is_char_boundary_start_end_of_seq(encode_utf8(detail));
    law_pages_reach_the_end(kind, sha256_text(detail), detail, 0);
    assert(encode_utf8(detail).subrange(0, byte_len(detail) as int) =~= encode_utf8(detail));
}

/// Whether a value gives a position: its line and its character.
pub open spec fn gives_position(value: Option<Json>, position: Position) -> bool {
    value matches Some(value) && {
        &&& member(value, "line"@) == Some(json_count(position.line as nat))
        &&& member(value, "character"@) == Some(json_count(position.character as nat))
    }
}

/// Whether a value gives a range: the position of its start and that of its end.
pub open spec fn gives_range(value: Option<Json>, range: Range) -> bool {
    value matches Some(value) && {
        &&& gives_position(member(value, "start"@), range.start)
        &&& gives_position(member(value, "end"@), range.end)
    }
}

/// A range is written with its own start and its own end, whether or not the keys
/// are put in order.
pub proof fn law_range_gives_both_ends(range: Range)
    ensures
        gives_range(Some(range_json(range)), range),
        gives_range(Some(keyed(range_json(range))), range),
{
    reveal_strlit("line");
    reveal_strlit("character");
    reveal_strlit("start");
    reveal_strlit("end");
    assert("line"@.len() == 4);
    assert("character"@.len() == 9);
    assert("start"@.len() == 5);
    assert("end"@.len() == 3);
    lemma_last_pushed();
    lemma_entry_pushed();
    lemma_keyed_members(range_json(range));
    lemma_keyed_members(position_json(range.start));
    lemma_keyed_members(position_json(range.end));
}

/// A field that may be absent answers its own key with its value, and no other key.
proof fn lemma_entry_optional()
    ensures
        forall|
            fields: Seq<(Seq<char>, Json)>,
            key: Seq<char>,
            value: Option<Json>,
            wanted: Seq<char>,
        | #[trigger]
            entry(with_some(fields, key, value), wanted) == match entry(fields, wanted) {
                Some(first) => Some(first),
                None => if wanted == key {
                    value
                } else {
                    None
                },
            },
{
    lemma_entry_pushed();
}

/// The result of reading a resource is written with each of its parts under its
/// name, and without those that it does not have.
#[verifier::rlimit(60)]
pub proof fn law_read_result_has_its_parts(result: ReadModel)
    ensures
        ({
            let json = read_json(result);
            &&& member(json, "uri"@) == Some(Json::Text(result.uri))
            &&& member(json, "mime_type"@) == Some(Json::Text(result.mime_type))
            &&& member(json, "text"@) == Some(Json::Text(result.text))
            &&& member(json, "source"@) == result.source
            &&& member(json, "next_uri"@) == match result.next_uri {
                Some(uri) => Some(Json::Text(uri)),
                None => None,
            }
            &&& member(json, "total_bytes"@) == match result.total_bytes {
                Some(bytes) => Some(json_count(bytes)),
                None => None,
            }
            &&& member(json, "offset_bytes"@) == match result.offset_bytes {
                Some(bytes) => Some(json_count(bytes)),
                None => None,
            }
            &&& member(json, "returned_bytes"@) == match result.returned_bytes {
                Some(bytes) => Some(json_count(bytes)),
                None => None,
            }
            &&& member(json, "remaining_bytes"@) == match result.remaining_bytes {
                Some(bytes) => Some(json_count(bytes)),
                None => None,
            }
            &&& member(json, "snapshot_hash"@) == match result.snapshot_hash {
                Some(hash) => Some(Json::Text(hash)),
                None => None,
            }
        }),
{
    reveal_strlit("uri");
    reveal_strlit("mime_type");
    reveal_strlit("text");
    reveal_strlit("source");
    reveal_strlit("next_uri");
    reveal_strlit("total_bytes");
    reveal_strlit("offset_bytes");
    reveal_strlit("returned_bytes");
    reveal_strlit("remaining_bytes");
    reveal_strlit("snapshot_hash");
    assert("uri"@.len() == 3);
    assert("mime_type"@.len() == 9);
    assert("text"@.len() == 4);
    assert("source"@.len() == 6);
    assert("next_uri"@.len() == 8);
    assert("total_bytes"@.len() == 11);
    assert("offset_bytes"@.len() == 12);
    assert("returned_bytes"@.len() == 14);
    assert("remaining_bytes"@.len() == 15);
    assert("snapshot_hash"@.len() == 13);
    lemma_entry_pushed();
    lemma_entry_optional();
}

/// A result that is read is described by its own fields.
pub proof fn law_read_result_is_described_by_its_fields(result: SemanticResourceReadResult)
    ensures
        result@.uri == result.uri@,
        result@.mime_type == result.mime_type@,
        result@.text == result.text@,
        result@.source is Some <==> result.source is Some,
        result.source matches Some(source) ==> describes_source(result@.source->0, source),
        result@.next_uri == match result.next_uri {
            Some(uri) => Some(uri@),
            None => None,
        },
        result@.total_bytes == match result.total_bytes {
            Some(bytes) => Some(bytes as nat),
            None => None,
        },
        result@.offset_bytes == match result.offset_bytes {
            Some(bytes) => Some(bytes as nat),
            None => None,
        },
        result@.returned_bytes == match result.returned_bytes {
            Some(bytes) => Some(bytes as nat),
            None => None,
        },
        result@.remaining_bytes == match result.remaining_bytes {
            Some(bytes) => Some(bytes as nat),
            None => None,
        },
        result@.snapshot_hash == match result.snapshot_hash {
            Some(hash) => Some(hash@),
            None => None,
        },
{
    if let Some(source) = result.source {
        law_source_is_described(source);
    }
}

/// Whether a value refers to a deferred resource.
pub open spec fn refers_to(value: Json, reference: DeferredResourceReference) -> bool {
    &&& member(value, "uri"@) == Some(Json::Text(reference.uri@))
    &&& member(value, "kind"@) == Some(Json::Text(reference.kind@))
    &&& member(value, "snapshot_hash"@) == Some(Json::Text(reference.snapshot_hash@))
    &&& member(value, "document_version"@) == match reference.document_version {
        Some(version) => Some(signed_json(version as int)),
        None => None,
    }
    &&& member(value, "total_bytes"@) == match reference.total_bytes {
        Some(bytes) => Some(json_count(bytes as nat)),
        None => None,
    }
}

/// A reference to a deferred resource is written with each of its parts.
pub proof fn law_reference_has_its_parts(reference: DeferredResourceReference)
    ensures
        refers_to(deferred_reference_json(reference), reference),
{
    reveal_strlit("uri");
    reveal_strlit("kind");
    reveal_strlit("snapshot_hash");
    reveal_strlit("document_version");
    reveal_strlit("total_bytes");
    assert("uri"@.len() == 3);
    assert("kind"@.len() == 4);
    assert("snapshot_hash"@.len() == 13);
    assert("document_version"@.len() == 16);
    assert("total_bytes"@.len() == 11);
    lemma_entry_pushed();
    lemma_entry_optional();
}

/// Whether a value describes the source of a result.
pub open spec fn describes_source(value: Json, source: SemanticSourceMetadata) -> bool {
    &&& member(value, "path"@) == Some(Json::Text(source.path@))
    &&& member(value, "uri"@) == Some(Json::Text(source.uri@))
    &&& member(value, "range"@) matches Some(range) && shows_range(range, source.range)
    &&& member(value, "highlighted_range"@) matches Some(range) && shows_range(
        range,
        source.highlighted_range,
    )
    &&& member(value, "language_id"@) == match source.language_id {
        Some(language) => Some(Json::Text(language@)),
        None => None,
    }
    &&& member(value, "document_version"@) == match source.document_version {
        Some(version) => Some(signed_json(version as int)),
        None => None,
    }
    &&& member(value, "content_hash"@) == Some(Json::Text(source.content_hash@))
    &&& member(value, "returned_lines"@) == Some(json_count(source.returned_lines as nat))
    &&& member(value, "total_lines"@) == Some(json_count(source.total_lines as nat))
    &&& member(value, "returned_bytes"@) == Some(json_count(source.returned_bytes as nat))
    &&& member(value, "total_bytes"@) == Some(json_count(source.total_bytes as nat))
    &&& member(value, "truncated"@) == Some(Json::Bool(source.truncated))
    &&& match source.resource {
        Some(reference) => member(value, "resource"@) matches Some(shown) && refers_to(
            shown,
            reference,
        ),
        None => member(value, "resource"@) is None,
    }
}

/// Whether a value shows both ends of a range.
pub open spec fn shows_range(value: Json, range: Range) -> bool {
    &&& member(value, "start"@) matches Some(start) && {
        &&& member(start, "line"@) == Some(json_count(range.start.line as nat))
        &&& member(start, "character"@) == Some(json_count(range.start.character as nat))
    }
    &&& member(value, "end"@) matches Some(end) && {
        &&& member(end, "line"@) == Some(json_count(range.end.line as nat))
        &&& member(end, "character"@) == Some(json_count(range.end.character as nat))
    }
}

proof fn lemma_shows_range(range: Range)
    ensures
        shows_range(range_json(range), range),
{
    reveal_strlit("start");
    reveal_strlit("end");
    reveal_strlit("line");
    reveal_strlit("character");
    assert("start"@.len() == 5);
    assert("end"@.len() == 3);
    assert("line"@.len() == 4);
    assert("character"@.len() == 9);
    lemma_entry_pushed();
}

/// The source of a result is described part by part.
pub proof fn law_source_is_described(source: SemanticSourceMetadata)
    ensures
        describes_source(source_metadata_json(source), source),
{
    reveal_strlit("path");
    reveal_strlit("uri");
    reveal_strlit("range");
    reveal_strlit("highlighted_range");
    reveal_strlit("language_id");
    reveal_strlit("document_version");
    reveal_strlit("content_hash");
    reveal_strlit("returned_lines");
    reveal_strlit("total_lines");
    reveal_strlit("returned_bytes");
    reveal_strlit("total_bytes");
    reveal_strlit("truncated");
    reveal_strlit("resource");
    assert("path"@.len() == 4);
    assert("uri"@.len() == 3);
    assert("range"@.len() == 5);
    assert("highlighted_range"@.len() == 17);
    assert("language_id"@.len() == 11);
    assert("document_version"@.len() == 16);
    assert("content_hash"@.len() == 12);
    assert("returned_lines"@.len() == 14);
    assert("total_lines"@.len() == 11);
    assert("returned_bytes"@.len() == 14);
    assert("total_bytes"@.len() == 11);
    assert("truncated"@.len() == 9);
    assert("resource"@.len() == 8);
    assert("language_id"@[6] == 'g');
    assert("total_lines"@[6] == 'l');
    assert("total_bytes"@[6] == 'b');
    assert("returned_lines"@[9] == 'l');
    assert("returned_bytes"@[9] == 'b');
    lemma_entry_pushed();
    lemma_entry_optional();
    lemma_shows_range(source.range);
    lemma_shows_range(source.highlighted_range);
    if let Some(reference) = source.resource {
        law_reference_has_its_parts(reference);
    }
}

/// A page is labelled by its kind: the reference under which it can be read again,
/// the type of its text and the digest of what it was cut from. A diff is a diff,
/// and anything else is JSON. A page never takes more than sixteen kilobytes, nor
/// gives more than eight of the text.
pub proof fn law_page_is_labelled(
    kind: PageKindModel,
    hash: Seq<char>,
    content: Seq<char>,
    offset: int,
)
    ensures
        bounded_page(kind, hash, content, offset) matches Ok(page) ==> {
            &&& page.snapshot_hash == Some(hash)
            &&& page.source is None
            &&& page.returned_bytes is Some
            &&& returned(page) <= 8192
            &&& json_len(read_json(page)) <= 16384
            &&& match kind {
                PageKindModel::Deferred { uri, .. } => page.uri == uri && page.mime_type
                    == "application/json"@,
                PageKindModel::EditDiff { project, plan } => page.uri == plan_uri(
                    "mcpls-edit-diff:///"@,
                    project,
                    plan,
                    offset as nat,
                ) && page.mime_type == "text/x-diff"@,
                PageKindModel::AppliedEditResult { project, plan } => page.uri == plan_uri(
                    "mcpls-edit-result:///"@,
                    project,
                    plan,
                    offset as nat,
                ) && page.mime_type == "application/json"@,
                PageKindModel::EditApproval { project, plan } => page.uri == plan_uri(
                    "mcpls-edit-approval:///"@,
                    project,
                    plan,
                    offset as nat,
                ) && page.mime_type == "application/json"@,
            }
        },
{
    law_page_is_bounded(kind, hash, content, offset);
    if is_page_offset(content, offset) {
        lemma_first_end(content, offset);
        lemma_fitting_end(kind, hash, content, offset, first_end(content, offset));
        encode_utf8_valid_utf8(content);
        lemma_floor_boundary(
            encode_utf8(content),
            if offset + FIRST_PAGE_BYTES <= byte_len(content) {
                offset + FIRST_PAGE_BYTES
            } else {
                byte_len(content) as int
            },
        );
    }
}

/// A page is refused for its offset exactly where the offset is not between two
/// characters of the text, or at one of its ends; the refusal names the kind.
pub proof fn law_page_offset_is_checked(
    kind: PageKindModel,
    hash: Seq<char>,
    content: Seq<char>,
    offset: int,
)
    ensures
        ({
            let page = bounded_page(kind, hash, content, offset);
            let between = 0 <= offset <= encode_utf8(content).len() && is_char_boundary(
                encode_utf8(content),
                offset,
            );
            &&& !between ==> page == Err::<ReadModel, ErrorModel>(
                invalid_params(
                    match kind {
                        PageKindModel::Deferred { .. } => {
                            "invalid deferred resource offset; restart from the original URI"@
                        },
                        PageKindModel::EditDiff { .. } => {
                            "invalid edit diff offset; restart from the original URI"@
                        },
                        _ => "invalid applied edit result offset; restart from the original URI"@,
                    },
                ),
            )
            &&& between && page is Err ==> page == Err::<ReadModel, ErrorModel>(
                internal_error(
                    match kind {
                        PageKindModel::Deferred { .. } => {
                            "deferred resource metadata exceeds the response budget"@
                        },
                        PageKindModel::EditDiff { .. } => {
                            "edit diff resource metadata exceeds the response budget"@
                        },
                        _ => "applied edit result resource metadata exceeds the response budget"@,
                    },
                ),
            )
        }),
{
}

/// What is left of a text is given on one page where it takes no more than eight
/// kilobytes and the page no more than sixteen. Such a page is the last.
pub proof fn law_short_rest_is_one_page(
    kind: PageKindModel,
    hash: Seq<char>,
    content: Seq<char>,
    offset: int,
)
    requires
        is_page_offset(content, offset),
        byte_len(content) <= offset + 8192,
        json_len(read_json(page_between(kind, hash, content, offset, byte_len(content) as int)))
            <= 16384,
    ensures
        bounded_page(kind, hash, content, offset) matches Ok(page) && {
            &&& page.next_uri is None
            &&& page.remaining_bytes == Some(0nat)
            &&& offset + returned(page) == byte_len(content)
        },
{
    lemma_end_is_boundary(content);
}

proof fn lemma_end_is_boundary(content: Seq<char>)
    ensures
        floor_boundary(encode_utf8(content), byte_len(content) as int) == byte_len(content),
{
    encode_utf8_valid_utf8(content);
    is_char_boundary_start_end_of_seq(encode_utf8(content));
}

/// The page of an approval is a page of its detail, under the digest of the detail.
pub proof fn law_approval_page_is_cut_from_its_detail(
    project: Seq<char>,
    plan: Seq<char>,
    detail: Seq<char>,
    offset: int,
)
    ensures
        approval_page(project, plan, detail, offset) matches Ok(page) ==> {
            &&& page.snapshot_hash == Some(sha256_text(detail))
            &&& page.total_bytes == Some(encode_utf8(detail).len())
            &&& page.offset_bytes == Some(offset as nat)
            &&& page.uri == plan_uri("mcpls-edit-approval:///"@, project, plan, offset as nat)
            &&& encode_utf8(page.text) == encode_utf8(detail).subrange(
                offset,
                offset + returned(page),
            )
        },
{
    let kind = PageKindModel::EditApproval { project, plan };
    law_page_is_a_slice(kind, sha256_text(detail), detail, offset);
    law_page_is_labelled(kind, sha256_text(detail), detail, offset);
}

/// A page is cut short only where one about twice as long would not fit.
pub proof fn law_page_is_half_as_long_as_fits(
    kind: PageKindModel,
    hash: Seq<char>,
    content: Seq<char>,
    offset: int,
)
    ensures
        bounded_page(kind, hash, content, offset) matches Ok(page) ==> (offset + returned(page)
            < first_end(content, offset) ==> exists|longer: int|
            {
                &&& offset + returned(page) < longer <= offset + 2 * returned(page) + 7
                &&& is_page_offset(content, longer)
                &&& !#[trigger] fits(page_between(kind, hash, content, offset, longer))
            }),
{
    if is_page_offset(content, offset) {
        lemma_first_end(content, offset);
        lemma_half_end(kind, hash, content, offset, first_end(content, offset));
        lemma_fitting_end(kind, hash, content, offset, first_end(content, offset));
    }
}

proof fn lemma_half_end(
    kind: PageKindModel,
    hash: Seq<char>,
    content: Seq<char>,
    offset: int,
    end: int,
)
    requires
        is_page_offset(content, offset),
        is_page_offset(content, end),
        offset <= end,
    ensures
        fitting_end(kind, hash, content, offset, end) matches Some(found) ==> (found < end
            ==> exists|longer: int|
            {
                &&& found < longer <= offset + 2 * (found - offset) + 7
                &&& is_page_offset(content, longer)
                &&& !#[trigger] fits(page_between(kind, hash, content, offset, longer))
            }),
    decreases end - offset,
{
    let bytes = encode_utf8(content);
    let half = offset + (end - offset) / 2;
    let next = floor_boundary(bytes, half);
    if !fits(page_between(kind, hash, content, offset, end)) && half > offset && offset <= next
        <= half < end {
        encode_utf8_valid_utf8(content);
        lemma_floor_boundary(bytes, half);
        lemma_half_end(kind, hash, content, offset, next);
        lemma_fitting_end(kind, hash, content, offset, next);
        if let Some(found) = fitting_end(kind, hash, content, offset, next) {
            if found == next {
                if next < half {
                    lemma_first_char_is_short(content, next, half);
                }
                assert(!fits(page_between(kind, hash, content, offset, end)));
                assert(end <= offset + 2 * (found - offset) + 7);
            }
        }
    }
}

} // verus!
