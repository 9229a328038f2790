//! Lexical search: request checks and result pages within a byte budget.

use crate::decimal::{decimal, decimal_text};
use crate::errors::{
    encode_json, encodes, invalid_params, parse_project_id, ErrorModel, McpError, StructuredOutput,
};
use crate::json::{
    json_array, json_count, json_len, json_models, json_number, json_str, keyed, last_under,
    lemma_keyed_members, lemma_last_pushed, member, no_fields, rendered_len, Json, JsonObject,
    JsonValue,
};
use crate::pages::{put_some_signed, put_some_text, signed_json, some_signed, some_text, with_some};
use crate::project::ProjectId;
use crate::text::{concat3, copy_texts, optional_text, texts};
use crate::tools::{LexicalSearchParams, LEXICAL_PAGE_BYTES};
use vstd::prelude::*;
use vstd::string::*;

verus! {

/// One lexical match, with the source text around it if it was asked for.
#[derive(Debug, PartialEq, Eq)]
pub struct LexicalSearchMatch {
    pub project_relative_path: String,
    pub document_version: Option<i32>,
    pub content_hash: String,
    pub source_uri: String,
    pub source: Option<JsonValue>,
    pub byte_range: std::ops::Range<usize>,
}

/// One page of lexical matches.
#[derive(Debug, PartialEq, Eq)]
pub struct LexicalSearchResult {
    pub matches: Vec<LexicalSearchMatch>,
    pub returned: usize,
    pub total: usize,
    pub remaining: usize,
    pub scanned_files: usize,
    pub scanned_bytes: usize,
    pub max_bytes: usize,
    pub snapshot_identity: String,
    pub next_cursor: Option<String>,
    pub truncated: bool,
}

/// The model of a match.
#[verifier::ext_equal]
pub struct MatchModel {
    pub project_relative_path: Seq<char>,
    pub document_version: Option<i32>,
    pub content_hash: Seq<char>,
    pub source_uri: Seq<char>,
    pub source: Option<Json>,
    pub start: nat,
    pub end: nat,
}

/// The model of a page.
pub struct LexicalModel {
    pub matches: Seq<MatchModel>,
    pub returned: nat,
    pub total: nat,
    pub remaining: nat,
    pub scanned_files: nat,
    pub scanned_bytes: nat,
    pub max_bytes: nat,
    pub snapshot_identity: Seq<char>,
    pub next_cursor: Option<Seq<char>>,
    pub truncated: bool,
}

impl View for LexicalSearchMatch {
    type V = MatchModel;

    open spec fn view(&self) -> MatchModel {
        MatchModel {
            project_relative_path: self.project_relative_path@,
            document_version: self.document_version,
            content_hash: self.content_hash@,
            source_uri: self.source_uri@,
            source: crate::errors::optional_json(self.source),
            start: self.byte_range.start as nat,
            end: self.byte_range.end as nat,
        }
    }
}

pub open spec fn match_models(matches: Seq<LexicalSearchMatch>) -> Seq<MatchModel> {
    Seq::new(matches.len(), |i: int| matches[i]@)
}

impl View for LexicalSearchResult {
    type V = LexicalModel;

    open spec fn view(&self) -> LexicalModel {
        LexicalModel {
            matches: match_models(self.matches@),
            returned: self.returned as nat,
            total: self.total as nat,
            remaining: self.remaining as nat,
            scanned_files: self.scanned_files as nat,
            scanned_bytes: self.scanned_bytes as nat,
            max_bytes: self.max_bytes as nat,
            snapshot_identity: self.snapshot_identity@,
            next_cursor: optional_text(self.next_cursor),
            truncated: self.truncated,
        }
    }
}

/// A match as JSON, without the absent fields.
pub open spec fn match_json(found: MatchModel) -> Json {
    let fields = no_fields().push(
        ("project_relative_path"@, Json::Text(found.project_relative_path)),
    );
    let fields = with_some(fields, "document_version"@, some_signed(found.document_version));
    let fields = fields.push(("content_hash"@, Json::Text(found.content_hash))).push(
        ("source_uri"@, Json::Text(found.source_uri)),
    );
    let fields = with_some(fields, "source"@, found.source);
    Json::Object(
        fields.push(
            (
                "byte_range"@,
                Json::Object(
                    no_fields().push(("start"@, json_count(found.start))).push(
                        ("end"@, json_count(found.end)),
                    ),
                ),
            ),
        ),
    )
}

pub open spec fn matches_json(matches: Seq<MatchModel>) -> Json {
    Json::Array(Seq::new(matches.len(), |i: int| match_json(matches[i])))
}

/// A page as JSON, without the cursor of a last page.
pub open spec fn lexical_json(page: LexicalModel) -> Json {
    let fields = no_fields().push(("matches"@, matches_json(page.matches))).push(
        ("returned"@, json_count(page.returned)),
    ).push(("total"@, json_count(page.total))).push(("remaining"@, json_count(page.remaining))).push(
        ("scanned_files"@, json_count(page.scanned_files)),
    ).push(("scanned_bytes"@, json_count(page.scanned_bytes))).push(
        ("max_bytes"@, json_count(page.max_bytes)),
    ).push(("snapshot_identity"@, Json::Text(page.snapshot_identity)));
    Json::Object(
        with_some(fields, "next_cursor"@, some_text(page.next_cursor)).push(
            ("truncated"@, Json::Bool(page.truncated)),
        ),
    )
}

pub fn match_value(found: &LexicalSearchMatch) -> (json: JsonValue)
    ensures
        json@ == match_json(found@),
{
    let mut fields = JsonObject::new();
    fields.put("project_relative_path", json_str(found.project_relative_path.as_str()));
    put_some_signed(&mut fields, "document_version", found.document_version);
    fields.put("content_hash", json_str(found.content_hash.as_str()));
    fields.put("source_uri", json_str(found.source_uri.as_str()));
    if let Some(source) = &found.source {
        fields.put("source", source.duplicate());
    }
    let mut range = JsonObject::new();
    range.put("start", json_number(found.byte_range.start));
    range.put("end", json_number(found.byte_range.end));
    fields.put("byte_range", range.into_value());
    fields.into_value()
}

fn matches_value(matches: &Vec<LexicalSearchMatch>) -> (json: JsonValue)
    ensures
        json@ == matches_json(match_models(matches@)),
{
    let mut values: Vec<JsonValue> = Vec::new();
    let mut i: usize = 0;
    while i < matches.len()
        invariant
            i <= matches@.len(),
            values@.len() == i,
            forall|j: int| 0 <= j < i ==> (#[trigger] values@[j])@ == match_json(matches@[j]@),
        decreases matches@.len() - i,
    {
        values.push(match_value(&matches[i]));
        i = i + 1;
    }
    let json = json_array(values);
    assert(json@->Array_0 =~= matches_json(match_models(matches@))->Array_0);
    json
}

/// A page as JSON.
pub fn lexical_value(page: &LexicalSearchResult) -> (json: JsonValue)
    ensures
        json@ == lexical_json(page@),
{
    let mut fields = JsonObject::new();
    fields.put("matches", matches_value(&page.matches));
    fields.put("returned", json_number(page.returned));
    fields.put("total", json_number(page.total));
    fields.put("remaining", json_number(page.remaining));
    fields.put("scanned_files", json_number(page.scanned_files));
    fields.put("scanned_bytes", json_number(page.scanned_bytes));
    fields.put("max_bytes", json_number(page.max_bytes));
    fields.put("snapshot_identity", json_str(page.snapshot_identity.as_str()));
    put_some_text(&mut fields, "next_cursor", &page.next_cursor);
    fields.put("truncated", JsonValue::Bool(page.truncated));
    fields.into_value()
}

/// What a page reports besides its matches.
pub struct LexicalAccounting {
    pub offset: usize,
    pub has_next_page: bool,
    pub max_bytes: usize,
    pub total_matches: usize,
    pub scanned_files: usize,
    pub scanned_bytes: usize,
    pub cursor_token: Option<String>,
    pub snapshot_identity: String,
}

/// The model of what a page reports besides its matches.
pub struct AccountingModel {
    pub offset: nat,
    pub has_next_page: bool,
    pub max_bytes: nat,
    pub total_matches: nat,
    pub scanned_files: nat,
    pub scanned_bytes: nat,
    pub cursor_token: Option<Seq<char>>,
    pub snapshot_identity: Seq<char>,
}

impl View for LexicalAccounting {
    type V = AccountingModel;

    open spec fn view(&self) -> AccountingModel {
        AccountingModel {
            offset: self.offset as nat,
            has_next_page: self.has_next_page,
            max_bytes: self.max_bytes as nat,
            total_matches: self.total_matches as nat,
            scanned_files: self.scanned_files as nat,
            scanned_bytes: self.scanned_bytes as nat,
            cursor_token: optional_text(self.cursor_token),
            snapshot_identity: self.snapshot_identity@,
        }
    }
}

pub open spec fn saturating_sum(left: nat, right: nat) -> nat {
    if left + right <= usize::MAX {
        left + right
    } else {
        usize::MAX as nat
    }
}

pub open spec fn saturating_difference(left: nat, right: nat) -> nat {
    if left >= right {
        (left - right) as nat
    } else {
        0
    }
}

/// The cursor of the page that starts at `offset` of a retained search.
pub open spec fn page_cursor(token: Seq<char>, offset: nat) -> Seq<char> {
    token + ":"@ + decimal(offset)
}

/// The page of some leading matches out of `candidates`.
pub open spec fn page_of(
    matches: Seq<MatchModel>,
    candidates: nat,
    accounting: AccountingModel,
) -> LexicalModel {
    let returned = matches.len();
    let next = saturating_sum(accounting.offset, returned);
    let truncated = accounting.has_next_page || returned < candidates;
    LexicalModel {
        matches,
        returned,
        total: accounting.total_matches,
        remaining: saturating_difference(accounting.total_matches, next),
        scanned_files: accounting.scanned_files,
        scanned_bytes: accounting.scanned_bytes,
        max_bytes: accounting.max_bytes,
        snapshot_identity: accounting.snapshot_identity,
        next_cursor: if !truncated {
            None
        } else {
            match accounting.cursor_token {
                None => Some(decimal(next)),
                Some(token) => Some(page_cursor(token, next)),
            }
        },
        truncated,
    }
}

/// The position of the last match that still carries source text.
pub open spec fn last_source(matches: Seq<MatchModel>) -> Option<int>
    decreases matches.len(),
{
    if matches.len() == 0 {
        None
    } else if matches.last().source is Some {
        Some(matches.len() - 1)
    } else {
        last_source(matches.drop_last())
    }
}

pub open spec fn without_source(found: MatchModel) -> MatchModel {
    MatchModel { source: None, ..found }
}

/// The next smaller list of matches: the last source text goes first; once no
/// source text is left, the last match goes, down to a single one.
pub open spec fn reduced(matches: Seq<MatchModel>) -> Option<Seq<MatchModel>> {
    match last_source(matches) {
        Some(i) => Some(matches.update(i, without_source(matches[i]))),
        None => if matches.len() <= 1 {
            None
        } else {
            Some(matches.drop_last())
        },
    }
}

/// How much a list of matches can still be reduced.
pub open spec fn reducible(matches: Seq<MatchModel>) -> nat
    decreases matches.len(),
{
    if matches.len() == 0 {
        0
    } else {
        reducible(matches.drop_last()) + 1 + if matches.last().source is Some {
            1nat
        } else {
            0nat
        }
    }
}

pub proof fn lemma_reduced(matches: Seq<MatchModel>)
    ensures
        reduced(matches) matches Some(less) ==> reducible(less) < reducible(matches),
        last_source(matches) matches Some(i) ==> {
            &&& 0 <= i < matches.len()
            &&& matches[i].source is Some
            &&& forall|j: int| i < j < matches.len() ==> (#[trigger] matches[j]).source is None
        },
        last_source(matches) is None ==> forall|j: int|
            0 <= j < matches.len() ==> (#[trigger] matches[j]).source is None,
    decreases matches.len(),
{
    if matches.len() > 0 {
        let head = matches.drop_last();
        lemma_reduced(head);
        if matches.last().source is Some {
            let less = matches.update(matches.len() - 1, without_source(matches.last()));
            assert(less.drop_last() =~= head);
        } else {
            assert forall|j: int| 0 <= j < head.len() implies #[trigger] matches[j] == head[j] by {}
            match last_source(head) {
                Some(i) => {
                    let less = matches.update(i, without_source(matches[i]));
                    assert(less.drop_last() =~= head.update(i, without_source(head[i])));
                },
                None => {},
            }
        }
    }
}

/// The first list of matches, of the given one and its reductions, whose page
/// fits; the size of the smallest page if none does.
pub open spec fn fitting_page(
    matches: Seq<MatchModel>,
    candidates: nat,
    accounting: AccountingModel,
) -> Result<LexicalModel, nat>
    decreases reducible(matches),
{
    let page = page_of(matches, candidates, accounting);
    let size = json_len(lexical_json(page));
    if size <= accounting.max_bytes || matches.len() == 0 {
        Ok(page)
    } else {
        match reduced(matches) {
            None => Err(size),
            Some(less) => if reducible(less) < reducible(matches) {
                fitting_page(less, candidates, accounting)
            } else {
                Err(size)
            },
        }
    }
}

/// The cursor of the page that starts at `offset` of a retained search.
pub fn lexical_page_cursor(token: &str, offset: usize) -> (cursor: String)
    ensures
        cursor@ == page_cursor(token@, offset as nat),
{
    concat3(token, ":", decimal_text(offset as u64).as_str())
}

fn sum_or_max(left: usize, right: usize) -> (sum: usize)
    ensures
        sum == saturating_sum(left as nat, right as nat),
{
    if left <= usize::MAX - right {
        left + right
    } else {
        usize::MAX
    }
}

/// The page of the given matches that fits the byte budget: source texts are
/// left out from the last on, then matches.
pub fn bounded_lexical_page_with_accounting(
    matches: Vec<LexicalSearchMatch>,
    accounting: LexicalAccounting,
) -> (page: Result<LexicalSearchResult, usize>)
    requires
        accounting.cursor_token is Some ==> accounting.offset + matches@.len() <= usize::MAX,
    ensures
        match page {
            Ok(page) => fitting_page(match_models(matches@), matches@.len(), accounting@) == Ok::<
                LexicalModel,
                nat,
            >(page@),
            Err(size) => fitting_page(match_models(matches@), matches@.len(), accounting@) == Err::<
                LexicalModel,
                nat,
            >(size as nat),
        },
{
    let mut kept = matches;
    let candidates: usize = kept.len();
    let ghost all = match_models(matches@);
    loop
        invariant
            all == match_models(matches@),
            candidates == matches@.len(),
            kept@.len() <= candidates,
            fitting_page(all, candidates as nat, accounting@) == fitting_page(
                match_models(kept@),
                candidates as nat,
                accounting@,
            ),
        decreases reducible(match_models(kept@)),
    {
        let ghost state = match_models(kept@);
        let truncated = accounting.has_next_page || kept.len() < candidates;
        let next: usize = sum_or_max(accounting.offset, kept.len());
        let next_cursor = if !truncated {
            None
        } else {
            match &accounting.cursor_token {
                None => Some(decimal_text(next as u64)),
                Some(token) => Some(lexical_page_cursor(token.as_str(), next)),
            }
        };
        let remaining: usize = if accounting.total_matches >= next {
            accounting.total_matches - next
        } else {
            0
        };
        let returned: usize = kept.len();
        let page = LexicalSearchResult {
            matches: kept,
            returned,
            total: accounting.total_matches,
            remaining,
            scanned_files: accounting.scanned_files,
            scanned_bytes: accounting.scanned_bytes,
            max_bytes: accounting.max_bytes,
            snapshot_identity: accounting.snapshot_identity.clone(),
            next_cursor,
            truncated,
        };
        assert(page@ == page_of(state, candidates as nat, accounting@));
        let size = rendered_len(&lexical_value(&page));
        if size <= accounting.max_bytes || page.matches.len() == 0 {
            return Ok(page);
        }
        kept = page.matches;
        proof {
            lemma_reduced(state);
        }
        match last_with_source(&kept) {
            Some(i) => {
                drop_source(&mut kept, i);
            },
            None => {
                if kept.len() == 1 {
                    return Err(size);
                }
                let _ = kept.pop();
                assert(match_models(kept@) =~= state.drop_last());
            },
        }
    }
}

fn last_with_source(matches: &Vec<LexicalSearchMatch>) -> (index: Option<usize>)
    ensures
        match index {
            Some(i) => last_source(match_models(matches@)) == Some(i as int) && i < matches@.len(),
            None => last_source(match_models(matches@)) is None,
        },
{
    let ghost all = match_models(matches@);
    let mut i: usize = matches.len();
    assert(all.take(i as int) =~= all);
    while i > 0
        invariant
            i <= matches@.len(),
            all == match_models(matches@),
            last_source(all) == last_source(all.take(i as int)),
        decreases i,
    {
        let ghost front = all.take(i as int);
        assert(front.last() == matches@[i - 1]@);
        assert(front.drop_last() =~= all.take(i - 1));
        if matches[i - 1].source.is_some() {
            return Some(i - 1);
        }
        i = i - 1;
    }
    None
}

fn drop_source(matches: &mut Vec<LexicalSearchMatch>, index: usize)
    requires
        index < old(matches)@.len(),
    ensures
        match_models(final(matches)@) == match_models(old(matches)@).update(
            index as int,
            without_source(match_models(old(matches)@)[index as int]),
        ),
        final(matches)@.len() == old(matches)@.len(),
{
    let ghost before = match_models(matches@);
    let found = matches.remove(index);
    let bare = LexicalSearchMatch {
        project_relative_path: found.project_relative_path,
        document_version: found.document_version,
        content_hash: found.content_hash,
        source_uri: found.source_uri,
        source: None,
        byte_range: found.byte_range,
    };
    matches.insert(index, bare);
    assert(match_models(matches@) =~= before.update(
        index as int,
        without_source(before[index as int]),
    ));
}

/// The accounting of a page without a retained search.
pub open spec fn plain_accounting(
    matches: nat,
    offset: nat,
    has_next_page: bool,
    max_bytes: nat,
) -> AccountingModel {
    AccountingModel {
        offset,
        has_next_page,
        max_bytes,
        total_matches: saturating_sum(
            saturating_sum(offset, matches),
            if has_next_page {
                1
            } else {
                0
            },
        ),
        scanned_files: 0,
        scanned_bytes: 0,
        cursor_token: None,
        snapshot_identity: "test-snapshot"@,
    }
}

/// The page of the given matches that fits the byte budget, with decimal
/// cursors.
pub fn bounded_lexical_page(
    matches: Vec<LexicalSearchMatch>,
    offset: usize,
    has_next_page: bool,
    max_bytes: usize,
) -> (page: Result<LexicalSearchResult, usize>)
    ensures
        fitting_page(
            match_models(matches@),
            matches@.len(),
            plain_accounting(matches@.len(), offset as nat, has_next_page, max_bytes as nat),
        ) == match page {
            Ok(page) => Ok::<LexicalModel, nat>(page@),
            Err(size) => Err::<LexicalModel, nat>(size as nat),
        },
{
    let total_matches = sum_or_max(
        sum_or_max(offset, matches.len()),
        if has_next_page {
            1
        } else {
            0
        },
    );
    let accounting = LexicalAccounting {
        offset,
        has_next_page,
        max_bytes,
        total_matches,
        scanned_files: 0,
        scanned_bytes: 0,
        cursor_token: None,
        snapshot_identity: "test-snapshot".to_owned(),
    };
    bounded_lexical_page_with_accounting(matches, accounting)
}

/// The byte ceiling of a page that was asked for with `requested` bytes.
pub fn effective_lexical_page_bytes(requested: usize) -> (bytes: usize)
    ensures
        bytes == if requested < LEXICAL_PAGE_BYTES {
            requested
        } else {
            LEXICAL_PAGE_BYTES
        },
{
    if requested < LEXICAL_PAGE_BYTES {
        requested
    } else {
        LEXICAL_PAGE_BYTES
    }
}

/// Whether `kept` holds leading matches of `given`, each as it was or without
/// its source text.
pub open spec fn keeps_leading(kept: Seq<MatchModel>, given: Seq<MatchModel>) -> bool {
    &&& kept.len() <= given.len()
    &&& forall|i: int|
        0 <= i < kept.len() ==> (#[trigger] kept[i] == given[i] || kept[i] == without_source(
            given[i],
        ))
}

/// A page fits its byte budget unless there was nothing to page.
pub proof fn law_lexical_page_is_bounded(
    matches: Seq<MatchModel>,
    candidates: nat,
    accounting: AccountingModel,
)
    ensures
        fitting_page(matches, candidates, accounting) matches Ok(page) ==> json_len(
            lexical_json(page),
        ) <= accounting.max_bytes || matches.len() == 0,
    decreases reducible(matches),
{
    lemma_reduced(matches);
    let page = page_of(matches, candidates, accounting);
    if !(json_len(lexical_json(page)) <= accounting.max_bytes || matches.len() == 0) {
        match reduced(matches) {
            Some(less) => {
                law_lexical_page_is_bounded(less, candidates, accounting);
                if last_source(matches) is None {
                    assert(less.len() > 0);
                }
            },
            None => {},
        }
    }
}

/// A page keeps the leading matches in order, and gives up a match only after
/// every source text.
pub proof fn law_lexical_page_keeps_leading_matches(
    matches: Seq<MatchModel>,
    candidates: nat,
    accounting: AccountingModel,
)
    ensures
        fitting_page(matches, candidates, accounting) matches Ok(page) ==> {
            &&& keeps_leading(page.matches, matches)
            &&& page.matches.len() < matches.len() ==> forall|i: int|
                0 <= i < page.matches.len() ==> (#[trigger] page.matches[i]).source is None
        },
    decreases reducible(matches),
{
    lemma_reduced(matches);
    let page = page_of(matches, candidates, accounting);
    if !(json_len(lexical_json(page)) <= accounting.max_bytes || matches.len() == 0) {
        match reduced(matches) {
            Some(less) => {
                law_lexical_page_keeps_leading_matches(less, candidates, accounting);
                if let Ok(kept) = fitting_page(less, candidates, accounting) {
                    assert forall|i: int| 0 <= i < kept.matches.len() implies (
                    #[trigger] kept.matches[i] == matches[i] || kept.matches[i] == without_source(
                        matches[i],
                    )) by {
                        assert(kept.matches[i] == less[i] || kept.matches[i] == without_source(
                            less[i],
                        ));
                    }
                    if last_source(matches) is None {
                        assert forall|i: int| 0 <= i < kept.matches.len() implies (
                        #[trigger] kept.matches[i]).source is None by {
                            assert(matches[i].source is None);
                        }
                    }
                }
            },
            None => {},
        }
    }
}

/// A page accounts for every match: it says how many it returns and how many
/// follow, and has a cursor exactly when something follows it.
pub proof fn law_lexical_page_accounts(
    matches: Seq<MatchModel>,
    candidates: nat,
    accounting: AccountingModel,
)
    requires
        matches.len() <= candidates,
    ensures
        fitting_page(matches, candidates, accounting) matches Ok(page) ==> {
            &&& page == page_of(page.matches, candidates, accounting)
            &&& page.returned == page.matches.len()
            &&& page.truncated == (accounting.has_next_page || page.returned < candidates)
            &&& page.next_cursor is Some == page.truncated
        },
    decreases reducible(matches),
{
    lemma_reduced(matches);
    let page = page_of(matches, candidates, accounting);
    if !(json_len(lexical_json(page)) <= accounting.max_bytes || matches.len() == 0) {
        match reduced(matches) {
            Some(less) => {
                law_lexical_page_accounts(less, candidates, accounting);
            },
            None => {},
        }
    }
}

/// One query of a batch with its page, if it has one; `details` holds what else
/// was reported of it.
#[derive(Debug, PartialEq, Eq)]
pub struct LexicalBatchEntry {
    pub query: String,
    pub result: Option<LexicalSearchResult>,
    pub details: JsonObject,
}

/// The pages of several queries; `details` holds what else was reported.
#[derive(Debug, PartialEq, Eq)]
pub struct LexicalSearchBatchResult {
    pub entries: Vec<LexicalBatchEntry>,
    pub returned: usize,
    pub truncated: bool,
    pub details: JsonObject,
}

/// The model of a batch entry.
pub struct EntryModel {
    pub query: Seq<char>,
    pub result: Option<LexicalModel>,
    pub details: Seq<(Seq<char>, Json)>,
}

/// The model of a batch.
pub struct BatchModel {
    pub entries: Seq<EntryModel>,
    pub returned: nat,
    pub truncated: bool,
    pub details: Seq<(Seq<char>, Json)>,
}

pub open spec fn optional_page(page: Option<LexicalSearchResult>) -> Option<LexicalModel> {
    match page {
        Some(page) => Some(page@),
        None => None,
    }
}

impl View for LexicalBatchEntry {
    type V = EntryModel;

    open spec fn view(&self) -> EntryModel {
        EntryModel {
            query: self.query@,
            result: optional_page(self.result),
            details: self.details@,
        }
    }
}

pub open spec fn entry_models(entries: Seq<LexicalBatchEntry>) -> Seq<EntryModel> {
    Seq::new(entries.len(), |i: int| entries[i]@)
}

impl View for LexicalSearchBatchResult {
    type V = BatchModel;

    open spec fn view(&self) -> BatchModel {
        BatchModel {
            entries: entry_models(self.entries@),
            returned: self.returned as nat,
            truncated: self.truncated,
            details: self.details@,
        }
    }
}

pub open spec fn some_page(page: Option<LexicalModel>) -> Option<Json> {
    match page {
        Some(page) => Some(lexical_json(page)),
        None => None,
    }
}

pub open spec fn entry_json(entry: EntryModel) -> Json {
    Json::Object(
        with_some(
            no_fields().push(("query"@, Json::Text(entry.query))),
            "result"@,
            some_page(entry.result),
        ) + entry.details,
    )
}

pub open spec fn batch_json(batch: BatchModel) -> Json {
    Json::Object(
        no_fields().push(
            (
                "entries"@,
                Json::Array(Seq::new(batch.entries.len(), |i: int| entry_json(batch.entries[i]))),
            ),
        ).push(("returned"@, json_count(batch.returned))).push(
            ("truncated"@, Json::Bool(batch.truncated)),
        ) + batch.details,
    )
}

fn put_all(fields: &mut JsonObject, more: &JsonObject)
    ensures
        final(fields)@ == old(fields)@ + more@,
{
    let ghost before = fields@;
    let mut i: usize = 0;
    assert(before + more@.take(0) =~= before);
    while i < more.entries.len()
        invariant
            i <= more.entries@.len(),
            fields@ == before + more@.take(i as int),
        decreases more.entries@.len() - i,
    {
        fields.put(more.entries[i].key.as_str(), more.entries[i].value.duplicate());
        assert(fields@ =~= before + more@.take(i + 1));
        i = i + 1;
    }
    assert(more@.take(i as int) =~= more@);
}

fn entry_value(entry: &LexicalBatchEntry) -> (json: JsonValue)
    ensures
        json@ == entry_json(entry@),
{
    let mut fields = JsonObject::new();
    fields.put("query", json_str(entry.query.as_str()));
    if let Some(page) = &entry.result {
        fields.put("result", lexical_value(page));
    }
    put_all(&mut fields, &entry.details);
    fields.into_value()
}

/// A batch as JSON.
pub fn batch_value(batch: &LexicalSearchBatchResult) -> (json: JsonValue)
    ensures
        json@ == batch_json(batch@),
{
    let mut values: Vec<JsonValue> = Vec::new();
    let mut i: usize = 0;
    while i < batch.entries.len()
        invariant
            i <= batch.entries@.len(),
            values@.len() == i,
            forall|j: int|
                0 <= j < i ==> (#[trigger] values@[j])@ == entry_json(batch.entries@[j]@),
        decreases batch.entries@.len() - i,
    {
        values.push(entry_value(&batch.entries[i]));
        i = i + 1;
    }
    assert(json_models(values@) =~= Seq::new(
        batch@.entries.len(),
        |i: int| entry_json(batch@.entries[i]),
    ));
    let mut fields = JsonObject::new();
    fields.put("entries", json_array(values));
    fields.put("returned", json_number(batch.returned));
    fields.put("truncated", JsonValue::Bool(batch.truncated));
    put_all(&mut fields, &batch.details);
    fields.into_value()
}

/// The matches that an entry says it returns.
pub open spec fn entry_returned(entry: EntryModel) -> nat {
    match entry.result {
        Some(page) => page.returned,
        None => 0,
    }
}

/// The matches that the entries together say they return.
pub open spec fn batch_returned(entries: Seq<EntryModel>) -> nat
    decreases entries.len(),
{
    if entries.len() == 0 {
        0
    } else {
        batch_returned(entries.drop_last()) + entry_returned(entries.last())
    }
}

/// Whether an entry has a match to give up.
pub open spec fn has_match(entry: EntryModel) -> bool {
    entry.result matches Some(page) && page.matches.len() > 0
}

/// The position of the last entry with a match.
pub open spec fn last_with_match(entries: Seq<EntryModel>) -> Option<int>
    decreases entries.len(),
{
    if entries.len() == 0 {
        None
    } else if has_match(entries.last()) {
        Some(entries.len() - 1)
    } else {
        last_with_match(entries.drop_last())
    }
}

/// A page without its last match, marked as truncated.
pub open spec fn shortened_page(page: LexicalModel) -> LexicalModel {
    LexicalModel {
        matches: page.matches.drop_last(),
        returned: (page.matches.len() - 1) as nat,
        truncated: true,
        ..page
    }
}

pub open spec fn shortened_entry(entry: EntryModel) -> EntryModel {
    EntryModel {
        result: match entry.result {
            Some(page) => Some(shortened_page(page)),
            None => None,
        },
        ..entry
    }
}

/// The matches that the entries hold together.
pub open spec fn held_matches(entries: Seq<EntryModel>) -> nat
    decreases entries.len(),
{
    if entries.len() == 0 {
        0
    } else {
        held_matches(entries.drop_last()) + match entries.last().result {
            Some(page) => page.matches.len(),
            None => 0,
        }
    }
}

/// The batch with the sum of its pages.
pub open spec fn counted(batch: BatchModel) -> BatchModel {
    BatchModel { returned: batch_returned(batch.entries), ..batch }
}

proof fn lemma_last_with_match(entries: Seq<EntryModel>)
    ensures
        last_with_match(entries) matches Some(i) ==> {
            &&& 0 <= i < entries.len()
            &&& has_match(entries[i])
            &&& held_matches(entries.update(i, shortened_entry(entries[i]))) + 1 == held_matches(
                entries,
            )
            &&& forall|j: int| i < j < entries.len() ==> !has_match(#[trigger] entries[j])
        },
        last_with_match(entries) is None ==> forall|j: int|
            0 <= j < entries.len() ==> !has_match(#[trigger] entries[j]),
    decreases entries.len(),
{
    if entries.len() > 0 {
        let head = entries.drop_last();
        lemma_last_with_match(head);
        if has_match(entries.last()) {
            let less = entries.update(entries.len() - 1, shortened_entry(entries.last()));
            assert(less.drop_last() =~= head);
        } else {
            assert forall|j: int| 0 <= j < head.len() implies #[trigger] entries[j] == head[j] by {}
            match last_with_match(head) {
                Some(i) => {
                    let less = entries.update(i, shortened_entry(entries[i]));
                    assert(less.drop_last() =~= head.update(i, shortened_entry(head[i])));
                },
                None => {},
            }
        }
    }
}

/// The batch that fits the byte budget: the last match of the last entry that
/// has one is given up until it does; the size of the smallest batch if none
/// does.
pub open spec fn fitting_batch(batch: BatchModel, max_bytes: nat) -> Result<BatchModel, nat>
    decreases held_matches(batch.entries),
{
    let whole = counted(batch);
    let size = json_len(batch_json(whole));
    if size <= max_bytes {
        Ok(whole)
    } else {
        match last_with_match(whole.entries) {
            None => Err(size),
            Some(i) => {
                let less = BatchModel {
                    entries: whole.entries.update(i, shortened_entry(whole.entries[i])),
                    truncated: true,
                    ..whole
                };
                if held_matches(less.entries) < held_matches(batch.entries) {
                    fitting_batch(less, max_bytes)
                } else {
                    Err(size)
                }
            },
        }
    }
}

/// The largest sums that counting the pages of a batch can meet.
pub open spec fn count_bound(entries: Seq<EntryModel>) -> nat
    decreases entries.len(),
{
    if entries.len() == 0 {
        0
    } else {
        count_bound(entries.drop_last()) + match entries.last().result {
            Some(page) => if page.returned >= page.matches.len() {
                page.returned
            } else {
                page.matches.len()
            },
            None => 0,
        }
    }
}

proof fn lemma_count_bound(entries: Seq<EntryModel>)
    ensures
        batch_returned(entries) <= count_bound(entries),
    decreases entries.len(),
{
    if entries.len() > 0 {
        lemma_count_bound(entries.drop_last());
    }
}

proof fn lemma_count_bound_prefix(entries: Seq<EntryModel>, len: int)
    requires
        0 <= len <= entries.len(),
    ensures
        batch_returned(entries.take(len)) <= batch_returned(entries),
    decreases entries.len(),
{
    if len < entries.len() {
        assert(entries.take(len) =~= entries.drop_last().take(len));
        lemma_count_bound_prefix(entries.drop_last(), len);
    } else {
        assert(entries.take(len) =~= entries);
    }
}

proof fn lemma_count_bound_shortened(entries: Seq<EntryModel>, i: int)
    requires
        0 <= i < entries.len(),
        has_match(entries[i]),
    ensures
        count_bound(entries.update(i, shortened_entry(entries[i]))) <= count_bound(entries),
    decreases entries.len(),
{
    let less = entries.update(i, shortened_entry(entries[i]));
    if i == entries.len() - 1 {
        assert(less.drop_last() =~= entries.drop_last());
    } else {
        lemma_count_bound_shortened(entries.drop_last(), i);
        assert(less.drop_last() =~= entries.drop_last().update(i, shortened_entry(entries[i])));
    }
}

fn count_batch(entries: &Vec<LexicalBatchEntry>) -> (returned: usize)
    requires
        count_bound(entry_models(entries@)) <= usize::MAX,
    ensures
        returned == batch_returned(entry_models(entries@)),
{
    let ghost all = entry_models(entries@);
    let mut returned: usize = 0;
    let mut i: usize = 0;
    proof {
        assert(all.take(0) =~= seq![]);
        lemma_count_bound(all);
    }
    while i < entries.len()
        invariant
            i <= entries@.len(),
            all == entry_models(entries@),
            batch_returned(all) <= usize::MAX,
            returned == batch_returned(all.take(i as int)),
        decreases entries@.len() - i,
    {
        proof {
            let next = all.take(i + 1);
            assert(next.drop_last() =~= all.take(i as int));
            assert(next.last() == entries@[i as int]@);
            lemma_count_bound_prefix(all, i + 1);
        }
        if let Some(page) = &entries[i].result {
            returned = returned + page.returned;
        }
        i = i + 1;
    }
    assert(all.take(i as int) =~= all);
    returned
}

fn last_entry_with_match(entries: &Vec<LexicalBatchEntry>) -> (index: Option<usize>)
    ensures
        match index {
            Some(i) => last_with_match(entry_models(entries@)) == Some(i as int) && i
                < entries@.len(),
            None => last_with_match(entry_models(entries@)) is None,
        },
{
    let ghost all = entry_models(entries@);
    let mut i: usize = entries.len();
    assert(all.take(i as int) =~= all);
    while i > 0
        invariant
            i <= entries@.len(),
            all == entry_models(entries@),
            last_with_match(all) == last_with_match(all.take(i as int)),
        decreases i,
    {
        let ghost front = all.take(i as int);
        assert(front.last() == entries@[i - 1]@);
        assert(front.drop_last() =~= all.take(i - 1));
        if let Some(page) = &entries[i - 1].result {
            if page.matches.len() > 0 {
                return Some(i - 1);
            }
        }
        i = i - 1;
    }
    None
}

fn shorten_entry(entries: &mut Vec<LexicalBatchEntry>, index: usize)
    requires
        index < old(entries)@.len(),
        has_match(old(entries)@[index as int]@),
    ensures
        entry_models(final(entries)@) == entry_models(old(entries)@).update(
            index as int,
            shortened_entry(entry_models(old(entries)@)[index as int]),
        ),
{
    let ghost before = entry_models(entries@);
    let entry = entries.remove(index);
    let result = match entry.result {
        Some(page) => {
            let ghost model = page@;
            let mut matches = page.matches;
            let _ = matches.pop();
            let returned: usize = matches.len();
            let less = LexicalSearchResult {
                matches,
                returned,
                total: page.total,
                remaining: page.remaining,
                scanned_files: page.scanned_files,
                scanned_bytes: page.scanned_bytes,
                max_bytes: page.max_bytes,
                snapshot_identity: page.snapshot_identity,
                next_cursor: page.next_cursor,
                truncated: true,
            };
            assert(match_models(matches@) =~= model.matches.drop_last());
            Some(less)
        },
        None => None,
    };
    entries.insert(
        index,
        LexicalBatchEntry { query: entry.query, result, details: entry.details },
    );
    assert(entry_models(entries@) =~= before.update(
        index as int,
        shortened_entry(before[index as int]),
    ));
}

/// The batch that fits the byte budget.
pub fn bounded_lexical_batch(batch: LexicalSearchBatchResult, max_bytes: usize) -> (bounded: Result<
    LexicalSearchBatchResult,
    usize,
>)
    requires
        count_bound(entry_models(batch.entries@)) <= usize::MAX,
    ensures
        fitting_batch(batch@, max_bytes as nat) == match bounded {
            Ok(bounded) => Ok::<BatchModel, nat>(bounded@),
            Err(size) => Err::<BatchModel, nat>(size as nat),
        },
{
    let mut current = batch;
    loop
        invariant
            count_bound(entry_models(current.entries@)) <= usize::MAX,
            fitting_batch(batch@, max_bytes as nat) == fitting_batch(current@, max_bytes as nat),
        decreases held_matches(entry_models(current.entries@)),
    {
        let ghost before = current@;
        current.returned = count_batch(&current.entries);
        assert(current@ == counted(before));
        let size = rendered_len(&batch_value(&current));
        if size <= max_bytes {
            return Ok(current);
        }
        proof {
            lemma_last_with_match(before.entries);
        }
        match last_entry_with_match(&current.entries) {
            None => {
                return Err(size);
            },
            Some(i) => {
                proof {
                    lemma_count_bound_shortened(before.entries, i as int);
                }
                shorten_entry(&mut current.entries, i);
                current.truncated = true;
            },
        }
    }
}

/// A batch that is returned fits the byte budget.
pub proof fn law_lexical_batch_is_bounded(batch: BatchModel, max_bytes: nat)
    ensures
        fitting_batch(batch, max_bytes) matches Ok(bounded) ==> json_len(batch_json(bounded))
            <= max_bytes,
    decreases held_matches(batch.entries),
{
    lemma_last_with_match(batch.entries);
    let whole = counted(batch);
    if json_len(batch_json(whole)) > max_bytes {
        match last_with_match(whole.entries) {
            Some(i) => {
                let less = BatchModel {
                    entries: whole.entries.update(i, shortened_entry(whole.entries[i])),
                    truncated: true,
                    ..whole
                };
                law_lexical_batch_is_bounded(less, max_bytes);
            },
            None => {},
        }
    }
}

/// Whether one batch keeps every query of another, each with leading matches of
/// its page and the rest of it unchanged; a page that lost a match says so.
pub open spec fn keeps_queries(kept: BatchModel, given: BatchModel) -> bool {
    &&& kept.entries.len() == given.entries.len()
    &&& kept.details == given.details
    &&& forall|i: int|
        0 <= i < kept.entries.len() ==> keeps_entry(#[trigger] kept.entries[i], given.entries[i])
}

pub open spec fn keeps_entry(kept: EntryModel, given: EntryModel) -> bool {
    &&& kept.query == given.query
    &&& kept.details == given.details
    &&& match (kept.result, given.result) {
        (Some(less), Some(page)) => {
            &&& less.matches.len() <= page.matches.len()
            &&& less.matches == page.matches.take(less.matches.len() as int)
            &&& less.matches.len() < page.matches.len() ==> less.truncated && less.returned
                == less.matches.len()
            &&& less.matches.len() == page.matches.len() ==> less == page
        },
        (None, None) => true,
        _ => false,
    }
}

/// Bounding a batch keeps every query and its leading matches, and marks the
/// batch as truncated if anything was given up.
pub proof fn law_lexical_batch_keeps_queries(batch: BatchModel, max_bytes: nat)
    ensures
        fitting_batch(batch, max_bytes) matches Ok(bounded) ==> {
            &&& keeps_queries(bounded, batch)
            &&& bounded.returned == batch_returned(bounded.entries)
            &&& bounded.truncated == (batch.truncated || bounded.entries != batch.entries)
        },
    decreases held_matches(batch.entries),
{
    lemma_last_with_match(batch.entries);
    let whole = counted(batch);
    assert forall|i: int| 0 <= i < batch.entries.len() implies keeps_entry(
        #[trigger] batch.entries[i],
        batch.entries[i],
    ) by {
        if let Some(page) = batch.entries[i].result {
            assert(page.matches =~= page.matches.take(page.matches.len() as int));
        }
    }
    if json_len(batch_json(whole)) > max_bytes {
        match last_with_match(whole.entries) {
            Some(at) => {
                let less = BatchModel {
                    entries: whole.entries.update(at, shortened_entry(whole.entries[at])),
                    truncated: true,
                    ..whole
                };
                law_lexical_batch_keeps_queries(less, max_bytes);
                if let Ok(bounded) = fitting_batch(less, max_bytes) {
                    assert forall|i: int| 0 <= i < bounded.entries.len() implies keeps_entry(
                        #[trigger] bounded.entries[i],
                        batch.entries[i],
                    ) by {
                        assert(keeps_entry(bounded.entries[i], less.entries[i]));
                        if i == at {
                            let page = batch.entries[i].result->0;
                            let kept = bounded.entries[i].result->0;
                            assert(page.matches.drop_last().take(kept.matches.len() as int)
                                =~= page.matches.take(kept.matches.len() as int));
                        }
                    }
                    assert(bounded.entries[at].result->0.matches.len()
                        < batch.entries[at].result->0.matches.len());
                }
            },
            None => {},
        }
    }
}

/// What a lexical search asks a project for, besides its queries.
#[derive(Debug, PartialEq, Eq)]
pub struct LexicalScope {
    pub mode: String,
    pub case: String,
    pub multiline: bool,
    pub max_files: usize,
    pub max_matches: usize,
    pub include_generated: bool,
    pub include_paths: Vec<String>,
    pub exclude_paths: Vec<String>,
    pub context_lines: usize,
}

/// What a checked lexical search does.
#[derive(Debug, PartialEq, Eq)]
pub enum LexicalSearchPlan {
    /// One query, possibly continued.
    One { project_id: ProjectId, query: String, page_token: Option<String>, scope: LexicalScope, max_bytes: usize },
    /// Several queries sharing one scan and one byte budget.
    Many { project_id: ProjectId, queries: Vec<String>, scope: LexicalScope, max_bytes: usize },
}

/// The queries of a request: the single query, else the listed ones.
pub open spec fn requested_queries(params: LexicalSearchParams) -> Seq<Seq<char>> {
    match params.query {
        Some(query) => texts(params.queries@).push(query@),
        None => texts(params.queries@),
    }
}

/// What is wrong with a request by itself.
pub open spec fn lexical_request_error(params: LexicalSearchParams) -> Option<ErrorModel> {
    if params.max_files == 0 || params.max_matches == 0 {
        Some(invalid_params("max_files and max_matches must be greater than zero"@))
    } else if !(4096 <= params.max_bytes <= 1048576) {
        Some(invalid_params("max_bytes must be between 4096 and 1048576"@))
    } else if params.query is Some && params.queries@.len() > 0 {
        Some(invalid_params("query cannot be combined with queries"@))
    } else if requested_queries(params).len() == 0 {
        Some(invalid_params("query or queries is required"@))
    } else if params.page_token is Some && requested_queries(params).len() != 1 {
        Some(invalid_params("page_token requires one query"@))
    } else {
        None
    }
}

/// The queries to compile, or what is wrong with the request by itself.
pub fn lexical_queries(params: &LexicalSearchParams) -> (queries: Result<Vec<String>, McpError>)
    ensures
        match queries {
            Ok(queries) => lexical_request_error(*params) is None && texts(queries@)
                == requested_queries(*params),
            Err(error) => lexical_request_error(*params) == Some(error@),
        },
{
    if params.max_files == 0 || params.max_matches == 0 {
        return Err(
            McpError::invalid_params("max_files and max_matches must be greater than zero"),
        );
    }
    if params.max_bytes < 4096 || params.max_bytes > 1048576 {
        return Err(McpError::invalid_params("max_bytes must be between 4096 and 1048576"));
    }
    let mut queries = copy_texts(&params.queries);
    assert(texts(queries@).len() == queries@.len());
    if let Some(query) = &params.query {
        if queries.len() > 0 {
            return Err(McpError::invalid_params("query cannot be combined with queries"));
        }
        queries.push(query.clone());
        assert(texts(queries@) =~= requested_queries(*params));
    }
    if queries.len() == 0 {
        return Err(McpError::invalid_params("query or queries is required"));
    }
    if params.page_token.is_some() && queries.len() != 1 {
        return Err(McpError::invalid_params("page_token requires one query"));
    }
    Ok(queries)
}

/// The scope that a request asks for.
pub open spec fn is_scope_of(scope: LexicalScope, params: LexicalSearchParams) -> bool {
    &&& scope.mode@ == params.mode@
    &&& scope.case@ == params.case@
    &&& scope.multiline == params.multiline
    &&& scope.max_files == params.max_files
    &&& scope.max_matches == params.max_matches
    &&& scope.include_generated == params.include_generated
    &&& texts(scope.include_paths@) == texts(params.include_paths@)
    &&& texts(scope.exclude_paths@) == texts(params.exclude_paths@)
    &&& scope.context_lines == params.context_lines
}

/// What keeps a request from being searched: what is wrong with it by itself,
/// with its patterns, its path globs, or its project.
pub open spec fn lexical_search_error(
    params: LexicalSearchParams,
    pattern_error: Option<Seq<char>>,
    glob_error: Option<Seq<char>>,
) -> Option<ErrorModel> {
    if lexical_request_error(params) is Some {
        lexical_request_error(params)
    } else if pattern_error is Some {
        Some(invalid_params(pattern_error->0))
    } else if glob_error is Some {
        Some(invalid_params(glob_error->0))
    } else if params.project_id@.len() == 0 {
        Some(
            invalid_params(
                crate::project::identifier_error_text(
                    crate::project::IdentifierError::EmptyProjectId,
                ),
            ),
        )
    } else {
        None
    }
}

/// The plan of a request that can be searched.
pub open spec fn is_lexical_plan(plan: LexicalSearchPlan, params: LexicalSearchParams) -> bool {
    let budget = if params.max_bytes < LEXICAL_PAGE_BYTES {
        params.max_bytes
    } else {
        LEXICAL_PAGE_BYTES
    };
    let queries = requested_queries(params);
    match plan {
        LexicalSearchPlan::One { project_id, query, page_token, scope, max_bytes } => {
            &&& queries == seq![query@]
            &&& project_id@ == params.project_id@
            &&& optional_text(page_token) == optional_text(params.page_token)
            &&& is_scope_of(scope, params)
            &&& max_bytes == budget
        },
        LexicalSearchPlan::Many { project_id, queries: planned, scope, max_bytes } => {
            &&& queries.len() != 1
            &&& texts(planned@) == queries
            &&& project_id@ == params.project_id@
            &&& is_scope_of(scope, params)
            &&& max_bytes == budget
        },
    }
}

/// Checks a lexical search and says what it does, given the first error of
/// compiling its patterns and its path globs.
pub fn plan_lexical_search(
    params: LexicalSearchParams,
    pattern_error: Option<String>,
    glob_error: Option<String>,
) -> (plan: Result<LexicalSearchPlan, McpError>)
    ensures
        match plan {
            Ok(plan) => lexical_search_error(
                params,
                optional_text(pattern_error),
                optional_text(glob_error),
            ) is None && is_lexical_plan(plan, params),
            Err(error) => lexical_search_error(
                params,
                optional_text(pattern_error),
                optional_text(glob_error),
            ) == Some(error@),
        },
{
    let mut queries = match lexical_queries(&params) {
        Ok(queries) => queries,
        Err(error) => {
            return Err(error);
        },
    };
    if let Some(message) = pattern_error {
        return Err(McpError::invalid_params(message.as_str()));
    }
    if let Some(message) = glob_error {
        return Err(McpError::invalid_params(message.as_str()));
    }
    let project_id = match parse_project_id(params.project_id.as_str()) {
        Ok(id) => id,
        Err(error) => {
            return Err(error);
        },
    };
    let max_bytes = effective_lexical_page_bytes(params.max_bytes);
    let scope = LexicalScope {
        mode: params.mode,
        case: params.case,
        multiline: params.multiline,
        max_files: params.max_files,
        max_matches: params.max_matches,
        include_generated: params.include_generated,
        include_paths: params.include_paths,
        exclude_paths: params.exclude_paths,
        context_lines: params.context_lines,
    };
    assert(requested_queries(params).len() == queries@.len());
    if queries.len() == 1 {
        let query = queries.remove(0);
        assert(requested_queries(params) =~= seq![query@]);
        Ok(
            LexicalSearchPlan::One {
                project_id,
                query,
                page_token: params.page_token,
                scope,
                max_bytes,
            },
        )
    } else {
        Ok(LexicalSearchPlan::Many { project_id, queries, scope, max_bytes })
    }
}

/// What scanning a project for one query found.
pub struct LexicalSearchScan {
    pub matches: Vec<LexicalSearchMatch>,
    pub offset: usize,
    pub total_matches: usize,
    pub scanned_files: usize,
    pub scanned_bytes: usize,
    pub page_token: String,
    pub snapshot_identity: String,
}

/// How the page of a scan is accounted for.
pub open spec fn scan_accounting(scan: LexicalSearchScan, max_bytes: nat) -> AccountingModel {
    AccountingModel {
        offset: scan.offset as nat,
        has_next_page: saturating_sum(scan.offset as nat, scan.matches@.len())
            < scan.total_matches,
        max_bytes,
        total_matches: scan.total_matches as nat,
        scanned_files: scan.scanned_files as nat,
        scanned_bytes: scan.scanned_bytes as nat,
        cursor_token: Some(scan.page_token@),
        snapshot_identity: scan.snapshot_identity@,
    }
}

pub open spec fn lexical_page_budget_text(size: nat) -> Seq<char> {
    "max_bytes must be at least "@ + decimal(size) + " to return one lexical match identity"@
}

pub open spec fn lexical_batch_budget_text(size: nat) -> Seq<char> {
    "max_bytes must be at least "@ + decimal(size) + " for lexical batch metadata"@
}

/// Answers a search for one query with the page that fits.
pub fn lexical_page_answer(scan: LexicalSearchScan, max_bytes: usize) -> (answer: Result<
    StructuredOutput,
    McpError,
>)
    requires
        scan.offset + scan.matches@.len() <= usize::MAX,
    ensures
        match fitting_page(
            match_models(scan.matches@),
            scan.matches@.len(),
            scan_accounting(scan, max_bytes as nat),
        ) {
            Ok(page) => answer matches Ok(output) && encodes(output, keyed(lexical_json(page))),
            Err(size) => answer matches Err(error) && error@ == invalid_params(
                lexical_page_budget_text(size),
            ),
        },
{
    let has_next_page = sum_or_max(scan.offset, scan.matches.len()) < scan.total_matches;
    let accounting = LexicalAccounting {
        offset: scan.offset,
        has_next_page,
        max_bytes,
        total_matches: scan.total_matches,
        scanned_files: scan.scanned_files,
        scanned_bytes: scan.scanned_bytes,
        cursor_token: Some(scan.page_token),
        snapshot_identity: scan.snapshot_identity,
    };
    match bounded_lexical_page_with_accounting(scan.matches, accounting) {
        Ok(page) => Ok(encode_json(lexical_value(&page).keyed())),
        Err(size) => {
            let message = concat3(
                "max_bytes must be at least ",
                decimal_text(size as u64).as_str(),
                " to return one lexical match identity",
            );
            Err(McpError::invalid_params(message.as_str()))
        },
    }
}

/// Answers a search for several queries with the batch that fits.
pub fn lexical_batch_answer(batch: LexicalSearchBatchResult, max_bytes: usize) -> (answer: Result<
    StructuredOutput,
    McpError,
>)
    requires
        count_bound(entry_models(batch.entries@)) <= usize::MAX,
    ensures
        match fitting_batch(batch@, max_bytes as nat) {
            Ok(bounded) => answer matches Ok(output) && encodes(output, keyed(batch_json(bounded))),
            Err(size) => answer matches Err(error) && error@ == invalid_params(
                lexical_batch_budget_text(size),
            ),
        },
{
    match bounded_lexical_batch(batch, max_bytes) {
        Ok(bounded) => Ok(encode_json(batch_value(&bounded).keyed())),
        Err(size) => {
            let message = concat3(
                "max_bytes must be at least ",
                decimal_text(size as u64).as_str(),
                " for lexical batch metadata",
            );
            Err(McpError::invalid_params(message.as_str()))
        },
    }
}

/// A page that is answered for a scan says where the search stands. It counts the
/// matches it gives, and what remains of the total behind them. Exactly where it
/// leaves something out, of the scan or of the total, it is marked as truncated and
/// names the next page: the token of the scan, a colon and the place behind the last
/// match given. Where the scan lies within the total, no next page is named only
/// where nothing remains.
pub proof fn law_scan_page_names_the_next_page(scan: LexicalSearchScan, max_bytes: nat)
    requires
        scan.offset + scan.matches@.len() <= usize::MAX,
    ensures
        fitting_page(
            match_models(scan.matches@),
            scan.matches@.len(),
            scan_accounting(scan, max_bytes),
        ) matches Ok(page) ==> {
            let next = scan.offset + page.matches.len();
            &&& page.returned == page.matches.len()
            &&& page.returned <= scan.matches@.len()
            &&& page.total == scan.total_matches
            &&& next <= scan.total_matches ==> page.remaining == scan.total_matches - next
            &&& next > scan.total_matches ==> page.remaining == 0
            &&& next < scan.total_matches ==> page.truncated
            &&& page.returned < scan.matches@.len() ==> page.truncated
            &&& page.truncated ==> next < scan.total_matches || page.returned
                < scan.matches@.len()
            &&& page.truncated ==> page.next_cursor == Some(
                scan.page_token@ + ":"@ + decimal(next as nat),
            )
            &&& !page.truncated ==> page.next_cursor is None
            &&& scan.offset + scan.matches@.len() <= scan.total_matches ==> (
            page.next_cursor is None <==> page.remaining == 0)
            &&& page.scanned_files == scan.scanned_files
            &&& page.scanned_bytes == scan.scanned_bytes
            &&& page.max_bytes == max_bytes
            &&& page.snapshot_identity == scan.snapshot_identity@
        },
{
    let matches = match_models(scan.matches@);
    let accounting = scan_accounting(scan, max_bytes);
    law_lexical_page_accounts(matches, scan.matches@.len(), accounting);
    law_lexical_page_keeps_leading_matches(matches, scan.matches@.len(), accounting);
}

/// A page that is answered for a scan gives the first matches of the scan, each with
/// its path, digest, version, resource and byte range. A match is given with its
/// source or without, and where a match was left out every other is without. A scan
/// whose whole page fits is given whole. A page is refused only where even one match
/// would not fit, with the size that it would take.
pub proof fn law_scan_page_gives_the_first_matches(scan: LexicalSearchScan, max_bytes: nat)
    ensures
        ({
            let whole = page_of(
                match_models(scan.matches@),
                scan.matches@.len(),
                scan_accounting(scan, max_bytes),
            );
            match fitting_page(
                match_models(scan.matches@),
                scan.matches@.len(),
                scan_accounting(scan, max_bytes),
            ) {
                Ok(page) => {
                    &&& page.matches.len() <= scan.matches@.len()
                    &&& forall|i: int|
                        0 <= i < page.matches.len() ==> {
                            let found = scan.matches@[i];
                            let shown = #[trigger] page.matches[i];
                            &&& shown.project_relative_path == found.project_relative_path@
                            &&& shown.document_version == found.document_version
                            &&& shown.content_hash == found.content_hash@
                            &&& shown.source_uri == found.source_uri@
                            &&& shown.start == found.byte_range.start
                            &&& shown.end == found.byte_range.end
                            &&& shown.source matches Some(source) ==> found.source matches Some(
                                given,
                            ) && given@ == source
                            &&& page.matches.len() < scan.matches@.len() ==> shown.source is None
                        }
                    &&& json_len(lexical_json(page)) <= max_bytes || scan.matches@.len() == 0
                    &&& json_len(lexical_json(whole)) <= max_bytes ==> page.matches.len()
                        == scan.matches@.len() && forall|i: int|
                        0 <= i < page.matches.len() ==> ((#[trigger] page.matches[i]).source is Some
                            <==> scan.matches@[i].source is Some)
                },
                Err(size) => {
                    &&& size > max_bytes
                    &&& scan.matches@.len() > 0
                    &&& json_len(lexical_json(whole)) > max_bytes
                },
            }
        }),
{
    let matches = match_models(scan.matches@);
    let accounting = scan_accounting(scan, max_bytes);
    law_lexical_page_keeps_leading_matches(matches, scan.matches@.len(), accounting);
    law_lexical_page_is_bounded(matches, scan.matches@.len(), accounting);
    lemma_refused_page(matches, scan.matches@.len(), accounting);
    if let Ok(page) = fitting_page(matches, scan.matches@.len(), accounting) {
        assert forall|i: int| 0 <= i < page.matches.len() implies {
            let shown = #[trigger] page.matches[i];
            shown == scan.matches@[i]@ || shown == without_source(scan.matches@[i]@)
        } by {
            assert(matches[i] == scan.matches@[i]@);
        }
    }
}

/// A page that is refused would take more than the budget with one match alone and
/// no source.
proof fn lemma_refused_page(
    matches: Seq<MatchModel>,
    candidates: nat,
    accounting: AccountingModel,
)
    ensures
        fitting_page(matches, candidates, accounting) matches Err(size) ==> {
            &&& matches.len() > 0
            &&& size > accounting.max_bytes
            &&& size == json_len(
                lexical_json(
                    page_of(seq![without_source(matches[0])], candidates, accounting),
                ),
            )
        },
    decreases reducible(matches),
{
    lemma_reduced(matches);
    let page = page_of(matches, candidates, accounting);
    if !(json_len(lexical_json(page)) <= accounting.max_bytes || matches.len() == 0) {
        match reduced(matches) {
            Some(less) => {
                lemma_refused_page(less, candidates, accounting);
            },
            None => {
                assert(matches[0].source is None);
                assert(matches =~= seq![without_source(matches[0])]);
            },
        }
    }
}

/// Whether a value shows a lexical match member by member.
pub open spec fn shows_match(value: Json, found: MatchModel) -> bool {
    &&& member(value, "project_relative_path"@) == Some(Json::Text(found.project_relative_path))
    &&& member(value, "document_version"@) == match found.document_version {
        Some(version) => Some(signed_json(version as int)),
        None => None,
    }
    &&& member(value, "content_hash"@) == Some(Json::Text(found.content_hash))
    &&& member(value, "source_uri"@) == Some(Json::Text(found.source_uri))
    &&& member(value, "source"@) == match found.source {
        Some(source) => Some(keyed(source)),
        None => None,
    }
    &&& member(value, "byte_range"@) matches Some(range) && {
        &&& member(range, "start"@) == Some(json_count(found.start))
        &&& member(range, "end"@) == Some(json_count(found.end))
    }
}

proof fn lemma_shows_match(found: MatchModel)
    ensures
        shows_match(keyed(match_json(found)), found),
{
    reveal_strlit("project_relative_path");
    reveal_strlit("document_version");
    reveal_strlit("content_hash");
    reveal_strlit("source_uri");
    reveal_strlit("source");
    reveal_strlit("byte_range");
    reveal_strlit("start");
    reveal_strlit("end");
    assert("project_relative_path"@.len() == 21);
    assert("document_version"@.len() == 16);
    assert("content_hash"@.len() == 12);
    assert("source_uri"@.len() == 10);
    assert("source"@.len() == 6);
    assert("byte_range"@.len() == 10);
    assert("start"@.len() == 5);
    assert("end"@.len() == 3);
    assert("source_uri"@[0] == 's');
    assert("byte_range"@[0] == 'b');
    lemma_last_pushed();
    reveal_with_fuel(keyed, 2);
    let range = Json::Object(
        no_fields().push(("start"@, json_count(found.start))).push(
            ("end"@, json_count(found.end)),
        ),
    );
    lemma_keyed_members(range);
    lemma_keyed_members(match_json(found));
}

/// Whether a value shows a page of lexical matches member by member.
pub open spec fn shows_page(value: Json, page: LexicalModel) -> bool {
    &&& member(value, "matches"@) matches Some(Json::Array(shown)) && shown.len()
        == page.matches.len() && forall|i: int|
        0 <= i < page.matches.len() ==> shows_match(#[trigger] shown[i], page.matches[i])
    &&& member(value, "returned"@) == Some(json_count(page.returned))
    &&& member(value, "total"@) == Some(json_count(page.total))
    &&& member(value, "remaining"@) == Some(json_count(page.remaining))
    &&& member(value, "scanned_files"@) == Some(json_count(page.scanned_files))
    &&& member(value, "scanned_bytes"@) == Some(json_count(page.scanned_bytes))
    &&& member(value, "max_bytes"@) == Some(json_count(page.max_bytes))
    &&& member(value, "snapshot_identity"@) == Some(Json::Text(page.snapshot_identity))
    &&& member(value, "next_cursor"@) == match page.next_cursor {
        Some(cursor) => Some(Json::Text(cursor)),
        None => None,
    }
    &&& member(value, "truncated"@) == Some(Json::Bool(page.truncated))
}

/// The answer with a page shows every match and every count of it under its name.
pub proof fn law_page_answer_shows_the_page(page: LexicalModel)
    ensures
        shows_page(keyed(lexical_json(page)), page),
{
    reveal_strlit("matches");
    reveal_strlit("returned");
    reveal_strlit("total");
    reveal_strlit("remaining");
    reveal_strlit("scanned_files");
    reveal_strlit("scanned_bytes");
    reveal_strlit("max_bytes");
    reveal_strlit("snapshot_identity");
    reveal_strlit("next_cursor");
    reveal_strlit("truncated");
    assert("matches"@.len() == 7);
    assert("returned"@.len() == 8);
    assert("total"@.len() == 5);
    assert("remaining"@.len() == 9);
    assert("scanned_files"@.len() == 13);
    assert("scanned_bytes"@.len() == 13);
    assert("max_bytes"@.len() == 9);
    assert("snapshot_identity"@.len() == 17);
    assert("next_cursor"@.len() == 11);
    assert("truncated"@.len() == 9);
    assert("remaining"@[0] == 'r');
    assert("max_bytes"@[0] == 'm');
    assert("truncated"@[0] == 't');
    assert("scanned_files"@[8] == 'f');
    assert("scanned_bytes"@[8] == 'b');
    lemma_last_pushed();
    reveal_with_fuel(keyed, 2);
    lemma_keyed_members(lexical_json(page));
    let shown = keyed(matches_json(page.matches))->Array_0;
    assert forall|i: int| 0 <= i < page.matches.len() implies shows_match(
        #[trigger] shown[i],
        page.matches[i],
    ) by {
        assert(matches_json(page.matches)->Array_0[i] == match_json(page.matches[i]));
        lemma_shows_match(page.matches[i]);
    }
}

/// The answer with a batch shows its entries in order, each with its query and its
/// page, and the counts over all of them, unless a detail goes by the same name.
pub proof fn law_batch_answer_shows_the_entries(batch: BatchModel)
    ensures
        ({
            let value = keyed(batch_json(batch));
            &&& last_under(batch.details, "entries"@) is None ==> shows_entries(
                member(value, "entries"@),
                batch.entries,
            )
            &&& last_under(batch.details, "returned"@) is None ==> member(value, "returned"@)
                == Some(json_count(batch.returned))
            &&& last_under(batch.details, "truncated"@) is None ==> member(value, "truncated"@)
                == Some(Json::Bool(batch.truncated))
        }),
        forall|key: Seq<char>| #[trigger]
            last_under(batch.details, key) matches Some(detail) ==> member(
                keyed(batch_json(batch)),
                key,
            ) == Some(keyed(detail)),
{
    reveal_strlit("entries");
    reveal_strlit("returned");
    reveal_strlit("truncated");
    assert("entries"@.len() == 7);
    assert("returned"@.len() == 8);
    assert("truncated"@.len() == 9);
    lemma_last_pushed();
    reveal_with_fuel(keyed, 2);
    lemma_keyed_members(batch_json(batch));
    let entries = Json::Array(
        Seq::new(batch.entries.len(), |i: int| entry_json(batch.entries[i])),
    );
    let own = no_fields().push(("entries"@, entries)).push(
        ("returned"@, json_count(batch.returned)),
    ).push(("truncated"@, Json::Bool(batch.truncated)));
    lemma_last_joined(own, batch.details);
    assert(batch_json(batch)->Object_0 == own + batch.details);
    let shown = keyed(entries)->Array_0;
    assert forall|i: int| 0 <= i < batch.entries.len() implies shows_entry(
        #[trigger] shown[i],
        batch.entries[i],
    ) by {
        assert(entries->Array_0[i] == entry_json(batch.entries[i]));
        lemma_shows_entry(batch.entries[i]);
    }
    assert forall|key: Seq<char>| (#[trigger] last_under(batch.details, key)) is Some implies member(
        keyed(batch_json(batch)),
        key,
    ) == Some(keyed(last_under(batch.details, key)->0)) by {
        assert(last_under(own + batch.details, key) == last_under(batch.details, key));
        assert(member(keyed(batch_json(batch)), key) is Some);
    }
}

/// Whether a value shows the entries of a batch in order.
pub open spec fn shows_entries(value: Option<Json>, entries: Seq<EntryModel>) -> bool {
    value matches Some(Json::Array(shown)) && shown.len() == entries.len() && forall|i: int|
        0 <= i < entries.len() ==> shows_entry(#[trigger] shown[i], entries[i])
}

/// Whether a value shows one entry of a batch, where no detail goes by the names of
/// its query and its page.
pub open spec fn shows_entry(value: Json, entry: EntryModel) -> bool {
    &&& last_under(entry.details, "query"@) is None ==> member(value, "query"@) == Some(
        Json::Text(entry.query),
    )
    &&& last_under(entry.details, "result"@) is None ==> match entry.result {
        Some(page) => member(value, "result"@) matches Some(shown) && shows_page(shown, page),
        None => member(value, "result"@) is None,
    }
}

proof fn lemma_shows_entry(entry: EntryModel)
    ensures
        shows_entry(keyed(entry_json(entry)), entry),
{
    reveal_strlit("query");
    reveal_strlit("result");
    assert("query"@.len() == 5);
    assert("result"@.len() == 6);
    lemma_last_pushed();
    reveal_with_fuel(keyed, 2);
    lemma_keyed_members(entry_json(entry));
    let own = with_some(
        no_fields().push(("query"@, Json::Text(entry.query))),
        "result"@,
        some_page(entry.result),
    );
    lemma_last_joined(own, entry.details);
    assert(entry_json(entry)->Object_0 == own + entry.details);
    if let Some(page) = entry.result {
        law_page_answer_shows_the_page(page);
    }
}

/// Fields behind other fields answer first.
proof fn lemma_last_joined(own: Seq<(Seq<char>, Json)>, more: Seq<(Seq<char>, Json)>)
    ensures
        forall|key: Seq<char>| #[trigger]
            last_under(own + more, key) == match last_under(more, key) {
                Some(value) => Some(value),
                None => last_under(own, key),
            },
    decreases more.len(),
{
    if more.len() == 0 {
        assert(own + more =~= own);
    } else {
        lemma_last_joined(own, more.drop_last());
        assert((own + more).drop_last() =~= own + more.drop_last());
        assert((own + more).last() == more.last());
        assert forall|key: Seq<char>| #[trigger]
            last_under(own + more, key) == match last_under(more, key) {
                Some(value) => Some(value),
                None => last_under(own, key),
            } by {
            assert(last_under(own + more.drop_last(), key) == match last_under(
                more.drop_last(),
                key,
            ) {
                Some(value) => Some(value),
                None => last_under(own, key),
            });
        }
    }
}

/// A batch that was cut keeps the account of each query: its total, what remains,
/// what was scanned, its snapshot and its next page. It counts the matches that it
/// gives, and one that fits is given as it is.
pub proof fn law_lexical_batch_keeps_the_accounts(batch: BatchModel, max_bytes: nat)
    ensures
        fitting_batch(batch, max_bytes) matches Ok(bounded) ==> {
            &&& bounded.entries.len() == batch.entries.len()
            &&& forall|i: int|
                0 <= i < bounded.entries.len() ==> match ((
                #[trigger] bounded.entries[i]).result, batch.entries[i].result) {
                    (Some(less), Some(page)) => {
                        &&& less.total == page.total
                        &&& less.remaining == page.remaining
                        &&& less.scanned_files == page.scanned_files
                        &&& less.scanned_bytes == page.scanned_bytes
                        &&& less.max_bytes == page.max_bytes
                        &&& less.snapshot_identity == page.snapshot_identity
                        &&& less.next_cursor == page.next_cursor
                    },
                    (None, None) => true,
                    _ => false,
                }
            &&& json_len(batch_json(counted(batch))) <= max_bytes ==> bounded.entries
                == batch.entries && bounded.truncated == batch.truncated
        },
        fitting_batch(batch, max_bytes) matches Err(size) ==> size > max_bytes,
    decreases held_matches(batch.entries),
{
    lemma_last_with_match(batch.entries);
    let whole = counted(batch);
    if json_len(batch_json(whole)) > max_bytes {
        match last_with_match(whole.entries) {
            Some(at) => {
                let less = BatchModel {
                    entries: whole.entries.update(at, shortened_entry(whole.entries[at])),
                    truncated: true,
                    ..whole
                };
                law_lexical_batch_keeps_the_accounts(less, max_bytes);
            },
            None => {},
        }
    }
}

/// A batch counts the matches of its entries one by one.
pub proof fn law_batch_counts_its_entries(entries: Seq<EntryModel>, entry: EntryModel)
    ensures
        batch_returned(Seq::empty()) == 0,
        batch_returned(entries.push(entry)) == batch_returned(entries) + match entry.result {
            Some(page) => page.returned,
            None => 0,
        },
{
    assert(entries.push(entry).drop_last() =~= entries);
}

/// A lexical request is well-formed exactly where its limits are positive, its byte
/// budget lies within bounds, it asks one query or a list of them and not both, and
/// it names a page only of one query.
pub proof fn law_lexical_request_is_checked(
    params: LexicalSearchParams,
    pattern_error: Option<Seq<char>>,
    glob_error: Option<Seq<char>>,
)
    ensures
        lexical_request_error(params) is None <==> {
            &&& params.max_files > 0
            &&& params.max_matches > 0
            &&& 4096 <= params.max_bytes <= 1048576
            &&& params.query is Some <==> params.queries@.len() == 0
            &&& params.page_token is Some ==> params.query is Some || params.queries@.len() == 1
        },
        lexical_search_error(params, pattern_error, glob_error) is None <==> {
            &&& lexical_request_error(params) is None
            &&& pattern_error is None
            &&& glob_error is None
            &&& params.project_id@.len() > 0
        },
        lexical_request_error(params) is Some ==> lexical_search_error(
            params,
            pattern_error,
            glob_error,
        ) == lexical_request_error(params),
        lexical_request_error(params) is None ==> (pattern_error matches Some(message)
            ==> lexical_search_error(params, pattern_error, glob_error) == Some(
            invalid_params(message),
        )),
        lexical_request_error(params) is None && pattern_error is None ==> (
        glob_error matches Some(message) ==> lexical_search_error(params, pattern_error, glob_error)
            == Some(invalid_params(message))),
{
}

/// The queries of a request are the listed ones in order, or the single one.
pub proof fn law_requested_queries_are_those_given(params: LexicalSearchParams)
    requires
        lexical_request_error(params) is None,
    ensures
        params.query matches Some(query) ==> requested_queries(params) == seq![query@],
        params.query is None ==> {
            &&& requested_queries(params).len() == params.queries@.len()
            &&& forall|i: int|
                0 <= i < params.queries@.len() ==> #[trigger] requested_queries(params)[i]
                    == params.queries@[i]@
        },
{
    if let Some(query) = params.query {
        assert(requested_queries(params) =~= seq![query@]);
    }
}

/// A planned search runs what the request asks: one query or several, in order,
/// over the same scope, within the smaller of the request's budget and one page.
pub proof fn law_planned_search_runs_the_request(
    plan: LexicalSearchPlan,
    params: LexicalSearchParams,
)
    requires
        lexical_request_error(params) is None,
        is_lexical_plan(plan, params),
    ensures
        match plan {
            LexicalSearchPlan::One { project_id, query, page_token, scope, max_bytes } => {
                &&& params.query is Some || params.queries@.len() == 1
                &&& params.query matches Some(asked) ==> query@ == asked@
                &&& params.query is None ==> query@ == params.queries@[0]@
                &&& project_id@ == params.project_id@
                &&& page_token is Some <==> params.page_token is Some
                &&& page_token matches Some(token) ==> token@ == params.page_token->0@
                &&& max_bytes <= params.max_bytes && max_bytes <= 16384
                &&& max_bytes == params.max_bytes || max_bytes == 16384
                &&& is_scope_of(scope, params)
            },
            LexicalSearchPlan::Many { project_id, queries, scope, max_bytes } => {
                &&& params.query is None && params.queries@.len() > 1
                &&& params.page_token is None
                &&& queries@.len() == params.queries@.len()
                &&& forall|i: int|
                    0 <= i < queries@.len() ==> (#[trigger] queries@[i])@ == params.queries@[i]@
                &&& project_id@ == params.project_id@
                &&& max_bytes <= params.max_bytes && max_bytes <= 16384
                &&& max_bytes == params.max_bytes || max_bytes == 16384
                &&& is_scope_of(scope, params)
            },
        },
{
    law_requested_queries_are_those_given(params);
    match plan {
        LexicalSearchPlan::One { project_id, query, page_token, scope, max_bytes } => {
            assert(requested_queries(params)[0] == query@);
        },
        LexicalSearchPlan::Many { project_id, queries, scope, max_bytes } => {
            assert forall|i: int| 0 <= i < queries@.len() implies (#[trigger] queries@[i])@
                == params.queries@[i]@ by {
                assert(texts(queries@)[i] == queries@[i]@);
            }
            assert(texts(queries@).len() == queries@.len());
        },
    }
}

/// The scope of a planned search is the scope of its request, field by field.
pub proof fn law_planned_scope_is_the_requested_one(scope: LexicalScope, params: LexicalSearchParams)
    requires
        is_scope_of(scope, params),
    ensures
        scope.mode@ == params.mode@,
        scope.case@ == params.case@,
        scope.multiline == params.multiline,
        scope.max_files == params.max_files,
        scope.max_matches == params.max_matches,
        scope.include_generated == params.include_generated,
        scope.context_lines == params.context_lines,
        scope.include_paths@.len() == params.include_paths@.len(),
        forall|i: int|
            0 <= i < scope.include_paths@.len() ==> (#[trigger] scope.include_paths@[i])@
                == params.include_paths@[i]@,
        scope.exclude_paths@.len() == params.exclude_paths@.len(),
        forall|i: int|
            0 <= i < scope.exclude_paths@.len() ==> (#[trigger] scope.exclude_paths@[i])@
                == params.exclude_paths@[i]@,
{
    assert(texts(scope.include_paths@).len() == texts(params.include_paths@).len());
    assert(texts(scope.exclude_paths@).len() == texts(params.exclude_paths@).len());
    assert forall|i: int| 0 <= i < scope.include_paths@.len() implies (
    #[trigger] scope.include_paths@[i])@ == params.include_paths@[i]@ by {
        assert(texts(scope.include_paths@)[i] == texts(params.include_paths@)[i]);
    }
    assert forall|i: int| 0 <= i < scope.exclude_paths@.len() implies (
    #[trigger] scope.exclude_paths@[i])@ == params.exclude_paths@[i]@ by {
        assert(texts(scope.exclude_paths@)[i] == texts(params.exclude_paths@)[i]);
    }
}

/// The matches without their sources.
pub open spec fn without_sources(matches: Seq<MatchModel>) -> Seq<MatchModel> {
    Seq::new(matches.len(), |i: int| without_source(matches[i]))
}

/// A page leaves no more matches out than it has to: one more match, even without any
/// source, would not fit.
pub proof fn law_lexical_page_is_as_long_as_fits(
    matches: Seq<MatchModel>,
    candidates: nat,
    accounting: AccountingModel,
)
    ensures
        fitting_page(matches, candidates, accounting) matches Ok(page) ==> (page.matches.len()
            < matches.len() ==> json_len(
            lexical_json(
                page_of(
                    without_sources(matches).take(page.matches.len() as int + 1),
                    candidates,
                    accounting,
                ),
            ),
        ) > accounting.max_bytes),
    decreases reducible(matches),
{
    lemma_reduced(matches);
    law_lexical_page_keeps_leading_matches(matches, candidates, accounting);
    let whole = page_of(matches, candidates, accounting);
    if !(json_len(lexical_json(whole)) <= accounting.max_bytes || matches.len() == 0) {
        if let Some(less) = reduced(matches) {
            law_lexical_page_is_as_long_as_fits(less, candidates, accounting);
            law_lexical_page_keeps_leading_matches(less, candidates, accounting);
            let bare = without_sources(matches);
            if let Ok(page) = fitting_page(less, candidates, accounting) {
                let count = page.matches.len() as int;
                match last_source(matches) {
                    Some(at) => {
                        assert(without_sources(less) =~= bare);
                    },
                    None => {
                        assert forall|i: int| 0 <= i < matches.len() implies bare[i]
                            == #[trigger] matches[i] by {
                            assert(matches[i].source is None);
                        }
                        assert(bare =~= matches);
                        if count < less.len() {
                            assert(without_sources(less).take(count + 1) =~= bare.take(count + 1));
                        } else {
                            assert(bare.take(count + 1) =~= matches);
                        }
                    },
                }
            }
        }
    }
}

/// Sources are left out from the last match on: a match that lost its source has no
/// source behind it.
pub proof fn law_sources_are_left_out_from_the_end(
    matches: Seq<MatchModel>,
    candidates: nat,
    accounting: AccountingModel,
)
    ensures
        fitting_page(matches, candidates, accounting) matches Ok(page) ==> forall|i: int, j: int|
            0 <= i < j < page.matches.len() && (#[trigger] page.matches[i]).source is None
                && matches[i].source is Some ==> (#[trigger] page.matches[j]).source is None,
    decreases reducible(matches),
{
    lemma_reduced(matches);
    let whole = page_of(matches, candidates, accounting);
    if !(json_len(lexical_json(whole)) <= accounting.max_bytes || matches.len() == 0) {
        if let Some(less) = reduced(matches) {
            law_sources_are_left_out_from_the_end(less, candidates, accounting);
            law_lexical_page_keeps_leading_matches(less, candidates, accounting);
            if let Ok(page) = fitting_page(less, candidates, accounting) {
                assert forall|i: int, j: int|
                    0 <= i < j < page.matches.len() && (#[trigger] page.matches[i]).source is None
                        && matches[i].source is Some implies (#[trigger] page.matches[j]).source
                    is None by {
                    assert(page.matches[j] == less[j] || page.matches[j] == without_source(
                        less[j],
                    ));
                    if let Some(at) = last_source(matches) {
                        if i == at {
                            assert(matches[j].source is None);
                        }
                    }
                }
            }
        }
    }
}

/// A batch is cut from its end: an entry that lost a match has no match behind it in any
/// later entry.
pub proof fn law_lexical_batch_is_cut_from_the_end(batch: BatchModel, max_bytes: nat)
    ensures
        fitting_batch(batch, max_bytes) matches Ok(bounded) ==> bounded.entries.len()
            == batch.entries.len() && forall|i: int, j: int|
            0 <= i < j < bounded.entries.len() && #[trigger] bounded.entries[i] != batch.entries[i]
                ==> !has_match(#[trigger] bounded.entries[j]),
    decreases held_matches(batch.entries),
{
    lemma_last_with_match(batch.entries);
    let whole = counted(batch);
    if json_len(batch_json(whole)) > max_bytes {
        if let Some(at) = last_with_match(whole.entries) {
            let less = BatchModel {
                entries: whole.entries.update(at, shortened_entry(whole.entries[at])),
                truncated: true,
                ..whole
            };
            law_lexical_batch_is_cut_from_the_end(less, max_bytes);
            law_lexical_batch_keeps_queries(less, max_bytes);
            if let Ok(bounded) = fitting_batch(less, max_bytes) {
                assert forall|i: int, j: int|
                    0 <= i < j < bounded.entries.len() && #[trigger] bounded.entries[i]
                        != batch.entries[i] implies !has_match(#[trigger] bounded.entries[j]) by {
                    assert(keeps_entry(bounded.entries[j], less.entries[j]));
                    if bounded.entries[i] == less.entries[i] {
                        assert(i == at);
                        assert(!has_match(batch.entries[j]));
                    }
                }
            }
        }
    }
}

} // verus!
