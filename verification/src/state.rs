//! Sealed approval state: what travels through one approval round trip.

use crate::approval::{version_json, version_value};
use crate::json::{
    is_plain, json_array, json_models, json_opt_str, json_optional_text, json_str, json_strings,
    json_text, json_texts, keyed, keyed_entries, law_by_key_lookup, law_texts_stay_in_place,
    lemma_entry_pushed, lists_texts, member, no_fields, parse_json, parsed_json, read_depth,
    render, Json, JsonNumber, JsonObject, JsonValue, Numeral,
};
use crate::text::{concat2, optional_text, texts};
use rmcp::model::{RequestStateCodec, SealOptions};
use std::time::Duration;
use vstd::prelude::*;
use vstd::string::*;
use vstd::utf8::*;

verus! {

/// How long sealed approval state can be opened, in seconds.
pub const APPROVAL_TTL_SECONDS: u64 = 300;

/// Authenticated, non-source state carried through one approval round trip.
#[derive(Debug, PartialEq, Eq)]
pub struct MutationApprovalState {
    pub session_id: String,
    pub principal: Option<String>,
    pub method: String,
    pub tool_name: String,
    pub project_id: String,
    pub plan_id: String,
    pub arguments_digest: String,
    pub snapshot_hashes: Vec<String>,
    pub versions: Vec<Option<i32>>,
    pub nonce: String,
}

/// The model of approval state.
#[verifier::ext_equal]
pub struct StateModel {
    pub session_id: Seq<char>,
    pub principal: Option<Seq<char>>,
    pub method: Seq<char>,
    pub tool_name: Seq<char>,
    pub project_id: Seq<char>,
    pub plan_id: Seq<char>,
    pub arguments_digest: Seq<char>,
    pub snapshot_hashes: Seq<Seq<char>>,
    pub versions: Seq<Option<i32>>,
    pub nonce: Seq<char>,
}

impl View for MutationApprovalState {
    type V = StateModel;

    open spec fn view(&self) -> StateModel {
        StateModel {
            session_id: self.session_id@,
            principal: optional_text(self.principal),
            method: self.method@,
            tool_name: self.tool_name@,
            project_id: self.project_id@,
            plan_id: self.plan_id@,
            arguments_digest: self.arguments_digest@,
            snapshot_hashes: texts(self.snapshot_hashes@),
            versions: self.versions@,
            nonce: self.nonce@,
        }
    }
}

pub open spec fn versions_json(versions: Seq<Option<i32>>) -> Json {
    Json::Array(Seq::new(versions.len(), |i: int| version_json(versions[i])))
}

pub open spec fn state_fields(state: StateModel) -> Seq<(Seq<char>, Json)> {
    no_fields().push(("session_id"@, Json::Text(state.session_id))).push(
        ("principal"@, json_optional_text(state.principal)),
    ).push(("method"@, Json::Text(state.method))).push(
        ("tool_name"@, Json::Text(state.tool_name)),
    ).push(("project_id"@, Json::Text(state.project_id))).push(
        ("plan_id"@, Json::Text(state.plan_id)),
    ).push(("arguments_digest"@, Json::Text(state.arguments_digest))).push(
        ("snapshot_hashes"@, json_texts(state.snapshot_hashes)),
    ).push(("versions"@, versions_json(state.versions))).push(("nonce"@, Json::Text(state.nonce)))
}

/// The bytes that are sealed for some approval state.
pub open spec fn state_payload(state: StateModel) -> Seq<u8> {
    encode_utf8(json_text(Json::Object(state_fields(state))))
}

/// Document versions as JSON.
pub fn versions_value(versions: &Vec<Option<i32>>) -> (json: JsonValue)
    ensures
        json@ == versions_json(versions@),
{
    let mut values: Vec<JsonValue> = Vec::new();
    let mut i: usize = 0;
    while i < versions.len()
        invariant
            i <= versions@.len(),
            values@.len() == i,
            forall|j: int| 0 <= j < i ==> (#[trigger] values@[j])@ == version_json(versions@[j]),
        decreases versions@.len() - i,
    {
        values.push(version_value(versions[i]));
        i = i + 1;
    }
    let json = json_array(values);
    assert(json@->Array_0 =~= versions_json(versions@)->Array_0);
    json
}

fn payload_of(state: &MutationApprovalState) -> (payload: Vec<u8>)
    ensures
        payload@ == state_payload(state@),
{
    let mut fields = JsonObject::new();
    fields.put("session_id", json_str(state.session_id.as_str()));
    fields.put("principal", json_opt_str(&state.principal));
    fields.put("method", json_str(state.method.as_str()));
    fields.put("tool_name", json_str(state.tool_name.as_str()));
    fields.put("project_id", json_str(state.project_id.as_str()));
    fields.put("plan_id", json_str(state.plan_id.as_str()));
    fields.put("arguments_digest", json_str(state.arguments_digest.as_str()));
    fields.put("snapshot_hashes", json_strings(&state.snapshot_hashes));
    fields.put("versions", versions_value(&state.versions));
    fields.put("nonce", json_str(state.nonce.as_str()));
    let value = fields.into_value();
    render(&value).as_str().as_bytes_vec()
}

/// A required text field.
pub open spec fn text_field(value: Json, key: Seq<char>) -> Option<Seq<char>> {
    match member(value, key) {
        Some(Json::Text(text)) => Some(text),
        _ => None,
    }
}

/// A text field that may be absent or null.
pub open spec fn optional_text_field(value: Json, key: Seq<char>) -> Option<Option<Seq<char>>> {
    match member(value, key) {
        None => Some(None),
        Some(Json::Null) => Some(None),
        Some(Json::Text(text)) => Some(Some(text)),
        _ => None,
    }
}

pub open spec fn all_texts(items: Seq<Json>) -> bool {
    forall|i: int| 0 <= i < items.len() ==> (#[trigger] items[i]) is Text
}

/// A required field that is a list of texts.
pub open spec fn texts_field(value: Json, key: Seq<char>) -> Option<Seq<Seq<char>>> {
    match member(value, key) {
        Some(Json::Array(items)) => if all_texts(items) {
            Some(Seq::new(items.len(), |i: int| items[i]->Text_0))
        } else {
            None
        },
        _ => None,
    }
}

/// The document version that a value is: null, or a 32-bit number.
pub open spec fn version_of(value: Json) -> Option<Option<i32>> {
    match value {
        Json::Null => Some(None),
        Json::Number(Numeral::Integer(number)) => if i32::MIN <= number <= i32::MAX {
            Some(Some(number as i32))
        } else {
            None
        },
        _ => None,
    }
}

pub open spec fn all_versions(items: Seq<Json>) -> bool {
    forall|i: int| 0 <= i < items.len() ==> version_of(#[trigger] items[i]) is Some
}

/// A required field that is a list of document versions.
pub open spec fn versions_field(value: Json, key: Seq<char>) -> Option<Seq<Option<i32>>> {
    match member(value, key) {
        Some(Json::Array(items)) => if all_versions(items) {
            Some(Seq::new(items.len(), |i: int| version_of(items[i])->0))
        } else {
            None
        },
        _ => None,
    }
}

/// The fields of approval state, listed in their order, under their keys.
pub open spec fn listed_fields(items: Seq<Json>) -> Seq<(Seq<char>, Json)> {
    no_fields().push(("session_id"@, items[0])).push(
        ("principal"@, items[1]),
    ).push(("method"@, items[2])).push(
        ("tool_name"@, items[3]),
    ).push(("project_id"@, items[4])).push(
        ("plan_id"@, items[5]),
    ).push(("arguments_digest"@, items[6])).push(
        ("snapshot_hashes"@, items[7]),
    ).push(("versions"@, items[8])).push(
        ("nonce"@, items[9]),
    )
}

/// The approval state that a JSON value holds: an object with the keys of the
/// state, or an array with its fields in their order.
pub open spec fn state_of(value: Json) -> Option<StateModel> {
    match value {
        Json::Array(items) => if items.len() == 10 {
            fields_state(Json::Object(listed_fields(items)))
        } else {
            None
        },
        _ => fields_state(value),
    }
}

/// The approval state under the keys of a JSON object.
pub open spec fn fields_state(value: Json) -> Option<StateModel> {
    let session_id = text_field(value, "session_id"@);
    let principal = optional_text_field(value, "principal"@);
    let method = text_field(value, "method"@);
    let tool_name = text_field(value, "tool_name"@);
    let project_id = text_field(value, "project_id"@);
    let plan_id = text_field(value, "plan_id"@);
    let arguments_digest = text_field(value, "arguments_digest"@);
    let snapshot_hashes = texts_field(value, "snapshot_hashes"@);
    let versions = versions_field(value, "versions"@);
    let nonce = text_field(value, "nonce"@);
    if session_id is Some && principal is Some && method is Some && tool_name is Some
        && project_id is Some && plan_id is Some && arguments_digest is Some
        && snapshot_hashes is Some && versions is Some && nonce is Some {
        Some(
            StateModel {
                session_id: session_id->0,
                principal: principal->0,
                method: method->0,
                tool_name: tool_name->0,
                project_id: project_id->0,
                plan_id: plan_id->0,
                arguments_digest: arguments_digest->0,
                snapshot_hashes: snapshot_hashes->0,
                versions: versions->0,
                nonce: nonce->0,
            },
        )
    } else {
        None
    }
}

fn read_text(value: &JsonValue, key: &str) -> (text: Option<String>)
    ensures
        optional_text(text) == text_field(value@, key@),
{
    match value.get(key) {
        Some(field) => match field.as_str() {
            Some(text) => Some(text.to_owned()),
            None => None,
        },
        None => None,
    }
}

fn read_optional_text(value: &JsonValue, key: &str) -> (text: Option<Option<String>>)
    ensures
        optional_text_field(value@, key@) == match text {
            Some(text) => Some(optional_text(text)),
            None => None,
        },
{
    match value.get(key) {
        Some(field) => match field {
            JsonValue::Null => Some(None),
            JsonValue::Text(text) => Some(Some(text.clone())),
            _ => None,
        },
        None => Some(None),
    }
}

fn read_texts(value: &JsonValue, key: &str) -> (found: Option<Vec<String>>)
    ensures
        texts_field(value@, key@) == match found {
            Some(found) => Some(texts(found@)),
            None => None,
        },
{
    let field = match value.get(key) {
        Some(field) => field,
        None => {
            return None;
        },
    };
    match field {
        JsonValue::Array(items) => {
            let mut found: Vec<String> = Vec::new();
            let mut i: usize = 0;
            while i < items.len()
                invariant
                    i <= items@.len(),
                    member(value@, key@) == Some(field@),
                    *field == JsonValue::Array(*items),
                    found@.len() == i,
                    forall|j: int|
                        0 <= j < i ==> field@->Array_0[j] == Json::Text(
                            (#[trigger] found@[j])@,
                        ),
                decreases items@.len() - i,
            {
                assert(field@->Array_0[i as int] == items@[i as int]@);
                match items[i].as_str() {
                    Some(text) => found.push(text.to_owned()),
                    None => {
                        assert(!all_texts(field@->Array_0));
                        return None;
                    },
                }
                i = i + 1;
            }
            proof {
                let models = field@->Array_0;
                assert forall|j: int| 0 <= j < models.len() implies (
                #[trigger] models[j]) is Text by {
                    assert(models[j] == Json::Text(found@[j]@));
                }
                assert(texts(found@) =~= Seq::new(models.len(), |i: int| models[i]->Text_0));
            }
            Some(found)
        },
        _ => None,
    }
}

fn read_version(value: &JsonValue) -> (version: Option<Option<i32>>)
    ensures
        version == version_of(value@),
{
    match value {
        JsonValue::Null => Some(None),
        JsonValue::Number(JsonNumber::Unsigned(number)) => if *number <= i32::MAX as u64 {
            Some(Some(*number as i32))
        } else {
            None
        },
        JsonValue::Number(JsonNumber::Negative(number)) => if *number >= i32::MIN as i64 && *number
            <= i32::MAX as i64 {
            Some(Some(*number as i32))
        } else {
            None
        },
        _ => None,
    }
}

fn read_versions(value: &JsonValue, key: &str) -> (found: Option<Vec<Option<i32>>>)
    ensures
        versions_field(value@, key@) == match found {
            Some(found) => Some(found@),
            None => None,
        },
{
    let field = match value.get(key) {
        Some(field) => field,
        None => {
            return None;
        },
    };
    match field {
        JsonValue::Array(items) => {
            let mut found: Vec<Option<i32>> = Vec::new();
            let mut i: usize = 0;
            while i < items.len()
                invariant
                    i <= items@.len(),
                    member(value@, key@) == Some(field@),
                    *field == JsonValue::Array(*items),
                    found@.len() == i,
                    forall|j: int|
                        0 <= j < i ==> version_of(field@->Array_0[j]) == Some(
                            #[trigger] found@[j],
                        ),
                decreases items@.len() - i,
            {
                assert(field@->Array_0[i as int] == items@[i as int]@);
                match read_version(&items[i]) {
                    Some(version) => found.push(version),
                    None => {
                        assert(!all_versions(field@->Array_0));
                        return None;
                    },
                }
                i = i + 1;
            }
            proof {
                let models = field@->Array_0;
                assert forall|j: int| 0 <= j < models.len() implies version_of(
                    #[trigger] models[j],
                ) is Some by {
                    assert(version_of(models[j]) == Some(found@[j]));
                }
                assert(found@ =~= Seq::new(models.len(), |i: int| version_of(models[i])->0));
            }
            Some(found)
        },
        _ => None,
    }
}

/// Reads approval state from a JSON value.
pub fn read_approval_state(value: &JsonValue) -> (state: Option<MutationApprovalState>)
    ensures
        state_of(value@) == match state {
            Some(state) => Some(state@),
            None => None,
        },
{
    match value {
        JsonValue::Array(items) => {
            assert(value@->Array_0 =~= json_models(items@));
            if items.len() != 10 {
                return None;
            }
            let mut fields = JsonObject::new();
            fields.put("session_id", items[0].duplicate());
            fields.put("principal", items[1].duplicate());
            fields.put("method", items[2].duplicate());
            fields.put("tool_name", items[3].duplicate());
            fields.put("project_id", items[4].duplicate());
            fields.put("plan_id", items[5].duplicate());
            fields.put("arguments_digest", items[6].duplicate());
            fields.put("snapshot_hashes", items[7].duplicate());
            fields.put("versions", items[8].duplicate());
            fields.put("nonce", items[9].duplicate());
            let listed = fields.into_value();
            assert(listed@ == Json::Object(listed_fields(value@->Array_0)));
            read_state_fields(&listed)
        },
        _ => {
            assert(value@ !is Array);
            read_state_fields(value)
        },
    }
}

fn read_state_fields(value: &JsonValue) -> (state: Option<MutationApprovalState>)
    ensures
        fields_state(value@) == match state {
            Some(state) => Some(state@),
            None => None,
        },
{
    Some(
        MutationApprovalState {
            session_id: read_text(value, "session_id")?,
            principal: read_optional_text(value, "principal")?,
            method: read_text(value, "method")?,
            tool_name: read_text(value, "tool_name")?,
            project_id: read_text(value, "project_id")?,
            plan_id: read_text(value, "plan_id")?,
            arguments_digest: read_text(value, "arguments_digest")?,
            snapshot_hashes: read_texts(value, "snapshot_hashes")?,
            versions: read_versions(value, "versions")?,
            nonce: read_text(value, "nonce")?,
        },
    )
}

/// The keys of approval state differ from each other.
proof fn lemma_state_keys_differ(state: StateModel)
    ensures
        forall|i: int, j: int|
            0 <= i < j < 10 ==> (#[trigger] state_fields(state)[i]).0 != (
            #[trigger] state_fields(state)[j]).0,
        state_fields(state).len() == 10,
{
    reveal_strlit("session_id");
    reveal_strlit("principal");
    reveal_strlit("method");
    reveal_strlit("tool_name");
    reveal_strlit("project_id");
    reveal_strlit("plan_id");
    reveal_strlit("arguments_digest");
    reveal_strlit("snapshot_hashes");
    reveal_strlit("versions");
    reveal_strlit("nonce");
    let fields = state_fields(state);
    assert(fields[0].0 == "session_id"@);
    assert(fields[1].0 == "principal"@);
    assert(fields[2].0 == "method"@);
    assert(fields[3].0 == "tool_name"@);
    assert(fields[4].0 == "project_id"@);
    assert(fields[5].0 == "plan_id"@);
    assert(fields[6].0 == "arguments_digest"@);
    assert(fields[7].0 == "snapshot_hashes"@);
    assert(fields[8].0 == "versions"@);
    assert(fields[9].0 == "nonce"@);
    assert("session_id"@[0] != "project_id"@[0]);
    assert("principal"@[0] != "tool_name"@[0]);
    assert forall|i: int, j: int| 0 <= i < j < 10 implies (#[trigger] fields[i]).0 != (
    #[trigger] fields[j]).0 by {
        assert(i == 0 || i == 1 || i == 2 || i == 3 || i == 4 || i == 5 || i == 6 || i == 7 || i
            == 8);
        assert(j == 1 || j == 2 || j == 3 || j == 4 || j == 5 || j == 6 || j == 7 || j == 8 || j
            == 9);
    }
}

proof fn lemma_state_member(state: StateModel, i: int)
    requires
        0 <= i < 10,
    ensures
        member(keyed(Json::Object(state_fields(state))), state_fields(state)[i].0) == Some(
            keyed(state_fields(state)[i].1),
        ),
{
    let fields = state_fields(state);
    lemma_state_keys_differ(state);
    let sorted = keyed_entries(fields);
    assert forall|j: int| i < j < sorted.len() implies (#[trigger] sorted[j]).0
        != fields[i].0 by {
        assert(fields[j].0 != fields[i].0);
    }
    law_by_key_lookup(sorted, i, fields[i].0);
}

/// Reading approval state back from its JSON, with the keys in order, gives the
/// state that was written.
pub proof fn law_state_reads_back(state: StateModel)
    ensures
        state_of(keyed(Json::Object(state_fields(state)))) == Some(state),
{
    reveal_with_fuel(keyed, 3);
    lemma_state_member(state, 0);
    lemma_state_member(state, 1);
    lemma_state_member(state, 2);
    lemma_state_member(state, 3);
    lemma_state_member(state, 4);
    lemma_state_member(state, 5);
    lemma_state_member(state, 6);
    lemma_state_member(state, 7);
    lemma_state_member(state, 8);
    lemma_state_member(state, 9);
    let hashes = json_texts(state.snapshot_hashes);
    assert(keyed(hashes)->Array_0 =~= hashes->Array_0);
    let versions = versions_json(state.versions);
    assert(keyed(versions)->Array_0 =~= versions->Array_0);
    assert(all_texts(hashes->Array_0));
    assert(Seq::new(hashes->Array_0.len(), |i: int| hashes->Array_0[i]->Text_0)
        =~= state.snapshot_hashes);
    assert(all_versions(versions->Array_0));
    assert(Seq::new(versions->Array_0.len(), |i: int| version_of(versions->Array_0[i])->0)
        =~= state.versions);
}

proof fn lemma_state_is_plain(state: StateModel)
    ensures
        is_plain(Json::Object(state_fields(state)), read_depth()),
{
    reveal_with_fuel(is_plain, 4);
    let fields = state_fields(state);
    assert forall|i: int| 0 <= i < fields.len() implies is_plain(
        (#[trigger] fields[i]).1,
        (read_depth() - 1) as nat,
    ) by {
        if i == 7 {
            assert(fields[i].1 == json_texts(state.snapshot_hashes));
        } else if i == 8 {
            assert(fields[i].1 == versions_json(state.versions));
        }
    }
}

/// What a sealed text that is opened too late is refused with.
pub const EXPIRED_STATE: &'static str = "request state has expired";

/// What `RequestStateCodec::open_with` makes of a sealed text with a single key
/// and associated data, expiry aside: the payload where the text is well formed
/// and its tag authentic for both, else the reason why it is refused.
pub uninterp spec fn sealed_payload(
    key: Seq<u8>,
    sealed: Seq<char>,
    context: Seq<u8>,
) -> Result<Seq<u8>, Seq<char>>;

/// What is handed over to be sealed: the payload, the data that it is bound to
/// and how long it can be opened.
#[derive(Debug, PartialEq, Eq)]
pub struct SealingRequest {
    pub payload: Vec<u8>,
    pub context: Vec<u8>,
    pub ttl_seconds: u64,
}

/// `RequestStateCodec::seal_with` under a single key, with associated data and a
/// time to live. Opening the result under the same key and associated data
/// gives the payload back until the time to live is over. The text itself holds
/// the time of sealing and is left open. All that is sealed lives for the
/// approval time.
#[verifier::external_body]
fn seal(key: &[u8], request: &SealingRequest) -> (sealed: String)
    requires
        request.ttl_seconds == APPROVAL_TTL_SECONDS,
    ensures
        sealed_payload(key@, sealed@, request.context@) is Ok,
        sealed_payload(key@, sealed@, request.context@)->Ok_0 == request.payload@,
{
    let ttl = Duration::from_secs(request.ttl_seconds);
    let options = SealOptions::new().associated_data(&request.context).ttl(ttl);
    RequestStateCodec::new_unchecked(key.to_vec()).seal_with(&request.payload, &options)
}

/// `RequestStateCodec::open_with` under a single key. It refuses a text that is
/// malformed or not authentic, for a reason that the arguments alone decide, and
/// gives the payload of every other text, unless that text has expired: expiry is
/// the one refusal that rests on the time, and is checked last. Whether a text
/// has expired is left open.
#[verifier::external_body]
fn open(key: &[u8], sealed: &str, context: &[u8]) -> (payload: Result<Vec<u8>, String>)
    ensures
        match sealed_payload(key@, sealed@, context@) {
            Ok(held) => match payload {
                Ok(bytes) => bytes@ == held,
                Err(reason) => reason@ == EXPIRED_STATE@,
            },
            Err(refusal) => payload matches Err(reason) && reason@ == refusal,
        },
{
    RequestStateCodec::new_unchecked(key.to_vec()).open_with(sealed, context).map_err(
        |error| error.to_string(),
    )
}

/// The approval state in a payload.
pub open spec fn payload_state(payload: Seq<u8>) -> Option<StateModel> {
    match parsed_json(payload) {
        Some(value) => state_of(value),
        None => None,
    }
}

/// What the refusal of a payload without approval state begins with.
pub const UNREADABLE_STATE: &'static str = "failed to deserialize request state payload: ";

pub open spec fn opened_model(opened: Result<MutationApprovalState, String>) -> Result<
    StateModel,
    Seq<char>,
> {
    match opened {
        Ok(state) => Ok(state@),
        Err(reason) => Err(reason@),
    }
}

/// The approval state in an opened payload, given what its typed reader made of
/// it: a payload that the typed reader refuses is refused in its words, any other
/// holds the state that its JSON value does. The typed state stands in where the
/// payload has parts beside the state that no JSON value can hold.
pub open spec fn payload_reading(payload: Seq<u8>, typed: Result<StateModel, Seq<char>>) -> Result<
    StateModel,
    Seq<char>,
> {
    match typed {
        Err(words) => Err(UNREADABLE_STATE@ + words),
        Ok(state) => match payload_state(payload) {
            Some(held) => Ok(held),
            None => Ok(state),
        },
    }
}

/// Reads approval state out of an opened payload, given what its typed reader
/// made of it. A payload that was made of approval state gives that state back.
pub fn read_opened_state(payload: &Vec<u8>, typed: Result<MutationApprovalState, String>) -> (state:
    Result<MutationApprovalState, String>)
    ensures
        opened_model(state) == payload_reading(payload@, opened_model(typed)),
        forall|written: StateModel|
            payload@ == #[trigger] state_payload(written) && typed is Ok ==> opened_model(state)
                == Ok::<StateModel, Seq<char>>(written),
{
    let typed = match typed {
        Ok(typed) => typed,
        Err(words) => {
            return Err(concat2(UNREADABLE_STATE, words.as_str()));
        },
    };
    let parsed = parse_json(payload.as_slice());
    proof {
        assert forall|written: StateModel|
            payload@ == #[trigger] state_payload(written) implies payload_state(payload@) == Some(
            written,
        ) by {
            lemma_state_is_plain(written);
            law_state_reads_back(written);
            let text = json_text(Json::Object(state_fields(written)));
        }
    }
    match parsed {
        Some(value) => match read_approval_state(&value) {
            Some(state) => Ok(state),
            None => Ok(typed),
        },
        None => Ok(typed),
    }
}

pub open spec fn payload_model(opened: Result<Vec<u8>, String>) -> Result<Seq<u8>, Seq<char>> {
    match opened {
        Ok(payload) => Ok(payload@),
        Err(reason) => Err(reason@),
    }
}

/// Whether opening a sealed text can give a result: what the text holds for the
/// key and associated data or, where its tag is authentic, the word that it has
/// expired.
pub open spec fn may_open_as(
    key: Seq<u8>,
    sealed: Seq<char>,
    context: Seq<u8>,
    opened: Result<Seq<u8>, Seq<char>>,
) -> bool {
    opened == sealed_payload(key, sealed, context) || {
        &&& sealed_payload(key, sealed, context) is Ok
        &&& opened == Err::<Seq<u8>, Seq<char>>(EXPIRED_STATE@)
    }
}

/// The request to seal approval state with the request binding and a short
/// expiry.
pub fn sealing_request(state: &MutationApprovalState, associated_data: &Vec<u8>) -> (request:
    SealingRequest)
    ensures
        request.payload@ == state_payload(state@),
        request.context@ == associated_data@,
        request.ttl_seconds == APPROVAL_TTL_SECONDS,
{
    SealingRequest {
        payload: payload_of(state),
        context: associated_data.clone(),
        ttl_seconds: APPROVAL_TTL_SECONDS,
    }
}

/// Seals approval state with the request binding and a short expiry.
pub fn seal_approval_state(
    key: &Vec<u8>,
    state: &MutationApprovalState,
    associated_data: &Vec<u8>,
) -> (sealed: String)
    ensures
        sealed_payload(key@, sealed@, associated_data@) == Ok::<Seq<u8>, Seq<char>>(
            state_payload(state@),
        ),
{
    let request = sealing_request(state, associated_data);
    seal(key.as_slice(), &request)
}

/// Opens and authenticates sealed approval state with the request binding. A text
/// that came from `seal_approval_state` for the same key and binding opens to the
/// payload that was sealed, or has expired.
pub fn open_approval_state(
    key: &Vec<u8>,
    sealed: &str,
    associated_data: &Vec<u8>,
) -> (payload: Result<Vec<u8>, String>)
    ensures
        may_open_as(key@, sealed@, associated_data@, payload_model(payload)),
{
    open(key.as_slice(), sealed, associated_data.as_slice())
}

/// Whether a value holds an approval state, each part under its name.
pub open spec fn holds_state(value: Json, state: StateModel) -> bool {
    &&& member(value, "session_id"@) == Some(Json::Text(state.session_id))
    &&& member(value, "method"@) == Some(Json::Text(state.method))
    &&& member(value, "tool_name"@) == Some(Json::Text(state.tool_name))
    &&& member(value, "project_id"@) == Some(Json::Text(state.project_id))
    &&& member(value, "plan_id"@) == Some(Json::Text(state.plan_id))
    &&& member(value, "arguments_digest"@) == Some(Json::Text(state.arguments_digest))
    &&& member(value, "nonce"@) == Some(Json::Text(state.nonce))
    &&& match state.principal {
        Some(principal) => member(value, "principal"@) == Some(Json::Text(principal)),
        None => member(value, "principal"@) is None || member(value, "principal"@) == Some(
            Json::Null,
        ),
    }
    &&& lists_texts(member(value, "snapshot_hashes"@), state.snapshot_hashes)
    &&& member(value, "versions"@) matches Some(Json::Array(items)) && items.len()
        == state.versions.len() && forall|i: int|
        0 <= i < items.len() ==> #[trigger] items[i] == match state.versions[i] {
            Some(version) => Json::Number(Numeral::Integer(version as int)),
            None => Json::Null,
        }
}

/// An approval state is written with each of its parts under its name.
pub proof fn law_written_state_holds_its_parts(state: StateModel)
    ensures
        holds_state(Json::Object(state_fields(state)), state),
{
    reveal_strlit("session_id");
    reveal_strlit("principal");
    reveal_strlit("method");
    reveal_strlit("tool_name");
    reveal_strlit("project_id");
    reveal_strlit("plan_id");
    reveal_strlit("arguments_digest");
    reveal_strlit("snapshot_hashes");
    reveal_strlit("versions");
    reveal_strlit("nonce");
    assert("session_id"@.len() == 10);
    assert("principal"@.len() == 9);
    assert("method"@.len() == 6);
    assert("tool_name"@.len() == 9);
    assert("project_id"@.len() == 10);
    assert("plan_id"@.len() == 7);
    assert("arguments_digest"@.len() == 16);
    assert("snapshot_hashes"@.len() == 15);
    assert("versions"@.len() == 8);
    assert("nonce"@.len() == 5);
    assert("session_id"@[0] == 's');
    assert("project_id"@[0] == 'p');
    assert("principal"@[0] == 'p');
    assert("tool_name"@[0] == 't');
    lemma_entry_pushed();
    law_texts_stay_in_place(state.snapshot_hashes);
}

/// An approval state is read from an object exactly where the object holds one, and
/// then it is that one: every part comes from the member of its name.
pub proof fn law_read_state_is_the_one_held(value: Json, state: StateModel)
    requires
        value is Object,
    ensures
        state_of(value) == Some(state) <==> holds_state(value, state),
{
    let read = fields_state(value);
    if holds_state(value, state) {
        let hashes = member(value, "snapshot_hashes"@)->0->Array_0;
        let versions = member(value, "versions"@)->0->Array_0;
        assert(all_texts(hashes));
        assert(Seq::new(hashes.len(), |i: int| hashes[i]->Text_0) =~= state.snapshot_hashes);
        assert forall|i: int| 0 <= i < versions.len() implies version_of(#[trigger] versions[i])
            == Some(state.versions[i]) by {}
        assert(all_versions(versions));
        assert(Seq::new(versions.len(), |i: int| version_of(versions[i])->0) =~= state.versions);
    }
    if read == Some(state) {
        let hashes = member(value, "snapshot_hashes"@)->0->Array_0;
        let versions = member(value, "versions"@)->0->Array_0;
        assert forall|i: int| 0 <= i < hashes.len() implies #[trigger] hashes[i] == Json::Text(
            state.snapshot_hashes[i],
        ) by {}
        assert forall|i: int| 0 <= i < versions.len() implies #[trigger] versions[i]
            == match state.versions[i] {
            Some(version) => Json::Number(Numeral::Integer(version as int)),
            None => Json::Null,
        } by {
            assert(version_of(versions[i]) is Some);
        }
    }
}

/// An approval state may also be read from a list of its ten parts, in order; a list
/// of another length holds none.
pub proof fn law_listed_state_is_in_order(items: Seq<Json>, state: StateModel)
    ensures
        items.len() != 10 ==> state_of(Json::Array(items)) is None,
        items.len() == 10 && state_of(Json::Array(items)) == Some(state) ==> {
            &&& items[0] == Json::Text(state.session_id)
            &&& items[1] == match state.principal {
                Some(principal) => Json::Text(principal),
                None => Json::Null,
            }
            &&& items[2] == Json::Text(state.method)
            &&& items[3] == Json::Text(state.tool_name)
            &&& items[4] == Json::Text(state.project_id)
            &&& items[5] == Json::Text(state.plan_id)
            &&& items[6] == Json::Text(state.arguments_digest)
            &&& lists_texts(Some(items[7]), state.snapshot_hashes)
            &&& items[8] matches Json::Array(versions) && versions.len() == state.versions.len()
            &&& items[9] == Json::Text(state.nonce)
        },
{
    reveal_strlit("session_id");
    reveal_strlit("principal");
    reveal_strlit("method");
    reveal_strlit("tool_name");
    reveal_strlit("project_id");
    reveal_strlit("plan_id");
    reveal_strlit("arguments_digest");
    reveal_strlit("snapshot_hashes");
    reveal_strlit("versions");
    reveal_strlit("nonce");
    assert("session_id"@.len() == 10);
    assert("principal"@.len() == 9);
    assert("method"@.len() == 6);
    assert("tool_name"@.len() == 9);
    assert("project_id"@.len() == 10);
    assert("plan_id"@.len() == 7);
    assert("arguments_digest"@.len() == 16);
    assert("snapshot_hashes"@.len() == 15);
    assert("versions"@.len() == 8);
    assert("nonce"@.len() == 5);
    assert("session_id"@[0] == 's');
    assert("project_id"@[0] == 'p');
    assert("principal"@[0] == 'p');
    assert("tool_name"@[0] == 't');
    lemma_entry_pushed();
    if items.len() == 10 && state_of(Json::Array(items)) == Some(state) {
        let value = Json::Object(listed_fields(items));
        assert(fields_state(value) == Some(state));
        law_read_state_is_the_one_held(value, state);
    }
}

/// What opens a seal is what was sealed, or the word that it has expired; a seal that
/// does not open gives its reason.
pub proof fn law_seal_opens_to_what_was_sealed(
    key: Seq<u8>,
    sealed: Seq<char>,
    context: Seq<u8>,
    opened: Result<Seq<u8>, Seq<char>>,
)
    requires
        may_open_as(key, sealed, context, opened),
    ensures
        opened matches Ok(payload) ==> sealed_payload(key, sealed, context) == Ok::<
            Seq<u8>,
            Seq<char>,
        >(payload),
        opened matches Err(reason) ==> reason == "request state has expired"@ || sealed_payload(
            key,
            sealed,
            context,
        ) == Err::<Seq<u8>, Seq<char>>(reason),
        sealed_payload(key, sealed, context) is Err ==> opened is Err,
{
}

/// A payload that the typed reader refuses is refused with its words. Else the state
/// is the one that the payload holds.
pub proof fn law_payload_gives_its_state(
    payload: Seq<u8>,
    words: Seq<char>,
    typed: StateModel,
    held: StateModel,
)
    ensures
        payload_reading(payload, Err(words)) == Err::<StateModel, Seq<char>>(
            "failed to deserialize request state payload: "@ + words,
        ),
        payload_state(payload) == Some(held) ==> payload_reading(payload, Ok(typed)) == Ok::<
            StateModel,
            Seq<char>,
        >(held),
        payload_reading(payload, Ok(typed)) is Ok,
{
}

} // verus!
