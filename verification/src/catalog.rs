//! The advertised tool catalog and the pages of lists.

use crate::decimal::{
    decimal, decimal_text, law_decimal_round_trip, parse_unsigned, unsigned_value,
};
use crate::errors::{invalid_params, McpError};
use crate::json::{
    by_key, json_array, json_count, json_number, json_optional_text, lemma_entry_value_is_smaller,
    lemma_filled_members, lemma_last_pushed, member, no_fields, Json, JsonObject, JsonValue,
};
use crate::status::{listed_project, listed_project_json, ProjectIdentity};
use crate::text::{
    chars_of, comes_before, concat2, concat3, lemma_text_before_total,
    lemma_text_before_transitive, optional_text, same_text, text_before,
};
use vstd::prelude::*;
use vstd::string::*;

verus! {

/// The tools on one page of the catalog.
pub const ADVERTISED_TOOL_PAGE_SIZE: usize = 12;

/// The projects on one page of the project list.
pub const PROJECT_LIST_PAGE_SIZE: usize = 32;

/// The resources on one page of the resource list.
pub const RESOURCE_PAGE_SIZE: usize = 64;

/// The number of tools that the first page leads with.
pub const DEFAULT_TOOL_PAGE_LEN: usize = 11;

/// Whether a schema key only presents: it says nothing of what may be passed.
pub open spec fn is_presentation(key: Seq<char>) -> bool {
    ||| key == "$schema"@
    ||| key == "deprecated"@
    ||| key == "description"@
    ||| key == "examples"@
    ||| key == "readOnly"@
    ||| key == "title"@
    ||| key == "writeOnly"@
}

/// Whether the members under a schema key are named by the schema's author, so
/// that their names are no schema keys.
pub open spec fn names_schemas(key: Seq<char>) -> bool {
    ||| key == "properties"@
    ||| key == "$defs"@
    ||| key == "definitions"@
    ||| key == "patternProperties"@
    ||| key == "dependentSchemas"@
    ||| key == "dependentRequired"@
    ||| key == "dependencies"@
}

/// Whether the value under a schema key is a value that may be passed, and no
/// schema.
pub open spec fn is_literal_key(key: Seq<char>) -> bool {
    key == "const"@ || key == "enum"@ || key == "default"@
}

/// A schema without what only presents.
pub open spec fn compact_schema(value: Json) -> Json
    decreases value,
{
    match value {
        Json::Object(entries) => Json::Object(compact_entries(entries)),
        Json::Array(items) => Json::Array(compact_items(items)),
        _ => value,
    }
}

pub open spec fn compact_items(items: Seq<Json>) -> Seq<Json>
    decreases items,
{
    if items.len() == 0 {
        Seq::empty()
    } else {
        compact_items(items.drop_last()).push(compact_schema(items[items.len() - 1]))
    }
}

/// The entries of a schema without those that only present.
pub open spec fn compact_entries(entries: Seq<(Seq<char>, Json)>) -> Seq<(Seq<char>, Json)>
    decreases entries,
{
    if entries.len() == 0 {
        Seq::empty()
    } else {
        let head = compact_entries(entries.drop_last());
        let (key, value) = entries[entries.len() - 1];
        if is_presentation(key) {
            head
        } else if is_literal_key(key) {
            head.push((key, value))
        } else if names_schemas(key) {
            head.push(
                (
                    key,
                    match value {
                        Json::Object(named) => Json::Object(compact_named(named)),
                        _ => value,
                    },
                ),
            )
        } else {
            head.push((key, compact_schema(value)))
        }
    }
}

/// Named schemas, each compacted; no name is taken away.
pub open spec fn compact_named(named: Seq<(Seq<char>, Json)>) -> Seq<(Seq<char>, Json)>
    decreases named,
{
    if named.len() == 0 {
        Seq::empty()
    } else {
        let (key, value) = named[named.len() - 1];
        compact_named(named.drop_last()).push((key, compact_schema(value)))
    }
}

fn only_presents(key: &str) -> (presents: bool)
    ensures
        presents == is_presentation(key@),
{
    same_text(key, "$schema") || same_text(key, "deprecated") || same_text(key, "description")
        || same_text(key, "examples") || same_text(key, "readOnly") || same_text(key, "title")
        || same_text(key, "writeOnly")
}

fn holds_named_schemas(key: &str) -> (named: bool)
    ensures
        named == names_schemas(key@),
{
    same_text(key, "properties") || same_text(key, "$defs") || same_text(key, "definitions")
        || same_text(key, "patternProperties") || same_text(key, "dependentSchemas") || same_text(
        key,
        "dependentRequired",
    ) || same_text(key, "dependencies")
}

fn holds_literal(key: &str) -> (literal: bool)
    ensures
        literal == is_literal_key(key@),
{
    same_text(key, "const") || same_text(key, "enum") || same_text(key, "default")
}

/// A schema value without what only presents.
pub fn compact_advertised_schema_value(value: &JsonValue) -> (compact: JsonValue)
    ensures
        compact@ == compact_schema(value@),
    decreases value, 0nat,
{
    match value {
        JsonValue::Object(schema) => {
            assert(value@->Object_0 =~= schema@);
            assert(decreases_to!(*value => value->Object_0));
            compact_object(schema).into_value()
        },
        JsonValue::Array(items) => {
            let ghost models = value@->Array_0;
            let mut values: Vec<JsonValue> = Vec::new();
            let mut i: usize = 0;
            assert(models.take(0) =~= Seq::<Json>::empty());
            assert(crate::json::json_models(values@) =~= Seq::<Json>::empty());
            while i < items.len()
                invariant
                    i <= items@.len(),
                    *value == JsonValue::Array(*items),
                    models == value@->Array_0,
                    crate::json::json_models(values@) == compact_items(models.take(i as int)),
                decreases items@.len() - i,
            {
                assert(decreases_to!(*value => items@[i as int])) by {
                    assert(decreases_to!(*value => value->Array_0));
                    assert(decreases_to!(*items => items@));
                    assert(decreases_to!(items@ => items@[i as int]));
                }
                let ghost before = crate::json::json_models(values@);
                let compact = compact_advertised_schema_value(&items[i]);
                values.push(compact);
                proof {
                    let next = models.take(i + 1);
                    assert(next.drop_last() =~= models.take(i as int));
                    assert(next[next.len() - 1] == items@[i as int]@);
                    assert(crate::json::json_models(values@) =~= before.push(compact@));
                }
                i = i + 1;
            }
            assert(models.take(i as int) =~= models);
            json_array(values)
        },
        _ => {
            assert(value@ !is Array && value@ !is Object);
            value.duplicate()
        },
    }
}

fn compact_names(named: &JsonObject) -> (compact: JsonObject)
    ensures
        compact@ == compact_named(named@),
    decreases named, 0nat,
{
    let mut compact = JsonObject::new();
    let mut i: usize = 0;
    assert(named@.take(0) =~= no_fields());
    while i < named.entries.len()
        invariant
            i <= named.entries@.len(),
            compact@ == compact_named(named@.take(i as int)),
        decreases named.entries@.len() - i,
    {
        proof {
            lemma_entry_value_is_smaller(*named, i as int);
            let next = named@.take(i + 1);
            assert(next.drop_last() =~= named@.take(i as int));
            assert(next[next.len() - 1] == named@[i as int]);
        }
        let value = compact_advertised_schema_value(&named.entries[i].value);
        compact.put(named.entries[i].key.as_str(), value);
        i = i + 1;
    }
    assert(named@.take(i as int) =~= named@);
    compact
}

fn compact_object(schema: &JsonObject) -> (compact: JsonObject)
    ensures
        compact@ == compact_entries(schema@),
    decreases schema, 1nat,
{
    let mut compact = JsonObject::new();
    let mut i: usize = 0;
    assert(schema@.take(0) =~= no_fields());
    while i < schema.entries.len()
        invariant
            i <= schema.entries@.len(),
            compact@ == compact_entries(schema@.take(i as int)),
        decreases schema.entries@.len() - i,
    {
        proof {
            lemma_entry_value_is_smaller(*schema, i as int);
            let next = schema@.take(i + 1);
            assert(next.drop_last() =~= schema@.take(i as int));
            assert(next[next.len() - 1] == schema@[i as int]);
        }
        let key = schema.entries[i].key.as_str();
        let value = &schema.entries[i].value;
        if !only_presents(key) {
            if holds_literal(key) {
                compact.put(key, value.duplicate());
            } else if holds_named_schemas(key) {
                match value {
                    JsonValue::Object(named) => {
                        assert(value@->Object_0 =~= named@);
                        assert(decreases_to!(*value => value->Object_0));
                        compact.put(key, compact_names(named).into_value());
                    },
                    _ => {
                        assert(value@ !is Object);
                        compact.put(key, value.duplicate());
                    },
                }
            } else {
                compact.put(key, compact_advertised_schema_value(value));
            }
        }
        i = i + 1;
    }
    assert(schema@.take(i as int) =~= schema@);
    compact
}

/// Removes what only presents from an input schema. Every rule on what may be
/// passed stays: its keys, the names that it gives and the values that it
/// compares with.
pub fn compact_advertised_input_schema(schema: &mut JsonObject)
    ensures
        final(schema)@ == compact_entries(old(schema)@),
{
    *schema = compact_object(schema);
}

/// Compacting keeps the names of all properties and definitions, in their order.
pub proof fn law_compaction_keeps_names(named: Seq<(Seq<char>, Json)>)
    ensures
        compact_named(named).len() == named.len(),
        forall|i: int|
            0 <= i < named.len() ==> (#[trigger] compact_named(named)[i]).0 == named[i].0
                && compact_named(named)[i].1 == compact_schema(named[i].1),
    decreases named.len(),
{
    if named.len() > 0 {
        law_compaction_keeps_names(named.drop_last());
    }
}

/// Compacting leaves exactly those keys at the top of a schema that do more than
/// present.
pub proof fn law_compaction_keeps_rule_keys(entries: Seq<(Seq<char>, Json)>, key: Seq<char>)
    ensures
        has_key(compact_entries(entries), key) <==> has_key(entries, key) && !is_presentation(key),
    decreases entries.len(),
{
    if entries.len() > 0 {
        let head = entries.drop_last();
        let last = entries[entries.len() - 1];
        law_compaction_keeps_rule_keys(head, key);
        let compact = compact_entries(entries);
        let before = compact_entries(head);
        if has_key(head, key) {
            let i = choose|i: int| 0 <= i < head.len() && (#[trigger] head[i]).0 == key;
            assert(entries[i].0 == key);
        }
        if has_key(entries, key) {
            let i = choose|i: int| 0 <= i < entries.len() && (#[trigger] entries[i]).0 == key;
            if i < head.len() {
                assert(head[i].0 == key);
            }
        }
        if has_key(before, key) {
            let i = choose|i: int| 0 <= i < before.len() && (#[trigger] before[i]).0 == key;
            assert(compact[i].0 == key);
        }
        if has_key(compact, key) {
            let i = choose|i: int| 0 <= i < compact.len() && (#[trigger] compact[i]).0 == key;
            if i < before.len() {
                assert(before[i].0 == key);
            } else {
                assert(entries[entries.len() - 1].0 == key);
            }
        }
        if last.0 == key && !is_presentation(key) {
            assert(compact[before.len() as int].0 == key);
        }
    }
}

/// Whether an object has an entry under a key.
pub open spec fn has_key(entries: Seq<(Seq<char>, Json)>, key: Seq<char>) -> bool {
    exists|i: int| 0 <= i < entries.len() && (#[trigger] entries[i]).0 == key
}

/// The values under a key, in their order.
pub open spec fn values_under(entries: Seq<(Seq<char>, Json)>, key: Seq<char>) -> Seq<Json>
    decreases entries.len(),
{
    if entries.len() == 0 {
        Seq::empty()
    } else {
        let head = values_under(entries.drop_last(), key);
        if entries.last().0 == key {
            head.push(entries.last().1)
        } else {
            head
        }
    }
}

/// Compacting leaves the values that an argument is compared with, and the value
/// that stands in for a missing one, as they are.
pub proof fn law_compaction_keeps_literals(entries: Seq<(Seq<char>, Json)>, key: Seq<char>)
    requires
        is_literal_key(key),
    ensures
        values_under(compact_entries(entries), key) == values_under(entries, key),
    decreases entries.len(),
{
    lemma_literal_keys(key);
    if entries.len() > 0 {
        let head = entries.drop_last();
        let (name, value) = entries[entries.len() - 1];
        law_compaction_keeps_literals(head, key);
        let compact = compact_entries(entries);
        if !is_presentation(name) {
            assert(compact.drop_last() =~= compact_entries(head));
            assert(compact.last().0 == name);
        }
    }
}

proof fn lemma_literal_keys(key: Seq<char>)
    requires
        is_literal_key(key),
    ensures
        !is_presentation(key),
{
    reveal_strlit("const");
    reveal_strlit("enum");
    reveal_strlit("default");
    reveal_strlit("$schema");
    reveal_strlit("deprecated");
    reveal_strlit("description");
    reveal_strlit("examples");
    reveal_strlit("readOnly");
    reveal_strlit("title");
    reveal_strlit("writeOnly");
    assert("const"@.len() == 5 && "const"@[0] == 'c');
    assert("title"@.len() == 5 && "title"@[0] == 't');
    assert("default"@.len() == 7 && "default"@[0] == 'd');
    assert("$schema"@.len() == 7 && "$schema"@[0] == '$');
    assert("enum"@.len() == 4);
    assert("deprecated"@.len() == 10);
    assert("description"@.len() == 11);
    assert("examples"@.len() == 8);
    assert("readOnly"@.len() == 8);
    assert("writeOnly"@.len() == 9);
}

/// A step from a JSON value into one of its parts.
pub enum Step {
    Key(Seq<char>),
    Index(int),
}

/// Everything that a schema says of what may be passed, each part with the way
/// to it: the objects and arrays on the way, the values that are compared with,
/// and all other values. What only presents is passed over.
pub open spec fn schema_rules(path: Seq<Step>, value: Json) -> Seq<(Seq<Step>, Json)>
    decreases value,
{
    match value {
        Json::Object(entries) => seq![(path, Json::Object(Seq::empty()))] + entry_rules(
            path,
            entries,
        ),
        Json::Array(items) => seq![(path, Json::Array(Seq::empty()))] + item_rules(path, items),
        _ => seq![(path, value)],
    }
}

pub open spec fn item_rules(path: Seq<Step>, items: Seq<Json>) -> Seq<(Seq<Step>, Json)>
    decreases items,
{
    if items.len() == 0 {
        Seq::empty()
    } else {
        item_rules(path, items.drop_last()) + schema_rules(
            path.push(Step::Index(items.len() - 1)),
            items[items.len() - 1],
        )
    }
}

pub open spec fn entry_rules(path: Seq<Step>, entries: Seq<(Seq<char>, Json)>) -> Seq<
    (Seq<Step>, Json),
>
    decreases entries,
{
    if entries.len() == 0 {
        Seq::empty()
    } else {
        let head = entry_rules(path, entries.drop_last());
        let (key, value) = entries[entries.len() - 1];
        let inner = path.push(Step::Key(key));
        if is_presentation(key) {
            head
        } else if is_literal_key(key) {
            head.push((inner, value))
        } else if names_schemas(key) {
            match value {
                Json::Object(named) => head.push((inner, Json::Object(Seq::empty())))
                    + named_rules(inner, named),
                _ => head.push((inner, value)),
            }
        } else {
            head + schema_rules(inner, value)
        }
    }
}

pub open spec fn named_rules(path: Seq<Step>, named: Seq<(Seq<char>, Json)>) -> Seq<
    (Seq<Step>, Json),
>
    decreases named,
{
    if named.len() == 0 {
        Seq::empty()
    } else {
        let (key, value) = named[named.len() - 1];
        named_rules(path, named.drop_last()) + schema_rules(path.push(Step::Key(key)), value)
    }
}

/// Compacting keeps everything that a schema says of what may be passed, at
/// every depth.
pub proof fn law_compaction_keeps_rules(path: Seq<Step>, value: Json)
    ensures
        schema_rules(path, compact_schema(value)) == schema_rules(path, value),
    decreases value,
{
    match value {
        Json::Object(entries) => lemma_entry_rules(path, entries),
        Json::Array(items) => lemma_item_rules(path, items),
        _ => {},
    }
}

proof fn lemma_item_rules(path: Seq<Step>, items: Seq<Json>)
    ensures
        item_rules(path, compact_items(items)) == item_rules(path, items),
        compact_items(items).len() == items.len(),
    decreases items,
{
    if items.len() > 0 {
        let head = items.drop_last();
        let last = items[items.len() - 1];
        lemma_item_rules(path, head);
        law_compaction_keeps_rules(path.push(Step::Index(items.len() - 1)), last);
        let compact = compact_items(items);
        assert(compact.drop_last() =~= compact_items(head));
        assert(compact[compact.len() - 1] == compact_schema(last));
    }
}

proof fn lemma_entry_rules(path: Seq<Step>, entries: Seq<(Seq<char>, Json)>)
    ensures
        entry_rules(path, compact_entries(entries)) == entry_rules(path, entries),
    decreases entries,
{
    if entries.len() > 0 {
        let head = entries.drop_last();
        let (key, value) = entries[entries.len() - 1];
        let inner = path.push(Step::Key(key));
        lemma_entry_rules(path, head);
        let compact = compact_entries(entries);
        if !is_presentation(key) {
            assert(compact.drop_last() =~= compact_entries(head));
            assert(compact[compact.len() - 1].0 == key);
            if is_literal_key(key) {
            } else if names_schemas(key) {
                match value {
                    Json::Object(named) => {
                        lemma_named_rules(inner, named);
                    },
                    _ => {},
                }
            } else {
                law_compaction_keeps_rules(inner, value);
            }
        }
    }
}

proof fn lemma_named_rules(path: Seq<Step>, named: Seq<(Seq<char>, Json)>)
    ensures
        named_rules(path, compact_named(named)) == named_rules(path, named),
    decreases named,
{
    if named.len() > 0 {
        let head = named.drop_last();
        let last = named[named.len() - 1];
        lemma_named_rules(path, head);
        law_compaction_keeps_rules(path.push(Step::Key(last.0)), last.1);
        let compact = compact_named(named);
        assert(compact.drop_last() =~= compact_named(head));
        assert(compact[compact.len() - 1] == (last.0, compact_schema(last.1)));
    }
}

/// Compacting a schema twice is compacting it once.
pub proof fn law_compaction_is_idempotent(value: Json)
    ensures
        compact_schema(compact_schema(value)) == compact_schema(value),
    decreases value,
{
    match value {
        Json::Object(entries) => lemma_entries_idempotent(entries),
        Json::Array(items) => lemma_items_idempotent(items),
        _ => {},
    }
}

proof fn lemma_items_idempotent(items: Seq<Json>)
    ensures
        compact_items(compact_items(items)) == compact_items(items),
    decreases items,
{
    if items.len() > 0 {
        let head = items.drop_last();
        let last = items[items.len() - 1];
        lemma_items_idempotent(head);
        law_compaction_is_idempotent(last);
        let compact = compact_items(items);
        assert(compact.drop_last() =~= compact_items(head));
        assert(compact[compact.len() - 1] == compact_schema(last));
    }
}

proof fn lemma_entries_idempotent(entries: Seq<(Seq<char>, Json)>)
    ensures
        compact_entries(compact_entries(entries)) == compact_entries(entries),
    decreases entries,
{
    if entries.len() > 0 {
        let head = entries.drop_last();
        let last = entries[entries.len() - 1];
        lemma_entries_idempotent(head);
        let compact = compact_entries(entries);
        if !is_presentation(last.0) {
            assert(compact.drop_last() =~= compact_entries(head));
            if is_literal_key(last.0) {
            } else if names_schemas(last.0) {
                match last.1 {
                    Json::Object(named) => {
                        lemma_named_idempotent(named);
                    },
                    _ => {},
                }
            } else {
                law_compaction_is_idempotent(last.1);
            }
        }
    }
}

proof fn lemma_named_idempotent(named: Seq<(Seq<char>, Json)>)
    ensures
        compact_named(compact_named(named)) == compact_named(named),
    decreases named,
{
    if named.len() > 0 {
        let head = named.drop_last();
        let last = named[named.len() - 1];
        lemma_named_idempotent(head);
        law_compaction_is_idempotent(last.1);
        let compact = compact_named(named);
        assert(compact.drop_last() =~= compact_named(head));
        assert(compact[compact.len() - 1] == (last.0, compact_schema(last.1)));
    }
}

/// A text with every underscore turned into a space.
pub open spec fn spaced(text: Seq<char>) -> Seq<char> {
    Seq::new(
        text.len(),
        |i: int|
            if text[i] == '_' {
                ' '
            } else {
                text[i]
            },
    )
}

/// The description that a tool is advertised with.
pub fn compact_advertised_description(name: &str) -> (description: String)
    ensures
        description@ == "MCPLS "@ + spaced(name@) + "."@,
{
    let chars = chars_of(name);
    let mut words = String::new();
    let mut i: usize = 0;
    while i < chars.len()
        invariant
            i <= chars@.len(),
            chars@ == name@,
            words@ == spaced(name@).take(i as int),
        decreases chars@.len() - i,
    {
        let c = if chars[i] == '_' {
            ' '
        } else {
            chars[i]
        };
        words.push(c);
        assert(words@ =~= spaced(name@).take(i + 1));
        i = i + 1;
    }
    assert(spaced(name@).take(i as int) =~= spaced(name@));
    concat3("MCPLS ", words.as_str(), ".")
}

/// A tool as it is advertised.
#[derive(Debug, PartialEq, Eq)]
pub struct Tool {
    pub name: String,
    pub description: Option<String>,
    pub input_schema: JsonObject,
    pub output_schema: Option<JsonObject>,
    pub annotations: Option<JsonValue>,
}

/// The model of a tool.
#[verifier::ext_equal]
pub struct ToolModel {
    pub name: Seq<char>,
    pub description: Option<Seq<char>>,
    pub input_schema: Seq<(Seq<char>, Json)>,
    pub output_schema: Option<Seq<(Seq<char>, Json)>>,
    pub annotations: Option<Json>,
}

impl View for Tool {
    type V = ToolModel;

    open spec fn view(&self) -> ToolModel {
        ToolModel {
            name: self.name@,
            description: optional_text(self.description),
            input_schema: self.input_schema@,
            output_schema: match self.output_schema {
                Some(schema) => Some(schema@),
                None => None,
            },
            annotations: match self.annotations {
                Some(annotations) => Some(annotations@),
                None => None,
            },
        }
    }
}

pub open spec fn tool_models(tools: Seq<Tool>) -> Seq<ToolModel> {
    Seq::new(tools.len(), |i: int| tools[i]@)
}

/// Whether a tool is kept for old callers and no longer advertised.
pub open spec fn is_legacy(name: Seq<char>) -> bool {
    ||| name == "rename_symbol"@
    ||| name == "format_document"@
    ||| name == "get_code_actions"@
    ||| name == "get_cached_diagnostics"@
    ||| name == "workspace_symbol_search_batch"@
    ||| name == "inspect_symbol_batch"@
    ||| name == "range_format_preview"@
}

fn is_legacy_tool(name: &str) -> (legacy: bool)
    ensures
        legacy == is_legacy(name@),
{
    same_text(name, "rename_symbol") || same_text(name, "format_document") || same_text(
        name,
        "get_code_actions",
    ) || same_text(name, "get_cached_diagnostics") || same_text(
        name,
        "workspace_symbol_search_batch",
    ) || same_text(name, "inspect_symbol_batch") || same_text(name, "range_format_preview")
}

/// The place of a tool on the default page; tools that are not on it follow.
pub open spec fn catalog_rank(name: Seq<char>) -> nat {
    if name == "workspace_symbol_search"@ {
        0
    } else if name == "inspect_symbol"@ {
        1
    } else if name == "get_diagnostics"@ {
        2
    } else if name == "format_preview"@ {
        3
    } else if name == "lexical_search"@ {
        4
    } else if name == "read_semantic_resource"@ {
        5
    } else if name == "structural_replace_preview"@ {
        6
    } else if name == "workspace_edit_preview"@ {
        7
    } else if name == "workspace_edit_apply"@ {
        8
    } else if name == "code_action_apply"@ {
        9
    } else if name == "project_list"@ {
        10
    } else {
        DEFAULT_TOOL_PAGE_LEN as nat
    }
}

/// By what a tool is placed in the catalog: its rank, then its name.
pub fn tool_catalog_rank(name: &str) -> (rank: (usize, &str))
    ensures
        rank.0 == catalog_rank(name@),
        rank.1@ == name@,
{
    let rank: usize = if same_text(name, "workspace_symbol_search") {
        0
    } else if same_text(name, "inspect_symbol") {
        1
    } else if same_text(name, "get_diagnostics") {
        2
    } else if same_text(name, "format_preview") {
        3
    } else if same_text(name, "lexical_search") {
        4
    } else if same_text(name, "read_semantic_resource") {
        5
    } else if same_text(name, "structural_replace_preview") {
        6
    } else if same_text(name, "workspace_edit_preview") {
        7
    } else if same_text(name, "workspace_edit_apply") {
        8
    } else if same_text(name, "code_action_apply") {
        9
    } else if same_text(name, "project_list") {
        10
    } else {
        DEFAULT_TOOL_PAGE_LEN
    };
    (rank, name)
}

/// Whether a tool stands in front of another in the catalog.
pub open spec fn catalog_before(left: Seq<char>, right: Seq<char>) -> bool {
    catalog_rank(left) < catalog_rank(right) || catalog_rank(left) == catalog_rank(right)
        && text_before(left, right)
}

fn stands_before(left: &str, right: &str) -> (before: bool)
    ensures
        before == catalog_before(left@, right@),
{
    let a = tool_catalog_rank(left);
    let b = tool_catalog_rank(right);
    a.0 < b.0 || a.0 == b.0 && comes_before(a.1, b.1)
}

/// The catalog with one more tool in its place, behind those that it does not
/// stand in front of.
pub open spec fn placed(tools: Seq<ToolModel>, tool: ToolModel) -> Seq<ToolModel>
    decreases tools.len(),
{
    if tools.len() == 0 {
        seq![tool]
    } else if catalog_before(tool.name, tools[0].name) {
        seq![tool] + tools
    } else {
        seq![tools[0]] + placed(tools.skip(1), tool)
    }
}

/// A tool as it is advertised: its schema compacted, its description short, its
/// output schema left out.
pub open spec fn advertised(tool: ToolModel) -> ToolModel {
    ToolModel {
        name: tool.name,
        description: Some("MCPLS "@ + spaced(tool.name) + "."@),
        input_schema: compact_entries(tool.input_schema),
        output_schema: None,
        annotations: tool.annotations,
    }
}

/// The catalog: the advertised tools in their order.
pub open spec fn catalog(tools: Seq<ToolModel>) -> Seq<ToolModel>
    decreases tools.len(),
{
    if tools.len() == 0 {
        Seq::empty()
    } else {
        let head = catalog(tools.drop_last());
        if is_legacy(tools.last().name) {
            head
        } else {
            placed(head, advertised(tools.last()))
        }
    }
}

fn place_tool(tools: &mut Vec<Tool>, tool: Tool)
    ensures
        tool_models(final(tools)@) == placed(tool_models(old(tools)@), tool@),
{
    let ghost before = tool_models(tools@);
    let mut i: usize = 0;
    assert(before.skip(0) =~= before);
    assert(before.take(0) =~= Seq::<ToolModel>::empty());
    assert(placed(before, tool@) =~= before.take(0) + placed(before.skip(0), tool@));
    while i < tools.len()
        invariant
            *tools == *old(tools),
            before == tool_models(tools@),
            i <= tools@.len(),
            placed(before, tool@) == before.take(i as int) + placed(before.skip(i as int), tool@),
        decreases tools@.len() - i,
    {
        let ghost rest = before.skip(i as int);
        assert(rest[0] == tools@[i as int]@);
        if stands_before(tool.name.as_str(), tools[i].name.as_str()) {
            let ghost model = tool@;
            tools.insert(i, tool);
            assert(tool_models(tools@) =~= before.take(i as int) + (seq![model] + rest));
            return ;
        }
        proof {
            assert(rest.skip(1) =~= before.skip(i + 1));
            assert(before.take(i as int) + (seq![rest[0]] + placed(rest.skip(1), tool@))
                =~= before.take(i + 1) + placed(before.skip(i + 1), tool@));
        }
        i = i + 1;
    }
    let ghost model = tool@;
    tools.push(tool);
    assert(before.skip(i as int) =~= Seq::<ToolModel>::empty());
    assert(tool_models(tools@) =~= before.take(i as int) + seq![model]);
}

/// The catalog of the registered tools.
pub fn advertised_tools(registered: Vec<Tool>) -> (tools: Vec<Tool>)
    ensures
        tool_models(tools@) == catalog(tool_models(registered@)),
{
    let ghost all = tool_models(registered@);
    let mut left = registered;
    let mut tools: Vec<Tool> = Vec::new();
    let ghost mut taken: int = 0;
    assert(all.take(0) =~= Seq::<ToolModel>::empty());
    assert(tool_models(tools@) =~= Seq::<ToolModel>::empty());
    while left.len() > 0
        invariant
            0 <= taken,
            taken + left@.len() == all.len(),
            tool_models(left@) == all.skip(taken),
            tool_models(tools@) == catalog(all.take(taken)),
        decreases left@.len(),
    {
        let ghost waiting = tool_models(left@);
        let mut tool = left.remove(0);
        proof {
            let next = all.take(taken + 1);
            assert(next.drop_last() =~= all.take(taken));
            assert(next.last() == all[taken]);
            assert(waiting[0] == all[taken]);
            assert(tool@ == all[taken]);
            assert(tool_models(left@) =~= waiting.skip(1));
            assert(waiting.skip(1) =~= all.skip(taken + 1));
        }
        if !is_legacy_tool(tool.name.as_str()) {
            compact_advertised_input_schema(&mut tool.input_schema);
            tool.description = Some(compact_advertised_description(tool.name.as_str()));
            tool.output_schema = None;
            assert(tool@ =~= advertised(all[taken]));
            place_tool(&mut tools, tool);
        }
        proof {
            taken = taken + 1;
        }
    }
    assert(all.take(taken) =~= all);
    tools
}

proof fn lemma_placed_in_order(tools: Seq<ToolModel>, tool: ToolModel)
    requires
        in_order(tools),
    ensures
        in_order(placed(tools, tool)),
        placed(tools, tool).len() == tools.len() + 1,
        forall|other: ToolModel| #[trigger]
            placed(tools, tool).contains(other) <==> other == tool || tools.contains(other),
    decreases tools.len(),
{
    let after = placed(tools, tool);
    if tools.len() == 0 {
        assert(after =~= seq![tool]);
        assert(after[0] == tool);
    } else if catalog_before(tool.name, tools[0].name) {
        assert forall|i: int, j: int| 0 <= i < j < after.len() implies !catalog_before(
            (#[trigger] after[j]).name,
            (#[trigger] after[i]).name,
        ) by {
            if i == 0 {
                assert(after[j] == tools[j - 1]);
                if catalog_before(tools[j - 1].name, tool.name) {
                    lemma_catalog_transitive(tools[j - 1].name, tool.name, tools[0].name);
                    if j - 1 == 0 {
                        lemma_text_before_total(tools[0].name, tools[0].name);
                    }
                }
            } else {
                assert(after[i] == tools[i - 1]);
                assert(after[j] == tools[j - 1]);
            }
        }
        lemma_front(tools, tool);
    } else {
        let rest = tools.skip(1);
        assert(in_order(rest)) by {
            assert forall|i: int, j: int| 0 <= i < j < rest.len() implies !catalog_before(
                (#[trigger] rest[j]).name,
                (#[trigger] rest[i]).name,
            ) by {
                assert(rest[i] == tools[i + 1]);
                assert(rest[j] == tools[j + 1]);
            }
        }
        lemma_placed_in_order(rest, tool);
        let tail = placed(rest, tool);
        assert forall|i: int, j: int| 0 <= i < j < after.len() implies !catalog_before(
            (#[trigger] after[j]).name,
            (#[trigger] after[i]).name,
        ) by {
            assert(after[j] == tail[j - 1]);
            if i == 0 {
                assert(tail.contains(tail[j - 1]));
                if tail[j - 1] != tool {
                    let k = choose|k: int| 0 <= k < rest.len() && rest[k] == tail[j - 1];
                    assert(tools[k + 1] == tail[j - 1]);
                }
            } else {
                assert(after[i] == tail[i - 1]);
            }
        }
        lemma_front(tail, tools[0]);
        lemma_front(rest, tools[0]);
        assert(seq![tools[0]] + rest =~= tools);
    }
}

proof fn lemma_front(tools: Seq<ToolModel>, tool: ToolModel)
    ensures
        forall|other: ToolModel| #[trigger]
            (seq![tool] + tools).contains(other) <==> other == tool || tools.contains(other),
{
    let after = seq![tool] + tools;
    assert forall|other: ToolModel| #[trigger] after.contains(other) <==> other == tool
        || tools.contains(other) by {
        if after.contains(other) {
            let i = choose|i: int| 0 <= i < after.len() && after[i] == other;
            if i > 0 {
                assert(tools[i - 1] == other);
            }
        }
        if tools.contains(other) {
            let i = choose|i: int| 0 <= i < tools.len() && tools[i] == other;
            assert(after[i + 1] == other);
        }
        assert(after[0] == tool);
    }
}

proof fn lemma_catalog_transitive(a: Seq<char>, b: Seq<char>, c: Seq<char>)
    requires
        catalog_before(a, b),
        catalog_before(b, c),
    ensures
        catalog_before(a, c),
{
    if text_before(a, b) && text_before(b, c) {
        lemma_text_before_transitive(a, b, c);
    }
}

/// Whether no tool stands behind one that it belongs in front of.
pub open spec fn in_order(tools: Seq<ToolModel>) -> bool {
    forall|i: int, j: int|
        0 <= i < j < tools.len() ==> !catalog_before(
            (#[trigger] tools[j]).name,
            (#[trigger] tools[i]).name,
        )
}

/// The catalog is in order: the default page first, then by name.
pub proof fn law_catalog_is_in_order(tools: Seq<ToolModel>)
    ensures
        in_order(catalog(tools)),
    decreases tools.len(),
{
    if tools.len() > 0 {
        law_catalog_is_in_order(tools.drop_last());
        if !is_legacy(tools.last().name) {
            lemma_placed_in_order(catalog(tools.drop_last()), advertised(tools.last()));
        }
    }
}

/// The number of tools that are not kept for old callers alone.
pub open spec fn advertised_count(tools: Seq<ToolModel>) -> nat
    decreases tools.len(),
{
    if tools.len() == 0 {
        0
    } else {
        advertised_count(tools.drop_last()) + if is_legacy(tools.last().name) {
            0nat
        } else {
            1nat
        }
    }
}

/// Whether a catalog entry comes from a registered tool that is advertised.
pub open spec fn comes_from(tools: Seq<ToolModel>, entry: ToolModel) -> bool {
    exists|i: int|
        0 <= i < tools.len() && !is_legacy((#[trigger] tools[i]).name) && advertised(tools[i])
            == entry
}

/// The catalog holds every registered tool but the legacy ones, and no other.
pub proof fn law_catalog_is_complete(tools: Seq<ToolModel>)
    ensures
        catalog(tools).len() == advertised_count(tools),
        forall|entry: ToolModel| #[trigger]
            catalog(tools).contains(entry) <==> comes_from(tools, entry),
    decreases tools.len(),
{
    if tools.len() > 0 {
        let head = tools.drop_last();
        law_catalog_is_complete(head);
        law_catalog_is_in_order(head);
        if !is_legacy(tools.last().name) {
            lemma_placed_in_order(catalog(head), advertised(tools.last()));
        }
        assert forall|entry: ToolModel| #[trigger] catalog(tools).contains(entry) <==> comes_from(
            tools,
            entry,
        ) by {
            assert(catalog(head).contains(entry) <==> comes_from(head, entry));
            if comes_from(head, entry) {
                let i = choose|i: int|
                    0 <= i < head.len() && !is_legacy((#[trigger] head[i]).name) && advertised(
                        head[i],
                    ) == entry;
                assert(tools[i] == head[i]);
            }
            if comes_from(tools, entry) {
                let i = choose|i: int|
                    0 <= i < tools.len() && !is_legacy((#[trigger] tools[i]).name) && advertised(
                        tools[i],
                    ) == entry;
                if i < head.len() {
                    assert(head[i] == tools[i]);
                }
            }
            if !is_legacy(tools.last().name) {
                assert(tools[tools.len() - 1] == tools.last());
            }
        }
    }
}

/// One page of a list: where it begins and ends, and where to go on.
#[verifier::ext_equal]
pub struct PageBounds {
    pub start: nat,
    pub end: nat,
    pub next: Option<Seq<char>>,
}

/// Where a page begins: at its cursor, or at the beginning.
pub open spec fn page_start(cursor: Option<Seq<char>>) -> Option<nat> {
    match cursor {
        Some(cursor) => unsigned_value(cursor, usize::MAX as nat),
        None => Some(0),
    }
}

/// The page of a list of `total` items that a cursor asks for, or why there is
/// none. A list that may be empty has an empty first page.
pub open spec fn list_page(
    total: nat,
    size: nat,
    cursor: Option<Seq<char>>,
    list: Seq<char>,
    place: Seq<char>,
    may_be_empty: bool,
) -> Result<PageBounds, Seq<char>> {
    match page_start(cursor) {
        None => Err("invalid "@ + list + " cursor: "@ + cursor->0),
        Some(start) => if start >= total && (cursor is Some || !may_be_empty) {
            Err(list + " cursor is outside "@ + place + ": "@ + decimal(start))
        } else {
            let end = if start + size <= total {
                start + size
            } else {
                total
            };
            Ok(
                PageBounds {
                    start,
                    end,
                    next: if end < total {
                        Some(decimal(end))
                    } else {
                        None
                    },
                },
            )
        },
    }
}

pub open spec fn optional_cursor(cursor: Option<&str>) -> Option<Seq<char>> {
    match cursor {
        Some(cursor) => Some(cursor@),
        None => None,
    }
}

pub open spec fn page_model(
    page: Result<(std::ops::Range<usize>, Option<String>), String>,
) -> Result<PageBounds, Seq<char>> {
    match page {
        Ok((range, next)) => Ok(
            PageBounds {
                start: range.start as nat,
                end: range.end as nat,
                next: optional_text(next),
            },
        ),
        Err(message) => Err(message@),
    }
}

fn page_bounds(
    total: usize,
    size: usize,
    cursor: Option<&str>,
    list: &str,
    place: &str,
    may_be_empty: bool,
) -> (page: Result<(std::ops::Range<usize>, Option<String>), String>)
    ensures
        page_model(page) == list_page(
            total as nat,
            size as nat,
            optional_cursor(cursor),
            list@,
            place@,
            may_be_empty,
        ),
        page matches Ok((range, _)) ==> range.start <= range.end <= total,
{
    let start: usize = match cursor {
        Some(cursor) => match parse_unsigned(cursor, usize::MAX as u64) {
            Some(start) => start as usize,
            None => {
                let head = concat3("invalid ", list, " cursor: ");
                return Err(concat2(head.as_str(), cursor));
            },
        },
        None => 0,
    };
    if start >= total && (cursor.is_some() || !may_be_empty) {
        let head = concat3(list, " cursor is outside ", place);
        return Err(concat3(head.as_str(), ": ", decimal_text(start as u64).as_str()));
    }
    let end: usize = if total - start >= size {
        start + size
    } else {
        total
    };
    let next = if end < total {
        Some(decimal_text(end as u64))
    } else {
        None
    };
    Ok((start..end, next))
}

/// The page of the project list that a cursor asks for.
pub fn project_list_page(project_count: usize, cursor: Option<&str>) -> (page: Result<
    (std::ops::Range<usize>, Option<String>),
    String,
>)
    ensures
        page_model(page) == list_page(
            project_count as nat,
            PROJECT_LIST_PAGE_SIZE as nat,
            optional_cursor(cursor),
            "project_list"@,
            "the project list"@,
            true,
        ),
        page matches Ok((range, _)) ==> range.start <= range.end <= project_count,
{
    page_bounds(
        project_count,
        PROJECT_LIST_PAGE_SIZE,
        cursor,
        "project_list",
        "the project list",
        true,
    )
}

fn take_range<T>(items: Vec<T>, start: usize, end: usize) -> (part: Vec<T>)
    requires
        start <= end <= items@.len(),
    ensures
        part@ == items@.subrange(start as int, end as int),
{
    let ghost all = items@;
    let mut part = items;
    part.truncate(end);
    let mut dropped: usize = 0;
    assert(part@ =~= all.subrange(0, end as int));
    while dropped < start
        invariant
            dropped <= start <= end <= all.len(),
            part@ == all.subrange(dropped as int, end as int),
        decreases start - dropped,
    {
        let _ = part.remove(0);
        dropped = dropped + 1;
        assert(part@ =~= all.subrange(dropped as int, end as int));
    }
    part
}

/// The page of the catalog that a cursor asks for.
pub fn advertised_tools_page(registered: Vec<Tool>, cursor: Option<&str>) -> (page: Result<
    (Vec<Tool>, Option<String>),
    String,
>)
    ensures
        match list_page(
            catalog(tool_models(registered@)).len(),
            ADVERTISED_TOOL_PAGE_SIZE as nat,
            optional_cursor(cursor),
            "tools/list"@,
            "the catalog"@,
            false,
        ) {
            Ok(bounds) => {
                &&& page matches Ok((tools, next)) && optional_text(next) == bounds.next
                    && tool_models(tools@) == catalog(tool_models(registered@)).subrange(
                    bounds.start as int,
                    bounds.end as int,
                )
            },
            Err(reason) => page matches Err(message) && message@ == reason,
        },
{
    let tools = advertised_tools(registered);
    let ghost all = tool_models(tools@);
    assert(all.len() == tools@.len());
    let (range, next) = match page_bounds(
        tools.len(),
        ADVERTISED_TOOL_PAGE_SIZE,
        cursor,
        "tools/list",
        "the catalog",
        false,
    ) {
        Ok(page) => page,
        Err(message) => {
            return Err(message);
        },
    };
    let part = take_range(tools, range.start, range.end);
    assert(tool_models(part@) =~= all.subrange(range.start as int, range.end as int));
    Ok((part, next))
}

/// A resource as it is listed.
#[derive(Debug, PartialEq, Eq)]
pub struct Resource {
    pub uri: String,
    pub name: String,
    pub mime_type: String,
    pub description: String,
}

/// The page of the resource list that a cursor asks for.
pub fn resource_page(resources: Vec<Resource>, cursor: Option<&str>) -> (page: Result<
    (Vec<Resource>, Option<String>),
    String,
>)
    ensures
        match list_page(
            resources@.len(),
            RESOURCE_PAGE_SIZE as nat,
            optional_cursor(cursor),
            "resources/list"@,
            "the catalog"@,
            true,
        ) {
            Ok(bounds) => {
                &&& page matches Ok((part, next)) && optional_text(next) == bounds.next && part@
                    == resources@.subrange(bounds.start as int, bounds.end as int)
            },
            Err(reason) => page matches Err(message) && message@ == reason,
        },
{
    let (range, next) = match page_bounds(
        resources.len(),
        RESOURCE_PAGE_SIZE,
        cursor,
        "resources/list",
        "the catalog",
        true,
    ) {
        Ok(page) => page,
        Err(message) => {
            return Err(message);
        },
    };
    Ok((take_range(resources, range.start, range.end), next))
}

/// Pages are lossless: the cursor of a page leads to the page that begins where
/// this one ends, every page but an empty first one moves on, and a page
/// without a cursor ends the list.
pub proof fn law_pages_follow_each_other(
    total: nat,
    size: nat,
    cursor: Option<Seq<char>>,
    list: Seq<char>,
    place: Seq<char>,
    may_be_empty: bool,
)
    requires
        0 < size,
        total <= usize::MAX,
    ensures
        list_page(total, size, cursor, list, place, may_be_empty) matches Ok(page) ==> {
            &&& page.start <= page.end <= total
            &&& page.end - page.start <= size
            &&& page.start < total ==> page.start < page.end
            &&& match page.next {
                None => page.end == total,
                Some(next) => list_page(
                    total,
                    size,
                    Some(next),
                    list,
                    place,
                    may_be_empty,
                ) matches Ok(follower) && follower.start == page.end,
            }
        },
{
    if let Ok(page) = list_page(total, size, cursor, list, place, may_be_empty) {
        law_decimal_round_trip(page.end, usize::MAX as nat);
    }
}

/// The first page begins at the beginning.
pub proof fn law_first_page_begins_the_list(
    total: nat,
    size: nat,
    list: Seq<char>,
    place: Seq<char>,
    may_be_empty: bool,
)
    requires
        total > 0 || may_be_empty,
    ensures
        list_page(total, size, None, list, place, may_be_empty) matches Ok(page) && page.start == 0,
{
}

pub open spec fn listed_projects(projects: Seq<ProjectIdentity>, start: int, end: int) -> Json {
    Json::Array(
        Seq::new((end - start) as nat, |i: int| listed_project(projects[start + i])),
    )
}

/// A page of the project list as a client reads it.
pub open spec fn project_list_json(projects: Seq<ProjectIdentity>, page: PageBounds) -> Json {
    Json::Object(
        by_key(
            no_fields().push(
                ("projects"@, listed_projects(projects, page.start as int, page.end as int)),
            ).push(("returned"@, json_count((page.end - page.start) as nat))).push(
                ("truncated"@, Json::Bool(page.next is Some)),
            ).push(("next_cursor"@, json_optional_text(page.next))),
        ),
    )
}

/// The answer to a request for the project list.
pub fn project_list(projects: &Vec<ProjectIdentity>, cursor: Option<&str>) -> (answer: Result<
    JsonValue,
    McpError,
>)
    ensures
        match list_page(
            projects@.len(),
            PROJECT_LIST_PAGE_SIZE as nat,
            optional_cursor(cursor),
            "project_list"@,
            "the project list"@,
            true,
        ) {
            Ok(page) => answer matches Ok(json) && json@ == project_list_json(projects@, page),
            Err(reason) => answer matches Err(error) && error@ == invalid_params(reason),
        },
{
    let (range, next) = match project_list_page(projects.len(), cursor) {
        Ok(page) => page,
        Err(message) => {
            return Err(McpError::invalid_params(message.as_str()));
        },
    };
    let mut values: Vec<JsonValue> = Vec::new();
    let mut i: usize = range.start;
    while i < range.end
        invariant
            range.start <= i <= range.end <= projects@.len(),
            values@.len() == i - range.start,
            forall|j: int|
                0 <= j < values@.len() ==> (#[trigger] values@[j])@ == listed_project(
                    projects@[range.start + j],
                ),
        decreases range.end - i,
    {
        values.push(listed_project_json(&projects[i]));
        i = i + 1;
    }
    let returned = values.len();
    let listed = json_array(values);
    assert(listed@->Array_0 =~= listed_projects(
        projects@,
        range.start as int,
        range.end as int,
    )->Array_0);
    let mut fields = JsonObject::new();
    fields.put("projects", listed);
    fields.put("returned", json_number(returned));
    fields.put("truncated", JsonValue::Bool(next.is_some()));
    fields.put("next_cursor", crate::json::json_opt_str(&next));
    Ok(fields.into_map())
}

/// Of what a schema says, only words for a reader are left out. Literal values stay as
/// they are. What goes by the names of parameters or definitions is kept by name and
/// compacted value by value. Everything else is compacted.
pub proof fn law_compaction_leaves_out_only_words(
    entries: Seq<(Seq<char>, Json)>,
    key: Seq<char>,
    value: Json,
)
    ensures
        ({
            let words = {
                ||| key == "$schema"@
                ||| key == "deprecated"@
                ||| key == "description"@
                ||| key == "examples"@
                ||| key == "readOnly"@
                ||| key == "title"@
                ||| key == "writeOnly"@
            };
            let literal = {
                ||| key == "const"@
                ||| key == "enum"@
                ||| key == "default"@
            };
            let names = {
                ||| key == "properties"@
                ||| key == "$defs"@
                ||| key == "definitions"@
                ||| key == "patternProperties"@
                ||| key == "dependentSchemas"@
                ||| key == "dependentRequired"@
                ||| key == "dependencies"@
            };
            let before = compact_entries(entries);
            let after = compact_entries(entries.push((key, value)));
            &&& compact_entries(Seq::empty()) == Seq::<(Seq<char>, Json)>::empty()
            &&& words ==> after == before
            &&& literal ==> after == before.push((key, value))
            &&& names ==> (value matches Json::Object(named) ==> after == before.push(
                (key, Json::Object(compact_named(named))),
            ))
            &&& names && value !is Object ==> after == before.push((key, value))
            &&& !words && !literal && !names ==> after == before.push((key, compact_schema(value)))
        }),
{
    reveal_strlit("$schema");
    reveal_strlit("deprecated");
    reveal_strlit("description");
    reveal_strlit("examples");
    reveal_strlit("readOnly");
    reveal_strlit("title");
    reveal_strlit("writeOnly");
    reveal_strlit("const");
    reveal_strlit("enum");
    reveal_strlit("default");
    reveal_strlit("properties");
    reveal_strlit("$defs");
    reveal_strlit("definitions");
    reveal_strlit("patternProperties");
    reveal_strlit("dependentSchemas");
    reveal_strlit("dependentRequired");
    reveal_strlit("dependencies");
    assert("$schema"@.len() == 7);
    assert("deprecated"@.len() == 10);
    assert("description"@.len() == 11);
    assert("examples"@.len() == 8);
    assert("readOnly"@.len() == 8);
    assert("title"@.len() == 5);
    assert("writeOnly"@.len() == 9);
    assert("const"@.len() == 5);
    assert("enum"@.len() == 4);
    assert("default"@.len() == 7);
    assert("properties"@.len() == 10);
    assert("$defs"@.len() == 5);
    assert("definitions"@.len() == 11);
    assert("patternProperties"@.len() == 17);
    assert("dependentSchemas"@.len() == 16);
    assert("dependentRequired"@.len() == 17);
    assert("dependencies"@.len() == 12);
    assert("$schema"@[0] == '$');
    assert("default"@[0] == 'd');
    assert("deprecated"@[0] == 'd');
    assert("properties"@[0] == 'p');
    assert("description"@[2] == 's');
    assert("definitions"@[2] == 'f');
    assert("examples"@[0] == 'e');
    assert("readOnly"@[0] == 'r');
    assert("title"@[0] == 't');
    assert("const"@[0] == 'c');
    assert("$defs"@[0] == '$');
    assert("patternProperties"@[0] == 'p');
    assert("dependentRequired"@[0] == 'd');
    let more = entries.push((key, value));
    assert(more.drop_last() =~= entries);
    assert(more[more.len() - 1] == (key, value));
}

/// A value that is compacted keeps its kind: an array is compacted item by item, an
/// object entry by entry, and anything else stays as it is.
pub proof fn law_compaction_goes_item_by_item(items: Seq<Json>, item: Json)
    ensures
        compact_schema(Json::Array(Seq::empty())) == Json::Array(Seq::empty()),
        compact_schema(Json::Array(items)) matches Json::Array(before) && compact_schema(
            Json::Array(items.push(item)),
        ) == Json::Array(before.push(compact_schema(item))),
        item !is Array && item !is Object ==> compact_schema(item) == item,
        item matches Json::Object(entries) ==> compact_schema(item) == Json::Object(
            compact_entries(entries),
        ),
{
    reveal_with_fuel(compact_items, 2);
    let more = items.push(item);
    assert(more.drop_last() =~= items);
    assert(more[more.len() - 1] == item);
}

/// A tool is advertised under its name, in words made of its name, with what it takes
/// in compact form and what it says of itself, and without what it returns.
pub proof fn law_tool_is_advertised_briefly(tool: ToolModel)
    ensures
        ({
            let shown = advertised(tool);
            &&& shown.name == tool.name
            &&& shown.description matches Some(description) && description == "MCPLS "@ + spaced(
                tool.name,
            ) + "."@
            &&& shown.input_schema == compact_entries(tool.input_schema)
            &&& shown.output_schema is None
            &&& shown.annotations == tool.annotations
            &&& spaced(tool.name).len() == tool.name.len()
            &&& forall|i: int|
                0 <= i < tool.name.len() ==> {
                    &&& tool.name[i] == '_' ==> #[trigger] spaced(tool.name)[i] == ' '
                    &&& tool.name[i] != '_' ==> spaced(tool.name)[i] == tool.name[i]
                }
        }),
{
}

/// A tool is advertised exactly where its name is not one of those that newer tools
/// have replaced.
pub proof fn law_replaced_tools_are_not_advertised(tools: Seq<ToolModel>, name: Seq<char>)
    ensures
        (exists|i: int| 0 <= i < catalog(tools).len() && (#[trigger] catalog(tools)[i]).name == name)
            <==> (exists|i: int| 0 <= i < tools.len() && (#[trigger] tools[i]).name == name) && !({
            ||| name == "rename_symbol"@
            ||| name == "format_document"@
            ||| name == "get_code_actions"@
            ||| name == "get_cached_diagnostics"@
            ||| name == "workspace_symbol_search_batch"@
            ||| name == "inspect_symbol_batch"@
            ||| name == "range_format_preview"@
        }),
{
    law_catalog_is_complete(tools);
    if exists|i: int| 0 <= i < catalog(tools).len() && (#[trigger] catalog(tools)[i]).name == name {
        let i = choose|i: int|
            0 <= i < catalog(tools).len() && (#[trigger] catalog(tools)[i]).name == name;
        let entry = catalog(tools)[i];
        assert(catalog(tools).contains(entry));
        assert(comes_from(tools, entry));
    }
    if (exists|i: int| 0 <= i < tools.len() && (#[trigger] tools[i]).name == name) && !is_legacy(
        name,
    ) {
        let i = choose|i: int| 0 <= i < tools.len() && (#[trigger] tools[i]).name == name;
        let entry = advertised(tools[i]);
        assert(comes_from(tools, entry));
        assert(catalog(tools).contains(entry));
        let k = choose|k: int| 0 <= k < catalog(tools).len() && catalog(tools)[k] == entry;
        assert(catalog(tools)[k].name == name);
    }
}

/// Eleven tools lead the catalog in a fixed order, and the others follow by name.
pub proof fn law_leading_tools_come_first(name: Seq<char>, other: Seq<char>)
    ensures
        catalog_before("workspace_symbol_search"@, "inspect_symbol"@),
        catalog_before("inspect_symbol"@, "get_diagnostics"@),
        catalog_before("get_diagnostics"@, "format_preview"@),
        catalog_before("format_preview"@, "lexical_search"@),
        catalog_before("lexical_search"@, "read_semantic_resource"@),
        catalog_before("read_semantic_resource"@, "structural_replace_preview"@),
        catalog_before("structural_replace_preview"@, "workspace_edit_preview"@),
        catalog_before("workspace_edit_preview"@, "workspace_edit_apply"@),
        catalog_before("workspace_edit_apply"@, "code_action_apply"@),
        catalog_before("code_action_apply"@, "project_list"@),
        ({
            let leads = {
                ||| name == "workspace_symbol_search"@
                ||| name == "inspect_symbol"@
                ||| name == "get_diagnostics"@
                ||| name == "format_preview"@
                ||| name == "lexical_search"@
                ||| name == "read_semantic_resource"@
                ||| name == "structural_replace_preview"@
                ||| name == "workspace_edit_preview"@
                ||| name == "workspace_edit_apply"@
                ||| name == "code_action_apply"@
                ||| name == "project_list"@
            };
            let other_leads = {
                ||| other == "workspace_symbol_search"@
                ||| other == "inspect_symbol"@
                ||| other == "get_diagnostics"@
                ||| other == "format_preview"@
                ||| other == "lexical_search"@
                ||| other == "read_semantic_resource"@
                ||| other == "structural_replace_preview"@
                ||| other == "workspace_edit_preview"@
                ||| other == "workspace_edit_apply"@
                ||| other == "code_action_apply"@
                ||| other == "project_list"@
            };
            &&& leads && !other_leads ==> catalog_before(name, other) && !catalog_before(
                other,
                name,
            )
            &&& !leads && !other_leads ==> (catalog_before(name, other) <==> text_before(
                name,
                other,
            ))
        }),
{
    reveal_strlit("workspace_symbol_search");
    reveal_strlit("inspect_symbol");
    reveal_strlit("get_diagnostics");
    reveal_strlit("format_preview");
    reveal_strlit("lexical_search");
    reveal_strlit("read_semantic_resource");
    reveal_strlit("structural_replace_preview");
    reveal_strlit("workspace_edit_preview");
    reveal_strlit("workspace_edit_apply");
    reveal_strlit("code_action_apply");
    reveal_strlit("project_list");
    assert("workspace_symbol_search"@.len() == 23);
    assert("inspect_symbol"@.len() == 14);
    assert("get_diagnostics"@.len() == 15);
    assert("format_preview"@.len() == 14);
    assert("lexical_search"@.len() == 14);
    assert("read_semantic_resource"@.len() == 22);
    assert("structural_replace_preview"@.len() == 26);
    assert("workspace_edit_preview"@.len() == 22);
    assert("workspace_edit_apply"@.len() == 20);
    assert("code_action_apply"@.len() == 17);
    assert("project_list"@.len() == 12);
    assert("inspect_symbol"@[0] == 'i');
    assert("format_preview"@[0] == 'f');
    assert("lexical_search"@[0] == 'l');
    assert("read_semantic_resource"@[0] == 'r');
    assert("workspace_edit_preview"@[0] == 'w');
}

/// A list is given from the start or from the place of its cursor on. Every page but
/// the last is full, and every page but the last names the place of the next one. A
/// cursor that is no number is refused, and so is one beyond the list.
pub proof fn law_list_page_is_full(
    total: nat,
    size: nat,
    cursor: Option<Seq<char>>,
    list: Seq<char>,
    place: Seq<char>,
    may_be_empty: bool,
)
    ensures
        ({
            let page = list_page(total, size, cursor, list, place, may_be_empty);
            let start = match cursor {
                Some(cursor) => unsigned_value(cursor, usize::MAX as nat),
                None => Some(0),
            };
            &&& start is None ==> page == Err::<PageBounds, Seq<char>>(
                "invalid "@ + list + " cursor: "@ + cursor->0,
            )
            &&& start matches Some(start) ==> {
                &&& start < total || (cursor is None && may_be_empty) ==> (page matches Ok(given)
                    && given.start == start)
                &&& start >= total && !(cursor is None && may_be_empty) ==> page == Err::<
                    PageBounds,
                    Seq<char>,
                >(list + " cursor is outside "@ + place + ": "@ + decimal(start))
            }
            &&& page matches Ok(given) ==> {
                &&& given.end < total ==> given.end == given.start + size && given.next == Some(
                    decimal(given.end),
                )
                &&& given.end >= total ==> given.next is None
                &&& given.end <= total
                &&& given.start + size <= total ==> given.end == given.start + size
                &&& given.start + size > total ==> given.end == total
            }
        }),
{
}

/// A page of the catalog holds twelve tools, one of the project list thirty-two
/// projects and one of the resource list sixty-four resources.
pub proof fn law_pages_have_their_sizes()
    ensures
        ADVERTISED_TOOL_PAGE_SIZE == 12,
        PROJECT_LIST_PAGE_SIZE == 32,
        RESOURCE_PAGE_SIZE == 64,
{
}

/// A page of the project list gives its projects in order, counts them, and is marked
/// as cut exactly where it names the next page.
pub proof fn law_project_page_gives_its_projects(
    projects: Seq<ProjectIdentity>,
    page: PageBounds,
)
    requires
        page.start <= page.end <= projects.len(),
    ensures
        ({
            let json = project_list_json(projects, page);
            &&& member(json, "projects"@) matches Some(Json::Array(shown)) && shown.len() == page.end
                - page.start && forall|i: int|
                0 <= i < shown.len() ==> #[trigger] shown[i] == listed_project(
                    projects[page.start + i],
                )
            &&& member(json, "returned"@) == Some(json_count((page.end - page.start) as nat))
            &&& page.next matches Some(next) ==> member(json, "truncated"@) == Some(
                Json::Bool(true),
            ) && member(json, "next_cursor"@) == Some(Json::Text(next))
            &&& page.next is None ==> member(json, "truncated"@) == Some(Json::Bool(false))
                && member(json, "next_cursor"@) == Some(Json::Null)
        }),
{
    reveal_strlit("projects");
    reveal_strlit("returned");
    reveal_strlit("truncated");
    reveal_strlit("next_cursor");
    assert("projects"@.len() == 8);
    assert("returned"@.len() == 8);
    assert("truncated"@.len() == 9);
    assert("next_cursor"@.len() == 11);
    assert("projects"@[0] == 'p');
    assert("returned"@[0] == 'r');
    lemma_last_pushed();
    lemma_filled_members(
        no_fields().push(
            ("projects"@, listed_projects(projects, page.start as int, page.end as int)),
        ).push(("returned"@, json_count((page.end - page.start) as nat))).push(
            ("truncated"@, Json::Bool(page.next is Some)),
        ).push(("next_cursor"@, json_optional_text(page.next))),
    );
}

} // verus!
