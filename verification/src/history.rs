//! The record that the gateway keeps of what it was asked.
use crate::http;
use crate::json;
use crate::json::{Json, Tree};
use crate::openai;
use vstd::prelude::*;

verus! {

/// The file that the records are appended to, in the directory of the gateway's files.
pub const HISTORY_FILE: &'static str = "rust-history.jsonl";

/// What is kept of a request: how it was answered and by which model, how many
/// characters it had and got, whether that went well, and what went wrong.
#[derive(Debug)]
pub struct HistoryEntry {
    pub kind: &'static str,
    pub model: String,
    pub prompt_chars: usize,
    pub output_chars: usize,
    pub ok: bool,
    pub error: Option<String>,
}

/// What is kept of a request.
#[verifier::ext_equal]
pub struct EntryView {
    pub kind: Seq<char>,
    pub model: Seq<char>,
    pub prompt_chars: int,
    pub output_chars: int,
    pub ok: bool,
    pub error: Option<Seq<char>>,
}

impl View for HistoryEntry {
    type V = EntryView;

    open spec fn view(&self) -> EntryView {
        EntryView {
            kind: self.kind@,
            model: self.model@,
            prompt_chars: self.prompt_chars as int,
            output_chars: self.output_chars as int,
            ok: self.ok,
            error: http::opt_text(self.error),
        }
    }
}

/// What is kept of a request, where something is kept of it.
pub open spec fn opt_entry(entry: Option<HistoryEntry>) -> Option<EntryView> {
    match entry {
        Some(e) => Some(e@),
        None => None,
    }
}

/// A request that was answered.
pub open spec fn answered(
    kind: Seq<char>,
    model: Seq<char>,
    prompt_chars: int,
    output_chars: int,
) -> EntryView {
    EntryView { kind, model, prompt_chars, output_chars, ok: true, error: None }
}

/// A request that failed.
pub open spec fn failed(
    kind: Seq<char>,
    model: Seq<char>,
    prompt_chars: int,
    detail: Seq<char>,
) -> EntryView {
    EntryView { kind, model, prompt_chars, output_chars: 0, ok: false, error: Some(detail) }
}

/// A request that was answered.
pub fn success(
    kind: &'static str,
    model: &str,
    prompt_chars: usize,
    output_chars: usize,
) -> (r: HistoryEntry)
    ensures
        r@ == answered(kind@, model@, prompt_chars as int, output_chars as int),
{
    HistoryEntry {
        kind,
        model: model.to_owned(),
        prompt_chars,
        output_chars,
        ok: true,
        error: None,
    }
}

/// A request that failed.
pub fn failure(kind: &'static str, model: &str, prompt_chars: usize, detail: &str) -> (r:
    HistoryEntry)
    ensures
        r@ == failed(kind@, model@, prompt_chars as int, detail@),
{
    HistoryEntry {
        kind,
        model: model.to_owned(),
        prompt_chars,
        output_chars: 0,
        ok: false,
        error: Some(detail.to_owned()),
    }
}

/// A record as JSON, with the time at which it was made and the milliseconds that
/// the request took.
pub open spec fn record_tree(entry: EntryView, ts: int, latency_ms: int) -> Tree {
    Tree::Object(
        seq![
            json::field_tree("ts"@, json::int_tree(ts)),
            json::field_tree("kind"@, json::str_tree(entry.kind)),
            json::field_tree("model"@, json::str_tree(entry.model)),
            json::field_tree("prompt_chars"@, json::int_tree(entry.prompt_chars)),
            json::field_tree("output_chars"@, json::int_tree(entry.output_chars)),
            json::field_tree("latency_ms"@, json::int_tree(latency_ms)),
            json::field_tree("ok"@, Tree::Bool(entry.ok)),
            json::field_tree("error"@, openai::text_or_null(entry.error)),
        ],
    )
}

/// A record as one line of text.
pub fn record_line(entry: &HistoryEntry, ts: i64, latency_ms: u64) -> (r: String)
    ensures
        r@ == json::written(record_tree(entry@, ts as int, latency_ms as int)) + "\n"@,
{
    let error = match &entry.error {
        Some(detail) => json::string(detail.as_str()),
        None => Json::Null,
    };
    let record = json::object(
        vec![
            json::field("ts", json::integer(ts)),
            json::field("kind", json::string(entry.kind)),
            json::field("model", json::string(entry.model.as_str())),
            json::field("prompt_chars", json::number(entry.prompt_chars as u64)),
            json::field("output_chars", json::number(entry.output_chars as u64)),
            json::field("latency_ms", json::number(latency_ms)),
            json::field("ok", Json::Bool(entry.ok)),
            json::field("error", error),
        ],
    );
    assert(record@->Object_0 =~= record_tree(entry@, ts as int, latency_ms as int)->Object_0);
    let mut line = record.to_text();
    line.append("\n");
    line
}

/// A record takes one line, whatever was asked and whatever went wrong.
pub proof fn law_records_take_one_line(entry: EntryView, ts: int, latency_ms: int)
    ensures
        json::on_one_line(json::written(record_tree(entry, ts, latency_ms))),
{
    let fields = record_tree(entry, ts, latency_ms)->Object_0;
    assert forall|i: int| 0 <= i < fields.len() implies json::on_one_line(
        json::written((#[trigger] fields[i]).value),
    ) by {
        assert(json::int_tree(ts) == fields[0].value);
        assert(json::int_tree(entry.prompt_chars) == fields[3].value);
        assert(json::int_tree(entry.output_chars) == fields[4].value);
        assert(json::int_tree(latency_ms) == fields[5].value);
        json::lemma_leaf_stands_on_one_line(fields[i].value);
    }
    json::lemma_object_stands_on_one_line(fields);
}

/// What is kept of a request is read in its record.
pub proof fn law_records_are_read_back(entry: EntryView, ts: int, latency_ms: int)
    ensures
        ({
            let tree = record_tree(entry, ts, latency_ms);
            &&& tree.get("ts"@) == Some(json::int_tree(ts))
            &&& tree.get_str("kind"@) == Some(entry.kind)
            &&& tree.get_str("model"@) == Some(entry.model)
            &&& tree.get("prompt_chars"@) == Some(json::int_tree(entry.prompt_chars))
            &&& tree.get("output_chars"@) == Some(json::int_tree(entry.output_chars))
            &&& tree.get("latency_ms"@) == Some(json::int_tree(latency_ms))
            &&& tree.get("ok"@) == Some(Tree::Bool(entry.ok))
            &&& entry.error matches Some(e) ==> tree.get_str("error"@) == Some(e)
            &&& entry.error is None ==> tree.get("error"@) == Some(Tree::Null)
        }),
{
    let tree = record_tree(entry, ts, latency_ms);
    reveal_strlit("ts");
    reveal_strlit("kind");
    reveal_strlit("model");
    reveal_strlit("prompt_chars");
    reveal_strlit("output_chars");
    reveal_strlit("latency_ms");
    reveal_strlit("ok");
    reveal_strlit("error");
    assert("ts"@.len() != "kind"@.len());
    assert("ts"@.len() != "model"@.len());
    assert("kind"@.len() != "model"@.len());
    assert("ts"@.len() != "prompt_chars"@.len());
    assert("kind"@.len() != "prompt_chars"@.len());
    assert("model"@.len() != "prompt_chars"@.len());
    assert("ts"@.len() != "output_chars"@.len());
    assert("kind"@.len() != "output_chars"@.len());
    assert("model"@.len() != "output_chars"@.len());
    assert("prompt_chars"@[0] != "output_chars"@[0]);
    assert("ts"@.len() != "latency_ms"@.len());
    assert("kind"@.len() != "latency_ms"@.len());
    assert("model"@.len() != "latency_ms"@.len());
    assert("prompt_chars"@.len() != "latency_ms"@.len());
    assert("output_chars"@.len() != "latency_ms"@.len());
    assert("ts"@[0] != "ok"@[0]);
    assert("kind"@.len() != "ok"@.len());
    assert("model"@.len() != "ok"@.len());
    assert("prompt_chars"@.len() != "ok"@.len());
    assert("output_chars"@.len() != "ok"@.len());
    assert("latency_ms"@.len() != "ok"@.len());
    assert("ts"@.len() != "error"@.len());
    assert("kind"@.len() != "error"@.len());
    assert("model"@[0] != "error"@[0]);
    assert("prompt_chars"@.len() != "error"@.len());
    assert("output_chars"@.len() != "error"@.len());
    assert("latency_ms"@.len() != "error"@.len());
    assert("ok"@.len() != "error"@.len());
    json::law_fields_are_found_by_name(tree->Object_0, 0);
    json::law_fields_are_found_by_name(tree->Object_0, 1);
    json::law_fields_are_found_by_name(tree->Object_0, 2);
    json::law_fields_are_found_by_name(tree->Object_0, 3);
    json::law_fields_are_found_by_name(tree->Object_0, 4);
    json::law_fields_are_found_by_name(tree->Object_0, 5);
    json::law_fields_are_found_by_name(tree->Object_0, 6);
    json::law_fields_are_found_by_name(tree->Object_0, 7);
}

/// A request that was answered has no error, and one that failed has no answer.
pub proof fn law_requests_are_answered_or_fail(
    kind: Seq<char>,
    model: Seq<char>,
    prompt_chars: int,
    output_chars: int,
    detail: Seq<char>,
)
    ensures
        ({
            let entry = answered(kind, model, prompt_chars, output_chars);
            &&& entry.ok && entry.error is None && entry.output_chars == output_chars
            &&& entry.kind == kind && entry.model == model && entry.prompt_chars == prompt_chars
        }),
        ({
            let entry = failed(kind, model, prompt_chars, detail);
            &&& !entry.ok && entry.error == Some(detail) && entry.output_chars == 0
            &&& entry.kind == kind && entry.model == model && entry.prompt_chars == prompt_chars
        }),
{
}

} // verus!
