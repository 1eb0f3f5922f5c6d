//! The messages of the OpenAI HTTP API, and the prompts that are made of them.
use crate::http;
use crate::json;
use crate::json::{Json, Tree};
use crate::text;
use vstd::prelude::*;

verus! {

/// A request for a chat completion.
#[derive(Debug)]
pub struct ChatCompletionRequest {
    pub model: String,
    pub messages: Vec<ChatMessage>,
    pub stream: Option<bool>,
    pub tools: Option<Vec<Json>>,
    pub tool_choice: Option<Json>,
    pub response_format: Option<Json>,
}

/// One message of a conversation.
#[derive(Debug)]
pub struct ChatMessage {
    pub role: String,
    pub content: Option<Json>,
}

/// A request for a response.
#[derive(Debug)]
pub struct ResponseCreateRequest {
    pub model: String,
    pub input: Json,
    pub instructions: Option<String>,
    pub stream: Option<bool>,
    pub tools: Option<Vec<Json>>,
    pub tool_choice: Option<Json>,
    pub response_format: Option<Json>,
    pub metadata: Option<Json>,
}

/// The texts of the parts of a content that have one.
pub open spec fn part_texts(items: Seq<Tree>) -> Seq<Seq<char>>
    decreases items.len(),
{
    if items.len() == 0 {
        Seq::empty()
    } else {
        let earlier = part_texts(items.drop_last());
        match items.last().get_str("text"@) {
            Some(s) => earlier.push(s),
            None => earlier,
        }
    }
}

/// What a content says: a string as it stands, the texts of a list of parts each
/// in a line of its own, any other value as JSON.
pub open spec fn content_text(value: Option<Tree>) -> Option<Seq<char>> {
    match value {
        None => None,
        Some(Tree::Str(s)) => Some(s),
        Some(Tree::Array(items)) => Some(text::join(part_texts(items), "\n"@)),
        Some(other) => Some(json::written(other)),
    }
}

pub fn content_to_text(value: Option<&Json>) -> (r: Option<String>)
    ensures
        http::opt_text(r) == content_text(
            match value {
                Some(j) => Some(j@),
                None => None,
            },
        ),
{
    match value {
        None => None,
        Some(Json::Str(s)) => Some(s.clone()),
        Some(Json::Array(items)) => {
            proof {
                json::lemma_array_view(*items);
            }
            let ghost all = json::trees(items@);
            let mut parts: Vec<String> = Vec::new();
            let mut i: usize = 0;
            while i < items.len()
                invariant
                    all == json::trees(items@),
                    i <= items@.len(),
                    text::views(parts@) == part_texts(all.take(i as int)),
                decreases items@.len() - i,
            {
                let ghost earlier = parts@;
                assert(all.take(i + 1).drop_last() == all.take(i as int));
                assert(all.take(i + 1).last() == items@[i as int]@);
                if let Some(said) = items[i].get_str("text") {
                    parts.push(said.to_owned());
                    assert(text::views(parts@) == text::views(earlier).push(said@));
                }
                i = i + 1;
            }
            assert(all.take(i as int) == all);
            Some(text::joined(&parts, "\n"))
        },
        Some(other) => Some(other.to_text()),
    }
}

/// A turn of a conversation: what a content says between the white space around
/// it, under the role of who says it. Nothing where it says nothing.
pub open spec fn turn(role: Seq<char>, content: Option<Tree>) -> Seq<Seq<char>> {
    match http::visible(content_text(content)) {
        Some(said) => seq!["["@ + role + "]\n"@ + said],
        None => Seq::empty(),
    }
}

/// Appends a turn of a conversation.
fn push_turn(parts: &mut Vec<String>, role: &str, content: Option<&Json>)
    ensures
        text::views(final(parts)@) == text::views(old(parts)@) + turn(
            role@,
            match content {
                Some(j) => Some(j@),
                None => None,
            },
        ),
{
    if let Some(said) = content_to_text(content) {
        let trimmed = text::trimmed(said.as_str());
        if !trimmed.as_str().is_empty() {
            let mut out = "[".to_owned();
            out.append(role);
            out.append("]\n");
            out.append(trimmed.as_str());
            parts.push(out);
            assert(text::views(parts@) == text::views(old(parts)@).push(out@));
        }
    }
}

/// The turns of a conversation.
pub open spec fn turns(messages: Seq<ChatMessage>) -> Seq<Seq<char>>
    decreases messages.len(),
{
    if messages.len() == 0 {
        Seq::empty()
    } else {
        turns(messages.drop_last()) + turn(
            messages.last().role@,
            json::opt_tree(messages.last().content),
        )
    }
}

/// A conversation as one text.
pub open spec fn conversation(messages: Seq<ChatMessage>) -> Seq<char> {
    text::join(turns(messages), "\n\n"@)
}

pub fn messages_to_prompt(messages: &[ChatMessage]) -> (r: String)
    ensures
        r@ == conversation(messages@),
{
    let mut parts: Vec<String> = Vec::new();
    let mut i: usize = 0;
    while i < messages.len()
        invariant
            i <= messages@.len(),
            text::views(parts@) == turns(messages@.take(i as int)),
        decreases messages@.len() - i,
    {
        assert(messages@.take(i + 1).drop_last() == messages@.take(i as int));
        push_turn(&mut parts, messages[i].role.as_str(), messages[i].content.as_ref());
        i = i + 1;
    }
    assert(messages@.take(i as int) == messages@);
    text::joined(&parts, "\n\n")
}

/// What the latest message of the user says; nothing where there is none.
pub open spec fn latest_user_text(messages: Seq<ChatMessage>) -> Seq<char>
    decreases messages.len(),
{
    if messages.len() == 0 {
        Seq::empty()
    } else if messages.last().role@ == "user"@ {
        match content_text(json::opt_tree(messages.last().content)) {
            Some(said) => said,
            None => Seq::empty(),
        }
    } else {
        latest_user_text(messages.drop_last())
    }
}

pub fn latest_user_plain_text(messages: &[ChatMessage]) -> (r: String)
    ensures
        r@ == latest_user_text(messages@),
{
    let mut i: usize = messages.len();
    assert(messages@.take(i as int) == messages@);
    while i > 0
        invariant
            i <= messages@.len(),
            latest_user_text(messages@) == latest_user_text(messages@.take(i as int)),
        decreases i,
    {
        assert(messages@.take(i as int).last() == messages@[i - 1]);
        assert(messages@.take(i as int).drop_last() == messages@.take(i - 1));
        if text::same(messages[i - 1].role.as_str(), "user") {
            return match content_to_text(messages[i - 1].content.as_ref()) {
                Some(said) => said,
                None => String::new(),
            };
        }
        i = i - 1;
    }
    String::new()
}

/// What the user says last decides alone what the latest message of the user says,
/// whatever was said before it, and by others after it.
pub proof fn law_only_the_latest_user_message_counts(
    earlier: Seq<ChatMessage>,
    other: Seq<ChatMessage>,
    message: ChatMessage,
    later: Seq<ChatMessage>,
)
    requires
        message.role@ == "user"@,
        forall|i: int| 0 <= i < later.len() ==> (#[trigger] later[i]).role@ != "user"@,
    ensures
        latest_user_text(earlier.push(message) + later) == latest_user_text(
            other.push(message) + later,
        ),
    decreases later.len(),
{
    let a = earlier.push(message) + later;
    let b = other.push(message) + later;
    if later.len() == 0 {
        assert(a.last() == message);
        assert(b.last() == message);
    } else {
        let shorter = later.drop_last();
        assert(a.last() == later[later.len() - 1]);
        assert(b.last() == later[later.len() - 1]);
        assert(a.drop_last() == earlier.push(message) + shorter);
        assert(b.drop_last() == other.push(message) + shorter);
        law_only_the_latest_user_message_counts(earlier, other, message, shorter);
    }
}

/// Who says an item of an input.
pub open spec fn item_role(item: Tree) -> Seq<char> {
    match item.get_str("role"@) {
        Some(role) => role,
        None => "user"@,
    }
}

/// What an item of an input holds.
pub open spec fn item_content(item: Tree) -> Option<Tree> {
    match item {
        Tree::Str(_) => Some(item),
        _ => item.get("content"@),
    }
}

/// The turns of a list of items.
pub open spec fn item_turns(items: Seq<Tree>) -> Seq<Seq<char>>
    decreases items.len(),
{
    if items.len() == 0 {
        Seq::empty()
    } else {
        item_turns(items.drop_last()) + turn(item_role(items.last()), item_content(items.last()))
    }
}

/// The turns of an input: those of a list of items, or the one of the user.
pub open spec fn input_turns(input: Tree) -> Seq<Seq<char>> {
    match input {
        Tree::Array(items) => item_turns(items),
        Tree::Null => Seq::empty(),
        other => turn("user"@, Some(other)),
    }
}

/// An input as one text, after the instructions that come with it.
pub open spec fn input_text(input: Tree, instructions: Option<Seq<char>>) -> Seq<char> {
    text::join(
        turn(
            "system"@,
            match instructions {
                Some(s) => Some(json::str_tree(s)),
                None => None,
            },
        ) + input_turns(input),
        "\n\n"@,
    )
}

/// Who says an item of an input.
fn role_of_item(item: &Json) -> (r: String)
    ensures
        r@ == item_role(item@),
{
    match item.get_str("role") {
        Some(role) => role.to_owned(),
        None => "user".to_owned(),
    }
}

/// What an item of an input holds.
pub fn content_of_item(item: &Json) -> (r: Option<&Json>)
    ensures
        match r {
            Some(j) => item_content(item@) == Some(j@),
            None => item_content(item@) is None,
        },
{
    match item {
        Json::Str(_) => Some(item),
        _ => item.get("content"),
    }
}

/// The prompt of a request for a response.
pub fn response_input_to_prompt(input: &Json, instructions: &Option<String>) -> (r: String)
    ensures
        r@ == input_text(input@, http::opt_text(*instructions)),
{
    let mut parts: Vec<String> = Vec::new();
    assert(text::views(parts@) =~= Seq::empty());
    match instructions {
        Some(s) => {
            let told = json::string(s.as_str());
            push_turn(&mut parts, "system", Some(&told));
        },
        None => {},
    }
    let ghost first = text::views(parts@);
    match input {
        Json::Array(items) => {
            proof {
                json::lemma_array_view(*items);
            }
            let ghost all = json::trees(items@);
            let mut i: usize = 0;
            while i < items.len()
                invariant
                    all == json::trees(items@),
                    i <= items@.len(),
                    text::views(parts@) == first + item_turns(all.take(i as int)),
                decreases items@.len() - i,
            {
                assert(all.take(i + 1).drop_last() == all.take(i as int));
                assert(all.take(i + 1).last() == items@[i as int]@);
                push_turn(
                    &mut parts,
                    role_of_item(&items[i]).as_str(),
                    content_of_item(&items[i]),
                );
                i = i + 1;
            }
            assert(all.take(i as int) == all);
        },
        Json::Null => {},
        other => push_turn(&mut parts, "user", Some(other)),
    }
    assert(text::views(parts@) =~= first + input_turns(input@));
    text::joined(&parts, "\n\n")
}

/// What the latest item of the user says; nothing where there is none.
pub open spec fn latest_item_text(items: Seq<Tree>) -> Seq<char>
    decreases items.len(),
{
    if items.len() == 0 {
        Seq::empty()
    } else if item_role(items.last()) == "user"@ {
        match content_text(item_content(items.last())) {
            Some(said) => said,
            None => Seq::empty(),
        }
    } else {
        latest_item_text(items.drop_last())
    }
}

/// What the user says last in an input.
pub open spec fn latest_input(input: Tree) -> Seq<char> {
    match input {
        Tree::Array(items) => latest_item_text(items),
        Tree::Null => Seq::empty(),
        other => match content_text(Some(other)) {
            Some(said) => said,
            None => Seq::empty(),
        },
    }
}

/// What the user says last decides alone what the user says last in an input, whatever
/// stands before it, and of others behind it.
pub proof fn law_only_the_latest_item_counts(
    earlier: Seq<Tree>,
    other: Seq<Tree>,
    item: Tree,
    later: Seq<Tree>,
)
    requires
        item_role(item) == "user"@,
        forall|i: int| 0 <= i < later.len() ==> item_role(#[trigger] later[i]) != "user"@,
    ensures
        latest_input(Tree::Array(earlier.push(item) + later)) == latest_input(
            Tree::Array(other.push(item) + later),
        ),
    decreases later.len(),
{
    let a = earlier.push(item) + later;
    let b = other.push(item) + later;
    if later.len() == 0 {
        assert(a.last() == item);
        assert(b.last() == item);
    } else {
        let shorter = later.drop_last();
        assert(a.last() == later[later.len() - 1]);
        assert(b.last() == later[later.len() - 1]);
        assert(a.drop_last() == earlier.push(item) + shorter);
        assert(b.drop_last() == other.push(item) + shorter);
        law_only_the_latest_item_counts(earlier, other, item, shorter);
    }
}

pub fn latest_input_text(input: &Json) -> (r: String)
    ensures
        r@ == latest_input(input@),
{
    match input {
        Json::Array(items) => {
            proof {
                json::lemma_array_view(*items);
            }
            let ghost all = json::trees(items@);
            let mut i: usize = items.len();
            assert(all.take(i as int) == all);
            while i > 0
                invariant
                    all == json::trees(items@),
                    input@ == Tree::Array(all),
                    i <= items@.len(),
                    latest_item_text(all) == latest_item_text(all.take(i as int)),
                decreases i,
            {
                assert(all.take(i as int).last() == items@[i - 1]@);
                assert(all.take(i as int).drop_last() == all.take(i - 1));
                if text::same(role_of_item(&items[i - 1]).as_str(), "user") {
                    return match content_to_text(content_of_item(&items[i - 1])) {
                        Some(said) => said,
                        None => String::new(),
                    };
                }
                i = i - 1;
            }
            String::new()
        },
        Json::Null => String::new(),
        other => match content_to_text(Some(other)) {
            Some(said) => said,
            None => String::new(),
        },
    }
}

/// About how many tokens a text has: one for every four characters that it begins.
pub open spec fn tokens(s: Seq<char>) -> nat {
    (s.len() + 3) / 4
}

pub fn estimate_tokens(text: &str) -> (r: u64)
    ensures
        r == tokens(text@),
        r <= u64::MAX / 2,
{
    let n: u64 = text.unicode_len() as u64;
    n / 4 + if n % 4 == 0 {
        0
    } else {
        1
    }
}

/// What a caller's wish for a format asks of the model.
pub open spec fn format_part(format: Option<Tree>) -> Seq<Seq<char>> {
    match format {
        Some(f) => if f.get_str("type"@) == Some("json_object"@) || f.get_str("type"@) == Some(
            "json_schema"@,
        ) {
            seq!["Return valid JSON only. Do not wrap it in Markdown."@]
        } else {
            Seq::empty()
        },
        None => Seq::empty(),
    }
}

/// How the model is told of the tools that the caller has.
pub open spec fn tools_part(tools: Option<Seq<Tree>>) -> Seq<Seq<char>> {
    match tools {
        Some(list) => if list.len() > 0 {
            seq![
                "Tools are available. If a tool is needed, respond with a JSON object: {\"tool_calls\":[{\"name\":\"tool_name\",\"arguments\":{}}]}. Available tools: "@
                    + json::written(Tree::Array(list)),
            ]
        } else {
            Seq::empty()
        },
        None => Seq::empty(),
    }
}

/// How the model is told which tools to use.
pub open spec fn choice_part(choice: Option<Tree>) -> Seq<Seq<char>> {
    match choice {
        Some(Tree::Null) => Seq::empty(),
        Some(c) => seq!["Tool choice constraint: "@ + json::written(c)],
        None => Seq::empty(),
    }
}

/// What a list of tools says, where there is one.
pub open spec fn opt_trees(tools: Option<Vec<Json>>) -> Option<Seq<Tree>> {
    match tools {
        Some(list) => Some(json::trees(list@)),
        None => None,
    }
}

/// What a request asks of the model beyond the conversation, each wish in a line
/// of its own.
pub open spec fn extra_instructions(
    format: Option<Tree>,
    tools: Option<Seq<Tree>>,
    choice: Option<Tree>,
) -> Seq<char> {
    text::join(format_part(format) + tools_part(tools) + choice_part(choice), "\n"@)
}

/// What a request asks of the model beyond the conversation.
fn instructions(
    format: &Option<Json>,
    tools: &Option<Vec<Json>>,
    choice: &Option<Json>,
) -> (r: String)
    ensures
        r@ == extra_instructions(
            json::opt_tree(*format),
            opt_trees(*tools),
            json::opt_tree(*choice),
        ),
{
    let mut parts: Vec<String> = Vec::new();
    if let Some(format) = format {
        if let Some(kind) = format.get_str("type") {
            if text::same(kind, "json_object") || text::same(kind, "json_schema") {
                parts.push("Return valid JSON only. Do not wrap it in Markdown.".to_owned());
            }
        }
    }
    assert(text::views(parts@) == format_part(json::opt_tree(*format)));
    let ghost first = parts@;
    if let Some(tools) = tools {
        if tools.len() > 0 {
            let mut told =
                "Tools are available. If a tool is needed, respond with a JSON object: {\"tool_calls\":[{\"name\":\"tool_name\",\"arguments\":{}}]}. Available tools: ".to_owned();
            told.append(json::array(json::copy_items(tools)).to_text().as_str());
            parts.push(told);
            assert(text::views(parts@) == text::views(first).push(told@));
        }
    }
    assert(text::views(parts@) == text::views(first) + tools_part(opt_trees(*tools)));
    let ghost second = parts@;
    if let Some(choice) = choice {
        if !matches!(choice, Json::Null) {
            let mut told = "Tool choice constraint: ".to_owned();
            told.append(choice.to_text().as_str());
            parts.push(told);
            assert(text::views(parts@) == text::views(second).push(told@));
        }
    }
    assert(text::views(parts@) == text::views(second) + choice_part(json::opt_tree(*choice)));
    text::joined(&parts, "\n")
}

pub fn chat_extra_instructions(request: &ChatCompletionRequest) -> (r: String)
    ensures
        r@ == extra_instructions(
            json::opt_tree(request.response_format),
            opt_trees(request.tools),
            json::opt_tree(request.tool_choice),
        ),
{
    instructions(&request.response_format, &request.tools, &request.tool_choice)
}

pub fn response_extra_instructions(request: &ResponseCreateRequest) -> (r: String)
    ensures
        r@ == extra_instructions(
            json::opt_tree(request.response_format),
            opt_trees(request.tools),
            json::opt_tree(request.tool_choice),
        ),
{
    instructions(&request.response_format, &request.tools, &request.tool_choice)
}

/// The models that the gateway offers.
#[derive(Debug)]
pub struct ModelListResponse {
    pub object: &'static str,
    pub data: Vec<ModelData>,
}

/// One model that the gateway offers.
#[derive(Debug)]
pub struct ModelData {
    pub id: String,
    pub object: &'static str,
    pub created: i64,
    pub owned_by: String,
}

/// What is said of a model.
#[verifier::ext_equal]
pub struct ModelDataView {
    pub id: Seq<char>,
    pub object: Seq<char>,
    pub created: int,
    pub owned_by: Seq<char>,
}

impl View for ModelData {
    type V = ModelDataView;

    open spec fn view(&self) -> ModelDataView {
        ModelDataView {
            id: self.id@,
            object: self.object@,
            created: self.created as int,
            owned_by: self.owned_by@,
        }
    }
}

/// What is said of each model of a list.
pub open spec fn model_data_views(data: Seq<ModelData>) -> Seq<ModelDataView> {
    data.map_values(|m: ModelData| m@)
}

/// A model as JSON.
pub open spec fn model_data_tree(model: ModelDataView) -> Tree {
    Tree::Object(
        seq![
            json::field_tree("id"@, json::str_tree(model.id)),
            json::field_tree("object"@, json::str_tree(model.object)),
            json::field_tree("created"@, json::int_tree(model.created)),
            json::field_tree("owned_by"@, json::str_tree(model.owned_by)),
        ],
    )
}

impl ModelData {
    pub fn to_json(&self) -> (r: Json)
        ensures
            r@ == model_data_tree(self@),
    {
        let r = json::object(
            vec![
                json::field("id", json::string(self.id.as_str())),
                json::field("object", json::string(self.object)),
                json::field("created", json::integer(self.created)),
                json::field("owned_by", json::string(self.owned_by.as_str())),
            ],
        );
        assert(r@->Object_0 =~= model_data_tree(self@)->Object_0);
        r
    }
}

impl ModelListResponse {
    pub fn to_json(&self) -> (r: Json)
        ensures
            r@ == Tree::Object(
                seq![
                    json::field_tree("object"@, json::str_tree(self.object@)),
                    json::field_tree(
                        "data"@,
                        Tree::Array(
                            model_data_views(self.data@).map_values(
                                |m: ModelDataView| model_data_tree(m),
                            ),
                        ),
                    ),
                ],
            ),
    {
        let ghost wanted = model_data_views(self.data@).map_values(
            |m: ModelDataView| model_data_tree(m),
        );
        let mut items: Vec<Json> = Vec::new();
        let mut i: usize = 0;
        while i < self.data.len()
            invariant
                i <= self.data@.len(),
                wanted == model_data_views(self.data@).map_values(
                    |m: ModelDataView| model_data_tree(m),
                ),
                json::trees(items@) == wanted.take(i as int),
            decreases self.data@.len() - i,
        {
            let ghost earlier = items@;
            let next = self.data[i].to_json();
            items.push(next);
            assert(json::trees(items@) == json::trees(earlier).push(next@));
            i = i + 1;
        }
        assert(wanted.take(i as int) == wanted);
        let r = json::object(
            vec![
                json::field("object", json::string(self.object)),
                json::field("data", json::array(items)),
            ],
        );
        assert(r@->Object_0 =~= seq![
            json::field_tree("object"@, json::str_tree(self.object@)),
            json::field_tree("data"@, Tree::Array(wanted)),
        ]);
        r
    }
}

/// How much a request and its answer count.
#[derive(Debug)]
pub struct Usage {
    pub prompt_tokens: u64,
    pub completion_tokens: u64,
    pub total_tokens: u64,
    pub prompt_tokens_details: Option<Json>,
    pub completion_tokens_details: Option<Json>,
}

/// What a usage says.
#[verifier::ext_equal]
pub struct UsageView {
    pub prompt_tokens: int,
    pub completion_tokens: int,
    pub total_tokens: int,
    pub prompt_tokens_details: Option<Tree>,
    pub completion_tokens_details: Option<Tree>,
}

impl View for Usage {
    type V = UsageView;

    open spec fn view(&self) -> UsageView {
        UsageView {
            prompt_tokens: self.prompt_tokens as int,
            completion_tokens: self.completion_tokens as int,
            total_tokens: self.total_tokens as int,
            prompt_tokens_details: json::opt_tree(self.prompt_tokens_details),
            completion_tokens_details: json::opt_tree(self.completion_tokens_details),
        }
    }
}

/// A usage as JSON.
pub open spec fn usage_tree(usage: UsageView) -> Tree {
    Tree::Object(
        seq![
            json::field_tree("prompt_tokens"@, json::int_tree(usage.prompt_tokens)),
            json::field_tree("completion_tokens"@, json::int_tree(usage.completion_tokens)),
            json::field_tree("total_tokens"@, json::int_tree(usage.total_tokens)),
        ] + json::opt_field("prompt_tokens_details"@, usage.prompt_tokens_details)
            + json::opt_field("completion_tokens_details"@, usage.completion_tokens_details),
    )
}

impl Usage {
    pub fn to_json(&self) -> (r: Json)
        ensures
            r@ == usage_tree(self@),
    {
        let mut fields = vec![
            json::field("prompt_tokens", json::number(self.prompt_tokens)),
            json::field("completion_tokens", json::number(self.completion_tokens)),
            json::field("total_tokens", json::number(self.total_tokens)),
        ];
        if let Some(details) = &self.prompt_tokens_details {
            fields.push(json::field("prompt_tokens_details", details.copy()));
        }
        if let Some(details) = &self.completion_tokens_details {
            fields.push(json::field("completion_tokens_details", details.copy()));
        }
        assert(json::field_trees(fields@) =~= usage_tree(self@)->Object_0);
        json::object(fields)
    }
}

/// An object with one number in it.
pub open spec fn count_tree(name: Seq<char>, n: int) -> Tree {
    Tree::Object(seq![json::field_tree(name, json::int_tree(n))])
}

/// An object with one number in it.
pub fn count(name: &str, n: u64) -> (r: Json)
    ensures
        r@ == count_tree(name@, n as int),
{
    let r = json::object(vec![json::field(name, json::number(n))]);
    assert(r@->Object_0 =~= seq![json::field_tree(name@, json::int_tree(n as int))]);
    r
}

/// What a prompt and its answer count.
pub open spec fn usage_of(prompt: Seq<char>, storage_text: Seq<char>) -> UsageView {
    UsageView {
        prompt_tokens: tokens(prompt) as int,
        completion_tokens: tokens(storage_text) as int,
        total_tokens: tokens(prompt) as int + tokens(storage_text) as int,
        prompt_tokens_details: Some(count_tree("cached_tokens"@, 0)),
        completion_tokens_details: Some(count_tree("reasoning_tokens"@, 0)),
    }
}

pub fn usage_for(prompt: &str, storage_text: &str) -> (r: Usage)
    ensures
        r@ == usage_of(prompt@, storage_text@),
{
    let prompt_tokens: u64 = estimate_tokens(prompt);
    let completion_tokens: u64 = estimate_tokens(storage_text);
    Usage {
        prompt_tokens,
        completion_tokens,
        total_tokens: prompt_tokens + completion_tokens,
        prompt_tokens_details: Some(count("cached_tokens", 0)),
        completion_tokens_details: Some(count("reasoning_tokens", 0)),
    }
}

/// A call of a tool that the model asks for.
#[derive(Debug)]
pub struct ToolCall {
    pub id: String,
    pub kind: String,
    pub function: Json,
}

/// What a call of a tool says.
#[verifier::ext_equal]
pub struct ToolCallView {
    pub id: Seq<char>,
    pub kind: Seq<char>,
    pub function: Tree,
}

impl View for ToolCall {
    type V = ToolCallView;

    open spec fn view(&self) -> ToolCallView {
        ToolCallView { id: self.id@, kind: self.kind@, function: self.function@ }
    }
}

/// What the calls of a list say.
pub open spec fn call_views(calls: Seq<ToolCall>) -> Seq<ToolCallView> {
    calls.map_values(|c: ToolCall| c@)
}

/// A call of a tool as JSON.
pub open spec fn call_tree(call: ToolCallView) -> Tree {
    Tree::Object(
        seq![
            json::field_tree("id"@, json::str_tree(call.id)),
            json::field_tree("type"@, json::str_tree(call.kind)),
            json::field_tree("function"@, call.function),
        ],
    )
}

impl ToolCall {
    pub fn to_json(&self) -> (r: Json)
        ensures
            r@ == call_tree(self@),
    {
        let r = json::object(
            vec![
                json::field("id", json::string(self.id.as_str())),
                json::field("type", json::string(self.kind.as_str())),
                json::field("function", self.function.copy()),
            ],
        );
        assert(r@->Object_0 =~= call_tree(self@)->Object_0);
        r
    }
}

/// The calls of a list as JSON.
pub open spec fn calls_tree(calls: Seq<ToolCallView>) -> Tree {
    Tree::Array(calls.map_values(|c: ToolCallView| call_tree(c)))
}

/// The calls of a list as JSON.
fn calls_json(calls: &Vec<ToolCall>) -> (r: Json)
    ensures
        r@ == calls_tree(call_views(calls@)),
{
    let ghost wanted = calls_tree(call_views(calls@))->Array_0;
    let mut items: Vec<Json> = Vec::new();
    let mut i: usize = 0;
    while i < calls.len()
        invariant
            i <= calls@.len(),
            wanted == calls_tree(call_views(calls@))->Array_0,
            json::trees(items@) == wanted.take(i as int),
        decreases calls@.len() - i,
    {
        let ghost earlier = items@;
        let next = calls[i].to_json();
        items.push(next);
        assert(json::trees(items@) == json::trees(earlier).push(next@));
        i = i + 1;
    }
    assert(wanted.take(i as int) == wanted);
    json::array(items)
}

/// The answer to a request for a chat completion.
#[derive(Debug)]
pub struct ChatCompletionResponse {
    pub id: String,
    pub object: &'static str,
    pub created: i64,
    pub model: String,
    pub choices: Vec<Choice>,
    pub usage: Usage,
}

/// One answer to choose from.
#[derive(Debug)]
pub struct Choice {
    pub index: usize,
    pub message: AssistantMessage,
    pub finish_reason: &'static str,
}

/// What the model said.
#[derive(Debug)]
pub struct AssistantMessage {
    pub role: &'static str,
    pub content: Option<String>,
    pub tool_calls: Option<Vec<ToolCall>>,
    pub reasoning_content: Option<String>,
}

/// What a message of the model says.
#[verifier::ext_equal]
pub struct MessageView {
    pub role: Seq<char>,
    pub content: Option<Seq<char>>,
    pub tool_calls: Option<Seq<ToolCallView>>,
    pub reasoning_content: Option<Seq<char>>,
}

impl View for AssistantMessage {
    type V = MessageView;

    open spec fn view(&self) -> MessageView {
        MessageView {
            role: self.role@,
            content: http::opt_text(self.content),
            tool_calls: match self.tool_calls {
                Some(calls) => Some(call_views(calls@)),
                None => None,
            },
            reasoning_content: http::opt_text(self.reasoning_content),
        }
    }
}

/// A text as JSON, or null where there is none.
pub open spec fn text_or_null(value: Option<Seq<char>>) -> Tree {
    match value {
        Some(s) => json::str_tree(s),
        None => Tree::Null,
    }
}

/// A message of the model as JSON.
pub open spec fn message_tree(message: MessageView) -> Tree {
    Tree::Object(
        seq![
            json::field_tree("role"@, json::str_tree(message.role)),
            json::field_tree("content"@, text_or_null(message.content)),
        ] + json::opt_field(
            "tool_calls"@,
            match message.tool_calls {
                Some(calls) => Some(calls_tree(calls)),
                None => None,
            },
        ) + json::opt_field(
            "reasoning_content"@,
            match message.reasoning_content {
                Some(s) => Some(json::str_tree(s)),
                None => None,
            },
        ),
    )
}

impl AssistantMessage {
    pub fn to_json(&self) -> (r: Json)
        ensures
            r@ == message_tree(self@),
    {
        let content = match &self.content {
            Some(s) => json::string(s.as_str()),
            None => Json::Null,
        };
        let mut fields = vec![
            json::field("role", json::string(self.role)),
            json::field("content", content),
        ];
        if let Some(calls) = &self.tool_calls {
            fields.push(json::field("tool_calls", calls_json(calls)));
        }
        if let Some(s) = &self.reasoning_content {
            fields.push(json::field("reasoning_content", json::string(s.as_str())));
        }
        assert(json::field_trees(fields@) =~= message_tree(self@)->Object_0);
        json::object(fields)
    }
}

/// What an answer to choose from says.
#[verifier::ext_equal]
pub struct ChoiceView {
    pub index: int,
    pub message: MessageView,
    pub finish_reason: Seq<char>,
}

impl View for Choice {
    type V = ChoiceView;

    open spec fn view(&self) -> ChoiceView {
        ChoiceView {
            index: self.index as int,
            message: self.message@,
            finish_reason: self.finish_reason@,
        }
    }
}

/// What the answers of a list say.
pub open spec fn choice_views(choices: Seq<Choice>) -> Seq<ChoiceView> {
    choices.map_values(|c: Choice| c@)
}

/// An answer to choose from as JSON.
pub open spec fn choice_tree(choice: ChoiceView) -> Tree {
    Tree::Object(
        seq![
            json::field_tree("index"@, json::int_tree(choice.index)),
            json::field_tree("message"@, message_tree(choice.message)),
            json::field_tree("finish_reason"@, json::str_tree(choice.finish_reason)),
        ],
    )
}

impl Choice {
    pub fn to_json(&self) -> (r: Json)
        ensures
            r@ == choice_tree(self@),
    {
        let r = json::object(
            vec![
                json::field("index", json::number(self.index as u64)),
                json::field("message", self.message.to_json()),
                json::field("finish_reason", json::string(self.finish_reason)),
            ],
        );
        assert(r@->Object_0 =~= choice_tree(self@)->Object_0);
        r
    }
}

/// What the answer to a request for a chat completion says.
#[verifier::ext_equal]
pub struct CompletionView {
    pub id: Seq<char>,
    pub object: Seq<char>,
    pub created: int,
    pub model: Seq<char>,
    pub choices: Seq<ChoiceView>,
    pub usage: UsageView,
}

impl View for ChatCompletionResponse {
    type V = CompletionView;

    open spec fn view(&self) -> CompletionView {
        CompletionView {
            id: self.id@,
            object: self.object@,
            created: self.created as int,
            model: self.model@,
            choices: choice_views(self.choices@),
            usage: self.usage@,
        }
    }
}

/// The answer to a request for a chat completion as JSON.
pub open spec fn completion_tree(completion: CompletionView) -> Tree {
    Tree::Object(
        seq![
            json::field_tree("id"@, json::str_tree(completion.id)),
            json::field_tree("object"@, json::str_tree(completion.object)),
            json::field_tree("created"@, json::int_tree(completion.created)),
            json::field_tree("model"@, json::str_tree(completion.model)),
            json::field_tree(
                "choices"@,
                Tree::Array(completion.choices.map_values(|c: ChoiceView| choice_tree(c))),
            ),
            json::field_tree("usage"@, usage_tree(completion.usage)),
        ],
    )
}

impl ChatCompletionResponse {
    pub fn to_json(&self) -> (r: Json)
        ensures
            r@ == completion_tree(self@),
    {
        let ghost wanted = self@.choices.map_values(|c: ChoiceView| choice_tree(c));
        let mut items: Vec<Json> = Vec::new();
        let mut i: usize = 0;
        while i < self.choices.len()
            invariant
                i <= self.choices@.len(),
                wanted == self@.choices.map_values(|c: ChoiceView| choice_tree(c)),
                json::trees(items@) == wanted.take(i as int),
            decreases self.choices@.len() - i,
        {
            let ghost earlier = items@;
            let next = self.choices[i].to_json();
            items.push(next);
            assert(json::trees(items@) == json::trees(earlier).push(next@));
            i = i + 1;
        }
        assert(wanted.take(i as int) == wanted);
        let r = json::object(
            vec![
                json::field("id", json::string(self.id.as_str())),
                json::field("object", json::string(self.object)),
                json::field("created", json::integer(self.created)),
                json::field("model", json::string(self.model.as_str())),
                json::field("choices", json::array(items)),
                json::field("usage", self.usage.to_json()),
            ],
        );
        assert(r@->Object_0 =~= completion_tree(self@)->Object_0);
        r
    }
}

/// A piece of a chat completion that is sent as it comes.
#[derive(Debug)]
pub struct StreamChunk {
    pub id: String,
    pub object: &'static str,
    pub created: i64,
    pub model: String,
    pub choices: Vec<StreamChoice>,
    pub usage: Option<Usage>,
}

/// What a piece adds to an answer.
#[derive(Debug)]
pub struct StreamChoice {
    pub index: usize,
    pub delta: Json,
    pub finish_reason: Option<&'static str>,
}

/// What a piece adds to an answer.
#[verifier::ext_equal]
pub struct StreamChoiceView {
    pub index: int,
    pub delta: Tree,
    pub finish_reason: Option<Seq<char>>,
}

impl View for StreamChoice {
    type V = StreamChoiceView;

    open spec fn view(&self) -> StreamChoiceView {
        StreamChoiceView {
            index: self.index as int,
            delta: self.delta@,
            finish_reason: match self.finish_reason {
                Some(s) => Some(s@),
                None => None,
            },
        }
    }
}

/// What the additions of a list say.
pub open spec fn stream_choice_views(choices: Seq<StreamChoice>) -> Seq<StreamChoiceView> {
    choices.map_values(|c: StreamChoice| c@)
}

/// An addition to an answer as JSON.
pub open spec fn stream_choice_tree(choice: StreamChoiceView) -> Tree {
    Tree::Object(
        seq![
            json::field_tree("index"@, json::int_tree(choice.index)),
            json::field_tree("delta"@, choice.delta),
            json::field_tree("finish_reason"@, text_or_null(choice.finish_reason)),
        ],
    )
}

impl StreamChoice {
    pub fn to_json(&self) -> (r: Json)
        ensures
            r@ == stream_choice_tree(self@),
    {
        let finish_reason = match self.finish_reason {
            Some(s) => json::string(s),
            None => Json::Null,
        };
        let r = json::object(
            vec![
                json::field("index", json::number(self.index as u64)),
                json::field("delta", self.delta.copy()),
                json::field("finish_reason", finish_reason),
            ],
        );
        assert(r@->Object_0 =~= stream_choice_tree(self@)->Object_0);
        r
    }
}

/// What a piece of a chat completion says.
#[verifier::ext_equal]
pub struct ChunkView {
    pub id: Seq<char>,
    pub object: Seq<char>,
    pub created: int,
    pub model: Seq<char>,
    pub choices: Seq<StreamChoiceView>,
    pub usage: Option<UsageView>,
}

impl View for StreamChunk {
    type V = ChunkView;

    open spec fn view(&self) -> ChunkView {
        ChunkView {
            id: self.id@,
            object: self.object@,
            created: self.created as int,
            model: self.model@,
            choices: stream_choice_views(self.choices@),
            usage: opt_usage(self.usage),
        }
    }
}

/// What a usage says, where there is one.
pub open spec fn opt_usage(usage: Option<Usage>) -> Option<UsageView> {
    match usage {
        Some(u) => Some(u@),
        None => None,
    }
}

/// A piece of a chat completion as JSON.
pub open spec fn chunk_tree(chunk: ChunkView) -> Tree {
    Tree::Object(
        seq![
            json::field_tree("id"@, json::str_tree(chunk.id)),
            json::field_tree("object"@, json::str_tree(chunk.object)),
            json::field_tree("created"@, json::int_tree(chunk.created)),
            json::field_tree("model"@, json::str_tree(chunk.model)),
            json::field_tree(
                "choices"@,
                Tree::Array(chunk.choices.map_values(|c: StreamChoiceView| stream_choice_tree(c))),
            ),
        ] + json::opt_field(
            "usage"@,
            match chunk.usage {
                Some(u) => Some(usage_tree(u)),
                None => None,
            },
        ),
    )
}

impl StreamChunk {
    pub fn to_json(&self) -> (r: Json)
        ensures
            r@ == chunk_tree(self@),
    {
        let ghost wanted = self@.choices.map_values(|c: StreamChoiceView| stream_choice_tree(c));
        let mut items: Vec<Json> = Vec::new();
        let mut i: usize = 0;
        while i < self.choices.len()
            invariant
                i <= self.choices@.len(),
                wanted == self@.choices.map_values(|c: StreamChoiceView| stream_choice_tree(c)),
                json::trees(items@) == wanted.take(i as int),
            decreases self.choices@.len() - i,
        {
            let ghost earlier = items@;
            let next = self.choices[i].to_json();
            items.push(next);
            assert(json::trees(items@) == json::trees(earlier).push(next@));
            i = i + 1;
        }
        assert(wanted.take(i as int) == wanted);
        let mut fields = vec![
            json::field("id", json::string(self.id.as_str())),
            json::field("object", json::string(self.object)),
            json::field("created", json::integer(self.created)),
            json::field("model", json::string(self.model.as_str())),
            json::field("choices", json::array(items)),
        ];
        if let Some(usage) = &self.usage {
            fields.push(json::field("usage", usage.to_json()));
        }
        assert(json::field_trees(fields@) =~= chunk_tree(self@)->Object_0);
        json::object(fields)
    }
}

/// What comes of an answer of the model: what the caller sees of it, what counts
/// as its text, the calls of tools that it asks for, and why it ended.
#[derive(Debug)]
pub struct ProcessedOutput {
    pub visible_text: Option<String>,
    pub storage_text: String,
    pub tool_calls: Vec<ToolCall>,
    pub finish_reason: &'static str,
}

/// What comes of an answer of the model.
#[verifier::ext_equal]
pub struct ProcessedView {
    pub visible_text: Option<Seq<char>>,
    pub storage_text: Seq<char>,
    pub tool_calls: Seq<ToolCallView>,
    pub finish_reason: Seq<char>,
}

impl View for ProcessedOutput {
    type V = ProcessedView;

    open spec fn view(&self) -> ProcessedView {
        ProcessedView {
            visible_text: http::opt_text(self.visible_text),
            storage_text: self.storage_text@,
            tool_calls: call_views(self.tool_calls@),
            finish_reason: self.finish_reason@,
        }
    }
}

impl ProcessedView {
    /// What the caller sees: nothing where there is no text to see.
    pub open spec fn visible(&self) -> Seq<char> {
        match self.visible_text {
            Some(s) => s,
            None => Seq::empty(),
        }
    }
}

/// The arguments of a call as text: a string as it stands, any other value as
/// JSON, and no arguments as an empty object.
pub open spec fn arguments_text(arguments: Option<Tree>) -> Seq<char> {
    match arguments {
        Some(Tree::Str(s)) => s,
        Some(other) => json::written(other),
        None => "{}"@,
    }
}

/// The call that the item at place `i` of a list asks for.
pub open spec fn call_of(item: Tree, i: int) -> Option<ToolCallView> {
    match item.get_str("name"@) {
        Some(name) => Some(
            ToolCallView {
                id: "call_"@ + text::decimal(i as nat),
                kind: "function"@,
                function: Tree::Object(
                    seq![
                        json::field_tree(
                            "arguments"@,
                            json::str_tree(arguments_text(item.get("arguments"@))),
                        ),
                        json::field_tree("name"@, json::str_tree(name)),
                    ],
                ),
            },
        ),
        None => None,
    }
}

/// The calls that the items of a list ask for.
pub open spec fn calls_of(items: Seq<Tree>) -> Seq<ToolCallView>
    decreases items.len(),
{
    if items.len() == 0 {
        Seq::empty()
    } else {
        let earlier = calls_of(items.drop_last());
        match call_of(items.last(), items.len() - 1) {
            Some(call) => earlier.push(call),
            None => earlier,
        }
    }
}

/// The calls that an answer asks for, where it is the JSON object that the model
/// was told to answer with.
pub open spec fn asked_calls(answer: Option<Tree>) -> Seq<ToolCallView> {
    match answer {
        Some(tree) => match tree.get("tool_calls"@) {
            Some(Tree::Array(items)) => calls_of(items),
            _ => Seq::empty(),
        },
        None => Seq::empty(),
    }
}

/// What comes of an answer that asks for those calls.
pub open spec fn processed(output: Seq<char>, calls: Seq<ToolCallView>) -> ProcessedView {
    if calls.len() > 0 {
        ProcessedView {
            visible_text: None,
            storage_text: output,
            tool_calls: calls,
            finish_reason: "tool_calls"@,
        }
    } else {
        ProcessedView {
            visible_text: Some(output),
            storage_text: output,
            tool_calls: calls,
            finish_reason: "stop"@,
        }
    }
}

/// The call that the item at place `i` of a list asks for.
fn read_call(item: &Json, i: usize) -> (r: Option<ToolCall>)
    ensures
        match r {
            Some(call) => call_of(item@, i as int) == Some(call@),
            None => call_of(item@, i as int) is None,
        },
{
    match item.get_str("name") {
        Some(name) => {
            let arguments = match item.get("arguments") {
                Some(Json::Str(s)) => s.clone(),
                Some(other) => other.to_text(),
                None => "{}".to_owned(),
            };
            let mut id = "call_".to_owned();
            id.append(text::decimal_text(i as u64).as_str());
            let function = json::object(
                vec![
                    json::field("arguments", json::string(arguments.as_str())),
                    json::field("name", json::string(name)),
                ],
            );
            assert(function@->Object_0 =~= call_of(
                item@,
                i as int,
            )->Some_0.function->Object_0);
            Some(ToolCall { id, kind: "function".to_owned(), function })
        },
        None => None,
    }
}

/// The calls that an answer asks for.
pub fn read_calls(answer: &Option<Json>) -> (r: Vec<ToolCall>)
    ensures
        call_views(r@) == asked_calls(json::opt_tree(*answer)),
{
    let mut calls: Vec<ToolCall> = Vec::new();
    assert(call_views(calls@) == Seq::<ToolCallView>::empty());
    if let Some(tree) = answer {
        if let Some(listed) = tree.get("tool_calls") {
            if let Json::Array(items) = listed {
                proof {
                    json::lemma_array_view(*items);
                }
                let ghost all = json::trees(items@);
                let mut i: usize = 0;
                while i < items.len()
                    invariant
                        all == json::trees(items@),
                        i <= items@.len(),
                        call_views(calls@) == calls_of(all.take(i as int)),
                    decreases items@.len() - i,
                {
                    let ghost earlier = calls@;
                    assert(all.take(i + 1).drop_last() == all.take(i as int));
                    assert(all.take(i + 1).last() == items@[i as int]@);
                    if let Some(call) = read_call(&items[i], i) {
                        calls.push(call);
                        assert(call_views(calls@) == call_views(earlier).push(call@));
                    }
                    i = i + 1;
                }
                assert(all.take(i as int) == all);
            } else {
                assert(!(listed@ is Array));
            }
        }
    }
    calls
}

/// What comes of an answer of the model, once its JSON, if it is any, is read.
pub fn process_answer(output: &str, answer: &Option<Json>) -> (r: ProcessedOutput)
    ensures
        r@ == processed(output@, asked_calls(json::opt_tree(*answer))),
{
    let tool_calls = read_calls(answer);
    if tool_calls.len() > 0 {
        ProcessedOutput {
            visible_text: None,
            storage_text: output.to_owned(),
            tool_calls,
            finish_reason: "tool_calls",
        }
    } else {
        ProcessedOutput {
            visible_text: Some(output.to_owned()),
            storage_text: output.to_owned(),
            tool_calls,
            finish_reason: "stop",
        }
    }
}

/// What comes of an answer of the model.
pub open spec fn processed_output(output: Seq<char>) -> ProcessedView {
    processed(output, asked_calls(json::parsed(text::trim(output))))
}

pub fn process_output(output: &str) -> (r: ProcessedOutput)
    ensures
        r@ == processed_output(output@),
{
    process_answer(output, &json::parse(text::trimmed(output).as_str()))
}

/// A content that is a string says the string, and one that is neither a string nor a list is
/// told as JSON.
pub proof fn law_contents_say_what_they_hold(value: Tree, s: Seq<char>)
    ensures
        content_text(Some(Tree::Str(s))) == Some(s),
        !(value is Str) && !(value is Array) ==> content_text(Some(value)) == Some(
            json::written(value),
        ),
        content_text(None) is None,
{
}

proof fn lemma_part_texts_of_both(a: Seq<Tree>, b: Seq<Tree>)
    ensures
        part_texts(a + b) == part_texts(a) + part_texts(b),
    decreases b.len(),
{
    if b.len() == 0 {
        assert(a + b =~= a);
        assert(part_texts(a) + part_texts(b) =~= part_texts(a));
    } else {
        lemma_part_texts_of_both(a, b.drop_last());
        assert((a + b).drop_last() =~= a + b.drop_last());
        assert(part_texts(a + b) =~= part_texts(a) + part_texts(b));
    }
}

proof fn lemma_all_part_texts(items: Seq<Tree>, said: Seq<Seq<char>>)
    requires
        items.len() == said.len(),
        forall|i: int|
            0 <= i < items.len() ==> (#[trigger] items[i]).get_str("text"@) == Some(said[i]),
    ensures
        part_texts(items) == said,
    decreases items.len(),
{
    if items.len() == 0 {
        assert(part_texts(items) =~= said);
    } else {
        assert forall|i: int| 0 <= i < items.drop_last().len() implies (
        #[trigger] items.drop_last()[i]).get_str("text"@) == Some(said.drop_last()[i]) by {
            assert(items[i].get_str("text"@) == Some(said[i]));
        }
        lemma_all_part_texts(items.drop_last(), said.drop_last());
        assert(items[items.len() - 1].get_str("text"@) == Some(said[items.len() - 1]));
        assert(part_texts(items) =~= said);
    }
}

/// A content that is a list of texts says all of them, in their order, each in a line of its
/// own.
pub proof fn law_parts_are_told_line_by_line(items: Seq<Tree>, said: Seq<Seq<char>>)
    requires
        items.len() == said.len(),
        forall|i: int|
            0 <= i < items.len() ==> (#[trigger] items[i]).get_str("text"@) == Some(said[i]),
    ensures
        content_text(Some(Tree::Array(items))) == Some(text::join(said, "\n"@)),
        forall|i: int|
            0 <= i < said.len() ==> text::contains(
                content_text(Some(Tree::Array(items)))->Some_0,
                #[trigger] said[i],
            ),
{
    lemma_all_part_texts(items, said);
    assert forall|i: int| 0 <= i < said.len() implies text::contains(
        text::join(said, "\n"@),
        #[trigger] said[i],
    ) by {
        text::lemma_joined_parts_are_there(said, "\n"@, i);
    }
}

/// A part without a text, such as a picture, adds nothing to what a content says.
pub proof fn law_parts_without_text_say_nothing(a: Seq<Tree>, part: Tree, b: Seq<Tree>)
    requires
        part.get_str("text"@) is None,
    ensures
        content_text(Some(Tree::Array(a + seq![part] + b))) == content_text(
            Some(Tree::Array(a + b)),
        ),
{
    lemma_part_texts_of_both(a + seq![part], b);
    lemma_part_texts_of_both(a, seq![part]);
    lemma_part_texts_of_both(a, b);
    assert(seq![part].drop_last() =~= Seq::<Tree>::empty());
    assert(part_texts(Seq::<Tree>::empty()) == Seq::<Seq<char>>::empty());
    assert(part_texts(seq![part]) == Seq::<Seq<char>>::empty());
    assert(part_texts(a) + Seq::<Seq<char>>::empty() =~= part_texts(a));
}

/// What a turn of a conversation is where somebody says something.
pub open spec fn told_turn(role: Seq<char>, said: Seq<char>) -> Seq<char> {
    "["@ + role + "]"@ + "\n"@ + text::trim(said)
}

proof fn lemma_turn_of_text(role: Seq<char>, content: Option<Tree>, said: Seq<char>)
    requires
        content_text(content) == Some(said),
    ensures
        !text::is_blank(said) ==> turn(role, content) == seq![told_turn(role, said)],
        text::is_blank(said) ==> turn(role, content) == Seq::<Seq<char>>::empty(),
        told_turn(role, said).len() > 0,
{
    text::law_blank_texts_are_trimmed_to_nothing(said);
    reveal_strlit("[");
    reveal_strlit("]");
    reveal_strlit("\n");
    reveal_strlit("]\n");
    assert("]\n"@ =~= "]"@ + "\n"@);
    assert("["@ + role + "]\n"@ + text::trim(said) =~= told_turn(role, said));
}

proof fn lemma_turn_is_not_empty(role: Seq<char>, content: Option<Tree>)
    ensures
        turn(role, content).len() <= 1,
        forall|i: int| 0 <= i < turn(role, content).len() ==> (#[trigger] turn(role, content)[i]).len() > 0,
        turn(role, None).len() == 0,
{
    match content_text(content) {
        Some(said) => lemma_turn_of_text(role, content, said),
        None => {},
    }
}

/// Whether no text of a list is empty.
spec fn all_say_something(list: Seq<Seq<char>>) -> bool {
    forall|i: int| 0 <= i < list.len() ==> (#[trigger] list[i]).len() > 0
}

proof fn lemma_join_of_turns(list: Seq<Seq<char>>, sep: Seq<char>)
    requires
        all_say_something(list),
    ensures
        text::join(list, sep).len() == 0 <==> list.len() == 0,
{
    if list.len() > 0 {
        assert(list[list.len() - 1].len() > 0);
    }
}

proof fn lemma_turns_say_something(messages: Seq<ChatMessage>)
    ensures
        all_say_something(turns(messages)),
    decreases messages.len(),
{
    if messages.len() > 0 {
        lemma_turns_say_something(messages.drop_last());
        lemma_turn_is_not_empty(
            messages.last().role@,
            json::opt_tree(messages.last().content),
        );
    }
}

/// Every message of a conversation, whoever says it, is told behind those before it, under
/// the role of who says it and without the white space around it; with a blank line between
/// two of them.
pub proof fn law_every_message_is_told(
    earlier: Seq<ChatMessage>,
    message: ChatMessage,
    said: Seq<char>,
)
    requires
        content_text(json::opt_tree(message.content)) == Some(said),
        !text::is_blank(said),
    ensures
        conversation(earlier.push(message)) == (if conversation(earlier).len() == 0 {
            Seq::empty()
        } else {
            conversation(earlier) + "\n\n"@
        }) + "["@ + message.role@ + "]"@ + "\n"@ + text::trim(said),
{
    let all = earlier.push(message);
    assert(all.drop_last() =~= earlier);
    lemma_turn_of_text(message.role@, json::opt_tree(message.content), said);
    lemma_turns_say_something(earlier);
    lemma_join_of_turns(turns(earlier), "\n\n"@);
    let last = told_turn(message.role@, said);
    assert(turns(all) =~= turns(earlier).push(last));
    text::law_join_puts_the_separator_between(turns(earlier), last, "\n\n"@);
    if turns(earlier).len() == 0 {
        assert(turns(all) =~= seq![last]);
    }
    assert(conversation(all) =~= (if conversation(earlier).len() == 0 {
        Seq::empty()
    } else {
        conversation(earlier) + "\n\n"@
    }) + "["@ + message.role@ + "]"@ + "\n"@ + text::trim(said));
}

/// A message that says nothing leaves no trace in a conversation, and no messages make no
/// conversation.
pub proof fn law_silent_messages_are_not_told(earlier: Seq<ChatMessage>, message: ChatMessage)
    requires
        content_text(json::opt_tree(message.content)) matches Some(said) ==> text::is_blank(said),
    ensures
        conversation(earlier.push(message)) == conversation(earlier),
        conversation(Seq::empty()) == Seq::<char>::empty(),
{
    let all = earlier.push(message);
    assert(all.drop_last() =~= earlier);
    match content_text(json::opt_tree(message.content)) {
        Some(said) => lemma_turn_of_text(
            message.role@,
            json::opt_tree(message.content),
            said,
        ),
        None => {},
    }
    assert(turns(all) =~= turns(earlier));
}

/// A conversation of messages that all say something has as many turns as messages, in their
/// order, each of them under its own role, and holds each of them.
pub proof fn law_turns_stand_in_the_order_of_the_messages(
    messages: Seq<ChatMessage>,
    said: Seq<Seq<char>>,
)
    requires
        messages.len() == said.len(),
        forall|i: int|
            0 <= i < messages.len() ==> json::opt_tree((#[trigger] messages[i]).content) == Some(
                Tree::Str(said[i]),
            ) && !text::is_blank(said[i]),
    ensures
        turns(messages).len() == messages.len(),
        forall|i: int|
            0 <= i < messages.len() ==> #[trigger] turns(messages)[i] == "["@ + messages[i].role@
                + "]"@ + "\n"@ + text::trim(said[i]),
        forall|i: int|
            0 <= i < messages.len() ==> text::contains(
                conversation(messages),
                #[trigger] turns(messages)[i],
            ),
    decreases messages.len(),
{
    if messages.len() > 0 {
        let earlier = messages.drop_last();
        let before = said.drop_last();
        assert forall|i: int| 0 <= i < earlier.len() implies json::opt_tree(
            (#[trigger] earlier[i]).content,
        ) == Some(Tree::Str(before[i])) && !text::is_blank(before[i]) by {
            assert(json::opt_tree(messages[i].content) == Some(Tree::Str(said[i])));
        }
        law_turns_stand_in_the_order_of_the_messages(earlier, before);
        let n = messages.len() - 1;
        assert(json::opt_tree(messages[n].content) == Some(Tree::Str(said[n])));
        lemma_turn_of_text(messages[n].role@, json::opt_tree(messages[n].content), said[n]);
        assert(turns(messages) =~= turns(earlier).push(told_turn(messages[n].role@, said[n])));
        assert forall|i: int| 0 <= i < messages.len() implies #[trigger] turns(messages)[i] == "["@
            + messages[i].role@ + "]"@ + "\n"@ + text::trim(said[i]) by {
            if i < n {
                assert(turns(messages)[i] == turns(earlier)[i]);
            }
        }
        assert forall|i: int| 0 <= i < messages.len() implies text::contains(
            conversation(messages),
            #[trigger] turns(messages)[i],
        ) by {
            text::lemma_joined_parts_are_there(turns(messages), "\n\n"@, i);
        }
    }
}

/// What the user says last is the text that is looked at, whatever was said before it, and by
/// others after it.
pub proof fn law_the_latest_message_of_the_user_is_found(
    earlier: Seq<ChatMessage>,
    message: ChatMessage,
    later: Seq<ChatMessage>,
    said: Seq<char>,
)
    requires
        message.role@ == "user"@,
        content_text(json::opt_tree(message.content)) == Some(said),
        forall|i: int| 0 <= i < later.len() ==> (#[trigger] later[i]).role@ != "user"@,
    ensures
        latest_user_text(earlier.push(message) + later) == said,
    decreases later.len(),
{
    let all = earlier.push(message) + later;
    if later.len() == 0 {
        assert(all.last() == message);
    } else {
        let shorter = later.drop_last();
        assert(all.last() == later[later.len() - 1]);
        assert(all.drop_last() =~= earlier.push(message) + shorter);
        law_the_latest_message_of_the_user_is_found(earlier, message, shorter, said);
    }
}

/// Where the user says nothing, nothing is looked at.
pub proof fn law_others_are_not_taken_for_the_user(messages: Seq<ChatMessage>)
    requires
        forall|i: int| 0 <= i < messages.len() ==> (#[trigger] messages[i]).role@ != "user"@,
    ensures
        latest_user_text(messages) == Seq::<char>::empty(),
    decreases messages.len(),
{
    if messages.len() > 0 {
        assert(messages[messages.len() - 1].role@ != "user"@);
        assert forall|i: int| 0 <= i < messages.drop_last().len() implies (
        #[trigger] messages.drop_last()[i]).role@ != "user"@ by {
            assert(messages[i].role@ != "user"@);
        }
        law_others_are_not_taken_for_the_user(messages.drop_last());
    }
}

/// An item of an input that is a string is what the user says; any other is said by the role
/// that it names, or by the user where it names none, and says what its content says.
pub proof fn law_items_name_who_says_what(item: Tree, s: Seq<char>)
    ensures
        item_role(Tree::Str(s)) == "user"@,
        item_content(Tree::Str(s)) == Some(Tree::Str(s)),
        item.get_str("role"@) matches Some(role) ==> item_role(item) == role,
        item.get_str("role"@) is None ==> item_role(item) == "user"@,
        !(item is Str) ==> item_content(item) == item.get("content"@),
{
}

proof fn lemma_item_turns_say_something(items: Seq<Tree>)
    ensures
        all_say_something(item_turns(items)),
    decreases items.len(),
{
    if items.len() > 0 {
        lemma_item_turns_say_something(items.drop_last());
        lemma_turn_is_not_empty(item_role(items.last()), item_content(items.last()));
    }
}

/// The turn of the instructions that come with an input.
spec fn system_turn(instructions: Option<Seq<char>>) -> Seq<Seq<char>> {
    turn(
        "system"@,
        match instructions {
            Some(s) => Some(json::str_tree(s)),
            None => None,
        },
    )
}

/// Every item of an input is told behind those before it, under the role of who says it.
pub proof fn law_every_item_is_told(
    items: Seq<Tree>,
    item: Tree,
    said: Seq<char>,
    instructions: Option<Seq<char>>,
)
    requires
        content_text(item_content(item)) == Some(said),
        !text::is_blank(said),
    ensures
        ({
            let before = input_text(Tree::Array(items), instructions);
            input_text(Tree::Array(items.push(item)), instructions) == (if before.len() == 0 {
                Seq::empty()
            } else {
                before + "\n\n"@
            }) + "["@ + item_role(item) + "]"@ + "\n"@ + text::trim(said)
        }),
{
    let all = items.push(item);
    assert(all.drop_last() =~= items);
    let first = system_turn(instructions);
    let before = first + item_turns(items);
    let last = told_turn(item_role(item), said);
    lemma_turn_of_text(item_role(item), item_content(item), said);
    lemma_item_turns_say_something(items);
    lemma_turn_is_not_empty(
        "system"@,
        match instructions {
            Some(s) => Some(json::str_tree(s)),
            None => None,
        },
    );
    assert(all_say_something(before));
    lemma_join_of_turns(before, "\n\n"@);
    assert(first + item_turns(all) =~= before.push(last));
    text::law_join_puts_the_separator_between(before, last, "\n\n"@);
    if before.len() == 0 {
        assert(before.push(last) =~= seq![last]);
    }
    let told = input_text(Tree::Array(items), instructions);
    assert(told == text::join(before, "\n\n"@));
    assert(input_text(Tree::Array(all), instructions) =~= (if told.len() == 0 {
        Seq::empty()
    } else {
        told + "\n\n"@
    }) + "["@ + item_role(item) + "]"@ + "\n"@ + text::trim(said));
}

/// An input that is a text is what the user says, behind the instructions that come with it.
pub proof fn law_inputs_are_told_behind_their_instructions(
    s: Seq<char>,
    instructions: Seq<char>,
)
    requires
        !text::is_blank(s),
        !text::is_blank(instructions),
    ensures
        input_text(Tree::Str(s), None) == "["@ + "user"@ + "]"@ + "\n"@ + text::trim(s),
        input_text(Tree::Str(s), Some(instructions)) == "["@ + "system"@ + "]"@ + "\n"@
            + text::trim(instructions) + "\n\n"@ + "["@ + "user"@ + "]"@ + "\n"@ + text::trim(s),
        input_text(Tree::Array(Seq::empty()), Some(instructions)) == "["@ + "system"@ + "]"@
            + "\n"@ + text::trim(instructions),
        input_text(Tree::Array(Seq::empty()), None) == Seq::<char>::empty(),
{
    lemma_turn_of_text("user"@, Some(Tree::Str(s)), s);
    lemma_turn_of_text("system"@, Some(Tree::Str(instructions)), instructions);
    let user = told_turn("user"@, s);
    let system = told_turn("system"@, instructions);
    let none = turn("system"@, None);
    assert(none =~= Seq::<Seq<char>>::empty());
    assert(none + seq![user] =~= seq![user]);
    assert(seq![system] + seq![user] =~= seq![system].push(user));
    assert(item_turns(Seq::<Tree>::empty()) =~= Seq::<Seq<char>>::empty());
    assert(seq![system] + item_turns(Seq::<Tree>::empty()) =~= seq![system]);
    assert(none + item_turns(Seq::<Tree>::empty()) =~= Seq::<Seq<char>>::empty());
    text::law_join_puts_the_separator_between(seq![system], user, "\n\n"@);
    text::law_join_puts_the_separator_between(seq![system], system, "\n\n"@);
    assert(input_text(Tree::Str(s), Some(instructions)) =~= "["@ + "system"@ + "]"@ + "\n"@
        + text::trim(instructions) + "\n\n"@ + "["@ + "user"@ + "]"@ + "\n"@ + text::trim(s));
}

/// What the user says last in an input is the text that is looked at.
pub proof fn law_the_latest_item_of_the_user_is_found(
    earlier: Seq<Tree>,
    item: Tree,
    later: Seq<Tree>,
    said: Seq<char>,
)
    requires
        item_role(item) == "user"@,
        content_text(item_content(item)) == Some(said),
        forall|i: int| 0 <= i < later.len() ==> item_role(#[trigger] later[i]) != "user"@,
    ensures
        latest_input(Tree::Array(earlier.push(item) + later)) == said,
        latest_input(Tree::Str(said)) == said,
    decreases later.len(),
{
    let all = earlier.push(item) + later;
    if later.len() == 0 {
        assert(all.last() == item);
    } else {
        let shorter = later.drop_last();
        assert(all.last() == later[later.len() - 1]);
        assert(all.drop_last() =~= earlier.push(item) + shorter);
        law_the_latest_item_of_the_user_is_found(earlier, item, shorter, said);
    }
}

/// A text counts one token for every four characters, and one for what is left of it.
pub proof fn law_four_characters_make_a_token(s: Seq<char>)
    ensures
        s.len() <= 4 * tokens(s) < s.len() + 4,
{
}

/// What a request counts is what its prompt and its answer count, and both together.
pub proof fn law_usage_adds_up(prompt: Seq<char>, answer: Seq<char>)
    ensures
        ({
            let usage = usage_of(prompt, answer);
            &&& prompt.len() <= 4 * usage.prompt_tokens < prompt.len() + 4
            &&& answer.len() <= 4 * usage.completion_tokens < answer.len() + 4
            &&& usage.total_tokens == usage.prompt_tokens + usage.completion_tokens
        }),
{
}

/// Two texts in two lines, or the one that is not empty.
pub open spec fn in_lines(a: Seq<char>, b: Seq<char>) -> Seq<char> {
    if a.len() == 0 {
        b
    } else if b.len() == 0 {
        a
    } else {
        a + "\n"@ + b
    }
}

proof fn lemma_parts_say_something(
    format: Option<Tree>,
    tools: Option<Seq<Tree>>,
    choice: Option<Tree>,
)
    ensures
        format_part(format).len() <= 1,
        tools_part(tools).len() <= 1,
        choice_part(choice).len() <= 1,
        all_say_something(format_part(format)),
        all_say_something(tools_part(tools)),
        all_say_something(choice_part(choice)),
{
    reveal_strlit("Return valid JSON only. Do not wrap it in Markdown.");
    reveal_strlit("Tools are available. If a tool is needed, respond with a JSON object: {\"tool_calls\":[{\"name\":\"tool_name\",\"arguments\":{}}]}. Available tools: ");
    reveal_strlit("Tool choice constraint: ");
}

/// What a request asks for beyond the conversation is told wish by wish: the format, the tools
/// and the choice of a tool, each in a line of its own, those that are not asked for in none.
pub proof fn law_wishes_are_told_line_by_line(
    format: Option<Tree>,
    tools: Option<Seq<Tree>>,
    choice: Option<Tree>,
)
    ensures
        extra_instructions(format, tools, choice) == in_lines(
            in_lines(
                extra_instructions(format, None, None),
                extra_instructions(None, tools, None),
            ),
            extra_instructions(None, None, choice),
        ),
{
    let (f, t, c) = (format_part(format), tools_part(tools), choice_part(choice));
    let none = Seq::<Seq<char>>::empty();
    lemma_parts_say_something(format, tools, choice);
    assert(f + none + none =~= f);
    assert(none + t + none =~= t);
    assert(none + none + c =~= c);
    lemma_join_of_turns(f, "\n"@);
    lemma_join_of_turns(t, "\n"@);
    lemma_join_of_turns(c, "\n"@);
    if f.len() == 0 {
        assert(f + t =~= t);
    }
    if t.len() == 0 {
        assert(f + t =~= f);
    } else {
        assert(t =~= seq![t[0]]);
        assert(f + t =~= f.push(t[0]));
        text::law_join_puts_the_separator_between(f, t[0], "\n"@);
    }
    assert(all_say_something(f + t));
    lemma_join_of_turns(f + t, "\n"@);
    if c.len() == 0 {
        assert(f + t + c =~= f + t);
    } else {
        assert(c =~= seq![c[0]]);
        assert(f + t + c =~= (f + t).push(c[0]));
        text::law_join_puts_the_separator_between(f + t, c[0], "\n"@);
        if (f + t).len() == 0 {
            assert(f + t + c =~= c);
        }
    }
}

/// A model is told to answer in JSON where that is asked for, as an object or by a schema, and
/// only there.
pub proof fn law_json_is_asked_for(format: Tree)
    ensures
        format.get_str("type"@) == Some("json_object"@) || format.get_str("type"@) == Some(
            "json_schema"@,
        ) ==> extra_instructions(Some(format), None, None)
            == "Return valid JSON only. Do not wrap it in Markdown."@,
        format.get_str("type"@) != Some("json_object"@) && format.get_str("type"@) != Some(
            "json_schema"@,
        ) ==> extra_instructions(Some(format), None, None) == Seq::<char>::empty(),
        extra_instructions(None, None, None) == Seq::<char>::empty(),
{
    let none = Seq::<Seq<char>>::empty();
    let f = format_part(Some(format));
    assert(f + none + none =~= f);
    assert(none + none + none =~= none);
}

/// A model is told of all tools that a request brings, as they stand, and how to call them;
/// and of the choice that the request makes among them.
pub proof fn law_tools_are_told(tools: Seq<Tree>, choice: Tree)
    ensures
        tools.len() > 0 ==> text::ends_with(
            extra_instructions(None, Some(tools), None),
            json::written(Tree::Array(tools)),
        ) && text::contains(
            extra_instructions(None, Some(tools), None),
            "{\"tool_calls\":[{\"name\":\"tool_name\",\"arguments\":{}}]}"@,
        ),
        tools.len() == 0 ==> extra_instructions(None, Some(tools), None) == Seq::<char>::empty(),
        !(choice is Null) ==> extra_instructions(None, None, Some(choice))
            == "Tool choice constraint: "@ + json::written(choice),
        extra_instructions(None, None, Some(Tree::Null)) == Seq::<char>::empty(),
{
    let none = Seq::<Seq<char>>::empty();
    let t = tools_part(Some(tools));
    let c = choice_part(Some(choice));
    assert(none + t + none =~= t);
    assert(none + none + c =~= c);
    assert(none + none + choice_part(Some(Tree::Null)) =~= none);
    if tools.len() > 0 {
        let intro = "Tools are available. If a tool is needed, respond with a JSON object: {\"tool_calls\":[{\"name\":\"tool_name\",\"arguments\":{}}]}. Available tools: "@;
        let form = "{\"tool_calls\":[{\"name\":\"tool_name\",\"arguments\":{}}]}"@;
        let all = intro + json::written(Tree::Array(tools));
        text::law_parts_of_a_text_are_found(
            intro,
            json::written(Tree::Array(tools)),
            Seq::empty(),
        );
        reveal_strlit("Tools are available. If a tool is needed, respond with a JSON object: {\"tool_calls\":[{\"name\":\"tool_name\",\"arguments\":{}}]}. Available tools: ");
        reveal_strlit("{\"tool_calls\":[{\"name\":\"tool_name\",\"arguments\":{}}]}");
        assert(all.subrange(70, 70int + form.len()) =~= form);
        assert(text::occurs_at(all, form, 70));
    }
}

/// An answer that asks for no calls of tools is shown and kept word for word, and stops.
pub proof fn law_plain_answers_are_shown_word_for_word(output: Seq<char>)
    requires
        json::parsed(text::trim(output)) matches Some(tree) ==> !(tree.get(
            "tool_calls"@,
        ) matches Some(Tree::Array(_))),
    ensures
        processed_output(output).visible_text == Some(output),
        processed_output(output).visible() == output,
        processed_output(output).storage_text == output,
        processed_output(output).tool_calls.len() == 0,
        processed_output(output).finish_reason == "stop"@,
{
}

/// Whatever an answer is, all of it counts, and it is either shown word for word or asks for
/// calls of tools.
pub proof fn law_answers_are_shown_or_call_tools(output: Seq<char>)
    ensures
        processed_output(output).storage_text == output,
        processed_output(output).tool_calls.len() == 0 ==> processed_output(output).visible_text
            == Some(output) && processed_output(output).finish_reason == "stop"@,
        processed_output(output).tool_calls.len() > 0 ==> processed_output(output).visible_text is
            None && processed_output(output).finish_reason == "tool_calls"@,
{
}

/// The arguments of a call are told as a text: a string as it stands, no arguments as an empty
/// object, and any other value as JSON.
pub open spec fn passes(arguments: Option<Tree>, told: Seq<char>) -> bool {
    match arguments {
        None => told == seq!['{', '}'],
        Some(Tree::Str(s)) => told == s,
        Some(value) => told == json::written(value),
    }
}

/// Every item of an answer that names a tool becomes a call of that tool, behind those before
/// it, with its arguments and with a name by its place; an item that names none becomes none.
pub proof fn law_named_tools_are_called(items: Seq<Tree>, item: Tree)
    ensures
        ({
            let before = asked_calls(
                Some(Tree::Object(seq![json::field_tree("tool_calls"@, Tree::Array(items))])),
            );
            let after = asked_calls(
                Some(
                    Tree::Object(
                        seq![json::field_tree("tool_calls"@, Tree::Array(items.push(item)))],
                    ),
                ),
            );
            &&& item.get_str("name"@) is None ==> after == before
            &&& item.get_str("name"@) matches Some(name) ==> {
                &&& after.len() == before.len() + 1
                &&& after.drop_last() == before
                &&& after.last().id == "call_"@ + text::decimal(items.len())
                &&& after.last().kind == "function"@
                &&& after.last().function.get_str("name"@) == Some(name)
                &&& after.last().function.get_str("arguments"@) matches Some(told) && passes(
                    item.get("arguments"@),
                    told,
                )
            }
        }),
{
    let all = items.push(item);
    assert(all.drop_last() =~= items);
    let one = seq![json::field_tree("tool_calls"@, Tree::Array(items))];
    let two = seq![json::field_tree("tool_calls"@, Tree::Array(all))];
    json::law_fields_are_found_by_name(one, 0);
    json::law_fields_are_found_by_name(two, 0);
    if item.get_str("name"@) is Some {
        let call = call_of(item, items.len() as int)->Some_0;
        assert(calls_of(all) == calls_of(items).push(call));
        assert(calls_of(all).drop_last() =~= calls_of(items));
        let fields = call.function->Object_0;
        reveal_strlit("{}");
        assert("{}"@ =~= seq!['{', '}']);
        reveal_strlit("arguments");
        reveal_strlit("name");
        assert("arguments"@.len() != "name"@.len());
        json::law_fields_are_found_by_name(fields, 0);
        json::law_fields_are_found_by_name(fields, 1);
        assert(call.function == Tree::Object(fields));
    }
}

/// Where an answer asks for no calls in the form that the model was told, it asks for none.
pub proof fn law_other_answers_call_nothing(answer: Option<Tree>)
    requires
        answer matches Some(tree) ==> !(tree.get("tool_calls"@) matches Some(Tree::Array(_))),
    ensures
        asked_calls(answer).len() == 0,
        asked_calls(Some(Tree::Object(seq![
            json::field_tree("tool_calls"@, Tree::Array(Seq::empty())),
        ]))).len() == 0,
{
    let none = seq![json::field_tree("tool_calls"@, Tree::Array(Seq::empty()))];
    json::law_fields_are_found_by_name(none, 0);
}

/// What is listed of a model is read in its JSON.
pub proof fn law_listed_models_are_read_back(model: ModelDataView)
    ensures
        model_data_tree(model).get_str("id"@) == Some(model.id),
        model_data_tree(model).get_str("object"@) == Some(model.object),
        model_data_tree(model).get("created"@) == Some(json::int_tree(model.created)),
        model_data_tree(model).get_str("owned_by"@) == Some(model.owned_by),
{
    let tree = model_data_tree(model);
    reveal_strlit("id");
    reveal_strlit("object");
    reveal_strlit("created");
    reveal_strlit("owned_by");
    assert("id"@.len() != "object"@.len());
    assert("id"@.len() != "created"@.len());
    assert("object"@.len() != "created"@.len());
    assert("id"@.len() != "owned_by"@.len());
    assert("object"@.len() != "owned_by"@.len());
    assert("created"@.len() != "owned_by"@.len());
    json::law_fields_are_found_by_name(tree->Object_0, 0);
    json::law_fields_are_found_by_name(tree->Object_0, 1);
    json::law_fields_are_found_by_name(tree->Object_0, 2);
    json::law_fields_are_found_by_name(tree->Object_0, 3);
}

/// What a request counts is read in its JSON.
pub proof fn law_usage_is_read_back(usage: UsageView)
    ensures
        usage_tree(usage).get("prompt_tokens"@) == Some(json::int_tree(usage.prompt_tokens)),
        usage_tree(usage).get("completion_tokens"@) == Some(
            json::int_tree(usage.completion_tokens),
        ),
        usage_tree(usage).get("total_tokens"@) == Some(json::int_tree(usage.total_tokens)),
{
    let tree = usage_tree(usage);
    reveal_strlit("prompt_tokens");
    reveal_strlit("completion_tokens");
    reveal_strlit("total_tokens");
    assert("prompt_tokens"@.len() != "completion_tokens"@.len());
    assert("prompt_tokens"@.len() != "total_tokens"@.len());
    assert("completion_tokens"@.len() != "total_tokens"@.len());
    json::law_fields_are_found_by_name(tree->Object_0, 0);
    json::law_fields_are_found_by_name(tree->Object_0, 1);
    json::law_fields_are_found_by_name(tree->Object_0, 2);
}

/// A call of a tool is read in its JSON.
pub proof fn law_calls_are_read_back(call: ToolCallView)
    ensures
        call_tree(call).get_str("id"@) == Some(call.id),
        call_tree(call).get_str("type"@) == Some(call.kind),
        call_tree(call).get("function"@) == Some(call.function),
{
    let tree = call_tree(call);
    reveal_strlit("id");
    reveal_strlit("type");
    reveal_strlit("function");
    assert("id"@.len() != "type"@.len());
    assert("id"@.len() != "function"@.len());
    assert("type"@.len() != "function"@.len());
    json::law_fields_are_found_by_name(tree->Object_0, 0);
    json::law_fields_are_found_by_name(tree->Object_0, 1);
    json::law_fields_are_found_by_name(tree->Object_0, 2);
}

/// The calls of a message are read in its JSON, each in its place.
pub proof fn law_calls_stand_in_their_order(calls: Seq<ToolCallView>, i: int)
    requires
        0 <= i < calls.len(),
    ensures
        calls_tree(calls).item(i) == Some(call_tree(calls[i])),
        calls_tree(calls).item(calls.len() as int) is None,
{
}

/// What the model said, and the calls that it asks for, are read in the JSON of its message.
pub proof fn law_messages_are_read_back(message: MessageView)
    ensures
        message_tree(message).get_str("role"@) == Some(message.role),
        message.content matches Some(s) ==> message_tree(message).get_str("content"@) == Some(s),
        message.content is None ==> message_tree(message).get("content"@) == Some(Tree::Null),
        message.tool_calls matches Some(calls) ==> message_tree(message).get("tool_calls"@)
            == Some(calls_tree(calls)),
        message.tool_calls is None ==> message_tree(message).get("tool_calls"@) is None,
{
    let tree = message_tree(message);
    let fields = tree->Object_0;
    reveal_strlit("role");
    reveal_strlit("content");
    reveal_strlit("tool_calls");
    reveal_strlit("reasoning_content");
    assert("role"@.len() == 4 && "content"@.len() == 7 && "tool_calls"@.len() == 10
        && "reasoning_content"@.len() == 17);
    assert(fields[0].name == "role"@ && fields[1].name == "content"@);
    json::law_fields_are_found_by_name(fields, 0);
    json::law_fields_are_found_by_name(fields, 1);
    if message.tool_calls is Some {
        assert(fields[2].name == "tool_calls"@);
        json::law_fields_are_found_by_name(fields, 2);
    } else {
        assert forall|j: int| 0 <= j < fields.len() implies (#[trigger] fields[j]).name
            != "tool_calls"@ by {
            assert(j < 2 || fields[j].name == "reasoning_content"@);
        }
        json::law_missing_fields_are_not_found(fields, "tool_calls"@);
    }
}

/// An answer to choose from is read in its JSON.
pub proof fn law_choices_are_read_back(choice: ChoiceView)
    ensures
        choice_tree(choice).get("index"@) == Some(json::int_tree(choice.index)),
        choice_tree(choice).get("message"@) == Some(message_tree(choice.message)),
        choice_tree(choice).get_str("finish_reason"@) == Some(choice.finish_reason),
{
    let tree = choice_tree(choice);
    reveal_strlit("index");
    reveal_strlit("message");
    reveal_strlit("finish_reason");
    assert("index"@.len() != "message"@.len());
    assert("index"@.len() != "finish_reason"@.len());
    assert("message"@.len() != "finish_reason"@.len());
    json::law_fields_are_found_by_name(tree->Object_0, 0);
    json::law_fields_are_found_by_name(tree->Object_0, 1);
    json::law_fields_are_found_by_name(tree->Object_0, 2);
}

/// The answer to a request is read in its JSON.
pub proof fn law_completions_are_read_back(completion: CompletionView, i: int)
    ensures
        completion_tree(completion).get_str("id"@) == Some(completion.id),
        completion_tree(completion).get_str("object"@) == Some(completion.object),
        completion_tree(completion).get("created"@) == Some(json::int_tree(completion.created)),
        completion_tree(completion).get_str("model"@) == Some(completion.model),
        completion_tree(completion).get("usage"@) == Some(usage_tree(completion.usage)),
        completion_tree(completion).get("choices"@) matches Some(choices) && (0 <= i
            < completion.choices.len() ==> choices.item(i) == Some(
            choice_tree(completion.choices[i]),
        )),
{
    let tree = completion_tree(completion);
    reveal_strlit("id");
    reveal_strlit("object");
    reveal_strlit("created");
    reveal_strlit("model");
    reveal_strlit("choices");
    reveal_strlit("usage");
    assert("id"@.len() != "object"@.len());
    assert("id"@.len() != "created"@.len());
    assert("object"@.len() != "created"@.len());
    assert("id"@.len() != "model"@.len());
    assert("object"@.len() != "model"@.len());
    assert("created"@.len() != "model"@.len());
    assert("id"@.len() != "choices"@.len());
    assert("object"@.len() != "choices"@.len());
    assert("created"@[1] != "choices"@[1]);
    assert("model"@.len() != "choices"@.len());
    assert("id"@.len() != "usage"@.len());
    assert("object"@.len() != "usage"@.len());
    assert("created"@.len() != "usage"@.len());
    assert("model"@[0] != "usage"@[0]);
    assert("choices"@.len() != "usage"@.len());
    json::law_fields_are_found_by_name(tree->Object_0, 0);
    json::law_fields_are_found_by_name(tree->Object_0, 1);
    json::law_fields_are_found_by_name(tree->Object_0, 2);
    json::law_fields_are_found_by_name(tree->Object_0, 3);
    json::law_fields_are_found_by_name(tree->Object_0, 4);
    json::law_fields_are_found_by_name(tree->Object_0, 5);
}

/// What a piece adds to an answer is read in its JSON.
pub proof fn law_additions_are_read_back(choice: StreamChoiceView)
    ensures
        stream_choice_tree(choice).get("index"@) == Some(json::int_tree(choice.index)),
        stream_choice_tree(choice).get("delta"@) == Some(choice.delta),
        choice.finish_reason matches Some(s) ==> stream_choice_tree(choice).get_str(
            "finish_reason"@,
        ) == Some(s),
        choice.finish_reason is None ==> stream_choice_tree(choice).get("finish_reason"@) == Some(
            Tree::Null,
        ),
{
    let tree = stream_choice_tree(choice);
    reveal_strlit("index");
    reveal_strlit("delta");
    reveal_strlit("finish_reason");
    assert("index"@[0] != "delta"@[0]);
    assert("index"@.len() != "finish_reason"@.len());
    assert("delta"@.len() != "finish_reason"@.len());
    json::law_fields_are_found_by_name(tree->Object_0, 0);
    json::law_fields_are_found_by_name(tree->Object_0, 1);
    json::law_fields_are_found_by_name(tree->Object_0, 2);
}

/// A piece of an answer is read in its JSON.
pub proof fn law_pieces_are_read_back(chunk: ChunkView, i: int)
    ensures
        chunk_tree(chunk).get_str("id"@) == Some(chunk.id),
        chunk_tree(chunk).get_str("object"@) == Some(chunk.object),
        chunk_tree(chunk).get("created"@) == Some(json::int_tree(chunk.created)),
        chunk_tree(chunk).get_str("model"@) == Some(chunk.model),
        chunk_tree(chunk).get("choices"@) matches Some(choices) && (0 <= i < chunk.choices.len()
            ==> choices.item(i) == Some(stream_choice_tree(chunk.choices[i]))),
        chunk.usage matches Some(usage) ==> chunk_tree(chunk).get("usage"@) == Some(
            usage_tree(usage),
        ),
{
    let tree = chunk_tree(chunk);
    reveal_strlit("id");
    reveal_strlit("object");
    reveal_strlit("created");
    reveal_strlit("model");
    reveal_strlit("choices");
    assert("id"@.len() != "object"@.len());
    assert("id"@.len() != "created"@.len());
    assert("object"@.len() != "created"@.len());
    assert("id"@.len() != "model"@.len());
    assert("object"@.len() != "model"@.len());
    assert("created"@.len() != "model"@.len());
    assert("id"@.len() != "choices"@.len());
    assert("object"@.len() != "choices"@.len());
    assert("created"@[1] != "choices"@[1]);
    assert("model"@.len() != "choices"@.len());
    json::law_fields_are_found_by_name(tree->Object_0, 0);
    json::law_fields_are_found_by_name(tree->Object_0, 1);
    json::law_fields_are_found_by_name(tree->Object_0, 2);
    json::law_fields_are_found_by_name(tree->Object_0, 3);
    json::law_fields_are_found_by_name(tree->Object_0, 4);
    if chunk.usage is Some {
        reveal_strlit("usage");
        assert("usage"@[0] != "model"@[0]);
        assert("usage"@.len() == 5 && "id"@.len() == 2 && "object"@.len() == 6 && "created"@.len()
            == 7 && "choices"@.len() == 7);
        json::law_fields_are_found_by_name(tree->Object_0, 5);
    }
}

} // verus!
