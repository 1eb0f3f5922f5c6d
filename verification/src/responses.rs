//! Responses: what is asked of the model, and how its answer is told, whole or as
//! a course of events.
use crate::attachments;
use crate::attachments::InputAttachment;
use crate::chat;
use crate::chat::{Generated, GeneratedView, Kinds};
use crate::config::Config;
use crate::history;
use crate::history::{EntryView, HistoryEntry};
use crate::http;
use crate::http::{ApiError, RequestHeader};
use crate::ids;
use crate::json;
use crate::json::{Json, Tree};
use crate::openai;
use crate::openai::{ProcessedOutput, ProcessedView, ResponseCreateRequest, ToolCall, ToolCallView};
use crate::routing;
use crate::routing::{GenerationRoute, RouteRequest};
use crate::text;
use vstd::prelude::*;

verus! {

/// A request for a response that was let pass: its name and time, what the model is
/// asked, which way the request is answered, whether the answer is told as a course of
/// events, and what is handed back to the caller.
#[derive(Debug)]
pub struct ResponsePlan {
    pub id: String,
    pub created: i64,
    pub model: String,
    pub prompt: String,
    pub route: GenerationRoute,
    pub stream: bool,
    pub metadata: Option<Json>,
    pub tools: Option<Vec<Json>>,
    pub tool_choice: Option<Json>,
}

/// What the model is asked for a request.
pub open spec fn response_prompt(
    request: ResponseCreateRequest,
    image_generation_enabled: bool,
    has_attachments: bool,
) -> Seq<char> {
    chat::full_prompt(
        openai::input_text(request.input@, http::opt_text(request.instructions)),
        openai::extra_instructions(
            json::opt_tree(request.response_format),
            openai::opt_trees(request.tools),
            json::opt_tree(request.tool_choice),
        ),
        image_generation_enabled,
        has_attachments,
    )
}

impl ResponsePlan {
    /// Whether this is what is to be done for a request.
    pub open spec fn is_for(
        &self,
        config: Config,
        vision_worker_enabled: bool,
        request: ResponseCreateRequest,
        has_attachments: bool,
    ) -> bool {
        let enabled = config.image_generation.enabled();
        &&& exists|uuid: Seq<char>| #[trigger] ids::is_uuid(uuid) && self.id@ == "resp_"@ + uuid
        &&& self.created >= 0
        &&& self.model@ == request.model@
        &&& self.prompt@ == response_prompt(request, enabled, has_attachments)
        &&& self.route == routing::route(
            enabled,
            vision_worker_enabled,
            has_attachments,
            openai::latest_input(request.input@),
        )
        &&& self.stream == chat::streams(request.stream)
        &&& json::opt_tree(self.metadata) == json::opt_tree(request.metadata)
        &&& openai::opt_trees(self.tools) == openai::opt_trees(request.tools)
        &&& json::opt_tree(self.tool_choice) == json::opt_tree(request.tool_choice)
    }
}

/// Lets a request for a response pass, with what is to be done for it, or refuses it.
pub fn prepare_response(
    config: &Config,
    vision_worker_enabled: bool,
    headers: &[RequestHeader],
    request: &ResponseCreateRequest,
    has_attachments: bool,
) -> (r: Result<ResponsePlan, ApiError>)
    ensures
        match http::refusal(http::opt_text(config.server.api_key), headers@) {
            Some(why) => r matches Err(e) && e.says(401, why),
            None => if text::trim(
                response_prompt(*request, config.image_generation.enabled(), has_attachments),
            ).len() == 0 {
                r matches Err(e) && e.says(400, "input is required"@)
            } else {
                r matches Ok(plan) && plan.is_for(
                    *config,
                    vision_worker_enabled,
                    *request,
                    has_attachments,
                )
            },
        },
{
    if let Err(e) = http::verify_auth(config.server.key(), headers) {
        return Err(e);
    }
    let enabled = config.image_generation.is_enabled();
    let prompt = chat::complete_prompt(
        openai::response_input_to_prompt(&request.input, &request.instructions),
        openai::response_extra_instructions(request).as_str(),
        enabled,
        has_attachments,
    );
    if text::trimmed(prompt.as_str()).as_str().is_empty() {
        return Err(ApiError::bad_request("input is required"));
    }
    let latest = openai::latest_input_text(&request.input);
    let route = routing::choose_generation_route(
        RouteRequest {
            image_generation_enabled: enabled,
            vision_worker_enabled,
            has_attachments,
            model: request.model.as_str(),
            latest_user_text: latest.as_str(),
        },
    );
    let tools = match &request.tools {
        Some(list) => Some(json::copy_items(list)),
        None => None,
    };
    Ok(
        ResponsePlan {
            id: ids::response_id(),
            created: ids::now(),
            model: request.model.clone(),
            prompt,
            route,
            stream: matches!(request.stream, Some(true)),
            metadata: json::copy_opt(&request.metadata),
            tools,
            tool_choice: json::copy_opt(&request.tool_choice),
        },
    )
}

/// A request for a response that was let pass, and what came with it to be looked at.
#[derive(Debug)]
pub struct ResponseJob {
    pub plan: ResponsePlan,
    pub attachments: Vec<InputAttachment>,
}

/// Lets a request for a response pass, with what came with it and what is to be done for it,
/// or refuses it.
pub fn plan_response(
    config: &Config,
    vision_worker_enabled: bool,
    headers: &[RequestHeader],
    request: &ResponseCreateRequest,
) -> (r: Result<ResponseJob, ApiError>)
    ensures
        ({
            let has_attachments = attachments::of_input(request.input@).len() > 0;
            match http::refusal(http::opt_text(config.server.api_key), headers@) {
                Some(why) => r matches Err(e) && e.says(401, why),
                None => if text::trim(
                    response_prompt(*request, config.image_generation.enabled(), has_attachments),
                ).len() == 0 {
                    r matches Err(e) && e.says(400, "input is required"@)
                } else {
                    &&& r matches Ok(job)
                    &&& attachments::attachment_views(job.attachments@) == attachments::of_input(
                        request.input@,
                    )
                    &&& job.plan.is_for(
                        *config,
                        vision_worker_enabled,
                        *request,
                        has_attachments,
                    )
                },
            }
        }),
{
    let attachments = attachments::input_attachments(&request.input);
    assert(attachments@.len() == attachments::attachment_views(attachments@).len());
    match prepare_response(config, vision_worker_enabled, headers, request, attachments.len() > 0) {
        Ok(plan) => Ok(ResponseJob { plan, attachments }),
        Err(e) => Err(e),
    }
}

/// An empty object.
pub open spec fn empty_object() -> Tree {
    Tree::Object(Seq::empty())
}

/// What the model said, as an item of a response.
pub open spec fn message_item(output: Seq<char>) -> Tree {
    Tree::Object(
        seq![
            json::field_tree(
                "content"@,
                Tree::Array(
                    seq![
                        Tree::Object(
                            seq![
                                json::field_tree("annotations"@, Tree::Array(Seq::empty())),
                                json::field_tree("text"@, json::str_tree(output)),
                                json::field_tree("type"@, json::str_tree("output_text"@)),
                            ],
                        ),
                    ],
                ),
            ),
            json::field_tree("id"@, json::str_tree("msg_0"@)),
            json::field_tree("role"@, json::str_tree("assistant"@)),
            json::field_tree("status"@, json::str_tree("completed"@)),
            json::field_tree("type"@, json::str_tree("message"@)),
        ],
    )
}

/// A call of a tool, as an item of a response.
pub open spec fn call_item(call: ToolCallView) -> Tree {
    Tree::Object(
        seq![
            json::field_tree("function"@, call.function),
            json::field_tree("id"@, json::str_tree(call.id)),
            json::field_tree("status"@, json::str_tree("completed"@)),
            json::field_tree("type"@, json::str_tree("tool_call"@)),
        ],
    )
}

/// The items of a response: what the model said, then the calls of tools.
pub open spec fn output_items(output: Seq<char>, calls: Seq<ToolCallView>) -> Tree {
    Tree::Array(seq![message_item(output)] + calls.map_values(|c: ToolCallView| call_item(c)))
}

/// What a response counts.
pub open spec fn response_usage(input_tokens: int, output_tokens: int) -> Tree {
    Tree::Object(
        seq![
            json::field_tree("input_tokens"@, json::int_tree(input_tokens)),
            json::field_tree(
                "input_tokens_details"@,
                openai::count_tree("cached_tokens"@, 0),
            ),
            json::field_tree("output_tokens"@, json::int_tree(output_tokens)),
            json::field_tree(
                "output_tokens_details"@,
                openai::count_tree("reasoning_tokens"@, 0),
            ),
            json::field_tree("total_tokens"@, json::int_tree(input_tokens + output_tokens)),
        ],
    )
}

/// The form of the text of a response.
pub open spec fn text_format() -> Tree {
    Tree::Object(
        seq![
            json::field_tree(
                "format"@,
                Tree::Object(seq![json::field_tree("type"@, json::str_tree("text"@))]),
            ),
        ],
    )
}

/// What a caller gave to be handed back; an empty object where it gave nothing.
pub open spec fn metadata_tree(metadata: Option<Tree>) -> Tree {
    match metadata {
        Some(m) => m,
        None => empty_object(),
    }
}

/// A response that is complete, as JSON.
pub open spec fn response_tree(
    id: Seq<char>,
    created: int,
    completed: int,
    model: Seq<char>,
    output: Seq<char>,
    input_tokens: int,
    output_tokens: int,
    tool_calls: Seq<ToolCallView>,
    metadata: Option<Tree>,
    tools: Option<Seq<Tree>>,
    tool_choice: Option<Tree>,
) -> Tree {
    Tree::Object(
        seq![
            json::field_tree("completed_at"@, json::int_tree(completed)),
            json::field_tree("created_at"@, json::int_tree(created)),
            json::field_tree("id"@, json::str_tree(id)),
            json::field_tree("metadata"@, metadata_tree(metadata)),
            json::field_tree("model"@, json::str_tree(model)),
            json::field_tree("object"@, json::str_tree("response"@)),
            json::field_tree("output"@, output_items(output, tool_calls)),
            json::field_tree("status"@, json::str_tree("completed"@)),
            json::field_tree("text"@, text_format()),
            json::field_tree(
                "tool_choice"@,
                match tool_choice {
                    Some(c) => c,
                    None => json::str_tree("auto"@),
                },
            ),
            json::field_tree(
                "tools"@,
                Tree::Array(
                    match tools {
                        Some(list) => list,
                        None => Seq::empty(),
                    },
                ),
            ),
            json::field_tree("usage"@, response_usage(input_tokens, output_tokens)),
        ],
    )
}

/// What the model said, as an item of a response.
fn message_json(output: &str) -> (r: Json)
    ensures
        r@ == message_item(output@),
{
    let annotations = json::array(Vec::new());
    assert(annotations@->Array_0 =~= Seq::empty());
    let part = json::object(
        vec![
            json::field("annotations", annotations),
            json::field("text", json::string(output)),
            json::field("type", json::string("output_text")),
        ],
    );
    let ghost wanted = message_item(output@)->Object_0;
    assert(part@->Object_0 =~= wanted[0].value->Array_0[0]->Object_0);
    let content = json::array(vec![part]);
    assert(content@->Array_0 =~= wanted[0].value->Array_0);
    let r = json::object(
        vec![
            json::field("content", content),
            json::field("id", json::string("msg_0")),
            json::field("role", json::string("assistant")),
            json::field("status", json::string("completed")),
            json::field("type", json::string("message")),
        ],
    );
    assert(r@->Object_0 =~= wanted);
    r
}

/// The items of a response.
fn output_json(output: &str, tool_calls: &Vec<ToolCall>) -> (r: Json)
    ensures
        r@ == output_items(output@, openai::call_views(tool_calls@)),
{
    let ghost calls = openai::call_views(tool_calls@);
    let ghost wanted = calls.map_values(|c: ToolCallView| call_item(c));
    let ghost first = seq![message_item(output@)];
    let mut items = vec![message_json(output)];
    assert(json::trees(items@) =~= first + wanted.take(0));
    let mut i: usize = 0;
    while i < tool_calls.len()
        invariant
            i <= tool_calls@.len(),
            calls == openai::call_views(tool_calls@),
            wanted == calls.map_values(|c: ToolCallView| call_item(c)),
            json::trees(items@) == first + wanted.take(i as int),
        decreases tool_calls@.len() - i,
    {
        let ghost earlier = items@;
        let next = json::object(
            vec![
                json::field("function", tool_calls[i].function.copy()),
                json::field("id", json::string(tool_calls[i].id.as_str())),
                json::field("status", json::string("completed")),
                json::field("type", json::string("tool_call")),
            ],
        );
        assert(next@->Object_0 =~= call_item(calls[i as int])->Object_0);
        items.push(next);
        assert(json::trees(items@) == json::trees(earlier).push(next@));
        assert(wanted.take(i + 1) == wanted.take(i as int).push(wanted[i as int]));
        i = i + 1;
    }
    assert(wanted.take(i as int) == wanted);
    json::array(items)
}

/// What a response counts.
fn usage_json(input_tokens: u64, output_tokens: u64) -> (r: Json)
    requires
        input_tokens + output_tokens <= u64::MAX,
    ensures
        r@ == response_usage(input_tokens as int, output_tokens as int),
{
    let r = json::object(
        vec![
            json::field("input_tokens", json::number(input_tokens)),
            json::field("input_tokens_details", openai::count("cached_tokens", 0)),
            json::field("output_tokens", json::number(output_tokens)),
            json::field("output_tokens_details", openai::count("reasoning_tokens", 0)),
            json::field("total_tokens", json::number(input_tokens + output_tokens)),
        ],
    );
    assert(r@->Object_0 =~= response_usage(input_tokens as int, output_tokens as int)->Object_0);
    r
}

/// The form of the text of a response.
fn text_format_json() -> (r: Json)
    ensures
        r@ == text_format(),
{
    let form = json::object(vec![json::field("type", json::string("text"))]);
    assert(form@->Object_0 =~= text_format()->Object_0[0].value->Object_0);
    let r = json::object(vec![json::field("format", form)]);
    assert(r@->Object_0 =~= text_format()->Object_0);
    r
}

/// What a caller gave to be handed back.
fn metadata_json(metadata: &Option<Json>) -> (r: Json)
    ensures
        r@ == metadata_tree(json::opt_tree(*metadata)),
{
    match metadata {
        Some(m) => m.copy(),
        None => {
            let r = json::object(Vec::new());
            assert(r@->Object_0 =~= Seq::empty());
            r
        },
    }
}

/// A response that was completed at that time.
pub fn completed_payload(
    id: &str,
    created: i64,
    completed: i64,
    model: &str,
    output: &str,
    input_tokens: u64,
    output_tokens: u64,
    tool_calls: &Vec<ToolCall>,
    metadata: &Option<Json>,
    tools: &Option<Vec<Json>>,
    tool_choice: &Option<Json>,
) -> (r: Json)
    requires
        input_tokens + output_tokens <= u64::MAX,
    ensures
        r@ == response_tree(
            id@,
            created as int,
            completed as int,
            model@,
            output@,
            input_tokens as int,
            output_tokens as int,
            openai::call_views(tool_calls@),
            json::opt_tree(*metadata),
            openai::opt_trees(*tools),
            json::opt_tree(*tool_choice),
        ),
{
    let choice = match tool_choice {
        Some(c) => c.copy(),
        None => json::string("auto"),
    };
    let listed = match tools {
        Some(list) => json::copy_items(list),
        None => Vec::new(),
    };
    assert(tools is None ==> json::trees(listed@) =~= Seq::empty());
    let r = json::object(
        vec![
            json::field("completed_at", json::integer(completed)),
            json::field("created_at", json::integer(created)),
            json::field("id", json::string(id)),
            json::field("metadata", metadata_json(metadata)),
            json::field("model", json::string(model)),
            json::field("object", json::string("response")),
            json::field("output", output_json(output, tool_calls)),
            json::field("status", json::string("completed")),
            json::field("text", text_format_json()),
            json::field("tool_choice", choice),
            json::field("tools", json::array(listed)),
            json::field("usage", usage_json(input_tokens, output_tokens)),
        ],
    );
    assert(r@->Object_0 =~= response_tree(
        id@,
        created as int,
        completed as int,
        model@,
        output@,
        input_tokens as int,
        output_tokens as int,
        openai::call_views(tool_calls@),
        json::opt_tree(*metadata),
        openai::opt_trees(*tools),
        json::opt_tree(*tool_choice),
    )->Object_0);
    r
}

/// A response that is complete now.
pub fn response_payload(
    id: &str,
    created: i64,
    model: &str,
    output: &str,
    input_tokens: u64,
    output_tokens: u64,
    tool_calls: &Vec<ToolCall>,
    metadata: &Option<Json>,
    tools: &Option<Vec<Json>>,
    tool_choice: &Option<Json>,
) -> (r: Json)
    requires
        input_tokens + output_tokens <= u64::MAX,
    ensures
        exists|completed: int|
            completed >= 0 && r@ == #[trigger] response_tree(
                id@,
                created as int,
                completed,
                model@,
                output@,
                input_tokens as int,
                output_tokens as int,
                openai::call_views(tool_calls@),
                json::opt_tree(*metadata),
                openai::opt_trees(*tools),
                json::opt_tree(*tool_choice),
            ),
{
    completed_payload(
        id,
        created,
        ids::now(),
        model,
        output,
        input_tokens,
        output_tokens,
        tool_calls,
        metadata,
        tools,
        tool_choice,
    )
}

/// The response to a request, where that comes of the answer of the model and it was
/// completed at that time.
pub open spec fn response_of(plan: ResponsePlan, processed: ProcessedView, completed: int) -> Tree {
    response_tree(
        plan.id@,
        plan.created as int,
        completed,
        plan.model@,
        processed.visible(),
        openai::tokens(plan.prompt@) as int,
        openai::tokens(processed.storage_text) as int,
        processed.tool_calls,
        json::opt_tree(plan.metadata),
        openai::opt_trees(plan.tools),
        json::opt_tree(plan.tool_choice),
    )
}

/// An event that tells of a response, or the end of the events.
#[derive(Debug)]
pub enum ResponseEvent {
    Named { event: &'static str, data: Json },
    Done,
}

/// An event that tells of a response, or the end of the events.
#[verifier::ext_equal]
pub enum ResponseEventView {
    Named { event: Seq<char>, data: Tree },
    Done,
}

impl View for ResponseEvent {
    type V = ResponseEventView;

    open spec fn view(&self) -> ResponseEventView {
        match self {
            ResponseEvent::Named { event, data } => ResponseEventView::Named {
                event: event@,
                data: data@,
            },
            ResponseEvent::Done => ResponseEventView::Done,
        }
    }
}

/// What the events of a list say.
pub open spec fn event_views(events: Seq<ResponseEvent>) -> Seq<ResponseEventView> {
    events.map_values(|e: ResponseEvent| e@)
}

/// That a response was begun.
pub open spec fn created_event(plan: ResponsePlan) -> ResponseEventView {
    ResponseEventView::Named {
        event: "response.created"@,
        data: Tree::Object(
            seq![
                json::field_tree(
                    "response"@,
                    Tree::Object(
                        seq![
                            json::field_tree("created_at"@, json::int_tree(plan.created as int)),
                            json::field_tree("id"@, json::str_tree(plan.id@)),
                            json::field_tree(
                                "metadata"@,
                                metadata_tree(json::opt_tree(plan.metadata)),
                            ),
                            json::field_tree("model"@, json::str_tree(plan.model@)),
                            json::field_tree("object"@, json::str_tree("response"@)),
                            json::field_tree("status"@, json::str_tree("in_progress"@)),
                        ],
                    ),
                ),
                json::field_tree("type"@, json::str_tree("response.created"@)),
            ],
        ),
    }
}

/// The text of a response.
pub open spec fn delta_event(output: Seq<char>) -> ResponseEventView {
    ResponseEventView::Named {
        event: "response.output_text.delta"@,
        data: Tree::Object(
            seq![
                json::field_tree("content_index"@, json::int_tree(0)),
                json::field_tree("delta"@, json::str_tree(output)),
                json::field_tree("item_id"@, json::str_tree("msg_0"@)),
                json::field_tree("output_index"@, json::int_tree(0)),
                json::field_tree("type"@, json::str_tree("response.output_text.delta"@)),
            ],
        ),
    }
}

/// That a response is complete.
pub open spec fn completed_event(response: Tree) -> ResponseEventView {
    ResponseEventView::Named {
        event: "response.completed"@,
        data: Tree::Object(
            seq![
                json::field_tree("response"@, response),
                json::field_tree("type"@, json::str_tree("response.completed"@)),
            ],
        ),
    }
}

/// The events that tell of a response: that it was begun, its text where it has one,
/// that it is complete, and the end.
pub open spec fn response_events(plan: ResponsePlan, output: Seq<char>, response: Tree) -> Seq<
    ResponseEventView,
> {
    seq![created_event(plan)] + (if output.len() > 0 {
        seq![delta_event(output)]
    } else {
        Seq::empty()
    }) + seq![completed_event(response), ResponseEventView::Done]
}

/// That a response was begun.
fn created_json(plan: &ResponsePlan) -> (r: ResponseEvent)
    ensures
        r@ == created_event(*plan),
{
    let ghost wanted = created_event(*plan)->data->Object_0;
    let response = json::object(
        vec![
            json::field("created_at", json::integer(plan.created)),
            json::field("id", json::string(plan.id.as_str())),
            json::field("metadata", metadata_json(&plan.metadata)),
            json::field("model", json::string(plan.model.as_str())),
            json::field("object", json::string("response")),
            json::field("status", json::string("in_progress")),
        ],
    );
    assert(response@->Object_0 =~= wanted[0].value->Object_0);
    let data = json::object(
        vec![
            json::field("response", response),
            json::field("type", json::string("response.created")),
        ],
    );
    assert(data@->Object_0 =~= wanted);
    ResponseEvent::Named { event: "response.created", data }
}

/// The text of a response.
fn delta_json(output: &str) -> (r: ResponseEvent)
    ensures
        r@ == delta_event(output@),
{
    let data = json::object(
        vec![
            json::field("content_index", json::number(0)),
            json::field("delta", json::string(output)),
            json::field("item_id", json::string("msg_0")),
            json::field("output_index", json::number(0)),
            json::field("type", json::string("response.output_text.delta")),
        ],
    );
    assert(data@->Object_0 =~= delta_event(output@)->data->Object_0);
    ResponseEvent::Named { event: "response.output_text.delta", data }
}

/// That a response is complete.
fn completed_json(response: Json) -> (r: ResponseEvent)
    ensures
        r@ == completed_event(response@),
{
    let data = json::object(
        vec![
            json::field("response", response),
            json::field("type", json::string("response.completed")),
        ],
    );
    assert(data@->Object_0 =~= completed_event(response@)->data->Object_0);
    ResponseEvent::Named { event: "response.completed", data }
}

/// The events that tell of a response.
pub fn response_stream(plan: &ResponsePlan, output: &str, response: Json) -> (r: Vec<ResponseEvent>)
    ensures
        event_views(r@) == response_events(*plan, output@, response@),
{
    let first = created_json(plan);
    let last = completed_json(response);
    let mut events = vec![first];
    if !output.is_empty() {
        events.push(delta_json(output));
    }
    events.push(last);
    events.push(ResponseEvent::Done);
    assert(event_views(events@) =~= response_events(*plan, output@, response@));
    events
}

/// The answer to a request: the response, or the events that tell of it.
#[derive(Debug)]
pub enum ResponseBody {
    Whole(Json),
    Events(Vec<ResponseEvent>),
}

impl ResponseBody {
    /// Whether this is the answer to a request, where that comes of the answer of the
    /// model and the response was completed at that time.
    pub open spec fn answers(
        &self,
        plan: ResponsePlan,
        processed: ProcessedView,
        completed: int,
    ) -> bool {
        let response = response_of(plan, processed, completed);
        match self {
            ResponseBody::Whole(j) => !plan.stream && j@ == response,
            ResponseBody::Events(events) => plan.stream && event_views(events@) == response_events(
                plan,
                processed.visible(),
                response,
            ),
        }
    }
}

/// The answer to a request whose response was completed at that time, once it is known
/// what comes of the answer of the model.
pub fn response_body(plan: &ResponsePlan, processed: &ProcessedOutput, completed: i64) -> (r:
    ResponseBody)
    ensures
        r.answers(*plan, processed@, completed as int),
{
    let output = match &processed.visible_text {
        Some(s) => s.clone(),
        None => String::new(),
    };
    let payload = completed_payload(
        plan.id.as_str(),
        plan.created,
        completed,
        plan.model.as_str(),
        output.as_str(),
        openai::estimate_tokens(plan.prompt.as_str()),
        openai::estimate_tokens(processed.storage_text.as_str()),
        &processed.tool_calls,
        &plan.metadata,
        &plan.tools,
        &plan.tool_choice,
    );
    if plan.stream {
        ResponseBody::Events(response_stream(plan, output.as_str(), payload))
    } else {
        ResponseBody::Whole(payload)
    }
}

/// The names under which responses are recorded.
pub open spec fn response_kind(route: GenerationRoute) -> Seq<char> {
    match route {
        GenerationRoute::ImageTool => "responses.image_tool"@,
        GenerationRoute::VisionWorker => "responses.vision_worker"@,
        GenerationRoute::GeminiWeb => "responses"@,
    }
}

/// The names under which responses are recorded.
pub fn response_kinds() -> (r: Kinds)
    ensures
        forall|route: GenerationRoute| #[trigger] r.of(route) == response_kind(route),
{
    Kinds {
        plain: "responses",
        vision_worker: "responses.vision_worker",
        image_tool: "responses.image_tool",
    }
}

/// What is kept of a request.
pub open spec fn response_entry(plan: ResponsePlan, generated: GeneratedView) -> Option<EntryView> {
    if chat::is_kept(plan.route, generated) {
        Some(
            chat::entry_of(
                response_kind(plan.route),
                plan.model@,
                plan.prompt@.len() as int,
                generated,
            ),
        )
    } else {
        None
    }
}

/// The answer to a request for a response, and what is kept of it.
#[derive(Debug)]
pub struct ResponseAnswer {
    pub result: Result<ResponseBody, ApiError>,
    pub history: Option<HistoryEntry>,
}

/// Answers a request for a response.
pub fn answer_response(plan: ResponsePlan, generated: &Generated) -> (r: ResponseAnswer)
    ensures
        match generated@ {
            GeneratedView::Text(output) => r.result matches Ok(body) && exists|completed: int|
                completed >= 0 && #[trigger] body.answers(
                    plan,
                    openai::processed_output(output),
                    completed,
                ),
            GeneratedView::PostprocessFailed(detail) => r.result matches Err(e) && e.says(
                502,
                detail,
            ),
            GeneratedView::Failed(detail) => r.result matches Err(e) && e.says(502, detail),
        },
        history::opt_entry(r.history) == response_entry(plan, generated@),
{
    let entry = chat::history_entry(
        response_kinds(),
        plan.route,
        plan.model.as_str(),
        plan.prompt.as_str(),
        generated,
    );
    match generated {
        Generated::Text(output) => {
            let processed = openai::process_output(output.as_str());
            let completed: i64 = ids::now();
            let body = response_body(&plan, &processed, completed);
            assert(body.answers(plan, processed@, completed as int));
            ResponseAnswer { result: Ok(body), history: Some(entry) }
        },
        Generated::PostprocessFailed(detail) => {
            let history = if plan.route == GenerationRoute::ImageTool {
                Some(entry)
            } else {
                None
            };
            ResponseAnswer { result: Err(ApiError::bad_gateway(detail.as_str())), history }
        },
        Generated::Failed(detail) => {
            ResponseAnswer {
                result: Err(ApiError::bad_gateway(detail.as_str())),
                history: Some(entry),
            }
        },
    }
}

/// The events that tell of a response begin with one that says that it was begun, and
/// end with one that holds the response that a caller who wants it whole gets, and with
/// the end.
pub proof fn law_events_tell_the_whole_response(
    plan: ResponsePlan,
    processed: ProcessedView,
    completed: int,
)
    ensures
        ({
            let response = response_of(plan, processed, completed);
            let events = response_events(plan, processed.visible(), response);
            &&& events.len() >= 3
            &&& events[0] == created_event(plan)
            &&& events.last() == ResponseEventView::Done
            &&& events[events.len() - 2]->data.get("response"@) == Some(response)
        }),
{
}

/// What the model said, word for word, is read in the message of a response.
pub proof fn law_messages_hold_what_was_said(output: Seq<char>)
    ensures
        ({
            let tree = message_item(output);
            &&& tree.get_str("type"@) == Some("message"@)
            &&& tree.get_str("role"@) == Some("assistant"@)
            &&& tree.get_str("status"@) == Some("completed"@)
            &&& tree.get("content"@) matches Some(content)
            &&& content.item(0) matches Some(part)
            &&& part.get_str("type"@) == Some("output_text"@)
            &&& part.get_str("text"@) == Some(output)
            &&& content.item(1) is None
        }),
{
    let tree = message_item(output);
    reveal_strlit("content");
    reveal_strlit("id");
    reveal_strlit("role");
    reveal_strlit("status");
    reveal_strlit("type");
    assert("content"@.len() != "id"@.len());
    assert("content"@.len() != "role"@.len());
    assert("id"@.len() != "role"@.len());
    assert("content"@.len() != "status"@.len());
    assert("id"@.len() != "status"@.len());
    assert("role"@.len() != "status"@.len());
    assert("content"@.len() != "type"@.len());
    assert("id"@.len() != "type"@.len());
    assert("role"@[0] != "type"@[0]);
    assert("status"@.len() != "type"@.len());
    json::law_fields_are_found_by_name(tree->Object_0, 0);
    json::law_fields_are_found_by_name(tree->Object_0, 1);
    json::law_fields_are_found_by_name(tree->Object_0, 2);
    json::law_fields_are_found_by_name(tree->Object_0, 3);
    json::law_fields_are_found_by_name(tree->Object_0, 4);
    let part = tree->Object_0[0].value->Array_0[0];
    reveal_strlit("annotations");
    reveal_strlit("text");
    assert("annotations"@.len() != "text"@.len());
    assert("annotations"@.len() != "type"@.len());
    assert("text"@[1] != "type"@[1]);
    json::law_fields_are_found_by_name(part->Object_0, 0);
    json::law_fields_are_found_by_name(part->Object_0, 1);
    json::law_fields_are_found_by_name(part->Object_0, 2);
}

/// A call of a tool is read in its item of a response.
pub proof fn law_call_items_hold_the_calls(call: ToolCallView)
    ensures
        call_item(call).get_str("id"@) == Some(call.id),
        call_item(call).get("function"@) == Some(call.function),
        call_item(call).get_str("type"@) == Some("tool_call"@),
        call_item(call).get_str("status"@) == Some("completed"@),
{
    let tree = call_item(call);
    reveal_strlit("function");
    reveal_strlit("id");
    reveal_strlit("status");
    reveal_strlit("type");
    assert("function"@.len() != "id"@.len());
    assert("function"@.len() != "status"@.len());
    assert("id"@.len() != "status"@.len());
    assert("function"@.len() != "type"@.len());
    assert("id"@.len() != "type"@.len());
    assert("status"@.len() != "type"@.len());
    json::law_fields_are_found_by_name(tree->Object_0, 0);
    json::law_fields_are_found_by_name(tree->Object_0, 1);
    json::law_fields_are_found_by_name(tree->Object_0, 2);
    json::law_fields_are_found_by_name(tree->Object_0, 3);
}

/// A response holds what the model said first, then each of its calls in its place.
pub proof fn law_responses_hold_the_message_and_the_calls(
    output: Seq<char>,
    calls: Seq<ToolCallView>,
    i: int,
)
    ensures
        output_items(output, calls).item(0) == Some(message_item(output)),
        0 <= i < calls.len() ==> output_items(output, calls).item(i + 1) == Some(
            call_item(calls[i]),
        ),
        output_items(output, calls).item(calls.len() as int + 1) is None,
{
}

/// What a response counts is read in it: the input, the output, and both together.
pub proof fn law_response_usage_adds_up(input_tokens: int, output_tokens: int)
    ensures
        response_usage(input_tokens, output_tokens).get("input_tokens"@) == Some(
            json::int_tree(input_tokens),
        ),
        response_usage(input_tokens, output_tokens).get("output_tokens"@) == Some(
            json::int_tree(output_tokens),
        ),
        response_usage(input_tokens, output_tokens).get("total_tokens"@) == Some(
            json::int_tree(input_tokens + output_tokens),
        ),
{
    let tree = response_usage(input_tokens, output_tokens);
    reveal_strlit("input_tokens");
    reveal_strlit("input_tokens_details");
    reveal_strlit("output_tokens");
    reveal_strlit("output_tokens_details");
    reveal_strlit("total_tokens");
    assert("input_tokens"@.len() != "input_tokens_details"@.len());
    assert("input_tokens"@.len() != "output_tokens"@.len());
    assert("input_tokens_details"@.len() != "output_tokens"@.len());
    assert("input_tokens"@.len() != "output_tokens_details"@.len());
    assert("input_tokens_details"@.len() != "output_tokens_details"@.len());
    assert("output_tokens"@.len() != "output_tokens_details"@.len());
    assert("input_tokens"@[0] != "total_tokens"@[0]);
    assert("input_tokens_details"@.len() != "total_tokens"@.len());
    assert("output_tokens"@.len() != "total_tokens"@.len());
    assert("output_tokens_details"@.len() != "total_tokens"@.len());
    json::law_fields_are_found_by_name(tree->Object_0, 0);
    json::law_fields_are_found_by_name(tree->Object_0, 1);
    json::law_fields_are_found_by_name(tree->Object_0, 2);
    json::law_fields_are_found_by_name(tree->Object_0, 3);
    json::law_fields_are_found_by_name(tree->Object_0, 4);
}

/// A response is read back: its name, its times, its model, what the model said, what it
/// counts, and what the caller gave to be handed back.
pub proof fn law_responses_are_read_back(
    plan: ResponsePlan,
    processed: ProcessedView,
    completed: int,
)
    ensures
        ({
            let tree = response_of(plan, processed, completed);
            &&& tree.get_str("id"@) == Some(plan.id@)
            &&& tree.get_str("object"@) == Some("response"@)
            &&& tree.get_str("status"@) == Some("completed"@)
            &&& tree.get_str("model"@) == Some(plan.model@)
            &&& tree.get("created_at"@) == Some(json::int_tree(plan.created as int))
            &&& tree.get("completed_at"@) == Some(json::int_tree(completed))
            &&& tree.get("output"@) == Some(
                output_items(processed.visible(), processed.tool_calls),
            )
            &&& tree.get("usage"@) == Some(
                response_usage(
                    openai::tokens(plan.prompt@) as int,
                    openai::tokens(processed.storage_text) as int,
                ),
            )
            &&& json::opt_tree(plan.metadata) matches Some(m) ==> tree.get("metadata"@) == Some(m)
            &&& plan.metadata is None ==> tree.get("metadata"@) == Some(
                Tree::Object(Seq::empty()),
            )
            &&& json::opt_tree(plan.tool_choice) matches Some(c) ==> tree.get("tool_choice"@)
                == Some(c)
            &&& plan.tool_choice is None ==> tree.get_str("tool_choice"@) == Some("auto"@)
            &&& openai::opt_trees(plan.tools) matches Some(list) ==> tree.get("tools"@) == Some(
                Tree::Array(list),
            )
            &&& plan.tools is None ==> tree.get("tools"@) == Some(Tree::Array(Seq::empty()))
        }),
{
    let tree = response_of(plan, processed, completed);
    reveal_strlit("completed_at");
    reveal_strlit("created_at");
    reveal_strlit("id");
    reveal_strlit("metadata");
    reveal_strlit("model");
    reveal_strlit("object");
    reveal_strlit("output");
    reveal_strlit("status");
    reveal_strlit("text");
    reveal_strlit("tool_choice");
    reveal_strlit("tools");
    reveal_strlit("usage");
    assert("completed_at"@.len() != "created_at"@.len());
    assert("completed_at"@.len() != "id"@.len());
    assert("created_at"@.len() != "id"@.len());
    assert("completed_at"@.len() != "metadata"@.len());
    assert("created_at"@.len() != "metadata"@.len());
    assert("id"@.len() != "metadata"@.len());
    assert("completed_at"@.len() != "model"@.len());
    assert("created_at"@.len() != "model"@.len());
    assert("id"@.len() != "model"@.len());
    assert("metadata"@.len() != "model"@.len());
    assert("completed_at"@.len() != "object"@.len());
    assert("created_at"@.len() != "object"@.len());
    assert("id"@.len() != "object"@.len());
    assert("metadata"@.len() != "object"@.len());
    assert("model"@.len() != "object"@.len());
    assert("completed_at"@.len() != "output"@.len());
    assert("created_at"@.len() != "output"@.len());
    assert("id"@.len() != "output"@.len());
    assert("metadata"@.len() != "output"@.len());
    assert("model"@.len() != "output"@.len());
    assert("object"@[1] != "output"@[1]);
    assert("completed_at"@.len() != "status"@.len());
    assert("created_at"@.len() != "status"@.len());
    assert("id"@.len() != "status"@.len());
    assert("metadata"@.len() != "status"@.len());
    assert("model"@.len() != "status"@.len());
    assert("object"@[0] != "status"@[0]);
    assert("output"@[0] != "status"@[0]);
    assert("completed_at"@.len() != "text"@.len());
    assert("created_at"@.len() != "text"@.len());
    assert("id"@.len() != "text"@.len());
    assert("metadata"@.len() != "text"@.len());
    assert("model"@.len() != "text"@.len());
    assert("object"@.len() != "text"@.len());
    assert("output"@.len() != "text"@.len());
    assert("status"@.len() != "text"@.len());
    assert("completed_at"@.len() != "tool_choice"@.len());
    assert("created_at"@.len() != "tool_choice"@.len());
    assert("id"@.len() != "tool_choice"@.len());
    assert("metadata"@.len() != "tool_choice"@.len());
    assert("model"@.len() != "tool_choice"@.len());
    assert("object"@.len() != "tool_choice"@.len());
    assert("output"@.len() != "tool_choice"@.len());
    assert("status"@.len() != "tool_choice"@.len());
    assert("text"@.len() != "tool_choice"@.len());
    assert("completed_at"@.len() != "tools"@.len());
    assert("created_at"@.len() != "tools"@.len());
    assert("id"@.len() != "tools"@.len());
    assert("metadata"@.len() != "tools"@.len());
    assert("model"@[0] != "tools"@[0]);
    assert("object"@.len() != "tools"@.len());
    assert("output"@.len() != "tools"@.len());
    assert("status"@.len() != "tools"@.len());
    assert("text"@.len() != "tools"@.len());
    assert("tool_choice"@.len() != "tools"@.len());
    assert("completed_at"@.len() != "usage"@.len());
    assert("created_at"@.len() != "usage"@.len());
    assert("id"@.len() != "usage"@.len());
    assert("metadata"@.len() != "usage"@.len());
    assert("model"@[0] != "usage"@[0]);
    assert("object"@.len() != "usage"@.len());
    assert("output"@.len() != "usage"@.len());
    assert("status"@.len() != "usage"@.len());
    assert("text"@.len() != "usage"@.len());
    assert("tool_choice"@.len() != "usage"@.len());
    assert("tools"@[0] != "usage"@[0]);
    json::law_fields_are_found_by_name(tree->Object_0, 0);
    json::law_fields_are_found_by_name(tree->Object_0, 1);
    json::law_fields_are_found_by_name(tree->Object_0, 2);
    json::law_fields_are_found_by_name(tree->Object_0, 3);
    json::law_fields_are_found_by_name(tree->Object_0, 4);
    json::law_fields_are_found_by_name(tree->Object_0, 5);
    json::law_fields_are_found_by_name(tree->Object_0, 6);
    json::law_fields_are_found_by_name(tree->Object_0, 7);
    json::law_fields_are_found_by_name(tree->Object_0, 8);
    json::law_fields_are_found_by_name(tree->Object_0, 9);
    json::law_fields_are_found_by_name(tree->Object_0, 10);
    json::law_fields_are_found_by_name(tree->Object_0, 11);
}

/// A response holds the answer of the model word for word, where that asks for no calls of
/// tools.
pub proof fn law_responses_tell_the_answer(plan: ResponsePlan, answer: Seq<char>, completed: int)
    requires
        json::parsed(text::trim(answer)) matches Some(tree) ==> !(tree.get(
            "tool_calls"@,
        ) matches Some(Tree::Array(_))),
    ensures
        ({
            let tree = response_of(plan, openai::processed_output(answer), completed);
            &&& tree.get("output"@) matches Some(output)
            &&& output.item(0) matches Some(message)
            &&& message.get("content"@) matches Some(content)
            &&& content.item(0) matches Some(part)
            &&& part.get_str("text"@) == Some(answer)
            &&& output.item(1) is None
        }),
{
    openai::law_plain_answers_are_shown_word_for_word(answer);
    law_responses_are_read_back(plan, openai::processed_output(answer), completed);
    law_messages_hold_what_was_said(answer);
    law_responses_hold_the_message_and_the_calls(
        answer,
        openai::processed_output(answer).tool_calls,
        0,
    );
}

/// The events that tell of a response tell its text, word for word and once, where it has any,
/// between its beginning and its end.
pub proof fn law_events_tell_the_text(plan: ResponsePlan, output: Seq<char>, response: Tree)
    ensures
        ({
            let events = response_events(plan, output, response);
            &&& output.len() > 0 ==> events.len() == 4 && events[1] is Named && events[1]->event
                == "response.output_text.delta"@ && events[1]->data.get_str("delta"@) == Some(
                output,
            ) && events[1]->data.get_str("type"@) == Some("response.output_text.delta"@)
            &&& output.len() == 0 ==> events.len() == 3
            &&& events[0] is Named && events[0]->event == "response.created"@
            &&& events[events.len() - 2] is Named && events[events.len() - 2]->event
                == "response.completed"@
            &&& events[events.len() - 2]->data.get("response"@) == Some(response)
            &&& events[events.len() - 2]->data.get_str("type"@) == Some("response.completed"@)
            &&& events.last() is Done
        }),
{
    let tree = delta_event(output)->data;
    reveal_strlit("content_index");
    reveal_strlit("delta");
    reveal_strlit("item_id");
    reveal_strlit("output_index");
    reveal_strlit("type");
    assert("content_index"@.len() != "delta"@.len());
    assert("content_index"@.len() != "item_id"@.len());
    assert("delta"@.len() != "item_id"@.len());
    assert("content_index"@.len() != "output_index"@.len());
    assert("delta"@.len() != "output_index"@.len());
    assert("item_id"@.len() != "output_index"@.len());
    assert("content_index"@.len() != "type"@.len());
    assert("delta"@.len() != "type"@.len());
    assert("item_id"@.len() != "type"@.len());
    assert("output_index"@.len() != "type"@.len());
    json::law_fields_are_found_by_name(tree->Object_0, 0);
    json::law_fields_are_found_by_name(tree->Object_0, 1);
    json::law_fields_are_found_by_name(tree->Object_0, 2);
    json::law_fields_are_found_by_name(tree->Object_0, 3);
    json::law_fields_are_found_by_name(tree->Object_0, 4);
    let done = completed_event(response)->data;
    reveal_strlit("response");
    assert("response"@.len() == 8 && "type"@.len() == 4);
    json::law_fields_are_found_by_name(done->Object_0, 0);
    json::law_fields_are_found_by_name(done->Object_0, 1);
}

/// The event that says that a response was begun names it, with its model, and that it is in
/// progress.
pub proof fn law_responses_are_announced(plan: ResponsePlan)
    ensures
        created_event(plan)->data.get_str("type"@) == Some("response.created"@),
        created_event(plan)->data.get("response"@) matches Some(response) && {
            &&& response.get_str("id"@) == Some(plan.id@)
            &&& response.get_str("model"@) == Some(plan.model@)
            &&& response.get_str("object"@) == Some("response"@)
            &&& response.get_str("status"@) == Some("in_progress"@)
            &&& response.get("created_at"@) == Some(json::int_tree(plan.created as int))
        },
{
    let data = created_event(plan)->data;
    reveal_strlit("response");
    reveal_strlit("type");
    assert("response"@.len() == 8 && "type"@.len() == 4);
    json::law_fields_are_found_by_name(data->Object_0, 0);
    json::law_fields_are_found_by_name(data->Object_0, 1);
    let tree = data->Object_0[0].value;
    reveal_strlit("created_at");
    reveal_strlit("id");
    reveal_strlit("metadata");
    reveal_strlit("model");
    reveal_strlit("object");
    reveal_strlit("status");
    assert("created_at"@.len() != "id"@.len());
    assert("created_at"@.len() != "metadata"@.len());
    assert("id"@.len() != "metadata"@.len());
    assert("created_at"@.len() != "model"@.len());
    assert("id"@.len() != "model"@.len());
    assert("metadata"@.len() != "model"@.len());
    assert("created_at"@.len() != "object"@.len());
    assert("id"@.len() != "object"@.len());
    assert("metadata"@.len() != "object"@.len());
    assert("model"@.len() != "object"@.len());
    assert("created_at"@.len() != "status"@.len());
    assert("id"@.len() != "status"@.len());
    assert("metadata"@.len() != "status"@.len());
    assert("model"@.len() != "status"@.len());
    assert("object"@[0] != "status"@[0]);
    json::law_fields_are_found_by_name(tree->Object_0, 0);
    json::law_fields_are_found_by_name(tree->Object_0, 1);
    json::law_fields_are_found_by_name(tree->Object_0, 2);
    json::law_fields_are_found_by_name(tree->Object_0, 3);
    json::law_fields_are_found_by_name(tree->Object_0, 4);
    json::law_fields_are_found_by_name(tree->Object_0, 5);
}

/// The model is asked all that a request says, whatever is told behind it.
pub proof fn law_inputs_are_asked_in_full(
    request: ResponseCreateRequest,
    image_generation_enabled: bool,
    has_attachments: bool,
)
    ensures
        text::starts_with(
            response_prompt(request, image_generation_enabled, has_attachments),
            openai::input_text(request.input@, http::opt_text(request.instructions)),
        ),
        text::contains(
            response_prompt(request, image_generation_enabled, has_attachments),
            openai::extra_instructions(
                json::opt_tree(request.response_format),
                openai::opt_trees(request.tools),
                json::opt_tree(request.tool_choice),
            ),
        ),
{
    let prompt = openai::input_text(request.input@, http::opt_text(request.instructions));
    let extra = openai::extra_instructions(
        json::opt_tree(request.response_format),
        openai::opt_trees(request.tools),
        json::opt_tree(request.tool_choice),
    );
    let all = response_prompt(request, image_generation_enabled, has_attachments);
    assert(all.subrange(0, prompt.len() as int) =~= prompt);
    if extra.len() > 0 {
        let at = (prompt + "\n\n[system]\n"@).len() as int;
        assert(all.subrange(at, at + extra.len()) =~= extra);
        assert(text::occurs_at(all, extra, at));
    } else {
        assert(all.subrange(0, 0) =~= extra);
        assert(text::occurs_at(all, extra, 0));
    }
}

/// A response is recorded under the name of the way it was answered, with the length of its
/// prompt, unless its answer could not be made ready and no image tool made it.
pub proof fn law_responses_are_recorded(plan: ResponsePlan, generated: GeneratedView)
    ensures
        response_entry(plan, generated) is None <==> generated is PostprocessFailed && plan.route
            != GenerationRoute::ImageTool,
        response_entry(plan, generated) matches Some(entry) ==> {
            &&& entry.model == plan.model@
            &&& entry.prompt_chars == plan.prompt@.len()
            &&& entry.ok <==> generated is Text
            &&& plan.route == GenerationRoute::GeminiWeb ==> entry.kind == "responses"@
            &&& plan.route == GenerationRoute::VisionWorker ==> entry.kind
                == "responses.vision_worker"@
            &&& plan.route == GenerationRoute::ImageTool ==> entry.kind
                == "responses.image_tool"@
        },
{
}

/// A plan that is for a request asks its model what it says and hands back what the caller
/// gave, and takes the way that the latest item of the user asks for.
pub proof fn law_response_plans_are_for_their_requests(
    plan: ResponsePlan,
    config: Config,
    vision_worker_enabled: bool,
    request: ResponseCreateRequest,
    has_attachments: bool,
)
    requires
        plan.is_for(config, vision_worker_enabled, request, has_attachments),
    ensures
        text::starts_with(plan.id@, "resp_"@),
        plan.id@.len() == 41,
        plan.created >= 0,
        plan.model@ == request.model@,
        plan.stream <==> request.stream == Some(true),
        text::starts_with(
            plan.prompt@,
            openai::input_text(request.input@, http::opt_text(request.instructions)),
        ),
        plan.route == routing::route(
            config.image_generation.backend@ != "disabled"@,
            vision_worker_enabled,
            has_attachments,
            openai::latest_input(request.input@),
        ),
        json::opt_tree(plan.metadata) == json::opt_tree(request.metadata),
        openai::opt_trees(plan.tools) == openai::opt_trees(request.tools),
        json::opt_tree(plan.tool_choice) == json::opt_tree(request.tool_choice),
{
    let enabled = config.image_generation.enabled();
    law_inputs_are_asked_in_full(request, enabled, has_attachments);
    let uuid = choose|uuid: Seq<char>| #[trigger] ids::is_uuid(uuid) && plan.id@ == "resp_"@ + uuid;
    reveal_strlit("resp_");
    text::law_parts_of_a_text_are_found(Seq::empty(), "resp_"@, uuid);
}

/// A caller gets a response whole, or told as a course of events where it asked for that.
pub proof fn law_responses_come_whole_or_as_events(
    body: ResponseBody,
    plan: ResponsePlan,
    processed: ProcessedView,
    completed: int,
)
    requires
        body.answers(plan, processed, completed),
    ensures
        plan.stream <==> body is Events,
        body matches ResponseBody::Whole(j) ==> j@.get_str("id"@) == Some(plan.id@) && j@
            == response_of(plan, processed, completed),
        body matches ResponseBody::Events(events) ==> events@.len() >= 3 && event_views(
            events@,
        ).last() is Done && event_views(events@)[events@.len() - 2]->data.get("response"@) == Some(
            response_of(plan, processed, completed),
        ),
{
    let response = response_of(plan, processed, completed);
    law_responses_are_read_back(plan, processed, completed);
    law_events_tell_the_text(plan, processed.visible(), response);
    match body {
        ResponseBody::Events(events) => {
            assert(events@.len() == event_views(events@).len());
        },
        _ => {},
    }
}

} // verus!
