//! Chat completions: what is asked of the model, and how its answer is told,
//! whole or piece by piece.
use crate::attachments;
use crate::attachments::InputAttachment;
use crate::config::Config;
use crate::history;
use crate::history::{EntryView, HistoryEntry};
use crate::http;
use crate::http::{ApiError, RequestHeader};
use crate::ids;
use crate::images;
use crate::json;
use crate::json::{Json, Tree};
use crate::openai;
use crate::openai::{
    AssistantMessage, ChatCompletionRequest, ChatCompletionResponse, Choice, ChoiceView, ChunkView,
    CompletionView, MessageView, ProcessedOutput, ProcessedView, StreamChoice, StreamChoiceView,
    StreamChunk, ToolCall, ToolCallView, Usage, UsageView,
};
use crate::routing;
use crate::routing::{GenerationRoute, RouteRequest};
use crate::text;
use vstd::prelude::*;

verus! {

/// What the model is told where the gateway makes no pictures.
pub open spec fn text_only_guard() -> Seq<char> {
    "This API bridge is text-only. Image creation/search/browsing tools are disabled. Never call or mention image creation availability, sign-in status, region availability, or image search. If the user talks about drawing, UI mockups, pictures, or images, answer as normal text. If the user explicitly asks you to create/generate/draw an image, say briefly that this endpoint only supports text and offer a text prompt, layout spec, or implementation plan instead."@
}

/// A prompt with something more that the model is told.
pub open spec fn told_also(prompt: Seq<char>, more: Seq<char>) -> Seq<char> {
    prompt + "\n\n[system]\n"@ + more
}

/// A prompt with what the model is told of pictures: nothing where the gateway makes
/// some, or where something to look at came with the prompt.
pub open spec fn guarded(
    image_generation_enabled: bool,
    has_input_attachments: bool,
    prompt: Seq<char>,
) -> Seq<char> {
    if image_generation_enabled || has_input_attachments {
        prompt
    } else {
        told_also(prompt, text_only_guard())
    }
}

pub fn append_text_only_image_guard(
    image_generation_enabled: bool,
    has_input_attachments: bool,
    prompt: &mut String,
)
    ensures
        final(prompt)@ == guarded(image_generation_enabled, has_input_attachments, old(prompt)@),
{
    if image_generation_enabled || has_input_attachments {
        return ;
    }
    prompt.append("\n\n[system]\n");
    prompt.append(
        "This API bridge is text-only. Image creation/search/browsing tools are disabled. Never call or mention image creation availability, sign-in status, region availability, or image search. If the user talks about drawing, UI mockups, pictures, or images, answer as normal text. If the user explicitly asks you to create/generate/draw an image, say briefly that this endpoint only supports text and offer a text prompt, layout spec, or implementation plan instead.",
    );
}

/// A prompt with what a request asks of the model beyond it, and with what the
/// model is told of pictures.
pub open spec fn full_prompt(
    prompt: Seq<char>,
    extra: Seq<char>,
    image_generation_enabled: bool,
    has_attachments: bool,
) -> Seq<char> {
    guarded(
        image_generation_enabled,
        has_attachments,
        if extra.len() > 0 {
            told_also(prompt, extra)
        } else {
            prompt
        },
    )
}

/// A prompt with all that belongs to it.
pub fn complete_prompt(
    prompt: String,
    extra: &str,
    image_generation_enabled: bool,
    has_attachments: bool,
) -> (r: String)
    ensures
        r@ == full_prompt(prompt@, extra@, image_generation_enabled, has_attachments),
{
    let mut prompt = prompt;
    if !extra.is_empty() {
        prompt.append("\n\n[system]\n");
        prompt.append(extra);
    }
    append_text_only_image_guard(image_generation_enabled, has_attachments, &mut prompt);
    prompt
}

/// A request for a chat completion that was let pass: its name and time, what the
/// model is asked, which way the request is answered, and whether the answer is told
/// piece by piece.
#[derive(Debug)]
pub struct ChatPlan {
    pub id: String,
    pub created: i64,
    pub model: String,
    pub prompt: String,
    pub latest_user_text: String,
    pub trace_id: String,
    pub route: GenerationRoute,
    pub stream: bool,
}

/// What the model is asked for a request.
pub open spec fn chat_prompt(
    request: ChatCompletionRequest,
    image_generation_enabled: bool,
    has_attachments: bool,
) -> Seq<char> {
    full_prompt(
        openai::conversation(request.messages@),
        openai::extra_instructions(
            json::opt_tree(request.response_format),
            openai::opt_trees(request.tools),
            json::opt_tree(request.tool_choice),
        ),
        image_generation_enabled,
        has_attachments,
    )
}

/// Whether a caller wants an answer piece by piece.
pub open spec fn streams(stream: Option<bool>) -> bool {
    stream == Some(true)
}

impl ChatPlan {
    /// Whether this is what is to be done for a request.
    pub open spec fn is_for(
        &self,
        config: Config,
        vision_worker_enabled: bool,
        headers: Seq<RequestHeader>,
        request: ChatCompletionRequest,
        has_attachments: bool,
    ) -> bool {
        let enabled = config.image_generation.enabled();
        &&& exists|uuid: Seq<char>| #[trigger] ids::is_uuid(uuid) && self.id@ == "chatcmpl-"@ + uuid
        &&& self.created >= 0
        &&& self.model@ == request.model@
        &&& self.prompt@ == chat_prompt(request, enabled, has_attachments)
        &&& self.latest_user_text@ == openai::latest_user_text(request.messages@)
        &&& self.trace_id@ == http::trace_id(headers)
        &&& self.route == routing::route(
            enabled,
            vision_worker_enabled,
            has_attachments,
            openai::latest_user_text(request.messages@),
        )
        &&& self.stream == streams(request.stream)
    }
}

/// Lets a request for a chat completion pass, with what is to be done for it, or
/// refuses it.
pub fn prepare_chat(
    config: &Config,
    vision_worker_enabled: bool,
    headers: &[RequestHeader],
    request: &ChatCompletionRequest,
    has_attachments: bool,
) -> (r: Result<ChatPlan, ApiError>)
    ensures
        match http::refusal(http::opt_text(config.server.api_key), headers@) {
            Some(why) => r matches Err(e) && e.says(401, why),
            None => if request.messages@.len() == 0 {
                r matches Err(e) && e.says(400, "messages are required"@)
            } else {
                r matches Ok(plan) && plan.is_for(
                    *config,
                    vision_worker_enabled,
                    headers@,
                    *request,
                    has_attachments,
                )
            },
        },
{
    if let Err(e) = http::verify_auth(config.server.key(), headers) {
        return Err(e);
    }
    if request.messages.len() == 0 {
        return Err(ApiError::bad_request("messages are required"));
    }
    let enabled = config.image_generation.is_enabled();
    let prompt = complete_prompt(
        openai::messages_to_prompt(request.messages.as_slice()),
        openai::chat_extra_instructions(request).as_str(),
        enabled,
        has_attachments,
    );
    let latest_user_text = openai::latest_user_plain_text(request.messages.as_slice());
    let route = routing::choose_generation_route(
        RouteRequest {
            image_generation_enabled: enabled,
            vision_worker_enabled,
            has_attachments,
            model: request.model.as_str(),
            latest_user_text: latest_user_text.as_str(),
        },
    );
    Ok(
        ChatPlan {
            id: ids::completion_id(),
            created: ids::now(),
            model: request.model.clone(),
            prompt,
            latest_user_text,
            trace_id: http::trace_id_from_headers(headers),
            route,
            stream: matches!(request.stream, Some(true)),
        },
    )
}

/// A request for a chat completion that was let pass, and what came with it to be looked at.
#[derive(Debug)]
pub struct ChatJob {
    pub plan: ChatPlan,
    pub attachments: Vec<InputAttachment>,
}

/// Lets a request for a chat completion pass, with what came with it and what is to be done
/// for it, or refuses it.
pub fn plan_chat(
    config: &Config,
    vision_worker_enabled: bool,
    headers: &[RequestHeader],
    request: &ChatCompletionRequest,
) -> (r: Result<ChatJob, ApiError>)
    ensures
        match http::refusal(http::opt_text(config.server.api_key), headers@) {
            Some(why) => r matches Err(e) && e.says(401, why),
            None => if request.messages@.len() == 0 {
                r matches Err(e) && e.says(400, "messages are required"@)
            } else {
                &&& r matches Ok(job)
                &&& attachments::attachment_views(job.attachments@) == attachments::of_messages(
                    request.messages@,
                )
                &&& job.plan.is_for(
                    *config,
                    vision_worker_enabled,
                    headers@,
                    *request,
                    attachments::of_messages(request.messages@).len() > 0,
                )
            },
        },
{
    let attachments = attachments::message_attachments(request.messages.as_slice());
    assert(attachments@.len() == attachments::attachment_views(attachments@).len());
    match prepare_chat(config, vision_worker_enabled, headers, request, attachments.len() > 0) {
        Ok(plan) => Ok(ChatJob { plan, attachments }),
        Err(e) => Err(e),
    }
}

/// What is still to be sent of a text of which some was sent: nothing where the
/// text is empty, where all of it was sent, or where it does not go on from what was
/// sent.
pub open spec fn unsent(streamed: Seq<char>, final_text: Seq<char>) -> Option<Seq<char>> {
    if text::starts_with(final_text, streamed) && final_text.len() > streamed.len() {
        Some(final_text.skip(streamed.len() as int))
    } else {
        None
    }
}

pub fn stream_tail<'a>(streamed: &str, final_text: &'a str) -> (r: Option<&'a str>)
    ensures
        http::opt_str(r) == unsent(streamed@, final_text@),
        r matches Some(tail) ==> streamed@ + tail@ == final_text@,
{
    if final_text.is_empty() {
        None
    } else if streamed.is_empty() {
        assert(final_text@.subrange(0, 0) == streamed@);
        assert(final_text@.skip(0) == final_text@);
        assert(streamed@ + final_text@ == final_text@);
        Some(final_text)
    } else if text::has_prefix(final_text, streamed) {
        let from: usize = streamed.unicode_len();
        let to: usize = final_text.unicode_len();
        if from < to {
            let tail = final_text.substring_char(from, to);
            assert(tail@ == final_text@.skip(from as int));
            assert(final_text@.subrange(0, from as int) == streamed@);
            assert(streamed@ + tail@ == final_text@);
            Some(tail)
        } else {
            None
        }
    } else {
        None
    }
}

/// What became of a request: the text of the answer, or why the answer could not be
/// made ready for the caller, or why there is none.
#[derive(Debug)]
pub enum Generated {
    Text(String),
    PostprocessFailed(String),
    Failed(String),
}

/// What became of a request.
#[verifier::ext_equal]
pub enum GeneratedView {
    Text(Seq<char>),
    PostprocessFailed(Seq<char>),
    Failed(Seq<char>),
}

impl View for Generated {
    type V = GeneratedView;

    open spec fn view(&self) -> GeneratedView {
        match self {
            Generated::Text(s) => GeneratedView::Text(s@),
            Generated::PostprocessFailed(s) => GeneratedView::PostprocessFailed(s@),
            Generated::Failed(s) => GeneratedView::Failed(s@),
        }
    }
}

/// What a caller who is told the answer piece by piece is told of a request.
pub open spec fn told_text(route: GenerationRoute, generated: GeneratedView) -> Seq<char> {
    match generated {
        GeneratedView::Text(s) => s,
        GeneratedView::PostprocessFailed(detail) => match route {
            GenerationRoute::ImageTool => "Image generation failed: "@ + detail,
            GenerationRoute::VisionWorker => "Gemini vision worker failed: "@ + detail,
            GenerationRoute::GeminiWeb => "Gemini response postprocess failed: "@ + detail,
        },
        GeneratedView::Failed(detail) => match route {
            GenerationRoute::ImageTool => "Image generation failed: "@ + detail,
            GenerationRoute::VisionWorker => "Gemini vision worker failed: "@ + detail,
            GenerationRoute::GeminiWeb => "Gemini request failed: "@ + detail,
        },
    }
}

/// A text and what goes behind it.
fn with_detail(text: &str, detail: &str) -> (r: String)
    ensures
        r@ == text@ + detail@,
{
    let mut out = text.to_owned();
    out.append(detail);
    out
}

/// What a caller who is told the answer piece by piece is told of a request.
pub fn outcome_text(route: GenerationRoute, generated: &Generated) -> (r: String)
    ensures
        r@ == told_text(route, generated@),
{
    match generated {
        Generated::Text(s) => s.clone(),
        Generated::PostprocessFailed(detail) => match route {
            GenerationRoute::ImageTool => with_detail("Image generation failed: ", detail.as_str()),
            GenerationRoute::VisionWorker => with_detail(
                "Gemini vision worker failed: ",
                detail.as_str(),
            ),
            GenerationRoute::GeminiWeb => with_detail(
                "Gemini response postprocess failed: ",
                detail.as_str(),
            ),
        },
        Generated::Failed(detail) => match route {
            GenerationRoute::ImageTool => with_detail("Image generation failed: ", detail.as_str()),
            GenerationRoute::VisionWorker => with_detail(
                "Gemini vision worker failed: ",
                detail.as_str(),
            ),
            GenerationRoute::GeminiWeb => with_detail("Gemini request failed: ", detail.as_str()),
        },
    }
}

/// The names under which the three ways to answer a request are recorded.
#[derive(Debug, Clone, Copy)]
pub struct Kinds {
    pub plain: &'static str,
    pub vision_worker: &'static str,
    pub image_tool: &'static str,
}

impl Kinds {
    /// The name of a way to answer a request.
    pub open spec fn of(&self, route: GenerationRoute) -> Seq<char> {
        match route {
            GenerationRoute::ImageTool => self.image_tool@,
            GenerationRoute::VisionWorker => self.vision_worker@,
            GenerationRoute::GeminiWeb => self.plain@,
        }
    }
}

/// What is kept of a request, of which so many characters went to the model.
pub open spec fn entry_of(
    kind: Seq<char>,
    model: Seq<char>,
    prompt_chars: int,
    generated: GeneratedView,
) -> EntryView {
    match generated {
        GeneratedView::Text(s) => history::answered(kind, model, prompt_chars, s.len() as int),
        GeneratedView::PostprocessFailed(detail) => history::failed(
            kind,
            model,
            prompt_chars,
            detail,
        ),
        GeneratedView::Failed(detail) => history::failed(kind, model, prompt_chars, detail),
    }
}

/// What is kept of a request.
pub fn history_entry(
    kinds: Kinds,
    route: GenerationRoute,
    model: &str,
    asked: &str,
    generated: &Generated,
) -> (r: HistoryEntry)
    ensures
        r@ == entry_of(kinds.of(route), model@, asked@.len() as int, generated@),
{
    let kind = match route {
        GenerationRoute::ImageTool => kinds.image_tool,
        GenerationRoute::VisionWorker => kinds.vision_worker,
        GenerationRoute::GeminiWeb => kinds.plain,
    };
    let prompt_chars: usize = asked.unicode_len();
    match generated {
        Generated::Text(s) => history::success(kind, model, prompt_chars, s.as_str().unicode_len()),
        Generated::PostprocessFailed(detail) => history::failure(
            kind,
            model,
            prompt_chars,
            detail.as_str(),
        ),
        Generated::Failed(detail) => history::failure(kind, model, prompt_chars, detail.as_str()),
    }
}

/// The names under which chat completions are recorded.
pub open spec fn chat_kind(route: GenerationRoute) -> Seq<char> {
    match route {
        GenerationRoute::ImageTool => "chat.completions.image_tool"@,
        GenerationRoute::VisionWorker => "chat.completions.vision_worker"@,
        GenerationRoute::GeminiWeb => "chat.completions"@,
    }
}

/// The names under which chat completions are recorded.
pub fn chat_kinds() -> (r: Kinds)
    ensures
        forall|route: GenerationRoute| #[trigger] r.of(route) == chat_kind(route),
{
    Kinds {
        plain: "chat.completions",
        vision_worker: "chat.completions.vision_worker",
        image_tool: "chat.completions.image_tool",
    }
}

/// What goes out of a chat completion: for the image tool only what the user said
/// last.
pub open spec fn asked_text(
    route: GenerationRoute,
    prompt: Seq<char>,
    latest_user_text: Seq<char>,
) -> Seq<char> {
    if route == GenerationRoute::ImageTool {
        latest_user_text
    } else {
        prompt
    }
}

/// The first piece: that the model speaks.
pub open spec fn role_delta() -> Tree {
    Tree::Object(seq![json::field_tree("role"@, json::str_tree("assistant"@))])
}

/// A piece of text.
pub open spec fn content_delta(s: Seq<char>) -> Tree {
    Tree::Object(seq![json::field_tree("content"@, json::str_tree(s))])
}

/// The call of a tool at a place of a list.
pub open spec fn call_delta(call: ToolCallView, i: int) -> Tree {
    Tree::Object(
        seq![
            json::field_tree("function"@, call.function),
            json::field_tree("id"@, json::str_tree(call.id)),
            json::field_tree("index"@, json::int_tree(i)),
            json::field_tree("type"@, json::str_tree(call.kind)),
        ],
    )
}

/// The calls of tools.
pub open spec fn tools_delta(calls: Seq<ToolCallView>) -> Tree {
    Tree::Object(
        seq![
            json::field_tree(
                "tool_calls"@,
                Tree::Array(calls.map(|i: int, c: ToolCallView| call_delta(c, i))),
            ),
        ],
    )
}

/// An object with one field.
fn single_field(name: &str, value: Json) -> (r: Json)
    ensures
        r@ == Tree::Object(seq![json::field_tree(name@, value@)]),
{
    let r = json::object(vec![json::field(name, value)]);
    assert(r@->Object_0 =~= seq![json::field_tree(name@, value@)]);
    r
}

/// The calls of tools.
fn tools_json(calls: &Vec<ToolCall>) -> (r: Json)
    ensures
        r@ == tools_delta(openai::call_views(calls@)),
{
    let ghost views = openai::call_views(calls@);
    let ghost wanted = views.map(|i: int, c: ToolCallView| call_delta(c, i));
    let mut items: Vec<Json> = Vec::new();
    let mut i: usize = 0;
    while i < calls.len()
        invariant
            i <= calls@.len(),
            views == openai::call_views(calls@),
            wanted == views.map(|i: int, c: ToolCallView| call_delta(c, i)),
            json::trees(items@) == wanted.take(i as int),
        decreases calls@.len() - i,
    {
        let ghost earlier = items@;
        let next = json::object(
            vec![
                json::field("function", calls[i].function.copy()),
                json::field("id", json::string(calls[i].id.as_str())),
                json::field("index", json::number(i as u64)),
                json::field("type", json::string(calls[i].kind.as_str())),
            ],
        );
        assert(next@->Object_0 =~= call_delta(views[i as int], i as int)->Object_0);
        items.push(next);
        assert(json::trees(items@) == json::trees(earlier).push(next@));
        i = i + 1;
    }
    assert(wanted.take(i as int) == wanted);
    single_field("tool_calls", json::array(items))
}

/// A piece of the answer to a request.
pub open spec fn piece(
    plan: ChatPlan,
    delta: Tree,
    finish_reason: Option<Seq<char>>,
    usage: Option<UsageView>,
) -> ChunkView {
    ChunkView {
        id: plan.id@,
        object: "chat.completion.chunk"@,
        created: plan.created as int,
        model: plan.model@,
        choices: seq![StreamChoiceView { index: 0, delta, finish_reason }],
        usage,
    }
}

/// A piece of the answer to a request.
fn make_piece(
    plan: &ChatPlan,
    delta: Json,
    finish_reason: Option<&'static str>,
    usage: Option<Usage>,
) -> (r: StreamChunk)
    ensures
        r@ == piece(*plan, delta@, http::opt_str(finish_reason), openai::opt_usage(usage)),
{
    let r = StreamChunk {
        id: plan.id.clone(),
        object: "chat.completion.chunk",
        created: plan.created,
        model: plan.model.clone(),
        choices: vec![StreamChoice { index: 0, delta, finish_reason }],
        usage,
    };
    assert(r@.choices =~= seq![
        StreamChoiceView { index: 0, delta: delta@, finish_reason: http::opt_str(finish_reason) },
    ]);
    r
}

/// What is sent to a caller who is told the answer piece by piece: a piece, a
/// remark that keeps the connection alive, or the end.
#[derive(Debug)]
pub enum SseEvent {
    Chunk(StreamChunk),
    Comment(&'static str),
    Done,
}

/// What is sent to a caller who is told the answer piece by piece.
#[verifier::ext_equal]
pub enum SseView {
    Chunk(ChunkView),
    Comment(Seq<char>),
    Done,
}

impl View for SseEvent {
    type V = SseView;

    open spec fn view(&self) -> SseView {
        match self {
            SseEvent::Chunk(c) => SseView::Chunk(c@),
            SseEvent::Comment(s) => SseView::Comment(s@),
            SseEvent::Done => SseView::Done,
        }
    }
}

impl SseEvent {
    /// The data of an event; none for a remark.
    pub fn data(&self) -> (r: Option<String>)
        ensures
            http::opt_text(r) == (match self@ {
                SseView::Chunk(c) => Some(json::written(openai::chunk_tree(c))),
                SseView::Comment(_) => None,
                SseView::Done => Some("[DONE]"@),
            }),
    {
        match self {
            SseEvent::Chunk(c) => Some(c.to_json().to_text()),
            SseEvent::Comment(_) => None,
            SseEvent::Done => Some("[DONE]".to_owned()),
        }
    }
}

/// What the events of a list say.
pub open spec fn sse_views(events: Seq<SseEvent>) -> Seq<SseView> {
    events.map_values(|e: SseEvent| e@)
}

/// What happens to a request whose answer is told piece by piece: it begins; more
/// text comes from the model, or no more will come; time passes; it ends.
#[derive(Debug)]
pub enum ChatEvent {
    Start,
    Delta(Option<String>),
    Tick,
    End(Generated),
}

/// What happens to a request whose answer is told piece by piece.
#[verifier::ext_equal]
pub enum ChatEventView {
    Start,
    Delta(Option<Seq<char>>),
    Tick,
    End(GeneratedView),
}

impl View for ChatEvent {
    type V = ChatEventView;

    open spec fn view(&self) -> ChatEventView {
        match self {
            ChatEvent::Start => ChatEventView::Start,
            ChatEvent::Delta(s) => ChatEventView::Delta(http::opt_text(*s)),
            ChatEvent::Tick => ChatEventView::Tick,
            ChatEvent::End(g) => ChatEventView::End(g@),
        }
    }
}

/// The text that an event brings to be sent on: only Gemini Web tells its answer
/// piece by piece.
pub open spec fn brought(plan: ChatPlan, event: ChatEventView) -> Seq<char> {
    match event {
        ChatEventView::Delta(Some(s)) => if plan.route == GenerationRoute::GeminiWeb {
            s
        } else {
            Seq::empty()
        },
        _ => Seq::empty(),
    }
}

/// Nothing, or the piece of text.
pub open spec fn text_events(plan: ChatPlan, s: Seq<char>) -> Seq<SseView> {
    if s.len() > 0 {
        seq![SseView::Chunk(piece(plan, content_delta(s), None, None))]
    } else {
        Seq::empty()
    }
}

/// What is left to be sent of an answer of which some was sent. Of a failure all is
/// sent.
pub open spec fn rest_of_answer(
    streamed: Seq<char>,
    generated: GeneratedView,
    visible: Seq<char>,
) -> Seq<char> {
    if generated is Text {
        match unsent(streamed, visible) {
            Some(tail) => tail,
            None => Seq::empty(),
        }
    } else {
        visible
    }
}

/// How an answer ends of which some was sent: with what is left of its text, with the
/// calls of tools where Gemini Web gave it, with why it ended and what it counts.
pub open spec fn end_events(
    plan: ChatPlan,
    streamed: Seq<char>,
    generated: GeneratedView,
    processed: ProcessedView,
) -> Seq<SseView> {
    text_events(plan, rest_of_answer(streamed, generated, processed.visible())) + (if plan.route
        == GenerationRoute::GeminiWeb && processed.tool_calls.len() > 0 {
        seq![SseView::Chunk(piece(plan, tools_delta(processed.tool_calls), None, None))]
    } else {
        Seq::empty()
    }) + seq![
        SseView::Chunk(
            piece(
                plan,
                Tree::Object(Seq::empty()),
                Some(processed.finish_reason),
                Some(openai::usage_of(plan.prompt@, processed.storage_text)),
            ),
        ),
        SseView::Done,
    ]
}

/// What is sent when something happens to a request of whose answer some was sent.
pub open spec fn sent_at(plan: ChatPlan, streamed: Seq<char>, event: ChatEventView) -> Seq<
    SseView,
> {
    match event {
        ChatEventView::Start => seq![SseView::Chunk(piece(plan, role_delta(), None, None))],
        ChatEventView::Delta(_) => text_events(plan, brought(plan, event)),
        ChatEventView::Tick => seq![SseView::Comment("keepalive"@)],
        ChatEventView::End(generated) => end_events(
            plan,
            streamed,
            generated,
            openai::processed_output(told_text(plan.route, generated)),
        ),
    }
}

/// What is kept of a request when it ends.
pub open spec fn kept_at(plan: ChatPlan, event: ChatEventView) -> Option<EntryView> {
    match event {
        ChatEventView::End(generated) => Some(
            entry_of(
                chat_kind(plan.route),
                plan.model@,
                asked_text(plan.route, plan.prompt@, plan.latest_user_text@).len() as int,
                generated,
            ),
        ),
        _ => None,
    }
}

/// A request whose answer is told piece by piece, what was sent of the text, and
/// whether more of it may come.
#[derive(Debug)]
pub struct ChatStream {
    pub plan: ChatPlan,
    pub streamed: String,
    pub progress_open: bool,
}

/// What is to be done when something happens to a request: what is sent, and what is
/// kept of the request.
#[derive(Debug)]
pub struct ChatStep {
    pub events: Vec<SseEvent>,
    pub history: Option<HistoryEntry>,
}

/// Appends a piece of text, unless it is empty.
fn push_text(events: &mut Vec<SseEvent>, plan: &ChatPlan, s: &str)
    ensures
        sse_views(final(events)@) == sse_views(old(events)@) + text_events(*plan, s@),
{
    if !s.is_empty() {
        let chunk = make_piece(plan, single_field("content", json::string(s)), None, None);
        events.push(SseEvent::Chunk(chunk));
        assert(sse_views(events@) == sse_views(old(events)@).push(SseView::Chunk(chunk@)));
    }
    assert(sse_views(events@) =~= sse_views(old(events)@) + text_events(*plan, s@));
}

/// How an answer ends of which some was sent, once it is known what comes of it.
pub fn end_of_stream(
    plan: &ChatPlan,
    streamed: &str,
    generated: &Generated,
    processed: &ProcessedOutput,
) -> (r: Vec<SseEvent>)
    ensures
        sse_views(r@) == end_events(*plan, streamed@, generated@, processed@),
{
    let mut events: Vec<SseEvent> = Vec::new();
    let visible = match &processed.visible_text {
        Some(s) => s.clone(),
        None => String::new(),
    };
    let tail = match generated {
        Generated::Text(_) => match stream_tail(streamed, visible.as_str()) {
            Some(tail) => tail.to_owned(),
            None => String::new(),
        },
        _ => visible,
    };
    push_text(&mut events, plan, tail.as_str());
    let ghost first = sse_views(events@);
    assert(first =~= text_events(*plan, tail@));
    if plan.route == GenerationRoute::GeminiWeb && processed.tool_calls.len() > 0 {
        let chunk = make_piece(plan, tools_json(&processed.tool_calls), None, None);
        events.push(SseEvent::Chunk(chunk));
        assert(sse_views(events@) == first.push(SseView::Chunk(chunk@)));
    }
    let ghost second = sse_views(events@);
    let empty = json::object(Vec::new());
    assert(empty@->Object_0 =~= Seq::empty());
    let usage = openai::usage_for(plan.prompt.as_str(), processed.storage_text.as_str());
    let done = make_piece(plan, empty, Some(processed.finish_reason), Some(usage));
    events.push(SseEvent::Chunk(done));
    assert(sse_views(events@) == second.push(SseView::Chunk(done@)));
    events.push(SseEvent::Done);
    assert(sse_views(events@) == second.push(SseView::Chunk(done@)).push(SseView::Done));
    events
}

impl ChatStream {
    /// A request at its beginning.
    pub fn new(plan: ChatPlan) -> (r: ChatStream)
        ensures
            r.plan == plan,
            r.streamed@ == Seq::<char>::empty(),
            r.progress_open,
    {
        ChatStream { plan, streamed: String::new(), progress_open: true }
    }

    /// Takes note of what happens to the request.
    pub fn step(&mut self, event: &ChatEvent) -> (r: ChatStep)
        ensures
            final(self).plan == old(self).plan,
            final(self).streamed@ == old(self).streamed@ + brought(old(self).plan, event@),
            final(self).progress_open == (old(self).progress_open && event@
                != ChatEventView::Delta(None)),
            sse_views(r.events@) == sent_at(old(self).plan, old(self).streamed@, event@),
            history::opt_entry(r.history) == kept_at(old(self).plan, event@),
    {
        let mut events: Vec<SseEvent> = Vec::new();
        assert(sse_views(events@) =~= Seq::empty());
        match event {
            ChatEvent::Start => {
                let role = single_field("role", json::string("assistant"));
                let chunk = make_piece(&self.plan, role, None, None);
                events.push(SseEvent::Chunk(chunk));
                assert(sse_views(events@) =~= seq![SseView::Chunk(chunk@)]);
                assert(self.streamed@ =~= self.streamed@ + Seq::empty());
                ChatStep { events, history: None }
            },
            ChatEvent::Delta(delta) => {
                match delta {
                    Some(s) => {
                        if self.plan.route == GenerationRoute::GeminiWeb {
                            push_text(&mut events, &self.plan, s.as_str());
                            self.streamed.append(s.as_str());
                        }
                    },
                    None => {
                        self.progress_open = false;
                    },
                }
                assert(self.streamed@ =~= old(self).streamed@ + brought(old(self).plan, event@));
                assert(sse_views(events@) =~= text_events(
                    old(self).plan,
                    brought(old(self).plan, event@),
                ));
                ChatStep { events, history: None }
            },
            ChatEvent::Tick => {
                events.push(SseEvent::Comment("keepalive"));
                assert(sse_views(events@) =~= seq![SseView::Comment("keepalive"@)]);
                assert(self.streamed@ =~= self.streamed@ + Seq::empty());
                ChatStep { events, history: None }
            },
            ChatEvent::End(generated) => {
                let output_text = outcome_text(self.plan.route, generated);
                let processed = openai::process_output(output_text.as_str());
                let asked = match self.plan.route {
                    GenerationRoute::ImageTool => self.plan.latest_user_text.as_str(),
                    _ => self.plan.prompt.as_str(),
                };
                let entry = history_entry(
                    chat_kinds(),
                    self.plan.route,
                    self.plan.model.as_str(),
                    asked,
                    generated,
                );
                assert(self.streamed@ =~= self.streamed@ + Seq::empty());
                ChatStep {
                    events: end_of_stream(
                        &self.plan,
                        self.streamed.as_str(),
                        generated,
                        &processed,
                    ),
                    history: Some(entry),
                }
            },
        }
    }
}

/// The text that a piece adds to an answer.
pub open spec fn content_of(event: SseView) -> Seq<char> {
    match event {
        SseView::Chunk(c) => if c.choices.len() > 0 {
            match c.choices[0].delta.get_str("content"@) {
                Some(s) => s,
                None => Seq::empty(),
            }
        } else {
            Seq::empty()
        },
        _ => Seq::empty(),
    }
}

/// The text that pieces add to an answer.
pub open spec fn contents(events: Seq<SseView>) -> Seq<char>
    decreases events.len(),
{
    if events.len() == 0 {
        Seq::empty()
    } else {
        contents(events.drop_last()) + content_of(events.last())
    }
}

/// The text that was sent after a course of events.
pub open spec fn streamed_after(plan: ChatPlan, events: Seq<ChatEventView>) -> Seq<char>
    decreases events.len(),
{
    if events.len() == 0 {
        Seq::empty()
    } else {
        streamed_after(plan, events.drop_last()) + brought(plan, events.last())
    }
}

/// All that is sent in a course of events.
pub open spec fn all_sent(plan: ChatPlan, events: Seq<ChatEventView>) -> Seq<SseView>
    decreases events.len(),
{
    if events.len() == 0 {
        Seq::empty()
    } else {
        all_sent(plan, events.drop_last()) + sent_at(
            plan,
            streamed_after(plan, events.drop_last()),
            events.last(),
        )
    }
}

/// Whether no event of a course is the end.
pub open spec fn goes_on(events: Seq<ChatEventView>) -> bool {
    forall|i: int| 0 <= i < events.len() ==> !(#[trigger] events[i] is End)
}

proof fn lemma_contents_of_both(a: Seq<SseView>, b: Seq<SseView>)
    ensures
        contents(a + b) == contents(a) + contents(b),
    decreases b.len(),
{
    if b.len() == 0 {
        assert(a + b == a);
    } else {
        lemma_contents_of_both(a, b.drop_last());
        assert((a + b).drop_last() == a + b.drop_last());
    }
}

proof fn lemma_content_of_one(event: SseView)
    ensures
        contents(seq![event]) == content_of(event),
{
    assert(seq![event].drop_last() == Seq::<SseView>::empty());
    assert(contents(Seq::<SseView>::empty()) == Seq::<char>::empty());
}

proof fn lemma_content_of_text(plan: ChatPlan, s: Seq<char>)
    ensures
        contents(text_events(plan, s)) == s,
{
    if s.len() > 0 {
        let event = SseView::Chunk(piece(plan, content_delta(s), None, None));
        lemma_content_of_one(event);
        assert(content_delta(s).get_str("content"@) == Some(s));
    } else {
        assert(s == Seq::<char>::empty());
    }
}

proof fn lemma_content_of_end(
    plan: ChatPlan,
    streamed: Seq<char>,
    generated: GeneratedView,
    processed: ProcessedView,
)
    ensures
        contents(end_events(plan, streamed, generated, processed)) == rest_of_answer(
            streamed,
            generated,
            processed.visible(),
        ),
{
    reveal_strlit("content");
    reveal_strlit("tool_calls");
    let rest = rest_of_answer(streamed, generated, processed.visible());
    let calls = SseView::Chunk(piece(plan, tools_delta(processed.tool_calls), None, None));
    let middle = if plan.route == GenerationRoute::GeminiWeb && processed.tool_calls.len() > 0 {
        seq![calls]
    } else {
        Seq::empty()
    };
    let done = SseView::Chunk(
        piece(
            plan,
            Tree::Object(Seq::empty()),
            Some(processed.finish_reason),
            Some(openai::usage_of(plan.prompt@, processed.storage_text)),
        ),
    );
    lemma_content_of_text(plan, rest);
    assert("tool_calls"@.len() != "content"@.len());
    let fields = tools_delta(processed.tool_calls)->Object_0;
    assert(fields.drop_first() == Seq::<json::FieldTree>::empty());
    assert(json::lookup(fields.drop_first(), "content"@) is None);
    assert(json::lookup(fields, "content"@) is None);
    lemma_content_of_one(calls);
    assert(contents(middle) == Seq::<char>::empty());
    assert(seq![done, SseView::Done] == seq![done] + seq![SseView::Done]);
    lemma_contents_of_both(seq![done], seq![SseView::Done]);
    lemma_content_of_one(done);
    lemma_content_of_one(SseView::Done);
    lemma_contents_of_both(text_events(plan, rest), middle);
    lemma_contents_of_both(text_events(plan, rest) + middle, seq![done, SseView::Done]);
    assert(rest + Seq::<char>::empty() == rest);
}

/// As long as a request goes on, the text of the pieces that were sent is the text
/// that came from the model.
pub proof fn law_pieces_are_sent_as_they_come(plan: ChatPlan, events: Seq<ChatEventView>)
    requires
        goes_on(events),
    ensures
        contents(all_sent(plan, events)) == streamed_after(plan, events),
    decreases events.len(),
{
    if events.len() > 0 {
        let earlier = events.drop_last();
        let event = events.last();
        assert(goes_on(earlier)) by {
            assert forall|i: int| 0 <= i < earlier.len() implies !(#[trigger] earlier[i] is End) by {
                assert(!(events[i] is End));
            }
        }
        law_pieces_are_sent_as_they_come(plan, earlier);
        let sent = sent_at(plan, streamed_after(plan, earlier), event);
        lemma_contents_of_both(all_sent(plan, earlier), sent);
        assert(!(events[events.len() - 1] is End));
        match event {
            ChatEventView::Start => {
                reveal_strlit("content");
                reveal_strlit("role");
                assert("role"@.len() != "content"@.len());
                let fields = role_delta()->Object_0;
                assert(fields.drop_first() == Seq::<json::FieldTree>::empty());
                assert(json::lookup(fields.drop_first(), "content"@) is None);
                assert(json::lookup(fields, "content"@) is None);
                lemma_content_of_one(sent[0]);
            },
            ChatEventView::Delta(_) => {
                lemma_content_of_text(plan, brought(plan, event));
            },
            ChatEventView::Tick => {
                lemma_content_of_one(sent[0]);
            },
            ChatEventView::End(_) => {},
        }
        assert(contents(sent) == brought(plan, event));
    }
}

/// A caller who is told an answer piece by piece is told all of it, once: where the
/// text that the caller is to see goes on from the pieces that came from the model,
/// the pieces that are sent add up to that text.
pub proof fn law_pieces_add_up_to_the_answer(
    plan: ChatPlan,
    events: Seq<ChatEventView>,
    answer: Seq<char>,
)
    requires
        goes_on(events),
    ensures
        text::starts_with(
            openai::processed_output(answer).visible(),
            streamed_after(plan, events),
        ) ==> contents(all_sent(plan, events.push(ChatEventView::End(GeneratedView::Text(answer)))))
            == openai::processed_output(answer).visible(),
{
    let end = ChatEventView::End(GeneratedView::Text(answer));
    let streamed = streamed_after(plan, events);
    let visible = openai::processed_output(answer).visible();
    assert(events.push(end).drop_last() == events);
    law_pieces_are_sent_as_they_come(plan, events);
    lemma_contents_of_both(all_sent(plan, events), sent_at(plan, streamed, end));
    lemma_content_of_end(
        plan,
        streamed,
        GeneratedView::Text(answer),
        openai::processed_output(answer),
    );
    if text::starts_with(visible, streamed) {
        assert(visible.subrange(0, streamed.len() as int) == streamed);
        assert(visible =~= streamed + visible.skip(streamed.len() as int));
    }
}

/// A caller who is told an answer piece by piece is told of a failure in full, after
/// what was sent before it.
pub proof fn law_failures_are_told_in_full(
    plan: ChatPlan,
    events: Seq<ChatEventView>,
    generated: GeneratedView,
)
    requires
        goes_on(events),
        !(generated is Text),
    ensures
        contents(all_sent(plan, events.push(ChatEventView::End(generated)))) == streamed_after(
            plan,
            events,
        ) + openai::processed_output(told_text(plan.route, generated)).visible(),
{
    let end = ChatEventView::End(generated);
    assert(events.push(end).drop_last() == events);
    law_pieces_are_sent_as_they_come(plan, events);
    lemma_contents_of_both(
        all_sent(plan, events),
        sent_at(plan, streamed_after(plan, events), end),
    );
    lemma_content_of_end(
        plan,
        streamed_after(plan, events),
        generated,
        openai::processed_output(told_text(plan.route, generated)),
    );
}

/// Whatever becomes of a request, what a caller is sent piece by piece ends with a
/// piece that says why the answer ended and what it counts, and with the end.
pub proof fn law_streams_are_ended(
    plan: ChatPlan,
    events: Seq<ChatEventView>,
    generated: GeneratedView,
)
    ensures
        ({
            let sent = all_sent(plan, events.push(ChatEventView::End(generated)));
            let processed = openai::processed_output(told_text(plan.route, generated));
            &&& sent.len() >= 2
            &&& sent.last() == SseView::Done
            &&& sent[sent.len() - 2] == SseView::Chunk(
                piece(
                    plan,
                    Tree::Object(Seq::empty()),
                    Some(processed.finish_reason),
                    Some(openai::usage_of(plan.prompt@, processed.storage_text)),
                ),
            )
        }),
{
    let end = ChatEventView::End(generated);
    assert(events.push(end).drop_last() == events);
}

/// The answer to a request, as it is told in one piece.
pub open spec fn completion(plan: ChatPlan, processed: ProcessedView) -> CompletionView {
    CompletionView {
        id: plan.id@,
        object: "chat.completion"@,
        created: plan.created as int,
        model: plan.model@,
        choices: seq![
            ChoiceView {
                index: 0,
                message: MessageView {
                    role: "assistant"@,
                    content: processed.visible_text,
                    tool_calls: if processed.tool_calls.len() > 0 {
                        Some(processed.tool_calls)
                    } else {
                        None
                    },
                    reasoning_content: None,
                },
                finish_reason: processed.finish_reason,
            },
        ],
        usage: openai::usage_of(plan.prompt@, processed.storage_text),
    }
}

/// The answer to a request, once it is known what comes of it.
pub fn chat_completion(plan: ChatPlan, processed: ProcessedOutput) -> (r: ChatCompletionResponse)
    ensures
        r@ == completion(plan, processed@),
{
    let usage = openai::usage_for(plan.prompt.as_str(), processed.storage_text.as_str());
    let ghost calls = openai::call_views(processed.tool_calls@);
    let tool_calls = if processed.tool_calls.len() == 0 {
        None
    } else {
        Some(processed.tool_calls)
    };
    let r = ChatCompletionResponse {
        id: plan.id,
        object: "chat.completion",
        created: plan.created,
        model: plan.model,
        choices: vec![
            Choice {
                index: 0,
                message: AssistantMessage {
                    role: "assistant",
                    content: processed.visible_text,
                    tool_calls,
                    reasoning_content: None,
                },
                finish_reason: processed.finish_reason,
            },
        ],
        usage,
    };
    assert(r@.choices =~= completion(plan, processed@).choices);
    r
}

/// What a request is answered with that is not told piece by piece: the text that
/// is told of it, or why it is refused. A failure of the image tool is told, any
/// other is refused.
pub open spec fn chat_output(route: GenerationRoute, generated: GeneratedView) -> Result<
    Seq<char>,
    Seq<char>,
> {
    match generated {
        GeneratedView::Text(s) => Ok(s),
        GeneratedView::PostprocessFailed(detail) => if route == GenerationRoute::ImageTool {
            Ok(images::failure_message(detail))
        } else {
            Err(detail)
        },
        GeneratedView::Failed(detail) => if route == GenerationRoute::ImageTool {
            Ok(images::failure_message(detail))
        } else {
            Err(detail)
        },
    }
}

/// Whether something is kept of a request: of one whose answer could not be made ready
/// nothing is, unless the image tool made it.
pub open spec fn is_kept(route: GenerationRoute, generated: GeneratedView) -> bool {
    route == GenerationRoute::ImageTool || !(generated is PostprocessFailed)
}

/// The answer to a request for a chat completion, and what is kept of it.
#[derive(Debug)]
pub struct ChatAnswer {
    pub result: Result<ChatCompletionResponse, ApiError>,
    pub history: Option<HistoryEntry>,
}

/// Answers a request for a chat completion in one piece.
pub fn answer_chat(plan: ChatPlan, generated: &Generated) -> (r: ChatAnswer)
    ensures
        match chat_output(plan.route, generated@) {
            Ok(output) => r.result matches Ok(answer) && answer@ == completion(
                plan,
                openai::processed_output(output),
            ),
            Err(detail) => r.result matches Err(e) && e.says(502, detail),
        },
        history::opt_entry(r.history) == if is_kept(plan.route, generated@) {
            kept_at(plan, ChatEventView::End(generated@))
        } else {
            None
        },
{
    let image_tool = plan.route == GenerationRoute::ImageTool;
    let asked = if image_tool {
        plan.latest_user_text.as_str()
    } else {
        plan.prompt.as_str()
    };
    let entry = history_entry(chat_kinds(), plan.route, plan.model.as_str(), asked, generated);
    let output = match generated {
        Generated::Text(s) => s.clone(),
        Generated::PostprocessFailed(detail) => {
            if !image_tool {
                return ChatAnswer {
                    result: Err(ApiError::bad_gateway(detail.as_str())),
                    history: None,
                };
            }
            images::image_tool_failure_message(detail.as_str())
        },
        Generated::Failed(detail) => {
            if !image_tool {
                return ChatAnswer {
                    result: Err(ApiError::bad_gateway(detail.as_str())),
                    history: Some(entry),
                };
            }
            images::image_tool_failure_message(detail.as_str())
        },
    };
    let processed = openai::process_output(output.as_str());
    ChatAnswer { result: Ok(chat_completion(plan, processed)), history: Some(entry) }
}

/// After how many seconds a caller who is told the answer piece by piece is told that the
/// connection is alive.
pub fn heartbeat_secs(route: GenerationRoute) -> (r: u64)
    ensures
        r == if route == GenerationRoute::GeminiWeb {
            3int
        } else {
            5int
        },
{
    match route {
        GenerationRoute::GeminiWeb => 3,
        _ => 5,
    }
}

/// All the text that comes from the model in a course of events.
pub open spec fn text_that_came(events: Seq<ChatEventView>) -> Seq<char>
    decreases events.len(),
{
    if events.len() == 0 {
        Seq::empty()
    } else if events.last() is Delta && events.last()->Delta_0 is Some {
        text_that_came(events.drop_last()) + events.last()->Delta_0->Some_0
    } else {
        text_that_came(events.drop_last())
    }
}

proof fn lemma_streamed_is_what_came(plan: ChatPlan, events: Seq<ChatEventView>)
    ensures
        plan.route == GenerationRoute::GeminiWeb ==> streamed_after(plan, events)
            == text_that_came(events),
        plan.route != GenerationRoute::GeminiWeb ==> streamed_after(plan, events)
            == Seq::<char>::empty(),
    decreases events.len(),
{
    if events.len() > 0 {
        lemma_streamed_is_what_came(plan, events.drop_last());
        assert(streamed_after(plan, events.drop_last()) + Seq::<char>::empty() =~= streamed_after(
            plan,
            events.drop_last(),
        ));
    }
}

/// All text that Gemini Web gives is sent on, in its order, whatever it holds and however it
/// is cut into pieces, and nothing else is; no other way to answer sends anything before the
/// end.
pub proof fn law_text_of_the_model_is_sent_on(plan: ChatPlan, events: Seq<ChatEventView>)
    requires
        goes_on(events),
    ensures
        plan.route == GenerationRoute::GeminiWeb ==> contents(all_sent(plan, events))
            == text_that_came(events),
        plan.route != GenerationRoute::GeminiWeb ==> contents(all_sent(plan, events))
            == Seq::<char>::empty(),
{
    law_pieces_are_sent_as_they_come(plan, events);
    lemma_streamed_is_what_came(plan, events);
}

/// A piece of text from Gemini Web is sent at once, as one piece that holds it and nothing
/// else; an empty one is not sent.
pub proof fn law_pieces_are_sent_one_by_one(plan: ChatPlan, streamed: Seq<char>, s: Seq<char>)
    requires
        plan.route == GenerationRoute::GeminiWeb,
    ensures
        ({
            let sent = sent_at(plan, streamed, ChatEventView::Delta(Some(s)));
            &&& s.len() == 0 ==> sent.len() == 0
            &&& s.len() > 0 ==> {
                &&& sent.len() == 1
                &&& sent[0] is Chunk
                &&& sent[0]->Chunk_0.choices.len() == 1
                &&& sent[0]->Chunk_0.choices[0].delta.get_str("content"@) == Some(s)
                &&& sent[0]->Chunk_0.choices[0].finish_reason is None
            }
        }),
{
    json::law_fields_are_found_by_name(content_delta(s)->Object_0, 0);
}

/// A caller who is told an answer piece by piece reads the answer: where the answer goes on
/// from the pieces that came before it and asks for no calls of tools, the pieces add up to
/// the answer.
pub proof fn law_callers_read_the_answer(
    plan: ChatPlan,
    events: Seq<ChatEventView>,
    answer: Seq<char>,
)
    requires
        goes_on(events),
        plan.route == GenerationRoute::GeminiWeb ==> text::starts_with(
            answer,
            text_that_came(events),
        ),
        json::parsed(text::trim(answer)) matches Some(tree) ==> !(tree.get(
            "tool_calls"@,
        ) matches Some(Tree::Array(_))),
    ensures
        contents(all_sent(plan, events.push(ChatEventView::End(GeneratedView::Text(answer)))))
            == answer,
{
    lemma_streamed_is_what_came(plan, events);
    openai::law_plain_answers_are_shown_word_for_word(answer);
    law_pieces_add_up_to_the_answer(plan, events, answer);
    assert(answer.subrange(0, 0) =~= Seq::<char>::empty());
}

/// A caller who was told pieces of the text to see reads all of that text in the end.
pub proof fn law_callers_read_what_is_to_be_seen(
    plan: ChatPlan,
    events: Seq<ChatEventView>,
    answer: Seq<char>,
)
    requires
        goes_on(events),
        plan.route == GenerationRoute::GeminiWeb,
        text::starts_with(openai::processed_output(answer).visible(), text_that_came(events)),
    ensures
        contents(all_sent(plan, events.push(ChatEventView::End(GeneratedView::Text(answer)))))
            == openai::processed_output(answer).visible(),
{
    lemma_streamed_is_what_came(plan, events);
    law_pieces_add_up_to_the_answer(plan, events, answer);
}

/// The rest of a text is what stands behind that which was sent of it; of a text that does not
/// go on from what was sent, or of which all was sent, there is none.
pub proof fn law_the_rest_goes_on_from_what_was_sent(
    streamed: Seq<char>,
    tail: Seq<char>,
    other: Seq<char>,
)
    ensures
        tail.len() > 0 ==> unsent(streamed, streamed + tail) == Some(tail),
        unsent(streamed, streamed) is None,
        (forall|b: Seq<char>| #![auto] other != streamed + b) ==> unsent(streamed, other) is None,
{
    assert((streamed + tail).subrange(0, streamed.len() as int) =~= streamed);
    assert((streamed + tail).skip(streamed.len() as int) =~= tail);
    text::law_only_parts_of_a_text_are_found(other, streamed);
}

/// A failure is told by what was asked and why it failed.
pub proof fn law_failures_say_what_failed(detail: Seq<char>)
    ensures
        told_text(GenerationRoute::GeminiWeb, GeneratedView::Failed(detail))
            == "Gemini request failed: "@ + detail,
        told_text(GenerationRoute::GeminiWeb, GeneratedView::PostprocessFailed(detail))
            == "Gemini response postprocess failed: "@ + detail,
        told_text(GenerationRoute::VisionWorker, GeneratedView::Failed(detail))
            == "Gemini vision worker failed: "@ + detail,
        told_text(GenerationRoute::VisionWorker, GeneratedView::PostprocessFailed(detail))
            == "Gemini vision worker failed: "@ + detail,
        told_text(GenerationRoute::ImageTool, GeneratedView::Failed(detail))
            == "Image generation failed: "@ + detail,
        told_text(GenerationRoute::ImageTool, GeneratedView::PostprocessFailed(detail))
            == "Image generation failed: "@ + detail,
{
}

/// A caller reads why an answer failed, behind what was sent before, where that asks for no
/// calls of tools.
pub proof fn law_callers_read_why_it_failed(
    plan: ChatPlan,
    events: Seq<ChatEventView>,
    detail: Seq<char>,
)
    requires
        goes_on(events),
        plan.route == GenerationRoute::GeminiWeb,
        json::parsed(text::trim("Gemini request failed: "@ + detail)) is None,
    ensures
        contents(all_sent(plan, events.push(ChatEventView::End(GeneratedView::Failed(detail)))))
            == text_that_came(events) + ("Gemini request failed: "@ + detail),
{
    lemma_streamed_is_what_came(plan, events);
    law_failures_are_told_in_full(plan, events, GeneratedView::Failed(detail));
    openai::law_plain_answers_are_shown_word_for_word("Gemini request failed: "@ + detail);
}

/// Whether a piece belongs to the answer to a request.
pub open spec fn belongs_to(event: SseView, plan: ChatPlan) -> bool {
    match event {
        SseView::Chunk(c) => {
            &&& c.id == plan.id@
            &&& c.object == "chat.completion.chunk"@
            &&& c.created == plan.created as int
            &&& c.model == plan.model@
            &&& c.choices.len() == 1
            &&& c.choices[0].index == 0
        },
        _ => true,
    }
}

/// All pieces of an answer go by the name, the time and the model of its request.
pub proof fn law_pieces_belong_to_their_request(
    plan: ChatPlan,
    events: Seq<ChatEventView>,
    i: int,
)
    requires
        0 <= i < all_sent(plan, events).len(),
    ensures
        belongs_to(all_sent(plan, events)[i], plan),
    decreases events.len(),
{
    if events.len() > 0 {
        let earlier = all_sent(plan, events.drop_last());
        if i < earlier.len() {
            law_pieces_belong_to_their_request(plan, events.drop_last(), i);
        }
    }
}

/// An answer that is told piece by piece begins with a piece that says that the model speaks,
/// and time that passes is bridged by a remark.
pub proof fn law_streams_begin_with_the_role(plan: ChatPlan, streamed: Seq<char>)
    ensures
        sent_at(plan, streamed, ChatEventView::Start).len() == 1,
        sent_at(plan, streamed, ChatEventView::Start)[0] is Chunk,
        sent_at(plan, streamed, ChatEventView::Start)[0]->Chunk_0.choices[0].delta.get_str(
            "role"@,
        ) == Some("assistant"@),
        sent_at(plan, streamed, ChatEventView::Tick) == seq![SseView::Comment("keepalive"@)],
        sent_at(plan, streamed, ChatEventView::Delta(None)).len() == 0,
{
    json::law_fields_are_found_by_name(role_delta()->Object_0, 0);
}

/// The calls of tools that an answer of Gemini Web asks for are sent, each in its place, with
/// its name and what is to be called.
pub proof fn law_calls_of_tools_are_sent(
    plan: ChatPlan,
    streamed: Seq<char>,
    answer: Seq<char>,
    i: int,
)
    requires
        plan.route == GenerationRoute::GeminiWeb,
        0 <= i < openai::processed_output(answer).tool_calls.len(),
    ensures
        ({
            let sent = sent_at(plan, streamed, ChatEventView::End(GeneratedView::Text(answer)));
            let call = openai::processed_output(answer).tool_calls[i];
            &&& sent[0] is Chunk
            &&& sent[0]->Chunk_0.choices[0].delta.get("tool_calls"@) matches Some(list)
            &&& list.item(i) matches Some(told)
            &&& told.get_str("id"@) == Some(call.id)
            &&& told.get_str("type"@) == Some(call.kind)
            &&& told.get("function"@) == Some(call.function)
            &&& told.get("index"@) == Some(json::int_tree(i))
        }),
{
    let processed = openai::processed_output(answer);
    let sent = sent_at(plan, streamed, ChatEventView::End(GeneratedView::Text(answer)));
    assert(processed.visible() == Seq::<char>::empty());
    assert(rest_of_answer(streamed, GeneratedView::Text(answer), processed.visible()).len() == 0);
    let delta = tools_delta(processed.tool_calls);
    json::law_fields_are_found_by_name(delta->Object_0, 0);
    assert(sent[0] == SseView::Chunk(piece(plan, delta, None, None)));
    let tree = call_delta(processed.tool_calls[i], i);
    reveal_strlit("function");
    reveal_strlit("id");
    reveal_strlit("index");
    reveal_strlit("type");
    assert("function"@.len() != "id"@.len());
    assert("function"@.len() != "index"@.len());
    assert("id"@.len() != "index"@.len());
    assert("function"@.len() != "type"@.len());
    assert("id"@.len() != "type"@.len());
    assert("index"@.len() != "type"@.len());
    json::law_fields_are_found_by_name(tree->Object_0, 0);
    json::law_fields_are_found_by_name(tree->Object_0, 1);
    json::law_fields_are_found_by_name(tree->Object_0, 2);
    json::law_fields_are_found_by_name(tree->Object_0, 3);
}

/// What ends an answer that is told piece by piece says why it ended: it stops, or it asks for
/// calls of tools; and it counts the prompt and the answer.
pub proof fn law_ends_say_why(plan: ChatPlan, streamed: Seq<char>, answer: Seq<char>)
    ensures
        ({
            let sent = sent_at(plan, streamed, ChatEventView::End(GeneratedView::Text(answer)));
            let calls = openai::processed_output(answer).tool_calls.len();
            &&& sent.last() == SseView::Done
            &&& sent[sent.len() - 2] is Chunk
            &&& sent[sent.len() - 2]->Chunk_0.choices[0].finish_reason == Some(
                if calls > 0 {
                    "tool_calls"@
                } else {
                    "stop"@
                },
            )
            &&& sent[sent.len() - 2]->Chunk_0.usage matches Some(usage)
            &&& plan.prompt@.len() <= 4 * usage.prompt_tokens < plan.prompt@.len() + 4
            &&& answer.len() <= 4 * usage.completion_tokens < answer.len() + 4
            &&& usage.total_tokens == usage.prompt_tokens + usage.completion_tokens
        }),
{
    openai::law_answers_are_shown_or_call_tools(answer);
    openai::law_usage_adds_up(plan.prompt@, answer);
}

/// An answer that is told in one piece holds what the model said, word for word, where it asks
/// for no calls of tools, under the name and the model of its request.
pub proof fn law_whole_answers_hold_what_was_said(plan: ChatPlan, answer: Seq<char>)
    requires
        json::parsed(text::trim(answer)) matches Some(tree) ==> !(tree.get(
            "tool_calls"@,
        ) matches Some(Tree::Array(_))),
    ensures
        chat_output(plan.route, GeneratedView::Text(answer)) == Ok::<Seq<char>, Seq<char>>(answer),
        ({
            let told = completion(plan, openai::processed_output(answer));
            &&& told.id == plan.id@
            &&& told.object == "chat.completion"@
            &&& told.created == plan.created as int
            &&& told.model == plan.model@
            &&& told.choices.len() == 1
            &&& told.choices[0].index == 0
            &&& told.choices[0].message.role == "assistant"@
            &&& told.choices[0].message.content == Some(answer)
            &&& told.choices[0].message.tool_calls is None
            &&& told.choices[0].finish_reason == "stop"@
            &&& plan.prompt@.len() <= 4 * told.usage.prompt_tokens < plan.prompt@.len() + 4
            &&& answer.len() <= 4 * told.usage.completion_tokens < answer.len() + 4
        }),
{
    openai::law_plain_answers_are_shown_word_for_word(answer);
    openai::law_usage_adds_up(plan.prompt@, answer);
}

/// An answer that asks for calls of tools hands them to the caller, all of them and in their
/// order.
pub proof fn law_whole_answers_hand_out_the_calls(plan: ChatPlan, answer: Seq<char>)
    requires
        openai::processed_output(answer).tool_calls.len() > 0,
    ensures
        ({
            let told = completion(plan, openai::processed_output(answer));
            &&& told.choices[0].message.content is None
            &&& told.choices[0].message.tool_calls == Some(
                openai::processed_output(answer).tool_calls,
            )
            &&& told.choices[0].finish_reason == "tool_calls"@
        }),
{
}

/// A failure is refused with what went wrong, but one of the image tool is told as an answer.
pub proof fn law_failures_are_refused_or_told(detail: Seq<char>)
    ensures
        chat_output(GenerationRoute::GeminiWeb, GeneratedView::Failed(detail)) == Err::<
            Seq<char>,
            Seq<char>,
        >(detail),
        chat_output(GenerationRoute::VisionWorker, GeneratedView::Failed(detail)) == Err::<
            Seq<char>,
            Seq<char>,
        >(detail),
        chat_output(GenerationRoute::GeminiWeb, GeneratedView::PostprocessFailed(detail)) == Err::<
            Seq<char>,
            Seq<char>,
        >(detail),
        chat_output(GenerationRoute::ImageTool, GeneratedView::Failed(detail)) is Ok,
        chat_output(GenerationRoute::ImageTool, GeneratedView::PostprocessFailed(detail)) is Ok,
{
}

/// A prompt holds all of the conversation, then what the request asks beyond it, if anything,
/// then, where the gateway makes no pictures and none came with the request, what the model is
/// told of pictures.
pub proof fn law_prompts_hold_what_belongs_to_them(
    prompt: Seq<char>,
    extra: Seq<char>,
    has_attachments: bool,
)
    ensures
        full_prompt(prompt, Seq::empty(), true, has_attachments) == prompt,
        extra.len() > 0 ==> full_prompt(prompt, extra, true, has_attachments) == prompt + "\n\n"@
            + "[system]"@ + "\n"@ + extra,
        full_prompt(prompt, extra, false, true) == full_prompt(prompt, extra, true, true),
        full_prompt(prompt, extra, false, false) == full_prompt(prompt, extra, true, false)
            + "\n\n"@ + "[system]"@ + "\n"@ + "This API bridge is text-only. Image creation/search/browsing tools are disabled. Never call or mention image creation availability, sign-in status, region availability, or image search. If the user talks about drawing, UI mockups, pictures, or images, answer as normal text. If the user explicitly asks you to create/generate/draw an image, say briefly that this endpoint only supports text and offer a text prompt, layout spec, or implementation plan instead."@,
{
    reveal_strlit("\n\n[system]\n");
    reveal_strlit("\n\n");
    reveal_strlit("[system]");
    reveal_strlit("\n");
    assert("\n\n[system]\n"@ =~= "\n\n"@ + "[system]"@ + "\n"@);
    assert(prompt + "\n\n[system]\n"@ + extra =~= prompt + "\n\n"@ + "[system]"@ + "\n"@ + extra);
    let told = full_prompt(prompt, extra, true, false);
    assert(told + "\n\n[system]\n"@ + text_only_guard() =~= told + "\n\n"@ + "[system]"@ + "\n"@
        + text_only_guard());
}

/// The model is asked all that a request says, whatever is told behind it.
pub proof fn law_requests_are_asked_in_full(
    request: ChatCompletionRequest,
    image_generation_enabled: bool,
    has_attachments: bool,
)
    ensures
        text::starts_with(
            chat_prompt(request, image_generation_enabled, has_attachments),
            openai::conversation(request.messages@),
        ),
        text::contains(
            chat_prompt(request, image_generation_enabled, has_attachments),
            openai::extra_instructions(
                json::opt_tree(request.response_format),
                openai::opt_trees(request.tools),
                json::opt_tree(request.tool_choice),
            ),
        ),
{
    let prompt = openai::conversation(request.messages@);
    let extra = openai::extra_instructions(
        json::opt_tree(request.response_format),
        openai::opt_trees(request.tools),
        json::opt_tree(request.tool_choice),
    );
    let all = chat_prompt(request, image_generation_enabled, has_attachments);
    assert(all.subrange(0, prompt.len() as int) =~= prompt);
    if extra.len() > 0 {
        let at = (prompt + "\n\n[system]\n"@).len() as int;
        assert(all.subrange(at, at + extra.len()) =~= extra);
        assert(text::occurs_at(all, extra, at));
    } else {
        assert(all.subrange(0, 0) =~= extra);
        assert(text::occurs_at(all, extra, 0));
    }
}

/// What is kept of a request says how it was answered: an answer with its length and without
/// an error, a failure with its reason and without a length.
pub proof fn law_records_say_how_it_went(
    kind: Seq<char>,
    model: Seq<char>,
    prompt_chars: int,
    s: Seq<char>,
)
    ensures
        ({
            let entry = entry_of(kind, model, prompt_chars, GeneratedView::Text(s));
            &&& entry.kind == kind && entry.model == model && entry.prompt_chars == prompt_chars
            &&& entry.ok && entry.error is None && entry.output_chars == s.len()
        }),
        ({
            let entry = entry_of(kind, model, prompt_chars, GeneratedView::Failed(s));
            &&& entry.kind == kind && entry.model == model && entry.prompt_chars == prompt_chars
            &&& !entry.ok && entry.error == Some(s) && entry.output_chars == 0
        }),
        entry_of(kind, model, prompt_chars, GeneratedView::PostprocessFailed(s)) == entry_of(
            kind,
            model,
            prompt_chars,
            GeneratedView::Failed(s),
        ),
{
}

/// A request is recorded once, when it ends, under the name of the way it was answered and
/// with the length of what was asked.
pub proof fn law_requests_are_recorded_when_they_end(plan: ChatPlan, generated: GeneratedView)
    ensures
        kept_at(plan, ChatEventView::Start) is None,
        kept_at(plan, ChatEventView::Tick) is None,
        kept_at(plan, ChatEventView::Delta(None)) is None,
        kept_at(plan, ChatEventView::End(generated)) matches Some(entry) && {
            &&& entry.model == plan.model@
            &&& entry.ok <==> generated is Text
            &&& plan.route == GenerationRoute::GeminiWeb ==> entry.kind == "chat.completions"@
                && entry.prompt_chars == plan.prompt@.len()
            &&& plan.route == GenerationRoute::VisionWorker ==> entry.kind
                == "chat.completions.vision_worker"@ && entry.prompt_chars == plan.prompt@.len()
            &&& plan.route == GenerationRoute::ImageTool ==> entry.kind
                == "chat.completions.image_tool"@ && entry.prompt_chars
                == plan.latest_user_text@.len()
        },
{
}

/// A caller is told the answer piece by piece where it asks for that, and only there.
pub proof fn law_streams_are_asked_for(stream: Option<bool>)
    ensures
        streams(stream) <==> stream is Some && stream->Some_0,
{
}

/// A plan that is for a request asks its model what it says, goes by its name in the log, and
/// takes the way that its latest message asks for.
pub proof fn law_plans_are_for_their_requests(
    plan: ChatPlan,
    config: Config,
    vision_worker_enabled: bool,
    headers: Seq<RequestHeader>,
    request: ChatCompletionRequest,
    has_attachments: bool,
)
    requires
        plan.is_for(config, vision_worker_enabled, headers, request, has_attachments),
    ensures
        text::starts_with(plan.id@, "chatcmpl-"@),
        plan.id@.len() == 45,
        plan.created >= 0,
        plan.model@ == request.model@,
        plan.trace_id@ == http::trace_id(headers),
        plan.latest_user_text@ == openai::latest_user_text(request.messages@),
        plan.stream <==> request.stream == Some(true),
        text::starts_with(plan.prompt@, openai::conversation(request.messages@)),
        plan.route == routing::route(
            config.image_generation.backend@ != "disabled"@,
            vision_worker_enabled,
            has_attachments,
            openai::latest_user_text(request.messages@),
        ),
{
    let enabled = config.image_generation.enabled();
    law_requests_are_asked_in_full(request, enabled, has_attachments);
    let uuid = choose|uuid: Seq<char>| #[trigger] ids::is_uuid(uuid) && plan.id@ == "chatcmpl-"@
        + uuid;
    reveal_strlit("chatcmpl-");
    text::law_parts_of_a_text_are_found(Seq::empty(), "chatcmpl-"@, uuid);
}

} // verus!
