//! Making pictures: which service is asked, what becomes of its answer, and what is
//! told where one fails.
use crate::config::Config;
use crate::digest;
use crate::history;
use crate::history::HistoryEntry;
use crate::http;
use crate::http::{ApiError, RequestHeader};
use crate::ids;
use crate::images;
use crate::json;
use crate::json::{Json, Tree};
use crate::routing;
use crate::text;
use vstd::prelude::*;

verus! {

/// A request for pictures.
#[derive(Debug)]
pub struct ImageGenerationRequest {
    pub model: Option<String>,
    pub prompt: String,
    pub n: Option<u64>,
    pub size: Option<String>,
    pub quality: Option<String>,
    pub response_format: Option<String>,
    pub output_format: Option<String>,
    pub user: Option<String>,
}

/// The services that make pictures: Gemini Web, Gemini Web and where that fails the
/// configured one, or the configured one alone.
#[derive(Debug, Clone, Copy, PartialEq, Eq, Structural)]
pub enum Backend {
    Web,
    Auto,
    Configured,
}

/// The services that a configured name stands for.
pub open spec fn backend_of(name: Seq<char>) -> Backend {
    if name == "gemini_web"@ || name == "web"@ || name == "free_web"@ {
        Backend::Web
    } else if name == "auto"@ {
        Backend::Auto
    } else {
        Backend::Configured
    }
}

/// The services that a configured name stands for.
pub fn image_backend(name: &str) -> (r: Backend)
    ensures
        r == backend_of(name@),
{
    if text::same(name, "gemini_web") || text::same(name, "web") || text::same(name, "free_web") {
        Backend::Web
    } else if text::same(name, "auto") {
        Backend::Auto
    } else {
        Backend::Configured
    }
}

/// How many pictures are asked for: one where the request does not say, and at most four.
pub open spec fn picture_count(n: Option<u64>) -> int {
    match n {
        Some(k) => if k < 1 {
            1
        } else if k > 4 {
            4
        } else {
            k as int
        },
        None => 1,
    }
}

/// What Gemini Web is asked for a request.
pub open spec fn web_prompt(prompt: Seq<char>, n: Option<u64>) -> Seq<char> {
    if picture_count(n) > 1 {
        "请生成 "@ + text::decimal(picture_count(n) as nat) + " 张图片："@ + text::trim(prompt)
    } else {
        text::trim(prompt)
    }
}

/// What Gemini Web is asked for a request.
pub fn web_image_prompt(prompt: &str, n: Option<u64>) -> (r: String)
    ensures
        r@ == web_prompt(prompt@, n),
{
    let count: u64 = match n {
        Some(k) => if k < 1 {
            1
        } else if k > 4 {
            4
        } else {
            k
        },
        None => 1,
    };
    let trimmed = text::trimmed(prompt);
    if count > 1 {
        let mut out = "请生成 ".to_owned();
        out.append(text::decimal_text(count).as_str());
        out.append(" 张图片：");
        out.append(trimmed.as_str());
        out
    } else {
        trimmed
    }
}

/// What is told where Gemini Web made no picture: what it said instead, if anything.
pub open spec fn no_images(said: Seq<char>) -> Seq<char> {
    if text::trim(said).len() == 0 {
        "Gemini Web returned no generated images"@
    } else {
        "Gemini Web returned no generated images: "@ + text::trim(said)
    }
}

/// What is told where Gemini Web made no picture.
pub fn no_images_message(said: &str) -> (r: String)
    ensures
        r@ == no_images(said@),
{
    let refusal = text::trimmed(said);
    if refusal.as_str().is_empty() {
        "Gemini Web returned no generated images".to_owned()
    } else {
        let mut out = "Gemini Web returned no generated images: ".to_owned();
        out.append(refusal.as_str());
        out
    }
}

/// What stands behind the dot in the name of the file of a picture of that kind.
pub open spec fn ext_of(mime: Seq<char>) -> Seq<char> {
    if mime == "image/jpeg"@ || mime == "image/jpg"@ {
        "jpg"@
    } else if mime == "image/webp"@ {
        "webp"@
    } else if mime == "image/gif"@ {
        "gif"@
    } else {
        "png"@
    }
}

pub fn image_ext(mime: &str) -> (r: &'static str)
    ensures
        r@ == ext_of(mime@),
{
    if text::same(mime, "image/jpeg") || text::same(mime, "image/jpg") {
        "jpg"
    } else if text::same(mime, "image/webp") {
        "webp"
    } else if text::same(mime, "image/gif") {
        "gif"
    } else {
        "png"
    }
}

/// The name of the file of a picture: by the digest of its data, so that the same
/// picture has the same name.
pub open spec fn generated_name(data: Seq<u8>, ext: Seq<char>) -> Seq<char> {
    "generated_"@ + digest::sha256_hex(data).take(24) + "."@ + ext
}

/// The name of the file of a picture.
pub fn generated_filename(data: &[u8], ext: &str) -> (r: String)
    ensures
        r@ == generated_name(data@, ext@),
{
    let mut out = "generated_".to_owned();
    out.append(digest::short_digest(data, 24).as_str());
    out.append(".");
    out.append(ext);
    out
}

/// A picture that was saved under a name: its data in base64, and the prompt by which
/// its service says to have made it.
#[derive(Debug)]
pub struct SavedImage {
    pub filename: String,
    pub b64_json: String,
    pub revised_prompt: Option<String>,
}

/// What is said of a picture that was saved.
#[verifier::ext_equal]
pub struct SavedView {
    pub filename: Seq<char>,
    pub b64_json: Seq<char>,
    pub revised_prompt: Option<Seq<char>>,
}

impl View for SavedImage {
    type V = SavedView;

    open spec fn view(&self) -> SavedView {
        SavedView {
            filename: self.filename@,
            b64_json: self.b64_json@,
            revised_prompt: http::opt_text(self.revised_prompt),
        }
    }
}

/// What is said of the pictures of a list.
pub open spec fn saved_views(list: Seq<SavedImage>) -> Seq<SavedView> {
    list.map_values(|s: SavedImage| s@)
}

/// The names of the pictures of a list.
pub open spec fn names(list: Seq<SavedImage>) -> Seq<Seq<char>> {
    list.map_values(|s: SavedImage| s.filename@)
}

/// The names of the pictures of a list.
fn filenames(list: &Vec<SavedImage>) -> (r: Vec<String>)
    ensures
        text::views(r@) == names(list@),
{
    let mut out: Vec<String> = Vec::new();
    let mut i: usize = 0;
    while i < list.len()
        invariant
            i <= list@.len(),
            text::views(out@) == names(list@).take(i as int),
        decreases list@.len() - i,
    {
        let ghost earlier = out@;
        let next = list[i].filename.clone();
        out.push(next);
        assert(text::views(out@) == text::views(earlier).push(next@));
        i = i + 1;
    }
    assert(names(list@).take(i as int) == names(list@));
    out
}

/// A picture as the caller gets it: by a link, or by its data in base64.
#[derive(Debug)]
pub struct ImageData {
    pub b64_json: Option<String>,
    pub url: Option<String>,
    pub revised_prompt: Option<String>,
}

/// A picture as the caller gets it.
#[verifier::ext_equal]
pub struct ImageDataView {
    pub b64_json: Option<Seq<char>>,
    pub url: Option<Seq<char>>,
    pub revised_prompt: Option<Seq<char>>,
}

impl View for ImageData {
    type V = ImageDataView;

    open spec fn view(&self) -> ImageDataView {
        ImageDataView {
            b64_json: http::opt_text(self.b64_json),
            url: http::opt_text(self.url),
            revised_prompt: http::opt_text(self.revised_prompt),
        }
    }
}

/// The pictures of a list, as the caller gets them.
pub open spec fn data_views(list: Seq<ImageData>) -> Seq<ImageDataView> {
    list.map_values(|d: ImageData| d@)
}

/// A saved picture as the caller gets it: by a link where the gateway has an address
/// for its pictures, else by its data.
pub open spec fn handed_out(
    base_url: Option<Seq<char>>,
    api_key: Option<Seq<char>>,
    image: SavedView,
) -> ImageDataView {
    match base_url {
        Some(base) => ImageDataView {
            b64_json: None,
            url: Some(images::image_url(Some(base), image.filename, api_key)),
            revised_prompt: image.revised_prompt,
        },
        None => ImageDataView {
            b64_json: Some(image.b64_json),
            url: None,
            revised_prompt: image.revised_prompt,
        },
    }
}

/// Saved pictures as the caller gets them.
pub open spec fn all_handed_out(
    base_url: Option<Seq<char>>,
    api_key: Option<Seq<char>>,
    list: Seq<SavedView>,
) -> Seq<ImageDataView> {
    list.map_values(|s: SavedView| handed_out(base_url, api_key, s))
}

/// A saved picture as the caller gets it.
pub fn image_data(base_url: Option<&str>, api_key: Option<&str>, image: &SavedImage) -> (r: ImageData)
    ensures
        r@ == handed_out(http::opt_str(base_url), http::opt_str(api_key), image@),
{
    let revised_prompt = match &image.revised_prompt {
        Some(s) => Some(s.clone()),
        None => None,
    };
    match base_url {
        Some(base) => ImageData {
            b64_json: None,
            url: Some(images::url_of_image(Some(base), image.filename.as_str(), api_key)),
            revised_prompt,
        },
        None => ImageData { b64_json: Some(image.b64_json.clone()), url: None, revised_prompt },
    }
}

/// Saved pictures as the caller gets them.
pub fn images_data(base_url: Option<&str>, api_key: Option<&str>, list: &Vec<SavedImage>) -> (r: Vec<
    ImageData,
>)
    ensures
        data_views(r@) == all_handed_out(
            http::opt_str(base_url),
            http::opt_str(api_key),
            saved_views(list@),
        ),
{
    let ghost wanted = all_handed_out(
        http::opt_str(base_url),
        http::opt_str(api_key),
        saved_views(list@),
    );
    let mut out: Vec<ImageData> = Vec::new();
    let mut i: usize = 0;
    while i < list.len()
        invariant
            i <= list@.len(),
            wanted == all_handed_out(
                http::opt_str(base_url),
                http::opt_str(api_key),
                saved_views(list@),
            ),
            data_views(out@) == wanted.take(i as int),
        decreases list@.len() - i,
    {
        let ghost earlier = out@;
        let next = image_data(base_url, api_key, &list[i]);
        out.push(next);
        assert(data_views(out@) == data_views(earlier).push(next@));
        i = i + 1;
    }
    assert(wanted.take(i as int) == wanted);
    out
}

/// The parts of a JSON text that stands for nothing where there is none.
pub open spec fn opt_str_tree(value: Option<Seq<char>>) -> Option<Tree> {
    match value {
        Some(s) => Some(json::str_tree(s)),
        None => None,
    }
}

/// A picture as the caller gets it, as JSON.
pub open spec fn data_tree(data: ImageDataView) -> Tree {
    Tree::Object(
        json::opt_field("b64_json"@, opt_str_tree(data.b64_json)) + json::opt_field(
            "url"@,
            opt_str_tree(data.url),
        ) + json::opt_field("revised_prompt"@, opt_str_tree(data.revised_prompt)),
    )
}

impl ImageData {
    pub fn to_json(&self) -> (r: Json)
        ensures
            r@ == data_tree(self@),
    {
        let mut fields: Vec<json::Field> = Vec::new();
        if let Some(s) = &self.b64_json {
            fields.push(json::field("b64_json", json::string(s.as_str())));
        }
        if let Some(s) = &self.url {
            fields.push(json::field("url", json::string(s.as_str())));
        }
        if let Some(s) = &self.revised_prompt {
            fields.push(json::field("revised_prompt", json::string(s.as_str())));
        }
        assert(json::field_trees(fields@) =~= data_tree(self@)->Object_0);
        json::object(fields)
    }
}

/// The answer to a request for pictures.
#[derive(Debug)]
pub struct ImageGenerationResponse {
    pub created: i64,
    pub data: Vec<ImageData>,
}

/// The answer to a request for pictures, as JSON.
pub open spec fn pictures_tree(created: int, data: Seq<ImageDataView>) -> Tree {
    Tree::Object(
        seq![
            json::field_tree("created"@, json::int_tree(created)),
            json::field_tree(
                "data"@,
                Tree::Array(data.map_values(|d: ImageDataView| data_tree(d))),
            ),
        ],
    )
}

impl ImageGenerationResponse {
    pub fn to_json(&self) -> (r: Json)
        ensures
            r@ == pictures_tree(self.created as int, data_views(self.data@)),
    {
        let ghost wanted = data_views(self.data@).map_values(|d: ImageDataView| data_tree(d));
        let mut items: Vec<Json> = Vec::new();
        let mut i: usize = 0;
        while i < self.data.len()
            invariant
                i <= self.data@.len(),
                wanted == data_views(self.data@).map_values(|d: ImageDataView| data_tree(d)),
                json::trees(items@) == wanted.take(i as int),
            decreases self.data@.len() - i,
        {
            let ghost earlier = items@;
            let next = self.data[i].to_json();
            items.push(next);
            assert(json::trees(items@) == json::trees(earlier).push(next@));
            i = i + 1;
        }
        assert(wanted.take(i as int) == wanted);
        let r = json::object(
            vec![
                json::field("created", json::integer(self.created)),
                json::field("data", json::array(items)),
            ],
        );
        assert(r@->Object_0 =~= pictures_tree(
            self.created as int,
            data_views(self.data@),
        )->Object_0);
        r
    }
}

/// An answer of Gemini Web to a request for pictures: what it said, and how many
/// pictures came with it.
#[derive(Debug)]
pub struct WebOutput {
    pub text: String,
    pub images: usize,
}

/// What Gemini Web is asked.
#[derive(Debug)]
pub struct WebRequest {
    pub model: String,
    pub prompt: String,
}

/// What happens while pictures are made: it begins; Gemini Web answers, and its
/// pictures are saved; the configured service makes so many pictures, and they are
/// saved. What fails says why.
#[derive(Debug)]
pub enum ImageEvent {
    Start,
    WebAnswered(Result<WebOutput, String>),
    WebSaved(Result<Vec<SavedImage>, String>),
    Made(Result<usize, String>),
    MadeSaved(Result<Vec<SavedImage>, String>),
}

/// Pictures in the making: the services that are asked, what Gemini Web said, and why it
/// failed, if it did.
#[derive(Debug)]
pub struct ImageRun {
    pub backend: Backend,
    pub web_text: String,
    pub web_error: Option<String>,
}

impl ImageRun {
    pub fn new(backend: &str) -> (r: ImageRun)
        ensures
            r.backend == backend_of(backend@),
            r.web_text@ == Seq::<char>::empty(),
            r.web_error is None,
    {
        ImageRun { backend: image_backend(backend), web_text: String::new(), web_error: None }
    }
}

/// What is told where both services failed, or the only one that was asked.
pub open spec fn combined_failure(
    web_error: Option<Seq<char>>,
    second: Seq<char>,
    detail: Seq<char>,
) -> Seq<char> {
    match web_error {
        Some(web) => "Gemini Web failed first: "@ + web + "; "@ + second + " failed: "@ + detail,
        None => detail,
    }
}

/// The refusal where both services failed, or the only one that was asked.
fn refuse(web_error: &Option<String>, second: &str, detail: &str) -> (r: ApiError)
    ensures
        r.says(502, combined_failure(http::opt_text(*web_error), second@, detail@)),
{
    match web_error {
        Some(web) => {
            let mut out = "Gemini Web failed first: ".to_owned();
            out.append(web.as_str());
            out.append("; ");
            out.append(second);
            out.append(" failed: ");
            out.append(detail);
            ApiError::bad_gateway(out.as_str())
        },
        None => ApiError::bad_gateway(detail),
    }
}

/// What is done next while the image tool makes pictures for a conversation: Gemini Web is
/// asked, its pictures are saved, the configured service is asked, its pictures are saved,
/// or it is done.
#[derive(Debug)]
pub enum ToolAction {
    AskWeb(WebRequest),
    SaveWebImages,
    Make(ImageGenerationRequest),
    SaveMadeImages,
    Finish(Result<String, ApiError>),
}

impl ToolAction {
    /// Whether this hands out that text.
    pub open spec fn tells(&self, output: Seq<char>) -> bool {
        self matches ToolAction::Finish(Ok(s)) && s@ == output
    }

    /// Whether this fails for that reason.
    pub open spec fn fails(&self, detail: Seq<char>) -> bool {
        self matches ToolAction::Finish(Err(e)) && e.says(502, detail)
    }

    /// Whether this asks Gemini Web that.
    pub open spec fn asks_web(&self, model: Seq<char>, prompt: Seq<char>) -> bool {
        self matches ToolAction::AskWeb(request) && request.model@ == model && request.prompt@
            == prompt
    }

    /// Whether this asks the configured service for one picture of what the latest turn of
    /// the user says.
    pub open spec fn makes(&self, model: Seq<char>, prompt: Seq<char>) -> bool {
        &&& self matches ToolAction::Make(request)
        &&& http::opt_text(request.model) == Some(model)
        &&& request.prompt@ == routing::latest_turn(prompt)
        &&& request.n == Some(1u64)
        &&& request.size is None
        &&& request.quality is None
        &&& request.response_format is None
        &&& request.output_format is None
        &&& request.user is None
    }
}

/// What follows where Gemini Web failed for the image tool: the configured service is asked
/// where that is to be, else it is all that is told.
pub open spec fn tool_web_failed(
    before: ImageRun,
    after: ImageRun,
    action: ToolAction,
    config: Config,
    prompt: Seq<char>,
    detail: Seq<char>,
) -> bool {
    if before.backend == Backend::Auto {
        &&& after.backend == before.backend
        &&& after.web_text == before.web_text
        &&& http::opt_text(after.web_error) == Some(detail)
        &&& action.makes(config.image_generation.model@, prompt)
    } else {
        after == before && action.fails(detail)
    }
}

/// Asks the configured service for one picture of what the latest turn of the user says.
fn make_request(config: &Config, prompt: &str) -> (action: ToolAction)
    ensures
        action.makes(config.image_generation.model@, prompt@),
{
    ToolAction::Make(
        ImageGenerationRequest {
            model: Some(config.image_generation.model.clone()),
            prompt: routing::image_tool_prompt(prompt),
            n: Some(1),
            size: None,
            quality: None,
            response_format: None,
            output_format: None,
            user: None,
        },
    )
}

/// What follows where Gemini Web failed for the image tool.
fn tool_web_failure(run: &mut ImageRun, config: &Config, prompt: &str, detail: &str) -> (action:
    ToolAction)
    ensures
        tool_web_failed(*old(run), *final(run), action, *config, prompt@, detail@),
{
    if run.backend == Backend::Auto {
        run.web_error = Some(detail.to_owned());
        make_request(config, prompt)
    } else {
        ToolAction::Finish(Err(ApiError::bad_gateway(detail)))
    }
}

/// Whether all saved pictures are linked in the text that is handed out, each by its own name.
pub open spec fn links_all(
    action: ToolAction,
    config: Config,
    headers: Seq<RequestHeader>,
    list: Seq<SavedImage>,
) -> bool {
    &&& action matches ToolAction::Finish(Ok(s))
    &&& forall|i: int|
        0 <= i < list.len() ==> text::contains(
            s@,
            "]("@ + images::image_url(
                images::chat_base_url(
                    http::opt_text(config.image_generation.public_base_url),
                    headers,
                ),
                (#[trigger] list[i]).filename@,
                http::opt_text(config.server.api_key),
            ) + ")"@,
        )
}

proof fn lemma_links_all(
    action: ToolAction,
    config: Config,
    headers: Seq<RequestHeader>,
    list: Seq<SavedImage>,
    said: Seq<char>,
)
    requires
        ({
            let base_url = images::chat_base_url(
                http::opt_text(config.image_generation.public_base_url),
                headers,
            );
            let api_key = http::opt_text(config.server.api_key);
            action.tells(images::answer_with_images(said, base_url, names(list), api_key))
                || action.tells(images::text_with_images(said, base_url, names(list), api_key))
        }),
    ensures
        links_all(action, config, headers, list),
{
    let base_url = images::chat_base_url(
        http::opt_text(config.image_generation.public_base_url),
        headers,
    );
    let api_key = http::opt_text(config.server.api_key);
    match action {
        ToolAction::Finish(Ok(s)) => {
            assert forall|i: int| 0 <= i < list.len() implies text::contains(
                s@,
                "]("@ + images::image_url(base_url, (#[trigger] list[i]).filename@, api_key) + ")"@,
            ) by {
                images::law_every_link_is_told(said, base_url, names(list), api_key, i);
                assert(names(list)[i] == list[i].filename@);
            }
        },
        _ => {},
    }
}

/// Takes note of what happens while the image tool makes pictures for a conversation.
pub fn generate_image_tool_output(
    run: &mut ImageRun,
    config: &Config,
    headers: &[RequestHeader],
    prompt: &str,
    event: ImageEvent,
) -> (action: ToolAction)
    ensures
        ({
            let base_url = images::chat_base_url(
                http::opt_text(config.image_generation.public_base_url),
                headers@,
            );
            let api_key = http::opt_text(config.server.api_key);
            match event {
                ImageEvent::Start => {
                    &&& *final(run) == *old(run)
                    &&& if old(run).backend == Backend::Configured {
                        action.makes(config.image_generation.model@, prompt@)
                    } else {
                        action.asks_web(config.image_generation.web_model@, prompt@)
                    }
                },
                ImageEvent::WebAnswered(Err(detail)) => tool_web_failed(
                    *old(run),
                    *final(run),
                    action,
                    *config,
                    prompt@,
                    detail@,
                ),
                ImageEvent::WebAnswered(Ok(output)) => if output.images == 0 {
                    tool_web_failed(
                        *old(run),
                        *final(run),
                        action,
                        *config,
                        prompt@,
                        no_images(output.text@),
                    )
                } else {
                    &&& final(run).backend == old(run).backend
                    &&& final(run).web_error == old(run).web_error
                    &&& final(run).web_text@ == output.text@
                    &&& action is SaveWebImages
                },
                ImageEvent::WebSaved(Err(detail)) => tool_web_failed(
                    *old(run),
                    *final(run),
                    action,
                    *config,
                    prompt@,
                    detail@,
                ),
                ImageEvent::WebSaved(Ok(list)) => {
                    &&& *final(run) == *old(run)
                    &&& action.tells(
                        images::answer_with_images(
                            old(run).web_text@,
                            base_url,
                            names(list@),
                            api_key,
                        ),
                    )
                },
                ImageEvent::Made(Err(detail)) => {
                    &&& *final(run) == *old(run)
                    &&& action.fails(
                        combined_failure(
                            http::opt_text(old(run).web_error),
                            "configured image backend"@,
                            detail@,
                        ),
                    )
                },
                ImageEvent::Made(Ok(n)) => {
                    &&& *final(run) == *old(run)
                    &&& if n == 0 {
                        action.tells("Image generated."@)
                    } else {
                        action is SaveMadeImages
                    }
                },
                ImageEvent::MadeSaved(Err(detail)) => {
                    &&& *final(run) == *old(run)
                    &&& action.fails(
                        combined_failure(
                            http::opt_text(old(run).web_error),
                            "configured image backend"@,
                            detail@,
                        ),
                    )
                },
                ImageEvent::MadeSaved(Ok(list)) => {
                    &&& *final(run) == *old(run)
                    &&& action.tells(
                        images::text_with_images(
                            "Image generated."@,
                            base_url,
                            names(list@),
                            api_key,
                        ),
                    )
                },
            }
        }),
        event matches ImageEvent::WebSaved(Ok(list)) ==> links_all(
            action,
            *config,
            headers@,
            list@,
        ),
        event matches ImageEvent::MadeSaved(Ok(list)) ==> links_all(
            action,
            *config,
            headers@,
            list@,
        ),
{
    match event {
        ImageEvent::Start => match run.backend {
            Backend::Configured => make_request(config, prompt),
            _ => ToolAction::AskWeb(
                WebRequest {
                    model: config.image_generation.web_model.clone(),
                    prompt: prompt.to_owned(),
                },
            ),
        },
        ImageEvent::WebAnswered(Err(detail)) => tool_web_failure(
            run,
            config,
            prompt,
            detail.as_str(),
        ),
        ImageEvent::WebAnswered(Ok(output)) => {
            if output.images == 0 {
                let detail = no_images_message(output.text.as_str());
                return tool_web_failure(run, config, prompt, detail.as_str());
            }
            run.web_text = output.text;
            ToolAction::SaveWebImages
        },
        ImageEvent::WebSaved(Err(detail)) => tool_web_failure(run, config, prompt, detail.as_str()),
        ImageEvent::WebSaved(Ok(list)) => {
            let base_url = images::image_base_url_for_chat(&config.image_generation, headers);
            let base = match &base_url {
                Some(url) => Some(url.as_str()),
                None => None,
            };
            let action = ToolAction::Finish(
                Ok(
                    images::append_image_markdown(
                        run.web_text.clone(),
                        base,
                        &filenames(&list),
                        config.server.key(),
                    ),
                ),
            );
            proof {
                lemma_links_all(action, *config, headers@, list@, run.web_text@);
            }
            action
        },
        ImageEvent::Made(Err(detail)) => ToolAction::Finish(
            Err(refuse(&run.web_error, "configured image backend", detail.as_str())),
        ),
        ImageEvent::Made(Ok(n)) => if n == 0 {
            ToolAction::Finish(Ok("Image generated.".to_owned()))
        } else {
            ToolAction::SaveMadeImages
        },
        ImageEvent::MadeSaved(Err(detail)) => ToolAction::Finish(
            Err(refuse(&run.web_error, "configured image backend", detail.as_str())),
        ),
        ImageEvent::MadeSaved(Ok(list)) => {
            let base_url = images::image_base_url_for_chat(&config.image_generation, headers);
            let base = match &base_url {
                Some(url) => Some(url.as_str()),
                None => None,
            };
            let action = ToolAction::Finish(
                Ok(
                    images::append_generated_image_markdown(
                        "Image generated.".to_owned(),
                        base,
                        &filenames(&list),
                        config.server.key(),
                    ),
                ),
            );
            proof {
                lemma_links_all(action, *config, headers@, list@, "Image generated."@);
            }
            action
        },
    }
}

/// What is done next while pictures are made for a request: Gemini Web is asked, its
/// pictures are saved, the configured service is asked what the request says, its pictures
/// are saved, or it is done.
#[derive(Debug)]
pub enum PictureAction {
    AskWeb(WebRequest),
    SaveWebImages,
    Make,
    SaveMadeImages,
    Finish(Result<Vec<ImageData>, ApiError>),
}

impl PictureAction {
    /// Whether this hands out those pictures.
    pub open spec fn gives(&self, data: Seq<ImageDataView>) -> bool {
        self matches PictureAction::Finish(Ok(list)) && data_views(list@) == data
    }

    /// Whether this fails for that reason.
    pub open spec fn fails(&self, detail: Seq<char>) -> bool {
        self matches PictureAction::Finish(Err(e)) && e.says(502, detail)
    }

    /// Whether this asks Gemini Web that.
    pub open spec fn asks_web(&self, model: Seq<char>, prompt: Seq<char>) -> bool {
        self matches PictureAction::AskWeb(request) && request.model@ == model && request.prompt@
            == prompt
    }
}

/// What follows where Gemini Web failed for a request: the configured service is asked where
/// that is to be, else it is all that is told.
pub open spec fn web_failed(
    before: ImageRun,
    after: ImageRun,
    action: PictureAction,
    detail: Seq<char>,
) -> bool {
    if before.backend == Backend::Auto {
        &&& after.backend == before.backend
        &&& after.web_text == before.web_text
        &&& http::opt_text(after.web_error) == Some(detail)
        &&& action is Make
    } else {
        after == before && action.fails(detail)
    }
}

/// What follows where Gemini Web failed for a request.
fn web_failure(run: &mut ImageRun, detail: &str) -> (action: PictureAction)
    ensures
        web_failed(*old(run), *final(run), action, detail@),
{
    if run.backend == Backend::Auto {
        run.web_error = Some(detail.to_owned());
        PictureAction::Make
    } else {
        PictureAction::Finish(Err(ApiError::bad_gateway(detail)))
    }
}

/// A picture that Gemini Web made, with the prompt of the request.
pub open spec fn prompted(image: SavedView, prompt: Seq<char>) -> SavedView {
    SavedView { revised_prompt: Some(prompt), ..image }
}

/// Pictures that Gemini Web made, with the prompt of the request.
pub open spec fn all_prompted(list: Seq<SavedView>, prompt: Seq<char>) -> Seq<SavedView> {
    list.map_values(|s: SavedView| prompted(s, prompt))
}

/// Pictures that Gemini Web made, with the prompt of the request.
fn with_prompt(list: &Vec<SavedImage>, prompt: &str) -> (r: Vec<SavedImage>)
    ensures
        saved_views(r@) == all_prompted(saved_views(list@), prompt@),
{
    let ghost wanted = all_prompted(saved_views(list@), prompt@);
    let mut out: Vec<SavedImage> = Vec::new();
    let mut i: usize = 0;
    while i < list.len()
        invariant
            i <= list@.len(),
            wanted == all_prompted(saved_views(list@), prompt@),
            saved_views(out@) == wanted.take(i as int),
        decreases list@.len() - i,
    {
        let ghost earlier = out@;
        let next = SavedImage {
            filename: list[i].filename.clone(),
            b64_json: list[i].b64_json.clone(),
            revised_prompt: Some(prompt.to_owned()),
        };
        out.push(next);
        assert(saved_views(out@) == saved_views(earlier).push(next@));
        i = i + 1;
    }
    assert(wanted.take(i as int) == wanted);
    out
}

/// Whether all saved pictures are handed out, each in its own place: by its own data where the
/// gateway has no address for pictures, by a link to its own name where it has one.
pub open spec fn hands_out(action: PictureAction, config: Config, list: Seq<SavedImage>) -> bool {
    &&& action matches PictureAction::Finish(Ok(data))
    &&& data@.len() == list.len()
    &&& forall|i: int|
        0 <= i < list.len() ==> match images::address(
            http::opt_text(config.image_generation.public_base_url),
        ) {
            None => http::opt_text((#[trigger] data@[i]).b64_json) == Some(list[i].b64_json@)
                && data@[i].url is None,
            Some(base) => data@[i].b64_json is None && http::opt_text(data@[i].url) == Some(
                images::image_url(
                    Some(base),
                    list[i].filename@,
                    http::opt_text(config.server.api_key),
                ),
            ),
        }
}

proof fn lemma_hands_out(action: PictureAction, config: Config, list: Seq<SavedImage>, saved: Seq<SavedView>)
    requires
        action.gives(
            all_handed_out(
                images::address(http::opt_text(config.image_generation.public_base_url)),
                http::opt_text(config.server.api_key),
                saved,
            ),
        ),
        saved.len() == list.len(),
        forall|i: int|
            0 <= i < list.len() ==> (#[trigger] saved[i]).filename == list[i].filename@
                && saved[i].b64_json == list[i].b64_json@,
    ensures
        hands_out(action, config, list),
{
    let base_url = images::address(http::opt_text(config.image_generation.public_base_url));
    let api_key = http::opt_text(config.server.api_key);
    let told = all_handed_out(base_url, api_key, saved);
    match action {
        PictureAction::Finish(Ok(data)) => {
            assert(data@.len() == data_views(data@).len());
            assert forall|i: int| 0 <= i < list.len() implies match base_url {
                None => http::opt_text((#[trigger] data@[i]).b64_json) == Some(list[i].b64_json@)
                    && data@[i].url is None,
                Some(base) => data@[i].b64_json is None && http::opt_text(data@[i].url) == Some(
                    images::image_url(Some(base), list[i].filename@, api_key),
                ),
            } by {
                law_each_picture_is_handed_out_in_its_place(base_url, api_key, saved, i);
                law_lists_of_pictures_keep_their_order(list, data@, i);
                assert(data_views(data@)[i] == told[i]);
                assert(saved[i].filename == list[i].filename@);
            }
        },
        _ => {},
    }
}

/// Takes note of what happens while pictures are made for a request.
pub fn generate_pictures(
    run: &mut ImageRun,
    config: &Config,
    request: &ImageGenerationRequest,
    event: ImageEvent,
) -> (action: PictureAction)
    ensures
        ({
            let base_url = images::address(http::opt_text(config.image_generation.public_base_url));
            let api_key = http::opt_text(config.server.api_key);
            match event {
                ImageEvent::Start => {
                    &&& *final(run) == *old(run)
                    &&& if old(run).backend == Backend::Configured {
                        action is Make
                    } else {
                        action.asks_web(
                            config.image_generation.web_model@,
                            web_prompt(request.prompt@, request.n),
                        )
                    }
                },
                ImageEvent::WebAnswered(Err(detail)) => web_failed(
                    *old(run),
                    *final(run),
                    action,
                    detail@,
                ),
                ImageEvent::WebAnswered(Ok(output)) => if output.images == 0 {
                    web_failed(*old(run), *final(run), action, no_images(output.text@))
                } else {
                    *final(run) == *old(run) && action is SaveWebImages
                },
                ImageEvent::WebSaved(Err(detail)) => web_failed(
                    *old(run),
                    *final(run),
                    action,
                    detail@,
                ),
                ImageEvent::WebSaved(Ok(list)) => if list@.len() == 0 {
                    web_failed(
                        *old(run),
                        *final(run),
                        action,
                        "Gemini Web generated images but they could not be downloaded"@,
                    )
                } else {
                    &&& *final(run) == *old(run)
                    &&& action.gives(
                        all_handed_out(
                            base_url,
                            api_key,
                            all_prompted(saved_views(list@), request.prompt@),
                        ),
                    )
                },
                ImageEvent::Made(Err(detail)) => {
                    &&& *final(run) == *old(run)
                    &&& action.fails(
                        combined_failure(
                            http::opt_text(old(run).web_error),
                            "official API fallback"@,
                            detail@,
                        ),
                    )
                },
                ImageEvent::Made(Ok(_)) => *final(run) == *old(run) && action is SaveMadeImages,
                ImageEvent::MadeSaved(Err(detail)) => {
                    &&& *final(run) == *old(run)
                    &&& action.fails(detail@)
                },
                ImageEvent::MadeSaved(Ok(list)) => {
                    &&& *final(run) == *old(run)
                    &&& action.gives(all_handed_out(base_url, api_key, saved_views(list@)))
                },
            }
        }),
        event matches ImageEvent::MadeSaved(Ok(list)) ==> hands_out(action, *config, list@),
        event matches ImageEvent::WebSaved(Ok(list)) ==> list@.len() > 0 ==> hands_out(
            action,
            *config,
            list@,
        ),
{
    match event {
        ImageEvent::Start => match run.backend {
            Backend::Configured => PictureAction::Make,
            _ => PictureAction::AskWeb(
                WebRequest {
                    model: config.image_generation.web_model.clone(),
                    prompt: web_image_prompt(request.prompt.as_str(), request.n),
                },
            ),
        },
        ImageEvent::WebAnswered(Err(detail)) => web_failure(run, detail.as_str()),
        ImageEvent::WebAnswered(Ok(output)) => {
            if output.images == 0 {
                let detail = no_images_message(output.text.as_str());
                return web_failure(run, detail.as_str());
            }
            PictureAction::SaveWebImages
        },
        ImageEvent::WebSaved(Err(detail)) => web_failure(run, detail.as_str()),
        ImageEvent::WebSaved(Ok(list)) => {
            if list.len() == 0 {
                return web_failure(
                    run,
                    "Gemini Web generated images but they could not be downloaded",
                );
            }
            let base_url = images::configured_image_base_url(&config.image_generation);
            let base = match &base_url {
                Some(url) => Some(url.as_str()),
                None => None,
            };
            let prompted = with_prompt(&list, request.prompt.as_str());
            let action = PictureAction::Finish(
                Ok(images_data(base, config.server.key(), &prompted)),
            );
            proof {
                lemma_hands_out(action, *config, list@, saved_views(prompted@));
            }
            action
        },
        ImageEvent::Made(Err(detail)) => PictureAction::Finish(
            Err(refuse(&run.web_error, "official API fallback", detail.as_str())),
        ),
        ImageEvent::Made(Ok(_)) => PictureAction::SaveMadeImages,
        ImageEvent::MadeSaved(Err(detail)) => PictureAction::Finish(
            Err(ApiError::bad_gateway(detail.as_str())),
        ),
        ImageEvent::MadeSaved(Ok(list)) => {
            let base_url = images::configured_image_base_url(&config.image_generation);
            let base = match &base_url {
                Some(url) => Some(url.as_str()),
                None => None,
            };
            let action = PictureAction::Finish(Ok(images_data(base, config.server.key(), &list)));
            proof {
                lemma_hands_out(action, *config, list@, saved_views(list@));
            }
            action
        },
    }
}

/// The model that a request for pictures goes by in the record.
pub open spec fn picture_model(request: ImageGenerationRequest, config: Config) -> Seq<char> {
    match request.model {
        Some(model) => model@,
        None => config.image_generation.model@,
    }
}

/// The answer to a request for pictures, and what is kept of it.
#[derive(Debug)]
pub struct PictureAnswer {
    pub result: Result<ImageGenerationResponse, ApiError>,
    pub history: HistoryEntry,
}

/// Answers a request for pictures, once they are made or could not be.
pub fn answer_pictures(
    config: &Config,
    request: &ImageGenerationRequest,
    result: Result<Vec<ImageData>, ApiError>,
) -> (r: PictureAnswer)
    ensures
        match result {
            Ok(data) => {
                &&& r.result matches Ok(response)
                &&& response.created >= 0
                &&& response.data == data
                &&& r.history@ == history::answered(
                    "images.generations"@,
                    picture_model(*request, *config),
                    request.prompt@.len() as int,
                    data@.len() as int,
                )
            },
            Err(error) => {
                &&& r.result matches Err(e) && e == error
                &&& r.history@ == history::failed(
                    "images.generations"@,
                    picture_model(*request, *config),
                    request.prompt@.len() as int,
                    error.detail@,
                )
            },
        },
{
    let model = match &request.model {
        Some(model) => model.as_str(),
        None => config.image_generation.model.as_str(),
    };
    let prompt_chars: usize = request.prompt.as_str().unicode_len();
    match result {
        Ok(data) => {
            let history = history::success("images.generations", model, prompt_chars, data.len());
            PictureAnswer {
                result: Ok(ImageGenerationResponse { created: ids::now(), data }),
                history,
            }
        },
        Err(error) => {
            let history = history::failure(
                "images.generations",
                model,
                prompt_chars,
                error.detail.as_str(),
            );
            PictureAnswer { result: Err(error), history }
        },
    }
}

/// Without an address for its pictures the gateway hands them out as data, with one it hands
/// out links, which carry the tokens that let them be seen.
pub proof fn law_pictures_come_by_data_or_by_link(
    public_base_url: Option<Seq<char>>,
    api_key: Option<Seq<char>>,
    image: SavedView,
)
    ensures
        ({
            let data = handed_out(images::address(public_base_url), api_key, image);
            &&& http::visible(public_base_url) is None ==> data.b64_json == Some(image.b64_json)
                && data.url is None
            &&& http::visible(public_base_url) matches Some(base) ==> data.b64_json is None
                && data.url == Some(
                images::trim_slashes(base) + images::image_path(image.filename, api_key),
            )
        }),
{
}

proof fn lemma_extension_behind_a_dot(stem: Seq<char>, ext: Seq<char>)
    requires
        stem.len() > 0,
        !ext.contains('.'),
    ensures
        images::extension(stem + "."@ + ext) == text::ascii_lower(ext),
{
    reveal_strlit(".");
    let name = stem + "."@ + ext;
    let at = stem.len() as int;
    assert("."@ =~= seq!['.']);
    assert(name.subrange(at, at + 1) =~= "."@);
    assert forall|j: int| at < j implies !text::occurs_at(name, "."@, j) by {
        if j + 1 <= name.len() {
            assert(name.subrange(j, j + 1)[0] == ext[j - at - 1]);
            assert(ext.contains(ext[j - at - 1]));
        }
    }
    text::lemma_last_index(name, "."@, at);
    assert(name.skip(at + 1) =~= ext);
}

proof fn lemma_known_extensions()
    ensures
        forall|mime: Seq<char>| !(#[trigger] ext_of(mime)).contains('.'),
        forall|mime: Seq<char>| text::ascii_lower(#[trigger] ext_of(mime)) == ext_of(mime),
        "jpg"@ != "gif"@,
        "jpg"@ != "webp"@,
        "jpg"@ != "png"@,
        "jpeg"@ != "gif"@,
        "jpeg"@ != "webp"@,
        "jpeg"@ != "png"@,
        "gif"@ != "webp"@,
        "gif"@ != "png"@,
        "webp"@ != "png"@,
{
    reveal_strlit("jpg");
    reveal_strlit("jpeg");
    reveal_strlit("gif");
    reveal_strlit("webp");
    reveal_strlit("png");
    assert(text::ascii_lower("jpg"@) =~= "jpg"@);
    assert(text::ascii_lower("gif"@) =~= "gif"@);
    assert(text::ascii_lower("webp"@) =~= "webp"@);
    assert(text::ascii_lower("png"@) =~= "png"@);
    assert("gif"@[0] == 'g' && "png"@[0] == 'p' && "jpg"@[0] == 'j');
    assert("webp"@[0] == 'w' && "jpeg"@[0] == 'j');
}

/// A picture that was saved is sent as the kind of picture that it was made as.
pub proof fn law_pictures_keep_their_kind(data: Seq<u8>, mime: Seq<char>)
    requires
        mime == "image/jpeg"@ || mime == "image/webp"@ || mime == "image/gif"@ || mime
            == "image/png"@,
    ensures
        images::image_type(generated_name(data, ext_of(mime))) == mime,
{
    reveal_strlit("generated_");
    let stem = "generated_"@ + digest::sha256_hex(data).take(24);
    assert("generated_"@.len() == 10);
    lemma_known_extensions();
    lemma_extension_behind_a_dot(stem, ext_of(mime));
    assert(stem.len() > 0);
    reveal_strlit("image/jpeg");
    reveal_strlit("image/jpg");
    reveal_strlit("image/webp");
    reveal_strlit("image/gif");
    reveal_strlit("image/png");
    assert("image/jpeg"@[6] == 'j' && "image/jpg"@[6] == 'j' && "image/webp"@[6] == 'w');
    assert("image/gif"@[6] == 'g' && "image/png"@[6] == 'p');
}

/// Each saved picture is handed out in its own place: with its own data where the gateway has
/// no address for pictures, with a link to its own name where it has one, and with the prompt
/// that it was saved with.
pub proof fn law_each_picture_is_handed_out_in_its_place(
    base_url: Option<Seq<char>>,
    api_key: Option<Seq<char>>,
    list: Seq<SavedView>,
    i: int,
)
    requires
        0 <= i < list.len(),
    ensures
        ({
            let data = all_handed_out(base_url, api_key, list);
            &&& data.len() == list.len()
            &&& data[i].revised_prompt == list[i].revised_prompt
            &&& base_url is None ==> data[i].b64_json == Some(list[i].b64_json) && data[i].url is
                None
            &&& base_url matches Some(base) ==> data[i].b64_json is None && data[i].url == Some(
                images::image_url(Some(base), list[i].filename, api_key),
            )
        }),
{
}

/// Without an access key a picture is linked by its name alone.
pub proof fn law_pictures_are_linked_by_their_names(
    base: Seq<char>,
    list: Seq<SavedView>,
    i: int,
)
    requires
        0 <= i < list.len(),
    ensures
        all_handed_out(Some(base), None, list)[i].url == Some(
            base + "/images/"@ + list[i].filename,
        ),
{
    images::law_links_lead_to_the_name_of_the_picture(base, list[i].filename, Seq::empty());
}

/// Pictures that Gemini Web made are handed out each in its own place too, with the prompt of
/// the request.
pub proof fn law_pictures_of_gemini_web_keep_their_place(
    base_url: Option<Seq<char>>,
    api_key: Option<Seq<char>>,
    list: Seq<SavedView>,
    prompt: Seq<char>,
    i: int,
)
    requires
        0 <= i < list.len(),
    ensures
        ({
            let data = all_handed_out(base_url, api_key, all_prompted(list, prompt));
            &&& data.len() == list.len()
            &&& data[i].revised_prompt == Some(prompt)
            &&& base_url is None ==> data[i].b64_json == Some(list[i].b64_json) && data[i].url is
                None
            &&& base_url matches Some(base) ==> data[i].b64_json is None && data[i].url == Some(
                images::image_url(Some(base), list[i].filename, api_key),
            )
        }),
{
    law_each_picture_is_handed_out_in_its_place(base_url, api_key, all_prompted(list, prompt), i);
}

/// What is saved and what is handed out is told picture by picture, and the names of pictures
/// stand in the order of the pictures.
pub proof fn law_lists_of_pictures_keep_their_order(
    saved: Seq<SavedImage>,
    data: Seq<ImageData>,
    i: int,
)
    ensures
        saved_views(saved).len() == saved.len(),
        names(saved).len() == saved.len(),
        data_views(data).len() == data.len(),
        0 <= i < saved.len() ==> {
            &&& names(saved)[i] == saved[i].filename@
            &&& saved_views(saved)[i].filename == saved[i].filename@
            &&& saved_views(saved)[i].b64_json == saved[i].b64_json@
        },
        0 <= i < data.len() ==> {
            &&& data_views(data)[i].b64_json == http::opt_text(data[i].b64_json)
            &&& data_views(data)[i].url == http::opt_text(data[i].url)
            &&& data_views(data)[i].revised_prompt == http::opt_text(data[i].revised_prompt)
        },
{
}

/// As many pictures are asked for as the request says, but one at least and four at most.
pub proof fn law_one_to_four_pictures_are_asked_for(n: u64)
    ensures
        1 <= n <= 4 ==> picture_count(Some(n)) == n,
        n == 0 ==> picture_count(Some(n)) == 1,
        n > 4 ==> picture_count(Some(n)) == 4,
        picture_count(None) == 1,
{
}

/// Gemini Web is asked what the request says, without the white space around it, and for how
/// many pictures where it is to make more than one.
pub proof fn law_gemini_web_is_asked_what_the_request_says(prompt: Seq<char>, n: u64)
    ensures
        web_prompt(prompt, None) == text::trim(prompt),
        n <= 1 ==> web_prompt(prompt, Some(n)) == text::trim(prompt),
        2 <= n <= 4 ==> web_prompt(prompt, Some(n)) == "请生成 "@ + text::decimal(n as nat)
            + " 张图片："@ + text::trim(prompt),
        n > 4 ==> web_prompt(prompt, Some(n)) == web_prompt(prompt, Some(4)),
{
}

/// Where Gemini Web made no picture, what it said instead is told.
pub proof fn law_refusals_of_gemini_web_are_told(said: Seq<char>)
    ensures
        text::is_blank(said) ==> no_images(said) == "Gemini Web returned no generated images"@,
        !text::is_blank(said) ==> no_images(said) == "Gemini Web returned no generated images"@
            + ": "@ + text::trim(said),
{
    text::law_blank_texts_are_trimmed_to_nothing(said);
    reveal_strlit("Gemini Web returned no generated images");
    reveal_strlit(": ");
    reveal_strlit("Gemini Web returned no generated images: ");
    assert("Gemini Web returned no generated images: "@
        =~= "Gemini Web returned no generated images"@ + ": "@);
}

/// Where two services failed, both failures are told; where one was asked, its failure alone.
pub proof fn law_all_failures_are_told(web: Seq<char>, second: Seq<char>, detail: Seq<char>)
    ensures
        combined_failure(None, second, detail) == detail,
        combined_failure(Some(web), second, detail) == "Gemini Web failed first: "@ + web + "; "@
            + second + " failed: "@ + detail,
{
}

/// The names that stand for Gemini Web, for Gemini Web first, and for the configured service.
pub proof fn law_services_go_by_their_names(name: Seq<char>)
    ensures
        backend_of(name) == Backend::Web <==> name == "web"@ || name == "gemini_web"@ || name
            == "free_web"@,
        backend_of(name) == Backend::Auto <==> name == "auto"@,
{
    reveal_strlit("web");
    reveal_strlit("gemini_web");
    reveal_strlit("free_web");
    reveal_strlit("auto");
    assert("auto"@.len() == 4 && "web"@.len() == 3 && "gemini_web"@.len() == 10
        && "free_web"@.len() == 8);
}

/// A picture is saved under a name that begins with its digest and ends with what stands for
/// its kind.
pub proof fn law_names_are_made_of_the_digest(data: Seq<u8>, ext: Seq<char>)
    ensures
        generated_name(data, ext) == "generated_"@ + digest::sha256_hex(data).take(24) + "."@
            + ext,
        ext_of("image/jpeg"@) == "jpg"@,
        ext_of("image/jpg"@) == "jpg"@,
{
}

/// A file is sent as the kind of picture that its name ends with, in either case.
pub proof fn law_files_are_sent_as_their_names_say(stem: Seq<char>)
    requires
        stem.len() > 0,
    ensures
        images::image_type(stem + "."@ + "jpg"@) == "image/jpeg"@,
        images::image_type(stem + "."@ + "jpeg"@) == "image/jpeg"@,
        images::image_type(stem + "."@ + "JPG"@) == "image/jpeg"@,
        images::image_type(stem + "."@ + "gif"@) == "image/gif"@,
        images::image_type(stem + "."@ + "webp"@) == "image/webp"@,
        images::image_type(stem + "."@ + "png"@) == "image/png"@,
{
    lemma_known_extensions();
    reveal_strlit("jpg");
    reveal_strlit("jpeg");
    reveal_strlit("JPG");
    reveal_strlit("gif");
    reveal_strlit("webp");
    reveal_strlit("png");
    lemma_extension_behind_a_dot(stem, "jpg"@);
    lemma_extension_behind_a_dot(stem, "jpeg"@);
    lemma_extension_behind_a_dot(stem, "JPG"@);
    lemma_extension_behind_a_dot(stem, "gif"@);
    lemma_extension_behind_a_dot(stem, "webp"@);
    lemma_extension_behind_a_dot(stem, "png"@);
    assert(text::ascii_lower("jpg"@) =~= "jpg"@);
    assert(text::ascii_lower("jpeg"@) =~= "jpeg"@);
    assert(text::ascii_lower("JPG"@) =~= "jpg"@);
    assert(text::ascii_lower("gif"@) =~= "gif"@);
    assert(text::ascii_lower("webp"@) =~= "webp"@);
    assert(text::ascii_lower("png"@) =~= "png"@);
}

/// What a caller gets of a picture is read in its JSON: the data, or the link.
pub proof fn law_pictures_are_read_back(data: ImageDataView)
    ensures
        data_tree(data).get_str("b64_json"@) == data.b64_json,
        data_tree(data).get_str("url"@) == data.url,
        data_tree(data).get_str("revised_prompt"@) == data.revised_prompt,
{
    let fields = data_tree(data)->Object_0;
    let a = json::opt_field("b64_json"@, opt_str_tree(data.b64_json));
    let b = json::opt_field("url"@, opt_str_tree(data.url));
    let c = json::opt_field("revised_prompt"@, opt_str_tree(data.revised_prompt));
    assert(fields == a + b + c);
    reveal_strlit("b64_json");
    reveal_strlit("url");
    reveal_strlit("revised_prompt");
    assert("b64_json"@.len() == 8 && "url"@.len() == 3 && "revised_prompt"@.len() == 14);
    assert forall|j: int| 0 <= j < fields.len() implies (#[trigger] fields[j]).name == if j
        < a.len() {
        "b64_json"@
    } else if j < a.len() + b.len() {
        "url"@
    } else {
        "revised_prompt"@
    } by {}
    if data.b64_json is Some {
        json::law_fields_are_found_by_name(fields, 0);
    } else {
        json::law_missing_fields_are_not_found(fields, "b64_json"@);
    }
    if data.url is Some {
        json::law_fields_are_found_by_name(fields, a.len() as int);
    } else {
        json::law_missing_fields_are_not_found(fields, "url"@);
    }
    if data.revised_prompt is Some {
        json::law_fields_are_found_by_name(fields, (a.len() + b.len()) as int);
    } else {
        json::law_missing_fields_are_not_found(fields, "revised_prompt"@);
    }
}

/// All pictures of an answer are read in its JSON, each in its place.
pub proof fn law_all_pictures_are_read_back(created: int, data: Seq<ImageDataView>, i: int)
    ensures
        pictures_tree(created, data).get("created"@) == Some(json::int_tree(created)),
        pictures_tree(created, data).get("data"@) matches Some(list) && {
            &&& 0 <= i < data.len() ==> list.item(i) == Some(data_tree(data[i]))
            &&& i >= data.len() ==> list.item(i) is None
        },
{
    let tree = pictures_tree(created, data);
    reveal_strlit("created");
    reveal_strlit("data");
    assert("created"@.len() != "data"@.len());
    json::law_fields_are_found_by_name(tree->Object_0, 0);
    json::law_fields_are_found_by_name(tree->Object_0, 1);
}

/// Where Gemini Web fails, the configured service is asked where it is to stand in, and why
/// Gemini Web failed is kept to be told; where it is not, the request fails for that reason.
pub proof fn law_failures_of_gemini_web_lead_on(
    before: ImageRun,
    after: ImageRun,
    action: PictureAction,
    detail: Seq<char>,
)
    requires
        web_failed(before, after, action, detail),
    ensures
        after.backend == before.backend,
        before.backend == Backend::Auto ==> action is Make && http::opt_text(after.web_error)
            == Some(detail),
        before.backend != Backend::Auto ==> (action matches PictureAction::Finish(Err(e))
            && e.status == 502 && e.detail@ == detail),
{
}

/// The same holds where the image tool asks Gemini Web: the configured service is then asked
/// for one picture of what the user said last, with the configured model.
pub proof fn law_failures_of_gemini_web_lead_the_image_tool_on(
    before: ImageRun,
    after: ImageRun,
    action: ToolAction,
    config: Config,
    prompt: Seq<char>,
    detail: Seq<char>,
)
    requires
        tool_web_failed(before, after, action, config, prompt, detail),
    ensures
        after.backend == before.backend,
        before.backend == Backend::Auto ==> http::opt_text(after.web_error) == Some(detail) && (
        action matches ToolAction::Make(request) && request.n == Some(1u64) && request.prompt@
            == routing::latest_turn(prompt) && http::opt_text(request.model) == Some(
            config.image_generation.model@,
        )),
        before.backend != Backend::Auto ==> (action matches ToolAction::Finish(Err(e)) && e.status
            == 502 && e.detail@ == detail),
{
}

/// What an action asks, hands out or refuses is what it holds.
pub proof fn law_actions_hold_what_they_say(
    action: PictureAction,
    tool: ToolAction,
    a: Seq<char>,
    b: Seq<char>,
)
    ensures
        action.asks_web(a, b) <==> (action matches PictureAction::AskWeb(request)
            && request.model@ == a && request.prompt@ == b),
        action.fails(a) <==> (action matches PictureAction::Finish(Err(e)) && e.status == 502
            && e.detail@ == a),
        tool.asks_web(a, b) <==> (tool matches ToolAction::AskWeb(request) && request.model@ == a
            && request.prompt@ == b),
        tool.fails(a) <==> (tool matches ToolAction::Finish(Err(e)) && e.status == 502 && e.detail@
            == a),
        tool.tells(a) <==> (tool matches ToolAction::Finish(Ok(s)) && s@ == a),
{
}

} // verus!
