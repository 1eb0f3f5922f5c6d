//! The worker that looks at pictures: what it is asked, and what it answers.
use crate::attachments;
use crate::attachments::{AttachmentSource, InputAttachment};
use crate::config::ImageGenerationConfig;
use crate::http;
use crate::images;
use crate::json;
use crate::json::{Json, Tree};
use crate::text;
use vstd::prelude::*;

verus! {

/// Where the vision worker is reached, if one is configured.
pub fn worker_endpoint(config: &ImageGenerationConfig) -> (r: Option<String>)
    ensures
        http::opt_text(r) == images::address(http::opt_text(config.worker_url)),
{
    images::clean_address(&config.worker_url)
}

/// What the vision worker is shown to let the gateway in: the configured token, else
/// what stands in the configured file, without the white space around it. A blank token
/// counts for none.
pub open spec fn worker_token(configured: Option<Seq<char>>, in_file: Option<Seq<char>>) -> Option<
    Seq<char>,
> {
    match http::visible(configured) {
        Some(token) => Some(token),
        None => http::visible(in_file),
    }
}

/// What stands in a text between the white space around it, if anything does.
fn visible(value: &Option<String>) -> (r: Option<String>)
    ensures
        http::opt_text(r) == http::visible(http::opt_text(*value)),
{
    match value {
        Some(s) => {
            let trimmed = text::trimmed(s.as_str());
            if trimmed.as_str().is_empty() {
                None
            } else {
                Some(trimmed)
            }
        },
        None => None,
    }
}

/// What the vision worker is shown, where the configured file holds that.
pub fn resolved_worker_token(config: &ImageGenerationConfig, in_file: &Option<String>) -> (r: Option<
    String,
>)
    ensures
        http::opt_text(r) == worker_token(
            http::opt_text(config.worker_token),
            http::opt_text(*in_file),
        ),
{
    match visible(&config.worker_token) {
        Some(token) => Some(token),
        None => visible(in_file),
    }
}

/// Whether there is a vision worker that would let the gateway in.
pub fn vision_worker_enabled(config: &ImageGenerationConfig, token: &Option<String>) -> (r: bool)
    ensures
        r == (images::address(http::opt_text(config.worker_url)) is Some && token is Some),
{
    worker_endpoint(config).is_some() && token.is_some()
}

/// How many milliseconds the gateway waits for an attachment that it fetches.
pub fn fetch_timeout_ms(config: &ImageGenerationConfig) -> (r: u64)
    ensures
        r == if config.worker_timeout_ms < 60_000 {
            config.worker_timeout_ms
        } else {
            60_000
        },
        r <= config.worker_timeout_ms,
        r <= 60_000,
{
    if config.worker_timeout_ms < 60_000 {
        config.worker_timeout_ms
    } else {
        60_000
    }
}

/// The kind of a fetched attachment: the one that its server gives, else the one that
/// it came with or that its name stands for.
pub open spec fn fetched_type(
    filename: Seq<char>,
    explicit: Option<Seq<char>>,
    served: Option<Seq<char>>,
) -> Seq<char> {
    match served {
        Some(kind) => kind,
        None => images::attachment_type(filename, explicit),
    }
}

/// A picture as the worker takes it.
pub open spec fn picture_tree(filename: Seq<char>, mime: Seq<char>, data: Seq<u8>) -> Tree {
    Tree::Object(
        seq![
            json::field_tree("data_base64"@, json::str_tree(attachments::base64_text(data))),
            json::field_tree("filename"@, json::str_tree(filename)),
            json::field_tree("mime"@, json::str_tree(mime)),
        ],
    )
}

/// An attachment as the worker takes it: with its own data, or with those that were
/// fetched from its address, and their kind, if their server gave one.
pub fn worker_image_payload(
    attachment: &InputAttachment,
    fetched: &Vec<u8>,
    served: &Option<String>,
) -> (r: Json)
    requires
        fetched@.len() <= isize::MAX / 2,
        attachment.source matches AttachmentSource::Data(data) ==> data@.len() <= isize::MAX / 2,
    ensures
        r@ == match attachment.source {
            AttachmentSource::Data(data) => picture_tree(
                attachment.filename@,
                images::attachment_type(
                    attachment.filename@,
                    http::opt_text(attachment.content_type),
                ),
                data@,
            ),
            AttachmentSource::Url(_) => picture_tree(
                attachment.filename@,
                fetched_type(
                    attachment.filename@,
                    http::opt_text(attachment.content_type),
                    http::opt_text(*served),
                ),
                fetched@,
            ),
        },
        r@.get_str("filename"@) == Some(attachment.filename@),
        r@.get_str("data_base64"@) matches Some(s) && attachments::base64_data(s) == Some(
            match attachment.source {
                AttachmentSource::Data(data) => data@,
                AttachmentSource::Url(_) => fetched@,
            },
        ),
{
    let explicit = match &attachment.content_type {
        Some(kind) => Some(kind.as_str()),
        None => None,
    };
    let guessed = images::guess_attachment_content_type(attachment.filename.as_str(), explicit);
    let (mime, data) = match &attachment.source {
        AttachmentSource::Data(data) => (guessed, data),
        AttachmentSource::Url(_) => match served {
            Some(kind) => (kind.clone(), fetched),
            None => (guessed, fetched),
        },
    };
    let encoded = attachments::encode_image(data.as_slice());
    let r = json::object(
        vec![
            json::field("data_base64", json::string(encoded.as_str())),
            json::field("filename", json::string(attachment.filename.as_str())),
            json::field("mime", json::string(mime.as_str())),
        ],
    );
    assert(r@->Object_0 =~= picture_tree(attachment.filename@, mime@, data@)->Object_0);
    proof {
        law_pictures_reach_the_worker(attachment.filename@, mime@, data@);
    }
    r
}

/// A vision worker and what lets the gateway in.
#[derive(Debug)]
pub struct VisionWorker {
    pub url: String,
    pub token: String,
}

/// The vision worker, where there is one that lets the gateway in.
pub fn vision_worker(config: &ImageGenerationConfig, token: Option<String>) -> (r: Result<
    VisionWorker,
    String,
>)
    ensures
        match images::address(http::opt_text(config.worker_url)) {
            None => r matches Err(e) && e@ == "Gemini vision worker_url is not configured"@,
            Some(url) => match token {
                None => r matches Err(e) && e@ == "Gemini vision worker token is not configured"@,
                Some(t) => r matches Ok(worker) && worker.url@ == url && worker.token@ == t@,
            },
        },
{
    match worker_endpoint(config) {
        None => Err("Gemini vision worker_url is not configured".to_owned()),
        Some(url) => match token {
            None => Err("Gemini vision worker token is not configured".to_owned()),
            Some(token) => Ok(VisionWorker { url, token }),
        },
    }
}

/// A request to the vision worker: where it goes, what lets it in, how many
/// milliseconds the gateway waits for the answer, and what it says.
#[derive(Debug)]
pub struct VisionRequest {
    pub url: String,
    pub token: String,
    pub timeout_ms: u64,
    pub body: Json,
}

/// What the vision worker is asked.
pub open spec fn vision_tree(prompt: Seq<char>, pictures: Seq<Tree>, timeout_ms: int) -> Tree {
    Tree::Object(
        seq![
            json::field_tree("images"@, Tree::Array(pictures)),
            json::field_tree("prompt"@, json::str_tree(prompt)),
            json::field_tree("timeout_ms"@, json::int_tree(timeout_ms)),
        ],
    )
}

/// What the vision worker is asked about pictures.
pub fn vision_request(
    worker: VisionWorker,
    config: &ImageGenerationConfig,
    prompt: &str,
    pictures: Vec<Json>,
) -> (r: Result<VisionRequest, String>)
    ensures
        if pictures@.len() == 0 {
            r matches Err(e) && e@ == "Gemini vision worker requires at least one image"@
        } else {
            &&& r matches Ok(request)
            &&& request.url@ == worker.url@ + "/vision"@
            &&& request.token@ == worker.token@
            &&& request.timeout_ms == if config.worker_timeout_ms + 30_000 <= u64::MAX {
                config.worker_timeout_ms + 30_000
            } else {
                u64::MAX as int
            }
            &&& request.body@ == vision_tree(
                prompt@,
                json::trees(pictures@),
                config.worker_timeout_ms as int,
            )
        },
        r matches Ok(request) ==> request.body@.get_str("prompt"@) == Some(prompt@)
            && request.body@.get("images"@) == Some(Tree::Array(json::trees(pictures@)))
            && request.timeout_ms >= config.worker_timeout_ms,
{
    if pictures.len() == 0 {
        return Err("Gemini vision worker requires at least one image".to_owned());
    }
    let ghost shown = json::trees(pictures@);
    let body = json::object(
        vec![
            json::field("images", json::array(pictures)),
            json::field("prompt", json::string(prompt)),
            json::field("timeout_ms", json::number(config.worker_timeout_ms)),
        ],
    );
    assert(body@->Object_0 =~= vision_tree(
        prompt@,
        shown,
        config.worker_timeout_ms as int,
    )->Object_0);
    proof {
        law_the_worker_is_asked_about_all_pictures(
            prompt@,
            shown,
            config.worker_timeout_ms as int,
        );
    }
    let mut url = worker.url;
    url.append("/vision");
    Ok(
        VisionRequest {
            url,
            token: worker.token,
            timeout_ms: config.worker_timeout_ms.saturating_add(30_000),
            body,
        },
    )
}

/// What the vision worker saw, by the status and the body of its answer, or what is
/// wrong with the answer. A body that is no JSON counts as an empty object.
pub open spec fn vision_text(code: int, status: Seq<char>, body: Option<Tree>) -> Result<
    Seq<char>,
    Seq<char>,
> {
    let value = match body {
        Some(tree) => tree,
        None => Tree::Object(Seq::empty()),
    };
    let said_no = match value.get("ok"@) {
        Some(ok) => ok.as_bool() == Some(false),
        None => false,
    };
    let said = match value.get_str("text"@) {
        Some(s) => text::trim(s),
        None => Seq::empty(),
    };
    if !http::is_success(code) || said_no {
        Err(
            "Gemini vision worker failed with status "@ + status + ": "@ + match value.get_str(
                "error"@,
            ) {
                Some(error) => error,
                None => "unknown error"@,
            },
        )
    } else if said.len() == 0 {
        Err("Gemini vision worker returned empty text"@)
    } else {
        Ok(said)
    }
}

/// What the vision worker saw, or what is wrong with its answer.
pub fn vision_reply(code: u16, status: &str, body: &Option<Json>) -> (r: Result<String, String>)
    ensures
        match vision_text(code as int, status@, json::opt_tree(*body)) {
            Ok(said) => r matches Ok(s) && s@ == said,
            Err(why) => r matches Err(e) && e@ == why,
        },
{
    let value = match body {
        Some(tree) => tree.copy(),
        None => {
            let empty = json::object(Vec::new());
            assert(empty@->Object_0 =~= Seq::empty());
            empty
        },
    };
    let said_no = match value.get("ok") {
        Some(ok) => matches!(ok.as_bool(), Some(false)),
        None => false,
    };
    if !(200 <= code && code < 300) || said_no {
        let mut message = "Gemini vision worker failed with status ".to_owned();
        message.append(status);
        message.append(": ");
        match value.get_str("error") {
            Some(error) => message.append(error),
            None => message.append("unknown error"),
        }
        return Err(message);
    }
    let said = match value.get_str("text") {
        Some(s) => text::trimmed(s),
        None => String::new(),
    };
    if said.as_str().is_empty() {
        return Err("Gemini vision worker returned empty text".to_owned());
    }
    Ok(said)
}

/// What the vision worker saw, by the text of its answer, or what is wrong with the answer.
pub fn vision_answer(code: u16, status: &str, body: &str) -> (r: Result<String, String>)
    ensures
        match vision_text(code as int, status@, json::parsed(body@)) {
            Ok(said) => r matches Ok(s) && s@ == said,
            Err(why) => r matches Err(e) && e@ == why,
        },
{
    vision_reply(code, status, &json::parse(body))
}

/// What the worker saw is told word for word, without the white space around it, where the
/// worker reports success and does not say that it failed.
pub proof fn law_what_the_worker_saw_is_told(
    code: int,
    status: Seq<char>,
    body: Tree,
    s: Seq<char>,
)
    requires
        200 <= code < 300,
        body.get("ok"@) != Some(Tree::Bool(false)),
        body.get_str("text"@) == Some(s),
    ensures
        !text::is_blank(s) ==> vision_text(code, status, Some(body)) == Ok::<Seq<char>, Seq<char>>(
            text::trim(s),
        ),
        text::is_blank(s) ==> vision_text(code, status, Some(body)) == Err::<Seq<char>, Seq<char>>(
            "Gemini vision worker returned empty text"@,
        ),
{
    text::law_blank_texts_are_trimmed_to_nothing(s);
}

/// A worker that reports no success, or that says that it failed, fails with its status and
/// with the error that it names, whatever text it gives.
pub proof fn law_failures_of_the_worker_are_told(code: int, status: Seq<char>, body: Tree)
    requires
        !(200 <= code < 300) || body.get("ok"@) == Some(Tree::Bool(false)),
    ensures
        body.get_str("error"@) matches Some(error) ==> vision_text(code, status, Some(body))
            == Err::<Seq<char>, Seq<char>>(
            "Gemini vision worker failed with status "@ + status + ": "@ + error,
        ),
        body.get_str("error"@) is None ==> vision_text(code, status, Some(body)) == Err::<
            Seq<char>,
            Seq<char>,
        >("Gemini vision worker failed with status "@ + status + ": "@ + "unknown error"@),
{
}

/// An answer that is no JSON tells nothing.
pub proof fn law_unreadable_answers_tell_nothing(code: int, status: Seq<char>)
    ensures
        vision_text(code, status, None) is Err,
        200 <= code < 300 ==> vision_text(code, status, None) == Err::<Seq<char>, Seq<char>>(
            "Gemini vision worker returned empty text"@,
        ),
{
    json::law_missing_fields_are_not_found(Seq::empty(), "ok"@);
    json::law_missing_fields_are_not_found(Seq::empty(), "text"@);
    json::law_missing_fields_are_not_found(Seq::empty(), "error"@);
}

/// A picture reaches the worker under its name, with its kind and all of its data.
pub proof fn law_pictures_reach_the_worker(filename: Seq<char>, mime: Seq<char>, data: Seq<u8>)
    ensures
        picture_tree(filename, mime, data).get_str("filename"@) == Some(filename),
        picture_tree(filename, mime, data).get_str("mime"@) == Some(mime),
        picture_tree(filename, mime, data).get_str("data_base64"@) matches Some(s)
            && attachments::base64_data(s) == Some(data),
{
    let tree = picture_tree(filename, mime, data);
    reveal_strlit("data_base64");
    reveal_strlit("filename");
    reveal_strlit("mime");
    assert("data_base64"@.len() != "filename"@.len());
    assert("data_base64"@.len() != "mime"@.len());
    assert("filename"@.len() != "mime"@.len());
    json::law_fields_are_found_by_name(tree->Object_0, 0);
    json::law_fields_are_found_by_name(tree->Object_0, 1);
    json::law_fields_are_found_by_name(tree->Object_0, 2);
    attachments::law_base64_is_read_as_it_was_written(data);
}

/// The worker is asked what the caller asked, about all pictures in their order.
pub proof fn law_the_worker_is_asked_about_all_pictures(
    prompt: Seq<char>,
    pictures: Seq<Tree>,
    timeout_ms: int,
)
    ensures
        vision_tree(prompt, pictures, timeout_ms).get_str("prompt"@) == Some(prompt),
        vision_tree(prompt, pictures, timeout_ms).get("images"@) == Some(Tree::Array(pictures)),
        vision_tree(prompt, pictures, timeout_ms).get("timeout_ms"@) == Some(
            json::int_tree(timeout_ms),
        ),
{
    let tree = vision_tree(prompt, pictures, timeout_ms);
    reveal_strlit("images");
    reveal_strlit("prompt");
    reveal_strlit("timeout_ms");
    assert("images"@[0] != "prompt"@[0]);
    assert("images"@.len() != "timeout_ms"@.len());
    assert("prompt"@.len() != "timeout_ms"@.len());
    json::law_fields_are_found_by_name(tree->Object_0, 0);
    json::law_fields_are_found_by_name(tree->Object_0, 1);
    json::law_fields_are_found_by_name(tree->Object_0, 2);
}

/// The configured token goes before the one of the file, and a blank one counts for none.
pub proof fn law_configured_tokens_go_first(a: Seq<char>, b: Seq<char>)
    ensures
        !text::is_blank(a) ==> worker_token(Some(a), Some(b)) == Some(text::trim(a)),
        text::is_blank(a) && !text::is_blank(b) ==> worker_token(Some(a), Some(b)) == Some(
            text::trim(b),
        ),
        !text::is_blank(b) ==> worker_token(None, Some(b)) == Some(text::trim(b)),
        text::is_blank(a) ==> worker_token(Some(a), None) is None,
        worker_token(None, None) is None,
{
    http::law_blank_texts_are_not_visible(a);
    http::law_blank_texts_are_not_visible(b);
}

/// The kind that the server of an attachment gives goes before the one that it came with.
pub proof fn law_served_kinds_go_first(
    filename: Seq<char>,
    explicit: Option<Seq<char>>,
    served: Seq<char>,
)
    ensures
        fetched_type(filename, explicit, Some(served)) == served,
        fetched_type(filename, explicit, None) == images::attachment_type(filename, explicit),
{
}

} // verus!
