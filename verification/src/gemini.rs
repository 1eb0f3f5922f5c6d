//! A Gemini Web client: the models it offers, its session and the requests that
//! it sends. The client decides; sending and receiving is done around it.
use crate::config::{GeminiClientConfig, GeminiModelConfig};
use crate::cookies;
use crate::frames;
use crate::http;
use crate::http::{HttpReply, Pair, PairView};
use crate::ids;
use crate::json;
use crate::json::{Json, Tree};
use crate::text;
use vstd::prelude::*;

verus! {

/// A model with the request headers that select it.
#[derive(Debug)]
pub struct GeminiModel {
    pub model_name: String,
    pub model_header: Vec<Pair>,
    pub owned_by: String,
}

/// What is known of a model.
#[verifier::ext_equal]
pub struct ModelView {
    pub model_name: Seq<char>,
    pub model_header: Seq<PairView>,
    pub owned_by: Seq<char>,
}

impl View for GeminiModel {
    type V = ModelView;

    open spec fn view(&self) -> ModelView {
        ModelView {
            model_name: self.model_name@,
            model_header: http::pairs(self.model_header@),
            owned_by: self.owned_by@,
        }
    }
}

impl GeminiModel {
    /// Whether no header name stands twice.
    pub open spec fn is_valid(&self) -> bool {
        http::names_differ(self.model_header@)
    }

    /// The same model.
    pub fn copy(&self) -> (r: GeminiModel)
        ensures
            r@ == self@,
            r.is_valid() == self.is_valid(),
    {
        GeminiModel {
            model_name: self.model_name.clone(),
            model_header: http::copy_pairs(&self.model_header),
            owned_by: self.owned_by.clone(),
        }
    }
}

/// What is known of the models of a list.
pub open spec fn model_views(models: Seq<GeminiModel>) -> Seq<ModelView> {
    models.map_values(|m: GeminiModel| m@)
}

/// Whether in none of the models a header name stands twice.
pub open spec fn models_are_valid(models: Seq<GeminiModel>) -> bool {
    forall|i: int| 0 <= i < models.len() ==> (#[trigger] models[i]).is_valid()
}

/// The header that selects the model of that number.
pub open spec fn model_selector(model_id: Seq<char>) -> PairView {
    http::pair_view(
        "x-goog-ext-525001261-jspb"@,
        "[1,null,null,null,\""@ + model_id + "\",null,null,0,[4],null,null,1]"@,
    )
}

/// A model that one header selects.
pub open spec fn model_view(
    name: Seq<char>,
    model_id: Seq<char>,
    owned_by: Seq<char>,
) -> ModelView {
    ModelView { model_name: name, model_header: seq![model_selector(model_id)], owned_by }
}

pub fn model(name: &str, model_id: &str, owned_by: &str) -> (r: GeminiModel)
    ensures
        r@ == model_view(name@, model_id@, owned_by@),
        r.is_valid(),
{
    let mut value = "[1,null,null,null,\"".to_owned();
    value.append(model_id);
    value.append("\",null,null,0,[4],null,null,1]");
    let header = vec![http::pair("x-goog-ext-525001261-jspb", value.as_str())];
    assert(http::pairs(header@) =~= seq![model_selector(model_id@)]);
    GeminiModel {
        model_name: name.to_owned(),
        model_header: header,
        owned_by: owned_by.to_owned(),
    }
}

/// The models that need no configuration.
pub open spec fn builtins() -> Seq<ModelView> {
    seq![
        model_view("gemini-3.5-flash"@, "56fdd199312815e2"@, "gemini-web"@),
        model_view("gemini-3.1-pro"@, "e6fa609c3fa255c0"@, "gemini-web"@),
        model_view("gemini-3.1-flash-lite"@, "8c46e95b1a07cecc"@, "gemini-web"@),
        model_view("gemini-3-flash"@, "56fdd199312815e2"@, "gemini-web"@),
        model_view("gemini-3-pro"@, "e6fa609c3fa255c0"@, "gemini-web"@),
    ]
}

pub fn builtin_models() -> (r: Vec<GeminiModel>)
    ensures
        model_views(r@) == builtins(),
        models_are_valid(r@),
{
    let r = vec![
        model("gemini-3.5-flash", "56fdd199312815e2", "gemini-web"),
        model("gemini-3.1-pro", "e6fa609c3fa255c0", "gemini-web"),
        model("gemini-3.1-flash-lite", "8c46e95b1a07cecc", "gemini-web"),
        model("gemini-3-flash", "56fdd199312815e2", "gemini-web"),
        model("gemini-3-pro", "e6fa609c3fa255c0", "gemini-web"),
    ];
    assert(model_views(r@) =~= builtins());
    r
}

/// The configured models, as models of the user's own.
pub open spec fn custom_models(configured: Seq<GeminiModelConfig>) -> Seq<ModelView> {
    configured.map_values(
        |m: GeminiModelConfig|
            ModelView {
                model_name: m.model_name@,
                model_header: http::pairs(m.model_header@),
                owned_by: "custom"@,
            },
    )
}

/// Whether a model of that name is in the list.
pub open spec fn has_model(models: Seq<ModelView>, name: Seq<char>) -> bool {
    exists|i: int| 0 <= i < models.len() && (#[trigger] models[i]).model_name == name
}

/// `models`, then those of `more` whose names are not taken.
pub open spec fn with_missing(models: Seq<ModelView>, more: Seq<ModelView>) -> Seq<ModelView>
    decreases more.len(),
{
    if more.len() == 0 {
        models
    } else {
        let earlier = with_missing(models, more.drop_last());
        if has_model(earlier, more.last().model_name) {
            earlier
        } else {
            earlier.push(more.last())
        }
    }
}

/// The models that a client offers: the configured ones, and where it is asked
/// for, the built-in ones whose names are not taken.
pub open spec fn offered(configured: Seq<GeminiModelConfig>, append_builtin: bool) -> Seq<
    ModelView,
> {
    if append_builtin {
        with_missing(custom_models(configured), builtins())
    } else {
        custom_models(configured)
    }
}

/// Whether a model of that name is in the list.
fn is_listed(models: &Vec<GeminiModel>, name: &str) -> (r: bool)
    ensures
        r == has_model(model_views(models@), name@),
{
    find_model(models, name).is_some()
}

/// The first model of that name.
pub open spec fn model_named(models: Seq<ModelView>, name: Seq<char>) -> Option<ModelView>
    decreases models.len(),
{
    if models.len() == 0 {
        None
    } else if models[0].model_name == name {
        Some(models[0])
    } else {
        model_named(models.drop_first(), name)
    }
}

/// The first model of that name.
fn find_model<'a>(models: &'a Vec<GeminiModel>, name: &str) -> (r: Option<&'a GeminiModel>)
    ensures
        match r {
            Some(m) => model_named(model_views(models@), name@) == Some(m@),
            None => model_named(model_views(models@), name@) is None,
        },
        r is Some <==> has_model(model_views(models@), name@),
{
    let ghost all = model_views(models@);
    let mut i: usize = 0;
    assert(all.skip(0) == all);
    while i < models.len()
        invariant
            i <= models@.len(),
            all == model_views(models@),
            model_named(all, name@) == model_named(all.skip(i as int), name@),
            forall|k: int| 0 <= k < i ==> (#[trigger] all[k]).model_name != name@,
        decreases models@.len() - i,
    {
        assert(all[i as int] == models@[i as int]@);
        assert(all.skip(i as int)[0] == all[i as int]);
        assert(all.skip(i as int).drop_first() == all.skip(i + 1));
        if text::same(models[i].model_name.as_str(), name) {
            return Some(&models[i]);
        }
        i = i + 1;
    }
    None
}

/// The models that a client offers.
pub fn offered_models(configured: &Vec<GeminiModelConfig>, append_builtin: bool) -> (r: Vec<
    GeminiModel,
>)
    ensures
        model_views(r@) == offered(configured@, append_builtin),
        models_are_valid(r@) == crate::config::models_are_valid(configured@),
{
    let ghost custom = custom_models(configured@);
    let mut models: Vec<GeminiModel> = Vec::new();
    let mut i: usize = 0;
    while i < configured.len()
        invariant
            i <= configured@.len(),
            custom == custom_models(configured@),
            model_views(models@) == custom.take(i as int),
            models@.len() == i,
            forall|k: int|
                0 <= k < i ==> (#[trigger] models@[k]).is_valid() == configured@[k].is_valid(),
        decreases configured@.len() - i,
    {
        let ghost earlier = models@;
        let next = GeminiModel {
            model_name: configured[i].model_name.clone(),
            model_header: http::copy_pairs(&configured[i].model_header),
            owned_by: "custom".to_owned(),
        };
        models.push(next);
        assert(model_views(models@) == model_views(earlier).push(next@));
        assert(next@ == custom[i as int]);
        i = i + 1;
    }
    assert(custom.take(i as int) == custom);
    assert(models_are_valid(models@) == crate::config::models_are_valid(configured@)) by {
        if models_are_valid(models@) {
            assert forall|k: int| 0 <= k < configured@.len() implies (
            #[trigger] configured@[k]).is_valid() by {
                assert(models@[k].is_valid());
            }
        }
    }
    if append_builtin {
        let more = builtin_models();
        let ghost all = builtins();
        let mut k: usize = 0;
        while k < more.len()
            invariant
                k <= more@.len(),
                all == model_views(more@),
                model_views(models@) == with_missing(custom, all.take(k as int)),
                models_are_valid(more@),
                models_are_valid(models@) == crate::config::models_are_valid(configured@),
            decreases more@.len() - k,
        {
            assert(all.take(k + 1).drop_last() == all.take(k as int));
            assert(all.take(k + 1).last() == more@[k as int]@);
            if !is_listed(&models, more[k].model_name.as_str()) {
                let ghost earlier = models@;
                let next = more[k].copy();
                models.push(next);
                assert(model_views(models@) == model_views(earlier).push(next@));
                assert(models_are_valid(models@) == models_are_valid(earlier)) by {
                    if models_are_valid(models@) {
                        assert forall|j: int| 0 <= j < earlier.len() implies (
                        #[trigger] earlier[j]).is_valid() by {
                            assert(models@[j].is_valid());
                        }
                    }
                }
            }
            k = k + 1;
        }
        assert(all.take(k as int) == all);
    }
    models
}

/// The page that hands out the first cookies.
pub const ENDPOINT_GOOGLE: &'static str = "https://www.google.com";

/// The page that opens a session.
pub const ENDPOINT_INIT: &'static str = "https://gemini.google.com/app";

/// The service that answers a prompt.
pub const ENDPOINT_GENERATE: &'static str =
    "https://gemini.google.com/_/BardChatUi/data/assistant.lamda.BardFrontendService/StreamGenerate";

/// Why a client has no answer.
#[derive(Debug)]
pub enum GeminiError {
    EmptyPrompt,
    UnknownModel(String),
    InitFailed(String),
    NoAccessToken,
    NoSession,
    GenerateFailed { status: String, body: String },
    NoCandidate,
}

impl GeminiError {
    /// What is said of the failure.
    pub open spec fn says(&self) -> Seq<char> {
        match self {
            GeminiError::EmptyPrompt => "prompt cannot be empty"@,
            GeminiError::UnknownModel(name) => "unknown model: "@ + name@,
            GeminiError::InitFailed(status) => "Gemini init failed with status "@ + status@,
            GeminiError::NoAccessToken => "SNlM0e access token not found"@,
            GeminiError::NoSession => "Gemini session is not initialized"@,
            GeminiError::GenerateFailed { status, body } => "Gemini generate failed with status "@
                + status@ + ": "@ + excerpt(body@),
            GeminiError::NoCandidate => "no Gemini text candidate found"@,
        }
    }

    /// What is said of the failure.
    pub fn message(&self) -> (r: String)
        ensures
            r@ == self.says(),
    {
        match self {
            GeminiError::EmptyPrompt => "prompt cannot be empty".to_owned(),
            GeminiError::UnknownModel(name) => {
                let mut out = "unknown model: ".to_owned();
                out.append(name.as_str());
                out
            },
            GeminiError::InitFailed(status) => {
                let mut out = "Gemini init failed with status ".to_owned();
                out.append(status.as_str());
                out
            },
            GeminiError::NoAccessToken => "SNlM0e access token not found".to_owned(),
            GeminiError::NoSession => "Gemini session is not initialized".to_owned(),
            GeminiError::GenerateFailed { status, body } => {
                let mut out = "Gemini generate failed with status ".to_owned();
                out.append(status.as_str());
                out.append(": ");
                let chars = text::chars_of(body.as_str());
                let n: usize = if chars.len() < 300 {
                    chars.len()
                } else {
                    300
                };
                let shown = text::text_between(&chars, 0, n);
                assert(shown@ == excerpt(body@));
                out.append(shown.as_str());
                out
            },
            GeminiError::NoCandidate => "no Gemini text candidate found".to_owned(),
        }
    }
}

/// The first 300 characters of a text.
pub open spec fn excerpt(s: Seq<char>) -> Seq<char> {
    if s.len() < 300 {
        s
    } else {
        s.take(300)
    }
}

/// What a session of Gemini Web is carried on with.
#[derive(Debug)]
pub struct SessionState {
    pub access_token: String,
    pub build_label: Option<String>,
    pub session_id: Option<String>,
    pub language: String,
    pub cookie_header: String,
}

/// What a session is carried on with.
#[verifier::ext_equal]
pub struct SessionView {
    pub access_token: Seq<char>,
    pub build_label: Option<Seq<char>>,
    pub session_id: Option<Seq<char>>,
    pub language: Seq<char>,
    pub cookie_header: Seq<char>,
}

impl View for SessionState {
    type V = SessionView;

    open spec fn view(&self) -> SessionView {
        SessionView {
            access_token: self.access_token@,
            build_label: http::opt_text(self.build_label),
            session_id: http::opt_text(self.session_id),
            language: self.language@,
            cookie_header: self.cookie_header@,
        }
    }
}

/// What the first group catches in the first match of a pattern in a text, as
/// `regex::Regex` finds it; none where the pattern cannot be compiled, matches
/// nowhere or has no such group.
pub uninterp spec fn regex_group(pattern: Seq<char>, text: Seq<char>) -> Option<Seq<char>>;

/// `regex::Regex::new`, `captures` and `get` of group 1. What comes back depends
/// on the pattern and the text alone.
#[verifier::external_body]
fn capture(pattern: &str, text: &str) -> (r: Option<String>)
    ensures
        http::opt_text(r) == regex_group(pattern@, text@),
{
    let compiled = regex::Regex::new(pattern).ok()?;
    compiled.captures(text).and_then(|c| c.get(1)).map(|m| m.as_str().to_string())
}

/// Finds the access token in the page that opens a session.
pub open spec fn token_pattern() -> Seq<char> {
    "\\\"SNlM0e\\\":\\s*\\\"(.*?)\\\""@
}

/// Finds the build label in the page that opens a session.
pub open spec fn build_pattern() -> Seq<char> {
    "\\\"cfb2h\\\":\\s*\\\"(.*?)\\\""@
}

/// Finds the session number in the page that opens a session.
pub open spec fn sid_pattern() -> Seq<char> {
    "\\\"FdrFJe\\\":\\s*\\\"(.*?)\\\""@
}

/// Finds the language in the page that opens a session.
pub open spec fn language_pattern() -> Seq<char> {
    "\\\"TuX5cc\\\":\\s*\\\"(.*?)\\\""@
}

/// The session that opens with what was found in the page; none without an access token.
pub open spec fn session_of(
    token: Option<Seq<char>>,
    build_label: Option<Seq<char>>,
    session_id: Option<Seq<char>>,
    language: Option<Seq<char>>,
    cookie_header: Seq<char>,
) -> Option<SessionView> {
    match token {
        Some(access_token) => Some(
            SessionView {
                access_token,
                build_label,
                session_id,
                language: match language {
                    Some(language) => language,
                    None => "en"@,
                },
                cookie_header,
            },
        ),
        None => None,
    }
}

/// The session that opens with what was found in the page.
pub fn open_session(
    token: Option<String>,
    build_label: Option<String>,
    session_id: Option<String>,
    language: Option<String>,
    cookie_header: String,
) -> (r: Result<SessionState, GeminiError>)
    ensures
        match r {
            Ok(session) => session_of(
                http::opt_text(token),
                http::opt_text(build_label),
                http::opt_text(session_id),
                http::opt_text(language),
                cookie_header@,
            ) == Some(session@),
            Err(e) => token is None && e is NoAccessToken,
        },
{
    match token {
        Some(access_token) => Ok(
            SessionState {
                access_token,
                build_label,
                session_id,
                language: match language {
                    Some(language) => language,
                    None => "en".to_owned(),
                },
                cookie_header,
            },
        ),
        None => Err(GeminiError::NoAccessToken),
    }
}

/// The session that a page opens.
pub open spec fn page_session(body: Seq<char>, cookie_header: Seq<char>) -> Option<SessionView> {
    session_of(
        regex_group(token_pattern(), body),
        regex_group(build_pattern(), body),
        regex_group(sid_pattern(), body),
        regex_group(language_pattern(), body),
        cookie_header,
    )
}

/// The session that a page opens.
pub fn read_session(body: &str, cookie_header: String) -> (r: Result<SessionState, GeminiError>)
    ensures
        match r {
            Ok(session) => page_session(body@, cookie_header@) == Some(session@),
            Err(e) => page_session(body@, cookie_header@) is None && e is NoAccessToken,
        },
{
    let token = capture("\\\"SNlM0e\\\":\\s*\\\"(.*?)\\\"", body);
    let build_label = capture("\\\"cfb2h\\\":\\s*\\\"(.*?)\\\"", body);
    let session_id = capture("\\\"FdrFJe\\\":\\s*\\\"(.*?)\\\"", body);
    let language = capture("\\\"TuX5cc\\\":\\s*\\\"(.*?)\\\"", body);
    open_session(token, build_label, session_id, language, cookie_header)
}

/// The language that requests are made in.
pub open spec fn request_language(language: Seq<char>) -> Seq<char> {
    if language.len() == 0 {
        "en"@
    } else {
        language
    }
}

/// What stands at place `i` of the 69 places of a request.
pub open spec fn slot(
    i: int,
    prompt: Seq<char>,
    language: Seq<char>,
    uuid: Seq<char>,
) -> Tree {
    if i == 0 {
        Tree::Array(
            seq![
                Tree::Str(prompt),
                json::int_tree(0),
                Tree::Null,
                Tree::Null,
                Tree::Null,
                Tree::Null,
                json::int_tree(0),
            ],
        )
    } else if i == 1 {
        Tree::Array(seq![Tree::Str(language)])
    } else if i == 2 {
        Tree::Array(
            seq![
                Tree::Str(""@),
                Tree::Str(""@),
                Tree::Str(""@),
                Tree::Null,
                Tree::Null,
                Tree::Null,
                Tree::Null,
                Tree::Null,
                Tree::Null,
                Tree::Str(""@),
            ],
        )
    } else if i == 6 || i == 41 {
        Tree::Array(seq![json::int_tree(1)])
    } else if i == 7 || i == 10 || i == 27 {
        json::int_tree(1)
    } else if i == 11 || i == 18 || i == 53 {
        json::int_tree(0)
    } else if i == 17 {
        Tree::Array(seq![Tree::Array(seq![json::int_tree(0)])])
    } else if i == 30 {
        Tree::Array(seq![json::int_tree(4)])
    } else if i == 59 {
        Tree::Str(uuid)
    } else if i == 61 {
        Tree::Array(Seq::empty())
    } else if i == 68 {
        json::int_tree(2)
    } else {
        Tree::Null
    }
}

/// An array of one item.
fn single(item: Json) -> (r: Json)
    ensures
        r@ == Tree::Array(seq![item@]),
{
    let r = json::array(vec![item]);
    assert(r@->Array_0 =~= seq![item@]);
    r
}

/// What stands at place `i` of a request.
fn slot_value(i: usize, prompt: &str, language: &str, uuid: &str) -> (r: Json)
    ensures
        r@ == slot(i as int, prompt@, language@, uuid@),
{
    if i == 0 {
        let r = json::array(
            vec![
                json::string(prompt),
                json::number(0),
                Json::Null,
                Json::Null,
                Json::Null,
                Json::Null,
                json::number(0),
            ],
        );
        assert(r@->Array_0 =~= slot(0, prompt@, language@, uuid@)->Array_0);
        r
    } else if i == 1 {
        single(json::string(language))
    } else if i == 2 {
        let r = json::array(
            vec![
                json::string(""),
                json::string(""),
                json::string(""),
                Json::Null,
                Json::Null,
                Json::Null,
                Json::Null,
                Json::Null,
                Json::Null,
                json::string(""),
            ],
        );
        assert(r@->Array_0 =~= slot(2, prompt@, language@, uuid@)->Array_0);
        r
    } else if i == 6 || i == 41 {
        single(json::number(1))
    } else if i == 7 || i == 10 || i == 27 {
        json::number(1)
    } else if i == 11 || i == 18 || i == 53 {
        json::number(0)
    } else if i == 17 {
        single(single(json::number(0)))
    } else if i == 30 {
        single(json::number(4))
    } else if i == 59 {
        json::string(uuid)
    } else if i == 61 {
        let r = json::array(Vec::new());
        assert(r@->Array_0 =~= Seq::<Tree>::empty());
        r
    } else if i == 68 {
        json::number(2)
    } else {
        Json::Null
    }
}

/// The places of a request.
pub open spec fn slots(prompt: Seq<char>, language: Seq<char>, uuid: Seq<char>) -> Tree {
    Tree::Array(Seq::new(69, |i: int| slot(i, prompt, language, uuid)))
}

/// The form field that carries a request: a JSON text in a JSON text.
pub open spec fn form_request(prompt: Seq<char>, language: Seq<char>, uuid: Seq<char>) -> Seq<
    char,
> {
    json::written(
        Tree::Array(
            seq![Tree::Null, Tree::Str(json::written(slots(prompt, language, uuid)))],
        ),
    )
}

/// The form field that carries a request.
fn form_request_text(prompt: &str, language: &str, uuid: &str) -> (r: String)
    ensures
        r@ == form_request(prompt@, language@, uuid@),
{
    let mut places: Vec<Json> = Vec::new();
    let mut i: usize = 0;
    while i < 69
        invariant
            i <= 69,
            places@.len() == i,
            forall|k: int|
                0 <= k < i ==> (#[trigger] places@[k])@ == slot(k, prompt@, language@, uuid@),
        decreases 69 - i,
    {
        places.push(slot_value(i, prompt, language, uuid));
        i = i + 1;
    }
    let inner = json::array(places);
    assert(inner@->Array_0 =~= slots(prompt@, language@, uuid@)->Array_0);
    let inner_text = inner.to_text();
    let outer = json::array(vec![Json::Null, json::string(inner_text.as_str())]);
    assert(outer@->Array_0 =~= seq![Tree::Null, Tree::Str(inner_text@)]);
    outer.to_text()
}

/// A request that answers a prompt.
#[derive(Debug)]
pub struct GenerateRequest {
    pub headers: Vec<Pair>,
    pub params: Vec<Pair>,
    pub form: Vec<Pair>,
    pub cookie: String,
}

/// What is sent with a request. Of two headers of one name the later one counts.
#[verifier::ext_equal]
pub struct RequestView {
    pub headers: Seq<PairView>,
    pub params: Seq<PairView>,
    pub form: Seq<PairView>,
    pub cookie: Seq<char>,
}

impl View for GenerateRequest {
    type V = RequestView;

    open spec fn view(&self) -> RequestView {
        RequestView {
            headers: http::pairs(self.headers@),
            params: http::pairs(self.params@),
            form: http::pairs(self.form@),
            cookie: self.cookie@,
        }
    }
}

/// A list of one pair, where there is a value.
pub open spec fn optional_pair(name: Seq<char>, value: Option<Seq<char>>) -> Seq<PairView> {
    match value {
        Some(v) => seq![http::pair_view(name, v)],
        None => Seq::empty(),
    }
}

/// The request that asks for an answer to a prompt in a session.
pub open spec fn request_for(
    session: SessionView,
    model: ModelView,
    prompt: Seq<char>,
    reqid: nat,
    uuid: Seq<char>,
) -> RequestView {
    let language = request_language(session.language);
    RequestView {
        headers: seq![
            http::pair_view(
                "content-type"@,
                "application/x-www-form-urlencoded;charset=utf-8"@,
            ),
            http::pair_view("x-same-domain"@, "1"@),
            http::pair_view("x-goog-ext-525005358-jspb"@, "[\""@ + uuid + "\",1]"@),
        ] + model.model_header,
        params: seq![
            http::pair_view("hl"@, language),
            http::pair_view("_reqid"@, text::decimal(reqid)),
            http::pair_view("rt"@, "c"@),
        ] + optional_pair("bl"@, session.build_label) + optional_pair(
            "f.sid"@,
            session.session_id,
        ),
        form: seq![
            http::pair_view("at"@, session.access_token),
            http::pair_view("f.req"@, form_request(prompt, language, uuid)),
        ],
        cookie: session.cookie_header,
    }
}

/// The request that asks for an answer to a prompt in a session.
pub fn generate_request(
    session: &SessionState,
    model: &GeminiModel,
    prompt: &str,
    reqid: u64,
    uuid: &str,
) -> (r: GenerateRequest)
    ensures
        r@ == request_for(session@, model@, prompt@, reqid as nat, uuid@),
{
    let language = if session.language.as_str().is_empty() {
        "en".to_owned()
    } else {
        session.language.clone()
    };
    let mut quoted = "[\"".to_owned();
    quoted.append(uuid);
    quoted.append("\",1]");
    let mut headers = vec![
        http::pair("content-type", "application/x-www-form-urlencoded;charset=utf-8"),
        http::pair("x-same-domain", "1"),
        http::pair("x-goog-ext-525005358-jspb", quoted.as_str()),
    ];
    let ghost own = http::pairs(headers@);
    let mut selecting = http::copy_pairs(&model.model_header);
    let ghost selected = selecting@;
    headers.append(&mut selecting);
    assert(http::pairs(headers@) == own + http::pairs(selected));
    let mut params = vec![
        http::pair("hl", language.as_str()),
        http::pair("_reqid", text::decimal_text(reqid).as_str()),
        http::pair("rt", "c"),
    ];
    let ghost always = http::pairs(params@);
    if let Some(label) = &session.build_label {
        params.push(http::pair("bl", label.as_str()));
    }
    let ghost labelled = http::pairs(params@);
    assert(labelled == always + optional_pair("bl"@, session@.build_label));
    if let Some(id) = &session.session_id {
        params.push(http::pair("f.sid", id.as_str()));
    }
    assert(http::pairs(params@) == labelled + optional_pair("f.sid"@, session@.session_id));
    let form_text = form_request_text(prompt, language.as_str(), uuid);
    let form = vec![
        http::pair("at", session.access_token.as_str()),
        http::pair("f.req", form_text.as_str()),
    ];
    let r = GenerateRequest { headers, params, form, cookie: session.cookie_header.clone() };
    assert(r@ =~~= request_for(session@, model@, prompt@, reqid as nat, uuid@));
    r
}

/// A client of one Gemini Web account.
pub struct GeminiClient {
    pub client_config: GeminiClientConfig,
    pub models: Vec<GeminiModel>,
    pub timeout_seconds: u64,
    pub reqid: u64,
    pub session: Option<SessionState>,
}

/// A prompt on its way to an answer.
#[derive(Debug)]
pub struct GenerateRun {
    pub model_name: String,
    pub prompt: String,
    pub cookie_header: String,
}

/// What happened to a prompt on its way: it was handed in; the page of first
/// cookies answered, with the cookies it sets, or could not be reached; the page
/// that opens a session answered; the service answered.
#[derive(Debug)]
pub enum GenerateEvent {
    Start,
    GoogleReply(Option<Vec<Option<String>>>),
    InitReply(HttpReply),
    Reply(HttpReply),
}

/// What is to be done next for a prompt: fetch a page with these cookies, post a
/// request, or hand out the answer.
#[derive(Debug)]
pub enum GenerateAction {
    FetchGoogle(String),
    FetchInit(String),
    Post(GenerateRequest),
    Finish(Result<String, GeminiError>),
}

/// What happened to a session that is to be opened: it is asked for; the page of first
/// cookies answered, with the cookies it sets, or could not be reached; the page that opens
/// a session answered.
#[derive(Debug)]
pub enum SessionEvent {
    Start,
    GoogleReply(Option<Vec<Option<String>>>),
    InitReply(HttpReply),
}

/// What is to be done next for a session: fetch a page with these cookies, or nothing, as it
/// is open or cannot be opened.
#[derive(Debug)]
pub enum SessionAction {
    FetchGoogle(String),
    FetchInit(String),
    Open,
    Failed(GeminiError),
}

impl SessionAction {
    /// Whether this is the failure that says so.
    pub open spec fn fails(&self, message: Seq<char>) -> bool {
        self matches SessionAction::Failed(e) && e.says() == message
    }
}

impl GenerateAction {
    /// Whether this hands out the failure that says so.
    pub open spec fn fails(&self, message: Seq<char>) -> bool {
        self matches GenerateAction::Finish(Err(e)) && e.says() == message
    }
}

impl GeminiClient {
    /// Whether in none of the models a header name stands twice.
    pub open spec fn is_valid(&self) -> bool {
        models_are_valid(self.models@)
    }

    pub fn new(
        client_config: GeminiClientConfig,
        configured_models: Vec<GeminiModelConfig>,
        timeout_seconds: u64,
        append_builtin: bool,
    ) -> (r: GeminiClient)
        ensures
            r.client_config == client_config,
            model_views(r.models@) == offered(configured_models@, append_builtin),
            r.timeout_seconds == timeout_seconds,
            r.reqid == 10_000,
            r.session is None,
            r.is_valid() == crate::config::models_are_valid(configured_models@),
    {
        let models = offered_models(&configured_models, append_builtin);
        GeminiClient { client_config, models, timeout_seconds, reqid: 10_000, session: None }
    }

    pub fn models(&self) -> (r: Vec<GeminiModel>)
        ensures
            model_views(r@) == model_views(self.models@),
            models_are_valid(r@) == self.is_valid(),
    {
        let mut out: Vec<GeminiModel> = Vec::new();
        let mut i: usize = 0;
        while i < self.models.len()
            invariant
                i <= self.models@.len(),
                model_views(out@) == model_views(self.models@).take(i as int),
                out@.len() == i,
                forall|k: int|
                    0 <= k < i ==> (#[trigger] out@[k]).is_valid() == self.models@[k].is_valid(),
            decreases self.models@.len() - i,
        {
            let ghost earlier = out@;
            let next = self.models[i].copy();
            out.push(next);
            assert(model_views(out@) == model_views(earlier).push(next@));
            i = i + 1;
        }
        assert(model_views(self.models@).take(i as int) == model_views(self.models@));
        assert(models_are_valid(out@) == self.is_valid()) by {
            if models_are_valid(out@) {
                assert forall|k: int| 0 <= k < self.models@.len() implies (
                #[trigger] self.models@[k]).is_valid() by {
                    assert(out@[k].is_valid());
                }
            }
        }
        out
    }

    /// The proxy to go through, if one is set.
    pub fn proxy(&self) -> (r: Option<String>)
        ensures
            http::opt_text(r) == cookies::nonempty(self.client_config.proxy),
    {
        match &self.client_config.proxy {
            Some(proxy) => if proxy.as_str().is_empty() {
                None
            } else {
                Some(proxy.clone())
            },
            None => None,
        }
    }

    /// The headers of every request.
    pub fn default_headers(&self) -> (r: Vec<Pair>)
        ensures
            http::pairs(r@) == seq![
                http::pair_view(
                    "user-agent"@,
                    "Mozilla/5.0 (Windows NT 10.0; Win64; x64) AppleWebKit/537.36 (KHTML, like Gecko) Chrome/136.0.0.0 Safari/537.36"@,
                ),
                http::pair_view("origin"@, "https://gemini.google.com"@),
                http::pair_view("referer"@, "https://gemini.google.com/"@),
            ],
    {
        let r = vec![
            http::pair(
                "user-agent",
                "Mozilla/5.0 (Windows NT 10.0; Win64; x64) AppleWebKit/537.36 (KHTML, like Gecko) Chrome/136.0.0.0 Safari/537.36",
            ),
            http::pair("origin", "https://gemini.google.com"),
            http::pair("referer", "https://gemini.google.com/"),
        ];
        assert(http::pairs(r@) =~= seq![
            http::pair_view(
                "user-agent"@,
                "Mozilla/5.0 (Windows NT 10.0; Win64; x64) AppleWebKit/537.36 (KHTML, like Gecko) Chrome/136.0.0.0 Safari/537.36"@,
            ),
            http::pair_view("origin"@, "https://gemini.google.com"@),
            http::pair_view("referer"@, "https://gemini.google.com/"@),
        ]);
        r
    }

    /// Whether a client has the same settings as another one.
    pub open spec fn same_settings(&self, other: &GeminiClient) -> bool {
        &&& self.client_config == other.client_config
        &&& self.models == other.models
        &&& self.timeout_seconds == other.timeout_seconds
    }

    /// The model that a prompt is for.
    pub open spec fn model_for(&self, run: &GenerateRun) -> Option<ModelView> {
        model_named(model_views(self.models@), run.model_name@)
    }

    /// How a prompt is posted: with the next number, and with a fresh identifier
    /// in capitals. The session is kept.
    pub open spec fn posts(
        &self,
        after: &GeminiClient,
        run: &GenerateRun,
        action: &GenerateAction,
    ) -> bool {
        &&& after.same_settings(self)
        &&& after.session == self.session
        &&& match self.model_for(run) {
            None => after.reqid == self.reqid && action.fails("unknown model: "@ + run.model_name@),
            Some(model) => match self.session {
                None => after.reqid == self.reqid && action.fails(
                    "Gemini session is not initialized"@,
                ),
                Some(session) => {
                    &&& after.reqid == self.reqid.wrapping_add(100_000)
                    &&& action matches GenerateAction::Post(request) && exists|uuid: Seq<char>| #[trigger]
                        ids::is_uuid(uuid) && request@ == request_for(
                            session@,
                            model,
                            run.prompt@,
                            self.reqid as nat,
                            text::ascii_upper(uuid),
                        )
                },
            },
        }
    }

    /// Posts a prompt.
    fn post(&mut self, run: &GenerateRun) -> (action: GenerateAction)
        ensures
            old(self).posts(final(self), run, &action),
    {
        match find_model(&self.models, run.model_name.as_str()) {
            None => GenerateAction::Finish(Err(GeminiError::UnknownModel(run.model_name.clone()))),
            Some(model) => {
                match &self.session {
                    None => GenerateAction::Finish(Err(GeminiError::NoSession)),
                    Some(session) => {
                        let reqid: u64 = self.reqid;
                        let fresh = ids::fresh_uuid();
                        let uuid = text::ascii_uppercase(fresh.as_str());
                        let request = generate_request(
                            session,
                            model,
                            run.prompt.as_str(),
                            reqid,
                            uuid.as_str(),
                        );
                        assert(ids::is_uuid(fresh@));
                        self.reqid = reqid.wrapping_add(100_000);
                        GenerateAction::Post(request)
                    },
                }
            },
        }
    }

    /// Takes a session one step on its way to be opened, with the cookies that were gathered
    /// for it.
    pub fn ensure_session(&mut self, cookie_header: &mut String, event: SessionEvent) -> (action:
        SessionAction)
        ensures
            final(self).same_settings(old(self)),
            final(self).is_valid() == old(self).is_valid(),
            final(self).reqid == old(self).reqid,
            match event {
                SessionEvent::Start => {
                    &&& *final(self) == *old(self)
                    &&& if old(self).session is Some {
                        &&& *final(cookie_header) == *old(cookie_header)
                        &&& action is Open
                    } else {
                        &&& final(cookie_header)@ == cookies::client_cookies(
                            old(self).client_config,
                        )
                        &&& action matches SessionAction::FetchGoogle(cookie) && cookie@ == final(
                            cookie_header)@
                    }
                },
                SessionEvent::GoogleReply(set) => {
                    &&& *final(self) == *old(self)
                    &&& final(cookie_header)@ == match set {
                        Some(raws) => cookies::with_cookies(
                            old(cookie_header)@,
                            cookies::opt_views(raws@),
                        ),
                        None => old(cookie_header)@,
                    }
                    &&& action matches SessionAction::FetchInit(cookie) && cookie@ == final(
                        cookie_header)@
                },
                SessionEvent::InitReply(reply) => if !http::is_success(reply.code as int) {
                    &&& *final(self) == *old(self)
                    &&& *final(cookie_header) == *old(cookie_header)
                    &&& action.fails("Gemini init failed with status "@ + reply.status@)
                } else {
                    &&& final(cookie_header)@ == cookies::with_cookies(
                        old(cookie_header)@,
                        cookies::opt_views(reply.set_cookies@),
                    )
                    &&& match page_session(reply.body@, final(cookie_header)@) {
                        None => *final(self) == *old(self) && action.fails(
                            "SNlM0e access token not found"@,
                        ),
                        Some(session) => {
                            &&& final(self).session matches Some(s) && s@ == session
                            &&& action is Open
                        },
                    }
                },
            },
    {
        match event {
            SessionEvent::Start => {
                if self.session.is_some() {
                    return SessionAction::Open;
                }
                *cookie_header = cookies::cookie_header(&self.client_config);
                SessionAction::FetchGoogle(cookie_header.clone())
            },
            SessionEvent::GoogleReply(set) => {
                if let Some(raws) = &set {
                    cookies::merge_set_cookie(cookie_header, raws);
                }
                SessionAction::FetchInit(cookie_header.clone())
            },
            SessionEvent::InitReply(reply) => {
                if !(200 <= reply.code && reply.code < 300) {
                    return SessionAction::Failed(GeminiError::InitFailed(reply.status));
                }
                cookies::merge_set_cookie(cookie_header, &reply.set_cookies);
                match read_session(reply.body.as_str(), cookie_header.clone()) {
                    Err(e) => SessionAction::Failed(e),
                    Ok(session) => {
                        self.session = Some(session);
                        SessionAction::Open
                    },
                }
            },
        }
    }

    /// How that session is opened and a prompt posted in it.
    pub open spec fn opens_and_posts(
        &self,
        after: &GeminiClient,
        run: &GenerateRun,
        action: &GenerateAction,
        session: SessionView,
    ) -> bool {
        exists|opened: GeminiClient|
            {
                &&& opened.same_settings(self)
                &&& opened.reqid == self.reqid
                &&& opened.session matches Some(s) && s@ == session
                &&& #[trigger] opened.posts(after, run, action)
            }
    }

    /// Takes a session one step on its way to be opened, and posts a prompt once it is open.
    fn open_and_post(&mut self, run: &mut GenerateRun, event: SessionEvent) -> (action:
        GenerateAction)
        ensures
            final(self).same_settings(old(self)),
            final(run).model_name == old(run).model_name,
            final(run).prompt == old(run).prompt,
            match event {
                SessionEvent::Start => if old(self).session is Some {
                    &&& *final(run) == *old(run)
                    &&& old(self).posts(final(self), old(run), &action)
                } else {
                    &&& *final(self) == *old(self)
                    &&& final(run).cookie_header@ == cookies::client_cookies(
                        old(self).client_config,
                    )
                    &&& action matches GenerateAction::FetchGoogle(cookie) && cookie@ == final(
                        run).cookie_header@
                },
                SessionEvent::GoogleReply(set) => {
                    &&& *final(self) == *old(self)
                    &&& final(run).cookie_header@ == match set {
                        Some(raws) => cookies::with_cookies(
                            old(run).cookie_header@,
                            cookies::opt_views(raws@),
                        ),
                        None => old(run).cookie_header@,
                    }
                    &&& action matches GenerateAction::FetchInit(cookie) && cookie@ == final(
                        run).cookie_header@
                },
                SessionEvent::InitReply(reply) => if !http::is_success(reply.code as int) {
                    &&& *final(self) == *old(self)
                    &&& *final(run) == *old(run)
                    &&& action.fails("Gemini init failed with status "@ + reply.status@)
                } else {
                    &&& final(run).cookie_header@ == cookies::with_cookies(
                        old(run).cookie_header@,
                        cookies::opt_views(reply.set_cookies@),
                    )
                    &&& match page_session(reply.body@, final(run).cookie_header@) {
                        None => *final(self) == *old(self) && action.fails(
                            "SNlM0e access token not found"@,
                        ),
                        Some(session) => old(self).opens_and_posts(
                            final(self),
                            final(run),
                            &action,
                            session,
                        ),
                    }
                },
            },
    {
        match self.ensure_session(&mut run.cookie_header, event) {
            SessionAction::FetchGoogle(cookie) => GenerateAction::FetchGoogle(cookie),
            SessionAction::FetchInit(cookie) => GenerateAction::FetchInit(cookie),
            SessionAction::Failed(e) => GenerateAction::Finish(Err(e)),
            SessionAction::Open => {
                let ghost opened = *self;
                let action = self.post(run);
                assert(opened.posts(self, run, &action));
                action
            },
        }
    }

    /// Takes a prompt one step on its way to an answer.
    pub fn generate(&mut self, run: &mut GenerateRun, event: GenerateEvent) -> (action:
        GenerateAction)
        ensures
            final(self).same_settings(old(self)),
            final(self).is_valid() == old(self).is_valid(),
            final(run).model_name == old(run).model_name,
            final(run).prompt == old(run).prompt,
            match event {
                GenerateEvent::Start => if text::trim(old(run).prompt@).len() == 0 {
                    &&& *final(self) == *old(self)
                    &&& *final(run) == *old(run)
                    &&& action.fails("prompt cannot be empty"@)
                } else if old(self).model_for(old(run)) is None {
                    &&& *final(self) == *old(self)
                    &&& *final(run) == *old(run)
                    &&& action.fails("unknown model: "@ + old(run).model_name@)
                } else if old(self).session is Some {
                    &&& *final(run) == *old(run)
                    &&& old(self).posts(final(self), old(run), &action)
                } else {
                    &&& *final(self) == *old(self)
                    &&& final(run).cookie_header@ == cookies::client_cookies(
                        old(self).client_config,
                    )
                    &&& action matches GenerateAction::FetchGoogle(cookie) && cookie@ == final(run).cookie_header@
                },
                GenerateEvent::GoogleReply(set) => {
                    &&& *final(self) == *old(self)
                    &&& final(run).cookie_header@ == match set {
                        Some(raws) => cookies::with_cookies(
                            old(run).cookie_header@,
                            cookies::opt_views(raws@),
                        ),
                        None => old(run).cookie_header@,
                    }
                    &&& action matches GenerateAction::FetchInit(cookie) && cookie@ == final(run).cookie_header@
                },
                GenerateEvent::InitReply(reply) => if !http::is_success(reply.code as int) {
                    &&& *final(self) == *old(self)
                    &&& *final(run) == *old(run)
                    &&& action.fails("Gemini init failed with status "@ + reply.status@)
                } else {
                    &&& final(run).cookie_header@ == cookies::with_cookies(
                        old(run).cookie_header@,
                        cookies::opt_views(reply.set_cookies@),
                    )
                    &&& match page_session(reply.body@, final(run).cookie_header@) {
                        None => *final(self) == *old(self) && action.fails(
                            "SNlM0e access token not found"@,
                        ),
                        Some(session) => old(self).opens_and_posts(
                            final(self),
                            final(run),
                            &action,
                            session,
                        ),
                    }
                },
                GenerateEvent::Reply(reply) => {
                    &&& *final(run) == *old(run)
                    &&& final(self).reqid == old(self).reqid
                    &&& if !http::is_success(reply.code as int) {
                        &&& final(self).session is None
                        &&& action.fails(
                            "Gemini generate failed with status "@ + reply.status@ + ": "@
                                + excerpt(reply.body@),
                        )
                    } else {
                        &&& final(self).session == old(self).session
                        &&& if frames::response_text(reply.body@).len() == 0 {
                            action.fails("no Gemini text candidate found"@)
                        } else {
                            action matches GenerateAction::Finish(Ok(said)) && said@
                                == frames::response_text(reply.body@)
                        }
                    }
                },
            },
    {
        match event {
            GenerateEvent::Start => {
                if text::trimmed(run.prompt.as_str()).as_str().is_empty() {
                    return GenerateAction::Finish(Err(GeminiError::EmptyPrompt));
                }
                if find_model(&self.models, run.model_name.as_str()).is_none() {
                    return GenerateAction::Finish(
                        Err(GeminiError::UnknownModel(run.model_name.clone())),
                    );
                }
                self.open_and_post(run, SessionEvent::Start)
            },
            GenerateEvent::GoogleReply(set) => self.open_and_post(
                run,
                SessionEvent::GoogleReply(set),
            ),
            GenerateEvent::InitReply(reply) => self.open_and_post(
                run,
                SessionEvent::InitReply(reply),
            ),
            GenerateEvent::Reply(reply) => {
                if !(200 <= reply.code && reply.code < 300) {
                    self.session = None;
                    return GenerateAction::Finish(
                        Err(GeminiError::GenerateFailed { status: reply.status, body: reply.body }),
                    );
                }
                match frames::extract_text_from_response(reply.body.as_str()) {
                    Some(said) => GenerateAction::Finish(Ok(said)),
                    None => GenerateAction::Finish(Err(GeminiError::NoCandidate)),
                }
            },
        }
    }
}

/// Every header that selects a model goes with a request for it, and no later header of the
/// request has its name.
pub proof fn law_selecting_headers_are_sent(
    session: SessionView,
    model: GeminiModel,
    prompt: Seq<char>,
    reqid: nat,
    uuid: Seq<char>,
    i: int,
)
    requires
        model.is_valid(),
        0 <= i < model.model_header@.len(),
    ensures
        ({
            let headers = request_for(session, model@, prompt, reqid, uuid).headers;
            &&& headers.len() == 3 + model.model_header@.len()
            &&& headers[3 + i] == model.model_header@[i]@
            &&& forall|j: int|
                3 + i < j < headers.len() ==> (#[trigger] headers[j]).name
                    != model.model_header@[i].name@
        }),
{
    let headers = request_for(session, model@, prompt, reqid, uuid).headers;
    assert forall|j: int| 3 + i < j < headers.len() implies (#[trigger] headers[j]).name
        != model.model_header@[i].name@ by {
        assert(headers[j] == model.model_header@[j - 3]@);
    }
}

/// Whatever the configured models are, a client that offers the built-in models
/// offers one of each of their names.
pub proof fn law_builtin_names_are_offered(configured: Seq<GeminiModelConfig>, i: int)
    requires
        0 <= i < builtins().len(),
    ensures
        has_model(offered(configured, true), builtins()[i].model_name),
{
    lemma_missing_is_added(custom_models(configured), builtins(), i);
}

proof fn lemma_missing_is_added(models: Seq<ModelView>, more: Seq<ModelView>, i: int)
    requires
        0 <= i < more.len(),
    ensures
        has_model(with_missing(models, more), more[i].model_name),
    decreases more.len(),
{
    let earlier = with_missing(models, more.drop_last());
    if i == more.len() - 1 {
        if !has_model(earlier, more.last().model_name) {
            let all = with_missing(models, more);
            assert(all[all.len() - 1] == more.last());
        }
    } else {
        lemma_missing_is_added(models, more.drop_last(), i);
        let k = choose|k: int|
            0 <= k < earlier.len() && (#[trigger] earlier[k]).model_name == more[i].model_name;
        assert(with_missing(models, more)[k] == earlier[k]);
    }
}

/// A configured model goes before a built-in one of its name: what a client finds
/// under the name is the first configured model that has it.
pub proof fn law_configured_models_go_first(
    configured: Seq<GeminiModelConfig>,
    append_builtin: bool,
    name: Seq<char>,
)
    requires
        has_model(custom_models(configured), name),
    ensures
        model_named(offered(configured, append_builtin), name) == model_named(
            custom_models(configured),
            name,
        ),
{
    if append_builtin {
        let custom = custom_models(configured);
        lemma_missing_come_last(custom, builtins());
        lemma_found_at_the_front(custom, offered(configured, true), name);
    }
}

proof fn lemma_missing_come_last(models: Seq<ModelView>, more: Seq<ModelView>)
    ensures
        models.len() <= with_missing(models, more).len(),
        with_missing(models, more).take(models.len() as int) == models,
    decreases more.len(),
{
    if more.len() == 0 {
        assert(models.take(models.len() as int) == models);
    } else {
        lemma_missing_come_last(models, more.drop_last());
        let earlier = with_missing(models, more.drop_last());
        assert(with_missing(models, more).take(models.len() as int) == earlier.take(
            models.len() as int,
        ));
    }
}

proof fn lemma_found_at_the_front(front: Seq<ModelView>, all: Seq<ModelView>, name: Seq<char>)
    requires
        front.len() <= all.len(),
        all.take(front.len() as int) == front,
        has_model(front, name),
    ensures
        model_named(all, name) == model_named(front, name),
    decreases front.len(),
{
    let k = choose|k: int| 0 <= k < front.len() && (#[trigger] front[k]).model_name == name;
    assert(front.len() > 0);
    assert(all[0] == all.take(front.len() as int)[0]);
    if front[0].model_name != name {
        assert(front.drop_first()[k - 1] == front[k]);
        assert(all.drop_first().take(front.len() - 1) == front.drop_first()) by {
            assert forall|j: int| 0 <= j < front.len() - 1 implies all.drop_first().take(
                front.len() - 1,
            )[j] == front.drop_first()[j] by {
                assert(all.take(front.len() as int)[j + 1] == front[j + 1]);
            }
        }
        lemma_found_at_the_front(front.drop_first(), all.drop_first(), name);
    }
}

/// A client finds the first model of a name, and none where no model has it.
pub proof fn law_models_are_found_by_name(before: Seq<ModelView>, model: ModelView, after: Seq<ModelView>)
    requires
        forall|i: int|
            0 <= i < before.len() ==> (#[trigger] before[i]).model_name != model.model_name,
    ensures
        model_named(before.push(model) + after, model.model_name) == Some(model),
        model_named(before, model.model_name) is None,
    decreases before.len(),
{
    let all = before.push(model) + after;
    if before.len() == 0 {
        assert(all[0] == model);
    } else {
        assert(all[0] == before[0]);
        assert(before[0].model_name != model.model_name);
        let rest = before.drop_first();
        assert forall|i: int| 0 <= i < rest.len() implies (#[trigger] rest[i]).model_name
            != model.model_name by {
            assert(before[i + 1].model_name != model.model_name);
        }
        assert(all.drop_first() =~= rest.push(model) + after);
        law_models_are_found_by_name(rest, model, after);
    }
}

/// Every configured model is offered in its place, under its name, with its headers and as one
/// of the user's own.
pub proof fn law_configured_models_are_offered(
    configured: Seq<GeminiModelConfig>,
    append_builtin: bool,
    i: int,
)
    requires
        0 <= i < configured.len(),
    ensures
        ({
            let models = offered(configured, append_builtin);
            &&& models.len() >= configured.len()
            &&& models[i].model_name == configured[i].model_name@
            &&& models[i].model_header == http::pairs(configured[i].model_header@)
            &&& models[i].owned_by == "custom"@
            &&& !append_builtin ==> models.len() == configured.len()
        }),
{
    let custom = custom_models(configured);
    lemma_missing_come_last(custom, builtins());
    let all = with_missing(custom, builtins());
    assert(all.take(custom.len() as int)[i] == all[i]);
}

/// Whether a built-in model has that name and is selected by that number.
pub open spec fn is_builtin(name: Seq<char>, number: Seq<char>) -> bool {
    ||| (name == "gemini-3.5-flash"@ && number == "56fdd199312815e2"@)
    ||| (name == "gemini-3.1-pro"@ && number == "e6fa609c3fa255c0"@)
    ||| (name == "gemini-3.1-flash-lite"@ && number == "8c46e95b1a07cecc"@)
    ||| (name == "gemini-3-flash"@ && number == "56fdd199312815e2"@)
    ||| (name == "gemini-3-pro"@ && number == "e6fa609c3fa255c0"@)
}

/// A built-in model whose name is not configured is selected by its number in the header that
/// Gemini Web reads it from.
pub proof fn law_builtin_models_are_selected_by_number(
    configured: Seq<GeminiModelConfig>,
    name: Seq<char>,
    number: Seq<char>,
)
    requires
        is_builtin(name, number),
        !has_model(custom_models(configured), name),
    ensures
        model_named(offered(configured, true), name) matches Some(model) && {
            &&& model.model_name == name
            &&& model.owned_by == "gemini-web"@
            &&& model.model_header.len() == 1
            &&& model.model_header[0].name == "x-goog-ext-525001261-jspb"@
            &&& model.model_header[0].value == "[1,null,null,null,\""@ + number
                + "\",null,null,0,[4],null,null,1]"@
        },
{
    let custom = custom_models(configured);
    let all = builtins();
    assert(all[0] == model_view("gemini-3.5-flash"@, "56fdd199312815e2"@, "gemini-web"@));
    assert(all[1] == model_view("gemini-3.1-pro"@, "e6fa609c3fa255c0"@, "gemini-web"@));
    assert(all[2] == model_view("gemini-3.1-flash-lite"@, "8c46e95b1a07cecc"@, "gemini-web"@));
    assert(all[3] == model_view("gemini-3-flash"@, "56fdd199312815e2"@, "gemini-web"@));
    assert(all[4] == model_view("gemini-3-pro"@, "e6fa609c3fa255c0"@, "gemini-web"@));
    reveal_strlit("gemini-3.5-flash");
    reveal_strlit("gemini-3.1-pro");
    reveal_strlit("gemini-3.1-flash-lite");
    reveal_strlit("gemini-3-flash");
    reveal_strlit("gemini-3-pro");
    assert("gemini-3.5-flash"@.len() != "gemini-3.1-pro"@.len());
    assert("gemini-3.5-flash"@.len() != "gemini-3.1-flash-lite"@.len());
    assert("gemini-3.1-pro"@.len() != "gemini-3.1-flash-lite"@.len());
    assert("gemini-3.5-flash"@.len() != "gemini-3-flash"@.len());
    assert("gemini-3.1-pro"@[8] != "gemini-3-flash"@[8]);
    assert("gemini-3.1-flash-lite"@.len() != "gemini-3-flash"@.len());
    assert("gemini-3.5-flash"@.len() != "gemini-3-pro"@.len());
    assert("gemini-3.1-pro"@.len() != "gemini-3-pro"@.len());
    assert("gemini-3.1-flash-lite"@.len() != "gemini-3-pro"@.len());
    assert("gemini-3-flash"@.len() != "gemini-3-pro"@.len());
    if name == "gemini-3.5-flash"@ && number == "56fdd199312815e2"@ {
        lemma_builtin_is_found(custom, all, 0);
    }
    if name == "gemini-3.1-pro"@ && number == "e6fa609c3fa255c0"@ {
        lemma_builtin_is_found(custom, all, 1);
    }
    if name == "gemini-3.1-flash-lite"@ && number == "8c46e95b1a07cecc"@ {
        lemma_builtin_is_found(custom, all, 2);
    }
    if name == "gemini-3-flash"@ && number == "56fdd199312815e2"@ {
        lemma_builtin_is_found(custom, all, 3);
    }
    if name == "gemini-3-pro"@ && number == "e6fa609c3fa255c0"@ {
        lemma_builtin_is_found(custom, all, 4);
    }
}

proof fn lemma_builtin_is_found(models: Seq<ModelView>, more: Seq<ModelView>, i: int)
    requires
        0 <= i < more.len(),
        !has_model(models, more[i].model_name),
        forall|j: int|
            0 <= j < more.len() && j != i ==> (#[trigger] more[j]).model_name
                != more[i].model_name,
    ensures
        model_named(with_missing(models, more), more[i].model_name) == Some(more[i]),
    decreases more.len(),
{
    let name = more[i].model_name;
    let shorter = more.drop_last();
    let earlier = with_missing(models, shorter);
    if i == more.len() - 1 {
        assert forall|j: int| 0 <= j < shorter.len() implies (#[trigger] shorter[j]).model_name
            != name by {
            assert(more[j].model_name != name);
        }
        lemma_name_is_not_added(models, shorter, name);
        assert forall|j: int| 0 <= j < earlier.len() implies (#[trigger] earlier[j]).model_name
            != name by {}
        law_models_are_found_by_name(earlier, more[i], Seq::empty());
        assert(earlier.push(more[i]) + Seq::<ModelView>::empty() =~= earlier.push(more[i]));
    } else {
        assert(shorter[i] == more[i]);
        assert forall|j: int| 0 <= j < shorter.len() && j != i implies (
        #[trigger] shorter[j]).model_name != shorter[i].model_name by {
            assert(more[j].model_name != name);
        }
        lemma_builtin_is_found(models, shorter, i);
        lemma_missing_is_added(models, shorter, i);
        let all = with_missing(models, more);
        assert(all.take(earlier.len() as int) =~= earlier);
        lemma_found_at_the_front(earlier, all, name);
    }
}

proof fn lemma_name_is_not_added(models: Seq<ModelView>, more: Seq<ModelView>, name: Seq<char>)
    requires
        !has_model(models, name),
        forall|j: int| 0 <= j < more.len() ==> (#[trigger] more[j]).model_name != name,
    ensures
        !has_model(with_missing(models, more), name),
    decreases more.len(),
{
    if more.len() > 0 {
        let shorter = more.drop_last();
        assert forall|j: int| 0 <= j < shorter.len() implies (#[trigger] shorter[j]).model_name
            != name by {
            assert(more[j].model_name != name);
        }
        lemma_name_is_not_added(models, shorter, name);
        assert(more[more.len() - 1].model_name != name);
        let earlier = with_missing(models, shorter);
        let all = with_missing(models, more);
        if has_model(all, name) {
            let k = choose|k: int| 0 <= k < all.len() && (#[trigger] all[k]).model_name == name;
            if k < earlier.len() {
                assert(earlier[k].model_name == name);
            }
        }
    }
}

/// A failed answer is told with its beginning: all of a short one, the first 300 characters of
/// a long one.
pub proof fn law_long_answers_are_cut(s: Seq<char>, rest: Seq<char>)
    ensures
        s.len() <= 300 ==> excerpt(s) == s,
        s.len() == 300 ==> excerpt(s + rest) == s,
{
    if s.len() == 300 {
        assert(s.take(300) =~= s);
        assert((s + rest).take(300) =~= s);
    }
}

/// A session is opened by the access token of its page, and carried on with what else the page
/// holds and with the cookies that were gathered; in English where the page names no language.
pub proof fn law_sessions_are_opened_by_their_token(
    body: Seq<char>,
    cookie_header: Seq<char>,
)
    ensures
        page_session(body, cookie_header) is Some <==> regex_group(
            "\\\"SNlM0e\\\":\\s*\\\"(.*?)\\\""@,
            body,
        ) is Some,
        page_session(body, cookie_header) matches Some(session) ==> {
            &&& Some(session.access_token) == regex_group(
                "\\\"SNlM0e\\\":\\s*\\\"(.*?)\\\""@,
                body,
            )
            &&& session.build_label == regex_group("\\\"cfb2h\\\":\\s*\\\"(.*?)\\\""@, body)
            &&& session.session_id == regex_group("\\\"FdrFJe\\\":\\s*\\\"(.*?)\\\""@, body)
            &&& session.cookie_header == cookie_header
            &&& match regex_group("\\\"TuX5cc\\\":\\s*\\\"(.*?)\\\""@, body) {
                Some(language) => session.language == language,
                None => session.language == "en"@,
            }
        },
{
}

/// The value of the last pair of that name in a list.
pub open spec fn sent_as(list: Seq<PairView>, name: Seq<char>) -> Option<Seq<char>>
    decreases list.len(),
{
    if list.len() == 0 {
        None
    } else if list.last().name == name {
        Some(list.last().value)
    } else {
        sent_as(list.drop_last(), name)
    }
}

proof fn lemma_sent_as(list: Seq<PairView>, name: Seq<char>, i: int)
    requires
        0 <= i < list.len(),
        list[i].name == name,
        forall|j: int| i < j < list.len() ==> (#[trigger] list[j]).name != name,
    ensures
        sent_as(list, name) == Some(list[i].value),
    decreases list.len(),
{
    if i < list.len() - 1 {
        assert(list[list.len() - 1].name != name);
        let shorter = list.drop_last();
        assert forall|j: int| i < j < shorter.len() implies (#[trigger] shorter[j]).name != name by {
            assert(list[j].name != name);
        }
        lemma_sent_as(shorter, name, i);
    }
}

proof fn lemma_not_sent(list: Seq<PairView>, name: Seq<char>)
    requires
        forall|j: int| 0 <= j < list.len() ==> (#[trigger] list[j]).name != name,
    ensures
        sent_as(list, name) is None,
    decreases list.len(),
{
    if list.len() > 0 {
        assert(list[list.len() - 1].name != name);
        let shorter = list.drop_last();
        assert forall|j: int| 0 <= j < shorter.len() implies (#[trigger] shorter[j]).name != name by {
            assert(list[j].name != name);
        }
        lemma_not_sent(shorter, name);
    }
}

/// A request is posted in its session: with the token, the cookies, the build label and the
/// number of the session, in its language, or in English where it has none, and under its own
/// number.
pub proof fn law_requests_are_posted_in_their_session(
    session: SessionView,
    model: ModelView,
    prompt: Seq<char>,
    reqid: nat,
    uuid: Seq<char>,
)
    ensures
        ({
            let request = request_for(session, model, prompt, reqid, uuid);
            &&& request.cookie == session.cookie_header
            &&& sent_as(request.form, "at"@) == Some(session.access_token)
            &&& sent_as(request.params, "_reqid"@) == Some(text::decimal(reqid))
            &&& sent_as(request.params, "rt"@) == Some("c"@)
            &&& sent_as(request.params, "bl"@) == session.build_label
            &&& sent_as(request.params, "f.sid"@) == session.session_id
            &&& session.language.len() > 0 ==> sent_as(request.params, "hl"@) == Some(
                session.language,
            )
            &&& session.language.len() == 0 ==> sent_as(request.params, "hl"@) == Some("en"@)
            &&& sent_as(request.form, "f.req"@) == Some(
                form_request(
                    prompt,
                    if session.language.len() > 0 {
                        session.language
                    } else {
                        "en"@
                    },
                    uuid,
                ),
            )
        }),
{
    let request = request_for(session, model, prompt, reqid, uuid);
    reveal_strlit("at");
    reveal_strlit("f.req");
    reveal_strlit("hl");
    reveal_strlit("_reqid");
    reveal_strlit("rt");
    reveal_strlit("bl");
    reveal_strlit("f.sid");
    assert("at"@.len() == 2 && "f.req"@.len() == 5 && "_reqid"@.len() == 6 && "f.sid"@.len() == 5);
    assert("hl"@.len() == 2 && "rt"@.len() == 2 && "bl"@.len() == 2);
    assert("hl"@[0] == 'h' && "rt"@[0] == 'r' && "bl"@[0] == 'b');
    lemma_sent_as(request.form, "at"@, 0);
    lemma_sent_as(request.form, "f.req"@, 1);
    let label = optional_pair("bl"@, session.build_label);
    let id = optional_pair("f.sid"@, session.session_id);
    let params = request.params;
    assert(params.len() == 3 + label.len() + id.len());
    assert forall|j: int| 3 <= j < params.len() implies (#[trigger] params[j]).name == if j < 3
        + label.len() {
        "bl"@
    } else {
        "f.sid"@
    } by {}
    lemma_sent_as(params, "hl"@, 0);
    lemma_sent_as(params, "_reqid"@, 1);
    lemma_sent_as(params, "rt"@, 2);
    if session.build_label is Some {
        lemma_sent_as(params, "bl"@, 3);
    } else {
        lemma_not_sent(params, "bl"@);
    }
    if session.session_id is Some {
        lemma_sent_as(params, "f.sid"@, (3 + label.len()) as int);
    } else {
        lemma_not_sent(params, "f.sid"@);
    }
}

/// A request is posted as a form from the same site, with the identifier of the request in a
/// header, unless the headers that select the model say otherwise.
pub proof fn law_requests_are_posted_as_forms(
    session: SessionView,
    model: ModelView,
    prompt: Seq<char>,
    reqid: nat,
    uuid: Seq<char>,
)
    requires
        forall|i: int|
            0 <= i < model.model_header.len() ==> (#[trigger] model.model_header[i]).name
                != "content-type"@ && model.model_header[i].name != "x-same-domain"@
                && model.model_header[i].name != "x-goog-ext-525005358-jspb"@,
    ensures
        ({
            let headers = request_for(session, model, prompt, reqid, uuid).headers;
            &&& sent_as(headers, "content-type"@) == Some(
                "application/x-www-form-urlencoded;charset=utf-8"@,
            )
            &&& sent_as(headers, "x-same-domain"@) == Some("1"@)
            &&& sent_as(headers, "x-goog-ext-525005358-jspb"@) == Some(
                "[\""@ + uuid + "\",1]"@,
            )
        }),
{
    let headers = request_for(session, model, prompt, reqid, uuid).headers;
    reveal_strlit("content-type");
    reveal_strlit("x-same-domain");
    reveal_strlit("x-goog-ext-525005358-jspb");
    assert("content-type"@.len() == 12 && "x-same-domain"@.len() == 13
        && "x-goog-ext-525005358-jspb"@.len() == 25);
    assert forall|j: int| 3 <= j < headers.len() implies (#[trigger] headers[j])
        == model.model_header[j - 3] by {}
    lemma_sent_as(headers, "content-type"@, 0);
    lemma_sent_as(headers, "x-same-domain"@, 1);
    lemma_sent_as(headers, "x-goog-ext-525005358-jspb"@, 2);
}

/// A request carries the prompt word for word, the language and the identifier, each in its
/// place among 69, as a JSON text in a JSON text.
pub proof fn law_prompts_are_posted_word_for_word(
    prompt: Seq<char>,
    language: Seq<char>,
    uuid: Seq<char>,
)
    ensures
        ({
            let places = slots(prompt, language, uuid);
            &&& form_request(prompt, language, uuid) == json::written(
                Tree::Array(seq![Tree::Null, Tree::Str(json::written(places))]),
            )
            &&& places is Array && places->Array_0.len() == 69
            &&& places->Array_0[0].item(0) == Some(Tree::Str(prompt))
            &&& places->Array_0[1] == Tree::Array(seq![Tree::Str(language)])
            &&& places->Array_0[59] == Tree::Str(uuid)
        }),
{
}

/// What stands in the other places of a request is the same for every prompt: the marks that
/// Gemini Web asks for, and nothing elsewhere.
pub proof fn law_other_places_of_a_request_are_fixed(
    prompt: Seq<char>,
    language: Seq<char>,
    uuid: Seq<char>,
    i: int,
)
    requires
        0 <= i < 69,
    ensures
        ({
            let place = slots(prompt, language, uuid)->Array_0[i];
            let marked = i == 0 || i == 1 || i == 2 || i == 6 || i == 7 || i == 10 || i == 11 || i
                == 17 || i == 18 || i == 27 || i == 30 || i == 41 || i == 53 || i == 59 || i == 61
                || i == 68;
            &&& !marked ==> place is Null
            &&& i == 0 ==> place->Array_0.len() == 7 && place.item(1) == Some(json::int_tree(0))
                && place.item(2) == Some(Tree::Null) && place.item(3) == Some(Tree::Null)
                && place.item(4) == Some(Tree::Null) && place.item(5) == Some(Tree::Null)
                && place.item(6) == Some(json::int_tree(0))
            &&& i == 2 ==> place->Array_0.len() == 10 && place.item(0) == Some(Tree::Str(""@))
                && place.item(3) == Some(Tree::Null) && place.item(9) == Some(Tree::Str(""@))
            &&& i == 6 || i == 41 ==> place == Tree::Array(seq![json::int_tree(1)])
            &&& i == 7 || i == 10 || i == 27 ==> place == json::int_tree(1)
            &&& i == 11 || i == 18 || i == 53 ==> place == json::int_tree(0)
            &&& i == 17 ==> place == Tree::Array(seq![Tree::Array(seq![json::int_tree(0)])])
            &&& i == 30 ==> place == Tree::Array(seq![json::int_tree(4)])
            &&& i == 61 ==> place == Tree::Array(Seq::empty())
            &&& i == 68 ==> place == json::int_tree(2)
        }),
{
}

/// A prompt is posted for the model that it names, in the session that is open, which stays
/// open: with the next number, and with a fresh identifier in capitals.
pub proof fn law_prompts_are_posted_in_the_open_session(
    before: GeminiClient,
    after: GeminiClient,
    run: GenerateRun,
    action: GenerateAction,
)
    requires
        before.posts(&after, &run, &action),
    ensures
        after.client_config == before.client_config,
        after.models == before.models,
        after.timeout_seconds == before.timeout_seconds,
        after.session == before.session,
        model_named(model_views(before.models@), run.model_name@) is None
            ==> (action matches GenerateAction::Finish(Err(e)) && e.says() == "unknown model: "@
            + run.model_name@),
        model_named(model_views(before.models@), run.model_name@) matches Some(model) ==> (
        before.session matches Some(session) ==> {
            &&& before.reqid <= u64::MAX - 100_000 ==> after.reqid == before.reqid + 100_000
            &&& action matches GenerateAction::Post(request)
            &&& request@.cookie == session.cookie_header@
            &&& sent_as(request@.form, "at"@) == Some(session.access_token@)
            &&& sent_as(request@.params, "_reqid"@) == Some(text::decimal(before.reqid as nat))
            &&& request@.headers.skip(3) == model.model_header
            &&& exists|uuid: Seq<char>| #[trigger]
                ids::is_uuid(uuid) && sent_as(request@.form, "f.req"@) == Some(
                    form_request(
                        run.prompt@,
                        if session.language@.len() > 0 {
                            session.language@
                        } else {
                            "en"@
                        },
                        text::ascii_upper(uuid),
                    ),
                )
        }),
{
    match model_named(model_views(before.models@), run.model_name@) {
        Some(model) => match before.session {
            Some(session) => {
                let request = action->Post_0;
                let uuid = choose|uuid: Seq<char>| #[trigger]
                    ids::is_uuid(uuid) && request@ == request_for(
                        session@,
                        model,
                        run.prompt@,
                        before.reqid as nat,
                        text::ascii_upper(uuid),
                    );
                law_requests_are_posted_in_their_session(
                    session@,
                    model,
                    run.prompt@,
                    before.reqid as nat,
                    text::ascii_upper(uuid),
                );
                assert(request@.headers.skip(3) =~= model.model_header);
                assert(ids::is_uuid(uuid));
            },
            None => {},
        },
        None => {},
    }
}

/// A failure says what went wrong: with the name, the status or the answer that it is about.
pub proof fn law_failures_say_what_went_wrong(error: GeminiError)
    ensures
        error matches GeminiError::UnknownModel(name) ==> error.says() == "unknown model: "@
            + name@,
        error matches GeminiError::InitFailed(status) ==> error.says()
            == "Gemini init failed with status "@ + status@,
        error matches GeminiError::GenerateFailed { status, body } ==> error.says()
            == "Gemini generate failed with status "@ + status@ + ": "@ + excerpt(body@),
        error is EmptyPrompt ==> error.says() == "prompt cannot be empty"@,
        error is NoAccessToken ==> error.says() == "SNlM0e access token not found"@,
        error is NoSession ==> error.says() == "Gemini session is not initialized"@,
        error is NoCandidate ==> error.says() == "no Gemini text candidate found"@,
{
}

} // verus!
