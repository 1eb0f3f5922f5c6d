//! What the gateway tells of itself, and how it takes in new cookies while it runs.
use crate::digest;
use crate::http;
use crate::http::ApiError;
use crate::json;
use crate::json::{Json, Tree};
use crate::text;
use vstd::prelude::*;

verus! {

/// Texts as a JSON array.
pub open spec fn texts_tree(list: Seq<Seq<char>>) -> Tree {
    Tree::Array(list.map_values(|s: Seq<char>| json::str_tree(s)))
}

/// Texts as a JSON array.
fn texts_json(list: &Vec<String>) -> (r: Json)
    ensures
        r@ == texts_tree(text::views(list@)),
{
    let ghost wanted = texts_tree(text::views(list@))->Array_0;
    let mut items: Vec<Json> = Vec::new();
    let mut i: usize = 0;
    while i < list.len()
        invariant
            i <= list@.len(),
            wanted == texts_tree(text::views(list@))->Array_0,
            json::trees(items@) == wanted.take(i as int),
        decreases list@.len() - i,
    {
        let ghost earlier = items@;
        let next = json::string(list[i].as_str());
        items.push(next);
        assert(json::trees(items@) == json::trees(earlier).push(next@));
        i = i + 1;
    }
    assert(wanted.take(i as int) == wanted);
    json::array(items)
}

/// That the gateway runs, and for which clients.
pub open spec fn health_tree(client_ids: Seq<Seq<char>>) -> Tree {
    Tree::Object(
        seq![
            json::field_tree("clients"@, texts_tree(client_ids)),
            json::field_tree("implementation"@, json::str_tree("rust"@)),
            json::field_tree("ok"@, Tree::Bool(true)),
            json::field_tree("status"@, json::str_tree("ok"@)),
        ],
    )
}

/// That the gateway runs, and for which clients.
pub fn health(client_ids: &Vec<String>) -> (r: Json)
    ensures
        r@ == health_tree(text::views(client_ids@)),
{
    let r = json::object(
        vec![
            json::field("clients", texts_json(client_ids)),
            json::field("implementation", json::string("rust")),
            json::field("ok", Json::Bool(true)),
            json::field("status", json::string("ok")),
        ],
    );
    assert(r@->Object_0 =~= health_tree(text::views(client_ids@))->Object_0);
    r
}

/// What is known of a file: how long it is, and the seconds from the Unix epoch to its
/// last change.
#[derive(Debug, Clone, Copy)]
pub struct FileFacts {
    pub len: u64,
    pub modified_unix: Option<u64>,
}

/// A number as JSON, or null where there is none.
pub open spec fn number_or_null(value: Option<u64>) -> Tree {
    match value {
        Some(n) => json::int_tree(n as int),
        None => Tree::Null,
    }
}

/// A number as JSON, or null where there is none.
fn opt_number(value: Option<u64>) -> (r: Json)
    ensures
        r@ == number_or_null(value),
{
    match value {
        Some(n) => json::number(n),
        None => Json::Null,
    }
}

/// What is told of a file that the gateway reads while it runs, without what it holds.
pub open spec fn file_tree(
    path: Option<Seq<char>>,
    facts: Option<FileFacts>,
    content: Option<Seq<char>>,
) -> Tree {
    match path {
        None => Tree::Object(seq![json::field_tree("configured"@, Tree::Bool(false))]),
        Some(p) => Tree::Object(
            seq![
                json::field_tree("configured"@, Tree::Bool(true)),
                json::field_tree("exists"@, Tree::Bool(facts is Some)),
                json::field_tree(
                    "len"@,
                    number_or_null(
                        match facts {
                            Some(f) => Some(f.len),
                            None => None,
                        },
                    ),
                ),
                json::field_tree(
                    "modified_unix"@,
                    number_or_null(
                        match facts {
                            Some(f) => f.modified_unix,
                            None => None,
                        },
                    ),
                ),
                json::field_tree("path"@, json::str_tree(p)),
                json::field_tree(
                    "sha256"@,
                    match content {
                        Some(s) => json::str_tree(digest::fingerprint(s)),
                        None => Tree::Null,
                    },
                ),
            ],
        ),
    }
}

/// What is told of the file at the configured path, where one is configured, by what is
/// known of it and what could be read of it.
pub fn runtime_file_status(
    path: Option<&str>,
    facts: Option<FileFacts>,
    content: Option<&str>,
) -> (r: Json)
    ensures
        r@ == file_tree(http::opt_str(path), facts, http::opt_str(content)),
{
    match path {
        None => {
            let r = json::object(vec![json::field("configured", Json::Bool(false))]);
            assert(r@->Object_0 =~= file_tree(None, facts, http::opt_str(content))->Object_0);
            r
        },
        Some(path) => {
            let len = match facts {
                Some(f) => Some(f.len),
                None => None,
            };
            let modified_unix = match facts {
                Some(f) => f.modified_unix,
                None => None,
            };
            let sha256 = match content {
                Some(s) => json::string(digest::short_fingerprint(s).as_str()),
                None => Json::Null,
            };
            let r = json::object(
                vec![
                    json::field("configured", Json::Bool(true)),
                    json::field("exists", Json::Bool(facts.is_some())),
                    json::field("len", opt_number(len)),
                    json::field("modified_unix", opt_number(modified_unix)),
                    json::field("path", json::string(path)),
                    json::field("sha256", sha256),
                ],
            );
            assert(r@->Object_0 =~= file_tree(
                Some(path@),
                facts,
                http::opt_str(content),
            )->Object_0);
            r
        },
    }
}

/// What is told of the two files.
pub open spec fn files_tree(cookie: Tree, web_tool_nonce: Tree) -> Tree {
    Tree::Object(
        seq![
            json::field_tree("cookie"@, cookie),
            json::field_tree("web_tool_nonce"@, web_tool_nonce),
        ],
    )
}

/// What is told of the two files.
fn files_json(cookie: Json, web_tool_nonce: Json) -> (r: Json)
    ensures
        r@ == files_tree(cookie@, web_tool_nonce@),
{
    let r = json::object(
        vec![json::field("cookie", cookie), json::field("web_tool_nonce", web_tool_nonce)],
    );
    assert(r@->Object_0 =~= files_tree(cookie@, web_tool_nonce@)->Object_0);
    r
}

/// What is told of the sessions.
pub open spec fn status_tree(clients: Tree, cookie: Tree, web_tool_nonce: Tree) -> Tree {
    Tree::Object(
        seq![
            json::field_tree("clients"@, clients),
            json::field_tree("files"@, files_tree(cookie, web_tool_nonce)),
            json::field_tree("ok"@, Tree::Bool(true)),
        ],
    )
}

/// What is told of the sessions, by what is told of the clients and of the two files.
pub fn session_status(clients: Json, cookie: Json, web_tool_nonce: Json) -> (r: Json)
    ensures
        r@ == status_tree(clients@, cookie@, web_tool_nonce@),
{
    let ghost wanted = status_tree(clients@, cookie@, web_tool_nonce@);
    let r = json::object(
        vec![
            json::field("clients", clients),
            json::field("files", files_json(cookie, web_tool_nonce)),
            json::field("ok", Json::Bool(true)),
        ],
    );
    assert(r@->Object_0 =~= wanted->Object_0);
    r
}

/// The cookie header that a text holds: what stands in it, after the name of the header
/// where it begins with that, if it names the cookie of a session.
pub open spec fn cookie_in(s: Seq<char>) -> Option<Seq<char>> {
    let trimmed = text::trim(s);
    let value = if text::starts_with(text::ascii_lower(trimmed), "cookie:"@) {
        text::trim(trimmed.skip(7))
    } else {
        trimmed
    };
    if text::contains(value, "__Secure-1PSID="@) {
        Some(value)
    } else {
        None
    }
}

pub fn extract_cookie_header_from_text(s: &str) -> (r: Option<String>)
    ensures
        http::opt_text(r) == cookie_in(s@),
{
    proof {
        reveal_strlit("cookie:");
    }
    let trimmed = text::trimmed(s);
    let lower = text::ascii_lowercase(trimmed.as_str());
    let value = if text::has_prefix(lower.as_str(), "cookie:") {
        let chars = text::chars_of(trimmed.as_str());
        assert(lower@.len() == chars@.len());
        let tail = text::text_between(&chars, 7, chars.len());
        assert(tail@ == trimmed@.skip(7));
        text::trimmed(tail.as_str())
    } else {
        trimmed
    };
    if text::has(value.as_str(), "__Secure-1PSID=") {
        Some(value)
    } else {
        None
    }
}

/// Whether a character can stand in a nonce.
pub open spec fn is_nonce_char(c: char) -> bool {
    !text::is_space(c) && c != '=' && c != ';'
}

/// The nonce that a text holds: what stands in it, if that is a single word and no cookie.
pub open spec fn nonce_in(s: Seq<char>) -> Option<Seq<char>> {
    let trimmed = text::trim(s);
    if trimmed.len() > 0 && forall|i: int|
        0 <= i < trimmed.len() ==> is_nonce_char(#[trigger] trimmed[i]) {
        Some(trimmed)
    } else {
        None
    }
}

pub fn extract_web_tool_nonce_from_text(s: &str) -> (r: Option<String>)
    ensures
        http::opt_text(r) == nonce_in(s@),
{
    let trimmed = text::trimmed(s);
    let chars = text::chars_of(trimmed.as_str());
    if chars.len() == 0 {
        return None;
    }
    let mut i: usize = 0;
    while i < chars.len()
        invariant
            chars@ == trimmed@,
            trimmed@ == text::trim(s@),
            i <= chars@.len(),
            forall|j: int| 0 <= j < i ==> is_nonce_char(#[trigger] trimmed@[j]),
        decreases chars@.len() - i,
    {
        let c: char = chars[i];
        if text::char_is_space(c) || c == '=' || c == ';' {
            assert(!is_nonce_char(trimmed@[i as int]));
            return None;
        }
        i = i + 1;
    }
    Some(trimmed)
}

/// The free text of a request to take in new cookies.
pub open spec fn free_text(payload: Tree) -> Seq<char> {
    match payload.get_str("text"@) {
        Some(s) => s,
        None => Seq::empty(),
    }
}

/// The cookie header of a request to take in new cookies: the one of its own field, else
/// the one of the free text.
pub open spec fn sent_cookie(payload: Tree) -> Option<Seq<char>> {
    let own = match payload.get_str("cookie"@) {
        Some(s) => cookie_in(s),
        None => None,
    };
    match own {
        Some(cookie) => Some(cookie),
        None => cookie_in(free_text(payload)),
    }
}

/// The nonce of a request to take in new cookies: the one of its own field, which has two
/// names, of which the first counts where it is there, else the one of the free text.
pub open spec fn sent_nonce(payload: Tree) -> Option<Seq<char>> {
    let field = match payload.get("web_tool_nonce"@) {
        Some(value) => Some(value),
        None => payload.get("tool_nonce"@),
    };
    let own = match field {
        Some(value) => match value.as_str() {
            Some(s) => nonce_in(s),
            None => None,
        },
        None => None,
    };
    match own {
        Some(nonce) => Some(nonce),
        None => nonce_in(free_text(payload)),
    }
}

/// Whether new cookies are to be tried at once: unless the request says no.
pub open spec fn is_to_verify(payload: Tree) -> bool {
    match payload.get("verify"@) {
        Some(value) => match value.as_bool() {
            Some(b) => b,
            None => true,
        },
        None => true,
    }
}

/// A request to take in new cookies: the cookie header and the nonce that it holds, and
/// whether they are to be tried at once.
#[derive(Debug)]
pub struct ReloadRequest {
    pub cookie: Option<String>,
    pub web_tool_nonce: Option<String>,
    pub verify: bool,
}

/// Reads a request to take in new cookies.
pub fn read_reload(payload: &Json) -> (r: ReloadRequest)
    ensures
        http::opt_text(r.cookie) == sent_cookie(payload@),
        http::opt_text(r.web_tool_nonce) == sent_nonce(payload@),
        r.verify == is_to_verify(payload@),
{
    let free = match payload.get_str("text") {
        Some(s) => s.to_owned(),
        None => String::new(),
    };
    let own_cookie = match payload.get_str("cookie") {
        Some(s) => extract_cookie_header_from_text(s),
        None => None,
    };
    let cookie = match own_cookie {
        Some(cookie) => Some(cookie),
        None => extract_cookie_header_from_text(free.as_str()),
    };
    let field = match payload.get("web_tool_nonce") {
        Some(value) => Some(value),
        None => payload.get("tool_nonce"),
    };
    let own_nonce = match field {
        Some(value) => match value.as_str() {
            Some(s) => extract_web_tool_nonce_from_text(s),
            None => None,
        },
        None => None,
    };
    let web_tool_nonce = match own_nonce {
        Some(nonce) => Some(nonce),
        None => extract_web_tool_nonce_from_text(free.as_str()),
    };
    let verify = match payload.get("verify") {
        Some(value) => match value.as_bool() {
            Some(b) => b,
            None => true,
        },
        None => true,
    };
    ReloadRequest { cookie, web_tool_nonce, verify }
}

/// A file to be written.
#[derive(Debug)]
pub struct FileWrite {
    pub path: String,
    pub content: String,
}

/// What is written to a file.
#[verifier::ext_equal]
pub struct WriteView {
    pub path: Seq<char>,
    pub content: Seq<char>,
}

impl View for FileWrite {
    type V = WriteView;

    open spec fn view(&self) -> WriteView {
        WriteView { path: self.path@, content: self.content@ }
    }
}

/// What is written to the files of a list.
pub open spec fn write_views(writes: Seq<FileWrite>) -> Seq<WriteView> {
    writes.map_values(|w: FileWrite| w@)
}

/// The file that keeps a value, where there is both: the value in a line of its own.
pub open spec fn kept_in(path: Option<Seq<char>>, value: Option<Seq<char>>) -> Seq<WriteView> {
    match (path, value) {
        (Some(p), Some(v)) => seq![WriteView { path: p, content: v + "\n"@ }],
        _ => Seq::empty(),
    }
}

/// The files that are written for new cookies, in their order. A nonce is only written
/// where the cookie header, if there is one, could be.
pub open spec fn reload_writes(
    cookie: Option<Seq<char>>,
    web_tool_nonce: Option<Seq<char>>,
    cookie_file: Option<Seq<char>>,
    nonce_file: Option<Seq<char>>,
) -> Seq<WriteView> {
    if cookie is Some && cookie_file is None {
        Seq::empty()
    } else {
        kept_in(cookie_file, cookie) + kept_in(nonce_file, web_tool_nonce)
    }
}

/// Why new cookies are not taken in; none where they are.
pub open spec fn reload_refusal(
    cookie: Option<Seq<char>>,
    web_tool_nonce: Option<Seq<char>>,
    cookie_file: Option<Seq<char>>,
    nonce_file: Option<Seq<char>>,
) -> Option<Seq<char>> {
    if cookie is Some && cookie_file is None {
        Some("GEMINI_COOKIE_FILE is not configured; cannot hot-update cookie"@)
    } else if web_tool_nonce is Some && nonce_file is None {
        Some("GEMINI_WEB_TOOL_NONCE_FILE is not configured; cannot hot-update web tool nonce"@)
    } else if cookie is None && web_tool_nonce is None {
        Some("no cookie or web_tool_nonce found in request payload"@)
    } else {
        None
    }
}

/// What is to be done to take in new cookies: the files that are written, and then whether
/// the request is refused.
#[derive(Debug)]
pub struct ReloadPlan {
    pub writes: Vec<FileWrite>,
    pub refusal: Option<ApiError>,
}

/// Appends the file that keeps a value.
fn push_write(writes: &mut Vec<FileWrite>, path: &str, value: &str)
    ensures
        write_views(final(writes)@) == write_views(old(writes)@) + kept_in(
            Some(path@),
            Some(value@),
        ),
{
    let mut content = value.to_owned();
    content.append("\n");
    let next = FileWrite { path: path.to_owned(), content };
    writes.push(next);
    assert(write_views(writes@) =~= write_views(old(writes)@).push(next@));
}

/// What is to be done to take in new cookies, where those files are configured.
pub fn plan_reload(
    request: &ReloadRequest,
    cookie_file: Option<&str>,
    nonce_file: Option<&str>,
) -> (r: ReloadPlan)
    ensures
        write_views(r.writes@) == reload_writes(
            http::opt_text(request.cookie),
            http::opt_text(request.web_tool_nonce),
            http::opt_str(cookie_file),
            http::opt_str(nonce_file),
        ),
        match reload_refusal(
            http::opt_text(request.cookie),
            http::opt_text(request.web_tool_nonce),
            http::opt_str(cookie_file),
            http::opt_str(nonce_file),
        ) {
            Some(why) => r.refusal matches Some(e) && e.says(400, why),
            None => r.refusal is None,
        },
{
    let mut writes: Vec<FileWrite> = Vec::new();
    assert(write_views(writes@) =~= Seq::empty());
    if let Some(cookie) = &request.cookie {
        match cookie_file {
            Some(path) => push_write(&mut writes, path, cookie.as_str()),
            None => {
                return ReloadPlan {
                    writes,
                    refusal: Some(
                        ApiError::bad_request(
                            "GEMINI_COOKIE_FILE is not configured; cannot hot-update cookie",
                        ),
                    ),
                };
            },
        }
    }
    assert(write_views(writes@) =~= kept_in(
        http::opt_str(cookie_file),
        http::opt_text(request.cookie),
    ));
    let ghost first = write_views(writes@);
    assert(first =~= first + Seq::empty());
    if let Some(nonce) = &request.web_tool_nonce {
        match nonce_file {
            Some(path) => push_write(&mut writes, path, nonce.as_str()),
            None => {
                return ReloadPlan {
                    writes,
                    refusal: Some(
                        ApiError::bad_request(
                            "GEMINI_WEB_TOOL_NONCE_FILE is not configured; cannot hot-update web tool nonce",
                        ),
                    ),
                };
            },
        }
    } else if request.cookie.is_none() {
        return ReloadPlan {
            writes,
            refusal: Some(
                ApiError::bad_request("no cookie or web_tool_nonce found in request payload"),
            ),
        };
    }
    ReloadPlan { writes, refusal: None }
}

/// What is told of a value that was taken in, without the value.
pub open spec fn taken_tree(path: Seq<char>, value: Seq<char>) -> Tree {
    Tree::Object(
        seq![
            json::field_tree("len"@, json::int_tree(vstd::utf8::encode_utf8(value).len() as int)),
            json::field_tree("path"@, json::str_tree(path)),
            json::field_tree("sha256"@, json::str_tree(digest::fingerprint(value))),
        ],
    )
}

/// What is told of a value that was taken in.
fn taken_json(path: &str, value: &str) -> (r: Json)
    ensures
        r@ == taken_tree(path@, value@),
{
    let r = json::object(
        vec![
            json::field("len", json::number(value.as_bytes().len() as u64)),
            json::field("path", json::string(path)),
            json::field("sha256", json::string(digest::short_fingerprint(value).as_str())),
        ],
    );
    assert(r@->Object_0 =~= taken_tree(path@, value@)->Object_0);
    r
}

/// What is told of a value, where it was taken in.
pub open spec fn taken(path: Option<Seq<char>>, value: Option<Seq<char>>) -> Option<Tree> {
    match (path, value) {
        (Some(p), Some(v)) => Some(taken_tree(p, v)),
        _ => None,
    }
}

/// What came of new cookies: they work, they do not, or they were not tried.
#[derive(Debug)]
pub enum VerifyResult {
    Works,
    Fails(String),
    Skipped,
}

/// What came of new cookies, as JSON.
pub open spec fn verify_tree(result: VerifyResult) -> Tree {
    match result {
        VerifyResult::Works => Tree::Object(seq![json::field_tree("ok"@, Tree::Bool(true))]),
        VerifyResult::Fails(error) => Tree::Object(
            seq![
                json::field_tree("error"@, json::str_tree(error@)),
                json::field_tree("ok"@, Tree::Bool(false)),
            ],
        ),
        VerifyResult::Skipped => Tree::Object(
            seq![
                json::field_tree("ok"@, Tree::Null),
                json::field_tree("skipped"@, Tree::Bool(true)),
            ],
        ),
    }
}

/// What came of new cookies, as JSON.
fn verify_json(result: &VerifyResult) -> (r: Json)
    ensures
        r@ == verify_tree(*result),
{
    let r = match result {
        VerifyResult::Works => json::object(vec![json::field("ok", Json::Bool(true))]),
        VerifyResult::Fails(error) => json::object(
            vec![
                json::field("error", json::string(error.as_str())),
                json::field("ok", Json::Bool(false)),
            ],
        ),
        VerifyResult::Skipped => json::object(
            vec![json::field("ok", Json::Null), json::field("skipped", Json::Bool(true))],
        ),
    };
    assert(r@->Object_0 =~= verify_tree(*result)->Object_0);
    r
}

/// What is told of new cookies that were taken in.
pub open spec fn reloaded_tree(
    cookie: Option<Tree>,
    web_tool_nonce: Option<Tree>,
    verified: Tree,
    clients: Tree,
    cookie_file: Tree,
    nonce_file: Tree,
) -> Tree {
    Tree::Object(
        seq![
            json::field_tree("clients"@, clients),
            json::field_tree("files"@, files_tree(cookie_file, nonce_file)),
            json::field_tree("ok"@, Tree::Bool(true)),
            json::field_tree("session_verify"@, verified),
            json::field_tree(
                "updated"@,
                Tree::Object(
                    json::opt_field("cookie"@, cookie) + json::opt_field(
                        "web_tool_nonce"@,
                        web_tool_nonce,
                    ),
                ),
            ),
        ],
    )
}

/// What is told of new cookies that were taken in, by what came of them, and by what is told
/// of the clients and of the two files.
pub fn reloaded(
    request: &ReloadRequest,
    cookie_path: Option<&str>,
    nonce_path: Option<&str>,
    verified: &VerifyResult,
    clients: Json,
    cookie_file: Json,
    nonce_file: Json,
) -> (r: Json)
    ensures
        r@ == reloaded_tree(
            taken(http::opt_str(cookie_path), http::opt_text(request.cookie)),
            taken(http::opt_str(nonce_path), http::opt_text(request.web_tool_nonce)),
            verify_tree(*verified),
            clients@,
            cookie_file@,
            nonce_file@,
        ),
{
    let ghost wanted = reloaded_tree(
        taken(http::opt_str(cookie_path), http::opt_text(request.cookie)),
        taken(http::opt_str(nonce_path), http::opt_text(request.web_tool_nonce)),
        verify_tree(*verified),
        clients@,
        cookie_file@,
        nonce_file@,
    );
    let mut fields: Vec<json::Field> = Vec::new();
    if let Some(path) = cookie_path {
        if let Some(cookie) = &request.cookie {
            fields.push(json::field("cookie", taken_json(path, cookie.as_str())));
        }
    }
    if let Some(path) = nonce_path {
        if let Some(nonce) = &request.web_tool_nonce {
            fields.push(json::field("web_tool_nonce", taken_json(path, nonce.as_str())));
        }
    }
    assert(json::field_trees(fields@) =~= wanted->Object_0[4].value->Object_0);
    let r = json::object(
        vec![
            json::field("clients", clients),
            json::field("files", files_json(cookie_file, nonce_file)),
            json::field("ok", Json::Bool(true)),
            json::field("session_verify", verify_json(verified)),
            json::field("updated", json::object(fields)),
        ],
    );
    assert(r@->Object_0 =~= wanted->Object_0);
    r
}

/// New cookies that are taken in are all written: the cookie header and the nonce each to
/// its file, in a line of its own.
pub proof fn law_taken_cookies_are_written(
    cookie: Option<Seq<char>>,
    web_tool_nonce: Option<Seq<char>>,
    cookie_file: Option<Seq<char>>,
    nonce_file: Option<Seq<char>>,
)
    requires
        reload_refusal(cookie, web_tool_nonce, cookie_file, nonce_file) is None,
    ensures
        ({
            let writes = reload_writes(cookie, web_tool_nonce, cookie_file, nonce_file);
            &&& writes.len() >= 1
            &&& cookie matches Some(c) ==> writes.contains(
                WriteView { path: cookie_file->Some_0, content: c + "\n"@ },
            )
            &&& web_tool_nonce matches Some(n) ==> writes.contains(
                WriteView { path: nonce_file->Some_0, content: n + "\n"@ },
            )
        }),
{
    let writes = reload_writes(cookie, web_tool_nonce, cookie_file, nonce_file);
    let first = kept_in(cookie_file, cookie);
    let second = kept_in(nonce_file, web_tool_nonce);
    if cookie is Some {
        assert(writes[0] == first[0]);
    }
    if web_tool_nonce is Some {
        assert(writes[first.len() as int] == second[0]);
    }
}

/// A text that holds the cookie of a session is taken for a cookie header, without the white
/// space around it; a text that does not is taken for none.
pub proof fn law_cookie_headers_are_taken_as_they_are(
    before: Seq<char>,
    header: Seq<char>,
    after: Seq<char>,
)
    requires
        text::is_blank(before),
        text::is_blank(after),
        header.len() > 0,
        !text::is_space(header[0]),
        !text::is_space(header.last()),
        header[0] != 'c',
        header[0] != 'C',
    ensures
        text::contains(header, "__Secure-1PSID="@) ==> cookie_in(before + header + after) == Some(
            header,
        ),
        !text::contains(header, "__Secure-1PSID="@) ==> cookie_in(before + header + after) is None,
{
    text::law_trim_takes_white_space_alone(before, header, after);
    reveal_strlit("cookie:");
    let low = text::ascii_lower(header);
    assert(low[0] == text::lower(header[0]));
    text::law_ascii_letters_change_their_case(header[0]);
    if text::starts_with(low, "cookie:"@) {
        assert(low.subrange(0, 7)[0] == "cookie:"@[0]);
        assert(low[0] == 'c');
    }
}

/// The name of the header before a cookie header, in either case, does not count.
pub proof fn law_names_of_cookie_headers_are_cut_off(
    name: Seq<char>,
    space: Seq<char>,
    header: Seq<char>,
)
    requires
        crate::routing::is_phrase(name, "cookie:"@),
        text::is_blank(space),
        header.len() > 0,
        !text::is_space(header[0]),
        !text::is_space(header.last()),
        text::contains(header, "__Secure-1PSID="@),
    ensures
        cookie_in(name + space + header) == Some(header),
{
    let all = name + space + header;
    let none = Seq::<char>::empty();
    reveal_strlit("cookie:");
    assert(name.len() == 7);
    assert(name[0] == 'c' || 'A' as u32 <= name[0] as u32 <= 'Z' as u32);
    assert(all[0] == name[0]);
    assert(all.last() == header.last());
    text::law_trim_takes_white_space_alone(none, all, none);
    assert(none + all + none =~= all);
    let low = text::ascii_lower(all);
    assert(all.subrange(0, 7) =~= name);
    assert(crate::routing::mentioned_at(all, "cookie:"@, 0));
    assert forall|i: int| 0 <= i < 7 implies low.subrange(0, 7)[i] == "cookie:"@[i] by {
        assert(low[i] == text::lower(all[i]));
        assert(all[i] == name[i]);
        assert(name[i] == "cookie:"@[i] || ('A' as u32 <= name[i] as u32 <= 'Z' as u32
            && name[i] as u32 + 32 == "cookie:"@[i] as u32));
        crate::routing::lemma_small_letter(name[i], "cookie:"@[i]);
    }
    assert(low.subrange(0, 7) =~= "cookie:"@);
    assert(all.skip(7) =~= space + header);
    text::law_trim_takes_white_space_alone(space, header, none);
    assert(space + header + none =~= space + header);
}

/// A single word is taken for a nonce, without the white space around it; a text with white
/// space, an equals sign or a semicolon in it is not.
pub proof fn law_words_are_taken_for_nonces(before: Seq<char>, word: Seq<char>, after: Seq<char>)
    requires
        text::is_blank(before),
        text::is_blank(after),
        word.len() > 0,
        !text::is_space(word[0]),
        !text::is_space(word.last()),
    ensures
        (forall|i: int|
            0 <= i < word.len() ==> !text::is_space(#[trigger] word[i]) && word[i] != '='
                && word[i] != ';') ==> nonce_in(before + word + after) == Some(word),
        (exists|i: int|
            0 <= i < word.len() && (text::is_space(#[trigger] word[i]) || word[i] == '=' || word[i]
                == ';')) ==> nonce_in(before + word + after) is None,
        nonce_in(before) is None,
{
    text::law_trim_takes_white_space_alone(before, word, after);
    text::law_blank_texts_are_trimmed_to_nothing(before);
    if exists|i: int|
        0 <= i < word.len() && (text::is_space(#[trigger] word[i]) || word[i] == '=' || word[i]
            == ';') {
        let i = choose|i: int|
            0 <= i < word.len() && (text::is_space(#[trigger] word[i]) || word[i] == '=' || word[i]
                == ';');
        assert(!is_nonce_char(word[i]));
    }
    if forall|i: int|
        0 <= i < word.len() ==> !text::is_space(#[trigger] word[i]) && word[i] != '=' && word[i]
            != ';' {
        assert forall|i: int| 0 <= i < word.len() implies is_nonce_char(#[trigger] word[i]) by {}
    }
}

/// A cookie header is taken from its own field where that holds one, else from the free text;
/// and so is a nonce, from the field of either name.
pub proof fn law_own_fields_go_before_the_free_text(payload: Tree, own: Seq<char>, free: Seq<char>)
    requires
        payload.get_str("text"@) == Some(free),
    ensures
        payload.get_str("cookie"@) == Some(own) && cookie_in(own) is Some ==> sent_cookie(payload)
            == cookie_in(own),
        payload.get_str("cookie"@) == Some(own) && cookie_in(own) is None ==> sent_cookie(payload)
            == cookie_in(free),
        payload.get_str("cookie"@) is None ==> sent_cookie(payload) == cookie_in(free),
        payload.get_str("web_tool_nonce"@) == Some(own) && nonce_in(own) is Some ==> sent_nonce(
            payload,
        ) == nonce_in(own),
        payload.get("web_tool_nonce"@) is None && payload.get_str("tool_nonce"@) == Some(own)
            && nonce_in(own) is Some ==> sent_nonce(payload) == nonce_in(own),
        payload.get("web_tool_nonce"@) is None && payload.get("tool_nonce"@) is None ==> sent_nonce(
            payload,
        ) == nonce_in(free),
{
}

/// New cookies are tried at once, unless the request says no.
pub proof fn law_new_cookies_are_tried(payload: Tree)
    ensures
        is_to_verify(payload) <==> payload.get("verify"@) != Some(Tree::Bool(false)),
{
}

/// New cookies are refused where nothing is brought, or where there is no file for what is
/// brought; and only there.
pub proof fn law_cookies_without_a_file_are_refused(
    cookie: Option<Seq<char>>,
    web_tool_nonce: Option<Seq<char>>,
    cookie_file: Option<Seq<char>>,
    nonce_file: Option<Seq<char>>,
)
    ensures
        reload_refusal(cookie, web_tool_nonce, cookie_file, nonce_file) is None <==> (cookie is Some
            || web_tool_nonce is Some) && (cookie is Some ==> cookie_file is Some) && (
        web_tool_nonce is Some ==> nonce_file is Some),
        cookie is Some && cookie_file is None ==> reload_refusal(
            cookie,
            web_tool_nonce,
            cookie_file,
            nonce_file,
        ) == Some("GEMINI_COOKIE_FILE is not configured; cannot hot-update cookie"@)
            && reload_writes(cookie, web_tool_nonce, cookie_file, nonce_file).len() == 0,
        cookie is None && web_tool_nonce is None ==> reload_refusal(
            cookie,
            web_tool_nonce,
            cookie_file,
            nonce_file,
        ) == Some("no cookie or web_tool_nonce found in request payload"@) && reload_writes(
            cookie,
            web_tool_nonce,
            cookie_file,
            nonce_file,
        ).len() == 0,
{
}

/// That the gateway runs is read in its JSON, with all of its clients in their order.
pub proof fn law_health_is_read_back(client_ids: Seq<Seq<char>>, i: int)
    ensures
        health_tree(client_ids).get("ok"@) == Some(Tree::Bool(true)),
        health_tree(client_ids).get_str("status"@) == Some("ok"@),
        health_tree(client_ids).get("clients"@) matches Some(list) && (0 <= i < client_ids.len()
            ==> list.item(i) == Some(Tree::Str(client_ids[i]))),
{
    let tree = health_tree(client_ids);
    reveal_strlit("clients");
    reveal_strlit("implementation");
    reveal_strlit("ok");
    reveal_strlit("status");
    assert("clients"@.len() != "implementation"@.len());
    assert("clients"@.len() != "ok"@.len());
    assert("implementation"@.len() != "ok"@.len());
    assert("clients"@.len() != "status"@.len());
    assert("implementation"@.len() != "status"@.len());
    assert("ok"@.len() != "status"@.len());
    json::law_fields_are_found_by_name(tree->Object_0, 0);
    json::law_fields_are_found_by_name(tree->Object_0, 1);
    json::law_fields_are_found_by_name(tree->Object_0, 2);
    json::law_fields_are_found_by_name(tree->Object_0, 3);
}

/// What is told of a file is whether it is configured and there, how long it is and a
/// fingerprint, and not what it holds.
pub proof fn law_files_are_told_by_their_fingerprints(
    path: Seq<char>,
    facts: Option<FileFacts>,
    content: Option<Seq<char>>,
)
    ensures
        file_tree(None, facts, content).get("configured"@) == Some(Tree::Bool(false)),
        ({
            let tree = file_tree(Some(path), facts, content);
            &&& tree.get("configured"@) == Some(Tree::Bool(true))
            &&& tree.get("exists"@) == Some(Tree::Bool(facts is Some))
            &&& facts matches Some(f) ==> tree.get("len"@) == Some(json::int_tree(f.len as int))
            &&& facts is None ==> tree.get("len"@) == Some(Tree::Null)
            &&& tree.get_str("path"@) == Some(path)
            &&& content matches Some(s) ==> tree.get_str("sha256"@) == Some(
                digest::sha256_hex(vstd::utf8::encode_utf8(s)).take(12),
            )
            &&& content is None ==> tree.get("sha256"@) == Some(Tree::Null)
        }),
{
    let tree = file_tree(Some(path), facts, content);
    json::law_fields_are_found_by_name(file_tree(None, facts, content)->Object_0, 0);
    reveal_strlit("configured");
    reveal_strlit("exists");
    reveal_strlit("len");
    reveal_strlit("modified_unix");
    reveal_strlit("path");
    reveal_strlit("sha256");
    assert("configured"@.len() != "exists"@.len());
    assert("configured"@.len() != "len"@.len());
    assert("exists"@.len() != "len"@.len());
    assert("configured"@.len() != "modified_unix"@.len());
    assert("exists"@.len() != "modified_unix"@.len());
    assert("len"@.len() != "modified_unix"@.len());
    assert("configured"@.len() != "path"@.len());
    assert("exists"@.len() != "path"@.len());
    assert("len"@.len() != "path"@.len());
    assert("modified_unix"@.len() != "path"@.len());
    assert("configured"@.len() != "sha256"@.len());
    assert("exists"@[0] != "sha256"@[0]);
    assert("len"@.len() != "sha256"@.len());
    assert("modified_unix"@.len() != "sha256"@.len());
    assert("path"@.len() != "sha256"@.len());
    json::law_fields_are_found_by_name(tree->Object_0, 0);
    json::law_fields_are_found_by_name(tree->Object_0, 1);
    json::law_fields_are_found_by_name(tree->Object_0, 2);
    json::law_fields_are_found_by_name(tree->Object_0, 3);
    json::law_fields_are_found_by_name(tree->Object_0, 4);
    json::law_fields_are_found_by_name(tree->Object_0, 5);
}

/// What is told of a value that was taken in is its length, its file and its fingerprint.
pub proof fn law_taken_values_are_told_by_their_fingerprints(path: Seq<char>, value: Seq<char>)
    ensures
        taken_tree(path, value).get("len"@) == Some(
            json::int_tree(vstd::utf8::encode_utf8(value).len() as int),
        ),
        taken_tree(path, value).get_str("path"@) == Some(path),
        taken_tree(path, value).get_str("sha256"@) == Some(
            digest::sha256_hex(vstd::utf8::encode_utf8(value)).take(12),
        ),
{
    let tree = taken_tree(path, value);
    reveal_strlit("len");
    reveal_strlit("path");
    reveal_strlit("sha256");
    assert("len"@.len() != "path"@.len());
    assert("len"@.len() != "sha256"@.len());
    assert("path"@.len() != "sha256"@.len());
    json::law_fields_are_found_by_name(tree->Object_0, 0);
    json::law_fields_are_found_by_name(tree->Object_0, 1);
    json::law_fields_are_found_by_name(tree->Object_0, 2);
}

/// Whether new cookies work is told: that they do, that they do not and why, or that they were
/// not tried.
pub proof fn law_outcomes_of_trials_are_told(result: VerifyResult)
    ensures
        result is Works ==> verify_tree(result).get("ok"@) == Some(Tree::Bool(true)),
        result matches VerifyResult::Fails(error) ==> verify_tree(result).get("ok"@) == Some(
            Tree::Bool(false),
        ) && verify_tree(result).get_str("error"@) == Some(error@),
        result is Skipped ==> verify_tree(result).get("ok"@) == Some(Tree::Null) && verify_tree(
            result,
        ).get("skipped"@) == Some(Tree::Bool(true)),
{
    let tree = verify_tree(result);
    let fields = tree->Object_0;
    reveal_strlit("ok");
    reveal_strlit("error");
    reveal_strlit("skipped");
    assert("ok"@.len() == 2 && "error"@.len() == 5 && "skipped"@.len() == 7);
    json::law_fields_are_found_by_name(fields, 0);
    if !(result is Works) {
        json::law_fields_are_found_by_name(fields, 1);
    }
}

/// What came of new cookies is read in the answer: what was taken in, whether it works, and
/// what is told of the clients and the files.
pub proof fn law_reloads_are_read_back(
    cookie: Option<Tree>,
    web_tool_nonce: Option<Tree>,
    verified: Tree,
    clients: Tree,
    cookie_file: Tree,
    nonce_file: Tree,
)
    ensures
        ({
            let tree = reloaded_tree(
                cookie,
                web_tool_nonce,
                verified,
                clients,
                cookie_file,
                nonce_file,
            );
            &&& tree.get("clients"@) == Some(clients)
            &&& tree.get("ok"@) == Some(Tree::Bool(true))
            &&& tree.get("session_verify"@) == Some(verified)
            &&& tree.get("files"@) matches Some(files) && files.get("cookie"@) == Some(cookie_file)
                && files.get("web_tool_nonce"@) == Some(nonce_file)
            &&& tree.get("updated"@) matches Some(updated) && updated.get("cookie"@) == cookie
                && updated.get("web_tool_nonce"@) == web_tool_nonce
        }),
        ({
            let tree = status_tree(clients, cookie_file, nonce_file);
            &&& tree.get("clients"@) == Some(clients)
            &&& tree.get("ok"@) == Some(Tree::Bool(true))
            &&& tree.get("files"@) == Some(files_tree(cookie_file, nonce_file))
        }),
{
    let tree = reloaded_tree(cookie, web_tool_nonce, verified, clients, cookie_file, nonce_file);
    let status = status_tree(clients, cookie_file, nonce_file);
    let files = files_tree(cookie_file, nonce_file);
    reveal_strlit("clients");
    reveal_strlit("files");
    reveal_strlit("ok");
    reveal_strlit("session_verify");
    reveal_strlit("updated");
    assert("clients"@.len() != "files"@.len());
    assert("clients"@.len() != "ok"@.len());
    assert("files"@.len() != "ok"@.len());
    assert("clients"@.len() != "session_verify"@.len());
    assert("files"@.len() != "session_verify"@.len());
    assert("ok"@.len() != "session_verify"@.len());
    assert("clients"@[0] != "updated"@[0]);
    assert("files"@.len() != "updated"@.len());
    assert("ok"@.len() != "updated"@.len());
    assert("session_verify"@.len() != "updated"@.len());
    json::law_fields_are_found_by_name(tree->Object_0, 0);
    json::law_fields_are_found_by_name(tree->Object_0, 1);
    json::law_fields_are_found_by_name(tree->Object_0, 2);
    json::law_fields_are_found_by_name(tree->Object_0, 3);
    json::law_fields_are_found_by_name(tree->Object_0, 4);
    json::law_fields_are_found_by_name(status->Object_0, 0);
    json::law_fields_are_found_by_name(status->Object_0, 1);
    json::law_fields_are_found_by_name(status->Object_0, 2);
    reveal_strlit("cookie");
    reveal_strlit("web_tool_nonce");
    assert("cookie"@.len() == 6 && "web_tool_nonce"@.len() == 14);
    json::law_fields_are_found_by_name(files->Object_0, 0);
    json::law_fields_are_found_by_name(files->Object_0, 1);
    let first = json::opt_field("cookie"@, cookie);
    let second = json::opt_field("web_tool_nonce"@, web_tool_nonce);
    let fields = first + second;
    assert forall|j: int| 0 <= j < fields.len() implies (#[trigger] fields[j]).name == if j
        < first.len() {
        "cookie"@
    } else {
        "web_tool_nonce"@
    } by {}
    if cookie is Some {
        json::law_fields_are_found_by_name(fields, 0);
    } else {
        json::law_missing_fields_are_not_found(fields, "cookie"@);
    }
    if web_tool_nonce is Some {
        json::law_fields_are_found_by_name(fields, first.len() as int);
    } else {
        json::law_missing_fields_are_not_found(fields, "web_tool_nonce"@);
    }
}

} // verus!
