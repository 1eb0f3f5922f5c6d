//! What the gateway reads of an HTTP message, and how it refuses one.
use crate::json;
use crate::json::Json;
use crate::text;
use vstd::prelude::*;

verus! {

/// A name and a value: a header, a query parameter or a field of a form.
#[derive(Debug, Clone)]
pub struct Pair {
    pub name: String,
    pub value: String,
}

/// What a name and a value say.
#[verifier::ext_equal]
pub struct PairView {
    pub name: Seq<char>,
    pub value: Seq<char>,
}

impl View for Pair {
    type V = PairView;

    open spec fn view(&self) -> PairView {
        PairView { name: self.name@, value: self.value@ }
    }
}

/// A name and a value.
pub open spec fn pair_view(name: Seq<char>, value: Seq<char>) -> PairView {
    PairView { name, value }
}

/// What the pairs of a list say.
pub open spec fn pairs(list: Seq<Pair>) -> Seq<PairView> {
    list.map_values(|p: Pair| p@)
}

/// Whether no name stands twice in a list.
pub open spec fn names_differ(list: Seq<Pair>) -> bool {
    forall|i: int, j: int| 0 <= i < j < list.len() ==> list[i].name@ != list[j].name@
}

/// Whether a name stands twice depends on what the pairs say alone.
proof fn lemma_names_differ(a: Seq<Pair>, b: Seq<Pair>)
    requires
        pairs(a) == pairs(b),
        names_differ(a),
    ensures
        names_differ(b),
{
    assert(a.len() == pairs(a).len());
    assert forall|i: int, j: int| 0 <= i < j < b.len() implies b[i].name@ != b[j].name@ by {
        assert(pairs(a)[i] == a[i]@ && pairs(a)[j] == a[j]@);
        assert(pairs(b)[i] == b[i]@ && pairs(b)[j] == b[j]@);
    }
}

/// A name and a value.
pub fn pair(name: &str, value: &str) -> (r: Pair)
    ensures
        r@ == pair_view(name@, value@),
{
    Pair { name: name.to_owned(), value: value.to_owned() }
}

/// Pairs that say the same.
pub fn copy_pairs(list: &Vec<Pair>) -> (r: Vec<Pair>)
    ensures
        pairs(r@) == pairs(list@),
        names_differ(r@) == names_differ(list@),
{
    let mut out: Vec<Pair> = Vec::new();
    let mut i: usize = 0;
    while i < list.len()
        invariant
            i <= list@.len(),
            pairs(out@) == pairs(list@).take(i as int),
        decreases list@.len() - i,
    {
        let ghost earlier = out@;
        let next = pair(list[i].name.as_str(), list[i].value.as_str());
        out.push(next);
        assert(pairs(out@) == pairs(earlier).push(next@));
        i = i + 1;
    }
    assert(pairs(list@).take(i as int) == pairs(list@));
    proof {
        if names_differ(list@) {
            lemma_names_differ(list@, out@);
        }
        if names_differ(out@) {
            lemma_names_differ(out@, list@);
        }
    }
    out
}

/// A request header. The value is missing where it is no visible text.
#[derive(Debug)]
pub struct RequestHeader {
    pub name: String,
    pub value: Option<String>,
}

/// The first header of that name: none where there is no such header, and what
/// it says, if it says anything in visible text.
pub open spec fn header(headers: Seq<RequestHeader>, name: Seq<char>) -> Option<Option<Seq<char>>>
    decreases headers.len(),
{
    if headers.len() == 0 {
        None
    } else if headers[0].name@ == name {
        Some(opt_text(headers[0].value))
    } else {
        header(headers.drop_first(), name)
    }
}

/// What a text says, where there is one.
pub open spec fn opt_text(value: Option<String>) -> Option<Seq<char>> {
    match value {
        Some(s) => Some(s@),
        None => None,
    }
}

/// What the first header of that name says, where it says something in visible text.
pub open spec fn header_text(headers: Seq<RequestHeader>, name: Seq<char>) -> Option<Seq<char>> {
    match header(headers, name) {
        Some(value) => value,
        None => None,
    }
}

/// The first header of that name. Names are given in small letters.
pub fn find_header<'a>(headers: &'a [RequestHeader], name: &str) -> (r: Option<&'a Option<String>>)
    ensures
        match r {
            Some(value) => header(headers@, name@) == Some(opt_text(*value)),
            None => header(headers@, name@) is None,
        },
{
    let mut i: usize = 0;
    assert(headers@.skip(0) == headers@);
    while i < headers.len()
        invariant
            i <= headers@.len(),
            header(headers@, name@) == header(headers@.skip(i as int), name@),
        decreases headers@.len() - i,
    {
        assert(headers@.skip(i as int)[0] == headers@[i as int]);
        assert(headers@.skip(i as int).drop_first() == headers@.skip(i + 1));
        if text::same(headers[i].name.as_str(), name) {
            return Some(&headers[i].value);
        }
        i = i + 1;
    }
    None
}

/// A refusal: the status of the response and what it says is wrong.
#[derive(Debug)]
pub struct ApiError {
    pub status: u16,
    pub detail: String,
}

impl ApiError {
    /// Whether this is the refusal with that status and detail.
    pub open spec fn says(&self, status: int, detail: Seq<char>) -> bool {
        self.status == status && self.detail@ == detail
    }

    /// The request is wrong.
    pub fn bad_request(detail: &str) -> (r: ApiError)
        ensures
            r.says(400, detail@),
    {
        ApiError { status: 400, detail: detail.to_owned() }
    }

    /// The caller has not shown that it may do this.
    pub fn unauthorized(detail: &str) -> (r: ApiError)
        ensures
            r.says(401, detail@),
    {
        ApiError { status: 401, detail: detail.to_owned() }
    }

    /// There is no such thing.
    pub fn not_found(detail: &str) -> (r: ApiError)
        ensures
            r.says(404, detail@),
    {
        ApiError { status: 404, detail: detail.to_owned() }
    }

    /// A service behind the gateway failed.
    pub fn bad_gateway(detail: &str) -> (r: ApiError)
        ensures
            r.says(502, detail@),
    {
        ApiError { status: 502, detail: detail.to_owned() }
    }

    /// The body of the response.
    pub fn body(&self) -> (r: Json)
        ensures
            r@ == json::Tree::Object(
                seq![json::field_tree("detail"@, json::str_tree(self.detail@))],
            ),
    {
        let r = json::object(vec![json::field("detail", json::string(self.detail.as_str()))]);
        assert(r@->Object_0 =~= seq![json::field_tree("detail"@, json::str_tree(self.detail@))]);
        r
    }
}

/// What a caller must send where `api_key` is set.
pub open spec fn bearer(api_key: Seq<char>) -> Seq<char> {
    "Bearer "@ + api_key
}

/// Why a request may not pass; none where it may: no access key is set, or the
/// request's authorization header is the key's bearer token, letter for letter. An
/// empty access key counts for none.
pub open spec fn refusal(api_key: Option<Seq<char>>, headers: Seq<RequestHeader>) -> Option<
    Seq<char>,
> {
    match api_key {
        Some(key) => if key.len() == 0 {
            None
        } else {
            match header_text(headers, "authorization"@) {
                None => Some("missing authorization header"@),
                Some(sent) => if sent == bearer(key) {
                    None
                } else {
                    Some("invalid api key"@)
                },
            }
        },
        None => None,
    }
}

/// What a text says, where there is one.
pub open spec fn opt_str(value: Option<&str>) -> Option<Seq<char>> {
    match value {
        Some(s) => Some(s@),
        None => None,
    }
}

/// Lets a request pass or refuses it.
pub fn verify_auth(api_key: Option<&str>, headers: &[RequestHeader]) -> (r: Result<(), ApiError>)
    ensures
        match refusal(opt_str(api_key), headers@) {
            None => r is Ok,
            Some(why) => r matches Err(e) && e.says(401, why),
        },
{
    match api_key {
        Some(expected) => {
            if expected.is_empty() {
                return Ok(());
            }
            match find_header(headers, "authorization") {
                Some(Some(value)) => {
                    let mut wanted = "Bearer ".to_owned();
                    wanted.append(expected);
                    if text::same(value.as_str(), wanted.as_str()) {
                        Ok(())
                    } else {
                        Err(ApiError::unauthorized("invalid api key"))
                    }
                },
                _ => Err(ApiError::unauthorized("missing authorization header")),
            }
        },
        None => Ok(()),
    }
}

/// What a header says between the white space around it, if it says anything.
pub open spec fn visible(value: Option<Seq<char>>) -> Option<Seq<char>> {
    match value {
        Some(s) => if text::trim(s).len() > 0 {
            Some(text::trim(s))
        } else {
            None
        },
        None => None,
    }
}

/// What a header says between the white space around it, if it says anything.
fn visible_text(value: Option<&Option<String>>) -> (r: Option<String>)
    ensures
        opt_text(r) == visible(
            match value {
                Some(v) => opt_text(*v),
                None => None,
            },
        ),
{
    match value {
        Some(Some(s)) => {
            let trimmed = text::trimmed(s.as_str());
            if trimmed.as_str().is_empty() {
                None
            } else {
                Some(trimmed)
            }
        },
        _ => None,
    }
}

/// The name that a request goes by in the log.
pub open spec fn trace_id(headers: Seq<RequestHeader>) -> Seq<char> {
    let sent = match header(headers, "x-obp-request-id"@) {
        Some(value) => value,
        None => header_text(headers, "x-request-id"@),
    };
    match visible(sent) {
        Some(id) => id,
        None => "-"@,
    }
}

pub fn trace_id_from_headers(headers: &[RequestHeader]) -> (r: String)
    ensures
        r@ == trace_id(headers@),
{
    let sent = match find_header(headers, "x-obp-request-id") {
        Some(value) => Some(value),
        None => find_header(headers, "x-request-id"),
    };
    match visible_text(sent) {
        Some(id) => id,
        None => "-".to_owned(),
    }
}

/// The address that a request was sent to, as far as its headers say.
pub open spec fn base_url(headers: Seq<RequestHeader>) -> Option<Seq<char>> {
    match visible(header_text(headers, "host"@)) {
        Some(host) => {
            let proto = match visible(header_text(headers, "x-forwarded-proto"@)) {
                Some(proto) => proto,
                None => "http"@,
            };
            Some(proto + "://"@ + host)
        },
        None => None,
    }
}

pub fn request_base_url(headers: &[RequestHeader]) -> (r: Option<String>)
    ensures
        opt_text(r) == base_url(headers@),
{
    match visible_text(find_header(headers, "host")) {
        Some(host) => {
            let mut out = match visible_text(find_header(headers, "x-forwarded-proto")) {
                Some(proto) => proto,
                None => "http".to_owned(),
            };
            out.append("://");
            out.append(host.as_str());
            Some(out)
        },
        None => None,
    }
}

/// Whether a status reports success.
pub open spec fn is_success(code: int) -> bool {
    200 <= code < 300
}

/// The answer of a service behind the gateway: its status, as a number and as
/// it is displayed, the cookies that it sets, each missing where it is no visible
/// text, and its body.
#[derive(Debug)]
pub struct HttpReply {
    pub code: u16,
    pub status: String,
    pub set_cookies: Vec<Option<String>>,
    pub body: String,
}

/// Where an access key is set, only a request that sends it as its bearer passes.
pub proof fn law_only_bearers_of_the_key_pass(api_key: Seq<char>, headers: Seq<RequestHeader>)
    requires
        api_key.len() > 0,
    ensures
        refusal(Some(api_key), headers) is None <==> header_text(headers, "authorization"@) == Some(
            bearer(api_key),
        ),
{
}

/// A header is found by its name, where no header before it has the name.
pub proof fn law_headers_are_found_by_name(headers: Seq<RequestHeader>, i: int)
    requires
        0 <= i < headers.len(),
        forall|j: int| 0 <= j < i ==> (#[trigger] headers[j]).name@ != headers[i].name@,
    ensures
        header(headers, headers[i].name@) == Some(opt_text(headers[i].value)),
        header_text(headers, headers[i].name@) == opt_text(headers[i].value),
    decreases i,
{
    if i > 0 {
        let rest = headers.drop_first();
        assert(headers[0].name@ != headers[i].name@);
        assert(rest[i - 1] == headers[i]);
        assert forall|j: int| 0 <= j < i - 1 implies (#[trigger] rest[j]).name@ != rest[i
            - 1].name@ by {
            assert(headers[j + 1].name@ != headers[i].name@);
        }
        law_headers_are_found_by_name(rest, i - 1);
    }
}

/// A name that no header has finds nothing.
pub proof fn law_missing_headers_are_not_found(headers: Seq<RequestHeader>, name: Seq<char>)
    requires
        forall|j: int| 0 <= j < headers.len() ==> (#[trigger] headers[j]).name@ != name,
    ensures
        header(headers, name) is None,
        header_text(headers, name) is None,
    decreases headers.len(),
{
    if headers.len() > 0 {
        assert(headers[0].name@ != name);
        let rest = headers.drop_first();
        assert forall|j: int| 0 <= j < rest.len() implies (#[trigger] rest[j]).name@ != name by {
            assert(headers[j + 1].name@ != name);
        }
        law_missing_headers_are_not_found(rest, name);
    }
}

/// A request passes with the access key as its bearer token, and with nothing else; without
/// an access key, or with an empty one, every request passes.
pub proof fn law_requests_pass_with_the_key(key: Seq<char>, headers: Seq<RequestHeader>)
    ensures
        refusal(None, headers) is None,
        refusal(Some(Seq::empty()), headers) is None,
        key.len() > 0 && header_text(headers, "authorization"@) == Some("Bearer "@ + key)
            ==> refusal(Some(key), headers) is None,
        key.len() > 0 && header_text(headers, "authorization"@) is None ==> refusal(
            Some(key),
            headers,
        ) == Some("missing authorization header"@),
        key.len() > 0 && header_text(headers, "authorization"@) is Some && header_text(
            headers,
            "authorization"@,
        ) != Some("Bearer "@ + key) ==> refusal(Some(key), headers) == Some("invalid api key"@),
{
}

/// What is visible of a text is the text without the white space around it, if it is not
/// blank.
pub proof fn law_blank_texts_are_not_visible(s: Seq<char>)
    ensures
        text::is_blank(s) ==> visible(Some(s)) is None,
        !text::is_blank(s) ==> visible(Some(s)) == Some(text::trim(s)),
        visible(None) is None,
{
    text::law_blank_texts_are_trimmed_to_nothing(s);
}

/// A request goes by the name that the gateway before it gave, else by its own, else by a
/// dash.
pub proof fn law_requests_go_by_the_names_they_were_given(headers: Seq<RequestHeader>)
    ensures
        header_text(headers, "x-obp-request-id"@) matches Some(s) ==> !text::is_blank(s)
            ==> trace_id(headers) == text::trim(s),
        header(headers, "x-obp-request-id"@) is None ==> (header_text(
            headers,
            "x-request-id"@,
        ) matches Some(s) ==> !text::is_blank(s) ==> trace_id(headers) == text::trim(s)),
        header(headers, "x-obp-request-id"@) is None && header(headers, "x-request-id"@) is None
            ==> trace_id(headers) == "-"@,
{
    match header_text(headers, "x-obp-request-id"@) {
        Some(s) => law_blank_texts_are_not_visible(s),
        None => {},
    }
    match header_text(headers, "x-request-id"@) {
        Some(s) => law_blank_texts_are_not_visible(s),
        None => {},
    }
}

/// The address of a request is made of its host and of the protocol by which it came to the
/// gateway before this one, plain HTTP where that is not told.
pub proof fn law_addresses_are_made_of_protocol_and_host(
    headers: Seq<RequestHeader>,
    host: Seq<char>,
    proto: Seq<char>,
)
    requires
        !text::is_blank(host),
        !text::is_blank(proto),
    ensures
        header_text(headers, "host"@) is None ==> base_url(headers) is None,
        header_text(headers, "host"@) == Some(host) && header_text(headers, "x-forwarded-proto"@)
            == Some(proto) ==> base_url(headers) == Some(
            text::trim(proto) + "://"@ + text::trim(host),
        ),
        header_text(headers, "host"@) == Some(host) && header_text(
            headers,
            "x-forwarded-proto"@,
        ) is None ==> base_url(headers) == Some("http"@ + "://"@ + text::trim(host)),
{
    law_blank_texts_are_not_visible(host);
    law_blank_texts_are_not_visible(proto);
}

/// The statuses from 200 up to 299 report success, and no others.
pub proof fn law_two_hundreds_report_success(code: int)
    ensures
        is_success(code) <==> code / 100 == 2,
{
}

} // verus!
