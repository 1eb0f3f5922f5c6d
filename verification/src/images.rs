//! Pictures that the gateway keeps: their names, their links and who may see them.
use crate::config::ImageGenerationConfig;
use crate::digest;
use crate::http;
use crate::http::{ApiError, RequestHeader};
use crate::text;
use vstd::prelude::*;

verus! {

/// What a picture's link carries to show that it came from the gateway.
pub open spec fn token_of(filename: Seq<char>, api_key: Seq<char>) -> Seq<char> {
    digest::sha256_hex(vstd::utf8::encode_utf8(filename) + seq![58u8] + vstd::utf8::encode_utf8(api_key)).take(24)
}

/// The token of a picture, where an access key is set. An empty access key counts
/// for none.
pub open spec fn image_token_of(filename: Seq<char>, api_key: Option<Seq<char>>) -> Option<
    Seq<char>,
> {
    match api_key {
        Some(key) => if key.len() > 0 {
            Some(token_of(filename, key))
        } else {
            None
        },
        None => None,
    }
}

pub fn image_token(filename: &str, api_key: Option<&str>) -> (r: Option<String>)
    ensures
        http::opt_text(r) == image_token_of(filename@, http::opt_str(api_key)),
        r matches Some(token) ==> token@.len() == 24,
{
    match api_key {
        Some(key) => {
            if key.is_empty() {
                return None;
            }
            let mut data: Vec<u8> = Vec::new();
            digest::push_bytes(&mut data, filename);
            data.push(58);
            digest::push_bytes(&mut data, key);
            assert(data@ == vstd::utf8::encode_utf8(filename@) + seq![58u8] + vstd::utf8::encode_utf8(key@));
            Some(digest::short_digest(data.as_slice(), 24))
        },
        None => None,
    }
}

/// `s` without the slashes at its end.
pub open spec fn trim_slashes(s: Seq<char>) -> Seq<char>
    decreases s.len(),
{
    if s.len() > 0 && s.last() == '/' {
        trim_slashes(s.drop_last())
    } else {
        s
    }
}

/// A configured address: without the white space around it and the slashes at its
/// end. A blank one counts for none.
pub open spec fn address(value: Option<Seq<char>>) -> Option<Seq<char>> {
    match http::visible(value) {
        Some(s) => Some(trim_slashes(s)),
        None => None,
    }
}

/// A configured address, without what does not belong to it.
pub fn clean_address(value: &Option<String>) -> (r: Option<String>)
    ensures
        http::opt_text(r) == address(http::opt_text(*value)),
{
    match value {
        Some(s) => {
            let trimmed = text::trimmed(s.as_str());
            if trimmed.as_str().is_empty() {
                return None;
            }
            let chars = text::chars_of(trimmed.as_str());
            let mut n: usize = chars.len();
            assert(chars@.take(n as int) == chars@);
            while n > 0 && chars[n - 1] == '/'
                invariant
                    n <= chars@.len(),
                    trim_slashes(chars@) == trim_slashes(chars@.take(n as int)),
                decreases n,
            {
                assert(chars@.take(n as int).last() == '/');
                assert(chars@.take(n as int).drop_last() == chars@.take(n - 1));
                n = n - 1;
            }
            assert(n > 0 ==> chars@.take(n as int).last() == chars@[n - 1]);
            let r = text::text_between(&chars, 0, n);
            assert(r@ == chars@.take(n as int));
            Some(r)
        },
        None => None,
    }
}

/// The address at which callers reach the gateway's pictures, where one is set.
pub fn configured_image_base_url(config: &ImageGenerationConfig) -> (r: Option<String>)
    ensures
        http::opt_text(r) == address(http::opt_text(config.public_base_url)),
{
    clean_address(&config.public_base_url)
}

/// The address that links to pictures begin with: the configured one, else the one
/// that the request was sent to, as far as its headers say.
pub open spec fn chat_base_url(
    public_base_url: Option<Seq<char>>,
    headers: Seq<RequestHeader>,
) -> Option<Seq<char>> {
    match address(public_base_url) {
        Some(url) => Some(url),
        None => http::base_url(headers),
    }
}

pub fn image_base_url_for_chat(config: &ImageGenerationConfig, headers: &[RequestHeader]) -> (r:
    Option<String>)
    ensures
        http::opt_text(r) == chat_base_url(http::opt_text(config.public_base_url), headers@),
{
    match configured_image_base_url(config) {
        Some(url) => Some(url),
        None => http::request_base_url(headers),
    }
}

/// Where a picture is found below the gateway's address.
pub open spec fn image_path(filename: Seq<char>, api_key: Option<Seq<char>>) -> Seq<char> {
    "/images/"@ + filename + match image_token_of(filename, api_key) {
        Some(token) => "?token="@ + token,
        None => Seq::empty(),
    }
}

/// The link to a picture.
pub open spec fn image_url(
    base_url: Option<Seq<char>>,
    filename: Seq<char>,
    api_key: Option<Seq<char>>,
) -> Seq<char> {
    match base_url {
        Some(base) => base + image_path(filename, api_key),
        None => image_path(filename, api_key),
    }
}

/// The link to a picture.
pub fn url_of_image(base_url: Option<&str>, filename: &str, api_key: Option<&str>) -> (r: String)
    ensures
        r@ == image_url(http::opt_str(base_url), filename@, http::opt_str(api_key)),
{
    let mut path = "/images/".to_owned();
    path.append(filename);
    if let Some(token) = image_token(filename, api_key) {
        let mut query = "?token=".to_owned();
        query.append(token.as_str());
        path.append(query.as_str());
    }
    assert(path@ == image_path(filename@, http::opt_str(api_key)));
    match base_url {
        Some(base) => {
            let mut url = base.to_owned();
            url.append(path.as_str());
            url
        },
        None => path,
    }
}

/// A picture and a link to it, in Markdown.
pub open spec fn image_markdown(filename: Seq<char>, url: Seq<char>) -> Seq<char> {
    "\n\n!["@ + filename + "]("@ + url + ")\n\n[Open image]("@ + url + ")"@
}

pub fn append_image_link(
    out: &mut String,
    base_url: Option<&str>,
    filename: &str,
    api_key: Option<&str>,
)
    ensures
        final(out)@ == old(out)@ + image_markdown(
            filename@,
            image_url(http::opt_str(base_url), filename@, http::opt_str(api_key)),
        ),
{
    let url = url_of_image(base_url, filename, api_key);
    let mut link = "\n\n![".to_owned();
    link.append(filename);
    link.append("](");
    link.append(url.as_str());
    link.append(")\n\n[Open image](");
    link.append(url.as_str());
    link.append(")");
    out.append(link.as_str());
}

/// Whether a line only stands for a picture that the model made.
pub open spec fn is_placeholder(line: Seq<char>) -> bool {
    text::starts_with(
        text::trim(line),
        "http://googleusercontent.com/image_generation_content/"@,
    ) || text::starts_with(
        text::trim(line),
        "https://googleusercontent.com/image_generation_content/"@,
    )
}

/// The lines that say something themselves.
pub open spec fn told_lines(lines: Seq<Seq<char>>) -> Seq<Seq<char>> {
    lines.filter(|line: Seq<char>| !is_placeholder(line))
}

/// A text without the lines that only stand for a picture.
pub open spec fn without_placeholders(s: Seq<char>) -> Seq<char> {
    text::trim(text::join(told_lines(text::lines(s)), "\n"@))
}

pub fn strip_generated_image_placeholders(text: &str) -> (r: String)
    ensures
        r@ == without_placeholders(text@),
{
    let lines = text::lines_of(text);
    let ghost all = text::views(lines@);
    let mut kept: Vec<String> = Vec::new();
    let mut i: usize = 0;
    proof {
        reveal(Seq::filter);
    }
    while i < lines.len()
        invariant
            all == text::views(lines@),
            i <= lines@.len(),
            text::views(kept@) == told_lines(all.take(i as int)),
        decreases lines@.len() - i,
    {
        let ghost earlier = kept@;
        proof {
            reveal(Seq::filter);
            assert(all.take(i + 1).drop_last() == all.take(i as int));
            assert(all.take(i + 1).last() == lines@[i as int]@);
        }
        let trimmed = text::trimmed(lines[i].as_str());
        if !(text::has_prefix(
            trimmed.as_str(),
            "http://googleusercontent.com/image_generation_content/",
        ) || text::has_prefix(
            trimmed.as_str(),
            "https://googleusercontent.com/image_generation_content/",
        )) {
            kept.push(lines[i].clone());
            assert(text::views(kept@) == text::views(earlier).push(lines@[i as int]@));
        }
        i = i + 1;
    }
    assert(all.take(i as int) == all);
    text::trimmed(text::joined(&kept, "\n").as_str())
}

/// The pictures of those names, each with a link to it, in Markdown.
pub open spec fn image_links(
    base_url: Option<Seq<char>>,
    filenames: Seq<Seq<char>>,
    api_key: Option<Seq<char>>,
) -> Seq<char>
    decreases filenames.len(),
{
    if filenames.len() == 0 {
        Seq::empty()
    } else {
        image_links(base_url, filenames.drop_last(), api_key) + image_markdown(
            filenames.last(),
            image_url(base_url, filenames.last(), api_key),
        )
    }
}

/// What is told of pictures: the text, or that there are some where it is blank.
pub open spec fn told(s: Seq<char>) -> Seq<char> {
    if text::trim(s).len() == 0 {
        "Image generated."@
    } else {
        s
    }
}

/// Appends a link to each picture.
fn append_links(
    out: &mut String,
    base_url: Option<&str>,
    filenames: &Vec<String>,
    api_key: Option<&str>,
)
    ensures
        final(out)@ == old(out)@ + image_links(
            http::opt_str(base_url),
            text::views(filenames@),
            http::opt_str(api_key),
        ),
{
    let ghost all = text::views(filenames@);
    let mut i: usize = 0;
    while i < filenames.len()
        invariant
            all == text::views(filenames@),
            i <= filenames@.len(),
            out@ == old(out)@ + image_links(
                http::opt_str(base_url),
                all.take(i as int),
                http::opt_str(api_key),
            ),
        decreases filenames@.len() - i,
    {
        assert(all.take(i + 1).drop_last() == all.take(i as int));
        assert(all.take(i + 1).last() == filenames@[i as int]@);
        append_image_link(out, base_url, filenames[i].as_str(), api_key);
        i = i + 1;
    }
    assert(all.take(i as int) == all);
}

/// An answer of Gemini Web with links to the pictures that came with it and were
/// saved under those names.
pub open spec fn answer_with_images(
    s: Seq<char>,
    base_url: Option<Seq<char>>,
    filenames: Seq<Seq<char>>,
    api_key: Option<Seq<char>>,
) -> Seq<char> {
    if filenames.len() == 0 {
        s
    } else {
        told(without_placeholders(s)) + image_links(base_url, filenames, api_key)
    }
}

pub fn append_image_markdown(
    text: String,
    base_url: Option<&str>,
    saved: &Vec<String>,
    api_key: Option<&str>,
) -> (r: String)
    ensures
        r@ == answer_with_images(
            text@,
            http::opt_str(base_url),
            text::views(saved@),
            http::opt_str(api_key),
        ),
{
    if saved.len() == 0 {
        return text;
    }
    let cleaned_text = strip_generated_image_placeholders(text.as_str());
    let mut out = if text::trimmed(cleaned_text.as_str()).as_str().is_empty() {
        "Image generated.".to_owned()
    } else {
        cleaned_text
    };
    append_links(&mut out, base_url, saved, api_key);
    out
}

/// A text with links to the pictures that were made for it and saved under those
/// names.
pub open spec fn text_with_images(
    s: Seq<char>,
    base_url: Option<Seq<char>>,
    filenames: Seq<Seq<char>>,
    api_key: Option<Seq<char>>,
) -> Seq<char> {
    if filenames.len() == 0 {
        s
    } else {
        told(s) + image_links(base_url, filenames, api_key)
    }
}

pub fn append_generated_image_markdown(
    text: String,
    base_url: Option<&str>,
    saved: &Vec<String>,
    api_key: Option<&str>,
) -> (r: String)
    ensures
        r@ == text_with_images(
            text@,
            http::opt_str(base_url),
            text::views(saved@),
            http::opt_str(api_key),
        ),
{
    if saved.len() == 0 {
        return text;
    }
    let mut out = if text::trimmed(text.as_str()).as_str().is_empty() {
        "Image generated.".to_owned()
    } else {
        text
    };
    append_links(&mut out, base_url, saved, api_key);
    out
}

/// Whether a name could lead out of the directory of the pictures.
pub open spec fn leads_out(filename: Seq<char>) -> bool {
    text::contains(filename, "/"@) || text::contains(filename, "\\"@) || text::contains(
        filename,
        ".."@,
    )
}

/// The status with which a request for a picture is refused, and why; none where
/// the picture may be seen. A request without a token counts as one with an empty
/// token.
pub open spec fn image_refusal(
    filename: Seq<char>,
    api_key: Option<Seq<char>>,
    token: Option<Seq<char>>,
) -> Option<(int, Seq<char>)> {
    let provided = match token {
        Some(t) => t,
        None => Seq::empty(),
    };
    if leads_out(filename) {
        Some((400int, "invalid image filename"@))
    } else {
        match image_token_of(filename, api_key) {
            Some(expected) => if provided != expected {
                Some((401int, "invalid image token"@))
            } else {
                None
            },
            None => None,
        }
    }
}

/// Lets a request for a picture pass or refuses it.
pub fn check_image(filename: &str, api_key: Option<&str>, token: Option<&str>) -> (r: Result<
    (),
    ApiError,
>)
    ensures
        match image_refusal(filename@, http::opt_str(api_key), http::opt_str(token)) {
            None => r is Ok,
            Some((status, why)) => r matches Err(e) && e.says(status, why),
        },
        (api_key matches Some(key) && key@.len() > 0 && token is None) ==> r is Err,
{
    if text::has(filename, "/") || text::has(filename, "\\") || text::has(filename, "..") {
        return Err(ApiError::bad_request("invalid image filename"));
    }
    if let Some(expected) = image_token(filename, api_key) {
        let provided = match token {
            Some(token) => token.to_owned(),
            None => String::new(),
        };
        if !text::same(provided.as_str(), expected.as_str()) {
            return Err(ApiError::unauthorized("invalid image token"));
        }
    }
    Ok(())
}

/// What stands behind the last dot of a file's name, in small letters; nothing
/// where it has no dot, or none but one at its beginning.
pub open spec fn extension(filename: Seq<char>) -> Seq<char> {
    match text::last_index(filename, "."@) {
        Some(i) => if i > 0 {
            text::ascii_lower(filename.skip(i + 1))
        } else {
            Seq::empty()
        },
        None => Seq::empty(),
    }
}

/// The kind of picture that a file's name stands for.
pub open spec fn image_type(filename: Seq<char>) -> Seq<char> {
    let ext = extension(filename);
    if ext == "jpg"@ || ext == "jpeg"@ {
        "image/jpeg"@
    } else if ext == "gif"@ {
        "image/gif"@
    } else if ext == "webp"@ {
        "image/webp"@
    } else {
        "image/png"@
    }
}

/// The kind of picture that is sent for a file of that name.
pub fn image_content_type(filename: &str) -> (r: &'static str)
    ensures
        r@ == image_type(filename@),
{
    proof {
        reveal_strlit(".");
    }
    let chars = text::chars_of(filename);
    let ext = match text::rfind(&chars, &text::chars_of(".")) {
        Some(i) => if i > 0 {
            let n: usize = chars.len();
            assert(text::occurs_at(chars@, "."@, i as int));
            let tail = text::text_between(&chars, i + 1, n);
            assert(tail@ == filename@.skip(i + 1));
            text::ascii_lowercase(tail.as_str())
        } else {
            String::new()
        },
        None => String::new(),
    };
    assert(ext@ == extension(filename@));
    if text::same(ext.as_str(), "jpg") || text::same(ext.as_str(), "jpeg") {
        "image/jpeg"
    } else if text::same(ext.as_str(), "gif") {
        "image/gif"
    } else if text::same(ext.as_str(), "webp") {
        "image/webp"
    } else {
        "image/png"
    }
}

/// The kind of an attachment: the one that is given with it, unless that is
/// blank, else the one that its name stands for.
pub open spec fn attachment_type(filename: Seq<char>, explicit: Option<Seq<char>>) -> Seq<char> {
    let lower = text::ascii_lower(filename);
    match http::visible(explicit) {
        Some(given) => given,
        None => if text::ends_with(lower, ".jpg"@) || text::ends_with(lower, ".jpeg"@) {
            "image/jpeg"@
        } else if text::ends_with(lower, ".webp"@) {
            "image/webp"@
        } else if text::ends_with(lower, ".gif"@) {
            "image/gif"@
        } else {
            "image/png"@
        },
    }
}

pub fn guess_attachment_content_type(filename: &str, explicit: Option<&str>) -> (r: String)
    ensures
        r@ == attachment_type(filename@, http::opt_str(explicit)),
{
    if let Some(value) = explicit {
        let trimmed = text::trimmed(value);
        if !trimmed.as_str().is_empty() {
            return trimmed;
        }
    }
    let lower = text::ascii_lowercase(filename);
    if text::has_suffix(lower.as_str(), ".jpg") || text::has_suffix(lower.as_str(), ".jpeg") {
        "image/jpeg".to_owned()
    } else if text::has_suffix(lower.as_str(), ".webp") {
        "image/webp".to_owned()
    } else if text::has_suffix(lower.as_str(), ".gif") {
        "image/gif".to_owned()
    } else {
        "image/png".to_owned()
    }
}

/// The link that the gateway gives to a picture opens it: the token that the link
/// carries is let pass.
pub proof fn law_links_open_their_image(filename: Seq<char>, api_key: Option<Seq<char>>)
    requires
        !leads_out(filename),
    ensures
        image_refusal(filename, api_key, image_token_of(filename, api_key)) is None,
{
}

/// Where an access key is set, a request with any other token does not see the
/// picture.
pub proof fn law_other_tokens_are_refused(
    filename: Seq<char>,
    api_key: Seq<char>,
    token: Seq<char>,
)
    requires
        api_key.len() > 0,
        token != token_of(filename, api_key),
    ensures
        image_refusal(filename, Some(api_key), Some(token)) is Some,
{
}

/// What a caller is told of a failure of the image tool.
pub open spec fn failure_message(detail: Seq<char>) -> Seq<char> {
    let lower = text::ascii_lower(detail);
    if text::contains(lower, "no generated image found before timeout"@) || text::contains(
        lower,
        "operation timed out"@,
    ) || text::contains(lower, "request timed out"@) {
        "生图失败：Gemini Web 在 120 秒内没有生成图片，可能是账号/地区限制或当前服务卡住。我已经停止等待，避免拖慢聊天。"@
    } else if text::contains(lower, "worker busy"@) {
        "生图失败：生图 worker 正忙，稍后再试。"@
    } else {
        "Image generation failed: "@ + detail
    }
}

pub fn image_tool_failure_message(detail: &str) -> (r: String)
    ensures
        r@ == failure_message(detail@),
{
    let lower = text::ascii_lowercase(detail);
    if text::has(lower.as_str(), "no generated image found before timeout") || text::has(
        lower.as_str(),
        "operation timed out",
    ) || text::has(lower.as_str(), "request timed out") {
        return "生图失败：Gemini Web 在 120 秒内没有生成图片，可能是账号/地区限制或当前服务卡住。我已经停止等待，避免拖慢聊天。".to_owned();
    }
    if text::has(lower.as_str(), "worker busy") {
        return "生图失败：生图 worker 正忙，稍后再试。".to_owned();
    }
    let mut out = "Image generation failed: ".to_owned();
    out.append(detail);
    out
}

/// The link to a picture leads to its name below the gateway's address, with the token of the
/// picture where an access key is set.
pub proof fn law_links_lead_to_the_name_of_the_picture(
    base: Seq<char>,
    filename: Seq<char>,
    key: Seq<char>,
)
    ensures
        image_url(Some(base), filename, None) == base + "/images/"@ + filename,
        key.len() > 0 ==> image_url(Some(base), filename, Some(key)) == base + "/images/"@
            + filename + "?token="@ + token_of(filename, key),
        key.len() == 0 ==> image_url(Some(base), filename, Some(key)) == image_url(
            Some(base),
            filename,
            None,
        ),
        base + image_url(None, filename, Some(key)) == image_url(Some(base), filename, Some(key)),
        base + image_url(None, filename, None) == image_url(Some(base), filename, None),
{
    assert(image_url(Some(base), filename, None) =~= base + "/images/"@ + filename);
    if key.len() > 0 {
        assert(image_url(Some(base), filename, Some(key)) =~= base + "/images/"@ + filename
            + "?token="@ + token_of(filename, key));
    }
}

/// A token is made of the name of the picture and the access key, with a colon between them.
pub proof fn law_tokens_are_made_of_name_and_key(filename: Seq<char>, key: Seq<char>)
    ensures
        token_of(filename, key) == digest::sha256_hex(
            vstd::utf8::encode_utf8(filename) + seq![0x3au8] + vstd::utf8::encode_utf8(key),
        ).take(24),
        image_token_of(filename, None) is None,
        image_token_of(filename, Some(Seq::empty())) is None,
        key.len() > 0 ==> image_token_of(filename, Some(key)) == Some(token_of(filename, key)),
{
}

proof fn lemma_slashes_are_cut(s: Seq<char>, n: nat)
    requires
        s.len() > 0 ==> s.last() != '/',
    ensures
        trim_slashes(s + Seq::new(n, |i: int| '/')) == s,
    decreases n,
{
    let all = s + Seq::new(n, |i: int| '/');
    if n == 0 {
        assert(all =~= s);
    } else {
        assert(all.drop_last() =~= s + Seq::new((n - 1) as nat, |i: int| '/'));
        lemma_slashes_are_cut(s, (n - 1) as nat);
    }
}

/// A configured address counts without the white space around it and the slashes at its end;
/// a blank one counts for none.
pub proof fn law_addresses_end_without_slashes(
    before: Seq<char>,
    s: Seq<char>,
    slashes: nat,
    after: Seq<char>,
)
    requires
        text::is_blank(before),
        text::is_blank(after),
        s.len() > 0,
        !text::is_space(s[0]),
        !text::is_space(s.last()),
        s.last() != '/',
    ensures
        address(Some(before + (s + Seq::new(slashes, |i: int| '/')) + after)) == Some(s),
        address(Some(before)) is None,
        address(None) is None,
{
    let middle = s + Seq::new(slashes, |i: int| '/');
    assert(middle[0] == s[0]);
    if slashes > 0 {
        assert(middle.last() == '/');
    } else {
        assert(middle =~= s);
    }
    text::law_trim_takes_white_space_alone(before, middle, after);
    text::law_blank_texts_are_trimmed_to_nothing(before);
    lemma_slashes_are_cut(s, slashes);
}

/// The configured address goes before the one that a request was sent to.
pub proof fn law_configured_addresses_go_first(
    public_base_url: Option<Seq<char>>,
    headers: Seq<RequestHeader>,
)
    ensures
        address(public_base_url) is Some ==> chat_base_url(public_base_url, headers) == address(
            public_base_url,
        ),
        address(public_base_url) is None ==> chat_base_url(public_base_url, headers)
            == http::base_url(headers),
{
}

/// Every picture is shown and linked by its own name, behind those before it.
pub proof fn law_every_picture_has_its_link(
    base_url: Option<Seq<char>>,
    filenames: Seq<Seq<char>>,
    filename: Seq<char>,
    api_key: Option<Seq<char>>,
)
    ensures
        ({
            let url = image_url(base_url, filename, api_key);
            image_links(base_url, filenames.push(filename), api_key) == image_links(
                base_url,
                filenames,
                api_key,
            ) + "\n\n!["@ + filename + "]("@ + url + ")\n\n[Open image]("@ + url + ")"@
        }),
        image_links(base_url, Seq::empty(), api_key) == Seq::<char>::empty(),
{
    let url = image_url(base_url, filename, api_key);
    assert(filenames.push(filename).drop_last() =~= filenames);
    assert(image_links(base_url, filenames.push(filename), api_key) =~= image_links(
        base_url,
        filenames,
        api_key,
    ) + "\n\n!["@ + filename + "]("@ + url + ")\n\n[Open image]("@ + url + ")"@);
}

/// A text keeps its place before the links to its pictures; a blank one gives way to a word
/// that there are some; and without pictures a text stays as it is.
pub proof fn law_links_stand_behind_the_text(
    s: Seq<char>,
    base_url: Option<Seq<char>>,
    filenames: Seq<Seq<char>>,
    api_key: Option<Seq<char>>,
)
    ensures
        text_with_images(s, base_url, Seq::empty(), api_key) == s,
        answer_with_images(s, base_url, Seq::empty(), api_key) == s,
        filenames.len() > 0 && !text::is_blank(s) ==> text_with_images(
            s,
            base_url,
            filenames,
            api_key,
        ) == s + image_links(base_url, filenames, api_key),
        filenames.len() > 0 && text::is_blank(s) ==> text_with_images(
            s,
            base_url,
            filenames,
            api_key,
        ) == "Image generated."@ + image_links(base_url, filenames, api_key),
        filenames.len() > 0 ==> answer_with_images(s, base_url, filenames, api_key)
            == text_with_images(without_placeholders(s), base_url, filenames, api_key),
{
    text::law_blank_texts_are_trimmed_to_nothing(s);
}

/// Whether the lines of a list can be told apart in a text that holds them.
pub open spec fn are_lines(lines: Seq<Seq<char>>) -> bool {
    &&& lines.len() > 0
    &&& lines.last().len() > 0
    &&& forall|i: int|
        0 <= i < lines.len() ==> !(#[trigger] lines[i]).contains('\n') && (lines[i].len() > 0
            ==> lines[i].last() != '\r')
}

proof fn lemma_lines_are_read_back(lines: Seq<Seq<char>>)
    requires
        are_lines(lines),
    ensures
        text::lines(text::join(lines, "\n"@)) == lines,
{
    reveal_strlit("\n");
    assert("\n"@ =~= seq!['\n']);
    assert forall|i: int| 0 <= i < lines.len() implies !(#[trigger] lines[i]).contains('\n') by {}
    text::law_split_undoes_join(lines, '\n');
    let ended = lines.drop_last().map_values(|p: Seq<char>| text::strip_return(p));
    assert(ended =~= lines.drop_last()) by {
        assert forall|i: int| 0 <= i < lines.drop_last().len() implies #[trigger] ended[i]
            == lines.drop_last()[i] by {
            assert(lines[i] == lines.drop_last()[i]);
        }
    }
    assert(ended.push(lines.last()) =~= lines);
}

proof fn lemma_told_lines_of_both(a: Seq<Seq<char>>, b: Seq<Seq<char>>)
    ensures
        told_lines(a + b) == told_lines(a) + told_lines(b),
    decreases b.len(),
{
    reveal(Seq::filter);
    if b.len() == 0 {
        assert(a + b =~= a);
        assert(told_lines(a) + told_lines(b) =~= told_lines(a));
    } else {
        lemma_told_lines_of_both(a, b.drop_last());
        assert((a + b).drop_last() =~= a + b.drop_last());
        assert(told_lines(a + b) =~= told_lines(a) + told_lines(b));
    }
}

proof fn lemma_all_lines_are_told(lines: Seq<Seq<char>>)
    requires
        forall|i: int| 0 <= i < lines.len() ==> !is_placeholder(#[trigger] lines[i]),
    ensures
        told_lines(lines) == lines,
    decreases lines.len(),
{
    reveal(Seq::filter);
    if lines.len() > 0 {
        assert(!is_placeholder(lines[lines.len() - 1]));
        assert forall|i: int| 0 <= i < lines.drop_last().len() implies !is_placeholder(
            #[trigger] lines.drop_last()[i],
        ) by {
            assert(!is_placeholder(lines[i]));
        }
        lemma_all_lines_are_told(lines.drop_last());
        assert(told_lines(lines) =~= lines);
    } else {
        assert(told_lines(lines) =~= lines);
    }
}

/// A text of which no line stands for a picture is told whole.
pub proof fn law_lines_that_say_something_are_told(lines: Seq<Seq<char>>)
    requires
        are_lines(lines),
        forall|i: int|
            0 <= i < lines.len() ==> !text::starts_with(
                text::trim(#[trigger] lines[i]),
                "http"@,
            ),
    ensures
        without_placeholders(text::join(lines, "\n"@)) == text::trim(text::join(lines, "\n"@)),
{
    lemma_lines_are_read_back(lines);
    reveal_strlit("http");
    reveal_strlit("http://googleusercontent.com/image_generation_content/");
    reveal_strlit("https://googleusercontent.com/image_generation_content/");
    let plain = "http://googleusercontent.com/image_generation_content/"@;
    let secure = "https://googleusercontent.com/image_generation_content/"@;
    assert forall|i: int| 0 <= i < lines.len() implies !is_placeholder(#[trigger] lines[i]) by {
        let t = text::trim(lines[i]);
        if text::starts_with(t, plain) {
            assert(t.subrange(0, 4) =~= "http"@) by {
                assert forall|k: int| 0 <= k < 4 implies t[k] == "http"@[k] by {
                    assert(t.subrange(0, plain.len() as int)[k] == plain[k]);
                }
            }
        }
        if text::starts_with(t, secure) {
            assert(t.subrange(0, 4) =~= "http"@) by {
                assert forall|k: int| 0 <= k < 4 implies t[k] == "http"@[k] by {
                    assert(t.subrange(0, secure.len() as int)[k] == secure[k]);
                }
            }
        }
    }
    lemma_all_lines_are_told(lines);
}

/// A line that only stands for a picture is left out of a text, wherever it stands.
pub proof fn law_lines_that_stand_for_pictures_are_left_out(
    a: Seq<Seq<char>>,
    line: Seq<char>,
    b: Seq<Seq<char>>,
    rest: Seq<char>,
)
    requires
        text::trim(line) == "http://googleusercontent.com/image_generation_content/"@ + rest
            || text::trim(line) == "https://googleusercontent.com/image_generation_content/"@
            + rest,
        are_lines(a.push(line) + b),
        are_lines(a + b),
    ensures
        without_placeholders(text::join(a.push(line) + b, "\n"@)) == without_placeholders(
            text::join(a + b, "\n"@),
        ),
{
    lemma_lines_are_read_back(a.push(line) + b);
    lemma_lines_are_read_back(a + b);
    text::law_parts_of_a_text_are_found(
        Seq::empty(),
        "http://googleusercontent.com/image_generation_content/"@,
        rest,
    );
    text::law_parts_of_a_text_are_found(
        Seq::empty(),
        "https://googleusercontent.com/image_generation_content/"@,
        rest,
    );
    assert(is_placeholder(line));
    lemma_told_lines_of_both(a.push(line), b);
    lemma_told_lines_of_both(a, b);
    assert(a.push(line) =~= a + seq![line]);
    lemma_told_lines_of_both(a, seq![line]);
    reveal(Seq::filter);
    assert(seq![line].drop_last() =~= Seq::<Seq<char>>::empty());
    assert(told_lines(Seq::<Seq<char>>::empty()) =~= Seq::<Seq<char>>::empty());
    assert(told_lines(seq![line]) =~= Seq::<Seq<char>>::empty());
    assert(told_lines(a) + Seq::<Seq<char>>::empty() =~= told_lines(a));
}

/// A name that holds a slash, a reverse solidus or two dots is refused, with any token.
pub proof fn law_names_that_lead_out_are_refused(
    a: Seq<char>,
    b: Seq<char>,
    api_key: Option<Seq<char>>,
    token: Option<Seq<char>>,
)
    ensures
        image_refusal(a + "/"@ + b, api_key, token) == Some((400int, "invalid image filename"@)),
        image_refusal(a + "\\"@ + b, api_key, token) == Some((400int, "invalid image filename"@)),
        image_refusal(a + ".."@ + b, api_key, token) == Some((400int, "invalid image filename"@)),
{
    text::law_parts_of_a_text_are_found(a, "/"@, b);
    text::law_parts_of_a_text_are_found(a, "\\"@, b);
    text::law_parts_of_a_text_are_found(a, ".."@, b);
}

/// A picture is seen with its token and without any other; where no access key is set, it is
/// seen with any token and without one.
pub proof fn law_tokens_decide_who_sees_a_picture(
    filename: Seq<char>,
    key: Seq<char>,
    token: Option<Seq<char>>,
)
    requires
        !filename.contains('/'),
        !filename.contains('\\'),
        !filename.contains('.') || forall|i: int|
            0 <= i < filename.len() - 1 ==> !(#[trigger] filename[i] == '.' && filename[i + 1]
                == '.'),
    ensures
        image_refusal(filename, None, token) is None,
        image_refusal(filename, Some(Seq::empty()), token) is None,
        key.len() > 0 ==> image_refusal(filename, Some(key), Some(token_of(filename, key))) is None,
        key.len() > 0 && token is Some && token != Some(token_of(filename, key)) ==> image_refusal(
            filename,
            Some(key),
            token,
        ) == Some((401int, "invalid image token"@)),
{
    reveal_strlit("/");
    reveal_strlit("\\");
    reveal_strlit("..");
    if text::contains(filename, "/"@) {
        let i = choose|i: int| text::occurs_at(filename, "/"@, i);
        assert(filename.subrange(i, i + 1)[0] == '/');
        assert(filename.contains(filename[i]));
    }
    if text::contains(filename, "\\"@) {
        let i = choose|i: int| text::occurs_at(filename, "\\"@, i);
        assert(filename.subrange(i, i + 1)[0] == '\\');
        assert(filename.contains(filename[i]));
    }
    if text::contains(filename, ".."@) {
        let i = choose|i: int| text::occurs_at(filename, ".."@, i);
        assert(filename.subrange(i, i + 2)[0] == '.');
        assert(filename.subrange(i, i + 2)[1] == '.');
        assert(filename[i] == '.' && filename[i + 1] == '.');
        assert(filename.contains(filename[i]));
    }
}

/// The kind that is given with an attachment counts, unless it is blank.
pub proof fn law_given_kinds_count(filename: Seq<char>, kind: Seq<char>)
    ensures
        !text::is_blank(kind) ==> attachment_type(filename, Some(kind)) == text::trim(kind),
        text::is_blank(kind) ==> attachment_type(filename, Some(kind)) == attachment_type(
            filename,
            None,
        ),
{
    text::law_blank_texts_are_trimmed_to_nothing(kind);
}

/// An attachment without a kind is taken for what its name ends with, in either case, and for
/// a PNG picture where that says nothing.
pub proof fn law_names_tell_the_kind_of_an_attachment(stem: Seq<char>, ext: Seq<char>)
    ensures
        ext == ".jpg"@ || ext == ".jpeg"@ || ext == ".JPG"@ || ext == ".JPEG"@ ==> attachment_type(
            stem + ext,
            None,
        ) == "image/jpeg"@,
        ext == ".webp"@ || ext == ".WEBP"@ ==> attachment_type(stem + ext, None) == "image/webp"@,
        ext == ".gif"@ || ext == ".GIF"@ ==> attachment_type(stem + ext, None) == "image/gif"@,
        ext == ".png"@ || ext == ".PNG"@ ==> attachment_type(stem + ext, None) == "image/png"@,
{
    reveal_strlit(".jpg");
    reveal_strlit(".jpeg");
    reveal_strlit(".webp");
    reveal_strlit(".gif");
    reveal_strlit(".png");
    reveal_strlit(".JPG");
    reveal_strlit(".JPEG");
    reveal_strlit(".WEBP");
    reveal_strlit(".GIF");
    reveal_strlit(".PNG");
    let s = stem + ext;
    let low = text::ascii_lower(s);
    let end = text::ascii_lower(ext);
    assert(low =~= text::ascii_lower(stem) + end);
    text::law_parts_of_a_text_are_found(text::ascii_lower(stem), end, Seq::empty());
    assert(text::ascii_lower(".JPG"@) =~= ".jpg"@ && text::ascii_lower(".jpg"@) =~= ".jpg"@);
    assert(text::ascii_lower(".JPEG"@) =~= ".jpeg"@ && text::ascii_lower(".jpeg"@) =~= ".jpeg"@);
    assert(text::ascii_lower(".WEBP"@) =~= ".webp"@ && text::ascii_lower(".webp"@) =~= ".webp"@);
    assert(text::ascii_lower(".GIF"@) =~= ".gif"@ && text::ascii_lower(".gif"@) =~= ".gif"@);
    assert(text::ascii_lower(".PNG"@) =~= ".png"@ && text::ascii_lower(".png"@) =~= ".png"@);
    if end == ".webp"@ || end == ".gif"@ || end == ".png"@ {
        assert(low.last() == end.last());
        lemma_last_of_an_end(low, ".jpg"@);
        lemma_last_of_an_end(low, ".jpeg"@);
        lemma_last_of_an_end(low, ".webp"@);
        lemma_last_of_an_end(low, ".gif"@);
        assert(".jpg"@.last() == 'g' && ".jpeg"@.last() == 'g' && ".webp"@.last() == 'p'
            && ".gif"@.last() == 'f' && ".png"@.last() == 'g');
        assert(low[low.len() - 2] == end[end.len() - 2]);
        if text::ends_with(low, ".jpg"@) {
            assert(low.subrange(low.len() - 4, low.len() as int)[2] == ".jpg"@[2]);
        }
        if text::ends_with(low, ".jpeg"@) {
            assert(low.subrange(low.len() - 5, low.len() as int)[3] == ".jpeg"@[3]);
        }
    }
}

proof fn lemma_last_of_an_end(s: Seq<char>, end: Seq<char>)
    requires
        end.len() > 0,
    ensures
        text::ends_with(s, end) ==> s.len() > 0 && s.last() == end.last(),
{
    if text::ends_with(s, end) {
        let at = s.len() - end.len();
        assert(s.subrange(at, at + end.len())[end.len() - 1] == end[end.len() - 1]);
    }
}

/// A failure of the image tool is told with its reason, unless the reason is that it took too
/// long or that the worker is busy, in either case of its letters: those are explained.
pub proof fn law_failures_of_the_image_tool_are_explained(detail: Seq<char>)
    ensures
        crate::routing::mentions(detail, "no generated image found before timeout"@) || crate::routing::mentions(
            detail,
            "operation timed out"@,
        ) || crate::routing::mentions(detail, "request timed out"@) ==> text::starts_with(
            failure_message(detail),
            "生图失败：Gemini Web 在 120 秒内没有生成图片"@,
        ),
        !crate::routing::mentions(detail, "no generated image found before timeout"@)
            && !crate::routing::mentions(detail, "operation timed out"@) && !crate::routing::mentions(
            detail,
            "request timed out"@,
        ) ==> if crate::routing::mentions(detail, "worker busy"@) {
            failure_message(detail) == "生图失败：生图 worker 正忙，稍后再试。"@
        } else {
            failure_message(detail) == "Image generation failed: "@ + detail
        },
{
    reveal_strlit("no generated image found before timeout");
    reveal_strlit("operation timed out");
    reveal_strlit("request timed out");
    reveal_strlit("worker busy");
    crate::routing::lemma_mentioned_in_small_letters(detail, "no generated image found before timeout"@);
    crate::routing::lemma_mentioned_in_small_letters(detail, "operation timed out"@);
    crate::routing::lemma_mentioned_in_small_letters(detail, "request timed out"@);
    crate::routing::lemma_mentioned_in_small_letters(detail, "worker busy"@);
    let told =
        "生图失败：Gemini Web 在 120 秒内没有生成图片，可能是账号/地区限制或当前服务卡住。我已经停止等待，避免拖慢聊天。"@;
    reveal_strlit(
        "生图失败：Gemini Web 在 120 秒内没有生成图片，可能是账号/地区限制或当前服务卡住。我已经停止等待，避免拖慢聊天。",
    );
    reveal_strlit("生图失败：Gemini Web 在 120 秒内没有生成图片");
    let begin = "生图失败：Gemini Web 在 120 秒内没有生成图片"@;
    assert(told.subrange(0, begin.len() as int) =~= begin);
}

/// Every picture is linked in the text that tells of the pictures, by its own link.
pub proof fn law_every_link_is_told(
    s: Seq<char>,
    base_url: Option<Seq<char>>,
    filenames: Seq<Seq<char>>,
    api_key: Option<Seq<char>>,
    i: int,
)
    requires
        0 <= i < filenames.len(),
    ensures
        text::contains(
            text_with_images(s, base_url, filenames, api_key),
            "]("@ + image_url(base_url, filenames[i], api_key) + ")"@,
        ),
        text::contains(
            answer_with_images(s, base_url, filenames, api_key),
            "]("@ + image_url(base_url, filenames[i], api_key) + ")"@,
        ),
{
    let links = image_links(base_url, filenames, api_key);
    let link = "]("@ + image_url(base_url, filenames[i], api_key) + ")"@;
    lemma_link_is_there(base_url, filenames, api_key, i);
    let at = choose|at: int| text::occurs_at(links, link, at);
    let a = told(s);
    assert((a + links).subrange(a.len() + at, a.len() + at + link.len()) =~= links.subrange(
        at,
        at + link.len(),
    ));
    assert(text::occurs_at(a + links, link, a.len() + at));
    let b = told(without_placeholders(s));
    assert((b + links).subrange(b.len() + at, b.len() + at + link.len()) =~= links.subrange(
        at,
        at + link.len(),
    ));
    assert(text::occurs_at(b + links, link, b.len() + at));
}

proof fn lemma_link_is_there(
    base_url: Option<Seq<char>>,
    filenames: Seq<Seq<char>>,
    api_key: Option<Seq<char>>,
    i: int,
)
    requires
        0 <= i < filenames.len(),
    ensures
        text::contains(
            image_links(base_url, filenames, api_key),
            "]("@ + image_url(base_url, filenames[i], api_key) + ")"@,
        ),
    decreases filenames.len(),
{
    let links = image_links(base_url, filenames, api_key);
    let url = image_url(base_url, filenames[i], api_key);
    let link = "]("@ + url + ")"@;
    let earlier = image_links(base_url, filenames.drop_last(), api_key);
    if i == filenames.len() - 1 {
        reveal_strlit(")");
        reveal_strlit(")\n\n[Open image](");
        let at = (earlier + "\n\n!["@ + filenames[i]).len() as int;
        assert(")\n\n[Open image]("@[0] == ')');
        assert(links.subrange(at, at + link.len()) =~= link);
        assert(text::occurs_at(links, link, at));
    } else {
        lemma_link_is_there(base_url, filenames.drop_last(), api_key, i);
        let at = choose|at: int| text::occurs_at(earlier, link, at);
        assert(links.subrange(at, at + link.len()) =~= earlier.subrange(at, at + link.len()));
        assert(text::occurs_at(links, link, at));
    }
}

} // verus!
