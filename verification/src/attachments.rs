//! What comes with a request to be looked at.
use crate::http;
use crate::json;
use crate::json::{Json, Tree};
use crate::openai;
use crate::openai::ChatMessage;
use crate::text;
use base64::Engine;
use vstd::prelude::*;

verus! {

/// The character that stands for a number below 64 in base64.
pub open spec fn base64_char(n: int) -> char {
    if n < 26 {
        ('A' as int + n) as char
    } else if n < 52 {
        ('a' as int + n - 26) as char
    } else if n < 62 {
        ('0' as int + n - 52) as char
    } else if n == 62 {
        '+'
    } else {
        '/'
    }
}

/// Bytes in base64: each three of them as four characters of six bits, what is left
/// at the end filled up with zero bits and padded with `=`.
pub open spec fn base64_text(data: Seq<u8>) -> Seq<char>
    decreases data.len(),
{
    let a = data[0] as int;
    let b = data[1] as int;
    let c = data[2] as int;
    if data.len() == 0 {
        Seq::empty()
    } else if data.len() == 1 {
        seq![base64_char(a / 4), base64_char(a % 4 * 16), '=', '=']
    } else if data.len() == 2 {
        seq![base64_char(a / 4), base64_char(a % 4 * 16 + b / 16), base64_char(b % 16 * 4), '=']
    } else {
        seq![
            base64_char(a / 4),
            base64_char(a % 4 * 16 + b / 16),
            base64_char(b % 16 * 4 + c / 64),
            base64_char(c % 64),
        ] + base64_text(data.skip(3))
    }
}

/// `base64::Engine::encode` of `base64::engine::general_purpose::STANDARD`: the
/// standard alphabet, with padding. Longer data than that might not fit in memory
/// once it is encoded, on which the call panics.
#[verifier::external_body]
fn base64_encode(data: &[u8]) -> (r: String)
    requires
        data@.len() <= isize::MAX / 2,
    ensures
        r@ == base64_text(data@),
{
    base64::engine::general_purpose::STANDARD.encode(data)
}

/// `base64::Engine::decode` of `base64::engine::general_purpose::STANDARD`, which
/// takes nothing but what `encode` writes: it asks for the padding, and for zero bits
/// where the last characters are filled up.
#[verifier::external_body]
fn base64_decode(s: &str) -> (r: Option<Vec<u8>>)
    ensures
        match r {
            Some(data) => base64_text(data@) == s@,
            None => forall|data: Seq<u8>| #[trigger] base64_text(data) != s@,
        },
{
    base64::engine::general_purpose::STANDARD.decode(s).ok()
}

/// A picture in base64.
pub fn encode_image(data: &[u8]) -> (r: String)
    requires
        data@.len() <= isize::MAX / 2,
    ensures
        r@ == base64_text(data@),
{
    base64_encode(data)
}

/// The bytes that a text in base64 stands for, where it does stand for some.
pub open spec fn base64_data(s: Seq<char>) -> Option<Seq<u8>> {
    if exists|data: Seq<u8>| base64_text(data) == s {
        Some(choose|data: Seq<u8>| base64_text(data) == s)
    } else {
        None
    }
}

/// The bytes that a text in base64 stands for, where it does stand for some.
pub fn decode_image(s: &str) -> (r: Option<Vec<u8>>)
    ensures
        match r {
            Some(data) => base64_data(s@) == Some(data@),
            None => base64_data(s@) is None,
        },
{
    let r = base64_decode(s);
    proof {
        if r is Some {
            law_base64_is_read_as_it_was_written(r->Some_0@);
        }
    }
    r
}

proof fn lemma_base64_chars_differ(m: int, n: int)
    requires
        0 <= m < 64,
        0 <= n < 64,
    ensures
        base64_char(m) == base64_char(n) ==> m == n,
        base64_char(m) != '=',
{
}

proof fn lemma_base64_texts_differ(a: Seq<u8>, b: Seq<u8>)
    requires
        base64_text(a) == base64_text(b),
    ensures
        a == b,
    decreases a.len(),
{
    let s = base64_text(a);
    let t = base64_text(b);
    if a.len() == 0 || b.len() == 0 {
        assert(s.len() == t.len());
        assert(a == b);
    } else {
        let (a0, a1, a2) = (a[0] as int, a[1] as int, a[2] as int);
        let (b0, b1, b2) = (b[0] as int, b[1] as int, b[2] as int);
        assert(s[0] == t[0] && s[1] == t[1] && s[2] == t[2] && s[3] == t[3]);
        lemma_base64_chars_differ(a0 / 4, b0 / 4);
        if a.len() >= 3 {
            lemma_base64_chars_differ(a1 % 16 * 4 + a2 / 64, 0);
            lemma_base64_chars_differ(a2 % 64, 0);
        }
        if b.len() >= 3 {
            lemma_base64_chars_differ(b1 % 16 * 4 + b2 / 64, 0);
            lemma_base64_chars_differ(b2 % 64, 0);
        }
        if a.len() == 2 {
            lemma_base64_chars_differ(a1 % 16 * 4, 0);
        }
        if b.len() == 2 {
            lemma_base64_chars_differ(b1 % 16 * 4, 0);
        }
        if a.len() == 1 {
            assert(b.len() == 1);
            lemma_base64_chars_differ(a0 % 4 * 16, b0 % 4 * 16);
            assert(a =~= b);
        } else if a.len() == 2 {
            assert(b.len() == 2);
            lemma_base64_chars_differ(a0 % 4 * 16 + a1 / 16, b0 % 4 * 16 + b1 / 16);
            lemma_base64_chars_differ(a1 % 16 * 4, b1 % 16 * 4);
            assert(a =~= b);
        } else {
            assert(b.len() >= 3);
            lemma_base64_chars_differ(a0 % 4 * 16 + a1 / 16, b0 % 4 * 16 + b1 / 16);
            lemma_base64_chars_differ(a1 % 16 * 4 + a2 / 64, b1 % 16 * 4 + b2 / 64);
            lemma_base64_chars_differ(a2 % 64, b2 % 64);
            assert(s.skip(4) =~= base64_text(a.skip(3)));
            assert(t.skip(4) =~= base64_text(b.skip(3)));
            lemma_base64_texts_differ(a.skip(3), b.skip(3));
            assert(a =~= seq![a[0], a[1], a[2]] + a.skip(3));
            assert(b =~= seq![b[0], b[1], b[2]] + b.skip(3));
        }
    }
}

/// What is written in base64 is read as it was.
pub proof fn law_base64_is_read_as_it_was_written(data: Seq<u8>)
    ensures
        base64_data(base64_text(data)) == Some(data),
{
    let s = base64_text(data);
    let found = choose|d: Seq<u8>| base64_text(d) == s;
    assert(base64_text(found) == s);
    lemma_base64_texts_differ(found, data);
}

/// Something to look at that came with a request, by its data or by its address.
#[derive(Debug)]
pub struct InputAttachment {
    pub filename: String,
    pub content_type: Option<String>,
    pub source: AttachmentSource,
}

/// Where an attachment is to be had.
#[derive(Debug)]
pub enum AttachmentSource {
    Data(Vec<u8>),
    Url(String),
}

/// Something to look at that came with a request.
#[verifier::ext_equal]
pub struct AttachmentView {
    pub filename: Seq<char>,
    pub content_type: Option<Seq<char>>,
    pub source: SourceView,
}

/// Where an attachment is to be had.
#[verifier::ext_equal]
pub enum SourceView {
    Data(Seq<u8>),
    Url(Seq<char>),
}

impl View for InputAttachment {
    type V = AttachmentView;

    open spec fn view(&self) -> AttachmentView {
        AttachmentView {
            filename: self.filename@,
            content_type: http::opt_text(self.content_type),
            source: match self.source {
                AttachmentSource::Data(data) => SourceView::Data(data@),
                AttachmentSource::Url(url) => SourceView::Url(url@),
            },
        }
    }
}

/// What the attachments of a list are.
pub open spec fn attachment_views(list: Seq<InputAttachment>) -> Seq<AttachmentView> {
    list.map_values(|a: InputAttachment| a@)
}

/// The data that a `data:` link holds in base64, and their kind.
pub open spec fn linked_data(url: Seq<char>) -> Option<(Seq<char>, Seq<u8>)> {
    match text::split_once(url.skip(5), ',') {
        Some((head, payload)) => if text::ends_with(head, ";base64"@) {
            match base64_data(payload) {
                Some(data) => Some((head.take(head.len() - 7), data)),
                None => None,
            }
        } else {
            None
        },
        None => None,
    }
}

/// What a link leads to, under that name: data that it holds itself, or an address on the
/// web. Any other link leads to nothing.
pub open spec fn linked(filename: Seq<char>, url: Seq<char>) -> Option<AttachmentView> {
    if text::starts_with(url, "data:"@) {
        match linked_data(url) {
            Some((kind, data)) => Some(
                AttachmentView {
                    filename,
                    content_type: Some(kind),
                    source: SourceView::Data(data),
                },
            ),
            None => None,
        }
    } else if text::starts_with(url, "http://"@) || text::starts_with(url, "https://"@) {
        Some(AttachmentView { filename, content_type: None, source: SourceView::Url(url) })
    } else {
        None
    }
}

/// The data that a `data:` link holds in base64, and their kind.
fn read_data_link(url: &str) -> (r: Option<(String, Vec<u8>)>)
    requires
        text::starts_with(url@, "data:"@),
    ensures
        match r {
            Some((kind, data)) => linked_data(url@) == Some((kind@, data@)),
            None => linked_data(url@) is None,
        },
{
    proof {
        reveal_strlit("data:");
        reveal_strlit(";base64");
    }
    let chars = text::chars_of(url);
    let rest = text::text_between(&chars, 5, chars.len());
    assert(rest@ == url@.skip(5));
    match text::split_at_first(rest.as_str(), ',') {
        Some((head, payload)) => {
            if !text::has_suffix(head.as_str(), ";base64") {
                return None;
            }
            let head_chars = text::chars_of(head.as_str());
            let kind = text::text_between(&head_chars, 0, head_chars.len() - 7);
            assert(kind@ == head@.take(head@.len() - 7));
            match decode_image(payload.as_str()) {
                Some(data) => Some((kind, data)),
                None => None,
            }
        },
        None => None,
    }
}

/// What a link leads to, under that name.
fn follow(filename: String, url: &str) -> (r: Option<InputAttachment>)
    ensures
        match r {
            Some(a) => linked(filename@, url@) == Some(a@),
            None => linked(filename@, url@) is None,
        },
{
    if text::has_prefix(url, "data:") {
        match read_data_link(url) {
            Some((kind, data)) => Some(
                InputAttachment {
                    filename,
                    content_type: Some(kind),
                    source: AttachmentSource::Data(data),
                },
            ),
            None => None,
        }
    } else if text::has_prefix(url, "http://") || text::has_prefix(url, "https://") {
        Some(
            InputAttachment {
                filename,
                content_type: None,
                source: AttachmentSource::Url(url.to_owned()),
            },
        )
    } else {
        None
    }
}

/// The text of a field of a part of a content, which may stand in the part itself or in its
/// file.
pub open spec fn file_text(part: Tree, name: Seq<char>) -> Option<Seq<char>> {
    match part.get_str(name) {
        Some(s) => Some(s),
        None => match part.get("file"@) {
            Some(file) => file.get_str(name),
            None => None,
        },
    }
}

/// The link of a part of a content: the one of its picture, else the data of its file.
pub open spec fn part_link(part: Tree) -> Option<Seq<char>> {
    match part.get("image_url"@) {
        Some(Tree::Str(url)) => Some(url),
        Some(image) => image.get_str("url"@),
        None => file_text(part, "file_data"@),
    }
}

/// What comes with a part of a content, as one of that number.
pub open spec fn part_attachment(part: Tree, number: int) -> Option<AttachmentView> {
    let filename = match file_text(part, "filename"@) {
        Some(name) => name,
        None => "image_"@ + text::decimal(number as nat),
    };
    match part_link(part) {
        Some(url) => linked(filename, url),
        None => None,
    }
}

/// The text of a field of a part of a content.
fn text_of_file<'a>(part: &'a Json, name: &str) -> (r: Option<&'a str>)
    ensures
        http::opt_str(r) == file_text(part@, name@),
{
    match part.get_str(name) {
        Some(s) => Some(s),
        None => match part.get("file") {
            Some(file) => file.get_str(name),
            None => None,
        },
    }
}

/// What comes with a part of a content.
fn read_part(part: &Json, number: usize) -> (r: Option<InputAttachment>)
    ensures
        match r {
            Some(a) => part_attachment(part@, number as int) == Some(a@),
            None => part_attachment(part@, number as int) is None,
        },
{
    let filename = match text_of_file(part, "filename") {
        Some(name) => name.to_owned(),
        None => {
            let mut name = "image_".to_owned();
            name.append(text::decimal_text(number as u64).as_str());
            name
        },
    };
    let link = match part.get("image_url") {
        Some(image) => match image {
            Json::Str(url) => Some(url.as_str()),
            _ => {
                assert(!(image@ is Str));
                image.get_str("url")
            },
        },
        None => text_of_file(part, "file_data"),
    };
    match link {
        Some(url) => follow(filename, url),
        None => None,
    }
}

/// Attachments, and after them those of a list of parts.
pub open spec fn with_parts(found: Seq<AttachmentView>, parts: Seq<Tree>) -> Seq<AttachmentView>
    decreases parts.len(),
{
    if parts.len() == 0 {
        found
    } else {
        let earlier = with_parts(found, parts.drop_last());
        match part_attachment(parts.last(), earlier.len() as int) {
            Some(a) => earlier.push(a),
            None => earlier,
        }
    }
}

/// Attachments, and after them those of a content.
pub open spec fn with_content(found: Seq<AttachmentView>, content: Option<Tree>) -> Seq<
    AttachmentView,
> {
    match content {
        Some(Tree::Array(parts)) => with_parts(found, parts),
        _ => found,
    }
}

/// Appends the attachments of a content.
fn push_content(found: &mut Vec<InputAttachment>, content: Option<&Json>)
    ensures
        attachment_views(final(found)@) == with_content(
            attachment_views(old(found)@),
            match content {
                Some(j) => Some(j@),
                None => None,
            },
        ),
{
    let ghost first = attachment_views(found@);
    match content {
        Some(Json::Array(parts)) => {
            proof {
                json::lemma_array_view(*parts);
            }
            let ghost all = json::trees(parts@);
            let mut i: usize = 0;
            assert(all.take(0) == Seq::<Tree>::empty());
            while i < parts.len()
                invariant
                    all == json::trees(parts@),
                    i <= parts@.len(),
                    attachment_views(found@) == with_parts(first, all.take(i as int)),
                decreases parts@.len() - i,
            {
                let ghost earlier = found@;
                assert(all.take(i + 1).drop_last() == all.take(i as int));
                assert(all.take(i + 1).last() == parts@[i as int]@);
                if let Some(next) = read_part(&parts[i], found.len()) {
                    found.push(next);
                    assert(attachment_views(found@) == attachment_views(earlier).push(next@));
                }
                i = i + 1;
            }
            assert(all.take(i as int) == all);
        },
        _ => {},
    }
}

/// What comes with the messages of a conversation.
pub open spec fn of_messages(messages: Seq<ChatMessage>) -> Seq<AttachmentView>
    decreases messages.len(),
{
    if messages.len() == 0 {
        Seq::empty()
    } else {
        with_content(of_messages(messages.drop_last()), json::opt_tree(messages.last().content))
    }
}

/// What comes with the messages of a conversation.
pub fn message_attachments(messages: &[ChatMessage]) -> (r: Vec<InputAttachment>)
    ensures
        attachment_views(r@) == of_messages(messages@),
{
    let mut found: Vec<InputAttachment> = Vec::new();
    let mut i: usize = 0;
    assert(attachment_views(found@) =~= Seq::empty());
    while i < messages.len()
        invariant
            i <= messages@.len(),
            attachment_views(found@) == of_messages(messages@.take(i as int)),
        decreases messages@.len() - i,
    {
        assert(messages@.take(i + 1).drop_last() == messages@.take(i as int));
        push_content(&mut found, messages[i].content.as_ref());
        i = i + 1;
    }
    assert(messages@.take(i as int) == messages@);
    found
}

/// What comes with the items of an input.
pub open spec fn of_items(items: Seq<Tree>) -> Seq<AttachmentView>
    decreases items.len(),
{
    if items.len() == 0 {
        Seq::empty()
    } else {
        with_content(of_items(items.drop_last()), openai::item_content(items.last()))
    }
}

/// What comes with an input.
pub open spec fn of_input(input: Tree) -> Seq<AttachmentView> {
    match input {
        Tree::Array(items) => of_items(items),
        _ => Seq::empty(),
    }
}

/// What comes with an input.
pub fn input_attachments(input: &Json) -> (r: Vec<InputAttachment>)
    ensures
        attachment_views(r@) == of_input(input@),
{
    let mut found: Vec<InputAttachment> = Vec::new();
    assert(attachment_views(found@) =~= Seq::empty());
    match input {
        Json::Array(items) => {
            proof {
                json::lemma_array_view(*items);
            }
            let ghost all = json::trees(items@);
            let mut i: usize = 0;
            while i < items.len()
                invariant
                    all == json::trees(items@),
                    i <= items@.len(),
                    attachment_views(found@) == of_items(all.take(i as int)),
                decreases items@.len() - i,
            {
                assert(all.take(i + 1).drop_last() == all.take(i as int));
                assert(all.take(i + 1).last() == items@[i as int]@);
                push_content(&mut found, openai::content_of_item(&items[i]));
                i = i + 1;
            }
            assert(all.take(i as int) == all);
        },
        _ => {},
    }
    found
}

/// A link that holds data.
pub open spec fn data_link(kind: Seq<char>, data: Seq<u8>) -> Seq<char> {
    "data:"@ + (kind + ";base64"@ + seq![','] + base64_text(data))
}

/// Data that come in a link are taken as they are, with their kind.
pub proof fn law_data_links_are_read_back(filename: Seq<char>, kind: Seq<char>, data: Seq<u8>)
    requires
        !kind.contains(','),
    ensures
        linked(filename, data_link(kind, data)) == Some(
            AttachmentView {
                filename,
                content_type: Some(kind),
                source: SourceView::Data(data),
            },
        ),
{
    let url = data_link(kind, data);
    let head = kind + ";base64"@;
    let rest = head + seq![','] + base64_text(data);
    assert("data:"@.len() == 5 && ";base64"@.len() == 7) by {
        reveal_strlit("data:");
        reveal_strlit(";base64");
    }
    assert(url.subrange(0, 5) == "data:"@);
    assert(url.skip(5) == rest);
    assert forall|j: int| 0 <= j < head.len() implies head[j] != ',' by {
        reveal_strlit(";base64");
        if j < kind.len() {
            assert(kind.contains(kind[j]));
        }
    }
    text::lemma_split_once(head, ',', base64_text(data));
    assert(head.subrange(head.len() - 7, head.len() as int) == ";base64"@);
    assert(head.take(head.len() - 7) == kind);
    law_base64_is_read_as_it_was_written(data);
}

/// A link to the web leads to its own address, and a link that is neither one to the web nor
/// holds data leads to nothing.
pub proof fn law_links_to_the_web_are_followed(filename: Seq<char>, rest: Seq<char>, url: Seq<char>)
    ensures
        linked(filename, "https://"@ + rest) == Some(
            AttachmentView {
                filename,
                content_type: None,
                source: SourceView::Url("https://"@ + rest),
            },
        ),
        linked(filename, "http://"@ + rest) == Some(
            AttachmentView {
                filename,
                content_type: None,
                source: SourceView::Url("http://"@ + rest),
            },
        ),
        !text::starts_with(url, "https://"@) && !text::starts_with(url, "http://"@)
            && !text::starts_with(url, "data:"@) ==> linked(filename, url) is None,
{
    reveal_strlit("https://");
    reveal_strlit("http://");
    reveal_strlit("data:");
    let secure = "https://"@ + rest;
    let plain = "http://"@ + rest;
    assert(secure.subrange(0, 8) =~= "https://"@);
    assert(plain.subrange(0, 7) =~= "http://"@);
    if text::starts_with(secure, "data:"@) {
        assert(secure.subrange(0, 5)[0] == "data:"@[0]);
    }
    if text::starts_with(plain, "data:"@) {
        assert(plain.subrange(0, 5)[0] == "data:"@[0]);
    }
}

/// The link of a part is that of its picture, given as a text or with its address, else the
/// data of its file.
pub proof fn law_parts_name_their_links(part: Tree, url: Seq<char>)
    ensures
        part.get_str("image_url"@) == Some(url) ==> part_link(part) == Some(url),
        part.get("image_url"@) matches Some(image) ==> !(image is Str) && image.get_str("url"@)
            == Some(url) ==> part_link(part) == Some(url),
        part.get("image_url"@) is None && part.get_str("file_data"@) == Some(url) ==> part_link(
            part,
        ) == Some(url),
        part.get("image_url"@) is None && part.get_str("file_data"@) is None ==> (part.get(
            "file"@,
        ) matches Some(file) ==> file.get_str("file_data"@) == Some(url) ==> part_link(part)
            == Some(url)),
        part.get("image_url"@) is None && part.get_str("file_data"@) is None && part.get(
            "file"@,
        ) is None ==> part_link(part) is None,
{
}

/// Every part with a link that leads somewhere adds what it leads to behind what came before
/// it, under the name that it gives or under one by its number; a part without one adds
/// nothing.
pub proof fn law_every_part_brings_what_its_link_leads_to(
    found: Seq<AttachmentView>,
    parts: Seq<Tree>,
    part: Tree,
    url: Seq<char>,
)
    ensures
        ({
            let before = with_content(found, Some(Tree::Array(parts)));
            let after = with_content(found, Some(Tree::Array(parts.push(part))));
            &&& part_link(part) is None ==> after == before
            &&& part_link(part) == Some(url) ==> {
                let name = match part.get_str("filename"@) {
                    Some(name) => name,
                    None => match part.get("file"@) {
                        Some(file) => match file.get_str("filename"@) {
                            Some(name) => name,
                            None => "image_"@ + text::decimal(before.len()),
                        },
                        None => "image_"@ + text::decimal(before.len()),
                    },
                };
                match linked(name, url) {
                    Some(a) => after == before.push(a),
                    None => after == before,
                }
            }
        }),
        with_content(found, Some(Tree::Array(Seq::empty()))) == found,
        with_content(found, None) == found,
        with_content(found, Some(Tree::Str(url))) == found,
{
    assert(parts.push(part).drop_last() =~= parts);
}

/// What comes with a conversation is what comes with its messages, one after the other; and
/// what comes with an input is what comes with its items.
pub proof fn law_attachments_come_message_by_message(
    messages: Seq<ChatMessage>,
    message: ChatMessage,
    items: Seq<Tree>,
    item: Tree,
)
    ensures
        of_messages(Seq::empty()) == Seq::<AttachmentView>::empty(),
        of_messages(messages.push(message)) == with_content(
            of_messages(messages),
            json::opt_tree(message.content),
        ),
        of_input(Tree::Array(Seq::empty())) == Seq::<AttachmentView>::empty(),
        !(item is Str) ==> of_input(Tree::Array(items.push(item))) == with_content(
            of_input(Tree::Array(items)),
            item.get("content"@),
        ),
{
    assert(messages.push(message).drop_last() =~= messages);
    assert(items.push(item).drop_last() =~= items);
}

/// Bytes in base64 take four characters for each three of them, and for what is left.
pub proof fn law_base64_takes_four_characters_for_three_bytes(data: Seq<u8>)
    ensures
        3 * base64_text(data).len() >= 4 * data.len(),
        3 * base64_text(data).len() < 4 * data.len() + 12,
        base64_text(data).len() % 4 == 0,
    decreases data.len(),
{
    if data.len() >= 3 {
        law_base64_takes_four_characters_for_three_bytes(data.skip(3));
    }
}

/// What a data link holds is kept under its name with its kind, also where the link is written
/// out.
pub proof fn law_data_links_are_written_out(filename: Seq<char>, kind: Seq<char>, data: Seq<u8>)
    requires
        !kind.contains(','),
    ensures
        linked(filename, "data:"@ + kind + ";base64"@ + ","@ + base64_text(data)) == Some(
            AttachmentView {
                filename,
                content_type: Some(kind),
                source: SourceView::Data(data),
            },
        ),
{
    reveal_strlit(",");
    assert(","@ =~= seq![',']);
    assert("data:"@ + kind + ";base64"@ + ","@ + base64_text(data) =~= data_link(kind, data));
    law_data_links_are_read_back(filename, kind, data);
}

} // verus!
