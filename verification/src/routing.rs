//! Which way a request is answered: by the image tool, by the vision worker
//! or by Gemini Web itself.
use crate::text;
use vstd::prelude::*;

verus! {

/// The way a request is answered.
#[derive(Debug, Clone, Copy, PartialEq, Eq, Structural)]
pub enum GenerationRoute {
    ImageTool,
    VisionWorker,
    GeminiWeb,
}

/// What a request is routed by. The model that it asks for does not decide.
pub struct RouteRequest<'a> {
    pub image_generation_enabled: bool,
    pub vision_worker_enabled: bool,
    pub has_attachments: bool,
    pub model: &'a str,
    pub latest_user_text: &'a str,
}

/// The route of a request: the image tool where it is switched on and asked
/// for, else the vision worker where there is something to look at and a worker
/// to do it, else Gemini Web.
pub open spec fn route(
    image_generation_enabled: bool,
    vision_worker_enabled: bool,
    has_attachments: bool,
    latest_user_text: Seq<char>,
) -> GenerationRoute {
    if wants_image_tool(image_generation_enabled, latest_user_text) {
        GenerationRoute::ImageTool
    } else if has_attachments && vision_worker_enabled {
        GenerationRoute::VisionWorker
    } else {
        GenerationRoute::GeminiWeb
    }
}

pub fn choose_generation_route(request: RouteRequest<'_>) -> (r: GenerationRoute)
    ensures
        r == route(
            request.image_generation_enabled,
            request.vision_worker_enabled,
            request.has_attachments,
            request.latest_user_text@,
        ),
{
    if should_use_image_tool(
        request.image_generation_enabled,
        request.model,
        request.latest_user_text,
    ) {
        return GenerationRoute::ImageTool;
    }
    if request.has_attachments && request.vision_worker_enabled {
        return GenerationRoute::VisionWorker;
    }
    GenerationRoute::GeminiWeb
}

/// What opens a user turn in a transcript.
pub open spec fn user_turn() -> Seq<char> {
    "<|im_start|>user"@
}

/// What closes a turn in a transcript.
pub open spec fn turn_end() -> Seq<char> {
    "<|im_end|>"@
}

/// What stands in a turn, of which `after` is all that follows its opening mark.
pub open spec fn turn_text(after: Seq<char>) -> Seq<char> {
    let body = if after.len() > 0 && after[0] == '\n' {
        after.skip(1)
    } else {
        after
    };
    match text::first_index(body, turn_end()) {
        Some(end) => text::trim(body.take(end)),
        None => text::trim(body),
    }
}

/// What the latest user turn of a transcript says; the whole text where it has
/// no user turn, or a blank one.
pub open spec fn latest_turn(prompt: Seq<char>) -> Seq<char> {
    let trimmed = text::trim(prompt);
    match text::last_index(trimmed, user_turn()) {
        Some(start) => {
            let said = turn_text(trimmed.skip(start + user_turn().len()));
            if said.len() > 0 {
                said
            } else {
                trimmed
            }
        },
        None => trimmed,
    }
}

pub fn image_tool_prompt(prompt: &str) -> (r: String)
    ensures
        r@ == latest_turn(prompt@),
{
    let trimmed = text::trimmed(prompt);
    let chars = text::chars_of(trimmed.as_str());
    let opening = text::chars_of("<|im_start|>user");
    let n: usize = chars.len();
    if let Some(start) = text::rfind(&chars, &opening) {
        let mut from: usize = start + opening.len();
        let ghost after = chars@.skip(from as int);
        if from < n && chars[from] == '\n' {
            from = from + 1;
        }
        let rest = text::text_between(&chars, from, n);
        assert(rest@ == if after.len() > 0 && after[0] == '\n' {
            after.skip(1)
        } else {
            after
        });
        let body = text::chars_of(rest.as_str());
        let end: usize = match text::find(&body, &text::chars_of("<|im_end|>")) {
            Some(end) => end,
            None => body.len(),
        };
        let said = text::text_between(&body, 0, end);
        assert(said@ == body@.take(end as int));
        assert(body@.take(body@.len() as int) == body@);
        let candidate = text::trimmed(said.as_str());
        if !candidate.as_str().is_empty() {
            return candidate;
        }
    }
    trimmed
}

/// Whether the image tool is switched on and the latest user turn asks for a picture.
pub open spec fn wants_image_tool(image_generation_enabled: bool, prompt: Seq<char>) -> bool {
    image_generation_enabled && asks_for_image(latest_turn(prompt))
}

/// Whether a request goes to the image tool. The model that it asks for does not decide.
pub fn should_use_image_tool(image_generation_enabled: bool, _model: &str, prompt: &str) -> (r: bool)
    ensures
        r == wants_image_tool(image_generation_enabled, prompt@),
{
    if !image_generation_enabled {
        return false;
    }
    let latest_user_prompt = image_tool_prompt(prompt);
    explicit_image_generation_prompt(latest_user_prompt.as_str())
}

/// Phrases that say that no image is wanted.
pub open spec fn refusals() -> Seq<Seq<char>> {
    seq![
        "do not draw"@,
        "don't draw"@,
        "dont draw"@,
        "no image"@,
        "\u{4e0d}\u{8981}\u{753b}"@,
        "\u{4e0d}\u{7528}\u{753b}"@,
        "\u{522b}\u{753b}"@,
        "\u{4e0d}\u{8981}\u{751f}\u{6210}"@,
        "\u{4e0d}\u{7528}\u{751f}\u{6210}"@,
        "\u{522b}\u{751f}\u{6210}"@,
    ]
}

/// English phrases that ask for an image, in small letters.
pub open spec fn english_requests() -> Seq<Seq<char>> {
    seq![
        "generate an image"@,
        "generate image"@,
        "create an image"@,
        "create image"@,
        "make an image"@,
        "draw an image"@,
        "draw a picture"@,
        "generate a picture"@,
        "create a picture"@,
        "draw me a"@,
    ]
}

/// Chinese phrases that ask for an image.
pub open spec fn chinese_requests() -> Seq<Seq<char>> {
    seq![
        "\u{7ed9}\u{6211}\u{753b}\u{4e00}\u{5f20}"@,
        "\u{5e2e}\u{6211}\u{753b}\u{4e00}\u{5f20}"@,
        "\u{5e2e}\u{6211}\u{753b}\u{5f20}"@,
        "\u{5e2e}\u{6211}\u{753b}\u{4e2a}"@,
        "\u{8bf7}\u{7ed9}\u{6211}\u{753b}"@,
        "\u{8bf7}\u{5e2e}\u{6211}\u{753b}"@,
        "\u{753b}\u{4e00}\u{5f20}"@,
        "\u{753b}\u{5f20}"@,
        "\u{753b}\u{4e2a}"@,
        "\u{751f}\u{6210}\u{4e00}\u{5f20}\u{56fe}"@,
        "\u{751f}\u{6210}\u{4e00}\u{5f20}\u{56fe}\u{7247}"@,
        "\u{5e2e}\u{6211}\u{751f}\u{6210}\u{4e00}\u{5f20}"@,
        "\u{7ed9}\u{6211}\u{751f}\u{6210}\u{4e00}\u{5f20}"@,
        "\u{751f}\u{6210}\u{56fe}\u{7247}"@,
        "\u{751f}\u{6210}\u{56fe}\u{50cf}"@,
        "\u{5e2e}\u{6211}\u{751f}\u{56fe}"@,
        "\u{7ed9}\u{6211}\u{751f}\u{56fe}"@,
        "\u{8bf7}\u{751f}\u{56fe}"@,
        "\u{751f}\u{4e00}\u{5f20}\u{56fe}"@,
        "\u{505a}\u{4e00}\u{5f20}\u{56fe}"@,
        "\u{5236}\u{4f5c}\u{4e00}\u{5f20}\u{56fe}"@,
        "\u{7ed8}\u{5236}\u{4e00}\u{5f20}"@,
    ]
}

/// Whether one of `phrases` stands in `s`.
pub open spec fn has_any(s: Seq<char>, phrases: Seq<Seq<char>>) -> bool {
    exists|i: int| 0 <= i < phrases.len() && text::contains(s, #[trigger] phrases[i])
}

/// Whether `prompt` asks for an image in so many words, and nowhere says that
/// none is wanted.
pub open spec fn asks_for_image(prompt: Seq<char>) -> bool {
    let said = text::trim(prompt);
    let low = text::ascii_lower(said);
    &&& !has_any(low, refusals())
    &&& !has_any(said, refusals())
    &&& has_any(low, english_requests()) || has_any(said, chinese_requests())
}

/// Whether one of `phrases` stands in `s`.
fn mentions_any(s: &str, phrases: &Vec<&'static str>, Ghost(said): Ghost<Seq<Seq<char>>>) -> (r: bool)
    requires
        phrases@.map_values(|p: &'static str| p@) == said,
    ensures
        r == has_any(s@, said),
{
    let mut i: usize = 0;
    while i < phrases.len()
        invariant
            i <= phrases@.len(),
            phrases@.map_values(|p: &'static str| p@) == said,
            forall|k: int| 0 <= k < i ==> !text::contains(s@, #[trigger] said[k]),
        decreases phrases@.len() - i,
    {
        assert(said[i as int] == phrases@[i as int]@);
        if text::has(s, phrases[i]) {
            return true;
        }
        i = i + 1;
    }
    false
}

pub fn explicit_image_generation_prompt(prompt: &str) -> (r: bool)
    ensures
        r == asks_for_image(prompt@),
{
    let prompt = text::trimmed(prompt);
    let prompt_lc = text::ascii_lowercase(prompt.as_str());
    let negative = vec![
        "do not draw",
        "don't draw",
        "dont draw",
        "no image",
        "\u{4e0d}\u{8981}\u{753b}",
        "\u{4e0d}\u{7528}\u{753b}",
        "\u{522b}\u{753b}",
        "\u{4e0d}\u{8981}\u{751f}\u{6210}",
        "\u{4e0d}\u{7528}\u{751f}\u{6210}",
        "\u{522b}\u{751f}\u{6210}",
    ];
    assert(negative@.map_values(|p: &'static str| p@) =~= refusals());
    if mentions_any(prompt_lc.as_str(), &negative, Ghost(refusals())) || mentions_any(
        prompt.as_str(),
        &negative,
        Ghost(refusals()),
    ) {
        return false;
    }
    let english_intent = vec![
        "generate an image",
        "generate image",
        "create an image",
        "create image",
        "make an image",
        "draw an image",
        "draw a picture",
        "generate a picture",
        "create a picture",
        "draw me a",
    ];
    assert(english_intent@.map_values(|p: &'static str| p@) =~= english_requests());
    if mentions_any(prompt_lc.as_str(), &english_intent, Ghost(english_requests())) {
        return true;
    }
    let chinese_intent = vec![
        "\u{7ed9}\u{6211}\u{753b}\u{4e00}\u{5f20}",
        "\u{5e2e}\u{6211}\u{753b}\u{4e00}\u{5f20}",
        "\u{5e2e}\u{6211}\u{753b}\u{5f20}",
        "\u{5e2e}\u{6211}\u{753b}\u{4e2a}",
        "\u{8bf7}\u{7ed9}\u{6211}\u{753b}",
        "\u{8bf7}\u{5e2e}\u{6211}\u{753b}",
        "\u{753b}\u{4e00}\u{5f20}",
        "\u{753b}\u{5f20}",
        "\u{753b}\u{4e2a}",
        "\u{751f}\u{6210}\u{4e00}\u{5f20}\u{56fe}",
        "\u{751f}\u{6210}\u{4e00}\u{5f20}\u{56fe}\u{7247}",
        "\u{5e2e}\u{6211}\u{751f}\u{6210}\u{4e00}\u{5f20}",
        "\u{7ed9}\u{6211}\u{751f}\u{6210}\u{4e00}\u{5f20}",
        "\u{751f}\u{6210}\u{56fe}\u{7247}",
        "\u{751f}\u{6210}\u{56fe}\u{50cf}",
        "\u{5e2e}\u{6211}\u{751f}\u{56fe}",
        "\u{7ed9}\u{6211}\u{751f}\u{56fe}",
        "\u{8bf7}\u{751f}\u{56fe}",
        "\u{751f}\u{4e00}\u{5f20}\u{56fe}",
        "\u{505a}\u{4e00}\u{5f20}\u{56fe}",
        "\u{5236}\u{4f5c}\u{4e00}\u{5f20}\u{56fe}",
        "\u{7ed8}\u{5236}\u{4e00}\u{5f20}",
    ];
    assert(chinese_intent@.map_values(|p: &'static str| p@) =~= chinese_requests());
    mentions_any(prompt.as_str(), &chinese_intent, Ghost(chinese_requests()))
}

/// A user turn of a transcript.
pub open spec fn user_says(said: Seq<char>) -> Seq<char> {
    user_turn() + "\n"@ + said + turn_end()
}

/// Whether what a user says holds none of the marks of a transcript, also not together with
/// the marks around it, and no user turn begins in what follows it.
pub open spec fn is_latest(said: Seq<char>, tail: Seq<char>) -> bool {
    &&& text::occurs_last_at(user_says(said) + tail, user_turn(), 0)
    &&& text::occurs_first_at(said + turn_end(), turn_end(), said.len() as int)
}

proof fn lemma_trim_start_of_both(a: Seq<char>, b: Seq<char>)
    requires
        b.len() > 0,
        !text::is_space(b[0]),
    ensures
        text::trim_start(a + b) == text::trim_start(a) + b,
    decreases a.len(),
{
    if a.len() == 0 {
        assert(a + b == b);
        assert(text::trim_start(a) + b == b);
    } else {
        assert((a + b)[0] == a[0]);
        if text::is_space(a[0]) {
            assert((a + b).drop_first() == a.drop_first() + b);
            lemma_trim_start_of_both(a.drop_first(), b);
        }
    }
}

proof fn lemma_last_place_stays_behind(before: Seq<char>, turn: Seq<char>, mark: Seq<char>)
    requires
        text::occurs_last_at(turn, mark, 0),
    ensures
        text::last_index(before + turn, mark) == Some(before.len() as int),
{
    let all = before + turn;
    let start = before.len() as int;
    assert(all.subrange(start, start + mark.len()) == turn.subrange(0, mark.len() as int));
    assert forall|j: int| start < j implies !text::occurs_at(all, mark, j) by {
        assert(!text::occurs_at(turn, mark, j - start));
        if j + mark.len() <= all.len() {
            assert(all.subrange(j, j + mark.len()) == turn.subrange(
                j - start,
                j - start + mark.len(),
            ));
        }
    }
    text::lemma_last_index(all, mark, start);
}

proof fn lemma_trim_end_of_both(a: Seq<char>, b: Seq<char>)
    requires
        a.len() > 0,
        !text::is_space(a.last()),
    ensures
        text::trim_end(a + b) == a + text::trim_end(b),
    decreases b.len(),
{
    if b.len() == 0 {
        assert(a + b == a);
        assert(a + text::trim_end(b) == a);
    } else {
        assert((a + b).last() == b.last());
        if text::is_space(b.last()) {
            assert((a + b).drop_last() == a + b.drop_last());
            lemma_trim_end_of_both(a, b.drop_last());
        }
    }
}

proof fn lemma_no_later_place_in_a_beginning(s: Seq<char>, n: int, mark: Seq<char>)
    requires
        text::occurs_last_at(s, mark, 0),
        mark.len() <= n <= s.len(),
    ensures
        text::occurs_last_at(s.take(n), mark, 0),
{
    let t = s.take(n);
    assert(t.subrange(0, mark.len() as int) == s.subrange(0, mark.len() as int));
    assert forall|j: int| 0 < j implies !text::occurs_at(t, mark, j) by {
        assert(!text::occurs_at(s, mark, j));
        if j + mark.len() <= t.len() {
            assert(t.subrange(j, j + mark.len()) == s.subrange(j, j + mark.len()));
        }
    }
}

proof fn lemma_turn_text(said: Seq<char>, tail: Seq<char>)
    requires
        text::occurs_first_at(said + turn_end(), turn_end(), said.len() as int),
    ensures
        turn_text("\n"@ + said + turn_end() + tail) == text::trim(said),
{
    let after = "\n"@ + said + turn_end() + tail;
    let end = turn_end();
    let closed = said + end;
    let body = closed + tail;
    let at = said.len() as int;
    reveal_strlit("\n");
    assert(after[0] == '\n');
    assert(after.skip(1) == body);
    assert(body.subrange(at, at + end.len()) == closed.subrange(at, at + end.len()));
    assert forall|j: int| 0 <= j < at implies !text::occurs_at(body, end, j) by {
        assert(!text::occurs_at(closed, end, j));
        assert(body.subrange(j, j + end.len()) == closed.subrange(j, j + end.len()));
    }
    text::lemma_first_index(body, end, at);
    assert(body.take(at) == said);
}

proof fn lemma_turn_is_not_trimmed(said: Seq<char>)
    ensures
        user_says(said).len() > 0,
        !text::is_space(user_says(said)[0]),
        !text::is_space(user_says(said).last()),
{
    reveal_strlit("<|im_start|>user");
    reveal_strlit("<|im_end|>");
    assert(user_says(said)[0] == user_turn()[0]);
    assert(user_says(said).last() == turn_end().last());
}

/// The latest user turn alone is what a transcript is taken to ask, whatever stands before
/// it and follows it.
pub proof fn law_only_the_latest_turn_counts(earlier: Seq<char>, said: Seq<char>, tail: Seq<char>)
    requires
        text::trim(said).len() > 0,
        is_latest(said, tail),
    ensures
        latest_turn(earlier + user_says(said) + tail) == text::trim(said),
{
    let turn = user_says(said);
    let before = text::trim_start(earlier);
    let rest = text::trim_end(tail);
    let trimmed = before + turn + rest;
    lemma_turn_is_not_trimmed(said);
    assert(earlier + turn + tail == earlier + (turn + tail));
    assert((turn + tail)[0] == turn[0]);
    lemma_trim_start_of_both(earlier, turn + tail);
    assert(before + (turn + tail) == (before + turn) + tail);
    assert((before + turn).last() == turn.last());
    lemma_trim_end_of_both(before + turn, tail);
    assert(text::trim(earlier + turn + tail) == trimmed);
    text::lemma_trim_end(tail);
    assert((turn + tail).take((turn.len() + rest.len()) as int) == turn + rest);
    lemma_no_later_place_in_a_beginning(
        turn + tail,
        (turn.len() + rest.len()) as int,
        user_turn(),
    );
    assert(trimmed == before + (turn + rest));
    lemma_last_place_stays_behind(before, turn + rest, user_turn());
    assert(trimmed.skip((before.len() + user_turn().len()) as int) == "\n"@ + said + turn_end()
        + rest);
    lemma_turn_text(said, rest);
}

/// Where pictures are switched off, no request goes to the image tool.
pub proof fn law_disabled_images_are_never_made(
    vision_worker_enabled: bool,
    has_attachments: bool,
    latest_user_text: Seq<char>,
)
    ensures
        route(false, vision_worker_enabled, has_attachments, latest_user_text)
            != GenerationRoute::ImageTool,
{
}

/// A request without anything to look at never goes to the vision worker.
pub proof fn law_nothing_to_look_at_needs_no_worker(
    image_generation_enabled: bool,
    vision_worker_enabled: bool,
    latest_user_text: Seq<char>,
)
    ensures
        route(image_generation_enabled, vision_worker_enabled, false, latest_user_text)
            != GenerationRoute::VisionWorker,
{
}

/// A request goes to the image tool only where the latest user turn asks for a picture.
pub proof fn law_pictures_are_only_made_on_request(
    image_generation_enabled: bool,
    vision_worker_enabled: bool,
    has_attachments: bool,
    latest_user_text: Seq<char>,
)
    ensures
        route(
            image_generation_enabled,
            vision_worker_enabled,
            has_attachments,
            latest_user_text,
        ) == GenerationRoute::ImageTool <==> image_generation_enabled && asks_for_image(
            latest_turn(latest_user_text),
        ),
{
}

/// Whether a phrase asks for a picture in English.
pub open spec fn asks_in_english(q: Seq<char>) -> bool {
    ||| q == "generate an image"@
    ||| q == "generate image"@
    ||| q == "create an image"@
    ||| q == "create image"@
    ||| q == "make an image"@
    ||| q == "draw an image"@
    ||| q == "draw a picture"@
    ||| q == "generate a picture"@
    ||| q == "create a picture"@
    ||| q == "draw me a"@
}

/// Whether a phrase asks for a picture in Chinese.
pub open spec fn asks_in_chinese(q: Seq<char>) -> bool {
    ||| q == "\u{7ed9}\u{6211}\u{753b}\u{4e00}\u{5f20}"@
    ||| q == "\u{5e2e}\u{6211}\u{753b}\u{4e00}\u{5f20}"@
    ||| q == "\u{5e2e}\u{6211}\u{753b}\u{5f20}"@
    ||| q == "\u{5e2e}\u{6211}\u{753b}\u{4e2a}"@
    ||| q == "\u{8bf7}\u{7ed9}\u{6211}\u{753b}"@
    ||| q == "\u{8bf7}\u{5e2e}\u{6211}\u{753b}"@
    ||| q == "\u{753b}\u{4e00}\u{5f20}"@
    ||| q == "\u{753b}\u{5f20}"@
    ||| q == "\u{753b}\u{4e2a}"@
    ||| q == "\u{751f}\u{6210}\u{4e00}\u{5f20}\u{56fe}"@
    ||| q == "\u{751f}\u{6210}\u{4e00}\u{5f20}\u{56fe}\u{7247}"@
    ||| q == "\u{5e2e}\u{6211}\u{751f}\u{6210}\u{4e00}\u{5f20}"@
    ||| q == "\u{7ed9}\u{6211}\u{751f}\u{6210}\u{4e00}\u{5f20}"@
    ||| q == "\u{751f}\u{6210}\u{56fe}\u{7247}"@
    ||| q == "\u{751f}\u{6210}\u{56fe}\u{50cf}"@
    ||| q == "\u{5e2e}\u{6211}\u{751f}\u{56fe}"@
    ||| q == "\u{7ed9}\u{6211}\u{751f}\u{56fe}"@
    ||| q == "\u{8bf7}\u{751f}\u{56fe}"@
    ||| q == "\u{751f}\u{4e00}\u{5f20}\u{56fe}"@
    ||| q == "\u{505a}\u{4e00}\u{5f20}\u{56fe}"@
    ||| q == "\u{5236}\u{4f5c}\u{4e00}\u{5f20}\u{56fe}"@
    ||| q == "\u{7ed8}\u{5236}\u{4e00}\u{5f20}"@
}

/// Whether a phrase says that no picture is wanted.
pub open spec fn declines(q: Seq<char>) -> bool {
    ||| q == "do not draw"@
    ||| q == "don't draw"@
    ||| q == "dont draw"@
    ||| q == "no image"@
    ||| q == "\u{4e0d}\u{8981}\u{753b}"@
    ||| q == "\u{4e0d}\u{7528}\u{753b}"@
    ||| q == "\u{522b}\u{753b}"@
    ||| q == "\u{4e0d}\u{8981}\u{751f}\u{6210}"@
    ||| q == "\u{4e0d}\u{7528}\u{751f}\u{6210}"@
    ||| q == "\u{522b}\u{751f}\u{6210}"@
}

/// Whether `p` is the phrase `q`, which has no capitals, its letters in either case.
pub open spec fn is_phrase(p: Seq<char>, q: Seq<char>) -> bool {
    p.len() == q.len() && forall|i: int|
        0 <= i < q.len() ==> #[trigger] p[i] == q[i] || ('A' as u32 <= p[i] as u32 <= 'Z' as u32
            && p[i] as u32 + 32 == q[i] as u32)
}

/// Whether a phrase stands in `s`, its letters in either case.
pub open spec fn mentions(s: Seq<char>, q: Seq<char>) -> bool {
    exists|i: int| #[trigger] mentioned_at(s, q, i)
}

/// Whether a phrase stands at place `i` of `s`, its letters in either case.
pub open spec fn mentioned_at(s: Seq<char>, q: Seq<char>, i: int) -> bool {
    0 <= i && i + q.len() <= s.len() && is_phrase(s.subrange(i, i + q.len()), q)
}

/// Whether a phrase has no capitals, and no white space at its ends.
pub open spec fn is_plain(q: Seq<char>) -> bool {
    &&& q.len() > 0
    &&& !text::is_space(q[0])
    &&& !text::is_space(q.last())
    &&& forall|i: int|
        0 <= i < q.len() ==> !('A' as u32 <= (#[trigger] q[i]) as u32 <= 'Z' as u32)
}

/// Whether a phrase has no letters of ASCII, and no white space at its ends.
spec fn is_caseless(q: Seq<char>) -> bool {
    is_plain(q) && forall|i: int| 0 <= i < q.len() ==> (#[trigger] q[i]) as u32 >= 0x80
}

proof fn lemma_english_requests()
    ensures
        forall|i: int| 0 <= i < english_requests().len() ==> asks_in_english(#[trigger] english_requests()[i]),
        forall|q: Seq<char>| #[trigger]
            asks_in_english(q) ==> exists|i: int| 0 <= i < english_requests().len() && #[trigger] english_requests()[i] == q,
{
    assert(english_requests()[0] == "generate an image"@);
    assert(english_requests()[1] == "generate image"@);
    assert(english_requests()[2] == "create an image"@);
    assert(english_requests()[3] == "create image"@);
    assert(english_requests()[4] == "make an image"@);
    assert(english_requests()[5] == "draw an image"@);
    assert(english_requests()[6] == "draw a picture"@);
    assert(english_requests()[7] == "generate a picture"@);
    assert(english_requests()[8] == "create a picture"@);
    assert(english_requests()[9] == "draw me a"@);
    assert forall|q: Seq<char>| #[trigger] asks_in_english(q) implies exists|i: int|
        0 <= i < english_requests().len() && #[trigger] english_requests()[i] == q by {
        if q == "generate an image"@ {
            assert(english_requests()[0] == q);
        }
        if q == "generate image"@ {
            assert(english_requests()[1] == q);
        }
        if q == "create an image"@ {
            assert(english_requests()[2] == q);
        }
        if q == "create image"@ {
            assert(english_requests()[3] == q);
        }
        if q == "make an image"@ {
            assert(english_requests()[4] == q);
        }
        if q == "draw an image"@ {
            assert(english_requests()[5] == q);
        }
        if q == "draw a picture"@ {
            assert(english_requests()[6] == q);
        }
        if q == "generate a picture"@ {
            assert(english_requests()[7] == q);
        }
        if q == "create a picture"@ {
            assert(english_requests()[8] == q);
        }
        if q == "draw me a"@ {
            assert(english_requests()[9] == q);
        }
    }
}

proof fn lemma_chinese_requests()
    ensures
        forall|i: int| 0 <= i < chinese_requests().len() ==> asks_in_chinese(#[trigger] chinese_requests()[i]),
        forall|q: Seq<char>| #[trigger]
            asks_in_chinese(q) ==> exists|i: int| 0 <= i < chinese_requests().len() && #[trigger] chinese_requests()[i] == q,
{
    assert(chinese_requests()[0] == "\u{7ed9}\u{6211}\u{753b}\u{4e00}\u{5f20}"@);
    assert(chinese_requests()[1] == "\u{5e2e}\u{6211}\u{753b}\u{4e00}\u{5f20}"@);
    assert(chinese_requests()[2] == "\u{5e2e}\u{6211}\u{753b}\u{5f20}"@);
    assert(chinese_requests()[3] == "\u{5e2e}\u{6211}\u{753b}\u{4e2a}"@);
    assert(chinese_requests()[4] == "\u{8bf7}\u{7ed9}\u{6211}\u{753b}"@);
    assert(chinese_requests()[5] == "\u{8bf7}\u{5e2e}\u{6211}\u{753b}"@);
    assert(chinese_requests()[6] == "\u{753b}\u{4e00}\u{5f20}"@);
    assert(chinese_requests()[7] == "\u{753b}\u{5f20}"@);
    assert(chinese_requests()[8] == "\u{753b}\u{4e2a}"@);
    assert(chinese_requests()[9] == "\u{751f}\u{6210}\u{4e00}\u{5f20}\u{56fe}"@);
    assert(chinese_requests()[10] == "\u{751f}\u{6210}\u{4e00}\u{5f20}\u{56fe}\u{7247}"@);
    assert(chinese_requests()[11] == "\u{5e2e}\u{6211}\u{751f}\u{6210}\u{4e00}\u{5f20}"@);
    assert(chinese_requests()[12] == "\u{7ed9}\u{6211}\u{751f}\u{6210}\u{4e00}\u{5f20}"@);
    assert(chinese_requests()[13] == "\u{751f}\u{6210}\u{56fe}\u{7247}"@);
    assert(chinese_requests()[14] == "\u{751f}\u{6210}\u{56fe}\u{50cf}"@);
    assert(chinese_requests()[15] == "\u{5e2e}\u{6211}\u{751f}\u{56fe}"@);
    assert(chinese_requests()[16] == "\u{7ed9}\u{6211}\u{751f}\u{56fe}"@);
    assert(chinese_requests()[17] == "\u{8bf7}\u{751f}\u{56fe}"@);
    assert(chinese_requests()[18] == "\u{751f}\u{4e00}\u{5f20}\u{56fe}"@);
    assert(chinese_requests()[19] == "\u{505a}\u{4e00}\u{5f20}\u{56fe}"@);
    assert(chinese_requests()[20] == "\u{5236}\u{4f5c}\u{4e00}\u{5f20}\u{56fe}"@);
    assert(chinese_requests()[21] == "\u{7ed8}\u{5236}\u{4e00}\u{5f20}"@);
    assert forall|q: Seq<char>| #[trigger] asks_in_chinese(q) implies exists|i: int|
        0 <= i < chinese_requests().len() && #[trigger] chinese_requests()[i] == q by {
        if q == "\u{7ed9}\u{6211}\u{753b}\u{4e00}\u{5f20}"@ {
            assert(chinese_requests()[0] == q);
        }
        if q == "\u{5e2e}\u{6211}\u{753b}\u{4e00}\u{5f20}"@ {
            assert(chinese_requests()[1] == q);
        }
        if q == "\u{5e2e}\u{6211}\u{753b}\u{5f20}"@ {
            assert(chinese_requests()[2] == q);
        }
        if q == "\u{5e2e}\u{6211}\u{753b}\u{4e2a}"@ {
            assert(chinese_requests()[3] == q);
        }
        if q == "\u{8bf7}\u{7ed9}\u{6211}\u{753b}"@ {
            assert(chinese_requests()[4] == q);
        }
        if q == "\u{8bf7}\u{5e2e}\u{6211}\u{753b}"@ {
            assert(chinese_requests()[5] == q);
        }
        if q == "\u{753b}\u{4e00}\u{5f20}"@ {
            assert(chinese_requests()[6] == q);
        }
        if q == "\u{753b}\u{5f20}"@ {
            assert(chinese_requests()[7] == q);
        }
        if q == "\u{753b}\u{4e2a}"@ {
            assert(chinese_requests()[8] == q);
        }
        if q == "\u{751f}\u{6210}\u{4e00}\u{5f20}\u{56fe}"@ {
            assert(chinese_requests()[9] == q);
        }
        if q == "\u{751f}\u{6210}\u{4e00}\u{5f20}\u{56fe}\u{7247}"@ {
            assert(chinese_requests()[10] == q);
        }
        if q == "\u{5e2e}\u{6211}\u{751f}\u{6210}\u{4e00}\u{5f20}"@ {
            assert(chinese_requests()[11] == q);
        }
        if q == "\u{7ed9}\u{6211}\u{751f}\u{6210}\u{4e00}\u{5f20}"@ {
            assert(chinese_requests()[12] == q);
        }
        if q == "\u{751f}\u{6210}\u{56fe}\u{7247}"@ {
            assert(chinese_requests()[13] == q);
        }
        if q == "\u{751f}\u{6210}\u{56fe}\u{50cf}"@ {
            assert(chinese_requests()[14] == q);
        }
        if q == "\u{5e2e}\u{6211}\u{751f}\u{56fe}"@ {
            assert(chinese_requests()[15] == q);
        }
        if q == "\u{7ed9}\u{6211}\u{751f}\u{56fe}"@ {
            assert(chinese_requests()[16] == q);
        }
        if q == "\u{8bf7}\u{751f}\u{56fe}"@ {
            assert(chinese_requests()[17] == q);
        }
        if q == "\u{751f}\u{4e00}\u{5f20}\u{56fe}"@ {
            assert(chinese_requests()[18] == q);
        }
        if q == "\u{505a}\u{4e00}\u{5f20}\u{56fe}"@ {
            assert(chinese_requests()[19] == q);
        }
        if q == "\u{5236}\u{4f5c}\u{4e00}\u{5f20}\u{56fe}"@ {
            assert(chinese_requests()[20] == q);
        }
        if q == "\u{7ed8}\u{5236}\u{4e00}\u{5f20}"@ {
            assert(chinese_requests()[21] == q);
        }
    }
}

proof fn lemma_refusals()
    ensures
        forall|i: int| 0 <= i < refusals().len() ==> declines(#[trigger] refusals()[i]),
        forall|q: Seq<char>| #[trigger]
            declines(q) ==> exists|i: int| 0 <= i < refusals().len() && #[trigger] refusals()[i] == q,
{
    assert(refusals()[0] == "do not draw"@);
    assert(refusals()[1] == "don't draw"@);
    assert(refusals()[2] == "dont draw"@);
    assert(refusals()[3] == "no image"@);
    assert(refusals()[4] == "\u{4e0d}\u{8981}\u{753b}"@);
    assert(refusals()[5] == "\u{4e0d}\u{7528}\u{753b}"@);
    assert(refusals()[6] == "\u{522b}\u{753b}"@);
    assert(refusals()[7] == "\u{4e0d}\u{8981}\u{751f}\u{6210}"@);
    assert(refusals()[8] == "\u{4e0d}\u{7528}\u{751f}\u{6210}"@);
    assert(refusals()[9] == "\u{522b}\u{751f}\u{6210}"@);
    assert forall|q: Seq<char>| #[trigger] declines(q) implies exists|i: int|
        0 <= i < refusals().len() && #[trigger] refusals()[i] == q by {
        if q == "do not draw"@ {
            assert(refusals()[0] == q);
        }
        if q == "don't draw"@ {
            assert(refusals()[1] == q);
        }
        if q == "dont draw"@ {
            assert(refusals()[2] == q);
        }
        if q == "no image"@ {
            assert(refusals()[3] == q);
        }
        if q == "\u{4e0d}\u{8981}\u{753b}"@ {
            assert(refusals()[4] == q);
        }
        if q == "\u{4e0d}\u{7528}\u{753b}"@ {
            assert(refusals()[5] == q);
        }
        if q == "\u{522b}\u{753b}"@ {
            assert(refusals()[6] == q);
        }
        if q == "\u{4e0d}\u{8981}\u{751f}\u{6210}"@ {
            assert(refusals()[7] == q);
        }
        if q == "\u{4e0d}\u{7528}\u{751f}\u{6210}"@ {
            assert(refusals()[8] == q);
        }
        if q == "\u{522b}\u{751f}\u{6210}"@ {
            assert(refusals()[9] == q);
        }
    }
}

proof fn lemma_english_is_plain(q: Seq<char>)
    requires
        asks_in_english(q),
    ensures
        is_plain(q),
{
    reveal_strlit("generate an image");
    reveal_strlit("generate image");
    reveal_strlit("create an image");
    reveal_strlit("create image");
    reveal_strlit("make an image");
    reveal_strlit("draw an image");
    reveal_strlit("draw a picture");
    reveal_strlit("generate a picture");
    reveal_strlit("create a picture");
    reveal_strlit("draw me a");
}

proof fn lemma_chinese_is_caseless(q: Seq<char>)
    requires
        asks_in_chinese(q),
    ensures
        is_caseless(q),
{
    reveal_strlit("\u{7ed9}\u{6211}\u{753b}\u{4e00}\u{5f20}");
    reveal_strlit("\u{5e2e}\u{6211}\u{753b}\u{4e00}\u{5f20}");
    reveal_strlit("\u{5e2e}\u{6211}\u{753b}\u{5f20}");
    reveal_strlit("\u{5e2e}\u{6211}\u{753b}\u{4e2a}");
    reveal_strlit("\u{8bf7}\u{7ed9}\u{6211}\u{753b}");
    reveal_strlit("\u{8bf7}\u{5e2e}\u{6211}\u{753b}");
    reveal_strlit("\u{753b}\u{4e00}\u{5f20}");
    reveal_strlit("\u{753b}\u{5f20}");
    reveal_strlit("\u{753b}\u{4e2a}");
    reveal_strlit("\u{751f}\u{6210}\u{4e00}\u{5f20}\u{56fe}");
    reveal_strlit("\u{751f}\u{6210}\u{4e00}\u{5f20}\u{56fe}\u{7247}");
    reveal_strlit("\u{5e2e}\u{6211}\u{751f}\u{6210}\u{4e00}\u{5f20}");
    reveal_strlit("\u{7ed9}\u{6211}\u{751f}\u{6210}\u{4e00}\u{5f20}");
    reveal_strlit("\u{751f}\u{6210}\u{56fe}\u{7247}");
    reveal_strlit("\u{751f}\u{6210}\u{56fe}\u{50cf}");
    reveal_strlit("\u{5e2e}\u{6211}\u{751f}\u{56fe}");
    reveal_strlit("\u{7ed9}\u{6211}\u{751f}\u{56fe}");
    reveal_strlit("\u{8bf7}\u{751f}\u{56fe}");
    reveal_strlit("\u{751f}\u{4e00}\u{5f20}\u{56fe}");
    reveal_strlit("\u{505a}\u{4e00}\u{5f20}\u{56fe}");
    reveal_strlit("\u{5236}\u{4f5c}\u{4e00}\u{5f20}\u{56fe}");
    reveal_strlit("\u{7ed8}\u{5236}\u{4e00}\u{5f20}");
}

proof fn lemma_refusals_are_plain(q: Seq<char>)
    requires
        declines(q),
    ensures
        is_plain(q),
{
    reveal_strlit("do not draw");
    reveal_strlit("don't draw");
    reveal_strlit("dont draw");
    reveal_strlit("no image");
    reveal_strlit("\u{4e0d}\u{8981}\u{753b}");
    reveal_strlit("\u{4e0d}\u{7528}\u{753b}");
    reveal_strlit("\u{522b}\u{753b}");
    reveal_strlit("\u{4e0d}\u{8981}\u{751f}\u{6210}");
    reveal_strlit("\u{4e0d}\u{7528}\u{751f}\u{6210}");
    reveal_strlit("\u{522b}\u{751f}\u{6210}");
}

/// A letter in either case is its small letter once it is in small letters.
pub proof fn lemma_small_letter(c: char, d: char)
    requires
        c == d || ('A' as u32 <= c as u32 <= 'Z' as u32 && c as u32 + 32 == d as u32),
        !('A' as u32 <= d as u32 <= 'Z' as u32),
    ensures
        text::lower(c) == d,
{
}

/// A phrase stands in a text in either case where it stands in its small letters.
pub proof fn lemma_mentioned_in_small_letters(s: Seq<char>, q: Seq<char>)
    requires
        is_plain(q),
    ensures
        text::contains(text::ascii_lower(s), q) <==> mentions(s, q),
{
    let low = text::ascii_lower(s);
    if text::contains(low, q) {
        let i = choose|i: int| text::occurs_at(low, q, i);
        let p = s.subrange(i, i + q.len());
        assert forall|j: int| 0 <= j < q.len() implies #[trigger] p[j] == q[j] || ('A' as u32
            <= p[j] as u32 <= 'Z' as u32 && p[j] as u32 + 32 == q[j] as u32) by {
            assert(low.subrange(i, i + q.len())[j] == q[j]);
            assert(low[i + j] == text::lower(s[i + j]));
        }
        assert(mentioned_at(s, q, i));
    }
    if mentions(s, q) {
        let i = choose|i: int| #[trigger] mentioned_at(s, q, i);
        let p = s.subrange(i, i + q.len());
        assert forall|j: int| 0 <= j < q.len() implies low.subrange(i, i + q.len())[j] == q[j] by {
            assert(p[j] == s[i + j]);
            assert(low[i + j] == text::lower(s[i + j]));
            assert(p[j] == q[j] || ('A' as u32 <= p[j] as u32 <= 'Z' as u32 && p[j] as u32 + 32
                == q[j] as u32));
            lemma_small_letter(p[j], q[j]);
            assert(!('A' as u32 <= q[j] as u32 <= 'Z' as u32));
        }
        assert(low.subrange(i, i + q.len()) =~= q);
        assert(text::occurs_at(low, q, i));
    }
}

proof fn lemma_found_is_mentioned(s: Seq<char>, q: Seq<char>)
    ensures
        text::contains(s, q) ==> mentions(s, q),
        is_caseless(q) && mentions(s, q) ==> text::contains(s, q),
{
    if text::contains(s, q) {
        let i = choose|i: int| text::occurs_at(s, q, i);
        assert(mentioned_at(s, q, i));
    }
    if is_caseless(q) && mentions(s, q) {
        let i = choose|i: int| #[trigger] mentioned_at(s, q, i);
        let p = s.subrange(i, i + q.len());
        assert forall|j: int| 0 <= j < q.len() implies p[j] == q[j] by {
            assert(q[j] as u32 >= 0x80);
        }
        assert(p =~= q);
        assert(text::occurs_at(s, q, i));
    }
}

proof fn lemma_mentioned_between_white_space(s: Seq<char>, q: Seq<char>)
    requires
        is_plain(q),
    ensures
        mentions(text::trim(s), q) <==> mentions(s, q),
{
    let (from, to) = text::lemma_trim_is_between(s);
    let t = text::trim(s);
    if mentions(t, q) {
        let i = choose|i: int| #[trigger] mentioned_at(t, q, i);
        assert(t.subrange(i, i + q.len()) =~= s.subrange(from + i, from + i + q.len()));
        assert(mentioned_at(s, q, from + i));
    }
    if mentions(s, q) {
        let i = choose|i: int| #[trigger] mentioned_at(s, q, i);
        let p = s.subrange(i, i + q.len());
        let last = q.len() - 1;
        assert(p[0] == s[i] && p[last] == s[i + last]);
        assert(p[0] == q[0] || 'A' as u32 <= p[0] as u32 <= 'Z' as u32);
        assert(p[last] == q[last] || 'A' as u32 <= p[last] as u32 <= 'Z' as u32);
        assert(from <= i) by {
            if i < from {
                assert(text::is_space(s[i]));
            }
        }
        assert(i + q.len() <= to) by {
            if to <= i + last {
                assert(text::is_space(s[i + last]));
            }
        }
        assert(t.subrange(i - from, i - from + q.len()) =~= p);
        assert(mentioned_at(t, q, i - from));
    }
}

/// A text asks for a picture where it holds one of the phrases that ask for one, its letters
/// in either case, and none of those that say that none is wanted; and nowhere else.
pub proof fn law_phrases_decide_whether_a_picture_is_asked_for(s: Seq<char>)
    ensures
        asks_for_image(s) <==> (exists|q: Seq<char>|
            (asks_in_english(q) || asks_in_chinese(q)) && #[trigger] mentions(s, q)) && !(exists|
            q: Seq<char>,
        | declines(q) && #[trigger] mentions(s, q)),
{
    let said = text::trim(s);
    let low = text::ascii_lower(said);
    lemma_english_requests();
    lemma_chinese_requests();
    lemma_refusals();
    assert(has_any(low, refusals()) || has_any(said, refusals()) <==> exists|q: Seq<char>|
        declines(q) && #[trigger] mentions(s, q)) by {
        if has_any(low, refusals()) {
            let i = choose|i: int|
                0 <= i < refusals().len() && text::contains(low, #[trigger] refusals()[i]);
            let q = refusals()[i];
            assert(declines(q));
            lemma_refusals_are_plain(q);
            lemma_mentioned_in_small_letters(said, q);
            lemma_mentioned_between_white_space(s, q);
            assert(mentions(s, q));
        }
        if has_any(said, refusals()) {
            let i = choose|i: int|
                0 <= i < refusals().len() && text::contains(said, #[trigger] refusals()[i]);
            let q = refusals()[i];
            assert(declines(q));
            lemma_refusals_are_plain(q);
            lemma_found_is_mentioned(said, q);
            lemma_mentioned_between_white_space(s, q);
            assert(mentions(s, q));
        }
        if exists|q: Seq<char>| declines(q) && #[trigger] mentions(s, q) {
            let q = choose|q: Seq<char>| declines(q) && #[trigger] mentions(s, q);
            lemma_refusals_are_plain(q);
            lemma_mentioned_between_white_space(s, q);
            lemma_mentioned_in_small_letters(said, q);
            let i = choose|i: int| 0 <= i < refusals().len() && #[trigger] refusals()[i] == q;
            assert(text::contains(low, refusals()[i]));
        }
    }
    assert(has_any(low, english_requests()) <==> exists|q: Seq<char>|
        asks_in_english(q) && #[trigger] mentions(s, q)) by {
        if has_any(low, english_requests()) {
            let i = choose|i: int|
                0 <= i < english_requests().len() && text::contains(
                    low,
                    #[trigger] english_requests()[i],
                );
            let q = english_requests()[i];
            assert(asks_in_english(q));
            lemma_english_is_plain(q);
            lemma_mentioned_in_small_letters(said, q);
            lemma_mentioned_between_white_space(s, q);
            assert(mentions(s, q));
        }
        if exists|q: Seq<char>| asks_in_english(q) && #[trigger] mentions(s, q) {
            let q = choose|q: Seq<char>| asks_in_english(q) && #[trigger] mentions(s, q);
            lemma_english_is_plain(q);
            lemma_mentioned_between_white_space(s, q);
            lemma_mentioned_in_small_letters(said, q);
            let i = choose|i: int|
                0 <= i < english_requests().len() && #[trigger] english_requests()[i] == q;
            assert(text::contains(low, english_requests()[i]));
        }
    }
    assert(has_any(said, chinese_requests()) <==> exists|q: Seq<char>|
        asks_in_chinese(q) && #[trigger] mentions(s, q)) by {
        if has_any(said, chinese_requests()) {
            let i = choose|i: int|
                0 <= i < chinese_requests().len() && text::contains(
                    said,
                    #[trigger] chinese_requests()[i],
                );
            let q = chinese_requests()[i];
            assert(asks_in_chinese(q));
            lemma_chinese_is_caseless(q);
            lemma_found_is_mentioned(said, q);
            lemma_mentioned_between_white_space(s, q);
            assert(mentions(s, q));
        }
        if exists|q: Seq<char>| asks_in_chinese(q) && #[trigger] mentions(s, q) {
            let q = choose|q: Seq<char>| asks_in_chinese(q) && #[trigger] mentions(s, q);
            lemma_chinese_is_caseless(q);
            lemma_mentioned_between_white_space(s, q);
            lemma_found_is_mentioned(said, q);
            let i = choose|i: int|
                0 <= i < chinese_requests().len() && #[trigger] chinese_requests()[i] == q;
            assert(text::contains(said, chinese_requests()[i]));
        }
    }
}

/// A message that holds a phrase that asks for a picture, whatever stands around the phrase
/// and in whichever case it is written, asks for one, unless a part of the message says that
/// none is wanted.
pub proof fn law_asking_for_a_picture_is_understood(
    a: Seq<char>,
    p: Seq<char>,
    b: Seq<char>,
    q: Seq<char>,
)
    requires
        asks_in_english(q) || asks_in_chinese(q),
        is_phrase(p, q),
        forall|r: Seq<char>| declines(r) ==> !#[trigger] mentions(a + p + b, r),
    ensures
        asks_for_image(a + p + b),
{
    let s = a + p + b;
    let i = a.len() as int;
    assert(s.subrange(i, i + q.len()) =~= p);
    assert(mentioned_at(s, q, i));
    assert(mentions(s, q));
    law_phrases_decide_whether_a_picture_is_asked_for(s);
}

/// A message that says anywhere that no picture is wanted asks for none, whatever else it
/// says.
pub proof fn law_declined_pictures_are_not_asked_for(
    a: Seq<char>,
    p: Seq<char>,
    b: Seq<char>,
    q: Seq<char>,
)
    requires
        declines(q),
        is_phrase(p, q),
    ensures
        !asks_for_image(a + p + b),
{
    let s = a + p + b;
    let i = a.len() as int;
    assert(s.subrange(i, i + q.len()) =~= p);
    assert(mentioned_at(s, q, i));
    assert(mentions(s, q));
    law_phrases_decide_whether_a_picture_is_asked_for(s);
}

/// A message that is no transcript is taken as it stands, without the white space around it.
pub proof fn law_plain_messages_are_taken_whole(s: Seq<char>)
    requires
        !text::contains(s, "<|im_start|>user"@),
    ensures
        latest_turn(s) == text::trim(s),
{
    let (from, to) = text::lemma_trim_is_between(s);
    let t = text::trim(s);
    assert(!text::contains(t, user_turn())) by {
        if text::contains(t, user_turn()) {
            let i = choose|i: int| text::occurs_at(t, user_turn(), i);
            let n = user_turn().len();
            assert(t.subrange(i, i + n) =~= s.subrange(from + i, from + i + n));
            assert(text::occurs_at(s, user_turn(), from + i));
        }
    }
}

/// A message that asks for a picture goes to the image tool where that is switched on, with
/// attachments or without, with a vision worker or without one.
pub proof fn law_requests_for_pictures_go_to_the_image_tool(
    vision_worker_enabled: bool,
    has_attachments: bool,
    a: Seq<char>,
    p: Seq<char>,
    b: Seq<char>,
    q: Seq<char>,
)
    requires
        asks_in_english(q) || asks_in_chinese(q),
        is_phrase(p, q),
        forall|r: Seq<char>| declines(r) ==> !#[trigger] mentions(a + p + b, r),
        !text::contains(a + p + b, "<|im_start|>user"@),
    ensures
        route(true, vision_worker_enabled, has_attachments, a + p + b)
            == GenerationRoute::ImageTool,
{
    let s = a + p + b;
    law_asking_for_a_picture_is_understood(a, p, b, q);
    law_plain_messages_are_taken_whole(s);
    text::lemma_trim_twice(s);
}

/// A message that asks for no picture goes to the vision worker where there is one and
/// something came with the message to be looked at, and to Gemini Web otherwise; and so does
/// any message where the image tool is switched off.
pub proof fn law_other_messages_go_by_what_came_with_them(
    image_generation_enabled: bool,
    vision_worker_enabled: bool,
    has_attachments: bool,
    s: Seq<char>,
)
    requires
        image_generation_enabled ==> !text::contains(s, "<|im_start|>user"@) && forall|
            q: Seq<char>,
        | asks_in_english(q) || asks_in_chinese(q) ==> !#[trigger] mentions(s, q),
    ensures
        has_attachments && vision_worker_enabled ==> route(
            image_generation_enabled,
            vision_worker_enabled,
            has_attachments,
            s,
        ) == GenerationRoute::VisionWorker,
        !(has_attachments && vision_worker_enabled) ==> route(
            image_generation_enabled,
            vision_worker_enabled,
            has_attachments,
            s,
        ) == GenerationRoute::GeminiWeb,
{
    if image_generation_enabled {
        law_plain_messages_are_taken_whole(s);
        law_phrases_decide_whether_a_picture_is_asked_for(s);
        text::lemma_trim_twice(s);
    }
}

/// The marks of a transcript are those of its turns: what stands between the mark that opens
/// the last turn of the user and the mark that closes it is what is asked.
pub proof fn law_transcripts_are_read_by_their_marks(
    earlier: Seq<char>,
    said: Seq<char>,
    tail: Seq<char>,
)
    requires
        text::trim(said).len() > 0,
        is_latest(said, tail),
    ensures
        latest_turn(earlier + "<|im_start|>user"@ + "\n"@ + said + "<|im_end|>"@ + tail)
            == text::trim(said),
{
    law_only_the_latest_turn_counts(earlier, said, tail);
    assert(earlier + "<|im_start|>user"@ + "\n"@ + said + "<|im_end|>"@ + tail =~= earlier
        + user_says(said) + tail);
}

/// A turn of the user that is not closed is taken up to the end of the text.
pub proof fn law_open_turns_are_taken_to_the_end(earlier: Seq<char>, said: Seq<char>)
    requires
        !text::is_blank(said),
        text::occurs_last_at("<|im_start|>user"@ + "\n"@ + said, "<|im_start|>user"@, 0),
        !text::contains(said, "<|im_end|>"@),
    ensures
        latest_turn(earlier + "<|im_start|>user"@ + "\n"@ + said) == text::trim(said),
{
    let mark = user_turn();
    let all = earlier + "<|im_start|>user"@ + "\n"@ + said;
    let (from, to) = text::lemma_trim_is_between(said);
    let m = text::trim(said);
    let a = said.take(from);
    let b = said.skip(to);
    text::law_blank_texts_are_trimmed_to_nothing(said);
    assert(said =~= a + m + b);
    assert(text::is_blank(a) && text::is_blank(b));
    reveal_strlit("<|im_start|>user");
    reveal_strlit("\n");
    let turn = mark + "\n"@ + said;
    let rest = mark + "\n"@ + a + m;
    let before = text::trim_start(earlier);
    assert(all =~= earlier + turn);
    assert(turn[0] == mark[0]);
    lemma_trim_start_of_both(earlier, turn);
    assert(before + turn =~= (before + rest) + b);
    assert((before + rest).last() == m.last());
    lemma_trim_end_of_both(before + rest, b);
    text::law_blank_texts_are_trimmed_to_nothing(b);
    assert(text::trim_end(b) =~= Seq::<char>::empty()) by {
        text::lemma_trim_end(b);
        let n = text::trim_end(b).len() as int;
        if n > 0 {
            assert(text::trim_end(b).last() == b[n - 1]);
            assert(text::is_space(b[n - 1]));
        }
    }
    let trimmed = before + rest;
    assert(text::trim(all) =~= trimmed);
    assert(turn.take(rest.len() as int) =~= rest);
    lemma_no_later_place_in_a_beginning(turn, rest.len() as int, mark);
    lemma_last_place_stays_behind(before, rest, mark);
    let after = trimmed.skip((before.len() + mark.len()) as int);
    assert(after =~= "\n"@ + a + m);
    assert(after[0] == '\n');
    let body = after.skip(1);
    assert(body =~= a + m);
    assert(!text::contains(body, turn_end())) by {
        if text::contains(body, turn_end()) {
            let i = choose|i: int| text::occurs_at(body, turn_end(), i);
            let n = turn_end().len();
            assert(body.subrange(i, i + n) =~= said.subrange(i, i + n));
            assert(text::occurs_at(said, turn_end(), i));
        }
    }
    text::law_trim_takes_white_space_alone(a, m, Seq::empty());
    assert(a + m + Seq::<char>::empty() =~= body);
}

} // verus!
