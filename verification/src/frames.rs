//! The response of Gemini Web: a guard line, then frames, each a length in
//! UTF-16 units and a JSON text of that length.
use crate::json;
use crate::json::{Json, Tree};
use crate::text;
use vstd::prelude::*;

verus! {

/// The characters that keep a response from being run as a script.
pub open spec fn guard() -> Seq<char> {
    ")]}'"@
}

/// A response without the guard that it may begin with.
pub open spec fn unguarded(raw: Seq<char>) -> Seq<char> {
    if text::starts_with(raw, guard()) {
        text::trim_start(raw.skip(guard().len() as int))
    } else {
        raw
    }
}

/// How many digits `s` begins with.
pub open spec fn digit_run(s: Seq<char>) -> nat
    decreases s.len(),
{
    if s.len() > 0 && text::is_digit(s[0]) {
        1 + digit_run(s.drop_first())
    } else {
        0
    }
}

/// The length that the digits of a frame give; one too large for the machine counts as zero.
pub open spec fn frame_length(digits: Seq<char>) -> nat {
    if text::digits_value(digits) <= usize::MAX {
        text::digits_value(digits)
    } else {
        0
    }
}

/// How many UTF-16 units write `c`.
pub open spec fn utf16_units(c: char) -> nat {
    if c as u32 >= 0x10000 {
        2
    } else {
        1
    }
}

/// How many characters of `s` it takes to fill `length` UTF-16 units; none where
/// `s` is too short.
pub open spec fn frame_end(s: Seq<char>, length: nat) -> Option<nat>
    decreases s.len(),
{
    if length == 0 {
        Some(0)
    } else if s.len() == 0 {
        None
    } else {
        let left = if length <= utf16_units(s[0]) {
            0
        } else {
            (length - utf16_units(s[0])) as nat
        };
        match frame_end(s.drop_first(), left) {
            Some(end) => Some(end + 1),
            None => None,
        }
    }
}

/// The texts of the frames of `s`, up to the first place where no frame stands;
/// blank ones are left out.
pub open spec fn chunks(s: Seq<char>) -> Seq<Seq<char>>
    decreases s.len(),
    via chunks_end
{
    let t = text::trim_start(s);
    let digits = digit_run(t);
    let rest = t.skip(digits as int);
    if digits == 0 {
        Seq::empty()
    } else {
        match frame_end(rest, frame_length(t.take(digits as int))) {
            Some(end) => {
                let chunk = text::trim(rest.take(end as int));
                let more = chunks(rest.skip(end as int));
                if chunk.len() == 0 {
                    more
                } else {
                    seq![chunk] + more
                }
            },
            None => Seq::empty(),
        }
    }
}

#[via_fn]
proof fn chunks_end(s: Seq<char>) {
    let t = text::trim_start(s);
    text::lemma_trim_start(s);
    lemma_digit_run(t);
    let rest = t.skip(digit_run(t) as int);
    lemma_frame_end(rest, frame_length(t.take(digit_run(t) as int)));
}

proof fn lemma_digit_run(s: Seq<char>)
    ensures
        digit_run(s) <= s.len(),
        text::all_digits(s.take(digit_run(s) as int)),
        digit_run(s) < s.len() ==> !text::is_digit(s[digit_run(s) as int]),
    decreases s.len(),
{
    if s.len() > 0 && text::is_digit(s[0]) {
        lemma_digit_run(s.drop_first());
        assert forall|i: int| 0 <= i < digit_run(s) implies text::is_digit(#[trigger] s[i]) by {
            if i > 0 {
                let run = s.drop_first().take(digit_run(s.drop_first()) as int);
                assert(run[i - 1] == s[i]);
            }
        }
    }
}

proof fn lemma_frame_end(s: Seq<char>, length: nat)
    ensures
        frame_end(s, length) matches Some(end) ==> end <= s.len(),
    decreases s.len(),
{
    if length > 0 && s.len() > 0 {
        let left = if length <= utf16_units(s[0]) {
            0
        } else {
            (length - utf16_units(s[0])) as nat
        };
        lemma_frame_end(s.drop_first(), left);
    }
}

/// Where the white space ends that stands at `from`.
fn after_space(chars: &Vec<char>, from: usize) -> (r: usize)
    requires
        from <= chars@.len(),
    ensures
        from <= r <= chars@.len(),
        chars@.skip(r as int) == text::trim_start(chars@.skip(from as int)),
{
    let n: usize = chars.len();
    let mut pos: usize = from;
    while pos < n && text::char_is_space(chars[pos])
        invariant
            n == chars@.len(),
            from <= pos <= n,
            text::trim_start(chars@.skip(from as int)) == text::trim_start(chars@.skip(pos as int)),
        decreases n - pos,
    {
        assert(chars@.skip(pos as int).drop_first() == chars@.skip(pos + 1));
        pos = pos + 1;
    }
    pos
}

/// Where the digits end that stand at `from`.
fn after_digits(chars: &Vec<char>, from: usize) -> (r: usize)
    requires
        from <= chars@.len(),
    ensures
        from <= r <= chars@.len(),
        r - from == digit_run(chars@.skip(from as int)),
{
    let n: usize = chars.len();
    let mut pos: usize = from;
    while pos < n && text::char_is_digit(chars[pos])
        invariant
            n == chars@.len(),
            from <= pos <= n,
            digit_run(chars@.skip(from as int)) == pos - from + digit_run(chars@.skip(pos as int)),
        decreases n - pos,
    {
        assert(chars@.skip(pos as int).drop_first() == chars@.skip(pos + 1));
        pos = pos + 1;
    }
    pos
}

/// Where the frame ends that begins at `from` and is `length` UTF-16 units long.
fn after_units(chars: &Vec<char>, from: usize, length: usize) -> (r: Option<usize>)
    requires
        from <= chars@.len(),
    ensures
        match r {
            Some(end) => from <= end <= chars@.len() && frame_end(
                chars@.skip(from as int),
                length as nat,
            ) == Some((end - from) as nat),
            None => frame_end(chars@.skip(from as int), length as nat) is None,
        },
{
    let n: usize = chars.len();
    let mut pos: usize = from;
    let mut left: usize = length;
    while pos < n && left > 0
        invariant
            n == chars@.len(),
            from <= pos <= n,
            frame_end(chars@.skip(from as int), length as nat) == match frame_end(
                chars@.skip(pos as int),
                left as nat,
            ) {
                Some(end) => Some((end + (pos - from)) as nat),
                None => None,
            },
        decreases n - pos,
    {
        assert(chars@.skip(pos as int).drop_first() == chars@.skip(pos + 1));
        assert(chars@.skip(pos as int)[0] == chars@[pos as int]);
        let units: usize = char_units(chars[pos]);
        left = if left <= units {
            0
        } else {
            left - units
        };
        pos = pos + 1;
    }
    if left > 0 {
        None
    } else {
        Some(pos)
    }
}

/// How many UTF-16 units write `c`.
fn char_units(c: char) -> (r: usize)
    ensures
        r == utf16_units(c),
{
    if c as u32 >= 0x10000 {
        2
    } else {
        1
    }
}

/// The texts of the frames of a response.
pub fn split_frames(raw: &str) -> (r: Vec<String>)
    ensures
        text::views(r@) == chunks(unguarded(raw@)),
{
    let chars = text::chars_of(raw);
    let n: usize = chars.len();
    let mut pos: usize = 0;
    assert(chars@.skip(0) == chars@);
    if text::has_prefix(raw, ")]}'") {
        proof {
            reveal_strlit(")]}'");
        }
        pos = after_space(&chars, 4);
    }
    let mut out: Vec<String> = Vec::new();
    assert(text::views(out@) + chunks(chars@.skip(pos as int)) == chunks(unguarded(raw@)));
    loop
        invariant
            n == chars@.len(),
            pos <= n,
            text::views(out@) + chunks(chars@.skip(pos as int)) == chunks(unguarded(raw@)),
        decreases n - pos,
    {
        let ghost s = chars@.skip(pos as int);
        let begin: usize = after_space(&chars, pos);
        let ghost t = chars@.skip(begin as int);
        let start: usize = after_digits(&chars, begin);
        if start == begin {
            assert(text::views(out@) + chunks(s) == text::views(out@));
            return out;
        }
        proof {
            lemma_digit_run(t);
            assert(t.take(digit_run(t) as int) == chars@.subrange(begin as int, start as int));
            assert(t.skip(digit_run(t) as int) == chars@.skip(start as int));
        }
        let length: usize = match text::digits_number(&chars, begin, start, usize::MAX as u64) {
            Some(value) => value as usize,
            None => 0,
        };
        match after_units(&chars, start, length) {
            Some(end) => {
                let ghost rest = chars@.skip(start as int);
                let piece = text::text_between(&chars, start, end);
                assert(piece@ == rest.take(end - start));
                assert(rest.skip(end - start) == chars@.skip(end as int));
                let chunk = text::trimmed(piece.as_str());
                let ghost earlier = out@;
                if !chunk.as_str().is_empty() {
                    out.push(chunk);
                    assert(text::views(out@) == text::views(earlier).push(chunk@));
                    assert(text::views(out@) + chunks(chars@.skip(end as int)) == text::views(
                        earlier,
                    ) + (seq![chunk@] + chunks(chars@.skip(end as int))));
                }
                pos = end;
            },
            None => {
                assert(text::views(out@) + chunks(s) == text::views(out@));
                return out;
            },
        }
    }
}

/// The values that the frames carry: what stands in a frame that is an array,
/// and any other frame itself. A frame that could not be read carries none.
pub open spec fn carried(values: Seq<Option<Tree>>) -> Seq<Tree>
    decreases values.len(),
{
    if values.len() == 0 {
        Seq::empty()
    } else {
        let earlier = carried(values.drop_last());
        match values.last() {
            Some(Tree::Array(items)) => earlier + items,
            Some(value) => earlier.push(value),
            None => earlier,
        }
    }
}

/// What the values of a list say, where they are there.
pub open spec fn opt_trees(values: Seq<Option<Json>>) -> Seq<Option<Tree>> {
    values.map_values(|v: Option<Json>| json::opt_tree(v))
}

/// The values that the frames carry.
pub fn collect_frames(values: Vec<Option<Json>>) -> (r: Vec<Json>)
    ensures
        json::trees(r@) == carried(opt_trees(values@)),
{
    broadcast use json::lemma_array_view;

    let ghost all = opt_trees(values@);
    let mut out: Vec<Json> = Vec::new();
    for value in it: values
        invariant
            all == opt_trees(it.seq()),
            json::trees(out@) == carried(all.take(it.index())),
    {
        proof {
            assert(all.take(it.index() + 1).drop_last() == all.take(it.index()));
            assert(all.take(it.index() + 1).last() == json::opt_tree(value));
        }
        let ghost earlier = out@;
        match value {
            Some(Json::Array(items)) => {
                let mut items = items;
                let ghost added = items@;
                out.append(&mut items);
                assert(json::trees(out@) == json::trees(earlier) + json::trees(added));
            },
            Some(other) => {
                out.push(other);
                assert(json::trees(out@) == json::trees(earlier).push(other@));
            },
            None => {},
        }
    }
    assert(all.take(all.len() as int) == all);
    out
}

/// What `serde_json` reads in each of the texts.
pub open spec fn parsed_all(texts: Seq<Seq<char>>) -> Seq<Option<Tree>> {
    texts.map_values(|t: Seq<char>| json::parsed(t))
}

/// The values that the frames of a response carry.
pub fn parse_frames(raw: &str) -> (r: Vec<Json>)
    ensures
        json::trees(r@) == carried(parsed_all(chunks(unguarded(raw@)))),
{
    let texts = split_frames(raw);
    let mut values: Vec<Option<Json>> = Vec::new();
    let mut i: usize = 0;
    while i < texts.len()
        invariant
            i <= texts@.len(),
            opt_trees(values@) == parsed_all(text::views(texts@)).take(i as int),
        decreases texts@.len() - i,
    {
        let ghost earlier = values@;
        let value = json::parse(texts[i].as_str());
        values.push(value);
        assert(opt_trees(values@) == opt_trees(earlier).push(json::opt_tree(value)));
        i = i + 1;
    }
    assert(parsed_all(text::views(texts@)).take(i as int) == parsed_all(text::views(texts@)));
    collect_frames(values)
}

/// The value that one reaches from `tree` by the places of `path`, one after the other.
pub open spec fn at_path(tree: Tree, path: Seq<usize>) -> Option<Tree>
    decreases path.len(),
{
    if path.len() == 0 {
        Some(tree)
    } else {
        match tree.item(path[0] as int) {
            Some(next) => at_path(next, path.drop_first()),
            None => None,
        }
    }
}

pub fn get_path<'a>(value: &'a Json, path: &[usize]) -> (r: Option<&'a Json>)
    ensures
        match r {
            Some(found) => at_path(value@, path@) == Some(found@),
            None => at_path(value@, path@) is None,
        },
{
    let mut current = value;
    let mut i: usize = 0;
    assert(path@.skip(0) == path@);
    while i < path.len()
        invariant
            i <= path@.len(),
            at_path(value@, path@) == at_path(current@, path@.skip(i as int)),
        decreases path@.len() - i,
    {
        assert(path@.skip(i as int)[0] == path@[i as int]);
        assert(path@.skip(i as int).drop_first() == path@.skip(i + 1));
        match current.item(path[i]) {
            Some(next) => {
                current = next;
            },
            None => {
                return None;
            },
        }
        i = i + 1;
    }
    Some(current)
}

/// What a candidate answer says.
pub open spec fn candidate_text(candidate: Tree) -> Option<Seq<char>> {
    match at_path(candidate, seq![1, 0]) {
        Some(t) => t.as_str(),
        None => None,
    }
}

/// What the last of the candidates says that is not blank; `before` where there is none.
pub open spec fn last_candidate(candidates: Seq<Tree>, before: Seq<char>) -> Seq<char>
    decreases candidates.len(),
{
    if candidates.len() == 0 {
        before
    } else {
        match candidate_text(candidates.last()) {
            Some(said) => if text::trim(said).len() > 0 {
                said
            } else {
                last_candidate(candidates.drop_last(), before)
            },
            None => last_candidate(candidates.drop_last(), before),
        }
    }
}

/// What the last candidate of all answers says that is not blank; nothing where
/// there is none. An answer lists its candidates at its place 4.
pub open spec fn last_said(answers: Seq<Option<Tree>>) -> Seq<char>
    decreases answers.len(),
{
    if answers.len() == 0 {
        Seq::empty()
    } else {
        let before = last_said(answers.drop_last());
        match answers.last() {
            Some(answer) => match answer.item(4) {
                Some(Tree::Array(candidates)) => last_candidate(candidates, before),
                _ => before,
            },
            None => before,
        }
    }
}

/// What the last of the candidates says that is not blank.
fn pick_candidate(candidates: &Vec<Json>, before: String) -> (r: String)
    ensures
        r@ == last_candidate(json::trees(candidates@), before@),
{
    let ghost all = json::trees(candidates@);
    let ghost first = before@;
    let mut said = before;
    let mut i: usize = 0;
    while i < candidates.len()
        invariant
            i <= candidates@.len(),
            all == json::trees(candidates@),
            said@ == last_candidate(all.take(i as int), first),
        decreases candidates@.len() - i,
    {
        assert(all.take(i + 1).drop_last() == all.take(i as int));
        assert(all.take(i + 1).last() == candidates@[i as int]@);
        let path: Vec<usize> = vec![1, 0];
        assert(path@ == seq![1usize, 0usize]);
        if let Some(found) = get_path(&candidates[i], path.as_slice()) {
            if let Some(words) = found.as_str() {
                if !text::trimmed(words).as_str().is_empty() {
                    said = words.to_owned();
                }
            }
        }
        i = i + 1;
    }
    assert(all.take(i as int) == all);
    said
}

/// What the last candidate of all answers says that is not blank.
pub fn pick_text(answers: &Vec<Option<Json>>) -> (r: String)
    ensures
        r@ == last_said(opt_trees(answers@)),
{
    let ghost all = opt_trees(answers@);
    let mut said = String::new();
    let mut i: usize = 0;
    while i < answers.len()
        invariant
            i <= answers@.len(),
            all == opt_trees(answers@),
            said@ == last_said(all.take(i as int)),
        decreases answers@.len() - i,
    {
        assert(all.take(i + 1).drop_last() == all.take(i as int));
        assert(all.take(i + 1).last() == json::opt_tree(answers@[i as int]));
        if let Some(answer) = &answers[i] {
            if let Some(listed) = answer.item(4) {
                if let Json::Array(candidates) = listed {
                    proof {
                        json::lemma_array_view(*candidates);
                    }
                    said = pick_candidate(candidates, said);
                } else {
                    assert(!(listed@ is Array));
                }
            }
        }
        i = i + 1;
    }
    assert(all.take(i as int) == all);
    said
}

/// The answers that frames carry: each at place 2, as a JSON text of its own.
pub open spec fn answers(frames: Seq<Tree>) -> Seq<Option<Tree>> {
    frames.map_values(
        |f: Tree|
            match f.item(2) {
                Some(t) => match t.as_str() {
                    Some(inner) => json::parsed(inner),
                    None => None,
                },
                None => None,
            },
    )
}

/// What Gemini says in a response.
pub open spec fn response_text(raw: Seq<char>) -> Seq<char> {
    last_said(answers(carried(parsed_all(chunks(unguarded(raw))))))
}

/// What Gemini says in a response, where it says anything.
pub fn extract_text_from_response(raw: &str) -> (r: Option<String>)
    ensures
        match r {
            Some(said) => said@ == response_text(raw@) && said@.len() > 0,
            None => response_text(raw@).len() == 0,
        },
{
    let frames = parse_frames(raw);
    let ghost all = json::trees(frames@);
    let mut found: Vec<Option<Json>> = Vec::new();
    let mut i: usize = 0;
    while i < frames.len()
        invariant
            i <= frames@.len(),
            all == json::trees(frames@),
            opt_trees(found@) == answers(all).take(i as int),
        decreases frames@.len() - i,
    {
        let ghost earlier = found@;
        assert(all[i as int] == frames@[i as int]@);
        let answer = match frames[i].item(2) {
            Some(t) => match t.as_str() {
                Some(inner) => json::parse(inner),
                None => None,
            },
            None => None,
        };
        found.push(answer);
        assert(opt_trees(found@) == opt_trees(earlier).push(json::opt_tree(answer)));
        assert(answers(all).take(i + 1) == answers(all).take(i as int).push(answers(all)[i as int]));
        i = i + 1;
    }
    assert(answers(all).take(i as int) == answers(all));
    let said = pick_text(&found);
    if said.as_str().is_empty() {
        None
    } else {
        Some(said)
    }
}

/// How many UTF-16 units write a text.
pub open spec fn units(s: Seq<char>) -> nat
    decreases s.len(),
{
    if s.len() == 0 {
        0
    } else {
        utf16_units(s[0]) + units(s.drop_first())
    }
}

/// Texts as the frames of a response: each behind its length.
pub open spec fn framed(list: Seq<Seq<char>>) -> Seq<char>
    decreases list.len(),
{
    if list.len() == 0 {
        Seq::empty()
    } else {
        text::decimal(units(list[0])) + list[0] + framed(list.drop_first())
    }
}

/// Whether a text can stand in a frame: it is not blank, does not go on from the digits of
/// its length, and its length fits the machine.
pub open spec fn can_be_framed(s: Seq<char>) -> bool {
    s.len() > 0 && !text::is_digit(s[0]) && text::trim(s).len() > 0 && units(s) <= usize::MAX
}

proof fn lemma_digit_run_of_both(digits: Seq<char>, rest: Seq<char>)
    requires
        text::all_digits(digits),
        rest.len() > 0 && !text::is_digit(rest[0]),
    ensures
        digit_run(digits + rest) == digits.len(),
    decreases digits.len(),
{
    if digits.len() == 0 {
        assert(digits + rest == rest);
    } else {
        assert((digits + rest)[0] == digits[0]);
        assert((digits + rest).drop_first() == digits.drop_first() + rest);
        assert(text::all_digits(digits.drop_first()));
        lemma_digit_run_of_both(digits.drop_first(), rest);
    }
}

proof fn lemma_frame_end_of_both(s: Seq<char>, rest: Seq<char>)
    ensures
        frame_end(s + rest, units(s)) == Some(s.len()),
    decreases s.len(),
{
    if s.len() > 0 {
        assert((s + rest)[0] == s[0]);
        assert((s + rest).drop_first() == s.drop_first() + rest);
        lemma_frame_end_of_both(s.drop_first(), rest);
    }
}

/// A response that is made of frames is read as the texts of those frames, in their
/// order, without the white space around them, whatever characters they hold.
pub proof fn law_frames_are_read_back(list: Seq<Seq<char>>)
    requires
        forall|i: int| 0 <= i < list.len() ==> can_be_framed(#[trigger] list[i]),
    ensures
        chunks(framed(list)) == list.map_values(|s: Seq<char>| text::trim(s)),
    decreases list.len(),
{
    let trimmed = list.map_values(|s: Seq<char>| text::trim(s));
    if list.len() == 0 {
        assert(text::trim_start(Seq::<char>::empty()) == Seq::<char>::empty());
        assert(chunks(framed(list)) == Seq::<Seq<char>>::empty());
        assert(trimmed == Seq::<Seq<char>>::empty());
    } else {
        let first = list[0];
        assert(can_be_framed(first));
        let others = list.drop_first();
        assert forall|i: int| 0 <= i < others.len() implies can_be_framed(#[trigger] others[i]) by {
            assert(can_be_framed(list[i + 1]));
        }
        law_frames_are_read_back(others);
        let digits = text::decimal(units(first));
        let rest = first + framed(others);
        let s = framed(list);
        assert(s == digits + rest);
        text::lemma_decimal(units(first));
        assert(s[0] == digits[0]);
        assert(text::is_digit(digits[0]));
        assert(text::trim_start(s) == s);
        assert(rest[0] == first[0]);
        lemma_digit_run_of_both(digits, rest);
        assert(s.skip(digits.len() as int) == rest);
        assert(s.take(digits.len() as int) == digits);
        lemma_frame_end_of_both(first, framed(others));
        assert(rest.take(first.len() as int) == first);
        assert(rest.skip(first.len() as int) == framed(others));
        assert(trimmed =~= seq![text::trim(first)] + others.map_values(
            |s: Seq<char>| text::trim(s),
        ));
    }
}

/// The guard that a response begins with, and the white space behind it, change nothing
/// of what is read.
pub proof fn law_guard_is_passed_over(s: Seq<char>)
    ensures
        chunks(unguarded(guard() + s)) == chunks(s),
{
    let raw = guard() + s;
    assert(raw.subrange(0, guard().len() as int) == guard());
    assert(raw.skip(guard().len() as int) == s);
    text::lemma_trim_start(s);
    let t = text::trim_start(s);
    assert(text::trim_start(t) == t);
}

proof fn lemma_units_of_both(a: Seq<char>, b: Seq<char>)
    ensures
        units(a + b) == units(a) + units(b),
    decreases a.len(),
{
    if a.len() == 0 {
        assert(a + b =~= b);
    } else {
        assert((a + b)[0] == a[0]);
        assert((a + b).drop_first() =~= a.drop_first() + b);
        lemma_units_of_both(a.drop_first(), b);
    }
}

proof fn lemma_units_of_one(c: char)
    ensures
        units(seq![c]) == if c as u32 <= 0xffff {
            1nat
        } else {
            2nat
        },
{
    assert(seq![c].drop_first() =~= Seq::<char>::empty());
    assert(units(Seq::<char>::empty()) == 0);
}

/// The length of a text in UTF-16 goes character by character: one unit for a character of
/// the basic plane, two for any other.
pub proof fn law_lengths_are_those_of_utf16(s: Seq<char>, c: char)
    ensures
        units(Seq::empty()) == 0,
        units(s.push(c)) == units(s) + if c as u32 <= 0xffff {
            1nat
        } else {
            2nat
        },
{
    lemma_units_of_both(s, seq![c]);
    lemma_units_of_one(c);
    assert(s.push(c) =~= s + seq![c]);
}

/// What a candidate says at the first place of its second place is told word for word,
/// whatever it holds, where it is not blank and no later candidate says anything.
pub proof fn law_candidates_are_told_word_for_word(
    earlier: Seq<Option<Tree>>,
    places: Seq<Tree>,
    others: Seq<Tree>,
    candidate: Seq<Tree>,
    texts: Seq<Tree>,
    s: Seq<char>,
)
    requires
        places.len() > 4,
        places[4] == Tree::Array(others.push(Tree::Array(candidate))),
        candidate.len() > 1,
        candidate[1] == Tree::Array(texts),
        texts.len() > 0,
        texts[0] == Tree::Str(s),
        !text::is_blank(s),
    ensures
        last_said(earlier.push(Some(Tree::Array(places)))) == s,
{
    let all = earlier.push(Some(Tree::Array(places)));
    let candidates = others.push(Tree::Array(candidate));
    text::law_blank_texts_are_trimmed_to_nothing(s);
    assert(all.drop_last() =~= earlier);
    assert(candidates.last() == Tree::Array(candidate));
    lemma_text_of_candidate(candidate, texts, s);
}

proof fn lemma_text_of_candidate(candidate: Seq<Tree>, texts: Seq<Tree>, s: Seq<char>)
    requires
        candidate.len() > 1,
        candidate[1] == Tree::Array(texts),
        texts.len() > 0,
        texts[0] == Tree::Str(s),
    ensures
        candidate_text(Tree::Array(candidate)) == Some(s),
{
    let path = seq![1usize, 0usize];
    assert(path.drop_first() =~= seq![0usize]);
    assert(seq![0usize].drop_first() =~= Seq::<usize>::empty());
    assert(at_path(Tree::Str(s), Seq::<usize>::empty()) == Some(Tree::Str(s)));
    assert(at_path(Tree::Array(texts), seq![0usize]) == Some(Tree::Str(s)));
    assert(at_path(Tree::Array(candidate), path) == Some(Tree::Str(s)));
}

/// A blank candidate is passed over: what was said before it is told.
pub proof fn law_blank_candidates_are_passed_over(
    earlier: Seq<Option<Tree>>,
    places: Seq<Tree>,
    others: Seq<Tree>,
    candidate: Seq<Tree>,
    texts: Seq<Tree>,
    s: Seq<char>,
)
    requires
        places.len() > 4,
        places[4] == Tree::Array(others.push(Tree::Array(candidate))),
        candidate.len() > 1,
        candidate[1] == Tree::Array(texts),
        texts.len() > 0,
        texts[0] == Tree::Str(s),
        text::is_blank(s),
    ensures
        last_said(earlier.push(Some(Tree::Array(places)))) == last_said(
            earlier.push(Some(Tree::Array(places.update(4, Tree::Array(others))))),
        ),
{
    let all = earlier.push(Some(Tree::Array(places)));
    let fewer = earlier.push(Some(Tree::Array(places.update(4, Tree::Array(others)))));
    let candidates = others.push(Tree::Array(candidate));
    text::law_blank_texts_are_trimmed_to_nothing(s);
    assert(all.drop_last() =~= earlier);
    assert(fewer.drop_last() =~= earlier);
    assert(candidates.last() == Tree::Array(candidate));
    assert(candidates.drop_last() =~= others);
    lemma_text_of_candidate(candidate, texts, s);
}

/// An answer that cannot be read, or that lists no candidates, changes nothing of what was
/// said before it; and where there is no answer, nothing was said.
pub proof fn law_answers_without_candidates_change_nothing(
    earlier: Seq<Option<Tree>>,
    answer: Option<Tree>,
)
    requires
        answer matches Some(Tree::Array(places)) ==> places.len() <= 4 || !(places[4] is Array)
            || places[4]->Array_0.len() == 0,
    ensures
        last_said(earlier.push(answer)) == last_said(earlier),
        last_said(Seq::empty()) == Seq::<char>::empty(),
{
    assert(earlier.push(answer).drop_last() =~= earlier);
}

proof fn lemma_carried_of_both(a: Seq<Option<Tree>>, b: Seq<Option<Tree>>)
    ensures
        carried(a + b) == carried(a) + carried(b),
    decreases b.len(),
{
    if b.len() == 0 {
        assert(a + b =~= a);
        assert(carried(a) + carried(b) =~= carried(a));
    } else {
        lemma_carried_of_both(a, b.drop_last());
        assert((a + b).drop_last() =~= a + b.drop_last());
        assert(carried(a + b) =~= carried(a) + carried(b));
    }
}

/// Whether no answer stands in a frame: it cannot be read, or nothing in it holds a text at
/// place 2.
pub open spec fn carries_no_answer(frame: Seq<char>) -> bool {
    match json::parsed(text::trim(frame)) {
        Some(Tree::Array(items)) => forall|i: int|
            0 <= i < items.len() ==> !((#[trigger] items[i]).item(2) matches Some(Tree::Str(_))),
        _ => true,
    }
}

proof fn lemma_nothing_is_answered(frames: Seq<Seq<char>>, values: Seq<Option<Tree>>)
    requires
        values == parsed_all(frames.map_values(|s: Seq<char>| text::trim(s))),
        forall|i: int| 0 <= i < frames.len() ==> carries_no_answer(#[trigger] frames[i]),
    ensures
        forall|i: int|
            0 <= i < carried(values).len() ==> !((#[trigger] carried(values)[i]).item(
                2,
            ) matches Some(Tree::Str(_))),
    decreases frames.len(),
{
    if frames.len() > 0 {
        let shorter = frames.drop_last();
        assert forall|i: int| 0 <= i < shorter.len() implies carries_no_answer(
            #[trigger] shorter[i],
        ) by {
            assert(carries_no_answer(frames[i]));
        }
        assert(values.drop_last() =~= parsed_all(
            shorter.map_values(|s: Seq<char>| text::trim(s)),
        ));
        lemma_nothing_is_answered(shorter, values.drop_last());
        assert(carries_no_answer(frames[frames.len() - 1]));
        let earlier = carried(values.drop_last());
        assert(values.last() == json::parsed(text::trim(frames.last())));
        assert forall|i: int| 0 <= i < carried(values).len() implies !((
        #[trigger] carried(values)[i]).item(2) matches Some(Tree::Str(_))) by {
            if i < earlier.len() {
                assert(carried(values)[i] == earlier[i]);
            } else {
                match values.last() {
                    Some(Tree::Array(items)) => {
                        assert(carried(values)[i] == items[i - earlier.len()]);
                    },
                    _ => {},
                }
            }
        }
    }
}

proof fn lemma_said_before_silence(a: Seq<Option<Tree>>, b: Seq<Option<Tree>>)
    requires
        forall|i: int| 0 <= i < b.len() ==> (#[trigger] b[i]) is None,
    ensures
        last_said(a + b) == last_said(a),
    decreases b.len(),
{
    if b.len() == 0 {
        assert(a + b =~= a);
    } else {
        assert((a + b).drop_last() =~= a + b.drop_last());
        assert((a + b).last() == b[b.len() - 1]);
        assert forall|i: int| 0 <= i < b.drop_last().len() implies (#[trigger] b.drop_last()[i]) is
            None by {
            assert(b[i] is None);
        }
        lemma_said_before_silence(a, b.drop_last());
    }
}

proof fn lemma_chunks_behind_white_space(space: Seq<char>, s: Seq<char>)
    requires
        text::is_blank(space),
    ensures
        chunks(space + s) == chunks(s),
{
    lemma_trim_start_behind_white_space(space, s);
}

proof fn lemma_trim_start_behind_white_space(space: Seq<char>, s: Seq<char>)
    requires
        text::is_blank(space),
    ensures
        text::trim_start(space + s) == text::trim_start(s),
    decreases space.len(),
{
    if space.len() == 0 {
        assert(space + s =~= s);
    } else {
        assert((space + s)[0] == space[0]);
        assert(text::is_space(space[0]));
        assert((space + s).drop_first() =~= space.drop_first() + s);
        assert forall|i: int| 0 <= i < space.drop_first().len() implies text::is_space(
            #[trigger] space.drop_first()[i],
        ) by {
            assert(text::is_space(space[i + 1]));
        }
        lemma_trim_start_behind_white_space(space.drop_first(), s);
    }
}

/// The answer that a response carries is told word for word: where the frames of a response
/// are the given ones, one of them carries an answer, the answer ends with a candidate that
/// says `s`, and no later frame carries an answer, the text of the response is `s`.
pub proof fn law_answers_are_read_from_their_frames(
    space: Seq<char>,
    before: Seq<Seq<char>>,
    outer: Seq<char>,
    after: Seq<Seq<char>>,
    frame: Seq<Tree>,
    inner: Seq<char>,
    places: Seq<Tree>,
    others: Seq<Tree>,
    candidate: Seq<Tree>,
    texts: Seq<Tree>,
    s: Seq<char>,
)
    requires
        text::is_blank(space),
        forall|i: int| 0 <= i < before.len() ==> can_be_framed(#[trigger] before[i]),
        can_be_framed(outer),
        forall|i: int|
            0 <= i < after.len() ==> can_be_framed(#[trigger] after[i]) && carries_no_answer(
                after[i],
            ),
        json::parsed(text::trim(outer)) == Some(Tree::Array(seq![Tree::Array(frame)])),
        frame.len() > 2,
        frame[2] == Tree::Str(inner),
        json::parsed(inner) == Some(Tree::Array(places)),
        places.len() > 4,
        places[4] == Tree::Array(others.push(Tree::Array(candidate))),
        candidate.len() > 1,
        candidate[1] == Tree::Array(texts),
        texts.len() > 0,
        texts[0] == Tree::Str(s),
        !text::is_blank(s),
    ensures
        response_text(")]}'"@ + space + framed(before.push(outer) + after)) == s,
{
    let list = before.push(outer) + after;
    let raw = ")]}'"@ + space + framed(list);
    assert forall|i: int| 0 <= i < list.len() implies can_be_framed(#[trigger] list[i]) by {
        if i < before.len() {
            assert(list[i] == before[i]);
        } else if i > before.len() {
            assert(list[i] == after[i - before.len() - 1]);
        }
    }
    assert(raw =~= guard() + (space + framed(list)));
    law_guard_is_passed_over(space + framed(list));
    lemma_chunks_behind_white_space(space, framed(list));
    law_frames_are_read_back(list);
    let trimmed = list.map_values(|t: Seq<char>| text::trim(t));
    assert(chunks(unguarded(raw)) == trimmed);
    let values = parsed_all(trimmed);
    let first = parsed_all(before.map_values(|t: Seq<char>| text::trim(t)));
    let middle = Some(Tree::Array(seq![Tree::Array(frame)]));
    let last = parsed_all(after.map_values(|t: Seq<char>| text::trim(t)));
    assert(values =~= first.push(middle) + last);
    lemma_carried_of_both(first.push(middle), last);
    assert(first.push(middle).drop_last() =~= first);
    let told = carried(first.push(middle));
    assert(told =~= carried(first).push(Tree::Array(frame)));
    assert forall|i: int| 0 <= i < after.len() implies carries_no_answer(#[trigger] after[i]) by {
        assert(can_be_framed(after[i]));
    }
    lemma_nothing_is_answered(after, last);
    let all = answers(carried(values));
    let until = answers(carried(first)).push(Some(Tree::Array(places)));
    let silent = answers(carried(last));
    assert(all =~= until + silent) by {
        assert(carried(values) == told + carried(last));
        assert(told[carried(first).len() as int].item(2) == Some(Tree::Str(inner)));
    }
    assert forall|i: int| 0 <= i < silent.len() implies (#[trigger] silent[i]) is None by {
        assert(!(carried(last)[i].item(2) matches Some(Tree::Str(_))));
    }
    lemma_said_before_silence(until, silent);
    law_candidates_are_told_word_for_word(
        answers(carried(first)),
        places,
        others,
        candidate,
        texts,
        s,
    );
}

} // verus!
