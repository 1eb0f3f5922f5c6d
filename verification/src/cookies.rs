//! The cookies of a Gemini Web session, as one `Cookie` header.
use crate::config::GeminiClientConfig;
use crate::http;
use crate::text;
use vstd::prelude::*;

verus! {

/// What an optional setting says, where it is set: an empty one counts as not set.
pub open spec fn nonempty(value: Option<String>) -> Option<Seq<char>> {
    match value {
        Some(s) => if s@.len() > 0 {
            Some(s@)
        } else {
            None
        },
        None => None,
    }
}

/// The cookies that a client begins with.
pub open spec fn client_cookies(config: GeminiClientConfig) -> Seq<char> {
    match nonempty(config.cookie_header) {
        Some(header) => header,
        None => {
            let two = seq![
                "__Secure-1PSID="@ + config.secure_1psid@,
                "__Secure-1PSIDTS="@ + config.secure_1psidts@,
            ];
            match nonempty(config.secure_1psidcc) {
                Some(value) => text::join(two.push("__Secure-1PSIDCC="@ + value), "; "@),
                None => text::join(two, "; "@),
            }
        },
    }
}

/// The cookie of that name.
fn cookie(name: &str, value: &str) -> (r: String)
    ensures
        r@ == name@ + value@,
{
    let mut out = name.to_owned();
    out.append(value);
    out
}

pub fn cookie_header(config: &GeminiClientConfig) -> (r: String)
    ensures
        r@ == client_cookies(*config),
{
    if let Some(header) = &config.cookie_header {
        if !header.as_str().is_empty() {
            return header.clone();
        }
    }
    let mut parts = vec![
        cookie("__Secure-1PSID=", config.secure_1psid.as_str()),
        cookie("__Secure-1PSIDTS=", config.secure_1psidts.as_str()),
    ];
    let ghost two = text::views(parts@);
    assert(two =~= seq![
        "__Secure-1PSID="@ + config.secure_1psid@,
        "__Secure-1PSIDTS="@ + config.secure_1psidts@,
    ]);
    if let Some(value) = &config.secure_1psidcc {
        if !value.as_str().is_empty() {
            parts.push(cookie("__Secure-1PSIDCC=", value.as_str()));
            assert(text::views(parts@) =~= two.push("__Secure-1PSIDCC="@ + value@));
        }
    }
    text::joined(&parts, "; ")
}

/// The cookie that a `Set-Cookie` header sets: its name and value, without the attributes.
pub open spec fn set_pair(raw: Seq<char>) -> Seq<char> {
    text::trim(text::split(raw, ';')[0])
}

/// The name of a cookie.
pub open spec fn cookie_name(pair: Seq<char>) -> Option<Seq<char>> {
    match text::split_once(pair, '=') {
        Some((name, _)) => Some(name),
        None => None,
    }
}

/// Whether a `Cookie` header holds a cookie of that name.
pub open spec fn has_cookie(cookies: Seq<char>, name: Seq<char>) -> bool {
    exists|i: int|
        0 <= i < text::split(cookies, ';').len() && cookie_name(
            text::trim(#[trigger] text::split(cookies, ';')[i]),
        ) == Some(name)
}

/// A `Cookie` header after the answer set one more cookie: a cookie that is there
/// already stays as it is.
pub open spec fn with_cookie(cookies: Seq<char>, raw: Option<Seq<char>>) -> Seq<char> {
    match raw {
        Some(raw) => match cookie_name(set_pair(raw)) {
            Some(name) => if has_cookie(cookies, name) {
                cookies
            } else {
                cookies + "; "@ + set_pair(raw)
            },
            None => cookies,
        },
        None => cookies,
    }
}

/// A `Cookie` header after an answer set cookies, one after the other.
pub open spec fn with_cookies(cookies: Seq<char>, raws: Seq<Option<Seq<char>>>) -> Seq<char>
    decreases raws.len(),
{
    if raws.len() == 0 {
        cookies
    } else {
        with_cookie(with_cookies(cookies, raws.drop_last()), raws.last())
    }
}

/// What the `Set-Cookie` headers of an answer say, where they are visible text.
pub open spec fn opt_views(raws: Seq<Option<String>>) -> Seq<Option<Seq<char>>> {
    raws.map_values(|r: Option<String>| http::opt_text(r))
}

/// Whether a `Cookie` header holds a cookie of that name.
fn holds_cookie(cookies: &str, name: &str) -> (r: bool)
    ensures
        r == has_cookie(cookies@, name@),
{
    let pieces = text::split_on(cookies, ';');
    let ghost all = text::split(cookies@, ';');
    let mut i: usize = 0;
    while i < pieces.len()
        invariant
            i <= pieces@.len(),
            all == text::views(pieces@),
            all == text::split(cookies@, ';'),
            forall|k: int|
                0 <= k < i ==> cookie_name(
                    text::trim(#[trigger] text::split(cookies@, ';')[k]),
                ) != Some(name@),
        decreases pieces@.len() - i,
    {
        assert(all[i as int] == pieces@[i as int]@);
        let piece = text::trimmed(pieces[i].as_str());
        if let Some((existing, _)) = text::split_at_first(piece.as_str(), '=') {
            if text::same(existing.as_str(), name) {
                return true;
            }
        }
        i = i + 1;
    }
    false
}

pub fn merge_set_cookie(cookie_header: &mut String, set_cookies: &Vec<Option<String>>)
    ensures
        final(cookie_header)@ == with_cookies(old(cookie_header)@, opt_views(set_cookies@)),
{
    let ghost all = opt_views(set_cookies@);
    let ghost first = cookie_header@;
    let mut i: usize = 0;
    while i < set_cookies.len()
        invariant
            i <= set_cookies@.len(),
            all == opt_views(set_cookies@),
            cookie_header@ == with_cookies(first, all.take(i as int)),
        decreases set_cookies@.len() - i,
    {
        assert(all.take(i + 1).drop_last() == all.take(i as int));
        assert(all.take(i + 1).last() == http::opt_text(set_cookies@[i as int]));
        if let Some(raw) = &set_cookies[i] {
            let pieces = text::split_on(raw.as_str(), ';');
            assert(text::split(raw@, ';')[0] == pieces@[0]@);
            let pair = text::trimmed(pieces[0].as_str());
            if let Some((name, _)) = text::split_at_first(pair.as_str(), '=') {
                if !holds_cookie(cookie_header.as_str(), name.as_str()) {
                    cookie_header.append("; ");
                    cookie_header.append(pair.as_str());
                }
            }
        }
        i = i + 1;
    }
    assert(all.take(i as int) == all);
}

/// The header that is there stays at the front, whatever an answer sets.
pub proof fn law_merge_keeps_the_header(cookies: Seq<char>, raws: Seq<Option<Seq<char>>>)
    ensures
        text::starts_with(with_cookies(cookies, raws), cookies),
    decreases raws.len(),
{
    if raws.len() == 0 {
        assert(cookies.subrange(0, cookies.len() as int) == cookies);
    } else {
        law_merge_keeps_the_header(cookies, raws.drop_last());
        let before = with_cookies(cookies, raws.drop_last());
        let after = with_cookies(cookies, raws);
        assert(before.subrange(0, cookies.len() as int) == cookies);
        assert(after.subrange(0, cookies.len() as int) == before.subrange(0, cookies.len() as int));
    }
}

/// A cookie that is there stays there, whatever an answer sets.
proof fn lemma_cookie_stays(cookies: Seq<char>, raw: Option<Seq<char>>, name: Seq<char>)
    requires
        has_cookie(cookies, name),
    ensures
        has_cookie(with_cookie(cookies, raw), name),
{
    let after = with_cookie(cookies, raw);
    if after != cookies {
        let pair = set_pair(raw->0);
        lemma_added_piece(cookies, pair);
        let i = choose|i: int|
            0 <= i < text::split(cookies, ';').len() && cookie_name(
                text::trim(#[trigger] text::split(cookies, ';')[i]),
            ) == Some(name);
        assert(text::split(after, ';')[i] == text::split(cookies, ';')[i]);
    }
}

/// The pieces of a header to which a cookie is added.
proof fn lemma_added_piece(cookies: Seq<char>, pair: Seq<char>)
    ensures
        text::split(cookies + "; "@ + pair, ';') == text::split(cookies, ';') + text::split(
            seq![' '] + pair,
            ';',
        ),
{
    reveal_strlit("; ");
    assert(cookies + "; "@ + pair == cookies + seq![';'] + (seq![' '] + pair));
    text::lemma_split_concat(cookies, seq![' '] + pair, ';');
}

/// After an answer set a cookie, a cookie of its name is there.
pub proof fn law_set_cookie_is_there(cookies: Seq<char>, raw: Seq<char>)
    ensures
        cookie_name(set_pair(raw)) matches Some(name) ==> has_cookie(
            with_cookie(cookies, Some(raw)),
            name,
        ),
{
    if let Some(name) = cookie_name(set_pair(raw)) {
        if !has_cookie(cookies, name) {
            let pair = set_pair(raw);
            let piece = text::split(raw, ';')[0];
            text::lemma_split_has_pieces(raw, ';');
            text::lemma_split_pieces(raw, ';', 0);
            text::lemma_trim_start(piece);
            text::lemma_trim_end(text::trim_start(piece));
            text::lemma_trim_twice(piece);
            let added = seq![' '] + pair;
            assert(!added.contains(';')) by {
                if added.contains(';') {
                    let k = choose|k: int| 0 <= k < added.len() && added[k] == ';';
                    assert(k > 0);
                    let from = piece.len() - text::trim_start(piece).len();
                    assert(piece[from + k - 1] == ';');
                    assert(piece.contains(';'));
                }
            }
            text::lemma_split_whole(added, ';');
            lemma_added_piece(cookies, pair);
            assert(added.drop_first() == pair);
            assert(text::trim(added) == text::trim(pair));
            let last = text::split(cookies, ';').len() as int;
            assert(text::split(with_cookie(cookies, Some(raw)), ';')[last] == added);
        }
    }
}

/// A cookie that is there stays there, whatever an answer sets.
pub proof fn law_merge_keeps_cookies(
    cookies: Seq<char>,
    raws: Seq<Option<Seq<char>>>,
    name: Seq<char>,
)
    requires
        has_cookie(cookies, name),
    ensures
        has_cookie(with_cookies(cookies, raws), name),
    decreases raws.len(),
{
    if raws.len() > 0 {
        law_merge_keeps_cookies(cookies, raws.drop_last(), name);
        lemma_cookie_stays(with_cookies(cookies, raws.drop_last()), raws.last(), name);
    }
}

/// After an answer set cookies, each of them is there.
proof fn lemma_all_are_there(cookies: Seq<char>, raws: Seq<Option<Seq<char>>>, i: int)
    requires
        0 <= i < raws.len(),
        raws[i] is Some,
    ensures
        cookie_name(set_pair(raws[i]->0)) matches Some(name) ==> has_cookie(
            with_cookies(cookies, raws),
            name,
        ),
    decreases raws.len(),
{
    let before = with_cookies(cookies, raws.drop_last());
    if i == raws.len() - 1 {
        law_set_cookie_is_there(before, raws[i]->0);
    } else {
        lemma_all_are_there(cookies, raws.drop_last(), i);
        if let Some(name) = cookie_name(set_pair(raws[i]->0)) {
            lemma_cookie_stays(before, raws.last(), name);
        }
    }
}

/// The same answer, merged once more, changes nothing.
pub proof fn law_merge_twice_is_merge_once(cookies: Seq<char>, raws: Seq<Option<Seq<char>>>)
    ensures
        with_cookies(with_cookies(cookies, raws), raws) == with_cookies(cookies, raws),
{
    let once = with_cookies(cookies, raws);
    assert forall|i: int| 0 <= i < raws.len() implies with_cookie(once, #[trigger] raws[i])
        == once by {
        if raws[i] is Some {
            lemma_all_are_there(cookies, raws, i);
        }
    }
    lemma_merge_of_known_cookies(once, raws);
}

/// Cookies that are all there already change nothing.
proof fn lemma_merge_of_known_cookies(cookies: Seq<char>, raws: Seq<Option<Seq<char>>>)
    requires
        forall|i: int| 0 <= i < raws.len() ==> with_cookie(cookies, #[trigger] raws[i]) == cookies,
    ensures
        with_cookies(cookies, raws) == cookies,
    decreases raws.len(),
{
    if raws.len() > 0 {
        assert forall|i: int| 0 <= i < raws.drop_last().len() implies with_cookie(
            cookies,
            #[trigger] raws.drop_last()[i],
        ) == cookies by {
            assert(raws.drop_last()[i] == raws[i]);
        }
        lemma_merge_of_known_cookies(cookies, raws.drop_last());
        assert(raws.last() == raws[raws.len() - 1]);
    }
}

/// A client begins with its whole cookie header where it has one, else with its single cookies
/// in their order, of which the last one may be missing.
pub proof fn law_clients_begin_with_their_cookies(config: GeminiClientConfig)
    ensures
        config.cookie_header matches Some(header) ==> header@.len() > 0 ==> client_cookies(config)
            == header@,
        nonempty(config.cookie_header) is None ==> {
            let two = "__Secure-1PSID="@ + config.secure_1psid@ + "; "@ + "__Secure-1PSIDTS="@
                + config.secure_1psidts@;
            &&& config.secure_1psidcc is None ==> client_cookies(config) == two
            &&& config.secure_1psidcc matches Some(cc) ==> if cc@.len() == 0 {
                client_cookies(config) == two
            } else {
                client_cookies(config) == two + "; "@ + "__Secure-1PSIDCC="@ + cc@
            }
        },
{
    let a = "__Secure-1PSID="@ + config.secure_1psid@;
    let b = "__Secure-1PSIDTS="@ + config.secure_1psidts@;
    let two = "__Secure-1PSID="@ + config.secure_1psid@ + "; "@ + "__Secure-1PSIDTS="@
        + config.secure_1psidts@;
    text::law_join_puts_the_separator_between(seq![a], a, "; "@);
    text::law_join_puts_the_separator_between(seq![a], b, "; "@);
    assert(seq![a].push(b) =~= seq![a, b]);
    assert(text::join(seq![a, b], "; "@) =~= two);
    match config.secure_1psidcc {
        Some(cc) => {
            let c = "__Secure-1PSIDCC="@ + cc@;
            text::law_join_puts_the_separator_between(seq![a, b], c, "; "@);
            assert(text::join(seq![a, b].push(c), "; "@) =~= two + "; "@ + "__Secure-1PSIDCC="@
                + cc@);
        },
        None => {},
    }
}

/// Whether a cookie can stand in a header: its name and its value hold no semicolon, its name
/// no equals sign, and no white space stands at its ends.
pub open spec fn is_cookie(name: Seq<char>, value: Seq<char>) -> bool {
    &&& !name.contains('=')
    &&& !name.contains(';')
    &&& !value.contains(';')
    &&& name.len() > 0
    &&& !text::is_space(name[0])
    &&& value.len() > 0 ==> !text::is_space(value.last())
}

/// A cookie as it stands in a header.
pub open spec fn pair_text(name: Seq<char>, value: Seq<char>) -> Seq<char> {
    name + seq!['='] + value
}

proof fn lemma_pair(name: Seq<char>, value: Seq<char>)
    requires
        is_cookie(name, value),
    ensures
        !pair_text(name, value).contains(';'),
        text::trim(pair_text(name, value)) == pair_text(name, value),
        text::trim(seq![' '] + pair_text(name, value)) == pair_text(name, value),
        cookie_name(pair_text(name, value)) == Some(name),
{
    let pair = pair_text(name, value);
    let none = Seq::<char>::empty();
    assert(!pair.contains(';')) by {
        if pair.contains(';') {
            let k = choose|k: int| 0 <= k < pair.len() && pair[k] == ';';
            if k < name.len() {
                assert(name.contains(name[k]));
            } else if k > name.len() {
                assert(value.contains(value[k - name.len() - 1]));
            }
        }
    }
    assert(pair[0] == name[0]);
    assert(pair.last() == if value.len() > 0 {
        value.last()
    } else {
        '='
    });
    text::law_trim_takes_white_space_alone(none, pair, none);
    text::law_trim_takes_white_space_alone(seq![' '], pair, none);
    assert(none + pair + none =~= pair);
    assert(seq![' '] + pair + none =~= seq![' '] + pair);
    assert forall|i: int| 0 <= i < name.len() implies #[trigger] name[i] != '=' by {
        assert(name.contains(name[i]));
    }
    text::lemma_split_once(name, '=', value);
}

/// The cookies of a header that is made of cookies are found by their names, and no others.
pub proof fn law_cookies_are_found_by_name(
    header: Seq<char>,
    name: Seq<char>,
    value: Seq<char>,
    other: Seq<char>,
)
    requires
        is_cookie(name, value),
    ensures
        has_cookie(header + "; "@ + pair_text(name, value), name),
        other != name ==> (has_cookie(header + "; "@ + pair_text(name, value), other)
            <==> has_cookie(header, other)),
        has_cookie(pair_text(name, value), other) <==> other == name,
{
    let pair = pair_text(name, value);
    let all = header + "; "@ + pair;
    let added = seq![' '] + pair;
    lemma_pair(name, value);
    lemma_added_piece(header, pair);
    assert(!added.contains(';')) by {
        if added.contains(';') {
            let k = choose|k: int| 0 <= k < added.len() && added[k] == ';';
            assert(pair.contains(pair[k - 1]));
        }
    }
    text::lemma_split_whole(added, ';');
    text::lemma_split_whole(pair, ';');
    let old = text::split(header, ';');
    let new = text::split(all, ';');
    assert(new =~= old.push(added));
    assert(cookie_name(text::trim(new[old.len() as int])) == Some(name));
    if has_cookie(header, other) {
        let i = choose|i: int|
            0 <= i < old.len() && cookie_name(
                text::trim(#[trigger] text::split(header, ';')[i]),
            ) == Some(other);
        assert(new[i] == old[i]);
        assert(has_cookie(all, other));
    }
    if other != name && has_cookie(all, other) {
        let i = choose|i: int|
            0 <= i < new.len() && cookie_name(text::trim(#[trigger] text::split(all, ';')[i]))
                == Some(other);
        assert(i < old.len());
        assert(cookie_name(text::trim(text::split(header, ';')[i])) == Some(other));
    }
    let one = text::split(pair, ';');
    assert(one[0] == pair);
    if other == name {
        assert(cookie_name(text::trim(text::split(pair, ';')[0])) == Some(other));
    }
}

/// A cookie that an answer sets is appended to the header with its value and without its
/// attributes, unless a cookie of its name is there: that one stays as it is.
pub proof fn law_new_cookies_are_appended(
    header: Seq<char>,
    name: Seq<char>,
    value: Seq<char>,
    attributes: Seq<char>,
)
    requires
        is_cookie(name, value),
    ensures
        ({
            let pair = pair_text(name, value);
            let after = if has_cookie(header, name) {
                header
            } else {
                header + "; "@ + pair
            };
            &&& with_cookie(header, Some(pair)) == after
            &&& with_cookie(header, Some(pair + seq![';'] + attributes)) == after
        }),
        with_cookie(header, None) == header,
{
    let pair = pair_text(name, value);
    lemma_pair(name, value);
    text::lemma_split_whole(pair, ';');
    text::lemma_split_concat(pair, attributes, ';');
    assert(text::split(pair + seq![';'] + attributes, ';')[0] == pair);
    assert(text::split(pair, ';')[0] == pair);
}

/// What an answer sets is merged cookie by cookie.
pub proof fn law_cookies_are_merged_one_by_one(
    header: Seq<char>,
    raws: Seq<Option<Seq<char>>>,
    raw: Option<Seq<char>>,
)
    ensures
        with_cookies(header, Seq::empty()) == header,
        with_cookies(header, raws.push(raw)) == with_cookie(with_cookies(header, raws), raw),
{
    assert(raws.push(raw).drop_last() =~= raws);
}

} // verus!
