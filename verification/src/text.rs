//! Text as a sequence of characters: the string operations that the rest of
//! the library is written with, each with its meaning over `Seq<char>`.
use vstd::prelude::*;

verus! {

/// `String::push` of the standard library: appends one character.
pub assume_specification[ String::push ](s: &mut String, c: char)
    ensures
        final(s)@ == old(s)@.push(c),
;

/// The Unicode property `White_Space`.
pub open spec fn is_space(c: char) -> bool {
    let u = c as u32;
    ||| 0x9 <= u <= 0xd
    ||| u == 0x20
    ||| u == 0x85
    ||| u == 0xa0
    ||| u == 0x1680
    ||| 0x2000 <= u <= 0x200a
    ||| u == 0x2028
    ||| u == 0x2029
    ||| u == 0x202f
    ||| u == 0x205f
    ||| u == 0x3000
}

/// Whether `c` is white space.
pub fn char_is_space(c: char) -> (r: bool)
    ensures
        r == is_space(c),
{
    let u: u32 = c as u32;
    (0x9 <= u && u <= 0xd) || u == 0x20 || u == 0x85 || u == 0xa0 || u == 0x1680 || (0x2000 <= u
        && u <= 0x200a) || u == 0x2028 || u == 0x2029 || u == 0x202f || u == 0x205f || u == 0x3000
}

/// The characters of a text.
pub fn chars_of(s: &str) -> (r: Vec<char>)
    ensures
        r@ == s@,
{
    let mut out: Vec<char> = Vec::new();
    for c in it: s.chars()
        invariant
            out@ == it.seq().take(it.index()),
            it.seq() == s@,
    {
        out.push(c);
    }
    out
}

/// The text of the characters from `from` up to `to`.
pub fn text_between(chars: &Vec<char>, from: usize, to: usize) -> (r: String)
    requires
        from <= to <= chars@.len(),
    ensures
        r@ == chars@.subrange(from as int, to as int),
{
    let mut out = String::new();
    let mut i: usize = from;
    while i < to
        invariant
            from <= i <= to <= chars@.len(),
            out@ == chars@.subrange(from as int, i as int),
        decreases to - i,
    {
        out.push(chars[i]);
        i = i + 1;
    }
    out
}

/// `s` without its leading white space.
pub open spec fn trim_start(s: Seq<char>) -> Seq<char>
    decreases s.len(),
{
    if s.len() > 0 && is_space(s[0]) {
        trim_start(s.drop_first())
    } else {
        s
    }
}

/// `s` without its trailing white space.
pub open spec fn trim_end(s: Seq<char>) -> Seq<char>
    decreases s.len(),
{
    if s.len() > 0 && is_space(s.last()) {
        trim_end(s.drop_last())
    } else {
        s
    }
}

/// `s` without the white space at either end.
pub open spec fn trim(s: Seq<char>) -> Seq<char> {
    trim_end(trim_start(s))
}

/// `s` without the white space at either end.
pub fn trimmed(s: &str) -> (r: String)
    ensures
        r@ == trim(s@),
{
    let chars = chars_of(s);
    let n: usize = chars.len();
    let mut i: usize = 0;
    assert(chars@.subrange(0, n as int) == chars@);
    while i < n && char_is_space(chars[i])
        invariant
            n == chars@.len(),
            i <= n,
            trim_start(chars@) == trim_start(chars@.subrange(i as int, n as int)),
        decreases n - i,
    {
        assert(chars@.subrange(i as int, n as int).drop_first() == chars@.subrange(
            i + 1,
            n as int,
        ));
        i = i + 1;
    }
    let mut j: usize = n;
    while j > i && char_is_space(chars[j - 1])
        invariant
            n == chars@.len(),
            i <= j <= n,
            trim(chars@) == trim_end(chars@.subrange(i as int, j as int)),
        decreases j - i,
    {
        assert(chars@.subrange(i as int, j as int).drop_last() == chars@.subrange(
            i as int,
            j - 1,
        ));
        j = j - 1;
    }
    text_between(&chars, i, j)
}

/// An ASCII capital as its small letter, any other character as it is.
pub open spec fn lower(c: char) -> char {
    if 'A' as u32 <= c as u32 <= 'Z' as u32 {
        ((c as u32 + 32) as u32) as char
    } else {
        c
    }
}

/// `s` with its ASCII capitals as small letters.
pub open spec fn ascii_lower(s: Seq<char>) -> Seq<char> {
    s.map_values(|c: char| lower(c))
}

/// `lower`, computed.
pub fn char_lower(c: char) -> (r: char)
    ensures
        r == lower(c),
{
    if 65 <= c as u32 && c as u32 <= 90 {
        ((c as u8) + 32) as char
    } else {
        c
    }
}

/// `s` with its ASCII capitals as small letters.
pub fn ascii_lowercase(s: &str) -> (r: String)
    ensures
        r@ == ascii_lower(s@),
{
    let mut out = String::new();
    for c in it: s.chars()
        invariant
            out@ == ascii_lower(it.seq().take(it.index())),
            it.seq() == s@,
    {
        out.push(char_lower(c));
        assert(ascii_lower(s@.take(it.index() + 1)) == ascii_lower(s@.take(it.index())).push(
            lower(c),
        ));
    }
    out
}

/// An ASCII small letter as its capital, any other character as it is.
pub open spec fn upper(c: char) -> char {
    if 'a' as u32 <= c as u32 <= 'z' as u32 {
        ((c as u32 - 32) as u32) as char
    } else {
        c
    }
}

/// `s` with its ASCII small letters as capitals.
pub open spec fn ascii_upper(s: Seq<char>) -> Seq<char> {
    s.map_values(|c: char| upper(c))
}

/// `upper`, computed.
pub fn char_upper(c: char) -> (r: char)
    ensures
        r == upper(c),
{
    if 97 <= c as u32 && c as u32 <= 122 {
        ((c as u8) - 32) as char
    } else {
        c
    }
}

/// `s` with its ASCII small letters as capitals.
pub fn ascii_uppercase(s: &str) -> (r: String)
    ensures
        r@ == ascii_upper(s@),
{
    let mut out = String::new();
    for c in it: s.chars()
        invariant
            out@ == ascii_upper(it.seq().take(it.index())),
            it.seq() == s@,
    {
        out.push(char_upper(c));
        assert(ascii_upper(s@.take(it.index() + 1)) == ascii_upper(s@.take(it.index())).push(
            upper(c),
        ));
    }
    out
}

/// Whether `p` stands in `s` at position `i`.
pub open spec fn occurs_at(s: Seq<char>, p: Seq<char>, i: int) -> bool {
    0 <= i && i + p.len() <= s.len() && s.subrange(i, i + p.len()) == p
}

/// Whether `p` stands anywhere in `s`.
pub open spec fn contains(s: Seq<char>, p: Seq<char>) -> bool {
    exists|i: int| occurs_at(s, p, i)
}

/// Whether `i` is the leftmost place of `p` in `s`.
pub open spec fn occurs_first_at(s: Seq<char>, p: Seq<char>, i: int) -> bool {
    occurs_at(s, p, i) && forall|j: int| 0 <= j < i ==> !occurs_at(s, p, j)
}

/// Whether `i` is the rightmost place of `p` in `s`.
pub open spec fn occurs_last_at(s: Seq<char>, p: Seq<char>, i: int) -> bool {
    occurs_at(s, p, i) && forall|j: int| i < j ==> !occurs_at(s, p, j)
}

/// The leftmost place of `p` in `s`, if there is one.
pub open spec fn first_index(s: Seq<char>, p: Seq<char>) -> Option<int> {
    if contains(s, p) {
        Some(choose|i: int| occurs_first_at(s, p, i))
    } else {
        None
    }
}

/// The rightmost place of `p` in `s`, if there is one.
pub open spec fn last_index(s: Seq<char>, p: Seq<char>) -> Option<int> {
    if contains(s, p) {
        Some(choose|i: int| occurs_last_at(s, p, i))
    } else {
        None
    }
}

/// There is only one leftmost place.
pub proof fn lemma_first_index(s: Seq<char>, p: Seq<char>, i: int)
    requires
        occurs_first_at(s, p, i),
    ensures
        first_index(s, p) == Some(i),
{
    assert(occurs_at(s, p, i));
    let k = choose|k: int| occurs_first_at(s, p, k);
    assert(occurs_first_at(s, p, k));
    if k < i {
        assert(!occurs_at(s, p, k));
    }
    if i < k {
        assert(!occurs_at(s, p, i));
    }
}

/// There is only one rightmost place.
pub proof fn lemma_last_index(s: Seq<char>, p: Seq<char>, i: int)
    requires
        occurs_last_at(s, p, i),
    ensures
        last_index(s, p) == Some(i),
{
    assert(occurs_at(s, p, i));
    let k = choose|k: int| occurs_last_at(s, p, k);
    assert(occurs_last_at(s, p, k));
    if k < i {
        assert(!occurs_at(s, p, i));
    }
    if i < k {
        assert(!occurs_at(s, p, k));
    }
}

/// Whether `p` stands in `s` at position `i`.
fn stands_at(s: &Vec<char>, p: &Vec<char>, i: usize) -> (r: bool)
    requires
        i <= s@.len(),
    ensures
        r == occurs_at(s@, p@, i as int),
{
    if p.len() > s.len() - i {
        return false;
    }
    let n: usize = s.len();
    let mut k: usize = 0;
    while k < p.len()
        invariant
            n == s@.len(),
            i + p@.len() <= n,
            k <= p@.len(),
            s@.subrange(i as int, i + k) == p@.take(k as int),
        decreases p@.len() - k,
    {
        if s[i + k] != p[k] {
            proof {
                if occurs_at(s@, p@, i as int) {
                    assert(s@.subrange(i as int, i + p@.len())[k as int] == p@[k as int]);
                }
            }
            return false;
        }
        assert(s@.subrange(i as int, i + k + 1) == p@.take(k + 1));
        k = k + 1;
    }
    assert(p@.take(k as int) == p@);
    true
}

/// The leftmost place of `p` in `s`.
pub fn find(s: &Vec<char>, p: &Vec<char>) -> (r: Option<usize>)
    ensures
        match r {
            Some(i) => first_index(s@, p@) == Some(i as int) && occurs_at(s@, p@, i as int),
            None => first_index(s@, p@) is None,
        },
{
    let mut i: usize = 0;
    loop
        invariant
            i <= s@.len(),
            forall|j: int| 0 <= j < i ==> !occurs_at(s@, p@, j),
        decreases s@.len() - i,
    {
        if stands_at(s, p, i) {
            proof {
                lemma_first_index(s@, p@, i as int);
            }
            return Some(i);
        }
        if i == s.len() {
            return None;
        }
        i = i + 1;
    }
}

/// The rightmost place of `p` in `s`.
pub fn rfind(s: &Vec<char>, p: &Vec<char>) -> (r: Option<usize>)
    ensures
        match r {
            Some(i) => last_index(s@, p@) == Some(i as int) && occurs_at(s@, p@, i as int),
            None => last_index(s@, p@) is None,
        },
{
    let mut i: usize = s.len();
    loop
        invariant
            i <= s@.len(),
            forall|j: int| i < j ==> !occurs_at(s@, p@, j),
        decreases i,
    {
        if stands_at(s, p, i) {
            proof {
                lemma_last_index(s@, p@, i as int);
            }
            return Some(i);
        }
        if i == 0 {
            assert(forall|j: int| !occurs_at(s@, p@, j));
            return None;
        }
        i = i - 1;
    }
}

/// Whether `needle` stands anywhere in `s`.
pub fn has(s: &str, needle: &str) -> (r: bool)
    ensures
        r == contains(s@, needle@),
{
    find(&chars_of(s), &chars_of(needle)).is_some()
}

/// Whether `s` begins with `p`.
pub open spec fn starts_with(s: Seq<char>, p: Seq<char>) -> bool {
    occurs_at(s, p, 0)
}

/// Whether `s` ends with `p`.
pub open spec fn ends_with(s: Seq<char>, p: Seq<char>) -> bool {
    occurs_at(s, p, s.len() - p.len())
}

/// Whether `s` begins with `prefix`.
pub fn has_prefix(s: &str, prefix: &str) -> (r: bool)
    ensures
        r == starts_with(s@, prefix@),
{
    stands_at(&chars_of(s), &chars_of(prefix), 0)
}

/// Whether `s` ends with `suffix`.
pub fn has_suffix(s: &str, suffix: &str) -> (r: bool)
    ensures
        r == ends_with(s@, suffix@),
{
    let chars = chars_of(s);
    let tail = chars_of(suffix);
    if tail.len() > chars.len() {
        return false;
    }
    let at: usize = chars.len() - tail.len();
    stands_at(&chars, &tail, at)
}

/// Whether two texts are the same.
pub fn same(a: &str, b: &str) -> (r: bool)
    ensures
        r == (a@ == b@),
{
    let left = chars_of(a);
    let right = chars_of(b);
    if left.len() != right.len() {
        return false;
    }
    let found = stands_at(&left, &right, 0);
    assert(left@.subrange(0, left@.len() as int) == left@);
    found
}

/// The texts of `parts`, with `sep` between each two.
pub open spec fn join(parts: Seq<Seq<char>>, sep: Seq<char>) -> Seq<char>
    decreases parts.len(),
{
    if parts.len() == 0 {
        Seq::empty()
    } else if parts.len() == 1 {
        parts[0]
    } else {
        join(parts.drop_last(), sep) + sep + parts.last()
    }
}

/// What the strings of a list say.
pub open spec fn views(parts: Seq<String>) -> Seq<Seq<char>> {
    parts.map_values(|p: String| p@)
}

/// The strings of `parts`, with `sep` between each two.
pub fn joined(parts: &Vec<String>, sep: &str) -> (r: String)
    ensures
        r@ == join(views(parts@), sep@),
{
    let mut out = String::new();
    let mut i: usize = 0;
    while i < parts.len()
        invariant
            i <= parts@.len(),
            out@ == join(views(parts@).take(i as int), sep@),
        decreases parts@.len() - i,
    {
        proof {
            let next = views(parts@).take(i + 1);
            assert(next.drop_last() == views(parts@).take(i as int));
            assert(next.last() == parts@[i as int]@);
        }
        if i > 0 {
            out.append(sep);
        }
        out.append(parts[i].as_str());
        i = i + 1;
    }
    assert(views(parts@).take(i as int) == views(parts@));
    out
}

/// The decimal digit of `d`.
pub open spec fn digit(d: nat) -> char {
    (('0' as u32) + d) as char
}

/// `n` written in decimal.
pub open spec fn decimal(n: nat) -> Seq<char>
    decreases n,
{
    if n < 10 {
        seq![digit(n)]
    } else {
        decimal(n / 10).push(digit(n % 10))
    }
}

/// `n` written in decimal.
pub fn decimal_text(n: u64) -> (r: String)
    ensures
        r@ == decimal(n as nat),
    decreases n,
{
    let d: char = (48u8 + (n % 10) as u8) as char;
    if n < 10 {
        let mut out = String::new();
        out.push(d);
        out
    } else {
        let mut out = decimal_text(n / 10);
        out.push(d);
        out
    }
}

/// `s` before and after the leftmost `c`, if `c` stands in it.
pub open spec fn split_once(s: Seq<char>, c: char) -> Option<(Seq<char>, Seq<char>)> {
    match first_index(s, seq![c]) {
        Some(i) => Some((s.take(i), s.skip(i + 1))),
        None => None,
    }
}

/// `s` before and after the leftmost `c`.
pub fn split_at_first(s: &str, c: char) -> (r: Option<(String, String)>)
    ensures
        match r {
            Some((a, b)) => split_once(s@, c) == Some((a@, b@)),
            None => split_once(s@, c) is None,
        },
{
    let chars = chars_of(s);
    let mut mark: Vec<char> = Vec::new();
    mark.push(c);
    assert(mark@ == seq![c]);
    match find(&chars, &mark) {
        Some(i) => {
            let head = text_between(&chars, 0, i);
            let n: usize = chars.len();
            let tail = text_between(&chars, i + 1, n);
            assert(tail@ == s@.skip(i + 1));
            assert(head@ == s@.take(i as int));
            Some((head, tail))
        },
        None => None,
    }
}

/// The pieces of `s` between the places where `c` stands.
pub open spec fn split(s: Seq<char>, c: char) -> Seq<Seq<char>>
    decreases s.len(),
{
    if s.len() == 0 {
        seq![Seq::empty()]
    } else {
        let pieces = split(s.drop_last(), c);
        if s.last() == c {
            pieces.push(Seq::empty())
        } else {
            pieces.drop_last().push(pieces.last().push(s.last()))
        }
    }
}

/// The pieces of `s` between the places where `c` stands.
pub fn split_on(s: &str, c: char) -> (r: Vec<String>)
    ensures
        views(r@) == split(s@, c),
        r@.len() > 0,
{
    let chars = chars_of(s);
    let mut out: Vec<String> = Vec::new();
    let mut current = String::new();
    let mut i: usize = 0;
    assert(views(out@).push(current@) == seq![Seq::<char>::empty()]);
    while i < chars.len()
        invariant
            i <= chars@.len(),
            views(out@).push(current@) == split(chars@.take(i as int), c),
        decreases chars@.len() - i,
    {
        let ghost before = views(out@).push(current@);
        assert(chars@.take(i + 1).drop_last() == chars@.take(i as int));
        assert(before.drop_last() == views(out@));
        if chars[i] == c {
            let ghost done = out@;
            let piece = current;
            out.push(piece);
            current = String::new();
            assert(views(out@) == before);
        } else {
            current.push(chars[i]);
        }
        i = i + 1;
    }
    assert(chars@.take(i as int) == s@);
    let ghost pieces = views(out@).push(current@);
    out.push(current);
    assert(views(out@) == pieces);
    out
}

/// `s` without a carriage return at its end.
pub open spec fn strip_return(s: Seq<char>) -> Seq<char> {
    if s.len() > 0 && s.last() == '\r' {
        s.drop_last()
    } else {
        s
    }
}

/// The lines of `s`: each ends with a line feed, or with a carriage return
/// and a line feed; after the last one the line ending may be missing.
pub open spec fn lines(s: Seq<char>) -> Seq<Seq<char>> {
    let pieces = split(s, '\n');
    let ended = pieces.drop_last().map_values(|p: Seq<char>| strip_return(p));
    if pieces.last().len() == 0 {
        ended
    } else {
        ended.push(pieces.last())
    }
}

/// The lines of `s`.
pub fn lines_of(s: &str) -> (r: Vec<String>)
    ensures
        views(r@) == lines(s@),
{
    let pieces = split_on(s, '\n');
    let last: usize = pieces.len() - 1;
    let mut out: Vec<String> = Vec::new();
    let mut i: usize = 0;
    while i < last
        invariant
            i <= last,
            last + 1 == pieces@.len(),
            views(pieces@) == split(s@, '\n'),
            views(out@) == split(s@, '\n').take(i as int).map_values(
                |p: Seq<char>| strip_return(p),
            ),
        decreases last - i,
    {
        let chars = chars_of(pieces[i].as_str());
        let n: usize = chars.len();
        let ghost earlier = out@;
        if n > 0 && chars[n - 1] == '\r' {
            out.push(text_between(&chars, 0, n - 1));
        } else {
            out.push(text_between(&chars, 0, n));
        }
        assert(split(s@, '\n')[i as int] == pieces@[i as int]@);
        assert(out@.last()@ == strip_return(split(s@, '\n')[i as int]));
        assert(views(out@) == views(earlier).push(out@.last()@));
        assert(split(s@, '\n').take(i + 1).map_values(|p: Seq<char>| strip_return(p)) == split(
            s@,
            '\n',
        ).take(i as int).map_values(|p: Seq<char>| strip_return(p)).push(
            strip_return(split(s@, '\n')[i as int]),
        ));
        i = i + 1;
    }
    assert(split(s@, '\n').take(i as int) == split(s@, '\n').drop_last());
    assert(split(s@, '\n').last() == pieces@[last as int]@);
    if !pieces[last].as_str().is_empty() {
        let ghost earlier = out@;
        out.push(pieces[last].clone());
        assert(views(out@) == views(earlier).push(pieces@[last as int]@));
    }
    out
}

/// Whether `c` is one of `0` to `9`.
pub open spec fn is_digit(c: char) -> bool {
    '0' as u32 <= c as u32 <= '9' as u32
}

/// Whether `c` is one of `0` to `9`.
pub fn char_is_digit(c: char) -> (r: bool)
    ensures
        r == is_digit(c),
{
    48 <= c as u32 && c as u32 <= 57
}

/// Whether `s` holds digits alone.
pub open spec fn all_digits(s: Seq<char>) -> bool {
    forall|i: int| 0 <= i < s.len() ==> is_digit(#[trigger] s[i])
}

/// The number that the digits of `s` write.
pub open spec fn digits_value(s: Seq<char>) -> nat
    decreases s.len(),
{
    if s.len() == 0 {
        0
    } else {
        digits_value(s.drop_last()) * 10 + (s.last() as u32 - '0' as u32) as nat
    }
}

/// More digits never write a smaller number.
proof fn lemma_digits_value_grows(s: Seq<char>, k: int)
    requires
        0 <= k <= s.len(),
    ensures
        digits_value(s.take(k)) <= digits_value(s),
    decreases s.len(),
{
    if k == s.len() {
        assert(s.take(k) == s);
    } else {
        lemma_digits_value_grows(s.drop_last(), k);
        assert(s.drop_last().take(k) == s.take(k));
    }
}

/// The number that the digits from `from` up to `to` write, unless it exceeds `limit`.
pub fn digits_number(chars: &Vec<char>, from: usize, to: usize, limit: u64) -> (r: Option<u64>)
    requires
        from <= to <= chars@.len(),
        all_digits(chars@.subrange(from as int, to as int)),
    ensures
        match r {
            Some(n) => n == digits_value(chars@.subrange(from as int, to as int)) && n <= limit,
            None => digits_value(chars@.subrange(from as int, to as int)) > limit,
        },
{
    let ghost all = chars@.subrange(from as int, to as int);
    let mut value: u64 = 0;
    let mut i: usize = from;
    while i < to
        invariant
            from <= i <= to <= chars@.len(),
            all == chars@.subrange(from as int, to as int),
            all_digits(all),
            value == digits_value(all.take(i - from)),
            value <= limit,
        decreases to - i,
    {
        let c: char = chars[i];
        assert(c == all[i - from]);
        let d: u64 = (c as u32 - 48) as u64;
        proof {
            assert(all.take(i + 1 - from).drop_last() == all.take(i - from));
            assert(digits_value(all.take(i + 1 - from)) == value * 10 + d);
            lemma_digits_value_grows(all, i + 1 - from);
        }
        if d > limit || value > (limit - d) / 10 {
            return None;
        }
        value = value * 10 + d;
        i = i + 1;
    }
    assert(all.take(i - from) == all);
    Some(value)
}

/// The number that `s` writes in decimal, after a plus sign if there is one,
/// where it is at most `limit`.
pub open spec fn unsigned(s: Seq<char>, limit: nat) -> Option<nat> {
    let d = if s.len() > 0 && s[0] == '+' {
        s.skip(1)
    } else {
        s
    };
    if d.len() > 0 && all_digits(d) && digits_value(d) <= limit {
        Some(digits_value(d))
    } else {
        None
    }
}

/// The number of 32 bits that `s` writes.
pub fn parse_u32(s: &str) -> (r: Option<u32>)
    ensures
        match r {
            Some(n) => unsigned(s@, u32::MAX as nat) == Some(n as nat),
            None => unsigned(s@, u32::MAX as nat) is None,
        },
{
    let chars = chars_of(s);
    let n: usize = chars.len();
    let from: usize = if n > 0 && chars[0] == '+' {
        1
    } else {
        0
    };
    let ghost d = chars@.subrange(from as int, n as int);
    assert(d == if s@.len() > 0 && s@[0] == '+' {
        s@.skip(1)
    } else {
        s@
    });
    if from == n {
        return None;
    }
    let mut i: usize = from;
    while i < n
        invariant
            from <= i <= n,
            n == chars@.len(),
            d == chars@.subrange(from as int, n as int),
            d == (if s@.len() > 0 && s@[0] == '+' {
                s@.skip(1)
            } else {
                s@
            }),
            forall|k: int| 0 <= k < i - from ==> is_digit(#[trigger] d[k]),
        decreases n - i,
    {
        if !char_is_digit(chars[i]) {
            assert(!is_digit(d[i - from]));
            return None;
        }
        assert(d[i - from] == chars@[i as int]);
        i = i + 1;
    }
    match digits_number(&chars, from, n, 0xffff_ffff) {
        Some(v) => Some(v as u32),
        None => None,
    }
}

/// A text has at least one piece.
pub proof fn lemma_split_has_pieces(s: Seq<char>, c: char)
    ensures
        split(s, c).len() > 0,
    decreases s.len(),
{
    if s.len() > 0 {
        lemma_split_has_pieces(s.drop_last(), c);
    }
}

/// The pieces of two texts with the separator between them are those of the
/// first and those of the second.
pub proof fn lemma_split_concat(a: Seq<char>, b: Seq<char>, c: char)
    ensures
        split(a + seq![c] + b, c) == split(a, c) + split(b, c),
    decreases b.len(),
{
    let s = a + seq![c] + b;
    lemma_split_has_pieces(a, c);
    if b.len() == 0 {
        assert(s.drop_last() == a);
        assert(split(s, c) == split(a, c) + seq![Seq::<char>::empty()]);
    } else {
        lemma_split_concat(a, b.drop_last(), c);
        lemma_split_has_pieces(b.drop_last(), c);
        assert(s.drop_last() == a + seq![c] + b.drop_last());
        assert(s.last() == b.last());
        let pieces = split(a, c) + split(b.drop_last(), c);
        assert(pieces.last() == split(b.drop_last(), c).last());
        assert(split(s, c) == split(a, c) + split(b, c));
    }
}

/// A text without the separator is its only piece.
pub proof fn lemma_split_whole(s: Seq<char>, c: char)
    requires
        !s.contains(c),
    ensures
        split(s, c) == seq![s],
    decreases s.len(),
{
    if s.len() == 0 {
        assert(s == Seq::<char>::empty());
    } else {
        assert(!s.drop_last().contains(c)) by {
            if s.drop_last().contains(c) {
                let i = choose|i: int| 0 <= i < s.drop_last().len() && s.drop_last()[i] == c;
                assert(s[i] == c);
            }
        }
        lemma_split_whole(s.drop_last(), c);
        assert(s[s.len() - 1] == s.last());
        assert(s.drop_last().push(s.last()) == s);
        assert(split(s, c) == seq![s]);
    }
}

/// The separator stands in no piece.
pub proof fn lemma_split_pieces(s: Seq<char>, c: char, i: int)
    requires
        0 <= i < split(s, c).len(),
    ensures
        !split(s, c)[i].contains(c),
    decreases s.len(),
{
    if s.len() > 0 {
        let pieces = split(s.drop_last(), c);
        lemma_split_has_pieces(s.drop_last(), c);
        if i < pieces.len() {
            lemma_split_pieces(s.drop_last(), c, i);
        }
        if s.last() != c && i == pieces.len() - 1 {
            let piece = split(s, c)[i];
            assert(piece == pieces.last().push(s.last()));
            if piece.contains(c) {
                let k = choose|k: int| 0 <= k < piece.len() && piece[k] == c;
                assert(k < pieces.last().len());
                assert(pieces[i].contains(pieces[i][k]));
            }
        }
    }
}

/// What is left after leading white space is cut off is an end of the text, and
/// does not begin with white space.
pub proof fn lemma_trim_start(s: Seq<char>)
    ensures
        trim_start(s).len() <= s.len(),
        trim_start(s) == s.skip(s.len() - trim_start(s).len()),
        trim_start(s).len() > 0 ==> !is_space(trim_start(s)[0]),
    decreases s.len(),
{
    if s.len() > 0 && is_space(s[0]) {
        lemma_trim_start(s.drop_first());
        let t = trim_start(s);
        assert(s.drop_first().skip(s.drop_first().len() - t.len()) == s.skip(s.len() - t.len()));
    } else {
        assert(s.skip(0) == s);
    }
}

/// What is left after trailing white space is cut off is a beginning of the text,
/// and does not end with white space.
pub proof fn lemma_trim_end(s: Seq<char>)
    ensures
        trim_end(s).len() <= s.len(),
        trim_end(s) == s.take(trim_end(s).len() as int),
        trim_end(s).len() > 0 ==> !is_space(trim_end(s).last()),
    decreases s.len(),
{
    if s.len() > 0 && is_space(s.last()) {
        lemma_trim_end(s.drop_last());
        let t = trim_end(s);
        assert(s.drop_last().take(t.len() as int) == s.take(t.len() as int));
    } else {
        assert(s.take(s.len() as int) == s);
    }
}

/// A trimmed text stays as it is when it is trimmed.
pub proof fn lemma_trim_twice(s: Seq<char>)
    ensures
        trim(trim(s)) == trim(s),
{
    lemma_trim_start(s);
    lemma_trim_end(trim_start(s));
    let t = trim(s);
    if t.len() > 0 {
        assert(t[0] == trim_start(s)[0]);
    }
}

/// What is written in decimal is read as it was.
pub proof fn lemma_decimal(n: nat)
    ensures
        decimal(n).len() > 0,
        all_digits(decimal(n)),
        digits_value(decimal(n)) == n,
    decreases n,
{
    let written = decimal(n);
    if n < 10 {
        assert(written.drop_last() == Seq::<char>::empty());
        assert(digits_value(written.drop_last()) == 0);
        assert(written.last() == digit(n));
    } else {
        lemma_decimal(n / 10);
        assert(written.drop_last() == decimal(n / 10));
        assert(written.last() == digit(n % 10));
    }
}

/// A text that is cut at the first `c` falls into what stands before and behind it.
pub proof fn lemma_split_once(a: Seq<char>, c: char, b: Seq<char>)
    requires
        forall|i: int| 0 <= i < a.len() ==> #[trigger] a[i] != c,
    ensures
        split_once(a + seq![c] + b, c) == Some((a, b)),
{
    let s = a + seq![c] + b;
    let at = a.len() as int;
    assert(s.subrange(at, at + 1) == seq![c]);
    assert forall|j: int| 0 <= j < at implies !occurs_at(s, seq![c], j) by {
        assert(s.subrange(j, j + 1)[0] == a[j]);
    }
    lemma_first_index(s, seq![c], at);
    assert(s.take(at) == a);
    assert(s.skip(at + 1) == b);
}

/// Whether `s` holds white space alone.
pub open spec fn is_blank(s: Seq<char>) -> bool {
    forall|i: int| 0 <= i < s.len() ==> is_space(#[trigger] s[i])
}

/// Among the characters of ASCII the space and the five controls from the tab to the carriage
/// return are white space, and no others.
pub proof fn law_white_space_of_ascii(c: char)
    requires
        (c as u32) < 0x80,
    ensures
        is_space(c) <==> c == ' ' || c == '\t' || c == '\n' || c == '\u{b}' || c == '\u{c}' || c
            == '\r',
{
}

/// Beyond ASCII the spaces and line breaks of Unicode are white space, and no others.
pub proof fn law_white_space_beyond_ascii(c: char)
    requires
        c as u32 >= 0x80,
    ensures
        is_space(c) <==> c == '\u{85}' || c == '\u{a0}' || c == '\u{1680}' || ('\u{2000}' as u32
            <= c as u32 <= '\u{200a}' as u32) || c == '\u{2028}' || c == '\u{2029}' || c
            == '\u{202f}' || c == '\u{205f}' || c == '\u{3000}',
{
}

/// Where a text begins and ends once it is trimmed: all that is cut off is white space.
pub proof fn lemma_trim_is_between(s: Seq<char>) -> (r: (int, int))
    ensures
        0 <= r.0 <= r.1 <= s.len(),
        trim(s) == s.subrange(r.0, r.1),
        forall|i: int| 0 <= i < r.0 ==> is_space(#[trigger] s[i]),
        forall|i: int| r.1 <= i < s.len() ==> is_space(#[trigger] s[i]),
        r.0 < r.1 ==> !is_space(s[r.0]) && !is_space(s[r.1 - 1]),
{
    let from = lemma_trim_start_is_behind(s);
    let t = trim_start(s);
    let n = lemma_trim_end_is_before(t);
    let to = from + n;
    assert(t.take(n) =~= s.subrange(from, to));
    assert forall|i: int| to <= i < s.len() implies is_space(#[trigger] s[i]) by {
        assert(t[i - from] == s[i]);
    }
    if from < to {
        assert(t[0] == s[from]);
        assert(t[n - 1] == s[to - 1]);
    }
    (from, to)
}

proof fn lemma_trim_start_is_behind(s: Seq<char>) -> (from: int)
    ensures
        0 <= from <= s.len(),
        trim_start(s) == s.skip(from),
        forall|i: int| 0 <= i < from ==> is_space(#[trigger] s[i]),
        from < s.len() ==> !is_space(s[from]),
    decreases s.len(),
{
    if s.len() > 0 && is_space(s[0]) {
        let rest = lemma_trim_start_is_behind(s.drop_first());
        assert(s.drop_first().skip(rest) =~= s.skip(rest + 1));
        assert forall|i: int| 0 <= i < rest + 1 implies is_space(#[trigger] s[i]) by {
            if i > 0 {
                assert(s.drop_first()[i - 1] == s[i]);
            }
        }
        rest + 1
    } else {
        assert(s.skip(0) =~= s);
        0
    }
}

proof fn lemma_trim_end_is_before(s: Seq<char>) -> (to: int)
    ensures
        0 <= to <= s.len(),
        trim_end(s) == s.take(to),
        forall|i: int| to <= i < s.len() ==> is_space(#[trigger] s[i]),
        to > 0 ==> !is_space(s[to - 1]),
    decreases s.len(),
{
    if s.len() > 0 && is_space(s.last()) {
        let to = lemma_trim_end_is_before(s.drop_last());
        assert(s.drop_last().take(to) =~= s.take(to));
        assert forall|i: int| to <= i < s.len() implies is_space(#[trigger] s[i]) by {
            if i < s.len() - 1 {
                assert(s.drop_last()[i] == s[i]);
            }
        }
        to
    } else {
        assert(s.take(s.len() as int) =~= s);
        s.len() as int
    }
}

/// White space around a text is cut off, and nothing else: a text that neither begins nor
/// ends with white space is what is left, whatever it holds.
pub proof fn law_trim_takes_white_space_alone(before: Seq<char>, s: Seq<char>, after: Seq<char>)
    requires
        is_blank(before),
        is_blank(after),
        s.len() > 0 ==> !is_space(s[0]) && !is_space(s.last()),
    ensures
        trim(before + s + after) == s,
{
    let all = before + s + after;
    let (from, to) = lemma_trim_is_between(all);
    assert forall|i: int| 0 <= i < before.len() implies is_space(#[trigger] all[i]) by {
        assert(all[i] == before[i]);
    }
    assert forall|i: int| before.len() + s.len() <= i < all.len() implies is_space(
        #[trigger] all[i],
    ) by {
        assert(all[i] == after[i - before.len() - s.len()]);
    }
    if s.len() > 0 {
        let first = before.len() as int;
        let last = before.len() + s.len() - 1;
        assert(all[first] == s[0]);
        assert(all[last] == s.last());
        assert(from <= first) by {
            if first < from {
                assert(is_space(all[first]));
            }
        }
        assert(last < to) by {
            if to <= last {
                assert(is_space(all[last]));
            }
        }
        assert(from == first) by {
            if from < first {
                assert(is_space(all[from]));
            }
        }
        assert(to == last + 1) by {
            if last + 1 < to {
                assert(is_space(all[to - 1]));
            }
        }
        assert(all.subrange(from, to) =~= s);
    } else {
        assert(from == to) by {
            if from < to {
                assert(is_space(all[from]));
            }
        }
        assert(all.subrange(from, to) =~= s);
    }
}

/// A text is blank where nothing is left of it once it is trimmed.
pub proof fn law_blank_texts_are_trimmed_to_nothing(s: Seq<char>)
    ensures
        trim(s).len() == 0 <==> is_blank(s),
{
    let (from, to) = lemma_trim_is_between(s);
    if is_blank(s) && from < to {
        assert(is_space(s[from]));
    }
    if from == to {
        assert forall|i: int| 0 <= i < s.len() implies is_space(#[trigger] s[i]) by {}
    }
}

/// Texts are joined one behind the other, with the separator between each two and nowhere
/// else.
pub proof fn law_join_puts_the_separator_between(
    parts: Seq<Seq<char>>,
    p: Seq<char>,
    sep: Seq<char>,
)
    ensures
        join(Seq::empty(), sep) == Seq::<char>::empty(),
        join(seq![p], sep) == p,
        parts.len() > 0 ==> join(parts.push(p), sep) == join(parts, sep) + sep + p,
{
    assert(parts.push(p).drop_last() =~= parts);
}

/// Texts that are joined by a character that none of them holds are found again where the
/// joined text is split at that character.
pub proof fn law_split_undoes_join(parts: Seq<Seq<char>>, c: char)
    requires
        parts.len() > 0,
        forall|i: int| 0 <= i < parts.len() ==> !(#[trigger] parts[i]).contains(c),
    ensures
        split(join(parts, seq![c]), c) == parts,
    decreases parts.len(),
{
    if parts.len() == 1 {
        assert(!parts[0].contains(c));
        lemma_split_whole(parts[0], c);
        assert(seq![parts[0]] =~= parts);
    } else {
        let earlier = parts.drop_last();
        assert forall|i: int| 0 <= i < earlier.len() implies !(#[trigger] earlier[i]).contains(
            c,
        ) by {
            assert(!parts[i].contains(c));
        }
        law_split_undoes_join(earlier, c);
        assert(!parts[parts.len() - 1].contains(c));
        lemma_split_concat(join(earlier, seq![c]), parts.last(), c);
        lemma_split_whole(parts.last(), c);
        assert(earlier + seq![parts.last()] =~= parts);
    }
}

/// A part of joined texts stands in the joined text.
pub proof fn lemma_joined_parts_are_there(parts: Seq<Seq<char>>, sep: Seq<char>, i: int)
    requires
        0 <= i < parts.len(),
    ensures
        contains(join(parts, sep), parts[i]),
    decreases parts.len(),
{
    let all = join(parts, sep);
    if parts.len() == 1 {
        assert(all.subrange(0, all.len() as int) =~= all);
        assert(occurs_at(all, parts[i], 0));
    } else if i == parts.len() - 1 {
        let at = all.len() - parts[i].len();
        assert(all.subrange(at, all.len() as int) =~= parts[i]);
        assert(occurs_at(all, parts[i], at));
    } else {
        let earlier = parts.drop_last();
        lemma_joined_parts_are_there(earlier, sep, i);
        let before = join(earlier, sep);
        let at = choose|at: int| occurs_at(before, earlier[i], at);
        assert(all.subrange(at, at + parts[i].len()) =~= before.subrange(at, at + parts[i].len()));
        assert(occurs_at(all, parts[i], at));
    }
}

/// A number is written digit by digit: one more digit at the end makes ten of each one, and
/// the digits are those from `0` on.
pub proof fn law_decimal_goes_digit_by_digit(n: nat, d: nat)
    requires
        d < 10,
    ensures
        decimal(10 * n + d) == (if n > 0 {
            decimal(n)
        } else {
            Seq::empty()
        }).push((0x30 + d) as char),
{
    let m = 10 * n + d;
    assert(m / 10 == n && m % 10 == d);
    if n == 0 {
        assert(decimal(m) =~= Seq::<char>::empty().push((0x30 + d) as char));
    }
}

/// A text stands in every text that it is a part of, and in no other.
pub proof fn law_parts_of_a_text_are_found(a: Seq<char>, p: Seq<char>, b: Seq<char>)
    ensures
        contains(a + p + b, p),
        starts_with(p + b, p),
        ends_with(a + p, p),
{
    let all = a + p + b;
    assert(all.subrange(a.len() as int, (a.len() + p.len()) as int) =~= p);
    assert(occurs_at(all, p, a.len() as int));
    assert((p + b).subrange(0, p.len() as int) =~= p);
    assert((a + p).subrange(a.len() as int, (a.len() + p.len()) as int) =~= p);
}

/// What is found in a text is a part of it.
pub proof fn law_only_parts_of_a_text_are_found(s: Seq<char>, p: Seq<char>)
    ensures
        contains(s, p) ==> exists|a: Seq<char>, b: Seq<char>| #![auto] s == a + p + b,
        starts_with(s, p) ==> exists|b: Seq<char>| #![auto] s == p + b,
        ends_with(s, p) ==> exists|a: Seq<char>| #![auto] s == a + p,
{
    if contains(s, p) {
        let i = choose|i: int| occurs_at(s, p, i);
        assert(s =~= s.take(i) + p + s.skip(i + p.len())) by {
            assert(s.subrange(i, i + p.len()) == p);
            assert(s =~= s.take(i) + s.subrange(i, i + p.len()) + s.skip(i + p.len()));
        }
    }
    if starts_with(s, p) {
        assert(s =~= s.subrange(0, p.len() as int) + s.skip(p.len() as int));
        assert(s == p + s.skip(p.len() as int));
    }
    if ends_with(s, p) {
        let at = s.len() - p.len();
        assert(s.subrange(at, at + p.len()) == p);
        assert(s =~= s.take(at) + s.subrange(at, at + p.len()));
        assert(s == s.take(at) + p);
    }
}

/// The letters of ASCII change their case, each for its own, and nothing else changes.
pub proof fn law_ascii_letters_change_their_case(c: char)
    ensures
        ('A' as u32 <= c as u32 <= 'Z' as u32) ==> lower(c) as u32 == c as u32 + 32 && upper(
            lower(c),
        ) == c && upper(c) == c,
        ('a' as u32 <= c as u32 <= 'z' as u32) ==> upper(c) as u32 == c as u32 - 32 && lower(
            upper(c),
        ) == c && lower(c) == c,
        !('A' as u32 <= c as u32 <= 'Z' as u32) && !('a' as u32 <= c as u32 <= 'z' as u32)
            ==> lower(c) == c && upper(c) == c,
{
}

/// A text in another case is as long as it was, and changes letter by letter.
pub proof fn law_case_changes_letter_by_letter(s: Seq<char>, i: int)
    requires
        0 <= i < s.len(),
    ensures
        ascii_lower(s).len() == s.len(),
        ascii_upper(s).len() == s.len(),
        ascii_lower(s)[i] == lower(s[i]),
        ascii_upper(s)[i] == upper(s[i]),
{
}

/// A number that is written in decimal is read as it was, where it is no larger than allowed.
pub proof fn law_numbers_are_read_as_written(n: nat, limit: nat)
    ensures
        unsigned(decimal(n), limit) == if n <= limit {
            Some(n)
        } else {
            None
        },
{
    lemma_decimal(n);
    assert(is_digit(decimal(n)[0]));
}

} // verus!
