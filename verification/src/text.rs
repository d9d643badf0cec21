//! Operations on text, each with a definition over sequences of characters.

use vstd::prelude::*;

verus! {

/// The characters with the Unicode property `White_Space`.
pub open spec fn is_white(c: char) -> bool {
    ||| '\u{9}' <= c <= '\u{d}'
    ||| c == '\u{20}'
    ||| c == '\u{85}'
    ||| c == '\u{a0}'
    ||| c == '\u{1680}'
    ||| '\u{2000}' <= c <= '\u{200a}'
    ||| c == '\u{2028}'
    ||| c == '\u{2029}'
    ||| c == '\u{202f}'
    ||| c == '\u{205f}'
    ||| c == '\u{3000}'
}

/// `s` without the white space it starts with.
pub open spec fn trimmed_start(s: Seq<char>) -> Seq<char>
    decreases s.len(),
{
    if s.len() > 0 && is_white(s[0]) {
        trimmed_start(s.drop_first())
    } else {
        s
    }
}

/// `s` without the white space it ends with.
pub open spec fn trimmed_end(s: Seq<char>) -> Seq<char>
    decreases s.len(),
{
    if s.len() > 0 && is_white(s.last()) {
        trimmed_end(s.drop_last())
    } else {
        s
    }
}

/// `s` without the white space around it.
pub open spec fn trimmed(s: Seq<char>) -> Seq<char> {
    trimmed_end(trimmed_start(s))
}

/// Whether nothing but white space is in `s`.
pub open spec fn is_blank(s: Seq<char>) -> bool {
    trimmed(s).len() == 0
}

/// The pieces of `s` between the occurrences of `sep`: a separator opens a new
/// piece, any other character extends the last one.
pub open spec fn split_at_char(s: Seq<char>, sep: char) -> Seq<Seq<char>>
    decreases s.len(),
{
    if s.len() == 0 {
        seq![Seq::<char>::empty()]
    } else {
        let before = split_at_char(s.drop_last(), sep);
        if s.last() == sep {
            before.push(Seq::empty())
        } else {
            before.drop_last().push(before.last().push(s.last()))
        }
    }
}

/// A line without the carriage return that belonged to its ending.
pub open spec fn without_carriage_return(line: Seq<char>) -> Seq<char> {
    if line.len() > 0 && line.last() == '\r' {
        line.drop_last()
    } else {
        line
    }
}

/// The lines of `s` that end at a line feed.
pub open spec fn ended_lines(s: Seq<char>) -> Seq<Seq<char>> {
    split_at_char(s, '\n').drop_last().map_values(
        |line: Seq<char>| without_carriage_return(line),
    )
}

/// The lines of `s`: each ends at a line feed, with or without a carriage
/// return before it, and the last line may lack its ending.
pub open spec fn lines_of(s: Seq<char>) -> Seq<Seq<char>> {
    let rest = split_at_char(s, '\n').last();
    if rest.len() == 0 {
        ended_lines(s)
    } else {
        ended_lines(s).push(rest)
    }
}

/// The words of `s`: the longest runs of characters that are not white space.
pub open spec fn words_of(s: Seq<char>) -> Seq<Seq<char>>
    decreases s.len(),
{
    if s.len() == 0 {
        Seq::empty()
    } else {
        let before = words_of(s.drop_last());
        if is_white(s.last()) {
            before
        } else if s.len() == 1 || is_white(s[s.len() - 2]) {
            before.push(seq![s.last()])
        } else {
            before.drop_last().push(before.last().push(s.last()))
        }
    }
}

/// The parts one after the other, with `sep` between neighbours.
pub open spec fn joined(parts: Seq<Seq<char>>, sep: Seq<char>) -> Seq<char>
    decreases parts.len(),
{
    if parts.len() == 0 {
        Seq::empty()
    } else if parts.len() == 1 {
        parts[0]
    } else {
        joined(parts.drop_last(), sep) + sep + parts.last()
    }
}

/// `s` with each `from` replaced by `to`.
pub open spec fn replaced(s: Seq<char>, from: char, to: char) -> Seq<char> {
    s.map_values(
        |c: char|
            if c == from {
                to
            } else {
                c
            },
    )
}

/// Whether `part` occurs in `s` at position `at`.
pub open spec fn occurs_at(s: Seq<char>, part: Seq<char>, at: int) -> bool {
    0 <= at <= s.len() - part.len() && s.subrange(at, at + part.len()) == part
}

/// Whether `part` occurs in `s`.
pub open spec fn has_part(s: Seq<char>, part: Seq<char>) -> bool {
    exists|at: int| #[trigger] occurs_at(s, part, at)
}

/// A number in decimal notation.
pub open spec fn decimal(n: nat) -> Seq<char>
    decreases n,
{
    if n < 10 {
        seq!["0123456789"@[n as int]]
    } else {
        decimal(n / 10).push("0123456789"@[(n % 10) as int])
    }
}

/// The characters of each text in a list.
pub open spec fn views(list: Seq<&str>) -> Seq<Seq<char>> {
    list.map_values(|t: &str| t@)
}

/// The characters of each text in a list of owned texts.
pub open spec fn string_views(list: Seq<String>) -> Seq<Seq<char>> {
    list.map_values(|t: String| t@)
}

/// The characters of `s` as a list.
pub fn chars_of(s: &str) -> (list: Vec<char>)
    ensures
        list@ == s@,
{
    let mut list: Vec<char> = Vec::new();
    for c in it: s.chars()
        invariant
            it.seq() == s@,
            list@ == s@.take(it.index() as int),
    {
        list.push(c);
    }
    list
}

/// Whether a character is white space.
pub fn is_white_space(c: char) -> (white: bool)
    ensures
        white == is_white(c),
{
    ('\u{9}' <= c && c <= '\u{d}') || c == '\u{20}' || c == '\u{85}' || c == '\u{a0}'
        || c == '\u{1680}' || ('\u{2000}' <= c && c <= '\u{200a}') || c == '\u{2028}'
        || c == '\u{2029}' || c == '\u{202f}' || c == '\u{205f}' || c == '\u{3000}'
}

/// `s` without the white space around it.
pub fn trim(s: &str) -> (rest: &str)
    ensures
        rest@ == trimmed(s@),
{
    let chars = chars_of(s);
    let mut from: usize = 0;
    assert(s@.skip(0) == s@);
    while from < chars.len() && is_white_space(chars[from])
        invariant
            chars@ == s@,
            from <= chars.len(),
            trimmed_start(s@) == trimmed_start(s@.skip(from as int)),
        decreases chars.len() - from,
    {
        assert(s@.skip(from as int).drop_first() == s@.skip(from + 1));
        from = from + 1;
    }
    let ghost start = s@.skip(from as int);
    assert(trimmed_start(s@) == start);
    let mut to: usize = chars.len();
    assert(start.take(to - from) == start);
    while from < to && is_white_space(chars[to - 1])
        invariant
            chars@ == s@,
            from <= to <= chars.len(),
            start == s@.skip(from as int),
            trimmed_end(start) == trimmed_end(start.take(to - from)),
        decreases to,
    {
        assert(start.take(to - from).drop_last() == start.take(to - from - 1));
        to = to - 1;
    }
    assert(start.take(to - from) == s@.subrange(from as int, to as int));
    s.substring_char(from, to)
}

/// Whether nothing but white space is in `s`.
pub fn blank(s: &str) -> (answer: bool)
    ensures
        answer == is_blank(s@),
{
    trim(s).is_empty()
}

/// The pieces of `s` between the occurrences of `sep`.
pub fn split<'a>(s: &'a str, sep: char) -> (pieces: Vec<&'a str>)
    ensures
        views(pieces@) == split_at_char(s@, sep),
        pieces@.len() > 0,
{
    let chars = chars_of(s);
    let mut pieces: Vec<&'a str> = Vec::new();
    let mut start: usize = 0;
    let mut at: usize = 0;
    proof {
        assert(s@.take(0) =~= Seq::<char>::empty());
        assert(views(pieces@).push(s@.subrange(0, 0)) =~= seq![Seq::<char>::empty()]);
    }
    while at < chars.len()
        invariant
            chars@ == s@,
            start <= at <= chars.len(),
            views(pieces@).push(s@.subrange(start as int, at as int)) == split_at_char(
                s@.take(at as int),
                sep,
            ),
        decreases chars.len() - at,
    {
        let ghost done = views(pieces@);
        let ghost open = s@.subrange(start as int, at as int);
        proof {
            assert(s@.take(at + 1).drop_last() =~= s@.take(at as int));
            assert(done.push(open).drop_last() =~= done);
        }
        if chars[at] == sep {
            pieces.push(s.substring_char(start, at));
            start = at + 1;
            proof {
                assert(views(pieces@) =~= done.push(open));
                assert(s@.subrange(at + 1, at + 1) =~= Seq::<char>::empty());
            }
        } else {
            proof {
                assert(s@.subrange(start as int, at + 1) =~= open.push(s@[at as int]));
            }
        }
        at = at + 1;
    }
    proof {
        assert(s@.take(at as int) =~= s@);
    }
    let ghost done = views(pieces@);
    pieces.push(s.substring_char(start, at));
    proof {
        assert(views(pieces@) =~= done.push(s@.subrange(start as int, at as int)));
    }
    pieces
}

/// The lines of `s`, without their endings.
pub fn lines<'a>(s: &'a str) -> (list: Vec<&'a str>)
    ensures
        views(list@) == lines_of(s@),
{
    let pieces = split(s, '\n');
    let ghost parts = split_at_char(s@, '\n');
    let ghost ended = parts.drop_last().map_values(
        |line: Seq<char>| without_carriage_return(line),
    );
    let mut list: Vec<&'a str> = Vec::new();
    let last: usize = pieces.len() - 1;
    let mut at: usize = 0;
    while at < last
        invariant
            views(pieces@) == parts,
            ended == parts.drop_last().map_values(
                |line: Seq<char>| without_carriage_return(line),
            ),
            last + 1 == pieces.len(),
            at <= last,
            views(list@) == ended.take(at as int),
        decreases last - at,
    {
        let ghost done = views(list@);
        let line = pieces[at];
        proof {
            assert(views(pieces@)[at as int] == line@);
        }
        let size = line.unicode_len();
        if size > 0 && line.get_char(size - 1) == '\r' {
            let short = line.substring_char(0, size - 1);
            proof {
                assert(short@ =~= line@.drop_last());
            }
            list.push(short);
        } else {
            list.push(line);
        }
        proof {
            assert(views(list@) =~= done.push(without_carriage_return(line@)));
            assert(ended.take(at + 1) =~= ended.take(at as int).push(ended[at as int]));
        }
        at = at + 1;
    }
    proof {
        assert(ended.take(at as int) =~= ended);
        assert(views(pieces@).last() == pieces@[last as int]@);
    }
    let tail = pieces[last];
    if !tail.is_empty() {
        list.push(tail);
        proof {
            assert(views(list@) =~= ended.push(tail@));
        }
    }
    list
}

/// The words of `s`.
pub fn words<'a>(s: &'a str) -> (list: Vec<&'a str>)
    ensures
        views(list@) == words_of(s@),
{
    let chars = chars_of(s);
    let mut list: Vec<&'a str> = Vec::new();
    let mut start: usize = 0;
    let mut at: usize = 0;
    let mut inside: bool = false;
    proof {
        assert(s@.take(0) =~= Seq::<char>::empty());
        assert(views(list@) =~= Seq::<Seq<char>>::empty());
    }
    while at < chars.len()
        invariant
            chars@ == s@,
            start <= at <= chars.len(),
            inside == (at > 0 && !is_white(s@[at - 1])),
            inside ==> start < at && views(list@).push(s@.subrange(start as int, at as int))
                == words_of(s@.take(at as int)),
            !inside ==> views(list@) == words_of(s@.take(at as int)),
        decreases chars.len() - at,
    {
        let ghost done = views(list@);
        let ghost open = s@.subrange(start as int, at as int);
        let ghost next = s@.take(at + 1);
        let ghost from = start;
        proof {
            assert(next.drop_last() =~= s@.take(at as int));
            assert(next.last() == s@[at as int]);
            assert(at > 0 ==> next[next.len() - 2] == s@[at - 1]);
            assert(done.push(open).drop_last() =~= done);
        }
        if is_white_space(chars[at]) {
            if inside {
                list.push(s.substring_char(start, at));
                proof {
                    assert(views(list@) =~= done.push(open));
                }
            }
            inside = false;
        } else {
            if !inside {
                start = at;
                proof {
                    assert(s@.subrange(at as int, at + 1) =~= seq![s@[at as int]]);
                }
            } else {
                proof {
                    assert(s@.subrange(start as int, at + 1) =~= open.push(s@[at as int]));
                }
            }
            inside = true;
        }
        at = at + 1;
    }
    proof {
        assert(s@.take(at as int) =~= s@);
    }
    if inside {
        let ghost done = views(list@);
        list.push(s.substring_char(start, at));
        proof {
            assert(views(list@) =~= done.push(s@.subrange(start as int, at as int)));
        }
    }
    list
}

/// The parts one after the other, with `sep` between neighbours.
pub fn join(parts: &[&str], sep: &str) -> (whole: String)
    ensures
        whole@ == joined(views(parts@), sep@),
{
    let ghost all = views(parts@);
    let mut whole = String::new();
    let mut at: usize = 0;
    while at < parts.len()
        invariant
            all == views(parts@),
            at <= parts.len(),
            whole@ == joined(all.take(at as int), sep@),
        decreases parts.len() - at,
    {
        proof {
            assert(all.take(at + 1).drop_last() =~= all.take(at as int));
            assert(all.take(at + 1).last() == parts@[at as int]@);
        }
        if at > 0 {
            whole.append(sep);
        }
        whole.append(parts[at]);
        proof {
            if at == 0 {
                assert(whole@ =~= parts@[0]@);
            }
        }
        at = at + 1;
    }
    proof {
        assert(all.take(at as int) =~= all);
    }
    whole
}

/// `s` with each `from` replaced by `to`.
pub fn replace(s: &str, from: char, to: &str) -> (whole: String)
    ensures
        whole@ == joined(split_at_char(s@, from), to@),
{
    let pieces = split(s, from);
    join(pieces.as_slice(), to)
}

/// Whether two texts are the same.
pub fn same(a: &str, b: &str) -> (answer: bool)
    ensures
        answer == (a@ == b@),
{
    let left = chars_of(a);
    let right = chars_of(b);
    if left.len() != right.len() {
        return false;
    }
    let mut at: usize = 0;
    while at < left.len()
        invariant
            left@ == a@,
            right@ == b@,
            left.len() == right.len(),
            at <= left.len(),
            forall|i: int| 0 <= i < at ==> a@[i] == b@[i],
        decreases left.len() - at,
    {
        if left[at] != right[at] {
            return false;
        }
        at = at + 1;
    }
    proof {
        assert(a@ =~= b@);
    }
    true
}

/// Whether `part` occurs in `s` at position `at`, counted in characters.
fn occurs(s: &Vec<char>, part: &Vec<char>, at: usize) -> (answer: bool)
    requires
        at + part.len() <= s.len(),
    ensures
        answer == occurs_at(s@, part@, at as int),
{
    let ghost here = s@.subrange(at as int, at + part@.len());
    let mut i: usize = 0;
    while i < part.len()
        invariant
            at + part.len() <= s.len(),
            here == s@.subrange(at as int, at + part@.len()),
            i <= part.len(),
            forall|j: int| 0 <= j < i ==> here[j] == part@[j],
        decreases part.len() - i,
    {
        if s[at + i] != part[i] {
            assert(here[i as int] != part@[i as int]);
            return false;
        }
        i = i + 1;
    }
    proof {
        assert(here =~= part@);
    }
    true
}

/// Whether `part` occurs in `s`.
pub fn contains(s: &str, part: &str) -> (answer: bool)
    ensures
        answer == has_part(s@, part@),
{
    let all = chars_of(s);
    let some = chars_of(part);
    if some.len() > all.len() {
        return false;
    }
    let mut at: usize = 0;
    while at <= all.len() - some.len()
        invariant
            all@ == s@,
            some@ == part@,
            some.len() <= all.len(),
            at <= all.len() - some.len() + 1,
            forall|i: int| 0 <= i < at ==> !#[trigger] occurs_at(s@, part@, i),
        decreases all.len() - some.len() + 1 - at,
    {
        if occurs(&all, &some, at) {
            return true;
        }
        if at == all.len() - some.len() {
            return false;
        }
        at = at + 1;
    }
    false
}

/// Whether `s` starts with `part`.
pub fn starts_with(s: &str, part: &str) -> (answer: bool)
    ensures
        answer == part@.is_prefix_of(s@),
{
    let all = chars_of(s);
    let some = chars_of(part);
    some.len() <= all.len() && occurs(&all, &some, 0)
}

/// Whether `s` ends with `part`.
pub fn ends_with(s: &str, part: &str) -> (answer: bool)
    ensures
        answer == part@.is_suffix_of(s@),
{
    let all = chars_of(s);
    let some = chars_of(part);
    some.len() <= all.len() && occurs(&all, &some, all.len() - some.len())
}

/// What follows `part` in `s`, if `s` starts with it.
pub fn strip_prefix<'a>(s: &'a str, part: &str) -> (rest: Option<&'a str>)
    ensures
        rest is Some <==> part@.is_prefix_of(s@),
        rest matches Some(r) ==> r@ == s@.skip(part@.len() as int),
{
    if starts_with(s, part) {
        Some(s.substring_char(part.unicode_len(), s.unicode_len()))
    } else {
        None
    }
}

/// A number in decimal notation.
pub fn to_decimal(n: u8) -> (digits: String)
    ensures
        digits@ == decimal(n as nat),
    decreases n,
{
    proof {
        reveal_strlit("0123456789");
    }
    let last: usize = (n % 10) as usize;
    let digit = "0123456789".substring_char(last, last + 1);
    if n < 10 {
        digit.to_string()
    } else {
        to_decimal(n / 10).concat(digit)
    }
}

} // verus!
