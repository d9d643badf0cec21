//! Facts about the definitions in `text`.

use vstd::prelude::*;

use crate::text;

verus! {

/// Splitting gives one piece at least.
pub proof fn lemma_split_some(s: Seq<char>, sep: char)
    ensures
        text::split_at_char(s, sep).len() > 0,
    decreases s.len(),
{
    if s.len() > 0 {
        lemma_split_some(s.drop_last(), sep);
    }
}

/// A separator parts the pieces before it from the pieces behind it.
pub proof fn lemma_split_concat(a: Seq<char>, b: Seq<char>, sep: char)
    ensures
        text::split_at_char(a.push(sep) + b, sep) == text::split_at_char(a, sep) + text::split_at_char(b, sep),
    decreases b.len(),
{
    let whole = a.push(sep) + b;
    if b.len() == 0 {
        assert(whole =~= a.push(sep));
        assert(whole.drop_last() =~= a);
        assert(text::split_at_char(whole, sep) =~= text::split_at_char(a, sep) + text::split_at_char(b, sep));
    } else {
        lemma_split_concat(a, b.drop_last(), sep);
        lemma_split_some(b.drop_last(), sep);
        assert(whole.drop_last() =~= a.push(sep) + b.drop_last());
        let front = text::split_at_char(a, sep);
        let back = text::split_at_char(b.drop_last(), sep);
        assert((front + back).drop_last() =~= front + back.drop_last());
        assert(text::split_at_char(whole, sep) =~= front + text::split_at_char(b, sep));
    }
}

/// A text without the separator is its own only piece.
pub proof fn lemma_split_whole(s: Seq<char>, sep: char)
    requires
        !s.contains(sep),
    ensures
        text::split_at_char(s, sep) == seq![s],
    decreases s.len(),
{
    if s.len() > 0 {
        assert(s[s.len() - 1] != sep);
        assert(!s.drop_last().contains(sep)) by {
            if s.drop_last().contains(sep) {
                let i = choose|i: int| 0 <= i < s.drop_last().len() && s.drop_last()[i] == sep;
                assert(s[i] == sep);
            }
        }
        lemma_split_whole(s.drop_last(), sep);
        assert(s.drop_last().push(s.last()) =~= s);
        assert(text::split_at_char(s, sep) =~= seq![s]);
    } else {
        assert(s =~= Seq::<char>::empty());
    }
}

/// Joining pieces that do not hold the separator, and splitting again, gives
/// the pieces back.
pub proof fn lemma_split_joined(parts: Seq<Seq<char>>, sep: char)
    requires
        parts.len() > 0,
        forall|i: int| 0 <= i < parts.len() ==> !(#[trigger] parts[i]).contains(sep),
    ensures
        text::split_at_char(text::joined(parts, seq![sep]), sep) == parts,
    decreases parts.len(),
{
    lemma_split_whole(parts.last(), sep);
    if parts.len() == 1 {
        assert(parts =~= seq![parts[0]]);
    } else {
        let front = parts.drop_last();
        assert forall|i: int| 0 <= i < front.len() implies !(#[trigger] front[i]).contains(sep) by {
            assert(front[i] == parts[i]);
        }
        lemma_split_joined(front, sep);
        lemma_split_concat(text::joined(front, seq![sep]), parts.last(), sep);
        assert(text::joined(front, seq![sep]) + seq![sep] =~= text::joined(front, seq![sep]).push(sep));
        assert(front + seq![parts.last()] =~= parts);
    }
}

/// Splitting at a character and joining with another replaces the one by the
/// other.
pub proof fn lemma_replaced(s: Seq<char>, from: char, to: char)
    ensures
        text::joined(text::split_at_char(s, from), seq![to]) == text::replaced(s, from, to),
    decreases s.len(),
{
    if s.len() == 0 {
        assert(text::joined(text::split_at_char(s, from), seq![to]) =~= text::replaced(s, from, to));
    } else {
        lemma_replaced(s.drop_last(), from, to);
        lemma_split_some(s.drop_last(), from);
        let before = text::split_at_char(s.drop_last(), from);
        let after = text::split_at_char(s, from);
        if s.last() == from {
            assert(after.drop_last() =~= before);
            assert(text::joined(after, seq![to]) =~= text::replaced(s, from, to));
        } else {
            assert(after.drop_last() =~= before.drop_last());
            if before.len() == 1 {
                assert(text::joined(after, seq![to]) =~= text::replaced(s, from, to));
            } else {
                assert(text::joined(after, seq![to]) =~= text::joined(before, seq![to]).push(s.last()));
                assert(text::joined(after, seq![to]) =~= text::replaced(s, from, to));
            }
        }
    }
}

/// Trimming leaves a text alone that neither starts nor ends with white space.
pub proof fn lemma_trimmed_same(s: Seq<char>)
    requires
        s.len() > 0 ==> !text::is_white(s[0]) && !text::is_white(s.last()),
    ensures
        text::trimmed(s) == s,
{
}

/// What trimming leaves does not start or end with white space.
pub proof fn lemma_trimmed_ends(s: Seq<char>)
    ensures
        text::trimmed(s).len() > 0 ==> !text::is_white(text::trimmed(s)[0]) && !text::is_white(text::trimmed(s).last()),
{
    lemma_trimmed_start_head(s);
    lemma_trimmed_end_tail(text::trimmed_start(s));
}

proof fn lemma_trimmed_start_head(s: Seq<char>)
    ensures
        text::trimmed_start(s).len() > 0 ==> !text::is_white(text::trimmed_start(s)[0]),
    decreases s.len(),
{
    if s.len() > 0 && text::is_white(s[0]) {
        lemma_trimmed_start_head(s.drop_first());
    }
}

proof fn lemma_trimmed_end_tail(s: Seq<char>)
    ensures
        text::trimmed_end(s).len() <= s.len(),
        text::trimmed_end(s) == s.take(text::trimmed_end(s).len() as int),
        text::trimmed_end(s).len() > 0 ==> !text::is_white(text::trimmed_end(s).last()) && text::trimmed_end(s)[0] == s[0],
    decreases s.len(),
{
    if s.len() > 0 && text::is_white(s.last()) {
        lemma_trimmed_end_tail(s.drop_last());
        assert(s.drop_last().take(text::trimmed_end(s).len() as int) =~= s.take(
            text::trimmed_end(s).len() as int,
        ));
    } else {
        assert(s.take(s.len() as int) =~= s);
    }
}

/// Trimming twice is trimming once.
pub proof fn lemma_trimmed_twice(s: Seq<char>)
    ensures
        text::trimmed(text::trimmed(s)) == text::trimmed(s),
{
    lemma_trimmed_ends(s);
    lemma_trimmed_same(text::trimmed(s));
}

/// White space behind a text does not survive trimming.
pub proof fn lemma_trimmed_push(s: Seq<char>, c: char)
    requires
        text::is_white(c),
    ensures
        text::trimmed(s.push(c)) == text::trimmed(s),
    decreases s.len(),
{
    if s.len() > 0 && text::is_white(s[0]) {
        assert(s.push(c).drop_first() =~= s.drop_first().push(c));
        lemma_trimmed_push(s.drop_first(), c);
    } else if s.len() > 0 {
        assert(s.push(c).drop_last() =~= s);
    } else {
        assert(s.push(c).drop_first() =~= s);
    }
}

/// Two texts, one below the other, have the lines of the one, ended, and then
/// those of the other.
pub proof fn lemma_lines_concat(a: Seq<char>, b: Seq<char>)
    ensures
        text::lines_of(a.push('\n') + b) == text::lines_of(a.push('\n')) + text::lines_of(b),
{
    assert(a.push('\n') =~= a.push('\n') + Seq::<char>::empty());
    lemma_split_concat(a, b, '\n');
    lemma_split_concat(a, Seq::empty(), '\n');
    lemma_split_some(b, '\n');
    let front = text::split_at_char(a, '\n');
    let back = text::split_at_char(b, '\n');
    assert((front + back).drop_last() =~= front + back.drop_last());
    assert((front + text::split_at_char(Seq::empty(), '\n')).drop_last() =~= front);
    assert(text::lines_of(a.push('\n') + b) =~= text::lines_of(a.push('\n')) + text::lines_of(b));
}

/// Where the last line of a text is ended, it comes without the carriage
/// return it may have.
pub proof fn lemma_lines_ended(a: Seq<char>)
    ensures
        text::lines_of(a.push('\n')) == text::ended_lines(a).push(
            text::without_carriage_return(text::split_at_char(a, '\n').last()),
        ),
{
    lemma_split_some(a, '\n');
    assert(a.push('\n').drop_last() =~= a);
    let pieces = text::split_at_char(a, '\n');
    assert(text::split_at_char(a.push('\n'), '\n').drop_last() =~= pieces);
    assert(text::ended_lines(a.push('\n')) =~= text::ended_lines(a).push(
        text::without_carriage_return(pieces.last()),
    ));
}

/// A word has a character at least, and no white space.
pub proof fn lemma_words_solid(s: Seq<char>, i: int)
    requires
        0 <= i < text::words_of(s).len(),
    ensures
        text::words_of(s)[i].len() > 0,
        forall|j: int|
            0 <= j < text::words_of(s)[i].len() ==> !text::is_white(
                #[trigger] text::words_of(s)[i][j],
            ),
    decreases s.len(),
{
    let before = text::words_of(s.drop_last());
    if i < before.len() {
        lemma_words_solid(s.drop_last(), i);
    }
}

/// White space around a text is cut off, all of it, and nothing else is.
pub proof fn law_trimmed(lead: Seq<char>, mid: Seq<char>, tail: Seq<char>)
    requires
        forall|i: int| 0 <= i < lead.len() ==> text::is_white(#[trigger] lead[i]),
        forall|i: int| 0 <= i < tail.len() ==> text::is_white(#[trigger] tail[i]),
        mid.len() > 0 ==> !text::is_white(mid[0]) && !text::is_white(mid.last()),
    ensures
        text::trimmed(lead + mid + tail) == mid,
    decreases lead.len() + 2 * tail.len(),
{
    let s = lead + mid + tail;
    if lead.len() > 0 {
        assert(text::is_white(lead[0]));
        assert(s.drop_first() =~= lead.drop_first() + mid + tail);
        law_trimmed(lead.drop_first(), mid, tail);
    } else if tail.len() == 0 {
        assert(s =~= mid);
    } else if mid.len() == 0 {
        assert(s =~= tail + mid + Seq::<char>::empty());
        law_trimmed(tail, mid, Seq::empty());
    } else {
        assert(s[0] == mid[0]);
        assert(text::is_white(tail[tail.len() - 1]));
        let shorter = lead + mid + tail.drop_last();
        assert(s.drop_last() =~= shorter);
        assert(shorter[0] == mid[0]);
        law_trimmed(lead, mid, tail.drop_last());
    }
}

/// A text is blank exactly if each of its characters is white space.
pub proof fn law_blank(s: Seq<char>)
    ensures
        text::is_blank(s) <==> forall|i: int| 0 <= i < s.len() ==> text::is_white(#[trigger] s[i]),
    decreases s.len(),
{
    if s.len() > 0 && text::is_white(s[0]) {
        let rest = s.drop_first();
        law_blank(rest);
        if text::is_blank(s) {
            assert forall|i: int| 0 <= i < s.len() implies text::is_white(#[trigger] s[i]) by {
                if i > 0 {
                    assert(text::is_white(rest[i - 1]));
                }
            }
        }
        if forall|i: int| 0 <= i < s.len() ==> text::is_white(#[trigger] s[i]) {
            assert forall|i: int| 0 <= i < rest.len() implies text::is_white(#[trigger] rest[i]) by {
                assert(text::is_white(s[i + 1]));
            }
        }
    } else if s.len() > 0 {
        lemma_trimmed_end_some(s);
    }
}

proof fn lemma_trimmed_end_some(s: Seq<char>)
    requires
        s.len() > 0,
        !text::is_white(s[0]),
    ensures
        text::trimmed_end(s).len() > 0,
    decreases s.len(),
{
    if text::is_white(s.last()) {
        lemma_trimmed_end_some(s.drop_last());
    }
}

/// A list of texts is joined from its first one on, with the separator between
/// that and the rest.
pub proof fn law_joined(first: Seq<char>, rest: Seq<Seq<char>>, sep: Seq<char>)
    ensures
        text::joined(Seq::empty(), sep) == Seq::<char>::empty(),
        text::joined(seq![first], sep) == first,
        rest.len() > 0 ==> text::joined(seq![first] + rest, sep) == first + sep + text::joined(
            rest,
            sep,
        ),
    decreases rest.len(),
{
    if rest.len() > 0 {
        let all = seq![first] + rest;
        law_joined(first, rest.drop_last(), sep);
        assert(all.drop_last() =~= seq![first] + rest.drop_last());
        assert(all.last() == rest.last());
        if rest.len() == 1 {
            assert(all.drop_last() =~= seq![first]);
        } else {
            assert(first + sep + text::joined(rest.drop_last(), sep) + sep + rest.last() =~= first
                + sep + text::joined(rest, sep));
        }
    }
}

/// Replacing a character keeps every other one, and its place.
pub proof fn law_replaced(s: Seq<char>, from: char, to: char, i: int)
    requires
        0 <= i < s.len(),
    ensures
        text::replaced(s, from, to).len() == s.len(),
        s[i] == from ==> text::replaced(s, from, to)[i] == to,
        s[i] != from ==> text::replaced(s, from, to)[i] == s[i],
{
}

/// A line ends at its line feed, and a carriage return before that belongs to
/// the ending; what follows is read on its own. A text without a line feed is
/// one line, unless it is empty.
pub proof fn law_lines(line: Seq<char>, rest: Seq<char>)
    requires
        !line.contains('\n'),
    ensures
        text::lines_of(line.push('\r').push('\n') + rest) == seq![line] + text::lines_of(rest),
        line.len() == 0 || line.last() != '\r' ==> text::lines_of(line.push('\n') + rest) == seq![
            line,
        ] + text::lines_of(rest),
        line.len() > 0 ==> text::lines_of(line) == seq![line],
        text::lines_of(Seq::empty()) == Seq::<Seq<char>>::empty(),
{
    lemma_line_first(line, rest);
    let long = line.push('\r');
    assert(!long.contains('\n')) by {
        if long.contains('\n') {
            let i = choose|i: int| 0 <= i < long.len() && long[i] == '\n';
            assert(line[i] == '\n');
        }
    }
    lemma_line_first(long, rest);
    assert(long.drop_last() =~= line);
    lemma_split_whole(line, '\n');
    lemma_split_whole(Seq::empty(), '\n');
    assert(text::ended_lines(line) =~= Seq::empty());
    assert(text::ended_lines(Seq::empty()) =~= Seq::empty());
    assert(Seq::<Seq<char>>::empty().push(line) =~= seq![line]);
}

proof fn lemma_line_first(line: Seq<char>, rest: Seq<char>)
    requires
        !line.contains('\n'),
    ensures
        text::lines_of(line.push('\n') + rest) == seq![text::without_carriage_return(line)]
            + text::lines_of(rest),
{
    lemma_split_whole(line, '\n');
    lemma_lines_concat(line, rest);
    lemma_lines_ended(line);
    assert(text::ended_lines(line) =~= Seq::empty());
    assert(Seq::<Seq<char>>::empty().push(text::without_carriage_return(line)) =~= seq![
        text::without_carriage_return(line),
    ]);
}

/// White space parts the words before it from the words behind it, and a text
/// without white space is one word.
pub proof fn law_words(a: Seq<char>, c: char, b: Seq<char>)
    requires
        text::is_white(c),
    ensures
        text::words_of(a.push(c) + b) == text::words_of(a) + text::words_of(b),
        a.len() == 0 ==> text::words_of(a) == Seq::<Seq<char>>::empty(),
        a.len() > 0 && (forall|i: int| 0 <= i < a.len() ==> !text::is_white(#[trigger] a[i]))
            ==> text::words_of(a) == seq![a],
    decreases b.len(),
{
    lemma_one_word(a);
    let s = a.push(c) + b;
    if b.len() == 0 {
        assert(s.drop_last() =~= a);
        assert(text::words_of(a) + text::words_of(b) =~= text::words_of(a));
    } else {
        let front = b.drop_last();
        law_words(a, c, front);
        assert(s.drop_last() =~= a.push(c) + front);
        assert(s.last() == b.last());
        let wa = text::words_of(a);
        let wf = text::words_of(front);
        if b.len() == 1 {
            assert(s[s.len() - 2] == c);
        } else {
            assert(s[s.len() - 2] == b[b.len() - 2]);
            assert(front.last() == b[b.len() - 2]);
        }
        if text::is_white(b.last()) {
        } else if b.len() == 1 || text::is_white(b[b.len() - 2]) {
            assert((wa + wf).push(seq![b.last()]) =~= wa + wf.push(seq![b.last()]));
        } else {
            assert(wf.len() > 0);
            assert((wa + wf).drop_last() =~= wa + wf.drop_last());
            assert((wa + wf).last() == wf.last());
            assert(text::words_of(s) =~= wa + text::words_of(b));
        }
    }
}

proof fn lemma_one_word(a: Seq<char>)
    ensures
        a.len() > 0 && (forall|i: int| 0 <= i < a.len() ==> !text::is_white(#[trigger] a[i]))
            ==> text::words_of(a) == seq![a],
    decreases a.len(),
{
    if a.len() > 0 && (forall|i: int| 0 <= i < a.len() ==> !text::is_white(#[trigger] a[i])) {
        let front = a.drop_last();
        assert forall|i: int| 0 <= i < front.len() implies !text::is_white(#[trigger] front[i]) by {
            assert(!text::is_white(a[i]));
        }
        assert(!text::is_white(a[a.len() - 1]));
        lemma_one_word(front);
        if a.len() == 1 {
            assert(text::words_of(front) =~= Seq::empty());
            assert(seq![a.last()] =~= a);
            assert(text::words_of(a) =~= seq![a]);
        } else {
            assert(!text::is_white(a[a.len() - 2]));
            assert(front.push(a.last()) =~= a);
            assert(text::words_of(a) =~= seq![a]);
        }
    }
}

/// A part occurs in a text exactly if the text is something, the part, and
/// something more.
pub proof fn law_has_part(s: Seq<char>, part: Seq<char>, before: Seq<char>, after: Seq<char>)
    ensures
        text::has_part(before + part + after, part),
        text::has_part(s, part) ==> exists|at: int|
            0 <= at <= s.len() - part.len() && s == #[trigger] s.take(at) + part + s.skip(
                at + part.len(),
            ),
{
    let whole = before + part + after;
    assert(whole.subrange(before.len() as int, before.len() as int + part.len()) =~= part);
    assert(text::occurs_at(whole, part, before.len() as int));
    if text::has_part(s, part) {
        let at = choose|at: int| #[trigger] text::occurs_at(s, part, at);
        assert(s =~= s.take(at) + s.subrange(at, at + part.len()) + s.skip(at + part.len()));
    }
}

/// The texts of a list are seen in their order, each with its characters.
pub proof fn law_text_views(list: Seq<&str>, owned: Seq<String>)
    ensures
        text::views(list).len() == list.len(),
        forall|i: int| 0 <= i < list.len() ==> #[trigger] text::views(list)[i] == list[i]@,
        text::string_views(owned).len() == owned.len(),
        forall|i: int| 0 <= i < owned.len() ==> #[trigger] text::string_views(owned)[i] == owned[i]@,
{
}

} // verus!
