//! What holds of splitting, joining and trimming any text.

use vstd::prelude::*;
use vstd::utf8::*;

use crate::text;

verus! {

/// A character joined to the last part is joined to the whole.
proof fn lemma_joined_push_last(parts: Seq<Seq<char>>, sep: Seq<char>, x: char)
    requires
        parts.len() > 0,
    ensures
        text::joined(parts.drop_last().push(parts.last().push(x)), sep) == text::joined(
            parts,
            sep,
        ).push(x),
{
    let longer = parts.drop_last().push(parts.last().push(x));
    assert(longer.drop_last() == parts.drop_last());
    if parts.len() > 1 {
        assert(text::joined(longer, sep) =~= text::joined(parts, sep).push(x));
    }
}

/// The pieces of a text, joined by what they were split at, are the text.
pub proof fn law_joined_pieces(s: Seq<char>, c: char)
    ensures
        text::joined(text::pieces(s, c), seq![c]) == s,
    decreases s.len(),
{
    if s.len() > 0 {
        let before = text::pieces(s.drop_last(), c);
        text::lemma_pieces_nonempty(s.drop_last(), c);
        law_joined_pieces(s.drop_last(), c);
        if s.last() == c {
            let parts = before.push(Seq::empty());
            assert(parts.drop_last() == before);
            assert(text::joined(parts, seq![c]) =~= s);
        } else {
            lemma_joined_push_last(before, seq![c], s.last());
            assert(s.drop_last().push(s.last()) == s);
        }
    }
}

/// Behind a separator a new piece begins.
proof fn lemma_pieces_append(a: Seq<char>, b: Seq<char>, c: char)
    requires
        !b.contains(c),
    ensures
        text::pieces(a + seq![c] + b, c) == text::pieces(a, c).push(b),
    decreases b.len(),
{
    let s = a + seq![c] + b;
    if b.len() == 0 {
        assert(s.drop_last() =~= a);
        assert(b == Seq::<char>::empty());
    } else {
        let shorter = b.drop_last();
        assert forall|i: int| 0 <= i < shorter.len() implies shorter[i] != c by {
            assert(b[i] == shorter[i]);
        }
        assert(s.drop_last() =~= a + seq![c] + shorter);
        lemma_pieces_append(a, shorter, c);
        assert(b.contains(b.last()));
        let before = text::pieces(a, c).push(shorter);
        assert(before.drop_last() == text::pieces(a, c));
        assert(shorter.push(b.last()) == b);
    }
}

/// A text without the separator is its only piece.
proof fn lemma_one_piece(s: Seq<char>, c: char)
    requires
        !s.contains(c),
    ensures
        text::pieces(s, c) == seq![s],
    decreases s.len(),
{
    if s.len() > 0 {
        let shorter = s.drop_last();
        assert forall|i: int| 0 <= i < shorter.len() implies shorter[i] != c by {
            assert(s[i] == shorter[i]);
        }
        lemma_one_piece(shorter, c);
        assert(s.contains(s.last()));
        assert(seq![shorter].drop_last() == Seq::<Seq<char>>::empty());
        assert(shorter.push(s.last()) == s);
        assert(text::pieces(s, c) =~= seq![s]);
    } else {
        assert(s == Seq::<char>::empty());
    }
}

/// Parts without the separator, joined by it, are the pieces of what they make.
pub proof fn law_pieces_joined(parts: Seq<Seq<char>>, c: char)
    requires
        parts.len() > 0,
        forall|i: int| 0 <= i < parts.len() ==> !(#[trigger] parts[i]).contains(c),
    ensures
        text::pieces(text::joined(parts, seq![c]), c) == parts,
    decreases parts.len(),
{
    if parts.len() == 1 {
        lemma_one_piece(parts[0], c);
        assert(seq![parts[0]] =~= parts);
    } else {
        let before = parts.drop_last();
        assert forall|i: int| 0 <= i < before.len() implies !(#[trigger] before[i]).contains(c) by {
            assert(parts[i] == before[i]);
        }
        law_pieces_joined(before, c);
        lemma_pieces_append(text::joined(before, seq![c]), parts.last(), c);
        assert(before.push(parts.last()) =~= parts);
    }
}

/// No piece holds the separator.
proof fn lemma_pieces_free(s: Seq<char>, c: char)
    ensures
        forall|i: int| 0 <= i < text::pieces(s, c).len() ==> !(#[trigger] text::pieces(
            s,
            c,
        )[i]).contains(c),
    decreases s.len(),
{
    if s.len() > 0 {
        lemma_pieces_free(s.drop_last(), c);
        text::lemma_pieces_nonempty(s.drop_last(), c);
        let before = text::pieces(s.drop_last(), c);
        assert forall|i: int| 0 <= i < text::pieces(s, c).len() implies !(#[trigger] text::pieces(
            s,
            c,
        )[i]).contains(c) by {
            let piece = text::pieces(s, c)[i];
            if i < before.len() - 1 {
                assert(piece == before[i]);
            } else if s.last() != c {
                assert(piece == before.last().push(s.last()));
                if piece.contains(c) {
                    let j = piece.index_of(c);
                    assert(before[before.len() - 1][j] == c);
                }
            } else if i == before.len() - 1 {
                assert(piece == before[i]);
            }
        }
    }
}

/// The last piece ends as the text does, unless it is empty.
proof fn lemma_last_piece(s: Seq<char>, c: char)
    ensures
        text::pieces(s, c).last().len() > 0 ==> s.len() > 0 && text::pieces(s, c).last().last()
            == s.last(),
        s.len() > 0 && s.last() != c ==> text::pieces(s, c).last().len() > 0,
{
}

/// A piece that ends with a carriage return has a line feed after it, unless it is the last.
proof fn lemma_returns(s: Seq<char>, i: int)
    requires
        0 <= i < text::pieces(s, '\n').len() - 1,
        text::pieces(s, '\n')[i].len() > 0,
        text::pieces(s, '\n')[i].last() == '\r',
    ensures
        text::occurs_in(s, "\r\n"@),
    decreases s.len(),
{
    reveal_strlit("\r\n");
    if s.len() > 0 {
        let shorter = s.drop_last();
        let before = text::pieces(shorter, '\n');
        text::lemma_pieces_nonempty(shorter, '\n');
        if i < before.len() - 1 {
            lemma_returns(shorter, i);
            let j = choose|j: int| text::occurs_at(shorter, "\r\n"@, j);
            assert(s.subrange(j, j + 2) =~= shorter.subrange(j, j + 2));
            assert(text::occurs_at(s, "\r\n"@, j));
        } else {
            lemma_last_piece(shorter, '\n');
            assert(s.subrange(s.len() - 2, s.len() as int) =~= "\r\n"@);
            assert(text::occurs_at(s, "\r\n"@, s.len() - 2));
        }
    }
}

/// A text that has no carriage return before a line feed, and does not end with a line feed, is its
/// lines joined by line feeds.
pub proof fn law_joined_lines(s: Seq<char>)
    requires
        !text::occurs_in(s, "\r\n"@),
        s.len() > 0 ==> s.last() != '\n',
    ensures
        text::joined(text::text_lines(s), "\n"@) == s,
        s.len() > 0 ==> text::text_lines(s) == text::pieces(s, '\n'),
{
    reveal_strlit("\n");
    assert("\n"@ =~= seq!['\n']);
    let all = text::pieces(s, '\n');
    text::lemma_pieces_nonempty(s, '\n');
    law_joined_pieces(s, '\n');
    lemma_last_piece(s, '\n');
    if s.len() > 0 {
        let ended = all.drop_last().map_values(|l: Seq<char>| text::without_return(l));
        assert forall|i: int| 0 <= i < ended.len() implies ended[i] == all[i] by {
            if all[i].len() > 0 && all[i].last() == '\r' {
                lemma_returns(s, i);
            }
        }
        assert(ended.push(all.last()) =~= all);
    } else {
        assert(text::text_lines(s) =~= Seq::empty());
        assert(s =~= Seq::empty());
    }
}

/// No line holds a line feed.
pub proof fn lemma_lines_free(s: Seq<char>)
    ensures
        forall|i: int| 0 <= i < text::text_lines(s).len() ==> !(#[trigger] text::text_lines(
            s,
        )[i]).contains('\n'),
{
    let all = text::pieces(s, '\n');
    text::lemma_pieces_nonempty(s, '\n');
    lemma_pieces_free(s, '\n');
    assert forall|i: int| 0 <= i < text::text_lines(s).len() implies !(#[trigger] text::text_lines(
        s,
    )[i]).contains('\n') by {
        let line = text::text_lines(s)[i];
        if line.contains('\n') {
            let j = line.index_of('\n');
            assert(all[i][j] == '\n');
        }
    }
}

/// Trimming takes all white space from the ends at once.
pub proof fn law_trimmed_twice(s: Seq<char>)
    ensures
        text::trimmed(text::trimmed(s)) == text::trimmed(s),
{
    lemma_trimmed_ends(s);
}

/// No white space is at the ends of what is trimmed.
pub proof fn lemma_trimmed_ends(s: Seq<char>)
    ensures
        text::trimmed(s).len() > 0 ==> {
            &&& !text::white_space(text::trimmed(s)[0])
            &&& !text::white_space(text::trimmed(s).last())
        },
{
    lemma_trimmed_start_ends(s);
    lemma_trimmed_end_ends(text::trimmed_start(s));
    lemma_trimmed_end_begins(text::trimmed_start(s));
}

proof fn lemma_trimmed_start_ends(s: Seq<char>)
    ensures
        text::trimmed_start(s).len() > 0 ==> !text::white_space(text::trimmed_start(s)[0]),
    decreases s.len(),
{
    if s.len() > 0 && text::white_space(s[0]) {
        lemma_trimmed_start_ends(s.drop_first());
    }
}

proof fn lemma_trimmed_end_ends(s: Seq<char>)
    ensures
        text::trimmed_end(s).len() > 0 ==> !text::white_space(text::trimmed_end(s).last()),
    decreases s.len(),
{
    if s.len() > 0 && text::white_space(s.last()) {
        lemma_trimmed_end_ends(s.drop_last());
    }
}

/// What a text begins with stays when white space at its end goes, unless nothing stays; and it
/// stays in any case if it is no white space.
pub proof fn lemma_trimmed_end_begins(s: Seq<char>)
    ensures
        text::trimmed_end(s).len() > 0 ==> text::trimmed_end(s)[0] == s[0],
        s.len() > 0 && !text::white_space(s[0]) ==> text::trimmed_end(s).len() > 0,
    decreases s.len(),
{
    if s.len() > 0 && text::white_space(s.last()) {
        lemma_trimmed_end_begins(s.drop_last());
    }
}

/// Trimming takes the white space around a text, all of it and nothing else.
pub proof fn law_trimming(before: Seq<char>, s: Seq<char>, after: Seq<char>)
    requires
        forall|i: int| 0 <= i < before.len() ==> text::white_space(#[trigger] before[i]),
        forall|i: int| 0 <= i < after.len() ==> text::white_space(#[trigger] after[i]),
        s.len() > 0 ==> !text::white_space(s[0]) && !text::white_space(s.last()),
    ensures
        text::trimmed(before + s + after) == s,
        text::trimmed_end(s + after) == s,
    decreases before.len() + after.len(),
{
    let all = before + s + after;
    if after.len() > 0 {
        let shorter = after.drop_last();
        assert forall|i: int| 0 <= i < shorter.len() implies text::white_space(
            #[trigger] shorter[i],
        ) by {
            assert(after[i] == shorter[i]);
        }
        assert((s + after).drop_last() =~= s + shorter);
        law_trimming(Seq::empty(), s, shorter);
    } else {
        assert(s + after =~= s);
    }
    if before.len() > 0 {
        let shorter = before.drop_first();
        assert forall|i: int| 0 <= i < shorter.len() implies text::white_space(
            #[trigger] shorter[i],
        ) by {
            assert(before[i + 1] == shorter[i]);
        }
        assert(all.drop_first() =~= shorter + s + after);
        law_trimming(shorter, s, after);
    } else if s.len() > 0 {
        assert(all =~= s + after);
    } else {
        lemma_all_white(all);
        assert(s =~= Seq::empty());
    }
}

/// Nothing is left of white space.
proof fn lemma_all_white(s: Seq<char>)
    requires
        forall|i: int| 0 <= i < s.len() ==> text::white_space(#[trigger] s[i]),
    ensures
        text::trimmed(s) == Seq::<char>::empty(),
    decreases s.len(),
{
    if s.len() > 0 {
        let shorter = s.drop_first();
        assert forall|i: int| 0 <= i < shorter.len() implies text::white_space(
            #[trigger] shorter[i],
        ) by {
            assert(s[i + 1] == shorter[i]);
        }
        lemma_all_white(shorter);
    }
}

/// Every text is some white space, what trimming leaves of it, and some white space again.
pub proof fn law_trimmed_is_inside(s: Seq<char>) -> (ends: (Seq<char>, Seq<char>))
    ensures
        s == ends.0 + text::trimmed(s) + ends.1,
        forall|i: int| 0 <= i < ends.0.len() ==> text::white_space(#[trigger] ends.0[i]),
        forall|i: int| 0 <= i < ends.1.len() ==> text::white_space(#[trigger] ends.1[i]),
{
    let before = lemma_trimmed_start_inside(s);
    let after = lemma_trimmed_end_inside(text::trimmed_start(s));
    assert(s =~= before + text::trimmed(s) + after);
    (before, after)
}

proof fn lemma_trimmed_start_inside(s: Seq<char>) -> (before: Seq<char>)
    ensures
        s == before + text::trimmed_start(s),
        forall|i: int| 0 <= i < before.len() ==> text::white_space(#[trigger] before[i]),
    decreases s.len(),
{
    if s.len() > 0 && text::white_space(s[0]) {
        let rest = lemma_trimmed_start_inside(s.drop_first());
        let before = seq![s[0]] + rest;
        assert forall|i: int| 0 <= i < before.len() implies text::white_space(
            #[trigger] before[i],
        ) by {
            if i > 0 {
                assert(before[i] == rest[i - 1]);
            }
        }
        assert(s =~= seq![s[0]] + s.drop_first());
        assert(seq![s[0]] + (rest + text::trimmed_start(s)) =~= before + text::trimmed_start(s));
        before
    } else {
        assert(s =~= Seq::<char>::empty() + s);
        Seq::empty()
    }
}

/// What goes from the end of a text is white space.
pub proof fn lemma_trimmed_end_inside(s: Seq<char>) -> (after: Seq<char>)
    ensures
        s == text::trimmed_end(s) + after,
        forall|i: int| 0 <= i < after.len() ==> text::white_space(#[trigger] after[i]),
    decreases s.len(),
{
    if s.len() > 0 && text::white_space(s.last()) {
        let rest = lemma_trimmed_end_inside(s.drop_last());
        let after = rest.push(s.last());
        assert forall|i: int| 0 <= i < after.len() implies text::white_space(#[trigger] after[i]) by {
            if i < rest.len() {
                assert(after[i] == rest[i]);
            }
        }
        assert(s =~= s.drop_last().push(s.last()));
        assert((text::trimmed_end(s) + rest).push(s.last()) =~= text::trimmed_end(s) + after);
        after
    } else {
        assert(s =~= s + Seq::<char>::empty());
        Seq::empty()
    }
}

/// All the characters of one kind that a text ends with go, and nothing else.
pub proof fn law_without_final(s: Seq<char>, tail: Seq<char>, c: char)
    requires
        s.len() > 0 ==> s.last() != c,
        forall|i: int| 0 <= i < tail.len() ==> #[trigger] tail[i] == c,
    ensures
        text::without_final(s + tail, c) == s,
    decreases tail.len(),
{
    if tail.len() > 0 {
        let shorter = tail.drop_last();
        assert forall|i: int| 0 <= i < shorter.len() implies #[trigger] shorter[i] == c by {
            assert(tail[i] == shorter[i]);
        }
        assert((s + tail).drop_last() =~= s + shorter);
        assert((s + tail).last() == tail.last());
        law_without_final(s, shorter, c);
    } else {
        assert(s + tail =~= s);
    }
}

/// White space at the beginning goes, up to a number of characters, and nothing else.
pub proof fn law_unindenting(indent: Seq<char>, s: Seq<char>, n: nat)
    requires
        forall|i: int| 0 <= i < indent.len() ==> text::white_space(#[trigger] indent[i]),
        indent.len() <= n,
        indent.len() < n && s.len() > 0 ==> !text::white_space(s[0]),
    ensures
        text::unindented(indent + s, n) == s,
    decreases indent.len(),
{
    if indent.len() > 0 {
        let shorter = indent.drop_first();
        assert forall|i: int| 0 <= i < shorter.len() implies text::white_space(
            #[trigger] shorter[i],
        ) by {
            assert(indent[i + 1] == shorter[i]);
        }
        assert((indent + s).drop_first() =~= shorter + s);
        law_unindenting(shorter, s, (n - 1) as nat);
    } else {
        assert(indent + s =~= s);
    }
}

/// A text is cut before the last of the characters that it is cut at, if it has any.
pub proof fn law_before_last(head: Seq<char>, tail: Seq<char>, c: char)
    requires
        !tail.contains(c),
    ensures
        text::before_last(head + seq![c] + tail, c) == Some(head),
        text::before_last(tail, c) is None,
    decreases tail.len(),
{
    let s = head + seq![c] + tail;
    if tail.len() > 0 {
        let shorter = tail.drop_last();
        assert forall|i: int| 0 <= i < shorter.len() implies shorter[i] != c by {
            assert(tail[i] == shorter[i]);
        }
        assert(tail.contains(tail.last()));
        assert(s.drop_last() =~= head + seq![c] + shorter);
        law_before_last(head, shorter, c);
    } else {
        assert(s.drop_last() =~= head);
    }
}

/// A text is cut behind the first of the characters that it is cut at, if it has any.
pub proof fn law_after_first(head: Seq<char>, tail: Seq<char>, c: char)
    requires
        !head.contains(c),
    ensures
        text::after_first(head + seq![c] + tail, c) == Some(tail),
        text::after_first(head, c) is None,
    decreases head.len(),
{
    let s = head + seq![c] + tail;
    if head.len() > 0 {
        let shorter = head.drop_first();
        assert forall|i: int| 0 <= i < shorter.len() implies shorter[i] != c by {
            assert(head[i + 1] == shorter[i]);
        }
        assert(head.contains(head[0]));
        assert(s.drop_first() =~= shorter + seq![c] + tail);
        law_after_first(shorter, tail, c);
    } else {
        assert(s.drop_first() =~= tail);
    }
}

/// A pattern stands in a text exactly where the text is something, the pattern, and something.
pub proof fn law_occurrence(before: Seq<char>, pat: Seq<char>, after: Seq<char>)
    ensures
        text::occurs_in(before + pat + after, pat),
        forall|s: Seq<char>|
            text::occurs_in(s, pat) ==> exists|a: Seq<char>, b: Seq<char>| s == #[trigger] (a + pat + b),
{
    let s = before + pat + after;
    assert(s.subrange(before.len() as int, (before.len() + pat.len()) as int) =~= pat);
    assert(text::occurs_at(s, pat, before.len() as int));
    assert forall|s: Seq<char>| text::occurs_in(s, pat) implies exists|a: Seq<char>, b: Seq<char>|
        s == #[trigger] (a + pat + b) by {
        let i = choose|i: int| text::occurs_at(s, pat, i);
        assert(s =~= s.take(i) + pat + s.skip(i + pat.len()));
    }
}

/// The parts of two lists, joined one list after the other, are the parts of both joined.
pub proof fn law_joining(one: Seq<Seq<char>>, other: Seq<Seq<char>>, part: Seq<char>, sep: Seq<char>)
    ensures
        text::joined(Seq::empty(), sep) == Seq::<char>::empty(),
        text::joined(seq![part], sep) == part,
        one.len() > 0 && other.len() > 0 ==> text::joined(one + other, sep) == text::joined(one, sep)
            + sep + text::joined(other, sep),
    decreases other.len(),
{
    if one.len() > 0 && other.len() > 0 {
        let all = one + other;
        assert(all.last() == other.last());
        if other.len() > 1 {
            assert(all.drop_last() =~= one + other.drop_last());
            law_joining(one, other.drop_last(), part, sep);
            assert(text::joined(all, sep) =~= text::joined(one, sep) + sep + text::joined(other, sep));
        } else {
            assert(all.drop_last() =~= one);
        }
    }
}

/// Up to its first separator a text is one piece, and the rest is split alike.
proof fn lemma_pieces_first(a: Seq<char>, b: Seq<char>, c: char)
    requires
        !a.contains(c),
    ensures
        text::pieces(a + seq![c] + b, c) == seq![a] + text::pieces(b, c),
    decreases b.len(),
{
    let s = a + seq![c] + b;
    if b.len() == 0 {
        assert(s.drop_last() =~= a);
        lemma_one_piece(a, c);
        assert(text::pieces(s, c) =~= seq![a] + text::pieces(b, c));
    } else {
        let shorter = b.drop_last();
        assert(s.drop_last() =~= a + seq![c] + shorter);
        lemma_pieces_first(a, shorter, c);
        text::lemma_pieces_nonempty(shorter, c);
        assert(text::pieces(s, c) =~= seq![a] + text::pieces(b, c));
    }
}

/// A line ends at its line feed, or at the carriage return right before that, and the lines of the
/// rest follow. The end of a text ends a line too, unless nothing stands in it.
pub proof fn law_lines_of_text(line: Seq<char>, rest: Seq<char>)
    requires
        !line.contains('\n'),
    ensures
        line.len() > 0 && line.last() == '\r' || text::text_lines(line + "\n"@ + rest) == seq![line]
            + text::text_lines(rest),
        text::text_lines(line + "\r\n"@ + rest) == seq![line] + text::text_lines(rest),
        line.len() > 0 ==> text::text_lines(line) == seq![line],
        text::text_lines(Seq::empty()) == Seq::<Seq<char>>::empty(),
{
    reveal_strlit("\n");
    reveal_strlit("\r\n");
    lemma_first_line(line, rest);
    let returned = line.push('\r');
    assert(!returned.contains('\n')) by {
        if returned.contains('\n') {
            let i = returned.index_of('\n');
            assert(line[i] == '\n');
        }
    }
    lemma_first_line(returned, rest);
    assert(line + "\r\n"@ + rest =~= returned + seq!['\n'] + rest);
    assert(line + "\n"@ + rest =~= line + seq!['\n'] + rest);
    assert(returned.drop_last() =~= line);
    lemma_one_piece(line, '\n');
    assert(text::text_lines(Seq::empty()) =~= Seq::<Seq<char>>::empty());
    if line.len() > 0 {
        assert(text::text_lines(line) =~= seq![line]);
    }
}

proof fn lemma_first_line(line: Seq<char>, rest: Seq<char>)
    requires
        !line.contains('\n'),
    ensures
        text::text_lines(line + seq!['\n'] + rest) == seq![text::without_return(line)]
            + text::text_lines(rest),
{
    let s = line + seq!['\n'] + rest;
    lemma_pieces_first(line, rest, '\n');
    text::lemma_pieces_nonempty(rest, '\n');
    let all = text::pieces(rest, '\n');
    assert(text::pieces(s, '\n').last() == all.last());
    assert(text::text_lines(s) =~= seq![text::without_return(line)] + text::text_lines(rest));
}

/// Replacing changes a pattern where it first stands, and then what follows it; a text without the
/// pattern stays as it is.
pub proof fn law_replacing(before: Seq<char>, from: Seq<char>, after: Seq<char>, to: Seq<char>)
    requires
        from.len() > 0,
        forall|i: int|
            0 <= i < before.len() ==> !#[trigger] text::occurs_at(before + from + after, from, i),
    ensures
        text::replaced(before + from + after, from, to) == before + to + text::replaced(
            after,
            from,
            to,
        ),
        text::replaced_first(before + from + after, from, to) == before + to + after,
    decreases before.len(),
{
    let s = before + from + after;
    if before.len() == 0 {
        assert(s.subrange(0, from.len() as int) =~= from);
        assert(text::occurs_at(s, from, 0));
        assert(s.skip(from.len() as int) =~= after);
        assert(before + to =~= to);
    } else {
        let shorter = before.drop_first();
        let rest = shorter + from + after;
        assert(s.skip(1) =~= rest);
        assert forall|i: int| 0 <= i < shorter.len() implies !#[trigger] text::occurs_at(
            shorter + from + after,
            from,
            i,
        ) by {
            assert(!text::occurs_at(before + from + after, from, i + 1));
            if i + from.len() <= rest.len() {
                assert(s.subrange(i + 1, i + 1 + from.len()) =~= rest.subrange(i, i + from.len()));
            }
        }
        law_replacing(shorter, from, after, to);
        assert(!text::occurs_at(before + from + after, from, 0));
        assert(seq![s[0]] + (shorter + to + text::replaced(after, from, to)) =~= before + to
            + text::replaced(after, from, to));
        assert(seq![s[0]] + (shorter + to + after) =~= before + to + after);
    }
}

/// A text without the pattern is not changed by replacing it.
pub proof fn law_nothing_to_replace(s: Seq<char>, from: Seq<char>, to: Seq<char>)
    requires
        !text::occurs_in(s, from),
    ensures
        text::replaced(s, from, to) == s,
        text::replaced_first(s, from, to) == s,
    decreases s.len(),
{
    if s.len() > 0 && s.len() >= from.len() && from.len() > 0 {
        assert(!text::occurs_at(s, from, 0));
        let rest = s.skip(1);
        if text::occurs_in(rest, from) {
            let i = choose|i: int| text::occurs_at(rest, from, i);
            assert(s.subrange(i + 1, i + 1 + from.len()) =~= rest.subrange(i, i + from.len()));
            assert(text::occurs_at(s, from, i + 1));
        }
        law_nothing_to_replace(rest, from, to);
        assert(seq![s[0]] + rest =~= s);
    } else if from.len() == 0 {
        assert(s.subrange(0, 0) =~= from);
        assert(text::occurs_at(s, from, 0));
    }
}

/// The bytes of a text are the bytes of its head and then those of the rest.
proof fn lemma_bytes_of_both(a: Seq<char>, b: Seq<char>)
    ensures
        encode_utf8(a + b) == encode_utf8(a) + encode_utf8(b),
        is_char_boundary(encode_utf8(a + b), encode_utf8(a).len() as int),
    decreases a.len(),
{
    broadcast use encode_utf8_valid_utf8;

    if a.len() == 0 {
        assert(a + b =~= b);
        assert(encode_utf8(a) + encode_utf8(b) =~= encode_utf8(b));
    } else {
        let rest = a.drop_first();
        assert((a + b).drop_first() =~= rest + b);
        lemma_bytes_of_both(rest, b);
        assert(encode_utf8(a + b) =~= encode_utf8(a) + encode_utf8(b));
        encode_utf8_first_scalar(a + b);
        let first = encode_scalar(a[0] as u32);
        assert(pop_first_scalar(encode_utf8(a + b)) =~= encode_utf8(rest + b));
    }
}

/// A part of a text is found by the numbers of bytes before it and up to its end.
pub proof fn law_bytes_of_part(before: Seq<char>, part: Seq<char>, after: Seq<char>)
    ensures
        text::byte_range(
            before + part + after,
            encode_utf8(before).len() as int,
            encode_utf8(before + part).len() as int,
        ) == Some(part),
{
    broadcast use encode_utf8_valid_utf8, encode_utf8_decode_utf8;

    let s = before + part + after;
    lemma_bytes_of_both(before, part);
    lemma_bytes_of_both(before + part, after);
    lemma_bytes_of_both(before, part + after);
    assert(s =~= before + (part + after));
    assert(encode_utf8(s).subrange(
        encode_utf8(before).len() as int,
        encode_utf8(before + part).len() as int,
    ) =~= encode_utf8(part));
}

/// What is found by numbers of bytes is a part of the text, with those numbers of bytes before it
/// and up to its end.
pub proof fn law_part_of_bytes(s: Seq<char>, from: int, to: int) -> (ends: (Seq<char>, Seq<char>))
    ensures
        text::byte_range(s, from, to) matches Some(part) ==> {
            &&& s == ends.0 + part + ends.1
            &&& encode_utf8(ends.0).len() == from
            &&& encode_utf8(ends.0 + part).len() == to
        },
{
    broadcast use encode_utf8_valid_utf8, encode_utf8_decode_utf8, decode_utf8_encode_utf8;

    let bytes = encode_utf8(s);
    if from <= to && is_char_boundary(bytes, from) && is_char_boundary(bytes, to) {
        let head = bytes.subrange(0, to);
        text::lemma_boundary_of_head(bytes, from, to);
        valid_utf8_split(bytes, to);
        decode_utf8_split(bytes, to);
        valid_utf8_split(head, from);
        decode_utf8_split(head, from);
        assert(head.subrange(0, from) =~= bytes.subrange(0, from));
        assert(head.subrange(from, to) =~= bytes.subrange(from, to));
        let before = decode_utf8(bytes.subrange(0, from));
        let part = decode_utf8(bytes.subrange(from, to));
        let after = decode_utf8(bytes.subrange(to, bytes.len() as int));
        assert(decode_utf8(head) == before + part);
        assert(s =~= before + part + after);
        (before, after)
    } else {
        (Seq::empty(), Seq::empty())
    }
}

/// The white space in ASCII is the space, the tabs, the line and form feeds and the carriage return.
pub proof fn law_ascii_white_space(c: char)
    requires
        c < '\u{80}',
    ensures
        text::white_space(c) <==> c == ' ' || c == '\t' || c == '\u{b}' || c == '\n' || c == '\u{c}'
            || c == '\r',
{
}

/// The texts of strings are what the strings hold, in their order.
pub proof fn law_texts(strings: Seq<String>)
    ensures
        text::texts(strings).len() == strings.len(),
        forall|i: int| 0 <= i < strings.len() ==> #[trigger] text::texts(strings)[i] == strings[i]@,
{
}

} // verus!
