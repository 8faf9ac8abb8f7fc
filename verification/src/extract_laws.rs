//! What is extracted from the lines of a source file, told by the lines alone.

use vstd::prelude::*;

use crate::decl;
use crate::docs;
use crate::text;
use crate::text_laws;

verus! {

/// A line stops the search for documentation: apart from white space it begins with four slashes,
/// or it begins with neither `#` nor two slashes and is not blank.
pub open spec fn stops(line: Seq<char>) -> bool {
    let code = text::trimmed(line);
    ||| "////"@.is_prefix_of(code)
    ||| code.len() > 0 && !"#"@.is_prefix_of(code) && !"//"@.is_prefix_of(code)
}

/// A line is a documentation comment that says `t`: apart from white space around it, it is `///`
/// or `//!`, then one white space or none, then `t`. Only with the one white space does `t` begin
/// with white space.
pub open spec fn says(line: Seq<char>, t: Seq<char>) -> bool {
    let comment = text::trimmed(line);
    &&& !"////"@.is_prefix_of(comment)
    &&& {
        ||| comment == "///"@ + t && (t.len() == 0 || !text::white_space(t[0]))
        ||| comment == "//!"@ + t && (t.len() == 0 || !text::white_space(t[0]))
        ||| exists|w: char| #[trigger]
            text::white_space(w) && (comment == "///"@ + seq![w] + t || comment == "//!"@ + seq![w]
                + t)
    }
}

/// The rows `rows`, which are some of those from `from` to before `to`, are all the documentation
/// comments among them, and say `said`.
pub open spec fn comments_say(
    lines: Seq<Seq<char>>,
    from: int,
    to: int,
    rows: Seq<int>,
    said: Seq<Seq<char>>,
) -> bool {
    &&& rows.len() == said.len()
    &&& forall|j: int| 0 <= j < rows.len() ==> from <= #[trigger] rows[j] < to
    &&& forall|a: int, b: int| 0 <= a < b < rows.len() ==> rows[a] < rows[b]
    &&& forall|j: int| 0 <= j < rows.len() ==> says(lines[#[trigger] rows[j]], said[j])
    &&& forall|i: int|
        from <= i < to && !rows.contains(i) ==> {
            &&& !"///"@.is_prefix_of(text::trimmed(#[trigger] lines[i]))
            &&& !"//!"@.is_prefix_of(text::trimmed(lines[i]))
        }
}

/// A documentation comment says what stands behind its marker and one white space, with every
/// further white space, or right behind its marker where no white space is there.
pub proof fn law_comment_text(line: Seq<char>, t: Seq<char>)
    requires
        says(line, t),
    ensures
        docs::doc_comment(line),
        docs::doc_text(line) == t,
{
    reveal_strlit("///");
    reveal_strlit("//!");
    let comment = text::trimmed(line);
    if comment == "///"@ + t || comment == "//!"@ + t {
        if t.len() == 0 || !text::white_space(t[0]) {
            let marker = if comment == "///"@ + t {
                "///"@
            } else {
                "//!"@
            };
            assert(comment.subrange(0, 3) =~= marker);
            assert(comment.skip(3) =~= t);
        }
    }
    if exists|w: char| #[trigger]
        text::white_space(w) && (comment == "///"@ + seq![w] + t || comment == "//!"@ + seq![w] + t) {
        let w = choose|w: char| #[trigger]
            text::white_space(w) && (comment == "///"@ + seq![w] + t || comment == "//!"@ + seq![w]
                + t);
        let marker = if comment == "///"@ + seq![w] + t {
            "///"@
        } else {
            "//!"@
        };
        assert(comment.subrange(0, 3) =~= marker);
        assert(comment[3] == w);
        assert(comment.skip(4) =~= t);
    }
}

proof fn lemma_doc_texts(
    lines: Seq<Seq<char>>,
    from: int,
    to: int,
    rows: Seq<int>,
    said: Seq<Seq<char>>,
)
    requires
        from <= to,
        comments_say(lines, from, to, rows, said),
    ensures
        docs::doc_texts(lines, from, to) == said,
    decreases to - from,
{
    if from == to {
        if rows.len() > 0 {
            assert(from <= rows[0] < to);
        }
        assert(said =~= Seq::empty());
    } else if rows.contains(to - 1) {
        let j = rows.index_of(to - 1);
        let n = rows.len() - 1;
        if j < n {
            assert(rows[j] < rows[n]);
        }
        law_comment_text(lines[rows[n]], said[n]);
        let before = rows.drop_last();
        assert forall|i: int| from <= i < to - 1 && !before.contains(i) implies {
            &&& !"///"@.is_prefix_of(text::trimmed(#[trigger] lines[i]))
            &&& !"//!"@.is_prefix_of(text::trimmed(lines[i]))
        } by {
            if rows.contains(i) {
                let j = rows.index_of(i);
                assert(before[j] == i);
            }
        }
        assert forall|j: int| 0 <= j < before.len() implies from <= #[trigger] before[j] < to - 1 by {
            assert(rows[j] < rows[n]);
        }
        assert forall|j: int| 0 <= j < before.len() implies says(
            lines[#[trigger] before[j]],
            said.drop_last()[j],
        ) by {
            assert(before[j] == rows[j]);
        }
        lemma_doc_texts(lines, from, to - 1, before, said.drop_last());
        assert(said.drop_last().push(said.last()) =~= said);
    } else {
        assert forall|j: int| 0 <= j < rows.len() implies from <= #[trigger] rows[j] < to - 1 by {
            assert(rows.contains(rows[j]));
        }
        assert(!docs::doc_comment(lines[to - 1]));
        lemma_doc_texts(lines, from, to - 1, rows, said);
    }
}

proof fn lemma_first_doc_row(lines: Seq<Seq<char>>, row: int, from: int)
    requires
        0 <= from <= row <= lines.len(),
        from == 0 || stops(lines[from - 1]),
        forall|i: int| from <= i < row ==> !stops(#[trigger] lines[i]),
    ensures
        docs::first_doc_row(lines, row) == from,
    decreases row - from,
{
    if from < row {
        assert(!stops(lines[row - 1]));
        lemma_first_doc_row(lines, row - 1, from);
    }
}

proof fn lemma_docs_end_row(lines: Seq<Seq<char>>, row: int, to: int)
    requires
        0 <= row <= to < lines.len(),
        to <= u32::MAX,
        stops(lines[to]),
        forall|i: int| row <= i < to ==> !stops(#[trigger] lines[i]),
    ensures
        docs::docs_end_row(lines, row) == to,
    decreases to - row,
{
    if row < to {
        assert(!stops(lines[row]));
        lemma_docs_end_row(lines, row + 1, to);
    }
}

/// The documentation of an item is what the comments say in the rows right above it, up to the
/// closest that stops the search, or else to the first of the file: these texts, one line each and
/// cleaned, unless that leaves nothing but white space.
pub proof fn law_item_docs(
    lines: Seq<Seq<char>>,
    row: int,
    from: int,
    rows: Seq<int>,
    said: Seq<Seq<char>>,
)
    requires
        1 <= row <= lines.len(),
        0 <= from <= row,
        from == 0 || stops(lines[from - 1]),
        forall|i: int| from <= i < row ==> !stops(#[trigger] lines[i]),
        comments_say(lines, from, row, rows, said),
    ensures
        ({
            let docs = docs::cleaned(text::joined(said, "\n"@));
            docs::extracted_docs(lines, row) == if text::trimmed(docs) == Seq::<char>::empty() {
                None
            } else {
                Some(docs)
            }
        }),
{
    lemma_first_doc_row(lines, row, from);
    lemma_doc_texts(lines, from, row, rows, said);
    assert(text::trimmed(docs::cleaned(text::joined(said, "\n"@))).len() == 0 ==> text::trimmed(
        docs::cleaned(text::joined(said, "\n"@)),
    ) =~= Seq::<char>::empty());
}

/// The documentation of a file, which is that of row 0, is what the comments say in the rows from
/// row 0 to before the first that stops the search: these texts, one line each and cleaned, unless
/// that leaves nothing but white space.
pub proof fn law_file_docs(lines: Seq<Seq<char>>, to: int, rows: Seq<int>, said: Seq<Seq<char>>)
    requires
        0 <= to < lines.len(),
        to <= u32::MAX,
        stops(lines[to]),
        forall|i: int| 0 <= i < to ==> !stops(#[trigger] lines[i]),
        comments_say(lines, 0, to, rows, said),
    ensures
        ({
            let docs = docs::cleaned(text::joined(said, "\n"@));
            docs::extracted_docs(lines, 0) == if text::trimmed(docs) == Seq::<char>::empty() {
                None
            } else {
                Some(docs)
            }
        }),
{
    lemma_docs_end_row(lines, 0, to);
    lemma_doc_texts(lines, 0, to, rows, said);
    assert(text::trimmed(docs::cleaned(text::joined(said, "\n"@))).len() == 0 ==> text::trimmed(
        docs::cleaned(text::joined(said, "\n"@)),
    ) =~= Seq::<char>::empty());
}

/// A scan for the documentation of an item finds its rows wherever the row above the item is in the
/// file.
pub proof fn law_item_docs_in_file(lines: Seq<Seq<char>>, row: int)
    requires
        1 <= row,
    ensures
        docs::docs_in_file(lines, row) <==> row - 1 < lines.len(),
{
}

/// A scan for the documentation of a file finds its rows wherever some row of the file stops it.
pub proof fn law_file_docs_in_file(lines: Seq<Seq<char>>)
    requires
        lines.len() <= u32::MAX,
    ensures
        docs::docs_in_file(lines, 0) <==> exists|to: int|
            0 <= to < lines.len() && stops(#[trigger] lines[to]),
{
    if exists|to: int| 0 <= to < lines.len() && stops(#[trigger] lines[to]) {
        let to = choose|to: int| 0 <= to < lines.len() && stops(#[trigger] lines[to]);
        lemma_docs_end_row_at_most(lines, 0, to);
    }
    lemma_docs_end_row_stops(lines, 0);
}

proof fn lemma_docs_end_row_at_most(lines: Seq<Seq<char>>, row: int, to: int)
    requires
        0 <= row <= to < lines.len(),
        stops(lines[to]),
    ensures
        docs::docs_end_row(lines, row) <= to,
    decreases to - row,
{
    if row < to && !stops(lines[row]) {
        lemma_docs_end_row_at_most(lines, row + 1, to);
    }
}

proof fn lemma_docs_end_row_stops(lines: Seq<Seq<char>>, row: int)
    requires
        0 <= row,
        lines.len() <= u32::MAX,
    ensures
        0 <= docs::docs_end_row(lines, row),
        docs::docs_end_row(lines, row) < lines.len() ==> stops(
            lines[docs::docs_end_row(lines, row)],
        ),
    decreases lines.len() - row,
{
    if row < lines.len() && !stops(lines[row]) {
        lemma_docs_end_row_stops(lines, row + 1);
    }
}

/// A documentation comment has, right behind its marker, white space that takes more than one byte.
pub open spec fn wide_behind_marker(line: Seq<char>) -> bool {
    let comment = text::trimmed(line);
    exists|w: char| #[trigger]
        text::white_space(w) && w >= '\u{80}' && (("///"@ + seq![w]).is_prefix_of(comment) || ("//!"@
            + seq![w]).is_prefix_of(comment))
}

proof fn lemma_cut_cleanly(line: Seq<char>)
    ensures
        docs::cut_cleanly(line) == !wide_behind_marker(line),
{
    reveal_strlit("///");
    reveal_strlit("//!");
    reveal_strlit("////");
    let comment = text::trimmed(line);
    if wide_behind_marker(line) {
        let w = choose|w: char| #[trigger]
            text::white_space(w) && w >= '\u{80}' && (("///"@ + seq![w]).is_prefix_of(comment) || (
            "//!"@ + seq![w]).is_prefix_of(comment));
        let marker = if ("///"@ + seq![w]).is_prefix_of(comment) {
            "///"@
        } else {
            "//!"@
        };
        assert(comment.subrange(0, 4) =~= marker + seq![w]);
        assert(comment[3] == comment.subrange(0, 4)[3]);
        assert(comment.subrange(0, 3) =~= comment.subrange(0, 4).subrange(0, 3));
        assert((marker + seq![w]).subrange(0, 3) =~= marker);
        if "////"@.is_prefix_of(comment) {
            assert(comment.subrange(0, 4)[3] == "////"@[3]);
        }
    }
    if !docs::cut_cleanly(line) {
        let w = comment[3];
        let marker = if "///"@.is_prefix_of(comment) {
            "///"@
        } else {
            "//!"@
        };
        assert(comment.subrange(0, 3) =~= marker);
        assert(comment.subrange(0, 4) =~= comment.subrange(0, 3) + seq![w]);
        assert(text::white_space(w) && (marker + seq![w]).is_prefix_of(comment));
    }
}

/// The comments above an item can be cut exactly where none of them has, right behind its marker,
/// white space that takes more than one byte.
pub proof fn law_item_docs_cut_cleanly(lines: Seq<Seq<char>>, row: int, from: int)
    requires
        1 <= row <= lines.len(),
        0 <= from <= row,
        from == 0 || stops(lines[from - 1]),
        forall|i: int| from <= i < row ==> !stops(#[trigger] lines[i]),
    ensures
        docs::docs_cut_cleanly(lines, row) <==> forall|i: int|
            from <= i < row ==> !wide_behind_marker(#[trigger] lines[i]),
{
    lemma_first_doc_row(lines, row, from);
    assert forall|i: int| from <= i < row implies docs::cut_cleanly(#[trigger] lines[i])
        == !wide_behind_marker(lines[i]) by {
        lemma_cut_cleanly(lines[i]);
    }
}

/// The comments that a file begins with can be cut exactly where none of them has, right behind its
/// marker, white space that takes more than one byte.
pub proof fn law_file_docs_cut_cleanly(lines: Seq<Seq<char>>, to: int)
    requires
        0 <= to < lines.len(),
        to <= u32::MAX,
        stops(lines[to]),
        forall|i: int| 0 <= i < to ==> !stops(#[trigger] lines[i]),
    ensures
        docs::docs_cut_cleanly(lines, 0) <==> forall|i: int|
            0 <= i < to ==> !wide_behind_marker(#[trigger] lines[i]),
{
    lemma_docs_end_row(lines, 0, to);
    assert forall|i: int| 0 <= i < to implies docs::cut_cleanly(#[trigger] lines[i])
        == !wide_behind_marker(lines[i]) by {
        lemma_cut_cleanly(lines[i]);
    }
}

/// A declaration is the lines, without the white space around them, from its row to the first that
/// has a `{` or a `;`. Of that line it is what stands before the last `{`, or before the last `;`
/// where the line has no `{`, without the white space at the end. So nothing of a body is in it
/// where the body opens with the only `{`.
pub proof fn law_declaration(
    lines: Seq<Seq<char>>,
    row: int,
    end: int,
    head: Seq<char>,
    c: char,
    tail: Seq<char>,
)
    requires
        0 <= row <= end < lines.len(),
        forall|i: int|
            row <= i < end ==> !(#[trigger] lines[i]).contains('{') && !lines[i].contains(';'),
        text::trimmed(lines[end]) == head + seq![c] + tail,
        c == '{' && !tail.contains('{') || c == ';' && !tail.contains(';') && !text::trimmed(
            lines[end],
        ).contains('{'),
    ensures
        decl::extracted_decl(lines, row) matches Some(decl) && {
            &&& decl.len() == end - row + 1
            &&& forall|k: int|
                0 <= k < end - row ==> #[trigger] decl[k] == text::trimmed(lines[row + k])
            &&& decl.last() == text::trimmed_end(head)
            &&& !head.contains('{') ==> forall|k: int|
                0 <= k < decl.len() ==> !(#[trigger] decl[k]).contains('{')
        },
{
    let code = text::trimmed(lines[end]);
    assert(code[head.len() as int] == c);
    decl::lemma_trimmed_contains(lines[end], '{');
    decl::lemma_trimmed_contains(lines[end], ';');
    lemma_decl_end_row(lines, row, end);
    text_laws::law_before_last(head, tail, c);
    decl::lemma_before_last_some(code, '{');
    let decl = decl::extracted_decl(lines, row)->0;
    assert(decl::decl_line(lines[end]) == text::trimmed_end(head));
    assert(decl.last() == decl::decl_line(lines[end]));
    assert forall|k: int| 0 <= k < end - row implies #[trigger] decl[k] == text::trimmed(
        lines[row + k],
    ) && !decl[k].contains('{') by {
        let line = lines[row + k];
        assert(!line.contains('{') && !line.contains(';'));
        assert(decl[k] == decl::decl_line(line));
        decl::lemma_trimmed_contains(line, '{');
        decl::lemma_trimmed_contains(line, ';');
        decl::lemma_before_last_some(text::trimmed(line), '{');
        decl::lemma_before_last_some(text::trimmed(line), ';');
    }
    if !head.contains('{') {
        let after = text_laws::lemma_trimmed_end_inside(head);
        if decl.last().contains('{') {
            let i = decl.last().index_of('{');
            assert(head[i] == '{');
        }
        assert forall|k: int| 0 <= k < decl.len() implies !(#[trigger] decl[k]).contains('{') by {
            if k == decl.len() - 1 {
                assert(decl[k] == decl.last());
            }
        }
    }
}

proof fn lemma_decl_end_row(lines: Seq<Seq<char>>, row: int, end: int)
    requires
        0 <= row <= end < lines.len(),
        forall|i: int|
            row <= i < end ==> !(#[trigger] lines[i]).contains('{') && !lines[i].contains(';'),
        lines[end].contains('{') || lines[end].contains(';'),
    ensures
        decl::decl_end_row(lines, row) == end,
    decreases end - row,
{
    if row < end {
        assert(!lines[row].contains('{') && !lines[row].contains(';'));
        lemma_decl_end_row(lines, row + 1, end);
    }
}

/// Where no line from its row on has a `{` or a `;`, there is no declaration, and the row that is
/// missing is the one after the last, or the given one where even that is missing.
pub proof fn law_no_declaration(lines: Seq<Seq<char>>, row: int)
    requires
        0 <= row,
        forall|i: int|
            row <= i < lines.len() ==> !(#[trigger] lines[i]).contains('{') && !lines[i].contains(
                ';',
            ),
    ensures
        decl::extracted_decl(lines, row) is None,
        decl::decl_end_row(lines, row) == if row < lines.len() {
            lines.len() as int
        } else {
            row
        },
    decreases lines.len() - row,
{
    if row < lines.len() {
        assert(!lines[row].contains('{') && !lines[row].contains(';'));
        law_no_declaration(lines, row + 1);
    }
}

} // verus!
