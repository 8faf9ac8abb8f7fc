//! What holds of documentation whatever it says.

use vstd::prelude::*;

use crate::docs;
use crate::text;
use crate::text_laws;

verus! {

/// A text that white space neither begins nor ends is trimmed.
proof fn lemma_trimmed_fixed(s: Seq<char>)
    requires
        s.len() > 0 ==> !text::white_space(s[0]) && !text::white_space(s.last()),
    ensures
        text::trimmed(s) == s,
{
}

/// A text that begins with something other than white space, begins with it when trimmed.
proof fn lemma_trimmed_first(s: Seq<char>)
    requires
        s.len() > 0,
        !text::white_space(s[0]),
    ensures
        text::trimmed(s).len() > 0,
        text::trimmed(s)[0] == s[0],
{
    text_laws::lemma_trimmed_end_begins(s);
}

/// A literal prefix fixes the first character.
proof fn lemma_prefix_first(prefix: Seq<char>, s: Seq<char>)
    requires
        prefix.is_prefix_of(s),
        prefix.len() > 0,
    ensures
        s.len() > 0,
        s[0] == prefix[0],
{
    assert(s.subrange(0, prefix.len() as int)[0] == s[0]);
}

/// The fence that every block of Rust code is displayed with opens Rust code itself.
proof fn lemma_rust_fence()
    ensures
        docs::fence("```rust"@),
        docs::rust_fence("```rust"@),
        !"#"@.is_prefix_of(text::trimmed("```rust"@)),
{
    reveal_strlit("```rust");
    reveal_strlit("```");
    reveal_strlit("rust");
    reveal_strlit("#");
    lemma_trimmed_fixed("```rust"@);
    assert("```rust"@.subrange(0, 3) =~= "```"@);
    assert("```rust"@.subrange(3, 7) =~= "rust"@);
    assert(text::occurs_at("```rust"@, "rust"@, 3));
    if "#"@.is_prefix_of("```rust"@) {
        lemma_prefix_first("#"@, "```rust"@);
    }
}

/// A line that opens or closes a code block is no row of slashes.
pub proof fn lemma_fence_is_no_row_of_slashes(line: Seq<char>)
    requires
        docs::fence(line),
    ensures
        !"////"@.is_prefix_of(line),
{
    reveal_strlit("```");
    reveal_strlit("////");
    lemma_prefix_first("```"@, text::trimmed(line));
    if "////"@.is_prefix_of(line) {
        lemma_prefix_first("////"@, line);
        lemma_trimmed_first(line);
    }
}

/// Fences are displayed: no line that opens or closes a code block is left out.
pub proof fn law_fences_are_kept(lines: Seq<Seq<char>>, k: int)
    requires
        0 <= k < lines.len(),
        docs::fence(lines[k]),
    ensures
        !docs::left_out(lines, k),
{
    reveal_strlit("```rust");
    reveal_strlit("```");
    reveal_strlit("////");
    reveal_strlit("#");
    let shown = docs::displayed(lines, k);
    lemma_prefix_first("```"@, text::trimmed(lines[k]));
    if "////"@.is_prefix_of(shown) {
        lemma_prefix_first("////"@, shown);
        if shown == lines[k] {
            lemma_trimmed_first(lines[k]);
        }
    }
    if "#"@.is_prefix_of(text::trimmed(lines[k])) {
        lemma_prefix_first("#"@, text::trimmed(lines[k]));
    }
}

/// Attributes in Rust code are displayed as they are.
pub proof fn law_attributes_are_kept(lines: Seq<Seq<char>>, k: int)
    requires
        0 <= k < lines.len(),
        docs::in_rust_code(lines, k + 1),
        "#["@.is_prefix_of(text::trimmed(lines[k])),
    ensures
        !docs::left_out(lines, k),
        docs::displayed(lines, k) == lines[k],
{
    reveal_strlit("```");
    reveal_strlit("////");
    reveal_strlit("#[");
    lemma_prefix_first("#["@, text::trimmed(lines[k]));
    if docs::fence(lines[k]) {
        lemma_prefix_first("```"@, text::trimmed(lines[k]));
    }
    if "////"@.is_prefix_of(lines[k]) {
        lemma_prefix_first("////"@, lines[k]);
        lemma_trimmed_first(lines[k]);
    }
}

/// Hidden lines are left out, and so is the blank space that follows what is left out.
pub proof fn law_hidden_lines_go(lines: Seq<Seq<char>>, k: int)
    requires
        0 <= k < lines.len(),
    ensures
        docs::hidden(lines, k) ==> docs::left_out(lines, k),
        docs::left_out(lines, k) && k + 1 < lines.len() && text::trimmed(lines[k + 1]).len() == 0
            ==> docs::left_out(lines, k + 1),
{
}

/// In Rust code, a line that is not blank is displayed as it is, with its indentation, unless it is
/// a fence, begins with `#`, or is a row of slashes.
pub proof fn law_code_is_kept(lines: Seq<Seq<char>>, k: int)
    requires
        0 <= k < lines.len(),
        docs::in_rust_code(lines, k + 1),
        text::trimmed(lines[k]).len() > 0,
        !docs::fence(lines[k]),
        !"#"@.is_prefix_of(text::trimmed(lines[k])),
        !"////"@.is_prefix_of(lines[k]),
    ensures
        !docs::left_out(lines, k),
        docs::displayed(lines, k) == lines[k],
{
}

/// Outside Rust code, every line is displayed as it is, except rows of slashes and the blank lines
/// that follow what is left out.
pub proof fn law_other_text_is_kept(lines: Seq<Seq<char>>, k: int)
    requires
        0 <= k < lines.len(),
        !docs::in_rust_code(lines, k + 1),
    ensures
        docs::displayed(lines, k) == lines[k],
        docs::left_out(lines, k) ==> "////"@.is_prefix_of(lines[k]) || text::trimmed(
            lines[k],
        ).len() == 0,
{
}

/// The state after some lines depends on those lines only.
proof fn lemma_prefix_states(a: Seq<Seq<char>>, b: Seq<Seq<char>>, k: int)
    requires
        0 <= k <= a.len(),
        k <= b.len(),
        a.take(k) == b.take(k),
    ensures
        docs::in_code(a, k) == docs::in_code(b, k),
        docs::in_rust_code(a, k) == docs::in_rust_code(b, k),
        k > 0 ==> docs::displayed(a, k - 1) == docs::displayed(b, k - 1),
        k > 0 ==> docs::left_out(a, k - 1) == docs::left_out(b, k - 1),
    decreases k,
{
    if k > 0 {
        assert(a.take(k - 1) == a.take(k).take(k - 1));
        assert(b.take(k - 1) == b.take(k).take(k - 1));
        assert(a[k - 1] == a.take(k)[k - 1]);
        assert(b[k - 1] == b.take(k)[k - 1]);
        lemma_prefix_states(a, b, k - 1);
    }
}

/// What is displayed of some lines depends on those lines only.
proof fn lemma_prefix_kept(a: Seq<Seq<char>>, b: Seq<Seq<char>>, k: int)
    requires
        0 <= k <= a.len(),
        k <= b.len(),
        a.take(k) == b.take(k),
    ensures
        docs::kept(a, k) == docs::kept(b, k),
    decreases k,
{
    if k > 0 {
        assert(a.take(k - 1) == a.take(k).take(k - 1));
        assert(b.take(k - 1) == b.take(k).take(k - 1));
        lemma_prefix_states(a, b, k);
        lemma_prefix_kept(a, b, k - 1);
    }
}

/// Lines that are displayed are in the same code blocks as they were, and are all displayed again.
proof fn lemma_kept_again(lines: Seq<Seq<char>>, k: int)
    requires
        0 <= k <= lines.len(),
    ensures
        ({
            let shown = docs::kept(lines, k);
            let n = shown.len() as int;
            &&& docs::in_code(shown, n) == docs::in_code(lines, k)
            &&& docs::in_rust_code(shown, n) == docs::in_rust_code(lines, k)
            &&& docs::kept(shown, n) == shown
            &&& forall|j: int| 0 <= j < n ==> !docs::left_out(shown, j) && #[trigger] docs::displayed(
                shown,
                j,
            ) == shown[j]
        }),
    decreases k,
{
    if k > 0 {
        lemma_kept_again(lines, k - 1);
        let before = docs::kept(lines, k - 1);
        if docs::fence(lines[k - 1]) {
            law_fences_are_kept(lines, k - 1);
        }
        if !docs::left_out(lines, k - 1) {
            let line = docs::displayed(lines, k - 1);
            let shown = before.push(line);
            let n = before.len() as int;
            assert(shown.take(n) == before.take(n));
            lemma_prefix_states(shown, before, n);
            lemma_prefix_kept(shown, before, n);
            lemma_rust_fence();
            assert(docs::fence(line) == docs::fence(lines[k - 1]));
            assert(docs::in_code(shown, n + 1) == docs::in_code(lines, k));
            assert(docs::in_rust_code(shown, n + 1) == docs::in_rust_code(lines, k));
            assert(docs::displayed(shown, n) == line);
            assert(!docs::hidden(shown, n));
            assert(!docs::left_out(shown, n));
            assert(docs::kept(shown, n + 1) == docs::kept(shown, n).push(line));
            assert forall|j: int| 0 <= j < n + 1 implies !docs::left_out(shown, j)
                && #[trigger] docs::displayed(shown, j) == shown[j] by {
                if j < n {
                    assert(shown.take(j + 1) == before.take(j + 1));
                    lemma_prefix_states(shown, before, j + 1);
                    assert(docs::displayed(before, j) == before[j]);
                }
            }
        }
    }
}

/// Cleaning is done once and for all: of lines that are displayed, every one is displayed again, as
/// it is.
pub proof fn law_cleaning_twice(lines: Seq<Seq<char>>)
    ensures
        ({
            let shown = docs::kept(lines, lines.len() as int);
            docs::kept(shown, shown.len() as int) == shown
        }),
{
    lemma_kept_again(lines, lines.len() as int);
}

/// Code blocks stay what they are: a block that is open, or open as Rust code, at the end of some
/// lines is so at the end of what is displayed of them.
pub proof fn law_blocks_are_kept(lines: Seq<Seq<char>>, k: int)
    requires
        0 <= k <= lines.len(),
    ensures
        ({
            let shown = docs::kept(lines, k);
            &&& docs::in_code(shown, shown.len() as int) == docs::in_code(lines, k)
            &&& docs::in_rust_code(shown, shown.len() as int) == docs::in_rust_code(lines, k)
        }),
{
    lemma_kept_again(lines, k);
}

/// Behind a line that is not left out and that leaves no code block open, the lines are displayed as
/// if nothing came before them.
proof fn lemma_lines_after(lines: Seq<Seq<char>>, at: int, k: int)
    requires
        0 < at <= at + k <= lines.len(),
        !docs::in_code(lines, at),
        !docs::in_rust_code(lines, at),
        !docs::left_out(lines, at - 1),
    ensures
        docs::in_code(lines, at + k) == docs::in_code(lines.skip(at), k),
        docs::in_rust_code(lines, at + k) == docs::in_rust_code(lines.skip(at), k),
        k > 0 ==> docs::left_out(lines, at + k - 1) == docs::left_out(lines.skip(at), k - 1),
        docs::kept(lines, at + k) == docs::kept(lines, at) + docs::kept(lines.skip(at), k),
    decreases k,
{
    if k > 0 {
        lemma_lines_after(lines, at, k - 1);
        assert(lines.skip(at)[k - 1] == lines[at + k - 1]);
        assert(docs::displayed(lines, at + k - 1) == docs::displayed(lines.skip(at), k - 1));
        assert(docs::hidden(lines, at + k - 1) == docs::hidden(lines.skip(at), k - 1));
    }
    assert(docs::kept(lines, at + k) =~= docs::kept(lines, at) + docs::kept(lines.skip(at), k));
}

/// Nothing carries over past a closed code block: what follows the fence that closes it is displayed
/// as it would be without the lines up to there.
pub proof fn law_closed_blocks_end(lines: Seq<Seq<char>>, k: int)
    requires
        0 < k <= lines.len(),
        docs::fence(lines[k - 1]),
        !docs::in_code(lines, k),
    ensures
        docs::kept(lines, lines.len() as int) == docs::kept(lines.take(k), k) + docs::kept(
            lines.skip(k),
            lines.len() - k,
        ),
{
    law_fences_are_kept(lines, k - 1);
    lemma_lines_after(lines, k, lines.len() - k);
    assert(lines.take(k).take(k) == lines.take(k));
    lemma_prefix_kept(lines, lines.take(k), k);
}

/// What is displayed has no hidden line and no row of slashes in it, and every block of Rust code in
/// it says that it is one.
pub proof fn law_displayed_lines(lines: Seq<Seq<char>>, j: int)
    requires
        0 <= j < docs::kept(lines, lines.len() as int).len(),
    ensures
        ({
            let shown = docs::kept(lines, lines.len() as int);
            &&& !docs::hidden(shown, j)
            &&& !"////"@.is_prefix_of(shown[j])
            &&& docs::fence(shown[j]) && docs::in_rust_code(shown, j + 1) ==> shown[j] == "```rust"@
        }),
{
    lemma_kept_again(lines, lines.len() as int);
    let shown = docs::kept(lines, lines.len() as int);
    assert(docs::displayed(shown, j) == shown[j]);
}

/// Lines that hold no Rust code and no row of slashes are all displayed.
proof fn lemma_all_kept(lines: Seq<Seq<char>>, k: int)
    requires
        0 <= k <= lines.len(),
        forall|i: int| 0 <= i <= lines.len() ==> !docs::in_rust_code(lines, i),
        forall|i: int| 0 <= i < lines.len() ==> !"////"@.is_prefix_of(#[trigger] lines[i]),
    ensures
        docs::kept(lines, k) == lines.take(k),
        k > 0 ==> !docs::left_out(lines, k - 1),
    decreases k,
{
    if k > 0 {
        lemma_all_kept(lines, k - 1);
        assert(!docs::in_rust_code(lines, k));
        assert(docs::displayed(lines, k - 1) == lines[k - 1]);
        assert(lines.take(k - 1).push(lines[k - 1]) =~= lines.take(k));
    } else {
        assert(lines.take(0) =~= Seq::empty());
    }
}

/// Documentation without Rust code and without rows of slashes is displayed as it is, if its lines
/// end with plain line feeds and its last line with none.
pub proof fn law_other_docs_unchanged(docs: Seq<char>)
    requires
        forall|i: int|
            0 <= i <= text::text_lines(docs).len() ==> !docs::in_rust_code(
                text::text_lines(docs),
                i,
            ),
        forall|i: int|
            0 <= i < text::text_lines(docs).len() ==> !"////"@.is_prefix_of(
                #[trigger] text::text_lines(docs)[i],
            ),
        !text::occurs_in(docs, "\r\n"@),
        docs.len() > 0 ==> docs.last() != '\n',
    ensures
        docs::cleaned(docs) == docs,
{
    let lines = text::text_lines(docs);
    lemma_all_kept(lines, lines.len() as int);
    assert(lines.take(lines.len() as int) == lines);
    text_laws::law_joined_lines(docs);
}

/// No displayed line holds a line feed where no line did.
proof fn lemma_kept_free(lines: Seq<Seq<char>>, k: int)
    requires
        0 <= k <= lines.len(),
        forall|i: int| 0 <= i < lines.len() ==> !(#[trigger] lines[i]).contains('\n'),
    ensures
        forall|j: int|
            0 <= j < docs::kept(lines, k).len() ==> !(#[trigger] docs::kept(lines, k)[j]).contains(
                '\n',
            ),
    decreases k,
{
    if k > 0 {
        reveal_strlit("```rust");
        lemma_kept_free(lines, k - 1);
        let before = docs::kept(lines, k - 1);
        assert(!docs::displayed(lines, k - 1).contains('\n'));
        assert forall|j: int| 0 <= j < docs::kept(lines, k).len() implies !(#[trigger] docs::kept(
            lines,
            k,
        )[j]).contains('\n') by {
            if j < before.len() {
                assert(docs::kept(lines, k)[j] == before[j]);
            }
        }
    }
}

/// Documentation that was cleaned is left as it is when it is cleaned again, if its lines end with
/// plain line feeds and its last line with none.
pub proof fn law_process_docs_twice(docs: Seq<char>)
    requires
        !text::occurs_in(docs::cleaned(docs), "\r\n"@),
        docs::cleaned(docs).len() > 0 ==> docs::cleaned(docs).last() != '\n',
    ensures
        docs::cleaned(docs::cleaned(docs)) == docs::cleaned(docs),
{
    let lines = text::text_lines(docs);
    let shown = docs::kept(lines, lines.len() as int);
    let cleaned = docs::cleaned(docs);
    reveal_strlit("\n");
    assert("\n"@ =~= seq!['\n']);
    text_laws::law_joined_lines(cleaned);
    if cleaned.len() > 0 {
        text_laws::lemma_lines_free(docs);
        lemma_kept_free(lines, lines.len() as int);
        text_laws::law_pieces_joined(shown, '\n');
        law_cleaning_twice(lines);
    } else {
        assert(text::text_lines(cleaned) =~= Seq::empty());
        assert(cleaned =~= Seq::empty());
    }
}

/// The rows that document an item are told by the rows from the first of them on, and the row
/// before that.
proof fn lemma_first_doc_row_local(a: Seq<Seq<char>>, b: Seq<Seq<char>>, row: int)
    requires
        0 <= row <= a.len(),
        row <= b.len(),
        forall|i: int| docs::first_doc_row(a, row) - 1 <= i < row && 0 <= i ==> a[i] == b[i],
    ensures
        docs::first_doc_row(b, row) == docs::first_doc_row(a, row),
        0 <= docs::first_doc_row(a, row) <= row,
    decreases row,
{
    if row > 0 {
        if !docs::ends_docs(a[row - 1]) {
            lemma_first_doc_row_bounds(a, row - 1);
            lemma_first_doc_row_local(a, b, row - 1);
        }
        assert(a[row - 1] == b[row - 1]);
    }
}

proof fn lemma_first_doc_row_bounds(lines: Seq<Seq<char>>, row: int)
    requires
        0 <= row,
    ensures
        0 <= docs::first_doc_row(lines, row) <= row,
    decreases row,
{
    if row > 0 && !docs::ends_docs(lines[row - 1]) {
        lemma_first_doc_row_bounds(lines, row - 1);
    }
}

/// What comments say depends on their rows only.
proof fn lemma_doc_texts_local(a: Seq<Seq<char>>, b: Seq<Seq<char>>, from: int, to: int)
    requires
        forall|i: int| from <= i < to ==> a[i] == b[i],
    ensures
        docs::doc_texts(a, from, to) == docs::doc_texts(b, from, to),
    decreases to - from,
{
    if from < to {
        lemma_doc_texts_local(a, b, from, to - 1);
    }
}

/// The documentation of an item depends on nothing but the rows right above it, up to and with the
/// closest one that ends documentation: neither its own row, nor any row below, nor any row farther
/// up matters.
pub proof fn law_docs_come_from_above(a: Seq<Seq<char>>, b: Seq<Seq<char>>, row: int)
    requires
        1 <= row <= a.len(),
        row <= b.len(),
        forall|i: int| docs::first_doc_row(a, row) - 1 <= i < row && 0 <= i ==> a[i] == b[i],
    ensures
        docs::extracted_docs(a, row) == docs::extracted_docs(b, row),
{
    lemma_first_doc_row_local(a, b, row);
    lemma_doc_texts_local(a, b, docs::first_doc_row(a, row), row);
}

/// Where no row above an item ends documentation, all of them may document it, the first row of the
/// file too.
pub proof fn law_docs_reach_the_first_row(lines: Seq<Seq<char>>, row: int)
    requires
        1 <= row <= lines.len(),
        forall|i: int| 0 <= i < row ==> !docs::ends_docs(#[trigger] lines[i]),
    ensures
        docs::doc_rows(lines, row) == (0int, row),
    decreases row,
{
    if row > 1 {
        law_docs_reach_the_first_row(lines, row - 1);
    } else {
        reveal_with_fuel(docs::first_doc_row, 2);
    }
}

/// A comment header block ends documentation: of the rows right above an item, and of those that a
/// file begins with, none is part of one.
pub proof fn law_headers_end_docs(lines: Seq<Seq<char>>, row_start: int, row: int)
    requires
        0 <= row_start,
        docs::docs_in_file(lines, row_start),
        docs::doc_rows(lines, row_start).0 <= row < docs::doc_rows(lines, row_start).1,
    ensures
        !docs::header(lines[row]),
{
    if row_start == 0 {
        lemma_docs_end_row_first(lines, 0, row);
    } else {
        lemma_first_doc_row_closest(lines, row_start, row);
    }
}

proof fn lemma_docs_end_row_first(lines: Seq<Seq<char>>, from: int, row: int)
    requires
        from <= row < docs::docs_end_row(lines, from),
    ensures
        !docs::ends_docs(lines[row]),
    decreases row - from,
{
    if from < row {
        lemma_docs_end_row_first(lines, from + 1, row);
    }
}

proof fn lemma_first_doc_row_closest(lines: Seq<Seq<char>>, to: int, row: int)
    requires
        docs::first_doc_row(lines, to) <= row < to,
    ensures
        !docs::ends_docs(lines[row]),
    decreases to - row,
{
    if row < to - 1 {
        lemma_first_doc_row_closest(lines, to - 1, row);
    }
}

proof fn lemma_docs_end_row_local(a: Seq<Seq<char>>, b: Seq<Seq<char>>, row: int)
    requires
        0 <= row,
        docs::docs_end_row(a, row) < a.len(),
        docs::docs_end_row(a, row) < b.len(),
        forall|i: int| row <= i <= docs::docs_end_row(a, row) ==> a[i] == b[i],
    ensures
        docs::docs_end_row(b, row) == docs::docs_end_row(a, row),
        row <= docs::docs_end_row(a, row),
    decreases a.len() - row,
{
    if row < a.len() && row < u32::MAX && !docs::ends_docs(a[row]) {
        lemma_docs_end_row_bounds(a, row + 1);
        lemma_docs_end_row_local(a, b, row + 1);
    }
}

proof fn lemma_docs_end_row_bounds(lines: Seq<Seq<char>>, row: int)
    ensures
        row <= docs::docs_end_row(lines, row),
    decreases lines.len() - row,
{
    if !(row >= lines.len() || row >= u32::MAX || docs::ends_docs(lines[row])) {
        lemma_docs_end_row_bounds(lines, row + 1);
    }
}

/// The documentation of a file, which is that of row 0, depends on nothing but the rows that the
/// file begins with, from row 0 to the first one that ends documentation.
pub proof fn law_file_docs_come_first(a: Seq<Seq<char>>, b: Seq<Seq<char>>)
    requires
        docs::docs_in_file(a, 0),
        docs::docs_end_row(a, 0) < b.len(),
        forall|i: int| 0 <= i <= docs::docs_end_row(a, 0) ==> a[i] == b[i],
    ensures
        docs::docs_in_file(b, 0),
        docs::extracted_docs(a, 0) == docs::extracted_docs(b, 0),
{
    lemma_docs_end_row_local(a, b, 0);
    lemma_doc_texts_local(a, b, 0, docs::docs_end_row(a, 0));
}

/// The first row of a file is part of what documents the file: a documentation comment there comes
/// first.
pub proof fn law_first_row_documents_the_file(lines: Seq<Seq<char>>)
    requires
        docs::docs_in_file(lines, 0),
        docs::doc_comment(lines[0]),
    ensures
        ({
            let texts = docs::doc_texts(lines, 0, docs::docs_end_row(lines, 0));
            texts.len() > 0 && texts[0] == docs::doc_text(lines[0])
        }),
{
    lemma_doc_comments_are_docs(lines[0]);
    lemma_docs_end_row_bounds(lines, 1);
    lemma_doc_texts_first(lines, docs::docs_end_row(lines, 0));
}

/// A documentation comment does not end documentation.
proof fn lemma_doc_comments_are_docs(line: Seq<char>)
    requires
        docs::doc_comment(line),
    ensures
        !docs::ends_docs(line),
{
    reveal_strlit("//");
    reveal_strlit("///");
    reveal_strlit("//!");
    let comment = text::trimmed(line);
    let marker = if "///"@.is_prefix_of(comment) {
        "///"@
    } else {
        "//!"@
    };
    assert(comment.subrange(0, 3) == marker);
    assert(comment.subrange(0, 2) =~= marker.subrange(0, 2));
    assert(marker.subrange(0, 2) =~= "//"@);
}

proof fn lemma_doc_texts_first(lines: Seq<Seq<char>>, to: int)
    requires
        0 < to,
        docs::doc_comment(lines[0]),
    ensures
        docs::doc_texts(lines, 0, to).len() > 0,
        docs::doc_texts(lines, 0, to)[0] == docs::doc_text(lines[0]),
    decreases to,
{
    if to > 1 {
        lemma_doc_texts_first(lines, to - 1);
    } else {
        reveal_with_fuel(docs::doc_texts, 2);
    }
}

/// Documentation that is extracted says something.
pub proof fn law_extracted_docs_say_something(lines: Seq<Seq<char>>, row_start: int)
    ensures
        docs::extracted_docs(lines, row_start) matches Some(docs) ==> text::trimmed(docs).len() > 0,
{
}

} // verus!
