//! What cleaning makes of documentation, told by its lines alone.

use vstd::prelude::*;

use crate::docs;
use crate::docs_laws;
use crate::text;

verus! {

/// How many of the first `k` lines begin with three backticks, apart from white space.
pub open spec fn fence_rows(lines: Seq<Seq<char>>, k: int) -> nat
    decreases k,
{
    if k <= 0 {
        0
    } else if "```"@.is_prefix_of(text::trimmed(lines[k - 1])) {
        fence_rows(lines, k - 1) + 1
    } else {
        fence_rows(lines, k - 1)
    }
}

/// Line `open` opens a code block that reaches to line `row`: it begins with three backticks, an
/// even number of lines before it does, and none after it up to line `row` does.
pub open spec fn block_from(lines: Seq<Seq<char>>, open: int, row: int) -> bool {
    &&& 0 <= open <= row < lines.len()
    &&& "```"@.is_prefix_of(text::trimmed(lines[open]))
    &&& fence_rows(lines, open) % 2 == 0
    &&& forall|i: int|
        open < i <= row ==> !"```"@.is_prefix_of(text::trimmed(#[trigger] lines[i]))
}

/// Line `row` is in a code block whose first line is three backticks and no more, or has one of the
/// words that mark Rust code.
pub open spec fn rust_row(lines: Seq<Seq<char>>, row: int) -> bool {
    exists|open: int| #[trigger]
        block_from(lines, open, row) && ({
            let label = text::trimmed(lines[open]);
            ||| label == "```"@
            ||| text::occurs_in(label, "rust"@)
            ||| text::occurs_in(label, "no_run"@)
            ||| text::occurs_in(label, "ignore"@)
            ||| text::occurs_in(label, "should_panic"@)
            ||| text::occurs_in(label, "compile_fail"@)
        })
}

proof fn lemma_in_code(lines: Seq<Seq<char>>, k: int)
    requires
        0 <= k <= lines.len(),
    ensures
        docs::in_code(lines, k) == (fence_rows(lines, k) % 2 == 1),
    decreases k,
{
    if k > 0 {
        lemma_in_code(lines, k - 1);
    }
}

proof fn lemma_in_block(lines: Seq<Seq<char>>, open: int, row: int)
    requires
        block_from(lines, open, row),
    ensures
        docs::in_code(lines, row + 1),
        docs::in_rust_code(lines, row + 1) == docs::rust_fence(lines[open]),
    decreases row - open,
{
    lemma_in_code(lines, open);
    if open < row {
        lemma_in_block(lines, open, row - 1);
    }
}

proof fn lemma_rust_row(lines: Seq<Seq<char>>, row: int)
    requires
        0 <= row < lines.len(),
    ensures
        docs::in_rust_code(lines, row + 1) == rust_row(lines, row),
    decreases row,
{
    if rust_row(lines, row) {
        let open = choose|open: int| #[trigger]
            block_from(lines, open, row) && docs::rust_fence(lines[open]);
        lemma_in_block(lines, open, row);
    }
    if docs::in_rust_code(lines, row + 1) {
        if docs::fence(lines[row]) {
            lemma_in_code(lines, row);
            assert(block_from(lines, row, row));
        } else {
            assert(docs::in_rust_code(lines, row));
            lemma_rust_row(lines, row - 1);
            let open = choose|open: int| #[trigger]
                block_from(lines, open, row - 1) && docs::rust_fence(lines[open]);
            assert(block_from(lines, open, row));
        }
    }
}

/// The rows, among the first `k`, that are displayed.
spec fn kept_rows(lines: Seq<Seq<char>>, k: int) -> Seq<int>
    decreases k,
{
    if k <= 0 {
        Seq::empty()
    } else if docs::left_out(lines, k - 1) {
        kept_rows(lines, k - 1)
    } else {
        kept_rows(lines, k - 1).push(k - 1)
    }
}

proof fn lemma_kept_rows(lines: Seq<Seq<char>>, k: int)
    requires
        0 <= k <= lines.len(),
    ensures
        ({
            let rows = kept_rows(lines, k);
            &&& forall|j: int| 0 <= j < rows.len() ==> 0 <= #[trigger] rows[j] < k
            &&& forall|a: int, b: int| 0 <= a < b < rows.len() ==> rows[a] < rows[b]
            &&& forall|i: int|
                0 <= i < k ==> (#[trigger] rows.contains(i) <==> !docs::left_out(lines, i))
            &&& docs::kept(lines, k) == Seq::new(
                rows.len(),
                |j: int| docs::displayed(lines, rows[j]),
            )
        }),
    decreases k,
{
    if k > 0 {
        lemma_kept_rows(lines, k - 1);
        let before = kept_rows(lines, k - 1);
        let rows = kept_rows(lines, k);
        assert forall|i: int| 0 <= i < k implies (#[trigger] rows.contains(i) <==> !docs::left_out(
            lines,
            i,
        )) by {
            if i < k - 1 {
                assert(before.contains(i) <==> !docs::left_out(lines, i));
                if before.contains(i) {
                    let j = before.index_of(i);
                    assert(rows[j] == i);
                }
                if rows.contains(i) {
                    let j = rows.index_of(i);
                    assert(before[j] == i);
                }
            } else if !docs::left_out(lines, i) {
                assert(rows[rows.len() - 1] == i);
            } else if rows.contains(i) {
                let j = rows.index_of(i);
                assert(before[j] == i);
            }
        }
        assert(docs::kept(lines, k) =~= Seq::new(
            rows.len(),
            |j: int| docs::displayed(lines, rows[j]),
        ));
    } else {
        assert(docs::kept(lines, k) =~= Seq::new(
            kept_rows(lines, k).len(),
            |j: int| docs::displayed(lines, kept_rows(lines, k)[j]),
        ));
    }
}

/// Cleaning keeps some of the rows, in their order. One that begins with four slashes goes; one in
/// Rust code that begins with `#`, and not with `#[`, goes; a blank one behind one that goes, goes
/// too; and every other stays. Of those that stay, each is as it was, but that a fence which opens
/// Rust code says so.
pub proof fn law_rows_that_stay(docs: Seq<char>) -> (rows: Seq<int>)
    ensures
        ({
            let lines = text::text_lines(docs);
            &&& forall|j: int| 0 <= j < rows.len() ==> 0 <= #[trigger] rows[j] < lines.len()
            &&& forall|a: int, b: int| 0 <= a < b < rows.len() ==> rows[a] < rows[b]
            &&& forall|i: int|
                0 <= i < lines.len() ==> (#[trigger] rows.contains(i) <==> {
                    let code = text::trimmed(lines[i]);
                    &&& !"////"@.is_prefix_of(lines[i])
                    &&& !(rust_row(lines, i) && "#"@.is_prefix_of(code) && !"#["@.is_prefix_of(code))
                    &&& code.len() > 0 || i == 0 || rows.contains(i - 1)
                })
            &&& docs::cleaned(docs) == text::joined(
                Seq::new(
                    rows.len(),
                    |j: int|
                        if "```"@.is_prefix_of(text::trimmed(lines[rows[j]])) && rust_row(
                            lines,
                            rows[j],
                        ) {
                            "```rust"@
                        } else {
                            lines[rows[j]]
                        },
                ),
                "\n"@,
            )
        }),
{
    let lines = text::text_lines(docs);
    let n = lines.len() as int;
    let rows = kept_rows(lines, n);
    lemma_kept_rows(lines, n);
    assert forall|i: int| 0 <= i < lines.len() implies (#[trigger] rows.contains(i) <==> {
        let code = text::trimmed(lines[i]);
        &&& !"////"@.is_prefix_of(lines[i])
        &&& !(rust_row(lines, i) && "#"@.is_prefix_of(code) && !"#["@.is_prefix_of(code))
        &&& code.len() > 0 || i == 0 || rows.contains(i - 1)
    }) by {
        lemma_rust_row(lines, i);
        lemma_slashes(lines, i);
        if i > 0 {
            assert(rows.contains(i - 1) <==> !docs::left_out(lines, i - 1));
        }
    }
    let shown = Seq::new(
        rows.len(),
        |j: int|
            if "```"@.is_prefix_of(text::trimmed(lines[rows[j]])) && rust_row(lines, rows[j]) {
                "```rust"@
            } else {
                lines[rows[j]]
            },
    );
    assert forall|j: int| 0 <= j < rows.len() implies #[trigger] shown[j] == docs::kept(
        lines,
        n,
    )[j] by {
        assert(0 <= rows[j] < n);
        lemma_rust_row(lines, rows[j]);
    }
    assert(shown =~= docs::kept(lines, n));
    rows
}

/// A line is displayed as a row of slashes exactly if it is one.
proof fn lemma_slashes(lines: Seq<Seq<char>>, k: int)
    requires
        0 <= k < lines.len(),
    ensures
        "////"@.is_prefix_of(docs::displayed(lines, k)) == "////"@.is_prefix_of(lines[k]),
{
    if docs::fence(lines[k]) {
        docs_laws::law_fences_are_kept(lines, k);
        docs_laws::lemma_fence_is_no_row_of_slashes(lines[k]);
    }
}

/// Rows one after the other that are all displayed, the first of them whatever comes before it, are
/// displayed one after the other.
proof fn lemma_rows_together(lines: Seq<Seq<char>>, first: int, last: int) -> (ends: (
    Seq<Seq<char>>,
    Seq<Seq<char>>,
))
    requires
        0 <= first <= last < lines.len(),
        forall|i: int| first <= i <= last ==> !docs::left_out(lines, i),
    ensures
        docs::kept(lines, lines.len() as int) == ends.0 + Seq::new(
            (last + 1 - first) as nat,
            |j: int| docs::displayed(lines, first + j),
        ) + ends.1,
{
    lemma_kept_between(lines, first, last + 1);
    let below = lemma_kept_from(lines, last + 1, lines.len() as int);
    (docs::kept(lines, first), below)
}

proof fn lemma_kept_between(lines: Seq<Seq<char>>, from: int, to: int)
    requires
        0 <= from <= to <= lines.len(),
        forall|i: int| from <= i < to ==> !docs::left_out(lines, i),
    ensures
        docs::kept(lines, to) == docs::kept(lines, from) + Seq::new(
            (to - from) as nat,
            |j: int| docs::displayed(lines, from + j),
        ),
    decreases to - from,
{
    if from < to {
        lemma_kept_between(lines, from, to - 1);
    }
    assert(docs::kept(lines, to) =~= docs::kept(lines, from) + Seq::new(
        (to - from) as nat,
        |j: int| docs::displayed(lines, from + j),
    ));
}

proof fn lemma_kept_from(lines: Seq<Seq<char>>, from: int, to: int) -> (below: Seq<Seq<char>>)
    requires
        0 <= from <= to <= lines.len(),
    ensures
        docs::kept(lines, to) == docs::kept(lines, from) + below,
    decreases to - from,
{
    if from < to {
        let before = lemma_kept_from(lines, from, to - 1);
        let below = if docs::left_out(lines, to - 1) {
            before
        } else {
            before.push(docs::displayed(lines, to - 1))
        };
        assert(docs::kept(lines, to) =~= docs::kept(lines, from) + below);
        below
    } else {
        assert(docs::kept(lines, to) =~= docs::kept(lines, from) + Seq::<Seq<char>>::empty());
        Seq::empty()
    }
}

/// A code block of another language stays as it is, from its first line to its last: where the line
/// that opens it is more than three backticks and has none of the words that mark Rust code, the
/// block is in the result line by line.
pub proof fn law_other_blocks_are_unchanged(docs: Seq<char>, open: int, last: int)
    requires
        ({
            let lines = text::text_lines(docs);
            let label = text::trimmed(lines[open]);
            &&& 0 <= open <= last < lines.len()
            &&& "```"@.is_prefix_of(label)
            &&& fence_rows(lines, open) % 2 == 0
            &&& forall|i: int|
                open < i < last ==> !"```"@.is_prefix_of(text::trimmed(#[trigger] lines[i]))
            &&& forall|i: int| open <= i <= last ==> !"////"@.is_prefix_of(#[trigger] lines[i])
            &&& label != "```"@
            &&& !text::occurs_in(label, "rust"@)
            &&& !text::occurs_in(label, "no_run"@)
            &&& !text::occurs_in(label, "ignore"@)
            &&& !text::occurs_in(label, "should_panic"@)
            &&& !text::occurs_in(label, "compile_fail"@)
        }),
    ensures
        exists|above: Seq<Seq<char>>, below: Seq<Seq<char>>|
            docs::cleaned(docs) == text::joined(
                #[trigger] (above + text::text_lines(docs).subrange(open, last + 1) + below),
                "\n"@,
            ),
{
    let lines = text::text_lines(docs);
    assert forall|k: int| open < k <= last + 1 implies !docs::in_rust_code(lines, k) by {
        let i = k - 1;
        if i < last || !docs::fence(lines[i]) {
            assert(block_from(lines, open, i));
            lemma_in_block(lines, open, i);
        } else if i > open {
            assert(block_from(lines, open, i - 1));
            lemma_in_block(lines, open, i - 1);
        } else {
            assert(block_from(lines, open, open));
            lemma_in_block(lines, open, open);
        }
    }
    reveal_strlit("```");
    lemma_unchanged(lines, open, last);
}

/// Rows outside Rust code are displayed as they are, if none is a row of slashes, and the first is
/// not blank.
proof fn lemma_unchanged(lines: Seq<Seq<char>>, first: int, last: int)
    requires
        0 <= first <= last < lines.len(),
        text::trimmed(lines[first]).len() > 0,
        forall|k: int| first < k <= last + 1 ==> !docs::in_rust_code(lines, k),
        forall|i: int| first <= i <= last ==> !"////"@.is_prefix_of(#[trigger] lines[i]),
    ensures
        exists|above: Seq<Seq<char>>, below: Seq<Seq<char>>|
            text::joined(docs::kept(lines, lines.len() as int), "\n"@) == text::joined(
                #[trigger] (above + lines.subrange(first, last + 1) + below),
                "\n"@,
            ),
{
    lemma_none_left_out(lines, first, last);
    let (above, below) = lemma_rows_together(lines, first, last);
    let middle = Seq::new(
        (last + 1 - first) as nat,
        |j: int| docs::displayed(lines, first + j),
    );
    assert(middle =~= lines.subrange(first, last + 1)) by {
        assert forall|j: int| 0 <= j < middle.len() implies #[trigger] middle[j] == lines[first
            + j] by {
            assert(!docs::in_rust_code(lines, first + j + 1));
        }
    }
    assert(docs::kept(lines, lines.len() as int) == above + lines.subrange(first, last + 1) + below);
}

proof fn lemma_none_left_out(lines: Seq<Seq<char>>, first: int, last: int)
    requires
        0 <= first <= last < lines.len(),
        text::trimmed(lines[first]).len() > 0,
        forall|k: int| first < k <= last + 1 ==> !docs::in_rust_code(lines, k),
        forall|i: int| first <= i <= last ==> !"////"@.is_prefix_of(#[trigger] lines[i]),
    ensures
        forall|i: int| first <= i <= last ==> !docs::left_out(lines, i),
    decreases last - first,
{
    assert(!docs::in_rust_code(lines, last + 1));
    if first < last {
        lemma_none_left_out(lines, first, last - 1);
        assert(!docs::left_out(lines, last - 1));
    }
    assert(!"////"@.is_prefix_of(lines[last]));
    assert(!docs::left_out(lines, last));
}

/// Text outside code blocks stays as it is, line by line, from a line that is not blank on, and as
/// far as no row of slashes is in it.
pub proof fn law_text_is_unchanged(docs: Seq<char>, first: int, last: int)
    requires
        ({
            let lines = text::text_lines(docs);
            &&& 0 <= first <= last < lines.len()
            &&& text::trimmed(lines[first]).len() > 0
            &&& fence_rows(lines, first) % 2 == 0
            &&& forall|i: int|
                first <= i <= last ==> !"```"@.is_prefix_of(text::trimmed(#[trigger] lines[i]))
            &&& forall|i: int| first <= i <= last ==> !"////"@.is_prefix_of(#[trigger] lines[i])
        }),
    ensures
        exists|above: Seq<Seq<char>>, below: Seq<Seq<char>>|
            docs::cleaned(docs) == text::joined(
                #[trigger] (above + text::text_lines(docs).subrange(first, last + 1) + below),
                "\n"@,
            ),
{
    let lines = text::text_lines(docs);
    assert forall|k: int| first < k <= last + 1 implies !docs::in_rust_code(lines, k) by {
        lemma_outside(lines, first, k - 1);
    }
    lemma_unchanged(lines, first, last);
}

proof fn lemma_outside(lines: Seq<Seq<char>>, first: int, row: int)
    requires
        0 <= first <= row < lines.len(),
        fence_rows(lines, first) % 2 == 0,
        forall|i: int|
            first <= i <= row ==> !"```"@.is_prefix_of(text::trimmed(#[trigger] lines[i])),
    ensures
        !docs::in_code(lines, row + 1),
        !docs::in_rust_code(lines, row + 1),
    decreases row - first,
{
    if first < row {
        lemma_outside(lines, first, row - 1);
    } else {
        lemma_in_code(lines, first);
        lemma_rust_is_code(lines, first);
    }
    assert(!docs::fence(lines[row]));
}

proof fn lemma_rust_is_code(lines: Seq<Seq<char>>, k: int)
    requires
        0 <= k <= lines.len(),
    ensures
        docs::in_rust_code(lines, k) ==> docs::in_code(lines, k),
    decreases k,
{
    if k > 0 {
        lemma_rust_is_code(lines, k - 1);
    }
}

/// A block of Rust code stays as it is but for the line that opens it, which says that it is Rust:
/// where that line is three backticks and no more, or has one of the words that mark Rust code, and
/// no line of the block begins with `#` or with four slashes, the block is in the result line by
/// line.
pub proof fn law_rust_blocks_are_marked(docs: Seq<char>, open: int, last: int)
    requires
        ({
            let lines = text::text_lines(docs);
            let label = text::trimmed(lines[open]);
            &&& 0 <= open <= last < lines.len()
            &&& "```"@.is_prefix_of(label)
            &&& fence_rows(lines, open) % 2 == 0
            &&& forall|i: int|
                open < i <= last ==> !"```"@.is_prefix_of(text::trimmed(#[trigger] lines[i]))
            &&& forall|i: int|
                open < i <= last ==> !"#"@.is_prefix_of(text::trimmed(#[trigger] lines[i]))
            &&& forall|i: int| open < i <= last ==> !"////"@.is_prefix_of(#[trigger] lines[i])
            &&& {
                ||| label == "```"@
                ||| text::occurs_in(label, "rust"@)
                ||| text::occurs_in(label, "no_run"@)
                ||| text::occurs_in(label, "ignore"@)
                ||| text::occurs_in(label, "should_panic"@)
                ||| text::occurs_in(label, "compile_fail"@)
            }
        }),
    ensures
        exists|above: Seq<Seq<char>>, below: Seq<Seq<char>>|
            docs::cleaned(docs) == text::joined(
                #[trigger] (above + (seq!["```rust"@] + text::text_lines(docs).subrange(
                    open + 1,
                    last + 1,
                )) + below),
                "\n"@,
            ),
{
    let lines = text::text_lines(docs);
    assert forall|k: int| open < k <= last + 1 implies docs::in_rust_code(lines, k) by {
        assert(block_from(lines, open, k - 1));
        lemma_in_block(lines, open, k - 1);
    }
    lemma_rust_lines_stay(lines, open, last);
    let (above, below) = lemma_rows_together(lines, open, last);
    let middle = Seq::new(
        (last + 1 - open) as nat,
        |j: int| docs::displayed(lines, open + j),
    );
    let block = seq!["```rust"@] + lines.subrange(open + 1, last + 1);
    assert(middle =~= block) by {
        assert forall|j: int| 0 <= j < middle.len() implies #[trigger] middle[j] == block[j] by {
            assert(docs::in_rust_code(lines, open + j + 1));
            if j > 0 {
                assert(!docs::fence(lines[open + j]));
            }
        }
    }
    assert(docs::kept(lines, lines.len() as int) == above + block + below);
}

proof fn lemma_rust_lines_stay(lines: Seq<Seq<char>>, open: int, last: int)
    requires
        0 <= open <= last < lines.len(),
        docs::fence(lines[open]),
        forall|i: int|
            open < i <= last ==> !"```"@.is_prefix_of(text::trimmed(#[trigger] lines[i])),
        forall|i: int| open < i <= last ==> !"#"@.is_prefix_of(text::trimmed(#[trigger] lines[i])),
        forall|i: int| open < i <= last ==> !"////"@.is_prefix_of(#[trigger] lines[i]),
    ensures
        forall|i: int| open <= i <= last ==> !docs::left_out(lines, i),
    decreases last - open,
{
    if open < last {
        lemma_rust_lines_stay(lines, open, last - 1);
        assert(!docs::left_out(lines, last - 1));
        assert(!docs::fence(lines[last]));
        assert(!"#"@.is_prefix_of(text::trimmed(lines[last])));
        assert(!"////"@.is_prefix_of(lines[last]));
    } else {
        docs_laws::law_fences_are_kept(lines, open);
    }
    assert(!docs::left_out(lines, last));
}

} // verus!
