//! Documentation text: finding it in the comments of a source file, and cleaning it for display.

use vstd::prelude::*;

use crate::text;

verus! {

/// A line that opens or closes a code block.
pub open spec fn fence(line: Seq<char>) -> bool {
    "```"@.is_prefix_of(text::trimmed(line))
}

/// A fence that, where it opens a block, opens one of Rust code: it is bare, or it carries `rust`
/// or an attribute that only Rust code has.
pub open spec fn rust_fence(line: Seq<char>) -> bool {
    let fence = text::trimmed(line);
    ||| fence == "```"@
    ||| text::occurs_in(fence, "rust"@)
    ||| text::occurs_in(fence, "no_run"@)
    ||| text::occurs_in(fence, "ignore"@)
    ||| text::occurs_in(fence, "should_panic"@)
    ||| text::occurs_in(fence, "compile_fail"@)
}

/// A code block is open after the first `k` lines.
pub open spec fn in_code(lines: Seq<Seq<char>>, k: int) -> bool
    decreases k,
{
    k > 0 && fence(lines[k - 1]) != in_code(lines, k - 1)
}

/// A block of Rust code is open after the first `k` lines.
pub open spec fn in_rust_code(lines: Seq<Seq<char>>, k: int) -> bool
    decreases k,
{
    k > 0 && if fence(lines[k - 1]) {
        in_code(lines, k) && rust_fence(lines[k - 1])
    } else {
        in_rust_code(lines, k - 1)
    }
}

/// What line `k` is displayed as: a fence that opens Rust code says so, and any other line is
/// itself.
pub open spec fn displayed(lines: Seq<Seq<char>>, k: int) -> Seq<char> {
    if fence(lines[k]) && in_rust_code(lines, k + 1) {
        "```rust"@
    } else {
        lines[k]
    }
}

/// Line `k` is one that rustdoc hides: in Rust code, it begins with `#` and is no attribute.
pub open spec fn hidden(lines: Seq<Seq<char>>, k: int) -> bool {
    &&& in_rust_code(lines, k + 1)
    &&& "#"@.is_prefix_of(text::trimmed(lines[k]))
    &&& !"#["@.is_prefix_of(text::trimmed(lines[k]))
}

/// Line `k` is left out: it is a row of slashes, it is hidden, or it is blank and follows a line
/// that is left out.
pub open spec fn left_out(lines: Seq<Seq<char>>, k: int) -> bool
    decreases k,
{
    ||| "////"@.is_prefix_of(displayed(lines, k))
    ||| hidden(lines, k)
    ||| k > 0 && text::trimmed(lines[k]).len() == 0 && left_out(lines, k - 1)
}

/// What is displayed of the first `k` lines.
pub open spec fn kept(lines: Seq<Seq<char>>, k: int) -> Seq<Seq<char>>
    decreases k,
{
    if k <= 0 {
        Seq::empty()
    } else if left_out(lines, k - 1) {
        kept(lines, k - 1)
    } else {
        kept(lines, k - 1).push(displayed(lines, k - 1))
    }
}

/// Documentation as it is displayed.
pub open spec fn cleaned(docs: Seq<char>) -> Seq<char> {
    let lines = text::text_lines(docs);
    text::joined(kept(lines, lines.len() as int), "\n"@)
}

/// Whether a fence, where it opens a block, opens one of Rust code.
fn opens_rust(line: &str) -> (r: bool)
    ensures
        r == rust_fence(line@),
{
    let fence = text::trim(line);
    text::same(fence, "```") || text::contains(fence, "rust") || text::contains(fence, "no_run")
        || text::contains(fence, "ignore") || text::contains(fence, "should_panic")
        || text::contains(fence, "compile_fail")
}

/// Cleans documentation up for display. The `docs` are expected to have the `///` or `//!` in
/// front of each line already removed.
pub fn process_docs(docs: &str) -> (r: String)
    ensures
        r@ == cleaned(docs@),
{
    let lines = text::lines_of(docs);
    let n: usize = lines.len();
    let mut in_codeblock = false;
    let mut in_rust_codeblock = false;
    let mut processed_docs: Vec<String> = Vec::new();
    let mut last_line_ignored = false;
    let mut k: usize = 0;
    while k < n
        invariant
            k <= n,
            n == lines@.len(),
            in_codeblock == in_code(text::texts(lines@), k as int),
            in_rust_codeblock == in_rust_code(text::texts(lines@), k as int),
            last_line_ignored == (k > 0 && left_out(text::texts(lines@), k - 1)),
            text::texts(processed_docs@) == kept(text::texts(lines@), k as int),
        decreases n - k,
    {
        let ghost all = text::texts(lines@);
        let mut line = lines[k].clone();
        assert(line@ == all[k as int]);
        let trimmed_line = text::trim(lines[k].as_str());
        let is_fence = text::starts_with(trimmed_line, "```");
        if is_fence {
            in_rust_codeblock = opens_rust(lines[k].as_str());
            in_codeblock = !in_codeblock;
            if !in_codeblock {
                in_rust_codeblock = false;
            }
        }
        assert(in_codeblock == in_code(all, k + 1));
        assert(in_rust_codeblock == in_rust_code(all, k + 1));
        if in_rust_codeblock && is_fence {
            line = "```rust".to_owned();
        }
        assert(line@ == displayed(all, k as int));
        // Comment block headers of the standard library can get into its documentation.
        let ignore_slashes = text::starts_with(line.as_str(), "////");
        let is_attribute = text::starts_with(trimmed_line, "#[") && in_rust_codeblock;
        let is_hidden = text::starts_with(trimmed_line, "#") && in_rust_codeblock && !is_attribute;
        let ignore_whitespace = last_line_ignored && trimmed_line.is_empty();
        let ignore_line = ignore_slashes || ignore_whitespace || is_hidden;
        assert(ignore_line == left_out(all, k as int));
        if !ignore_line {
            let ghost before = text::texts(processed_docs@);
            processed_docs.push(line);
            assert(text::texts(processed_docs@) == before.push(displayed(all, k as int)));
            last_line_ignored = false;
        } else {
            last_line_ignored = true;
        }
        k = k + 1;
    }
    text::join(&processed_docs, "\n")
}

/// A line of a comment header block, such as the standard library has many of.
pub open spec fn header(line: Seq<char>) -> bool {
    "////"@.is_prefix_of(text::trimmed(line))
}

/// A line that holds a documentation comment.
pub open spec fn doc_comment(line: Seq<char>) -> bool {
    &&& "///"@.is_prefix_of(text::trimmed(line)) || "//!"@.is_prefix_of(text::trimmed(line))
    &&& !header(line)
}

/// A line that no documentation reaches across: it is part of a comment header block, or it is no
/// comment, no attribute, and not blank.
pub open spec fn ends_docs(line: Seq<char>) -> bool {
    let code = text::trimmed(line);
    ||| header(line)
    ||| code.len() > 0 && !"#"@.is_prefix_of(code) && !"//"@.is_prefix_of(code)
}

/// What a documentation comment says: the marker and one white space after it are no part of that.
pub open spec fn doc_text(line: Seq<char>) -> Seq<char> {
    let comment = text::trimmed(line);
    if comment.len() > 3 && text::white_space(comment[3]) {
        comment.skip(4)
    } else {
        comment.skip(3)
    }
}

/// The white space after the marker of a documentation comment, if there is any, is one byte long.
pub open spec fn cut_cleanly(line: Seq<char>) -> bool {
    let comment = text::trimmed(line);
    doc_comment(line) && comment.len() > 3 && text::white_space(comment[3]) ==> comment[3]
        < '\u{80}'
}

/// What the documentation comments in the rows from `from` to before `to` say, in their order.
pub open spec fn doc_texts(lines: Seq<Seq<char>>, from: int, to: int) -> Seq<Seq<char>>
    decreases to - from,
{
    if from >= to {
        Seq::empty()
    } else if doc_comment(lines[to - 1]) {
        doc_texts(lines, from, to - 1).push(doc_text(lines[to - 1]))
    } else {
        doc_texts(lines, from, to - 1)
    }
}

/// The first row of what may document the item in row `row`, which is the rows between it and the
/// closest row above that ends documentation, or else all rows above it.
pub open spec fn first_doc_row(lines: Seq<Seq<char>>, row: int) -> int
    decreases row,
{
    if row <= 0 || ends_docs(lines[row - 1]) {
        row
    } else {
        first_doc_row(lines, row - 1)
    }
}

/// The first row, from row `row` on, that ends documentation; the row after the last where none
/// does. No row counts behind the last that a `u32` can number.
pub open spec fn docs_end_row(lines: Seq<Seq<char>>, row: int) -> int
    decreases lines.len() - row,
{
    if row >= lines.len() || row >= u32::MAX || ends_docs(lines[row]) {
        row
    } else {
        docs_end_row(lines, row + 1)
    }
}

/// The rows that may document `row_start`, as the first of them and the one after the last: for
/// row 0, which stands for the file itself, those that the file begins with; for any other, those
/// right above it.
pub open spec fn doc_rows(lines: Seq<Seq<char>>, row_start: int) -> (int, int) {
    if row_start == 0 {
        (0, docs_end_row(lines, 0))
    } else {
        (first_doc_row(lines, row_start), row_start)
    }
}

/// The file has every row that a scan for the documentation of `row_start` asks for.
pub open spec fn docs_in_file(lines: Seq<Seq<char>>, row_start: int) -> bool {
    if row_start == 0 {
        docs_end_row(lines, 0) < lines.len()
    } else {
        row_start <= lines.len()
    }
}

/// Every documentation comment that documents `row_start` can be cut behind its marker.
pub open spec fn docs_cut_cleanly(lines: Seq<Seq<char>>, row_start: int) -> bool {
    let (from, to) = doc_rows(lines, row_start);
    forall|row: int| from <= row < to ==> cut_cleanly(#[trigger] lines[row])
}

/// The documentation of `row_start`, as it is displayed, if it says anything.
pub open spec fn extracted_docs(lines: Seq<Seq<char>>, row_start: int) -> Option<Seq<char>> {
    let (from, to) = doc_rows(lines, row_start);
    let docs = cleaned(text::joined(doc_texts(lines, from, to), "\n"@));
    if text::trimmed(docs).len() == 0 {
        None
    } else {
        Some(docs)
    }
}

/// What a documentation comment says.
fn text_of_doc(line: &str) -> (r: String)
    requires
        doc_comment(line@),
    ensures
        r@ == doc_text(line@),
{
    proof {
        reveal_strlit("///");
        reveal_strlit("//!");
    }
    let comment = text::trim(line);
    let chars = text::chars_of(comment);
    let n: usize = chars.len();
    let pos: usize = if n > 3 && text::is_white_space(chars[3]) {
        4
    } else {
        3
    };
    comment.substring_char(pos, n).to_owned()
}

/// Whether a line is part of a comment header block.
fn is_header(line: &str) -> (r: bool)
    ensures
        r == header(line@),
{
    text::starts_with(text::trim(line), "////")
}

/// Whether a line holds a documentation comment.
fn is_doc_comment(line: &str) -> (r: bool)
    ensures
        r == doc_comment(line@),
{
    let comment = text::trim(line);
    (text::starts_with(comment, "///") || text::starts_with(comment, "//!")) && !is_header(line)
}

/// Whether no documentation reaches across a line.
fn is_end_of_docs(line: &str) -> (r: bool)
    ensures
        r == ends_docs(line@),
{
    let code = text::trim(line);
    is_header(line) || !code.is_empty() && !text::starts_with(code, "#") && !text::starts_with(
        code,
        "//",
    )
}

/// The rows that may document `row_start`, as the first of them and the one after the last.
fn find_doc_rows(file: &Vec<String>, row_start: u32) -> (r: (usize, usize))
    requires
        docs_in_file(text::texts(file@), row_start as int),
    ensures
        (r.0 as int, r.1 as int) == doc_rows(text::texts(file@), row_start as int),
        r.0 <= r.1 <= file@.len(),
{
    let ghost lines = text::texts(file@);
    if row_start == 0 {
        let mut row: usize = 0;
        while row < u32::MAX as usize && !is_end_of_docs(file[row].as_str())
            invariant
                lines == text::texts(file@),
                docs_end_row(lines, 0) < lines.len(),
                row < lines.len(),
                docs_end_row(lines, 0) == docs_end_row(lines, row as int),
            decreases lines.len() - row,
        {
            assert(docs_end_row(lines, row + 1) == docs_end_row(lines, 0));
            row = row + 1;
        }
        (0, row)
    } else {
        let mut row: usize = row_start as usize;
        while row > 0 && !is_end_of_docs(file[row - 1].as_str())
            invariant
                lines == text::texts(file@),
                row <= row_start <= lines.len(),
                first_doc_row(lines, row_start as int) == first_doc_row(lines, row as int),
            decreases row,
        {
            row = row - 1;
        }
        (row, row_start as usize)
    }
}

/// Whether the file has every row that a scan for the documentation of `row_start` asks for.
pub fn has_doc_rows(file: &Vec<String>, row_start: u32) -> (r: bool)
    ensures
        r == docs_in_file(text::texts(file@), row_start as int),
{
    if row_start > 0 {
        return row_start as usize <= file.len();
    }
    let ghost lines = text::texts(file@);
    let n: usize = file.len();
    let mut row: usize = 0;
    while row < n && row < u32::MAX as usize && !is_end_of_docs(file[row].as_str())
        invariant
            n == file@.len(),
            lines == text::texts(file@),
            row <= n,
            docs_end_row(lines, 0) == docs_end_row(lines, row as int),
        decreases n - row,
    {
        row = row + 1;
    }
    row < n
}

/// Whether every documentation comment that documents `row_start` can be cut behind its marker.
pub fn cuts_docs_cleanly(file: &Vec<String>, row_start: u32) -> (r: bool)
    requires
        docs_in_file(text::texts(file@), row_start as int),
    ensures
        r == docs_cut_cleanly(text::texts(file@), row_start as int),
{
    let ghost lines = text::texts(file@);
    let (from, to) = find_doc_rows(file, row_start);
    let mut row: usize = from;
    while row < to
        invariant
            from <= row <= to <= file@.len(),
            lines == text::texts(file@),
            (from as int, to as int) == doc_rows(lines, row_start as int),
            forall|k: int| from <= k < row ==> cut_cleanly(#[trigger] lines[k]),
        decreases to - row,
    {
        let line = file[row].as_str();
        let comment = text::chars_of(text::trim(line));
        if is_doc_comment(line) && comment.len() > 3 && text::is_white_space(comment[3])
            && comment[3] >= '\u{80}' {
            assert(!cut_cleanly(lines[row as int]));
            return false;
        }
        row = row + 1;
    }
    true
}

/// Extracts the documentation of the item in row `row_start` of a file, given by its lines. If the
/// row is `0`, the scan includes the current row and moves _downward_. Otherwise, the scan ignores
/// the given row and moves _upward_.
///
/// The documentation is cleaned up for display.
pub fn extract_docs(file: &Vec<String>, row_start: u32) -> (r: Option<String>)
    requires
        docs_in_file(text::texts(file@), row_start as int),
        docs_cut_cleanly(text::texts(file@), row_start as int),
    ensures
        r is Some <==> extracted_docs(text::texts(file@), row_start as int) is Some,
        r matches Some(docs) ==> extracted_docs(text::texts(file@), row_start as int) == Some(
            docs@,
        ),
{
    let ghost lines = text::texts(file@);
    let (from, to) = find_doc_rows(file, row_start);
    let mut docs: Vec<String> = Vec::new();
    let mut row: usize = from;
    while row < to
        invariant
            from <= row <= to <= file@.len(),
            lines == text::texts(file@),
            text::texts(docs@) == doc_texts(lines, from as int, row as int),
        decreases to - row,
    {
        if is_doc_comment(file[row].as_str()) {
            let ghost before = text::texts(docs@);
            docs.push(text_of_doc(file[row].as_str()));
            assert(text::texts(docs@) == before.push(doc_text(lines[row as int])));
        }
        row = row + 1;
    }
    let docs = process_docs(text::join(&docs, "\n").as_str());
    if text::trim(docs.as_str()).is_empty() {
        None
    } else {
        Some(docs)
    }
}

} // verus!
