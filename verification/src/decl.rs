//! Finding a declaration in the lines of a source file.

use vstd::prelude::*;

use crate::text;

verus! {

/// A row that a file does not have.
#[derive(Debug, Clone, Copy, PartialEq, Eq, Structural)]
pub struct MissingRow {
    pub row: u32,
}

/// A line that a declaration ends in: its body opens there, or a semicolon closes it.
pub open spec fn ends_decl(line: Seq<char>) -> bool {
    line.contains('{') || line.contains(';')
}

/// What a line adds to a declaration: what stands before the last brace that opens a body, or else
/// before the last semicolon, or else the whole line, without the white space around it.
pub open spec fn decl_line(line: Seq<char>) -> Seq<char> {
    let code = text::trimmed(line);
    match text::before_last(code, '{') {
        Some(head) => text::trimmed_end(head),
        None => match text::before_last(code, ';') {
            Some(head) => text::trimmed_end(head),
            None => code,
        },
    }
}

/// The first row, from row `row` on, that a declaration ends in; the first row that is missing
/// where none does.
pub open spec fn decl_end_row(lines: Seq<Seq<char>>, row: int) -> int
    decreases lines.len() - row,
{
    if row >= lines.len() || ends_decl(lines[row]) {
        row
    } else {
        decl_end_row(lines, row + 1)
    }
}

/// The lines of the declaration that begins in row `row`, if it ends in the file.
pub open spec fn extracted_decl(lines: Seq<Seq<char>>, row: int) -> Option<Seq<Seq<char>>> {
    let end = decl_end_row(lines, row);
    if end < lines.len() {
        Some(lines.subrange(row, end + 1).map_values(|line: Seq<char>| decl_line(line)))
    } else {
        None
    }
}

/// White space at the ends holds no other character.
pub proof fn lemma_trimmed_contains(s: Seq<char>, c: char)
    requires
        !text::white_space(c),
    ensures
        text::trimmed(s).contains(c) <==> s.contains(c),
{
    lemma_trimmed_start_contains(s, c);
    lemma_trimmed_end_contains(text::trimmed_start(s), c);
}

proof fn lemma_trimmed_start_contains(s: Seq<char>, c: char)
    requires
        !text::white_space(c),
    ensures
        text::trimmed_start(s).contains(c) <==> s.contains(c),
    decreases s.len(),
{
    if s.len() > 0 && text::white_space(s[0]) {
        lemma_trimmed_start_contains(s.drop_first(), c);
        assert(s =~= seq![s[0]] + s.drop_first());
        if s.contains(c) {
            let i = s.index_of(c);
            assert(s.drop_first()[i - 1] == c);
        }
    }
}

proof fn lemma_trimmed_end_contains(s: Seq<char>, c: char)
    requires
        !text::white_space(c),
    ensures
        text::trimmed_end(s).contains(c) <==> s.contains(c),
    decreases s.len(),
{
    if s.len() > 0 && text::white_space(s.last()) {
        lemma_trimmed_end_contains(s.drop_last(), c);
        assert(s =~= s.drop_last().push(s.last()));
        if s.contains(c) {
            let i = s.index_of(c);
            assert(s.drop_last()[i] == c);
        }
    }
}

/// There is something before the last `c` exactly where there is a `c`.
pub proof fn lemma_before_last_some(s: Seq<char>, c: char)
    ensures
        text::before_last(s, c) is Some <==> s.contains(c),
    decreases s.len(),
{
    if s.len() > 0 {
        lemma_before_last_some(s.drop_last(), c);
        if s.last() == c {
            assert(s[s.len() - 1] == c);
        } else if s.contains(c) {
            let i = s.index_of(c);
            assert(s.drop_last()[i] == c);
        }
    }
}

/// Extracts the declaration of a function, method, struct, enum, or trait that begins in a row of
/// a file, given by its lines.
pub fn extract_decleration(file: &Vec<String>, row: u32) -> (r: Result<Vec<String>, MissingRow>)
    requires
        file@.len() <= u32::MAX,
    ensures
        match r {
            Ok(decl) => extracted_decl(text::texts(file@), row as int) == Some(text::texts(decl@)),
            Err(missing) => extracted_decl(text::texts(file@), row as int) is None && missing.row
                == decl_end_row(text::texts(file@), row as int),
        },
{
    let ghost lines = text::texts(file@);
    let mut decl: Vec<String> = Vec::new();
    let n: usize = file.len();
    let mut at: usize = row as usize;
    while at < n
        invariant
            n == file@.len() <= u32::MAX,
            lines == text::texts(file@),
            row <= at <= u32::MAX,
            row < at ==> at <= n,
            decl_end_row(lines, row as int) == decl_end_row(lines, at as int),
            text::texts(decl@) == Seq::new((at - row) as nat, |k: int| decl_line(lines[row + k])),
        decreases n - at,
    {
        let line = text::trim(file[at].as_str());
        proof {
            lemma_trimmed_contains(lines[at as int], '{');
            lemma_trimmed_contains(lines[at as int], ';');
            lemma_before_last_some(line@, '{');
            lemma_before_last_some(line@, ';');
        }
        let ghost before = text::texts(decl@);
        if let Some(head) = text::cut_last(line, '{') {
            decl.push(text::trim_end(head).to_owned());
            assert(text::texts(decl@) == before.push(decl_line(lines[at as int])));
            assert(text::texts(decl@) == lines.subrange(row as int, at + 1).map_values(
                |line: Seq<char>| decl_line(line),
            ));
            return Ok(decl);
        } else if let Some(head) = text::cut_last(line, ';') {
            decl.push(text::trim_end(head).to_owned());
            assert(text::texts(decl@) == before.push(decl_line(lines[at as int])));
            assert(text::texts(decl@) == lines.subrange(row as int, at + 1).map_values(
                |line: Seq<char>| decl_line(line),
            ));
            return Ok(decl);
        } else {
            decl.push(line.to_owned());
            assert(text::texts(decl@) == before.push(decl_line(lines[at as int])));
        }
        at = at + 1;
    }
    Err(MissingRow { row: at as u32 })
}

} // verus!
