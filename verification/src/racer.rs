//! Documentation and type of a name, from the completions that a search for it offers.

use vstd::prelude::*;

use crate::display;
use crate::display::FmtConfig;
use crate::model::{Def, Span};
use crate::text;

verus! {

/// What a completion stands for, as far as its type is shown by it.
#[derive(Debug, Clone, Copy, PartialEq, Eq, Structural)]
pub enum MatchType {
    Module,
    Function,
    Trait,
    Enum,
    Struct,
    Other,
}

/// A completion.
#[derive(Debug, PartialEq, Eq)]
pub struct RacerMatch {
    pub matchstr: String,
    pub contextstr: String,
    pub mtype: MatchType,
    pub docs: String,
}

/// The text of a string that may be missing.
pub open spec fn text_of(s: Option<String>) -> Option<Seq<char>> {
    match s {
        Some(s) => Some(s@),
        None => None,
    }
}

/// The text of documentation and of a type that were found.
pub open spec fn found_text(found: Option<(String, Option<String>)>) -> Option<
    (Seq<char>, Option<Seq<char>>),
> {
    match found {
        Some((docs, ty)) => Some((docs@, text_of(ty))),
        None => None,
    }
}

/// The text, unless it is empty.
pub open spec fn unless_empty(s: Seq<char>) -> Option<Seq<char>> {
    if s.len() == 0 {
        None
    } else {
        Some(s)
    }
}

/// The name in the range of a span, given the line that the span starts in.
pub open spec fn name_in(line: Option<Seq<char>>, span: Span) -> Option<Seq<char>> {
    match line {
        Some(line) => text::byte_range(line, span.range.col_start as int, span.range.col_end as int),
        None => None,
    }
}

/// A completion is for the definition, or where there is none for the name; and its context says
/// more than the name.
pub open spec fn wanted(found: RacerMatch, def: Option<Def>, name: Option<Seq<char>>) -> bool {
    &&& match def {
        Some(def) => def.name@ == found.matchstr@,
        None => name == Some(found.matchstr@),
    }
    &&& name != Some(found.contextstr@)
}

/// The place of the first completion that is wanted.
pub open spec fn first_wanted(
    matches: Seq<RacerMatch>,
    def: Option<Def>,
    name: Option<Seq<char>>,
) -> Option<int>
    decreases matches.len(),
{
    if matches.len() == 0 {
        None
    } else {
        match first_wanted(matches.drop_last(), def, name) {
            Some(i) => Some(i),
            None => if wanted(matches.last(), def, name) {
                Some(matches.len() - 1)
            } else {
                None
            },
        }
    }
}

/// The context of a completion, without the brace that opens its body.
pub open spec fn context(found: RacerMatch) -> Seq<char> {
    text::trimmed(text::without_final(found.contextstr@, '{'))
}

/// The item that the formatter is asked about for a completion.
pub open spec fn match_item(found: RacerMatch) -> Option<Seq<char>> {
    match found.mtype {
        MatchType::Function => Some(display::method_item(context(found))),
        MatchType::Trait | MatchType::Enum | MatchType::Struct => Some(
            display::object_item(context(found)),
        ),
        MatchType::Module | MatchType::Other => None,
    }
}

/// The type that a completion shows, if it shows one.
pub open spec fn match_type(
    config: FmtConfig,
    found: RacerMatch,
    formatted: Option<Seq<char>>,
) -> Option<Seq<char>> {
    match found.mtype {
        MatchType::Module => None,
        MatchType::Function => unless_empty(
            display::method_shown(config.tab_spaces as nat, context(found), formatted),
        ),
        MatchType::Trait | MatchType::Enum | MatchType::Struct => unless_empty(
            display::object_shown(context(found), formatted),
        ),
        MatchType::Other => unless_empty(context(found)),
    }
}

/// A row counted from one, by `rls_span::Row::one_indexed`: one more than the row counted from zero.
#[verifier::external_body]
fn one_indexed(row: u32) -> (r: u32)
    requires
        row < u32::MAX,
    ensures
        r == row + 1,
{
    rls_span::Row::new_zero_indexed(row).one_indexed().0
}

/// The place to search for completions at, which is the end of a span: its row, counted from one,
/// and its column, counted from zero.
pub fn racer_coord(span: &Span) -> (r: (u32, u32))
    requires
        span.range.row_end < u32::MAX,
    ensures
        r.0 == span.range.row_end + 1,
        r.1 == span.range.col_end,
{
    (one_indexed(span.range.row_end), span.range.col_end)
}

/// A definition that may be missing, by value.
pub open spec fn def_of(def: Option<&Def>) -> Option<Def> {
    match def {
        Some(def) => Some(*def),
        None => None,
    }
}

/// The text of a line that may be missing.
pub open spec fn line_text(line: Option<&str>) -> Option<Seq<char>> {
    match line {
        Some(line) => Some(line@),
        None => None,
    }
}

/// Whether a completion is wanted.
fn is_wanted(found: &RacerMatch, def: Option<&Def>, name: Option<&str>) -> (r: bool)
    ensures
        r == wanted(*found, def_of(def), line_text(name)),
{
    let named = match def {
        Some(def) => text::same(def.name.as_str(), found.matchstr.as_str()),
        None => match name {
            Some(name) => text::same(name, found.matchstr.as_str()),
            None => false,
        },
    };
    let repeats = match name {
        Some(name) => text::same(name, found.contextstr.as_str()),
        None => false,
    };
    named && !repeats
}

/// The place of the first completion that is wanted, given the line that the span starts in.
fn find_match(
    line: Option<&str>,
    span: &Span,
    def: Option<&Def>,
    matches: &Vec<RacerMatch>,
) -> (r: Option<usize>)
    ensures
        match r {
            Some(i) => i < matches@.len() && first_wanted(
                matches@,
                def_of(def),
                name_in(line_text(line), *span),
            ) == Some(i as int),
            None => first_wanted(matches@, def_of(def), name_in(line_text(line), *span)) is None,
        },
{
    let name = match line {
        Some(line) => text::get_bytes(
            line,
            span.range.col_start as usize,
            span.range.col_end as usize,
        ),
        None => None,
    };
    assert(line_text(name) == name_in(line_text(line), *span));
    let n: usize = matches.len();
    let mut i: usize = 0;
    while i < n
        invariant
            i <= n,
            n == matches@.len(),
            line_text(name) == name_in(line_text(line), *span),
            first_wanted(matches@.take(i as int), def_of(def), line_text(name)) is None,
        decreases n - i,
    {
        assert(matches@.take(i + 1).drop_last() == matches@.take(i as int));
        if is_wanted(&matches[i], def, name) {
            proof {
                lemma_first_wanted_extends(matches@, i + 1, def_of(def), line_text(name));
            }
            return Some(i);
        }
        i = i + 1;
    }
    assert(matches@.take(n as int) == matches@);
    None
}

/// A completion that is the first wanted stays the first when more follow.
proof fn lemma_first_wanted_extends(
    matches: Seq<RacerMatch>,
    n: int,
    def: Option<Def>,
    name: Option<Seq<char>>,
)
    requires
        0 <= n <= matches.len(),
        first_wanted(matches.take(n), def, name) is Some,
    ensures
        first_wanted(matches, def, name) == first_wanted(matches.take(n), def, name),
    decreases matches.len(),
{
    if n < matches.len() {
        assert(matches.drop_last().take(n) == matches.take(n));
        lemma_first_wanted_extends(matches.drop_last(), n, def, name);
    } else {
        assert(matches.take(n) == matches);
    }
}

/// What is asked of the formatter for the completions of a name.
pub open spec fn racer_item(
    line: Option<Seq<char>>,
    span: Span,
    def: Option<Def>,
    matches: Seq<RacerMatch>,
) -> Option<Seq<char>> {
    match first_wanted(matches, def, name_in(line, span)) {
        Some(i) => match_item(matches[i]),
        None => None,
    }
}

/// The documentation, and the type if there is one, that the completions of a name give.
pub open spec fn racer_found(
    config: FmtConfig,
    line: Option<Seq<char>>,
    span: Span,
    def: Option<Def>,
    matches: Seq<RacerMatch>,
    formatted: Option<Seq<char>>,
) -> Option<(Seq<char>, Option<Seq<char>>)> {
    match first_wanted(matches, def, name_in(line, span)) {
        Some(i) => Some((matches[i].docs@, match_type(config, matches[i], formatted))),
        None => None,
    }
}

/// What to ask the formatter before [`racer`], if anything.
pub fn racer_request(
    line: Option<&str>,
    span: &Span,
    def: Option<&Def>,
    matches: &Vec<RacerMatch>,
) -> (r: Option<String>)
    ensures
        text_of(r) == racer_item(line_text(line), *span, def_of(def), matches@),
{
    match find_match(line, span, def, matches) {
        Some(i) => {
            let found = &matches[i];
            let context = text::trim(text::trim_end_char(found.contextstr.as_str(), '{'));
            match found.mtype {
                MatchType::Function => Some(display::method_request(context)),
                MatchType::Trait | MatchType::Enum | MatchType::Struct => Some(
                    display::object_request(context),
                ),
                MatchType::Module | MatchType::Other => None,
            }
        },
        None => None,
    }
}

/// The string, unless it is empty.
fn keep_nonempty(s: String) -> (r: Option<String>)
    ensures
        text_of(r) == unless_empty(s@),
{
    if s.as_str().is_empty() {
        None
    } else {
        Some(s)
    }
}

/// Extracts documentation and type of the name in a span from its completions, given the line that
/// the span starts in, and what the formatter makes of the item that it is asked about.
pub fn racer(
    config: &FmtConfig,
    line: Option<&str>,
    span: &Span,
    def: Option<&Def>,
    matches: &Vec<RacerMatch>,
    formatted: Option<Vec<u8>>,
) -> (r: Option<(String, Option<String>)>)
    requires
        config.tab_spaces < usize::MAX,
    ensures
        found_text(r) == racer_found(
            *config,
            line_text(line),
            *span,
            def_of(def),
            matches@,
            display::reply_text(display::reply_bytes(formatted)),
        ),
{
    match find_match(line, span, def, matches) {
        Some(i) => {
            let found = &matches[i];
            let context = text::trim(text::trim_end_char(found.contextstr.as_str(), '{'));
            let ty = match found.mtype {
                MatchType::Module => None,
                MatchType::Function => keep_nonempty(
                    display::format_method(config, context, formatted),
                ),
                MatchType::Trait | MatchType::Enum | MatchType::Struct => keep_nonempty(
                    display::format_object(context, formatted),
                ),
                MatchType::Other => keep_nonempty(context.to_owned()),
            };
            Some((found.docs.clone(), ty))
        },
        None => None,
    }
}

} // verus!
