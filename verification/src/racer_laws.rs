//! What completions tell of a name, told by the completions alone.

use vstd::prelude::*;
use vstd::utf8::*;

use crate::display;
use crate::display::FmtConfig;
use crate::model::{Def, Span};
use crate::racer;
use crate::racer::{MatchType, RacerMatch};
use crate::text;
use crate::text_laws;
use crate::tooltip_laws;

verus! {

/// `code` is the context of a completion without the braces that it ends with, and without the white
/// space around what is left.
pub open spec fn context_is(found: RacerMatch, code: Seq<char>) -> bool {
    exists|head: Seq<char>, braces: Seq<char>|
        {
            &&& found.contextstr@ == #[trigger] (head + braces)
            &&& head.len() > 0 ==> head.last() != '{'
            &&& forall|i: int| 0 <= i < braces.len() ==> #[trigger] braces[i] == '{'
            &&& text::trimmed(head) == code
        }
}

proof fn lemma_context(found: RacerMatch, code: Seq<char>)
    requires
        context_is(found, code),
    ensures
        racer::context(found) == code,
{
    let (head, braces) = choose|head: Seq<char>, braces: Seq<char>|
        {
            &&& found.contextstr@ == #[trigger] (head + braces)
            &&& head.len() > 0 ==> head.last() != '{'
            &&& forall|i: int| 0 <= i < braces.len() ==> #[trigger] braces[i] == '{'
            &&& text::trimmed(head) == code
        };
    text_laws::law_without_final(head, braces, '{');
}

/// The type of a completion is what its context says: nothing for a module, the function or method
/// or the object as it is shown, and the context itself for anything else; and none is empty. The
/// formatter is asked about functions, methods and objects only, by their context.
pub proof fn law_match_type(
    config: FmtConfig,
    found: RacerMatch,
    code: Seq<char>,
    formatted: Option<Seq<char>>,
)
    requires
        context_is(found, code),
    ensures
        ({
            let ty = racer::match_type(config, found, formatted);
            let item = racer::match_item(found);
            match found.mtype {
                MatchType::Module => ty is None && item is None,
                MatchType::Function => {
                    let shown = display::method_shown(config.tab_spaces as nat, code, formatted);
                    &&& shown.len() == 0 ==> ty is None
                    &&& shown.len() > 0 ==> ty == Some(shown)
                    &&& item == Some(display::method_item(code))
                },
                MatchType::Trait | MatchType::Enum | MatchType::Struct => {
                    let shown = display::object_shown(code, formatted);
                    &&& shown.len() == 0 ==> ty is None
                    &&& shown.len() > 0 ==> ty == Some(shown)
                    &&& item == Some(display::object_item(code))
                },
                MatchType::Other => {
                    &&& code.len() == 0 ==> ty is None
                    &&& code.len() > 0 ==> ty == Some(code)
                    &&& item is None
                },
            }
        }),
{
    lemma_context(found, code);
}

/// The name that is hovered over is the part of its line between the columns of the span, counted
/// in bytes.
pub proof fn law_name(before: Seq<char>, name: Seq<char>, after: Seq<char>, span: Span)
    requires
        span.range.col_start == encode_utf8(before).len(),
        span.range.col_end == encode_utf8(before + name).len(),
    ensures
        racer::name_in(Some(before + name + after), span) == Some(name),
        racer::name_in(None, span) is None,
{
    text_laws::law_bytes_of_part(before, name, after);
}

proof fn lemma_first_wanted(
    matches: Seq<RacerMatch>,
    def: Option<Def>,
    name: Option<Seq<char>>,
    i: int,
)
    requires
        0 <= i < matches.len(),
        racer::wanted(matches[i], def, name),
        forall|j: int| 0 <= j < i ==> !racer::wanted(#[trigger] matches[j], def, name),
    ensures
        racer::first_wanted(matches, def, name) == Some(i),
{
    tooltip_laws::law_first_wanted(matches, def, name);
    let found = racer::first_wanted(matches, def, name);
    match found {
        Some(k) => {
            if k < i {
                assert(!racer::wanted(matches[k], def, name));
            }
        },
        None => {
            assert(!racer::wanted(matches[i], def, name));
        },
    }
}

/// Without a definition, the first completion is taken whose name is the one that is hovered over,
/// character by character, and whose context is more than that name.
pub proof fn law_racer_by_name(
    config: FmtConfig,
    before: Seq<char>,
    name: Seq<char>,
    after: Seq<char>,
    span: Span,
    matches: Seq<RacerMatch>,
    formatted: Option<Seq<char>>,
    i: int,
)
    requires
        span.range.col_start == encode_utf8(before).len(),
        span.range.col_end == encode_utf8(before + name).len(),
        0 <= i < matches.len(),
        matches[i].matchstr@ == name,
        matches[i].contextstr@ != name,
        forall|j: int|
            0 <= j < i ==> (#[trigger] matches[j]).matchstr@ != name || matches[j].contextstr@ == name,
    ensures
        ({
            let line = Some(before + name + after);
            &&& racer::racer_found(config, line, span, None, matches, formatted) == Some(
                (matches[i].docs@, racer::match_type(config, matches[i], formatted)),
            )
            &&& racer::racer_item(line, span, None, matches) == racer::match_item(matches[i])
        }),
{
    law_name(before, name, after, span);
    lemma_first_wanted(matches, None, Some(name), i);
}

/// Without a definition, nothing is found where no completion has the name that is hovered over, or
/// where each that has it has no more than it for a context.
pub proof fn law_racer_name_is_unknown(
    config: FmtConfig,
    before: Seq<char>,
    name: Seq<char>,
    after: Seq<char>,
    span: Span,
    matches: Seq<RacerMatch>,
    formatted: Option<Seq<char>>,
)
    requires
        span.range.col_start == encode_utf8(before).len(),
        span.range.col_end == encode_utf8(before + name).len(),
        forall|j: int|
            0 <= j < matches.len() ==> (#[trigger] matches[j]).matchstr@ != name
                || matches[j].contextstr@ == name,
    ensures
        ({
            let line = Some(before + name + after);
            &&& racer::racer_found(config, line, span, None, matches, formatted) is None
            &&& racer::racer_item(line, span, None, matches) is None
        }),
{
    law_name(before, name, after, span);
    tooltip_laws::law_first_wanted(matches, None, Some(name));
}

/// What is found without a definition belongs to a completion whose name is, character by character,
/// a part of the line, the one between the columns of the span; and to the first of those whose
/// context is more than the name.
pub proof fn law_racer_finds_the_name(
    config: FmtConfig,
    line: Option<Seq<char>>,
    span: Span,
    matches: Seq<RacerMatch>,
    formatted: Option<Seq<char>>,
) -> (place: (Seq<char>, Seq<char>, int))
    ensures
        racer::racer_found(config, line, span, None, matches, formatted) matches Some((docs, ty))
            ==> {
            let (before, after, i) = place;
            &&& 0 <= i < matches.len()
            &&& line == Some(before + matches[i].matchstr@ + after)
            &&& encode_utf8(before).len() == span.range.col_start
            &&& encode_utf8(before + matches[i].matchstr@).len() == span.range.col_end
            &&& matches[i].contextstr@ != matches[i].matchstr@
            &&& docs == matches[i].docs@
            &&& ty == racer::match_type(config, matches[i], formatted)
            &&& forall|j: int|
                0 <= j < i && (#[trigger] matches[j]).matchstr@ == matches[i].matchstr@
                    ==> matches[j].contextstr@ == matches[i].matchstr@
        },
{
    let name = racer::name_in(line, span);
    tooltip_laws::law_first_wanted(matches, None, name);
    match racer::first_wanted(matches, None, name) {
        Some(i) => {
            let (before, after) = text_laws::law_part_of_bytes(
                line->0,
                span.range.col_start as int,
                span.range.col_end as int,
            );
            assert forall|j: int|
                0 <= j < i && (#[trigger] matches[j]).matchstr@
                    == matches[i].matchstr@ implies matches[j].contextstr@
                == matches[i].matchstr@ by {
                assert(!racer::wanted(matches[j], None, name));
            }
            (before, after, i)
        },
        None => (Seq::empty(), Seq::empty(), 0),
    }
}

/// With a definition, the first completion is taken whose name is that of the definition and whose
/// context is more than the name that is hovered over; and nothing is found where there is none.
pub proof fn law_racer_by_definition(
    config: FmtConfig,
    line: Option<Seq<char>>,
    span: Span,
    def: Def,
    matches: Seq<RacerMatch>,
    formatted: Option<Seq<char>>,
    i: int,
)
    requires
        0 <= i <= matches.len(),
        i < matches.len() ==> matches[i].matchstr@ == def.name@ && racer::name_in(line, span) != Some(
            matches[i].contextstr@,
        ),
        forall|j: int|
            0 <= j < i ==> (#[trigger] matches[j]).matchstr@ != def.name@ || racer::name_in(line, span)
                == Some(matches[j].contextstr@),
    ensures
        ({
            let found = racer::racer_found(config, line, span, Some(def), matches, formatted);
            let item = racer::racer_item(line, span, Some(def), matches);
            if i < matches.len() {
                &&& found == Some(
                    (matches[i].docs@, racer::match_type(config, matches[i], formatted)),
                )
                &&& item == racer::match_item(matches[i])
            } else {
                found is None && item is None
            }
        }),
{
    let name = racer::name_in(line, span);
    if i < matches.len() {
        lemma_first_wanted(matches, Some(def), name, i);
    } else {
        tooltip_laws::law_first_wanted(matches, Some(def), name);
    }
}

/// Without a definition, nothing is found where the columns of the span cut no part out of the line,
/// or the line is missing.
pub proof fn law_racer_without_name(
    config: FmtConfig,
    line: Option<Seq<char>>,
    span: Span,
    matches: Seq<RacerMatch>,
    formatted: Option<Seq<char>>,
)
    requires
        line matches Some(s) ==> !exists|before: Seq<char>, name: Seq<char>, after: Seq<char>|
            {
                &&& s == #[trigger] (before + name + after)
                &&& encode_utf8(before).len() == span.range.col_start
                &&& encode_utf8(before + name).len() == span.range.col_end
            },
    ensures
        racer::racer_found(config, line, span, None, matches, formatted) is None,
        racer::racer_item(line, span, None, matches) is None,
{
    let name = racer::name_in(line, span);
    if name is Some {
        let (before, after) = text_laws::law_part_of_bytes(
            line->0,
            span.range.col_start as int,
            span.range.col_end as int,
        );
        assert(line->0 == before + name->0 + after);
    }
    tooltip_laws::law_first_wanted(matches, None, name);
}

} // verus!
