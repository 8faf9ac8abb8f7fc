//! What holds of tooltips, whatever is hovered over.

use vstd::prelude::*;

use crate::decl;
use crate::display::FmtConfig;
use crate::docs;
use crate::model;
use crate::model::{Def, DefKind, Marked};
use crate::racer;
use crate::racer::RacerMatch;
use crate::text;
use crate::tooltip;
use crate::tooltip::{Hover, Route, Sources};

verus! {

/// The completion that tells of a name is wanted, and no completion before it is; none tells of it
/// exactly where none is wanted.
pub proof fn law_first_wanted(matches: Seq<RacerMatch>, def: Option<Def>, name: Option<Seq<char>>)
    ensures
        match racer::first_wanted(matches, def, name) {
            Some(i) => {
                &&& 0 <= i < matches.len()
                &&& racer::wanted(matches[i], def, name)
                &&& forall|j: int| 0 <= j < i ==> !racer::wanted(#[trigger] matches[j], def, name)
            },
            None => forall|j: int|
                0 <= j < matches.len() ==> !racer::wanted(#[trigger] matches[j], def, name),
        },
    decreases matches.len(),
{
    if matches.len() > 0 {
        let before = matches.drop_last();
        law_first_wanted(before, def, name);
        assert forall|j: int| 0 <= j < before.len() implies before[j] == #[trigger] matches[j] by {}
    }
}

/// Without a name and without a definition, no completion tells of anything.
pub proof fn law_no_name_no_completion(matches: Seq<RacerMatch>)
    ensures
        racer::first_wanted(matches, None, None) is None,
{
    law_first_wanted(matches, None, None);
}

/// The formatter is needed only where it is asked: where there is nothing to ask, the tooltip is the
/// same whatever it would say.
pub proof fn law_formatter_is_asked(
    hover: Hover,
    config: FmtConfig,
    sources: Sources,
    one: Option<Seq<char>>,
    other: Option<Seq<char>>,
)
    requires
        tooltip::item_asked(hover, sources) is None,
    ensures
        tooltip::tooltip_shown(hover, config, sources, one) == tooltip::tooltip_shown(
            hover,
            config,
            sources,
            other,
        ),
{
}

/// Completions, and the file that is hovered over, matter only to a tooltip that shows what
/// completions tell.
pub proof fn law_definitions_need_no_completions(
    hover: Hover,
    config: FmtConfig,
    one: Sources,
    other: Sources,
    formatted: Option<Seq<char>>,
)
    requires
        tooltip::route_of(hover) != Route::Completions,
        text::texts(one.def_file@) == text::texts(other.def_file@),
    ensures
        tooltip::tooltip_shown(hover, config, one, formatted) == tooltip::tooltip_shown(
            hover,
            config,
            other,
            formatted,
        ),
        tooltip::item_asked(hover, one) == tooltip::item_asked(hover, other),
{
}

/// The file that holds a definition does not matter to a tooltip that shows what completions tell.
pub proof fn law_completions_need_no_definition(
    hover: Hover,
    config: FmtConfig,
    one: Sources,
    other: Sources,
    formatted: Option<Seq<char>>,
)
    requires
        tooltip::route_of(hover) == Route::Completions,
        text::texts(one.hover_file@) == text::texts(other.hover_file@),
        one.matches@ == other.matches@,
    ensures
        tooltip::tooltip_shown(hover, config, one, formatted) == tooltip::tooltip_shown(
            hover,
            config,
            other,
            formatted,
        ),
        tooltip::item_asked(hover, one) == tooltip::item_asked(hover, other),
{
    let row = hover.span.range.row_start as int;
    assert(one.hover_file@.len() == text::texts(one.hover_file@).len());
    assert(other.hover_file@.len() == text::texts(other.hover_file@).len());
    if row < one.hover_file@.len() {
        assert(text::texts(one.hover_file@)[row] == one.hover_file@[row]@);
        assert(text::texts(other.hover_file@)[row] == other.hover_file@[row]@);
    }
    assert(tooltip::hover_line(hover, one) == tooltip::hover_line(hover, other));
}

/// A tooltip that shows a definition begins with Rust code.
pub proof fn law_definitions_begin_with_code(
    hover: Hover,
    config: FmtConfig,
    sources: Sources,
    formatted: Option<Seq<char>>,
)
    requires
        tooltip::route_of(hover) != Route::Completions,
        tooltip::route_of(hover) != Route::Nothing,
    ensures
        ({
            let shown = tooltip::tooltip_shown(hover, config, sources, formatted);
            shown.len() > 0 && exists|code: Seq<char>| shown[0] == #[trigger] model::rust_code(code)
        }),
{
    let shown = tooltip::tooltip_shown(hover, config, sources, formatted);
    assert(shown[0] == model::rust_code(shown[0]->value));
}

/// A tooltip that shows documentation from source has, behind the declaration, where documentation
/// can be read exactly if that is known, and then the documentation exactly if there is any.
pub proof fn law_definitions_show_docs(
    hover: Hover,
    config: FmtConfig,
    sources: Sources,
    formatted: Option<Seq<char>>,
)
    requires
        tooltip::shows_docs(hover),
    ensures
        ({
            let shown = tooltip::tooltip_shown(hover, config, sources, formatted);
            let docs = tooltip::docs_shown(text::texts(sources.def_file@), hover.def->0);
            let urls: int = if hover.doc_url is Some {
                1
            } else {
                0
            };
            &&& shown.len() == 1 + urls + (if docs.len() > 0 {
                1int
            } else {
                0
            })
            &&& hover.doc_url matches Some(url) ==> shown[1] == Marked::Markdown(url@)
            &&& docs.len() > 0 ==> shown[1 + urls] == Marked::Markdown(docs)
        }),
{
}

/// Documentation in the source comes before what is known of the definition otherwise.
pub proof fn law_source_docs_come_first(lines: Seq<Seq<char>>, one: Def, other: Def)
    requires
        one.span.range.row_start == other.span.range.row_start,
        docs::extracted_docs(lines, one.span.range.row_start as int) is Some,
    ensures
        tooltip::docs_shown(lines, one) == tooltip::docs_shown(lines, other),
{
}

/// A declaration in the source comes before what is known of the definition otherwise.
pub proof fn law_source_declarations_come_first(
    lines: Seq<Seq<char>>,
    def: Def,
    one: Seq<char>,
    other: Seq<char>,
)
    requires
        decl::extracted_decl(lines, def.span.range.row_start as int) is Some,
    ensures
        tooltip::declaration(lines, def, one) == tooltip::declaration(lines, def, other),
{
}

/// Of a local variable, only a use of one that is bound in a body shows more than the type; where it
/// is defined, and as an argument of a function, it shows its type alone.
pub proof fn law_locals_show_their_type(
    hover: Hover,
    config: FmtConfig,
    sources: Sources,
    formatted: Option<Seq<char>>,
)
    requires
        hover.def is Some,
        hover.def->0.kind == DefKind::Local,
    ensures
        ({
            let shown = tooltip::tooltip_shown(hover, config, sources, formatted);
            let def = hover.def->0;
            &&& shown.len() > 0
            &&& shown[0] == model::rust_code(text::trimmed(def.value@))
            &&& def.span == hover.span || !text::occurs_in(def.qualname@, "$"@) ==> shown.len() == 1
        }),
{
}

/// Where nothing is defined and no completion is wanted, the tooltip is empty.
pub proof fn law_nothing_known_nothing_shown(
    hover: Hover,
    config: FmtConfig,
    sources: Sources,
    formatted: Option<Seq<char>>,
)
    requires
        hover.def is None,
        racer::first_wanted(
            sources.matches@,
            None,
            racer::name_in(tooltip::hover_line(hover, sources), hover.span),
        ) is None,
    ensures
        tooltip::tooltip_shown(hover, config, sources, formatted).len() == 0,
        tooltip::item_asked(hover, sources) is None,
{
}

} // verus!
