//! What a tooltip says, told by what is hovered over and by the sources alone.

use vstd::prelude::*;

use crate::decl;
use crate::display;
use crate::display::FmtConfig;
use crate::docs;
use crate::model;
use crate::model::{Def, DefKind, Marked, MarkedString};
use crate::racer;
use crate::text;
use crate::text_laws;
use crate::tooltip;
use crate::tooltip::{Hover, Route, Sources};

verus! {

/// The use of a local variable shows its type and then the line that binds it, without the white
/// space around that; where a body opens at the end of the line, it is shown as closed. A line that
/// is blank or missing is not shown.
pub proof fn law_local_usage(lines: Seq<Seq<char>>, def: Def)
    ensures
        ({
            let row = def.span.range.row_start as int;
            let shown = tooltip::local_usage_shown(lines, def);
            &&& shown.len() > 0
            &&& shown[0] == (Marked::Code { language: "rust"@, value: text::trimmed(def.value@) })
            &&& row >= lines.len() || text::trimmed(lines[row]).len() == 0 ==> shown.len() == 1
            &&& row < lines.len() && text::trimmed(lines[row]).len() > 0 ==> {
                let line = text::trimmed(lines[row]);
                &&& shown.len() == 2
                &&& line.last() != '{' ==> shown[1] == (Marked::Code {
                    language: "rust"@,
                    value: line,
                })
                &&& line.last() == '{' ==> shown[1] == (Marked::Code {
                    language: "rust"@,
                    value: line + " ... }"@,
                })
            }
        }),
{
    reveal_strlit("{");
    reveal_strlit(" ... }");
    let row = def.span.range.row_start as int;
    let line = if row < lines.len() {
        text::trimmed(lines[row])
    } else {
        Seq::empty()
    };
    let n = line.len() as int;
    if n > 0 {
        if line.last() == '{' {
            assert(line.subrange(n - 1, n) =~= "{"@);
        }
        if "{"@.is_suffix_of(line) {
            assert(line.subrange(n - 1, n)[0] == '{');
        }
    }
}

/// A local variable that is bound in a body, which its qualified name tells by a `$`, shows more
/// than its type where it is used; any other local variable, and any where it is bound, shows its
/// type alone.
pub proof fn law_local_variables(
    hover: Hover,
    def: Def,
    config: FmtConfig,
    sources: Sources,
    formatted: Option<Seq<char>>,
)
    requires
        hover.def == Some(def),
        def.kind == DefKind::Local,
    ensures
        tooltip::tooltip_shown(hover, config, sources, formatted) == if def.span != hover.span
            && def.qualname@.contains('$') {
            tooltip::local_usage_shown(text::texts(sources.def_file@), def)
        } else {
            seq![Marked::Code { language: "rust"@, value: text::trimmed(def.value@) }]
        },
        tooltip::item_asked(hover, sources) is None,
{
    reveal_strlit("$");
    let name = def.qualname@;
    if name.contains('$') {
        let i = name.index_of('$');
        assert(name.subrange(i, i + 1) =~= "$"@);
        assert(text::occurs_at(name, "$"@, i));
    }
    if text::occurs_in(name, "$"@) {
        let i = choose|i: int| text::occurs_at(name, "$"@, i);
        assert(name.subrange(i, i + 1)[0] == '$');
        assert(name[i] == '$');
    }
}

/// Rust code, then where documentation can be read, if that is known, and then the documentation
/// that the source of a definition has or else what is known of it, if there is any.
pub open spec fn code_and_docs(
    code: Seq<char>,
    hover: Hover,
    def: Def,
    lines: Seq<Seq<char>>,
) -> Seq<Marked> {
    let docs = match docs::extracted_docs(lines, def.span.range.row_start as int) {
        Some(docs) => docs,
        None => text::trimmed(def.docs@),
    };
    seq![Marked::Code { language: "rust"@, value: code }] + (match hover.doc_url {
        Some(url) => seq![Marked::Markdown(url@)],
        None => Seq::empty(),
    }) + (if docs.len() > 0 {
        seq![Marked::Markdown(docs)]
    } else {
        Seq::empty()
    })
}

/// A field, a variant and a module show their value and their documentation.
pub proof fn law_fields_variants_and_modules(
    hover: Hover,
    def: Def,
    config: FmtConfig,
    sources: Sources,
    formatted: Option<Seq<char>>,
)
    requires
        hover.def == Some(def),
        def.kind == DefKind::Field || def.kind == DefKind::TupleVariant || def.kind
            == DefKind::StructVariant || def.kind == DefKind::Mod,
    ensures
        ({
            let lines = text::texts(sources.def_file@);
            let shown = code_and_docs(text::trimmed(def.value@), hover, def, lines);
            &&& tooltip::tooltip_shown(hover, config, sources, formatted) == shown
            &&& tooltip::value_and_docs_shown(lines, def, racer::text_of(hover.doc_url)) == shown
        }),
        tooltip::item_asked(hover, sources) is None,
{
    let lines = text::texts(sources.def_file@);
    assert(tooltip::tooltip_shown(hover, config, sources, formatted) =~= code_and_docs(
        text::trimmed(def.value@),
        hover,
        def,
        lines,
    ));
}

/// A struct, enum, union and trait show their declaration, as the formatter's reply shows it, and
/// their documentation. The declaration is that in the source; where there is none, it is the word
/// for the kind and the name, or for a trait its value.
pub proof fn law_objects(
    hover: Hover,
    def: Def,
    config: FmtConfig,
    sources: Sources,
    formatted: Option<Seq<char>>,
    known: Seq<char>,
)
    requires
        hover.def == Some(def),
        def.kind == DefKind::Struct && known == "struct "@ + def.name@ || def.kind == DefKind::Enum
            && known == "enum "@ + def.name@ || def.kind == DefKind::Union && known == "union "@
            + def.name@ || def.kind == DefKind::Trait && known == "trait "@ + def.value@,
    ensures
        ({
            let lines = text::texts(sources.def_file@);
            let decl = match decl::extracted_decl(lines, def.span.range.row_start as int) {
                Some(decl) => text::joined(decl, "\n"@),
                None => known,
            };
            let shown = code_and_docs(display::object_shown(decl, formatted), hover, def, lines);
            &&& tooltip::tooltip_shown(hover, config, sources, formatted) == shown
            &&& tooltip::object_tooltip_shown(lines, def, racer::text_of(hover.doc_url), formatted)
                == shown
            &&& tooltip::item_asked(hover, sources) == Some(display::object_item(decl))
        }),
{
    let lines = text::texts(sources.def_file@);
    let decl = match decl::extracted_decl(lines, def.span.range.row_start as int) {
        Some(decl) => text::joined(decl, "\n"@),
        None => known,
    };
    assert(tooltip::tooltip_shown(hover, config, sources, formatted) =~= code_and_docs(
        display::object_shown(decl, formatted),
        hover,
        def,
        lines,
    ));
}

/// A function and a method show their declaration, as the formatter's reply shows it, and their
/// documentation. The declaration is that in the source; where there is none, it is the value with
/// the name behind its first `fn `, and then with no space in `> (` and with one in `->(`.
pub proof fn law_functions_and_methods(
    hover: Hover,
    def: Def,
    config: FmtConfig,
    sources: Sources,
    formatted: Option<Seq<char>>,
)
    requires
        hover.def == Some(def),
        def.kind == DefKind::Function || def.kind == DefKind::Method,
    ensures
        ({
            let lines = text::texts(sources.def_file@);
            let named = text::replaced_first(text::trimmed(def.value@), "fn "@, "fn "@ + def.name@);
            let decl = match decl::extracted_decl(lines, def.span.range.row_start as int) {
                Some(decl) => text::joined(decl, "\n"@),
                None => text::replaced(text::replaced(named, "> ("@, ">("@), "->("@, "-> ("@),
            };
            let code = display::method_shown(config.tab_spaces as nat, decl, formatted);
            let shown = code_and_docs(code, hover, def, lines);
            &&& tooltip::tooltip_shown(hover, config, sources, formatted) == shown
            &&& tooltip::method_tooltip_shown(
                config,
                lines,
                def,
                racer::text_of(hover.doc_url),
                formatted,
            ) == shown
            &&& tooltip::item_asked(hover, sources) == Some(display::method_item(decl))
        }),
{
    let lines = text::texts(sources.def_file@);
    let decl = tooltip::declaration(lines, def, tooltip::method_known(def));
    let code = display::method_shown(config.tab_spaces as nat, decl, formatted);
    assert(tooltip::tooltip_shown(hover, config, sources, formatted) =~= code_and_docs(
        code,
        hover,
        def,
        lines,
    ));
}

/// A name is put behind the first `fn ` of a signature, and the rest of the signature stays.
pub proof fn law_function_is_named(def: Def, before: Seq<char>, after: Seq<char>)
    requires
        text::trimmed(def.value@) == before + "fn "@ + after,
        forall|i: int|
            0 <= i < before.len() ==> !#[trigger] text::occurs_at(before + "fn "@ + after, "fn "@, i),
        !text::occurs_in(before + ("fn "@ + def.name@) + after, "> ("@),
        !text::occurs_in(before + ("fn "@ + def.name@) + after, "->("@),
    ensures
        tooltip::method_known(def) == before + "fn "@ + def.name@ + after,
{
    reveal_strlit("fn ");
    let named = before + ("fn "@ + def.name@) + after;
    text_laws::law_replacing(before, "fn "@, after, "fn "@ + def.name@);
    text_laws::law_nothing_to_replace(named, "> ("@, ">("@);
    text_laws::law_nothing_to_replace(named, "->("@, "-> ("@);
    assert(named =~= before + "fn "@ + def.name@ + after);
}

/// A static, a constant and what has no definition show what completions tell: the type, or else
/// that of the hover, and the documentation, cleaned, or else that of the hover; each unless it is
/// blank. They show nothing where completions tell nothing.
pub proof fn law_completions(
    hover: Hover,
    config: FmtConfig,
    sources: Sources,
    formatted: Option<Seq<char>>,
)
    requires
        hover.def matches Some(def) ==> def.kind == DefKind::Static || def.kind == DefKind::Const,
    ensures
        ({
            let row = hover.span.range.row_start as int;
            let line = if row < sources.hover_file@.len() {
                Some(sources.hover_file@[row]@)
            } else {
                None
            };
            let matches = sources.matches@;
            let shown = tooltip::tooltip_shown(hover, config, sources, formatted);
            &&& tooltip::item_asked(hover, sources) == racer::racer_item(
                line,
                hover.span,
                None,
                matches,
            )
            &&& match racer::racer_found(config, line, hover.span, None, matches, formatted) {
                None => shown.len() == 0,
                Some((found_docs, found_type)) => {
                    let known_type = match hover.ty {
                        Some(ty) => ty@,
                        None => Seq::empty(),
                    };
                    let known_docs = match hover.docs {
                        Some(docs) => docs@,
                        None => Seq::empty(),
                    };
                    let ty = text::trimmed(
                        match found_type {
                            Some(ty) => ty,
                            None => known_type,
                        },
                    );
                    let cleaned = docs::cleaned(found_docs);
                    let docs = if text::trimmed(cleaned).len() > 0 {
                        cleaned
                    } else {
                        known_docs
                    };
                    shown == (if ty.len() > 0 {
                        seq![Marked::Code { language: "rust"@, value: ty }]
                    } else {
                        Seq::empty()
                    }) + (if docs.len() > 0 {
                        seq![Marked::Markdown(docs)]
                    } else {
                        Seq::empty()
                    })
                },
            }
        }),
{
    let row = hover.span.range.row_start as int;
    let line = if row < sources.hover_file@.len() {
        Some(sources.hover_file@[row]@)
    } else {
        None
    };
    let found = racer::racer_found(config, line, hover.span, None, sources.matches@, formatted);
    let shown = tooltip::tooltip_shown(hover, config, sources, formatted);
    if found is Some {
        let known_type = match hover.ty {
            Some(ty) => ty@,
            None => Seq::empty(),
        };
        let known_docs = match hover.docs {
            Some(docs) => docs@,
            None => Seq::empty(),
        };
        let ty = text::trimmed(
            match (found->0).1 {
                Some(ty) => ty,
                None => known_type,
            },
        );
        let cleaned = docs::cleaned((found->0).0);
        let docs = if text::trimmed(cleaned).len() > 0 {
            cleaned
        } else {
            known_docs
        };
        assert(shown =~= (if ty.len() > 0 {
            seq![Marked::Code { language: "rust"@, value: ty }]
        } else {
            Seq::empty()
        }) + (if docs.len() > 0 {
            seq![Marked::Markdown(docs)]
        } else {
            Seq::empty()
        }));
    }
}

/// What is of any other kind shows nothing.
pub proof fn law_other_kinds(
    hover: Hover,
    def: Def,
    config: FmtConfig,
    sources: Sources,
    formatted: Option<Seq<char>>,
)
    requires
        hover.def == Some(def),
        def.kind == DefKind::Tuple || def.kind == DefKind::Macro || def.kind == DefKind::Type
            || def.kind == DefKind::ForeignFunction || def.kind == DefKind::ForeignStatic || def.kind
            == DefKind::ExternType,
    ensures
        tooltip::tooltip_shown(hover, config, sources, formatted) == Seq::<Marked>::empty(),
        tooltip::item_asked(hover, sources) is None,
{
}

/// Documentation has to be found in the source for those kinds whose tooltip shows it, and for no
/// others.
pub proof fn law_shows_docs(hover: Hover)
    ensures
        tooltip::shows_docs(hover) <==> (hover.def matches Some(def) && {
            ||| def.kind == DefKind::Field
            ||| def.kind == DefKind::TupleVariant
            ||| def.kind == DefKind::StructVariant
            ||| def.kind == DefKind::Mod
            ||| def.kind == DefKind::Struct
            ||| def.kind == DefKind::Enum
            ||| def.kind == DefKind::Union
            ||| def.kind == DefKind::Trait
            ||| def.kind == DefKind::Function
            ||| def.kind == DefKind::Method
        }),
{
}

/// What a tooltip shows is told by the kind of the definition, and for a local variable by where it
/// is bound and used.
pub proof fn law_route(hover: Hover)
    ensures
        ({
            let route = tooltip::route_of(hover);
            match hover.def {
                None => route == Route::Completions,
                Some(def) => {
                    &&& route == Route::Completions <==> def.kind == DefKind::Static || def.kind
                        == DefKind::Const
                    &&& route == Route::FieldOrVariant <==> def.kind == DefKind::Field || def.kind
                        == DefKind::TupleVariant || def.kind == DefKind::StructVariant
                    &&& route == Route::Module <==> def.kind == DefKind::Mod
                    &&& route == Route::Object <==> def.kind == DefKind::Struct || def.kind
                        == DefKind::Enum || def.kind == DefKind::Union || def.kind == DefKind::Trait
                    &&& route == Route::FunctionOrMethod <==> def.kind == DefKind::Function
                        || def.kind == DefKind::Method
                    &&& route == Route::Value || route == Route::LocalUsage <==> def.kind
                        == DefKind::Local
                    &&& route == Route::LocalUsage ==> def.span != hover.span
                    &&& def.kind == DefKind::Local && def.span != hover.span ==> (route
                        == Route::LocalUsage <==> text::occurs_in(def.qualname@, "$"@))
                },
            }
        }),
{
}

/// What is said of the entries of a tooltip is said of each entry as it stands: Markdown is its
/// text, and code its language and its text.
pub proof fn law_entries(tooltip: Seq<MarkedString>, i: int)
    requires
        0 <= i < tooltip.len(),
    ensures
        model::entries(tooltip).len() == tooltip.len(),
        match tooltip[i] {
            MarkedString::String(markdown) => model::entries(tooltip)[i] == Marked::Markdown(
                markdown@,
            ),
            MarkedString::LanguageString(code) => model::entries(tooltip)[i] == (Marked::Code {
                language: code.language@,
                value: code.value@,
            }),
        },
{
}

/// What is said of what may be missing is said of it as it stands.
pub proof fn law_what_may_be_missing(
    s: String,
    bytes: Vec<u8>,
    line: &str,
    def: &Def,
    ty: Option<String>,
)
    ensures
        racer::text_of(Some(s)) == Some(s@),
        racer::text_of(None) is None,
        racer::line_text(Some(line)) == Some(line@),
        racer::line_text(None) is None,
        racer::def_of(Some(def)) == Some(*def),
        racer::def_of(None) is None,
        racer::found_text(Some((s, ty))) == Some((s@, racer::text_of(ty))),
        racer::found_text(None) is None,
        display::reply_bytes(Some(bytes)) == Some(bytes@),
        display::reply_bytes(None) is None,
{
}

} // verus!
