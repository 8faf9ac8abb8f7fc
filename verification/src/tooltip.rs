//! The tooltip of a hover.

use vstd::prelude::*;

use crate::decl;
use crate::display;
use crate::display::FmtConfig;
use crate::docs;
use crate::model;
use crate::model::{Def, DefKind, Marked, MarkedString, Span};
use crate::racer;
use crate::racer::RacerMatch;
use crate::text;

verus! {

/// What is known of the place that is hovered over.
#[derive(Debug, PartialEq, Eq)]
pub struct Hover {
    pub span: Span,
    /// The type at that place.
    pub ty: Option<String>,
    /// The definition of what stands there.
    pub def: Option<Def>,
    /// The documentation of what stands there.
    pub docs: Option<String>,
    /// Where that documentation can be read.
    pub doc_url: Option<String>,
}

/// What a tooltip is built from, besides what is known of the hover.
#[derive(Debug, PartialEq, Eq)]
pub struct Sources {
    /// The lines of the file that holds the definition; none where it cannot be read.
    pub def_file: Vec<String>,
    /// The lines of the file that is hovered over; none where it cannot be read.
    pub hover_file: Vec<String>,
    /// The completions at the end of the hovered span; none where the search for them fails.
    pub matches: Vec<RacerMatch>,
}

/// What a tooltip shows.
#[derive(Debug, Clone, Copy, PartialEq, Eq, Structural)]
pub enum Route {
    /// The value of the definition.
    Value,
    /// The use of a local variable.
    LocalUsage,
    /// A field or variant.
    FieldOrVariant,
    /// A struct, enum, union, or trait.
    Object,
    /// A function or method.
    FunctionOrMethod,
    /// A module.
    Module,
    /// What completions tell.
    Completions,
    /// Nothing.
    Nothing,
}

/// What the tooltip of a hover shows.
pub open spec fn route_of(hover: Hover) -> Route {
    match hover.def {
        None => Route::Completions,
        Some(def) => match def.kind {
            DefKind::Local => if def.span != hover.span && text::occurs_in(def.qualname@, "$"@) {
                Route::LocalUsage
            } else {
                Route::Value
            },
            DefKind::TupleVariant | DefKind::StructVariant | DefKind::Field => Route::FieldOrVariant,
            DefKind::Enum | DefKind::Union | DefKind::Struct | DefKind::Trait => Route::Object,
            DefKind::Function | DefKind::Method => Route::FunctionOrMethod,
            DefKind::Mod => Route::Module,
            DefKind::Static | DefKind::Const => Route::Completions,
            DefKind::Tuple
            | DefKind::Macro
            | DefKind::Type
            | DefKind::ForeignFunction
            | DefKind::ForeignStatic
            | DefKind::ExternType => Route::Nothing,
        },
    }
}

/// What the tooltip of a hover shows.
pub fn route(hover: &Hover) -> (r: Route)
    ensures
        r == route_of(*hover),
{
    match &hover.def {
        None => Route::Completions,
        Some(def) => match def.kind {
            DefKind::Local => if def.span != hover.span && text::contains(
                def.qualname.as_str(),
                "$",
            ) {
                Route::LocalUsage
            } else {
                Route::Value
            },
            DefKind::TupleVariant | DefKind::StructVariant | DefKind::Field => Route::FieldOrVariant,
            DefKind::Enum | DefKind::Union | DefKind::Struct | DefKind::Trait => Route::Object,
            DefKind::Function | DefKind::Method => Route::FunctionOrMethod,
            DefKind::Mod => Route::Module,
            DefKind::Static | DefKind::Const => Route::Completions,
            DefKind::Tuple
            | DefKind::Macro
            | DefKind::Type
            | DefKind::ForeignFunction
            | DefKind::ForeignStatic
            | DefKind::ExternType => Route::Nothing,
        },
    }
}

/// An entry of Rust code.
fn code_entry(code: &str) -> (r: MarkedString)
    ensures
        r@ == model::rust_code(code@),
{
    MarkedString::from_language_code("rust".to_owned(), code.to_owned())
}

/// The line that a local variable is defined in, as its context: a body that opens there is shown
/// as closed. Empty where the line is missing.
pub open spec fn local_context(lines: Seq<Seq<char>>, row: int) -> Seq<char> {
    let line = if row < lines.len() {
        text::trimmed(lines[row])
    } else {
        Seq::empty()
    };
    if "{"@.is_suffix_of(line) {
        line + " ... }"@
    } else {
        line
    }
}

/// The tooltip for the use of a local variable: its type, and then the context of its definition.
pub open spec fn local_usage_shown(lines: Seq<Seq<char>>, def: Def) -> Seq<Marked> {
    let the_type = seq![model::rust_code(text::trimmed(def.value@))];
    let context = local_context(lines, def.span.range.row_start as int);
    if context.len() == 0 {
        the_type
    } else {
        the_type.push(model::rust_code(context))
    }
}

/// Builds the tooltip for the use of a local variable, given the lines of the file that defines it.
pub fn tooltip_local_variable_usage(file: &Vec<String>, def: &Def) -> (r: Vec<MarkedString>)
    ensures
        model::entries(r@) == local_usage_shown(text::texts(file@), *def),
{
    let row: usize = def.span.range.row_start as usize;
    let mut context = String::new();
    if row < file.len() {
        context = text::trim(file[row].as_str()).to_owned();
    }
    if text::ends_with(context.as_str(), "{") {
        context.append(" ... }");
    }
    assert(context@ == local_context(text::texts(file@), row as int));
    let mut tooltip: Vec<MarkedString> = Vec::new();
    tooltip.push(code_entry(text::trim(def.value.as_str())));
    if !context.as_str().is_empty() {
        tooltip.push(code_entry(context.as_str()));
    }
    assert(model::entries(tooltip@) =~= local_usage_shown(text::texts(file@), *def));
    tooltip
}

/// The entries for a definition: its type, and then where its documentation can be read, and then
/// the documentation, as far as there is any.
pub open spec fn definition_shown(
    the_type: Seq<char>,
    doc_url: Option<Seq<char>>,
    docs: Seq<char>,
) -> Seq<Marked> {
    let the_type = seq![model::rust_code(the_type)];
    let with_url = match doc_url {
        Some(url) => the_type.push(Marked::Markdown(url)),
        None => the_type,
    };
    if docs.len() == 0 {
        with_url
    } else {
        with_url.push(Marked::Markdown(docs))
    }
}

/// The documentation of a definition: what its source says, or else what is known of it.
pub open spec fn docs_shown(lines: Seq<Seq<char>>, def: Def) -> Seq<char> {
    match docs::extracted_docs(lines, def.span.range.row_start as int) {
        Some(docs) => docs,
        None => text::trimmed(def.docs@),
    }
}

/// The source of a definition can be searched for its documentation.
pub open spec fn docs_found(lines: Seq<Seq<char>>, def: Def) -> bool {
    &&& docs::docs_in_file(lines, def.span.range.row_start as int)
    &&& docs::docs_cut_cleanly(lines, def.span.range.row_start as int)
}

/// The documentation of a definition.
fn show_docs(file: &Vec<String>, def: &Def) -> (r: String)
    requires
        docs_found(text::texts(file@), *def),
    ensures
        r@ == docs_shown(text::texts(file@), *def),
{
    match docs::extract_docs(file, def.span.range.row_start) {
        Some(docs) => docs,
        None => text::trim(def.docs.as_str()).to_owned(),
    }
}

/// The entries for a definition.
fn show_definition(the_type: &str, doc_url: Option<String>, docs: String) -> (r: Vec<MarkedString>)
    ensures
        model::entries(r@) == definition_shown(the_type@, racer::text_of(doc_url), docs@),
{
    let ghost url = racer::text_of(doc_url);
    let mut tooltip: Vec<MarkedString> = Vec::new();
    tooltip.push(code_entry(the_type));
    if let Some(doc_url) = doc_url {
        tooltip.push(MarkedString::from_markdown(doc_url));
    }
    let ghost text = docs@;
    if !docs.as_str().is_empty() {
        tooltip.push(MarkedString::from_markdown(docs));
    }
    assert(model::entries(tooltip@) =~= definition_shown(the_type@, url, text));
    tooltip
}

/// The tooltip for a field or variant, and for a module.
pub open spec fn value_and_docs_shown(
    lines: Seq<Seq<char>>,
    def: Def,
    doc_url: Option<Seq<char>>,
) -> Seq<Marked> {
    definition_shown(text::trimmed(def.value@), doc_url, docs_shown(lines, def))
}

/// Builds the tooltip for a field or variant, given the lines of the file that defines it.
pub fn tooltip_field_or_variant(
    file: &Vec<String>,
    def: &Def,
    doc_url: Option<String>,
) -> (r: Vec<MarkedString>)
    requires
        docs_found(text::texts(file@), *def),
    ensures
        model::entries(r@) == value_and_docs_shown(
            text::texts(file@),
            *def,
            racer::text_of(doc_url),
        ),
{
    show_definition(text::trim(def.value.as_str()), doc_url, show_docs(file, def))
}

/// Builds the tooltip for a module, given the lines of the file that defines it.
pub fn tooltip_mod(file: &Vec<String>, def: &Def, doc_url: Option<String>) -> (r: Vec<
    MarkedString,
>)
    requires
        docs_found(text::texts(file@), *def),
    ensures
        model::entries(r@) == value_and_docs_shown(
            text::texts(file@),
            *def,
            racer::text_of(doc_url),
        ),
{
    show_definition(text::trim(def.value.as_str()), doc_url, show_docs(file, def))
}

/// A struct, enum, union, or trait as far as it is known without its source.
pub open spec fn object_known(def: Def) -> Seq<char> {
    match def.kind {
        DefKind::Struct => "struct "@ + def.name@,
        DefKind::Enum => "enum "@ + def.name@,
        DefKind::Union => "union "@ + def.name@,
        DefKind::Trait => "trait "@ + def.value@,
        _ => text::trimmed(def.value@),
    }
}

/// A function or method as far as it is known without its source: its value is a signature that
/// lacks the name, and the spaces around its arguments are put right.
pub open spec fn method_known(def: Def) -> Seq<char> {
    let named = text::replaced_first(text::trimmed(def.value@), "fn "@, "fn "@ + def.name@);
    text::replaced(text::replaced(named, "> ("@, ">("@), "->("@, "-> ("@)
}

/// The declaration that begins in the row of a definition, or else what is known of it.
pub open spec fn declaration(lines: Seq<Seq<char>>, def: Def, known: Seq<char>) -> Seq<char> {
    match decl::extracted_decl(lines, def.span.range.row_start as int) {
        Some(decl) => text::joined(decl, "\n"@),
        None => known,
    }
}

/// The declaration that begins in the row of a definition, or else what is known of it.
fn find_declaration(file: &Vec<String>, def: &Def, known: String) -> (r: String)
    requires
        file@.len() <= u32::MAX,
    ensures
        r@ == declaration(text::texts(file@), *def, known@),
{
    match decl::extract_decleration(file, def.span.range.row_start) {
        Ok(lines) => text::join(&lines, "\n"),
        Err(_) => known,
    }
}

/// The declaration of a struct, enum, union, or trait.
fn object_declaration(file: &Vec<String>, def: &Def) -> (r: String)
    requires
        file@.len() <= u32::MAX,
    ensures
        r@ == declaration(text::texts(file@), *def, object_known(*def)),
{
    let known = match def.kind {
        DefKind::Struct => "struct ".to_owned().concat(def.name.as_str()),
        DefKind::Enum => "enum ".to_owned().concat(def.name.as_str()),
        DefKind::Union => "union ".to_owned().concat(def.name.as_str()),
        DefKind::Trait => "trait ".to_owned().concat(def.value.as_str()),
        _ => text::trim(def.value.as_str()).to_owned(),
    };
    find_declaration(file, def, known)
}

/// The declaration of a function or method.
fn method_declaration(file: &Vec<String>, def: &Def) -> (r: String)
    requires
        file@.len() <= u32::MAX,
    ensures
        r@ == declaration(text::texts(file@), *def, method_known(*def)),
{
    proof {
        reveal_strlit("fn ");
        reveal_strlit("> (");
        reveal_strlit("->(");
    }
    let name = "fn ".to_owned().concat(def.name.as_str());
    let named = text::replace_first(text::trim(def.value.as_str()), "fn ", name.as_str());
    let closed = text::replace_all(named.as_str(), "> (", ">(");
    let known = text::replace_all(closed.as_str(), "->(", "-> (");
    find_declaration(file, def, known)
}

/// The tooltip for a struct, enum, union, or trait.
pub open spec fn object_tooltip_shown(
    lines: Seq<Seq<char>>,
    def: Def,
    doc_url: Option<Seq<char>>,
    formatted: Option<Seq<char>>,
) -> Seq<Marked> {
    definition_shown(
        display::object_shown(declaration(lines, def, object_known(def)), formatted),
        doc_url,
        docs_shown(lines, def),
    )
}

/// Builds the tooltip for a struct, enum, union, or trait, given the lines of the file that defines
/// it, and what the formatter makes of the item that stands for its declaration.
pub fn tooltip_struct_enum_union_trait(
    file: &Vec<String>,
    def: &Def,
    doc_url: Option<String>,
    formatted: Option<Vec<u8>>,
) -> (r: Vec<MarkedString>)
    requires
        file@.len() <= u32::MAX,
        docs_found(text::texts(file@), *def),
    ensures
        model::entries(r@) == object_tooltip_shown(
            text::texts(file@),
            *def,
            racer::text_of(doc_url),
            display::reply_text(display::reply_bytes(formatted)),
        ),
{
    let the_type = display::format_object(object_declaration(file, def).as_str(), formatted);
    show_definition(the_type.as_str(), doc_url, show_docs(file, def))
}

/// The tooltip for a function or method.
pub open spec fn method_tooltip_shown(
    config: FmtConfig,
    lines: Seq<Seq<char>>,
    def: Def,
    doc_url: Option<Seq<char>>,
    formatted: Option<Seq<char>>,
) -> Seq<Marked> {
    definition_shown(
        display::method_shown(
            config.tab_spaces as nat,
            declaration(lines, def, method_known(def)),
            formatted,
        ),
        doc_url,
        docs_shown(lines, def),
    )
}

/// Builds the tooltip for a function or method, given the lines of the file that defines it, and
/// what the formatter makes of the item that stands for its declaration.
pub fn tooltip_function_method(
    config: &FmtConfig,
    file: &Vec<String>,
    def: &Def,
    doc_url: Option<String>,
    formatted: Option<Vec<u8>>,
) -> (r: Vec<MarkedString>)
    requires
        config.tab_spaces < usize::MAX,
        file@.len() <= u32::MAX,
        docs_found(text::texts(file@), *def),
    ensures
        model::entries(r@) == method_tooltip_shown(
            *config,
            text::texts(file@),
            *def,
            racer::text_of(doc_url),
            display::reply_text(display::reply_bytes(formatted)),
        ),
{
    let the_type = display::format_method(
        config,
        method_declaration(file, def).as_str(),
        formatted,
    );
    show_definition(the_type.as_str(), doc_url, show_docs(file, def))
}

/// The text of a string, which is empty where the string is missing.
pub open spec fn text_or_empty(s: Option<String>) -> Seq<char> {
    match s {
        Some(s) => s@,
        None => Seq::empty(),
    }
}

/// The line that a hover starts in.
pub open spec fn hover_line(hover: Hover, sources: Sources) -> Option<Seq<char>> {
    let row = hover.span.range.row_start as int;
    if row < sources.hover_file@.len() {
        Some(sources.hover_file@[row]@)
    } else {
        None
    }
}

/// The tooltip that completions give. Where they tell of no documentation or no type, what is known
/// of the hover takes the place.
pub open spec fn completions_shown(
    hover: Hover,
    found: Option<(Seq<char>, Option<Seq<char>>)>,
) -> Seq<Marked> {
    match found {
        None => Seq::empty(),
        Some((found_docs, found_type)) => {
            let cleaned = docs::cleaned(found_docs);
            let docs = if text::trimmed(cleaned).len() == 0 {
                text_or_empty(hover.docs)
            } else {
                cleaned
            };
            let ty = text::trimmed(
                match found_type {
                    Some(ty) => ty,
                    None => text_or_empty(hover.ty),
                },
            );
            let the_type = if ty.len() == 0 {
                Seq::empty()
            } else {
                seq![model::rust_code(ty)]
            };
            if docs.len() == 0 {
                the_type
            } else {
                the_type.push(Marked::Markdown(docs))
            }
        },
    }
}

/// The string, or an empty one where it is missing.
fn or_empty(s: &Option<String>) -> (r: String)
    ensures
        r@ == text_or_empty(*s),
{
    match s {
        Some(s) => s.clone(),
        None => String::new(),
    }
}

/// Builds the tooltip that completions give.
fn tooltip_completions(hover: &Hover, found: Option<(String, Option<String>)>) -> (r: Vec<
    MarkedString,
>)
    ensures
        model::entries(r@) == completions_shown(*hover, racer::found_text(found)),
{
    let mut contents: Vec<MarkedString> = Vec::new();
    let ghost shown = completions_shown(*hover, racer::found_text(found));
    if let Some((found_docs, found_type)) = found {
        let cleaned = docs::process_docs(found_docs.as_str());
        let docs = if text::trim(cleaned.as_str()).is_empty() {
            or_empty(&hover.docs)
        } else {
            cleaned
        };
        let ty = match found_type {
            Some(ty) => ty,
            None => or_empty(&hover.ty),
        };
        let ty = text::trim(ty.as_str());
        if !ty.is_empty() {
            contents.push(code_entry(ty));
        }
        if !docs.as_str().is_empty() {
            contents.push(MarkedString::from_markdown(docs));
        }
    }
    assert(model::entries(contents@) =~= shown);
    contents
}

/// The line that a hover starts in.
fn line_of<'a>(hover: &Hover, sources: &'a Sources) -> (r: Option<&'a str>)
    ensures
        racer::line_text(r) == hover_line(*hover, *sources),
{
    let row: usize = hover.span.range.row_start as usize;
    if row < sources.hover_file.len() {
        Some(sources.hover_file[row].as_str())
    } else {
        None
    }
}

/// What the formatter is asked about for a hover.
pub open spec fn item_asked(hover: Hover, sources: Sources) -> Option<Seq<char>> {
    let lines = text::texts(sources.def_file@);
    match route_of(hover) {
        Route::Object => Some(
            display::object_item(declaration(lines, hover.def->0, object_known(hover.def->0))),
        ),
        Route::FunctionOrMethod => Some(
            display::method_item(declaration(lines, hover.def->0, method_known(hover.def->0))),
        ),
        Route::Completions => racer::racer_item(
            hover_line(hover, sources),
            hover.span,
            None,
            sources.matches@,
        ),
        _ => None,
    }
}

/// The tooltip of a hover.
pub open spec fn tooltip_shown(
    hover: Hover,
    config: FmtConfig,
    sources: Sources,
    formatted: Option<Seq<char>>,
) -> Seq<Marked> {
    let lines = text::texts(sources.def_file@);
    let url = racer::text_of(hover.doc_url);
    match route_of(hover) {
        Route::Value => seq![model::rust_code(text::trimmed(hover.def->0.value@))],
        Route::LocalUsage => local_usage_shown(lines, hover.def->0),
        Route::FieldOrVariant | Route::Module => value_and_docs_shown(lines, hover.def->0, url),
        Route::Object => object_tooltip_shown(lines, hover.def->0, url, formatted),
        Route::FunctionOrMethod => method_tooltip_shown(
            config,
            lines,
            hover.def->0,
            url,
            formatted,
        ),
        Route::Completions => completions_shown(
            hover,
            racer::racer_found(
                config,
                hover_line(hover, sources),
                hover.span,
                None,
                sources.matches@,
                formatted,
            ),
        ),
        Route::Nothing => Seq::empty(),
    }
}

/// The tooltip shows documentation from the source of a definition.
pub open spec fn shows_docs(hover: Hover) -> bool {
    match route_of(hover) {
        Route::FieldOrVariant | Route::Object | Route::FunctionOrMethod | Route::Module => true,
        _ => false,
    }
}

/// What to ask the formatter before [`tooltip`], if anything.
pub fn tooltip_request(hover: &Hover, sources: &Sources) -> (r: Option<String>)
    requires
        sources.def_file@.len() <= u32::MAX,
    ensures
        racer::text_of(r) == item_asked(*hover, *sources),
{
    match (route(hover), &hover.def) {
        (Route::Object, Some(def)) => Some(
            display::object_request(object_declaration(&sources.def_file, def).as_str()),
        ),
        (Route::FunctionOrMethod, Some(def)) => Some(
            display::method_request(method_declaration(&sources.def_file, def).as_str()),
        ),
        (Route::Completions, _) => racer::racer_request(
            line_of(hover, sources),
            &hover.span,
            None,
            &sources.matches,
        ),
        _ => None,
    }
}

/// Builds a hover tooltip composed of the function signature or type declaration, doc URL (if
/// available), source extracted documentation, and code context for local variables. It takes what
/// the formatter makes of the item that it is asked about.
pub fn tooltip(
    hover: &Hover,
    config: &FmtConfig,
    sources: &Sources,
    formatted: Option<Vec<u8>>,
) -> (r: Vec<MarkedString>)
    requires
        config.tab_spaces < usize::MAX,
        sources.def_file@.len() <= u32::MAX,
        shows_docs(*hover) ==> docs_found(text::texts(sources.def_file@), hover.def->0),
    ensures
        model::entries(r@) == tooltip_shown(
            *hover,
            *config,
            *sources,
            display::reply_text(display::reply_bytes(formatted)),
        ),
{
    let file = &sources.def_file;
    let mut contents: Vec<MarkedString> = Vec::new();
    match (route(hover), &hover.def) {
        (Route::Value, Some(def)) => {
            contents.push(code_entry(text::trim(def.value.as_str())));
        },
        (Route::LocalUsage, Some(def)) => {
            contents = tooltip_local_variable_usage(file, def);
        },
        (Route::FieldOrVariant, Some(def)) => {
            contents = tooltip_field_or_variant(file, def, hover.doc_url.clone());
        },
        (Route::Object, Some(def)) => {
            contents =
            tooltip_struct_enum_union_trait(file, def, hover.doc_url.clone(), formatted);
        },
        (Route::FunctionOrMethod, Some(def)) => {
            contents = tooltip_function_method(config, file, def, hover.doc_url.clone(), formatted);
        },
        (Route::Module, Some(def)) => {
            contents = tooltip_mod(file, def, hover.doc_url.clone());
        },
        (Route::Completions, _) => {
            let found = racer::racer(
                config,
                line_of(hover, sources),
                &hover.span,
                None,
                &sources.matches,
                formatted,
            );
            contents = tooltip_completions(hover, found);
        },
        _ => {},
    }
    assert(model::entries(contents@) =~= tooltip_shown(
        *hover,
        *config,
        *sources,
        display::reply_text(display::reply_bytes(formatted)),
    ));
    contents
}

} // verus!
