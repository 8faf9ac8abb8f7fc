use hover::display::FmtConfig;
use hover::model::{Def, DefKind, MarkedString, Range, Span};
use hover::racer::{racer, racer_coord, racer_request, MatchType, RacerMatch};
use hover::sample::{bar, drop_boxed, drop_foo, foo, multiple_lines, named_foo, Bar, Baz, Thing};
use hover::tooltip::{route, tooltip, tooltip_request, Hover, Route, Sources};

fn span(file: u64, row: u32, col_start: u32, col_end: u32) -> Span {
    Span { file, range: Range { row_start: row, row_end: row, col_start, col_end } }
}

fn def(kind: DefKind, span: Span, name: &str, qualname: &str, value: &str, docs: &str) -> Def {
    Def {
        kind,
        span,
        name: name.to_string(),
        qualname: qualname.to_string(),
        value: value.to_string(),
        docs: docs.to_string(),
    }
}

fn hover_on(span: Span, def: Option<Def>, doc_url: Option<&str>) -> Hover {
    Hover {
        span,
        ty: Some("Type".to_string()),
        def,
        docs: Some("known docs".to_string()),
        doc_url: doc_url.map(|url| url.to_string()),
    }
}

fn lines(text: &str) -> Vec<String> {
    text.lines().map(|line| line.to_string()).collect()
}

fn sources(def_file: &str, hover_file: &str, matches: Vec<RacerMatch>) -> Sources {
    Sources { def_file: lines(def_file), hover_file: lines(hover_file), matches }
}

fn found(matchstr: &str, contextstr: &str, mtype: MatchType, docs: &str) -> RacerMatch {
    RacerMatch {
        matchstr: matchstr.to_string(),
        contextstr: contextstr.to_string(),
        mtype,
        docs: docs.to_string(),
    }
}

fn code(text: &str) -> MarkedString {
    MarkedString::from_language_code("rust".to_string(), text.to_string())
}

fn markdown(text: &str) -> MarkedString {
    MarkedString::from_markdown(text.to_string())
}

fn reply(text: &str) -> Option<Vec<u8>> {
    Some(text.as_bytes().to_vec())
}

const CONFIG: FmtConfig = FmtConfig { tab_spaces: 4 };

const FILE: &str = "use a;

/// A point
#[derive(Debug)]
pub struct Point(pub u32, f32);

/// Moves
pub fn shift(
    p: Point
) -> Point {
    let moved = match p {
    moved
}
";

#[test]
fn locals_show_their_type() {
    let at = span(0, 10, 8, 13);
    let elsewhere = span(0, 11, 4, 9);
    let sources = sources(FILE, FILE, Vec::new());
    for (hovered, qualname) in [(at, "f::$moved"), (at, "moved"), (elsewhere, "moved")] {
        let hover = hover_on(hovered, Some(def(DefKind::Local, at, "moved", qualname, " Point ", "")), Some("url"));
        assert_eq!(route(&hover), Route::Value);
        assert_eq!(tooltip_request(&hover, &sources), None);
        assert_eq!(tooltip(&hover, &CONFIG, &sources, None), vec![code("Point")]);
    }
}

#[test]
fn the_use_of_a_local_shows_where_it_comes_from() {
    let mut used = def(DefKind::Local, span(0, 10, 8, 13), "moved", "f::$moved", " Point ", "");
    used.span.file = 3;
    let hover = hover_on(span(0, 10, 8, 13), Some(used), None);
    assert_eq!(route(&hover), Route::LocalUsage);
    let known = sources(FILE, FILE, Vec::new());
    assert_eq!(
        tooltip(&hover, &CONFIG, &known, None),
        vec![code("Point"), code("let moved = match p { ... }")]
    );
    let unreadable = sources("", FILE, Vec::new());
    assert_eq!(tooltip(&hover, &CONFIG, &unreadable, None), vec![code("Point")]);
}

#[test]
fn fields_variants_and_modules_show_value_and_docs() {
    for (kind, expected) in [
        (DefKind::Field, Route::FieldOrVariant),
        (DefKind::TupleVariant, Route::FieldOrVariant),
        (DefKind::StructVariant, Route::FieldOrVariant),
        (DefKind::Mod, Route::Module),
    ] {
        let hover = hover_on(span(1, 0, 0, 1), Some(def(kind, span(0, 4, 0, 1), "x", "x", " u32 ", " other ")), Some("url"));
        assert_eq!(route(&hover), expected);
        let with_docs = sources(FILE, "", Vec::new());
        assert_eq!(tooltip_request(&hover, &with_docs), None);
        assert_eq!(
            tooltip(&hover, &CONFIG, &with_docs, None),
            vec![code("u32"), markdown("url"), markdown("A point")]
        );
        let without_docs = sources("a\nb\nc\nd\ne", "", Vec::new());
        assert_eq!(
            tooltip(&hover, &CONFIG, &without_docs, None),
            vec![code("u32"), markdown("url"), markdown("other")]
        );
    }
}

#[test]
fn objects_show_declaration_url_and_docs() {
    let hover = hover_on(
        span(1, 0, 0, 1),
        Some(def(DefKind::Struct, span(0, 4, 0, 1), "Point", "Point", "", "")),
        Some("url"),
    );
    assert_eq!(route(&hover), Route::Object);
    let sources = sources(FILE, "", Vec::new());
    assert_eq!(tooltip_request(&hover, &sources), Some("pub struct Point(pub u32, f32);".to_string()));
    assert_eq!(
        tooltip(&hover, &CONFIG, &sources, reply("pub struct Point(pub u32, f32);\n")),
        vec![code("pub struct Point(pub u32, _)"), markdown("url"), markdown("A point")]
    );
}

#[test]
fn objects_are_named_where_their_source_does_not_show_them() {
    let file = "a\nb\nc\nd\ne";
    for (kind, expected) in [
        (DefKind::Struct, "struct Name{}"),
        (DefKind::Enum, "enum Name{}"),
        (DefKind::Union, "union Name{}"),
        (DefKind::Trait, "trait Value{}"),
    ] {
        let hover = hover_on(span(1, 0, 0, 1), Some(def(kind, span(0, 4, 0, 1), "Name", "", "Value", "")), None);
        let sources = sources(file, "", Vec::new());
        assert_eq!(tooltip_request(&hover, &sources), Some(expected.to_string()));
        assert_eq!(tooltip(&hover, &CONFIG, &sources, None), vec![code(expected.trim_end_matches("{}"))]);
    }
}

#[test]
fn functions_show_signature_and_docs() {
    let hover = hover_on(
        span(1, 0, 0, 1),
        Some(def(DefKind::Function, span(0, 7, 0, 1), "shift", "shift", "", "")),
        None,
    );
    assert_eq!(route(&hover), Route::FunctionOrMethod);
    let sources = sources(FILE, "", Vec::new());
    assert_eq!(
        tooltip_request(&hover, &sources),
        Some("impl Dummy { pub fn shift(\np: Point\n) -> Point { unimplmented!() } }".to_string())
    );
    assert_eq!(
        tooltip(
            &hover,
            &CONFIG,
            &sources,
            reply("impl Dummy {\n    pub fn shift(p: Point) -> Point {\n        unimplmented!()\n    }\n}\n")
        ),
        vec![code("pub fn shift(p: Point) -> Point"), markdown("Moves")]
    );
}

#[test]
fn functions_are_named_where_their_source_does_not_show_them() {
    let value = " fn <T> (&self, f: fn (u8) ->(u8)) ->(T) ";
    let hover = hover_on(span(1, 0, 0, 1), Some(def(DefKind::Method, span(0, 4, 0, 1), "name", "", value, " doc ")), None);
    let sources = sources("a\nb\nc\nd\ne", "", Vec::new());
    assert_eq!(
        tooltip_request(&hover, &sources),
        Some("impl Dummy { fn name<T>(&self, f: fn (u8) -> (u8)) -> (T) { unimplmented!() } }".to_string())
    );
    assert_eq!(
        tooltip(&hover, &CONFIG, &sources, None),
        vec![code("fn name<T>(&self, f: fn (u8) -> (u8)) -> (T)"), markdown("doc")]
    );
}

#[test]
fn other_kinds_show_nothing() {
    for kind in [
        DefKind::Tuple,
        DefKind::Macro,
        DefKind::Type,
        DefKind::ForeignFunction,
        DefKind::ForeignStatic,
        DefKind::ExternType,
    ] {
        let hover = hover_on(span(0, 0, 0, 1), Some(def(kind, span(0, 0, 0, 1), "x", "$", "v", "d")), Some("url"));
        assert_eq!(route(&hover), Route::Nothing);
        assert_eq!(tooltip(&hover, &CONFIG, &sources("", "", Vec::new()), None), Vec::new());
    }
}

#[test]
fn completions_tell_of_constants_and_of_what_is_not_defined() {
    let constant = def(DefKind::Const, span(0, 0, 0, 1), "LIMIT", "", "", "");
    for definition in [None, Some(constant)] {
        let hover = hover_on(span(0, 1, 4, 9), definition, Some("url"));
        assert_eq!(route(&hover), Route::Completions);
        let all = vec![
            found("other", "const other", MatchType::Other, "no"),
            found("LIMIT", "LIMIT", MatchType::Other, "no"),
            found("LIMIT", "const LIMIT: u8 {{", MatchType::Other, "```\n# a\nb\n```"),
            found("LIMIT", "const LIMIT: u16", MatchType::Other, "no"),
        ];
        let known = sources("", "\n    LIMIT", all);
        assert_eq!(tooltip_request(&hover, &known), None);
        assert_eq!(
            tooltip(&hover, &CONFIG, &known, None),
            vec![code("const LIMIT: u8"), markdown("```rust\nb\n```")]
        );
    }
}

#[test]
fn what_completions_do_not_tell_is_taken_from_the_hover() {
    let hover = hover_on(span(0, 0, 0, 3), None, None);
    let known = sources("", "abc", vec![found("abc", "mod abc", MatchType::Module, "\n ")]);
    assert_eq!(tooltip(&hover, &CONFIG, &known, None), vec![code("Type"), markdown("known docs")]);
    let unknown = Hover { span: hover.span, ty: None, def: None, docs: None, doc_url: None };
    assert_eq!(tooltip(&unknown, &CONFIG, &known, None), Vec::new());
    let nothing = sources("", "abc", Vec::new());
    assert_eq!(tooltip(&hover, &CONFIG, &nothing, None), Vec::new());
    let past_the_line = sources("", "ab", vec![found("abc", "mod abc", MatchType::Module, "")]);
    assert_eq!(tooltip(&hover, &CONFIG, &past_the_line, None), Vec::new());
}

#[test]
fn completions_are_formatted_by_what_they_stand_for() {
    let at = span(0, 0, 0, 3);
    let method = vec![found("abc", "fn abc(&self) {", MatchType::Function, "docs")];
    assert_eq!(
        racer_request(Some("abc"), &at, None, &method),
        Some("impl Dummy { fn abc(&self) { unimplmented!() } }".to_string())
    );
    assert_eq!(
        racer(&CONFIG, Some("abc"), &at, None, &method, reply("impl Dummy {\n    fn abc(&self) {\n    }\n}")),
        Some(("docs".to_string(), Some("fn abc(&self)".to_string())))
    );
    assert_eq!(
        racer(&CONFIG, Some("abc"), &at, None, &method, reply("{{")),
        Some(("docs".to_string(), None))
    );
    for mtype in [MatchType::Trait, MatchType::Enum, MatchType::Struct] {
        let object = vec![found("abc", "pub struct abc(u8);", mtype, "docs")];
        assert_eq!(
            racer_request(Some("abc"), &at, None, &object),
            Some("pub struct abc(u8);".to_string())
        );
        assert_eq!(
            racer(&CONFIG, Some("abc"), &at, None, &object, reply("pub struct abc(u8);\n")),
            Some(("docs".to_string(), Some("pub struct abc(_)".to_string())))
        );
        assert_eq!(
            racer(&CONFIG, Some("abc"), &at, None, &object, None),
            Some(("docs".to_string(), Some("pub struct abc(u8);".to_string())))
        );
    }
}

#[test]
fn a_definition_names_the_completion() {
    let at = span(0, 0, 0, 3);
    let all = vec![found("abc", "mod abc", MatchType::Module, "1"), found("xyz", "mod xyz", MatchType::Module, "2")];
    let named = def(DefKind::Static, at, "xyz", "", "", "");
    assert_eq!(racer(&CONFIG, Some("abc"), &at, Some(&named), &all, None), Some(("2".to_string(), None)));
    assert_eq!(racer(&CONFIG, None, &at, Some(&named), &all, None), Some(("2".to_string(), None)));
    assert_eq!(racer(&CONFIG, None, &at, None, &all, None), None);
    assert_eq!(racer(&CONFIG, Some("abc"), &at, None, &all, None), Some(("1".to_string(), None)));
}

#[test]
fn completions_are_searched_for_at_the_end_of_the_span() {
    let at = Span { file: 0, range: Range { row_start: 2, row_end: 4, col_start: 1, col_end: 9 } };
    assert_eq!(racer_coord(&at), (5, 9));
}

#[test]
fn samples() {
    let sample = foo();
    assert_eq!(sample.t, 1);
    assert_eq!(sample.make_copy().t, 1);
    assert_eq!(bar(), Bar::Baz);
    let named = named_foo("string".to_string(), foo());
    assert_eq!(named.len(), 1);
    assert_eq!(named[0].0, "string");
    assert_eq!(named[0].1.t, 1);
    drop_foo(sample);
    drop_boxed(Box::new(named));
    multiple_lines("s".to_string(), 1);
    assert_eq!(Thing::default().thing, "");
}
