use hover::display::{format_method, format_object, method_request, object_request, FmtConfig};

fn reply(text: &str) -> Option<Vec<u8>> {
    Some(text.as_bytes().to_vec())
}

#[test]
fn test_format_object() {
    let input = "pub struct Box<T: ?Sized>(Unique<T>);";
    assert_eq!("pub struct Box<T: ?Sized>(Unique<T>);", object_request(input));
    let result = format_object(input, reply("pub struct Box<T: ?Sized>(Unique<T>);\n"));
    assert_eq!("pub struct Box<T: ?Sized>(_)", &result);

    let input = "pub struct Thing(pub u32);";
    assert_eq!("pub struct Thing(pub u32);", object_request(input));
    let result = format_object(input, reply("pub struct Thing(pub u32);\n"));
    assert_eq!("pub struct Thing(pub u32)", &result, "tuple struct with trailing ';' from racer");

    let input = "pub struct Thing(pub u32)";
    assert_eq!("pub struct Thing(pub u32);", object_request(input));
    let result = format_object(input, reply("pub struct Thing(pub u32);\n"));
    assert_eq!("pub struct Thing(pub u32)", &result, "pub tuple struct");

    let input = "pub struct Thing(pub u32, i32)";
    assert_eq!("pub struct Thing(pub u32, i32);", object_request(input));
    let result = format_object(input, reply("pub struct Thing(pub u32, i32);\n"));
    assert_eq!("pub struct Thing(pub u32, _)", &result, "non-pub components of pub tuples should be hidden");

    let input = "struct Thing(u32, i32)";
    assert_eq!("struct Thing(u32, i32);", object_request(input));
    let result = format_object(input, reply("struct Thing(u32, i32);\n"));
    assert_eq!("struct Thing(u32, i32)", &result, "private tuple struct may show private components");

    let input = "pub struct Thing<T: Copy>";
    assert_eq!("pub struct Thing<T: Copy>{}", object_request(input));
    let result = format_object(input, reply("pub struct Thing<T: Copy> {}\n"));
    assert_eq!("pub struct Thing<T: Copy>", &result, "pub struct");

    let input = "pub struct Thing<T: Copy> {";
    assert_eq!("pub struct Thing<T: Copy> {}", object_request(input));
    let result = format_object(input, reply("pub struct Thing<T: Copy> {}\n"));
    assert_eq!("pub struct Thing<T: Copy>", &result, "pub struct with trailing '{{' from racer");

    let input = "pub struct Thing { x: i32 }";
    assert_eq!("pub struct Thing { x: i32 }", object_request(input));
    let result = format_object(input, reply("pub struct Thing {\n    x: i32,\n}\n"));
    assert_eq!("pub struct Thing", &result, "pub struct with body");

    let input = "pub enum Foobar { Foo, Bar }";
    assert_eq!("pub enum Foobar { Foo, Bar }", object_request(input));
    let result = format_object(input, reply("pub enum Foobar {\n    Foo,\n    Bar,\n}\n"));
    assert_eq!("pub enum Foobar", &result, "pub enum with body");

    let input = "pub trait Thing<T, U> where T: Copy + Sized, U: Clone";
    let expected = "
pub trait Thing<T, U>
where
    T: Copy + Sized,
    U: Clone,
    ".trim();
    assert_eq!("pub trait Thing<T, U> where T: Copy + Sized, U: Clone{}", object_request(input));
    let result = format_object(
        input,
        reply("pub trait Thing<T, U>\nwhere\n    T: Copy + Sized,\n    U: Clone,\n{\n}\n"),
    );
    assert_eq!(expected, &result, "trait with where clause");
}

#[test]
fn test_format_method() {
    let config = &FmtConfig::default();

    let input = "fn foo() -> ()";
    assert_eq!("impl Dummy { fn foo() -> () { unimplmented!() } }", method_request(input));
    let result = format_method(
        config,
        input,
        reply("impl Dummy {\n    fn foo() -> () {\n        unimplmented!()\n    }\n}\n"),
    );
    assert_eq!(input, &result, "function explicit void return");

    let input = "fn foo()";
    let expected = "fn foo()";
    assert_eq!("impl Dummy { fn foo() { unimplmented!() } }", method_request(input));
    let result = format_method(
        config,
        input,
        reply("impl Dummy {\n    fn foo() {\n        unimplmented!()\n    }\n}\n"),
    );
    assert_eq!(expected, &result, "function");

    let input = "fn foo() -> Thing";
    let expected = "fn foo() -> Thing";
    assert_eq!("impl Dummy { fn foo() -> Thing { unimplmented!() } }", method_request(input));
    let result = format_method(
        config,
        input,
        reply("impl Dummy {\n    fn foo() -> Thing {\n        unimplmented!()\n    }\n}\n"),
    );
    assert_eq!(expected, &result, "function with return");

    let input = "fn foo(&self);";
    let expected = "fn foo(&self)";
    assert_eq!("impl Dummy { fn foo(&self) { unimplmented!() } }", method_request(input));
    let result = format_method(
        config,
        input,
        reply("impl Dummy {\n    fn foo(&self) {\n        unimplmented!()\n    }\n}\n"),
    );
    assert_eq!(expected, &result, "method");

    let input = "fn foo<T>(t: T) where T: Copy";
    let expected = "
fn foo<T>(t: T)
where
    T: Copy,
    ".trim();
    assert_eq!("impl Dummy { fn foo<T>(t: T) where T: Copy { unimplmented!() } }", method_request(input));
    let result = format_method(
        config,
        input,
        reply(
            "impl Dummy {\n    fn foo<T>(t: T)\n    where\n        T: Copy,\n    {\n        unimplmented!()\n    }\n}\n",
        ),
    );
    assert_eq!(expected, &result, "function with generic parameters");

    let input = "fn foo<T>(&self, t: T) where T: Copy";
    let expected = "
fn foo<T>(&self, t: T)
where
    T: Copy,
    ".trim();
    assert_eq!(
        "impl Dummy { fn foo<T>(&self, t: T) where T: Copy { unimplmented!() } }",
        method_request(input)
    );
    let result = format_method(
        config,
        input,
        reply(
            "impl Dummy {\n    fn foo<T>(&self, t: T)\n    where\n        T: Copy,\n    {\n        unimplmented!()\n    }\n}\n",
        ),
    );
    assert_eq!(expected, &result, "method with type parameters");

    let input = "   fn foo<T>(
         &self, 
 t: T) 
      where 
T: Copy

";
    let expected = "
fn foo<T>(&self, t: T)
where
    T: Copy,
    ".trim();
    assert_eq!(
        "impl Dummy { fn foo<T>(\n         &self, \n t: T) \n      where \nT: Copy { unimplmented!() } }",
        method_request(input)
    );
    let result = format_method(
        config,
        input,
        reply(
            "impl Dummy {\n    fn foo<T>(&self, t: T)\n    where\n        T: Copy,\n    {\n        unimplmented!()\n    }\n}\n",
        ),
    );
    assert_eq!(expected, &result, "method with type parameters; corrected spacing");

    let input = "fn really_really_really_really_long_name<T>(foo_thing: String, bar_thing: Thing, baz_thing: Vec<T>, foo_other: u32, bar_other: i32) -> Thing";
    let expected = "
fn really_really_really_really_long_name<T>(
    foo_thing: String,
    bar_thing: Thing,
    baz_thing: Vec<T>,
    foo_other: u32,
    bar_other: i32,
) -> Thing
    ".trim();
    assert_eq!(format!("impl Dummy {{ {} {{ unimplmented!() }} }}", input), method_request(input));
    let result = format_method(
        config,
        input,
        reply(
            "impl Dummy {\n    fn really_really_really_really_long_name<T>(\n        foo_thing: String,\n        bar_thing: Thing,\n        baz_thing: Vec<T>,\n        foo_other: u32,\n        bar_other: i32,\n    ) -> Thing {\n        unimplmented!()\n    }\n}\n",
        ),
    );
    assert_eq!(expected, &result, "long function signature");

    let input = "fn really_really_really_really_long_name(&self, foo_thing: String, bar_thing: Thing, baz_thing: Vec<T>, foo_other: u32, bar_other: i32) -> Thing";
    let expected = "
fn really_really_really_really_long_name(
    &self,
    foo_thing: String,
    bar_thing: Thing,
    baz_thing: Vec<T>,
    foo_other: u32,
    bar_other: i32,
) -> Thing
    ".trim();
    assert_eq!(format!("impl Dummy {{ {} {{ unimplmented!() }} }}", input), method_request(input));
    let result = format_method(
        config,
        input,
        reply(
            "impl Dummy {\n    fn really_really_really_really_long_name(\n        &self,\n        foo_thing: String,\n        bar_thing: Thing,\n        baz_thing: Vec<T>,\n        foo_other: u32,\n        bar_other: i32,\n    ) -> Thing {\n        unimplmented!()\n    }\n}\n",
        ),
    );
    assert_eq!(expected, &result, "long method signature with unspecified generic");
}

#[test]
fn a_type_that_the_formatter_fails_on_is_shown_itself() {
    let config = FmtConfig::default();
    for failure in [None, Some(vec![0xff]), Some(vec![0xff, b'{'])] {
        for object in ["  struct A {  ", "pub struct A(u8, pub u8);", "struct A;", "x;", ""] {
            assert_eq!(format_object(object, failure.clone()), object);
        }
        for method in ["  fn f() ;;", "fn f()", "x;", ""] {
            assert_eq!(format_method(&config, method, failure.clone()), method);
        }
    }
}

#[test]
fn replies_are_read_as_utf8() {
    assert_eq!(format_object("x", Some(vec![0xc3, 0xa9, b' ', b'{'])), "\u{e9}");
}

#[test]
fn what_follows_the_last_brace_goes() {
    assert_eq!(format_object("x", reply("a { b { c")), "a { b");
    assert_eq!(format_object("x", reply("")), "");
    assert_eq!(format_object("x", reply("a(b, c")), "a(b, c");
    assert_eq!(format_object("x", reply("pub a(b);;")), "pub a(_)");
    assert_eq!(format_object("x", reply("pub a(b) c;")), "pub a(b) c");
    assert_eq!(format_object("x", reply("a();")), "a()");
    assert_eq!(format_object("x", reply("pub a();")), "pub a(_)");
    assert_eq!(format_object("x", reply("pub a((b, pub c), pub d);")), "pub a((_, pub c), pub d)");
}

#[test]
fn items_are_closed() {
    assert_eq!(object_request(" struct A {{ "), "struct A {}");
    assert_eq!(object_request("struct A;"), "struct A;");
    assert_eq!(object_request(""), "{}");
}

#[test]
fn white_space_and_semicolons_around_a_method_do_not_matter() {
    for method in ["fn f()", "  fn f()\n", "fn f();", " fn f();; "] {
        assert_eq!(method_request(method), "impl Dummy { fn f() { unimplmented!() } }");
    }
}

#[test]
fn lines_move_left_by_one_level_at_most() {
    let config = FmtConfig { tab_spaces: 2 };
    assert_eq!(
        format_method(&config, "x", reply("impl Dummy {\n\n  fn f(\n    a: u8,\n \n  ) {\n  }\n}\n")),
        "fn f(\n  a: u8,\n)"
    );
    assert_eq!(format_method(&config, "x", reply("no braces")), "no braces");
}
