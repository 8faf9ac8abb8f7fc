//! A small set of items to try hovers on.

use vstd::prelude::*;

verus! {

/// Sample struct
#[derive(Debug)]
pub struct Foo<T> {
    /// The `t` field
    pub t: T,
}

/// Sample enum
#[derive(Debug, Clone, Copy, PartialEq, Eq, Structural)]
pub enum Bar {
    /// The `Baz` variant
    Baz,
}

/// Sample function
pub fn foo() -> (r: Foo<u32>)
    ensures
        r.t == 1,
{
    Foo { t: 1 }
}

/// Sample trait
pub trait Baz<T>: Sized where T: Copy {
    /// Create a copy
    fn make_copy(&self) -> Self;
}

impl<T> Baz<T> for Foo<T> where T: Copy {
    fn make_copy(&self) -> (r: Self)
        ensures
            r == *self,
    {
        Foo { t: self.t }
    }
}

/// A trait without methods, declared over several lines.
pub trait Qeh<T, U> where T: Copy, U: Clone {

}

/// A function declared over several lines, which takes its arguments and leaves nothing of them.
pub fn multiple_lines(s: String, i: i32) {
    let _s = s;
    let _i: i32 = i;
}

/// The one `Bar`.
pub fn bar() -> (r: Bar)
    ensures
        r == Bar::Baz,
{
    Bar::Baz
}

/// A list of one named `Foo`.
pub fn named_foo<T: Copy>(name: String, foo: Foo<T>) -> (r: Vec<(String, Foo<T>)>)
    ensures
        r@ == seq![(name, foo)],
{
    let f = Foo { t: foo.t };
    vec![(name, f)]
}

/// A struct with a documented field.
pub struct Thing {
    /// A field
    pub thing: String,
}

impl Default for Thing {
    fn default() -> (r: Self)
        ensures
            r.thing@ == Seq::<char>::empty(),
    {
        Thing { thing: String::new() }
    }
}

/// Some function
///
/// Drops `foo` in place.
pub fn drop_foo<T>(foo: Foo<T>) {
    let _foo = foo;
    let _baz = Bar::Baz;
}

/// Drops the boxed result
pub fn drop_boxed<T>(boxed: Box<Vec<(String, Foo<T>)>>) {
    let _boxed = boxed;
}

} // verus!
