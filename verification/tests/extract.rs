use hover::decl::{extract_decleration, MissingRow};
use hover::docs::{cuts_docs_cleanly, extract_docs, has_doc_rows};

const SAMPLE: &str = r##"// Copyright 2017 The Rust Project Developers. See the COPYRIGHT
// file at the top-level directory of this distribution and at
// http://rust-lang.org/COPYRIGHT.
//
// Licensed under the Apache License, Version 2.0 <LICENSE-APACHE or
// http://www.apache.org/licenses/LICENSE-2.0> or the MIT license
// <LICENSE-MIT or http://opensource.org/licenses/MIT>, at your
// option. This file may not be copied, modified, or distributed
// except according to those terms.

//! Sample module
//! 
//! Lorem ipsum dolor sit amet, consectetur adipiscing elit. Maecenas
//! tincidunt tristique maximus. Sed venenatis urna vel sagittis tempus.
//! In hac habitasse platea dictumst.
//! 
//! # Examples
//! 
//! ```
//! # use sample;
//! 
//! let foo = sample::foo();
//! ```

use std::ops::Add;

/// Sample function
/// 
/// Ut molestie euismod mollis. In viverra tempor sollicitudin. In orci nisi,
/// ultricies in semper non, faucibus in nisl.
pub fn foo() -> Foo<u32> {
    Foo { t: 1 }
}

/// Sample struct
/// 
/// Proin finibus, risus ac egestas fermentum, enim diam bibendum magna,
/// vitae cursus dui odio a neque.
/// 
/// # Example
/// 
/// ```
/// let foo = Foo { t: 1 };
/// ```
#[derive(Debug)]
pub struct Foo<T> {
    /// The `t` field
    /// 
    /// Nulla tincidunt lobortis semper.
    pub t: T
}

/// Sample enum
/// 
/// Praesent at cursus ipsum, eu ornare dui. Nunc lobortis venenatis nulla eget
/// viverra. Nam tincidunt aliquam augue vitae consequat.
#[derive(Debug)]
pub enum Bar {
    /// The `Baz` variant
    /// 
    /// Aliquam erat volutpat.
    Baz
}


/// Sample newtype
/// 
/// Donec dictum eu arcu non commodo. Maecenas urna ligula, suscipit sed
/// ipsum tempus, auctor lobortis sapien.
#[derive(Debug)]
pub struct NewType(pub u32, f32);

impl NewType {
    /// Creates a `NewType`
    /// 
    /// # Examples
    /// 
    /// ```no_run
    /// let a = NewType::new();
    /// ```
    pub fn new() -> NewType {
        NewType(1, 2.0)
    }

    /// Bar method
    /// 
    /// Donec vestibulum ligula id vehicula luctus.
    pub fn bar<T: Copy + Add>(&self, the_really_long_name_string: String, the_really_long_name_foo: Foo<T>) -> Vec<(String, Foo<T>)> {
        let f = Foo { t: the_really_long_name_foo.t };
        let v = vec![(the_really_long_name_string, f)];
        v
    }
}

/// Sample trait
/// 
/// Pellentesque nisi neque, vehicula nec sapien lobortis, fermentum 
/// consequat lectus.
pub trait Baz<T> where T: Copy {
    /// Create a copy
    /// 
    /// Curabitur at est imperdiet, feugiat libero quis, viverra metus. 
    fn make_copy(&self) -> Self;
}

impl<T> Baz<T> for Foo<T> where T: Copy {
    fn make_copy(&self) -> Self {
        Foo { t: self.t }
    }
}


pub trait Qeh<T, U>
where T: Copy, 
U: Clone {
    
}

pub fn multiple_lines(
    s: String,
    i: i32
) {
    drop(s);
    drop(i);
}

pub fn bar() -> Bar {
    Bar::Baz
}"##;

fn lines(text: &str) -> Vec<String> {
    text.lines().map(|line| line.to_string()).collect()
}

#[test]
fn test_extract_docs_module() {
    let expected = "
Sample module

Lorem ipsum dolor sit amet, consectetur adipiscing elit. Maecenas
tincidunt tristique maximus. Sed venenatis urna vel sagittis tempus.
In hac habitasse platea dictumst.

# Examples

```rust
let foo = sample::foo();
```
    ".trim();

    let file = lines(SAMPLE);
    let row_start = 0;
    let actual = extract_docs(&file, row_start).expect("module docs");
    assert_eq!(expected, actual, "hover/sample.rs module docs");
}

#[test]
fn test_extract_docs() {
    let expected = "
The `Baz` variant

Aliquam erat volutpat.
    ".trim();

    let file = lines(SAMPLE);
    let row_start = 61;
    let actual = extract_docs(&file, row_start).expect("module docs");
    assert_eq!(expected, actual, "hover/sample.rs module docs");
}

#[test]
fn test_extract_decleration() {
    let file = lines(SAMPLE);

    let expected = "
pub trait Qeh<T, U>
where T: Copy,
U: Clone
    ".trim();
    let row_start = 112;
    let actual = extract_decleration(&file, row_start).expect("trait decleration").join("\n");
    assert_eq!(expected, actual);

    let expected = "
pub fn multiple_lines(
s: String,
i: i32
)
    ".trim();
    let row_start = 118;
    let actual = extract_decleration(&file, row_start).expect("function decleration").join("\n");
    assert_eq!(expected, actual);

    let expected = "fn make_copy(&self) -> Self";
    let row_start = 102;
    let actual = extract_decleration(&file, row_start).expect("method decleration").join("\n");
    assert_eq!(expected, actual);

    let expected = "pub struct NewType(pub u32, f32)";
    let row_start = 70;
    let actual = extract_decleration(&file, row_start).expect("tuple decleration").join("\n");
    assert_eq!(expected, actual);

    let expected = "pub struct Foo<T>";
    let row_start = 45;
    let actual = extract_decleration(&file, row_start).expect("struct decleration").join("\n");
    assert_eq!(expected, actual);
}

#[test]
fn rows_at_and_below_the_item_do_not_matter() {
    let mut file = lines("x\n\n/// A\n#[test]\n// no\n/// B\nfn f() {}\n/// C");
    assert_eq!(extract_docs(&file, 6), Some("A\nB".to_string()));
    file[6] = "/// not this".to_string();
    file[7] = String::new();
    assert_eq!(extract_docs(&file, 6), Some("A\nB".to_string()));
    file[0] = "/// but this".to_string();
    assert_eq!(extract_docs(&file, 6), Some("but this\nA\nB".to_string()));
    file[1] = "let x;".to_string();
    assert_eq!(extract_docs(&file, 6), Some("A\nB".to_string()));
}

#[test]
fn docs_stop_at_code() {
    let file = lines("fn a() {}\n/// A\nlet x;\n/// B\nfn b() {}");
    assert_eq!(extract_docs(&file, 4), Some("B".to_string()));
    assert_eq!(extract_docs(&file, 2), Some("A".to_string()));
    assert_eq!(extract_docs(&file, 3), None);
    assert_eq!(extract_docs(&file, 0), None);
}

#[test]
fn the_first_row_documents_the_file_and_an_item() {
    let file = lines("/// A\nfn a() {}");
    assert_eq!(extract_docs(&file, 1), Some("A".to_string()));
    assert_eq!(extract_docs(&file, 0), Some("A".to_string()));
    let file = lines("/// Doc\n/// more\n\nfn f() {}");
    assert_eq!(extract_docs(&file, 3), Some("Doc\nmore".to_string()));
}

#[test]
fn comment_headers_end_docs() {
    let file = lines("fn a() {}\n/// Old\n////////\n/// New\nfn b() {}");
    assert_eq!(extract_docs(&file, 4), Some("New".to_string()));
    assert_eq!(extract_docs(&file, 3), None);
    assert_eq!(extract_docs(&file, 2), Some("Old".to_string()));
    let file = lines("//! File\n  //// Header\n//! no more\nfn a() {}");
    assert_eq!(extract_docs(&file, 0), Some("File".to_string()));
    assert_eq!(extract_docs(&file, 3), Some("no more".to_string()));
    assert!(has_doc_rows(&lines("// a\n////"), 0));
    assert!(cuts_docs_cleanly(&lines("////\u{a0}a\n/// b\nx"), 2));
}

#[test]
fn only_one_white_space_goes_with_the_marker() {
    let file = lines("\n///  two\n///none\n//!\tinner\n///\nx");
    assert_eq!(extract_docs(&file, 5), Some(" two\nnone\ninner".to_string()));
}

#[test]
fn blank_docs_are_none() {
    assert_eq!(extract_docs(&lines("\n///\n///  \nx"), 3), None);
}

#[test]
fn which_rows_a_scan_asks_for() {
    let comments = lines("//! a\n// b");
    assert!(!has_doc_rows(&comments, 0));
    assert!(has_doc_rows(&comments, 2));
    assert!(!has_doc_rows(&comments, 3));
    assert!(has_doc_rows(&lines("//! a\nx"), 0));
    assert!(!has_doc_rows(&Vec::new(), 0));
}

#[test]
fn wide_white_space_behind_a_marker_is_no_place_to_cut() {
    assert!(!cuts_docs_cleanly(&lines("\n///\u{a0}a\nx"), 2));
    assert!(cuts_docs_cleanly(&lines("\n/// \u{a0}a\nx"), 2));
    assert!(!cuts_docs_cleanly(&lines("///\u{a0}a\n/// b\nx"), 2));
    assert!(cuts_docs_cleanly(&lines("///\u{a0}a\nlet y;\n/// b\nx"), 3));
}

#[test]
fn a_declaration_that_does_not_end() {
    let file = lines("fn f(\n    a: u8");
    assert_eq!(extract_decleration(&file, 0), Err(MissingRow { row: 2 }));
    assert_eq!(extract_decleration(&file, 9), Err(MissingRow { row: 9 }));
}

#[test]
fn a_declaration_is_cut_at_the_last_brace_or_else_semicolon() {
    let file = lines("fn f() { if x {\nuse a; use b;\nstruct S; {");
    assert_eq!(extract_decleration(&file, 0), Ok(vec!["fn f() { if x".to_string()]));
    assert_eq!(extract_decleration(&file, 1), Ok(vec!["use a; use b".to_string()]));
    assert_eq!(extract_decleration(&file, 2), Ok(vec!["struct S;".to_string()]));
}
