use hover::docs::process_docs;
use hover::text;

#[test]
fn test_process_docs_rust_blocks() {
    let docs = "
Brief one liner.

Lorem ipsum dolor sit amet, consectetur adipiscing elit. Phasellus vitae ex
vel mi egestas semper in non dolor. Proin ut arcu at odio hendrerit consequat.

# Examples

Donec ullamcorper risus quis massa sollicitudin, id faucibus nibh bibendum.

## Hidden code lines and proceeding whitespace is removed and meta attributes are preserved

```
# extern crate foo;

use foo::bar;

#[derive(Debug)]
struct Baz(u32);

let baz = Baz(1);
```

## Rust code block attributes are converted to 'rust'

```compile_fail,E0123
let foo = ;
```

## Inner comments and indentation is preserved

```
/// inner doc comment
fn foobar() {
    // inner comment
    let indent = 1;
}
```
    ".trim();

    let expected = "
Brief one liner.

Lorem ipsum dolor sit amet, consectetur adipiscing elit. Phasellus vitae ex
vel mi egestas semper in non dolor. Proin ut arcu at odio hendrerit consequat.

# Examples

Donec ullamcorper risus quis massa sollicitudin, id faucibus nibh bibendum.

## Hidden code lines and proceeding whitespace is removed and meta attributes are preserved

```rust
use foo::bar;

#[derive(Debug)]
struct Baz(u32);

let baz = Baz(1);
```

## Rust code block attributes are converted to 'rust'

```rust
let foo = ;
```

## Inner comments and indentation is preserved

```rust
/// inner doc comment
fn foobar() {
    // inner comment
    let indent = 1;
}
```
    ".trim();

    let actual = process_docs(docs);
    assert_eq!(expected, actual);
}

#[test]
fn test_process_docs_bash_block() {
    let expected = "
Brief one liner.

```bash
# non rust-block comment lines are preserved
ls -la
```
    ".trim();

    let actual = process_docs(expected);
    assert_eq!(expected, actual);
}

#[test]
fn test_process_docs_racer_noise() {
    let docs = "
////////////////////////////////////////////////////////////////////////////////

Spawns a new thread, returning a [`JoinHandle`] for it.

The join handle will implicitly *detach* the child thread upon being
dropped. In this case, the child thread may outlive the parent (unless
   ".trim();

    let expected = "
Spawns a new thread, returning a [`JoinHandle`] for it.

The join handle will implicitly *detach* the child thread upon being
dropped. In this case, the child thread may outlive the parent (unless
    ".trim();

    let actual = process_docs(docs);
    assert_eq!(expected, actual);
}

#[test]
fn cleaning_cleaned_docs_changes_nothing() {
    let docs = "Text\n////////\n\nMore\n```no_run\n# hidden\n\n#[test]\nfn f() {}\n```\n# Title";
    let once = process_docs(docs);
    assert_eq!(once, "Text\nMore\n```rust\n#[test]\nfn f() {}\n```\n# Title");
    assert_eq!(process_docs(&once), once);
}

#[test]
fn cleaning_again_drops_a_last_empty_line() {
    let once = process_docs("a\n\n");
    assert_eq!(once, "a\n");
    assert_eq!(process_docs(&once), "a");
}

#[test]
fn docs_without_rust_code_are_unchanged() {
    let docs = "# Title\n\n```text\n# kept\n   indented\n```\n\nend";
    assert_eq!(process_docs(docs), docs);
    assert_eq!(process_docs(""), "");
}

#[test]
fn every_mark_of_rust_code_opens_a_rust_block() {
    for mark in ["", "rust", "no_run", "ignore", "should_panic", "compile_fail"] {
        let docs = format!("```{}\n# hidden\nshown\n```", mark);
        assert_eq!(process_docs(&docs), "```rust\nshown\n```", "{}", mark);
    }
    assert_eq!(process_docs("```bash\n# shown\n```"), "```bash\n# shown\n```");
}

#[test]
fn blank_lines_after_what_is_left_out_go_too() {
    assert_eq!(process_docs("a\n////\n\n  \nb\n\nc"), "a\nb\n\nc");
    assert_eq!(process_docs("a\n ////\n\nb"), "a\n ////\n\nb");
}

#[test]
fn a_fence_closes_the_block_whatever_it_says() {
    assert_eq!(process_docs("```\na\n```rust\n# b\n```"), "```rust\na\n```rust\n# b\n```rust");
}

#[test]
fn line_endings() {
    assert_eq!(process_docs("a\r\nb\r\n"), "a\nb");
    assert_eq!(process_docs("a\rb\r"), "a\rb\r");
}

#[test]
fn white_space_is_that_of_the_standard_library() {
    for code in 0..0x11_0000u32 {
        if let Some(c) = char::from_u32(code) {
            assert_eq!(text::is_white_space(c), c.is_whitespace(), "{:x}", code);
        }
    }
}

#[test]
fn text_operations_are_those_of_the_standard_library() {
    let samples = [
        "", " ", "a", " a ", "\u{3000}\u{e9}\u{a0}", "fn (a) -> (b)", "a\r\nb\n\nc\r", "\n", "a,b,,c", "{{x}{",
        "->(->(> (> (", "aaa", "\u{1f600}{x}", "pub(crate) struct X;;", "`",
    ];
    let patterns = ["a", "aa", "> (", "->(", "{", "\u{e9}", "```"];
    for s in samples {
        assert_eq!(text::trim(s), s.trim());
        assert_eq!(text::trim_end(s), s.trim_end());
        assert_eq!(text::lines_of(s), s.lines().map(String::from).collect::<Vec<String>>());
        assert_eq!(text::split_on(s, ','), s.split(',').map(String::from).collect::<Vec<String>>());
        assert_eq!(text::trim_end_char(s, '{'), s.trim_end_matches('{'));
        assert_eq!(text::cut_last(s, '{'), s.rfind('{').map(|pos| &s[..pos]));
        assert_eq!(text::cut_first(s, '{'), s.find('{').map(|pos| &s[pos + 1..]));
        assert_eq!(text::join(&text::split_on(s, ','), ","), s);
        for from in 0..s.len() + 2 {
            for to in 0..s.len() + 2 {
                assert_eq!(text::get_bytes(s, from, to), s.get(from..to));
            }
        }
        for pat in patterns {
            assert_eq!(text::starts_with(s, pat), s.starts_with(pat));
            assert_eq!(text::ends_with(s, pat), s.ends_with(pat));
            assert_eq!(text::contains(s, pat), s.contains(pat));
            assert_eq!(text::same(s, pat), s == pat);
            assert_eq!(text::replace_all(s, pat, "<>"), s.replace(pat, "<>"));
            assert_eq!(text::replace_first(s, pat, "<>"), s.replacen(pat, "<>", 1));
        }
    }
    assert!(text::contains("abc", ""));
    assert_eq!(text::unindent("      x", 4), "  x");
    assert_eq!(text::unindent("\tx ", 4), "x ");
    assert_eq!(text::unindent("  x", 0), "  x");
}

#[test]
fn nothing_carries_over_past_a_closed_block() {
    let block = "```rust\nlet a;\n# let b;\n```";
    let rest = "\n# Title\n```text\n# c\n```\n```\n# d\ne\n```";
    let whole = format!("{}\n{}", block, rest);
    assert_eq!(process_docs(&whole), format!("{}\n{}", process_docs(block), process_docs(rest)));
    assert_eq!(
        process_docs(&whole),
        "```rust\nlet a;\n```\n\n# Title\n```text\n# c\n```\n```rust\ne\n```"
    );
}

#[test]
fn code_keeps_its_indentation() {
    let docs = "```rust\n    let a = 1;\n\t// inner\n  #[inline]\n    # hidden\n\n    let b = 2;\n```";
    assert_eq!(
        process_docs(docs),
        "```rust\n    let a = 1;\n\t// inner\n  #[inline]\n    let b = 2;\n```"
    );
}
