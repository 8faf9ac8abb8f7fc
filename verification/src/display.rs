//! Showing declarations. A formatter of Rust code works on whole items, so a declaration is first
//! made into one; what the formatter makes of it is then cut back to the declaration.

use vstd::prelude::*;
use vstd::utf8::*;

use crate::text;

verus! {

/// What showing a declaration depends on in the configuration of the formatter.
#[derive(Debug, Clone, Copy, PartialEq, Eq, Structural)]
pub struct FmtConfig {
    /// The width of one level of indentation.
    pub tab_spaces: usize,
}

impl Default for FmtConfig {
    fn default() -> (r: Self)
        ensures
            r.tab_spaces == 4,
    {
        FmtConfig { tab_spaces: 4 }
    }
}

/// The text in the formatter's reply. There is none where the formatter failed, which is `None`, or
/// where its output is not UTF-8.
pub open spec fn reply_text(reply: Option<Seq<u8>>) -> Option<Seq<char>> {
    match reply {
        Some(bytes) => if valid_utf8(bytes) {
            Some(decode_utf8(bytes))
        } else {
            None
        },
        None => None,
    }
}

/// The bytes of a reply.
pub open spec fn reply_bytes(reply: Option<Vec<u8>>) -> Option<Seq<u8>> {
    match reply {
        Some(bytes) => Some(bytes@),
        None => None,
    }
}

/// The text in the formatter's reply.
fn read_reply(reply: Option<Vec<u8>>) -> (r: Option<String>)
    ensures
        match r {
            Some(text) => reply_text(reply_bytes(reply)) == Some(text@),
            None => reply_text(reply_bytes(reply)) is None,
        },
{
    match reply {
        Some(bytes) => text::decode(bytes),
        None => None,
    }
}

/// The item that stands for a struct, enum, union, or trait: it ends with a semicolon if it is a
/// tuple, and with a body otherwise.
pub open spec fn object_item(the_type: Seq<char>) -> Seq<char> {
    let code = text::trimmed(the_type);
    if ")"@.is_suffix_of(code) {
        code + ";"@
    } else if "}"@.is_suffix_of(code) || ";"@.is_suffix_of(code) {
        code
    } else {
        text::without_final(code, '{') + "{}"@
    }
}

/// The item to give to the formatter for a struct, enum, union, or trait.
pub fn object_request(the_type: &str) -> (r: String)
    ensures
        r@ == object_item(the_type@),
{
    let code = text::trim(the_type);
    if text::ends_with(code, ")") {
        code.to_owned().concat(";")
    } else if text::ends_with(code, "}") || text::ends_with(code, ";") {
        code.to_owned()
    } else {
        text::trim_end_char(code, '{').to_owned().concat("{}")
    }
}

/// How a component of a tuple is shown: one that is not public, in a type that is, is not.
pub open spec fn component_shown(public: bool, component: Seq<char>) -> Seq<char> {
    let code = text::trimmed(component);
    if public && !"pub"@.is_prefix_of(code) {
        "_"@
    } else {
        code
    }
}

/// What stands between the last opening parenthesis of a declaration, which `head` comes before,
/// and its last character.
pub open spec fn within(decl: Seq<char>, head: Seq<char>) -> Seq<char> {
    decl.subrange(head.len() as int + 1, decl.len() - 1)
}

/// How the components of a tuple are shown.
pub open spec fn components_shown(decl: Seq<char>, head: Seq<char>) -> Seq<Seq<char>> {
    text::pieces(within(decl, head), ',').map_values(
        |component: Seq<char>| component_shown("pub"@.is_prefix_of(decl), component),
    )
}

/// How a declaration that ended with a semicolon is shown: if it is a tuple, by its components.
pub open spec fn tuple_shown(decl: Seq<char>) -> Seq<char> {
    match text::before_last(decl, '(') {
        Some(head) => if ")"@.is_suffix_of(decl) {
            head + "("@ + text::joined(components_shown(decl, head), ", "@) + ")"@
        } else {
            decl
        },
        None => decl,
    }
}

/// The declaration in the formatted item: what stands before its body.
pub open spec fn before_body(item: Seq<char>) -> Seq<char> {
    match text::before_last(item, '{') {
        Some(head) => head,
        None => item,
    }
}

/// How the formatted item of a struct, enum, union, or trait is shown.
pub open spec fn object_item_shown(item: Seq<char>) -> Seq<char> {
    let decl = text::trimmed(before_body(item));
    if ";"@.is_suffix_of(decl) {
        text::trimmed(tuple_shown(text::without_final(decl, ';')))
    } else {
        decl
    }
}

/// How a struct, enum, union, or trait is shown. Where the formatter has no text to give, it is the
/// type itself.
pub open spec fn object_shown(the_type: Seq<char>, formatted: Option<Seq<char>>) -> Seq<char> {
    match formatted {
        Some(item) => object_item_shown(item),
        None => the_type,
    }
}

/// What stands before the last `c` is a head of the text, and a `c` comes right after it.
proof fn lemma_before_last_place(s: Seq<char>, c: char)
    ensures
        text::before_last(s, c) matches Some(head) ==> {
            &&& head.len() < s.len()
            &&& head == s.take(head.len() as int)
            &&& s[head.len() as int] == c
        },
    decreases s.len(),
{
    if s.len() > 0 && s.last() != c {
        lemma_before_last_place(s.drop_last(), c);
    }
}

/// How a declaration that ended with a semicolon is shown.
fn show_tuple(decl: &str) -> (r: String)
    ensures
        r@ == tuple_shown(decl@),
{
    if let Some(head) = text::cut_last(decl, '(') {
        if text::ends_with(decl, ")") {
            let n: usize = text::chars_of(decl).len();
            let start: usize = text::chars_of(head).len();
            proof {
                lemma_before_last_place(decl@, '(');
                reveal_strlit(")");
                assert(decl@.subrange(n - 1, n as int)[0] == ")"@[0]);
            }
            let components = text::split_on(decl.substring_char(start + 1, n - 1), ',');
            let public = text::starts_with(decl, "pub");
            let mut shown: Vec<String> = Vec::new();
            let count: usize = components.len();
            let mut k: usize = 0;
            while k < count
                invariant
                    count == components@.len(),
                    k <= count,
                    public == "pub"@.is_prefix_of(decl@),
                    text::texts(components@) == text::pieces(within(decl@, head@), ','),
                    text::texts(shown@) == components_shown(decl@, head@).take(k as int),
                decreases count - k,
            {
                let component = text::trim(components[k].as_str());
                let ghost before = text::texts(shown@);
                if public && !text::starts_with(component, "pub") {
                    shown.push("_".to_owned());
                } else {
                    shown.push(component.to_owned());
                }
                assert(components_shown(decl@, head@)[k as int] == component_shown(
                    public,
                    text::texts(components@)[k as int],
                ));
                assert(text::texts(shown@) == before.push(
                    components_shown(decl@, head@)[k as int],
                ));
                k = k + 1;
                assert(text::texts(shown@) =~= components_shown(decl@, head@).take(k as int));
            }
            assert(components_shown(decl@, head@).take(k as int) == components_shown(
                decl@,
                head@,
            ));
            return head.to_owned().concat("(").concat(
                text::join(&shown, ", ").as_str(),
            ).concat(")");
        }
    }
    decl.to_owned()
}

/// Shows a struct, enum, union, or trait, given what the formatter makes of its item. The type
/// itself is returned where the formatter fails.
pub fn format_object(the_type: &str, formatted: Option<Vec<u8>>) -> (r: String)
    ensures
        r@ == object_shown(the_type@, reply_text(reply_bytes(formatted))),
{
    match read_reply(formatted) {
        Some(item) => {
            let head = match text::cut_last(item.as_str(), '{') {
                Some(head) => head,
                None => item.as_str(),
            };
            let decl = text::trim(head);
            if text::ends_with(decl, ";") {
                text::trim(show_tuple(text::trim_end_char(decl, ';')).as_str()).to_owned()
            } else {
                decl.to_owned()
            }
        },
        None => the_type.to_owned(),
    }
}

/// A function or method without its closing semicolons.
pub open spec fn bare_method(the_type: Seq<char>) -> Seq<char> {
    text::without_final(text::trimmed(the_type), ';')
}

/// The item that stands for a function or method: an implementation that holds it with a body.
pub open spec fn method_item(the_type: Seq<char>) -> Seq<char> {
    "impl Dummy { "@ + bare_method(the_type) + " { unimplmented!() } }"@
}

/// The item to give to the formatter for a function or method.
pub fn method_request(the_type: &str) -> (r: String)
    ensures
        r@ == method_item(the_type@),
{
    let method = text::trim_end_char(text::trim(the_type), ';');
    "impl Dummy { ".to_owned().concat(method).concat(" { unimplmented!() } }")
}

/// The lines that are not blank, each moved left by up to one level of indentation, and each with
/// a line feed after it.
pub open spec fn outdented(lines: Seq<Seq<char>>, tab_spaces: nat) -> Seq<char>
    decreases lines.len(),
{
    if lines.len() == 0 {
        Seq::empty()
    } else {
        let before = outdented(lines.drop_last(), tab_spaces);
        if text::trimmed(lines.last()).len() == 0 {
            before
        } else {
            before + text::unindented(lines.last(), tab_spaces) + "\n"@
        }
    }
}

/// The formatted implementation from behind its opening brace on.
pub open spec fn impl_body(item: Seq<char>) -> Seq<char> {
    match text::after_first(item, '{') {
        Some(rest) => rest,
        None => item,
    }
}

/// How the formatted item of a function or method is shown.
pub open spec fn method_item_shown(tab_spaces: nat, item: Seq<char>) -> Seq<char> {
    text::trimmed(outdented(text::text_lines(before_body(impl_body(item))), tab_spaces))
}

/// How a function or method is shown. Where the formatter has no text to give, it is the type
/// itself.
pub open spec fn method_shown(
    tab_spaces: nat,
    the_type: Seq<char>,
    formatted: Option<Seq<char>>,
) -> Seq<char> {
    match formatted {
        Some(item) => method_item_shown(tab_spaces, item),
        None => the_type,
    }
}

/// Moves lines left by up to one level of indentation, without those that are blank.
fn outdent(lines: &Vec<String>, tab_spaces: usize) -> (r: String)
    ensures
        r@ == outdented(text::texts(lines@), tab_spaces as nat),
{
    let ghost all = text::texts(lines@);
    let mut out = String::new();
    let n: usize = lines.len();
    let mut k: usize = 0;
    while k < n
        invariant
            k <= n,
            n == lines@.len(),
            all == text::texts(lines@),
            out@ == outdented(all.take(k as int), tab_spaces as nat),
        decreases n - k,
    {
        assert(all.take(k + 1).drop_last() == all.take(k as int));
        let line = lines[k].as_str();
        if !text::trim(line).is_empty() {
            out.append(text::unindent(line, tab_spaces));
            out.append("\n");
        }
        k = k + 1;
    }
    assert(all.take(n as int) == all);
    out
}

/// Shows a function or method, given what the formatter makes of its item. The type itself is
/// returned where the formatter fails.
pub fn format_method(config: &FmtConfig, the_type: &str, formatted: Option<Vec<u8>>) -> (r: String)
    requires
        config.tab_spaces < usize::MAX,
    ensures
        r@ == method_shown(
            config.tab_spaces as nat,
            the_type@,
            reply_text(reply_bytes(formatted)),
        ),
{
    match read_reply(formatted) {
        Some(item) => {
            let body = match text::cut_first(item.as_str(), '{') {
                Some(rest) => rest,
                None => item.as_str(),
            };
            let signature = match text::cut_last(body, '{') {
                Some(head) => head,
                None => body,
            };
            let method = outdent(&text::lines_of(signature), config.tab_spaces);
            text::trim(method.as_str()).to_owned()
        },
        None => the_type.to_owned(),
    }
}

} // verus!
