//! What holds of declarations, however they are shown.

use vstd::prelude::*;
use vstd::utf8::*;

use crate::decl;
use crate::display;
use crate::text;
use crate::text_laws;

verus! {

/// A declaration depends on nothing but the rows from the one it begins in to the one it ends in.
pub proof fn law_decl_is_local(a: Seq<Seq<char>>, b: Seq<Seq<char>>, row: int)
    requires
        0 <= row,
        decl::decl_end_row(a, row) < a.len(),
        decl::decl_end_row(a, row) < b.len(),
        forall|i: int| row <= i <= decl::decl_end_row(a, row) ==> a[i] == b[i],
    ensures
        decl::extracted_decl(a, row) == decl::extracted_decl(b, row),
{
    lemma_decl_end_row_local(a, b, row);
    let end = decl::decl_end_row(a, row);
    assert(a.subrange(row, end + 1) =~= b.subrange(row, end + 1));
}

proof fn lemma_decl_end_row_bounds(lines: Seq<Seq<char>>, row: int)
    ensures
        row <= decl::decl_end_row(lines, row),
        decl::decl_end_row(lines, row) < lines.len() ==> decl::ends_decl(
            lines[decl::decl_end_row(lines, row)],
        ),
        forall|i: int|
            row <= i < decl::decl_end_row(lines, row) ==> !decl::ends_decl(#[trigger] lines[i]),
    decreases lines.len() - row,
{
    if row < lines.len() && !decl::ends_decl(lines[row]) {
        lemma_decl_end_row_bounds(lines, row + 1);
    }
}

proof fn lemma_decl_end_row_local(a: Seq<Seq<char>>, b: Seq<Seq<char>>, row: int)
    requires
        0 <= row,
        decl::decl_end_row(a, row) < a.len(),
        decl::decl_end_row(a, row) < b.len(),
        forall|i: int| row <= i <= decl::decl_end_row(a, row) ==> a[i] == b[i],
    ensures
        decl::decl_end_row(b, row) == decl::decl_end_row(a, row),
        row <= decl::decl_end_row(a, row),
    decreases a.len() - row,
{
    lemma_decl_end_row_bounds(a, row);
    if row < a.len() && !decl::ends_decl(a[row]) {
        lemma_decl_end_row_bounds(a, row + 1);
        lemma_decl_end_row_local(a, b, row + 1);
    }
}

/// There is a declaration exactly where some row from the first on has a brace that opens a body or
/// a semicolon; it ends in the first such row, and every row before that is in it whole.
pub proof fn law_decl_ends_first(lines: Seq<Seq<char>>, row: int)
    requires
        0 <= row,
    ensures
        decl::extracted_decl(lines, row) is Some <==> exists|i: int|
            row <= i < lines.len() && decl::ends_decl(#[trigger] lines[i]),
        decl::extracted_decl(lines, row) matches Some(found) ==> {
            &&& found.len() > 0
            &&& decl::ends_decl(lines[row + found.len() - 1])
            &&& forall|i: int|
                0 <= i < found.len() - 1 ==> !decl::ends_decl(lines[row + i]) && #[trigger] found[i]
                    == text::trimmed(lines[row + i])
        },
{
    lemma_decl_end_row_bounds(lines, row);
    let end = decl::decl_end_row(lines, row);
    if end >= lines.len() {
        assert forall|i: int| row <= i < lines.len() implies !decl::ends_decl(
            #[trigger] lines[i],
        ) by {}
    } else {
        assert(row <= end < lines.len() && decl::ends_decl(lines[end]));
        let found = decl::extracted_decl(lines, row)->0;
        assert forall|i: int| 0 <= i < found.len() - 1 implies !decl::ends_decl(lines[row + i])
            && #[trigger] found[i] == text::trimmed(lines[row + i]) by {
            let line = lines[row + i];
            decl::lemma_trimmed_contains(line, '{');
            decl::lemma_trimmed_contains(line, ';');
            decl::lemma_before_last_some(text::trimmed(line), '{');
            decl::lemma_before_last_some(text::trimmed(line), ';');
        }
    }
}

/// The item that stands for a struct, enum, union, or trait is closed: it ends with a semicolon or
/// with a body.
pub proof fn law_object_item_is_closed(the_type: Seq<char>)
    ensures
        ({
            let item = display::object_item(the_type);
            ";"@.is_suffix_of(item) || "}"@.is_suffix_of(item)
        }),
{
    reveal_strlit(";");
    reveal_strlit("}");
    reveal_strlit("{}");
    let code = text::trimmed(the_type);
    let item = display::object_item(the_type);
    if ")"@.is_suffix_of(code) {
        assert(item.subrange(item.len() - 1, item.len() as int) =~= ";"@);
    } else if !("}"@.is_suffix_of(code) || ";"@.is_suffix_of(code)) {
        assert(item.subrange(item.len() - 1, item.len() as int) =~= "}"@);
    }
}

/// A public tuple shows no component that is not public: each one it shows is public or `_`. It
/// shows as many as it has.
pub proof fn law_private_components_are_hidden(decl: Seq<char>, head: Seq<char>, i: int)
    requires
        "pub"@.is_prefix_of(decl),
        0 <= i < display::components_shown(decl, head).len(),
    ensures
        display::components_shown(decl, head).len() == text::pieces(
            display::within(decl, head),
            ',',
        ).len(),
        display::components_shown(decl, head)[i] == "_"@ || "pub"@.is_prefix_of(
            display::components_shown(decl, head)[i],
        ),
{
}

/// A tuple that is not public shows all its components.
pub proof fn law_private_tuples_show_all(decl: Seq<char>, head: Seq<char>, i: int)
    requires
        !"pub"@.is_prefix_of(decl),
        0 <= i < display::components_shown(decl, head).len(),
    ensures
        display::components_shown(decl, head)[i] == text::trimmed(
            text::pieces(display::within(decl, head), ',')[i],
        ),
{
}

/// Where the formatter fails, a struct, enum, union, or trait is shown as it is.
pub proof fn law_object_shown_on_failure(the_type: Seq<char>, reply: Option<Seq<u8>>)
    requires
        display::reply_text(reply) is None,
    ensures
        display::object_shown(the_type, display::reply_text(reply)) == the_type,
{
}

/// Where the formatter fails, a function or method is shown as it is.
pub proof fn law_method_shown_on_failure(
    tab_spaces: nat,
    the_type: Seq<char>,
    reply: Option<Seq<u8>>,
)
    requires
        display::reply_text(reply) is None,
    ensures
        display::method_shown(tab_spaces, the_type, display::reply_text(reply)) == the_type,
{
}

/// White space is around nothing that the formatter's reply shows.
pub proof fn law_shown_is_trimmed(tab_spaces: nat, the_type: Seq<char>, item: Seq<char>)
    ensures
        ({
            let object = display::object_shown(the_type, Some(item));
            text::trimmed(object) == object
        }),
        ({
            let method = display::method_shown(tab_spaces, the_type, Some(item));
            text::trimmed(method) == method
        }),
{
    let decl = text::trimmed(display::before_body(item));
    text_laws::law_trimmed_twice(display::before_body(item));
    text_laws::law_trimmed_twice(display::tuple_shown(text::without_final(decl, ';')));
    text_laws::law_trimmed_twice(
        display::outdented(
            text::text_lines(display::before_body(display::impl_body(item))),
            tab_spaces,
        ),
    );
}

/// White space around a function or method, and a semicolon that closes it, do not matter to the
/// formatter: the item it gets is the same.
pub proof fn law_method_item_is_bare(the_type: Seq<char>)
    ensures
        display::method_item(text::trimmed(the_type)) == display::method_item(the_type),
        display::method_item(text::trimmed(the_type) + ";"@) == display::method_item(the_type),
{
    reveal_strlit(";");
    let code = text::trimmed(the_type);
    let closed = code + ";"@;
    text_laws::law_trimmed_twice(the_type);
    text_laws::lemma_trimmed_ends(the_type);
    assert(closed.last() == ';');
    assert(closed[0] == if code.len() > 0 {
        code[0]
    } else {
        ';'
    });
    assert(text::trimmed(closed) == closed);
    assert(closed.drop_last() =~= code);
}

/// `head` is what stands in an item before its last `{`, or the whole item where it has none.
pub open spec fn heads(item: Seq<char>, head: Seq<char>) -> bool {
    ||| item == head && !item.contains('{')
    ||| exists|body: Seq<char>| !body.contains('{') && item == #[trigger] (head + seq!['{'] + body)
}

proof fn lemma_heads(item: Seq<char>, head: Seq<char>)
    requires
        heads(item, head),
    ensures
        display::before_body(item) == head,
{
    if item == head && !item.contains('{') {
        text_laws::law_before_last(Seq::empty(), item, '{');
    } else {
        let body = choose|body: Seq<char>|
            !body.contains('{') && item == #[trigger] (head + seq!['{'] + body);
        text_laws::law_before_last(head, body, '{');
    }
}

/// The reply of the formatter is the text that its bytes spell, if they spell one.
pub proof fn law_reply(s: Seq<char>, bytes: Seq<u8>)
    ensures
        display::reply_text(Some(encode_utf8(s))) == Some(s),
        !valid_utf8(bytes) ==> display::reply_text(Some(bytes)) is None,
        display::reply_text(None) is None,
{
    broadcast use encode_utf8_valid_utf8, encode_utf8_decode_utf8;

}

/// The formatter gets a tuple with a semicolon behind it, and what is closed already as it is, both
/// without the white space around it.
pub proof fn law_closed_object_item(the_type: Seq<char>)
    ensures
        ({
            let code = text::trimmed(the_type);
            &&& ")"@.is_suffix_of(code) ==> display::object_item(the_type) == code + ";"@
            &&& "}"@.is_suffix_of(code) || ";"@.is_suffix_of(code) ==> display::object_item(the_type)
                == code
        }),
{
    reveal_strlit(")");
    reveal_strlit("}");
    reveal_strlit(";");
    let code = text::trimmed(the_type);
    let n = code.len() as int;
    if n > 0 {
        let last = code.subrange(n - 1, n);
        assert(last[0] == code.last());
        assert(")"@.is_suffix_of(code) ==> last[0] == ')');
        assert("}"@.is_suffix_of(code) ==> last[0] == '}');
        assert(";"@.is_suffix_of(code) ==> last[0] == ';');
    }
}

/// The formatter gets any other type with an empty body behind it, in place of the braces that it
/// ends with.
pub proof fn law_open_object_item(the_type: Seq<char>, head: Seq<char>, braces: Seq<char>)
    requires
        text::trimmed(the_type) == head + braces,
        forall|i: int| 0 <= i < braces.len() ==> #[trigger] braces[i] == '{',
        head.len() > 0 ==> head.last() != '{',
        head.len() > 0 && braces.len() == 0 ==> head.last() != ')' && head.last() != '}' && head.last()
            != ';',
    ensures
        display::object_item(the_type) == head + "{}"@,
{
    reveal_strlit(")");
    reveal_strlit("}");
    reveal_strlit(";");
    let code = text::trimmed(the_type);
    let n = code.len() as int;
    text_laws::law_without_final(head, braces, '{');
    if n > 0 {
        let last = code.subrange(n - 1, n);
        assert(last[0] == code.last());
        if braces.len() > 0 {
            assert(code.last() == braces.last());
        } else {
            assert(code =~= head);
        }
        assert(")"@.is_suffix_of(code) ==> last[0] == ')');
        assert("}"@.is_suffix_of(code) ==> last[0] == '}');
        assert(";"@.is_suffix_of(code) ==> last[0] == ';');
    }
}

/// Of a formatted item that ends with a body, what stands before the body is shown.
pub proof fn law_object_before_body(the_type: Seq<char>, item: Seq<char>, head: Seq<char>)
    requires
        heads(item, head),
        text::trimmed(head).len() > 0 ==> text::trimmed(head).last() != ';',
    ensures
        display::object_shown(the_type, Some(item)) == text::trimmed(head),
{
    reveal_strlit(";");
    lemma_heads(item, head);
    let decl = text::trimmed(head);
    if ";"@.is_suffix_of(decl) {
        assert(decl.subrange(decl.len() - 1, decl.len() as int)[0] == ';');
    }
}

/// Of a formatted tuple, the components are shown without the semicolon behind them: all of them,
/// or only those that are public where the tuple is, and `_` for the others.
pub proof fn law_tuple_components(
    the_type: Seq<char>,
    item: Seq<char>,
    head: Seq<char>,
    name: Seq<char>,
    components: Seq<Seq<char>>,
    semicolons: Seq<char>,
)
    requires
        heads(item, head),
        text::trimmed(head) == name + "("@ + text::joined(components, ","@) + ")"@ + semicolons,
        components.len() > 0,
        forall|i: int|
            0 <= i < components.len() ==> !(#[trigger] components[i]).contains(',')
                && !components[i].contains('('),
        semicolons.len() > 0,
        forall|i: int| 0 <= i < semicolons.len() ==> #[trigger] semicolons[i] == ';',
    ensures
        ({
            let public = "pub"@.is_prefix_of(
                name + "("@ + text::joined(components, ","@) + ")"@,
            );
            let shown = Seq::new(
                components.len(),
                |i: int|
                    if public && !"pub"@.is_prefix_of(text::trimmed(components[i])) {
                        "_"@
                    } else {
                        text::trimmed(components[i])
                    },
            );
            display::object_shown(the_type, Some(item)) == name + "("@ + text::joined(shown, ", "@)
                + ")"@
        }),
{
    reveal_strlit(";");
    reveal_strlit("(");
    reveal_strlit(")");
    reveal_strlit(",");
    assert(","@ =~= seq![',']);
    lemma_heads(item, head);
    let inner = text::joined(components, ","@);
    let decl = name + "("@ + inner + ")"@;
    let closed = decl + semicolons;
    let public = "pub"@.is_prefix_of(decl);
    assert(closed.last() == ';');
    assert(closed.subrange(closed.len() - 1, closed.len() as int) =~= ";"@);
    assert(decl.last() == ')');
    assert(decl.subrange(decl.len() - 1, decl.len() as int) =~= ")"@);
    text_laws::law_without_final(decl, semicolons, ';');
    lemma_joined_free(components, ',', '(');
    let tail = inner + ")"@;
    if tail.contains('(') {
        let i = tail.index_of('(');
        assert(i < inner.len());
        assert(inner[i] == '(');
    }
    assert(decl =~= name + seq!['('] + tail);
    text_laws::law_before_last(name, tail, '(');
    assert(display::within(decl, name) =~= inner);
    text_laws::law_pieces_joined(components, ',');
    let shown = Seq::new(
        components.len(),
        |i: int|
            if public && !"pub"@.is_prefix_of(text::trimmed(components[i])) {
                "_"@
            } else {
                text::trimmed(components[i])
            },
    );
    assert(display::components_shown(decl, name) =~= shown);
    let result = name + "("@ + text::joined(shown, ", "@) + ")"@;
    assert(display::tuple_shown(decl) == result);
    text_laws::lemma_trimmed_ends(head);
    assert(closed[0] == decl[0]);
    assert(decl[0] == result[0]) by {
        if name.len() > 0 {
            assert(decl[0] == name[0]);
            assert(result[0] == name[0]);
        } else {
            assert(decl[0] == '(');
            assert(result[0] == '(');
        }
    }
    assert(result.last() == ')');
    text_laws::law_trimming(Seq::empty(), result, Seq::empty());
    assert(Seq::<char>::empty() + result + Seq::<char>::empty() =~= result);
}

proof fn lemma_joined_free(parts: Seq<Seq<char>>, sep: char, c: char)
    requires
        c != sep,
        forall|i: int| 0 <= i < parts.len() ==> !(#[trigger] parts[i]).contains(c),
    ensures
        !text::joined(parts, seq![sep]).contains(c),
    decreases parts.len(),
{
    let s = text::joined(parts, seq![sep]);
    if parts.len() == 1 {
        assert(!parts[0].contains(c));
    } else if parts.len() > 1 {
        let before = parts.drop_last();
        assert forall|i: int| 0 <= i < before.len() implies !(#[trigger] before[i]).contains(c) by {
            assert(parts[i] == before[i]);
        }
        lemma_joined_free(before, sep, c);
        let head = text::joined(before, seq![sep]);
        let last = parts[parts.len() - 1];
        assert(!last.contains(c));
        if s.contains(c) {
            let i = s.index_of(c);
            if i < head.len() {
                assert(head[i] == c);
            } else if i > head.len() {
                assert(last[i - head.len() - 1] == c);
            }
        }
    }
}

/// Of a formatted item that ends with semicolons and is no tuple, all is shown but the semicolons
/// and the white space before them.
pub proof fn law_object_before_semicolons(
    the_type: Seq<char>,
    item: Seq<char>,
    head: Seq<char>,
    decl: Seq<char>,
    semicolons: Seq<char>,
)
    requires
        heads(item, head),
        text::trimmed(head) == decl + semicolons,
        decl.len() > 0 ==> decl.last() != ';',
        !decl.contains('(') || decl.last() != ')',
        semicolons.len() > 0,
        forall|i: int| 0 <= i < semicolons.len() ==> #[trigger] semicolons[i] == ';',
    ensures
        display::object_shown(the_type, Some(item)) == text::trimmed(decl),
{
    reveal_strlit(";");
    reveal_strlit(")");
    lemma_heads(item, head);
    let closed = decl + semicolons;
    assert(closed.last() == ';');
    assert(closed.subrange(closed.len() - 1, closed.len() as int) =~= ";"@);
    text_laws::law_without_final(decl, semicolons, ';');
    decl::lemma_before_last_some(decl, '(');
    if ")"@.is_suffix_of(decl) {
        assert(decl.subrange(decl.len() - 1, decl.len() as int)[0] == ')');
    }
}

/// The formatter gets a function or method in an implementation and with a body, without the
/// semicolons behind it and the white space around it.
pub proof fn law_method_item(the_type: Seq<char>, code: Seq<char>, semicolons: Seq<char>)
    requires
        text::trimmed(the_type) == code + semicolons,
        code.len() > 0 ==> code.last() != ';',
        forall|i: int| 0 <= i < semicolons.len() ==> #[trigger] semicolons[i] == ';',
    ensures
        display::method_item(the_type) == "impl Dummy { "@ + code + " { unimplmented!() } }"@,
{
    text_laws::law_without_final(code, semicolons, ';');
}

/// Of a formatted implementation, what stands between its first `{` and its last is shown: its
/// lines, each moved left by up to one level, without those that are blank.
pub proof fn law_method_within_braces(
    tab_spaces: nat,
    the_type: Seq<char>,
    before: Seq<char>,
    signature: Seq<char>,
    after: Seq<char>,
)
    requires
        !before.contains('{'),
        !after.contains('{'),
    ensures
        display::method_shown(
            tab_spaces,
            the_type,
            Some(before + seq!['{'] + (signature + seq!['{'] + after)),
        ) == text::trimmed(display::outdented(text::text_lines(signature), tab_spaces)),
        display::method_shown(tab_spaces, the_type, Some(before + seq!['{'] + after))
            == text::trimmed(display::outdented(text::text_lines(after), tab_spaces)),
        display::method_shown(tab_spaces, the_type, Some(before)) == text::trimmed(
            display::outdented(text::text_lines(before), tab_spaces),
        ),
{
    text_laws::law_after_first(before, signature + seq!['{'] + after, '{');
    text_laws::law_after_first(before, after, '{');
    text_laws::law_before_last(signature, after, '{');
    text_laws::law_before_last(signature, before, '{');
}

/// Lines are moved left one by one: a blank one goes, and any other loses the white space that it
/// begins with, up to one level of it, and gets a line feed.
pub proof fn law_outdenting(
    one: Seq<Seq<char>>,
    other: Seq<Seq<char>>,
    indent: Seq<char>,
    code: Seq<char>,
    tab_spaces: nat,
)
    requires
        forall|i: int| 0 <= i < indent.len() ==> text::white_space(#[trigger] indent[i]),
        indent.len() <= tab_spaces,
        indent.len() < tab_spaces && code.len() > 0 ==> !text::white_space(code[0]),
    ensures
        display::outdented(one + other, tab_spaces) == display::outdented(one, tab_spaces)
            + display::outdented(other, tab_spaces),
        display::outdented(seq![indent + code], tab_spaces) == if text::trimmed(
            indent + code,
        ).len() == 0 {
            Seq::empty()
        } else {
            code + "\n"@
        },
    decreases other.len(),
{
    text_laws::law_unindenting(indent, code, tab_spaces);
    assert(seq![indent + code].drop_last() =~= Seq::<Seq<char>>::empty());
    assert(display::outdented(Seq::empty(), tab_spaces) == Seq::<char>::empty());
    assert(display::outdented(seq![indent + code], tab_spaces) =~= if text::trimmed(
        indent + code,
    ).len() == 0 {
        Seq::empty()
    } else {
        code + "\n"@
    });
    if other.len() > 0 {
        law_outdenting(one, other.drop_last(), indent, code, tab_spaces);
        assert((one + other).drop_last() =~= one + other.drop_last());
        assert((one + other).last() == other.last());
    } else {
        assert(one + other =~= one);
    }
    assert(display::outdented(one + other, tab_spaces) =~= display::outdented(one, tab_spaces)
        + display::outdented(other, tab_spaces));
}

} // verus!
