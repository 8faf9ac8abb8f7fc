//! Plain text, as sequences of characters: what the standard string operations mean, and
//! verified functions that compute them.

use vstd::prelude::*;
use vstd::utf8::*;

verus! {

/// The characters with the Unicode property `White_Space`.
pub open spec fn white_space(c: char) -> bool {
    ||| '\u{9}' <= c <= '\u{d}'
    ||| c == ' '
    ||| c == '\u{85}'
    ||| c == '\u{a0}'
    ||| c == '\u{1680}'
    ||| '\u{2000}' <= c <= '\u{200a}'
    ||| c == '\u{2028}'
    ||| c == '\u{2029}'
    ||| c == '\u{202f}'
    ||| c == '\u{205f}'
    ||| c == '\u{3000}'
}

/// `s` without the white space that it begins with.
pub open spec fn trimmed_start(s: Seq<char>) -> Seq<char>
    decreases s.len(),
{
    if s.len() > 0 && white_space(s[0]) {
        trimmed_start(s.drop_first())
    } else {
        s
    }
}

/// `s` without the white space that it ends with.
pub open spec fn trimmed_end(s: Seq<char>) -> Seq<char>
    decreases s.len(),
{
    if s.len() > 0 && white_space(s.last()) {
        trimmed_end(s.drop_last())
    } else {
        s
    }
}

/// `s` without the white space at either end.
pub open spec fn trimmed(s: Seq<char>) -> Seq<char> {
    trimmed_end(trimmed_start(s))
}

/// `pat` stands in `s` at place `i`.
pub open spec fn occurs_at(s: Seq<char>, pat: Seq<char>, i: int) -> bool {
    &&& 0 <= i
    &&& i + pat.len() <= s.len()
    &&& s.subrange(i, i + pat.len()) == pat
}

/// `pat` stands somewhere in `s`.
pub open spec fn occurs_in(s: Seq<char>, pat: Seq<char>) -> bool {
    exists|i: int| occurs_at(s, pat, i)
}

/// `s` without the characters `c` that it ends with.
pub open spec fn without_final(s: Seq<char>, c: char) -> Seq<char>
    decreases s.len(),
{
    if s.len() > 0 && s.last() == c {
        without_final(s.drop_last(), c)
    } else {
        s
    }
}

/// `s` without its leading white space, of which at most `n` characters go.
pub open spec fn unindented(s: Seq<char>, n: nat) -> Seq<char>
    decreases n,
{
    if n > 0 && s.len() > 0 && white_space(s[0]) {
        unindented(s.drop_first(), (n - 1) as nat)
    } else {
        s
    }
}

/// What stands before the last `c` of `s`, if there is a `c`.
pub open spec fn before_last(s: Seq<char>, c: char) -> Option<Seq<char>>
    decreases s.len(),
{
    if s.len() == 0 {
        None
    } else if s.last() == c {
        Some(s.drop_last())
    } else {
        before_last(s.drop_last(), c)
    }
}

/// What stands after the first `c` of `s`, if there is a `c`.
pub open spec fn after_first(s: Seq<char>, c: char) -> Option<Seq<char>>
    decreases s.len(),
{
    if s.len() == 0 {
        None
    } else if s[0] == c {
        Some(s.drop_first())
    } else {
        after_first(s.drop_first(), c)
    }
}

/// The pieces of `s` between the characters `c`, of which there is one more than there are `c`s.
pub open spec fn pieces(s: Seq<char>, c: char) -> Seq<Seq<char>>
    decreases s.len(),
{
    if s.len() == 0 {
        seq![Seq::empty()]
    } else {
        let before = pieces(s.drop_last(), c);
        if s.last() == c {
            before.push(Seq::empty())
        } else {
            before.drop_last().push(before.last().push(s.last()))
        }
    }
}

/// `s` without the carriage return that it ends with, if it ends with one.
pub open spec fn without_return(s: Seq<char>) -> Seq<char> {
    if s.len() > 0 && s.last() == '\r' {
        s.drop_last()
    } else {
        s
    }
}

/// The lines of `s`. Each line ends at a line feed, which may have a carriage return before it;
/// a last line without a line feed counts unless it is empty.
pub open spec fn text_lines(s: Seq<char>) -> Seq<Seq<char>> {
    let all = pieces(s, '\n');
    let ended = all.drop_last().map_values(|l: Seq<char>| without_return(l));
    if all.last().len() == 0 {
        ended
    } else {
        ended.push(all.last())
    }
}

/// The parts one after the other, with `sep` between any two.
pub open spec fn joined(parts: Seq<Seq<char>>, sep: Seq<char>) -> Seq<char>
    decreases parts.len(),
{
    if parts.len() == 0 {
        Seq::empty()
    } else if parts.len() == 1 {
        parts[0]
    } else {
        joined(parts.drop_last(), sep) + sep + parts.last()
    }
}

/// `s` with `to` in place of each `from`, found from the left without overlap.
pub open spec fn replaced(s: Seq<char>, from: Seq<char>, to: Seq<char>) -> Seq<char>
    decreases s.len(),
{
    if from.len() == 0 || s.len() < from.len() {
        s
    } else if occurs_at(s, from, 0) {
        to + replaced(s.skip(from.len() as int), from, to)
    } else {
        seq![s[0]] + replaced(s.skip(1), from, to)
    }
}

/// `s` with `to` in place of the leftmost `from`, if there is one.
pub open spec fn replaced_first(s: Seq<char>, from: Seq<char>, to: Seq<char>) -> Seq<char>
    decreases s.len(),
{
    if s.len() < from.len() || s.len() == 0 {
        s
    } else if occurs_at(s, from, 0) {
        to + s.skip(from.len() as int)
    } else {
        seq![s[0]] + replaced_first(s.skip(1), from, to)
    }
}

/// What stands in `s` between the byte offsets `from` and `to` of its UTF-8 form, if they are in
/// order, lie within it and split no character.
pub open spec fn byte_range(s: Seq<char>, from: int, to: int) -> Option<Seq<char>> {
    let bytes = encode_utf8(s);
    if from <= to && is_char_boundary(bytes, from) && is_char_boundary(bytes, to) {
        Some(decode_utf8(bytes.subrange(from, to)))
    } else {
        None
    }
}

/// What the strings of a sequence hold.
pub open spec fn texts(v: Seq<String>) -> Seq<Seq<char>> {
    v.map_values(|s: String| s@)
}

/// Whether a character is white space.
pub fn is_white_space(c: char) -> (r: bool)
    ensures
        r == white_space(c),
{
    ('\u{9}' <= c && c <= '\u{d}') || c == ' ' || c == '\u{85}' || c == '\u{a0}' || c == '\u{1680}'
        || ('\u{2000}' <= c && c <= '\u{200a}') || c == '\u{2028}' || c == '\u{2029}' || c
        == '\u{202f}' || c == '\u{205f}' || c == '\u{3000}'
}

/// The characters of a string, in order.
pub fn chars_of(s: &str) -> (r: Vec<char>)
    ensures
        r@ == s@,
{
    let mut out: Vec<char> = Vec::new();
    for c in it: s.chars()
        invariant
            it.seq() == s@,
            out@ == s@.take(it.index() as int),
    {
        out.push(c);
    }
    out
}

/// Whether two strings hold the same characters.
pub fn same(a: &str, b: &str) -> (r: bool)
    ensures
        r == (a@ == b@),
{
    let x = chars_of(a);
    let y = chars_of(b);
    assert(x@.subrange(0, x@.len() as int) == x@);
    x.len() == y.len() && matches_at(&x, &y, 0)
}

/// Whether `pat` stands in `chars` at place `i`.
fn matches_at(chars: &Vec<char>, pat: &Vec<char>, i: usize) -> (r: bool)
    requires
        i <= chars@.len(),
    ensures
        r == occurs_at(chars@, pat@, i as int),
{
    let n: usize = chars.len();
    if pat.len() > n - i {
        return false;
    }
    let mut k: usize = 0;
    while k < pat.len()
        invariant
            k <= pat@.len(),
            i + pat@.len() <= n,
            n == chars@.len(),
            forall|j: int| 0 <= j < k ==> chars@[i + j] == pat@[j],
        decreases pat@.len() - k,
    {
        if chars[i + k] != pat[k] {
            assert(chars@.subrange(i as int, i + pat@.len())[k as int] == chars@[i + k]);
            return false;
        }
        k = k + 1;
    }
    assert(chars@.subrange(i as int, i + pat@.len()) =~= pat@);
    true
}

/// Whether `s` begins with `pat`.
pub fn starts_with(s: &str, pat: &str) -> (r: bool)
    ensures
        r == pat@.is_prefix_of(s@),
{
    matches_at(&chars_of(s), &chars_of(pat), 0)
}

/// Whether `s` ends with `pat`.
pub fn ends_with(s: &str, pat: &str) -> (r: bool)
    ensures
        r == pat@.is_suffix_of(s@),
{
    let chars = chars_of(s);
    let end = chars_of(pat);
    if end.len() > chars.len() {
        return false;
    }
    matches_at(&chars, &end, chars.len() - end.len())
}

/// Whether `pat` stands anywhere in `s`.
pub fn contains(s: &str, pat: &str) -> (r: bool)
    ensures
        r == occurs_in(s@, pat@),
{
    let chars = chars_of(s);
    let part = chars_of(pat);
    let n: usize = chars.len();
    let mut i: usize = 0;
    while i < n
        invariant
            i <= n,
            n == chars@.len(),
            chars@ == s@,
            part@ == pat@,
            forall|j: int| 0 <= j < i ==> !occurs_at(s@, pat@, j),
        decreases n - i,
    {
        if matches_at(&chars, &part, i) {
            return true;
        }
        i = i + 1;
    }
    matches_at(&chars, &part, n)
}

/// The string without the white space that it ends with.
pub fn trim_end(s: &str) -> (r: &str)
    ensures
        r@ == trimmed_end(s@),
{
    let chars = chars_of(s);
    let mut end: usize = chars.len();
    assert(s@.take(end as int) == s@);
    while end > 0 && is_white_space(chars[end - 1])
        invariant
            end <= chars@.len(),
            chars@ == s@,
            trimmed_end(s@) == trimmed_end(s@.take(end as int)),
        decreases end,
    {
        assert(s@.take(end as int).drop_last() == s@.take(end - 1));
        end = end - 1;
    }
    s.substring_char(0, end)
}

/// The string without the white space at either end.
pub fn trim(s: &str) -> (r: &str)
    ensures
        r@ == trimmed(s@),
{
    let chars = chars_of(s);
    let n: usize = chars.len();
    let mut start: usize = 0;
    assert(s@.skip(0) == s@);
    while start < n && is_white_space(chars[start])
        invariant
            start <= n,
            n == chars@.len(),
            chars@ == s@,
            trimmed_start(s@) == trimmed_start(s@.skip(start as int)),
        decreases n - start,
    {
        assert(s@.skip(start as int).drop_first() == s@.skip(start + 1));
        start = start + 1;
    }
    trim_end(s.substring_char(start, n))
}

/// The string without its leading white space, of which at most `limit` characters go.
pub fn unindent(s: &str, limit: usize) -> (r: &str)
    ensures
        r@ == unindented(s@, limit as nat),
{
    let chars = chars_of(s);
    let n: usize = chars.len();
    let mut start: usize = 0;
    assert(s@.skip(0) == s@);
    while start < n && start < limit && is_white_space(chars[start])
        invariant
            start <= n,
            start <= limit,
            n == chars@.len(),
            chars@ == s@,
            unindented(s@, limit as nat) == unindented(s@.skip(start as int), (limit - start) as nat),
        decreases n - start,
    {
        assert(s@.skip(start as int).drop_first() == s@.skip(start + 1));
        start = start + 1;
    }
    s.substring_char(start, n)
}

/// The string without the characters `c` that it ends with.
pub fn trim_end_char(s: &str, c: char) -> (r: &str)
    ensures
        r@ == without_final(s@, c),
{
    let chars = chars_of(s);
    let mut end: usize = chars.len();
    assert(s@.take(end as int) == s@);
    while end > 0 && chars[end - 1] == c
        invariant
            end <= chars@.len(),
            chars@ == s@,
            without_final(s@, c) == without_final(s@.take(end as int), c),
        decreases end,
    {
        assert(s@.take(end as int).drop_last() == s@.take(end - 1));
        end = end - 1;
    }
    s.substring_char(0, end)
}

/// What stands before the last `c`, if there is one.
pub fn cut_last(s: &str, c: char) -> (r: Option<&str>)
    ensures
        r is Some <==> before_last(s@, c) is Some,
        r matches Some(head) ==> before_last(s@, c) == Some(head@),
{
    let chars = chars_of(s);
    let mut end: usize = chars.len();
    assert(s@.take(end as int) == s@);
    while end > 0
        invariant
            end <= chars@.len(),
            chars@ == s@,
            before_last(s@, c) == before_last(s@.take(end as int), c),
        decreases end,
    {
        assert(s@.take(end as int).drop_last() == s@.take(end - 1));
        end = end - 1;
        if chars[end] == c {
            return Some(s.substring_char(0, end));
        }
    }
    None
}

/// What stands after the first `c`, if there is one.
pub fn cut_first(s: &str, c: char) -> (r: Option<&str>)
    ensures
        r is Some <==> after_first(s@, c) is Some,
        r matches Some(rest) ==> after_first(s@, c) == Some(rest@),
{
    let chars = chars_of(s);
    let n: usize = chars.len();
    let mut i: usize = 0;
    assert(s@.skip(0) == s@);
    while i < n
        invariant
            i <= n,
            n == chars@.len(),
            chars@ == s@,
            after_first(s@, c) == after_first(s@.skip(i as int), c),
        decreases n - i,
    {
        assert(s@.skip(i as int).drop_first() == s@.skip(i + 1));
        if chars[i] == c {
            return Some(s.substring_char(i + 1, n));
        }
        i = i + 1;
    }
    None
}

/// The parts one after the other, with `sep` between any two.
pub fn join(parts: &Vec<String>, sep: &str) -> (r: String)
    ensures
        r@ == joined(texts(parts@), sep@),
{
    let mut out = String::new();
    let n: usize = parts.len();
    let mut i: usize = 0;
    while i < n
        invariant
            i <= n,
            n == parts@.len(),
            out@ == joined(texts(parts@).take(i as int), sep@),
        decreases n - i,
    {
        assert(texts(parts@).take(i + 1).drop_last() == texts(parts@).take(i as int));
        if i > 0 {
            out.append(sep);
        }
        out.append(parts[i].as_str());
        i = i + 1;
    }
    assert(texts(parts@).take(n as int) == texts(parts@));
    out
}

/// The pieces of a string between the characters `c`.
pub fn split_on(s: &str, c: char) -> (r: Vec<String>)
    ensures
        texts(r@) == pieces(s@, c),
{
    let chars = chars_of(s);
    let n: usize = chars.len();
    let mut out: Vec<String> = Vec::new();
    let mut start: usize = 0;
    let mut i: usize = 0;
    assert(s@.take(0) == Seq::<char>::empty());
    assert(s@.subrange(0, 0) == Seq::<char>::empty());
    while i < n
        invariant
            start <= i <= n,
            n == chars@.len(),
            chars@ == s@,
            pieces(s@.take(i as int), c) == texts(out@).push(s@.subrange(start as int, i as int)),
        decreases n - i,
    {
        assert(s@.take(i + 1).drop_last() == s@.take(i as int));
        let ghost before = texts(out@).push(s@.subrange(start as int, i as int));
        assert(before.drop_last() == texts(out@));
        if chars[i] == c {
            out.push(s.substring_char(start, i).to_owned());
            assert(texts(out@) == before);
            start = i + 1;
            assert(s@.subrange(start as int, i + 1) == Seq::<char>::empty());
        } else {
            assert(s@.subrange(start as int, i as int).push(s@[i as int]) == s@.subrange(
                start as int,
                i + 1,
            ));
        }
        i = i + 1;
    }
    assert(s@.take(n as int) == s@);
    let ghost before = texts(out@);
    out.push(s.substring_char(start, n).to_owned());
    assert(texts(out@) == before.push(s@.subrange(start as int, n as int)));
    out
}

/// The string without the carriage return that it ends with, if it ends with one.
fn strip_return(s: &str) -> (r: &str)
    ensures
        r@ == without_return(s@),
{
    let chars = chars_of(s);
    let n: usize = chars.len();
    if n > 0 && chars[n - 1] == '\r' {
        s.substring_char(0, n - 1)
    } else {
        s
    }
}

/// The lines of a string.
pub fn lines_of(s: &str) -> (r: Vec<String>)
    ensures
        texts(r@) == text_lines(s@),
{
    let all = split_on(s, '\n');
    proof {
        lemma_pieces_nonempty(s@, '\n');
    }
    let n: usize = all.len();
    let mut out: Vec<String> = Vec::new();
    let mut i: usize = 0;
    while i < n - 1
        invariant
            0 < n,
            i <= n - 1,
            n == all@.len(),
            texts(out@) == texts(all@).take(i as int).map_values(|l: Seq<char>| without_return(l)),
        decreases n - i,
    {
        let ghost was = texts(out@);
        out.push(strip_return(all[i].as_str()).to_owned());
        assert(texts(out@) == was.push(without_return(texts(all@)[i as int])));
        i = i + 1;
        assert(texts(out@) =~= texts(all@).take(i as int).map_values(
            |l: Seq<char>| without_return(l),
        ));
    }
    assert(texts(all@).drop_last() == texts(all@).take(n - 1));
    let last = chars_of(all[n - 1].as_str());
    if last.len() > 0 {
        let ghost ended = texts(out@);
        out.push(all[n - 1].clone());
        assert(texts(out@) == ended.push(texts(all@).last()));
    }
    out
}

/// There is at least one piece.
pub proof fn lemma_pieces_nonempty(s: Seq<char>, c: char)
    ensures
        pieces(s, c).len() > 0,
    decreases s.len(),
{
    if s.len() > 0 {
        lemma_pieces_nonempty(s.drop_last(), c);
    }
}

/// The string with `to` in place of each `from`.
pub fn replace_all(s: &str, from: &str, to: &str) -> (r: String)
    requires
        from@.len() > 0,
    ensures
        r@ == replaced(s@, from@, to@),
{
    let chars = chars_of(s);
    let pat = chars_of(from);
    let n: usize = chars.len();
    let m: usize = pat.len();
    let mut out = String::new();
    let mut start: usize = 0;
    let mut i: usize = 0;
    assert(s@.skip(0) == s@);
    while n - i >= m
        invariant
            start <= i <= n,
            n == chars@.len(),
            chars@ == s@,
            m == pat@.len(),
            0 < m,
            pat@ == from@,
            replaced(s@, from@, to@) == out@ + s@.subrange(start as int, i as int) + replaced(
                s@.skip(i as int),
                from@,
                to@,
            ),
        decreases n - i,
    {
        let ghost rest = s@.skip(i as int);
        assert(rest.subrange(0, m as int) == s@.subrange(i as int, i + m));
        if matches_at(&chars, &pat, i) {
            assert(rest.skip(m as int) == s@.skip(i + m));
            out.append(s.substring_char(start, i));
            out.append(to);
            i = i + m;
            start = i;
            assert(s@.subrange(start as int, i as int) == Seq::<char>::empty());
        } else {
            assert(rest.skip(1) == s@.skip(i + 1));
            assert(s@.subrange(start as int, i as int) + seq![s@[i as int]] =~= s@.subrange(
                start as int,
                i + 1,
            ));
            i = i + 1;
        }
    }
    assert(s@.subrange(start as int, i as int) + s@.skip(i as int) =~= s@.subrange(
        start as int,
        n as int,
    ));
    out.append(s.substring_char(start, n));
    out
}

/// The string with `to` in place of the leftmost `from`.
pub fn replace_first(s: &str, from: &str, to: &str) -> (r: String)
    requires
        from@.len() > 0,
    ensures
        r@ == replaced_first(s@, from@, to@),
{
    let chars = chars_of(s);
    let pat = chars_of(from);
    let n: usize = chars.len();
    let m: usize = pat.len();
    let mut i: usize = 0;
    assert(s@.skip(0) == s@);
    while n - i >= m
        invariant
            i <= n,
            n == chars@.len(),
            chars@ == s@,
            m == pat@.len(),
            0 < m,
            pat@ == from@,
            replaced_first(s@, from@, to@) == s@.take(i as int) + replaced_first(
                s@.skip(i as int),
                from@,
                to@,
            ),
        decreases n - i,
    {
        let ghost rest = s@.skip(i as int);
        assert(rest.subrange(0, m as int) == s@.subrange(i as int, i + m));
        if matches_at(&chars, &pat, i) {
            assert(rest.skip(m as int) == s@.skip(i + m));
            let mut out = s.substring_char(0, i).to_owned();
            out.append(to);
            out.append(s.substring_char(i + m, n));
            assert(out@ =~= s@.take(i as int) + (to@ + rest.skip(m as int)));
            return out;
        }
        assert(rest.skip(1) == s@.skip(i + 1));
        assert(s@.take(i as int) + seq![s@[i as int]] =~= s@.take(i + 1));
        i = i + 1;
    }
    assert(s@.take(i as int) + s@.skip(i as int) =~= s@);
    s.to_owned()
}

/// What stands between two byte offsets, if they are in order, lie within the string and split no
/// character.
pub fn get_bytes(s: &str, from: usize, to: usize) -> (r: Option<&str>)
    ensures
        r is Some <==> byte_range(s@, from as int, to as int) is Some,
        r matches Some(part) ==> byte_range(s@, from as int, to as int) == Some(part@),
{
    broadcast use encode_utf8_valid_utf8, encode_utf8_decode_utf8;

    if from <= to && s.is_char_boundary(from) && s.is_char_boundary(to) {
        let (head, _) = s.split_at(to);
        proof {
            lemma_boundary_of_head(encode_utf8(s@), from as int, to as int);
        }
        let (_, part) = head.split_at(from);
        assert(encode_utf8(part@) =~= encode_utf8(s@).subrange(from as int, to as int));
        Some(part)
    } else {
        None
    }
}

/// A boundary stays one when the text is cut at a later boundary.
pub proof fn lemma_boundary_of_head(bytes: Seq<u8>, i: int, j: int)
    requires
        valid_utf8(bytes),
        is_char_boundary(bytes, i),
        is_char_boundary(bytes, j),
        i <= j,
    ensures
        is_char_boundary(bytes.subrange(0, j), i),
    decreases bytes.len(),
{
    valid_utf8_split(bytes, j);
    if i > 0 && bytes.len() > 0 {
        let n = length_of_first_scalar(bytes);
        reveal_with_fuel(is_char_boundary, 2);
        lemma_boundary_of_head(pop_first_scalar(bytes), i - n, j - n);
        assert(pop_first_scalar(bytes.subrange(0, j)) =~= pop_first_scalar(bytes).subrange(
            0,
            j - n,
        ));
    }
}

/// The text that bytes spell in UTF-8, by `String::from_utf8`: there is one exactly when the bytes
/// are valid UTF-8, and then it is what they decode to.
#[verifier::external_body]
pub(crate) fn decode(bytes: Vec<u8>) -> (r: Option<String>)
    ensures
        r is Some <==> valid_utf8(bytes@),
        r matches Some(s) ==> s@ == decode_utf8(bytes@),
{
    String::from_utf8(bytes).ok()
}

} // verus!
