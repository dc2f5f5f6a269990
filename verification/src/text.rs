//! Text: what the library says about strings, and the small operations on
//! them that its parsers and queries are made of.

use vstd::prelude::*;

verus! {

/// The texts held by a list of strings.
pub open spec fn texts(list: Seq<String>) -> Seq<Seq<char>> {
    list.map_values(|s: String| s@)
}

/// The text held by an optional string.
pub open spec fn opt_text(text: Option<String>) -> Option<Seq<char>> {
    match text {
        Some(s) => Some(s@),
        None => None,
    }
}

/// Whether `a` sorts before `b`, character by character. On valid text this is
/// also the order of the UTF-8 bytes.
pub open spec fn text_less(a: Seq<char>, b: Seq<char>) -> bool
    decreases a.len(),
{
    if b.len() == 0 {
        false
    } else if a.len() == 0 {
        true
    } else if a[0] != b[0] {
        a[0] < b[0]
    } else {
        text_less(a.drop_first(), b.drop_first())
    }
}

/// Whether `c` has the Unicode property White_Space.
pub open spec fn is_white_space(c: char) -> bool {
    let p = c as int;
    ||| 0x9 <= p <= 0xD
    ||| p == 0x20
    ||| p == 0x85
    ||| p == 0xA0
    ||| p == 0x1680
    ||| 0x2000 <= p <= 0x200A
    ||| p == 0x2028
    ||| p == 0x2029
    ||| p == 0x202F
    ||| p == 0x205F
    ||| p == 0x3000
}

/// `text` without its leading white space.
pub open spec fn trimmed_start(text: Seq<char>) -> Seq<char>
    decreases text.len(),
{
    if text.len() > 0 && is_white_space(text[0]) {
        trimmed_start(text.drop_first())
    } else {
        text
    }
}

/// `text` without its trailing white space.
pub open spec fn trimmed_end(text: Seq<char>) -> Seq<char>
    decreases text.len(),
{
    if text.len() > 0 && is_white_space(text.last()) {
        trimmed_end(text.drop_last())
    } else {
        text
    }
}

/// `text` without leading and trailing white space.
pub open spec fn trimmed(text: Seq<char>) -> Seq<char> {
    trimmed_end(trimmed_start(text))
}

/// The pieces of `text` between occurrences of `separator`: always one more
/// than there are separators.
pub open spec fn pieces(text: Seq<char>, separator: char) -> Seq<Seq<char>>
    decreases text.len(),
{
    if text.len() == 0 {
        seq![Seq::<char>::empty()]
    } else {
        let before = pieces(text.drop_last(), separator);
        if text.last() == separator {
            before.push(Seq::<char>::empty())
        } else {
            before.update(before.len() - 1, before.last().push(text.last()))
        }
    }
}

/// `c` with an upper-case ASCII letter replaced by its lower-case form.
pub open spec fn ascii_lower(c: char) -> char {
    if 'A' <= c <= 'Z' {
        (c as u8 + 32) as char
    } else {
        c
    }
}

/// `text` with every ASCII letter in lower case.
pub open spec fn lowered(text: Seq<char>) -> Seq<char> {
    text.map_values(|c: char| ascii_lower(c))
}

/// What the standard library's `Debug` formatting prints for `text`: the text
/// in double quotes, with escapes.
pub uninterp spec fn quoted(text: Seq<char>) -> Seq<char>;

/// No text sorts before itself.
pub proof fn lemma_less_irreflexive(a: Seq<char>)
    ensures
        !text_less(a, a),
    decreases a.len(),
{
    if a.len() > 0 {
        lemma_less_irreflexive(a.drop_first());
    }
}

/// The order of texts is transitive.
pub proof fn lemma_less_transitive(a: Seq<char>, b: Seq<char>, c: Seq<char>)
    requires
        text_less(a, b),
        text_less(b, c),
    ensures
        text_less(a, c),
    decreases a.len(),
{
    if a.len() > 0 && b.len() > 0 && c.len() > 0 && a[0] == b[0] && b[0] == c[0] {
        lemma_less_transitive(a.drop_first(), b.drop_first(), c.drop_first());
    }
}

/// Of two different texts one sorts before the other.
pub proof fn lemma_less_total(a: Seq<char>, b: Seq<char>)
    ensures
        a == b || text_less(a, b) || text_less(b, a),
    decreases a.len(),
{
    if a.len() > 0 && b.len() > 0 && a[0] == b[0] {
        lemma_less_total(a.drop_first(), b.drop_first());
        if a.drop_first() == b.drop_first() {
            assert(a == seq![a[0]] + a.drop_first());
            assert(b == seq![b[0]] + b.drop_first());
        }
    } else if a.len() == 0 && b.len() == 0 {
        assert(a == b);
    }
}

/// A common prefix does not change the order.
pub proof fn lemma_less_behind_prefix(prefix: Seq<char>, a: Seq<char>, b: Seq<char>)
    requires
        text_less(a, b),
    ensures
        text_less(prefix + a, prefix + b),
    decreases prefix.len(),
{
    if prefix.len() > 0 {
        lemma_less_behind_prefix(prefix.drop_first(), a, b);
        assert((prefix + a).drop_first() == prefix.drop_first() + a);
        assert((prefix + b).drop_first() == prefix.drop_first() + b);
    } else {
        assert(prefix + a == a);
        assert(prefix + b == b);
    }
}

/// Between texts of one length, what follows does not change the order.
pub proof fn lemma_less_then_any(a: Seq<char>, b: Seq<char>, x: char, y: char)
    requires
        a.len() == b.len(),
        text_less(a, b),
    ensures
        text_less(a.push(x), b.push(y)),
    decreases a.len(),
{
    assert(a.push(x)[0] == a[0] && b.push(y)[0] == b[0]);
    if a[0] == b[0] {
        lemma_less_then_any(a.drop_first(), b.drop_first(), x, y);
        assert(a.push(x).drop_first() == a.drop_first().push(x));
        assert(b.push(y).drop_first() == b.drop_first().push(y));
    }
}

/// A trimmed text is a part of the text, with nothing but white space before and
/// behind it, and no white space at its own ends.
pub proof fn law_trimming_takes_white_space_off(text: Seq<char>) -> (ends: (int, int))
    ensures
        0 <= ends.0 <= ends.1 <= text.len(),
        trimmed(text) == text.subrange(ends.0, ends.1),
        forall|i: int| 0 <= i < ends.0 ==> is_white_space(#[trigger] text[i]),
        forall|i: int| ends.1 <= i < text.len() ==> is_white_space(#[trigger] text[i]),
        ends.0 < ends.1 ==> !is_white_space(text[ends.0]) && !is_white_space(text[ends.1 - 1]),
{
    let a = lemma_trimmed_start(text);
    let rest = text.skip(a);
    let b = lemma_trimmed_end(rest);
    assert(rest.take(b) == text.subrange(a, a + b));
    assert forall|i: int| a + b <= i < text.len() implies is_white_space(#[trigger] text[i]) by {
        assert(rest[i - a] == text[i]);
    }
    if b > 0 {
        assert(rest[b - 1] == text[a + b - 1]);
    }
    (a, a + b)
}

proof fn lemma_trimmed_start(text: Seq<char>) -> (n: int)
    ensures
        0 <= n <= text.len(),
        trimmed_start(text) == text.skip(n),
        forall|i: int| 0 <= i < n ==> is_white_space(#[trigger] text[i]),
        n < text.len() ==> !is_white_space(text[n]),
    decreases text.len(),
{
    if text.len() > 0 && is_white_space(text[0]) {
        let rest = text.drop_first();
        let n = lemma_trimmed_start(rest);
        assert(rest.skip(n) == text.skip(n + 1));
        assert forall|i: int| 0 <= i < n + 1 implies is_white_space(#[trigger] text[i]) by {
            if i > 0 {
                assert(rest[i - 1] == text[i]);
            }
        }
        if n < rest.len() {
            assert(rest[n] == text[n + 1]);
        }
        n + 1
    } else {
        assert(text.skip(0) == text);
        0
    }
}

proof fn lemma_trimmed_end(text: Seq<char>) -> (n: int)
    ensures
        0 <= n <= text.len(),
        trimmed_end(text) == text.take(n),
        forall|i: int| n <= i < text.len() ==> is_white_space(#[trigger] text[i]),
        n > 0 ==> !is_white_space(text[n - 1]),
    decreases text.len(),
{
    if text.len() > 0 && is_white_space(text.last()) {
        let front = text.drop_last();
        let n = lemma_trimmed_end(front);
        assert(front.take(n) == text.take(n));
        assert forall|i: int| n <= i < text.len() implies is_white_space(#[trigger] text[i]) by {
            if i < front.len() {
                assert(front[i] == text[i]);
            }
        }
        n
    } else {
        assert(text.take(text.len() as int) == text);
        text.len() as int
    }
}

/// Two texts with a separator between them have the pieces of each; a text
/// without the separator is one piece.
pub proof fn law_pieces_lie_between_separators(a: Seq<char>, b: Seq<char>, separator: char)
    ensures
        pieces(a + seq![separator] + b, separator) == pieces(a, separator) + pieces(b, separator),
        !b.contains(separator) ==> pieces(b, separator) == seq![b],
    decreases b.len(),
{
    lemma_some_piece(a, separator);
    lemma_some_piece(b, separator);
    let all = a + seq![separator] + b;
    if b.len() == 0 {
        assert(all.drop_last() == a);
        assert(all.last() == separator);
        assert(pieces(all, separator) == pieces(a, separator).push(Seq::<char>::empty()));
        assert(pieces(b, separator) == seq![Seq::<char>::empty()]);
        assert(b == Seq::<char>::empty());
        assert(pieces(all, separator) == pieces(a, separator) + pieces(b, separator));
    } else {
        let front = b.drop_last();
        law_pieces_lie_between_separators(a, front, separator);
        lemma_some_piece(front, separator);
        assert(all.drop_last() == a + seq![separator] + front);
        assert(all.last() == b.last());
        assert(pieces(all, separator) == pieces(a, separator) + pieces(b, separator));
        if !b.contains(separator) {
            assert(b[b.len() - 1] != separator);
            assert(!front.contains(separator)) by {
                if front.contains(separator) {
                    let i = choose|i: int| 0 <= i < front.len() && front[i] == separator;
                    assert(b[i] == separator);
                }
            }
            assert(front.push(b.last()) == b);
            assert(pieces(b, separator) == seq![b]);
        }
    }
}

proof fn lemma_some_piece(text: Seq<char>, separator: char)
    ensures
        pieces(text, separator).len() > 0,
    decreases text.len(),
{
    if text.len() > 0 {
        lemma_some_piece(text.drop_last(), separator);
    }
}

/// Whether `c` has the Unicode property White_Space.
pub fn white_space(c: char) -> (r: bool)
    ensures
        r == is_white_space(c),
{
    let p: u32 = c as u32;
    (0x9 <= p && p <= 0xD) || p == 0x20 || p == 0x85 || p == 0xA0 || p == 0x1680 || (0x2000 <= p
        && p <= 0x200A) || p == 0x2028 || p == 0x2029 || p == 0x202F || p == 0x205F || p == 0x3000
}

/// Whether two strings hold the same text.
pub fn same_text(a: &str, b: &str) -> (r: bool)
    ensures
        r == (a@ == b@),
{
    a.to_owned() == b.to_owned()
}

/// Whether `list` holds `text`.
pub fn contains_text(list: &Vec<String>, text: &str) -> (r: bool)
    ensures
        r == texts(list@).contains(text@),
{
    for i in 0..list.len()
        invariant
            forall|j: int| 0 <= j < i ==> texts(list@)[j] != text@,
    {
        if same_text(list[i].as_str(), text) {
            assert(texts(list@)[i as int] == text@);
            return true;
        }
    }
    false
}

/// Whether `text` starts with `prefix`.
pub fn has_prefix(text: &str, prefix: &str) -> (r: bool)
    ensures
        r == prefix@.is_prefix_of(text@),
{
    let n: usize = prefix.unicode_len();
    if text.unicode_len() < n {
        false
    } else {
        same_text(text.substring_char(0, n), prefix)
    }
}

/// The characters of `text`, in order.
pub fn chars_of(text: &str) -> (r: Vec<char>)
    ensures
        r@ == text@,
{
    let mut r: Vec<char> = Vec::new();
    for c in it: text.chars()
        invariant
            it.seq() == text@,
            r@ == text@.take(it.index() as int),
    {
        r.push(c);
        assert(text@.take(it.index() + 1) == text@.take(it.index() as int).push(c));
    }
    assert(text@.take(text@.len() as int) == text@);
    r
}

/// Whether `a` has a smaller code point than `b`.
fn char_before(a: char, b: char) -> (r: bool)
    ensures
        r == (a < b),
{
    (a as u32) < (b as u32)
}

/// Whether `a` sorts before `b`.
pub fn text_before(a: &str, b: &str) -> (r: bool)
    ensures
        r == text_less(a@, b@),
{
    let x = chars_of(a);
    let y = chars_of(b);
    let mut i: usize = 0;
    assert(x@.skip(0) == x@ && y@.skip(0) == y@);
    while i < x.len() && i < y.len()
        invariant
            i <= x@.len(),
            i <= y@.len(),
            x@ == a@,
            y@ == b@,
            text_less(x@, y@) == text_less(x@.skip(i as int), y@.skip(i as int)),
        decreases x@.len() - i,
    {
        assert(x@.skip(i as int)[0] == x@[i as int] && y@.skip(i as int)[0] == y@[i as int]);
        if x[i] != y[i] {
            return char_before(x[i], y[i]);
        }
        assert(x@.skip(i as int).drop_first() == x@.skip(i + 1));
        assert(y@.skip(i as int).drop_first() == y@.skip(i + 1));
        i = i + 1;
    }
    i < y.len()
}

/// `text` without leading and trailing white space.
pub fn trim_text(text: &str) -> (r: &str)
    ensures
        r@ == trimmed(text@),
{
    let chars = chars_of(text);
    let n: usize = chars.len();
    let mut start: usize = 0;
    assert(chars@.skip(0) == chars@);
    while start < n && white_space(chars[start])
        invariant
            start <= n == chars@.len(),
            trimmed_start(chars@) == trimmed_start(chars@.skip(start as int)),
        decreases n - start,
    {
        assert(chars@.skip(start as int).drop_first() == chars@.skip(start + 1));
        start = start + 1;
    }
    let mut end: usize = n;
    assert(trimmed_start(chars@) == chars@.skip(start as int));
    assert(chars@.skip(start as int) == chars@.subrange(start as int, end as int));
    while start < end && white_space(chars[end - 1])
        invariant
            start <= end <= n == chars@.len(),
            trimmed(chars@) == trimmed_end(chars@.subrange(start as int, end as int)),
        decreases end - start,
    {
        assert(chars@.subrange(start as int, end as int).drop_last() == chars@.subrange(
            start as int,
            end - 1,
        ));
        end = end - 1;
    }
    text.substring_char(start, end)
}

/// The standard library's `str::to_ascii_lowercase`: the letters `A` to `Z`
/// become `a` to `z`, and every other character stays.
pub assume_specification[ str::to_ascii_lowercase ](text: &str) -> (r: String)
    ensures
        r@ == lowered(text@),
;

/// The standard library's `Debug` formatting of a string slice. Its result is
/// named and nothing more is said of it.
#[verifier::external_body]
pub(crate) fn debug_text(text: &str) -> (r: String)
    ensures
        r@ == quoted(text@),
{
    format!("{:?}", text)
}

} // verus!
