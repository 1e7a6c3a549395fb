//! Small building blocks for the text that the explorer shows.

use vstd::prelude::*;

use crate::order::{
    is_total_order, lex_le, lex_le_antisymmetric, lex_le_total, lex_le_transitive,
    sequences_differ_first,
};

verus! {

/// The decimal digits of `n`, without leading zeros.
pub open spec fn decimal(n: nat) -> Seq<char>
    decreases n,
{
    if n < 10 {
        seq![digit(n)]
    } else {
        decimal(n / 10).push(digit(n % 10))
    }
}

/// The character for a single decimal digit.
pub open spec fn digit(d: nat) -> char {
    if d == 0 {
        '0'
    } else if d == 1 {
        '1'
    } else if d == 2 {
        '2'
    } else if d == 3 {
        '3'
    } else if d == 4 {
        '4'
    } else if d == 5 {
        '5'
    } else if d == 6 {
        '6'
    } else if d == 7 {
        '7'
    } else if d == 8 {
        '8'
    } else {
        '9'
    }
}

fn digit_text(d: u64) -> (r: &'static str)
    requires
        d < 10,
    ensures
        r@ == seq![digit(d as nat)],
{
    proof {
        reveal_strlit("0");
        reveal_strlit("1");
        reveal_strlit("2");
        reveal_strlit("3");
        reveal_strlit("4");
        reveal_strlit("5");
        reveal_strlit("6");
        reveal_strlit("7");
        reveal_strlit("8");
        reveal_strlit("9");
    }
    if d == 0 {
        "0"
    } else if d == 1 {
        "1"
    } else if d == 2 {
        "2"
    } else if d == 3 {
        "3"
    } else if d == 4 {
        "4"
    } else if d == 5 {
        "5"
    } else if d == 6 {
        "6"
    } else if d == 7 {
        "7"
    } else if d == 8 {
        "8"
    } else {
        "9"
    }
}

/// Writes a number in decimal.
pub fn number(n: u64) -> (r: String)
    ensures
        r@ == decimal(n as nat),
    decreases n,
{
    if n < 10 {
        digit_text(n).to_owned()
    } else {
        let mut head = number(n / 10);
        head.append(digit_text(n % 10));
        head
    }
}

/// `n` spaces.
pub open spec fn spaces(n: nat) -> Seq<char> {
    Seq::new(n, |i: int| ' ')
}

/// `text` followed by as many spaces as it takes to fill `width` characters.
pub open spec fn padded(text: Seq<char>, width: nat) -> Seq<char> {
    if text.len() < width {
        text + spaces((width - text.len()) as nat)
    } else {
        text
    }
}

/// Left-aligns a text in a column of `width` characters; a longer text stays whole.
pub fn pad_right(text: &str, width: usize) -> (r: String)
    ensures
        r@ == padded(text@, width as nat),
{
    let mut out = text.to_owned();
    let mut len: usize = text.unicode_len();
    proof {
        reveal_strlit(" ");
    }
    while len < width
        invariant
            " "@ == seq![' '],
            text@.len() <= len,
            len <= width || len == text@.len(),
            out@ == text@ + spaces((len - text@.len()) as nat),
        decreases width - len,
    {
        out.append(" ");
        len = len + 1;
    }
    out
}

/// The texts of `items`, with `separator` between each two of them.
pub open spec fn joined(items: Seq<Seq<char>>, separator: Seq<char>) -> Seq<char>
    decreases items.len(),
{
    if items.len() == 0 {
        Seq::empty()
    } else if items.len() == 1 {
        items[0]
    } else {
        joined(items.drop_last(), separator) + separator + items.last()
    }
}

/// The contents of a list of texts.
pub open spec fn texts_of(items: Seq<String>) -> Seq<Seq<char>> {
    items.map_values(|item: String| item@)
}

/// Joins texts with a separator between them.
pub fn join(items: &Vec<String>, separator: &str) -> (r: String)
    ensures
        r@ == joined(texts_of(items@), separator@),
{
    let ghost texts = texts_of(items@);
    let mut out = String::new();
    let mut i: usize = 0;
    assert(texts.take(0) =~= Seq::empty());
    while i < items.len()
        invariant
            i <= items.len(),
            texts == texts_of(items@),
            out@ == joined(texts.take(i as int), separator@),
        decreases items.len() - i,
    {
        let ghost next = texts.take(i + 1);
        assert(next.drop_last() =~= texts.take(i as int));
        assert(next.last() == items@[i as int]@);
        if i > 0 {
            out.append(separator);
        }
        out.append(items[i].as_str());
        assert(i == 0 ==> out@ =~= items@[i as int]@);
        i = i + 1;
    }
    assert(texts.take(texts.len() as int) =~= texts);
    out
}

/// Concatenates two texts.
pub fn concat(left: &str, right: &str) -> (r: String)
    ensures
        r@ == left@ + right@,
{
    let mut out = left.to_owned();
    out.append(right);
    out
}

/// Concatenates three texts.
pub fn concat3(first: &str, second: &str, third: &str) -> (r: String)
    ensures
        r@ == first@ + second@ + third@,
{
    let mut out = first.to_owned();
    out.append(second);
    out.append(third);
    out
}

/// The first `n` characters of a text, or all of it if it is shorter.
pub open spec fn first_chars(text: Seq<char>, n: nat) -> Seq<char> {
    if text.len() <= n {
        text
    } else {
        text.take(n as int)
    }
}

/// A shortened text is how the text begins; shortening it again changes nothing.
pub proof fn shortened_text_is_a_prefix(text: Seq<char>, n: nat)
    ensures
        first_chars(text, n).is_prefix_of(text),
        first_chars(text, n).len() <= n,
        first_chars(first_chars(text, n), n) == first_chars(text, n),
{
}

/// Shortens an object id to the eight characters that lists show.
pub fn abbreviate_id(id: &str) -> (r: String)
    ensures
        r@ == first_chars(id@, 8),
{
    if id.unicode_len() <= 8 {
        id.to_owned()
    } else {
        id.substring_char(0, 8).to_owned()
    }
}

/// Characters in the order of their code points.
pub open spec fn char_order() -> spec_fn(char, char) -> bool {
    |left: char, right: char| left as int <= right as int
}

/// Orders texts by the code points of their characters, from the first difference on; a
/// proper prefix comes first.
pub open spec fn text_le(left: Seq<char>, right: Seq<char>) -> bool {
    lex_le(left, right, char_order())
}

fn is_char_le(left: char, right: char) -> (r: bool)
    ensures
        r == char_order()(left, right),
{
    left as u32 <= right as u32
}

fn characters(text: &str) -> (r: Vec<char>)
    ensures
        r@ == text@,
{
    let ghost all = text@;
    let mut out: Vec<char> = Vec::new();
    for c in iter: text.chars()
        invariant
            iter.seq() == all,
            out@ == all.take(iter.index()),
    {
        assert(all.take(iter.index() + 1) =~= all.take(iter.index()).push(c));
        out.push(c);
    }
    assert(all.take(all.len() as int) =~= all);
    out
}

/// Tells whether a text comes before another one or is the same.
pub fn is_text_le(left: &str, right: &str) -> (r: bool)
    ensures
        r == text_le(left@, right@),
{
    let first = characters(left);
    let second = characters(right);
    let mut i: usize = 0;
    assert(first@.skip(0) == first@);
    assert(second@.skip(0) == second@);
    while i < first.len()
        invariant
            i <= first.len(),
            i <= second.len(),
            text_le(left@, right@) == text_le(first@.skip(i as int), second@.skip(i as int)),
        decreases first.len() - i,
    {
        if i >= second.len() {
            return false;
        }
        assert(first@.skip(i as int)[0] == first@[i as int]);
        assert(second@.skip(i as int)[0] == second@[i as int]);
        if first[i] != second[i] {
            return is_char_le(first[i], second[i]);
        }
        assert(first@.skip(i as int).drop_first() == first@.skip(i + 1));
        assert(second@.skip(i as int).drop_first() == second@.skip(i + 1));
        i = i + 1;
    }
    true
}

/// The order of texts is a total order.
pub proof fn text_order_is_total()
    ensures
        is_total_order(|left: Seq<char>, right: Seq<char>| text_le(left, right)),
{
    let le = |left: Seq<char>, right: Seq<char>| text_le(left, right);
    assert(is_total_order(char_order()));
    assert forall|x: Seq<char>, y: Seq<char>| #[trigger] le(x, y) || le(y, x) by {
        lex_le_total(x, y, char_order());
    }
    assert forall|x: Seq<char>, y: Seq<char>, z: Seq<char>| #[trigger]
        le(x, y) && #[trigger] le(y, z) implies le(x, z) by {
        lex_le_transitive(x, y, z, char_order());
    }
    assert forall|x: Seq<char>, y: Seq<char>| #[trigger] le(x, y) && le(y, x) implies x == y by {
        lex_le_antisymmetric(x, y, char_order());
    }
}

/// The white space of Unicode: the characters with the property `White_Space`.
pub open spec fn is_white(c: char) -> bool {
    let code = c as int;
    ||| 0x09 <= code <= 0x0d
    ||| code == 0x20
    ||| code == 0x85
    ||| code == 0xa0
    ||| code == 0x1680
    ||| 0x2000 <= code <= 0x200a
    ||| code == 0x2028
    ||| code == 0x2029
    ||| code == 0x202f
    ||| code == 0x205f
    ||| code == 0x3000
}

/// A text without the white space at its two ends.
pub open spec fn trimmed(text: Seq<char>) -> Seq<char>
    decreases text.len(),
{
    if text.len() == 0 {
        text
    } else if is_white(text[0]) {
        trimmed(text.drop_first())
    } else if is_white(text.last()) {
        trimmed(text.drop_last())
    } else {
        text
    }
}

fn is_white_space(c: char) -> (r: bool)
    ensures
        r == is_white(c),
{
    match c as u32 {
        0x09..=0x0d | 0x20 | 0x85 | 0xa0 | 0x1680 | 0x2000..=0x200a | 0x2028 | 0x2029 | 0x202f
        | 0x205f | 0x3000 => true,
        _ => false,
    }
}

/// Takes the white space from both ends of a text.
pub fn trim(text: &str) -> (r: String)
    ensures
        r@ == trimmed(text@),
{
    let all = characters(text);
    let mut from: usize = 0;
    let mut to: usize = all.len();
    assert(all@.subrange(0, to as int) == all@);
    while from < to && is_white_space(all[from])
        invariant
            from <= to == all.len(),
            trimmed(all@) == trimmed(all@.subrange(from as int, to as int)),
        decreases to - from,
    {
        assert(all@.subrange(from as int, to as int).drop_first() == all@.subrange(
            from + 1,
            to as int,
        ));
        from = from + 1;
    }
    while from < to && is_white_space(all[to - 1])
        invariant
            from <= to <= all.len(),
            from < to ==> !is_white(all@[from as int]),
            trimmed(all@) == trimmed(all@.subrange(from as int, to as int)),
        decreases to - from,
    {
        assert(all@.subrange(from as int, to as int).drop_last() == all@.subrange(
            from as int,
            to - 1,
        ));
        to = to - 1;
    }
    text.substring_char(from, to).to_owned()
}

/// The number that decimal digits stand for.
pub open spec fn value_of(digits: Seq<char>) -> int
    decreases digits.len(),
{
    if digits.len() == 0 {
        0
    } else {
        10 * value_of(digits.drop_last()) + (digits.last() as int - '0' as int)
    }
}

/// A number is written in digits that stand for it, without a leading zero.
pub proof fn numbers_are_written_in_decimal(n: nat)
    ensures
        value_of(decimal(n)) == n,
        decimal(n).len() > 0,
        forall|i: int|
            0 <= i < decimal(n).len() ==> '0' as int <= (#[trigger] decimal(n)[i]) as int <= '9' as int,
        n > 0 ==> decimal(n)[0] != '0',
    decreases n,
{
    reveal_with_fuel(value_of, 2);
    if n < 10 {
        assert(decimal(n).drop_last() =~= Seq::empty());
    } else {
        numbers_are_written_in_decimal(n / 10);
        assert(decimal(n).drop_last() =~= decimal(n / 10));
        assert forall|i: int| 0 <= i < decimal(n).len() implies '0' as int <= (
        #[trigger] decimal(n)[i]) as int <= '9' as int by {
            if i < decimal(n / 10).len() {
                assert(decimal(n)[i] == decimal(n / 10)[i]);
            }
        }
        assert(decimal(n)[0] == decimal(n / 10)[0]);
    }
}

/// A padded text begins with the text and goes on in spaces, up to the width; a longer text
/// stays as it is.
pub proof fn padding_adds_spaces(text: Seq<char>, width: nat)
    ensures
        text.is_prefix_of(padded(text, width)),
        text.len() < width ==> padded(text, width).len() == width,
        text.len() >= width ==> padded(text, width) == text,
        forall|i: int|
            text.len() <= i < padded(text, width).len() ==> #[trigger] padded(text, width)[i] == ' ',
{
    assert(text =~= padded(text, width).take(text.len() as int));
}

/// Joined texts stand one behind the other with the separator between each two of them.
pub proof fn joining_puts_separators_between(
    items: Seq<Seq<char>>,
    item: Seq<char>,
    separator: Seq<char>,
)
    ensures
        joined(Seq::empty(), separator) == Seq::<char>::empty(),
        joined(seq![item], separator) == item,
        items.len() > 0 ==> joined(items.push(item), separator) == joined(items, separator)
            + separator + item,
{
    assert(items.push(item).drop_last() == items);
}

/// Texts are ordered at their first difference, by the code points there; a text comes before
/// those that it begins.
pub proof fn texts_are_ordered_at_the_first_difference(left: Seq<char>, right: Seq<char>, n: int)
    requires
        0 <= n <= left.len(),
        n <= right.len(),
        forall|i: int| 0 <= i < n ==> #[trigger] left[i] == right[i],
    ensures
        n == left.len() ==> text_le(left, right),
        n == right.len() && n < left.len() ==> !text_le(left, right),
        n < left.len() && n < right.len() && left[n] != right[n] ==> (text_le(left, right)
            <==> left[n] as int <= right[n] as int),
{
    sequences_differ_first(left, right, n, char_order());
}

/// A trimmed text is a piece of the text that neither begins nor ends in white space, and
/// nothing but white space is left out around it.
pub proof fn trimming_takes_white_space_alone(text: Seq<char>) -> (r: (int, int))
    ensures
        0 <= r.0 <= r.1 <= text.len(),
        trimmed(text) == text.subrange(r.0, r.1),
        trimmed(text).len() > 0 ==> !is_white(trimmed(text)[0]) && !is_white(trimmed(text).last()),
        forall|i: int| 0 <= i < r.0 ==> is_white(#[trigger] text[i]),
        forall|i: int| r.1 <= i < text.len() ==> is_white(#[trigger] text[i]),
    decreases text.len(),
{
    if text.len() == 0 {
        assert(text.subrange(0, 0) =~= text);
        (0, 0)
    } else if is_white(text[0]) {
        let rest = text.drop_first();
        let (from, to) = trimming_takes_white_space_alone(rest);
        assert(rest.subrange(from, to) =~= text.subrange(from + 1, to + 1));
        assert forall|i: int| 0 <= i < from + 1 implies is_white(#[trigger] text[i]) by {
            if i > 0 {
                assert(rest[i - 1] == text[i]);
            }
        }
        assert forall|i: int| to + 1 <= i < text.len() implies is_white(#[trigger] text[i]) by {
            assert(rest[i - 1] == text[i]);
        }
        (from + 1, to + 1)
    } else if is_white(text.last()) {
        let rest = text.drop_last();
        let (from, to) = trimming_takes_white_space_alone(rest);
        assert(rest.subrange(from, to) =~= text.subrange(from, to));
        assert forall|i: int| to <= i < text.len() implies is_white(#[trigger] text[i]) by {
            if i < rest.len() {
                assert(rest[i] == text[i]);
            }
        }
        assert forall|i: int| 0 <= i < from implies is_white(#[trigger] text[i]) by {
            assert(rest[i] == text[i]);
        }
        (from, to)
    } else {
        assert(text.subrange(0, text.len() as int) =~= text);
        (0, text.len() as int)
    }
}

/// Shortening keeps exactly the first characters, and no more than asked for.
pub proof fn shortening_keeps_the_first_characters(text: Seq<char>, n: nat)
    ensures
        text.len() <= n ==> first_chars(text, n) == text,
        text.len() > n ==> first_chars(text, n).len() == n,
        forall|i: int| 0 <= i < n && i < text.len() ==> #[trigger] first_chars(text, n)[i] == text[i],
{
}

/// White space is a tab, a line feed, a vertical tab, a form feed, a carriage return, a next
/// line, a line or paragraph separator, or a space of some width.
pub proof fn white_space_is_spaces_and_line_ends(c: char)
    ensures
        c == '\t' || c == '\n' || c == '\u{b}' || c == '\u{c}' || c == '\r' || c == ' ' ==> is_white(
            c,
        ),
        (c as int) < 0x80 ==> (is_white(c) <==> c == '\t' || c == '\n' || c == '\u{b}' || c
            == '\u{c}' || c == '\r' || c == ' '),
        0x80 <= (c as int) && (c as int) < 0x2000 ==> (is_white(c) <==> c == '\u{85}' || c
            == '\u{a0}' || c == '\u{1680}'),
        (c as int) >= 0x2000 ==> (is_white(c) <==> (c as int) <= 0x200a || c == '\u{2028}' || c
            == '\u{2029}' || c == '\u{202f}' || c == '\u{205f}' || c == '\u{3000}'),
{
}

} // verus!
