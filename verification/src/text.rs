//! Text: the parts of it that messages and checks are made of.
use vstd::prelude::*;

verus! {

/// What follows the first part where `parts` are joined by `separator`.
pub open spec fn joined_rest(parts: Seq<Seq<char>>, separator: Seq<char>) -> Seq<char>
    decreases parts.len(),
{
    if parts.len() == 0 {
        seq![]
    } else {
        separator + parts[0] + joined_rest(parts.drop_first(), separator)
    }
}

/// `parts` one after another, with `separator` between each two.
pub open spec fn joined(parts: Seq<Seq<char>>, separator: Seq<char>) -> Seq<char> {
    if parts.len() == 0 {
        seq![]
    } else {
        parts[0] + joined_rest(parts.drop_first(), separator)
    }
}

/// Joins `parts` by `separator`.
pub fn join(parts: &Vec<String>, separator: &str) -> (text: String)
    ensures
        text@ == joined(parts.deep_view(), separator@),
{
    let ghost all = parts.deep_view();
    if parts.len() == 0 {
        return String::new();
    }
    let mut text = parts[0].clone();
    let mut i: usize = 1;
    assert(all.skip(1) =~= all.drop_first());
    while i < parts.len()
        invariant
            1 <= i <= parts.len(),
            all == parts.deep_view(),
            joined(all, separator@) == text@ + joined_rest(all.skip(i as int), separator@),
        decreases parts.len() - i,
    {
        proof {
            let rest = all.skip(i as int);
            assert(rest.drop_first() =~= all.skip(i + 1));
            assert(rest[0] == parts@[i as int]@);
            assert(text@ + (separator@ + rest[0] + joined_rest(all.skip(i + 1), separator@))
                =~= text@ + separator@ + rest[0] + joined_rest(all.skip(i + 1), separator@));
        }
        text.append(separator);
        text.append(parts[i].as_str());
        i = i + 1;
    }
    assert(all.skip(i as int) =~= seq![]);
    assert(text@ + joined_rest(all.skip(i as int), separator@) =~= text@);
    text
}

/// The leading items of `items` that are not `stop`.
pub open spec fn until<T>(items: Seq<T>, stop: T) -> Seq<T>
    decreases items.len(),
{
    if items.len() == 0 || items[0] == stop {
        seq![]
    } else {
        seq![items[0]] + until(items.drop_first(), stop)
    }
}

/// `until` takes the items before the first `stop`, or all of them.
pub proof fn lemma_until<T>(items: Seq<T>, stop: T, count: nat)
    requires
        count <= items.len(),
        forall|i: int| 0 <= i < count ==> items[i] != stop,
        count < items.len() ==> items[count as int] == stop,
    ensures
        until(items, stop) == items.take(count as int),
    decreases count,
{
    if count == 0 {
        assert(items.take(0) =~= seq![]);
    } else {
        lemma_until(items.drop_first(), stop, (count - 1) as nat);
        assert(seq![items[0]] + items.drop_first().take(count - 1) =~= items.take(count as int));
    }
}

/// The characters of a text.
pub fn chars_of(text: &str) -> (chars: Vec<char>)
    ensures
        chars@ == text@,
{
    let mut chars: Vec<char> = Vec::new();
    let length: usize = text.unicode_len();
    let mut letters = text.chars();
    let mut i: usize = 0;
    while i < length
        invariant
            i <= length == text@.len(),
            chars@ == text@.take(i as int),
            vstd::std_specs::iter::IteratorSpec::obeys_prophetic_iter_laws(&letters),
            vstd::std_specs::iter::IteratorSpec::remaining(&letters) == text@.skip(i as int),
        decreases length - i,
    {
        if let Some(letter) = letters.next() {
            chars.push(letter);
        }
        assert(text@.take(i + 1) =~= text@.take(i as int).push(text@[i as int]));
        assert(text@.skip(i as int).drop_first() =~= text@.skip(i + 1));
        i = i + 1;
    }
    assert(text@.take(i as int) =~= text@);
    chars
}

/// Whether two texts are the same.
pub fn same_text(left: &str, right: &str) -> (same: bool)
    ensures
        same == (left@ == right@),
{
    left.to_owned() == right.to_owned()
}

/// Whether `text` begins with `prefix`.
pub fn starts_with(text: &str, prefix: &str) -> (yes: bool)
    ensures
        yes == prefix@.is_prefix_of(text@),
{
    let length: usize = prefix.unicode_len();
    if length <= text.unicode_len() {
        same_text(text.substring_char(0, length), prefix)
    } else {
        false
    }
}

/// Whether no character of `text` breaks a line or ends a C string.
pub open spec fn one_line(text: Seq<char>) -> bool {
    forall|i: int| 0 <= i < text.len() ==> text[i] != '\n' && text[i] != '\r' && text[i] != '\0'
}

/// Whether `text` is [`one_line`].
pub fn is_one_line(text: &str) -> (yes: bool)
    ensures
        yes == one_line(text@),
{
    let chars = chars_of(text);
    let mut i: usize = 0;
    while i < chars.len()
        invariant
            i <= chars.len(),
            chars@ == text@,
            forall|k: int| 0 <= k < i ==> text@[k] != '\n' && text@[k] != '\r' && text@[k] != '\0',
        decreases chars.len() - i,
    {
        let letter = chars[i];
        if letter == '\n' || letter == '\r' || letter == '\0' {
            assert(text@[i as int] == letter);
            return false;
        }
        i = i + 1;
    }
    true
}

/// Whether Unicode counts a character as white space: the property `White_Space`.
pub open spec fn white_space(letter: char) -> bool {
    let code = letter as u32;
    ||| 0x9 <= code <= 0xd
    ||| code == 0x20
    ||| code == 0x85
    ||| code == 0xa0
    ||| code == 0x1680
    ||| 0x2000 <= code <= 0x200a
    ||| 0x2028 <= code <= 0x2029
    ||| code == 0x202f
    ||| code == 0x205f
    ||| code == 0x3000
}

/// Whether a character is [`white_space`].
pub fn is_white_space(letter: char) -> (yes: bool)
    ensures
        yes == white_space(letter),
{
    let code: u32 = letter as u32;
    (0x9 <= code && code <= 0xd) || code == 0x20 || code == 0x85 || code == 0xa0 || code == 0x1680
        || (0x2000 <= code && code <= 0x200a) || (0x2028 <= code && code <= 0x2029) || code
        == 0x202f || code == 0x205f || code == 0x3000
}

/// Whether `text` holds nothing but white space.
pub open spec fn blank(text: Seq<char>) -> bool {
    forall|i: int| 0 <= i < text.len() ==> white_space(#[trigger] text[i])
}

/// Whether `text` is [`blank`].
pub fn is_blank(text: &str) -> (yes: bool)
    ensures
        yes == blank(text@),
{
    let chars = chars_of(text);
    let mut i: usize = 0;
    while i < chars.len()
        invariant
            i <= chars.len(),
            chars@ == text@,
            forall|k: int| 0 <= k < i ==> white_space(#[trigger] text@[k]),
        decreases chars.len() - i,
    {
        if !is_white_space(chars[i]) {
            assert(!white_space(text@[i as int]));
            return false;
        }
        i = i + 1;
    }
    true
}

/// The first line of `text`, without the line feed, or the carriage return and
/// line feed, that ends it.
pub open spec fn first_line_of(text: Seq<char>) -> Seq<char> {
    let line = until(text, '\n');
    if line.len() < text.len() && line.len() > 0 && line.last() == '\r' {
        line.drop_last()
    } else {
        line
    }
}

/// The first line of a text.
pub fn first_line(text: &str) -> (line: &str)
    ensures
        line@ == first_line_of(text@),
{
    let chars = chars_of(text);
    let mut count: usize = 0;
    while count < chars.len() && chars[count] != '\n'
        invariant
            count <= chars.len(),
            chars@ == text@,
            forall|k: int| 0 <= k < count ==> text@[k] != '\n',
        decreases chars.len() - count,
    {
        count = count + 1;
    }
    proof {
        lemma_until(text@, '\n', count as nat);
    }
    if count < chars.len() && count > 0 && chars[count - 1] == '\r' {
        assert(text@.take(count as int).drop_last() =~= text@.take(count - 1));
        text.substring_char(0, count - 1)
    } else {
        text.substring_char(0, count)
    }
}

/// The octal digit that stands for a number under eight.
pub open spec fn octal_digit(number: nat) -> char {
    "01234567"@[number as int]
}

/// A number in octal, without leading zeros.
pub open spec fn octal_digits(number: nat) -> Seq<char>
    decreases number,
{
    if number < 8 {
        seq![octal_digit(number)]
    } else {
        octal_digits(number / 8).push(octal_digit(number % 8))
    }
}

/// A number in octal, with leading zeros up to four digits.
pub open spec fn octal_text(number: nat) -> Seq<char> {
    let digits = octal_digits(number);
    if digits.len() < 4 {
        Seq::new((4 - digits.len()) as nat, |i: int| '0') + digits
    } else {
        digits
    }
}

fn octal_plain(number: u32) -> (text: String)
    ensures
        text@ == octal_digits(number as nat),
    decreases number,
{
    let digit: usize = (number % 8) as usize;
    proof {
        reveal_strlit("01234567");
    }
    let last = "01234567".substring_char(digit, digit + 1);
    assert(last@ =~= seq![octal_digit((number % 8) as nat)]);
    if number < 8 {
        last.to_owned()
    } else {
        let mut text = octal_plain(number / 8);
        text.append(last);
        assert(text@ =~= octal_digits(number as nat));
        text
    }
}

/// Writes a number in octal, with leading zeros up to four digits.
pub fn octal(number: u32) -> (text: String)
    ensures
        text@ == octal_text(number as nat),
{
    let digits = octal_plain(number);
    let mut text = String::new();
    let mut length: usize = digits.as_str().unicode_len();
    let ghost count = length;
    while length < 4
        invariant
            count == digits@.len(),
            count <= length <= 4 || length == count,
            text@ == Seq::new((length - count) as nat, |i: int| '0'),
        decreases 4 - length,
    {
        text.append("0");
        proof {
            reveal_strlit("0");
            assert(text@ =~= Seq::new((length + 1 - count) as nat, |i: int| '0'));
        }
        length = length + 1;
    }
    text.append(digits.as_str());
    assert(text@ =~= octal_text(number as nat));
    text
}

} // verus!
