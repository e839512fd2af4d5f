//! What holds of the texts and paths that operations are made of.
use vstd::prelude::*;

use crate::path;
use crate::text;

verus! {

/// The number that octal digits stand for.
pub open spec fn octal_value(digits: Seq<char>) -> int
    decreases digits.len(),
{
    if digits.len() == 0 {
        0
    } else {
        octal_value(digits.drop_last()) * 8 + (digits.last() as int - 0x30)
    }
}

/// Whether a text has nothing but octal digits.
pub open spec fn is_octal(digits: Seq<char>) -> bool {
    forall|i: int| 0 <= i < digits.len() ==> 0x30 <= #[trigger] digits[i] as int <= 0x37
}

proof fn digits_are_the_number(number: nat)
    ensures
        octal_value(text::octal_digits(number)) == number,
        is_octal(text::octal_digits(number)),
        text::octal_digits(number).len() > 0,
        text::octal_digits(number)[0] == '0' ==> text::octal_digits(number).len() == 1,
        number > 0 ==> text::octal_digits(number)[0] != '0',
    decreases number,
{
    reveal_strlit("01234567");
    let digits = text::octal_digits(number);
    assert(text::octal_digit(number % 8) as int == 0x30 + number % 8);
    if number < 8 {
        assert(digits.drop_last() =~= seq![]);
        assert(octal_value(digits.drop_last()) == 0);
    } else {
        let front = text::octal_digits(number / 8);
        digits_are_the_number(number / 8);
        assert(digits.drop_last() =~= front);
        assert(digits[0] == front[0]);
        assert forall|i: int| 0 <= i < digits.len() implies 0x30 <= #[trigger] digits[i] as int
            <= 0x37 by {
            if i < front.len() {
                assert(digits[i] == front[i]);
            }
        }
    }
}

proof fn zeros_in_front(count: nat, digits: Seq<char>)
    ensures
        octal_value(Seq::new(count, |i: int| '0') + digits) == octal_value(digits),
    decreases digits.len(), count,
{
    let zeros = Seq::new(count, |i: int| '0');
    if digits.len() > 0 {
        assert((zeros + digits).drop_last() =~= zeros + digits.drop_last());
        zeros_in_front(count, digits.drop_last());
    } else if count > 0 {
        assert((zeros + digits).drop_last() =~= Seq::new((count - 1) as nat, |i: int| '0')
            + digits);
        zeros_in_front((count - 1) as nat, digits);
    } else {
        assert(zeros + digits =~= digits);
    }
}

/// A number in octal has at least four digits, no more leading zeros than that takes,
/// and is the number.
pub proof fn octal_texts_are_the_number(number: nat)
    ensures
        octal_value(text::octal_text(number)) == number,
        is_octal(text::octal_text(number)),
        text::octal_text(number).len() >= 4,
        text::octal_text(number).len() > 4 ==> text::octal_text(number)[0] != '0',
{
    let digits = text::octal_digits(number);
    digits_are_the_number(number);
    if digits.len() < 4 {
        let count = (4 - digits.len()) as nat;
        let zeros = Seq::new(count, |i: int| '0');
        zeros_in_front(count, digits);
        let whole = zeros + digits;
        assert forall|i: int| 0 <= i < whole.len() implies 0x30 <= #[trigger] whole[i] as int
            <= 0x37 by {
            if i >= count {
                assert(whole[i] == digits[i - count]);
            }
        }
    }
}

/// The first line of a text goes up to its first line feed, without a carriage return
/// just before that; a text without a line feed is its first line.
pub proof fn first_lines_end_at_line_feeds(text: Seq<char>, end: int)
    requires
        0 <= end <= text.len(),
        forall|i: int| 0 <= i < end ==> text[i] != '\n',
        end < text.len() ==> text[end] == '\n',
    ensures
        text::first_line_of(text) == if 0 < end < text.len() && text[end - 1] == '\r' {
            text.take(end - 1)
        } else {
            text.take(end)
        },
{
    text::lemma_until(text, '\n', end as nat);
    if end > 0 {
        assert(text.take(end).drop_last() =~= text.take(end - 1));
        assert(text.take(end).last() == text[end - 1]);
    }
}

proof fn rest_with_one_more(parts: Seq<Seq<char>>, separator: Seq<char>, last: Seq<char>)
    ensures
        text::joined_rest(parts.push(last), separator) == text::joined_rest(parts, separator)
            + separator + last,
    decreases parts.len(),
{
    let more = parts.push(last);
    if parts.len() == 0 {
        assert(more.drop_first() =~= seq![]);
        reveal_with_fuel(text::joined_rest, 2);
        assert(separator + last + seq![] =~= seq![] + separator + last);
    } else {
        rest_with_one_more(parts.drop_first(), separator, last);
        assert(more.drop_first() =~= parts.drop_first().push(last));
        let rest = text::joined_rest(parts.drop_first(), separator);
        assert(separator + parts[0] + (rest + separator + last) =~= (separator + parts[0] + rest)
            + separator + last);
    }
}

/// Nothing joined is nothing, one part joined is that part, and a further part comes
/// behind the separator.
pub proof fn parts_are_joined_in_order(
    parts: Seq<Seq<char>>,
    separator: Seq<char>,
    last: Seq<char>,
)
    ensures
        text::joined(seq![], separator) == Seq::<char>::empty(),
        text::joined(seq![last], separator) == last,
        parts.len() > 0 ==> text::joined(parts.push(last), separator) == text::joined(
            parts,
            separator,
        ) + separator + last,
{
    assert(seq![last].drop_first() =~= seq![]);
    assert(text::joined(seq![last], separator) =~= last);
    if parts.len() > 0 {
        rest_with_one_more(parts.drop_first(), separator, last);
        assert(parts.push(last).drop_first() =~= parts.drop_first().push(last));
        let rest = text::joined_rest(parts.drop_first(), separator);
        assert(parts[0] + (rest + separator + last) =~= (parts[0] + rest) + separator + last);
    }
}

/// A name goes below a directory behind one slash; a name that begins with a slash is
/// a path of its own.
pub proof fn names_go_below(base: Seq<char>, name: Seq<char>)
    ensures
        path::below(base, name) == if name.len() > 0 && name[0] == '/' {
            name
        } else if base.len() == 0 || base.last() == '/' {
            base + name
        } else {
            base + "/"@ + name
        },
{
    reveal_strlit("/");
    assert(base + "/"@ + name =~= base.push('/') + name);
}

/// A name goes below a directory behind one slash; a name that begins with a slash is
/// a path of its own. This is so in bytes too.
pub proof fn raw_names_go_below(base: Seq<u8>, name: Seq<u8>)
    ensures
        path::below_raw(base, name) == if name.len() > 0 && name[0] == 0x2f {
            name
        } else if base.len() == 0 || base.last() == 0x2f {
            base + name
        } else {
            base + seq![0x2fu8] + name
        },
{
    assert(base + seq![0x2fu8] + name =~= base.push(0x2fu8) + name);
}

/// Whether a name is one that a path goes through.
pub open spec fn is_step(name: Seq<u8>) -> bool {
    &&& name.len() > 0
    &&& name != seq![0x2eu8]
    &&& !name.contains(0x2fu8)
}

/// The path from the root through some names.
pub open spec fn path_through(names: Seq<Seq<u8>>) -> Seq<u8>
    decreases names.len(),
{
    if names.len() == 0 {
        seq![]
    } else {
        path_through(names.drop_last()) + seq![0x2fu8] + names.last()
    }
}

proof fn step_then(name: Seq<u8>, rest: Seq<u8>, in_front: bool)
    requires
        is_step(name),
        rest.len() == 0 || rest[0] == 0x2fu8,
    ensures
        path::steps(name + rest, in_front) == seq![name] + if rest.len() == 0 {
            seq![]
        } else {
            path::steps(rest.skip(1), false)
        },
{
    let whole = name + rest;
    assert forall|i: int| 0 <= i < name.len() implies whole[i] != 0x2fu8 by {
        assert(name.contains(name[i]));
    }
    text::lemma_until(whole, 0x2fu8, name.len());
    assert(whole.take(name.len() as int) =~= name);
    if rest.len() > 0 {
        assert(whole.skip(name.len() as int + 1) =~= rest.skip(1));
    } else {
        assert(seq![name] + seq![] =~= seq![name]);
    }
}

proof fn slash_then(rest: Seq<u8>, in_front: bool)
    ensures
        path::steps(seq![0x2fu8] + rest, in_front) == path::steps(rest, false),
{
    let whole = seq![0x2fu8] + rest;
    text::lemma_until(whole, 0x2fu8, 0);
    assert(whole.take(0) =~= seq![]);
    assert(whole.skip(1) =~= rest);
    assert(seq![] + path::steps(rest, false) =~= path::steps(rest, false));
}

/// The same path forwards: through the first name, and on through the others.
spec fn forwards(names: Seq<Seq<u8>>) -> Seq<u8>
    decreases names.len(),
{
    if names.len() == 0 {
        seq![]
    } else {
        seq![0x2fu8] + (names[0] + forwards(names.drop_first()))
    }
}

proof fn forwards_with_one_more(names: Seq<Seq<u8>>, last: Seq<u8>)
    ensures
        forwards(names.push(last)) == forwards(names) + seq![0x2fu8] + last,
    decreases names.len(),
{
    let more = names.push(last);
    if names.len() == 0 {
        assert(more.drop_first() =~= seq![]);
        reveal_with_fuel(forwards, 2);
        assert(forwards(more) =~= forwards(names) + seq![0x2fu8] + last);
    } else {
        forwards_with_one_more(names.drop_first(), last);
        assert(more.drop_first() =~= names.drop_first().push(last));
        assert(forwards(more) =~= forwards(names) + seq![0x2fu8] + last);
    }
}

proof fn forwards_is_path(names: Seq<Seq<u8>>)
    ensures
        forwards(names) == path_through(names),
    decreases names.len(),
{
    if names.len() > 0 {
        forwards_is_path(names.drop_last());
        forwards_with_one_more(names.drop_last(), names.last());
        assert(names.drop_last().push(names.last()) =~= names);
    }
}

proof fn steps_of_forwards(names: Seq<Seq<u8>>, in_front: bool)
    requires
        forall|i: int| 0 <= i < names.len() ==> is_step(#[trigger] names[i]),
        names.len() > 0,
    ensures
        path::steps(forwards(names), in_front) == names,
    decreases names.len(),
{
    let others = names.drop_first();
    let rest = forwards(others);
    slash_then(names[0] + rest, in_front);
    assert forall|i: int| 0 <= i < others.len() implies is_step(#[trigger] others[i]) by {
        assert(others[i] == names[i + 1]);
    }
    assert(is_step(names[0]));
    step_then(names[0], rest, false);
    if others.len() > 0 {
        steps_of_forwards(others, false);
        let next = others[0] + forwards(others.drop_first());
        slash_then(next, false);
        assert(rest.skip(1) =~= next);
        assert(path::steps(rest, false) == path::steps(next, false));
        assert(seq![names[0]] + others =~= names);
    } else {
        assert(seq![names[0]] + seq![] =~= names);
    }
}

/// Two paths from the root are the same if and only if they go through the same names.
pub proof fn paths_are_their_names(one: Seq<Seq<u8>>, other: Seq<Seq<u8>>)
    requires
        one.len() > 0,
        other.len() > 0,
        forall|i: int| 0 <= i < one.len() ==> is_step(#[trigger] one[i]),
        forall|i: int| 0 <= i < other.len() ==> is_step(#[trigger] other[i]),
    ensures
        path::same_way(path_through(one), path_through(other)) <==> one == other,
{
    forwards_is_path(one);
    forwards_is_path(other);
    steps_of_forwards(one, true);
    steps_of_forwards(other, true);
}

/// More slashes than one, and single dots on the way, lead nowhere else.
pub proof fn paths_may_be_written_loosely(rest: Seq<u8>)
    ensures
        path::steps(seq![0x2fu8] + rest, true) == path::steps(rest, false),
        path::steps(seq![0x2fu8] + rest, false) == path::steps(rest, false),
        path::steps(seq![0x2eu8, 0x2fu8] + rest, false) == path::steps(rest, false),
        path::steps(seq![0x2eu8], false) == Seq::<Seq<u8>>::empty(),
        path::steps(seq![], true) == Seq::<Seq<u8>>::empty(),
        path::steps(seq![0x2eu8, 0x2fu8] + rest, true) == seq![seq![0x2eu8]] + path::steps(
            rest,
            false,
        ),
        forall|name: Seq<u8>, in_front: bool| #[trigger]
            is_step(name) ==> #[trigger] path::steps(
                name + (seq![0x2fu8] + rest),
                in_front,
            ) == seq![name] + path::steps(rest, false),
{
    slash_then(rest, true);
    slash_then(rest, false);
    let dotted = seq![0x2eu8, 0x2fu8] + rest;
    text::lemma_until(dotted, 0x2fu8, 1);
    assert(dotted.take(1) =~= seq![0x2eu8]);
    assert(dotted.skip(2) =~= rest);
    assert(seq![] + path::steps(rest, false) =~= path::steps(rest, false));
    let dot = seq![0x2eu8];
    text::lemma_until(dot, 0x2fu8, 1);
    assert(dot.take(1) =~= dot);
    text::lemma_until(Seq::<u8>::empty(), 0x2fu8, 0);
    assert forall|name: Seq<u8>, in_front: bool| #[trigger]
        is_step(name) implies #[trigger] path::steps(
        name + (seq![0x2fu8] + rest),
        in_front,
    ) == seq![name] + path::steps(rest, false) by {
        step_then(name, seq![0x2fu8] + rest, in_front);
        assert((seq![0x2fu8] + rest).skip(1) =~= rest);
    }
}

/// Of two paths that are the same up to some byte, the one that ends there comes
/// first, and else the one whose next byte is smaller.
pub proof fn the_first_difference_decides(one: Seq<u8>, other: Seq<u8>, same: int)
    requires
        0 <= same <= one.len(),
        same <= other.len(),
        one.take(same) == other.take(same),
        same == one.len() || same == other.len() || one[same] != other[same],
    ensures
        path::no_later(one, other) <==> (same == one.len() || (same < other.len() && one[same]
            < other[same])),
    decreases same,
{
    if same > 0 {
        assert(one[0] == one.take(same)[0] && other[0] == other.take(same)[0]);
        assert(one.drop_first().take(same - 1) =~= one.take(same).drop_first());
        assert(other.drop_first().take(same - 1) =~= other.take(same).drop_first());
        the_first_difference_decides(one.drop_first(), other.drop_first(), same - 1);
    }
}

/// Paths that are put in order are the same paths, each as often as before, and none
/// comes later than one behind it.
pub proof fn order_keeps_every_path(paths: Seq<Seq<u8>>)
    ensures
        path::in_order(paths).to_multiset() == paths.to_multiset(),
        forall|i: int, j: int|
            0 <= i < j < path::in_order(paths).len() ==> path::no_later(
                #[trigger] path::in_order(paths)[i],
                #[trigger] path::in_order(paths)[j],
            ),
{
    let order = path::byte_order();
    let sorted = path::in_order(paths);
    path::byte_order_is_total();
    paths.lemma_sort_by_ensures(order);
    assert forall|i: int, j: int| 0 <= i < j < sorted.len() implies path::no_later(
        #[trigger] sorted[i],
        #[trigger] sorted[j],
    ) by {
        assert(order(sorted[i], sorted[j]));
    }
}

} // verus!
