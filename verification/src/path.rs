//! Paths: how they are put together, when two are the same, and their order.
use vstd::prelude::*;

use crate::text;

verus! {

broadcast use crate::request::bytes_are_their_items;

/// `name` below `base`, both of characters or of bytes: the separator goes
/// between them unless `base` already ends with it, and a `name` that begins
/// with it replaces `base`.
pub open spec fn adjoined<T>(base: Seq<T>, name: Seq<T>, separator: T) -> Seq<T> {
    if name.len() > 0 && name[0] == separator {
        name
    } else if base.len() == 0 || base.last() == separator {
        base + name
    } else {
        base.push(separator) + name
    }
}

/// The path of `name` below `base`.
pub open spec fn below(base: Seq<char>, name: Seq<char>) -> Seq<char> {
    adjoined(base, name, '/')
}

/// The path of `name` below `base`, in bytes.
pub open spec fn below_raw(base: Seq<u8>, name: Seq<u8>) -> Seq<u8> {
    adjoined(base, name, 0x2fu8)
}

/// Adjoins `name` to `base`.
pub fn join(base: &str, name: &str) -> (path: String)
    ensures
        path@ == below(base@, name@),
{
    proof {
        reveal_strlit("/");
    }
    if text::starts_with(name, "/") {
        assert(name@.subrange(0, 1)[0] == '/');
        return name.to_owned();
    }
    assert(!(name@.len() > 0 && name@[0] == '/')) by {
        if name@.len() > 0 && name@[0] == '/' {
            assert("/"@ =~= name@.subrange(0, 1));
        }
    }
    let length: usize = base.unicode_len();
    if length == 0 || base.get_char(length - 1) == '/' {
        base.to_owned().concat(name)
    } else {
        let path = base.to_owned().concat("/").concat(name);
        assert(base@ + "/"@ =~= base@.push('/'));
        path
    }
}

/// A copy of some bytes.
pub fn copy_bytes(bytes: &[u8]) -> (copy: Vec<u8>)
    ensures
        copy@ == bytes@,
{
    let mut copy: Vec<u8> = Vec::new();
    append_bytes(&mut copy, bytes);
    copy
}

/// Puts `more` at the end of `bytes`.
pub fn append_bytes(bytes: &mut Vec<u8>, more: &[u8])
    ensures
        final(bytes)@ == old(bytes)@ + more@,
{
    let mut i: usize = 0;
    while i < more.len()
        invariant
            i <= more.len(),
            bytes@ == old(bytes)@ + more@.take(i as int),
        decreases more.len() - i,
    {
        bytes.push(more[i]);
        assert(more@.take(i + 1) =~= more@.take(i as int).push(more@[i as int]));
        i = i + 1;
    }
    assert(more@.take(i as int) =~= more@);
}

/// Adjoins `name` to `base`, in bytes.
pub fn join_raw(base: &Vec<u8>, name: &[u8]) -> (path: Vec<u8>)
    ensures
        path@ == below_raw(base@, name@),
{
    if name.len() > 0 && name[0] == 0x2fu8 {
        return copy_bytes(name);
    }
    let mut path = copy_bytes(base.as_slice());
    if base.len() > 0 && base[base.len() - 1] != 0x2fu8 {
        path.push(0x2fu8);
    }
    append_bytes(&mut path, name);
    path
}

/// Whether a path starts at the root.
pub open spec fn rooted(path: Seq<u8>) -> bool {
    path.len() > 0 && path[0] == 0x2fu8
}

/// The names that a path goes through: empty ones are left out, and so are
/// single dots but for one in front.
pub open spec fn steps(path: Seq<u8>, in_front: bool) -> Seq<Seq<u8>>
    decreases path.len(),
{
    let name = text::until(path, 0x2fu8);
    let kept = if name.len() == 0 || (name == seq![0x2eu8] && !in_front) {
        seq![]
    } else {
        seq![name]
    };
    if name.len() < path.len() {
        kept + steps(path.skip(name.len() as int + 1), false)
    } else {
        kept
    }
}

/// Whether two paths go the same way.
pub open spec fn same_way(left: Seq<u8>, right: Seq<u8>) -> bool {
    rooted(left) == rooted(right) && steps(left, true) == steps(right, true)
}

fn steps_of(path: &[u8]) -> (names: Vec<Vec<u8>>)
    ensures
        names.deep_view() == steps(path@, true),
{
    let mut names: Vec<Vec<u8>> = Vec::new();
    let mut start: usize = 0;
    let mut more = true;
    assert(path@.skip(0) =~= path@);
    assert(names.deep_view() =~= seq![]);
    while more
        invariant
            start <= path.len(),
            more ==> steps(path@, true) == names.deep_view() + steps(
                path@.skip(start as int),
                start == 0,
            ),
            !more ==> steps(path@, true) == names.deep_view(),
        decreases path.len() - start + if more { 1int } else { 0 },
    {
        let ghost rest = path@.skip(start as int);
        let ghost before = names.deep_view();
        let mut end: usize = start;
        let mut name: Vec<u8> = Vec::new();
        while end < path.len() && path[end] != 0x2fu8
            invariant
                start <= end <= path.len(),
                rest == path@.skip(start as int),
                name@ == rest.take(end - start),
                forall|k: int| 0 <= k < end - start ==> rest[k] != 0x2fu8,
            decreases path.len() - end,
        {
            name.push(path[end]);
            assert(rest.take(end + 1 - start) =~= rest.take(end - start).push(rest[end - start]));
            end = end + 1;
        }
        proof {
            text::lemma_until(rest, 0x2fu8, (end - start) as nat);
        }
        let dot = name.len() == 1 && name[0] == 0x2eu8;
        assert(dot == (name@ == seq![0x2eu8])) by {
            if dot {
                assert(name@ =~= seq![0x2eu8]);
            }
        }
        if name.len() > 0 && !(dot && start > 0) {
            names.push(name);
            assert(names.deep_view() =~= before.push(name@));
        }
        if end < path.len() {
            assert(rest.skip(end - start + 1) =~= path@.skip(end + 1));
            start = end + 1;
            assert(steps(path@, true) =~= names.deep_view() + steps(
                path@.skip(start as int),
                false,
            ));
        } else {
            more = false;
            assert(steps(path@, true) =~= names.deep_view());
        }
    }
    names
}

fn same_bytes(left: &Vec<u8>, right: &Vec<u8>) -> (same: bool)
    ensures
        same == (left@ == right@),
{
    if left.len() != right.len() {
        return false;
    }
    let mut i: usize = 0;
    while i < left.len()
        invariant
            i <= left.len() == right.len(),
            forall|k: int| 0 <= k < i ==> left@[k] == right@[k],
        decreases left.len() - i,
    {
        if left[i] != right[i] {
            return false;
        }
        i = i + 1;
    }
    assert(left@ =~= right@);
    true
}

/// Whether two paths go the same way, name by name.
pub fn same_path(left: &[u8], right: &[u8]) -> (same: bool)
    ensures
        same == same_way(left@, right@),
{
    let left_rooted = left.len() > 0 && left[0] == 0x2fu8;
    let right_rooted = right.len() > 0 && right[0] == 0x2fu8;
    let left_steps = steps_of(left);
    let right_steps = steps_of(right);
    let ghost one = left_steps.deep_view();
    let ghost other = right_steps.deep_view();
    assert(one.len() == left_steps.len() && other.len() == right_steps.len());
    if left_rooted != right_rooted || left_steps.len() != right_steps.len() {
        return false;
    }
    let mut i: usize = 0;
    while i < left_steps.len()
        invariant
            i <= left_steps.len() == right_steps.len(),
            one == left_steps.deep_view(),
            one == steps(left@, true),
            other == right_steps.deep_view(),
            other == steps(right@, true),
            forall|k: int| 0 <= k < i ==> one[k] == other[k],
        decreases left_steps.len() - i,
    {
        if !same_bytes(&left_steps[i], &right_steps[i]) {
            assert(one[i as int] != other[i as int]);
            return false;
        }
        assert(one[i as int] == other[i as int]);
        i = i + 1;
    }
    assert(one =~= other);
    true
}

/// Whether `left` comes no later than `right` where bytes are compared one by
/// one and a beginning comes before what it begins.
pub open spec fn no_later(left: Seq<u8>, right: Seq<u8>) -> bool
    decreases left.len(),
{
    ||| left.len() == 0
    ||| {
        &&& right.len() > 0
        &&& {
            ||| left[0] < right[0]
            ||| left[0] == right[0] && no_later(left.drop_first(), right.drop_first())
        }
    }
}

/// [`no_later`] as a relation.
pub open spec fn byte_order() -> spec_fn(Seq<u8>, Seq<u8>) -> bool {
    |left: Seq<u8>, right: Seq<u8>| no_later(left, right)
}

/// The paths in order.
pub open spec fn in_order(paths: Seq<Seq<u8>>) -> Seq<Seq<u8>> {
    paths.sort_by(byte_order())
}

proof fn lemma_reflexive(a: Seq<u8>)
    ensures
        no_later(a, a),
    decreases a.len(),
{
    if a.len() > 0 {
        lemma_reflexive(a.drop_first());
    }
}

proof fn lemma_antisymmetric(a: Seq<u8>, b: Seq<u8>)
    requires
        no_later(a, b),
        no_later(b, a),
    ensures
        a == b,
    decreases a.len(),
{
    if a.len() > 0 && b.len() > 0 {
        lemma_antisymmetric(a.drop_first(), b.drop_first());
        assert(a =~= seq![a[0]] + a.drop_first());
        assert(b =~= seq![b[0]] + b.drop_first());
    } else {
        assert(a =~= b);
    }
}

proof fn lemma_transitive(a: Seq<u8>, b: Seq<u8>, c: Seq<u8>)
    requires
        no_later(a, b),
        no_later(b, c),
    ensures
        no_later(a, c),
    decreases a.len(),
{
    if a.len() > 0 && a[0] == b[0] && b[0] == c[0] {
        lemma_transitive(a.drop_first(), b.drop_first(), c.drop_first());
    }
}

proof fn lemma_total(a: Seq<u8>, b: Seq<u8>)
    ensures
        no_later(a, b) || no_later(b, a),
    decreases a.len(),
{
    if a.len() > 0 && b.len() > 0 && a[0] == b[0] {
        lemma_total(a.drop_first(), b.drop_first());
    }
}

/// The order of paths is total: any two can be compared, and only equal ones
/// come no later than each other.
pub proof fn byte_order_is_total()
    ensures
        vstd::relations::total_ordering(byte_order()),
{
    let order = byte_order();
    assert forall|a: Seq<u8>| #[trigger] order(a, a) by {
        lemma_reflexive(a);
    }
    assert forall|a: Seq<u8>, b: Seq<u8>| #[trigger] order(a, b) && #[trigger] order(b, a) implies a
        == b by {
        lemma_antisymmetric(a, b);
    }
    assert forall|a: Seq<u8>, b: Seq<u8>, c: Seq<u8>|
        #[trigger] order(a, b) && #[trigger] order(b, c) implies order(a, c) by {
        lemma_transitive(a, b, c);
    }
    assert forall|a: Seq<u8>, b: Seq<u8>| #[trigger] order(a, b) || #[trigger] order(b, a) by {
        lemma_total(a, b);
    }
}

fn comes_no_later(left: &Vec<u8>, right: &Vec<u8>) -> (yes: bool)
    ensures
        yes == no_later(left@, right@),
{
    let mut i: usize = 0;
    assert(left@.skip(0) =~= left@);
    assert(right@.skip(0) =~= right@);
    while i < left.len()
        invariant
            i <= left.len(),
            i <= right.len(),
            no_later(left@, right@) == no_later(left@.skip(i as int), right@.skip(i as int)),
        decreases left.len() - i,
    {
        if i == right.len() {
            return false;
        }
        if left[i] != right[i] {
            return left[i] < right[i];
        }
        assert(left@.skip(i as int).drop_first() =~= left@.skip(i + 1));
        assert(right@.skip(i as int).drop_first() =~= right@.skip(i + 1));
        i = i + 1;
    }
    true
}

/// Puts `path` among paths that are in order, so that they still are.
fn insert_in_order(paths: &mut Vec<Vec<u8>>, path: Vec<u8>)
    requires
        vstd::relations::sorted_by(old(paths).deep_view(), byte_order()),
    ensures
        vstd::relations::sorted_by(final(paths).deep_view(), byte_order()),
        final(paths).deep_view().to_multiset() == old(paths).deep_view().to_multiset().insert(
            path@,
        ),
{
    let ghost before = paths.deep_view();
    let mut place: usize = 0;
    while place < paths.len() && comes_no_later(&paths[place], &path)
        invariant
            place <= paths.len(),
            paths.deep_view() == before,
            forall|k: int| 0 <= k < place ==> no_later(#[trigger] before[k], path@),
        decreases paths.len() - place,
    {
        assert(before[place as int] == paths@[place as int]@);
        place = place + 1;
    }
    proof {
        if place < paths.len() {
            assert(before[place as int] == paths@[place as int]@);
            lemma_total(before[place as int], path@);
        }
        let order = byte_order();
        let after = before.insert(place as int, path@);
        byte_order_is_total();
        assert forall|i: int, j: int| 0 <= i < j < after.len() implies #[trigger] order(
            after[i],
            after[j],
        ) by {
            let first = if i < place { i } else { i - 1 };
            let second = if j < place { j } else { j - 1 };
            if i != place && j != place {
                assert(order(before[first], before[second]));
            } else if i == place {
                assert(order(path@, before[place as int]));
                if place < second {
                    assert(order(before[place as int], before[second]));
                }
            }
        }
        vstd::seq_lib::to_multiset_insert(before, place as int, path@);
    }
    paths.insert(place, path);
    assert(paths.deep_view() =~= before.insert(place as int, path@));
}

/// Sorts paths.
pub fn sort(paths: Vec<Vec<u8>>) -> (sorted: Vec<Vec<u8>>)
    ensures
        sorted.deep_view() == in_order(paths.deep_view()),
{
    broadcast use vstd::multiset::group_multiset_axioms;
    broadcast use vstd::seq_lib::group_to_multiset_ensures;

    let ghost all = paths.deep_view();
    let mut left = paths;
    let mut sorted: Vec<Vec<u8>> = Vec::new();
    assert(sorted.deep_view().to_multiset() =~= vstd::multiset::Multiset::empty());
    assert(all.to_multiset() =~= left.deep_view().to_multiset().add(
        sorted.deep_view().to_multiset(),
    ));
    while left.len() > 0
        invariant
            vstd::relations::sorted_by(sorted.deep_view(), byte_order()),
            all.to_multiset() == left.deep_view().to_multiset().add(
                sorted.deep_view().to_multiset(),
            ),
        decreases left.len(),
    {
        let ghost before = left.deep_view();
        if let Some(path) = left.pop() {
            proof {
                assert(before =~= left.deep_view().push(path@));
                vstd::seq_lib::to_multiset_build(left.deep_view(), path@);
                assert(all.to_multiset() =~= left.deep_view().to_multiset().add(
                    sorted.deep_view().to_multiset().insert(path@),
                ));
            }
            insert_in_order(&mut sorted, path);
        }
    }
    proof {
        byte_order_is_total();
        assert(left.deep_view().to_multiset() =~= vstd::multiset::Multiset::empty());
        assert(all.to_multiset() =~= sorted.deep_view().to_multiset());
        all.lemma_sort_by_ensures(byte_order());
        vstd::seq_lib::lemma_sorted_unique(sorted.deep_view(), in_order(all), byte_order());
    }
    sorted
}

} // verus!
