//! Texts in order.

use crate::model::Model;
use crate::text::smol_same;
use smol_str::SmolStr;
use vstd::prelude::*;
use vstd::relations::*;
use vstd::string::*;

verus! {

broadcast use crate::model::group_models;

/// Whether `a` is not behind `b` in the order of texts: at the first character in
/// which they differ the one with the smaller code point comes first, and a text
/// comes before those that go on behind it.
pub open spec fn not_behind(a: Seq<char>, b: Seq<char>) -> bool
    decreases a.len(),
{
    if a.len() == 0 {
        true
    } else if b.len() == 0 {
        false
    } else if a[0] == b[0] {
        not_behind(a.skip(1), b.skip(1))
    } else {
        (a[0] as int) < (b[0] as int)
    }
}

/// The order of texts.
pub open spec fn text_order() -> spec_fn(Seq<char>, Seq<char>) -> bool {
    |a: Seq<char>, b: Seq<char>| not_behind(a, b)
}

/// The texts in order.
pub open spec fn in_order(texts: Seq<Seq<char>>) -> Seq<Seq<char>> {
    texts.sort_by(text_order())
}

proof fn not_behind_itself(a: Seq<char>)
    ensures
        not_behind(a, a),
    decreases a.len(),
{
    if a.len() > 0 {
        not_behind_itself(a.skip(1));
    }
}

proof fn not_behind_both_ways(a: Seq<char>, b: Seq<char>)
    requires
        not_behind(a, b),
        not_behind(b, a),
    ensures
        a == b,
    decreases a.len(),
{
    if a.len() > 0 && b.len() > 0 {
        not_behind_both_ways(a.skip(1), b.skip(1));
        assert(a =~= seq![a[0]] + a.skip(1));
        assert(b =~= seq![b[0]] + b.skip(1));
    } else {
        assert(a =~= b);
    }
}

proof fn not_behind_either_way(a: Seq<char>, b: Seq<char>)
    ensures
        not_behind(a, b) || not_behind(b, a),
    decreases a.len(),
{
    if a.len() > 0 && b.len() > 0 {
        not_behind_either_way(a.skip(1), b.skip(1));
    }
}

proof fn not_behind_through(a: Seq<char>, b: Seq<char>, c: Seq<char>)
    requires
        not_behind(a, b),
        not_behind(b, c),
    ensures
        not_behind(a, c),
    decreases a.len(),
{
    if a.len() > 0 && b.len() > 0 && c.len() > 0 && a[0] == b[0] && b[0] == c[0] {
        not_behind_through(a.skip(1), b.skip(1), c.skip(1));
    }
}

/// The order of texts is total.
pub proof fn text_order_is_total()
    ensures
        total_ordering(text_order()),
{
    let le = text_order();
    assert forall|a: Seq<char>| #[trigger] le(a, a) by {
        not_behind_itself(a);
    }
    assert forall|a: Seq<char>, b: Seq<char>| #[trigger] le(a, b) && #[trigger] le(b, a) implies a
        == b by {
        not_behind_both_ways(a, b);
    }
    assert forall|a: Seq<char>, b: Seq<char>, c: Seq<char>| #[trigger]
        le(a, b) && #[trigger] le(b, c) implies le(a, c) by {
        not_behind_through(a, b, c);
    }
    assert forall|a: Seq<char>, b: Seq<char>| #[trigger] le(a, b) || #[trigger] le(b, a) by {
        not_behind_either_way(a, b);
    }
}

/// `sort` of the standard library on a vector of strings: the same strings, each as
/// often as before, and none in front of one that it is behind of. Strings are
/// ordered by their bytes there, which orders them by the code points of their
/// characters.
#[verifier::external_body]
fn sort_strings(texts: &mut Vec<String>)
    ensures
        final(texts).model().to_multiset() == old(texts).model().to_multiset(),
        sorted_by(final(texts).model(), text_order()),
{
    texts.sort()
}

/// Brings texts in order.
pub fn sort_texts(texts: Vec<String>) -> (r: Vec<String>)
    ensures
        r.model() == in_order(texts.model()),
{
    let mut sorted = texts;
    sort_strings(&mut sorted);
    proof {
        text_order_is_total();
        texts.model().lemma_sort_by_ensures(text_order());
        vstd::seq_lib::lemma_sorted_unique(sorted.model(), in_order(texts.model()), text_order());
    }
    sorted
}

/// How many of the entries, from the first on, `name` is behind of.
pub open spec fn place_of<V>(entries: Seq<(Seq<char>, V)>, name: Seq<char>) -> nat
    decreases entries.len(),
{
    if entries.len() == 0 || not_behind(name, entries[0].0) {
        0
    } else {
        1 + place_of(entries.skip(1), name)
    }
}

/// The entries with one more in its place. One of the same name is replaced.
pub open spec fn inserted<V>(entries: Seq<(Seq<char>, V)>, name: Seq<char>, value: V) -> Seq<
    (Seq<char>, V),
> {
    let place = place_of(entries, name) as int;
    if place < entries.len() && entries[place].0 == name {
        entries.update(place, (name, value))
    } else {
        entries.insert(place, (name, value))
    }
}

/// The entries in the order of their names. Of several of the same name the last
/// counts.
pub open spec fn by_name<V>(entries: Seq<(Seq<char>, V)>) -> Seq<(Seq<char>, V)>
    decreases entries.len(),
{
    if entries.len() == 0 {
        Seq::empty()
    } else {
        inserted(by_name(entries.drop_last()), entries.last().0, entries.last().1)
    }
}

/// Whether entries are in the order of their names, and no name occurs twice.
pub open spec fn in_name_order<V>(entries: Seq<(Seq<char>, V)>) -> bool {
    forall|i: int, j: int|
        0 <= i < j < entries.len() ==> not_behind(
            (#[trigger] entries[i]).0,
            (#[trigger] entries[j]).0,
        ) && entries[i].0 != entries[j].0
}

/// The place of a name is behind the entries that it is behind of, and in front of
/// the first that it is not.
proof fn place_of_splits<V>(entries: Seq<(Seq<char>, V)>, name: Seq<char>)
    ensures
        place_of(entries, name) <= entries.len(),
        forall|i: int|
            0 <= i < place_of(entries, name) ==> !not_behind(name, (#[trigger] entries[i]).0),
        place_of(entries, name) < entries.len() ==> not_behind(
            name,
            entries[place_of(entries, name) as int].0,
        ),
    decreases entries.len(),
{
    if entries.len() > 0 && !not_behind(name, entries[0].0) {
        let rest = entries.skip(1);
        place_of_splits(rest, name);
        assert forall|i: int| 0 <= i < place_of(entries, name) implies !not_behind(
            name,
            (#[trigger] entries[i]).0,
        ) by {
            if i > 0 {
                assert(entries[i] == rest[i - 1]);
            }
        }
    }
}

/// An entry that is put in its place leaves the others in order.
proof fn inserted_is_ordered<V>(entries: Seq<(Seq<char>, V)>, name: Seq<char>, value: V)
    requires
        in_name_order(entries),
    ensures
        in_name_order(inserted(entries, name, value)),
{
    let place = place_of(entries, name) as int;
    let all = inserted(entries, name, value);
    place_of_splits(entries, name);
    assert forall|i: int| 0 <= i < place implies not_behind((#[trigger] entries[i]).0, name)
        && entries[i].0 != name by {
        not_behind_either_way(entries[i].0, name);
        not_behind_itself(name);
    }
    assert forall|i: int| place <= i < entries.len() implies not_behind(
        name,
        (#[trigger] entries[i]).0,
    ) by {
        if i > place {
            assert(not_behind(entries[place].0, entries[i].0));
            not_behind_through(name, entries[place].0, entries[i].0);
        }
    }
    assert forall|i: int| place < i < entries.len() implies (#[trigger] entries[i]).0 != name by {
        if entries[i].0 == name {
            assert(not_behind(entries[place].0, entries[i].0));
            not_behind_both_ways(name, entries[place].0);
            assert(entries[place].0 != entries[i].0);
        }
    }
    if place < entries.len() && entries[place].0 == name {
        assert forall|i: int, j: int| 0 <= i < j < all.len() implies not_behind(
            (#[trigger] all[i]).0,
            (#[trigger] all[j]).0,
        ) && all[i].0 != all[j].0 by {
            assert(all[i].0 == entries[i].0);
            assert(all[j].0 == entries[j].0);
        }
    } else {
        assert forall|i: int, j: int| 0 <= i < j < all.len() implies not_behind(
            (#[trigger] all[i]).0,
            (#[trigger] all[j]).0,
        ) && all[i].0 != all[j].0 by {
            if i < place && j < place {
                assert(all[i] == entries[i] && all[j] == entries[j]);
            } else if i < place && j == place {
                assert(all[i] == entries[i]);
            } else if i < place {
                assert(all[i] == entries[i] && all[j] == entries[j - 1]);
            } else if i == place {
                assert(all[j] == entries[j - 1]);
            } else {
                assert(all[i] == entries[i - 1] && all[j] == entries[j - 1]);
            }
        }
    }
}

/// `by_name` brings entries in the order of their names and leaves no name twice.
/// Each entry that comes out was there.
pub proof fn by_name_is_ordered<V>(entries: Seq<(Seq<char>, V)>)
    ensures
        in_name_order(by_name(entries)),
        forall|i: int|
            0 <= i < by_name(entries).len() ==> entries.contains(#[trigger] by_name(entries)[i]),
    decreases entries.len(),
{
    if entries.len() > 0 {
        let front = entries.drop_last();
        let before = by_name(front);
        let (name, value) = entries.last();
        by_name_is_ordered(front);
        inserted_is_ordered(before, name, value);
        place_of_splits(before, name);
        let place = place_of(before, name) as int;
        let all = by_name(entries);
        assert forall|i: int| 0 <= i < all.len() implies entries.contains(#[trigger] all[i]) by {
            if i == place {
                assert(entries[entries.len() - 1] == all[i]);
            } else {
                let k = if i < place || all.len() == before.len() {
                    i
                } else {
                    i - 1
                };
                assert(all[i] == before[k]);
                assert(front.contains(before[k]));
                let j = choose|j: int| 0 <= j < front.len() && front[j] == before[k];
                assert(entries[j] == all[i]);
            }
        }
    }
}

/// Where no name occurs twice, `by_name` loses no entry.
pub proof fn by_name_keeps_entries<V>(entries: Seq<(Seq<char>, V)>)
    requires
        forall|i: int, j: int|
            0 <= i < j < entries.len() ==> (#[trigger] entries[i]).0 != (#[trigger] entries[j]).0,
    ensures
        by_name(entries).len() == entries.len(),
        forall|i: int| 0 <= i < entries.len() ==> by_name(entries).contains(#[trigger] entries[i]),
    decreases entries.len(),
{
    if entries.len() > 0 {
        let front = entries.drop_last();
        let before = by_name(front);
        let (name, value) = entries.last();
        assert forall|i: int, j: int| 0 <= i < j < front.len() implies (#[trigger] front[i]).0 != (
        #[trigger] front[j]).0 by {
            assert(entries[i].0 != entries[j].0);
        }
        by_name_keeps_entries(front);
        by_name_is_ordered(front);
        place_of_splits(before, name);
        let place = place_of(before, name) as int;
        let all = by_name(entries);
        if place < before.len() && before[place].0 == name {
            assert(front.contains(before[place]));
            let j = choose|j: int| 0 <= j < front.len() && front[j] == before[place];
            assert(entries[j].0 != entries[entries.len() - 1].0);
        }
        assert forall|i: int| 0 <= i < entries.len() implies all.contains(
            #[trigger] entries[i],
        ) by {
            if i < front.len() {
                assert(before.contains(front[i]));
                let k = choose|k: int| 0 <= k < before.len() && before[k] == front[i];
                if k < place {
                    assert(all[k] == entries[i]);
                } else {
                    assert(all[k + 1] == entries[i]);
                }
            } else {
                assert(all[place] == entries[i]);
            }
        }
    }
}

/// What stands in the order of the names is the last entry under each name, and there is
/// one for each.
pub proof fn last_of_each_name_stays<V>(entries: Seq<(Seq<char>, V)>)
    ensures
        forall|j: int|
            0 <= j < by_name(entries).len() ==> #[trigger] is_last_under_its_name(
                entries,
                by_name(entries)[j],
            ),
        forall|i: int|
            0 <= i < entries.len() ==> #[trigger] has_name(by_name(entries), entries[i].0),
    decreases entries.len(),
{
    if entries.len() > 0 {
        let front = entries.drop_last();
        let before = by_name(front);
        let (name, value) = entries.last();
        let place = place_of(before, name) as int;
        let all = by_name(entries);
        last_of_each_name_stays(front);
        by_name_is_ordered(front);
        inserted_is_ordered(before, name, value);
        place_of_splits(before, name);
        by_name_is_ordered(entries);
        let replaced = place < before.len() && before[place].0 == name;
        assert forall|j: int| 0 <= j < all.len() implies #[trigger] is_last_under_its_name(
            entries,
            all[j],
        ) by {
            if j == place {
                assert(entries[entries.len() - 1] == all[j]);
            } else {
                let k = if j < place || replaced {
                    j
                } else {
                    j - 1
                };
                assert(before[k] == all[j]);
                assert(is_last_under_its_name(front, before[k]));
                let i = choose|i: int|
                    0 <= i < front.len() && #[trigger] front[i] == before[k] && forall|h: int|
                        i < h < front.len() ==> (#[trigger] front[h]).0 != before[k].0;
                assert(entries[i] == all[j]);
                assert(all[j].0 != all[place].0);
                assert forall|h: int| i < h < entries.len() implies (#[trigger] entries[h]).0
                    != all[j].0 by {
                    if h < front.len() {
                        assert(front[h] == entries[h]);
                    }
                }
            }
        }
        assert forall|i: int| 0 <= i < entries.len() implies #[trigger] has_name(
            all,
            entries[i].0,
        ) by {
            if i < front.len() {
                assert(front[i] == entries[i]);
                assert(has_name(before, front[i].0));
                let k = choose|k: int|
                    0 <= k < before.len() && (#[trigger] before[k]).0 == front[i].0;
                if k < place || replaced {
                    assert(all[k].0 == entries[i].0);
                } else {
                    assert(all[k + 1].0 == entries[i].0);
                }
            } else {
                assert(all[place].0 == entries[i].0);
            }
        }
    }
}

/// Whether there is an entry under a name.
pub open spec fn has_name<V>(entries: Seq<(Seq<char>, V)>, name: Seq<char>) -> bool {
    exists|j: int| 0 <= j < entries.len() && (#[trigger] entries[j]).0 == name
}

/// Whether an entry is the last of those under its name.
pub open spec fn is_last_under_its_name<V>(
    entries: Seq<(Seq<char>, V)>,
    entry: (Seq<char>, V),
) -> bool {
    exists|i: int|
        0 <= i < entries.len() && #[trigger] entries[i] == entry && forall|h: int|
            i < h < entries.len() ==> (#[trigger] entries[h]).0 != entry.0
}

/// One text is not behind another exactly where it begins that one, or has the smaller
/// code point at the first character in which they differ.
pub proof fn texts_are_told_apart_by_the_first_difference(a: Seq<char>, b: Seq<char>)
    ensures
        not_behind(a, b) <==> {
            ||| a.is_prefix_of(b)
            ||| exists|k: int|
                0 <= k < a.len() && k < b.len() && #[trigger] a[k] != b[k] && (a[k] as int) < (
                b[k] as int) && forall|i: int| 0 <= i < k ==> #[trigger] a[i] == b[i]
        },
    decreases a.len(),
{
    if a.len() == 0 {
        assert(a =~= b.subrange(0, 0));
    } else if b.len() > 0 {
        let (x, y) = (a.skip(1), b.skip(1));
        if a[0] == b[0] {
            texts_are_told_apart_by_the_first_difference(x, y);
            if x.is_prefix_of(y) {
                assert(a =~= b.subrange(0, a.len() as int)) by {
                    assert forall|i: int| 0 < i < a.len() implies #[trigger] a[i] == b[i] by {
                        assert(x[i - 1] == y.subrange(0, x.len() as int)[i - 1]);
                    }
                }
            } else if not_behind(x, y) {
                let k = choose|k: int|
                    0 <= k < x.len() && k < y.len() && #[trigger] x[k] != y[k] && (x[k] as int) < (
                    y[k] as int) && forall|i: int| 0 <= i < k ==> #[trigger] x[i] == y[i];
                assert(a[k + 1] != b[k + 1]);
                assert forall|i: int| 0 <= i < k + 1 implies #[trigger] a[i] == b[i] by {
                    if i > 0 {
                        assert(x[i - 1] == y[i - 1]);
                    }
                }
            }
            if a.is_prefix_of(b) {
                assert(x =~= y.subrange(0, x.len() as int)) by {
                    assert forall|i: int| 0 <= i < x.len() implies #[trigger] x[i] == y[i] by {
                        assert(a[i + 1] == b.subrange(0, a.len() as int)[i + 1]);
                    }
                }
            }
            if exists|k: int|
                0 <= k < a.len() && k < b.len() && #[trigger] a[k] != b[k] && (a[k] as int) < (
                b[k] as int) && forall|i: int| 0 <= i < k ==> #[trigger] a[i] == b[i] {
                let k = choose|k: int|
                    0 <= k < a.len() && k < b.len() && #[trigger] a[k] != b[k] && (a[k] as int) < (
                    b[k] as int) && forall|i: int| 0 <= i < k ==> #[trigger] a[i] == b[i];
                assert(x[k - 1] != y[k - 1]);
                assert forall|i: int| 0 <= i < k - 1 implies #[trigger] x[i] == y[i] by {
                    assert(a[i + 1] == b[i + 1]);
                }
            }
        } else {
            if a.is_prefix_of(b) {
                assert(a[0] == b.subrange(0, a.len() as int)[0]);
            }
            if exists|k: int|
                0 <= k < a.len() && k < b.len() && #[trigger] a[k] != b[k] && (a[k] as int) < (
                b[k] as int) && forall|i: int| 0 <= i < k ==> #[trigger] a[i] == b[i] {
                let k = choose|k: int|
                    0 <= k < a.len() && k < b.len() && #[trigger] a[k] != b[k] && (a[k] as int) < (
                    b[k] as int) && forall|i: int| 0 <= i < k ==> #[trigger] a[i] == b[i];
                if k > 0 {
                    assert(a[0] == b[0]);
                }
            }
        }
    }
}

/// Whether `a` is not behind `b` in the order of texts.
fn is_not_behind(a: &str, b: &str) -> (r: bool)
    ensures
        r == not_behind(a@, b@),
{
    let n = a.unicode_len();
    let m = b.unicode_len();
    let mut i: usize = 0;
    proof {
        assert(a@.skip(0) =~= a@);
        assert(b@.skip(0) =~= b@);
    }
    while i < n && i < m
        invariant
            i <= n,
            i <= m,
            n == a@.len(),
            m == b@.len(),
            not_behind(a@, b@) == not_behind(a@.skip(i as int), b@.skip(i as int)),
        decreases n - i,
    {
        proof {
            assert(a@.skip(i as int).skip(1) =~= a@.skip(i + 1));
            assert(b@.skip(i as int).skip(1) =~= b@.skip(i + 1));
        }
        let x = a.get_char(i);
        let y = b.get_char(i);
        if x != y {
            return (x as u32) < (y as u32);
        }
        i = i + 1;
    }
    i == n
}

/// Puts an entry in its place among entries that are in the order of their names.
pub fn insert_by_name<V: Model>(entries: &mut Vec<(SmolStr, V)>, name: SmolStr, value: V)
    ensures
        final(entries).model() == inserted(old(entries).model(), name.model(), value.model()),
{
    let ghost before = entries.model();
    let ghost text = name.model();
    let mut i: usize = 0;
    proof {
        assert(before.skip(0) =~= before);
    }
    while i < entries.len() && !is_not_behind(name.as_str(), entries[i].0.as_str())
        invariant
            i <= entries@.len(),
            entries.model() == before,
            text == name.model(),
            place_of(before, text) == i + place_of(before.skip(i as int), text),
        decreases entries@.len() - i,
    {
        proof {
            assert(before.skip(i as int)[0] == entries@[i as int].model());
            assert(before.skip(i as int).skip(1) =~= before.skip(i + 1));
        }
        i = i + 1;
    }
    proof {
        if i < entries@.len() {
            assert(before.skip(i as int)[0] == entries@[i as int].model());
        }
        assert(place_of(before, text) == i);
    }
    if i < entries.len() && smol_same(&entries[i].0, &name) {
        entries.set(i, (name, value));
        assert(entries.model() =~= before.update(i as int, (text, value.model())));
    } else {
        entries.insert(i, (name, value));
        assert(entries.model() =~= before.insert(i as int, (text, value.model())));
    }
}

} // verus!
