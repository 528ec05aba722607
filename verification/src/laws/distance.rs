//! How far words are from each other.

use crate::fuzzy_match::edit_distance;
use vstd::prelude::*;

verus! {

/// Whether one character makes the difference between two words: it is put in, left out or
/// another one.
pub open spec fn one_edit(a: Seq<char>, b: Seq<char>) -> bool {
    ||| exists|i: int, x: char| 0 <= i <= a.len() && b == #[trigger] a.insert(i, x)
    ||| exists|i: int, x: char| 0 <= i <= b.len() && a == #[trigger] b.insert(i, x)
    ||| exists|i: int, x: char| 0 <= i < a.len() && b == #[trigger] a.update(i, x)
}

/// Words are at no distance exactly where they are equal.
pub proof fn no_distance_between_equals(a: Seq<char>, b: Seq<char>)
    ensures
        edit_distance(a, b) == 0 <==> a =~= b,
    decreases a.len() + b.len(),
{
    if a.len() > 0 && b.len() > 0 {
        let (x, y) = (a.drop_last(), b.drop_last());
        no_distance_between_equals(x, y);
        if a =~= b {
            assert(x =~= y);
            assert(a.last() == b.last());
        }
        if edit_distance(a, b) == 0 {
            assert(a =~= x.push(a.last()));
            assert(b =~= y.push(b.last()));
        }
    }
}

/// A character at the end makes a difference of one at most.
proof fn one_more_at_the_end(a: Seq<char>, x: char, c: Seq<char>)
    ensures
        edit_distance(a.push(x), c) <= edit_distance(a, c) + 1,
        edit_distance(a, c) <= edit_distance(a.push(x), c) + 1,
    decreases c.len(),
{
    assert(a.push(x).drop_last() =~= a);
    if c.len() > 0 {
        one_more_at_the_end(a, x, c.drop_last());
    } else if a.len() == 0 {
        assert(edit_distance(a, c) == 0);
    }
}

/// Another character at the end makes a difference of one at most.
proof fn another_at_the_end(a: Seq<char>, x: char, y: char, c: Seq<char>)
    ensures
        edit_distance(a.push(x), c) <= edit_distance(a.push(y), c) + 1,
    decreases c.len(),
{
    assert(a.push(x).drop_last() =~= a);
    assert(a.push(y).drop_last() =~= a);
    if c.len() > 0 {
        another_at_the_end(a, x, y, c.drop_last());
    }
}

/// Whether `a` is at most one further than `b` from every word.
pub open spec fn is_near(a: Seq<char>, b: Seq<char>) -> bool {
    forall|c: Seq<char>| #[trigger] edit_distance(a, c) <= edit_distance(b, c) + 1
}

/// What stands behind two words does not take them further apart.
proof fn near_with_the_same_behind(a: Seq<char>, b: Seq<char>, s: Seq<char>, c: Seq<char>)
    requires
        is_near(a, b),
    ensures
        edit_distance(a + s, c) <= edit_distance(b + s, c) + 1,
    decreases s.len() + c.len(),
{
    if s.len() == 0 {
        assert(a + s =~= a);
        assert(b + s =~= b);
    } else if c.len() == 0 {
        assert(edit_distance(a, c) <= edit_distance(b, c) + 1);
        assert(edit_distance(a, c) == a.len());
        assert(edit_distance(b, c) == b.len());
    } else {
        let t = s.drop_last();
        assert((a + s).drop_last() =~= a + t);
        assert((b + s).drop_last() =~= b + t);
        near_with_the_same_behind(a, b, t, c);
        near_with_the_same_behind(a, b, s, c.drop_last());
        near_with_the_same_behind(a, b, t, c.drop_last());
    }
}

/// A change of one character changes the distance to any word by one at most.
pub proof fn one_edit_goes_one_step(a: Seq<char>, b: Seq<char>, c: Seq<char>)
    requires
        one_edit(a, b),
    ensures
        edit_distance(a, c) <= edit_distance(b, c) + 1,
        edit_distance(b, c) <= edit_distance(a, c) + 1,
{
    if exists|i: int, x: char| 0 <= i <= a.len() && b == #[trigger] a.insert(i, x) {
        let (i, x) = choose|i: int, x: char| 0 <= i <= a.len() && b == #[trigger] a.insert(i, x);
        put_in_goes_one_step(a, i, x, c);
    } else if exists|i: int, x: char| 0 <= i <= b.len() && a == #[trigger] b.insert(i, x) {
        let (i, x) = choose|i: int, x: char| 0 <= i <= b.len() && a == #[trigger] b.insert(i, x);
        put_in_goes_one_step(b, i, x, c);
    } else {
        let (i, x) = choose|i: int, x: char| 0 <= i < a.len() && b == #[trigger] a.update(i, x);
        let front = a.take(i);
        let behind = a.skip(i + 1);
        let (p, q) = (front.push(a[i]), front.push(x));
        assert(a =~= p + behind);
        assert(b =~= q + behind);
        assert forall|d: Seq<char>| #[trigger] edit_distance(p, d) <= edit_distance(q, d) + 1 by {
            another_at_the_end(front, a[i], x, d);
        }
        assert forall|d: Seq<char>| #[trigger] edit_distance(q, d) <= edit_distance(p, d) + 1 by {
            another_at_the_end(front, x, a[i], d);
        }
        near_with_the_same_behind(p, q, behind, c);
        near_with_the_same_behind(q, p, behind, c);
    }
}

proof fn put_in_goes_one_step(a: Seq<char>, i: int, x: char, c: Seq<char>)
    requires
        0 <= i <= a.len(),
    ensures
        edit_distance(a, c) <= edit_distance(a.insert(i, x), c) + 1,
        edit_distance(a.insert(i, x), c) <= edit_distance(a, c) + 1,
{
    let front = a.take(i);
    let behind = a.skip(i);
    let p = front.push(x);
    assert(a =~= front + behind);
    assert(a.insert(i, x) =~= p + behind);
    assert forall|d: Seq<char>| #[trigger] edit_distance(p, d) <= edit_distance(front, d) + 1 by {
        one_more_at_the_end(front, x, d);
    }
    assert forall|d: Seq<char>| #[trigger] edit_distance(front, d) <= edit_distance(p, d) + 1 by {
        one_more_at_the_end(front, x, d);
    }
    near_with_the_same_behind(p, front, behind, c);
    near_with_the_same_behind(front, p, behind, c);
}

/// The same character behind two words does not take them further apart.
proof fn same_at_the_end(a: Seq<char>, b: Seq<char>, x: char)
    ensures
        edit_distance(a.push(x), b.push(x)) <= edit_distance(a, b),
{
    assert(a.push(x).drop_last() =~= a);
    assert(b.push(x).drop_last() =~= b);
}

/// Where words differ, a change of one character takes one a step nearer to the other. So
/// the distance is the least number of such changes that turns one into the other.
pub proof fn some_edit_goes_nearer(a: Seq<char>, b: Seq<char>) -> (c: Seq<char>)
    requires
        a != b,
    ensures
        one_edit(a, c),
        edit_distance(c, b) + 1 == edit_distance(a, b),
    decreases a.len() + b.len(),
{
    no_distance_between_equals(a, b);
    if a.len() == 0 {
        let y = b.last();
        let c = a.push(y);
        same_at_the_end(a, b.drop_last(), y);
        assert(b.drop_last().push(y) =~= b);
        assert(c =~= a.insert(0, y));
        assert(one_edit(a, c));
        one_edit_goes_one_step(a, c, b);
        c
    } else if b.len() == 0 {
        let c = a.drop_last();
        assert(a =~= c.insert(c.len() as int, a.last()));
        assert(one_edit(a, c));
        one_edit_goes_one_step(a, c, b);
        c
    } else {
        let (x, y) = (a.last(), b.last());
        let (p, q) = (a.drop_last(), b.drop_last());
        assert(p.push(x) =~= a);
        assert(q.push(y) =~= b);
        if edit_distance(a, b) == edit_distance(p, b) + 1 {
            assert(a =~= p.insert(p.len() as int, x));
            assert(one_edit(a, p));
            p
        } else if edit_distance(a, b) == edit_distance(a, q) + 1 {
            let c = a.push(y);
            same_at_the_end(a, q, y);
            assert(c =~= a.insert(a.len() as int, y));
            assert(one_edit(a, c));
            one_edit_goes_one_step(a, c, b);
            c
        } else if x == y {
            no_distance_between_equals(p, q);
            let d = some_edit_goes_nearer(p, q);
            let c = d.push(x);
            same_at_the_end(d, q, x);
            edit_in_front_of_the_end(p, d, x);
            one_edit_goes_one_step(a, c, b);
            c
        } else {
            let c = p.push(y);
            same_at_the_end(p, q, y);
            assert(c =~= a.update(a.len() - 1, y));
            assert(one_edit(a, c));
            one_edit_goes_one_step(a, c, b);
            c
        }
    }
}

proof fn edit_in_front_of_the_end(a: Seq<char>, b: Seq<char>, z: char)
    requires
        one_edit(a, b),
    ensures
        one_edit(a.push(z), b.push(z)),
{
    if exists|i: int, x: char| 0 <= i <= a.len() && b == #[trigger] a.insert(i, x) {
        let (i, x) = choose|i: int, x: char| 0 <= i <= a.len() && b == #[trigger] a.insert(i, x);
        assert(b.push(z) =~= a.push(z).insert(i, x));
    } else if exists|i: int, x: char| 0 <= i <= b.len() && a == #[trigger] b.insert(i, x) {
        let (i, x) = choose|i: int, x: char| 0 <= i <= b.len() && a == #[trigger] b.insert(i, x);
        assert(a.push(z) =~= b.push(z).insert(i, x));
    } else {
        let (i, x) = choose|i: int, x: char| 0 <= i < a.len() && b == #[trigger] a.update(i, x);
        assert(b.push(z) =~= a.push(z).update(i, x));
    }
}

} // verus!
