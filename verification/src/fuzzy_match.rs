//! The word that may have been meant by another.

use crate::model::Model;
use vstd::prelude::*;
use vstd::string::*;

verus! {

/// The least number of characters to insert, delete or replace that turns `a` into
/// `b`.
pub open spec fn edit_distance(a: Seq<char>, b: Seq<char>) -> nat
    decreases a.len() + b.len(),
{
    if a.len() == 0 {
        b.len()
    } else if b.len() == 0 {
        a.len()
    } else {
        least(
            edit_distance(a.drop_last(), b) + 1,
            edit_distance(a, b.drop_last()) + 1,
            edit_distance(a.drop_last(), b.drop_last()) + if a.last() == b.last() {
                0nat
            } else {
                1nat
            },
        )
    }
}

/// The least of three numbers.
pub open spec fn least(x: nat, y: nat, z: nat) -> nat {
    if x <= y && x <= z {
        x
    } else if y <= z {
        y
    } else {
        z
    }
}

/// The first of the words that are nearest to `key`.
pub open spec fn nearest(key: Seq<char>, words: Seq<Seq<char>>) -> Option<Seq<char>>
    decreases words.len(),
{
    if words.len() == 0 {
        None
    } else {
        match nearest(key, words.drop_last()) {
            Some(word) if edit_distance(key, word) <= edit_distance(key, words.last()) => Some(word),
            _ => Some(words.last()),
        }
    }
}

/// The word that may have been meant by `key`: the nearest one, unless `key` is
/// empty.
pub open spec fn suggestion(key: Seq<char>, words: Seq<Seq<char>>) -> Option<Seq<char>> {
    if key.len() == 0 {
        None
    } else {
        nearest(key, words)
    }
}

/// A word is suggested exactly where the key is not empty and there is a word; it
/// is one of the words, none is nearer to the key, and those in front of it are all
/// further away.
pub proof fn suggestion_is_nearest(key: Seq<char>, words: Seq<Seq<char>>)
    ensures
        suggestion(key, words) is Some <==> key.len() > 0 && words.len() > 0,
        suggestion(key, words) matches Some(word) ==> exists|k: int|
            0 <= k < words.len() && #[trigger] words[k] == word && (forall|i: int|
                0 <= i < words.len() ==> edit_distance(key, word) <= edit_distance(
                    key,
                    #[trigger] words[i],
                )) && (forall|i: int|
                0 <= i < k ==> edit_distance(key, word) < edit_distance(key, #[trigger] words[i])),
{
    if key.len() > 0 && words.len() > 0 {
        let k = nearest_found(key, words);
        assert(words[k] == nearest(key, words)->0);
    }
}

/// Where the nearest word is.
proof fn nearest_found(key: Seq<char>, words: Seq<Seq<char>>) -> (k: int)
    requires
        words.len() > 0,
    ensures
        0 <= k < words.len(),
        nearest(key, words) == Some(words[k]),
        forall|i: int|
            0 <= i < words.len() ==> edit_distance(key, words[k]) <= edit_distance(
                key,
                #[trigger] words[i],
            ),
        forall|i: int|
            0 <= i < k ==> edit_distance(key, words[k]) < edit_distance(key, #[trigger] words[i]),
    decreases words.len(),
{
    let front = words.drop_last();
    if front.len() == 0 {
        0
    } else {
        let k = nearest_found(key, front);
        assert forall|i: int| 0 <= i < front.len() implies #[trigger] words[i] == front[i] by {}
        if edit_distance(key, front[k]) <= edit_distance(key, words.last()) {
            k
        } else {
            assert forall|i: int| 0 <= i < words.len() - 1 implies edit_distance(key, words.last())
                < edit_distance(key, #[trigger] words[i]) by {
                assert(edit_distance(key, front[k]) <= edit_distance(key, front[i]));
            }
            words.len() - 1
        }
    }
}

/// The characters of a text.
fn chars_in(text: &str) -> (r: Vec<char>)
    ensures
        r@ == text@,
{
    let n = text.unicode_len();
    let mut out: Vec<char> = Vec::new();
    let mut i: usize = 0;
    while i < n
        invariant
            i <= n,
            n == text@.len(),
            out@ == text@.take(i as int),
        decreases n - i,
    {
        out.push(text.get_char(i));
        i = i + 1;
        assert(out@ =~= text@.take(i as int));
    }
    assert(text@.take(n as int) =~= text@);
    out
}

/// The least number of characters to insert, delete or replace that turns one text
/// into the other.
fn levenshtein_distance(word1: &str, word2: &str) -> (r: u128)
    ensures
        r == edit_distance(word1@, word2@),
{
    let w1 = chars_in(word1);
    let w2 = chars_in(word2);
    let ghost a = w1@;
    let ghost b = w2@;
    let m = w1.len();
    let n = w2.len();
    // The distances between what was seen of the first word and the beginnings of
    // the second, but for the empty one.
    let mut row: Vec<u128> = Vec::new();
    let mut j: usize = 0;
    while j < n
        invariant
            j <= n,
            n == b.len(),
            row@.len() == j,
            forall|k: int|
                0 <= k < j ==> #[trigger] row@[k] == edit_distance(a.take(0), b.take(k + 1)) && row@[k]
                    <= k + 1,
        decreases n - j,
    {
        row.push(j as u128 + 1);
        j = j + 1;
    }
    let mut i: usize = 0;
    while i < m
        invariant
            i <= m,
            m == a.len(),
            n == b.len(),
            a == w1@,
            b == w2@,
            row@.len() == n,
            forall|k: int|
                0 <= k < n ==> #[trigger] row@[k] == edit_distance(a.take(i as int), b.take(k + 1))
                    && row@[k] <= i + k + 1,
        decreases m - i,
    {
        let ghost above = row@;
        let mut diagonal: u128 = i as u128;
        let mut left: u128 = i as u128 + 1;
        proof {
            assert(b.take(0).len() == 0);
            assert(a.take(i + 1).drop_last() =~= a.take(i as int));
        }
        let mut j: usize = 0;
        while j < n
            invariant
                j <= n,
                i < m,
                m == a.len(),
                n == b.len(),
                a == w1@,
                b == w2@,
                row@.len() == n,
                above.len() == n,
                a.take(i + 1).drop_last() == a.take(i as int),
                diagonal == edit_distance(a.take(i as int), b.take(j as int)),
                left == edit_distance(a.take(i + 1), b.take(j as int)),
                diagonal <= i + j,
                left <= i + 1 + j,
                forall|k: int|
                    0 <= k < n ==> #[trigger] above[k] == edit_distance(
                        a.take(i as int),
                        b.take(k + 1),
                    ) && above[k] <= i + k + 1,
                forall|k: int| j <= k < n ==> #[trigger] row@[k] == above[k],
                forall|k: int|
                    0 <= k < j ==> #[trigger] row@[k] == edit_distance(a.take(i + 1), b.take(k + 1))
                        && row@[k] <= i + k + 2,
            decreases n - j,
        {
            proof {
                assert(b.take(j + 1).drop_last() =~= b.take(j as int));
                assert(a.take(i + 1).last() == a[i as int]);
                assert(b.take(j + 1).last() == b[j as int]);
            }
            let up: u128 = row[j];
            assert(up == above[j as int]);
            let replaced: u128 = if w1[i] == w2[j] {
                diagonal
            } else {
                diagonal + 1
            };
            let mut distance: u128 = replaced;
            if left + 1 < distance {
                distance = left + 1;
            }
            if up + 1 < distance {
                distance = up + 1;
            }
            assert(distance == edit_distance(a.take(i + 1), b.take(j + 1)));
            diagonal = up;
            left = distance;
            row.set(j, distance);
            j = j + 1;
        }
        i = i + 1;
    }
    proof {
        assert(a.take(m as int) =~= a);
        assert(b.take(n as int) =~= b);
    }
    if n == 0 {
        m as u128
    } else {
        row[n - 1]
    }
}

/// The word of the list that may have been meant by `key`.
pub fn fuzzy_search(key: &str, list: &Vec<String>) -> (r: Option<String>)
    ensures
        r.model() == suggestion(key@, list.model()),
{
    let ghost words = list.model();
    if key.unicode_len() == 0 || list.len() == 0 {
        return None;
    }
    let mut best: usize = 0;
    let mut distance: u128 = levenshtein_distance(key, list[0].as_str());
    let mut i: usize = 1;
    proof {
        reveal_with_fuel(nearest, 2);
        assert(words.take(1).drop_last() =~= Seq::empty());
        assert(words.take(1).last() == words[0]);
    }
    while i < list.len()
        invariant
            1 <= i <= list@.len(),
            best < list@.len(),
            words == list.model(),
            distance == edit_distance(key@, words[best as int]),
            nearest(key@, words.take(i as int)) == Some(words[best as int]),
        decreases list@.len() - i,
    {
        proof {
            assert(words.take(i + 1).drop_last() =~= words.take(i as int));
            assert(words.take(i + 1).last() == words[i as int]);
        }
        let e: u128 = levenshtein_distance(key, list[i].as_str());
        if e < distance {
            best = i;
            distance = e;
        }
        i = i + 1;
    }
    assert(words.take(i as int) =~= words);
    Some(list[best].clone())
}

} // verus!
