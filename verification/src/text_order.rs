//! The order of strings.
use vstd::prelude::*;

use crate::text::texts;

verus! {

/// One text comes before the other: at the first place where they differ it has the smaller
/// character, or it ends there.
pub open spec fn text_before(a: Seq<char>, b: Seq<char>) -> bool
    decreases a.len(),
{
    if b.len() == 0 {
        false
    } else if a.len() == 0 {
        true
    } else if a[0] != b[0] {
        a[0] < b[0]
    } else {
        text_before(a.skip(1), b.skip(1))
    }
}

/// Each text comes before all that follow it.
pub open spec fn sorted(items: Seq<Seq<char>>) -> bool {
    forall|i: int, j: int|
        0 <= i < j < items.len() ==> text_before(#[trigger] items[i], #[trigger] items[j])
}

/// Of two texts one comes first, or they are the same.
pub proof fn lemma_total(a: Seq<char>, b: Seq<char>)
    ensures
        text_before(a, b) || a == b || text_before(b, a),
    decreases a.len(),
{
    if a.len() == 0 || b.len() == 0 {
        if a.len() == 0 && b.len() == 0 {
            assert(a =~= b);
        }
    } else if a[0] == b[0] {
        lemma_total(a.skip(1), b.skip(1));
        if a.skip(1) == b.skip(1) {
            assert(a =~= seq![a[0]] + a.skip(1));
            assert(b =~= seq![b[0]] + b.skip(1));
        }
    }
}

/// The order is transitive.
pub proof fn lemma_transitive(a: Seq<char>, b: Seq<char>, c: Seq<char>)
    requires
        text_before(a, b),
        text_before(b, c),
    ensures
        text_before(a, c),
    decreases a.len(),
{
    if a.len() > 0 && a[0] == b[0] && b[0] == c[0] {
        lemma_transitive(a.skip(1), b.skip(1), c.skip(1));
    }
}

/// No text comes before itself.
pub proof fn lemma_irreflexive(a: Seq<char>)
    ensures
        !text_before(a, a),
    decreases a.len(),
{
    if a.len() > 0 {
        lemma_irreflexive(a.skip(1));
    }
}

/// Equal beginnings do not matter.
proof fn lemma_common_prefix(a: Seq<char>, b: Seq<char>, n: nat)
    requires
        n <= a.len(),
        n <= b.len(),
        a.take(n as int) == b.take(n as int),
    ensures
        text_before(a, b) == text_before(a.skip(n as int), b.skip(n as int)),
    decreases n,
{
    if n == 0 {
        assert(a.skip(0) =~= a);
        assert(b.skip(0) =~= b);
    } else {
        assert(a.take(n as int)[0] == a[0]);
        assert(b.take(n as int)[0] == b[0]);
        assert(a.skip(1).take(n - 1) =~= a.take(n as int).skip(1));
        assert(b.skip(1).take(n - 1) =~= b.take(n as int).skip(1));
        lemma_common_prefix(a.skip(1), b.skip(1), (n - 1) as nat);
        assert(a.skip(1).skip(n - 1) =~= a.skip(n as int));
        assert(b.skip(1).skip(n - 1) =~= b.skip(n as int));
    }
}

/// Tells whether one text comes before the other.
pub fn is_before(a: &str, b: &str) -> (r: bool)
    ensures
        r == text_before(a@, b@),
{
    let a_len: usize = a.unicode_len();
    let b_len: usize = b.unicode_len();
    let mut i: usize = 0;
    assert(a@.take(0) =~= b@.take(0));
    while i < a_len && i < b_len
        invariant
            a_len == a@.len(),
            b_len == b@.len(),
            i <= a_len,
            i <= b_len,
            a@.take(i as int) == b@.take(i as int),
        decreases a_len - i,
    {
        let x = a.get_char(i);
        let y = b.get_char(i);
        if x != y {
            proof {
                lemma_common_prefix(a@, b@, i as nat);
            }
            return x < y;
        }
        assert(a@.take(i + 1) =~= a@.take(i as int).push(a@[i as int]));
        assert(b@.take(i + 1) =~= b@.take(i as int).push(b@[i as int]));
        i += 1;
    }
    proof {
        lemma_common_prefix(a@, b@, i as nat);
    }
    a_len < b_len
}

/// Puts a text into its place among sorted ones, unless it is there.
pub fn insert_sorted(items: &mut Vec<String>, text: String)
    requires
        sorted(texts(old(items)@)),
    ensures
        sorted(texts(final(items)@)),
        texts(final(items)@).to_set() == texts(old(items)@).to_set().insert(text@),
{
    let ghost before = texts(items@);
    let ghost added = text@;
    let mut i: usize = 0;
    while i < items.len() && is_before(items[i].as_str(), text.as_str())
        invariant
            i <= items.len(),
            text@ == added,
            before == texts(items@),
            forall|k: int| 0 <= k < i ==> text_before(#[trigger] before[k], added),
        decreases items.len() - i,
    {
        assert(before[i as int] == items@[i as int]@);
        i += 1;
    }
    if i < items.len() && items[i] == text {
        proof {
            assert(before[i as int] == added);
            assert(before.to_set().insert(added) =~= before.to_set());
        }
        return ;
    }
    items.insert(i, text);
    proof {
        let now = texts(items@);
        assert(now =~= before.insert(i as int, added));
        if i < before.len() {
            lemma_total(before[i as int], added);
        }
        assert forall|k: int| i <= k < before.len() implies text_before(
            added,
            #[trigger] before[k],
        ) by {
            if k > i {
                lemma_transitive(added, before[i as int], before[k]);
            }
        }
        assert forall|a: int, b: int| 0 <= a < b < now.len() implies text_before(
            #[trigger] now[a],
            #[trigger] now[b],
        ) by {
            if a < i && b < i {
                assert(now[a] == before[a] && now[b] == before[b]);
            } else if a < i && b == i {
                assert(now[a] == before[a]);
            } else if a < i {
                assert(now[a] == before[a] && now[b] == before[b - 1]);
            } else if a == i {
                assert(now[b] == before[b - 1]);
            } else {
                assert(now[a] == before[a - 1] && now[b] == before[b - 1]);
            }
        }
        assert(now.to_set() =~= before.to_set().insert(added)) by {
            assert forall|x: Seq<char>| before.to_set().insert(added).contains(
                x,
            ) implies now.to_set().contains(x) by {
                if x == added {
                    assert(now[i as int] == added);
                } else {
                    let k = choose|k: int| 0 <= k < before.len() && before[k] == x;
                    if k < i {
                        assert(now[k] == x);
                    } else {
                        assert(now[k + 1] == x);
                    }
                }
            }
            assert forall|x: Seq<char>| now.to_set().contains(
                x,
            ) implies before.to_set().insert(added).contains(x) by {
                let k = choose|k: int| 0 <= k < now.len() && now[k] == x;
                if k < i {
                    assert(before[k] == x);
                } else if k > i {
                    assert(before[k - 1] == x);
                }
            }
        }
    }
}

/// Sorted texts differ from one another.
pub proof fn sorted_texts_are_distinct(items: Seq<Seq<char>>)
    requires
        sorted(items),
    ensures
        items.no_duplicates(),
{
    assert forall|i: int, j: int| 0 <= i < items.len() && 0 <= j < items.len() && i
        != j implies items[i] != items[j] by {
        lemma_irreflexive(items[i]);
        if i < j {
            assert(text_before(items[i], items[j]));
        } else {
            assert(text_before(items[j], items[i]));
        }
    }
}

/// Texts that begin alike are ordered by the first character in which they differ, and a text comes
/// before all that go on after it.
pub proof fn texts_are_ordered_by_the_first_difference(
    common: Seq<char>,
    a: char,
    b: char,
    rest_a: Seq<char>,
    rest_b: Seq<char>,
)
    ensures
        a < b ==> text_before(common + (seq![a] + rest_a), common + (seq![b] + rest_b)),
        a < b ==> !text_before(common + (seq![b] + rest_b), common + (seq![a] + rest_a)),
        text_before(common, common + (seq![a] + rest_a)),
        !text_before(common + (seq![a] + rest_a), common),
    decreases common.len(),
{
    let x = common + (seq![a] + rest_a);
    let y = common + (seq![b] + rest_b);
    if common.len() > 0 {
        texts_are_ordered_by_the_first_difference(common.skip(1), a, b, rest_a, rest_b);
        assert(x[0] == common[0] && y[0] == common[0]);
        assert(x.skip(1) =~= common.skip(1) + (seq![a] + rest_a));
        assert(y.skip(1) =~= common.skip(1) + (seq![b] + rest_b));
    } else {
        assert(x[0] == a);
        assert(y[0] == b);
    }
}

} // verus!
