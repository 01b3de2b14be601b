//! Stable sorting by a key.

use crate::text;
use vstd::prelude::*;

verus! {

/// What values can be sorted by: `before` is a strict order in which values that
/// are before each other in neither direction rank alike.
pub trait Ranked: Sized {
    /// Whether this value ranks before the other.
    spec fn before(&self, other: &Self) -> bool;

    /// Of two values at most one ranks before the other.
    proof fn one_way(a: &Self, b: &Self)
        ensures
            !(a.before(b) && b.before(a)),
    ;

    /// What does not rank before something that does not rank before a third
    /// value does not rank before that value.
    proof fn chained(a: &Self, b: &Self, c: &Self)
        requires
            !a.before(b),
            !b.before(c),
        ensures
            !a.before(c),
    ;

    /// Whether this value ranks before the other.
    fn ranks_before(&self, other: &Self) -> (r: bool)
        ensures
            r == self.before(other),
    ;
}

impl Ranked for u32 {
    open spec fn before(&self, other: &u32) -> bool {
        *self < *other
    }

    proof fn one_way(a: &u32, b: &u32) {
    }

    proof fn chained(a: &u32, b: &u32, c: &u32) {
    }

    fn ranks_before(&self, other: &u32) -> bool {
        *self < *other
    }
}

impl Ranked for i64 {
    open spec fn before(&self, other: &i64) -> bool {
        *self < *other
    }

    proof fn one_way(a: &i64, b: &i64) {
    }

    proof fn chained(a: &i64, b: &i64, c: &i64) {
    }

    fn ranks_before(&self, other: &i64) -> bool {
        *self < *other
    }
}

/// The order of texts: by the first character in which they differ, and a text
/// before those that it is the start of.
pub open spec fn text_before(a: Seq<char>, b: Seq<char>) -> bool
    decreases a.len(),
{
    if b.len() == 0 {
        false
    } else if a.len() == 0 {
        true
    } else if a[0] != b[0] {
        a[0] < b[0]
    } else {
        text_before(a.drop_first(), b.drop_first())
    }
}

proof fn lemma_text_one_way(a: Seq<char>, b: Seq<char>)
    ensures
        !(text_before(a, b) && text_before(b, a)),
    decreases a.len(),
{
    if a.len() > 0 && b.len() > 0 && a[0] == b[0] {
        lemma_text_one_way(a.drop_first(), b.drop_first());
    }
}

proof fn lemma_text_chained(a: Seq<char>, b: Seq<char>, c: Seq<char>)
    requires
        !text_before(a, b),
        !text_before(b, c),
    ensures
        !text_before(a, c),
    decreases a.len(),
{
    if a.len() > 0 && b.len() > 0 && c.len() > 0 && a[0] == b[0] && b[0] == c[0] {
        lemma_text_chained(a.drop_first(), b.drop_first(), c.drop_first());
    }
}

impl Ranked for String {
    open spec fn before(&self, other: &String) -> bool {
        text_before(self@, other@)
    }

    proof fn one_way(a: &String, b: &String) {
        lemma_text_one_way(a@, b@);
    }

    proof fn chained(a: &String, b: &String, c: &String) {
        lemma_text_chained(a@, b@, c@);
    }

    fn ranks_before(&self, other: &String) -> bool {
        let a: Vec<char> = text::chars_of(self.as_str());
        let b: Vec<char> = text::chars_of(other.as_str());
        let mut i: usize = 0;
        assert(a@.skip(0) =~= a@);
        assert(b@.skip(0) =~= b@);
        while i < a.len() && i < b.len() && a[i] == b[i]
            invariant
                i <= a@.len(),
                i <= b@.len(),
                text_before(a@, b@) == text_before(a@.skip(i as int), b@.skip(i as int)),
            decreases a@.len() - i,
        {
            assert(a@.skip(i as int).drop_first() =~= a@.skip(i + 1));
            assert(b@.skip(i as int).drop_first() =~= b@.skip(i + 1));
            i = i + 1;
        }
        if i == b.len() {
            false
        } else if i == a.len() {
            true
        } else {
            a[i] < b[i]
        }
    }
}

/// Whether `r` lists the positions of `keys` in rising order, each once; keys
/// that rank alike keep their order.
pub open spec fn is_order<K: Ranked>(keys: Seq<K>, r: Seq<usize>) -> bool {
    &&& r.len() == keys.len()
    &&& forall|i: int| 0 <= i < r.len() ==> 0 <= #[trigger] r[i] < keys.len()
    &&& forall|i: int, j: int|
        #![trigger r[i], r[j]]
        0 <= i < j < r.len() ==> in_order(keys, r[i] as int, r[j] as int)
}

/// Whether the key at `a` stands before the key at `b`: it ranks before it, or
/// they rank alike and it was before it already.
pub open spec fn in_order<K: Ranked>(keys: Seq<K>, a: int, b: int) -> bool {
    keys[a].before(&keys[b]) || (!keys[b].before(&keys[a]) && a < b)
}

/// The positions of `keys` in rising order.
pub fn order<K: Ranked>(keys: &Vec<K>) -> (r: Vec<usize>)
    ensures
        is_order(keys@, r@),
{
    let mut r: Vec<usize> = Vec::new();
    let mut x: usize = 0;
    while x < keys.len()
        invariant
            x <= keys@.len(),
            r@.len() == x,
            forall|i: int| 0 <= i < r@.len() ==> 0 <= #[trigger] r@[i] < x,
            forall|i: int, j: int|
                #![trigger r@[i], r@[j]]
                0 <= i < j < r@.len() ==> in_order(keys@, r@[i] as int, r@[j] as int),
        decreases keys@.len() - x,
    {
        let mut p: usize = 0;
        while p < r.len() && !keys[x].ranks_before(&keys[r[p]])
            invariant
                x < keys@.len(),
                p <= r@.len(),
                forall|i: int| 0 <= i < r@.len() ==> 0 <= #[trigger] r@[i] < x,
                forall|i: int|
                    0 <= i < p ==> !keys@[x as int].before(&keys@[(#[trigger] r@[i]) as int]),
            decreases r@.len() - p,
        {
            p = p + 1;
        }
        let ghost before = r@;
        r.insert(p, x);
        proof {
            assert forall|i: int, j: int|
                #![trigger r@[i], r@[j]]
                0 <= i < j < r@.len() implies in_order(keys@, r@[i] as int, r@[j] as int) by {
                let kx = keys@[x as int];
                if j == p {
                    assert(r@[i] == before[i]);
                } else if i == p {
                    assert(r@[j] == before[j - 1]);
                    let kj = keys@[before[j - 1] as int];
                    let kp = keys@[before[p as int] as int];
                    if j - 1 > p {
                        assert(in_order(keys@, before[p as int] as int, before[j - 1] as int));
                        K::one_way(&kp, &kj);
                        if !kx.before(&kj) {
                            K::chained(&kx, &kj, &kp);
                        }
                    }
                } else {
                    let a = if i < p {
                        i
                    } else {
                        i - 1
                    };
                    let b = if j < p {
                        j
                    } else {
                        j - 1
                    };
                    assert(r@[i] == before[a]);
                    assert(r@[j] == before[b]);
                }
            }
            assert forall|i: int| 0 <= i < r@.len() implies 0 <= #[trigger] r@[i] < x + 1 by {
                if i < p {
                    assert(r@[i] == before[i]);
                } else if i > p {
                    assert(r@[i] == before[i - 1]);
                }
            }
        }
        x = x + 1;
    }
    r
}

/// There is only one such list of positions.
pub proof fn order_is_unique<K: Ranked>(keys: Seq<K>, a: Seq<usize>, b: Seq<usize>)
    requires
        is_order(keys, a),
        is_order(keys, b),
    ensures
        a == b,
{
    assert forall|k: int| 0 <= k < a.len() implies a[k] == b[k] by {
        lemma_same_at(keys, a, b, k);
    }
    assert(a =~= b);
}

/// Every position stands in the order.
pub proof fn nothing_is_left_out<K: Ranked>(keys: Seq<K>, r: Seq<usize>, x: int)
    requires
        is_order(keys, r),
        0 <= x < keys.len(),
    ensures
        exists|i: int| 0 <= i < r.len() && #[trigger] r[i] == x,
{
    lemma_holds_all(keys, r, x);
}

/// Numbers are put in rising order, and equal ones keep the order that they had.
pub proof fn smaller_number_stands_first(keys: Seq<u32>, r: Seq<usize>, i: int, j: int)
    requires
        is_order(keys, r),
        0 <= i < j < r.len(),
    ensures
        keys[r[i] as int] < keys[r[j] as int] || (keys[r[i] as int] == keys[r[j] as int] && r[i]
            < r[j]),
{
    assert(in_order(keys, r[i] as int, r[j] as int));
}

/// Numbers with a sign are put in rising order, and equal ones keep the order
/// that they had.
pub proof fn smaller_signed_number_stands_first(keys: Seq<i64>, r: Seq<usize>, i: int, j: int)
    requires
        is_order(keys, r),
        0 <= i < j < r.len(),
    ensures
        keys[r[i] as int] < keys[r[j] as int] || (keys[r[i] as int] == keys[r[j] as int] && r[i]
            < r[j]),
{
    assert(in_order(keys, r[i] as int, r[j] as int));
}

/// Texts are put in rising order, and equal ones keep the order that they had.
pub proof fn smaller_text_stands_first(keys: Seq<String>, r: Seq<usize>, i: int, j: int)
    requires
        is_order(keys, r),
        0 <= i < j < r.len(),
    ensures
        !text_before(keys[r[j] as int]@, keys[r[i] as int]@),
        keys[r[i] as int]@ == keys[r[j] as int]@ ==> r[i] < r[j],
{
    assert(in_order(keys, r[i] as int, r[j] as int));
    lemma_text_one_way(keys[r[i] as int]@, keys[r[j] as int]@);
}

/// Of two texts at most one is before the other, and none is before itself.
pub proof fn text_order_is_one_way(a: Seq<char>, b: Seq<char>)
    ensures
        !(text_before(a, b) && text_before(b, a)),
        !text_before(a, a),
{
    lemma_text_one_way(a, b);
    lemma_text_one_way(a, a);
}

/// Of two texts the one that is smaller where they differ first is before the
/// other, and a text is before those that it is the start of.
pub proof fn text_is_before_what_it_starts(front: Seq<char>, a: Seq<char>, b: Seq<char>)
    requires
        b.len() > 0,
        a.len() == 0 || a[0] < b[0],
    ensures
        text_before(front + a, front + b),
        !text_before(front + b, front + a),
    decreases front.len(),
{
    if front.len() == 0 {
        assert(front + a =~= a);
        assert(front + b =~= b);
    } else {
        text_is_before_what_it_starts(front.drop_first(), a, b);
        assert((front + a).drop_first() =~= front.drop_first() + a);
        assert((front + b).drop_first() =~= front.drop_first() + b);
    }
}

/// A list of positions that rise holds every position.
proof fn lemma_holds_all<K: Ranked>(keys: Seq<K>, a: Seq<usize>, x: int)
    requires
        is_order(keys, a),
        0 <= x < keys.len(),
    ensures
        exists|i: int| 0 <= i < a.len() && a[i] == x,
{
    let ints = a.map_values(|v: usize| v as int);
    assert(ints.no_duplicates()) by {
        assert forall|i: int, j: int| 0 <= i < ints.len() && 0 <= j < ints.len() && i != j implies ints[i]
            != ints[j] by {
            if i < j {
                assert(in_order(keys, a[i] as int, a[j] as int));
                K::one_way(&keys[a[i] as int], &keys[a[i] as int]);
            } else {
                assert(in_order(keys, a[j] as int, a[i] as int));
                K::one_way(&keys[a[i] as int], &keys[a[i] as int]);
            }
        }
    }
    ints.unique_seq_to_set();
    let all = vstd::set_lib::set_int_range(0, keys.len() as int);
    vstd::set_lib::lemma_int_range(0, keys.len() as int);
    assert(ints.to_set().subset_of(all)) by {
        assert forall|v: int| ints.to_set().contains(v) implies all.contains(v) by {
            let i = choose|i: int| 0 <= i < ints.len() && ints[i] == v;
            assert(ints[i] == a[i]);
        }
    }
    vstd::set_lib::lemma_subset_equality(ints.to_set(), all);
    assert(ints.to_set().contains(x));
    let i = choose|i: int| 0 <= i < ints.len() && ints[i] == x;
    assert(a[i] == x);
}

/// Two such lists agree at every place, from the first one on.
proof fn lemma_same_at<K: Ranked>(keys: Seq<K>, a: Seq<usize>, b: Seq<usize>, k: int)
    requires
        is_order(keys, a),
        is_order(keys, b),
        0 <= k < a.len(),
    ensures
        a[k] == b[k],
    decreases k,
{
    assert forall|i: int| 0 <= i < k implies a[i] == b[i] by {
        lemma_same_at(keys, a, b, i);
    }
    if a[k] != b[k] {
        lemma_holds_all(keys, a, b[k] as int);
        lemma_holds_all(keys, b, a[k] as int);
        let i = choose|i: int| 0 <= i < a.len() && a[i] == b[k];
        let j = choose|j: int| 0 <= j < b.len() && b[j] == a[k];
        if i < k {
            assert(b[i] == b[k]);
            assert(in_order(keys, b[i] as int, b[k] as int));
            K::one_way(&keys[b[k] as int], &keys[b[k] as int]);
        }
        if j < k {
            assert(a[j] == a[k]);
            assert(in_order(keys, a[j] as int, a[k] as int));
            K::one_way(&keys[a[k] as int], &keys[a[k] as int]);
        }
        assert(i > k && j > k);
        assert(in_order(keys, a[k] as int, a[i] as int));
        assert(in_order(keys, b[k] as int, b[j] as int));
        K::one_way(&keys[a[k] as int], &keys[b[k] as int]);
    }
}

} // verus!
