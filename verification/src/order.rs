//! Stable ordering.
//!
//! An arrangement of `n` items is a sequence of their positions. The stable
//! arrangement for an order puts smaller items first and keeps items that the
//! order does not tell apart as they stood.

use vstd::prelude::*;
use crate::text;

verus! {

/// Where an arrangement takes the item at position `x`: behind the leading
/// items that may stand before it.
pub open spec fn place(o: Seq<int>, x: int, le: spec_fn(int, int) -> bool) -> nat
    decreases o.len(),
{
    if o.len() == 0 || !le(o[0], x) {
        0
    } else {
        1 + place(o.drop_first(), x, le)
    }
}

/// The stable arrangement of the positions below `n`.
pub open spec fn stable_order(n: nat, le: spec_fn(int, int) -> bool) -> Seq<int>
    decreases n,
{
    if n == 0 {
        Seq::empty()
    } else {
        let o = stable_order((n - 1) as nat, le);
        o.insert(place(o, n - 1, le) as int, n - 1)
    }
}

/// The items at the positions `o`, in that order.
pub open spec fn pick<T>(s: Seq<T>, o: Seq<int>) -> Seq<T> {
    Seq::new(o.len(), |i: int| s[o[i]])
}

/// Whether `le` orders the positions below `n`.
pub open spec fn orders(n: nat, le: spec_fn(int, int) -> bool) -> bool {
    &&& forall|i: int, j: int|
        0 <= i < n && 0 <= j < n ==> (#[trigger] le(i, j)) || le(j, i)
    &&& forall|i: int, j: int, k: int|
        0 <= i < n && 0 <= j < n && 0 <= k < n && (#[trigger] le(i, j)) && (#[trigger] le(j, k))
            ==> le(i, k)
}

/// Whether `o` arranges the positions below `n`: each occurs once, none stands
/// before a smaller one, and equal ones stand as they stood.
pub open spec fn arranges(o: Seq<int>, n: nat, le: spec_fn(int, int) -> bool) -> bool {
    &&& o.len() == n
    &&& forall|i: int| 0 <= i < o.len() ==> 0 <= #[trigger] o[i] < n
    &&& o.no_duplicates()
    &&& forall|i: int, j: int|
        0 <= i < j < o.len() ==> le(#[trigger] o[i], #[trigger] o[j]) && (le(o[j], o[i]) ==> o[i]
            < o[j])
}

proof fn lemma_place(o: Seq<int>, x: int, le: spec_fn(int, int) -> bool)
    ensures
        place(o, x, le) <= o.len(),
        forall|i: int| 0 <= i < place(o, x, le) ==> le(#[trigger] o[i], x),
        place(o, x, le) < o.len() ==> !le(o[place(o, x, le) as int], x),
    decreases o.len(),
{
    if o.len() > 0 && le(o[0], x) {
        let t = o.drop_first();
        lemma_place(t, x, le);
        assert forall|i: int| 0 <= i < place(o, x, le) implies le(#[trigger] o[i], x) by {
            if i > 0 {
                assert(t[i - 1] == o[i]);
            }
        }
        if place(o, x, le) < o.len() {
            assert(t[place(t, x, le) as int] == o[place(o, x, le) as int]);
        }
    }
}

/// The stable arrangement arranges: it holds every position once, in order,
/// and keeps equal items as they stood.
pub proof fn law_stable_order_arranges(n: nat, le: spec_fn(int, int) -> bool)
    requires
        orders(n, le),
    ensures
        arranges(stable_order(n, le), n, le),
    decreases n,
{
    if n > 0 {
        let m = (n - 1) as nat;
        let o = stable_order(m, le);
        let x = n - 1;
        assert(orders(m, le));
        law_stable_order_arranges(m, le);
        lemma_place(o, x, le);
        let p = place(o, x, le) as int;
        let r = o.insert(p, x);
        assert forall|i: int| 0 <= i < r.len() implies r[i] == (if i < p {
            o[i]
        } else if i == p {
            x
        } else {
            o[i - 1]
        }) by {}
        assert forall|k: int| p <= k < o.len() implies le(x, #[trigger] o[k]) && !le(o[k], x) by {
            assert(!le(o[p], x));
            assert(le(o[p], x) || le(x, o[p]));
            assert(le(o[p], o[p]) || le(o[p], o[p]));
            assert(k == p || le(o[p], o[k]));
            if le(o[k], x) {
                assert(le(o[p], o[k]));
                assert(le(o[p], x));
            }
            assert(le(x, o[k]) || le(o[k], x));
        }
        assert forall|i: int, j: int| 0 <= i < j < r.len() implies le(
            #[trigger] r[i],
            #[trigger] r[j],
        ) && (le(r[j], r[i]) ==> r[i] < r[j]) by {
            if j < p {
                assert(le(o[i], o[j]));
            } else if i < p && j == p {
                assert(le(o[i], x));
            } else if i < p {
                assert(le(o[i], o[j - 1]));
            } else if i == p {
                assert(le(x, o[j - 1]));
            } else {
                assert(le(o[i - 1], o[j - 1]));
            }
        }
        assert(r.no_duplicates()) by {
            assert forall|i: int, j: int| 0 <= i < r.len() && 0 <= j < r.len() && i != j implies r[i]
                != r[j] by {}
        }
    }
}

/// An order has one stable arrangement only.
pub proof fn law_arrangement_unique(
    a: Seq<int>,
    b: Seq<int>,
    n: nat,
    le: spec_fn(int, int) -> bool,
)
    requires
        arranges(a, n, le),
        arranges(b, n, le),
    ensures
        a == b,
    decreases n,
{
    if n == 0 {
        assert(a =~= b);
    } else {
        lemma_position(a, n, n - 1);
        lemma_position(b, n, n - 1);
        let ia = choose|i: int| 0 <= i < a.len() && a[i] == n - 1;
        let ib = choose|i: int| 0 <= i < b.len() && b[i] == n - 1;
        let a2 = a.remove(ia);
        let b2 = b.remove(ib);
        lemma_arranges_remove(a, ia, n, le);
        lemma_arranges_remove(b, ib, n, le);
        law_arrangement_unique(a2, b2, (n - 1) as nat, le);
        // The largest position stands behind every item that may precede it.
        if ia < ib {
            assert(b[ia] == b2[ia]);
            assert(a[ia + 1] == a2[ia]);
            assert(le(b[ia], b[ib]));
            assert(le(a[ia], a[ia + 1]));
            assert(a[ia] < a[ia + 1]);
            assert(false);
        }
        if ib < ia {
            assert(a[ib] == a2[ib]);
            assert(b[ib + 1] == b2[ib]);
            assert(le(a[ib], a[ia]));
            assert(le(b[ib], b[ib + 1]));
            assert(b[ib] < b[ib + 1]);
            assert(false);
        }
        assert forall|i: int| 0 <= i < a.len() implies a[i] == b[i] by {
            if i < ia {
                assert(a2[i] == a[i] && b2[i] == b[i]);
            } else if i > ia {
                assert(a2[i - 1] == a[i] && b2[i - 1] == b[i]);
            }
        }
        assert(a =~= b);
    }
}

/// `n` distinct positions below `n` include every one.
pub proof fn lemma_position(a: Seq<int>, n: nat, k: int)
    requires
        0 <= k < n,
        a.len() == n,
        a.no_duplicates(),
        forall|i: int| 0 <= i < a.len() ==> 0 <= #[trigger] a[i] < n,
    ensures
        exists|i: int| 0 <= i < a.len() && a[i] == k,
{
    if !(exists|i: int| 0 <= i < a.len() && a[i] == k) {
        let s = a.to_set();
        a.unique_seq_to_set();
        let bound = vstd::set_lib::set_int_range(0, n as int).remove(k);
        vstd::set_lib::lemma_int_range(0, n as int);
        assert(s.subset_of(bound)) by {
            assert forall|x: int| s.contains(x) implies bound.contains(x) by {
                let i = choose|i: int| 0 <= i < a.len() && a[i] == x;
                assert(0 <= a[i] < n);
            }
        }
        vstd::set_lib::lemma_len_subset(s, bound);
    }
}

proof fn lemma_arranges_remove(a: Seq<int>, i: int, n: nat, le: spec_fn(int, int) -> bool)
    requires
        n > 0,
        arranges(a, n, le),
        0 <= i < a.len(),
        a[i] == n - 1,
    ensures
        arranges(a.remove(i), (n - 1) as nat, le),
{
    let r = a.remove(i);
    assert forall|j: int| 0 <= j < r.len() implies r[j] == (if j < i {
        a[j]
    } else {
        a[j + 1]
    }) by {}
    assert forall|j: int| 0 <= j < r.len() implies 0 <= #[trigger] r[j] < n - 1 by {
        assert(a[j] != a[i] || j == i);
        assert(a[j + 1] != a[i] || j + 1 == i);
    }
    assert(r.no_duplicates()) by {
        assert forall|j: int, k: int| 0 <= j < r.len() && 0 <= k < r.len() && j != k implies r[j]
            != r[k] by {}
    }
}

// ---------------------------------------------------------------------------
// Numbers
// ---------------------------------------------------------------------------

/// The order of positions by the numbers at them.
pub open spec fn by_number(keys: Seq<int>) -> spec_fn(int, int) -> bool {
    |i: int, j: int| keys[i] <= keys[j]
}

/// Numbers order their positions.
pub proof fn lemma_by_number_orders(keys: Seq<int>)
    ensures
        orders(keys.len(), by_number(keys)),
{
}

/// The numbers of a list as mathematical integers.
pub open spec fn ints(v: Seq<i128>) -> Seq<int> {
    Seq::new(v.len(), |i: int| v[i] as int)
}

/// Positions as mathematical integers.
pub open spec fn positions(v: Seq<usize>) -> Seq<int> {
    Seq::new(v.len(), |i: int| v[i] as int)
}

/// Arranges positions by the numbers at them.
pub fn arrange_by_number(keys: &Vec<i128>) -> (r: Vec<usize>)
    ensures
        positions(r@) == stable_order(keys@.len(), by_number(ints(keys@))),
        arranges(positions(r@), keys@.len(), by_number(ints(keys@))),
{
    let ghost le = by_number(ints(keys@));
    let mut r: Vec<usize> = Vec::new();
    assert(positions(r@) =~= stable_order(0, le));
    let mut n: usize = 0;
    while n < keys.len()
        invariant
            n <= keys@.len(),
            le == by_number(ints(keys@)),
            positions(r@) == stable_order(n as nat, le),
            r@.len() == n,
            forall|i: int| 0 <= i < n ==> #[trigger] r@[i] < n,
        decreases keys@.len() - n,
    {
        let ghost o = positions(r@);
        let mut p: usize = 0;
        assert(o.skip(0) =~= o);
        while p < r.len() && keys[r[p]] <= keys[n]
            invariant
                n < keys@.len(),
                r@.len() == n,
                p <= r@.len(),
                o == positions(r@),
                le == by_number(ints(keys@)),
                forall|i: int| 0 <= i < n ==> #[trigger] r@[i] < n,
                place(o, n as int, le) == p + place(o.skip(p as int), n as int, le),
            decreases r@.len() - p,
        {
            assert(o.skip(p as int)[0] == r@[p as int]);
            assert(o.skip(p as int).drop_first() =~= o.skip(p + 1));
            p += 1;
        }
        assert(place(o.skip(p as int), n as int, le) == 0) by {
            if p < r@.len() {
                assert(o.skip(p as int)[0] == r@[p as int]);
            }
        }
        r.insert(p, n);
        assert(positions(r@) =~= o.insert(p as int, n as int));
        n += 1;
    }
    proof {
        lemma_by_number_orders(ints(keys@));
        law_stable_order_arranges(keys@.len(), le);
    }
    r
}

// ---------------------------------------------------------------------------
// Texts
// ---------------------------------------------------------------------------

/// Whether `a` stands before or at `b` in the order of texts: compared
/// character by character, a text stands before its own extensions. UTF-8 keeps
/// this order, so it is the order of the encoded bytes too.
pub open spec fn text_le(a: Seq<char>, b: Seq<char>) -> bool
    decreases a.len(),
{
    if a.len() == 0 {
        true
    } else if b.len() == 0 {
        false
    } else if a[0] != b[0] {
        a[0] < b[0]
    } else {
        text_le(a.drop_first(), b.drop_first())
    }
}

/// Any two texts are ordered.
pub proof fn lemma_text_le_total(a: Seq<char>, b: Seq<char>)
    ensures
        text_le(a, b) || text_le(b, a),
    decreases a.len(),
{
    if a.len() > 0 && b.len() > 0 && a[0] == b[0] {
        lemma_text_le_total(a.drop_first(), b.drop_first());
    }
}

/// The order of texts is transitive.
pub proof fn lemma_text_le_transitive(a: Seq<char>, b: Seq<char>, c: Seq<char>)
    requires
        text_le(a, b),
        text_le(b, c),
    ensures
        text_le(a, c),
    decreases a.len(),
{
    if a.len() > 0 && b.len() > 0 && c.len() > 0 && a[0] == b[0] && b[0] == c[0] {
        lemma_text_le_transitive(a.drop_first(), b.drop_first(), c.drop_first());
    }
}

/// Compares two texts.
pub fn text_before(a: &str, b: &str) -> (r: bool)
    ensures
        r == text_le(a@, b@),
{
    let x = text::chars_of(a);
    let y = text::chars_of(b);
    let mut i: usize = 0;
    assert(x@.skip(0) =~= x@);
    assert(y@.skip(0) =~= y@);
    while i < x.len() && i < y.len() && x[i] == y[i]
        invariant
            i <= x@.len(),
            i <= y@.len(),
            text_le(x@, y@) == text_le(x@.skip(i as int), y@.skip(i as int)),
        decreases x@.len() - i,
    {
        assert(x@.skip(i as int).drop_first() =~= x@.skip(i + 1));
        assert(y@.skip(i as int).drop_first() =~= y@.skip(i + 1));
        i += 1;
    }
    if i >= x.len() {
        true
    } else if i >= y.len() {
        false
    } else {
        assert(x@.skip(i as int)[0] == x@[i as int]);
        assert(y@.skip(i as int)[0] == y@[i as int]);
        x[i] < y[i]
    }
}

/// The order of positions by the texts at them.
pub open spec fn by_text(keys: Seq<Seq<char>>) -> spec_fn(int, int) -> bool {
    |i: int, j: int| text_le(keys[i], keys[j])
}

/// Texts order their positions.
pub proof fn lemma_by_text_orders(keys: Seq<Seq<char>>)
    ensures
        orders(keys.len(), by_text(keys)),
{
    let le = by_text(keys);
    assert forall|i: int, j: int| 0 <= i < keys.len() && 0 <= j < keys.len() implies (#[trigger] le(
        i,
        j,
    )) || le(j, i) by {
        lemma_text_le_total(keys[i], keys[j]);
    }
    assert forall|i: int, j: int, k: int|
        0 <= i < keys.len() && 0 <= j < keys.len() && 0 <= k < keys.len() && (#[trigger] le(i, j))
            && (#[trigger] le(j, k)) implies le(i, k) by {
        lemma_text_le_transitive(keys[i], keys[j], keys[k]);
    }
}

/// The texts in alphabetical order.
pub open spec fn sorted_texts(s: Seq<Seq<char>>) -> Seq<Seq<char>> {
    pick(s, stable_order(s.len(), by_text(s)))
}

/// Arranges positions by the texts at them.
pub fn arrange_by_text(keys: &Vec<String>) -> (r: Vec<usize>)
    ensures
        positions(r@) == stable_order(keys@.len(), by_text(text::strs(keys@))),
        arranges(positions(r@), keys@.len(), by_text(text::strs(keys@))),
{
    let ghost le = by_text(text::strs(keys@));
    let mut r: Vec<usize> = Vec::new();
    assert(positions(r@) =~= stable_order(0, le));
    let mut n: usize = 0;
    while n < keys.len()
        invariant
            n <= keys@.len(),
            le == by_text(text::strs(keys@)),
            positions(r@) == stable_order(n as nat, le),
            r@.len() == n,
            forall|i: int| 0 <= i < n ==> #[trigger] r@[i] < n,
        decreases keys@.len() - n,
    {
        let ghost o = positions(r@);
        let mut p: usize = 0;
        assert(o.skip(0) =~= o);
        while p < r.len() && text_before(keys[r[p]].as_str(), keys[n].as_str())
            invariant
                n < keys@.len(),
                r@.len() == n,
                p <= r@.len(),
                o == positions(r@),
                le == by_text(text::strs(keys@)),
                forall|i: int| 0 <= i < n ==> #[trigger] r@[i] < n,
                place(o, n as int, le) == p + place(o.skip(p as int), n as int, le),
            decreases r@.len() - p,
        {
            assert(o.skip(p as int)[0] == r@[p as int]);
            assert(o.skip(p as int).drop_first() =~= o.skip(p + 1));
            p += 1;
        }
        assert(place(o.skip(p as int), n as int, le) == 0) by {
            if p < r@.len() {
                assert(o.skip(p as int)[0] == r@[p as int]);
            }
        }
        r.insert(p, n);
        assert(positions(r@) =~= o.insert(p as int, n as int));
        n += 1;
    }
    proof {
        lemma_by_text_orders(text::strs(keys@));
        law_stable_order_arranges(keys@.len(), le);
    }
    r
}

/// The strings of `v` in alphabetical order.
pub fn sort_strings(v: &Vec<String>) -> (r: Vec<String>)
    ensures
        text::strs(r@) == sorted_texts(text::strs(v@)),
{
    let order = arrange_by_text(v);
    let mut r: Vec<String> = Vec::new();
    let mut i: usize = 0;
    while i < order.len()
        invariant
            i <= order@.len(),
            arranges(positions(order@), v@.len(), by_text(text::strs(v@))),
            r@.len() == i,
            forall|j: int| 0 <= j < i ==> (#[trigger] r@[j])@ == v@[order@[j] as int]@,
        decreases order@.len() - i,
    {
        assert(0 <= positions(order@)[i as int] < v@.len());
        r.push(v[order[i]].clone());
        i += 1;
    }
    assert(text::strs(r@) =~= sorted_texts(text::strs(v@))) by {
        assert forall|j: int| 0 <= j < r@.len() implies text::strs(r@)[j] == sorted_texts(text::strs(v@))[j] by {
            assert(0 <= positions(order@)[j] < v@.len());
            assert(r@[j]@ == v@[order@[j] as int]@);
        }
    }
    r
}

/// Sorting puts every text into its place and loses none: the result holds each
/// position's text once, in ascending order, and equal texts as they stood.
pub proof fn law_sorted_texts(s: Seq<Seq<char>>) -> (o: Seq<int>)
    ensures
        sorted_texts(s).len() == s.len(),
        o.len() == s.len(),
        o.no_duplicates(),
        forall|i: int| 0 <= i < o.len() ==> 0 <= #[trigger] o[i] < s.len(),
        forall|i: int| 0 <= i < o.len() ==> sorted_texts(s)[i] == s[#[trigger] o[i]],
        forall|i: int, j: int|
            0 <= i < j < o.len() ==> text_le(s[#[trigger] o[i]], s[#[trigger] o[j]]),
        forall|i: int, j: int|
            0 <= i < j < o.len() && s[#[trigger] o[i]] == s[#[trigger] o[j]] ==> o[i] < o[j],
        forall|x: Seq<char>| #[trigger] sorted_texts(s).contains(x) <==> s.contains(x),
{
    let le = by_text(s);
    lemma_by_text_orders(s);
    law_stable_order_arranges(s.len(), le);
    let o = stable_order(s.len(), le);
    let r = sorted_texts(s);
    assert forall|i: int, j: int| 0 <= i < j < o.len() implies text_le(
        s[#[trigger] o[i]],
        s[#[trigger] o[j]],
    ) && (s[o[i]] == s[o[j]] ==> o[i] < o[j]) by {
        assert(le(o[i], o[j]));
        if s[o[i]] == s[o[j]] {
            assert(le(o[j], o[i]));
        }
    }
    assert forall|x: Seq<char>| #[trigger] r.contains(x) <==> s.contains(x) by {
        if r.contains(x) {
            let i = choose|i: int| 0 <= i < r.len() && r[i] == x;
            assert(s[o[i]] == x);
        }
        if s.contains(x) {
            let k = choose|k: int| 0 <= k < s.len() && s[k] == x;
            lemma_position(o, s.len(), k);
            let i = choose|i: int| 0 <= i < o.len() && o[i] == k;
            assert(r[i] == x);
        }
    }
    o
}

/// Two texts are ordered by the first character in which they differ; a text stands
/// before its own extensions.
pub proof fn law_first_difference_decides(a: Seq<char>, b: Seq<char>, k: int)
    requires
        0 <= k <= a.len(),
        k <= b.len(),
        forall|i: int| 0 <= i < k ==> #[trigger] a[i] == b[i],
    ensures
        k < a.len() && k < b.len() && a[k] != b[k] ==> (text_le(a, b) <==> a[k] < b[k]),
        k == a.len() ==> text_le(a, b),
        k == b.len() && k < a.len() ==> !text_le(a, b),
    decreases k,
{
    if k > 0 {
        assert(a[0] == b[0]);
        let x = a.drop_first();
        let y = b.drop_first();
        assert forall|i: int| 0 <= i < k - 1 implies #[trigger] x[i] == y[i] by {
            assert(a[i + 1] == b[i + 1]);
        }
        law_first_difference_decides(x, y, k - 1);
    }
}

} // verus!
