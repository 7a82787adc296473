//! Marked items of a list: marking, and what is left, kept or moved.
//!
//! Marks are the indices of the marked items, in rising order.
use crate::text::{lemma_strs_push, strs};
use vstd::prelude::*;

verus! {

/// In rising order, none twice.
pub open spec fn rising(m: Seq<usize>) -> bool {
    forall|i: int, j: int| 0 <= i < j < m.len() ==> #[trigger] m[i] < #[trigger] m[j]
}

/// The marks with `i` added, or taken away where it was among them.
pub open spec fn toggled(m: Seq<usize>, i: usize) -> Seq<usize>
    decreases m.len(),
{
    if m.len() == 0 {
        seq![i]
    } else if m[0] == i {
        m.skip(1)
    } else if i < m[0] {
        seq![i] + m
    } else {
        seq![m[0]] + toggled(m.skip(1), i)
    }
}

/// The marked items, in order.
pub open spec fn kept(items: Seq<Seq<char>>, m: Seq<usize>) -> Seq<Seq<char>>
    decreases items.len(),
{
    if items.len() == 0 {
        Seq::empty()
    } else {
        let before = kept(items.drop_last(), m);
        if m.contains((items.len() - 1) as usize) {
            before.push(items.last())
        } else {
            before
        }
    }
}

/// The items that are not marked, in order.
pub open spec fn dropped(items: Seq<Seq<char>>, m: Seq<usize>) -> Seq<Seq<char>>
    decreases items.len(),
{
    if items.len() == 0 {
        Seq::empty()
    } else {
        let before = dropped(items.drop_last(), m);
        if m.contains((items.len() - 1) as usize) {
            before
        } else {
            before.push(items.last())
        }
    }
}

/// How many marks lie below `n`.
pub open spec fn count_below(m: Seq<usize>, n: int) -> int
    decreases m.len(),
{
    if m.len() == 0 {
        0
    } else {
        count_below(m.drop_last(), n) + if m.last() < n {
            1int
        } else {
            0
        }
    }
}

/// Where the marked items go when they are moved to `dest`: that place, less the
/// marked items before it, and not past the end of the others.
pub open spec fn landing(items: Seq<Seq<char>>, m: Seq<usize>, dest: int) -> int {
    let at = dest - count_below(m, dest);
    let len = dropped(items, m).len();
    if at < 0 {
        0
    } else if at > len {
        len as int
    } else {
        at
    }
}

/// The items with the marked ones moved together to `dest`.
pub open spec fn moved(items: Seq<Seq<char>>, m: Seq<usize>, dest: int) -> Seq<Seq<char>> {
    let rest = dropped(items, m);
    let at = landing(items, m, dest);
    rest.take(at) + kept(items, m) + rest.skip(at)
}

/// The items after the marked ones are taken out one at a time, the last first.
pub open spec fn removed_one_by_one(items: Seq<Seq<char>>, m: Seq<usize>) -> Seq<Seq<char>>
    decreases m.len(),
{
    if m.len() == 0 {
        items
    } else {
        removed_one_by_one(
            if m.last() < items.len() {
                items.remove(m.last() as int)
            } else {
                items
            },
            m.drop_last(),
        )
    }
}

// ---------------------------------------------------------------------------
// Executable counterparts
// ---------------------------------------------------------------------------

/// Whether `i` is marked.
pub fn is_marked(m: &Vec<usize>, i: usize) -> (r: bool)
    ensures
        r == m@.contains(i),
{
    for k in 0..m.len()
        invariant
            forall|j: int| 0 <= j < k ==> m@[j] != i,
    {
        if m[k] == i {
            return true;
        }
    }
    false
}

/// Adds the mark `i`, or takes it away.
pub fn toggle(m: &mut Vec<usize>, i: usize)
    requires
        rising(old(m)@),
    ensures
        final(m)@ == toggled(old(m)@, i),
        rising(final(m)@),
{
    let ghost all = m@;
    let mut k: usize = 0;
    assert(all.skip(0) =~= all);
    assert(all.take(0) + toggled(all.skip(0), i) =~= toggled(all, i));
    while k < m.len() && m[k] < i
        invariant
            m@ == all,
            k <= m@.len(),
            all.take(k as int) + toggled(all.skip(k as int), i) == toggled(all, i),
        decreases m@.len() - k,
    {
        proof {
            let rest = all.skip(k as int);
            assert(rest.skip(1) =~= all.skip(k + 1));
            assert(all.take(k + 1) =~= all.take(k as int).push(all[k as int]));
            assert(all.take(k as int) + (seq![rest[0]] + toggled(all.skip(k + 1), i)) =~= all.take(
                k + 1,
            ) + toggled(all.skip(k + 1), i));
        }
        k = k + 1;
    }
    let ghost rest = all.skip(k as int);
    if k < m.len() && m[k] == i {
        m.remove(k);
        proof {
            assert(rest[0] == i);
            assert(all.take(k as int) + rest.skip(1) =~= all.remove(k as int));
        }
    } else {
        m.insert(k, i);
        proof {
            if k < all.len() {
                assert(rest[0] == all[k as int]);
            }
            assert(toggled(rest, i) =~= seq![i] + rest);
            assert(all.take(k as int) + (seq![i] + rest) =~= all.insert(k as int, i));
        }
    }
    proof {
        lemma_toggled(all, i);
    }
}

/// The marked items.
pub fn keep_marked(items: &Vec<String>, m: &Vec<usize>) -> (r: Vec<String>)
    ensures
        strs(r@) == kept(strs(items@), m@),
{
    let ghost all = strs(items@);
    let mut out: Vec<String> = Vec::new();
    assert(strs(out@) =~= kept(all.take(0), m@));
    for i in 0..items.len()
        invariant
            all == strs(items@),
            strs(out@) == kept(all.take(i as int), m@),
    {
        proof {
            assert(all.take(i + 1).drop_last() =~= all.take(i as int));
            assert(all.take(i + 1).last() == items@[i as int]@);
        }
        if is_marked(m, i) {
            let s: String = items[i].clone();
            proof {
                lemma_strs_push(out@, s);
            }
            out.push(s);
        }
    }
    assert(all.take(all.len() as int) =~= all);
    out
}

/// The items that are not marked.
pub fn drop_marked(items: &Vec<String>, m: &Vec<usize>) -> (r: Vec<String>)
    ensures
        strs(r@) == dropped(strs(items@), m@),
{
    let ghost all = strs(items@);
    let mut out: Vec<String> = Vec::new();
    assert(strs(out@) =~= dropped(all.take(0), m@));
    for i in 0..items.len()
        invariant
            all == strs(items@),
            strs(out@) == dropped(all.take(i as int), m@),
    {
        proof {
            assert(all.take(i + 1).drop_last() =~= all.take(i as int));
            assert(all.take(i + 1).last() == items@[i as int]@);
        }
        if !is_marked(m, i) {
            let s: String = items[i].clone();
            proof {
                lemma_strs_push(out@, s);
            }
            out.push(s);
        }
    }
    assert(all.take(all.len() as int) =~= all);
    out
}

fn marks_below(m: &Vec<usize>, n: usize) -> (r: usize)
    ensures
        r == count_below(m@, n as int),
{
    let mut c: usize = 0;
    for i in 0..m.len()
        invariant
            c <= i,
            c == count_below(m@.take(i as int), n as int),
    {
        proof {
            assert(m@.take(i + 1).drop_last() =~= m@.take(i as int));
        }
        if m[i] < n {
            c = c + 1;
        }
    }
    assert(m@.take(m@.len() as int) =~= m@);
    c
}

/// The items with the marked ones moved together to `dest`, and where they are now.
pub fn move_marked(items: &Vec<String>, m: &Vec<usize>, dest: usize) -> (r: (Vec<String>, usize))
    ensures
        strs(r.0@) == moved(strs(items@), m@, dest as int),
        r.1 == landing(strs(items@), m@, dest as int),
{
    let marked: Vec<String> = keep_marked(items, m);
    let mut rest: Vec<String> = drop_marked(items, m);
    let below: usize = marks_below(m, dest);
    let at: usize = if below > dest {
        0
    } else {
        dest - below
    };
    let at: usize = if at > rest.len() {
        rest.len()
    } else {
        at
    };
    let mut out: Vec<String> = Vec::new();
    let ghost r = strs(rest@);
    let ghost k = strs(marked@);
    assert(strs(out@) =~= r.take(0));
    for i in 0..at
        invariant
            at <= rest@.len(),
            r == strs(rest@),
            strs(out@) == r.take(i as int),
    {
        let s: String = rest[i].clone();
        proof {
            lemma_strs_push(out@, s);
            assert(r.take(i + 1) =~= r.take(i as int).push(r[i as int]));
        }
        out.push(s);
    }
    assert(strs(out@) =~= r.take(at as int) + k.take(0));
    for i in 0..marked.len()
        invariant
            k == strs(marked@),
            strs(out@) == r.take(at as int) + k.take(i as int),
    {
        let s: String = marked[i].clone();
        proof {
            lemma_strs_push(out@, s);
            assert(r.take(at as int) + k.take(i + 1) =~= (r.take(at as int) + k.take(i as int)).push(
                k[i as int],
            ));
        }
        out.push(s);
    }
    assert(k.take(k.len() as int) =~= k);
    let ghost head = r.take(at as int) + k;
    assert(strs(out@) =~= head + r.skip(at as int).take(0));
    for i in at..rest.len()
        invariant
            at <= i,
            r == strs(rest@),
            strs(out@) == head + r.skip(at as int).take(i - at),
    {
        let s: String = rest[i].clone();
        proof {
            lemma_strs_push(out@, s);
            let tail = r.skip(at as int);
            assert(tail[i - at] == r[i as int]);
            assert(head + tail.take(i + 1 - at) =~= (head + tail.take(i - at)).push(tail[i - at]));
        }
        out.push(s);
    }
    assert(r.skip(at as int).take(r.len() - at) =~= r.skip(at as int));
    (out, at)
}

// ---------------------------------------------------------------------------
// Laws
// ---------------------------------------------------------------------------

/// Toggling a mark changes that mark and no other, and keeps the order.
pub proof fn lemma_toggled(m: Seq<usize>, i: usize)
    requires
        rising(m),
    ensures
        rising(toggled(m, i)),
        forall|x: usize| #[trigger] toggled(m, i).contains(x) <==> (if x == i {
            !m.contains(i)
        } else {
            m.contains(x)
        }),
    decreases m.len(),
{
    if m.len() == 0 {
        assert(toggled(m, i)[0] == i);
    } else if m[0] == i {
        let t = m.skip(1);
        assert forall|x: usize| t.contains(x) <==> x != i && m.contains(x) by {
            if t.contains(x) {
                let k = choose|k: int| 0 <= k < t.len() && t[k] == x;
                assert(m[k + 1] == x);
            }
            if x != i && m.contains(x) {
                let k = choose|k: int| 0 <= k < m.len() && m[k] == x;
                assert(t[k - 1] == x);
            }
        }
        assert(m.contains(i));
    } else if i < m[0] {
        let t = seq![i] + m;
        assert(t[0] == i);
        assert forall|x: usize| t.contains(x) <==> x == i || m.contains(x) by {
            if t.contains(x) && x != i {
                let k = choose|k: int| 0 <= k < t.len() && t[k] == x;
                assert(m[k - 1] == x);
            }
            if m.contains(x) {
                let k = choose|k: int| 0 <= k < m.len() && m[k] == x;
                assert(t[k + 1] == x);
            }
        }
        assert(!m.contains(i)) by {
            if m.contains(i) {
                let k = choose|k: int| 0 <= k < m.len() && m[k] == i;
                assert(k > 0 ==> m[0] < m[k]);
            }
        }
    } else {
        let rest = m.skip(1);
        lemma_toggled(rest, i);
        let u = toggled(rest, i);
        let t = seq![m[0]] + u;
        assert forall|x: usize| rest.contains(x) <==> x != m[0] && m.contains(x) by {
            if rest.contains(x) {
                let k = choose|k: int| 0 <= k < rest.len() && rest[k] == x;
                assert(m[k + 1] == x);
                assert(m[0] < m[k + 1]);
            }
            if x != m[0] && m.contains(x) {
                let k = choose|k: int| 0 <= k < m.len() && m[k] == x;
                assert(rest[k - 1] == x);
            }
        }
        assert forall|x: usize| t.contains(x) <==> x == m[0] || u.contains(x) by {
            if t.contains(x) && x != m[0] {
                let k = choose|k: int| 0 <= k < t.len() && t[k] == x;
                assert(u[k - 1] == x);
            }
            if u.contains(x) {
                let k = choose|k: int| 0 <= k < u.len() && u[k] == x;
                assert(t[k + 1] == x);
            }
            assert(t[0] == m[0]);
        }
        assert(m.contains(m[0]));
        assert forall|a: int, b: int| 0 <= a < b < t.len() implies #[trigger] t[a] < #[trigger] t[b] by {
            if a == 0 {
                let x = t[b];
                assert(u[b - 1] == x);
                assert(u.contains(x));
                if x != i {
                    assert(rest.contains(x));
                    let k = choose|k: int| 0 <= k < m.len() && m[k] == x;
                    assert(m[0] < m[k]);
                }
            } else {
                assert(t[a] == u[a - 1] && t[b] == u[b - 1]);
            }
        }
    }
}

/// Marking an item twice leaves the marks as they were.
pub proof fn toggling_twice_changes_nothing(m: Seq<usize>, i: usize)
    requires
        rising(m),
    ensures
        toggled(toggled(m, i), i) == m,
    decreases m.len(),
{
    if m.len() == 0 {
        assert(toggled(seq![i], i) =~= m);
    } else if m[0] == i {
        let t = m.skip(1);
        if t.len() > 0 {
            assert(t[0] == m[1]);
            assert(m[0] < m[1]);
        }
        assert(toggled(t, i) =~= seq![i] + t);
        assert(seq![i] + t =~= m);
    } else if i < m[0] {
        let t = seq![i] + m;
        assert(t[0] == i);
        assert(t.skip(1) =~= m);
    } else {
        let rest = m.skip(1);
        assert(rising(rest));
        toggling_twice_changes_nothing(rest, i);
        let t = seq![m[0]] + toggled(rest, i);
        assert(t[0] == m[0]);
        assert(t.skip(1) =~= toggled(rest, i));
        assert(seq![m[0]] + rest =~= m);
    }
}

/// Nothing is lost and nothing added: the marked items and the others together are
/// the items.
pub proof fn kept_and_dropped_are_all(items: Seq<Seq<char>>, m: Seq<usize>)
    ensures
        kept(items, m).to_multiset().add(dropped(items, m).to_multiset()) == items.to_multiset(),
        kept(items, m).len() + dropped(items, m).len() == items.len(),
    decreases items.len(),
{
    broadcast use vstd::seq_lib::to_multiset_build;

    if items.len() == 0 {
        assert(items =~= Seq::empty());
        assert(kept(items, m).to_multiset().add(dropped(items, m).to_multiset())
            =~= items.to_multiset()) by {
            items.to_multiset_ensures();
        }
    } else {
        let front = items.drop_last();
        kept_and_dropped_are_all(front, m);
        assert(items =~= front.push(items.last()));
        assert(kept(items, m).to_multiset().add(dropped(items, m).to_multiset())
            =~= items.to_multiset());
    }
}

/// Moving marked items reorders the list: every item is still there, as often as
/// before.
pub proof fn moving_keeps_every_item(items: Seq<Seq<char>>, m: Seq<usize>, dest: int)
    ensures
        moved(items, m, dest).to_multiset() == items.to_multiset(),
{
    kept_and_dropped_are_all(items, m);
    let rest = dropped(items, m);
    let at = landing(items, m, dest);
    let k = kept(items, m);
    vstd::seq_lib::lemma_multiset_commutative(rest.take(at) + k, rest.skip(at));
    vstd::seq_lib::lemma_multiset_commutative(rest.take(at), k);
    vstd::seq_lib::lemma_multiset_commutative(rest.take(at), rest.skip(at));
    assert(rest.take(at) + rest.skip(at) =~= rest);
    assert(moved(items, m, dest).to_multiset() =~= items.to_multiset());
}

proof fn lemma_dropped_past_marks(items: Seq<Seq<char>>, m: Seq<usize>, n: int)
    requires
        0 <= n <= items.len(),
        items.len() <= usize::MAX,
        forall|k: int| 0 <= k < m.len() ==> (#[trigger] m[k]) < n,
    ensures
        dropped(items, m) == dropped(items.take(n), m) + items.skip(n),
    decreases items.len() - n,
{
    if n == items.len() {
        assert(items.take(n) =~= items);
        assert(items.skip(n) =~= Seq::empty());
        assert(dropped(items, m) + Seq::empty() =~= dropped(items, m));
    } else {
        let front = items.drop_last();
        lemma_dropped_past_marks_front(items, m, n);
    }
}

proof fn lemma_dropped_past_marks_front(items: Seq<Seq<char>>, m: Seq<usize>, n: int)
    requires
        0 <= n < items.len(),
        items.len() <= usize::MAX,
        forall|k: int| 0 <= k < m.len() ==> (#[trigger] m[k]) < n,
    ensures
        dropped(items, m) == dropped(items.take(n), m) + items.skip(n),
    decreases items.len() - n, 0int,
{
    let front = items.drop_last();
    if n < front.len() {
        lemma_dropped_past_marks_front(front, m, n);
    } else {
        assert(front.take(n) =~= front);
        assert(front.skip(n) =~= Seq::empty());
        assert(dropped(front, m) + Seq::empty() =~= dropped(front, m));
    }
    assert(front.take(n) =~= items.take(n));
    let last = (items.len() - 1) as usize;
    if m.contains(last) {
        let k = choose|k: int| 0 <= k < m.len() && m[k] == last;
        assert(m[k] < n);
    }
    assert(items.skip(n) =~= front.skip(n).push(items.last()));
    assert((dropped(items.take(n), m) + front.skip(n)).push(items.last()) =~= dropped(
        items.take(n),
        m,
    ) + items.skip(n));
}

proof fn lemma_dropped_same_marks(items: Seq<Seq<char>>, a: Seq<usize>, b: Seq<usize>)
    requires
        items.len() <= usize::MAX,
        forall|x: usize| x < items.len() ==> (#[trigger] a.contains(x) <==> b.contains(x)),
    ensures
        dropped(items, a) == dropped(items, b),
    decreases items.len(),
{
    if items.len() > 0 {
        lemma_dropped_same_marks(items.drop_last(), a, b);
        let last = (items.len() - 1) as usize;
        assert(a.contains(last) <==> b.contains(last));
    }
}

/// Taking the marked items out one at a time, the last first, leaves exactly the
/// items that were not marked.
pub proof fn removing_from_the_end_drops_the_marked(items: Seq<Seq<char>>, m: Seq<usize>)
    requires
        rising(m),
        items.len() <= usize::MAX,
    ensures
        removed_one_by_one(items, m) == dropped(items, m),
    decreases m.len(),
{
    if m.len() == 0 {
        lemma_dropped_past_marks(items, m, 0);
        assert(items.take(0) =~= Seq::empty());
        assert(dropped(items.take(0), m) + items.skip(0) =~= items);
    } else {
        let k = m.last();
        let rest = m.drop_last();
        assert(rising(rest));
        assert forall|x: usize| x < k implies (#[trigger] m.contains(x) <==> rest.contains(x)) by {
            if m.contains(x) {
                let j = choose|j: int| 0 <= j < m.len() && m[j] == x;
                assert(rest[j] == x);
            }
            if rest.contains(x) {
                let j = choose|j: int| 0 <= j < rest.len() && rest[j] == x;
                assert(m[j] == x);
            }
        }
        assert forall|j: int| 0 <= j < rest.len() implies (#[trigger] rest[j]) < k by {
            assert(m[j] < m[m.len() - 1]);
        }
        if k < items.len() {
            let n = k as int;
            let less = items.remove(n);
            removing_from_the_end_drops_the_marked(less, rest);
            lemma_dropped_past_marks(less, rest, n);
            assert(less.take(n) =~= items.take(n));
            assert(less.skip(n) =~= items.skip(n + 1));
            assert forall|j: int| 0 <= j < m.len() implies (#[trigger] m[j]) < n + 1 by {
                if j < m.len() - 1 {
                    assert(m[j] < m[m.len() - 1]);
                }
            }
            lemma_dropped_past_marks(items, m, n + 1);
            let upto = items.take(n + 1);
            assert(upto.drop_last() =~= items.take(n));
            assert(m.contains(k)) by {
                assert(m[m.len() - 1] == k);
            }
            lemma_dropped_same_marks(items.take(n), m, rest);
        } else {
            removing_from_the_end_drops_the_marked(items, rest);
            assert forall|x: usize| x < items.len() implies (#[trigger] m.contains(x)
                <==> rest.contains(x)) by {}
            lemma_dropped_same_marks(items, m, rest);
        }
    }
}

// ---------------------------------------------------------------------------
// Where items go
// ---------------------------------------------------------------------------

/// The marked places below `n`, in order.
spec fn marked_places(n: int, m: Seq<usize>) -> Seq<int>
    decreases n,
{
    if n <= 0 {
        Seq::empty()
    } else if m.contains((n - 1) as usize) {
        marked_places(n - 1, m).push(n - 1)
    } else {
        marked_places(n - 1, m)
    }
}

/// The places below `n` that are not marked, in order.
spec fn other_places(n: int, m: Seq<usize>) -> Seq<int>
    decreases n,
{
    if n <= 0 {
        Seq::empty()
    } else if m.contains((n - 1) as usize) {
        other_places(n - 1, m)
    } else {
        other_places(n - 1, m).push(n - 1)
    }
}

proof fn lemma_marked_places(n: int, m: Seq<usize>)
    requires
        0 <= n <= usize::MAX,
    ensures
        forall|i: int, j: int|
            0 <= i < j < marked_places(n, m).len() ==> marked_places(n, m)[i] < marked_places(
                n,
                m,
            )[j],
        forall|i: int|
            0 <= i < marked_places(n, m).len() ==> 0 <= #[trigger] marked_places(n, m)[i] < n
                && m.contains(marked_places(n, m)[i] as usize),
        forall|x: int|
            0 <= x < n && #[trigger] m.contains(x as usize) ==> marked_places(n, m).contains(x),
    decreases n,
{
    if n > 0 {
        lemma_marked_places(n - 1, m);
        let before = marked_places(n - 1, m);
        let all = marked_places(n, m);
        assert forall|x: int| 0 <= x < n && #[trigger] m.contains(x as usize) implies all.contains(
            x,
        ) by {
            if x < n - 1 {
                let k = choose|k: int| 0 <= k < before.len() && before[k] == x;
                assert(all[k] == x);
            } else {
                assert(all[all.len() - 1] == x);
            }
        }
    }
}

proof fn lemma_other_places(n: int, m: Seq<usize>)
    requires
        0 <= n <= usize::MAX,
    ensures
        forall|i: int, j: int|
            0 <= i < j < other_places(n, m).len() ==> other_places(n, m)[i] < other_places(n, m)[j],
        forall|i: int|
            0 <= i < other_places(n, m).len() ==> 0 <= #[trigger] other_places(n, m)[i] < n
                && !m.contains(other_places(n, m)[i] as usize),
        forall|x: int|
            0 <= x < n && !#[trigger] m.contains(x as usize) ==> other_places(n, m).contains(x),
        marked_places(n, m).len() + other_places(n, m).len() == n,
    decreases n,
{
    if n > 0 {
        lemma_other_places(n - 1, m);
        let before = other_places(n - 1, m);
        let all = other_places(n, m);
        assert forall|x: int| 0 <= x < n && !#[trigger] m.contains(x as usize) implies all.contains(
            x,
        ) by {
            if x < n - 1 {
                let k = choose|k: int| 0 <= k < before.len() && before[k] == x;
                assert(all[k] == x);
            } else {
                assert(all[all.len() - 1] == x);
            }
        }
    }
}

proof fn lemma_kept_places(items: Seq<Seq<char>>, m: Seq<usize>)
    requires
        items.len() <= usize::MAX,
    ensures
        kept(items, m) == marked_places(items.len() as int, m).map_values(|x: int| items[x]),
        dropped(items, m) == other_places(items.len() as int, m).map_values(|x: int| items[x]),
    decreases items.len(),
{
    let n = items.len() as int;
    if n > 0 {
        let front = items.drop_last();
        lemma_kept_places(front, m);
        lemma_marked_places(n - 1, m);
        lemma_other_places(n - 1, m);
        let a = marked_places(n - 1, m);
        let b = other_places(n - 1, m);
        assert(a.map_values(|x: int| front[x]) =~= a.map_values(|x: int| items[x]));
        assert(b.map_values(|x: int| front[x]) =~= b.map_values(|x: int| items[x]));
    }
    assert(kept(items, m) =~= marked_places(n, m).map_values(|x: int| items[x]));
    assert(dropped(items, m) =~= other_places(n, m).map_values(|x: int| items[x]));
}

/// The marked items are kept, each from its place and in their old order; the others are
/// what is left when the marked ones are taken out.
pub proof fn kept_and_dropped_go_by_the_marks(items: Seq<Seq<char>>, m: Seq<usize>) -> (r: (
    Seq<int>,
    Seq<int>,
))
    requires
        items.len() <= usize::MAX,
    ensures
        forall|i: int, j: int| 0 <= i < j < r.0.len() ==> r.0[i] < r.0[j],
        forall|x: int| #[trigger]
            r.0.contains(x) <==> 0 <= x < items.len() && m.contains(x as usize),
        kept(items, m).len() == r.0.len(),
        forall|i: int| 0 <= i < r.0.len() ==> #[trigger] kept(items, m)[i] == items[r.0[i]],
        forall|i: int, j: int| 0 <= i < j < r.1.len() ==> r.1[i] < r.1[j],
        forall|x: int| #[trigger]
            r.1.contains(x) <==> 0 <= x < items.len() && !m.contains(x as usize),
        dropped(items, m).len() == r.1.len(),
        forall|i: int| 0 <= i < r.1.len() ==> #[trigger] dropped(items, m)[i] == items[r.1[i]],
{
    let n = items.len() as int;
    lemma_marked_places(n, m);
    lemma_other_places(n, m);
    lemma_kept_places(items, m);
    let a = marked_places(n, m);
    let b = other_places(n, m);
    assert forall|x: int| #[trigger] a.contains(x) implies 0 <= x < n && m.contains(x as usize) by {
        let k = choose|k: int| 0 <= k < a.len() && a[k] == x;
        assert(m.contains(a[k] as usize));
    }
    assert forall|x: int| #[trigger] b.contains(x) implies 0 <= x < n && !m.contains(x as usize) by {
        let k = choose|k: int| 0 <= k < b.len() && b[k] == x;
        assert(!m.contains(b[k] as usize));
    }
    (a, b)
}

proof fn lemma_count_below_step(m: Seq<usize>, n: int)
    requires
        rising(m),
        0 <= n < usize::MAX,
    ensures
        count_below(m, n + 1) == count_below(m, n) + if m.contains(n as usize) {
            1int
        } else {
            0
        },
    decreases m.len(),
{
    if m.len() > 0 {
        let front = m.drop_last();
        lemma_count_below_step(front, n);
        if front.contains(n as usize) {
            let k = choose|k: int| 0 <= k < front.len() && front[k] == n as usize;
            assert(m[k] == n as usize);
            assert(m[k] < m[m.len() - 1]);
        }
        if m.contains(n as usize) {
            let k = choose|k: int| 0 <= k < m.len() && m[k] == n as usize;
            if k < m.len() - 1 {
                assert(front[k] == n as usize);
            }
        }
        if m.last() == n as usize {
            assert(m[m.len() - 1] == n as usize);
        }
    }
}

proof fn lemma_count_below_places(m: Seq<usize>, n: int)
    requires
        rising(m),
        0 <= n <= usize::MAX,
    ensures
        count_below(m, n) == marked_places(n, m).len(),
    decreases n,
{
    if n > 0 {
        lemma_count_below_places(m, n - 1);
        lemma_count_below_step(m, n - 1);
    } else {
        lemma_none_below(m);
    }
}

proof fn lemma_none_below(m: Seq<usize>)
    ensures
        count_below(m, 0) == 0,
    decreases m.len(),
{
    if m.len() > 0 {
        lemma_none_below(m.drop_last());
    }
}

/// The places below `n` come first among those below `top`.
proof fn lemma_other_places_split(n: int, top: int, m: Seq<usize>)
    requires
        0 <= n <= top <= usize::MAX,
    ensures
        other_places(n, m).len() <= other_places(top, m).len(),
        forall|i: int|
            0 <= i < other_places(top, m).len() ==> (#[trigger] other_places(top, m)[i] < n <==> i
                < other_places(n, m).len()),
    decreases top - n,
{
    lemma_other_places(n, m);
    if n < top {
        lemma_other_places_split(n, top - 1, m);
        let before = other_places(top - 1, m);
        let all = other_places(top, m);
        assert forall|i: int| 0 <= i < all.len() implies (#[trigger] all[i] < n <==> i
            < other_places(n, m).len()) by {
            if i < before.len() {
                assert(all[i] == before[i]);
            }
        }
    }
}

/// Where an item goes when the marked ones are moved to `dest`: the unmarked items before
/// `dest` first, then the marked ones, then the unmarked items from `dest` on.
pub open spec fn part(x: int, m: Seq<usize>, dest: int) -> int {
    if m.contains(x as usize) {
        1
    } else if x < dest {
        0
    } else {
        2
    }
}

/// Moved items land together at the cursor: the unmarked items that stood before it come
/// first, the marked items next, the other unmarked items last, and each of the three
/// parts keeps its old order. `order[k]` is the old place of the item that is now the
/// `k`-th; the block of marked items begins at the place that is reported.
pub proof fn moved_items_land_at_the_cursor(items: Seq<Seq<char>>, m: Seq<usize>, dest: int) -> (order:
    Seq<int>)
    requires
        items.len() <= usize::MAX,
        rising(m),
        0 <= dest <= usize::MAX,
    ensures
        order.len() == items.len(),
        moved(items, m, dest).len() == items.len(),
        forall|k: int| 0 <= k < order.len() ==> 0 <= #[trigger] order[k] < items.len(),
        forall|k: int|
            0 <= k < order.len() ==> #[trigger] moved(items, m, dest)[k] == items[order[k]],
        forall|i: int, j: int|
            0 <= i < j < order.len() ==> part(#[trigger] order[i], m, dest) < part(
                #[trigger] order[j],
                m,
                dest,
            ) || (part(order[i], m, dest) == part(order[j], m, dest) && order[i] < order[j]),
        forall|k: int|
            0 <= k < order.len() ==> (k < landing(items, m, dest) <==> part(
                #[trigger] order[k],
                m,
                dest,
            ) == 0),
{
    let n = items.len() as int;
    lemma_marked_places(n, m);
    lemma_other_places(n, m);
    lemma_kept_places(items, m);
    let a = marked_places(n, m);
    let b = other_places(n, m);
    let at = landing(items, m, dest);
    if dest <= n {
        lemma_count_below_places(m, dest);
        lemma_other_places(dest, m);
        lemma_other_places_split(dest, n, m);
        assert(at == other_places(dest, m).len());
    } else {
        lemma_count_below_places(m, dest);
        lemma_other_places(dest, m);
        lemma_other_places_split(n, dest, m);
        assert(at == b.len());
    }
    assert forall|i: int| 0 <= i < b.len() implies (#[trigger] b[i] < dest <==> i < at) by {}
    let order = b.take(at) + a + b.skip(at);
    let r = moved(items, m, dest);
    assert forall|k: int| 0 <= k < order.len() implies 0 <= #[trigger] order[k] < n && r[k]
        == items[order[k]] && (part(order[k], m, dest) == (if k < at {
        0int
    } else if k < at + a.len() {
        1
    } else {
        2
    })) by {
        if k < at {
            assert(order[k] == b[k]);
            assert(r[k] == dropped(items, m)[k]);
        } else if k < at + a.len() {
            assert(order[k] == a[k - at]);
            assert(r[k] == kept(items, m)[k - at]);
        } else {
            assert(order[k] == b[k - a.len()]);
            assert(r[k] == dropped(items, m)[k - a.len()]);
        }
    }
    assert forall|i: int, j: int| 0 <= i < j < order.len() implies part(
        #[trigger] order[i],
        m,
        dest,
    ) < part(#[trigger] order[j], m, dest) || (part(order[i], m, dest) == part(order[j], m, dest)
        && order[i] < order[j]) by {
        if j < at {
            assert(order[i] == b[i] && order[j] == b[j]);
        } else if at <= i && j < at + a.len() {
            assert(order[i] == a[i - at] && order[j] == a[j - at]);
        } else if at + a.len() <= i {
            assert(order[i] == b[i - a.len()] && order[j] == b[j - a.len()]);
        }
    }
    order
}

/// What `move_marked` gives is the items in that order, and where the block begins.
pub proof fn marked_items_are_moved_as_a_block(
    items: &Vec<String>,
    m: &Vec<usize>,
    dest: usize,
    r: (Vec<String>, usize),
) -> (order: Seq<int>)
    requires
        rising(m@),
        call_ensures(move_marked, (items, m, dest), r),
    ensures
        order.len() == items@.len(),
        r.0@.len() == items@.len(),
        forall|k: int|
            0 <= k < order.len() ==> 0 <= #[trigger] order[k] < items@.len() && r.0@[k]@
                == items@[order[k]]@,
        forall|i: int, j: int|
            0 <= i < j < order.len() ==> part(#[trigger] order[i], m@, dest as int) < part(
                #[trigger] order[j],
                m@,
                dest as int,
            ) || (part(order[i], m@, dest as int) == part(order[j], m@, dest as int) && order[i]
                < order[j]),
        forall|k: int|
            0 <= k < order.len() ==> (k < r.1 <==> part(#[trigger] order[k], m@, dest as int) == 0),
{
    let all = strs(items@);
    assert(items.len() == all.len());
    let order = moved_items_land_at_the_cursor(all, m@, dest as int);
    assert(strs(r.0@).len() == r.0@.len());
    assert forall|k: int| 0 <= k < order.len() implies 0 <= #[trigger] order[k] < items@.len()
        && r.0@[k]@ == items@[order[k]]@ by {
        assert(strs(r.0@)[k] == r.0@[k]@);
        assert(moved(all, m@, dest as int)[k] == all[order[k]]);
    }
    order
}

/// Taking out the marked items leaves the others in their old order, and keeping the
/// marked items keeps them in theirs; nothing else is left or kept.
pub proof fn marks_say_what_is_kept(
    items: &Vec<String>,
    m: &Vec<usize>,
    k: Vec<String>,
    d: Vec<String>,
) -> (r: (Seq<int>, Seq<int>))
    requires
        call_ensures(keep_marked, (items, m), k),
        call_ensures(drop_marked, (items, m), d),
    ensures
        forall|i: int, j: int| 0 <= i < j < r.0.len() ==> r.0[i] < r.0[j],
        forall|x: int| #[trigger]
            r.0.contains(x) <==> 0 <= x < items@.len() && m@.contains(x as usize),
        strs(k@) == r.0.map_values(|x: int| items@[x]@),
        forall|i: int, j: int| 0 <= i < j < r.1.len() ==> r.1[i] < r.1[j],
        forall|x: int| #[trigger]
            r.1.contains(x) <==> 0 <= x < items@.len() && !m@.contains(x as usize),
        strs(d@) == r.1.map_values(|x: int| items@[x]@),
{
    let all = strs(items@);
    assert(items.len() == all.len());
    let r = kept_and_dropped_go_by_the_marks(all, m@);
    assert forall|i: int| 0 <= i < r.0.len() implies strs(k@)[i] == items@[r.0[i]]@ by {
        assert(r.0.contains(r.0[i]));
        assert(kept(all, m@)[i] == all[r.0[i]]);
    }
    assert forall|i: int| 0 <= i < r.1.len() implies strs(d@)[i] == items@[r.1[i]]@ by {
        assert(r.1.contains(r.1[i]));
        assert(dropped(all, m@)[i] == all[r.1[i]]);
    }
    assert(strs(k@) =~= r.0.map_values(|x: int| items@[x]@));
    assert(strs(d@) =~= r.1.map_values(|x: int| items@[x]@));
    r
}

} // verus!
