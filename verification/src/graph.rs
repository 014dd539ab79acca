//! The tag hierarchy as a graph: walks along parent and child links, what is
//! reachable, what a cycle is, and the traversal that collects everything
//! reachable from one tag.
//!
//! A hierarchy link has the parent on its left and the child on its right.

use crate::rows::{has_link, Link};
use vstd::prelude::*;

verus! {

/// One step from `from` to `to`: upwards from a child to one of its parents,
/// or downwards from a parent to one of its children.
pub open spec fn step(links: Seq<Link>, up: bool, from: i64, to: i64) -> bool {
    if up {
        has_link(links, to, from)
    } else {
        has_link(links, from, to)
    }
}

/// `w` lists the tags of a walk of at least one step in one direction.
pub open spec fn is_walk(links: Seq<Link>, up: bool, w: Seq<i64>) -> bool {
    &&& w.len() >= 2
    &&& forall|k: int| 0 <= k < w.len() - 1 ==> step(links, up, #[trigger] w[k], w[k + 1])
}

/// Some walk of at least one step leads from `from` to `to`.
pub open spec fn reaches(links: Seq<Link>, up: bool, from: i64, to: i64) -> bool {
    exists|w: Seq<i64>| #[trigger] is_walk(links, up, w) && w[0] == from && w.last() == to
}

/// `a` is a parent of `t`, or a parent of a parent, and so on.
pub open spec fn is_ancestor(links: Seq<Link>, a: i64, t: i64) -> bool {
    reaches(links, true, t, a)
}

/// `d` is a child of `t`, or a child of a child, and so on.
pub open spec fn is_descendant(links: Seq<Link>, d: i64, t: i64) -> bool {
    reaches(links, false, t, d)
}

/// No tag is its own ancestor.
pub open spec fn acyclic(links: Seq<Link>) -> bool {
    forall|t: i64| !reaches(links, true, t, t)
}

/// The side of a link that a step in the given direction arrives at.
pub open spec fn arrival(l: Link, up: bool) -> i64 {
    if up {
        l.left
    } else {
        l.right
    }
}

/// The side of a link that a step in the given direction leaves from.
pub open spec fn departure(l: Link, up: bool) -> i64 {
    if up {
        l.right
    } else {
        l.left
    }
}

/// One step is a walk.
pub proof fn lemma_step_reaches(links: Seq<Link>, up: bool, from: i64, to: i64)
    requires
        step(links, up, from, to),
    ensures
        reaches(links, up, from, to),
{
    assert(is_walk(links, up, seq![from, to]));
}

/// A walk can be continued by one step.
pub proof fn lemma_reaches_then_step(links: Seq<Link>, up: bool, from: i64, mid: i64, to: i64)
    requires
        from == mid || reaches(links, up, from, mid),
        step(links, up, mid, to),
    ensures
        reaches(links, up, from, to),
{
    if from == mid {
        lemma_step_reaches(links, up, from, to);
    } else {
        let w = choose|w: Seq<i64>| #[trigger]
            is_walk(links, up, w) && w[0] == from && w.last() == mid;
        assert(is_walk(links, up, w.push(to)));
    }
}

/// A step can be continued by a walk.
pub proof fn lemma_step_then_reaches(links: Seq<Link>, up: bool, from: i64, mid: i64, to: i64)
    requires
        step(links, up, from, mid),
        mid == to || reaches(links, up, mid, to),
    ensures
        reaches(links, up, from, to),
{
    if mid == to {
        lemma_step_reaches(links, up, from, to);
    } else {
        let w = choose|w: Seq<i64>| #[trigger]
            is_walk(links, up, w) && w[0] == mid && w.last() == to;
        assert(is_walk(links, up, seq![from] + w));
    }
}

/// Two walks, one after the other, are a walk.
pub proof fn lemma_reaches_trans(links: Seq<Link>, up: bool, from: i64, mid: i64, to: i64)
    requires
        reaches(links, up, from, mid),
        reaches(links, up, mid, to),
    ensures
        reaches(links, up, from, to),
{
    let a = choose|w: Seq<i64>| #[trigger]
        is_walk(links, up, w) && w[0] == from && w.last() == mid;
    let b = choose|w: Seq<i64>| #[trigger] is_walk(links, up, w) && w[0] == mid && w.last() == to;
    assert(is_walk(links, up, a + b.drop_first()));
}

/// A walk ends with a step.
pub proof fn lemma_reaches_last(links: Seq<Link>, up: bool, from: i64, to: i64) -> (mid: i64)
    requires
        reaches(links, up, from, to),
    ensures
        from == mid || reaches(links, up, from, mid),
        step(links, up, mid, to),
{
    let w = choose|w: Seq<i64>| #[trigger] is_walk(links, up, w) && w[0] == from && w.last() == to;
    if w.len() > 2 {
        assert(is_walk(links, up, w.drop_last()));
    }
    w[w.len() - 2]
}

/// A walk upwards is a walk downwards read backwards.
pub proof fn lemma_walk_reverse(links: Seq<Link>, up: bool, w: Seq<i64>)
    requires
        is_walk(links, up, w),
    ensures
        is_walk(links, !up, w.reverse()),
        w.reverse()[0] == w.last(),
        w.reverse().last() == w[0],
{
}

/// `a` is an ancestor of `d` exactly if `d` is a descendant of `a`.
pub proof fn law_ancestors_mirror_descendants(links: Seq<Link>, a: i64, d: i64)
    ensures
        is_ancestor(links, a, d) <==> is_descendant(links, d, a),
{
    if is_ancestor(links, a, d) {
        let w = choose|w: Seq<i64>| #[trigger]
            is_walk(links, true, w) && w[0] == d && w.last() == a;
        lemma_walk_reverse(links, true, w);
    }
    if is_descendant(links, d, a) {
        let w = choose|w: Seq<i64>| #[trigger]
            is_walk(links, false, w) && w[0] == a && w.last() == d;
        lemma_walk_reverse(links, false, w);
    }
}

/// A set that holds every tag one step from `from`, and with each of its
/// tags every tag one step further, holds the end of every walk from `from`.
pub proof fn lemma_walk_stays_in(links: Seq<Link>, up: bool, w: Seq<i64>, s: Set<i64>)
    requires
        is_walk(links, up, w),
        forall|x: i64, y: i64|
            (x == w[0] || s.contains(x)) && #[trigger] step(links, up, x, y) ==> s.contains(y),
    ensures
        s.contains(w.last()),
    decreases w.len(),
{
    let n = w.len() - 2;
    assert(step(links, up, w[n], w[n + 1]));
    if w.len() > 2 {
        lemma_walk_stays_in(links, up, w.drop_last(), s);
    }
}

/// Where every link of `small` is a link of `big`, what `small` reaches
/// `big` reaches too.
pub proof fn lemma_reaches_mono(small: Seq<Link>, big: Seq<Link>, up: bool, from: i64, to: i64)
    requires
        forall|l: i64, r: i64| has_link(small, l, r) ==> has_link(big, l, r),
        reaches(small, up, from, to),
    ensures
        reaches(big, up, from, to),
{
    let w = choose|w: Seq<i64>| #[trigger] is_walk(small, up, w) && w[0] == from && w.last() == to;
    assert(is_walk(big, up, w));
}

/// Taking links away makes no cycle.
pub proof fn lemma_acyclic_mono(small: Seq<Link>, big: Seq<Link>)
    requires
        forall|l: i64, r: i64| has_link(small, l, r) ==> has_link(big, l, r),
        acyclic(big),
    ensures
        acyclic(small),
{
    assert forall|t: i64| !reaches(small, true, t, t) by {
        if reaches(small, true, t, t) {
            lemma_reaches_mono(small, big, true, t, t);
        }
    }
}

/// What a walk upwards can reach once the link from `child` up to `parent`
/// is added: what it reached before, or `parent` and what lies above it,
/// from `child` and what lies below it.
pub proof fn lemma_walk_with_new_link(
    links: Seq<Link>,
    added: Link,
    w: Seq<i64>,
)
    requires
        is_walk(links.push(added), true, w),
    ensures
        reaches(links, true, w[0], w.last()) || ((w[0] == added.right || reaches(
            links,
            true,
            w[0],
            added.right,
        )) && (added.left == w.last() || reaches(links, true, added.left, w.last()))),
    decreases w.len(),
{
    let more = links.push(added);
    let from = w[0];
    let mid = w[1];
    let to = w.last();
    let i = choose|i: int|
        0 <= i < more.len() && (#[trigger] more[i]).left == mid && more[i].right == from;
    let old_step = i < links.len();
    if w.len() == 2 {
        if old_step {
            lemma_step_reaches(links, true, from, to);
        }
    } else {
        lemma_walk_with_new_link(links, added, w.drop_first());
        if old_step {
            if reaches(links, true, mid, to) {
                lemma_step_then_reaches(links, true, from, mid, to);
            } else {
                lemma_step_then_reaches(links, true, from, mid, added.right);
            }
        }
    }
}

/// Adding a link from `child` up to `parent` makes no cycle, unless the two
/// are one tag or `child` is already above `parent`.
pub proof fn lemma_acyclic_push(links: Seq<Link>, added: Link)
    requires
        acyclic(links),
        added.left != added.right,
        !is_ancestor(links, added.right, added.left),
    ensures
        acyclic(links.push(added)),
{
    let more = links.push(added);
    assert forall|t: i64| !reaches(more, true, t, t) by {
        if reaches(more, true, t, t) {
            let w = choose|w: Seq<i64>| #[trigger]
                is_walk(more, true, w) && w[0] == t && w.last() == t;
            lemma_walk_with_new_link(links, added, w);
            if added.left != t && t != added.right {
                lemma_reaches_trans(links, true, added.left, t, added.right);
            }
        }
    }
}

/// Adding a link from `child` up to `parent` where `child` is already above
/// `parent`, or where the two are one tag, makes a cycle.
pub proof fn lemma_cyclic_push(links: Seq<Link>, added: Link)
    requires
        added.left == added.right || is_ancestor(links, added.right, added.left),
    ensures
        !acyclic(links.push(added)),
{
    let more = links.push(added);
    assert(more[links.len() as int] == added);
    if added.left == added.right {
        lemma_step_reaches(more, true, added.right, added.left);
    } else {
        assert forall|l: i64, r: i64| has_link(links, l, r) implies has_link(more, l, r) by {
            let i = choose|i: int|
                0 <= i < links.len() && (#[trigger] links[i]).left == l && links[i].right == r;
            assert(more[i] == links[i]);
        }
        lemma_reaches_mono(links, more, true, added.left, added.right);
        lemma_step_then_reaches(more, true, added.right, added.left, added.right);
    }
}

/// Some link arrives at `y` when followed in the given direction.
pub open spec fn is_arrival(links: Seq<Link>, up: bool, y: i64) -> bool {
    exists|i: int| 0 <= i < links.len() && arrival(#[trigger] links[i], up) == y
}

/// Tags that are all different and all at the arrival side of some link are
/// no more than there are links.
proof fn lemma_arrivals_bounded(links: Seq<Link>, up: bool, s: Seq<i64>)
    requires
        s.no_duplicates(),
        forall|y: i64| s.contains(y) ==> is_arrival(links, up, y),
    ensures
        s.len() <= links.len(),
{
    let arr = Seq::new(links.len(), |i: int| arrival(links[i], up));
    s.unique_seq_to_set();
    arr.lemma_cardinality_of_set();
    assert forall|y: i64| s.to_set().contains(y) implies arr.to_set().contains(y) by {
        let i = choose|i: int| 0 <= i < links.len() && arrival(#[trigger] links[i], up) == y;
        assert(arr[i] == y);
    }
    vstd::set_lib::lemma_len_subset(s.to_set(), arr.to_set());
}

/// Whether `x` occurs in `v`.
pub fn holds(v: &Vec<i64>, x: i64) -> (r: bool)
    ensures
        r == v@.contains(x),
{
    let mut i: usize = 0;
    while i < v.len()
        invariant
            i <= v@.len(),
            forall|k: int| 0 <= k < i ==> v@[k] != x,
        decreases v@.len() - i,
    {
        if v[i] == x {
            return true;
        }
        i += 1;
    }
    false
}

/// Puts on `todo` every tag one step from `x` that is neither in `done` nor
/// on `todo` yet.
fn expand(links: &Vec<Link>, up: bool, x: i64, done: &Vec<i64>, todo: &mut Vec<i64>)
    requires
        old(todo)@.no_duplicates(),
        forall|y: i64| !(done@.contains(y) && old(todo)@.contains(y)),
    ensures
        final(todo)@.no_duplicates(),
        forall|y: i64| !(done@.contains(y) && final(todo)@.contains(y)),
        forall|y: i64| old(todo)@.contains(y) ==> final(todo)@.contains(y),
        forall|y: i64|
            final(todo)@.contains(y) ==> old(todo)@.contains(y) || step(links@, up, x, y),
        forall|y: i64|
            #[trigger] step(links@, up, x, y) ==> done@.contains(y) || final(todo)@.contains(y),
{
    let mut i: usize = 0;
    while i < links.len()
        invariant
            i <= links@.len(),
            todo@.no_duplicates(),
            forall|y: i64| !(done@.contains(y) && todo@.contains(y)),
            forall|y: i64| old(todo)@.contains(y) ==> todo@.contains(y),
            forall|y: i64| todo@.contains(y) ==> old(todo)@.contains(y) || step(links@, up, x, y),
            forall|k: int|
                0 <= k < i && departure(#[trigger] links@[k], up) == x ==> done@.contains(
                    arrival(links@[k], up),
                ) || todo@.contains(arrival(links@[k], up)),
        decreases links@.len() - i,
    {
        let l = links[i];
        let from: i64 = if up {
            l.right
        } else {
            l.left
        };
        let to: i64 = if up {
            l.left
        } else {
            l.right
        };
        if from == x && !holds(done, to) && !holds(todo, to) {
            let ghost before = todo@;
            todo.push(to);
            proof {
                assert forall|y: i64| before.contains(y) implies todo@.contains(y) by {
                    let k = choose|k: int| 0 <= k < before.len() && before[k] == y;
                    assert(todo@[k] == y);
                }
                assert(todo@[before.len() as int] == to);
            }
        }
        i += 1;
    }
}

/// Everything reachable from `start` along the links, upwards or downwards:
/// each tag once, in the order in which the traversal first takes it from its
/// stack.
pub fn reachable_from(links: &Vec<Link>, up: bool, start: i64) -> (r: Vec<i64>)
    ensures
        r@.no_duplicates(),
        forall|x: i64| r@.contains(x) <==> reaches(links@, up, start, x),
{
    let mut done: Vec<i64> = Vec::new();
    let mut todo: Vec<i64> = Vec::new();
    expand(links, up, start, &done, &mut todo);
    proof {
        assert forall|y: i64| todo@.contains(y) implies reaches(links@, up, start, y) by {
            lemma_step_reaches(links@, up, start, y);
        }
    }
    while todo.len() > 0
        invariant
            done@.no_duplicates(),
            todo@.no_duplicates(),
            forall|y: i64| !(done@.contains(y) && todo@.contains(y)),
            forall|y: i64| done@.contains(y) || todo@.contains(y) ==> reaches(links@, up, start, y),
            forall|y: i64|
                #[trigger] step(links@, up, start, y) ==> done@.contains(y) || todo@.contains(y),
            forall|x: i64, y: i64|
                done@.contains(x) && #[trigger] step(links@, up, x, y) ==> done@.contains(y)
                    || todo@.contains(y),
        decreases links@.len() - done@.len(),
    {
        let ghost done0 = done@;
        let ghost todo0 = todo@;
        proof {
            let all = done0 + todo0;
            assert forall|i: int, j: int|
                0 <= i < all.len() && 0 <= j < all.len() && i != j implies all[i] != all[j] by {
                if i < done0.len() && j >= done0.len() {
                    assert(done0.contains(all[i]) && todo0.contains(all[j]));
                }
                if j < done0.len() && i >= done0.len() {
                    assert(done0.contains(all[j]) && todo0.contains(all[i]));
                }
            }
            assert forall|y: i64| all.contains(y) implies is_arrival(links@, up, y) by {
                let k = choose|k: int| 0 <= k < all.len() && all[k] == y;
                if k < done0.len() {
                    assert(done0.contains(y));
                }
                lemma_reaches_last(links@, up, start, y);
            }
            lemma_arrivals_bounded(links@, up, all);
        }
        let x = todo.pop().unwrap();
        done.push(x);
        let ghost todo1 = todo@;
        proof {
            assert(todo0.contains(x));
            assert(done@[done0.len() as int] == x);
            assert forall|y: i64| todo1.contains(y) implies todo0.contains(y) && y != x by {}
            assert forall|y: i64| todo0.contains(y) implies todo1.contains(y) || y == x by {
                let k = choose|k: int| 0 <= k < todo0.len() && todo0[k] == y;
                if k < todo1.len() {
                    assert(todo1[k] == y);
                }
            }
            assert forall|y: i64| done0.contains(y) implies done@.contains(y) by {
                let k = choose|k: int| 0 <= k < done0.len() && done0[k] == y;
                assert(done@[k] == y);
            }
        }
        expand(links, up, x, &done, &mut todo);
        proof {
            assert forall|y: i64| done@.contains(y) || todo@.contains(y) implies reaches(
                links@,
                up,
                start,
                y,
            ) by {
                if !done@.contains(y) && !todo1.contains(y) {
                    lemma_reaches_then_step(links@, up, start, x, y);
                }
            }
        }
    }
    proof {
        let s = done@.to_set();
        assert forall|x: i64| reaches(links@, up, start, x) implies done@.contains(x) by {
            let w = choose|w: Seq<i64>| #[trigger]
                is_walk(links@, up, w) && w[0] == start && w.last() == x;
            lemma_walk_stays_in(links@, up, w, s);
        }
    }
    done
}

} // verus!
