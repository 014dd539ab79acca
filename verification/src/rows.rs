//! The rows of the six tables, what it means for a table to be well kept, and
//! the searches and removals that every table shares.

use vstd::prelude::*;

verus! {

/// A row of a relation table: the row's own id and the ids of the two rows
/// that it connects.
#[derive(Clone, Copy, Debug, PartialEq, Eq, Structural)]
pub struct Link {
    pub id: i64,
    pub left: i64,
    pub right: i64,
}

/// A row of an entity table as contracts see it: an id and a name (or path).
pub type NameRow = (i64, Seq<char>);

/// The ids of an entity table grow from row to row.
pub open spec fn names_sorted(rows: Seq<NameRow>) -> bool {
    forall|i: int, j: int|
        0 <= i < j < rows.len() ==> (#[trigger] rows[i]).0 < (#[trigger] rows[j]).0
}

/// No two rows of an entity table carry the same name.
pub open spec fn names_distinct(rows: Seq<NameRow>) -> bool {
    forall|i: int, j: int|
        0 <= i < rows.len() && 0 <= j < rows.len() && i != j ==> (#[trigger] rows[i]).1 != (
        #[trigger] rows[j]).1
}

/// Some row of the table has this id.
pub open spec fn has_id(rows: Seq<NameRow>, id: i64) -> bool {
    exists|i: int| 0 <= i < rows.len() && (#[trigger] rows[i]).0 == id
}

/// Some row of the table has this name.
pub open spec fn has_name(rows: Seq<NameRow>, name: Seq<char>) -> bool {
    exists|i: int| 0 <= i < rows.len() && (#[trigger] rows[i]).1 == name
}

/// The predicate "the row's id is `id`".
pub open spec fn id_is(id: i64) -> spec_fn(NameRow) -> bool {
    |r: NameRow| r.0 == id
}

/// The predicate "the row's id is not `id`".
pub open spec fn id_is_not(id: i64) -> spec_fn(NameRow) -> bool {
    |r: NameRow| r.0 != id
}

/// The predicate "the row's name is `name`".
pub open spec fn name_is(name: Seq<char>) -> spec_fn(NameRow) -> bool {
    |r: NameRow| r.1 == name
}

/// The position of the first element of `s` that satisfies `p`.
pub open spec fn first_index<A>(s: Seq<A>, p: spec_fn(A) -> bool) -> Option<int> {
    if exists|i: int| 0 <= i < s.len() && p(#[trigger] s[i]) {
        Some(
            choose|i: int|
                0 <= i < s.len() && p(#[trigger] s[i]) && forall|j: int|
                    0 <= j < i ==> !p(#[trigger] s[j]),
        )
    } else {
        None
    }
}

/// The id of the first row named `name`.
pub open spec fn id_of(rows: Seq<NameRow>, name: Seq<char>) -> Option<i64> {
    match first_index(rows, name_is(name)) {
        Some(i) => Some(rows[i].0),
        None => None,
    }
}

/// The name of the first row with id `id`.
pub open spec fn name_of(rows: Seq<NameRow>, id: i64) -> Option<Seq<char>> {
    match first_index(rows, id_is(id)) {
        Some(i) => Some(rows[i].1),
        None => None,
    }
}

/// The id that the next row of an entity table gets: one more than the
/// last, and 1 in an empty table.
pub open spec fn next_name_id(rows: Seq<NameRow>) -> int {
    if rows.len() == 0 {
        1
    } else {
        rows.last().0 + 1
    }
}

/// The ids of a relation table grow from row to row.
pub open spec fn links_sorted(links: Seq<Link>) -> bool {
    forall|i: int, j: int| 0 <= i < j < links.len() ==> (#[trigger] links[i]).id < (
    #[trigger] links[j]).id
}

/// No two rows of a relation table connect the same pair.
pub open spec fn pairs_distinct(links: Seq<Link>) -> bool {
    forall|i: int, j: int|
        0 <= i < links.len() && 0 <= j < links.len() && i != j ==> !((#[trigger] links[i]).left
            == (#[trigger] links[j]).left && links[i].right == links[j].right)
}

/// No two rows of a relation table have the same right side.
pub open spec fn rights_distinct(links: Seq<Link>) -> bool {
    forall|i: int, j: int|
        0 <= i < links.len() && 0 <= j < links.len() && i != j ==> (#[trigger] links[i]).right != (
        #[trigger] links[j]).right
}

/// Some row connects `left` to `right`.
pub open spec fn has_link(links: Seq<Link>, left: i64, right: i64) -> bool {
    exists|i: int|
        0 <= i < links.len() && (#[trigger] links[i]).left == left && links[i].right == right
}

/// Some row has `id` on its left side.
pub open spec fn has_left(links: Seq<Link>, id: i64) -> bool {
    exists|i: int| 0 <= i < links.len() && (#[trigger] links[i]).left == id
}

/// Some row has `id` on its right side.
pub open spec fn has_right(links: Seq<Link>, id: i64) -> bool {
    exists|i: int| 0 <= i < links.len() && (#[trigger] links[i]).right == id
}

/// Some row of the relation table has this row id.
pub open spec fn has_link_id(links: Seq<Link>, id: i64) -> bool {
    exists|i: int| 0 <= i < links.len() && (#[trigger] links[i]).id == id
}

/// The predicate "the row connects `left` to `right`".
pub open spec fn link_is(left: i64, right: i64) -> spec_fn(Link) -> bool {
    |l: Link| l.left == left && l.right == right
}

/// The predicate "the row does not connect `left` to `right`".
pub open spec fn link_is_not(left: i64, right: i64) -> spec_fn(Link) -> bool {
    |l: Link| !(l.left == left && l.right == right)
}

/// The predicate "the row's own id is not `id`".
pub open spec fn link_id_is_not(id: i64) -> spec_fn(Link) -> bool {
    |l: Link| l.id != id
}

/// The predicate "the row mentions `key` on none of the sides asked for".
pub open spec fn avoids(key: i64, on_left: bool, on_right: bool) -> spec_fn(Link) -> bool {
    |l: Link| !((on_left && l.left == key) || (on_right && l.right == key))
}

/// The id that the next row of a relation table gets: one more than the
/// last, and 1 in an empty table.
pub open spec fn next_link_id(links: Seq<Link>) -> int {
    if links.len() == 0 {
        1
    } else {
        links.last().id + 1
    }
}

/// Every left side of `links` is an id of `rows`.
pub open spec fn lefts_within(links: Seq<Link>, rows: Seq<NameRow>) -> bool {
    forall|i: int| 0 <= i < links.len() ==> has_id(rows, (#[trigger] links[i]).left)
}

/// Every right side of `links` is an id of `rows`.
pub open spec fn rights_within(links: Seq<Link>, rows: Seq<NameRow>) -> bool {
    forall|i: int| 0 <= i < links.len() ==> has_id(rows, (#[trigger] links[i]).right)
}

/// Where the elements that a filter keeps come from: their positions in the
/// sequence filtered, in growing order.
pub proof fn lemma_filter_positions<A>(s: Seq<A>, p: spec_fn(A) -> bool) -> (pos: Seq<int>)
    ensures
        pos.len() == s.filter(p).len(),
        forall|i: int|
            0 <= i < pos.len() ==> 0 <= #[trigger] pos[i] < s.len() && s[pos[i]] == s.filter(p)[i],
        forall|i: int, j: int| 0 <= i < j < pos.len() ==> #[trigger] pos[i] < #[trigger] pos[j],
        forall|i: int| 0 <= i < s.filter(p).len() ==> p(#[trigger] s.filter(p)[i]),
        forall|k: int| 0 <= k < s.len() && p(#[trigger] s[k]) ==> pos.contains(k),
    decreases s.len(),
{
    reveal(Seq::filter);
    if s.len() == 0 {
        Seq::empty()
    } else {
        let front = s.drop_last();
        let pos0 = lemma_filter_positions(front, p);
        let last = s.len() - 1;
        if p(s.last()) {
            let pos = pos0.push(last);
            assert forall|k: int| 0 <= k < s.len() && p(#[trigger] s[k]) implies pos.contains(
                k,
            ) by {
                if k < last {
                    assert(front[k] == s[k]);
                    let w = choose|w: int| 0 <= w < pos0.len() && pos0[w] == k;
                    assert(pos[w] == k);
                } else {
                    assert(pos[pos0.len() as int] == k);
                }
            }
            pos
        } else {
            assert forall|k: int| 0 <= k < s.len() && p(#[trigger] s[k]) implies pos0.contains(
                k,
            ) by {
                assert(front[k] == s[k]);
            }
            pos0
        }
    }
}

/// A filter keeps exactly the elements that satisfy it.
pub proof fn lemma_filter_members<A>(s: Seq<A>, p: spec_fn(A) -> bool)
    ensures
        forall|x: A| #[trigger] s.filter(p).contains(x) <==> (s.contains(x) && p(x)),
{
    let pos = lemma_filter_positions(s, p);
    let f = s.filter(p);
    assert forall|x: A| #[trigger] f.contains(x) <==> (s.contains(x) && p(x)) by {
        if f.contains(x) {
            let i = choose|i: int| 0 <= i < f.len() && f[i] == x;
            assert(s[pos[i]] == x);
        }
        if s.contains(x) && p(x) {
            let k = choose|k: int| 0 <= k < s.len() && s[k] == x;
            let w = choose|w: int| 0 <= w < pos.len() && pos[w] == k;
            assert(f[w] == x);
        }
    }
}

/// Two predicates that agree on every element filter alike.
pub proof fn lemma_filter_same<A>(s: Seq<A>, p: spec_fn(A) -> bool, q: spec_fn(A) -> bool)
    requires
        forall|i: int| 0 <= i < s.len() ==> p(#[trigger] s[i]) == q(s[i]),
    ensures
        s.filter(p) == s.filter(q),
    decreases s.len(),
{
    reveal(Seq::filter);
    if s.len() > 0 {
        lemma_filter_same(s.drop_last(), p, q);
    }
}

/// Filtering an entity table keeps it sorted and its names distinct, and
/// keeps exactly the ids of the rows that satisfy the filter.
pub proof fn lemma_filter_names(rows: Seq<NameRow>, p: spec_fn(NameRow) -> bool)
    requires
        names_sorted(rows),
    ensures
        names_sorted(rows.filter(p)),
        names_distinct(rows) ==> names_distinct(rows.filter(p)),
        forall|x: NameRow| #[trigger] rows.filter(p).contains(x) <==> (rows.contains(x) && p(x)),
{
    let pos = lemma_filter_positions(rows, p);
    lemma_filter_members(rows, p);
    let f = rows.filter(p);
    assert forall|i: int, j: int| 0 <= i < j < f.len() implies (#[trigger] f[i]).0 < (
    #[trigger] f[j]).0 by {
        assert(pos[i] < pos[j]);
    }
    if names_distinct(rows) {
        assert forall|i: int, j: int| 0 <= i < f.len() && 0 <= j < f.len() && i != j implies (
        #[trigger] f[i]).1 != (#[trigger] f[j]).1 by {
            if i < j {
                assert(pos[i] < pos[j]);
            } else {
                assert(pos[j] < pos[i]);
            }
        }
    }
}

/// Filtering a relation table keeps it sorted, its pairs and right sides
/// distinct, and keeps exactly the rows that satisfy the filter.
pub proof fn lemma_filter_links(links: Seq<Link>, p: spec_fn(Link) -> bool)
    requires
        links_sorted(links),
    ensures
        links_sorted(links.filter(p)),
        pairs_distinct(links) ==> pairs_distinct(links.filter(p)),
        rights_distinct(links) ==> rights_distinct(links.filter(p)),
        forall|x: Link| #[trigger] links.filter(p).contains(x) <==> (links.contains(x) && p(x)),
{
    let pos = lemma_filter_positions(links, p);
    lemma_filter_members(links, p);
    let f = links.filter(p);
    assert forall|i: int, j: int| 0 <= i < j < f.len() implies (#[trigger] f[i]).id < (
    #[trigger] f[j]).id by {
        assert(pos[i] < pos[j]);
    }
    if pairs_distinct(links) {
        assert forall|i: int, j: int|
            0 <= i < f.len() && 0 <= j < f.len() && i != j implies !((#[trigger] f[i]).left == (
        #[trigger] f[j]).left && f[i].right == f[j].right) by {
            if i < j {
                assert(pos[i] < pos[j]);
            } else {
                assert(pos[j] < pos[i]);
            }
        }
    }
    if rights_distinct(links) {
        assert forall|i: int, j: int|
            0 <= i < f.len() && 0 <= j < f.len() && i != j implies (#[trigger] f[i]).right != (
        #[trigger] f[j]).right by {
            if i < j {
                assert(pos[i] < pos[j]);
            } else {
                assert(pos[j] < pos[i]);
            }
        }
    }
}

} // verus!
