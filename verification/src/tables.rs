//! The tables as vectors of rows, and the searches, insertions and removals
//! on them.

use crate::graph::holds;
use crate::model::{
    add_name, ends_nothing, first_id, first_link_id, has_all, link_fits, link_holds, linked_from,
    linked_to, missing_among, name_holds, name_row_fits, name_row_holds, name_taken_by_other,
    rename_row, right_is, starts_nothing, table_named, StoreError, Table,
};
use crate::predicate::{Condition, Value};
use crate::rows::{
    avoids, first_index, has_id, has_left, has_link, has_link_id, has_name, has_right, id_is,
    id_is_not, link_id_is_not, link_is_not, name_is, next_link_id, next_name_id, Link, NameRow,
};
use crate::text::{contains_ignoring_case, same_text};
use vstd::prelude::*;

verus! {

/// The position of the first row named `name`.
pub fn find_name(rows: &Vec<(i64, String)>, name: &str) -> (r: Option<usize>)
    ensures
        match r {
            Some(i) => i < rows@.len() && first_index(rows.deep_view(), name_is(name@)) == Some(
                i as int,
            ),
            None => first_index(rows.deep_view(), name_is(name@)) is None,
        },
        r is Some <==> has_name(rows.deep_view(), name@),
{
    let wanted: String = name.to_owned();
    let ghost view = rows.deep_view();
    let mut i: usize = 0;
    while i < rows.len()
        invariant
            i <= rows@.len(),
            view == rows.deep_view(),
            wanted@ == name@,
            forall|j: int| 0 <= j < i ==> !name_is(name@)(#[trigger] view[j]),
        decreases rows@.len() - i,
    {
        if rows[i].1 == wanted {
            proof {
                assert(view[i as int].1 == rows@[i as int].1@);
            }
            return Some(i);
        }
        i += 1;
    }
    None
}

/// The position of the first row with the id `id`.
pub fn find_id(rows: &Vec<(i64, String)>, id: i64) -> (r: Option<usize>)
    ensures
        match r {
            Some(i) => i < rows@.len() && rows@[i as int].0 == id && first_index(
                rows.deep_view(),
                id_is(id),
            ) == Some(i as int),
            None => first_index(rows.deep_view(), id_is(id)) is None,
        },
        r is Some <==> has_id(rows.deep_view(), id),
{
    let ghost view = rows.deep_view();
    let mut i: usize = 0;
    while i < rows.len()
        invariant
            i <= rows@.len(),
            view == rows.deep_view(),
            forall|j: int| 0 <= j < i ==> !id_is(id)(#[trigger] view[j]),
        decreases rows@.len() - i,
    {
        if rows[i].0 == id {
            proof {
                assert(view[i as int].0 == rows@[i as int].0);
            }
            return Some(i);
        }
        i += 1;
    }
    None
}

/// The id that the next row of an entity table gets, if there is one left.
pub fn next_id_of_names(rows: &Vec<(i64, String)>) -> (r: Option<i64>)
    ensures
        match r {
            Some(id) => id == next_name_id(rows.deep_view()),
            None => next_name_id(rows.deep_view()) > i64::MAX,
        },
{
    let n: usize = rows.len();
    if n == 0 {
        Some(1)
    } else {
        let last: i64 = rows[n - 1].0;
        if last == i64::MAX {
            None
        } else {
            Some(last + 1)
        }
    }
}

/// The id that the next row of a relation table gets, if there is one left.
pub fn next_id_of_links(links: &Vec<Link>) -> (r: Option<i64>)
    ensures
        match r {
            Some(id) => id == next_link_id(links@),
            None => next_link_id(links@) > i64::MAX,
        },
{
    let n: usize = links.len();
    if n == 0 {
        Some(1)
    } else {
        let last: i64 = links[n - 1].id;
        if last == i64::MAX {
            None
        } else {
            Some(last + 1)
        }
    }
}

/// Adds a row for `name` under the next id.
pub fn insert_name(rows: &mut Vec<(i64, String)>, name: &str) -> (r: Result<i64, StoreError>)
    ensures
        match add_name(old(rows).deep_view(), name@) {
            Ok((after, id)) => r == Ok::<i64, StoreError>(id) && final(rows).deep_view() == after,
            Err(e) => r == Err::<i64, StoreError>(e) && final(rows).deep_view() == old(
                rows,
            ).deep_view(),
        },
{
    if find_name(rows, name).is_some() {
        return Err(StoreError::UniqueViolation);
    }
    match next_id_of_names(rows) {
        None => Err(StoreError::Full),
        Some(id) => {
            rows.push((id, name.to_owned()));
            Ok(id)
        },
    }
}

/// Whether a row other than `id` is named `name`.
pub fn name_taken(rows: &Vec<(i64, String)>, id: i64, name: &str) -> (r: bool)
    ensures
        r == name_taken_by_other(rows.deep_view(), id, name@),
{
    let wanted: String = name.to_owned();
    let ghost view = rows.deep_view();
    let mut i: usize = 0;
    while i < rows.len()
        invariant
            i <= rows@.len(),
            view == rows.deep_view(),
            wanted@ == name@,
            forall|j: int| 0 <= j < i ==> !((#[trigger] view[j]).1 == name@ && view[j].0 != id),
        decreases rows@.len() - i,
    {
        proof {
            assert(view[i as int] == (rows@[i as int].0, rows@[i as int].1@));
        }
        if rows[i].0 != id && rows[i].1 == wanted {
            return true;
        }
        i += 1;
    }
    false
}

/// Gives row `id` the name `name`.
pub fn rename(rows: &mut Vec<(i64, String)>, id: i64, name: &str) -> (r: Result<(), StoreError>)
    ensures
        match rename_row(old(rows).deep_view(), id, name@) {
            Ok(after) => r == Ok::<(), StoreError>(()) && final(rows).deep_view() == after,
            Err(e) => r == Err::<(), StoreError>(e) && final(rows).deep_view() == old(
                rows,
            ).deep_view(),
        },
{
    match find_id(rows, id) {
        None => Err(StoreError::NotFound),
        Some(i) => {
            if name_taken(rows, id, name) {
                return Err(StoreError::UniqueViolation);
            }
            let fresh: String = name.to_owned();
            rows.set(i, (id, fresh));
            assert(rows.deep_view() =~= old(rows).deep_view().update(i as int, (id, name@)));
            Ok(())
        },
    }
}

/// The table without the rows whose id is `id`.
pub fn without_id(rows: &Vec<(i64, String)>, id: i64) -> (r: Vec<(i64, String)>)
    ensures
        r.deep_view() == rows.deep_view().filter(id_is_not(id)),
{
    let ghost view = rows.deep_view();
    let mut out: Vec<(i64, String)> = Vec::new();
    let mut i: usize = 0;
    proof {
        reveal(Seq::filter);
    }
    while i < rows.len()
        invariant
            i <= rows@.len(),
            view == rows.deep_view(),
            out.deep_view() == view.take(i as int).filter(id_is_not(id)),
        decreases rows@.len() - i,
    {
        proof {
            view.lemma_take_succ_push(i as int);
            view.take(i as int).lemma_filter_push(view[i as int], id_is_not(id));
        }
        if rows[i].0 != id {
            out.push((rows[i].0, rows[i].1.clone()));
        }
        i += 1;
    }
    proof {
        view.lemma_take_len();
    }
    out
}

/// Whether some row connects `left` to `right`.
pub fn link_exists(links: &Vec<Link>, left: i64, right: i64) -> (r: bool)
    ensures
        r == has_link(links@, left, right),
{
    let mut i: usize = 0;
    while i < links.len()
        invariant
            i <= links@.len(),
            forall|j: int|
                0 <= j < i ==> !((#[trigger] links@[j]).left == left && links@[j].right == right),
        decreases links@.len() - i,
    {
        if links[i].left == left && links[i].right == right {
            return true;
        }
        i += 1;
    }
    false
}

/// Whether some row has `id` on its left side.
pub fn left_used(links: &Vec<Link>, id: i64) -> (r: bool)
    ensures
        r == has_left(links@, id),
{
    let mut i: usize = 0;
    while i < links.len()
        invariant
            i <= links@.len(),
            forall|j: int| 0 <= j < i ==> (#[trigger] links@[j]).left != id,
        decreases links@.len() - i,
    {
        if links[i].left == id {
            return true;
        }
        i += 1;
    }
    false
}

/// The position of the first row with `id` on its right side.
pub fn find_right(links: &Vec<Link>, id: i64) -> (r: Option<usize>)
    ensures
        match r {
            Some(i) => i < links@.len() && links@[i as int].right == id && first_index(
                links@,
                right_is(id),
            ) == Some(i as int),
            None => first_index(links@, right_is(id)) is None,
        },
        r is Some <==> has_right(links@, id),
{
    let mut i: usize = 0;
    while i < links.len()
        invariant
            i <= links@.len(),
            forall|j: int| 0 <= j < i ==> !right_is(id)(#[trigger] links@[j]),
        decreases links@.len() - i,
    {
        if links[i].right == id {
            return Some(i);
        }
        i += 1;
    }
    None
}

/// Whether some row of the relation table has the row id `id`.
pub fn link_id_exists(links: &Vec<Link>, id: i64) -> (r: bool)
    ensures
        r == has_link_id(links@, id),
{
    let mut i: usize = 0;
    while i < links.len()
        invariant
            i <= links@.len(),
            forall|j: int| 0 <= j < i ==> (#[trigger] links@[j]).id != id,
        decreases links@.len() - i,
    {
        if links[i].id == id {
            return true;
        }
        i += 1;
    }
    false
}

/// A copy of the rows of an entity table.
pub fn copy_names(rows: &Vec<(i64, String)>) -> (r: Vec<(i64, String)>)
    ensures
        r.deep_view() == rows.deep_view(),
{
    let ghost view = rows.deep_view();
    let mut out: Vec<(i64, String)> = Vec::new();
    let mut i: usize = 0;
    while i < rows.len()
        invariant
            i <= rows@.len(),
            view == rows.deep_view(),
            out.deep_view() == view.take(i as int),
        decreases rows@.len() - i,
    {
        let ghost before = out.deep_view();
        out.push((rows[i].0, rows[i].1.clone()));
        proof {
            assert(out.deep_view() =~= before.push(view[i as int]));
        }
        i += 1;
    }
    out
}

/// A copy of the rows of a relation table.
pub fn copy_links(links: &Vec<Link>) -> (r: Vec<Link>)
    ensures
        r@ == links@,
{
    let mut out: Vec<Link> = Vec::new();
    let mut i: usize = 0;
    while i < links.len()
        invariant
            i <= links@.len(),
            out@ == links@.take(i as int),
        decreases links@.len() - i,
    {
        out.push(links[i]);
        i += 1;
    }
    out
}

/// The table of that name.
pub fn table_of(name: &str) -> (r: Option<Table>)
    ensures
        r == table_named(name@),
{
    if same_text(name, "tags") {
        Some(Table::Tags)
    } else if same_text(name, "namespaces") {
        Some(Table::Namespaces)
    } else if same_text(name, "images") {
        Some(Table::Images)
    } else if same_text(name, "namespace_map") {
        Some(Table::NamespaceMap)
    } else if same_text(name, "subtag_map") {
        Some(Table::SubtagMap)
    } else if same_text(name, "tag_map") {
        Some(Table::TagMap)
    } else {
        None
    }
}

/// Whether a row of an entity table meets a condition.
fn name_row_meets(table: Table, row: &(i64, String), c: &Condition) -> (r: bool)
    ensures
        r == name_row_holds(table, (row.0, row.1@), c@),
{
    match &c.value {
        Value::Number(n) => same_text(c.column.as_str(), "id") && row.0 == *n,
        Value::Text(t) => {
            let column: &str = match table {
                Table::Images => "path",
                _ => "name",
            };
            same_text(c.column.as_str(), column) && same_text(row.1.as_str(), t.as_str())
        },
    }
}

/// Whether a row of a relation table meets a condition.
fn link_meets(table: Table, l: &Link, c: &Condition) -> (r: bool)
    ensures
        r == link_holds(table, *l, c@),
{
    match &c.value {
        Value::Number(n) => {
            let left: &str = match table {
                Table::NamespaceMap => "namespace_id",
                Table::SubtagMap => "parent_id",
                _ => "img_id",
            };
            let right: &str = match table {
                Table::SubtagMap => "child_id",
                _ => "tag_id",
            };
            let column: &str = c.column.as_str();
            (same_text(column, "id") && l.id == *n) || (same_text(column, left) && l.left == *n)
                || (same_text(column, right) && l.right == *n)
        },
        Value::Text(_) => false,
    }
}

/// Whether a row of an entity table meets every condition.
fn name_row_meets_all(table: Table, row: &(i64, String), conditions: &Vec<Condition>) -> (r: bool)
    ensures
        r == name_row_fits(table, conditions.deep_view())((row.0, row.1@)),
{
    let ghost view = conditions.deep_view();
    let mut k: usize = 0;
    while k < conditions.len()
        invariant
            k <= conditions@.len(),
            view == conditions.deep_view(),
            forall|j: int|
                0 <= j < k ==> name_row_holds(table, (row.0, row.1@), #[trigger] view[j]),
        decreases conditions@.len() - k,
    {
        assert(view[k as int] == conditions@[k as int]@);
        if !name_row_meets(table, row, &conditions[k]) {
            return false;
        }
        k += 1;
    }
    true
}

/// Whether a row of a relation table meets every condition.
fn link_meets_all(table: Table, l: &Link, conditions: &Vec<Condition>) -> (r: bool)
    ensures
        r == link_fits(table, conditions.deep_view())(*l),
{
    let ghost view = conditions.deep_view();
    let mut k: usize = 0;
    while k < conditions.len()
        invariant
            k <= conditions@.len(),
            view == conditions.deep_view(),
            forall|j: int| 0 <= j < k ==> link_holds(table, *l, #[trigger] view[j]),
        decreases conditions@.len() - k,
    {
        assert(view[k as int] == conditions@[k as int]@);
        if !link_meets(table, l, &conditions[k]) {
            return false;
        }
        k += 1;
    }
    true
}

/// The id of the first row of an entity table that meets every condition.
pub fn first_fitting_name(
    rows: &Vec<(i64, String)>,
    table: Table,
    conditions: &Vec<Condition>,
) -> (r: Option<i64>)
    ensures
        r == first_id(rows.deep_view(), name_row_fits(table, conditions.deep_view())),
{
    let ghost view = rows.deep_view();
    let ghost p = name_row_fits(table, conditions.deep_view());
    let mut i: usize = 0;
    while i < rows.len()
        invariant
            i <= rows@.len(),
            view == rows.deep_view(),
            p == name_row_fits(table, conditions.deep_view()),
            forall|j: int| 0 <= j < i ==> !p(#[trigger] view[j]),
        decreases rows@.len() - i,
    {
        proof {
            assert(view[i as int] == (rows@[i as int].0, rows@[i as int].1@));
        }
        if name_row_meets_all(table, &rows[i], conditions) {
            return Some(rows[i].0);
        }
        i += 1;
    }
    None
}

/// The row id of the first row of a relation table that meets every
/// condition.
pub fn first_fitting_link(links: &Vec<Link>, table: Table, conditions: &Vec<Condition>) -> (r:
    Option<i64>)
    ensures
        r == first_link_id(links@, link_fits(table, conditions.deep_view())),
{
    let ghost p = link_fits(table, conditions.deep_view());
    let mut i: usize = 0;
    while i < links.len()
        invariant
            i <= links@.len(),
            p == link_fits(table, conditions.deep_view()),
            forall|j: int| 0 <= j < i ==> !p(#[trigger] links@[j]),
        decreases links@.len() - i,
    {
        if link_meets_all(table, &links[i], conditions) {
            return Some(links[i].id);
        }
        i += 1;
    }
    None
}

/// Which rows of a relation table to take away.
pub enum Removal {
    /// The rows that mention a key on the sides named.
    Touching { key: i64, on_left: bool, on_right: bool },
    /// The row that connects a pair.
    Pair { left: i64, right: i64 },
    /// The row with a row id.
    Row { id: i64 },
}

impl Removal {
    /// The predicate that the rows that stay satisfy.
    pub open spec fn keeps(self) -> spec_fn(Link) -> bool {
        match self {
            Removal::Touching { key, on_left, on_right } => avoids(key, on_left, on_right),
            Removal::Pair { left, right } => link_is_not(left, right),
            Removal::Row { id } => link_id_is_not(id),
        }
    }

    /// Whether `l` stays.
    pub fn stays(&self, l: &Link) -> (r: bool)
        ensures
            r == self.keeps()(*l),
    {
        match self {
            Removal::Touching { key, on_left, on_right } => !((*on_left && l.left == *key) || (
            *on_right && l.right == *key)),
            Removal::Pair { left, right } => !(l.left == *left && l.right == *right),
            Removal::Row { id } => l.id != *id,
        }
    }
}

/// The relation table without the rows that `which` names.
pub fn without(links: &Vec<Link>, which: &Removal) -> (r: Vec<Link>)
    ensures
        r@ == links@.filter(which.keeps()),
{
    let mut out: Vec<Link> = Vec::new();
    let mut i: usize = 0;
    proof {
        reveal(Seq::filter);
    }
    while i < links.len()
        invariant
            i <= links@.len(),
            out@ == links@.take(i as int).filter(which.keeps()),
        decreases links@.len() - i,
    {
        proof {
            links@.lemma_take_succ_push(i as int);
            links@.take(i as int).lemma_filter_push(links@[i as int], which.keeps());
        }
        if which.stays(&links[i]) {
            out.push(links[i]);
        }
        i += 1;
    }
    proof {
        links@.lemma_take_len();
    }
    out
}

/// Whether a link leads from `left` to each of `rights`.
pub fn links_to_all(links: &Vec<Link>, left: i64, rights: &Vec<i64>) -> (r: bool)
    ensures
        r == forall|k: int|
            0 <= k < rights@.len() ==> has_link(links@, left, #[trigger] rights@[k]),
{
    let mut k: usize = 0;
    while k < rights.len()
        invariant
            k <= rights@.len(),
            forall|j: int| 0 <= j < k ==> has_link(links@, left, #[trigger] rights@[j]),
        decreases rights@.len() - k,
    {
        if !link_exists(links, left, rights[k]) {
            return false;
        }
        k += 1;
    }
    true
}

/// Which rows of an entity table to select.
pub enum Pick<'a> {
    /// The rows that some link leads to from `left`.
    LinkedFrom { links: &'a Vec<Link>, left: i64 },
    /// The rows from which some link leads to `right`.
    LinkedTo { links: &'a Vec<Link>, right: i64 },
    /// The rows at which no link starts.
    StartsNothing { links: &'a Vec<Link> },
    /// The rows at which no link ends.
    EndsNothing { links: &'a Vec<Link> },
    /// The rows whose name holds `part`, whatever the case of its letters.
    NameHolds { part: &'a str },
    /// The rows from which a link leads to each of `tags`.
    HasAll { links: &'a Vec<Link>, tags: &'a Vec<i64> },
    /// The rows of `tag` and of the tags that `above` lists, as far as no
    /// link leads to them from `item`.
    Missing { held: &'a Vec<Link>, item: i64, tag: i64, above: &'a Vec<i64> },
}

impl<'a> Pick<'a> {
    /// The predicate that the rows selected satisfy.
    pub open spec fn selects(self) -> spec_fn(NameRow) -> bool {
        match self {
            Pick::LinkedFrom { links, left } => linked_from(links@, left),
            Pick::LinkedTo { links, right } => linked_to(links@, right),
            Pick::StartsNothing { links } => starts_nothing(links@),
            Pick::EndsNothing { links } => ends_nothing(links@),
            Pick::NameHolds { part } => name_holds(part@),
            Pick::HasAll { links, tags } => has_all(links@, tags@),
            Pick::Missing { held, item, tag, above } => missing_among(above@, held@, item, tag),
        }
    }

    /// Whether the row is selected.
    pub fn takes(&self, row: &(i64, String)) -> (r: bool)
        ensures
            r == self.selects()((row.0, row.1@)),
    {
        match self {
            Pick::LinkedFrom { links, left } => link_exists(links, *left, row.0),
            Pick::LinkedTo { links, right } => link_exists(links, row.0, *right),
            Pick::StartsNothing { links } => !left_used(links, row.0),
            Pick::EndsNothing { links } => find_right(links, row.0).is_none(),
            Pick::NameHolds { part } => contains_ignoring_case(row.1.as_str(), part),
            Pick::HasAll { links, tags } => links_to_all(links, row.0, tags),
            Pick::Missing { held, item, tag, above } => (row.0 == *tag || holds(above, row.0))
                && !link_exists(held, *item, row.0),
        }
    }
}

/// The rows of an entity table that `pick` selects, in the table's order.
pub fn select(rows: &Vec<(i64, String)>, pick: &Pick) -> (r: Vec<(i64, String)>)
    ensures
        r.deep_view() == rows.deep_view().filter(pick.selects()),
{
    let ghost view = rows.deep_view();
    let ghost p = pick.selects();
    let mut out: Vec<(i64, String)> = Vec::new();
    let mut i: usize = 0;
    proof {
        reveal(Seq::filter);
    }
    while i < rows.len()
        invariant
            i <= rows@.len(),
            view == rows.deep_view(),
            p == pick.selects(),
            out.deep_view() == view.take(i as int).filter(p),
        decreases rows@.len() - i,
    {
        proof {
            view.lemma_take_succ_push(i as int);
            view.take(i as int).lemma_filter_push(view[i as int], p);
        }
        if pick.takes(&rows[i]) {
            out.push((rows[i].0, rows[i].1.clone()));
        }
        i += 1;
    }
    proof {
        view.lemma_take_len();
    }
    out
}

} // verus!
