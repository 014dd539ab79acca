//! The store as contracts see it: six tables of plain rows, the conditions
//! that keep them consistent, and every operation as a function from one
//! state to the next.

use crate::graph::{acyclic, is_ancestor};
use crate::predicate::{parse_conditions, ConditionView, ValueView};
use crate::rows::{
    avoids, first_index, has_id, has_left, has_link, has_link_id, has_name, has_right, id_is,
    id_is_not, id_of, lefts_within, link_id_is_not, link_is_not, links_sorted, names_distinct,
    names_sorted, next_link_id, next_name_id, pairs_distinct, rights_distinct, rights_within, Link,
    NameRow,
};
use crate::text::{contains_fold, words_of};
use vstd::prelude::*;

verus! {

/// Why the store turned an operation on a table down.
#[derive(Clone, Copy, Debug, PartialEq, Eq, Structural)]
pub enum StoreError {
    /// The name, path or pair is already there.
    UniqueViolation,
    /// There is no such row.
    NotFound,
    /// The table has used up its ids.
    Full,
}

/// Why a hierarchy link was turned down.
#[derive(Clone, Copy, Debug, PartialEq, Eq, Structural)]
pub enum HierarchyError {
    /// The parent is already a direct parent of the child.
    DuplicateEdge,
    /// The child is the parent itself or one of its ancestors.
    WouldCreateCycle,
    /// One of the two tags does not exist.
    UnknownTag,
    /// The table has used up its ids.
    Full,
}

/// Why a tag was not assigned.
#[derive(Clone, Copy, Debug, PartialEq, Eq, Structural)]
pub enum AssignError {
    /// No tag has that name, and none was to be created.
    UnknownTag,
    /// There is no such item.
    UnknownItem,
    /// A table has used up its ids.
    Full,
}

impl StoreError {
    /// The error in words.
    pub open spec fn message(self) -> Seq<char> {
        match self {
            StoreError::UniqueViolation => "already exists"@,
            StoreError::NotFound => "not found"@,
            StoreError::Full => "table is full"@,
        }
    }

    /// The error in words, for a caller to show.
    pub fn describe(&self) -> (r: &'static str)
        ensures
            r@ == self.message(),
    {
        match self {
            StoreError::UniqueViolation => "already exists",
            StoreError::NotFound => "not found",
            StoreError::Full => "table is full",
        }
    }
}

impl HierarchyError {
    /// The error in words.
    pub open spec fn message(self) -> Seq<char> {
        match self {
            HierarchyError::DuplicateEdge => "already a parent"@,
            HierarchyError::WouldCreateCycle => "would create a cycle"@,
            HierarchyError::UnknownTag => "unknown tag"@,
            HierarchyError::Full => "table is full"@,
        }
    }

    /// The error in words, for a caller to show.
    pub fn describe(&self) -> (r: &'static str)
        ensures
            r@ == self.message(),
    {
        match self {
            HierarchyError::DuplicateEdge => "already a parent",
            HierarchyError::WouldCreateCycle => "would create a cycle",
            HierarchyError::UnknownTag => "unknown tag",
            HierarchyError::Full => "table is full",
        }
    }
}

impl AssignError {
    /// The error in words.
    pub open spec fn message(self) -> Seq<char> {
        match self {
            AssignError::UnknownTag => "unknown tag"@,
            AssignError::UnknownItem => "unknown item"@,
            AssignError::Full => "table is full"@,
        }
    }

    /// The error in words, for a caller to show.
    pub fn describe(&self) -> (r: &'static str)
        ensures
            r@ == self.message(),
    {
        match self {
            AssignError::UnknownTag => "unknown tag",
            AssignError::UnknownItem => "unknown item",
            AssignError::Full => "table is full",
        }
    }
}

/// One of the six tables.
#[derive(Clone, Copy, Debug, PartialEq, Eq, Structural)]
pub enum Table {
    Tags,
    Namespaces,
    Images,
    NamespaceMap,
    SubtagMap,
    TagMap,
}

/// The table of that name.
pub open spec fn table_named(name: Seq<char>) -> Option<Table> {
    if name == "tags"@ {
        Some(Table::Tags)
    } else if name == "namespaces"@ {
        Some(Table::Namespaces)
    } else if name == "images"@ {
        Some(Table::Images)
    } else if name == "namespace_map"@ {
        Some(Table::NamespaceMap)
    } else if name == "subtag_map"@ {
        Some(Table::SubtagMap)
    } else if name == "tag_map"@ {
        Some(Table::TagMap)
    } else {
        None
    }
}

/// The column of an entity table that holds the text: the path of an item,
/// the name of a tag or a namespace.
pub open spec fn text_column(table: Table) -> Seq<char> {
    match table {
        Table::Images => "path"@,
        _ => "name"@,
    }
}

/// The column of a relation table that holds the left side.
pub open spec fn left_column(table: Table) -> Seq<char> {
    match table {
        Table::NamespaceMap => "namespace_id"@,
        Table::SubtagMap => "parent_id"@,
        _ => "img_id"@,
    }
}

/// The column of a relation table that holds the right side.
pub open spec fn right_column(table: Table) -> Seq<char> {
    match table {
        Table::SubtagMap => "child_id"@,
        _ => "tag_id"@,
    }
}

/// Whether a row of an entity table meets a condition: on the column `id` a
/// number, on the text column a text.
pub open spec fn name_row_holds(table: Table, row: NameRow, c: ConditionView) -> bool {
    match c.value {
        ValueView::Number(n) => c.column == "id"@ && row.0 == n,
        ValueView::Text(t) => c.column == text_column(table) && row.1 == t,
    }
}

/// Whether a row of a relation table meets a condition: a number on the
/// column `id` or on one of the two columns that name its sides.
pub open spec fn link_holds(table: Table, l: Link, c: ConditionView) -> bool {
    match c.value {
        ValueView::Number(n) => (c.column == "id"@ && l.id == n) || (c.column == left_column(table)
            && l.left == n) || (c.column == right_column(table) && l.right == n),
        ValueView::Text(_) => false,
    }
}

/// The predicate "the row meets every condition".
pub open spec fn name_row_fits(table: Table, conditions: Seq<ConditionView>) -> spec_fn(
    NameRow,
) -> bool {
    |r: NameRow|
        forall|k: int|
            0 <= k < conditions.len() ==> name_row_holds(table, r, #[trigger] conditions[k])
}

/// The predicate "the link meets every condition".
pub open spec fn link_fits(table: Table, conditions: Seq<ConditionView>) -> spec_fn(Link) -> bool {
    |l: Link|
        forall|k: int| 0 <= k < conditions.len() ==> link_holds(table, l, #[trigger] conditions[k])
}

/// The id of the first row of an entity table that satisfies `p`.
pub open spec fn first_id(rows: Seq<NameRow>, p: spec_fn(NameRow) -> bool) -> Option<i64> {
    match first_index(rows, p) {
        Some(i) => Some(rows[i].0),
        None => None,
    }
}

/// The row id of the first row of a relation table that satisfies `p`.
pub open spec fn first_link_id(links: Seq<Link>, p: spec_fn(Link) -> bool) -> Option<i64> {
    match first_index(links, p) {
        Some(i) => Some(links[i].id),
        None => None,
    }
}

/// The six tables. In `namespace_map` a link leads from a namespace to a tag,
/// in `subtag_map` from a parent tag to a child tag, in `tag_map` from an
/// item to a tag.
pub struct State {
    pub tags: Seq<NameRow>,
    pub namespaces: Seq<NameRow>,
    pub images: Seq<NameRow>,
    pub namespace_map: Seq<Link>,
    pub subtag_map: Seq<Link>,
    pub tag_map: Seq<Link>,
}

/// What a call that changes the store and returns a value owes to the
/// model: where the model succeeds, the state and the value that the model
/// gives; where the model refuses, the model's error and the store as it was.
pub open spec fn yields<T, E>(
    model: Result<(State, T), E>,
    before: State,
    after: State,
    r: Result<T, E>,
) -> bool {
    match model {
        Ok((s, v)) => after == s && r == Ok::<T, E>(v),
        Err(e) => after == before && r == Err::<T, E>(e),
    }
}

/// What a call that only changes the store owes to the model: where the
/// model succeeds, the state that the model gives; where the model refuses,
/// the model's error and the store as it was.
pub open spec fn settles<E>(
    model: Result<State, E>,
    before: State,
    after: State,
    r: Result<(), E>,
) -> bool {
    match model {
        Ok(s) => after == s && r == Ok::<(), E>(()),
        Err(e) => after == before && r == Err::<(), E>(e),
    }
}

/// What a call owes to the model where it answers with a value or with
/// nothing: where the model succeeds, the state and the value that the model
/// gives; where the model refuses, nothing, and the store as it was.
pub open spec fn answers<T, E>(
    model: Result<(State, T), E>,
    before: State,
    after: State,
    r: Option<T>,
) -> bool {
    match model {
        Ok((s, v)) => after == s && r == Some(v),
        Err(_) => after == before && r is None,
    }
}

/// What a call owes to the model where it only says whether it went
/// through: where the model succeeds, the state that the model gives; where
/// the model refuses, nothing, and the store as it was.
pub open spec fn allows<E>(
    model: Result<State, E>,
    before: State,
    after: State,
    r: Option<()>,
) -> bool {
    match model {
        Ok(s) => after == s && r == Some(()),
        Err(_) => after == before && r is None,
    }
}

/// An entity table with a row for `name` added, under the next id.
pub open spec fn with_name(rows: Seq<NameRow>, name: Seq<char>) -> Seq<NameRow> {
    rows.push((next_name_id(rows) as i64, name))
}

/// A relation table with a row from `left` to `right` added, under the next id.
pub open spec fn with_link(links: Seq<Link>, left: i64, right: i64) -> Seq<Link> {
    links.push(Link { id: next_link_id(links) as i64, left, right })
}

/// A relation table with one row added from `left` to each of `rows`, under
/// the ids that follow.
pub open spec fn attach(links: Seq<Link>, left: i64, rows: Seq<NameRow>) -> Seq<Link> {
    links + Seq::new(
        rows.len(),
        |k: int| Link { id: (next_link_id(links) + k) as i64, left, right: rows[k].0 },
    )
}

/// Adds a row for `name`: refused where the name is taken or the ids are
/// used up.
pub open spec fn add_name(rows: Seq<NameRow>, name: Seq<char>) -> Result<
    (Seq<NameRow>, i64),
    StoreError,
> {
    if has_name(rows, name) {
        Err(StoreError::UniqueViolation)
    } else if next_name_id(rows) > i64::MAX {
        Err(StoreError::Full)
    } else {
        Ok((with_name(rows, name), next_name_id(rows) as i64))
    }
}

/// Some row other than `id` is named `name`.
pub open spec fn name_taken_by_other(rows: Seq<NameRow>, id: i64, name: Seq<char>) -> bool {
    exists|j: int| 0 <= j < rows.len() && (#[trigger] rows[j]).1 == name && rows[j].0 != id
}

/// Gives row `id` the name `name`: refused where there is no such row or
/// another row has the name.
pub open spec fn rename_row(rows: Seq<NameRow>, id: i64, name: Seq<char>) -> Result<
    Seq<NameRow>,
    StoreError,
> {
    match first_index(rows, id_is(id)) {
        None => Err(StoreError::NotFound),
        Some(i) => if name_taken_by_other(rows, id, name) {
            Err(StoreError::UniqueViolation)
        } else {
            Ok(rows.update(i, (id, name)))
        },
    }
}

/// The predicate "the tag is `tag` or one of its ancestors, and `item` does
/// not have it yet".
pub open spec fn is_missing(links: Seq<Link>, held: Seq<Link>, item: i64, tag: i64) -> spec_fn(
    NameRow,
) -> bool {
    |r: NameRow| (r.0 == tag || is_ancestor(links, r.0, tag)) && !has_link(held, item, r.0)
}

/// The predicate "the row's right side is `right`".
pub open spec fn right_is(right: i64) -> spec_fn(Link) -> bool {
    |l: Link| l.right == right
}

/// The predicate "the tag is `tag` or listed in `above`, and `item` does not
/// have it yet".
pub open spec fn missing_among(above: Seq<i64>, held: Seq<Link>, item: i64, tag: i64) -> spec_fn(
    NameRow,
) -> bool {
    |r: NameRow| (r.0 == tag || above.contains(r.0)) && !has_link(held, item, r.0)
}

/// The predicate "some link leads from `left` to the row".
pub open spec fn linked_from(links: Seq<Link>, left: i64) -> spec_fn(NameRow) -> bool {
    |r: NameRow| has_link(links, left, r.0)
}

/// The predicate "some link leads from the row to `right`".
pub open spec fn linked_to(links: Seq<Link>, right: i64) -> spec_fn(NameRow) -> bool {
    |r: NameRow| has_link(links, r.0, right)
}

/// The predicate "no link starts at the row".
pub open spec fn starts_nothing(links: Seq<Link>) -> spec_fn(NameRow) -> bool {
    |r: NameRow| !has_left(links, r.0)
}

/// The predicate "no link ends at the row".
pub open spec fn ends_nothing(links: Seq<Link>) -> spec_fn(NameRow) -> bool {
    |r: NameRow| !has_right(links, r.0)
}

/// The predicate "the row's name holds `part`, letters compared without
/// regard to ASCII case".
pub open spec fn name_holds(part: Seq<char>) -> spec_fn(NameRow) -> bool {
    |r: NameRow| contains_fold(r.1, part)
}

/// The predicate "the item has every one of `tags`".
pub open spec fn has_all(held: Seq<Link>, tags: Seq<i64>) -> spec_fn(NameRow) -> bool {
    |r: NameRow| forall|k: int| 0 <= k < tags.len() ==> has_link(held, r.0, #[trigger] tags[k])
}

/// The predicate "the word names a tag".
pub open spec fn names_a_tag(tags: Seq<NameRow>) -> spec_fn(Seq<char>) -> bool {
    |w: Seq<char>| has_name(tags, w)
}

/// The ids of the tags that `words` name, in the order of the words; a word
/// that names no tag is passed over.
pub open spec fn resolve(tags: Seq<NameRow>, words: Seq<Seq<char>>) -> Seq<i64>
    decreases words.len(),
{
    if words.len() == 0 {
        Seq::empty()
    } else {
        let front = resolve(tags, words.drop_last());
        match id_of(tags, words.last()) {
            Some(id) => front.push(id),
            None => front,
        }
    }
}

impl State {
    /// The store without any row.
    pub open spec fn empty() -> State {
        State {
            tags: Seq::empty(),
            namespaces: Seq::empty(),
            images: Seq::empty(),
            namespace_map: Seq::empty(),
            subtag_map: Seq::empty(),
            tag_map: Seq::empty(),
        }
    }

    /// What holds of every store: ids grow within each table; names and
    /// paths are unique; a tag has at most one namespace; no pair occurs twice
    /// in the hierarchy or among the assignments; every link connects rows that
    /// exist; and the hierarchy has no cycle.
    pub open spec fn wf(self) -> bool {
        &&& names_sorted(self.tags)
        &&& names_distinct(self.tags)
        &&& names_sorted(self.namespaces)
        &&& names_distinct(self.namespaces)
        &&& names_sorted(self.images)
        &&& names_distinct(self.images)
        &&& links_sorted(self.namespace_map)
        &&& rights_distinct(self.namespace_map)
        &&& lefts_within(self.namespace_map, self.namespaces)
        &&& rights_within(self.namespace_map, self.tags)
        &&& links_sorted(self.subtag_map)
        &&& pairs_distinct(self.subtag_map)
        &&& lefts_within(self.subtag_map, self.tags)
        &&& rights_within(self.subtag_map, self.tags)
        &&& acyclic(self.subtag_map)
        &&& links_sorted(self.tag_map)
        &&& pairs_distinct(self.tag_map)
        &&& lefts_within(self.tag_map, self.images)
        &&& rights_within(self.tag_map, self.tags)
    }

    /// Creates a tag named `name`.
    pub open spec fn create_tag(self, name: Seq<char>) -> Result<(State, i64), StoreError> {
        match add_name(self.tags, name) {
            Ok((rows, id)) => Ok((State { tags: rows, ..self }, id)),
            Err(e) => Err(e),
        }
    }

    /// Creates an item with the path `path`.
    pub open spec fn create_item(self, path: Seq<char>) -> Result<(State, i64), StoreError> {
        match add_name(self.images, path) {
            Ok((rows, id)) => Ok((State { images: rows, ..self }, id)),
            Err(e) => Err(e),
        }
    }

    /// Creates a namespace named `name`.
    pub open spec fn create_namespace(self, name: Seq<char>) -> Result<
        (State, i64),
        StoreError,
    > {
        match add_name(self.namespaces, name) {
            Ok((rows, id)) => Ok((State { namespaces: rows, ..self }, id)),
            Err(e) => Err(e),
        }
    }

    /// The store without tag `id` and without every link that mentions it.
    pub open spec fn without_tag(self, id: i64) -> State {
        State {
            tags: self.tags.filter(id_is_not(id)),
            namespace_map: self.namespace_map.filter(avoids(id, false, true)),
            subtag_map: self.subtag_map.filter(avoids(id, true, true)),
            tag_map: self.tag_map.filter(avoids(id, false, true)),
            ..self
        }
    }

    /// The store without item `id` and without its assignments.
    pub open spec fn without_item(self, id: i64) -> State {
        State {
            images: self.images.filter(id_is_not(id)),
            tag_map: self.tag_map.filter(avoids(id, true, false)),
            ..self
        }
    }

    /// The store without namespace `id` and without the links to its tags.
    pub open spec fn without_namespace(self, id: i64) -> State {
        State {
            namespaces: self.namespaces.filter(id_is_not(id)),
            namespace_map: self.namespace_map.filter(avoids(id, true, false)),
            ..self
        }
    }

    /// Deletes tag `id` with all that hangs on it.
    pub open spec fn delete_tag(self, id: i64) -> Result<State, StoreError> {
        if has_id(self.tags, id) {
            Ok(self.without_tag(id))
        } else {
            Err(StoreError::NotFound)
        }
    }

    /// Deletes item `id` with its assignments.
    pub open spec fn delete_item(self, id: i64) -> Result<State, StoreError> {
        if has_id(self.images, id) {
            Ok(self.without_item(id))
        } else {
            Err(StoreError::NotFound)
        }
    }

    /// Deletes the item at `path` with its assignments.
    pub open spec fn delete_item_by_path(self, path: Seq<char>) -> Result<State, StoreError> {
        match id_of(self.images, path) {
            Some(id) => Ok(self.without_item(id)),
            None => Err(StoreError::NotFound),
        }
    }

    /// Deletes namespace `id`; its tags stay, without a namespace.
    pub open spec fn delete_namespace(self, id: i64) -> Result<State, StoreError> {
        if has_id(self.namespaces, id) {
            Ok(self.without_namespace(id))
        } else {
            Err(StoreError::NotFound)
        }
    }

    /// Renames tag `id`.
    pub open spec fn rename_tag(self, id: i64, name: Seq<char>) -> Result<State, StoreError> {
        match rename_row(self.tags, id, name) {
            Ok(rows) => Ok(State { tags: rows, ..self }),
            Err(e) => Err(e),
        }
    }

    /// Renames namespace `id`.
    pub open spec fn rename_namespace(self, id: i64, name: Seq<char>) -> Result<
        State,
        StoreError,
    > {
        match rename_row(self.namespaces, id, name) {
            Ok(rows) => Ok(State { namespaces: rows, ..self }),
            Err(e) => Err(e),
        }
    }

    /// Gives item `id` another path.
    pub open spec fn update_path(self, id: i64, path: Seq<char>) -> Result<State, StoreError> {
        match rename_row(self.images, id, path) {
            Ok(rows) => Ok(State { images: rows, ..self }),
            Err(e) => Err(e),
        }
    }

    /// Gives the row with the id `id` of `table` the name, or the path,
    /// `name`. The rows of a relation table have no name.
    pub open spec fn rename(self, table: Table, id: i64, name: Seq<char>) -> Result<
        State,
        StoreError,
    > {
        match table {
            Table::Tags => self.rename_tag(id, name),
            Table::Namespaces => self.rename_namespace(id, name),
            Table::Images => self.update_path(id, name),
            _ => Err(StoreError::NotFound),
        }
    }

    /// Makes `parent` a direct parent of `child`.
    pub open spec fn add_hierarchy_edge(self, parent: i64, child: i64) -> Result<
        State,
        HierarchyError,
    > {
        if !has_id(self.tags, parent) || !has_id(self.tags, child) {
            Err(HierarchyError::UnknownTag)
        } else if has_link(self.subtag_map, parent, child) {
            Err(HierarchyError::DuplicateEdge)
        } else if parent == child || is_ancestor(self.subtag_map, child, parent) {
            Err(HierarchyError::WouldCreateCycle)
        } else if next_link_id(self.subtag_map) > i64::MAX {
            Err(HierarchyError::Full)
        } else {
            Ok(State { subtag_map: with_link(self.subtag_map, parent, child), ..self })
        }
    }

    /// Offers the links `links`, each a parent and a child, to the hierarchy
    /// one after the other: the state after the last, where each link that was
    /// refused has changed nothing.
    pub open spec fn with_edges(self, links: Seq<(i64, i64)>) -> State
        decreases links.len(),
    {
        if links.len() == 0 {
            self
        } else {
            let s = self.with_edges(links.drop_last());
            s.or_unchanged(s.add_hierarchy_edge(links.last().0, links.last().1))
        }
    }

    /// Takes the link from `parent` to `child` away. What items were tagged
    /// with stays as it is.
    pub open spec fn remove_hierarchy_edge(self, parent: i64, child: i64) -> Result<
        State,
        StoreError,
    > {
        if has_link(self.subtag_map, parent, child) {
            Ok(State { subtag_map: self.subtag_map.filter(link_is_not(parent, child)), ..self })
        } else {
            Err(StoreError::NotFound)
        }
    }

    /// The rows of the tags that an assignment of `tag` to `item` adds: `tag`
    /// and its ancestors, as far as the item does not have them yet.
    pub open spec fn missing(self, item: i64, tag: i64) -> Seq<NameRow> {
        self.tags.filter(is_missing(self.subtag_map, self.tag_map, item, tag))
    }

    /// The store with `tag` and all its ancestors assigned to `item`.
    pub open spec fn with_assigned(self, item: i64, tag: i64) -> Result<State, AssignError> {
        let rows = self.missing(item, tag);
        if rows.len() > 0 && next_link_id(self.tag_map) + rows.len() - 1 > i64::MAX {
            Err(AssignError::Full)
        } else {
            Ok(State { tag_map: attach(self.tag_map, item, rows), ..self })
        }
    }

    /// Assigns the tag named `name` to `item`, and with it every ancestor of
    /// the tag. A tag that the item already has is left as it is. Where no tag
    /// has the name, one is created first if `create` says so.
    pub open spec fn assign(self, item: i64, name: Seq<char>, create: bool) -> Result<
        State,
        AssignError,
    > {
        if !has_id(self.images, item) {
            Err(AssignError::UnknownItem)
        } else {
            match id_of(self.tags, name) {
                Some(tag) => self.with_assigned(item, tag),
                None => if !create {
                    Err(AssignError::UnknownTag)
                } else if next_name_id(self.tags) > i64::MAX {
                    Err(AssignError::Full)
                } else {
                    State { tags: with_name(self.tags, name), ..self }.with_assigned(
                        item,
                        next_name_id(self.tags) as i64,
                    )
                },
            }
        }
    }

    /// Takes `tag` from `item`: that one assignment and no other.
    pub open spec fn unassign(self, tag: i64, item: i64) -> Result<State, StoreError> {
        if has_link(self.tag_map, item, tag) {
            Ok(State { tag_map: self.tag_map.filter(link_is_not(item, tag)), ..self })
        } else {
            Err(StoreError::NotFound)
        }
    }

    /// Puts `tag` into `namespace`.
    pub open spec fn set_namespace(self, tag: i64, namespace: i64) -> Result<
        State,
        StoreError,
    > {
        if !has_id(self.tags, tag) || !has_id(self.namespaces, namespace) {
            Err(StoreError::NotFound)
        } else if has_right(self.namespace_map, tag) {
            Err(StoreError::UniqueViolation)
        } else if next_link_id(self.namespace_map) > i64::MAX {
            Err(StoreError::Full)
        } else {
            Ok(State { namespace_map: with_link(self.namespace_map, namespace, tag), ..self })
        }
    }

    /// Takes `tag` out of its namespace.
    pub open spec fn clear_namespace(self, tag: i64) -> Result<State, StoreError> {
        if has_right(self.namespace_map, tag) {
            Ok(
                State {
                    namespace_map: self.namespace_map.filter(avoids(tag, false, true)),
                    ..self
                },
            )
        } else {
            Err(StoreError::NotFound)
        }
    }

    /// The namespace that `tag` is in.
    pub open spec fn namespace_of_tag(self, tag: i64) -> Option<i64> {
        match first_index(self.namespace_map, right_is(tag)) {
            Some(i) => Some(self.namespace_map[i].left),
            None => None,
        }
    }

    /// The tags of `item`, in the order of the tag table.
    pub open spec fn tags_of_item(self, item: i64) -> Seq<NameRow> {
        self.tags.filter(linked_from(self.tag_map, item))
    }

    /// The items that have `tag`, in the order of the item table.
    pub open spec fn items_with_tag(self, tag: i64) -> Seq<NameRow> {
        self.images.filter(linked_to(self.tag_map, tag))
    }

    /// The tags in `namespace`, in the order of the tag table.
    pub open spec fn tags_in_namespace(self, namespace: i64) -> Seq<NameRow> {
        self.tags.filter(linked_from(self.namespace_map, namespace))
    }

    /// The tags that no item has.
    pub open spec fn orphan_tags(self) -> Seq<NameRow> {
        self.tags.filter(ends_nothing(self.tag_map))
    }

    /// The namespaces that hold no tag.
    pub open spec fn orphan_namespaces(self) -> Seq<NameRow> {
        self.namespaces.filter(starts_nothing(self.namespace_map))
    }

    /// The items without a tag.
    pub open spec fn orphan_items(self) -> Seq<NameRow> {
        self.images.filter(starts_nothing(self.tag_map))
    }

    /// The items that have every one of `tags`, in the order of the item
    /// table: all items where `tags` is empty.
    pub open spec fn items_with_all(self, tags: Seq<i64>) -> Seq<NameRow> {
        self.images.filter(has_all(self.tag_map, tags))
    }

    /// The answer to a query: the items that have every tag that a word of
    /// `query` names.
    pub open spec fn compile_and_run(self, query: Seq<char>) -> Seq<NameRow> {
        self.items_with_all(resolve(self.tags, words_of(query)))
    }

    /// The tags whose name holds `part`; none where `part` is empty.
    pub open spec fn search_tags(self, part: Seq<char>) -> Seq<NameRow> {
        if part.len() == 0 {
            Seq::empty()
        } else {
            self.tags.filter(name_holds(part))
        }
    }

    /// Deletes the row with the id `id` from `table`. With a tag, an item or a
    /// namespace goes what hangs on it; a row of a relation table goes alone.
    pub open spec fn delete(self, table: Table, id: i64) -> Result<State, StoreError> {
        match table {
            Table::Tags => self.delete_tag(id),
            Table::Namespaces => self.delete_namespace(id),
            Table::Images => self.delete_item(id),
            Table::NamespaceMap => if has_link_id(self.namespace_map, id) {
                Ok(
                    State {
                        namespace_map: self.namespace_map.filter(link_id_is_not(id)),
                        ..self
                    },
                )
            } else {
                Err(StoreError::NotFound)
            },
            Table::SubtagMap => if has_link_id(self.subtag_map, id) {
                Ok(State { subtag_map: self.subtag_map.filter(link_id_is_not(id)), ..self })
            } else {
                Err(StoreError::NotFound)
            },
            Table::TagMap => if has_link_id(self.tag_map, id) {
                Ok(State { tag_map: self.tag_map.filter(link_id_is_not(id)), ..self })
            } else {
                Err(StoreError::NotFound)
            },
        }
    }

    /// The id of the first row of `table` that meets every one of
    /// `conditions`.
    pub open spec fn find_id(self, table: Table, conditions: Seq<ConditionView>) -> Option<i64> {
        match table {
            Table::Tags => first_id(self.tags, name_row_fits(table, conditions)),
            Table::Namespaces => first_id(self.namespaces, name_row_fits(table, conditions)),
            Table::Images => first_id(self.images, name_row_fits(table, conditions)),
            Table::NamespaceMap => first_link_id(self.namespace_map, link_fits(table, conditions)),
            Table::SubtagMap => first_link_id(self.subtag_map, link_fits(table, conditions)),
            Table::TagMap => first_link_id(self.tag_map, link_fits(table, conditions)),
        }
    }

    /// The id of the first row of the table named `table` that meets the
    /// conditions that `query` states: none where there is no such table or
    /// `query` states no conditions.
    pub open spec fn get_id(self, table: Seq<char>, query: Seq<char>) -> Option<i64> {
        match (table_named(table), parse_conditions(query)) {
            (Some(t), Some(conditions)) => self.find_id(t, conditions),
            _ => None,
        }
    }

    /// Deletes the row with the id `id` from the table named `table`.
    pub open spec fn remove_id(self, id: i64, table: Seq<char>) -> Result<State, StoreError> {
        match table_named(table) {
            Some(t) => self.delete(t, id),
            None => Err(StoreError::NotFound),
        }
    }

    /// Creates a tag for each of `names` in turn: the state after the last,
    /// and for each name the id of its tag, or nothing where the tag was
    /// refused.
    pub open spec fn create_tags(self, names: Seq<Seq<char>>) -> (State, Seq<Option<i64>>)
        decreases names.len(),
    {
        if names.len() == 0 {
            (self, Seq::empty())
        } else {
            let (s, ids) = self.create_tags(names.drop_last());
            match s.create_tag(names.last()) {
                Ok((t, id)) => (t, ids.push(Some(id))),
                Err(_) => (s, ids.push(None)),
            }
        }
    }

    /// Deletes the tags `ids` one after the other, each with what hangs on
    /// it, up to the first that is not there: the state that is reached, and
    /// whether every tag was there.
    pub open spec fn delete_tags(self, ids: Seq<i64>) -> (State, bool)
        decreases ids.len(),
    {
        if ids.len() == 0 {
            (self, true)
        } else {
            let (s, done) = self.delete_tags(ids.drop_last());
            if !done {
                (s, false)
            } else {
                match s.delete_tag(ids.last()) {
                    Ok(t) => (t, true),
                    Err(_) => (s, false),
                }
            }
        }
    }

    /// The state after an operation that may be refused: the state that the
    /// model gives, or this one as it is where the model refuses.
    pub open spec fn or_unchanged<E>(self, model: Result<State, E>) -> State {
        match model {
            Ok(s) => s,
            Err(_) => self,
        }
    }

    /// The store without the link between `a` and `b`, whichever of the two
    /// is the parent.
    pub open spec fn without_connection(self, a: i64, b: i64) -> State {
        State {
            subtag_map: self.subtag_map.filter(link_is_not(a, b)).filter(link_is_not(b, a)),
            ..self
        }
    }

    /// Takes the link between `a` and `b` away, whichever of the two is the
    /// parent: refused where the two are not linked.
    pub open spec fn remove_connection(self, a: i64, b: i64) -> Result<State, StoreError> {
        if has_link(self.subtag_map, a, b) || has_link(self.subtag_map, b, a) {
            Ok(self.without_connection(a, b))
        } else {
            Err(StoreError::NotFound)
        }
    }

    /// Takes the link between the tags named `a` and `b` away, whichever of
    /// the two is the parent: refused where one of the names is no tag's, and
    /// where the two tags are not linked.
    pub open spec fn remove_connection_by_name(self, a: Seq<char>, b: Seq<char>) -> Result<
        State,
        StoreError,
    > {
        match (id_of(self.tags, a), id_of(self.tags, b)) {
            (Some(x), Some(y)) => self.remove_connection(x, y),
            _ => Err(StoreError::NotFound),
        }
    }
}

} // verus!
