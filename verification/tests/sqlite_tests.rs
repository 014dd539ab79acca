use db::load::Tables;
use db::model::{AssignError, HierarchyError, StoreError};
use db::rows::Link;
use db::store::Store;
use db::utils;
use rusqlite::Connection;

const SCHEMA: &str = "
    CREATE TABLE tags (id INTEGER PRIMARY KEY, name TEXT NOT NULL UNIQUE);
    CREATE TABLE namespaces (id INTEGER PRIMARY KEY, name TEXT NOT NULL UNIQUE);
    CREATE TABLE images (id INTEGER PRIMARY KEY, path TEXT NOT NULL UNIQUE);
    CREATE TABLE namespace_map (
        id INTEGER PRIMARY KEY,
        namespace_id INTEGER,
        tag_id INTEGER UNIQUE,
        FOREIGN KEY(namespace_id) REFERENCES namespaces(id) ON DELETE CASCADE,
        FOREIGN KEY(tag_id) REFERENCES tags(id) ON DELETE CASCADE);
    CREATE TABLE subtag_map (
        id INTEGER PRIMARY KEY,
        parent_id INTEGER,
        child_id INTEGER,
        FOREIGN KEY(parent_id) REFERENCES tags(id) ON DELETE CASCADE,
        FOREIGN KEY(child_id) REFERENCES tags(id) ON DELETE CASCADE,
        CONSTRAINT duplicate_subtag UNIQUE(parent_id, child_id));
    CREATE TABLE tag_map (
        id INTEGER PRIMARY KEY,
        img_id INTEGER,
        tag_id INTEGER,
        FOREIGN KEY (img_id) REFERENCES images(id) ON DELETE CASCADE,
        FOREIGN KEY (tag_id) REFERENCES tags(id) ON DELETE CASCADE,
        CONSTRAINT duplicate_tag UNIQUE(img_id, tag_id));
";

fn database() -> Connection {
    let c = Connection::open_in_memory().unwrap();
    c.execute_batch("PRAGMA foreign_keys = ON;").unwrap();
    c.execute_batch(SCHEMA).unwrap();
    c
}

fn named(c: &Connection, sql: &str) -> Vec<(i64, String)> {
    let mut st = c.prepare(sql).unwrap();
    let rows = st
        .query_map((), |r| Ok((r.get::<usize, i64>(0)?, r.get::<usize, String>(1)?)))
        .unwrap();
    rows.map(|r| r.unwrap()).collect()
}

fn linked(c: &Connection, sql: &str) -> Vec<Link> {
    let mut st = c.prepare(sql).unwrap();
    let rows = st
        .query_map((), |r| {
            Ok(Link {
                id: r.get::<usize, i64>(0)?,
                left: r.get::<usize, i64>(1)?,
                right: r.get::<usize, i64>(2)?,
            })
        })
        .unwrap();
    rows.map(|r| r.unwrap()).collect()
}

fn first_id(c: &Connection, table: &str, query: &str) -> Option<i64> {
    let sql = format!("SELECT id FROM {} WHERE {} ORDER BY id", table, query);
    let mut st = c.prepare(&sql).unwrap();
    st.query_row((), |r| r.get::<usize, i64>(0)).ok()
}

fn insert(c: &Connection, sql: &str, text: &str) -> Option<i64> {
    match c.execute(sql, [text]) {
        Ok(_) => Some(c.last_insert_rowid()),
        Err(_) => None,
    }
}

fn connect(c: &Connection, sql: &str, left: i64, right: i64) -> Option<i64> {
    match c.execute(sql, [left, right]) {
        Ok(_) => Some(c.last_insert_rowid()),
        Err(_) => None,
    }
}

fn remove(c: &Connection, sql: &str, id: i64) -> usize {
    c.execute(sql, [id]).unwrap()
}

const NEW_TAG: &str = "INSERT INTO tags(name) VALUES (?1)";
const NEW_IMAGE: &str = "INSERT INTO images(path) VALUES (?1)";
const NEW_NAMESPACE: &str = "INSERT INTO namespaces(name) VALUES (?1)";
const NEW_EDGE: &str = "INSERT INTO subtag_map(parent_id, child_id) VALUES (?1, ?2)";
const NEW_ASSIGNMENT: &str = "INSERT INTO tag_map(img_id, tag_id) VALUES (?1, ?2)";
const NEW_MEMBER: &str = "INSERT INTO namespace_map(namespace_id, tag_id) VALUES (?1, ?2)";

fn assert_same_rows(c: &Connection, s: Store) -> Store {
    let t = s.dump();
    assert_eq!(t.tags, named(c, "SELECT id, name FROM tags ORDER BY id"));
    assert_eq!(t.namespaces, named(c, "SELECT id, name FROM namespaces ORDER BY id"));
    assert_eq!(t.images, named(c, "SELECT id, path FROM images ORDER BY id"));
    assert_eq!(
        t.namespace_map,
        linked(c, "SELECT id, namespace_id, tag_id FROM namespace_map ORDER BY id")
    );
    assert_eq!(t.subtag_map, linked(c, "SELECT id, parent_id, child_id FROM subtag_map ORDER BY id"));
    assert_eq!(t.tag_map, linked(c, "SELECT id, img_id, tag_id FROM tag_map ORDER BY id"));
    Store::load(t).unwrap()
}

#[test]
fn ids_are_given_as_sqlite_gives_them() {
    let c = database();
    let mut s = Store::new();
    for name in ["a", "b", "c"] {
        assert_eq!(s.create_tag(name).ok(), insert(&c, NEW_TAG, name));
    }
    assert_eq!(s.delete_tag(3).is_ok(), remove(&c, "DELETE FROM tags WHERE id=?1", 3) == 1);
    assert_eq!(s.create_tag("d").ok(), insert(&c, NEW_TAG, "d"));
    assert_eq!(s.delete_tag(1).is_ok(), remove(&c, "DELETE FROM tags WHERE id=?1", 1) == 1);
    assert_eq!(s.create_tag("e").ok(), insert(&c, NEW_TAG, "e"));
    assert_eq!(s.create_tag("b").ok(), insert(&c, NEW_TAG, "b"));
    assert_eq!(s.create_tag("f").ok(), insert(&c, NEW_TAG, "f"));
    for id in [2, 3, 4, 5] {
        assert_eq!(s.delete_tag(id).is_ok(), remove(&c, "DELETE FROM tags WHERE id=?1", id) == 1);
    }
    assert_eq!(s.create_tag("g").ok(), insert(&c, NEW_TAG, "g"));
    assert_eq!(s.create_tag("g").ok(), insert(&c, NEW_TAG, "g"));
    assert_same_rows(&c, s);
}

#[test]
fn constraints_are_kept_as_sqlite_keeps_them() {
    let c = database();
    let mut s = Store::new();
    for name in ["a", "b", "c"] {
        assert_eq!(s.create_tag(name).ok(), insert(&c, NEW_TAG, name));
    }
    for path in ["i", "j", "i"] {
        assert_eq!(s.create_item(path).ok(), insert(&c, NEW_IMAGE, path));
    }
    for name in ["n", "m", "n"] {
        assert_eq!(s.create_namespace(name).ok(), insert(&c, NEW_NAMESPACE, name));
    }
    // unique pairs and rows that must exist
    for (p, ch) in [(1, 2), (1, 2), (2, 3), (1, 9), (9, 1), (1, 3)] {
        assert_eq!(s.add_hierarchy_edge(p, ch).is_ok(), connect(&c, NEW_EDGE, p, ch).is_some());
    }
    // one namespace for a tag
    for (ns, t) in [(1, 1), (2, 1), (1, 2), (3, 3), (2, 9)] {
        assert_eq!(s.set_namespace(t, ns).is_ok(), connect(&c, NEW_MEMBER, ns, t).is_some());
    }
    let s = assert_same_rows(&c, s);
    // renaming
    let mut s = s;
    for (id, name) in [(1, "b"), (1, "z"), (2, "a"), (7, "q"), (3, "c")] {
        let changed = c.execute("UPDATE tags SET name=?1 WHERE id=?2", (name, id));
        match s.rename_tag(id, name) {
            Ok(()) => assert_eq!(changed.ok(), Some(1)),
            Err(StoreError::NotFound) => assert_eq!(changed.ok(), Some(0)),
            Err(StoreError::UniqueViolation) => assert!(changed.is_err()),
            Err(StoreError::Full) => unreachable!(),
        }
    }
    assert_same_rows(&c, s);
}

#[test]
fn what_sqlite_takes_and_the_hierarchy_refuses() {
    let c = database();
    let mut s = Store::new();
    for name in ["a", "b"] {
        assert_eq!(s.create_tag(name).ok(), insert(&c, NEW_TAG, name));
    }
    assert_eq!(s.add_hierarchy_edge(1, 2), Ok(()));
    assert!(connect(&c, NEW_EDGE, 1, 2).is_some());
    assert_eq!(s.add_hierarchy_edge(2, 1), Err(HierarchyError::WouldCreateCycle));
    assert_eq!(s.add_hierarchy_edge(1, 1), Err(HierarchyError::WouldCreateCycle));
    assert!(connect(&c, NEW_EDGE, 2, 1).is_some());
    assert!(connect(&c, NEW_EDGE, 1, 1).is_some());
    let t = s.dump();
    let mut with_cycle = Tables {
        tags: t.tags,
        namespaces: t.namespaces,
        images: t.images,
        namespace_map: t.namespace_map,
        subtag_map: linked(&c, "SELECT id, parent_id, child_id FROM subtag_map ORDER BY id"),
        tag_map: t.tag_map,
    };
    assert!(!with_cycle.check());
    with_cycle.subtag_map.truncate(1);
    assert!(with_cycle.check());
}

#[test]
fn deletes_cascade_as_in_sqlite() {
    let c = database();
    let mut s = Store::new();
    for name in ["a", "b", "c", "d"] {
        assert_eq!(s.create_tag(name).ok(), insert(&c, NEW_TAG, name));
    }
    for path in ["i", "j"] {
        assert_eq!(s.create_item(path).ok(), insert(&c, NEW_IMAGE, path));
    }
    for name in ["n", "m"] {
        assert_eq!(s.create_namespace(name).ok(), insert(&c, NEW_NAMESPACE, name));
    }
    for (p, ch) in [(1, 2), (2, 3), (2, 4), (1, 4)] {
        assert_eq!(s.add_hierarchy_edge(p, ch).is_ok(), connect(&c, NEW_EDGE, p, ch).is_some());
    }
    for (ns, t) in [(1, 2), (1, 3), (2, 4)] {
        assert_eq!(s.set_namespace(t, ns).is_ok(), connect(&c, NEW_MEMBER, ns, t).is_some());
    }
    // single assignments, of tags without parents, so that the rows are the same
    for (item, tag, name) in [(1, 1, "a"), (2, 1, "a")] {
        assert_eq!(s.assign(item, name, false), Ok(()));
        assert!(connect(&c, NEW_ASSIGNMENT, item, tag).is_some());
    }
    // a tag with ancestors: the rows in the order of the tags
    assert_eq!(s.assign(1, "c", false), Ok(()));
    for tag in [2, 3] {
        assert!(connect(&c, NEW_ASSIGNMENT, 1, tag).is_some());
    }
    let mut s = assert_same_rows(&c, s);

    assert_eq!(s.delete_tag(2), Ok(()));
    assert_eq!(remove(&c, "DELETE FROM tags WHERE id=?1", 2), 1);
    let mut s = assert_same_rows(&c, { s.orphan_tags(); s });

    assert_eq!(s.delete_item(1), Ok(()));
    assert_eq!(remove(&c, "DELETE FROM images WHERE id=?1", 1), 1);
    let mut s = assert_same_rows(&c, { s.orphan_items(); s });

    assert_eq!(s.delete_namespace(1), Ok(()));
    assert_eq!(remove(&c, "DELETE FROM namespaces WHERE id=?1", 1), 1);
    let mut s = assert_same_rows(&c, { s.orphan_namespaces(); s });

    assert_eq!(s.delete_item_by_path("j"), Ok(()));
    assert_eq!(c.execute("DELETE FROM images WHERE path=?1", ["j"]).unwrap(), 1);
    assert_eq!(s.delete_tag(9), Err(StoreError::NotFound));
    assert_eq!(remove(&c, "DELETE FROM tags WHERE id=?1", 9), 0);
    assert_same_rows(&c, s);
}

#[test]
fn assignments_need_their_rows_as_in_sqlite() {
    let c = database();
    let mut s = Store::new();
    assert_eq!(s.create_tag("a").ok(), insert(&c, NEW_TAG, "a"));
    assert_eq!(s.create_item("i").ok(), insert(&c, NEW_IMAGE, "i"));
    assert_eq!(s.assign(2, "a", false), Err(AssignError::UnknownItem));
    assert!(connect(&c, NEW_ASSIGNMENT, 2, 1).is_none());
    assert!(connect(&c, NEW_ASSIGNMENT, 1, 2).is_none());
    assert_eq!(s.assign(1, "a", false), Ok(()));
    assert!(connect(&c, NEW_ASSIGNMENT, 1, 1).is_some());
    assert_eq!(s.assign(1, "a", false), Ok(()));
    assert!(connect(&c, NEW_ASSIGNMENT, 1, 1).is_none());
    assert_eq!(s.unassign(1, 1), Ok(()));
    assert_eq!(c.execute("DELETE FROM tag_map WHERE tag_id=?1 AND img_id=?2", [1, 1]).unwrap(), 1);
    assert_eq!(s.assign(1, "a", false), Ok(()));
    assert!(connect(&c, NEW_ASSIGNMENT, 1, 1).is_some());
    assert_same_rows(&c, s);
}

fn filled() -> (Connection, Store) {
    let c = database();
    let mut s = Store::new();
    for name in ["a", "b", "c", "Landscape", "escape", "portrait", "x y", "100%", "a_b", "axb"] {
        assert_eq!(s.create_tag(name).ok(), insert(&c, NEW_TAG, name));
    }
    for path in ["i.jpg", "j.jpg", "k.jpg"] {
        assert_eq!(s.create_item(path).ok(), insert(&c, NEW_IMAGE, path));
    }
    for name in ["n", "m"] {
        assert_eq!(s.create_namespace(name).ok(), insert(&c, NEW_NAMESPACE, name));
    }
    assert_eq!(s.set_namespace(2, 1).is_ok(), connect(&c, NEW_MEMBER, 1, 2).is_some());
    assert_eq!(s.set_namespace(5, 1).is_ok(), connect(&c, NEW_MEMBER, 1, 5).is_some());
    for (item, tag, name) in [(1, 1, "a"), (1, 2, "b"), (2, 1, "a"), (2, 4, "Landscape")] {
        assert_eq!(s.assign(item, name, false), Ok(()));
        assert!(connect(&c, NEW_ASSIGNMENT, item, tag).is_some());
    }
    let s = assert_same_rows(&c, s);
    (c, s)
}

#[test]
fn orphans_are_what_sqlite_selects() {
    let (c, s) = filled();
    assert_eq!(
        s.orphan_tags(),
        named(
            &c,
            "SELECT id, name FROM tags WHERE NOT EXISTS
             (SELECT id FROM tag_map WHERE tag_map.tag_id=tags.id) ORDER BY id"
        )
    );
    assert_eq!(
        s.orphan_items(),
        named(
            &c,
            "SELECT id, path FROM images WHERE NOT EXISTS
             (SELECT id FROM tag_map WHERE tag_map.img_id=images.id) ORDER BY id"
        )
    );
    assert_eq!(
        s.orphan_namespaces(),
        named(
            &c,
            "SELECT id, name FROM namespaces WHERE NOT EXISTS
             (SELECT id FROM namespace_map WHERE namespace_map.namespace_id=namespaces.id)
             ORDER BY id"
        )
    );
}

#[test]
fn joins_are_what_sqlite_selects() {
    let (c, s) = filled();
    for item in [1, 2, 3, 4] {
        let sql = format!(
            "SELECT tag_map.tag_id, tags.name FROM tag_map INNER JOIN tags
             WHERE tag_map.img_id={} AND tags.id=tag_map.tag_id ORDER BY tags.id",
            item
        );
        assert_eq!(s.tags_of_item(item), named(&c, &sql));
    }
    for tag in [1, 2, 3, 4] {
        let sql = format!(
            "SELECT images.id, images.path FROM images JOIN tag_map
             WHERE tag_map.tag_id={} AND tag_map.img_id=images.id ORDER BY images.id",
            tag
        );
        assert_eq!(s.items_with_tag(tag), named(&c, &sql));
    }
    for namespace in [1, 2, 3] {
        let sql = format!(
            "SELECT tags.id, tags.name FROM tags INNER JOIN namespace_map
             WHERE namespace_map.namespace_id={} AND namespace_map.tag_id=tags.id
             ORDER BY tags.id",
            namespace
        );
        assert_eq!(s.tags_in_namespace(namespace), named(&c, &sql));
    }
    for tag in [1, 2, 5, 6] {
        let found = c
            .query_row("SELECT namespace_id FROM namespace_map WHERE tag_id=?1", [tag], |r| {
                r.get::<usize, i64>(0)
            })
            .ok();
        assert_eq!(s.namespace_of_tag(tag), found);
    }
}

#[test]
fn queries_are_what_sqlite_selects() {
    let (c, s) = filled();
    for query in ["a", "b", "a b", "b a", "a a", "c", "a c", "", "zzz", "a zzz", "Landscape a"] {
        let mut sql = String::from("SELECT img.id, img.path FROM images img ");
        let mut joins = 0;
        for word in query.split_whitespace() {
            if let Some(id) = s.tag_id(word) {
                sql.push_str(&format!(
                    "JOIN tag_map t{} ON img.id = t{}.img_id AND t{}.tag_id = '{}' ",
                    joins, joins, joins, id
                ));
                joins += 1;
            }
        }
        sql.push_str("ORDER BY img.id");
        assert_eq!(s.compile_and_run(query), named(&c, &sql), "{}", query);
    }
}

#[test]
fn search_is_what_like_selects_for_plain_terms() {
    let (c, s) = filled();
    for term in ["a", "A", "scap", "SCAPE", "land", "x y", " ", "b", "trait", "zz", "xb"] {
        let mut st = c.prepare("SELECT id, name FROM tags WHERE name LIKE ?1 ORDER BY id").unwrap();
        let rows = st
            .query_map([format!("%{}%", term)], |r| {
                Ok((r.get::<usize, i64>(0)?, r.get::<usize, String>(1)?))
            })
            .unwrap();
        let expected: Vec<(i64, String)> = rows.map(|r| r.unwrap()).collect();
        assert_eq!(s.search_tags(term), expected, "{}", term);
    }
}

#[test]
fn conditions_find_what_sqlite_finds() {
    let (c, s) = filled();
    for (table, query) in [
        ("tags", "name='a'"),
        ("tags", "name='x y'"),
        ("tags", "name='A'"),
        ("tags", "id=4"),
        ("tags", "id=4 AND name='Landscape'"),
        ("tags", "id=4 AND name='escape'"),
        ("tags", "id=-1"),
        ("images", "path='j.jpg'"),
        ("images", "path='j'"),
        ("namespaces", "name='m'"),
        ("namespace_map", "tag_id=5"),
        ("namespace_map", "namespace_id=1"),
        ("namespace_map", "namespace_id=2"),
        ("tag_map", "img_id=2"),
        ("tag_map", "img_id=2 AND tag_id=4"),
        ("tag_map", "img_id=2 AND tag_id=2"),
        ("tag_map", "tag_id=1"),
        ("tag_map", "id=3"),
        ("subtag_map", "parent_id=1 AND child_id=2"),
    ] {
        assert_eq!(utils::get_id(table, query, &s), first_id(&c, table, query), "{} {}", table, query);
    }
}

struct Dice(u64);

impl Dice {
    fn roll(&mut self, sides: u64) -> u64 {
        self.0 = self.0.wrapping_mul(6364136223846793005).wrapping_add(1442695040888963407);
        (self.0 >> 33) % sides
    }
}

fn pairs(links: &Vec<Link>) -> Vec<(i64, i64)> {
    links.iter().map(|l| (l.left, l.right)).collect()
}

#[test]
fn a_long_run_of_operations_agrees_with_sqlite() {
    let c = database();
    let mut s = Store::new();
    let mut dice = Dice(2024);
    let names = ["a", "b", "c", "d", "e", "f"];
    for _ in 0..400 {
        let id = dice.roll(8) as i64;
        let other = dice.roll(8) as i64;
        let name = names[dice.roll(6) as usize];
        match dice.roll(14) {
            0 | 1 => assert_eq!(s.create_tag(name).ok(), insert(&c, NEW_TAG, name)),
            2 => assert_eq!(s.create_item(name).ok(), insert(&c, NEW_IMAGE, name)),
            3 => assert_eq!(s.create_namespace(name).ok(), insert(&c, NEW_NAMESPACE, name)),
            4 => assert_eq!(
                s.delete_tag(id).is_ok(),
                remove(&c, "DELETE FROM tags WHERE id=?1", id) == 1
            ),
            5 => assert_eq!(
                s.delete_item(id).is_ok(),
                remove(&c, "DELETE FROM images WHERE id=?1", id) == 1
            ),
            6 => assert_eq!(
                s.delete_namespace(id).is_ok(),
                remove(&c, "DELETE FROM namespaces WHERE id=?1", id) == 1
            ),
            7 => {
                let changed = c.execute("UPDATE tags SET name=?1 WHERE id=?2", (name, id));
                match s.rename_tag(id, name) {
                    Ok(()) => assert_eq!(changed.ok(), Some(1)),
                    Err(StoreError::NotFound) => assert_eq!(changed.ok(), Some(0)),
                    Err(_) => assert!(changed.is_err()),
                }
            }
            8 => assert_eq!(
                s.set_namespace(id, other).is_ok(),
                connect(&c, NEW_MEMBER, other, id).is_some()
            ),
            9 => assert_eq!(
                s.clear_namespace(id).is_ok(),
                remove(&c, "DELETE FROM namespace_map WHERE tag_id=?1", id) == 1
            ),
            10 | 11 => match s.add_hierarchy_edge(id, other) {
                Ok(()) => assert!(connect(&c, NEW_EDGE, id, other).is_some()),
                Err(HierarchyError::WouldCreateCycle) => {}
                Err(_) => assert!(connect(&c, NEW_EDGE, id, other).is_none()),
            },
            12 => {
                let before = s.tables().tag_map;
                let tag = s.tag_id(name);
                let outcome = s.assign(id, name, false);
                let after = s.tables().tag_map;
                assert_eq!(outcome.is_ok(), tag.is_some() && s.has_item(id));
                assert_eq!(&after[..before.len()], &before[..]);
                for l in &after[before.len()..] {
                    assert_eq!(connect(&c, NEW_ASSIGNMENT, l.left, l.right), Some(l.id));
                }
                if let (Ok(()), Some(tag)) = (outcome, tag) {
                    let mut wanted = s.ancestors(tag);
                    wanted.push(tag);
                    for t in wanted {
                        assert!(pairs(&after).contains(&(id, t)));
                        assert!(connect(&c, NEW_ASSIGNMENT, id, t).is_none());
                    }
                }
            }
            _ => assert_eq!(
                s.unassign(other, id).is_ok(),
                c.execute("DELETE FROM tag_map WHERE tag_id=?1 AND img_id=?2", [other, id])
                    .unwrap()
                    == 1
            ),
        }
        s = assert_same_rows(&c, s);
    }
    let t = s.tables();
    assert!(t.tags.len() + t.images.len() + t.namespaces.len() > 0);
}
