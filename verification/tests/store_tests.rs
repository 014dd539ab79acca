use db::load::Tables;
use db::model::{AssignError, HierarchyError, StoreError, Table};
use db::rows::Link;
use db::store::Store;

#[test]
fn second_tag_of_a_name_is_refused() {
    let mut s = Store::new();
    assert_eq!(s.create_tag("t"), Ok(1));
    assert_eq!(s.create_tag("t"), Err(StoreError::UniqueViolation));
    assert_eq!(s.dump().tags, vec![(1, "t".to_owned())]);
}

#[test]
fn names_are_unique_per_table_only() {
    let mut s = Store::new();
    assert_eq!(s.create_tag("x"), Ok(1));
    assert_eq!(s.create_item("x"), Ok(1));
    assert_eq!(s.create_namespace("x"), Ok(1));
    assert_eq!(s.create_item("x"), Err(StoreError::UniqueViolation));
    assert_eq!(s.create_namespace("x"), Err(StoreError::UniqueViolation));
    assert_eq!(s.create_tag("X"), Ok(2));
}

#[test]
fn ids_follow_the_last_row() {
    let mut s = Store::new();
    assert_eq!(s.create_tag("a"), Ok(1));
    assert_eq!(s.create_tag("b"), Ok(2));
    assert_eq!(s.create_tag("c"), Ok(3));
    assert_eq!(s.delete_tag(2), Ok(()));
    assert_eq!(s.create_tag("d"), Ok(4));
    assert_eq!(s.delete_tag(4), Ok(()));
    assert_eq!(s.create_tag("e"), Ok(4));
    assert_eq!(s.delete_tag(1), Ok(()));
    assert_eq!(s.delete_tag(3), Ok(()));
    assert_eq!(s.delete_tag(4), Ok(()));
    assert_eq!(s.create_tag("f"), Ok(1));
}

#[test]
fn the_empty_name_is_a_name() {
    let mut s = Store::new();
    assert_eq!(s.create_tag(""), Ok(1));
    assert_eq!(s.create_tag(""), Err(StoreError::UniqueViolation));
    assert_eq!(s.tag_id(""), Some(1));
    assert_eq!(s.tag_name(1), Some(String::new()));
}

#[test]
fn lookups_by_name_and_id() {
    let mut s = Store::new();
    let t = s.create_tag("tag").unwrap();
    let i = s.create_item("path").unwrap();
    let n = s.create_namespace("space").unwrap();
    assert_eq!(s.tag_id("tag"), Some(t));
    assert_eq!(s.item_id("path"), Some(i));
    assert_eq!(s.namespace_id("space"), Some(n));
    assert_eq!(s.tag_id("path"), None);
    assert_eq!(s.item_id("tag"), None);
    assert_eq!(s.namespace_id(""), None);
    assert_eq!(s.tag_name(t), Some("tag".to_owned()));
    assert_eq!(s.item_path(i), Some("path".to_owned()));
    assert_eq!(s.namespace_name(n), Some("space".to_owned()));
    assert_eq!(s.tag_name(t + 1), None);
    assert_eq!(s.item_path(0), None);
    assert_eq!(s.namespace_name(-1), None);
    assert!(s.has_tag(t));
    assert!(!s.has_tag(t + 1));
    assert!(s.has_item(i));
    assert!(!s.has_item(i + 1));
}

#[test]
fn rename_tag_cases() {
    let mut s = Store::new();
    let a = s.create_tag("a").unwrap();
    let b = s.create_tag("b").unwrap();
    assert_eq!(s.rename_tag(a, "b"), Err(StoreError::UniqueViolation));
    assert_eq!(s.rename_tag(99, "c"), Err(StoreError::NotFound));
    assert_eq!(s.rename_tag(99, "a"), Err(StoreError::NotFound));
    assert_eq!(s.rename_tag(a, "a"), Ok(()));
    assert_eq!(s.rename_tag(a, "c"), Ok(()));
    assert_eq!(s.tag_name(a), Some("c".to_owned()));
    assert_eq!(s.tag_id("a"), None);
    assert_eq!(s.tag_id("c"), Some(a));
    assert_eq!(s.rename_tag(b, "a"), Ok(()));
    assert_eq!(s.dump().tags, vec![(a, "c".to_owned()), (b, "a".to_owned())]);
}

#[test]
fn rename_keeps_assignments_and_edges() {
    let mut s = Store::new();
    let a = s.create_tag("a").unwrap();
    let b = s.create_tag("b").unwrap();
    s.add_hierarchy_edge(a, b).unwrap();
    let item = s.create_item("i").unwrap();
    s.assign(item, "b", false).unwrap();
    s.rename_tag(a, "z").unwrap();
    assert_eq!(s.tags_of_item(item), vec![(a, "z".to_owned()), (b, "b".to_owned())]);
    assert_eq!(s.ancestors(b), vec![a]);
    assert_eq!(s.compile_and_run("z"), vec![(item, "i".to_owned())]);
}

#[test]
fn rename_namespace_and_update_path() {
    let mut s = Store::new();
    let n1 = s.create_namespace("n1").unwrap();
    let _n2 = s.create_namespace("n2").unwrap();
    assert_eq!(s.rename_namespace(n1, "n2"), Err(StoreError::UniqueViolation));
    assert_eq!(s.rename_namespace(n1, "n3"), Ok(()));
    assert_eq!(s.rename_namespace(7, "n9"), Err(StoreError::NotFound));
    assert_eq!(s.namespace_name(n1), Some("n3".to_owned()));
    let i1 = s.create_item("one.jpg").unwrap();
    let _i2 = s.create_item("two.jpg").unwrap();
    assert_eq!(s.update_path(i1, "two.jpg"), Err(StoreError::UniqueViolation));
    assert_eq!(s.update_path(i1, "three.jpg"), Ok(()));
    assert_eq!(s.update_path(7, "nine.jpg"), Err(StoreError::NotFound));
    assert_eq!(s.item_path(i1), Some("three.jpg".to_owned()));
}

#[test]
fn delete_of_what_is_not_there_is_refused() {
    let mut s = Store::new();
    assert_eq!(s.delete_tag(1), Err(StoreError::NotFound));
    assert_eq!(s.delete_item(1), Err(StoreError::NotFound));
    assert_eq!(s.delete_namespace(1), Err(StoreError::NotFound));
    for table in [
        Table::Tags,
        Table::Namespaces,
        Table::Images,
        Table::NamespaceMap,
        Table::SubtagMap,
        Table::TagMap,
    ] {
        assert_eq!(s.delete(table, 1), Err(StoreError::NotFound));
    }
}

#[test]
fn delete_by_table() {
    let mut s = Store::new();
    let a = s.create_tag("a").unwrap();
    let b = s.create_tag("b").unwrap();
    let n = s.create_namespace("n").unwrap();
    let i = s.create_item("i").unwrap();
    s.add_hierarchy_edge(a, b).unwrap();
    s.set_namespace(a, n).unwrap();
    s.assign(i, "b", false).unwrap();
    assert_eq!(s.delete(Table::SubtagMap, 1), Ok(()));
    assert!(!s.has_edge(a, b));
    assert_eq!(s.delete(Table::NamespaceMap, 1), Ok(()));
    assert_eq!(s.namespace_of_tag(a), None);
    assert_eq!(s.delete(Table::TagMap, 2), Ok(()));
    assert_eq!(s.tags_of_item(i), vec![(a, "a".to_owned())]);
    assert_eq!(s.delete(Table::Tags, a), Ok(()));
    assert_eq!(s.delete(Table::Images, i), Ok(()));
    assert_eq!(s.delete(Table::Namespaces, n), Ok(()));
    let rows = s.dump();
    assert_eq!(rows.tags, vec![(b, "b".to_owned())]);
    assert!(rows.images.is_empty() && rows.namespaces.is_empty());
    assert!(rows.tag_map.is_empty() && rows.subtag_map.is_empty());
    assert!(rows.namespace_map.is_empty());
}

#[test]
fn a_tag_has_one_namespace_at_most() {
    let mut s = Store::new();
    let t = s.create_tag("t").unwrap();
    let u = s.create_tag("u").unwrap();
    let n1 = s.create_namespace("n1").unwrap();
    let n2 = s.create_namespace("n2").unwrap();
    assert_eq!(s.set_namespace(t, n1), Ok(()));
    assert_eq!(s.set_namespace(t, n2), Err(StoreError::UniqueViolation));
    assert_eq!(s.set_namespace(t, n1), Err(StoreError::UniqueViolation));
    assert_eq!(s.set_namespace(u, n1), Ok(()));
    assert_eq!(s.namespace_of_tag(t), Some(n1));
    assert_eq!(s.tags_in_namespace(n1), vec![(t, "t".to_owned()), (u, "u".to_owned())]);
    assert_eq!(s.tags_in_namespace(n2), vec![]);
    assert_eq!(s.orphan_namespaces(), vec![(n2, "n2".to_owned())]);
    assert_eq!(s.clear_namespace(t), Ok(()));
    assert_eq!(s.clear_namespace(t), Err(StoreError::NotFound));
    assert_eq!(s.set_namespace(t, n2), Ok(()));
    assert_eq!(s.namespace_of_tag(t), Some(n2));
}

#[test]
fn namespace_of_unknown_rows_is_refused() {
    let mut s = Store::new();
    let t = s.create_tag("t").unwrap();
    let n = s.create_namespace("n").unwrap();
    assert_eq!(s.set_namespace(t, n + 1), Err(StoreError::NotFound));
    assert_eq!(s.set_namespace(t + 1, n), Err(StoreError::NotFound));
    assert_eq!(s.clear_namespace(t + 1), Err(StoreError::NotFound));
    assert_eq!(s.namespace_of_tag(t), None);
}

#[test]
fn deleting_a_namespace_frees_its_tags() {
    let mut s = Store::new();
    let t = s.create_tag("t").unwrap();
    let n1 = s.create_namespace("n1").unwrap();
    let n2 = s.create_namespace("n2").unwrap();
    s.set_namespace(t, n1).unwrap();
    assert_eq!(s.delete_namespace(n1), Ok(()));
    assert_eq!(s.namespace_of_tag(t), None);
    assert_eq!(s.tag_name(t), Some("t".to_owned()));
    assert_eq!(s.set_namespace(t, n2), Ok(()));
}

#[test]
fn full_tables_refuse_new_rows() {
    let tables = Tables {
        tags: vec![(1, "a".to_owned()), (2, "b".to_owned())],
        namespaces: vec![(i64::MAX, "n".to_owned())],
        images: vec![(i64::MAX, "i".to_owned())],
        namespace_map: vec![Link { id: i64::MAX, left: i64::MAX, right: 1 }],
        subtag_map: vec![Link { id: i64::MAX, left: 1, right: 2 }],
        tag_map: vec![],
    };
    let mut s = Store::load(tables).unwrap();
    assert_eq!(s.create_namespace("m"), Err(StoreError::Full));
    assert_eq!(s.create_item("j"), Err(StoreError::Full));
    assert_eq!(s.create_tag("c"), Ok(3));
    assert_eq!(s.set_namespace(2, i64::MAX), Err(StoreError::Full));
    assert_eq!(s.add_hierarchy_edge(2, 3), Err(HierarchyError::Full));
    assert_eq!(s.add_hierarchy_edge(2, 1), Err(HierarchyError::WouldCreateCycle));
    assert_eq!(s.add_hierarchy_edge(1, 2), Err(HierarchyError::DuplicateEdge));
}

#[test]
fn load_takes_what_dump_gives() {
    let mut s = Store::new();
    let a = s.create_tag("a").unwrap();
    let b = s.create_tag("b").unwrap();
    s.add_hierarchy_edge(a, b).unwrap();
    let n = s.create_namespace("n").unwrap();
    s.set_namespace(b, n).unwrap();
    let i = s.create_item("i").unwrap();
    s.assign(i, "b", false).unwrap();
    let rows = s.dump();
    assert!(rows.check());
    let s = Store::load(rows).unwrap();
    assert_eq!(s.tags_of_item(i), vec![(a, "a".to_owned()), (b, "b".to_owned())]);
    assert_eq!(s.ancestors(b), vec![a]);
    assert_eq!(s.namespace_of_tag(b), Some(n));
}

fn empty_tables() -> Tables {
    Tables {
        tags: vec![],
        namespaces: vec![],
        images: vec![],
        namespace_map: vec![],
        subtag_map: vec![],
        tag_map: vec![],
    }
}

#[test]
fn load_takes_empty_tables_and_any_growing_ids() {
    assert!(Store::load(empty_tables()).is_some());
    let mut t = empty_tables();
    t.tags = vec![(-5, "a".to_owned()), (0, "b".to_owned()), (7, "c".to_owned())];
    let mut s = Store::load(t).unwrap();
    assert_eq!(s.create_tag("d"), Ok(8));
}

#[test]
fn load_refuses_ids_out_of_order() {
    let mut t = empty_tables();
    t.tags = vec![(2, "a".to_owned()), (1, "b".to_owned())];
    assert!(Store::load(t).is_none());
    let mut t = empty_tables();
    t.images = vec![(1, "a".to_owned()), (1, "b".to_owned())];
    assert!(Store::load(t).is_none());
    let mut t = empty_tables();
    t.tags = vec![(1, "a".to_owned()), (2, "b".to_owned())];
    t.subtag_map = vec![Link { id: 2, left: 1, right: 2 }, Link { id: 2, left: 2, right: 1 }];
    assert!(!t.check());
}

#[test]
fn load_refuses_names_that_occur_twice() {
    let mut t = empty_tables();
    t.namespaces = vec![(1, "a".to_owned()), (2, "b".to_owned()), (3, "a".to_owned())];
    assert!(Store::load(t).is_none());
}

#[test]
fn load_refuses_links_to_rows_that_are_not_there() {
    let mut t = empty_tables();
    t.tags = vec![(1, "a".to_owned())];
    t.images = vec![(1, "i".to_owned())];
    t.tag_map = vec![Link { id: 1, left: 1, right: 2 }];
    assert!(Store::load(t).is_none());
    let mut t = empty_tables();
    t.tags = vec![(1, "a".to_owned())];
    t.tag_map = vec![Link { id: 1, left: 1, right: 1 }];
    assert!(Store::load(t).is_none());
    let mut t = empty_tables();
    t.tags = vec![(1, "a".to_owned())];
    t.namespace_map = vec![Link { id: 1, left: 1, right: 1 }];
    assert!(Store::load(t).is_none());
    let mut t = empty_tables();
    t.tags = vec![(1, "a".to_owned())];
    t.subtag_map = vec![Link { id: 1, left: 1, right: 3 }];
    assert!(Store::load(t).is_none());
}

#[test]
fn load_refuses_pairs_that_occur_twice() {
    let mut t = empty_tables();
    t.tags = vec![(1, "a".to_owned()), (2, "b".to_owned())];
    t.images = vec![(1, "i".to_owned())];
    t.tag_map = vec![Link { id: 1, left: 1, right: 2 }, Link { id: 2, left: 1, right: 2 }];
    assert!(Store::load(t).is_none());
    let mut t = empty_tables();
    t.tags = vec![(1, "a".to_owned())];
    t.namespaces = vec![(1, "n".to_owned()), (2, "m".to_owned())];
    t.namespace_map = vec![Link { id: 1, left: 1, right: 1 }, Link { id: 2, left: 2, right: 1 }];
    assert!(Store::load(t).is_none());
}

#[test]
fn load_refuses_a_hierarchy_with_a_cycle() {
    let mut t = empty_tables();
    t.tags = vec![(1, "a".to_owned()), (2, "b".to_owned()), (3, "c".to_owned())];
    t.subtag_map = vec![
        Link { id: 1, left: 1, right: 2 },
        Link { id: 2, left: 2, right: 3 },
        Link { id: 3, left: 3, right: 1 },
    ];
    assert!(Store::load(t).is_none());
    let mut t = empty_tables();
    t.tags = vec![(1, "a".to_owned())];
    t.subtag_map = vec![Link { id: 1, left: 1, right: 1 }];
    assert!(Store::load(t).is_none());
    let mut t = empty_tables();
    t.tags = vec![(1, "a".to_owned()), (2, "b".to_owned()), (3, "c".to_owned())];
    t.subtag_map = vec![
        Link { id: 1, left: 1, right: 2 },
        Link { id: 2, left: 2, right: 3 },
        Link { id: 3, left: 1, right: 3 },
    ];
    assert!(Store::load(t).is_some());
}

#[test]
fn errors_in_words() {
    assert_eq!(StoreError::UniqueViolation.describe(), "already exists");
    assert_eq!(StoreError::NotFound.describe(), "not found");
    assert_eq!(StoreError::Full.describe(), "table is full");
    assert_eq!(HierarchyError::DuplicateEdge.describe(), "already a parent");
    assert_eq!(HierarchyError::WouldCreateCycle.describe(), "would create a cycle");
    assert_eq!(HierarchyError::UnknownTag.describe(), "unknown tag");
    assert_eq!(HierarchyError::Full.describe(), "table is full");
    assert_eq!(AssignError::UnknownTag.describe(), "unknown tag");
    assert_eq!(AssignError::UnknownItem.describe(), "unknown item");
    assert_eq!(AssignError::Full.describe(), "table is full");
}

#[test]
fn rename_by_table() {
    let mut s = Store::new();
    let t = s.create_tag("t").unwrap();
    let u = s.create_tag("u").unwrap();
    let i = s.create_item("i").unwrap();
    let n = s.create_namespace("n").unwrap();
    s.add_hierarchy_edge(t, u).unwrap();
    assert_eq!(s.rename(Table::Tags, t, "tt"), Ok(()));
    assert_eq!(s.rename(Table::Tags, t, "u"), Err(StoreError::UniqueViolation));
    assert_eq!(s.rename(Table::Images, i, "ii"), Ok(()));
    assert_eq!(s.rename(Table::Namespaces, n, "nn"), Ok(()));
    assert_eq!(s.rename(Table::Namespaces, n + 1, "m"), Err(StoreError::NotFound));
    for table in [Table::NamespaceMap, Table::SubtagMap, Table::TagMap] {
        assert_eq!(s.rename(table, 1, "x"), Err(StoreError::NotFound));
    }
    assert_eq!(s.tag_name(t), Some("tt".to_owned()));
    assert_eq!(s.item_path(i), Some("ii".to_owned()));
    assert_eq!(s.namespace_name(n), Some("nn".to_owned()));
}
