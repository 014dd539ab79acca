use db::store::Store;
use db::{init, namespaces, tags, utils};

fn init_db() -> Store {
    init::init_tables()
}

#[test]
fn add_namespace() {
    let mut conn = init_db();
    let ns_id = namespaces::add_namespace("test", &mut conn).unwrap();
    assert_eq!(utils::get_id("namespaces", "name='test'", &conn), Some(ns_id));
}

#[test]
fn remove_namespace() {
    let mut conn = init_db();
    let ns_id = namespaces::add_namespace("test", &mut conn).unwrap();
    utils::remove_id(ns_id, "namespaces", &mut conn).unwrap();
    assert!(Option::is_none(&utils::get_id("namespaces", "name='test'", &conn)));
}

#[test]
fn add_namespace_to_tag() {
    let mut conn = init_db();
    let ns_id = namespaces::add_namespace("test", &mut conn).unwrap();
    let t_id = tags::add_tag("testtag", &mut conn).unwrap();
    namespaces::add_namespace_to_tag(ns_id, t_id, &mut conn).unwrap();
    assert_eq!(namespaces::get_namespace_of_tag(t_id, &conn), Some(ns_id));
    let _ = utils::remove_id(ns_id, "namespaces", &mut conn);
    assert_eq!(namespaces::get_namespace_of_tag(t_id, &conn), None);
    assert!(Option::is_none(&namespaces::get_namespace_name(ns_id, &conn)));
}

#[test]
fn remove_namespace_from_tag() {
    let mut conn = init_db();
    let t_id = tags::add_tag("testtag", &mut conn).unwrap();
    let ns_id = namespaces::add_namespace("test", &mut conn).unwrap();
    namespaces::add_namespace_to_tag(ns_id, t_id, &mut conn).unwrap();
    assert_eq!(namespaces::get_namespace_of_tag(t_id, &conn), Some(1));
    namespaces::remove_namespace_from_tag(t_id, &mut conn).unwrap();
    assert_eq!(namespaces::get_namespace_of_tag(t_id, &conn), None);
}

#[test]
fn tests_remove_namespace() {
    let mut conn = init_db();
    let ns_id = namespaces::add_namespace("ns1", &mut conn).unwrap();
    assert_eq!(namespaces::get_namespace_name(ns_id, &conn), Some("ns1".to_owned()));
    namespaces::remove_namespace(ns_id, &mut conn).unwrap();
    assert!(Option::is_none(&utils::get_id("namespaces", "name='ns1'", &conn)));
}

#[test]
fn get_namespace_name() {
    let mut conn = init_db();
    let nid = namespaces::add_namespace("test", &mut conn).unwrap();
    assert_eq!(namespaces::get_namespace_name(nid, &conn), Some("test".to_owned()));
}

#[test]
fn get_tags_with_namespace() {
    let mut conn = init_db();
    let t1 = tags::add_tag("tag1", &mut conn).unwrap();
    let t2 = tags::add_tag("tag2", &mut conn).unwrap();
    let ns = namespaces::add_namespace("test", &mut conn).unwrap();
    let _ = namespaces::add_namespace_to_tag(ns, t1, &mut conn);
    let _ = namespaces::add_namespace_to_tag(ns, t2, &mut conn);
    assert_eq!(
        namespaces::get_tags_with_namespace(ns, &conn),
        vec![(t1, "tag1".to_owned()), (t2, "tag2".to_owned()),]
    );
}

#[test]
fn tests_get_orphans() {
    let mut conn = init_db();
    let ns1 = namespaces::add_namespace("ns1", &mut conn).unwrap();
    let ns2 = namespaces::add_namespace("ns2", &mut conn).unwrap();
    assert_eq!(
        namespaces::get_orphans(&conn),
        vec![(ns1, "ns1".to_owned()), (ns2, "ns2".to_owned())]
    );
    let t_id = tags::add_tag("test", &mut conn).unwrap();
    namespaces::add_namespace_to_tag(ns1, t_id, &mut conn).unwrap();
    assert_eq!(namespaces::get_orphans(&conn), vec![(ns2, "ns2".to_owned())]);
    namespaces::remove_namespace_from_tag(t_id, &mut conn).unwrap();
    namespaces::add_namespace_to_tag(ns2, t_id, &mut conn).unwrap();
    assert_eq!(namespaces::get_orphans(&conn), vec![(ns1, "ns1".to_owned())]);
    namespaces::remove_namespace(ns1, &mut conn).unwrap();
    namespaces::remove_namespace(ns2, &mut conn).unwrap();
    assert!(namespaces::get_orphans(&conn).is_empty());
}

#[test]
fn update_namespace_name() {
    let mut conn = init_db();
    let ns_id = namespaces::add_namespace("testspace", &mut conn).unwrap();
    assert_eq!(namespaces::get_namespace_name(ns_id, &conn).unwrap(), "testspace");
}
