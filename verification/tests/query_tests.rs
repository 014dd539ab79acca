use db::images;
use db::store::Store;

fn two_items() -> (Store, i64, i64) {
    let mut s = Store::new();
    let i1 = s.create_item("i1").unwrap();
    let i2 = s.create_item("i2").unwrap();
    s.assign(i1, "a", true).unwrap();
    s.assign(i1, "b", true).unwrap();
    s.assign(i2, "a", true).unwrap();
    (s, i1, i2)
}

#[test]
fn query_is_an_intersection() {
    let (s, i1, i2) = two_items();
    assert_eq!(s.compile_and_run("a b"), vec![(i1, "i1".to_owned())]);
    assert_eq!(s.compile_and_run("a"), vec![(i1, "i1".to_owned()), (i2, "i2".to_owned())]);
    assert_eq!(s.compile_and_run("b a"), vec![(i1, "i1".to_owned())]);
    assert_eq!(s.compile_and_run("b"), vec![(i1, "i1".to_owned())]);
}

#[test]
fn query_passes_over_unknown_words() {
    let (s, _, _) = two_items();
    assert_eq!(s.compile_and_run("a nonexistent"), s.compile_and_run("a"));
    assert_eq!(s.compile_and_run("nonexistent b other"), s.compile_and_run("b"));
    assert_eq!(s.compile("a nonexistent b"), vec![1, 2]);
}

#[test]
fn query_without_known_words_returns_every_item() {
    let (s, i1, i2) = two_items();
    let all = vec![(i1, "i1".to_owned()), (i2, "i2".to_owned())];
    assert_eq!(s.compile_and_run(""), all);
    assert_eq!(s.compile_and_run("   "), all);
    assert_eq!(s.compile_and_run("x y"), all);
    assert_eq!(s.run(&vec![]), all);
}

#[test]
fn query_splits_on_any_white_space() {
    let (s, i1, _) = two_items();
    assert_eq!(s.compile_and_run("  a\t\tb\n"), vec![(i1, "i1".to_owned())]);
    assert_eq!(s.compile_and_run("a\u{a0}b"), vec![(i1, "i1".to_owned())]);
    assert_eq!(s.compile("\u{3000}b\u{2003}a\r\n"), vec![2, 1]);
}

#[test]
fn query_names_are_exact() {
    let (s, i1, i2) = two_items();
    assert_eq!(s.compile("A"), Vec::<i64>::new());
    assert_eq!(s.compile("ab"), Vec::<i64>::new());
    assert_eq!(s.compile_and_run("A B"), vec![(i1, "i1".to_owned()), (i2, "i2".to_owned())]);
}

#[test]
fn query_with_a_tag_that_no_item_has_is_empty() {
    let (mut s, _, _) = two_items();
    s.create_tag("c").unwrap();
    assert!(s.compile_and_run("c").is_empty());
    assert!(s.compile_and_run("a c").is_empty());
    assert!(s.run(&vec![99]).is_empty());
}

#[test]
fn query_sees_propagated_tags() {
    let mut s = Store::new();
    let animal = s.create_tag("animal").unwrap();
    let cat = s.create_tag("cat").unwrap();
    s.add_hierarchy_edge(animal, cat).unwrap();
    let i1 = s.create_item("cat.jpg").unwrap();
    let i2 = s.create_item("dog.jpg").unwrap();
    s.assign(i1, "cat", false).unwrap();
    s.assign(i2, "animal", false).unwrap();
    assert_eq!(
        images::query_sql("animal", &s),
        vec![(i1, "cat.jpg".to_owned()), (i2, "dog.jpg".to_owned())]
    );
    assert_eq!(images::query_sql("animal cat", &s), vec![(i1, "cat.jpg".to_owned())]);
}

#[test]
fn search_finds_substrings_whatever_the_case() {
    let mut s = Store::new();
    let t1 = s.create_tag("Landscape").unwrap();
    let t2 = s.create_tag("escape").unwrap();
    let _t3 = s.create_tag("portrait").unwrap();
    assert_eq!(
        s.search_tags("scap"),
        vec![(t1, "Landscape".to_owned()), (t2, "escape".to_owned())]
    );
    assert_eq!(s.search_tags("LAND"), vec![(t1, "Landscape".to_owned())]);
    assert_eq!(s.search_tags("landscape"), vec![(t1, "Landscape".to_owned())]);
    assert_eq!(s.search_tags("landscapes"), vec![]);
    assert_eq!(s.search_tags("x"), vec![]);
}

#[test]
fn search_for_nothing_finds_nothing() {
    let mut s = Store::new();
    s.create_tag("a").unwrap();
    assert_eq!(s.search_tags(""), vec![]);
}

#[test]
fn search_takes_its_term_literally() {
    let mut s = Store::new();
    let t1 = s.create_tag("100%").unwrap();
    let _t2 = s.create_tag("100").unwrap();
    let t3 = s.create_tag("a_b").unwrap();
    let _t4 = s.create_tag("axb").unwrap();
    assert_eq!(s.search_tags("%"), vec![(t1, "100%".to_owned())]);
    assert_eq!(s.search_tags("a_b"), vec![(t3, "a_b".to_owned())]);
}

#[test]
fn search_folds_ascii_letters_only() {
    let mut s = Store::new();
    let t1 = s.create_tag("\u{c4}pfel").unwrap();
    assert_eq!(s.search_tags("\u{e4}pfel"), vec![]);
    assert_eq!(s.search_tags("\u{c4}PFEL"), vec![(t1, "\u{c4}pfel".to_owned())]);
}

#[test]
fn orphan_tags_follow_assignments() {
    let mut s = Store::new();
    let t = s.create_tag("t").unwrap();
    assert_eq!(s.orphan_tags(), vec![(t, "t".to_owned())]);
    let item = s.create_item("i.jpg").unwrap();
    assert_eq!(s.orphan_items(), vec![(item, "i.jpg".to_owned())]);
    s.assign(item, "t", false).unwrap();
    assert_eq!(s.orphan_tags(), vec![]);
    assert_eq!(s.orphan_items(), vec![]);
    s.unassign(t, item).unwrap();
    assert_eq!(s.orphan_tags(), vec![(t, "t".to_owned())]);
    assert_eq!(s.orphan_items(), vec![(item, "i.jpg".to_owned())]);
}
