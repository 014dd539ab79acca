use db::store::Store;
use db::{images, init, tags, utils};

fn init_db() -> Store {
    init::init_tables()
}

#[test]
fn add_img() {
    let mut conn = init_db();
    images::add_image("test.jpg", &mut conn).unwrap();
    assert_eq!(utils::get_id("images", "path='test.jpg'", &conn), Some(1));
}

#[test]
fn add_img_twice() {
    let mut conn = init_db();
    assert_eq!(Some(1), images::add_image("test.jpg", &mut conn));
    assert!(Option::is_none(&images::add_image("test.jpg", &mut conn)));
}

#[test]
fn add_tag_to_img() {
    let mut conn = init_db();
    let _ = tags::add_tag("test", &mut conn);
    let im_id = images::add_image("test.jpg", &mut conn).unwrap();
    tags::add_tag_to_img("test", im_id, true, &mut conn).unwrap();
    assert_eq!(images::get_tags_of_img(im_id, &conn), vec![(1, "test".to_owned())]);
}

#[test]
#[should_panic]
fn add_unknown_tag_to_img() {
    let mut conn = init_db();
    let im_id = images::add_image("test.jpg", &mut conn).unwrap();
    tags::add_tag_to_img("test", im_id, false, &mut conn).unwrap();
}

#[test]
fn add_tag_to_img_twice() {
    let mut conn = init_db();
    let _ = tags::add_tag("test", &mut conn);
    let im_id = images::add_image("test.jpg", &mut conn).unwrap();
    tags::add_tag_to_img("test", im_id, true, &mut conn).unwrap();
    tags::add_tag_to_img("test", im_id, true, &mut conn).unwrap();
}

#[test]
fn delete_image() {
    let mut conn = init_db();
    let _ = images::add_image("test.jpg", &mut conn);
    images::remove_image_path("test.jpg", &mut conn).unwrap();
    assert_eq!(utils::get_id("images", "path='test.jpg'", &conn), None);
}

#[test]
fn get_tags_of_nonexistent_image() {
    let conn = init_db();
    assert!(images::get_tags_of_img(1, &conn).is_empty());
}

#[test]
fn get_tags_of_image() {
    let mut conn = init_db();
    let im_id = images::add_image("test.jpg", &mut conn).unwrap();
    let _ = tags::add_tag_to_img("test", im_id, true, &mut conn);
    assert_eq!(images::get_tags_of_img(1, &conn), vec![(1, "test".to_owned())]);
}

#[test]
fn get_path() {
    let mut conn = init_db();
    let im_id = images::add_image("test.jpg", &mut conn).unwrap();
    assert_eq!(images::get_path(im_id, &conn), Some("test.jpg".to_owned()));
    let _ = utils::remove_id(im_id, "images", &mut conn);
    assert_eq!(images::get_path(im_id, &conn), None);
}

#[test]
fn get_orphans() {
    let mut conn = init_db();
    let im1 = images::add_image("test1.jpg", &mut conn).unwrap();
    let im2 = images::add_image("test2.jpg", &mut conn).unwrap();
    assert_eq!(
        images::get_orphans(&conn),
        vec![(im1, "test1.jpg".to_owned()), (im2, "test2.jpg".to_owned())]
    );
    let _ = tags::add_tag_to_img("test", im1, true, &mut conn);
    assert_eq!(images::get_orphans(&conn), vec![(im2, "test2.jpg".to_owned())]);
    let _ = tags::add_tag_to_img("test", im2, false, &mut conn);
    assert!(images::get_orphans(&conn).is_empty());
}
