use blog_core::dao::{Dao, PostDao, UserDao};
use blog_core::model::{Post, Timestamp, User};
use blog_core::service::post::find_with_author;
use blog_core::service::user::{profile, PROFILE_PAGE_SIZE};
use blog_core::store::Store;
use blog_core::util::split_nanos;

fn user(id: i32, name: &str) -> User {
    User { name: name.to_string(), pw_hash: format!("hash of {}", name), id }
}

fn post(id: i32, owner_id: i32) -> Post {
    Post {
        title: format!("post {}", id),
        content: String::new(),
        id,
        created_on: Timestamp { micros: 0 },
        owner_id,
        tags: vec![],
        published: true,
    }
}

#[test]
fn a_well_formed_user_table_is_restored() {
    let rows = vec![user(2, "a"), user(5, "b"), user(6, "c")];
    let dao = UserDao::restore(rows.clone(), 9).unwrap();
    assert_eq!(dao.get_all(), Ok(rows));
    let mut dao = dao;
    let mut next = user(0, "d");
    dao.insert(&mut next).unwrap();
    assert_eq!(next.id, 10);
    assert!(UserDao::restore(vec![], 0).is_some());
    assert!(UserDao::restore(vec![user(1, "a")], 1).is_some());
}

#[test]
fn a_malformed_user_table_is_not_restored() {
    assert!(UserDao::restore(vec![], -1).is_none());
    assert!(UserDao::restore(vec![user(0, "a")], 5).is_none());
    assert!(UserDao::restore(vec![user(-1, "a")], 5).is_none());
    assert!(UserDao::restore(vec![user(6, "a")], 5).is_none());
    assert!(UserDao::restore(vec![user(2, "a"), user(2, "b")], 5).is_none());
    assert!(UserDao::restore(vec![user(3, "a"), user(2, "b")], 5).is_none());
    assert!(UserDao::restore(vec![user(1, "a"), user(2, "b"), user(3, "a")], 5).is_none());
    assert!(UserDao::restore(vec![user(1, "a"), user(2, "a")], 5).is_none());
}

#[test]
fn a_post_table_is_restored_where_it_is_well_formed() {
    let rows = vec![post(1, 1), post(4, 2)];
    let dao = PostDao::restore(rows.clone(), 4).unwrap();
    assert_eq!(dao.get_all(), Ok(rows));
    assert_eq!(dao.owners(), vec![1, 2]);
    assert!(PostDao::restore(vec![post(1, 1), post(4, 2)], 3).is_none());
    assert!(PostDao::restore(vec![post(4, 1), post(1, 2)], 9).is_none());
    assert!(PostDao::restore(vec![post(0, 1)], 9).is_none());
    assert!(PostDao::restore(vec![], -5).is_none());
}

#[test]
fn a_store_is_restored_where_every_post_has_its_owner() {
    let users = || UserDao::restore(vec![user(1, "a"), user(3, "b")], 3).unwrap();
    let store = Store::restore(users(), PostDao::restore(vec![post(1, 3), post(2, 1)], 2).unwrap()).unwrap();
    assert_eq!(store.users(), vec![user(1, "a"), user(3, "b")]);
    assert_eq!(store.posts(), vec![post(1, 3), post(2, 1)]);
    assert_eq!(store.find_user_by_name("b"), Some(user(3, "b")));
    assert!(Store::restore(users(), PostDao::restore(vec![post(1, 2)], 2).unwrap()).is_none());
    assert!(Store::restore(users(), PostDao::restore(vec![post(1, 1), post(2, 4)], 2).unwrap()).is_none());
    assert!(Store::restore(UserDao::new(), PostDao::new()).is_some());
}

#[test]
fn a_copy_of_a_store_goes_its_own_way() {
    let mut store = Store::new();
    store.insert_user("a".to_string(), "h".to_string()).unwrap();
    let copy = store.clone();
    store.insert_user("b".to_string(), "h".to_string()).unwrap();
    assert_eq!(copy.users().len(), 1);
    assert_eq!(store.users().len(), 2);
    assert_eq!(copy.find_user_by_id(1), store.find_user_by_id(1));
}

#[test]
fn a_post_comes_with_the_name_of_its_author() {
    let users = UserDao::restore(vec![user(1, "martin"), user(2, "anna")], 2).unwrap();
    let posts = PostDao::restore(vec![post(1, 2)], 1).unwrap();
    let store = Store::restore(users, posts).unwrap();
    assert_eq!(find_with_author(1, &store), Ok(Some((post(1, 2), "anna".to_string()))));
    assert_eq!(find_with_author(2, &store), Ok(None));
}

#[test]
fn a_profile_shows_the_user_and_twenty_posts() {
    assert_eq!(PROFILE_PAGE_SIZE, 20);
    let users = UserDao::restore(vec![user(1, "martin")], 1).unwrap();
    let posts = PostDao::restore((1..=30).map(|i| post(i, 1)).collect(), 30).unwrap();
    let store = Store::restore(users, posts).unwrap();
    let (shown, page) = profile(1, &store).unwrap().unwrap();
    assert_eq!(shown, user(1, "martin"));
    assert_eq!(page.data.len(), 20);
    assert_eq!(page.data[19], post(20, 1));
    assert_eq!((page.current_page, page.num_pages, page.page_size), (0, 0, 20));
    assert!(profile(2, &store).unwrap().is_none());
}

#[test]
fn nanoseconds_split_into_seconds_and_the_rest() {
    assert_eq!(split_nanos(0), (0, 0));
    assert_eq!(split_nanos(999_999_999), (0, 999_999_999));
    assert_eq!(split_nanos(1_000_000_000), (1, 0));
    assert_eq!(split_nanos(1_000_000_001), (1, 1));
    assert_eq!(split_nanos(12_345_678_901), (12, 345_678_901));
    assert_eq!(split_nanos(u64::MAX), (18_446_744_073, 709_551_615));
}
