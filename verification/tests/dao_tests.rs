use blog_core::dao::{Dao, HasKey, PostDao, UserDao};
use blog_core::errors::Error;
use blog_core::model::{Post, Timestamp, User};

fn user(name: &str, hash: &str) -> User {
    User { name: name.to_string(), pw_hash: hash.to_string(), id: 0 }
}

fn post(owner_id: i32, title: &str, published: bool) -> Post {
    Post {
        title: title.to_string(),
        content: String::new(),
        id: 0,
        created_on: Timestamp { micros: 0 },
        owner_id,
        tags: vec![],
        published,
    }
}

#[test]
fn user_table_inserts_and_finds() {
    let mut dao = UserDao::new();
    let mut a = user("a", "ha");
    let mut b = user("b", "hb");
    assert_eq!(dao.insert(&mut a), Ok(()));
    assert_eq!(dao.insert(&mut b), Ok(()));
    assert_eq!((a.id, b.id), (1, 2));
    assert_eq!(dao.get_all(), Ok(vec![a.clone(), b.clone()]));
    assert_eq!(dao.get_one(&2), Ok(b));
    assert_eq!(dao.get_one(&3), Err(Error::NotFound));
    assert_eq!(dao.has_key(&1), Ok(true));
    assert_eq!(dao.has_key(&0), Ok(false));
    assert_eq!(dao.find_by_name("a"), Some(a));
    assert_eq!(dao.find_by_name("c"), None);
}

#[test]
fn user_table_refuses_a_duplicate_name_and_leaves_the_value() {
    let mut dao = UserDao::new();
    let mut a = user("a", "ha");
    dao.insert(&mut a).unwrap();
    let mut again = user("a", "other");
    assert_eq!(dao.insert(&mut again), Err(Error::Conflict));
    assert_eq!(again.id, 0);
    assert_eq!(dao.get_all().unwrap().len(), 1);
}

#[test]
fn user_table_updates_name_and_hash() {
    let mut dao = UserDao::new();
    let mut a = user("a", "ha");
    let mut b = user("b", "hb");
    dao.insert(&mut a).unwrap();
    dao.insert(&mut b).unwrap();
    let renamed = User { name: "c".to_string(), pw_hash: "hc".to_string(), id: 1 };
    assert_eq!(dao.update(&renamed), Ok(()));
    assert_eq!(dao.get_one(&1), Ok(renamed));
    let same_name = User { name: "c".to_string(), pw_hash: "hd".to_string(), id: 1 };
    assert_eq!(dao.update(&same_name), Ok(()));
    assert_eq!(dao.get_one(&1).unwrap().pw_hash, "hd");
    let clash = User { name: "b".to_string(), pw_hash: "x".to_string(), id: 1 };
    assert_eq!(dao.update(&clash), Err(Error::Conflict));
    assert_eq!(dao.get_one(&1).unwrap().name, "c");
    let absent = User { name: "z".to_string(), pw_hash: "x".to_string(), id: 9 };
    assert_eq!(dao.update(&absent), Ok(()));
    assert_eq!(dao.get_all().unwrap().len(), 2);
    assert_eq!(dao.find_by_name("z"), None);
}

#[test]
fn user_table_deletes_and_never_reuses_a_key() {
    let mut dao = UserDao::new();
    let mut a = user("a", "ha");
    let mut b = user("b", "hb");
    dao.insert(&mut a).unwrap();
    dao.insert(&mut b).unwrap();
    assert_eq!(dao.delete(b.clone()), Ok(b.clone()));
    assert_eq!(dao.get_one(&2), Err(Error::NotFound));
    assert_eq!(dao.delete(b.clone()), Ok(b));
    let mut c = user("b", "hc");
    dao.insert(&mut c).unwrap();
    assert_eq!(c.id, 3);
    assert_eq!(dao.get_all().unwrap(), vec![a, c]);
}

#[test]
fn post_table_inserts_updates_and_deletes() {
    let mut dao = PostDao::new();
    let mut first = post(1, "first", true);
    let mut second = post(2, "second", false);
    dao.insert(&mut first).unwrap();
    dao.insert(&mut second).unwrap();
    assert_eq!((first.id, second.id), (1, 2));
    assert_eq!(dao.get_all(), Ok(vec![first.clone(), second.clone()]));
    assert_eq!(dao.has_key(&2), Ok(true));
    assert_eq!(dao.has_key(&3), Ok(false));

    let mut revision = post(7, "revised", true);
    revision.id = 2;
    revision.created_on = Timestamp { micros: 99 };
    assert_eq!(dao.update(&revision), Ok(()));
    let stored = dao.get_one(&2).unwrap();
    assert_eq!(stored.title, "revised");
    assert!(stored.published);
    assert_eq!(stored.owner_id, 2);
    assert_eq!(stored.created_on, Timestamp { micros: 0 });

    let mut absent = post(1, "absent", true);
    absent.id = 5;
    assert_eq!(dao.update(&absent), Ok(()));
    assert_eq!(dao.get_one(&5), Err(Error::NotFound));

    assert_eq!(dao.delete(first.clone()), Ok(first));
    assert_eq!(dao.get_all().unwrap().len(), 1);
    let mut third = post(1, "third", true);
    dao.insert(&mut third).unwrap();
    assert_eq!(third.id, 3);
}

#[test]
fn post_table_answers_its_queries_in_insertion_order() {
    let mut dao = PostDao::new();
    for (owner, title, published, tags) in [
        (1, "a", true, vec!["x"]),
        (2, "b", true, vec!["x"]),
        (1, "c", false, vec!["x", "y"]),
        (1, "d", true, vec!["y"]),
    ] {
        let mut p = post(owner, title, published);
        p.tags = tags.iter().map(|t| t.to_string()).collect();
        dao.insert(&mut p).unwrap();
    }
    let names = |posts: Vec<Post>| -> Vec<String> { posts.into_iter().map(|p| p.title).collect() };
    assert_eq!(names(dao.get_posts_for_user(1).unwrap()), ["a", "c", "d"]);
    assert_eq!(names(dao.get_posts_for_user(2).unwrap()), ["b"]);
    assert!(dao.get_posts_for_user(3).unwrap().is_empty());
    assert_eq!(names(dao.get_tagged(1, "x")), ["a", "c"]);
    assert_eq!(names(dao.get_tagged(1, "y")), ["c", "d"]);
    assert_eq!(names(dao.get_page(1, 0, 1)), ["a"]);
    assert_eq!(names(dao.get_page(1, 1, 1)), ["d"]);
    assert_eq!(names(dao.get_page(1, 0, 5)), ["a", "d"]);
}

#[test]
fn keys_are_read_and_written_through_the_trait() {
    let mut u = user("a", "ha");
    assert_eq!(u.get_key(), 0);
    u.set_key(12);
    assert_eq!(u.get_key(), 12);
    assert_eq!(u, User { name: "a".to_string(), pw_hash: "ha".to_string(), id: 12 });
    let mut p = post(3, "t", true);
    p.set_key(-4);
    assert_eq!(p.get_key(), -4);
    assert_eq!(p.owner_id, 3);
    assert_eq!(p.title, "t");
}

#[test]
fn many_rows_are_inserted_in_order() {
    let mut dao = UserDao::new();
    let added = dao.insert_many(vec![user("a", "1"), user("b", "2"), user("c", "3")]).unwrap();
    assert_eq!(added.iter().map(|u| u.id).collect::<Vec<i32>>(), [1, 2, 3]);
    assert_eq!(added.iter().map(|u| u.name.as_str()).collect::<Vec<&str>>(), ["a", "b", "c"]);
    assert_eq!(dao.get_all(), Ok(added));
    assert_eq!(dao.insert_many(vec![]), Ok(vec![]));
}

#[test]
fn inserting_many_stops_at_the_first_refusal() {
    let mut dao = UserDao::new();
    let outcome = dao.insert_many(vec![user("a", "1"), user("b", "2"), user("a", "3"), user("d", "4")]);
    assert_eq!(outcome, Err(Error::Conflict));
    let kept = dao.get_all().unwrap();
    assert_eq!(kept.iter().map(|u| u.name.as_str()).collect::<Vec<&str>>(), ["a", "b"]);
    assert_eq!(dao.find_by_name("d"), None);
    let mut next = user("e", "5");
    dao.insert(&mut next).unwrap();
    assert_eq!(next.id, 3);
}

#[test]
fn many_rows_are_deleted_by_their_keys() {
    let mut dao = PostDao::new();
    let added =
        dao.insert_many(vec![post(1, "a", true), post(1, "b", true), post(1, "c", true), post(1, "d", true)])
            .unwrap();
    let mut gone = vec![added[3].clone(), added[1].clone()];
    let mut stranger = post(1, "never stored", true);
    stranger.id = 40;
    gone.push(stranger);
    assert_eq!(dao.delete_many(gone), Ok(()));
    let left = dao.get_all().unwrap();
    assert_eq!(left.iter().map(|p| p.title.as_str()).collect::<Vec<&str>>(), ["a", "c"]);
    assert_eq!(dao.delete_many(vec![]), Ok(()));
    assert_eq!(dao.get_all().unwrap().len(), 2);
}

#[test]
fn a_table_whose_keys_are_used_up_refuses_with_a_storage_fault() {
    let last = User { name: "last".to_string(), pw_hash: "h".to_string(), id: i32::MAX };
    let mut users = UserDao::restore(vec![last.clone()], i32::MAX).unwrap();
    let mut one_more = user("more", "h");
    assert_eq!(users.insert(&mut one_more), Err(Error::StorageFault));
    assert_eq!(one_more.id, 0);
    assert_eq!(users.get_all(), Ok(vec![last]));
    let mut taken = user("last", "h");
    assert_eq!(users.insert(&mut taken), Err(Error::Conflict));

    let mut posts = PostDao::restore(vec![], i32::MAX).unwrap();
    let mut p = post(1, "p", true);
    assert_eq!(posts.insert(&mut p), Err(Error::StorageFault));
    assert_eq!(posts.get_all(), Ok(vec![]));

    let mut almost = PostDao::restore(vec![], i32::MAX - 1).unwrap();
    assert_eq!(almost.insert(&mut p), Ok(()));
    assert_eq!(p.id, i32::MAX);
    assert_eq!(almost.insert(&mut post(1, "q", true)), Err(Error::StorageFault));
}
