use blog_core::auth::{principal_of_session, principal_of_token, JwtToken};
use blog_core::controller::{
    path_param, url_param, PostController, Reply, UserController, DEFAULT_QUERY_LEN, MAX_QUERY_LEN,
};
use blog_core::errors::Error;
use blog_core::model::{CreatePostRequest, CreateUserRequest, LoginRequest, Post, Timestamp, User};
use blog_core::store::Store;
use blog_core::util::{JsonResponse, RemoteRendering};

const NOW: i64 = 1_700_000_000;

fn check(password: &str, hash: &str) -> Option<bool> {
    Some(format!("h:{}", password) == hash)
}

fn request(owner_id: i32, title: &str) -> CreatePostRequest {
    CreatePostRequest {
        title: title.to_string(),
        content: format!("# {}", title),
        tags: vec![],
        owner_id,
        created_on: Timestamp { micros: 0 },
        published: true,
    }
}

fn store_with_posts(count: usize) -> Store {
    let mut store = Store::new();
    store.insert_user("martin".to_string(), "h:secret".to_string()).unwrap();
    store.insert_user("anna".to_string(), "h:other".to_string()).unwrap();
    for i in 0..count {
        store.insert_post(request(1, &format!("post {}", i))).unwrap();
    }
    store
}

fn refusal<T>(error: Error) -> Reply<T> {
    Reply { status: error.status_code(), body: JsonResponse::Error(error) }
}

#[test]
fn an_answer_takes_its_status_from_the_outcome() {
    assert_eq!(Reply::of(Ok(5), 201), Reply { status: 201, body: JsonResponse::Result(5) });
    assert_eq!(
        Reply::<i32>::of(Err(Error::Forbidden), 201),
        Reply { status: 403, body: JsonResponse::Error(Error::Forbidden) }
    );
    assert_eq!(Reply::<i32>::of(Err(Error::StorageFault), 200).status, 500);
    assert_eq!(Reply::<i32>::of(Err(Error::Unauthorized), 200).status, 401);
    assert_eq!(Reply::<i32>::of(Err(Error::ValidationError), 200).status, 400);
}

#[test]
fn parameters_are_read_as_numbers() {
    assert_eq!(path_param(Some("12")), Some(12));
    assert_eq!(path_param(Some("x")), None);
    assert_eq!(path_param(Some("2147483648")), None);
    assert_eq!(path_param(None), None);
    assert_eq!(url_param(Some("25")), Some(25));
    assert_eq!(url_param(Some("-3")), Some(-3));
    assert_eq!(url_param(Some("2147483648")), Some(2_147_483_648));
    assert_eq!(url_param(Some("9223372036854775807")), Some(i64::MAX));
    assert_eq!(url_param(Some("-9223372036854775808")), Some(i64::MIN));
    assert_eq!(url_param(Some("9223372036854775808")), None);
    assert_eq!(url_param(Some("")), None);
    assert_eq!(url_param(Some("ten")), None);
    assert_eq!(url_param(None), None);
}

#[test]
fn a_token_is_made_for_good_credentials() {
    let store = store_with_posts(0);
    let creds = LoginRequest { name: "anna".to_string(), password: "other".to_string() };
    let reply = UserController::make_jwt_token(Some(creds), &store, check, NOW);
    assert_eq!(reply.status, 200);
    assert_eq!(
        reply.body,
        JsonResponse::Result(JwtToken { sub: "2".to_string(), iat: NOW, nbf: NOW, exp: NOW + 86_400 })
    );
}

#[test]
fn no_token_is_made_for_bad_credentials() {
    let store = store_with_posts(0);
    let wrong = LoginRequest { name: "anna".to_string(), password: "secret".to_string() };
    let unknown = LoginRequest { name: "bob".to_string(), password: "secret".to_string() };
    let a = UserController::make_jwt_token(Some(wrong), &store, check, NOW);
    let b = UserController::make_jwt_token(Some(unknown), &store, check, NOW);
    assert_eq!(a, refusal(Error::InvalidCredentials));
    assert_eq!(a, b);
    assert_eq!(a.status, 400);
    assert_eq!(UserController::make_jwt_token(None, &store, check, NOW), refusal(Error::ValidationError));
}

#[test]
fn a_registration_answers_created_or_the_error() {
    let mut store = Store::new();
    let body = || CreateUserRequest {
        name: "martin".to_string(),
        password: "p".to_string(),
        password_repeated: "p".to_string(),
    };
    let reply = UserController::create_user(Some(body()), "h:p".to_string(), &mut store);
    assert_eq!(reply.status, 201);
    assert_eq!(
        reply.body,
        JsonResponse::Result(User { name: "martin".to_string(), pw_hash: "h:p".to_string(), id: 1 })
    );
    let again = UserController::create_user(Some(body()), "h:p".to_string(), &mut store);
    assert_eq!(again, refusal(Error::Conflict));
    assert_eq!(again.status, 400);
    let unreadable = UserController::create_user(None, "h:p".to_string(), &mut store);
    assert_eq!(unreadable, refusal(Error::ValidationError));
    assert_eq!(store.find_user_by_id(2), None);
}

#[test]
fn a_user_is_shown_to_its_own_principal_only() {
    let store = store_with_posts(0);
    let shown = UserController::get_user(Some(1), Some(1), &store);
    assert_eq!(shown.status, 200);
    assert_eq!(shown.body, JsonResponse::Result(store.find_user_by_id(1)));
    assert_eq!(UserController::get_user(Some(2), Some(1), &store), refusal(Error::Unauthorized));
    assert_eq!(UserController::get_user(Some(1), None, &store), refusal(Error::Unauthorized));
    assert_eq!(UserController::get_user(Some(1), None, &store).status, 401);
    assert_eq!(UserController::get_user(None, Some(1), &store), refusal(Error::ValidationError));
    let absent = UserController::get_user(Some(9), Some(9), &store);
    assert_eq!(absent.status, 200);
    assert_eq!(absent.body, JsonResponse::Result(None));
}

#[test]
fn the_principal_comes_from_a_token_or_a_session() {
    let store = store_with_posts(0);
    let token = JwtToken::issue(1, NOW);
    assert_eq!(principal_of_token(Some(&token), NOW), Some(1));
    assert_eq!(principal_of_token(Some(&token), NOW + 86_399), Some(1));
    assert_eq!(principal_of_token(Some(&token), NOW + 86_400), None);
    assert_eq!(principal_of_token(None, NOW), None);
    assert_eq!(principal_of_session(Some("2"), &store), Some(2));
    assert_eq!(principal_of_session(Some("3"), &store), None);
    assert_eq!(principal_of_session(Some("two"), &store), None);
    assert_eq!(principal_of_session(None, &store), None);
    let shown = UserController::get_user(Some(1), principal_of_token(Some(&token), NOW + 5), &store);
    assert_eq!(shown.status, 200);
    let late = UserController::get_user(Some(1), principal_of_token(Some(&token), NOW + 86_400), &store);
    assert_eq!(late, refusal(Error::Unauthorized));
}

fn revision(id: i32, owner_id: i32) -> Post {
    Post {
        title: "revised".to_string(),
        content: "<p>r</p>".to_string(),
        id,
        created_on: Timestamp { micros: 0 },
        owner_id,
        tags: vec!["x".to_string()],
        published: false,
    }
}

#[test]
fn an_edit_goes_through_for_the_owner() {
    let mut store = store_with_posts(2);
    let reply = UserController::edit_post(Some(1), Some(2), Some(revision(2, 1)), Some(1), &mut store);
    assert_eq!(reply.status, 200);
    assert_eq!(reply.body, JsonResponse::Result(revision(2, 1)));
    assert_eq!(store.find_post_by_id(2), Some(revision(2, 1)));
}

#[test]
fn an_edit_is_refused_by_kind() {
    let mut store = store_with_posts(2);
    let before = store.find_post_by_id(2);
    let mismatch_key = UserController::edit_post(Some(1), Some(1), Some(revision(2, 1)), Some(1), &mut store);
    assert_eq!(mismatch_key, refusal(Error::Forbidden));
    assert_eq!(mismatch_key.status, 403);
    let mismatch_owner = UserController::edit_post(Some(1), Some(2), Some(revision(2, 2)), Some(1), &mut store);
    assert_eq!(mismatch_owner, refusal(Error::Forbidden));
    let foreign = UserController::edit_post(Some(2), Some(2), Some(revision(2, 1)), Some(2), &mut store);
    assert_eq!(foreign, refusal(Error::Forbidden));
    let other_principal = UserController::edit_post(Some(1), Some(2), Some(revision(2, 1)), Some(2), &mut store);
    assert_eq!(other_principal, refusal(Error::Unauthorized));
    assert_eq!(other_principal.status, 401);
    let nobody = UserController::edit_post(Some(1), Some(2), Some(revision(2, 1)), None, &mut store);
    assert_eq!(nobody, refusal(Error::Unauthorized));
    let no_body = UserController::edit_post(Some(1), Some(2), None, Some(1), &mut store);
    assert_eq!(no_body, refusal(Error::ValidationError));
    let no_key = UserController::edit_post(Some(1), None, Some(revision(2, 1)), Some(1), &mut store);
    assert_eq!(no_key, refusal(Error::ValidationError));
    let no_user = UserController::edit_post(None, Some(2), Some(revision(2, 1)), Some(1), &mut store);
    assert_eq!(no_user, refusal(Error::ValidationError));
    let missing = UserController::edit_post(Some(1), Some(7), Some(revision(7, 1)), Some(1), &mut store);
    assert_eq!(missing, refusal(Error::NotFound));
    assert_eq!(missing.status, 404);
    assert_eq!(store.find_post_by_id(2), before);
}

#[test]
fn a_post_is_shown_under_its_owner() {
    let store = store_with_posts(1);
    let shown = PostController::get_post(Some(1), Some(1), &store);
    assert_eq!(shown.status, 200);
    assert_eq!(shown.body, JsonResponse::Result(store.find_post_by_id(1)));
    let hidden = PostController::get_post(Some(1), Some(2), &store);
    assert_eq!(hidden.status, 200);
    assert_eq!(hidden.body, JsonResponse::Result(None));
    assert_eq!(PostController::get_post(None, Some(1), &store), refusal(Error::ValidationError));
    assert_eq!(PostController::get_post(Some(1), None, &store), refusal(Error::ValidationError));
}

#[test]
fn a_post_is_added_for_the_principal() {
    let mut store = store_with_posts(0);
    let reply = PostController::add_post(
        Some(request(1, "Heading")),
        RemoteRendering::Unreachable,
        Some(1),
        Some(1),
        &mut store,
    );
    assert_eq!(reply.status, 201);
    match reply.body {
        JsonResponse::Result(post) => {
            assert_eq!(post.id, 1);
            assert_eq!(post.content, "<h1>Heading</h1>");
            assert_eq!(store.find_post_by_id(1), Some(post));
        }
        JsonResponse::Error(e) => panic!("refused: {:?}", e),
    }
}

#[test]
fn adding_a_post_is_refused_by_kind() {
    let mut store = store_with_posts(0);
    let add = |body: Option<CreatePostRequest>, user: Option<i32>, who: Option<i32>, store: &mut Store| {
        PostController::add_post(body, RemoteRendering::Unreachable, user, who, store)
    };
    assert_eq!(add(None, Some(1), Some(1), &mut store), refusal(Error::ValidationError));
    assert_eq!(add(Some(request(1, "x")), None, Some(1), &mut store), refusal(Error::ValidationError));
    assert_eq!(add(Some(request(1, "x")), Some(1), None, &mut store), refusal(Error::Unauthorized));
    assert_eq!(add(Some(request(1, "x")), Some(2), Some(1), &mut store), refusal(Error::Unauthorized));
    assert_eq!(add(Some(request(2, "x")), Some(1), Some(1), &mut store), refusal(Error::Forbidden));
    let unknown_owner = add(Some(request(9, "x")), Some(9), Some(9), &mut store);
    assert_eq!(unknown_owner, refusal(Error::ForeignKeyViolation));
    assert_eq!(unknown_owner.status, 500);
    assert_eq!(store.find_post_by_id(1), None);
}

#[test]
fn a_listing_takes_defaults_and_the_cap() {
    assert_eq!(MAX_QUERY_LEN, 50);
    assert_eq!(DEFAULT_QUERY_LEN, 25);
    let store = store_with_posts(70);
    let page_of = |page: Option<i64>, size: Option<i64>| match PostController::get_posts(
        Some(1),
        page,
        size,
        &store,
    ) {
        Reply { status: 200, body: JsonResponse::Result(page) } => page,
        other => panic!("refused: {:?}", other),
    };
    let default = page_of(None, None);
    assert_eq!((default.data.len(), default.current_page, default.page_size), (25, 0, 25));
    let capped = page_of(Some(1), Some(1000));
    assert_eq!((capped.data.len(), capped.current_page, capped.page_size), (20, 1, 50));
    assert_eq!(capped.data[0].title, "post 50");
    let third = page_of(Some(2), None);
    assert_eq!(third.data.len(), 20);
    assert_eq!(third.data[0].title, "post 50");
    assert_eq!(page_of(None, Some(0)).data.len(), 0);
}

#[test]
fn a_listing_is_refused_without_user_or_with_negative_numbers() {
    let store = store_with_posts(3);
    assert_eq!(PostController::get_posts(None, None, None, &store).status, 400);
    assert_eq!(PostController::get_posts(Some(1), Some(-1), None, &store).status, 400);
    assert_eq!(PostController::get_posts(Some(1), None, Some(-1), &store).status, 400);
    let empty = PostController::get_posts(Some(5), None, None, &store);
    assert_eq!(empty.status, 200);
}

#[test]
fn the_editor_opens_for_anybody_who_is_logged_in() {
    let mut store = store_with_posts(0);
    let mut tagged = request(1, "tagged");
    tagged.tags = vec!["test".to_string(), "work".to_string()];
    let post = store.insert_post(tagged).unwrap();
    let opened = PostController::editor(Some(1), Some(2), &store);
    assert_eq!(opened.status, 200);
    assert_eq!(opened.body, JsonResponse::Result(Some((post, "test work".to_string()))));
    let absent = PostController::editor(Some(5), Some(1), &store);
    assert_eq!(absent.status, 200);
    assert_eq!(absent.body, JsonResponse::Result(None));
    assert_eq!(PostController::editor(Some(1), None, &store), refusal(Error::Unauthorized));
    assert_eq!(PostController::editor(None, None, &store), refusal(Error::Unauthorized));
    assert_eq!(PostController::editor(None, Some(1), &store), refusal(Error::ValidationError));
}

#[test]
fn the_current_user_is_the_user_of_the_session() {
    let store = store_with_posts(0);
    let martin = store.find_user_by_id(1).unwrap();
    let shown = UserController::current(Some(martin.clone()));
    assert_eq!(shown, Reply { status: 200, body: JsonResponse::Result(martin) });
    assert_eq!(UserController::current(None), refusal(Error::Unauthorized));
}
