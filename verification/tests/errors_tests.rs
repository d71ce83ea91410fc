use blog_core::errors::Error;

const ALL: [Error; 8] = [
    Error::NotFound,
    Error::InvalidCredentials,
    Error::Unauthorized,
    Error::Forbidden,
    Error::ValidationError,
    Error::Conflict,
    Error::ForeignKeyViolation,
    Error::StorageFault,
];

#[test]
fn each_kind_has_its_status() {
    assert_eq!(Error::NotFound.status_code(), 404);
    assert_eq!(Error::InvalidCredentials.status_code(), 400);
    assert_eq!(Error::Unauthorized.status_code(), 401);
    assert_eq!(Error::Forbidden.status_code(), 403);
    assert_eq!(Error::ValidationError.status_code(), 400);
    assert_eq!(Error::Conflict.status_code(), 400);
    assert_eq!(Error::ForeignKeyViolation.status_code(), 500);
    assert_eq!(Error::StorageFault.status_code(), 500);
}

#[test]
fn each_kind_has_its_words() {
    assert_eq!(Error::NotFound.description(), "Not found");
    assert_eq!(Error::InvalidCredentials.description(), "Invalid credentials");
    assert_eq!(Error::Unauthorized.description(), "Invalid credentials");
    assert_eq!(Error::Forbidden.description(), "Wrong owner or post id!");
    assert_eq!(Error::ValidationError.description(), "Bad request");
    assert_eq!(Error::Conflict.description(), "Name is already taken");
}

#[test]
fn faults_of_the_store_are_described_without_their_cause() {
    for e in ALL {
        if e.status_code() == 500 {
            assert_eq!(e.description(), "Internal server error");
        } else {
            assert_ne!(e.description(), "Internal server error");
        }
    }
}
