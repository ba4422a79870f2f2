use native_processors::user_service::{
    BaseEntity, Entity, Repository, User, UserError, UserRepository, UserService,
};

fn alice() -> User {
    User::new("id-1".to_string(), "alice@example.com".to_string(), "alice".to_string())
}

#[test]
fn base_entity_new_and_touch() {
    let mut b = BaseEntity::new("x".to_string());
    assert_eq!(b.created_at, b.updated_at);
    b.touch();
    assert_eq!(b.id, "x");
}

#[test]
fn new_user_has_user_role() {
    let u = alice();
    assert!(u.has_role("user"));
    assert!(!u.has_role("admin"));
    assert_eq!(u.get_id(), "id-1");
    assert!(u.validate());
}

#[test]
fn add_role_once() {
    let mut u = alice();
    u.add_role("admin".to_string());
    u.add_role("admin".to_string());
    assert!(u.has_role("admin"));
    assert!(u.has_role("user"));
}

#[test]
fn set_password_keeps_identity() {
    let mut u = alice();
    u.set_password("secret");
    assert_eq!(u.get_id(), "id-1");
    assert_eq!(u.email, "alice@example.com");
}

#[test]
fn invalid_users() {
    let no_at = User::new("1".to_string(), "alice.example.com".to_string(), "a".to_string());
    assert!(!no_at.validate());
    let no_name = User::new("2".to_string(), "a@b".to_string(), String::new());
    assert!(!no_name.validate());
}

#[test]
fn repository_save_find_delete() {
    let mut repo = UserRepository::new();
    assert!(matches!(repo.find_by_id("id-1"), Err(UserError::NotFound)));
    assert!(repo.save(alice()).is_ok());
    let bob = User::new("id-2".to_string(), "bob@example.com".to_string(), "bob".to_string());
    assert!(repo.save(bob).is_ok());
    assert_eq!(repo.find_all().len(), 2);
    assert_eq!(repo.find_by_id("id-2").unwrap().username, "bob");
    assert_eq!(repo.find_by_email("alice@example.com").unwrap().get_id(), "id-1");
    assert!(repo.find_by_email("carol@example.com").is_none());
    let renamed = User::new("id-1".to_string(), "alice@example.com".to_string(), "al".to_string());
    assert!(repo.save(renamed).is_ok());
    assert_eq!(repo.find_all().len(), 2);
    assert_eq!(repo.find_by_id("id-1").unwrap().username, "al");
    assert!(repo.delete("id-1").is_ok());
    assert!(matches!(repo.delete("id-1"), Err(UserError::NotFound)));
    assert_eq!(repo.find_all().len(), 1);
}

#[test]
fn service_create_get_delete() {
    let mut service = UserService::new();
    let u = service.create_user("dana@example.com".to_string(), "dana".to_string()).unwrap();
    assert_eq!(u.get_id().len(), 36);
    let found = service.get_user(u.get_id()).unwrap();
    assert_eq!(found.email, "dana@example.com");
    assert!(service.delete_user(u.get_id()).is_ok());
    assert!(matches!(service.get_user(u.get_id()), Err(UserError::NotFound)));
    assert!(matches!(service.delete_user("missing"), Err(UserError::NotFound)));
}

#[test]
fn service_rejects_invalid_user() {
    let mut service = UserService::new();
    let r = service.create_user("nobody".to_string(), "n".to_string());
    assert_eq!(r.err(), Some(UserError::ValidationError("Invalid user data".to_string())));
}

#[test]
fn service_create_user_with_given_id() {
    let mut service = UserService::new();
    let u = service
        .create_user_with_id("fixed".to_string(), "eve@example.com".to_string(), "eve".to_string())
        .unwrap();
    assert_eq!(u.get_id(), "fixed");
    assert!(u.has_role("user"));
    assert_eq!(service.get_user("fixed").unwrap().username, "eve");
    let r = service.create_user_with_id("x".to_string(), "bad".to_string(), "b".to_string());
    assert_eq!(r.err(), Some(UserError::ValidationError("Invalid user data".to_string())));
    assert!(matches!(service.get_user("x"), Err(UserError::NotFound)));
}
