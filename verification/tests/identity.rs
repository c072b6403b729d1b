use keepme::identity::{Account, AuthentificationRequest, AuthorizationLevel, AuthorizationToken, Identity};
use keepme::Error;

#[test]
fn identity_test() {
    assert!(true);
}

fn request(email: &str, password: &str) -> AuthentificationRequest {
    AuthentificationRequest { email: email.to_string(), password: password.to_string() }
}

#[test]
fn new_identity_is_basic() {
    let account = Account::test().expect("a random secret is valid");
    let id = Identity::new(account);
    assert_eq!(id.auth_level, AuthorizationLevel::Basic);
    assert_eq!(id.account.username, "test");
}

#[test]
fn admin_credentials_authenticate() {
    let id = Identity::authentificate(request("admin", "admin")).ok().expect("admin is accepted");
    assert_eq!(id.auth_level, AuthorizationLevel::Basic);
    assert_eq!(id.account.username, "admin");
    assert_eq!(id.account.master_key.len(), 64);
}

#[test]
fn other_credentials_are_refused() {
    for (email, password) in [("admin", "Admin"), ("root", "admin"), ("", ""), ("admin", "")] {
        match Identity::authentificate(request(email, password)) {
            Err(e) => assert_eq!(e, Error::AuthentificationError),
            Ok(_) => panic!("accepted {} / {}", email, password),
        }
    }
}

#[test]
fn authorization_token_is_empty() {
    let _token = AuthorizationToken {};
    assert_ne!(AuthorizationLevel::Weak, AuthorizationLevel::Strong);
}
