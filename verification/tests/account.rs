use keepme::identity::Account;

fn hex(s: &str) -> Vec<u8> {
    (0..s.len()).step_by(2).map(|i| u8::from_str_radix(&s[i..i + 2], 16).unwrap()).collect()
}

fn secret_one() -> Vec<u8> {
    let mut s = vec![0u8; 32];
    s[31] = 1;
    s
}

#[test]
fn new_account_has_key_pair_and_password_hash() {
    let (account, secret) = Account::new("alice".to_string(), "pw".to_string()).expect("valid secret");
    assert_eq!(account.username, "alice");
    assert_eq!(account.password_hash, hex("30c952fab122c3f9759f02a6d95c3758b246b4fee239957b2d4fee46e26170c4"));
    assert_ne!(account.password_hash, b"pw".to_vec());
    assert_eq!(account.email, None);
    assert_eq!(account.master_key.len(), 64);
    assert_eq!(account.ethereum_address.as_ref().map(|a| a.len()), Some(20));
    assert_eq!(secret.master_private_key.len(), 32);
    // the same secret gives the same account
    let (again, _) = Account::from_secret("alice".to_string(), "other".to_string(), secret.master_private_key.clone()).unwrap();
    assert_eq!(again.master_key, account.master_key);
    assert_ne!(again.password_hash, account.password_hash);
    assert_eq!(again.ethereum_address, account.ethereum_address);
}

#[test]
fn secret_one_gives_generator_point_and_its_address() {
    let (account, secret) = Account::from_secret("g".to_string(), "pw".to_string(), secret_one()).unwrap();
    assert_eq!(
        account.master_key,
        hex("79be667ef9dcbbac55a06295ce870b07029bfcdb2dce28d959f2815b16f81798483ada7726a3c4655da4fbfc0e1108a8fd17b448a68554199c47d08ffb10d4b8")
    );
    assert_eq!(account.ethereum_address, Some(hex("7e5f4552091a69125d5dfcb7b8c2659029395bdf")));
    assert_eq!(secret.master_private_key, secret_one());
}

#[test]
fn invalid_secrets_are_refused() {
    assert!(Account::from_secret("a".to_string(), "b".to_string(), vec![0u8; 32]).is_none());
    assert!(Account::from_secret("a".to_string(), "b".to_string(), vec![1u8; 31]).is_none());
    assert!(Account::from_secret("a".to_string(), "b".to_string(), vec![1u8; 33]).is_none());
    let order = hex("fffffffffffffffffffffffffffffffebaaedce6af48a03bbfd25e8cd0364141");
    assert!(Account::from_secret("a".to_string(), "b".to_string(), order.clone()).is_none());
    let mut below = order;
    below[31] = 0x40;
    assert!(Account::from_secret("a".to_string(), "b".to_string(), below).is_some());
}

#[test]
fn test_account_is_named_test() {
    let account = Account::test().expect("valid secret");
    assert_eq!(account.username, "test");
    assert_eq!(account.password_hash, hex("9f86d081884c7d659a2feaa0c55ad015a3bf4f1b2b0b822cd15d6c15b0f00a08"));
}

#[test]
fn password_hash_is_sha256_of_the_password() {
    for password in ["", "x", "grüß", "\0\0\0\0\0\0\0\0\0\0\0\0\0\0\0\0\0\0\0\0\0\0\0\0\0\0\0\0\0\0\0\0"] {
        let (account, _) = Account::from_secret("u".to_string(), password.to_string(), secret_one()).unwrap();
        assert_eq!(account.password_hash, <sha2::Sha256 as sha2::Digest>::digest(password.as_bytes()).to_vec());
        assert_ne!(account.password_hash, password.as_bytes().to_vec());
    }
}
