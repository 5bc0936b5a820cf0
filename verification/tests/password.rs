use webauth::password::{hash, verify, CipheredPassword, PasswordError, PlainPassword};

#[test]
fn password() {
    let passwd = "thisisafakepassword";

    let hashed = hash(passwd.as_ref()).unwrap();
    assert_ne!(passwd, hashed.as_str());
    assert!(hashed.as_str().starts_with("$argon2id$"), "{}", hashed);
    assert_eq!(hashed.len(), 97);

    let passwd = "anotherfakepasswordbutdifferent";

    let hashed = hash(passwd.as_ref()).unwrap();
    assert_ne!(passwd, hashed.as_str());
    assert!(hashed.as_str().starts_with("$argon2id$"), "{}", hashed);
    assert_eq!(hashed.len(), 97);

    // Verify now
    assert!(verify(passwd.as_ref(), hashed.as_str()).unwrap());
    assert!(!verify(b"thisisnotright", hashed.as_str()).unwrap());
}

#[test]
fn types() {
    let plain: PlainPassword = PlainPassword::from("thisisapassword".to_owned());
    let ciphered = plain.cipher().expect("should not fail");

    let ciphered = CipheredPassword::parse(ciphered.as_str()).expect("should not fail");
    assert!(ciphered
        .verify("thisisapassword".as_ref())
        .expect("should not fail"));
    assert!(!ciphered
        .verify("wrongpassword".as_ref())
        .expect("should not fail"));

    let err = CipheredPassword::parse("notavalidargon");
    assert_eq!(err.unwrap_err(), PasswordError::PhcStringField);
}
