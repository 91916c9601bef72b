use ib::auth::{
    check_login, check_registration, cleared_session_cookie, dummy_password_hash, issue_token,
    is_unique_violation, needs_verification, new_password_hash, normalize_email, session_cookie,
    session_lookup_key, session_token, validate_password, verification_lookup_key,
};
use ib::ids::{cli_exec_id, user_account_id, web_exec_id};

#[test]
fn email_is_normalized_and_validated() {
    assert_eq!(
        normalize_email(" User@Example.COM ").unwrap(),
        "user@example.com"
    );
    assert!(normalize_email("not-an-email").is_err());
}

#[test]
fn email_needs_local_part_domain_and_dot() {
    assert_eq!(normalize_email("@example.com"), Err("invalid email"));
    assert_eq!(normalize_email("user@"), Err("invalid email"));
    assert_eq!(normalize_email("user@localhost"), Err("invalid email"));
    assert_eq!(normalize_email("a@b.c").unwrap(), "a@b.c");
    assert_eq!(normalize_email("a@b@c.d").unwrap(), "a@b@c.d");
    let long = format!("{}@example.com", "a".repeat(320));
    assert_eq!(normalize_email(&long), Err("invalid email"));
}

#[test]
fn passwords_are_hashed_and_verified() {
    let hash = new_password_hash("correct horse battery staple").unwrap();
    assert_eq!(
        check_login("correct horse battery staple", Some((hash.as_str(), 1)), &hash, false).ok(),
        Some(true)
    );
    let refused = check_login("wrong password", Some((hash.as_str(), 1)), &hash, false)
        .err()
        .unwrap();
    assert_eq!(refused.status, 401);
}

#[test]
fn password_length_is_checked_in_bytes() {
    assert_eq!(validate_password("1234567"), Err("password must be 8 to 128 bytes"));
    assert_eq!(validate_password("12345678"), Ok(()));
    assert_eq!(validate_password("密码密码"), Ok(()));
    assert!(validate_password(&"x".repeat(129)).is_err());
}

#[test]
fn registration_checks_email_before_password() {
    assert_eq!(check_registration("bad", "short"), Err("invalid email"));
    assert_eq!(
        check_registration("a@b.c", "short"),
        Err("password must be 8 to 128 bytes")
    );
    assert_eq!(check_registration(" A@B.C ", "longenough").unwrap(), "a@b.c");
}

#[test]
fn login_refusals() {
    let hash = new_password_hash("secret-password").unwrap();
    let dummy = dummy_password_hash().unwrap();
    let unknown = check_login("secret-password", None, &dummy, true).err().unwrap();
    assert_eq!((unknown.status, unknown.message), (401, "invalid email or password"));
    let unverified = check_login("secret-password", Some((hash.as_str(), 0)), &dummy, true)
        .err()
        .unwrap();
    assert_eq!(unverified.status, 403);
    assert_eq!(
        check_login("secret-password", Some((hash.as_str(), 0)), &dummy, false).ok(),
        Some(false)
    );
}

#[test]
fn session_cookie_is_read_back() {
    let cookie = session_cookie("tok-123");
    assert_eq!(
        cookie,
        "ib_session=tok-123; Path=/; HttpOnly; SameSite=Lax; Secure; Max-Age=2592000"
    );
    assert_eq!(
        session_token(Some("theme=dark; ib_session=tok-123")),
        Some("tok-123".to_string())
    );
    assert_eq!(
        session_token(Some(" ib_session=first ;ib_session=second")),
        Some("first".to_string())
    );
    assert_eq!(session_token(Some("ib_session")), None);
    assert_eq!(session_token(Some("other=1")), None);
    assert_eq!(session_token(None), None);
    assert_eq!(
        cleared_session_cookie(),
        "ib_session=; Path=/; HttpOnly; SameSite=Lax; Secure; Max-Age=0"
    );
}

#[test]
fn session_key_is_the_sha256_of_the_token() {
    assert_eq!(
        session_lookup_key(Some("ib_session=abc")),
        Some("ba7816bf8f01cfea414140de5dae2223b00361a396177a9cb410ff61f20015ad".to_string())
    );
    let (token, key) = issue_token();
    assert_ne!(token, key);
    assert_eq!(
        session_lookup_key(Some(&format!("ib_session={token}"))),
        Some(key)
    );
}

#[test]
fn verification_token_is_trimmed_and_required() {
    assert_eq!(verification_lookup_key("   "), Err("verification token is required"));
    assert_eq!(
        verification_lookup_key(" abc "),
        Ok("ba7816bf8f01cfea414140de5dae2223b00361a396177a9cb410ff61f20015ad".to_string())
    );
}

#[test]
fn unique_violation_and_verification_flags() {
    assert!(is_unique_violation(Some(2067)));
    assert!(!is_unique_violation(Some(19)));
    assert!(!is_unique_violation(None));
    assert!(needs_verification(0));
    assert!(!needs_verification(1));
}

#[test]
fn user_account_id_is_stable_and_fits_account_limit() {
    let account_id = user_account_id("9eab5226-3a10-42a8-aed1-5aea54b8b5d3");
    assert_eq!(account_id, "SIM9eab52263a104");
    assert_eq!(account_id.len(), 16);
}

#[test]
fn user_account_id_keeps_short_ids_whole() {
    assert_eq!(user_account_id("x-1-y-F"), "SIM1F");
    assert_eq!(user_account_id(""), "SIM");
}

#[test]
fn generated_execution_ids_fit_the_limit() {
    let id = web_exec_id();
    assert_eq!(id.len(), 24);
    assert!(id.starts_with("WEB"));
    assert!(id[3..].chars().all(|c| c.is_ascii_digit() || ('a'..='f').contains(&c)));
    assert_ne!(web_exec_id(), id);
    assert_eq!(cli_exec_id(255), "EX00000000000000FF");
    assert_eq!(cli_exec_id(-1), "EXFFFFFFFFFFFFFFFF");
}

#[test]
fn issued_tokens_are_hyphenated_uuids() {
    let (token, key) = issue_token();
    assert_eq!(token.len(), 36);
    for (i, c) in token.chars().enumerate() {
        if i == 8 || i == 13 || i == 18 || i == 23 {
            assert_eq!(c, '-');
        } else {
            assert!(c.is_ascii_digit() || ('a'..='f').contains(&c));
        }
    }
    assert_eq!(key.len(), 64);
    assert_ne!(key, token);
    assert_ne!(issue_token().0, token);
}

#[test]
fn new_accounts_always_get_a_hash() {
    let h = new_password_hash("correct horse").unwrap();
    assert!(h.starts_with("$argon2id$"));
    assert!(dummy_password_hash().is_some());
}
