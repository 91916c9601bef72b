use ib::registration::{
    advance_register, advance_verify, hash_registration, start_registration, start_verify,
    RegisterEvent, RegisterStep, VerifyEvent, VerifyStep,
};

fn register_answer(step: &RegisterStep) -> Option<(u16, String)> {
    match step {
        RegisterStep::Answer { status, message } => Some((*status, message.clone())),
        _ => None,
    }
}

fn verify_answer(step: &VerifyStep) -> Option<(u16, String)> {
    match step {
        VerifyStep::Answer { status, message } => Some((*status, message.clone())),
        _ => None,
    }
}

fn begun() -> (RegisterStep, String) {
    let step = hash_registration(start_registration(" New@Example.com ", "long enough"), "long enough");
    let user_id = match &step {
        RegisterStep::Begin { user_id, email, password_hash } => {
            assert_eq!(email, "new@example.com");
            assert!(password_hash.starts_with("$argon2id$"));
            assert_eq!(user_id.len(), 36);
            user_id.clone()
        }
        _ => panic!("expected the transaction to begin"),
    };
    (step, user_id)
}

#[test]
fn registration_input_is_checked_first() {
    assert_eq!(
        register_answer(&start_registration("nobody", "long enough")),
        Some((400, "invalid email".to_string()))
    );
    assert_eq!(
        register_answer(&start_registration("a@b.io", "short")),
        Some((400, "password must be 8 to 128 bytes".to_string()))
    );
}

#[test]
fn registration_commits_then_reports_the_unverified_account() {
    let (step, user_id) = begun();
    let step = advance_register(step, RegisterEvent::Written);
    assert!(matches!(step, RegisterStep::InsertUser { .. }));
    let step = advance_register(step, RegisterEvent::Written);
    assert!(matches!(step, RegisterStep::StoreToken { .. }));
    let step = advance_register(step, RegisterEvent::TokenStored("tok".to_string()));
    assert!(matches!(step, RegisterStep::Commit { .. }));
    let step = advance_register(step, RegisterEvent::Written);
    assert!(matches!(step, RegisterStep::CheckConfigured { .. }));
    let step = advance_register(step, RegisterEvent::Configured(true));
    match &step {
        RegisterStep::Send { email, token, .. } => {
            assert_eq!((email.as_str(), token.as_str()), ("new@example.com", "tok"));
        }
        _ => panic!("expected the e-mail to be sent"),
    }
    let step = advance_register(step, RegisterEvent::Sent(false));
    match step {
        RegisterStep::Created { user_id: id, email } => {
            assert_eq!((id, email.as_str()), (user_id, "new@example.com"));
        }
        _ => panic!("expected the account to be reported created"),
    }
}

#[test]
fn duplicate_address_is_rolled_back_as_conflict() {
    let (step, _) = begun();
    let step = advance_register(step, RegisterEvent::Written);
    let step = advance_register(step, RegisterEvent::InsertRefused(Some(2067)));
    assert!(matches!(step, RegisterStep::RollBack { status: 409, .. }));
    let step = advance_register(step, RegisterEvent::Written);
    assert_eq!(register_answer(&step), Some((409, "email is already registered".to_string())));
    let (step, _) = begun();
    let step = advance_register(step, RegisterEvent::Written);
    let step = advance_register(step, RegisterEvent::InsertRefused(Some(1555)));
    let step = advance_register(step, RegisterEvent::Written);
    assert_eq!(register_answer(&step), Some((500, "database unavailable".to_string())));
}

#[test]
fn failed_token_or_commit_is_rolled_back() {
    let (step, _) = begun();
    let step = advance_register(step, RegisterEvent::Written);
    let step = advance_register(step, RegisterEvent::Written);
    let step = advance_register(step, RegisterEvent::DbError("full".to_string()));
    let step = advance_register(step, RegisterEvent::Written);
    assert_eq!(
        register_answer(&step),
        Some((500, "could not create verification email".to_string()))
    );
    let (step, _) = begun();
    let step = advance_register(step, RegisterEvent::DbError("locked".to_string()));
    assert_eq!(register_answer(&step), Some((500, "database unavailable".to_string())));
}

#[test]
fn unconfigured_email_still_creates_the_account() {
    let (step, _) = begun();
    let mut step = step;
    for event in [RegisterEvent::Written, RegisterEvent::Written] {
        step = advance_register(step, event);
    }
    let step = advance_register(step, RegisterEvent::TokenStored("tok".to_string()));
    let step = advance_register(step, RegisterEvent::Written);
    let step = advance_register(step, RegisterEvent::Configured(false));
    assert!(matches!(step, RegisterStep::Created { .. }));
}

#[test]
fn empty_token_is_required() {
    assert_eq!(
        verify_answer(&start_verify("   ")),
        Some((400, "verification token is required".to_string()))
    );
    assert!(matches!(start_verify(" tok "), VerifyStep::FindToken { .. }));
}

#[test]
fn unknown_and_expired_tokens_are_refused() {
    let step = advance_verify(start_verify("tok"), VerifyEvent::TokenRow(None));
    assert_eq!(verify_answer(&step), Some((400, "invalid verification token".to_string())));
    let step = advance_verify(
        start_verify("tok"),
        VerifyEvent::TokenRow(Some(("u1".to_string(), true))),
    );
    assert!(matches!(step, VerifyStep::DeleteExpired { .. }));
    let step = advance_verify(step, VerifyEvent::DbError("busy".to_string()));
    assert_eq!(verify_answer(&step), Some((410, "verification token has expired".to_string())));
}

#[test]
fn live_token_verifies_its_user_and_clears_tokens() {
    let step = advance_verify(
        start_verify("tok"),
        VerifyEvent::TokenRow(Some(("u1".to_string(), false))),
    );
    assert!(matches!(&step, VerifyStep::MarkVerified { user_id } if user_id == "u1"));
    let step = advance_verify(step, VerifyEvent::Written);
    assert!(matches!(&step, VerifyStep::DeleteUserTokens { user_id } if user_id == "u1"));
    let step = advance_verify(step, VerifyEvent::DbError("busy".to_string()));
    assert!(matches!(&step, VerifyStep::LoadUser { user_id } if user_id == "u1"));
    let step = advance_verify(
        step,
        VerifyEvent::UserRow(Some(("u1".to_string(), "a@b.io".to_string()))),
    );
    match step {
        VerifyStep::Verified { user_id, email } => {
            assert_eq!((user_id.as_str(), email.as_str()), ("u1", "a@b.io"));
        }
        _ => panic!("expected the verified user"),
    }
    let failed = advance_verify(
        advance_verify(start_verify("tok"), VerifyEvent::TokenRow(Some(("u1".to_string(), false)))),
        VerifyEvent::DbError("locked".to_string()),
    );
    assert_eq!(verify_answer(&failed), Some((500, "database unavailable".to_string())));
}
