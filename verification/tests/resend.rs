use ib::auth::{advance_resend, start_resend, ResendEvent, ResendStep};

fn answer(step: &ResendStep) -> Option<(u16, String)> {
    match step {
        ResendStep::Answer { status, message } => Some((*status, message.clone())),
        _ => None,
    }
}

fn ok() -> Option<(u16, String)> {
    Some((200, "ok".to_string()))
}

fn unverified_user_reaches_check() -> ResendStep {
    let step = start_resend(" Trader@Example.COM ");
    let step = advance_resend(step, ResendEvent::UserRow(Some(("u1".to_string(), 0))));
    match &step {
        ResendStep::DeleteTokens { user_id, email } => {
            assert_eq!((user_id.as_str(), email.as_str()), ("u1", "trader@example.com"));
        }
        _ => panic!("expected the old tokens to be deleted"),
    }
    let step = advance_resend(step, ResendEvent::TokensDeleted);
    assert!(matches!(step, ResendStep::StoreToken { .. }));
    let step = advance_resend(step, ResendEvent::TokenStored("tok".to_string()));
    match &step {
        ResendStep::CheckConfigured { email, token } => {
            assert_eq!((email.as_str(), token.as_str()), ("trader@example.com", "tok"));
        }
        _ => panic!("expected the configuration check"),
    }
    step
}

#[test]
fn malformed_address_is_refused() {
    assert_eq!(answer(&start_resend("nobody")), Some((400, "invalid email".to_string())));
    match start_resend(" Trader@Example.COM ") {
        ResendStep::LookUpUser { email } => assert_eq!(email, "trader@example.com"),
        _ => panic!("expected a user lookup"),
    }
}

#[test]
fn unknown_and_verified_addresses_get_the_generic_answer() {
    let unknown = advance_resend(start_resend("a@b.io"), ResendEvent::UserRow(None));
    let verified = advance_resend(
        start_resend("a@b.io"),
        ResendEvent::UserRow(Some(("u1".to_string(), 1))),
    );
    let broken = advance_resend(start_resend("a@b.io"), ResendEvent::DbError("locked".to_string()));
    assert_eq!(answer(&unknown), ok());
    assert_eq!(answer(&verified), ok());
    assert_eq!(answer(&broken), ok());
    assert_eq!(answer(&advance_resend(unknown, ResendEvent::Sent(false))), ok());
}

#[test]
fn failed_delete_still_stores_a_token_and_failed_store_is_generic() {
    let step = advance_resend(
        start_resend("a@b.io"),
        ResendEvent::UserRow(Some(("u1".to_string(), 0))),
    );
    let step = advance_resend(step, ResendEvent::DbError("busy".to_string()));
    assert!(matches!(step, ResendStep::StoreToken { .. }));
    let step = advance_resend(step, ResendEvent::DbError("busy".to_string()));
    assert_eq!(answer(&step), ok());
}

#[test]
fn unconfigured_email_is_503_and_failed_send_is_502() {
    let step = advance_resend(unverified_user_reaches_check(), ResendEvent::Configured(false));
    assert_eq!(answer(&step), Some((503, "verification email is not configured".to_string())));
    let step = advance_resend(unverified_user_reaches_check(), ResendEvent::Configured(true));
    match &step {
        ResendStep::Send { email, token } => {
            assert_eq!((email.as_str(), token.as_str()), ("trader@example.com", "tok"));
        }
        _ => panic!("expected the send"),
    }
    let failed = advance_resend(step, ResendEvent::Sent(false));
    assert_eq!(answer(&failed), Some((502, "could not send verification email".to_string())));
    let step = advance_resend(unverified_user_reaches_check(), ResendEvent::Configured(true));
    assert_eq!(answer(&advance_resend(step, ResendEvent::Sent(true))), ok());
}

#[test]
fn lost_worker_is_an_internal_error() {
    let step = advance_resend(start_resend("a@b.io"), ResendEvent::TaskFailed);
    assert_eq!(answer(&step), Some((500, "internal server error".to_string())));
    let step = advance_resend(start_resend("a@b.io"), ResendEvent::Configured(true));
    assert_eq!(answer(&step), Some((500, "internal server error".to_string())));
}
