//! The steps of opening an account and of confirming its e-mail address:
//! each step names the database or e-mail work the caller does next, and
//! the caller reports back what happened.

use crate::auth::{
    argon2_accepts, check_registration, is_hyphenated_uuid, is_unique_violation, is_valid_email,
    new_password_hash, normalized_email, random_uuid, sha256_hex, verification_lookup_key,
};
use crate::text::trimmed;
use vstd::prelude::*;
use vstd::string::*;
use vstd::utf8::encode_utf8;

verus! {

/// Where the confirmation of an e-mail address stands.
#[derive(Clone)]
pub enum VerifyStep {
    /// Find the token stored under `key`: its user and whether it expired.
    FindToken { key: String },
    /// Delete the expired token stored under `key`.
    DeleteExpired { key: String },
    /// Mark the user's address as verified.
    MarkVerified { user_id: String },
    /// Delete every verification token of the user.
    DeleteUserTokens { user_id: String },
    /// Read the user's ID and address.
    LoadUser { user_id: String },
    /// Done: the user whose address is now verified.
    Verified { user_id: String, email: String },
    /// Answer the request with this status and message.
    Answer { status: u16, message: String },
}

/// What the caller found out doing a step.
pub enum VerifyEvent {
    /// The token's user and whether it has expired, if it is stored.
    TokenRow(Option<(String, bool)>),
    /// The write went through.
    Written,
    /// The user's ID and address, if the user is there.
    UserRow(Option<(String, String)>),
    /// The store failed.
    DbError(String),
    /// The worker running the step did not finish.
    TaskFailed,
}

pub enum VerifyStepView {
    FindToken { key: Seq<char> },
    DeleteExpired { key: Seq<char> },
    MarkVerified { user_id: Seq<char> },
    DeleteUserTokens { user_id: Seq<char> },
    LoadUser { user_id: Seq<char> },
    Verified { user_id: Seq<char>, email: Seq<char> },
    Answer { status: u16, message: Seq<char> },
}

pub enum VerifyEventView {
    TokenRow(Option<(Seq<char>, bool)>),
    Written,
    UserRow(Option<(Seq<char>, Seq<char>)>),
    DbError(Seq<char>),
    TaskFailed,
}

impl View for VerifyStep {
    type V = VerifyStepView;

    open spec fn view(&self) -> VerifyStepView {
        match self {
            VerifyStep::FindToken { key } => VerifyStepView::FindToken { key: key@ },
            VerifyStep::DeleteExpired { key } => VerifyStepView::DeleteExpired { key: key@ },
            VerifyStep::MarkVerified { user_id } => VerifyStepView::MarkVerified {
                user_id: user_id@,
            },
            VerifyStep::DeleteUserTokens { user_id } => VerifyStepView::DeleteUserTokens {
                user_id: user_id@,
            },
            VerifyStep::LoadUser { user_id } => VerifyStepView::LoadUser { user_id: user_id@ },
            VerifyStep::Verified { user_id, email } => VerifyStepView::Verified {
                user_id: user_id@,
                email: email@,
            },
            VerifyStep::Answer { status, message } => VerifyStepView::Answer {
                status: *status,
                message: message@,
            },
        }
    }
}

impl View for VerifyEvent {
    type V = VerifyEventView;

    open spec fn view(&self) -> VerifyEventView {
        match self {
            VerifyEvent::TokenRow(row) => VerifyEventView::TokenRow(
                match row {
                    Some(r) => Some((r.0@, r.1)),
                    None => None,
                },
            ),
            VerifyEvent::Written => VerifyEventView::Written,
            VerifyEvent::UserRow(row) => VerifyEventView::UserRow(
                match row {
                    Some(r) => Some((r.0@, r.1@)),
                    None => None,
                },
            ),
            VerifyEvent::DbError(e) => VerifyEventView::DbError(e@),
            VerifyEvent::TaskFailed => VerifyEventView::TaskFailed,
        }
    }
}

pub open spec fn verify_unavailable() -> VerifyStepView {
    VerifyStepView::Answer { status: 500, message: "database unavailable"@ }
}

/// The first step of confirming `raw_token`: an empty token (after
/// trimming) is refused with 400; otherwise the token is looked up under
/// the SHA-256 of its trimmed text.
pub open spec fn verify_start(raw_token: Seq<char>) -> VerifyStepView {
    if trimmed(raw_token).len() == 0 {
        VerifyStepView::Answer { status: 400, message: "verification token is required"@ }
    } else {
        VerifyStepView::FindToken { key: sha256_hex(trimmed(raw_token)) }
    }
}

/// One move of a confirmation on what the caller found out. An unknown
/// token is 400; an expired one is deleted and answered 410; a valid one
/// marks its user verified, then all of that user's tokens are deleted
/// (a failed delete is let pass) and the user is read back.
pub open spec fn verify_next(step: VerifyStepView, event: VerifyEventView) -> VerifyStepView {
    match (step, event) {
        (VerifyStepView::Answer { status, message }, _) => VerifyStepView::Answer {
            status,
            message,
        },
        (VerifyStepView::Verified { user_id, email }, _) => VerifyStepView::Verified {
            user_id,
            email,
        },
        (_, VerifyEventView::TaskFailed) => VerifyStepView::Answer {
            status: 500,
            message: "internal server error"@,
        },
        (VerifyStepView::FindToken { .. }, VerifyEventView::TokenRow(row)) => match row {
            None => VerifyStepView::Answer { status: 400, message: "invalid verification token"@ },
            Some(r) => if r.1 {
                VerifyStepView::DeleteExpired { key: step->FindToken_key }
            } else {
                VerifyStepView::MarkVerified { user_id: r.0 }
            },
        },
        (VerifyStepView::FindToken { .. }, VerifyEventView::DbError(_)) => verify_unavailable(),
        (VerifyStepView::DeleteExpired { .. }, VerifyEventView::Written)
        | (VerifyStepView::DeleteExpired { .. }, VerifyEventView::DbError(_)) =>
            VerifyStepView::Answer { status: 410, message: "verification token has expired"@ },
        (VerifyStepView::MarkVerified { user_id }, VerifyEventView::Written) =>
            VerifyStepView::DeleteUserTokens { user_id },
        (VerifyStepView::MarkVerified { .. }, VerifyEventView::DbError(_)) =>
            verify_unavailable(),
        (VerifyStepView::DeleteUserTokens { user_id }, VerifyEventView::Written)
        | (VerifyStepView::DeleteUserTokens { user_id }, VerifyEventView::DbError(_)) =>
            VerifyStepView::LoadUser { user_id },
        (VerifyStepView::LoadUser { .. }, VerifyEventView::UserRow(row)) => match row {
            Some(r) => VerifyStepView::Verified { user_id: r.0, email: r.1 },
            None => verify_unavailable(),
        },
        (VerifyStepView::LoadUser { .. }, VerifyEventView::DbError(_)) => verify_unavailable(),
        _ => VerifyStepView::Answer { status: 500, message: "internal server error"@ },
    }
}

/// The first step of confirming the token a user submitted.
pub fn start_verify(raw_token: &str) -> (r: VerifyStep)
    ensures
        r@ == verify_start(raw_token@),
{
    match verification_lookup_key(raw_token) {
        Ok(key) => VerifyStep::FindToken { key },
        Err(m) => VerifyStep::Answer { status: 400, message: String::from_str(m) },
    }
}

fn verify_answer(status: u16, message: &str) -> (r: VerifyStep)
    ensures
        r@ == (VerifyStepView::Answer { status, message: message@ }),
{
    VerifyStep::Answer { status, message: String::from_str(message) }
}

/// Moves a confirmation on what the caller found out doing its step.
pub fn advance_verify(step: VerifyStep, event: VerifyEvent) -> (r: VerifyStep)
    ensures
        r@ == verify_next(step@, event@),
{
    match step {
        VerifyStep::Answer { status, message } => VerifyStep::Answer { status, message },
        VerifyStep::Verified { user_id, email } => VerifyStep::Verified { user_id, email },
        VerifyStep::FindToken { key } => match event {
            VerifyEvent::TokenRow(row) => match row {
                None => verify_answer(400, "invalid verification token"),
                Some((user_id, expired)) => if expired {
                    VerifyStep::DeleteExpired { key }
                } else {
                    VerifyStep::MarkVerified { user_id }
                },
            },
            VerifyEvent::DbError(_) => verify_answer(500, "database unavailable"),
            _ => verify_answer(500, "internal server error"),
        },
        VerifyStep::DeleteExpired { .. } => match event {
            VerifyEvent::Written | VerifyEvent::DbError(_) => verify_answer(
                410,
                "verification token has expired",
            ),
            _ => verify_answer(500, "internal server error"),
        },
        VerifyStep::MarkVerified { user_id } => match event {
            VerifyEvent::Written => VerifyStep::DeleteUserTokens { user_id },
            VerifyEvent::DbError(_) => verify_answer(500, "database unavailable"),
            _ => verify_answer(500, "internal server error"),
        },
        VerifyStep::DeleteUserTokens { user_id } => match event {
            VerifyEvent::Written | VerifyEvent::DbError(_) => VerifyStep::LoadUser { user_id },
            _ => verify_answer(500, "internal server error"),
        },
        VerifyStep::LoadUser { .. } => match event {
            VerifyEvent::UserRow(row) => match row {
                Some((user_id, email)) => VerifyStep::Verified { user_id, email },
                None => verify_answer(500, "database unavailable"),
            },
            VerifyEvent::DbError(_) => verify_answer(500, "database unavailable"),
            _ => verify_answer(500, "internal server error"),
        },
    }
}

/// Only a stored token that has not expired verifies an address, and it
/// verifies the token's own user; an expired token is deleted and answered
/// 410 without verifying anyone.
pub proof fn lemma_only_a_live_token_verifies(step: VerifyStepView, event: VerifyEventView)
    ensures
        verify_next(step, event) is MarkVerified ==> step is FindToken && event
            == VerifyEventView::TokenRow(
            Some((verify_next(step, event)->MarkVerified_user_id, false)),
        ),
        step is FindToken && (event matches VerifyEventView::TokenRow(Some(row)) && row.1)
            ==> verify_next(step, event) == (VerifyStepView::DeleteExpired {
            key: step->FindToken_key,
        }),
        step is DeleteExpired && (event is Written || event is DbError) ==> verify_next(step, event)
            == (VerifyStepView::Answer { status: 410, message: "verification token has expired"@ }),
{
}

/// Once an address is marked verified, all of its user's tokens are
/// deleted before the user is read back and reported.
pub proof fn lemma_verified_user_loses_every_token(step: VerifyStepView, event: VerifyEventView)
    ensures
        verify_next(step, event) is LoadUser ==> step == (VerifyStepView::DeleteUserTokens {
            user_id: verify_next(step, event)->LoadUser_user_id,
        }),
        verify_next(step, event) is DeleteUserTokens ==> step == (VerifyStepView::MarkVerified {
            user_id: verify_next(step, event)->DeleteUserTokens_user_id,
        }) && event is Written,
        verify_next(step, event) is Verified ==> step is Verified || step is LoadUser,
{
}

/// Where the opening of an account stands.
#[derive(Clone)]
pub enum RegisterStep {
    /// Hash the password for the account with this (normalized) address.
    HashPassword { email: String },
    /// Begin the transaction.
    Begin { user_id: String, email: String, password_hash: String },
    /// Insert the user, unverified.
    InsertUser { user_id: String, email: String, password_hash: String },
    /// Store a verification token for the user.
    StoreToken { user_id: String, email: String },
    /// Commit the transaction.
    Commit { user_id: String, email: String, token: String },
    /// Roll the transaction back, then answer with this status and message.
    RollBack { status: u16, message: String },
    /// Find out whether verification e-mail can be sent.
    CheckConfigured { user_id: String, email: String, token: String },
    /// Send the verification e-mail carrying `token` to `email`.
    Send { user_id: String, email: String, token: String },
    /// Done: the account exists, unverified, and nobody is signed in.
    Created { user_id: String, email: String },
    /// Answer the request with this status and message.
    Answer { status: u16, message: String },
}

/// What the caller found out doing a step.
pub enum RegisterEvent {
    /// The statement went through.
    Written,
    /// The insert was refused, with SQLite's extended error code if any.
    InsertRefused(Option<i32>),
    /// The fresh verification token that was stored.
    TokenStored(String),
    /// Whether verification e-mail is configured.
    Configured(bool),
    /// Whether the e-mail went out.
    Sent(bool),
    /// The store failed.
    DbError(String),
    /// The worker running the step did not finish.
    TaskFailed,
}

pub enum RegisterStepView {
    HashPassword { email: Seq<char> },
    Begin { user_id: Seq<char>, email: Seq<char>, password_hash: Seq<char> },
    InsertUser { user_id: Seq<char>, email: Seq<char>, password_hash: Seq<char> },
    StoreToken { user_id: Seq<char>, email: Seq<char> },
    Commit { user_id: Seq<char>, email: Seq<char>, token: Seq<char> },
    RollBack { status: u16, message: Seq<char> },
    CheckConfigured { user_id: Seq<char>, email: Seq<char>, token: Seq<char> },
    Send { user_id: Seq<char>, email: Seq<char>, token: Seq<char> },
    Created { user_id: Seq<char>, email: Seq<char> },
    Answer { status: u16, message: Seq<char> },
}

pub enum RegisterEventView {
    Written,
    InsertRefused(Option<i32>),
    TokenStored(Seq<char>),
    Configured(bool),
    Sent(bool),
    DbError(Seq<char>),
    TaskFailed,
}

impl View for RegisterStep {
    type V = RegisterStepView;

    open spec fn view(&self) -> RegisterStepView {
        match self {
            RegisterStep::HashPassword { email } => RegisterStepView::HashPassword { email: email@ },
            RegisterStep::Begin { user_id, email, password_hash } => RegisterStepView::Begin {
                user_id: user_id@,
                email: email@,
                password_hash: password_hash@,
            },
            RegisterStep::InsertUser { user_id, email, password_hash } =>
                RegisterStepView::InsertUser {
                user_id: user_id@,
                email: email@,
                password_hash: password_hash@,
            },
            RegisterStep::StoreToken { user_id, email } => RegisterStepView::StoreToken {
                user_id: user_id@,
                email: email@,
            },
            RegisterStep::Commit { user_id, email, token } => RegisterStepView::Commit {
                user_id: user_id@,
                email: email@,
                token: token@,
            },
            RegisterStep::RollBack { status, message } => RegisterStepView::RollBack {
                status: *status,
                message: message@,
            },
            RegisterStep::CheckConfigured { user_id, email, token } =>
                RegisterStepView::CheckConfigured {
                user_id: user_id@,
                email: email@,
                token: token@,
            },
            RegisterStep::Send { user_id, email, token } => RegisterStepView::Send {
                user_id: user_id@,
                email: email@,
                token: token@,
            },
            RegisterStep::Created { user_id, email } => RegisterStepView::Created {
                user_id: user_id@,
                email: email@,
            },
            RegisterStep::Answer { status, message } => RegisterStepView::Answer {
                status: *status,
                message: message@,
            },
        }
    }
}

impl View for RegisterEvent {
    type V = RegisterEventView;

    open spec fn view(&self) -> RegisterEventView {
        match self {
            RegisterEvent::Written => RegisterEventView::Written,
            RegisterEvent::InsertRefused(code) => RegisterEventView::InsertRefused(*code),
            RegisterEvent::TokenStored(t) => RegisterEventView::TokenStored(t@),
            RegisterEvent::Configured(c) => RegisterEventView::Configured(*c),
            RegisterEvent::Sent(b) => RegisterEventView::Sent(*b),
            RegisterEvent::DbError(e) => RegisterEventView::DbError(e@),
            RegisterEvent::TaskFailed => RegisterEventView::TaskFailed,
        }
    }
}

/// The first step of opening an account: the address is checked, then the
/// password's length in bytes; a refusal is 400. Otherwise the password is
/// hashed for the normalized address.
pub open spec fn register_start(email: Seq<char>, password: Seq<char>) -> RegisterStepView {
    let e = normalized_email(email);
    let len = encode_utf8(password).len() as usize;
    if !is_valid_email(e) {
        RegisterStepView::Answer { status: 400, message: "invalid email"@ }
    } else if !(8 <= len <= 128) {
        RegisterStepView::Answer { status: 400, message: "password must be 8 to 128 bytes"@ }
    } else {
        RegisterStepView::HashPassword { email: e }
    }
}

pub open spec fn register_unavailable() -> RegisterStepView {
    RegisterStepView::RollBack { status: 500, message: "database unavailable"@ }
}

/// One move of an account's opening on what the caller found out. A
/// refused insert is rolled back and answered 409 for an address already
/// registered (a unique-constraint violation), else 500; a token that
/// cannot be stored, or a commit that fails, is rolled back too. After the
/// commit the verification e-mail goes out where it is configured, and
/// whether it went out or not the account is reported created.
pub open spec fn register_next(step: RegisterStepView, event: RegisterEventView) -> RegisterStepView {
    match (step, event) {
        (RegisterStepView::Answer { status, message }, _) => RegisterStepView::Answer {
            status,
            message,
        },
        (RegisterStepView::Created { user_id, email }, _) => RegisterStepView::Created {
            user_id,
            email,
        },
        (_, RegisterEventView::TaskFailed) => RegisterStepView::Answer {
            status: 500,
            message: "internal server error"@,
        },
        (RegisterStepView::Begin { user_id, email, password_hash }, RegisterEventView::Written) =>
            RegisterStepView::InsertUser { user_id, email, password_hash },
        (RegisterStepView::Begin { .. }, RegisterEventView::DbError(_)) => RegisterStepView::Answer {
            status: 500,
            message: "database unavailable"@,
        },
        (RegisterStepView::InsertUser { user_id, email, .. }, RegisterEventView::Written) =>
            RegisterStepView::StoreToken { user_id, email },
        (RegisterStepView::InsertUser { .. }, RegisterEventView::InsertRefused(code)) =>
            if code == Some(2067i32) {
            RegisterStepView::RollBack { status: 409, message: "email is already registered"@ }
        } else {
            register_unavailable()
        },
        (RegisterStepView::InsertUser { .. }, RegisterEventView::DbError(_)) =>
            register_unavailable(),
        (RegisterStepView::StoreToken { user_id, email }, RegisterEventView::TokenStored(token)) =>
            RegisterStepView::Commit { user_id, email, token },
        (RegisterStepView::StoreToken { .. }, RegisterEventView::DbError(_)) =>
            RegisterStepView::RollBack {
            status: 500,
            message: "could not create verification email"@,
        },
        (RegisterStepView::Commit { user_id, email, token }, RegisterEventView::Written) =>
            RegisterStepView::CheckConfigured { user_id, email, token },
        (RegisterStepView::Commit { .. }, RegisterEventView::DbError(_)) => register_unavailable(),
        (RegisterStepView::RollBack { status, message }, _) => RegisterStepView::Answer {
            status,
            message,
        },
        (
            RegisterStepView::CheckConfigured { user_id, email, token },
            RegisterEventView::Configured(c),
        ) => if c {
            RegisterStepView::Send { user_id, email, token }
        } else {
            RegisterStepView::Created { user_id, email }
        },
        (RegisterStepView::Send { user_id, email, .. }, RegisterEventView::Sent(_)) =>
            RegisterStepView::Created { user_id, email },
        _ => RegisterStepView::Answer { status: 500, message: "internal server error"@ },
    }
}

/// The first step of opening an account for `email` with `password`.
pub fn start_registration(email: &str, password: &str) -> (r: RegisterStep)
    ensures
        r@ == register_start(email@, password@),
{
    match check_registration(email, password) {
        Ok(e) => RegisterStep::HashPassword { email: e },
        Err(m) => RegisterStep::Answer { status: 400, message: String::from_str(m) },
    }
}

/// Hashes the password of an account being opened and gives the account a
/// fresh random ID; any other step is handed back as it is. The hash
/// verifies the password, and it is always made for a password of at most
/// `u32::MAX` bytes; otherwise the request is answered 500.
pub fn hash_registration(step: RegisterStep, password: &str) -> (r: RegisterStep)
    ensures
        match step@ {
            RegisterStepView::HashPassword { email } => match r@ {
                RegisterStepView::Begin { user_id, email: e, password_hash } => e == email
                    && argon2_accepts(password@, password_hash) && is_hyphenated_uuid(user_id),
                RegisterStepView::Answer { status, message } => status == 500 && message
                    == "could not create account"@ && encode_utf8(password@).len() > 0xFFFF_FFFF,
                _ => false,
            },
            _ => r@ == step@,
        },
{
    match step {
        RegisterStep::HashPassword { email } => match new_password_hash(password) {
            Ok(password_hash) => RegisterStep::Begin { user_id: random_uuid(), email, password_hash },
            Err(m) => RegisterStep::Answer { status: 500, message: String::from_str(m) },
        },
        other => other,
    }
}

fn register_answer(status: u16, message: &str) -> (r: RegisterStep)
    ensures
        r@ == (RegisterStepView::Answer { status, message: message@ }),
{
    RegisterStep::Answer { status, message: String::from_str(message) }
}

fn register_roll_back(status: u16, message: &str) -> (r: RegisterStep)
    ensures
        r@ == (RegisterStepView::RollBack { status, message: message@ }),
{
    RegisterStep::RollBack { status, message: String::from_str(message) }
}

/// Moves an account's opening on what the caller found out doing its step.
pub fn advance_register(step: RegisterStep, event: RegisterEvent) -> (r: RegisterStep)
    ensures
        r@ == register_next(step@, event@),
{
    match step {
        RegisterStep::Answer { status, message } => RegisterStep::Answer { status, message },
        RegisterStep::Created { user_id, email } => RegisterStep::Created { user_id, email },
        step => {
            if let RegisterEvent::TaskFailed = event {
                return register_answer(500, "internal server error");
            }
            match step {
                RegisterStep::Begin { user_id, email, password_hash } => match event {
                    RegisterEvent::Written => RegisterStep::InsertUser {
                        user_id,
                        email,
                        password_hash,
                    },
                    RegisterEvent::DbError(_) => register_answer(500, "database unavailable"),
                    _ => register_answer(500, "internal server error"),
                },
                RegisterStep::InsertUser { user_id, email, .. } => match event {
                    RegisterEvent::Written => RegisterStep::StoreToken { user_id, email },
                    RegisterEvent::InsertRefused(code) => if is_unique_violation(code) {
                        register_roll_back(409, "email is already registered")
                    } else {
                        register_roll_back(500, "database unavailable")
                    },
                    RegisterEvent::DbError(_) => register_roll_back(500, "database unavailable"),
                    _ => register_answer(500, "internal server error"),
                },
                RegisterStep::StoreToken { user_id, email } => match event {
                    RegisterEvent::TokenStored(token) => RegisterStep::Commit {
                        user_id,
                        email,
                        token,
                    },
                    RegisterEvent::DbError(_) => register_roll_back(
                        500,
                        "could not create verification email",
                    ),
                    _ => register_answer(500, "internal server error"),
                },
                RegisterStep::Commit { user_id, email, token } => match event {
                    RegisterEvent::Written => RegisterStep::CheckConfigured {
                        user_id,
                        email,
                        token,
                    },
                    RegisterEvent::DbError(_) => register_roll_back(500, "database unavailable"),
                    _ => register_answer(500, "internal server error"),
                },
                RegisterStep::RollBack { status, message } => RegisterStep::Answer {
                    status,
                    message,
                },
                RegisterStep::CheckConfigured { user_id, email, token } => match event {
                    RegisterEvent::Configured(c) => if c {
                        RegisterStep::Send { user_id, email, token }
                    } else {
                        RegisterStep::Created { user_id, email }
                    },
                    _ => register_answer(500, "internal server error"),
                },
                RegisterStep::Send { user_id, email, .. } => match event {
                    RegisterEvent::Sent(_) => RegisterStep::Created { user_id, email },
                    _ => register_answer(500, "internal server error"),
                },
                _ => register_answer(500, "internal server error"),
            }
        },
    }
}

/// An account exists only once its transaction committed: the e-mail
/// check (and so the report that the account was created) comes only after
/// a written commit, which comes only after the user and its token were
/// stored.
pub proof fn lemma_account_exists_only_after_commit(
    step: RegisterStepView,
    event: RegisterEventView,
)
    ensures
        register_next(step, event) is CheckConfigured ==> step is Commit && event is Written,
        register_next(step, event) is Commit ==> step is StoreToken && event is TokenStored,
        register_next(step, event) is StoreToken ==> step is InsertUser && event is Written,
        register_next(step, event) is Created ==> step is Created || step is CheckConfigured
            || step is Send,
{
}

/// A registration that fails after the transaction began is rolled back:
/// an address already registered is answered 409, any other failure 500.
pub proof fn lemma_failed_registration_rolls_back(
    step: RegisterStepView,
    event: RegisterEventView,
)
    ensures
        step is InsertUser && event == RegisterEventView::InsertRefused(Some(2067i32))
            ==> register_next(step, event) == (RegisterStepView::RollBack {
            status: 409,
            message: "email is already registered"@,
        }),
        (step is InsertUser || step is StoreToken || step is Commit) && (event is DbError
            || event is InsertRefused) && (step is InsertUser || event is DbError) ==> register_next(
            step,
            event,
        ) is RollBack,
        step is RollBack && !(event is TaskFailed) ==> register_next(step, event) == (
        RegisterStepView::Answer {
            status: step->RollBack_status,
            message: step->RollBack_message,
        }),
{
}

/// Sending the verification e-mail never decides the answer: the account is
/// reported created whether the e-mail went out or not.
pub proof fn lemma_send_failure_keeps_the_account(
    user_id: Seq<char>,
    email: Seq<char>,
    token: Seq<char>,
)
    ensures
        register_next(
            RegisterStepView::Send { user_id, email, token },
            RegisterEventView::Sent(false),
        ) == register_next(
            RegisterStepView::Send { user_id, email, token },
            RegisterEventView::Sent(true),
        ),
        register_next(
            RegisterStepView::Send { user_id, email, token },
            RegisterEventView::Sent(false),
        ) == (RegisterStepView::Created { user_id, email }),
{
}

/// Deleting the tokens of a user who was just marked verified never decides
/// the answer: whether the delete went through or failed, the user is read
/// back next. So a live token whose writes all go through confirms the
/// address of the token's user, and the answer reports that user.
pub proof fn lemma_live_token_confirms_its_user(
    key: Seq<char>,
    user_id: Seq<char>,
    email: Seq<char>,
    error: Seq<char>,
)
    ensures
        verify_next(VerifyStepView::DeleteUserTokens { user_id }, VerifyEventView::Written)
            == (VerifyStepView::LoadUser { user_id }),
        verify_next(VerifyStepView::DeleteUserTokens { user_id }, VerifyEventView::DbError(error))
            == (VerifyStepView::LoadUser { user_id }),
        verify_next(
            verify_next(
                verify_next(
                    verify_next(
                        VerifyStepView::FindToken { key },
                        VerifyEventView::TokenRow(Some((user_id, false))),
                    ),
                    VerifyEventView::Written,
                ),
                VerifyEventView::Written,
            ),
            VerifyEventView::UserRow(Some((user_id, email))),
        ) == (VerifyStepView::Verified { user_id, email }),
{
}

} // verus!
