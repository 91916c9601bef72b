//! Accounts of the web API: e-mail and password rules, password hashes,
//! session cookies and tokens.

use crate::ids::is_lower_hex_digit;
use crate::text::{
    concat, int_text, int_to_text, is_white_space, lowercased, split_on, str_eq, to_lowercase,
    trim, trimmed, trimmed_end, trimmed_start,
};
use argon2::password_hash::rand_core::OsRng;
use argon2::password_hash::{PasswordHash, PasswordHasher, PasswordVerifier, SaltString};
use argon2::Argon2;
use sha2::{Digest, Sha256};
use uuid::Uuid;
use vstd::prelude::*;
use vstd::string::*;
use vstd::utf8::encode_utf8;

verus! {

/// Lifetime of a session cookie, in seconds (30 days).
pub const SESSION_MAX_AGE: i64 = 2_592_000;

#[verifier::external_type_specification]
#[verifier::external_body]
pub struct ExPasswordHashError(argon2::password_hash::Error);

/// The lowercase hexadecimal SHA-256 digest of the UTF-8 bytes of a text.
pub uninterp spec fn sha256_hex(s: Seq<char>) -> Seq<char>;

/// Whether Argon2 (default parameters) accepts `password` for the PHC
/// string `hash`.
pub uninterp spec fn argon2_accepts(password: Seq<char>, hash: Seq<char>) -> bool;

/// `Sha256::digest` of the token's bytes, written in lowercase hex.
#[verifier::external_body]
fn hash_token(token: &str) -> (r: String)
    ensures
        r@ == sha256_hex(token@),
{
    format!("{:x}", Sha256::digest(token.as_bytes()))
}

/// `PasswordHash::new` then `Argon2::default().verify_password`: false
/// when the stored hash does not parse.
#[verifier::external_body]
fn verify_password(password: &str, password_hash: &str) -> (r: bool)
    ensures
        r == argon2_accepts(password@, password_hash@),
{
    match PasswordHash::new(password_hash) {
        Ok(parsed) => Argon2::default().verify_password(password.as_bytes(), &parsed).is_ok(),
        Err(_) => false,
    }
}

/// `Argon2::default().hash_password` with a fresh random salt from `OsRng`,
/// as a PHC string. As the crate's documentation shows, the hash it gives
/// verifies the password it was made from; the salt, and so the hash, is
/// random. With the default parameters and a generated salt, the crate's
/// only error left is a password of more than `u32::MAX` bytes, so a
/// password within that many bytes, or within a quarter of that many
/// characters, is always hashed.
#[verifier::external_body]
fn hash_password(password: &str) -> (r: Result<String, argon2::password_hash::Error>)
    ensures
        r matches Ok(h) ==> argon2_accepts(password@, h@),
        encode_utf8(password@).len() <= 0xFFFF_FFFF ==> r is Ok,
        4 * password@.len() <= 0xFFFF_FFFF ==> r is Ok,
{
    let salt = SaltString::generate(&mut OsRng);
    match Argon2::default().hash_password(password.as_bytes(), &salt) {
        Ok(hash) => Ok(hash.to_string()),
        Err(e) => Err(e),
    }
}

/// Text in the hyphenated UUID form: 36 characters, lower-case hexadecimal
/// digits with hyphens at positions 8, 13, 18 and 23.
pub open spec fn is_hyphenated_uuid(s: Seq<char>) -> bool {
    &&& s.len() == 36
    &&& forall|k: int|
        0 <= k < 36 ==> if k == 8 || k == 13 || k == 18 || k == 23 {
            #[trigger] s[k] == '-'
        } else {
            is_lower_hex_digit(s[k])
        }
}

/// `Uuid::new_v4().to_string()`: a random UUID, which `Display` writes in
/// the lower-case hyphenated form; which UUID comes is not stated.
#[verifier::external_body]
pub(crate) fn random_uuid() -> (r: String)
    ensures
        is_hyphenated_uuid(r@),
{
    Uuid::new_v4().to_string()
}

/// Position of the first `c` in `s`.
pub open spec fn first_index_of(s: Seq<char>, c: char) -> Option<int> {
    if exists|i: int| 0 <= i < s.len() && s[i] == c {
        Some(
            choose|i: int|
                0 <= i < s.len() && s[i] == c && forall|j: int| 0 <= j < i ==> s[j] != c,
        )
    } else {
        None
    }
}

proof fn lemma_first_index_of(s: Seq<char>, c: char, i: int)
    requires
        0 <= i < s.len(),
        s[i] == c,
        forall|j: int| 0 <= j < i ==> s[j] != c,
    ensures
        first_index_of(s, c) == Some(i),
{
    let k = choose|k: int| 0 <= k < s.len() && s[k] == c && forall|j: int| 0 <= j < k ==> s[j] != c;
    assert(0 <= k < s.len() && s[k] == c && forall|j: int| 0 <= j < k ==> s[j] != c);
    if k < i {
        assert(s[k] != c);
    } else if k > i {
        assert(s[i] != c);
    }
}

/// The normalized address: trimmed and lowercased.
pub open spec fn normalized_email(email: Seq<char>) -> Seq<char> {
    lowercased(trimmed(email))
}

/// At most 320 bytes, with a non-empty part before the first `@` and a
/// non-empty part after it that contains a dot.
pub open spec fn is_valid_email(e: Seq<char>) -> bool {
    encode_utf8(e).len() as usize <= 320 && match first_index_of(e, '@') {
        Some(i) => i > 0 && i + 1 < e.len() && e.skip(i + 1).contains('.'),
        None => false,
    }
}

/// Normalizes and checks an e-mail address.
pub fn normalize_email(email: &str) -> (r: Result<String, &'static str>)
    ensures
        match r {
            Ok(e) => e@ == normalized_email(email@) && is_valid_email(e@),
            Err(m) => !is_valid_email(normalized_email(email@)) && m@ == "invalid email"@,
        },
{
    let e = to_lowercase(trim(email));
    if e.as_str().len() > 320 || !email_shape_ok(e.as_str()) {
        return Err("invalid email");
    }
    Ok(e)
}

fn email_shape_ok(e: &str) -> (r: bool)
    ensures
        r == match first_index_of(e@, '@') {
            Some(i) => i > 0 && i + 1 < e@.len() && e@.skip(i + 1).contains('.'),
            None => false,
        },
{
    let n = e.unicode_len();
    let mut i: usize = 0;
    while i < n
        invariant
            n == e@.len(),
            i <= n,
            forall|j: int| 0 <= j < i ==> e@[j] != '@',
        decreases n - i,
    {
        if e.get_char(i) == '@' {
            proof {
                lemma_first_index_of(e@, '@', i as int);
            }
            if i == 0 || i + 1 >= n {
                return false;
            }
            let mut k: usize = i + 1;
            while k < n
                invariant
                    n == e@.len(),
                    i + 1 <= k <= n,
                    0 < i,
                    i + 1 < n,
                    first_index_of(e@, '@') == Some(i as int),
                    forall|j: int| i + 1 <= j < k ==> e@[j] != '.',
                decreases n - k,
            {
                if e.get_char(k) == '.' {
                    proof {
                        assert(e@.skip(i + 1)[k - i - 1] == '.');
                        assert(e@.skip(i + 1).contains('.'));
                    }
                    return true;
                }
                k = k + 1;
            }
            proof {
                assert forall|j: int| 0 <= j < e@.skip(i + 1).len() implies #[trigger] e@.skip(
                    i + 1,
                )[j] != '.' by {
                    assert(e@.skip(i + 1)[j] == e@[j + i + 1]);
                }
            }
            return false;
        }
        i = i + 1;
    }
    proof {
        assert(!(exists|j: int| 0 <= j < e@.len() && e@[j] == '@'));
    }
    false
}

/// Checks the length of a new password: 8 to 128 bytes.
pub fn validate_password(password: &str) -> (r: Result<(), &'static str>)
    ensures
        ({
            let len = encode_utf8(password@).len() as usize;
            match r {
                Ok(_) => 8 <= len <= 128,
                Err(m) => !(8 <= len <= 128) && m@ == "password must be 8 to 128 bytes"@,
            }
        }),
{
    let len = password.len();
    if !(8 <= len && len <= 128) {
        Err("password must be 8 to 128 bytes")
    } else {
        Ok(())
    }
}

/// The address of a registration, normalized, once both the address and the
/// password pass their checks (the address is checked first).
pub fn check_registration(email: &str, password: &str) -> (r: Result<String, &'static str>)
    ensures
        ({
            let e = normalized_email(email@);
            let len = encode_utf8(password@).len() as usize;
            match r {
                Ok(s) => s@ == e && is_valid_email(e) && 8 <= len <= 128,
                Err(m) => (!is_valid_email(e) && m@ == "invalid email"@) || (is_valid_email(e)
                    && !(8 <= len <= 128) && m@ == "password must be 8 to 128 bytes"@),
            }
        }),
{
    let e = match normalize_email(email) {
        Ok(e) => e,
        Err(m) => return Err(m),
    };
    match validate_password(password) {
        Ok(_) => Ok(e),
        Err(m) => Err(m),
    }
}

/// A password hash for a new account; refused as "could not create account"
/// when hashing fails, which it does only for a password beyond Argon2's
/// length limit of `u32::MAX` bytes, so never for one `validate_password`
/// accepts. The hash verifies the password.
pub fn new_password_hash(password: &str) -> (r: Result<String, &'static str>)
    ensures
        match r {
            Ok(h) => argon2_accepts(password@, h@),
            Err(m) => m@ == "could not create account"@,
        },
        encode_utf8(password@).len() <= 0xFFFF_FFFF ==> r is Ok,
{
    match hash_password(password) {
        Ok(h) => Ok(h),
        Err(_) => Err("could not create account"),
    }
}

/// The password whose hash stands in for unknown accounts at login.
pub open spec fn timing_password() -> Seq<char> {
    "ib-timing-equalizer"@
}

/// A hash of a fixed password, used to make a login for an unknown address
/// take as long as one with a wrong password.
pub fn dummy_password_hash() -> (r: Option<String>)
    ensures
        r matches Some(h) && argon2_accepts(timing_password(), h@),
{
    proof {
        reveal_strlit("ib-timing-equalizer");
    }
    match hash_password("ib-timing-equalizer") {
        Ok(h) => Some(h),
        Err(_) => None,
    }
}

/// Why a login is refused: an HTTP status and a message.
pub struct LoginRefusal {
    pub status: u16,
    pub message: &'static str,
}

/// The answer to a login, given the stored hash and verification flag of the
/// address (none when unknown) and whether verification e-mails can be
/// sent: unknown address or wrong password is 401; an unverified address is
/// 403 when e-mails can be sent; otherwise the login succeeds and reports
/// whether the address is verified.
pub fn check_login(
    password: &str,
    stored: Option<(&str, i64)>,
    dummy_hash: &str,
    email_configured: bool,
) -> (r: Result<bool, LoginRefusal>)
    ensures
        match stored {
            None => r matches Err(e) && e.status == 401 && e.message@
                == "invalid email or password"@,
            Some((hash, verified)) => if !argon2_accepts(password@, hash@) {
                r matches Err(e) && e.status == 401 && e.message@ == "invalid email or password"@
            } else if verified != 1 && email_configured {
                r matches Err(e) && e.status == 403 && e.message@
                    == "email not verified; check your inbox for the verification email"@
            } else {
                r == Ok::<bool, LoginRefusal>(verified == 1)
            },
        },
{
    match stored {
        None => {
            let _ = verify_password(password, dummy_hash);
            Err(LoginRefusal { status: 401, message: "invalid email or password" })
        },
        Some((hash, verified)) => {
            if !verify_password(password, hash) {
                return Err(LoginRefusal { status: 401, message: "invalid email or password" });
            }
            if verified != 1 && email_configured {
                return Err(
                    LoginRefusal {
                        status: 403,
                        message: "email not verified; check your inbox for the verification email",
                    },
                );
            }
            Ok(verified == 1)
        },
    }
}

/// The value of a cookie pair `name=value` (trimmed first) named like the
/// session cookie.
pub open spec fn session_value(part: Seq<char>) -> Option<Seq<char>> {
    let t = trimmed(part);
    match first_index_of(t, '=') {
        Some(i) => if t.take(i) == "ib_session"@ {
            Some(t.skip(i + 1))
        } else {
            None
        },
        None => None,
    }
}

/// The first session cookie value among the pairs.
pub open spec fn first_session(parts: Seq<Seq<char>>) -> Option<Seq<char>>
    decreases parts.len(),
{
    if parts.len() == 0 {
        None
    } else {
        match session_value(parts[0]) {
            Some(v) => Some(v),
            None => first_session(parts.drop_first()),
        }
    }
}

proof fn lemma_first_session_push(parts: Seq<Seq<char>>, x: Seq<char>)
    ensures
        first_session(parts.push(x)) == match first_session(parts) {
            Some(v) => Some(v),
            None => session_value(x),
        },
    decreases parts.len(),
{
    let px = parts.push(x);
    assert(px.len() > 0);
    if parts.len() == 0 {
        assert(px.drop_first() =~= Seq::<Seq<char>>::empty());
        assert(px[0] == x);
        assert(first_session(px.drop_first()) is None);
    } else {
        lemma_first_session_push(parts.drop_first(), x);
        assert(px.drop_first() =~= parts.drop_first().push(x));
        assert(px[0] == parts[0]);
    }
}

/// The session token a `Cookie` header carries.
pub open spec fn session_token_spec(header: Option<Seq<char>>) -> Option<Seq<char>> {
    match header {
        None => None,
        Some(h) => first_session(split_on(h, ';')),
    }
}

fn pair_value(part: &str) -> (r: Option<String>)
    ensures
        match r {
            Some(v) => session_value(part@) == Some(v@),
            None => session_value(part@) is None,
        },
{
    let t = trim(part);
    let n = t.unicode_len();
    let mut i: usize = 0;
    while i < n
        invariant
            n == t@.len(),
            t@ == trimmed(part@),
            i <= n,
            forall|j: int| 0 <= j < i ==> t@[j] != '=',
        decreases n - i,
    {
        if t.get_char(i) == '=' {
            proof {
                lemma_first_index_of(t@, '=', i as int);
            }
            let name = t.substring_char(0, i);
            proof {
                assert(name@ =~= t@.take(i as int));
            }
            if str_eq(name, "ib_session") {
                let value = t.substring_char(i + 1, n);
                proof {
                    assert(value@ =~= t@.skip(i + 1));
                }
                return Some(String::from_str(value));
            } else {
                return None;
            }
        }
        i = i + 1;
    }
    None
}

/// The session token in the value of a `Cookie` header: the first pair
/// named `ib_session`, pairs separated by `;` and trimmed.
pub fn session_token(cookie_header: Option<&str>) -> (r: Option<String>)
    ensures
        match r {
            Some(t) => session_token_spec(match cookie_header {
                Some(h) => Some(h@),
                None => None,
            }) == Some(t@),
            None => session_token_spec(match cookie_header {
                Some(h) => Some(h@),
                None => None,
            }) is None,
        },
{
    let h = match cookie_header {
        Some(h) => h,
        None => return None,
    };
    let n = h.unicode_len();
    let mut found: Option<String> = None;
    let mut current = String::new();
    let mut i: usize = 0;
    proof {
        assert(h@.take(0) =~= Seq::<char>::empty());
    }
    while i < n
        invariant
            n == h@.len(),
            i <= n,
            split_on(h@.take(i as int), ';').len() >= 1,
            current@ == split_on(h@.take(i as int), ';').last(),
            match found {
                Some(v) => first_session(split_on(h@.take(i as int), ';').drop_last()) == Some(
                    v@,
                ),
                None => first_session(split_on(h@.take(i as int), ';').drop_last()) is None,
            },
        decreases n - i,
    {
        let c = h.get_char(i);
        let ghost parts = split_on(h@.take(i as int), ';');
        proof {
            assert(h@.take(i + 1).drop_last() =~= h@.take(i as int));
            lemma_first_session_push(parts.drop_last(), parts.last());
            assert(parts.drop_last().push(parts.last()) =~= parts);
        }
        if c == ';' {
            if found.is_none() {
                found = pair_value(current.as_str());
            }
            current = String::new();
            proof {
                assert(split_on(h@.take(i + 1), ';').drop_last() =~= parts);
            }
        } else {
            push_to(&mut current, c);
            proof {
                assert(split_on(h@.take(i + 1), ';').drop_last() =~= parts.drop_last());
            }
        }
        i = i + 1;
    }
    proof {
        assert(h@.take(n as int) =~= h@);
        let parts = split_on(h@, ';');
        lemma_first_session_push(parts.drop_last(), parts.last());
        assert(parts.drop_last().push(parts.last()) =~= parts);
    }
    match found {
        Some(v) => Some(v),
        None => pair_value(current.as_str()),
    }
}

fn push_to(s: &mut String, c: char)
    ensures
        final(s)@ == old(s)@.push(c),
{
    crate::text::push_char(s, c);
}

/// The stored key of the session a `Cookie` header presents: the SHA-256 of
/// its token.
pub fn session_lookup_key(cookie_header: Option<&str>) -> (r: Option<String>)
    ensures
        match session_token_spec(match cookie_header {
            Some(h) => Some(h@),
            None => None,
        }) {
            Some(t) => r matches Some(k) && k@ == sha256_hex(t),
            None => r is None,
        },
{
    match session_token(cookie_header) {
        Some(t) => Some(hash_token(t.as_str())),
        None => None,
    }
}

/// A fresh random token and the key it is stored under (its SHA-256).
pub fn issue_token() -> (r: (String, String))
    ensures
        is_hyphenated_uuid(r.0@),
        r.1@ == sha256_hex(r.0@),
{
    let token = random_uuid();
    let key = hash_token(token.as_str());
    (token, key)
}

/// The stored key of a verification token as submitted: trimmed; an empty
/// token is refused.
pub fn verification_lookup_key(token: &str) -> (r: Result<String, &'static str>)
    ensures
        match r {
            Ok(k) => trimmed(token@).len() > 0 && k@ == sha256_hex(trimmed(token@)),
            Err(m) => trimmed(token@).len() == 0 && m@ == "verification token is required"@,
        },
{
    let t = trim(token);
    if t.is_empty() {
        return Err("verification token is required");
    }
    Ok(hash_token(t))
}

pub open spec fn session_cookie_text(token: Seq<char>) -> Seq<char> {
    "ib_session="@ + token + "; Path=/; HttpOnly; SameSite=Lax; Secure; Max-Age="@ + int_text(
        SESSION_MAX_AGE as int,
    )
}

/// The `Set-Cookie` value that opens a session with `token`.
pub fn session_cookie(token: &str) -> (r: String)
    ensures
        r@ == session_cookie_text(token@),
{
    let c = concat("ib_session=", token);
    let c = concat(c.as_str(), "; Path=/; HttpOnly; SameSite=Lax; Secure; Max-Age=");
    concat(c.as_str(), int_to_text(SESSION_MAX_AGE).as_str())
}

/// The `Set-Cookie` value that ends a session.
pub fn cleared_session_cookie() -> (r: String)
    ensures
        r@ == "ib_session=; Path=/; HttpOnly; SameSite=Lax; Secure; Max-Age=0"@,
{
    String::from_str("ib_session=; Path=/; HttpOnly; SameSite=Lax; Secure; Max-Age=0")
}

/// A database error with this extended code is a unique-index conflict
/// (`SQLITE_CONSTRAINT_UNIQUE`).
pub fn is_unique_violation(extended_code: Option<i32>) -> (r: bool)
    ensures
        r == (extended_code == Some(2067i32)),
{
    match extended_code {
        Some(code) => code == 2067,
        None => false,
    }
}

/// A fresh verification token is only minted for an address not yet verified.
pub fn needs_verification(email_verified: i64) -> (r: bool)
    ensures
        r == (email_verified != 1),
{
    email_verified != 1
}

/// The authenticated user of a session.
pub struct CurrentUser {
    pub user_id: String,
    pub email: String,
    pub email_verified: bool,
}

/// The user of a session row; the flag is verified only when it is 1.
pub fn current_user(user_id: String, email: String, verified: i64) -> (r: CurrentUser)
    ensures
        r.user_id == user_id,
        r.email == email,
        r.email_verified == (verified == 1),
{
    CurrentUser { user_id, email, email_verified: verified == 1 }
}

proof fn lemma_split_without_separator(s: Seq<char>, sep: char)
    requires
        !s.contains(sep),
    ensures
        split_on(s, sep) == seq![s],
    decreases s.len(),
{
    if s.len() > 0 {
        assert(!s.drop_last().contains(sep)) by {
            if s.drop_last().contains(sep) {
                let k = choose|k: int| 0 <= k < s.drop_last().len() && s.drop_last()[k] == sep;
                assert(s[k] == sep);
            }
        }
        lemma_split_without_separator(s.drop_last(), sep);
        assert(s.last() != sep) by {
            assert(s[s.len() - 1] == s.last());
        }
        assert(s.drop_last().push(s.last()) =~= s);
        assert(split_on(s, sep) =~= seq![s]);
    } else {
        assert(s =~= Seq::<char>::empty());
        assert(split_on(s, sep) =~= seq![s]);
    }
}

/// The session a server opens is recognised when the browser sends its
/// cookie back: a `Cookie` header holding only `ib_session=<token>` yields
/// the token, for a token without `;` that does not end in white space.
pub proof fn lemma_session_cookie_is_read_back(token: Seq<char>)
    requires
        !token.contains(';'),
        token.len() > 0 ==> !is_white_space(token.last()),
    ensures
        session_token_spec(Some("ib_session="@ + token)) == Some(token),
{
    reveal_strlit("ib_session=");
    reveal_strlit("ib_session");
    let h = "ib_session="@ + token;
    assert(trimmed_start(h) == h);
    assert(h.last() == if token.len() > 0 {
        token.last()
    } else {
        '='
    });
    assert(trimmed_end(h) == h);
    assert(!h.contains(';')) by {
        if h.contains(';') {
            let k = choose|k: int| 0 <= k < h.len() && h[k] == ';';
            if k >= 11 {
                assert(token[k - 11] == ';');
            }
        }
    }
    lemma_split_without_separator(h, ';');
    assert(forall|j: int| 0 <= j < 10 ==> h[j] != '=');
    lemma_first_index_of(h, '=', 10);
    assert(h.take(10) =~= "ib_session"@);
    assert(h.skip(11) =~= token);
    assert(h[10] == '=');
    assert(session_value(h) == Some(token));
    assert(seq![h][0] == h);
    assert(first_session(seq![h]) == Some(token));
}

/// Every token the server issues is read back from its cookie: a
/// hyphenated UUID holds no `;` and ends in a hexadecimal digit.
pub proof fn lemma_issued_token_is_read_back(token: Seq<char>)
    requires
        is_hyphenated_uuid(token),
    ensures
        session_token_spec(Some("ib_session="@ + token)) == Some(token),
{
    assert(!token.contains(';')) by {
        if token.contains(';') {
            let k = choose|k: int| 0 <= k < token.len() && token[k] == ';';
            assert(token[k] == '-' || is_lower_hex_digit(token[k]));
        }
    }
    assert(is_lower_hex_digit(token[35]));
    lemma_session_cookie_is_read_back(token);
}

/// Where a request for a new verification e-mail stands: each step names
/// the work the caller does next and reports back as a `ResendEvent`.
pub enum ResendStep {
    /// Look up the active user with this address: its ID and verified flag.
    LookUpUser { email: String },
    /// Delete every verification token of the user.
    DeleteTokens { user_id: String, email: String },
    /// Store a fresh verification token for the user.
    StoreToken { user_id: String, email: String },
    /// Find out whether verification e-mail can be sent.
    CheckConfigured { email: String, token: String },
    /// Send the verification e-mail carrying `token` to `email`.
    Send { email: String, token: String },
    /// Answer the request with this status and message.
    Answer { status: u16, message: String },
}

/// What the caller found out doing a step.
pub enum ResendEvent {
    /// The user row (ID and verified flag), if there is one.
    UserRow(Option<(String, i64)>),
    /// The old tokens were deleted.
    TokensDeleted,
    /// The fresh token that was stored.
    TokenStored(String),
    /// Whether verification e-mail is configured.
    Configured(bool),
    /// Whether the e-mail went out.
    Sent(bool),
    /// The store failed.
    DbError(String),
    /// The worker running the step did not finish.
    TaskFailed,
}

pub enum ResendStepView {
    LookUpUser { email: Seq<char> },
    DeleteTokens { user_id: Seq<char>, email: Seq<char> },
    StoreToken { user_id: Seq<char>, email: Seq<char> },
    CheckConfigured { email: Seq<char>, token: Seq<char> },
    Send { email: Seq<char>, token: Seq<char> },
    Answer { status: u16, message: Seq<char> },
}

pub enum ResendEventView {
    UserRow(Option<(Seq<char>, i64)>),
    TokensDeleted,
    TokenStored(Seq<char>),
    Configured(bool),
    Sent(bool),
    DbError(Seq<char>),
    TaskFailed,
}

impl View for ResendStep {
    type V = ResendStepView;

    open spec fn view(&self) -> ResendStepView {
        match self {
            ResendStep::LookUpUser { email } => ResendStepView::LookUpUser { email: email@ },
            ResendStep::DeleteTokens { user_id, email } => ResendStepView::DeleteTokens {
                user_id: user_id@,
                email: email@,
            },
            ResendStep::StoreToken { user_id, email } => ResendStepView::StoreToken {
                user_id: user_id@,
                email: email@,
            },
            ResendStep::CheckConfigured { email, token } => ResendStepView::CheckConfigured {
                email: email@,
                token: token@,
            },
            ResendStep::Send { email, token } => ResendStepView::Send {
                email: email@,
                token: token@,
            },
            ResendStep::Answer { status, message } => ResendStepView::Answer {
                status: *status,
                message: message@,
            },
        }
    }
}

impl View for ResendEvent {
    type V = ResendEventView;

    open spec fn view(&self) -> ResendEventView {
        match self {
            ResendEvent::UserRow(row) => ResendEventView::UserRow(
                match row {
                    Some(r) => Some((r.0@, r.1)),
                    None => None,
                },
            ),
            ResendEvent::TokensDeleted => ResendEventView::TokensDeleted,
            ResendEvent::TokenStored(t) => ResendEventView::TokenStored(t@),
            ResendEvent::Configured(c) => ResendEventView::Configured(*c),
            ResendEvent::Sent(b) => ResendEventView::Sent(*b),
            ResendEvent::DbError(e) => ResendEventView::DbError(e@),
            ResendEvent::TaskFailed => ResendEventView::TaskFailed,
        }
    }
}

/// The generic success: what every address gets that is not refused.
pub open spec fn resend_ok() -> ResendStepView {
    ResendStepView::Answer { status: 200, message: "ok"@ }
}

pub open spec fn resend_internal_error() -> ResendStepView {
    ResendStepView::Answer { status: 500, message: "internal server error"@ }
}

/// The first step of a resend request: a malformed address is refused with
/// 400; otherwise its user is looked up under the normalized address.
pub open spec fn resend_start(raw_email: Seq<char>) -> ResendStepView {
    if is_valid_email(normalized_email(raw_email)) {
        ResendStepView::LookUpUser { email: normalized_email(raw_email) }
    } else {
        ResendStepView::Answer { status: 400, message: "invalid email"@ }
    }
}

/// One move of a resend request on what the caller found out. Unknown
/// addresses, verified accounts and a failing store all get the generic
/// success, so the answer shows nothing of the account; an unverified user's
/// old tokens are deleted before a fresh one is stored; the e-mail goes out
/// only when it is configured (else 503), and a failed send is 502.
pub open spec fn resend_next(step: ResendStepView, event: ResendEventView) -> ResendStepView {
    match (step, event) {
        (ResendStepView::Answer { status, message }, _) => ResendStepView::Answer {
            status,
            message,
        },
        (_, ResendEventView::TaskFailed) => resend_internal_error(),
        (ResendStepView::LookUpUser { email }, ResendEventView::UserRow(row)) => match row {
            Some(r) => if r.1 != 1 {
                ResendStepView::DeleteTokens { user_id: r.0, email }
            } else {
                resend_ok()
            },
            None => resend_ok(),
        },
        (ResendStepView::LookUpUser { .. }, ResendEventView::DbError(_)) => resend_ok(),
        (ResendStepView::DeleteTokens { user_id, email }, ResendEventView::TokensDeleted) =>
            ResendStepView::StoreToken { user_id, email },
        (ResendStepView::DeleteTokens { user_id, email }, ResendEventView::DbError(_)) =>
            ResendStepView::StoreToken { user_id, email },
        (ResendStepView::StoreToken { email, .. }, ResendEventView::TokenStored(token)) =>
            ResendStepView::CheckConfigured { email, token },
        (ResendStepView::StoreToken { .. }, ResendEventView::DbError(_)) => resend_ok(),
        (ResendStepView::CheckConfigured { email, token }, ResendEventView::Configured(c)) =>
            if c {
            ResendStepView::Send { email, token }
        } else {
            ResendStepView::Answer { status: 503, message: "verification email is not configured"@ }
        },
        (ResendStepView::Send { .. }, ResendEventView::Sent(sent)) => if sent {
            resend_ok()
        } else {
            ResendStepView::Answer { status: 502, message: "could not send verification email"@ }
        },
        _ => resend_internal_error(),
    }
}

/// The first step of a resend request for `raw_email`.
pub fn start_resend(raw_email: &str) -> (r: ResendStep)
    ensures
        r@ == resend_start(raw_email@),
{
    match normalize_email(raw_email) {
        Ok(email) => ResendStep::LookUpUser { email },
        Err(m) => ResendStep::Answer { status: 400, message: String::from_str(m) },
    }
}

fn resend_answer(status: u16, message: &str) -> (r: ResendStep)
    ensures
        r@ == (ResendStepView::Answer { status, message: message@ }),
{
    ResendStep::Answer { status, message: String::from_str(message) }
}

/// Moves a resend request on what the caller found out doing its step.
pub fn advance_resend(step: ResendStep, event: ResendEvent) -> (r: ResendStep)
    ensures
        r@ == resend_next(step@, event@),
{
    match step {
        ResendStep::Answer { status, message } => ResendStep::Answer { status, message },
        ResendStep::LookUpUser { email } => match event {
            ResendEvent::UserRow(row) => match row {
                Some((user_id, verified)) => if needs_verification(verified) {
                    ResendStep::DeleteTokens { user_id, email }
                } else {
                    resend_answer(200, "ok")
                },
                None => resend_answer(200, "ok"),
            },
            ResendEvent::DbError(_) => resend_answer(200, "ok"),
            _ => resend_answer(500, "internal server error"),
        },
        ResendStep::DeleteTokens { user_id, email } => match event {
            ResendEvent::TokensDeleted => ResendStep::StoreToken { user_id, email },
            ResendEvent::DbError(_) => ResendStep::StoreToken { user_id, email },
            _ => resend_answer(500, "internal server error"),
        },
        ResendStep::StoreToken { user_id, email } => match event {
            ResendEvent::TokenStored(token) => ResendStep::CheckConfigured { email, token },
            ResendEvent::DbError(_) => resend_answer(200, "ok"),
            _ => resend_answer(500, "internal server error"),
        },
        ResendStep::CheckConfigured { email, token } => match event {
            ResendEvent::Configured(c) => if c {
                ResendStep::Send { email, token }
            } else {
                resend_answer(503, "verification email is not configured")
            },
            _ => resend_answer(500, "internal server error"),
        },
        ResendStep::Send { email, token } => match event {
            ResendEvent::Sent(sent) => if sent {
                resend_answer(200, "ok")
            } else {
                resend_answer(502, "could not send verification email")
            },
            _ => resend_answer(500, "internal server error"),
        },
    }
}

/// A resend request shows nothing of the account: an unknown address, an
/// already verified account, a failing store and a verification e-mail
/// that went out all get the same answer, and the first three send nothing.
pub proof fn lemma_resend_hides_account_state(
    email: Seq<char>,
    user_id: Seq<char>,
    error: Seq<char>,
    token: Seq<char>,
)
    ensures
        resend_next(
            ResendStepView::LookUpUser { email },
            ResendEventView::UserRow(None),
        ) == resend_ok(),
        resend_next(
            ResendStepView::LookUpUser { email },
            ResendEventView::UserRow(Some((user_id, 1))),
        ) == resend_ok(),
        resend_next(
            ResendStepView::LookUpUser { email },
            ResendEventView::DbError(error),
        ) == resend_ok(),
        resend_next(
            ResendStepView::StoreToken { user_id, email },
            ResendEventView::DbError(error),
        ) == resend_ok(),
        resend_next(
            ResendStepView::Send { email, token },
            ResendEventView::Sent(true),
        ) == resend_ok(),
        forall|e: ResendEventView| resend_next(resend_ok(), e) == resend_ok(),
{
}

/// One outstanding token per user: a token is stored only for an
/// unverified user, right after all of that user's tokens were deleted.
pub proof fn lemma_resend_replaces_old_tokens(step: ResendStepView, event: ResendEventView)
    ensures
        resend_next(step, event) is StoreToken ==> step == (ResendStepView::DeleteTokens {
            user_id: resend_next(step, event)->StoreToken_user_id,
            email: resend_next(step, event)->StoreToken_email,
        }),
        resend_next(step, event) is DeleteTokens ==> (step == (ResendStepView::LookUpUser {
            email: resend_next(step, event)->DeleteTokens_email,
        }) && (event matches ResendEventView::UserRow(Some(row)) && row.0 == resend_next(
            step,
            event,
        )->DeleteTokens_user_id && row.1 != 1)),
{
}

/// The e-mail goes out only with the token just stored, and only where
/// e-mail is configured.
pub proof fn lemma_resend_sends_only_a_stored_token(step: ResendStepView, event: ResendEventView)
    ensures
        resend_next(step, event) is Send ==> step == (ResendStepView::CheckConfigured {
            email: resend_next(step, event)->Send_email,
            token: resend_next(step, event)->Send_token,
        }) && event == ResendEventView::Configured(true),
        resend_next(step, event) is CheckConfigured ==> step is StoreToken && step->StoreToken_email
            == resend_next(step, event)->CheckConfigured_email && event
            == ResendEventView::TokenStored(resend_next(step, event)->CheckConfigured_token),
{
}

/// The address check, stated by the address's first '@' at `at`: an
/// address is accepted exactly when it holds at most 320 bytes, something
/// stands before that '@', and a '.' stands somewhere after it. Nothing else
/// in the part before the '@' matters: dots, digits and any other character
/// are accepted there.
pub proof fn lemma_valid_email_shape(e: Seq<char>, at: int)
    requires
        0 <= at < e.len(),
        e[at] == '@',
        forall|j: int| 0 <= j < at ==> e[j] != '@',
    ensures
        is_valid_email(e) <==> ((encode_utf8(e).len() as usize) <= 320 && at > 0 && exists|k: int|
            at < k < e.len() && e[k] == '.'),
{
    lemma_first_index_of(e, '@', at);
    let d = e.skip(at + 1);
    if exists|k: int| at < k < e.len() && e[k] == '.' {
        let k = choose|k: int| at < k < e.len() && e[k] == '.';
        assert(d[k - at - 1] == '.');
        assert(d.contains('.'));
    }
    if d.contains('.') {
        let m = choose|m: int| 0 <= m < d.len() && d[m] == '.';
        assert(e[at + 1 + m] == '.');
        assert(at < at + 1 + m < e.len());
    }
}

/// An address without '@' is refused.
pub proof fn lemma_email_needs_an_at(e: Seq<char>)
    requires
        forall|j: int| 0 <= j < e.len() ==> e[j] != '@',
    ensures
        !is_valid_email(e),
{
}

} // verus!
