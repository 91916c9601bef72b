//! Verification e-mail settings and texts. The settings are read from the
//! environment by the caller and handed in as they were found there.

use crate::text::{concat, trim, trimmed};
use vstd::prelude::*;
use vstd::string::*;

verus! {

/// The API key of the e-mail provider: the setting trimmed, when not empty.
pub open spec fn configured_key(raw: Option<Seq<char>>) -> Option<Seq<char>> {
    match raw {
        Some(k) => if trimmed(k).len() > 0 {
            Some(trimmed(k))
        } else {
            None
        },
        None => None,
    }
}

pub open spec fn view_of(raw: Option<&str>) -> Option<Seq<char>> {
    match raw {
        Some(s) => Some(s@),
        None => None,
    }
}

/// The provider API key from its setting (`RESEND_API_KEY`).
pub fn api_key(raw: Option<&str>) -> (r: Option<String>)
    ensures
        match r {
            Some(k) => configured_key(view_of(raw)) == Some(k@),
            None => configured_key(view_of(raw)) is None,
        },
{
    match raw {
        Some(k) => {
            let t = trim(k);
            if t.is_empty() {
                None
            } else {
                Some(String::from_str(t))
            }
        },
        None => None,
    }
}

/// True when a real send can be attempted: an API key is set.
pub fn is_configured(raw: Option<&str>) -> (r: bool)
    ensures
        r == configured_key(view_of(raw)) is Some,
{
    api_key(raw).is_some()
}

pub open spec fn default_sender() -> Seq<char> {
    "ib <onboarding@resend.dev>"@
}

/// The sender identity from its setting (`RESEND_FROM`), trimmed; the
/// sandbox sender when unset or blank.
pub fn from_addr(raw: Option<&str>) -> (r: String)
    ensures
        r@ == match configured_key(view_of(raw)) {
            Some(f) => f,
            None => default_sender(),
        },
{
    match api_key(raw) {
        Some(f) => f,
        None => String::from_str("ib <onboarding@resend.dev>"),
    }
}

/// The text without any trailing `c`.
pub open spec fn strip_trailing(s: Seq<char>, c: char) -> Seq<char>
    decreases s.len(),
{
    if s.len() > 0 && s.last() == c {
        strip_trailing(s.drop_last(), c)
    } else {
        s
    }
}

pub open spec fn default_base_url() -> Seq<char> {
    "http://127.0.0.1:8081"@
}

/// The public origin of the app from its setting (`APP_BASE_URL`): trimmed,
/// trailing slashes removed; the local address when that leaves nothing.
pub open spec fn base_url_spec(raw: Option<Seq<char>>) -> Seq<char> {
    match raw {
        Some(u) => if strip_trailing(trimmed(u), '/').len() > 0 {
            strip_trailing(trimmed(u), '/')
        } else {
            default_base_url()
        },
        None => default_base_url(),
    }
}

fn without_trailing_slashes(s: &str) -> (r: &str)
    ensures
        r@ == strip_trailing(s@, '/'),
{
    let mut k = s.unicode_len();
    proof {
        assert(s@.take(k as int) =~= s@);
    }
    while k > 0 && s.get_char(k - 1) == '/'
        invariant
            k <= s@.len(),
            strip_trailing(s@, '/') == strip_trailing(s@.take(k as int), '/'),
        decreases k,
    {
        proof {
            assert(s@.take(k as int).drop_last() =~= s@.take(k - 1));
        }
        k = k - 1;
    }
    s.substring_char(0, k)
}

/// The public origin of the app.
pub fn base_url(raw: Option<&str>) -> (r: String)
    ensures
        r@ == base_url_spec(view_of(raw)),
{
    match raw {
        Some(u) => {
            let stripped = without_trailing_slashes(trim(u));
            if stripped.is_empty() {
                String::from_str("http://127.0.0.1:8081")
            } else {
                String::from_str(stripped)
            }
        },
        None => String::from_str("http://127.0.0.1:8081"),
    }
}

pub open spec fn verification_link_text(base: Seq<char>, token: Seq<char>) -> Seq<char> {
    base + "/?verify_token="@ + token
}

/// The verification link mailed to the user; the front end reads
/// `verify_token` from it.
pub fn verification_link(base_url_setting: Option<&str>, token: &str) -> (r: String)
    ensures
        r@ == verification_link_text(base_url_spec(view_of(base_url_setting)), token@),
{
    let base = base_url(base_url_setting);
    let l = concat(base.as_str(), "/?verify_token=");
    concat(l.as_str(), token)
}

pub open spec fn verification_html_text(link: Seq<char>, token: Seq<char>) -> Seq<char> {
    "<p>欢迎来到 ib 模拟交易平台。请在 24 小时内验证你的邮箱：</p><p><a href=\""@ + link
        + "\">验证邮箱</a></p><p>如果按钮无法点击，把下面这串验证码粘贴到页面验证横幅中：</p><p><code>"@
        + token + "</code></p><p>这是模拟交易服务，不会发送真实订单。</p>"@
}

/// The HTML body of a verification e-mail: the link, and the token for
/// pasting by hand.
pub fn verification_html(link: &str, token: &str) -> (r: String)
    ensures
        r@ == verification_html_text(link@, token@),
{
    let a = concat("<p>欢迎来到 ib 模拟交易平台。请在 24 小时内验证你的邮箱：</p><p><a href=\"", link);
    let b = concat(
        a.as_str(),
        "\">验证邮箱</a></p><p>如果按钮无法点击，把下面这串验证码粘贴到页面验证横幅中：</p><p><code>",
    );
    let c = concat(b.as_str(), token);
    concat(c.as_str(), "</code></p><p>这是模拟交易服务，不会发送真实订单。</p>")
}

pub open spec fn verification_plain_text(link: Seq<char>, token: Seq<char>) -> Seq<char> {
    "欢迎来到 ib 模拟交易平台。请在 24 小时内验证你的邮箱：\n"@ + link
        + "\n\n如果链接无法点击，把这串验证码粘贴到页面验证横幅中：\n"@ + token + "\n"@
}

/// The plain-text body of a verification e-mail.
pub fn verification_text(link: &str, token: &str) -> (r: String)
    ensures
        r@ == verification_plain_text(link@, token@),
{
    let a = concat("欢迎来到 ib 模拟交易平台。请在 24 小时内验证你的邮箱：\n", link);
    let b = concat(a.as_str(), "\n\n如果链接无法点击，把这串验证码粘贴到页面验证横幅中：\n");
    let c = concat(b.as_str(), token);
    concat(c.as_str(), "\n")
}

} // verus!
