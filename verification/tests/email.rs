use ib::email::{
    api_key, base_url, from_addr, is_configured, verification_html, verification_link,
    verification_text,
};

#[test]
fn verification_link_appends_token() {
    assert_eq!(
        verification_link(Some("https://example.com/ibkr/"), "abc123"),
        "https://example.com/ibkr/?verify_token=abc123"
    );
}

#[test]
fn verification_bodies_carry_link_and_token() {
    let html = verification_html("https://example.com/?verify_token=t", "t");
    let text = verification_text("https://example.com/?verify_token=t", "t");
    assert!(html.contains("https://example.com/?verify_token=t"));
    assert!(html.contains("<code>t</code>"));
    assert!(text.contains('t'));
}

#[test]
fn settings_are_trimmed_and_defaulted() {
    assert!(!is_configured(None));
    assert!(!is_configured(Some("   ")));
    assert!(is_configured(Some(" key ")));
    assert_eq!(api_key(Some(" key ")), Some("key".to_string()));
    assert_eq!(from_addr(None), "ib <onboarding@resend.dev>");
    assert_eq!(from_addr(Some(" me <a@b.c> ")), "me <a@b.c>");
    assert_eq!(base_url(None), "http://127.0.0.1:8081");
    assert_eq!(base_url(Some(" https://x.org/// ")), "https://x.org");
    assert_eq!(base_url(Some("///")), "http://127.0.0.1:8081");
}

#[test]
fn verification_text_layout() {
    assert_eq!(
        verification_text("L", "T"),
        "欢迎来到 ib 模拟交易平台。请在 24 小时内验证你的邮箱：\nL\n\n如果链接无法点击，把这串验证码粘贴到页面验证横幅中：\nT\n"
    );
}
