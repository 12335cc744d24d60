use acl_engine::email_code::{
    code_mail_subject, format_code, generate_code_html, mail_settings_complete,
    write_code_mail_body, EmaiCodeManager, CODE_WINDOW_MS, MAIL_STYLE,
};

#[test]
fn codes_have_six_digits() {
    assert_eq!(format_code(0), "000000");
    assert_eq!(format_code(7), "000007");
    assert_eq!(format_code(123456), "123456");
    assert_eq!(format_code(999999), "999999");
    assert_eq!(format_code(100000), "100000");
    assert_eq!(format_code(40302), "040302");
    assert_eq!(format_code(1_000_000), "000000");
    assert_eq!(format_code(1_234_567), "234567");
    assert_eq!(format_code(u32::MAX), "967295");
}

#[test]
fn code_is_the_draw_below_a_million() {
    let mut manager = EmaiCodeManager::new();
    assert_eq!(manager.generate_code_with("a@x".to_string(), 1_234_567, 0), "234567");
    assert_eq!(manager.generate_code_with("b@x".to_string(), 4_000_000_001, 0), "000001");
    assert_eq!(manager.generate_code_with("c@x".to_string(), 42, 0), "000042");
}

#[test]
fn code_is_good_within_five_minutes() {
    assert_eq!(CODE_WINDOW_MS, 5 * 60 * 1000);
    let mut manager = EmaiCodeManager::new();
    let code = manager.generate_code_with("a@x".to_string(), 123456, 1_000);
    assert!(!manager.verify_code_at("a@x".to_string(), code.clone(), 1_000 + CODE_WINDOW_MS));
    assert!(manager.verify_code_at("a@x".to_string(), code.clone(), 1_000 + CODE_WINDOW_MS - 1));
}

#[test]
fn code_is_used_once() {
    let mut manager = EmaiCodeManager::new();
    let code = manager.generate_code_with("a@x".to_string(), 123456, 1_000);
    assert!(manager.verify_code_at("a@x".to_string(), code.clone(), 2_000));
    assert!(!manager.verify_code_at("a@x".to_string(), code, 2_000));
}

#[test]
fn wrong_code_or_address_is_refused_and_uses_nothing() {
    let mut manager = EmaiCodeManager::new();
    let code = manager.generate_code_with("a@x".to_string(), 123456, 1_000);
    assert!(!manager.verify_code_at("a@x".to_string(), "654321".to_string(), 2_000));
    assert!(!manager.verify_code_at("b@x".to_string(), code.clone(), 2_000));
    assert!(!manager.verify_code_at("a@x".to_string(), code.clone(), 999));
    assert!(manager.verify_code_at("a@x".to_string(), code, 2_000));
}

#[test]
fn a_new_code_replaces_the_old_one() {
    let mut manager = EmaiCodeManager::new();
    let old = manager.generate_code_with("a@x".to_string(), 111111, 1_000);
    let other = manager.generate_code_with("b@x".to_string(), 333333, 1_000);
    let new = manager.generate_code_with("a@x".to_string(), 222222, 2_000);
    assert!(!manager.verify_code_at("a@x".to_string(), old, 2_500));
    assert!(manager.verify_code_at("a@x".to_string(), new, 2_500));
    assert!(manager.verify_code_at("b@x".to_string(), other, 2_500));
}

#[test]
fn code_with_draw_and_clock() {
    let mut manager = EmaiCodeManager::new();
    let code = manager.generate_code("a@x".to_string());
    assert_eq!(code.len(), 6);
    assert!(code.chars().all(|c| c.is_ascii_digit()));
    assert!(manager.verify_code("a@x".to_string(), code.clone()));
    assert!(!manager.verify_code("a@x".to_string(), code));
}

#[test]
fn mail_settings_must_all_be_there() {
    assert!(mail_settings_complete("name", "smtp.example.org", "me@example.org", "pw"));
    assert!(!mail_settings_complete("", "smtp.example.org", "me@example.org", "pw"));
    assert!(!mail_settings_complete("name", "", "me@example.org", "pw"));
    assert!(!mail_settings_complete("name", "smtp.example.org", "", "pw"));
    assert!(!mail_settings_complete("name", "smtp.example.org", "me@example.org", ""));
}

#[test]
fn mail_subject_names_the_service() {
    assert_eq!(code_mail_subject("联合公社"), "联合公社邮箱验证码");
    assert_eq!(code_mail_subject(""), "邮箱验证码");
}

#[test]
fn mail_body_carries_name_and_code() {
    let body = write_code_mail_body("Service", "042042");
    assert!(body.starts_with("<table width=\"500\" border=\"0\" align=\"center\""));
    assert!(body.contains("<td class=\"dynamic-machine-td\" valign=\"middle\">\n            Service\n            </td>"));
    assert!(body.contains("你的验证码是：042042,请在 5 分钟内进行验证。"));
    assert!(body.ends_with("    </div>\n</table>"));
}

#[test]
fn mail_page_frames_the_body() {
    let page = generate_code_html("Service", "042042");
    let body = write_code_mail_body("Service", "042042");
    assert_ne!(page, body);
    assert!(page.starts_with("<!DOCTYPE html>"));
    assert!(page.contains(&format!("<div class=\"outer-div\">{}</div>", body)));
    assert!(page.contains(&format!("<style>{}</style>", MAIL_STYLE)));
}
