use argon::auth::{AuthenticatableUser, BasicUser};
use argon::model::{AppConfig, LangField, MultilangField, SimpleResponse};
use argon::response::BaseErrorResponse;

#[test]
fn lang_field_keeps_its_values() {
    let f = LangField::new(String::from("en"), String::from("hello"));
    assert_eq!(f.lang, "en");
    assert_eq!(f.content, "hello");
}

#[test]
fn get_language_finds_the_entry() {
    let m = MultilangField::new(vec![
        LangField::new(String::from("en"), String::from("hello")),
        LangField::new(String::from("de"), String::from("hallo")),
    ]);
    let f = m.get_language("de").expect("the German entry");
    assert_eq!(f.content, "hallo");
}

#[test]
fn get_language_misses_absent_languages() {
    let m = MultilangField::new(vec![LangField::new(
        String::from("en"),
        String::from("hello"),
    )]);
    assert!(m.get_language("fr").is_none());
}

#[test]
fn get_language_returns_the_first_of_duplicates() {
    let m = MultilangField::new(vec![
        LangField::new(String::from("en"), String::from("first")),
        LangField::new(String::from("en"), String::from("second")),
    ]);
    let f = m.get_language("en").expect("an English entry");
    assert_eq!(f.content, "first");
}

#[test]
fn basic_user_exposes_its_fields_through_the_trait() {
    let u = BasicUser::new(7, String::from("ada"), String::from("SECRET-REDACTED"));
    assert_eq!(u.get_id(), 7);
    assert_eq!(u.get_username(), "ada");
    assert_eq!(u.get_password(), "SECRET-REDACTED");
}

#[test]
fn base_error_response_keeps_message_and_detail() {
    let r: BaseErrorResponse<u32> = BaseErrorResponse::new(String::from("missing"), Some(7));
    assert_eq!(r.message, "missing");
    assert_eq!(r.detail, Some(7));
    let bare: BaseErrorResponse<u32> = BaseErrorResponse::new(String::from("missing"), None);
    assert!(bare.detail.is_none());
}

#[test]
fn plain_value_types_hold_their_values() {
    let r = SimpleResponse {
        message: String::from("ok"),
    };
    assert_eq!(r.message, "ok");
    let c = AppConfig {
        port: 3000,
        database_url: String::from("postgres://localhost/app"),
    };
    assert_eq!(c.port, 3000);
    assert_eq!(c.database_url, "postgres://localhost/app");
}
