use mini_ci::text::{is_blank, rfind_char, str_contains, str_ends_with, str_starts_with, u32_to_string};
use mini_ci::webhook::{create_webhook_url, push_webhook_create_dto};

#[test]
fn substring_search_finds_needles() {
    assert!(str_contains("rel=\"next\"", "next"));
    assert!(str_contains("next", "next"));
    assert!(str_contains("anything", ""));
    assert!(!str_contains("rel=\"prev\"", "next"));
    assert!(!str_contains("", "next"));
}

#[test]
fn rfind_returns_the_last_occurrence() {
    assert_eq!(rfind_char("refs/heads/mvp", '/'), Some(10));
    assert_eq!(rfind_char("/", '/'), Some(0));
    assert_eq!(rfind_char("mvp", '/'), None);
}

#[test]
fn prefix_and_suffix_tests_work() {
    assert!(str_starts_with("branches:\nrest", "branches:\n"));
    assert!(!str_starts_with("branch", "branches:\n"));
    assert!(str_ends_with("api.git", ".git"));
    assert!(!str_ends_with("api.got", ".git"));
}

#[test]
fn blankness_decides_the_passphrase() {
    assert!(is_blank(""));
    assert!(is_blank(" \t\r\n"));
    assert!(!is_blank(" secret "));
}

#[test]
fn decimal_rendering_is_exact() {
    assert_eq!(u32_to_string(0), "0");
    assert_eq!(u32_to_string(7), "7");
    assert_eq!(u32_to_string(10), "10");
    assert_eq!(u32_to_string(100), "100");
    assert_eq!(u32_to_string(4294967295), "4294967295");
}

#[test]
fn webhook_url_and_payload_are_built_exactly() {
    assert_eq!(
        create_webhook_url(&"romqu".to_string(), &"schimmelhof-api".to_string()),
        "https://api.github.com/repos/romqu/schimmelhof-api/hooks"
    );
    let dto = push_webhook_create_dto("https://ci.example.org/api/v1/events/push".to_string());
    assert_eq!(dto.name, "web");
    assert!(dto.active);
    assert_eq!(dto.events, vec!["push".to_string()]);
    assert_eq!(dto.config.content_type, "json");
    assert_eq!(dto.config.insecure_ssl, "0");
    assert_eq!(dto.config.url, "https://ci.example.org/api/v1/events/push");
}
