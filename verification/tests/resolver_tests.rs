use crabcut::resolver::{CreateError, ResolveResponse, Resolver};

fn redirect_target(response: &ResolveResponse) -> Option<&str> {
    match response {
        ResolveResponse::Redirect(url) => Some(url.as_str()),
        _ => None,
    }
}

#[test]
fn create_with_alias_succeeds_once_then_conflicts() {
    let mut resolver = Resolver::new();
    let first = resolver.create("https://example.com/a", "abc123", 1);
    assert_eq!(first.unwrap(), "abc123");
    let second = resolver.create("https://other.example/b", "abc123", 2);
    assert_eq!(second.unwrap_err(), CreateError::Conflict);
    let same_url_again = resolver.create("https://example.com/a", "abc123", 3);
    assert_eq!(same_url_again.unwrap_err(), CreateError::Conflict);
}

#[test]
fn overlong_alias_is_rejected_as_invalid_alias() {
    let mut resolver = Resolver::new();
    let e = resolver.create("https://example.com/a", "abcdefghij1234567", 1).unwrap_err();
    assert_eq!(e, CreateError::InvalidAlias);
    assert_eq!(e.status_code(), 400);
    assert_eq!(e.message(), "Invalid alias");
}

#[test]
fn alias_with_forbidden_character_is_rejected_as_invalid_alias() {
    let mut resolver = Resolver::new();
    for alias in ["abc-123", "abc 123", "a/b", "caf\u{e9}"] {
        let r = resolver.create("https://example.com/a", alias, 1);
        assert_eq!(r.unwrap_err(), CreateError::InvalidAlias);
    }
}

#[test]
fn empty_long_url_is_rejected_as_invalid_input() {
    let mut resolver = Resolver::new();
    let r = resolver.create("", "", 1);
    assert_eq!(r.unwrap_err(), CreateError::InvalidInput);
    let blank = resolver.create("   \t\n  ", "ok123", 1);
    assert_eq!(blank.unwrap_err(), CreateError::InvalidInput);
    assert_eq!(CreateError::InvalidInput.message(), "Invalid input");
}

#[test]
fn create_without_alias_returns_derived_code() {
    let mut resolver = Resolver::new();
    let code = resolver.create("https://example.com/a", "", 1).unwrap();
    assert_eq!(code, "Lc4KTFBE");
    assert_eq!(code.chars().count(), 8);
    assert!(code.chars().all(|c| c.is_ascii_alphanumeric() || c == '-' || c == '_'));
}

#[test]
fn resubmitting_the_same_url_yields_the_same_code_without_error() {
    let mut resolver = Resolver::new();
    let first = resolver.create("https://example.com/a", "", 1).unwrap();
    let second = resolver.create("https://example.com/a", "", 2).unwrap();
    assert_eq!(first, second);
}

#[test]
fn long_url_is_trimmed_before_hashing_and_storing() {
    let mut resolver = Resolver::new();
    let code = resolver.create("  https://example.com/a \t", "", 1).unwrap();
    assert_eq!(code, "Lc4KTFBE");
    let response = resolver.resolve(&code, None, None, None, 10);
    assert_eq!(redirect_target(&response), Some("https://example.com/a"));
}

#[test]
fn http_mapping_covers_every_outcome() {
    assert_eq!(CreateError::InvalidInput.status_code(), 400);
    assert_eq!(CreateError::InvalidAlias.status_code(), 400);
    assert_eq!(CreateError::Conflict.status_code(), 409);
    assert_eq!(CreateError::Conflict.message(), "Alias already exists");
    assert_eq!(CreateError::StorageFailure.status_code(), 500);
    assert_eq!(CreateError::StorageFailure.message(), "Internal Server Error");
    assert_eq!(ResolveResponse::NotFound.status_code(), 404);
    assert_eq!(ResolveResponse::InternalError.status_code(), 500);
    assert_eq!(ResolveResponse::Redirect(String::from("x")).status_code(), 302);
}

#[test]
fn resolving_unknown_code_is_not_found() {
    let mut resolver = Resolver::new();
    let response = resolver.resolve("missing1", None, None, None, 5);
    assert!(matches!(response, ResolveResponse::NotFound));
    assert_eq!(response.status_code(), 404);
}

#[test]
fn resolving_known_code_redirects_with_stored_location() {
    let mut resolver = Resolver::new();
    resolver.create("https://example.com/a", "abc123", 1).unwrap();
    let response = resolver.resolve("abc123", None, None, None, 10);
    assert_eq!(response.status_code(), 302);
    assert_eq!(redirect_target(&response), Some("https://example.com/a"));
}

#[test]
fn resolution_increments_click_count_and_backfills_cache() {
    let mut resolver = Resolver::new();
    resolver.create("https://example.com/a", "abc123", 1).unwrap();
    assert_eq!(resolver.store.click_count_of("abc123"), Some(0));
    assert_eq!(resolver.cache.expiry_of("abc123"), None);
    resolver.resolve("abc123", None, None, None, 100);
    assert_eq!(resolver.store.click_count_of("abc123"), Some(1));
    assert_eq!(resolver.cache.expiry_of("abc123"), Some(3700));
}

#[test]
fn cache_hit_slides_the_expiry_window() {
    let mut resolver = Resolver::new();
    resolver.create("https://example.com/a", "abc123", 1).unwrap();
    resolver.resolve("abc123", None, None, None, 100);
    assert_eq!(resolver.cache.expiry_of("abc123"), Some(3700));
    resolver.resolve("abc123", None, None, None, 250);
    assert_eq!(resolver.cache.expiry_of("abc123"), Some(3850));
}

#[test]
fn repeated_resolution_never_decreases_clicks_and_keeps_the_url() {
    let mut resolver = Resolver::new();
    resolver.create("https://example.com/a", "abc123", 1).unwrap();
    let mut last_count: u64 = 0;
    for round in 0..5u64 {
        let response = resolver.resolve("abc123", None, None, None, 10 + round);
        assert_eq!(redirect_target(&response), Some("https://example.com/a"));
        let count = resolver.store.click_count_of("abc123").unwrap();
        assert!(count >= last_count);
        last_count = count;
    }
    assert_eq!(last_count, 5);
}

#[test]
fn expired_cache_entry_falls_back_to_storage() {
    let mut resolver = Resolver::new();
    resolver.create("https://example.com/a", "abc123", 1).unwrap();
    resolver.resolve("abc123", None, None, None, 100);
    let response = resolver.resolve("abc123", None, None, None, 5000);
    assert_eq!(redirect_target(&response), Some("https://example.com/a"));
    assert_eq!(resolver.cache.expiry_of("abc123"), Some(8600));
}

#[test]
fn cache_outage_still_resolves_and_creates() {
    let mut resolver = Resolver::new();
    resolver.create("https://example.com/a", "abc123", 1).unwrap();
    resolver.cache.set_available(false);
    let response = resolver.resolve("abc123", None, None, None, 10);
    assert_eq!(response.status_code(), 302);
    assert_eq!(redirect_target(&response), Some("https://example.com/a"));
    assert_eq!(resolver.store.click_count_of("abc123"), Some(1));
    let created = resolver.create("https://example.com/b", "xyz789", 20);
    assert_eq!(created.unwrap(), "xyz789");
    let again = resolver.resolve("xyz789", None, None, None, 30);
    assert_eq!(redirect_target(&again), Some("https://example.com/b"));
}

#[test]
fn resolution_publishes_one_click_event_with_request_metadata() {
    let mut resolver = Resolver::new();
    resolver.create("https://example.com/a", "abc123", 1).unwrap();
    resolver.resolve(
        "abc123",
        Some(String::from("10.0.0.1")),
        Some(String::from("curl/8.0")),
        None,
        10,
    );
    assert_eq!(resolver.publisher.count(), 1);
    assert_eq!(resolver.publisher.published[0].0, "abc123");
    assert_eq!(
        resolver.publisher.published[0].1,
        "{\"short_url\":\"abc123\",\"ip_address\":\"10.0.0.1\",\
         \"user_agent\":\"curl/8.0\",\"referer\":null}"
    );
    resolver.resolve("unknown9", None, None, None, 11);
    assert_eq!(resolver.publisher.count(), 1);
}

#[test]
fn full_scenario_create_then_follow_the_short_link() {
    let mut resolver = Resolver::new();
    let code = resolver.create("https://example.com/a", "", 1).unwrap();
    assert_eq!(code.len(), 8);
    assert!(code.chars().all(|c| c.is_ascii_alphanumeric() || c == '-' || c == '_'));
    let response = resolver.resolve(&code, None, None, None, 2);
    assert_eq!(response.status_code(), 302);
    assert_eq!(redirect_target(&response), Some("https://example.com/a"));
}
