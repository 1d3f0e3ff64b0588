use s3ite::{clamp_max_keys, next_marker, ErrorCode, KeySize, TokenStore};

fn rows(n: usize) -> Vec<KeySize> {
    (0..n)
        .map(|i| KeySize {
            key: format!("k{i:05}"),
            size: i as u64,
            last_modified: "2024-01-01T00:00:00Z".to_string(),
            md5: None,
        })
        .collect()
}

fn keys(rows: &[KeySize]) -> Vec<String> {
    rows.iter().map(|r| r.key.clone()).collect()
}

#[test]
fn max_keys_is_clamped() {
    assert_eq!(clamp_max_keys(None), 1000);
    assert_eq!(clamp_max_keys(Some(-5)), 0);
    assert_eq!(clamp_max_keys(Some(0)), 0);
    assert_eq!(clamp_max_keys(Some(250)), 250);
    assert_eq!(clamp_max_keys(Some(5000)), 1000);
}

#[test]
fn paging_through_2500_keys() {
    let all = rows(2500);
    let expected = keys(&all);
    let mut store = TokenStore::new();
    let first = store.start_listing(all, None, None, 1000, 100).unwrap();
    assert_eq!(first.key_sizes.len(), 1000);
    let token = first.next_continuation_token.clone().unwrap();
    let second = store.continue_listing(&token, 1000, 101).unwrap();
    assert_eq!(second.key_sizes.len(), 1000);
    assert_eq!(second.next_continuation_token.as_deref(), Some(token.as_str()));
    let third = store.continue_listing(&token, 1000, 102).unwrap();
    assert_eq!(third.key_sizes.len(), 500);
    assert!(third.next_continuation_token.is_none());
    let mut seen = keys(&first.key_sizes);
    seen.extend(keys(&second.key_sizes));
    seen.extend(keys(&third.key_sizes));
    assert_eq!(seen, expected);
    let stale = store.continue_listing(&token, 1000, 103).unwrap_err();
    assert_eq!(stale.code(), ErrorCode::InvalidToken);
}

#[test]
fn zero_max_keys_returns_nothing() {
    let mut store = TokenStore::new();
    let page = store.start_listing(rows(3), None, None, 0, 0).unwrap();
    assert!(page.key_sizes.is_empty());
    assert!(page.next_continuation_token.is_some());
    let page = store.start_listing(Vec::new(), None, None, 0, 0).unwrap();
    assert!(page.key_sizes.is_empty());
    assert!(page.next_continuation_token.is_none());
}

#[test]
fn short_listing_is_not_truncated() {
    let mut store = TokenStore::new();
    let page = store.start_listing(rows(3), None, None, 1000, 0).unwrap();
    assert_eq!(page.key_sizes.len(), 3);
    assert!(page.next_continuation_token.is_none());
    assert!(next_marker(&page).is_none());
}

#[test]
fn next_marker_is_last_key_of_truncated_page() {
    let mut store = TokenStore::new();
    let page = store.start_listing(rows(5), None, None, 2, 0).unwrap();
    assert_eq!(next_marker(&page).as_deref(), Some("k00001"));
}

#[test]
fn unknown_token_is_invalid() {
    let mut store = TokenStore::new();
    let err = store.continue_listing("nope", 10, 0).unwrap_err();
    assert_eq!(err.code(), ErrorCode::InvalidToken);
}

#[test]
fn sweep_drops_idle_snapshots() {
    let mut store = TokenStore::new();
    let old = store.start_listing(rows(5), None, None, 1, 0).unwrap().next_continuation_token.unwrap();
    let fresh = store.start_listing(rows(5), None, None, 1, 100).unwrap().next_continuation_token.unwrap();
    store.sweep(120);
    assert_eq!(store.continue_listing(&old, 1, 120).unwrap_err().code(), ErrorCode::InvalidToken);
    assert!(store.continue_listing(&fresh, 1, 120).is_ok());
}

#[test]
fn new_tokens_are_distinct() {
    let mut store = TokenStore::new();
    let a = store.start_listing(rows(3), None, None, 1, 0).unwrap().next_continuation_token.unwrap();
    let b = store.start_listing(rows(3), None, None, 1, 0).unwrap().next_continuation_token.unwrap();
    assert_ne!(a, b);
    assert!(store.holds(&a) && store.holds(&b));
    assert!(!store.holds("missing"));
}
