use anseo_api::rate_limit::{extract_org_id, org_rate_limit, Bucket, RateLimitStore, CAPACITY, NANOS_PER_SEC};

#[test]
fn bucket_allows_up_to_capacity() {
    let mut b = Bucket::new(0);
    for _ in 0..CAPACITY {
        assert!(b.try_consume(0), "should allow up to CAPACITY");
    }
    assert!(!b.try_consume(0), "should deny after capacity exhausted");
}

#[test]
fn store_isolates_orgs() {
    let mut store = RateLimitStore::new();
    let org_a = uuid::Uuid::new_v4().as_u128();
    let org_b = uuid::Uuid::new_v4().as_u128();
    for _ in 0..CAPACITY {
        store.check(org_a, 0);
    }
    let (allowed_a, _) = store.check(org_a, 0);
    assert!(!allowed_a, "org_a should be rate-limited");
    let (allowed_b, _) = store.check(org_b, 0);
    assert!(allowed_b, "org_b should not be affected by org_a's exhaustion");
}

#[test]
fn extract_org_id_from_path() {
    let id = uuid::Uuid::new_v4();
    let path = format!("/v1/orgs/{id}/billing");
    assert_eq!(extract_org_id(&path), Some(id.as_u128()));
}

#[test]
fn extract_org_id_returns_none_for_non_org_paths() {
    assert!(extract_org_id("/v1/projects").is_none());
    assert!(extract_org_id("/v1/health").is_none());
    assert!(extract_org_id("/v1/auth/signup").is_none());
}

#[test]
fn retry_after_is_positive_when_empty() {
    let mut b = Bucket::new(0);
    for _ in 0..CAPACITY {
        b.try_consume(0);
    }
    b.try_consume(0);
    assert!(b.retry_after_secs() >= 1, "retry_after should be at least 1s");
}

#[test]
fn evict_stale_removes_old_buckets() {
    let mut store = RateLimitStore::new();
    let org = uuid::Uuid::new_v4().as_u128();
    store.check(org, 5);
    store.evict_stale(5, 0);
    assert_eq!(store.len(), 0, "stale buckets should be evicted");
}

#[test]
fn bucket_refills_at_twenty_per_second() {
    let mut b = Bucket::new(0);
    for _ in 0..CAPACITY {
        assert!(b.try_consume(0));
    }
    assert!(!b.try_consume(0));
    // One twentieth of a second later one token is back.
    assert!(b.try_consume(NANOS_PER_SEC / 20));
    assert!(!b.try_consume(NANOS_PER_SEC / 20));
}

#[test]
fn org_rate_limit_refuses_the_burst_overflow() {
    let mut store = RateLimitStore::new();
    let id = uuid::Uuid::new_v4();
    let path = format!("/v1/orgs/{id}/billing");
    for _ in 0..CAPACITY {
        assert!(org_rate_limit(&mut store, &path, 0).is_none());
    }
    let refused = org_rate_limit(&mut store, &path, 0).expect("refused");
    assert!(refused.retry_after_secs >= 1);
    // Paths outside an org are never limited.
    assert!(org_rate_limit(&mut store, "/v1/health", 0).is_none());
}
