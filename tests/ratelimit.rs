use archgw::llm_gateway::Header;
use archgw::ratelimit::{RatelimitRegistry, RatelimitRule};

fn selector(value: &str) -> Header {
    Header { key: "tenant".to_string(), value: value.to_string() }
}

fn registry() -> RatelimitRegistry {
    RatelimitRegistry::new(vec![RatelimitRule {
        model: "gpt-4o".to_string(),
        selector_key: "tenant".to_string(),
        selector_value: Some("A".to_string()),
        tokens: 100,
        window_ns: 1_000_000_000,
    }])
}

#[test]
fn ungoverned_requests_are_admitted() {
    let mut r = registry();
    assert_eq!(r.check_limit("gpt-4o", &selector("B"), 1_000_000, 0), Ok(()));
    assert_eq!(r.check_limit("other", &selector("A"), 1_000_000, 0), Ok(()));
    assert!(r.buckets.is_empty());
}

#[test]
fn bucket_empties_and_refills() {
    let mut r = registry();
    assert_eq!(r.check_limit("gpt-4o", &selector("A"), 60, 0), Ok(()));
    assert!(r.check_limit("gpt-4o", &selector("A"), 60, 0).is_err());
    assert_eq!(r.buckets[0].available, 40);
    assert_eq!(r.check_limit("gpt-4o", &selector("A"), 60, 500_000_000), Ok(()));
    assert_eq!(r.buckets[0].available, 30);
    assert_eq!(r.check_limit("gpt-4o", &selector("A"), 100, 10_000_000_000), Ok(()));
    assert_eq!(r.buckets[0].available, 0);
}
