use lycan::auth_tokens::{generate_token, Action, Scope, TokenStore};
use lycan::digest::sha256_hex;
use std::collections::HashSet;

#[test]
fn scope_admin_allows_everything() {
    let s = Scope::Admin;
    assert!(s.allows(&Action::AdminGlobal));
    assert!(s.allows(&Action::TenantOp { tenant: "x" }));
    assert!(s.allows(&Action::CapsuleDecide { tenant: "x", job: "j", capsule: "c" }));
    assert!(s.allows(&Action::CapsuleMutate { tenant: "x", job: "j", capsule: "c" }));
}

#[test]
fn scope_tenant_admin_is_tenant_scoped() {
    let s = Scope::TenantAdmin { tenant: "acme".into() };
    assert!(s.allows(&Action::TenantOp { tenant: "acme" }));
    assert!(s.allows(&Action::CapsuleMutate { tenant: "acme", job: "j", capsule: "c" }));
    assert!(!s.allows(&Action::TenantOp { tenant: "other" }));
    assert!(!s.allows(&Action::AdminGlobal));
}

#[test]
fn scope_read_only_allows_decide_and_read() {
    let s = Scope::Read { tenant: "t".into(), job: "j".into(), capsule: "c".into() };
    assert!(s.allows(&Action::CapsuleDecide { tenant: "t", job: "j", capsule: "c" }));
    assert!(s.allows(&Action::CapsuleRead   { tenant: "t", job: "j", capsule: "c" }));
    assert!(!s.allows(&Action::CapsuleMutate { tenant: "t", job: "j", capsule: "c" }));
    assert!(!s.allows(&Action::CapsuleDecide { tenant: "t", job: "j", capsule: "other" }));
    assert!(!s.allows(&Action::AdminGlobal));
}

fn now() -> u64 {
    std::time::SystemTime::now()
        .duration_since(std::time::UNIX_EPOCH)
        .unwrap()
        .as_secs()
}

#[test]
fn token_issue_lookup_roundtrip() {
    let mut store = TokenStore::load_or_init("/store", None);
    let (raw, hash) = store.issue(Scope::Admin, None, "test".into(), now()).unwrap();
    assert_eq!(raw.len(), 64);
    assert_eq!(hash.len(), 64);
    let rec = store.lookup(&raw, now()).unwrap();
    assert!(matches!(rec.scope, Scope::Admin));
}

#[test]
fn token_revoke_removes_lookup() {
    let mut store = TokenStore::load_or_init("/store", None);
    let (raw, hash) = store.issue(Scope::Admin, None, "test".into(), now()).unwrap();
    assert!(store.lookup(&raw, now()).is_some());
    let removed = store.revoke(&hash);
    assert!(removed);
    assert!(store.lookup(&raw, now()).is_none());
    assert!(!store.revoke(&hash));
}

#[test]
fn token_expires_after_ttl() {
    let mut store = TokenStore::load_or_init("/store", None);
    let (raw, _) = store.issue(Scope::Admin, Some(60), "short".into(), 1000).unwrap();
    // Inside the TTL.
    assert!(store.lookup(&raw, 1030).is_some());
    // Past the TTL.
    assert!(store.lookup(&raw, 1100).is_none());
    assert!(store.lookup(&raw, 1059).is_some());
    assert!(store.lookup(&raw, 1060).is_none());
}

#[test]
fn token_store_persists_across_reload() {
    let mut s = TokenStore::load_or_init("/store", None);
    let (raw, _) = s
        .issue(Scope::TenantAdmin { tenant: "acme".into() }, None, "team".into(), now())
        .unwrap();
    let reopened = TokenStore::load_or_init("/store", Some(s.tokens));
    let rec = reopened.lookup(&raw, now()).unwrap();
    assert_eq!(rec.label, "team");
    assert!(matches!(&rec.scope, Scope::TenantAdmin { tenant } if tenant == "acme"));
}

#[test]
fn token_format_is_64_lowercase_hex() {
    let t = generate_token().unwrap();
    assert_eq!(t.len(), 64, "token must be exactly 64 chars, got {}", t.len());
    for c in t.chars() {
        assert!(
            c.is_ascii_digit() || ('a'..='f').contains(&c),
            "token char {c:?} is not in 0-9a-f"
        );
    }
}

#[test]
fn tokens_are_unique() {
    let n = 1000;
    let set: HashSet<String> = (0..n).map(|_| generate_token().unwrap()).collect();
    assert_eq!(set.len(), n, "expected {n} unique tokens, got {}", set.len());
}

#[test]
fn tokens_have_high_entropy() {
    let n_tokens = 100;
    let total_bytes = n_tokens * 32;
    let expected_mean = total_bytes as f64 / 256.0;
    let mut counts = [0u32; 256];
    for _ in 0..n_tokens {
        let t = generate_token().unwrap();
        let bytes = t.as_bytes();
        for chunk in bytes.chunks(2) {
            let hi = (chunk[0] as char).to_digit(16).unwrap() as u8;
            let lo = (chunk[1] as char).to_digit(16).unwrap() as u8;
            counts[((hi << 4) | lo) as usize] += 1;
        }
    }
    let max = *counts.iter().max().unwrap() as f64;
    assert!(
        max <= expected_mean * 8.0,
        "byte distribution looks non-uniform: max={max}, mean={expected_mean}"
    );
}

#[test]
fn store_lists_what_it_keeps_under_digests() {
    let mut store = TokenStore::load_or_init("/store", None);
    assert_eq!(store.path, "/store/tokens.json");
    let hash = store.keep("secret", Scope::Admin, None, "a".into(), 5);
    assert_eq!(hash, sha256_hex(b"secret"));
    store.keep("other", Scope::Admin, Some(1), "b".into(), 5);
    let list = store.list();
    assert_eq!(list.len(), 2);
    assert!(list.iter().any(|(h, r)| *h == hash && r.label == "a" && r.created_at == 5));
    assert!(store.lookup("secret", u64::MAX).is_some());
    assert!(store.lookup("nothing", 5).is_none());
}

#[test]
fn digest_of_known_text() {
    assert_eq!(
        sha256_hex(b"hello world"),
        "b94d27b9934d3e08a52e52d7da7dabfac484efe37a5380ee9088f7ace2efcde9"
    );
}
