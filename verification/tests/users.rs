use std::collections::HashMap;

use user_auth::{PlainText, User, UserAuthenticator, UserBox, UserTrait, UserVec, UsersMap};

#[test]
fn test_hashmap() {
    let mut map = HashMap::new();
    map.insert(1, "a");
    assert_eq!(map.get(&1), Some(&"a"));
    assert_eq!(map.get(&2), None);

    let mut map = HashMap::new();
    let k = 1.to_string();
    map.insert(k.as_str(), "a");
    assert_eq!(map.get("1"), Some(&"a"));
}

#[test]
fn test_users_map() -> Result<(), Box<dyn std::error::Error>> {
    let up = PlainText::new("u".into(), "p".into());
    let up2 = PlainText::new("u2".into(), "p2".into());

    let mut um: UsersMap<PlainText> = UsersMap::default();
    um.add_user(up);
    um.add_user(up2);

    let o = um.auth_user_by_authstr("plaintext:u");

    if o.is_some() {
        panic!("o.is_some() ");
    }

    let o = um.auth_user_by_authstr("plaintext:u2\np2");

    if o.is_none() {
        panic!("o.is_none()")
    } else {
        Ok(())
    }
}

#[test]
fn auth_string_format() {
    let p = PlainText::new("u".into(), "p".into());
    assert_eq!(p.auth_str(), "plaintext:u\np");
    assert_eq!(p.identity_str(), "u");
    assert_eq!(p.identity_bytes(), "u".as_bytes());
    assert_eq!(UserTrait::auth_bytes(&p), "plaintext:u\np".as_bytes());
}

#[test]
fn validity_checks() {
    let p = PlainText::new("u".into(), "".into());
    assert!(p.valid());
    assert!(!p.password_non_empty());
    let q = PlainText::new("u".into(), "p".into());
    assert!(q.valid());
    assert!(q.password_non_empty());
    let e = PlainText::new("".into(), "p".into());
    assert!(!e.valid());
    assert!(!e.password_non_empty());
}

#[test]
fn default_is_empty() {
    let p = PlainText::default();
    assert_eq!(p.user, "");
    assert_eq!(p.pass, "");
    assert_eq!(p.auth_str(), "");
}

#[test]
fn parse_user_and_pass() {
    let p = PlainText::parse("alice secret");
    assert_eq!(p.user, "alice");
    assert_eq!(p.pass, "secret");
    assert_eq!(p.auth_str(), "plaintext:alice\nsecret");
}

#[test]
fn parse_user_only() {
    let p = PlainText::parse("alice");
    assert_eq!(p.user, "alice");
    assert_eq!(p.pass, "");
}

#[test]
fn parse_empty() {
    let p = PlainText::parse("");
    assert_eq!(p.user, "");
    assert_eq!(p.pass, "");
}

#[test]
fn parse_whitespace_run() {
    let p = PlainText::parse("a \t b");
    assert_eq!(p.user, "a");
    assert_eq!(p.pass, "b");
}

#[test]
fn round_trip_by_both_keys() {
    let mut um: UsersMap<PlainText> = UsersMap::new();
    um.add_user(PlainText::new("alice".into(), "secret".into()));

    let by_id = um.get_user("alice").expect("identity lookup must hit");
    assert_eq!(by_id.identity_str(), "alice");
    assert_eq!(by_id.auth_str(), "plaintext:alice\nsecret");

    let by_auth = um
        .get_user_by_authstr("plaintext:alice\nsecret")
        .expect("auth lookup must hit");
    assert_eq!(by_auth.identity_str(), "alice");
    assert_eq!(UserTrait::auth_str(&*by_auth), "plaintext:alice\nsecret");
}

#[test]
fn removal_cascade() {
    let mut um: UsersMap<PlainText> = UsersMap::new();
    um.add_user(PlainText::new("alice".into(), "secret".into()));
    um.add_user(PlainText::new("bob".into(), "pw".into()));

    um.remove_user("alice");
    assert!(um.get_user("alice").is_none());
    assert!(um.get_user_by_authstr("plaintext:alice\nsecret").is_none());

    assert!(um.get_user("bob").is_some());
    assert!(um.get_user_by_authstr("plaintext:bob\npw").is_some());
}

#[test]
fn remove_unknown_is_noop() {
    let mut um: UsersMap<PlainText> = UsersMap::new();
    um.add_user(PlainText::new("alice".into(), "secret".into()));
    um.remove_user("nobody");
    assert!(um.get_user("alice").is_some());
    assert!(um.get_user_by_authstr("plaintext:alice\nsecret").is_some());
}

#[test]
fn dual_index_consistency_after_sequence() {
    let mut um: UsersMap<PlainText> = UsersMap::new();
    um.add_user(PlainText::new("a".into(), "1".into()));
    um.add_user(PlainText::new("b".into(), "2".into()));
    um.add_user(PlainText::new("c".into(), "3".into()));
    um.remove_user("b");
    um.add_user(PlainText::new("d".into(), "4".into()));
    um.remove_user("a");

    for (id, auth) in [("c", "plaintext:c\n3"), ("d", "plaintext:d\n4")] {
        let u = um.get_user(id).expect("identity must resolve");
        let v = um
            .get_user_by_authstr(u.auth_str())
            .expect("auth of a reachable record must resolve");
        assert_eq!(v.identity_str(), id);
        assert_eq!(v.auth_str(), auth);
    }
    for (id, auth) in [("a", "plaintext:a\n1"), ("b", "plaintext:b\n2")] {
        assert!(um.get_user(id).is_none());
        assert!(um.get_user_by_authstr(auth).is_none());
    }
}

#[test]
fn add_same_identity_replaces_per_key() {
    let mut um: UsersMap<PlainText> = UsersMap::new();
    um.add_user(PlainText::new("u".into(), "p1".into()));
    um.add_user(PlainText::new("u".into(), "p2".into()));

    // last write wins in the identity index
    let got = um.get_user("u").expect("identity must resolve");
    assert_eq!(got.auth_str(), "plaintext:u\np2");

    // each auth key was written once, so the earlier record is still
    // reachable by its auth string: overwriting is per key, per index
    assert!(um.get_user_by_authstr("plaintext:u\np1").is_some());
    assert!(um.get_user_by_authstr("plaintext:u\np2").is_some());

    // removal follows the identity index record's auth string only
    um.remove_user("u");
    assert!(um.get_user("u").is_none());
    assert!(um.get_user_by_authstr("plaintext:u\np2").is_none());
    assert!(um.get_user_by_authstr("plaintext:u\np1").is_some());
}

#[test]
fn authenticate_owned_copy() {
    let mut um: UsersMap<PlainText> = UsersMap::new();
    um.add_user(PlainText::new("u2".into(), "p2".into()));
    let got = um
        .auth_user_by_authstr("plaintext:u2\np2")
        .expect("exact auth string must match");
    assert_eq!(got.identity_str(), "u2");
    assert_eq!(got, PlainText::new("u2".into(), "p2".into()));
}

#[test]
fn record_equality_by_auth_only() {
    let a = PlainText::new("u".into(), "p".into());
    let mut b = PlainText::new("u".into(), "p".into());
    // the auth string is frozen at construction, so rewriting the
    // public identity field leaves the credential fingerprint alone
    b.user = "someone-else".into();
    assert_ne!(a.identity_str(), b.identity_str());
    assert_eq!(a.auth_str(), b.auth_str());
    assert!(UserBox(Box::new(a)) == UserBox(Box::new(b)));
}

#[test]
fn record_hash_by_auth_only() {
    let a = PlainText::new("u".into(), "p".into());
    let mut b = PlainText::new("u".into(), "p".into());
    b.user = "someone-else".into();
    let ba = UserBox(Box::new(a));
    let bb = UserBox(Box::new(b));
    assert_eq!(ba.auth_hash(), bb.auth_hash());

    let bc = UserBox(Box::new(PlainText::new("u".into(), "q".into())));
    assert_ne!(ba.auth_hash(), bc.auth_hash());
}

#[test]
fn record_inequality_by_auth() {
    let a = UserBox(Box::new(PlainText::new("u".into(), "p".into())));
    let b = UserBox(Box::new(PlainText::new("u".into(), "q".into())));
    assert!(a != b);
}

#[test]
fn record_ordering_by_auth() {
    let a = UserBox(Box::new(PlainText::new("a".into(), "p".into())));
    let b = UserBox(Box::new(PlainText::new("b".into(), "p".into())));
    assert_eq!(a.cmp_by_auth(&b), std::cmp::Ordering::Less);
    assert_eq!(b.cmp_by_auth(&a), std::cmp::Ordering::Greater);
    assert_eq!(a.cmp_by_auth(&a.duplicate()), std::cmp::Ordering::Equal);
    assert!(a < b);
}

#[test]
fn collection_order_sensitivity() {
    let a = || UserBox(Box::new(PlainText::new("a".into(), "1".into())));
    let b = || UserBox(Box::new(PlainText::new("b".into(), "2".into())));

    let ab = UserVec(vec![a(), b()]);
    let ba = UserVec(vec![b(), a()]);
    let ab2 = UserVec(vec![a(), b()]);

    assert!(ab == ab2);
    assert!(ab != ba);
    assert_eq!(ab.order_hash(), ab2.order_hash());
    assert_ne!(ab.order_hash(), ba.order_hash());
}

#[test]
fn empty_collections_equal() {
    let x: UserVec<PlainText> = UserVec::default();
    let y: UserVec<PlainText> = UserVec(Vec::new());
    assert!(x == y);
    assert_eq!(x.order_hash(), y.order_hash());
}

#[test]
fn collection_duplicate_equal() {
    let v = UserVec(vec![
        UserBox(Box::new(PlainText::new("a".into(), "1".into()))),
        UserBox(Box::new(PlainText::new("b".into(), "2".into()))),
    ]);
    let w = v.duplicate();
    assert!(v == w);
    assert_eq!(v.order_hash(), w.order_hash());
}

#[test]
fn duplicate_preserves_strings() {
    let p = PlainText::new("alice".into(), "secret".into());
    let d = p.duplicate();
    assert_eq!(d.identity_str(), "alice");
    assert_eq!(UserTrait::auth_str(&d), "plaintext:alice\nsecret");
    assert_eq!(d, p);
}
