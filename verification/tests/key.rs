use skillrefs::key::hash_bytes;
use skillrefs::key::hash_of_name;
use skillrefs::key::key_of_hash;
use skillrefs::key::ref_key;
use skillrefs::key::KEY_LEN;

fn url_safe(c: char) -> bool {
    c.is_ascii_alphanumeric() || c == '-' || c == '_'
}

#[test]
fn key_of_zero_hash() {
    assert_eq!(key_of_hash(0), "AAAAAAAAAAA");
}

#[test]
fn key_of_largest_hash() {
    assert_eq!(key_of_hash(u64::MAX), "__________8");
}

#[test]
fn key_of_counting_hash() {
    assert_eq!(key_of_hash(0x0123_4567_89ab_cdef), "ASNFZ4mrze8");
}

#[test]
fn key_has_no_padding() {
    assert!(!key_of_hash(1).contains('='));
    assert_eq!(key_of_hash(1), "AAAAAAAAAAE");
}

#[test]
fn hash_bytes_are_big_endian() {
    assert_eq!(
        hash_bytes(0x0123_4567_89ab_cdef),
        vec![0x01, 0x23, 0x45, 0x67, 0x89, 0xab, 0xcd, 0xef]
    );
    assert_eq!(hash_bytes(1), vec![0, 0, 0, 0, 0, 0, 0, 1]);
}

#[test]
fn key_is_stable() {
    let name = String::from("alice");
    assert_eq!(ref_key(&name), ref_key(&name));
    assert_eq!(ref_key(&name), ref_key(&String::from("alice")));
}

#[test]
fn key_of_known_names() {
    assert_eq!(ref_key(&String::from("alice")), "AsfBJGbiWmA");
    assert_eq!(ref_key(&String::from("bob")), "1GT4JOVxLFE");
    assert_eq!(ref_key(&String::new()), "MEBupSPFPe8");
}

#[test]
fn hash_of_known_name() {
    assert_eq!(hash_of_name(&String::from("alice")), 0x02c7_c124_66e2_5a60);
    assert_eq!(hash_of_name(&String::from("python")), 0x7950_6cda_22bf_5f6a);
}

#[test]
fn key_depends_on_order() {
    assert_ne!(ref_key(&String::from("ab")), ref_key(&String::from("ba")));
}

#[test]
fn key_is_short_and_url_safe() {
    let names = [
        "",
        "a",
        "alice",
        "a name with spaces",
        "ünïcödé ✓",
        "a/b?c=d&e#f",
        "NOREF",
    ];
    for name in names {
        let key = ref_key(&String::from(name));
        assert_eq!(key.chars().count(), KEY_LEN);
        assert_eq!(key.len(), 11);
        assert!(key.chars().all(url_safe));
    }
}

#[test]
fn key_of_long_name_is_short() {
    let name = "x".repeat(10_000);
    assert_eq!(ref_key(&name).len(), KEY_LEN);
}
