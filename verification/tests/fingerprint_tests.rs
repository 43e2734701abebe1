use sha2::Digest;
use device_agent::errors::IdentityError;
use device_agent::fingerprint::{
    bytes_to_hex, fallback_fingerprint, generate_fingerprint, join_components,
};

fn to_hex(bytes: &[u8]) -> String {
    let mut s = String::new();
    for b in bytes {
        s += &format!("{:02x}", b);
    }
    s
}

#[test]
fn test_fingerprint_generation() {
    let components = vec![
        "hw_uuid:564D9214-52B7-4C55-A966-21A982A6AE4F".to_string(),
        "serial:C02ABC123DEF".to_string(),
        "mac:aa:bb:cc:dd:ee:ff".to_string(),
    ];
    let fingerprint = generate_fingerprint(&components);
    assert!(fingerprint.is_ok(), "Fingerprint generation should succeed");

    let fp = fingerprint.unwrap();
    assert_eq!(fp.len(), 64, "SHA256 hash should be 64 hex characters");

    // Fingerprint should be deterministic
    let fp2 = generate_fingerprint(&components).unwrap();
    assert_eq!(fp, fp2, "Fingerprint should be stable across calls");
}

#[test]
fn fingerprint_of_single_component_is_sha256_of_it() {
    // SHA-256 of "abc" is the classic test vector.
    let components = vec!["abc".to_string()];
    let fp = generate_fingerprint(&components).unwrap();
    assert_eq!(
        fp,
        "ba7816bf8f01cfea414140de5dae2223b00361a396177a9cb410ff61f20015ad"
    );
}

#[test]
fn fingerprint_matches_direct_hash_of_joined_components() {
    let components = vec![
        "machine_id:abcdef".to_string(),
        "product_uuid:1234".to_string(),
        "mac:eth0:aa:bb".to_string(),
    ];
    let joined = join_components(&components);
    assert_eq!(joined, "machine_id:abcdef|product_uuid:1234|mac:eth0:aa:bb");
    let digest = sha2::Sha256::digest(joined.as_bytes());
    let expected = to_hex(&digest);
    let fp = generate_fingerprint(&components).unwrap();
    assert_eq!(fp, expected);
}

#[test]
fn fingerprint_fails_with_no_identifiers() {
    let components: Vec<String> = Vec::new();
    let r = generate_fingerprint(&components);
    assert!(matches!(r, Err(IdentityError::NoIdentifiers)));
}

#[test]
fn fingerprint_changes_when_a_component_changes() {
    let a = vec!["hw_uuid:AAA".to_string(), "mac:aa:bb".to_string()];
    let b = vec!["hw_uuid:AAB".to_string(), "mac:aa:bb".to_string()];
    assert_ne!(
        generate_fingerprint(&a).unwrap(),
        generate_fingerprint(&b).unwrap()
    );
}

#[test]
fn bytes_to_hex_renders_lowercase_pairs() {
    let bytes = vec![0x00u8, 0x0f, 0xa5, 0xff];
    assert_eq!(bytes_to_hex(&bytes), "000fa5ff");
}

#[test]
fn join_components_empty_and_single() {
    let none: Vec<String> = Vec::new();
    assert_eq!(join_components(&none), "");
    let one = vec!["only".to_string()];
    assert_eq!(join_components(&one), "only");
}

#[test]
fn fallback_fingerprint_hashes_prefixed_hostname() {
    let digest = sha2::Sha256::digest("fallback_myhost".as_bytes());
    let expected = to_hex(&digest);
    assert_eq!(fallback_fingerprint("myhost"), expected);
    assert_eq!(fallback_fingerprint("myhost").len(), 64);
}
