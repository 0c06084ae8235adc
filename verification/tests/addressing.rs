use dokchain::addressing::document_address;
use dokchain::addressing::key_to_bytes;
use dokchain::addressing::organization_address;
use dokchain::addressing::user_account_address;
use dokchain::keys::PublicKey;

fn key(n: u64) -> PublicKey {
    PublicKey { w0: n, w1: 0, w2: 0, w3: 0 }
}

fn program_id() -> Vec<u8> {
    vec![7u8; 32]
}

#[test]
fn key_bytes_are_little_endian_words() {
    let k = PublicKey { w0: 0x0102030405060708, w1: 1, w2: 2, w3: 0xff00000000000000 };
    let b = key_to_bytes(&k);
    assert_eq!(b.len(), 32);
    assert_eq!(&b[0..8], &[8, 7, 6, 5, 4, 3, 2, 1]);
    assert_eq!(&b[8..16], &[1, 0, 0, 0, 0, 0, 0, 0]);
    assert_eq!(&b[24..32], &[0, 0, 0, 0, 0, 0, 0, 0xff]);
}

#[test]
fn organization_address_is_deterministic() {
    let pid = program_id();
    let a = key(1);
    let r1 = organization_address(&pid, &a).unwrap();
    let r2 = organization_address(&pid, &a).unwrap();
    assert_eq!(r1, r2);
    assert_eq!(r1.0.len(), 32);
}

#[test]
fn organization_address_depends_on_authority() {
    let pid = program_id();
    let r1 = organization_address(&pid, &key(1)).unwrap();
    let r2 = organization_address(&pid, &key(2)).unwrap();
    assert_ne!(r1.0, r2.0);
    // and the address is not the program id or the key handed back
    assert_ne!(r1.0, pid);
    assert_ne!(r1.0, key_to_bytes(&key(1)));
}

#[test]
fn namespaces_separate_addresses() {
    let pid = program_id();
    let k = key(1);
    let org = organization_address(&pid, &k).unwrap();
    let user = user_account_address(&pid, &k).unwrap();
    assert_ne!(org.0, user.0);
}

#[test]
fn document_address_is_deterministic_and_keyed() {
    let pid = program_id();
    let org = organization_address(&pid, &key(1)).unwrap();
    let d1 = document_address(&pid, &org.0, &key(2), "Qm123").unwrap();
    let d2 = document_address(&pid, &org.0, &key(2), "Qm123").unwrap();
    assert_eq!(d1, d2);
    assert_eq!(d1.0.len(), 32);
    let other_user = document_address(&pid, &org.0, &key(3), "Qm123").unwrap();
    assert_ne!(d1.0, other_user.0);
    let other_hash = document_address(&pid, &org.0, &key(2), "Qm124").unwrap();
    assert_ne!(d1.0, other_hash.0);
}

#[test]
fn document_address_refuses_over_long_seed() {
    // the platform caps one seed at 32 bytes, so a locator longer than that
    // cannot be derived into an address
    let pid = program_id();
    let org = organization_address(&pid, &key(1)).unwrap();
    let long_hash = "h".repeat(33);
    assert!(document_address(&pid, &org.0, &key(2), &long_hash).is_none());
}
