use password_vault::codec::{decode_credentials, encode_credentials};
use password_vault::credentials::{Credential, Credentials};
use password_vault::error::VaultError;

fn s(x: &str) -> String {
    x.to_string()
}

fn cred(w: &str, e: &str, u: &str, p: &str, n: &str) -> Credential {
    Credential::new(s(w), s(e), s(u), s(p), s(n))
}

#[test]
fn crud_lists_then_removes_website() {
    let mut c = Credentials::new();
    c.add_or_update_credential(cred("example.com", "a@b.com", "u", "p", ""));
    assert_eq!(c.get_websites(), vec![s("example.com")]);
    assert!(c.remove_credential(&s("example.com"), &s("a@b.com")));
    assert!(c.get_websites().is_empty());
    assert_eq!(c.len(), 0);
}

#[test]
fn saving_twice_keeps_one_entry_with_last_fields() {
    let mut c = Credentials::new();
    c.add_or_update_credential(cred("example.com", "a@b.com", "u", "p", ""));
    c.add_or_update_credential(cred("example.com", "a@b.com", "u", "p", ""));
    assert_eq!(c.len(), 1);
    c.add_or_update_credential(cred("example.com", "a@b.com", "u2", "pw2", "notes2"));
    assert_eq!(c.len(), 1);
    let got = c.get_credential(&s("example.com"), &s("a@b.com")).unwrap();
    assert_eq!(got.username, "u2");
    assert_eq!(got.password, "pw2");
    assert_eq!(got.notes, "notes2");
}

#[test]
fn websites_keep_first_insertion_order() {
    let mut c = Credentials::new();
    c.add_or_update_credential(cred("b.org", "x@b.org", "", "", ""));
    c.add_or_update_credential(cred("a.org", "y@a.org", "", "", ""));
    c.add_or_update_credential(cred("b.org", "z@b.org", "", "", ""));
    assert_eq!(c.get_websites(), vec![s("b.org"), s("a.org")]);
    assert_eq!(c.get_emails(&s("b.org")), vec![s("x@b.org"), s("z@b.org")]);
    assert_eq!(c.get_emails(&s("a.org")), vec![s("y@a.org")]);
    assert!(c.get_emails(&s("c.org")).is_empty());
}

#[test]
fn removing_missing_key_is_a_no_op() {
    let mut c = Credentials::new();
    c.add_or_update_credential(cred("a.org", "y@a.org", "", "", ""));
    assert!(!c.remove_credential(&s("a.org"), &s("other@a.org")));
    assert!(!c.remove_credential(&s("b.org"), &s("y@a.org")));
    assert_eq!(c.len(), 1);
}

#[test]
fn removing_one_email_keeps_the_website() {
    let mut c = Credentials::new();
    c.add_or_update_credential(cred("a.org", "1@a.org", "", "", ""));
    c.add_or_update_credential(cred("a.org", "2@a.org", "", "", ""));
    assert!(c.remove_credential(&s("a.org"), &s("1@a.org")));
    assert_eq!(c.get_websites(), vec![s("a.org")]);
    assert_eq!(c.get_emails(&s("a.org")), vec![s("2@a.org")]);
    assert!(c.get_credential(&s("a.org"), &s("1@a.org")).is_none());
}

#[test]
fn empty_set_layout_is_a_zero_count() {
    let c = Credentials::new();
    assert_eq!(encode_credentials(&c), vec![0u8; 8]);
}

#[test]
fn single_credential_layout_is_exact() {
    let mut c = Credentials::new();
    c.add_or_update_credential(cred("ab", "é", "", "x", ""));
    let mut want: Vec<u8> = vec![1, 0, 0, 0, 0, 0, 0, 0];
    want.extend_from_slice(&[2, 0, 0, 0, 0, 0, 0, 0, b'a', b'b']);
    want.extend_from_slice(&[2, 0, 0, 0, 0, 0, 0, 0, 0xC3, 0xA9]);
    want.extend_from_slice(&[0; 8]);
    want.extend_from_slice(&[1, 0, 0, 0, 0, 0, 0, 0, b'x']);
    want.extend_from_slice(&[0; 8]);
    assert_eq!(encode_credentials(&c), want);
}

#[test]
fn layout_round_trips() {
    let mut c = Credentials::new();
    c.add_or_update_credential(cred("example.com", "a@b.com", "u", "p", "notes ✓"));
    c.add_or_update_credential(cred("example.com", "c@d.com", "v", "q", ""));
    c.add_or_update_credential(cred("other.net", "a@b.com", "w", "r", "x"));
    let bytes = encode_credentials(&c);
    let back = decode_credentials(&bytes).ok().unwrap();
    assert_eq!(encode_credentials(&back), bytes);
    assert_eq!(back.len(), 3);
    assert_eq!(back.get_websites(), vec![s("example.com"), s("other.net")]);
    let got = back.get_credential(&s("other.net"), &s("a@b.com")).unwrap();
    assert_eq!(got.username, "w");
    assert_eq!(got.notes, "x");
}

#[test]
fn malformed_layouts_are_rejected() {
    assert_eq!(decode_credentials(&vec![1, 2, 3]).err(), Some(VaultError::SerializationError));
    assert_eq!(
        decode_credentials(&vec![1, 0, 0, 0, 0, 0, 0, 0]).err(),
        Some(VaultError::SerializationError)
    );
    let mut c = Credentials::new();
    c.add_or_update_credential(cred("a", "b", "c", "d", "e"));
    let mut bytes = encode_credentials(&c);
    bytes.push(0);
    assert_eq!(decode_credentials(&bytes).err(), Some(VaultError::SerializationError));
    let mut bad_utf8 = encode_credentials(&c);
    let last = bad_utf8.len() - 1;
    bad_utf8[last] = 0xFF;
    assert_eq!(decode_credentials(&bad_utf8).err(), Some(VaultError::SerializationError));
}

#[test]
fn duplicate_keys_in_a_layout_are_rejected() {
    let mut one = Credentials::new();
    one.add_or_update_credential(cred("a", "b", "c", "d", "e"));
    let single = encode_credentials(&one);
    let mut bytes: Vec<u8> = vec![2, 0, 0, 0, 0, 0, 0, 0];
    bytes.extend_from_slice(&single[8..]);
    bytes.extend_from_slice(&single[8..]);
    assert_eq!(decode_credentials(&bytes).err(), Some(VaultError::SerializationError));
}
