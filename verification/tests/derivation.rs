use app_machine_id::derivation::{derive_from_text, make_v4};
use app_machine_id::error::Error;
use app_machine_id::id128::Id128;

fn id(text: &str) -> Id128 {
    Id128::parse(text.as_bytes()).unwrap()
}

const HOST: &str = "01020304-0506-0708-090a-0b0c0d0e0f10";
const APP: &str = "8e9b38ad-0ef8-4b14-894a-83bef002c713";

#[test]
fn known_vector() {
    // Pinned expected value: HMAC-SHA256(key = host bytes, message = app
    // bytes), first 16 bytes, bytes 6 and 8 patched to version 4 / DCE.
    let derived = derive_from_text(HOST.as_bytes(), &id(APP)).unwrap();
    assert_eq!(derived, id("d7bb501b-81dd-4b11-954f-e961a9b50139"));
}

#[test]
fn known_vector_bare_hex_content() {
    let derived = derive_from_text(b"0102030405060708090a0b0c0d0e0f10", &id(APP)).unwrap();
    assert_eq!(derived, id("d7bb501b81dd4b11954fe961a9b50139"));
}

#[test]
fn deterministic() {
    let first = derive_from_text(HOST.as_bytes(), &id(APP)).unwrap();
    let second = derive_from_text(HOST.as_bytes(), &id(APP)).unwrap();
    assert_eq!(first, second);
}

#[test]
fn version_and_variant_bits() {
    let hosts = [
        HOST,
        "ffffffff-ffff-ffff-ffff-ffffffffffff",
        "00000000000000000000000000000000",
        "d7bb501b-81dd-4b11-954f-e961a9b50139",
    ];
    for host in hosts {
        let derived = derive_from_text(host.as_bytes(), &id(APP)).unwrap();
        let bytes = derived.to_bytes();
        assert_eq!(bytes.len(), 16);
        assert_eq!(bytes[6] & 0xf0, 0x40);
        assert_eq!(bytes[8] & 0xc0, 0x80);
    }
}

#[test]
fn directionality() {
    let host2 = "01020304-0506-0708-090a-0b0c0d0e0f11";
    let app2 = "8e9b38ad-0ef8-4b14-894a-83bef002c714";
    let base = derive_from_text(HOST.as_bytes(), &id(APP)).unwrap();
    let changed_host = derive_from_text(host2.as_bytes(), &id(APP)).unwrap();
    let changed_app = derive_from_text(HOST.as_bytes(), &id(app2)).unwrap();
    assert_ne!(base, changed_host);
    assert_ne!(base, changed_app);
    assert_ne!(changed_host, changed_app);
    // Pinned values for the two changed inputs.
    assert_eq!(changed_host, id("710647fe-1b97-460e-a240-72ab18b15628"));
    assert_eq!(changed_app, id("82043a5d-b3c7-4d7a-b04a-fe49d61d461f"));
}

#[test]
fn format_failure() {
    let r = derive_from_text(b"not-a-uuid", &id(APP));
    assert!(matches!(r, Err(Error::InvalidId)));
}

#[test]
fn whitespace_tolerance() {
    let bare = derive_from_text(HOST.as_bytes(), &id(APP)).unwrap();
    let newline = derive_from_text(b"01020304-0506-0708-090a-0b0c0d0e0f10\n", &id(APP)).unwrap();
    let newline_spaces =
        derive_from_text(b"01020304-0506-0708-090a-0b0c0d0e0f10\n   ", &id(APP)).unwrap();
    assert_eq!(bare, newline);
    assert_eq!(bare, newline_spaces);
}

#[test]
fn make_v4_patches_only_fixed_bytes() {
    let raw = id("00000000-0000-0000-0000-000000000000");
    let patched = make_v4(raw);
    assert_eq!(patched, id("00000000-0000-4000-8000-000000000000"));

    let raw = id("ffffffff-ffff-ffff-ffff-ffffffffffff");
    let patched = make_v4(raw);
    assert_eq!(patched, id("ffffffff-ffff-4fff-bfff-ffffffffffff"));
}
