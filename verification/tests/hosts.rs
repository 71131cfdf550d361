use maidono::actions::host::HostRef;
use maidono::hosts::{
    decode_hub256_signature, display_event_info, extract_signature, host_information_checks_out,
    Request,
};
use maidono::security::hmac::check_hmac_sha256;
use maidono::security::Signature;

const DIGEST: &str = "5bdcc146bf60754e6a042426089575c75a003f089d2739839dec58b964ec3843";

const DIGEST_BYTES: [u8; 32] = [
    0x5b, 0xdc, 0xc1, 0x46, 0xbf, 0x60, 0x75, 0x4e, 0x6a, 0x04, 0x24, 0x26, 0x08, 0x95, 0x75,
    0xc7, 0x5a, 0x00, 0x3f, 0x08, 0x9d, 0x27, 0x39, 0x83, 0x9d, 0xec, 0x58, 0xb9, 0x64, 0xec,
    0x38, 0x43,
];

fn github_request() -> Request {
    Request::new(
        Some("GitHub-Hookshot/044aadd"),
        Some("72d3162e-cc78-11e3-81ab-4c9367dc0958"),
        Some("push"),
        None,
    )
}

#[test]
fn github_request_checks_out() {
    assert!(host_information_checks_out(&HostRef::GitHub, &github_request()));
    let bare = Request::new(Some("GitHub-Hookshot"), Some(""), Some(""), None);
    assert!(host_information_checks_out(&HostRef::GitHub, &bare));
}

#[test]
fn github_rejects_missing_event() {
    let request = Request::new(
        Some("GitHub-Hookshot/044aadd"),
        Some("72d3162e-cc78-11e3-81ab-4c9367dc0958"),
        None,
        None,
    );
    assert!(!host_information_checks_out(&HostRef::GitHub, &request));
}

#[test]
fn github_rejects_missing_delivery_or_agent() {
    let no_delivery = Request::new(Some("GitHub-Hookshot/044aadd"), None, Some("push"), None);
    assert!(!host_information_checks_out(&HostRef::GitHub, &no_delivery));
    let no_agent = Request::new(None, Some("1"), Some("push"), None);
    assert!(!host_information_checks_out(&HostRef::GitHub, &no_agent));
    let wrong_agent = Request::new(Some("curl/8.0 GitHub-Hookshot"), Some("1"), Some("push"), None);
    assert!(!host_information_checks_out(&HostRef::GitHub, &wrong_agent));
    let short_agent = Request::new(Some("GitHub-Hooksho"), Some("1"), Some("push"), None);
    assert!(!host_information_checks_out(&HostRef::GitHub, &short_agent));
    let lower_agent = Request::new(Some("github-hookshot/1"), Some("1"), Some("push"), None);
    assert!(!host_information_checks_out(&HostRef::GitHub, &lower_agent));
}

#[test]
fn other_hosts_ask_nothing() {
    let empty = Request::new(None, None, None, None);
    assert!(host_information_checks_out(&HostRef::Any, &empty));
    assert!(host_information_checks_out(
        &HostRef::Custom(String::from("my-forge")),
        &empty
    ));
}

#[test]
fn event_info_names_delivery_and_event() {
    assert_eq!(
        display_event_info(&HostRef::GitHub, &github_request()),
        vec![
            String::from("  Github delivery ID: 72d3162e-cc78-11e3-81ab-4c9367dc0958"),
            String::from("  Github event type: push"),
        ]
    );
    let only_event = Request::new(None, None, Some("ping"), None);
    assert_eq!(
        display_event_info(&HostRef::GitHub, &only_event),
        vec![String::from("  Github event type: ping")]
    );
    assert!(display_event_info(&HostRef::Any, &github_request()).is_empty());
}

#[test]
fn hub_signature_is_decoded() {
    let header = format!("sha256={}", DIGEST);
    let decoded = decode_hub256_signature(&header);
    assert!(matches!(decoded, Some(Signature::HS256Hex(bytes)) if bytes == DIGEST_BYTES));
    let upper = format!("sha256={}", DIGEST.to_uppercase());
    let decoded = decode_hub256_signature(&upper);
    assert!(matches!(decoded, Some(Signature::HS256Hex(bytes)) if bytes == DIGEST_BYTES));
    let zeros = format!("sha256={}", "0".repeat(64));
    assert!(
        matches!(decode_hub256_signature(&zeros), Some(Signature::HS256Hex(bytes)) if bytes == [0u8; 32])
    );
    let high = format!("sha256={}", "fF".repeat(32));
    assert!(
        matches!(decode_hub256_signature(&high), Some(Signature::HS256Hex(bytes)) if bytes == [255u8; 32])
    );
}

#[test]
fn hub_signature_of_other_shape_is_none() {
    assert!(decode_hub256_signature("").is_none());
    assert!(decode_hub256_signature(DIGEST).is_none());
    assert!(decode_hub256_signature(&format!("sha1={}", DIGEST)).is_none());
    assert!(decode_hub256_signature(&format!("SHA256={}", DIGEST)).is_none());
    assert!(decode_hub256_signature(&format!("sha256={}", &DIGEST[1..])).is_none());
    assert!(decode_hub256_signature(&format!("sha256={}0", DIGEST)).is_none());
    assert!(decode_hub256_signature(&format!("sha256={}g", &DIGEST[1..])).is_none());
    assert!(decode_hub256_signature(&format!("sha256={} ", &DIGEST[1..])).is_none());
    assert!(decode_hub256_signature(&format!("sha256={}é", &DIGEST[2..])).is_none());
    assert!(decode_hub256_signature(&format!("sha256={}é", &DIGEST[1..])).is_none());
}

#[test]
fn signature_is_extracted_for_github_only() {
    let header = format!("sha256={}", DIGEST);
    let signed = Request::new(None, None, None, Some(&header));
    assert!(
        matches!(extract_signature(&HostRef::GitHub, &signed), Some(Signature::HS256Hex(bytes)) if bytes == DIGEST_BYTES)
    );
    assert!(extract_signature(&HostRef::Any, &signed).is_none());
    assert!(extract_signature(&HostRef::Custom(String::from("forge")), &signed).is_none());
    assert!(extract_signature(&HostRef::GitHub, &github_request()).is_none());
    let malformed = Request::new(None, None, None, Some("sha256=abc"));
    assert!(extract_signature(&HostRef::GitHub, &malformed).is_none());
}

#[test]
fn known_signature_verifies() {
    let signature = Signature::HS256Hex(DIGEST_BYTES);
    assert!(signature.matches("Jefe", Some(b"what do ya want for nothing?")));
    assert!(check_hmac_sha256(
        "Jefe",
        Some(b"what do ya want for nothing?"),
        &DIGEST_BYTES
    ));
}

#[test]
fn altered_signature_fails() {
    for byte in 0..32 {
        for bit in 0..8 {
            let mut altered = DIGEST_BYTES;
            altered[byte] ^= 1 << bit;
            let signature = Signature::HS256Hex(altered);
            assert!(!signature.matches("Jefe", Some(b"what do ya want for nothing?")));
        }
    }
}

#[test]
fn signature_depends_on_secret_and_body() {
    let signature = Signature::HS256Hex(DIGEST_BYTES);
    assert!(!signature.matches("jefe", Some(b"what do ya want for nothing?")));
    assert!(!signature.matches("Jefe", Some(b"what do ya want for nothing")));
    assert!(!signature.matches("Jefe", Some(b"")));
    assert!(!signature.matches("", Some(b"what do ya want for nothing?")));
}

#[test]
fn unread_body_matches_no_signature() {
    let signature = Signature::HS256Hex(DIGEST_BYTES);
    assert!(!signature.matches("Jefe", None));
    assert!(!check_hmac_sha256("Jefe", None, &DIGEST_BYTES));
}

#[test]
fn digest_of_other_length_fails() {
    assert!(!check_hmac_sha256(
        "Jefe",
        Some(b"what do ya want for nothing?"),
        &DIGEST_BYTES[..31]
    ));
    assert!(!check_hmac_sha256("Jefe", Some(b"what do ya want for nothing?"), &[]));
}

#[test]
fn secret_longer_than_a_block_is_accepted() {
    let secret = "k".repeat(200);
    let body = vec![0x61u8; 300];
    assert!(!check_hmac_sha256(&secret, Some(&body), &DIGEST_BYTES));
}
