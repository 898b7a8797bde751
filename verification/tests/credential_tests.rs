use base64::Engine;
use session_core::ui::UI;
use session_core::credentials::CredentialError;

const T0: u64 = 1_700_000_000;

fn code_for(secret_b32: &str, time: u64) -> String {
    let bytes = base32::decode(base32::Alphabet::RFC4648 { padding: false }, secret_b32)
        .expect("secret must be valid base32");
    let totp = totp_rs::TOTP::new_unchecked(totp_rs::Algorithm::SHA1, 6, 1, 30, bytes);
    totp.generate(time)
}

#[test]
fn permanent_password_round_trip() {
    let mut core = UI::new();
    assert_eq!(core.permanent_password(), "");
    assert!(core.set_permanent_password("first".to_string(), true).is_ok());
    assert_eq!(core.permanent_password(), "first");
}

#[test]
fn permanent_password_persist_failure_keeps_old_value() {
    let mut core = UI::new();
    assert!(core.set_permanent_password("kept".to_string(), true).is_ok());
    let r = core.set_permanent_password("lost".to_string(), false);
    assert_eq!(r, Err(CredentialError::PersistFailed));
    assert_eq!(core.permanent_password(), "kept");
}

#[test]
fn temporary_password_is_six_digits_and_stable() {
    let mut core = UI::new();
    let p1 = core.temporary_password();
    assert_eq!(p1.len(), 6);
    assert!(p1.chars().all(|c| c.is_ascii_digit()));
    let p2 = core.temporary_password();
    assert_eq!(p1, p2);
}

#[test]
fn temporary_password_rotation_yields_six_digits() {
    let mut core = UI::new();
    core.update_temporary_password();
    let p = core.temporary_password();
    assert_eq!(p.len(), 6);
    assert!(p.chars().all(|c| c.is_ascii_digit()));
}

#[test]
fn no_secret_means_no_valid_2fa() {
    let core = UI::new();
    assert!(!core.has_valid_2fa());
    assert!(!core.verify2fa("123456".to_string()));
}

#[test]
fn generated_secret_is_base32_of_twenty_bytes() {
    let mut core = UI::new();
    let secret = core.generate2fa();
    assert!(core.has_valid_2fa());
    assert_eq!(secret.len(), 32);
    let bytes = base32::decode(base32::Alphabet::RFC4648 { padding: false }, &secret)
        .expect("secret must be valid base32");
    assert_eq!(bytes.len(), 20);
}

#[test]
fn correct_code_verifies_and_is_reusable() {
    let mut core = UI::new();
    let secret = core.generate2fa();
    core.tick(T0);
    let code = code_for(&secret, T0);
    assert!(core.verify2fa(code.clone()));
    // Not single-use: the same valid code verifies again.
    assert!(core.verify2fa(code));
}

#[test]
fn neighbour_steps_verify_within_skew() {
    let mut core = UI::new();
    let secret = core.generate2fa();
    core.tick(T0);
    assert!(core.verify2fa(code_for(&secret, T0 - 30)));
    assert!(core.verify2fa(code_for(&secret, T0 + 30)));
}

#[test]
fn code_outside_skew_window_fails() {
    let mut core = UI::new();
    let secret = core.generate2fa();
    core.tick(T0);
    let stale = code_for(&secret, T0 - 120);
    let window: Vec<String> =
        vec![code_for(&secret, T0 - 30), code_for(&secret, T0), code_for(&secret, T0 + 30)];
    // A four-step-old code is only accepted on a (vanishingly unlikely)
    // textual collision with a code inside the window.
    assert_eq!(core.verify2fa(stale.clone()), window.contains(&stale));
}

#[test]
fn malformed_codes_fail() {
    let mut core = UI::new();
    let _ = core.generate2fa();
    core.tick(T0);
    assert!(!core.verify2fa("".to_string()));
    assert!(!core.verify2fa("1234567".to_string()));
}

#[test]
fn new_secret_invalidates_the_old_one() {
    let mut core = UI::new();
    let first = core.generate2fa();
    let second = core.generate2fa();
    core.tick(T0);
    let old_code = code_for(&first, T0);
    let new_code = code_for(&second, T0);
    assert!(core.verify2fa(new_code.clone()));
    if old_code != new_code {
        assert!(!core.verify2fa(old_code));
    }
}

#[test]
fn peer_password_cache_forget() {
    let mut core = UI::new();
    assert!(!core.peer_has_password("alice".to_string()));
    core.credentials.record_peer_password("alice".to_string());
    core.credentials.record_peer_password("bob".to_string());
    assert!(core.peer_has_password("alice".to_string()));
    assert!(core.peer_has_password("bob".to_string()));
    core.forget_password("alice".to_string());
    assert!(!core.peer_has_password("alice".to_string()));
    assert!(core.peer_has_password("bob".to_string()));
}

#[test]
fn enrollment_image_is_a_png_data_uri() {
    let mut core = UI::new();
    let secret = core.generate2fa();
    let uri = core.generate_2fa_img_src(format!("otpauth://totp/desk?secret={}", secret));
    let prefix = "data:image/png;base64,";
    assert!(uri.starts_with(prefix));
    let payload = &uri[prefix.len()..];
    let png = base64::engine::general_purpose::STANDARD
        .decode(payload)
        .expect("payload must be valid base64");
    assert!(png.len() > 8);
    assert_eq!(&png[0..4], &[0x89, b'P', b'N', b'G']);
}
