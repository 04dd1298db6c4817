use wifi_handler::credentials::{ConnectionCredentials, PASSWORD_CAPACITY, SSID_CAPACITY};
use wifi_handler::error::CredentialsError;
use wifi_handler::handler::{ConnectionState, WifiHandler};
use wifi_handler::poll::PollPolicy;

fn rejected(ssid: &str, password: &str) -> Option<CredentialsError> {
    ConnectionCredentials::new(ssid, password).err()
}

fn texts(ssid: &str, password: &str) -> (String, String) {
    match ConnectionCredentials::new(ssid, password) {
        Ok(c) => {
            let (s, p) = c.into_parts();
            (s.as_str().to_string(), p.as_str().to_string())
        }
        Err(e) => panic!("rejected: {:?}", e),
    }
}

#[test]
fn capacities_are_those_of_the_driver() {
    assert_eq!(SSID_CAPACITY, 32);
    assert_eq!(PASSWORD_CAPACITY, 64);
}

#[test]
fn credentials_hold_the_given_texts() {
    assert_eq!(
        texts("home-net", "s3cr3t!!"),
        ("home-net".to_string(), "s3cr3t!!".to_string())
    );
}

#[test]
fn empty_credentials_are_accepted() {
    assert_eq!(texts("", ""), (String::new(), String::new()));
}

#[test]
fn credentials_at_the_bounds_are_accepted() {
    let ssid = "a".repeat(32);
    let password = "b".repeat(64);
    assert_eq!(texts(&ssid, &password), (ssid.clone(), password.clone()));
}

#[test]
fn ssid_of_33_bytes_is_rejected() {
    let ssid = "a".repeat(33);
    assert_eq!(rejected(&ssid, "pw"), Some(CredentialsError::SsidTooLong));
}

#[test]
fn password_of_65_bytes_is_rejected() {
    let password = "b".repeat(65);
    assert_eq!(rejected("net", &password), Some(CredentialsError::PasswordTooLong));
}

#[test]
fn ssid_is_checked_before_password() {
    let ssid = "a".repeat(40);
    let password = "b".repeat(80);
    assert_eq!(rejected(&ssid, &password), Some(CredentialsError::SsidTooLong));
}

#[test]
fn bounds_count_bytes_not_characters() {
    // Each of these characters takes two bytes.
    let sixteen = "é".repeat(16);
    let seventeen = "é".repeat(17);
    assert_eq!(sixteen.len(), 32);
    assert_eq!(texts(&sixteen, "pw").0, sixteen);
    assert_eq!(rejected(&seventeen, "pw"), Some(CredentialsError::SsidTooLong));
    let thirty_two = "é".repeat(32);
    let thirty_three = "é".repeat(33);
    assert_eq!(texts("net", &thirty_two).1, thirty_two);
    assert_eq!(rejected("net", &thirty_three), Some(CredentialsError::PasswordTooLong));
}

#[test]
fn set_user_pass_validates_and_leaves_the_handler_alone() {
    let mut handler = WifiHandler::new(PollPolicy::default());
    let accepted = handler.set_user_pass("home-net", "s3cr3t!!");
    let (ssid, password) = accepted.ok().expect("within bounds").into_parts();
    assert_eq!(ssid.as_str(), "home-net");
    assert_eq!(password.as_str(), "s3cr3t!!");
    assert_eq!(handler.state(), ConnectionState::Unconfigured);
    assert_eq!(handler.pending(), None);
}

#[test]
fn set_user_pass_rejects_oversized_texts() {
    let mut handler = WifiHandler::new(PollPolicy::default());
    let long_ssid = "x".repeat(33);
    let long_password = "y".repeat(65);
    assert_eq!(
        handler.set_user_pass(&long_ssid, "pw").err(),
        Some(CredentialsError::SsidTooLong)
    );
    assert_eq!(
        handler.set_user_pass("net", &long_password).err(),
        Some(CredentialsError::PasswordTooLong)
    );
    assert_eq!(handler.state(), ConnectionState::Unconfigured);
}
