use aws_sdk_ecr::error::SdkError;
use base64::Engine;
use registry_proxy::ecr::{ecr_answer_password, ecr_public_answer_password, ecr_token};
use registry_proxy::ecr::{ecr_public_fallback_region, ecr_public_token, AuthorizationData};
use registry_proxy::ecr::{checked_ecr_password, checked_ecr_public_password};
use registry_proxy::ecr::{decoded_ecr_password, decoded_ecr_public_password, token_holds_user};
use registry_proxy::ecr::{ecr_password, ecr_public_password, ecr_region};
use registry_proxy::ecr::{DecodeError, EcrPasswordError, EcrPublicPasswordError};

fn token(credentials: &[u8]) -> String {
    base64::engine::general_purpose::STANDARD.encode(credentials)
}

#[test]
fn region_is_the_fourth_part_of_the_host() {
    assert_eq!(ecr_region("123456789012.dkr.ecr.us-east-1.amazonaws.com").unwrap(), "us-east-1");
    assert_eq!(ecr_region("a.b.c.d").unwrap(), "d");
    assert_eq!(ecr_region("a.b.c.").unwrap(), "");
    assert_eq!(ecr_region("....").unwrap(), "");
}

#[test]
fn private_registry_always_names_a_region() {
    assert_eq!(ecr_region("1.dkr.ecr.eu").unwrap(), "eu");
    assert_eq!(ecr_region("http://1.dkr.ecr.eu.amazonaws.com").unwrap(), "eu");
    assert_eq!(ecr_region(".dkr.ecr.").unwrap(), "");
    assert_eq!(ecr_region("a.b.dkr.ecr.eu").unwrap(), "ecr");
}

#[test]
fn host_with_too_few_parts_names_no_region() {
    assert!(matches!(ecr_region("a.b.c"), Err(EcrPasswordError::InvalidRegion)));
    assert!(matches!(ecr_region("localhost"), Err(EcrPasswordError::InvalidRegion)));
    assert!(matches!(ecr_region(""), Err(EcrPasswordError::InvalidRegion)));
}

#[test]
fn token_gives_back_the_password() {
    for password in ["secret", "", "p:w/=", "pässwörd ☃"] {
        let token = token(format!("AWS:{}", password).as_bytes());
        assert!(token_holds_user(&token));
        assert_eq!(ecr_password(&token).unwrap(), password);
        assert_eq!(ecr_public_password(&token).unwrap(), password);
        assert_eq!(checked_ecr_password(&token).unwrap().unwrap(), password);
        assert_eq!(checked_ecr_public_password(&token).unwrap().unwrap(), password);
    }
}

#[test]
fn exact_token() {
    assert_eq!(ecr_password("QVdTOnNlY3JldA==").unwrap(), "secret");
}

#[test]
fn short_token_is_told_apart() {
    for credentials in ["", "A", "AWS"] {
        let token = token(credentials.as_bytes());
        assert!(!token_holds_user(&token));
        assert!(checked_ecr_password(&token).is_none());
        assert!(checked_ecr_public_password(&token).is_none());
    }
}

#[test]
fn token_that_is_no_base64_is_an_error() {
    let errors = [
        ("QVdT*nNlY3JldA==", DecodeError::InvalidByte(4, b'*')),
        ("QVdTO", DecodeError::InvalidLength(5)),
        ("QVdTOn==", DecodeError::InvalidLastSymbol(5, b'n')),
        ("QVdTOg", DecodeError::InvalidPadding),
    ];
    for (token, expected) in errors {
        assert!(token_holds_user(token));
        match checked_ecr_password(token) {
            Some(Err(EcrPasswordError::Base64DecodeError(error))) => assert_eq!(error, expected),
            other => panic!("{:?}", other),
        }
        match checked_ecr_public_password(token) {
            Some(Err(EcrPublicPasswordError::Base64DecodeError(error))) => {
                assert_eq!(error, expected)
            }
            other => panic!("{:?}", other),
        }
    }
}

#[test]
fn password_that_is_no_utf8_is_an_error() {
    let token = token(&[b'A', b'W', b'S', b':', 0xff, 0x41]);
    match ecr_password(&token) {
        Err(EcrPasswordError::Utf8Error(bytes)) => assert_eq!(bytes, vec![0xff, 0x41]),
        other => panic!("{:?}", other),
    }
    match ecr_public_password(&token) {
        Err(EcrPublicPasswordError::Utf8Error(bytes)) => assert_eq!(bytes, vec![0xff, 0x41]),
        other => panic!("{:?}", other),
    }
}

#[test]
fn decoded_credentials_are_cut_after_four_bytes() {
    assert_eq!(decoded_ecr_password(Ok(b"AWS:pw".to_vec())).unwrap(), "pw");
    assert_eq!(decoded_ecr_password(Ok(b"abcdpw".to_vec())).unwrap(), "pw");
    assert_eq!(decoded_ecr_public_password(Ok(b"AWS:".to_vec())).unwrap(), "");
    assert!(matches!(
        decoded_ecr_password(Err(DecodeError::InvalidLength(3))),
        Err(EcrPasswordError::Base64DecodeError(DecodeError::InvalidLength(3)))
    ));
    assert!(matches!(
        decoded_ecr_public_password(Err(DecodeError::InvalidPadding)),
        Err(EcrPublicPasswordError::Base64DecodeError(DecodeError::InvalidPadding))
    ));
}

fn entry(token: Option<&str>) -> AuthorizationData {
    AuthorizationData { authorization_token: token.map(|token| token.to_string()) }
}

#[test]
fn first_entry_of_an_answer_is_taken() {
    let first = token(b"AWS:one");
    let second = token(b"AWS:two");
    let both = || Some(vec![entry(Some(&first)), entry(Some(&second))]);
    assert_eq!(ecr_token(both()), Some(first.clone()));
    assert_eq!(ecr_answer_password(Ok(both())).unwrap().unwrap(), "one");
    let single = || Some(entry(Some(&second)));
    assert_eq!(ecr_public_token(single()), Some(second.clone()));
    assert_eq!(ecr_public_answer_password(Ok(single())).unwrap().unwrap(), "two");
}

#[test]
fn answer_without_a_token_gives_no_password() {
    let good = token(b"AWS:pw");
    assert!(ecr_answer_password(Ok(None)).is_none());
    assert!(ecr_answer_password(Ok(Some(vec![]))).is_none());
    assert!(ecr_answer_password(Ok(Some(vec![entry(None), entry(Some(&good))]))).is_none());
    assert!(ecr_answer_password(Ok(Some(vec![entry(Some(""))]))).is_none());
    assert!(ecr_public_answer_password(Ok(None)).is_none());
    assert!(ecr_public_answer_password(Ok(Some(entry(None)))).is_none());
}

#[test]
fn failed_request_is_an_error_of_aws() {
    match ecr_answer_password(Err(SdkError::construction_failure("offline"))) {
        Some(Err(EcrPasswordError::AWSError(SdkError::ConstructionFailure(_)))) => {}
        other => panic!("{:?}", other),
    }
    match ecr_public_answer_password(Err(SdkError::timeout_error("late"))) {
        Some(Err(EcrPublicPasswordError::AWSError(SdkError::TimeoutError(_)))) => {}
        other => panic!("{:?}", other),
    }
}

#[test]
fn unreadable_token_in_an_answer_is_an_error() {
    match ecr_answer_password(Ok(Some(vec![entry(Some("QVdTO"))]))) {
        Some(Err(EcrPasswordError::Base64DecodeError(error))) => {
            assert_eq!(error, DecodeError::InvalidLength(5))
        }
        other => panic!("{:?}", other),
    }
}

#[test]
fn public_registry_is_asked_in_us_east_1() {
    assert_eq!(ecr_public_fallback_region(), "us-east-1");
}
