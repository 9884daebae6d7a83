use transcoder_core::auth::{presented_token, AuthContext, AuthRejection};

#[test]
fn a_token_must_be_long_enough() {
    let token = |t: &str| presented_token(Some(t.to_string()));
    assert_eq!(presented_token(None).unwrap_err(), AuthRejection::MissingToken);
    assert_eq!(token("").unwrap_err(), AuthRejection::MissingToken);
    assert_eq!(token("123456789").unwrap_err(), AuthRejection::MissingToken);
    assert_eq!(token("1234567890").unwrap(), "1234567890");
    assert_eq!(token("中文中1").unwrap(), "中文中1");
}

#[test]
fn a_token_must_be_known_or_look_direct() {
    for t in ["1//abcdefgh", "ya29.abcdef", "sk-abcdefgh"] {
        let context = AuthContext::accept(t.to_string(), false).unwrap();
        assert_eq!(context.token_or_key, t);
        assert!(!context.is_virtual_key);
    }
    for t in ["abcdefghij", "1/abcdefghi", "ya29abcdefg", "SK-abcdefgh", " sk-abcdefgh"] {
        assert_eq!(AuthContext::accept(t.to_string(), false).unwrap_err(), AuthRejection::InvalidFormat);
        let context = AuthContext::accept(t.to_string(), true).unwrap();
        assert_eq!(context.token_or_key, t);
        assert!(context.is_virtual_key);
    }
}

#[test]
fn rejections_are_answered() {
    assert_eq!((AuthRejection::MissingToken.status(), AuthRejection::MissingToken.message()), (401, "Missing Token"));
    assert_eq!((AuthRejection::InvalidFormat.status(), AuthRejection::InvalidFormat.message()), (401, "Invalid authentication key format."));
}
