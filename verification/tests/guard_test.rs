use legendado_server::auth::LoginClaims;
use legendado_server::clock::Timestamp;
use legendado_server::user_guard::{
    bearer_token, user_from_claims, white_space, word_bounds, AuthorizationError, User,
};

#[test]
fn missing_header_lacks_a_token() {
    assert_eq!(bearer_token(None), Err(AuthorizationError::MissingToken));
}

#[test]
fn bearer_header_yields_its_token() {
    let token = "eyJ0eXAiOiJKV1QiLCJhbGciOiJIUzI1NiJ9.e30.sig";
    assert_eq!(bearer_token(Some(&format!("Bearer {}", token))), Ok(token.to_string()));
    assert_eq!(bearer_token(Some("  Bearer \t abc \n")), Ok("abc".to_string()));
    assert_eq!(bearer_token(Some("Bearer\u{3000}ábc")), Ok("ábc".to_string()));
}

#[test]
fn other_headers_hold_an_invalid_token() {
    for value in ["", "Bearer", "Basic abc", "bearer abc", "Bearer a b", "abc Bearer", "Bearerx abc"] {
        assert_eq!(bearer_token(Some(value)), Err(AuthorizationError::InvalidToken), "{:?}", value);
    }
}

#[test]
fn words_are_found_between_white_space() {
    assert_eq!(word_bounds(" ab  c\u{a0}d "), vec![(1, 3), (5, 6), (7, 8)]);
    assert_eq!(word_bounds("   "), vec![]);
    assert_eq!(word_bounds("x"), vec![(0, 1)]);
}

#[test]
fn white_space_is_unicode_white_space() {
    for c in ['\t', '\n', '\u{b}', '\u{c}', '\r', ' ', '\u{85}', '\u{a0}', '\u{1680}', '\u{2000}', '\u{200a}', '\u{2028}', '\u{2029}', '\u{202f}', '\u{205f}', '\u{3000}'] {
        assert!(white_space(c), "{:?}", c);
    }
    for c in ['a', '\u{8}', '\u{e}', '\u{200b}', '\u{feff}', '\u{180e}'] {
        assert!(!white_space(c), "{:?}", c);
    }
    for code in 0u32..0x3100 {
        if let Some(c) = char::from_u32(code) {
            assert_eq!(white_space(c), c.is_whitespace(), "{:?}", c);
        }
    }
}

#[test]
fn decoded_claims_name_the_user() {
    let claims = LoginClaims::new(12, Timestamp { secs: 1, nanos: 0 });
    assert_eq!(user_from_claims(Some(claims)), Ok(User { id: 12 }));
    assert_eq!(user_from_claims(None), Err(AuthorizationError::InvalidToken));
}

#[test]
fn refused_tokens_are_bad_requests() {
    assert_eq!(AuthorizationError::MissingToken.status_code(), 400);
    assert_eq!(AuthorizationError::InvalidToken.status_code(), 400);
}
