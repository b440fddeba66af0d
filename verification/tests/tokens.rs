use cablescout::errors::TokenError;
use cablescout::tokens::{Claims, TokenGenerator, check_claims};

const TWO_MINUTES: i64 = 120;

#[test]
fn token_round_trips_inside_its_window() {
    let generator = TokenGenerator::new(TWO_MINUTES).unwrap();
    let token = generator.generate_at(1000, "payload-data").unwrap();

    assert_eq!(generator.validate_at(1000, &token).unwrap(), "payload-data");
    assert_eq!(generator.validate_at(1060, &token).unwrap(), "payload-data");
    assert_eq!(generator.validate_at(1119, &token).unwrap(), "payload-data");
}

#[test]
fn expired_token_is_refused() {
    let generator = TokenGenerator::new(TWO_MINUTES).unwrap();
    let token = generator.generate_at(1000, "payload-data").unwrap();

    // The window closes at `nbf + lifetime`.
    assert_eq!(generator.validate_at(1120, &token).unwrap_err(), TokenError::TokenInvalid);
    assert_eq!(generator.validate_at(100000, &token).unwrap_err(), TokenError::TokenInvalid);
}

#[test]
fn token_before_its_window_is_refused() {
    let generator = TokenGenerator::new(TWO_MINUTES).unwrap();
    let token = generator.generate_at(1000, "payload-data").unwrap();
    assert_eq!(generator.validate_at(999, &token).unwrap_err(), TokenError::TokenInvalid);
}

#[test]
fn token_signed_with_another_secret_is_refused() {
    let generator1 = TokenGenerator::new(TWO_MINUTES).unwrap();
    let generator2 = TokenGenerator::new(TWO_MINUTES).unwrap();
    let token = generator1.generate_at(1000, "payload-data").unwrap();
    assert_eq!(generator2.validate_at(1000, &token).unwrap_err(), TokenError::TokenInvalid);
}

#[test]
fn malformed_token_is_refused() {
    let generator = TokenGenerator::new(TWO_MINUTES).unwrap();
    assert_eq!(generator.validate_at(1000, "").unwrap_err(), TokenError::TokenInvalid);
    assert_eq!(generator.validate_at(1000, "abc").unwrap_err(), TokenError::TokenInvalid);
    assert_eq!(generator.validate_at(1000, "a.b.c").unwrap_err(), TokenError::TokenInvalid);
}

#[test]
fn tampered_token_is_refused() {
    let generator = TokenGenerator::new(TWO_MINUTES).unwrap();
    let token = generator.generate_at(1000, "payload-data").unwrap();
    let mut tampered = token.clone();
    tampered.pop();
    assert!(generator.validate_at(1000, &tampered).is_err());
}

#[test]
fn token_clock_overflow_is_reported() {
    let generator = TokenGenerator::new(TWO_MINUTES).unwrap();
    let err = generator.generate_at(i64::MAX - 10, "payload-data").unwrap_err();
    assert_eq!(err, TokenError::ClockOverflow);
}

#[test]
fn generate_and_validate_with_the_clock() {
    let generator = TokenGenerator::new(TWO_MINUTES).unwrap();
    let token = generator.generate("payload-data").unwrap();
    assert_eq!(generator.validate(&token).unwrap(), "payload-data");
}

#[test]
fn check_claims_judges_the_window() {
    let claims = Claims { exp: 1120, nbf: 1000, data: "d".to_string() };
    assert_eq!(check_claims(1000, claims).unwrap(), "d");
    let claims = Claims { exp: 1120, nbf: 1000, data: "d".to_string() };
    assert_eq!(check_claims(1120, claims).unwrap_err(), TokenError::TokenInvalid);
    let claims = Claims { exp: 1120, nbf: 1000, data: "d".to_string() };
    assert_eq!(check_claims(999, claims).unwrap_err(), TokenError::TokenInvalid);
}

#[test]
fn token_error_messages() {
    assert_eq!(TokenError::TokenInvalid.message(), "Invalid login token");
    assert_eq!(
        TokenError::ClockOverflow.message(),
        "Overflow while calculating login token expiry"
    );
}
