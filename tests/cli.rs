use rcli::cli::{JwtSignOpts, JwtSubCommand, JwtVerifyOpts};
use rcli::duration::DurationError;
use rcli::token::TokenError;

#[test]
fn sign_then_verify_commands() {
    let sign = JwtSignOpts { sub: "user".to_string(), aud: "audience".to_string(), exp: "1d".to_string() };
    let token = JwtSubCommand::Sign(sign).execute().unwrap().unwrap();
    let verify = JwtVerifyOpts { token: token.clone() };
    assert_eq!(verify.execute(), Ok(()));
    assert_eq!(JwtSubCommand::Verify(JwtVerifyOpts { token }).execute(), Ok(None));
}

#[test]
fn sign_command_reports_bad_duration() {
    let sign = JwtSignOpts { sub: "u".to_string(), aud: "a".to_string(), exp: "3w".to_string() };
    assert_eq!(sign.execute(), Err(TokenError::Duration(DurationError::InvalidUnit)));
}

#[test]
fn verify_command_rejects_garbage() {
    let verify = JwtVerifyOpts { token: "not-a-token".to_string() };
    assert_eq!(verify.execute(), Err(TokenError::MalformedToken));
}
