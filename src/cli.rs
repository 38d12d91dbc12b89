use vstd::prelude::*;

use crate::duration::duration_spec;
use crate::token::{
    default_secret, MAX_CLOCK_SECONDS, issue_spec, process_jwt_sign, process_jwt_verify, result_view, verify_spec,
    TokenError,
};

verus! {

/// The options of `jwt sign`.
#[derive(Debug, Clone)]
pub struct JwtSignOpts {
    /// The subject claim.
    pub sub: String,
    /// The audience claim.
    pub aud: String,
    /// How long the token stays valid, such as `14d`, `23m`, `12h`, `1s`.
    pub exp: String,
}

/// The options of `jwt verify`.
#[derive(Debug, Clone)]
pub struct JwtVerifyOpts {
    /// The token to check.
    pub token: String,
}

/// The `jwt` commands.
#[derive(Debug, Clone)]
pub enum JwtSubCommand {
    Sign(JwtSignOpts),
    Verify(JwtVerifyOpts),
}

impl JwtSignOpts {
    /// Signs a token from the options; the caller prints it.
    pub fn execute(self) -> (r: Result<String, TokenError>)
        ensures
            r == Err::<String, TokenError>(TokenError::ClockUnavailable) ==> duration_spec(self.exp@) is Ok,
            r != Err::<String, TokenError>(TokenError::ClockUnavailable) ==> exists|now: i64|
                0 <= now < MAX_CLOCK_SECONDS && result_view(r) == #[trigger] issue_spec(
                    self.sub@,
                    self.aud@,
                    self.exp@,
                    now as int,
                    default_secret(),
                ),
            duration_spec(self.exp@) matches Ok(d) && d <= i64::MAX - MAX_CLOCK_SECONDS ==> r is Ok
                || r == Err::<String, TokenError>(TokenError::ClockUnavailable),
    {
        process_jwt_sign(self.sub.as_str(), self.aud.as_str(), self.exp.as_str())
    }
}

impl JwtVerifyOpts {
    /// Checks the token of the options.
    pub fn execute(self) -> (r: Result<(), TokenError>)
        ensures
            r != Err::<(), TokenError>(TokenError::ClockUnavailable) ==> exists|now: i64|
                0 <= now < MAX_CLOCK_SECONDS && r == #[trigger] verify_spec(
                    self.token@,
                    default_secret(),
                    now as int,
                ),
    {
        process_jwt_verify(self.token.as_str())
    }
}

/// What signing gives, as the result of a command.
pub open spec fn as_command_result(x: Result<Seq<char>, TokenError>) -> Result<Option<Seq<char>>, TokenError> {
    match x {
        Ok(t) => Ok(Some(t)),
        Err(e) => Err(e),
    }
}

pub open spec fn command_result_view(r: Result<Option<String>, TokenError>) -> Result<Option<Seq<char>>, TokenError> {
    match r {
        Ok(Some(t)) => Ok(Some(t@)),
        Ok(None) => Ok(None),
        Err(e) => Err(e),
    }
}

/// What verifying gives, as the result of a command.
pub open spec fn as_verify_command_result(x: Result<(), TokenError>) -> Result<Option<String>, TokenError> {
    match x {
        Ok(()) => Ok(None),
        Err(e) => Err(e),
    }
}

impl JwtSubCommand {
    /// Runs the command: a signed token for `sign`, nothing for `verify`.
    pub fn execute(self) -> (r: Result<Option<String>, TokenError>)
        ensures
            self matches JwtSubCommand::Sign(o) ==> (r != Err::<Option<String>, TokenError>(
                TokenError::ClockUnavailable,
            ) ==> exists|now: i64|
                0 <= now < MAX_CLOCK_SECONDS && command_result_view(r) == as_command_result(
                    #[trigger] issue_spec(o.sub@, o.aud@, o.exp@, now as int, default_secret()),
                )),
            self matches JwtSubCommand::Sign(o) ==> (duration_spec(o.exp@) matches Ok(d) && d
                <= i64::MAX - MAX_CLOCK_SECONDS ==> r matches Ok(Some(_)) || r == Err::<
                Option<String>,
                TokenError,
            >(TokenError::ClockUnavailable)),
            self matches JwtSubCommand::Verify(o) ==> (r != Err::<Option<String>, TokenError>(
                TokenError::ClockUnavailable,
            ) ==> exists|now: i64|
                0 <= now < MAX_CLOCK_SECONDS && r == as_verify_command_result(
                    #[trigger] verify_spec(o.token@, default_secret(), now as int),
                )),
    {
        match self {
            JwtSubCommand::Sign(o) => match o.execute() {
                Ok(t) => Ok(Some(t)),
                Err(e) => Err(e),
            },
            JwtSubCommand::Verify(o) => match o.execute() {
                Ok(()) => Ok(None),
                Err(e) => Err(e),
            },
        }
    }
}

} // verus!
