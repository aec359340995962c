//! Validation of a profile's credentials against the identity service.

use vstd::prelude::*;
use vstd::string::StringExecFns;

verus! {

/// Why credentials could not be validated.
#[derive(Debug, Clone, PartialEq, Eq)]
pub enum CredentialsError {
    InvalidCredentialsError,
    UnexpectedError(String),
}

impl CredentialsError {
    /// The stable code of the error, as reported to callers.
    pub open spec fn spec_code(self) -> Seq<char> {
        match self {
            CredentialsError::InvalidCredentialsError => "InvalidCredentialsError"@,
            CredentialsError::UnexpectedError(_) => "UnexpectedError"@,
        }
    }

    /// The human-readable message of the error.
    pub open spec fn spec_message(self) -> Seq<char> {
        match self {
            CredentialsError::InvalidCredentialsError => "invalid credentials error"@,
            CredentialsError::UnexpectedError(reason) => "unexpected error: "@ + reason@,
        }
    }

    /// The message reported to callers: the service's error code alone for
    /// an unexpected error.
    pub open spec fn spec_reported_message(self) -> Seq<char> {
        match self {
            CredentialsError::UnexpectedError(reason) => reason@,
            _ => self.spec_message(),
        }
    }

    pub fn code(&self) -> (r: &'static str)
        ensures
            r@ == self.spec_code(),
    {
        match self {
            CredentialsError::InvalidCredentialsError => "InvalidCredentialsError",
            CredentialsError::UnexpectedError(_) => "UnexpectedError",
        }
    }

    pub fn message(&self) -> (r: String)
        ensures
            r@ == self.spec_message(),
    {
        match self {
            CredentialsError::InvalidCredentialsError => "invalid credentials error".to_owned(),
            CredentialsError::UnexpectedError(reason) => "unexpected error: ".to_owned().concat(
                reason.as_str(),
            ),
        }
    }

    pub fn reported_message(&self) -> (r: String)
        ensures
            r@ == self.spec_reported_message(),
    {
        match self {
            CredentialsError::UnexpectedError(reason) => reason.clone(),
            _ => self.message(),
        }
    }
}

/// The identity service, as far as its logic goes: the call itself is made
/// by the application.
pub struct STSAdapter;

impl STSAdapter {
    /// The error a failed caller-identity request stands for, from the error
    /// code the service returned: an unknown access key means invalid
    /// credentials; any other failure is unexpected.
    pub fn caller_identity_error(error_code: Option<&str>) -> (r: CredentialsError)
        ensures
            error_code is Some && error_code->Some_0@ == "InvalidClientTokenId"@ ==> r
                == CredentialsError::InvalidCredentialsError,
            error_code is Some && error_code->Some_0@ != "InvalidClientTokenId"@ ==> (r matches CredentialsError::UnexpectedError(code)
                && code@ == error_code->Some_0@),
            error_code is None ==> (r matches CredentialsError::UnexpectedError(code) && code@
                == "Server Error"@),
    {
        match error_code {
            Some(code) => {
                let code = code.to_owned();
                if code == "InvalidClientTokenId".to_owned() {
                    CredentialsError::InvalidCredentialsError
                } else {
                    CredentialsError::UnexpectedError(code)
                }
            },
            None => CredentialsError::UnexpectedError("Server Error".to_owned()),
        }
    }
}

/// Whether credentials are valid, from the outcome of a caller-identity
/// request: they are when it succeeds and are not when the service rejects
/// them; any other failure is passed on.
pub fn credentials_validity(outcome: Result<(), CredentialsError>) -> (r: Result<bool, CredentialsError>)
    ensures
        outcome is Ok ==> r == Ok::<bool, CredentialsError>(true),
        outcome == Err::<(), CredentialsError>(CredentialsError::InvalidCredentialsError) ==> r
            == Ok::<bool, CredentialsError>(false),
        outcome is Err && outcome->Err_0 is UnexpectedError ==> r == Err::<bool, CredentialsError>(
            outcome->Err_0),
{
    match outcome {
        Ok(()) => Ok(true),
        Err(CredentialsError::InvalidCredentialsError) => Ok(false),
        Err(CredentialsError::UnexpectedError(code)) => Err(CredentialsError::UnexpectedError(code)),
    }
}

} // verus!
