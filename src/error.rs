use vstd::prelude::*;

verus! {

/// The failure kinds of the core; each maps to a distinct negative status code.
#[derive(Debug, Clone, Copy, PartialEq, Eq, Structural)]
pub enum VaultError {
    /// A missing, empty or mis-sized buffer.
    InvalidArgument,
    /// The entropy source could not be read.
    RngFailure,
    /// A prekey or proof signature did not verify.
    SignatureInvalid,
    /// Decryption failed; the cause is deliberately not reported.
    AuthenticationFailed,
    /// A key or point encoding is malformed.
    EncodingInvalid,
    /// A primitive failed unexpectedly.
    InternalFailure,
}

/// Status code of success at the boundary.
pub const STATUS_OK: i32 = 0;

/// The status code that stands for each error kind.
pub open spec fn error_code_spec(e: VaultError) -> i32 {
    match e {
        VaultError::InvalidArgument => -1i32,
        VaultError::RngFailure => -2i32,
        VaultError::SignatureInvalid => -3i32,
        VaultError::AuthenticationFailed => -4i32,
        VaultError::EncodingInvalid => -5i32,
        VaultError::InternalFailure => -6i32,
    }
}

impl VaultError {
    /// The negative status code reported for this error at the boundary.
    pub fn code(&self) -> (r: i32)
        ensures
            r == error_code_spec(*self),
            r < 0,
    {
        match self {
            VaultError::InvalidArgument => -1i32,
            VaultError::RngFailure => -2i32,
            VaultError::SignatureInvalid => -3i32,
            VaultError::AuthenticationFailed => -4i32,
            VaultError::EncodingInvalid => -5i32,
            VaultError::InternalFailure => -6i32,
        }
    }

    /// A short description of the error kind.
    pub fn message(&self) -> (r: String) {
        match self {
            VaultError::InvalidArgument => String::from_str("invalid argument"),
            VaultError::RngFailure => String::from_str("entropy source unavailable"),
            VaultError::SignatureInvalid => String::from_str("signature invalid"),
            VaultError::AuthenticationFailed => String::from_str("authentication failed"),
            VaultError::EncodingInvalid => String::from_str("encoding invalid"),
            VaultError::InternalFailure => String::from_str("internal failure"),
        }
    }
}

/// Status code of a result: zero on success, the error's code otherwise.
pub open spec fn status_spec<T>(r: Result<T, VaultError>) -> i32 {
    match r {
        Ok(_) => STATUS_OK,
        Err(e) => error_code_spec(e),
    }
}

/// Distinct errors have distinct status codes.
pub proof fn lemma_codes_distinct(a: VaultError, b: VaultError)
    ensures
        error_code_spec(a) == error_code_spec(b) <==> a == b,
{
}

} // verus!
