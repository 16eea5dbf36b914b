//! The credential vault's rules. Secrets live in the operating system's
//! credential store under the service name below; an empty secret is never
//! stored.

use vstd::prelude::*;
use crate::error::{ErrorKind, ErrorView, ObError, err_of, res_view};
use crate::text::{chars_of, concat, owned, trim_chars, trimmed};

verus! {

/// The service under which credentials are filed.
pub const CREDENTIAL_SERVICE: &'static str = "OB Oraborus";

/// The handle of the credential vault.
pub struct SecretVault;

/// Whether a secret may be stored: it must hold something besides white space.
pub open spec fn secret_verdict(value: Seq<char>) -> Result<(), ErrorView> {
    if trimmed(value).len() == 0 {
        Err(err_of(ErrorKind::Validation, "Secret cannot be empty"@))
    } else {
        Ok(())
    }
}

impl SecretVault {
    /// Checks a secret before it is stored.
    pub fn check_secret(&self, value: &str) -> (r: Result<(), ObError>)
        ensures
            res_view(r) == secret_verdict(value@),
    {
        let c = chars_of(value);
        let t = trim_chars(&c);
        if t.len() == 0 {
            Err(ObError::Validation(owned("Secret cannot be empty")))
        } else {
            Ok(())
        }
    }

    /// The error for a provider with no stored credential.
    pub fn missing_credential(&self, provider_id: &str) -> (e: ObError)
        ensures
            e@ == err_of(ErrorKind::NotConnected, "No credential stored for "@ + provider_id@),
    {
        ObError::NotConnected(concat("No credential stored for ", provider_id))
    }

    /// The error for a failure of the credential store, with the store's own message.
    pub fn store_failure(&self, context: &str, detail: &str) -> (e: ObError)
        ensures
            e@ == err_of(ErrorKind::Internal, context@ + ": "@ + detail@),
    {
        let head = concat(context, ": ");
        ObError::Internal(concat(head.as_str(), detail))
    }
}

} // verus!
