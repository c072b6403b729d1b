//! Identity management: authentication and authorization levels.
use vstd::prelude::*;
use vstd::string::*;
use crate::error::Error;
use crate::utils::same_text;

pub mod account;

pub use self::account::{Account, AccountSecret};
use self::account::is_account_for;

verus! {

/// Authentication request sent by a user.
pub struct AuthentificationRequest {
    pub email: String,
    pub password: String,
}

/// Levels of authorization.
#[derive(Debug, Clone, Copy, PartialEq, Eq, Structural)]
pub enum AuthorizationLevel {
    Basic,
    Weak,
    Strong,
}

/// Token that serves as a proof of identity and is issued for a limited time.
pub struct AuthorizationToken {}

/// An authenticated account and the level of authorization it holds.
pub struct Identity {
    pub account: Account,
    pub auth_level: AuthorizationLevel,
}

impl Identity {
    /// The identity of `account` at the basic authorization level.
    pub fn new(account: Account) -> (r: Identity)
        ensures
            r.account == account,
            r.auth_level == AuthorizationLevel::Basic,
    {
        Identity { account, auth_level: AuthorizationLevel::Basic }
    }

    /// Produces an identity from an authentication request. Only the
    /// credentials "admin" / "admin" are accepted; they yield a basic identity
    /// for a new "admin" account with a random key pair.
    pub fn authentificate(auth_request: AuthentificationRequest) -> (r: Result<Identity, Error>)
        ensures
            !(auth_request.email@ == "admin"@ && auth_request.password@ == "admin"@) ==> r
                == Err::<Identity, Error>(Error::AuthentificationError),
            (auth_request.email@ == "admin"@ && auth_request.password@ == "admin"@) ==> (r is Ok
                || r == Err::<Identity, Error>(Error::KeyGenerationError)),
            (auth_request.email@ == "admin"@ && auth_request.password@ == "admin"@) ==> r is Ok,
            r matches Ok(id) ==> id.account.username@ == "admin"@,
            r matches Ok(id) ==> id.auth_level == AuthorizationLevel::Basic && exists|
                secret: Seq<u8>,
            | is_account_for(id.account, "admin"@, "admin"@, secret),
    {
        if same_text(auth_request.email.as_str(), "admin") && same_text(
            auth_request.password.as_str(),
            "admin",
        ) {
            match Account::new(String::from_str("admin"), String::from_str("admin")) {
                Some(pair) => {
                    let (account, _secret) = pair;
                    Ok(Identity::new(account))
                },
                None => Err(Error::KeyGenerationError),
            }
        } else {
            Err(Error::AuthentificationError)
        }
    }
}

} // verus!
