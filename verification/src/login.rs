//! The verified-identity payload and the domain rule applied to it.

use vstd::prelude::*;
use crate::errors::LoginError;

verus! {

/// The verified identity attached to a session: the user's email address,
/// as the identity provider reported it.
#[derive(Debug)]
pub struct UserData {
    pub email: String,
}

impl View for UserData {
    type V = Seq<char>;

    open spec fn view(&self) -> Seq<char> {
        self.email@
    }
}

impl Clone for UserData {
    fn clone(&self) -> (r: Self)
        ensures
            r@ == self@,
    {
        UserData { email: self.email.clone() }
    }
}

/// The domain of an email address, as the address parser reads it.
/// Relies on email_address_parser::EmailAddress: parsing is a function of
/// the input text alone.
pub uninterp spec fn email_domain_of(s: Seq<char>) -> Option<Seq<char>>;

/// Relies on email_address_parser::EmailAddress::parse and get_domain:
/// parses an address in strict mode and hands out its domain part.
#[verifier::external_body]
fn parse_email_domain(s: &str) -> (r: Option<String>)
    ensures
        match r {
            Some(d) => email_domain_of(s@) == Some(d@),
            None => email_domain_of(s@) is None,
        },
{
    email_address_parser::EmailAddress::parse(s, None).map(|a| a.get_domain().to_string())
}

/// Accept the identity when its email address parses and belongs to the
/// required domain; reject it otherwise.
pub fn check_user_domain(email: &str, required_domain: &String) -> (r: Result<
    UserData,
    LoginError,
>)
    ensures
        match r {
            Ok(u) => email_domain_of(email@) == Some(required_domain@) && u@ == email@,
            Err(e) => e == LoginError::IdentityRejected && email_domain_of(email@) != Some(
                required_domain@,
            ),
        },
{
    match parse_email_domain(email) {
        Some(domain) => {
            if domain == *required_domain {
                Ok(UserData { email: email.to_owned() })
            } else {
                Err(LoginError::IdentityRejected)
            }
        },
        None => Err(LoginError::IdentityRejected),
    }
}

} // verus!
