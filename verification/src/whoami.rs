//! Who the stored token belongs to.

use vstd::prelude::*;
use vstd::string::StringExecFns;

verus! {

/// What the provider answers when asked for the authenticated user.
#[derive(Debug, PartialEq)]
pub struct UserResponse {
    /// The login name of the user.
    pub login: String,
    /// The provider's number for the user.
    pub id: u64,
}

/// The login name that a decoded answer holds, or, where decoding failed
/// with the account `reason`, the message that says so.
pub open spec fn login_or_message(parsed: Result<(Seq<char>, u64), Seq<char>>) -> Result<
    Seq<char>,
    Seq<char>,
> {
    match parsed {
        Ok(user) => Ok(user.0),
        Err(reason) => Err("Failed to parse user response: "@ + reason),
    }
}

/// The mathematical content of an attempt to decode a [`UserResponse`].
pub open spec fn parsed_view(parsed: Result<UserResponse, String>) -> Result<
    (Seq<char>, u64),
    Seq<char>,
> {
    match parsed {
        Ok(user) => Ok((user.login@, user.id)),
        Err(reason) => Err(reason@),
    }
}

/// Takes the login name out of a decoded answer; where decoding failed,
/// gives the message that says so, ending in the decoder's own account.
pub fn login_from_user_response(parsed: Result<UserResponse, String>) -> (r: Result<
    String,
    String,
>)
    ensures
        match login_or_message(parsed_view(parsed)) {
            Ok(login) => r matches Ok(found) && found@ == login,
            Err(message) => r matches Err(told) && told@ == message,
        },
{
    match parsed {
        Ok(user) => Ok(user.login),
        Err(reason) => {
            let mut message = String::from_str("Failed to parse user response: ");
            message.append(reason.as_str());
            Err(message)
        },
    }
}

} // verus!
