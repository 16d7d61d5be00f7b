//! Sender identities and display names.
//!
//! The chat transport hands the library a plain description of the inbound
//! message's sender and, when the message is a reply, of the replied-to
//! message's sender. The display-name policy prefers a platform handle, then
//! "first + last name", then the first name alone.

use vstd::prelude::*;
use vstd::string::*;

verus! {

/// A user as the transport layer describes one.
pub struct UserInfo {
    /// Stable identity of the user on the platform.
    pub id: i64,
    /// Platform handle, if the user has one.
    pub username: Option<String>,
    /// First name.
    pub first_name: String,
    /// Last name, if the user has one.
    pub last_name: Option<String>,
}

/// The context an inbound command arrives with.
pub struct MessageContext {
    /// The sender of the message; absent for channel-origin messages.
    pub sender: Option<UserInfo>,
    /// The sender of the message this one replies to, if it is a reply.
    pub replied_to_sender: Option<UserInfo>,
}

/// The display name of a user: the platform handle prefixed with `@` if
/// present, else "first + last name" if a last name is present, else the
/// first name alone.
pub open spec fn spec_display_name(u: UserInfo) -> Seq<char> {
    match u.username {
        Some(username) => "@"@ + username@,
        None => match u.last_name {
            Some(last_name) => u.first_name@ + " "@ + last_name@,
            None => u.first_name@,
        },
    }
}

/// Get the sender of the given message context.
///
/// This function returns `None` if the message was sent within a channel.
pub fn get_message_sender(ctx: &MessageContext) -> (r: Option<&UserInfo>)
    ensures
        match ctx.sender {
            Some(u) => r matches Some(v) && *v == u,
            None => r is None,
        },
{
    ctx.sender.as_ref()
}

/// Get the display name of the user.
pub fn get_user_display_name(u: &UserInfo) -> (r: String)
    ensures
        r@ == spec_display_name(*u),
{
    match &u.username {
        Some(username) => {
            let mut s = String::from_str("@");
            s.append(username.as_str());
            s
        },
        None => match &u.last_name {
            Some(last_name) => {
                let mut s = u.first_name.clone();
                s.append(" ");
                s.append(last_name.as_str());
                s
            },
            None => u.first_name.clone(),
        },
    }
}

} // verus!
