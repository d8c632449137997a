use vstd::prelude::*;

verus! {

/// The address of Pushover's messages API.
pub const PUSHOVER_MESSAGES_URL: &'static str = "https://api.pushover.net/1/messages.json";

/// The form fields of a Pushover message, in the order sent: `token`, `user`
/// and `message`, each with its value as given. They are sent form-encoded,
/// as the messages API takes them.
pub fn pushover_fields(token: &str, user: &str, message: &str) -> (r: Vec<(String, String)>)
    ensures
        r@.len() == 3,
        r@[0].0@ == "token"@,
        r@[0].1@ == token@,
        r@[1].0@ == "user"@,
        r@[1].1@ == user@,
        r@[2].0@ == "message"@,
        r@[2].1@ == message@,
{
    let mut r: Vec<(String, String)> = Vec::new();
    r.push((String::from_str("token"), String::from_str(token)));
    r.push((String::from_str("user"), String::from_str(user)));
    r.push((String::from_str("message"), String::from_str(message)));
    r
}

} // verus!
