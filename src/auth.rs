//! The request sent to the authentication service: a JSON body with the
//! username and password, or no body at all for an anonymous login.
use vstd::prelude::*;
use vstd::string::StringExecFns;

verus! {

/// Why the credential exchange failed.
#[derive(Clone, Copy, Debug, PartialEq, Eq, Structural)]
pub enum AuthError {
    /// The service could not be reached, or the exchange broke off.
    Transport,
    /// The answer was not JSON with the four result fields.
    Decode,
}

/// The lower-case hexadecimal digit for `n`, which is below 16.
pub open spec fn hex_digit(n: nat) -> char {
    seq!['0', '1', '2', '3', '4', '5', '6', '7', '8', '9', 'a', 'b', 'c', 'd', 'e', 'f'][n as int]
}

/// How one character stands inside a JSON string literal: the quote and the
/// backslash get a backslash, the control characters below U+0020 get their
/// short escape or `\u00XX`, and every other character stands as it is.
pub open spec fn json_escape(c: char) -> Seq<char> {
    if c == '"' {
        seq!['\\', '"']
    } else if c == '\\' {
        seq!['\\', '\\']
    } else if c == '\u{08}' {
        seq!['\\', 'b']
    } else if c == '\t' {
        seq!['\\', 't']
    } else if c == '\n' {
        seq!['\\', 'n']
    } else if c == '\u{0c}' {
        seq!['\\', 'f']
    } else if c == '\r' {
        seq!['\\', 'r']
    } else if (c as u32) < 0x20 {
        seq!['\\', 'u', '0', '0', hex_digit((c as u32 / 16) as nat), hex_digit((c as u32 % 16) as nat)]
    } else {
        seq![c]
    }
}

/// The characters of `s`, each escaped for a JSON string literal.
pub open spec fn json_escaped(s: Seq<char>) -> Seq<char>
    decreases s.len(),
{
    if s.len() == 0 {
        Seq::empty()
    } else {
        json_escaped(s.drop_last()) + json_escape(s.last())
    }
}

/// The JSON string literal for `s`: its escaped characters between quotes.
pub open spec fn json_quoted(s: Seq<char>) -> Seq<char> {
    seq!['"'] + json_escaped(s) + seq!['"']
}

/// Relies on `serde_json::to_string` on a `str`: it writes the string literal
/// (`format_escaped_str` and its escape table), into a `Vec`, which cannot
/// fail.
#[verifier::external_body]
fn json_string(s: &str) -> (r: Option<String>)
    ensures
        r is Some,
        r matches Some(q) ==> q@ == json_quoted(s@),
{
    serde_json::to_string(s).ok()
}

/// The JSON object with the two given string literals as its `username` and
/// `password` members.
pub open spec fn credentials_body(user_q: Seq<char>, pass_q: Seq<char>) -> Seq<char> {
    "{\"username\":"@ + user_q + ",\"password\":"@ + pass_q + "}"@
}

/// Writes the credentials object from the JSON literals of the username and
/// the password.
pub fn credentials_json(user_q: &str, pass_q: &str) -> (r: String)
    ensures
        r@ == credentials_body(user_q@, pass_q@),
{
    let mut body = String::from_str("{\"username\":");
    body.append(user_q);
    body.append(",\"password\":");
    body.append(pass_q);
    body.append("}");
    body
}

/// The body of the login request: none without a username, else the JSON
/// object with the username and the password.
pub fn auth_request_body(username: &Option<String>, password: &String) -> (r: Option<String>)
    ensures
        match username {
            None => r is None,
            Some(u) => r matches Some(b) && b@ == credentials_body(
                json_quoted(u@),
                json_quoted(password@),
            ),
        },
{
    match username {
        None => None,
        Some(u) => match (json_string(u.as_str()), json_string(password.as_str())) {
            (Some(uq), Some(pq)) => Some(credentials_json(uq.as_str(), pq.as_str())),
            _ => None,
        },
    }
}

} // verus!
