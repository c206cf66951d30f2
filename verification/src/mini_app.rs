//! The mini-app launcher: web apps opened already signed in, through an
//! authentication URL that carries the session's tokens.

use vstd::prelude::*;
use vstd::utf8::encode_utf8;
use crate::text::{push_str, string_of};

verus! {

/// What the launcher tells its owner.
#[derive(Clone, Copy, PartialEq, Eq, Debug, Structural)]
pub enum MiniAppEvent {
    BackPressed,
}

/// The upper-case hexadecimal digit of `d < 16`.
pub open spec fn hex_digit(d: int) -> char {
    if d < 10 { ((d + 48) as u8) as char } else { ((d + 55) as u8) as char }
}

/// Whether `b` is an ASCII letter or digit.
pub open spec fn ascii_alphanumeric(b: u8) -> bool {
    (48 <= b <= 57) || (65 <= b <= 90) || (97 <= b <= 122)
}

/// The percent-encoding of `bytes` with the `NON_ALPHANUMERIC` set: ASCII
/// letters and digits stay, every other byte becomes `%` and two upper-case
/// hexadecimal digits.
pub open spec fn percent_encoded_bytes(bytes: Seq<u8>) -> Seq<char>
    decreases bytes.len(),
{
    if bytes.len() == 0 {
        Seq::empty()
    } else {
        let b = bytes.last();
        percent_encoded_bytes(bytes.drop_last()) + if ascii_alphanumeric(b) {
            seq![b as char]
        } else {
            seq!['%', hex_digit(b as int / 16), hex_digit(b as int % 16)]
        }
    }
}

/// The percent-encoding of the UTF-8 bytes of `s`.
pub open spec fn percent_encoded(s: Seq<char>) -> Seq<char> {
    percent_encoded_bytes(encode_utf8(s))
}

/// `percent_encoding::utf8_percent_encode(s, NON_ALPHANUMERIC)`: every
/// UTF-8 byte of `s` that is not an ASCII letter or digit is written as `%`
/// and its value in two upper-case hexadecimal digits, as the crate
/// documents for that set.
#[verifier::external_body]
fn percent_encode_component(s: &str) -> (r: String)
    ensures
        r@ == percent_encoded(s@),
{
    percent_encoding::utf8_percent_encode(s, percent_encoding::NON_ALPHANUMERIC).to_string()
}

/// The sign-in URL that opens a mini app at `redirect_path` with the given
/// session tokens.
pub open spec fn auth_url(access_token: Seq<char>, refresh_token: Seq<char>, redirect_path: Seq<char>) -> Seq<char> {
    "https://raven-ai.one/auth?access_token="@ + percent_encoded(access_token)
        + "&refresh_token="@ + percent_encoded(refresh_token)
        + "&redirect="@ + percent_encoded(redirect_path)
}

/// Builds the sign-in URL of a mini app.
pub fn build_auth_url(access_token: &str, refresh_token: &str, redirect_path: &str) -> (r: String)
    ensures
        r@ == auth_url(access_token@, refresh_token@, redirect_path@),
{
    let a = percent_encode_component(access_token);
    let f = percent_encode_component(refresh_token);
    let d = percent_encode_component(redirect_path);
    let mut out: Vec<char> = Vec::new();
    push_str(&mut out, "https://raven-ai.one/auth?access_token=");
    push_str(&mut out, a.as_str());
    push_str(&mut out, "&refresh_token=");
    push_str(&mut out, f.as_str());
    push_str(&mut out, "&redirect=");
    push_str(&mut out, d.as_str());
    string_of(out.as_slice())
}

/// What clicking a mini app does.
#[derive(Debug)]
pub enum MiniAppLaunch {
    /// Not signed in: the sign-in dialog opens.
    SignIn,
    /// The app opens at this URL.
    Open(String),
}

/// Launches the app at `redirect_path`: signed-in users with a session
/// (access and refresh tokens) open it; everyone else is asked to sign in.
pub fn launch_mini_app(logged_in: bool, session: Option<(&str, &str)>, redirect_path: &str) -> (r: MiniAppLaunch)
    ensures
        match session {
            Some((a, f)) if logged_in => r matches MiniAppLaunch::Open(u) && u@ == auth_url(a@, f@, redirect_path@),
            _ => r is SignIn,
        },
{
    if !logged_in {
        return MiniAppLaunch::SignIn;
    }
    match session {
        Some((a, f)) => MiniAppLaunch::Open(build_auth_url(a, f, redirect_path)),
        None => MiniAppLaunch::SignIn,
    }
}

} // verus!
