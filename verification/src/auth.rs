//! The sign-in dialog: starting a sign-in and confirming the tokens entered,
//! where a Twitch token may be pasted as the whole address Twitch redirects
//! to and is cut out of it.

use vstd::prelude::*;
use crate::model::AuthTokens;
use crate::text::{chars_of, has_prefix, opt_str_view, push_str, starts_with_spec};

verus! {

/// The position of the first '&' at or after `j`, unless a line break comes
/// first.
pub open spec fn amp_end(s: Seq<char>, j: int) -> Option<int>
    decreases s.len() - j,
{
    if j < 0 || j >= s.len() {
        None
    } else if s[j] == '&' {
        Some(j)
    } else if s[j] == '\n' {
        None
    } else {
        amp_end(s, j + 1)
    }
}

/// The text the pattern `access_token=(.*?)&` captures in `s`, searching from
/// position `i`: at the first position where "access_token=" starts and a '&'
/// follows on the same line, the text up to the first such '&'.
pub open spec fn token_from(s: Seq<char>, i: int) -> Option<Seq<char>>
    decreases s.len() - i,
{
    if i < 0 || i >= s.len() || i + "access_token="@.len() > s.len() {
        None
    } else if s.subrange(i, i + "access_token="@.len()) == "access_token="@
        && amp_end(s, i + "access_token="@.len()) is Some {
        Some(s.subrange(i + "access_token="@.len(), amp_end(s, i + "access_token="@.len())->0))
    } else {
        token_from(s, i + 1)
    }
}

/// Cuts the access token out of a pasted sign-in address.
///
/// Calls `regex::Regex::captures` with the pattern `access_token=(.*?)&`
/// and takes its first group. The crate documents leftmost-first matching, a
/// lazy `*?` that takes as few characters as it can, and a `.` that matches
/// any character but a line break; the contract states that match.
#[verifier::external_body]
fn capture_access_token(s: &str) -> (r: Option<String>)
    ensures
        opt_str_view(r) == token_from(s@, 0),
{
    match regex::Regex::new("access_token=(.*?)&").unwrap().captures(s) {
        Some(c) => Some(c[1].to_owned()),
        None => None,
    }
}

/// A Twitch token that is to be cut out of a pasted address: it starts with
/// '#' or with "access".
pub open spec fn pasted_address(t: Seq<char>) -> bool {
    (t.len() > 0 && t[0] == '#') || starts_with_spec(t, "access"@)
}

fn is_pasted_address(t: &str) -> (r: bool)
    ensures
        r == pasted_address(t@),
{
    let tc = chars_of(t);
    let ac = chars_of("access");
    (tc.len() > 0 && tc[0] == '#') || has_prefix(tc.as_slice(), ac.as_slice())
}

/// The Twitch token as entered can be confirmed: it is not a pasted address,
/// or the address holds a token.
pub open spec fn twitch_token_ok(t: Seq<char>) -> bool {
    pasted_address(t) ==> token_from(t, 0) is Some
}

/// Whether the Twitch token as entered can be confirmed.
pub fn twitch_token_confirmable(token: &str) -> (r: bool)
    ensures
        r == twitch_token_ok(token@),
{
    if is_pasted_address(token) {
        capture_access_token(token).is_some()
    } else {
        true
    }
}

/// The tokens after the dialog is confirmed: a pasted Twitch address is
/// replaced by the token cut out of it, and a token field that holds a
/// token stops being shown for editing.
pub open spec fn confirmed(s: AuthTokens, n: AuthTokens) -> bool {
    &&& pasted_address(s.twitch_auth_token@) ==> n.twitch_auth_token@ == token_from(s.twitch_auth_token@, 0)->0
    &&& !pasted_address(s.twitch_auth_token@) ==> n.twitch_auth_token == s.twitch_auth_token
    &&& n.show_twitch_auth_token == (s.show_twitch_auth_token && !(pasted_address(s.twitch_auth_token@)
        && n.twitch_auth_token@.len() > 0))
    &&& n.show_dgg_auth_token == (s.show_dgg_auth_token && s.dgg_auth_token@.len() == 0)
    &&& n.twitch_username == s.twitch_username
    &&& n.youtube_auth_token == s.youtube_auth_token
    &&& n.dgg_username == s.dgg_username
    &&& n.dgg_auth_token == s.dgg_auth_token
    &&& n.dgg_verifier == s.dgg_verifier
}

/// The Destiny.gg page where the user makes a login key.
pub open spec fn dgg_key_page() -> Seq<char> {
    "https://www.destiny.gg/profile/developer"@
}

impl AuthTokens {
    /// Whether the Twitch chat session can be started with the saved login:
    /// both a user name and a token are set.
    pub fn twitch_login_set(&self) -> (r: bool)
        ensures
            r == (self.twitch_username@.len() > 0 && self.twitch_auth_token@.len() > 0),
    {
        !self.twitch_username.as_str().is_empty() && !self.twitch_auth_token.as_str().is_empty()
    }

    /// Confirms the dialog. Returns whether the Twitch token and the
    /// Destiny.gg token were being edited, which is when the chat
    /// connections are opened again with them.
    pub fn confirm(&mut self) -> (r: (bool, bool))
        requires
            twitch_token_ok(old(self).twitch_auth_token@),
        ensures
            r == (old(self).show_twitch_auth_token, old(self).show_dgg_auth_token),
            confirmed(*old(self), *final(self)),
    {
        let changed = (self.show_twitch_auth_token, self.show_dgg_auth_token);
        if is_pasted_address(self.twitch_auth_token.as_str()) {
            let cleaned = match capture_access_token(self.twitch_auth_token.as_str()) {
                Some(c) => c,
                None => String::new(),
            };
            let filled = !cleaned.as_str().is_empty();
            self.twitch_auth_token = cleaned;
            if filled {
                self.show_twitch_auth_token = false;
            }
        }
        if !self.dgg_auth_token.as_str().is_empty() {
            self.show_dgg_auth_token = false;
        }
        changed
    }

    /// Starts a Twitch sign-in: the token field is emptied and shown, and the
    /// sign-in page to open is returned.
    pub fn start_twitch_login(&mut self) -> (r: String)
        ensures
            final(self).twitch_auth_token@.len() == 0,
            final(self).show_twitch_auth_token,
            exists|x: u128| r@ == crate::twitch::authorize_url(crate::numbers::decimal_text(x as nat)),
            final(self).twitch_username == old(self).twitch_username,
            final(self).show_dgg_auth_token == old(self).show_dgg_auth_token,
            final(self).youtube_auth_token == old(self).youtube_auth_token,
            final(self).dgg_username == old(self).dgg_username,
            final(self).dgg_auth_token == old(self).dgg_auth_token,
            final(self).dgg_verifier == old(self).dgg_verifier,
    {
        self.twitch_auth_token = String::new();
        self.show_twitch_auth_token = true;
        crate::twitch::authenticate()
    }

    /// Starts a Destiny.gg sign-in: the token field is emptied and shown, and
    /// the page where a login key is made is returned.
    pub fn start_dgg_login(&mut self) -> (r: String)
        ensures
            final(self).dgg_auth_token@.len() == 0,
            final(self).show_dgg_auth_token,
            r@ == dgg_key_page(),
            final(self).twitch_username == old(self).twitch_username,
            final(self).twitch_auth_token == old(self).twitch_auth_token,
            final(self).show_twitch_auth_token == old(self).show_twitch_auth_token,
            final(self).youtube_auth_token == old(self).youtube_auth_token,
            final(self).dgg_username == old(self).dgg_username,
            final(self).dgg_verifier == old(self).dgg_verifier,
    {
        self.dgg_auth_token = String::new();
        self.show_dgg_auth_token = true;
        let mut r = String::new();
        push_str(&mut r, "https://www.destiny.gg/profile/developer");
        r
    }
}

} // verus!
