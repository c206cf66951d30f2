//! The sign-in / sign-up dialog: its two modes, the checks made before a
//! request is sent, and what a refused request leaves on screen.

use vstd::prelude::*;
use crate::text::str_eq;

verus! {

/// What the dialog tells its owner.
#[derive(Clone, Copy, PartialEq, Eq, Debug, Structural)]
pub enum AuthDialogEvent {
    Authenticated,
    Cancelled,
}

/// Whether the dialog signs in or creates an account.
#[derive(Clone, Copy, PartialEq, Eq, Debug, Structural)]
pub enum AuthDialogMode {
    Login,
    Signup,
}

impl AuthDialogMode {
    /// The dialog's heading, also the label of its main button.
    pub fn title(&self) -> (r: &'static str)
        ensures
            r@ == match self {
                AuthDialogMode::Login => "Sign In"@,
                AuthDialogMode::Signup => "Create Account"@,
            },
    {
        match self {
            AuthDialogMode::Login => "Sign In",
            AuthDialogMode::Signup => "Create Account",
        }
    }

    /// The line under the heading.
    pub fn subtitle(&self) -> (r: &'static str)
        ensures
            r@ == match self {
                AuthDialogMode::Login => "Sign in to sync your agent settings across devices"@,
                AuthDialogMode::Signup => "Sign up to sync your agent settings across devices"@,
            },
    {
        match self {
            AuthDialogMode::Login => "Sign in to sync your agent settings across devices",
            AuthDialogMode::Signup => "Sign up to sync your agent settings across devices",
        }
    }

    /// The other mode.
    pub open spec fn opposite(self) -> AuthDialogMode {
        match self {
            AuthDialogMode::Login => AuthDialogMode::Signup,
            AuthDialogMode::Signup => AuthDialogMode::Login,
        }
    }

    /// The other mode, which the link under the form switches to.
    pub fn other(&self) -> (r: AuthDialogMode)
        ensures
            r == self.opposite(),
    {
        match self {
            AuthDialogMode::Login => AuthDialogMode::Signup,
            AuthDialogMode::Signup => AuthDialogMode::Login,
        }
    }
}

/// The request a submission makes.
#[derive(Debug)]
pub enum AuthRequest {
    /// Nothing is sent: a request is already under way, or the form was
    /// refused (its error is shown).
    Nothing,
    Login { email: String, password: String },
    Signup { email: String, password: String },
}

/// Why an account request failed: an answer of the auth service with its
/// HTTP status and message, or another failure; `text` is what is shown.
pub struct AuthFailure {
    pub api: Option<(u16, String)>,
    pub text: String,
}

/// The message the auth service answers a sign-up with when the account
/// still needs its email confirmed.
pub open spec fn confirm_message() -> Seq<char> {
    "Please check your email to confirm your account, then sign in."@
}

/// The dialog's state: its mode and the error under the form.
pub struct AuthDialogView {
    pub mode: AuthDialogMode,
    pub auth_error: Option<String>,
}

impl AuthDialogView {
    pub fn new(mode: AuthDialogMode) -> (r: Self)
        ensures
            r.mode == mode,
            r.auth_error is None,
    {
        AuthDialogView { mode, auth_error: None }
    }

    /// The link under the form switches mode and clears the error.
    pub fn switch_mode(&mut self)
        ensures
            final(self).mode == old(self).mode.opposite(),
            final(self).auth_error is None,
    {
        self.auth_error = None;
        self.mode = self.mode.other();
    }

    /// The form is submitted with these fields. Nothing happens while the
    /// app is already signing in (`logging_in`, the app-wide sign-in state).
    /// Email and password must both be given, and when creating an account
    /// the password must be typed the same twice.
    pub fn submit(&mut self, logging_in: bool, email: String, password: String, confirm: &str) -> (r: AuthRequest)
        ensures
            final(self).mode == old(self).mode,
            logging_in ==> r is Nothing && final(self).auth_error == old(self).auth_error,
            !logging_in && (email@.len() == 0 || password@.len() == 0) ==> r is Nothing
                && (final(self).auth_error matches Some(e) && e@ == "Email and password are required"@),
            !logging_in && email@.len() > 0 && password@.len() > 0 && old(self).mode == AuthDialogMode::Signup
                && password@ != confirm@ ==> r is Nothing
                && (final(self).auth_error matches Some(e) && e@ == "Passwords do not match"@),
            !logging_in && email@.len() > 0 && password@.len() > 0 && old(self).mode == AuthDialogMode::Login ==>
                final(self).auth_error is None
                && (r matches AuthRequest::Login { email: e, password: p } && e == email && p == password),
            !logging_in && email@.len() > 0 && password@.len() > 0 && old(self).mode == AuthDialogMode::Signup
                && password@ == confirm@ ==> final(self).auth_error is None
                && (r matches AuthRequest::Signup { email: e, password: p } && e == email && p == password),
    {
        if logging_in {
            return AuthRequest::Nothing;
        }
        self.auth_error = None;
        if email.as_str().is_empty() || password.as_str().is_empty() {
            self.auth_error = Some("Email and password are required".to_owned());
            return AuthRequest::Nothing;
        }
        match self.mode {
            AuthDialogMode::Login => AuthRequest::Login { email, password },
            AuthDialogMode::Signup => {
                if !str_eq(password.as_str(), confirm) {
                    self.auth_error = Some("Passwords do not match".to_owned());
                    return AuthRequest::Nothing;
                }
                AuthRequest::Signup { email, password }
            },
        }
    }

    /// The request succeeded: the error goes and the dialog closes.
    pub fn succeeded(&mut self) -> (e: AuthDialogEvent)
        ensures
            e == AuthDialogEvent::Authenticated,
            final(self).auth_error is None,
            final(self).mode == old(self).mode,
    {
        self.auth_error = None;
        AuthDialogEvent::Authenticated
    }

    /// The request of mode `mode` failed. A sign-up the service answers
    /// with status 200 and the confirmation message is no failure: the
    /// dialog turns to signing in and returns the notice to show. Any other
    /// failure is shown under the form.
    pub fn failed(&mut self, mode: AuthDialogMode, failure: AuthFailure) -> (notice: Option<&'static str>)
        ensures
            (mode == AuthDialogMode::Signup && (failure.api matches Some((status, msg)) && status == 200 && msg@ == confirm_message())) ==> {
                &&& notice matches Some(n) && n@ == "Confirmation email sent. Please sign in."@
                &&& final(self).auth_error is None
                &&& final(self).mode == AuthDialogMode::Login
            },
            !(mode == AuthDialogMode::Signup && (failure.api matches Some((status, msg)) && status == 200 && msg@ == confirm_message())) ==> {
                &&& notice is None
                &&& final(self).auth_error == Some(failure.text)
                &&& final(self).mode == old(self).mode
            },
    {
        let confirmed = match (&mode, &failure.api) {
            (AuthDialogMode::Signup, Some((status, msg))) =>
                *status == 200 && str_eq(msg.as_str(), "Please check your email to confirm your account, then sign in."),
            _ => false,
        };
        if confirmed {
            self.auth_error = None;
            self.mode = AuthDialogMode::Login;
            Some("Confirmation email sent. Please sign in.")
        } else {
            self.auth_error = Some(failure.text);
            None
        }
    }
}

/// Whether the link to the other mode is shown: not while a request runs.
pub fn shows_mode_switch(busy: bool) -> (r: bool)
    ensures
        r == !busy,
{
    !busy
}

} // verus!
