//! The login page's decisions: when the credentials go out, what a failed
//! login shows, and where a signed-in user is sent.
use vstd::prelude::*;
use crate::text::owned;
use crate::json::{Json, opt_view, str_field};

verus! {

/// What the login form shows: whether a login request is on its way, and
/// the error of the last attempt.
pub struct LoginForm {
    pub loading: bool,
    pub error: Option<String>,
}

/// What the page does after a step of the login.
pub enum LoginStep {
    /// Nothing more: the form shows its state.
    Stay,
    /// Send these credentials to the login endpoint.
    SendCredentials { username: String, password: String },
    /// Keep this token, load the signed-in user, and open the devices page.
    Enter { token: String },
}

impl LoginForm {
    /// A fresh form: idle, no error.
    pub fn new() -> (r: Self)
        ensures
            !r.loading,
            r.error is None,
    {
        LoginForm { loading: false, error: None }
    }

    /// The form is submitted. Both fields are needed: where one is empty the
    /// form says so and nothing is sent; otherwise the form waits for the
    /// answer, its error cleared, and the credentials go out as typed.
    pub fn submit(&mut self, username: &str, password: &str) -> (r: LoginStep)
        ensures
            (username@.len() == 0 || password@.len() == 0) ==> {
                &&& r is Stay
                &&& final(self).loading == old(self).loading
                &&& opt_view(final(self).error) == Some("Username and password are required."@)
            },
            (username@.len() > 0 && password@.len() > 0) ==> {
                &&& final(self).loading
                &&& final(self).error is None
                &&& r matches LoginStep::SendCredentials { username: u, password: p } && u@ == username@ && p@
                    == password@
            },
    {
        if username.unicode_len() == 0 || password.unicode_len() == 0 {
            self.error = Some(owned("Username and password are required."));
            return LoginStep::Stay;
        }
        self.loading = true;
        self.error = None;
        LoginStep::SendCredentials { username: owned(username), password: owned(password) }
    }

    /// The login request answered: a token lets the user in (the form is
    /// left as it is, since the page goes away); an error is shown and the
    /// form is usable again.
    pub fn finish(&mut self, result: Result<String, String>) -> (r: LoginStep)
        ensures
            match result {
                Ok(tok) => *final(self) == *old(self) && (r matches LoginStep::Enter { token } && token@ == tok@),
                Err(e) => r is Stay && !final(self).loading && opt_view(final(self).error) == Some(e@),
            },
    {
        match result {
            Ok(tok) => LoginStep::Enter { token: tok },
            Err(e) => {
                self.error = Some(e);
                self.loading = false;
                LoginStep::Stay
            },
        }
    }
}

/// The server version the unauthenticated health answer reports.
pub fn server_version(health: &Json) -> (r: Option<String>)
    ensures
        opt_view(r) == health@.at("version"@).as_str(),
{
    str_field(health, "version")
}

/// Where a user who is already signed in is sent from the login page.
pub fn login_redirect(authenticated: bool) -> (r: Option<&'static str>)
    ensures
        match r {
            Some(path) => authenticated && path@ == "/devices"@,
            None => !authenticated,
        },
{
    if authenticated {
        Some("/devices")
    } else {
        None
    }
}

} // verus!
