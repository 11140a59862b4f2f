//! Values the application hands to its request handlers.
use vstd::prelude::*;
use vstd::string::StringExecFns;

verus! {

/// The base URL under which the application is reachable.
#[derive(Debug)]
pub struct AppBaseUrl(pub String);

impl AppBaseUrl {
    /// The link that activates the account whose identity reads `id`.
    pub fn activation_link(&self, id: &str) -> (r: String)
        ensures
            r@ == self.0@ + "/register/activate/"@ + id@,
    {
        let base = self.0.clone();
        base.concat("/register/activate/").concat(id)
    }

    /// Where an activation link sends the browser: the login page, told
    /// whether the activation succeeded.
    pub fn login_redirect(&self, activated: bool) -> (r: String)
        ensures
            activated ==> r@ == self.0@ + "/login?activated=true"@,
            !activated ==> r@ == self.0@ + "/login?activated=false"@,
    {
        let base = self.0.clone();
        if activated {
            base.concat("/login?activated=true")
        } else {
            base.concat("/login?activated=false")
        }
    }
}

} // verus!
