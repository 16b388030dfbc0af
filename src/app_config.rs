use vstd::prelude::*;

verus! {

/// Relies on uuid::Uuid::new_v4 and its Display, which writes the hyphenated
/// form: a fresh random identifier of 36 characters.
#[verifier::external_body]
fn new_profile_id() -> (r: String)
    ensures
        r@.len() == 36,
{
    uuid::Uuid::new_v4().to_string()
}

/// A saved configuration profile of an application.
#[derive(Debug)]
pub struct AppConfig {
    app_uri: String,
    profile_name: String,
    profile_id: String,
}

impl AppConfig {
    pub closed spec fn spec_app_uri(&self) -> Seq<char> {
        self.app_uri@
    }

    pub closed spec fn spec_profile_name(&self) -> Seq<char> {
        self.profile_name@
    }

    pub closed spec fn spec_profile_id(&self) -> Seq<char> {
        self.profile_id@
    }

    /// A profile of the application at `app_uri`. Without an identifier the
    /// profile gets a fresh random one.
    pub fn new(app_uri: String, profile_name: String, profile_id: Option<String>) -> (r: AppConfig)
        ensures
            r.spec_app_uri() == app_uri@,
            r.spec_profile_name() == profile_name@,
            match profile_id {
                Some(id) => r.spec_profile_id() == id@,
                None => r.spec_profile_id().len() == 36,
            },
    {
        let profile_id = match profile_id {
            Some(id) => id,
            None => new_profile_id(),
        };
        AppConfig { app_uri, profile_name, profile_id }
    }

    pub fn profile_name(&self) -> (r: String)
        ensures
            r@ == self.spec_profile_name(),
    {
        self.profile_name.clone()
    }

    pub fn profile_id(&self) -> (r: String)
        ensures
            r@ == self.spec_profile_id(),
    {
        self.profile_id.clone()
    }

    pub fn app_uri(&self) -> (r: String)
        ensures
            r@ == self.spec_app_uri(),
    {
        self.app_uri.clone()
    }
}

impl Clone for AppConfig {
    fn clone(&self) -> (r: Self)
        ensures
            r == *self,
    {
        AppConfig {
            app_uri: self.app_uri.clone(),
            profile_name: self.profile_name.clone(),
            profile_id: self.profile_id.clone(),
        }
    }
}

} // verus!
