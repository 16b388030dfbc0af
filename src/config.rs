use vstd::prelude::*;
use vstd::string::StringExecFns;

use crate::error::ListError;
use crate::text::str_eq;

verus! {

/// The value that `settings` gives `key`: its last entry for that key.
pub open spec fn lookup(settings: Seq<(String, String)>, key: Seq<char>) -> Option<String>
    decreases settings.len(),
{
    if settings.len() == 0 {
        None
    } else if settings.last().0@ == key {
        Some(settings.last().1)
    } else {
        lookup(settings.drop_last(), key)
    }
}

/// Settings of an object store, by name: credentials, region, endpoint and
/// the like. A later entry for a name overrides an earlier one.
#[derive(Debug)]
pub struct EnvironmentConfig {
    pub settings: Vec<(String, String)>,
}

impl Clone for EnvironmentConfig {
    fn clone(&self) -> (r: Self)
        ensures
            r.settings@ == self.settings@,
    {
        let mut settings: Vec<(String, String)> = Vec::new();
        let mut i: usize = 0;
        while i < self.settings.len()
            invariant
                i <= self.settings@.len(),
                settings@ == self.settings@.take(i as int),
            decreases self.settings.len() - i,
        {
            let (k, v) = &self.settings[i];
            settings.push((k.clone(), v.clone()));
            assert(settings@ =~= self.settings@.take(i + 1));
            i = i + 1;
        }
        assert(self.settings@.take(i as int) =~= self.settings@);
        EnvironmentConfig { settings }
    }
}

impl EnvironmentConfig {
    pub fn new() -> (r: EnvironmentConfig)
        ensures
            r.settings@.len() == 0,
    {
        EnvironmentConfig { settings: Vec::new() }
    }

    pub open spec fn spec_get(&self, key: Seq<char>) -> Option<String> {
        lookup(self.settings@, key)
    }

    /// Sets `key` to `value`, overriding any earlier value.
    pub fn set(&mut self, key: String, value: String)
        ensures
            final(self).settings@ == old(self).settings@.push((key, value)),
            forall|k: Seq<char>|
                #[trigger] final(self).spec_get(k) == if k == key@ {
                    Some(value)
                } else {
                    old(self).spec_get(k)
                },
    {
        let ghost before = self.settings@;
        self.settings.push((key, value));
        assert(self.settings@.drop_last() =~= before);
    }

    pub fn get(&self, key: &str) -> (r: Option<&String>)
        ensures
            match self.spec_get(key@) {
                Some(v) => r == Some(&v),
                None => r is None,
            },
    {
        let mut i: usize = self.settings.len();
        assert(self.settings@.take(i as int) =~= self.settings@);
        while i > 0
            invariant
                i <= self.settings@.len(),
                lookup(self.settings@, key@) == lookup(self.settings@.take(i as int), key@),
            decreases i,
        {
            let ghost upto = self.settings@.take(i as int);
            assert(upto.drop_last() =~= self.settings@.take(i - 1));
            assert(upto.last() == self.settings@[i - 1]);
            if str_eq(self.settings[i - 1].0.as_str(), key) {
                return Some(&self.settings[i - 1].1);
            }
            i = i - 1;
        }
        None
    }
}

/// What a store client needs: credentials, region and the base URL.
#[derive(Debug)]
pub struct S3Client {
    pub access_key: String,
    pub secret_key: String,
    pub region: String,
    pub url: String,
}

/// The base URL of a bucket, or of the store itself when no bucket is named.
/// An endpoint override is used as given, followed by `/bucket`; otherwise
/// the regional AWS host is used, with the bucket as a sub-domain.
pub open spec fn spec_bucket_url(
    region: Seq<char>,
    endpoint_url: Option<Seq<char>>,
    bucket_name: Option<Seq<char>>,
) -> Seq<char> {
    match endpoint_url {
        Some(url) => match bucket_name {
            Some(b) => url + "/"@ + b,
            None => url,
        },
        None => match bucket_name {
            Some(b) => "https://"@ + b + ".s3."@ + region + ".amazonaws.com"@,
            None => "https://s3."@ + region + ".amazonaws.com"@,
        },
    }
}

pub fn configure_bucket_url(region: &str, endpoint_url: Option<&str>, bucket_name: Option<&str>) -> (r:
    String)
    ensures
        r@ == spec_bucket_url(
            region@,
            match endpoint_url {
                Some(u) => Some(u@),
                None => None,
            },
            match bucket_name {
                Some(b) => Some(b@),
                None => None,
            },
        ),
{
    match endpoint_url {
        Some(url) => match bucket_name {
            Some(b) => String::from_str(url).concat("/").concat(b),
            None => String::from_str(url),
        },
        None => match bucket_name {
            Some(b) => String::from_str("https://").concat(b).concat(".s3.").concat(region).concat(
                ".amazonaws.com",
            ),
            None => String::from_str("https://s3.").concat(region).concat(".amazonaws.com"),
        },
    }
}

/// The client of `config` for `bucket_name` (none: the store root). Fails
/// before any request when the region, the access key or the secret key is
/// missing, checked in that order.
pub fn create_s3_client(config: &EnvironmentConfig, bucket_name: Option<&str>) -> (r: Result<
    S3Client,
    ListError,
>)
    ensures
        config.spec_get("AWS_REGION"@) is None ==> is_missing_error(r, "AWS_REGION"@),
        config.spec_get("AWS_REGION"@) is Some && config.spec_get("AWS_ACCESS_KEY_ID"@) is None
            ==> is_missing_error(r, "AWS_ACCESS_KEY_ID"@),
        config.spec_get("AWS_REGION"@) is Some && config.spec_get("AWS_ACCESS_KEY_ID"@) is Some
            && config.spec_get("AWS_SECRET_ACCESS_KEY"@) is None ==> is_missing_error(
            r,
            "AWS_SECRET_ACCESS_KEY"@,
        ),
        ({
            let region = config.spec_get("AWS_REGION"@);
            let access = config.spec_get("AWS_ACCESS_KEY_ID"@);
            let secret = config.spec_get("AWS_SECRET_ACCESS_KEY"@);
            region is Some && access is Some && secret is Some ==> (r matches Ok(c) && c.region
                == region->Some_0 && c.access_key == access->Some_0 && c.secret_key
                == secret->Some_0 && c.url@ == spec_bucket_url(
                region->Some_0@,
                match config.spec_get("S3_ENDPOINT_URL"@) {
                    Some(u) => Some(u@),
                    None => None,
                },
                match bucket_name {
                    Some(b) => Some(b@),
                    None => None,
                },
            ))
        }),
{
    let region = match config.get("AWS_REGION") {
        Some(v) => v,
        None => return Err(ListError::Config(missing_setting("AWS_REGION"))),
    };
    let access_key = match config.get("AWS_ACCESS_KEY_ID") {
        Some(v) => v,
        None => return Err(ListError::Config(missing_setting("AWS_ACCESS_KEY_ID"))),
    };
    let secret_key = match config.get("AWS_SECRET_ACCESS_KEY") {
        Some(v) => v,
        None => return Err(ListError::Config(missing_setting("AWS_SECRET_ACCESS_KEY"))),
    };
    let endpoint_url = match config.get("S3_ENDPOINT_URL") {
        Some(u) => Some(u.as_str()),
        None => None,
    };
    let url = configure_bucket_url(region.as_str(), endpoint_url, bucket_name);
    Ok(
        S3Client {
            access_key: access_key.clone(),
            secret_key: secret_key.clone(),
            region: region.clone(),
            url,
        },
    )
}

/// `r` is the error for a missing setting `key`.
pub open spec fn is_missing_error<T>(r: Result<T, ListError>, key: Seq<char>) -> bool {
    r matches Err(ListError::Config(m)) && m@ == missing_message(key)
}

/// The message for a setting that is missing.
pub open spec fn missing_message(key: Seq<char>) -> Seq<char> {
    "Missing "@ + key + " in the configuration"@
}

pub fn missing_setting(key: &str) -> (r: String)
    ensures
        r@ == missing_message(key@),
{
    String::from_str("Missing ").concat(key).concat(" in the configuration")
}

} // verus!
