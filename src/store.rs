use vstd::prelude::*;
use vstd::string::StringExecFns;

use crate::config::{is_missing_error, EnvironmentConfig};
use crate::error::ListError;
use crate::text::{has_prefix, str_eq, starts_with, trim_start_all, trim_start_matches};
use crate::traversal::{step_spec, wf_view, ListingStatus, PageEvent, TraversalView};
use crate::classify::Page;

verus! {

/// The kinds of store that a URI can name.
#[derive(Clone, Copy, Debug, PartialEq, Eq, Structural)]
pub enum BackendKind {
    S3,
    LocalFs,
}

/// The store kind a URI names by its scheme, if any.
pub open spec fn spec_backend_for_uri(uri: Seq<char>) -> Option<BackendKind> {
    if has_prefix(uri, "s3://"@) {
        Some(BackendKind::S3)
    } else if has_prefix(uri, "localfs://"@) {
        Some(BackendKind::LocalFs)
    } else {
        None
    }
}

pub fn backend_for_uri(uri: &str) -> (r: Option<BackendKind>)
    ensures
        r == spec_backend_for_uri(uri@),
{
    if starts_with(uri, "s3://") {
        Some(BackendKind::S3)
    } else if starts_with(uri, "localfs://") {
        Some(BackendKind::LocalFs)
    } else {
        None
    }
}

/// The first of the settings a remote bucket needs that `config` lacks.
pub open spec fn missing_required(config: EnvironmentConfig) -> Option<Seq<char>> {
    if config.spec_get("AWS_REGION"@) is None {
        Some("AWS_REGION"@)
    } else if config.spec_get("AWS_ACCESS_KEY_ID"@) is None {
        Some("AWS_ACCESS_KEY_ID"@)
    } else if config.spec_get("AWS_SECRET_ACCESS_KEY"@) is None {
        Some("AWS_SECRET_ACCESS_KEY"@)
    } else {
        None
    }
}

fn check_required(config: &EnvironmentConfig) -> (r: Result<(), ListError>)
    ensures
        match missing_required(*config) {
            Some(k) => is_missing_error(r, k),
            None => r is Ok,
        },
{
    if config.get("AWS_REGION").is_none() {
        return Err(ListError::Config(crate::config::missing_setting("AWS_REGION")));
    }
    if config.get("AWS_ACCESS_KEY_ID").is_none() {
        return Err(ListError::Config(crate::config::missing_setting("AWS_ACCESS_KEY_ID")));
    }
    if config.get("AWS_SECRET_ACCESS_KEY").is_none() {
        return Err(ListError::Config(crate::config::missing_setting("AWS_SECRET_ACCESS_KEY")));
    }
    Ok(())
}

/// A bucket of a remote object store.
#[derive(Debug)]
pub struct S3Bucket {
    pub name: String,
    pub config: EnvironmentConfig,
}

impl S3Bucket {
    /// Fails when the region or the credentials are missing from `config`.
    pub fn new(name: &str, config: EnvironmentConfig) -> (r: Result<S3Bucket, ListError>)
        ensures
            match missing_required(config) {
                Some(k) => is_missing_error(r, k),
                None => r matches Ok(b) && b.name@ == name@ && b.config == config,
            },
    {
        match check_required(&config) {
            Err(e) => Err(e),
            Ok(()) => Ok(S3Bucket { name: String::from_str(name), config }),
        }
    }
}

/// A directory of the local filesystem, served as a bucket.
#[derive(Debug)]
pub struct LocalFsBucket {
    pub name: String,
    pub config: EnvironmentConfig,
}

impl LocalFsBucket {
    pub fn new(name: &str, config: EnvironmentConfig) -> (r: LocalFsBucket)
        ensures
            r.name@ == name@,
            r.config == config,
    {
        LocalFsBucket { name: String::from_str(name), config }
    }
}

impl Clone for S3Bucket {
    fn clone(&self) -> (r: Self)
        ensures
            r.name == self.name,
            r.config.settings@ == self.config.settings@,
    {
        S3Bucket { name: self.name.clone(), config: self.config.clone() }
    }
}

impl Clone for LocalFsBucket {
    fn clone(&self) -> (r: Self)
        ensures
            r.name == self.name,
            r.config.settings@ == self.config.settings@,
    {
        LocalFsBucket { name: self.name.clone(), config: self.config.clone() }
    }
}

/// What every backend offers besides listing and fetching, which go through
/// the caller's transport.
pub trait ObjectStoreTrait {
    spec fn spec_name(&self) -> Seq<char>;

    spec fn spec_config(&self) -> EnvironmentConfig;

    fn name(&self) -> (r: &str)
        ensures
            r@ == self.spec_name(),
    ;

    fn config(&self) -> (r: &EnvironmentConfig)
        ensures
            *r == self.spec_config(),
    ;
}

impl ObjectStoreTrait for S3Bucket {
    open spec fn spec_name(&self) -> Seq<char> {
        self.name@
    }

    open spec fn spec_config(&self) -> EnvironmentConfig {
        self.config
    }

    fn name(&self) -> (r: &str) {
        self.name.as_str()
    }

    fn config(&self) -> (r: &EnvironmentConfig) {
        &self.config
    }
}

impl ObjectStoreTrait for LocalFsBucket {
    open spec fn spec_name(&self) -> Seq<char> {
        self.name@
    }

    open spec fn spec_config(&self) -> EnvironmentConfig {
        self.config
    }

    fn name(&self) -> (r: &str) {
        self.name.as_str()
    }

    fn config(&self) -> (r: &EnvironmentConfig) {
        &self.config
    }
}

/// An object store, one variant per backend.
#[derive(Debug)]
pub enum ObjectStore {
    S3Bucket(S3Bucket),
    LocalFsBucket(LocalFsBucket),
}

impl Clone for ObjectStore {
    fn clone(&self) -> (r: Self)
        ensures
            r.spec_name() == self.spec_name(),
            r.spec_uri() == self.spec_uri(),
            r.spec_config().settings@ == self.spec_config().settings@,
    {
        match self {
            ObjectStore::S3Bucket(b) => ObjectStore::S3Bucket(b.clone()),
            ObjectStore::LocalFsBucket(l) => ObjectStore::LocalFsBucket(l.clone()),
        }
    }
}

impl ObjectStore {
    pub open spec fn spec_name(&self) -> Seq<char> {
        match self {
            ObjectStore::S3Bucket(b) => b.name@,
            ObjectStore::LocalFsBucket(l) => l.name@,
        }
    }

    pub open spec fn spec_config(&self) -> EnvironmentConfig {
        match self {
            ObjectStore::S3Bucket(b) => b.config,
            ObjectStore::LocalFsBucket(l) => l.config,
        }
    }

    /// A remote bucket is named with its scheme; a local one by its path.
    pub open spec fn spec_uri(&self) -> Seq<char> {
        match self {
            ObjectStore::S3Bucket(b) => "s3://"@ + b.name@,
            ObjectStore::LocalFsBucket(l) => l.name@,
        }
    }

    /// Opens the store that `name` names: `s3://bucket` or `localfs://path`.
    /// Every leading repetition of the scheme is removed from the name. A
    /// remote bucket needs its region and credentials in `config`; any other
    /// scheme is unsupported.
    pub fn new(name: &str, config: EnvironmentConfig) -> (r: Result<ObjectStore, String>)
        ensures
            spec_backend_for_uri(name@) == Some(BackendKind::S3) ==> match missing_required(
                config,
            ) {
                Some(k) => r matches Err(m) && m@ == crate::config::missing_message(k),
                None => r matches Ok(ObjectStore::S3Bucket(b)) && b.name@ == trim_start_all(
                    name@,
                    "s3://"@,
                ) && b.config == config,
            },
            spec_backend_for_uri(name@) == Some(BackendKind::LocalFs) ==> (r matches Ok(
                ObjectStore::LocalFsBucket(l),
            ) && l.name@ == trim_start_all(name@, "localfs://"@) && l.config == config),
            spec_backend_for_uri(name@) is None ==> (r matches Err(m) && m@
                == "Unsupported object store."@),
    {
        match backend_for_uri(name) {
            Some(BackendKind::S3) => {
                let rest = trim_start_matches(name, "s3://");
                match S3Bucket::new(rest, config) {
                    Ok(bucket) => Ok(ObjectStore::S3Bucket(bucket)),
                    Err(e) => Err(e.message()),
                }
            },
            Some(BackendKind::LocalFs) => {
                let rest = trim_start_matches(name, "localfs://");
                Ok(ObjectStore::LocalFsBucket(LocalFsBucket::new(rest, config)))
            },
            None => Err(String::from_str("Unsupported object store.")),
        }
    }

    pub fn name(&self) -> (r: &str)
        ensures
            r@ == self.spec_name(),
    {
        match self {
            ObjectStore::S3Bucket(bucket) => bucket.name(),
            ObjectStore::LocalFsBucket(local_fs) => local_fs.name(),
        }
    }

    pub fn config(&self) -> (r: &EnvironmentConfig)
        ensures
            *r == self.spec_config(),
    {
        match self {
            ObjectStore::S3Bucket(bucket) => bucket.config(),
            ObjectStore::LocalFsBucket(local_fs) => local_fs.config(),
        }
    }

    pub fn uri(&self) -> (r: String)
        ensures
            r@ == self.spec_uri(),
    {
        match self {
            ObjectStore::S3Bucket(bucket) => String::from_str("s3://").concat(bucket.name.as_str()),
            ObjectStore::LocalFsBucket(local_fs) => String::from_str(local_fs.name.as_str()),
        }
    }
}

/// The name of the one column of an object-store table.
pub const URI_COLUMN: &'static str = "uri";

/// The position of the first pair of `row` that names a column other than
/// `uri`, if any.
pub open spec fn first_unknown_column(row: Seq<(String, String)>) -> Option<int> {
    if exists|i: int| 0 <= i < row.len() && #[trigger] row[i].0@ != URI_COLUMN@ {
        Some(
            choose|i: int|
                0 <= i < row.len() && row[i].0@ != URI_COLUMN@ && forall|j: int|
                    0 <= j < i ==> #[trigger] row[j].0@ == URI_COLUMN@,
        )
    } else {
        None
    }
}

proof fn lemma_first_unknown_column(row: Seq<(String, String)>, k: int)
    requires
        0 <= k < row.len(),
        row[k].0@ != URI_COLUMN@,
        forall|j: int| 0 <= j < k ==> #[trigger] row[j].0@ == URI_COLUMN@,
    ensures
        first_unknown_column(row) == Some(k),
{
    assert(row[k].0@ != URI_COLUMN@);
    let i = choose|i: int|
        0 <= i < row.len() && row[i].0@ != URI_COLUMN@ && forall|j: int|
            0 <= j < i ==> #[trigger] row[j].0@ == URI_COLUMN@;
    if i < k {
        assert(row[i].0@ == URI_COLUMN@);
    } else if i > k {
        assert(row[k].0@ == URI_COLUMN@);
    }
}

proof fn lemma_no_unknown_column(row: Seq<(String, String)>)
    requires
        forall|j: int| 0 <= j < row.len() ==> #[trigger] row[j].0@ == URI_COLUMN@,
    ensures
        first_unknown_column(row) is None,
{
}

/// A table of object stores, one row per store, holding its URI.
#[derive(Debug)]
pub struct ObjectStoreTable {
    uris: Vec<String>,
}

impl View for ObjectStoreTable {
    type V = Seq<Seq<char>>;

    closed spec fn view(&self) -> Seq<Seq<char>> {
        self.uris@.map_values(|u: String| u@)
    }
}

impl ObjectStoreTable {
    pub fn new() -> (r: ObjectStoreTable)
        ensures
            r@.len() == 0,
    {
        let r = ObjectStoreTable { uris: Vec::new() };
        assert(r@ =~= Seq::<Seq<char>>::empty());
        r
    }

    pub fn len(&self) -> (r: usize)
        ensures
            r == self@.len(),
    {
        self.uris.len()
    }

    /// The URI in row `i`.
    pub fn uri_at(&self, i: usize) -> (r: &str)
        requires
            i < self@.len(),
        ensures
            r@ == self@[i as int],
    {
        self.uris[i].as_str()
    }

    /// Adds a row given as (column, value) pairs. The table's one column is
    /// `uri`: a row naming any other column is refused whole, with the first
    /// such name in the message, and the table is left as it was.
    pub fn add_row(&mut self, row_data: Vec<(String, String)>) -> (r: Result<(), String>)
        ensures
            match first_unknown_column(row_data@) {
                Some(i) => r matches Err(m) && m@ == "Column not found: "@ + row_data@[i].0@
                    && final(self)@ == old(self)@,
                None => r is Ok && final(self)@ == old(self)@ + row_data@.map_values(
                    |c: (String, String)| c.1@,
                ),
            },
    {
        let mut k: usize = 0;
        while k < row_data.len()
            invariant
                k <= row_data@.len(),
                forall|j: int| 0 <= j < k ==> #[trigger] row_data@[j].0@ == URI_COLUMN@,
            decreases row_data.len() - k,
        {
            if !str_eq(row_data[k].0.as_str(), URI_COLUMN) {
                proof {
                    lemma_first_unknown_column(row_data@, k as int);
                }
                return Err(String::from_str("Column not found: ").concat(row_data[k].0.as_str()));
            }
            k = k + 1;
        }
        proof {
            lemma_no_unknown_column(row_data@);
        }
        let mut i: usize = 0;
        while i < row_data.len()
            invariant
                i <= row_data@.len(),
                self@ == old(self)@ + row_data@.take(i as int).map_values(
                    |c: (String, String)| c.1@,
                ),
            decreases row_data.len() - i,
        {
            let ghost prev = self@;
            self.uris.push(row_data[i].1.clone());
            assert(self@ =~= prev.push(row_data@[i as int].1@));
            assert(row_data@.take(i + 1).map_values(|c: (String, String)| c.1@) =~= row_data@.take(
                i as int,
            ).map_values(|c: (String, String)| c.1@).push(row_data@[i as int].1@));
            assert(self@ =~= old(self)@ + row_data@.take(i + 1).map_values(
                |c: (String, String)| c.1@,
            ));
            i = i + 1;
        }
        assert(row_data@.take(i as int) =~= row_data@);
        Ok(())
    }

    /// Adds a row for `object_store`.
    pub fn add_object_store(&mut self, object_store: ObjectStore) -> (r: Result<(), String>)
        ensures
            r is Ok,
            final(self)@ == old(self)@.push(object_store.spec_uri()),
    {
        let mut row_data: Vec<(String, String)> = Vec::new();
        row_data.push((String::from_str(URI_COLUMN), object_store.uri()));
        proof {
            lemma_no_unknown_column(row_data@);
        }
        assert(row_data@.map_values(|c: (String, String)| c.1@) =~= seq![object_store.spec_uri()]);
        self.add_row(row_data)
    }
}

/// What a bucket listing holds once fetched: the buckets read, or none when
/// the request failed or its body could not be read.
pub open spec fn bucket_listing_view(fetched: Result<Vec<ObjectStore>, ListError>) -> Seq<
    ObjectStore,
> {
    match fetched {
        Ok(buckets) => buckets@,
        Err(_) => Seq::empty(),
    }
}

/// Settles a bucket listing. It is advisory, so it never fails: a failed
/// request or an unreadable body gives an empty list.
pub fn list_buckets_outcome(fetched: Result<Vec<ObjectStore>, ListError>) -> (r: Result<
    Vec<ObjectStore>,
    ListError,
>)
    ensures
        r matches Ok(v) && v@ == bucket_listing_view(fetched),
{
    match fetched {
        Ok(buckets) => Ok(buckets),
        Err(_) => Ok(Vec::new()),
    }
}

/// An unreadable bucket-list body yields an empty list, while an unreadable
/// object-list body stops the listing with a parse error.
pub proof fn lemma_parse_failure_handling(v: TraversalView, body: String, msg: String)
    requires
        wf_view(v),
        v.status is Running,
        body@.len() > 0,
    ensures
        bucket_listing_view(Err(ListError::Parse(msg))) == Seq::<ObjectStore>::empty(),
        step_spec(v, PageEvent::Received(body, Err::<Page, String>(msg))).status
            == ListingStatus::Failed(ListError::Parse(msg)),
{
}

} // verus!
