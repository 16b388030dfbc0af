//! An object-store listing engine: enumerates the objects under a prefix of a
//! bucket, optionally descending into virtual directories, filtering on the
//! client side and capping the number of results. Network and file access are
//! left to the caller: the engine is a state machine that says which request to
//! issue next and what to make of each response.

pub mod app_config;
pub mod classify;
pub mod config;
pub mod error;
pub mod record;
pub mod request;
pub mod store;
pub mod text;
pub mod traversal;

pub use app_config::AppConfig;
pub use classify::{process_file_object, process_response_body, Page};
pub use config::{create_s3_client, EnvironmentConfig, S3Client};
pub use error::ListError;
pub use record::{FileObjectFilter, ObjectRecord};
pub use request::{ObjectFetch, RequestStep, TransportOutcome};
pub use store::{
    backend_for_uri, list_buckets_outcome, BackendKind, LocalFsBucket, ObjectStore,
    ObjectStoreTable, ObjectStoreTrait, S3Bucket,
};
pub use traversal::{
    get_effective_max_keys, ListFilesParams, ListingStatus, PageEvent, PageRequest, Traversal,
    AWS_MAX_LIST_OBJECTS,
};
