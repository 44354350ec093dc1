//! Why an image could not be downloaded.

use vstd::prelude::*;
use crate::digest::DigestError;
use crate::ecr::{EcrPasswordError, EcrPasswordErrorView};
use crate::ecr::{EcrPublicPasswordError, EcrPublicPasswordErrorView};

verus! {

/// Any error of the database.
#[verifier::external_type_specification]
#[verifier::external_body]
pub struct ExDatabaseError(sqlx::Error);

/// Any error of the client that speaks to a remote registry.
#[verifier::external_type_specification]
#[verifier::external_body]
pub struct ExOciDistributionError(oci_client::errors::OciDistributionError);

/// Any error of reading JSON.
#[verifier::external_type_specification]
#[verifier::external_body]
pub struct ExJsonError(serde_json::Error);

/// What the storage of blobs says about a failure.
#[derive(Debug)]
pub struct StorageBackendError {
    pub message: String,
}

/// Why an image could not be downloaded.
#[derive(Debug)]
pub enum DownloadRemoteImageError {
    DbError(sqlx::Error),
    InvalidDigest(DigestError),
    DownloadAttemptsFailed,
    ManifestNotCanonicalized,
    OciClientError(oci_client::errors::OciDistributionError),
    StorageError(StorageBackendError),
    ManifestDeserializationError(serde_json::Error),
    EcrLoginError(EcrPasswordError),
    EcrPublicLoginError(EcrPublicPasswordError),
}

/// What a [`DownloadRemoteImageError`] says.
pub enum DownloadErrorView {
    DbError(sqlx::Error),
    InvalidDigest(Seq<char>),
    DownloadAttemptsFailed,
    ManifestNotCanonicalized,
    OciClientError(oci_client::errors::OciDistributionError),
    StorageError(Seq<char>),
    ManifestDeserializationError(serde_json::Error),
    EcrLoginError(EcrPasswordErrorView),
    EcrPublicLoginError(EcrPublicPasswordErrorView),
}

impl View for DownloadRemoteImageError {
    type V = DownloadErrorView;

    open spec fn view(&self) -> DownloadErrorView {
        match *self {
            DownloadRemoteImageError::DbError(e) => DownloadErrorView::DbError(e),
            DownloadRemoteImageError::InvalidDigest(e) => DownloadErrorView::InvalidDigest(e@),
            DownloadRemoteImageError::DownloadAttemptsFailed => {
                DownloadErrorView::DownloadAttemptsFailed
            },
            DownloadRemoteImageError::ManifestNotCanonicalized => {
                DownloadErrorView::ManifestNotCanonicalized
            },
            DownloadRemoteImageError::OciClientError(e) => DownloadErrorView::OciClientError(e),
            DownloadRemoteImageError::StorageError(e) => DownloadErrorView::StorageError(
                e.message@,
            ),
            DownloadRemoteImageError::ManifestDeserializationError(e) => {
                DownloadErrorView::ManifestDeserializationError(e)
            },
            DownloadRemoteImageError::EcrLoginError(e) => DownloadErrorView::EcrLoginError(e@),
            DownloadRemoteImageError::EcrPublicLoginError(e) => {
                DownloadErrorView::EcrPublicLoginError(e@)
            },
        }
    }
}

} // verus!
