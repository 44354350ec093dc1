//! Downloading a manifest and the blobs that it lists, step by step.
//!
//! As with a whole image, each step says what is to be asked next, and the
//! answer leads to the step that follows.

use vstd::prelude::*;
use crate::error::{DownloadErrorView, DownloadRemoteImageError, StorageBackendError};
use crate::image::{Reference, ReferenceView};

verus! {

/// The error `ManifestParsingError` of the OCI client, with its message.
pub uninterp spec fn manifest_parsing_error(
    message: Seq<char>,
) -> oci_client::errors::OciDistributionError;

/// Makes the variant `OciDistributionError::ManifestParsingError` of the OCI
/// client, which is settled by its message.
#[verifier::external_body]
fn parsing_error(message: String) -> (error: oci_client::errors::OciDistributionError)
    ensures
        error == manifest_parsing_error(message@),
{
    oci_client::errors::OciDistributionError::ManifestParsingError(message)
}

/// Reads the constant `IMAGE_MANIFEST_MEDIA_TYPE` of the OCI client.
#[verifier::external_body]
fn image_manifest_media_type() -> (media_type: &'static str)
    ensures
        media_type@ == "application/vnd.docker.distribution.manifest.v2+json"@,
{
    oci_client::manifest::IMAGE_MANIFEST_MEDIA_TYPE
}

/// Reads the constant `IMAGE_MANIFEST_LIST_MEDIA_TYPE` of the OCI client.
#[verifier::external_body]
fn image_manifest_list_media_type() -> (media_type: &'static str)
    ensures
        media_type@ == "application/vnd.docker.distribution.manifest.list.v2+json"@,
{
    oci_client::manifest::IMAGE_MANIFEST_LIST_MEDIA_TYPE
}

/// Reads the constant `OCI_IMAGE_MEDIA_TYPE` of the OCI client.
#[verifier::external_body]
fn oci_image_media_type() -> (media_type: &'static str)
    ensures
        media_type@ == "application/vnd.oci.image.manifest.v1+json"@,
{
    oci_client::manifest::OCI_IMAGE_MEDIA_TYPE
}

/// Reads the constant `OCI_IMAGE_INDEX_MEDIA_TYPE` of the OCI client.
#[verifier::external_body]
fn oci_image_index_media_type() -> (media_type: &'static str)
    ensures
        media_type@ == "application/vnd.oci.image.index.v1+json"@,
{
    oci_client::manifest::OCI_IMAGE_INDEX_MEDIA_TYPE
}

/// The kinds of manifests that are asked for.
pub open spec fn wanted_media_types() -> Seq<Seq<char>> {
    seq![
        "application/vnd.docker.distribution.manifest.v2+json"@,
        "application/vnd.docker.distribution.manifest.list.v2+json"@,
        "application/vnd.oci.image.manifest.v1+json"@,
        "application/vnd.oci.image.index.v1+json"@,
    ]
}

/// The manifest is to be pulled from the remote registry.
#[derive(Debug)]
pub struct PullManifest {
    pub reference: Reference,
    /// The repository that the manifest is to be kept in.
    pub repo_name: String,
}

/// It is to be read from the manifest which blobs it lists.
#[derive(Debug)]
pub struct ReadManifest {
    pub reference: Reference,
    pub repo_name: String,
    pub raw_manifest: Vec<u8>,
    pub digest: String,
}

/// The blobs that the manifest lists are to be downloaded, all at a time.
#[derive(Debug)]
pub struct DownloadBlobs {
    pub reference: Reference,
    pub repo_name: String,
    pub raw_manifest: Vec<u8>,
    pub digest: String,
    pub blobs: Vec<String>,
}

/// The manifest is to be saved in the database, and linked to the repository.
#[derive(Debug)]
pub struct SaveManifest {
    pub repo_name: String,
    pub raw_manifest: Vec<u8>,
    pub digest: String,
}

/// What is to be done next for a manifest.
#[derive(Debug)]
pub enum ManifestStep {
    PullManifest(PullManifest),
    ReadManifest(ReadManifest),
    DownloadBlobs(DownloadBlobs),
    SaveManifest(SaveManifest),
    Done(Result<(), DownloadRemoteImageError>),
}

/// What a [`ManifestStep`] says.
pub enum ManifestStepView {
    PullManifest { reference: ReferenceView, repo_name: Seq<char> },
    ReadManifest {
        reference: ReferenceView,
        repo_name: Seq<char>,
        raw_manifest: Seq<u8>,
        digest: Seq<char>,
    },
    DownloadBlobs {
        reference: ReferenceView,
        repo_name: Seq<char>,
        raw_manifest: Seq<u8>,
        digest: Seq<char>,
        blobs: Seq<Seq<char>>,
    },
    SaveManifest { repo_name: Seq<char>, raw_manifest: Seq<u8>, digest: Seq<char> },
    Done(Result<(), DownloadErrorView>),
}

/// What some texts say.
pub open spec fn all_texts(texts: Seq<String>) -> Seq<Seq<char>> {
    texts.map_values(|text: String| text@)
}

/// What a success or an error says.
pub open spec fn done_or_error(result: Result<(), DownloadRemoteImageError>) -> Result<
    (),
    DownloadErrorView,
> {
    match result {
        Ok(_) => Ok(()),
        Err(error) => Err(error@),
    }
}

impl View for ManifestStep {
    type V = ManifestStepView;

    open spec fn view(&self) -> ManifestStepView {
        match *self {
            ManifestStep::PullManifest(step) => ManifestStepView::PullManifest {
                reference: step.reference@,
                repo_name: step.repo_name@,
            },
            ManifestStep::ReadManifest(step) => ManifestStepView::ReadManifest {
                reference: step.reference@,
                repo_name: step.repo_name@,
                raw_manifest: step.raw_manifest@,
                digest: step.digest@,
            },
            ManifestStep::DownloadBlobs(step) => ManifestStepView::DownloadBlobs {
                reference: step.reference@,
                repo_name: step.repo_name@,
                raw_manifest: step.raw_manifest@,
                digest: step.digest@,
                blobs: all_texts(step.blobs@),
            },
            ManifestStep::SaveManifest(step) => ManifestStepView::SaveManifest {
                repo_name: step.repo_name@,
                raw_manifest: step.raw_manifest@,
                digest: step.digest@,
            },
            ManifestStep::Done(result) => ManifestStepView::Done(done_or_error(result)),
        }
    }
}

/// What the pulling of a manifest says: its bytes and its digest.
pub open spec fn pulled_manifest(
    pulled: Result<(Vec<u8>, String), oci_client::errors::OciDistributionError>,
) -> Result<(Seq<u8>, Seq<char>), oci_client::errors::OciDistributionError> {
    match pulled {
        Ok((raw_manifest, digest)) => Ok((raw_manifest@, digest@)),
        Err(error) => Err(error),
    }
}

/// What the reading of a manifest says: the blobs that it lists, or what is
/// wrong with it.
pub open spec fn read_manifest(blobs: Result<Vec<String>, String>) -> Result<
    Seq<Seq<char>>,
    Seq<char>,
> {
    match blobs {
        Ok(blobs) => Ok(all_texts(blobs@)),
        Err(message) => Err(message@),
    }
}

/// What follows [`PullManifest`].
pub open spec fn after_pull(
    reference: ReferenceView,
    repo_name: Seq<char>,
    pulled: Result<(Seq<u8>, Seq<char>), oci_client::errors::OciDistributionError>,
) -> ManifestStepView {
    match pulled {
        Ok((raw_manifest, digest)) => ManifestStepView::ReadManifest {
            reference,
            repo_name,
            raw_manifest,
            digest,
        },
        Err(error) => ManifestStepView::Done(Err(DownloadErrorView::OciClientError(error))),
    }
}

/// What follows [`ReadManifest`].
pub open spec fn after_read(
    reference: ReferenceView,
    repo_name: Seq<char>,
    raw_manifest: Seq<u8>,
    digest: Seq<char>,
    blobs: Result<Seq<Seq<char>>, Seq<char>>,
) -> ManifestStepView {
    match blobs {
        Ok(blobs) => ManifestStepView::DownloadBlobs {
            reference,
            repo_name,
            raw_manifest,
            digest,
            blobs,
        },
        Err(message) => ManifestStepView::Done(
            Err(DownloadErrorView::OciClientError(manifest_parsing_error(message))),
        ),
    }
}

/// What follows [`DownloadBlobs`].
pub open spec fn after_blobs(
    repo_name: Seq<char>,
    raw_manifest: Seq<u8>,
    digest: Seq<char>,
    downloaded: Result<(), DownloadErrorView>,
) -> ManifestStepView {
    match downloaded {
        Ok(_) => ManifestStepView::SaveManifest { repo_name, raw_manifest, digest },
        Err(error) => ManifestStepView::Done(Err(error)),
    }
}

/// What follows [`SaveManifest`].
pub open spec fn after_save_manifest(saved: Result<(), sqlx::Error>) -> ManifestStepView {
    match saved {
        Ok(_) => ManifestStepView::Done(Ok(())),
        Err(error) => ManifestStepView::Done(Err(DownloadErrorView::DbError(error))),
    }
}

/// Begins the download of a manifest and all that it lists.
///
/// `reference` MUST reference a digest (_not_ a tag)
pub fn download_manifest_and_layers(reference: Reference, local_repo_name: String) -> (next:
    ManifestStep)
    requires
        reference@.digest is Some,
    ensures
        next@ == (ManifestStepView::PullManifest {
            reference: reference@,
            repo_name: local_repo_name@,
        }),
        next == ManifestStep::PullManifest(
            (PullManifest { reference, repo_name: local_repo_name }),
        ),
{
    ManifestStep::PullManifest(PullManifest { reference, repo_name: local_repo_name })
}

impl PullManifest {
    /// The kinds of manifests to ask for.
    pub fn accepted_media_types(&self) -> (media_types: Vec<&'static str>)
        ensures
            media_types@.map_values(|media_type: &'static str| media_type@)
                == wanted_media_types(),
            media_types@.len() == 4,
            media_types@[0]@ == "application/vnd.docker.distribution.manifest.v2+json"@,
            media_types@[1]@ == "application/vnd.docker.distribution.manifest.list.v2+json"@,
            media_types@[2]@ == "application/vnd.oci.image.manifest.v1+json"@,
            media_types@[3]@ == "application/vnd.oci.image.index.v1+json"@,
    {
        let mut media_types: Vec<&'static str> = Vec::new();
        media_types.push(image_manifest_media_type());
        media_types.push(image_manifest_list_media_type());
        media_types.push(oci_image_media_type());
        media_types.push(oci_image_index_media_type());
        assert(media_types@.map_values(|media_type: &'static str| media_type@)
            =~= wanted_media_types());
        media_types
    }

    /// Goes on with the manifest's bytes and digest.
    pub fn pulled(
        self,
        pulled: Result<(Vec<u8>, String), oci_client::errors::OciDistributionError>,
    ) -> (next: ManifestStep)
        ensures
            next@ == after_pull(self.reference@, self.repo_name@, pulled_manifest(pulled)),
            next == match pulled {
                Ok((raw_manifest, digest)) => ManifestStep::ReadManifest(
                    (ReadManifest {
                        reference: self.reference,
                        repo_name: self.repo_name,
                        raw_manifest,
                        digest,
                    }),
                ),
                Err(error) => ManifestStep::Done(
                    Err(DownloadRemoteImageError::OciClientError(error)),
                ),
            },
    {
        match pulled {
            Ok((raw_manifest, digest)) => ManifestStep::ReadManifest(
                ReadManifest {
                    reference: self.reference,
                    repo_name: self.repo_name,
                    raw_manifest,
                    digest,
                },
            ),
            Err(error) => ManifestStep::Done(Err(DownloadRemoteImageError::OciClientError(error))),
        }
    }
}

impl ReadManifest {
    /// Goes on with the digests of the blobs that the manifest lists, or with
    /// what is wrong with it.
    pub fn read(self, blobs: Result<Vec<String>, String>) -> (next: ManifestStep)
        ensures
            next@ == after_read(
                self.reference@,
                self.repo_name@,
                self.raw_manifest@,
                self.digest@,
                read_manifest(blobs),
            ),
            match blobs {
                Ok(blobs) => next == ManifestStep::DownloadBlobs(
                    (DownloadBlobs {
                        reference: self.reference,
                        repo_name: self.repo_name,
                        raw_manifest: self.raw_manifest,
                        digest: self.digest,
                        blobs,
                    }),
                ),
                Err(message) => next == ManifestStep::Done(
                    Err(
                        DownloadRemoteImageError::OciClientError(manifest_parsing_error(message@)),
                    ),
                ),
            },
    {
        match blobs {
            Ok(blobs) => ManifestStep::DownloadBlobs(
                DownloadBlobs {
                    reference: self.reference,
                    repo_name: self.repo_name,
                    raw_manifest: self.raw_manifest,
                    digest: self.digest,
                    blobs,
                },
            ),
            Err(message) => ManifestStep::Done(
                Err(DownloadRemoteImageError::OciClientError(parsing_error(message))),
            ),
        }
    }
}

impl DownloadBlobs {
    /// Begins the download of the `i`-th blob.
    pub fn download_blob(&self, i: usize) -> (next: BlobStep)
        requires
            i < self.blobs.len(),
        ensures
            next@ == (BlobStepView::FindBlob {
                blob: BlobView {
                    reference: self.reference@,
                    repo_name: self.repo_name@,
                    digest: self.blobs@[i as int]@,
                },
            }),
            next matches BlobStep::FindBlob(step) && {
                &&& step.blob.reference.registry@ == self.reference.registry@
                &&& step.blob.reference.repository@ == self.reference.repository@
                &&& step.blob.reference@ == self.reference@
                &&& match self.reference.digest {
                    Some(digest) => step.blob.reference.digest matches Some(other) && other@
                        == digest@,
                    None => step.blob.reference.digest is None,
                }
                &&& step.blob.repo_name@ == self.repo_name@
                &&& step.blob.digest@ == self.blobs@[i as int]@
            },
    {
        BlobStep::FindBlob(
            FindBlob {
                blob: Blob {
                    reference: self.reference.clone(),
                    repo_name: self.repo_name.clone(),
                    digest: self.blobs[i].clone(),
                },
            },
        )
    }

    /// Goes on when all blobs were downloaded, or with the error of one that
    /// could not be.
    pub fn downloaded(self, downloaded: Result<(), DownloadRemoteImageError>) -> (next:
        ManifestStep)
        ensures
            next@ == after_blobs(
                self.repo_name@,
                self.raw_manifest@,
                self.digest@,
                done_or_error(downloaded),
            ),
            next == match downloaded {
                Ok(_) => ManifestStep::SaveManifest(
                    (SaveManifest {
                        repo_name: self.repo_name,
                        raw_manifest: self.raw_manifest,
                        digest: self.digest,
                    }),
                ),
                Err(error) => ManifestStep::Done(Err(error)),
            },
    {
        match downloaded {
            Ok(_) => ManifestStep::SaveManifest(
                SaveManifest {
                    repo_name: self.repo_name,
                    raw_manifest: self.raw_manifest,
                    digest: self.digest,
                },
            ),
            Err(error) => ManifestStep::Done(Err(error)),
        }
    }
}

impl SaveManifest {
    /// Ends the download, once the manifest was saved.
    pub fn saved(self, saved: Result<(), sqlx::Error>) -> (next: ManifestStep)
        ensures
            next@ == after_save_manifest(saved),
            next == match saved {
                Ok(_) => ManifestStep::Done(Ok(())),
                Err(error) => ManifestStep::Done(Err(DownloadRemoteImageError::DbError(error))),
            },
    {
        match saved {
            Ok(_) => ManifestStep::Done(Ok(())),
            Err(error) => ManifestStep::Done(Err(DownloadRemoteImageError::DbError(error))),
        }
    }
}

/// A blob that is to be downloaded.
#[derive(Debug)]
pub struct Blob {
    /// Where the manifest stands that lists the blob.
    pub reference: Reference,
    /// The repository that the blob is to be linked to.
    pub repo_name: String,
    pub digest: String,
}

/// What a [`Blob`] says.
pub struct BlobView {
    pub reference: ReferenceView,
    pub repo_name: Seq<char>,
    pub digest: Seq<char>,
}

impl View for Blob {
    type V = BlobView;

    open spec fn view(&self) -> BlobView {
        BlobView {
            reference: self.reference@,
            repo_name: self.repo_name@,
            digest: self.digest@,
        }
    }
}

/// It is to be found out whether the blob is there already.
#[derive(Debug)]
pub struct FindBlob {
    pub blob: Blob,
}

/// The blob is to be pulled from the remote registry.
#[derive(Debug)]
pub struct PullBlob {
    pub blob: Blob,
}

/// What was pulled is to be written to the storage.
#[derive(Debug)]
pub struct StoreBlob {
    pub blob: Blob,
    /// Whether the storage is to verify that what it writes has the blob's
    /// digest.
    pub verify: bool,
}

/// The blob is to be saved in the database, with its size in bytes.
#[derive(Debug)]
pub struct SaveBlob {
    pub blob: Blob,
    pub size: i64,
}

/// The blob is to be linked to the repository.
#[derive(Debug)]
pub struct LinkBlob {
    pub blob: Blob,
}

/// What is to be done next for a blob.
#[derive(Debug)]
pub enum BlobStep {
    FindBlob(FindBlob),
    PullBlob(PullBlob),
    StoreBlob(StoreBlob),
    SaveBlob(SaveBlob),
    LinkBlob(LinkBlob),
    Done(Result<(), DownloadRemoteImageError>),
}

/// What a [`BlobStep`] says.
pub enum BlobStepView {
    FindBlob { blob: BlobView },
    PullBlob { blob: BlobView },
    StoreBlob { blob: BlobView, verify: bool },
    SaveBlob { blob: BlobView, size: i64 },
    LinkBlob { blob: BlobView },
    Done(Result<(), DownloadErrorView>),
}

impl View for BlobStep {
    type V = BlobStepView;

    open spec fn view(&self) -> BlobStepView {
        match *self {
            BlobStep::FindBlob(step) => BlobStepView::FindBlob { blob: step.blob@ },
            BlobStep::PullBlob(step) => BlobStepView::PullBlob { blob: step.blob@ },
            BlobStep::StoreBlob(step) => BlobStepView::StoreBlob {
                blob: step.blob@,
                verify: step.verify,
            },
            BlobStep::SaveBlob(step) => BlobStepView::SaveBlob {
                blob: step.blob@,
                size: step.size,
            },
            BlobStep::LinkBlob(step) => BlobStepView::LinkBlob { blob: step.blob@ },
            BlobStep::Done(result) => BlobStepView::Done(done_or_error(result)),
        }
    }
}

/// The number that a length is saved as: the length itself, as far as the
/// database's signed numbers reach.
pub open spec fn saved_size(len: u64) -> i64 {
    if len <= i64::MAX {
        len as i64
    } else {
        (len - 0x1_0000_0000_0000_0000) as i64
    }
}

/// A length is saved as the number that it is. Only a length that no signed number
/// reaches wraps around, by two to the power of sixty-four.
pub proof fn law_size_is_the_length(len: u64)
    ensures
        len <= i64::MAX ==> saved_size(len) == len,
        len > i64::MAX ==> saved_size(len) == len - 0x1_0000_0000_0000_0000,
{
}

/// Manifests of images and of lists of images are asked for, those of Docker before
/// those of OCI, and no others.
pub proof fn law_media_types_of_images_and_lists(media_type: Seq<char>)
    ensures
        wanted_media_types().contains(media_type) <==> media_type
            == "application/vnd.docker.distribution.manifest.v2+json"@ || media_type
            == "application/vnd.docker.distribution.manifest.list.v2+json"@ || media_type
            == "application/vnd.oci.image.manifest.v1+json"@ || media_type
            == "application/vnd.oci.image.index.v1+json"@,
        wanted_media_types().len() == 4,
        wanted_media_types()[0] == "application/vnd.docker.distribution.manifest.v2+json"@,
        wanted_media_types()[1] == "application/vnd.docker.distribution.manifest.list.v2+json"@,
        wanted_media_types()[2] == "application/vnd.oci.image.manifest.v1+json"@,
        wanted_media_types()[3] == "application/vnd.oci.image.index.v1+json"@,
{
    assert(wanted_media_types().contains(wanted_media_types()[0]));
    assert(wanted_media_types().contains(wanted_media_types()[1]));
    assert(wanted_media_types().contains(wanted_media_types()[2]));
    assert(wanted_media_types().contains(wanted_media_types()[3]));
}

/// What follows [`FindBlob`].
pub open spec fn after_find_blob(
    blob: BlobView,
    already_has_blob: Result<i64, sqlx::Error>,
) -> BlobStepView {
    match already_has_blob {
        Err(error) => BlobStepView::Done(Err(DownloadErrorView::DbError(error))),
        Ok(already_has_blob) => if already_has_blob == 1 {
            BlobStepView::LinkBlob { blob }
        } else {
            BlobStepView::PullBlob { blob }
        },
    }
}

/// What follows [`PullBlob`]. What comes from a remote registry is verified.
pub open spec fn after_pull_blob(
    blob: BlobView,
    pulled: Result<(), oci_client::errors::OciDistributionError>,
) -> BlobStepView {
    match pulled {
        Err(error) => BlobStepView::Done(Err(DownloadErrorView::OciClientError(error))),
        Ok(_) => BlobStepView::StoreBlob { blob, verify: true },
    }
}

/// What follows [`StoreBlob`].
pub open spec fn after_store_blob(
    blob: BlobView,
    stored: Result<u64, Seq<char>>,
) -> BlobStepView {
    match stored {
        Err(message) => BlobStepView::Done(Err(DownloadErrorView::StorageError(message))),
        Ok(len) => BlobStepView::SaveBlob { blob, size: saved_size(len) },
    }
}

/// What follows [`SaveBlob`].
pub open spec fn after_save_blob(
    blob: BlobView,
    saved: Result<(), sqlx::Error>,
) -> BlobStepView {
    match saved {
        Err(error) => BlobStepView::Done(Err(DownloadErrorView::DbError(error))),
        Ok(_) => BlobStepView::LinkBlob { blob },
    }
}

/// What follows [`LinkBlob`].
pub open spec fn after_link_blob(linked: Result<(), sqlx::Error>) -> BlobStepView {
    match linked {
        Err(error) => BlobStepView::Done(Err(DownloadErrorView::DbError(error))),
        Ok(_) => BlobStepView::Done(Ok(())),
    }
}

/// What the storage of a blob says: how many bytes were stored, or what went
/// wrong.
pub open spec fn stored_len(stored: Result<u64, StorageBackendError>) -> Result<u64, Seq<char>> {
    match stored {
        Ok(len) => Ok(len),
        Err(error) => Err(error.message@),
    }
}

fn size_to_save(len: u64) -> (size: i64)
    ensures
        size == saved_size(len),
        len <= i64::MAX ==> size == len,
        len > i64::MAX ==> size == len - 0x1_0000_0000_0000_0000,
{
    assert(len <= 0x7fff_ffff_ffff_ffff || len as i64 == len - 0x1_0000_0000_0000_0000)
        by (bit_vector);
    len as i64
}

impl FindBlob {
    /// Goes on knowing whether the blob is there, in which case the answer is 1.
    pub fn found(self, already_has_blob: Result<i64, sqlx::Error>) -> (next: BlobStep)
        ensures
            next@ == after_find_blob(self.blob@, already_has_blob),
            next == match already_has_blob {
                Err(error) => BlobStep::Done(Err(DownloadRemoteImageError::DbError(error))),
                Ok(answer) => if answer == 1 {
                    BlobStep::LinkBlob((LinkBlob { blob: self.blob }))
                } else {
                    BlobStep::PullBlob((PullBlob { blob: self.blob }))
                },
            },
    {
        match already_has_blob {
            Err(error) => BlobStep::Done(Err(DownloadRemoteImageError::DbError(error))),
            Ok(already_has_blob) => if already_has_blob == 1 {
                BlobStep::LinkBlob(LinkBlob { blob: self.blob })
            } else {
                BlobStep::PullBlob(PullBlob { blob: self.blob })
            },
        }
    }
}

impl PullBlob {
    /// Goes on once the blob began to come in.
    pub fn pulled(
        self,
        pulled: Result<(), oci_client::errors::OciDistributionError>,
    ) -> (next: BlobStep)
        ensures
            next@ == after_pull_blob(self.blob@, pulled),
            next == match pulled {
                Err(error) => BlobStep::Done(Err(DownloadRemoteImageError::OciClientError(error))),
                Ok(_) => BlobStep::StoreBlob((StoreBlob { blob: self.blob, verify: true })),
            },
    {
        match pulled {
            Err(error) => BlobStep::Done(Err(DownloadRemoteImageError::OciClientError(error))),
            Ok(_) => BlobStep::StoreBlob(StoreBlob { blob: self.blob, verify: true }),
        }
    }
}

impl StoreBlob {
    /// Goes on with the number of bytes that were stored.
    pub fn stored(self, stored: Result<u64, StorageBackendError>) -> (next: BlobStep)
        ensures
            next@ == after_store_blob(self.blob@, stored_len(stored)),
            match stored {
                Err(error) => next == BlobStep::Done(
                    Err(DownloadRemoteImageError::StorageError(error)),
                ),
                Ok(len) => next matches BlobStep::SaveBlob(step) && step.blob == self.blob && (
                step.size == if len <= i64::MAX {
                    len as int
                } else {
                    len - 0x1_0000_0000_0000_0000
                }),
            },
    {
        match stored {
            Err(error) => BlobStep::Done(Err(DownloadRemoteImageError::StorageError(error))),
            Ok(len) => BlobStep::SaveBlob(SaveBlob { blob: self.blob, size: size_to_save(len) }),
        }
    }
}

impl SaveBlob {
    /// Goes on once the blob was saved.
    pub fn saved(self, saved: Result<(), sqlx::Error>) -> (next: BlobStep)
        ensures
            next@ == after_save_blob(self.blob@, saved),
            next == match saved {
                Err(error) => BlobStep::Done(Err(DownloadRemoteImageError::DbError(error))),
                Ok(_) => BlobStep::LinkBlob((LinkBlob { blob: self.blob })),
            },
    {
        match saved {
            Err(error) => BlobStep::Done(Err(DownloadRemoteImageError::DbError(error))),
            Ok(_) => BlobStep::LinkBlob(LinkBlob { blob: self.blob }),
        }
    }
}

impl LinkBlob {
    /// Ends the download, once the blob was linked.
    pub fn linked(self, linked: Result<(), sqlx::Error>) -> (next: BlobStep)
        ensures
            next@ == after_link_blob(linked),
            next == match linked {
                Err(error) => BlobStep::Done(Err(DownloadRemoteImageError::DbError(error))),
                Ok(_) => BlobStep::Done(Ok(())),
            },
    {
        match linked {
            Err(error) => BlobStep::Done(Err(DownloadRemoteImageError::DbError(error))),
            Ok(_) => BlobStep::Done(Ok(())),
        }
    }
}

} // verus!
