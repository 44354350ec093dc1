use oci_client::errors::OciDistributionError;
use registry_proxy::error::{DownloadRemoteImageError, StorageBackendError};
use registry_proxy::image::Reference;
use registry_proxy::manifest::{download_manifest_and_layers, BlobStep, DownloadBlobs};
use registry_proxy::manifest::{ManifestStep, PullManifest, ReadManifest, SaveManifest};

fn reference() -> Reference {
    Reference {
        registry: "docker.io".to_string(),
        repository: "library/alpine".to_string(),
        tag: None,
        digest: Some("sha256:aaaa".to_string()),
    }
}

fn pull() -> PullManifest {
    match download_manifest_and_layers(reference(), "f/docker/library/alpine".to_string()) {
        ManifestStep::PullManifest(pull) => pull,
        other => panic!("{:?}", other),
    }
}

fn read() -> ReadManifest {
    match pull().pulled(Ok((b"{}".to_vec(), "sha256:cccc".to_string()))) {
        ManifestStep::ReadManifest(read) => read,
        other => panic!("{:?}", other),
    }
}

fn blobs() -> DownloadBlobs {
    match read().read(Ok(vec!["sha256:1".to_string(), "sha256:2".to_string()])) {
        ManifestStep::DownloadBlobs(blobs) => blobs,
        other => panic!("{:?}", other),
    }
}

fn save() -> SaveManifest {
    match blobs().downloaded(Ok(())) {
        ManifestStep::SaveManifest(save) => save,
        other => panic!("{:?}", other),
    }
}

fn manifest_error(step: ManifestStep) -> DownloadRemoteImageError {
    match step {
        ManifestStep::Done(Err(error)) => error,
        other => panic!("{:?}", other),
    }
}

#[test]
fn manifest_is_pulled_read_and_saved() {
    let pull = pull();
    assert_eq!(pull.reference.digest.as_deref(), Some("sha256:aaaa"));
    assert_eq!(pull.repo_name, "f/docker/library/alpine");
    let read = read();
    assert_eq!(read.raw_manifest, b"{}");
    assert_eq!(blobs().blobs, ["sha256:1", "sha256:2"]);
    let save = save();
    assert_eq!(save.repo_name, "f/docker/library/alpine");
    assert_eq!(save.raw_manifest, b"{}");
    assert_eq!(save.digest, "sha256:cccc");
    assert!(matches!(save.saved(Ok(())), ManifestStep::Done(Ok(()))));
}

#[test]
fn accepted_media_types_are_those_of_images_and_indexes() {
    assert_eq!(
        pull().accepted_media_types(),
        [
            "application/vnd.docker.distribution.manifest.v2+json",
            "application/vnd.docker.distribution.manifest.list.v2+json",
            "application/vnd.oci.image.manifest.v1+json",
            "application/vnd.oci.image.index.v1+json",
        ]
    );
}

#[test]
fn failed_pull_ends_the_download() {
    let error = manifest_error(pull().pulled(Err(OciDistributionError::PullNoLayersError)));
    assert!(matches!(
        error,
        DownloadRemoteImageError::OciClientError(OciDistributionError::PullNoLayersError)
    ));
}

#[test]
fn unreadable_manifest_ends_the_download() {
    match manifest_error(read().read(Err("expected value at line 1".to_string()))) {
        DownloadRemoteImageError::OciClientError(OciDistributionError::ManifestParsingError(
            message,
        )) => assert_eq!(message, "expected value at line 1"),
        other => panic!("{:?}", other),
    }
}

#[test]
fn failed_blob_ends_the_download() {
    let failed = Err(DownloadRemoteImageError::DbError(sqlx::Error::RowNotFound));
    assert!(matches!(
        manifest_error(blobs().downloaded(failed)),
        DownloadRemoteImageError::DbError(sqlx::Error::RowNotFound)
    ));
}

#[test]
fn manifest_that_cannot_be_saved_is_an_error() {
    assert!(matches!(
        manifest_error(save().saved(Err(sqlx::Error::PoolClosed))),
        DownloadRemoteImageError::DbError(sqlx::Error::PoolClosed)
    ));
}

/// What is answered about a blob, and how the download of it ended.
struct BlobAnswers {
    found: Result<i64, sqlx::Error>,
    pulled: Result<(), OciDistributionError>,
    stored: Result<u64, StorageBackendError>,
    saved: Result<(), sqlx::Error>,
    linked: Result<(), sqlx::Error>,
}

fn all_well() -> BlobAnswers {
    BlobAnswers { found: Ok(0), pulled: Ok(()), stored: Ok(7), saved: Ok(()), linked: Ok(()) }
}

fn run_blob(answers: BlobAnswers) -> (Result<(), DownloadRemoteImageError>, Vec<String>) {
    let mut steps: Vec<String> = Vec::new();
    let first = blobs().download_blob(1);
    let second = match first {
        BlobStep::FindBlob(find) => {
            assert_eq!(find.blob.digest, "sha256:2");
            assert_eq!(find.blob.repo_name, "f/docker/library/alpine");
            assert_eq!(find.blob.reference.digest.as_deref(), Some("sha256:aaaa"));
            steps.push("find".to_string());
            find.found(answers.found)
        }
        other => panic!("{:?}", other),
    };
    let mut step = match second {
        BlobStep::PullBlob(pull) => {
            steps.push("pull".to_string());
            match pull.pulled(answers.pulled) {
                BlobStep::StoreBlob(store) => {
                    assert!(store.verify);
                    steps.push("store".to_string());
                    store.stored(answers.stored)
                }
                other => other,
            }
        }
        other => other,
    };
    if let BlobStep::SaveBlob(save) = step {
        steps.push(format!("save {} {}", save.blob.digest, save.size));
        step = save.saved(answers.saved);
    }
    if let BlobStep::LinkBlob(link) = step {
        steps.push(format!("link {} {}", link.blob.repo_name, link.blob.digest));
        step = link.linked(answers.linked);
    }
    match step {
        BlobStep::Done(result) => (result, steps),
        other => panic!("{:?}", other),
    }
}

#[test]
fn new_blob_is_pulled_stored_saved_and_linked() {
    let (result, steps) = run_blob(all_well());
    assert!(result.is_ok());
    assert_eq!(
        steps,
        ["find", "pull", "store", "save sha256:2 7", "link f/docker/library/alpine sha256:2"]
    );
}

#[test]
fn blob_that_is_there_is_only_linked() {
    let (result, steps) = run_blob(BlobAnswers { found: Ok(1), ..all_well() });
    assert!(result.is_ok());
    assert_eq!(steps, ["find", "link f/docker/library/alpine sha256:2"]);
}

#[test]
fn size_is_saved_as_a_signed_number() {
    for (len, size) in [
        (0, 0i64),
        (i64::MAX as u64, i64::MAX),
        (i64::MAX as u64 + 1, i64::MIN),
        (u64::MAX, -1),
    ] {
        let (_, steps) = run_blob(BlobAnswers { stored: Ok(len), ..all_well() });
        assert_eq!(steps[3], format!("save sha256:2 {}", size));
    }
}

#[test]
fn each_failure_ends_the_download_of_a_blob() {
    let (result, steps) =
        run_blob(BlobAnswers { found: Err(sqlx::Error::RowNotFound), ..all_well() });
    assert!(matches!(result, Err(DownloadRemoteImageError::DbError(sqlx::Error::RowNotFound))));
    assert_eq!(steps, ["find"]);

    let (result, steps) = run_blob(BlobAnswers {
        pulled: Err(OciDistributionError::RegistryNoDigestError),
        ..all_well()
    });
    assert!(matches!(
        result,
        Err(DownloadRemoteImageError::OciClientError(OciDistributionError::RegistryNoDigestError))
    ));
    assert_eq!(steps, ["find", "pull"]);

    let full = StorageBackendError { message: "disk full".to_string() };
    let (result, steps) = run_blob(BlobAnswers { stored: Err(full), ..all_well() });
    match result {
        Err(DownloadRemoteImageError::StorageError(error)) => {
            assert_eq!(error.message, "disk full")
        }
        other => panic!("{:?}", other),
    }
    assert_eq!(steps, ["find", "pull", "store"]);

    let (result, steps) =
        run_blob(BlobAnswers { saved: Err(sqlx::Error::PoolClosed), ..all_well() });
    assert!(matches!(result, Err(DownloadRemoteImageError::DbError(sqlx::Error::PoolClosed))));
    assert_eq!(steps.len(), 4);

    let (result, steps) =
        run_blob(BlobAnswers { linked: Err(sqlx::Error::PoolTimedOut), ..all_well() });
    assert!(matches!(result, Err(DownloadRemoteImageError::DbError(sqlx::Error::PoolTimedOut))));
    assert_eq!(steps.len(), 5);
}

/// The rows that downloads write.
#[derive(Clone, Debug, Default, PartialEq)]
struct Rows {
    blobs: Vec<(String, i64)>,
    manifests: Vec<(String, Vec<u8>)>,
    blob_links: Vec<(String, String)>,
    manifest_links: Vec<(String, String)>,
}

fn add<T: PartialEq>(rows: &mut Vec<T>, row: T) {
    if !rows.contains(&row) {
        rows.push(row);
    }
}

/// Downloads a manifest that lists the blobs, one of which may fail to come in.
fn run_manifest(
    rows: &mut Rows,
    listed: &[&str],
    failing: Option<&str>,
) -> (Result<(), DownloadRemoteImageError>, usize) {
    let mut pulls: usize = 0;
    let listed = listed.iter().map(|digest| digest.to_string()).collect();
    let blobs = match read().read(Ok(listed)) {
        ManifestStep::DownloadBlobs(blobs) => blobs,
        other => panic!("{:?}", other),
    };
    let mut joined = Ok(());
    for i in 0..blobs.blobs.len() {
        let mut step = blobs.download_blob(i);
        let result = loop {
            step = match step {
                BlobStep::FindBlob(find) => {
                    let there = rows.blobs.iter().any(|row| row.0 == find.blob.digest);
                    find.found(Ok(i64::from(there)))
                }
                BlobStep::PullBlob(pull) => {
                    pulls += 1;
                    let fails = failing == Some(pull.blob.digest.as_str());
                    pull.pulled(if fails {
                        Err(OciDistributionError::PullNoLayersError)
                    } else {
                        Ok(())
                    })
                }
                BlobStep::StoreBlob(store) => store.stored(Ok(7)),
                BlobStep::SaveBlob(save) => {
                    add(&mut rows.blobs, (save.blob.digest.clone(), save.size));
                    save.saved(Ok(()))
                }
                BlobStep::LinkBlob(link) => {
                    let row = (link.blob.repo_name.clone(), link.blob.digest.clone());
                    add(&mut rows.blob_links, row);
                    link.linked(Ok(()))
                }
                BlobStep::Done(result) => break result,
            };
        };
        if joined.is_ok() {
            joined = result;
        }
    }
    let mut step = blobs.downloaded(joined);
    loop {
        step = match step {
            ManifestStep::SaveManifest(save) => {
                add(&mut rows.manifests, (save.digest.clone(), save.raw_manifest.clone()));
                add(&mut rows.manifest_links, (save.repo_name.clone(), save.digest.clone()));
                save.saved(Ok(()))
            }
            ManifestStep::Done(result) => return (result, pulls),
            other => panic!("{:?}", other),
        };
    }
}

#[test]
fn second_download_of_a_manifest_changes_nothing() {
    let mut rows = Rows::default();
    let (result, pulls) = run_manifest(&mut rows, &["sha256:1", "sha256:2", "sha256:1"], None);
    assert!(result.is_ok());
    assert_eq!(pulls, 2);
    let repo = "f/docker/library/alpine".to_string();
    let expected = Rows {
        blobs: vec![("sha256:1".to_string(), 7), ("sha256:2".to_string(), 7)],
        manifests: vec![("sha256:cccc".to_string(), b"{}".to_vec())],
        blob_links: vec![
            (repo.clone(), "sha256:1".to_string()),
            (repo.clone(), "sha256:2".to_string()),
        ],
        manifest_links: vec![(repo, "sha256:cccc".to_string())],
    };
    assert_eq!(rows, expected);
    let (result, pulls) = run_manifest(&mut rows, &["sha256:1", "sha256:2", "sha256:1"], None);
    assert!(result.is_ok());
    assert_eq!(pulls, 0);
    assert_eq!(rows, expected);
}

#[test]
fn manifest_is_not_saved_when_a_blob_fails() {
    let mut rows = Rows::default();
    let (result, pulls) =
        run_manifest(&mut rows, &["sha256:1", "sha256:2"], Some("sha256:2"));
    assert!(matches!(
        result,
        Err(DownloadRemoteImageError::OciClientError(OciDistributionError::PullNoLayersError))
    ));
    assert_eq!(pulls, 2);
    assert_eq!(rows.blobs, [("sha256:1".to_string(), 7)]);
    assert!(rows.manifests.is_empty());
    assert!(rows.manifest_links.is_empty());
}
