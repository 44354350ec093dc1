use oci_client::errors::OciDistributionError;
use registry_proxy::config::SingleRegistryProxyConfig;
use registry_proxy::digest::Digest;
use registry_proxy::download::DownloadStep;
use registry_proxy::error::DownloadRemoteImageError;
use registry_proxy::image::{ManifestReference, RemoteImage};

const NEW: &str = "sha256:aaaa";
const OLD: &str = "sha256:bbbb";

/// What the database and the remote registry answer.
#[derive(Clone, Default)]
struct Answers {
    client: bool,
    local: Option<&'static str>,
    local_fails: bool,
    remote: Option<&'static str>,
    kept: Vec<&'static str>,
    find_fails: Vec<&'static str>,
    downloads: Vec<&'static str>,
    save_fails: bool,
}

struct Run {
    result: Result<String, DownloadRemoteImageError>,
    steps: Vec<String>,
}

fn config() -> SingleRegistryProxyConfig {
    SingleRegistryProxyConfig {
        alias: "docker".to_string(),
        host: "docker.io".to_string(),
        username: None,
        password: None,
        ignore_repos: Vec::new(),
    }
}

fn tagged() -> RemoteImage {
    RemoteImage::new(
        "docker.io",
        "alpine".to_string(),
        ManifestReference::Tag("latest".to_string()),
    )
}

fn by_digest(digest: &str) -> RemoteImage {
    let digest = Digest::try_from_raw(digest).unwrap();
    RemoteImage::new("docker.io", "alpine".to_string(), ManifestReference::Digest(digest))
}

fn run(image: &RemoteImage, answers: &Answers) -> Run {
    let mut steps: Vec<String> = Vec::new();
    let mut step = config().download_remote_image(image);
    loop {
        step = match step {
            DownloadStep::SetupClient(setup) => {
                assert_eq!(setup.job.repo_name, "f/docker/library/alpine");
                steps.push("setup".to_string());
                setup.client(answers.client)
            }
            DownloadStep::FindLocalDigest(find) => {
                assert_eq!(find.tag, "latest");
                steps.push("local".to_string());
                find.found(if answers.local_fails {
                    Err(sqlx::Error::PoolTimedOut)
                } else {
                    Ok(answers.local.map(|s| s.to_string()))
                })
            }
            DownloadStep::FetchRemoteDigest(fetch) => {
                assert_eq!(fetch.job.image_ref.repository, "library/alpine");
                assert_eq!(fetch.job.image_ref.tag.as_deref(), Some("latest"));
                steps.push("remote".to_string());
                fetch.fetched(match answers.remote {
                    Some(digest) => Ok(digest.to_string()),
                    None => Err(OciDistributionError::RegistryNoDigestError),
                })
            }
            DownloadStep::FindManifest(find) => {
                let digest = find.digest.to_string();
                steps.push(format!("find {}", digest));
                find.found(if answers.find_fails.contains(&digest.as_str()) {
                    Err(sqlx::Error::RowNotFound)
                } else if answers.kept.contains(&digest.as_str()) {
                    Ok(1)
                } else {
                    Ok(0)
                })
            }
            DownloadStep::DownloadManifest(download) => {
                let digest = download.digest.to_string();
                let reference = download.reference();
                assert_eq!(reference.tag, None);
                assert_eq!(reference.digest.as_deref(), Some(digest.as_str()));
                assert_eq!(reference.registry, "docker.io");
                steps.push(format!("download {}", digest));
                download.downloaded(if answers.downloads.contains(&digest.as_str()) {
                    Ok(())
                } else {
                    Err(DownloadRemoteImageError::ManifestNotCanonicalized)
                })
            }
            DownloadStep::SaveTag(save) => {
                assert_eq!(save.job.repo_name, "f/docker/library/alpine");
                steps.push(format!("save {} {}", save.tag, save.digest.as_str()));
                save.saved(if answers.save_fails {
                    Err(sqlx::Error::PoolClosed)
                } else {
                    Ok(())
                })
            }
            DownloadStep::Done(result) => return Run { result, steps },
        };
    }
}

#[test]
fn kept_digest_is_given() {
    let answers = Answers { client: true, kept: vec![NEW], ..Default::default() };
    let run = run(&by_digest(NEW), &answers);
    assert_eq!(run.result.unwrap(), NEW);
    assert_eq!(run.steps, ["setup", "find sha256:aaaa"]);
}

#[test]
fn digest_is_downloaded_and_no_tag_saved() {
    let answers = Answers { client: true, downloads: vec![NEW], ..Default::default() };
    let run = run(&by_digest(NEW), &answers);
    assert_eq!(run.result.unwrap(), NEW);
    assert_eq!(run.steps, ["setup", "find sha256:aaaa", "download sha256:aaaa"]);
}

#[test]
fn fresh_digest_of_a_tag_is_downloaded_and_saved() {
    let answers = Answers {
        client: true,
        local: Some(OLD),
        remote: Some(NEW),
        kept: vec![OLD],
        downloads: vec![NEW],
        ..Default::default()
    };
    let run = run(&tagged(), &answers);
    assert_eq!(run.result.unwrap(), NEW);
    assert_eq!(
        run.steps,
        [
            "setup",
            "local",
            "remote",
            "find sha256:aaaa",
            "download sha256:aaaa",
            "save latest sha256:aaaa"
        ]
    );
}

#[test]
fn kept_image_is_given_when_the_fresh_one_cannot_be_downloaded() {
    let answers = Answers {
        client: true,
        local: Some(OLD),
        remote: Some(NEW),
        kept: vec![OLD],
        ..Default::default()
    };
    let run = run(&tagged(), &answers);
    assert_eq!(run.result.unwrap(), OLD);
    assert_eq!(
        run.steps,
        [
            "setup",
            "local",
            "remote",
            "find sha256:aaaa",
            "download sha256:aaaa",
            "find sha256:bbbb"
        ]
    );
}

#[test]
fn downloaded_image_is_given_again_without_the_remote_registry() {
    let online = Answers {
        client: true,
        remote: Some(NEW),
        downloads: vec![NEW],
        ..Default::default()
    };
    let first = run(&tagged(), &online);
    assert_eq!(first.result.unwrap(), NEW);
    assert_eq!(first.steps.last().unwrap(), "save latest sha256:aaaa");
    let offline = Answers { local: Some(NEW), kept: vec![NEW], ..Default::default() };
    assert_eq!(run(&tagged(), &offline).result.unwrap(), NEW);
    let unanswered = Answers { client: true, ..offline };
    assert_eq!(run(&tagged(), &unanswered).result.unwrap(), NEW);
}

#[test]
fn repeated_download_gives_the_same_digest_and_saves_no_tag() {
    let earlier = Answers {
        client: true,
        local: Some(OLD),
        remote: Some(NEW),
        downloads: vec![NEW],
        ..Default::default()
    };
    assert_eq!(run(&tagged(), &earlier).result.unwrap(), NEW);
    let later = Answers { local: Some(NEW), kept: vec![NEW], ..earlier };
    let again = run(&tagged(), &later);
    assert_eq!(again.result.unwrap(), NEW);
    assert_eq!(again.steps, ["setup", "local", "remote", "find sha256:aaaa"]);
}

#[test]
fn same_digest_is_tried_once() {
    let answers = Answers {
        client: true,
        local: Some(OLD),
        remote: Some(OLD),
        ..Default::default()
    };
    let run = run(&tagged(), &answers);
    assert!(matches!(run.result, Err(DownloadRemoteImageError::DownloadAttemptsFailed)));
    assert_eq!(
        run.steps,
        ["setup", "local", "remote", "find sha256:bbbb", "download sha256:bbbb"]
    );
}

#[test]
fn without_client_only_kept_images_are_given() {
    let answers = Answers {
        local: Some(OLD),
        remote: Some(NEW),
        kept: vec![OLD],
        downloads: vec![NEW, OLD],
        ..Default::default()
    };
    let kept = run(&tagged(), &answers);
    assert_eq!(kept.result.unwrap(), OLD);
    assert_eq!(kept.steps, ["setup", "local", "find sha256:bbbb"]);
    let missing = run(&by_digest(NEW), &answers);
    assert!(matches!(missing.result, Err(DownloadRemoteImageError::DownloadAttemptsFailed)));
    assert_eq!(missing.steps, ["setup", "find sha256:aaaa"]);
}

#[test]
fn error_of_an_attempt_is_not_passed_on() {
    let answers = Answers { client: true, ..Default::default() };
    let run = run(&by_digest(NEW), &answers);
    assert_eq!(run.steps, ["setup", "find sha256:aaaa", "download sha256:aaaa"]);
    assert!(matches!(run.result, Err(DownloadRemoteImageError::DownloadAttemptsFailed)));
}

#[test]
fn kept_digest_leaves_the_tag_as_it_was() {
    let answers = Answers {
        client: true,
        local: Some(OLD),
        remote: Some(NEW),
        kept: vec![NEW, OLD],
        ..Default::default()
    };
    let run = run(&tagged(), &answers);
    assert_eq!(run.result.unwrap(), NEW);
    assert_eq!(run.steps, ["setup", "local", "remote", "find sha256:aaaa"]);
}

#[test]
fn unknown_tag_fails() {
    let answers = Answers { client: true, ..Default::default() };
    let run = run(&tagged(), &answers);
    assert!(matches!(run.result, Err(DownloadRemoteImageError::DownloadAttemptsFailed)));
    assert_eq!(run.steps, ["setup", "local", "remote"]);
}

#[test]
fn longest_download_takes_eight_steps() {
    let answers = Answers {
        client: true,
        local: Some(OLD),
        remote: Some(NEW),
        downloads: vec![OLD],
        ..Default::default()
    };
    let run = run(&tagged(), &answers);
    assert_eq!(run.result.unwrap(), OLD);
    assert_eq!(run.steps.len(), 8);
    assert_eq!(run.steps[7], "save latest sha256:bbbb");
}

#[test]
fn malformed_digest_of_the_remote_registry_is_an_error() {
    let answers = Answers {
        client: true,
        local: Some(OLD),
        remote: Some("junk"),
        kept: vec![OLD],
        ..Default::default()
    };
    match run(&tagged(), &answers).result {
        Err(DownloadRemoteImageError::InvalidDigest(error)) => assert_eq!(error.raw, "junk"),
        other => panic!("{:?}", other),
    }
}

#[test]
fn malformed_digest_of_the_database_is_an_error() {
    let answers = Answers {
        client: true,
        local: Some("broken"),
        remote: Some(NEW),
        kept: vec![NEW],
        ..Default::default()
    };
    match run(&tagged(), &answers).result {
        Err(DownloadRemoteImageError::InvalidDigest(error)) => assert_eq!(error.raw, "broken"),
        other => panic!("{:?}", other),
    }
    let without_client = Answers { client: false, ..answers };
    match run(&tagged(), &without_client).result {
        Err(DownloadRemoteImageError::InvalidDigest(error)) => assert_eq!(error.raw, "broken"),
        other => panic!("{:?}", other),
    }
}

#[test]
fn errors_of_the_database_end_the_download() {
    let answers = Answers { client: true, local_fails: true, ..Default::default() };
    assert!(matches!(
        run(&tagged(), &answers).result,
        Err(DownloadRemoteImageError::DbError(sqlx::Error::PoolTimedOut))
    ));
    let answers = Answers {
        client: true,
        local: Some(OLD),
        remote: Some(NEW),
        kept: vec![OLD],
        find_fails: vec![NEW],
        ..Default::default()
    };
    assert!(matches!(
        run(&tagged(), &answers).result,
        Err(DownloadRemoteImageError::DbError(sqlx::Error::RowNotFound))
    ));
    let answers = Answers {
        client: true,
        remote: Some(NEW),
        downloads: vec![NEW],
        save_fails: true,
        ..Default::default()
    };
    assert!(matches!(
        run(&tagged(), &answers).result,
        Err(DownloadRemoteImageError::DbError(sqlx::Error::PoolClosed))
    ));
}

#[test]
fn only_plain_http_is_insecure() {
    for (address, insecure) in
        [("http://example.com", true), ("https://example.com", false), ("example.com", false)]
    {
        let image = RemoteImage::new(
            address,
            "app".to_string(),
            ManifestReference::Tag("latest".to_string()),
        );
        match config().download_remote_image(&image) {
            DownloadStep::SetupClient(setup) => assert_eq!(setup.insecure, insecure),
            other => panic!("{:?}", other),
        }
    }
}

#[test]
fn only_one_stands_for_a_kept_manifest() {
    let mut step = config().download_remote_image(&by_digest(NEW));
    if let DownloadStep::SetupClient(setup) = step {
        step = setup.client(false);
    }
    match step {
        DownloadStep::FindManifest(find) => match find.found(Ok(2)) {
            DownloadStep::Done(result) => assert!(result.is_err()),
            other => panic!("{:?}", other),
        },
        other => panic!("{:?}", other),
    }
}
