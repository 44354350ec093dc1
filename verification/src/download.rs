//! Downloading a remote image, step by step.
//!
//! A [`DownloadStep`] says what is to be asked next: of the database, or of the
//! remote registry. The answer, given to the step's own method, leads to the
//! next step, until the download is [`DownloadStep::Done`].

use vstd::prelude::*;
use vstd::string::StringExecFns;
use crate::config::{proxied_name, SingleRegistryProxyConfig};
use crate::digest::{valid_digest, Digest};
use crate::error::{DownloadErrorView, DownloadRemoteImageError};
use crate::image::{optional_text, ManifestReference, ManifestReferenceView};
use crate::image::{Reference, ReferenceView, RemoteImage, RemoteImageView};
use crate::text::equal;

verus! {

/// What one download is about.
#[derive(Debug)]
pub struct Job {
    /// The repository that the image is kept in.
    pub repo_name: String,
    /// Where the image stands in the remote registry.
    pub image_ref: Reference,
}

/// What a [`Job`] says.
pub struct JobView {
    pub repo_name: Seq<char>,
    pub image_ref: ReferenceView,
}

impl View for Job {
    type V = JobView;

    open spec fn view(&self) -> JobView {
        JobView { repo_name: self.repo_name@, image_ref: self.image_ref@ }
    }
}

/// A client for the remote registry is to be set up.
#[derive(Debug)]
pub struct SetupClient {
    pub job: Job,
    /// Whether the client is to speak plain HTTP.
    pub insecure: bool,
    pub reference: ManifestReference,
}

/// The digest that the database has for the tag is to be found.
#[derive(Debug)]
pub struct FindLocalDigest {
    pub job: Job,
    pub tag: String,
    pub has_client: bool,
}

/// The digest that the remote registry has for the tag is to be fetched.
#[derive(Debug)]
pub struct FetchRemoteDigest {
    pub job: Job,
    pub local_digest: Option<String>,
}

/// It is to be found out whether the repository holds the manifest `digest`.
#[derive(Debug)]
pub struct FindManifest {
    pub job: Job,
    pub has_client: bool,
    pub digest: Digest,
    /// The digests to turn to after this one.
    pub rest: Vec<Digest>,
}

/// The manifest `digest`, and all that it lists, is to be downloaded.
#[derive(Debug)]
pub struct DownloadManifest {
    pub job: Job,
    pub digest: Digest,
    /// The digests to turn to after this one.
    pub rest: Vec<Digest>,
}

/// The tag is to be pointed at `digest` in the database.
#[derive(Debug)]
pub struct SaveTag {
    pub job: Job,
    pub tag: String,
    pub digest: Digest,
}

/// What is to be done next.
#[derive(Debug)]
pub enum DownloadStep {
    SetupClient(SetupClient),
    FindLocalDigest(FindLocalDigest),
    FetchRemoteDigest(FetchRemoteDigest),
    FindManifest(FindManifest),
    DownloadManifest(DownloadManifest),
    SaveTag(SaveTag),
    /// The digest of the downloaded image, or why there is none.
    Done(Result<String, DownloadRemoteImageError>),
}

/// What a [`DownloadStep`] says.
pub enum DownloadStepView {
    SetupClient { job: JobView, insecure: bool, reference: ManifestReferenceView },
    FindLocalDigest { job: JobView, tag: Seq<char>, has_client: bool },
    FetchRemoteDigest { job: JobView, local_digest: Option<Seq<char>> },
    FindManifest { job: JobView, has_client: bool, digest: Seq<char>, rest: Seq<Seq<char>> },
    DownloadManifest { job: JobView, digest: Seq<char>, rest: Seq<Seq<char>> },
    SaveTag { job: JobView, tag: Seq<char>, digest: Seq<char> },
    Done(Result<Seq<char>, DownloadErrorView>),
}

/// What some digests say.
pub open spec fn texts(digests: Seq<Digest>) -> Seq<Seq<char>> {
    digests.map_values(|digest: Digest| digest@)
}

impl View for DownloadStep {
    type V = DownloadStepView;

    open spec fn view(&self) -> DownloadStepView {
        match *self {
            DownloadStep::SetupClient(step) => DownloadStepView::SetupClient {
                job: step.job@,
                insecure: step.insecure,
                reference: step.reference@,
            },
            DownloadStep::FindLocalDigest(step) => DownloadStepView::FindLocalDigest {
                job: step.job@,
                tag: step.tag@,
                has_client: step.has_client,
            },
            DownloadStep::FetchRemoteDigest(step) => DownloadStepView::FetchRemoteDigest {
                job: step.job@,
                local_digest: optional_text(step.local_digest),
            },
            DownloadStep::FindManifest(step) => DownloadStepView::FindManifest {
                job: step.job@,
                has_client: step.has_client,
                digest: step.digest@,
                rest: texts(step.rest@),
            },
            DownloadStep::DownloadManifest(step) => DownloadStepView::DownloadManifest {
                job: step.job@,
                digest: step.digest@,
                rest: texts(step.rest@),
            },
            DownloadStep::SaveTag(step) => DownloadStepView::SaveTag {
                job: step.job@,
                tag: step.tag@,
                digest: step.digest@,
            },
            DownloadStep::Done(result) => DownloadStepView::Done(
                match result {
                    Ok(digest) => Ok(digest@),
                    Err(error) => Err(error@),
                },
            ),
        }
    }
}

/// The download failed.
pub open spec fn failed(error: DownloadErrorView) -> DownloadStepView {
    DownloadStepView::Done(Err(error))
}

/// The download of `image` from the registry that goes by `alias` begins.
pub open spec fn first_step(alias: Seq<char>, image: RemoteImageView) -> DownloadStepView {
    DownloadStepView::SetupClient {
        job: JobView { repo_name: proxied_name(alias, image.repo), image_ref: image.place() },
        insecure: image.scheme == "http"@,
        reference: image.reference,
    }
}

/// The digests are tried in turn. When none is left, the download failed.
pub open spec fn try_digests(
    job: JobView,
    has_client: bool,
    digests: Seq<Seq<char>>,
) -> DownloadStepView {
    if digests.len() == 0 {
        failed(DownloadErrorView::DownloadAttemptsFailed)
    } else {
        DownloadStepView::FindManifest {
            job,
            has_client,
            digest: digests.first(),
            rest: digests.drop_first(),
        }
    }
}

/// The first text that is no digest.
pub open spec fn first_invalid(raw: Seq<Seq<char>>) -> Option<Seq<char>>
    decreases raw.len(),
{
    if raw.len() == 0 {
        None
    } else if !valid_digest(raw.first()) {
        Some(raw.first())
    } else {
        first_invalid(raw.drop_first())
    }
}

/// The texts are tried in turn, if all of them are digests.
pub open spec fn try_raw(job: JobView, has_client: bool, raw: Seq<Seq<char>>) -> DownloadStepView {
    match first_invalid(raw) {
        Some(text) => failed(DownloadErrorView::InvalidDigest(text)),
        None => try_digests(job, has_client, raw),
    }
}

/// The possible digests behind a tag: what the remote registry has for it,
/// unless the database has the same, then what the database has for it.
pub open spec fn tag_digests(
    remote_digest: Option<Seq<char>>,
    local_digest: Option<Seq<char>>,
) -> Seq<Seq<char>> {
    let fresh = if remote_digest is Some && remote_digest != local_digest {
        seq![remote_digest->0]
    } else {
        seq![]
    };
    let known = if local_digest is Some {
        seq![local_digest->0]
    } else {
        seq![]
    };
    fresh + known
}

/// What follows [`SetupClient`].
pub open spec fn after_setup(
    job: JobView,
    reference: ManifestReferenceView,
    has_client: bool,
) -> DownloadStepView {
    match reference {
        ManifestReferenceView::Digest(digest) => try_digests(job, has_client, seq![digest]),
        ManifestReferenceView::Tag(tag) => DownloadStepView::FindLocalDigest {
            job,
            tag,
            has_client,
        },
    }
}

/// What follows [`FindLocalDigest`].
pub open spec fn after_local_digest(
    job: JobView,
    has_client: bool,
    found: Result<Option<Seq<char>>, sqlx::Error>,
) -> DownloadStepView {
    match found {
        Err(error) => failed(DownloadErrorView::DbError(error)),
        Ok(local_digest) => if has_client {
            DownloadStepView::FetchRemoteDigest { job, local_digest }
        } else {
            try_raw(job, false, tag_digests(None, local_digest))
        },
    }
}

/// What follows [`FetchRemoteDigest`]. A digest that could not be fetched is
/// done without.
pub open spec fn after_remote_digest(
    job: JobView,
    local_digest: Option<Seq<char>>,
    remote_digest: Option<Seq<char>>,
) -> DownloadStepView {
    try_raw(job, true, tag_digests(remote_digest, local_digest))
}

/// What follows [`FindManifest`].
pub open spec fn after_find(
    job: JobView,
    has_client: bool,
    digest: Seq<char>,
    rest: Seq<Seq<char>>,
    has_manifest: Result<i64, sqlx::Error>,
) -> DownloadStepView {
    match has_manifest {
        Err(error) => failed(DownloadErrorView::DbError(error)),
        Ok(has_manifest) => if has_manifest == 1 {
            DownloadStepView::Done(Ok(digest))
        } else if has_client {
            DownloadStepView::DownloadManifest { job, digest, rest }
        } else {
            try_digests(job, false, rest)
        },
    }
}

/// What follows [`DownloadManifest`]. A digest that could not be downloaded is
/// given up for the next one.
pub open spec fn after_download(
    job: JobView,
    digest: Seq<char>,
    rest: Seq<Seq<char>>,
    downloaded: bool,
) -> DownloadStepView {
    if downloaded {
        match job.image_ref.tag {
            Some(tag) => DownloadStepView::SaveTag { job, tag, digest },
            None => DownloadStepView::Done(Ok(digest)),
        }
    } else {
        try_digests(job, true, rest)
    }
}

/// What follows [`SaveTag`].
pub open spec fn after_save(
    digest: Seq<char>,
    saved: Result<(), sqlx::Error>,
) -> DownloadStepView {
    match saved {
        Err(error) => failed(DownloadErrorView::DbError(error)),
        Ok(_) => DownloadStepView::Done(Ok(digest)),
    }
}

/// What an answer of the database about a tag says.
pub open spec fn optional_text_or_error(
    found: Result<Option<String>, sqlx::Error>,
) -> Result<Option<Seq<char>>, sqlx::Error> {
    match found {
        Ok(text) => Ok(optional_text(text)),
        Err(error) => Err(error),
    }
}

/// The digest that was fetched, if it could be.
pub open spec fn fetched(
    digest: Result<String, oci_client::errors::OciDistributionError>,
) -> Option<Seq<char>> {
    match digest {
        Ok(digest) => Some(digest@),
        Err(_) => None,
    }
}

fn fail(error: DownloadRemoteImageError) -> (next: DownloadStep)
    ensures
        next@ == failed(error@),
        next == DownloadStep::Done(Err(error)),
{
    DownloadStep::Done(Err(error))
}

/// Turns to the first of the digests.
fn next_digest(job: Job, has_client: bool, digests: Vec<Digest>) -> (next: DownloadStep)
    ensures
        next@ == try_digests(job@, has_client, texts(digests@)),
        digests@.len() == 0 ==> next == DownloadStep::Done(
            Err(DownloadRemoteImageError::DownloadAttemptsFailed),
        ),
        digests@.len() > 0 ==> (next matches DownloadStep::FindManifest(step) && step.job == job
            && step.has_client == has_client && step.digest == digests@[0] && step.rest@
            == digests@.drop_first()),
{
    if digests.len() == 0 {
        return fail(DownloadRemoteImageError::DownloadAttemptsFailed);
    }
    let mut rest = digests;
    let digest = rest.remove(0);
    assert(texts(rest@) =~= texts(digests@).drop_first());
    DownloadStep::FindManifest(FindManifest { job, has_client, digest, rest })
}

impl SingleRegistryProxyConfig {
    /// Begins the download of `image` from this registry. The image is kept in
    /// the repository `f/<alias>/<repo>`, where `<repo>` is the registry's own
    /// name for it: `f/docker/alpine` is kept as `f/docker/library/alpine`.
    pub fn download_remote_image(&self, image: &RemoteImage) -> (next: DownloadStep)
        ensures
            next@ == first_step(self.alias@, image@),
            next matches DownloadStep::SetupClient(step) && {
                &&& step.job.repo_name@ == "f/"@ + self.alias@ + "/"@ + image.repo@
                &&& step.job.image_ref.registry@ == image.host@
                &&& step.job.image_ref.repository@ == image.repo@
                &&& step.insecure <==> image.scheme@ == "http"@
                &&& match image.reference {
                    ManifestReference::Tag(tag) => {
                        &&& step.reference matches ManifestReference::Tag(other) && other@ == tag@
                        &&& step.job.image_ref.tag matches Some(other) && other@ == tag@
                        &&& step.job.image_ref.digest is None
                    },
                    ManifestReference::Digest(digest) => {
                        &&& step.reference matches ManifestReference::Digest(other) && other@
                            == digest@
                        &&& step.job.image_ref.digest matches Some(other) && other@ == digest@
                        &&& step.job.image_ref.tag is None
                    },
                }
            },
    {
        let repo_name = "f/".to_owned().concat(self.alias.as_str()).concat("/").concat(
            image.get_repo(),
        );
        DownloadStep::SetupClient(
            SetupClient {
                job: Job { repo_name, image_ref: image.place() },
                insecure: equal(image.scheme.as_str(), "http"),
                reference: image.reference.clone(),
            },
        )
    }
}

impl SetupClient {
    /// Goes on with a client or, where none could be set up, without.
    pub fn client(self, has_client: bool) -> (next: DownloadStep)
        ensures
            next@ == after_setup(self.job@, self.reference@, has_client),
            match self.reference {
                ManifestReference::Tag(tag) => next == DownloadStep::FindLocalDigest(
                    (FindLocalDigest { job: self.job, tag, has_client }),
                ),
                ManifestReference::Digest(digest) => next matches DownloadStep::FindManifest(step)
                    && step.job == self.job && step.has_client == has_client && step.digest
                    == digest && step.rest@.len() == 0,
            },
    {
        match self.reference {
            ManifestReference::Digest(digest) => {
                let mut digests: Vec<Digest> = Vec::new();
                digests.push(digest);
                assert(texts(digests@) =~= seq![digest@]);
                next_digest(self.job, has_client, digests)
            },
            ManifestReference::Tag(tag) => DownloadStep::FindLocalDigest(
                FindLocalDigest { job: self.job, tag, has_client },
            ),
        }
    }
}

/// Adds what the database has for a tag to the digests, and turns to the first.
fn with_local_digest(
    job: Job,
    has_client: bool,
    digests: Vec<Digest>,
    local_digest: Option<String>,
) -> (next: DownloadStep)
    requires
        digests@.len() <= 1,
        forall|i: int| 0 <= i < digests@.len() ==> valid_digest(#[trigger] texts(digests@)[i]),
    ensures
        next@ == try_raw(
            job@,
            has_client,
            texts(digests@) + tag_digests(None, optional_text(local_digest)),
        ),
        match local_digest {
            None => if digests@.len() == 0 {
                next == DownloadStep::Done(Err(DownloadRemoteImageError::DownloadAttemptsFailed))
            } else {
                next matches DownloadStep::FindManifest(step) && step.job == job
                    && step.has_client == has_client && step.digest == digests@[0]
                    && step.rest@.len() == 0
            },
            Some(local) => if !valid_digest(local@) {
                next matches DownloadStep::Done(Err(DownloadRemoteImageError::InvalidDigest(error)))
                    && error.raw@ == local@
            } else if digests@.len() == 0 {
                next matches DownloadStep::FindManifest(step) && step.job == job
                    && step.has_client == has_client && step.digest@ == local@
                    && step.rest@.len() == 0
            } else {
                next matches DownloadStep::FindManifest(step) && step.job == job
                    && step.has_client == has_client && step.digest == digests@[0]
                    && step.rest@.len() == 1 && step.rest@[0]@ == local@
            },
        },
{
    let ghost known = tag_digests(None, optional_text(local_digest));
    let ghost raw = texts(digests@) + known;
    proof {
        reveal_with_fuel(first_invalid, 3);
        if digests@.len() == 1 {
            assert(valid_digest(texts(digests@)[0]));
            assert(raw.drop_first() =~= known);
        } else {
            assert(raw =~= known);
        }
    }
    let mut digests = digests;
    if let Some(local_digest) = local_digest {
        match Digest::try_from_raw(local_digest.as_str()) {
            Ok(digest) => {
                digests.push(digest);
                assert(texts(digests@) =~= raw);
            },
            Err(error) => {
                return fail(DownloadRemoteImageError::InvalidDigest(error));
            },
        }
    } else {
        assert(texts(digests@) =~= raw);
    }
    next_digest(job, has_client, digests)
}

impl FindLocalDigest {
    /// Goes on with the digest that the database has for the tag, if any.
    pub fn found(self, local_digest: Result<Option<String>, sqlx::Error>) -> (next: DownloadStep)
        ensures
            next@ == after_local_digest(
                self.job@,
                self.has_client,
                optional_text_or_error(local_digest),
            ),
            match local_digest {
                Err(error) => next == DownloadStep::Done(
                    Err(DownloadRemoteImageError::DbError(error)),
                ),
                Ok(local_digest) => if self.has_client {
                    next == DownloadStep::FetchRemoteDigest(
                        (FetchRemoteDigest { job: self.job, local_digest }),
                    )
                } else {
                    match local_digest {
                        None => next == DownloadStep::Done(
                            Err(DownloadRemoteImageError::DownloadAttemptsFailed),
                        ),
                        Some(local) => if valid_digest(local@) {
                            next matches DownloadStep::FindManifest(step) && step.job == self.job
                                && !step.has_client && step.digest@ == local@ && step.rest@.len()
                                == 0
                        } else {
                            next matches DownloadStep::Done(
                                Err(DownloadRemoteImageError::InvalidDigest(error)),
                            ) && error.raw@ == local@
                        },
                    }
                },
            },
    {
        match local_digest {
            Err(error) => fail(DownloadRemoteImageError::DbError(error)),
            Ok(local_digest) => if self.has_client {
                DownloadStep::FetchRemoteDigest(
                    FetchRemoteDigest { job: self.job, local_digest },
                )
            } else {
                let digests: Vec<Digest> = Vec::new();
                assert(texts(digests@) + tag_digests(None, optional_text(local_digest))
                    =~= tag_digests(None, optional_text(local_digest)));
                with_local_digest(self.job, false, digests, local_digest)
            },
        }
    }
}

impl FetchRemoteDigest {
    /// Goes on with the digest that the remote registry has for the tag or,
    /// where it could not be fetched, without.
    pub fn fetched(
        self,
        remote_digest: Result<String, oci_client::errors::OciDistributionError>,
    ) -> (next: DownloadStep)
        ensures
            next@ == after_remote_digest(
                self.job@,
                optional_text(self.local_digest),
                fetched(remote_digest),
            ),
            match (remote_digest, self.local_digest) {
                (Err(_), None) => next == DownloadStep::Done(
                    Err(DownloadRemoteImageError::DownloadAttemptsFailed),
                ),
                (Err(_), Some(local)) => if valid_digest(local@) {
                    next matches DownloadStep::FindManifest(step) && step.job == self.job
                        && step.has_client && step.digest@ == local@ && step.rest@.len() == 0
                } else {
                    next matches DownloadStep::Done(
                        Err(DownloadRemoteImageError::InvalidDigest(error)),
                    ) && error.raw@ == local@
                },
                (Ok(remote), None) => if valid_digest(remote@) {
                    next matches DownloadStep::FindManifest(step) && step.job == self.job
                        && step.has_client && step.digest@ == remote@ && step.rest@.len() == 0
                } else {
                    next matches DownloadStep::Done(
                        Err(DownloadRemoteImageError::InvalidDigest(error)),
                    ) && error.raw@ == remote@
                },
                (Ok(remote), Some(local)) => if !valid_digest(remote@) {
                    next matches DownloadStep::Done(
                        Err(DownloadRemoteImageError::InvalidDigest(error)),
                    ) && error.raw@ == remote@
                } else if !valid_digest(local@) {
                    next matches DownloadStep::Done(
                        Err(DownloadRemoteImageError::InvalidDigest(error)),
                    ) && error.raw@ == local@
                } else if remote@ == local@ {
                    next matches DownloadStep::FindManifest(step) && step.job == self.job
                        && step.has_client && step.digest@ == local@ && step.rest@.len() == 0
                } else {
                    next matches DownloadStep::FindManifest(step) && step.job == self.job
                        && step.has_client && step.digest@ == remote@ && step.rest@.len() == 1
                        && step.rest@[0]@ == local@
                },
            },
    {
        let mut digests: Vec<Digest> = Vec::new();
        let ghost local = optional_text(self.local_digest);
        let ghost raw = tag_digests(fetched(remote_digest), local);
        if let Ok(remote_digest) = remote_digest {
            let fresh = match &self.local_digest {
                Some(local_digest) => remote_digest != *local_digest,
                None => true,
            };
            if fresh {
                match Digest::try_from_raw(remote_digest.as_str()) {
                    Ok(digest) => {
                        digests.push(digest);
                    },
                    Err(error) => {
                        return fail(DownloadRemoteImageError::InvalidDigest(error));
                    },
                }
            }
        }
        assert(texts(digests@) + tag_digests(None, local) =~= raw);
        with_local_digest(self.job, true, digests, self.local_digest)
    }
}

impl FindManifest {
    /// Goes on knowing whether the repository holds the manifest, in which case
    /// the answer is 1.
    pub fn found(self, has_manifest: Result<i64, sqlx::Error>) -> (next: DownloadStep)
        ensures
            next@ == after_find(
                self.job@,
                self.has_client,
                self.digest@,
                texts(self.rest@),
                has_manifest,
            ),
            match has_manifest {
                Err(error) => next == DownloadStep::Done(
                    Err(DownloadRemoteImageError::DbError(error)),
                ),
                Ok(answer) => if answer == 1 {
                    next matches DownloadStep::Done(Ok(given)) && given@ == self.digest@
                } else if self.has_client {
                    next == DownloadStep::DownloadManifest(
                        (DownloadManifest {
                            job: self.job,
                            digest: self.digest,
                            rest: self.rest,
                        }),
                    )
                } else if self.rest@.len() == 0 {
                    next == DownloadStep::Done(
                        Err(DownloadRemoteImageError::DownloadAttemptsFailed),
                    )
                } else {
                    next matches DownloadStep::FindManifest(step) && step.job == self.job
                        && !step.has_client && step.digest == self.rest@[0] && step.rest@
                        == self.rest@.drop_first()
                },
            },
    {
        match has_manifest {
            Err(error) => fail(DownloadRemoteImageError::DbError(error)),
            Ok(has_manifest) => if has_manifest == 1 {
                DownloadStep::Done(Ok(self.digest.to_string()))
            } else if self.has_client {
                DownloadStep::DownloadManifest(
                    DownloadManifest { job: self.job, digest: self.digest, rest: self.rest },
                )
            } else {
                next_digest(self.job, false, self.rest)
            },
        }
    }
}

impl DownloadManifest {
    /// Where the manifest stands in the remote registry.
    pub fn reference(&self) -> (reference: Reference)
        ensures
            reference@ == self.job.image_ref@.with_digest(self.digest@),
            reference.registry@ == self.job.image_ref.registry@,
            reference.repository@ == self.job.image_ref.repository@,
            reference.tag is None,
            reference.digest matches Some(digest) && digest@ == self.digest@,
    {
        self.job.image_ref.clone_with_digest(self.digest.to_string())
    }

    /// Goes on when the manifest and all that it lists were downloaded, or could
    /// not be.
    pub fn downloaded(self, result: Result<(), DownloadRemoteImageError>) -> (next: DownloadStep)
        ensures
            next@ == after_download(self.job@, self.digest@, texts(self.rest@), result is Ok),
            match result {
                Ok(_) => match self.job.image_ref.tag {
                    Some(tag) => next matches DownloadStep::SaveTag(step) && step.job == self.job
                        && step.tag@ == tag@ && step.digest == self.digest,
                    None => next matches DownloadStep::Done(Ok(given)) && given@ == self.digest@,
                },
                Err(_) => if self.rest@.len() == 0 {
                    next == DownloadStep::Done(
                        Err(DownloadRemoteImageError::DownloadAttemptsFailed),
                    )
                } else {
                    next matches DownloadStep::FindManifest(step) && step.job == self.job
                        && step.has_client && step.digest == self.rest@[0] && step.rest@
                        == self.rest@.drop_first()
                },
            },
    {
        match result {
            Err(_) => next_digest(self.job, true, self.rest),
            Ok(_) => {
                let tag = self.job.image_ref.tag.clone();
                match tag {
                    Some(tag) => DownloadStep::SaveTag(
                        SaveTag { job: self.job, tag, digest: self.digest },
                    ),
                    None => DownloadStep::Done(Ok(self.digest.to_string())),
                }
            },
        }
    }
}

impl SaveTag {
    /// Ends the download, once the tag was saved.
    pub fn saved(self, saved: Result<(), sqlx::Error>) -> (next: DownloadStep)
        ensures
            next@ == after_save(self.digest@, saved),
            match saved {
                Ok(_) => next matches DownloadStep::Done(Ok(given)) && given@ == self.digest@,
                Err(error) => next == DownloadStep::Done(
                    Err(DownloadRemoteImageError::DbError(error)),
                ),
            },
    {
        match saved {
            Err(error) => fail(DownloadRemoteImageError::DbError(error)),
            Ok(_) => DownloadStep::Done(Ok(self.digest.to_string())),
        }
    }
}

} // verus!
