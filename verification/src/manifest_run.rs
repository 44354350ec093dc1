//! What the download of a whole manifest, or of one blob, comes to, whatever is
//! answered.

use vstd::prelude::*;
use crate::error::DownloadErrorView;
use crate::image::ReferenceView;
use crate::manifest::{after_blobs, after_pull, after_read, after_save_manifest};
use crate::manifest::{after_find_blob, after_link_blob, after_pull_blob, after_save_blob};
use crate::manifest::{after_store_blob, manifest_parsing_error, saved_size};
use crate::manifest::{BlobStepView, BlobView, ManifestStepView};

verus! {

/// All that may be answered in the course of the download of a manifest.
pub struct ManifestAnswers {
    /// The manifest's bytes and digest.
    pub pulled: Result<(Seq<u8>, Seq<char>), oci_client::errors::OciDistributionError>,
    /// The blobs that the manifest lists, or what is wrong with it.
    pub blobs: Result<Seq<Seq<char>>, Seq<char>>,
    /// Whether all blobs were downloaded.
    pub downloaded: Result<(), DownloadErrorView>,
    /// Whether the manifest was saved.
    pub saved: Result<(), sqlx::Error>,
}

/// The step that follows, given the answers.
pub open spec fn next_manifest_step(
    step: ManifestStepView,
    answers: ManifestAnswers,
) -> ManifestStepView {
    match step {
        ManifestStepView::PullManifest { reference, repo_name } => after_pull(
            reference,
            repo_name,
            answers.pulled,
        ),
        ManifestStepView::ReadManifest { reference, repo_name, raw_manifest, digest } => after_read(
            reference,
            repo_name,
            raw_manifest,
            digest,
            answers.blobs,
        ),
        ManifestStepView::DownloadBlobs { repo_name, raw_manifest, digest, .. } => after_blobs(
            repo_name,
            raw_manifest,
            digest,
            answers.downloaded,
        ),
        ManifestStepView::SaveManifest { .. } => after_save_manifest(answers.saved),
        ManifestStepView::Done(result) => ManifestStepView::Done(result),
    }
}

/// How many steps may at most lie ahead.
pub open spec fn manifest_steps_ahead(step: ManifestStepView) -> nat {
    match step {
        ManifestStepView::PullManifest { .. } => 4,
        ManifestStepView::ReadManifest { .. } => 3,
        ManifestStepView::DownloadBlobs { .. } => 2,
        ManifestStepView::SaveManifest { .. } => 1,
        ManifestStepView::Done(_) => 0,
    }
}

/// All steps of the download of a manifest, from `step` to its end.
pub open spec fn manifest_steps(step: ManifestStepView, answers: ManifestAnswers) -> Seq<
    ManifestStepView,
>
    decreases manifest_steps_ahead(step),
{
    if step is Done {
        seq![step]
    } else {
        seq![step] + manifest_steps(next_manifest_step(step, answers), answers)
    }
}

/// What the download of a manifest comes to: the first thing that went wrong,
/// if anything did.
pub open spec fn manifest_outcome(answers: ManifestAnswers) -> Result<(), DownloadErrorView> {
    if answers.pulled is Err {
        Err(DownloadErrorView::OciClientError(answers.pulled->Err_0))
    } else if answers.blobs is Err {
        Err(DownloadErrorView::OciClientError(manifest_parsing_error(answers.blobs->Err_0)))
    } else if answers.downloaded is Err {
        Err(answers.downloaded->Err_0)
    } else if answers.saved is Err {
        Err(DownloadErrorView::DbError(answers.saved->Err_0))
    } else {
        Ok(())
    }
}

/// The download of a manifest ends with what [`manifest_outcome`] says, within
/// a fixed number of steps.
pub proof fn law_manifest_ends_with_outcome(
    reference: ReferenceView,
    repo_name: Seq<char>,
    answers: ManifestAnswers,
)
    ensures
        ({
            let all = manifest_steps(
                ManifestStepView::PullManifest { reference, repo_name },
                answers,
            );
            &&& all.len() <= 5
            &&& all.last() == ManifestStepView::Done(manifest_outcome(answers))
        }),
{
    reveal_with_fuel(manifest_steps, 5);
}

/// A manifest is saved only when it was pulled and read, and the download of the
/// blobs that it lists, taken together, succeeded. What is saved is what was
/// pulled, in the repository that the download is for.
pub proof fn law_manifest_is_saved_last(
    reference: ReferenceView,
    repo_name: Seq<char>,
    answers: ManifestAnswers,
    i: int,
)
    requires
        ({
            let all = manifest_steps(
                ManifestStepView::PullManifest { reference, repo_name },
                answers,
            );
            0 <= i < all.len() && all[i] is SaveManifest
        }),
    ensures
        ({
            let all = manifest_steps(
                ManifestStepView::PullManifest { reference, repo_name },
                answers,
            );
            &&& i == 3
            &&& answers.pulled matches Ok((raw_manifest, digest)) && {
                &&& all[3] == (ManifestStepView::SaveManifest { repo_name, raw_manifest, digest })
                &&& answers.blobs matches Ok(blobs) && all[2] == (
                ManifestStepView::DownloadBlobs {
                    reference,
                    repo_name,
                    raw_manifest,
                    digest,
                    blobs,
                })
            }
            &&& answers.downloaded is Ok
        }),
{
    reveal_with_fuel(manifest_steps, 5);
}

/// All that may be answered in the course of the download of a blob.
pub struct BlobAnswers {
    /// Whether the blob is there already, which 1 stands for.
    pub already_has_blob: Result<i64, sqlx::Error>,
    /// Whether the blob can be pulled.
    pub pulled: Result<(), oci_client::errors::OciDistributionError>,
    /// How many bytes were stored, or what went wrong.
    pub stored: Result<u64, Seq<char>>,
    /// Whether the blob was saved.
    pub saved: Result<(), sqlx::Error>,
    /// Whether the blob was linked.
    pub linked: Result<(), sqlx::Error>,
}

/// The step that follows, given the answers.
pub open spec fn next_blob_step(step: BlobStepView, answers: BlobAnswers) -> BlobStepView {
    match step {
        BlobStepView::FindBlob { blob } => after_find_blob(blob, answers.already_has_blob),
        BlobStepView::PullBlob { blob } => after_pull_blob(blob, answers.pulled),
        BlobStepView::StoreBlob { blob, .. } => after_store_blob(blob, answers.stored),
        BlobStepView::SaveBlob { blob, .. } => after_save_blob(blob, answers.saved),
        BlobStepView::LinkBlob { .. } => after_link_blob(answers.linked),
        BlobStepView::Done(result) => BlobStepView::Done(result),
    }
}

/// How many steps may at most lie ahead.
pub open spec fn blob_steps_ahead(step: BlobStepView) -> nat {
    match step {
        BlobStepView::FindBlob { .. } => 5,
        BlobStepView::PullBlob { .. } => 4,
        BlobStepView::StoreBlob { .. } => 3,
        BlobStepView::SaveBlob { .. } => 2,
        BlobStepView::LinkBlob { .. } => 1,
        BlobStepView::Done(_) => 0,
    }
}

/// All steps of the download of a blob, from `step` to its end.
pub open spec fn blob_steps(step: BlobStepView, answers: BlobAnswers) -> Seq<BlobStepView>
    decreases blob_steps_ahead(step),
{
    if step is Done {
        seq![step]
    } else {
        seq![step] + blob_steps(next_blob_step(step, answers), answers)
    }
}

/// Whether the blob was found to be there already.
pub open spec fn is_there(answers: BlobAnswers) -> bool {
    answers.already_has_blob == Ok::<i64, sqlx::Error>(1)
}

/// What the download of a blob comes to: the first thing that went wrong, if
/// anything did. Of a blob that is there already, only the link can.
pub open spec fn blob_outcome(answers: BlobAnswers) -> Result<(), DownloadErrorView> {
    if answers.already_has_blob is Err {
        Err(DownloadErrorView::DbError(answers.already_has_blob->Err_0))
    } else if !is_there(answers) && answers.pulled is Err {
        Err(DownloadErrorView::OciClientError(answers.pulled->Err_0))
    } else if !is_there(answers) && answers.stored is Err {
        Err(DownloadErrorView::StorageError(answers.stored->Err_0))
    } else if !is_there(answers) && answers.saved is Err {
        Err(DownloadErrorView::DbError(answers.saved->Err_0))
    } else if answers.linked is Err {
        Err(DownloadErrorView::DbError(answers.linked->Err_0))
    } else {
        Ok(())
    }
}

/// The download of a blob ends with what [`blob_outcome`] says, within a fixed
/// number of steps.
pub proof fn law_blob_ends_with_outcome(blob: BlobView, answers: BlobAnswers)
    ensures
        blob_steps(BlobStepView::FindBlob { blob }, answers).len() <= 6,
        blob_steps(BlobStepView::FindBlob { blob }, answers).last() == BlobStepView::Done(
            blob_outcome(answers),
        ),
{
    reveal_with_fuel(blob_steps, 6);
}

/// A blob that is there already is linked, and nothing else is done.
pub proof fn law_blob_that_is_there_is_only_linked(blob: BlobView, answers: BlobAnswers)
    requires
        is_there(answers),
    ensures
        blob_steps(BlobStepView::FindBlob { blob }, answers) =~= seq![
            BlobStepView::FindBlob { blob },
            BlobStepView::LinkBlob { blob },
            BlobStepView::Done(blob_outcome(answers)),
        ],
{
    reveal_with_fuel(blob_steps, 6);
}

/// A blob whose download succeeds was linked to the repository; unless it was
/// there before, it was pulled, stored with verification, and saved with the
/// size that was stored, in this order.
pub proof fn law_downloaded_blob_is_saved_and_linked(blob: BlobView, answers: BlobAnswers)
    requires
        blob_outcome(answers) is Ok,
        !is_there(answers),
    ensures
        answers.stored is Ok,
        blob_steps(BlobStepView::FindBlob { blob }, answers) =~= seq![
            BlobStepView::FindBlob { blob },
            BlobStepView::PullBlob { blob },
            BlobStepView::StoreBlob { blob, verify: true },
            BlobStepView::SaveBlob { blob, size: saved_size(answers.stored->Ok_0) },
            BlobStepView::LinkBlob { blob },
            BlobStepView::Done(Ok(())),
        ],
{
    reveal_with_fuel(blob_steps, 6);
}

/// The download of a blob ends with the first thing that went wrong, as it was
/// reported, and with nothing else.
pub proof fn law_blob_ends_with_first_failure(blob: BlobView, answers: BlobAnswers)
    ensures
        ({
            let end = blob_steps(BlobStepView::FindBlob { blob }, answers).last();
            match answers.already_has_blob {
                Err(error) => end == BlobStepView::Done(Err(DownloadErrorView::DbError(error))),
                Ok(has_blob) => {
                    &&& has_blob != 1 ==> match (answers.pulled, answers.stored, answers.saved) {
                        (Err(error), _, _) => end == BlobStepView::Done(
                            Err(DownloadErrorView::OciClientError(error)),
                        ),
                        (Ok(_), Err(message), _) => end == BlobStepView::Done(
                            Err(DownloadErrorView::StorageError(message)),
                        ),
                        (Ok(_), Ok(_), Err(error)) => end == BlobStepView::Done(
                            Err(DownloadErrorView::DbError(error)),
                        ),
                        (Ok(_), Ok(_), Ok(_)) => true,
                    }
                    &&& has_blob == 1 || (answers.pulled is Ok && answers.stored is Ok
                        && answers.saved is Ok) ==> end == BlobStepView::Done(
                        match answers.linked {
                            Ok(_) => Ok(()),
                            Err(error) => Err(DownloadErrorView::DbError(error)),
                        },
                    )
                },
            }
        }),
{
    law_blob_ends_with_outcome(blob, answers);
}

/// The size that a blob is saved with is the number of bytes that were stored of
/// it, the number itself wherever a signed number reaches that far.
pub proof fn law_blob_is_saved_with_its_length(blob: BlobView, answers: BlobAnswers, j: int)
    requires
        0 <= j < blob_steps(BlobStepView::FindBlob { blob }, answers).len(),
    ensures
        blob_steps(BlobStepView::FindBlob { blob }, answers)[j] matches BlobStepView::SaveBlob {
            blob: saved,
            size,
        } ==> saved == blob && (answers.stored matches Ok(len) && size == if len <= i64::MAX {
            len as int
        } else {
            len - 0x1_0000_0000_0000_0000
        }),
{
    reveal_with_fuel(blob_steps, 6);
}

/// The download of a manifest ends with the first thing that went wrong, as it was
/// reported, and with nothing else. What cannot be read is reported as an error of
/// the client, with the message of the reader.
pub proof fn law_manifest_ends_with_first_failure(
    reference: ReferenceView,
    repo_name: Seq<char>,
    answers: ManifestAnswers,
)
    ensures
        manifest_steps(ManifestStepView::PullManifest { reference, repo_name }, answers).last()
            == ManifestStepView::Done(
            match (answers.pulled, answers.blobs, answers.downloaded, answers.saved) {
                (Err(error), _, _, _) => Err(DownloadErrorView::OciClientError(error)),
                (Ok(_), Err(message), _, _) => Err(
                    DownloadErrorView::OciClientError(manifest_parsing_error(message)),
                ),
                (Ok(_), Ok(_), Err(error), _) => Err(error),
                (Ok(_), Ok(_), Ok(_), Err(error)) => Err(DownloadErrorView::DbError(error)),
                (Ok(_), Ok(_), Ok(_), Ok(_)) => Ok(()),
            },
        ),
{
    law_manifest_ends_with_outcome(reference, repo_name, answers);
}

/// A whole download of a manifest: what it is about, and all that is answered in
/// its course.
pub struct ManifestRun {
    pub reference: ReferenceView,
    /// The repository that the manifest and its blobs are kept in.
    pub repo_name: Seq<char>,
    pub answers: ManifestAnswers,
    /// What is answered about each of the blobs that the manifest lists, by its
    /// place in the list.
    pub blob: spec_fn(int) -> BlobAnswers,
}

impl ManifestRun {
    /// The steps of the download.
    pub open spec fn steps(self) -> Seq<ManifestStepView> {
        manifest_steps(
            ManifestStepView::PullManifest {
                reference: self.reference,
                repo_name: self.repo_name,
            },
            self.answers,
        )
    }

    /// What the download comes to.
    pub open spec fn outcome(self) -> Result<(), DownloadErrorView> {
        manifest_outcome(self.answers)
    }

    /// The digests of the blobs that are to be downloaded. Where the manifest was
    /// not pulled or could not be read, there are none.
    pub open spec fn blobs(self) -> Seq<Seq<char>> {
        if self.answers.pulled is Ok && self.answers.blobs is Ok {
            self.answers.blobs->Ok_0
        } else {
            seq![]
        }
    }

    /// The `k`-th blob.
    pub open spec fn listed(self, k: int) -> BlobView {
        BlobView {
            reference: self.reference,
            repo_name: self.repo_name,
            digest: self.blobs()[k],
        }
    }

    /// The steps of the download of the `k`-th blob.
    pub open spec fn blob_steps(self, k: int) -> Seq<BlobStepView> {
        blob_steps(BlobStepView::FindBlob { blob: self.listed(k) }, (self.blob)(k))
    }

    /// What the download of the `k`-th blob comes to.
    pub open spec fn blob_outcome(self, k: int) -> Result<(), DownloadErrorView> {
        blob_outcome((self.blob)(k))
    }

    /// What is answered of all blobs together is what became of them one by one:
    /// a success if all of them succeeded, or else the error of one of them.
    pub open spec fn joined(self) -> bool {
        self.answers.pulled is Ok && self.answers.blobs is Ok ==> match self.answers.downloaded {
            Ok(_) => forall|k: int|
                0 <= k < self.blobs().len() ==> #[trigger] self.blob_outcome(k) is Ok,
            Err(error) => exists|k: int|
                0 <= k < self.blobs().len() && #[trigger] self.blob_outcome(k) == Err::<
                    (),
                    DownloadErrorView,
                >(error),
        }
    }
}

/// A manifest that is saved has every blob that it lists: each was linked to the
/// repository, and was there already or was saved with the size that was stored.
pub proof fn law_saved_manifest_has_its_blobs(run: ManifestRun, i: int, k: int)
    requires
        run.joined(),
        0 <= i < run.steps().len(),
        run.steps()[i] is SaveManifest,
        0 <= k < run.blobs().len(),
    ensures
        run.blob_outcome(k) is Ok,
        run.blob_steps(k).contains(BlobStepView::LinkBlob { blob: run.listed(k) }),
        is_there((run.blob)(k)) || ((run.blob)(k).stored matches Ok(len) && run.blob_steps(
            k,
        ).contains(BlobStepView::SaveBlob { blob: run.listed(k), size: saved_size(len) })),
{
    law_manifest_is_saved_last(run.reference, run.repo_name, run.answers, i);
    lemma_downloaded_blob(run, k);
}

/// The steps of a blob whose download succeeds.
pub(crate) proof fn lemma_downloaded_blob(run: ManifestRun, k: int)
    requires
        run.blob_outcome(k) is Ok,
    ensures
        run.blob_steps(k).contains(BlobStepView::LinkBlob { blob: run.listed(k) }),
        is_there((run.blob)(k)) || ((run.blob)(k).stored matches Ok(len) && run.blob_steps(
            k,
        ).contains(BlobStepView::SaveBlob { blob: run.listed(k), size: saved_size(len) })),
{
    if is_there((run.blob)(k)) {
        law_blob_that_is_there_is_only_linked(run.listed(k), (run.blob)(k));
        assert(run.blob_steps(k)[1] is LinkBlob);
    } else {
        law_downloaded_blob_is_saved_and_linked(run.listed(k), (run.blob)(k));
        assert(run.blob_steps(k)[3] is SaveBlob);
        assert(run.blob_steps(k)[4] is LinkBlob);
    }
}

/// When the download of a blob fails, so does that of the manifest, with the
/// error of a blob that failed, and the manifest is not saved.
pub proof fn law_failed_blob_fails_the_manifest(run: ManifestRun, k: int)
    requires
        run.joined(),
        0 <= k < run.blobs().len(),
        run.blob_outcome(k) is Err,
    ensures
        run.outcome() is Err,
        exists|j: int|
            0 <= j < run.blobs().len() && #[trigger] run.blob_outcome(j) == run.outcome(),
        forall|i: int| 0 <= i < run.steps().len() ==> !(#[trigger] run.steps()[i] is SaveManifest),
{
    assert forall|i: int| 0 <= i < run.steps().len() implies !(
    #[trigger] run.steps()[i] is SaveManifest) by {
        if run.steps()[i] is SaveManifest {
            law_manifest_is_saved_last(run.reference, run.repo_name, run.answers, i);
        }
    }
}

/// The download of a manifest fails with an error of the remote registry's
/// client, of the storage or of the database, and with no other.
pub proof fn law_manifest_error_kinds(run: ManifestRun)
    requires
        run.joined(),
    ensures
        run.outcome() matches Err(error) ==> error is OciClientError || error is StorageError
            || error is DbError,
{
}

/// All that the download of a manifest writes, it writes for the repository that
/// it is for: the manifest that is saved, and every blob at every step.
pub proof fn law_manifest_download_keeps_to_its_repository(run: ManifestRun)
    ensures
        forall|i: int|
            0 <= i < run.steps().len() ==> (#[trigger] run.steps()[i] matches
                ManifestStepView::SaveManifest { repo_name, .. } ==> repo_name == run.repo_name),
        forall|k: int, j: int|
            0 <= j < run.blob_steps(k).len() ==> (#[trigger] run.blob_steps(k)[j] is Done
                || blob_of(run.blob_steps(k)[j]) == Some(run.listed(k))),
        forall|k: int| #[trigger] run.listed(k).repo_name == run.repo_name,
{
    assert forall|i: int| 0 <= i < run.steps().len() implies (#[trigger] run.steps()[i] matches
        ManifestStepView::SaveManifest { repo_name, .. } ==> repo_name == run.repo_name) by {
        if run.steps()[i] is SaveManifest {
            law_manifest_is_saved_last(run.reference, run.repo_name, run.answers, i);
        }
    }
    assert forall|k: int, j: int| 0 <= j < run.blob_steps(k).len() implies (
    #[trigger] run.blob_steps(k)[j] is Done || blob_of(run.blob_steps(k)[j]) == Some(
        run.listed(k),
    )) by {
        reveal_with_fuel(blob_steps, 6);
    }
}

/// The blob that a step is about, until its download ends.
pub open spec fn blob_of(step: BlobStepView) -> Option<BlobView> {
    match step {
        BlobStepView::FindBlob { blob } => Some(blob),
        BlobStepView::PullBlob { blob } => Some(blob),
        BlobStepView::StoreBlob { blob, .. } => Some(blob),
        BlobStepView::SaveBlob { blob, .. } => Some(blob),
        BlobStepView::LinkBlob { blob } => Some(blob),
        BlobStepView::Done(_) => None,
    }
}

/// A blob is always stored with verification, and is saved with the size that
/// was stored just before.
pub proof fn law_blob_is_stored_with_verification(run: ManifestRun, k: int, j: int)
    requires
        0 <= j < run.blob_steps(k).len(),
    ensures
        run.blob_steps(k)[j] matches BlobStepView::StoreBlob { verify, .. } ==> verify,
        run.blob_steps(k)[j] matches BlobStepView::SaveBlob { size, .. } ==> {
            &&& j > 0
            &&& run.blob_steps(k)[j - 1] == (BlobStepView::StoreBlob {
                blob: run.listed(k),
                verify: true,
            })
            &&& (run.blob)(k).stored matches Ok(len) && size == saved_size(len)
        },
{
    reveal_with_fuel(blob_steps, 6);
}

} // verus!
