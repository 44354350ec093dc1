//! What a whole download comes to, whatever the database and the remote
//! registry answer.

use vstd::prelude::*;
use crate::config::proxied_name;
use crate::digest::valid_digest;
use crate::download::{after_download, after_find, after_local_digest, after_remote_digest};
use crate::download::{after_save, after_setup, first_invalid, first_step, tag_digests};
use crate::download::{try_digests, DownloadStepView, JobView};
use crate::error::DownloadErrorView;
use crate::image::{ManifestReferenceView, RemoteImageView};

verus! {

/// All that may be answered in the course of a download.
pub struct Answers {
    /// Whether a client for the remote registry can be set up.
    pub has_client: bool,
    /// The digest that the database has for the tag.
    pub local_digest: Result<Option<Seq<char>>, sqlx::Error>,
    /// The digest that the remote registry has for the tag, if it can be
    /// fetched.
    pub remote_digest: Option<Seq<char>>,
    /// Whether the repository holds a manifest, which 1 stands for.
    pub has_manifest: spec_fn(Seq<char>) -> Result<i64, sqlx::Error>,
    /// Whether a manifest, and all that it lists, can be downloaded.
    pub downloads: spec_fn(Seq<char>) -> bool,
    /// Whether the tag can be pointed at a digest.
    pub saves: spec_fn(Seq<char>) -> Result<(), sqlx::Error>,
}

/// The step that follows, given the answers.
pub open spec fn next_step(step: DownloadStepView, answers: Answers) -> DownloadStepView {
    match step {
        DownloadStepView::SetupClient { job, insecure, reference } => after_setup(
            job,
            reference,
            answers.has_client,
        ),
        DownloadStepView::FindLocalDigest { job, tag, has_client } => after_local_digest(
            job,
            has_client,
            answers.local_digest,
        ),
        DownloadStepView::FetchRemoteDigest { job, local_digest } => after_remote_digest(
            job,
            local_digest,
            answers.remote_digest,
        ),
        DownloadStepView::FindManifest { job, has_client, digest, rest } => after_find(
            job,
            has_client,
            digest,
            rest,
            (answers.has_manifest)(digest),
        ),
        DownloadStepView::DownloadManifest { job, digest, rest } => after_download(
            job,
            digest,
            rest,
            (answers.downloads)(digest),
        ),
        DownloadStepView::SaveTag { job, tag, digest } => after_save(
            digest,
            (answers.saves)(digest),
        ),
        DownloadStepView::Done(result) => DownloadStepView::Done(result),
    }
}

/// How many steps may at most lie ahead.
pub open spec fn steps_ahead(step: DownloadStepView) -> nat {
    match step {
        DownloadStepView::SetupClient { .. } => 8,
        DownloadStepView::FindLocalDigest { .. } => 7,
        DownloadStepView::FetchRemoteDigest { .. } => 6,
        DownloadStepView::FindManifest { rest, .. } => 2 * rest.len() + 3,
        DownloadStepView::DownloadManifest { rest, .. } => 2 * rest.len() + 2,
        DownloadStepView::SaveTag { .. } => 1,
        DownloadStepView::Done(_) => 0,
    }
}

/// All steps of a download, from `step` to its end.
pub open spec fn steps(step: DownloadStepView, answers: Answers) -> Seq<DownloadStepView>
    decreases steps_ahead(step),
{
    if step is Done {
        seq![step]
    } else {
        seq![step] + steps(next_step(step, answers), answers)
    }
}

/// The digests that a download tries in turn, or why it tries none.
pub open spec fn digests_to_try(reference: ManifestReferenceView, answers: Answers) -> Result<
    Seq<Seq<char>>,
    DownloadErrorView,
> {
    match reference {
        ManifestReferenceView::Digest(digest) => Ok(seq![digest]),
        ManifestReferenceView::Tag(_) => match answers.local_digest {
            Err(error) => Err(DownloadErrorView::DbError(error)),
            Ok(local_digest) => {
                let remote_digest = if answers.has_client {
                    answers.remote_digest
                } else {
                    None
                };
                let raw = tag_digests(remote_digest, local_digest);
                match first_invalid(raw) {
                    Some(text) => Err(DownloadErrorView::InvalidDigest(text)),
                    None => Ok(raw),
                }
            },
        },
    }
}

/// What trying the digests in turn comes to. A digest that the repository holds
/// is taken as it is. One that can be downloaded is taken once the tag, if the
/// image has one, points at it.
pub open spec fn first_available(
    digests: Seq<Seq<char>>,
    tagged: bool,
    answers: Answers,
) -> Result<Seq<char>, DownloadErrorView>
    decreases digests.len(),
{
    if digests.len() == 0 {
        Err(DownloadErrorView::DownloadAttemptsFailed)
    } else {
        let digest = digests.first();
        match (answers.has_manifest)(digest) {
            Err(error) => Err(DownloadErrorView::DbError(error)),
            Ok(has_manifest) => if has_manifest == 1 {
                Ok(digest)
            } else if answers.has_client && (answers.downloads)(digest) {
                match (answers.saves)(digest) {
                    Err(error) => if tagged {
                        Err(DownloadErrorView::DbError(error))
                    } else {
                        Ok(digest)
                    },
                    Ok(_) => Ok(digest),
                }
            } else {
                first_available(digests.drop_first(), tagged, answers)
            },
        }
    }
}

/// What a download comes to.
pub open spec fn outcome(reference: ManifestReferenceView, answers: Answers) -> Result<
    Seq<char>,
    DownloadErrorView,
> {
    match digests_to_try(reference, answers) {
        Err(error) => Err(error),
        Ok(digests) => first_available(digests, reference is Tag, answers),
    }
}

/// Whether the repository holds a manifest, or can get hold of it.
pub open spec fn available(digest: Seq<char>, answers: Answers) -> bool {
    ||| (answers.has_manifest)(digest) matches Ok(has_manifest) && has_manifest == 1
    ||| answers.has_client && (answers.downloads)(digest)
}

/// A download ends, within a fixed number of steps, with what [`outcome`] says.
pub proof fn law_download_ends_with_outcome(
    alias: Seq<char>,
    image: RemoteImageView,
    answers: Answers,
)
    ensures
        steps(first_step(alias, image), answers).last() == DownloadStepView::Done(
            outcome(image.reference, answers),
        ),
        steps(first_step(alias, image), answers).len() <= 9,
{
    let step = first_step(alias, image);
    lemma_steps_len(step, answers);
    lemma_end(step, answers);
    let job = JobView { repo_name: proxied_name(alias, image.repo), image_ref: image.place() };
    let setup = next_step(step, answers);
    match image.reference {
        ManifestReferenceView::Digest(digest) => {
            lemma_tries_end(job, seq![digest], answers);
        },
        ManifestReferenceView::Tag(tag) => {
            lemma_end(setup, answers);
            let local = next_step(setup, answers);
            if let Ok(local_digest) = answers.local_digest {
                if answers.has_client {
                    lemma_end(local, answers);
                    lemma_tries_end(
                        job,
                        tag_digests(answers.remote_digest, local_digest),
                        answers,
                    );
                } else {
                    lemma_tries_end(job, tag_digests(None, local_digest), answers);
                }
            }
        },
    }
}

/// A download ends as it does from its next step on.
proof fn lemma_end(step: DownloadStepView, answers: Answers)
    requires
        !(step is Done),
    ensures
        steps(step, answers).last() == steps(next_step(step, answers), answers).last(),
{
    lemma_steps_len(next_step(step, answers), answers);
}

/// Trying some digests ends as [`first_available`] says.
proof fn lemma_tries_end(job: JobView, digests: Seq<Seq<char>>, answers: Answers)
    ensures
        steps(try_digests(job, answers.has_client, digests), answers).last()
            == DownloadStepView::Done(
            first_available(digests, job.image_ref.tag is Some, answers),
        ),
    decreases digests.len(),
{
    if digests.len() > 0 {
        let find = try_digests(job, answers.has_client, digests);
        lemma_end(find, answers);
        let digest = digests.first();
        lemma_tries_end(job, digests.drop_first(), answers);
        let found = next_step(find, answers);
        if found is DownloadManifest {
            lemma_end(found, answers);
            let downloaded = next_step(found, answers);
            if downloaded is SaveTag {
                lemma_end(downloaded, answers);
            }
        }
    }
}

proof fn lemma_steps_len(step: DownloadStepView, answers: Answers)
    ensures
        0 < steps(step, answers).len() <= steps_ahead(step) + 1,
    decreases steps_ahead(step),
{
    if !(step is Done) {
        lemma_steps_len(next_step(step, answers), answers);
    }
}

/// What a download gives is one of the digests that it tries, and the
/// repository holds it or could get hold of it.
pub proof fn law_download_gives_available_digest(
    reference: ManifestReferenceView,
    answers: Answers,
    digest: Seq<char>,
)
    requires
        outcome(reference, answers) == Ok::<Seq<char>, DownloadErrorView>(digest),
    ensures
        available(digest, answers),
        digests_to_try(reference, answers) matches Ok(digests) && digests.contains(digest),
{
    lemma_first_available(digests_to_try(reference, answers)->Ok_0, reference is Tag, answers);
}

proof fn lemma_first_available(digests: Seq<Seq<char>>, tagged: bool, answers: Answers)
    ensures
        first_available(digests, tagged, answers) matches Ok(digest) ==> digests.contains(digest)
            && available(digest, answers),
        first_available(digests, tagged, answers) == Err::<Seq<char>, DownloadErrorView>(
            DownloadErrorView::DownloadAttemptsFailed,
        ) <==> forall|i: int| 0 <= i < digests.len() ==> unavailable(#[trigger] digests[i], answers),
    decreases digests.len(),
{
    if digests.len() > 0 {
        let rest = digests.drop_first();
        lemma_first_available(rest, tagged, answers);
        assert(digests.contains(digests[0]));
        assert forall|i: int| 0 <= i < rest.len() implies rest[i] == #[trigger] digests[i + 1] by {}
        assert forall|d: Seq<char>| rest.contains(d) implies digests.contains(d) by {
            let i = choose|i: int| 0 <= i < rest.len() && rest[i] == d;
            assert(digests[i + 1] == d);
        }
        if forall|i: int| 0 <= i < digests.len() ==> unavailable(#[trigger] digests[i], answers) {
            assert(unavailable(digests[0], answers));
            assert forall|i: int| 0 <= i < rest.len() implies unavailable(
                #[trigger] rest[i],
                answers,
            ) by {
                assert(unavailable(digests[i + 1], answers));
            }
        }
        if unavailable(digests[0], answers) && (forall|i: int|
            0 <= i < rest.len() ==> unavailable(#[trigger] rest[i], answers)) {
            assert forall|i: int| 0 <= i < digests.len() implies unavailable(
                #[trigger] digests[i],
                answers,
            ) by {
                if i > 0 {
                    assert(unavailable(rest[i - 1], answers));
                }
            }
        }
    }
}

/// The repository is known not to hold a manifest, and cannot get hold of it.
pub open spec fn unavailable(digest: Seq<char>, answers: Answers) -> bool {
    &&& (answers.has_manifest)(digest) matches Ok(has_manifest) && has_manifest != 1
    &&& !(answers.has_client && (answers.downloads)(digest))
}

/// The attempts fail exactly when it is settled which digests to try, and every
/// one of them is unavailable. With no digest to try they fail too.
pub proof fn law_attempts_fail_when_all_unavailable(
    reference: ManifestReferenceView,
    answers: Answers,
)
    ensures
        outcome(reference, answers) == Err::<Seq<char>, DownloadErrorView>(
            DownloadErrorView::DownloadAttemptsFailed,
        ) <==> (digests_to_try(reference, answers) matches Ok(digests) && forall|i: int|
            0 <= i < digests.len() ==> unavailable(#[trigger] digests[i], answers)),
{
    if let Ok(digests) = digests_to_try(reference, answers) {
        lemma_first_available(digests, reference is Tag, answers);
    }
}

/// A download fails with an error of the database, with a text that is no digest,
/// or because all attempts failed, and with no other error. What goes wrong with
/// a single attempt is not passed on.
pub proof fn law_download_error_kinds(reference: ManifestReferenceView, answers: Answers)
    ensures
        outcome(reference, answers) matches Err(error) ==> error is DbError
            || error is InvalidDigest || error is DownloadAttemptsFailed,
{
    if let Ok(digests) = digests_to_try(reference, answers) {
        lemma_attempt_error_kinds(digests, reference is Tag, answers);
    }
}

proof fn lemma_attempt_error_kinds(digests: Seq<Seq<char>>, tagged: bool, answers: Answers)
    ensures
        first_available(digests, tagged, answers) matches Err(error) ==> error is DbError
            || error is DownloadAttemptsFailed,
    decreases digests.len(),
{
    if digests.len() > 0 {
        lemma_attempt_error_kinds(digests.drop_first(), tagged, answers);
    }
}

/// An image that is asked for by its digest is never answered by another.
pub proof fn law_digest_is_answered_by_itself(
    requested: Seq<char>,
    answers: Answers,
    given: Seq<char>,
)
    requires
        outcome(ManifestReferenceView::Digest(requested), answers) == Ok::<
            Seq<char>,
            DownloadErrorView,
        >(given),
    ensures
        given == requested,
{
    law_download_gives_available_digest(
        ManifestReferenceView::Digest(requested),
        answers,
        given,
    );
}

/// The digests that a download tries are at most two, are all different, and
/// those behind a tag are well-formed.
pub proof fn law_digests_to_try(reference: ManifestReferenceView, answers: Answers)
    ensures
        digests_to_try(reference, answers) matches Ok(digests) ==> {
            &&& digests.len() <= 2
            &&& digests.no_duplicates()
            &&& reference is Tag ==> forall|i: int|
                0 <= i < digests.len() ==> valid_digest(#[trigger] digests[i])
        },
{
    reveal_with_fuel(first_invalid, 3);
    if let Ok(digests) = digests_to_try(reference, answers) {
        if digests.len() == 2 {
            assert(digests.drop_first()[0] == digests[1]);
        }
    }
}

/// What the remote registry has for a tag comes before what the database has:
/// it is given as soon as it is available.
pub proof fn law_remote_digest_comes_first(tag: Seq<char>, answers: Answers, remote: Seq<char>)
    requires
        answers.has_client,
        answers.remote_digest == Some(remote),
        digests_to_try(ManifestReferenceView::Tag(tag), answers) is Ok,
        ({
            ||| (answers.has_manifest)(remote) == Ok::<i64, sqlx::Error>(1)
            ||| (answers.has_manifest)(remote) is Ok && (answers.downloads)(remote) && (
            answers.saves)(remote) is Ok
        }),
    ensures
        outcome(ManifestReferenceView::Tag(tag), answers) == Ok::<Seq<char>, DownloadErrorView>(
            remote,
        ),
{
    let digests = digests_to_try(ManifestReferenceView::Tag(tag), answers)->Ok_0;
    assert(digests.first() == remote);
}

/// An image that is kept is given when the remote registry has nothing better:
/// it cannot be reached, does not know the tag, knows the same digest, or
/// another that cannot be downloaded.
pub proof fn law_kept_image_is_given(tag: Seq<char>, answers: Answers, local: Seq<char>)
    requires
        answers.local_digest == Ok::<Option<Seq<char>>, sqlx::Error>(Some(local)),
        valid_digest(local),
        (answers.has_manifest)(local) == Ok::<i64, sqlx::Error>(1),
        answers.has_client ==> (answers.remote_digest matches Some(remote) ==> remote == local || (
        valid_digest(remote) && unavailable(remote, answers))),
    ensures
        outcome(ManifestReferenceView::Tag(tag), answers) == Ok::<Seq<char>, DownloadErrorView>(
            local,
        ),
{
    reveal_with_fuel(first_invalid, 3);
    reveal_with_fuel(first_available, 3);
    let remote_digest = if answers.has_client {
        answers.remote_digest
    } else {
        None
    };
    let digests = tag_digests(remote_digest, Some(local));
    if digests.len() == 2 {
        assert(digests.drop_first() =~= seq![local]);
    }
}

/// What a step is about, until the download ends.
pub open spec fn job_of(step: DownloadStepView) -> Option<JobView> {
    match step {
        DownloadStepView::SetupClient { job, .. } => Some(job),
        DownloadStepView::FindLocalDigest { job, .. } => Some(job),
        DownloadStepView::FetchRemoteDigest { job, .. } => Some(job),
        DownloadStepView::FindManifest { job, .. } => Some(job),
        DownloadStepView::DownloadManifest { job, .. } => Some(job),
        DownloadStepView::SaveTag { job, .. } => Some(job),
        DownloadStepView::Done(_) => None,
    }
}

/// Each step is the one that follows the step before it, and all are about the
/// same image.
proof fn lemma_steps_follow(step: DownloadStepView, answers: Answers)
    ensures
        steps(step, answers).len() > 0,
        steps(step, answers)[0] == step,
        forall|i: int|
            0 < i < steps(step, answers).len() ==> #[trigger] steps(step, answers)[i] == next_step(
                steps(step, answers)[i - 1],
                answers,
            ),
        forall|i: int|
            0 <= i < steps(step, answers).len() ==> (#[trigger] steps(step, answers)[i] is Done
                || job_of(steps(step, answers)[i]) == job_of(step)),
    decreases steps_ahead(step),
{
    if !(step is Done) {
        let next = next_step(step, answers);
        lemma_steps_follow(next, answers);
        let all = steps(step, answers);
        let later = steps(next, answers);
        assert forall|i: int| 0 < i < all.len() implies #[trigger] all[i] == next_step(
            all[i - 1],
            answers,
        ) by {
            assert(all[i] == later[i - 1]);
            if i > 1 {
                assert(all[i - 1] == later[i - 2]);
            }
        }
        assert forall|i: int| 0 <= i < all.len() implies (#[trigger] all[i] is Done || job_of(
            all[i],
        ) == job_of(step)) by {
            if i > 0 {
                assert(all[i] == later[i - 1]);
            }
        }
    }
}

/// Every question of a download is about the image that was asked for: about the
/// repository `f/<alias>/<repo>`, and about the place of the image, under its own
/// tag or digest, at its own host.
pub proof fn law_every_step_is_about_the_image(
    alias: Seq<char>,
    image: RemoteImageView,
    answers: Answers,
    i: int,
)
    requires
        0 <= i < steps(first_step(alias, image), answers).len(),
        !(steps(first_step(alias, image), answers)[i] is Done),
    ensures
        job_of(steps(first_step(alias, image), answers)[i]) matches Some(job) && {
            &&& job.repo_name == "f/"@ + alias + "/"@ + image.repo
            &&& job.image_ref.registry == image.host
            &&& job.image_ref.repository == image.repo
            &&& match image.reference {
                ManifestReferenceView::Tag(tag) => job.image_ref.tag == Some(tag)
                    && job.image_ref.digest is None,
                ManifestReferenceView::Digest(digest) => job.image_ref.digest == Some(digest)
                    && job.image_ref.tag is None,
            }
        },
{
    lemma_steps_follow(first_step(alias, image), answers);
}

/// The database is asked for the image's own tag, and the remote registry only for
/// an image that was asked for by a tag, once the database has answered.
pub proof fn law_own_tag_is_looked_up(
    alias: Seq<char>,
    image: RemoteImageView,
    answers: Answers,
    i: int,
)
    requires
        0 <= i < steps(first_step(alias, image), answers).len(),
    ensures
        steps(first_step(alias, image), answers)[i] matches DownloadStepView::FindLocalDigest {
            tag,
            has_client,
            ..
        } ==> image.reference == ManifestReferenceView::Tag(tag) && has_client
            == answers.has_client,
        steps(first_step(alias, image), answers)[i] matches DownloadStepView::FetchRemoteDigest {
            local_digest,
            ..
        } ==> image.reference is Tag && answers.has_client && answers.local_digest == Ok::<
            Option<Seq<char>>,
            sqlx::Error,
        >(local_digest),
        image.reference is Tag ==> steps(first_step(alias, image), answers).len() >= 2 && steps(
            first_step(alias, image),
            answers,
        )[1] is FindLocalDigest,
{
    let step = first_step(alias, image);
    let all = steps(step, answers);
    lemma_steps_follow(step, answers);
    lemma_steps_follow(next_step(step, answers), answers);
    if i > 0 {
        assert(all[i] == next_step(all[i - 1], answers));
        if all[i] is FetchRemoteDigest {
            assert(all[i - 1] == next_step(all[i - 2], answers));
        }
    }
    assert(all[1] == next_step(all[0], answers));
}

/// A download begins with the client, which may be insecure exactly when the
/// image's scheme is `http`.
pub proof fn law_only_http_is_insecure(alias: Seq<char>, image: RemoteImageView, answers: Answers)
    ensures
        steps(first_step(alias, image), answers).len() > 0,
        steps(first_step(alias, image), answers)[0] matches DownloadStepView::SetupClient {
            insecure,
            reference,
            ..
        } && (insecure <==> image.scheme == "http"@) && reference == image.reference,
{
    lemma_steps_follow(first_step(alias, image), answers);
}

/// Only digests that are to be tried are looked for, and only those that the
/// repository does not hold are downloaded, each right after it was looked for.
pub proof fn law_only_missing_digests_are_downloaded(
    alias: Seq<char>,
    image: RemoteImageView,
    answers: Answers,
    i: int,
)
    requires
        0 <= i < steps(first_step(alias, image), answers).len(),
    ensures
        steps(first_step(alias, image), answers)[i] matches DownloadStepView::DownloadManifest {
            digest,
            ..
        } ==> {
            &&& (answers.has_manifest)(digest) matches Ok(has_manifest) && has_manifest != 1
            &&& i > 0
            &&& steps(first_step(alias, image), answers)[i - 1] matches
                DownloadStepView::FindManifest { digest: wanted, .. } && wanted == digest
        },
{
    let step = first_step(alias, image);
    let all = steps(step, answers);
    lemma_steps_follow(step, answers);
    if i > 0 {
        assert(all[i] == next_step(all[i - 1], answers));
    }
}

/// An image that is asked for by its digest: it is given if it is held, or else if
/// there is a client and it can be downloaded. No tag plays a part in it.
pub proof fn law_outcome_for_a_digest(requested: Seq<char>, answers: Answers)
    ensures
        outcome(ManifestReferenceView::Digest(requested), answers) == match (answers.has_manifest)(
            requested,
        ) {
            Err(error) => Err::<Seq<char>, DownloadErrorView>(DownloadErrorView::DbError(error)),
            Ok(has_manifest) => if has_manifest == 1 || (answers.has_client && (answers.downloads)(
                requested,
            )) {
                Ok(requested)
            } else {
                Err(DownloadErrorView::DownloadAttemptsFailed)
            },
        },
{
    reveal_with_fuel(first_available, 2);
}

/// A tag that neither the database nor the remote registry knows fails.
pub proof fn law_unknown_tag_fails(tag: Seq<char>, answers: Answers)
    requires
        answers.local_digest == Ok::<Option<Seq<char>>, sqlx::Error>(None),
        !answers.has_client || answers.remote_digest is None,
    ensures
        outcome(ManifestReferenceView::Tag(tag), answers) == Err::<Seq<char>, DownloadErrorView>(
            DownloadErrorView::DownloadAttemptsFailed,
        ),
{
}

/// A tag for which only one digest is known, be it that of the database, or that of
/// the remote registry, or the same of both: the digest is given if it is held, or
/// else if it can be downloaded and the tag can be pointed at it.
pub proof fn law_outcome_for_one_digest(tag: Seq<char>, answers: Answers, digest: Seq<char>)
    requires
        valid_digest(digest),
        answers.local_digest matches Ok(local) && {
            ||| local == Some(digest) && (!answers.has_client || answers.remote_digest is None
                || answers.remote_digest == Some(digest))
            ||| local is None && answers.has_client && answers.remote_digest == Some(digest)
        },
    ensures
        outcome(ManifestReferenceView::Tag(tag), answers) == match (answers.has_manifest)(digest) {
            Err(error) => Err::<Seq<char>, DownloadErrorView>(DownloadErrorView::DbError(error)),
            Ok(has_manifest) => if has_manifest == 1 {
                Ok(digest)
            } else if answers.has_client && (answers.downloads)(digest) {
                match (answers.saves)(digest) {
                    Ok(_) => Ok(digest),
                    Err(error) => Err(DownloadErrorView::DbError(error)),
                }
            } else {
                Err(DownloadErrorView::DownloadAttemptsFailed)
            },
        },
{
    reveal_with_fuel(first_invalid, 3);
    reveal_with_fuel(first_available, 3);
    let remote_digest = if answers.has_client {
        answers.remote_digest
    } else {
        None
    };
    assert(tag_digests(remote_digest, answers.local_digest->Ok_0) =~= seq![digest]);
}

/// A tag for which the remote registry knows another digest than the database: the
/// remote one settles the download, unless it is missing and cannot be downloaded.
/// Then the digest of the database does.
pub proof fn law_outcome_for_two_digests(
    tag: Seq<char>,
    answers: Answers,
    remote: Seq<char>,
    local: Seq<char>,
)
    requires
        remote != local,
        valid_digest(remote),
        valid_digest(local),
        answers.has_client,
        answers.remote_digest == Some(remote),
        answers.local_digest == Ok::<Option<Seq<char>>, sqlx::Error>(Some(local)),
    ensures
        ({
            let settling = if (answers.has_manifest)(remote) is Ok && (answers.has_manifest)(remote)
                != Ok::<i64, sqlx::Error>(1) && !(answers.downloads)(remote) {
                local
            } else {
                remote
            };
            outcome(ManifestReferenceView::Tag(tag), answers) == match (answers.has_manifest)(
                settling,
            ) {
                Err(error) => Err::<Seq<char>, DownloadErrorView>(
                    DownloadErrorView::DbError(error),
                ),
                Ok(has_manifest) => if has_manifest == 1 {
                    Ok(settling)
                } else if (answers.downloads)(settling) {
                    match (answers.saves)(settling) {
                        Ok(_) => Ok(settling),
                        Err(error) => Err(DownloadErrorView::DbError(error)),
                    }
                } else {
                    Err(DownloadErrorView::DownloadAttemptsFailed)
                },
            }
        }),
{
    reveal_with_fuel(first_invalid, 3);
    reveal_with_fuel(first_available, 3);
    let digests = tag_digests(Some(remote), Some(local));
    assert(digests =~= seq![remote, local]);
    assert(digests.drop_first() =~= seq![local]);
    assert(digests.drop_first().drop_first() =~= seq![]);
}

/// What is no digest ends the download for a tag, before anything is looked for:
/// first what the remote registry has, then what the database has. So does an error
/// of the database.
pub proof fn law_malformed_digest_ends_the_download(tag: Seq<char>, answers: Answers)
    ensures
        answers.local_digest matches Err(error) ==> outcome(
            ManifestReferenceView::Tag(tag),
            answers,
        ) == Err::<Seq<char>, DownloadErrorView>(DownloadErrorView::DbError(error)),
        answers.local_digest matches Ok(local) ==> {
            let remote = if answers.has_client {
                answers.remote_digest
            } else {
                None
            };
            &&& remote is Some && !valid_digest(remote->0) ==> outcome(
                ManifestReferenceView::Tag(tag),
                answers,
            ) == Err::<Seq<char>, DownloadErrorView>(DownloadErrorView::InvalidDigest(remote->0))
            &&& (remote is Some ==> valid_digest(remote->0)) && local is Some && !valid_digest(
                local->0,
            ) ==> outcome(ManifestReferenceView::Tag(tag), answers) == Err::<
                Seq<char>,
                DownloadErrorView,
            >(DownloadErrorView::InvalidDigest(local->0))
        },
{
    reveal_with_fuel(first_invalid, 3);
    if let Ok(local) = answers.local_digest {
        let remote = if answers.has_client {
            answers.remote_digest
        } else {
            None
        };
        let raw = tag_digests(remote, local);
        if raw.len() == 2 {
            assert(raw.drop_first() =~= seq![raw[1]]);
        }
    }
}

/// A tag is only ever pointed at a digest that was just downloaded. It is the
/// image's own tag, in the repository that the image is kept in.
pub proof fn law_tag_follows_download(
    alias: Seq<char>,
    image: RemoteImageView,
    answers: Answers,
    i: int,
)
    requires
        0 <= i < steps(first_step(alias, image), answers).len(),
        steps(first_step(alias, image), answers)[i] is SaveTag,
    ensures
        steps(first_step(alias, image), answers)[i] matches DownloadStepView::SaveTag {
            job,
            tag,
            digest,
        } && {
            &&& job.repo_name == proxied_name(alias, image.repo)
            &&& image.reference == ManifestReferenceView::Tag(tag)
            &&& (answers.downloads)(digest)
            &&& i > 0
            &&& steps(first_step(alias, image), answers)[i - 1] matches
                DownloadStepView::DownloadManifest { digest: downloaded, .. } && downloaded
                == digest
        },
{
    let step = first_step(alias, image);
    lemma_steps_follow(step, answers);
    let all = steps(step, answers);
    assert(all[i] == next_step(all[i - 1], answers));
    assert(job_of(all[i - 1]) == job_of(step));
}

/// An image that was downloaded for a tag has the tag point at it in the end:
/// unless the repository held the manifest before, the last thing done is to
/// save the tag.
pub proof fn law_downloaded_image_is_tagged(
    alias: Seq<char>,
    image: RemoteImageView,
    answers: Answers,
    digest: Seq<char>,
)
    requires
        image.reference is Tag,
        outcome(image.reference, answers) == Ok::<Seq<char>, DownloadErrorView>(digest),
        (answers.has_manifest)(digest) != Ok::<i64, sqlx::Error>(1),
    ensures
        ({
            let all = steps(first_step(alias, image), answers);
            all.len() >= 2 && all[all.len() - 2] == (DownloadStepView::SaveTag {
                job: JobView {
                    repo_name: proxied_name(alias, image.repo),
                    image_ref: image.place(),
                },
                tag: image.reference->Tag_0,
                digest,
            })
        }),
{
    let step = first_step(alias, image);
    let all = steps(step, answers);
    lemma_steps_follow(step, answers);
    law_download_ends_with_outcome(alias, image, answers);
    let n = all.len() as int;
    assert(all[n - 1] == DownloadStepView::Done(Ok(digest)));
    assert(all[n - 1] == next_step(all[n - 2], answers));
    lemma_done_last(step, answers, n - 2);
    assert(job_of(all[n - 2]) == job_of(step));
    if all[n - 2] is SaveTag {
        law_tag_follows_download(alias, image, answers, n - 2);
    }
}

/// Nothing follows the end of a download.
proof fn lemma_done_last(step: DownloadStepView, answers: Answers, i: int)
    requires
        0 <= i < steps(step, answers).len() - 1,
    ensures
        !(steps(step, answers)[i] is Done),
    decreases steps_ahead(step),
{
    if i > 0 {
        let next = next_step(step, answers);
        assert(steps(step, answers)[i] == steps(next, answers)[i - 1]);
        lemma_done_last(next, answers, i - 1);
    }
}

/// What was once given for a tag is given again when the remote registry cannot
/// be reached, as long as the database has it for the tag and the repository
/// holds it.
pub proof fn law_downloaded_image_is_given_again(
    tag: Seq<char>,
    earlier: Answers,
    later: Answers,
    digest: Seq<char>,
)
    requires
        outcome(ManifestReferenceView::Tag(tag), earlier) == Ok::<Seq<char>, DownloadErrorView>(
            digest,
        ),
        later.local_digest == Ok::<Option<Seq<char>>, sqlx::Error>(Some(digest)),
        (later.has_manifest)(digest) == Ok::<i64, sqlx::Error>(1),
        !later.has_client || later.remote_digest is None,
    ensures
        outcome(ManifestReferenceView::Tag(tag), later) == Ok::<Seq<char>, DownloadErrorView>(
            digest,
        ),
{
    let reference = ManifestReferenceView::Tag(tag);
    law_download_gives_available_digest(reference, earlier, digest);
    law_digests_to_try(reference, earlier);
    law_kept_image_is_given(tag, later, digest);
}

/// The answers to a download that is repeated: those of before, but for what the
/// earlier download, which gave `digest`, left behind. The repository holds the
/// digest, and where it was downloaded for a tag, the tag points at it.
pub open spec fn are_repeated(
    reference: ManifestReferenceView,
    earlier: Answers,
    later: Answers,
    digest: Seq<char>,
) -> bool {
    let held = (earlier.has_manifest)(digest) == Ok::<i64, sqlx::Error>(1);
    &&& later.has_client == earlier.has_client
    &&& later.remote_digest == earlier.remote_digest
    &&& reference is Tag ==> later.local_digest == if held {
        earlier.local_digest
    } else {
        Ok(Some(digest))
    }
    &&& (later.has_manifest)(digest) == Ok::<i64, sqlx::Error>(1)
    &&& forall|other: Seq<char>|
        other != digest ==> #[trigger] (later.has_manifest)(other) == (earlier.has_manifest)(other)
    &&& forall|other: Seq<char>| #[trigger]
        (later.downloads)(other) == (earlier.downloads)(other)
}

/// A download that is repeated while the remote registry answers as before gives
/// the same digest again, without downloading it, and saves no tag.
pub proof fn law_repeated_download_gives_the_same(
    alias: Seq<char>,
    image: RemoteImageView,
    earlier: Answers,
    later: Answers,
    digest: Seq<char>,
)
    requires
        outcome(image.reference, earlier) == Ok::<Seq<char>, DownloadErrorView>(digest),
        are_repeated(image.reference, earlier, later, digest),
    ensures
        outcome(image.reference, later) == Ok::<Seq<char>, DownloadErrorView>(digest),
        forall|i: int|
            0 <= i < steps(first_step(alias, image), later).len() ==> {
                &&& !(#[trigger] steps(first_step(alias, image), later)[i] is SaveTag)
                &&& steps(first_step(alias, image), later)[i] matches
                    DownloadStepView::DownloadManifest { digest: other, .. } ==> other != digest
            },
{
    lemma_repeated_outcome(image.reference, earlier, later, digest);
    law_download_ends_with_outcome(alias, image, later);
    let step = first_step(alias, image);
    let all = steps(step, later);
    let n = all.len() as int;
    lemma_steps_follow(step, later);
    assert forall|i: int| 0 <= i < n implies {
        &&& !(#[trigger] all[i] is SaveTag)
        &&& all[i] matches DownloadStepView::DownloadManifest { digest: other, .. } ==> other
            != digest
    } by {
        if all[i] is DownloadManifest {
            assert(all[i] == next_step(all[i - 1], later));
        }
        if all[i] is SaveTag {
            lemma_saved_tag_is_given(alias, image, later, i);
        }
    }
}

/// A tag that is saved is pointed at what the download gives, if it gives
/// anything, which the repository did not hold before.
pub(crate) proof fn lemma_saved_tag_is_given(
    alias: Seq<char>,
    image: RemoteImageView,
    answers: Answers,
    i: int,
)
    requires
        0 <= i < steps(first_step(alias, image), answers).len(),
        steps(first_step(alias, image), answers)[i] is SaveTag,
    ensures
        outcome(image.reference, answers) matches Ok(digest) ==> steps(
            first_step(alias, image),
            answers,
        )[i]->SaveTag_digest == digest && (answers.has_manifest)(digest) != Ok::<
            i64,
            sqlx::Error,
        >(1),
{
    let step = first_step(alias, image);
    let all = steps(step, answers);
    let n = all.len() as int;
    lemma_steps_follow(step, answers);
    law_download_ends_with_outcome(alias, image, answers);
    law_tag_follows_download(alias, image, answers, i);
    assert(all[i - 1] == next_step(all[i - 2], answers));
    assert(all[i + 1] == next_step(all[i], answers));
    if i + 1 < n - 1 {
        lemma_done_last(step, answers, i + 1);
    }
}

/// The step before the end of a download that gives a digest.
pub(crate) proof fn lemma_step_before_end(
    alias: Seq<char>,
    image: RemoteImageView,
    answers: Answers,
    digest: Seq<char>,
) -> (i: int)
    requires
        outcome(image.reference, answers) == Ok::<Seq<char>, DownloadErrorView>(digest),
    ensures
        0 <= i < steps(first_step(alias, image), answers).len(),
        match steps(first_step(alias, image), answers)[i] {
            DownloadStepView::FindManifest { digest: found, .. } => found == digest && (
            answers.has_manifest)(digest) == Ok::<i64, sqlx::Error>(1),
            DownloadStepView::DownloadManifest { digest: downloaded, .. } => downloaded == digest
                && (answers.downloads)(digest),
            _ => false,
        },
{
    let step = first_step(alias, image);
    let all = steps(step, answers);
    let n = all.len() as int;
    lemma_steps_follow(step, answers);
    law_download_ends_with_outcome(alias, image, answers);
    assert(all[n - 1] == next_step(all[n - 2], answers));
    lemma_done_last(step, answers, n - 2);
    if all[n - 2] is SaveTag {
        law_tag_follows_download(alias, image, answers, n - 2);
        n - 3
    } else {
        n - 2
    }
}

/// A download that is repeated comes to the same.
proof fn lemma_repeated_outcome(
    reference: ManifestReferenceView,
    earlier: Answers,
    later: Answers,
    digest: Seq<char>,
)
    requires
        outcome(reference, earlier) == Ok::<Seq<char>, DownloadErrorView>(digest),
        are_repeated(reference, earlier, later, digest),
    ensures
        outcome(reference, later) == Ok::<Seq<char>, DownloadErrorView>(digest),
{
    let first = digests_to_try(reference, earlier)->Ok_0;
    law_download_gives_available_digest(reference, earlier, digest);
    law_digests_to_try(reference, earlier);
    if let ManifestReferenceView::Tag(tag) = reference {
        assert(valid_digest(digest));
        let local_digest = later.local_digest->Ok_0;
        let remote_digest = if later.has_client {
            later.remote_digest
        } else {
            None
        };
        let second = tag_digests(remote_digest, local_digest);
        if first[0] == digest {
            assert(second[0] == digest);
            lemma_repeated_digests(reference, earlier, later, digest);
        } else {
            assert(first[1] == digest);
            assert(second =~= first);
            lemma_repeated_digests(reference, earlier, later, digest);
            assert(first.drop_first() =~= seq![digest]);
            assert(unavailable(first[0], earlier));
            assert(unavailable(first[0], later));
            assert(first_available(seq![digest], true, later) == Ok::<
                Seq<char>,
                DownloadErrorView,
            >(digest));
        }
    }
}

/// The digests that are tried when a download for a tag is repeated are
/// well-formed.
proof fn lemma_repeated_digests(
    reference: ManifestReferenceView,
    earlier: Answers,
    later: Answers,
    digest: Seq<char>,
)
    requires
        reference is Tag,
        outcome(reference, earlier) == Ok::<Seq<char>, DownloadErrorView>(digest),
        are_repeated(reference, earlier, later, digest),
        valid_digest(digest),
    ensures
        digests_to_try(reference, later) is Ok,
{
    reveal_with_fuel(first_invalid, 3);
    let remote_digest = if later.has_client {
        later.remote_digest
    } else {
        None
    };
    let first = tag_digests(remote_digest, earlier.local_digest->Ok_0);
    let second = tag_digests(remote_digest, later.local_digest->Ok_0);
    law_digests_to_try(reference, earlier);
    if second.len() == 2 {
        assert(second[0] == first[0]);
        assert(second.drop_first() =~= seq![second[1]]);
    } else if second.len() == 1 {
        assert(second[0] == digest || first.contains(second[0]));
    }
}

/// No manifest is looked for twice in one download.
pub proof fn law_no_manifest_is_looked_for_twice(
    alias: Seq<char>,
    image: RemoteImageView,
    answers: Answers,
    i: int,
    j: int,
)
    requires
        0 <= i < j < steps(first_step(alias, image), answers).len(),
        steps(first_step(alias, image), answers)[i] is FindManifest,
        steps(first_step(alias, image), answers)[j] is FindManifest,
    ensures
        steps(first_step(alias, image), answers)[i]->FindManifest_digest != steps(
            first_step(alias, image),
            answers,
        )[j]->FindManifest_digest,
{
    lemma_looked_for_once(first_step(alias, image), answers, i, j);
}

/// The step comes before any digest is tried.
spec fn is_early(step: DownloadStepView) -> bool {
    step is SetupClient || step is FindLocalDigest || step is FetchRemoteDigest
}

/// The digests to turn to after the present one.
spec fn later_digests(step: DownloadStepView) -> Seq<Seq<char>> {
    match step {
        DownloadStepView::FindManifest { rest, .. } => rest,
        DownloadStepView::DownloadManifest { rest, .. } => rest,
        _ => seq![],
    }
}

/// The digests that are still to be looked for.
spec fn pending(step: DownloadStepView) -> Seq<Seq<char>> {
    match step {
        DownloadStepView::FindManifest { digest, rest, .. } => seq![digest] + rest,
        _ => later_digests(step),
    }
}

proof fn lemma_pending(step: DownloadStepView, answers: Answers)
    ensures
        is_early(step) ==> pending(next_step(step, answers)).no_duplicates(),
        !is_early(step) ==> {
            &&& !is_early(next_step(step, answers))
            &&& pending(next_step(step, answers)) == later_digests(step) || pending(
                next_step(step, answers),
            ).len() == 0
        },
{
    let next = next_step(step, answers);
    if !is_early(step) && next is FindManifest {
        assert(pending(next) =~= later_digests(step));
    }
}

/// Only pending digests are looked for.
proof fn lemma_looked_for_is_pending(step: DownloadStepView, answers: Answers, i: int)
    requires
        !is_early(step),
        0 <= i < steps(step, answers).len(),
        steps(step, answers)[i] is FindManifest,
    ensures
        pending(step).contains(steps(step, answers)[i]->FindManifest_digest),
    decreases steps_ahead(step),
{
    if i == 0 {
        assert(pending(step)[0] == step->FindManifest_digest);
    } else {
        let next = next_step(step, answers);
        let digest = steps(next, answers)[i - 1]->FindManifest_digest;
        assert(steps(step, answers)[i] == steps(next, answers)[i - 1]);
        lemma_pending(step, answers);
        lemma_looked_for_is_pending(next, answers, i - 1);
        let k = choose|k: int| 0 <= k < later_digests(step).len() && later_digests(step)[k] == digest;
        let offset: int = if step is FindManifest {
            1
        } else {
            0
        };
        assert(pending(step)[k + offset] == digest);
    }
}

proof fn lemma_looked_for_once(step: DownloadStepView, answers: Answers, i: int, j: int)
    requires
        is_early(step) || pending(step).no_duplicates(),
        0 <= i < j < steps(step, answers).len(),
        steps(step, answers)[i] is FindManifest,
        steps(step, answers)[j] is FindManifest,
    ensures
        steps(step, answers)[i]->FindManifest_digest != steps(step, answers)[j]->FindManifest_digest,
    decreases steps_ahead(step),
{
    let next = next_step(step, answers);
    assert(steps(step, answers)[j] == steps(next, answers)[j - 1]);
    lemma_pending(step, answers);
    if i == 0 {
        let digest = steps(next, answers)[j - 1]->FindManifest_digest;
        lemma_looked_for_is_pending(next, answers, j - 1);
        let k = choose|k: int| 0 <= k < later_digests(step).len() && later_digests(step)[k] == digest;
        assert(pending(step)[k + 1] == digest);
        assert(pending(step)[0] == step->FindManifest_digest);
    } else {
        assert(steps(step, answers)[i] == steps(next, answers)[i - 1]);
        if !is_early(step) {
            assert(pending(next).no_duplicates()) by {
                if step is FindManifest {
                    assert(later_digests(step) =~= pending(step).drop_first());
                }
            }
        }
        lemma_looked_for_once(next, answers, i - 1, j - 1);
    }
}

/// A download that goes without a client asks nothing of the remote registry,
/// and changes nothing.
pub proof fn law_without_client_nothing_is_asked(
    alias: Seq<char>,
    image: RemoteImageView,
    answers: Answers,
    i: int,
)
    requires
        !answers.has_client,
        0 <= i < steps(first_step(alias, image), answers).len(),
    ensures
        !(steps(first_step(alias, image), answers)[i] is FetchRemoteDigest),
        !(steps(first_step(alias, image), answers)[i] is DownloadManifest),
        !(steps(first_step(alias, image), answers)[i] is SaveTag),
{
    lemma_without_client(first_step(alias, image), answers, i);
}

/// The step may occur where there is no client.
spec fn goes_without_client(step: DownloadStepView) -> bool {
    match step {
        DownloadStepView::FindLocalDigest { has_client, .. } => !has_client,
        DownloadStepView::FindManifest { has_client, .. } => !has_client,
        DownloadStepView::SetupClient { .. } => true,
        DownloadStepView::Done(_) => true,
        _ => false,
    }
}

proof fn lemma_without_client(step: DownloadStepView, answers: Answers, i: int)
    requires
        !answers.has_client,
        goes_without_client(step),
        0 <= i < steps(step, answers).len(),
    ensures
        goes_without_client(steps(step, answers)[i]),
    decreases steps_ahead(step),
{
    if !(step is Done) && i > 0 {
        let next = next_step(step, answers);
        assert(steps(step, answers)[i] == steps(next, answers)[i - 1]);
        lemma_without_client(next, answers, i - 1);
    }
}

} // verus!
