//! The rows that downloads write to the database.
//!
//! Nothing here depends on the order in which the blobs of a manifest are
//! downloaded, nor on how far each of them gets: what is proved of a download
//! holds of any sequence of the writes that its steps ask for.

use vstd::prelude::*;
use crate::config::proxied_name;
use crate::digest::valid_digest;
use crate::download::{first_step, DownloadStepView};
use crate::download_run::{law_downloaded_image_is_tagged, law_repeated_download_gives_the_same};
use crate::download_run::{law_download_ends_with_outcome, law_every_step_is_about_the_image};
use crate::download_run::{law_kept_image_is_given, law_own_tag_is_looked_up};
use crate::download_run::{law_tag_follows_download, lemma_saved_tag_is_given};
use crate::download_run::{lemma_step_before_end, outcome, steps, Answers};
use crate::error::DownloadErrorView;
use crate::image::{ManifestReferenceView, RemoteImageView};
use crate::manifest::{saved_size, BlobStepView, ManifestStepView};
use crate::manifest_run::{is_there, law_manifest_is_saved_last, ManifestRun};
use crate::manifest_run::{law_blob_is_stored_with_verification, lemma_downloaded_blob};
use crate::manifest_run::{law_blob_that_is_there_is_only_linked, manifest_steps};
use crate::manifest_run::law_manifest_download_keeps_to_its_repository;

verus! {

/// The rows of the database.
#[verifier::ext_equal]
pub struct Database {
    /// The digest behind a tag, by repository and tag.
    pub tags: Map<(Seq<char>, Seq<char>), Seq<char>>,
    /// The size of a blob, by digest.
    pub blobs: Map<Seq<char>, i64>,
    /// The bytes of a manifest, by digest.
    pub manifests: Map<Seq<char>, Seq<u8>>,
    /// Which repository holds which blob.
    pub blob_links: Set<(Seq<char>, Seq<char>)>,
    /// Which repository holds which manifest.
    pub manifest_links: Set<(Seq<char>, Seq<char>)>,
}

/// A row that is written.
pub enum Write {
    /// The tag is pointed at the digest.
    Tag { repo_name: Seq<char>, tag: Seq<char>, digest: Seq<char> },
    /// The blob is added, unless it is there.
    Blob { digest: Seq<char>, size: i64 },
    /// The manifest is added, unless it is there.
    Manifest { digest: Seq<char>, raw_manifest: Seq<u8> },
    /// The blob is linked to the repository, unless it is already.
    BlobLink { repo_name: Seq<char>, digest: Seq<char> },
    /// The manifest is linked to the repository, unless it is already.
    ManifestLink { repo_name: Seq<char>, digest: Seq<char> },
}

impl Database {
    /// The database after one write.
    pub open spec fn after(self, write: Write) -> Database {
        match write {
            Write::Tag { repo_name, tag, digest } => Database {
                tags: self.tags.insert((repo_name, tag), digest),
                ..self
            },
            Write::Blob { digest, size } => if self.blobs.contains_key(digest) {
                self
            } else {
                Database { blobs: self.blobs.insert(digest, size), ..self }
            },
            Write::Manifest { digest, raw_manifest } => if self.manifests.contains_key(digest) {
                self
            } else {
                Database { manifests: self.manifests.insert(digest, raw_manifest), ..self }
            },
            Write::BlobLink { repo_name, digest } => Database {
                blob_links: self.blob_links.insert((repo_name, digest)),
                ..self
            },
            Write::ManifestLink { repo_name, digest } => Database {
                manifest_links: self.manifest_links.insert((repo_name, digest)),
                ..self
            },
        }
    }

    /// The database after some writes, in their order.
    pub open spec fn after_all(self, writes: Seq<Write>) -> Database
        decreases writes.len(),
    {
        if writes.len() == 0 {
            self
        } else {
            self.after_all(writes.drop_last()).after(writes.last())
        }
    }

    /// Every row but those of tags is still there, and unchanged.
    pub open spec fn is_kept_by(self, later: Database) -> bool {
        &&& self.blobs.submap_of(later.blobs)
        &&& self.manifests.submap_of(later.manifests)
        &&& self.blob_links.subset_of(later.blob_links)
        &&& self.manifest_links.subset_of(later.manifest_links)
    }

    /// The repository holds the manifest and all of the blobs.
    pub open spec fn holds(
        self,
        repo_name: Seq<char>,
        manifest: Seq<char>,
        blobs: Seq<Seq<char>>,
    ) -> bool {
        &&& self.manifests.contains_key(manifest)
        &&& self.manifest_links.contains((repo_name, manifest))
        &&& forall|k: int|
            0 <= k < blobs.len() ==> self.blobs.contains_key(#[trigger] blobs[k])
                && self.blob_links.contains((repo_name, blobs[k]))
    }

    /// The answer to the question whether a blob is there, 1 standing for yes.
    pub open spec fn has_blob(self, digest: Seq<char>) -> i64 {
        if self.blobs.contains_key(digest) {
            1
        } else {
            0
        }
    }
}

/// Whether a step of the download of a blob asks for the write.
pub open spec fn blob_step_writes(step: BlobStepView, write: Write) -> bool {
    match step {
        BlobStepView::SaveBlob { blob, size } => write == (Write::Blob {
            digest: blob.digest,
            size,
        }),
        BlobStepView::LinkBlob { blob } => write == (Write::BlobLink {
            repo_name: blob.repo_name,
            digest: blob.digest,
        }),
        _ => false,
    }
}

/// Whether a step of the download of a manifest asks for the write.
pub open spec fn manifest_step_writes(step: ManifestStepView, write: Write) -> bool {
    match step {
        ManifestStepView::SaveManifest { repo_name, raw_manifest, digest } => {
            ||| write == (Write::Manifest { digest, raw_manifest })
            ||| write == (Write::ManifestLink { repo_name, digest })
        },
        _ => false,
    }
}

/// Whether a step of the download of an image asks for the write.
pub open spec fn download_step_writes(step: DownloadStepView, write: Write) -> bool {
    match step {
        DownloadStepView::SaveTag { job, tag, digest } => write == (Write::Tag {
            repo_name: job.repo_name,
            tag,
            digest,
        }),
        _ => false,
    }
}

/// Whether the download of the `k`-th blob asks for the write.
pub open spec fn blob_run_writes(run: ManifestRun, k: int, write: Write) -> bool {
    exists|j: int|
        0 <= j < run.blob_steps(k).len() && blob_step_writes(
            #[trigger] run.blob_steps(k)[j],
            write,
        )
}

/// Whether the download of a manifest asks for the write, be it for the manifest
/// itself or for a blob that it lists.
pub open spec fn run_writes(run: ManifestRun, write: Write) -> bool {
    ||| exists|i: int|
        0 <= i < run.steps().len() && manifest_step_writes(#[trigger] run.steps()[i], write)
    ||| exists|k: int| 0 <= k < run.blobs().len() && #[trigger] blob_run_writes(run, k, write)
}

/// What a single write of a manifest's download may be.
proof fn lemma_run_writes(run: ManifestRun, write: Write)
    requires
        run_writes(run, write),
    ensures
        !(write is Tag),
        write matches Write::BlobLink { repo_name, .. } ==> repo_name == run.repo_name,
        write matches Write::ManifestLink { repo_name, .. } ==> repo_name == run.repo_name,
{
    law_manifest_download_keeps_to_its_repository(run);
    if exists|k: int| 0 <= k < run.blobs().len() && #[trigger] blob_run_writes(run, k, write) {
        let k = choose|k: int|
            0 <= k < run.blobs().len() && #[trigger] blob_run_writes(run, k, write);
        let j = choose|j: int|
            0 <= j < run.blob_steps(k).len() && blob_step_writes(
                #[trigger] run.blob_steps(k)[j],
                write,
            );
        assert(run.listed(k).repo_name == run.repo_name);
    }
}

/// Writes take no row away but those of tags, and change none of the others.
pub proof fn law_rows_are_kept(db: Database, writes: Seq<Write>)
    ensures
        db.is_kept_by(db.after_all(writes)),
    decreases writes.len(),
{
    if writes.len() > 0 {
        let before = db.after_all(writes.drop_last());
        let later = db.after_all(writes);
        law_rows_are_kept(db, writes.drop_last());
        assert(later == before.after(writes.last()));
        assert forall|digest: Seq<char>| #[trigger] db.blobs.contains_key(digest) implies
            later.blobs.contains_key(digest) && later.blobs[digest] == db.blobs[digest] by {
            assert(before.blobs.contains_key(digest));
        }
        assert forall|digest: Seq<char>| #[trigger] db.manifests.contains_key(digest) implies
            later.manifests.contains_key(digest) && later.manifests[digest]
            == db.manifests[digest] by {
            assert(before.manifests.contains_key(digest));
        }
    }
}

/// Whatever the download of a manifest comes to, and however its writes fall
/// together: rows are only added, the links that are added are to the repository
/// that the download is for, and no tag changes.
pub proof fn law_manifest_download_only_adds(run: ManifestRun, db: Database, writes: Seq<Write>)
    requires
        forall|i: int| 0 <= i < writes.len() ==> run_writes(run, #[trigger] writes[i]),
    ensures
        db.is_kept_by(db.after_all(writes)),
        db.after_all(writes).tags == db.tags,
        forall|link: (Seq<char>, Seq<char>)| #[trigger]
            db.after_all(writes).blob_links.contains(link) ==> db.blob_links.contains(link)
                || link.0 == run.repo_name,
        forall|link: (Seq<char>, Seq<char>)| #[trigger]
            db.after_all(writes).manifest_links.contains(link) ==> db.manifest_links.contains(link)
                || link.0 == run.repo_name,
    decreases writes.len(),
{
    law_rows_are_kept(db, writes);
    if writes.len() > 0 {
        let before = writes.drop_last();
        assert forall|i: int| 0 <= i < before.len() implies run_writes(
            run,
            #[trigger] before[i],
        ) by {
            assert(before[i] == writes[i]);
        }
        law_manifest_download_only_adds(run, db, before);
        assert(run_writes(run, writes[writes.len() - 1]));
        lemma_run_writes(run, writes.last());
    }
}

/// What was written is there in the end.
proof fn lemma_write_shows(db: Database, writes: Seq<Write>, write: Write)
    requires
        writes.contains(write),
    ensures
        write matches Write::Blob { digest, .. } ==> db.after_all(writes).blobs.contains_key(
            digest,
        ),
        write matches Write::Manifest { digest, .. } ==> db.after_all(
            writes,
        ).manifests.contains_key(digest),
        write matches Write::BlobLink { repo_name, digest } ==> db.after_all(
            writes,
        ).blob_links.contains((repo_name, digest)),
        write matches Write::ManifestLink { repo_name, digest } ==> db.after_all(
            writes,
        ).manifest_links.contains((repo_name, digest)),
    decreases writes.len(),
{
    let i = choose|i: int| 0 <= i < writes.len() && writes[i] == write;
    if i < writes.len() - 1 {
        assert(writes.drop_last()[i] == write);
        lemma_write_shows(db, writes.drop_last(), write);
        assert(writes.drop_last().contains(write));
    }
}

/// What was there at some time is there in the end.
proof fn lemma_blob_stays(db: Database, writes: Seq<Write>, n: int, digest: Seq<char>)
    requires
        0 <= n <= writes.len(),
        db.after_all(writes.take(n)).blobs.contains_key(digest),
    ensures
        db.after_all(writes).blobs.contains_key(digest),
    decreases writes.len() - n,
{
    if n == writes.len() {
        assert(writes.take(n) =~= writes);
    } else {
        assert(writes.take(n + 1).drop_last() =~= writes.take(n));
        lemma_blob_stays(db, writes, n + 1, digest);
    }
}

/// The database was asked about a blob at some time in the course of the writes,
/// and said truly that the blob was there.
pub open spec fn was_there(db: Database, writes: Seq<Write>, digest: Seq<char>) -> bool {
    exists|n: int|
        0 <= n <= writes.len() && #[trigger] db.after_all(writes.take(n)).blobs.contains_key(digest)
}

/// The download succeeded, and all its writes were made, in any order and among
/// any others. Of a blob, the database said truly that it was there.
pub open spec fn succeeded(run: ManifestRun, db: Database, writes: Seq<Write>) -> bool {
    &&& run.joined()
    &&& run.outcome() is Ok
    &&& forall|write: Write| run_writes(run, write) ==> #[trigger] writes.contains(write)
    &&& forall|k: int|
        0 <= k < run.blobs().len() && is_there(#[trigger] (run.blob)(k)) ==> was_there(
            db,
            writes,
            run.blobs()[k],
        )
}

/// After a download that succeeded, the repository holds the manifest, under the
/// digest that it was pulled with, and every blob that it lists.
pub proof fn law_repository_holds_what_was_downloaded(
    run: ManifestRun,
    db: Database,
    writes: Seq<Write>,
)
    requires
        succeeded(run, db, writes),
    ensures
        run.answers.pulled matches Ok((_, digest)) && db.after_all(writes).holds(
            run.repo_name,
            digest,
            run.blobs(),
        ),
{
    let (raw_manifest, digest) = run.answers.pulled->Ok_0;
    let later = db.after_all(writes);
    let repo_name = run.repo_name;
    assert(run.steps()[3] == (ManifestStepView::SaveManifest { repo_name, raw_manifest, digest })
        && run.steps().len() == 5) by {
        reveal_with_fuel(manifest_steps, 5);
    }
    let manifest = Write::Manifest { digest, raw_manifest };
    let link = Write::ManifestLink { repo_name, digest };
    assert(manifest_step_writes(run.steps()[3], manifest));
    assert(manifest_step_writes(run.steps()[3], link));
    assert(run_writes(run, manifest) && run_writes(run, link));
    lemma_write_shows(db, writes, manifest);
    lemma_write_shows(db, writes, link);
    assert forall|k: int| 0 <= k < run.blobs().len() implies later.blobs.contains_key(
        #[trigger] run.blobs()[k],
    ) && later.blob_links.contains((repo_name, run.blobs()[k])) by {
        assert(run.blob_outcome(k) is Ok);
        lemma_blob_shows(run, db, writes, k);
    }
}

/// A blob whose download succeeded is there in the end, and linked.
proof fn lemma_blob_shows(run: ManifestRun, db: Database, writes: Seq<Write>, k: int)
    requires
        succeeded(run, db, writes),
        0 <= k < run.blobs().len(),
        run.blob_outcome(k) is Ok,
    ensures
        db.after_all(writes).blobs.contains_key(run.blobs()[k]),
        db.after_all(writes).blob_links.contains((run.repo_name, run.blobs()[k])),
{
    let blob = run.listed(k);
    lemma_downloaded_blob(run, k);
    let link = BlobStepView::LinkBlob { blob };
    let j = choose|j: int| 0 <= j < run.blob_steps(k).len() && run.blob_steps(k)[j] == link;
    let linked = Write::BlobLink { repo_name: blob.repo_name, digest: blob.digest };
    assert(blob_step_writes(run.blob_steps(k)[j], linked));
    assert(blob_run_writes(run, k, linked));
    assert(run_writes(run, linked));
    lemma_write_shows(db, writes, linked);
    if is_there((run.blob)(k)) {
        let n = choose|n: int|
            0 <= n <= writes.len() && #[trigger] db.after_all(writes.take(n)).blobs.contains_key(
                run.blobs()[k],
            );
        lemma_blob_stays(db, writes, n, run.blobs()[k]);
    } else {
        let size = saved_size((run.blob)(k).stored->Ok_0);
        let save = BlobStepView::SaveBlob { blob, size };
        let j = choose|j: int| 0 <= j < run.blob_steps(k).len() && run.blob_steps(k)[j] == save;
        let saved = Write::Blob { digest: blob.digest, size };
        assert(blob_step_writes(run.blob_steps(k)[j], saved));
        assert(blob_run_writes(run, k, saved));
        assert(run_writes(run, saved));
        lemma_write_shows(db, writes, saved);
    }
}

/// A row of a blob that was not there before was written.
proof fn lemma_new_blob(db: Database, writes: Seq<Write>, digest: Seq<char>) -> (i: int)
    requires
        !db.blobs.contains_key(digest),
        db.after_all(writes).blobs.contains_key(digest),
    ensures
        0 <= i < writes.len(),
        writes[i] == (Write::Blob { digest, size: db.after_all(writes).blobs[digest] }),
    decreases writes.len(),
{
    if db.after_all(writes.drop_last()).blobs.contains_key(digest) {
        lemma_new_blob(db, writes.drop_last(), digest)
    } else {
        writes.len() - 1
    }
}

/// A blob that was not there before a download that succeeded is there after it,
/// with the size of what was stored for it, with verification.
pub proof fn law_new_blob_was_stored_and_verified(
    run: ManifestRun,
    db: Database,
    writes: Seq<Write>,
    digest: Seq<char>,
)
    requires
        succeeded(run, db, writes),
        forall|i: int| 0 <= i < writes.len() ==> run_writes(run, #[trigger] writes[i]),
        run.blobs().contains(digest),
        !db.blobs.contains_key(digest),
    ensures
        db.after_all(writes).blobs.contains_key(digest),
        exists|k: int|
            0 <= k < run.blobs().len() && #[trigger] run.blobs()[k] == digest && run.blob_steps(
                k,
            ).contains(BlobStepView::StoreBlob { blob: run.listed(k), verify: true }) && (
            (run.blob)(k).stored matches Ok(len) && db.after_all(writes).blobs[digest] == (
            if len <= i64::MAX {
                len as int
            } else {
                len - 0x1_0000_0000_0000_0000
            })),
{
    let later = db.after_all(writes);
    let at = choose|k: int| 0 <= k < run.blobs().len() && run.blobs()[k] == digest;
    assert(run.blob_outcome(at) is Ok);
    lemma_blob_shows(run, db, writes, at);
    let i = lemma_new_blob(db, writes, digest);
    let write = writes[i];
    assert(run_writes(run, write));
    let k = choose|k: int| 0 <= k < run.blobs().len() && #[trigger] blob_run_writes(run, k, write);
    let j = choose|j: int|
        0 <= j < run.blob_steps(k).len() && blob_step_writes(
            #[trigger] run.blob_steps(k)[j],
            write,
        );
    law_manifest_download_keeps_to_its_repository(run);
    law_blob_is_stored_with_verification(run, k, j);
    assert(run.blob_steps(k)[j - 1] is StoreBlob);
    assert(run.blobs()[k] == digest);
}

/// A row of a manifest that was not there before was written.
proof fn lemma_new_manifest(db: Database, writes: Seq<Write>, digest: Seq<char>) -> (i: int)
    requires
        !db.manifests.contains_key(digest),
        db.after_all(writes).manifests.contains_key(digest),
    ensures
        0 <= i < writes.len(),
        writes[i] == (Write::Manifest {
            digest,
            raw_manifest: db.after_all(writes).manifests[digest],
        }),
    decreases writes.len(),
{
    if db.after_all(writes.drop_last()).manifests.contains_key(digest) {
        lemma_new_manifest(db, writes.drop_last(), digest)
    } else {
        writes.len() - 1
    }
}

/// A manifest that was not there before a download that succeeded is there after
/// it, byte by byte as it was pulled.
pub proof fn law_new_manifest_is_what_was_pulled(
    run: ManifestRun,
    db: Database,
    writes: Seq<Write>,
)
    requires
        succeeded(run, db, writes),
        forall|i: int| 0 <= i < writes.len() ==> run_writes(run, #[trigger] writes[i]),
        run.answers.pulled matches Ok((_, digest)) && !db.manifests.contains_key(digest),
    ensures
        run.answers.pulled matches Ok((raw_manifest, digest)) && db.after_all(
            writes,
        ).manifests.contains_key(digest) && db.after_all(writes).manifests[digest] == raw_manifest,
{
    let (raw_manifest, digest) = run.answers.pulled->Ok_0;
    law_repository_holds_what_was_downloaded(run, db, writes);
    let n = lemma_new_manifest(db, writes, digest);
    let write = writes[n];
    assert(run_writes(run, write));
    assert forall|k: int| !blob_run_writes(run, k, write) by {}
    let i = choose|i: int|
        0 <= i < run.steps().len() && manifest_step_writes(#[trigger] run.steps()[i], write);
    law_manifest_is_saved_last(run.reference, run.repo_name, run.answers, i);
}

/// A download of what the repository holds already, in which no question to the
/// database fails, succeeds. It pulls, stores and saves no blob, and leaves every
/// row as it was.
pub proof fn law_held_manifest_is_not_downloaded_again(
    run: ManifestRun,
    db: Database,
    writes: Seq<Write>,
)
    requires
        run.joined(),
        run.answers.pulled matches Ok((_, digest)) && db.holds(
            run.repo_name,
            digest,
            run.blobs(),
        ),
        run.answers.blobs is Ok,
        run.answers.saved is Ok,
        forall|k: int|
            0 <= k < run.blobs().len() ==> (#[trigger] (run.blob)(k)).already_has_blob == Ok::<
                i64,
                sqlx::Error,
            >(db.has_blob(run.blobs()[k])) && (run.blob)(k).linked is Ok,
        forall|i: int| 0 <= i < writes.len() ==> run_writes(run, #[trigger] writes[i]),
    ensures
        run.outcome() is Ok,
        forall|k: int, j: int|
            0 <= k < run.blobs().len() && 0 <= j < run.blob_steps(k).len() ==> !(
            #[trigger] run.blob_steps(k)[j] is PullBlob) && !(run.blob_steps(k)[j] is StoreBlob)
                && !(run.blob_steps(k)[j] is SaveBlob),
        db.after_all(writes) == db,
    decreases writes.len(),
{
    assert forall|k: int| 0 <= k < run.blobs().len() implies #[trigger] run.blob_outcome(
        k,
    ) is Ok by {
        let answers = (run.blob)(k);
        assert(db.blobs.contains_key(run.blobs()[k]));
        assert(is_there(answers));
    }
    assert forall|k: int, j: int|
        0 <= k < run.blobs().len() && 0 <= j < run.blob_steps(k).len() implies !(
    #[trigger] run.blob_steps(k)[j] is PullBlob) && !(run.blob_steps(k)[j] is StoreBlob) && !(
    run.blob_steps(k)[j] is SaveBlob) by {
        assert(db.blobs.contains_key(run.blobs()[k]));
        assert(is_there((run.blob)(k)));
        law_blob_that_is_there_is_only_linked(run.listed(k), (run.blob)(k));
    }
    if writes.len() > 0 {
        let before = writes.drop_last();
        assert forall|i: int| 0 <= i < before.len() implies run_writes(
            run,
            #[trigger] before[i],
        ) by {
            assert(before[i] == writes[i]);
        }
        law_held_manifest_is_not_downloaded_again(run, db, before);
        let write = writes.last();
        assert(run_writes(run, writes[writes.len() - 1]));
        lemma_held_write(run, db, write);
    }
}

/// A write that asks for what is there changes nothing.
proof fn lemma_held_write(run: ManifestRun, db: Database, write: Write)
    requires
        run_writes(run, write),
        run.answers.pulled matches Ok((_, digest)) && db.holds(
            run.repo_name,
            digest,
            run.blobs(),
        ),
    ensures
        db.after(write) == db,
{
    if exists|k: int| 0 <= k < run.blobs().len() && #[trigger] blob_run_writes(run, k, write) {
        let k = choose|k: int|
            0 <= k < run.blobs().len() && #[trigger] blob_run_writes(run, k, write);
        let j = choose|j: int|
            0 <= j < run.blob_steps(k).len() && blob_step_writes(
                #[trigger] run.blob_steps(k)[j],
                write,
            );
        law_manifest_download_keeps_to_its_repository(run);
        assert(db.blobs.contains_key(run.blobs()[k]));
    } else {
        let i = choose|i: int|
            0 <= i < run.steps().len() && manifest_step_writes(#[trigger] run.steps()[i], write);
        law_manifest_is_saved_last(run.reference, run.repo_name, run.answers, i);
    }
    assert(db.after(write) =~= db);
}

/// A manifest that was downloaded once is not downloaded again: when the remote
/// registry gives the same manifest, and no question to the database fails, the
/// second download succeeds, pulls, stores and saves no blob, and leaves every row
/// as it was.
pub proof fn law_second_download_changes_nothing(
    first: ManifestRun,
    second: ManifestRun,
    db: Database,
    first_writes: Seq<Write>,
    second_writes: Seq<Write>,
)
    requires
        succeeded(first, db, first_writes),
        second.joined(),
        second.repo_name == first.repo_name,
        second.answers.pulled == first.answers.pulled,
        second.answers.blobs == first.answers.blobs,
        second.answers.saved is Ok,
        forall|k: int|
            0 <= k < second.blobs().len() ==> (#[trigger] (second.blob)(k)).already_has_blob
                == Ok::<i64, sqlx::Error>(
                db.after_all(first_writes).has_blob(second.blobs()[k]),
            ) && (second.blob)(k).linked is Ok,
        forall|i: int|
            0 <= i < second_writes.len() ==> run_writes(second, #[trigger] second_writes[i]),
    ensures
        second.outcome() is Ok,
        forall|k: int, j: int|
            0 <= k < second.blobs().len() && 0 <= j < second.blob_steps(k).len() ==> !(
            #[trigger] second.blob_steps(k)[j] is PullBlob) && !(second.blob_steps(
                k,
            )[j] is StoreBlob) && !(second.blob_steps(k)[j] is SaveBlob),
        db.after_all(first_writes).after_all(second_writes) == db.after_all(first_writes),
{
    law_repository_holds_what_was_downloaded(first, db, first_writes);
    law_held_manifest_is_not_downloaded_again(second, db.after_all(first_writes), second_writes);
}

/// Beside the downloads of manifests, the download of an image writes nothing but
/// its own tag, in the repository that it is kept in.
pub proof fn law_image_download_only_sets_its_tag(
    alias: Seq<char>,
    image: RemoteImageView,
    answers: Answers,
    db: Database,
    writes: Seq<Write>,
)
    requires
        forall|n: int|
            0 <= n < writes.len() ==> exists|i: int|
                0 <= i < steps(first_step(alias, image), answers).len() && download_step_writes(
                    #[trigger] steps(first_step(alias, image), answers)[i],
                    #[trigger] writes[n],
                ),
    ensures
        db.after_all(writes) == (Database { tags: db.after_all(writes).tags, ..db }),
        forall|repo_name: Seq<char>, tag: Seq<char>|
            repo_name != proxied_name(alias, image.repo) || image.reference
                != ManifestReferenceView::Tag(tag) ==> db.tags.contains_key((repo_name, tag))
                == #[trigger] db.after_all(writes).tags.contains_key((repo_name, tag))
                && db.tags[(repo_name, tag)] == db.after_all(writes).tags[(repo_name, tag)],
    decreases writes.len(),
{
    if writes.len() > 0 {
        let before = writes.drop_last();
        let all = steps(first_step(alias, image), answers);
        assert forall|n: int| 0 <= n < before.len() implies exists|i: int|
            0 <= i < all.len() && download_step_writes(
                #[trigger] all[i],
                #[trigger] before[n],
            ) by {
            assert(before[n] == writes[n]);
        }
        law_image_download_only_sets_its_tag(alias, image, answers, db, before);
        let last = writes[writes.len() - 1];
        let i = choose|i: int| 0 <= i < all.len() && download_step_writes(#[trigger] all[i], last);
        law_tag_follows_download(alias, image, answers, i);
    }
}

/// A whole download of an image, with the downloads of manifests in its course.
pub struct ImageRun {
    pub alias: Seq<char>,
    pub image: RemoteImageView,
    pub answers: Answers,
    /// The download of the manifest with a digest.
    pub manifest: spec_fn(Seq<char>) -> ManifestRun,
}

impl ImageRun {
    /// The repository that the image is kept in.
    pub open spec fn repo_name(self) -> Seq<char> {
        proxied_name(self.alias, self.image.repo)
    }

    /// The steps of the download.
    pub open spec fn steps(self) -> Seq<DownloadStepView> {
        steps(first_step(self.alias, self.image), self.answers)
    }

    /// What the download comes to.
    pub open spec fn outcome(self) -> Result<Seq<char>, DownloadErrorView> {
        outcome(self.image.reference, self.answers)
    }

    /// Whether one of the steps is to download the manifest `digest`.
    pub open spec fn attempts(self, digest: Seq<char>) -> bool {
        exists|i: int|
            0 <= i < self.steps().len() && (#[trigger] self.steps()[i] matches
                DownloadStepView::DownloadManifest { digest: attempted, .. } && attempted == digest)
    }

    /// Whether one of the steps is to look for the manifest `digest`.
    pub open spec fn looks_for(self, digest: Seq<char>) -> bool {
        exists|i: int|
            0 <= i < self.steps().len() && (#[trigger] self.steps()[i] matches
                DownloadStepView::FindManifest { digest: wanted, .. } && wanted == digest)
    }

    /// What is answered of each attempt is what became of the manifest's own
    /// download. That download is for the image's repository, it asks for the
    /// manifest by its digest, and the remote registry gives what was asked for.
    pub open spec fn tied(self) -> bool {
        forall|digest: Seq<char>| #[trigger]
            self.attempts(digest) ==> {
                let run = (self.manifest)(digest);
                &&& run.repo_name == self.repo_name()
                &&& run.reference == self.image.place().with_digest(digest)
                &&& (self.answers.downloads)(digest) == run.outcome() is Ok
                &&& run.answers.pulled matches Ok((_, pulled)) ==> pulled == digest
            }
    }

    /// Whether the download asks for the write itself.
    pub open spec fn step_writes(self, write: Write) -> bool {
        exists|i: int|
            0 <= i < self.steps().len() && download_step_writes(
                #[trigger] self.steps()[i],
                write,
            )
    }

    /// Whether the download asks for the write, be it itself or in an attempt to
    /// download a manifest.
    pub open spec fn writes(self, write: Write) -> bool {
        ||| self.step_writes(write)
        ||| exists|digest: Seq<char>| #[trigger]
            self.attempts(digest) && run_writes((self.manifest)(digest), write)
    }
}

/// The database was asked about a manifest at some time in the course of the
/// writes, and said truly that the repository held it.
pub open spec fn was_linked(
    db: Database,
    writes: Seq<Write>,
    repo_name: Seq<char>,
    digest: Seq<char>,
) -> bool {
    exists|n: int|
        0 <= n <= writes.len() && #[trigger] db.after_all(writes.take(n)).manifest_links.contains(
            (repo_name, digest),
        )
}

/// The download of an image succeeded, and all writes were made that it asked for
/// itself and in the attempt that succeeded, in any order and among any others.
/// Of a manifest, the database said truly that the repository held it.
pub open spec fn image_succeeded(run: ImageRun, db: Database, writes: Seq<Write>) -> bool {
    &&& run.tied()
    &&& run.outcome() is Ok
    &&& forall|write: Write| run.step_writes(write) ==> #[trigger] writes.contains(write)
    &&& forall|digest: Seq<char>| #[trigger]
        run.attempts(digest) && (run.answers.downloads)(digest) ==> succeeded(
            (run.manifest)(digest),
            db,
            writes,
        )
    &&& forall|digest: Seq<char>| #[trigger]
        run.looks_for(digest) && (run.answers.has_manifest)(digest) == Ok::<i64, sqlx::Error>(1)
            ==> was_linked(
            db,
            writes,
            run.repo_name(),
            digest,
        )
}

/// What was linked at some time is linked in the end.
proof fn lemma_link_stays(
    db: Database,
    writes: Seq<Write>,
    n: int,
    link: (Seq<char>, Seq<char>),
)
    requires
        0 <= n <= writes.len(),
        db.after_all(writes.take(n)).manifest_links.contains(link),
    ensures
        db.after_all(writes).manifest_links.contains(link),
    decreases writes.len() - n,
{
    if n == writes.len() {
        assert(writes.take(n) =~= writes);
    } else {
        assert(writes.take(n + 1).drop_last() =~= writes.take(n));
        lemma_link_stays(db, writes, n + 1, link);
    }
}

/// After the download of an image that gave a digest, the repository holds the
/// manifest with that digest. Unless it held it before, the manifest is there with
/// every blob that it lists.
pub proof fn law_given_image_is_held(
    run: ImageRun,
    db: Database,
    writes: Seq<Write>,
    digest: Seq<char>,
)
    requires
        image_succeeded(run, db, writes),
        run.outcome() == Ok::<Seq<char>, DownloadErrorView>(digest),
    ensures
        db.after_all(writes).manifest_links.contains((run.repo_name(), digest)),
        (run.answers.has_manifest)(digest) != Ok::<i64, sqlx::Error>(1) ==> db.after_all(
            writes,
        ).holds(run.repo_name(), digest, (run.manifest)(digest).blobs()),
{
    let i = lemma_step_before_end(run.alias, run.image, run.answers, digest);
    if run.steps()[i] is FindManifest {
        assert(run.looks_for(digest));
        assert(was_linked(db, writes, run.repo_name(), digest));
        let n = choose|n: int|
            0 <= n <= writes.len() && #[trigger] db.after_all(
                writes.take(n),
            ).manifest_links.contains((run.repo_name(), digest));
        lemma_link_stays(db, writes, n, (run.repo_name(), digest));
    } else {
        assert(run.attempts(digest));
        law_repository_holds_what_was_downloaded((run.manifest)(digest), db, writes);
    }
}

/// The database is asked for the image's own tag, so its answer is what it has for
/// that tag in the repository `f/<alias>/<repo>`. Without a remote registry to ask,
/// that digest is given if the repository holds it.
pub proof fn law_offline_download_gives_the_tagged_image(
    alias: Seq<char>,
    image: RemoteImageView,
    answers: Answers,
    db: Database,
    tag: Seq<char>,
    digest: Seq<char>,
)
    requires
        image.reference == ManifestReferenceView::Tag(tag),
        forall|i: int|
            0 <= i < steps(first_step(alias, image), answers).len() ==> (#[trigger] steps(
                first_step(alias, image),
                answers,
            )[i] matches DownloadStepView::FindLocalDigest { job, tag: asked, .. }
                ==> answers.local_digest == Ok::<Option<Seq<char>>, sqlx::Error>(
                tagged(db, job.repo_name, asked),
            )),
        tagged(db, "f/"@ + alias + "/"@ + image.repo, tag) == Some(digest),
        valid_digest(digest),
        (answers.has_manifest)(digest) == Ok::<i64, sqlx::Error>(1),
        !answers.has_client,
    ensures
        answers.local_digest == Ok::<Option<Seq<char>>, sqlx::Error>(Some(digest)),
        steps(first_step(alias, image), answers).last() == DownloadStepView::Done(Ok(digest)),
{
    let all = steps(first_step(alias, image), answers);
    law_own_tag_is_looked_up(alias, image, answers, 0);
    law_own_tag_is_looked_up(alias, image, answers, 1);
    law_every_step_is_about_the_image(alias, image, answers, 1);
    assert(all[1] is FindLocalDigest);
    law_kept_image_is_given(tag, answers, digest);
    law_download_ends_with_outcome(alias, image, answers);
}

/// Whether the write is to point the tag at something.
spec fn sets_tag(write: Write, repo_name: Seq<char>, tag: Seq<char>) -> bool {
    write matches Write::Tag { repo_name: r, tag: t, .. } && r == repo_name && t == tag
}

/// A tag points at what all writes that set it agree on.
proof fn lemma_tag_set(
    db: Database,
    writes: Seq<Write>,
    repo_name: Seq<char>,
    tag: Seq<char>,
    digest: Seq<char>,
)
    requires
        forall|i: int|
            0 <= i < writes.len() && sets_tag(#[trigger] writes[i], repo_name, tag)
                ==> writes[i]->Tag_digest == digest,
    ensures
        ({
            let later = db.after_all(writes).tags;
            let key = (repo_name, tag);
            if exists|i: int|
                0 <= i < writes.len() && sets_tag(#[trigger] writes[i], repo_name, tag) {
                later.contains_key(key) && later[key] == digest
            } else {
                later.contains_key(key) == db.tags.contains_key(key) && later[key] == db.tags[key]
            }
        }),
    decreases writes.len(),
{
    if writes.len() > 0 {
        let before = writes.drop_last();
        let n = writes.len() - 1;
        assert forall|i: int|
            0 <= i < before.len() && sets_tag(
                #[trigger] before[i],
                repo_name,
                tag,
            ) implies before[i]->Tag_digest == digest by {
            assert(sets_tag(writes[i], repo_name, tag));
        }
        lemma_tag_set(db, before, repo_name, tag, digest);
        if exists|i: int| 0 <= i < before.len() && sets_tag(#[trigger] before[i], repo_name, tag) {
            let i = choose|i: int|
                0 <= i < before.len() && sets_tag(#[trigger] before[i], repo_name, tag);
            assert(sets_tag(writes[i], repo_name, tag));
        } else if exists|i: int|
            0 <= i < writes.len() && sets_tag(#[trigger] writes[i], repo_name, tag) {
            let i = choose|i: int|
                0 <= i < writes.len() && sets_tag(#[trigger] writes[i], repo_name, tag);
            if i < n {
                assert(sets_tag(before[i], repo_name, tag));
            }
            assert(sets_tag(writes[n], repo_name, tag));
        } else {
            assert(!sets_tag(writes[n], repo_name, tag));
        }
    }
}

/// A write to a tag in the course of an image's download points the image's own
/// tag at what the download gives, which the repository did not hold before.
proof fn lemma_tag_write(run: ImageRun, digest: Seq<char>, write: Write)
    requires
        run.writes(write),
        write is Tag,
        run.outcome() == Ok::<Seq<char>, DownloadErrorView>(digest),
    ensures
        run.step_writes(write),
        write->Tag_digest == digest,
        (run.answers.has_manifest)(digest) != Ok::<i64, sqlx::Error>(1),
{
    if !run.step_writes(write) {
        let other = choose|other: Seq<char>| #[trigger]
            run.attempts(other) && run_writes((run.manifest)(other), write);
        lemma_run_writes((run.manifest)(other), write);
    }
    let i = choose|i: int|
        0 <= i < run.steps().len() && download_step_writes(#[trigger] run.steps()[i], write);
    lemma_saved_tag_is_given(run.alias, run.image, run.answers, i);
}

/// What the database has for a tag.
pub open spec fn tagged(
    db: Database,
    repo_name: Seq<char>,
    tag: Seq<char>,
) -> Option<Seq<char>> {
    if db.tags.contains_key((repo_name, tag)) {
        Some(db.tags[(repo_name, tag)])
    } else {
        None
    }
}

/// After the download of an image for a tag, the tag points at the digest that was
/// given, if it was downloaded. If the repository held it before, the tag is as it
/// was.
pub proof fn law_tag_points_at_downloaded_image(
    run: ImageRun,
    db: Database,
    writes: Seq<Write>,
    tag: Seq<char>,
    digest: Seq<char>,
)
    requires
        image_succeeded(run, db, writes),
        forall|i: int| 0 <= i < writes.len() ==> run.writes(#[trigger] writes[i]),
        run.image.reference == ManifestReferenceView::Tag(tag),
        run.outcome() == Ok::<Seq<char>, DownloadErrorView>(digest),
    ensures
        tagged(db.after_all(writes), run.repo_name(), tag) == if (run.answers.has_manifest)(digest)
            == Ok::<i64, sqlx::Error>(1) {
            tagged(db, run.repo_name(), tag)
        } else {
            Some(digest)
        },
{
    let repo_name = run.repo_name();
    assert forall|i: int|
        0 <= i < writes.len() && sets_tag(#[trigger] writes[i], repo_name, tag) implies
        writes[i]->Tag_digest == digest && (run.answers.has_manifest)(digest) != Ok::<
        i64,
        sqlx::Error,
    >(1) by {
        assert(run.writes(writes[i]));
        lemma_tag_write(run, digest, writes[i]);
    }
    lemma_tag_set(db, writes, repo_name, tag, digest);
    if (run.answers.has_manifest)(digest) != Ok::<i64, sqlx::Error>(1) {
        law_downloaded_image_is_tagged(run.alias, run.image, run.answers, digest);
        let all = run.steps();
        let write = Write::Tag { repo_name, tag, digest };
        assert(download_step_writes(all[all.len() - 2], write));
        assert(run.step_writes(write));
        assert(writes.contains(write));
        let i = choose|i: int| 0 <= i < writes.len() && writes[i] == write;
        assert(sets_tag(writes[i], repo_name, tag));
    }
}

/// An image that was downloaded once for a tag is not downloaded again: when the
/// remote registry and the attempts answer as before, and the database answers
/// about the tag and the manifest from the rows that the first download left, the
/// second download gives the same digest, does not download it, and saves no tag.
pub proof fn law_second_image_download_gives_the_same(
    first: ImageRun,
    later: Answers,
    db: Database,
    writes: Seq<Write>,
    tag: Seq<char>,
    digest: Seq<char>,
)
    requires
        image_succeeded(first, db, writes),
        forall|i: int| 0 <= i < writes.len() ==> first.writes(#[trigger] writes[i]),
        first.image.reference == ManifestReferenceView::Tag(tag),
        first.outcome() == Ok::<Seq<char>, DownloadErrorView>(digest),
        first.answers.local_digest == Ok::<Option<Seq<char>>, sqlx::Error>(
            tagged(db, first.repo_name(), tag),
        ),
        later.local_digest == Ok::<Option<Seq<char>>, sqlx::Error>(
            tagged(db.after_all(writes), first.repo_name(), tag),
        ),
        db.after_all(writes).manifest_links.contains((first.repo_name(), digest)) ==> (
        later.has_manifest)(digest) == Ok::<i64, sqlx::Error>(1),
        later.has_client == first.answers.has_client,
        later.remote_digest == first.answers.remote_digest,
        forall|other: Seq<char>|
            other != digest ==> #[trigger] (later.has_manifest)(other) == (
            first.answers.has_manifest)(other),
        forall|other: Seq<char>| #[trigger]
            (later.downloads)(other) == (first.answers.downloads)(other),
    ensures
        outcome(first.image.reference, later) == Ok::<Seq<char>, DownloadErrorView>(digest),
        forall|i: int|
            0 <= i < steps(first_step(first.alias, first.image), later).len() ==> {
                &&& !(#[trigger] steps(first_step(first.alias, first.image), later)[i] is SaveTag)
                &&& steps(first_step(first.alias, first.image), later)[i] matches
                    DownloadStepView::DownloadManifest { digest: other, .. } ==> other != digest
            },
{
    law_given_image_is_held(first, db, writes, digest);
    law_tag_points_at_downloaded_image(first, db, writes, tag, digest);
    law_repeated_download_gives_the_same(first.alias, first.image, first.answers, later, digest);
}

} // verus!
