//! Images of a remote registry, and how they are referred to.

use vstd::prelude::*;
use vstd::string::StrSliceExecFns;
use vstd::string::StringExecFns;
use crate::digest::Digest;
use crate::text::{chars_of, contains_text, equal, find_char, find_chars, find_text};
use crate::text::{lemma_find, lemma_find_text};

verus! {

/// The manifest of an image that is meant: the one behind a tag, or the one
/// with a digest.
#[derive(Debug)]
pub enum ManifestReference {
    Tag(String),
    Digest(Digest),
}

/// What a [`ManifestReference`] says.
pub enum ManifestReferenceView {
    Tag(Seq<char>),
    Digest(Seq<char>),
}

impl View for ManifestReference {
    type V = ManifestReferenceView;

    open spec fn view(&self) -> ManifestReferenceView {
        match self {
            ManifestReference::Tag(tag) => ManifestReferenceView::Tag(tag@),
            ManifestReference::Digest(digest) => ManifestReferenceView::Digest(digest@),
        }
    }
}

impl Clone for ManifestReference {
    fn clone(&self) -> (copy: Self)
        ensures
            copy@ == self@,
            match self {
                ManifestReference::Tag(tag) => copy matches ManifestReference::Tag(other)
                    && other@ == tag@,
                ManifestReference::Digest(digest) => copy matches ManifestReference::Digest(other)
                    && other@ == digest@,
            },
    {
        match self {
            ManifestReference::Tag(tag) => ManifestReference::Tag(tag.clone()),
            ManifestReference::Digest(digest) => ManifestReference::Digest(digest.clone()),
        }
    }
}

/// A place in a registry: a repository, and a tag or a digest in it.
#[derive(Debug)]
pub struct Reference {
    pub registry: String,
    pub repository: String,
    pub tag: Option<String>,
    pub digest: Option<String>,
}

/// What a [`Reference`] says.
pub struct ReferenceView {
    pub registry: Seq<char>,
    pub repository: Seq<char>,
    pub tag: Option<Seq<char>>,
    pub digest: Option<Seq<char>>,
}

/// What an optional text says.
pub open spec fn optional_text(text: Option<String>) -> Option<Seq<char>> {
    match text {
        Some(text) => Some(text@),
        None => None,
    }
}

impl View for Reference {
    type V = ReferenceView;

    open spec fn view(&self) -> ReferenceView {
        ReferenceView {
            registry: self.registry@,
            repository: self.repository@,
            tag: optional_text(self.tag),
            digest: optional_text(self.digest),
        }
    }
}

impl Clone for Reference {
    fn clone(&self) -> (copy: Self)
        ensures
            copy@ == self@,
            copy.registry@ == self.registry@,
            copy.repository@ == self.repository@,
            match self.tag {
                Some(tag) => copy.tag matches Some(other) && other@ == tag@,
                None => copy.tag is None,
            },
            match self.digest {
                Some(digest) => copy.digest matches Some(other) && other@ == digest@,
                None => copy.digest is None,
            },
    {
        Reference {
            registry: self.registry.clone(),
            repository: self.repository.clone(),
            tag: self.tag.clone(),
            digest: self.digest.clone(),
        }
    }
}

impl ReferenceView {
    /// The same image by its digest. The tag is dropped.
    pub open spec fn with_digest(self, digest: Seq<char>) -> ReferenceView {
        ReferenceView { tag: None, digest: Some(digest), ..self }
    }
}

impl Reference {
    /// The same image by its digest. The tag is dropped.
    pub fn clone_with_digest(&self, digest: String) -> (other: Reference)
        ensures
            other@ == self@.with_digest(digest@),
            other.registry@ == self.registry@,
            other.repository@ == self.repository@,
            other.tag is None,
            other.digest == Some(digest),
    {
        Reference {
            registry: self.registry.clone(),
            repository: self.repository.clone(),
            tag: None,
            digest: Some(digest),
        }
    }
}

/// An image of a remote registry.
#[derive(Debug)]
pub struct RemoteImage {
    /// How the registry is spoken to, such as `http` or `https`.
    pub scheme: String,
    /// The registry's address, without a scheme.
    pub host: String,
    /// The repository, as the registry names it.
    pub repo: String,
    pub reference: ManifestReference,
}

/// What a [`RemoteImage`] says.
pub struct RemoteImageView {
    pub scheme: Seq<char>,
    pub host: Seq<char>,
    pub repo: Seq<char>,
    pub reference: ManifestReferenceView,
}

impl View for RemoteImage {
    type V = RemoteImageView;

    open spec fn view(&self) -> RemoteImageView {
        RemoteImageView {
            scheme: self.scheme@,
            host: self.host@,
            repo: self.repo@,
            reference: self.reference@,
        }
    }
}

impl Clone for RemoteImage {
    fn clone(&self) -> (copy: Self)
        ensures
            copy@ == self@,
            copy.scheme@ == self.scheme@,
            copy.host@ == self.host@,
            copy.repo@ == self.repo@,
            copy.reference@ == self.reference@,
    {
        RemoteImage {
            scheme: self.scheme.clone(),
            host: self.host.clone(),
            repo: self.repo.clone(),
            reference: self.reference.clone(),
        }
    }
}

/// Where the scheme of an address ends.
pub open spec fn scheme_end(address: Seq<char>) -> int {
    find_text(address, "://"@, 0)
}

/// Whether an address says how the registry is spoken to, as
/// `http://example.com` does and `example.com` does not.
pub open spec fn has_scheme(address: Seq<char>) -> bool {
    scheme_end(address) + 3 <= address.len()
}

/// The scheme of an address, `https` where it names none.
pub open spec fn scheme_of(address: Seq<char>) -> Seq<char> {
    if has_scheme(address) {
        address.subrange(0, scheme_end(address))
    } else {
        "https"@
    }
}

/// An address without its scheme.
pub open spec fn host_of(address: Seq<char>) -> Seq<char> {
    if has_scheme(address) {
        address.subrange(scheme_end(address) + 3, address.len() as int)
    } else {
        address
    }
}

/// The addresses of Docker Hub, where an image without an organisation stands
/// under `library/`.
pub open spec fn is_docker_hub(host: Seq<char>) -> bool {
    host == "docker.io"@ || host == "index.docker.io"@ || host == "registry-1.docker.io"@
}

/// The name that the registry at `host` gives to `repo`.
pub open spec fn registry_repo(host: Seq<char>, repo: Seq<char>) -> Seq<char> {
    if is_docker_hub(host) && !repo.contains('/') {
        "library/"@ + repo
    } else {
        repo
    }
}

impl RemoteImageView {
    /// The image `repo` of the registry at `address`.
    pub open spec fn new(
        address: Seq<char>,
        repo: Seq<char>,
        reference: ManifestReferenceView,
    ) -> RemoteImageView {
        RemoteImageView {
            scheme: scheme_of(address),
            host: host_of(address),
            repo: registry_repo(host_of(address), repo),
            reference,
        }
    }

    /// Where the image stands.
    pub open spec fn place(self) -> ReferenceView {
        match self.reference {
            ManifestReferenceView::Tag(tag) => ReferenceView {
                registry: self.host,
                repository: self.repo,
                tag: Some(tag),
                digest: None,
            },
            ManifestReferenceView::Digest(digest) => ReferenceView {
                registry: self.host,
                repository: self.repo,
                tag: None,
                digest: Some(digest),
            },
        }
    }
}

impl RemoteImage {
    /// The image `repo` of the registry at `address`, which may begin with a
    /// scheme. Docker Hub's own images get the name that Docker Hub gives them:
    /// `alpine` becomes `library/alpine`.
    pub fn new(address: &str, repo: String, reference: ManifestReference) -> (image: RemoteImage)
        ensures
            image@ == RemoteImageView::new(address@, repo@, reference@),
            image.reference == reference,
            contains_text(address@, "://"@) ==> address@ == image.scheme@ + "://"@ + image.host@
                && !contains_text((image.scheme@ + "://"@).drop_last(), "://"@),
            !contains_text(address@, "://"@) ==> image.scheme@ == "https"@ && image.host@
                == address@,
            image.repo@ == if (image.host@ == "docker.io"@ || image.host@ == "index.docker.io"@
                || image.host@ == "registry-1.docker.io"@) && !repo@.contains('/') {
                "library/"@ + repo@
            } else {
                repo@
            },
    {
        proof {
            lemma_address_parts(address@);
        }
        let chars = chars_of(address);
        let mark = chars_of("://");
        proof {
            reveal_strlit("://");
        }
        let (scheme, host) = match find_chars(&chars, &mark) {
            Some(end) => (
                address.substring_char(0, end).to_owned(),
                address.substring_char(end + 3, chars.len()).to_owned(),
            ),
            None => ("https".to_owned(), address.to_owned()),
        };
        let repo = if docker_hub(host.as_str()) && !has_slash(repo.as_str()) {
            "library/".to_owned().concat(repo.as_str())
        } else {
            repo
        };
        RemoteImage { scheme, host, repo, reference }
    }

    /// The repository, as the registry names it.
    pub fn get_repo(&self) -> (repo: &str)
        ensures
            repo@ == self@.repo,
            repo@ == self.repo@,
    {
        self.repo.as_str()
    }

    /// Where the image stands.
    pub fn place(&self) -> (reference: Reference)
        ensures
            reference@ == self@.place(),
            reference.registry@ == self.host@,
            reference.repository@ == self.repo@,
            match self.reference {
                ManifestReference::Tag(tag) => reference.digest is None && (
                reference.tag matches Some(other) && other@ == tag@),
                ManifestReference::Digest(digest) => reference.tag is None && (
                reference.digest matches Some(other) && other@ == digest@),
            },
    {
        match &self.reference {
            ManifestReference::Tag(tag) => Reference {
                registry: self.host.clone(),
                repository: self.repo.clone(),
                tag: Some(tag.clone()),
                digest: None,
            },
            ManifestReference::Digest(digest) => Reference {
                registry: self.host.clone(),
                repository: self.repo.clone(),
                tag: None,
                digest: Some(digest.to_string()),
            },
        }
    }
}

fn docker_hub(host: &str) -> (yes: bool)
    ensures
        yes == is_docker_hub(host@),
{
    equal(host, "docker.io") || equal(host, "index.docker.io") || equal(
        host,
        "registry-1.docker.io",
    )
}

fn has_slash(s: &str) -> (yes: bool)
    ensures
        yes == s@.contains('/'),
{
    let chars = chars_of(s);
    proof {
        lemma_find(s@, '/', 0);
    }
    find_char(&chars, '/', 0) < chars.len()
}

/// An image keeps its name: what a registry calls it, the registry calls it
/// again when asked for it by that name.
pub proof fn law_registry_repo_is_stable(host: Seq<char>, repo: Seq<char>)
    ensures
        registry_repo(host, registry_repo(host, repo)) == registry_repo(host, repo),
{
    reveal_strlit("library/");
    assert(("library/"@ + repo)[7] == '/');
}

/// An address with a scheme falls into the scheme, up to the first `://`, and
/// the rest.
pub proof fn law_scheme_is_split_off(scheme: Seq<char>, host: Seq<char>)
    requires
        !contains_text((scheme + "://"@).drop_last(), "://"@),
    ensures
        scheme_of(scheme + "://"@ + host) == scheme,
        host_of(scheme + "://"@ + host) == host,
{
    reveal_strlit("://");
    let address = scheme + "://"@ + host;
    let head = (scheme + "://"@).drop_last();
    let n = scheme.len() as int;
    let end = scheme_end(address);
    lemma_find_text(address, "://"@, 0);
    assert(address.subrange(n, n + 3) =~= "://"@);
    if end < n {
        assert(head.subrange(end, end + 3) =~= address.subrange(end, end + 3));
    }
    assert(address.subrange(0, n) =~= scheme);
    assert(address.subrange(n + 3, address.len() as int) =~= host);
}

/// An address that holds `://` is its scheme, the first `://` and its host.
pub(crate) proof fn lemma_address_parts(address: Seq<char>)
    ensures
        contains_text(address, "://"@) ==> address == scheme_of(address) + "://"@ + host_of(address)
            && !contains_text((scheme_of(address) + "://"@).drop_last(), "://"@),
        !contains_text(address, "://"@) ==> scheme_of(address) == "https"@ && host_of(address)
            == address,
{
    reveal_strlit("://");
    let mark = "://"@;
    lemma_find_text(address, mark, 0);
    let end = scheme_end(address);
    if contains_text(address, mark) {
        let i = choose|i: int|
            0 <= i <= address.len() - mark.len() && #[trigger] address.subrange(
                i,
                i + mark.len(),
            ) == mark;
        assert(end <= i);
        assert(address.subrange(end, end + 3) == mark);
        assert forall|j: int| 0 <= j < 3 implies address[end + j] == mark[j] by {
            assert(address.subrange(end, end + 3)[j] == address[end + j]);
        }
        assert(address =~= scheme_of(address) + mark + host_of(address));
        let head = (scheme_of(address) + mark).drop_last();
        if contains_text(head, mark) {
            let k = choose|k: int|
                0 <= k <= head.len() - mark.len() && #[trigger] head.subrange(k, k + mark.len())
                    == mark;
            assert(head.subrange(k, k + 3) =~= address.subrange(k, k + 3));
        }
    }
}

/// The image of an address with a scheme: it is spoken to as the scheme says, at
/// the host as it stands, port and all, and it is the very manifest that was asked
/// for.
pub proof fn law_image_of_an_address_with_a_scheme(
    scheme: Seq<char>,
    host: Seq<char>,
    repo: Seq<char>,
    reference: ManifestReferenceView,
)
    requires
        !contains_text((scheme + "://"@).drop_last(), "://"@),
    ensures
        RemoteImageView::new(scheme + "://"@ + host, repo, reference).scheme == scheme,
        RemoteImageView::new(scheme + "://"@ + host, repo, reference).host == host,
        RemoteImageView::new(scheme + "://"@ + host, repo, reference).place().registry == host,
{
    law_scheme_is_split_off(scheme, host);
}

/// The image of an address without a scheme: it is spoken to over `https`, at the
/// address as it stands.
pub proof fn law_image_of_a_plain_address(
    address: Seq<char>,
    repo: Seq<char>,
    reference: ManifestReferenceView,
)
    requires
        !contains_text(address, "://"@),
    ensures
        RemoteImageView::new(address, repo, reference).scheme == "https"@,
        RemoteImageView::new(address, repo, reference).host == address,
        RemoteImageView::new(address, repo, reference).place().registry == address,
{
    law_plain_address_is_https(address);
}

/// An image is the very manifest that was asked for, by tag or by digest, whatever
/// registry it is of.
pub proof fn law_image_keeps_its_reference(
    address: Seq<char>,
    repo: Seq<char>,
    reference: ManifestReferenceView,
)
    ensures
        RemoteImageView::new(address, repo, reference).reference == reference,
{
}

/// Only Docker Hub renames images, and only those whose name holds no slash, which
/// get `library/` put before them.
pub proof fn law_only_docker_hub_renames(
    address: Seq<char>,
    repo: Seq<char>,
    reference: ManifestReferenceView,
)
    ensures
        ({
            let image = RemoteImageView::new(address, repo, reference);
            let hub = image.host == "docker.io"@ || image.host == "index.docker.io"@ || image.host
                == "registry-1.docker.io"@;
            &&& hub && !repo.contains('/') ==> image.repo == "library/"@ + repo
            &&& !hub ==> image.repo == repo
            &&& repo.contains('/') ==> image.repo == repo
        }),
{
}

/// An image stands at its host, in its repository, under its tag or its digest and
/// not under both.
pub proof fn law_place_is_that_of_the_image(image: RemoteImageView)
    ensures
        image.place().registry == image.host,
        image.place().repository == image.repo,
        image.reference matches ManifestReferenceView::Tag(tag) ==> image.place().tag == Some(tag)
            && image.place().digest is None,
        image.reference matches ManifestReferenceView::Digest(digest) ==> image.place().digest
            == Some(digest) && image.place().tag is None,
{
}

/// Asked for by a digest, an image stands in the same repository of the same
/// registry, under that digest and no tag, whatever it stood under before.
pub proof fn law_digest_replaces_tag(reference: ReferenceView, digest: Seq<char>, other: Seq<char>)
    ensures
        reference.with_digest(digest).registry == reference.registry,
        reference.with_digest(digest).repository == reference.repository,
        reference.with_digest(digest).tag is None,
        reference.with_digest(digest).digest == Some(digest),
        reference.with_digest(other).with_digest(digest) == reference.with_digest(digest),
{
}

/// An address without `://` is the host, and is spoken to over `https`.
pub proof fn law_plain_address_is_https(address: Seq<char>)
    requires
        !contains_text(address, "://"@),
    ensures
        scheme_of(address) == "https"@,
        host_of(address) == address,
{
    reveal_strlit("://");
    lemma_find_text(address, "://"@, 0);
}

} // verus!
