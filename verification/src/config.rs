//! The registries that are proxied, and how each is spoken to.

use vstd::prelude::*;
use vstd::string::StrSliceExecFns;
use crate::ecr::{law_private_registry_names_its_region, region_of};
use crate::ecr::{EcrPasswordError, EcrPublicPasswordError};
use crate::error::{DownloadErrorView, DownloadRemoteImageError};
use crate::image::{law_registry_repo_is_stable, lemma_address_parts, optional_text};
use crate::image::{ManifestReference, ManifestReferenceView, RemoteImage, RemoteImageView};
use crate::text::{chars_of, contains, contains_text, equal, find, find_char};
use crate::text::{lemma_find, lemma_find_after_part, starts_with};

verus! {

/// A number of bytes.
#[verifier::external_type_specification]
#[verifier::external_body]
pub struct ExSize(size::Size);

/// All registries that are proxied.
#[derive(Clone, Debug)]
pub struct RegistryProxiesConfig {
    pub registries: Vec<SingleRegistryProxyConfig>,
    pub offline: bool,
    pub max_size: Option<size::Size>,
}

/// One registry that is proxied.
#[derive(Clone, Debug)]
pub struct SingleRegistryProxyConfig {
    pub alias: String,
    /// This field is unvalidated and may contain a scheme or not.
    /// eg: `http://example.com` and `example.com`
    pub host: String,
    pub username: Option<String>,
    pub password: Option<String>,
    pub ignore_repos: Vec<String>,
}

impl Default for RegistryProxiesConfig {
    /// No registry is proxied, and nothing is asked of the network.
    fn default() -> (config: Self)
        ensures
            config.registries@ == Seq::<SingleRegistryProxyConfig>::empty(),
            config.offline,
            config.max_size is None,
    {
        RegistryProxiesConfig { registries: Vec::new(), offline: true, max_size: None }
    }
}

/// Whether a repository stands under `f/`, where all proxied ones do.
pub open spec fn in_proxy_dir(repo_name: Seq<char>) -> bool {
    "f/"@.is_prefix_of(repo_name)
}

/// Where the alias ends in the name of a proxied repository.
pub open spec fn alias_end(repo_name: Seq<char>) -> int {
    find(repo_name, '/', 2)
}

/// The name under which the registry `alias` is proxied for `repo`.
pub open spec fn proxied_name(alias: Seq<char>, repo: Seq<char>) -> Seq<char> {
    "f/"@ + alias + "/"@ + repo
}

/// The first registry, at or after `from`, that goes by `alias`.
pub open spec fn first_with_alias(
    registries: Seq<SingleRegistryProxyConfig>,
    alias: Seq<char>,
    from: int,
) -> Option<int>
    decreases registries.len() - from,
{
    if from >= registries.len() {
        None
    } else if registries[from].alias@ == alias {
        Some(from)
    } else {
        first_with_alias(registries, alias, from + 1)
    }
}

/// The registry that goes by `alias`, and its image `repo`.
pub open spec fn proxy_with_alias(
    registries: Seq<SingleRegistryProxyConfig>,
    alias: Seq<char>,
    repo: Seq<char>,
    reference: ManifestReferenceView,
) -> Option<(SingleRegistryProxyConfig, RemoteImageView)> {
    match first_with_alias(registries, alias, 0) {
        Some(i) => Some(
            (registries[i], RemoteImageView::new(registries[i].host@, repo, reference)),
        ),
        None => None,
    }
}

/// The registry and the image that a repository's name stands for. A name
/// outside `f/` stands for none; in `f/<alias>/<repo>` the alias ends at the
/// first slash.
pub open spec fn proxy_config(
    registries: Seq<SingleRegistryProxyConfig>,
    repo_name: Seq<char>,
    reference: ManifestReferenceView,
) -> Option<(SingleRegistryProxyConfig, RemoteImageView)> {
    if in_proxy_dir(repo_name) {
        let end = alias_end(repo_name);
        proxy_with_alias(
            registries,
            repo_name.subrange(2, end),
            repo_name.subrange(end + 1, repo_name.len() as int),
            reference,
        )
    } else {
        None
    }
}

/// Whether a name can be looked up: under `f/` it has to go on with an alias and
/// a slash.
pub open spec fn can_be_looked_up(repo_name: Seq<char>) -> bool {
    in_proxy_dir(repo_name) ==> alias_end(repo_name) < repo_name.len()
}

/// Whether [`RegistryProxiesConfig::get_proxy_config`] takes the name.
pub fn is_repo_name(repo_name: &str) -> (yes: bool)
    ensures
        yes == can_be_looked_up(repo_name@),
        yes <==> ("f/"@.is_prefix_of(repo_name@) ==> exists|i: int|
            2 <= i < repo_name@.len() && #[trigger] repo_name@[i] == '/'),
{
    proof {
        reveal_strlit("f/");
        law_name_with_two_slashes_can_be_looked_up(repo_name@);
    }
    let chars = chars_of(repo_name);
    !starts_with(repo_name, "f/") || find_char(&chars, '/', 2) < chars.len()
}

impl RegistryProxiesConfig {
    /// The registry and the image that `repo_name` stands for.
    pub fn get_proxy_config<'a>(
        &'a self,
        repo_name: &str,
        reference: &ManifestReference,
    ) -> (found: Option<(&'a SingleRegistryProxyConfig, RemoteImage)>)
        requires
            can_be_looked_up(repo_name@),
        ensures
            match found {
                Some((proxy, image)) => proxy_config(self.registries@, repo_name@, reference@)
                    == Some((*proxy, image@)),
                None => proxy_config(self.registries@, repo_name@, reference@) is None,
            },
            found matches Some((proxy, image)) ==> {
                &&& "f/"@.is_prefix_of(repo_name@)
                &&& self.registries@.contains(*proxy)
                &&& ("f/"@ + proxy.alias@ + "/"@).is_prefix_of(repo_name@)
                &&& match *reference {
                    ManifestReference::Tag(tag) => image.reference matches ManifestReference::Tag(
                        other,
                    ) && other@ == tag@,
                    ManifestReference::Digest(digest) => {
                        image.reference matches ManifestReference::Digest(other) && other@
                            == digest@
                    },
                }
            },
            found is None && "f/"@.is_prefix_of(repo_name@) ==> forall|i: int|
                0 <= i < self.registries@.len() && !(#[trigger] self.registries@[i]).alias@.contains(
                    '/',
                ) ==> !("f/"@ + self.registries@[i].alias@ + "/"@).is_prefix_of(repo_name@),
    {
        // All proxies are under "f/"
        if starts_with(repo_name, "f/") {
            proof {
                reveal_strlit("f/");
            }
            let chars = chars_of(repo_name);
            let end: usize = find_char(&chars, '/', 2);
            proof {
                lemma_name_parts(repo_name@);
            }
            let alias = repo_name.substring_char(2, end).to_owned();
            let repo = repo_name.substring_char(end + 1, chars.len()).to_owned();
            let mut i: usize = 0;
            while i < self.registries.len()
                invariant
                    i <= self.registries.len(),
                    first_with_alias(self.registries@, alias@, 0) == first_with_alias(
                        self.registries@,
                        alias@,
                        i as int,
                    ),
                    in_proxy_dir(repo_name@),
                    ("f/"@ + alias@ + "/"@).is_prefix_of(repo_name@),
                    alias@ == repo_name@.subrange(2, alias_end(repo_name@)),
                    repo@ == repo_name@.subrange(
                        alias_end(repo_name@) + 1,
                        repo_name@.len() as int,
                    ),
                decreases self.registries.len() - i,
            {
                let proxy = &self.registries[i];
                if proxy.alias == alias {
                    let image = RemoteImage::new(proxy.host.as_str(), repo, reference.clone());
                    return Some((proxy, image));
                }
                i = i + 1;
            }
            proof {
                lemma_no_alias_was_found(self.registries@, alias@, 0);
                assert forall|i: int|
                    0 <= i < self.registries@.len() && !(#[trigger] self.registries@[i]).alias@.contains(
                        '/',
                    ) implies !("f/"@ + self.registries@[i].alias@ + "/"@).is_prefix_of(
                    repo_name@,
                ) by {
                    lemma_alias_in_name(repo_name@, self.registries@[i].alias@);
                }
            }
        }
        None
    }
}

/// How a remote registry is spoken to.
#[derive(Debug, Clone, Copy, PartialEq, Eq, Structural)]
pub enum ClientProtocol {
    Http,
    Https,
}

/// As whom a remote registry is spoken to.
#[derive(Debug)]
pub enum RegistryAuth {
    Anonymous,
    /// A user name and a password.
    Basic(String, String),
}

/// What a [`RegistryAuth`] says.
pub enum RegistryAuthView {
    Anonymous,
    Basic(Seq<char>, Seq<char>),
}

impl View for RegistryAuth {
    type V = RegistryAuthView;

    open spec fn view(&self) -> RegistryAuthView {
        match *self {
            RegistryAuth::Anonymous => RegistryAuthView::Anonymous,
            RegistryAuth::Basic(username, password) => RegistryAuthView::Basic(
                username@,
                password@,
            ),
        }
    }
}

/// All that a client for a remote registry needs to know.
#[derive(Debug)]
pub struct ClientSettings {
    pub protocol: ClientProtocol,
    pub auth: RegistryAuth,
}

/// What [`ClientSettings`] say.
pub struct ClientSettingsView {
    pub protocol: ClientProtocol,
    pub auth: RegistryAuthView,
}

impl View for ClientSettings {
    type V = ClientSettingsView;

    open spec fn view(&self) -> ClientSettingsView {
        ClientSettingsView { protocol: self.protocol, auth: self.auth@ }
    }
}

/// A client that still lacks the password of its user.
#[derive(Debug)]
pub struct PendingLogin {
    pub protocol: ClientProtocol,
    pub username: String,
}

/// What a [`PendingLogin`] says.
pub struct PendingLoginView {
    pub protocol: ClientProtocol,
    pub username: Seq<char>,
}

impl View for PendingLogin {
    type V = PendingLoginView;

    open spec fn view(&self) -> PendingLoginView {
        PendingLoginView { protocol: self.protocol, username: self.username@ }
    }
}

impl PendingLoginView {
    /// The client, with the password that it lacked.
    pub open spec fn with_password(self, password: Seq<char>) -> ClientSettingsView {
        ClientSettingsView {
            protocol: self.protocol,
            auth: RegistryAuthView::Basic(self.username, password),
        }
    }
}

/// A client for a remote registry, as far as the configuration settles it.
#[derive(Debug)]
pub enum ClientSetup {
    /// Nothing is missing.
    Ready(ClientSettings),
    /// The password is to be fetched from AWS, for the private registry.
    Ecr(PendingLogin),
    /// The password is to be fetched from AWS, for the public registry.
    EcrPublic(PendingLogin),
}

/// What a [`ClientSetup`] says.
pub enum ClientSetupView {
    Ready(ClientSettingsView),
    Ecr(PendingLoginView),
    EcrPublic(PendingLoginView),
}

impl View for ClientSetup {
    type V = ClientSetupView;

    open spec fn view(&self) -> ClientSetupView {
        match *self {
            ClientSetup::Ready(settings) => ClientSetupView::Ready(settings@),
            ClientSetup::Ecr(login) => ClientSetupView::Ecr(login@),
            ClientSetup::EcrPublic(login) => ClientSetupView::EcrPublic(login@),
        }
    }
}

/// The protocol of a client.
pub open spec fn protocol_of(insecure: bool) -> ClientProtocol {
    if insecure {
        ClientProtocol::Http
    } else {
        ClientProtocol::Https
    }
}

/// The client for the registry at `host`. A user name and a password that are
/// both given are used as they stand. The user `AWS` without a password gets
/// one from AWS, by the kind of the registry. Any other user without a password
/// has the empty one. Without a user, the client is anonymous.
pub open spec fn client_setup(
    host: Seq<char>,
    username: Option<Seq<char>>,
    password: Option<Seq<char>>,
    insecure: bool,
) -> ClientSetupView {
    let protocol = protocol_of(insecure);
    match (username, password) {
        (None, _) => ClientSetupView::Ready(
            ClientSettingsView { protocol, auth: RegistryAuthView::Anonymous },
        ),
        (Some(username), Some(password)) => ClientSetupView::Ready(
            ClientSettingsView { protocol, auth: RegistryAuthView::Basic(username, password) },
        ),
        (Some(username), None) => if username != "AWS"@ {
            ClientSetupView::Ready(
                ClientSettingsView {
                    protocol,
                    auth: RegistryAuthView::Basic(username, Seq::empty()),
                },
            )
        } else if contains_text(host, ".dkr.ecr."@) {
            ClientSetupView::Ecr(PendingLoginView { protocol, username })
        } else {
            ClientSetupView::EcrPublic(PendingLoginView { protocol, username })
        },
    }
}

impl SingleRegistryProxyConfig {
    /// The client for this registry.
    pub fn setup_client(&self, insecure: bool) -> (setup: ClientSetup)
        ensures
            match setup {
                ClientSetup::Ready(settings) => settings.protocol is Http <==> insecure,
                ClientSetup::Ecr(login) => login.protocol is Http <==> insecure,
                ClientSetup::EcrPublic(login) => login.protocol is Http <==> insecure,
            },
            match (self.username, self.password) {
                (None, _) => setup matches ClientSetup::Ready(settings)
                    && settings.auth is Anonymous,
                (Some(username), Some(password)) => setup matches ClientSetup::Ready(settings) && (
                settings.auth matches RegistryAuth::Basic(user, secret) && user@ == username@
                    && secret@ == password@),
                (Some(username), None) => if username@ != "AWS"@ {
                    setup matches ClientSetup::Ready(settings) && (
                    settings.auth matches RegistryAuth::Basic(user, secret) && user@ == username@
                        && secret@.len() == 0)
                } else if contains_text(self.host@, ".dkr.ecr."@) {
                    setup matches ClientSetup::Ecr(login) && login.username@ == "AWS"@
                } else {
                    setup matches ClientSetup::EcrPublic(login) && login.username@ == "AWS"@
                },
            },
            setup@ == client_setup(
                self.host@,
                optional_text(self.username),
                optional_text(self.password),
                insecure,
            ),
    {
        let protocol = if insecure {
            ClientProtocol::Http
        } else {
            ClientProtocol::Https
        };
        match (&self.username, &self.password) {
            (None, _) => ClientSetup::Ready(
                ClientSettings { protocol, auth: RegistryAuth::Anonymous },
            ),
            // If username and password are both provided, then
            // directly use the username and password
            (Some(username), Some(password)) => ClientSetup::Ready(
                ClientSettings {
                    protocol,
                    auth: RegistryAuth::Basic(username.clone(), password.clone()),
                },
            ),
            (Some(username), None) => if !equal(username.as_str(), "AWS") {
                ClientSetup::Ready(
                    ClientSettings {
                        protocol,
                        auth: RegistryAuth::Basic(username.clone(), String::new()),
                    },
                )
            } else if contains(self.host.as_str(), ".dkr.ecr.") {
                ClientSetup::Ecr(PendingLogin { protocol, username: username.clone() })
            } else {
                // The password for Public ECR is fetched to overcome the rate
                // limitations. To pull images from ECR Public unauthenticated,
                // avoid providing the username.
                ClientSetup::EcrPublic(PendingLogin { protocol, username: username.clone() })
            },
        }
    }
}

/// What a client or an error says.
pub open spec fn settings_or_error(
    settings: Result<ClientSettings, DownloadRemoteImageError>,
) -> Result<ClientSettingsView, DownloadErrorView> {
    match settings {
        Ok(settings) => Ok(settings@),
        Err(error) => Err(error@),
    }
}

impl PendingLogin {
    /// The client, once the password for the private registry was fetched.
    pub fn ecr_password(self, password: Result<String, EcrPasswordError>) -> (settings: Result<
        ClientSettings,
        DownloadRemoteImageError,
    >)
        ensures
            settings_or_error(settings) == match password {
                Ok(password) => Ok::<ClientSettingsView, DownloadErrorView>(
                    self@.with_password(password@),
                ),
                Err(error) => Err(DownloadErrorView::EcrLoginError(error@)),
            },
            settings == match password {
                Ok(password) => Ok::<ClientSettings, DownloadRemoteImageError>(
                    (ClientSettings {
                        protocol: self.protocol,
                        auth: RegistryAuth::Basic(self.username, password),
                    }),
                ),
                Err(error) => Err(DownloadRemoteImageError::EcrLoginError(error)),
            },
    {
        match password {
            Ok(password) => Ok(
                ClientSettings {
                    protocol: self.protocol,
                    auth: RegistryAuth::Basic(self.username, password),
                },
            ),
            Err(error) => Err(DownloadRemoteImageError::EcrLoginError(error)),
        }
    }

    /// The client, once the password for the public registry was fetched.
    pub fn ecr_public_password(
        self,
        password: Result<String, EcrPublicPasswordError>,
    ) -> (settings: Result<ClientSettings, DownloadRemoteImageError>)
        ensures
            settings_or_error(settings) == match password {
                Ok(password) => Ok::<ClientSettingsView, DownloadErrorView>(
                    self@.with_password(password@),
                ),
                Err(error) => Err(DownloadErrorView::EcrPublicLoginError(error@)),
            },
            settings == match password {
                Ok(password) => Ok::<ClientSettings, DownloadRemoteImageError>(
                    (ClientSettings {
                        protocol: self.protocol,
                        auth: RegistryAuth::Basic(self.username, password),
                    }),
                ),
                Err(error) => Err(DownloadRemoteImageError::EcrPublicLoginError(error)),
            },
    {
        match password {
            Ok(password) => Ok(
                ClientSettings {
                    protocol: self.protocol,
                    auth: RegistryAuth::Basic(self.username, password),
                },
            ),
            Err(error) => Err(DownloadRemoteImageError::EcrPublicLoginError(error)),
        }
    }
}

/// Whatever the registry, the user and the password are, a client speaks plain
/// HTTP exactly when it may be insecure, with or without a password still missing.
pub proof fn law_only_insecure_clients_speak_http(
    host: Seq<char>,
    username: Option<Seq<char>>,
    password: Option<Seq<char>>,
    insecure: bool,
)
    ensures
        match client_setup(host, username, password, insecure) {
            ClientSetupView::Ready(settings) => settings.protocol is Http <==> insecure,
            ClientSetupView::Ecr(login) => login.protocol is Http <==> insecure,
            ClientSetupView::EcrPublic(login) => login.protocol is Http <==> insecure,
        },
{
}

/// A password that AWS gives completes the client, and changes nothing else of it.
pub proof fn law_password_completes_the_client(login: PendingLoginView, password: Seq<char>)
    ensures
        login.with_password(password).protocol == login.protocol,
        login.with_password(password).auth == RegistryAuthView::Basic(login.username, password),
{
}

/// A user and a password that are both given are used as they are, whatever the
/// registry: not even the user `AWS` has a password fetched then.
pub proof fn law_given_login_is_used(
    host: Seq<char>,
    username: Seq<char>,
    password: Seq<char>,
    insecure: bool,
)
    ensures
        client_setup(host, Some(username), Some(password), insecure) matches ClientSetupView::Ready(
            settings,
        ) && settings.auth == RegistryAuthView::Basic(username, password),
{
}

/// Without a user the client is anonymous, whatever password there is.
pub proof fn law_no_user_is_anonymous(
    host: Seq<char>,
    password: Option<Seq<char>>,
    insecure: bool,
)
    ensures
        client_setup(host, None, password, insecure) matches ClientSetupView::Ready(settings)
            && settings.auth is Anonymous,
{
}

/// Without a password, AWS is asked for one exactly for the user `AWS`: the private
/// service if `.dkr.ecr.` stands in the registry's address, or else the public one.
/// Any other user has the empty password.
pub proof fn law_only_the_user_aws_asks_for_a_password(
    host: Seq<char>,
    username: Seq<char>,
    insecure: bool,
)
    ensures
        ({
            let setup = client_setup(host, Some(username), None, insecure);
            &&& setup is Ecr <==> username == "AWS"@ && contains_text(host, ".dkr.ecr."@)
            &&& setup is EcrPublic <==> username == "AWS"@ && !contains_text(host, ".dkr.ecr."@)
            &&& setup matches ClientSetupView::Ecr(login) ==> login.username == username
            &&& setup matches ClientSetupView::EcrPublic(login) ==> login.username == username
            &&& setup matches ClientSetupView::Ready(settings) ==> settings.auth
                == RegistryAuthView::Basic(username, seq![])
        }),
{
    assert(Seq::<char>::empty() =~= seq![]);
}

/// A name under `f/` can be looked up exactly when another slash follows.
pub proof fn law_name_with_two_slashes_can_be_looked_up(name: Seq<char>)
    ensures
        can_be_looked_up(name) <==> ("f/"@.is_prefix_of(name) ==> exists|i: int|
            2 <= i < name.len() && #[trigger] name[i] == '/'),
{
    reveal_strlit("f/");
    if "f/"@.is_prefix_of(name) {
        lemma_find(name, '/', 2);
        if alias_end(name) < name.len() {
            assert(name[alias_end(name)] == '/');
        }
    }
}

/// A name that does not begin with `f/` is not proxied, whatever is configured.
pub proof fn law_other_names_are_not_proxied(
    registries: Seq<SingleRegistryProxyConfig>,
    name: Seq<char>,
    reference: ManifestReferenceView,
)
    requires
        !"f/"@.is_prefix_of(name),
    ensures
        proxy_config(registries, name, reference) is None,
{
}

/// `f/`, the alias of a registry, a slash and a repository stand for that
/// repository of the first registry that goes by the alias, and for the very
/// manifest that is asked for.
pub proof fn law_name_stands_for_an_image(
    registries: Seq<SingleRegistryProxyConfig>,
    i: int,
    repo: Seq<char>,
    reference: ManifestReferenceView,
)
    requires
        0 <= i < registries.len(),
        !registries[i].alias@.contains('/'),
        forall|j: int|
            0 <= j < i ==> #[trigger] registries[j].alias@ != registries[i].alias@,
    ensures
        proxy_config(registries, "f/"@ + registries[i].alias@ + "/"@ + repo, reference) matches Some(
            (proxy, image),
        ) && {
            &&& proxy == registries[i]
            &&& image.reference == reference
            &&& image.repo == repo || image.repo == "library/"@ + repo
            &&& contains_text(proxy.host@, "://"@) ==> proxy.host@ == image.scheme + "://"@
                + image.host
            &&& !contains_text(proxy.host@, "://"@) ==> proxy.host@ == image.host && image.scheme
                == "https"@
        },
{
    let alias = registries[i].alias@;
    law_proxied_name_finds_alias(registries, alias, repo, reference);
    law_first_alias_answers(registries, alias, repo, reference, i);
    lemma_address_parts(registries[i].host@);
}

/// Where the parts of a name under `f/` stand.
proof fn lemma_name_parts(name: Seq<char>)
    requires
        in_proxy_dir(name),
        alias_end(name) < name.len(),
    ensures
        2 <= alias_end(name),
        ("f/"@ + name.subrange(2, alias_end(name)) + "/"@).is_prefix_of(name),
{
    reveal_strlit("f/");
    reveal_strlit("/");
    lemma_find(name, '/', 2);
    let end = alias_end(name);
    assert(name.subrange(0, 2) =~= "f/"@);
    assert(name.subrange(0, end + 1) =~= name.subrange(0, 2) + name.subrange(2, end) + "/"@);
}

/// An alias that a name begins with is the alias in the name.
proof fn lemma_alias_in_name(name: Seq<char>, alias: Seq<char>)
    requires
        !alias.contains('/'),
    ensures
        ("f/"@ + alias + "/"@).is_prefix_of(name) ==> name.subrange(2, alias_end(name)) == alias,
{
    reveal_strlit("f/");
    reveal_strlit("/");
    let head = "f/"@ + alias + "/"@;
    if head.is_prefix_of(name) {
        let n = alias.len() as int;
        assert(name.subrange(0, n + 3) =~= head);
        assert forall|i: int| 0 <= i < n + 3 implies name[i] == head[i] by {
            assert(name.subrange(0, n + 3)[i] == name[i]);
        }
        assert(name.subrange(2, 2 + n) =~= alias);
        lemma_find_after_part(name, '/', 2, alias);
    }
}

/// Where no registry was found, none goes by the alias.
proof fn lemma_no_alias_was_found(
    registries: Seq<SingleRegistryProxyConfig>,
    alias: Seq<char>,
    from: int,
)
    requires
        0 <= from,
        first_with_alias(registries, alias, from) is None,
    ensures
        forall|j: int| from <= j < registries.len() ==> #[trigger] registries[j].alias@ != alias,
    decreases registries.len() - from,
{
    if from < registries.len() {
        lemma_no_alias_was_found(registries, alias, from + 1);
    }
}

/// Where the password of a private ECR registry is to be fetched, the registry's
/// address names the region to fetch it in.
pub proof fn law_private_login_has_a_region(
    host: Seq<char>,
    username: Option<Seq<char>>,
    password: Option<Seq<char>>,
    insecure: bool,
)
    requires
        client_setup(host, username, password, insecure) is Ecr,
    ensures
        region_of(host) is Some,
{
    law_private_registry_names_its_region(host);
}

/// `f/<alias>/<repo>` stands for the image `<repo>` of the first registry that
/// goes by `<alias>`.
pub proof fn law_proxied_name_finds_alias(
    registries: Seq<SingleRegistryProxyConfig>,
    alias: Seq<char>,
    repo: Seq<char>,
    reference: ManifestReferenceView,
)
    requires
        !alias.contains('/'),
    ensures
        in_proxy_dir(proxied_name(alias, repo)),
        can_be_looked_up(proxied_name(alias, repo)),
        proxy_config(registries, proxied_name(alias, repo), reference) == proxy_with_alias(
            registries,
            alias,
            repo,
            reference,
        ),
{
    reveal_strlit("f/");
    reveal_strlit("/");
    let name = proxied_name(alias, repo);
    let end = 2 + alias.len() as int;
    assert("f/"@ =~= name.subrange(0, 2));
    assert(name.subrange(2, end) =~= alias);
    lemma_find_after_part(name, '/', 2, alias);
    assert(name.subrange(end + 1, name.len() as int) =~= repo);
}

/// Of the registries that go by one alias, the first one answers, and a name is
/// answered whenever there is one.
pub proof fn law_first_alias_answers(
    registries: Seq<SingleRegistryProxyConfig>,
    alias: Seq<char>,
    repo: Seq<char>,
    reference: ManifestReferenceView,
    i: int,
)
    requires
        0 <= i < registries.len(),
        registries[i].alias@ == alias,
        forall|j: int| 0 <= j < i ==> #[trigger] registries[j].alias@ != alias,
    ensures
        proxy_with_alias(registries, alias, repo, reference) == Some(
            (registries[i], RemoteImageView::new(registries[i].host@, repo, reference)),
        ),
{
    lemma_first_with_alias(registries, alias, 0, i);
}

proof fn lemma_first_with_alias(
    registries: Seq<SingleRegistryProxyConfig>,
    alias: Seq<char>,
    from: int,
    i: int,
)
    requires
        0 <= from <= i < registries.len(),
        registries[i].alias@ == alias,
        forall|j: int| from <= j < i ==> #[trigger] registries[j].alias@ != alias,
    ensures
        first_with_alias(registries, alias, from) == Some(i),
    decreases i - from,
{
    if from < i {
        lemma_first_with_alias(registries, alias, from + 1, i);
    }
}

/// An alias that no registry goes by is not answered.
pub proof fn law_unknown_alias_is_not_answered(
    registries: Seq<SingleRegistryProxyConfig>,
    alias: Seq<char>,
    repo: Seq<char>,
    reference: ManifestReferenceView,
)
    requires
        forall|j: int| 0 <= j < registries.len() ==> #[trigger] registries[j].alias@ != alias,
    ensures
        proxy_with_alias(registries, alias, repo, reference) is None,
{
    lemma_no_alias(registries, alias, 0);
}

proof fn lemma_no_alias(
    registries: Seq<SingleRegistryProxyConfig>,
    alias: Seq<char>,
    from: int,
)
    requires
        0 <= from,
        forall|j: int| from <= j < registries.len() ==> #[trigger] registries[j].alias@ != alias,
    ensures
        first_with_alias(registries, alias, from) is None,
    decreases registries.len() - from,
{
    if from < registries.len() {
        lemma_no_alias(registries, alias, from + 1);
    }
}

/// The name under which an image is kept leads back to it: looked up again, it
/// gives the same registry and the same image.
pub proof fn law_kept_name_leads_back(
    registries: Seq<SingleRegistryProxyConfig>,
    alias: Seq<char>,
    repo: Seq<char>,
    reference: ManifestReferenceView,
)
    requires
        !alias.contains('/'),
    ensures
        proxy_with_alias(registries, alias, repo, reference) matches Some((proxy, image))
            ==> proxy_config(registries, proxied_name(alias, image.repo), reference) == Some(
            (proxy, image),
        ),
{
    if let Some((proxy, image)) = proxy_with_alias(registries, alias, repo, reference) {
        law_proxied_name_finds_alias(registries, alias, image.repo, reference);
        law_registry_repo_is_stable(image.host, repo);
    }
}

/// With the default configuration nothing is proxied.
pub proof fn law_nothing_is_proxied_by_default(
    repo_name: Seq<char>,
    reference: ManifestReferenceView,
)
    ensures
        proxy_config(Seq::empty(), repo_name, reference) is None,
{
}

} // verus!
