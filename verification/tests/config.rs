use registry_proxy::config::{is_repo_name, ClientProtocol, ClientSettings, ClientSetup};
use registry_proxy::config::{RegistryAuth, RegistryProxiesConfig, SingleRegistryProxyConfig};
use registry_proxy::digest::Digest;
use registry_proxy::ecr::{DecodeError, EcrPasswordError, EcrPublicPasswordError};
use registry_proxy::error::DownloadRemoteImageError;
use registry_proxy::image::ManifestReference;

fn registry(alias: &str, host: &str) -> SingleRegistryProxyConfig {
    SingleRegistryProxyConfig {
        alias: alias.to_string(),
        host: host.to_string(),
        username: None,
        password: None,
        ignore_repos: Vec::new(),
    }
}

fn config() -> RegistryProxiesConfig {
    RegistryProxiesConfig {
        registries: vec![
            registry("docker", "registry-1.docker.io"),
            registry("quay", "quay.io"),
            registry("local", "http://localhost:5000"),
            registry("quay", "shadowed.example.com"),
            registry("", "empty.example.com"),
        ],
        offline: false,
        max_size: None,
    }
}

fn latest() -> ManifestReference {
    ManifestReference::Tag("latest".to_string())
}

fn look_up(name: &str) -> Option<(String, String, String, String)> {
    config().get_proxy_config(name, &latest()).map(|(proxy, image)| {
        (proxy.host.clone(), image.scheme.clone(), image.host.clone(), image.get_repo().to_string())
    })
}

fn found(host: &str, scheme: &str, bare_host: &str, repo: &str) -> Option<(String, String, String, String)> {
    Some((host.to_string(), scheme.to_string(), bare_host.to_string(), repo.to_string()))
}

#[test]
fn default_config_proxies_nothing() {
    let config = RegistryProxiesConfig::default();
    assert!(config.registries.is_empty());
    assert!(config.offline);
    assert!(config.max_size.is_none());
    assert!(config.get_proxy_config("f/docker/alpine", &latest()).is_none());
}

#[test]
fn docker_hub_image_gets_library_prefix() {
    assert_eq!(
        look_up("f/docker/alpine"),
        found("registry-1.docker.io", "https", "registry-1.docker.io", "library/alpine")
    );
    assert_eq!(
        look_up("f/docker/library/alpine"),
        found("registry-1.docker.io", "https", "registry-1.docker.io", "library/alpine")
    );
}

#[test]
fn first_registry_with_alias_answers() {
    assert_eq!(look_up("f/quay/org/app"), found("quay.io", "https", "quay.io", "org/app"));
}

#[test]
fn scheme_is_split_off_the_host() {
    assert_eq!(
        look_up("f/local/app"),
        found("http://localhost:5000", "http", "localhost:5000", "app")
    );
}

#[test]
fn only_first_two_slashes_part_the_name() {
    assert_eq!(look_up("f/quay/a/b/c"), found("quay.io", "https", "quay.io", "a/b/c"));
    assert_eq!(look_up("f/quay/"), found("quay.io", "https", "quay.io", ""));
    assert_eq!(
        look_up("f//app"),
        found("empty.example.com", "https", "empty.example.com", "app")
    );
}

#[test]
fn names_outside_the_proxy_dir_are_not_answered() {
    assert_eq!(look_up("docker/alpine"), None);
    assert_eq!(look_up("foo/docker/alpine"), None);
    assert_eq!(look_up("F/docker/alpine"), None);
    assert_eq!(look_up("f"), None);
    assert_eq!(look_up(""), None);
}

#[test]
fn unknown_alias_is_not_answered() {
    assert_eq!(look_up("f/ghcr/app"), None);
    assert_eq!(look_up("f/dockerr/app"), None);
}

#[test]
fn kept_name_leads_back() {
    let config = config();
    let (proxy, image) = config.get_proxy_config("f/docker/alpine", &latest()).unwrap();
    let name = format!("f/{}/{}", proxy.alias, image.get_repo());
    let (again, same) = config.get_proxy_config(&name, &latest()).unwrap();
    assert_eq!(again.host, proxy.host);
    assert_eq!(same.get_repo(), image.get_repo());
}

#[test]
fn reference_is_carried_over() {
    let digest = Digest::try_from_raw("sha256:0123abcd").unwrap();
    let config = config();
    let (_, image) =
        config.get_proxy_config("f/quay/app", &ManifestReference::Digest(digest)).unwrap();
    match image.reference {
        ManifestReference::Digest(d) => assert_eq!(d.as_str(), "sha256:0123abcd"),
        ManifestReference::Tag(_) => panic!("a tag"),
    }
}

#[test]
fn repo_names_that_can_be_looked_up() {
    assert!(is_repo_name("alpine"));
    assert!(is_repo_name("f"));
    assert!(is_repo_name("f/docker/alpine"));
    assert!(is_repo_name("f//"));
    assert!(!is_repo_name("f/"));
    assert!(!is_repo_name("f/docker"));
}

fn with_login(host: &str, username: Option<&str>, password: Option<&str>) -> SingleRegistryProxyConfig {
    let mut config = registry("x", host);
    config.username = username.map(|s| s.to_string());
    config.password = password.map(|s| s.to_string());
    config
}

fn basic(setup: ClientSetup) -> (ClientProtocol, String, String) {
    match setup {
        ClientSetup::Ready(ClientSettings {
            protocol,
            auth: RegistryAuth::Basic(username, password),
        }) => (protocol, username, password),
        other => panic!("{:?}", other),
    }
}

#[test]
fn without_user_the_client_is_anonymous() {
    for password in [None, Some("secret")] {
        match with_login("example.com", None, password).setup_client(false) {
            ClientSetup::Ready(ClientSettings {
                protocol: ClientProtocol::Https,
                auth: RegistryAuth::Anonymous,
            }) => {}
            other => panic!("{:?}", other),
        }
    }
}

#[test]
fn insecure_client_speaks_http() {
    match with_login("example.com", None, None).setup_client(true) {
        ClientSetup::Ready(settings) => assert_eq!(settings.protocol, ClientProtocol::Http),
        other => panic!("{:?}", other),
    }
}

#[test]
fn user_and_password_are_used_as_they_stand() {
    let setup = with_login("example.com", Some("me"), Some("secret")).setup_client(false);
    assert_eq!(basic(setup), (ClientProtocol::Https, "me".to_string(), "secret".to_string()));
    let setup = with_login("1.dkr.ecr.eu-west-1.amazonaws.com", Some("AWS"), Some("secret"))
        .setup_client(false);
    assert_eq!(basic(setup), (ClientProtocol::Https, "AWS".to_string(), "secret".to_string()));
}

#[test]
fn user_without_password_has_the_empty_one() {
    let setup = with_login("1.dkr.ecr.x.y", Some("me"), None).setup_client(true);
    assert_eq!(basic(setup), (ClientProtocol::Http, "me".to_string(), "".to_string()));
    let setup = with_login("1.dkr.ecr.x.y", Some("aws"), None).setup_client(true);
    assert_eq!(basic(setup), (ClientProtocol::Http, "aws".to_string(), "".to_string()));
}

#[test]
fn aws_user_logs_in_to_private_ecr() {
    let config = with_login("1.dkr.ecr.eu-west-1.amazonaws.com", Some("AWS"), None);
    match config.setup_client(false) {
        ClientSetup::Ecr(login) => {
            let settings = login.ecr_password(Ok("pw".to_string())).unwrap();
            assert_eq!(
                basic(ClientSetup::Ready(settings)),
                (ClientProtocol::Https, "AWS".to_string(), "pw".to_string())
            );
        }
        other => panic!("{:?}", other),
    }
    match config.setup_client(false) {
        ClientSetup::Ecr(login) => {
            let failed = login.ecr_password(Err(EcrPasswordError::InvalidRegion));
            assert!(matches!(
                failed,
                Err(DownloadRemoteImageError::EcrLoginError(EcrPasswordError::InvalidRegion))
            ));
        }
        other => panic!("{:?}", other),
    }
}

#[test]
fn aws_user_logs_in_to_public_ecr() {
    let config = with_login("public.ecr.aws", Some("AWS"), None);
    match config.setup_client(true) {
        ClientSetup::EcrPublic(login) => {
            let settings = login.ecr_public_password(Ok("pw".to_string())).unwrap();
            assert_eq!(
                basic(ClientSetup::Ready(settings)),
                (ClientProtocol::Http, "AWS".to_string(), "pw".to_string())
            );
        }
        other => panic!("{:?}", other),
    }
    match config.setup_client(false) {
        ClientSetup::EcrPublic(login) => {
            let failed = login.ecr_public_password(Err(
                EcrPublicPasswordError::Base64DecodeError(DecodeError::InvalidPadding),
            ));
            assert!(matches!(
                failed,
                Err(DownloadRemoteImageError::EcrPublicLoginError(
                    EcrPublicPasswordError::Base64DecodeError(DecodeError::InvalidPadding)
                ))
            ));
        }
        other => panic!("{:?}", other),
    }
}

#[test]
fn size_limit_is_carried() {
    let config = RegistryProxiesConfig {
        registries: Vec::new(),
        offline: false,
        max_size: Some(size::Size::from_bytes(42)),
    };
    assert_eq!(config.clone().max_size.unwrap().bytes(), 42);
}
