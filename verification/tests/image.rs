use registry_proxy::digest::Digest;
use registry_proxy::image::{ManifestReference, Reference, RemoteImage};
use registry_proxy::text::{contains, equal, nth_field, starts_with};

fn image(address: &str, repo: &str) -> RemoteImage {
    RemoteImage::new(address, repo.to_string(), ManifestReference::Tag("v1".to_string()))
}

#[test]
fn address_without_scheme_is_https() {
    let image = image("example.com", "app");
    assert_eq!((image.scheme.as_str(), image.host.as_str()), ("https", "example.com"));
}

#[test]
fn scheme_ends_at_the_first_mark() {
    let cases = [
        ("http://example.com", "http", "example.com"),
        ("https://example.com:5000", "https", "example.com:5000"),
        ("http://a://b", "http", "a://b"),
        ("://a", "", "a"),
        ("a:/b", "https", "a:/b"),
        ("", "https", ""),
    ];
    for (address, scheme, host) in cases {
        let image = image(address, "app");
        assert_eq!((image.scheme.as_str(), image.host.as_str()), (scheme, host));
    }
}

#[test]
fn docker_hub_names_its_own_images() {
    for host in ["docker.io", "index.docker.io", "http://registry-1.docker.io"] {
        assert_eq!(image(host, "alpine").get_repo(), "library/alpine");
        assert_eq!(image(host, "library/alpine").get_repo(), "library/alpine");
        assert_eq!(image(host, "org/app").get_repo(), "org/app");
    }
    assert_eq!(image("quay.io", "alpine").get_repo(), "alpine");
}

#[test]
fn place_of_a_tag() {
    let place = image("http://example.com", "app").place();
    assert_eq!(place.registry, "example.com");
    assert_eq!(place.repository, "app");
    assert_eq!(place.tag.as_deref(), Some("v1"));
    assert_eq!(place.digest, None);
}

#[test]
fn place_of_a_digest() {
    let digest = Digest::try_from_raw("sha256:abcd").unwrap();
    let image =
        RemoteImage::new("example.com", "app".to_string(), ManifestReference::Digest(digest));
    let place = image.clone().place();
    assert_eq!(place.tag, None);
    assert_eq!(place.digest.as_deref(), Some("sha256:abcd"));
}

#[test]
fn reference_by_digest_drops_the_tag() {
    let reference = Reference {
        registry: "r".to_string(),
        repository: "a/b".to_string(),
        tag: Some("t".to_string()),
        digest: None,
    };
    let other = reference.clone().clone_with_digest("sha256:ff".to_string());
    let theirs = oci_client::Reference::with_tag("r".to_string(), "a/b".to_string(), "t".to_string())
        .clone_with_digest("sha256:ff".to_string());
    assert_eq!(other.registry, theirs.registry());
    assert_eq!(other.repository, theirs.repository());
    assert_eq!(other.tag.as_deref(), theirs.tag());
    assert_eq!(other.digest.as_deref(), theirs.digest());
}

#[test]
fn well_formed_digests() {
    let hex = "0123456789abcdef0123456789abcdef0123456789abcdef0123456789abcdef";
    let sha256 = format!("sha256:{}", hex);
    for raw in [sha256.as_str(), "a:b", "sha256+b64u:LCa0a2j_xo_5m0U8HTBBNBNCLXBkg7-g-YpeiGJm564=", "multihash+base58:Qm"] {
        let digest = Digest::try_from_raw(raw).unwrap();
        assert_eq!(digest.as_str(), raw);
        assert_eq!(digest.to_string(), raw);
        assert_eq!(digest.clone().as_str(), raw);
    }
}

#[test]
fn malformed_digests() {
    for raw in ["", ":", "sha256", "sha256:", ":abcd", "SHA256:abcd", "a+:b", "+a:b", "a++b:c", "a:b:c", "a:b c", "sha256:é"] {
        let error = Digest::try_from_raw(raw).unwrap_err();
        assert_eq!(error.raw, raw);
    }
}

#[test]
fn text_is_searched_by_characters() {
    assert!(starts_with("f/docker", "f/"));
    assert!(!starts_with("f", "f/"));
    assert!(starts_with("anything", ""));
    assert!(contains("1.dkr.ecr.eu", ".dkr.ecr."));
    assert!(!contains("dkr.ecr.eu", ".dkr.ecr."));
    assert!(contains("abc", ""));
    assert!(contains("aab", "ab"));
    assert!(equal("é", "é"));
    assert!(!equal("a", "ab"));
    assert_eq!(nth_field("é.b", '.', 0).as_deref(), Some("é"));
    assert_eq!(nth_field("é.b", '.', 1).as_deref(), Some("b"));
    assert_eq!(nth_field("é.b", '.', 2), None);
}
