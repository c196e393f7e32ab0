use pkgbundle::errors::{BuildError, ParseErrorKind, RequiredField};
use pkgbundle::hashes::sha256_hash;
use pkgbundle::metadata::{extract_metadata, parse_array, Metadata};

fn full_description() -> String {
    [
        "# build description",
        "name: twincan",
        "version: 1.2",
        "release: 3",
        "maintainer: Alex Doe",
        "email: alex@example.org",
        "description: A tool that cans twins",
        "arch: [x86_64, aarch64]",
        "url: https://example.org/twincan",
        "license: MIT",
        "alpm_depends: [glibc]",
        "deb_depends: [libc6, libssl3]",
        "rpm_depends: [glibc]",
        "provides: [twincan]",
        "conflicts: [tincan]",
        "sources: [twincan.tar.gz]",
        "sha256sums: [SKIP]",
        "alpm_build_env: [color, check]",
        "appimage_exec: \"/usr/bin/twincan\"",
        "",
        "package: {",
        "    install -m755 \"twincan\" to \"/usr/bin/\"",
        "    # a comment inside the block",
        "    install \"twincan.conf\" to \"/etc/twincan.conf\"",
        "}",
        "appimage_icon: {",
        "    install \"icon.png\"",
        "}",
        "appimage_desktop: {",
        "    install \"twincan.desktop\"",
        "}",
    ]
    .join("\n")
}

#[test]
fn parses_every_field_exactly() {
    let text = full_description();
    let m = extract_metadata(&text).unwrap();
    assert_eq!(m.name, "twincan");
    assert_eq!(m.version, "1.2");
    assert_eq!(m.release, "3");
    assert_eq!(m.maintainer, "Alex Doe");
    assert_eq!(m.email, "alex@example.org");
    assert_eq!(m.description, "A tool that cans twins");
    assert_eq!(m.arch, vec!["x86_64".to_string(), "aarch64".to_string()]);
    assert_eq!(m.url, "https://example.org/twincan");
    assert_eq!(m.license, "MIT");
    assert_eq!(m.alpm_depends, vec!["glibc".to_string()]);
    assert_eq!(m.deb_depends, vec!["libc6".to_string(), "libssl3".to_string()]);
    assert_eq!(m.rpm_depends, vec!["glibc".to_string()]);
    assert_eq!(m.provides, vec!["twincan".to_string()]);
    assert_eq!(m.conflicts, vec!["tincan".to_string()]);
    assert_eq!(m.sources, vec!["twincan.tar.gz".to_string()]);
    assert_eq!(m.sha256sums, vec!["SKIP".to_string()]);
    assert_eq!(m.alpm_build_env, vec!["color".to_string(), "check".to_string()]);
    assert_eq!(m.appimage_exec, "/usr/bin/twincan");
    assert_eq!(
        m.package_instructions,
        vec![
            "install -m755 \"twincan\" to \"/usr/bin/\"".to_string(),
            "install \"twincan.conf\" to \"/etc/twincan.conf\"".to_string(),
        ]
    );
    assert_eq!(m.appimage_icon_instructions, vec!["install \"icon.png\"".to_string()]);
    assert_eq!(
        m.appimage_desktop_instructions,
        vec!["install \"twincan.desktop\"".to_string()]
    );
}

#[test]
fn stamps_digest_of_raw_text() {
    let text = full_description();
    let m = extract_metadata(&text).unwrap();
    assert_eq!(m.pkgbuild_sha256sum, sha256_hash(text.as_bytes()));
    assert_eq!(m.pkgbuild_sha256sum.len(), 64);
}

#[test]
fn unknown_keys_are_ignored() {
    let text = full_description() + "\nfuture_key: some value\n";
    let m = extract_metadata(&text).unwrap();
    assert_eq!(m.name, "twincan");
}

#[test]
fn missing_name_is_reported() {
    let text = full_description().replace("name: twincan", "# no name");
    let e = extract_metadata(&text).unwrap_err();
    assert!(matches!(e, BuildError::ValidationError(RequiredField::Name)));
}

#[test]
fn missing_version_is_reported() {
    let text = full_description().replace("version: 1.2", "");
    let e = extract_metadata(&text).unwrap_err();
    assert!(matches!(e, BuildError::ValidationError(RequiredField::Version)));
}

#[test]
fn missing_checksums_is_reported() {
    let text = full_description().replace("sha256sums: [SKIP]", "");
    let e = extract_metadata(&text).unwrap_err();
    assert!(matches!(e, BuildError::ValidationError(RequiredField::Checksums)));
}

#[test]
fn first_missing_field_wins() {
    let text = full_description()
        .replace("version: 1.2", "")
        .replace("license: MIT", "");
    let e = extract_metadata(&text).unwrap_err();
    assert!(matches!(e, BuildError::ValidationError(RequiredField::Version)));
}

#[test]
fn empty_scalar_counts_as_missing() {
    let text = full_description().replace("release: 3", "release:");
    let e = extract_metadata(&text).unwrap_err();
    assert!(matches!(e, BuildError::ValidationError(RequiredField::Release)));
}

#[test]
fn unterminated_block_is_a_parse_error() {
    let text = full_description() + "\nextra: {\n    install \"x\"\n";
    let e = extract_metadata(&text).unwrap_err();
    assert!(matches!(
        e,
        BuildError::ParseError(ParseErrorKind::UnterminatedBlock)
    ));
}

#[test]
fn colonless_line_is_a_parse_error() {
    let text = full_description() + "\nthis line has no separator\n";
    let e = extract_metadata(&text).unwrap_err();
    assert!(matches!(e, BuildError::ParseError(ParseErrorKind::MalformedLine)));
}

#[test]
fn scalar_value_may_contain_colons() {
    let text = full_description().replace(
        "url: https://example.org/twincan",
        "url: https://example.org:8443/twincan",
    );
    let m = extract_metadata(&text).unwrap();
    assert_eq!(m.url, "https://example.org:8443/twincan");
}

#[test]
fn parse_array_strips_quotes_and_space() {
    let v = parse_array("[a, b , \"c\"]");
    assert_eq!(v, vec!["a".to_string(), "b".to_string(), "c".to_string()]);
}

#[test]
fn parse_array_drops_empty_elements() {
    let v = parse_array("[a, , b,]");
    assert_eq!(v, vec!["a".to_string(), "b".to_string()]);
}

#[test]
fn parse_array_of_empty_brackets_is_empty() {
    let v = parse_array("[]");
    assert!(v.is_empty());
}

#[test]
fn default_metadata_has_build_env_options() {
    let m = Metadata::default();
    assert_eq!(
        m.alpm_build_env,
        vec![
            "!distcc".to_string(),
            "color".to_string(),
            "!ccache".to_string(),
            "check".to_string(),
            "!sign".to_string(),
        ]
    );
    assert!(m.name.is_empty());
    assert!(m.sources.is_empty());
}

#[test]
fn required_fields_name_their_description_keys() {
    assert_eq!(RequiredField::Name.key_name(), "name");
    assert_eq!(RequiredField::Url.key_name(), "url");
    assert_eq!(RequiredField::Checksums.key_name(), "checksums");
    assert_eq!(RequiredField::AppimageExec.key_name(), "appimage_exec");
}

#[test]
fn missing_url_is_reported() {
    let text = full_description().replace("url: https://example.org/twincan", "");
    let e = extract_metadata(&text).unwrap_err();
    assert!(matches!(e, BuildError::ValidationError(RequiredField::Url)));
}

#[test]
fn missing_url_wins_over_empty_optional_lists() {
    let text = full_description()
        .replace("url: https://example.org/twincan", "")
        .replace("arch: [x86_64, aarch64]", "");
    let e = extract_metadata(&text).unwrap_err();
    assert!(matches!(e, BuildError::ValidationError(RequiredField::Url)));
}

#[test]
fn empty_relation_and_source_lists_are_valid() {
    let text = full_description()
        .replace("arch: [x86_64, aarch64]", "")
        .replace("alpm_depends: [glibc]", "")
        .replace("deb_depends: [libc6, libssl3]", "")
        .replace("rpm_depends: [glibc]", "")
        .replace("provides: [twincan]", "")
        .replace("conflicts: [tincan]", "")
        .replace("sources: [twincan.tar.gz]", "");
    let m = extract_metadata(&text).unwrap();
    assert!(m.arch.is_empty());
    assert!(m.deb_depends.is_empty());
    assert!(m.provides.is_empty());
    assert!(m.conflicts.is_empty());
    assert!(m.sources.is_empty());
}
