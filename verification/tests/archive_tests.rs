use pkgbundle::archive::{classify_archive, extension_of, is_supported_archive, ArchiveKind};
use pkgbundle::errors::BuildError;
use pkgbundle::fetch::{is_remote_source, local_source_filename, source_filename};

#[test]
fn classifies_each_codec_by_extension() {
    assert_eq!(classify_archive("pkg.tar.gz").unwrap(), ArchiveKind::Gzip);
    assert_eq!(classify_archive("pkg.tar.xz").unwrap(), ArchiveKind::Xz);
    assert_eq!(classify_archive("pkg.tar.bz2").unwrap(), ArchiveKind::Bzip2);
    assert_eq!(classify_archive("pkg.tar.zst").unwrap(), ArchiveKind::Zstd);
    assert_eq!(classify_archive("pkg.tar").unwrap(), ArchiveKind::Tar);
}

#[test]
fn unknown_extension_is_unsupported() {
    let e = classify_archive("pkg.zip").unwrap_err();
    assert!(matches!(e, BuildError::UnsupportedArchiveFormat(x) if x == "zip"));
}

#[test]
fn extensionless_file_is_unsupported() {
    let e = classify_archive("plainfile").unwrap_err();
    assert!(matches!(e, BuildError::UnsupportedArchiveFormat(x) if x.is_empty()));
}

#[test]
fn extension_is_taken_from_final_component() {
    assert_eq!(extension_of("a.b/file.tar.gz"), "gz");
    assert_eq!(extension_of("a.b/file"), "");
    assert_eq!(extension_of(".hidden"), "");
}

#[test]
fn supported_archive_suffixes() {
    assert!(is_supported_archive("src.tar.gz"));
    assert!(is_supported_archive("src.tar.xz"));
    assert!(is_supported_archive("src.tar.bz2"));
    assert!(is_supported_archive("src.tar.zst"));
    assert!(is_supported_archive("src.tar"));
    assert!(!is_supported_archive("src.zip"));
    assert!(!is_supported_archive("binary"));
}

#[test]
fn remote_sources_are_recognised() {
    assert!(is_remote_source("http://example.org/a.tar.gz"));
    assert!(is_remote_source("https://example.org/a.tar.gz"));
    assert!(!is_remote_source("ftp://example.org/a.tar.gz"));
    assert!(!is_remote_source("local/path.tar.gz"));
}

#[test]
fn url_filename_drops_query() {
    assert_eq!(
        source_filename("https://example.org/dl/app-1.0.tar.gz?token=abc"),
        "app-1.0.tar.gz"
    );
    assert_eq!(source_filename("https://example.org/dl/app.tar.xz"), "app.tar.xz");
    assert_eq!(source_filename("plain.tar"), "plain.tar");
}

#[test]
fn url_naming_no_file_falls_back() {
    assert_eq!(source_filename("https://example.org/dl/"), "downloaded_file");
    assert_eq!(source_filename("https://example.org/dl/?token=abc"), "downloaded_file");
}

#[test]
fn local_sources_keep_their_basename() {
    assert_eq!(local_source_filename("vendor/app.tar.gz"), "app.tar.gz");
    assert_eq!(local_source_filename("app.tar.gz"), "app.tar.gz");
    assert_eq!(local_source_filename("odd?name.tar"), "odd?name.tar");
}
