use pkgbundle::alpm::{build_info_text, package_info_text, primary_arch};
use pkgbundle::appimage::{
    apprun_text, appimage_base_name, appimage_file_name, validate_appimage,
};
use pkgbundle::errors::{BuildError, RequiredField};
use pkgbundle::metadata::Metadata;
use pkgbundle::numbers::u64_to_string;
use pkgbundle::rpm::{rpm_architecture, rpm_file_name};

fn test_metadata() -> Metadata {
    let mut m = Metadata::default();
    m.name = "twincan".to_string();
    m.version = "1.2".to_string();
    m.release = "3".to_string();
    m.maintainer = "Alex Doe".to_string();
    m.email = "alex@example.org".to_string();
    m.description = "A tool that cans twins".to_string();
    m.arch = vec!["x86_64".to_string()];
    m.url = "https://example.org/twincan".to_string();
    m.license = "MIT".to_string();
    m.alpm_depends = vec!["glibc".to_string(), "zlib".to_string()];
    m.alpm_build_env = vec!["color".to_string(), "check".to_string()];
    m.conflicts = vec!["tincan".to_string()];
    m.provides = vec!["twincan".to_string()];
    m.pkgbuild_sha256sum = "abc123".to_string();
    m
}

#[test]
fn decimal_rendering_is_exact() {
    assert_eq!(u64_to_string(0), "0");
    assert_eq!(u64_to_string(7), "7");
    assert_eq!(u64_to_string(42), "42");
    assert_eq!(u64_to_string(1700000000), "1700000000");
    assert_eq!(u64_to_string(u64::MAX), "18446744073709551615");
}

#[test]
fn build_info_record_is_exact() {
    let m = test_metadata();
    let expected = "format = 2\n\
                    pkgname = twincan\n\
                    pkgbase = twincan\n\
                    pkgver = 1.2-3\n\
                    pkgarch = x86_64\n\
                    pkgbuild_sha256sum = abc123\n\
                    packager = Alex Doe <alex@example.org>\n\
                    builddate = 1700000000\n\
                    builddir = /build\n\
                    startdir = /startdir/\n\
                    buildtool = devtools\n\
                    buildtoolver = 1:1.2.1-1-any\n\
                    buildenv = color\n\
                    buildenv = check\n\
                    installed = bar-1.2.3-1-any\n";
    assert_eq!(build_info_text(&m, 1700000000), expected);
}

#[test]
fn package_info_record_is_exact() {
    let m = test_metadata();
    let expected = "pkgname = twincan\n\
                    pkgbase = twincan\n\
                    xdata = pkgtype=pkg\n\
                    pkgver = 1.2-3\n\
                    pkgdesc = A tool that cans twins\n\
                    url = https://example.org/twincan\n\
                    builddate = 1700000000\n\
                    packager = Alex Doe <alex@example.org>\n\
                    size = 4096\n\
                    arch = x86_64\n\
                    license = MIT\n\
                    conflict = tincan\n\
                    provides = twincan\n\
                    depend = glibc\n\
                    depend = zlib\n";
    assert_eq!(package_info_text(&m, 1700000000, 4096), expected);
}

#[test]
fn primary_arch_defaults_to_any() {
    let mut m = test_metadata();
    assert_eq!(primary_arch(&m), "x86_64");
    m.arch = Vec::new();
    assert_eq!(primary_arch(&m), "any");
}

#[test]
fn rpm_names_follow_convention() {
    let m = test_metadata();
    assert_eq!(rpm_architecture(&m.arch), "x86_64");
    assert_eq!(rpm_architecture(&vec!["armv7".to_string()]), "noarch");
    assert_eq!(rpm_file_name(&m), "twincan-1.2-3.x86_64.rpm");
}

#[test]
fn appimage_validation_names_first_missing_field() {
    let mut m = test_metadata();
    let e = validate_appimage(&m).unwrap_err();
    assert!(matches!(
        e,
        BuildError::ValidationError(RequiredField::AppimageExec)
    ));
    m.appimage_exec = "/usr/bin/twincan".to_string();
    let e = validate_appimage(&m).unwrap_err();
    assert!(matches!(
        e,
        BuildError::ValidationError(RequiredField::AppimageDesktop)
    ));
    m.appimage_desktop_instructions = vec!["install \"t.desktop\"".to_string()];
    let e = validate_appimage(&m).unwrap_err();
    assert!(matches!(
        e,
        BuildError::ValidationError(RequiredField::AppimageIcon)
    ));
    m.appimage_icon_instructions = vec!["install \"icon.png\"".to_string()];
    assert!(validate_appimage(&m).is_ok());
}

#[test]
fn apprun_script_embeds_the_executable_path() {
    let script = apprun_text("/usr/bin/twincan");
    let expected = "#!/bin/bash\nHERE=\"$(dirname \"$(readlink -f \"$0\")\")\"\nexec \"$HERE/usr/bin/twincan\" \"$@\"\n";
    assert_eq!(script, expected);
}

#[test]
fn appimage_names_follow_convention() {
    let m = test_metadata();
    assert_eq!(appimage_base_name(&m), "twincan-1.2-3-x86_64");
    assert_eq!(appimage_file_name(&m), "twincan-1.2-3-x86_64.AppImage");
}
