use std::io::Read;

use pkgbundle::deb::{
    control_text, deb_architecture, deb_build, deb_file_name, debian_binary_text, postrm_text,
    StagedEntry,
};
use pkgbundle::metadata::Metadata;

fn test_metadata() -> Metadata {
    let mut m = Metadata::default();
    m.name = "twincan".to_string();
    m.version = "1.2".to_string();
    m.release = "3".to_string();
    m.maintainer = "Alex Doe".to_string();
    m.email = "alex@example.org".to_string();
    m.description = "A tool that cans twins".to_string();
    m.arch = vec!["x86_64".to_string()];
    m.url = "https://example.org/twincan".to_string();
    m.license = "MIT".to_string();
    m.deb_depends = vec!["libc6".to_string(), "libssl3".to_string()];
    m.conflicts = vec!["tincan".to_string()];
    m.provides = vec!["twincan".to_string()];
    m
}

fn staging() -> Vec<StagedEntry> {
    vec![
        StagedEntry { path: "usr".to_string(), mode: 0o755, is_dir: true, data: Vec::new() },
        StagedEntry { path: "usr/bin".to_string(), mode: 0o755, is_dir: true, data: Vec::new() },
        StagedEntry {
            path: "usr/bin/app".to_string(),
            mode: 0o755,
            is_dir: false,
            data: b"hello".to_vec(),
        },
    ]
}

#[test]
fn architecture_tag_follows_arch_list() {
    assert_eq!(deb_architecture(&vec!["x86_64".to_string()]), "amd64");
    assert_eq!(deb_architecture(&vec!["aarch64".to_string()]), "all");
    assert_eq!(deb_architecture(&Vec::new()), "all");
}

#[test]
fn control_file_has_required_field_order() {
    let m = test_metadata();
    let expected = "Package: twincan\n\
                    Version: 1.2-3\n\
                    Architecture: amd64\n\
                    Maintainer: Alex Doe <alex@example.org>\n\
                    Depends: libc6, libssl3\n\
                    Conflicts: tincan\n\
                    Provides: twincan\n\
                    Section: utils\n\
                    Priority: optional\n\
                    Homepage: https://example.org/twincan\n\
                    Description: A tool that cans twins\n";
    assert_eq!(control_text(&m), expected);
}

#[test]
fn empty_relation_lists_emit_no_fields() {
    let mut m = test_metadata();
    m.deb_depends = Vec::new();
    m.provides = Vec::new();
    let text = control_text(&m);
    assert!(!text.contains("Depends:"));
    assert!(!text.contains("Provides:"));
    assert!(text.contains("Conflicts: tincan\n"));
}

#[test]
fn debian_binary_is_version_two() {
    assert_eq!(debian_binary_text(), "2.0\n");
}

#[test]
fn postrm_is_a_shell_script() {
    assert!(postrm_text().starts_with("#!/bin/sh\n"));
}

#[test]
fn deb_name_follows_convention() {
    assert_eq!(deb_file_name(&test_metadata()), "twincan_1.2-3_amd64.deb");
}

#[test]
fn container_members_come_in_fixed_order() {
    let artifact = deb_build(&test_metadata(), &staging()).unwrap();
    assert_eq!(artifact.file_name, "twincan_1.2-3_amd64.deb");
    let mut archive = ar::Archive::new(&artifact.bytes[..]);
    let mut names: Vec<String> = Vec::new();
    let mut first_contents = String::new();
    while let Some(entry) = archive.next_entry() {
        let mut entry = entry.unwrap();
        let name = String::from_utf8(entry.header().identifier().to_vec()).unwrap();
        if names.is_empty() {
            entry.read_to_string(&mut first_contents).unwrap();
        }
        names.push(name);
    }
    assert_eq!(names, vec!["debian-binary", "control.tar.gz", "data.tar.gz"]);
    assert_eq!(first_contents, "2.0\n");
}

#[test]
fn control_stream_holds_control_md5sums_postrm() {
    let artifact = deb_build(&test_metadata(), &staging()).unwrap();
    let mut archive = ar::Archive::new(&artifact.bytes[..]);
    archive.next_entry().unwrap().unwrap();
    let control_member = archive.next_entry().unwrap().unwrap();
    let gz = flate2::read::GzDecoder::new(control_member);
    let mut tar = tar::Archive::new(gz);
    let mut seen: Vec<(String, String)> = Vec::new();
    for entry in tar.entries().unwrap() {
        let mut entry = entry.unwrap();
        let path = entry.path().unwrap().to_string_lossy().into_owned();
        let mut contents = String::new();
        entry.read_to_string(&mut contents).unwrap();
        seen.push((path, contents));
    }
    assert_eq!(seen.len(), 3);
    assert_eq!(seen[0].0, "control");
    assert_eq!(seen[0].1, control_text(&test_metadata()));
    assert_eq!(seen[1].0, "md5sums");
    assert_eq!(seen[1].1, "5d41402abc4b2a76b9719d911017c592  usr/bin/app\n");
    assert_eq!(seen[2].0, "postrm");
    assert_eq!(seen[2].1, postrm_text());
}

#[test]
fn data_stream_holds_the_staged_tree() {
    let artifact = deb_build(&test_metadata(), &staging()).unwrap();
    let mut archive = ar::Archive::new(&artifact.bytes[..]);
    archive.next_entry().unwrap().unwrap();
    archive.next_entry().unwrap().unwrap();
    let data_member = archive.next_entry().unwrap().unwrap();
    let gz = flate2::read::GzDecoder::new(data_member);
    let mut tar = tar::Archive::new(gz);
    let mut seen: Vec<(String, bool, u32, Vec<u8>)> = Vec::new();
    for entry in tar.entries().unwrap() {
        let mut entry = entry.unwrap();
        let path = entry.path().unwrap().to_string_lossy().into_owned();
        let is_dir = entry.header().entry_type().is_dir();
        let mode = entry.header().mode().unwrap();
        let mut contents = Vec::new();
        entry.read_to_end(&mut contents).unwrap();
        seen.push((path, is_dir, mode, contents));
    }
    assert_eq!(seen.len(), 3);
    assert_eq!(seen[0].0, "usr");
    assert!(seen[0].1);
    assert_eq!(seen[1].0, "usr/bin");
    assert!(seen[1].1);
    assert_eq!(seen[2].0, "usr/bin/app");
    assert!(!seen[2].1);
    assert_eq!(seen[2].2, 0o755);
    assert_eq!(seen[2].3, b"hello".to_vec());
}

#[test]
fn control_paths_never_ship_in_data() {
    let mut entries = staging();
    entries.push(StagedEntry {
        path: "DEBIAN/control".to_string(),
        mode: 0o644,
        is_dir: false,
        data: b"stale".to_vec(),
    });
    entries.push(StagedEntry {
        path: "data.tar.gz".to_string(),
        mode: 0o644,
        is_dir: false,
        data: b"scratch".to_vec(),
    });
    let artifact = deb_build(&test_metadata(), &entries).unwrap();
    let mut archive = ar::Archive::new(&artifact.bytes[..]);
    archive.next_entry().unwrap().unwrap();
    archive.next_entry().unwrap().unwrap();
    let data_member = archive.next_entry().unwrap().unwrap();
    let gz = flate2::read::GzDecoder::new(data_member);
    let mut tar = tar::Archive::new(gz);
    let mut paths: Vec<String> = Vec::new();
    for entry in tar.entries().unwrap() {
        let entry = entry.unwrap();
        paths.push(entry.path().unwrap().to_string_lossy().into_owned());
    }
    assert_eq!(paths, vec!["usr", "usr/bin", "usr/bin/app"]);
}

#[test]
fn emission_is_byte_identical_across_runs() {
    let a1 = deb_build(&test_metadata(), &staging()).unwrap();
    let a2 = deb_build(&test_metadata(), &staging()).unwrap();
    assert_eq!(a1.file_name, a2.file_name);
    assert_eq!(a1.bytes, a2.bytes);
}

#[test]
fn empty_staged_path_is_refused() {
    let entries = vec![StagedEntry {
        path: String::new(),
        mode: 0o644,
        is_dir: false,
        data: b"x".to_vec(),
    }];
    let e = deb_build(&test_metadata(), &entries).unwrap_err();
    assert!(matches!(e, pkgbundle::errors::BuildError::IoError(_)));
}

#[test]
fn parent_directory_staged_path_is_refused() {
    let entries = vec![StagedEntry {
        path: "../escape".to_string(),
        mode: 0o644,
        is_dir: false,
        data: b"x".to_vec(),
    }];
    let e = deb_build(&test_metadata(), &entries).unwrap_err();
    assert!(matches!(e, pkgbundle::errors::BuildError::IoError(_)));
}

#[test]
fn empty_staging_still_emits_a_container() {
    let artifact = deb_build(&test_metadata(), &Vec::new()).unwrap();
    let mut archive = ar::Archive::new(&artifact.bytes[..]);
    let mut names: Vec<String> = Vec::new();
    while let Some(entry) = archive.next_entry() {
        let entry = entry.unwrap();
        names.push(String::from_utf8(entry.header().identifier().to_vec()).unwrap());
    }
    assert_eq!(names, vec!["debian-binary", "control.tar.gz", "data.tar.gz"]);
}
