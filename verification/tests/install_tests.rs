use pkgbundle::errors::{BuildError, ParseErrorKind};
use pkgbundle::install::{
    dest_stays_inside, parse_install_directive, parse_instruction_block, plan_install,
    resolve_dest,
};

#[test]
fn directory_destination_appends_basename() {
    let d = parse_install_directive("install -m644 \"app\" to \"/usr/bin/\"", false)
        .unwrap()
        .unwrap();
    assert_eq!(d.mode, 0o644);
    assert_eq!(d.source, "app");
    assert_eq!(d.dest, "/usr/bin/");
    let op = plan_install(&d, true, false).unwrap();
    assert_eq!(op.dest_rel, "usr/bin/app");
    assert_eq!(op.mode, 0o644);
    assert_eq!(op.source, "app");
}

#[test]
fn literal_file_destination_keeps_exact_path() {
    let d = parse_install_directive("install \"cfg.json\" to \"/etc/app.conf\"", false)
        .unwrap()
        .unwrap();
    assert_eq!(d.mode, 0o644);
    let op = plan_install(&d, true, false).unwrap();
    assert_eq!(op.dest_rel, "etc/app.conf");
    assert_eq!(op.mode, 0o644);
}

#[test]
fn missing_source_is_source_not_found() {
    let d = parse_install_directive("install -m755 \"gone\" to \"/usr/bin/\"", false)
        .unwrap()
        .unwrap();
    let e = plan_install(&d, false, false).unwrap_err();
    assert!(matches!(e, BuildError::SourceNotFound(s) if s == "gone"));
}

#[test]
fn directory_source_is_rejected() {
    let d = parse_install_directive("install \"srcdir\" to \"/usr/share/\"", false)
        .unwrap()
        .unwrap();
    let e = plan_install(&d, true, true).unwrap_err();
    assert!(matches!(e, BuildError::SourceIsDirectory(s) if s == "srcdir"));
}

#[test]
fn explicit_mode_is_parsed_as_octal() {
    let d = parse_install_directive("install -m755 \"app\" to \"/usr/bin/\"", false)
        .unwrap()
        .unwrap();
    assert_eq!(d.mode, 0o755);
}

#[test]
fn invalid_mode_is_malformed_directive() {
    let e = parse_install_directive("install -m7zz \"app\" to \"/usr/bin/\"", false).unwrap_err();
    assert!(matches!(
        e,
        BuildError::ParseError(ParseErrorKind::MalformedDirective)
    ));
}

#[test]
fn non_install_line_is_skipped() {
    assert!(parse_install_directive("echo hello", false).unwrap().is_none());
    assert!(parse_install_directive("", false).unwrap().is_none());
}

#[test]
fn package_directive_without_destination_is_skipped() {
    assert!(parse_install_directive("install \"app\"", false).unwrap().is_none());
}

#[test]
fn icon_directive_without_destination_goes_to_root() {
    let d = parse_install_directive("install \"icon.png\"", true).unwrap().unwrap();
    assert_eq!(d.dest, "/");
    let op = plan_install(&d, true, false).unwrap();
    assert_eq!(op.dest_rel, "icon.png");
}

#[test]
fn extensionless_destination_is_directory_like() {
    assert_eq!(resolve_dest("/usr/share/doc", "README"), "usr/share/doc/README");
    assert_eq!(resolve_dest("/opt/app.d/conf.toml", "conf.toml"), "opt/app.d/conf.toml");
}

#[test]
fn only_one_leading_separator_is_stripped() {
    assert_eq!(resolve_dest("//tmp/x.txt", "x.txt"), "/tmp/x.txt");
}

#[test]
fn source_path_contributes_its_basename() {
    assert_eq!(resolve_dest("/usr/bin/", "build/out/app"), "usr/bin/app");
}

#[test]
fn instruction_block_preserves_order() {
    let lines = vec![
        "install -m755 \"app\" to \"/usr/bin/\"".to_string(),
        "# comment".to_string(),
        "install \"app.conf\" to \"/etc/app.conf\"".to_string(),
    ];
    let ds = parse_instruction_block(&lines, false).unwrap();
    assert_eq!(ds.len(), 2);
    assert_eq!(ds[0].source, "app");
    assert_eq!(ds[1].source, "app.conf");
}

#[test]
fn instruction_block_stops_at_first_malformed_line() {
    let lines = vec![
        "install -m99 \"app\" to \"/usr/bin/\"".to_string(),
        "install \"app.conf\" to \"/etc/app.conf\"".to_string(),
    ];
    let e = parse_instruction_block(&lines, false).unwrap_err();
    assert!(matches!(
        e,
        BuildError::ParseError(ParseErrorKind::MalformedDirective)
    ));
}

#[test]
fn staging_decisions_are_reproducible() {
    let line = "install -m644 \"app\" to \"/usr/lib/app/\"";
    let d1 = parse_install_directive(line, false).unwrap().unwrap();
    let d2 = parse_install_directive(line, false).unwrap().unwrap();
    assert_eq!(d1.mode, d2.mode);
    assert_eq!(d1.source, d2.source);
    assert_eq!(d1.dest, d2.dest);
    let o1 = plan_install(&d1, true, false).unwrap();
    let o2 = plan_install(&d2, true, false).unwrap();
    assert_eq!(o1.dest_rel, o2.dest_rel);
    assert_eq!(o1.mode, o2.mode);
}

#[test]
fn overlong_mode_is_malformed() {
    let e = parse_install_directive("install -m77777777777777 \"app\" to \"/usr/bin/\"", false)
        .unwrap_err();
    assert!(matches!(
        e,
        BuildError::ParseError(ParseErrorKind::MalformedDirective)
    ));
}

#[test]
fn destinations_inside_the_root_are_accepted() {
    assert!(dest_stays_inside("usr/bin/app"));
    assert!(dest_stays_inside("etc/app.conf"));
    assert!(dest_stays_inside("..hidden/notes"));
    assert!(dest_stays_inside(""));
}

#[test]
fn escaping_destinations_are_rejected() {
    assert!(!dest_stays_inside("/etc/app.conf"));
    assert!(!dest_stays_inside("../outside"));
    assert!(!dest_stays_inside("usr/../../outside"));
    assert!(!dest_stays_inside("usr/bin/.."));
}
