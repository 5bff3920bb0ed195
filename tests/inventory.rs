use cargo_updater::{
    exit_outcome, format_date, install_arguments, is_newer_version, publication_date, CrateInfo,
    CrateKind, CratesInfoContainer, InfoJson, ListingError, UpdateOutcome,
};

fn answer(newest: &str) -> Option<InfoJson> {
    Some(InfoJson {
        newest_version: Some(newest.to_string()),
        repository: None,
        updated_at: None,
    })
}

fn names(c: &CratesInfoContainer) -> Vec<String> {
    (0..c.len()).map(|i| c.get(i).name().clone()).collect()
}

#[test]
fn registry_line_parses() {
    let c = CratesInfoContainer::new("foo v1.2.3:\n    foo\n");
    assert_eq!(c.len(), 1);
    let k = c.get(0);
    assert_eq!(k.name(), "foo");
    assert_eq!(k.current(), "1.2.3");
    assert!(k.is_from_cratesio());
    assert!(matches!(k.kind(), CrateKind::Cratesio(s) if s.is_empty()));
    assert_eq!(k.kind().full_string(), "");
    assert_eq!(k.online(), &None);
    assert!(!k.is_upgradable());
}

#[test]
fn git_line_parses() {
    let c = CratesInfoContainer::new("bar v0.9.0: (https://example.com/bar):\n    bar\n");
    assert_eq!(c.len(), 1);
    let k = c.get(0);
    assert_eq!(k.name(), "bar");
    assert_eq!(k.current(), "0.9.0");
    assert!(matches!(k.kind(), CrateKind::Git(u) if u == "https://example.com/bar"));
    assert_eq!(k.kind().label(), "git");
    let resolved = c.resolve(vec![answer("9.9.9")]);
    let k = resolved.get(0);
    assert_eq!(k.online(), &Some("-".to_string()));
    assert_eq!(k.updated_at(), &Some("-".to_string()));
    assert!(!k.is_upgradable());
}

#[test]
fn local_line_parses() {
    let c = CratesInfoContainer::new("baz v2.0.0: (/home/user/baz):\n");
    let k = c.get(0);
    assert_eq!(k.current(), "2.0.0");
    assert!(matches!(k.kind(), CrateKind::Local(p) if p == "/home/user/baz"));
    assert_eq!(k.kind().label(), "local");
    let resolved = c.resolve(vec![answer("3.0.0")]);
    assert!(!resolved.get(0).is_upgradable());
    assert!(!resolved.get(0).is_from_cratesio());
}

#[test]
fn cargo_style_source_is_classified() {
    let c = CratesInfoContainer::new("tool v0.1.0 (/src/tool):\n    tool\nweb v1.0.0 (http://h/x#abc):\n");
    assert_eq!(c.len(), 2);
    assert!(matches!(c.get(0).kind(), CrateKind::Local(p) if p == "/src/tool"));
    assert_eq!(c.get(0).current(), "0.1.0");
    assert!(matches!(c.get(1).kind(), CrateKind::Git(u) if u == "http://h/x#abc"));
}

#[test]
fn indented_and_empty_lines_carry_no_record() {
    let text = "a v1.0.0:\n    a\n\tb-bin\n\nb v2.0.0:\r\n    b\r\n";
    let c = CratesInfoContainer::new(text);
    assert_eq!(names(&c), vec!["a".to_string(), "b".to_string()]);
    assert_eq!(c.get(1).current(), "2.0.0");
    assert_eq!(CratesInfoContainer::new("").len(), 0);
}

#[test]
fn line_without_version_has_empty_version() {
    let c = CratesInfoContainer::new("lonely");
    assert_eq!(c.len(), 1);
    assert_eq!(c.get(0).name(), "lonely");
    assert_eq!(c.get(0).current(), "");
    let r = c.resolve(vec![answer("1.0.0")]);
    assert!(!r.get(0).is_upgradable());
}

#[test]
fn version_prefix_and_colons_are_stripped() {
    let c = CratesInfoContainer::new("x vv1.0.0:: extra");
    assert_eq!(c.get(0).current(), "1.0.0");
    assert!(matches!(c.get(0).kind(), CrateKind::Local(p) if p == "extra"));
}

#[test]
fn newer_registry_version_is_upgradable() {
    let c = CratesInfoContainer::new("foo v1.2.3:\n");
    let r = c.resolve(vec![answer("1.3.0")]);
    assert!(r.get(0).is_upgradable());
    assert_eq!(r.get(0).online(), &Some("1.3.0".to_string()));
}

#[test]
fn equal_or_older_version_is_not_upgradable() {
    for newest in ["1.2.3", "1.2.2", "0.9.9", "1.2.3-rc.1"] {
        let c = CratesInfoContainer::new("foo v1.2.3:\n");
        let r = c.resolve(vec![answer(newest)]);
        assert!(!r.get(0).is_upgradable(), "{newest}");
    }
}

#[test]
fn malformed_versions_are_not_upgradable() {
    let c = CratesInfoContainer::new("foo vnot-a-version:\n");
    let r = c.resolve(vec![answer("2.0.0")]);
    assert!(!r.get(0).is_upgradable());
    let c = CratesInfoContainer::new("foo v1.0.0:\n");
    let r = c.resolve(vec![answer("latest")]);
    assert!(!r.get(0).is_upgradable());
}

#[test]
fn semantic_version_ordering() {
    assert!(is_newer_version("1.0.0-alpha", "1.0.0"));
    assert!(is_newer_version("1.0.0-alpha", "1.0.0-alpha.1"));
    assert!(is_newer_version("1.0.0-2", "1.0.0-10"));
    assert!(is_newer_version("1.9.0", "1.10.0"));
    assert!(!is_newer_version("1.10.0", "1.9.0"));
    assert!(!is_newer_version("1.0.0", "1.0.0"));
    assert!(!is_newer_version("", "1.0.0"));
    assert!(!is_newer_version("1.0.0", "-"));
}

#[test]
fn one_failed_lookup_keeps_all_records() {
    let c = CratesInfoContainer::new("a v1.0.0:\nb v1.0.0:\nc v1.0.0:\n");
    let r = c.resolve(vec![answer("1.1.0"), None, answer("1.0.0")]);
    assert_eq!(r.len(), 3);
    assert_eq!(names(&r), vec!["a".to_string(), "b".to_string(), "c".to_string()]);
    assert!(r.get(0).is_upgradable());
    assert_eq!(r.get(1).online(), &None);
    assert!(!r.get(1).is_upgradable());
    assert!(!r.get(2).is_upgradable());
    let v: Vec<String> = r.upgradable_names();
    assert_eq!(v, vec!["a".to_string()]);
}

#[test]
fn answer_without_newest_version_leaves_record() {
    let c = CratesInfoContainer::new("a v1.0.0:\n");
    let empty = InfoJson { newest_version: None, repository: Some("r".to_string()), updated_at: None };
    let r = c.resolve(vec![Some(empty)]);
    assert_eq!(r.get(0).online(), &None);
    assert_eq!(r.get(0).kind().full_string(), "");
}

#[test]
fn resolution_fills_repository_and_date() {
    let c = CratesInfoContainer::new("a v1.0.0:\nb v1.0.0:\n");
    let full = InfoJson {
        newest_version: Some("1.0.1".to_string()),
        repository: Some("https://github.com/o/a".to_string()),
        updated_at: Some("2023-09-15T18:33:03.398597+00:00".to_string()),
    };
    let bare = InfoJson {
        newest_version: Some("1.0.0".to_string()),
        repository: None,
        updated_at: Some("yesterday".to_string()),
    };
    let r = c.resolve(vec![Some(full), Some(bare)]);
    assert_eq!(r.get(0).kind().full_string(), "https://github.com/o/a");
    assert_eq!(r.get(0).kind().label(), "crates.io");
    assert_eq!(r.get(0).updated_at(), &Some("15 September 2023".to_string()));
    assert_eq!(r.get(1).kind().full_string(), "-");
    assert_eq!(r.get(1).updated_at(), &Some("-".to_string()));
}

#[test]
fn dates_are_written_day_month_year() {
    assert_eq!(format_date(2024, 3, 7), "7 March 2024");
    assert_eq!(format_date(1999, 12, 31), "31 December 1999");
    assert_eq!(format_date(-44, 1, 15), "15 January -44");
    assert_eq!(publication_date("2020-02-29T00:00:00Z"), Some("29 February 2020".to_string()));
    assert_eq!(publication_date("not a date"), None);
    assert_eq!(publication_date(""), None);
}

#[test]
fn nothing_to_update() {
    let c = CratesInfoContainer::new("a v1.0.0:\nb v1.0.0 (/x):\n");
    let r = c.resolve(vec![answer("1.0.0"), None]);
    assert!(r.upgradable_names().is_empty());
    assert!(r.update_command(false).is_none());
    assert!(r.update_command(true).is_none());
}

#[test]
fn update_names_only_upgradable_crates() {
    let c = CratesInfoContainer::new("a v1.0.0:\nb v1.0.0:\ng v0.1.0 (https://g/g):\nc v0.5.0:\n");
    let r = c.resolve(vec![answer("2.0.0"), answer("1.0.0"), None, answer("0.6.0")]);
    let args = r.update_command(false).unwrap();
    assert_eq!(args, vec!["install", "--force", "a", "c"]);
    let locked = r.update_command(true).unwrap();
    assert_eq!(locked, vec!["install", "--force", "--locked", "a", "c"]);
    assert_eq!(r.skipped_names(), vec!["g".to_string()]);
}

#[test]
fn install_arguments_keep_names() {
    let args = install_arguments(vec!["x".to_string(), "y".to_string()], true);
    assert_eq!(args, vec!["install", "--force", "--locked", "x", "y"]);
    assert_eq!(install_arguments(vec![], false), vec!["install", "--force"]);
}

#[test]
fn sorted_by_name_orders_records() {
    let c = CratesInfoContainer::new("zeta v1.0.0:\nalpha v1.0.0:\nmid v1.0.0:\nAlpha v1.0.0:\n");
    let s = c.sorted_by_name();
    assert_eq!(names(&s), vec!["Alpha", "alpha", "mid", "zeta"]);
}

#[test]
fn listing_outcome_is_checked() {
    assert!(matches!(
        CratesInfoContainer::maybe_new(false, b"a v1.0.0:\n"),
        Err(ListingError::CommandFailed)
    ));
    assert!(matches!(
        CratesInfoContainer::maybe_new(true, &[0x61, 0xff, 0x0a]),
        Err(ListingError::NotText)
    ));
    let c = CratesInfoContainer::maybe_new(true, "é v1.0.0:\n".as_bytes()).ok().unwrap();
    assert_eq!(c.get(0).name(), "é");
}

#[test]
fn exit_status_outcomes() {
    assert!(matches!(exit_outcome(true, Some(0)), UpdateOutcome::Succeeded));
    assert!(matches!(exit_outcome(false, Some(101)), UpdateOutcome::ExitCode(101)));
    assert!(matches!(exit_outcome(false, None), UpdateOutcome::Failed));
}

#[test]
fn crate_info_builder() {
    let k = CrateInfo::new("n".to_string(), "1.0.0".to_string(), CrateKind::Cratesio(String::new()));
    assert_eq!(k.name(), "n");
    assert!(k.is_from_cratesio());
    let r = k.resolved(answer("1.0.1"));
    assert!(r.is_upgradable());
}
