use cli_kit::unit_section::{
    has_valid_flags, lookup_flag, lookup_text, parse_unit_section, IniSection, IniValue, UnitError, UnitSection,
};

fn value(key: &str, value: Option<&str>) -> IniValue {
    IniValue { key: key.to_string(), value: value.map(|text| text.to_string()) }
}

fn section(name: &str, values: Vec<IniValue>) -> IniSection {
    IniSection { name: name.to_string(), values }
}

#[test]
fn a_file_without_a_unit_section_is_an_error() {
    let conf = vec![section("service", vec![value("type", Some("notify"))])];
    assert!(has_valid_flags(&conf));
    match parse_unit_section(&conf) {
        Err(error) => {
            assert_eq!(error, UnitError::MissingUnitSection);
            assert_eq!(error.message(), "Missing 'Unit' section");
        }
        Ok(unit) => panic!("expected an error, got {:?}", unit),
    }
    assert!(parse_unit_section(&Vec::new()).is_err());
}

#[test]
fn settings_are_picked_by_key() {
    let conf = vec![
        section("service", vec![value("description", Some("not this one"))]),
        section(
            "unit",
            vec![
                value("description", Some("OpenBSD Secure Shell server")),
                value("documentation", Some("man:sshd(8) man:sshd_config(5)")),
                value("after", Some("network.target auditd.service")),
                value("wants", None),
                value("allow_isolate", Some("true")),
                value("default_dependencies", Some("false")),
                value("success_action", Some("none")),
            ],
        ),
    ];
    assert!(has_valid_flags(&conf));
    let unit = parse_unit_section(&conf).unwrap();
    assert_eq!(unit.description.as_deref(), Some("OpenBSD Secure Shell server"));
    assert_eq!(unit.documentation.as_deref(), Some("man:sshd(8) man:sshd_config(5)"));
    assert_eq!(unit.after.as_deref(), Some("network.target auditd.service"));
    assert_eq!(unit.wants, None);
    assert_eq!(unit.requires, None);
    assert_eq!(unit.before, None);
    assert_eq!(unit.allow_isolate, Some(true));
    assert_eq!(unit.default_dependencies, Some(false));
    assert_eq!(unit.ignore_on_isolate, None);
    assert_eq!(unit.success_action.as_deref(), Some("none"));
}

#[test]
fn the_first_unit_section_and_the_first_key_count() {
    let conf = vec![
        section("unit", vec![value("wants", Some("first")), value("wants", Some("second"))]),
        section("unit", vec![value("wants", Some("third")), value("before", Some("x"))]),
    ];
    let unit = parse_unit_section(&conf).unwrap();
    assert_eq!(unit.wants.as_deref(), Some("first"));
    assert_eq!(unit.before, None);
}

#[test]
fn flags_that_cannot_be_read_are_found_before_parsing() {
    let bad = vec![section("unit", vec![value("refuse_manual_stop", Some("yes"))])];
    assert!(!has_valid_flags(&bad));
    let upper = vec![section("unit", vec![value("allow_isolate", Some("True"))])];
    assert!(!has_valid_flags(&upper));
    let elsewhere = vec![section("other", vec![value("allow_isolate", Some("yes"))])];
    assert!(has_valid_flags(&elsewhere));
    let bare = vec![section("unit", vec![value("allow_isolate", None)])];
    assert!(has_valid_flags(&bare));
    assert_eq!(parse_unit_section(&bare).unwrap().allow_isolate, None);
}

#[test]
fn lookups_tell_a_missing_key_from_nothing() {
    let values = vec![value("a", Some("1")), value("b", None), value("flag", Some("false"))];
    assert_eq!(lookup_text(&values, "a").as_deref(), Some("1"));
    assert_eq!(lookup_text(&values, "b"), None);
    assert_eq!(lookup_text(&values, "c"), None);
    assert_eq!(lookup_flag(&values, "flag"), Some(false));
    assert_eq!(lookup_flag(&values, "c"), None);
}

#[test]
fn an_empty_section_shows_none_everywhere() {
    let text = UnitSection::default().to_text();
    let expected = "Description: None\nDocumentation: None\nWants: None\nRequires: None\nRequisite: None\n\
BindsTo: None\nPartOf: None\nUpholds: None\nConflicts: None\nBefore: None\nAfter: None\nOnFailure: None\n\
OnSuccess: None\nPropagatesReloadTo: None\nReloadPropagatedFrom: None\nPropagatesStopTo: None\n\
StopPropagatedFrom: None\nJoinsNamespaceOf: None\nRequiresMountsFor: None\nOnFailureJobMode: None\n\
IgnoreOnIsolate: None\nStopWhenUnneeded: None\nRefuseManualStart: None\nRefuseManualStop: None\n\
AllowIsolate: None\nDefaultDependencies: None\nCollectMode: None\nFailureAction: None\nSuccessAction: None\n";
    assert_eq!(text, expected);
}

#[test]
fn settings_are_shown_line_by_line() {
    let conf = vec![section(
        "unit",
        vec![
            value("description", Some("A service")),
            value("requires", Some("network.target")),
            value("ignore_on_isolate", Some("true")),
            value("refuse_manual_start", Some("false")),
            value("collect_mode", Some("inactive")),
        ],
    )];
    let text = parse_unit_section(&conf).unwrap().to_text();
    let lines: Vec<&str> = text.lines().collect();
    assert_eq!(lines.len(), 29);
    assert_eq!(lines[0], "Description: A service");
    assert_eq!(lines[1], "Documentation: None");
    assert_eq!(lines[3], "Requires: network.target");
    assert_eq!(lines[20], "IgnoreOnIsolate: true");
    assert_eq!(lines[21], "StopWhenUnneeded: None");
    assert_eq!(lines[22], "RefuseManualStart: false");
    assert_eq!(lines[26], "CollectMode: inactive");
    assert_eq!(lines[28], "SuccessAction: None");
    assert!(text.ends_with("SuccessAction: None\n"));
}
