use snova::template::{parse_template_groups, GroupName, GroupNameType, TemplateError};

fn fixed(name: &str) -> GroupName {
    GroupName { name: name.into(), group_type: GroupNameType::Fixed }
}

fn input(name: &str, optional: bool) -> GroupName {
    GroupName { name: name.into(), group_type: GroupNameType::UserInput { optional } }
}

#[test]
fn parse_template_groups_grep() {
    let template = "grep [_OPTIONS_] _PATTERN_ _PATH_";
    let names = parse_template_groups(template);
    assert!(names.is_ok(), "No errors");
    assert_eq!(
        vec![
            GroupName { name: "grep ".into(), group_type: GroupNameType::Fixed },
            GroupName { name: "OPTIONS".into(), group_type: GroupNameType::UserInput { optional: true } },
            GroupName { name: " ".into(), group_type: GroupNameType::Fixed },
            GroupName { name: "PATTERN".into(), group_type: GroupNameType::UserInput { optional: false } },
            GroupName { name: " ".into(), group_type: GroupNameType::Fixed },
            GroupName { name: "PATH".into(), group_type: GroupNameType::UserInput { optional: false } },
        ],
        names.ok().unwrap()
    );
}

#[test]
fn parse_template_groups_git_email() {
    let template = "git config [_OPTIONS_] user.email _EMAIL_";
    let names = parse_template_groups(template);
    assert!(names.is_ok(), "Parse failed: {:?}", names.err());
    assert_eq!(
        vec![
            GroupName { name: "git config ".into(), group_type: GroupNameType::Fixed },
            GroupName { name: "OPTIONS".into(), group_type: GroupNameType::UserInput { optional: true } },
            GroupName { name: " user.email ".into(), group_type: GroupNameType::Fixed },
            GroupName { name: "EMAIL".into(), group_type: GroupNameType::UserInput { optional: false } },
        ],
        names.ok().unwrap()
    );
}

#[test]
fn parse_template_groups_flags() {
    let template = "*-A*_NUM_";
    let names = parse_template_groups(template);
    assert!(names.is_ok(), "Parse failed: {:?}", names.err());
    assert_eq!(
        vec![
            GroupName { name: "-A".into(), group_type: GroupNameType::Fixed },
            GroupName { name: "NUM".into(), group_type: GroupNameType::UserInput { optional: false } },
        ],
        names.ok().unwrap()
    );
}

#[test]
fn parse_template_groups_curl() {
    let template = "curl -XPOST -d 'client\\_id=key&client\\_secret=secret' http://localhost?grant=client\\_credentials";
    let names = parse_template_groups(template);
    assert!(names.is_ok(), "Parse failed: {:?}", names.err());
    assert_eq!(
        vec![GroupName {
            name: "curl -XPOST -d 'client_id=key&client_secret=secret' http://localhost?grant=client_credentials".into(),
            group_type: GroupNameType::Fixed,
        }],
        names.ok().unwrap()
    );
}

#[test]
fn parse_template_groups_err() {
    let template = "grep _PATH";
    let names = parse_template_groups(template);
    assert!(names.is_err(), "Groups should have an error");
    let err_str = names.err().unwrap().message();
    assert_eq!("Group 'PATH' is not closed", err_str);
}

#[test]
fn escaped_underscore_inside_group_name() {
    let names = parse_template_groups("run _MY\\_VAR_").unwrap();
    assert_eq!(vec![fixed("run "), input("MY_VAR", false)], names);
}

#[test]
fn unmatched_closing_bracket_is_refused() {
    let err = parse_template_groups("grep ]").err().unwrap();
    assert!(matches!(err, TemplateError::UnmatchedBracket(_)));
    assert_eq!("Unexpected ']' in group 'grep '", err.message());
}

#[test]
fn empty_template_has_no_spans() {
    assert_eq!(Vec::<GroupName>::new(), parse_template_groups("").unwrap());
    assert_eq!(Vec::<GroupName>::new(), parse_template_groups("**").unwrap());
}

#[test]
fn bracket_marks_only_groups_inside_it_optional() {
    let names = parse_template_groups("[_A_]_B_").unwrap();
    assert_eq!(vec![input("A", true), input("B", false)], names);
}

#[test]
fn bold_markers_are_dropped() {
    let names = parse_template_groups("*ls* -l").unwrap();
    assert_eq!(vec![fixed("ls -l")], names);
}

#[test]
fn bold_marker_does_not_break_an_escape() {
    let names = parse_template_groups("a\\*_b").unwrap();
    assert_eq!(vec![fixed("a_b")], names);
    assert_eq!(
        parse_template_groups("\\_A_").err().unwrap().message(),
        parse_template_groups("\\*_A_").err().unwrap().message()
    );
}
