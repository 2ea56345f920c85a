use std::collections::VecDeque;

use snova::builtin::all;
use snova::defs::{parse_defs, CommandDef, CommandsDef, FlagDef, GroupDef};
use snova::{DefinitionError, GroupValue, StrMap, ValueType};

fn grep_defs(template: &str, groups: StrMap<GroupDef>) -> CommandsDef {
    CommandsDef {
        commands: vec![CommandDef {
            template: template.into(),
            description: "Find lines in a file (*grep*)".into(),
            groups,
        }]
        .into(),
    }
}

fn path_group() -> GroupDef {
    GroupDef { expect: Some("path".into()), flags: None }
}

#[test]
fn parse_defs_ok() {
    let mut groups = StrMap::new();
    groups.insert("PATH".to_string(), GroupDef { expect: Some("path".into()), flags: None });
    groups.insert(
        "OPTIONS".to_string(),
        GroupDef {
            expect: None,
            flags: Some(VecDeque::from(vec![
                FlagDef {
                    template: "-i".into(),
                    description: "Case insensitive matching".into(),
                    expect: None,
                    multiple: false,
                    suggest: None,
                },
                FlagDef {
                    template: "*-A*_NUM_".into(),
                    description: "Print _NUM_ lines after the matched line".into(),
                    expect: Some("number".into()),
                    multiple: false,
                    suggest: None,
                },
            ])),
        },
    );

    let defs = CommandsDef {
        commands: vec![CommandDef {
            template: "grep [_OPTIONS_] _PATH_".into(),
            description: "Find lines in a file (*grep*)".into(),
            groups,
        }]
        .into(),
    };

    let commands = parse_defs(defs);
    assert!(commands.is_ok(), "Parse defs is ok (err={:?})", commands.err());

    let commands = commands.ok().unwrap();
    assert_eq!(1, commands.len());
    let cmd = &commands[0];
    assert_eq!("grep [_OPTIONS_] _PATH_", cmd.template);
    assert_eq!(2, cmd.groups.len(), "Groups len");

    let mut user_input = StrMap::new();
    user_input.insert("PATH".to_string(), "./one".to_string());

    let result = cmd.build(&user_input);
    assert_eq!("grep  ./one", result);
}

#[test]
fn parse_defs_inline_group() {
    let mut groups = StrMap::new();
    groups.insert("VALUE".to_string(), GroupDef { expect: Some("string".into()), flags: None });

    let defs = CommandsDef {
        commands: vec![CommandDef {
            template: "curl http://localhost?one=_VALUE_".into(),
            description: "Get something".into(),
            groups,
        }]
        .into(),
    };

    let commands = parse_defs(defs);
    assert!(commands.is_ok(), "Parse defs is ok (err={:?})", commands.err());

    let commands = commands.ok().unwrap();
    assert_eq!(1, commands.len());
    let cmd = &commands[0];
    assert_eq!(1, cmd.groups.len(), "Groups len");

    let mut user_input = StrMap::new();
    user_input.insert("VALUE".to_string(), "value".to_string());

    let result = cmd.build(&user_input);
    assert_eq!("curl http://localhost?one=value", result);
}

#[test]
fn parse_defs_missing_group() {
    let mut groups = StrMap::new();
    groups.insert("PATH".to_string(), GroupDef { expect: Some("path".into()), flags: None });

    let defs = CommandsDef {
        commands: vec![CommandDef {
            template: "grep [_OPTIONS_] _PATH_".into(),
            description: "Find lines in a file (*grep*)".into(),
            groups,
        }]
        .into(),
    };

    let commands = parse_defs(defs);
    assert!(commands.is_err(), "Parse defs is err");
    let err_str = commands.err().unwrap().message();
    assert_eq!("Command 'grep [_OPTIONS_] _PATH_' is missing 'OPTIONS' group definition.", err_str);
}

#[test]
fn parse_defs_missing_expect_and_flags() {
    let mut groups = StrMap::new();
    groups.insert("OPTIONS".to_string(), GroupDef { expect: None, flags: None });

    let defs = CommandsDef {
        commands: vec![CommandDef {
            template: "grep [_OPTIONS_]".into(),
            description: "Find lines in a file (*grep*)".into(),
            groups,
        }]
        .into(),
    };

    let commands = parse_defs(defs);
    assert!(commands.is_err(), "Parse defs is err");
    let err_str = commands.err().unwrap().message();
    assert_eq!("Group 'OPTIONS' should define expect or flags in 'grep [_OPTIONS_]'", err_str);
}

#[test]
fn declared_group_missing_from_template_is_refused() {
    let mut groups = StrMap::new();
    groups.insert("PATH".to_string(), path_group());
    groups.insert("EXTRA".to_string(), path_group());
    let err = parse_defs(grep_defs("grep _PATH_", groups)).err().unwrap();
    assert!(matches!(err, DefinitionError::GroupMismatch { .. }));
    assert_eq!(
        "Groups do not match in 'grep _PATH_': template=[\"PATH\"] and groups=[\"PATH\", \"EXTRA\"]",
        err.message()
    );
}

#[test]
fn group_named_twice_in_template_is_refused() {
    let mut groups = StrMap::new();
    groups.insert("A".to_string(), path_group());
    groups.insert("B".to_string(), path_group());
    let err = parse_defs(grep_defs("cp _A_ _A_", groups)).err().unwrap();
    assert!(matches!(err, DefinitionError::GroupMismatch { .. }));
}

#[test]
fn group_with_both_expect_and_flags_is_refused() {
    let mut groups = StrMap::new();
    groups.insert(
        "PATH".to_string(),
        GroupDef { expect: Some("path".into()), flags: Some(VecDeque::new()) },
    );
    let err = parse_defs(grep_defs("grep _PATH_", groups)).err().unwrap();
    assert_eq!("Group 'PATH' defines both expect and flags in 'grep _PATH_'", err.message());
}

#[test]
fn unknown_value_type_is_refused() {
    let mut groups = StrMap::new();
    groups.insert("PATH".to_string(), GroupDef { expect: Some("file".into()), flags: None });
    let err = parse_defs(grep_defs("grep _PATH_", groups)).err().unwrap();
    assert_eq!("Unknown value type 'file'", err.message());
}

#[test]
fn flag_expecting_value_needs_one_input_group() {
    let mut groups = StrMap::new();
    groups.insert(
        "OPTIONS".to_string(),
        GroupDef {
            expect: None,
            flags: Some(VecDeque::from(vec![FlagDef {
                template: "-A".into(),
                description: "After".into(),
                expect: Some("number".into()),
                multiple: false,
                suggest: None,
            }])),
        },
    );
    let err = parse_defs(grep_defs("grep [_OPTIONS_]", groups)).err().unwrap();
    assert_eq!("Expected one input group for -A", err.message());
}

#[test]
fn malformed_flag_template_is_refused() {
    let mut groups = StrMap::new();
    groups.insert(
        "OPTIONS".to_string(),
        GroupDef {
            expect: None,
            flags: Some(VecDeque::from(vec![FlagDef {
                template: "-A _NUM".into(),
                description: "After".into(),
                expect: Some("number".into()),
                multiple: false,
                suggest: None,
            }])),
        },
    );
    let err = parse_defs(grep_defs("grep [_OPTIONS_]", groups)).err().unwrap();
    assert!(matches!(err, DefinitionError::FlagTemplate { .. }));
    assert_eq!("In flag -A _NUM", err.message());
}

#[test]
fn malformed_and_empty_templates_are_refused() {
    let err = parse_defs(grep_defs("grep _PATH", StrMap::new())).err().unwrap();
    assert!(matches!(err, DefinitionError::Template { .. }));
    assert_eq!("In template: grep _PATH", err.message());
    let err = parse_defs(grep_defs("", StrMap::new())).err().unwrap();
    assert_eq!("Empty template", err.message());
}

#[test]
fn build_before_any_value_shows_required_placeholders() {
    let mut groups = StrMap::new();
    groups.insert("PATTERN".to_string(), GroupDef { expect: Some("string".into()), flags: None });
    groups.insert("PATH".to_string(), path_group());
    groups.insert("OPTIONS".to_string(), GroupDef { expect: None, flags: Some(VecDeque::new()) });
    let commands = parse_defs(grep_defs("grep [_OPTIONS_] _PATTERN_ _PATH_", groups)).unwrap();
    let cmd = &commands[0];
    assert_eq!("grep  _PATTERN_ _PATH_", cmd.build(&StrMap::new()));
    let mut ctx = StrMap::new();
    ctx.insert("OPTIONS".to_string(), "-i".to_string());
    ctx.insert("PATTERN".to_string(), "foo".to_string());
    assert_eq!("grep -i foo _PATH_", cmd.build(&ctx));
    ctx.insert("PATTERN".to_string(), "bar".to_string());
    assert_eq!("grep -i bar _PATH_", cmd.build(&ctx));
}

#[test]
fn groups_follow_template_order() {
    let mut groups = StrMap::new();
    groups.insert("PATH".to_string(), path_group());
    groups.insert("NUM".to_string(), GroupDef { expect: Some("number".into()), flags: None });
    let commands = parse_defs(grep_defs("head -n _NUM_ [_PATH_]", groups)).unwrap();
    let cmd = &commands[0];
    assert_eq!("NUM", cmd.groups[0].name);
    assert!(!cmd.groups[0].optional);
    assert!(matches!(cmd.groups[0].expect, GroupValue::Single(ValueType::Number)));
    assert_eq!("PATH", cmd.groups[1].name);
    assert!(cmd.groups[1].optional);
}

#[test]
fn builtin_catalog_is_valid() {
    let commands = parse_defs(all()).unwrap();
    assert_eq!(4, commands.len());
    assert_eq!("grep [_OPTIONS_] _PATTERN_ _PATH_", commands[0].template);
    match &commands[0].groups[0].expect {
        GroupValue::Flags(flags) => {
            assert_eq!(5, flags.len());
            assert_eq!("-A 5", flags[2].expect.as_ref().unwrap().build("5"));
        }
        _ => panic!("OPTIONS should hold flags"),
    }
}

#[test]
fn value_type_names() {
    assert_eq!(ValueType::String, ValueType::parse("string").unwrap());
    assert_eq!(ValueType::Path, ValueType::parse("path").unwrap());
    assert_eq!(ValueType::Number, ValueType::parse("number").unwrap());
    assert!(ValueType::parse("Number").is_err());
    assert!(ValueType::Number.is_valid_char('7'));
    assert!(!ValueType::Number.is_valid_char('x'));
    assert!(ValueType::Path.is_valid_char('/'));
}

#[test]
fn later_insert_replaces_value_in_place() {
    let mut m = StrMap::new();
    m.insert("a".to_string(), 1);
    m.insert("b".to_string(), 2);
    m.insert("a".to_string(), 3);
    assert_eq!(2, m.len());
    assert_eq!(Some(&3), m.get("a"));
    assert_eq!(vec!["a".to_string(), "b".to_string()], m.keys());
    assert_eq!(Some(3), m.remove("a"));
    assert!(!m.contains_key("a"));
    assert_eq!(None, m.get("a"));
}

#[test]
fn required_group_with_empty_value_keeps_placeholder() {
    let mut groups = StrMap::new();
    groups.insert("PATH".to_string(), path_group());
    groups.insert("EXPRESSION".to_string(), GroupDef { expect: None, flags: Some(VecDeque::new()) });
    let commands = parse_defs(grep_defs("find _PATH_ _EXPRESSION_", groups)).unwrap();
    let mut ctx = StrMap::new();
    ctx.insert("PATH".to_string(), "./x".to_string());
    ctx.insert("EXPRESSION".to_string(), String::new());
    assert_eq!("find ./x _EXPRESSION_", commands[0].build(&ctx));
}
