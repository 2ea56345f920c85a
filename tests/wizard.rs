use snova::builtin::all;
use snova::defs::parse_defs;
use snova::{
    flag_fragment, matches_text, contains_folded, Flag, FixedComplete, FlagSelection,
    FormatError, GroupValue, StrMap, AutoComplete, Step, Wizard,
};

fn curl_flags() -> Vec<Flag> {
    let mut commands = parse_defs(all()).unwrap();
    match commands.remove(3).groups.remove(0).expect {
        GroupValue::Flags(flags) => flags,
        _ => panic!("curl OPTIONS should hold flags"),
    }
}

#[test]
fn format_ok() {
    let template = "Hello {name}!";
    let mut ctx = StrMap::new();
    ctx.insert("name".to_string(), "Bond".to_string());

    let res = snova::dynfmt::format(template, ctx);
    assert!(res.is_ok(), "Result {:?}", res);

    assert_eq!("Hello Bond!", res.unwrap());
}

#[test]
fn format_errors() {
    let ctx = || {
        let mut c = StrMap::new();
        c.insert("a".to_string(), "1".to_string());
        c
    };
    assert!(matches!(snova::dynfmt::format("x{}", ctx()), Err(FormatError::EmptyName)));
    assert!(matches!(snova::dynfmt::format("x}", ctx()), Err(FormatError::UnexpectedClose)));
    let err = snova::dynfmt::format("{b}", ctx()).err().unwrap();
    assert_eq!("Variable 'b' is not present in the context.", err.message());
    assert_eq!("1-1", snova::dynfmt::format("{a}-{a}", ctx()).unwrap());
    assert_eq!("open ", snova::dynfmt::format("open {a", ctx()).unwrap());
}

#[test]
fn repeatable_flag_stays_available() {
    let flags = curl_flags();
    let mut sel = FlagSelection::new();
    assert_eq!(vec![0, 1, 2, 3, 4], sel.available(&flags));
    assert!(flags[0].multiple);
    sel.select(&flags, 0);
    sel.push_fragment(flag_fragment(&flags[0], "A: b").unwrap());
    sel.select(&flags, 0);
    sel.push_fragment(flag_fragment(&flags[0], "C: d").unwrap());
    assert_eq!(vec![0, 1, 2, 3, 4], sel.available(&flags));
    sel.select(&flags, 2);
    sel.push_fragment(flag_fragment(&flags[2], "").unwrap());
    assert_eq!(vec![0, 1, 3, 4], sel.available(&flags));
    assert_eq!("-H A: b -H C: d -v", sel.value());
    assert!(!sel.exhausted(&flags));
}

#[test]
fn flag_needing_value_refuses_empty_value() {
    let flags = curl_flags();
    let err = flag_fragment(&flags[1], "").err().unwrap();
    assert_eq!("No value for *-X* _METHOD_ flag", err.message());
    assert_eq!("-X POST", flag_fragment(&flags[1], "POST").unwrap());
}

#[test]
fn wizard_walks_groups_in_order() {
    let commands = parse_defs(all()).unwrap();
    let grep = &commands[0];
    let mut wizard = Wizard::new(grep);
    assert_eq!(Step::PickFlag(0), wizard.step());
    assert_eq!("grep  _PATTERN_ _PATH_", wizard.preview());
    assert_eq!(vec![0, 1, 2, 3, 4], wizard.available());
    assert_eq!(Step::PickFlag(0), wizard.answer_flag(Some(0)));
    assert_eq!("grep -i _PATTERN_ _PATH_", wizard.preview());
    assert_eq!(vec![1, 2, 3, 4], wizard.available());
    assert_eq!(Step::PickFlag(0), wizard.answer_flag(Some(0)));
    assert_eq!(Step::AskFlagValue { group: 0, flag: 2 }, wizard.answer_flag(Some(2)));
    assert!(wizard.answer_value(String::new()).is_err());
    assert_eq!(Step::PickFlag(0), wizard.answer_value("3".to_string()).unwrap());
    assert_eq!("grep -i -A 3 _PATTERN_ _PATH_", wizard.preview());
    assert_eq!(Step::AskValue(1), wizard.answer_flag(None));
    let err = wizard.answer_value(String::new()).err().unwrap();
    assert_eq!("No value for PATTERN group", err.message());
    assert_eq!(Step::AskValue(2), wizard.answer_value("foo".to_string()).unwrap());
    assert_eq!(Step::Done, wizard.answer_value("./src".to_string()).unwrap());
    assert_eq!("grep -i -A 3 foo ./src", wizard.preview());
    assert_eq!(Some(&"foo".to_string()), wizard.context().get("PATTERN"));
}

#[test]
fn wizard_ends_flags_group_when_flags_run_out() {
    let commands = parse_defs(all()).unwrap();
    let git = &commands[2];
    let mut wizard = Wizard::new(git);
    assert_eq!(Step::PickFlag(0), wizard.step());
    assert_eq!(Step::AskValue(1), wizard.answer_flag(Some(0)));
    assert_eq!(Step::Done, wizard.answer_value("me@example.com".to_string()).unwrap());
    assert_eq!("git config --global user.email me@example.com", wizard.preview());
}

#[test]
fn autocomplete_ignores_case() {
    let options = vec!["Find lines".to_string(), "Send request".to_string(), "FIND files".to_string()];
    let complete = FixedComplete::new(&options);
    assert_eq!(vec![0, 2], complete.list("find"));
    assert_eq!(vec![0, 2], complete.matching("FiNd"));
    assert_eq!(vec![0, 1, 2], complete.list(""));
    assert!(matches_text("Send REQUEST", "request"));
    assert!(!contains_folded("send request", "REQUEST"));
    assert!(contains_folded("send request", "d r"));
    assert!(!contains_folded("abc", "abcd"));
}
