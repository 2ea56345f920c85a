use vstd::prelude::*;
use std::collections::VecDeque;
use crate::defs::{CommandsDef, CommandDef, GroupDef, FlagDef};
use crate::text::{StrMap, keys_of};

verus! {

fn flag(template: &str, description: &str, expect: Option<&str>, multiple: bool) -> (r: FlagDef)
    ensures
        r.template@ == template@,
        r.description@ == description@,
        r.multiple == multiple,
        r.suggest is None,
        match expect {
            Some(x) => r.expect is Some && r.expect->Some_0@ == x@,
            None => r.expect is None,
        },
{
    FlagDef {
        template: String::from_str(template),
        description: String::from_str(description),
        expect: match expect {
            Some(x) => Some(String::from_str(x)),
            None => None,
        },
        multiple,
        suggest: None,
    }
}

fn value_group(value_type: &str) -> (r: GroupDef)
    ensures
        r.expect is Some && r.expect->Some_0@ == value_type@,
        r.flags is None,
{
    GroupDef { expect: Some(String::from_str(value_type)), flags: None }
}

fn flags_group(flags: Vec<FlagDef>) -> (r: GroupDef)
    ensures
        r.expect is None,
        r.flags is Some && r.flags->Some_0@ == flags@,
{
    let mut list: VecDeque<FlagDef> = VecDeque::new();
    let mut rest = flags;
    let ghost all = rest@;
    proof {
        assert(list@ + rest@ =~= all);
    }
    while rest.len() > 0
        invariant
            list@ + rest@ == all,
        decreases rest@.len(),
    {
        let ghost before = rest@;
        let f = rest.remove(0);
        list.push_back(f);
        proof {
            assert(list@ + rest@ =~= all) by {
                assert(before =~= seq![f] + rest@);
            }
        }
    }
    proof {
        assert(list@ + rest@ =~= list@);
    }
    GroupDef { expect: None, flags: Some(list) }
}

fn command(template: &str, description: &str, groups: StrMap<GroupDef>) -> (r: CommandDef)
    ensures
        r.template@ == template@,
        r.description@ == description@,
        r.groups@ == groups@,
{
    CommandDef { template: String::from_str(template), description: String::from_str(description), groups }
}

/// A group definition that expects a value of the type named `t`.
pub open spec fn value_group_is(g: GroupDef, t: Seq<char>) -> bool {
    g.expect is Some && g.expect->Some_0@ == t && g.flags is None
}

/// A group definition with `n` flags.
pub open spec fn flags_group_is(g: GroupDef, n: nat) -> bool {
    g.expect is None && g.flags is Some && g.flags->Some_0@.len() == n
}

/// A flag definition with these fields and no suggestions.
pub open spec fn flag_is(f: FlagDef, template: Seq<char>, description: Seq<char>, expect: Option<Seq<char>>, multiple: bool) -> bool {
    &&& f.template@ == template
    &&& f.description@ == description
    &&& f.multiple == multiple
    &&& f.suggest is None
    &&& match expect {
        Some(x) => f.expect is Some && f.expect->Some_0@ == x,
        None => f.expect is None,
    }
}

/// The commands that come with the tool.
pub fn all() -> (r: CommandsDef)
    ensures
        r.commands@.len() == 4,
        r.commands@[0].template@ == "grep [_OPTIONS_] _PATTERN_ _PATH_"@,
        r.commands@[1].template@ == "find _PATH_ _EXPRESSION_"@,
        r.commands@[2].template@ == "git config [_OPTIONS_] user.email _EMAIL_"@,
        r.commands@[3].template@ == "curl [_OPTIONS_] _URL_"@,
        r.commands@[0].description@ == "Find lines in a file (*grep*)"@,
        r.commands@[1].description@ == "Find files or directories (*find*)"@,
        r.commands@[2].description@ == "Set git email address (*git*)"@,
        r.commands@[3].description@ == "Send an HTTP request (*curl*)"@,
        keys_of(r.commands@[0].groups@) == seq!["PATTERN"@, "PATH"@, "OPTIONS"@],
        keys_of(r.commands@[1].groups@) == seq!["PATH"@, "EXPRESSION"@],
        keys_of(r.commands@[2].groups@) == seq!["EMAIL"@, "OPTIONS"@],
        keys_of(r.commands@[3].groups@) == seq!["URL"@, "OPTIONS"@],
        value_group_is(r.commands@[0].groups@[0].1, "string"@),
        value_group_is(r.commands@[0].groups@[1].1, "path"@),
        flags_group_is(r.commands@[0].groups@[2].1, 5),
        value_group_is(r.commands@[1].groups@[0].1, "path"@),
        flags_group_is(r.commands@[1].groups@[1].1, 1),
        value_group_is(r.commands@[2].groups@[0].1, "path"@),
        flags_group_is(r.commands@[2].groups@[1].1, 1),
        value_group_is(r.commands@[3].groups@[0].1, "string"@),
        flags_group_is(r.commands@[3].groups@[1].1, 5),
        flag_is(r.commands@[0].groups@[2].1.flags->Some_0@[0], "-i"@, "Case insensitive matching"@, None, false),
        flag_is(r.commands@[0].groups@[2].1.flags->Some_0@[1], "-v"@, "Invert match (return non-matching lines)"@, None, false),
        flag_is(r.commands@[0].groups@[2].1.flags->Some_0@[2], "*-A* _NUM_"@, "Print _NUM_ lines after the matched line"@, Some("number"@), false),
        flag_is(r.commands@[0].groups@[2].1.flags->Some_0@[3], "*-B* _NUM_"@, "Print _NUM_ lines before the matched line"@, Some("number"@), false),
        flag_is(r.commands@[0].groups@[2].1.flags->Some_0@[4], "-r"@, "Search files recursively"@, None, false),
        flag_is(r.commands@[1].groups@[1].1.flags->Some_0@[0], "*-iname* _PATTERN_"@, "File name pattern"@, Some("string"@), false),
        flag_is(r.commands@[2].groups@[1].1.flags->Some_0@[0], "--global"@, " Write to global *~/.gitconfig* file rather than the repository *.git/config*"@, None, false),
        flag_is(r.commands@[3].groups@[1].1.flags->Some_0@[0], "*-H* _VALUE_"@, "Include header (e.g -H \"Content-Type: application/json\")"@, Some("string"@), true),
        flag_is(r.commands@[3].groups@[1].1.flags->Some_0@[1], "*-X* _METHOD_"@, "Specify a request method to use"@, Some("string"@), false),
        flag_is(r.commands@[3].groups@[1].1.flags->Some_0@[2], "-v"@, "Verbose logging"@, None, false),
        flag_is(r.commands@[3].groups@[1].1.flags->Some_0@[3], "*-d* _DATA_"@, "Specify request payload (use '@myfile.txt' to read data from file)"@, Some("string"@), false),
        flag_is(r.commands@[3].groups@[1].1.flags->Some_0@[4], "-L"@, "Follow redirects"@, None, false),
{
    proof {
        reveal_strlit("PATTERN");
        reveal_strlit("PATH");
        reveal_strlit("OPTIONS");
        reveal_strlit("EXPRESSION");
        reveal_strlit("EMAIL");
        reveal_strlit("URL");
    }
    let mut commands: VecDeque<CommandDef> = VecDeque::new();

    let mut groups: StrMap<GroupDef> = StrMap::new();
    groups.insert(String::from_str("PATTERN"), value_group("string"));
    assert(keys_of(groups@) =~= seq!["PATTERN"@]);
    assert("PATH"@.len() == 4 && "PATTERN"@.len() == 7);
    groups.insert(String::from_str("PATH"), value_group("path"));
    assert(keys_of(groups@) =~= seq!["PATTERN"@, "PATH"@]);
    assert("OPTIONS"@.len() == 7 && "OPTIONS"@[0] == 'O' && "PATTERN"@[0] == 'P');
    groups.insert(String::from_str("OPTIONS"), flags_group(vec![
        flag("-i", "Case insensitive matching", None, false),
        flag("-v", "Invert match (return non-matching lines)", None, false),
        flag("*-A* _NUM_", "Print _NUM_ lines after the matched line", Some("number"), false),
        flag("*-B* _NUM_", "Print _NUM_ lines before the matched line", Some("number"), false),
        flag("-r", "Search files recursively", None, false),
    ]));
    assert(keys_of(groups@) =~= seq!["PATTERN"@, "PATH"@, "OPTIONS"@]);
    commands.push_back(command("grep [_OPTIONS_] _PATTERN_ _PATH_", "Find lines in a file (*grep*)", groups));

    let mut groups: StrMap<GroupDef> = StrMap::new();
    groups.insert(String::from_str("PATH"), value_group("path"));
    assert(keys_of(groups@) =~= seq!["PATH"@]);
    assert("EXPRESSION"@.len() == 10);
    groups.insert(String::from_str("EXPRESSION"), flags_group(vec![
        flag("*-iname* _PATTERN_", "File name pattern", Some("string"), false),
    ]));
    assert(keys_of(groups@) =~= seq!["PATH"@, "EXPRESSION"@]);
    commands.push_back(command("find _PATH_ _EXPRESSION_", "Find files or directories (*find*)", groups));

    let mut groups: StrMap<GroupDef> = StrMap::new();
    groups.insert(String::from_str("EMAIL"), value_group("path"));
    groups.insert(String::from_str("OPTIONS"), flags_group(vec![
        flag("--global", " Write to global *~/.gitconfig* file rather than the repository *.git/config*", None, false),
    ]));
    assert(keys_of(groups@) =~= seq!["EMAIL"@, "OPTIONS"@]);
    commands.push_back(command("git config [_OPTIONS_] user.email _EMAIL_", "Set git email address (*git*)", groups));

    let mut groups: StrMap<GroupDef> = StrMap::new();
    groups.insert(String::from_str("URL"), value_group("string"));
    groups.insert(String::from_str("OPTIONS"), flags_group(vec![
        flag("*-H* _VALUE_", "Include header (e.g -H \"Content-Type: application/json\")", Some("string"), true),
        flag("*-X* _METHOD_", "Specify a request method to use", Some("string"), false),
        flag("-v", "Verbose logging", None, false),
        flag("*-d* _DATA_", "Specify request payload (use '@myfile.txt' to read data from file)", Some("string"), false),
        flag("-L", "Follow redirects", None, false),
    ]));
    assert(keys_of(groups@) =~= seq!["URL"@, "OPTIONS"@]);
    commands.push_back(command("curl [_OPTIONS_] _URL_", "Send an HTTP request (*curl*)", groups));

    CommandsDef { commands }
}

} // verus!
