use vstd::prelude::*;
use std::collections::VecDeque;
use crate::cmd::{Command, CmdGroup, GroupValue, Flag, FlagExpectation, ValueType, value_type_named};
use crate::template::{GroupName, GroupNameType, Span, TemplateError, TemplateErrorView, parse_template_groups, template_groups, spans_of};
use crate::text::{StrMap, lookup, has_key, keys_of, concat_text, same_text, lemma_lookup_has_key};

verus! {

/// Why a command definition was refused.
#[derive(Debug)]
pub enum DefinitionError {
    /// The command's template is malformed.
    Template { template: String, error: TemplateError },
    /// A flag's template is malformed.
    FlagTemplate { template: String, error: TemplateError },
    /// The command's template has no spans at all.
    EmptyTemplate,
    /// The template names a group that is not defined.
    MissingGroup { template: String, group: String },
    /// The defined groups are not exactly the groups of the template.
    GroupMismatch { template: String, template_groups: Vec<String>, groups: Vec<String> },
    /// A group defines both a value type and flags.
    BothExpectAndFlags { group: String, template: String },
    /// A group defines neither a value type nor flags.
    NoExpectOrFlags { group: String, template: String },
    /// A value type name that is not `string`, `path` or `number`.
    UnknownValueType(String),
    /// A flag that expects a value has not exactly one input group.
    FlagInputGroups(String),
}

pub enum DefinitionErrorView {
    Template { template: Seq<char>, error: TemplateErrorView },
    FlagTemplate { template: Seq<char>, error: TemplateErrorView },
    EmptyTemplate,
    MissingGroup { template: Seq<char>, group: Seq<char> },
    GroupMismatch { template: Seq<char>, template_groups: Seq<Seq<char>>, groups: Seq<Seq<char>> },
    BothExpectAndFlags { group: Seq<char>, template: Seq<char> },
    NoExpectOrFlags { group: Seq<char>, template: Seq<char> },
    UnknownValueType(Seq<char>),
    FlagInputGroups(Seq<char>),
}

/// The texts of a list of strings.
pub open spec fn texts(v: Seq<String>) -> Seq<Seq<char>> {
    v.map_values(|s: String| s@)
}

impl View for DefinitionError {
    type V = DefinitionErrorView;

    open spec fn view(&self) -> DefinitionErrorView {
        match self {
            DefinitionError::Template { template, error } => DefinitionErrorView::Template { template: template@, error: error@ },
            DefinitionError::FlagTemplate { template, error } => DefinitionErrorView::FlagTemplate { template: template@, error: error@ },
            DefinitionError::EmptyTemplate => DefinitionErrorView::EmptyTemplate,
            DefinitionError::MissingGroup { template, group } => DefinitionErrorView::MissingGroup { template: template@, group: group@ },
            DefinitionError::GroupMismatch { template, template_groups, groups } => DefinitionErrorView::GroupMismatch {
                template: template@,
                template_groups: texts(template_groups@),
                groups: texts(groups@),
            },
            DefinitionError::BothExpectAndFlags { group, template } => DefinitionErrorView::BothExpectAndFlags { group: group@, template: template@ },
            DefinitionError::NoExpectOrFlags { group, template } => DefinitionErrorView::NoExpectOrFlags { group: group@, template: template@ },
            DefinitionError::UnknownValueType(v) => DefinitionErrorView::UnknownValueType(v@),
            DefinitionError::FlagInputGroups(t) => DefinitionErrorView::FlagInputGroups(t@),
        }
    }
}

/// A list of names written as `["A", "B"]`.
pub open spec fn list_text(names: Seq<Seq<char>>) -> Seq<char> {
    "["@ + list_items(names) + "]"@
}

pub open spec fn list_items(names: Seq<Seq<char>>) -> Seq<char>
    decreases names.len(),
{
    if names.len() == 0 {
        Seq::empty()
    } else if names.len() == 1 {
        "\""@ + names[0] + "\""@
    } else {
        list_items(names.drop_last()) + ", "@ + "\""@ + names.last() + "\""@
    }
}

pub open spec fn definition_error_message(e: DefinitionErrorView) -> Seq<char> {
    match e {
        DefinitionErrorView::Template { template, .. } => "In template: "@ + template,
        DefinitionErrorView::FlagTemplate { template, .. } => "In flag "@ + template,
        DefinitionErrorView::EmptyTemplate => "Empty template"@,
        DefinitionErrorView::MissingGroup { template, group } =>
            "Command '"@ + template + "' is missing '"@ + group + "' group definition."@,
        DefinitionErrorView::GroupMismatch { template, template_groups, groups } =>
            "Groups do not match in '"@ + template + "': template="@ + list_text(template_groups) + " and groups="@ + list_text(groups),
        DefinitionErrorView::BothExpectAndFlags { group, template } =>
            "Group '"@ + group + "' defines both expect and flags in '"@ + template + "'"@,
        DefinitionErrorView::NoExpectOrFlags { group, template } =>
            "Group '"@ + group + "' should define expect or flags in '"@ + template + "'"@,
        DefinitionErrorView::UnknownValueType(v) => "Unknown value type '"@ + v + "'"@,
        DefinitionErrorView::FlagInputGroups(t) => "Expected one input group for "@ + t,
    }
}

fn list_message(names: &Vec<String>) -> (r: String)
    ensures
        r@ == list_text(texts(names@)),
{
    let mut items = String::new();
    let mut i: usize = 0;
    while i < names.len()
        invariant
            i <= names@.len(),
            items@ == list_items(texts(names@).take(i as int)),
        decreases names@.len() - i,
    {
        let ghost t = texts(names@).take(i + 1);
        proof {
            assert(t.drop_last() =~= texts(names@).take(i as int));
        }
        if i > 0 {
            items.append(", ");
        }
        items.append("\"");
        items.append(names[i].as_str());
        items.append("\"");
        proof {
            if i == 0 {
                assert(texts(names@).take(0) =~= Seq::<Seq<char>>::empty());
            }
            assert(items@ =~= list_items(t));
        }
        i = i + 1;
    }
    proof {
        assert(texts(names@).take(i as int) =~= texts(names@));
    }
    let open = concat_text("[", items.as_str());
    concat_text(open.as_str(), "]")
}

impl DefinitionError {
    /// A line of text that describes the error.
    pub fn message(&self) -> (r: String)
        ensures
            r@ == definition_error_message(self@),
    {
        let mut out = String::new();
        match self {
            DefinitionError::Template { template, .. } => {
                out.append("In template: ");
                out.append(template.as_str());
            },
            DefinitionError::FlagTemplate { template, .. } => {
                out.append("In flag ");
                out.append(template.as_str());
            },
            DefinitionError::EmptyTemplate => {
                out.append("Empty template");
            },
            DefinitionError::MissingGroup { template, group } => {
                out.append("Command '");
                out.append(template.as_str());
                out.append("' is missing '");
                out.append(group.as_str());
                out.append("' group definition.");
            },
            DefinitionError::GroupMismatch { template, template_groups, groups } => {
                out.append("Groups do not match in '");
                out.append(template.as_str());
                out.append("': template=");
                out.append(list_message(template_groups).as_str());
                out.append(" and groups=");
                out.append(list_message(groups).as_str());
            },
            DefinitionError::BothExpectAndFlags { group, template } => {
                out.append("Group '");
                out.append(group.as_str());
                out.append("' defines both expect and flags in '");
                out.append(template.as_str());
                out.append("'");
            },
            DefinitionError::NoExpectOrFlags { group, template } => {
                out.append("Group '");
                out.append(group.as_str());
                out.append("' should define expect or flags in '");
                out.append(template.as_str());
                out.append("'");
            },
            DefinitionError::UnknownValueType(v) => {
                out.append("Unknown value type '");
                out.append(v.as_str());
                out.append("'");
            },
            DefinitionError::FlagInputGroups(t) => {
                out.append("Expected one input group for ");
                out.append(t.as_str());
            },
        }
        proof {
            assert(out@ =~= definition_error_message(self@));
        }
        out
    }
}

/// A catalog of command definitions, as read from a definitions file.
pub struct CommandsDef {
    pub commands: VecDeque<CommandDef>,
}

/// One command definition.
pub struct CommandDef {
    pub template: String,
    pub description: String,
    /// The definition of each group, by the group's name.
    pub groups: StrMap<GroupDef>,
}

/// A group definition: a value type name, or a list of flags.
pub struct GroupDef {
    pub expect: Option<String>,
    pub flags: Option<VecDeque<FlagDef>>,
}

/// A flag definition.
pub struct FlagDef {
    pub template: String,
    pub description: String,
    pub expect: Option<String>,
    pub multiple: bool,
    pub suggest: Option<Vec<String>>,
}

/// The user-input spans, in order.
pub open spec fn user_spans(s: Seq<Span>) -> Seq<Span>
    decreases s.len(),
{
    if s.len() == 0 {
        Seq::empty()
    } else if s.last().group_type is UserInput {
        user_spans(s.drop_last()).push(s.last())
    } else {
        user_spans(s.drop_last())
    }
}

/// The names of some spans.
pub open spec fn names_of(s: Seq<Span>) -> Seq<Seq<char>> {
    s.map_values(|x: Span| x.name)
}

/// The first error among flag definitions.
pub open spec fn flags_error(s: Seq<FlagDef>) -> Option<DefinitionErrorView>
    decreases s.len(),
{
    if s.len() == 0 {
        None
    } else {
        match flags_error(s.drop_last()) {
            Some(e) => Some(e),
            None => flag_error(s.last()),
        }
    }
}

/// The first error among the definitions of the groups `names`.
pub open spec fn groups_error(names: Seq<Seq<char>>, groups: Seq<(Seq<char>, GroupDef)>, template: Seq<char>) -> Option<DefinitionErrorView>
    decreases names.len(),
{
    if names.len() == 0 {
        None
    } else {
        match groups_error(names.drop_last(), groups, template) {
            Some(e) => Some(e),
            None => group_error(names.last(), lookup(groups, names.last())->Some_0, template),
        }
    }
}

/// The first error among command definitions.
pub open spec fn commands_error(s: Seq<CommandDef>) -> Option<DefinitionErrorView>
    decreases s.len(),
{
    if s.len() == 0 {
        None
    } else {
        match commands_error(s.drop_last()) {
            Some(e) => Some(e),
            None => def_error(s.last()),
        }
    }
}

/// The first of `names` that `groups` does not define.
pub open spec fn first_missing(names: Seq<Seq<char>>, groups: Seq<(Seq<char>, GroupDef)>) -> Option<Seq<char>>
    decreases names.len(),
{
    if names.len() == 0 {
        None
    } else {
        match first_missing(names.drop_last(), groups) {
            Some(n) => Some(n),
            None => if has_key(groups, names.last()) {
                None
            } else {
                Some(names.last())
            },
        }
    }
}

/// Every defined group is named by the template.
pub open spec fn keys_listed(names: Seq<Seq<char>>, groups: Seq<(Seq<char>, GroupDef)>) -> bool {
    forall|i: int| 0 <= i < groups.len() ==> names.contains(#[trigger] groups[i].0)
}

/// The template names each group once, and exactly the defined groups.
pub open spec fn groups_match(names: Seq<Seq<char>>, groups: Seq<(Seq<char>, GroupDef)>) -> bool {
    &&& names.no_duplicates()
    &&& groups.len() == names.len()
    &&& forall|i: int| 0 <= i < groups.len() ==> names.contains(#[trigger] groups[i].0)
}

/// What is wrong with a flag definition, if anything.
pub open spec fn flag_error(f: FlagDef) -> Option<DefinitionErrorView> {
    match template_groups(f.template@) {
        Err(e) => Some(DefinitionErrorView::FlagTemplate { template: f.template@, error: e }),
        Ok(spans) => match f.expect {
            None => None,
            Some(x) => if user_spans(spans).len() != 1 {
                Some(DefinitionErrorView::FlagInputGroups(f.template@))
            } else if value_type_named(x@) is None {
                Some(DefinitionErrorView::UnknownValueType(x@))
            } else {
                None
            },
        },
    }
}

/// What is wrong with the definition `g` of group `name`, if anything.
pub open spec fn group_error(name: Seq<char>, g: GroupDef, template: Seq<char>) -> Option<DefinitionErrorView> {
    if g.expect is Some && g.flags is Some {
        Some(DefinitionErrorView::BothExpectAndFlags { group: name, template })
    } else if g.expect is Some {
        let x = g.expect->Some_0;
        if value_type_named(x@) is None {
            Some(DefinitionErrorView::UnknownValueType(x@))
        } else {
            None
        }
    } else if g.flags is Some {
        flags_error(g.flags->Some_0@)
    } else {
        Some(DefinitionErrorView::NoExpectOrFlags { group: name, template })
    }
}

/// The first thing wrong with a command definition, if anything: its
/// template, then a defined group the template does not name, then a group
/// the template names but does not define, then groups named twice, then
/// each group in template order.
pub open spec fn def_error(d: CommandDef) -> Option<DefinitionErrorView> {
    match template_groups(d.template@) {
        Err(e) => Some(DefinitionErrorView::Template { template: d.template@, error: e }),
        Ok(spans) => if spans.len() == 0 {
            Some(DefinitionErrorView::EmptyTemplate)
        } else {
            let names = names_of(user_spans(spans));
            if !keys_listed(names, d.groups@) {
                Some(DefinitionErrorView::GroupMismatch {
                    template: d.template@,
                    template_groups: names,
                    groups: keys_of(d.groups@),
                })
            } else {
                match first_missing(names, d.groups@) {
                Some(g) => Some(DefinitionErrorView::MissingGroup { template: d.template@, group: g }),
                None => if !groups_match(names, d.groups@) {
                    Some(DefinitionErrorView::GroupMismatch {
                        template: d.template@,
                        template_groups: names,
                        groups: keys_of(d.groups@),
                    })
                } else {
                    groups_error(names, d.groups@, d.template@)
                },
                }
            }
        },
    }
}

/// `f` is the flag that definition `d` describes.
pub open spec fn flag_built(f: Flag, d: FlagDef) -> bool {
    &&& f.template@ == d.template@
    &&& f.description@ == d.description@
    &&& f.multiple == d.multiple
    &&& f.suggest == d.suggest
    &&& match d.expect {
        None => f.expect is None,
        Some(x) => {
            &&& f.expect is Some
            &&& f.expect->Some_0.value_type == value_type_named(x@)->Some_0
            &&& spans_of(f.expect->Some_0.spans@) == template_groups(d.template@)->Ok_0
        },
    }
}

pub open spec fn flags_built(fl: Seq<Flag>, ds: Seq<FlagDef>) -> bool {
    &&& fl.len() == ds.len()
    &&& forall|i: int| 0 <= i < fl.len() ==> flag_built(#[trigger] fl[i], ds[i])
}

/// `c` is the group that user-input span `sp` and its definition `g` describe.
pub open spec fn group_built(c: CmdGroup, sp: Span, g: GroupDef) -> bool {
    &&& c.name@ == sp.name
    &&& c.optional == (sp.group_type == GroupNameType::UserInput { optional: true })
    &&& match g.expect {
        Some(x) => c.expect == GroupValue::Single(value_type_named(x@)->Some_0),
        None => c.expect is Flags && flags_built(c.expect->Flags_0@, g.flags->Some_0@),
    }
}

/// `c` is the command that definition `d` describes: same texts, the parsed
/// template, and one group per user-input span, in template order.
pub open spec fn command_built(c: Command, d: CommandDef) -> bool {
    let spans = template_groups(d.template@)->Ok_0;
    let us = user_spans(spans);
    &&& c.template@ == d.template@
    &&& c.description@ == d.description@
    &&& spans_of(c.spans@) == spans
    &&& c.groups@.len() == us.len()
    &&& forall|k: int| 0 <= k < us.len() ==> group_built(#[trigger] c.groups@[k], us[k], lookup(d.groups@, us[k].name)->Some_0)
}

proof fn lemma_user_spans_step(s: Seq<Span>, i: int)
    requires
        0 <= i < s.len(),
    ensures
        user_spans(s.take(i + 1)) == if s[i].group_type is UserInput {
            user_spans(s.take(i)).push(s[i])
        } else {
            user_spans(s.take(i))
        },
{
    assert(s.take(i + 1).drop_last() =~= s.take(i));
}

/// Parse the flags of a group.
fn prepare_flags(flag_defs: VecDeque<FlagDef>) -> (r: Result<Vec<Flag>, DefinitionError>)
    ensures
        match r {
            Ok(fl) => flags_error(flag_defs@) is None && flags_built(fl@, flag_defs@),
            Err(e) => flags_error(flag_defs@) == Some(e@),
        },
{
    let ghost all = flag_defs@;
    let mut defs = flag_defs;
    let mut flags: Vec<Flag> = Vec::new();
    while defs.len() > 0
        invariant
            all == flag_defs@,
            flags@.len() + defs@.len() == all.len(),
            defs@ == all.subrange(flags@.len() as int, all.len() as int),
            flags_error(all.take(flags@.len() as int)) is None,
            forall|i: int| 0 <= i < flags@.len() ==> flag_built(#[trigger] flags@[i], all[i]),
        decreases defs@.len(),
    {
        let ghost k = flags@.len() as int;
        let flag_def = defs.pop_front().unwrap();
        assert(flag_def == all[k]);
        assert(all.take(k + 1).drop_last() =~= all.take(k));
        assert(flags_error(all.take(k + 1)) == flag_error(all[k]));
        let spans = match parse_template_groups(flag_def.template.as_str()) {
            Ok(g) => g,
            Err(e) => {
                proof {
                    lemma_flags_error_prefix(all, k + 1);
                }
                return Err(DefinitionError::FlagTemplate { template: flag_def.template, error: e });
            },
        };
        let n = count_user_spans(&spans);
        let expect = match flag_def.expect {
            Some(x) => {
                if n != 1 {
                    proof {
                        lemma_flags_error_prefix(all, k + 1);
                    }
                    return Err(DefinitionError::FlagInputGroups(flag_def.template));
                }
                let value_type = match ValueType::parse(x.as_str()) {
                    Ok(t) => t,
                    Err(e) => {
                        proof {
                            lemma_flags_error_prefix(all, k + 1);
                        }
                        return Err(e);
                    },
                };
                Some(FlagExpectation { value_type, spans })
            },
            None => None,
        };
        flags.push(Flag {
            template: flag_def.template,
            description: flag_def.description,
            expect,
            multiple: flag_def.multiple,
            suggest: flag_def.suggest,
        });
        proof {
            assert(defs@ =~= all.subrange(flags@.len() as int, all.len() as int));
        }
    }
    proof {
        assert(all.take(flags@.len() as int) =~= all);
    }
    Ok(flags)
}

/// The first error along a list is the first error along a prefix that has one.
proof fn lemma_flags_error_prefix(s: Seq<FlagDef>, n: int)
    requires
        0 <= n <= s.len(),
        flags_error(s.take(n)) is Some,
    ensures
        flags_error(s) == flags_error(s.take(n)),
    decreases s.len() - n,
{
    if n < s.len() {
        assert(s.take(n + 1).drop_last() =~= s.take(n));
        lemma_flags_error_prefix(s, n + 1);
    } else {
        assert(s.take(n) =~= s);
    }
}

proof fn lemma_groups_error_prefix(s: Seq<Seq<char>>, groups: Seq<(Seq<char>, GroupDef)>, template: Seq<char>, n: int)
    requires
        0 <= n <= s.len(),
        groups_error(s.take(n), groups, template) is Some,
    ensures
        groups_error(s, groups, template) == groups_error(s.take(n), groups, template),
    decreases s.len() - n,
{
    if n < s.len() {
        assert(s.take(n + 1).drop_last() =~= s.take(n));
        lemma_groups_error_prefix(s, groups, template, n + 1);
    } else {
        assert(s.take(n) =~= s);
    }
}

proof fn lemma_first_missing_prefix(s: Seq<Seq<char>>, groups: Seq<(Seq<char>, GroupDef)>, n: int)
    requires
        0 <= n <= s.len(),
        first_missing(s.take(n), groups) is Some,
    ensures
        first_missing(s, groups) == first_missing(s.take(n), groups),
    decreases s.len() - n,
{
    if n < s.len() {
        assert(s.take(n + 1).drop_last() =~= s.take(n));
        lemma_first_missing_prefix(s, groups, n + 1);
    } else {
        assert(s.take(n) =~= s);
    }
}

/// A name that no earlier prefix misses is defined.
proof fn lemma_first_missing_none(s: Seq<Seq<char>>, groups: Seq<(Seq<char>, GroupDef)>, j: int)
    requires
        0 <= j < s.len(),
        first_missing(s, groups) is None,
    ensures
        has_key(groups, s[j]),
    decreases s.len(),
{
    if j < s.len() - 1 {
        assert(s.drop_last()[j] == s[j]);
        lemma_first_missing_none(s.drop_last(), groups, j);
    }
}

proof fn lemma_commands_error_prefix(s: Seq<CommandDef>, n: int)
    requires
        0 <= n <= s.len(),
        commands_error(s.take(n)) is Some,
    ensures
        commands_error(s) == commands_error(s.take(n)),
    decreases s.len() - n,
{
    if n < s.len() {
        assert(s.take(n + 1).drop_last() =~= s.take(n));
        lemma_commands_error_prefix(s, n + 1);
    } else {
        assert(s.take(n) =~= s);
    }
}

/// Whether some name occurs twice.
fn has_duplicate(names: &Vec<String>) -> (r: bool)
    ensures
        r == !texts(names@).no_duplicates(),
{
    let ghost t = texts(names@);
    let mut i: usize = 0;
    while i < names.len()
        invariant
            i <= names@.len(),
            t == texts(names@),
            forall|a: int, b: int| 0 <= a < i && 0 <= b < t.len() && a != b ==> t[a] != t[b],
        decreases names@.len() - i,
    {
        let mut j: usize = 0;
        while j < names.len()
            invariant
                i < names@.len(),
                j <= names@.len(),
                t == texts(names@),
                forall|a: int, b: int| 0 <= a < i && 0 <= b < t.len() && a != b ==> t[a] != t[b],
                forall|b: int| 0 <= b < j && b != i ==> t[i as int] != t[b],
            decreases names@.len() - j,
        {
            if j != i && same_text(names[i].as_str(), names[j].as_str()) {
                assert(t[i as int] == t[j as int]);
                return true;
            }
            j = j + 1;
        }
        i = i + 1;
    }
    false
}

/// Whether `name` is one of `names`.
fn contains_text(names: &Vec<String>, name: &str) -> (r: bool)
    ensures
        r == texts(names@).contains(name@),
{
    let mut i: usize = 0;
    while i < names.len()
        invariant
            i <= names@.len(),
            forall|a: int| 0 <= a < i ==> texts(names@)[a] != name@,
        decreases names@.len() - i,
    {
        if same_text(names[i].as_str(), name) {
            assert(texts(names@)[i as int] == name@);
            return true;
        }
        i = i + 1;
    }
    false
}

/// Whether every one of `keys` is among `names`.
fn all_listed(keys: &Vec<String>, names: &Vec<String>) -> (r: bool)
    ensures
        r == forall|i: int| 0 <= i < keys@.len() ==> texts(names@).contains(#[trigger] keys@[i]@),
{
    let mut i: usize = 0;
    while i < keys.len()
        invariant
            i <= keys@.len(),
            forall|a: int| 0 <= a < i ==> texts(names@).contains(#[trigger] keys@[a]@),
        decreases keys@.len() - i,
    {
        if !contains_text(names, keys[i].as_str()) {
            return false;
        }
        i = i + 1;
    }
    true
}

proof fn lemma_first_missing_some(s: Seq<Seq<char>>, groups: Seq<(Seq<char>, GroupDef)>)
    requires
        first_missing(s, groups) is Some,
    ensures
        s.contains(first_missing(s, groups)->Some_0),
        !has_key(groups, first_missing(s, groups)->Some_0),
    decreases s.len(),
{
    if first_missing(s.drop_last(), groups) is Some {
        lemma_first_missing_some(s.drop_last(), groups);
        let x = first_missing(s, groups)->Some_0;
        let i = choose|i: int| 0 <= i < s.drop_last().len() && s.drop_last()[i] == x;
        assert(s[i] == x);
    } else {
        assert(s[s.len() - 1] == s.last());
    }
}

/// A definition whose template names a group that it does not define is
/// refused with an error that names the template and a group missing on one
/// side: the first undefined group, or (when a defined group is also missing
/// from the template) both lists of names, `g` among the template's.
pub proof fn lemma_undefined_group_refused(d: CommandDef, g: Seq<char>)
    requires
        template_groups(d.template@) is Ok,
        template_groups(d.template@)->Ok_0.len() > 0,
        names_of(user_spans(template_groups(d.template@)->Ok_0)).contains(g),
        !has_key(d.groups@, g),
    ensures
        ({
            let names = names_of(user_spans(template_groups(d.template@)->Ok_0));
            match def_error(d) {
                Some(DefinitionErrorView::MissingGroup { template, group }) =>
                    template == d.template@ && names.contains(group) && !has_key(d.groups@, group),
                Some(DefinitionErrorView::GroupMismatch { template, template_groups, groups }) =>
                    template == d.template@ && template_groups == names && groups == keys_of(d.groups@)
                        && template_groups.contains(g),
                _ => false,
            }
        }),
{
    let names = names_of(user_spans(template_groups(d.template@)->Ok_0));
    if keys_listed(names, d.groups@) {
        if first_missing(names, d.groups@) is Some {
            lemma_first_missing_some(names, d.groups@);
        } else {
            let j = choose|j: int| 0 <= j < names.len() && names[j] == g;
            lemma_first_missing_none(names, d.groups@, j);
        }
    }
}

/// A definition that defines a group its template does not name is refused
/// with an error that names the template and lists that group among the
/// defined ones.
pub proof fn lemma_unnamed_group_refused(d: CommandDef, k: Seq<char>)
    requires
        template_groups(d.template@) is Ok,
        template_groups(d.template@)->Ok_0.len() > 0,
        has_key(d.groups@, k),
        !names_of(user_spans(template_groups(d.template@)->Ok_0)).contains(k),
    ensures
        def_error(d) == Some(DefinitionErrorView::GroupMismatch {
            template: d.template@,
            template_groups: names_of(user_spans(template_groups(d.template@)->Ok_0)),
            groups: keys_of(d.groups@),
        }),
        keys_of(d.groups@).contains(k),
{
    let i = choose|i: int| 0 <= i < d.groups@.len() && #[trigger] d.groups@[i].0 == k;
    assert(keys_of(d.groups@)[i] == k);
}

/// A catalog whose definitions before position `i` are sound fails with the
/// first error of definition `i`, when it has one.
pub proof fn lemma_catalog_refused_at(defs: Seq<CommandDef>, i: int)
    requires
        0 <= i < defs.len(),
        commands_error(defs.take(i)) is None,
        def_error(defs[i]) is Some,
    ensures
        commands_error(defs) == def_error(defs[i]),
{
    assert(defs.take(i + 1).drop_last() =~= defs.take(i));
    assert(defs.take(i + 1).last() == defs[i]);
    lemma_commands_error_prefix(defs, i + 1);
}

/// Check one command definition and build the command it describes.
fn build_command(command_def: CommandDef) -> (r: Result<Command, DefinitionError>)
    ensures
        match r {
            Ok(c) => def_error(command_def) is None && command_built(c, command_def),
            Err(e) => def_error(command_def) == Some(e@),
        },
{
    let ghost d = command_def;
    let mut def = command_def;
    let spans = match parse_template_groups(def.template.as_str()) {
        Ok(g) => g,
        Err(e) => {
            return Err(DefinitionError::Template { template: def.template, error: e });
        },
    };
    if spans.len() == 0 {
        return Err(DefinitionError::EmptyTemplate);
    }
    let ghost sv = spans_of(spans@);
    let ghost us = user_spans(sv);
    // The user-input groups, in template order.
    let mut names: Vec<String> = Vec::new();
    let mut optional: Vec<bool> = Vec::new();
    let mut i: usize = 0;
    while i < spans.len()
        invariant
            i <= spans@.len(),
            d == command_def,
            sv == spans_of(spans@),
            names@.len() == optional@.len(),
            names@.len() == user_spans(sv.take(i as int)).len(),
            forall|k: int| 0 <= k < names@.len() ==> #[trigger] names@[k]@ == user_spans(sv.take(i as int))[k].name,
            forall|k: int| 0 <= k < names@.len() ==> #[trigger] optional@[k] == (user_spans(sv.take(i as int))[k].group_type == GroupNameType::UserInput { optional: true }),
        decreases spans@.len() - i,
    {
        proof {
            lemma_user_spans_step(sv, i as int);
        }
        match spans[i].group_type {
            GroupNameType::UserInput { optional: o } => {
                let n = spans[i].name.clone();
                names.push(n);
                optional.push(o);
            },
            GroupNameType::Fixed => {},
        }
        i = i + 1;
    }
    proof {
        assert(sv.take(i as int) =~= sv);
        assert(texts(names@) =~= names_of(us));
    }
    let ghost nv = names_of(us);
    // Every defined group is named by the template.
    let keys = def.groups.keys();
    proof {
        assert(texts(keys@) =~= keys_of(d.groups@));
    }
    if !all_listed(&keys, &names) {
        proof {
            let i = choose|i: int| 0 <= i < keys@.len() && !texts(names@).contains(#[trigger] keys@[i]@);
            assert(keys@[i]@ == d.groups@[i].0);
        }
        return Err(DefinitionError::GroupMismatch { template: def.template.clone(), template_groups: names, groups: keys });
    }
    proof {
        assert forall|i: int| 0 <= i < d.groups@.len() implies nv.contains(#[trigger] d.groups@[i].0) by {
            assert(keys@[i]@ == d.groups@[i].0);
        }
    }
    // Every group of the template is defined.
    let mut k: usize = 0;
    while k < names.len()
        invariant
            k <= names@.len(),
            d == command_def,
            template_groups(d.template@) == Ok::<Seq<Span>, TemplateErrorView>(sv),
            sv.len() > 0,
            us == user_spans(sv),
            nv == texts(names@),
            nv == names_of(us),
            def.groups@ == d.groups@,
            def.template@ == d.template@,
            keys_listed(nv, d.groups@),
            first_missing(nv.take(k as int), d.groups@) is None,
        decreases names@.len() - k,
    {
        proof {
            assert(nv.take(k + 1).drop_last() =~= nv.take(k as int));
        }
        if !def.groups.contains_key(names[k].as_str()) {
            proof {
                assert(first_missing(nv.take(k + 1), d.groups@) == Some(nv[k as int]));
                lemma_first_missing_prefix(nv, d.groups@, k + 1);
            }
            return Err(DefinitionError::MissingGroup { template: def.template.clone(), group: names[k].clone() });
        }
        k = k + 1;
    }
    proof {
        assert(nv.take(k as int) =~= nv);
    }
    // The template names each group once.
    if has_duplicate(&names) || def.groups.len() != names.len() {
        return Err(DefinitionError::GroupMismatch { template: def.template.clone(), template_groups: names, groups: keys });
    }
    proof {
        assert forall|j: int| 0 <= j < nv.len() implies has_key(d.groups@, #[trigger] nv[j]) by {
            lemma_first_missing_none(nv, d.groups@, j);
        }
        assert(groups_match(nv, d.groups@));
    }
    // Each group, in template order.
    let mut cmd_groups: Vec<CmdGroup> = Vec::new();
    let mut k: usize = 0;
    while k < names.len()
        invariant
            k <= names@.len(),
            d == command_def,
            template_groups(d.template@) == Ok::<Seq<Span>, TemplateErrorView>(sv),
            sv.len() > 0,
            us == user_spans(sv),
            nv == texts(names@),
            nv == names_of(us),
            names@.len() == optional@.len(),
            forall|j: int| 0 <= j < names@.len() ==> #[trigger] optional@[j] == (us[j].group_type == GroupNameType::UserInput { optional: true }),
            nv.no_duplicates(),
            first_missing(nv, d.groups@) is None,
            groups_match(nv, d.groups@),
            forall|j: int| 0 <= j < nv.len() ==> has_key(d.groups@, #[trigger] nv[j]),
            def.template@ == d.template@,
            def.description@ == d.description@,
            forall|j: int| k <= j < nv.len() ==> lookup(def.groups@, #[trigger] nv[j]) == lookup(d.groups@, nv[j]) && has_key(def.groups@, nv[j]),
            groups_error(nv.take(k as int), d.groups@, d.template@) is None,
            cmd_groups@.len() == k,
            forall|j: int| 0 <= j < k ==> group_built(#[trigger] cmd_groups@[j], us[j], lookup(d.groups@, us[j].name)->Some_0),
        decreases names@.len() - k,
    {
        let ghost name = nv[k as int];
        proof {
            assert(nv.take(k + 1).drop_last() =~= nv.take(k as int));
            lemma_lookup_has_key(d.groups@, name);
        }
        let g = def.groups.remove(names[k].as_str()).unwrap();
        let ghost gs = group_error(name, g, d.template@);
        proof {
            assert(groups_error(nv.take(k + 1), d.groups@, d.template@) == gs);
            assert forall|j: int| k + 1 <= j < nv.len() implies lookup(def.groups@, #[trigger] nv[j]) == lookup(d.groups@, nv[j]) && has_key(def.groups@, nv[j]) by {
                assert(nv[j] != nv[k as int]);
            }
        }
        let value = match g.expect {
            Some(x) => {
                if g.flags.is_some() {
                    proof {
                        lemma_groups_error_prefix(nv, d.groups@, d.template@, k + 1);
                    }
                    return Err(DefinitionError::BothExpectAndFlags { group: names[k].clone(), template: def.template.clone() });
                }
                match ValueType::parse(x.as_str()) {
                    Ok(t) => GroupValue::Single(t),
                    Err(e) => {
                        proof {
                            lemma_groups_error_prefix(nv, d.groups@, d.template@, k + 1);
                        }
                        return Err(e);
                    },
                }
            },
            None => match g.flags {
                Some(fl) => match prepare_flags(fl) {
                    Ok(flags) => GroupValue::Flags(flags),
                    Err(e) => {
                        proof {
                            lemma_groups_error_prefix(nv, d.groups@, d.template@, k + 1);
                        }
                        return Err(e);
                    },
                },
                None => {
                    proof {
                        lemma_groups_error_prefix(nv, d.groups@, d.template@, k + 1);
                    }
                    return Err(DefinitionError::NoExpectOrFlags { group: names[k].clone(), template: def.template.clone() });
                },
            },
        };
        let group_name = names[k].clone();
        cmd_groups.push(CmdGroup { name: group_name, expect: value, optional: optional[k] });
        k = k + 1;
    }
    proof {
        assert(nv.take(k as int) =~= nv);
    }
    Ok(Command { template: def.template, description: def.description, groups: cmd_groups, spans })
}

/// Parse and check command definitions, and build the commands they describe.
pub fn parse_defs(defs: CommandsDef) -> (r: Result<Vec<Command>, DefinitionError>)
    ensures
        match r {
            Ok(cs) => {
                &&& commands_error(defs.commands@) is None
                &&& cs@.len() == defs.commands@.len()
                &&& forall|i: int| 0 <= i < cs@.len() ==> command_built(#[trigger] cs@[i], defs.commands@[i])
            },
            Err(e) => commands_error(defs.commands@) == Some(e@),
        },
{
    let ghost all = defs.commands@;
    let mut pending = defs.commands;
    let mut commands: Vec<Command> = Vec::new();
    while pending.len() > 0
        invariant
            all == defs.commands@,
            commands@.len() + pending@.len() == all.len(),
            pending@ == all.subrange(commands@.len() as int, all.len() as int),
            commands_error(all.take(commands@.len() as int)) is None,
            forall|i: int| 0 <= i < commands@.len() ==> command_built(#[trigger] commands@[i], all[i]),
        decreases pending@.len(),
    {
        let ghost k = commands@.len() as int;
        let def = pending.pop_front().unwrap();
        assert(def == all[k]);
        assert(all.take(k + 1).drop_last() =~= all.take(k));
        assert(commands_error(all.take(k + 1)) == def_error(all[k]));
        match build_command(def) {
            Ok(c) => {
                commands.push(c);
            },
            Err(e) => {
                proof {
                    lemma_commands_error_prefix(all, k + 1);
                }
                return Err(e);
            },
        }
        proof {
            assert(pending@ =~= all.subrange(commands@.len() as int, all.len() as int));
        }
    }
    proof {
        assert(all.take(commands@.len() as int) =~= all);
    }
    Ok(commands)
}

/// The number of user-input spans.
fn count_user_spans(spans: &Vec<GroupName>) -> (r: usize)
    ensures
        r == user_spans(spans_of(spans@)).len(),
{
    let ghost sv = spans_of(spans@);
    let mut n: usize = 0;
    let mut i: usize = 0;
    while i < spans.len()
        invariant
            i <= spans@.len(),
            sv == spans_of(spans@),
            n == user_spans(sv.take(i as int)).len(),
            n <= i,
        decreases spans@.len() - i,
    {
        proof {
            lemma_user_spans_step(sv, i as int);
        }
        if spans[i].group_type != GroupNameType::Fixed {
            n = n + 1;
        }
        i = i + 1;
    }
    proof {
        assert(sv.take(i as int) =~= sv);
    }
    n
}

} // verus!
