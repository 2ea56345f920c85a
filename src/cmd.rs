use vstd::prelude::*;
use crate::template::{GroupName, GroupNameType, Span, spans_of};
use crate::text::{StrMap, lookup, same_text};
use crate::defs::{DefinitionError, DefinitionErrorView};

verus! {

/// The kind of value a group or a flag asks the user for.
#[derive(Debug, Clone, Copy, PartialEq, Eq, Structural)]
pub enum ValueType {
    String,
    Path,
    Number,
}

/// Whether `c` may be typed while a value of kind `t` is edited.
pub open spec fn valid_char(t: ValueType, c: char) -> bool {
    match t {
        ValueType::String | ValueType::Path => true,
        ValueType::Number => '0' <= c <= '9',
    }
}

/// The value type that a definition names with `v`.
pub open spec fn value_type_named(v: Seq<char>) -> Option<ValueType> {
    if v == "string"@ {
        Some(ValueType::String)
    } else if v == "path"@ {
        Some(ValueType::Path)
    } else if v == "number"@ {
        Some(ValueType::Number)
    } else {
        None
    }
}

impl ValueType {
    /// The value type named `v` in a command definition.
    pub fn parse(v: &str) -> (r: Result<ValueType, DefinitionError>)
        ensures
            match value_type_named(v@) {
                Some(t) => r == Ok::<ValueType, DefinitionError>(t),
                None => r is Err && r->Err_0@ == DefinitionErrorView::UnknownValueType(v@),
            },
    {
        if same_text(v, "string") {
            Ok(ValueType::String)
        } else if same_text(v, "path") {
            Ok(ValueType::Path)
        } else if same_text(v, "number") {
            Ok(ValueType::Number)
        } else {
            Err(DefinitionError::UnknownValueType(String::from_str(v)))
        }
    }

    pub fn is_valid_char(&self, c: char) -> (r: bool)
        ensures
            r == valid_char(*self, c),
    {
        match self {
            ValueType::String | ValueType::Path => true,
            ValueType::Number => '0' <= c && c <= '9',
        }
    }
}

/// What one span contributes to a rendered command: literal text as it is, a
/// group's value when the context holds a non-empty one, otherwise `_NAME_`
/// for a required group and nothing for an optional one.
pub open spec fn render_span(sp: Span, ctx: Seq<(Seq<char>, String)>) -> Seq<char> {
    match sp.group_type {
        GroupNameType::Fixed => sp.name,
        GroupNameType::UserInput { optional } => if lookup(ctx, sp.name) is Some && lookup(ctx, sp.name)->Some_0@.len() > 0 {
            lookup(ctx, sp.name)->Some_0@
        } else if optional {
            Seq::empty()
        } else {
            "_"@ + sp.name + "_"@
        },
    }
}

/// The spans rendered one after another, with nothing in between.
pub open spec fn render(spans: Seq<Span>, ctx: Seq<(Seq<char>, String)>) -> Seq<char>
    decreases spans.len(),
{
    if spans.len() == 0 {
        Seq::empty()
    } else {
        render(spans.drop_last(), ctx) + render_span(spans.last(), ctx)
    }
}

/// A flag's spans with `value` in place of its input group.
pub open spec fn render_flag(spans: Seq<Span>, value: Seq<char>) -> Seq<char>
    decreases spans.len(),
{
    if spans.len() == 0 {
        Seq::empty()
    } else {
        render_flag(spans.drop_last(), value) + match spans.last().group_type {
            GroupNameType::Fixed => spans.last().name,
            GroupNameType::UserInput { .. } => value,
        }
    }
}

/// What a span shows before the user has given any value: literal text, a
/// `_NAME_` placeholder for a required group, nothing for an optional one.
pub open spec fn skeleton(spans: Seq<Span>) -> Seq<char>
    decreases spans.len(),
{
    if spans.len() == 0 {
        Seq::empty()
    } else {
        skeleton(spans.drop_last()) + match spans.last().group_type {
            GroupNameType::Fixed => spans.last().name,
            GroupNameType::UserInput { optional: true } => Seq::empty(),
            GroupNameType::UserInput { optional: false } => "_"@ + spans.last().name + "_"@,
        }
    }
}

/// Rendered from an empty context, a command shows each required group as
/// `_NAME_` and leaves each optional group out.
pub proof fn lemma_render_without_values(spans: Seq<Span>)
    ensures
        render(spans, Seq::empty()) == skeleton(spans),
    decreases spans.len(),
{
    if spans.len() > 0 {
        lemma_render_without_values(spans.drop_last());
    }
}

/// Rendering reads the context only through what it holds for each name:
/// two contexts that agree on every name render every command alike, and
/// rendering again from the same context gives the same text.
pub proof fn lemma_render_by_lookups(spans: Seq<Span>, c1: Seq<(Seq<char>, String)>, c2: Seq<(Seq<char>, String)>)
    requires
        forall|k: Seq<char>| lookup(c1, k) == lookup(c2, k),
    ensures
        render(spans, c1) == render(spans, c2),
    decreases spans.len(),
{
    if spans.len() > 0 {
        lemma_render_by_lookups(spans.drop_last(), c1, c2);
        assert(lookup(c1, spans.last().name) == lookup(c2, spans.last().name));
    }
}

/// A command that the user can pick and fill in.
pub struct Command {
    pub template: String,
    pub description: String,
    /// The user-input groups, in the order in which the template names them.
    pub groups: Vec<CmdGroup>,
    /// The parsed template.
    pub spans: Vec<GroupName>,
}

impl Command {
    /// Render the command from the values collected so far.
    pub fn build(&self, context: &StrMap<String>) -> (r: String)
        ensures
            r@ == render(spans_of(self.spans@), context@),
    {
        let mut out = String::new();
        let mut i: usize = 0;
        while i < self.spans.len()
            invariant
                i <= self.spans@.len(),
                out@ == render(spans_of(self.spans@).take(i as int), context@),
            decreases self.spans@.len() - i,
        {
            let g = &self.spans[i];
            match g.group_type {
                GroupNameType::Fixed => {
                    out.append(g.name.as_str());
                },
                GroupNameType::UserInput { optional } => {
                    let value = context.get(g.name.as_str());
                    if value.is_some() && !value.unwrap().as_str().is_empty() {
                        out.append(value.unwrap().as_str());
                    } else if !optional {
                        out.append("_");
                        out.append(g.name.as_str());
                        out.append("_");
                    }
                },
            }
            proof {
                let t = spans_of(self.spans@).take(i + 1);
                assert(t.drop_last() =~= spans_of(self.spans@).take(i as int));
                assert(t.last() == g@);
                assert(out@ =~= render(t, context@));
            }
            i = i + 1;
        }
        proof {
            assert(spans_of(self.spans@).take(i as int) =~= spans_of(self.spans@));
        }
        out
    }
}

/// A user-input group of a command.
pub struct CmdGroup {
    pub name: String,
    pub expect: GroupValue,
    pub optional: bool,
}

/// What a group asks for: one value, or any number of flags.
pub enum GroupValue {
    Single(ValueType),
    Flags(Vec<Flag>),
}

/// A flag that can be added to a flags group.
pub struct Flag {
    pub template: String,
    pub description: String,
    pub expect: Option<FlagExpectation>,
    /// Whether the flag may be given more than once.
    pub multiple: bool,
    pub suggest: Option<Vec<String>>,
}

impl PartialEq for Flag {
    fn eq(&self, other: &Flag) -> (r: bool) {
        self.template == other.template && self.description == other.description
    }
}

impl vstd::std_specs::cmp::PartialEqSpecImpl for Flag {
    open spec fn obeys_eq_spec() -> bool {
        true
    }

    open spec fn eq_spec(&self, other: &Flag) -> bool {
        self.template@ == other.template@ && self.description@ == other.description@
    }
}

/// The value a flag takes, and how it is written into the flag.
pub struct FlagExpectation {
    pub value_type: ValueType,
    /// The parsed flag template, with exactly one user-input span.
    pub spans: Vec<GroupName>,
}

impl FlagExpectation {
    /// The flag with `value` written into its input group.
    pub fn build(&self, value: &str) -> (r: String)
        ensures
            r@ == render_flag(spans_of(self.spans@), value@),
    {
        let mut out = String::new();
        let mut i: usize = 0;
        while i < self.spans.len()
            invariant
                i <= self.spans@.len(),
                out@ == render_flag(spans_of(self.spans@).take(i as int), value@),
            decreases self.spans@.len() - i,
        {
            let g = &self.spans[i];
            match g.group_type {
                GroupNameType::Fixed => {
                    out.append(g.name.as_str());
                },
                GroupNameType::UserInput { .. } => {
                    out.append(value);
                },
            }
            proof {
                let t = spans_of(self.spans@).take(i + 1);
                assert(t.drop_last() =~= spans_of(self.spans@).take(i as int));
            }
            i = i + 1;
        }
        proof {
            assert(spans_of(self.spans@).take(i as int) =~= spans_of(self.spans@));
        }
        out
    }
}

} // verus!
