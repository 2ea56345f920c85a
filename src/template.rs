use vstd::prelude::*;
use crate::text::{chars_of, string_of, concat_text};

verus! {

/// Whether a span of a template is literal text or a value the user fills in.
#[derive(Debug, Clone, Copy, PartialEq, Eq, Structural)]
pub enum GroupNameType {
    UserInput {
        /// For an optional group the user may leave the value out.
        optional: bool,
    },
    /// Literal text, such as the command name `grep `.
    Fixed,
}

/// One span of a parsed template: its text (or group name) and its kind.
#[derive(Debug)]
pub struct GroupName {
    pub name: String,
    pub group_type: GroupNameType,
}

/// A span as a mathematical value.
pub struct Span {
    pub name: Seq<char>,
    pub group_type: GroupNameType,
}

impl View for GroupName {
    type V = Span;

    open spec fn view(&self) -> Span {
        Span { name: self.name@, group_type: self.group_type }
    }
}

impl PartialEq for GroupName {
    fn eq(&self, other: &GroupName) -> (r: bool) {
        self.name == other.name && self.group_type == other.group_type
    }
}

impl vstd::std_specs::cmp::PartialEqSpecImpl for GroupName {
    open spec fn obeys_eq_spec() -> bool {
        true
    }

    open spec fn eq_spec(&self, other: &GroupName) -> bool {
        self@ == other@
    }
}

/// The spans of a list of parsed groups.
pub open spec fn spans_of(g: Seq<GroupName>) -> Seq<Span> {
    g.map_values(|x: GroupName| x@)
}

/// A malformed template.
#[derive(Debug)]
pub enum TemplateError {
    /// A `]` with no `[` open before it; holds the text gathered so far.
    UnmatchedBracket(String),
    /// The template ends inside a `_NAME_` group; holds the name read so far.
    UnterminatedGroup(String),
}

pub enum TemplateErrorView {
    UnmatchedBracket(Seq<char>),
    UnterminatedGroup(Seq<char>),
}

impl View for TemplateError {
    type V = TemplateErrorView;

    open spec fn view(&self) -> TemplateErrorView {
        match self {
            TemplateError::UnmatchedBracket(s) => TemplateErrorView::UnmatchedBracket(s@),
            TemplateError::UnterminatedGroup(s) => TemplateErrorView::UnterminatedGroup(s@),
        }
    }
}

pub open spec fn template_error_message(e: TemplateErrorView) -> Seq<char> {
    match e {
        TemplateErrorView::UnmatchedBracket(g) => "Unexpected ']' in group '"@ + g + "'"@,
        TemplateErrorView::UnterminatedGroup(g) => "Group '"@ + g + "' is not closed"@,
    }
}

impl TemplateError {
    /// A line of text that describes the error.
    pub fn message(&self) -> (r: String)
        ensures
            r@ == template_error_message(self@),
    {
        match self {
            TemplateError::UnmatchedBracket(g) => {
                let s = concat_text("Unexpected ']' in group '", g.as_str());
                concat_text(s.as_str(), "'")
            },
            TemplateError::UnterminatedGroup(g) => {
                let s = concat_text("Group '", g.as_str());
                concat_text(s.as_str(), "' is not closed")
            },
        }
    }
}

/// Where a left-to-right scan of a template stands.
pub struct Scan {
    /// The spans completed so far.
    pub groups: Seq<Span>,
    /// Whether the scan is inside literal text or inside a `_NAME_` group.
    pub state: GroupNameType,
    /// Whether a `[` is open.
    pub optional: bool,
    /// The text of the span being read.
    pub buf: Seq<char>,
    /// The character read last, `*` aside.
    pub prev: char,
}

pub open spec fn scan_start() -> Scan {
    Scan { groups: Seq::empty(), state: GroupNameType::Fixed, optional: false, buf: Seq::empty(), prev: ' ' }
}

/// How one character moves the scan: `*` is dropped without a trace (it is
/// not even remembered as the character read last), `[` and `]` open and
/// close an optional part, an `_` not preceded by `\` opens or closes a group
/// (flushing literal text read before it), an `_` after `\` replaces that
/// backslash with a literal underscore, and any other character is text.
pub open spec fn scan_step(st: Scan, c: char) -> Result<Scan, TemplateErrorView> {
    if c == '*' {
        Ok(st)
    } else if c == '[' {
        Ok(Scan { optional: true, prev: c, ..st })
    } else if c == ']' {
        if st.optional {
            Ok(Scan { optional: false, prev: c, ..st })
        } else {
            Err(TemplateErrorView::UnmatchedBracket(st.buf))
        }
    } else if c == '_' && st.prev != '\\' {
        match st.state {
            GroupNameType::UserInput { .. } => Ok(Scan {
                groups: st.groups.push(Span { name: st.buf, group_type: st.state }),
                state: GroupNameType::Fixed,
                buf: Seq::empty(),
                prev: c,
                ..st
            }),
            GroupNameType::Fixed => Ok(Scan {
                groups: if st.buf.len() > 0 {
                    st.groups.push(Span { name: st.buf, group_type: GroupNameType::Fixed })
                } else {
                    st.groups
                },
                state: GroupNameType::UserInput { optional: st.optional },
                buf: Seq::empty(),
                prev: c,
                ..st
            }),
        }
    } else if c == '_' {
        Ok(Scan { buf: st.buf.drop_last().push('_'), prev: c, ..st })
    } else {
        Ok(Scan { buf: st.buf.push(c), prev: c, ..st })
    }
}

/// The scan after the first `n` characters of `s`, or the first error met.
pub open spec fn scan_prefix(s: Seq<char>, n: nat) -> Result<Scan, TemplateErrorView>
    decreases n,
{
    if n == 0 {
        Ok(scan_start())
    } else {
        match scan_prefix(s, (n - 1) as nat) {
            Ok(st) => scan_step(st, s[n - 1]),
            Err(e) => Err(e),
        }
    }
}

/// The spans of template `s`: the scan of all of it, an error if a group is
/// still open at the end, and the trailing literal text as a last span.
pub open spec fn template_groups(s: Seq<char>) -> Result<Seq<Span>, TemplateErrorView> {
    match scan_prefix(s, s.len()) {
        Err(e) => Err(e),
        Ok(st) => if st.state != GroupNameType::Fixed {
            Err(TemplateErrorView::UnterminatedGroup(st.buf))
        } else if st.buf.len() > 0 {
            Ok(st.groups.push(Span { name: st.buf, group_type: GroupNameType::Fixed }))
        } else {
            Ok(st.groups)
        },
    }
}

/// The text with every `*` taken out.
pub open spec fn without_stars(s: Seq<char>) -> Seq<char>
    decreases s.len(),
{
    if s.len() == 0 {
        Seq::empty()
    } else if s.last() == '*' {
        without_stars(s.drop_last())
    } else {
        without_stars(s.drop_last()).push(s.last())
    }
}

/// The scan of a prefix depends on that prefix alone.
proof fn lemma_scan_prefix_agree(s: Seq<char>, t: Seq<char>, k: nat)
    requires
        k <= s.len(),
        k <= t.len(),
        s.take(k as int) == t.take(k as int),
    ensures
        scan_prefix(s, k) == scan_prefix(t, k),
    decreases k,
{
    if k > 0 {
        assert(s.take(k - 1) =~= s.take(k as int).take(k - 1));
        assert(t.take(k - 1) =~= t.take(k as int).take(k - 1));
        assert(s[k - 1] == s.take(k as int)[k - 1]);
        assert(t[k - 1] == t.take(k as int)[k - 1]);
        lemma_scan_prefix_agree(s, t, (k - 1) as nat);
    }
}

proof fn lemma_scan_without_stars(s: Seq<char>)
    ensures
        scan_prefix(s, s.len()) == scan_prefix(without_stars(s), without_stars(s).len()),
    decreases s.len(),
{
    if s.len() > 0 {
        let t = s.drop_last();
        lemma_scan_without_stars(t);
        assert(s.take(t.len() as int) =~= t.take(t.len() as int));
        lemma_scan_prefix_agree(s, t, t.len());
        let w = without_stars(t);
        if s.last() != '*' {
            let ws = w.push(s.last());
            assert(ws.take(w.len() as int) =~= w.take(w.len() as int));
            lemma_scan_prefix_agree(ws, w, w.len());
            assert(ws[w.len() as int] == s.last());
        }
    }
}

/// Bold markers never change how a template is grouped: a template parses
/// exactly as it does with every `*` taken out.
pub proof fn lemma_stars_do_not_group(s: Seq<char>)
    ensures
        template_groups(s) == template_groups(without_stars(s)),
{
    lemma_scan_without_stars(s);
}

/// Whether a `[` is open at the end of `s`.
pub open spec fn open_after(s: Seq<char>) -> bool
    decreases s.len(),
{
    if s.len() == 0 {
        false
    } else if s.last() == '[' {
        true
    } else if s.last() == ']' {
        false
    } else {
        open_after(s.drop_last())
    }
}

/// Every `]` closes a `[` that is open at that point.
pub open spec fn brackets_closed(s: Seq<char>) -> bool
    decreases s.len(),
{
    if s.len() == 0 {
        true
    } else {
        brackets_closed(s.drop_last()) && (s.last() == ']' ==> open_after(s.drop_last()))
    }
}

/// The last character of `s` that is not a `*` (a space if there is none).
pub open spec fn last_non_star(s: Seq<char>) -> char
    decreases s.len(),
{
    if s.len() == 0 {
        ' '
    } else if s.last() == '*' {
        last_non_star(s.drop_last())
    } else {
        s.last()
    }
}

/// The number of underscores in `s` that are not escaped by a backslash
/// (`*` markers in between aside): the ones that open or close a group.
pub open spec fn toggles(s: Seq<char>) -> nat
    decreases s.len(),
{
    if s.len() == 0 {
        0
    } else {
        toggles(s.drop_last()) + if s.last() == '_' && last_non_star(s.drop_last()) != '\\' { 1nat } else { 0nat }
    }
}

/// The literal text of `s`: markers `*`, `[` and `]` dropped, and each
/// escaped underscore `\_` written as `_`.
pub open spec fn plain(s: Seq<char>) -> Seq<char>
    decreases s.len(),
{
    if s.len() == 0 {
        Seq::empty()
    } else if s.last() == '*' || s.last() == '[' || s.last() == ']' {
        plain(s.drop_last())
    } else if s.last() == '_' {
        plain(s.drop_last()).drop_last().push('_')
    } else {
        plain(s.drop_last()).push(s.last())
    }
}

proof fn lemma_scan_last(s: Seq<char>)
    requires
        s.len() > 0,
    ensures
        scan_prefix(s, s.len()) == match scan_prefix(s.drop_last(), s.drop_last().len()) {
            Ok(st) => scan_step(st, s.last()),
            Err(e) => Err(e),
        },
{
    let t = s.drop_last();
    assert(s.take(t.len() as int) =~= t.take(t.len() as int));
    lemma_scan_prefix_agree(s, t, t.len());
}

/// With brackets well nested, the scan never fails, the group state flips
/// with each unescaped underscore, and without any of them the scan has only
/// gathered the literal text.
proof fn lemma_scan_shape(s: Seq<char>)
    requires
        brackets_closed(s),
    ensures
        scan_prefix(s, s.len()) is Ok,
        scan_prefix(s, s.len())->Ok_0.optional == open_after(s),
        scan_prefix(s, s.len())->Ok_0.prev == last_non_star(s),
        (scan_prefix(s, s.len())->Ok_0.state != GroupNameType::Fixed) == (toggles(s) % 2 == 1),
        toggles(s) == 0 ==> scan_prefix(s, s.len())->Ok_0.groups.len() == 0
            && scan_prefix(s, s.len())->Ok_0.buf == plain(s),
    decreases s.len(),
{
    if s.len() > 0 {
        let t = s.drop_last();
        lemma_scan_shape(t);
        lemma_scan_last(s);
    }
}

/// With brackets well nested, a template is refused exactly when it holds an
/// odd number of unescaped underscores, and then because a group is left open.
pub proof fn lemma_unterminated_exactly_when_odd(s: Seq<char>)
    requires
        brackets_closed(s),
    ensures
        template_groups(s) is Err <==> toggles(s) % 2 == 1,
        template_groups(s) is Err ==> template_groups(s)->Err_0 is UnterminatedGroup,
{
    lemma_scan_shape(s);
}

/// Escaped underscores never open a group: a template with well nested
/// brackets and no unescaped underscore is one literal span of its plain
/// text (or nothing, when that text is empty).
pub proof fn lemma_escaped_underscores_stay_literal(s: Seq<char>)
    requires
        brackets_closed(s),
        toggles(s) == 0,
    ensures
        template_groups(s) == Ok::<Seq<Span>, TemplateErrorView>(if plain(s).len() > 0 {
            seq![Span { name: plain(s), group_type: GroupNameType::Fixed }]
        } else {
            Seq::empty()
        }),
{
    lemma_scan_shape(s);
    let st = scan_prefix(s, s.len())->Ok_0;
    if plain(s).len() > 0 {
        assert(st.groups.push(Span { name: plain(s), group_type: GroupNameType::Fixed }) =~= seq![Span { name: plain(s), group_type: GroupNameType::Fixed }]);
    } else {
        assert(st.groups =~= Seq::<Span>::empty());
    }
}

/// Once the scan has failed, it stays failed with the same error.
proof fn lemma_scan_error_sticks(s: Seq<char>, n: nat, m: nat)
    requires
        n <= m,
        scan_prefix(s, n) is Err,
    ensures
        scan_prefix(s, m) == scan_prefix(s, n),
    decreases m - n,
{
    if n < m {
        lemma_scan_error_sticks(s, n, (m - 1) as nat);
    }
}

/// Read a template and return its spans, in order.
pub fn parse_template_groups(template: &str) -> (r: Result<Vec<GroupName>, TemplateError>)
    ensures
        match r {
            Ok(g) => template_groups(template@) == Ok::<Seq<Span>, TemplateErrorView>(spans_of(g@)),
            Err(e) => template_groups(template@) == Err::<Seq<Span>, TemplateErrorView>(e@),
        },
{
    let chars = chars_of(template);
    let mut groups: Vec<GroupName> = Vec::new();
    let mut state = GroupNameType::Fixed;
    let mut optional_started = false;
    let mut current: Vec<char> = Vec::new();
    let mut prev_char = ' ';
    let mut i: usize = 0;
    proof {
        assert(spans_of(groups@) =~= Seq::<Span>::empty());
        assert(current@ =~= Seq::<char>::empty());
    }
    while i < chars.len()
        invariant
            i <= chars@.len(),
            chars@ == template@,
            scan_prefix(template@, i as nat) == Ok::<Scan, TemplateErrorView>(Scan {
                groups: spans_of(groups@),
                state: state,
                optional: optional_started,
                buf: current@,
                prev: prev_char,
            }),
            prev_char == '\\' ==> current@.len() > 0 && current@.last() == '\\',
        decreases chars@.len() - i,
    {
        let c = chars[i];
        let ghost st = Scan { groups: spans_of(groups@), state: state, optional: optional_started, buf: current@, prev: prev_char };
        let ghost g0 = groups@;
        if c == '*' {
        } else if c == '[' {
            optional_started = true;
        } else if c == ']' {
            if !optional_started {
                proof {
                    assert(scan_prefix(template@, (i + 1) as nat) == scan_step(st, c));
                    lemma_scan_error_sticks(template@, (i + 1) as nat, template@.len());
                }
                return Err(TemplateError::UnmatchedBracket(string_of(current.as_slice())));
            }
            optional_started = false;
        } else if c == '_' && prev_char != '\\' {
            match state {
                GroupNameType::UserInput { .. } => {
                    groups.push(GroupName { name: string_of(current.as_slice()), group_type: state });
                    current = Vec::new();
                    state = GroupNameType::Fixed;
                },
                GroupNameType::Fixed => {
                    if current.len() > 0 {
                        groups.push(GroupName { name: string_of(current.as_slice()), group_type: state });
                        current = Vec::new();
                    }
                    state = GroupNameType::UserInput { optional: optional_started };
                },
            }
        } else if c == '_' {
            current.pop();
            current.push('_');
        } else {
            current.push(c);
        }
        if c != '*' {
            prev_char = c;
        }
        proof {
            assert(template@[i as int] == c);
            assert(scan_prefix(template@, (i + 1) as nat) == scan_step(st, c));
            let next = scan_step(st, c)->Ok_0;
            assert(spans_of(groups@) =~= next.groups);
            assert(current@ =~= next.buf);
        }
        i = i + 1;
    }
    proof {
        assert(chars@.len() == template@.len());
    }
    if state != GroupNameType::Fixed {
        return Err(TemplateError::UnterminatedGroup(string_of(current.as_slice())));
    }
    if current.len() > 0 {
        let ghost g0 = groups@;
        groups.push(GroupName { name: string_of(current.as_slice()), group_type: state });
        proof {
            assert(spans_of(groups@) =~= spans_of(g0).push(Span { name: current@, group_type: GroupNameType::Fixed }));
        }
    }
    Ok(groups)
}

} // verus!
