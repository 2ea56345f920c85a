use vstd::prelude::*;
use crate::cmd::{Command, Flag, GroupValue, render, render_flag};
use crate::template::spans_of;
use crate::text::{concat_text, StrMap, lookup};

verus! {

/// A value the user had to give and left empty.
#[derive(Debug)]
pub enum EmptyValueError {
    /// No value for a single-value group; holds the group's name.
    Group(String),
    /// No value for a flag that expects one; holds the flag's template.
    Flag(String),
}

pub enum EmptyValueErrorView {
    Group(Seq<char>),
    Flag(Seq<char>),
}

impl View for EmptyValueError {
    type V = EmptyValueErrorView;

    open spec fn view(&self) -> EmptyValueErrorView {
        match self {
            EmptyValueError::Group(g) => EmptyValueErrorView::Group(g@),
            EmptyValueError::Flag(f) => EmptyValueErrorView::Flag(f@),
        }
    }
}

pub open spec fn empty_value_message(e: EmptyValueErrorView) -> Seq<char> {
    match e {
        EmptyValueErrorView::Group(g) => "No value for "@ + g + " group"@,
        EmptyValueErrorView::Flag(f) => "No value for "@ + f + " flag"@,
    }
}

impl EmptyValueError {
    /// A line of text that describes the error.
    pub fn message(&self) -> (r: String)
        ensures
            r@ == empty_value_message(self@),
    {
        match self {
            EmptyValueError::Group(g) => {
                let s = concat_text("No value for ", g.as_str());
                concat_text(s.as_str(), " group")
            },
            EmptyValueError::Flag(f) => {
                let s = concat_text("No value for ", f.as_str());
                concat_text(s.as_str(), " flag")
            },
        }
    }
}

/// Two flags are the same flag when template and description agree.
pub open spec fn same_flag(a: Flag, b: Flag) -> bool {
    a.template@ == b.template@ && a.description@ == b.description@
}

/// Flag `i` may still be offered: no flag chosen so far is the same flag.
pub open spec fn is_available(flags: Seq<Flag>, used: Seq<usize>, i: int) -> bool {
    forall|k: int| 0 <= k < used.len() && used[k] < flags.len() ==> !same_flag(#[trigger] flags[used[k] as int], flags[i])
}

/// The chosen positions after flag `i` is chosen: a flag that may be given
/// only once is recorded, a repeatable one is not.
pub open spec fn after_select(flags: Seq<Flag>, used: Seq<usize>, i: usize) -> Seq<usize> {
    if flags[i as int].multiple {
        used
    } else {
        used.push(i)
    }
}

/// Once chosen, a flag that may be given only once is no longer offered; a
/// repeatable flag is offered after being chosen exactly when it was before.
pub proof fn lemma_flag_exclusivity(flags: Seq<Flag>, used: Seq<usize>, i: usize)
    requires
        i < flags.len(),
    ensures
        !flags[i as int].multiple ==> !is_available(flags, after_select(flags, used, i), i as int),
        flags[i as int].multiple ==> forall|j: int| 0 <= j < flags.len() ==>
            #[trigger] is_available(flags, after_select(flags, used, i), j) == is_available(flags, used, j),
{
    if !flags[i as int].multiple {
        let u = used.push(i);
        assert(u[used.len() as int] == i);
        assert(same_flag(flags[u[used.len() as int] as int], flags[i as int]));
    }
}

/// Texts joined with single spaces.
pub open spec fn join_spaced(parts: Seq<Seq<char>>) -> Seq<char>
    decreases parts.len(),
{
    if parts.len() == 0 {
        Seq::empty()
    } else if parts.len() == 1 {
        parts[0]
    } else {
        join_spaced(parts.drop_last()) + " "@ + parts.last()
    }
}

/// What a chosen flag adds to its group: its template, or, for a flag that
/// expects a value, the template with the value written in.
pub open spec fn fragment_of(flag: Flag, value: Seq<char>) -> Seq<char> {
    match flag.expect {
        Some(x) => render_flag(spans_of(x.spans@), value),
        None => flag.template@,
    }
}

/// The flags chosen so far for one flags group.
pub struct FlagSelection {
    used: Vec<usize>,
    combined: Vec<String>,
}

pub struct FlagSelectionView {
    /// Positions of the chosen flags that may not be chosen again.
    pub used: Seq<usize>,
    /// What each chosen flag rendered to, in the order of choice.
    pub combined: Seq<Seq<char>>,
}

impl View for FlagSelection {
    type V = FlagSelectionView;

    closed spec fn view(&self) -> FlagSelectionView {
        FlagSelectionView { used: self.used@, combined: self.combined@.map_values(|s: String| s@) }
    }
}

impl FlagSelection {
    pub fn new() -> (r: Self)
        ensures
            r@.used.len() == 0,
            r@.combined.len() == 0,
    {
        let r = FlagSelection { used: Vec::new(), combined: Vec::new() };
        assert(r@.combined =~= Seq::<Seq<char>>::empty());
        r
    }

    /// The positions of the flags that can still be chosen, in order.
    pub fn available(&self, flags: &Vec<Flag>) -> (r: Vec<usize>)
        ensures
            forall|k: int| 0 <= k < r@.len() ==> #[trigger] r@[k] < flags@.len() && is_available(flags@, self@.used, r@[k] as int),
            forall|i: int| 0 <= i < flags@.len() && is_available(flags@, self@.used, i) ==> r@.contains(i as usize),
            forall|a: int, b: int| 0 <= a < b < r@.len() ==> r@[a] < r@[b],
    {
        let mut out: Vec<usize> = Vec::new();
        let mut i: usize = 0;
        while i < flags.len()
            invariant
                i <= flags@.len(),
                forall|k: int| 0 <= k < out@.len() ==> #[trigger] out@[k] < i && is_available(flags@, self@.used, out@[k] as int),
                forall|j: int| 0 <= j < i && is_available(flags@, self@.used, j) ==> out@.contains(j as usize),
                forall|a: int, b: int| 0 <= a < b < out@.len() ==> out@[a] < out@[b],
            decreases flags@.len() - i,
        {
            let mut free = true;
            let mut k: usize = 0;
            while k < self.used.len()
                invariant
                    i < flags@.len(),
                    k <= self@.used.len(),
                    free == (forall|m: int| 0 <= m < k && self@.used[m] < flags@.len() ==> !same_flag(#[trigger] flags@[self@.used[m] as int], flags@[i as int])),
                decreases self@.used.len() - k,
            {
                let u = self.used[k];
                if u < flags.len() && flags[u].template == flags[i].template && flags[u].description == flags[i].description {
                    free = false;
                }
                k = k + 1;
            }
            let ghost prev = out@;
            if free {
                out.push(i);
                assert(out@[prev.len() as int] == i);
            }
            assert forall|j: int| 0 <= j < i + 1 && is_available(flags@, self@.used, j) implies out@.contains(j as usize) by {
                if j < i {
                    let w = choose|w: int| 0 <= w < prev.len() && prev[w] == j as usize;
                    assert(out@[w] == j as usize);
                }
            }
            i = i + 1;
        }
        out
    }

    /// Record that the user chose flag `index`; a flag that may be given once
    /// is not offered again.
    pub fn select(&mut self, flags: &Vec<Flag>, index: usize)
        requires
            index < flags@.len(),
        ensures
            final(self)@.used == after_select(flags@, old(self)@.used, index),
            final(self)@.combined == old(self)@.combined,
    {
        if !flags[index].multiple {
            self.used.push(index);
        }
    }

    /// Add what a chosen flag rendered to.
    pub fn push_fragment(&mut self, fragment: String)
        ensures
            final(self)@.used == old(self)@.used,
            final(self)@.combined == old(self)@.combined.push(fragment@),
    {
        self.combined.push(fragment);
        assert(self@.combined =~= old(self)@.combined.push(fragment@));
    }

    /// Every flag has been chosen and none may be chosen again.
    pub fn exhausted(&self, flags: &Vec<Flag>) -> (r: bool)
        ensures
            r == (flags@.len() == self@.used.len()),
    {
        flags.len() == self.used.len()
    }

    /// The chosen flags joined with single spaces: the value of the group.
    pub fn value(&self) -> (r: String)
        ensures
            r@ == join_spaced(self@.combined),
    {
        let ghost parts = self@.combined;
        let mut out = String::new();
        let mut i: usize = 0;
        while i < self.combined.len()
            invariant
                i <= self.combined@.len(),
                parts == self@.combined,
                parts.len() == self.combined@.len(),
                out@ == join_spaced(parts.take(i as int)),
            decreases self.combined@.len() - i,
        {
            proof {
                assert(parts.take(i + 1).drop_last() =~= parts.take(i as int));
                assert(parts[i as int] == self.combined@[i as int]@);
            }
            if i > 0 {
                out.append(" ");
            }
            out.append(self.combined[i].as_str());
            proof {
                if i == 0 {
                    assert(out@ =~= join_spaced(parts.take(1)));
                } else {
                    assert(out@ =~= join_spaced(parts.take(i + 1)));
                }
            }
            i = i + 1;
        }
        proof {
            assert(parts.take(i as int) =~= parts);
        }
        out
    }
}

/// What the chosen flag adds to its group, given the value the user typed
/// for it (ignored for a flag that takes none); an empty value for a flag
/// that expects one is refused.
pub fn flag_fragment(flag: &Flag, value: &str) -> (r: Result<String, EmptyValueError>)
    ensures
        match r {
            Ok(s) => !(flag.expect is Some && value@.len() == 0) && s@ == fragment_of(*flag, value@),
            Err(e) => flag.expect is Some && value@.len() == 0 && e@ == EmptyValueErrorView::Flag(flag.template@),
        },
{
    match &flag.expect {
        Some(x) => {
            if value.is_empty() {
                return Err(EmptyValueError::Flag(flag.template.clone()));
            }
            Ok(x.build(value))
        },
        None => Ok(flag.template.clone()),
    }
}

/// What the wizard needs from the user next.
#[derive(Debug, Clone, Copy, PartialEq, Eq, Structural)]
pub enum Step {
    /// A value for the single-value group at this position.
    AskValue(usize),
    /// A flag for the flags group at this position, or none to end the group.
    PickFlag(usize),
    /// A value for flag `flag` of the flags group `group`.
    AskFlagValue { group: usize, flag: usize },
    /// Every group has been handled.
    Done,
}

/// The state of the wizard as a mathematical value.
pub struct WizardView {
    /// The group being filled in.
    pub group: nat,
    /// The values collected so far, by group name.
    pub context: Seq<(Seq<char>, String)>,
    /// The flag choices of the current flags group.
    pub used: Seq<usize>,
    pub combined: Seq<Seq<char>>,
    /// A chosen flag that still waits for its value.
    pub pending: Option<usize>,
}

/// The flags of group `g`.
pub open spec fn group_flags(cmd: Command, g: int) -> Seq<Flag> {
    cmd.groups@[g].expect->Flags_0@
}

/// What the wizard asks for in state `w`.
pub open spec fn step_of(cmd: Command, w: WizardView) -> Step {
    if w.group >= cmd.groups@.len() {
        Step::Done
    } else {
        match cmd.groups@[w.group as int].expect {
            GroupValue::Single(_) => Step::AskValue(w.group as usize),
            GroupValue::Flags(_) => match w.pending {
                Some(f) => Step::AskFlagValue { group: w.group as usize, flag: f },
                None => Step::PickFlag(w.group as usize),
            },
        }
    }
}

/// The wizard moved on to the next group.
pub open spec fn next_group(w: WizardView) -> WizardView {
    WizardView { group: w.group + 1, used: Seq::empty(), combined: Seq::empty(), pending: None, ..w }
}

/// The wizard after a flag rendered to `fragment` was added to the current
/// group, with `used` the flag choices that can no longer be repeated: the
/// group ends once every flag is used up. The context is left as it was.
pub open spec fn after_fragment(flags: Seq<Flag>, w: WizardView, used: Seq<usize>, fragment: Seq<char>) -> WizardView {
    let v = WizardView { used, combined: w.combined.push(fragment), pending: None, ..w };
    if used.len() == flags.len() {
        next_group(v)
    } else {
        v
    }
}

/// `new` is `old` with the value of `k` set to a string that reads `v`.
pub open spec fn sets(old: Seq<(Seq<char>, String)>, new: Seq<(Seq<char>, String)>, k: Seq<char>, v: Seq<char>) -> bool {
    &&& lookup(new, k) is Some
    &&& lookup(new, k)->Some_0@ == v
    &&& forall|j: Seq<char>| j != k ==> lookup(new, j) == lookup(old, j)
}

/// The decisions of the command wizard: which value or flag to ask for next,
/// and how each answer changes the values collected for the command.
pub struct Wizard<'c> {
    command: &'c Command,
    group: usize,
    context: StrMap<String>,
    selection: FlagSelection,
    pending: Option<usize>,
}

impl<'c> View for Wizard<'c> {
    type V = WizardView;

    closed spec fn view(&self) -> WizardView {
        WizardView {
            group: self.group as nat,
            context: self.context@,
            used: self.selection@.used,
            combined: self.selection@.combined,
            pending: self.pending,
        }
    }
}

impl<'c> Wizard<'c> {
    pub closed spec fn command(&self) -> Command {
        *self.command
    }

    /// A wizard at the first group of `command`, with no values yet.
    pub fn new(command: &'c Command) -> (r: Self)
        ensures
            r.command() == *command,
            r@.group == 0,
            r@.context.len() == 0,
            r@.used.len() == 0,
            r@.combined.len() == 0,
            r@.pending is None,
    {
        Wizard { command, group: 0, context: StrMap::new(), selection: FlagSelection::new(), pending: None }
    }

    /// What the wizard asks for now.
    pub fn step(&self) -> (r: Step)
        ensures
            r == step_of(self.command(), self@),
    {
        if self.group >= self.command.groups.len() {
            return Step::Done;
        }
        match &self.command.groups[self.group].expect {
            GroupValue::Single(_) => Step::AskValue(self.group),
            GroupValue::Flags(_) => match self.pending {
                Some(f) => Step::AskFlagValue { group: self.group, flag: f },
                None => Step::PickFlag(self.group),
            },
        }
    }

    /// The command rendered from the values collected so far.
    pub fn preview(&self) -> (r: String)
        ensures
            r@ == render(spans_of(self.command().spans@), self@.context),
    {
        self.command.build(&self.context)
    }

    /// The positions of the flags still on offer for the current group;
    /// nothing when the wizard is not picking a flag.
    pub fn available(&self) -> (r: Vec<usize>)
        ensures
            step_of(self.command(), self@) is PickFlag ==> {
                let flags = group_flags(self.command(), self@.group as int);
                &&& forall|k: int| 0 <= k < r@.len() ==> #[trigger] r@[k] < flags.len() && is_available(flags, self@.used, r@[k] as int)
                &&& forall|i: int| 0 <= i < flags.len() && is_available(flags, self@.used, i) ==> r@.contains(i as usize)
                &&& forall|a: int, b: int| 0 <= a < b < r@.len() ==> r@[a] < r@[b]
            },
            !(step_of(self.command(), self@) is PickFlag) ==> r@.len() == 0,
    {
        if self.group >= self.command.groups.len() || self.pending.is_some() {
            return Vec::new();
        }
        match &self.command.groups[self.group].expect {
            GroupValue::Flags(flags) => self.selection.available(flags),
            GroupValue::Single(_) => Vec::new(),
        }
    }

    fn finish_group(&mut self)
        requires
            old(self).group < old(self).command.groups@.len(),
        ensures
            final(self)@ == next_group(old(self)@),
            final(self).command == old(self).command,
    {
        let n = self.command.groups.len();
        assert(self.group < n);
        self.group = self.group + 1;
        self.selection = FlagSelection::new();
        self.pending = None;
        assert(self@.used =~= Seq::<usize>::empty());
        assert(self@.combined =~= Seq::<Seq<char>>::empty());
    }

    /// Add what a chosen flag rendered to, store the group's value, and end
    /// the group once every flag is used up.
    fn add_fragment(&mut self, flags: &Vec<Flag>, fragment: String)
        requires
            old(self).group < old(self).command.groups@.len(),
            old(self).command.groups@[old(self).group as int].expect == GroupValue::Flags(*flags),
        ensures
            final(self).command == old(self).command,
            final(self)@ == (WizardView {
                context: final(self)@.context,
                ..after_fragment(flags@, old(self)@, old(self)@.used, fragment@)
            }),
            sets(old(self)@.context, final(self)@.context,
                old(self).command.groups@[old(self).group as int].name@,
                join_spaced(old(self)@.combined.push(fragment@))),
    {
        self.selection.push_fragment(fragment);
        self.pending = None;
        let name = self.command.groups[self.group].name.clone();
        let value = self.selection.value();
        self.context.insert(name, value);
        if self.selection.exhausted(flags) {
            self.finish_group();
        }
    }

    /// Answer the current value question. An empty value is refused and
    /// leaves the wizard as it was; asked for no value, the wizard ignores it.
    pub fn answer_value(&mut self, value: String) -> (r: Result<Step, EmptyValueError>)
        ensures
            final(self).command() == old(self).command(),
            match step_of(old(self).command(), old(self)@) {
                Step::AskValue(g) => {
                    let name = old(self).command().groups@[g as int].name@;
                    if value@.len() == 0 {
                        &&& r is Err && r->Err_0@ == EmptyValueErrorView::Group(name)
                        &&& final(self)@ == old(self)@
                    } else {
                        &&& final(self)@ == (WizardView { context: final(self)@.context, ..next_group(old(self)@) })
                        &&& sets(old(self)@.context, final(self)@.context, name, value@)
                        &&& r == Ok::<Step, EmptyValueError>(step_of(final(self).command(), final(self)@))
                    }
                },
                Step::AskFlagValue { group, flag } => {
                    let flags = group_flags(old(self).command(), group as int);
                    let f = flags[flag as int];
                    if flag >= flags.len() {
                        final(self)@ == old(self)@ && r == Ok::<Step, EmptyValueError>(step_of(old(self).command(), old(self)@))
                    } else if f.expect is Some && value@.len() == 0 {
                        &&& r is Err && r->Err_0@ == EmptyValueErrorView::Flag(f.template@)
                        &&& final(self)@ == old(self)@
                    } else {
                        &&& final(self)@ == (WizardView {
                            context: final(self)@.context,
                            ..after_fragment(flags, old(self)@, old(self)@.used, fragment_of(f, value@))
                        })
                        &&& sets(old(self)@.context, final(self)@.context,
                            old(self).command().groups@[group as int].name@,
                            join_spaced(old(self)@.combined.push(fragment_of(f, value@))))
                        &&& r == Ok::<Step, EmptyValueError>(step_of(final(self).command(), final(self)@))
                    }
                },
                _ => final(self)@ == old(self)@ && r == Ok::<Step, EmptyValueError>(step_of(old(self).command(), old(self)@)),
            },
    {
        let step = self.step();
        match step {
            Step::AskValue(g) => {
                let name = &self.command.groups[g].name;
                if value.as_str().is_empty() {
                    return Err(EmptyValueError::Group(name.clone()));
                }
                let key = name.clone();
                self.context.insert(key, value);
                self.finish_group();
                Ok(self.step())
            },
            Step::AskFlagValue { group, flag } => {
                let command = self.command;
                match &command.groups[group].expect {
                    GroupValue::Flags(flags) => {
                        if flag >= flags.len() {
                            return Ok(step);
                        }
                        let fragment = match flag_fragment(&flags[flag], value.as_str()) {
                            Ok(f) => f,
                            Err(e) => {
                                return Err(e);
                            },
                        };
                        self.add_fragment(flags, fragment);
                        Ok(self.step())
                    },
                    GroupValue::Single(_) => Ok(step),
                }
            },
            _ => Ok(step),
        }
    }

    /// Answer the current flag question: a flag still on offer, or `None` to
    /// end the group. A flag that takes a value is then asked for it; a
    /// position that is not on offer leaves the wizard as it was.
    pub fn answer_flag(&mut self, choice: Option<usize>) -> (r: Step)
        ensures
            final(self).command() == old(self).command(),
            r == step_of(final(self).command(), final(self)@),
            match step_of(old(self).command(), old(self)@) {
                Step::PickFlag(g) => {
                    let flags = group_flags(old(self).command(), g as int);
                    match choice {
                        None => final(self)@ == next_group(old(self)@),
                        Some(i) => if !(i < flags.len() && is_available(flags, old(self)@.used, i as int)) {
                            final(self)@ == old(self)@
                        } else if flags[i as int].expect is Some {
                            final(self)@ == (WizardView {
                                used: after_select(flags, old(self)@.used, i),
                                pending: Some(i),
                                ..old(self)@
                            })
                        } else {
                            &&& final(self)@ == (WizardView {
                                context: final(self)@.context,
                                ..after_fragment(flags, old(self)@, after_select(flags, old(self)@.used, i), flags[i as int].template@)
                            })
                            &&& sets(old(self)@.context, final(self)@.context,
                                old(self).command().groups@[g as int].name@,
                                join_spaced(old(self)@.combined.push(flags[i as int].template@)))
                        },
                    }
                },
                _ => final(self)@ == old(self)@,
            },
    {
        let step = self.step();
        match step {
            Step::PickFlag(g) => {
                let command = self.command;
                match &command.groups[g].expect {
                    GroupValue::Flags(flags) => match choice {
                        None => {
                            self.finish_group();
                            self.step()
                        },
                        Some(i) => {
                            if i >= flags.len() || !self.is_offered(flags, i) {
                                return step;
                            }
                            self.selection.select(flags, i);
                            if flags[i].expect.is_some() {
                                self.pending = Some(i);
                            } else {
                                let fragment = flags[i].template.clone();
                                self.add_fragment(flags, fragment);
                            }
                            self.step()
                        },
                    },
                    GroupValue::Single(_) => step,
                }
            },
            _ => step,
        }
    }

    fn is_offered(&self, flags: &Vec<Flag>, i: usize) -> (r: bool)
        requires
            i < flags@.len(),
        ensures
            r == is_available(flags@, self@.used, i as int),
    {
        let offered = self.selection.available(flags);
        let mut k: usize = 0;
        while k < offered.len()
            invariant
                k <= offered@.len(),
                forall|j: int| 0 <= j < offered@.len() ==> is_available(flags@, self@.used, #[trigger] offered@[j] as int),
                forall|j: int| 0 <= j < k ==> offered@[j] != i,
            decreases offered@.len() - k,
        {
            if offered[k] == i {
                assert(offered@[k as int] == i);
                return true;
            }
            k = k + 1;
        }
        proof {
            if is_available(flags@, self@.used, i as int) {
                assert(offered@.contains(i));
            }
        }
        false
    }

    /// The values collected so far.
    pub fn context(&self) -> (r: &StrMap<String>)
        ensures
            r@ == self@.context,
    {
        &self.context
    }
}

} // verus!
