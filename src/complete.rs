use vstd::prelude::*;
use crate::cmd::{Command, Flag};
use crate::text::chars_of;

verus! {

/// Something that can be offered in an autocomplete list.
pub trait Choice {
    spec fn choice_text(&self) -> Seq<char>;

    /// The text shown for this choice, which the filter matches against.
    fn text(&self) -> (r: &str)
        ensures
            r@ == self.choice_text();
}

impl Choice for String {
    open spec fn choice_text(&self) -> Seq<char> {
        self@
    }

    fn text(&self) -> (r: &str) {
        self.as_str()
    }
}

impl Choice for Command {
    open spec fn choice_text(&self) -> Seq<char> {
        self.description@
    }

    fn text(&self) -> (r: &str) {
        self.description.as_str()
    }
}

impl Choice for Flag {
    open spec fn choice_text(&self) -> Seq<char> {
        self.description@
    }

    fn text(&self) -> (r: &str) {
        self.description.as_str()
    }
}

/// The text that `str::to_lowercase` makes of `s`.
pub uninterp spec fn lower_of(s: Seq<char>) -> Seq<char>;

/// Relies on `str::to_lowercase`: the lowercase form of a text depends on
/// its characters alone.
#[verifier::external_body]
fn lowercase(s: &str) -> (r: String)
    ensures
        r@ == lower_of(s@),
{
    s.to_lowercase()
}

/// `needle` occurs in `hay` as a run of consecutive characters.
pub open spec fn contains_seq(hay: Seq<char>, needle: Seq<char>) -> bool {
    exists|i: int| 0 <= i && i + needle.len() <= hay.len() && #[trigger] hay.subrange(i, i + needle.len()) == needle
}

/// A candidate matches the typed text when, both in lowercase, the text
/// occurs in the candidate.
pub open spec fn text_matches(text: Seq<char>, query: Seq<char>) -> bool {
    contains_seq(lower_of(text), lower_of(query))
}

/// Whether `query` occurs in `text`; both are already in lowercase.
pub fn contains_folded(text: &str, query: &str) -> (r: bool)
    ensures
        r == contains_seq(text@, query@),
{
    let hay = chars_of(text);
    let needle = chars_of(query);
    if needle.len() > hay.len() {
        return false;
    }
    let n = hay.len();
    let last = n - needle.len();
    let mut i: usize = 0;
    while i <= last
        invariant
            n == hay@.len(),
            hay@ == text@,
            needle@ == query@,
            last == hay@.len() - needle@.len(),
            forall|a: int| 0 <= a < i ==> #[trigger] hay@.subrange(a, a + needle@.len()) != needle@,
        decreases last + 1 - i,
    {
        let mut j: usize = 0;
        let mut same = true;
        while j < needle.len() && same
            invariant
                i <= last,
                n == hay@.len(),
                hay@ == text@,
                needle@ == query@,
                last == hay@.len() - needle@.len(),
                j <= needle@.len(),
                same == (forall|b: int| 0 <= b < j ==> hay@[i + b] == needle@[b]),
            decreases needle@.len() - j,
        {
            if hay[i + j] != needle[j] {
                same = false;
            }
            j = j + 1;
        }
        if same {
            assert(hay@.subrange(i as int, i + needle@.len()) =~= needle@);
            return true;
        }
        assert(hay@.subrange(i as int, i + needle@.len()) != needle@) by {
            let b = choose|b: int| 0 <= b < j && hay@[i + b] != needle@[b];
            assert(hay@.subrange(i as int, i + needle@.len())[b] == hay@[i + b]);
        }
        if i == last {
            assert forall|a: int| 0 <= a && a + needle@.len() <= hay@.len() implies #[trigger] hay@.subrange(a, a + needle@.len()) != needle@ by {
                if a < i {
                } else {
                    assert(a == i);
                }
            }
            return false;
        }
        i = i + 1;
    }
    false
}

/// Whether a candidate's text matches the typed text, ignoring case.
pub fn matches_text(text: &str, query: &str) -> (r: bool)
    ensures
        r == text_matches(text@, query@),
{
    let t = lowercase(text);
    let q = lowercase(query);
    contains_folded(t.as_str(), q.as_str())
}

/// A source of autocomplete candidates.
pub trait AutoComplete {
    /// The number of options the source holds.
    spec fn option_count(&self) -> nat;

    /// Whether option `i` matches the typed text `query`.
    spec fn option_matches(&self, i: int, query: Seq<char>) -> bool;

    /// The positions of the options that match `input`, in order.
    fn list(&self, input: &str) -> (r: Vec<usize>)
        ensures
            forall|k: int| 0 <= k < r@.len() ==> #[trigger] r@[k] < self.option_count()
                && self.option_matches(r@[k] as int, input@),
            forall|i: int| 0 <= i < self.option_count() && #[trigger] self.option_matches(i, input@) ==> r@.contains(i as usize),
            forall|a: int, b: int| 0 <= a < b < r@.len() ==> r@[a] < r@[b];
}

/// Autocomplete from a fixed list of options.
pub struct FixedComplete<'c, C> {
    options: &'c Vec<C>,
}

impl<'c, C: Choice> FixedComplete<'c, C> {
    pub fn new(options: &'c Vec<C>) -> (r: Self)
        ensures
            r.options() == options@,
    {
        FixedComplete { options }
    }

    pub closed spec fn options(&self) -> Seq<C> {
        self.options@
    }

    /// The positions of the options whose text matches `input`, in order.
    pub fn matching(&self, input: &str) -> (r: Vec<usize>)
        ensures
            forall|k: int| 0 <= k < r@.len() ==> #[trigger] r@[k] < self.options().len()
                && text_matches(self.options()[r@[k] as int].choice_text(), input@),
            forall|i: int| 0 <= i < self.options().len() && text_matches(#[trigger] self.options()[i].choice_text(), input@) ==> r@.contains(i as usize),
            forall|a: int, b: int| 0 <= a < b < r@.len() ==> r@[a] < r@[b],
    {
        let mut out: Vec<usize> = Vec::new();
        let mut i: usize = 0;
        while i < self.options.len()
            invariant
                i <= self.options@.len(),
                forall|k: int| 0 <= k < out@.len() ==> #[trigger] out@[k] < i
                    && text_matches(self.options@[out@[k] as int].choice_text(), input@),
                forall|j: int| 0 <= j < i && text_matches(#[trigger] self.options@[j].choice_text(), input@) ==> out@.contains(j as usize),
                forall|a: int, b: int| 0 <= a < b < out@.len() ==> out@[a] < out@[b],
            decreases self.options@.len() - i,
        {
            let ghost prev = out@;
            if matches_text(self.options[i].text(), input) {
                out.push(i);
                assert(out@[prev.len() as int] == i);
            }
            assert forall|j: int| 0 <= j < i + 1 && text_matches(#[trigger] self.options@[j].choice_text(), input@) implies out@.contains(j as usize) by {
                if j < i {
                    let w = choose|w: int| 0 <= w < prev.len() && prev[w] == j as usize;
                    assert(out@[w] == j as usize);
                }
            }
            i = i + 1;
        }
        out
    }
}

impl<'c, C: Choice> AutoComplete for FixedComplete<'c, C> {
    open spec fn option_count(&self) -> nat {
        self.options().len()
    }

    open spec fn option_matches(&self, i: int, query: Seq<char>) -> bool {
        text_matches(self.options()[i].choice_text(), query)
    }

    fn list(&self, input: &str) -> (r: Vec<usize>) {
        self.matching(input)
    }
}

} // verus!
