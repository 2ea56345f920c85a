use vstd::prelude::*;
use crate::cmd::{ValueType, valid_char};

verus! {

/// The number of candidate rows the autocomplete window shows at once.
pub const WINDOW_ROWS: usize = 7;

/// Rows the autocomplete window takes: the candidates and a counter line.
pub const AUTOCOMPLETE_ROWS: usize = 8;

/// A key press, as the prompt sees it.
#[derive(Debug, Clone, Copy, PartialEq, Eq, Structural)]
pub enum Key {
    Char(char),
    Ctrl(char),
    Backspace,
    Left,
    Right,
    Up,
    Down,
    Other,
}

/// What the caller does after a key press.
#[derive(Debug, Clone, Copy, PartialEq, Eq, Structural)]
pub enum Outcome {
    /// Redraw and read the next key.
    Continue,
    /// The prompt is done; holds the index of the highlighted candidate in
    /// the filtered list, or `None` when the typed text is the answer.
    Commit(Option<usize>),
    /// The user dismissed this prompt.
    Cancel,
    /// The user asked to abort the whole session.
    Interrupt,
}

/// How a prompt offers candidates.
#[derive(Debug, Clone, Copy, PartialEq, Eq, Structural)]
pub enum AutocompleteMode {
    /// Candidates are shown; with `allow_user_input` the typed text may be
    /// committed instead of a candidate.
    Enabled { allow_user_input: bool },
    /// A plain line of text.
    Plain,
}

impl AutocompleteMode {
    pub fn enabled(&self) -> (r: bool)
        ensures
            r == (*self is Enabled),
    {
        match self {
            AutocompleteMode::Enabled { .. } => true,
            AutocompleteMode::Plain => false,
        }
    }
}

/// The state of a prompt as a mathematical value.
pub struct PromptView {
    pub mode: AutocompleteMode,
    pub expect_input: Option<ValueType>,
    pub input: Seq<char>,
    pub cursor: nat,
    pub candidates: nat,
    pub rows: nat,
    pub selected: nat,
    pub scroll_offset: nat,
}

/// The highlighted row lies inside the visible window, and the cursor inside
/// the text.
pub open spec fn prompt_ok(p: PromptView) -> bool {
    &&& p.cursor <= p.input.len()
    &&& p.scroll_offset <= p.selected
    &&& p.selected < p.scroll_offset + WINDOW_ROWS
    &&& (p.rows > 0 ==> p.selected < p.rows)
    &&& (p.rows == 0 ==> p.selected == 0)
}

/// How a character key changes the text: it is inserted at the cursor,
/// unless the expected value type refuses it.
pub open spec fn char_accepted(expect: Option<ValueType>, c: char) -> bool {
    match expect {
        Some(t) => valid_char(t, c),
        None => true,
    }
}

/// The prompt after the candidate list was filtered anew and `n` candidates
/// came back: the highlight is pulled back into range, and the window
/// follows it when it moved above the window's top.
pub open spec fn refreshed(p: PromptView, n: nat) -> PromptView {
    let rows: nat = match p.mode {
        AutocompleteMode::Enabled { allow_user_input } => if allow_user_input && p.input.len() > 0 {
            n + 1
        } else {
            n
        },
        AutocompleteMode::Plain => 0,
    };
    let candidates: nat = if p.mode is Enabled { n } else { 0 };
    let selected: nat = if p.selected >= rows {
        if rows > 0 { (rows - 1) as nat } else { 0 }
    } else {
        p.selected
    };
    let scroll: nat = if selected < p.scroll_offset { selected } else { p.scroll_offset };
    PromptView { candidates, rows, selected, scroll_offset: scroll, ..p }
}

/// How a key edits the text: a character is inserted at the cursor if the
/// expected type accepts it, Backspace deletes the character left of the
/// cursor, Left and Right move the cursor within the text, and Ctrl-U
/// deletes everything before the cursor.
pub open spec fn edited(p: PromptView, key: Key) -> PromptView {
    match key {
        Key::Ctrl('u') => PromptView { input: p.input.subrange(p.cursor as int, p.input.len() as int), cursor: 0, ..p },
        Key::Char(c) => if c != '\n' && char_accepted(p.expect_input, c) {
            PromptView { input: p.input.insert(p.cursor as int, c), cursor: p.cursor + 1, ..p }
        } else {
            p
        },
        Key::Backspace => if p.cursor > 0 {
            PromptView { input: p.input.remove(p.cursor - 1), cursor: (p.cursor - 1) as nat, ..p }
        } else {
            p
        },
        Key::Left => if p.cursor > 0 { PromptView { cursor: (p.cursor - 1) as nat, ..p } } else { p },
        Key::Right => if p.cursor < p.input.len() { PromptView { cursor: p.cursor + 1, ..p } } else { p },
        _ => p,
    }
}

/// How a key moves the highlight: Up and Down (or Ctrl-J and Ctrl-K) move it
/// by one row within the rows, and the window scrolls by one row when the
/// highlight would leave it.
pub open spec fn navigated(p: PromptView, key: Key) -> PromptView {
    if (key == Key::Up || key == Key::Ctrl('j')) && p.selected > 0 {
        let sel = (p.selected - 1) as nat;
        PromptView { selected: sel, scroll_offset: if sel < p.scroll_offset { (p.scroll_offset - 1) as nat } else { p.scroll_offset }, ..p }
    } else if (key == Key::Down || key == Key::Ctrl('k')) && p.selected + 1 < p.rows {
        let sel = p.selected + 1;
        PromptView { selected: sel, scroll_offset: if sel >= p.scroll_offset + WINDOW_ROWS { p.scroll_offset + 1 } else { p.scroll_offset }, ..p }
    } else {
        p
    }
}

/// What Enter does: with candidates, commit the highlighted one (or the
/// typed text where that is allowed and no candidate is highlighted);
/// without, commit the text, which must not be empty when a value type is
/// expected.
pub open spec fn enter_outcome(p: PromptView) -> Outcome {
    match p.mode {
        AutocompleteMode::Enabled { allow_user_input } => if p.selected < p.candidates {
            Outcome::Commit(Some(p.selected as usize))
        } else if allow_user_input {
            Outcome::Commit(None)
        } else {
            Outcome::Continue
        },
        AutocompleteMode::Plain => if p.expect_input is None || p.input.len() > 0 {
            Outcome::Commit(None)
        } else {
            Outcome::Continue
        },
    }
}

/// The prompt after `key`, and what the caller does next.
pub open spec fn key_step(p: PromptView, key: Key) -> (PromptView, Outcome) {
    if key == Key::Ctrl('c') {
        (p, Outcome::Interrupt)
    } else if key == Key::Ctrl('d') {
        (edited(p, key), Outcome::Cancel)
    } else if key == Key::Char('\n') {
        (p, enter_outcome(p))
    } else {
        (navigated(edited(p, key), key), Outcome::Continue)
    }
}

/// The prompt after each of `keys` in turn (stopping at none of them).
pub open spec fn after_keys(p: PromptView, keys: Seq<Key>) -> PromptView
    decreases keys.len(),
{
    if keys.len() == 0 {
        p
    } else {
        key_step(after_keys(p, keys.drop_last()), keys.last()).0
    }
}

/// Every key press keeps the highlighted row inside the visible window and
/// the cursor inside the text.
pub proof fn lemma_key_step_keeps_window(p: PromptView, key: Key)
    requires
        prompt_ok(p),
    ensures
        prompt_ok(key_step(p, key).0),
{
}

/// Filtering the candidates anew keeps the highlighted row inside the
/// visible window.
pub proof fn lemma_refresh_keeps_window(p: PromptView, n: nat)
    requires
        prompt_ok(p),
    ensures
        prompt_ok(refreshed(p, n)),
{
}

/// Along any sequence of key presses (Up and Down among them) the highlighted
/// row stays within `[scroll_offset, scroll_offset + WINDOW_ROWS)`.
pub proof fn lemma_navigation_keeps_selection_visible(p: PromptView, keys: Seq<Key>)
    requires
        prompt_ok(p),
    ensures
        after_keys(p, keys).scroll_offset <= after_keys(p, keys).selected,
        after_keys(p, keys).selected < after_keys(p, keys).scroll_offset + WINDOW_ROWS,
        prompt_ok(after_keys(p, keys)),
    decreases keys.len(),
{
    if keys.len() > 0 {
        lemma_navigation_keeps_selection_visible(p, keys.drop_last());
        lemma_key_step_keeps_window(after_keys(p, keys.drop_last()), keys.last());
    }
}

/// A typed character is inserted at the cursor when the expected type accepts
/// it (a digit for a number), and leaves the text as it was otherwise.
pub proof fn lemma_typed_character(p: PromptView, c: char)
    requires
        prompt_ok(p),
        c != '\n',
    ensures
        key_step(p, Key::Char(c)).0.input == if char_accepted(p.expect_input, c) {
            p.input.insert(p.cursor as int, c)
        } else {
            p.input
        },
        p.expect_input == Some(ValueType::Number) && !('0' <= c <= '9') ==> key_step(p, Key::Char(c)).0 == p,
        key_step(p, Key::Char(c)).1 == Outcome::Continue,
{
}

/// How the candidate window lays out `total` rows scrolled by `scroll_offset`:
/// the blank lines drawn above the rows to keep the window's height, and the
/// range `[first, end)` of the rows shown.
pub open spec fn window_layout(total: nat, scroll_offset: nat) -> (nat, nat, nat) {
    let padding: nat = if total < WINDOW_ROWS { (WINDOW_ROWS - total) as nat } else { 0 };
    let first: nat = if scroll_offset < total { scroll_offset } else { total };
    let end: nat = if scroll_offset + WINDOW_ROWS < total { (scroll_offset + WINDOW_ROWS) as nat } else { total };
    (padding, first, end)
}

/// The layout of the candidate window: blank lines above, then the rows
/// `first..end`; the row equal to the highlighted one is drawn highlighted.
pub fn candidate_window(total: usize, scroll_offset: usize) -> (r: (usize, usize, usize))
    ensures
        (r.0 as nat, r.1 as nat, r.2 as nat) == window_layout(total as nat, scroll_offset as nat),
{
    let padding = if total < WINDOW_ROWS { WINDOW_ROWS - total } else { 0 };
    let first = if scroll_offset < total { scroll_offset } else { total };
    let end = if scroll_offset < total && total - scroll_offset > WINDOW_ROWS { scroll_offset + WINDOW_ROWS } else { total };
    (padding, first, end)
}

/// The editing state of a prompt.
struct PromptState {
    mode: AutocompleteMode,
    expect_input: Option<ValueType>,
    input: Vec<char>,
    /// Cursor position, in characters from the start of the text.
    cursor: usize,
    /// Candidates that the filter returned.
    candidates: usize,
    /// Rows that can be highlighted: the candidates, and the typed text
    /// when it may be committed.
    rows: usize,
    selected: usize,
    scroll_offset: usize,
}

impl View for PromptState {
    type V = PromptView;

    closed spec fn view(&self) -> PromptView {
        PromptView {
            mode: self.mode,
            expect_input: self.expect_input,
            input: self.input@,
            cursor: self.cursor as nat,
            candidates: self.candidates as nat,
            rows: self.rows as nat,
            selected: self.selected as nat,
            scroll_offset: self.scroll_offset as nat,
        }
    }
}

impl PromptState {
    fn fresh(mode: AutocompleteMode, expect_input: Option<ValueType>) -> (r: PromptState)
        ensures
            r@ == (PromptView {
                mode,
                expect_input,
                input: Seq::empty(),
                cursor: 0,
                candidates: 0,
                rows: 0,
                selected: 0,
                scroll_offset: 0,
            }),
    {
        let r = PromptState {
            mode,
            expect_input,
            input: Vec::new(),
            cursor: 0,
            candidates: 0,
            rows: 0,
            selected: 0,
            scroll_offset: 0,
        };
        assert(r@.input =~= Seq::<char>::empty());
        r
    }

    fn refresh(&mut self, candidate_count: usize)
        requires
            candidate_count < usize::MAX,
            prompt_ok(old(self)@),
        ensures
            final(self)@ == refreshed(old(self)@, candidate_count as nat),
    {
        let (candidates, rows) = match self.mode {
            AutocompleteMode::Enabled { allow_user_input } => if allow_user_input && self.input.len() > 0 {
                (candidate_count, candidate_count + 1)
            } else {
                (candidate_count, candidate_count)
            },
            AutocompleteMode::Plain => (0, 0),
        };
        self.candidates = candidates;
        self.rows = rows;
        if self.selected >= rows {
            self.selected = if rows > 0 { rows - 1 } else { 0 };
        }
        if self.selected < self.scroll_offset {
            self.scroll_offset = self.selected;
        }
    }

    fn enter(&self) -> (r: Outcome)
        ensures
            r == enter_outcome(self@),
    {
        match self.mode {
            AutocompleteMode::Enabled { allow_user_input } => if self.selected < self.candidates {
                Outcome::Commit(Some(self.selected))
            } else if allow_user_input {
                Outcome::Commit(None)
            } else {
                Outcome::Continue
            },
            AutocompleteMode::Plain => if self.expect_input.is_none() || self.input.len() > 0 {
                Outcome::Commit(None)
            } else {
                Outcome::Continue
            },
        }
    }

    fn edit(&mut self, key: Key)
        requires
            prompt_ok(old(self)@),
        ensures
            final(self)@ == edited(old(self)@, key),
    {
        match key {
            Key::Ctrl('u') => {
                let tail = self.input.split_off(self.cursor);
                self.input = tail;
                self.cursor = 0;
            },
            Key::Char(c) => {
                let accepted = match self.expect_input {
                    Some(t) => t.is_valid_char(c),
                    None => true,
                };
                if c != '\n' && accepted {
                    self.input.insert(self.cursor, c);
                    let n = self.input.len();
                    assert(self.cursor < n);
                    self.cursor = self.cursor + 1;
                }
            },
            Key::Backspace => {
                if self.cursor > 0 {
                    self.cursor = self.cursor - 1;
                    self.input.remove(self.cursor);
                }
            },
            Key::Left => {
                if self.cursor > 0 {
                    self.cursor = self.cursor - 1;
                }
            },
            Key::Right => {
                if self.cursor < self.input.len() {
                    self.cursor = self.cursor + 1;
                }
            },
            _ => {},
        }
    }

    fn navigate(&mut self, key: Key)
        requires
            prompt_ok(old(self)@),
        ensures
            final(self)@ == navigated(old(self)@, key),
    {
        if (key == Key::Up || key == Key::Ctrl('j')) && self.selected > 0 {
            self.selected = self.selected - 1;
            if self.selected < self.scroll_offset {
                self.scroll_offset = self.scroll_offset - 1;
            }
        } else if (key == Key::Down || key == Key::Ctrl('k')) && self.selected + 1 < self.rows {
            self.selected = self.selected + 1;
            if self.selected - self.scroll_offset >= WINDOW_ROWS {
                self.scroll_offset = self.scroll_offset + 1;
            }
        }
    }

    fn handle_key(&mut self, key: Key) -> (r: Outcome)
        requires
            prompt_ok(old(self)@),
        ensures
            (final(self)@, r) == key_step(old(self)@, key),
    {
        if key == Key::Ctrl('c') {
            return Outcome::Interrupt;
        }
        if key == Key::Char('\n') {
            return self.enter();
        }
        self.edit(key);
        if key == Key::Ctrl('d') {
            return Outcome::Cancel;
        }
        proof {
            lemma_edit_keeps_window(old(self)@, key);
        }
        self.navigate(key);
        Outcome::Continue
    }
}

proof fn lemma_edit_keeps_window(p: PromptView, key: Key)
    requires
        prompt_ok(p),
    ensures
        prompt_ok(edited(p, key)),
{
}

/// A line editor with an optional autocomplete window. It holds no terminal:
/// the caller draws it, reads keys and hands each one to `handle_key`.
pub struct Readline {
    prefix: String,
    help: Option<String>,
    state: PromptState,
}

impl View for Readline {
    type V = PromptView;

    closed spec fn view(&self) -> PromptView {
        self.state@
    }
}

impl Readline {
    #[verifier::type_invariant]
    spec fn window_ok(&self) -> bool {
        prompt_ok(self.state@)
    }

    pub closed spec fn spec_prefix(&self) -> Seq<char> {
        self.prefix@
    }

    pub closed spec fn spec_help(&self) -> Option<Seq<char>> {
        match self.help {
            Some(h) => Some(h@),
            None => None,
        }
    }

    /// A plain prompt `$` with no help, no expected type and empty text.
    pub fn new() -> (r: Self)
        ensures
            r@.mode == AutocompleteMode::Plain,
            r@.expect_input is None,
            r@.input.len() == 0,
            r@.cursor == 0,
            r@.candidates == 0,
            r@.rows == 0,
            r@.selected == 0,
            r@.scroll_offset == 0,
            r.spec_prefix() == "$"@,
            r.spec_help() is None,
            prompt_ok(r@),
    {
        Readline { prefix: String::from_str("$"), help: None, state: PromptState::fresh(AutocompleteMode::Plain, None) }
    }

    pub fn prefix(self, value: String) -> (r: Self)
        ensures
            r@ == self@,
            r.spec_prefix() == value@,
            r.spec_help() == self.spec_help(),
    {
        proof {
            use_type_invariant(&self);
        }
        Readline { prefix: value, ..self }
    }

    /// Accept only characters that a value of this type may hold.
    pub fn expect(self, expect_type: ValueType) -> (r: Self)
        ensures
            r@ == (PromptView { expect_input: Some(expect_type), ..self@ }),
            r.spec_prefix() == self.spec_prefix(),
            r.spec_help() == self.spec_help(),
    {
        proof {
            use_type_invariant(&self);
        }
        let Readline { prefix, help, state } = self;
        let mut state = state;
        state.expect_input = Some(expect_type);
        Readline { prefix, help, state }
    }

    pub fn help(self, value: String) -> (r: Self)
        ensures
            r@ == self@,
            r.spec_prefix() == self.spec_prefix(),
            r.spec_help() == Some(value@),
    {
        proof {
            use_type_invariant(&self);
        }
        Readline { help: Some(value), ..self }
    }

    pub fn get_prefix(&self) -> (r: &str)
        ensures
            r@ == self.spec_prefix(),
    {
        self.prefix.as_str()
    }

    pub fn get_help(&self) -> (r: Option<&str>)
        ensures
            match r {
                Some(h) => self.spec_help() == Some(h@),
                None => self.spec_help() is None,
            },
    {
        match &self.help {
            Some(h) => Some(h.as_str()),
            None => None,
        }
    }

    /// Start a prompt in `mode`, with empty text and the first row highlighted.
    fn start(&mut self, mode: AutocompleteMode)
        ensures
            final(self)@ == (PromptView {
                mode,
                input: Seq::empty(),
                cursor: 0,
                candidates: 0,
                rows: 0,
                selected: 0,
                scroll_offset: 0,
                ..old(self)@
            }),
            final(self).spec_prefix() == old(self).spec_prefix(),
            final(self).spec_help() == old(self).spec_help(),
    {
        let expect_input = self.state.expect_input;
        self.state = PromptState::fresh(mode, expect_input);
    }

    /// Start a prompt that commits only on one of the candidates.
    pub fn choice(&mut self)
        ensures
            final(self)@ == (PromptView {
                mode: AutocompleteMode::Enabled { allow_user_input: false },
                input: Seq::empty(),
                cursor: 0,
                candidates: 0,
                rows: 0,
                selected: 0,
                scroll_offset: 0,
                ..old(self)@
            }),
            final(self).spec_prefix() == old(self).spec_prefix(),
            final(self).spec_help() == old(self).spec_help(),
    {
        self.start(AutocompleteMode::Enabled { allow_user_input: false });
    }

    /// Start a prompt that commits on a candidate or on the typed text.
    pub fn suggest(&mut self)
        ensures
            final(self)@ == (PromptView {
                mode: AutocompleteMode::Enabled { allow_user_input: true },
                input: Seq::empty(),
                cursor: 0,
                candidates: 0,
                rows: 0,
                selected: 0,
                scroll_offset: 0,
                ..old(self)@
            }),
            final(self).spec_prefix() == old(self).spec_prefix(),
            final(self).spec_help() == old(self).spec_help(),
    {
        self.start(AutocompleteMode::Enabled { allow_user_input: true });
    }

    /// Start a prompt that reads a single line of text.
    pub fn line(&mut self)
        ensures
            final(self)@ == (PromptView {
                mode: AutocompleteMode::Plain,
                input: Seq::empty(),
                cursor: 0,
                candidates: 0,
                rows: 0,
                selected: 0,
                scroll_offset: 0,
                ..old(self)@
            }),
            final(self).spec_prefix() == old(self).spec_prefix(),
            final(self).spec_help() == old(self).spec_help(),
    {
        self.start(AutocompleteMode::Plain);
    }

    /// Take in the number of candidates that the filter returned for the
    /// current text.
    pub fn refresh(&mut self, candidate_count: usize)
        requires
            candidate_count < usize::MAX,
        ensures
            final(self)@ == refreshed(old(self)@, candidate_count as nat),
            prompt_ok(final(self)@),
            final(self).spec_prefix() == old(self).spec_prefix(),
            final(self).spec_help() == old(self).spec_help(),
    {
        proof {
            use_type_invariant(&*self);
        }
        let mut state = PromptState::fresh(AutocompleteMode::Plain, None);
        std::mem::swap(&mut self.state, &mut state);
        state.refresh(candidate_count);
        proof {
            lemma_refresh_keeps_window(old(self)@, candidate_count as nat);
        }
        self.state = state;
    }

    /// Apply one key press.
    pub fn handle_key(&mut self, key: Key) -> (r: Outcome)
        ensures
            (final(self)@, r) == key_step(old(self)@, key),
            prompt_ok(final(self)@),
            final(self).spec_prefix() == old(self).spec_prefix(),
            final(self).spec_help() == old(self).spec_help(),
    {
        proof {
            use_type_invariant(&*self);
        }
        let mut state = PromptState::fresh(AutocompleteMode::Plain, None);
        std::mem::swap(&mut self.state, &mut state);
        let r = state.handle_key(key);
        proof {
            lemma_key_step_keeps_window(old(self)@, key);
        }
        self.state = state;
        r
    }

    /// The typed text.
    pub fn input(&self) -> (r: Vec<char>)
        ensures
            r@ == self@.input,
    {
        self.state.input.clone()
    }

    pub fn cursor(&self) -> (r: usize)
        ensures
            r == self@.cursor,
    {
        self.state.cursor
    }

    pub fn selected(&self) -> (r: usize)
        ensures
            r == self@.selected,
    {
        self.state.selected
    }

    pub fn scroll_offset(&self) -> (r: usize)
        ensures
            r == self@.scroll_offset,
    {
        self.state.scroll_offset
    }

    pub fn rows(&self) -> (r: usize)
        ensures
            r == self@.rows,
    {
        self.state.rows
    }

    pub fn mode(&self) -> (r: AutocompleteMode)
        ensures
            r == self@.mode,
    {
        self.state.mode
    }
}

} // verus!
