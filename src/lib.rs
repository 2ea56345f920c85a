//! Assemble shell commands from parameterised templates.
//!
//! A template such as `grep [_OPTIONS_] _PATTERN_ _PATH_` is split into
//! literal text and fillable groups; a command renders itself from whatever
//! values have been collected so far; a wizard decides which value or flag to
//! ask for next; and a small key-driven line editor decides how each key
//! press changes the prompt it is editing. Drawing on a terminal and reading
//! keys are left to the caller.

/// Text helpers and a small ordered map with text keys.
pub mod text;
/// The template language: literal text, `_GROUP_`s and `[_OPTIONAL_]` ones.
pub mod template;
/// Value types, commands, groups and flags, and how a command renders.
pub mod cmd;
/// Command definitions, how they are checked, and the commands they build.
pub mod defs;
/// The commands that come with the tool.
pub mod builtin;
/// Filling `{name}` placeholders from a context.
pub mod dynfmt;
/// Autocomplete candidates and case-insensitive matching.
pub mod complete;
/// The line editor behind each prompt.
pub mod view;
/// Flag selection and the order in which the wizard asks its questions.
pub mod wizard;
/// Terminal styles for `*bold*` and `_underline_` markup.
pub mod style;

pub use cmd::{CmdGroup, Command, Flag, FlagExpectation, GroupValue, ValueType};
pub use complete::{contains_folded, matches_text, AutoComplete, Choice, FixedComplete};
pub use defs::DefinitionError;
pub use dynfmt::FormatError;
pub use style::fmt_text;
pub use template::{parse_template_groups, GroupName, GroupNameType, TemplateError};
pub use text::StrMap;
pub use view::{candidate_window, AutocompleteMode, Key, Outcome, Readline, AUTOCOMPLETE_ROWS, WINDOW_ROWS};
pub use wizard::{flag_fragment, EmptyValueError, FlagSelection, Step, Wizard};
