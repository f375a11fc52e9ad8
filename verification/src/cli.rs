//! The action resolver: maps an already-parsed invocation — flags,
//! positional note tokens, and whether standard input is a terminal — to
//! exactly one command action, or refuses it with a described conflict.
//! Resolution is pure decision logic; flag parsing and terminal
//! detection happen outside the library and hand their results in.

use vstd::prelude::*;

use crate::text::join_spaces;
use crate::text::join_with_spaces;
use crate::text::trim_str;
use crate::text::trimmed;

verus! {

/// The print count used when `-p`/`--print` is given without a value.
pub const DEFAULT_PRINT_COUNT: usize = 10;

/// An invocation as the flag parser delivers it.
#[derive(Debug, Clone)]
pub struct Cli {
    /// `-p`/`--print`: absent, present without a value, or present with
    /// an explicit count.
    pub print: Option<Option<usize>>,
    /// `--config-file PATH`: an explicit config file to use.
    pub config_file: Option<String>,
    /// `--config-path`: print the default config file path and exit.
    pub show_config_path: bool,
    /// `-i`/`--interactive`: single-line interactive mode.
    pub interactive: bool,
    /// Trailing positional tokens forming free note text.
    pub note: Vec<String>,
}

/// The one, mutually exclusive action an invocation performs.
#[derive(Debug, PartialEq, Eq)]
pub enum CommandAction {
    Append { text: String },
    Print { count: usize },
    AppendFromStdin,
    InteractiveAppend,
    ShowConfigPath,
}

/// Why resolution refused an invocation: a usage conflict between
/// options, or note text that trims to nothing.
#[derive(Debug, Clone, Copy, PartialEq, Eq, Structural)]
pub enum ResolveError {
    /// `--config-path` combined with any other option or note text.
    ConfigPathCombined,
    /// `--interactive` combined with `--print`/`-p`.
    InteractiveWithPrint,
    /// `--interactive` combined with note text.
    InteractiveWithNoteText,
    /// `--print`/`-p` combined with note text.
    PrintWithNoteText,
    /// Positional note text that is empty once joined and trimmed.
    EmptyNoteText,
}

impl ResolveError {
    /// The diagnostic reported for this refusal.
    pub open spec fn spec_message(&self) -> Seq<char> {
        match self {
            ResolveError::ConfigPathCombined => "--config-path cannot be combined with other options or note text"@,
            ResolveError::InteractiveWithPrint => "cannot mix --interactive with --print/-p"@,
            ResolveError::InteractiveWithNoteText => "cannot supply note text with --interactive"@,
            ResolveError::PrintWithNoteText => "cannot mix note text with --print/-p"@,
            ResolveError::EmptyNoteText => "note text cannot be empty"@,
        }
    }

    pub fn message(&self) -> (r: String)
        ensures
            r@ == self.spec_message(),
    {
        match self {
            ResolveError::ConfigPathCombined => String::from_str(
                "--config-path cannot be combined with other options or note text",
            ),
            ResolveError::InteractiveWithPrint => String::from_str(
                "cannot mix --interactive with --print/-p",
            ),
            ResolveError::InteractiveWithNoteText => String::from_str(
                "cannot supply note text with --interactive",
            ),
            ResolveError::PrintWithNoteText => String::from_str(
                "cannot mix note text with --print/-p",
            ),
            ResolveError::EmptyNoteText => String::from_str("note text cannot be empty"),
        }
    }

    /// Whether this refusal is a conflict between options, as opposed to
    /// empty input.
    pub fn is_usage_conflict(&self) -> (r: bool)
        ensures
            r == !(*self is EmptyNoteText),
    {
        !(matches!(self, ResolveError::EmptyNoteText))
    }
}

impl Cli {
    /// Whether anything besides `--config-path` itself was supplied.
    pub open spec fn spec_other_than_config_path(&self) -> bool {
        self.config_file is Some || self.print is Some || self.interactive || self.note.len()
            > 0
    }

    /// The note text an invocation's positional tokens form: the tokens
    /// joined with single spaces, then trimmed.
    pub open spec fn spec_note_text(&self) -> Seq<char> {
        trimmed(join_spaces(self.note.deep_view()))
    }

    /// The count a print request asks for: the explicit value, or the
    /// default when the flag was given without one.
    pub open spec fn spec_print_count(&self) -> usize {
        match self.print {
            Some(Some(k)) => k,
            _ => DEFAULT_PRINT_COUNT,
        }
    }

    /// Resolves this invocation to exactly one action, in priority
    /// order: `--config-path`, `--interactive`, `--print`, then — with
    /// no positional text — an interactive prompt at a terminal or a
    /// stdin batch off one, and finally a literal append of the joined,
    /// trimmed positional text. Incompatible combinations and text that
    /// trims to nothing are refused. No side effects: this is a pure
    /// decision over already-parsed inputs.
    pub fn resolve_action(&self, stdin_is_terminal: bool) -> (r: Result<
        CommandAction,
        ResolveError,
    >)
        ensures
            self.show_config_path && self.spec_other_than_config_path() ==> r == Err::<
                CommandAction,
                ResolveError,
            >(ResolveError::ConfigPathCombined),
            self.show_config_path && !self.spec_other_than_config_path() ==> r == Ok::<
                CommandAction,
                ResolveError,
            >(CommandAction::ShowConfigPath),
            !self.show_config_path && self.interactive && self.print is Some ==> r == Err::<
                CommandAction,
                ResolveError,
            >(ResolveError::InteractiveWithPrint),
            !self.show_config_path && self.interactive && self.print is None && self.note.len()
                > 0 ==> r == Err::<CommandAction, ResolveError>(
                ResolveError::InteractiveWithNoteText,
            ),
            !self.show_config_path && self.interactive && self.print is None && self.note.len()
                == 0 ==> r == Ok::<CommandAction, ResolveError>(CommandAction::InteractiveAppend),
            !self.show_config_path && !self.interactive && self.print is Some && self.note.len()
                > 0 ==> r == Err::<CommandAction, ResolveError>(ResolveError::PrintWithNoteText),
            !self.show_config_path && !self.interactive && self.print is Some && self.note.len()
                == 0 ==> r == Ok::<CommandAction, ResolveError>(
                (CommandAction::Print { count: self.spec_print_count() }),
            ),
            !self.show_config_path && !self.interactive && self.print is None && self.note.len()
                == 0 && stdin_is_terminal ==> r == Ok::<CommandAction, ResolveError>(
                CommandAction::InteractiveAppend,
            ),
            !self.show_config_path && !self.interactive && self.print is None && self.note.len()
                == 0 && !stdin_is_terminal ==> r == Ok::<CommandAction, ResolveError>(
                CommandAction::AppendFromStdin,
            ),
            !self.show_config_path && !self.interactive && self.print is None && self.note.len()
                > 0 && self.spec_note_text().len() == 0 ==> r == Err::<
                CommandAction,
                ResolveError,
            >(ResolveError::EmptyNoteText),
            !self.show_config_path && !self.interactive && self.print is None && self.note.len()
                > 0 && self.spec_note_text().len() > 0 ==> (r matches Ok(
                CommandAction::Append { text },
            ) && text@ == self.spec_note_text()),
    {
        if self.show_config_path {
            if self.config_file.is_some() || self.print.is_some() || self.interactive
                || self.note.len() > 0 {
                return Err(ResolveError::ConfigPathCombined);
            }
            return Ok(CommandAction::ShowConfigPath);
        }
        if self.interactive {
            if self.print.is_some() {
                return Err(ResolveError::InteractiveWithPrint);
            }
            if self.note.len() > 0 {
                return Err(ResolveError::InteractiveWithNoteText);
            }
            return Ok(CommandAction::InteractiveAppend);
        }
        if let Some(opt) = &self.print {
            if self.note.len() > 0 {
                return Err(ResolveError::PrintWithNoteText);
            }
            let count = match opt {
                Some(k) => *k,
                None => DEFAULT_PRINT_COUNT,
            };
            return Ok(CommandAction::Print { count });
        }
        if self.note.len() == 0 {
            if stdin_is_terminal {
                return Ok(CommandAction::InteractiveAppend);
            }
            return Ok(CommandAction::AppendFromStdin);
        }
        let joined = join_with_spaces(&self.note);
        let text = trim_str(joined.as_str());
        if text.as_str().is_empty() {
            return Err(ResolveError::EmptyNoteText);
        }
        Ok(CommandAction::Append { text })
    }
}

} // verus!
