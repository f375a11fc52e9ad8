//! The interactive single-line session: optionally emit a prompt marker,
//! read exactly one line, and append it as one entry — or report an
//! empty outcome, leaving the store untouched, when nothing usable was
//! typed. The session is run over the text available on standard input;
//! reading the terminal itself happens outside the library.

use vstd::prelude::*;

use crate::notes::append_note_line_to_file_with_clock;
use crate::notes::note_line;
use crate::notes::stored_text;
use crate::notes::NoteStore;
use crate::text::first_newline;
use crate::text::is_blank;
use crate::text::is_blank_str;
use crate::text::lemma_first_newline_at;
use crate::text::strip_trailing_cr;
use crate::time::Clock;

verus! {

/// What a session did: stored that many entries (always one), or stored
/// nothing because input ended at once or the line was blank.
#[derive(Debug, PartialEq, Eq)]
pub enum InteractiveOutcome {
    Added(usize),
    Empty,
}

/// The one line the session reads: everything before the first newline,
/// with a trailing carriage return stripped — but not trimmed further,
/// so inner and trailing spaces of the typed text survive.
pub open spec fn interactive_line(input: Seq<char>) -> Seq<char> {
    strip_trailing_cr(input.subrange(0, first_newline(input)))
}

/// Runs one interactive session over the text available on standard
/// input. When prompting is enabled the prompt marker `"> "` is written
/// first. Zero bytes of input, or a first line that is blank after
/// trimming, yield `Empty` and leave the store exactly as it was — in
/// particular an absent file is not created. Otherwise the first line,
/// its terminator stripped but its other whitespace preserved, is
/// appended as a single entry stamped by the clock, and the session
/// reports `Added(1)`. Input after the first newline is ignored.
pub fn run_interactive_session<C: Clock>(
    input: &str,
    writer: &mut String,
    prompt_enabled: bool,
    clock: &C,
    datetime_pattern: &str,
    store: &mut NoteStore,
) -> (outcome: InteractiveOutcome)
    ensures
        prompt_enabled ==> final(writer)@ == old(writer)@ + "> "@,
        !prompt_enabled ==> final(writer)@ == old(writer)@,
        input@.len() == 0 || is_blank(interactive_line(input@)) ==> outcome
            == InteractiveOutcome::Empty && *final(store) == *old(store),
        input@.len() > 0 && !is_blank(interactive_line(input@)) ==> outcome
            == InteractiveOutcome::Added(1) && exists|ts: Seq<char>|
            final(store)@ == Some(
                stored_text(old(store)@) + #[trigger] note_line(ts, interactive_line(input@)),
            ),
{
    if prompt_enabled {
        writer.append("> ");
    }
    let n = input.unicode_len();
    if n == 0 {
        return InteractiveOutcome::Empty;
    }
    let mut j: usize = 0;
    while j < n && input.get_char(j) != '\n'
        invariant
            j <= n,
            n == input@.len(),
            forall|k: int| 0 <= k < j ==> #[trigger] input@[k] != '\n',
        decreases n - j,
    {
        j = j + 1;
    }
    proof {
        lemma_first_newline_at(input@, j as int);
    }
    let end = if j > 0 && input.get_char(j - 1) == '\r' {
        j - 1
    } else {
        j
    };
    let line = input.substring_char(0, end);
    proof {
        assert(strip_trailing_cr(input@.subrange(0, j as int)) =~= input@.subrange(
            0,
            end as int,
        ));
        assert(line@ == interactive_line(input@));
    }
    if is_blank_str(line) {
        return InteractiveOutcome::Empty;
    }
    append_note_line_to_file_with_clock(store, clock, datetime_pattern, line);
    proof {
        let ts = choose|ts: Seq<char>|
            store@ == Some(stored_text(old(store)@) + #[trigger] note_line(ts, line@));
        assert(store@ == Some(
            stored_text(old(store)@) + note_line(ts, interactive_line(input@)),
        ));
    }
    InteractiveOutcome::Added(1)
}

} // verus!
