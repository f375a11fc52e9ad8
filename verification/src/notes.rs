//! The note store: an append-only, line-oriented text, one timestamped
//! entry per line. This module models the file's contents and proves the
//! append format and the tail-reading algorithm; opening, reading and
//! writing the file on disk happens outside the library, which is handed
//! the text and hands back what to do with it.

use vstd::prelude::*;
use std::collections::VecDeque;

use crate::text::is_blank;
use crate::text::is_blank_str;
use crate::text::last_n_of;
use crate::text::lemma_lines_of_concat;
use crate::text::lemma_lines_of_entry;
use crate::text::lemma_lines_of_step;
use crate::text::lines_of;
use crate::text::split_note_lines;
use crate::text::strip_trailing_cr;
use crate::time::Clock;

verus! {

/// One stored entry: the timestamp, one space, the text, a newline.
pub open spec fn note_line(timestamp: Seq<char>, text: Seq<char>) -> Seq<char> {
    timestamp + seq![' '] + text + seq!['\n']
}

/// In-memory model of the note file: `None` while the file does not
/// exist, otherwise the file's full text. The file itself is only ever
/// appended to, and is created lazily on the first append.
pub struct NoteStore {
    pub contents: Option<String>,
}

impl View for NoteStore {
    type V = Option<Seq<char>>;

    open spec fn view(&self) -> Option<Seq<char>> {
        match self.contents {
            Some(ref s) => Some(s@),
            None => None,
        }
    }
}

/// The text a store holds: nothing yet when the file is absent.
pub open spec fn stored_text(v: Option<Seq<char>>) -> Seq<char> {
    match v {
        Some(c) => c,
        None => Seq::empty(),
    }
}

impl NoteStore {
    /// A store whose file does not exist yet.
    pub fn new() -> (s: Self)
        ensures
            s@ is None,
    {
        NoteStore { contents: None }
    }

    /// A store over a file that already holds the given text.
    pub fn from_contents(text: String) -> (s: Self)
        ensures
            s@ == Some(text@),
    {
        NoteStore { contents: Some(text) }
    }
}

/// Appends one formatted entry to a text buffer: exactly
/// `timestamp + " " + text + "\n"`, after everything already there.
pub fn append_note_line_to_writer(writer: &mut String, timestamp: &str, text: &str)
    ensures
        final(writer)@ == old(writer)@ + note_line(timestamp@, text@),
{
    writer.append(timestamp);
    writer.append(" ");
    writer.append(text);
    writer.append("\n");
    proof {
        reveal_strlit(" ");
        reveal_strlit("\n");
        assert(" "@ =~= seq![' ']);
        assert("\n"@ =~= seq!['\n']);
        assert(writer@ =~= old(writer)@ + note_line(timestamp@, text@));
    }
}

/// Appends one entry to the store, creating it when the file was absent.
/// Existing content is never truncated or reordered: the store's text
/// grows by exactly one line at the end.
pub fn append_note_line_to_file(store: &mut NoteStore, timestamp: &str, text: &str)
    ensures
        final(store)@ == Some(stored_text(old(store)@) + note_line(timestamp@, text@)),
{
    let prior = store.contents.take();
    let mut buf = match prior {
        Some(s) => s,
        None => String::new(),
    };
    append_note_line_to_writer(&mut buf, timestamp, text);
    store.contents = Some(buf);
}

/// Appends one entry stamped by the clock. The clock's answer is not
/// pinned down, so the entry's timestamp is only known to be whatever
/// text the clock produced.
pub fn append_note_line_to_file_with_clock<C: Clock>(
    store: &mut NoteStore,
    clock: &C,
    datetime_pattern: &str,
    text: &str,
)
    ensures
        exists|ts: Seq<char>|
            final(store)@ == Some(
                stored_text(old(store)@) + #[trigger] note_line(ts, text@),
            ),
{
    let ts = clock.now_formatted(datetime_pattern);
    append_note_line_to_file(store, ts.as_str(), text);
    proof {
        assert(store@ == Some(stored_text(old(store)@) + note_line(ts@, text@)));
    }
}

/// Returns the last `count` lines of the text in original order — all of
/// them when the text has fewer — scanning once from the start while
/// keeping a sliding window of at most `count` lines.
pub fn collect_last_n_lines_from_reader(reader: &str, count: usize) -> (lines: Vec<String>)
    ensures
        lines.deep_view() == last_n_of(lines_of(reader@), count as int),
        lines@.len() == if count as int <= lines_of(reader@).len() {
            count as int
        } else {
            lines_of(reader@).len() as int
        },
        count == 0 ==> lines@.len() == 0,
        count > 0 && lines_of(reader@).len() > 0 ==> lines.deep_view().last() == lines_of(
            reader@,
        ).last(),
{
    let ghost all = lines_of(reader@);
    if count == 0 {
        let lines: Vec<String> = Vec::new();
        proof {
            assert(lines.deep_view() =~= last_n_of(all, 0));
        }
        return lines;
    }
    let n = reader.unicode_len();
    let mut window: VecDeque<String> = VecDeque::with_capacity(count);
    let mut i: usize = 0;
    proof {
        assert(reader@.subrange(0, n as int) =~= reader@);
        assert(Seq::<Seq<char>>::empty() + lines_of(reader@) =~= lines_of(reader@));
    }
    let ghost mut done: Seq<Seq<char>> = Seq::empty();
    while i < n
        invariant
            i <= n,
            n == reader@.len(),
            count > 0,
            all == lines_of(reader@),
            all == done + lines_of(reader@.subrange(i as int, n as int)),
            window@.len() == if done.len() < count {
                done.len() as int
            } else {
                count as int
            },
            forall|k: int|
                0 <= k < window@.len() ==> #[trigger] window@[k]@ == done[done.len()
                    - window@.len() + k],
        decreases n - i,
    {
        let mut j: usize = i;
        while j < n && reader.get_char(j) != '\n'
            invariant
                i <= j <= n,
                n == reader@.len(),
                forall|k: int| i <= k < j ==> #[trigger] reader@[k] != '\n',
            decreases n - j,
        {
            j = j + 1;
        }
        let ghost prior_done = done;
        let line: String;
        if j < n {
            let end = if j > i && reader.get_char(j - 1) == '\r' {
                j - 1
            } else {
                j
            };
            line = reader.substring_char(i, end).to_owned();
            proof {
                lemma_lines_of_step(reader@, i as int, j as int);
                assert(strip_trailing_cr(reader@.subrange(i as int, j as int)) =~= reader@
                    .subrange(i as int, end as int));
                done = done.push(line@);
                assert(seq![line@] + lines_of(reader@.subrange(j + 1, n as int)) =~= lines_of(
                    reader@.subrange(i as int, n as int),
                ));
                assert(prior_done + (seq![line@] + lines_of(reader@.subrange(j + 1, n as int)))
                    =~= done + lines_of(reader@.subrange(j + 1, n as int)));
            }
        } else {
            line = reader.substring_char(i, n).to_owned();
            proof {
                lemma_lines_of_step(reader@, i as int, n as int);
                done = done.push(line@);
                assert(seq![line@] + lines_of(reader@.subrange(n as int, n as int)) =~= lines_of(
                    reader@.subrange(i as int, n as int),
                ));
                assert(prior_done + (seq![line@] + lines_of(reader@.subrange(n as int, n as int)))
                    =~= done + lines_of(reader@.subrange(n as int, n as int)));
            }
        }
        if window.len() == count {
            let _ = window.pop_front();
        }
        window.push_back(line);
        if j < n {
            i = j + 1;
        } else {
            i = n;
        }
    }
    proof {
        lemma_lines_of_step(reader@, n as int, n as int);
        assert(done + Seq::<Seq<char>>::empty() =~= done);
        assert(done =~= all);
    }
    let ghost target = last_n_of(all, count as int);
    proof {
        assert(window@.len() == target.len());
        assert forall|k: int| 0 <= k < window@.len() implies #[trigger] window@[k]@
            == target[k] by {
            assert(window@[k]@ == all[all.len() - window@.len() + k]);
        }
    }
    let mut out: Vec<String> = Vec::new();
    loop
        invariant
            out@.len() + window@.len() == target.len(),
            forall|k: int| 0 <= k < out@.len() ==> #[trigger] out@[k]@ == target[k],
            forall|k: int|
                0 <= k < window@.len() ==> #[trigger] window@[k]@ == target[out@.len() + k],
        ensures
            window@.len() == 0,
        decreases window@.len(),
    {
        match window.pop_front() {
            Some(x) => {
                out.push(x);
            },
            None => {
                break ;
            },
        }
    }
    proof {
        assert(out.deep_view() =~= target);
        if count > 0 && all.len() > 0 {
            assert(target.len() > 0);
            assert(target.last() == all.last());
        }
    }
    out
}

/// Tail read straight from a store: `None` when the file does not exist
/// (the caller reports "no notes yet" rather than an error), otherwise
/// the last `count` lines of its text.
pub fn collect_last_n_lines_from_file_allow_missing(store: &NoteStore, count: usize) -> (r: Option<
    Vec<String>,
>)
    ensures
        r is None <==> store@ is None,
        r matches Some(lines) ==> lines.deep_view() == last_n_of(
            lines_of(stored_text(store@)),
            count as int,
        ),
{
    match &store.contents {
        None => None,
        Some(text) => Some(collect_last_n_lines_from_reader(text.as_str(), count)),
    }
}

/// The lines of a batch input that are stored: those whose trimmed
/// content is non-empty. Blank lines are skipped and not counted.
pub open spec fn kept_lines(input: Seq<char>) -> Seq<Seq<char>> {
    lines_of(input).filter(|l: Seq<char>| !is_blank(l))
}

/// The store text after appending one entry per kept line, the i-th
/// entry stamped with the i-th timestamp.
pub open spec fn batch_appended(
    base: Seq<char>,
    entries: Seq<Seq<char>>,
    stamps: Seq<Seq<char>>,
) -> Seq<char>
    decreases entries.len(),
{
    if entries.len() == 0 {
        base
    } else {
        batch_appended(base, entries.drop_last(), stamps.drop_last()) + note_line(
            stamps.last(),
            entries.last(),
        )
    }
}

/// Appends one independently timestamped entry per non-blank line of the
/// input, in input order, skipping lines whose trimmed content is empty.
/// (Each line gets its own clock reading; the batch does not share one
/// timestamp.) A carriage return before a newline is stripped by the
/// line split; all other trailing whitespace in a line is preserved.
/// Returns how many entries were appended; when every line is blank the
/// store is left untouched — the caller reports that as an empty-input
/// failure, distinct from a write error.
pub fn append_notes_from_input<C: Clock>(
    store: &mut NoteStore,
    clock: &C,
    datetime_pattern: &str,
    input: &str,
) -> (added: usize)
    ensures
        added == kept_lines(input@).len(),
        added == 0 ==> *final(store) == *old(store),
        added > 0 ==> exists|stamps: Seq<Seq<char>>|
            stamps.len() == added && final(store)@ == Some(
                #[trigger] batch_appended(
                    stored_text(old(store)@),
                    kept_lines(input@),
                    stamps,
                ),
            ),
{
    let lines = split_note_lines(input);
    let ghost lv = lines_of(input@);
    let ghost pred = |l: Seq<char>| !is_blank(l);
    let mut added: usize = 0;
    let ghost mut stamps: Seq<Seq<char>> = Seq::empty();
    let mut li: usize = 0;
    proof {
        assert(lv.take(0) =~= Seq::<Seq<char>>::empty());
        assert(lv.take(0).filter(pred).len() == 0) by {
            reveal_with_fuel(Seq::filter, 2);
        }
    }
    while li < lines.len()
        invariant
            li <= lines.len(),
            lines.deep_view() == lv,
            lv.len() == lines.len(),
            added as int == lv.take(li as int).filter(pred).len(),
            stamps.len() == added as int,
            pred == (|l: Seq<char>| !is_blank(l)),
            added == 0 ==> *store == *old(store),
            added > 0 ==> store@ == Some(
                batch_appended(
                    stored_text(old(store)@),
                    lv.take(li as int).filter(pred),
                    stamps,
                ),
            ),
        decreases lines.len() - li,
    {
        proof {
            assert(lv.take(li + 1).drop_last() =~= lv.take(li as int));
            assert(lv.take(li + 1).last() == lv[li as int]);
            assert(lv.take(li + 1).filter(pred) == if pred(lv[li as int]) {
                lv.take(li as int).filter(pred).push(lv[li as int])
            } else {
                lv.take(li as int).filter(pred)
            }) by {
                reveal_with_fuel(Seq::filter, 2);
            }
            assert(lv.take(li as int).filter(pred).len() <= lv.take(li as int).len()) by {
                lv.take(li as int).lemma_filter_len(pred);
            }
            assert(lines.deep_view()[li as int] == lines[li as int]@);
        }
        let line = &lines[li];
        if !is_blank_str(line.as_str()) {
            let ts = clock.now_formatted(datetime_pattern);
            let ghost prior_kept = lv.take(li as int).filter(pred);
            let ghost prior_stamps = stamps;
            append_note_line_to_file(store, ts.as_str(), line.as_str());
            proof {
                stamps = stamps.push(ts@);
                let kept_now = lv.take(li + 1).filter(pred);
                assert(kept_now == prior_kept.push(lv[li as int]));
                assert(kept_now.drop_last() =~= prior_kept);
                assert(stamps.drop_last() =~= prior_stamps);
                assert(stamps.last() == ts@);
                assert(kept_now.last() == lv[li as int]);
                assert(batch_appended(stored_text(old(store)@), kept_now, stamps)
                    == batch_appended(stored_text(old(store)@), kept_now.drop_last(),
                    stamps.drop_last()) + note_line(stamps.last(), kept_now.last()));
                if added == 0 {
                    assert(batch_appended(
                        stored_text(old(store)@),
                        kept_now.drop_last(),
                        stamps.drop_last(),
                    ) == stored_text(old(store)@)) by {
                        assert(kept_now.drop_last().len() == 0);
                    }
                }
            }
            added = added + 1;
        }
        li = li + 1;
    }
    proof {
        assert(lv.take(lines.len() as int) =~= lv);
        if added > 0 {
            assert(stamps.len() == added as int && store@ == Some(
                batch_appended(stored_text(old(store)@), kept_lines(input@), stamps),
            ));
        }
    }
    added
}

/// Law: appending an entry to a well-formed store (empty, or ending in a
/// newline as every append leaves it) and then tail-reading at least one
/// line returns the just-appended entry as its last line, exactly
/// `"{timestamp} {text}"` with no extra whitespace; a tail read of one
/// line returns exactly that entry and nothing else.
pub proof fn lemma_append_then_tail_read_one(
    base: Seq<char>,
    timestamp: Seq<char>,
    text: Seq<char>,
    n: int,
)
    requires
        base.len() == 0 || base.last() == '\n',
        forall|k: int| 0 <= k < timestamp.len() ==> #[trigger] timestamp[k] != '\n',
        forall|k: int| 0 <= k < text.len() ==> #[trigger] text[k] != '\n',
        text.len() > 0 ==> text.last() != '\r',
        n >= 1,
    ensures
        last_n_of(lines_of(base + note_line(timestamp, text)), n).len() >= 1,
        last_n_of(lines_of(base + note_line(timestamp, text)), n).last() == timestamp + seq![
            ' ',
        ] + text,
        n == 1 ==> last_n_of(lines_of(base + note_line(timestamp, text)), 1) == seq![
            timestamp + seq![' '] + text,
        ],
{
    let l = timestamp + seq![' '] + text;
    assert forall|k: int| 0 <= k < l.len() implies #[trigger] l[k] != '\n' by {
        if k < timestamp.len() {
            assert(l[k] == timestamp[k]);
        } else if k == timestamp.len() {
            assert(l[k] == ' ');
        } else {
            assert(l[k] == text[k - timestamp.len() - 1]);
        }
    }
    assert(note_line(timestamp, text) =~= l + seq!['\n']);
    lemma_lines_of_concat(base, l + seq!['\n']);
    lemma_lines_of_entry(l);
    assert(strip_trailing_cr(l) == l) by {
        if text.len() > 0 {
            assert(l.last() == text.last());
        } else {
            assert(l.last() == ' ');
        }
    }
    let ls = lines_of(base + note_line(timestamp, text));
    assert(ls =~= lines_of(base).push(l));
    assert(ls.len() >= 1);
    assert(ls.last() == l);
    assert(last_n_of(ls, n).last() == l);
    if n == 1 {
        assert(last_n_of(ls, 1) =~= seq![l]);
    }
}

/// Law: tail reading is repeatable. The lines returned are a pure
/// function of the store's text and the requested count, so two reads of
/// the same store — in particular two reads right after an append, with
/// no write in between — return the same result.
pub proof fn lemma_tail_read_repeatable(
    content: Seq<char>,
    n: int,
    r1: Seq<Seq<char>>,
    r2: Seq<Seq<char>>,
)
    requires
        r1 == last_n_of(lines_of(content), n),
        r2 == last_n_of(lines_of(content), n),
    ensures
        r1 == r2,
{
}

} // verus!
