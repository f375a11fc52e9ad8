//! Character and line-level text helpers shared by the resolver and the
//! note store: whitespace classification, trimming, joining tokens, and
//! splitting a stream of text into lines the way a buffered line reader does.

use vstd::prelude::*;

verus! {

/// The Unicode `White_Space` code points, the set `char::is_whitespace`
/// recognises and `str::trim` strips.
pub open spec fn is_whitespace_char(c: char) -> bool {
    let u = c as u32;
    (0x09 <= u && u <= 0x0D) || u == 0x20 || u == 0x85 || u == 0xA0 || u == 0x1680 || (0x2000
        <= u && u <= 0x200A) || u == 0x2028 || u == 0x2029 || u == 0x202F || u == 0x205F || u
        == 0x3000
}

pub fn char_is_whitespace(c: char) -> (r: bool)
    ensures
        r == is_whitespace_char(c),
{
    let u = c as u32;
    (0x09 <= u && u <= 0x0D) || u == 0x20 || u == 0x85 || u == 0xA0 || u == 0x1680 || (0x2000
        <= u && u <= 0x200A) || u == 0x2028 || u == 0x2029 || u == 0x202F || u == 0x205F || u
        == 0x3000
}

/// A sequence is blank when every character is whitespace; the empty
/// sequence is blank.
pub open spec fn is_blank(s: Seq<char>) -> bool {
    forall|i: int| 0 <= i < s.len() ==> is_whitespace_char(#[trigger] s[i])
}

pub fn is_blank_str(s: &str) -> (r: bool)
    ensures
        r == is_blank(s@),
{
    let n = s.unicode_len();
    let mut i: usize = 0;
    while i < n
        invariant
            i <= n,
            n == s@.len(),
            forall|k: int| 0 <= k < i ==> is_whitespace_char(#[trigger] s@[k]),
        decreases n - i,
    {
        if !char_is_whitespace(s.get_char(i)) {
            assert(!is_whitespace_char(s@[i as int]));
            return false;
        }
        i = i + 1;
    }
    true
}

/// What remains of `s` once leading whitespace is removed.
pub open spec fn trim_start(s: Seq<char>) -> Seq<char>
    decreases s.len(),
{
    if s.len() == 0 {
        s
    } else if is_whitespace_char(s[0]) {
        trim_start(s.skip(1))
    } else {
        s
    }
}

/// What remains of `s` once trailing whitespace is removed.
pub open spec fn trim_end(s: Seq<char>) -> Seq<char>
    decreases s.len(),
{
    if s.len() == 0 {
        s
    } else if is_whitespace_char(s.last()) {
        trim_end(s.drop_last())
    } else {
        s
    }
}

/// What `str::trim` leaves: the text with leading and trailing whitespace
/// removed.
pub open spec fn trimmed(s: Seq<char>) -> Seq<char> {
    trim_end(trim_start(s))
}

proof fn lemma_trim_start_at(s: Seq<char>, j: int)
    requires
        0 <= j <= s.len(),
        forall|k: int| 0 <= k < j ==> is_whitespace_char(#[trigger] s[k]),
        j < s.len() ==> !is_whitespace_char(s[j]),
    ensures
        trim_start(s) == s.skip(j),
    decreases j,
{
    if j == 0 {
        assert(s.skip(0) =~= s);
    } else {
        assert(is_whitespace_char(s[0]));
        lemma_trim_start_at(s.skip(1), j - 1);
        assert(s.skip(1).skip(j - 1) =~= s.skip(j));
    }
}

proof fn lemma_trim_end_at(s: Seq<char>, b: int)
    requires
        0 <= b <= s.len(),
        forall|k: int| b <= k < s.len() ==> is_whitespace_char(#[trigger] s[k]),
        b > 0 ==> !is_whitespace_char(s[b - 1]),
    ensures
        trim_end(s) == s.take(b),
    decreases s.len(),
{
    if b == s.len() {
        assert(s.take(b) =~= s);
    } else {
        assert(is_whitespace_char(s.last()));
        lemma_trim_end_at(s.drop_last(), b);
        assert(s.drop_last().take(b) =~= s.take(b));
    }
}

/// The whole text is whitespace exactly when trimming leaves nothing.
pub proof fn lemma_blank_iff_trimmed_empty(s: Seq<char>)
    ensures
        is_blank(s) <==> trimmed(s).len() == 0,
    decreases s.len(),
{
    if s.len() == 0 {
    } else if is_whitespace_char(s[0]) {
        lemma_blank_iff_trimmed_empty(s.skip(1));
        if is_blank(s.skip(1)) {
            assert forall|i: int| 0 <= i < s.len() implies is_whitespace_char(
                #[trigger] s[i],
            ) by {
                if i > 0 {
                    assert(s[i] == s.skip(1)[i - 1]);
                    assert(is_whitespace_char(s.skip(1)[i - 1]));
                }
            }
        }
        if is_blank(s) {
            assert forall|k: int| 0 <= k < s.skip(1).len() implies is_whitespace_char(
                #[trigger] s.skip(1)[k],
            ) by {
                assert(s.skip(1)[k] == s[k + 1]);
                assert(is_whitespace_char(s[k + 1]));
            }
        }
        assert(is_blank(s) <==> is_blank(s.skip(1)));
    } else {
        assert(!is_blank(s));
        assert(trim_start(s) == s);
        lemma_trim_end_keeps_head(s);
    }
}

/// When the first character is not whitespace, trimming the end cannot
/// empty the sequence.
proof fn lemma_trim_end_keeps_head(s: Seq<char>)
    requires
        s.len() > 0,
        !is_whitespace_char(s[0]),
    ensures
        trim_end(s).len() > 0,
        trim_end(s)[0] == s[0],
    decreases s.len(),
{
    if is_whitespace_char(s.last()) {
        lemma_trim_end_keeps_head(s.drop_last());
    }
}

pub fn trim_str(s: &str) -> (r: String)
    ensures
        r@ == trimmed(s@),
{
    let n = s.unicode_len();
    let mut a: usize = 0;
    while a < n && char_is_whitespace(s.get_char(a))
        invariant
            a <= n,
            n == s@.len(),
            forall|k: int| 0 <= k < a ==> is_whitespace_char(#[trigger] s@[k]),
        decreases n - a,
    {
        a = a + 1;
    }
    if a == n {
        proof {
            lemma_trim_start_at(s@, a as int);
            assert(s@.skip(n as int) =~= Seq::<char>::empty());
        }
        return String::new();
    }
    let mut b: usize = n;
    while b > a && char_is_whitespace(s.get_char(b - 1))
        invariant
            a <= b <= n,
            n == s@.len(),
            forall|k: int| b <= k < n ==> is_whitespace_char(#[trigger] s@[k]),
            !is_whitespace_char(s@[a as int]),
        decreases b,
    {
        b = b - 1;
    }
    let piece = s.substring_char(a, b);
    proof {
        lemma_trim_start_at(s@, a as int);
        let t = s@.skip(a as int);
        assert(forall|k: int|
            (b - a) <= k < t.len() ==> is_whitespace_char(#[trigger] t[k]));
        lemma_trim_end_at(t, b - a);
        assert(t.take(b - a) =~= s@.subrange(a as int, b as int));
    }
    piece.to_owned()
}

/// The positional tokens joined with exactly one space between each pair.
pub open spec fn join_spaces(ts: Seq<Seq<char>>) -> Seq<char>
    decreases ts.len(),
{
    if ts.len() == 0 {
        Seq::empty()
    } else if ts.len() == 1 {
        ts[0]
    } else {
        join_spaces(ts.drop_last()) + seq![' '] + ts.last()
    }
}

pub fn join_with_spaces(tokens: &Vec<String>) -> (r: String)
    ensures
        r@ == join_spaces(tokens.deep_view()),
{
    let mut out = String::new();
    let mut i: usize = 0;
    proof {
        reveal_strlit(" ");
    }
    while i < tokens.len()
        invariant
            i <= tokens.len(),
            out@ == join_spaces(tokens.deep_view().take(i as int)),
        decreases tokens.len() - i,
    {
        if i > 0 {
            out.append(" ");
            proof {
                reveal_strlit(" ");
                assert(" "@ =~= seq![' ']);
            }
        }
        out.append(tokens[i].as_str());
        proof {
            let tv = tokens.deep_view();
            assert(tv.take(i + 1).drop_last() =~= tv.take(i as int));
            assert(tv.take(i + 1).last() == tv[i as int]);
            assert(tv[i as int] == tokens[i as int]@);
        }
        i = i + 1;
    }
    proof {
        assert(tokens.deep_view().take(tokens.len() as int) =~= tokens.deep_view());
    }
    out
}

/// Index of the first newline in `s`, or `s.len()` when there is none.
pub open spec fn first_newline(s: Seq<char>) -> int
    decreases s.len(),
{
    if s.len() == 0 {
        0
    } else if s[0] == '\n' {
        0
    } else {
        1 + first_newline(s.skip(1))
    }
}

pub proof fn lemma_first_newline(s: Seq<char>)
    ensures
        0 <= first_newline(s) <= s.len(),
        forall|k: int| 0 <= k < first_newline(s) ==> #[trigger] s[k] != '\n',
        first_newline(s) < s.len() ==> s[first_newline(s)] == '\n',
    decreases s.len(),
{
    if s.len() == 0 {
    } else if s[0] == '\n' {
    } else {
        lemma_first_newline(s.skip(1));
        assert forall|k: int| 0 <= k < first_newline(s) implies #[trigger] s[k] != '\n' by {
            if k > 0 {
                assert(s[k] == s.skip(1)[k - 1]);
            }
        }
        if first_newline(s) < s.len() {
            assert(s[first_newline(s)] == s.skip(1)[first_newline(s) - 1]);
        }
    }
}

/// `first_newline` is pinned down by its characteristic facts.
pub proof fn lemma_first_newline_at(s: Seq<char>, j: int)
    requires
        0 <= j <= s.len(),
        forall|k: int| 0 <= k < j ==> #[trigger] s[k] != '\n',
        j < s.len() ==> s[j] == '\n',
    ensures
        first_newline(s) == j,
    decreases j,
{
    if j == 0 {
    } else {
        assert(s[0] != '\n');
        assert forall|k: int| 0 <= k < j - 1 implies #[trigger] s.skip(1)[k] != '\n' by {
            assert(s.skip(1)[k] == s[k + 1]);
        }
        if j - 1 < s.skip(1).len() {
            assert(s.skip(1)[j - 1] == s[j]);
        }
        lemma_first_newline_at(s.skip(1), j - 1);
    }
}

/// A line loses one trailing carriage return, as the line reader strips it.
pub open spec fn strip_trailing_cr(l: Seq<char>) -> Seq<char> {
    if l.len() > 0 && l.last() == '\r' {
        l.drop_last()
    } else {
        l
    }
}

/// The lines of a text, as a buffered reader's `lines` iterator yields
/// them: each `\n` ends a line and is dropped together with a carriage
/// return just before it; text after the last `\n` forms a final line kept
/// as it stands.
pub open spec fn lines_of(s: Seq<char>) -> Seq<Seq<char>>
    decreases s.len(),
    via lines_of_decreases
{
    if s.len() == 0 {
        Seq::empty()
    } else {
        let i = first_newline(s);
        if i >= s.len() {
            seq![s]
        } else {
            seq![strip_trailing_cr(s.subrange(0, i))] + lines_of(
                s.subrange(i + 1, s.len() as int),
            )
        }
    }
}

#[via_fn]
proof fn lines_of_decreases(s: Seq<char>) {
    lemma_first_newline(s);
}

/// The last `n` elements of a sequence, or all of it when it is shorter.
pub open spec fn last_n_of<A>(s: Seq<A>, n: int) -> Seq<A> {
    if n <= 0 {
        Seq::empty()
    } else if n >= s.len() {
        s
    } else {
        s.subrange(s.len() - n, s.len() as int)
    }
}

/// Unfolds `lines_of` on the tail of `s` that starts at `i`, given that
/// the next newline at or after `i` sits at `j` (or that none remains).
pub proof fn lemma_lines_of_step(s: Seq<char>, i: int, j: int)
    requires
        0 <= i <= j <= s.len(),
        forall|k: int| i <= k < j ==> #[trigger] s[k] != '\n',
        j < s.len() ==> s[j] == '\n',
    ensures
        j < s.len() ==> lines_of(s.subrange(i, s.len() as int)) == seq![
            strip_trailing_cr(s.subrange(i, j)),
        ] + lines_of(s.subrange(j + 1, s.len() as int)),
        j == s.len() && i < j ==> lines_of(s.subrange(i, s.len() as int)) == seq![
            s.subrange(i, j),
        ],
        i == s.len() ==> lines_of(s.subrange(i, s.len() as int)) == Seq::<Seq<char>>::empty(),
{
    let sub = s.subrange(i, s.len() as int);
    assert forall|k: int| 0 <= k < j - i implies #[trigger] sub[k] != '\n' by {
        assert(sub[k] == s[i + k]);
    }
    if j - i < sub.len() {
        assert(sub[j - i] == s[j]);
    }
    lemma_first_newline_at(sub, j - i);
    if j < s.len() {
        assert(sub.subrange(0, j - i) =~= s.subrange(i, j));
        assert(sub.subrange(j - i + 1, sub.len() as int) =~= s.subrange(j + 1, s.len() as int));
        assert(strip_trailing_cr(sub.subrange(0, j - i)) == strip_trailing_cr(s.subrange(i, j)));
    }
}

/// Line splitting distributes over concatenation at a newline boundary:
/// text appended after a newline-terminated prefix starts a fresh line.
pub proof fn lemma_lines_of_concat(a: Seq<char>, b: Seq<char>)
    requires
        a.len() == 0 || a.last() == '\n',
    ensures
        lines_of(a + b) == lines_of(a) + lines_of(b),
    decreases a.len(),
{
    if a.len() == 0 {
        assert(a + b =~= b);
        assert(lines_of(a) + lines_of(b) =~= lines_of(b));
    } else {
        lemma_first_newline(a);
        let i = first_newline(a);
        assert(a[a.len() - 1] == '\n');
        assert(i < a.len());
        assert forall|k: int| 0 <= k < i implies #[trigger] (a + b)[k] != '\n' by {
            assert((a + b)[k] == a[k]);
        }
        assert((a + b)[i] == a[i]);
        lemma_first_newline_at(a + b, i);
        assert((a + b).subrange(0, i) =~= a.subrange(0, i));
        let a2 = a.subrange(i + 1, a.len() as int);
        assert((a + b).subrange(i + 1, (a + b).len() as int) =~= a2 + b);
        if a2.len() > 0 {
            assert(a2.last() == a.last());
        }
        lemma_lines_of_concat(a2, b);
        assert(seq![strip_trailing_cr(a.subrange(0, i))] + (lines_of(a2) + lines_of(b)) =~= (seq![
            strip_trailing_cr(a.subrange(0, i)),
        ] + lines_of(a2)) + lines_of(b));
    }
}

/// A single newline-terminated line splits into exactly that line, its
/// carriage return stripped if it ends in one.
pub proof fn lemma_lines_of_entry(l: Seq<char>)
    requires
        forall|k: int| 0 <= k < l.len() ==> #[trigger] l[k] != '\n',
    ensures
        lines_of(l + seq!['\n']) == seq![strip_trailing_cr(l)],
{
    let s = l + seq!['\n'];
    assert forall|k: int| 0 <= k < l.len() implies #[trigger] s[k] != '\n' by {
        assert(s[k] == l[k]);
    }
    assert(s[l.len() as int] == '\n');
    lemma_first_newline_at(s, l.len() as int);
    assert(s.subrange(0, l.len() as int) =~= l);
    let tail = s.subrange(l.len() as int + 1, s.len() as int);
    assert(tail =~= Seq::<char>::empty());
    assert(lines_of(tail) == Seq::<Seq<char>>::empty());
    assert(lines_of(s) == seq![strip_trailing_cr(s.subrange(0, l.len() as int))] + lines_of(
        tail,
    ));
    assert(seq![strip_trailing_cr(l)] + Seq::<Seq<char>>::empty() =~= seq![
        strip_trailing_cr(l),
    ]);
}

/// Splits a text into its lines, newline terminators dropped and a
/// carriage return before each dropped newline stripped.
pub fn split_note_lines(content: &str) -> (lines: Vec<String>)
    ensures
        lines.deep_view() == lines_of(content@),
{
    let n = content.unicode_len();
    let mut out: Vec<String> = Vec::new();
    let mut i: usize = 0;
    proof {
        assert(content@.subrange(0, n as int) =~= content@);
        assert(out.deep_view() =~= Seq::<Seq<char>>::empty());
        assert(out.deep_view() + lines_of(content@) =~= lines_of(content@));
    }
    while i < n
        invariant
            i <= n,
            n == content@.len(),
            lines_of(content@) == out.deep_view() + lines_of(
                content@.subrange(i as int, n as int),
            ),
        decreases n - i,
    {
        let mut j: usize = i;
        while j < n && content.get_char(j) != '\n'
            invariant
                i <= j <= n,
                n == content@.len(),
                forall|k: int| i <= k < j ==> #[trigger] content@[k] != '\n',
            decreases n - j,
        {
            j = j + 1;
        }
        let ghost prior = out.deep_view();
        if j < n {
            let end = if j > i && content.get_char(j - 1) == '\r' {
                j - 1
            } else {
                j
            };
            let line = content.substring_char(i, end);
            out.push(line.to_owned());
            proof {
                lemma_lines_of_step(content@, i as int, j as int);
                assert(strip_trailing_cr(content@.subrange(i as int, j as int)) =~= content@
                    .subrange(i as int, end as int));
                assert(out.deep_view() =~= prior.push(content@.subrange(i as int, end as int)));
                assert(lines_of(content@) =~= out.deep_view() + lines_of(
                    content@.subrange(j + 1, n as int),
                ));
            }
            i = j + 1;
        } else {
            let line = content.substring_char(i, n);
            out.push(line.to_owned());
            proof {
                lemma_lines_of_step(content@, i as int, n as int);
                assert(out.deep_view() =~= prior.push(content@.subrange(i as int, n as int)));
                assert(lines_of(content@) =~= out.deep_view() + lines_of(
                    content@.subrange(n as int, n as int),
                ));
            }
            i = n;
        }
    }
    proof {
        lemma_lines_of_step(content@, n as int, n as int);
        assert(lines_of(content@) =~= out.deep_view());
    }
    out
}

} // verus!
