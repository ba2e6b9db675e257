//! Indents source text by its braces as it is written.
use vstd::prelude::*;
use crate::text::{push_char, push_str, str_chars};

verus! {

/// The number of spaces of one indentation level.
pub const TAB_SPACES: usize = 2;

/// The state of the formatter: the text written so far, the indentation
/// level and whether a line break is due before the next text.
pub struct FormatterState {
    pub out: Seq<char>,
    pub level: nat,
    pub newline_queued: bool,
}

/// A line break followed by the spaces of `level` indentation levels.
pub open spec fn indent_text(level: nat) -> Seq<char> {
    seq!['\n'] + Seq::new(level * 2, |i: int| ' ')
}

/// The first position at or after `i` that holds a line break, or -1.
pub open spec fn nl_index(s: Seq<char>, i: int) -> int
    decreases s.len() - i,
{
    if i < 0 || i >= s.len() {
        -1
    } else if s[i] == '\n' {
        i
    } else {
        nl_index(s, i + 1)
    }
}

proof fn lemma_nl_index(s: Seq<char>, i: int)
    requires
        0 <= i <= s.len(),
    ensures
        nl_index(s, i) == -1 || (i <= nl_index(s, i) < s.len() && s[nl_index(s, i)] == '\n'),
        forall|j: int| i <= j < s.len() && (nl_index(s, i) == -1 || j < nl_index(s, i)) ==> s[j] != '\n',
    decreases s.len() - i,
{
    if i < s.len() && s[i] != '\n' {
        lemma_nl_index(s, i + 1);
    }
}

/// The text cut at its line breaks; a text with k line breaks has k + 1
/// lines, some of them empty.
pub open spec fn split_lines(s: Seq<char>) -> Seq<Seq<char>>
    decreases s.len(),
    via split_lines_decreases
{
    let k = nl_index(s, 0);
    if k < 0 {
        seq![s]
    } else {
        seq![s.take(k)] + split_lines(s.skip(k + 1))
    }
}

#[via_fn]
proof fn split_lines_decreases(s: Seq<char>) {
    lemma_nl_index(s, 0);
}

/// Writes one line: an empty line only queues a line break; a line that
/// ends with '}' closes a level before it is written, one that ends with
/// '{' opens a level after it. `None` when a '}' closes a level that is not
/// open, or the levels grow past what a `usize` can count.
pub open spec fn write_line(st: FormatterState, line: Seq<char>) -> Option<FormatterState> {
    if line.len() == 0 {
        Some(FormatterState { newline_queued: true, ..st })
    } else if line.last() == '}' && st.level == 0 {
        None
    } else {
        let level1: nat = if line.last() == '}' {
            (st.level - 1) as nat
        } else {
            st.level
        };
        let out = st.out + (if st.newline_queued {
            indent_text(level1)
        } else {
            Seq::empty()
        }) + line;
        let level2: nat = if line.last() == '{' {
            level1 + 1
        } else {
            level1
        };
        if level2 * 2 + 1 > usize::MAX {
            None
        } else {
            Some(FormatterState { out, level: level2, newline_queued: false })
        }
    }
}

/// Writes the lines in order; `None` if one of them cannot be written.
pub open spec fn write_lines(st: FormatterState, lines: Seq<Seq<char>>) -> Option<FormatterState>
    decreases lines.len(),
{
    if lines.len() == 0 {
        Some(st)
    } else {
        match write_line(st, lines[0]) {
            Some(st2) => write_lines(st2, lines.skip(1)),
            None => None,
        }
    }
}

/// Writes the text `s`.
pub open spec fn spec_write_str(st: FormatterState, s: Seq<char>) -> Option<FormatterState> {
    write_lines(st, split_lines(s))
}

/// Writes the pieces of text in order, each as one `write_str`.
pub open spec fn write_pieces(st: FormatterState, pieces: Seq<Seq<char>>) -> Option<FormatterState>
    decreases pieces.len(),
{
    if pieces.len() == 0 {
        Some(st)
    } else {
        match spec_write_str(st, pieces[0]) {
            Some(st2) => write_pieces(st2, pieces.skip(1)),
            None => None,
        }
    }
}

/// Writing two runs of pieces one after the other is writing them joined.
pub proof fn lemma_write_pieces_append(st: FormatterState, a: Seq<Seq<char>>, b: Seq<Seq<char>>)
    ensures
        write_pieces(st, a + b) == match write_pieces(st, a) {
            Some(st2) => write_pieces(st2, b),
            None => None,
        },
    decreases a.len(),
{
    if a.len() > 0 {
        assert((a + b).skip(1) =~= a.skip(1) + b);
        assert((a + b)[0] == a[0]);
        match spec_write_str(st, a[0]) {
            Some(st2) => lemma_write_pieces_append(st2, a.skip(1), b),
            None => {},
        }
    } else {
        assert(a + b =~= b);
    }
}

proof fn lemma_write_lines_extends(st: FormatterState, lines: Seq<Seq<char>>)
    ensures
        write_lines(st, lines) matches Some(st2) ==> st.out.is_prefix_of(st2.out),
    decreases lines.len(),
{
    if lines.len() > 0 {
        if let Some(st1) = write_line(st, lines[0]) {
            lemma_write_lines_extends(st1, lines.skip(1));
            if let Some(st2) = write_lines(st1, lines.skip(1)) {
                assert(st.out =~= st2.out.subrange(0, st.out.len() as int)) by {
                    assert(st.out =~= st1.out.subrange(0, st.out.len() as int));
                    assert(st1.out =~= st2.out.subrange(0, st1.out.len() as int));
                }
            }
        }
    }
}

/// The formatter only adds to what it wrote: what was written before a
/// write is the start of what is written after it.
pub proof fn lemma_write_str_extends(st: FormatterState, s: Seq<char>)
    ensures
        spec_write_str(st, s) matches Some(st2) ==> st.out.is_prefix_of(st2.out),
{
    lemma_write_lines_extends(st, split_lines(s));
}

/// Text on one line that neither opens nor closes a brace is written as it
/// is, after the indentation when a line break is due, and leaves the
/// level where it was.
pub proof fn lemma_plain_text_written_as_is(st: FormatterState, s: Seq<char>)
    requires
        s.len() > 0,
        !s.contains('\n'),
        s.last() != '{',
        s.last() != '}',
    ensures
        spec_write_str(st, s) == Some(
            FormatterState {
                out: st.out + (if st.newline_queued {
                    indent_text(st.level)
                } else {
                    Seq::empty()
                }) + s,
                level: st.level,
                newline_queued: false,
            },
        ) || st.level * 2 + 1 > usize::MAX,
{
    lemma_nl_index(s, 0);
    if nl_index(s, 0) >= 0 {
        assert(s[nl_index(s, 0)] == '\n');
        assert(s.contains('\n'));
    }
    assert(split_lines(s) == seq![s]);
    assert(seq![s][0] == s);
    assert(seq![s].skip(1) =~= Seq::<Seq<char>>::empty());
    if let Some(st2) = write_line(st, s) {
        assert(write_lines(st2, seq![s].skip(1)) == Some(st2));
    }
}

/// A line (no line break in it) that ends with '{' is written after a line
/// break and two spaces for each level in force before it, when a line
/// break is due; only then does the level go up by one.
pub proof fn lemma_opening_line_written(st: FormatterState, s: Seq<char>)
    requires
        s.len() > 0,
        !s.contains('\n'),
        s.last() == '{',
        (st.level + 1) * 2 + 1 <= usize::MAX,
    ensures
        spec_write_str(st, s) == Some(
            FormatterState {
                out: st.out + (if st.newline_queued {
                    seq!['\n'] + Seq::new(st.level * 2, |k: int| ' ')
                } else {
                    Seq::empty()
                }) + s,
                level: st.level + 1,
                newline_queued: false,
            },
        ),
{
    lemma_single_line(s);
    let st1 = write_line(st, s).unwrap();
    assert(write_lines(st1, seq![s].skip(1)) == Some(st1));
}

/// A line (no line break in it) that ends with '}' first closes a level:
/// it is written after a line break and two spaces for each level left
/// open, when a line break is due, and the level goes down by one.
pub proof fn lemma_closing_line_written(st: FormatterState, s: Seq<char>)
    requires
        s.len() > 0,
        !s.contains('\n'),
        s.last() == '}',
        st.level > 0,
        st.level * 2 + 1 <= usize::MAX,
    ensures
        spec_write_str(st, s) == Some(
            FormatterState {
                out: st.out + (if st.newline_queued {
                    seq!['\n'] + Seq::new(((st.level - 1) * 2) as nat, |k: int| ' ')
                } else {
                    Seq::empty()
                }) + s,
                level: (st.level - 1) as nat,
                newline_queued: false,
            },
        ),
{
    lemma_single_line(s);
    let st1 = write_line(st, s).unwrap();
    assert(write_lines(st1, seq![s].skip(1)) == Some(st1));
}

/// A text with no line break in it is one line.
proof fn lemma_single_line(s: Seq<char>)
    requires
        !s.contains('\n'),
    ensures
        split_lines(s) == seq![s],
        seq![s][0] == s,
        seq![s].skip(1) == Seq::<Seq<char>>::empty(),
{
    lemma_nl_index(s, 0);
    if nl_index(s, 0) >= 0 {
        assert(s[nl_index(s, 0)] == '\n');
        assert(s.contains('\n'));
    }
    assert(seq![s].skip(1) =~= Seq::<Seq<char>>::empty());
}

/// The text, if a line break is due, that comes before the next line at
/// `level`.
pub open spec fn due_indent(st: FormatterState, level: nat) -> Seq<char> {
    if st.newline_queued {
        indent_text(level)
    } else {
        Seq::empty()
    }
}

/// A line break only makes one due.
pub proof fn lemma_newline_piece(st: FormatterState)
    ensures
        spec_write_str(st, "\n"@) == Some(FormatterState { newline_queued: true, ..st }),
{
    reveal_strlit("\n");
    let s = "\n"@;
    assert(s == seq!['\n']);
    assert(nl_index(s, 0) == 0);
    assert(s.take(0) =~= Seq::<char>::empty());
    assert(s.skip(1) =~= Seq::<char>::empty());
    let e = Seq::<char>::empty();
    assert(nl_index(e, 0) == -1);
    assert(split_lines(e) == seq![e]);
    assert(split_lines(s) =~= seq![e, e]);
    let st1 = FormatterState { newline_queued: true, ..st };
    assert(seq![e, e][0] == e);
    assert(seq![e, e].skip(1) =~= seq![e]);
    assert(seq![e][0] == e);
    assert(seq![e].skip(1) =~= Seq::<Seq<char>>::empty());
    assert(write_line(st, e) == Some(st1));
    assert(write_line(st1, e) == Some(st1));
    assert(write_lines(st1, Seq::<Seq<char>>::empty()) == Some(st1));
    assert(write_lines(st1, seq![e]) == Some(st1));
}

/// An opening brace at the end of a line is written, the level goes up,
/// and a line break is due.
pub proof fn lemma_open_piece(st: FormatterState)
    requires
        (st.level + 1) * 2 + 1 <= usize::MAX,
    ensures
        spec_write_str(st, "{\n"@) == Some(
            FormatterState {
                out: st.out + due_indent(st, st.level) + seq!['{'],
                level: st.level + 1,
                newline_queued: true,
            },
        ),
{
    reveal_strlit("{\n");
    let s = "{\n"@;
    assert(s == seq!['{', '\n']);
    assert(nl_index(s, 1) == 1);
    assert(nl_index(s, 0) == 1);
    assert(s.take(1) =~= seq!['{']);
    assert(s.skip(2) =~= Seq::<char>::empty());
    let e = Seq::<char>::empty();
    assert(nl_index(e, 0) == -1);
    assert(split_lines(e) == seq![e]);
    assert(split_lines(s) =~= seq![seq!['{'], e]);
    let st1 = FormatterState {
        out: st.out + due_indent(st, st.level) + seq!['{'],
        level: st.level + 1,
        newline_queued: false,
    };
    let st2 = FormatterState { newline_queued: true, ..st1 };
    assert(seq!['{'].last() == '{');
    assert(seq!['{'].len() == 1);
    assert(write_line(st, seq!['{']) == Some(st1));
    assert(seq![seq!['{'], e][0] == seq!['{']);
    assert(seq![seq!['{'], e].skip(1) =~= seq![e]);
    assert(seq![e][0] == e);
    assert(seq![e].skip(1) =~= Seq::<Seq<char>>::empty());
    assert(write_line(st1, e) == Some(st2));
    assert(write_lines(st2, Seq::<Seq<char>>::empty()) == Some(st2));
    assert(write_lines(st1, seq![e]) == Some(st2));
    assert(write_lines(st, seq![seq!['{'], e]) == Some(st2));
}

/// A closing brace closes a level before it is written.
pub proof fn lemma_close_piece(st: FormatterState)
    requires
        st.level > 0,
        st.level * 2 + 1 <= usize::MAX,
    ensures
        spec_write_str(st, "}"@) == Some(
            FormatterState {
                out: st.out + due_indent(st, (st.level - 1) as nat) + seq!['}'],
                level: (st.level - 1) as nat,
                newline_queued: false,
            },
        ),
{
    reveal_strlit("}");
    let s = "}"@;
    assert(s == seq!['}']);
    assert(nl_index(s, 1) == -1);
    assert(nl_index(s, 0) == -1);
    assert(split_lines(s) == seq![s]);
    assert(s.last() == '}');
    assert(seq![s].skip(1) =~= Seq::<Seq<char>>::empty());
    let st1 = FormatterState {
        out: st.out + due_indent(st, (st.level - 1) as nat) + seq!['}'],
        level: (st.level - 1) as nat,
        newline_queued: false,
    };
    assert(s.len() == 1);
    assert(write_line(st, s) == Some(st1));
    assert(seq![s][0] == s);
    assert(write_lines(st1, seq![s].skip(1)) == Some(st1));
}

/// The state of a fresh formatter.
pub open spec fn initial_state() -> FormatterState {
    FormatterState { out: Seq::empty(), level: 0, newline_queued: false }
}

/// The text a formatter leaves: what it wrote, and the line break still due.
pub open spec fn finished_text(st: FormatterState) -> Seq<char> {
    st.out + if st.newline_queued {
        seq!['\n']
    } else {
        Seq::empty()
    }
}

/// The pieces laid out by a fresh formatter: `None` when one cannot be
/// written or a brace is left open at the end.
pub open spec fn spec_format(pieces: Seq<Seq<char>>) -> Option<Seq<char>> {
    match write_pieces(initial_state(), pieces) {
        Some(st) => if st.level == 0 {
            Some(finished_text(st))
        } else {
            None
        },
        None => None,
    }
}

/// The texts of a run of pieces.
pub open spec fn texts(v: Seq<String>) -> Seq<Seq<char>> {
    v.map_values(|p: String| p@)
}

/// The pieces joined into one text.
pub open spec fn concat(pieces: Seq<Seq<char>>) -> Seq<char>
    decreases pieces.len(),
{
    if pieces.len() == 0 {
        Seq::empty()
    } else {
        concat(pieces.drop_last()) + pieces.last()
    }
}

/// Appends the piece `t` to `out`.
pub fn push_piece(out: &mut Vec<String>, t: &str)
    ensures
        texts(final(out)@) == texts(old(out)@).push(t@),
{
    out.push(crate::text::text_of(t));
    assert(texts(out@) =~= texts(old(out)@).push(t@));
}

/// Appends the piece held by `t` to `out`.
pub fn push_owned_piece(out: &mut Vec<String>, t: String)
    ensures
        texts(final(out)@) == texts(old(out)@).push(t@),
{
    let ghost tv = t@;
    out.push(t);
    assert(texts(out@) =~= texts(old(out)@).push(tv));
}

/// The pieces joined into one `String`.
pub fn concat_pieces(pieces: &Vec<String>) -> (s: String)
    ensures
        s@ == concat(texts(pieces@)),
{
    let mut s = String::new();
    let mut i: usize = 0;
    while i < pieces.len()
        invariant
            i <= pieces@.len(),
            s@ == concat(texts(pieces@).take(i as int)),
        decreases pieces@.len() - i,
    {
        let ghost before = texts(pieces@).take(i as int);
        push_str(&mut s, pieces[i].as_str());
        proof {
            let after = texts(pieces@).take(i + 1);
            assert(after.drop_last() =~= before);
            assert(after.last() == pieces@[i as int]@);
        }
        i += 1;
    }
    assert(texts(pieces@).take(pieces@.len() as int) =~= texts(pieces@));
    s
}

/// Writes source text, indenting each line by the braces that came before.
pub struct CodeFormatter {
    out: String,
    indentation_level: usize,
    newline_queued: bool,
}

impl View for CodeFormatter {
    type V = FormatterState;

    closed spec fn view(&self) -> FormatterState {
        FormatterState {
            out: self.out@,
            level: self.indentation_level as nat,
            newline_queued: self.newline_queued,
        }
    }
}

impl CodeFormatter {
    /// The indentation can still be counted in a `usize`.
    pub closed spec fn wf(&self) -> bool {
        self.indentation_level * 2 + 1 <= usize::MAX
    }

    pub fn new() -> (f: CodeFormatter)
        ensures
            f.wf(),
            f@ == initial_state(),
    {
        CodeFormatter { out: String::new(), indentation_level: 0, newline_queued: false }
    }

    fn cur_indentation_spaces_len(&self) -> (n: usize)
        requires
            self.indentation_level * TAB_SPACES + 1 <= usize::MAX,
        ensures
            n == self.indentation_level * 2 + 1,
    {
        self.indentation_level * TAB_SPACES + 1
    }

    fn write_indentation(&mut self)
        requires
            old(self).indentation_level * 2 + 1 <= usize::MAX,
        ensures
            final(self)@ == (FormatterState { out: old(self)@.out + indent_text(old(self)@.level), ..old(self)@ }),
    {
        let n = self.cur_indentation_spaces_len();
        push_char(&mut self.out, '\n');
        let mut i: usize = 1;
        while i < n
            invariant
                1 <= i <= n,
                n == self.indentation_level * 2 + 1,
                self.indentation_level == old(self).indentation_level,
                self.newline_queued == old(self).newline_queued,
                self.out@ == old(self).out@ + seq!['\n'] + Seq::new((i - 1) as nat, |k: int| ' '),
            decreases n - i,
        {
            push_char(&mut self.out, ' ');
            i += 1;
            assert(self.out@ =~= old(self).out@ + seq!['\n'] + Seq::new((i - 1) as nat, |k: int| ' '));
        }
        assert(self.out@ =~= old(self).out@ + indent_text(old(self)@.level));
    }

    /// Writes the line `chars[from..to]`; false if it cannot be written.
    fn write_line(&mut self, chars: &Vec<char>, from: usize, to: usize) -> (ok: bool)
        requires
            from <= to <= chars@.len(),
            old(self).indentation_level * 2 + 1 <= usize::MAX,
        ensures
            ok == write_line(old(self)@, chars@.subrange(from as int, to as int)) is Some,
            ok ==> Some(final(self)@) == write_line(old(self)@, chars@.subrange(from as int, to as int)),
            final(self).indentation_level * 2 + 1 <= usize::MAX,
    {
        let ghost line = chars@.subrange(from as int, to as int);
        if from == to {
            self.newline_queued = true;
            return true;
        }
        assert(line.last() == chars@[to - 1]);
        if chars[to - 1] == '}' {
            if self.indentation_level == 0 {
                return false;
            }
            self.indentation_level = self.indentation_level - 1;
        }
        let ghost level1 = self.indentation_level;
        let ghost queued = self.newline_queued;
        if self.newline_queued {
            self.write_indentation();
        }
        let mut i = from;
        let ghost base = self.out@;
        while i < to
            invariant
                from <= i <= to <= chars@.len(),
                self.out@ == base + chars@.subrange(from as int, i as int),
                self.indentation_level == level1,
                self.newline_queued == queued,
            decreases to - i,
        {
            push_char(&mut self.out, chars[i]);
            i += 1;
            assert(self.out@ =~= base + chars@.subrange(from as int, i as int));
        }
        if chars[to - 1] == '{' {
            if self.indentation_level >= (usize::MAX - 1) / 2 {
                return false;
            }
            self.indentation_level = self.indentation_level + 1;
        }
        self.newline_queued = false;
        assert(self.out@ =~= old(self)@.out + (if old(self)@.newline_queued {
            indent_text(level1 as nat)
        } else {
            Seq::empty()
        }) + line);
        true
    }

    /// Writes `s`, line by line. False, with nothing promised of what was
    /// written, when a '}' closes a level that is not open or the levels
    /// grow past what a `usize` counts.
    pub fn write_str(&mut self, s: &str) -> (ok: bool)
        requires
            old(self).wf(),
        ensures
            final(self).wf(),
            ok == spec_write_str(old(self)@, s@) is Some,
            ok ==> Some(final(self)@) == spec_write_str(old(self)@, s@),
    {
        let chars = str_chars(s);
        let n = chars.len();
        let mut line_start: usize = 0;
        assert(chars@.skip(0) =~= chars@);
        loop
            invariant
                chars@ == s@,
                n == chars@.len(),
                line_start <= n,
                self.indentation_level * 2 + 1 <= usize::MAX,
                write_lines(self@, split_lines(chars@.skip(line_start as int))) == spec_write_str(
                    old(self)@,
                    s@,
                ),
            decreases n - line_start,
        {
            let ghost rest = chars@.skip(line_start as int);
            proof {
                lemma_nl_index(rest, 0);
            }
            let mut end = line_start;
            while end < n && chars[end] != '\n'
                invariant
                    line_start <= end <= n,
                    n == chars@.len(),
                    rest == chars@.skip(line_start as int),
                    forall|j: int| line_start <= j < end ==> chars@[j] != '\n',
                decreases n - end,
            {
                end += 1;
            }
            let ghost line = chars@.subrange(line_start as int, end as int);
            if end == n {
                proof {
                    assert forall|j: int| 0 <= j < rest.len() implies rest[j] != '\n' by {
                        assert(rest[j] == chars@[line_start + j]);
                    }
                    if nl_index(rest, 0) >= 0 {
                        let k = nl_index(rest, 0);
                        assert(rest[k] == '\n');
                    }
                    assert(rest =~= line);
                    assert(split_lines(rest) == seq![rest]);
                    assert(seq![rest].skip(1) =~= Seq::<Seq<char>>::empty());
                }
                let ghost st0 = self@;
                let ok = self.write_line(&chars, line_start, end);
                proof {
                    if ok {
                        assert(write_lines(self@, seq![rest].skip(1)) == Some(self@));
                    }
                    assert(write_lines(st0, seq![rest]) == write_line(st0, rest));
                }
                return ok;
            }
            proof {
                let k = nl_index(rest, 0);
                assert(rest[end - line_start] == '\n');
                if k < 0 || k > end - line_start {
                    assert(rest[end - line_start] != '\n');
                }
                if k < end - line_start {
                    assert(rest[k] == chars@[line_start + k]);
                }
                assert(k == end - line_start);
                assert(rest.take(k) =~= line);
                assert(rest.skip(k + 1) =~= chars@.skip(end + 1));
                let ls = split_lines(rest);
                assert(ls == seq![line] + split_lines(chars@.skip(end + 1)));
                assert(ls[0] == line);
                assert(ls.skip(1) =~= split_lines(chars@.skip(end + 1)));
            }
            if !self.write_line(&chars, line_start, end) {
                return false;
            }
            line_start = end + 1;
        }
    }

    /// Writes each piece in turn; false when one cannot be written.
    pub fn write_all(&mut self, pieces: &Vec<String>) -> (ok: bool)
        requires
            old(self).wf(),
        ensures
            final(self).wf(),
            ok == write_pieces(old(self)@, texts(pieces@)) is Some,
            ok ==> Some(final(self)@) == write_pieces(old(self)@, texts(pieces@)),
    {
        let ghost all = texts(pieces@);
        let mut i: usize = 0;
        assert(all.skip(0) =~= all);
        while i < pieces.len()
            invariant
                i <= pieces@.len(),
                all == texts(pieces@),
                self.wf(),
                write_pieces(self@, all.skip(i as int)) == write_pieces(old(self)@, all),
            decreases pieces@.len() - i,
        {
            assert(all.skip(i as int)[0] == pieces@[i as int]@);
            assert(all.skip(i as int).skip(1) =~= all.skip(i + 1));
            if !self.write_str(pieces[i].as_str()) {
                return false;
            }
            i += 1;
        }
        assert(all.skip(i as int) =~= Seq::<Seq<char>>::empty());
        true
    }

    /// The text written, with the line break that is still due.
    pub fn finish(self) -> (s: String)
        requires
            self@.level == 0,
        ensures
            s@ == finished_text(self@),
    {
        let mut out = self.out;
        if self.newline_queued {
            push_char(&mut out, '\n');
        }
        assert(out@ =~= finished_text(self@));
        out
    }

    /// The level of indentation: the braces open.
    pub fn indentation_level(&self) -> (n: usize)
        ensures
            n == self@.level,
    {
        self.indentation_level
    }
}

/// The pieces laid out by a fresh formatter.
pub fn format_pieces(pieces: &Vec<String>) -> (r: Option<String>)
    ensures
        r matches Some(s) ==> spec_format(texts(pieces@)) == Some(s@),
        r is None ==> spec_format(texts(pieces@)) is None,
{
    let mut f = CodeFormatter::new();
    if !f.write_all(pieces) {
        return None;
    }
    if f.indentation_level() != 0 {
        return None;
    }
    Some(f.finish())
}

} // verus!
