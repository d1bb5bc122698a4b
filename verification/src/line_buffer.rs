//! Text written piece by piece, handed on one complete line at a time.
use vstd::prelude::*;

use crate::text::{chars_of, push_char};

verus! {

/// The complete lines and the unfinished rest of `s`, appended to the lines and the
/// partial line seen so far: each `\n` ends a line (without it).
pub open spec fn split_lines(lines: Seq<Seq<char>>, current: Seq<char>, s: Seq<char>) -> (Seq<Seq<char>>, Seq<char>)
    decreases s.len(),
{
    if s.len() == 0 {
        (lines, current)
    } else if s[0] == '\n' {
        split_lines(lines.push(current), Seq::empty(), s.drop_first())
    } else {
        split_lines(lines, current.push(s[0]), s.drop_first())
    }
}

/// The text of each line.
pub open spec fn lines_view(lines: Seq<String>) -> Seq<Seq<char>> {
    Seq::new(lines.len(), |i: int| lines[i]@)
}

/// Collects written text and gives back its complete lines, keeping the unfinished
/// last line until more text or a flush comes.
#[derive(Debug)]
pub struct TracingWriter {
    buffer: String,
}

impl TracingWriter {
    /// The text of the unfinished line.
    pub closed spec fn pending(&self) -> Seq<char> {
        self.buffer@
    }

    /// A writer with nothing pending.
    pub fn new() -> (w: TracingWriter)
        ensures
            w.pending() == Seq::<char>::empty(),
    {
        TracingWriter { buffer: String::new() }
    }

    /// Takes written text; gives back the lines it completes, in order, each without its
    /// `\n`, and keeps what follows the last `\n` pending.
    pub fn write_text(&mut self, text: &str) -> (lines: Vec<String>)
        ensures
            (lines_view(lines@), final(self).pending()) == split_lines(
                Seq::empty(),
                old(self).pending(),
                text@,
            ),
    {
        let chars = chars_of(text);
        let mut lines: Vec<String> = Vec::new();
        let mut current = String::new();
        std::mem::swap(&mut current, &mut self.buffer);
        let ghost start = current@;
        let mut k: usize = 0;
        assert(chars@.skip(0) =~= chars@);
        assert(lines_view(lines@) =~= Seq::<Seq<char>>::empty());
        while k < chars.len()
            invariant
                k <= chars@.len(),
                chars@ == text@,
                split_lines(lines_view(lines@), current@, chars@.skip(k as int)) == split_lines(
                    Seq::empty(),
                    start,
                    text@,
                ),
            decreases chars@.len() - k,
        {
            let ghost before = chars@.skip(k as int);
            assert(before.drop_first() =~= chars@.skip(k + 1));
            if chars[k] == '\n' {
                let ghost lines_before = lines_view(lines@);
                let ghost current_before = current@;
                let mut line = String::new();
                std::mem::swap(&mut line, &mut current);
                lines.push(line);
                assert(lines_view(lines@) =~= lines_before.push(current_before));
            } else {
                push_char(&mut current, chars[k]);
            }
            k = k + 1;
        }
        assert(chars@.skip(chars@.len() as int) =~= Seq::<char>::empty());
        self.buffer = current;
        lines
    }

    /// The pending text, if there is any; nothing is pending afterwards.
    pub fn flush(&mut self) -> (r: Option<String>)
        ensures
            final(self).pending() == Seq::<char>::empty(),
            match r {
                Some(s) => s@ == old(self).pending() && s@.len() > 0,
                None => old(self).pending().len() == 0,
            },
    {
        if self.buffer.as_str().is_empty() {
            None
        } else {
            let mut pending = String::new();
            std::mem::swap(&mut pending, &mut self.buffer);
            Some(pending)
        }
    }
}

/// Splitting text written in two pieces gives what splitting it written at once gives:
/// the lines of the first piece, then those that the second completes, with the same
/// unfinished rest.
pub proof fn lemma_split_lines_concat(lines: Seq<Seq<char>>, current: Seq<char>, s1: Seq<char>, s2: Seq<char>)
    ensures
        split_lines(lines, current, s1 + s2) == split_lines(
            split_lines(lines, current, s1).0,
            split_lines(lines, current, s1).1,
            s2,
        ),
    decreases s1.len(),
{
    if s1.len() == 0 {
        assert(s1 + s2 =~= s2);
    } else {
        assert((s1 + s2).drop_first() =~= s1.drop_first() + s2);
        assert((s1 + s2)[0] == s1[0]);
        if s1[0] == '\n' {
            lemma_split_lines_concat(lines.push(current), Seq::empty(), s1.drop_first(), s2);
        } else {
            lemma_split_lines_concat(lines, current.push(s1[0]), s1.drop_first(), s2);
        }
    }
}

} // verus!
