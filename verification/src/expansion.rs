//! The result of one completion attempt.

use crate::text::texts;
use vstd::prelude::*;
use vstd::string::StringExecFns;

verus! {

/// What a completion source found for a line: the text to splice in, and the
/// candidates it considered, each ready for display.
pub struct Expansion {
    entry: String,
    hints: Vec<String>,
}

/// The mathematical content of an [`Expansion`].
pub struct ExpansionView {
    pub entry: Seq<char>,
    pub hints: Seq<Seq<char>>,
}

impl View for Expansion {
    type V = ExpansionView;

    closed spec fn view(&self) -> ExpansionView {
        ExpansionView {
            entry: self.entry@,
            hints: texts(self.hints@),
        }
    }
}

/// The texts of `parts` in order, with `sep` between neighbours.
pub open spec fn joined(parts: Seq<Seq<char>>, sep: Seq<char>) -> Seq<char>
    decreases parts.len(),
{
    if parts.len() == 0 {
        Seq::empty()
    } else if parts.len() == 1 {
        parts[0]
    } else {
        joined(parts.drop_last(), sep) + sep + parts.last()
    }
}

/// Two texts are joined with one separator between them.
pub proof fn lemma_joined_pair(first: Seq<char>, second: Seq<char>, sep: Seq<char>)
    ensures
        joined(seq![first, second], sep) == first + sep + second,
{
    let parts = seq![first, second];
    assert(parts.drop_last() == seq![first]);
    assert(joined(seq![first], sep) == first);
}

/// Carriage return and line feed, which move a raw terminal to a new line.
pub open spec fn line_break() -> Seq<char> {
    seq!['\r', '\n']
}

/// The separator between two hints on the hint line.
pub open spec fn hint_separator() -> Seq<char> {
    seq!['\t']
}

impl ExpansionView {
    /// A completion may be spliced in unasked when there is a text to splice
    /// and at most one candidate stood behind it.
    pub open spec fn is_resolved(self) -> bool {
        self.entry.len() > 0 && self.hints.len() < 2
    }

    /// The hint line: all hints, tab-separated, on a line of their own.
    pub open spec fn hint_line(self) -> Seq<char> {
        line_break() + joined(self.hints, hint_separator()) + line_break()
    }
}

impl Expansion {
    /// An expansion that found nothing.
    pub fn new() -> (e: Expansion)
        ensures
            e@.entry == Seq::<char>::empty(),
            e@.hints == Seq::<Seq<char>>::empty(),
    {
        Expansion { entry: String::new(), hints: Vec::new() }
    }

    /// An expansion with the given text to splice in and the given hints.
    pub fn with(entry: String, hints: Vec<String>) -> (e: Expansion)
        ensures
            e@.entry == entry@,
            e@.hints == texts(hints@),
    {
        Expansion { entry, hints }
    }

    /// Whether the completion is unambiguous and may be spliced into the line.
    pub fn is_resolved(&self) -> (r: bool)
        ensures
            r == self@.is_resolved(),
            r == (self@.entry.len() > 0 && self@.hints.len() < 2),
            self@.hints.len() >= 2 ==> !r,
    {
        !self.entry.as_str().is_empty() && self.hints.len() < 2
    }

    /// The text to splice in.
    pub fn entry_as_str(&self) -> (s: &str)
        ensures
            s@ == self@.entry,
    {
        self.entry.as_str()
    }

    /// The text to splice in, as the bytes to echo.
    pub fn entry_as_bytes(&self) -> (b: &[u8])
        ensures
            b@ == vstd::utf8::encode_utf8(self@.entry),
    {
        self.entry.as_str().as_bytes()
    }

    /// The number of hints.
    pub fn hint_count(&self) -> (n: usize)
        ensures
            n == self@.hints.len(),
    {
        self.hints.len()
    }

    /// The hint at position `i`.
    pub fn hint(&self, i: usize) -> (s: &str)
        requires
            i < self@.hints.len(),
        ensures
            s@ == self@.hints[i as int],
    {
        self.hints[i].as_str()
    }

    /// The hints as one line to print: a line break, the hints separated by
    /// tabs, and another line break.
    pub fn hints_as_string(&self) -> (s: String)
        ensures
            s@ == self@.hint_line(),
    {
        proof {
            reveal_strlit("\r\n");
            reveal_strlit("\t");
        }
        let mut result = String::from_str("\r\n");
        let ghost hints = self@.hints;
        let mut i: usize = 0;
        while i < self.hints.len()
            invariant
                i <= self.hints.len(),
                hints == self@.hints,
                hints.len() == self.hints.len(),
                "\t"@ == hint_separator(),
                result@ == line_break() + joined(hints.take(i as int), hint_separator()),
            decreases self.hints.len() - i,
        {
            assert(hints.take(i + 1).drop_last() == hints.take(i as int));
            if i > 0 {
                result.append("\t");
            }
            result.append(self.hints[i].as_str());
            i += 1;
        }
        assert(hints.take(i as int) == hints);
        result.append("\r\n");
        result
    }
}

} // verus!
