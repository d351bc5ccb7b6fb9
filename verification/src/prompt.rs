//! The line editor: the line being composed, the prompt, the registered
//! completion sources, and what each key does to them.

use crate::expander::Expands;
use crate::expansion::{Expansion, ExpansionView};
use std::io::Error;
use vstd::prelude::*;
use vstd::string::StringExecFns;
use vstd::utf8::encode_utf8;

verus! {

/// The key that finishes the line (carriage return).
pub const ENTER: u8 = 13;

/// The escape key, which is swallowed.
pub const ESCAPE: u8 = 27;

/// The key that ends the input (end of transmission). What was typed on the
/// line is discarded.
pub const END_OF_INPUT: u8 = 4;

/// The key that erases the last character (delete).
pub const BACKSPACE: u8 = 127;

/// The key that asks for completion (horizontal tab).
pub const TAB: u8 = 9;

/// A key that stands for itself and is inserted into the line.
pub open spec fn is_plain(key: u8) -> bool {
    key != ENTER && key != ESCAPE && key != END_OF_INPUT && key != BACKSPACE && key != TAB
}

/// The line after the key `key` was pressed on the line `buffer`. The enter
/// key hands the line out and the end-of-input key discards it, so both leave
/// an empty line. For the completion key, whose effect depends on the
/// completion sources, see [`completed`].
pub open spec fn typed(buffer: Seq<char>, key: u8) -> Seq<char> {
    if key == ENTER || key == END_OF_INPUT {
        Seq::empty()
    } else if key == BACKSPACE {
        if buffer.len() > 0 {
            buffer.drop_last()
        } else {
            buffer
        }
    } else if is_plain(key) {
        buffer.push(key as char)
    } else {
        buffer
    }
}

/// The bytes sent to the terminal when `key` is pressed on the line `buffer`,
/// for every key but the completion key.
pub open spec fn echoed(buffer: Seq<char>, key: u8) -> Seq<u8> {
    if key == ENTER {
        seq![13u8, 10u8]
    } else if key == BACKSPACE {
        if buffer.len() > 0 {
            seq![8u8, 32u8, 8u8]
        } else {
            Seq::empty()
        }
    } else if is_plain(key) {
        seq![key]
    } else {
        Seq::empty()
    }
}

/// The line after the keys `keys` were pressed in turn on the line `buffer`.
pub open spec fn typed_all(buffer: Seq<char>, keys: Seq<u8>) -> Seq<char>
    decreases keys.len(),
{
    if keys.len() == 0 {
        buffer
    } else {
        typed(typed_all(buffer, keys.drop_last()), keys.last())
    }
}

/// The line after a completion attempt that found `found`: a resolved
/// completion is appended, anything else leaves the line as it is.
pub open spec fn completed(buffer: Seq<char>, found: Option<ExpansionView>) -> Seq<char> {
    match found {
        Some(e) => if e.is_resolved() {
            buffer + e.entry
        } else {
            buffer
        },
        None => buffer,
    }
}

/// The bytes sent to the terminal after a completion attempt that found
/// `found`: nothing when no source took the line, the appended text when the
/// completion is resolved, and otherwise the hint line followed by the prompt
/// and the line as it stands.
pub open spec fn completion_echo(
    prompt: Seq<char>,
    buffer: Seq<char>,
    found: Option<ExpansionView>,
) -> Seq<u8> {
    match found {
        Some(e) => if e.is_resolved() {
            encode_utf8(e.entry)
        } else {
            encode_utf8(e.hint_line()) + encode_utf8(prompt) + encode_utf8(buffer)
        },
        None => Seq::empty(),
    }
}

/// The content of what a completion attempt found.
pub open spec fn found_view(found: Option<Expansion>) -> Option<ExpansionView> {
    match found {
        Some(e) => Some(e@),
        None => None,
    }
}

/// Whether none of `expanders` can take the line `buffer`.
pub open spec fn unclaimed(expanders: Seq<Box<dyn Expands>>, buffer: Seq<char>) -> bool {
    forall|i: int|
        0 <= i < expanders.len() ==> !(#[trigger] expanders[i]).answers(buffer, Ok(true))
}

/// Whether each of the first `upto` of `expanders` can decline the line
/// `buffer`.
pub open spec fn all_decline(
    expanders: Seq<Box<dyn Expands>>,
    buffer: Seq<char>,
    upto: int,
) -> bool {
    forall|j: int| 0 <= j < upto ==> (#[trigger] expanders[j]).answers(buffer, Ok(false))
}

/// Whether the source at position `i` is reached when `expanders` are asked
/// in their order about the line `buffer`: all before it can decline.
pub open spec fn reached(expanders: Seq<Box<dyn Expands>>, buffer: Seq<char>, i: int) -> bool {
    0 <= i < expanders.len() && all_decline(expanders, buffer, i)
}

/// Whether the sources `after` are the sources `before` but for the one at
/// position `i`: as many, in the same order, and each of the others as it was.
pub open spec fn only_changed(
    before: Seq<Box<dyn Expands>>,
    after: Seq<Box<dyn Expands>>,
    i: int,
) -> bool {
    &&& after.len() == before.len()
    &&& forall|j: int| 0 <= j < before.len() && j != i ==> #[trigger] after[j] == before[j]
}

/// Whether `result` can come of a completion attempt on the line `buffer`
/// that finds the sources as `before` and leaves them as `after`. The sources
/// are asked in their order. When all decline, nothing is found. The first
/// that takes the line expands it, and what it finds, or its failure, is the
/// result. The failure of a source to decide ends the attempt as well. No
/// source but the one that expands the line is changed.
pub open spec fn attempt(
    before: Seq<Box<dyn Expands>>,
    after: Seq<Box<dyn Expands>>,
    buffer: Seq<char>,
    result: Result<Option<Expansion>, Error>,
) -> bool {
    match result {
        Ok(None) => all_decline(before, buffer, before.len() as int) && after == before,
        Ok(Some(found)) => exists|i: int|
            #[trigger] reached(before, buffer, i) && before[i].answers(buffer, Ok(true))
                && before[i].finds(buffer, Ok(found)) && only_changed(before, after, i),
        Err(e) => exists|i: int|
            #[trigger] reached(before, buffer, i) && ((before[i].answers(buffer, Err(e)) && after
                == before) || (before[i].answers(buffer, Ok(true)) && before[i].finds(
                buffer,
                Err(e),
            ) && only_changed(before, after, i))),
    }
}

/// The characters that the keys `keys` stand for.
pub open spec fn spelled(keys: Seq<u8>) -> Seq<char> {
    Seq::new(keys.len(), |i: int| keys[i] as char)
}

/// As many presses of the erase key as `n` says.
pub open spec fn erasures(n: nat) -> Seq<u8> {
    Seq::new(n, |i: int| BACKSPACE)
}

/// Pressing the keys `first` and then the keys `second` is pressing the keys
/// of both in one go.
pub proof fn lemma_typed_all_splits(buffer: Seq<char>, first: Seq<u8>, second: Seq<u8>)
    ensures
        typed_all(buffer, first + second) == typed_all(typed_all(buffer, first), second),
    decreases second.len(),
{
    if second.len() > 0 {
        assert((first + second).drop_last() == first + second.drop_last());
        lemma_typed_all_splits(buffer, first, second.drop_last());
    }
}

/// Plain keys put the characters they stand for at the end of the line.
pub proof fn lemma_plain_keys_spell(buffer: Seq<char>, keys: Seq<u8>)
    requires
        forall|i: int| 0 <= i < keys.len() ==> is_plain(#[trigger] keys[i]),
    ensures
        typed_all(buffer, keys) == buffer + spelled(keys),
    decreases keys.len(),
{
    if keys.len() > 0 {
        lemma_plain_keys_spell(buffer, keys.drop_last());
    }
}

/// The erase key, pressed as often as the line `tail` is long, takes `tail`
/// off the end of the line again.
pub proof fn lemma_erasures_undo(buffer: Seq<char>, tail: Seq<char>)
    ensures
        typed_all(buffer + tail, erasures(tail.len())) == buffer,
    decreases tail.len(),
{
    if tail.len() > 0 {
        let n = tail.len();
        assert(erasures(n) == seq![BACKSPACE] + erasures((n - 1) as nat));
        lemma_typed_all_splits(buffer + tail, seq![BACKSPACE], erasures((n - 1) as nat));
        assert(seq![BACKSPACE].drop_last() == Seq::<u8>::empty());
        assert(typed_all(buffer + tail, Seq::<u8>::empty()) == buffer + tail);
        assert((buffer + tail).drop_last() == buffer + tail.drop_last());
        lemma_erasures_undo(buffer, tail.drop_last());
    }
}

/// Any run of plain keys, followed by as many presses of the erase key,
/// leaves the line as it was before.
pub proof fn lemma_insert_then_erase_restores(buffer: Seq<char>, keys: Seq<u8>)
    requires
        forall|i: int| 0 <= i < keys.len() ==> is_plain(#[trigger] keys[i]),
    ensures
        typed_all(typed_all(buffer, keys), erasures(keys.len())) == buffer,
        typed_all(buffer, keys + erasures(keys.len())) == buffer,
{
    lemma_plain_keys_spell(buffer, keys);
    lemma_erasures_undo(buffer, spelled(keys));
    lemma_typed_all_splits(buffer, keys, erasures(keys.len()));
}

/// Plain keys followed by the enter key hand out the line with the characters
/// of the keys at its end, and leave an empty line behind.
pub proof fn lemma_enter_hands_out_what_was_typed(buffer: Seq<char>, keys: Seq<u8>)
    requires
        forall|i: int| 0 <= i < keys.len() ==> is_plain(#[trigger] keys[i]),
    ensures
        typed_all(buffer, keys) == buffer + spelled(keys),
        typed(typed_all(buffer, keys), ENTER) == Seq::<char>::empty(),
        echoed(typed_all(buffer, keys), ENTER) == seq![13u8, 10u8],
{
    lemma_plain_keys_spell(buffer, keys);
}

/// No key but the completion key puts a carriage return into a line that
/// holds none.
pub proof fn lemma_typing_adds_no_carriage_return(buffer: Seq<char>, key: u8)
    requires
        !buffer.contains('\r'),
    ensures
        !typed(buffer, key).contains('\r'),
{
    let after = typed(buffer, key);
    if after.contains('\r') {
        let i = choose|i: int| 0 <= i < after.len() && after[i] == '\r';
        assert(i < buffer.len() ==> buffer[i] == '\r');
    }
}

/// A completion attempt that no source took changes nothing and prints
/// nothing.
pub proof fn lemma_untaken_completion_is_silent(prompt: Seq<char>, buffer: Seq<char>)
    ensures
        completed(buffer, None) == buffer,
        completion_echo(prompt, buffer, None) == Seq::<u8>::empty(),
{
}

/// How far the line has come after a key.
pub enum Outcome {
    /// The line is still being composed.
    Pending,
    /// The line was finished; this is its text.
    Line(String),
    /// The end of the input was signalled; no line is returned, and what was
    /// typed is discarded.
    EndOfInput,
}

/// Whether `outcome` is what the key `key` leads to on the line `buffer`: the
/// enter key hands the line out, the end-of-input key ends the input, and
/// after every other key the line is still being composed.
pub open spec fn follows(outcome: Outcome, buffer: Seq<char>, key: u8) -> bool {
    match outcome {
        Outcome::Line(line) => key == ENTER && line@ == buffer,
        Outcome::EndOfInput => key == END_OF_INPUT,
        Outcome::Pending => key != ENTER && key != END_OF_INPUT,
    }
}

/// Whether the line `after` and the result `r` are what the completion key
/// leads to on the editor `before` when the completion attempt came to
/// `attempted`. What was found is applied to the line and echoed, and the line
/// is still being composed. A failure is handed on, and leaves the line alone.
pub open spec fn tabbed(
    before: PromptView,
    attempted: Result<Option<Expansion>, Error>,
    after: Seq<char>,
    r: Result<Reaction, Error>,
) -> bool {
    match attempted {
        Ok(found) => {
            &&& r matches Ok(reaction)
            &&& reaction.outcome is Pending
            &&& reaction.output@ == completion_echo(
                before.prompt,
                before.buffer,
                found_view(found),
            )
            &&& after == completed(before.buffer, found_view(found))
        },
        Err(e) => r == Err::<Reaction, Error>(e) && after == before.buffer,
    }
}

/// What the editor asks of its driver after a key: the bytes to send to the
/// terminal, and whether to go on reading keys.
pub struct Reaction {
    pub output: Vec<u8>,
    pub outcome: Outcome,
}

/// A line editor for a terminal in raw mode.
pub struct TerminalPrompt {
    data: String,
    prompt: String,
    expansions: Vec<Box<dyn Expands>>,
}

/// The texts that a [`TerminalPrompt`] holds.
pub struct PromptView {
    pub buffer: Seq<char>,
    pub prompt: Seq<char>,
}

impl View for TerminalPrompt {
    type V = PromptView;

    closed spec fn view(&self) -> PromptView {
        PromptView { buffer: self.data@, prompt: self.prompt@ }
    }
}

fn append_bytes(out: &mut Vec<u8>, bytes: &[u8])
    ensures
        final(out)@ == old(out)@ + bytes@,
{
    let mut i: usize = 0;
    while i < bytes.len()
        invariant
            i <= bytes.len(),
            out@ == old(out)@ + bytes@.take(i as int),
        decreases bytes.len() - i,
    {
        out.push(bytes[i]);
        i += 1;
    }
}

impl TerminalPrompt {
    /// The registered completion sources, in the order of their registration.
    pub closed spec fn expanders(&self) -> Seq<Box<dyn Expands>> {
        self.expansions@
    }

    /// Whether no registered source can take the line as it stands.
    pub open spec fn unclaimed(&self) -> bool {
        unclaimed(self.expanders(), self@.buffer)
    }

    /// An editor with an empty line, the given prompt and no completion source.
    pub fn new(prompt: String) -> (p: TerminalPrompt)
        ensures
            p@.buffer == Seq::<char>::empty(),
            p@.prompt == prompt@,
            p.expanders() == Seq::<Box<dyn Expands>>::empty(),
    {
        TerminalPrompt { data: String::new(), prompt: prompt, expansions: Vec::new() }
    }

    /// Replaces the prompt, for the next line and for any redraw.
    pub fn set_prompt(&mut self, prompt: String)
        ensures
            final(self)@.prompt == prompt@,
            final(self)@.buffer == old(self)@.buffer,
            final(self).expanders() == old(self).expanders(),
    {
        self.prompt = prompt;
    }

    /// Registers a completion source behind those registered before.
    pub fn register(&mut self, exp: Box<dyn Expands>)
        ensures
            final(self).expanders() == old(self).expanders().push(exp),
            final(self)@ == old(self)@,
    {
        self.expansions.push(exp);
    }

    /// The prompt.
    pub fn prompt(&self) -> (s: &str)
        ensures
            s@ == self@.prompt,
    {
        self.prompt.as_str()
    }

    /// The line as it stands.
    pub fn buffer(&self) -> (s: &str)
        ensures
            s@ == self@.buffer,
    {
        self.data.as_str()
    }

    /// The bytes to send to the terminal before the first key of a line is
    /// read: the prompt.
    pub fn start(&self) -> (output: Vec<u8>)
        ensures
            output@ == encode_utf8(self@.prompt),
    {
        let mut output: Vec<u8> = Vec::new();
        append_bytes(&mut output, self.prompt.as_str().as_bytes());
        output
    }

    /// Asks the completion sources, in the order of their registration, for
    /// the first that takes the line, and has that one expand it. Returns
    /// `None` when no source takes the line, and the failure of a source when
    /// one fails. The sources stay in their order, and none but the one that
    /// expands the line is changed.
    pub fn complete(&mut self) -> (r: Result<Option<Expansion>, Error>)
        ensures
            final(self)@ == old(self)@,
            final(self).expanders().len() == old(self).expanders().len(),
            attempt(old(self).expanders(), final(self).expanders(), old(self)@.buffer, r),
            old(self).expanders().len() == 0 ==> r matches Ok(None),
            old(self).unclaimed() ==> !(r matches Ok(Some(_))),
            old(self).unclaimed() ==> final(self).expanders() == old(self).expanders(),
    {
        let mut i: usize = 0;
        while i < self.expansions.len()
            invariant
                i <= self.expansions.len(),
                *self == *old(self),
                all_decline(self.expanders(), self@.buffer, i as int),
            decreases self.expansions.len() - i,
        {
            let taken = self.expansions[i].takes(self.data.as_str());
            match taken {
                Err(e) => {
                    assert(reached(old(self).expanders(), old(self)@.buffer, i as int));
                    return Err(e);
                },
                Ok(false) => {},
                Ok(true) => {
                    let found = self.expansions[i].expand(self.data.as_str());
                    assert(reached(old(self).expanders(), old(self)@.buffer, i as int));
                    assert(only_changed(old(self).expanders(), self.expanders(), i as int));
                    return match found {
                        Ok(exp) => Ok(Some(exp)),
                        Err(e) => Err(e),
                    };
                },
            }
            i += 1;
        }
        Ok(None)
    }

    /// Hands the line out and leaves the editor with an empty one.
    pub fn done(&mut self) -> (line: String)
        ensures
            line@ == old(self)@.buffer,
            final(self)@.buffer == Seq::<char>::empty(),
            final(self)@.prompt == old(self)@.prompt,
            final(self).expanders() == old(self).expanders(),
    {
        let result = self.data.clone();
        self.data = String::new();
        result
    }

    /// Applies the result of a completion attempt to the line and returns the
    /// bytes to send to the terminal.
    pub fn accept(&mut self, found: Option<Expansion>) -> (output: Vec<u8>)
        ensures
            final(self)@.buffer == completed(old(self)@.buffer, found_view(found)),
            output@ == completion_echo(old(self)@.prompt, old(self)@.buffer, found_view(found)),
            final(self)@.prompt == old(self)@.prompt,
            final(self).expanders() == old(self).expanders(),
    {
        let mut output: Vec<u8> = Vec::new();
        match found {
            None => {},
            Some(exp) => {
                if exp.is_resolved() {
                    self.data.append(exp.entry_as_str());
                    append_bytes(&mut output, exp.entry_as_bytes());
                } else {
                    let hints = exp.hints_as_string();
                    append_bytes(&mut output, hints.as_str().as_bytes());
                    append_bytes(&mut output, self.prompt.as_str().as_bytes());
                    append_bytes(&mut output, self.data.as_str().as_bytes());
                }
            },
        }
        output
    }

    /// Handles one key: changes the line as the key asks, and returns what to
    /// send to the terminal and whether the line is finished. Only the
    /// completion key can fail, with the failure of a completion source.
    pub fn feed(&mut self, key: u8) -> (r: Result<Reaction, Error>)
        ensures
            final(self)@.prompt == old(self)@.prompt,
            final(self).expanders().len() == old(self).expanders().len(),
            key != TAB ==> final(self).expanders() == old(self).expanders(),
            key != TAB ==> final(self)@.buffer == typed(old(self)@.buffer, key),
            key != TAB ==> (r matches Ok(reaction) && reaction.output@ == echoed(
                old(self)@.buffer,
                key,
            ) && follows(reaction.outcome, old(self)@.buffer, key)),
            key == TAB ==> exists|attempted: Result<Option<Expansion>, Error>|
                #[trigger] attempt(
                    old(self).expanders(),
                    final(self).expanders(),
                    old(self)@.buffer,
                    attempted,
                ) && tabbed(old(self)@, attempted, final(self)@.buffer, r),
            key == TAB && old(self).unclaimed() ==> final(self)@.buffer == old(self)@.buffer
                && final(self).expanders() == old(self).expanders(),
            key == TAB && old(self).unclaimed() ==> (r matches Ok(reaction)
                ==> reaction.output@.len() == 0),
            key == TAB && old(self).expanders().len() == 0 ==> r is Ok,
    {
        let mut output: Vec<u8> = Vec::new();
        if key == ENTER {
            output.push(13);
            output.push(10);
            let line = self.done();
            Ok(Reaction { output, outcome: Outcome::Line(line) })
        } else if key == END_OF_INPUT {
            self.data = String::new();
            Ok(Reaction { output, outcome: Outcome::EndOfInput })
        } else if key == ESCAPE {
            Ok(Reaction { output, outcome: Outcome::Pending })
        } else if key == BACKSPACE {
            if !self.data.as_str().is_empty() {
                self.data.pop();
                output.push(8);
                output.push(32);
                output.push(8);
            }
            Ok(Reaction { output, outcome: Outcome::Pending })
        } else if key == TAB {
            let attempted = self.complete();
            let ghost seen = attempted;
            let r = match attempted {
                Err(e) => Err(e),
                Ok(found) => {
                    let output = self.accept(found);
                    Ok(Reaction { output, outcome: Outcome::Pending })
                },
            };
            assert(tabbed(old(self)@, seen, self@.buffer, r));
            r
        } else {
            self.data.push(key as char);
            output.push(key);
            Ok(Reaction { output, outcome: Outcome::Pending })
        }
    }
}

} // verus!
