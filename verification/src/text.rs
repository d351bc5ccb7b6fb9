//! Character-level helpers on strings: the last word of a line, prefixes, and
//! conversions between strings and character vectors.

use vstd::prelude::*;

verus! {

/// Whether `c` counts as whitespace when a line is cut into words.
pub uninterp spec fn is_whitespace(c: char) -> bool;

/// `char::is_whitespace` of the standard library: true exactly for the
/// characters with the Unicode `White_Space` property. The property is a fixed
/// table, so the result is named rather than spelled out.
pub assume_specification[ char::is_whitespace ](c: char) -> (b: bool)
    ensures
        b == is_whitespace(c),
;

/// `String::push` of the standard library appends the character at the end.
pub assume_specification[ String::push ](s: &mut String, ch: char)
    ensures
        final(s)@ == old(s)@.push(ch),
;

/// `String::pop` of the standard library removes the last character and
/// returns it, or returns `None` and changes nothing on an empty string.
pub assume_specification[ String::pop ](s: &mut String) -> (r: Option<char>)
    ensures
        old(s)@.len() == 0 ==> r is None && final(s)@ == old(s)@,
        old(s)@.len() > 0 ==> r == Some(old(s)@.last()) && final(s)@ == old(s)@.drop_last(),
;

/// The length of `s` once its trailing whitespace is cut off.
pub open spec fn trimmed_len(s: Seq<char>) -> nat
    decreases s.len(),
{
    if s.len() == 0 || !is_whitespace(s.last()) {
        s.len()
    } else {
        trimmed_len(s.drop_last())
    }
}

/// The start of the run of non-whitespace characters of `s` that ends just
/// before position `end`.
pub open spec fn word_start(s: Seq<char>, end: nat) -> nat
    decreases end,
{
    if end == 0 || end > s.len() || is_whitespace(s[end - 1]) {
        end
    } else {
        word_start(s, (end - 1) as nat)
    }
}

/// The last whitespace-delimited word of `s`; empty when `s` holds no word.
pub open spec fn last_token(s: Seq<char>) -> Seq<char> {
    s.subrange(word_start(s, trimmed_len(s)) as int, trimmed_len(s) as int)
}

/// The texts of the strings `strings`, in their order.
pub open spec fn texts(strings: Seq<String>) -> Seq<Seq<char>> {
    Seq::new(strings.len(), |i: int| strings[i]@)
}

/// Whether `prefix` is the beginning of `s`.
pub open spec fn has_prefix(s: Seq<char>, prefix: Seq<char>) -> bool {
    prefix.len() <= s.len() && s.subrange(0, prefix.len() as int) == prefix
}

/// The last token is the last maximal run of non-whitespace characters: only
/// whitespace follows it, none lies inside it, whitespace or the start of the
/// line precedes it, and it is empty only when the whole line is whitespace.
pub proof fn lemma_last_token_is_last_word(s: Seq<char>)
    ensures
        ({
            let e = trimmed_len(s);
            let b = word_start(s, e);
            &&& b <= e <= s.len()
            &&& last_token(s).len() == e - b
            &&& forall|k: int| e <= k < s.len() ==> is_whitespace(#[trigger] s[k])
            &&& forall|k: int| b <= k < e ==> !is_whitespace(#[trigger] s[k])
            &&& b > 0 ==> is_whitespace(s[b - 1])
            &&& e > 0 ==> b < e
            &&& forall|k: int| 0 <= k < last_token(s).len() ==> !is_whitespace(
                #[trigger] last_token(s)[k],
            )
        }),
{
    lemma_trimmed_len(s);
    lemma_word_start(s, trimmed_len(s));
}

proof fn lemma_trimmed_len(s: Seq<char>)
    ensures
        trimmed_len(s) <= s.len(),
        forall|k: int| trimmed_len(s) <= k < s.len() ==> is_whitespace(#[trigger] s[k]),
        trimmed_len(s) > 0 ==> !is_whitespace(s[trimmed_len(s) - 1]),
    decreases s.len(),
{
    if s.len() > 0 && is_whitespace(s.last()) {
        let t = s.drop_last();
        lemma_trimmed_len(t);
        assert forall|k: int| trimmed_len(s) <= k < s.len() implies is_whitespace(
            #[trigger] s[k],
        ) by {
            if k < t.len() {
                assert(s[k] == t[k]);
            }
        }
    }
}

proof fn lemma_word_start(s: Seq<char>, end: nat)
    requires
        end <= s.len(),
    ensures
        word_start(s, end) <= end,
        forall|k: int| word_start(s, end) <= k < end ==> !is_whitespace(#[trigger] s[k]),
        word_start(s, end) > 0 ==> is_whitespace(s[word_start(s, end) - 1]),
        end > 0 && !is_whitespace(s[end - 1]) ==> word_start(s, end) < end,
    decreases end,
{
    if end > 0 && !is_whitespace(s[end - 1]) {
        lemma_word_start(s, (end - 1) as nat);
    }
}

/// The characters of `s`, one by one.
pub fn chars_of(s: &str) -> (v: Vec<char>)
    ensures
        v@ == s@,
{
    let mut v: Vec<char> = Vec::new();
    for c in it: s.chars()
        invariant
            it.seq() == s@,
            v@ == s@.take(it.index()),
    {
        v.push(c);
    }
    v
}

/// The string made of the characters of `v` from `from` up to `to`.
pub fn string_of(v: &Vec<char>, from: usize, to: usize) -> (s: String)
    requires
        from <= to <= v.len(),
    ensures
        s@ == v@.subrange(from as int, to as int),
{
    let mut s = String::new();
    let mut i: usize = from;
    while i < to
        invariant
            from <= i <= to <= v.len(),
            s@ == v@.subrange(from as int, i as int),
        decreases to - i,
    {
        s.push(v[i]);
        i += 1;
    }
    s
}

/// Whether the line `s` begins with `prefix`, compared character by character.
pub fn starts_with(s: &Vec<char>, prefix: &Vec<char>) -> (b: bool)
    ensures
        b == has_prefix(s@, prefix@),
{
    if prefix.len() > s.len() {
        return false;
    }
    let mut i: usize = 0;
    while i < prefix.len()
        invariant
            i <= prefix.len() <= s.len(),
            s@.subrange(0, i as int) == prefix@.subrange(0, i as int),
        decreases prefix.len() - i,
    {
        if s[i] != prefix[i] {
            return false;
        }
        i += 1;
    }
    assert(prefix@.subrange(0, prefix.len() as int) == prefix@);
    true
}

/// Cuts the last whitespace-delimited word out of `line`.
pub fn last_word(line: &str) -> (word: String)
    ensures
        word@ == last_token(line@),
{
    let chars = chars_of(line);
    let mut end: usize = chars.len();
    assert(chars@.take(end as int) == chars@);
    while end > 0 && chars[end - 1].is_whitespace()
        invariant
            end <= chars.len(),
            trimmed_len(chars@) == trimmed_len(chars@.take(end as int)),
        decreases end,
    {
        assert(chars@.take(end as int).drop_last() == chars@.take(end - 1));
        end -= 1;
    }
    let mut start: usize = end;
    while start > 0 && !chars[start - 1].is_whitespace()
        invariant
            start <= end <= chars.len(),
            word_start(chars@, end as nat) == word_start(chars@, start as nat),
        decreases start,
    {
        start -= 1;
    }
    string_of(&chars, start, end)
}

} // verus!
