//! The search for completions of an absolute path, as a mathematical model:
//! the questions that the search puts to the file system, what it does with
//! each answer, and what it finds in the end.

use crate::expansion::{hint_separator, joined, line_break, ExpansionView};
use crate::prompt::{completed, completion_echo};
use crate::text::{has_prefix, last_token};
use vstd::prelude::*;
use vstd::utf8::encode_utf8;

verus! {

/// What a path names in the file system.
#[derive(Clone, Copy, Debug, PartialEq, Eq, Structural)]
pub enum EntryKind {
    /// Nothing that can be looked at.
    Missing,
    /// A directory.
    Directory,
    /// A regular file.
    File,
    /// Something else.
    Other,
}

/// The parent of the path `path`, where it has one, in the path syntax of the
/// platform that the library is built for.
pub uninterp spec fn path_parent(path: Seq<char>) -> Option<Seq<char>>;

/// The final component of the path `path`, where it has one, in the path
/// syntax of the platform that the library is built for.
pub uninterp spec fn path_file_name(path: Seq<char>) -> Option<Seq<char>>;

/// Whether the path `path` is absolute, in the path syntax of the platform
/// that the library is built for.
pub uninterp spec fn path_is_absolute(path: Seq<char>) -> bool;

/// The mark shown behind a candidate: a slash behind a directory, a space
/// behind a regular file, nothing behind anything else.
pub open spec fn marker(kind: EntryKind) -> Seq<char> {
    match kind {
        EntryKind::Directory => seq!['/'],
        EntryKind::File => seq![' '],
        _ => Seq::empty(),
    }
}

/// Whether the directory entry `name` completes the fragment `fragment`.
pub open spec fn is_candidate(name: Seq<char>, fragment: Seq<char>) -> bool {
    name.len() > 0 && has_prefix(name, fragment)
}

/// The test that picks the candidates for `fragment` out of a listing.
pub open spec fn candidate_of(fragment: Seq<char>) -> spec_fn(Seq<char>) -> bool {
    |name: Seq<char>| is_candidate(name, fragment)
}

/// What of `name` is still to be typed behind `fragment`.
pub open spec fn remainder(name: Seq<char>, fragment: Seq<char>) -> Seq<char> {
    name.skip(fragment.len() as int)
}

/// The path that is looked at to classify the candidate `name`.
pub open spec fn candidate_path(raw_path: Seq<char>, fragment: Seq<char>, name: Seq<char>) -> Seq<
    char,
> {
    raw_path + remainder(name, fragment)
}

/// Which question a search is waiting on.
pub enum Stage {
    /// What the typed path names.
    Locate,
    /// What the parent of the typed path names.
    Open,
    /// What the first of the remaining candidates names.
    Classify,
}

/// The state of a search between two questions.
pub struct SearchView {
    pub stage: Stage,
    /// The path being completed.
    pub raw_path: Seq<char>,
    /// The directory whose entries are the candidates.
    pub base: Seq<char>,
    /// The beginning that a candidate must have.
    pub fragment: Seq<char>,
    /// The candidates that are not classified yet.
    pub names: Seq<Seq<char>>,
    /// The text to splice in, once the first candidate is classified.
    pub entry: Seq<char>,
    /// The hints for the candidates classified so far.
    pub hints: Seq<Seq<char>>,
}

/// A step of a search: a question to the file system, or the result.
pub enum StepView {
    /// What does a path name?
    Stat(SearchView),
    /// Which entries does a directory hold?
    List(SearchView),
    /// The search is over.
    Done(ExpansionView),
}

/// The expansion that found nothing.
pub open spec fn nothing() -> ExpansionView {
    ExpansionView { entry: Seq::empty(), hints: Seq::empty() }
}

/// The path that a search in state `s` asks about.
pub open spec fn asked(s: SearchView) -> Seq<char> {
    match s.stage {
        Stage::Locate => s.raw_path,
        Stage::Open => s.base,
        Stage::Classify => candidate_path(s.raw_path, s.fragment, s.names[0]),
    }
}

/// The first step of the search on the line `line`: it asks what the last
/// word of the line names.
pub open spec fn begin(line: Seq<char>) -> StepView {
    StepView::Stat(
        SearchView {
            stage: Stage::Locate,
            raw_path: last_token(line),
            base: Seq::empty(),
            fragment: Seq::empty(),
            names: Seq::empty(),
            entry: Seq::empty(),
            hints: Seq::empty(),
        },
    )
}

/// The step after the answer `kind` to the question of state `s`.
///
/// A typed path that names a directory is listed itself, with an empty
/// fragment. One that names nothing is split into its parent, which is listed
/// if it is a directory, and its final component, which is the fragment. Each
/// candidate adds its hint, and the first of them gives the text to splice in.
pub open spec fn after_stat(s: SearchView, kind: EntryKind) -> StepView {
    match s.stage {
        Stage::Locate => if kind == EntryKind::Directory {
            StepView::List(SearchView { base: s.raw_path, fragment: Seq::empty(), ..s })
        } else if kind != EntryKind::Missing {
            StepView::Done(nothing())
        } else {
            match (path_parent(s.raw_path), path_file_name(s.raw_path)) {
                (Some(base), Some(fragment)) => StepView::Stat(
                    SearchView { stage: Stage::Open, base, fragment, ..s },
                ),
                _ => StepView::Done(nothing()),
            }
        },
        Stage::Open => if kind == EntryKind::Directory {
            StepView::List(s)
        } else {
            StepView::Done(nothing())
        },
        Stage::Classify => {
            let name = s.names[0];
            let entry = if s.hints.len() == 0 {
                remainder(name, s.fragment) + marker(kind)
            } else {
                s.entry
            };
            let hints = s.hints.push(name + marker(kind));
            let names = s.names.drop_first();
            if names.len() == 0 {
                StepView::Done(ExpansionView { entry, hints })
            } else {
                StepView::Stat(SearchView { names, entry, hints, ..s })
            }
        },
    }
}

/// The step after the listing `names` of the directory of state `s`.
pub open spec fn after_list(s: SearchView, names: Seq<Seq<char>>) -> StepView {
    let candidates = names.filter(candidate_of(s.fragment));
    if candidates.len() == 0 {
        StepView::Done(nothing())
    } else {
        StepView::Stat(SearchView { stage: Stage::Classify, names: candidates, ..s })
    }
}

/// A file system at one moment: what each path names, and the entries of each
/// directory in the order in which it lists them.
pub struct Files {
    pub kind: spec_fn(Seq<char>) -> EntryKind,
    pub names: spec_fn(Seq<char>) -> Seq<Seq<char>>,
}

/// The step that follows `step` when `files` answers its question.
pub open spec fn answered(step: StepView, files: Files) -> StepView {
    match step {
        StepView::Stat(s) => after_stat(s, (files.kind)(asked(s))),
        StepView::List(s) => after_list(s, (files.names)(s.base)),
        StepView::Done(e) => StepView::Done(e),
    }
}

/// The step reached from `step` after `files` answered `n` questions.
pub open spec fn run(step: StepView, files: Files, n: nat) -> StepView
    decreases n,
{
    if n == 0 {
        step
    } else {
        run(answered(step, files), files, (n - 1) as nat)
    }
}

/// The hint for the candidate `name`: the name and the mark of what the
/// candidate's path names.
pub open spec fn hint_for(
    raw_path: Seq<char>,
    fragment: Seq<char>,
    name: Seq<char>,
    files: Files,
) -> Seq<char> {
    name + marker((files.kind)(candidate_path(raw_path, fragment, name)))
}

/// The text to splice in for the candidate `name`: what is still to be typed
/// of it, and the mark of what the candidate's path names.
pub open spec fn entry_for(
    raw_path: Seq<char>,
    fragment: Seq<char>,
    name: Seq<char>,
    files: Files,
) -> Seq<char> {
    remainder(name, fragment) + marker((files.kind)(candidate_path(raw_path, fragment, name)))
}

/// The completion of `raw_path` among the candidates `candidates`: a hint for
/// each, in their order, and the text to splice in for the first.
pub open spec fn expansion_of(
    raw_path: Seq<char>,
    fragment: Seq<char>,
    candidates: Seq<Seq<char>>,
    files: Files,
) -> ExpansionView {
    ExpansionView {
        entry: if candidates.len() == 0 {
            Seq::empty()
        } else {
            entry_for(raw_path, fragment, candidates[0], files)
        },
        hints: Seq::new(
            candidates.len(),
            |i: int| hint_for(raw_path, fragment, candidates[i], files),
        ),
    }
}

/// The completion of `raw_path` from the entries of the directory `base` that
/// begin with `fragment`.
pub open spec fn listed(
    raw_path: Seq<char>,
    base: Seq<char>,
    fragment: Seq<char>,
    files: Files,
) -> ExpansionView {
    expansion_of(raw_path, fragment, (files.names)(base).filter(candidate_of(fragment)), files)
}

/// What the search on the line `line` finds in the file system `files`.
pub open spec fn expected(line: Seq<char>, files: Files) -> ExpansionView {
    let raw_path = last_token(line);
    let found = (files.kind)(raw_path);
    if found == EntryKind::Directory {
        listed(raw_path, raw_path, Seq::empty(), files)
    } else if found != EntryKind::Missing {
        nothing()
    } else {
        match (path_parent(raw_path), path_file_name(raw_path)) {
            (Some(base), Some(fragment)) => if (files.kind)(base) == EntryKind::Directory {
                listed(raw_path, base, fragment, files)
            } else {
                nothing()
            },
            _ => nothing(),
        }
    }
}

/// The number of questions that the search on `line` puts to `files`.
pub open spec fn questions(line: Seq<char>, files: Files) -> nat {
    let raw_path = last_token(line);
    let found = (files.kind)(raw_path);
    if found == EntryKind::Directory {
        2 + (files.names)(raw_path).filter(candidate_of(Seq::empty())).len()
    } else if found != EntryKind::Missing {
        1
    } else {
        match (path_parent(raw_path), path_file_name(raw_path)) {
            (Some(base), Some(fragment)) => if (files.kind)(base) == EntryKind::Directory {
                3 + (files.names)(base).filter(candidate_of(fragment)).len()
            } else {
                2
            },
            _ => 1,
        }
    }
}

proof fn lemma_classify(s: SearchView, files: Files, all: Seq<Seq<char>>, k: int)
    requires
        s.stage == Stage::Classify,
        0 <= k < all.len(),
        s.names == all.skip(k),
        s.hints == Seq::new(k as nat, |i: int| hint_for(s.raw_path, s.fragment, all[i], files)),
        k > 0 ==> s.entry == entry_for(s.raw_path, s.fragment, all[0], files),
    ensures
        run(StepView::Stat(s), files, (all.len() - k) as nat) == StepView::Done(
            expansion_of(s.raw_path, s.fragment, all, files),
        ),
    decreases all.len() - k,
{
    let kind = (files.kind)(asked(s));
    let next = after_stat(s, kind);
    assert(s.names.drop_first() == all.skip(k + 1));
    assert(s.hints.push(all[k] + marker(kind)) == Seq::new(
        (k + 1) as nat,
        |i: int| hint_for(s.raw_path, s.fragment, all[i], files),
    ));
    assert(run(StepView::Stat(s), files, (all.len() - k) as nat) == run(
        next,
        files,
        (all.len() - k - 1) as nat,
    ));
    if k + 1 < all.len() {
        lemma_classify(next->Stat_0, files, all, k + 1);
    }
}

proof fn lemma_listing(s: SearchView, files: Files)
    requires
        s.hints.len() == 0,
    ensures
        run(
            StepView::List(s),
            files,
            1 + (files.names)(s.base).filter(candidate_of(s.fragment)).len(),
        ) == StepView::Done(listed(s.raw_path, s.base, s.fragment, files)),
{
    let all = (files.names)(s.base).filter(candidate_of(s.fragment));
    let next = after_list(s, (files.names)(s.base));
    assert(run(StepView::List(s), files, 1 + all.len()) == run(next, files, all.len()));
    if all.len() == 0 {
        assert(listed(s.raw_path, s.base, s.fragment, files).hints == nothing().hints);
    } else {
        let t = next->Stat_0;
        assert(t.names == all.skip(0));
        assert(t.hints == Seq::new(
            0nat,
            |i: int| hint_for(t.raw_path, t.fragment, all[i], files),
        ));
        lemma_classify(t, files, all, 0);
    }
}

/// A search whose questions are answered as the file system `files` stands
/// ends, after as many questions as `questions` counts, with the expansion
/// that `expected` describes.
pub proof fn lemma_search_finds_expected(line: Seq<char>, files: Files)
    ensures
        run(begin(line), files, questions(line, files)) == StepView::Done(expected(line, files)),
{
    let first = begin(line)->Stat_0;
    let raw_path = last_token(line);
    let found = (files.kind)(raw_path);
    let n = questions(line, files);
    let second = after_stat(first, found);
    if found == EntryKind::Directory {
        lemma_listing(second->List_0, files);
    } else if found == EntryKind::Missing {
        match (path_parent(raw_path), path_file_name(raw_path)) {
            (Some(base), Some(fragment)) => {
                let opened = second->Stat_0;
                let third = after_stat(opened, (files.kind)(base));
                assert(run(second, files, (n - 1) as nat) == run(third, files, (n - 2) as nat));
                if (files.kind)(base) == EntryKind::Directory {
                    lemma_listing(opened, files);
                }
            },
            _ => {},
        }
    }
}

/// Where exactly one entry of the listed directory begins with the fragment,
/// and what its path names is a directory or a regular file, the completion
/// is resolved: what is still to be typed of the entry is appended to the
/// line together with its mark, and echoed, and no hint is printed.
pub proof fn lemma_single_candidate_is_appended(
    prompt: Seq<char>,
    buffer: Seq<char>,
    raw_path: Seq<char>,
    base: Seq<char>,
    fragment: Seq<char>,
    files: Files,
)
    requires
        (files.names)(base).filter(candidate_of(fragment)).len() == 1,
        ({
            let name = (files.names)(base).filter(candidate_of(fragment))[0];
            let kind = (files.kind)(candidate_path(raw_path, fragment, name));
            kind == EntryKind::Directory || kind == EntryKind::File
        }),
    ensures
        ({
            let name = (files.names)(base).filter(candidate_of(fragment))[0];
            let kind = (files.kind)(candidate_path(raw_path, fragment, name));
            let found = listed(raw_path, base, fragment, files);
            &&& found.is_resolved()
            &&& found.entry == remainder(name, fragment) + marker(kind)
            &&& completed(buffer, Some(found)) == buffer + (remainder(name, fragment) + marker(
                kind,
            ))
            &&& completion_echo(prompt, buffer, Some(found)) == encode_utf8(
                remainder(name, fragment) + marker(kind),
            )
        }),
{
}

/// Where two or more entries of the listed directory begin with the fragment,
/// the completion is not resolved: the line stays as it is, and what is
/// printed is the hint line, on which each entry stands with its own mark and
/// a tab between neighbours, then the prompt, then the line.
pub proof fn lemma_several_candidates_are_listed(
    prompt: Seq<char>,
    buffer: Seq<char>,
    raw_path: Seq<char>,
    base: Seq<char>,
    fragment: Seq<char>,
    files: Files,
)
    requires
        (files.names)(base).filter(candidate_of(fragment)).len() >= 2,
    ensures
        ({
            let names = (files.names)(base).filter(candidate_of(fragment));
            let found = listed(raw_path, base, fragment, files);
            &&& !found.is_resolved()
            &&& found.hints.len() == names.len()
            &&& forall|i: int|
                0 <= i < names.len() ==> #[trigger] found.hints[i] == names[i] + marker(
                    (files.kind)(candidate_path(raw_path, fragment, names[i])),
                )
            &&& completed(buffer, Some(found)) == buffer
            &&& completion_echo(prompt, buffer, Some(found)) == encode_utf8(
                line_break() + joined(found.hints, hint_separator()) + line_break(),
            ) + encode_utf8(prompt) + encode_utf8(buffer)
        }),
{
}

} // verus!
