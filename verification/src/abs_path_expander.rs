//! Completion of absolute paths. The search never touches the file system
//! itself: it hands out one question at a time, and goes on when it is given
//! the answer.

use crate::expansion::Expansion;
use crate::search::{
    after_list, after_stat, asked, begin, candidate_of, candidate_path, is_candidate, marker,
    path_file_name, path_is_absolute, path_parent, EntryKind, SearchView, Stage, StepView,
};
use crate::text::{chars_of, last_token, last_word, starts_with, string_of, texts};
use std::io::Error;
use std::path::Path;
use vstd::prelude::*;
use vstd::string::{StrSliceExecFns, StringExecFns};

verus! {

/// `Path::is_absolute` of the standard library, on the path that `path`
/// spells: whether the path stands for itself, whatever the current directory
/// is. The result depends on the path alone and is named, not spelled out.
#[verifier::external_body]
fn is_absolute(path: &str) -> (b: bool)
    ensures
        b == path_is_absolute(path@),
{
    Path::new(path).is_absolute()
}

/// `Path::parent` of the standard library, on the path that `path` spells:
/// the path without its final component, or `None` where the path ends in a
/// root or is empty. The result depends on the path alone and is named.
#[verifier::external_body]
fn parent(path: &str) -> (r: Option<String>)
    ensures
        r matches Some(p) ==> path_parent(path@) == Some(p@),
        r is None ==> path_parent(path@) is None,
{
    match Path::new(path).parent() {
        Some(p) => Some(p.to_string_lossy().into_owned()),
        None => None,
    }
}

/// `Path::file_name` of the standard library, on the path that `path` spells:
/// the final component, or `None` where the path ends in `..` or has no
/// component. The result depends on the path alone and is named.
#[verifier::external_body]
fn file_name(path: &str) -> (r: Option<String>)
    ensures
        r matches Some(n) ==> path_file_name(path@) == Some(n@),
        r is None ==> path_file_name(path@) is None,
{
    match Path::new(path).file_name() {
        Some(n) => Some(n.to_string_lossy().into_owned()),
        None => None,
    }
}

/// The mark to show behind a candidate of the kind `kind`.
fn mark(kind: EntryKind) -> (s: &'static str)
    ensures
        s@ == marker(kind),
{
    proof {
        reveal_strlit("/");
        reveal_strlit(" ");
        reveal_strlit("");
    }
    match kind {
        EntryKind::Directory => "/",
        EntryKind::File => " ",
        _ => "",
    }
}

/// What of `name` stands behind its first `skip` characters.
fn rest_of(name: &str, skip: usize) -> (rest: String)
    requires
        skip <= name@.len(),
    ensures
        rest@ == name@.skip(skip as int),
{
    let chars = chars_of(name);
    string_of(&chars, skip, chars.len())
}

/// The path to look at for the candidate `name`.
fn path_of(raw_path: &str, fragment: &str, name: &str) -> (path: String)
    requires
        is_candidate(name@, fragment@),
    ensures
        path@ == candidate_path(raw_path@, fragment@, name@),
{
    let rest = rest_of(name, fragment.unicode_len());
    String::from_str(raw_path).concat(rest.as_str())
}

struct Search {
    stage: Stage,
    raw_path: String,
    base: String,
    fragment: String,
    names: Vec<String>,
    next: usize,
    entry: String,
    hints: Vec<String>,
    path: String,
}

impl View for Search {
    type V = SearchView;

    closed spec fn view(&self) -> SearchView {
        SearchView {
            stage: self.stage,
            raw_path: self.raw_path@,
            base: self.base@,
            fragment: self.fragment@,
            names: texts(self.names@).skip(self.next as int),
            entry: self.entry@,
            hints: texts(self.hints@),
        }
    }
}

impl Search {
    spec fn wf(&self) -> bool {
        &&& self.next <= self.names.len()
        &&& self.stage is Classify ==> self.next < self.names.len()
        &&& !(self.stage is Classify) ==> self.names.len() == 0
        &&& forall|i: int|
            0 <= i < self.names.len() ==> is_candidate(
                #[trigger] self.names@[i]@,
                self.fragment@,
            )
    }
}

/// A question of a search that is waiting for its answer: what does the path
/// [`Inspection::path`] name?
pub struct Inspection {
    search: Search,
}

/// A question of a search that is waiting for its answer: which entries does
/// the directory [`Listing::path`] hold?
pub struct Listing {
    search: Search,
}

/// A step of a search: a question to the file system, or the result.
pub enum Step {
    /// The search asks what a path names.
    Stat(Inspection),
    /// The search asks for the entries of a directory.
    List(Listing),
    /// The search is over; this is what it found.
    Done(Expansion),
}

impl View for Inspection {
    type V = SearchView;

    closed spec fn view(&self) -> SearchView {
        self.search@
    }
}

impl View for Listing {
    type V = SearchView;

    closed spec fn view(&self) -> SearchView {
        self.search@
    }
}

impl View for Step {
    type V = StepView;

    open spec fn view(&self) -> StepView {
        match self {
            Step::Stat(q) => StepView::Stat(q@),
            Step::List(q) => StepView::List(q@),
            Step::Done(e) => StepView::Done(e@),
        }
    }
}

impl Inspection {
    #[verifier::type_invariant]
    spec fn inv(&self) -> bool {
        self.search.wf() && self.search.path@ == asked(self.search@)
    }

    /// The path that the search asks about.
    pub fn path(&self) -> (s: &str)
        ensures
            s@ == asked(self@),
    {
        proof {
            use_type_invariant(self);
        }
        self.search.path.as_str()
    }

    /// Goes on with the answer: the path names a thing of the kind `kind`.
    pub fn answer(self, kind: EntryKind) -> (step: Step)
        ensures
            step@ == after_stat(self@, kind),
    {
        proof {
            use_type_invariant(&self);
        }
        let mut s = self.search;
        match s.stage {
            Stage::Locate => {
                if kind == EntryKind::Directory {
                    s.base = s.raw_path.clone();
                    s.fragment = String::new();
                    Step::List(Listing { search: s })
                } else if kind != EntryKind::Missing {
                    Step::Done(Expansion::new())
                } else {
                    let base = parent(s.raw_path.as_str());
                    let fragment = file_name(s.raw_path.as_str());
                    match (base, fragment) {
                        (Some(base), Some(fragment)) => {
                            s.stage = Stage::Open;
                            s.path = base.clone();
                            s.base = base;
                            s.fragment = fragment;
                            Step::Stat(Inspection { search: s })
                        },
                        _ => Step::Done(Expansion::new()),
                    }
                }
            },
            Stage::Open => {
                if kind == EntryKind::Directory {
                    Step::List(Listing { search: s })
                } else {
                    Step::Done(Expansion::new())
                }
            },
            Stage::Classify => {
                let ghost before = s@;
                let name = s.names[s.next].as_str();
                let found = mark(kind);
                if s.hints.len() == 0 {
                    let rest = rest_of(name, s.fragment.as_str().unicode_len());
                    s.entry = rest.concat(found);
                }
                let hint = String::from_str(name).concat(found);
                s.hints.push(hint);
                s.next = s.next + 1;
                assert(texts(s.hints@) == before.hints.push(before.names[0] + marker(kind)));
                assert(s@.names == before.names.drop_first());
                if s.next == s.names.len() {
                    Step::Done(Expansion::with(s.entry, s.hints))
                } else {
                    s.path = path_of(
                        s.raw_path.as_str(),
                        s.fragment.as_str(),
                        s.names[s.next].as_str(),
                    );
                    Step::Stat(Inspection { search: s })
                }
            },
        }
    }
}

impl Listing {
    #[verifier::type_invariant]
    spec fn inv(&self) -> bool {
        self.search.wf() && !(self.search.stage is Classify)
    }

    /// The directory that the search wants listed.
    pub fn path(&self) -> (s: &str)
        ensures
            s@ == self@.base,
    {
        self.search.base.as_str()
    }

    /// Goes on with the answer: the directory holds the entries `names`, in
    /// this order.
    pub fn answer(self, names: Vec<String>) -> (step: Step)
        ensures
            step@ == after_list(self@, texts(names@)),
    {
        proof {
            use_type_invariant(&self);
        }
        let mut s = self.search;
        let fragment = chars_of(s.fragment.as_str());
        let ghost listed = texts(names@);
        let ghost wanted = candidate_of(s.fragment@);
        let mut kept: Vec<String> = Vec::new();
        let mut i: usize = 0;
        proof {
            reveal(Seq::filter);
        }
        while i < names.len()
            invariant
                i <= names.len(),
                listed == texts(names@),
                wanted == candidate_of(s.fragment@),
                fragment@ == s.fragment@,
                texts(kept@) == listed.take(i as int).filter(wanted),
                forall|j: int|
                    0 <= j < kept.len() ==> is_candidate(#[trigger] kept@[j]@, s.fragment@),
            decreases names.len() - i,
        {
            let chars = chars_of(names[i].as_str());
            proof {
                reveal(Seq::filter);
                assert(listed.take(i + 1).drop_last() == listed.take(i as int));
            }
            if chars.len() > 0 && starts_with(&chars, &fragment) {
                kept.push(names[i].clone());
            }
            i += 1;
        }
        assert(listed.take(i as int) == listed);
        if kept.len() == 0 {
            Step::Done(Expansion::new())
        } else {
            s.path = path_of(s.raw_path.as_str(), s.fragment.as_str(), kept[0].as_str());
            s.stage = Stage::Classify;
            s.names = kept;
            s.next = 0;
            assert(s@.names == texts(s.names@));
            Step::Stat(Inspection { search: s })
        }
    }
}

/// The completion source for absolute paths: it takes a line whose last word
/// is an absolute path, and completes that path from the entries of the
/// directory it points into.
pub struct AbsPathExpander {}

impl AbsPathExpander {
    /// The completion source.
    pub fn new() -> AbsPathExpander {
        AbsPathExpander {  }
    }

    /// Whether the last word of the line is an absolute path. This never fails.
    pub fn takes(&self, source_path: &str) -> (r: Result<bool, Error>)
        ensures
            r matches Ok(b) && b == path_is_absolute(last_token(source_path@)),
    {
        let raw_path = last_word(source_path);
        Ok(is_absolute(raw_path.as_str()))
    }

    /// Starts the search for completions of the last word of the line, and
    /// returns its first question.
    pub fn expand(&mut self, source_path: &str) -> (step: Step)
        ensures
            step@ == begin(source_path@),
    {
        let raw_path = last_word(source_path);
        let search = Search {
            stage: Stage::Locate,
            path: raw_path.clone(),
            raw_path: raw_path,
            base: String::new(),
            fragment: String::new(),
            names: Vec::new(),
            next: 0,
            entry: String::new(),
            hints: Vec::new(),
        };
        assert(search@.names == Seq::<Seq<char>>::empty());
        assert(search@.hints == Seq::<Seq<char>>::empty());
        Step::Stat(Inspection { search })
    }
}

} // verus!
