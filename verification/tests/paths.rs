use std::collections::HashMap;
use std::io::Error;
use termprompt::text::{chars_of, last_word, starts_with, string_of};
use termprompt::{AbsPathExpander, EntryKind, Expands, Expansion, Outcome, Step, TerminalPrompt};

/// A file system in memory: what each path names, and the entries of each
/// directory in listing order.
#[derive(Clone)]
struct Table {
    kinds: HashMap<String, EntryKind>,
    entries: HashMap<String, Vec<String>>,
}

impl Table {
    fn new() -> Table {
        Table { kinds: HashMap::new(), entries: HashMap::new() }
    }

    fn dir(mut self, path: &str, entries: &[&str]) -> Table {
        self.kinds.insert(path.to_string(), EntryKind::Directory);
        let mut names = Vec::new();
        for entry in entries {
            names.push(entry.to_string());
        }
        self.entries.insert(path.to_string(), names);
        self
    }

    fn entry(mut self, path: &str, kind: EntryKind) -> Table {
        self.kinds.insert(path.to_string(), kind);
        self
    }

    fn kind(&self, path: &str) -> EntryKind {
        match self.kinds.get(path) {
            Some(kind) => *kind,
            None => EntryKind::Missing,
        }
    }

    /// Runs a search to its end and returns what it found, with the paths it
    /// asked about.
    fn search(&self, line: &str) -> (Expansion, Vec<String>) {
        let mut asked = Vec::new();
        let mut step = AbsPathExpander::new().expand(line);
        loop {
            step = match step {
                Step::Done(found) => return (found, asked),
                Step::Stat(question) => {
                    asked.push(format!("stat {}", question.path()));
                    let kind = self.kind(question.path());
                    question.answer(kind)
                }
                Step::List(question) => {
                    asked.push(format!("list {}", question.path()));
                    let names = self.entries.get(question.path()).unwrap().clone();
                    question.answer(names)
                }
            };
        }
    }
}

/// The path completion as a source for the editor, answered from a table.
struct TableExpander {
    table: Table,
    search: AbsPathExpander,
}

impl Expands for TableExpander {
    fn takes(&self, raw_path: &str) -> Result<bool, Error> {
        self.search.takes(raw_path)
    }

    fn expand(&mut self, raw_path: &str) -> Result<Expansion, Error> {
        Ok(self.table.search(raw_path).0)
    }
}

fn hints_of(found: &Expansion) -> Vec<String> {
    let mut hints = Vec::new();
    for i in 0..found.hint_count() {
        hints.push(found.hint(i).to_string());
    }
    hints
}

fn tmp() -> Table {
    Table::new()
        .dir("/tmp", &["bar", "foo.txt", "food", "", "fob", "zed"])
        .entry("/tmp/foo.txt", EntryKind::File)
        .entry("/tmp/food", EntryKind::Directory)
        .entry("/tmp/fob", EntryKind::Other)
        .entry("/tmp/bar", EntryKind::File)
        .entry("/tmp/zed", EntryKind::Directory)
}

#[test]
fn last_word_is_the_last_run_without_whitespace() {
    assert_eq!(last_word("cat /tmp/fo"), "/tmp/fo");
    assert_eq!(last_word("/tmp/fo"), "/tmp/fo");
    assert_eq!(last_word("cat   /usr  \t "), "/usr");
    assert_eq!(last_word("a\tb\nc"), "c");
    assert_eq!(last_word("a\u{a0}b"), "b");
    assert_eq!(last_word(""), "");
    assert_eq!(last_word("  \t "), "");
    assert_eq!(last_word("x"), "x");
    assert_eq!(last_word(" \u{e9}t\u{e9}"), "\u{e9}t\u{e9}");
}

#[test]
fn characters_and_prefixes() {
    let line = chars_of("h\u{e9}llo");
    assert_eq!(line, vec!['h', '\u{e9}', 'l', 'l', 'o']);
    assert_eq!(string_of(&line, 1, 4), "\u{e9}ll");
    assert_eq!(string_of(&line, 2, 2), "");
    assert!(starts_with(&line, &chars_of("h\u{e9}")));
    assert!(starts_with(&line, &chars_of("")));
    assert!(starts_with(&line, &line));
    assert!(!starts_with(&line, &chars_of("he")));
    assert!(!starts_with(&line, &chars_of("h\u{e9}llo!")));
}

#[test]
fn takes_lines_that_end_in_an_absolute_path() {
    let source = AbsPathExpander::new();
    assert!(source.takes("/usr").unwrap());
    assert!(source.takes("ls /usr/lo").unwrap());
    assert!(source.takes("ls /usr ").unwrap());
    assert!(source.takes("ls\t/").unwrap());
    assert!(!source.takes("usr").unwrap());
    assert!(!source.takes("/usr ls").unwrap());
    assert!(!source.takes("ls ./usr").unwrap());
    assert!(!source.takes("").unwrap());
    assert!(!source.takes("   ").unwrap());
}

#[test]
fn search_asks_first_what_the_last_word_names() {
    match AbsPathExpander::new().expand("cat /tmp/fo") {
        Step::Stat(question) => assert_eq!(question.path(), "/tmp/fo"),
        _ => panic!("the search did not start with a question about the path"),
    }
}

#[test]
fn single_file_candidate_is_completed_with_a_space() {
    let (found, asked) = tmp().search("cat /tmp/foo.");
    assert_eq!(asked, vec!["stat /tmp/foo.", "stat /tmp", "list /tmp", "stat /tmp/foo.txt"]);
    assert_eq!(found.entry_as_str(), "txt ");
    assert_eq!(hints_of(&found), vec!["foo.txt "]);
    assert!(found.is_resolved());
}

#[test]
fn single_directory_candidate_is_completed_with_a_slash() {
    let (found, _) = tmp().search("cd /tmp/z");
    assert_eq!(found.entry_as_str(), "ed/");
    assert_eq!(hints_of(&found), vec!["zed/"]);
    assert!(found.is_resolved());
}

#[test]
fn single_candidate_of_another_kind_gets_no_mark() {
    let (found, _) = tmp().search("/tmp/fob");
    assert_eq!(found.entry_as_str(), "");
    assert!(hints_of(&found).is_empty());
    let table = Table::new().dir("/dev", &["null", "tty"]).entry("/dev/null", EntryKind::Other);
    let (found, asked) = table.search("cat /dev/nu");
    assert_eq!(asked.last().unwrap(), "stat /dev/null");
    assert_eq!(found.entry_as_str(), "ll");
    assert_eq!(hints_of(&found), vec!["null"]);
    assert!(found.is_resolved());
}

#[test]
fn vanished_candidate_gets_no_mark() {
    let table = Table::new().dir("/run", &["lock"]);
    let (found, _) = table.search("/run/lo");
    assert_eq!(found.entry_as_str(), "ck");
    assert_eq!(hints_of(&found), vec!["lock"]);
}

#[test]
fn several_candidates_are_hinted_in_listing_order() {
    let (found, asked) = tmp().search("cat /tmp/fo");
    assert_eq!(
        asked,
        vec![
            "stat /tmp/fo",
            "stat /tmp",
            "list /tmp",
            "stat /tmp/foo.txt",
            "stat /tmp/food",
            "stat /tmp/fob",
        ]
    );
    assert_eq!(hints_of(&found), vec!["foo.txt ", "food/", "fob"]);
    assert_eq!(found.entry_as_str(), "o.txt ");
    assert!(!found.is_resolved());
    assert_eq!(found.hints_as_string(), "\r\nfoo.txt \tfood/\tfob\r\n");
}

#[test]
fn existing_directory_is_listed_itself() {
    let table = Table::new()
        .dir("/srv/", &["www", "", "ftp"])
        .entry("/srv/www", EntryKind::Directory)
        .entry("/srv/ftp", EntryKind::File);
    let (found, asked) = table.search("ls /srv/");
    assert_eq!(asked, vec!["stat /srv/", "list /srv/", "stat /srv/www", "stat /srv/ftp"]);
    assert_eq!(found.entry_as_str(), "www/");
    assert_eq!(hints_of(&found), vec!["www/", "ftp "]);
}

#[test]
fn existing_directory_without_slash_is_extended_as_typed() {
    let table = Table::new().dir("/srv", &["www"]).entry("/srv/www", EntryKind::Directory);
    let (found, asked) = table.search("/srv");
    assert_eq!(asked, vec!["stat /srv", "list /srv", "stat /srvwww"]);
    assert_eq!(found.entry_as_str(), "www");
    assert_eq!(hints_of(&found), vec!["www"]);
}

#[test]
fn existing_file_has_no_completion() {
    let (found, asked) = tmp().search("cat /tmp/foo.txt");
    assert_eq!(asked, vec!["stat /tmp/foo.txt"]);
    assert_eq!(found.entry_as_str(), "");
    assert_eq!(found.hint_count(), 0);
}

#[test]
fn parent_that_is_no_directory_has_no_completion() {
    let (found, asked) = tmp().search("/tmp/foo.txt/x");
    assert_eq!(asked, vec!["stat /tmp/foo.txt/x", "stat /tmp/foo.txt"]);
    assert_eq!(found.hint_count(), 0);
    let (found, asked) = tmp().search("/nowhere/x");
    assert_eq!(asked, vec!["stat /nowhere/x", "stat /nowhere"]);
    assert_eq!(found.entry_as_str(), "");
    assert_eq!(found.hint_count(), 0);
}

#[test]
fn path_without_parent_has_no_completion() {
    let (found, asked) = Table::new().search("/");
    assert_eq!(asked, vec!["stat /"]);
    assert_eq!(found.entry_as_str(), "");
    assert_eq!(found.hint_count(), 0);
    let (found, asked) = Table::new().search("");
    assert_eq!(asked, vec!["stat "]);
    assert_eq!(found.hint_count(), 0);
}

#[test]
fn path_without_final_component_has_no_completion() {
    let (found, asked) = tmp().search("/nowhere/..");
    assert_eq!(asked, vec!["stat /nowhere/.."]);
    assert_eq!(found.entry_as_str(), "");
    assert_eq!(found.hint_count(), 0);
}

#[test]
fn no_candidate_has_no_completion() {
    let (found, asked) = tmp().search("/tmp/q");
    assert_eq!(asked, vec!["stat /tmp/q", "stat /tmp", "list /tmp"]);
    assert_eq!(found.entry_as_str(), "");
    assert_eq!(found.hint_count(), 0);
}

#[test]
fn candidates_match_by_case_and_from_the_start() {
    let table = Table::new().dir("/d", &["Foo", "foo", "xfoo", "fo", "f"]);
    let (found, _) = table.search("/d/fo");
    assert_eq!(hints_of(&found), vec!["foo", "fo"]);
    assert_eq!(found.entry_as_str(), "o");
}

#[test]
fn relative_path_in_the_last_word_is_searched_as_typed() {
    let table = Table::new().dir("tmp", &["foo"]).entry("tmp/foo", EntryKind::File);
    let (found, asked) = table.search("cat tmp/f");
    assert_eq!(asked, vec!["stat tmp/f", "stat tmp", "list tmp", "stat tmp/foo"]);
    assert_eq!(found.entry_as_str(), "oo ");
}

#[test]
fn tab_completes_a_single_candidate_in_the_editor() {
    let mut editor = TerminalPrompt::new("> ".to_string());
    editor.register(Box::new(TableExpander { table: tmp(), search: AbsPathExpander::new() }));
    for key in b"cat /tmp/foo." {
        editor.feed(*key).unwrap();
    }
    let reaction = editor.feed(9).unwrap();
    assert_eq!(reaction.output, b"txt ".to_vec());
    assert_eq!(editor.buffer(), "cat /tmp/foo.txt ");
    let reaction = editor.feed(13).unwrap();
    match reaction.outcome {
        Outcome::Line(line) => assert_eq!(line, "cat /tmp/foo.txt "),
        _ => panic!("the line was not finished"),
    }
}

#[test]
fn tab_lists_several_candidates_in_the_editor() {
    let table = Table::new()
        .dir("/tmp", &["foo.txt", "food"])
        .entry("/tmp/foo.txt", EntryKind::File)
        .entry("/tmp/food", EntryKind::Directory);
    let mut editor = TerminalPrompt::new("> ".to_string());
    editor.register(Box::new(TableExpander { table, search: AbsPathExpander::new() }));
    for key in b"cat /tmp/fo" {
        editor.feed(*key).unwrap();
    }
    let reaction = editor.feed(9).unwrap();
    assert_eq!(reaction.output, b"\r\nfoo.txt \tfood/\r\n> cat /tmp/fo".to_vec());
    assert_eq!(editor.buffer(), "cat /tmp/fo");
}

#[test]
fn tab_on_a_relative_word_is_a_no_op_in_the_editor() {
    let mut editor = TerminalPrompt::new("> ".to_string());
    editor.register(Box::new(TableExpander { table: tmp(), search: AbsPathExpander::new() }));
    for key in b"cat tmp/fo" {
        editor.feed(*key).unwrap();
    }
    let reaction = editor.feed(9).unwrap();
    assert!(reaction.output.is_empty());
    assert_eq!(editor.buffer(), "cat tmp/fo");
}
