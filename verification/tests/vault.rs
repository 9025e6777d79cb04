use note_vault::note::{Note, NoteMetadata, ZettelType};
use note_vault::vault::{find_note, read_vault, VaultFile};

fn file(name: &str, contents: &str) -> VaultFile {
    VaultFile { name: name.to_string(), contents: Some(contents.to_string()) }
}

fn note(name: &str, scope: &str) -> Note {
    Note {
        name: name.to_string(),
        metadata: NoteMetadata {
            source: None,
            scope: scope.to_string(),
            kind: ZettelType::Main,
            created: String::new(),
            modified: String::new(),
        },
        body: String::new(),
    }
}

const VALID: &str =
    "---\nscope: project\ntype: main\ncreated: 2024-01-01\nmodified: 2024-01-01\n---\nsee [[b]]";

#[test]
fn vault_of_two_files_one_note() {
    let notes = read_vault(&vec![file("a.md", VALID), file("b.md", "no front matter here")]);
    assert_eq!(notes.len(), 1);
    assert_eq!(notes[0].name, "a.md");
    assert_eq!(notes[0].body, "see [b](b)");
    assert_eq!(notes[0].metadata.scope, "project");
    assert_eq!(notes[0].metadata.kind, ZettelType::Main);
    assert_eq!(notes[0].metadata.created, "2024-01-01");
    assert_eq!(notes[0].metadata.modified, "2024-01-01");
    assert_eq!(notes[0].metadata.source, None);
    assert!(find_note(&notes, "b.md").is_none());
}

#[test]
fn vault_without_files_has_no_notes() {
    assert!(read_vault(&Vec::new()).is_empty());
}

#[test]
fn vault_passes_over_file_without_header() {
    let notes = read_vault(&vec![file("b.md", "body only")]);
    assert!(notes.is_empty());
}

#[test]
fn vault_passes_over_file_with_unknown_kind() {
    let bogus =
        "---\nscope: project\ntype: bogus\ncreated: 2024-01-01\nmodified: 2024-01-01\n---\nbody";
    let notes = read_vault(&vec![file("x.md", bogus), file("a.md", VALID)]);
    assert_eq!(notes.len(), 1);
    assert_eq!(notes[0].name, "a.md");
}

#[test]
fn vault_passes_over_unreadable_and_nameless_files() {
    let notes = read_vault(&vec![
        VaultFile { name: "picture.png".to_string(), contents: None },
        file("", VALID),
        file("a.md", VALID),
    ]);
    assert_eq!(notes.len(), 1);
    assert_eq!(notes[0].name, "a.md");
}

#[test]
fn vault_keeps_the_order_of_its_files() {
    let notes = read_vault(&vec![
        file("z.md", VALID),
        file("skip.txt", "nothing"),
        file("a.md", VALID),
        file("m.md", VALID),
    ]);
    let names: Vec<&str> = notes.iter().map(|note| note.name.as_str()).collect();
    assert_eq!(names, vec!["z.md", "a.md", "m.md"]);
}

#[test]
fn find_gives_the_note_of_that_name() {
    let notes = vec![note("a.md", "one"), note("b.md", "two"), note("c.md", "three")];
    assert_eq!(find_note(&notes, "b.md"), Some(&notes[1]));
    assert_eq!(find_note(&notes, "a.md"), Some(&notes[0]));
    assert_eq!(find_note(&notes, "c.md"), Some(&notes[2]));
}

#[test]
fn find_gives_the_first_of_two() {
    let notes = vec![note("a.md", "one"), note("b.md", "two"), note("b.md", "three")];
    assert_eq!(find_note(&notes, "b.md").unwrap().metadata.scope, "two");
}

#[test]
fn find_gives_nothing_for_an_unknown_name() {
    let notes = vec![note("a.md", "one")];
    assert_eq!(find_note(&notes, "website-parser-test.md"), None);
    assert_eq!(find_note(&notes, "a"), None);
    assert_eq!(find_note(&notes, "a.md "), None);
    assert_eq!(find_note(&Vec::new(), "a.md"), None);
}
