use std::collections::HashMap;
use std::sync::Mutex;

use hdiff_apply::deletefiles::{DeleteFileError, DeleteFiles};
use hdiff_apply::tool::{FileRemover, RemoveOutcome};

/// A remover scripted per full path; unlisted paths count as missing.
struct ScriptedRemover {
    outcomes: HashMap<String, RemoveOutcome>,
    calls: Mutex<Vec<String>>,
}

impl ScriptedRemover {
    fn new(outcomes: Vec<(&str, RemoveOutcome)>) -> Self {
        ScriptedRemover {
            outcomes: outcomes.into_iter().map(|(k, v)| (k.to_string(), v)).collect(),
            calls: Mutex::new(Vec::new()),
        }
    }
}

impl FileRemover for ScriptedRemover {
    fn remove(&self, path: &String) -> RemoveOutcome {
        self.calls.lock().unwrap().push(path.clone());
        match self.outcomes.get(path) {
            Some(outcome) => *outcome,
            None => RemoveOutcome::Missing,
        }
    }
}

fn lines(items: &[&str]) -> Vec<String> {
    items.iter().map(|s| s.to_string()).collect()
}

#[test]
fn missing_file_is_no_error_and_not_counted() {
    // The list names a file that does not exist on disk: the attempt is an
    // acceptable end state — no error raised, count unaffected — while a
    // denied removal is likewise excluded from the count.
    let remover = ScriptedRemover::new(vec![
        ("root/kept.bin", RemoveOutcome::Removed),
        ("root/locked.bin", RemoveOutcome::Failed),
    ]);
    let mut retirer = DeleteFiles::new("root".to_string());
    let list = lines(&["kept.bin", "ghost.bin", "locked.bin"]);
    let outcomes = retirer
        .remove(&remover, &"deletefiles.txt".to_string(), Some(&list))
        .unwrap();
    assert_eq!(retirer.count(), 1);
    assert_eq!(
        outcomes,
        vec![RemoveOutcome::Removed, RemoveOutcome::Missing, RemoveOutcome::Failed]
    );
}

#[test]
fn absent_list_is_the_distinguished_not_found() {
    let remover = ScriptedRemover::new(vec![]);
    let mut retirer = DeleteFiles::new("root".to_string());
    let r = retirer.remove(&remover, &"deletefiles.txt".to_string(), None);
    assert_eq!(r, Err(DeleteFileError::NotFound("deletefiles.txt".to_string())));
    assert_eq!(retirer.count(), 0);
    assert!(remover.calls.lock().unwrap().is_empty());
}

#[test]
fn empty_list_is_not_an_error() {
    let remover = ScriptedRemover::new(vec![]);
    let mut retirer = DeleteFiles::new("root".to_string());
    let outcomes = retirer
        .remove(&remover, &"deletefiles.txt".to_string(), Some(&vec![]))
        .unwrap();
    assert!(outcomes.is_empty());
    assert_eq!(retirer.count(), 0);
}

#[test]
fn duplicate_paths_double_count_as_already_gone() {
    // The first attempt removes the file; the second finds it gone, which
    // is legal and simply not counted again.
    let remover = ScriptedRemover::new(vec![("root/a.bin", RemoveOutcome::Removed)]);
    let mut retirer = DeleteFiles::new("root".to_string());
    let list = lines(&["a.bin", "a.bin"]);
    let outcomes = retirer
        .remove(&remover, &"deletefiles.txt".to_string(), Some(&list))
        .unwrap();
    // The scripted remover answers Removed both times; the real filesystem
    // would answer Missing the second time. Either way every line is
    // attempted:
    assert_eq!(outcomes.len(), 2);
    assert_eq!(
        *remover.calls.lock().unwrap(),
        vec!["root/a.bin".to_string(), "root/a.bin".to_string()]
    );
}

#[test]
fn counting_accumulates_across_calls() {
    let remover = ScriptedRemover::new(vec![
        ("root/a", RemoveOutcome::Removed),
        ("root/b", RemoveOutcome::Removed),
    ]);
    let mut retirer = DeleteFiles::new("root".to_string());
    retirer
        .remove(&remover, &"d.txt".to_string(), Some(&lines(&["a"])))
        .unwrap();
    retirer
        .remove(&remover, &"d.txt".to_string(), Some(&lines(&["b"])))
        .unwrap();
    assert_eq!(retirer.count(), 2);
}

#[test]
fn new_retirer_starts_at_zero() {
    let retirer = DeleteFiles::new("root".to_string());
    assert_eq!(retirer.count(), 0);
    assert_eq!(retirer.game_path, "root");
}
