use extension_report::scan::{EntryKind, ScanError, WalkItem};
use extension_report::selection::Selection;
use extension_report::shell::{Checkbox, Command, Message, PickedFolder, Reply};
use std::path::PathBuf;

fn file(name: &str) -> WalkItem {
    WalkItem::Entry { name: name.to_string(), kind: EntryKind::RegularFile }
}

fn dir(name: &str) -> WalkItem {
    WalkItem::Entry { name: name.to_string(), kind: EntryKind::Other }
}

fn project_walk() -> Vec<WalkItem> {
    vec![dir("project"), file("a.txt"), file("b.txt"), file("c.md"), dir("d"), file("e.txt")]
}

fn picked(path: &str, walk: Vec<WalkItem>) -> Reply {
    Reply::FolderPicked(Some(PickedFolder { path: PathBuf::from(path), walk }))
}

fn extensions(state: &Selection) -> Vec<String> {
    match state.extensions() {
        Some(found) => found.items().clone(),
        None => Vec::new(),
    }
}

fn selected(state: &Selection) -> Vec<String> {
    state.selected().items().clone()
}

fn scanned_project() -> Selection {
    let mut state = Selection::new();
    assert_eq!(state.update(Message::PickFolder), Command::AskFolder);
    assert_eq!(state.resume(picked("/home/u/project", project_walk())), Command::Done);
    state
}

#[test]
fn new_state_is_empty() {
    let state = Selection::new();
    assert_eq!(state.root(), None);
    assert!(state.extensions().is_none());
    assert!(state.selected().is_empty());
    let by_default = Selection::default();
    assert_eq!(by_default.root(), None);
    assert!(by_default.extensions().is_none());
    assert!(by_default.selected().is_empty());
}

#[test]
fn picking_a_folder_asks_for_the_dialog() {
    let mut state = Selection::new();
    assert_eq!(state.update(Message::PickFolder), Command::AskFolder);
    assert_eq!(state.root(), None);
}

#[test]
fn picked_folder_becomes_the_root() {
    let state = scanned_project();
    assert_eq!(state.root(), Some(&PathBuf::from("/home/u/project")));
    assert_eq!(extensions(&state), vec!["md", "txt"]);
    assert!(selected(&state).is_empty());
}

#[test]
fn cancelled_folder_dialog_changes_nothing() {
    let mut state = scanned_project();
    state.update(Message::ToggleExtension("txt".to_string()));
    assert_eq!(state.update(Message::PickFolder), Command::AskFolder);
    assert_eq!(state.resume(Reply::FolderPicked(None)), Command::Done);
    assert_eq!(state.root(), Some(&PathBuf::from("/home/u/project")));
    assert_eq!(extensions(&state), vec!["md", "txt"]);
    assert_eq!(selected(&state), vec!["txt"]);
}

#[test]
fn cancelled_folder_dialog_invents_nothing() {
    let mut state = Selection::new();
    assert_eq!(state.resume(Reply::FolderPicked(None)), Command::Done);
    assert_eq!(state.root(), None);
    assert!(state.extensions().is_none());
    assert!(state.selected().is_empty());
}

#[test]
fn new_root_replaces_the_extensions() {
    let mut state = scanned_project();
    let walk = vec![dir("other"), file("main.rs"), file("Cargo.toml")];
    assert_eq!(state.resume(picked("/srv/other", walk)), Command::Done);
    assert_eq!(state.root(), Some(&PathBuf::from("/srv/other")));
    assert_eq!(extensions(&state), vec!["rs", "toml"]);
}

#[test]
fn selection_outlives_a_change_of_root() {
    let mut state = scanned_project();
    state.update(Message::ToggleExtension("txt".to_string()));
    let walk = vec![dir("other"), file("main.rs")];
    state.resume(picked("/srv/other", walk));
    assert_eq!(extensions(&state), vec!["rs"]);
    assert_eq!(selected(&state), vec!["txt"]);
}

#[test]
fn unreadable_root_empties_the_state_and_is_shown() {
    let mut state = scanned_project();
    state.update(Message::ToggleExtension("md".to_string()));
    let command = state.resume(picked("/root/secret", vec![dir("secret"), WalkItem::Failed { depth: 0 }]));
    assert_eq!(command, Command::ShowScanError(ScanError::RootUnreadable));
    assert_eq!(state.root(), None);
    assert!(state.extensions().is_none());
    assert_eq!(selected(&state), vec!["md"]);
}

#[test]
fn set_root_returns_the_scan_error() {
    let mut state = Selection::new();
    let walk = vec![WalkItem::Failed { depth: 0 }];
    assert_eq!(state.set_root(PathBuf::from("/gone"), &walk), Err(ScanError::RootUnreadable));
    assert_eq!(state.root(), None);
    let walk = vec![dir("here"), file("x.c"), WalkItem::Failed { depth: 1 }];
    assert_eq!(state.set_root(PathBuf::from("/here"), &walk), Ok(()));
    assert_eq!(state.root(), Some(&PathBuf::from("/here")));
    assert_eq!(extensions(&state), vec!["c"]);
}

#[test]
fn toggle_message_selects_and_unselects() {
    let mut state = scanned_project();
    assert_eq!(state.update(Message::ToggleExtension("txt".to_string())), Command::Done);
    assert!(state.is_selected("txt"));
    assert!(!state.is_selected("md"));
    assert_eq!(state.update(Message::ToggleExtension("md".to_string())), Command::Done);
    assert_eq!(selected(&state), vec!["md", "txt"]);
    assert_eq!(state.update(Message::ToggleExtension("txt".to_string())), Command::Done);
    assert_eq!(selected(&state), vec!["md"]);
    assert_eq!(state.root(), Some(&PathBuf::from("/home/u/project")));
    assert_eq!(extensions(&state), vec!["md", "txt"]);
}

#[test]
fn toggle_of_an_extension_that_was_not_found() {
    let mut state = scanned_project();
    state.toggle("docx".to_string());
    assert_eq!(selected(&state), vec!["docx"]);
    state.toggle("docx".to_string());
    assert!(selected(&state).is_empty());
}

#[test]
fn toggle_twice_restores_the_selection() {
    let mut state = scanned_project();
    state.toggle("txt".to_string());
    let before = selected(&state);
    for e in ["md", "txt", "zip"] {
        state.toggle(e.to_string());
        state.toggle(e.to_string());
        assert_eq!(selected(&state), before);
    }
}

#[test]
fn clear_selection_keeps_root_and_extensions() {
    let mut state = scanned_project();
    state.toggle("txt".to_string());
    state.toggle("md".to_string());
    state.clear_selection();
    assert!(selected(&state).is_empty());
    assert_eq!(state.root(), Some(&PathBuf::from("/home/u/project")));
    assert_eq!(extensions(&state), vec!["md", "txt"]);
}

#[test]
fn generate_asks_where_to_save() {
    let mut state = scanned_project();
    assert_eq!(state.update(Message::Generate), Command::AskDestination);
}

#[test]
fn generate_without_a_root_does_nothing() {
    let mut state = Selection::new();
    state.toggle("txt".to_string());
    assert_eq!(state.update(Message::Generate), Command::Done);
    assert_eq!(state.resume(Reply::DestinationPicked(Some(PathBuf::from("/tmp/r.docx")))), Command::Done);
    assert!(state.report_job(PathBuf::from("/tmp/r.docx")).is_none());
}

#[test]
fn cancelled_save_dialog_makes_no_job() {
    let mut state = scanned_project();
    state.toggle("txt".to_string());
    assert_eq!(state.update(Message::Generate), Command::AskDestination);
    assert_eq!(state.resume(Reply::DestinationPicked(None)), Command::Done);
    assert_eq!(selected(&state), vec!["txt"]);
    assert_eq!(state.root(), Some(&PathBuf::from("/home/u/project")));
}

#[test]
fn picked_destination_makes_the_job() {
    let mut state = scanned_project();
    state.update(Message::ToggleExtension("txt".to_string()));
    assert_eq!(state.update(Message::Generate), Command::AskDestination);
    let command = state.resume(Reply::DestinationPicked(Some(PathBuf::from("/home/u/report.docx"))));
    match command {
        Command::Dispatch(job) => {
            assert_eq!(job.root(), &PathBuf::from("/home/u/project"));
            assert_eq!(job.extensions(), &vec!["txt".to_string()]);
            assert_eq!(job.destination(), &PathBuf::from("/home/u/report.docx"));
        }
        other => panic!("no job: {other:?}"),
    }
}

#[test]
fn making_a_job_leaves_the_state_as_it_was() {
    let mut state = scanned_project();
    state.toggle("md".to_string());
    state.toggle("txt".to_string());
    let job = state.report_job(PathBuf::from("out.docx")).unwrap();
    assert_eq!(job.extensions(), &vec!["md".to_string(), "txt".to_string()]);
    assert_eq!(state.root(), Some(&PathBuf::from("/home/u/project")));
    assert_eq!(extensions(&state), vec!["md", "txt"]);
    assert_eq!(selected(&state), vec!["md", "txt"]);
}

#[test]
fn job_is_a_snapshot_of_the_selection() {
    let mut state = scanned_project();
    state.toggle("txt".to_string());
    let job = state.report_job(PathBuf::from("out.docx")).unwrap();
    state.toggle("md".to_string());
    state.toggle("txt".to_string());
    assert_eq!(job.extensions(), &vec!["txt".to_string()]);
}

#[test]
fn two_jobs_have_their_own_destinations() {
    let mut state = scanned_project();
    state.toggle("txt".to_string());
    let first = state.resume(Reply::DestinationPicked(Some(PathBuf::from("one.docx"))));
    let second = state.resume(Reply::DestinationPicked(Some(PathBuf::from("two.docx"))));
    match (first, second) {
        (Command::Dispatch(a), Command::Dispatch(b)) => {
            assert_eq!(a.destination(), &PathBuf::from("one.docx"));
            assert_eq!(b.destination(), &PathBuf::from("two.docx"));
            assert_eq!(a.root(), b.root());
            assert_eq!(a.extensions(), b.extensions());
        }
        other => panic!("no two jobs: {other:?}"),
    }
}

#[test]
fn checkboxes_list_the_extensions_found() {
    let mut state = scanned_project();
    state.toggle("txt".to_string());
    state.toggle("zip".to_string());
    assert_eq!(
        state.checkboxes(),
        vec![
            Checkbox { label: ".md".to_string(), extension: "md".to_string(), checked: false },
            Checkbox { label: ".txt".to_string(), extension: "txt".to_string(), checked: true },
        ]
    );
}

#[test]
fn checkboxes_of_the_empty_state() {
    let mut state = Selection::new();
    state.toggle("txt".to_string());
    assert!(state.checkboxes().is_empty());
}

#[test]
fn message_clone_is_the_same_message() {
    let m = Message::ToggleExtension("txt".to_string());
    match m.clone() {
        Message::ToggleExtension(e) => assert_eq!(e, "txt"),
        other => panic!("{other:?}"),
    }
    assert!(matches!(Message::PickFolder.clone(), Message::PickFolder));
    assert!(matches!(Message::Generate.clone(), Message::Generate));
}
