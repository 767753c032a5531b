//! The contract between the session state and the interaction shell round it.
//!
//! The shell owns the dialogs, the walk of the file system and the worker. It
//! hands each user intent to `update`, carries out the `Command` that comes
//! back, and hands what a dialog answered to `resume`, until the command is
//! `Done` or one that ends the exchange.

use crate::dispatch::{ReportJob, ReportJobView};
use crate::extension_set::toggled;
use crate::order::ascending;
use crate::scan::{extensions_found, root_unreadable, ScanError, WalkItem};
use crate::selection::{Selection, SelectionView};
use std::path::PathBuf;
use vstd::prelude::*;
use vstd::string::*;

verus! {

/// What the user asks for.
#[derive(Debug)]
pub enum Message {
    /// Choose the root directory.
    PickFolder,
    /// Generate the report on the selected extensions.
    Generate,
    /// Select the extension, or take it from the selection.
    ToggleExtension(String),
}

impl Clone for Message {
    fn clone(&self) -> (r: Self)
        ensures
            r == *self,
    {
        match self {
            Message::PickFolder => Message::PickFolder,
            Message::Generate => Message::Generate,
            Message::ToggleExtension(ext) => Message::ToggleExtension(ext.clone()),
        }
    }
}

/// A folder that the user chose, with what a walk of it reported.
#[derive(Debug)]
pub struct PickedFolder {
    pub path: PathBuf,
    pub walk: Vec<WalkItem>,
}

/// What a dialog answered. `None` stands for a dialog that was cancelled.
#[derive(Debug)]
pub enum Reply {
    /// The answer to `Command::AskFolder`.
    FolderPicked(Option<PickedFolder>),
    /// The answer to `Command::AskDestination`.
    DestinationPicked(Option<PathBuf>),
}

/// What the shell is to do next.
#[derive(Debug, PartialEq, Eq)]
pub enum Command {
    /// Nothing more: the intent is dealt with.
    Done,
    /// Let the user choose a folder, walk it, and answer with
    /// `Reply::FolderPicked`.
    AskFolder,
    /// Let the user choose where to save, and answer with
    /// `Reply::DestinationPicked`.
    AskDestination,
    /// Hand the job to the dispatcher. The exchange ends.
    Dispatch(ReportJob),
    /// Show that the scan failed. The exchange ends.
    ShowScanError(ScanError),
}

/// One line of the list of extensions that the shell shows.
#[derive(Debug, PartialEq, Eq)]
pub struct Checkbox {
    /// What the line reads: a dot and the extension.
    pub label: String,
    /// The extension that the line toggles.
    pub extension: String,
    /// Whether the extension is selected.
    pub checked: bool,
}

/// `after` is `before` with the root and extensions that a folder pick gave:
/// those of the walk where it could open the root, none where it could not.
pub open spec fn folder_taken(
    before: SelectionView,
    path: PathBuf,
    walk: Seq<WalkItem>,
    after: SelectionView,
) -> bool {
    &&& after.selected == before.selected
    &&& ascending(after.extensions)
    &&& if root_unreadable(walk) {
        after.root is None && after.extensions.len() == 0
    } else {
        after.root == Some(path) && after.extensions.to_set() == extensions_found(walk)
    }
}

impl Selection {
    /// Takes a user intent.
    ///
    /// Toggling is done at once. Picking a folder asks for the folder dialog.
    /// Generating asks for the save dialog, or does nothing while no root is
    /// chosen: there is nothing to report on.
    pub fn update(&mut self, message: Message) -> (command: Command)
        ensures
            match message {
                Message::PickFolder => command is AskFolder && final(self)@ == old(self)@,
                Message::Generate => {
                    &&& final(self)@ == old(self)@
                    &&& if old(self)@.root is Some {
                        command is AskDestination
                    } else {
                        command is Done
                    }
                },
                Message::ToggleExtension(ext) => {
                    &&& command is Done
                    &&& final(self)@.root == old(self)@.root
                    &&& final(self)@.extensions == old(self)@.extensions
                    &&& final(self)@.selected.to_set() == toggled(
                        old(self)@.selected.to_set(),
                        ext@,
                    )
                    &&& ascending(final(self)@.selected)
                },
            },
    {
        match message {
            Message::PickFolder => Command::AskFolder,
            Message::Generate => {
                if self.root().is_some() {
                    Command::AskDestination
                } else {
                    Command::Done
                }
            },
            Message::ToggleExtension(ext) => {
                self.toggle(ext);
                Command::Done
            },
        }
    }

    /// Takes the answer of a dialog.
    ///
    /// A cancelled dialog changes nothing and ends the exchange: no scan is
    /// made and no job. A picked folder becomes the root, with the extensions
    /// of its walk; where the walk could not open it, the state goes back to
    /// `Empty` and the shell is to show the error. A picked destination makes a
    /// job of the root and the selection, which the shell is to dispatch; the
    /// state is left as it is.
    pub fn resume(&mut self, reply: Reply) -> (command: Command)
        ensures
            match reply {
                Reply::FolderPicked(None) => command is Done && final(self)@ == old(self)@,
                Reply::FolderPicked(Some(picked)) => {
                    &&& folder_taken(old(self)@, picked.path, picked.walk@, final(self)@)
                    &&& if root_unreadable(picked.walk@) {
                        command == Command::ShowScanError(ScanError::RootUnreadable)
                    } else {
                        command is Done
                    }
                },
                Reply::DestinationPicked(None) => command is Done && final(self)@ == old(self)@,
                Reply::DestinationPicked(Some(destination)) => {
                    &&& final(self)@ == old(self)@
                    &&& match old(self)@.root {
                        Some(root) => command is Dispatch && command->Dispatch_0@ == (
                        ReportJobView { root, extensions: old(self)@.selected, destination }),
                        None => command is Done,
                    }
                },
            },
    {
        match reply {
            Reply::FolderPicked(None) => Command::Done,
            Reply::FolderPicked(Some(picked)) => {
                let PickedFolder { path, walk } = picked;
                match self.set_root(path, &walk) {
                    Ok(_) => Command::Done,
                    Err(e) => Command::ShowScanError(e),
                }
            },
            Reply::DestinationPicked(None) => Command::Done,
            Reply::DestinationPicked(Some(destination)) => {
                match self.report_job(destination) {
                    Some(job) => Command::Dispatch(job),
                    None => Command::Done,
                }
            },
        }
    }

    /// The list that the shell shows: one line for each extension found, in
    /// ascending order, checked where the extension is selected. A selected
    /// extension that the last scan did not find has no line.
    pub fn checkboxes(&self) -> (lines: Vec<Checkbox>)
        ensures
            lines.len() == self@.extensions.len(),
            forall|i: int|
                0 <= i < lines.len() ==> {
                    &&& (#[trigger] lines[i]).extension@ == self@.extensions[i]
                    &&& lines[i].label@ == seq!['.'] + self@.extensions[i]
                    &&& lines[i].checked == self@.selected.contains(self@.extensions[i])
                },
    {
        let mut lines: Vec<Checkbox> = Vec::new();
        if let Some(found) = self.extensions() {
            let items = found.items();
            let mut i: usize = 0;
            while i < items.len()
                invariant
                    0 <= i <= items.len(),
                    items.deep_view() == self@.extensions,
                    lines.len() == i,
                    forall|j: int|
                        0 <= j < i ==> {
                            &&& (#[trigger] lines[j]).extension@ == self@.extensions[j]
                            &&& lines[j].label@ == seq!['.'] + self@.extensions[j]
                            &&& lines[j].checked == self@.selected.contains(self@.extensions[j])
                        },
                decreases items.len() - i,
            {
                let ext = &items[i];
                assert(ext@ == items.deep_view()[i as int]);
                proof {
                    reveal_strlit(".");
                    assert("."@ =~= seq!['.']);
                }
                let label = String::from_str(".").concat(ext.as_str());
                let checked = self.is_selected(ext.as_str());
                lines.push(Checkbox { label, extension: ext.clone(), checked });
                i += 1;
            }
        }
        lines
    }
}

} // verus!
