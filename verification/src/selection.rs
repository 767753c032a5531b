//! The state of a session: the chosen root directory, the extensions found
//! under it, and the extensions that the user has selected.

use crate::dispatch::{ReportJob, ReportJobView};
use crate::extension_set::{toggled, ExtensionSet};
use crate::order::ascending;
use crate::scan::{extensions_found, root_unreadable, scan, ScanError, WalkItem};
use std::path::PathBuf;
use vstd::prelude::*;

verus! {

/// `std::path::PathBuf`, which the library carries and never looks into.
#[verifier::external_type_specification]
#[verifier::external_body]
pub struct ExPathBuf(std::path::PathBuf);

/// `PathBuf::clone` gives a path equal to the one it was called on.
pub assume_specification[ <PathBuf as Clone>::clone ](path: &PathBuf) -> (r: PathBuf)
    ensures
        r == *path,
;

/// What a `Selection` holds, as plain values.
pub struct SelectionView {
    /// The chosen directory; `None` while no folder is chosen.
    pub root: Option<PathBuf>,
    /// The extensions found under the root, ascending.
    pub extensions: Seq<Seq<char>>,
    /// The extensions that the user has selected, ascending.
    pub selected: Seq<Seq<char>>,
}

/// A root directory with the extensions that its scan found.
#[derive(Debug)]
struct Scanned {
    root: PathBuf,
    extensions: ExtensionSet,
}

/// The state of a session.
///
/// It is `Empty` (no root chosen, no extensions known) or `Scanned` (a root and
/// the extensions of its last scan). The selected extensions outlive a change
/// of root and are not cut down to the extensions of the new root.
#[derive(Debug)]
pub struct Selection {
    scanned: Option<Scanned>,
    selected: ExtensionSet,
}

impl View for Selection {
    type V = SelectionView;

    closed spec fn view(&self) -> SelectionView {
        SelectionView {
            root: match self.scanned {
                Some(s) => Some(s.root),
                None => None,
            },
            extensions: match self.scanned {
                Some(s) => s.extensions@,
                None => Seq::empty(),
            },
            selected: self.selected@,
        }
    }
}

impl Selection {
    /// While no root is chosen no extensions are known.
    pub proof fn lemma_no_root_no_extensions(&self)
        ensures
            self@.root is None ==> self@.extensions.len() == 0,
    {
    }

    /// The state before any folder is chosen.
    pub fn new() -> (r: Self)
        ensures
            r@.root is None,
            r@.extensions.len() == 0,
            r@.selected.len() == 0,
    {
        Selection { scanned: None, selected: ExtensionSet::new() }
    }

    /// The chosen root directory, if there is one.
    pub fn root(&self) -> (r: Option<&PathBuf>)
        ensures
            match r {
                Some(path) => self@.root == Some(*path),
                None => self@.root is None,
            },
    {
        match &self.scanned {
            Some(s) => Some(&s.root),
            None => None,
        }
    }

    /// The extensions found by the last scan, if a root is chosen.
    pub fn extensions(&self) -> (r: Option<&ExtensionSet>)
        ensures
            match r {
                Some(found) => self@.root is Some && found@ == self@.extensions,
                None => self@.root is None && self@.extensions.len() == 0,
            },
            ascending(self@.extensions),
    {
        match &self.scanned {
            Some(s) => {
                proof {
                    use_type_invariant(&s.extensions);
                }
                Some(&s.extensions)
            },
            None => None,
        }
    }

    /// The extensions that the user has selected.
    pub fn selected(&self) -> (r: &ExtensionSet)
        ensures
            r@ == self@.selected,
            ascending(self@.selected),
    {
        proof {
            use_type_invariant(&self.selected);
        }
        &self.selected
    }

    /// Whether `ext` is selected.
    pub fn is_selected(&self, ext: &str) -> (r: bool)
        ensures
            r == self@.selected.contains(ext@),
    {
        self.selected.contains(ext)
    }

    /// Takes `path` as the new root, with what a walk of it reported.
    ///
    /// Where the scan of the walk succeeds, the root and its extensions replace
    /// the old ones. Where the root could not be opened, the state goes back to
    /// `Empty` and the error is returned. The selection stays as it is either
    /// way.
    pub fn set_root(&mut self, path: PathBuf, walk: &Vec<WalkItem>) -> (r: Result<(), ScanError>)
        ensures
            final(self)@.selected == old(self)@.selected,
            ascending(final(self)@.extensions),
            match r {
                Ok(_) => {
                    &&& !root_unreadable(walk@)
                    &&& final(self)@.root == Some(path)
                    &&& final(self)@.extensions.to_set() == extensions_found(walk@)
                },
                Err(e) => {
                    &&& root_unreadable(walk@)
                    &&& e is RootUnreadable
                    &&& final(self)@.root is None
                    &&& final(self)@.extensions.len() == 0
                },
            },
    {
        match scan(walk) {
            Ok(found) => {
                self.scanned = Some(Scanned { root: path, extensions: found });
                Ok(())
            },
            Err(e) => {
                self.scanned = None;
                Err(e)
            },
        }
    }

    /// Selects `ext` where it is not selected, and takes it from the selection
    /// where it is. The extension need not be one of those found.
    pub fn toggle(&mut self, ext: String)
        ensures
            final(self)@.selected.to_set() == toggled(old(self)@.selected.to_set(), ext@),
            ascending(final(self)@.selected),
            final(self)@.root == old(self)@.root,
            final(self)@.extensions == old(self)@.extensions,
    {
        self.selected.toggle(ext);
    }

    /// Empties the selection.
    pub fn clear_selection(&mut self)
        ensures
            final(self)@.selected.len() == 0,
            final(self)@.root == old(self)@.root,
            final(self)@.extensions == old(self)@.extensions,
    {
        self.selected.clear();
    }

    /// The job that a request to generate makes of this state: the root, the
    /// selection as it stands, and where to save. There is none while no root
    /// is chosen. The state itself is left as it is.
    pub fn report_job(&self, destination: PathBuf) -> (r: Option<ReportJob>)
        ensures
            match r {
                Some(job) => self@.root is Some && job@ == (ReportJobView {
                    root: self@.root->0,
                    extensions: self@.selected,
                    destination,
                }),
                None => self@.root is None,
            },
    {
        match &self.scanned {
            Some(s) => Some(ReportJob::new(s.root.clone(), self.selected.clone(), destination)),
            None => None,
        }
    }
}

impl Default for Selection {
    /// The state before any folder is chosen.
    fn default() -> (r: Self)
        ensures
            r@.root is None,
            r@.extensions.len() == 0,
            r@.selected.len() == 0,
    {
        Selection::new()
    }
}

} // verus!
