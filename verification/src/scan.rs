//! Extension discovery: from what a walk of a directory tree reported to the
//! set of extensions of the regular files in it.

use crate::extension::{extension_of, file_extension};
use crate::extension_set::{lemma_ascending_determined, ExtensionSet};
use crate::order::ascending;
use vstd::prelude::*;

verus! {

/// What the metadata of an entry says it is.
#[derive(Debug, Clone, Copy, PartialEq, Eq)]
pub enum EntryKind {
    /// A regular file.
    RegularFile,
    /// A directory, a symbolic link or anything else that is no regular file.
    Other,
    /// The metadata could not be read.
    Unknown,
}

/// One step of a walk through a directory tree.
#[derive(Debug, PartialEq, Eq)]
pub enum WalkItem {
    /// The walk could not read what it met `depth` levels below the root.
    /// Depth 0 is the root itself.
    Failed { depth: usize },
    /// The walk reached an entry with this file name.
    Entry { name: String, kind: EntryKind },
}

/// Why a scan found less than the tree holds.
#[derive(Debug, Clone, Copy, PartialEq, Eq)]
pub enum ScanError {
    /// The root directory itself could not be opened. The scan has no result.
    RootUnreadable,
    /// Something below the root could not be read. The scan passes it over.
    EntryUnreadable,
}

impl WalkItem {
    /// The error that this step stands for, if any.
    pub open spec fn spec_failure(self) -> Option<ScanError> {
        match self {
            WalkItem::Failed { depth } => if depth == 0 {
                Some(ScanError::RootUnreadable)
            } else {
                Some(ScanError::EntryUnreadable)
            },
            WalkItem::Entry { name, kind } => if kind is Unknown {
                Some(ScanError::EntryUnreadable)
            } else {
                None
            },
        }
    }

    /// The extension that this step adds to a scan: that of its file name,
    /// where it is a regular file.
    pub open spec fn spec_extension(self) -> Option<Seq<char>> {
        match self {
            WalkItem::Failed { depth } => None,
            WalkItem::Entry { name, kind } => if kind is RegularFile {
                extension_of(name@)
            } else {
                None
            },
        }
    }

    /// The error that this step stands for, if any.
    pub fn failure(&self) -> (r: Option<ScanError>)
        ensures
            r == self.spec_failure(),
    {
        match self {
            WalkItem::Failed { depth } => if *depth == 0 {
                Some(ScanError::RootUnreadable)
            } else {
                Some(ScanError::EntryUnreadable)
            },
            WalkItem::Entry { name: _, kind } => match kind {
                EntryKind::Unknown => Some(ScanError::EntryUnreadable),
                _ => None,
            },
        }
    }

    /// The extension that this step adds to a scan.
    pub fn extension(&self) -> (r: Option<String>)
        ensures
            match r {
                Some(e) => self.spec_extension() == Some(e@),
                None => self.spec_extension() is None,
            },
    {
        match self {
            WalkItem::Failed { depth: _ } => None,
            WalkItem::Entry { name, kind } => match kind {
                EntryKind::RegularFile => file_extension(name.as_str()),
                _ => None,
            },
        }
    }
}

/// The walk failed at the root.
pub open spec fn root_unreadable(items: Seq<WalkItem>) -> bool {
    exists|i: int| 0 <= i < items.len() && #[trigger] items[i].spec_failure() == Some(
        ScanError::RootUnreadable,
    )
}

/// The extensions of the regular files that the walk reached.
pub open spec fn extensions_found(items: Seq<WalkItem>) -> Set<Seq<char>> {
    Set::new(
        |e: Seq<char>|
            exists|i: int| 0 <= i < items.len() && #[trigger] items[i].spec_extension() == Some(e),
    )
}

/// One more step of the walk adds its extension, if it has one, to those found.
proof fn lemma_found_step(items: Seq<WalkItem>, n: int)
    requires
        0 <= n < items.len(),
    ensures
        extensions_found(items.take(n + 1)) == match items[n].spec_extension() {
            Some(e) => extensions_found(items.take(n)).insert(e),
            None => extensions_found(items.take(n)),
        },
        root_unreadable(items.take(n + 1)) == (root_unreadable(items.take(n))
            || items[n].spec_failure() == Some(ScanError::RootUnreadable)),
{
    let before = items.take(n);
    let after = items.take(n + 1);
    let expected = match items[n].spec_extension() {
        Some(e) => extensions_found(before).insert(e),
        None => extensions_found(before),
    };
    assert forall|e: Seq<char>| extensions_found(after).contains(e) <==> expected.contains(e) by {
        if extensions_found(after).contains(e) {
            let i = choose|i: int|
                0 <= i < after.len() && #[trigger] after[i].spec_extension() == Some(e);
            if i < n {
                assert(before[i].spec_extension() == Some(e));
            }
        }
        if extensions_found(before).contains(e) {
            let i = choose|i: int|
                0 <= i < before.len() && #[trigger] before[i].spec_extension() == Some(e);
            assert(after[i].spec_extension() == Some(e));
        }
        if items[n].spec_extension() == Some(e) {
            assert(after[n].spec_extension() == Some(e));
        }
    }
    assert(extensions_found(after) =~= expected);
    if root_unreadable(after) {
        let i = choose|i: int|
            0 <= i < after.len() && #[trigger] after[i].spec_failure() == Some(
                ScanError::RootUnreadable,
            );
        if i < n {
            assert(before[i].spec_failure() == Some(ScanError::RootUnreadable));
        }
    }
    if root_unreadable(before) {
        let i = choose|i: int|
            0 <= i < before.len() && #[trigger] before[i].spec_failure() == Some(
                ScanError::RootUnreadable,
            );
        assert(after[i].spec_failure() == Some(ScanError::RootUnreadable));
    }
    if items[n].spec_failure() == Some(ScanError::RootUnreadable) {
        assert(after[n].spec_failure() == Some(ScanError::RootUnreadable));
    }
}

/// A walk that reached no regular file with an extension finds nothing: so
/// does the walk of an empty directory, which reaches the root alone. Any list
/// of what such a walk found is empty.
pub proof fn lemma_nothing_found(items: Seq<WalkItem>, found: Seq<Seq<char>>)
    requires
        forall|i: int| 0 <= i < items.len() ==> (#[trigger] items[i].spec_extension()) is None,
        found.to_set() == extensions_found(items),
    ensures
        found.len() == 0,
{
    if found.len() > 0 {
        assert(found.contains(found[0]));
        assert(extensions_found(items).contains(found[0]));
    }
}

/// Two walks that reached files with the same extensions give the same list,
/// however many files each reached and in whatever order.
pub proof fn lemma_same_extensions_same_list(
    first: Seq<WalkItem>,
    second: Seq<WalkItem>,
    found_first: Seq<Seq<char>>,
    found_second: Seq<Seq<char>>,
)
    requires
        extensions_found(first) == extensions_found(second),
        ascending(found_first),
        ascending(found_second),
        found_first.to_set() == extensions_found(first),
        found_second.to_set() == extensions_found(second),
    ensures
        found_first == found_second,
{
    lemma_ascending_determined(found_first, found_second);
}

/// Collects the extensions of the regular files that a walk reached.
///
/// The result holds each extension once, however many files share it, in
/// ascending order. Steps that failed below the root, entries whose metadata
/// could not be read, entries that are no regular files and files without an
/// extension add nothing. A failure at the root is the one error: the scan then
/// has no result, whatever else the walk reported.
pub fn scan(items: &Vec<WalkItem>) -> (r: Result<ExtensionSet, ScanError>)
    ensures
        match r {
            Ok(found) => {
                &&& !root_unreadable(items@)
                &&& found.set() == extensions_found(items@)
                &&& ascending(found@)
            },
            Err(e) => e is RootUnreadable && root_unreadable(items@),
        },
{
    let mut found = ExtensionSet::new();
    let mut n: usize = 0;
    assert(extensions_found(items@.take(0)) =~= found.set());
    while n < items.len()
        invariant
            0 <= n <= items.len(),
            !root_unreadable(items@.take(n as int)),
            found.set() == extensions_found(items@.take(n as int)),
            ascending(found@),
        decreases items.len() - n,
    {
        proof {
            lemma_found_step(items@, n as int);
        }
        if let Some(ScanError::RootUnreadable) = items[n].failure() {
            proof {
                let after = items@.take(n + 1);
                assert(after[n as int].spec_failure() == Some(ScanError::RootUnreadable));
                assert(items@[n as int].spec_failure() == Some(ScanError::RootUnreadable));
            }
            return Err(ScanError::RootUnreadable);
        }
        if let Some(ext) = items[n].extension() {
            found.insert(ext);
        }
        n += 1;
    }
    assert(items@.take(n as int) =~= items@);
    Ok(found)
}

} // verus!
