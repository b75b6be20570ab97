//! The entries of a survey: as a walk found them, and as the report shows
//! them.

use vstd::prelude::*;
use crate::age::{age_model, age_of, Age, Stamp};

verus! {

/// One entry as a walk of the tree found it.
#[derive(Debug)]
pub struct FoundEntry {
    /// The entry's own name, without the path that leads to it.
    pub name: String,
    /// How far below the root the entry lies; the root itself is at depth 0.
    pub depth: usize,
    /// Whether the entry is a directory.
    pub is_dir: bool,
    /// When the entry was created.
    pub created: Stamp,
    /// When the entry was last modified.
    pub modified: Stamp,
    /// When the entry was last accessed.
    pub accessed: Stamp,
}

/// What a found entry holds, as plain values.
pub struct FoundView {
    pub name: Seq<char>,
    pub depth: nat,
    pub is_dir: bool,
    pub created: Stamp,
    pub modified: Stamp,
    pub accessed: Stamp,
}

impl View for FoundEntry {
    type V = FoundView;

    open spec fn view(&self) -> FoundView {
        FoundView {
            name: self.name@,
            depth: self.depth as nat,
            is_dir: self.is_dir,
            created: self.created,
            modified: self.modified,
            accessed: self.accessed,
        }
    }
}

/// One entry as the report shows it.
#[derive(Debug)]
pub struct VisitedEntry {
    /// The entry's own name.
    pub display_name: String,
    /// How far below the root the entry lies.
    pub depth: usize,
    /// Whether the entry is a directory.
    pub is_dir: bool,
    /// Days since the entry was created.
    pub created: Age,
    /// Days since the entry was last modified.
    pub modified: Age,
    /// Days since the entry was last accessed.
    pub accessed: Age,
}

/// What a visited entry holds, as plain values.
pub struct VisitedView {
    pub display_name: Seq<char>,
    pub depth: nat,
    pub is_dir: bool,
    pub created: Age,
    pub modified: Age,
    pub accessed: Age,
}

impl View for VisitedEntry {
    type V = VisitedView;

    open spec fn view(&self) -> VisitedView {
        VisitedView {
            display_name: self.display_name@,
            depth: self.depth as nat,
            is_dir: self.is_dir,
            created: self.created,
            modified: self.modified,
            accessed: self.accessed,
        }
    }
}

/// The entries of a listing, as plain values.
pub open spec fn found_views(listing: Seq<FoundEntry>) -> Seq<FoundView> {
    listing.map_values(|entry: FoundEntry| entry@)
}

/// Visited entries, as plain values.
pub open spec fn visited_views(entries: Seq<VisitedEntry>) -> Seq<VisitedView> {
    entries.map_values(|entry: VisitedEntry| entry@)
}

/// What the report shows of a found entry: the same name, depth and kind, and
/// for each time stamp the age that it stands for.
pub open spec fn shown(found: FoundView) -> VisitedView {
    VisitedView {
        display_name: found.name,
        depth: found.depth,
        is_dir: found.is_dir,
        created: age_model(found.created),
        modified: age_model(found.modified),
        accessed: age_model(found.accessed),
    }
}

impl FoundEntry {
    /// An entry none of whose time stamps could be read.
    pub fn unreadable(name: String, depth: usize, is_dir: bool) -> (entry: FoundEntry)
        ensures
            entry@ == (FoundView {
                name: name@,
                depth: depth as nat,
                is_dir,
                created: Stamp::Unavailable,
                modified: Stamp::Unavailable,
                accessed: Stamp::Unavailable,
            }),
    {
        FoundEntry {
            name,
            depth,
            is_dir,
            created: Stamp::Unavailable,
            modified: Stamp::Unavailable,
            accessed: Stamp::Unavailable,
        }
    }

    /// What the report shows of this entry.
    pub fn visit(&self) -> (entry: VisitedEntry)
        ensures
            entry@ == shown(self@),
    {
        VisitedEntry {
            display_name: self.name.clone(),
            depth: self.depth,
            is_dir: self.is_dir,
            created: age_of(self.created),
            modified: age_of(self.modified),
            accessed: age_of(self.accessed),
        }
    }
}

} // verus!
