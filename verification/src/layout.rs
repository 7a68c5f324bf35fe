//! The three sibling directories under a root that a source swap touches, and
//! an in-memory picture of what they hold.

use vstd::prelude::*;

verus! {

/// One of the three sibling directories under the root.
#[derive(Clone, Copy, Debug, PartialEq, Eq, Hash)]
pub enum Slot {
    /// The implementation that is built and measured.
    Active,
    /// The replacement that waits to be measured.
    Candidate,
    /// Where the active implementation is parked while the candidate takes its place.
    Temp,
}

impl Slot {
    /// Name of the directory below the root.
    pub open spec fn spec_dir_name(self) -> Seq<char> {
        match self {
            Slot::Active => "src"@,
            Slot::Candidate => "src-new"@,
            Slot::Temp => "src-original-temp"@,
        }
    }

    /// Name of the directory below the root.
    pub fn dir_name(self) -> (name: &'static str)
        ensures
            name@ == self.spec_dir_name(),
    {
        match self {
            Slot::Active => "src",
            Slot::Candidate => "src-new",
            Slot::Temp => "src-original-temp",
        }
    }
}

/// A question or an order that a guard hands to whoever holds the file system.
/// Each is answered with one `bool`.
#[derive(Clone, Copy, Debug, PartialEq, Eq, Hash)]
pub enum Request {
    /// Does the directory exist? The answer is `true` when it does.
    Probe(Slot),
    /// Rename `from` to `to`. The answer is `true` when the rename was done; a
    /// rename that fails leaves both directories as they were.
    Rename { from: Slot, to: Slot },
}

/// What the three directories hold. A tree is named by a number that stands
/// for its content; `None` means that the directory does not exist.
///
/// A rename in this picture is done exactly when the source exists and the
/// target does not.
#[derive(Clone, Copy, Debug, PartialEq, Eq, Hash)]
pub struct Layout {
    pub active: Option<u64>,
    pub candidate: Option<u64>,
    pub temp: Option<u64>,
}

impl Layout {
    /// What the directory holds.
    pub open spec fn at(self, slot: Slot) -> Option<u64> {
        match slot {
            Slot::Active => self.active,
            Slot::Candidate => self.candidate,
            Slot::Temp => self.temp,
        }
    }

    /// The layout in which `slot` holds `tree` and the other two are untouched.
    pub open spec fn with(self, slot: Slot, tree: Option<u64>) -> Layout {
        match slot {
            Slot::Active => Layout { active: tree, ..self },
            Slot::Candidate => Layout { candidate: tree, ..self },
            Slot::Temp => Layout { temp: tree, ..self },
        }
    }

    /// Whether a rename of `from` to `to` is done here.
    pub open spec fn can_rename(self, from: Slot, to: Slot) -> bool {
        self.at(from) is Some && self.at(to) is None
    }

    /// The layout after a rename that was done.
    pub open spec fn renamed(self, from: Slot, to: Slot) -> Layout {
        self.with(to, self.at(from)).with(from, None)
    }

    /// The answer to a request.
    pub open spec fn answer(self, request: Request) -> bool {
        match request {
            Request::Probe(slot) => self.at(slot) is Some,
            Request::Rename { from, to } => self.can_rename(from, to),
        }
    }

    /// The layout after a request was served.
    pub open spec fn after(self, request: Request) -> Layout {
        match request {
            Request::Probe(_) => self,
            Request::Rename { from, to } => if self.can_rename(from, to) {
                self.renamed(from, to)
            } else {
                self
            },
        }
    }

    pub fn new(active: Option<u64>, candidate: Option<u64>, temp: Option<u64>) -> (layout: Layout)
        ensures
            layout == (Layout { active, candidate, temp }),
    {
        Layout { active, candidate, temp }
    }

    /// What the directory holds.
    pub fn get(&self, slot: Slot) -> (tree: Option<u64>)
        ensures
            tree == self.at(slot),
    {
        match slot {
            Slot::Active => self.active,
            Slot::Candidate => self.candidate,
            Slot::Temp => self.temp,
        }
    }

    /// Puts `tree` at `slot`.
    pub fn set(&mut self, slot: Slot, tree: Option<u64>)
        ensures
            *final(self) == old(self).with(slot, tree),
    {
        match slot {
            Slot::Active => { self.active = tree; },
            Slot::Candidate => { self.candidate = tree; },
            Slot::Temp => { self.temp = tree; },
        }
    }

    /// Whether the directory exists.
    pub fn has(&self, slot: Slot) -> (found: bool)
        ensures
            found == (self.at(slot) is Some),
    {
        self.get(slot).is_some()
    }

    /// Renames `from` to `to` if the source exists and the target does not, and
    /// says whether it did. A rename that is not done changes nothing.
    pub fn rename(&mut self, from: Slot, to: Slot) -> (done: bool)
        ensures
            done == old(self).can_rename(from, to),
            done ==> *final(self) == old(self).renamed(from, to),
            !done ==> *final(self) == *old(self),
    {
        let moved = self.get(from);
        if moved.is_some() && self.get(to).is_none() {
            self.set(to, moved);
            self.set(from, None);
            true
        } else {
            false
        }
    }

    /// Serves one request and gives its answer.
    pub fn perform(&mut self, request: Request) -> (answer: bool)
        ensures
            answer == old(self).answer(request),
            *final(self) == old(self).after(request),
    {
        match request {
            Request::Probe(slot) => self.has(slot),
            Request::Rename { from, to } => self.rename(from, to),
        }
    }
}

} // verus!
