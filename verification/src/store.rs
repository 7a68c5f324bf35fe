//! The statistics of one measurement: for each problem, by its name, the
//! points of its dimensions in the order in which they were measured.

use vstd::prelude::*;

verus! {

/// The points of one problem.
pub struct Series<P> {
    pub name: String,
    /// One point for each dimension, in the order of measurement.
    pub points: Vec<P>,
}

impl<P> Series<P> {
    /// The name and the points.
    pub open spec fn entry(self) -> (Seq<char>, Seq<P>) {
        (self.name@, self.points@)
    }
}

/// Whether one of the entries has this name.
pub open spec fn has_name<P>(entries: Seq<(Seq<char>, Seq<P>)>, name: Seq<char>) -> bool {
    exists|i: int| 0 <= i < entries.len() && (#[trigger] entries[i]).0 == name
}

/// The place of an entry with this name, where there is one.
pub open spec fn place_of<P>(entries: Seq<(Seq<char>, Seq<P>)>, name: Seq<char>) -> int {
    choose|i: int| 0 <= i < entries.len() && (#[trigger] entries[i]).0 == name
}

/// Whether no two entries have the same name.
pub open spec fn distinct_names<P>(entries: Seq<(Seq<char>, Seq<P>)>) -> bool {
    forall|i: int, j: int|
        0 <= i < j < entries.len() ==> (#[trigger] entries[i]).0 != (#[trigger] entries[j]).0
}

/// The points that are kept under this name.
pub open spec fn lookup<P>(entries: Seq<(Seq<char>, Seq<P>)>, name: Seq<char>) -> Option<Seq<P>> {
    if has_name(entries, name) {
        Some(entries[place_of(entries, name)].1)
    } else {
        None
    }
}

/// The entries after `points` were put under `name`: in the place of what was
/// kept under that name, or else behind every other entry.
pub open spec fn inserted<P>(entries: Seq<(Seq<char>, Seq<P>)>, name: Seq<char>, points: Seq<P>) -> Seq<
    (Seq<char>, Seq<P>),
> {
    if has_name(entries, name) {
        entries.update(place_of(entries, name), (name, points))
    } else {
        entries.push((name, points))
    }
}

/// What is kept after each of the entries was put in, one after the other,
/// starting with nothing.
pub open spec fn rebuilt<P>(entries: Seq<(Seq<char>, Seq<P>)>) -> Seq<(Seq<char>, Seq<P>)>
    decreases entries.len(),
{
    if entries.len() == 0 {
        Seq::empty()
    } else {
        inserted(rebuilt(entries.drop_last()), entries.last().0, entries.last().1)
    }
}

/// In entries with distinct names, an entry is found by its name.
pub proof fn lemma_place_of<P>(entries: Seq<(Seq<char>, Seq<P>)>, i: int)
    requires
        distinct_names(entries),
        0 <= i < entries.len(),
    ensures
        has_name(entries, entries[i].0),
        place_of(entries, entries[i].0) == i,
        lookup(entries, entries[i].0) == Some(entries[i].1),
{
    let name = entries[i].0;
    let found = place_of(entries, name);
    assert(0 <= found < entries.len() && entries[found].0 == name);
    if found < i {
        assert(entries[found].0 != entries[i].0);
    } else if i < found {
        assert(entries[i].0 != entries[found].0);
    }
}

/// Putting points under a name keeps the names distinct, and the points are
/// then found under that name; what is kept under other names stays.
pub proof fn lemma_inserted<P>(
    entries: Seq<(Seq<char>, Seq<P>)>,
    name: Seq<char>,
    points: Seq<P>,
)
    requires
        distinct_names(entries),
    ensures
        distinct_names(inserted(entries, name, points)),
        lookup(inserted(entries, name, points), name) == Some(points),
        forall|other: Seq<char>|
            other != name ==> lookup(inserted(entries, name, points), other) == lookup(
                entries,
                other,
            ),
{
    let after = inserted(entries, name, points);
    let at = if has_name(entries, name) {
        place_of(entries, name)
    } else {
        entries.len() as int
    };
    assert(0 <= at < after.len() && after[at] == (name, points));
    assert forall|i: int| 0 <= i < after.len() && i != at implies #[trigger] after[i]
        == entries[i] && after[i].0 != name by {
        if has_name(entries, name) {
            if i < at {
                assert(entries[i].0 != entries[at].0);
            } else {
                assert(entries[at].0 != entries[i].0);
            }
        }
    }
    assert forall|i: int, j: int| 0 <= i < j < after.len() implies (#[trigger] after[i]).0 != (
    #[trigger] after[j]).0 by {
        if i != at && j != at {
            assert(entries[i].0 != entries[j].0);
        }
    }
    lemma_place_of(after, at);
    assert forall|other: Seq<char>| other != name implies lookup(after, other) == lookup(
        entries,
        other,
    ) by {
        if has_name(entries, other) {
            let i = place_of(entries, other);
            assert(after[i] == entries[i]);
            lemma_place_of(entries, i);
            lemma_place_of(after, i);
        } else if has_name(after, other) {
            let i = place_of(after, other);
            assert(after[i] == entries[i]);
            assert(false);
        }
    }
}

/// Entries with distinct names, put one after the other into an empty store,
/// give a store that keeps exactly these entries, in their order: nothing is
/// lost or reordered when the entries of a store are written out and read in
/// again.
pub proof fn rebuilding_keeps_every_entry<P>(entries: Seq<(Seq<char>, Seq<P>)>)
    requires
        distinct_names(entries),
    ensures
        rebuilt(entries) == entries,
    decreases entries.len(),
{
    if entries.len() > 0 {
        let rest = entries.drop_last();
        assert forall|i: int, j: int| 0 <= i < j < rest.len() implies (#[trigger] rest[i]).0 != (
        #[trigger] rest[j]).0 by {
            assert(entries[i].0 != entries[j].0);
        }
        rebuilding_keeps_every_entry(rest);
        let name = entries.last().0;
        if has_name(rest, name) {
            let i = place_of(rest, name);
            assert(entries[i].0 != entries[entries.len() - 1].0);
        }
        assert(rest.push(entries.last()) =~= entries);
    } else {
        assert(entries =~= Seq::empty());
    }
}

/// The statistics of one measurement. No name occurs twice, and the order of
/// the problems is that in which they were first put in.
pub struct RunStatistics<P> {
    entries: Vec<Series<P>>,
}

impl<P> View for RunStatistics<P> {
    type V = Seq<(Seq<char>, Seq<P>)>;

    closed spec fn view(&self) -> Seq<(Seq<char>, Seq<P>)> {
        self.entries@.map_values(|series: Series<P>| series.entry())
    }
}

impl<P> RunStatistics<P> {
    /// No name occurs twice.
    pub open spec fn wf(&self) -> bool {
        distinct_names(self@)
    }

    /// Statistics of no problem.
    pub fn new() -> (stats: Self)
        ensures
            stats.wf(),
            stats@ == Seq::<(Seq<char>, Seq<P>)>::empty(),
    {
        let stats = RunStatistics { entries: Vec::new() };
        assert(stats@ =~= Seq::empty());
        stats
    }

    /// Number of problems.
    pub fn len(&self) -> (len: usize)
        ensures
            len == self@.len(),
    {
        self.entries.len()
    }

    /// The problem in place `i`.
    pub fn series(&self, i: usize) -> (series: &Series<P>)
        requires
            i < self@.len(),
        ensures
            series.entry() == self@[i as int],
    {
        &self.entries[i]
    }

    /// The place of the problem with this name.
    pub fn find(&self, name: &String) -> (place: Option<usize>)
        ensures
            match place {
                Some(i) => i < self@.len() && self@[i as int].0 == name@ && forall|k: int|
                    0 <= k < i ==> (#[trigger] self@[k]).0 != name@,
                None => !has_name(self@, name@),
            },
            self.wf() ==> place == (if has_name(self@, name@) {
                Some(place_of(self@, name@) as usize)
            } else {
                None
            }),
    {
        let mut i: usize = 0;
        while i < self.entries.len()
            invariant
                i <= self.entries@.len(),
                forall|k: int| 0 <= k < i ==> (#[trigger] self@[k]).0 != name@,
            decreases self.entries@.len() - i,
        {
            if self.entries[i].name == *name {
                proof {
                    if self.wf() {
                        lemma_place_of(self@, i as int);
                    }
                }
                return Some(i);
            }
            i += 1;
        }
        None
    }

    /// The points of the problem with this name.
    pub fn get(&self, name: &String) -> (points: Option<&Vec<P>>)
        requires
            self.wf(),
        ensures
            match points {
                Some(points) => lookup(self@, name@) == Some(points@),
                None => lookup(self@, name@) is None,
            },
    {
        match self.find(name) {
            Some(i) => Some(&self.entries[i].points),
            None => None,
        }
    }

    /// Puts `points` under `name`: in the place of what was kept under that
    /// name, or else behind every other problem.
    pub fn insert(&mut self, name: String, points: Vec<P>)
        requires
            old(self).wf(),
        ensures
            final(self).wf(),
            final(self)@ == inserted(old(self)@, name@, points@),
            lookup(final(self)@, name@) == Some(points@),
    {
        proof {
            lemma_inserted(self@, name@, points@);
        }
        let ghost before = self@;
        let ghost entry = (name@, points@);
        match self.find(&name) {
            Some(i) => {
                self.entries[i] = Series { name, points };
                assert(self@ =~= before.update(i as int, entry));
            },
            None => {
                self.entries.push(Series { name, points });
                assert(self@ =~= before.push(entry));
            },
        }
    }
}

} // verus!
