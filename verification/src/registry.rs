//! The job registry: the shared mapping from job identifier to running
//! export. Insertion happens once at spawn, removal at reap is defensive
//! against an identifier that is already gone, and cancellation of an
//! unknown identifier is a benign no-op. The process handles themselves
//! live with the caller, keyed by the same identifiers.

use vstd::prelude::*;
use crate::text::str_eq;

verus! {

/// What the registry records about a running export.
pub struct ExportJob {
    pub command: String,
    pub output_path: String,
}

/// The spec-level image of a registered job.
pub ghost struct JobView {
    pub command: Seq<char>,
    pub output_path: Seq<char>,
}

impl View for ExportJob {
    type V = JobView;

    open spec fn view(&self) -> JobView {
        JobView { command: self.command@, output_path: self.output_path@ }
    }
}

/// The registry, keyed by job identifier. Its view is the map from
/// identifier to job; the vector behind it keeps one entry per identifier.
pub struct JobRegistry {
    entries: Vec<(String, ExportJob)>,
}

spec fn map_of(entries: Seq<(String, ExportJob)>) -> Map<Seq<char>, JobView>
    decreases entries.len(),
{
    if entries.len() == 0 {
        Map::empty()
    } else {
        map_of(entries.drop_last()).insert(entries.last().0@, entries.last().1@)
    }
}

spec fn keys_distinct(entries: Seq<(String, ExportJob)>) -> bool {
    forall|i: int, j: int| 0 <= i < j < entries.len() ==> entries[i].0@ != entries[j].0@
}

impl View for JobRegistry {
    type V = Map<Seq<char>, JobView>;

    closed spec fn view(&self) -> Map<Seq<char>, JobView> {
        map_of(self.entries@)
    }
}

proof fn lemma_map_of_no_key(entries: Seq<(String, ExportJob)>, k: Seq<char>)
    requires
        forall|j: int| 0 <= j < entries.len() ==> entries[j].0@ != k,
    ensures
        !map_of(entries).contains_key(k),
    decreases entries.len(),
{
    if entries.len() > 0 {
        let d = entries.drop_last();
        assert forall|j: int| 0 <= j < d.len() implies d[j].0@ != k by {
            assert(d[j] == entries[j]);
        }
        lemma_map_of_no_key(d, k);
    }
}

proof fn lemma_map_of_has_key(entries: Seq<(String, ExportJob)>, i: int)
    requires
        0 <= i < entries.len(),
    ensures
        map_of(entries).contains_key(entries[i].0@),
    decreases entries.len(),
{
    if i < entries.len() - 1 {
        let d = entries.drop_last();
        assert(d[i] == entries[i]);
        lemma_map_of_has_key(d, i);
    }
}

proof fn lemma_map_of_index(entries: Seq<(String, ExportJob)>, i: int)
    requires
        keys_distinct(entries),
        0 <= i < entries.len(),
    ensures
        map_of(entries).contains_key(entries[i].0@),
        map_of(entries)[entries[i].0@] == entries[i].1@,
    decreases entries.len(),
{
    lemma_map_of_has_key(entries, i);
    if i < entries.len() - 1 {
        let d = entries.drop_last();
        assert forall|a: int, b: int| 0 <= a < b < d.len() implies d[a].0@ != d[b].0@ by {
            assert(d[a] == entries[a]);
            assert(d[b] == entries[b]);
        }
        assert(d[i] == entries[i]);
        lemma_map_of_index(d, i);
        assert(entries.last().0@ != entries[i].0@);
    }
}

proof fn lemma_map_of_remove(entries: Seq<(String, ExportJob)>, i: int)
    requires
        keys_distinct(entries),
        0 <= i < entries.len(),
    ensures
        keys_distinct(entries.remove(i)),
        map_of(entries.remove(i)) == map_of(entries).remove(entries[i].0@),
    decreases entries.len(),
{
    let k = entries[i].0@;
    let rm = entries.remove(i);
    assert forall|a: int, b: int| 0 <= a < b < rm.len() implies rm[a].0@ != rm[b].0@ by {
        let oa = if a < i {
            a
        } else {
            a + 1
        };
        let ob = if b < i {
            b
        } else {
            b + 1
        };
        assert(rm[a] == entries[oa]);
        assert(rm[b] == entries[ob]);
    }
    if i == entries.len() - 1 {
        assert(rm =~= entries.drop_last());
        assert forall|j: int| 0 <= j < entries.drop_last().len() implies entries.drop_last()[j].0@
            != k by {
            assert(entries.drop_last()[j] == entries[j]);
        }
        lemma_map_of_no_key(entries.drop_last(), k);
        assert(map_of(entries).remove(k) =~= map_of(entries.drop_last()));
    } else {
        let d = entries.drop_last();
        assert forall|a: int, b: int| 0 <= a < b < d.len() implies d[a].0@ != d[b].0@ by {
            assert(d[a] == entries[a]);
            assert(d[b] == entries[b]);
        }
        assert(d[i] == entries[i]);
        lemma_map_of_remove(d, i);
        assert(rm.drop_last() =~= d.remove(i));
        assert(rm.last() == entries.last());
        assert(entries.last().0@ != k);
        assert(map_of(d).remove(k).insert(entries.last().0@, entries.last().1@) =~= map_of(
            d,
        ).insert(entries.last().0@, entries.last().1@).remove(k));
    }
}

impl JobRegistry {
    /// One entry per identifier.
    pub closed spec fn wf(&self) -> bool {
        keys_distinct(self.entries@)
    }

    /// An empty registry: no job is tracked.
    pub fn new() -> (r: Self)
        ensures
            r@ == Map::<Seq<char>, JobView>::empty(),
            r.wf(),
    {
        JobRegistry { entries: Vec::new() }
    }

    /// How many jobs are tracked.
    pub fn len(&self) -> (r: usize)
        requires
            self.wf(),
        ensures
            r == self@.dom().len(),
    {
        proof {
            Self::lemma_dom_len(self.entries@);
        }
        self.entries.len()
    }

    proof fn lemma_dom_len(entries: Seq<(String, ExportJob)>)
        requires
            keys_distinct(entries),
        ensures
            map_of(entries).dom().finite(),
            map_of(entries).dom().len() == entries.len(),
        decreases entries.len(),
    {
        if entries.len() == 0 {
            assert(map_of(entries).dom() =~= Set::<Seq<char>>::empty());
        } else {
            let d = entries.drop_last();
            assert forall|a: int, b: int| 0 <= a < b < d.len() implies d[a].0@ != d[b].0@ by {
                assert(d[a] == entries[a]);
                assert(d[b] == entries[b]);
            }
            Self::lemma_dom_len(d);
            assert forall|j: int| 0 <= j < d.len() implies d[j].0@ != entries.last().0@ by {
                assert(d[j] == entries[j]);
            }
            lemma_map_of_no_key(d, entries.last().0@);
            assert(map_of(entries).dom() =~= map_of(d).dom().insert(entries.last().0@));
            vstd::set::axiom_set_insert_len(map_of(d).dom(), entries.last().0@);
        }
    }

    /// The index of an identifier's entry, when it has one.
    fn find(&self, id: &str) -> (r: Option<usize>)
        ensures
            match r {
                Some(i) => i < self.entries@.len() && self.entries@[i as int].0@ == id@,
                None => !self@.contains_key(id@),
            },
    {
        let mut i: usize = 0;
        while i < self.entries.len()
            invariant
                i <= self.entries@.len(),
                forall|j: int| 0 <= j < i ==> self.entries@[j].0@ != id@,
            decreases self.entries@.len() - i,
        {
            if str_eq(self.entries[i].0.as_str(), id) {
                return Some(i);
            }
            i += 1;
        }
        proof {
            lemma_map_of_no_key(self.entries@, id@);
        }
        None
    }

    /// Whether an identifier is registered.
    pub fn contains(&self, id: &str) -> (r: bool)
        ensures
            r == self@.contains_key(id@),
    {
        match self.find(id) {
            Some(i) => {
                proof {
                    lemma_map_of_has_key(self.entries@, i as int);
                }
                true
            },
            None => false,
        }
    }

    /// Registers a job under a fresh identifier; an identifier already in
    /// use is refused and the registry is left unchanged, so an identifier
    /// never names two jobs.
    pub fn insert(&mut self, id: &str, job: ExportJob) -> (r: bool)
        requires
            old(self).wf(),
        ensures
            final(self).wf(),
            r == !old(self)@.contains_key(id@),
            r ==> final(self)@ == old(self)@.insert(id@, job@),
            !r ==> final(self)@ == old(self)@,
    {
        match self.find(id) {
            Some(i) => {
                proof {
                    lemma_map_of_has_key(self.entries@, i as int);
                }
                false
            },
            None => {
                let ghost jv = job@;
                self.entries.push((id.to_owned(), job));
                proof {
                    let e = self.entries@;
                    assert(e.drop_last() =~= old(self).entries@);
                    assert(e.last().0@ == id@);
                    assert(e.last().1@ == jv);
                    assert forall|a: int, b: int| 0 <= a < b < e.len() implies e[a].0@
                        != e[b].0@ by {
                        if b < e.len() - 1 {
                            assert(e[a] == old(self).entries@[a]);
                            assert(e[b] == old(self).entries@[b]);
                        } else {
                            assert(e[a] == old(self).entries@[a]);
                            lemma_map_of_has_key(old(self).entries@, a);
                        }
                    }
                }
                true
            },
        }
    }

    /// Removes and returns an identifier's job. Removing an identifier
    /// that is not registered (already reaped, never spawned) changes
    /// nothing and returns nothing.
    pub fn remove(&mut self, id: &str) -> (r: Option<ExportJob>)
        requires
            old(self).wf(),
        ensures
            final(self).wf(),
            final(self)@ == old(self)@.remove(id@),
            match r {
                Some(j) => old(self)@.contains_key(id@) && old(self)@[id@] == j@,
                None => !old(self)@.contains_key(id@),
            },
    {
        match self.find(id) {
            Some(i) => {
                proof {
                    lemma_map_of_index(self.entries@, i as int);
                    lemma_map_of_remove(self.entries@, i as int);
                }
                let entry = self.entries.remove(i);
                Some(entry.1)
            },
            None => {
                proof {
                    assert(old(self)@.remove(id@) =~= old(self)@);
                }
                None
            },
        }
    }

    /// The command and output path recorded for an identifier.
    pub fn lookup(&self, id: &str) -> (r: Option<&ExportJob>)
        requires
            self.wf(),
        ensures
            match r {
                Some(j) => self@.contains_key(id@) && self@[id@] == j@,
                None => !self@.contains_key(id@),
            },
    {
        match self.find(id) {
            Some(i) => {
                proof {
                    lemma_map_of_index(self.entries@, i as int);
                }
                Some(&self.entries[i].1)
            },
            None => None,
        }
    }
}

/// Relies on uuid::Uuid::new_v4 and its hyphenated display form: a fresh
/// random identifier, 36 characters long. Nothing beyond the length is
/// promised of a random value; the registry's insert refuses a duplicate,
/// so a caller can always draw again. The generator aborts if the
/// operating system's randomness source fails — an environmental fault,
/// independent of any input.
#[verifier::external_body]
pub fn fresh_job_id() -> (r: String)
    ensures
        r@.len() == 36,
{
    uuid::Uuid::new_v4().to_string()
}

/// What cancellation should do for an identifier.
#[derive(Clone, Copy, PartialEq, Eq, Structural, Debug)]
pub enum CancelOutcome {
    Kill,
    NothingToCancel,
}

impl JobRegistry {
    /// The cancellation decision: terminate the process when the job is
    /// registered; an unknown or already-finished identifier is a benign
    /// no-op success, never an error.
    pub fn cancel_action(&self, id: &str) -> (r: CancelOutcome)
        ensures
            r == CancelOutcome::Kill <==> self@.contains_key(id@),
    {
        if self.contains(id) {
            CancelOutcome::Kill
        } else {
            CancelOutcome::NothingToCancel
        }
    }
}

} // verus!
