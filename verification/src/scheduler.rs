//! The job queue and scheduler.
//!
//! Jobs are keyed by the canonical input path. A path is idle, queued, or
//! active; submission is idempotent and non-blocking, the dispatcher moves
//! the queue's head into the active set, and a worker must hold one of the
//! bounded slots while its external process runs. The two invariants the
//! whole design rests on are kept by every transition: a path has at most
//! one queued-or-active instance (single-flight), and the count of held
//! slots never exceeds the configured ceiling.
//!
//! The application wraps a [`Scheduler`] in its concurrency primitive of
//! choice and drives these transitions; the transitions themselves carry
//! the logic.

use vstd::prelude::*;
use crate::config::{Config, spec_first_match};
use crate::paths::views;

verus! {

/// Fixed delay before a transiently failed job is re-submitted.
pub const RETRY_BACKOFF_MS: u64 = 5000;

/// What a submission did.
#[derive(Debug, Clone, Copy, PartialEq, Eq, Structural)]
pub enum SubmitOutcome {
    /// No configured input matches the path: silently ignored.
    Ignored,
    /// The path is already being worked on.
    AlreadyActive,
    /// The path is already waiting in the queue.
    AlreadyQueued,
    /// The path was appended to the queue; the caller posts a wake-up.
    Queued,
}

/// The scheduler's abstract state: the queued paths in order, the set of
/// active paths, the held slots, and the slot ceiling.
pub ghost struct SchedulerModel {
    pub queue: Seq<Seq<char>>,
    pub active: Set<Seq<char>>,
    pub running: nat,
    pub cap: nat,
}

/// The two invariants: single-flight (no duplicate queued instance, no
/// queued instance of an active path) and the slot ceiling.
pub open spec fn model_wf(m: SchedulerModel) -> bool {
    &&& m.queue.no_duplicates()
    &&& forall|p: Seq<char>| m.queue.contains(p) ==> !m.active.contains(p)
    &&& m.running <= m.cap
}

/// Submission: a no-op for a path already queued or active, an append to
/// the tail otherwise.
pub open spec fn spec_submit(m: SchedulerModel, p: Seq<char>) -> (SchedulerModel, SubmitOutcome) {
    if m.active.contains(p) {
        (m, SubmitOutcome::AlreadyActive)
    } else if m.queue.contains(p) {
        (m, SubmitOutcome::AlreadyQueued)
    } else {
        (SchedulerModel { queue: m.queue.push(p), ..m }, SubmitOutcome::Queued)
    }
}

/// The dispatcher's step: the queue's head becomes active.
pub open spec fn spec_take_next(m: SchedulerModel) -> (SchedulerModel, Option<Seq<char>>) {
    if m.queue.len() == 0 {
        (m, None)
    } else {
        (
            SchedulerModel {
                queue: m.queue.drop_first(),
                active: m.active.insert(m.queue[0]),
                ..m
            },
            Some(m.queue[0]),
        )
    }
}

/// A worker asks for a slot; granted only below the ceiling.
pub open spec fn spec_try_acquire(m: SchedulerModel) -> (SchedulerModel, bool) {
    if m.running < m.cap {
        (SchedulerModel { running: m.running + 1, ..m }, true)
    } else {
        (m, false)
    }
}

/// A worker gives its slot back.
pub open spec fn spec_release(m: SchedulerModel) -> SchedulerModel {
    SchedulerModel { running: (m.running - 1) as nat, ..m }
}

/// A worker is done with a path, whatever the outcome: the path leaves the
/// active set, so a later submission of it is accepted again.
pub open spec fn spec_finish(m: SchedulerModel, p: Seq<char>) -> SchedulerModel {
    SchedulerModel { active: m.active.remove(p), ..m }
}

proof fn lemma_views_push(v: Seq<String>, s: String)
    ensures
        views(v.push(s)) =~= views(v).push(s@),
{
}

proof fn lemma_seq_push_contains<A>(s: Seq<A>, x: A, y: A)
    ensures
        s.push(x).contains(y) <==> (s.contains(y) || y == x),
{
    if s.push(x).contains(y) {
        let i = choose|i: int| 0 <= i < s.push(x).len() && s.push(x)[i] == y;
        if i < s.len() {
            assert(s[i] == y);
        }
    }
    if s.contains(y) {
        let i = choose|i: int| 0 <= i < s.len() && s[i] == y;
        assert(s.push(x)[i] == y);
    }
    assert(s.push(x)[s.len() as int] == x);
}

proof fn lemma_seq_push_no_dup<A>(s: Seq<A>, x: A)
    requires
        s.no_duplicates(),
        !s.contains(x),
    ensures
        s.push(x).no_duplicates(),
{
    assert forall|i: int, j: int|
        0 <= i < s.push(x).len() && 0 <= j < s.push(x).len() && i != j implies s.push(x)[i]
        != s.push(x)[j] by {
        if i < s.len() && j < s.len() {
        } else if i < s.len() {
            assert(s.push(x)[i] == s[i]);
            assert(s.contains(s[i]));
        } else if j < s.len() {
            assert(s.push(x)[j] == s[j]);
            assert(s.contains(s[j]));
        }
    }
}

proof fn lemma_seq_drop_first_contains<A>(s: Seq<A>, y: A)
    requires
        s.len() > 0,
    ensures
        s.drop_first().contains(y) ==> s.contains(y),
        s.no_duplicates() ==> !s.drop_first().contains(s[0]),
        s.no_duplicates() ==> s.drop_first().no_duplicates(),
{
    if s.drop_first().contains(y) {
        let i = choose|i: int| 0 <= i < s.drop_first().len() && s.drop_first()[i] == y;
        assert(s[i + 1] == y);
    }
    if s.no_duplicates() {
        if s.drop_first().contains(s[0]) {
            let i = choose|i: int| 0 <= i < s.drop_first().len() && s.drop_first()[i] == s[0];
            assert(s[i + 1] == s[0]);
        }
        assert forall|i: int, j: int|
            0 <= i < s.drop_first().len() && 0 <= j < s.drop_first().len() && i != j implies
            s.drop_first()[i] != s.drop_first()[j] by {
            assert(s.drop_first()[i] == s[i + 1]);
            assert(s.drop_first()[j] == s[j + 1]);
        }
    }
}

/// The executable scheduler. Its fields are private so that every change
/// goes through a transition that keeps the invariants.
#[derive(Debug)]
pub struct Scheduler {
    queue: Vec<String>,
    active: Vec<String>,
    running: usize,
    max_parallel: usize,
}

impl Scheduler {
    pub closed spec fn q(self) -> Seq<Seq<char>> {
        views(self.queue@)
    }

    pub closed spec fn act(self) -> Seq<Seq<char>> {
        views(self.active@)
    }

    pub closed spec fn model(self) -> SchedulerModel {
        SchedulerModel {
            queue: self.q(),
            active: self.act().to_set(),
            running: self.running as nat,
            cap: self.max_parallel as nat,
        }
    }

    pub closed spec fn wf(self) -> bool {
        &&& self.q().no_duplicates()
        &&& self.act().no_duplicates()
        &&& forall|p: Seq<char>| self.q().contains(p) ==> !self.act().contains(p)
        &&& self.running <= self.max_parallel
    }

    fn contains_path(v: &Vec<String>, p: &String) -> (r: bool)
        ensures
            r == views(v@).contains(p@),
    {
        let mut i: usize = 0;
        while i < v.len()
            invariant
                i <= v@.len(),
                forall|j: int| 0 <= j < i ==> views(v@)[j] != p@,
            decreases v@.len() - i,
        {
            if v[i].eq(p) {
                proof {
                    assert(views(v@)[i as int] == p@);
                }
                return true;
            }
            i = i + 1;
        }
        false
    }

    fn find_path_index(v: &Vec<String>, p: &String) -> (r: Option<usize>)
        ensures
            match r {
                Some(i) => i < v@.len() && views(v@)[i as int] == p@,
                None => !views(v@).contains(p@),
            },
    {
        let mut i: usize = 0;
        while i < v.len()
            invariant
                i <= v@.len(),
                forall|j: int| 0 <= j < i ==> views(v@)[j] != p@,
            decreases v@.len() - i,
        {
            if v[i].eq(p) {
                return Some(i);
            }
            i = i + 1;
        }
        None
    }

    /// A scheduler with the configured ceiling; absent, the ceiling is one.
    pub fn new(max_parallel_jobs: Option<usize>) -> (r: Self)
        ensures
            r.wf(),
            r.model().queue == Seq::<Seq<char>>::empty(),
            r.model().active =~= Set::<Seq<char>>::empty(),
            r.model().running == 0,
            r.model().cap == (match max_parallel_jobs {
                Some(k) => k as nat,
                None => 1 as nat,
            }),
    {
        let max = match max_parallel_jobs {
            Some(k) => k,
            None => 1,
        };
        let r = Scheduler { queue: Vec::new(), active: Vec::new(), running: 0, max_parallel: max };
        proof {
            assert(r.q() =~= Seq::<Seq<char>>::empty());
            assert(r.act() =~= Seq::<Seq<char>>::empty());
        }
        r
    }

    /// Idempotent, non-blocking submission of a path: a no-op if the path
    /// is already queued or active, otherwise appended to the queue's tail.
    /// After `Queued` the caller posts a wake-up to the dispatcher.
    pub fn submit(&mut self, path: &String) -> (r: SubmitOutcome)
        requires
            old(self).wf(),
        ensures
            final(self).wf(),
            (final(self).model(), r) == spec_submit(old(self).model(), path@),
    {
        if Self::contains_path(&self.active, path) {
            return SubmitOutcome::AlreadyActive;
        }
        if Self::contains_path(&self.queue, path) {
            return SubmitOutcome::AlreadyQueued;
        }
        let ghost oldq = self.q();
        self.queue.push(path.clone());
        proof {
            lemma_views_push(old(self).queue@, *path);
            assert(self.q() == oldq.push(path@));
            lemma_seq_push_no_dup(oldq, path@);
            assert forall|p: Seq<char>| self.q().contains(p) implies !self.act().contains(p) by {
                lemma_seq_push_contains(oldq, path@, p);
            }
        }
        SubmitOutcome::Queued
    }

    /// Submission as the dispatcher sees a reported file: a path with no
    /// matching input is silently ignored, everything else is submitted.
    pub fn process_file(&mut self, config: &Config, path: &String) -> (r: SubmitOutcome)
        requires
            old(self).wf(),
        ensures
            final(self).wf(),
            spec_first_match(config.inputs@, path@) is None ==> r == SubmitOutcome::Ignored
                && *final(self) == *old(self),
            spec_first_match(config.inputs@, path@) is Some ==> (final(self).model(), r)
                == spec_submit(old(self).model(), path@),
    {
        if config.find_matching_input(path.as_str()).is_none() {
            return SubmitOutcome::Ignored;
        }
        self.submit(path)
    }

    /// The dispatcher's drain step: the queue's head leaves the queue and
    /// becomes active, to be handed to a fresh worker.
    pub fn take_next(&mut self) -> (r: Option<String>)
        requires
            old(self).wf(),
        ensures
            final(self).wf(),
            final(self).model() == spec_take_next(old(self).model()).0,
            match (r, spec_take_next(old(self).model()).1) {
                (Some(p), Some(q)) => p@ == q,
                (None, None) => true,
                _ => false,
            },
    {
        if self.queue.len() == 0 {
            return None;
        }
        let ghost oldq = self.q();
        let ghost olda = self.act();
        let p = self.queue.remove(0);
        self.active.push(p.clone());
        proof {
            assert(self.queue@ =~= old(self).queue@.drop_first());
            assert(self.q() =~= oldq.drop_first());
            lemma_views_push(old(self).active@, p);
            assert(self.act() == olda.push(p@));
            assert(p@ == oldq[0]);
            lemma_seq_drop_first_contains(oldq, p@);
            assert(oldq.contains(oldq[0]));
            lemma_seq_push_no_dup(olda, p@);
            assert forall|x: Seq<char>| self.q().contains(x) implies !self.act().contains(x) by {
                lemma_seq_drop_first_contains(oldq, x);
                lemma_seq_push_contains(olda, p@, x);
            }
            assert(self.act().to_set() =~= olda.to_set().insert(p@)) by {
                assert forall|x: Seq<char>| #[trigger] self.act().to_set().contains(x) implies
                    olda.to_set().insert(p@).contains(x) by {
                    lemma_seq_push_contains(olda, p@, x);
                }
                assert forall|x: Seq<char>| #[trigger] olda.to_set().insert(p@).contains(x) implies
                    self.act().to_set().contains(x) by {
                    lemma_seq_push_contains(olda, p@, x);
                }
            }
        }
        Some(p)
    }

    /// Asks for one of the bounded slots; granted only while fewer than the
    /// ceiling are held. The caller retries after a release when refused.
    pub fn try_acquire_slot(&mut self) -> (r: bool)
        requires
            old(self).wf(),
        ensures
            final(self).wf(),
            final(self).model() == spec_try_acquire(old(self).model()).0,
            r == spec_try_acquire(old(self).model()).1,
    {
        if self.running < self.max_parallel {
            self.running = self.running + 1;
            true
        } else {
            false
        }
    }

    /// Gives a held slot back.
    pub fn release_slot(&mut self)
        requires
            old(self).wf(),
            old(self).model().running > 0,
        ensures
            final(self).wf(),
            final(self).model() == spec_release(old(self).model()),
    {
        self.running = self.running - 1;
    }

    /// Marks a worker's path done, whatever the outcome: the path leaves
    /// the active set, so a later submission of it is accepted again.
    pub fn finish(&mut self, path: &String)
        requires
            old(self).wf(),
        ensures
            final(self).wf(),
            final(self).model() == spec_finish(old(self).model(), path@),
    {
        let i = match Self::find_path_index(&self.active, path) {
            Some(i) => i,
            None => {
                proof {
                    assert(self.act().to_set() =~= self.act().to_set().remove(path@));
                }
                return;
            },
        };
        let ghost olda = self.act();
        let _ = self.active.remove(i);
        proof {
            assert(views(self.active@) =~= olda.remove(i as int));
            let newa = olda.remove(i as int);
            assert(olda[i as int] == path@);
            // removal keeps every index of the old sequence except i
            assert forall|k: int| 0 <= k < newa.len() implies (if k < i {
                newa[k] == olda[k]
            } else {
                newa[k] == olda[k + 1]
            }) by {
                olda.remove_ensures(i as int);
            }
            assert(newa.no_duplicates()) by {
                olda.remove_ensures(i as int);
                assert forall|a: int, b: int|
                    0 <= a < newa.len() && 0 <= b < newa.len() && a != b implies newa[a]
                    != newa[b] by {}
            }
            // membership after removal: path@ is gone, everything else stays
            assert(!newa.contains(path@)) by {
                if newa.contains(path@) {
                    let k = choose|k: int| 0 <= k < newa.len() && newa[k] == path@;
                    if k < i {
                        assert(olda[k] == path@);
                    } else {
                        assert(olda[k + 1] == path@);
                    }
                }
            }
            assert forall|x: Seq<char>| x != path@ implies (newa.contains(x) == olda.contains(
                x,
            )) by {
                if newa.contains(x) {
                    let k = choose|k: int| 0 <= k < newa.len() && newa[k] == x;
                    if k < i {
                        assert(olda[k] == x);
                    } else {
                        assert(olda[k + 1] == x);
                    }
                }
                if olda.contains(x) {
                    let k = choose|k: int| 0 <= k < olda.len() && olda[k] == x;
                    if k < i {
                        assert(newa[k] == x);
                    } else if k > i {
                        assert(newa[k - 1] == x);
                    }
                }
            }
            assert(newa.to_set() =~= olda.to_set().remove(path@));
            assert forall|x: Seq<char>| self.q().contains(x) implies !newa.contains(x) by {}
        }
    }

    /// How many paths wait in the queue.
    pub fn queue_len(&self) -> (r: usize)
        ensures
            r == self.model().queue.len(),
    {
        self.queue.len()
    }

    /// Whether a path is currently active.
    pub fn is_active(&self, path: &String) -> (r: bool)
        ensures
            r == self.model().active.contains(path@),
    {
        Self::contains_path(&self.active, path)
    }

    /// How many slots are held.
    pub fn running_count(&self) -> (r: usize)
        ensures
            r == self.model().running,
    {
        self.running
    }

    /// The slot ceiling.
    pub fn capacity(&self) -> (r: usize)
        ensures
            r == self.model().cap,
    {
        self.max_parallel
    }
}

/// Exec well-formedness implies the model's invariants.
pub proof fn lemma_wf_model(s: Scheduler)
    requires
        s.wf(),
    ensures
        model_wf(s.model()),
{
}

/// Single-flight: under the invariants, a path has at most one instance
/// across the queue and the active set — an active path is never queued,
/// and the queue holds no duplicates.
pub proof fn lemma_single_flight(m: SchedulerModel, p: Seq<char>)
    requires
        model_wf(m),
    ensures
        m.active.contains(p) ==> !m.queue.contains(p),
        forall|i: int, j: int|
            0 <= i < j < m.queue.len() ==> !(m.queue[i] == p && m.queue[j] == p),
{
    if m.queue.contains(p) {
        assert(!m.active.contains(p));
    }
}

/// Duplicate submissions collapse: once a submission was accepted, any
/// further submission of the same path changes nothing and is not queued
/// again, so N concurrent duplicate submissions lead to one execution.
pub proof fn lemma_submit_idempotent(m: SchedulerModel, p: Seq<char>)
    ensures
        spec_submit(spec_submit(m, p).0, p).0 == spec_submit(m, p).0,
        spec_submit(spec_submit(m, p).0, p).1 != SubmitOutcome::Queued,
{
    let m1 = spec_submit(m, p).0;
    if !m.active.contains(p) && !m.queue.contains(p) {
        assert(m.queue.push(p)[m.queue.len() as int] == p);
        assert(m1.queue.contains(p));
    }
}

/// The slot ceiling holds across every transition: acquiring keeps the
/// count at or below the capacity, and no other transition changes the
/// count or the capacity.
pub proof fn lemma_bounded_running(m: SchedulerModel, p: Seq<char>)
    requires
        m.running <= m.cap,
    ensures
        spec_try_acquire(m).0.running <= m.cap,
        spec_try_acquire(m).1 == (m.running < m.cap),
        spec_submit(m, p).0.running == m.running && spec_submit(m, p).0.cap == m.cap,
        spec_take_next(m).0.running == m.running && spec_take_next(m).0.cap == m.cap,
        spec_finish(m, p).running == m.running && spec_finish(m, p).cap == m.cap,
        m.running > 0 ==> spec_release(m).running == m.running - 1 && spec_release(m).cap == m.cap,
{
}

/// The retry path: after a worker finishes a path that is not also queued,
/// exactly one re-submission of it is accepted, and a second one is not.
pub proof fn lemma_requeue_after_finish(m: SchedulerModel, p: Seq<char>)
    requires
        !m.queue.contains(p),
    ensures
        spec_submit(spec_finish(m, p), p).1 == SubmitOutcome::Queued,
        spec_submit(spec_submit(spec_finish(m, p), p).0, p).1 != SubmitOutcome::Queued,
{
    let m1 = spec_finish(m, p);
    assert(!m1.active.contains(p));
    lemma_submit_idempotent(m1, p);
}

/// Every transition preserves the invariants.
pub proof fn lemma_transitions_preserve_wf(m: SchedulerModel, p: Seq<char>)
    requires
        model_wf(m),
    ensures
        model_wf(spec_submit(m, p).0),
        model_wf(spec_take_next(m).0),
        model_wf(spec_try_acquire(m).0),
        model_wf(spec_finish(m, p)),
        m.running > 0 ==> model_wf(spec_release(m)),
{
    if !m.active.contains(p) && !m.queue.contains(p) {
        lemma_seq_push_no_dup(m.queue, p);
        assert forall|x: Seq<char>| spec_submit(m, p).0.queue.contains(x) implies !m.active.contains(
            x,
        ) by {
            lemma_seq_push_contains(m.queue, p, x);
        }
    }
    if m.queue.len() > 0 {
        lemma_seq_drop_first_contains(m.queue, p);
        assert forall|x: Seq<char>| spec_take_next(m).0.queue.contains(x) implies !spec_take_next(
            m,
        ).0.active.contains(x) by {
            lemma_seq_drop_first_contains(m.queue, x);
            if x == m.queue[0] {
                let k = choose|k: int|
                    0 <= k < m.queue.drop_first().len() && m.queue.drop_first()[k] == x;
                assert(m.queue[k + 1] == m.queue[0]);
            }
        }
    }
    assert forall|x: Seq<char>| spec_finish(m, p).queue.contains(x) implies !spec_finish(
        m,
        p,
    ).active.contains(x) by {}
}

} // verus!
